use service_bindings::secret::is_valid_secret_key;

#[test]
fn is_valid_secret_key_valid() {
    let valid = [
        "alpha",
        "BRAVO",
        "Charlie",
        "delta01",
        "echo-foxtrot",
        "golf_hotel",
        "india.juliet",
        ".kilo",
    ];

    for v in valid {
        assert!(is_valid_secret_key(v));
    }
}

#[test]
fn is_valid_secret_key_invalid() {
    let valid = [
        "lima^mike",
    ];

    for v in valid {
        assert!(!is_valid_secret_key(v));
    }
}

#[test]
fn is_valid_secret_key_takes_every_key_character() {
    assert!(is_valid_secret_key("ABCDEFGHIJKLMNOPQRSTUVWXYZabcdefghijklmnopqrstuvwxyz0123456789-_."));
    assert!(is_valid_secret_key("a"));
    assert!(is_valid_secret_key("-"));
    assert!(is_valid_secret_key("."));
    assert!(is_valid_secret_key(".."));
}

#[test]
fn is_valid_secret_key_refuses_the_empty_key() {
    assert!(!is_valid_secret_key(""));
}

#[test]
fn is_valid_secret_key_refuses_any_other_character() {
    let invalid = [
        "test^invalid^key",
        "^",
        "a/b",
        "/",
        "a\\b",
        "a b",
        " a",
        "a\n",
        "\na",
        "a\tb",
        "a\u{0}",
        "a:b",
        "a+b",
        "a$",
        "[a]",
        "caf\u{e9}",
        "\u{ff21}",
    ];

    for v in invalid {
        assert!(!is_valid_secret_key(v));
    }
}
