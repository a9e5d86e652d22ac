use std::any::Any;

use service_bindings::binding::{Binding, CacheBinding, HashMapBinding};
use service_bindings::bindings;
use service_bindings::bindings::{Child, Root};

fn map(pairs: &[(&str, &str)]) -> Vec<(String, Vec<u8>)> {
    let mut content = Vec::new();
    for (key, value) in pairs {
        content.push((key.to_string(), value.as_bytes().to_vec()));
    }
    content
}

fn four_bindings() -> Vec<HashMapBinding> {
    vec![
        HashMapBinding::new("test-name-1", map(&[
            ("type", "test-type-1"),
            ("provider", "test-provider-1"),
        ])),
        HashMapBinding::new("test-name-2", map(&[
            ("type", "test-type-1"),
            ("provider", "test-provider-2"),
        ])),
        HashMapBinding::new("test-name-3", map(&[
            ("type", "test-type-2"),
            ("provider", "test-provider-2"),
        ])),
        HashMapBinding::new("test-name-4", map(&[
            ("type", "test-type-2"),
        ])),
    ]
}

fn testdata() -> Root {
    Root::Directory {
        children: vec![
            Child::File { name: "additional-file".to_string() },
            Child::Directory { name: "test-k8s".to_string() },
            Child::Directory { name: "test-name-1".to_string() },
            Child::Directory { name: "test-name-2".to_string() },
        ],
    }
}

#[test]
fn cached() {
    let b = bindings::cached(vec![
        HashMapBinding::new("test-name-1", Vec::new()),
        HashMapBinding::new("test-name-2", Vec::new()),
    ]);

    for c in b {
        let d: Box<dyn Any> = Box::new(c);
        let _: &CacheBinding<HashMapBinding> = match d.downcast_ref::<CacheBinding<HashMapBinding>>() {
            Some(b) => b,
            None => panic!()
        };
    }
}

#[test]
fn from_invalid() {
    assert!(bindings::from(Root::Missing).is_empty());
}

#[test]
fn from_file() {
    assert!(bindings::from(Root::NotDirectory).is_empty());
}

#[test]
fn from_valid() {
    assert_eq!(3, bindings::from(testdata()).len());
}

#[test]
fn from_service_binding_root_unset() {
    assert!(bindings::from_service_binding_root(None).is_empty());
}

#[test]
fn from_service_binding_root_set() {
    assert_eq!(3, bindings::from_service_binding_root(Some(testdata())).len());
}

#[test]
fn find_missing() {
    let b = vec![
        HashMapBinding::new("test-name-1", Vec::new()),
    ];

    assert!(bindings::find(b, "test-name-2").is_none())
}

#[test]
fn find_valid() {
    let b = vec![
        HashMapBinding::new("test-name-1", Vec::new()),
        HashMapBinding::new("test-name-2", Vec::new()),
    ];

    assert_eq!(Some(String::from("test-name-1")), bindings::find(b, "test-name-1").map(|q| q.get_name()))
}

#[test]
fn filter_none() {
    let b = four_bindings();

    let q = bindings::filter_with_provider(b, None, None);
    assert_eq!(4, q.len());
}

#[test]
fn filter_type() {
    let b = four_bindings();

    assert_eq!(2, bindings::filter_with_provider(b, Some("test-type-1"), None).len());
}

#[test]
fn filter_provider() {
    let b = four_bindings();

    assert_eq!(2, bindings::filter_with_provider(b, None, Some("test-provider-2")).len());
}

#[test]
fn filter_type_and_provider() {
    let b = four_bindings();

    assert_eq!(1, bindings::filter_with_provider(b, Some("test-type-1"), Some("test-provider-1")).len());
}

#[test]
fn filter_overload() {
    let b = four_bindings();

    assert_eq!(2, bindings::filter(b, "test-type-1").len());
}

fn names(bindings: &Vec<HashMapBinding>) -> Vec<String> {
    let mut names = Vec::new();
    for binding in bindings {
        names.push(binding.get_name());
    }
    names
}

#[test]
fn cached_keeps_order_and_content() {
    let mut b = bindings::cached(four_bindings());

    assert_eq!(4, b.len());
    assert_eq!("test-name-1", b[0].get_name());
    assert_eq!("test-name-2", b[1].get_name());
    assert_eq!("test-name-3", b[2].get_name());
    assert_eq!("test-name-4", b[3].get_name());
    assert_eq!(Some("test-provider-2".to_string()), b[2].get_provider());
    assert_eq!(None, b[3].get_provider());
}

#[test]
fn cached_bindings_can_be_filtered() {
    let b = bindings::cached(four_bindings());
    let q = bindings::filter_with_provider(b, Some("TEST-TYPE-2"), Some("test-provider-2"));

    assert_eq!(1, q.len());
    assert_eq!("test-name-3", q[0].get_name());
}

#[test]
fn from_unreadable() {
    assert!(bindings::from(Root::Unreadable).is_empty());
}

#[test]
fn from_empty_directory() {
    assert!(bindings::from(Root::Directory { children: Vec::new() }).is_empty());
}

#[test]
fn from_three_directories() {
    let root = Root::Directory {
        children: vec![
            Child::Directory { name: "b".to_string() },
            Child::Directory { name: "a".to_string() },
            Child::Directory { name: "c".to_string() },
        ],
    };
    assert_eq!(3, bindings::from(root).len());
}

#[test]
fn from_names_bindings_after_directories_in_order() {
    let root = Root::Directory {
        children: vec![
            Child::Directory { name: "second".to_string() },
            Child::Unreadable,
            Child::File { name: "a-file".to_string() },
            Child::Directory { name: "first".to_string() },
        ],
    };
    let mut b = bindings::from(root);

    assert_eq!(vec!["second".to_string(), "first".to_string()], names(&b));
    assert_eq!(None, b[0].get_as_bytes("type"));
    assert!(b[1].get_type().is_err());
}

#[test]
fn find_ignores_case() {
    let b = vec![
        HashMapBinding::new("other", Vec::new()),
        HashMapBinding::new("Test-Name", Vec::new()),
    ];

    assert_eq!(Some(String::from("Test-Name")), bindings::find(b, "test-name").map(|q| q.get_name()));

    let b = vec![HashMapBinding::new("test-name", Vec::new())];
    assert_eq!(Some(String::from("test-name")), bindings::find(b, "TEST-NAME").map(|q| q.get_name()));
}

#[test]
fn find_ignores_the_case_of_ascii_letters_only() {
    let b = vec![HashMapBinding::new("caf\u{e9}", Vec::new())];
    assert!(bindings::find(b, "CAF\u{c9}").is_none());

    let b = vec![HashMapBinding::new("caf\u{e9}", Vec::new())];
    assert!(bindings::find(b, "CAF\u{e9}").is_some());

    let b = vec![HashMapBinding::new("test-name", Vec::new())];
    assert!(bindings::find(b, "test_name").is_none());

    let b = vec![HashMapBinding::new("test-name", Vec::new())];
    assert!(bindings::find(b, "test-name-").is_none());
}

#[test]
fn find_returns_the_first_match() {
    let b = vec![
        HashMapBinding::new("other", map(&[("type", "zero")])),
        HashMapBinding::new("Test-Name", map(&[("type", "one")])),
        HashMapBinding::new("test-name", map(&[("type", "two")])),
    ];

    let mut found = bindings::find(b, "TEST-name").unwrap();
    assert_eq!("Test-Name", found.get_name());
    assert_eq!(Ok("one".to_string()), found.get_type());
}

#[test]
fn find_in_nothing() {
    let b: Vec<HashMapBinding> = Vec::new();
    assert!(bindings::find(b, "test-name").is_none());
}

#[test]
fn filter_none_keeps_order() {
    let q = bindings::filter_with_provider(four_bindings(), None, None);

    assert_eq!(
        vec![
            "test-name-1".to_string(),
            "test-name-2".to_string(),
            "test-name-3".to_string(),
            "test-name-4".to_string(),
        ],
        names(&q)
    );
}

#[test]
fn filter_keeps_the_order_of_what_stays() {
    let q = bindings::filter_with_provider(four_bindings(), None, Some("test-provider-2"));
    assert_eq!(vec!["test-name-2".to_string(), "test-name-3".to_string()], names(&q));

    let q = bindings::filter_with_provider(four_bindings(), Some("test-type-2"), None);
    assert_eq!(vec!["test-name-3".to_string(), "test-name-4".to_string()], names(&q));

    let q = bindings::filter_with_provider(four_bindings(), Some("test-type-1"), Some("test-provider-1"));
    assert_eq!(vec!["test-name-1".to_string()], names(&q));
}

#[test]
fn filter_ignores_case() {
    let q = bindings::filter_with_provider(four_bindings(), Some("TEST-Type-1"), Some("Test-PROVIDER-2"));
    assert_eq!(vec!["test-name-2".to_string()], names(&q));
}

#[test]
fn filter_excludes_a_binding_without_a_type() {
    let b = vec![
        HashMapBinding::new("typed", map(&[("type", "test-type-1")])),
        HashMapBinding::new("untyped", map(&[("provider", "test-provider-1")])),
        HashMapBinding::new("empty", Vec::new()),
    ];

    let q = bindings::filter_with_provider(b, Some("test-type-1"), None);
    assert_eq!(vec!["typed".to_string()], names(&q));
}

#[test]
fn filter_excludes_a_binding_without_a_provider() {
    let q = bindings::filter_with_provider(four_bindings(), Some("test-type-2"), Some("test-provider-2"));
    assert_eq!(vec!["test-name-3".to_string()], names(&q));
}

#[test]
fn filter_compares_trimmed_values() {
    let b = vec![HashMapBinding::new("db", map(&[("type", "postgresql\n"), ("provider", " bitnami ")]))];

    let q = bindings::filter_with_provider(b, Some("PostgreSQL"), Some("bitnami"));
    assert_eq!(1, q.len());
}

#[test]
fn filter_with_no_match_is_empty() {
    assert!(bindings::filter(four_bindings(), "test-type-3").is_empty());
    assert!(bindings::filter(Vec::<HashMapBinding>::new(), "test-type-1").is_empty());
}

#[test]
fn from_service_binding_root_of_what_is_no_directory() {
    assert!(bindings::from_service_binding_root(Some(Root::Missing)).is_empty());
    assert!(bindings::from_service_binding_root(Some(Root::NotDirectory)).is_empty());
    assert!(bindings::from_service_binding_root(Some(Root::Unreadable)).is_empty());
}

#[test]
fn from_service_binding_root_names_the_bindings() {
    let b = bindings::from_service_binding_root(Some(testdata()));
    assert_eq!(
        vec!["test-k8s".to_string(), "test-name-1".to_string(), "test-name-2".to_string()],
        names(&b)
    );
}
