//! Paths of a mounted tree, as text with `/` between the segments: the path
//! of an entry below a root, and the name that a root goes by.

use vstd::prelude::*;
use vstd::string::StringExecFns;

use crate::text::{chars_of, text_of};

verus! {

/// `path` without what follows its last segment: separators, and segments
/// that are a single `.`.
pub open spec fn strip_tail(path: Seq<char>) -> Seq<char>
    decreases path.len(),
{
    if path.len() >= 1 && path.last() == '/' {
        strip_tail(path.drop_last())
    } else if path.len() >= 2 && path.last() == '.' && path[path.len() - 2] == '/' {
        strip_tail(path.take(path.len() - 2))
    } else {
        path
    }
}

/// What stands behind the last separator of `path`; all of `path` if it holds
/// no separator.
pub open spec fn last_segment(path: Seq<char>) -> Seq<char>
    decreases path.len(),
{
    if path.len() == 0 || path.last() == '/' {
        Seq::empty()
    } else {
        last_segment(path.drop_last()).push(path.last())
    }
}

/// The final component of `path`: its last segment, trailing separators and
/// `.` segments aside. A path that ends in `..`, or that holds nothing but
/// separators and `.`, has none.
pub open spec fn final_component(path: Seq<char>) -> Option<Seq<char>> {
    let segment = last_segment(strip_tail(path));
    if segment.len() == 0 || segment =~= seq!['.'] || segment =~= seq!['.', '.'] {
        None
    } else {
        Some(segment)
    }
}

/// The path of `name` below `root`: the two with one separator between them,
/// unless `root` is empty or ends with a separator already.
pub open spec fn join(root: Seq<char>, name: Seq<char>) -> Seq<char> {
    if root.len() == 0 || root.last() == '/' {
        root + name
    } else {
        root + seq!['/'] + name
    }
}

/// A name without a separator, put behind a separator or behind nothing, is
/// the last segment of the whole.
proof fn lemma_last_segment_of_appended(head: Seq<char>, name: Seq<char>)
    requires
        head.len() == 0 || head.last() == '/',
        !name.contains('/'),
    ensures
        last_segment(head + name) == name,
    decreases name.len(),
{
    if name.len() > 0 {
        let shorter = name.drop_last();
        assert forall|i: int| 0 <= i < shorter.len() implies shorter[i] != '/' by {
            assert(name.contains(name[i]));
        }
        lemma_last_segment_of_appended(head, shorter);
        assert((head + name).drop_last() =~= head + shorter);
    }
}

/// The path of a name that holds no separator lies directly below the root:
/// it begins with the root and its last segment is the name, so that no name
/// leads out of the root or deeper into it.
pub proof fn lemma_join_lies_below_root(root: Seq<char>, name: Seq<char>)
    requires
        !name.contains('/'),
    ensures
        join(root, name).len() >= root.len(),
        join(root, name).take(root.len() as int) == root,
        last_segment(join(root, name)) == name,
{
    if root.len() == 0 || root.last() == '/' {
        lemma_last_segment_of_appended(root, name);
    } else {
        lemma_last_segment_of_appended(root + seq!['/'], name);
    }
}

/// Finds the final component of `path`, if it has one.
pub fn find_final_component(path: &str) -> (name: Option<String>)
    ensures
        text_of(name) == final_component(path@),
{
    let chars = chars_of(path);
    let mut end: usize = chars.len();
    assert(chars@.take(end as int) =~= chars@);
    loop
        invariant_except_break
            end <= chars.len(),
            strip_tail(chars@) == strip_tail(chars@.take(end as int)),
        ensures
            end <= chars.len(),
            strip_tail(chars@) == chars@.take(end as int),
        decreases end,
    {
        let ghost kept = chars@.take(end as int);
        if end >= 1 && chars[end - 1] == '/' {
            assert(kept.drop_last() =~= chars@.take(end - 1));
            end -= 1;
        } else if end >= 2 && chars[end - 1] == '.' && chars[end - 2] == '/' {
            assert(kept.take(kept.len() - 2) =~= chars@.take(end - 2));
            end -= 2;
        } else {
            break;
        }
    }
    let ghost stripped = chars@.take(end as int);
    let mut start: usize = end;
    while start > 0 && chars[start - 1] != '/'
        invariant
            start <= end <= chars.len(),
            stripped == chars@.take(end as int),
            last_segment(stripped) == last_segment(chars@.take(start as int)) + chars@.subrange(
                start as int,
                end as int,
            ),
        decreases start,
    {
        proof {
            let head = chars@.take(start as int);
            assert(head.drop_last() =~= chars@.take(start - 1));
        }
        start -= 1;
    }
    let ghost segment = chars@.subrange(start as int, end as int);
    assert(last_segment(stripped) =~= segment);
    let len = end - start;
    if len == 0 {
        None
    } else if len == 1 && chars[start] == '.' {
        None
    } else if len == 2 && chars[start] == '.' && chars[start + 1] == '.' {
        None
    } else {
        assert(segment[0] == chars[start as int]);
        assert(len == 2 ==> segment[1] == chars[start + 1]);
        Some(path.substring_char(start, end).to_owned())
    }
}

/// Makes the path of `name` below `root`.
pub fn join_path(root: &str, name: &str) -> (path: String)
    ensures
        path@ == join(root@, name@),
{
    let len = root.unicode_len();
    let mut path = root.to_owned();
    if len > 0 && root.get_char(len - 1) != '/' {
        proof {
            reveal_strlit("/");
        }
        path.append("/");
    }
    path.append(name);
    path
}

} // verus!
