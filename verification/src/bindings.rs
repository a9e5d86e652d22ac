//! Operations on collections of bindings: wrapping them with caches, making
//! them from what a root directory holds, finding one by name, and filtering
//! them by type and provider.

use vstd::prelude::*;

use crate::binding::{Binding, CacheBinding, Content, HashMapBinding, PROVIDER, TYPE};
use crate::text::equal_ignoring_ascii_case;

verus! {

/// The name of the environment variable that holds the root of the bindings.
pub const SERVICE_BINDING_ROOT: &'static str = "SERVICE_BINDING_ROOT";

/// What the file system shows of one child of a directory.
pub enum Child {
    /// A child that could not be read.
    Unreadable,
    /// A child that is not a directory.
    File { name: String },
    /// A child that is a directory.
    Directory { name: String },
}

/// What the file system shows at the root of the bindings.
pub enum Root {
    /// Nothing exists there.
    Missing,
    /// Something that is not a directory.
    NotDirectory,
    /// A directory whose children could not be listed.
    Unreadable,
    /// A directory, with its children in the order of the listing.
    Directory { children: Vec<Child> },
}

/// The contents of the bindings of a sequence, one by one.
pub open spec fn contents<B: Binding>(bindings: Seq<B>) -> Seq<Content> {
    bindings.map_values(|binding: B| binding.content())
}

/// Whether every binding of a sequence is well formed.
pub open spec fn all_well_formed<B: Binding>(bindings: Seq<B>) -> bool {
    forall|i: int| 0 <= i < bindings.len() ==> (#[trigger] bindings[i]).well_formed()
}

/// The content of the binding that stands for a directory of the given name:
/// the name, and no entries.
pub open spec fn placeholder(name: Seq<char>) -> Content {
    Content { name, entries: Map::empty() }
}

/// The binding that a child of the root gives rise to: one for a directory,
/// none for anything else.
pub open spec fn binding_of(child: Child) -> Option<Content> {
    match child {
        Child::Directory { name } => Some(placeholder(name@)),
        _ => None,
    }
}

/// The bindings that the children of a root give rise to: one for each child
/// that is a directory, in the order of the listing.
pub open spec fn discovered_among(children: Seq<Child>) -> Seq<Content> {
    children.filter_map(|child: Child| binding_of(child))
}

/// The bindings that a root gives rise to: those of its children where it is
/// a directory that could be listed, none where it is anything else.
pub open spec fn discovered(root: Root) -> Seq<Content> {
    match root {
        Root::Directory { children } => discovered_among(children@),
        _ => Seq::empty(),
    }
}

/// The bindings that the root named by the environment gives rise to: those
/// of the root where the variable is set, none where it is not.
pub open spec fn discovered_from_environment(root: Option<Root>) -> Seq<Content> {
    match root {
        Some(root) => discovered(root),
        None => Seq::empty(),
    }
}

/// Children that are all directories give one binding each: as many
/// bindings as children, each named after the child in its place.
pub proof fn lemma_every_directory_is_discovered(children: Seq<Child>)
    requires
        forall|i: int| 0 <= i < children.len() ==> #[trigger] children[i] is Directory,
    ensures
        discovered_among(children).len() == children.len(),
        forall|i: int|
            0 <= i < children.len() ==> Some(#[trigger] discovered_among(children)[i])
                == binding_of(children[i]),
    decreases children.len(),
{
    if children.len() > 0 {
        lemma_every_directory_is_discovered(children.drop_last());
    }
}

/// Whether a binding goes by `name`, the case of ASCII letters aside.
pub open spec fn is_named(content: Content, name: Seq<char>) -> bool {
    equal_ignoring_ascii_case(content.name, name)
}

/// Whether the binding at `index` is the first of the sequence that goes by
/// `name`.
pub open spec fn is_first_named<B: Binding>(bindings: Seq<B>, name: Seq<char>, index: int) -> bool {
    &&& 0 <= index < bindings.len()
    &&& is_named(bindings[index].content(), name)
    &&& forall|j: int| 0 <= j < index ==> !is_named(#[trigger] bindings[j].content(), name)
}

/// The characters of a filter: `None` where no filter is given.
pub open spec fn wanted(filter: Option<&str>) -> Option<Seq<char>> {
    match filter {
        Some(text) => Some(text@),
        None => None,
    }
}

/// Whether `found` meets `filter`. No filter is met by anything; a filter is
/// met by a value that equals it up to the case of ASCII letters, and never
/// by a missing value.
pub open spec fn meets(found: Option<Seq<char>>, filter: Option<Seq<char>>) -> bool {
    match filter {
        None => true,
        Some(expected) => match found {
            Some(actual) => equal_ignoring_ascii_case(actual, expected),
            None => false,
        },
    }
}

/// Whether a binding is selected by a type and a provider filter: its type
/// meets the one and its provider the other.
pub open spec fn selects(
    content: Content,
    binding_type: Option<Seq<char>>,
    provider: Option<Seq<char>>,
) -> bool {
    meets(content.binding_type(), binding_type) && meets(content.provider(), provider)
}

/// Whether the entries that the two filters read are text: the type where
/// there is a type filter, the provider where there is a provider filter and
/// the type has met its filter.
pub open spec fn can_select(
    content: Content,
    binding_type: Option<Seq<char>>,
    provider: Option<Seq<char>>,
) -> bool {
    &&& binding_type is Some ==> content.is_text(TYPE@)
    &&& provider is Some && meets(content.binding_type(), binding_type) ==> content.is_text(
        PROVIDER@,
    )
}

/// Without a filter every binding is selected.
pub proof fn lemma_no_filter_selects_all(content: Content)
    ensures
        selects(content, None, None),
{
}

/// Filtering without a filter keeps the contents as they are, in length and
/// in order.
pub proof fn lemma_no_filter_keeps_all(contents: Seq<Content>)
    ensures
        contents.filter(|content: Content| selects(content, None, None)) == contents,
    decreases contents.len(),
{
    reveal(Seq::filter);
    if contents.len() > 0 {
        lemma_no_filter_keeps_all(contents.drop_last());
    }
}

/// A binding that declares no type is selected by no type filter, whatever
/// the provider filter is.
pub proof fn lemma_untyped_is_never_selected(
    content: Content,
    binding_type: Seq<char>,
    provider: Option<Seq<char>>,
)
    requires
        content.binding_type() is None,
    ensures
        !selects(content, Some(binding_type), provider),
{
}

/// What a filter keeps is selected by it and was there before, and it keeps
/// no more than there was.
pub proof fn lemma_filter_keeps_only_selected(
    contents: Seq<Content>,
    binding_type: Option<Seq<char>>,
    provider: Option<Seq<char>>,
    index: int,
)
    requires
        0 <= index < contents.filter(
            |content: Content| selects(content, binding_type, provider),
        ).len(),
    ensures
        selects(
            contents.filter(|content: Content| selects(content, binding_type, provider))[index],
            binding_type,
            provider,
        ),
        contents.contains(
            contents.filter(|content: Content| selects(content, binding_type, provider))[index],
        ),
        contents.filter(|content: Content| selects(content, binding_type, provider)).len()
            <= contents.len(),
{
    let selected = |content: Content| selects(content, binding_type, provider);
    let kept = contents.filter(selected);
    contents.lemma_filter_pred(selected, index);
    contents.lemma_filter_contains_rev(selected, kept[index]);
    contents.lemma_filter_len(selected);
}

/// Wraps each `Binding` in a `CacheBinding` that remembers nothing yet.
///
/// * `bindings` - the bindings to wrap
/// returns the wrapped `Binding`s, in the same order
pub fn cached<B: Binding>(bindings: Vec<B>) -> (wrapped: Vec<CacheBinding<B>>)
    requires
        all_well_formed(bindings@),
    ensures
        all_well_formed(wrapped@),
        wrapped.len() == bindings.len(),
        forall|i: int|
            0 <= i < bindings.len() ==> {
                &&& (#[trigger] wrapped[i]).delegate() == bindings[i]
                &&& wrapped[i].remembered() == Map::<Seq<char>, Seq<u8>>::empty()
            },
{
    let ghost all = bindings@;
    let mut wrapped: Vec<CacheBinding<B>> = Vec::new();
    for binding in iter: bindings.into_iter()
        invariant
            iter.seq() == all,
            all_well_formed(all),
            all_well_formed(wrapped@),
            wrapped.len() == iter.index(),
            forall|i: int|
                0 <= i < wrapped.len() ==> {
                    &&& (#[trigger] wrapped[i]).delegate() == all[i]
                    &&& wrapped[i].remembered() == Map::<Seq<char>, Seq<u8>>::empty()
                },
    {
        wrapped.push(CacheBinding::new(binding));
    }
    wrapped
}

/// Creates a new collection of `Binding`s from what the file system shows at a
/// root: one binding for each child directory, named after it. If the root
/// does not exist, is not a directory or cannot be listed, an empty collection
/// is returned.
///
/// * `root` - what was found at the root to populate the `Binding`s from
/// returns the `Binding`s found in the root
pub fn from(root: Root) -> (bindings: Vec<HashMapBinding>)
    ensures
        all_well_formed(bindings@),
        contents(bindings@) == discovered(root),
{
    match root {
        Root::Directory { children } => {
            let ghost all = children@;
            let ghost binding_of = |child: Child| binding_of(child);
            let mut bindings: Vec<HashMapBinding> = Vec::new();
            for child in iter: children.into_iter()
                invariant
                    iter.seq() == all,
                    binding_of == (|child: Child| self::binding_of(child)),
                    all_well_formed(bindings@),
                    contents(bindings@) =~= all.take(iter.index() as int).filter_map(binding_of),
            {
                proof {
                    all.lemma_filter_map_take_succ(binding_of, iter.index() as int);
                }
                match child {
                    Child::Directory { name } => {
                        bindings.push(HashMapBinding::new(name.as_str(), Vec::new()));
                    },
                    _ => {},
                }
            }
            proof {
                assert(all.take(all.len() as int) =~= all);
            }
            bindings
        },
        _ => Vec::new(),
    }
}

/// Creates a new collection of `Binding`s from the root that the
/// `$SERVICE_BINDING_ROOT` environment variable names. If the variable is not
/// set, an empty collection is returned. If the directory does not exist, an
/// empty collection is returned.
///
/// * `root` - what was found at the root that the variable names, `None` if
///   the variable is not set
/// returns the `Binding`s found in `$SERVICE_BINDING_ROOT`
pub fn from_service_binding_root(root: Option<Root>) -> (bindings: Vec<HashMapBinding>)
    ensures
        all_well_formed(bindings@),
        contents(bindings@) == discovered_from_environment(root),
{
    match root {
        Some(root) => from(root),
        None => Vec::new(),
    }
}

/// Returns a `Binding` with a given name: the first of the collection whose
/// name equals `name`. Comparison is case insensitive.
///
/// * `bindings` - the `Binding`s to find in
/// * `name` - the name of the `Binding` to find
/// returns the `Binding` with a given name if it exists.
pub fn find<B: Binding>(bindings: Vec<B>, name: &str) -> (found: Option<B>)
    requires
        all_well_formed(bindings@),
    ensures
        match found {
            Some(binding) => exists|i: int|
                is_first_named(bindings@, name@, i) && binding == bindings[i],
            None => forall|i: int|
                0 <= i < bindings.len() ==> !is_named(#[trigger] bindings[i].content(), name@),
        },
{
    let mut rest = bindings;
    let mut i: usize = 0;
    while i < rest.len()
        invariant
            rest == bindings,
            all_well_formed(bindings@),
            i <= bindings.len(),
            forall|j: int| 0 <= j < i ==> !is_named(#[trigger] bindings[j].content(), name@),
        decreases bindings.len() - i,
    {
        let candidate = rest[i].get_name();
        if candidate.as_str().eq_ignore_ascii_case(name) {
            return Some(rest.swap_remove(i));
        }
        i += 1;
    }
    None
}

/// Tells whether a binding is selected by the two filters, reading its type
/// and its provider only as far as the filters ask.
fn is_selected<B: Binding>(binding: &mut B, binding_type: Option<&str>, provider: Option<&str>) -> (selected: bool)
    requires
        old(binding).well_formed(),
        can_select(old(binding).content(), wanted(binding_type), wanted(provider)),
    ensures
        final(binding).well_formed(),
        final(binding).content() == old(binding).content(),
        selected == selects(old(binding).content(), wanted(binding_type), wanted(provider)),
        binding_type is None && provider is None ==> *final(binding) == *old(binding),
{
    if let Some(expected) = binding_type {
        match binding.get_type() {
            Err(_) => {
                return false;
            },
            Ok(actual) => {
                if !actual.as_str().eq_ignore_ascii_case(expected) {
                    return false;
                }
            },
        }
    }
    if let Some(expected) = provider {
        match binding.get_provider() {
            None => {
                return false;
            },
            Some(actual) => {
                if !actual.as_str().eq_ignore_ascii_case(expected) {
                    return false;
                }
            },
        }
    }
    true
}

/// Returns zero or more `Binding`s with a given type and provider. If type or
/// provider are `None`, the result is not filtered on that argument. A
/// binding without a type meets no type filter, and one without a provider no
/// provider filter. Comparisons are case-insensitive. The bindings that stay
/// keep their order.
///
/// * `bindings` - the `Binding`s to filter
/// * `binding_type` - the type of the `Binding` to find
/// * `provider` - the provider of the `Binding` to find.
///
/// returns the collection of `Binding`s with a given type and provider
pub fn filter_with_provider<B: Binding>(
    bindings: Vec<B>,
    binding_type: Option<&str>,
    provider: Option<&str>,
) -> (kept: Vec<B>)
    requires
        all_well_formed(bindings@),
        forall|i: int|
            0 <= i < bindings.len() ==> can_select(
                (#[trigger] bindings[i]).content(),
                wanted(binding_type),
                wanted(provider),
            ),
    ensures
        all_well_formed(kept@),
        contents(kept@) == contents(bindings@).filter(
            |content: Content| selects(content, wanted(binding_type), wanted(provider)),
        ),
        binding_type is None && provider is None ==> kept@ == bindings@,
{
    let ghost all = bindings@;
    let ghost selected = |content: Content| selects(content, wanted(binding_type), wanted(provider));
    let mut kept: Vec<B> = Vec::new();
    for binding in iter: bindings.into_iter()
        invariant
            iter.seq() == all,
            selected == (|content: Content|
                selects(content, wanted(binding_type), wanted(provider))),
            all_well_formed(all),
            forall|i: int|
                0 <= i < all.len() ==> can_select(
                    (#[trigger] all[i]).content(),
                    wanted(binding_type),
                    wanted(provider),
                ),
            all_well_formed(kept@),
            contents(kept@) == contents(all.take(iter.index() as int)).filter(selected),
            binding_type is None && provider is None ==> kept@ == all.take(iter.index() as int),
    {
        proof {
            let done = all.take(iter.index() as int);
            assert(all.take(iter.index() + 1) =~= done.push(all[iter.index() as int]));
            assert(contents(done.push(binding)) =~= contents(done).push(binding.content()));
            contents(done).lemma_filter_push(binding.content(), selected);
        }
        let mut binding = binding;
        if is_selected(&mut binding, binding_type, provider) {
            kept.push(binding);
        }
    }
    proof {
        assert(all.take(all.len() as int) =~= all);
    }
    kept
}

/// Returns zero or more `Binding`s with a given type. Equivalent to
/// `filter_with_provider` with a `None` provider.
///
/// * `bindings` - the `Binding`s to filter
/// * `binding_type` - the type of the `Binding` to find
/// returns zero or more `Bindings` with a given type
pub fn filter<B: Binding>(bindings: Vec<B>, binding_type: &str) -> (kept: Vec<B>)
    requires
        all_well_formed(bindings@),
        forall|i: int|
            0 <= i < bindings.len() ==> (#[trigger] bindings[i]).content().is_text(TYPE@),
    ensures
        all_well_formed(kept@),
        contents(kept@) == contents(bindings@).filter(
            |content: Content| selects(content, Some(binding_type@), None),
        ),
{
    filter_with_provider(bindings, Some(binding_type), None)
}

} // verus!
