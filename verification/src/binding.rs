//! Bindings: the interface that every binding offers, and the bindings that
//! hold their entries in memory.

use vstd::hash_map::StringHashMap;
use vstd::prelude::*;
use vstd::utf8::{encode_utf8, encode_utf8_decode_utf8, encode_utf8_valid_utf8, valid_utf8};

use crate::secret::{is_valid_secret_key, lemma_valid_key_excludes, valid_secret_key};
use crate::path::{
    final_component, find_final_component, join, join_path, last_segment,
    lemma_join_lies_below_root,
};
use crate::text::{bytes_of, decode_trimmed, stripped, text_of, trimmed_text};

verus! {

/// The key for the provider of a `Binding`.
pub const PROVIDER: &'static str = "provider";

/// The key for the type of a `Binding`.
pub const TYPE: &'static str = "type";

/// The message of the error for a binding without a type.
pub const MISSING_TYPE: &'static str = "binding does not contain a type";

/// An error returned when an invalid `Binding` is encountered.
#[derive(Clone, Debug, PartialEq, Eq)]
pub struct InvalidBindingError {
    message: String,
}

impl View for InvalidBindingError {
    type V = Seq<char>;

    /// The message of the error.
    closed spec fn view(&self) -> Seq<char> {
        self.message@
    }
}

impl InvalidBindingError {
    /// Creates an error with the given message.
    pub fn new(message: &str) -> (error: InvalidBindingError)
        ensures
            error@ == message@,
    {
        InvalidBindingError { message: message.to_owned() }
    }
}

/// What a binding is to those who read it: its name, and the entries that its
/// store holds.
pub struct Content {
    /// The name of the binding.
    pub name: Seq<char>,
    /// The value that the store holds under each of its keys.
    pub entries: Map<Seq<char>, Seq<u8>>,
}

impl Content {
    /// The value that `key` resolves to: the entry under `key` where `key` is a
    /// valid key. An entry under any other key is never seen.
    pub open spec fn bytes(self, key: Seq<char>) -> Option<Seq<u8>> {
        if valid_secret_key(key) && self.entries.contains_key(key) {
            Some(self.entries[key])
        } else {
            None
        }
    }

    /// Whether the value that `key` resolves to, if there is one, is UTF-8 text.
    pub open spec fn is_text(self, key: Seq<char>) -> bool {
        self.bytes(key) matches Some(bytes) ==> valid_utf8(bytes)
    }

    /// The value that `key` resolves to, decoded and trimmed.
    pub open spec fn text(self, key: Seq<char>) -> Option<Seq<char>> {
        match self.bytes(key) {
            Some(bytes) => Some(trimmed_text(bytes)),
            None => None,
        }
    }

    /// The provider that the binding names, if it names one.
    pub open spec fn provider(self) -> Option<Seq<char>> {
        self.text(PROVIDER@)
    }

    /// The type that the binding declares, if it declares one.
    pub open spec fn binding_type(self) -> Option<Seq<char>> {
        self.text(TYPE@)
    }
}

/// A key that is not valid resolves to nothing, whatever the entries are.
pub proof fn lemma_invalid_key_is_absent(content: Content, key: Seq<char>)
    requires
        !valid_secret_key(key),
    ensures
        content.bytes(key) is None,
        content.text(key) is None,
{
}

/// A text that is stored under a valid key as UTF-8 is read back as that
/// text, trimmed.
pub proof fn lemma_stored_text_reads_back(content: Content, key: Seq<char>, text: Seq<char>)
    requires
        valid_secret_key(key),
        content.entries.contains_key(key),
        content.entries[key] == encode_utf8(text),
    ensures
        content.bytes(key) == Some(encode_utf8(text)),
        content.is_text(key),
        content.text(key) == Some(stripped(text)),
{
    encode_utf8_valid_utf8(text);
    encode_utf8_decode_utf8(text);
}

/// A representation of a binding as defined by the Kubernetes Service Binding
/// Specification.
///
/// An implementation gives the two lookups `get_as_bytes` and `get_name`, and
/// says in `content` what they look up; `get`, `get_provider` and `get_type`
/// are made from them. A binding may keep state of its own behind its
/// lookups, such as a cache, so they take `&mut self`; no lookup changes the
/// name or the entries.
pub trait Binding {
    /// The name and the entries of the binding. An implementation that does
    /// not say what they are has a content of which nothing is known.
    open spec fn content(&self) -> Content {
        arbitrary()
    }

    /// What the binding keeps true of its own state. Constructors establish it
    /// and every lookup preserves it. An implementation that keeps no such
    /// state has nothing to say here.
    open spec fn well_formed(&self) -> bool {
        true
    }

    /// Returns the contents of an entry in its raw bytes form, or `None` if the
    /// key is not valid or the binding has no such entry.
    fn get_as_bytes(&mut self, key: &str) -> (value: Option<Vec<u8>>)
        requires
            old(self).well_formed(),
        ensures
            final(self).well_formed(),
            final(self).content() == old(self).content(),
            bytes_of(value) == old(self).content().bytes(key@),
    ;

    /// Returns the name of the binding.
    fn get_name(&self) -> (name: String)
        requires
            self.well_formed(),
        ensures
            name@ == self.content().name,
    ;

    /// Returns the contents of an entry as UTF-8 decoded text, with the
    /// surrounding whitespace trimmed, or `None` if `get_as_bytes` gives `None`.
    fn get(&mut self, key: &str) -> (value: Option<String>)
        requires
            old(self).well_formed(),
            old(self).content().is_text(key@),
        ensures
            final(self).well_formed(),
            final(self).content() == old(self).content(),
            text_of(value) == old(self).content().text(key@),
    {
        match self.get_as_bytes(key) {
            None => None,
            Some(bytes) => Some(decode_trimmed(&bytes)),
        }
    }

    /// Returns the value of the `PROVIDER` key, if the binding has one.
    fn get_provider(&mut self) -> (provider: Option<String>)
        requires
            old(self).well_formed(),
            old(self).content().is_text(PROVIDER@),
        ensures
            final(self).well_formed(),
            final(self).content() == old(self).content(),
            text_of(provider) == old(self).content().provider(),
    {
        self.get(PROVIDER)
    }

    /// Returns the value of the `TYPE` key. A binding without one is invalid.
    fn get_type(&mut self) -> (binding_type: Result<String, InvalidBindingError>)
        requires
            old(self).well_formed(),
            old(self).content().is_text(TYPE@),
        ensures
            final(self).well_formed(),
            final(self).content() == old(self).content(),
            match binding_type {
                Ok(t) => old(self).content().binding_type() == Some(t@),
                Err(e) => old(self).content().binding_type() is None && e@ == MISSING_TYPE@,
            },
    {
        match self.get(TYPE) {
            None => Err(InvalidBindingError::new(MISSING_TYPE)),
            Some(t) => Ok(t),
        }
    }
}

/// Looking a key up twice gives the same value twice: a lookup leaves the
/// content of a binding as it is, and what a lookup returns depends on the
/// content and the key alone. `before` and `after` are one binding, before
/// and after a lookup.
pub proof fn lemma_lookup_is_repeatable<B: Binding>(before: B, after: B, key: Seq<char>)
    requires
        after.content() == before.content(),
    ensures
        after.content().bytes(key) == before.content().bytes(key),
        after.content().text(key) == before.content().text(key),
        after.content().is_text(key) == before.content().is_text(key),
{
}

/// The entries that a list of pairs describes: each pair puts its value
/// under its key, a later pair over an earlier one.
pub open spec fn entries_of(pairs: Seq<(String, Vec<u8>)>) -> Map<Seq<char>, Seq<u8>>
    decreases pairs.len(),
{
    if pairs.len() == 0 {
        Map::empty()
    } else {
        entries_of(pairs.drop_last()).insert(pairs.last().0@, pairs.last().1@)
    }
}

/// An implementation of `Binding` that returns values from a hash map.
pub struct HashMapBinding {
    name: String,
    content: StringHashMap<Vec<u8>>,
}

impl HashMapBinding {
    /// The entries of the map, each value as the bytes it holds.
    pub closed spec fn entries(&self) -> Map<Seq<char>, Seq<u8>> {
        self.content@.map_values(|value: Vec<u8>| value@)
    }

    /// Creates a new instance.
    ///
    /// * `name` - the name of the `Binding`
    /// * `content` - the content of the `Binding`, as pairs of key and value
    pub fn new(name: &str, content: Vec<(String, Vec<u8>)>) -> (binding: HashMapBinding)
        ensures
            binding.well_formed(),
            binding.content() == (Content { name: name@, entries: entries_of(content@) }),
    {
        let ghost pairs = content@;
        let mut map: StringHashMap<Vec<u8>> = StringHashMap::new();
        for pair in iter: content.into_iter()
            invariant
                iter.seq() == pairs,
                map@.map_values(|value: Vec<u8>| value@) =~= entries_of(pairs.take(iter.index() as int)),
        {
            let (key, value) = pair;
            assert(pairs.take(iter.index() + 1).drop_last() =~= pairs.take(iter.index() as int));
            map.insert(key, value);
        }
        assert(pairs.take(pairs.len() as int) =~= pairs);
        HashMapBinding { name: name.to_owned(), content: map }
    }
}

impl Binding for HashMapBinding {
    closed spec fn content(&self) -> Content {
        Content { name: self.name@, entries: self.entries() }
    }

    open spec fn well_formed(&self) -> bool {
        true
    }

    fn get_as_bytes(&mut self, key: &str) -> (value: Option<Vec<u8>>) {
        if !is_valid_secret_key(key) {
            return None;
        }
        match self.content.get(key) {
            Some(value) => Some(value.clone()),
            None => None,
        }
    }

    fn get_name(&self) -> (name: String) {
        self.name.clone()
    }
}

/// An implementation of `Binding` that caches values once they've been
/// retrieved. Only values are remembered: a key that its delegate does not
/// resolve is asked for again the next time.
pub struct CacheBinding<B: Binding> {
    delegate: B,
    cache: StringHashMap<Vec<u8>>,
}

impl<B: Binding> CacheBinding<B> {
    /// The `Binding` that the values are retrieved from.
    pub closed spec fn delegate(&self) -> B {
        self.delegate
    }

    /// The values that have been retrieved and are remembered, by key.
    pub closed spec fn remembered(&self) -> Map<Seq<char>, Seq<u8>> {
        self.cache@.map_values(|value: Vec<u8>| value@)
    }

    /// What one lookup of `key` does: how the value returned and the binding
    /// after the lookup relate to the binding before it. A remembered value is
    /// returned as it is, and the delegate is left alone. For any other key
    /// the delegate is asked, and a value that it gives is remembered.
    pub open spec fn looked_up(
        before: Self,
        key: Seq<char>,
        value: Option<Seq<u8>>,
        after: Self,
    ) -> bool {
        &&& after.well_formed()
        &&& after.content() == before.content()
        &&& value == before.content().bytes(key)
        &&& before.remembered().contains_key(key) ==> {
            &&& value == Some(before.remembered()[key])
            &&& after.delegate() == before.delegate()
            &&& after.remembered() == before.remembered()
        }
        &&& !before.remembered().contains_key(key) ==> after.remembered() == (match value {
            Some(bytes) => before.remembered().insert(key, bytes),
            None => before.remembered(),
        })
    }

    /// A value is retrieved from the delegate once: after a lookup that gave a
    /// value, a second lookup of the key gives the same value and leaves the
    /// delegate as it was.
    pub proof fn lemma_value_is_retrieved_once(
        first: Self,
        second: Self,
        third: Self,
        key: Seq<char>,
        value: Seq<u8>,
        again: Option<Seq<u8>>,
    )
        requires
            Self::looked_up(first, key, Some(value), second),
            Self::looked_up(second, key, again, third),
        ensures
            again == Some(value),
            third.delegate() == second.delegate(),
            third.remembered() == second.remembered(),
    {
    }

    /// A miss is never remembered: after a lookup that gave no value, the key
    /// is not remembered, so the next lookup asks the delegate again.
    pub proof fn lemma_miss_is_not_remembered(first: Self, second: Self, key: Seq<char>)
        requires
            first.well_formed(),
            Self::looked_up(first, key, None, second),
        ensures
            !second.remembered().contains_key(key),
            second.remembered() == first.remembered(),
    {
    }

    /// Creates a new instance.
    ///
    /// * `delegate` - the `Binding` that the values are retrieved from
    pub fn new(delegate: B) -> (binding: CacheBinding<B>)
        requires
            delegate.well_formed(),
        ensures
            binding.well_formed(),
            binding.delegate() == delegate,
            binding.remembered() == Map::<Seq<char>, Seq<u8>>::empty(),
    {
        let binding = CacheBinding { delegate, cache: StringHashMap::new() };
        binding
    }
}

impl<B: Binding> Binding for CacheBinding<B> {
    open spec fn content(&self) -> Content {
        self.delegate().content()
    }

    /// The delegate is well formed, and whatever is remembered for a key is
    /// what the delegate resolves the key to.
    open spec fn well_formed(&self) -> bool {
        &&& self.delegate().well_formed()
        &&& forall|key: Seq<char>| #[trigger]
            self.remembered().contains_key(key) ==> self.delegate().content().bytes(key) == Some(
                self.remembered()[key],
            )
    }

    /// Returns the remembered value of the key if there is one; else asks the
    /// delegate, and remembers the value that it gives before returning it.
    fn get_as_bytes(&mut self, key: &str) -> (value: Option<Vec<u8>>)
        ensures
            Self::looked_up(*old(self), key@, bytes_of(value), *final(self)),
    {
        match self.cache.get(key) {
            Some(value) => {
                assert(self.remembered().contains_key(key@));
                return Some(value.clone());
            },
            None => {
            },
        }
        match self.delegate.get_as_bytes(key) {
            None => {
                assert(self.remembered() == old(self).remembered());
                None
            },
            Some(value) => {
                self.cache.insert(key.to_owned(), value.clone());
                assert(self.remembered() =~= old(self).remembered().insert(key@, value@));
                Some(value)
            },
        }
    }

    fn get_name(&self) -> (name: String) {
        self.delegate.get_name()
    }
}

/// What the file system shows at the path of an entry.
pub enum Found {
    /// Nothing exists at the path.
    Missing,
    /// Something that is not a regular file, such as a directory.
    NotFile,
    /// A regular file that could not be read.
    Unreadable,
    /// A regular file, with all that it holds.
    File(Vec<u8>),
}

/// The rules of a binding whose entries are the files of a directory: one
/// file per key, below the root of a volume mounted Kubernetes Secret. It
/// says where the file of a key lies and what a lookup makes of the file; to
/// read the file is left to the caller.
pub struct ConfigTreeBinding {
    root: String,
}

impl ConfigTreeBinding {
    /// The file of a valid key lies directly below the root: its path begins
    /// with the root and ends in the key as its last segment.
    pub proof fn lemma_entry_lies_below_root(root: Seq<char>, key: Seq<char>)
        requires
            valid_secret_key(key),
        ensures
            join(root, key).take(root.len() as int) == root,
            last_segment(join(root, key)) == key,
    {
        lemma_valid_key_excludes(key, '/');
        lemma_join_lies_below_root(root, key);
    }

    /// The root of the volume mounted Kubernetes Secret.
    pub closed spec fn root(&self) -> Seq<char> {
        self.root@
    }

    /// Creates a new instance.
    ///
    /// * `root` - the root of the volume mounted Kubernetes Secret
    pub fn new(root: &str) -> (binding: ConfigTreeBinding)
        ensures
            binding.root() == root@,
    {
        ConfigTreeBinding { root: root.to_owned() }
    }

    /// Returns the path of the file that holds the entry of `key`: the key,
    /// below the root. A key that is not valid has no file.
    pub fn entry_path(&self, key: &str) -> (path: Option<String>)
        ensures
            text_of(path) == if valid_secret_key(key@) {
                Some(join(self.root(), key@))
            } else {
                None
            },
    {
        if !is_valid_secret_key(key) {
            return None;
        }
        Some(join_path(self.root.as_str(), key))
    }

    /// Returns the contents of an entry in its raw bytes form, given what was
    /// found at the path of the entry: all that the file holds, where the key
    /// is valid and a regular file was found and read; `None` in any other
    /// case.
    pub fn get_as_bytes(&self, key: &str, found: Found) -> (value: Option<Vec<u8>>)
        ensures
            bytes_of(value) == match found {
                Found::File(bytes) if valid_secret_key(key@) => Some(bytes@),
                _ => None,
            },
    {
        if !is_valid_secret_key(key) {
            return None;
        }
        match found {
            Found::File(bytes) => Some(bytes),
            _ => None,
        }
    }

    /// Returns the name of the binding: the final component of its root.
    pub fn get_name(&self) -> (name: String)
        requires
            final_component(self.root()) is Some,
        ensures
            Some(name@) == final_component(self.root()),
    {
        match find_final_component(self.root.as_str()) {
            Some(name) => name,
            None => unreached(),
        }
    }
}

} // verus!
