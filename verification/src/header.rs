//! A header collection: for each header key the values given to it, in the
//! order in which they came.
//!
//! Keys are compared in their canonical spelling, so `user-agent` and
//! `USER-AGENT` name the same entry. A key that has no canonical spelling is
//! stored as it was written, and then only the same spelling finds it again.

use crate::ascii::{all_ascii, is_ascii, lemma_text_of_ascii_encoding};
use crate::normalize::{
    all_header_bytes, all_key_bytes, canonical_key, is_key_byte, lemma_canonical_key_idempotent,
    lemma_canonical_key_ignores_case, normalize_header_key, same_but_for_case, SPACE,
};
use vstd::hash_map::StringHashMap;
use vstd::prelude::*;
use vstd::string::*;
use vstd::utf8::encode_utf8;

verus! {

/// The key under which the values of the header written `raw` are stored:
/// the canonical spelling of `raw` where it has one, and `raw` itself where
/// it has none.
pub open spec fn storage_key(raw: Seq<char>) -> Seq<char> {
    match canonical_key(encode_utf8(raw)) {
        Some(canonical) => canonical,
        None => raw,
    }
}

/// The texts of a list of strings, in order.
pub open spec fn texts(values: Seq<String>) -> Seq<Seq<char>> {
    Seq::new(values.len(), |i: int| values[i]@)
}

/// What a header collection holds: the values of each stored key.
pub type Headers = Map<Seq<char>, Seq<Seq<char>>>;

/// Every stored key is its own storage key, and has at least one value.
pub open spec fn well_formed(headers: Headers) -> bool {
    forall|key: Seq<char>| #[trigger]
        headers.contains_key(key) ==> storage_key(key) == key && headers[key].len() > 0
}

/// `headers` after `value` was added to the header `key`: the value stands
/// behind those that the header had, or alone where it had none.
pub open spec fn with_added(headers: Headers, key: Seq<char>, value: Seq<char>) -> Headers {
    let stored = storage_key(key);
    if headers.contains_key(stored) {
        headers.insert(stored, headers[stored].push(value))
    } else {
        headers.insert(stored, seq![value])
    }
}

/// `headers` after the header `key` was set to `value`: it has this one
/// value, whatever it had before.
pub open spec fn with_set(headers: Headers, key: Seq<char>, value: Seq<char>) -> Headers {
    headers.insert(storage_key(key), seq![value])
}

/// `headers` without the header `key`.
pub open spec fn without(headers: Headers, key: Seq<char>) -> Headers {
    headers.remove(storage_key(key))
}

/// The values of the header `key`, if it is stored.
pub open spec fn values_of(headers: Headers, key: Seq<char>) -> Option<Seq<Seq<char>>> {
    let stored = storage_key(key);
    if headers.contains_key(stored) {
        Some(headers[stored])
    } else {
        None
    }
}

/// The first value of the header `key`, if it is stored and has a value.
pub open spec fn first_value(headers: Headers, key: Seq<char>) -> Option<Seq<char>> {
    let stored = storage_key(key);
    if headers.contains_key(stored) && headers[stored].len() > 0 {
        Some(headers[stored][0])
    } else {
        None
    }
}

/// The collection that holds the header `key` with `values`, and nothing
/// else; with no values it holds nothing.
pub open spec fn seeded(key: Seq<char>, values: Seq<Seq<char>>) -> Headers {
    if values.len() == 0 {
        Map::empty()
    } else {
        Map::empty().insert(storage_key(key), values)
    }
}

/// A collection of headers. Each stored key has a list of values, in the
/// order in which they were added; the keys themselves have no order.
pub struct MIMEHeader {
    entries: StringHashMap<Vec<String>>,
}

impl View for MIMEHeader {
    type V = Headers;

    open spec fn view(&self) -> Headers {
        self.headers()
    }
}

impl MIMEHeader {
    /// The stored keys and the texts of their values.
    pub closed spec fn headers(&self) -> Headers {
        Map::new(
            |key: Seq<char>| self.entries@.contains_key(key),
            |key: Seq<char>| texts(self.entries@[key]@),
        )
    }

    /// The collection's invariant: see `well_formed`.
    pub open spec fn wf(&self) -> bool {
        well_formed(self@)
    }

    /// An empty collection.
    pub fn new() -> (header: MIMEHeader)
        ensures
            header.wf(),
            header@ == Map::<Seq<char>, Seq<Seq<char>>>::empty(),
    {
        MIMEHeader { entries: StringHashMap::new() }
    }

    /// A collection with one header, `key`, and its values in the order of
    /// `values`.
    pub fn new_from(key: String, values: Vec<String>) -> (header: MIMEHeader)
        ensures
            header.wf(),
            header@ == seeded(key@, texts(values@)),
    {
        let mut header = Self::new();
        let ghost all = texts(values@);
        for value in iter: values
            invariant
                header.wf(),
                texts(iter.seq()) == all,
                header@ == seeded(key@, all.take(iter.index())),
        {
            proof {
                lemma_seeded_grows(key@, all.take(iter.index()), value@);
                assert(all.take(iter.index()).push(value@) =~= all.take(iter.index() + 1));
            }
            header.add(key.as_str(), value);
        }
        assert(all.take(all.len() as int) =~= all);
        header
    }

    /// Adds `value` to the values of the header `key`, behind those it has.
    pub fn add(&mut self, key: &str, value: String)
        requires
            old(self).wf(),
        ensures
            final(self).wf(),
            final(self)@ == with_added(old(self)@, key@, value@),
    {
        let ghost raw = key@;
        let key = Self::normalize_header_key(key.to_owned());
        proof {
            lemma_storage_key_idempotent(raw);
        }
        match self.entries.get(key.as_str()) {
            Some(values) => {
                // The table hands out no entry to change in place: the list is
                // copied, extended and stored again.
                let mut values = values.clone();
                values.push(value);
                assert(texts(values@) =~= old(self)@[key@].push(value@));
                self.entries.insert(key, values);
            },
            None => {
                let values = vec![value];
                assert(texts(values@) =~= seq![value@]);
                self.entries.insert(key, values);
            },
        }
        assert(self@ =~= with_added(old(self)@, raw, value@));
    }

    /// Gives the header `key` the one value `value`, in place of any it had.
    pub fn set(&mut self, key: String, value: String)
        requires
            old(self).wf(),
        ensures
            final(self).wf(),
            final(self)@ == with_set(old(self)@, key@, value@),
    {
        proof {
            lemma_storage_key_idempotent(key@);
        }
        let ghost raw = key@;
        let key = Self::normalize_header_key(key);
        let values = vec![value];
        assert(texts(values@) =~= seq![value@]);
        self.entries.insert(key, values);
        assert(self@ =~= with_set(old(self)@, raw, value@));
    }

    /// The first value of the header `key`, or `None` where the header is
    /// not stored.
    pub fn get(&self, key: String) -> (value: Option<&str>)
        ensures
            match value {
                Some(text) => first_value(self@, key@) == Some(text@),
                None => first_value(self@, key@) is None,
            },
    {
        let key = Self::normalize_header_key(key);
        match self.entries.get(key.as_str()) {
            Some(values) => {
                if values.len() > 0 {
                    Some(values[0].as_str())
                } else {
                    None
                }
            },
            None => None,
        }
    }

    /// All values of the header `key` in the order in which they were added,
    /// or `None` where the header is not stored.
    pub fn get_all(&self, key: String) -> (values: Option<&[String]>)
        ensures
            match values {
                Some(list) => values_of(self@, key@) == Some(texts(list@)),
                None => values_of(self@, key@) is None,
            },
    {
        let key = Self::normalize_header_key(key);
        match self.entries.get(key.as_str()) {
            Some(values) => Some(values.as_slice()),
            None => None,
        }
    }

    /// Removes the header `key` and hands out the values it had, or `None`
    /// where it was not stored.
    pub fn delete(&mut self, key: String) -> (former: Option<Vec<String>>)
        requires
            old(self).wf(),
        ensures
            final(self).wf(),
            final(self)@ == without(old(self)@, key@),
            match former {
                Some(list) => values_of(old(self)@, key@) == Some(texts(list@)),
                None => values_of(old(self)@, key@) is None,
            },
    {
        let ghost raw = key@;
        let key = Self::normalize_header_key(key);
        // Removing hands nothing out, so the list is copied first.
        let former = match self.entries.get(key.as_str()) {
            Some(values) => Some(values.clone()),
            None => None,
        };
        self.entries.remove(key.as_str());
        assert(self@ =~= without(old(self)@, raw));
        former
    }

    /// The storage key of the header written `key`: its canonical spelling,
    /// or `key` itself where it has none.
    fn normalize_header_key(key: String) -> (stored: String)
        ensures
            stored@ == storage_key(key@),
    {
        let mut bytes = key.as_str().as_bytes_vec();
        match normalize_header_key(bytes.as_mut_slice()) {
            Some(normalized) => normalized,
            None => key,
        }
    }
}

/// `seeded` with one more value is `seeded` with the value added: a
/// collection seeded with a list of values is the empty collection with each
/// value added in turn.
pub proof fn lemma_seeded_grows(key: Seq<char>, values: Seq<Seq<char>>, value: Seq<char>)
    ensures
        seeded(key, values.push(value)) == with_added(seeded(key, values), key, value),
{
    if values.len() == 0 {
        assert(values.push(value) =~= seq![value]);
    }
}

/// The storage key of a storage key is itself: what is stored under a key is
/// found again under the key as stored.
pub proof fn lemma_storage_key_idempotent(raw: Seq<char>)
    ensures
        storage_key(storage_key(raw)) == storage_key(raw),
{
    let bytes = encode_utf8(raw);
    if all_key_bytes(bytes) {
        lemma_canonical_key_idempotent(bytes);
    }
}

/// Spellings of a header that differ only in the case of their letters name
/// the same entry, as long as the key is made of header bytes.
pub proof fn lemma_storage_key_ignores_case(a: Seq<char>, b: Seq<char>)
    requires
        all_header_bytes(encode_utf8(a)),
        same_but_for_case(encode_utf8(a), encode_utf8(b)),
    ensures
        storage_key(a) == storage_key(b),
{
    lemma_canonical_key_ignores_case(encode_utf8(a), encode_utf8(b));
}

/// A key with a space, and no byte that a key may not hold, is stored as it
/// was written.
pub proof fn lemma_spaced_key_is_kept(raw: Seq<char>)
    requires
        all_key_bytes(encode_utf8(raw)),
        encode_utf8(raw).contains(SPACE),
    ensures
        storage_key(raw) == raw,
{
    let bytes = encode_utf8(raw);
    assert forall|i: int| 0 <= i < bytes.len() implies is_ascii(#[trigger] bytes[i]) by {
        assert(is_key_byte(bytes[i]));
    }
    lemma_text_of_ascii_encoding(raw);
}

/// Keys without a canonical spelling are not brought together: two of them
/// name the same entry only if they are the same text.
pub proof fn lemma_uncanonical_keys_stay_apart(a: Seq<char>, b: Seq<char>)
    requires
        !all_key_bytes(encode_utf8(a)),
        !all_key_bytes(encode_utf8(b)),
    ensures
        storage_key(a) == a,
        storage_key(a) == storage_key(b) <==> a == b,
{
}

/// Adding, setting and deleting keep a collection well formed.
pub proof fn lemma_changes_keep_well_formed(headers: Headers, key: Seq<char>, value: Seq<char>)
    requires
        well_formed(headers),
    ensures
        well_formed(with_added(headers, key, value)),
        well_formed(with_set(headers, key, value)),
        well_formed(without(headers, key)),
{
    lemma_storage_key_idempotent(key);
}

/// After a value was added to a header, any spelling of that header finds
/// the values it had, in their order, and the new value behind them.
pub proof fn lemma_add_appends(
    headers: Headers,
    key: Seq<char>,
    value: Seq<char>,
    other: Seq<char>,
)
    requires
        storage_key(other) == storage_key(key),
    ensures
        values_of(with_added(headers, key, value), other) == Some(
            match values_of(headers, key) {
                Some(values) => values.push(value),
                None => seq![value],
            },
        ),
        first_value(with_added(headers, key, value), other) == match first_value(headers, key) {
            Some(first) => Some(first),
            None => Some(value),
        },
{
}

/// After a header was set, any spelling of that header finds the one value
/// it was set to.
pub proof fn lemma_set_replaces(
    headers: Headers,
    key: Seq<char>,
    value: Seq<char>,
    other: Seq<char>,
)
    requires
        storage_key(other) == storage_key(key),
    ensures
        values_of(with_set(headers, key, value), other) == Some(seq![value]),
        first_value(with_set(headers, key, value), other) == Some(value),
{
}

/// After a header was deleted, no spelling of that header finds anything;
/// and deleting a header that is not stored changes nothing.
pub proof fn lemma_delete_removes(headers: Headers, key: Seq<char>, other: Seq<char>)
    requires
        storage_key(other) == storage_key(key),
    ensures
        values_of(without(headers, key), other) is None,
        first_value(without(headers, key), other) is None,
        values_of(headers, key) is None ==> without(headers, key) == headers,
{
}

/// Adding to, setting or deleting one header leaves every other header as
/// it was.
pub proof fn lemma_other_headers_untouched(
    headers: Headers,
    key: Seq<char>,
    value: Seq<char>,
    other: Seq<char>,
)
    requires
        storage_key(other) != storage_key(key),
    ensures
        values_of(with_added(headers, key, value), other) == values_of(headers, other),
        values_of(with_set(headers, key, value), other) == values_of(headers, other),
        values_of(without(headers, key), other) == values_of(headers, other),
{
}

/// In a well-formed collection a stored header has a first value: `get`
/// answers `None` exactly for the headers that are not stored.
pub proof fn lemma_stored_header_has_first_value(headers: Headers, key: Seq<char>)
    requires
        well_formed(headers),
    ensures
        first_value(headers, key) is Some <==> values_of(headers, key) is Some,
        first_value(headers, key) is Some ==> first_value(headers, key)->0 == values_of(
            headers,
            key,
        )->0[0],
{
}

} // verus!
