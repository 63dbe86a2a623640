//! Canonical spelling of header keys.
//!
//! A key made of letters, digits and the punctuation of a header token is
//! brought to one spelling: the first letter of the key and of every word
//! after a hyphen in upper case, every other letter in lower case. A key that
//! also holds a space is kept as it is, and a key with any other byte has no
//! canonical spelling at all.

use crate::ascii::{
    ascii_string, ascii_text, is_ascii, is_ascii_digit, is_ascii_lowercase, is_ascii_uppercase,
    is_digit, is_lower, is_upper, lemma_ascii_bytes_are_text, lower_of, to_ascii_lowercase,
    to_ascii_uppercase, upper_of,
};
use vstd::hash_map::StringHashMap;
use vstd::prelude::*;
use vstd::string::*;
use vstd::utf8::encode_utf8;

verus! {

/// The space character.
pub const SPACE: u8 = 0x20;

/// The hyphen, which parts the words of a key.
pub const HYPHEN: u8 = 0x2d;

/// `b` is one of the punctuation characters
/// `!` `#` `$` `%` `&` `'` `*` `+` `-` `.` `^` `_` `` ` `` `|` `~`.
pub open spec fn is_header_symbol(b: u8) -> bool {
    ||| b == '!' as u8
    ||| b == '#' as u8
    ||| b == '$' as u8
    ||| b == '%' as u8
    ||| b == '&' as u8
    ||| b == '\'' as u8
    ||| b == '*' as u8
    ||| b == '+' as u8
    ||| b == '-' as u8
    ||| b == '.' as u8
    ||| b == '^' as u8
    ||| b == '_' as u8
    ||| b == '`' as u8
    ||| b == '|' as u8
    ||| b == '~' as u8
}

/// `b` may stand in a key that is brought to canonical spelling: an ASCII
/// letter, an ASCII digit or a header symbol.
pub open spec fn is_header_byte(b: u8) -> bool {
    is_digit(b) || is_lower(b) || is_upper(b) || is_header_symbol(b)
}

/// `b` may stand in a key at all: a header byte or the space.
pub open spec fn is_key_byte(b: u8) -> bool {
    is_header_byte(b) || b == SPACE
}

/// Every byte of `key` is a header byte.
pub open spec fn all_header_bytes(key: Seq<u8>) -> bool {
    forall|i: int| 0 <= i < key.len() ==> is_header_byte(#[trigger] key[i])
}

/// Every byte of `key` is a header byte or a space.
pub open spec fn all_key_bytes(key: Seq<u8>) -> bool {
    forall|i: int| 0 <= i < key.len() ==> is_key_byte(#[trigger] key[i])
}

/// The byte at `i` begins a word of `key`: it is the first byte, or the byte
/// before it is a hyphen.
pub open spec fn begins_word(key: Seq<u8>, i: int) -> bool {
    i == 0 || key[i - 1] == HYPHEN
}

/// `key` with the first letter of every word in upper case and every other
/// letter in lower case. Bytes that are no letters stay as they are.
pub open spec fn capitalized(key: Seq<u8>) -> Seq<u8> {
    Seq::new(
        key.len(),
        |i: int|
            if begins_word(key, i) {
                upper_of(key[i])
            } else {
                lower_of(key[i])
            },
    )
}

/// The canonical spelling of the key `raw`, if it has one.
///
/// A key with a byte that is neither a header byte nor a space has none. A
/// key with a space is its own canonical spelling, untouched. Any other key
/// is spelled capitalized.
pub open spec fn canonical_key(raw: Seq<u8>) -> Option<Seq<char>> {
    if !all_key_bytes(raw) {
        None
    } else if raw.contains(SPACE) {
        Some(ascii_text(raw))
    } else {
        Some(ascii_text(capitalized(raw)))
    }
}

/// Whether `c` is a letter, a digit or one of the symbols of a header token.
/// The space is none of them.
pub fn is_valid_header_byte(c: &u8) -> (valid: bool)
    ensures
        valid == is_header_byte(*c),
{
    let b: u8 = *c;
    if is_ascii_digit(b) || is_ascii_lowercase(b) || is_ascii_uppercase(b) {
        return true;
    }
    match b as char {
        '!' | '#' | '$' | '%' | '&' | '\'' | '*' | '+' | '-' | '.' | '^' | '_' | '`' | '|'
        | '~' => true,
        _ => false,
    }
}

/// The names of the well-known headers, each in the spelling in which it is
/// handed out.
pub open spec fn well_known_headers() -> Seq<Seq<char>> {
    seq![
        "Accept"@,
        "Accept-Charset"@,
        "Accept-Encoding"@,
        "Accept-Language"@,
        "Accept-Ranges"@,
        "Cache-Control"@,
        "Cc"@,
        "Connection"@,
        "Content-Id"@,
        "Content-Language"@,
        "Content-Length"@,
        "Content-Transfer-Encoding"@,
        "Content-Type"@,
        "Cookie"@,
        "Date"@,
        "Dkim-Signature"@,
        "Etag"@,
        "Expires"@,
        "From"@,
        "Host"@,
        "If-Modified-Since"@,
        "If-None-Match"@,
        "In-Reply-To"@,
        "Last-Modified"@,
        "Location"@,
        "Message-Id"@,
        "Mime-Version"@,
        "Pragma"@,
        "Received"@,
        "Return-Path"@,
        "Server"@,
        "Set-Cookie"@,
        "Subject"@,
        "To"@,
        "User-Agent"@,
        "Via"@,
        "X-Forwarded-For"@,
        "X-Imforwards"@,
        "X-Powered-By"@,
    ]
}

/// How many well-known headers there are.
pub const WELL_KNOWN_COUNT: usize = 39;

/// The names of `well_known_headers`, in the same order.
fn well_known_names() -> (names: [&'static str; WELL_KNOWN_COUNT])
    ensures
        names@.len() == well_known_headers().len(),
        forall|i: int| 0 <= i < names@.len() ==> (#[trigger] names@[i])@ == well_known_headers()[i],
{
    [
        "Accept",
        "Accept-Charset",
        "Accept-Encoding",
        "Accept-Language",
        "Accept-Ranges",
        "Cache-Control",
        "Cc",
        "Connection",
        "Content-Id",
        "Content-Language",
        "Content-Length",
        "Content-Transfer-Encoding",
        "Content-Type",
        "Cookie",
        "Date",
        "Dkim-Signature",
        "Etag",
        "Expires",
        "From",
        "Host",
        "If-Modified-Since",
        "If-None-Match",
        "In-Reply-To",
        "Last-Modified",
        "Location",
        "Message-Id",
        "Mime-Version",
        "Pragma",
        "Received",
        "Return-Path",
        "Server",
        "Set-Cookie",
        "Subject",
        "To",
        "User-Agent",
        "Via",
        "X-Forwarded-For",
        "X-Imforwards",
        "X-Powered-By",
    ]
}

/// The table of well-known headers: each name of `well_known_headers`, and
/// no other text, is a key of it, and it is stored under itself.
pub fn common_headers() -> (table: StringHashMap<String>)
    ensures
        forall|name: Seq<char>|
            table@.contains_key(name) <==> well_known_headers().contains(name),
        forall|name: Seq<char>| table@.contains_key(name) ==> (#[trigger] table@[name])@ == name,
{
    let names = well_known_names();
    let mut table: StringHashMap<String> = StringHashMap::new();
    let mut i: usize = 0;
    while i < WELL_KNOWN_COUNT
        invariant
            0 <= i <= WELL_KNOWN_COUNT,
            names@.len() == WELL_KNOWN_COUNT,
            well_known_headers().len() == WELL_KNOWN_COUNT,
            forall|j: int|
                0 <= j < WELL_KNOWN_COUNT ==> (#[trigger] names@[j])@ == well_known_headers()[j],
            forall|name: Seq<char>|
                table@.contains_key(name) <==> exists|j: int|
                    0 <= j < i && well_known_headers()[j] == name,
            forall|name: Seq<char>|
                table@.contains_key(name) ==> (#[trigger] table@[name])@ == name,
        decreases WELL_KNOWN_COUNT - i,
    {
        let name: &str = names[i];
        table.insert(name.to_owned(), name.to_owned());
        i += 1;
    }
    table
}

/// Brings the key in `key` to its canonical spelling and hands that out as
/// text.
///
/// A key with a byte that is neither a header byte nor a space is refused,
/// and a key with a space is handed out as it came; the buffer is left alone
/// in both cases. Any other key is capitalized in place, word by word, and
/// looked up among the well-known headers: a well-known header is handed out
/// in the table's spelling, which is the capitalized one.
pub fn normalize_header_key(key: &mut [u8]) -> (canonical: Option<String>)
    ensures
        canonical is None <==> !all_key_bytes(old(key)@),
        canonical is Some ==> Some(canonical->0@) == canonical_key(old(key)@),
        canonical is Some && old(key)@.contains(SPACE) ==> canonical->0@ == ascii_text(old(key)@),
        final(key)@ == if all_header_bytes(old(key)@) {
            capitalized(old(key)@)
        } else {
            old(key)@
        },
{
    let n: usize = key.len();
    let mut spaced = false;
    let mut i: usize = 0;
    while i < n
        invariant
            0 <= i <= n,
            n == key@.len(),
            key@ == old(key)@,
            forall|j: int| 0 <= j < i ==> is_key_byte(#[trigger] key@[j]),
            spaced <==> exists|j: int| 0 <= j < i && key@[j] == SPACE,
        decreases n - i,
    {
        let c: u8 = key[i];
        if !is_valid_header_byte(&c) {
            if c == SPACE {
                spaced = true;
            } else {
                return None;
            }
        }
        i += 1;
    }
    if spaced {
        return Some(ascii_string(key));
    }
    let mut upper = true;
    let mut i: usize = 0;
    while i < n
        invariant
            0 <= i <= n,
            n == key@.len(),
            n == old(key)@.len(),
            upper == begins_word(old(key)@, i as int),
            forall|j: int| 0 <= j < i ==> #[trigger] key@[j] == capitalized(old(key)@)[j],
            forall|j: int| i <= j < n ==> #[trigger] key@[j] == old(key)@[j],
        decreases n - i,
    {
        let c: u8 = key[i];
        if upper && is_ascii_lowercase(c) {
            key[i] = to_ascii_uppercase(c);
        } else if !upper && is_ascii_uppercase(c) {
            key[i] = to_ascii_lowercase(c);
        }
        upper = key[i] == HYPHEN;
        i += 1;
    }
    let common_headers = common_headers();
    let header = ascii_string(key);
    match common_headers.get(header.as_str()) {
        Some(listed) => Some(listed.clone()),
        None => Some(header),
    }
}

/// `a` and `b` spell the same key but for the case of their letters.
pub open spec fn same_but_for_case(a: Seq<u8>, b: Seq<u8>) -> bool {
    &&& a.len() == b.len()
    &&& forall|i: int| 0 <= i < a.len() ==> lower_of(#[trigger] a[i]) == lower_of(b[i])
}

/// Capitalizing keeps header bytes header bytes, and moves no hyphen: the
/// words of the capitalized key begin where those of the key begin.
pub proof fn lemma_capitalized_keeps_shape(key: Seq<u8>)
    ensures
        capitalized(key).len() == key.len(),
        forall|i: int|
            0 <= i < key.len() ==> (#[trigger] capitalized(key)[i] == HYPHEN <==> key[i] == HYPHEN),
        forall|i: int|
            0 <= i < key.len() ==> (is_header_byte(#[trigger] capitalized(key)[i])
                <==> is_header_byte(key[i])),
        all_header_bytes(key) ==> all_header_bytes(capitalized(key)),
{
}

/// Capitalizing a capitalized key changes nothing.
pub proof fn lemma_capitalized_twice(key: Seq<u8>)
    ensures
        capitalized(capitalized(key)) == capitalized(key),
{
    lemma_capitalized_keeps_shape(key);
}

/// Normalizing is idempotent: the canonical spelling of a key, taken as a
/// key again, is its own canonical spelling. This holds of every key that has
/// a canonical spelling: of the keys made of header bytes only, which are
/// capitalized, and of those with a space, which are kept.
pub proof fn lemma_canonical_key_idempotent(raw: Seq<u8>)
    requires
        all_key_bytes(raw),
    ensures
        canonical_key(raw) is Some,
        canonical_key(encode_utf8(canonical_key(raw)->0)) == canonical_key(raw),
{
    let spelled = if raw.contains(SPACE) {
        raw
    } else {
        capitalized(raw)
    };
    lemma_capitalized_twice(raw);
    assert forall|i: int| 0 <= i < spelled.len() implies is_key_byte(#[trigger] spelled[i])
        && is_ascii(spelled[i]) && (spelled[i] == SPACE ==> raw[i] == SPACE) by {
        assert(is_key_byte(raw[i]));
    }
    lemma_ascii_bytes_are_text(spelled);
}

/// Normalizing folds case: two keys of header bytes that differ only in the
/// case of their letters have the same canonical spelling.
pub proof fn lemma_canonical_key_ignores_case(a: Seq<u8>, b: Seq<u8>)
    requires
        all_header_bytes(a),
        same_but_for_case(a, b),
    ensures
        all_header_bytes(b),
        canonical_key(a) is Some,
        canonical_key(a) == canonical_key(b),
{
    assert forall|i: int| 0 <= i < b.len() implies is_header_byte(#[trigger] b[i]) && upper_of(
        a[i],
    ) == upper_of(b[i]) && (a[i] == HYPHEN <==> b[i] == HYPHEN) by {
        assert(is_header_byte(a[i]));
    }
    lemma_header_bytes_hold_no_space(a);
    lemma_header_bytes_hold_no_space(b);
}

/// A key of header bytes is a key, and holds no space.
pub proof fn lemma_header_bytes_hold_no_space(key: Seq<u8>)
    requires
        all_header_bytes(key),
    ensures
        all_key_bytes(key),
        !key.contains(SPACE),
{
}

} // verus!
