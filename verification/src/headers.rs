//! Header fields as plain values: their JSON form, and which of them are
//! passed on in a response.
use vstd::prelude::*;
use crate::json::{
    decode_string_map, encode_string_map, entries_map, json_string_entries, keys_distinct,
    string_map_json,
};
use crate::text::{owned, push_char};

verus! {

/// One field of a header map: its name, in the canonical (lower-case) form
/// that a header map keeps, and its raw value.
#[derive(Debug)]
pub struct HeaderField {
    pub name: String,
    pub value: Vec<u8>,
}

/// A byte that `HeaderValue::to_str` accepts: visible ASCII or a tab.
pub open spec fn is_visible_byte(b: u8) -> bool {
    (32 <= b && b < 127) || b == 9
}

/// Every byte of the value is visible ASCII or a tab.
pub open spec fn all_visible(bytes: Seq<u8>) -> bool {
    forall|i: int| 0 <= i < bytes.len() ==> is_visible_byte(#[trigger] bytes[i])
}

/// The ASCII characters that the bytes stand for.
pub open spec fn ascii_chars(bytes: Seq<u8>) -> Seq<char> {
    bytes.map_values(|b: u8| b as char)
}

/// The text of a header value as `value.to_str().unwrap_or("")` gives it.
pub open spec fn value_text_or_empty(bytes: Seq<u8>) -> Seq<char> {
    if all_visible(bytes) {
        ascii_chars(bytes)
    } else {
        Seq::empty()
    }
}

/// A header value made only of printable ASCII bytes, from the space (32)
/// to `~` (126), and tabs is written into the JSON object unchanged; one
/// with any other byte is written as the empty text.
pub proof fn lemma_printable_values_written_unchanged(bytes: Seq<u8>)
    ensures
        (forall|i: int| 0 <= i < bytes.len() ==> (32 <= #[trigger] bytes[i] && bytes[i] <= 126)
            || bytes[i] == 9) ==> value_text_or_empty(bytes) == ascii_chars(bytes),
        (exists|i: int| 0 <= i < bytes.len() && !((32 <= #[trigger] bytes[i] && bytes[i] <= 126)
            || bytes[i] == 9)) ==> value_text_or_empty(bytes) == Seq::<char>::empty(),
{
}

/// The text of a header value where all its bytes are visible ASCII
/// (`HeaderValue::to_str`).
pub fn value_text(bytes: &Vec<u8>) -> (r: Option<String>)
    ensures
        r is Some <==> all_visible(bytes@),
        r is Some ==> r->0@ == ascii_chars(bytes@),
{
    let t = byte_chars(bytes);
    proof {
        lemma_visible_bytes_chars(bytes@);
    }
    if check_chars(t.as_str(), CharRule::Visible) {
        Some(t)
    } else {
        None
    }
}

/// Bytes are visible ASCII exactly where the characters they stand for are.
proof fn lemma_visible_bytes_chars(bytes: Seq<u8>)
    ensures
        all_visible(bytes) <==> all_visible_chars(ascii_chars(bytes)),
{
    assert forall|j: int| 0 <= j < bytes.len() implies is_visible_byte(#[trigger] bytes[j])
        == is_visible_char(ascii_chars(bytes)[j]) by {
        assert(ascii_chars(bytes)[j] == bytes[j] as char);
    }
    if all_visible_chars(ascii_chars(bytes)) {
        assert forall|j: int| 0 <= j < bytes.len() implies is_visible_byte(#[trigger] bytes[j]) by {
            assert(is_visible_char(ascii_chars(bytes)[j]));
        }
    }
}

/// The text of a header value, or the empty text where `value_text` fails.
pub fn value_text_or_empty_of(bytes: &Vec<u8>) -> (r: String)
    ensures
        r@ == value_text_or_empty(bytes@),
{
    match value_text(bytes) {
        Some(t) => t,
        None => String::new(),
    }
}

/// Replacing the value of a present key in entries with distinct keys
/// updates the map at that key.
pub proof fn lemma_entries_map_update(
    s: Seq<(Seq<char>, Seq<char>)>,
    j: int,
    v: Seq<char>,
)
    requires
        keys_distinct(s),
        0 <= j < s.len(),
    ensures
        entries_map(s.update(j, (s[j].0, v))) == entries_map(s).insert(s[j].0, v),
    decreases s.len(),
{
    let k = s[j].0;
    let t = s.update(j, (k, v));
    if j == s.len() - 1 {
        assert(t.drop_last() =~= s.drop_last());
        assert(entries_map(t) =~= entries_map(s).insert(k, v));
    } else {
        let d = s.drop_last();
        assert(keys_distinct(d)) by {
            assert forall|a: int, b: int| 0 <= a < b < d.len() implies #[trigger] d[a].0 != #[trigger] d[b].0 by {
                assert(d[a] == s[a] && d[b] == s[b]);
            }
        }
        lemma_entries_map_update(d, j, v);
        assert(t.drop_last() =~= d.update(j, (k, v)));
        assert(s.last().0 != k) by {
            assert(s[j].0 != s[s.len() - 1].0);
        }
        assert(t.last() == s.last());
        assert(entries_map(t) =~= entries_map(s).insert(k, v));
    }
}

/// Sets `key` to `value` in entries that hold each key once: the value of a
/// present key is replaced in place, a new key is added at the end.
fn upsert(entries: &mut Vec<(String, String)>, key: String, value: String)
    requires
        keys_distinct(old(entries).deep_view()),
    ensures
        keys_distinct(final(entries).deep_view()),
        entries_map(final(entries).deep_view()) == entries_map(old(entries).deep_view()).insert(
            key@,
            value@,
        ),
{
    let mut i: usize = 0;
    while i < entries.len()
        invariant
            i <= entries.len(),
            entries.deep_view() == old(entries).deep_view(),
            keys_distinct(entries.deep_view()),
            forall|j: int| 0 <= j < i ==> (#[trigger] entries.deep_view()[j]).0 != key@,
        decreases entries.len() - i,
    {
        if entries[i].0 == key {
            let ghost before = entries.deep_view();
            proof {
                lemma_entries_map_update(before, i as int, value@);
            }
            entries.set(i, (key, value));
            assert(entries.deep_view() =~= before.update(i as int, (before[i as int].0, value@)));
            assert forall|a: int, b: int| 0 <= a < b < entries.deep_view().len() implies
                #[trigger] entries.deep_view()[a].0 != #[trigger] entries.deep_view()[b].0 by {
                assert(entries.deep_view()[a].0 == before[a].0);
                assert(entries.deep_view()[b].0 == before[b].0);
            }
            return;
        }
        i = i + 1;
    }
    let ghost before = entries.deep_view();
    entries.push((key, value));
    assert(entries.deep_view() =~= before.push((key@, value@)));
    assert(entries.deep_view().drop_last() =~= before);
    assert forall|a: int, b: int| 0 <= a < b < entries.deep_view().len() implies
        #[trigger] entries.deep_view()[a].0 != #[trigger] entries.deep_view()[b].0 by {
        if b == before.len() {
            assert(before[a].0 != key@);
        }
    }
}

/// The entry that a header field gives in the JSON object: its name and the
/// text of its value (empty where the value is not visible ASCII).
pub open spec fn field_entry(f: HeaderField) -> (Seq<char>, Seq<char>) {
    (f.name@, value_text_or_empty(f.value@))
}

/// The entries of a list of header fields, in order.
pub open spec fn field_entries(fields: Seq<HeaderField>) -> Seq<(Seq<char>, Seq<char>)> {
    fields.map_values(|f: HeaderField| field_entry(f))
}

/// Writes header fields as a JSON object from name to value text. Where a
/// name occurs more than once, the last of its values is kept; a value that
/// is not visible ASCII is written as the empty text.
pub fn header_map_to_json_string(headers: &Vec<HeaderField>) -> (r: Result<
    String,
    serde_json::Error,
>)
    ensures
        r is Ok,
        r->Ok_0@ == string_map_json(entries_map(field_entries(headers@))),
{
    let mut entries: Vec<(String, String)> = Vec::new();
    let mut i: usize = 0;
    while i < headers.len()
        invariant
            i <= headers.len(),
            keys_distinct(entries.deep_view()),
            entries_map(entries.deep_view()) == entries_map(
                field_entries(headers@).subrange(0, i as int),
            ),
        decreases headers.len() - i,
    {
        let text = value_text_or_empty_of(&headers[i].value);
        upsert(&mut entries, headers[i].name.clone(), text);
        proof {
            let fe = field_entries(headers@);
            assert(fe.subrange(0, i + 1).drop_last() =~= fe.subrange(0, i as int));
            assert(fe.subrange(0, i + 1).last() == field_entry(headers@[i as int]));
        }
        i = i + 1;
    }
    assert(field_entries(headers@).subrange(0, i as int) =~= field_entries(headers@));
    encode_string_map(&entries)
}

/// Why a JSON object of header fields cannot be turned into a header map.
#[derive(Clone, Copy, Debug, PartialEq, Eq, Structural)]
pub enum HeaderDecodeError {
    /// The text is not a JSON object whose values are strings.
    Malformed,
    /// A key is not a valid header name.
    InvalidName,
    /// A value holds a character that a header value cannot hold.
    InvalidValue,
}

/// A character that `HeaderName::from_str` accepts in a name, as its table
/// `HEADER_CHARS` lists them: the token characters of HTTP (ASCII letters,
/// digits and ``!#$%&'*+-.^_`|~``).
pub open spec fn is_name_char(c: char) -> bool {
    ('a' <= c && c <= 'z') || ('A' <= c && c <= 'Z') || ('0' <= c && c <= '9') || c == '!'
        || c == '#' || c == '$' || c == '%' || c == '&' || c == '\'' || c == '*' || c == '+'
        || c == '-' || c == '.' || c == '^' || c == '_' || c == '`' || c == '|' || c == '~'
}

/// The character as `HEADER_CHARS` maps it: ASCII upper-case letters to
/// lower case, the rest unchanged.
pub open spec fn lower_char(c: char) -> char {
    if 'A' <= c && c <= 'Z' {
        ((c as u32) + 32) as char
    } else {
        c
    }
}

/// The canonical form that `HeaderName::from_str` makes of `name`: the name
/// in lower case where it is 1 to 65535 token characters, else `None`.
pub open spec fn canonical_header_name(name: Seq<char>) -> Option<Seq<char>> {
    if 1 <= name.len() && name.len() <= 65535 && (forall|i: int|
        0 <= i < name.len() ==> is_name_char(#[trigger] name[i])) {
        Some(name.map_values(|c: char| lower_char(c)))
    } else {
        None
    }
}

/// Parses a header name (`http::HeaderName::from_str`) and gives its
/// canonical text (`HeaderName::as_str`). `http` maps each byte through
/// the table `HEADER_CHARS`, which keeps token characters, lowers ASCII
/// capitals and refuses every other byte (all bytes from 128 up among them),
/// and refuses an empty name or one longer than 65535 bytes; a standard
/// header's text is that same lower-case name.
#[verifier::external_body]
pub(crate) fn canonical_name(name: &str) -> (r: Option<String>)
    ensures
        canonical_header_name(name@) == match r {
            Some(c) => Some(c@),
            None => None,
        },
{
    match <http::HeaderName as std::str::FromStr>::from_str(name) {
        Ok(n) => Some(n.as_str().to_string()),
        Err(_) => None,
    }
}

/// A character that a header value made from text can hold: every byte of
/// its UTF-8 encoding is at least 32 and not 127, or it is a tab. Characters
/// beyond ASCII encode as bytes from 128 up, which are all allowed.
pub open spec fn is_value_char(c: char) -> bool {
    (c as u32 >= 32 && c as u32 != 127) || c == '\t'
}

/// The text is a valid header value (`HeaderValue::from_str` accepts it).
pub open spec fn is_header_value(t: Seq<char>) -> bool {
    forall|i: int| 0 <= i < t.len() ==> is_value_char(#[trigger] t[i])
}

/// A header value read from text may hold every character but the control
/// characters below the space and DEL (127), a tab excepted: text beyond
/// ASCII included.
pub proof fn lemma_header_value_chars(t: Seq<char>)
    ensures
        is_header_value(t) <==> forall|i: int| 0 <= i < t.len() ==> (#[trigger] t[i] == '\t' || (32
            <= t[i] as u32 && t[i] as u32 != 127)),
{
}

/// The characters that a check of text admits.
#[derive(Clone, Copy, Debug, PartialEq, Eq, Structural)]
pub enum CharRule {
    /// Characters a header value made from text can hold (`is_value_char`).
    HeaderValue,
    /// Visible ASCII and tab (`is_visible_char`).
    Visible,
}

/// Whether `c` meets `rule`.
pub open spec fn meets(rule: CharRule, c: char) -> bool {
    match rule {
        CharRule::HeaderValue => is_value_char(c),
        CharRule::Visible => is_visible_char(c),
    }
}

/// Whether every character of the text meets the rule.
pub fn check_chars(t: &str, rule: CharRule) -> (b: bool)
    ensures
        b == (forall|i: int| 0 <= i < t@.len() ==> meets(rule, #[trigger] t@[i])),
{
    let cs = crate::text::chars_of(t);
    let mut i: usize = 0;
    while i < cs.len()
        invariant
            cs@ == t@,
            i <= cs.len(),
            forall|j: int| 0 <= j < i ==> meets(rule, #[trigger] t@[j]),
        decreases cs.len() - i,
    {
        let c = cs[i];
        let ok = match rule {
            CharRule::HeaderValue => (c as u32 >= 32 && c as u32 != 127) || c == '\t',
            CharRule::Visible => (32 <= c as u32 && (c as u32) < 127) || c == '\t',
        };
        if !ok {
            assert(!meets(rule, t@[i as int]));
            return false;
        }
        i = i + 1;
    }
    true
}

/// The error that an entry of a JSON header object meets, if any: its key is
/// checked as a name first, then its value.
pub open spec fn entry_error(e: (Seq<char>, Seq<char>)) -> Option<HeaderDecodeError> {
    if canonical_header_name(e.0) is None {
        Some(HeaderDecodeError::InvalidName)
    } else if !is_header_value(e.1) {
        Some(HeaderDecodeError::InvalidValue)
    } else {
        None
    }
}

/// The error of the first entry, in order, that meets one.
pub open spec fn first_entry_error(s: Seq<(Seq<char>, Seq<char>)>) -> Option<HeaderDecodeError>
    decreases s.len(),
{
    if s.len() == 0 {
        None
    } else {
        match first_entry_error(s.drop_last()) {
            Some(e) => Some(e),
            None => entry_error(s.last()),
        }
    }
}

/// An entry's error is about its name or its value, never about the text.
pub proof fn lemma_entry_error_not_malformed(s: Seq<(Seq<char>, Seq<char>)>)
    ensures
        first_entry_error(s) != Some(HeaderDecodeError::Malformed),
    decreases s.len(),
{
    if s.len() > 0 {
        lemma_entry_error_not_malformed(s.drop_last());
    }
}

/// The name of an entry in canonical form (the key itself where it has none).
pub open spec fn canonical_or_same(name: Seq<char>) -> Seq<char> {
    match canonical_header_name(name) {
        Some(c) => c,
        None => name,
    }
}

/// The entries with their names in canonical form.
pub open spec fn canonical_entries(s: Seq<(Seq<char>, Seq<char>)>) -> Seq<(Seq<char>, Seq<char>)> {
    s.map_values(|e: (Seq<char>, Seq<char>)| (canonical_or_same(e.0), e.1))
}

/// Reads a JSON object of header fields into a header map, kept as entries
/// with distinct names. Each key is parsed as a header name and each value
/// as a header value, in the order in which `serde_json` gives the entries;
/// a later entry for a name replaces an earlier one, as `HeaderMap::insert`
/// does. A text that is not a JSON object of strings is an error; every
/// name and value in it must be valid (see `header_map_from_json` for a
/// text that is not known to be).
pub fn json_string_to_header_map(json_string: &str) -> (r: Result<
    Vec<(String, String)>,
    HeaderDecodeError,
>)
    requires
        json_string_entries(json_string@) matches Some(s) ==> first_entry_error(s) is None,
    ensures
        match json_string_entries(json_string@) {
            None => r == Err::<Vec<(String, String)>, HeaderDecodeError>(
                HeaderDecodeError::Malformed,
            ),
            Some(s) => match first_entry_error(s) {
                Some(e) => r == Err::<Vec<(String, String)>, HeaderDecodeError>(e),
                None => r is Ok && keys_distinct(r->Ok_0.deep_view()) && entries_map(
                    r->Ok_0.deep_view(),
                ) == entries_map(canonical_entries(s)),
            },
        },
        forall|m: Map<Seq<char>, Seq<char>>|
            #![trigger string_map_json(m)]
            m.dom().finite() && string_map_json(m) == json_string@ && is_header_map(m) ==> (r is Ok
                && entries_map(r->Ok_0.deep_view()) == m),
{
    header_map_from_json(json_string)
}

/// Reads a JSON object of header fields into a header map, as
/// `json_string_to_header_map` does, for any text: it reports the text that
/// is not a JSON object of strings, and otherwise the first entry, in
/// order, whose key is not a header name (`InvalidName`) or whose value is
/// not a header value (`InvalidValue`).
pub fn header_map_from_json(json_string: &str) -> (r: Result<Vec<(String, String)>, HeaderDecodeError>)
    ensures
        match json_string_entries(json_string@) {
            None => r == Err::<Vec<(String, String)>, HeaderDecodeError>(
                HeaderDecodeError::Malformed,
            ),
            Some(s) => match first_entry_error(s) {
                Some(e) => r == Err::<Vec<(String, String)>, HeaderDecodeError>(e),
                None => r is Ok && keys_distinct(r->Ok_0.deep_view()) && entries_map(
                    r->Ok_0.deep_view(),
                ) == entries_map(canonical_entries(s)),
            },
        },
        forall|m: Map<Seq<char>, Seq<char>>|
            #![trigger string_map_json(m)]
            m.dom().finite() && string_map_json(m) == json_string@ && is_header_map(m) ==> (r is Ok
                && entries_map(r->Ok_0.deep_view()) == m),
{
    let decoded = match decode_string_map(json_string) {
        Ok(d) => d,
        Err(_) => return Err(HeaderDecodeError::Malformed),
    };
    let ghost s = decoded.deep_view();
    proof {
        assert forall|m: Map<Seq<char>, Seq<char>>|
            #![trigger string_map_json(m)]
            m.dom().finite() && string_map_json(m) == json_string@ && is_header_map(
                m,
            ) implies first_entry_error(s) is None && canonical_entries(s) == s && entries_map(s)
            == m by {
            lemma_valid_entries(s, m);
        }
    }
    let mut headers: Vec<(String, String)> = Vec::new();
    let mut i: usize = 0;
    while i < decoded.len()
        invariant
            s == decoded.deep_view(),
            json_string_entries(json_string@) == Some(s),
            forall|m: Map<Seq<char>, Seq<char>>|
                #![trigger string_map_json(m)]
                m.dom().finite() && string_map_json(m) == json_string@ && is_header_map(m)
                    ==> first_entry_error(s) is None && canonical_entries(s) == s && entries_map(s)
                    == m,
            i <= decoded.len(),
            first_entry_error(s.subrange(0, i as int)) is None,
            keys_distinct(headers.deep_view()),
            entries_map(headers.deep_view()) == entries_map(
                canonical_entries(s.subrange(0, i as int)),
            ),
        decreases decoded.len() - i,
    {
        let ghost prefix = s.subrange(0, i + 1);
        assert(prefix.drop_last() =~= s.subrange(0, i as int));
        assert(prefix.last() == s[i as int]);
        assert(s[i as int] == (decoded@[i as int].0@, decoded@[i as int].1@));
        let name = match canonical_name(decoded[i].0.as_str()) {
            Some(n) => n,
            None => {
                proof { lemma_first_entry_error_extends(s, i as int); }
                return Err(HeaderDecodeError::InvalidName);
            },
        };
        if !check_chars(decoded[i].1.as_str(), CharRule::HeaderValue) {
            proof { lemma_first_entry_error_extends(s, i as int); }
            return Err(HeaderDecodeError::InvalidValue);
        }
        upsert(&mut headers, name, decoded[i].1.clone());
        proof {
            assert(canonical_entries(prefix).drop_last() =~= canonical_entries(s.subrange(0, i as int)));
        }
        i = i + 1;
    }
    assert(s.subrange(0, i as int) =~= s);
    Ok(headers)
}

/// A map of header names in canonical form to valid header values.
pub open spec fn is_header_map(m: Map<Seq<char>, Seq<char>>) -> bool {
    forall|k: Seq<char>| #[trigger] m.contains_key(k) ==> canonical_header_name(k) == Some(k)
        && is_header_value(m[k])
}

/// In entries with distinct keys, each entry stands in the map.
pub proof fn lemma_entries_map_contains(s: Seq<(Seq<char>, Seq<char>)>, i: int)
    requires
        keys_distinct(s),
        0 <= i < s.len(),
    ensures
        entries_map(s).contains_key(s[i].0),
        entries_map(s)[s[i].0] == s[i].1,
    decreases s.len(),
{
    if i < s.len() - 1 {
        let d = s.drop_last();
        assert(keys_distinct(d)) by {
            assert forall|a: int, b: int| 0 <= a < b < d.len() implies #[trigger] d[a].0 != #[trigger] d[b].0 by {
                assert(d[a] == s[a] && d[b] == s[b]);
            }
        }
        lemma_entries_map_contains(d, i);
        assert(s[i].0 != s[s.len() - 1].0);
    }
}

/// Every key of the map comes from an entry, and its value is that of the
/// last entry with the key.
pub proof fn lemma_entries_map_source(s: Seq<(Seq<char>, Seq<char>)>, k: Seq<char>)
    requires
        entries_map(s).contains_key(k),
    ensures
        exists|i: int| 0 <= i < s.len() && #[trigger] s[i] == (k, entries_map(s)[k]),
    decreases s.len(),
{
    if s.last().0 == k {
        assert(s[s.len() - 1] == (k, entries_map(s)[k]));
    } else {
        lemma_entries_map_source(s.drop_last(), k);
        let i = choose|i: int| 0 <= i < s.drop_last().len() && #[trigger] s.drop_last()[i] == (
            k,
            entries_map(s.drop_last())[k],
        );
        assert(s[i] == s.drop_last()[i]);
    }
}

/// Entries with distinct keys that describe a header map are all valid, and
/// their names are already canonical.
proof fn lemma_valid_entries(s: Seq<(Seq<char>, Seq<char>)>, m: Map<Seq<char>, Seq<char>>)
    requires
        keys_distinct(s),
        entries_map(s) == m,
        is_header_map(m),
    ensures
        first_entry_error(s) is None,
        canonical_entries(s) == s,
{
    assert forall|i: int| 0 <= i < s.len() implies entry_error(#[trigger] s[i]) is None
        && canonical_or_same(s[i].0) == s[i].0 by {
        lemma_entries_map_contains(s, i);
    }
    lemma_no_entry_error(s);
    assert(canonical_entries(s) =~= s);
}

proof fn lemma_no_entry_error(s: Seq<(Seq<char>, Seq<char>)>)
    requires
        forall|i: int| 0 <= i < s.len() ==> entry_error(#[trigger] s[i]) is None,
    ensures
        first_entry_error(s) is None,
    decreases s.len(),
{
    if s.len() > 0 {
        let d = s.drop_last();
        assert forall|i: int| 0 <= i < d.len() implies entry_error(#[trigger] d[i]) is None by {
            assert(d[i] == s[i]);
        }
        lemma_no_entry_error(d);
        assert(entry_error(s[s.len() - 1]) is None);
    }
}

/// The map that `header_map_to_json_string` writes for header fields with
/// canonical names is a header map: its names are canonical and its values
/// (visible ASCII, or empty) are valid header values. By the last clause of
/// `json_string_to_header_map`, reading that JSON back gives the map again.
pub proof fn lemma_written_headers_form_header_map(headers: Seq<HeaderField>)
    requires
        forall|i: int| 0 <= i < headers.len() ==> canonical_header_name(#[trigger] headers[i].name@)
            == Some(headers[i].name@),
    ensures
        is_header_map(entries_map(field_entries(headers))),
        entries_map(field_entries(headers)).dom().finite(),
{
    let s = field_entries(headers);
    let m = entries_map(s);
    assert forall|k: Seq<char>| #[trigger] m.contains_key(k) implies canonical_header_name(k) == Some(k)
        && is_header_value(m[k]) by {
        lemma_entries_map_source(s, k);
        let i = choose|i: int| 0 <= i < s.len() && #[trigger] s[i] == (k, m[k]);
        assert(s[i] == field_entry(headers[i]));
        let bytes = headers[i].value@;
        if all_visible(bytes) {
            assert forall|j: int| 0 <= j < m[k].len() implies is_value_char(#[trigger] m[k][j]) by {
                assert(m[k][j] == bytes[j] as char);
                assert(is_visible_byte(bytes[j]));
            }
        }
    }
    lemma_entries_map_finite(s);
}

/// A response that carries header fields written by
/// `header_map_to_json_string` never fails on a value: each is visible ASCII
/// or empty.
pub proof fn lemma_written_headers_forward(headers: Seq<HeaderField>)
    ensures
        !forwarding_fails(entries_map(field_entries(headers))),
{
    let s = field_entries(headers);
    let m = entries_map(s);
    if forwarding_fails(m) {
        let k = choose|k: Seq<char>| #[trigger] m.contains_key(k) && is_forwarded(k) && !all_visible_chars(m[k]);
        lemma_entries_map_source(s, k);
        let i = choose|i: int| 0 <= i < s.len() && #[trigger] s[i] == (k, m[k]);
        assert(s[i] == field_entry(headers[i]));
        let bytes = headers[i].value@;
        if all_visible(bytes) {
            assert forall|j: int| 0 <= j < m[k].len() implies is_visible_char(#[trigger] m[k][j]) by {
                assert(m[k][j] == bytes[j] as char);
                assert(is_visible_byte(bytes[j]));
            }
        }
    }
}

/// The map of finitely many entries is finite.
pub proof fn lemma_entries_map_finite(s: Seq<(Seq<char>, Seq<char>)>)
    ensures
        entries_map(s).dom().finite(),
    decreases s.len(),
{
    if s.len() > 0 {
        lemma_entries_map_finite(s.drop_last());
    }
}

/// Where no entry before `i` meets an error and entry `i` does, that is the
/// first error of the whole sequence.
proof fn lemma_first_entry_error_extends(s: Seq<(Seq<char>, Seq<char>)>, i: int)
    requires
        0 <= i < s.len(),
        first_entry_error(s.subrange(0, i)) is None,
        entry_error(s[i]) is Some,
    ensures
        first_entry_error(s) == entry_error(s[i]),
    decreases s.len(),
{
    if i == s.len() - 1 {
        assert(s.drop_last() =~= s.subrange(0, i));
    } else {
        assert(s.drop_last().subrange(0, i) =~= s.subrange(0, i));
        lemma_first_entry_error_extends(s.drop_last(), i);
    }
}

/// A character that `HeaderValue::to_str` accepts: visible ASCII or a tab.
pub open spec fn is_visible_char(c: char) -> bool {
    (32 <= c as u32 && (c as u32) < 127) || c == '\t'
}

/// The characters that a response passes on are exactly the printable
/// ASCII ones, from the space (32) to `~` (126), and the tab.
pub proof fn lemma_visible_chars_are_printable_ascii(t: Seq<char>)
    ensures
        all_visible_chars(t) <==> forall|i: int| 0 <= i < t.len() ==> (32 <= #[trigger] t[i] as u32
            && t[i] as u32 <= 126) || t[i] == '\t',
{
}

/// Every character of the text is visible ASCII or a tab.
pub open spec fn all_visible_chars(t: Seq<char>) -> bool {
    forall|i: int| 0 <= i < t.len() ==> is_visible_char(#[trigger] t[i])
}

/// A field that a proxy passes on: every field but `transfer-encoding`,
/// which the response that carries the body sets for itself.
pub open spec fn is_forwarded(name: Seq<char>) -> bool {
    name != "transfer-encoding"@
}

/// Some entry of `s` has the name `k`.
pub open spec fn name_seen(s: Seq<(Seq<char>, Seq<char>)>, k: Seq<char>) -> bool {
    exists|i: int| 0 <= i < s.len() && #[trigger] s[i].0 == k
}

/// The entries that a response built from a header map carries, in order:
/// the first value of each forwarded name (walking a header map gives the
/// later values of a name without the name, and they are passed over);
/// `None` where one of those values is not visible ASCII
/// (`HeaderValue::to_str` fails).
pub open spec fn forwarded_entries(s: Seq<(Seq<char>, Seq<char>)>) -> Option<Seq<(Seq<char>, Seq<char>)>>
    decreases s.len(),
{
    if s.len() == 0 {
        Some(Seq::empty())
    } else {
        match forwarded_entries(s.drop_last()) {
            None => None,
            Some(p) => if name_seen(s.drop_last(), s.last().0) || !is_forwarded(s.last().0) {
                Some(p)
            } else if !all_visible_chars(s.last().1) {
                None
            } else {
                Some(p.push(s.last()))
            },
        }
    }
}

/// Whether the name is one a proxy passes on.
pub fn forwards(name: &str) -> (b: bool)
    ensures
        b == is_forwarded(name@),
{
    let te = owned("transfer-encoding");
    let n = owned(name);
    !(n == te)
}

/// Whether one of the first `i` entries has the name.
fn seen_before(entries: &Vec<(String, String)>, i: usize, name: &str) -> (b: bool)
    requires
        i <= entries.len(),
    ensures
        b == name_seen(entries.deep_view().subrange(0, i as int), name@),
{
    let ghost s = entries.deep_view().subrange(0, i as int);
    let n = owned(name);
    let mut j: usize = 0;
    while j < i
        invariant
            j <= i <= entries.len(),
            s == entries.deep_view().subrange(0, i as int),
            n@ == name@,
            forall|k: int| 0 <= k < j ==> #[trigger] s[k].0 != name@,
        decreases i - j,
    {
        if entries[j].0 == n {
            assert(s[j as int].0 == name@);
            return true;
        }
        j = j + 1;
    }
    false
}

/// The entries of a header map that a response carries on: the first value
/// of each name but `transfer-encoding`; `None` where one of those values is
/// not visible ASCII.
pub fn forwarded_header_entries(entries: &Vec<(String, String)>) -> (r: Option<Vec<(String, String)>>)
    ensures
        match forwarded_entries(entries.deep_view()) {
            Some(f) => r is Some && r->0.deep_view() == f,
            None => r is None,
        },
{
    let ghost s = entries.deep_view();
    let mut out: Vec<(String, String)> = Vec::new();
    let mut i: usize = 0;
    while i < entries.len()
        invariant
            s == entries.deep_view(),
            i <= entries.len(),
            forwarded_entries(s.subrange(0, i as int)) == Some(out.deep_view()),
        decreases entries.len() - i,
    {
        let ghost prefix = s.subrange(0, i + 1);
        assert(prefix.drop_last() =~= s.subrange(0, i as int));
        assert(prefix.last() == (entries@[i as int].0@, entries@[i as int].1@));
        if !seen_before(entries, i, entries[i].0.as_str()) && forwards(entries[i].0.as_str()) {
            if !check_chars(entries[i].1.as_str(), CharRule::Visible) {
                proof { lemma_forwarded_none_extends(s, i + 1); }
                return None;
            }
            let ghost before = out.deep_view();
            out.push((entries[i].0.clone(), entries[i].1.clone()));
            assert(out.deep_view() =~= before.push(prefix.last()));
        }
        i = i + 1;
    }
    assert(s.subrange(0, i as int) =~= s);
    Some(out)
}

/// Once a prefix fails, the whole sequence fails.
proof fn lemma_forwarded_none_extends(s: Seq<(Seq<char>, Seq<char>)>, i: int)
    requires
        0 <= i <= s.len(),
        forwarded_entries(s.subrange(0, i)) is None,
    ensures
        forwarded_entries(s) is None,
    decreases s.len() - i,
{
    if i == s.len() {
        assert(s.subrange(0, i) =~= s);
    } else {
        let p = s.subrange(0, i + 1);
        assert(p.drop_last() =~= s.subrange(0, i));
        lemma_forwarded_none_extends(s, i + 1);
    }
}

/// The fields as entries, each value taken byte for byte as characters.
pub open spec fn field_texts(fields: Seq<HeaderField>) -> Seq<(Seq<char>, Seq<char>)> {
    fields.map_values(|f: HeaderField| (f.name@, ascii_chars(f.value@)))
}

/// The fields of a header map that a response carries on, as text: the
/// first value of each forwarded name, in order; `None` where one of those
/// values is not visible ASCII.
pub open spec fn forwarded_fields(fields: Seq<HeaderField>) -> Option<Seq<(Seq<char>, Seq<char>)>> {
    forwarded_entries(field_texts(fields))
}

/// The value's bytes as characters, one for one.
fn byte_chars(bytes: &Vec<u8>) -> (r: String)
    ensures
        r@ == ascii_chars(bytes@),
{
    let mut i: usize = 0;
    let mut s = String::new();
    while i < bytes.len()
        invariant
            i <= bytes.len(),
            s@ == ascii_chars(bytes@.subrange(0, i as int)),
        decreases bytes.len() - i,
    {
        push_char(&mut s, bytes[i] as char);
        assert(ascii_chars(bytes@.subrange(0, i + 1)) =~= ascii_chars(bytes@.subrange(0, i as int)).push(
            bytes@[i as int] as char,
        ));
        i = i + 1;
    }
    assert(bytes@.subrange(0, i as int) =~= bytes@);
    s
}

/// The fields of a header map that a response carries on, with their values
/// as text: the first value of each name but `transfer-encoding`; `None`
/// where one of those values is not visible ASCII.
pub fn forwarded_header_fields(fields: &Vec<HeaderField>) -> (r: Option<Vec<(String, String)>>)
    ensures
        match forwarded_fields(fields@) {
            Some(f) => r is Some && r->0.deep_view() == f,
            None => r is None,
        },
{
    let mut entries: Vec<(String, String)> = Vec::new();
    let mut i: usize = 0;
    while i < fields.len()
        invariant
            i <= fields.len(),
            entries.deep_view() == field_texts(fields@.subrange(0, i as int)),
        decreases fields.len() - i,
    {
        let text = byte_chars(&fields[i].value);
        let name = fields[i].name.clone();
        let ghost before = entries.deep_view();
        let ghost e = (fields@[i as int].name@, ascii_chars(fields@[i as int].value@));
        entries.push((name, text));
        assert(entries.deep_view() =~= before.push(e));
        assert(field_texts(fields@.subrange(0, i + 1)) =~= field_texts(fields@.subrange(0, i as int)).push(e));
        i = i + 1;
    }
    assert(fields@.subrange(0, i as int) =~= fields@);
    forwarded_header_entries(&entries)
}

/// Some forwarded field of the map has a value that is not visible ASCII.
pub open spec fn forwarding_fails(m: Map<Seq<char>, Seq<char>>) -> bool {
    exists|k: Seq<char>| #[trigger] m.contains_key(k) && is_forwarded(k) && !all_visible_chars(m[k])
}

/// The forwarded fields of the map.
pub open spec fn forwarded_map(m: Map<Seq<char>, Seq<char>>) -> Map<Seq<char>, Seq<char>> {
    m.restrict(Set::new(|k: Seq<char>| is_forwarded(k)))
}

/// A response never carries `transfer-encoding` on, and carries every
/// other field of the map.
pub proof fn lemma_forwarded_map_fields(m: Map<Seq<char>, Seq<char>>, k: Seq<char>)
    ensures
        !forwarded_map(m).contains_key("transfer-encoding"@),
        k != "transfer-encoding"@ ==> (forwarded_map(m).contains_key(k) == m.contains_key(k)),
        forwarded_map(m).contains_key(k) ==> forwarded_map(m)[k] == m[k],
{
}

proof fn lemma_keys_distinct_drop_last(s: Seq<(Seq<char>, Seq<char>)>)
    requires
        keys_distinct(s),
        s.len() > 0,
    ensures
        keys_distinct(s.drop_last()),
        forall|i: int| 0 <= i < s.len() - 1 ==> #[trigger] s[i].0 != s.last().0,
{
    let d = s.drop_last();
    assert forall|a: int, b: int| 0 <= a < b < d.len() implies #[trigger] d[a].0 != #[trigger] d[b].0 by {
        assert(d[a] == s[a] && d[b] == s[b]);
    }
    assert forall|i: int| 0 <= i < s.len() - 1 implies #[trigger] s[i].0 != s.last().0 by {
        assert(s[i].0 != s[s.len() - 1].0);
    }
}

/// A key that no entry has is not in the map.
proof fn lemma_entries_map_absent(s: Seq<(Seq<char>, Seq<char>)>, k: Seq<char>)
    requires
        forall|i: int| 0 <= i < s.len() ==> #[trigger] s[i].0 != k,
    ensures
        !entries_map(s).contains_key(k),
{
    if entries_map(s).contains_key(k) {
        lemma_entries_map_source(s, k);
        let i = choose|i: int| 0 <= i < s.len() && #[trigger] s[i] == (k, entries_map(s)[k]);
        assert(s[i].0 == k);
    }
}

/// For entries with distinct keys, `forwarded_entries` fails exactly when
/// the map has a forwarded field with a value that is not visible ASCII, and
/// otherwise gives the forwarded fields of the map, each once.
pub proof fn lemma_forwarded_entries_map(s: Seq<(Seq<char>, Seq<char>)>)
    requires
        keys_distinct(s),
    ensures
        forwarded_entries(s) is None <==> forwarding_fails(entries_map(s)),
        forwarded_entries(s) is Some ==> keys_distinct(forwarded_entries(s)->0) && entries_map(
            forwarded_entries(s)->0,
        ) == forwarded_map(entries_map(s)),
    decreases s.len(),
{
    if s.len() == 0 {
        assert(entries_map(s) =~= Map::<Seq<char>, Seq<char>>::empty());
        assert(forwarded_map(entries_map(s)) =~= Map::<Seq<char>, Seq<char>>::empty());
    } else {
        let d = s.drop_last();
        let e = s.last();
        lemma_keys_distinct_drop_last(s);
        lemma_forwarded_entries_map(d);
        lemma_entries_map_absent(d, e.0);
        assert(!name_seen(d, e.0)) by {
            if name_seen(d, e.0) {
                let i = choose|i: int| 0 <= i < d.len() && #[trigger] d[i].0 == e.0;
                assert(d[i] == s[i]);
            }
        }
        let md = entries_map(d);
        let m = entries_map(s);
        assert(m == md.insert(e.0, e.1));
        if forwarded_entries(d) is None {
            let k = choose|k: Seq<char>| #[trigger] md.contains_key(k) && is_forwarded(k) && !all_visible_chars(md[k]);
            assert(m.contains_key(k) && m[k] == md[k]);
        } else {
            let p = forwarded_entries(d)->0;
            assert(!forwarding_fails(md));
            if forwarding_fails(m) {
                let k = choose|k: Seq<char>| #[trigger] m.contains_key(k) && is_forwarded(k) && !all_visible_chars(m[k]);
                if k != e.0 {
                    assert(md.contains_key(k) && md[k] == m[k]);
                    assert(forwarding_fails(md));
                }
                assert(forwarded_entries(s) is None);
            }
            if is_forwarded(e.0) && !all_visible_chars(e.1) {
                assert(m.contains_key(e.0) && m[e.0] == e.1);
                assert(forwarding_fails(m));
            }
            if is_forwarded(e.0) && all_visible_chars(e.1) {
                assert(!entries_map(p).contains_key(e.0));
                assert forall|a: int, b: int| 0 <= a < b < p.push(e).len() implies
                    #[trigger] p.push(e)[a].0 != #[trigger] p.push(e)[b].0 by {
                    if b == p.len() {
                        lemma_entries_map_contains(p, a);
                    } else {
                        assert(p.push(e)[a] == p[a] && p.push(e)[b] == p[b]);
                    }
                }
                assert(p.push(e).drop_last() =~= p);
                assert(entries_map(p.push(e)) =~= forwarded_map(m));
            } else if !is_forwarded(e.0) {
                assert(entries_map(p) =~= forwarded_map(m));
            }
        }
    }
}

} // verus!
