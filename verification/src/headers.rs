//! Reading HTTP header maps: the entries they hold and the values that are
//! valid text.
use vstd::prelude::*;
use axum::http::{HeaderMap, HeaderValue};

verus! {

/// `http::HeaderMap`, as re-exported by `axum`: opaque to the verifier, read
/// only through `header_entries`.
#[verifier::external_type_specification]
#[verifier::external_body]
#[verifier::reject_recursive_types(T)]
pub struct ExHeaderMap<T>(HeaderMap<T>);

/// `http::HeaderValue`, the values a `HeaderMap` holds by default.
#[verifier::external_type_specification]
#[verifier::external_body]
pub struct ExHeaderValue(HeaderValue);

/// The entries of a header map in its iteration order: each header name (as
/// stored, lower case) once per value, with the value's raw bytes.
pub uninterp spec fn header_contents(map: HeaderMap) -> Seq<(Seq<char>, Seq<u8>)>;

/// Calls `HeaderMap::iter`, handing each pair out as the name's text
/// (`HeaderName::as_str`) and the value's bytes (`HeaderValue::as_bytes`).
/// The contract claims that the result, in order, is what `header_contents`
/// names for the map.
#[verifier::external_body]
fn header_entries(map: &HeaderMap) -> (entries: Vec<(String, Vec<u8>)>)
    ensures
        entries@.map_values(|e: (String, Vec<u8>)| (e.0@, e.1@)) == header_contents(*map),
{
    let mut out = Vec::new();
    for (name, value) in map.iter() {
        out.push((name.as_str().to_string(), value.as_bytes().to_vec()));
    }
    out
}

/// A byte that `HeaderValue::to_str` accepts: visible ASCII or a tab.
pub open spec fn visible_byte(b: u8) -> bool {
    (32 <= b && b < 127) || b == 9
}

/// Bytes that form a valid text header value.
pub open spec fn visible_ascii(b: Seq<u8>) -> bool {
    forall|i: int| 0 <= i < b.len() ==> #[trigger] visible_byte(b[i])
}

/// The characters of ASCII bytes, one per byte.
pub open spec fn ascii_chars(b: Seq<u8>) -> Seq<char> {
    b.map_values(|x: u8| x as char)
}

/// The value of the first entry named `name`, if any.
pub open spec fn first_named(c: Seq<(Seq<char>, Seq<u8>)>, name: Seq<char>) -> Option<Seq<u8>>
    decreases c.len(),
{
    if c.len() == 0 {
        None
    } else if c[0].0 == name {
        Some(c[0].1)
    } else {
        first_named(c.drop_first(), name)
    }
}

/// The text of the first value named `name`: `None` when the header is
/// absent or its value is not valid text.
pub open spec fn header_text(c: Seq<(Seq<char>, Seq<u8>)>, name: Seq<char>) -> Option<Seq<u8>> {
    match first_named(c, name) {
        Some(v) => if visible_ascii(v) { Some(v) } else { None },
        None => None,
    }
}

/// The entries whose values are valid text, as (name, value) text pairs.
pub open spec fn text_entries(c: Seq<(Seq<char>, Seq<u8>)>) -> Seq<(Seq<char>, Seq<char>)>
    decreases c.len(),
{
    if c.len() == 0 {
        Seq::empty()
    } else {
        let rest = text_entries(c.drop_last());
        let e = c.last();
        if visible_ascii(e.1) {
            rest.push((e.0, ascii_chars(e.1)))
        } else {
            rest
        }
    }
}

/// Calls `String::from_utf8`; ASCII bytes are valid UTF-8 and decode to one
/// character per byte, which is what the contract claims.
#[verifier::external_body]
pub(crate) fn ascii_to_string(bytes: Vec<u8>) -> (s: String)
    requires
        forall|i: int| 0 <= i < bytes@.len() ==> bytes@[i] < 128,
    ensures
        s@ == ascii_chars(bytes@),
{
    match String::from_utf8(bytes) {
        Ok(s) => s,
        Err(_) => String::new(),
    }
}

/// Whether every byte is visible ASCII or a tab.
pub fn is_visible_text(b: &[u8]) -> (r: bool)
    ensures
        r == visible_ascii(b@),
{
    let mut i: usize = 0;
    while i < b.len()
        invariant
            0 <= i <= b@.len(),
            forall|j: int| 0 <= j < i ==> #[trigger] visible_byte(b@[j]),
        decreases b@.len() - i,
    {
        let x = b[i];
        if !((32 <= x && x < 127) || x == 9) {
            assert(!visible_byte(b@[i as int]));
            return false;
        }
        i = i + 1;
    }
    true
}

proof fn lemma_first_named_skip(c: Seq<(Seq<char>, Seq<u8>)>, name: Seq<char>, i: int)
    requires
        0 <= i < c.len(),
        c[i].0 != name,
    ensures
        first_named(c.skip(i), name) == first_named(c.skip(i + 1), name),
{
    assert(c.skip(i).drop_first() =~= c.skip(i + 1));
}

/// The index of the first entry whose name is `name`.
fn find_entry(entries: &Vec<(String, Vec<u8>)>, name: &String) -> (r: Option<usize>)
    ensures
        match r {
            Some(i) => i < entries@.len() && first_named(
                entries@.map_values(|e: (String, Vec<u8>)| (e.0@, e.1@)),
                name@,
            ) == Some(entries@[i as int].1@),
            None => first_named(entries@.map_values(|e: (String, Vec<u8>)| (e.0@, e.1@)), name@)
                is None,
        },
{
    let ghost c = entries@.map_values(|e: (String, Vec<u8>)| (e.0@, e.1@));
    let mut i: usize = 0;
    assert(c.skip(0) =~= c);
    while i < entries.len()
        invariant
            0 <= i <= entries@.len(),
            c == entries@.map_values(|e: (String, Vec<u8>)| (e.0@, e.1@)),
            first_named(c, name@) == first_named(c.skip(i as int), name@),
        decreases entries@.len() - i,
    {
        if entries[i].0 == *name {
            assert(c.skip(i as int)[0] == c[i as int]);
            return Some(i);
        }
        proof {
            lemma_first_named_skip(c, name@, i as int);
        }
        i = i + 1;
    }
    assert(c.skip(i as int).len() == 0);
    None
}

/// The text of the first value named `name` as characters.
pub open spec fn header_str(c: Seq<(Seq<char>, Seq<u8>)>, name: Seq<char>) -> Option<Seq<char>> {
    match header_text(c, name) {
        Some(v) => Some(ascii_chars(v)),
        None => None,
    }
}

/// The text of the first header named `name` (a lower-case header name), as
/// `HeaderMap::get` followed by `HeaderValue::to_str` gives it; `None` when the
/// header is absent or its value is not valid text.
pub fn header_text_value(headers: &HeaderMap, name: &str) -> (r: Option<String>)
    ensures
        match r {
            Some(s) => header_str(header_contents(*headers), name@) == Some(s@),
            None => header_str(header_contents(*headers), name@) is None,
        },
{
    let entries = header_entries(headers);
    let key = String::from_str(name);
    match find_entry(&entries, &key) {
        Some(i) => {
            let v = &entries[i].1;
            if is_visible_text(v.as_slice()) {
                let bytes = v.clone();
                assert(forall|k: int| 0 <= k < bytes@.len() ==> bytes@[k] < 128) by {
                    assert forall|k: int| 0 <= k < bytes@.len() implies bytes@[k] < 128 by {
                        assert(visible_byte(entries@[i as int].1@[k]));
                    }
                }
                Some(ascii_to_string(bytes))
            } else {
                None
            }
        },
        None => None,
    }
}

/// The headers whose values are valid text, as (name, value) pairs in the
/// map's order; values that are not valid text are left out.
pub fn headers_to_map(headers: &HeaderMap) -> (r: Vec<(String, String)>)
    ensures
        r@.map_values(|p: (String, String)| (p.0@, p.1@)) == text_entries(header_contents(*headers)),
{
    let entries = header_entries(headers);
    let ghost c = entries@.map_values(|e: (String, Vec<u8>)| (e.0@, e.1@));
    let mut out: Vec<(String, String)> = Vec::new();
    let mut i: usize = 0;
    assert(c.take(0) =~= Seq::<(Seq<char>, Seq<u8>)>::empty());
    while i < entries.len()
        invariant
            0 <= i <= entries@.len(),
            c == entries@.map_values(|e: (String, Vec<u8>)| (e.0@, e.1@)),
            out@.map_values(|p: (String, String)| (p.0@, p.1@)) == text_entries(c.take(i as int)),
        decreases entries@.len() - i,
    {
        let ghost before = out@;
        assert(c.take(i + 1).drop_last() =~= c.take(i as int));
        assert(c.take(i + 1).last() == c[i as int]);
        if is_visible_text(entries[i].1.as_slice()) {
            let name = entries[i].0.clone();
            let bytes = entries[i].1.clone();
            assert(forall|k: int| 0 <= k < bytes@.len() ==> bytes@[k] < 128) by {
                assert forall|k: int| 0 <= k < bytes@.len() implies bytes@[k] < 128 by {
                    assert(visible_byte(entries@[i as int].1@[k]));
                }
            }
            let value = ascii_to_string(bytes);
            out.push((name, value));
            assert(out@.map_values(|p: (String, String)| (p.0@, p.1@)) =~= before.map_values(
                |p: (String, String)| (p.0@, p.1@),
            ).push((c[i as int].0, ascii_chars(c[i as int].1))));
        }
        i = i + 1;
    }
    assert(c.take(entries@.len() as int) =~= c);
    out
}


/// Every value in the header sequence is valid text.
pub open spec fn all_text(c: Seq<(Seq<char>, Seq<u8>)>) -> bool {
    forall|i: int| 0 <= i < c.len() ==> visible_ascii(#[trigger] c[i].1)
}

/// The header sequence with every value read as text.
pub open spec fn as_text(c: Seq<(Seq<char>, Seq<u8>)>) -> Seq<(Seq<char>, Seq<char>)> {
    c.map_values(|e: (Seq<char>, Seq<u8>)| (e.0, ascii_chars(e.1)))
}

/// When every value is text, no header is left out.
pub proof fn lemma_all_text_entries(c: Seq<(Seq<char>, Seq<u8>)>)
    requires
        all_text(c),
    ensures
        text_entries(c) == as_text(c),
    decreases c.len(),
{
    if c.len() > 0 {
        let p = c.drop_last();
        assert forall|i: int| 0 <= i < p.len() implies visible_ascii(#[trigger] p[i].1) by {
            assert(p[i] == c[i]);
        }
        lemma_all_text_entries(p);
        assert(visible_ascii(c[c.len() - 1].1));
        assert(as_text(c) =~= as_text(p).push((c.last().0, ascii_chars(c.last().1))));
    }
}

/// Whether every header value is valid text, as `HeaderValue::to_str`
/// accepts it.
pub fn headers_are_text(headers: &HeaderMap) -> (r: bool)
    ensures
        r == all_text(header_contents(*headers)),
{
    let entries = header_entries(headers);
    let ghost c = entries@.map_values(|e: (String, Vec<u8>)| (e.0@, e.1@));
    let mut i: usize = 0;
    while i < entries.len()
        invariant
            0 <= i <= entries@.len(),
            c == entries@.map_values(|e: (String, Vec<u8>)| (e.0@, e.1@)),
            c == header_contents(*headers),
            forall|j: int| 0 <= j < i ==> visible_ascii(#[trigger] c[j].1),
        decreases entries@.len() - i,
    {
        if !is_visible_text(entries[i].1.as_slice()) {
            assert(!visible_ascii(c[i as int].1));
            return false;
        }
        i = i + 1;
    }
    true
}

} // verus!
