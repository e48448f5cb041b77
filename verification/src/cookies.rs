//! The `tunnel` cookie that keeps a client on the backend it was first sent
//! to, and the subdomain a request is addressed to.
use vstd::prelude::*;
use vstd::string::*;
use axum::http::HeaderMap;
use crate::headers::{header_contents, header_str, header_text_value};
use crate::text::{
    chars_of, has_prefix_at, is_whitespace, lemma_leading_ws, lemma_segment_len,
    lemma_trailing_ws, segment_end, segment_len, starts_with, string_of, trim, trim_bounds,
};

verus! {

broadcast use vstd::string::group_string_axioms;

/// The name of the `Cookie` request header.
pub open spec fn cookie_header_name() -> Seq<char> {
    seq!['c', 'o', 'o', 'k', 'i', 'e']
}

/// The name of the `Host` request header.
pub open spec fn host_header_name() -> Seq<char> {
    seq!['h', 'o', 's', 't']
}

/// What a cookie pair starts with: its name and `=`.
pub open spec fn cookie_key(name: Seq<char>) -> Seq<char> {
    name.push('=')
}

/// The value of the cookie whose pair starts with `key` in a `Cookie` header:
/// the header is split on `;`, each pair is trimmed, and the first pair that
/// starts with `key` gives what follows `key`.
pub open spec fn cookie_lookup(s: Seq<char>, key: Seq<char>) -> Option<Seq<char>>
    decreases s.len(),
{
    let n = segment_len(s, ';');
    let part = trim(s.subrange(0, if n <= s.len() { n as int } else { s.len() as int }));
    if starts_with(part, key) {
        Some(part.skip(key.len() as int))
    } else if n >= s.len() {
        None
    } else {
        cookie_lookup(s.skip(n as int + 1), key)
    }
}

/// The value of cookie `name` in the request whose headers hold `c`.
pub open spec fn request_cookie(c: Seq<(Seq<char>, Seq<u8>)>, name: Seq<char>) -> Option<Seq<char>> {
    match header_str(c, cookie_header_name()) {
        Some(h) => cookie_lookup(h, cookie_key(name)),
        None => None,
    }
}

/// The first label of a host name: what comes before the first `.`.
pub open spec fn subdomain_of(host: Seq<char>) -> Seq<char> {
    host.take(segment_len(host, '.') as int)
}

/// The subdomain a request is addressed to: the first label of its `Host`
/// header, or the empty string when that header is absent or not text.
pub open spec fn request_subdomain(c: Seq<(Seq<char>, Seq<u8>)>) -> Seq<char> {
    match header_str(c, host_header_name()) {
        Some(h) => subdomain_of(h),
        None => Seq::empty(),
    }
}

pub open spec fn tunnel_cookie_prefix() -> Seq<char> {
    seq!['t', 'u', 'n', 'n', 'e', 'l', '=']
}

pub open spec fn tunnel_cookie_suffix() -> Seq<char> {
    seq![';', ' ', 'P', 'a', 't', 'h', '=', '/', ';', ' ', 'H', 't', 't', 'p', 'O', 'n', 'l', 'y']
}

/// The `Set-Cookie` value that pins a client to backend `value`.
pub open spec fn tunnel_cookie_text(value: Seq<char>) -> Seq<char> {
    tunnel_cookie_prefix() + value + tunnel_cookie_suffix()
}

pub proof fn lemma_segment_len_bound(s: Seq<char>, sep: char)
    ensures
        segment_len(s, sep) <= s.len(),
    decreases s.len(),
{
    if s.len() > 0 && s[0] != sep {
        lemma_segment_len_bound(s.drop_first(), sep);
    }
}

fn copy_range(s: &Vec<char>, from: usize, to: usize) -> (v: Vec<char>)
    requires
        from <= to <= s@.len(),
    ensures
        v@ == s@.subrange(from as int, to as int),
{
    let mut v: Vec<char> = Vec::new();
    let mut i = from;
    while i < to
        invariant
            from <= i <= to <= s@.len(),
            v@ == s@.subrange(from as int, i as int),
        decreases to - i,
    {
        v.push(s[i]);
        i = i + 1;
        assert(v@ =~= s@.subrange(from as int, i as int));
    }
    v
}

/// The value of cookie `name` in the text of a `Cookie` header.
pub fn cookie_value(header: &str, name: &str) -> (r: Option<String>)
    ensures
        match r {
            Some(v) => cookie_lookup(header@, cookie_key(name@)) == Some(v@),
            None => cookie_lookup(header@, cookie_key(name@)) is None,
        },
{
    let s = chars_of(header);
    let mut key = chars_of(name);
    key.push('=');
    assert(key@ == cookie_key(name@));
    let mut start: usize = 0;
    assert(s@.skip(0) =~= s@);
    loop
        invariant
            start <= s@.len(),
            s@ == header@,
            key@ == cookie_key(name@),
            cookie_lookup(s@, key@) == cookie_lookup(s@.skip(start as int), key@),
        decreases s@.len() - start,
    {
        let ghost t = s@.skip(start as int);
        let end = segment_end(&s, start, ';');
        let (a, b) = trim_bounds(&s, start, end);
        proof {
            lemma_segment_len_bound(t, ';');
            assert(t.subrange(0, (end - start) as int) =~= s@.subrange(start as int, end as int));
        }
        if has_prefix_at(&s, a, b, &key) {
            let v = copy_range(&s, a + key.len(), b);
            assert(s@.subrange(a as int, b as int).skip(key@.len() as int) =~= v@);
            return Some(string_of(v.as_slice()));
        }
        if end >= s.len() {
            return None;
        }
        assert(t.skip(end - start + 1) =~= s@.skip(end + 1));
        start = end + 1;
    }
}

/// The value of cookie `name` in the request's `Cookie` header, if the header
/// is present, is text, and holds such a cookie.
pub fn get_cookie_value(headers: &HeaderMap, name: &str) -> (r: Option<String>)
    ensures
        match r {
            Some(v) => request_cookie(header_contents(*headers), name@) == Some(v@),
            None => request_cookie(header_contents(*headers), name@) is None,
        },
{
    proof {
        reveal_strlit("cookie");
    }
    assert("cookie"@ =~= cookie_header_name());
    match header_text_value(headers, "cookie") {
        Some(h) => cookie_value(h.as_str(), name),
        None => None,
    }
}

/// The first label of `host`.
pub fn subdomain(host: &str) -> (r: String)
    ensures
        r@ == subdomain_of(host@),
{
    let s = chars_of(host);
    let end = segment_end(&s, 0, '.');
    assert(s@.skip(0) =~= s@);
    let v = copy_range(&s, 0, end);
    assert(v@ =~= s@.take(end as int));
    string_of(v.as_slice())
}

/// The subdomain the request is addressed to, from its `Host` header.
pub fn host_subdomain(headers: &HeaderMap) -> (r: String)
    ensures
        r@ == request_subdomain(header_contents(*headers)),
{
    proof {
        reveal_strlit("host");
    }
    assert("host"@ =~= host_header_name());
    match header_text_value(headers, "host") {
        Some(h) => subdomain(h.as_str()),
        None => {
            let empty: Vec<char> = Vec::new();
            assert(subdomain_of(Seq::<char>::empty()) =~= Seq::<char>::empty());
            string_of(empty.as_slice())
        },
    }
}

/// The `Set-Cookie` value `tunnel=<value>; Path=/; HttpOnly` that pins a
/// client to backend `value` (a tunnel id, or `cloud`).
pub fn tunnel_cookie(value: &str) -> (r: String)
    ensures
        r@ == tunnel_cookie_text(value@),
{
    proof {
        reveal_strlit("tunnel=");
        reveal_strlit("; Path=/; HttpOnly");
    }
    assert("tunnel="@ =~= tunnel_cookie_prefix());
    assert("; Path=/; HttpOnly"@ =~= tunnel_cookie_suffix());
    let mut r = String::from_str("tunnel=");
    r.append(value);
    r.append("; Path=/; HttpOnly");
    r
}


/// The name of the cookie that pins a client to a backend.
pub open spec fn tunnel_cookie_name() -> Seq<char> {
    seq!['t', 'u', 'n', 'n', 'e', 'l']
}

/// The name of the cookie that records which kind of backend served a client.
pub open spec fn backend_cookie_name() -> Seq<char> {
    seq!['b', 'a', 'c', 'k', 'e', 'n', 'd']
}

/// The backend value that pins a client to the cloud.
pub open spec fn cloud_backend() -> Seq<char> {
    seq!['c', 'l', 'o', 'u', 'd']
}

/// The `Set-Cookie` value that records the kind of backend that served a
/// client: `backend=local; Path=/` or `backend=cloud; Path=/`.
pub open spec fn backend_cookie_text(local: bool) -> Seq<char> {
    seq!['b', 'a', 'c', 'k', 'e', 'n', 'd', '='] + (if local {
        seq!['l', 'o', 'c', 'a', 'l']
    } else {
        cloud_backend()
    }) + seq![';', ' ', 'P', 'a', 't', 'h', '=', '/']
}

/// The `Set-Cookie` values a response carries: for a tunnel `id`, the cookie
/// pinning the client to it and `backend=local`; for the cloud,
/// `backend=cloud` and the cookie pinning the client to `cloud`.
pub open spec fn route_cookie_texts(target: Option<Seq<char>>) -> Seq<Seq<char>> {
    match target {
        Some(id) => seq![tunnel_cookie_text(id), backend_cookie_text(true)],
        None => seq![backend_cookie_text(false), tunnel_cookie_text(cloud_backend())],
    }
}

/// The `Set-Cookie` values for a response served by tunnel `target`, or by
/// the cloud backend when `target` is `None`.
pub fn route_cookies(target: Option<&str>) -> (r: Vec<String>)
    ensures
        r@.map_values(|s: String| s@) == route_cookie_texts(
            match target { Some(t) => Some(t@), None => None },
        ),
{
    proof {
        reveal_strlit("backend=local; Path=/");
        reveal_strlit("backend=cloud; Path=/");
        reveal_strlit("cloud");
    }
    let mut r: Vec<String> = Vec::new();
    match target {
        Some(id) => {
            r.push(tunnel_cookie(id));
            r.push(String::from_str("backend=local; Path=/"));
            assert("backend=local; Path=/"@ =~= backend_cookie_text(true));
        },
        None => {
            r.push(String::from_str("backend=cloud; Path=/"));
            r.push(tunnel_cookie("cloud"));
            assert("backend=cloud; Path=/"@ =~= backend_cookie_text(false));
            assert("cloud"@ =~= cloud_backend());
        },
    }
    assert(r@.map_values(|s: String| s@) =~= route_cookie_texts(
        match target { Some(t) => Some(t@), None => None },
    ));
    r
}

/// The cookie a response from the cloud backend is given when the client is
/// not already pinned there: `backend=cloud; Path=/`.
pub fn cloud_cookie(is_sticky: bool) -> (r: Option<String>)
    ensures
        is_sticky ==> r is None,
        !is_sticky ==> (r matches Some(c) && c@ == backend_cookie_text(false)),
{
    if is_sticky {
        None
    } else {
        proof {
            reveal_strlit("backend=cloud; Path=/");
        }
        assert("backend=cloud; Path=/"@ =~= backend_cookie_text(false));
        Some(String::from_str("backend=cloud; Path=/"))
    }
}

/// A value that survives being written into a cookie pair: it holds no `;`
/// and does not end in whitespace.
pub open spec fn cookie_safe(value: Seq<char>) -> bool {
    &&& forall|k: int| 0 <= k < value.len() ==> value[k] != ';'
    &&& value.len() == 0 || !is_whitespace(value.last())
}

/// A header that starts with the pair `tunnel=<value>`, followed by nothing
/// or by further pairs, yields `value` for the `tunnel` cookie.
pub proof fn lemma_tunnel_pair_lookup(value: Seq<char>, rest: Seq<char>)
    requires
        cookie_safe(value),
        rest.len() == 0 || rest[0] == ';',
    ensures
        cookie_lookup(tunnel_cookie_prefix() + value + rest, cookie_key(tunnel_cookie_name()))
            == Some(value),
{
    let s = tunnel_cookie_prefix() + value + rest;
    let key = cookie_key(tunnel_cookie_name());
    let n: int = 7 + value.len() as int;
    assert forall|k: int| 0 <= k < n implies s[k] != ';' by {
        if k >= 7 {
            assert(s[k] == value[k - 7]);
        }
    }
    if n < s.len() {
        assert(s[n] == rest[0]);
    }
    lemma_segment_len(s, ';', n);
    let part = s.subrange(0, n);
    assert(part =~= tunnel_cookie_prefix() + value);
    lemma_leading_ws(part, 0);
    if value.len() == 0 {
        assert(part[part.len() - 1] == '=');
    } else {
        assert(part[part.len() - 1] == value.last());
    }
    lemma_trailing_ws(part, part.len() as int);
    assert(trim(part) =~= part);
    assert(part.take(7) =~= key);
    assert(part.skip(7) =~= value);
}

/// Round trip of the pinning cookie: the text that `tunnel_cookie` writes,
/// read back as a `Cookie` header, yields the value it was written with, for
/// every value that holds no `;` and does not end in whitespace.
pub proof fn lemma_tunnel_cookie_round_trip(value: Seq<char>)
    requires
        cookie_safe(value),
    ensures
        cookie_lookup(tunnel_cookie_text(value), cookie_key(tunnel_cookie_name())) == Some(value),
{
    assert(tunnel_cookie_text(value) =~= tunnel_cookie_prefix() + value + tunnel_cookie_suffix());
    lemma_tunnel_pair_lookup(value, tunnel_cookie_suffix());
}

/// A header holding only the pair `tunnel=<value>` has no `backend` cookie.
pub proof fn lemma_tunnel_pair_has_no_backend(value: Seq<char>)
    requires
        cookie_safe(value),
    ensures
        cookie_lookup(tunnel_cookie_prefix() + value, cookie_key(backend_cookie_name())) is None,
{
    let s = tunnel_cookie_prefix() + value;
    let n: int = s.len() as int;
    assert forall|k: int| 0 <= k < n implies s[k] != ';' by {
        if k >= 7 {
            assert(s[k] == value[k - 7]);
        }
    }
    lemma_segment_len(s, ';', n);
    let part = s.subrange(0, n);
    assert(part =~= s);
    lemma_leading_ws(part, 0);
    if value.len() == 0 {
        assert(part[part.len() - 1] == '=');
    } else {
        assert(part[part.len() - 1] == value.last());
    }
    lemma_trailing_ws(part, part.len() as int);
    assert(trim(part) =~= part);
    assert(part[0] == 't');
    assert(cookie_key(backend_cookie_name())[0] == 'b');
    let key = cookie_key(backend_cookie_name());
    assert(key.len() == 8);
    if part.len() >= 8 {
        assert(part.take(8)[0] == part[0]);
        assert(part.take(8) != key);
    }
}

/// The value that records a client served by a local tunnel.
pub open spec fn local_backend() -> Seq<char> {
    seq!['l', 'o', 'c', 'a', 'l']
}

/// The pair `backend=local`, as a client sends it back.
pub open spec fn backend_local_pair() -> Seq<char> {
    cookie_key(backend_cookie_name()) + local_backend()
}

/// The separator between the pairs of a `Cookie` header.
pub open spec fn pair_separator() -> Seq<char> {
    seq![';', ' ']
}

/// A cookie key that is read back unchanged: not empty, no `;`, and no
/// whitespace at its ends.
pub open spec fn plain_key(key: Seq<char>) -> bool {
    &&& key.len() > 0
    &&& forall|k: int| 0 <= k < key.len() ==> key[k] != ';'
    &&& !is_whitespace(key[0])
    &&& !is_whitespace(key.last())
}

proof fn lemma_lookup_step(s: Seq<char>, key: Seq<char>, n: int)
    requires
        0 <= n <= s.len(),
        forall|k: int| 0 <= k < n ==> s[k] != ';',
        n == s.len() || s[n] == ';',
    ensures
        cookie_lookup(s, key) == (if starts_with(trim(s.take(n)), key) {
            Some(trim(s.take(n)).skip(key.len() as int))
        } else if n >= s.len() {
            None
        } else {
            cookie_lookup(s.skip(n + 1), key)
        }),
{
    lemma_segment_len(s, ';', n);
    assert(s.subrange(0, n) =~= s.take(n));
}

/// Looking up cookies in a header that starts with the pair `key=<value>`,
/// possibly after spaces, and goes on with `rest` (nothing, or `;` and
/// further pairs): `key` gives `value`, and a key with another first
/// character is looked up in the pairs that follow.
pub proof fn lemma_lookup_pair(
    lead: Seq<char>,
    key: Seq<char>,
    value: Seq<char>,
    rest: Seq<char>,
    other: Seq<char>,
)
    requires
        forall|k: int| 0 <= k < lead.len() ==> lead[k] == ' ',
        plain_key(key),
        cookie_safe(value),
        rest.len() == 0 || rest[0] == ';',
    ensures
        cookie_lookup(lead + key + value + rest, key) == Some(value),
        other.len() > 0 && other[0] != key[0] ==> cookie_lookup(lead + key + value + rest, other)
            == if rest.len() == 0 {
            None
        } else {
            cookie_lookup(rest.drop_first(), other)
        },
{
    let s = lead + key + value + rest;
    let p = lead + key + value;
    let n: int = p.len() as int;
    let a: int = lead.len() as int;
    assert forall|k: int| 0 <= k < n implies s[k] != ';' by {
        assert(s[k] == p[k]);
        if k >= a + key.len() {
            assert(p[k] == value[k - a - key.len()]);
        } else if k >= a {
            assert(p[k] == key[k - a]);
        }
    }
    if n < s.len() {
        assert(s[n] == rest[0]);
    }
    lemma_lookup_step(s, key, n);
    lemma_lookup_step(s, other, n);
    assert(s.take(n) =~= p);
    assert forall|k: int| 0 <= k < a implies is_whitespace(#[trigger] p[k]) by {
        assert(p[k] == lead[k]);
    }
    assert(p[a] == key[0]);
    lemma_leading_ws(p, a);
    if value.len() == 0 {
        assert(p[p.len() - 1] == key.last());
    } else {
        assert(p[p.len() - 1] == value.last());
    }
    lemma_trailing_ws(p, p.len() as int);
    let t = key + value;
    assert(trim(p) =~= t);
    assert(t.take(key.len() as int) =~= key);
    assert(t.skip(key.len() as int) =~= value);
    if other.len() > 0 && other[0] != key[0] {
        if other.len() <= t.len() {
            assert(t.take(other.len() as int)[0] == key[0]);
        }
        if n < s.len() {
            assert(s.skip(n + 1) =~= rest.drop_first());
        }
    }
}

/// Both orders in which a client sends back the two pairs a tunnel's
/// response set, `tunnel=<id>` and `backend=local`, give `id` for the
/// `tunnel` cookie and `local` for the `backend` cookie.
pub proof fn lemma_returned_pairs(id: Seq<char>)
    requires
        cookie_safe(id),
    ensures
        cookie_lookup(
            tunnel_cookie_prefix() + id + pair_separator() + backend_local_pair(),
            cookie_key(tunnel_cookie_name()),
        ) == Some(id),
        cookie_lookup(
            tunnel_cookie_prefix() + id + pair_separator() + backend_local_pair(),
            cookie_key(backend_cookie_name()),
        ) == Some(local_backend()),
        cookie_lookup(
            backend_local_pair() + pair_separator() + tunnel_cookie_prefix() + id,
            cookie_key(tunnel_cookie_name()),
        ) == Some(id),
        cookie_lookup(
            backend_local_pair() + pair_separator() + tunnel_cookie_prefix() + id,
            cookie_key(backend_cookie_name()),
        ) == Some(local_backend()),
{
    let tkey = cookie_key(tunnel_cookie_name());
    let bkey = cookie_key(backend_cookie_name());
    let empty = Seq::<char>::empty();
    let space = seq![' '];
    assert(tkey =~= tunnel_cookie_prefix());
    assert(plain_key(tkey));
    assert(plain_key(bkey));
    assert(cookie_safe(local_backend()));
    let local = local_backend();
    let tail = seq![';'] + space + backend_local_pair();
    // tunnel pair first
    let s1 = tunnel_cookie_prefix() + id + pair_separator() + backend_local_pair();
    assert(s1 =~= empty + tkey + id + tail);
    lemma_lookup_pair(empty, tkey, id, tail, bkey);
    assert(tail.drop_first() =~= space + bkey + local + empty);
    lemma_lookup_pair(space, bkey, local, empty, tkey);
    // backend pair first
    let s2 = backend_local_pair() + pair_separator() + tunnel_cookie_prefix() + id;
    let tail2 = seq![';'] + space + tkey + id;
    assert(s2 =~= empty + bkey + local + tail2);
    lemma_lookup_pair(empty, bkey, local, tail2, tkey);
    assert(tail2.drop_first() =~= space + tkey + id + empty);
    lemma_lookup_pair(space, tkey, id, empty, bkey);
    assert(empty + tkey + id + tail =~= s1);
    assert(space + bkey + local + empty =~= tail.drop_first());
    assert(empty + bkey + local + tail2 =~= s2);
    assert(space + tkey + id + empty =~= tail2.drop_first());
}

} // verus!
