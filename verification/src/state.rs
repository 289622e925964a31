//! Server addresses: normalisation, the app URL, and the saved server history.
use vstd::prelude::*;
use vstd::string::StringExecFns;
use crate::text::{
    chars_eq, chars_of, ends_with, ends_with_spec, lemma_rfind_char, lowercase, lowercase_chars,
    push_all, rfind, rfind_char, starts_with, starts_with_spec, string_of, sub_chars, trim_end_char,
    trim_end_matches, trim_spec, trim_str,
};
use crate::weburl::{ParsedUrl, url_parse};

verus! {

/// Adds `https://` unless the address already starts with `http://` or
/// `https://` (in any case).
pub open spec fn with_scheme(v: Seq<char>) -> Seq<char> {
    let low = lowercase(v);
    if starts_with_spec(low, "http://"@) || starts_with_spec(low, "https://"@) {
        v
    } else {
        "https://"@ + v
    }
}

pub open spec fn or_root(p: Seq<char>) -> Seq<char> {
    if p.len() == 0 {
        seq!['/']
    } else {
        p
    }
}

/// The part before the last `/` (`rsplit_once('/')`), empty when there is none.
pub open spec fn before_last_slash(p: Seq<char>) -> Seq<char> {
    if rfind_char(p, '/') >= 0 {
        p.take(rfind_char(p, '/'))
    } else {
        Seq::empty()
    }
}

/// The path of a server address: no trailing `/`, and a final `/app` or
/// `/app.html` (any case) dropped; `/` when nothing is left.
pub open spec fn server_path(path: Seq<char>) -> Seq<char> {
    let p1 = or_root(trim_end_char(path, '/'));
    let low = lowercase(p1);
    let p2 = if ends_with_spec(low, "/app"@) || ends_with_spec(low, "/app.html"@) {
        or_root(before_last_slash(p1))
    } else {
        p1
    };
    or_root(trim_end_char(p2, '/'))
}

/// A server address from a parsed URL: its origin, then its path unless
/// that is `/`.
pub open spec fn server_address(origin: Seq<char>, path: Seq<char>) -> Seq<char> {
    let p = server_path(path);
    if p == seq!['/'] {
        origin
    } else {
        origin + p
    }
}

/// The canonical form of a server address the user typed: trimmed, with
/// `https://` assumed, query and fragment dropped (they are not part of the
/// origin or the path), and the path as [`server_path`] gives it.
pub open spec fn normalize_server_url_spec(input: Seq<char>) -> Option<Seq<char>> {
    let v = trim_spec(input);
    if v.len() == 0 {
        None
    } else {
        match url_parse(with_scheme(v)) {
            Some(u) => Some(server_address(u.origin, u.path)),
            None => None,
        }
    }
}

fn or_root_chars(p: Vec<char>) -> (r: Vec<char>)
    ensures
        r@ == or_root(p@),
{
    if p.len() == 0 {
        vec!['/']
    } else {
        p
    }
}

/// The server address for a parsed URL's origin serialization and path.
pub fn normalize_parsed_server_url(origin: &str, path: &str) -> (r: String)
    ensures
        r@ == server_address(origin@, path@),
{
    let p1 = or_root_chars(trim_end_matches(&chars_of(path), '/'));
    let low = lowercase_chars(&p1);
    let p2 = if ends_with(&low, &chars_of("/app")) || ends_with(&low, &chars_of("/app.html")) {
        proof {
            lemma_rfind_char(p1@, '/');
        }
        let before = match rfind(&p1, '/') {
            Some(k) => sub_chars(&p1, 0, k),
            None => Vec::new(),
        };
        assert(before@ =~= before_last_slash(p1@));
        or_root_chars(before)
    } else {
        p1
    };
    let p = or_root_chars(trim_end_matches(&p2, '/'));
    let root = vec!['/'];
    assert(root@ =~= seq!['/']);
    if chars_eq(&p, &root) {
        String::from_str(origin)
    } else {
        let mut out = chars_of(origin);
        push_all(&mut out, &p);
        string_of(&out)
    }
}

fn with_scheme_chars(v: &Vec<char>) -> (r: Vec<char>)
    ensures
        r@ == with_scheme(v@),
{
    let low = lowercase_chars(v);
    if starts_with(&low, &chars_of("http://")) || starts_with(&low, &chars_of("https://")) {
        let mut r = Vec::new();
        push_all(&mut r, v);
        assert(r@ =~= v@);
        r
    } else {
        let mut r = chars_of("https://");
        push_all(&mut r, v);
        r
    }
}

/// The canonical form of a server address, `None` when it is empty or does
/// not parse as a URL.
pub fn normalize_server_url(input: &str) -> (r: Option<String>)
    ensures
        match r {
            Some(s) => normalize_server_url_spec(input@) == Some(s@),
            None => normalize_server_url_spec(input@) is None,
        },
{
    let v = trim_str(input);
    if v.len() == 0 {
        return None;
    }
    let full = string_of(&with_scheme_chars(&v));
    match ParsedUrl::parse(full.as_str()) {
        Some(u) => Some(normalize_parsed_server_url(u.origin.as_str(), u.path.as_str())),
        None => None,
    }
}

proof fn lemma_trim_end_no_trailing(s: Seq<char>, c: char)
    ensures
        trim_end_char(s, c).len() == 0 || trim_end_char(s, c).last() != c,
        trim_end_char(trim_end_char(s, c), c) == trim_end_char(s, c),
    decreases s.len(),
{
    if s.len() > 0 && s.last() == c {
        lemma_trim_end_no_trailing(s.drop_last(), c);
    }
}

/// A server path never ends with `/` unless it is `/` itself.
proof fn lemma_server_path_shape(path: Seq<char>)
    ensures
        server_path(path) == seq!['/'] || (server_path(path).len() > 0 && server_path(path).last() != '/'),
        trim_end_char(server_path(path), '/') == (if server_path(path) == seq!['/'] { Seq::<char>::empty() } else { server_path(path) }),
{
    let p1 = or_root(trim_end_char(path, '/'));
    let low = lowercase(p1);
    let p2 = if ends_with_spec(low, "/app"@) || ends_with_spec(low, "/app.html"@) {
        or_root(before_last_slash(p1))
    } else {
        p1
    };
    lemma_trim_end_no_trailing(p2, '/');
    let t = trim_end_char(p2, '/');
    if t.len() == 0 {
        assert(seq!['/'].drop_last() =~= Seq::<char>::empty());
        assert(trim_end_char(seq!['/'], '/') == trim_end_char(Seq::<char>::empty(), '/'));
    }
}

/// A server path is already in its own normal form: normalising it again
/// changes nothing, unless after the one cut it still ends in an app page
/// (as `/h/app/app` does). So a server address rebuilt from its origin and
/// its own server path is the same address.
pub proof fn law_server_path_is_stable(origin: Seq<char>, path: Seq<char>)
    requires
        !ends_with_spec(lowercase(server_path(path)), "/app"@),
        !ends_with_spec(lowercase(server_path(path)), "/app.html"@),
    ensures
        server_path(server_path(path)) == server_path(path),
        server_address(origin, server_path(path)) == server_address(origin, path),
{
    let q = server_path(path);
    lemma_server_path_shape(path);
    assert(or_root(trim_end_char(q, '/')) == q);
    lemma_trim_end_no_trailing(q, '/');
}

/// The app page of a server is its address with `/app` appended: the
/// address never ends with `/`, since the `url` crate's origins never do
/// (the one input left out: an origin ending in `/`).
pub proof fn law_app_url_extends_server(input: Seq<char>)
    requires
        normalize_server_url_spec(input) is Some,
        url_parse(with_scheme(trim_spec(input))) matches Some(u) && !(u.origin.len() > 0 && u.origin.last() == '/'),
    ensures
        server_app_url_spec(input) == normalize_server_url_spec(input)->0 + "/app"@,
{
    let u = url_parse(with_scheme(trim_spec(input)))->0;
    let n = normalize_server_url_spec(input)->0;
    lemma_server_path_shape(u.path);
    let q = server_path(u.path);
    if q == seq!['/'] {
        assert(n == u.origin);
    } else {
        assert(n == u.origin + q);
        assert(n.last() == q.last());
    }
    assert(n.len() == 0 || n.last() != '/');
    if n.len() > 0 {
        assert(n.skip(n.len() - 1) =~= seq![n.last()]);
        assert(n.skip(n.len() - 1)[0] != seq!['/'][0]);
    }
    assert(!ends_with_spec(n, seq!['/']));
}

/// The address of the Haven web app on a server: the normalised server
/// address (or the input as given when it does not normalise) with `/app`.
pub open spec fn server_app_url_spec(server_url: Seq<char>) -> Seq<char> {
    let base = match normalize_server_url_spec(server_url) {
        Some(n) => n,
        None => server_url,
    };
    if ends_with_spec(base, seq!['/']) {
        base + "app"@
    } else {
        base + "/app"@
    }
}

pub fn build_server_app_url(server_url: &str) -> (r: String)
    ensures
        r@ == server_app_url_spec(server_url@),
{
    let base = match normalize_server_url(server_url) {
        Some(n) => chars_of(n.as_str()),
        None => chars_of(server_url),
    };
    let slash = vec!['/'];
    assert(slash@ =~= seq!['/']);
    let mut out = base;
    if ends_with(&out, &slash) {
        push_all(&mut out, &chars_of("app"));
    } else {
        push_all(&mut out, &chars_of("/app"));
    }
    string_of(&out)
}

} // verus!
