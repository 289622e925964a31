//! URLs as the logic reads them, parsed by the `url` crate.
use vstd::prelude::*;
use crate::text::chars_of;
use vstd::utf8::encode_utf8;

verus! {

/// The parts of a parsed URL that the desktop logic reads.
pub struct ParsedUrl {
    /// `Url::scheme`
    pub scheme: String,
    /// `Url::as_str`, the whole serialization
    pub serialization: String,
    /// `Url::path`
    pub path: String,
    /// `Url::host_str`
    pub host: Option<String>,
    /// `Url::port` (`None` for a scheme's default port)
    pub port: Option<u16>,
    /// whether `Url::origin` is a (scheme, host, port) tuple
    pub origin_is_tuple: bool,
    /// `Url::origin().ascii_serialization()`
    pub origin: String,
}

pub struct UrlView {
    pub scheme: Seq<char>,
    pub serialization: Seq<char>,
    pub path: Seq<char>,
    pub host: Option<Seq<char>>,
    pub port: Option<u16>,
    pub origin_is_tuple: bool,
    pub origin: Seq<char>,
}

pub open spec fn opt_view(o: Option<String>) -> Option<Seq<char>> {
    match o {
        Some(s) => Some(s@),
        None => None,
    }
}

impl View for ParsedUrl {
    type V = UrlView;

    open spec fn view(&self) -> UrlView {
        UrlView {
            scheme: self.scheme@,
            serialization: self.serialization@,
            path: self.path@,
            host: opt_view(self.host),
            port: self.port,
            origin_is_tuple: self.origin_is_tuple,
            origin: self.origin@,
        }
    }
}

/// What `url::Url::parse` makes of a string (`None` when it fails), read
/// through the accessors listed on [`ParsedUrl`].
pub uninterp spec fn url_parse(input: Seq<char>) -> Option<UrlView>;

/// The message of `url::ParseError` (its `Display`) for an input that does
/// not parse.
pub uninterp spec fn url_parse_error(input: Seq<char>) -> Seq<char>;

/// `url::Url::parse`, with the accessors of the parsed URL copied out and a
/// failure turned into its message. Claimed: the outcome depends on the
/// input alone and is named `url_parse` (with `url_parse_error` for the
/// message).
#[verifier::external_body]
fn parse_with_url_crate(input: &str) -> (r: Result<ParsedUrl, String>)
    ensures
        match r {
            Ok(u) => url_parse(input@) == Some(u@),
            Err(m) => url_parse(input@) is None && m@ == url_parse_error(input@),
        },
{
    let u = url::Url::parse(input).map_err(|e| e.to_string())?;
    let origin = u.origin();
    Ok(ParsedUrl {
        scheme: u.scheme().to_string(),
        serialization: u.as_str().to_string(),
        path: u.path().to_string(),
        host: u.host_str().map(|h| h.to_string()),
        port: u.port(),
        origin_is_tuple: origin.is_tuple(),
        origin: origin.ascii_serialization(),
    })
}

impl ParsedUrl {
    /// Parses `input` as a URL.
    pub fn parse(input: &str) -> (r: Option<ParsedUrl>)
        ensures
            match r {
                Some(u) => url_parse(input@) == Some(u@),
                None => url_parse(input@) is None,
            },
    {
        match parse_with_url_crate(input) {
            Ok(u) => Some(u),
            Err(_) => None,
        }
    }

    /// Parses `input` as a URL; a failure comes with the parser's message.
    pub fn parse_or_error(input: &str) -> (r: Result<ParsedUrl, String>)
        ensures
            match r {
                Ok(u) => url_parse(input@) == Some(u@),
                Err(m) => url_parse(input@) is None && m@ == url_parse_error(input@),
            },
    {
        parse_with_url_crate(input)
    }
}

/// Two URLs share an origin: both origins are tuples and serialize alike
/// (an opaque origin equals no other).
pub open spec fn same_origin_spec(a: UrlView, b: UrlView) -> bool {
    a.origin_is_tuple && b.origin_is_tuple && a.origin == b.origin
}

pub fn same_origin_parsed(a: &ParsedUrl, b: &ParsedUrl) -> (r: bool)
    ensures
        r == same_origin_spec(a@, b@),
{
    a.origin_is_tuple && b.origin_is_tuple && crate::text::chars_eq(
        &chars_of(a.origin.as_str()),
        &chars_of(b.origin.as_str()),
    )
}

/// `url` is on the same origin as the server address `server`
/// (`false` when `server` does not parse).
pub open spec fn same_origin_as_spec(url: UrlView, server: Seq<char>) -> bool {
    match url_parse(server) {
        Some(s) => same_origin_spec(s, url),
        None => false,
    }
}

pub fn same_origin(url: &ParsedUrl, server: &str) -> (r: bool)
    ensures
        r == same_origin_as_spec(url@, server@),
{
    match ParsedUrl::parse(server) {
        Some(s) => same_origin_parsed(&s, url),
        None => false,
    }
}

// ---------------------------------------------------------------------------
// application/x-www-form-urlencoded
// ---------------------------------------------------------------------------

pub open spec fn hex_upper(d: u8) -> char {
    if d < 10 {
        (48 + d) as char
    } else {
        (55 + d) as char
    }
}

/// Bytes that the form-urlencoded serializer leaves as they are.
pub open spec fn form_unchanged(b: u8) -> bool {
    b == 42 || b == 45 || b == 46 || (48 <= b <= 57) || (65 <= b <= 90) || b == 95 || (97 <= b
        <= 122)
}

pub open spec fn form_byte(b: u8) -> Seq<char> {
    if form_unchanged(b) {
        seq![b as char]
    } else if b == 32 {
        seq!['+']
    } else {
        seq!['%', hex_upper(b / 16), hex_upper(b % 16)]
    }
}

/// The application/x-www-form-urlencoded byte serialization.
pub open spec fn form_urlencode_spec(bytes: Seq<u8>) -> Seq<char>
    decreases bytes.len(),
{
    if bytes.len() == 0 {
        Seq::empty()
    } else {
        form_byte(bytes[0]) + form_urlencode_spec(bytes.drop_first())
    }
}

/// `url::form_urlencoded::byte_serialize` of the UTF-8 bytes of `s`,
/// collected. Claimed: bytes in `*-._0-9A-Za-z` stay, a space becomes `+`,
/// any other byte becomes `%XX` with upper-case hex digits.
#[verifier::external_body]
fn form_urlencode(s: &str) -> (r: String)
    ensures
        r@ == form_urlencode_spec(encode_utf8(s@)),
{
    url::form_urlencoded::byte_serialize(s.as_bytes()).collect()
}

/// The form-urlencoded serialization of `s`.
pub fn form_urlencoded(s: &str) -> (r: String)
    ensures
        r@ == form_urlencode_spec(encode_utf8(s@)),
{
    form_urlencode(s)
}

} // verus!
