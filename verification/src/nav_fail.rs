//! Swapping a dead server page for a local Haven error page.
//!
//! When a Haven server is down the webview shows the engine's own
//! "can't reach this page", and the injected bridge never runs. The shell
//! watches the main webview's loads and replaces such a document with a
//! local page that offers Try Again, Go Back to Welcome and, where there is
//! one, Go Back to My Server.
use vstd::prelude::*;
use vstd::string::StringExecFns;
use crate::text::{
    chars_eq, chars_of, contains, contains_spec, push_all, replace_char, replace_char_spec,
    starts_with, starts_with_spec, string_of, sub_chars, trim_start_char, trim_start_matches,
};
use crate::weburl::{ParsedUrl, UrlView, form_urlencode_spec, form_urlencoded, opt_view};
use crate::state::{normalize_server_url, normalize_server_url_spec};
use vstd::utf8::encode_utf8;

verus! {

fn is_lit(v: &[char], lit: &str) -> (r: bool)
    ensures
        r == (v@ == lit@),
{
    chars_eq(v, &chars_of(lit))
}

fn opt_is_lit(o: &Option<String>, lit: &str) -> (r: bool)
    ensures
        r == (opt_view(*o) == Some(lit@)),
{
    match o {
        Some(s) => is_lit(&chars_of(s.as_str()), lit),
        None => false,
    }
}

/// A page of the desktop shell itself: `data:`, `about:blank`, the error
/// and splash pages, or the shell's own origin (`tauri.localhost`, or the
/// dev server on port 14370).
pub open spec fn is_desktop_asset_spec(u: UrlView) -> bool {
    ||| u.scheme == "data"@
    ||| u.scheme == "about"@ && contains_spec(u.serialization, "blank"@)
    ||| contains_spec(u.path, "connection-error.html"@)
    ||| contains_spec(u.path, "splash.html"@)
    ||| u.host == Some("tauri.localhost"@)
    ||| u.host == Some("tauri.localhost."@)
    ||| (u.host == Some("localhost"@) || u.host == Some("127.0.0.1"@)) && u.port == Some(14370u16)
}

pub fn is_desktop_asset_url(url: &ParsedUrl) -> (r: bool)
    ensures
        r == is_desktop_asset_spec(url@),
{
    let scheme = chars_of(url.scheme.as_str());
    if is_lit(&scheme, "data") {
        return true;
    }
    let ser = chars_of(url.serialization.as_str());
    if is_lit(&scheme, "about") && contains(&ser, &chars_of("blank")) {
        return true;
    }
    let path = chars_of(url.path.as_str());
    if contains(&path, &chars_of("connection-error.html")) || contains(&path, &chars_of("splash.html")) {
        return true;
    }
    if opt_is_lit(&url.host, "tauri.localhost") || opt_is_lit(&url.host, "tauri.localhost.") {
        return true;
    }
    (opt_is_lit(&url.host, "localhost") || opt_is_lit(&url.host, "127.0.0.1")) && url.port
        == Some(14370u16)
}

/// The engine's own error page: an error or internal scheme (but not
/// `about:blank`), or the `chromewebdata` host.
pub open spec fn looks_like_browser_error_spec(u: UrlView) -> bool {
    if u.scheme == "about"@ && contains_spec(u.serialization, "blank"@) {
        false
    } else {
        ||| u.scheme == "chrome-error"@
        ||| u.scheme == "chrome"@
        ||| u.scheme == "edge"@
        ||| u.scheme == "edge-error"@
        ||| u.scheme == "about"@
        ||| u.host == Some("chromewebdata"@)
        ||| contains_spec(u.serialization, "chromewebdata"@)
    }
}

pub fn looks_like_browser_error(url: &ParsedUrl) -> (r: bool)
    ensures
        r == looks_like_browser_error_spec(url@),
{
    let scheme = chars_of(url.scheme.as_str());
    let ser = chars_of(url.serialization.as_str());
    if is_lit(&scheme, "about") && contains(&ser, &chars_of("blank")) {
        return false;
    }
    is_lit(&scheme, "chrome-error") || is_lit(&scheme, "chrome") || is_lit(&scheme, "edge")
        || is_lit(&scheme, "edge-error") || is_lit(&scheme, "about") || opt_is_lit(
        &url.host,
        "chromewebdata",
    ) || contains(&ser, &chars_of("chromewebdata"))
}

/// The in-app action that a link of the error page asks for: the path of a
/// `haven.invalid` address without its leading slashes, or what follows
/// `/__haven_nav__/`; never empty.
pub open spec fn haven_nav_action_spec(u: UrlView) -> Option<Seq<char>> {
    if u.host == Some("haven.invalid"@) {
        let action = trim_start_char(u.path, '/');
        if action.len() > 0 {
            Some(action)
        } else {
            None
        }
    } else if starts_with_spec(u.path, "/__haven_nav__/"@) && u.path.len() > "/__haven_nav__/"@.len() {
        Some(u.path.skip("/__haven_nav__/"@.len() as int))
    } else {
        None
    }
}

/// The action of an error-page link reads back: a page address whose path is
/// `/__haven_nav__/` followed by an action (on any host but
/// `haven.invalid`) asks for exactly that action, and an empty action asks
/// for none; a bare `haven.invalid` address asks for none either.
pub proof fn law_nav_action_reads_back(u: UrlView, action: Seq<char>)
    ensures
        u.path == "/__haven_nav__/"@ + action && u.host != Some("haven.invalid"@) ==> haven_nav_action_spec(u) == (
        if action.len() > 0 {
            Some(action)
        } else {
            None
        }),
        u.host == Some("haven.invalid"@) && u.path == "/"@ ==> haven_nav_action_spec(u) is None,
{
    reveal_strlit("/__haven_nav__/");
    reveal_strlit("/");
    if u.path == "/__haven_nav__/"@ + action && u.host != Some("haven.invalid"@) {
        assert(u.path.take("/__haven_nav__/"@.len() as int) =~= "/__haven_nav__/"@);
        assert(u.path.skip("/__haven_nav__/"@.len() as int) =~= action);
    }
    if u.host == Some("haven.invalid"@) && u.path == "/"@ {
        assert(u.path.drop_first() =~= Seq::<char>::empty());
        assert(trim_start_char(u.path, '/') == trim_start_char(u.path.drop_first(), '/'));
    }
}

pub fn haven_nav_action(url: &ParsedUrl) -> (r: Option<String>)
    ensures
        opt_view(r) == haven_nav_action_spec(url@),
{
    let path = chars_of(url.path.as_str());
    if opt_is_lit(&url.host, "haven.invalid") {
        let action = trim_start_matches(&path, '/');
        return if action.len() > 0 {
            Some(string_of(&action))
        } else {
            None
        };
    }
    let prefix = chars_of("/__haven_nav__/");
    if starts_with(&path, &prefix) && path.len() > prefix.len() {
        Some(string_of(&sub_chars(&path, prefix.len(), path.len())))
    } else {
        None
    }
}

/// Where the desktop's own pages are served from: the dev server in a debug
/// build; in a release build `http://tauri.localhost` on Windows and
/// `tauri://localhost` elsewhere (where `tauri.localhost` does not exist).
#[derive(Clone, Copy)]
pub enum PageOrigin {
    DevServer,
    WindowsRelease,
    Release,
}

impl PageOrigin {
    /// The origin of a debug (`dev`) or release build on Windows or elsewhere.
    pub fn for_build(dev: bool, windows: bool) -> (r: PageOrigin)
        ensures
            dev ==> r == PageOrigin::DevServer,
            !dev && windows ==> r == PageOrigin::WindowsRelease,
            !dev && !windows ==> r == PageOrigin::Release,
    {
        if dev {
            PageOrigin::DevServer
        } else if windows {
            PageOrigin::WindowsRelease
        } else {
            PageOrigin::Release
        }
    }
}

pub open spec fn desktop_base(origin: PageOrigin) -> Seq<char> {
    match origin {
        PageOrigin::DevServer => "http://localhost:14370"@,
        PageOrigin::WindowsRelease => "http://tauri.localhost"@,
        PageOrigin::Release => "tauri://localhost"@,
    }
}

fn desktop_base_chars(origin: PageOrigin) -> (r: Vec<char>)
    ensures
        r@ == desktop_base(origin),
{
    match origin {
        PageOrigin::DevServer => chars_of("http://localhost:14370"),
        PageOrigin::WindowsRelease => chars_of("http://tauri.localhost"),
        PageOrigin::Release => chars_of("tauri://localhost"),
    }
}

pub open spec fn haven_nav_href_spec(action: Seq<char>, origin: PageOrigin) -> Seq<char> {
    desktop_base(origin) + "/__haven_nav__/"@ + action
}

/// The link a button of the error page follows to ask for `action`.
pub fn haven_nav_href(action: &str, origin: PageOrigin) -> (r: String)
    ensures
        r@ == haven_nav_href_spec(action@, origin),
{
    let mut out = desktop_base_chars(origin);
    push_all(&mut out, &chars_of("/__haven_nav__/"));
    push_all(&mut out, &chars_of(action));
    string_of(&out)
}

// ---------------------------------------------------------------------------
// The error page
// ---------------------------------------------------------------------------

/// `&`, `<`, `>` and `"` escaped for HTML text and attribute values.
pub open spec fn html_escape_spec(s: Seq<char>) -> Seq<char> {
    replace_char_spec(
        replace_char_spec(
            replace_char_spec(replace_char_spec(s, '&', "&amp;"@), '<', "&lt;"@),
            '>',
            "&gt;"@,
        ),
        '"',
        "&quot;"@,
    )
}

pub fn html_escape(value: &str) -> (r: String)
    ensures
        r@ == html_escape_spec(value@),
{
    let a = replace_char(&chars_of(value), '&', &chars_of("&amp;"));
    let b = replace_char(&a, '<', &chars_of("&lt;"));
    let c = replace_char(&b, '>', &chars_of("&gt;"));
    let d = replace_char(&c, '"', &chars_of("&quot;"));
    string_of(&d)
}

/// The "Go Back to My Server" button, shown for a primary server other than
/// the one that failed.
pub open spec fn back_button_spec(server_url: Seq<char>, primary: Option<Seq<char>>, origin: PageOrigin) -> Seq<char> {
    match primary {
        Some(p) => if p.len() > 0 && p != server_url {
            "<a class=\"secondary\" href=\""@ + haven_nav_href_spec("server"@, origin)
                + "\">Go Back to My Server</a><div class=\"hint\">"@ + html_escape_spec(p)
                + "</div>"@
        } else {
            Seq::empty()
        },
        None => Seq::empty(),
    }
}

/// The local page shown in place of a server that did not load.
pub open spec fn error_page_html_spec(server_url: Seq<char>, primary: Option<Seq<char>>, origin: PageOrigin) -> Seq<char> {
    HEAD@ + html_escape_spec(server_url) + AFTER_CODE@ + haven_nav_href_spec("retry"@, origin)
        + AFTER_RETRY@ + back_button_spec(server_url, primary, origin) + BEFORE_WELCOME@
        + haven_nav_href_spec("welcome"@, origin) + TAIL@
}

fn back_button(server_url: &str, primary: Option<&str>, origin: PageOrigin) -> (r: Vec<char>)
    ensures
        r@ == back_button_spec(server_url@, match primary { Some(p) => Some(p@), None => None }, origin),
{
    match primary {
        Some(p) => {
            let pc = chars_of(p);
            if pc.len() > 0 && !chars_eq(&pc, &chars_of(server_url)) {
                let mut out = chars_of("<a class=\"secondary\" href=\"");
                push_all(&mut out, &chars_of(haven_nav_href("server", origin).as_str()));
                push_all(&mut out, &chars_of("\">Go Back to My Server</a><div class=\"hint\">"));
                push_all(&mut out, &chars_of(html_escape(p).as_str()));
                push_all(&mut out, &chars_of("</div>"));
                out
            } else {
                Vec::new()
            }
        },
        None => Vec::new(),
    }
}

pub fn error_page_html(server_url: &str, primary: Option<&str>, origin: PageOrigin) -> (r: String)
    ensures
        r@ == error_page_html_spec(server_url@, match primary { Some(p) => Some(p@), None => None }, origin),
{
    let mut out = chars_of(HEAD);
    push_all(&mut out, &chars_of(html_escape(server_url).as_str()));
    push_all(&mut out, &chars_of(AFTER_CODE));
    push_all(&mut out, &chars_of(haven_nav_href("retry", origin).as_str()));
    push_all(&mut out, &chars_of(AFTER_RETRY));
    push_all(&mut out, &back_button(server_url, primary, origin));
    push_all(&mut out, &chars_of(BEFORE_WELCOME));
    push_all(&mut out, &chars_of(haven_nav_href("welcome", origin).as_str()));
    push_all(&mut out, &chars_of(TAIL));
    string_of(&out)
}

pub const HEAD: &'static str = "<!DOCTYPE html>\n<html lang=\"en\">\n<head>\n<meta charset=\"UTF-8\">\n<title>Haven</title>\n<style>\n  html,body{margin:0;height:100%;background:#0d0d1a;color:#e0e0e0;font-family:-apple-system,BlinkMacSystemFont,'Segoe UI',sans-serif}\n  .wrap{min-height:100%;display:flex;flex-direction:column;align-items:center;justify-content:center;padding:40px 24px;text-align:center;gap:14px}\n  .hex{font-size:48px;line-height:1;color:#6b4fdb}\n  h1{font-size:22px;margin:0}\n  p{max-width:420px;color:#888;font-size:14px;line-height:1.5;margin:0}\n  code{display:inline-block;max-width:100%;overflow-wrap:anywhere;padding:6px 10px;border-radius:6px;background:#1a1a34;border:1px solid #2a2a50;color:#e0e0e0;font-size:13px}\n  .actions{display:flex;flex-wrap:wrap;gap:10px;justify-content:center;margin-top:8px}\n  a{display:inline-block;padding:10px 22px;border-radius:6px;font-size:15px;font-weight:600;text-decoration:none}\n  .primary{background:#6b4fdb;color:#fff}\n  .secondary{background:#1a1a34;color:#e0e0e0;border:1px solid #2a2a50}\n  .hint{width:100%;color:#555;font-size:12px}\n</style>\n</head>\n<body>\n<div class=\"wrap\" id=\"haven-connection-error\">\n  <div class=\"hex\">⬡</div>\n  <h1>Connection Problem</h1>\n  <p>Haven couldn't load that server. It may be down, the address may be wrong, or the network dropped.</p>\n  <code>";

pub const AFTER_CODE: &'static str = "</code>\n  <div class=\"actions\">\n    <a class=\"primary\" href=\"";

pub const AFTER_RETRY: &'static str = "\">Try Again</a>\n    ";

pub const BEFORE_WELCOME: &'static str = "\n    <a class=\"secondary\" href=\"";

pub const TAIL: &'static str = "\">Go Back to Welcome</a>\n  </div>\n</div>\n</body>\n</html>";

/// The address of the local connection-error page for a server.
pub open spec fn connection_error_page_url_spec(server_url: Seq<char>, origin: PageOrigin) -> Seq<char> {
    desktop_base(origin) + "/connection-error.html?url="@ + form_urlencode_spec(encode_utf8(server_url))
}

pub fn connection_error_page_url(server_url: &str, origin: PageOrigin) -> (r: String)
    ensures
        r@ == connection_error_page_url_spec(server_url@, origin),
{
    let mut out = desktop_base_chars(origin);
    push_all(&mut out, &chars_of("/connection-error.html?url="));
    push_all(&mut out, &chars_of(form_urlencoded(server_url).as_str()));
    string_of(&out)
}

// ---------------------------------------------------------------------------
// Where "Go Back to My Server" leads
// ---------------------------------------------------------------------------

pub open spec fn unwrap_or_empty(o: Option<Seq<char>>) -> Seq<char> {
    match o {
        Some(s) => s,
        None => Seq::empty(),
    }
}

/// The most recent history address (raw, normalised) other than `active`.
pub open spec fn other_from_history(history: Seq<Option<Seq<char>>>, active: Seq<char>) -> Option<Seq<char>>
    decreases history.len(),
{
    if history.len() == 0 {
        None
    } else {
        match history.last() {
            Some(raw) => match normalize_server_url_spec(raw) {
                Some(u) => if u != active {
                    Some(u)
                } else {
                    other_from_history(history.drop_last(), active)
                },
                None => other_from_history(history.drop_last(), active),
            },
            None => other_from_history(history.drop_last(), active),
        }
    }
}

/// A server to go back to that is not the one showing: the primary server,
/// else the remembered server, else the most recent other history entry.
pub open spec fn other_server_spec(
    active: Option<Seq<char>>,
    primary: Option<Seq<char>>,
    remembered: Option<Seq<char>>,
    history: Seq<Option<Seq<char>>>,
) -> Option<Seq<char>> {
    let a = unwrap_or_empty(active);
    let p = unwrap_or_empty(primary);
    if p.len() > 0 && p != a {
        Some(p)
    } else {
        let r = match remembered {
            Some(raw) => normalize_server_url_spec(raw),
            None => None,
        };
        match r {
            Some(u) => if u != a {
                Some(u)
            } else {
                other_from_history(history, a)
            },
            None => other_from_history(history, a),
        }
    }
}

/// Whether the raw history entry names a server other than `active`.
pub open spec fn names_other(entry: Option<Seq<char>>, active: Seq<char>) -> bool {
    entry matches Some(raw) && (normalize_server_url_spec(raw) matches Some(u) && u != active)
}

proof fn lemma_history_pick_differs(history: Seq<Option<Seq<char>>>, active: Seq<char>)
    ensures
        other_from_history(history, active) matches Some(u) ==> u != active,
        other_from_history(history, active) is None <==> forall|i: int| 0 <= i < history.len() ==> !names_other(#[trigger] history[i], active),
        other_from_history(history, active) is Some ==> exists|j: int| 0 <= j < history.len() && names_other(#[trigger] history[j], active)
            && other_from_history(history, active) == normalize_server_url_spec(history[j]->0)
            && forall|k: int| j < k < history.len() ==> !names_other(#[trigger] history[k], active),
    decreases history.len(),
{
    if history.len() > 0 {
        let p = history.drop_last();
        lemma_history_pick_differs(p, active);
        assert forall|i: int| 0 <= i < p.len() implies #[trigger] p[i] == history[i] by {}
        if other_from_history(history, active) is None {
            assert forall|i: int| 0 <= i < history.len() implies !names_other(#[trigger] history[i], active) by {
                if i < p.len() {
                    assert(p[i] == history[i]);
                }
            }
        } else if !names_other(history.last(), active) {
            let w = choose|i: int| 0 <= i < p.len() && names_other(#[trigger] p[i], active);
            assert(names_other(history[w], active));
            let j = choose|j: int| 0 <= j < p.len() && names_other(#[trigger] p[j], active)
                && other_from_history(p, active) == normalize_server_url_spec(p[j]->0)
                && forall|k: int| j < k < p.len() ==> !names_other(#[trigger] p[k], active);
            assert(names_other(history[j], active));
            assert forall|k: int| j < k < history.len() implies !names_other(#[trigger] history[k], active) by {
                if k < p.len() {
                    assert(p[k] == history[k]);
                }
            }
        } else {
            assert(names_other(history[history.len() - 1], active));
        }
    }
}

/// "Go Back to My Server" never leads back to the server that is showing:
/// whenever a server is offered, it differs from the active address. A
/// primary server that is set and is not the active one is offered first;
/// else the remembered server, when it normalises to another address; else
/// the most recent history entry that does. Nothing is offered only when
/// none of them names another server.
pub proof fn law_back_server_is_not_the_failed_one(
    active: Option<Seq<char>>,
    primary: Option<Seq<char>>,
    remembered: Option<Seq<char>>,
    history: Seq<Option<Seq<char>>>,
)
    ensures
        other_server_spec(active, primary, remembered, history) matches Some(u) ==> u != unwrap_or_empty(active),
        (primary matches Some(p) && p.len() > 0 && p != unwrap_or_empty(active)) ==> other_server_spec(active, primary, remembered, history) == primary,
        !(primary matches Some(p) && p.len() > 0 && p != unwrap_or_empty(active)) && names_other(remembered, unwrap_or_empty(active))
            ==> other_server_spec(active, primary, remembered, history) == normalize_server_url_spec(remembered->0),
        !(primary matches Some(p) && p.len() > 0 && p != unwrap_or_empty(active)) && !names_other(remembered, unwrap_or_empty(active))
            && other_server_spec(active, primary, remembered, history) is Some
            ==> exists|j: int| 0 <= j < history.len() && names_other(#[trigger] history[j], unwrap_or_empty(active))
                && other_server_spec(active, primary, remembered, history) == normalize_server_url_spec(history[j]->0)
                && forall|k: int| j < k < history.len() ==> !names_other(#[trigger] history[k], unwrap_or_empty(active)),
        other_server_spec(active, primary, remembered, history) is None <==> !(primary matches Some(p) && p.len() > 0 && p != unwrap_or_empty(active))
            && !names_other(remembered, unwrap_or_empty(active))
            && forall|i: int| 0 <= i < history.len() ==> !names_other(#[trigger] history[i], unwrap_or_empty(active)),
{
    lemma_history_pick_differs(history, unwrap_or_empty(active));
}

pub open spec fn opt_str_view(o: Option<&str>) -> Option<Seq<char>> {
    match o {
        Some(s) => Some(s@),
        None => None,
    }
}

pub open spec fn opts_view(v: Seq<Option<String>>) -> Seq<Option<Seq<char>>> {
    v.map_values(|o: Option<String>| opt_view(o))
}

fn chars_or_empty(o: Option<&str>) -> (r: Vec<char>)
    ensures
        r@ == unwrap_or_empty(opt_str_view(o)),
{
    match o {
        Some(s) => chars_of(s),
        None => Vec::new(),
    }
}

/// The server "Go Back to My Server" returns to, given the active and
/// primary servers, the remembered server (`userPrefs.serverUrl`) and the
/// raw addresses of the history, oldest first.
pub fn other_server_url(
    active: Option<&str>,
    primary: Option<&str>,
    remembered: Option<&str>,
    history: &[Option<String>],
) -> (r: Option<String>)
    ensures
        opt_view(r) == other_server_spec(opt_str_view(active), opt_str_view(primary), opt_str_view(remembered), opts_view(history@)),
{
    let a = chars_or_empty(active);
    let p = chars_or_empty(primary);
    if p.len() > 0 && !chars_eq(&p, &a) {
        return Some(string_of(&p));
    }
    if let Some(raw) = remembered {
        if let Some(u) = normalize_server_url(raw) {
            if !chars_eq(&chars_of(u.as_str()), &a) {
                return Some(u);
            }
        }
    }
    let ghost hv = opts_view(history@);
    assert(other_server_spec(opt_str_view(active), opt_str_view(primary), opt_str_view(remembered), hv)
        == other_from_history(hv, a@));
    let mut j: usize = history.len();
    assert(hv.take(j as int) =~= hv);
    while j > 0
        invariant
            j <= history.len(),
            hv == opts_view(history@),
            a@ == unwrap_or_empty(opt_str_view(active)),
            other_server_spec(opt_str_view(active), opt_str_view(primary), opt_str_view(remembered), hv)
                == other_from_history(hv, a@),
            other_from_history(hv, a@) == other_from_history(hv.take(j as int), a@),
        decreases j,
    {
        let ghost t = hv.take(j as int);
        assert(t.drop_last() =~= hv.take(j - 1));
        assert(t.last() == opt_view(history@[j - 1]));
        if let Some(raw) = &history[j - 1] {
            if let Some(u) = normalize_server_url(raw.as_str()) {
                if !chars_eq(&chars_of(u.as_str()), &a) {
                    return Some(u);
                }
            }
        }
        j = j - 1;
    }
    None
}

/// What the error page learns about the failure.
pub struct ConnectionInfo {
    /// the server that failed (empty when none is active)
    pub url: String,
    /// the server "Go Back to My Server" returns to (empty when none)
    pub primary: String,
    pub can_go_back_server: bool,
}

pub fn nav_connection_info(active: Option<&str>, back: Option<String>) -> (r: ConnectionInfo)
    ensures
        r.url@ == unwrap_or_empty(opt_str_view(active)),
        r.primary@ == unwrap_or_empty(opt_view(back)),
        r.can_go_back_server == (unwrap_or_empty(opt_view(back)).len() > 0),
{
    let url = string_of(&chars_or_empty(active));
    let primary = match back {
        Some(b) => b,
        None => String::new(),
    };
    let can = chars_of(primary.as_str()).len() > 0;
    ConnectionInfo { url, primary, can_go_back_server: can }
}

// ---------------------------------------------------------------------------
// Watching the main webview's loads
// ---------------------------------------------------------------------------

pub enum PageLoadEvent {
    Started,
    Finished,
}

/// What the shell does after a page-load event.
pub enum PageLoadAction {
    Nothing,
    /// Remember the load and check again on a timer (15 s) with this address.
    Watch(String),
    /// Show the local error page for this server.
    ShowError(String),
}

/// The load of the main webview that has started and not yet finished or
/// been cleared (the `pending_server_load` of the shell's state).
pub struct NavWatch {
    pub pending: Option<String>,
}

pub open spec fn active_or(active: Option<Seq<char>>, fallback: Seq<char>) -> Seq<char> {
    match active {
        Some(a) => a,
        None => fallback,
    }
}

fn active_or_string(active: Option<&str>, fallback: &str) -> (r: String)
    ensures
        r@ == active_or(opt_str_view(active), fallback@),
{
    match active {
        Some(a) => String::from_str(a),
        None => String::from_str(fallback),
    }
}

/// The pending load after a page-load event.
pub open spec fn pending_after_load(pending: Option<Seq<char>>, url: UrlView, event: PageLoadEvent) -> Option<Seq<char>> {
    if is_desktop_asset_spec(url) {
        None
    } else if event is Started && !looks_like_browser_error_spec(url) {
        Some(url.serialization)
    } else {
        pending
    }
}

/// The server whose error page a watched load's timer shows, if any.
pub open spec fn timeout_error(
    pending: Option<Seq<char>>,
    watched: Seq<char>,
    current: Option<UrlView>,
    active: Option<Seq<char>>,
) -> Option<Seq<char>> {
    if pending != Some(watched) {
        None
    } else if current matches Some(c) && is_desktop_asset_spec(c) {
        None
    } else {
        Some(active_or(active, watched))
    }
}

pub open spec fn opt_url_view(o: Option<&ParsedUrl>) -> Option<UrlView> {
    match o {
        Some(u) => Some(u@),
        None => None,
    }
}

impl NavWatch {
    pub fn new() -> (r: NavWatch)
        ensures
            r.pending is None,
    {
        NavWatch { pending: None }
    }

    /// A page-load event of the main webview: a desktop page clears the
    /// watch; a started server load is watched (engine error pages are not);
    /// a finished engine error page is replaced by the error page for the
    /// active server (or for the failed address when none is active).
    pub fn on_page_load(&mut self, url: &ParsedUrl, event: PageLoadEvent, active: Option<&str>) -> (r: PageLoadAction)
        ensures
            opt_view(final(self).pending) == pending_after_load(opt_view(old(self).pending), url@, event),
            is_desktop_asset_spec(url@) ==> final(self).pending is None && r is Nothing,
            !is_desktop_asset_spec(url@) ==> match event {
                PageLoadEvent::Started => if looks_like_browser_error_spec(url@) {
                    final(self).pending == old(self).pending && r is Nothing
                } else {
                    opt_view(final(self).pending) == Some(url@.serialization) && (r matches PageLoadAction::Watch(w) && w@ == url@.serialization)
                },
                PageLoadEvent::Finished => final(self).pending == old(self).pending && (if looks_like_browser_error_spec(url@) {
                    (r matches PageLoadAction::ShowError(f) && f@ == active_or(opt_str_view(active), url@.serialization))
                } else {
                    r is Nothing
                }),
            },
    {
        if is_desktop_asset_url(url) {
            self.pending = None;
            return PageLoadAction::Nothing;
        }
        match event {
            PageLoadEvent::Started => {
                if looks_like_browser_error(url) {
                    return PageLoadAction::Nothing;
                }
                self.pending = Some(url.serialization.clone());
                PageLoadAction::Watch(url.serialization.clone())
            },
            PageLoadEvent::Finished => {
                if looks_like_browser_error(url) {
                    PageLoadAction::ShowError(active_or_string(active, url.serialization.as_str()))
                } else {
                    PageLoadAction::Nothing
                }
            },
        }
    }

    /// The page told the shell it is up (`nav_page_ready`).
    pub fn page_ready(&mut self)
        ensures
            final(self).pending is None,
    {
        self.pending = None;
    }

    /// The timer of a watched load ran out. The error page is due only when
    /// that load is still the pending one and the webview is not showing a
    /// desktop page; it names the active server, or the watched address.
    pub fn on_timeout(&self, watched: &str, current: Option<&ParsedUrl>, active: Option<&str>) -> (r: Option<String>)
        ensures
            opt_view(r) == timeout_error(opt_view(self.pending), watched@, opt_url_view(current), opt_str_view(active)),
    {
        match &self.pending {
            Some(p) => {
                if !chars_eq(&chars_of(p.as_str()), &chars_of(watched)) {
                    return None;
                }
            },
            None => {
                return None;
            },
        }
        if let Some(c) = current {
            if is_desktop_asset_url(c) {
                return None;
            }
        }
        Some(active_or_string(active, watched))
    }

    /// Showing the error page for `server_url`: nothing when the webview
    /// already shows it; otherwise the watch is cleared and the page's
    /// address returned for the webview to load.
    pub fn show_connection_error(&mut self, current_path: Option<&str>, server_url: &str, origin: PageOrigin) -> (r: Option<String>)
        ensures
            (current_path matches Some(p) && contains_spec(p@, "connection-error.html"@)) ==> r is None && final(self).pending == old(self).pending,
            !(current_path matches Some(p) && contains_spec(p@, "connection-error.html"@)) ==> final(self).pending is None
                && (r matches Some(u) && u@ == connection_error_page_url_spec(server_url@, origin)),
    {
        if let Some(p) = current_path {
            if contains(&chars_of(p), &chars_of("connection-error.html")) {
                return None;
            }
        }
        self.pending = None;
        Some(connection_error_page_url(server_url, origin))
    }
}

/// A navigation of the main webview completed (the WebView2 hook): a failed
/// load that was not cancelled shows the error page for the active server,
/// if there is one.
pub fn navigation_failed(success: bool, cancelled: bool, active: Option<&str>) -> (r: Option<String>)
    ensures
        opt_view(r) == (if success || cancelled || unwrap_or_empty(opt_str_view(active)).len() == 0 {
            None
        } else {
            opt_str_view(active)
        }),
{
    if success || cancelled {
        return None;
    }
    match active {
        Some(a) => if chars_of(a).len() == 0 {
            None
        } else {
            Some(String::from_str(a))
        },
        None => None,
    }
}

// ---------------------------------------------------------------------------
// Laws
// ---------------------------------------------------------------------------

/// Once the page has reported ready, no load's timer shows the error page.
pub proof fn law_ready_page_never_times_out(watched: Seq<char>, current: Option<UrlView>, active: Option<Seq<char>>)
    ensures
        timeout_error(None, watched, current, active) is None,
{
}

/// Only the latest started load can time out: once a newer server load
/// has started, an older load's timer shows nothing.
pub proof fn law_superseded_load_never_times_out(
    pending: Option<Seq<char>>,
    newer: UrlView,
    older: Seq<char>,
    current: Option<UrlView>,
    active: Option<Seq<char>>,
)
    requires
        !is_desktop_asset_spec(newer),
        !looks_like_browser_error_spec(newer),
        older != newer.serialization,
    ensures
        timeout_error(pending_after_load(pending, newer, PageLoadEvent::Started), older, current, active) is None,
{
}

/// Reaching a page of the desktop shell (the error page itself, Welcome,
/// the splash) ends the watch, so no timer replaces it.
pub proof fn law_desktop_page_ends_watch(
    pending: Option<Seq<char>>,
    url: UrlView,
    event: PageLoadEvent,
    watched: Seq<char>,
    current: Option<UrlView>,
    active: Option<Seq<char>>,
)
    requires
        is_desktop_asset_spec(url),
    ensures
        timeout_error(pending_after_load(pending, url, event), watched, current, active) is None,
{
}

} // verus!
