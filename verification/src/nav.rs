//! Navigation of the main window: which addresses it may load (the rest go
//! to the system browser), and opening a server in it.
use vstd::prelude::*;
use vstd::string::StringExecFns;
use crate::text::{chars_of, chars_eq};
use crate::weburl::{ParsedUrl, UrlView, same_origin, same_origin_as_spec, url_parse, url_parse_error, opt_view};
use crate::session::{ServerSession, StrMap, latest_at, lemma_strmap_latest, lemma_strmap_key_latest};
use crate::state::{normalize_server_url, normalize_server_url_spec, build_server_app_url, server_app_url_spec};
use crate::history::{
    HistoryItem, HistoryEntry, ItemView, items_view, entries_view, sanitize_server_history, sanitize_spec,
    history_touch, history_touch_spec,
};

verus! {

/// The texts of a list of strings.
pub open spec fn string_views(v: Seq<String>) -> Seq<Seq<char>> {
    v.map_values(|s: String| s@)
}

/// The origins of the embeds the Haven web UI loads.
pub open spec fn embed_origins_spec() -> Seq<Seq<char>> {
    seq![
        "https://w.soundcloud.com"@,
        "https://open.spotify.com"@,
        "https://www.youtube.com"@,
        "https://www.youtube-nocookie.com"@,
        "https://challenges.cloudflare.com"@,
    ]
}

fn embed_origins() -> (r: Vec<String>)
    ensures
        string_views(r@) == embed_origins_spec(),
{
    let r = vec![
        String::from_str("https://w.soundcloud.com"),
        String::from_str("https://open.spotify.com"),
        String::from_str("https://www.youtube.com"),
        String::from_str("https://www.youtube-nocookie.com"),
        String::from_str("https://challenges.cloudflare.com"),
    ];
    assert(string_views(r@) =~= embed_origins_spec());
    r
}

/// `url` is on the origin of one of the addresses in `list`.
pub open spec fn any_same_origin(url: UrlView, list: Seq<Seq<char>>) -> bool {
    exists|i: int| 0 <= i < list.len() && same_origin_as_spec(url, #[trigger] list[i])
}

fn any_same_origin_exec(url: &ParsedUrl, list: &[String]) -> (r: bool)
    ensures
        r == any_same_origin(url@, string_views(list@)),
{
    let ghost lv = string_views(list@);
    let mut i: usize = 0;
    while i < list.len()
        invariant
            i <= list.len(),
            lv == string_views(list@),
            forall|j: int| 0 <= j < i ==> !same_origin_as_spec(url@, #[trigger] lv[j]),
        decreases list.len() - i,
    {
        if same_origin(url, list[i].as_str()) {
            assert(same_origin_as_spec(url@, lv[i as int]));
            return true;
        }
        i = i + 1;
    }
    false
}

/// `url` is on the origin of an address some server's page reported.
pub open spec fn known_allows_spec(url: UrlView, known: Map<Seq<char>, Vec<String>>) -> bool {
    exists|k: Seq<char>| #[trigger] known.contains_key(k) && any_same_origin(url, string_views(known[k]@))
}

fn known_allows(url: &ParsedUrl, known: &StrMap<Vec<String>>) -> (r: bool)
    ensures
        r == known_allows_spec(url@, known@),
{
    let ghost s = known.entries@;
    let mut i: usize = 0;
    while i < known.entries.len()
        invariant
            i <= known.entries.len(),
            s == known.entries@,
            forall|j: int| 0 <= j < i && latest_at(s, j) ==> !any_same_origin(url@, string_views(#[trigger] s[j].1@)),
        decreases known.entries.len() - i,
    {
        if known.is_latest(i) && any_same_origin_exec(url, known.entries[i].1.as_slice()) {
            proof {
                lemma_strmap_latest(s, i as int);
                let k = s[i as int].0@;
                assert(known@.contains_key(k) && known@[k] == s[i as int].1);
                assert(any_same_origin(url@, string_views(known@[k]@)));
            }
            return true;
        }
        i = i + 1;
    }
    proof {
        assert forall|k: Seq<char>| #[trigger] known@.contains_key(k) implies !any_same_origin(url@, string_views(known@[k]@)) by {
            lemma_strmap_key_latest(s, k);
            let j = choose|j: int| latest_at(s, j) && s[j].0@ == k;
            lemma_strmap_latest(s, j);
        }
    }
    false
}

/// `url` is on the origin of a server in the saved history.
pub open spec fn history_allows_spec(url: UrlView, items: Seq<ItemView>) -> bool {
    exists|i: int| 0 <= i < items.len() && ((#[trigger] items[i]).url matches Some(u) && same_origin_as_spec(url, u))
}

fn history_allows(url: &ParsedUrl, history: &[HistoryItem]) -> (r: bool)
    ensures
        r == history_allows_spec(url@, items_view(history@)),
{
    let ghost iv = items_view(history@);
    let mut i: usize = 0;
    while i < history.len()
        invariant
            i <= history.len(),
            iv == items_view(history@),
            forall|j: int| 0 <= j < i ==> !((#[trigger] iv[j]).url matches Some(u) && same_origin_as_spec(url@, u)),
        decreases history.len() - i,
    {
        assert(iv[i as int] == history@[i as int]@);
        match &history[i].url {
            Some(u) => {
                if same_origin(url, u.as_str()) {
                    return true;
                }
            },
            None => {},
        }
        i = i + 1;
    }
    false
}

/// What the main window does with a navigation.
pub enum NavDecision {
    /// load it in the main window
    Allow,
    /// hand it to the system browser instead
    OpenInBrowser,
    /// stay put
    Block,
}

/// The app's own pages always load; so does anything on the origin of the
/// active server, of an address a server's page reported, of a server in
/// the history, or of a known embed. Other web addresses open in the system
/// browser; anything else is blocked.
pub open spec fn allow_navigation_spec(
    url: UrlView,
    active: Option<Seq<char>>,
    known: Map<Seq<char>, Vec<String>>,
    history: Seq<ItemView>,
) -> NavDecision {
    if url.scheme == "tauri"@ || url.host == Some("tauri.localhost"@) {
        NavDecision::Allow
    } else if (active matches Some(a) && same_origin_as_spec(url, a)) || known_allows_spec(url, known)
        || history_allows_spec(url, history) || any_same_origin(url, embed_origins_spec()) {
        NavDecision::Allow
    } else if url.scheme == "http"@ || url.scheme == "https"@ {
        NavDecision::OpenInBrowser
    } else {
        NavDecision::Block
    }
}

pub fn allow_navigation(url: &ParsedUrl, session: &ServerSession, history: &[HistoryItem]) -> (r: NavDecision)
    ensures
        r == allow_navigation_spec(url@, opt_view(session.active), session.known@, items_view(history@)),
{
    let scheme = chars_of(url.scheme.as_str());
    let own_host = match &url.host {
        Some(h) => chars_eq(&chars_of(h.as_str()), &chars_of("tauri.localhost")),
        None => false,
    };
    if chars_eq(&scheme, &chars_of("tauri")) || own_host {
        return NavDecision::Allow;
    }
    let on_active = match &session.active {
        Some(a) => same_origin(url, a.as_str()),
        None => false,
    };
    let embeds = embed_origins();
    if on_active || known_allows(url, &session.known) || history_allows(url, history) || any_same_origin_exec(
        url,
        embeds.as_slice(),
    ) {
        return NavDecision::Allow;
    }
    if chars_eq(&scheme, &chars_of("http")) || chars_eq(&scheme, &chars_of("https")) {
        NavDecision::OpenInBrowser
    } else {
        NavDecision::Block
    }
}

/// The main window stays on the active server: any address on its origin
/// loads there, whatever else is known.
pub proof fn law_active_server_stays_in_app(
    url: UrlView,
    active: Seq<char>,
    known: Map<Seq<char>, Vec<String>>,
    history: Seq<ItemView>,
)
    requires
        same_origin_as_spec(url, active),
    ensures
        allow_navigation_spec(url, Some(active), known, history) == NavDecision::Allow,
{
}

/// Servers in the saved history pass the guard too: an address on the
/// origin of a history entry loads in the main window.
pub proof fn law_history_servers_stay_in_app(
    url: UrlView,
    active: Option<Seq<char>>,
    known: Map<Seq<char>, Vec<String>>,
    history: Seq<ItemView>,
    i: int,
)
    requires
        0 <= i < history.len(),
        history[i].url matches Some(u) && same_origin_as_spec(url, u),
    ensures
        allow_navigation_spec(url, active, known, history) == NavDecision::Allow,
{
    assert(history_allows_spec(url, history));
}

/// Only web addresses go to the system browser: a navigation to any other
/// scheme that is not allowed is blocked.
pub proof fn law_only_web_addresses_leave_the_app(
    url: UrlView,
    active: Option<Seq<char>>,
    known: Map<Seq<char>, Vec<String>>,
    history: Seq<ItemView>,
)
    requires
        allow_navigation_spec(url, active, known, history) == NavDecision::OpenInBrowser,
    ensures
        url.scheme == "http"@ || url.scheme == "https"@,
{
}

// ---------------------------------------------------------------------------
// Opening a server
// ---------------------------------------------------------------------------

/// The page of the server `normalized` that the main window loads.
pub fn app_url_for(normalized: &str) -> (r: Result<ParsedUrl, String>)
    ensures
        match r {
            Ok(u) => url_parse(server_app_url_spec(normalized@)) == Some(u@),
            Err(m) => url_parse(server_app_url_spec(normalized@)) is None && m@ == url_parse_error(
                server_app_url_spec(normalized@),
            ),
        },
{
    let app_url = build_server_app_url(normalized);
    ParsedUrl::parse_or_error(app_url.as_str())
}

/// Opening a server in the main window, decided: the address in normal form,
/// the page to load, and the history to store.
pub struct OpenApp {
    pub normalized: String,
    pub app_url: ParsedUrl,
    pub history: Vec<HistoryEntry>,
}

/// Opening the server `server_url` at time `now`: it must normalise
/// (`invalid server URL` otherwise) and its app page must parse (the
/// parser's message otherwise). Then it becomes the active server (and the
/// primary one if there is none yet), and the cleaned-up history records
/// the connection.
pub fn open_app_window(
    session: &mut ServerSession,
    history: &[HistoryItem],
    server_url: &str,
    now: u64,
) -> (r: Result<OpenApp, String>)
    ensures
        match normalize_server_url_spec(server_url@) {
            None => (r matches Err(m) && m@ == "invalid server URL"@) && *final(session) == *old(session),
            Some(n) => match url_parse(server_app_url_spec(n)) {
                None => (r matches Err(m) && m@ == url_parse_error(server_app_url_spec(n)))
                    && *final(session) == *old(session),
                Some(u) => r matches Ok(o) && o.normalized@ == n && o.app_url@ == u
                    && entries_view(o.history@) == history_touch_spec(sanitize_spec(items_view(history@)), n, now)
                    && opt_view(final(session).active) == Some(n)
                    && opt_view(final(session).primary) == (match old(session).primary {
                        Some(p) => Some(p@),
                        None => Some(n),
                    })
                    && final(session).badges@ == old(session).badges@
                    && final(session).known@ == old(session).known@,
            },
        },
{
    let normalized = match normalize_server_url(server_url) {
        Some(n) => n,
        None => return Err(String::from_str("invalid server URL")),
    };
    let app_url = match app_url_for(normalized.as_str()) {
        Ok(u) => u,
        Err(e) => return Err(e),
    };
    session.open_app(normalized.as_str());
    let cleaned = sanitize_server_history(history);
    let touched = history_touch(cleaned, normalized.as_str(), now);
    Ok(OpenApp { normalized, app_url, history: touched })
}

} // verus!
