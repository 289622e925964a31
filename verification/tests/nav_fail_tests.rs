use haven_desktop::nav_fail::{
    connection_error_page_url, error_page_html, haven_nav_action, haven_nav_href, html_escape,
    is_desktop_asset_url, looks_like_browser_error, nav_connection_info, navigation_failed,
    other_server_url, NavWatch, PageLoadAction, PageLoadEvent, PageOrigin,
};
use haven_desktop::weburl::{form_urlencoded, ParsedUrl};

fn url(s: &str) -> ParsedUrl {
    ParsedUrl::parse(s).unwrap()
}

#[test]
fn desktop_assets_are_local() {
    let u = url("http://localhost:14370/connection-error.html?url=x");
    assert!(is_desktop_asset_url(&u));
    let prod = url("http://tauri.localhost/connection-error.html");
    assert!(is_desktop_asset_url(&prod));
    let blank = url("about:blank");
    assert!(is_desktop_asset_url(&blank));
    assert!(!looks_like_browser_error(&blank));
    let haven = url("http://127.0.0.1:3847/app");
    assert!(!is_desktop_asset_url(&haven));
    let html = error_page_html("http://localhost:3000", None, PageOrigin::DevServer);
    assert!(html.contains("localhost:3000"));
    assert!(html.contains("/__haven_nav__/welcome"));
    let nav = url("http://localhost:14370/__haven_nav__/welcome");
    assert_eq!(haven_nav_action(&nav).as_deref(), Some("welcome"));
    let reserved = url("https://haven.invalid/server");
    assert_eq!(haven_nav_action(&reserved).as_deref(), Some("server"));
}

#[test]
fn edge_error_schemes() {
    let u = url("chrome-error://chromewebdata/");
    assert!(looks_like_browser_error(&u));
}

#[test]
fn parsed_url_reads_parts() {
    let u = url("HTTPS://Example.COM:8443/a/b?q=1#f");
    assert_eq!(u.scheme, "https");
    assert_eq!(u.host.as_deref(), Some("example.com"));
    assert_eq!(u.port, Some(8443));
    assert_eq!(u.path, "/a/b");
    assert_eq!(u.origin, "https://example.com:8443");
    assert!(u.origin_is_tuple);
    assert!(ParsedUrl::parse("not a url").is_none());
    match ParsedUrl::parse_or_error("no scheme here") {
        Err(m) => assert_eq!(m, "relative URL without a base"),
        Ok(_) => panic!("parsed"),
    }
}

#[test]
fn form_urlencoding_of_text() {
    assert_eq!(form_urlencoded("a b&c=d/é"), "a+b%26c%3Dd%2F%C3%A9");
    assert_eq!(form_urlencoded("*-._AZaz09"), "*-._AZaz09");
}

#[test]
fn nav_href_in_dev_and_release() {
    assert_eq!(haven_nav_href("welcome", PageOrigin::for_build(true, false)), "http://localhost:14370/__haven_nav__/welcome");
    assert_eq!(haven_nav_href("server", PageOrigin::for_build(false, true)), "http://tauri.localhost/__haven_nav__/server");
    assert_eq!(haven_nav_href("retry", PageOrigin::for_build(false, false)), "tauri://localhost/__haven_nav__/retry");
}

#[test]
fn html_escape_escapes_markup() {
    assert_eq!(html_escape("<a href=\"x\">&</a>"), "&lt;a href=&quot;x&quot;&gt;&amp;&lt;/a&gt;");
}

#[test]
fn error_page_offers_back_server() {
    let html = error_page_html("https://b.example", Some("https://a.example"), PageOrigin::Release);
    assert!(html.contains("https://b.example"));
    assert!(html.contains("https://a.example") || html.contains("/__haven_nav__/server"));
}

#[test]
fn connection_error_url_carries_server() {
    let u = connection_error_page_url("https://x.example/?a=b", PageOrigin::DevServer);
    assert!(u.starts_with("http://localhost:14370/connection-error.html?url="));
    assert!(u.contains("https%3A%2F%2Fx.example%2F%3Fa%3Db"));
}

#[test]
fn other_server_prefers_primary() {
    let hist = vec![Some("https://c.example".to_string())];
    let r = other_server_url(Some("https://b.example"), Some("https://a.example"), None, &hist);
    assert_eq!(r.as_deref(), Some("https://a.example"));
}

#[test]
fn other_server_skips_the_active_one() {
    let hist = vec![Some("https://b.example".to_string())];
    let r = other_server_url(Some("https://b.example"), Some("https://b.example"), None, &hist);
    assert_eq!(r, None);
}

#[test]
fn connection_info_fields() {
    let info = nav_connection_info(Some("https://b.example"), Some("https://a.example".to_string()));
    assert_eq!(info.url, "https://b.example");
    assert_eq!(info.primary, "https://a.example");
    assert!(info.can_go_back_server);
    let none = nav_connection_info(None, None);
    assert_eq!(none.url, "");
    assert!(!none.can_go_back_server);
}

#[test]
fn ready_page_never_times_out() {
    let mut w = NavWatch::new();
    let page = url("https://a.example/app");
    let act = w.on_page_load(&page, PageLoadEvent::Started, Some("https://a.example"));
    assert!(matches!(act, PageLoadAction::Watch(_)));
    w.page_ready();
    assert_eq!(w.on_timeout("https://a.example/app", None, Some("https://a.example")), None);
}

#[test]
fn unanswered_load_times_out_with_active_server() {
    let mut w = NavWatch::new();
    let page = url("https://a.example/app");
    w.on_page_load(&page, PageLoadEvent::Started, Some("https://a.example"));
    let r = w.on_timeout("https://a.example/app", None, Some("https://a.example"));
    assert_eq!(r.as_deref(), Some("https://a.example"));
}

#[test]
fn browser_error_page_shows_connection_error() {
    let mut w = NavWatch::new();
    let page = url("chrome-error://chromewebdata/");
    let act = w.on_page_load(&page, PageLoadEvent::Finished, Some("https://a.example"));
    match act {
        PageLoadAction::ShowError(s) => assert_eq!(s, "https://a.example"),
        _ => panic!("expected an error page"),
    }
}

#[test]
fn failed_navigation_reports_active_server() {
    assert_eq!(navigation_failed(false, false, Some("https://a.example")).as_deref(), Some("https://a.example"));
    assert_eq!(navigation_failed(true, false, Some("https://a.example")), None);
    assert_eq!(navigation_failed(false, true, Some("https://a.example")), None);
    assert_eq!(navigation_failed(false, false, None), None);
}

#[test]
fn superseded_load_never_times_out() {
    let mut w = NavWatch::new();
    w.on_page_load(&url("https://a.example/app"), PageLoadEvent::Started, Some("https://a.example"));
    w.on_page_load(&url("https://b.example/app"), PageLoadEvent::Started, Some("https://b.example"));
    assert_eq!(w.on_timeout("https://a.example/app", None, Some("https://b.example")), None);
}

#[test]
fn desktop_page_ends_watch() {
    let mut w = NavWatch::new();
    w.on_page_load(&url("https://a.example/app"), PageLoadEvent::Started, Some("https://a.example"));
    let act = w.on_page_load(&url("http://localhost:14370/connection-error.html?url=x"), PageLoadEvent::Started, None);
    assert!(matches!(act, PageLoadAction::Nothing));
    assert_eq!(w.pending, None);
    assert_eq!(w.on_timeout("https://a.example/app", None, Some("https://a.example")), None);
}

#[test]
fn error_page_shown_once() {
    let mut w = NavWatch::new();
    assert_eq!(w.show_connection_error(Some("/connection-error.html"), "https://a.example", PageOrigin::DevServer), None);
    let target = w.show_connection_error(Some("/app"), "https://a.example", PageOrigin::Release).unwrap();
    assert_eq!(target, "tauri://localhost/connection-error.html?url=https%3A%2F%2Fa.example");
}

#[test]
fn nav_href_reads_back_as_action() {
    for origin in [PageOrigin::DevServer, PageOrigin::WindowsRelease, PageOrigin::Release] {
        let href = haven_nav_href("server", origin);
        assert_eq!(haven_nav_action(&url(&href)).as_deref(), Some("server"));
    }
    assert_eq!(haven_nav_action(&url("https://haven.invalid/")), None);
    assert_eq!(haven_nav_action(&url("http://localhost:14370/__haven_nav__/")), None);
}
