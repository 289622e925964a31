use haven_desktop::history::{
    history_touch, sanitize_server_history, server_history_add, server_history_remove,
    server_history_update_name, HistoryEntry, HistoryItem,
};
use haven_desktop::i18n::{
    build_state, lookup, normalize_locale, resolve_locale, supported_locales, system_languages,
    translate,
};
use haven_desktop::state::{build_server_app_url, normalize_server_url};

fn entry(url: &str, name: &str, last: u64) -> HistoryEntry {
    HistoryEntry { url: url.to_string(), name: name.to_string(), last_connected: last }
}

fn item(url: Option<&str>, name: Option<&str>, last: Option<u64>) -> HistoryItem {
    HistoryItem { url: url.map(|s| s.to_string()), name: name.map(|s| s.to_string()), last_connected: last }
}

#[test]
fn supported_locales_in_menu_order() {
    let l = supported_locales();
    assert_eq!(l.len(), 2);
    assert_eq!(l[0].code, "en");
    assert_eq!(l[0].name, "English");
    assert_eq!(l[1].code, "pt-BR");
    assert_eq!(l[1].name, "Português (Brasil)");
    assert_eq!(l[1].direction, "ltr");
}

#[test]
fn normalize_locale_cases() {
    assert_eq!(normalize_locale(" pt_br ").as_deref(), Some("pt-BR"));
    assert_eq!(normalize_locale("PT").as_deref(), Some("pt-BR"));
    assert_eq!(normalize_locale("en-GB").as_deref(), Some("en"));
    assert_eq!(normalize_locale("fr-FR"), None);
    assert_eq!(normalize_locale("   "), None);
    for code in ["en", "pt-BR"] {
        assert_eq!(normalize_locale(code).as_deref(), Some(code));
    }
    assert_eq!(normalize_locale("de_DE"), None);
}

#[test]
fn resolve_locale_cases() {
    let sys = vec!["fr-FR".to_string(), "pt-PT".to_string(), "en".to_string()];
    assert_eq!(resolve_locale("auto", &sys), "pt-BR");
    assert_eq!(resolve_locale("system", &sys), "pt-BR");
    assert_eq!(resolve_locale("en", &sys), "en");
    assert_eq!(resolve_locale("xx", &sys), "en");
    assert_eq!(resolve_locale("auto", &[]), "en");
}

#[test]
fn system_languages_from_environment_values() {
    let l = system_languages(Some("pt_BR.UTF-8"), Some("de_DE"));
    assert_eq!(l, vec!["pt-BR".to_string(), "de-DE".to_string(), "en".to_string()]);
    assert_eq!(system_languages(None, None), vec!["en".to_string()]);
}

#[test]
fn translate_with_fallbacks_and_values() {
    assert_eq!(translate("en", "tray.quit", &[]), "Quit");
    assert_eq!(translate("pt-BR", "tray.quit", &[]), "Sair");
    assert_eq!(translate("pt-BR", "server.error.noPort", &[]), "No free port available to start the server.");
    assert_eq!(translate("en", "no.such.key", &[]), "no.such.key");
    let v = vec![("version".to_string(), "1.2.3".to_string())];
    assert_eq!(translate("en", "update.available", &v), "Update 1.2.3 is available");
    assert_eq!(lookup("en", "dialog.ok"), Some("OK"));
    assert_eq!(lookup("en", "missing"), None);
}

#[test]
fn build_state_direction() {
    let s = build_state("auto", "pt-BR", "en", true);
    assert_eq!(s.preference, "auto");
    assert_eq!(s.locale, "pt-BR");
    assert_eq!(s.system_locale, "en");
    assert!(s.is_preference_stored);
    assert_eq!(s.direction, "ltr");
    assert_eq!(s.supported_locales.len(), 2);
}

#[test]
fn normalize_server_url_cases() {
    assert_eq!(normalize_server_url("example.com").as_deref(), Some("https://example.com"));
    assert_eq!(normalize_server_url(" HTTP://Example.com:8080/app ").as_deref(), Some("http://example.com:8080"));
    assert_eq!(normalize_server_url("https://x.example/haven/app.html#f?q").as_deref(), Some("https://x.example/haven"));
    assert_eq!(normalize_server_url("https://x.example/a/b/").as_deref(), Some("https://x.example/a/b"));
    assert_eq!(normalize_server_url(""), None);
    assert_eq!(normalize_server_url("https://"), None);
}

#[test]
fn app_url_of_server() {
    assert_eq!(build_server_app_url("https://x.example/"), "https://x.example/app");
    assert_eq!(build_server_app_url("https://x.example/haven"), "https://x.example/haven/app");
}

#[test]
fn sanitize_drops_bad_and_duplicates() {
    let items = vec![
        item(Some("a.example"), None, Some(5)),
        item(Some("https://a.example/app"), Some("A"), None),
        item(None, Some("x"), None),
        item(Some("https://b.example"), Some("B"), None),
    ];
    let h = sanitize_server_history(&items);
    assert_eq!(h.len(), 2);
    assert_eq!(h[0].url, "https://a.example");
    assert_eq!(h[0].name, "https://a.example");
    assert_eq!(h[0].last_connected, 5);
    assert_eq!(h[1].url, "https://b.example");
    assert_eq!(h[1].name, "B");
    assert_eq!(h[1].last_connected, 0);
}

#[test]
fn added_server_is_listed() {
    let h = vec![entry("https://a.example", "A", 1)];
    let r = server_history_add(h, "b.example", Some("B".to_string())).unwrap();
    assert_eq!(r.len(), 2);
    assert_eq!(r[1].url, "https://b.example");
    assert_eq!(r[1].name, "B");
    assert_eq!(r[1].last_connected, 0);
}

#[test]
fn adding_listed_or_bad_server_changes_nothing() {
    let h = vec![entry("https://a.example", "A", 1)];
    assert!(server_history_add(h.clone_entries(), "https://a.example/app", None).is_none());
    assert!(server_history_add(h, "", None).is_none());
}

trait CloneEntries {
    fn clone_entries(&self) -> Vec<HistoryEntry>;
}

impl CloneEntries for Vec<HistoryEntry> {
    fn clone_entries(&self) -> Vec<HistoryEntry> {
        self.iter().map(|e| e.clone_entry()).collect()
    }
}

#[test]
fn history_keeps_twenty_most_recent() {
    let mut h = Vec::new();
    for i in 0..20 {
        h.push(entry(&format!("https://s{i}.example"), "n", 0));
    }
    let r = server_history_add(h, "https://new.example", None).unwrap();
    assert_eq!(r.len(), 20);
    assert_eq!(r[0].url, "https://s1.example");
    assert_eq!(r[19].url, "https://new.example");
    assert_eq!(r[19].name, "https://new.example");
}

#[test]
fn removed_server_is_gone() {
    let h = vec![entry("https://a.example", "A", 1), entry("https://b.example", "B", 2)];
    let (r, removed) = server_history_remove(h, "a.example/app");
    assert_eq!(removed.as_deref(), Some("https://a.example"));
    assert_eq!(r.len(), 1);
    assert_eq!(r[0].url, "https://b.example");
}

#[test]
fn removing_bad_address_keeps_all() {
    let h = vec![entry("https://a.example", "A", 1)];
    let (r, removed) = server_history_remove(h, "");
    assert_eq!(removed, None);
    assert_eq!(r.len(), 1);
}

#[test]
fn rename_keeps_addresses() {
    let h = vec![entry("https://a.example", "A", 1), entry("https://b.example", "B", 2)];
    let r = server_history_update_name(h, "https://b.example/app", "Bee".to_string()).unwrap();
    assert_eq!(r[1].name, "Bee");
    assert_eq!(r[1].url, "https://b.example");
    assert_eq!(r[0].name, "A");
}

#[test]
fn touch_records_connection() {
    let h = vec![entry("https://a.example", "A", 1)];
    let r = history_touch(h, "https://a.example", 99);
    assert_eq!(r.len(), 1);
    assert_eq!(r[0].last_connected, 99);
    let r2 = history_touch(r, "https://b.example", 100);
    assert_eq!(r2.len(), 2);
    assert_eq!(r2[1].url, "https://b.example");
    assert_eq!(r2[1].name, "https://b.example");
    assert_eq!(r2[1].last_connected, 100);
}

#[test]
fn normalized_address_is_stable_and_app_url_extends_it() {
    for input in ["Example.com/app.html", "https://x.example/haven/", "http://h:8080/a/b?q#f"] {
        let n = normalize_server_url(input).unwrap();
        assert_eq!(normalize_server_url(&n).as_deref(), Some(n.as_str()));
        assert_eq!(build_server_app_url(input), format!("{n}/app"));
        assert_eq!(normalize_server_url(&build_server_app_url(input)).as_deref(), Some(n.as_str()));
    }
}
