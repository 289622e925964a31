use haven_desktop::audio::{capture_mode, has_samples, AudioApp, CaptureStatus};
use haven_desktop::desktop::{
    cgroup_app_id, default_port, focused_or_main, launcher_app_id, names_haven, owned_by,
    parent_pid, probe_target, scope_unit, tree_pids,
};
use haven_desktop::history::HistoryItem;
use haven_desktop::nav::{allow_navigation, app_url_for, open_app_window, NavDecision};
use haven_desktop::notify::{server_names, unread_count, wants_attention, NotifyOpts};
use haven_desktop::prefs::{
    autostart_base, autostart_entry, check_external_url, default_settings, follows_system_language,
    language_choice, missing_defaults, settings_set_allowed, ConfigBase,
};
use haven_desktop::ptt::{modifier_keysyms, mouse_button, set_bindings, HeldInputs, PttState};
use haven_desktop::server::StartResult;
use haven_desktop::session::{ServerSession, StrMap};
use haven_desktop::share::{captured, picked, picker_answer, PickerResult, PickerStart, SharePicker};
use haven_desktop::shortcuts::{
    is_hooked, key_outcome, needs_registration, ptt_mode, shortcuts_register, SettingValue,
    ShortcutOutcome,
};
use haven_desktop::startup::{
    after_open, close_action, focus_script, grants_permission, launch_plan, should_save_bounds,
    start_hidden, url_after_local_start, window_size, window_to_focus, AfterOpen, AppWindow,
    CloseAction, LaunchPlan, LaunchPrefs, Permission,
};
use haven_desktop::theme_icon::{lookup, parse_css_color, pick_theme_colors, rgb, stored_colors, taskbar_colors, CssColor};
use haven_desktop::tray::{menu_action, tray_menu, TrayAction, TrayState};
use haven_desktop::update::{
    offers_update, available_message, check_message, failed_message, CheckOutcome, DownloadProgress, DownloadReport,
    DownloadStart, UpdateSlots,
};
use haven_desktop::weburl::ParsedUrl;

fn s(x: &str) -> String {
    x.to_string()
}

fn prefs(mode: Option<&str>, path: Option<&str>, skip: Option<bool>, url: Option<&str>) -> LaunchPrefs {
    LaunchPrefs { mode: mode.map(s), server_path: path.map(s), skip_welcome: skip, server_url: url.map(s) }
}

#[test]
fn launch_plans() {
    match launch_plan(&prefs(Some("host"), Some("/srv/h"), Some(true), Some("http://localhost:3000")), false) {
        LaunchPlan::StartLocalThenOpen { dir, remembered } => {
            assert_eq!(dir, "/srv/h");
            assert_eq!(remembered, "http://localhost:3000");
        }
        _ => panic!("expected a local start"),
    }
    match launch_plan(&prefs(Some("join"), Some("/srv/h"), Some(true), Some("https://a.example")), true) {
        LaunchPlan::OpenRemote { url } => assert_eq!(url, "https://a.example"),
        _ => panic!("expected a remote open"),
    }
    assert!(matches!(launch_plan(&prefs(Some("host"), Some(""), Some(true), Some("x")), false), LaunchPlan::OpenRemote { .. }));
    assert!(matches!(launch_plan(&prefs(None, None, Some(true), Some("")), true), LaunchPlan::ShowWelcome));
    assert!(matches!(launch_plan(&prefs(None, None, None, Some("x")), false), LaunchPlan::ShowWelcome));
    assert!(matches!(launch_plan(&prefs(None, None, Some(false), Some("x")), true), LaunchPlan::StayHidden));
}

#[test]
fn hidden_start_needs_tray() {
    let args = vec![s("haven-desktop"), s("--hidden")];
    assert!(start_hidden(&args, true));
    assert!(!start_hidden(&args, false));
    assert!(!start_hidden(&[s("haven-desktop")], true));
}

#[test]
fn after_local_start() {
    let ok = StartResult { success: true, port: Some(3000), url: Some(s("http://localhost:3000")), error: None, error_key: None };
    assert_eq!(url_after_local_start(&ok, "https://r.example").as_deref(), Some("http://localhost:3000"));
    let no_url = StartResult { success: true, port: None, url: None, error: None, error_key: None };
    assert_eq!(url_after_local_start(&no_url, "https://r.example").as_deref(), Some("https://r.example"));
    let failed = StartResult { success: false, port: None, url: None, error: None, error_key: Some(s("server.error.noPort")) };
    assert_eq!(url_after_local_start(&failed, "https://r.example"), None);
    assert!(matches!(after_open(true, true), AfterOpen::HideMain));
    assert!(matches!(after_open(true, false), AfterOpen::Nothing));
    assert!(matches!(after_open(false, true), AfterOpen::ShowWelcome));
}

#[test]
fn window_events() {
    assert!(should_save_bounds(800, 600, false));
    assert!(!should_save_bounds(799, 600, false));
    assert!(!should_save_bounds(1200, 800, true));
    assert_eq!(window_size(None, Some(700)), (1200, 700));
    assert_eq!(focus_script(true), "window.__havenFocus&&window.__havenFocus(true)");
    assert_eq!(focus_script(false), "window.__havenFocus&&window.__havenFocus(false)");
    assert!(matches!(close_action(true, false, true, Some(true), true, true), CloseAction::FinishReturn));
    assert!(matches!(close_action(true, false, false, Some(true), true, true), CloseAction::HideToTray));
    assert!(matches!(close_action(true, false, false, Some(true), false, true), CloseAction::Quit));
    assert!(matches!(close_action(true, false, false, None, true, true), CloseAction::Quit));
    assert!(matches!(close_action(false, true, false, None, true, false), CloseAction::Quit));
    assert!(matches!(close_action(false, true, false, None, true, true), CloseAction::Close));
    assert!(matches!(window_to_focus(false, true), Some(AppWindow::Welcome)));
    assert!(window_to_focus(false, false).is_none());
    assert!(grants_permission(Permission::Camera));
    assert!(!grants_permission(Permission::Other));
}

#[test]
fn tray_state_and_actions() {
    let mut t = TrayState::new();
    assert!(!t.available());
    t.mark_up();
    assert!(t.available());
    assert!(matches!(menu_action("show"), TrayAction::Show));
    assert!(matches!(menu_action("back"), TrayAction::BackToServer));
    match menu_action("lang:pt-BR") {
        TrayAction::Language(c) => assert_eq!(c, "pt-BR"),
        _ => panic!("expected a language"),
    }
    assert!(matches!(menu_action("status"), TrayAction::Nothing));
}

#[test]
fn tray_menu_entries() {
    let m = tray_menu("en", "1.4.0", true, false, true, Some("pt-BR"));
    assert_eq!(m.server_id, "back");
    assert!(!m.server_enabled);
    assert_eq!(m.show, "Show Haven");
    assert_eq!(m.quit, "Quit");
    assert_eq!(m.languages.len(), 3);
    assert_eq!(m.languages[0].id, "lang:auto");
    assert_eq!(m.languages[0].label, "Automatic");
    assert!(!m.languages[0].checked);
    assert_eq!(m.languages[2].id, "lang:pt-BR");
    assert!(m.languages[2].checked);
    assert!(m.status.starts_with("● "));
    let idle = tray_menu("en", "1.4.0", false, true, false, None);
    assert_eq!(idle.server_id, "change");
    assert!(idle.languages[0].checked);
    assert!(idle.status.starts_with("○ "));
}

#[test]
fn share_picker_flow() {
    let mut p = SharePicker::new();
    match p.open(false) {
        PickerStart::Unsupported(c) => assert!(c.ok && !c.audio),
        _ => panic!("expected no picker"),
    }
    assert!(matches!(p.open(true), PickerStart::Show { cancel_earlier: false }));
    assert!(matches!(p.open(true), PickerStart::Show { cancel_earlier: true }));
    assert_eq!(p.answer(Some(42)), Some(Some(42)));
    assert_eq!(p.answer(Some(1)), None);
    assert_eq!(picker_answer(true, Some(3)), None);
    assert_eq!(picker_answer(false, None), Some(0));
    match picked(None) {
        PickerResult::Finished(c) => assert!(!c.ok && !c.audio),
        _ => panic!(),
    }
    match picked(Some(0)) {
        PickerResult::Finished(c) => assert!(c.ok && !c.audio),
        _ => panic!(),
    }
    assert!(matches!(picked(Some(77)), PickerResult::Capture(77)));
    let c = captured(true);
    assert!(c.ok && c.audio);
}

#[test]
fn update_slots_flow() {
    let mut u: UpdateSlots<&str> = UpdateSlots::new();
    assert!(matches!(u.begin_download(), DownloadStart::Unavailable));
    u.offer("v2");
    match u.begin_download() {
        DownloadStart::Download(x) => {
            match u.download_finished(x, Err(s("network down"))) {
                DownloadReport::Failed(m) => assert_eq!(m, "network down"),
                _ => panic!(),
            }
        }
        _ => panic!(),
    }
    match u.begin_download() {
        DownloadStart::Download(x) => {
            assert_eq!(x, "v2");
            assert!(matches!(u.download_finished(x, Ok(vec![1, 2])), DownloadReport::Done));
        }
        _ => panic!(),
    }
    assert!(matches!(u.begin_download(), DownloadStart::AlreadyReady));
    assert_eq!(u.take_ready(), Some(("v2", vec![1, 2])));
    assert_eq!(u.take_ready(), None);
}

#[test]
fn download_progress_percent() {
    let mut p = DownloadProgress::new();
    assert_eq!(p.on_chunk(50, Some(200)), Some(25));
    assert_eq!(p.on_chunk(50, None), None);
    assert_eq!(p.on_chunk(1, Some(0)), None);
    assert_eq!(p.got, 101);
    assert_eq!(p.on_chunk(99, Some(200)), Some(100));
}

#[test]
fn update_messages() {
    assert_eq!(available_message("en", "2.0"), "Update 2.0 is available");
    assert_eq!(failed_message("en", "disk full"), "Update failed: disk full");
    let e = CheckOutcome::Failed { error: s("offline") };
    assert_eq!(check_message("en", true, &e).as_deref(), Some("Update error: offline"));
    assert_eq!(check_message("en", false, &e), None);
    let found = CheckOutcome::Found { version: s("3.0") };
    assert_eq!(check_message("en", true, &found), None);
    assert!(offers_update(&found));
    assert!(!offers_update(&e));
    let latest = CheckOutcome::UpToDate { current: s("1.0") };
    assert_eq!(check_message("en", true, &latest).as_deref(), Some("update.upToDate"));
}

#[test]
fn prefs_rules() {
    assert_eq!(default_settings().len(), 13);
    let stored = vec![s("userPrefs"), s("language")];
    let missing = missing_defaults(&stored);
    assert_eq!(missing.len(), 11);
    assert_eq!(missing[0].0, "windowBounds");
    assert_eq!(missing[0].1, "{\"width\":1200,\"height\":800}");
    assert!(settings_set_allowed("pushToTalkKey"));
    assert!(!settings_set_allowed("language"));
    assert!(check_external_url("https://x").is_ok());
    assert_eq!(check_external_url("file:///etc").unwrap_err(), "only http(s) URLs are allowed");
    assert_eq!(language_choice("system").as_deref(), Some("auto"));
    assert_eq!(language_choice("pt-BR").as_deref(), Some("pt-BR"));
    assert_eq!(language_choice("pt-br"), None);
    assert!(follows_system_language("auto"));
    assert!(!follows_system_language("en"));
}

#[test]
fn autostart_file() {
    assert_eq!(
        autostart_entry("/usr/bin/haven-desktop", true),
        "[Desktop Entry]\nType=Application\nName=Haven\nComment=Start Haven when you log in\nExec=\"/usr/bin/haven-desktop\" --hidden\nIcon=haven-desktop\nTerminal=false\nX-GNOME-Autostart-enabled=true\nX-KDE-autostart-after=panel\n"
    );
    assert!(autostart_entry("/x", false).contains("Exec=\"/x\"\n"));
    assert!(matches!(autostart_base(Some("/home/u/.cfg")), ConfigBase::Xdg));
    assert!(matches!(autostart_base(Some("rel")), ConfigBase::HomeConfig));
    assert!(matches!(autostart_base(None), ConfigBase::HomeConfig));
}

#[test]
fn launcher_ids() {
    let cg = "0::/user.slice/user-1000.slice/user@1000.service/app.slice/app-gnome-haven\\x2ddesktop-4242.scope";
    assert_eq!(cgroup_app_id(cg), "gnome-haven\\x2ddesktop");
    assert_eq!(cgroup_app_id("0::/user.slice/session-2.scope"), "");
    assert_eq!(cgroup_app_id("0::/app.slice/app-org.example.Foo@123.service"), "org.example.Foo");
    assert!(names_haven("gnome-Haven"));
    assert_eq!(launcher_app_id("gnome-haven\\x2ddesktop", false), "gnome-haven\\x2ddesktop");
    assert_eq!(launcher_app_id("", true), "haven\\x2ddesktop");
    assert_eq!(launcher_app_id("", false), "Haven");
    assert_eq!(scope_unit("Haven", 77), "app-Haven-77.scope");
}

#[test]
fn process_tree() {
    assert_eq!(parent_pid("123 (my (odd) proc) S 456 123 123"), Some(456));
    assert_eq!(parent_pid("123 (x) S"), None);
    assert_eq!(parent_pid("no paren"), None);
    let parents = vec![(10, 1), (20, 10), (30, 20), (40, 1)];
    assert!(owned_by(&parents, 10, 30));
    assert!(!owned_by(&parents, 10, 40));
    assert_eq!(tree_pids(&parents, 10), vec![10, 20, 30]);
    let cycle = vec![(5, 6), (6, 5)];
    assert!(!owned_by(&cycle, 10, 5));
}

#[test]
fn windows_and_probes() {
    assert_eq!(focused_or_main(Some(1), Some(2), Some(3)), Some(1));
    assert_eq!(focused_or_main(None, None, Some(3)), Some(3));
    assert_eq!(default_port("wss"), Some(443));
    assert_eq!(default_port("gopher"), None);
    assert_eq!(probe_target("http://127.0.0.1:1"), Some((s("127.0.0.1"), 1)));
    assert_eq!(probe_target("https://a.example/x"), Some((s("a.example"), 443)));
    assert_eq!(probe_target("mailto:x@y"), None);
}

#[test]
fn notifications_and_badges() {
    let n = NotifyOpts { title: None, body: Some(s("hi")), silent: None, channel_code: None }.notification();
    assert_eq!(n.title, "Haven");
    assert_eq!(n.body, "hi");
    assert!(!n.silent);
    let mut b: StrMap<bool> = StrMap::new();
    b.insert(s("a"), true);
    b.insert(s("b"), true);
    b.insert(s("a"), false);
    b.insert(s("c"), true);
    assert_eq!(unread_count(&b), 2);
    assert!(wants_attention(2, false));
    assert!(!wants_attention(2, true));
    assert!(!wants_attention(0, false));
}

#[test]
fn server_display_names() {
    let items = vec![
        HistoryItem { url: Some(s("a.example")), name: Some(s("Alpha")), last_connected: None },
        HistoryItem { url: Some(s("https://b.example/app")), name: Some(s("https://b.example/app")), last_connected: None },
        HistoryItem { url: Some(s("")), name: Some(s("bad")), last_connected: None },
        HistoryItem { url: Some(s("https://c.example:8443")), name: None, last_connected: None },
    ];
    let names = server_names(&items);
    assert_eq!(names.get("https://a.example").map(|x| x.as_str()), Some("Alpha"));
    assert_eq!(names.get("https://b.example").map(|x| x.as_str()), Some("b.example"));
    assert_eq!(names.get("https://c.example:8443").map(|x| x.as_str()), Some("c.example"));
    assert!(names.get("").is_none());
}

#[test]
fn audio_records() {
    let a = AudioApp::from_native(7, None, Some(s("icon.png")), 2);
    assert_eq!(a.pid, 7);
    assert_eq!(a.name, "");
    assert_eq!(a.icon, "icon.png");
    assert!(a.active);
    let st = CaptureStatus::from_native(None, None, -1);
    assert_eq!(st.kind, "stopped");
    assert_eq!(st.message, "");
    assert_eq!(st.code, -1);
    assert_eq!(capture_mode("exclude"), "exclude");
    assert_eq!(capture_mode("in\0clude"), "include");
    assert!(has_samples(true, 3));
    assert!(!has_samples(true, 0));
}

fn sv(text: Option<&str>) -> SettingValue<u8> {
    SettingValue { raw: 0, text: text.map(s) }
}

#[test]
fn shortcut_registration_plan() {
    let mut cfg: StrMap<SettingValue<u8>> = StrMap::new();
    cfg.insert(s("mute"), sv(Some("CommandOrControl+Shift+M")));
    cfg.insert(s("other"), sv(Some("kept")));
    let updates = vec![(s("ptt"), sv(Some("Mouse4"))), (s("pttMode"), sv(Some("toggle"))), (s("other"), sv(Some("ignored")))];
    let plan = shortcuts_register(&mut cfg, updates);
    assert_eq!(plan.ptt_mode, "toggle");
    assert_eq!(plan.hook_entries.len(), 3);
    assert_eq!(plan.hook_entries[0], (s("mute"), s("CommandOrControl+Shift+M"), false));
    assert_eq!(plan.hook_entries[1], (s("deafen"), s(""), false));
    assert_eq!(plan.hook_entries[2], (s("ptt"), s("Mouse4"), false));
    assert_eq!(cfg.get("other").and_then(|v| v.text.clone()).as_deref(), Some("kept"));
    assert_eq!(ptt_mode(Some("hold")), "hold");
    assert_eq!(ptt_mode(Some("weird")), "hold");
    assert_eq!(ptt_mode(None), "hold");
    assert!(!needs_registration("", false));
    assert!(!needs_registration("Ctrl+M", true));
    assert!(needs_registration("Ctrl+M", false));
    assert!(matches!(key_outcome("Ctrl+M", None), ShortcutOutcome::Registered));
    assert!(matches!(key_outcome("Ctrl+M", Some(true)), ShortcutOutcome::Registered));
    match key_outcome("Ctrl+M", Some(false)) {
        ShortcutOutcome::Conflict(a) => assert_eq!(a, "Ctrl+M"),
        _ => panic!(),
    }
    assert!(is_hooked(&[s("ptt")], "ptt"));
    assert!(!is_hooked(&[s("ptt")], "mute"));
}

#[test]
fn ptt_hook_bindings() {
    assert_eq!(modifier_keysyms("CmdOrCtrl"), Some(["Control_L", "Control_R"]));
    assert_eq!(modifier_keysyms("Ctrl+M"), None);
    assert_eq!(mouse_button("MiddleClick"), Some(2));
    assert_eq!(mouse_button("mouse5"), Some(9));
    let entries = vec![(s("mute"), s("Mouse4"), false), (s("ptt"), s("Alt"), true), (s("deafen"), s("Ctrl+D"), false)];
    let keycodes = vec![vec![], vec![64, 108], vec![]];
    let (table, served) = set_bindings(&entries, &keycodes);
    assert_eq!(served, vec![s("mute"), s("ptt")]);
    assert_eq!(table.get((false, 8)), Some((s("mute"), false)));
    assert_eq!(table.get((true, 108)), Some((s("ptt"), true)));
    let mut held = HeldInputs::new();
    let first = held.on_input(&table, (true, 64), true);
    assert_eq!(first, Some((s("ptt"), true, true)));
    assert_eq!(held.on_input(&table, (true, 64), true), None);
    assert_eq!(held.on_input(&table, (true, 108), true), None);
    assert_eq!(held.on_input(&table, (true, 64), false), None);
    assert_eq!(held.on_input(&table, (true, 108), false), Some((s("ptt"), true, false)));
    let mut p = PttState::new();
    assert_eq!(p.fire("ptt", true, true), Some("voice:ptt-down"));
    assert_eq!(p.fire("ptt", true, true), None);
    assert_eq!(p.fire("ptt", true, false), Some("voice:ptt-up"));
    assert_eq!(p.fire("ptt", false, true), Some("voice:ptt-toggle"));
    assert_eq!(p.fire("mute", false, false), None);
    assert_eq!(p.fire("deafen", false, true), Some("voice:deafen-toggle"));
}

#[test]
fn theme_colours() {
    assert_eq!(lookup(" Dracula "), Some((0x1a1b26, 0xbd93f9)));
    assert_eq!(lookup("braid_light"), Some((0xf7f7f8, 0x00875a)));
    assert_eq!(lookup("unknown"), None);
    assert!(matches!(parse_css_color("#abc"), Some(CssColor::Hex(0xaabbcc))));
    assert!(matches!(parse_css_color(" #112233ff "), Some(CssColor::Hex(0x112233))));
    assert!(parse_css_color("#12345").is_none());
    assert!(parse_css_color("#aaé").is_none());
    assert!(parse_css_color("#ggg").is_none());
    assert!(parse_css_color("#+ab").is_none());
    assert!(parse_css_color("#abcz").is_none());
    assert!(parse_css_color("#aaaaaazz").is_none());
    assert!(matches!(parse_css_color("#abcd"), Some(CssColor::Hex(0xaabbcc))));
    match parse_css_color("rgba(10, 20 , 30, 0.5)") {
        Some(CssColor::Channels(r, g, b)) => {
            assert_eq!(r, "10");
            assert_eq!(g, "20");
            assert_eq!(b, "30");
        }
        _ => panic!(),
    }
    assert_eq!(rgb(0x123456), (0x12, 0x34, 0x56));
    assert_eq!(taskbar_colors(1, 2, false, true), (1, 2));
    assert_eq!(taskbar_colors(1, 2, true, true), (0x191b28, 0x7c5cfc));
    assert_eq!(taskbar_colors(1, 2, true, false), (2, 0xffffff));
    assert_eq!(pick_theme_colors(Some("haven"), Some(1), Some(2)), Some((0x191b28, 0x7c5cfc)));
    assert_eq!(pick_theme_colors(Some("custom"), Some(1), Some(2)), Some((1, 2)));
    assert_eq!(pick_theme_colors(None, Some(1), None), None);
    assert_eq!(stored_colors(Some(0x1_0000_0005), Some(6)), (5, 6));
    assert_eq!(stored_colors(None, Some(6)), (0x191b28, 0x7c5cfc));
}

#[test]
fn session_and_navigation() {
    let mut sess = ServerSession::new();
    let items = vec![HistoryItem { url: Some(s("https://h.example")), name: None, last_connected: Some(3) }];
    let opened = open_app_window(&mut sess, &items, "a.example/app", 1000).unwrap();
    assert_eq!(opened.normalized, "https://a.example");
    assert_eq!(opened.app_url.serialization, "https://a.example/app");
    assert_eq!(opened.history.len(), 2);
    assert_eq!(opened.history[1].url, "https://a.example");
    assert_eq!(opened.history[1].last_connected, 1000);
    assert_eq!(sess.active.as_deref(), Some("https://a.example"));
    assert_eq!(sess.primary.as_deref(), Some("https://a.example"));
    assert_eq!(open_app_window(&mut sess, &items, "", 1).err().as_deref(), Some("invalid server URL"));
    assert!(app_url_for("https://a.example").is_ok());

    sess.switch_server("https://b.example").unwrap();
    assert!(sess.is_away());
    let on_active = ParsedUrl::parse("https://b.example/channels/42").unwrap();
    assert!(matches!(allow_navigation(&on_active, &sess, &[]), NavDecision::Allow));
    sess.report_known_server_urls(&[s("k.example"), s("")]);
    sess.set_badge(true);
    let on_known = ParsedUrl::parse("https://k.example/x").unwrap();
    assert!(matches!(allow_navigation(&on_known, &sess, &items), NavDecision::Allow));
    let on_history = ParsedUrl::parse("https://h.example/y").unwrap();
    assert!(matches!(allow_navigation(&on_history, &sess, &items), NavDecision::Allow));
    let embed = ParsedUrl::parse("https://www.youtube.com/embed/1").unwrap();
    assert!(matches!(allow_navigation(&embed, &sess, &items), NavDecision::Allow));
    let app_page = ParsedUrl::parse("tauri://localhost/index.html").unwrap();
    assert!(matches!(allow_navigation(&app_page, &sess, &items), NavDecision::Allow));
    let other = ParsedUrl::parse("https://elsewhere.example/").unwrap();
    assert!(matches!(allow_navigation(&other, &sess, &items), NavDecision::OpenInBrowser));
    let mail = ParsedUrl::parse("mailto:someone@example.com").unwrap();
    assert!(matches!(allow_navigation(&mail, &sess, &items), NavDecision::Block));

    sess.change_primary_server("https://c.example").unwrap();
    assert!(!sess.is_away());
    assert!(sess.badges.get("https://b.example").is_none());
    let known_gone = ParsedUrl::parse("https://k.example/x").unwrap();
    assert!(matches!(allow_navigation(&known_gone, &sess, &[]), NavDecision::OpenInBrowser));
    sess.forget_server("https://c.example");
    assert_eq!(sess.primary, None);
    sess.back_to_welcome();
    assert_eq!(sess.active, None);
}
