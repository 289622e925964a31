//! The stored preferences: their defaults, which keys the page may write,
//! the language choice, the Linux autostart entry, and the links the app
//! hands to the system browser.
use vstd::prelude::*;
use vstd::string::StringExecFns;
use crate::text::{chars_of, chars_eq, string_of, push_all, starts_with, starts_with_spec};
use crate::i18n::{supported_locales, supported_locales_spec, locales_view};

verus! {

// ---------------------------------------------------------------------------
// Defaults
// ---------------------------------------------------------------------------

/// The stored settings and their defaults, as JSON texts.
pub open spec fn default_settings_spec() -> Seq<(&'static str, &'static str)> {
    seq![
        ("userPrefs", "{\"mode\":null,\"serverUrl\":null,\"serverPath\":null,\"skipWelcome\":false,\"audioInput\":null,\"audioOutput\":null}"),
        ("windowBounds", "{\"width\":1200,\"height\":800}"),
        ("desktopShortcuts", "{\"mute\":\"CommandOrControl+Shift+M\",\"deafen\":\"CommandOrControl+Shift+D\",\"ptt\":\"\"}"),
        ("startOnLogin", "false"),
        ("startHidden", "false"),
        ("minimizeToTray", "false"),
        ("forceSDR", "false"),
        ("hideMenuBar", "false"),
        ("disableGpuVsync", "false"),
        ("unlimitFrameRate", "false"),
        ("serverHistory", "[]"),
        ("language", "\"auto\""),
        ("languagePreferenceSet", "false"),
    ]
}

pub fn default_settings() -> (r: Vec<(&'static str, &'static str)>)
    ensures
        r@ == default_settings_spec(),
{
    let r = vec![
        ("userPrefs", "{\"mode\":null,\"serverUrl\":null,\"serverPath\":null,\"skipWelcome\":false,\"audioInput\":null,\"audioOutput\":null}"),
        ("windowBounds", "{\"width\":1200,\"height\":800}"),
        ("desktopShortcuts", "{\"mute\":\"CommandOrControl+Shift+M\",\"deafen\":\"CommandOrControl+Shift+D\",\"ptt\":\"\"}"),
        ("startOnLogin", "false"),
        ("startHidden", "false"),
        ("minimizeToTray", "false"),
        ("forceSDR", "false"),
        ("hideMenuBar", "false"),
        ("disableGpuVsync", "false"),
        ("unlimitFrameRate", "false"),
        ("serverHistory", "[]"),
        ("language", "\"auto\""),
        ("languagePreferenceSet", "false"),
    ];
    assert(r@ =~= default_settings_spec());
    r
}

pub open spec fn has_key(keys: Seq<String>, k: Seq<char>) -> bool {
    exists|i: int| 0 <= i < keys.len() && (#[trigger] keys[i])@ == k
}

fn contains_key_text(keys: &[String], k: &str) -> (r: bool)
    ensures
        r == has_key(keys@, k@),
{
    let target = chars_of(k);
    let mut i: usize = 0;
    while i < keys.len()
        invariant
            i <= keys.len(),
            target@ == k@,
            forall|j: int| 0 <= j < i ==> (#[trigger] keys@[j])@ != k@,
        decreases keys.len() - i,
    {
        if chars_eq(&chars_of(keys[i].as_str()), &target) {
            return true;
        }
        i = i + 1;
    }
    false
}

/// The defaults to write: those whose key is not stored yet, in order.
pub open spec fn missing_defaults_spec(stored: Seq<String>) -> Seq<(&'static str, &'static str)> {
    default_settings_spec().filter(|d: (&'static str, &'static str)| !has_key(stored, d.0@))
}

pub fn missing_defaults(stored: &[String]) -> (r: Vec<(&'static str, &'static str)>)
    ensures
        r@ == missing_defaults_spec(stored@),
{
    let all = default_settings();
    let ghost pred = |d: (&'static str, &'static str)| !has_key(stored@, d.0@);
    let mut out: Vec<(&'static str, &'static str)> = Vec::new();
    let mut i: usize = 0;
    while i < all.len()
        invariant
            i <= all.len(),
            all@ == default_settings_spec(),
            pred == (|d: (&'static str, &'static str)| !has_key(stored@, d.0@)),
            out@ == all@.take(i as int).filter(pred),
        decreases all.len() - i,
    {
        let d = all[i];
        proof {
            reveal_with_fuel(Seq::filter, 1);
            assert(all@.take(i + 1).drop_last() =~= all@.take(i as int));
            assert(all@.take(i + 1).last() == d);
        }
        if !contains_key_text(stored, d.0) {
            out.push(d);
        }
        i = i + 1;
    }
    assert(all@.take(all.len() as int) =~= all@);
    out
}

// ---------------------------------------------------------------------------
// Settings the page may write
// ---------------------------------------------------------------------------

/// The keys the page may write through the settings bridge.
pub open spec fn writable_settings_spec() -> Seq<Seq<char>> {
    seq![
        "userPrefs"@,
        "windowBounds"@,
        "audioInputDevice"@,
        "audioOutputDevice"@,
        "lastServer"@,
        "pushToTalk"@,
        "pushToTalkKey"@,
        "noiseGate"@,
        "noiseThreshold"@,
        "desktopShortcuts"@,
        "startOnLogin"@,
        "startHidden"@,
        "minimizeToTray"@,
        "forceSDR"@,
        "disableGpuVsync"@,
        "unlimitFrameRate"@,
    ]
}

/// Whether the page may write the setting `key` (others are refused with
/// `false` and left alone).
pub fn settings_set_allowed(key: &str) -> (r: bool)
    ensures
        r == writable_settings_spec().contains(key@),
{
    let allowed: Vec<&'static str> = vec![
        "userPrefs",
        "windowBounds",
        "audioInputDevice",
        "audioOutputDevice",
        "lastServer",
        "pushToTalk",
        "pushToTalkKey",
        "noiseGate",
        "noiseThreshold",
        "desktopShortcuts",
        "startOnLogin",
        "startHidden",
        "minimizeToTray",
        "forceSDR",
        "disableGpuVsync",
        "unlimitFrameRate",
    ];
    let ghost av = allowed@.map_values(|a: &'static str| a@);
    assert(av =~= writable_settings_spec());
    let target = chars_of(key);
    let mut i: usize = 0;
    while i < allowed.len()
        invariant
            i <= allowed.len(),
            av == allowed@.map_values(|a: &'static str| a@),
            av == writable_settings_spec(),
            av.len() == allowed.len(),
            target@ == key@,
            forall|j: int| 0 <= j < i ==> av[j] != key@,
        decreases allowed.len() - i,
    {
        if chars_eq(&chars_of(allowed[i]), &target) {
            assert(av[i as int] == key@);
            assert(writable_settings_spec()[i as int] == key@);
            assert(writable_settings_spec().contains(key@));
            return true;
        }
        i = i + 1;
    }
    false
}

/// Links handed to the system browser must be web addresses.
pub fn check_external_url(url: &str) -> (r: Result<(), String>)
    ensures
        (starts_with_spec(url@, "http://"@) || starts_with_spec(url@, "https://"@)) ==> r is Ok,
        !(starts_with_spec(url@, "http://"@) || starts_with_spec(url@, "https://"@)) ==> (r matches Err(m)
            && m@ == "only http(s) URLs are allowed"@),
{
    let v = chars_of(url);
    if starts_with(&v, &chars_of("http://")) || starts_with(&v, &chars_of("https://")) {
        Ok(())
    } else {
        Err(String::from_str("only http(s) URLs are allowed"))
    }
}

// ---------------------------------------------------------------------------
// Language
// ---------------------------------------------------------------------------

/// The language preference to store for a requested one: `system` means
/// `auto`; `auto` and the exact code of a supported locale are kept;
/// anything else is refused (`None`) and nothing is stored.
pub open spec fn language_choice_spec(pref: Seq<char>) -> Option<Seq<char>> {
    let p = if pref == "system"@ { "auto"@ } else { pref };
    if p == "auto"@ || exists|i: int| 0 <= i < supported_locales_spec().len() && (#[trigger] supported_locales_spec()[i]).code == p {
        Some(p)
    } else {
        None
    }
}

pub fn language_choice(pref: &str) -> (r: Option<String>)
    ensures
        opt_view_string(r) == language_choice_spec(pref@),
{
    let p = if chars_eq(&chars_of(pref), &chars_of("system")) {
        chars_of("auto")
    } else {
        chars_of(pref)
    };
    if chars_eq(&p, &chars_of("auto")) {
        return Some(string_of(&p));
    }
    let locs = supported_locales();
    let mut i: usize = 0;
    while i < locs.len()
        invariant
            i <= locs.len(),
            locales_view(locs@) == supported_locales_spec(),
            p@ == (if pref@ == "system"@ { "auto"@ } else { pref@ }),
            forall|j: int| 0 <= j < i ==> (#[trigger] supported_locales_spec()[j]).code != p@,
        decreases locs.len() - i,
    {
        assert(locs@[i as int]@ == supported_locales_spec()[i as int]);
        if chars_eq(&chars_of(locs[i].code.as_str()), &p) {
            return Some(string_of(&p));
        }
        i = i + 1;
    }
    None
}

/// Only `auto` or the code of a supported locale is ever stored as the
/// language preference.
pub proof fn law_stored_language_is_known(pref: Seq<char>)
    ensures
        language_choice_spec(pref) matches Some(p) ==> (p == "auto"@ || crate::i18n::is_supported_code(p)),
{
}

pub open spec fn opt_view_string(o: Option<String>) -> Option<Seq<char>> {
    match o {
        Some(s) => Some(s@),
        None => None,
    }
}

/// The automatic language is re-resolved only while the preference is `auto`.
pub fn follows_system_language(pref: &str) -> (r: bool)
    ensures
        r == (pref@ == "auto"@),
{
    chars_eq(&chars_of(pref), &chars_of("auto"))
}

// ---------------------------------------------------------------------------
// Start on login (Linux)
// ---------------------------------------------------------------------------

/// The autostart entry that starts the executable `exec` at login, in the
/// tray when `hidden`.
pub open spec fn autostart_entry_spec(exec: Seq<char>, hidden: bool) -> Seq<char> {
    "[Desktop Entry]\nType=Application\nName=Haven\nComment=Start Haven when you log in\nExec=\""@ + exec + "\""@
        + (if hidden { " --hidden"@ } else { ""@ })
        + "\nIcon=haven-desktop\nTerminal=false\nX-GNOME-Autostart-enabled=true\nX-KDE-autostart-after=panel\n"@
}

pub fn autostart_entry(exec: &str, hidden: bool) -> (r: String)
    ensures
        r@ == autostart_entry_spec(exec@, hidden),
{
    let mut v = chars_of("[Desktop Entry]\nType=Application\nName=Haven\nComment=Start Haven when you log in\nExec=\"");
    push_all(&mut v, &chars_of(exec));
    push_all(&mut v, &chars_of("\""));
    if hidden {
        push_all(&mut v, &chars_of(" --hidden"));
    } else {
        push_all(&mut v, &chars_of(""));
    }
    push_all(&mut v, &chars_of("\nIcon=haven-desktop\nTerminal=false\nX-GNOME-Autostart-enabled=true\nX-KDE-autostart-after=panel\n"));
    string_of(&v)
}

/// The autostart directory's base: `XDG_CONFIG_HOME` when it is an
/// absolute path, else `~/.config`.
pub enum ConfigBase {
    Xdg,
    HomeConfig,
}

pub fn autostart_base(xdg_config_home: Option<&str>) -> (r: ConfigBase)
    ensures
        (xdg_config_home matches Some(x) && x@.len() > 0 && x@[0] == '/') ==> r is Xdg,
        !(xdg_config_home matches Some(x) && x@.len() > 0 && x@[0] == '/') ==> r is HomeConfig,
{
    match xdg_config_home {
        Some(x) => {
            let v = chars_of(x);
            if v.len() > 0 && v[0] == '/' {
                ConfigBase::Xdg
            } else {
                ConfigBase::HomeConfig
            }
        },
        None => ConfigBase::HomeConfig,
    }
}

} // verus!
