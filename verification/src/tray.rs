//! The tray icon: whether it is up, what its menu holds, and what each menu
//! entry does.
use vstd::prelude::*;
use vstd::string::StringExecFns;
use crate::text::{chars_of, string_of, push_all, chars_eq, starts_with, starts_with_spec, sub_chars};
use crate::i18n::{translate, translate_spec, pairs_view, supported_locales, supported_locales_spec, locales_view};

verus! {

/// Whether the tray icon could be set up (without one, nothing may hide to
/// the tray).
pub struct TrayState {
    pub up: bool,
}

impl TrayState {
    pub fn new() -> (r: TrayState)
        ensures
            !r.up,
    {
        TrayState { up: false }
    }

    /// The tray icon is up.
    pub fn mark_up(&mut self)
        ensures
            final(self).up,
    {
        self.up = true;
    }

    /// Whether the tray icon is up.
    pub fn available(&self) -> (r: bool)
        ensures
            r == self.up,
    {
        self.up
    }
}

/// What a menu entry does.
pub enum TrayAction {
    /// show the app's window
    Show,
    /// check for updates, telling the user the outcome
    CheckForUpdates,
    /// back to the Welcome window to pick another server
    ChangeServer,
    /// back to the user's own server
    BackToServer,
    Quit,
    /// use this language (`auto` for the system's)
    Language(String),
    Nothing,
}

/// The entry with id `id` was clicked.
pub open spec fn menu_action_spec(id: Seq<char>) -> Option<Seq<char>> {
    if starts_with_spec(id, "lang:"@) {
        Some(id.skip(5))
    } else {
        None
    }
}

pub fn menu_action(id: &str) -> (r: TrayAction)
    ensures
        id@ == "show"@ ==> r is Show,
        id@ == "updates"@ ==> r is CheckForUpdates,
        id@ == "change"@ ==> r is ChangeServer,
        id@ == "back"@ ==> r is BackToServer,
        id@ == "quit"@ ==> r is Quit,
        !(id@ == "show"@ || id@ == "updates"@ || id@ == "change"@ || id@ == "back"@ || id@ == "quit"@) ==> match menu_action_spec(id@) {
            Some(code) => r matches TrayAction::Language(c) && c@ == code,
            None => r is Nothing,
        },
{
    let v = chars_of(id);
    proof {
        reveal_strlit("show");
        reveal_strlit("updates");
        reveal_strlit("change");
        reveal_strlit("back");
        reveal_strlit("quit");
        assert("back"@[0] != "show"@[0] && "back"@.len() != "updates"@.len() && "back"@.len() != "change"@.len());
        assert("quit"@[0] != "show"@[0] && "quit"@.len() != "updates"@.len() && "quit"@.len() != "change"@.len()
            && "quit"@[0] != "back"@[0]);
    }
    if chars_eq(&v, &chars_of("show")) {
        TrayAction::Show
    } else if chars_eq(&v, &chars_of("updates")) {
        TrayAction::CheckForUpdates
    } else if chars_eq(&v, &chars_of("change")) {
        TrayAction::ChangeServer
    } else if chars_eq(&v, &chars_of("back")) {
        TrayAction::BackToServer
    } else if chars_eq(&v, &chars_of("quit")) {
        TrayAction::Quit
    } else {
        proof {
            reveal_strlit("lang:");
        }
        if starts_with(&v, &chars_of("lang:")) {
            TrayAction::Language(string_of(&sub_chars(&v, 5, v.len())))
        } else {
            TrayAction::Nothing
        }
    }
}

/// A checkable menu entry.
pub struct CheckItem {
    pub id: String,
    pub label: String,
    pub checked: bool,
}

/// The tray menu's entries.
pub struct TrayMenu {
    pub version: String,
    pub updates: String,
    pub show: String,
    /// `back` or `change`
    pub server_id: &'static str,
    pub server_label: String,
    /// the server entry works only while the main window exists
    pub server_enabled: bool,
    pub language: String,
    pub languages: Vec<CheckItem>,
    pub status: String,
    pub quit: String,
}

pub open spec fn t_spec(locale: Seq<char>, key: Seq<char>) -> Seq<char> {
    translate_spec(locale, key, seq![])
}

fn t(locale: &str, key: &str) -> (r: String)
    ensures
        r@ == t_spec(locale@, key@),
{
    let none: Vec<(String, String)> = Vec::new();
    assert(pairs_view(none@) =~= Seq::<(Seq<char>, Seq<char>)>::empty());
    translate(locale, key, none.as_slice())
}

/// The language entries: "automatic", then each supported locale by its
/// own name; the stored preference is checked.
pub open spec fn language_items_spec(locale: Seq<char>, pref: Seq<char>) -> Seq<(Seq<char>, Seq<char>, bool)> {
    seq![("lang:auto"@, t_spec(locale, "language.automatic"@), pref == "auto"@)]
        + supported_locales_spec().map_values(|l: crate::i18n::LocaleView| ("lang:"@ + l.code, l.name, pref == l.code))
}

pub open spec fn check_items_view(v: Seq<CheckItem>) -> Seq<(Seq<char>, Seq<char>, bool)> {
    v.map_values(|c: CheckItem| (c.id@, c.label@, c.checked))
}

pub open spec fn status_spec(locale: Seq<char>, running: bool) -> Seq<char> {
    (if running { "●"@ } else { "○"@ }) + " "@ + t_spec(
        locale,
        if running { "tray.serverRunning"@ } else { "tray.serverStopped"@ },
    )
}

/// The tray menu, for the UI locale `locale`, the app's version, whether
/// the main window shows a server other than the user's own (`away`),
/// whether the main window exists, whether the local server runs, and the
/// stored language preference (`auto` when none is stored).
pub fn tray_menu(
    locale: &str,
    version: &str,
    away: bool,
    main_exists: bool,
    running: bool,
    pref: Option<&str>,
) -> (r: TrayMenu)
    ensures
        r.version@ == translate_spec(locale@, "menu.version"@, seq![("version"@, version@)]),
        r.updates@ == t_spec(locale@, "menu.checkForUpdates"@),
        r.show@ == t_spec(locale@, "tray.show"@),
        r.server_id@ == (if away { "back"@ } else { "change"@ }),
        r.server_label@ == t_spec(locale@, if away { "tray.backToServer"@ } else { "tray.changeServer"@ }),
        r.server_enabled == main_exists,
        r.language@ == t_spec(locale@, "menu.language"@),
        check_items_view(r.languages@) == language_items_spec(
            locale@,
            match pref { Some(p) => p@, None => "auto"@ },
        ),
        r.status@ == status_spec(locale@, running),
        r.quit@ == t_spec(locale@, "tray.quit"@),
{
    let pref_v = match pref {
        Some(p) => chars_of(p),
        None => chars_of("auto"),
    };
    let ghost pv = pref_v@;
    let vpairs: Vec<(String, String)> = vec![(String::from_str("version"), String::from_str(version))];
    assert(pairs_view(vpairs@) =~= seq![("version"@, version@)]);
    let version_label = translate(locale, "menu.version", vpairs.as_slice());
    let mut languages: Vec<CheckItem> = Vec::new();
    languages.push(CheckItem {
        id: String::from_str("lang:auto"),
        label: t(locale, "language.automatic"),
        checked: chars_eq(&pref_v, &chars_of("auto")),
    });
    let locs = supported_locales();
    let ghost spec_locs = supported_locales_spec();
    let mut i: usize = 0;
    while i < locs.len()
        invariant
            i <= locs.len(),
            locales_view(locs@) == spec_locs,
            spec_locs == supported_locales_spec(),
            pref_v@ == pv,
            check_items_view(languages@) == seq![("lang:auto"@, t_spec(locale@, "language.automatic"@), pv == "auto"@)]
                + spec_locs.take(i as int).map_values(|l: crate::i18n::LocaleView| ("lang:"@ + l.code, l.name, pv == l.code)),
        decreases locs.len() - i,
    {
        let mut id = chars_of("lang:");
        push_all(&mut id, &chars_of(locs[i].code.as_str()));
        let checked = chars_eq(&pref_v, &chars_of(locs[i].code.as_str()));
        let ghost before = languages@;
        languages.push(CheckItem { id: string_of(&id), label: locs[i].name.clone(), checked });
        proof {
            assert(locs@[i as int]@ == spec_locs[i as int]);
            assert(spec_locs.take(i + 1) =~= spec_locs.take(i as int).push(spec_locs[i as int]));
            assert(check_items_view(languages@) =~= check_items_view(before).push(check_items_view(languages@).last()));
        }
        i = i + 1;
        proof {
            assert(check_items_view(languages@) =~= seq![("lang:auto"@, t_spec(locale@, "language.automatic"@), pv == "auto"@)]
                + spec_locs.take(i as int).map_values(|l: crate::i18n::LocaleView| ("lang:"@ + l.code, l.name, pv == l.code)));
        }
    }
    assert(spec_locs.take(locs.len() as int) =~= spec_locs);
    let mut status = if running {
        chars_of("●")
    } else {
        chars_of("○")
    };
    push_all(&mut status, &chars_of(" "));
    let st = if running {
        t(locale, "tray.serverRunning")
    } else {
        t(locale, "tray.serverStopped")
    };
    push_all(&mut status, &chars_of(st.as_str()));
    TrayMenu {
        version: version_label,
        updates: t(locale, "menu.checkForUpdates"),
        show: t(locale, "tray.show"),
        server_id: if away {
            "back"
        } else {
            "change"
        },
        server_label: if away {
            t(locale, "tray.backToServer")
        } else {
            t(locale, "tray.changeServer")
        },
        server_enabled: main_exists,
        language: t(locale, "menu.language"),
        languages,
        status: string_of(&status),
        quit: t(locale, "tray.quit"),
    }
}

} // verus!
