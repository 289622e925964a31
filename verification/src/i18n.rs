//! Locales: the supported list, locale negotiation and message lookup.
use vstd::prelude::*;
use vstd::string::StringExecFns;
use crate::text::{
    before_first, before_first_char, chars_eq, chars_of, eq_ignore_ascii_case, eq_ignore_case_spec,
    lowercase, lowercase_chars, push_all, replace, replace_char, replace_char_spec, replace_spec,
    string_of, trim_chars, trim_spec, is_ws, lower_ascii_seq, trim_start_spec, trim_end_spec,
};

verus! {

/// One supported locale.
pub struct LocaleInfo {
    pub code: String,
    pub name: String,
    pub direction: String,
}

pub struct LocaleView {
    pub code: Seq<char>,
    pub name: Seq<char>,
    pub direction: Seq<char>,
}

impl View for LocaleInfo {
    type V = LocaleView;

    open spec fn view(&self) -> LocaleView {
        LocaleView { code: self.code@, name: self.name@, direction: self.direction@ }
    }
}

/// What the welcome page and the menus learn about the language settings.
pub struct I18nState {
    pub preference: String,
    pub locale: String,
    pub system_locale: String,
    pub is_preference_stored: bool,
    pub direction: String,
    pub supported_locales: Vec<LocaleInfo>,
}

pub open spec fn locales_view(v: Seq<LocaleInfo>) -> Seq<LocaleView> {
    v.map_values(|l: LocaleInfo| l@)
}

/// The locales this build ships, in menu order.
pub open spec fn supported_locales_spec() -> Seq<LocaleView> {
    seq![
        LocaleView { code: "en"@, name: "English"@, direction: "ltr"@ },
        LocaleView { code: "pt-BR"@, name: "Português (Brasil)"@, direction: "ltr"@ },
    ]
}

pub fn supported_locales() -> (r: Vec<LocaleInfo>)
    ensures
        locales_view(r@) == supported_locales_spec(),
{
    let r = vec![
        LocaleInfo {
            code: String::from_str("en"),
            name: String::from_str("English"),
            direction: String::from_str("ltr"),
        },
        LocaleInfo {
            code: String::from_str("pt-BR"),
            name: String::from_str("Português (Brasil)"),
            direction: String::from_str("ltr"),
        },
    ];
    assert(locales_view(r@) =~= supported_locales_spec());
    r
}

// ---------------------------------------------------------------------------
// Locale negotiation
// ---------------------------------------------------------------------------

/// The first code in `locs` equal to `cand`, ignoring ASCII case.
pub open spec fn match_code(locs: Seq<LocaleView>, cand: Seq<char>) -> Option<Seq<char>>
    decreases locs.len(),
{
    if locs.len() == 0 {
        None
    } else if eq_ignore_case_spec(locs[0].code, cand) {
        Some(locs[0].code)
    } else {
        match_code(locs.drop_first(), cand)
    }
}

/// The first code in `locs` whose language part (before `-`) equals `base`,
/// ignoring ASCII case.
pub open spec fn match_language(locs: Seq<LocaleView>, base: Seq<char>) -> Option<Seq<char>>
    decreases locs.len(),
{
    if locs.len() == 0 {
        None
    } else if eq_ignore_case_spec(before_first(locs[0].code, '-'), base) {
        Some(locs[0].code)
    } else {
        match_language(locs.drop_first(), base)
    }
}

/// A locale tag as written by the user or the OS, with `_` read as `-`.
pub open spec fn locale_candidate(value: Seq<char>) -> Seq<char> {
    replace_char_spec(trim_spec(value), '_', seq!['-'])
}

/// The supported locale that a tag names: an exact (case-insensitive) match
/// first, else the first locale with the same language.
pub open spec fn normalize_locale_spec(value: Seq<char>) -> Option<Seq<char>> {
    let cand = locale_candidate(value);
    if cand.len() == 0 {
        None
    } else {
        match match_code(supported_locales_spec(), cand) {
            Some(code) => Some(code),
            None => match_language(
                supported_locales_spec(),
                lowercase(before_first(cand, '-')),
            ),
        }
    }
}

pub fn normalize_locale(value: &str) -> (r: Option<String>)
    ensures
        match r {
            Some(s) => normalize_locale_spec(value@) == Some(s@),
            None => normalize_locale_spec(value@) is None,
        },
{
    let trimmed = trim_chars(&chars_of(value));
    let dash = vec!['-'];
    let candidate = replace_char(&trimmed, '_', &dash);
    assert(dash@ == seq!['-']);
    assert(candidate@ == locale_candidate(value@));
    if candidate.len() == 0 {
        return None;
    }
    let locs = supported_locales();
    let ghost spec_locs = supported_locales_spec();
    let mut i: usize = 0;
    assert(locales_view(locs@).skip(0) =~= spec_locs);
    while i < locs.len()
        invariant
            i <= locs.len(),
            locales_view(locs@) == spec_locs,
            spec_locs == supported_locales_spec(),
            candidate@ == locale_candidate(value@),
            candidate@.len() > 0,
            match_code(spec_locs, candidate@) == match_code(locales_view(locs@).skip(i as int), candidate@),
        decreases locs.len() - i,
    {
        let code = chars_of(locs[i].code.as_str());
        assert(locales_view(locs@).skip(i as int).drop_first() =~= locales_view(locs@).skip(i + 1));
        assert(locales_view(locs@).skip(i as int)[0] == locs@[i as int]@);
        if eq_ignore_ascii_case(&code, &candidate) {
            return Some(locs[i].code.clone());
        }
        i = i + 1;
    }
    let base = lowercase_chars(&before_first_char(&candidate, '-'));
    let locs = supported_locales();
    let mut i: usize = 0;
    assert(locales_view(locs@).skip(0) =~= spec_locs);
    while i < locs.len()
        invariant
            i <= locs.len(),
            locales_view(locs@) == spec_locs,
            spec_locs == supported_locales_spec(),
            candidate@ == locale_candidate(value@),
            candidate@.len() > 0,
            base@ == lowercase(before_first(candidate@, '-')),
            match_code(spec_locs, candidate@) is None,
            match_language(spec_locs, base@) == match_language(locales_view(locs@).skip(i as int), base@),
        decreases locs.len() - i,
    {
        let code = chars_of(locs[i].code.as_str());
        let lang = before_first_char(&code, '-');
        assert(locales_view(locs@).skip(i as int).drop_first() =~= locales_view(locs@).skip(i + 1));
        assert(locales_view(locs@).skip(i as int)[0] == locs@[i as int]@);
        if eq_ignore_ascii_case(&lang, &base) {
            return Some(locs[i].code.clone());
        }
        i = i + 1;
    }
    None
}

pub open spec fn en() -> Seq<char> {
    seq!['e', 'n']
}

/// `preference` names a language directly unless it is `auto` or `system`.
pub open spec fn is_automatic(preference: Seq<char>) -> bool {
    preference == "auto"@ || preference == "system"@
}

/// The first system language that names a supported locale, else English.
pub open spec fn first_supported(languages: Seq<Seq<char>>) -> Seq<char>
    decreases languages.len(),
{
    if languages.len() == 0 {
        en()
    } else {
        match normalize_locale_spec(languages[0]) {
            Some(l) => l,
            None => first_supported(languages.drop_first()),
        }
    }
}

pub open spec fn strings_view(v: Seq<String>) -> Seq<Seq<char>> {
    v.map_values(|s: String| s@)
}

/// The locale in effect for a stored preference and the OS languages.
pub open spec fn resolve_locale_spec(preference: Seq<char>, languages: Seq<Seq<char>>) -> Seq<char> {
    if !is_automatic(preference) {
        match normalize_locale_spec(preference) {
            Some(l) => l,
            None => en(),
        }
    } else {
        first_supported(languages)
    }
}

/// `c` is the code of a supported locale.
pub open spec fn is_supported_code(c: Seq<char>) -> bool {
    exists|i: int| 0 <= i < supported_locales_spec().len() && #[trigger] supported_locales_spec()[i].code == c
}

proof fn lemma_match_code_in(locs: Seq<LocaleView>, cand: Seq<char>)
    ensures
        match_code(locs, cand) matches Some(c) ==> exists|i: int| 0 <= i < locs.len() && #[trigger] locs[i].code == c,
    decreases locs.len(),
{
    if locs.len() > 0 && !eq_ignore_case_spec(locs[0].code, cand) {
        lemma_match_code_in(locs.drop_first(), cand);
        if let Some(c) = match_code(locs, cand) {
            let i = choose|i: int| 0 <= i < locs.drop_first().len() && #[trigger] locs.drop_first()[i].code == c;
            assert(locs[i + 1].code == c);
        }
    } else if locs.len() > 0 {
        assert(locs[0].code == match_code(locs, cand)->0);
    }
}

proof fn lemma_match_language_in(locs: Seq<LocaleView>, base: Seq<char>)
    ensures
        match_language(locs, base) matches Some(c) ==> exists|i: int| 0 <= i < locs.len() && #[trigger] locs[i].code == c,
    decreases locs.len(),
{
    if locs.len() > 0 && !eq_ignore_case_spec(before_first(locs[0].code, '-'), base) {
        lemma_match_language_in(locs.drop_first(), base);
        if let Some(c) = match_language(locs, base) {
            let i = choose|i: int| 0 <= i < locs.drop_first().len() && #[trigger] locs.drop_first()[i].code == c;
            assert(locs[i + 1].code == c);
        }
    } else if locs.len() > 0 {
        assert(locs[0].code == match_language(locs, base)->0);
    }
}

proof fn lemma_normalized_is_supported(value: Seq<char>)
    ensures
        normalize_locale_spec(value) matches Some(c) ==> is_supported_code(c),
{
    let cand = locale_candidate(value);
    lemma_match_code_in(supported_locales_spec(), cand);
    lemma_match_language_in(supported_locales_spec(), lowercase(before_first(cand, '-')));
}

proof fn lemma_en_supported()
    ensures
        is_supported_code(en()),
{
    reveal_strlit("en");
    assert(supported_locales_spec()[0].code == en());
}

proof fn lemma_first_supported_is_supported(languages: Seq<Seq<char>>)
    ensures
        is_supported_code(first_supported(languages)),
    decreases languages.len(),
{
    if languages.len() == 0 {
        lemma_en_supported();
    } else {
        lemma_normalized_is_supported(languages[0]);
        if normalize_locale_spec(languages[0]) is None {
            lemma_first_supported_is_supported(languages.drop_first());
        }
    }
}

proof fn lemma_match_code_none(locs: Seq<LocaleView>, cand: Seq<char>)
    ensures
        match_code(locs, cand) is None <==> forall|i: int| 0 <= i < locs.len() ==> !eq_ignore_case_spec(#[trigger] locs[i].code, cand),
    decreases locs.len(),
{
    if locs.len() > 0 {
        lemma_match_code_none(locs.drop_first(), cand);
        if !eq_ignore_case_spec(locs[0].code, cand) && match_code(locs.drop_first(), cand) is None {
            assert forall|i: int| 0 <= i < locs.len() implies !eq_ignore_case_spec(#[trigger] locs[i].code, cand) by {
                if i > 0 {
                    assert(locs[i] == locs.drop_first()[i - 1]);
                }
            }
        } else if !eq_ignore_case_spec(locs[0].code, cand) {
            let j = choose|j: int| 0 <= j < locs.drop_first().len() && eq_ignore_case_spec(#[trigger] locs.drop_first()[j].code, cand);
            assert(locs[j + 1] == locs.drop_first()[j]);
        }
    }
}

proof fn lemma_match_language_none(locs: Seq<LocaleView>, base: Seq<char>)
    ensures
        match_language(locs, base) is None <==> forall|i: int| 0 <= i < locs.len() ==> !eq_ignore_case_spec(before_first(#[trigger] locs[i].code, '-'), base),
    decreases locs.len(),
{
    if locs.len() > 0 {
        lemma_match_language_none(locs.drop_first(), base);
        if !eq_ignore_case_spec(before_first(locs[0].code, '-'), base) && match_language(locs.drop_first(), base) is None {
            assert forall|i: int| 0 <= i < locs.len() implies !eq_ignore_case_spec(before_first(#[trigger] locs[i].code, '-'), base) by {
                if i > 0 {
                    assert(locs[i] == locs.drop_first()[i - 1]);
                }
            }
        } else if !eq_ignore_case_spec(before_first(locs[0].code, '-'), base) {
            let j = choose|j: int| 0 <= j < locs.drop_first().len() && eq_ignore_case_spec(before_first(#[trigger] locs.drop_first()[j].code, '-'), base);
            assert(locs[j + 1] == locs.drop_first()[j]);
        }
    }
}

proof fn lemma_plain_code_is_own_candidate(c: Seq<char>)
    requires
        c.len() > 0,
        forall|i: int| 0 <= i < c.len() ==> !is_ws(#[trigger] c[i]) && c[i] != '_',
    ensures
        locale_candidate(c) == c,
{
    assert(trim_start_spec(c) == c);
    assert(trim_end_spec(c) == c);
    lemma_replace_nothing(c);
}

proof fn lemma_replace_nothing(c: Seq<char>)
    requires
        forall|i: int| 0 <= i < c.len() ==> #[trigger] c[i] != '_',
    ensures
        replace_char_spec(c, '_', seq!['-']) == c,
    decreases c.len(),
{
    if c.len() > 0 {
        let d = c.drop_last();
        assert forall|i: int| 0 <= i < d.len() implies #[trigger] d[i] != '_' by {
            assert(d[i] == c[i]);
        }
        lemma_replace_nothing(d);
        assert(c.last() != '_');
        assert(d + seq![c.last()] =~= c);
    }
}

/// A supported locale code names itself.
proof fn lemma_supported_code_normalizes(c: Seq<char>)
    requires
        is_supported_code(c),
    ensures
        normalize_locale_spec(c) == Some(c),
{
    reveal_strlit("English");
    reveal_strlit("Português (Brasil)");
    reveal_strlit("ltr");
    reveal_strlit("en");
    reveal_strlit("pt-BR");
    let locs = supported_locales_spec();
    let en_code = locs[0].code;
    let pt_code = locs[1].code;
    assert(en_code.len() == 2 && pt_code.len() == 5);
    let i = choose|i: int| 0 <= i < locs.len() && #[trigger] locs[i].code == c;
    assert(c == en_code || c == pt_code);
    assert forall|k: int| 0 <= k < c.len() implies !is_ws(#[trigger] c[k]) && c[k] != '_' by {
        if c == en_code {
            assert(k == 0 || k == 1);
        } else {
            assert(0 <= k < 5);
        }
    }
    lemma_plain_code_is_own_candidate(c);
    assert(locale_candidate(c) == c);
    if c == en_code {
        assert(eq_ignore_case_spec(locs[0].code, c));
        assert(match_code(locs, c) == Some(en_code));
    } else {
        assert(lower_ascii_seq(en_code).len() != lower_ascii_seq(c).len());
        assert(!eq_ignore_case_spec(locs[0].code, c));
        assert(locs.drop_first()[0] == locs[1]);
        assert(eq_ignore_case_spec(locs.drop_first()[0].code, c));
        assert(match_code(locs.drop_first(), c) == Some(pt_code));
        assert(match_code(locs, c) == Some(pt_code));
    }
}

/// Normalising a locale gives a supported code, and that code normalises to
/// itself. It gives nothing exactly when the tag (trimmed, `_` read as `-`)
/// is empty, or no supported code equals it ignoring ASCII case and none has
/// its language (the part before the first `-`, lowercased).
pub proof fn law_normalize_locale_fixed(v: Seq<char>)
    ensures
        normalize_locale_spec(v) matches Some(c) ==> is_supported_code(c) && normalize_locale_spec(c) == Some(c),
        normalize_locale_spec(v) is None <==> ({
            let w = locale_candidate(v);
            w.len() == 0 || (
                (forall|i: int| 0 <= i < supported_locales_spec().len() ==> !eq_ignore_case_spec(#[trigger] supported_locales_spec()[i].code, w))
                && (forall|i: int| 0 <= i < supported_locales_spec().len() ==> !eq_ignore_case_spec(
                    before_first(#[trigger] supported_locales_spec()[i].code, '-'),
                    lowercase(before_first(w, '-')),
                )))
        }),
{
    lemma_normalized_is_supported(v);
    if let Some(c) = normalize_locale_spec(v) {
        lemma_supported_code_normalizes(c);
    }
    let w = locale_candidate(v);
    lemma_match_code_none(supported_locales_spec(), w);
    lemma_match_language_none(supported_locales_spec(), lowercase(before_first(w, '-')));
}

/// Whatever the stored preference and the system languages, the locale in
/// effect is one of the supported locales.
pub proof fn law_resolved_locale_is_supported(preference: Seq<char>, languages: Seq<Seq<char>>)
    ensures
        is_supported_code(resolve_locale_spec(preference, languages)),
{
    lemma_normalized_is_supported(preference);
    lemma_en_supported();
    lemma_first_supported_is_supported(languages);
}

fn en_string() -> (s: String)
    ensures
        s@ == en(),
{
    string_of(&vec!['e', 'n'])
}

fn str_is(s: &str, lit: &str) -> (r: bool)
    ensures
        r == (s@ == lit@),
{
    chars_eq(&chars_of(s), &chars_of(lit))
}

pub fn resolve_locale(preference: &str, system_languages: &[String]) -> (r: String)
    ensures
        r@ == resolve_locale_spec(preference@, strings_view(system_languages@)),
{
    if !str_is(preference, "auto") && !str_is(preference, "system") {
        return match normalize_locale(preference) {
            Some(l) => l,
            None => en_string(),
        };
    }
    let ghost langs = strings_view(system_languages@);
    let mut i: usize = 0;
    assert(langs.skip(0) =~= langs);
    while i < system_languages.len()
        invariant
            i <= system_languages.len(),
            langs == strings_view(system_languages@),
            is_automatic(preference@),
            first_supported(langs) == first_supported(langs.skip(i as int)),
        decreases system_languages.len() - i,
    {
        assert(langs.skip(i as int).drop_first() =~= langs.skip(i + 1));
        assert(langs.skip(i as int)[0] == system_languages@[i as int]@);
        if let Some(l) = normalize_locale(system_languages[i].as_str()) {
            return l;
        }
        i = i + 1;
    }
    en_string()
}

/// `LANG` / `LC_ALL` as the OS gives them: the part before any `.`
/// (the codeset), with `_` read as `-`.
pub open spec fn env_language(value: Seq<char>) -> Seq<char> {
    replace_char_spec(before_first(value, '.'), '_', seq!['-'])
}

pub open spec fn system_languages_spec(lang: Option<Seq<char>>, lc_all: Option<Seq<char>>) -> Seq<Seq<char>> {
    let a = match lang {
        Some(v) => seq![env_language(v)],
        None => Seq::empty(),
    };
    let b = match lc_all {
        Some(v) => seq![env_language(v)],
        None => Seq::empty(),
    };
    a + b + seq![en()]
}

fn env_language_string(value: &str) -> (r: String)
    ensures
        r@ == env_language(value@),
{
    let dash = vec!['-'];
    assert(dash@ == seq!['-']);
    string_of(&replace_char(&before_first_char(&chars_of(value), '.'), '_', &dash))
}

/// The OS languages to try, in order, from the values of `LANG` and `LC_ALL`
/// (`None` where the variable is unset or not Unicode), English last.
pub fn system_languages(lang: Option<&str>, lc_all: Option<&str>) -> (r: Vec<String>)
    ensures
        strings_view(r@) == system_languages_spec(
            match lang { Some(v) => Some(v@), None => None },
            match lc_all { Some(v) => Some(v@), None => None },
        ),
{
    let mut out: Vec<String> = Vec::new();
    if let Some(v) = lang {
        out.push(env_language_string(v));
    }
    if let Some(v) = lc_all {
        out.push(env_language_string(v));
    }
    out.push(en_string());
    assert(strings_view(out@) =~= system_languages_spec(
        match lang { Some(v) => Some(v@), None => None },
        match lc_all { Some(v) => Some(v@), None => None },
    ));
    out
}

// ---------------------------------------------------------------------------
// Messages
// ---------------------------------------------------------------------------

pub open spec fn en_table() -> Seq<(&'static str, &'static str)> {
    seq![
        ("language.label", "Language"),
        ("language.automatic", "Automatic"),
        ("window.minimize", "Minimize"),
        ("window.close", "Close"),
        ("welcome.windowTitle", "Haven - Welcome"),
        ("welcome.heading", "Welcome to"),
        ("welcome.tagline", "Your private, self-hosted communication hub - now on your desktop."),
        ("welcome.host.title", "Host My Server"),
        ("welcome.host.description", "Run your own Haven server and connect to it."),
        ("welcome.join.title", "Join a Server"),
        ("welcome.join.description", "Connect to an existing Haven server."),
        ("welcome.rememberChoice", "Remember my choice"),
        ("welcome.back", "Back"),
        ("welcome.serverSetup", "Server Setup"),
        ("welcome.searchingServer", "Searching for a local Haven server..."),
        ("welcome.serverFound", "Found Haven server at:"),
        ("welcome.startServer", "Start Server"),
        ("welcome.serverNotDetected", "No Haven server detected automatically."),
        ("welcome.browseServer", "Browse for server directory..."),
        ("welcome.freshSetup", "Start Fresh Server Setup"),
        ("welcome.startingServer", "Starting server..."),
        ("welcome.tryAgain", "Try Again"),
        ("welcome.joinServer", "Join a Server"),
        ("welcome.serverAddress", "Server Address"),
        ("welcome.serverAddressHint", "Enter the URL or IP address of the Haven server you'd like to join."),
        ("welcome.connect", "Connect"),
        ("welcome.connecting", "Connecting..."),
        ("welcome.error.detectionFailed", "Server detection failed."),
        ("welcome.error.startFailed", "Failed to start the Haven server."),
        ("welcome.error.unexpected", "An unexpected error occurred."),
        ("welcome.error.invalidUrl", "Please enter a valid server URL."),
        ("welcome.error.serverUnreachable", "Could not reach that server."),
        ("welcome.error.connectionFailed", "Connection failed."),
        ("server.error.fileNotFound", "server.js was not found in that directory."),
        ("server.error.noPort", "No free port available to start the server."),
        ("server.log.crashLoop", "Server is crash-looping; not restarting again."),
        ("server.log.restarting", "Server exited with code {code}; restarting..."),
        ("dialog.selectServerDirectory", "Select Haven server directory"),
        ("dialog.ok", "OK"),
        ("dialog.cancel", "Cancel"),
        ("dialog.defaultValue", "Default: {value}"),
        ("tray.show", "Show Haven"),
        ("tray.quit", "Quit"),
        ("tray.tooltip", "Haven Desktop"),
        ("splash.windowTitle", "Loading Haven…"),
        ("update.available", "Update {version} is available"),
        ("update.now", "Update now"),
        ("update.downloading", "Downloading update…"),
        ("update.downloadingProgress", "Downloading… {percent}%"),
        ("update.downloaded", "Update ready — restart to install"),
        ("update.restartNow", "Restart now"),
        ("update.failed", "Update failed: {error}"),
        ("update.error", "Update error: {error}"),
        ("update.unavailable", "Auto-update is unavailable in this build"),
        ("update.close", "Dismiss"),
        ("audio.unknownApplication", "Unknown")
    ]
}

pub open spec fn pt_br_table() -> Seq<(&'static str, &'static str)> {
    seq![
        ("language.label", "Idioma"),
        ("language.automatic", "Automático"),
        ("window.minimize", "Minimizar"),
        ("window.close", "Fechar"),
        ("welcome.heading", "Bem-vindo ao"),
        ("welcome.tagline", "Seu hub de comunicação privado e auto-hospedado — agora no desktop."),
        ("welcome.host.title", "Hospedar meu servidor"),
        ("welcome.host.description", "Execute seu próprio servidor Haven e conecte-se a ele."),
        ("welcome.join.title", "Entrar em um servidor"),
        ("welcome.join.description", "Conecte-se a um servidor Haven existente."),
        ("welcome.rememberChoice", "Lembrar minha escolha"),
        ("welcome.back", "Voltar"),
        ("welcome.serverSetup", "Configuração do servidor"),
        ("welcome.searchingServer", "Procurando um servidor Haven local..."),
        ("welcome.serverFound", "Servidor Haven encontrado em:"),
        ("welcome.startServer", "Iniciar servidor"),
        ("welcome.serverNotDetected", "Nenhum servidor Haven detectado automaticamente."),
        ("welcome.browseServer", "Procurar diretório do servidor..."),
        ("welcome.freshSetup", "Configurar servidor novo"),
        ("welcome.startingServer", "Iniciando servidor..."),
        ("welcome.tryAgain", "Tentar novamente"),
        ("welcome.joinServer", "Entrar em um servidor"),
        ("welcome.serverAddress", "Endereço do servidor"),
        ("welcome.serverAddressHint", "Digite a URL ou o IP do servidor Haven."),
        ("welcome.connect", "Conectar"),
        ("welcome.connecting", "Conectando..."),
        ("tray.show", "Mostrar Haven"),
        ("tray.quit", "Sair"),
        ("tray.tooltip", "Haven Desktop")
    ]
}

fn en_entries() -> (r: Vec<(&'static str, &'static str)>)
    ensures
        r@ == en_table(),
{
    vec![
        ("language.label", "Language"),
        ("language.automatic", "Automatic"),
        ("window.minimize", "Minimize"),
        ("window.close", "Close"),
        ("welcome.windowTitle", "Haven - Welcome"),
        ("welcome.heading", "Welcome to"),
        ("welcome.tagline", "Your private, self-hosted communication hub - now on your desktop."),
        ("welcome.host.title", "Host My Server"),
        ("welcome.host.description", "Run your own Haven server and connect to it."),
        ("welcome.join.title", "Join a Server"),
        ("welcome.join.description", "Connect to an existing Haven server."),
        ("welcome.rememberChoice", "Remember my choice"),
        ("welcome.back", "Back"),
        ("welcome.serverSetup", "Server Setup"),
        ("welcome.searchingServer", "Searching for a local Haven server..."),
        ("welcome.serverFound", "Found Haven server at:"),
        ("welcome.startServer", "Start Server"),
        ("welcome.serverNotDetected", "No Haven server detected automatically."),
        ("welcome.browseServer", "Browse for server directory..."),
        ("welcome.freshSetup", "Start Fresh Server Setup"),
        ("welcome.startingServer", "Starting server..."),
        ("welcome.tryAgain", "Try Again"),
        ("welcome.joinServer", "Join a Server"),
        ("welcome.serverAddress", "Server Address"),
        ("welcome.serverAddressHint", "Enter the URL or IP address of the Haven server you'd like to join."),
        ("welcome.connect", "Connect"),
        ("welcome.connecting", "Connecting..."),
        ("welcome.error.detectionFailed", "Server detection failed."),
        ("welcome.error.startFailed", "Failed to start the Haven server."),
        ("welcome.error.unexpected", "An unexpected error occurred."),
        ("welcome.error.invalidUrl", "Please enter a valid server URL."),
        ("welcome.error.serverUnreachable", "Could not reach that server."),
        ("welcome.error.connectionFailed", "Connection failed."),
        ("server.error.fileNotFound", "server.js was not found in that directory."),
        ("server.error.noPort", "No free port available to start the server."),
        ("server.log.crashLoop", "Server is crash-looping; not restarting again."),
        ("server.log.restarting", "Server exited with code {code}; restarting..."),
        ("dialog.selectServerDirectory", "Select Haven server directory"),
        ("dialog.ok", "OK"),
        ("dialog.cancel", "Cancel"),
        ("dialog.defaultValue", "Default: {value}"),
        ("tray.show", "Show Haven"),
        ("tray.quit", "Quit"),
        ("tray.tooltip", "Haven Desktop"),
        ("splash.windowTitle", "Loading Haven…"),
        ("update.available", "Update {version} is available"),
        ("update.now", "Update now"),
        ("update.downloading", "Downloading update…"),
        ("update.downloadingProgress", "Downloading… {percent}%"),
        ("update.downloaded", "Update ready — restart to install"),
        ("update.restartNow", "Restart now"),
        ("update.failed", "Update failed: {error}"),
        ("update.error", "Update error: {error}"),
        ("update.unavailable", "Auto-update is unavailable in this build"),
        ("update.close", "Dismiss"),
        ("audio.unknownApplication", "Unknown")
    ]
}

fn pt_br_entries() -> (r: Vec<(&'static str, &'static str)>)
    ensures
        r@ == pt_br_table(),
{
    vec![
        ("language.label", "Idioma"),
        ("language.automatic", "Automático"),
        ("window.minimize", "Minimizar"),
        ("window.close", "Fechar"),
        ("welcome.heading", "Bem-vindo ao"),
        ("welcome.tagline", "Seu hub de comunicação privado e auto-hospedado — agora no desktop."),
        ("welcome.host.title", "Hospedar meu servidor"),
        ("welcome.host.description", "Execute seu próprio servidor Haven e conecte-se a ele."),
        ("welcome.join.title", "Entrar em um servidor"),
        ("welcome.join.description", "Conecte-se a um servidor Haven existente."),
        ("welcome.rememberChoice", "Lembrar minha escolha"),
        ("welcome.back", "Voltar"),
        ("welcome.serverSetup", "Configuração do servidor"),
        ("welcome.searchingServer", "Procurando um servidor Haven local..."),
        ("welcome.serverFound", "Servidor Haven encontrado em:"),
        ("welcome.startServer", "Iniciar servidor"),
        ("welcome.serverNotDetected", "Nenhum servidor Haven detectado automaticamente."),
        ("welcome.browseServer", "Procurar diretório do servidor..."),
        ("welcome.freshSetup", "Configurar servidor novo"),
        ("welcome.startingServer", "Iniciando servidor..."),
        ("welcome.tryAgain", "Tentar novamente"),
        ("welcome.joinServer", "Entrar em um servidor"),
        ("welcome.serverAddress", "Endereço do servidor"),
        ("welcome.serverAddressHint", "Digite a URL ou o IP do servidor Haven."),
        ("welcome.connect", "Conectar"),
        ("welcome.connecting", "Conectando..."),
        ("tray.show", "Mostrar Haven"),
        ("tray.quit", "Sair"),
        ("tray.tooltip", "Haven Desktop")
    ]
}

/// The value of the first entry of `table` whose key is `key`.
pub open spec fn table_get(table: Seq<(&'static str, &'static str)>, key: Seq<char>) -> Option<Seq<char>>
    decreases table.len(),
{
    if table.len() == 0 {
        None
    } else if table[0].0@ == key {
        Some(table[0].1@)
    } else {
        table_get(table.drop_first(), key)
    }
}

/// Portuguese messages for `pt-BR` and `pt` (any ASCII case), English otherwise.
pub open spec fn table_for(locale: Seq<char>) -> Seq<(&'static str, &'static str)> {
    if eq_ignore_case_spec(locale, "pt-BR"@) || eq_ignore_case_spec(locale, "pt"@) {
        pt_br_table()
    } else {
        en_table()
    }
}

pub open spec fn lookup_spec(locale: Seq<char>, key: Seq<char>) -> Option<Seq<char>> {
    table_get(table_for(locale), key)
}

fn table_find(table: &Vec<(&'static str, &'static str)>, key: &[char]) -> (r: Option<&'static str>)
    ensures
        match r {
            Some(v) => table_get(table@, key@) == Some(v@),
            None => table_get(table@, key@) is None,
        },
{
    let mut i: usize = 0;
    assert(table@.skip(0) =~= table@);
    while i < table.len()
        invariant
            i <= table.len(),
            table_get(table@, key@) == table_get(table@.skip(i as int), key@),
        decreases table.len() - i,
    {
        assert(table@.skip(i as int).drop_first() =~= table@.skip(i + 1));
        assert(table@.skip(i as int)[0] == table@[i as int]);
        let (k, v) = table[i];
        if chars_eq(&chars_of(k), key) {
            return Some(v);
        }
        i = i + 1;
    }
    None
}

/// The message for `key` in the table of `locale`.
pub fn lookup(locale: &str, key: &str) -> (r: Option<&'static str>)
    ensures
        match r {
            Some(v) => lookup_spec(locale@, key@) == Some(v@),
            None => lookup_spec(locale@, key@) is None,
        },
{
    let loc = chars_of(locale);
    let pt = eq_ignore_ascii_case(&loc, &chars_of("pt-BR")) || eq_ignore_ascii_case(
        &loc,
        &chars_of("pt"),
    );
    let table = if pt {
        pt_br_entries()
    } else {
        en_entries()
    };
    table_find(&table, &chars_of(key))
}

pub open spec fn placeholder(name: Seq<char>) -> Seq<char> {
    seq!['{'] + name + seq!['}']
}

/// Each `{name}` replaced by its value, pair by pair in order.
pub open spec fn fill_placeholders(message: Seq<char>, values: Seq<(Seq<char>, Seq<char>)>) -> Seq<char>
    decreases values.len(),
{
    if values.len() == 0 {
        message
    } else {
        fill_placeholders(
            replace_spec(message, placeholder(values[0].0), values[0].1),
            values.drop_first(),
        )
    }
}

pub open spec fn pairs_view(v: Seq<(String, String)>) -> Seq<(Seq<char>, Seq<char>)> {
    v.map_values(|p: (String, String)| (p.0@, p.1@))
}

/// The message for `key`: the locale's table, else English, else the key
/// itself; then the placeholders filled.
pub open spec fn translate_spec(locale: Seq<char>, key: Seq<char>, values: Seq<(Seq<char>, Seq<char>)>) -> Seq<char> {
    let message = match lookup_spec(locale, key) {
        Some(m) => m,
        None => match lookup_spec(en(), key) {
            Some(m) => m,
            None => key,
        },
    };
    fill_placeholders(message, values)
}

pub fn translate(locale: &str, key: &str, values: &[(String, String)]) -> (r: String)
    ensures
        r@ == translate_spec(locale@, key@, pairs_view(values@)),
{
    let found = match lookup(locale, key) {
        Some(m) => Some(m),
        None => lookup("en", key),
    };
    proof {
        reveal_strlit("en");
        assert("en"@ =~= en());
    }
    let mut message = match found {
        Some(m) => chars_of(m),
        None => chars_of(key),
    };
    let ghost vals = pairs_view(values@);
    let mut i: usize = 0;
    assert(vals.skip(0) =~= vals);
    while i < values.len()
        invariant
            i <= values.len(),
            vals == pairs_view(values@),
            translate_spec(locale@, key@, vals) == fill_placeholders(message@, vals.skip(i as int)),
        decreases values.len() - i,
    {
        let mut pat: Vec<char> = vec!['{'];
        push_all(&mut pat, &chars_of(values[i].0.as_str()));
        pat.push('}');
        assert(pat@ =~= placeholder(vals[i as int].0));
        let replaced = replace(&message, &pat, &chars_of(values[i].1.as_str()));
        assert(vals.skip(i as int).drop_first() =~= vals.skip(i + 1));
        message = replaced;
        i = i + 1;
    }
    string_of(&message)
}

pub open spec fn i18n_state_view(s: I18nState) -> (Seq<char>, Seq<char>, Seq<char>, bool, Seq<char>, Seq<LocaleView>) {
    (s.preference@, s.locale@, s.system_locale@, s.is_preference_stored, s.direction@, locales_view(s.supported_locales@))
}

/// The direction of the supported locale whose code is exactly `locale`,
/// `ltr` when there is none.
pub open spec fn direction_of(locs: Seq<LocaleView>, locale: Seq<char>) -> Seq<char>
    decreases locs.len(),
{
    if locs.len() == 0 {
        "ltr"@
    } else if locs[0].code == locale {
        locs[0].direction
    } else {
        direction_of(locs.drop_first(), locale)
    }
}

fn direction_for(locale: &str) -> (r: String)
    ensures
        r@ == direction_of(supported_locales_spec(), locale@),
{
    let locs = supported_locales();
    let loc = chars_of(locale);
    let mut i: usize = 0;
    assert(locales_view(locs@).skip(0) =~= locales_view(locs@));
    while i < locs.len()
        invariant
            i <= locs.len(),
            locales_view(locs@) == supported_locales_spec(),
            loc@ == locale@,
            direction_of(supported_locales_spec(), locale@) == direction_of(
                locales_view(locs@).skip(i as int),
                locale@,
            ),
        decreases locs.len() - i,
    {
        assert(locales_view(locs@).skip(i as int).drop_first() =~= locales_view(locs@).skip(i + 1));
        assert(locales_view(locs@).skip(i as int)[0] == locs@[i as int]@);
        if chars_eq(&chars_of(locs[i].code.as_str()), &loc) {
            return locs[i].direction.clone();
        }
        i = i + 1;
    }
    String::from_str("ltr")
}

pub fn build_state(
    preference: &str,
    locale: &str,
    system_locale: &str,
    is_preference_stored: bool,
) -> (r: I18nState)
    ensures
        i18n_state_view(r) == (
            preference@,
            locale@,
            system_locale@,
            is_preference_stored,
            direction_of(supported_locales_spec(), locale@),
            supported_locales_spec(),
        ),
{
    let direction = direction_for(locale);
    I18nState {
        preference: String::from_str(preference),
        locale: String::from_str(locale),
        system_locale: String::from_str(system_locale),
        is_preference_stored,
        direction,
        supported_locales: supported_locales(),
    }
}

} // verus!
