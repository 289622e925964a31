//! Global shortcuts for mute, deafen and push-to-talk: merging the user's
//! changes into the stored configuration, the push-to-talk mode, what is
//! handed to the X11 key hook, and how each registration is reported.
use vstd::prelude::*;
use vstd::string::StringExecFns;
use crate::text::{chars_of, chars_eq};
use crate::weburl::opt_view;
use crate::session::StrMap;

verus! {

/// A stored setting: the stored value itself, and its text when it is a
/// string.
pub struct SettingValue<V> {
    pub raw: V,
    pub text: Option<String>,
}

/// The keys of the shortcut configuration that a change may set.
pub open spec fn is_shortcut_key_spec(k: Seq<char>) -> bool {
    k == "mute"@ || k == "deafen"@ || k == "ptt"@ || k == "pttMode"@
}

pub fn is_shortcut_key(k: &str) -> (r: bool)
    ensures
        r == is_shortcut_key_spec(k@),
{
    let c = chars_of(k);
    chars_eq(&c, &chars_of("mute")) || chars_eq(&c, &chars_of("deafen")) || chars_eq(&c, &chars_of("ptt"))
        || chars_eq(&c, &chars_of("pttMode"))
}

/// The configuration after the changes `ups`, taken in order: each change
/// of a shortcut key replaces the stored value, any other key is ignored.
pub open spec fn merge_spec<V>(m: Map<Seq<char>, V>, ups: Seq<(Seq<char>, V)>) -> Map<Seq<char>, V>
    decreases ups.len(),
{
    if ups.len() == 0 {
        m
    } else {
        let prev = merge_spec(m, ups.drop_last());
        if is_shortcut_key_spec(ups.last().0) {
            prev.insert(ups.last().0, ups.last().1)
        } else {
            prev
        }
    }
}

pub open spec fn updates_view<V>(ups: Seq<(String, V)>) -> Seq<(Seq<char>, V)> {
    ups.map_values(|u: (String, V)| (u.0@, u.1))
}

/// Merges the changes into the configuration.
pub fn merge_shortcut_updates<V>(cfg: &mut StrMap<V>, updates: Vec<(String, V)>)
    ensures
        final(cfg)@ == merge_spec(old(cfg)@, updates_view(updates@)),
{
    let ghost all = updates_view(updates@);
    let ghost start = cfg@;
    let mut rest = updates;
    let mut i: usize = 0;
    assert(all.take(0) =~= Seq::<(Seq<char>, V)>::empty());
    assert(all.len() == rest.len());
    assert(updates_view(rest@) =~= all.skip(0));
    while rest.len() > 0
        invariant
            i <= all.len(),
            all.len() <= usize::MAX,
            i + rest@.len() == all.len(),
            updates_view(rest@) == all.skip(i as int),
            cfg@ == merge_spec(start, all.take(i as int)),
        decreases rest.len(),
    {
        let ghost before_rest = rest@;
        let (k, v) = rest.remove(0);
        proof {
            assert(updates_view(before_rest)[0] == all[i as int]);
            assert(k@ == all[i as int].0);
            let t = all.take(i + 1);
            assert(t.drop_last() =~= all.take(i as int));
            assert(t.last() == all[i as int]);
            assert(rest@ =~= before_rest.drop_first());
            assert(updates_view(rest@) =~= updates_view(before_rest).drop_first());
            assert(updates_view(rest@) =~= all.skip(i + 1));
        }
        if is_shortcut_key(k.as_str()) {
            cfg.insert(k, v);
        }
        i = i + 1;
    }
    assert(all.take(all.len() as int) =~= all);
}

/// Registering shortcuts changes only the four shortcut settings: any other
/// key of the stored configuration keeps its value (or stays absent),
/// whatever the changes hold.
pub proof fn law_merge_keeps_other_settings<V>(m: Map<Seq<char>, V>, ups: Seq<(Seq<char>, V)>, k: Seq<char>)
    requires
        !is_shortcut_key_spec(k),
    ensures
        merge_spec(m, ups).contains_key(k) == m.contains_key(k),
        m.contains_key(k) ==> merge_spec(m, ups)[k] == m[k],
    decreases ups.len(),
{
    if ups.len() > 0 {
        law_merge_keeps_other_settings(m, ups.drop_last(), k);
    }
}

/// The last change of a shortcut key is the value stored for it.
pub proof fn law_last_change_wins<V>(m: Map<Seq<char>, V>, ups: Seq<(Seq<char>, V)>, k: Seq<char>, v: V)
    requires
        is_shortcut_key_spec(k),
    ensures
        merge_spec(m, ups.push((k, v))).contains_key(k),
        merge_spec(m, ups.push((k, v)))[k] == v,
{
    assert(ups.push((k, v)).drop_last() =~= ups);
}

/// The push-to-talk mode: `toggle` when so set, `hold` otherwise.
pub open spec fn ptt_mode_spec(text: Option<Seq<char>>) -> Seq<char> {
    if text == Some("toggle"@) {
        "toggle"@
    } else {
        "hold"@
    }
}

pub fn ptt_mode(text: Option<&str>) -> (r: &'static str)
    ensures
        r@ == ptt_mode_spec(match text { Some(t) => Some(t@), None => None }),
{
    let toggle = match text {
        Some(t) => chars_eq(&chars_of(t), &chars_of("toggle")),
        None => false,
    };
    if toggle {
        "toggle"
    } else {
        "hold"
    }
}

/// The text stored under `key`, when it is a string.
pub open spec fn setting_text_spec<V>(m: Map<Seq<char>, SettingValue<V>>, key: Seq<char>) -> Option<Seq<char>> {
    if m.contains_key(key) {
        opt_view(m[key].text)
    } else {
        None
    }
}

pub fn setting_text<V>(cfg: &StrMap<SettingValue<V>>, key: &str) -> (r: Option<String>)
    ensures
        opt_view(r) == setting_text_spec(cfg@, key@),
{
    match cfg.get(key) {
        Some(v) => v.text.clone(),
        None => None,
    }
}

/// The accelerator stored for a shortcut: its text, or empty.
pub open spec fn accel_spec<V>(m: Map<Seq<char>, SettingValue<V>>, key: Seq<char>) -> Seq<char> {
    match setting_text_spec(m, key) {
        Some(t) => t,
        None => Seq::empty(),
    }
}

fn accel_of<V>(cfg: &StrMap<SettingValue<V>>, key: &str) -> (r: String)
    ensures
        r@ == accel_spec(cfg@, key@),
{
    match setting_text(cfg, key) {
        Some(t) => t,
        None => String::new(),
    }
}

/// What the registration does with a configuration: the push-to-talk mode,
/// and for mute, deafen and push-to-talk in that order the name, the
/// accelerator and whether the key is held (push-to-talk in `hold` mode).
pub struct ShortcutPlan {
    pub ptt_mode: &'static str,
    pub hook_entries: Vec<(String, String, bool)>,
}

pub open spec fn entry_view(e: (String, String, bool)) -> (Seq<char>, Seq<char>, bool) {
    (e.0@, e.1@, e.2)
}

pub open spec fn plan_entries_spec<V>(m: Map<Seq<char>, SettingValue<V>>) -> Seq<(Seq<char>, Seq<char>, bool)> {
    let hold = ptt_mode_spec(setting_text_spec(m, "pttMode"@)) == "hold"@;
    seq![
        ("mute"@, accel_spec(m, "mute"@), false),
        ("deafen"@, accel_spec(m, "deafen"@), false),
        ("ptt"@, accel_spec(m, "ptt"@), hold),
    ]
}

/// The plan for a configuration.
pub fn shortcut_plan<V>(cfg: &StrMap<SettingValue<V>>) -> (r: ShortcutPlan)
    ensures
        r.ptt_mode@ == ptt_mode_spec(setting_text_spec(cfg@, "pttMode"@)),
        r.hook_entries@.map_values(|e: (String, String, bool)| entry_view(e)) == plan_entries_spec(cfg@),
{
    let mode_text = setting_text(cfg, "pttMode");
    let mode = match &mode_text {
        Some(t) => ptt_mode(Some(t.as_str())),
        None => ptt_mode(None),
    };
    proof {
        reveal_strlit("hold");
        reveal_strlit("toggle");
    }
    let hold = chars_eq(&chars_of(mode), &chars_of("hold"));
    let entries: Vec<(String, String, bool)> = vec![
        (String::from_str("mute"), accel_of(cfg, "mute"), false),
        (String::from_str("deafen"), accel_of(cfg, "deafen"), false),
        (String::from_str("ptt"), accel_of(cfg, "ptt"), hold),
    ];
    assert(entries@.map_values(|e: (String, String, bool)| entry_view(e)) =~= plan_entries_spec(cfg@));
    ShortcutPlan { ptt_mode: mode, hook_entries: entries }
}

/// Registering shortcuts: the changes are merged into the configuration,
/// and the plan for the merged configuration is returned.
pub fn shortcuts_register<V>(
    cfg: &mut StrMap<SettingValue<V>>,
    updates: Vec<(String, SettingValue<V>)>,
) -> (r: ShortcutPlan)
    ensures
        final(cfg)@ == merge_spec(old(cfg)@, updates_view(updates@)),
        r.ptt_mode@ == ptt_mode_spec(setting_text_spec(final(cfg)@, "pttMode"@)),
        r.hook_entries@.map_values(|e: (String, String, bool)| entry_view(e)) == plan_entries_spec(final(cfg)@),
{
    merge_shortcut_updates(cfg, updates);
    shortcut_plan(cfg)
}

/// A shortcut needs a global registration unless it is unset or the key
/// hook already serves it.
pub fn needs_registration(accel: &str, hooked: bool) -> (r: bool)
    ensures
        r == !(accel@.len() == 0 || hooked),
{
    !(chars_of(accel).len() == 0 || hooked)
}

/// How a shortcut's registration is reported.
pub enum ShortcutOutcome {
    Registered,
    /// the accelerator could not be parsed or was taken
    Conflict(String),
}

/// The report for a shortcut: `registered` is `None` when no registration
/// was needed, else whether parsing and registering the accelerator worked.
pub fn key_outcome(accel: &str, registered: Option<bool>) -> (r: ShortcutOutcome)
    ensures
        match registered {
            Some(false) => r matches ShortcutOutcome::Conflict(a) && a@ == accel@,
            _ => r is Registered,
        },
{
    match registered {
        Some(false) => ShortcutOutcome::Conflict(String::from_str(accel)),
        _ => ShortcutOutcome::Registered,
    }
}

/// Whether a served shortcut name is among the names the key hook took.
pub fn is_hooked(hooked: &[String], name: &str) -> (r: bool)
    ensures
        r == exists|i: int| 0 <= i < hooked@.len() && hooked@[i]@ == name@,
{
    let target = chars_of(name);
    let mut i: usize = 0;
    while i < hooked.len()
        invariant
            i <= hooked.len(),
            target@ == name@,
            forall|j: int| 0 <= j < i ==> hooked@[j]@ != name@,
        decreases hooked.len() - i,
    {
        if chars_eq(&chars_of(hooked[i].as_str()), &target) {
            return true;
        }
        i = i + 1;
    }
    false
}

} // verus!
