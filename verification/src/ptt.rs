//! Mute, deafen and push-to-talk keys: which inputs a binding listens to,
//! which inputs are held, and which voice event a key change sends.
use vstd::prelude::*;
use crate::text::{ascii_lowercase, chars_eq, chars_of, lower_ascii_seq};

verus! {

fn same_input(a: Input, b: Input) -> (r: bool)
    ensures
        r == (a == b),
{
    a.0 == b.0 && a.1 == b.1
}

fn is_lit(v: &[char], lit: &str) -> (r: bool)
    ensures
        r == (v@ == lit@),
{
    chars_eq(v, &chars_of(lit))
}

/// The X keysyms of the left and right keys of a modifier accelerator.
pub open spec fn modifier_keysyms_spec(accel: Seq<char>) -> Option<[&'static str; 2]> {
    if accel == "Control"@ || accel == "Ctrl"@ || accel == "CommandOrControl"@ || accel == "CmdOrCtrl"@ {
        Some(["Control_L", "Control_R"])
    } else if accel == "Alt"@ || accel == "Option"@ || accel == "AltGr"@ {
        Some(["Alt_L", "Alt_R"])
    } else if accel == "Shift"@ {
        Some(["Shift_L", "Shift_R"])
    } else if accel == "Meta"@ || accel == "Cmd"@ || accel == "Command"@ || accel == "Super"@ {
        Some(["Super_L", "Super_R"])
    } else {
        None
    }
}

pub fn modifier_keysyms(accel: &str) -> (r: Option<[&'static str; 2]>)
    ensures
        r == modifier_keysyms_spec(accel@),
{
    let a = chars_of(accel);
    if is_lit(&a, "Control") || is_lit(&a, "Ctrl") || is_lit(&a, "CommandOrControl") || is_lit(&a, "CmdOrCtrl") {
        Some(["Control_L", "Control_R"])
    } else if is_lit(&a, "Alt") || is_lit(&a, "Option") || is_lit(&a, "AltGr") {
        Some(["Alt_L", "Alt_R"])
    } else if is_lit(&a, "Shift") {
        Some(["Shift_L", "Shift_R"])
    } else if is_lit(&a, "Meta") || is_lit(&a, "Cmd") || is_lit(&a, "Command") || is_lit(&a, "Super") {
        Some(["Super_L", "Super_R"])
    } else {
        None
    }
}

/// The X button number of a mouse accelerator (ASCII case ignored).
pub open spec fn mouse_button_spec(accel: Seq<char>) -> Option<u32> {
    let a = lower_ascii_seq(accel);
    if a == "mouse3"@ || a == "middleclick"@ {
        Some(2)
    } else if a == "mouse4"@ {
        Some(8)
    } else if a == "mouse5"@ {
        Some(9)
    } else {
        None
    }
}

pub fn mouse_button(accel: &str) -> (r: Option<u32>)
    ensures
        r == mouse_button_spec(accel@),
{
    let a = ascii_lowercase(&chars_of(accel));
    if is_lit(&a, "mouse3") || is_lit(&a, "middleclick") {
        Some(2)
    } else if is_lit(&a, "mouse4") {
        Some(8)
    } else if is_lit(&a, "mouse5") {
        Some(9)
    } else {
        None
    }
}

// ---------------------------------------------------------------------------
// Bindings: input -> (name, hold)
// ---------------------------------------------------------------------------

/// An input: `(true, keycode)` for a key, `(false, button)` for a mouse button.
pub type Input = (bool, u32);

/// The bindings in the order they were set; a later binding of the same
/// input replaces an earlier one.
pub struct BindingTable {
    pub entries: Vec<(Input, String, bool)>,
}

pub open spec fn table_map(s: Seq<(Input, String, bool)>) -> Map<Input, (Seq<char>, bool)>
    decreases s.len(),
{
    if s.len() == 0 {
        Map::empty()
    } else {
        table_map(s.drop_last()).insert(s.last().0, (s.last().1@, s.last().2))
    }
}

impl View for BindingTable {
    type V = Map<Input, (Seq<char>, bool)>;

    open spec fn view(&self) -> Map<Input, (Seq<char>, bool)> {
        table_map(self.entries@)
    }
}

impl BindingTable {
    pub fn new() -> (r: BindingTable)
        ensures
            r@ == Map::<Input, (Seq<char>, bool)>::empty(),
    {
        BindingTable { entries: Vec::new() }
    }

    /// The binding of `input`, if any.
    pub fn get(&self, input: Input) -> (r: Option<(String, bool)>)
        ensures
            match r {
                Some(b) => self@.contains_key(input) && self@[input] == (b.0@, b.1),
                None => !self@.contains_key(input),
            },
    {
        let mut j: usize = self.entries.len();
        assert(self.entries@.take(j as int) =~= self.entries@);
        while j > 0
            invariant
                j <= self.entries.len(),
                forall|k: int| j <= k < self.entries.len() ==> (#[trigger] self.entries@[k]).0 != input,
                table_map(self.entries@).contains_key(input) == table_map(self.entries@.take(j as int)).contains_key(input),
                table_map(self.entries@).contains_key(input) ==> table_map(self.entries@)[input] == table_map(self.entries@.take(j as int))[input],
            decreases j,
        {
            let ghost t = self.entries@.take(j as int);
            assert(t.drop_last() =~= self.entries@.take(j - 1));
            assert(t.last() == self.entries@[j - 1]);
            let e = &self.entries[j - 1];
            if same_input(e.0, input) {
                return Some((e.1.clone(), e.2));
            }
            j = j - 1;
        }
        None
    }

    pub fn insert(&mut self, input: Input, name: String, hold: bool)
        ensures
            final(self)@ == old(self)@.insert(input, (name@, hold)),
    {
        let ghost before = self.entries@;
        self.entries.push((input, name, hold));
        assert(self.entries@.drop_last() =~= before);
    }
}

/// The inputs of one accelerator: its mouse button, else the keycodes that
/// the display gave for its modifier keysyms (listed by the caller in
/// `keycodes`), else none.
pub open spec fn accel_inputs(accel: Seq<char>, keycodes: Seq<u32>) -> Seq<Input> {
    match mouse_button_spec(accel) {
        Some(b) => seq![(false, b)],
        None => match modifier_keysyms_spec(accel) {
            Some(_) => keycodes.map_values(|k: u32| (true, k)),
            None => Seq::empty(),
        },
    }
}

pub open spec fn insert_all(m: Map<Input, (Seq<char>, bool)>, inputs: Seq<Input>, v: (Seq<char>, bool)) -> Map<Input, (Seq<char>, bool)>
    decreases inputs.len(),
{
    if inputs.len() == 0 {
        m
    } else {
        insert_all(m, inputs.drop_last(), v).insert(inputs.last(), v)
    }
}

/// One `(name, accelerator, hold)` entry per voice action, with the
/// keycodes resolved for it.
pub open spec fn bindings_spec(entries: Seq<(Seq<char>, Seq<char>, bool)>, keycodes: Seq<Seq<u32>>) -> (Map<Input, (Seq<char>, bool)>, Seq<Seq<char>>)
    decreases entries.len(),
{
    if entries.len() == 0 {
        (Map::empty(), Seq::empty())
    } else {
        let (m, served) = bindings_spec(entries.drop_last(), keycodes.drop_last());
        let e = entries.last();
        let ins = accel_inputs(e.1, keycodes.last());
        (insert_all(m, ins, (e.0, e.2)), if ins.len() > 0 { served.push(e.0) } else { served })
    }
}

pub open spec fn entries_view(v: Seq<(String, String, bool)>) -> Seq<(Seq<char>, Seq<char>, bool)> {
    v.map_values(|e: (String, String, bool)| (e.0@, e.1@, e.2))
}

pub open spec fn keycodes_view(v: Seq<Vec<u32>>) -> Seq<Seq<u32>> {
    v.map_values(|k: Vec<u32>| k@)
}

pub open spec fn names_view(v: Seq<String>) -> Seq<Seq<char>> {
    v.map_values(|s: String| s@)
}

/// The binding table for the configured voice keys, and the names of the
/// actions that this listener serves (those with at least one input).
/// `keycodes[i]` holds the keycodes of entry `i`'s modifier keysyms.
pub fn set_bindings(entries: &[(String, String, bool)], keycodes: &[Vec<u32>]) -> (r: (BindingTable, Vec<String>))
    requires
        keycodes.len() == entries.len(),
    ensures
        (r.0@, names_view(r.1@)) == bindings_spec(entries_view(entries@), keycodes_view(keycodes@)),
{
    let mut table = BindingTable::new();
    let mut served: Vec<String> = Vec::new();
    let mut i: usize = 0;
    while i < entries.len()
        invariant
            i <= entries.len() == keycodes.len(),
            (table@, names_view(served@)) == bindings_spec(entries_view(entries@).take(i as int), keycodes_view(keycodes@).take(i as int)),
        decreases entries.len() - i,
    {
        let ghost ev = entries_view(entries@).take(i + 1);
        let ghost kv = keycodes_view(keycodes@).take(i + 1);
        assert(ev.drop_last() =~= entries_view(entries@).take(i as int));
        assert(kv.drop_last() =~= keycodes_view(keycodes@).take(i as int));
        assert(ev.last() == (entries@[i as int].0@, entries@[i as int].1@, entries@[i as int].2));
        assert(kv.last() == keycodes@[i as int]@);
        let (name, accel, hold) = (&entries[i].0, &entries[i].1, entries[i].2);
        let mut inputs: Vec<Input> = Vec::new();
        match mouse_button(accel.as_str()) {
            Some(b) => {
                inputs.push((false, b));
                assert(inputs@ =~= seq![(false, b)]);
            },
            None => {
                if modifier_keysyms(accel.as_str()).is_some() {
                    let ks = &keycodes[i];
                    let mut k: usize = 0;
                    while k < ks.len()
                        invariant
                            k <= ks.len(),
                            inputs@ == ks@.take(k as int).map_values(|c: u32| (true, c)),
                        decreases ks.len() - k,
                    {
                        inputs.push((true, ks[k]));
                        k = k + 1;
                        assert(inputs@ =~= ks@.take(k as int).map_values(|c: u32| (true, c)));
                    }
                    assert(ks@.take(ks.len() as int) =~= ks@);
                }
            },
        }
        assert(inputs@ == accel_inputs(accel@, keycodes@[i as int]@));
        let ghost m0 = table@;
        let mut j: usize = 0;
        while j < inputs.len()
            invariant
                j <= inputs.len(),
                table@ == insert_all(m0, inputs@.take(j as int), (name@, hold)),
            decreases inputs.len() - j,
        {
            assert(inputs@.take(j + 1).drop_last() =~= inputs@.take(j as int));
            table.insert(inputs[j], name.clone(), hold);
            j = j + 1;
        }
        assert(inputs@.take(inputs.len() as int) =~= inputs@);
        if inputs.len() > 0 {
            let ghost before = names_view(served@);
            served.push(name.clone());
            assert(names_view(served@) =~= before.push(name@));
        }
        i = i + 1;
    }
    assert(entries_view(entries@).take(entries.len() as int) =~= entries_view(entries@));
    assert(keycodes_view(keycodes@).take(keycodes.len() as int) =~= keycodes_view(keycodes@));
    (table, served)
}

// ---------------------------------------------------------------------------
// Held inputs
// ---------------------------------------------------------------------------

/// The inputs that are down now.
pub struct HeldInputs {
    pub held: Vec<Input>,
}

impl View for HeldInputs {
    type V = Set<Input>;

    open spec fn view(&self) -> Set<Input> {
        self.held@.to_set()
    }
}

/// Some held input is bound to `name`.
pub open spec fn name_held(held: Set<Input>, m: Map<Input, (Seq<char>, bool)>, name: Seq<char>) -> bool {
    exists|i: Input| held.contains(i) && #[trigger] m.contains_key(i) && m[i].0 == name
}

/// The held set after a raw press or release of `input`.
pub open spec fn held_after(held: Set<Input>, input: Input, pressed: bool) -> Set<Input> {
    if pressed {
        held.insert(input)
    } else {
        held.remove(input)
    }
}

/// What a raw press or release does: inputs without a binding are ignored;
/// otherwise the held set changes, and the bound action fires (with its
/// hold flag and whether it is now down) exactly when whether any of its
/// inputs is held changes.
pub open spec fn input_event_spec(held: Set<Input>, m: Map<Input, (Seq<char>, bool)>, input: Input, pressed: bool) -> (Set<Input>, Option<(Seq<char>, bool, bool)>) {
    if !m.contains_key(input) {
        (held, None)
    } else {
        let (name, hold) = m[input];
        let after = held_after(held, input, pressed);
        let was = name_held(held, m, name);
        let now = name_held(after, m, name);
        (after, if was != now { Some((name, hold, now)) } else { None })
    }
}

impl HeldInputs {
    pub fn new() -> (r: HeldInputs)
        ensures
            r@ == Set::<Input>::empty(),
    {
        let r = HeldInputs { held: Vec::new() };
        assert(r@ =~= Set::<Input>::empty());
        r
    }

    fn any_held_named(&self, table: &BindingTable, name: &str) -> (r: bool)
        ensures
            r == name_held(self@, table@, name@),
    {
        let target = chars_of(name);
        let mut i: usize = 0;
        while i < self.held.len()
            invariant
                i <= self.held.len(),
                target@ == name@,
                forall|k: int| 0 <= k < i ==> !(#[trigger] table@.contains_key(self.held@[k]) && table@[self.held@[k]].0 == name@),
            decreases self.held.len() - i,
        {
            if let Some((n, _)) = table.get(self.held[i]) {
                if chars_eq(&chars_of(n.as_str()), &target) {
                    assert(self@.contains(self.held@[i as int]));
                    return true;
                }
            }
            i = i + 1;
        }
        assert forall|x: Input| self@.contains(x) implies !(#[trigger] table@.contains_key(x) && table@[x].0 == name@) by {
            let k = choose|k: int| 0 <= k < self.held@.len() && self.held@[k] == x;
        }
        false
    }

    fn press(&mut self, input: Input)
        ensures
            final(self)@ == old(self)@.insert(input),
    {
        let mut i: usize = 0;
        while i < self.held.len()
            invariant
                i <= self.held.len(),
                forall|k: int| 0 <= k < i ==> self.held@[k] != input,
            decreases self.held.len() - i,
        {
            if same_input(self.held[i], input) {
                assert(self@.contains(input));
                assert(self@.insert(input) =~= self@);
                return;
            }
            i = i + 1;
        }
        let ghost before = self.held@;
        self.held.push(input);
        proof {
            before.lemma_push_to_set_commute(input);
        }
    }

    fn release(&mut self, input: Input)
        ensures
            final(self)@ == old(self)@.remove(input),
    {
        let ghost before = self.held@;
        let mut kept: Vec<Input> = Vec::new();
        let mut i: usize = 0;
        assert(kept@.to_set() =~= before.take(0).to_set().remove(input));
        while i < self.held.len()
            invariant
                i <= self.held.len(),
                self.held@ == before,
                kept@.to_set() == before.take(i as int).to_set().remove(input),
            decreases self.held.len() - i,
        {
            let x = self.held[i];
            let ghost old_kept = kept@;
            proof {
                before.take(i as int).lemma_push_to_set_commute(x);
                assert(before.take(i + 1) =~= before.take(i as int).push(x));
            }
            if !same_input(x, input) {
                kept.push(x);
                proof {
                    old_kept.lemma_push_to_set_commute(x);
                }
                assert(kept@.to_set() =~= before.take(i + 1).to_set().remove(input));
            } else {
                assert(kept@.to_set() =~= before.take(i + 1).to_set().remove(input));
            }
            i = i + 1;
        }
        assert(before.take(before.len() as int) =~= before);
        self.held = kept;
    }

    /// A raw press or release of `input` under the current bindings; the
    /// action to fire, with its hold flag and whether it is now down.
    pub fn on_input(&mut self, table: &BindingTable, input: Input, pressed: bool) -> (r: Option<(String, bool, bool)>)
        ensures
            (final(self)@, match r {
                Some(f) => Some((f.0@, f.1, f.2)),
                None => None,
            }) == input_event_spec(old(self)@, table@, input, pressed),
    {
        let (name, hold) = match table.get(input) {
            Some(b) => b,
            None => return None,
        };
        let before = self.any_held_named(table, name.as_str());
        if pressed {
            self.press(input);
        } else {
            self.release(input);
        }
        let after = self.any_held_named(table, name.as_str());
        if before != after {
            Some((name, hold, after))
        } else {
            None
        }
    }
}

/// Key auto-repeat (another press of an input that is already down) and the
/// release of an input that is not down never fire anything.
pub proof fn law_repeat_never_fires(held: Set<Input>, m: Map<Input, (Seq<char>, bool)>, input: Input, pressed: bool)
    requires
        pressed == held.contains(input),
    ensures
        input_event_spec(held, m, input, pressed).1 is None,
        input_event_spec(held, m, input, pressed).0 == held,
{
    assert(held_after(held, input, pressed) =~= held);
}

// ---------------------------------------------------------------------------
// Voice events
// ---------------------------------------------------------------------------

/// Whether hold-mode push-to-talk is down.
pub struct PttState {
    pub down: bool,
}

/// The event a voice key sends, and whether push-to-talk is down after it.
/// Mute and deafen toggle on press. Push-to-talk in hold mode sends one
/// `ptt-down` on the first press and one `ptt-up` on the release; in toggle
/// mode it toggles on press.
pub open spec fn fire_spec(down: bool, key: Seq<char>, hold: bool, pressed: bool) -> (bool, Option<&'static str>) {
    if key == "mute"@ && pressed {
        (down, Some("voice:mute-toggle"))
    } else if key == "deafen"@ && pressed {
        (down, Some("voice:deafen-toggle"))
    } else if key == "ptt"@ && hold && pressed {
        (true, if !down { Some("voice:ptt-down") } else { None })
    } else if key == "ptt"@ && hold && !pressed {
        (false, if down { Some("voice:ptt-up") } else { None })
    } else if key == "ptt"@ && !hold && pressed {
        (down, Some("voice:ptt-toggle"))
    } else {
        (down, None)
    }
}

impl PttState {
    pub fn new() -> (r: PttState)
        ensures
            !r.down,
    {
        PttState { down: false }
    }

    /// Re-registering the shortcuts forgets a held push-to-talk.
    pub fn reset(&mut self)
        ensures
            !final(self).down,
    {
        self.down = false;
    }

    /// The event to send for a change of the voice key `key`.
    pub fn fire(&mut self, key: &str, hold: bool, pressed: bool) -> (r: Option<&'static str>)
        ensures
            (final(self).down, r) == fire_spec(old(self).down, key@, hold, pressed),
    {
        let k = chars_of(key);
        if is_lit(&k, "mute") && pressed {
            Some("voice:mute-toggle")
        } else if is_lit(&k, "deafen") && pressed {
            Some("voice:deafen-toggle")
        } else if is_lit(&k, "ptt") && hold && pressed {
            let was = self.down;
            self.down = true;
            if !was {
                Some("voice:ptt-down")
            } else {
                None
            }
        } else if is_lit(&k, "ptt") && hold && !pressed {
            let was = self.down;
            self.down = false;
            if was {
                Some("voice:ptt-up")
            } else {
                None
            }
        } else if is_lit(&k, "ptt") && !hold && pressed {
            Some("voice:ptt-toggle")
        } else {
            None
        }
    }
}

/// Hold-mode push-to-talk never sends two `ptt-down` without a `ptt-up`
/// between them: a press while down sends nothing, a release while up sends
/// nothing, and every `ptt-down` leaves it down and every `ptt-up` up.
pub proof fn law_ptt_hold_alternates(down: bool, pressed: bool)
    ensures
        fire_spec(down, "ptt"@, true, pressed).1 == Some("voice:ptt-down") ==> !down && fire_spec(down, "ptt"@, true, pressed).0,
        fire_spec(down, "ptt"@, true, pressed).1 == Some("voice:ptt-up") ==> down && !fire_spec(down, "ptt"@, true, pressed).0,
        pressed && down ==> fire_spec(down, "ptt"@, true, pressed).1 is None,
        !pressed && !down ==> fire_spec(down, "ptt"@, true, pressed).1 is None,
{
    reveal_strlit("ptt");
    reveal_strlit("mute");
    reveal_strlit("deafen");
    assert("ptt"@.len() != "mute"@.len());
    assert("ptt"@.len() != "deafen"@.len());
}

/// Mute and deafen are plain toggles: whatever the push-to-talk state and
/// mode, a press of the mute key sends exactly `voice:mute-toggle`, a press of
/// the deafen key exactly `voice:deafen-toggle`, their releases send nothing,
/// and none of them touches the push-to-talk state. In toggle mode a press of
/// the push-to-talk key sends exactly `voice:ptt-toggle` and its release
/// nothing; any other key sends nothing.
pub proof fn law_voice_keys_fire(down: bool, hold: bool, key: Seq<char>, pressed: bool)
    ensures
        fire_spec(down, "mute"@, hold, true) == (down, Some("voice:mute-toggle")),
        fire_spec(down, "deafen"@, hold, true) == (down, Some("voice:deafen-toggle")),
        fire_spec(down, "mute"@, hold, false) == (down, None::<&'static str>),
        fire_spec(down, "deafen"@, hold, false) == (down, None::<&'static str>),
        fire_spec(down, "ptt"@, false, true) == (down, Some("voice:ptt-toggle")),
        fire_spec(down, "ptt"@, false, false) == (down, None::<&'static str>),
        key != "mute"@ && key != "deafen"@ && key != "ptt"@ ==> fire_spec(down, key, hold, pressed) == (down, None::<&'static str>),
{
    reveal_strlit("ptt");
    reveal_strlit("mute");
    reveal_strlit("deafen");
    assert("ptt"@.len() != "mute"@.len());
    assert("ptt"@.len() != "deafen"@.len());
    assert("mute"@.len() != "deafen"@.len());
}

} // verus!
