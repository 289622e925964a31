//! The servers of the running session: which one is showing, which one is
//! the user's own (primary), their unread badges and the addresses each
//! server's page reported as its own.
use vstd::prelude::*;
use vstd::string::StringExecFns;
use crate::text::{chars_eq, chars_of};
use crate::weburl::opt_view;
use crate::state::{normalize_server_url, normalize_server_url_spec};
use crate::history::{EntryView, history_remove_spec};
use crate::nav_fail::{other_from_history, other_server_spec};

verus! {

/// A small map keyed by strings, kept as the list of its insertions; a
/// later insertion of a key replaces the earlier one.
pub struct StrMap<V> {
    pub entries: Vec<(String, V)>,
}

pub open spec fn strmap_view<V>(s: Seq<(String, V)>) -> Map<Seq<char>, V>
    decreases s.len(),
{
    if s.len() == 0 {
        Map::empty()
    } else {
        strmap_view(s.drop_last()).insert(s.last().0@, s.last().1)
    }
}

impl<V> View for StrMap<V> {
    type V = Map<Seq<char>, V>;

    open spec fn view(&self) -> Map<Seq<char>, V> {
        strmap_view(self.entries@)
    }
}

proof fn lemma_strmap_filter<V>(s: Seq<(String, V)>, key: Seq<char>, pred: spec_fn((String, V)) -> bool)
    requires
        forall|e: (String, V)| #[trigger] pred(e) == (e.0@ != key),
    ensures
        strmap_view(s.filter(pred)) == strmap_view(s).remove(key),
    decreases s.len(),
{
    reveal_with_fuel(Seq::filter, 1);
    if s.len() == 0 {
        assert(strmap_view(s).remove(key) =~= Map::empty());
    } else {
        lemma_strmap_filter(s.drop_last(), key, pred);
        if pred(s.last()) {
            assert(s.filter(pred) == s.drop_last().filter(pred).push(s.last()));
            assert(s.drop_last().filter(pred).push(s.last()).drop_last() =~= s.drop_last().filter(pred));
            assert(strmap_view(s.filter(pred)) =~= strmap_view(s).remove(key));
        } else {
            assert(strmap_view(s.filter(pred)) =~= strmap_view(s).remove(key));
        }
    }
}

impl<V> StrMap<V> {
    pub fn new() -> (r: StrMap<V>)
        ensures
            r@ == Map::<Seq<char>, V>::empty(),
    {
        StrMap { entries: Vec::new() }
    }

    pub fn insert(&mut self, key: String, value: V)
        ensures
            final(self)@ == old(self)@.insert(key@, value),
    {
        let ghost before = self.entries@;
        self.entries.push((key, value));
        assert(self.entries@.drop_last() =~= before);
    }

    pub fn get(&self, key: &str) -> (r: Option<&V>)
        ensures
            match r {
                Some(v) => self@.contains_key(key@) && self@[key@] == *v,
                None => !self@.contains_key(key@),
            },
    {
        let target = chars_of(key);
        let mut j: usize = self.entries.len();
        assert(self.entries@.take(j as int) =~= self.entries@);
        while j > 0
            invariant
                j <= self.entries.len(),
                target@ == key@,
                strmap_view(self.entries@).contains_key(key@) == strmap_view(self.entries@.take(j as int)).contains_key(key@),
                strmap_view(self.entries@).contains_key(key@) ==> strmap_view(self.entries@)[key@] == strmap_view(self.entries@.take(j as int))[key@],
            decreases j,
        {
            let ghost t = self.entries@.take(j as int);
            assert(t.drop_last() =~= self.entries@.take(j - 1));
            assert(t.last() == self.entries@[j - 1]);
            if chars_eq(&chars_of(self.entries[j - 1].0.as_str()), &target) {
                return Some(&self.entries[j - 1].1);
            }
            j = j - 1;
        }
        None
    }

    pub fn remove(&mut self, key: &str)
        ensures
            final(self)@ == old(self)@.remove(key@),
    {
        let target = chars_of(key);
        let ghost before = self.entries@;
        let ghost pred = |e: (String, V)| e.0@ != key@;
        let mut kept: Vec<(String, V)> = Vec::new();
        let mut old_entries: Vec<(String, V)> = Vec::new();
        std::mem::swap(&mut old_entries, &mut self.entries);
        let mut rest = old_entries;
        let mut i: usize = 0;
        assert(before.len() == rest.len());
        assert(rest@ =~= before.skip(0));
        while rest.len() > 0
            invariant
                target@ == key@,
                pred == (|e: (String, V)| e.0@ != key@),
                i <= before.len(),
                i + rest@.len() == before.len(),
                before.len() <= usize::MAX,
                rest@ == before.skip(i as int),
                kept@ == before.take(i as int).filter(pred),
            decreases rest.len(),
        {
            let e = rest.remove(0);
            assert(e == before[i as int]);
            let ghost t = before.take(i + 1);
            assert(t.drop_last() =~= before.take(i as int));
            assert(t.last() == before[i as int]);
            reveal_with_fuel(Seq::filter, 1);
            if !chars_eq(&chars_of(e.0.as_str()), &target) {
                kept.push(e);
            }
            i = i + 1;
            assert(rest@ =~= before.skip(i as int));
            assert(kept@ =~= before.take(i as int).filter(pred));
        }
        assert(before.take(before.len() as int) =~= before);
        proof {
            lemma_strmap_filter(before, key@, pred);
        }
        self.entries = kept;
    }

    pub fn clear(&mut self)
        ensures
            final(self)@ == Map::<Seq<char>, V>::empty(),
    {
        self.entries = Vec::new();
    }
}


/// The entry at `i` is the last one for its key.
pub open spec fn latest_at<V>(s: Seq<(String, V)>, i: int) -> bool {
    0 <= i < s.len() && forall|j: int| i < j < s.len() ==> #[trigger] s[j].0@ != s[i].0@
}

/// The map holds the last entry of each key.
pub proof fn lemma_strmap_latest<V>(s: Seq<(String, V)>, i: int)
    requires
        latest_at(s, i),
    ensures
        strmap_view(s).contains_key(s[i].0@),
        strmap_view(s)[s[i].0@] == s[i].1,
    decreases s.len(),
{
    if i < s.len() - 1 {
        assert(s.last().0@ != s[i].0@) by {
            assert(s[s.len() - 1].0@ != s[i].0@);
        }
        assert forall|j: int| i < j < s.drop_last().len() implies #[trigger] s.drop_last()[j].0@ != s.drop_last()[i].0@ by {
            assert(s.drop_last()[j] == s[j]);
        }
        lemma_strmap_latest(s.drop_last(), i);
    }
}

/// Every key of the map has a last entry.
pub proof fn lemma_strmap_key_latest<V>(s: Seq<(String, V)>, k: Seq<char>)
    requires
        strmap_view(s).contains_key(k),
    ensures
        exists|i: int| latest_at(s, i) && s[i].0@ == k,
    decreases s.len(),
{
    if s.last().0@ == k {
        assert(latest_at(s, s.len() - 1) && s[s.len() - 1].0@ == k);
    } else {
        lemma_strmap_key_latest(s.drop_last(), k);
        let i = choose|i: int| latest_at(s.drop_last(), i) && s.drop_last()[i].0@ == k;
        assert(s.drop_last()[i] == s[i]);
        assert forall|j: int| i < j < s.len() implies #[trigger] s[j].0@ != s[i].0@ by {
            if j < s.len() - 1 {
                assert(s.drop_last()[j] == s[j]);
            }
        }
        assert(latest_at(s, i) && s[i].0@ == k);
    }
}

impl<V> StrMap<V> {
    /// Whether the entry at `i` is the last one for its key.
    pub fn is_latest(&self, i: usize) -> (r: bool)
        requires
            i < self.entries@.len(),
        ensures
            r == latest_at(self.entries@, i as int),
    {
        let n = self.entries.len();
        let key = chars_of(self.entries[i].0.as_str());
        let mut j: usize = i + 1;
        while j < self.entries.len()
            invariant
                i < j <= self.entries.len(),
                key@ == self.entries@[i as int].0@,
                forall|m: int| i < m < j ==> #[trigger] self.entries@[m].0@ != self.entries@[i as int].0@,
            decreases self.entries.len() - j,
        {
            if chars_eq(&chars_of(self.entries[j].0.as_str()), &key) {
                return false;
            }
            j = j + 1;
        }
        true
    }
}

// ---------------------------------------------------------------------------
// The session
// ---------------------------------------------------------------------------

pub struct ServerSession {
    /// the server the main window shows
    pub active: Option<String>,
    /// the user's own server, where "Go Back to My Server" leads
    pub primary: Option<String>,
    /// per server: whether it has anything unread
    pub badges: StrMap<bool>,
    /// per server: the other server addresses its page reported
    pub known: StrMap<Vec<String>>,
}

pub open spec fn strings_set(v: Seq<String>) -> Set<Seq<char>> {
    v.map_values(|s: String| s@).to_set()
}

impl ServerSession {
    pub fn new() -> (r: ServerSession)
        ensures
            r.active is None,
            r.primary is None,
            r.badges@ == Map::<Seq<char>, bool>::empty(),
            r.known@ == Map::<Seq<char>, Vec<String>>::empty(),
    {
        ServerSession { active: None, primary: None, badges: StrMap::new(), known: StrMap::new() }
    }

    /// The main window opened the server `normalized`: it is active, and it
    /// becomes the primary server when there is none yet.
    pub fn open_app(&mut self, normalized: &str)
        ensures
            opt_view(final(self).active) == Some(normalized@),
            opt_view(final(self).primary) == (match old(self).primary {
                Some(p) => Some(p@),
                None => Some(normalized@),
            }),
            final(self).badges@ == old(self).badges@,
            final(self).known@ == old(self).known@,
    {
        self.active = Some(String::from_str(normalized));
        if self.primary.is_none() {
            self.primary = Some(String::from_str(normalized));
        }
    }

    /// Back to the Welcome window: no server is active or primary.
    pub fn back_to_welcome(&mut self)
        ensures
            final(self).active is None,
            final(self).primary is None,
            final(self).badges@ == old(self).badges@,
            final(self).known@ == old(self).known@,
    {
        self.active = None;
        self.primary = None;
    }

    /// Switching the main window to another server; `Err` (and no change)
    /// when the address does not normalise.
    pub fn switch_server(&mut self, server_url: &str) -> (r: Result<String, String>)
        ensures
            match normalize_server_url_spec(server_url@) {
                Some(n) => r matches Ok(s) && s@ == n && opt_view(final(self).active) == Some(n)
                    && final(self).primary == old(self).primary,
                None => r is Err && final(self).active == old(self).active && final(self).primary == old(self).primary,
            },
            final(self).badges@ == old(self).badges@,
            final(self).known@ == old(self).known@,
    {
        match normalize_server_url(server_url) {
            Some(n) => {
                self.active = Some(n.clone());
                Ok(n)
            },
            None => Err(String::from_str("invalid server URL")),
        }
    }

    /// Making another server the user's own: it becomes primary and active,
    /// and the badges and reported addresses of the old servers are dropped;
    /// `Err` (and no change) when the address does not normalise.
    pub fn change_primary_server(&mut self, server_url: &str) -> (r: Result<String, String>)
        ensures
            match normalize_server_url_spec(server_url@) {
                Some(n) => r matches Ok(s) && s@ == n && opt_view(final(self).active) == Some(n)
                    && opt_view(final(self).primary) == Some(n)
                    && final(self).badges@ == Map::<Seq<char>, bool>::empty()
                    && final(self).known@ == Map::<Seq<char>, Vec<String>>::empty(),
                None => r is Err && final(self).active == old(self).active && final(self).primary == old(self).primary
                    && final(self).badges@ == old(self).badges@ && final(self).known@ == old(self).known@,
            },
    {
        match normalize_server_url(server_url) {
            Some(n) => {
                self.primary = Some(n.clone());
                self.active = Some(n.clone());
                self.badges.clear();
                self.known.clear();
                Ok(n)
            },
            None => Err(String::from_str("invalid server URL")),
        }
    }

    /// The active server's page reported whether it has anything unread.
    pub fn set_badge(&mut self, has_unread: bool)
        ensures
            final(self).badges@ == (match old(self).active {
                Some(a) => old(self).badges@.insert(a@, has_unread),
                None => old(self).badges@,
            }),
            final(self).active == old(self).active,
            final(self).primary == old(self).primary,
            final(self).known@ == old(self).known@,
    {
        if let Some(a) = &self.active {
            let key = a.clone();
            self.badges.insert(key, has_unread);
        }
    }

    /// The active server's page reported the addresses of the servers it
    /// knows; they are kept in normal form, those that do not normalise
    /// dropped.
    pub fn report_known_server_urls(&mut self, urls: &[String])
        ensures
            match old(self).active {
                Some(a) => final(self).known@.contains_key(a@) && final(self).known@ == old(self).known@.insert(a@, final(self).known@[a@])
                    && strings_set(final(self).known@[a@]@) == normalized_set(urls@),
                None => final(self).known@ == old(self).known@,
            },
            final(self).active == old(self).active,
            final(self).primary == old(self).primary,
            final(self).badges@ == old(self).badges@,
    {
        if let Some(a) = &self.active {
            let key = a.clone();
            let set = normalize_all(urls);
            self.known.insert(key, set);
        }
    }

    /// Forgetting a server the user removed from the history: it stops being
    /// primary, and its badge and reported addresses are dropped.
    pub fn forget_server(&mut self, removed: &str)
        ensures
            opt_view(final(self).primary) == (match old(self).primary {
                Some(p) => if p@ == removed@ { None } else { Some(p@) },
                None => None,
            }),
            final(self).active == old(self).active,
            final(self).badges@ == old(self).badges@.remove(removed@),
            final(self).known@ == old(self).known@.remove(removed@),
    {
        let is_primary = match &self.primary {
            Some(p) => chars_eq(&chars_of(p.as_str()), &chars_of(removed)),
            None => false,
        };
        if is_primary {
            self.primary = None;
        }
        self.known.remove(removed);
        self.badges.remove(removed);
    }

    /// The main window shows a server other than the user's own, so the tray
    /// offers "Back to my server" instead of "Change server".
    pub fn is_away(&self) -> (r: bool)
        ensures
            r == (self.active is Some && self.primary is Some && opt_view(self.active) != opt_view(self.primary)),
    {
        match (&self.active, &self.primary) {
            (Some(a), Some(p)) => !chars_eq(&chars_of(a.as_str()), &chars_of(p.as_str())),
            _ => false,
        }
    }
}

/// The normal forms of the addresses that normalise.
pub open spec fn normalized_set(urls: Seq<String>) -> Set<Seq<char>> {
    Set::new(|n: Seq<char>| exists|i: int| 0 <= i < urls.len() && normalize_server_url_spec(#[trigger] urls[i]@) == Some(n))
}

fn normalize_all(urls: &[String]) -> (r: Vec<String>)
    ensures
        strings_set(r@) == normalized_set(urls@),
{
    let mut out: Vec<String> = Vec::new();
    let mut i: usize = 0;
    while i < urls.len()
        invariant
            i <= urls.len(),
            forall|n: Seq<char>| strings_set(out@).contains(n) <==> exists|k: int| 0 <= k < i && normalize_server_url_spec(#[trigger] urls@[k]@) == Some(n),
        decreases urls.len() - i,
    {
        let ghost before = out@;
        let ghost old_set = strings_set(before);
        let r = normalize_server_url(urls[i].as_str());
        if let Some(n) = r {
            out.push(n);
            assert(out@.map_values(|s: String| s@) =~= before.map_values(|s: String| s@).push(out@.last()@));
            proof {
                before.map_values(|s: String| s@).lemma_push_to_set_commute(out@.last()@);
            }
            assert(strings_set(out@) == old_set.insert(out@.last()@));
        }
        assert forall|m: Seq<char>| strings_set(out@).contains(m) implies exists|k: int| 0 <= k < i + 1 && normalize_server_url_spec(#[trigger] urls@[k]@) == Some(m) by {
            if old_set.contains(m) {
                let k = choose|k: int| 0 <= k < i && normalize_server_url_spec(#[trigger] urls@[k]@) == Some(m);
                assert(0 <= k < i + 1 && normalize_server_url_spec(urls@[k]@) == Some(m));
            } else {
                assert(normalize_server_url_spec(urls@[i as int]@) == Some(m));
            }
        }
        assert forall|m: Seq<char>| (exists|k: int| 0 <= k < i + 1 && normalize_server_url_spec(#[trigger] urls@[k]@) == Some(m)) implies strings_set(out@).contains(m) by {
            let k = choose|k: int| 0 <= k < i + 1 && normalize_server_url_spec(#[trigger] urls@[k]@) == Some(m);
            if k < i {
                assert(old_set.contains(m));
            }
        }
        i = i + 1;
    }
    assert(strings_set(out@) =~= normalized_set(urls@));
    out
}

/// The remembered server (`userPrefs.serverUrl`) is the removed one, so it
/// must be cleared too.
pub fn remembered_is_removed(remembered: Option<&str>, removed: &str) -> (r: bool)
    ensures
        r == (match remembered {
            Some(m) => normalize_server_url_spec(m@) == Some(removed@),
            None => false,
        }),
{
    match remembered {
        Some(m) => match normalize_server_url(m) {
            Some(n) => chars_eq(&chars_of(n.as_str()), &chars_of(removed)),
            None => false,
        },
        None => false,
    }
}

pub open spec fn history_urls(h: Seq<EntryView>) -> Seq<Option<Seq<char>>> {
    h.map_values(|e: EntryView| Some(e.url))
}

/// Every address is its own normal form.
pub open spec fn all_normal(h: Seq<EntryView>) -> bool {
    forall|i: int| 0 <= i < h.len() ==> normalize_server_url_spec(#[trigger] h[i].url) == Some(h[i].url)
}

proof fn lemma_history_never_gives(h: Seq<EntryView>, n: Seq<char>, active: Seq<char>)
    requires
        all_normal(h),
        forall|i: int| 0 <= i < h.len() ==> #[trigger] h[i].url != n,
    ensures
        other_from_history(history_urls(h), active) != Some(n),
    decreases h.len(),
{
    if h.len() > 0 {
        let hu = history_urls(h);
        assert(hu.drop_last() =~= history_urls(h.drop_last()));
        assert(hu.last() == Some(h.last().url));
        assert(normalize_server_url_spec(h[h.len() - 1].url) == Some(h[h.len() - 1].url));
        assert forall|i: int| 0 <= i < h.drop_last().len() implies normalize_server_url_spec(#[trigger] h.drop_last()[i].url) == Some(h.drop_last()[i].url) by {
            assert(h.drop_last()[i] == h[i]);
        }
        assert forall|i: int| 0 <= i < h.drop_last().len() implies #[trigger] h.drop_last()[i].url != n by {
            assert(h.drop_last()[i] == h[i]);
        }
        lemma_history_never_gives(h.drop_last(), n, active);
    }
}

/// A removed server does not come back: once it is removed from the history
/// (whose addresses are in normal form, as the cleaned-up history keeps
/// them), no longer primary, and cleared as the remembered server when that
/// names it, "Go Back to My Server" does not lead to it.
pub proof fn law_removed_server_does_not_come_back(
    h: Seq<EntryView>,
    url: Seq<char>,
    active: Option<Seq<char>>,
    primary: Option<Seq<char>>,
    remembered: Option<Seq<char>>,
)
    requires
        normalize_server_url_spec(url) is Some,
        all_normal(h),
    ensures
        ({
            let n = normalize_server_url_spec(url)->0;
            let primary2 = if primary == Some(n) { None } else { primary };
            let remembered2 = match remembered {
                Some(m) => if normalize_server_url_spec(m) == Some(n) { None } else { remembered },
                None => None,
            };
            other_server_spec(active, primary2, remembered2, history_urls(history_remove_spec(h, url))) != Some(n)
        }),
{
    broadcast use vstd::seq_lib::group_filter_ensures;
    let n = normalize_server_url_spec(url)->0;
    let pred = |e: EntryView| e.url != n;
    let h2 = h.filter(pred);
    assert(history_remove_spec(h, url) == h2);
    assert forall|i: int| 0 <= i < h2.len() implies #[trigger] h2[i].url != n by {
        assert(pred(h2[i]));
    }
    assert forall|i: int| 0 <= i < h2.len() implies normalize_server_url_spec(#[trigger] h2[i].url) == Some(h2[i].url) by {
        assert(h2.contains(h2[i]));
        h.lemma_filter_contains_rev(pred, h2[i]);
        let k = choose|k: int| 0 <= k < h.len() && h[k] == h2[i];
        assert(normalize_server_url_spec(h[k].url) == Some(h[k].url));
    }
    let a = match active { Some(x) => x, None => Seq::empty() };
    lemma_history_never_gives(h2, n, a);
}

} // verus!
