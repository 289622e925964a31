//! Notifications and unread badges: a notification's defaults, the names the
//! page shows for the servers with badges, how many servers have something
//! unread, and when the taskbar asks for attention.
use vstd::prelude::*;
use vstd::string::StringExecFns;
use crate::text::{chars_of, chars_eq};
use crate::weburl::{url_parse, ParsedUrl};
use crate::state::{normalize_server_url, normalize_server_url_spec};
use crate::history::{HistoryItem, ItemView, items_view};
use crate::session::{StrMap, strmap_view};

verus! {

/// What the page asks to be notified of.
pub struct NotifyOpts {
    pub title: Option<String>,
    pub body: Option<String>,
    pub silent: Option<bool>,
    pub channel_code: Option<String>,
}

/// A notification as shown: title (`Haven` by default), body (empty by
/// default) and whether it is silent (not by default).
pub struct Notification {
    pub title: String,
    pub body: String,
    pub silent: bool,
}

impl NotifyOpts {
    pub fn notification(&self) -> (r: Notification)
        ensures
            r.title@ == (match self.title { Some(t) => t@, None => "Haven"@ }),
            r.body@ == (match self.body { Some(b) => b@, None => Seq::<char>::empty() }),
            r.silent == (match self.silent { Some(s) => s, None => false }),
    {
        Notification {
            title: match &self.title {
                Some(t) => t.clone(),
                None => String::from_str("Haven"),
            },
            body: match &self.body {
                Some(b) => b.clone(),
                None => String::new(),
            },
            silent: match self.silent {
                Some(s) => s,
                None => false,
            },
        }
    }
}

// ---------------------------------------------------------------------------
// Server names
// ---------------------------------------------------------------------------

/// The name shown for the history entry `item`, whose address normalises
/// to `n`: its own name when that is set and differs from the address it
/// was saved under, else the host of `n`, else `n` itself.
pub open spec fn display_name_spec(item: ItemView, n: Seq<char>) -> Seq<char> {
    let raw = match item.url {
        Some(u) => u,
        None => Seq::empty(),
    };
    match item.name {
        Some(nm) if nm.len() > 0 && nm != raw => nm,
        _ => match url_parse(n) {
            Some(u) => match u.host {
                Some(h) => h,
                None => n,
            },
            None => n,
        },
    }
}

/// The names of the servers in the history, keyed by normal-form address
/// (a later entry for the same server wins); entries whose address does not
/// normalise are left out.
pub open spec fn server_names_spec(items: Seq<ItemView>) -> Map<Seq<char>, Seq<char>>
    decreases items.len(),
{
    if items.len() == 0 {
        Map::empty()
    } else {
        let prev = server_names_spec(items.drop_last());
        let it = items.last();
        match it.url {
            Some(u) => match normalize_server_url_spec(u) {
                Some(n) => prev.insert(n, display_name_spec(it, n)),
                None => prev,
            },
            None => prev,
        }
    }
}

fn display_name(item: &HistoryItem, n: &String) -> (r: String)
    ensures
        r@ == display_name_spec(item@, n@),
{
    let raw = match &item.url {
        Some(u) => chars_of(u.as_str()),
        None => Vec::new(),
    };
    assert(raw@ == (match item@.url { Some(u) => u, None => Seq::<char>::empty() }));
    let own = match &item.name {
        Some(nm) => {
            let v = chars_of(nm.as_str());
            v.len() > 0 && !chars_eq(&v, &raw)
        },
        None => false,
    };
    if own {
        match &item.name {
            Some(nm) => nm.clone(),
            None => n.clone(),
        }
    } else {
        match ParsedUrl::parse(n.as_str()) {
            Some(u) => match u.host {
                Some(h) => h,
                None => n.clone(),
            },
            None => n.clone(),
        }
    }
}

/// The names of the servers in the saved history.
pub fn server_names(items: &[HistoryItem]) -> (r: StrMap<String>)
    ensures
        r@.map_values(|s: String| s@) == server_names_spec(items_view(items@)),
{
    let mut out: StrMap<String> = StrMap::new();
    let ghost iv = items_view(items@);
    let mut i: usize = 0;
    assert(out@.map_values(|s: String| s@) =~= server_names_spec(iv.take(0)));
    while i < items.len()
        invariant
            i <= items.len(),
            iv == items_view(items@),
            out@.map_values(|s: String| s@) == server_names_spec(iv.take(i as int)),
        decreases items.len() - i,
    {
        let ghost before = out@;
        let item = &items[i];
        proof {
            let t = iv.take(i + 1);
            assert(t.drop_last() =~= iv.take(i as int));
            assert(t.last() == item@);
        }
        match &item.url {
            Some(u) => match normalize_server_url(u.as_str()) {
                Some(n) => {
                    let name = display_name(item, &n);
                    let ghost nv = n@;
                    let ghost namev = name@;
                    out.insert(n, name);
                    assert(out@.map_values(|s: String| s@) =~= before.map_values(|s: String| s@).insert(nv, namev));
                },
                None => {},
            },
            None => {},
        }
        proof {
            let t = iv.take(i + 1);
            assert(out@.map_values(|s: String| s@) =~= server_names_spec(t));
        }
        i = i + 1;
    }
    assert(iv.take(items.len() as int) =~= iv);
    out
}

// ---------------------------------------------------------------------------
// Unread badges
// ---------------------------------------------------------------------------

/// The servers with something unread.
pub open spec fn unread_set(m: Map<Seq<char>, bool>) -> Set<Seq<char>> {
    m.dom().filter(|k: Seq<char>| m[k])
}

proof fn lemma_strmap_finite<V>(s: Seq<(String, V)>)
    ensures
        strmap_view(s).dom().finite(),
    decreases s.len(),
{
    if s.len() > 0 {
        lemma_strmap_finite(s.drop_last());
    }
}

proof fn lemma_unread_insert(m: Map<Seq<char>, bool>, k: Seq<char>, v: bool)
    requires
        m.dom().finite(),
    ensures
        unread_set(m).finite(),
        unread_set(m).contains(k) ==> unread_set(m).len() >= 1,
        unread_set(m.insert(k, v)).finite(),
        unread_set(m.insert(k, v)).len() == unread_set(m).len() - (if m.contains_key(k) && m[k] { 1int } else { 0int })
            + (if v { 1int } else { 0int }),
{
    let s = unread_set(m);
    let m2 = m.insert(k, v);
    let s2 = unread_set(m2);
    assert(s.finite()) by {
        m.dom().lemma_len_filter(|x: Seq<char>| m[x]);
    }
    let base = s.remove(k);
    assert(base.finite());
    if v {
        assert(s2 =~= base.insert(k));
    } else {
        assert(s2 =~= base);
    }
    if m.contains_key(k) && m[k] {
        assert(s.contains(k));
        assert(base.len() + 1 == s.len());
    } else {
        assert(!s.contains(k));
        assert(base =~= s);
    }
}

/// Counts the servers with something unread.
pub fn unread_count(badges: &StrMap<bool>) -> (r: usize)
    ensures
        r == unread_set(badges@).len(),
{
    let mut seen: StrMap<bool> = StrMap::new();
    let mut count: usize = 0;
    let mut i: usize = 0;
    proof {
        assert(unread_set(seen@) =~= Set::<Seq<char>>::empty());
        assert(badges.entries@.take(0) =~= Seq::<(String, bool)>::empty());
    }
    while i < badges.entries.len()
        invariant
            i <= badges.entries.len(),
            seen@ == strmap_view(badges.entries@.take(i as int)),
            seen@.dom().finite(),
            count == unread_set(seen@).len(),
            count <= i,
        decreases badges.entries.len() - i,
    {
        let ghost before = seen@;
        let key = badges.entries[i].0.clone();
        let v = badges.entries[i].1;
        let was_unread = match seen.get(key.as_str()) {
            Some(b) => *b,
            None => false,
        };
        proof {
            lemma_unread_insert(before, key@, v);
            let t = badges.entries@.take(i + 1);
            assert(t.drop_last() =~= badges.entries@.take(i as int));
            assert(t.last() == badges.entries@[i as int]);
        }
        seen.insert(key, v);
        if was_unread {
            count = count - 1;
        }
        if v {
            count = count + 1;
        }
        i = i + 1;
    }
    assert(badges.entries@.take(badges.entries.len() as int) =~= badges.entries@);
    count
}

/// A server whose page reports something unread is counted as unread, and
/// one that reports nothing unread is not, whatever it reported before.
pub proof fn law_badge_decides_unread(m: Map<Seq<char>, bool>, server: Seq<char>, has_unread: bool)
    ensures
        unread_set(m.insert(server, has_unread)).contains(server) == has_unread,
{
}

/// The taskbar asks for attention while something is unread and the main
/// window does not have the focus.
pub fn wants_attention(unread: usize, focused: bool) -> (r: bool)
    ensures
        r == (unread > 0 && !focused),
{
    unread > 0 && !focused
}

} // verus!
