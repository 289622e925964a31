//! The saved list of servers the user has joined.
use vstd::prelude::*;
use vstd::string::StringExecFns;
use crate::text::{chars_eq, chars_of};
use crate::state::{normalize_server_url, normalize_server_url_spec};
use crate::weburl::opt_view;

verus! {

/// The longest history that is kept; older entries drop off the front.
pub const HISTORY_LIMIT: usize = 20;

/// A saved entry as read back from the settings store, each field present
/// only when it has the expected JSON type.
pub struct HistoryItem {
    pub url: Option<String>,
    pub name: Option<String>,
    pub last_connected: Option<u64>,
}

/// A history entry: a normalised server address, its display name and the
/// time of the last connection (milliseconds since the epoch, 0 if never).
pub struct HistoryEntry {
    pub url: String,
    pub name: String,
    pub last_connected: u64,
}

pub struct ItemView {
    pub url: Option<Seq<char>>,
    pub name: Option<Seq<char>>,
    pub last_connected: Option<u64>,
}

pub struct EntryView {
    pub url: Seq<char>,
    pub name: Seq<char>,
    pub last_connected: u64,
}

impl View for HistoryItem {
    type V = ItemView;

    open spec fn view(&self) -> ItemView {
        ItemView { url: opt_view(self.url), name: opt_view(self.name), last_connected: self.last_connected }
    }
}

impl View for HistoryEntry {
    type V = EntryView;

    open spec fn view(&self) -> EntryView {
        EntryView { url: self.url@, name: self.name@, last_connected: self.last_connected }
    }
}

impl HistoryEntry {
    pub fn clone_entry(&self) -> (r: HistoryEntry)
        ensures
            r@ == self@,
    {
        HistoryEntry { url: self.url.clone(), name: self.name.clone(), last_connected: self.last_connected }
    }
}

pub open spec fn items_view(v: Seq<HistoryItem>) -> Seq<ItemView> {
    v.map_values(|i: HistoryItem| i@)
}

pub open spec fn entries_view(v: Seq<HistoryEntry>) -> Seq<EntryView> {
    v.map_values(|e: HistoryEntry| e@)
}

pub open spec fn has_url(h: Seq<EntryView>, url: Seq<char>) -> bool {
    exists|i: int| 0 <= i < h.len() && #[trigger] h[i].url == url
}

/// No address occurs twice.
pub open spec fn urls_unique(h: Seq<EntryView>) -> bool {
    forall|i: int, j: int| 0 <= i < j < h.len() ==> #[trigger] h[i].url != #[trigger] h[j].url
}

pub open spec fn unwrap_or_seq(o: Option<Seq<char>>, d: Seq<char>) -> Seq<char> {
    match o {
        Some(s) => s,
        None => d,
    }
}

/// The stored history cleaned up: entries whose address does not normalise
/// are dropped, later duplicates of an address are dropped, a missing name
/// becomes the address and a missing time becomes 0.
pub open spec fn sanitize_spec(items: Seq<ItemView>) -> Seq<EntryView>
    decreases items.len(),
{
    if items.len() == 0 {
        Seq::empty()
    } else {
        let prev = sanitize_spec(items.drop_last());
        let it = items.last();
        match normalize_server_url_spec(unwrap_or_seq(it.url, Seq::empty())) {
            None => prev,
            Some(n) => if has_url(prev, n) {
                prev
            } else {
                prev.push(
                    EntryView {
                        url: n,
                        name: unwrap_or_seq(it.name, n),
                        last_connected: match it.last_connected {
                            Some(t) => t,
                            None => 0,
                        },
                    },
                )
            },
        }
    }
}

/// Position of the entry for `url`, if there is one.
pub fn find_url(history: &Vec<HistoryEntry>, url: &str) -> (r: Option<usize>)
    ensures
        match r {
            Some(k) => k < history.len() && history@[k as int]@.url == url@ && forall|j: int|
                0 <= j < k ==> history@[j]@.url != url@,
            None => !has_url(entries_view(history@), url@),
        },
{
    let target = chars_of(url);
    let mut i: usize = 0;
    while i < history.len()
        invariant
            i <= history.len(),
            target@ == url@,
            forall|j: int| 0 <= j < i ==> history@[j]@.url != url@,
        decreases history.len() - i,
    {
        if chars_eq(&chars_of(history[i].url.as_str()), &target) {
            return Some(i);
        }
        i = i + 1;
    }
    assert forall|j: int| 0 <= j < history.len() implies #[trigger] entries_view(history@)[j].url
        != url@ by {
        assert(entries_view(history@)[j] == history@[j]@);
    }
    None
}

pub fn sanitize_server_history(list: &[HistoryItem]) -> (r: Vec<HistoryEntry>)
    ensures
        entries_view(r@) == sanitize_spec(items_view(list@)),
{
    let mut out: Vec<HistoryEntry> = Vec::new();
    let mut i: usize = 0;
    while i < list.len()
        invariant
            i <= list.len(),
            entries_view(out@) == sanitize_spec(items_view(list@).take(i as int)),
        decreases list.len() - i,
    {
        let ghost prefix = items_view(list@).take(i + 1);
        assert(prefix.drop_last() =~= items_view(list@).take(i as int));
        assert(prefix.last() == list@[i as int]@);
        let item = &list[i];
        let raw = match &item.url {
            Some(u) => u.clone(),
            None => String::new(),
        };
        assert(raw@ == unwrap_or_seq(item@.url, Seq::empty()));
        let ghost prev = entries_view(out@);
        if let Some(n) = normalize_server_url(raw.as_str()) {
            let found = find_url(&out, n.as_str());
            if let Some(k) = found {
                assert(prev[k as int].url == n@);
                assert(has_url(prev, n@));
                assert(entries_view(out@) == sanitize_spec(prefix));
            }
            if found.is_none() {
                let name = match &item.name {
                    Some(s) => s.clone(),
                    None => n.clone(),
                };
                let last = match item.last_connected {
                    Some(t) => t,
                    None => 0,
                };
                out.push(HistoryEntry { url: n, name, last_connected: last });
                assert(entries_view(out@) =~= sanitize_spec(prefix));
            }
        } else {
            assert(entries_view(out@) == sanitize_spec(prefix));
        }
        i = i + 1;
    }
    assert(items_view(list@).take(list.len() as int) =~= items_view(list@));
    out
}

/// The cleaned-up history never holds an address twice.
pub proof fn law_sanitized_history_unique(items: Seq<ItemView>)
    ensures
        urls_unique(sanitize_spec(items)),
    decreases items.len(),
{
    if items.len() > 0 {
        law_sanitized_history_unique(items.drop_last());
        let prev = sanitize_spec(items.drop_last());
        let r = sanitize_spec(items);
        assert forall|i: int, j: int| 0 <= i < j < r.len() implies #[trigger] r[i].url
            != #[trigger] r[j].url by {
            if j == prev.len() && r.len() == prev.len() + 1 {
                assert(r[i] == prev[i]);
                if r[i].url == r[j].url {
                    assert(has_url(prev, r[j].url));
                }
            } else {
                assert(r[i] == prev[i] && r[j] == prev[j]);
            }
        }
    }
}

/// The last `HISTORY_LIMIT` entries.
pub open spec fn keep_recent(h: Seq<EntryView>) -> Seq<EntryView> {
    if h.len() > 20 {
        h.skip(h.len() - 20)
    } else {
        h
    }
}

fn keep_recent_vec(h: Vec<HistoryEntry>) -> (r: Vec<HistoryEntry>)
    ensures
        entries_view(r@) == keep_recent(entries_view(h@)),
{
    if h.len() <= HISTORY_LIMIT {
        return h;
    }
    let start = h.len() - HISTORY_LIMIT;
    let mut r: Vec<HistoryEntry> = Vec::new();
    let mut i: usize = start;
    while i < h.len()
        invariant
            start <= i <= h.len(),
            start == h.len() - 20,
            entries_view(r@) == entries_view(h@).subrange(start as int, i as int),
        decreases h.len() - i,
    {
        let ghost old_r = entries_view(r@);
        let e = h[i].clone_entry();
        r.push(e);
        assert(entries_view(r@) =~= old_r.push(h@[i as int]@));
        assert(entries_view(h@)[i as int] == h@[i as int]@);
        assert(entries_view(h@).subrange(start as int, i + 1) =~= entries_view(h@).subrange(
            start as int,
            i as int,
        ).push(entries_view(h@)[i as int]));
        i = i + 1;
    }
    assert(entries_view(h@).subrange(start as int, h.len() as int) =~= entries_view(h@).skip(
        start as int,
    ));
    r
}

/// Adding a server: nothing to store when the address does not normalise or
/// is already listed; otherwise the entry (named `name`, or the address) is
/// appended with time 0 and the oldest entries beyond the limit dropped.
pub open spec fn history_add_spec(h: Seq<EntryView>, url: Seq<char>, name: Option<Seq<char>>) -> Option<Seq<EntryView>> {
    match normalize_server_url_spec(url) {
        None => None,
        Some(n) => if has_url(h, n) {
            None
        } else {
            Some(keep_recent(h.push(EntryView { url: n, name: unwrap_or_seq(name, n), last_connected: 0 })))
        },
    }
}

/// The history to store after adding `url`, `None` when nothing changes.
pub fn server_history_add(history: Vec<HistoryEntry>, url: &str, name: Option<String>) -> (r: Option<Vec<HistoryEntry>>)
    ensures
        match r {
            Some(v) => history_add_spec(entries_view(history@), url@, opt_view(name)) == Some(entries_view(v@)),
            None => history_add_spec(entries_view(history@), url@, opt_view(name)) is None,
        },
{
    let n = match normalize_server_url(url) {
        Some(n) => n,
        None => return None,
    };
    if find_url(&history, n.as_str()).is_some() {
        proof {
            let k = choose|k: int| 0 <= k < history@.len() && history@[k]@.url == n@;
            assert(entries_view(history@)[k].url == n@);
        }
        return None;
    }
    let name = match name {
        Some(s) => s,
        None => n.clone(),
    };
    let mut h = history;
    let ghost before = entries_view(h@);
    h.push(HistoryEntry { url: n, name, last_connected: 0 });
    assert(entries_view(h@) =~= before.push(entries_view(h@).last()));
    Some(keep_recent_vec(h))
}

/// Removing a server keeps every entry whose address differs from the
/// normalised `url` (all of them when `url` does not normalise).
pub open spec fn history_remove_spec(h: Seq<EntryView>, url: Seq<char>) -> Seq<EntryView> {
    match normalize_server_url_spec(url) {
        None => h,
        Some(n) => h.filter(|e: EntryView| e.url != n),
    }
}

/// The history after removing `url`, and the normalised address removed.
pub fn server_history_remove(history: Vec<HistoryEntry>, url: &str) -> (r: (Vec<HistoryEntry>, Option<String>))
    ensures
        entries_view(r.0@) == history_remove_spec(entries_view(history@), url@),
        opt_view(r.1) == normalize_server_url_spec(url@),
{
    let normalized = normalize_server_url(url);
    match normalized {
        None => (history, None),
        Some(n) => {
            let target = chars_of(n.as_str());
            let ghost pred = |e: EntryView| e.url != n@;
            let mut out: Vec<HistoryEntry> = Vec::new();
            let mut i: usize = 0;
            while i < history.len()
                invariant
                    i <= history.len(),
                    target@ == n@,
                    pred == (|e: EntryView| e.url != n@),
                    entries_view(out@) == entries_view(history@).take(i as int).filter(pred),
                decreases history.len() - i,
            {
                let ghost taken = entries_view(history@).take(i + 1);
                assert(taken.drop_last() =~= entries_view(history@).take(i as int));
                reveal_with_fuel(Seq::filter, 1);
                if !chars_eq(&chars_of(history[i].url.as_str()), &target) {
                    out.push(history[i].clone_entry());
                    assert(entries_view(out@) =~= taken.filter(pred));
                } else {
                    assert(entries_view(out@) =~= taken.filter(pred));
                }
                i = i + 1;
            }
            assert(entries_view(history@).take(history.len() as int) =~= entries_view(history@));
            (out, Some(n))
        },
    }
}

/// Renaming a server: nothing to store when the address does not normalise;
/// otherwise the first entry for it takes the new name (the list is stored
/// again even when no entry matches).
pub open spec fn history_rename_spec(h: Seq<EntryView>, url: Seq<char>, name: Seq<char>) -> Option<Seq<EntryView>> {
    match normalize_server_url_spec(url) {
        None => None,
        Some(n) => if has_url(h, n) {
            let k = first_with_url(h, n);
            Some(h.update(k, EntryView { name: name, ..h[k] }))
        } else {
            Some(h)
        },
    }
}

/// Index of the first entry for `url` (`h.len()` when there is none).
pub open spec fn first_with_url(h: Seq<EntryView>, url: Seq<char>) -> int
    decreases h.len(),
{
    if h.len() == 0 {
        0
    } else if h[0].url == url {
        0
    } else {
        1 + first_with_url(h.drop_first(), url)
    }
}

pub proof fn lemma_first_with_url(h: Seq<EntryView>, url: Seq<char>)
    ensures
        0 <= first_with_url(h, url) <= h.len(),
        forall|j: int| 0 <= j < first_with_url(h, url) ==> h[j].url != url,
        first_with_url(h, url) < h.len() ==> h[first_with_url(h, url)].url == url,
        has_url(h, url) <==> first_with_url(h, url) < h.len(),
    decreases h.len(),
{
    if h.len() > 0 && h[0].url != url {
        lemma_first_with_url(h.drop_first(), url);
        assert forall|j: int| 0 <= j < first_with_url(h, url) implies h[j].url != url by {
            if j > 0 {
                assert(h[j] == h.drop_first()[j - 1]);
            }
        }
        if has_url(h, url) {
            let i = choose|i: int| 0 <= i < h.len() && #[trigger] h[i].url == url;
            assert(h.drop_first()[i - 1].url == url);
        }
        if has_url(h.drop_first(), url) {
            let i = choose|i: int| 0 <= i < h.drop_first().len() && #[trigger] h.drop_first()[i].url == url;
            assert(h[i + 1].url == url);
        }
    } else if h.len() > 0 {
        assert(h[0].url == url);
    }
}

/// The first entry for `url`, with the guarantee that no earlier entry has it.
fn first_url(history: &Vec<HistoryEntry>, url: &str) -> (r: Option<usize>)
    ensures
        match r {
            Some(k) => k == first_with_url(entries_view(history@), url@) && k < history.len(),
            None => !has_url(entries_view(history@), url@),
        },
{
    proof {
        lemma_first_with_url(entries_view(history@), url@);
    }
    let r = find_url(history, url);
    if let Some(k) = r {
        proof {
            let h = entries_view(history@);
            let f = first_with_url(h, url@);
            assert(h[k as int].url == url@);
            if f < k {
                assert(h[f].url == url@);
                assert(history@[f]@.url == url@);
            }
        }
    }
    r
}

/// The history to store after renaming `url` to `name`, `None` when nothing
/// is stored.
pub fn server_history_update_name(history: Vec<HistoryEntry>, url: &str, name: String) -> (r: Option<Vec<HistoryEntry>>)
    ensures
        match r {
            Some(v) => history_rename_spec(entries_view(history@), url@, name@) == Some(entries_view(v@)),
            None => history_rename_spec(entries_view(history@), url@, name@) is None,
        },
{
    let n = match normalize_server_url(url) {
        Some(n) => n,
        None => return None,
    };
    proof {
        lemma_first_with_url(entries_view(history@), n@);
    }
    let mut h = history;
    match first_url(&h, n.as_str()) {
        Some(k) => {
            let ghost before = entries_view(h@);
            let old_entry = h[k].clone_entry();
            h.set(k, HistoryEntry { url: old_entry.url, name, last_connected: old_entry.last_connected });
            assert(entries_view(h@) =~= before.update(k as int, EntryView { name: name@, ..before[k as int] }));
            Some(h)
        },
        None => Some(h),
    }
}

/// Opening a server: its entry gets the connection time `now`, or a new
/// entry (named by its address) is appended; then the oldest entries beyond
/// the limit drop off.
pub open spec fn history_touch_spec(h: Seq<EntryView>, url: Seq<char>, now: u64) -> Seq<EntryView> {
    if has_url(h, url) {
        let k = first_with_url(h, url);
        keep_recent(h.update(k, EntryView { last_connected: now, ..h[k] }))
    } else {
        keep_recent(h.push(EntryView { url: url, name: url, last_connected: now }))
    }
}

/// The history after connecting to the normalised address `url` at `now`.
pub fn history_touch(history: Vec<HistoryEntry>, url: &str, now: u64) -> (r: Vec<HistoryEntry>)
    ensures
        entries_view(r@) == history_touch_spec(entries_view(history@), url@, now),
{
    proof {
        lemma_first_with_url(entries_view(history@), url@);
    }
    let mut h = history;
    match first_url(&h, url) {
        Some(k) => {
            let ghost before = entries_view(h@);
            let old_entry = h[k].clone_entry();
            h.set(k, HistoryEntry { url: old_entry.url, name: old_entry.name, last_connected: now });
            assert(entries_view(h@) =~= before.update(k as int, EntryView { last_connected: now, ..before[k as int] }));
        },
        None => {
            let ghost before = entries_view(h@);
            h.push(HistoryEntry { url: String::from_str(url), name: String::from_str(url), last_connected: now });
            assert(entries_view(h@) =~= before.push(EntryView { url: url@, name: url@, last_connected: now }));
        },
    }
    keep_recent_vec(h)
}


// ---------------------------------------------------------------------------
// Laws
// ---------------------------------------------------------------------------

proof fn lemma_keep_recent(h: Seq<EntryView>)
    ensures
        keep_recent(h).len() <= 20,
        h.len() > 0 ==> keep_recent(h).len() > 0 && keep_recent(h).last() == h.last(),
        urls_unique(h) ==> urls_unique(keep_recent(h)),
        forall|i: int| 0 <= i < keep_recent(h).len() ==> exists|j: int| 0 <= j < h.len() && #[trigger] keep_recent(h)[i] == h[j],
{
    let r = keep_recent(h);
    if h.len() > 20 {
        let d = h.len() - 20;
        assert forall|i: int| 0 <= i < r.len() implies exists|j: int| 0 <= j < h.len() && #[trigger] r[i] == h[j] by {
            assert(r[i] == h[i + d]);
        }
        if urls_unique(h) {
            assert forall|i: int, j: int| 0 <= i < j < r.len() implies #[trigger] r[i].url != #[trigger] r[j].url by {
                assert(r[i] == h[i + d] && r[j] == h[j + d]);
            }
        }
    } else {
        assert forall|i: int| 0 <= i < r.len() implies exists|j: int| 0 <= j < h.len() && #[trigger] r[i] == h[j] by {
            assert(r[i] == h[i]);
        }
    }
}

/// Adding a server that was not listed lists it, keeps the history within
/// the limit, and keeps every address unique.
pub proof fn law_added_server_is_listed(h: Seq<EntryView>, url: Seq<char>, name: Option<Seq<char>>)
    requires
        history_add_spec(h, url, name) is Some,
    ensures
        normalize_server_url_spec(url) is Some,
        has_url(history_add_spec(h, url, name)->0, normalize_server_url_spec(url)->0),
        history_add_spec(h, url, name)->0.len() <= HISTORY_LIMIT,
        urls_unique(h) ==> urls_unique(history_add_spec(h, url, name)->0),
{
    let n = normalize_server_url_spec(url)->0;
    let e = EntryView { url: n, name: unwrap_or_seq(name, n), last_connected: 0 };
    let p = h.push(e);
    lemma_keep_recent(p);
    let r = keep_recent(p);
    assert(r[r.len() - 1].url == n);
    if urls_unique(h) {
        lemma_push_new_unique(h, e);
        lemma_keep_recent(p);
    }
}

/// A removed server is no longer listed, and nothing else is added.
pub proof fn law_removed_server_is_gone(h: Seq<EntryView>, url: Seq<char>)
    requires
        normalize_server_url_spec(url) is Some,
    ensures
        !has_url(history_remove_spec(h, url), normalize_server_url_spec(url)->0),
        forall|e: EntryView| history_remove_spec(h, url).contains(e) ==> h.contains(e),
{
    let n = normalize_server_url_spec(url)->0;
    let pred = |e: EntryView| e.url != n;
    broadcast use vstd::seq_lib::group_filter_ensures;
    let r = h.filter(pred);
    assert forall|i: int| 0 <= i < r.len() implies #[trigger] r[i].url != n by {
        assert(pred(r[i]));
    }
    assert forall|e: EntryView| r.contains(e) implies h.contains(e) by {
        h.lemma_filter_contains_rev(pred, e);
    }
}

proof fn lemma_push_new_unique(h: Seq<EntryView>, e: EntryView)
    requires
        urls_unique(h),
        !has_url(h, e.url),
    ensures
        urls_unique(h.push(e)),
{
    let p = h.push(e);
    assert forall|i: int, j: int| 0 <= i < j < p.len() implies #[trigger] p[i].url != #[trigger] p[j].url by {
        if j == h.len() {
            assert(p[i] == h[i]);
            if p[i].url == e.url {
                assert(has_url(h, e.url));
            }
        } else {
            assert(p[i] == h[i] && p[j] == h[j]);
        }
    }
}

proof fn lemma_touch_existing(h: Seq<EntryView>, url: Seq<char>, now: u64)
    requires
        h.len() <= HISTORY_LIMIT,
        has_url(h, url),
    ensures
        history_touch_spec(h, url, now).len() <= HISTORY_LIMIT,
        exists|i: int| 0 <= i < history_touch_spec(h, url, now).len() && #[trigger] history_touch_spec(h, url, now)[i].url == url
            && history_touch_spec(h, url, now)[i].last_connected == now,
        urls_unique(h) ==> urls_unique(history_touch_spec(h, url, now)),
{
    lemma_first_with_url(h, url);
    let k = first_with_url(h, url);
    let u = h.update(k, EntryView { last_connected: now, ..h[k] });
    assert(keep_recent(u) == u);
    assert(u[k].url == url && u[k].last_connected == now);
    if urls_unique(h) {
        assert forall|i: int, j: int| 0 <= i < j < u.len() implies #[trigger] u[i].url != #[trigger] u[j].url by {
            assert(u[i].url == h[i].url && u[j].url == h[j].url);
        }
    }
}

proof fn lemma_touch_new(h: Seq<EntryView>, url: Seq<char>, now: u64)
    requires
        !has_url(h, url),
    ensures
        history_touch_spec(h, url, now).len() <= HISTORY_LIMIT,
        exists|i: int| 0 <= i < history_touch_spec(h, url, now).len() && #[trigger] history_touch_spec(h, url, now)[i].url == url
            && history_touch_spec(h, url, now)[i].last_connected == now,
        urls_unique(h) ==> urls_unique(history_touch_spec(h, url, now)),
{
    let e = EntryView { url: url, name: url, last_connected: now };
    let p = h.push(e);
    lemma_keep_recent(p);
    let r = keep_recent(p);
    assert(r[r.len() - 1] == e);
    assert(history_touch_spec(h, url, now) == r);
    assert(history_touch_spec(h, url, now)[r.len() - 1].url == url);
    if urls_unique(h) {
        lemma_push_new_unique(h, e);
        lemma_keep_recent(p);
    }
}

/// Connecting to a server records the time on its entry (for a history
/// within the limit, as every stored history is), keeps the history within
/// the limit, and keeps every address unique.
pub proof fn law_touch_records_connection(h: Seq<EntryView>, url: Seq<char>, now: u64)
    requires
        h.len() <= HISTORY_LIMIT,
    ensures
        exists|i: int| 0 <= i < history_touch_spec(h, url, now).len() && #[trigger] history_touch_spec(h, url, now)[i].url == url
            && history_touch_spec(h, url, now)[i].last_connected == now,
        history_touch_spec(h, url, now).len() <= HISTORY_LIMIT,
        urls_unique(h) ==> urls_unique(history_touch_spec(h, url, now)),
{
    if has_url(h, url) {
        lemma_touch_existing(h, url, now);
    } else {
        lemma_touch_new(h, url, now);
    }
}

/// Renaming changes names only: the addresses and times stay as they were.
pub proof fn law_rename_keeps_addresses(h: Seq<EntryView>, url: Seq<char>, name: Seq<char>)
    requires
        history_rename_spec(h, url, name) is Some,
    ensures
        history_rename_spec(h, url, name)->0.len() == h.len(),
        forall|i: int| 0 <= i < h.len() ==> #[trigger] history_rename_spec(h, url, name)->0[i].url == h[i].url
            && history_rename_spec(h, url, name)->0[i].last_connected == h[i].last_connected,
{
    let n = normalize_server_url_spec(url)->0;
    lemma_first_with_url(h, n);
}

/// Connecting to a listed server changes nothing but the connection time of
/// its entry: every entry keeps its address and its name, the entries of
/// other addresses stay as they were, and the entry of `url` gets `now`.
pub proof fn law_touch_keeps_entries(h: Seq<EntryView>, url: Seq<char>, now: u64)
    requires
        has_url(h, url),
        h.len() <= HISTORY_LIMIT,
    ensures
        history_touch_spec(h, url, now).len() == h.len(),
        forall|i: int| 0 <= i < h.len() ==> #[trigger] history_touch_spec(h, url, now)[i].url == h[i].url
            && history_touch_spec(h, url, now)[i].name == h[i].name,
        forall|i: int| 0 <= i < h.len() && h[i].url != url ==> #[trigger] history_touch_spec(h, url, now)[i] == h[i],
        exists|i: int| 0 <= i < h.len() && #[trigger] history_touch_spec(h, url, now)[i].url == url
            && history_touch_spec(h, url, now)[i].last_connected == now,
{
    lemma_first_with_url(h, url);
    let k = first_with_url(h, url);
    let u = h.update(k, EntryView { last_connected: now, ..h[k] });
    assert(keep_recent(u) == u);
    assert(u[k].url == url && u[k].last_connected == now);
}

/// Connecting to a server that is not listed, below the limit, appends one
/// entry named by its address with the connection time `now`, and keeps the
/// entries before it.
pub proof fn law_touch_appends_new(h: Seq<EntryView>, url: Seq<char>, now: u64)
    requires
        !has_url(h, url),
        h.len() < HISTORY_LIMIT,
    ensures
        history_touch_spec(h, url, now).len() == h.len() + 1,
        forall|i: int| 0 <= i < h.len() ==> #[trigger] history_touch_spec(h, url, now)[i] == h[i],
        history_touch_spec(h, url, now)[h.len() as int].url == url,
        history_touch_spec(h, url, now)[h.len() as int].name == url,
        history_touch_spec(h, url, now)[h.len() as int].last_connected == now,
{
}

} // verus!
