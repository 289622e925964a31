//! Desktop integration: the launcher id under which the Linux desktop knows
//! the app, the process tree it owns, which window a window command acts on,
//! and where a reachability probe connects.
use vstd::prelude::*;
use vstd::string::StringExecFns;
use crate::text::{
    chars_of, string_of, chars_eq, starts_with, starts_with_spec, contains, contains_spec, lowercase,
    lowercase_chars, rfind, rfind_char, lemma_rfind_char, sub_chars, after_last, after_last_char,
    before_first, before_first_char, is_ws, is_whitespace, is_digit, parse_u32, parse_u32_spec,
};
use crate::cert_trust::{trim_end_str, trim_end_matches_str};
use crate::weburl::{ParsedUrl, url_parse};

verus! {

// ---------------------------------------------------------------------------
// Launcher id
// ---------------------------------------------------------------------------

/// The rightmost `/`-separated part of `s` that starts with `app-` (empty
/// when there is none).
pub open spec fn app_segment(s: Seq<char>) -> Seq<char>
    decreases s.len(),
{
    let seg = after_last(s, '/');
    if starts_with_spec(seg, "app-"@) {
        seg
    } else if rfind_char(s, '/') >= 0 {
        proof {
            crate::text::lemma_rfind_char(s, '/');
        }
        app_segment(s.take(rfind_char(s, '/')))
    } else {
        Seq::empty()
    }
}

/// `s` with every leading copy of `pat` removed (`str::trim_start_matches`).
pub open spec fn trim_start_str(s: Seq<char>, pat: Seq<char>) -> Seq<char>
    decreases s.len(),
{
    if pat.len() > 0 && starts_with_spec(s, pat) {
        trim_start_str(s.skip(pat.len() as int), pat)
    } else {
        s
    }
}

/// `s` without a final `-` followed only by ASCII digits.
pub open spec fn strip_instance(s: Seq<char>) -> Seq<char> {
    let r = rfind_char(s, '-');
    if r >= 0 && (forall|i: int| r < i < s.len() ==> is_digit(#[trigger] s[i])) {
        s.take(r)
    } else {
        s
    }
}

/// The app id in the systemd unit of the app's cgroup (`/proc/self/cgroup`):
/// the unit `app-<id>[-<n>].scope` (or `.service`, or `@<instance>`).
pub open spec fn cgroup_app_id_spec(cgroup: Seq<char>) -> Seq<char> {
    let unit = app_segment(cgroup);
    let id = before_first(
        trim_end_str(trim_end_str(trim_start_str(unit, "app-"@), ".scope"@), ".service"@),
        '@',
    );
    strip_instance(id)
}

fn app_segment_exec(v: &[char]) -> (r: Vec<char>)
    ensures
        r@ == app_segment(v@),
{
    let mut cur: Vec<char> = sub_chars(v, 0, v.len());
    assert(cur@ =~= v@);
    let prefix = chars_of("app-");
    loop
        invariant
            app_segment(cur@) == app_segment(v@),
            prefix@ == "app-"@,
        decreases cur.len(),
    {
        let seg = after_last_char(&cur, '/');
        if starts_with(&seg, &prefix) {
            return seg;
        }
        proof {
            lemma_rfind_char(cur@, '/');
        }
        match rfind(&cur, '/') {
            Some(i) => {
                cur = sub_chars(&cur, 0, i);
            },
            None => {
                return Vec::new();
            },
        }
    }
}

fn trim_start_matches_str(v: &[char], pat: &[char]) -> (r: Vec<char>)
    ensures
        r@ == trim_start_str(v@, pat@),
{
    let mut cur: Vec<char> = sub_chars(v, 0, v.len());
    assert(cur@ =~= v@);
    if pat.len() == 0 {
        return cur;
    }
    while starts_with(&cur, pat)
        invariant
            pat.len() > 0,
            trim_start_str(cur@, pat@) == trim_start_str(v@, pat@),
        decreases cur.len(),
    {
        let n = cur.len();
        cur = sub_chars(&cur, pat.len(), n);
    }
    cur
}

fn strip_instance_exec(v: &[char]) -> (r: Vec<char>)
    ensures
        r@ == strip_instance(v@),
{
    proof {
        lemma_rfind_char(v@, '-');
    }
    match rfind(v, '-') {
        Some(r) => {
            let mut j: usize = r + 1;
            while j < v.len()
                invariant
                    r < j <= v.len(),
                    r == rfind_char(v@, '-'),
                    forall|i: int| r < i < j ==> is_digit(#[trigger] v@[i]),
                decreases v.len() - j,
            {
                let c = v[j];
                if !(48 <= (c as u32) && (c as u32) <= 57) {
                    return sub_chars(v, 0, v.len());
                }
                j = j + 1;
            }
            sub_chars(v, 0, r)
        },
        None => sub_chars(v, 0, v.len()),
    }
}

pub fn cgroup_app_id(cgroup: &str) -> (r: String)
    ensures
        r@ == cgroup_app_id_spec(cgroup@),
{
    let unit = app_segment_exec(&chars_of(cgroup));
    proof {
        reveal_strlit("app-");
        reveal_strlit(".scope");
        reveal_strlit(".service");
    }
    let a = trim_start_matches_str(&unit, &chars_of("app-"));
    let b = trim_end_matches_str(&a, &chars_of(".scope"));
    let c = trim_end_matches_str(&b, &chars_of(".service"));
    let d = before_first_char(&c, '@');
    string_of(&strip_instance_exec(&d))
}

/// The id the desktop's launcher knows the app by: the cgroup's app id when
/// it names Haven, else the installed desktop file's escaped id, else `Haven`.
pub open spec fn launcher_app_id_spec(id: Seq<char>, installed: bool) -> Seq<char> {
    if contains_spec(lowercase(id), "haven"@) {
        id
    } else if installed {
        "haven\\x2ddesktop"@
    } else {
        "Haven"@
    }
}

/// Whether the launcher id needs to know about installed desktop files
/// (it does unless the cgroup's id already names Haven).
pub fn names_haven(id: &str) -> (r: bool)
    ensures
        r == contains_spec(lowercase(id@), "haven"@),
{
    contains(&lowercase_chars(&chars_of(id)), &chars_of("haven"))
}

/// `installed`: a `haven-desktop.desktop` file is in one of the
/// application directories.
pub fn launcher_app_id(id: &str, installed: bool) -> (r: String)
    ensures
        r@ == launcher_app_id_spec(id@, installed),
{
    if names_haven(id) {
        String::from_str(id)
    } else if installed {
        String::from_str("haven\\x2ddesktop")
    } else {
        String::from_str("Haven")
    }
}

/// The systemd scope the app claims for its processes.
pub open spec fn scope_unit_spec(app_id: Seq<char>, pid: u32) -> Seq<char> {
    "app-"@ + app_id + "-"@ + crate::text::decimal(pid as nat) + ".scope"@
}

pub fn scope_unit(app_id: &str, pid: u32) -> (r: String)
    ensures
        r@ == scope_unit_spec(app_id@, pid),
{
    let mut v = chars_of("app-");
    crate::text::push_all(&mut v, &chars_of(app_id));
    crate::text::push_all(&mut v, &chars_of("-"));
    crate::text::push_decimal(&mut v, pid as u64);
    crate::text::push_all(&mut v, &chars_of(".scope"));
    string_of(&v)
}

// ---------------------------------------------------------------------------
// The process tree
// ---------------------------------------------------------------------------

/// The whitespace-separated tokens of `s` (`str::split_whitespace`).
pub open spec fn ws_tokens(s: Seq<char>) -> Seq<Seq<char>> {
    ws_tokens_from(s, Seq::empty(), s.len() as nat)
}

/// Tokens of `s`, with `cur` the token being read; `fuel` bounds the recursion.
pub open spec fn ws_tokens_from(s: Seq<char>, cur: Seq<char>, fuel: nat) -> Seq<Seq<char>>
    decreases fuel,
{
    if s.len() == 0 || fuel == 0 {
        if cur.len() > 0 { seq![cur] } else { Seq::empty() }
    } else if is_ws(s[0]) {
        (if cur.len() > 0 { seq![cur] } else { Seq::empty() }) + ws_tokens_from(s.drop_first(), Seq::empty(), (fuel - 1) as nat)
    } else {
        ws_tokens_from(s.drop_first(), cur.push(s[0]), (fuel - 1) as nat)
    }
}

/// The parent process in a `/proc/<pid>/stat` line: after the command name
/// (which ends at the last `)`), the second field.
pub open spec fn parent_pid_spec(stat: Seq<char>) -> Option<u32> {
    let r = rfind_char(stat, ')');
    if r < 0 {
        None
    } else {
        let toks = ws_tokens(stat.skip(r + 1));
        if toks.len() < 2 {
            None
        } else {
            parse_u32_spec(toks[1])
        }
    }
}

/// The whitespace-separated tokens of `v`.
pub fn tokens_exec(v: &[char]) -> (r: Vec<Vec<char>>)
    ensures
        r@.map_values(|t: Vec<char>| t@) == ws_tokens(v@),
{
    let mut out: Vec<Vec<char>> = Vec::new();
    let mut cur: Vec<char> = Vec::new();
    let mut i: usize = 0;
    proof {
        assert(v@.skip(0) =~= v@);
    }
    while i < v.len()
        invariant
            i <= v.len(),
            out@.map_values(|t: Vec<char>| t@) + ws_tokens_from(v@.skip(i as int), cur@, (v.len() - i) as nat)
                == ws_tokens(v@),
        decreases v.len() - i,
    {
        let c = v[i];
        let ghost rest = v@.skip(i as int);
        let ghost before_out = out@.map_values(|t: Vec<char>| t@);
        let ghost old_cur = cur@;
        let ghost n = (v.len() - i) as nat;
        assert(rest[0] == c);
        assert(rest.drop_first() =~= v@.skip(i + 1));
        if is_whitespace(c) {
            assert(ws_tokens_from(rest, old_cur, n) == (if old_cur.len() > 0 { seq![old_cur] } else { Seq::<Seq<char>>::empty() })
                + ws_tokens_from(rest.drop_first(), Seq::empty(), (n - 1) as nat));
            if cur.len() > 0 {
                let done = cur;
                cur = Vec::new();
                out.push(done);
                proof {
                    assert(out@.map_values(|t: Vec<char>| t@) =~= before_out + seq![old_cur]);
                    assert(before_out + seq![old_cur] + ws_tokens_from(rest.drop_first(), Seq::empty(), (n - 1) as nat)
                        =~= before_out + (seq![old_cur] + ws_tokens_from(rest.drop_first(), Seq::empty(), (n - 1) as nat)));
                }
            } else {
                proof {
                    assert(Seq::<Seq<char>>::empty() + ws_tokens_from(rest.drop_first(), Seq::empty(), (n - 1) as nat)
                        =~= ws_tokens_from(rest.drop_first(), Seq::empty(), (n - 1) as nat));
                }
            }
            assert(cur@ =~= Seq::<char>::empty());
        } else {
            cur.push(c);
            assert(ws_tokens_from(rest, old_cur, n) == ws_tokens_from(rest.drop_first(), old_cur.push(c), (n - 1) as nat));
        }
        i = i + 1;
    }
    if cur.len() > 0 {
        let ghost before_out = out@.map_values(|t: Vec<char>| t@);
        out.push(cur);
        assert(out@.map_values(|t: Vec<char>| t@) =~= before_out + seq![out@.last()@]);
    }
    proof {
        assert(v@.skip(v.len() as int) =~= Seq::<char>::empty());
    }
    out
}

pub fn parent_pid(stat: &str) -> (r: Option<u32>)
    ensures
        r == parent_pid_spec(stat@),
{
    let v = chars_of(stat);
    proof {
        lemma_rfind_char(v@, ')');
    }
    match rfind(&v, ')') {
        Some(r) => {
            let n = v.len();
            assert(r < n);
            let rest = sub_chars(&v, r + 1, n);
            assert(rest@ =~= v@.skip(r + 1));
            let toks = tokens_exec(&rest);
            if toks.len() < 2 {
                None
            } else {
                parse_u32(&toks[1])
            }
        },
        None => None,
    }
}


/// The parent recorded for `pid` (the first record for it), 0 when none.
pub open spec fn parent_of(parents: Seq<(u32, u32)>, pid: u32) -> u32
    decreases parents.len(),
{
    if parents.len() == 0 {
        0
    } else if parents[0].0 == pid {
        parents[0].1
    } else {
        parent_of(parents.drop_first(), pid)
    }
}

fn parent_lookup(parents: &[(u32, u32)], pid: u32) -> (r: u32)
    ensures
        r == parent_of(parents@, pid),
{
    let mut i: usize = 0;
    assert(parents@.skip(0) =~= parents@);
    while i < parents.len()
        invariant
            i <= parents.len(),
            parent_of(parents@, pid) == parent_of(parents@.skip(i as int), pid),
        decreases parents.len() - i,
    {
        assert(parents@.skip(i as int).drop_first() =~= parents@.skip(i + 1));
        assert(parents@.skip(i as int)[0] == parents@[i as int]);
        if parents[i].0 == pid {
            return parents[i].1;
        }
        i = i + 1;
    }
    0
}

/// Walking up from `pid` through the recorded parents reaches `me` within
/// `steps` steps (a walk ends at pid 1 or below).
pub open spec fn descends_from(parents: Seq<(u32, u32)>, me: u32, pid: u32, steps: nat) -> bool
    decreases steps,
{
    if pid <= 1 {
        false
    } else if pid == me {
        true
    } else if steps == 0 {
        false
    } else {
        descends_from(parents, me, parent_of(parents, pid), (steps - 1) as nat)
    }
}

/// Whether the process `pid` belongs to the app's process tree (is `me` or
/// below it). The walk is bounded by the number of records plus one, which
/// a chain of distinct processes never exceeds; a chain that would go on
/// (a cycle in the records) counts as not belonging.
pub fn owned_by(parents: &[(u32, u32)], me: u32, pid: u32) -> (r: bool)
    requires
        parents@.len() < u64::MAX,
    ensures
        r == descends_from(parents@, me, pid, (parents@.len() + 1) as nat),
{
    let mut p = pid;
    let mut steps: u64 = parents.len() as u64 + 1;
    loop
        invariant
            descends_from(parents@, me, p, steps as nat) == descends_from(parents@, me, pid, (parents@.len() + 1) as nat),
        decreases steps,
    {
        if p <= 1 {
            return false;
        }
        if p == me {
            return true;
        }
        if steps == 0 {
            return false;
        }
        p = parent_lookup(parents, p);
        steps = steps - 1;
    }
}

/// The processes of the app's tree among the recorded ones, in record order.
pub fn tree_pids(parents: &[(u32, u32)], me: u32) -> (r: Vec<u32>)
    requires
        parents@.len() < u64::MAX,
    ensures
        r@ == parents@.map_values(|e: (u32, u32)| e.0).filter(
            |p: u32| descends_from(parents@, me, p, (parents@.len() + 1) as nat),
        ),
{
    let ghost keys = parents@.map_values(|e: (u32, u32)| e.0);
    let ghost pred = |p: u32| descends_from(parents@, me, p, (parents@.len() + 1) as nat);
    let mut out: Vec<u32> = Vec::new();
    let mut i: usize = 0;
    while i < parents.len()
        invariant
            i <= parents.len(),
            parents@.len() < u64::MAX,
            keys == parents@.map_values(|e: (u32, u32)| e.0),
            pred == (|p: u32| descends_from(parents@, me, p, (parents@.len() + 1) as nat)),
            out@ == keys.take(i as int).filter(pred),
        decreases parents.len() - i,
    {
        let p = parents[i].0;
        proof {
            reveal_with_fuel(Seq::filter, 1);
            assert(keys.take(i + 1).drop_last() =~= keys.take(i as int));
            assert(keys.take(i + 1).last() == p);
        }
        if owned_by(parents, me, p) {
            out.push(p);
        }
        i = i + 1;
    }
    assert(keys.take(parents.len() as int) =~= keys);
    out
}

// ---------------------------------------------------------------------------
// Windows and probes
// ---------------------------------------------------------------------------

/// The window a window command acts on: the focused one, else the main
/// window, else the Welcome window.
pub fn focused_or_main<W>(focused: Option<W>, main: Option<W>, welcome: Option<W>) -> (r: Option<W>)
    ensures
        r == (if focused is Some { focused } else if main is Some { main } else { welcome }),
{
    match focused {
        Some(w) => Some(w),
        None => match main {
            Some(w) => Some(w),
            None => welcome,
        },
    }
}

/// The port a scheme uses when a URL names none (`url`'s `default_port`).
pub open spec fn default_port_spec(scheme: Seq<char>) -> Option<u16> {
    if scheme == "http"@ || scheme == "ws"@ {
        Some(80)
    } else if scheme == "https"@ || scheme == "wss"@ {
        Some(443)
    } else if scheme == "ftp"@ {
        Some(21)
    } else {
        None
    }
}

pub fn default_port(scheme: &str) -> (r: Option<u16>)
    ensures
        r == default_port_spec(scheme@),
{
    let s = chars_of(scheme);
    if chars_eq(&s, &chars_of("http")) || chars_eq(&s, &chars_of("ws")) {
        Some(80)
    } else if chars_eq(&s, &chars_of("https")) || chars_eq(&s, &chars_of("wss")) {
        Some(443)
    } else if chars_eq(&s, &chars_of("ftp")) {
        Some(21)
    } else {
        None
    }
}

/// Where the reachability probe for a server address connects: its host and
/// port (the scheme's default when none is given); `None` when the address
/// does not parse or lacks either.
pub open spec fn probe_target_spec(server_url: Seq<char>) -> Option<(Seq<char>, u16)> {
    match url_parse(server_url) {
        Some(u) => match u.host {
            Some(h) => match (if u.port is Some { u.port } else { default_port_spec(u.scheme) }) {
                Some(p) => Some((h, p)),
                None => None,
            },
            None => None,
        },
        None => None,
    }
}

pub fn probe_target(server_url: &str) -> (r: Option<(String, u16)>)
    ensures
        match r {
            Some((h, p)) => probe_target_spec(server_url@) == Some((h@, p)),
            None => probe_target_spec(server_url@) is None,
        },
{
    let u = match ParsedUrl::parse(server_url) {
        Some(u) => u,
        None => return None,
    };
    let host = match u.host {
        Some(h) => h,
        None => return None,
    };
    let port = match u.port {
        Some(p) => Some(p),
        None => default_port(u.scheme.as_str()),
    };
    match port {
        Some(p) => Some((host, p)),
        None => None,
    }
}

} // verus!
