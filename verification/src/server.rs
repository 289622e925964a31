//! The local Haven server: finding an installation, the start-up decisions
//! around launching `node server.js`, and the record of what runs.
//!
//! Launching the process, scanning ports and reading its output are done by
//! the caller; this module decides what each outcome means.
use vstd::prelude::*;
use vstd::string::StringExecFns;
use crate::text::{
    chars_of, string_of, push_all, contains, contains_spec, lowercase, lowercase_chars,
    trim_start_matches, trim_start_char, push_decimal, decimal, chars_eq,
};
use crate::weburl::opt_view;

verus! {

/// What a search for a local server installation found.
pub struct DetectResult {
    pub found: bool,
    pub path: Option<String>,
    pub version: Option<String>,
}

/// The answer to a start request.
pub struct StartResult {
    pub success: bool,
    pub port: Option<u16>,
    pub url: Option<String>,
    pub error: Option<String>,
    pub error_key: Option<String>,
}

/// Whether the server runs, and where.
pub struct StatusResult {
    pub running: bool,
    pub port: Option<u16>,
    pub url: Option<String>,
}

/// The record of the local server this app launched.
pub struct ServerManager {
    pub running: bool,
    pub port: Option<u16>,
    pub url: Option<String>,
    /// the last stop was asked for (not a crash)
    pub intentional_stop: bool,
}

/// The first port tried for the server.
pub const FIRST_PORT: u16 = 3000;

/// The address of a server started on `port`.
pub open spec fn server_url_spec(https: bool, port: u16) -> Seq<char> {
    (if https { "https"@ } else { "http"@ }) + "://localhost:"@ + decimal(port as nat)
}

/// `http://localhost:<port>`, or `https://` when the server said it serves TLS.
pub fn server_url(https: bool, port: u16) -> (r: String)
    ensures
        r@ == server_url_spec(https, port),
{
    let mut out: Vec<char> = if https {
        chars_of("https")
    } else {
        chars_of("http")
    };
    push_all(&mut out, &chars_of("://localhost:"));
    push_decimal(&mut out, port as u64);
    string_of(&out)
}

impl ServerManager {
    /// The record is consistent: a running server has a port and an
    /// address, a stopped one neither.
    pub open spec fn wf(&self) -> bool {
        &&& self.running == self.port is Some
        &&& self.running == self.url is Some
    }

    pub fn new() -> (r: ServerManager)
        ensures
            r.wf(),
            !r.running,
            !r.intentional_stop,
    {
        ServerManager { running: false, port: None, url: None, intentional_stop: false }
    }

    /// Whether the server runs, and where.
    pub fn status(&self) -> (r: StatusResult)
        ensures
            r.running == self.running,
            r.port == self.port,
            opt_view(r.url) == opt_view(self.url),
    {
        StatusResult { running: self.running, port: self.port, url: self.url.clone() }
    }

    /// The first decision of a start request, before any port is searched:
    /// a running server is reported as it is, and a directory without
    /// `server.js` is refused. `None` means go on and find a port.
    pub fn start_server(&self, server_js_exists: bool) -> (r: Option<StartResult>)
        ensures
            self.running ==> (r matches Some(s) && s.success && s.port == self.port
                && opt_view(s.url) == opt_view(self.url) && s.error is None && s.error_key is None),
            !self.running && !server_js_exists ==> (r matches Some(s) && !s.success && s.port is None
                && s.url is None && s.error is None
                && opt_view(s.error_key) == Some("server.error.fileNotFound"@)),
            !self.running && server_js_exists ==> r is None,
    {
        if self.running {
            return Some(StartResult {
                success: true,
                port: self.port,
                url: self.url.clone(),
                error: None,
                error_key: None,
            });
        }
        if !server_js_exists {
            return Some(StartResult {
                success: false,
                port: None,
                url: None,
                error: None,
                error_key: Some(String::from_str("server.error.fileNotFound")),
            });
        }
        None
    }

    /// The server process was launched on `port`; `https` is what its first
    /// readiness line said (false when none came in time). The record now
    /// says it runs there.
    pub fn server_started(&mut self, port: u16, https: bool) -> (r: StartResult)
        ensures
            final(self).wf(),
            final(self).running,
            final(self).port == Some(port),
            opt_view(final(self).url) == Some(server_url_spec(https, port)),
            !final(self).intentional_stop,
            r.success,
            r.port == Some(port),
            opt_view(r.url) == Some(server_url_spec(https, port)),
            r.error is None,
            r.error_key is None,
    {
        let url = server_url(https, port);
        self.running = true;
        self.port = Some(port);
        self.url = Some(url.clone());
        self.intentional_stop = false;
        StartResult { success: true, port: Some(port), url: Some(url), error: None, error_key: None }
    }

    /// Stopping: the record says nothing runs, and that the stop was asked for.
    pub fn stop_server(&mut self) -> (r: StatusResult)
        ensures
            final(self).wf(),
            !final(self).running,
            final(self).intentional_stop,
            !r.running,
            r.port is None,
            r.url is None,
    {
        self.intentional_stop = true;
        self.running = false;
        self.port = None;
        self.url = None;
        StatusResult { running: false, port: None, url: None }
    }

    /// Accepted and ignored: the saved directory is read from the
    /// preferences when a search starts.
    pub fn set_saved_path_hint(&mut self, path: &str)
        ensures
            *final(self) == *old(self),
    {
    }
}

/// No free port was found for the server.
pub fn start_without_port() -> (r: StartResult)
    ensures
        !r.success,
        r.port is None,
        r.url is None,
        r.error is None,
        opt_view(r.error_key) == Some("server.error.noPort"@),
{
    StartResult {
        success: false,
        port: None,
        url: None,
        error: None,
        error_key: Some(String::from_str("server.error.noPort")),
    }
}

/// The server process could not be launched; `error` is the system's message.
pub fn start_spawn_failed(error: String) -> (r: StartResult)
    ensures
        !r.success,
        r.port is None,
        r.url is None,
        opt_view(r.error) == Some(error@),
        r.error_key is None,
{
    StartResult { success: false, port: None, url: None, error: Some(error), error_key: None }
}

/// The ports searched for a free one, from `start` up to (not including)
/// the second number: a hundred ports, fewer near the top of the range.
pub fn port_search_range(start: u16) -> (r: (u16, u16))
    ensures
        r.0 == start,
        r.1 == (if start as int + 100 > u16::MAX { u16::MAX as int } else { start + 100 }),
{
    (start, start.saturating_add(100))
}

/// What a line of the server's standard output says about readiness:
/// `Some(true)` when it announces HTTPS, `Some(false)` when it says it is
/// listening, running or started, `None` otherwise (case-insensitively).
/// When both hold, the HTTPS signal comes first and wins.
pub open spec fn ready_signal_spec(line: Seq<char>) -> Option<bool> {
    let l = lowercase(line);
    if contains_spec(l, "https enabled"@) {
        Some(true)
    } else if contains_spec(l, "listening"@) || contains_spec(l, "running"@) || contains_spec(
        l,
        "started"@,
    ) {
        Some(false)
    } else {
        None
    }
}

pub fn ready_signal(line: &str) -> (r: Option<bool>)
    ensures
        r == ready_signal_spec(line@),
{
    let l = lowercase_chars(&chars_of(line));
    if contains(&l, &chars_of("https enabled")) {
        Some(true)
    } else if contains(&l, &chars_of("listening")) || contains(&l, &chars_of("running"))
        || contains(&l, &chars_of("started")) {
        Some(false)
    } else {
        None
    }
}


/// How long the start-up waits for a readiness line.
pub const READY_TIMEOUT_MS: u64 = 15000;

/// One turn of the wait for the server: a readiness signal ends it with the
/// HTTPS flag it carried; past the timeout it ends without one (plain HTTP);
/// otherwise wait on.
pub enum WaitStep {
    Ready(bool),
    TimedOut,
    Wait,
}

pub fn wait_step(received: Option<bool>, elapsed_ms: u64) -> (r: WaitStep)
    ensures
        match received {
            Some(h) => r == WaitStep::Ready(h),
            None => if elapsed_ms > READY_TIMEOUT_MS {
                r == WaitStep::TimedOut
            } else {
                r == WaitStep::Wait
            },
        },
{
    match received {
        Some(h) => WaitStep::Ready(h),
        None => if elapsed_ms > READY_TIMEOUT_MS {
            WaitStep::TimedOut
        } else {
            WaitStep::Wait
        },
    }
}

/// The log record of a line the server wrote to standard output.
pub fn stdout_log_line(line: &str) -> (r: String)
    ensures
        r@ == line@.push('\n'),
{
    let mut v = chars_of(line);
    v.push('\n');
    string_of(&v)
}

/// The log record of a line the server wrote to standard error.
pub fn stderr_log_line(line: &str) -> (r: String)
    ensures
        r@ == "[ERR] "@ + line@.push('\n'),
{
    let mut v = chars_of("[ERR] ");
    push_all(&mut v, &chars_of(line));
    v.push('\n');
    proof {
        assert(v@ =~= "[ERR] "@ + line@.push('\n'));
    }
    string_of(&v)
}


// ---------------------------------------------------------------------------
// Finding an installation
// ---------------------------------------------------------------------------

/// Where a candidate directory starts.
pub enum DirBase {
    /// the directory saved in the preferences
    Saved,
    /// the parent of the working directory
    CwdParent,
    Home,
    /// the user's configuration directory
    Config,
    /// the user's local data directory
    DataLocal,
}

/// A directory to look in: a base and the names below it.
pub struct Candidate {
    pub base: DirBase,
    pub parts: Vec<&'static str>,
}

pub struct CandidateView {
    pub base: DirBase,
    pub parts: Seq<&'static str>,
}

impl View for Candidate {
    type V = CandidateView;

    open spec fn view(&self) -> CandidateView {
        CandidateView { base: self.base, parts: self.parts@ }
    }
}

pub open spec fn cand(base: DirBase, parts: Seq<&'static str>) -> CandidateView {
    CandidateView { base, parts }
}

/// The directories searched for a server installation, in order. The
/// configuration and data directories are only searched when there is a
/// home directory.
pub open spec fn detect_candidates_spec(
    saved: bool,
    cwd_parent: bool,
    home: bool,
    config: bool,
    data_local: bool,
) -> Seq<CandidateView> {
    (if saved { seq![cand(DirBase::Saved, seq![])] } else { seq![] })
    + (if cwd_parent { seq![cand(DirBase::CwdParent, seq!["Haven"]), cand(DirBase::CwdParent, seq!["haven"])] } else { seq![] })
    + (if home {
        seq![
            cand(DirBase::Home, seq!["Haven"]),
            cand(DirBase::Home, seq!["Desktop", "Haven"]),
            cand(DirBase::Home, seq!["Documents", "Haven"]),
        ]
        + (if config {
            seq![
                cand(DirBase::Config, seq!["HavenServer"]),
                cand(DirBase::Config, seq!["Haven"]),
                cand(DirBase::Config, seq!["haven"]),
            ]
        } else { seq![] })
        + (if data_local {
            seq![
                cand(DirBase::DataLocal, seq!["Programs", "Haven"]),
                cand(DirBase::DataLocal, seq!["Programs", "haven"]),
                cand(DirBase::DataLocal, seq!["Programs", "HavenServer"]),
            ]
        } else { seq![] })
    } else { seq![] })
}

/// The number of entries before the home-directory candidates: the saved
/// directory and the two beside the working directory, where present.
pub open spec fn home_offset(saved: bool, cwd_parent: bool) -> int {
    (if saved { 1int } else { 0int }) + (if cwd_parent { 2int } else { 0int })
}

/// What the installation search covers: the saved directory first, then
/// `Haven` and `haven` beside the working directory, then `~/Haven`,
/// `~/Desktop/Haven` and `~/Documents/Haven`; right after them, where there
/// is a configuration directory, its `HavenServer`, `Haven` and `haven`; and
/// last, where there is a local data directory, its `Programs/Haven`,
/// `Programs/haven` and `Programs/HavenServer`. Without a home directory
/// neither of the last two is searched.
pub proof fn law_candidate_order(saved: bool, cwd_parent: bool, home: bool, config: bool, data_local: bool)
    ensures
        ({
            let s = detect_candidates_spec(saved, cwd_parent, home, config, data_local);
            let b = home_offset(saved, cwd_parent);
            let c = b + 3 + (if config { 3int } else { 0int });
            &&& s.len() == b + (if home { 3 + (if config { 3int } else { 0int }) + (if data_local { 3int } else { 0int }) } else { 0int })
            &&& saved ==> s[0] == cand(DirBase::Saved, seq![])
            &&& cwd_parent ==> s[b - 2] == cand(DirBase::CwdParent, seq!["Haven"]) && s[b - 1] == cand(DirBase::CwdParent, seq!["haven"])
            &&& home ==> s[b] == cand(DirBase::Home, seq!["Haven"])
                && s[b + 1] == cand(DirBase::Home, seq!["Desktop", "Haven"])
                && s[b + 2] == cand(DirBase::Home, seq!["Documents", "Haven"])
            &&& home && config ==> s[b + 3] == cand(DirBase::Config, seq!["HavenServer"])
                && s[b + 4] == cand(DirBase::Config, seq!["Haven"])
                && s[b + 5] == cand(DirBase::Config, seq!["haven"])
            &&& home && data_local ==> s[c] == cand(DirBase::DataLocal, seq!["Programs", "Haven"])
                && s[c + 1] == cand(DirBase::DataLocal, seq!["Programs", "haven"])
                && s[c + 2] == cand(DirBase::DataLocal, seq!["Programs", "HavenServer"])
        }),
{
    let s = detect_candidates_spec(saved, cwd_parent, home, config, data_local);
    let b = home_offset(saved, cwd_parent);
    let s1: Seq<CandidateView> = if saved { seq![cand(DirBase::Saved, seq![])] } else { seq![] };
    let s2: Seq<CandidateView> = if cwd_parent { seq![cand(DirBase::CwdParent, seq!["Haven"]), cand(DirBase::CwdParent, seq!["haven"])] } else { seq![] };
    let h: Seq<CandidateView> = seq![
        cand(DirBase::Home, seq!["Haven"]),
        cand(DirBase::Home, seq!["Desktop", "Haven"]),
        cand(DirBase::Home, seq!["Documents", "Haven"]),
    ];
    let cf: Seq<CandidateView> = if config {
        seq![
            cand(DirBase::Config, seq!["HavenServer"]),
            cand(DirBase::Config, seq!["Haven"]),
            cand(DirBase::Config, seq!["haven"]),
        ]
    } else { seq![] };
    let dl: Seq<CandidateView> = if data_local {
        seq![
            cand(DirBase::DataLocal, seq!["Programs", "Haven"]),
            cand(DirBase::DataLocal, seq!["Programs", "haven"]),
            cand(DirBase::DataLocal, seq!["Programs", "HavenServer"]),
        ]
    } else { seq![] };
    let t: Seq<CandidateView> = if home { h + cf + dl } else { seq![] };
    assert(s == s1 + s2 + t);
    assert((s1 + s2).len() == b);
    if home {
        assert(t[0] == h[0] && t[1] == h[1] && t[2] == h[2]);
        if config {
            assert(t[3] == cf[0] && t[4] == cf[1] && t[5] == cf[2]);
        }
        let c = 3 + (if config { 3int } else { 0int });
        if data_local {
            assert(t[c] == dl[0] && t[c + 1] == dl[1] && t[c + 2] == dl[2]);
        }
    }
}

pub open spec fn candidates_view(v: Seq<Candidate>) -> Seq<CandidateView> {
    v.map_values(|c: Candidate| c@)
}

fn push_candidate(out: &mut Vec<Candidate>, base: DirBase, parts: Vec<&'static str>)
    ensures
        candidates_view(final(out)@) == candidates_view(old(out)@).push(cand(base, parts@)),
{
    out.push(Candidate { base, parts });
    assert(candidates_view(final(out)@) =~= candidates_view(old(out)@).push(cand(base, parts@)));
}

/// The candidate directories, given which of the bases exist.
#[verifier::spinoff_prover]
#[verifier::rlimit(40)]
pub fn detect_candidates(
    saved: bool,
    cwd_parent: bool,
    home: bool,
    config: bool,
    data_local: bool,
) -> (r: Vec<Candidate>)
    ensures
        candidates_view(r@) == detect_candidates_spec(saved, cwd_parent, home, config, data_local),
{
    let mut out: Vec<Candidate> = Vec::new();
    if saved {
        push_candidate(&mut out, DirBase::Saved, vec![]);
    }
    let ghost a: Seq<CandidateView> = if saved { seq![cand(DirBase::Saved, seq![])] } else { seq![] };
    assert(candidates_view(out@) =~= a);
    if cwd_parent {
        let p1: Vec<&'static str> = vec!["Haven"];
        assert(p1@ =~= seq!["Haven"]);
        push_candidate(&mut out, DirBase::CwdParent, p1);
        let p2: Vec<&'static str> = vec!["haven"];
        assert(p2@ =~= seq!["haven"]);
        push_candidate(&mut out, DirBase::CwdParent, p2);
    }
    let ghost b: Seq<CandidateView> = if cwd_parent { seq![cand(DirBase::CwdParent, seq!["Haven"]), cand(DirBase::CwdParent, seq!["haven"])] } else { seq![] };
    assert(candidates_view(out@) =~= a + b);
    if home {
        let p3: Vec<&'static str> = vec!["Haven"];
        assert(p3@ =~= seq!["Haven"]);
        push_candidate(&mut out, DirBase::Home, p3);
        let p4: Vec<&'static str> = vec!["Desktop", "Haven"];
        assert(p4@ =~= seq!["Desktop", "Haven"]);
        push_candidate(&mut out, DirBase::Home, p4);
        let p5: Vec<&'static str> = vec!["Documents", "Haven"];
        assert(p5@ =~= seq!["Documents", "Haven"]);
        push_candidate(&mut out, DirBase::Home, p5);
        let ghost c: Seq<CandidateView> = seq![
            cand(DirBase::Home, seq!["Haven"]),
            cand(DirBase::Home, seq!["Desktop", "Haven"]),
            cand(DirBase::Home, seq!["Documents", "Haven"]),
        ];
        assert(candidates_view(out@) =~= a + b + c);
        if config {
            let p6: Vec<&'static str> = vec!["HavenServer"];
            assert(p6@ =~= seq!["HavenServer"]);
            push_candidate(&mut out, DirBase::Config, p6);
            let p7: Vec<&'static str> = vec!["Haven"];
            assert(p7@ =~= seq!["Haven"]);
            push_candidate(&mut out, DirBase::Config, p7);
            let p8: Vec<&'static str> = vec!["haven"];
            assert(p8@ =~= seq!["haven"]);
            push_candidate(&mut out, DirBase::Config, p8);
        }
        let ghost d: Seq<CandidateView> = if config {
            seq![
                cand(DirBase::Config, seq!["HavenServer"]),
                cand(DirBase::Config, seq!["Haven"]),
                cand(DirBase::Config, seq!["haven"]),
            ]
        } else { seq![] };
        assert(candidates_view(out@) =~= a + b + c + d);
        if data_local {
            let p9: Vec<&'static str> = vec!["Programs", "Haven"];
            assert(p9@ =~= seq!["Programs", "Haven"]);
            push_candidate(&mut out, DirBase::DataLocal, p9);
            let p10: Vec<&'static str> = vec!["Programs", "haven"];
            assert(p10@ =~= seq!["Programs", "haven"]);
            push_candidate(&mut out, DirBase::DataLocal, p10);
            let p11: Vec<&'static str> = vec!["Programs", "HavenServer"];
            assert(p11@ =~= seq!["Programs", "HavenServer"]);
            push_candidate(&mut out, DirBase::DataLocal, p11);
        }
        let ghost e: Seq<CandidateView> = if data_local {
            seq![
                cand(DirBase::DataLocal, seq!["Programs", "Haven"]),
                cand(DirBase::DataLocal, seq!["Programs", "haven"]),
                cand(DirBase::DataLocal, seq!["Programs", "HavenServer"]),
            ]
        } else { seq![] };
        assert(candidates_view(out@) =~= a + b + c + d + e);
        assert(a + b + (c + d + e) =~= a + b + c + d + e);
    } else {
        assert(a + b + seq![] =~= a + b);
    }
    out
}

impl DetectResult {
    /// Nothing was found.
    pub fn not_found() -> (r: DetectResult)
        ensures
            !r.found,
            r.path is None,
            r.version is None,
    {
        DetectResult { found: false, path: None, version: None }
    }
}

/// The `name` and `version` strings of a `package.json` (each `None` when
/// missing or not a string).
pub struct PackageFields {
    pub name: Option<String>,
    pub version: Option<String>,
}

/// What `serde_json::from_str::<serde_json::Value>` makes of a text, read
/// as the strings under `"name"` and `"version"` (`None` when the text is
/// not JSON).
pub uninterp spec fn package_json_fields(text: Seq<char>) -> Option<(Option<Seq<char>>, Option<Seq<char>>)>;

/// `serde_json::from_str` into a `serde_json::Value`, then `get("name")` and
/// `get("version")` read with `as_str`. Claimed: the outcome depends on the
/// text alone and is named `package_json_fields`.
#[verifier::external_body]
fn parse_package_json(text: &str) -> (r: Option<PackageFields>)
    ensures
        match r {
            Some(f) => package_json_fields(text@) == Some((opt_view(f.name), opt_view(f.version))),
            None => package_json_fields(text@) is None,
        },
{
    let v: serde_json::Value = serde_json::from_str(text).ok()?;
    Some(PackageFields {
        name: v.get("name").and_then(|x| x.as_str()).map(|x| x.to_string()),
        version: v.get("version").and_then(|x| x.as_str()).map(|x| x.to_string()),
    })
}

/// The finding for the directory `dir` whose `package.json` read as
/// `fields`: a Haven server when the package is named `haven`.
pub open spec fn detect_from_fields_spec(
    dir: Seq<char>,
    fields: Option<(Option<Seq<char>>, Option<Seq<char>>)>,
) -> Option<(Seq<char>, Option<Seq<char>>)> {
    match fields {
        Some((name, version)) => if name == Some("haven"@) {
            Some((dir, version))
        } else {
            None
        },
        None => None,
    }
}

pub fn detect_from_fields(dir: &str, fields: Option<PackageFields>) -> (r: Option<DetectResult>)
    ensures
        match detect_from_fields_spec(
            dir@,
            match fields {
                Some(f) => Some((opt_view(f.name), opt_view(f.version))),
                None => None,
            },
        ) {
            Some((p, v)) => r matches Some(d) && d.found && opt_view(d.path) == Some(p) && opt_view(d.version) == v,
            None => r is None,
        },
{
    match fields {
        Some(f) => {
            let is_haven = match &f.name {
                Some(n) => chars_eq(&chars_of(n.as_str()), &chars_of("haven")),
                None => false,
            };
            if is_haven {
                Some(DetectResult { found: true, path: Some(String::from_str(dir)), version: f.version })
            } else {
                None
            }
        },
        None => None,
    }
}

/// Inspects the directory `dir`: it holds a Haven server when both
/// `server.js` and `package.json` are there (`files_present`), the package
/// file could be read (`package_json`), and, with a leading byte-order mark
/// removed, it is JSON naming the package `haven`.
pub open spec fn inspect_spec(dir: Seq<char>, files_present: bool, package_json: Option<Seq<char>>) -> Option<
    (Seq<char>, Option<Seq<char>>),
> {
    if !files_present {
        None
    } else {
        match package_json {
            Some(raw) => detect_from_fields_spec(
                dir,
                package_json_fields(trim_start_char(raw, '\u{feff}')),
            ),
            None => None,
        }
    }
}

pub fn inspect_haven_dir(dir: &str, files_present: bool, package_json: Option<&str>) -> (r: Option<DetectResult>)
    ensures
        match inspect_spec(dir@, files_present, match package_json {
            Some(t) => Some(t@),
            None => None,
        }) {
            Some((p, v)) => r matches Some(d) && d.found && opt_view(d.path) == Some(p) && opt_view(d.version) == v,
            None => r is None,
        },
{
    if !files_present {
        return None;
    }
    match package_json {
        Some(raw) => {
            let cleaned = string_of(&trim_start_matches(&chars_of(raw), '\u{feff}'));
            let fields = parse_package_json(cleaned.as_str());
            detect_from_fields(dir, fields)
        },
        None => None,
    }
}

} // verus!
