//! Trust decisions for server certificates that the system does not trust
//! (self-signed Haven servers): a certificate whose SHA-256 fingerprint the
//! user pinned for its host is accepted; a host the user refused stays
//! refused for the session; otherwise the user is asked once per host while
//! every request for that host waits for the answer.
use vstd::prelude::*;
use vstd::string::StringExecFns;
use sha2::Digest;
use crate::text::{chars_of, string_of, push_all, chars_eq, ends_with, ends_with_spec, sub_chars, replace, replace_spec};
use crate::weburl::{hex_upper, opt_view};
use crate::session::StrMap;
use crate::i18n::{translate, translate_spec};

verus! {

// ---------------------------------------------------------------------------
// Fingerprints
// ---------------------------------------------------------------------------

/// The SHA-256 digest of `data`, as `sha2::Sha256::digest` computes it.
pub uninterp spec fn sha256_digest(data: Seq<u8>) -> Seq<u8>;

/// `sha2::Sha256::digest`. Claimed: the digest is a function of the input
/// alone (named `sha256_digest`) and is 32 bytes long (`OutputSize = U32`).
#[verifier::external_body]
fn sha256(data: &[u8]) -> (r: Vec<u8>)
    ensures
        r@ == sha256_digest(data@),
        r@.len() == 32,
{
    sha2::Sha256::digest(data).to_vec()
}

/// A byte as two upper-case hexadecimal digits.
pub open spec fn hex_pair(b: u8) -> Seq<char> {
    seq![hex_upper(b / 16), hex_upper(b % 16)]
}

/// Bytes as upper-case hexadecimal pairs joined by `:`.
pub open spec fn colon_hex(bytes: Seq<u8>) -> Seq<char>
    decreases bytes.len(),
{
    if bytes.len() == 0 {
        Seq::empty()
    } else if bytes.len() == 1 {
        hex_pair(bytes[0])
    } else {
        colon_hex(bytes.drop_last()) + seq![':'] + hex_pair(bytes.last())
    }
}

fn hex_digit(d: u8) -> (c: char)
    requires
        d < 16,
    ensures
        c == hex_upper(d),
{
    if d < 10 {
        (48u8 + d) as char
    } else {
        (55u8 + d) as char
    }
}

/// The digest bytes written as the fingerprint the dialog shows.
pub fn fingerprint_of_digest(digest: &[u8]) -> (r: String)
    ensures
        r@ == colon_hex(digest@),
{
    let mut out: Vec<char> = Vec::new();
    let mut i: usize = 0;
    while i < digest.len()
        invariant
            i <= digest.len(),
            out@ == colon_hex(digest@.take(i as int)),
        decreases digest.len() - i,
    {
        let b = digest[i];
        if i > 0 {
            out.push(':');
        }
        out.push(hex_digit(b / 16));
        out.push(hex_digit(b % 16));
        proof {
            let t = digest@.take(i + 1);
            assert(t.drop_last() =~= digest@.take(i as int));
            assert(t.last() == b);
            if i == 0 {
                assert(out@ =~= hex_pair(b));
            } else {
                assert(out@ =~= colon_hex(digest@.take(i as int)) + seq![':'] + hex_pair(b));
            }
        }
        i = i + 1;
    }
    assert(digest@.take(digest.len() as int) =~= digest@);
    string_of(&out)
}

/// The SHA-256 fingerprint of a DER certificate, `AB:CD:...`.
pub open spec fn fingerprint_spec(der: Seq<u8>) -> Seq<char> {
    colon_hex(sha256_digest(der))
}

pub fn fingerprint(der: &[u8]) -> (r: String)
    ensures
        r@ == fingerprint_spec(der@),
{
    let d = sha256(der);
    fingerprint_of_digest(d.as_slice())
}

// ---------------------------------------------------------------------------
// The decision state
// ---------------------------------------------------------------------------

/// The state of the trust decisions: the hosts the user refused this
/// session, and per host the tickets of the requests waiting for the
/// user's answer, in the order they came.
pub struct CertTrust {
    pub refused: Vec<String>,
    pub waiting: StrMap<Vec<u64>>,
}

pub struct TrustView {
    pub refused: Set<Seq<char>>,
    pub waiting: Map<Seq<char>, Seq<u64>>,
}

pub open spec fn tickets_view(m: Map<Seq<char>, Vec<u64>>) -> Map<Seq<char>, Seq<u64>> {
    m.map_values(|v: Vec<u64>| v@)
}

impl View for CertTrust {
    type V = TrustView;

    open spec fn view(&self) -> TrustView {
        TrustView {
            refused: self.refused@.map_values(|s: String| s@).to_set(),
            waiting: tickets_view(self.waiting@),
        }
    }
}

/// What happens to one certificate request.
pub enum CertDecision {
    /// refuse it now
    Refuse,
    /// accept it now
    Accept,
    /// wait: the user is already being asked about this host
    Queued,
    /// wait, and ask the user: `previous` is the pinned fingerprint that no
    /// longer matches, if any
    Prompt { fingerprint: String, previous: Option<String> },
}

/// The kinds of decision, for contracts.
pub enum Verdict {
    Refuse,
    Accept,
    Queued,
    Prompt,
}

pub open spec fn verdict_of(d: CertDecision) -> Verdict {
    match d {
        CertDecision::Refuse => Verdict::Refuse,
        CertDecision::Accept => Verdict::Accept,
        CertDecision::Queued => Verdict::Queued,
        CertDecision::Prompt { .. } => Verdict::Prompt,
    }
}

/// The decision for a certificate of `host` with fingerprint `fp` (its
/// DER bytes empty or not), given the fingerprint pinned for the host.
pub open spec fn decide_verdict(
    s: TrustView,
    host: Seq<char>,
    der_empty: bool,
    fp: Seq<char>,
    pinned: Option<Seq<char>>,
) -> Verdict {
    if der_empty || s.refused.contains(host) {
        Verdict::Refuse
    } else if pinned == Some(fp) {
        Verdict::Accept
    } else if s.waiting.contains_key(host) {
        Verdict::Queued
    } else {
        Verdict::Prompt
    }
}

/// The state after that decision: a request that waits is queued under its host.
pub open spec fn decide_next(
    s: TrustView,
    host: Seq<char>,
    der_empty: bool,
    fp: Seq<char>,
    pinned: Option<Seq<char>>,
    ticket: u64,
) -> TrustView {
    match decide_verdict(s, host, der_empty, fp, pinned) {
        Verdict::Queued => TrustView { refused: s.refused, waiting: s.waiting.insert(host, s.waiting[host].push(ticket)) },
        Verdict::Prompt => TrustView { refused: s.refused, waiting: s.waiting.insert(host, seq![ticket]) },
        _ => s,
    }
}

/// The user answered for `host`: a refusal is remembered, and no request
/// waits for the host any more.
pub open spec fn settle_next(s: TrustView, host: Seq<char>, ok: bool) -> TrustView {
    TrustView {
        refused: if ok { s.refused } else { s.refused.insert(host) },
        waiting: s.waiting.remove(host),
    }
}

/// The tickets answered when the user answers for `host`.
pub open spec fn settled_tickets(s: TrustView, host: Seq<char>) -> Seq<u64> {
    if s.waiting.contains_key(host) {
        s.waiting[host]
    } else {
        Seq::empty()
    }
}

fn contains_string(v: &Vec<String>, s: &str) -> (r: bool)
    ensures
        r == v@.map_values(|x: String| x@).to_set().contains(s@),
{
    let target = chars_of(s);
    let ghost vs = v@.map_values(|x: String| x@);
    let mut i: usize = 0;
    while i < v.len()
        invariant
            i <= v.len(),
            vs == v@.map_values(|x: String| x@),
            target@ == s@,
            forall|j: int| 0 <= j < i ==> vs[j] != s@,
        decreases v.len() - i,
    {
        if chars_eq(&chars_of(v[i].as_str()), &target) {
            assert(vs[i as int] == s@);
            assert(vs.contains(s@));
            return true;
        }
        i = i + 1;
    }
    assert(!vs.contains(s@));
    false
}

impl CertTrust {
    pub fn new() -> (r: CertTrust)
        ensures
            r@.refused == Set::<Seq<char>>::empty(),
            r@.waiting == Map::<Seq<char>, Seq<u64>>::empty(),
    {
        let r = CertTrust { refused: Vec::new(), waiting: StrMap::new() };
        assert(r@.refused =~= Set::<Seq<char>>::empty());
        assert(r@.waiting =~= Map::<Seq<char>, Seq<u64>>::empty());
        r
    }

    /// Decides on a certificate of `host` with DER bytes `der`, given the
    /// fingerprint pinned for the host (if any); `ticket` names the request
    /// in case it has to wait.
    pub fn decide(&mut self, host: &str, der: &[u8], pinned: Option<&str>, ticket: u64) -> (r: CertDecision)
        ensures
            verdict_of(r) == decide_verdict(
                old(self)@,
                host@,
                der@.len() == 0,
                fingerprint_spec(der@),
                match pinned { Some(p) => Some(p@), None => None },
            ),
            r matches CertDecision::Prompt { fingerprint, previous } ==> fingerprint@ == fingerprint_spec(der@)
                && opt_view(previous) == (match pinned { Some(p) => Some(p@), None => None }),
            final(self)@ == decide_next(
                old(self)@,
                host@,
                der@.len() == 0,
                fingerprint_spec(der@),
                match pinned { Some(p) => Some(p@), None => None },
                ticket,
            ),
    {
        let fp = fingerprint(der);
        if der.len() == 0 || contains_string(&self.refused, host) {
            return CertDecision::Refuse;
        }
        let matches_pin = match pinned {
            Some(p) => chars_eq(&chars_of(p), &chars_of(fp.as_str())),
            None => false,
        };
        if matches_pin {
            return CertDecision::Accept;
        }
        let queued: Option<Vec<u64>> = match self.waiting.get(host) {
            Some(q) => Some(q.clone()),
            None => None,
        };
        match queued {
            Some(q) => {
                let mut q = q;
                q.push(ticket);
                self.waiting.insert(String::from_str(host), q);
                proof {
                    assert(final(self)@.waiting =~= old(self)@.waiting.insert(host@, old(self)@.waiting[host@].push(ticket)));
                }
                CertDecision::Queued
            },
            None => {
                let fresh: Vec<u64> = vec![ticket];
                assert(fresh@ =~= seq![ticket]);
                self.waiting.insert(String::from_str(host), fresh);
                proof {
                    assert(final(self)@.waiting =~= old(self)@.waiting.insert(host@, seq![ticket]));
                }
                CertDecision::Prompt {
                    fingerprint: fp,
                    previous: match pinned {
                        Some(p) => Some(String::from_str(p)),
                        None => None,
                    },
                }
            },
        }
    }

    /// The user answered the question about `host` (`ok`: trust it). Returns
    /// the tickets of the requests that waited for that answer, in order.
    pub fn settle(&mut self, host: &str, ok: bool) -> (r: Vec<u64>)
        ensures
            r@ == settled_tickets(old(self)@, host@),
            final(self)@ == settle_next(old(self)@, host@, ok),
    {
        if !ok {
            let ghost before = self.refused@;
            self.refused.push(String::from_str(host));
            proof {
                assert(self.refused@.map_values(|x: String| x@) =~= before.map_values(|x: String| x@).push(host@));
                before.map_values(|x: String| x@).lemma_push_to_set_commute(host@);
            }
        }
        let tickets: Vec<u64> = match self.waiting.get(host) {
            Some(q) => q.clone(),
            None => Vec::new(),
        };
        self.waiting.remove(host);
        proof {
            assert(final(self)@.waiting =~= old(self)@.waiting.remove(host@));
            if !ok {
                assert(final(self)@.refused =~= old(self)@.refused.insert(host@));
            }
        }
        tickets
    }
}

// ---------------------------------------------------------------------------
// Laws
// ---------------------------------------------------------------------------

/// A host the user refused is refused from then on: every later request for
/// it is refused, and neither decisions nor answers take a refusal back.
pub proof fn law_refusal_is_final(
    s: TrustView,
    host: Seq<char>,
    other: Seq<char>,
    der_empty: bool,
    fp: Seq<char>,
    pinned: Option<Seq<char>>,
    ticket: u64,
    ok: bool,
)
    requires
        s.refused.contains(host),
    ensures
        decide_verdict(s, host, der_empty, fp, pinned) == Verdict::Refuse,
        decide_next(s, other, der_empty, fp, pinned, ticket).refused.contains(host),
        settle_next(s, other, ok).refused.contains(host),
{
}

/// The user is asked once per host: while a question about a host is open,
/// further requests for it wait without a second question.
pub proof fn law_one_question_per_host(
    s: TrustView,
    host: Seq<char>,
    fp: Seq<char>,
    pinned: Option<Seq<char>>,
    ticket: u64,
    fp2: Seq<char>,
    pinned2: Option<Seq<char>>,
    ticket2: u64,
)
    requires
        decide_verdict(s, host, false, fp, pinned) == Verdict::Prompt,
        pinned2 != Some(fp2),
    ensures
        decide_verdict(decide_next(s, host, false, fp, pinned, ticket), host, false, fp2, pinned2)
            == Verdict::Queued,
{
}

/// Every request that waited for the answer about a host gets it, in the
/// order the requests came, and afterwards nothing waits for that host.
pub proof fn law_answer_reaches_every_waiting_request(
    s: TrustView,
    host: Seq<char>,
    fp: Seq<char>,
    pinned: Option<Seq<char>>,
    ticket: u64,
    ok: bool,
)
    requires
        decide_verdict(s, host, false, fp, pinned) == Verdict::Prompt
            || decide_verdict(s, host, false, fp, pinned) == Verdict::Queued,
    ensures
        settled_tickets(decide_next(s, host, false, fp, pinned, ticket), host) == settled_tickets(s, host).push(
            ticket,
        ),
        !settle_next(decide_next(s, host, false, fp, pinned, ticket), host, ok).waiting.contains_key(host),
{
    if decide_verdict(s, host, false, fp, pinned) == Verdict::Prompt {
        assert(settled_tickets(s, host) =~= Seq::<u64>::empty());
        assert(seq![ticket] =~= Seq::<u64>::empty().push(ticket));
    }
}

/// A certificate matching the fingerprint pinned for its host is accepted
/// without a question (unless the host was refused), and nothing changes.
pub proof fn law_pinned_certificate_accepted(
    s: TrustView,
    host: Seq<char>,
    fp: Seq<char>,
    ticket: u64,
)
    requires
        !s.refused.contains(host),
    ensures
        decide_verdict(s, host, false, fp, Some(fp)) == Verdict::Accept,
        decide_next(s, host, false, fp, Some(fp), ticket) == s,
{
}

// ---------------------------------------------------------------------------
// The question
// ---------------------------------------------------------------------------

/// `s` with every trailing copy of `pat` removed (`str::trim_end_matches`).
pub open spec fn trim_end_str(s: Seq<char>, pat: Seq<char>) -> Seq<char>
    decreases s.len(),
{
    if pat.len() > 0 && ends_with_spec(s, pat) {
        trim_end_str(s.take(s.len() - pat.len()), pat)
    } else {
        s
    }
}

pub fn trim_end_matches_str(v: &[char], pat: &[char]) -> (r: Vec<char>)
    ensures
        r@ == trim_end_str(v@, pat@),
{
    let mut cur: Vec<char> = sub_chars(v, 0, v.len());
    assert(cur@ =~= v@);
    if pat.len() == 0 {
        return cur;
    }
    while ends_with(&cur, pat)
        invariant
            pat.len() > 0,
            trim_end_str(cur@, pat@) == trim_end_str(v@, pat@),
        decreases cur.len(),
    {
        let n = cur.len() - pat.len();
        cur = sub_chars(&cur, 0, n);
    }
    cur
}

/// The texts of the question about a certificate.
pub struct CertPrompt {
    pub title: String,
    pub body: String,
    pub trust_label: String,
    pub cancel_label: String,
}

/// The host as the question names it: without a trailing `:443`.
pub open spec fn shown_host(host: Seq<char>) -> Seq<char> {
    trim_end_str(host, ":443"@)
}

/// A message of the question, with `{host}` filled in.
pub open spec fn cert_text(locale: Seq<char>, key: Seq<char>, host: Seq<char>) -> Seq<char> {
    translate_spec(locale, key, seq![("host"@, shown_host(host))])
}

/// A message of the question with `{host}` and then `{value}` filled in.
pub open spec fn cert_value_text(locale: Seq<char>, key: Seq<char>, host: Seq<char>, value: Seq<char>) -> Seq<char> {
    replace_spec(cert_text(locale, key, host), "{value}"@, value)
}

pub open spec fn cert_body_spec(locale: Seq<char>, host: Seq<char>, fp: Seq<char>, previous: Option<Seq<char>>) -> Seq<char> {
    match previous {
        Some(old) => cert_text(locale, "cert.changedMessage"@, host) + "\n\n"@ + cert_text(
            locale,
            "cert.changedDetail"@,
            host,
        ) + "\n\n"@ + cert_value_text(locale, "cert.previousFingerprint"@, host, old) + "\n"@
            + cert_value_text(locale, "cert.fingerprint"@, host, fp),
        None => cert_text(locale, "cert.unknownMessage"@, host) + "\n\n"@ + cert_text(
            locale,
            "cert.unknownDetail"@,
            host,
        ) + "\n\n"@ + cert_value_text(locale, "cert.fingerprint"@, host, fp),
    }
}

fn text_for(locale: &str, key: &str, shown: &String) -> (r: Vec<char>)
    ensures
        r@ == translate_spec(locale@, key@, seq![("host"@, shown@)]),
{
    let pairs: Vec<(String, String)> = vec![(String::from_str("host"), shown.clone())];
    proof {
        assert(crate::i18n::pairs_view(pairs@) =~= seq![("host"@, shown@)]);
    }
    chars_of(translate(locale, key, pairs.as_slice()).as_str())
}

fn value_text_for(locale: &str, key: &str, shown: &String, value: &str) -> (r: Vec<char>)
    ensures
        r@ == replace_spec(translate_spec(locale@, key@, seq![("host"@, shown@)]), "{value}"@, value@),
{
    let t = text_for(locale, key, shown);
    proof {
        reveal_strlit("{value}");
    }
    replace(&t, &chars_of("{value}"), &chars_of(value))
}

/// The question about a certificate of `host` with fingerprint `fp`:
/// about a changed certificate when a different fingerprint was pinned
/// (`previous`), about an unknown one otherwise.
pub fn cert_prompt(locale: &str, host: &str, fp: &str, previous: Option<&str>) -> (r: CertPrompt)
    ensures
        r.title@ == cert_text(locale@, "cert.title"@, host@),
        r.body@ == cert_body_spec(locale@, host@, fp@, match previous { Some(p) => Some(p@), None => None }),
        r.trust_label@ == cert_text(
            locale@,
            if previous is Some { "cert.trustNew"@ } else { "cert.trust"@ },
            host@,
        ),
        r.cancel_label@ == translate_spec(locale@, "dialog.cancel"@, seq![]),
{
    let shown = string_of(&trim_end_matches_str(&chars_of(host), &chars_of(":443")));
    let title = text_for(locale, "cert.title", &shown);
    let sep2 = chars_of("\n\n");
    let mut body: Vec<char>;
    let trust: Vec<char>;
    match previous {
        Some(old) => {
            body = text_for(locale, "cert.changedMessage", &shown);
            push_all(&mut body, &sep2);
            push_all(&mut body, &text_for(locale, "cert.changedDetail", &shown));
            push_all(&mut body, &sep2);
            push_all(&mut body, &value_text_for(locale, "cert.previousFingerprint", &shown, old));
            push_all(&mut body, &chars_of("\n"));
            push_all(&mut body, &value_text_for(locale, "cert.fingerprint", &shown, fp));
            trust = text_for(locale, "cert.trustNew", &shown);
        },
        None => {
            body = text_for(locale, "cert.unknownMessage", &shown);
            push_all(&mut body, &sep2);
            push_all(&mut body, &text_for(locale, "cert.unknownDetail", &shown));
            push_all(&mut body, &sep2);
            push_all(&mut body, &value_text_for(locale, "cert.fingerprint", &shown, fp));
            trust = text_for(locale, "cert.trust", &shown);
        },
    }
    let empty: Vec<(String, String)> = Vec::new();
    proof {
        assert(crate::i18n::pairs_view(empty@) =~= Seq::<(Seq<char>, Seq<char>)>::empty());
    }
    let cancel = translate(locale, "dialog.cancel", empty.as_slice());
    CertPrompt {
        title: string_of(&title),
        body: string_of(&body),
        trust_label: string_of(&trust),
        cancel_label: cancel,
    }
}

} // verus!
