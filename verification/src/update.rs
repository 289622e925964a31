//! Self-update: the update that was found and the downloaded one waiting to
//! be installed, the download's progress, and the messages shown to the user.
use vstd::prelude::*;
use vstd::string::StringExecFns;
use crate::i18n::{translate, translate_spec, pairs_view};

verus! {

/// The update found by the last check (`pending`) and the one downloaded and
/// ready to install, with its bytes (`ready`).
pub struct UpdateSlots<U> {
    pub pending: Option<U>,
    pub ready: Option<(U, Vec<u8>)>,
}

/// What a download request starts with.
pub enum DownloadStart<U> {
    /// download this update
    Download(U),
    /// nothing to download, but an update is already downloaded
    AlreadyReady,
    /// no update is known
    Unavailable,
}

/// How a download ended, as reported to the page.
pub enum DownloadReport {
    Done,
    Failed(String),
}


/// The state after a download request: the pending update is taken.
pub open spec fn after_begin<U>(s: UpdateSlots<U>) -> UpdateSlots<U> {
    UpdateSlots { pending: None, ready: s.ready }
}

/// What a download request starts with, in state `s`.
pub open spec fn begin_spec<U>(s: UpdateSlots<U>) -> DownloadStart<U> {
    match s.pending {
        Some(u) => DownloadStart::Download(u),
        None => if s.ready is Some {
            DownloadStart::AlreadyReady
        } else {
            DownloadStart::Unavailable
        },
    }
}

/// The state after the download of `u` ended with `result`.
pub open spec fn after_download<U>(s: UpdateSlots<U>, u: U, result: Result<Vec<u8>, String>) -> UpdateSlots<U> {
    match result {
        Ok(bytes) => UpdateSlots { pending: s.pending, ready: Some((u, bytes)) },
        Err(_) => UpdateSlots { pending: Some(u), ready: s.ready },
    }
}

impl<U> UpdateSlots<U> {
    pub fn new() -> (r: UpdateSlots<U>)
        ensures
            r.pending is None,
            r.ready is None,
    {
        UpdateSlots { pending: None, ready: None }
    }

    /// A check found the update `u`: it is the one to download.
    pub fn offer(&mut self, u: U)
        ensures
            final(self).pending == Some(u),
            final(self).ready == old(self).ready,
    {
        self.pending = Some(u);
    }

    /// A download request takes the pending update; without one it reports
    /// whether a downloaded update is waiting.
    pub fn begin_download(&mut self) -> (r: DownloadStart<U>)
        ensures
            *final(self) == after_begin(*old(self)),
            r == begin_spec(*old(self)),
    {
        match self.pending.take() {
            Some(u) => DownloadStart::Download(u),
            None => if self.ready.is_some() {
                DownloadStart::AlreadyReady
            } else {
                DownloadStart::Unavailable
            },
        }
    }

    /// The download of `u` ended: its bytes make it ready to install; on a
    /// failure it is pending again, so a later request retries it.
    pub fn download_finished(&mut self, u: U, result: Result<Vec<u8>, String>) -> (r: DownloadReport)
        ensures
            *final(self) == after_download(*old(self), u, result),
            match result {
                Ok(_) => r is Done,
                Err(e) => r matches DownloadReport::Failed(m) && m@ == e@,
            },
    {
        match result {
            Ok(bytes) => {
                self.ready = Some((u, bytes));
                DownloadReport::Done
            },
            Err(e) => {
                self.pending = Some(u);
                DownloadReport::Failed(e)
            },
        }
    }

    /// Installing takes the downloaded update, if any.
    pub fn take_ready(&mut self) -> (r: Option<(U, Vec<u8>)>)
        ensures
            r == old(self).ready,
            final(self).ready is None,
            final(self).pending == old(self).pending,
    {
        self.ready.take()
    }
}


/// A failed download keeps the update: the next download request starts the
/// same update again.
pub proof fn law_failed_download_is_retried<U>(s: UpdateSlots<U>, u: U, e: String)
    ensures
        begin_spec(after_download(after_begin(s), u, Err(e))) == DownloadStart::Download(u),
{
}

/// A finished download is what installing takes, bytes and all.
pub proof fn law_downloaded_update_is_installed<U>(s: UpdateSlots<U>, u: U, bytes: Vec<u8>)
    ensures
        after_download(s, u, Ok(bytes)).ready == Some((u, bytes)),
        begin_spec(after_download(after_begin(s), u, Ok(bytes))) is AlreadyReady,
{
}

/// The bytes received so far.
pub struct DownloadProgress {
    pub got: u64,
}

impl DownloadProgress {
    pub fn new() -> (r: DownloadProgress)
        ensures
            r.got == 0,
    {
        DownloadProgress { got: 0 }
    }

    /// A chunk of `chunk` bytes arrived; with a known, non-zero total the
    /// new percentage is returned (rounded down).
    pub fn on_chunk(&mut self, chunk: u64, total: Option<u64>) -> (r: Option<u64>)
        requires
            old(self).got + chunk <= u64::MAX,
            (old(self).got + chunk) * 100 <= u64::MAX,
        ensures
            final(self).got == old(self).got + chunk,
            match total {
                Some(t) => if t > 0 {
                    r == Some(((final(self).got * 100) / (t as int)) as u64)
                } else {
                    r is None
                },
                None => r is None,
            },
    {
        self.got = self.got + chunk;
        match total {
            Some(t) => if t > 0 {
                Some(self.got * 100 / t)
            } else {
                None
            },
            None => None,
        }
    }
}

/// A message of the update dialogs with one placeholder filled.
pub open spec fn update_text(locale: Seq<char>, key: Seq<char>, name: Seq<char>, value: Seq<char>) -> Seq<char> {
    translate_spec(locale, key, seq![(name, value)])
}

fn text_with(locale: &str, key: &str, name: &str, value: &str) -> (r: String)
    ensures
        r@ == update_text(locale@, key@, name@, value@),
{
    let pairs: Vec<(String, String)> = vec![(String::from_str(name), String::from_str(value))];
    assert(pairs_view(pairs@) =~= seq![(name@, value@)]);
    translate(locale, key, pairs.as_slice())
}

/// How a check for updates ended.
pub enum CheckOutcome {
    /// a newer version was found
    Found { version: String },
    /// the running version (`current`) is the newest
    UpToDate { current: String },
    Failed { error: String },
}

/// The message a check ends with: only a check the user asked for says that
/// there is nothing new or that the check failed; a found update is offered
/// by its own question.
pub fn check_message(locale: &str, manual: bool, outcome: &CheckOutcome) -> (r: Option<String>)
    ensures
        match outcome {
            CheckOutcome::Found { .. } => r is None,
            CheckOutcome::UpToDate { current } => if manual {
                r matches Some(m) && m@ == update_text(locale@, "update.upToDate"@, "version"@, current@)
            } else {
                r is None
            },
            CheckOutcome::Failed { error } => if manual {
                r matches Some(m) && m@ == update_text(locale@, "update.error"@, "error"@, error@)
            } else {
                r is None
            },
        },
{
    if !manual {
        return None;
    }
    match outcome {
        CheckOutcome::Found { .. } => None,
        CheckOutcome::UpToDate { current } => Some(text_with(locale, "update.upToDate", "version", current.as_str())),
        CheckOutcome::Failed { error } => Some(text_with(locale, "update.error", "error", error.as_str())),
    }
}

/// Whether a check goes on to offer the update: every check that found one
/// does, the check at startup as much as one the user asked for.
pub fn offers_update(outcome: &CheckOutcome) -> (r: bool)
    ensures
        r == (*outcome is Found),
{
    match outcome {
        CheckOutcome::Found { .. } => true,
        _ => false,
    }
}

/// The question offering the update `version`.
pub fn available_message(locale: &str, version: &str) -> (r: String)
    ensures
        r@ == update_text(locale@, "update.available"@, "version"@, version@),
{
    text_with(locale, "update.available", "version", version)
}

/// The message of a failed download or installation.
pub fn failed_message(locale: &str, error: &str) -> (r: String)
    ensures
        r@ == update_text(locale@, "update.failed"@, "error"@, error@),
{
    text_with(locale, "update.failed", "error", error)
}

} // verus!
