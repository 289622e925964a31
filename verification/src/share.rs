//! The screen-share picker: the page asks which application's audio to share
//! along with the screen, and waits for the picker window's answer.
use vstd::prelude::*;

verus! {

/// The picker's result for the page: whether to go on sharing, and whether
/// application audio is being captured.
pub struct ShareChoice {
    pub ok: bool,
    pub audio: bool,
}

/// The picker's state: whether an open picker waits for its answer.
pub struct SharePicker {
    pub waiting: bool,
}

/// What opening the picker comes to.
pub enum PickerStart {
    /// audio capture is not supported here: share the screen without it
    Unsupported(ShareChoice),
    /// show the picker window; an earlier picker still waiting is answered
    /// "cancelled" first
    Show { cancel_earlier: bool },
}

/// What the picker's answer comes to.
pub enum PickerResult {
    /// finished: report this to the page
    Finished(ShareChoice),
    /// start capturing the audio of this process, then report
    Capture(u32),
}

pub open spec fn choice(ok: bool, audio: bool) -> ShareChoice {
    ShareChoice { ok, audio }
}

impl SharePicker {
    pub fn new() -> (r: SharePicker)
        ensures
            !r.waiting,
    {
        SharePicker { waiting: false }
    }

    /// Opening the picker: without audio capture support the answer is
    /// immediate; otherwise the picker waits for an answer.
    pub fn open(&mut self, audio_supported: bool) -> (r: PickerStart)
        ensures
            !audio_supported ==> r == PickerStart::Unsupported(choice(true, false))
                && final(self).waiting == old(self).waiting,
            audio_supported ==> (r matches PickerStart::Show { cancel_earlier } && cancel_earlier == old(self).waiting),
            audio_supported ==> final(self).waiting,
    {
        if !audio_supported {
            return PickerStart::Unsupported(ShareChoice { ok: true, audio: false });
        }
        let earlier = self.waiting;
        self.waiting = true;
        PickerStart::Show { cancel_earlier: earlier }
    }

    /// Delivers an answer to the waiting picker, if there is one: returns
    /// the answer to hand over (`None` when nobody waits).
    pub fn answer(&mut self, a: Option<u32>) -> (r: Option<Option<u32>>)
        ensures
            old(self).waiting ==> r == Some(a),
            !old(self).waiting ==> r is None,
            !final(self).waiting,
    {
        if self.waiting {
            self.waiting = false;
            Some(a)
        } else {
            None
        }
    }
}

/// The answer the picker window gives: nothing when cancelled, else the
/// chosen process (0 for "no application audio").
pub fn picker_answer(cancelled: bool, pid: Option<u32>) -> (r: Option<u32>)
    ensures
        cancelled ==> r is None,
        !cancelled ==> r == Some(match pid { Some(p) => p, None => 0 }),
{
    if cancelled {
        None
    } else {
        match pid {
            Some(p) => Some(p),
            None => Some(0),
        }
    }
}

/// What the picked answer means: cancelled (or the picker closed) stops
/// the share; process 0 shares without audio; any other process has its
/// audio captured.
pub fn picked(answer: Option<u32>) -> (r: PickerResult)
    ensures
        answer is None ==> r == PickerResult::Finished(choice(false, false)),
        answer == Some(0u32) ==> r == PickerResult::Finished(choice(true, false)),
        (answer matches Some(p) && p != 0) ==> r == PickerResult::Capture(answer->0),
{
    match answer {
        None => PickerResult::Finished(ShareChoice { ok: false, audio: false }),
        Some(p) => if p == 0 {
            PickerResult::Finished(ShareChoice { ok: true, audio: false })
        } else {
            PickerResult::Capture(p)
        },
    }
}

/// The report after the capture was asked to start.
pub fn captured(started: bool) -> (r: ShareChoice)
    ensures
        r == choice(true, started),
{
    ShareChoice { ok: true, audio: started }
}

} // verus!
