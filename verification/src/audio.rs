//! Per-application audio capture: the records the native capture library's
//! answers become (the library itself is called by the shell).
use vstd::prelude::*;
use vstd::string::StringExecFns;

verus! {

/// An application that plays audio.
pub struct AudioApp {
    pub pid: u32,
    pub name: String,
    pub icon: String,
    pub active: bool,
}

/// A status report of a running capture.
pub struct CaptureStatus {
    pub kind: String,
    pub message: String,
    pub code: i64,
}

impl AudioApp {
    /// An application as the capture library lists it: missing texts are
    /// empty, and any non-zero `active` flag means active.
    pub fn from_native(pid: u32, name: Option<String>, icon: Option<String>, active: i32) -> (r: AudioApp)
        ensures
            r.pid == pid,
            r.name@ == (match name { Some(n) => n@, None => Seq::<char>::empty() }),
            r.icon@ == (match icon { Some(i) => i@, None => Seq::<char>::empty() }),
            r.active == (active != 0),
    {
        AudioApp {
            pid,
            name: match name {
                Some(n) => n,
                None => String::new(),
            },
            icon: match icon {
                Some(i) => i,
                None => String::new(),
            },
            active: active != 0,
        }
    }
}

impl CaptureStatus {
    /// A status as the capture library reports it: a missing kind means
    /// `stopped`, a missing message is empty.
    pub fn from_native(kind: Option<String>, message: Option<String>, code: i64) -> (r: CaptureStatus)
        ensures
            r.kind@ == (match kind { Some(k) => k@, None => "stopped"@ }),
            r.message@ == (match message { Some(m) => m@, None => Seq::<char>::empty() }),
            r.code == code,
    {
        CaptureStatus {
            kind: match kind {
                Some(k) => k,
                None => String::from_str("stopped"),
            },
            message: match message {
                Some(m) => m,
                None => String::new(),
            },
            code,
        }
    }
}

/// The capture mode handed to the library: a mode holding a NUL character
/// cannot be passed as a C string, and `include` is used instead.
pub fn capture_mode(mode: &str) -> (r: String)
    ensures
        (exists|i: int| 0 <= i < mode@.len() && mode@[i] == '\0') ==> r@ == "include"@,
        !(exists|i: int| 0 <= i < mode@.len() && mode@[i] == '\0') ==> r@ == mode@,
{
    let v = crate::text::chars_of(mode);
    let mut i: usize = 0;
    while i < v.len()
        invariant
            i <= v.len(),
            v@ == mode@,
            forall|j: int| 0 <= j < i ==> mode@[j] != '\0',
        decreases v.len() - i,
    {
        if v[i] == '\0' {
            return String::from_str("include");
        }
        i = i + 1;
    }
    String::from_str(mode)
}

/// A capture data callback carries samples only when it has some.
pub fn has_samples(present: bool, count: usize) -> (r: bool)
    ensures
        r == (present && count > 0),
{
    present && count > 0
}

} // verus!
