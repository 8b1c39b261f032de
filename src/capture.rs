//! Bounded capture: a one-shot dictation that runs for a fixed wall-clock
//! window, whatever is said, and then concludes with the text it captured.

use vstd::prelude::*;
use vstd::string::*;
use crate::dispatch::elapsed;

verus! {

/// Default length of a capture window.
pub const CAPTURE_WINDOW_MS: u64 = 5000;

/// The state of a capture, as values.
pub struct CaptureState {
    pub started_at: u64,
    pub window_ms: u64,
    /// The latest non-empty hypothesis heard, or empty.
    pub text: Seq<char>,
}

/// A running capture window.
pub struct Capture {
    started_at: u64,
    window_ms: u64,
    text: String,
}

impl View for Capture {
    type V = CaptureState;

    closed spec fn view(&self) -> CaptureState {
        CaptureState { started_at: self.started_at, window_ms: self.window_ms, text: self.text@ }
    }
}

impl Capture {
    /// Starts a capture at `now` that lasts `window_ms`.
    pub fn start(now: u64, window_ms: u64) -> (r: Capture)
        ensures
            r@ == (CaptureState { started_at: now, window_ms, text: Seq::empty() }),
    {
        let r = Capture { started_at: now, window_ms, text: String::new() };
        assert(r@ =~= (CaptureState { started_at: now, window_ms, text: Seq::empty() }));
        r
    }

    /// Records a hypothesis, already normalised: a non-empty one replaces the
    /// captured text, an empty one is ignored.
    pub fn on_hypothesis(&mut self, text: &String)
        ensures
            final(self)@ == (if text@.len() == 0 {
                old(self)@
            } else {
                CaptureState { text: text@, ..old(self)@ }
            }),
    {
        if text.as_str().unicode_len() > 0 {
            self.text = text.clone();
        }
    }

    /// Whether the window has run out at time `now`.
    pub open spec fn expired(&self, now: u64) -> bool {
        elapsed(now, self@.started_at) >= self@.window_ms
    }

    /// At time `now`: the captured text (possibly empty) once the window has
    /// run out, `None` before.
    pub fn on_tick(&self, now: u64) -> (r: Option<String>)
        ensures
            r.is_some() <==> self.expired(now),
            r matches Some(t) ==> t@ == self@.text,
    {
        let since = if now >= self.started_at {
            now - self.started_at
        } else {
            0
        };
        if since >= self.window_ms {
            Some(self.text.clone())
        } else {
            None
        }
    }
}

} // verus!
