//! The challenge monitor: a one-shot watcher of the current address that
//! says once when a challenge shows up and once when the way is clear.

use crate::event::{AppEvent, AppEventView};
use crate::text::{contains, contains_ignoring_case, lowercased};
use vstd::prelude::*;

verus! {

/// Milliseconds between two looks at the current address.
pub const POLL_PAUSE: u64 = 1000;

/// What one look at the current address found.
#[derive(Debug, Clone, Copy, PartialEq, Eq, Structural)]
pub enum Poll {
    /// The address holds no challenge marker.
    Clear,
    /// The address holds the challenge marker.
    Marked,
    /// The address could not be read.
    Unreadable,
}

/// What the monitor tells the application.
#[derive(Debug, Clone, Copy, PartialEq, Eq, Structural)]
pub enum Signal {
    Detected,
    Resolved,
}

/// The state of the monitor.
#[derive(Debug, Clone, Copy, PartialEq, Eq, Structural)]
pub struct ChallengeMonitor {
    /// Whether a challenge was seen and not yet cleared.
    pub detected: bool,
    /// Whether the monitor has ended: it then looks no more.
    pub finished: bool,
}

/// Whether an address holds the challenge marker, in any letter case.
pub open spec fn is_marked(url: Seq<char>) -> bool {
    contains(lowercased(url), "captcha"@)
}

/// What a look that gave `url` found.
pub open spec fn poll_of(url: Option<Seq<char>>) -> Poll {
    match url {
        Some(address) => if is_marked(address) {
            Poll::Marked
        } else {
            Poll::Clear
        },
        None => Poll::Unreadable,
    }
}

/// The signals of one look, as a sequence.
pub open spec fn signals(signal: Option<Signal>) -> Seq<Signal> {
    match signal {
        Some(s) => seq![s],
        None => Seq::empty(),
    }
}

impl ChallengeMonitor {
    /// The monitor before its first look.
    pub open spec fn fresh() -> ChallengeMonitor {
        ChallengeMonitor { detected: false, finished: false }
    }

    /// The monitor after a look.
    pub open spec fn next(self, poll: Poll) -> ChallengeMonitor {
        if self.finished {
            self
        } else {
            match poll {
                Poll::Marked => ChallengeMonitor { detected: true, finished: false },
                Poll::Clear => ChallengeMonitor { detected: self.detected, finished: true },
                Poll::Unreadable => ChallengeMonitor { detected: self.detected, finished: true },
            }
        }
    }

    /// What the monitor says at a look.
    pub open spec fn says(self, poll: Poll) -> Option<Signal> {
        if self.finished {
            None
        } else {
            match poll {
                Poll::Marked => if self.detected {
                    None
                } else {
                    Some(Signal::Detected)
                },
                Poll::Clear => Some(Signal::Resolved),
                Poll::Unreadable => None,
            }
        }
    }

    /// Everything the monitor says over a sequence of looks, in order.
    pub open spec fn trace(self, polls: Seq<Poll>) -> Seq<Signal>
        decreases polls.len(),
    {
        if polls.len() == 0 {
            Seq::empty()
        } else {
            signals(self.says(polls[0])) + self.next(polls[0]).trace(polls.drop_first())
        }
    }

    /// A monitor before its first look.
    pub fn new() -> (monitor: Self)
        ensures
            monitor == ChallengeMonitor::fresh(),
    {
        ChallengeMonitor { detected: false, finished: false }
    }

    /// Takes one look into account and returns what to tell the application.
    pub fn observe(&mut self, poll: Poll) -> (signal: Option<Signal>)
        ensures
            *final(self) == old(self).next(poll),
            signal == old(self).says(poll),
    {
        if self.finished {
            return None;
        }
        match poll {
            Poll::Marked => {
                if self.detected {
                    None
                } else {
                    self.detected = true;
                    Some(Signal::Detected)
                }
            },
            Poll::Clear => {
                self.finished = true;
                Some(Signal::Resolved)
            },
            Poll::Unreadable => {
                self.finished = true;
                None
            },
        }
    }

    /// Takes the address that a look gave, or `None` where it could not be
    /// read, and returns the event to emit.
    pub fn poll(&mut self, url: Option<&str>) -> (event: Option<AppEvent>)
        ensures
            *final(self) == old(self).next(poll_of(address_of(url))),
            event_of(event) == signal_event(old(self).says(poll_of(address_of(url)))),
    {
        let found = classify(url);
        match self.observe(found) {
            Some(Signal::Detected) => Some(AppEvent::CaptchaDetected),
            Some(Signal::Resolved) => Some(AppEvent::CaptchaResolved),
            None => None,
        }
    }
}

/// The text of an optional address.
pub open spec fn address_of(url: Option<&str>) -> Option<Seq<char>> {
    match url {
        Some(address) => Some(address@),
        None => None,
    }
}

/// What an optional event holds.
pub open spec fn event_of(event: Option<AppEvent>) -> Option<AppEventView> {
    match event {
        Some(e) => Some(e@),
        None => None,
    }
}

/// The event that carries a signal.
pub open spec fn signal_event(signal: Option<Signal>) -> Option<AppEventView> {
    match signal {
        Some(Signal::Detected) => Some(AppEventView::CaptchaDetected),
        Some(Signal::Resolved) => Some(AppEventView::CaptchaResolved),
        None => None,
    }
}

/// Whether an address holds the challenge marker, in any letter case.
pub fn has_challenge_marker(url: &str) -> (marked: bool)
    ensures
        marked == is_marked(url@),
{
    contains_ignoring_case(url, "captcha")
}

/// Says what a look found.
pub fn classify(url: Option<&str>) -> (poll: Poll)
    ensures
        poll == poll_of(address_of(url)),
{
    match url {
        Some(address) => {
            if has_challenge_marker(address) {
                Poll::Marked
            } else {
                Poll::Clear
            }
        },
        None => Poll::Unreadable,
    }
}

/// A monitor that has ended says nothing more.
pub proof fn law_finished_is_silent(monitor: ChallengeMonitor, polls: Seq<Poll>)
    requires
        monitor.finished,
    ensures
        monitor.trace(polls) =~= Seq::<Signal>::empty(),
    decreases polls.len(),
{
    if polls.len() > 0 {
        law_finished_is_silent(monitor, polls.drop_first());
    }
}

/// Where the first look finds the address clear, the monitor says that the
/// way is clear, once, and never that a challenge was detected.
pub proof fn law_clear_at_first_look(polls: Seq<Poll>)
    requires
        polls.len() > 0,
        polls[0] == Poll::Clear,
    ensures
        ChallengeMonitor::fresh().trace(polls) =~= seq![Signal::Resolved],
{
    let fresh = ChallengeMonitor::fresh();
    law_finished_is_silent(fresh.next(Poll::Clear), polls.drop_first());
}

/// Once a challenge was detected, looks that find the marker say nothing,
/// and the first look that finds the address clear says so, once.
pub proof fn lemma_detected_until_clear(polls: Seq<Poll>, marked: nat)
    requires
        marked < polls.len(),
        forall|i: int| 0 <= i < marked ==> polls[i] == Poll::Marked,
        polls[marked as int] == Poll::Clear,
    ensures
        (ChallengeMonitor { detected: true, finished: false }).trace(polls) =~= seq![
            Signal::Resolved,
        ],
    decreases marked,
{
    let waiting = ChallengeMonitor { detected: true, finished: false };
    if marked == 0 {
        law_finished_is_silent(waiting.next(Poll::Clear), polls.drop_first());
    } else {
        assert(polls[0] == Poll::Marked);
        lemma_detected_until_clear(polls.drop_first(), (marked - 1) as nat);
    }
}

/// Where the marker is found at one or more looks in a row and the address
/// is clear at the next, the monitor says that a challenge was detected,
/// once, then that the way is clear, once, and nothing else.
pub proof fn law_detected_then_resolved(polls: Seq<Poll>, marked: nat)
    requires
        0 < marked < polls.len(),
        forall|i: int| 0 <= i < marked ==> polls[i] == Poll::Marked,
        polls[marked as int] == Poll::Clear,
    ensures
        ChallengeMonitor::fresh().trace(polls) =~= seq![Signal::Detected, Signal::Resolved],
{
    assert(polls[0] == Poll::Marked);
    lemma_detected_until_clear(polls.drop_first(), (marked - 1) as nat);
}

/// Whatever the looks find, the monitor says each thing once at most, and
/// that a challenge was detected only before it says that the way is clear.
pub proof fn law_no_signal_twice(monitor: ChallengeMonitor, polls: Seq<Poll>)
    ensures
        ({
            let said = monitor.trace(polls);
            ||| said =~= Seq::<Signal>::empty()
            ||| said =~= seq![Signal::Resolved]
            ||| (!monitor.detected && said =~= seq![Signal::Detected])
            ||| (!monitor.detected && said =~= seq![Signal::Detected, Signal::Resolved])
        }),
    decreases polls.len(),
{
    if polls.len() > 0 {
        if monitor.finished {
            law_finished_is_silent(monitor, polls);
        } else {
            let after = monitor.next(polls[0]);
            law_no_signal_twice(after, polls.drop_first());
            if after.finished {
                law_finished_is_silent(after, polls.drop_first());
            }
        }
    }
}

} // verus!
