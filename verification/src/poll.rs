//! Decides, round by round, whether a new wallpaper is due.
//!
//! The caller asks the service for the time of its latest image, hands the
//! answer to [`Poller::observe`], does what the answer calls for, and reports
//! back with [`Poller::composited`].

use vstd::prelude::*;

verus! {

/// What to do after looking at the service's latest time.
#[derive(Debug, Clone, Copy, PartialEq, Eq, Structural)]
pub enum Step {
    /// Build a wallpaper from the image of this time.
    Regenerate(u64),
    /// Nothing new: wait for the next round.
    Sleep,
}

/// What to do after an attempt to build a wallpaper.
#[derive(Debug, Clone, Copy, PartialEq, Eq, Structural)]
pub enum After {
    /// The one wallpaper that was asked for is there: stop.
    Exit,
    /// Make the new wallpaper the desktop's background, then wait.
    SetWallpaper,
    /// The attempt failed: wait for the next round and try again.
    Sleep,
}

/// The time of the image that the current wallpaper shows, and whether one
/// wallpaper is all that is wanted.
#[derive(Debug, Clone, Copy, PartialEq, Eq, Structural)]
pub struct Poller {
    pub last: Option<u64>,
    pub once: bool,
}

/// The time to go by in a round: the one that was fetched, or, where the
/// fetch failed, the one of the current wallpaper, or zero where there is
/// no wallpaper yet.
pub open spec fn time_to_go_by(last: Option<u64>, fetched: Option<u64>) -> u64 {
    match fetched {
        Some(t) => t,
        None => match last {
            Some(t) => t,
            None => 0,
        },
    }
}

/// The step that a round calls for.
pub open spec fn step_for(last: Option<u64>, fetched: Option<u64>) -> Step {
    if last == Some(time_to_go_by(last, fetched)) {
        Step::Sleep
    } else {
        Step::Regenerate(time_to_go_by(last, fetched))
    }
}

impl Poller {
    /// A poller before the first wallpaper.
    pub fn new(once: bool) -> (p: Poller)
        ensures
            p == (Poller { last: None, once }),
    {
        Poller { last: None, once }
    }

    /// Looks at the latest time that the service reported, `None` where it
    /// could not be fetched, and says whether a wallpaper is to be built.
    pub fn observe(&self, fetched: Option<u64>) -> (step: Step)
        ensures
            step == step_for(self.last, fetched),
    {
        let time: u64 = match fetched {
            Some(t) => t,
            None => match self.last {
                Some(t) => t,
                None => 0,
            },
        };
        match self.last {
            Some(t) => if t == time {
                Step::Sleep
            } else {
                Step::Regenerate(time)
            },
            None => Step::Regenerate(time),
        }
    }

    /// Takes note of how the attempt to build the wallpaper for `time` went.
    pub fn composited(&mut self, time: u64, done: bool) -> (after: After)
        ensures
            final(self).once == old(self).once,
            final(self).last == (if done {
                Some(time)
            } else {
                old(self).last
            }),
            after == (if !done {
                After::Sleep
            } else if old(self).once {
                After::Exit
            } else {
                After::SetWallpaper
            }),
    {
        if !done {
            return After::Sleep;
        }
        self.last = Some(time);
        if self.once {
            After::Exit
        } else {
            After::SetWallpaper
        }
    }
}

/// Once the wallpaper for a time is built, that time calls for no other,
/// and neither does a round in which the time could not be fetched.
pub proof fn lemma_no_rebuild_for_same_time(time: u64)
    ensures
        step_for(Some(time), Some(time)) == Step::Sleep,
        step_for(Some(time), None) == Step::Sleep,
{
}

/// Any other time, and any time before the first wallpaper, calls for a
/// wallpaper of that time.
pub proof fn lemma_rebuild_for_new_time(last: Option<u64>, time: u64)
    requires
        last != Some(time),
    ensures
        step_for(last, Some(time)) == Step::Regenerate(time),
{
}

} // verus!
