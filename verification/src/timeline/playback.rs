use vstd::prelude::*;

use std::time::Instant;

use crate::clock::{instant_now, micros_since};
use crate::timeline::state::clamp_i64;

verus! {

#[derive(Clone, Copy, Debug, PartialEq, Eq, Structural)]
pub enum PlaybackStatus {
    Stopped,
    Playing,
    Paused,
}

/// `t`, or zero when it is negative.
pub open spec fn non_negative(t: i64) -> i64 {
    if t < 0 {
        0
    } else {
        t
    }
}

/// The playhead after playing `elapsed_us` microseconds from `base_us`.
pub fn advanced_time_us(base_us: i64, elapsed_us: u64) -> (r: i64)
    ensures
        r == clamp_i64(base_us + elapsed_us),
{
    let sum: i128 = base_us as i128 + elapsed_us as i128;
    if sum > i64::MAX as i128 {
        i64::MAX
    } else {
        sum as i64
    }
}

/// What a playback engine shows of itself.
pub struct PlaybackView {
    pub status: PlaybackStatus,
    /// Where the playhead stood when playback last started, paused, stopped or sought.
    pub base_time_us: i64,
}

/// The transport clock of timeline playback.
pub struct PlaybackEngine {
    status: PlaybackStatus,
    current_time_us: i64,
    start_instant: Option<Instant>,
}

impl View for PlaybackEngine {
    type V = PlaybackView;

    closed spec fn view(&self) -> PlaybackView {
        PlaybackView { status: self.status, base_time_us: self.current_time_us }
    }
}

impl PlaybackEngine {
    /// The playhead never stands before the start of the timeline.
    #[verifier::type_invariant]
    spec fn playhead_in_range(self) -> bool {
        self.current_time_us >= 0
    }

    pub fn new() -> (r: Self)
        ensures
            r@.status == PlaybackStatus::Stopped,
            r@.base_time_us == 0,
    {
        PlaybackEngine { status: PlaybackStatus::Stopped, current_time_us: 0, start_instant: None }
    }

    /// Starts playing from `from_time_us`, clamped to be non-negative.
    pub fn play(&mut self, from_time_us: i64)
        ensures
            final(self)@.status == PlaybackStatus::Playing,
            final(self)@.base_time_us == non_negative(from_time_us),
    {
        self.current_time_us = if from_time_us < 0 { 0 } else { from_time_us };
        self.start_instant = Some(instant_now());
        self.status = PlaybackStatus::Playing;
    }

    /// Pauses at the current time; does nothing unless playing.
    pub fn pause(&mut self)
        ensures
            old(self)@.status != PlaybackStatus::Playing ==> final(self)@ == old(self)@,
            old(self)@.status == PlaybackStatus::Playing ==> {
                &&& final(self)@.status == PlaybackStatus::Paused
                &&& final(self)@.base_time_us >= old(self)@.base_time_us
            },
    {
        if self.status == PlaybackStatus::Playing {
            let now = self.get_current_time();
            self.current_time_us = now;
            self.start_instant = None;
            self.status = PlaybackStatus::Paused;
        }
    }

    /// Stops at the current time.
    pub fn stop(&mut self)
        ensures
            final(self)@.status == PlaybackStatus::Stopped,
            old(self)@.status != PlaybackStatus::Playing ==> final(self)@.base_time_us == old(
                self,
            )@.base_time_us,
            old(self)@.status == PlaybackStatus::Playing ==> final(self)@.base_time_us >= old(
                self,
            )@.base_time_us,
    {
        let now = self.get_current_time();
        self.current_time_us = now;
        self.start_instant = None;
        self.status = PlaybackStatus::Stopped;
    }

    /// Moves the playhead to `time_us`, clamped to be non-negative; playback
    /// that is running goes on from there.
    pub fn seek(&mut self, time_us: i64)
        ensures
            final(self)@.status == old(self)@.status,
            final(self)@.base_time_us == non_negative(time_us),
    {
        self.current_time_us = if time_us < 0 { 0 } else { time_us };
        if self.status == PlaybackStatus::Playing {
            self.start_instant = Some(instant_now());
        }
    }

    /// The playhead: while playing, the time played since the last start
    /// added to where it started; otherwise where it stands.
    pub fn get_current_time(&self) -> (r: i64)
        ensures
            r >= 0,
            self@.status != PlaybackStatus::Playing ==> r == self@.base_time_us,
            self@.status == PlaybackStatus::Playing ==> r >= self@.base_time_us,
    {
        proof {
            use_type_invariant(self);
        }
        if self.status == PlaybackStatus::Playing {
            let elapsed = match &self.start_instant {
                Some(start) => micros_since(start),
                None => 0,
            };
            advanced_time_us(self.current_time_us, elapsed)
        } else {
            self.current_time_us
        }
    }

    pub fn status(&self) -> (r: PlaybackStatus)
        ensures
            r == self@.status,
    {
        self.status
    }
}

} // verus!
