use vstd::prelude::*;

use std::time::Instant;

use crate::clock::{instant_now, micros_since, utc_now};
use crate::ids::new_uuid_string;
use crate::models::recording::{RecordingSession, RecordingStatus};
use crate::models::slot::Slot;
use crate::models::timeline::{event_from_slot, TimelineEvent};

verus! {

/// `x` microseconds as an `i64`, saturating.
pub open spec fn micros_as_i64(x: u64) -> i64 {
    if x > i64::MAX as u64 {
        i64::MAX
    } else {
        x as i64
    }
}

/// `x` microseconds as an `i64`, saturating.
pub fn micros_to_i64(x: u64) -> (r: i64)
    ensures
        r == micros_as_i64(x),
{
    if x > i64::MAX as u64 {
        i64::MAX
    } else {
        x as i64
    }
}

/// The recording time `elapsed_us` microseconds into a run that began with
/// `banked_us` already recorded: their sum, held to what an `i64` carries.
pub open spec fn running_time(banked_us: u64, elapsed_us: u64) -> i64 {
    micros_as_i64(if banked_us + elapsed_us > u64::MAX {
        u64::MAX
    } else {
        (banked_us + elapsed_us) as u64
    })
}

/// The recording time `elapsed_us` microseconds into a run that began with
/// `banked_us` already recorded.
pub fn running_time_us(banked_us: u64, elapsed_us: u64) -> (r: i64)
    ensures
        r == running_time(banked_us, elapsed_us),
        r >= micros_as_i64(banked_us),
{
    let total = banked_us.saturating_add(elapsed_us);
    if total > i64::MAX as u64 {
        i64::MAX
    } else {
        total as i64
    }
}

/// What a recording engine shows of itself: its status, the events it has
/// caught in the current session, in order, and the time it has banked:
/// while running, what was recorded before the current run began; while
/// paused, the time at which the pause began.
pub struct RecordingView {
    pub status: RecordingStatus,
    pub captured: Seq<TimelineEvent>,
    pub stored_time_us: i64,
}

/// Records slot triggers into a buffer of timeline events, with pauses.
///
/// The time of a session is kept as the microseconds banked before the
/// current run, plus, while running, what the clock has counted since the
/// run began; a pause banks the run and a resume starts a new one, so the
/// pause does not count.
pub struct RecordingEngine {
    session: Option<RecordingSession>,
    run_started_at: Option<Instant>,
    banked_us: u64,
}

impl View for RecordingEngine {
    type V = RecordingView;

    closed spec fn view(&self) -> RecordingView {
        match self.session {
            Some(s) => RecordingView {
                status: s.status,
                captured: s.events_buffer@,
                stored_time_us: micros_as_i64(self.banked_us),
            },
            None => RecordingView {
                status: RecordingStatus::Idle,
                captured: Seq::empty(),
                stored_time_us: 0,
            },
        }
    }
}

impl RecordingEngine {
    /// Whether the run clock is set, as it is from the start of a session
    /// or a resume until the next pause or stop.
    pub closed spec fn clock_running(&self) -> bool {
        self.run_started_at is Some
    }
}

/// Whether a session is under way, running or paused.
pub open spec fn is_active(s: RecordingStatus) -> bool {
    s == RecordingStatus::Recording || s == RecordingStatus::Paused
}

impl RecordingEngine {
    pub fn new() -> (r: Self)
        ensures
            r@.status == RecordingStatus::Idle,
            r@.captured == Seq::<TimelineEvent>::empty(),
    {
        RecordingEngine { session: None, run_started_at: None, banked_us: 0 }
    }

    /// Begins a new session; refused while one is running or paused.
    pub fn start(&mut self) -> (r: Result<(), String>)
        ensures
            is_active(old(self)@.status) <==> r is Err,
            r matches Err(e) ==> e@ == "recording session already active"@ && final(self)@ == old(
                self,
            )@,
            r is Ok ==> {
                &&& final(self)@.status == RecordingStatus::Recording
                &&& final(self)@.captured == Seq::<TimelineEvent>::empty()
                &&& final(self)@.stored_time_us == 0
                &&& final(self).clock_running()
            },
    {
        let status = self.status();
        if status == RecordingStatus::Recording || status == RecordingStatus::Paused {
            return Err("recording session already active".to_string());
        }
        let session_id = new_uuid_string();
        let started_at = utc_now();
        self.session = Some(
            RecordingSession {
                session_id,
                started_at,
                status: RecordingStatus::Recording,
                current_time_us: 0,
                events_buffer: Vec::new(),
            },
        );
        self.run_started_at = Some(instant_now());
        self.banked_us = 0;
        Ok(())
    }

    /// Pauses a running session: the run is banked, and its time stands
    /// still at the moment of the pause until it resumes.
    pub fn pause(&mut self) -> (r: Result<(), String>)
        ensures
            old(self)@.status != RecordingStatus::Recording <==> r is Err,
            r matches Err(e) ==> e@ == "recording is not running"@ && final(self)@ == old(self)@,
            r is Ok ==> {
                &&& final(self)@.status == RecordingStatus::Paused
                &&& final(self)@.captured == old(self)@.captured
                &&& final(self)@.stored_time_us >= old(self)@.stored_time_us
                &&& !final(self).clock_running()
            },
    {
        if self.status() != RecordingStatus::Recording {
            return Err("recording is not running".to_string());
        }
        let elapsed = match &self.run_started_at {
            Some(start) => micros_since(start),
            None => 0,
        };
        let current_time_us = running_time_us(self.banked_us, elapsed);
        self.banked_us = self.banked_us.saturating_add(elapsed);
        self.run_started_at = None;
        match self.session.take() {
            Some(mut session) => {
                session.status = RecordingStatus::Paused;
                session.current_time_us = current_time_us;
                self.session = Some(session);
            },
            None => {},
        }
        Ok(())
    }

    /// Resumes a paused session with a new run from the time of the pause;
    /// the pause does not count towards its time.
    pub fn resume(&mut self) -> (r: Result<(), String>)
        ensures
            old(self)@.status != RecordingStatus::Paused <==> r is Err,
            r matches Err(e) ==> e@ == "recording is not paused"@ && final(self)@ == old(self)@,
            r is Ok ==> {
                &&& final(self)@.status == RecordingStatus::Recording
                &&& final(self)@.captured == old(self)@.captured
                &&& final(self)@.stored_time_us == old(self)@.stored_time_us
                &&& final(self).clock_running()
            },
    {
        if self.status() != RecordingStatus::Paused {
            return Err("recording is not paused".to_string());
        }
        self.run_started_at = Some(instant_now());
        match self.session.take() {
            Some(mut session) => {
                session.status = RecordingStatus::Recording;
                self.session = Some(session);
            },
            None => {},
        }
        Ok(())
    }

    /// Ends the session and hands back the events it caught, in order.
    pub fn stop(&mut self) -> (r: Result<Vec<TimelineEvent>, String>)
        ensures
            !is_active(old(self)@.status) <==> r is Err,
            r matches Err(e) ==> e@ == "no active recording session"@ && final(self)@ == old(
                self,
            )@,
            r matches Ok(events) ==> {
                &&& events@ == old(self)@.captured
                &&& final(self)@.status == RecordingStatus::Idle
                &&& final(self)@.captured == Seq::<TimelineEvent>::empty()
                &&& final(self)@.stored_time_us == 0
                &&& !final(self).clock_running()
            },
    {
        let status = self.status();
        if status == RecordingStatus::Idle || status == RecordingStatus::Stopped {
            return Err("no active recording session".to_string());
        }
        let current_time_us = self.get_current_time_us();
        match self.session.take() {
            Some(mut session) => {
                session.status = RecordingStatus::Stopped;
                session.current_time_us = current_time_us;
                let events = session.events_buffer.clone();
                self.run_started_at = None;
                self.banked_us = 0;
                Ok(events)
            },
            None => Err("recording session not found".to_string()),
        }
    }

    /// Records a trigger of `slot` at the current recording time.
    pub fn capture_event(&mut self, slot: &Slot) -> (r: Result<TimelineEvent, String>)
        ensures
            old(self)@.status != RecordingStatus::Recording <==> r is Err,
            r matches Err(e) ==> e@ == "recording is not active"@ && final(self)@ == old(self)@,
            r matches Ok(event) ==> {
                &&& event == event_from_slot(event.event_id, *slot, event.time_us)
                &&& event.time_us >= 0
                &&& event.time_us >= old(self)@.stored_time_us
                &&& final(self)@.status == RecordingStatus::Recording
                &&& final(self)@.captured == old(self)@.captured.push(event)
                &&& final(self)@.stored_time_us == old(self)@.stored_time_us
            },
    {
        if self.status() != RecordingStatus::Recording {
            return Err("recording is not active".to_string());
        }
        let time_us = self.get_current_time_us();
        let event = TimelineEvent::from_slot(new_uuid_string(), slot, time_us);
        match self.session.take() {
            Some(mut session) => {
                session.events_buffer.push(event.clone());
                session.current_time_us = time_us;
                self.session = Some(session);
                Ok(event)
            },
            None => Err("recording session not found".to_string()),
        }
    }

    /// Microseconds recorded so far, pauses excluded: while running, the
    /// banked time and what the clock has counted since the run began, so
    /// never less than the banked time; while paused, the time at which the
    /// pause began; with no session, zero.
    pub fn get_current_time_us(&self) -> (r: i64)
        ensures
            r >= 0,
            self@.status == RecordingStatus::Recording ==> r >= self@.stored_time_us,
            self@.status != RecordingStatus::Recording ==> r == self@.stored_time_us,
    {
        match self.status() {
            RecordingStatus::Recording => {
                let elapsed = match &self.run_started_at {
                    Some(start) => micros_since(start),
                    None => 0,
                };
                running_time_us(self.banked_us, elapsed)
            },
            _ => match &self.session {
                Some(_) => micros_to_i64(self.banked_us),
                None => 0,
            },
        }
    }

    pub fn status(&self) -> (r: RecordingStatus)
        ensures
            r == self@.status,
    {
        match &self.session {
            Some(session) => session.status,
            None => RecordingStatus::Idle,
        }
    }

    pub fn is_recording(&self) -> (r: bool)
        ensures
            r == (self@.status == RecordingStatus::Recording),
    {
        self.status() == RecordingStatus::Recording
    }
}

} // verus!
