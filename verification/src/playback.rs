//! The playback engine: a cursor into the event log that follows the wall clock.
//!
//! The engine is idle or running. While it runs, each call of
//! [`PlaybackEngine::tick`] compares the instant it is given with the deadline
//! of the event under the cursor and, once that deadline has passed, moves the
//! cursor forward by one event. A tick never moves the cursor by more than one
//! event, however late it comes: a host that stalls sees the replay lag, not
//! jump. At the end of the log the engine holds its last state until it is
//! reset or started again.

use crate::clock::{time_label, time_label_text, wall_clock_ms};
use crate::events::{
    delay_through, events_through, lemma_delay_through_monotonic, lemma_delay_through_saturates,
    lemma_delay_through_step, lemma_total_delay_bound, EventLog, TelemetryEvent,
};
use vstd::prelude::*;

verus! {

/// The state of a [`PlaybackEngine`] as mathematics.
pub struct PlaybackState {
    /// The log that is played, in playback order.
    pub events: Seq<TelemetryEvent>,
    /// Whether ticks move the cursor.
    pub running: bool,
    /// Number of events already shown; the event at this index is the next
    /// one due.
    pub cursor: nat,
    /// The instant of the last start or reset, in milliseconds since the epoch.
    pub race_start: int,
    /// The instant from which the event under the cursor is due.
    pub next_deadline: int,
}

impl PlaybackState {
    /// The cursor is inside the log or just past its end, and the deadline is
    /// the race start plus the delays of the events at `0..=cursor`.
    pub open spec fn consistent(self) -> bool {
        &&& self.cursor <= self.events.len()
        &&& self.next_deadline == self.race_start + delay_through(self.events, self.cursor)
    }

    /// The cursor has moved past the last event.
    pub open spec fn finished(self) -> bool {
        self.cursor >= self.events.len()
    }

    /// The idle state at the head of `events`, with `now` as race start.
    pub open spec fn idle(events: Seq<TelemetryEvent>, now: int) -> PlaybackState {
        PlaybackState {
            events,
            running: false,
            cursor: 0,
            race_start: now,
            next_deadline: now + delay_through(events, 0),
        }
    }

    /// The state after a start at `now`.
    pub open spec fn started(self, now: int) -> PlaybackState {
        PlaybackState { running: true, ..PlaybackState::idle(self.events, now) }
    }

    /// The state after a reset at `now`.
    pub open spec fn stopped(self, now: int) -> PlaybackState {
        PlaybackState::idle(self.events, now)
    }

    /// Whether a tick at `now` moves the cursor.
    pub open spec fn due(self, now: int) -> bool {
        self.running && !self.finished() && now >= self.next_deadline
    }

    /// The state one event further on.
    pub open spec fn advanced(self) -> PlaybackState {
        PlaybackState {
            cursor: self.cursor + 1,
            next_deadline: self.race_start + delay_through(self.events, self.cursor + 1),
            ..self
        }
    }

    /// The state after a tick at `now`.
    pub open spec fn ticked(self, now: int) -> PlaybackState {
        if self.due(now) {
            self.advanced()
        } else {
            self
        }
    }
}

/// A command of the control surface.
#[derive(Clone, Copy, Debug, PartialEq, Eq, Structural)]
pub enum Command {
    /// Start the replay from the head of the log.
    Start,
    /// Stop the replay and go back to the head of the log.
    Stop,
}

#[derive(Clone, Copy)]
struct Progress {
    running: bool,
    cursor: usize,
    race_start: i64,
    /// Sum of the delays of the events at `0..=cursor`.
    elapsed: u128,
}

/// Plays an [`EventLog`] against the wall clock.
pub struct PlaybackEngine {
    log: EventLog,
    progress: Progress,
}

impl View for PlaybackEngine {
    type V = PlaybackState;

    closed spec fn view(&self) -> PlaybackState {
        PlaybackState {
            events: self.log@,
            running: self.progress.running,
            cursor: self.progress.cursor as nat,
            race_start: self.progress.race_start as int,
            next_deadline: self.progress.race_start + self.progress.elapsed,
        }
    }
}

impl PlaybackEngine {
    #[verifier::type_invariant]
    spec fn well_formed(self) -> bool {
        &&& self.progress.cursor <= self.log@.len()
        &&& self.progress.elapsed == delay_through(self.log@, self.progress.cursor as nat)
    }

    /// An idle engine at the head of `log`, with `now` as race start.
    pub fn new(log: EventLog, now: i64) -> (engine: PlaybackEngine)
        ensures
            engine@ == PlaybackState::idle(log@, now as int),
            engine@.consistent(),
    {
        let elapsed = log.cumulative_delay(0);
        let progress = Progress { running: false, cursor: 0, race_start: now, elapsed };
        PlaybackEngine { log, progress }
    }

    /// Starts the replay at `now` from the head of the log, whatever the
    /// engine was doing.
    pub fn start(&mut self, now: i64)
        ensures
            final(self)@ == old(self)@.started(now as int),
            final(self)@.consistent(),
    {
        let elapsed = self.log.cumulative_delay(0);
        self.progress = Progress { running: true, cursor: 0, race_start: now, elapsed };
    }

    /// Stops the replay and puts the cursor back to the head of the log.
    pub fn reset(&mut self, now: i64)
        ensures
            final(self)@ == old(self)@.stopped(now as int),
            final(self)@.consistent(),
    {
        let elapsed = self.log.cumulative_delay(0);
        self.progress = Progress { running: false, cursor: 0, race_start: now, elapsed };
    }

    /// Carries out a command of the control surface at `now`.
    pub fn apply(&mut self, command: Command, now: i64)
        ensures
            final(self)@ == match command {
                Command::Start => old(self)@.started(now as int),
                Command::Stop => old(self)@.stopped(now as int),
            },
            final(self)@.consistent(),
    {
        match command {
            Command::Start => self.start(now),
            Command::Stop => self.reset(now),
        }
    }

    /// Moves the cursor one event forward if the engine runs, the log has an
    /// event under the cursor and `now` has reached that event's deadline.
    /// Otherwise nothing changes. Returns whether the cursor moved.
    pub fn tick(&mut self, now: i64) -> (moved: bool)
        ensures
            final(self)@ == old(self)@.ticked(now as int),
            moved == old(self)@.due(now as int),
            final(self)@.consistent(),
    {
        proof {
            use_type_invariant(&*self);
        }
        let p = self.progress;
        let len = self.log.len();
        if !p.running || p.cursor >= len || now < p.race_start {
            return false;
        }
        let waited: u128 = (now as i128 - p.race_start as i128) as u128;
        if waited < p.elapsed {
            return false;
        }
        let cursor = p.cursor + 1;
        let elapsed = match self.log.get(cursor) {
            Some(event) => {
                proof {
                    lemma_delay_through_step(self.log@, p.cursor as nat);
                    lemma_total_delay_bound(
                        self.log@.take(events_through(self.log@, cursor as nat) as int),
                    );
                    assert((cursor + 1) * u64::MAX <= usize::MAX * u64::MAX) by (nonlinear_arith)
                        requires
                            cursor + 1 <= usize::MAX,
                    ;
                }
                p.elapsed + event.delay_ms as u128
            },
            None => {
                proof {
                    lemma_delay_through_saturates(self.log@, p.cursor as nat);
                    lemma_delay_through_saturates(self.log@, cursor as nat);
                }
                p.elapsed
            },
        };
        self.progress = Progress { cursor, elapsed, ..p };
        true
    }

    /// An idle engine at the head of `log`, with the instant that the wall
    /// clock shows as race start.
    pub fn new_now(log: EventLog) -> (engine: PlaybackEngine)
        ensures
            engine@ == PlaybackState::idle(log@, engine@.race_start),
            engine@.consistent(),
    {
        let now = wall_clock_ms();
        PlaybackEngine::new(log, now)
    }

    /// [`start`](PlaybackEngine::start) at the instant that the wall clock
    /// shows.
    pub fn start_now(&mut self)
        ensures
            final(self)@ == old(self)@.started(final(self)@.race_start),
            final(self)@.consistent(),
    {
        let now = wall_clock_ms();
        self.start(now)
    }

    /// [`reset`](PlaybackEngine::reset) at the instant that the wall clock
    /// shows.
    pub fn reset_now(&mut self)
        ensures
            final(self)@ == old(self)@.stopped(final(self)@.race_start),
            final(self)@.consistent(),
    {
        let now = wall_clock_ms();
        self.reset(now)
    }

    /// [`apply`](PlaybackEngine::apply) at the instant that the wall clock
    /// shows.
    pub fn apply_now(&mut self, command: Command)
        ensures
            final(self)@ == match command {
                Command::Start => old(self)@.started(final(self)@.race_start),
                Command::Stop => old(self)@.stopped(final(self)@.race_start),
            },
            final(self)@.consistent(),
    {
        let now = wall_clock_ms();
        self.apply(command, now)
    }

    /// [`tick`](PlaybackEngine::tick) at the instant that the wall clock
    /// shows. The clock is read only while the engine runs. Whatever it
    /// shows, the engine either stays as it is or moves one event forward, and
    /// it can move only while it runs and has an event under the cursor.
    pub fn tick_now(&mut self) -> (moved: bool)
        ensures
            moved ==> old(self)@.running && !old(self)@.finished(),
            moved ==> final(self)@ == old(self)@.advanced(),
            !moved ==> final(self)@ == old(self)@,
            final(self)@.consistent(),
    {
        proof {
            use_type_invariant(&*self);
        }
        if self.progress.running {
            let now = wall_clock_ms();
            self.tick(now)
        } else {
            false
        }
    }

    /// The time of day of the event under the cursor, as text; `None` past
    /// the end of the log.
    pub fn current_label(&self) -> (label: Option<String>)
        ensures
            match label {
                Some(text) => self@.cursor < self@.events.len() && text@ == time_label_text(
                    self@.events[self@.cursor as int].timestamp_ms as int,
                ),
                None => self@.cursor >= self@.events.len(),
            },
    {
        match self.current_event() {
            Some(event) => Some(time_label(event.timestamp_ms)),
            None => None,
        }
    }

    pub fn is_running(&self) -> (running: bool)
        ensures
            running == self@.running,
    {
        self.progress.running
    }

    /// Number of events already shown.
    pub fn cursor(&self) -> (cursor: usize)
        ensures
            cursor == self@.cursor,
            cursor <= self@.events.len(),
    {
        proof {
            use_type_invariant(self);
        }
        self.progress.cursor
    }

    /// Whether the cursor has moved past the last event.
    pub fn is_finished(&self) -> (finished: bool)
        ensures
            finished == self@.finished(),
    {
        self.progress.cursor >= self.log.len()
    }

    /// The instant of the last start or reset.
    pub fn race_start(&self) -> (start: i64)
        ensures
            start == self@.race_start,
    {
        self.progress.race_start
    }

    /// Milliseconds from the race start to the deadline: the delays of the
    /// events at `0..=cursor`, added up.
    pub fn elapsed_at_deadline(&self) -> (elapsed: u128)
        ensures
            elapsed == delay_through(self@.events, self@.cursor),
            self@.next_deadline == self@.race_start + elapsed,
    {
        proof {
            use_type_invariant(self);
        }
        self.progress.elapsed
    }

    /// The deadline as an instant, or `None` where it lies beyond the last
    /// instant that 64 bits can name, so that no tick can reach it.
    pub fn next_deadline(&self) -> (deadline: Option<i64>)
        ensures
            deadline == if self@.next_deadline <= i64::MAX {
                Some(self@.next_deadline as i64)
            } else {
                None
            },
    {
        proof {
            use_type_invariant(self);
        }
        let room: u128 = (i64::MAX as i128 - self.progress.race_start as i128) as u128;
        if self.progress.elapsed <= room {
            Some((self.progress.race_start as i128 + self.progress.elapsed as i128) as i64)
        } else {
            None
        }
    }

    /// The log that is played.
    pub fn log(&self) -> (log: &EventLog)
        ensures
            log@ == self@.events,
    {
        &self.log
    }

    /// The event under the cursor, the next one due; `None` past the end of
    /// the log.
    pub fn current_event(&self) -> (event: Option<TelemetryEvent>)
        ensures
            event == if self@.cursor < self@.events.len() {
                Some(self@.events[self@.cursor as int])
            } else {
                None
            },
    {
        self.log.get(self.progress.cursor)
    }
}

/// The deadline follows the cursor: in the idle state, after a start, after a
/// reset and after a tick from a consistent state, the deadline is the race
/// start plus the delays of the events at `0..=cursor`, and the cursor is
/// inside the log or just past its end.
pub proof fn law_deadline_follows_cursor(state: PlaybackState, now: int)
    requires
        state.consistent(),
    ensures
        state.next_deadline == state.race_start + delay_through(state.events, state.cursor),
        PlaybackState::idle(state.events, now).consistent(),
        state.started(now).consistent(),
        state.stopped(now).consistent(),
        state.ticked(now).consistent(),
{
}

/// A tick never moves the cursor backwards, and never by more than one event.
/// It leaves the log, the race start and the running flag as they are.
pub proof fn law_tick_never_rewinds(state: PlaybackState, now: int)
    ensures
        state.cursor <= state.ticked(now).cursor <= state.cursor + 1,
        state.ticked(now).events == state.events,
        state.ticked(now).race_start == state.race_start,
        state.ticked(now).running == state.running,
{
}

/// Start and reset put the cursor back to the head of the log.
pub proof fn law_start_and_reset_rewind(state: PlaybackState, now: int)
    ensures
        state.started(now).cursor == 0,
        state.started(now).running,
        state.stopped(now).cursor == 0,
        !state.stopped(now).running,
{
}

/// While the engine runs with an event under the cursor, a tick before the
/// deadline leaves the cursor where it is, and a tick at or after the deadline
/// moves it forward by exactly one event.
pub proof fn law_tick_waits_for_deadline(state: PlaybackState, now: int)
    requires
        state.running,
        state.cursor < state.events.len(),
    ensures
        now < state.next_deadline ==> state.ticked(now) == state,
        now >= state.next_deadline ==> state.ticked(now).cursor == state.cursor + 1,
{
}

/// An idle engine and an engine at the end of its log ignore every tick.
pub proof fn law_tick_ignored_when_idle_or_finished(state: PlaybackState, now: int)
    requires
        !state.running || state.finished(),
    ensures
        state.ticked(now) == state,
{
}

/// Deadlines never move backwards as the cursor moves forward.
pub proof fn law_deadlines_ascend(state: PlaybackState, now: int)
    requires
        state.consistent(),
    ensures
        state.ticked(now).next_deadline >= state.next_deadline,
{
    lemma_delay_through_monotonic(state.events, state.cursor, state.cursor + 1);
}

/// After a reset the engine is idle at the head of the log, and a tick at
/// any instant before the next start changes nothing.
pub proof fn law_reset_then_tick(state: PlaybackState, now: int, later: int)
    ensures
        state.stopped(now).cursor == 0,
        !state.stopped(now).running,
        state.stopped(now).ticked(later) == state.stopped(now),
{
}

} // verus!
