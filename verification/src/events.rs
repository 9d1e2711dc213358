//! The recorded session: position events in playback order.

use vstd::prelude::*;

verus! {

/// One recorded observation: `entity_id` was seen on cell `(x, y)`,
/// `delay_ms` milliseconds after the previous event of the log.
///
/// `timestamp_ms` is the instant the recording gives for the observation. It is
/// only displayed; playback order and pace come from the position in the log
/// and from `delay_ms`.
#[derive(Clone, Copy, Debug, PartialEq, Eq, Structural)]
pub struct TelemetryEvent {
    pub timestamp_ms: i64,
    pub entity_id: u32,
    pub x: i64,
    pub y: i64,
    pub delay_ms: u64,
}

/// Sum of the delays of all events of `events`.
pub open spec fn total_delay(events: Seq<TelemetryEvent>) -> nat
    decreases events.len(),
{
    if events.len() == 0 {
        0
    } else {
        total_delay(events.drop_last()) + events.last().delay_ms as nat
    }
}

/// Number of events whose delay counts towards the deadline of `cursor`: the
/// events at indices `0..=cursor`, as far as the log has them.
pub open spec fn events_through(events: Seq<TelemetryEvent>, cursor: nat) -> nat {
    if cursor < events.len() {
        cursor + 1
    } else {
        events.len()
    }
}

/// Sum of the delays of the events at indices `0..=cursor`. Past the end of
/// the log it stays at the sum of all delays.
pub open spec fn delay_through(events: Seq<TelemetryEvent>, cursor: nat) -> nat {
    total_delay(events.take(events_through(events, cursor) as int))
}

/// Each delay fits in 64 bits, so a sum of `n` of them stays below `n * 2^64`.
pub proof fn lemma_total_delay_bound(events: Seq<TelemetryEvent>)
    ensures
        total_delay(events) <= events.len() * u64::MAX,
    decreases events.len(),
{
    if events.len() > 0 {
        lemma_total_delay_bound(events.drop_last());
    }
}

/// Taking one more event adds that event's delay.
pub proof fn lemma_total_delay_step(events: Seq<TelemetryEvent>, n: int)
    requires
        0 <= n < events.len(),
    ensures
        total_delay(events.take(n + 1)) == total_delay(events.take(n)) + events[n].delay_ms,
{
    assert(events.take(n + 1).drop_last() =~= events.take(n));
}

/// Moving the cursor one event forward, inside the log, adds the delay of the
/// event it moves onto.
pub proof fn lemma_delay_through_step(events: Seq<TelemetryEvent>, cursor: nat)
    requires
        cursor + 1 < events.len(),
    ensures
        delay_through(events, cursor + 1) == delay_through(events, cursor) + events[(cursor
            + 1) as int].delay_ms,
{
    lemma_total_delay_step(events, (cursor + 1) as int);
}

/// On the last event and past it the cumulative delay is the same: the sum
/// of all delays.
pub proof fn lemma_delay_through_saturates(events: Seq<TelemetryEvent>, cursor: nat)
    requires
        cursor + 1 >= events.len(),
    ensures
        delay_through(events, cursor) == total_delay(events),
{
    assert(events.take(events.len() as int) =~= events);
}

/// The cumulative delay never shrinks as the cursor moves forward.
pub proof fn lemma_delay_through_monotonic(events: Seq<TelemetryEvent>, a: nat, b: nat)
    requires
        a <= b,
    ensures
        delay_through(events, a) <= delay_through(events, b),
    decreases b - a,
{
    if a < b {
        lemma_delay_through_monotonic(events, a, (b - 1) as nat);
        if b < events.len() {
            lemma_delay_through_step(events, (b - 1) as nat);
        } else {
            lemma_delay_through_saturates(events, (b - 1) as nat);
            lemma_delay_through_saturates(events, b);
        }
    }
}

/// An immutable, ordered log of telemetry events. The order of the log is the
/// order of playback, whatever the timestamps say.
pub struct EventLog {
    events: Vec<TelemetryEvent>,
}

impl View for EventLog {
    type V = Seq<TelemetryEvent>;

    closed spec fn view(&self) -> Seq<TelemetryEvent> {
        self.events@
    }
}

impl EventLog {
    /// Takes the events in the order in which they are to be played.
    pub fn new(events: Vec<TelemetryEvent>) -> (log: EventLog)
        ensures
            log@ == events@,
    {
        EventLog { events }
    }

    /// The events, in playback order.
    pub fn events(&self) -> (events: &Vec<TelemetryEvent>)
        ensures
            events@ == self@,
    {
        &self.events
    }

    pub fn len(&self) -> (n: usize)
        ensures
            n == self@.len(),
    {
        self.events.len()
    }

    pub fn is_empty(&self) -> (empty: bool)
        ensures
            empty <==> self@.len() == 0,
    {
        self.events.len() == 0
    }

    /// The event at `index`, if the log is that long.
    pub fn get(&self, index: usize) -> (event: Option<TelemetryEvent>)
        ensures
            event == if index < self@.len() {
                Some(self@[index as int])
            } else {
                None
            },
    {
        if index < self.events.len() {
            Some(self.events[index])
        } else {
            None
        }
    }

    /// Sum of the delays of the events at `0..=cursor`, added up from the
    /// start of the log. A cursor on or past the last event gives the sum of
    /// all delays; an empty log gives zero.
    pub fn cumulative_delay(&self, cursor: usize) -> (total: u128)
        ensures
            total == delay_through(self@, cursor as nat),
    {
        let count: usize = if cursor < self.events.len() {
            cursor + 1
        } else {
            self.events.len()
        };
        let mut total: u128 = 0;
        let mut i: usize = 0;
        while i < count
            invariant
                i <= count <= self.events.len(),
                total == total_delay(self@.take(i as int)),
            decreases count - i,
        {
            proof {
                lemma_total_delay_step(self@, i as int);
                lemma_total_delay_bound(self@.take(i as int));
                assert(i * u64::MAX + u64::MAX <= usize::MAX * u64::MAX + u64::MAX)
                    by (nonlinear_arith)
                    requires
                        i <= usize::MAX,
                ;
            }
            total = total + self.events[i].delay_ms as u128;
            i = i + 1;
        }
        total
    }
}

} // verus!
