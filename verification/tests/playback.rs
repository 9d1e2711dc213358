use track_replay::events::{EventLog, TelemetryEvent};
use track_replay::playback::{Command, PlaybackEngine};

fn event(entity_id: u32, delay_ms: u64) -> TelemetryEvent {
    TelemetryEvent { timestamp_ms: 0, entity_id, x: 0, y: 0, delay_ms }
}

fn log_of(delays: &[u64]) -> EventLog {
    EventLog::new(delays.iter().map(|d| event(1, *d)).collect())
}

#[test]
fn new_engine_is_idle_at_the_head() {
    let engine = PlaybackEngine::new(log_of(&[100, 50, 25]), 1_000);
    assert!(!engine.is_running());
    assert_eq!(engine.cursor(), 0);
    assert_eq!(engine.race_start(), 1_000);
    assert_eq!(engine.next_deadline(), Some(1_100));
    assert_eq!(engine.elapsed_at_deadline(), 100);
    assert!(!engine.is_finished());
    assert_eq!(engine.log().len(), 3);
}

#[test]
fn empty_log_is_finished_from_the_start() {
    let mut engine = PlaybackEngine::new(log_of(&[]), 7);
    assert!(engine.is_finished());
    assert_eq!(engine.next_deadline(), Some(7));
    assert_eq!(engine.current_event(), None);
    engine.start(10);
    assert!(engine.is_running());
    assert_eq!(engine.next_deadline(), Some(10));
    assert!(!engine.tick(1_000_000));
    assert_eq!(engine.cursor(), 0);
    assert_eq!(engine.next_deadline(), Some(10));
}

#[test]
fn start_runs_from_the_head() {
    let mut engine = PlaybackEngine::new(log_of(&[100, 50]), 0);
    engine.start(5_000);
    assert!(engine.is_running());
    assert_eq!(engine.cursor(), 0);
    assert_eq!(engine.race_start(), 5_000);
    assert_eq!(engine.next_deadline(), Some(5_100));
}

#[test]
fn tick_before_start_is_ignored() {
    let mut engine = PlaybackEngine::new(log_of(&[100, 50]), 0);
    assert!(!engine.tick(1_000_000));
    assert_eq!(engine.cursor(), 0);
    assert!(!engine.is_running());
    assert_eq!(engine.next_deadline(), Some(100));
}

#[test]
fn tick_waits_for_the_deadline() {
    let mut engine = PlaybackEngine::new(log_of(&[100, 50, 25]), 0);
    engine.start(1_000);
    assert!(!engine.tick(1_000));
    assert!(!engine.tick(1_099));
    assert_eq!(engine.cursor(), 0);
    assert_eq!(engine.next_deadline(), Some(1_100));
    assert!(engine.tick(1_100));
    assert_eq!(engine.cursor(), 1);
    assert_eq!(engine.next_deadline(), Some(1_150));
    assert!(!engine.tick(1_149));
    assert_eq!(engine.cursor(), 1);
    assert!(engine.tick(1_150));
    assert_eq!(engine.cursor(), 2);
    assert_eq!(engine.next_deadline(), Some(1_175));
}

#[test]
fn a_late_tick_moves_one_event_only() {
    let mut engine = PlaybackEngine::new(log_of(&[10, 10, 10, 10]), 0);
    engine.start(0);
    assert!(engine.tick(1_000_000));
    assert_eq!(engine.cursor(), 1);
    assert!(engine.tick(1_000_000));
    assert_eq!(engine.cursor(), 2);
    assert!(engine.tick(1_000_000));
    assert_eq!(engine.cursor(), 3);
}

#[test]
fn deadline_is_race_start_plus_cumulative_delay_at_every_cursor() {
    let delays = [100u64, 50, 0, 7, 1_000];
    let mut engine = PlaybackEngine::new(log_of(&delays), 0);
    let start = 123_456i64;
    engine.start(start);
    let mut sum = 0i64;
    for c in 0..delays.len() {
        sum += delays[c] as i64;
        assert_eq!(engine.cursor(), c);
        assert_eq!(engine.next_deadline(), Some(start + sum));
        assert_eq!(engine.elapsed_at_deadline(), engine.log().cumulative_delay(c));
        assert!(engine.tick(start + sum));
    }
    assert_eq!(engine.cursor(), delays.len());
    assert_eq!(engine.next_deadline(), Some(start + 1_157));
    assert_eq!(engine.elapsed_at_deadline(), engine.log().cumulative_delay(delays.len()));
}

#[test]
fn cursor_never_decreases_while_running() {
    let mut engine = PlaybackEngine::new(log_of(&[5, 5, 5, 5, 5, 5]), 0);
    engine.start(0);
    let mut last = engine.cursor();
    let instants = [0i64, 3, 5, 5, 4, 100, 2, 14, 15, 1_000, -50, 1_000, 1_000, 1_000, 1_000];
    for now in instants {
        engine.tick(now);
        assert!(engine.cursor() >= last);
        assert!(engine.cursor() <= last + 1);
        last = engine.cursor();
    }
    assert_eq!(last, 6);
}

#[test]
fn playback_holds_at_the_end_of_the_log() {
    let mut engine = PlaybackEngine::new(log_of(&[10, 20]), 0);
    engine.start(0);
    assert!(engine.tick(10));
    assert!(engine.tick(30));
    assert!(engine.is_finished());
    assert_eq!(engine.cursor(), 2);
    assert_eq!(engine.next_deadline(), Some(30));
    for now in [30i64, 31, 1_000, i64::MAX] {
        assert!(!engine.tick(now));
        assert_eq!(engine.cursor(), 2);
        assert!(engine.is_running());
        assert_eq!(engine.next_deadline(), Some(30));
    }
    assert_eq!(engine.current_event(), None);
}

#[test]
fn reset_goes_back_to_idle_and_ticks_are_ignored() {
    for ticks in 0..4usize {
        let mut engine = PlaybackEngine::new(log_of(&[10, 10, 10]), 0);
        engine.start(0);
        for _ in 0..ticks {
            engine.tick(1_000);
        }
        assert_eq!(engine.cursor(), ticks.min(3));
        engine.reset(2_000);
        assert_eq!(engine.cursor(), 0);
        assert!(!engine.is_running());
        assert_eq!(engine.race_start(), 2_000);
        assert_eq!(engine.next_deadline(), Some(2_010));
        assert!(!engine.tick(1_000_000));
        assert_eq!(engine.cursor(), 0);
        assert!(!engine.is_running());
        assert_eq!(engine.next_deadline(), Some(2_010));
    }
}

#[test]
fn start_while_running_restarts() {
    let mut engine = PlaybackEngine::new(log_of(&[10, 10, 10]), 0);
    engine.start(0);
    engine.tick(10);
    engine.tick(20);
    assert_eq!(engine.cursor(), 2);
    engine.start(500);
    assert!(engine.is_running());
    assert_eq!(engine.cursor(), 0);
    assert_eq!(engine.next_deadline(), Some(510));
    assert!(!engine.tick(509));
    assert!(engine.tick(510));
}

#[test]
fn commands_start_and_stop() {
    let mut engine = PlaybackEngine::new(log_of(&[10, 10]), 0);
    engine.apply(Command::Start, 100);
    assert!(engine.is_running());
    assert_eq!(engine.next_deadline(), Some(110));
    engine.tick(110);
    assert_eq!(engine.cursor(), 1);
    engine.apply(Command::Stop, 200);
    assert!(!engine.is_running());
    assert_eq!(engine.cursor(), 0);
    assert_eq!(engine.next_deadline(), Some(210));
}

#[test]
fn tick_before_the_race_start_is_not_due() {
    let mut engine = PlaybackEngine::new(log_of(&[0]), 0);
    engine.start(100);
    assert!(!engine.tick(99));
    assert!(!engine.tick(i64::MIN));
    assert!(engine.tick(100));
}

#[test]
fn negative_instants_work() {
    let mut engine = PlaybackEngine::new(log_of(&[30, 30]), 0);
    engine.start(-50);
    assert_eq!(engine.next_deadline(), Some(-20));
    assert!(!engine.tick(-21));
    assert!(engine.tick(-20));
    assert_eq!(engine.next_deadline(), Some(10));
}

#[test]
fn a_deadline_past_the_last_instant_is_never_reached() {
    let mut engine = PlaybackEngine::new(log_of(&[1, 1]), 0);
    engine.start(i64::MAX);
    assert_eq!(engine.next_deadline(), None);
    assert!(!engine.tick(i64::MAX));
    assert_eq!(engine.cursor(), 0);

    let mut engine = PlaybackEngine::new(log_of(&[0, 1]), 0);
    engine.start(i64::MAX);
    assert_eq!(engine.next_deadline(), Some(i64::MAX));
    assert!(engine.tick(i64::MAX));
    assert_eq!(engine.next_deadline(), None);
    assert!(!engine.tick(i64::MAX));
}

#[test]
fn huge_delays_add_up_without_wrapping() {
    let mut engine = PlaybackEngine::new(log_of(&[u64::MAX, u64::MAX, u64::MAX]), 0);
    engine.start(i64::MIN);
    assert_eq!(engine.elapsed_at_deadline(), u64::MAX as u128);
    assert_eq!(engine.next_deadline(), Some(i64::MAX));
    assert!(!engine.tick(i64::MAX - 1));
    assert!(engine.tick(i64::MAX));
    assert_eq!(engine.elapsed_at_deadline(), 2 * (u64::MAX as u128));
    assert_eq!(engine.next_deadline(), None);
    assert_eq!(engine.log().cumulative_delay(2), 3 * (u64::MAX as u128));
}

#[test]
fn current_event_is_the_one_under_the_cursor() {
    let events = vec![
        TelemetryEvent { timestamp_ms: 11, entity_id: 1, x: 1, y: 2, delay_ms: 5 },
        TelemetryEvent { timestamp_ms: 22, entity_id: 2, x: 3, y: 4, delay_ms: 5 },
    ];
    let mut engine = PlaybackEngine::new(EventLog::new(events.clone()), 0);
    assert_eq!(engine.current_event(), Some(events[0]));
    engine.start(0);
    engine.tick(5);
    assert_eq!(engine.current_event(), Some(events[1]));
    engine.tick(10);
    assert_eq!(engine.current_event(), None);
}

#[test]
fn label_shows_the_time_of_day_of_the_current_event() {
    let events = vec![
        TelemetryEvent { timestamp_ms: 947_638_923_004, entity_id: 1, x: 0, y: 0, delay_ms: 0 },
        TelemetryEvent { timestamp_ms: 1_000_000_000_555, entity_id: 1, x: 0, y: 0, delay_ms: 0 },
    ];
    let mut engine = PlaybackEngine::new(EventLog::new(events), 0);
    assert_eq!(engine.current_label(), Some("01:02:03.004".to_string()));
    engine.start(0);
    engine.tick(0);
    assert_eq!(engine.current_label(), Some("01:46:40.555".to_string()));
    engine.tick(0);
    assert_eq!(engine.current_label(), None);
}

#[test]
fn wall_clock_operations_follow_the_clock() {
    let mut engine = PlaybackEngine::new_now(log_of(&[0, 3_600_000]));
    assert!(!engine.is_running());
    assert_eq!(engine.cursor(), 0);
    assert_eq!(engine.next_deadline(), Some(engine.race_start()));
    assert!(engine.race_start() > 1_600_000_000_000);
    assert!(!engine.tick_now());
    engine.start_now();
    assert!(engine.is_running());
    assert_eq!(engine.next_deadline(), Some(engine.race_start()));
    let mut moved = false;
    for _ in 0..1_000 {
        if engine.tick_now() {
            moved = true;
            break;
        }
    }
    assert!(moved);
    assert_eq!(engine.cursor(), 1);
    assert_eq!(engine.next_deadline(), Some(engine.race_start() + 3_600_000));
    assert!(!engine.tick_now());
    assert_eq!(engine.cursor(), 1);
    engine.reset_now();
    assert!(!engine.is_running());
    assert_eq!(engine.cursor(), 0);
    assert!(!engine.tick_now());
}
