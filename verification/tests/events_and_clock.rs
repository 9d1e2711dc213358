use track_replay::clock::time_label;
use track_replay::color::{Color, ColorTable};
use track_replay::events::{EventLog, TelemetryEvent};

fn event(delay_ms: u64) -> TelemetryEvent {
    TelemetryEvent { timestamp_ms: 0, entity_id: 0, x: 0, y: 0, delay_ms }
}

#[test]
fn cumulative_delay_sums_through_the_cursor() {
    let log = EventLog::new(vec![event(100), event(50), event(25)]);
    assert_eq!(log.cumulative_delay(0), 100);
    assert_eq!(log.cumulative_delay(1), 150);
    assert_eq!(log.cumulative_delay(2), 175);
}

#[test]
fn cumulative_delay_saturates_past_the_end() {
    let log = EventLog::new(vec![event(100), event(50), event(25)]);
    assert_eq!(log.cumulative_delay(3), 175);
    assert_eq!(log.cumulative_delay(usize::MAX), 175);
}

#[test]
fn cumulative_delay_of_an_empty_log_is_zero() {
    let log = EventLog::new(Vec::new());
    assert_eq!(log.cumulative_delay(0), 0);
    assert_eq!(log.cumulative_delay(5), 0);
    assert!(log.is_empty());
    assert_eq!(log.len(), 0);
}

#[test]
fn first_delay_counts_in_full() {
    let log = EventLog::new(vec![event(7)]);
    assert_eq!(log.cumulative_delay(0), 7);
}

#[test]
fn log_keeps_the_order_given() {
    let a = TelemetryEvent { timestamp_ms: 9, entity_id: 1, x: 1, y: 1, delay_ms: 1 };
    let b = TelemetryEvent { timestamp_ms: 3, entity_id: 2, x: 2, y: 2, delay_ms: 2 };
    let log = EventLog::new(vec![a, b]);
    assert_eq!(log.len(), 2);
    assert!(!log.is_empty());
    assert_eq!(log.get(0), Some(a));
    assert_eq!(log.get(1), Some(b));
    assert_eq!(log.get(2), None);
    assert_eq!(log.events(), &vec![a, b]);
}

#[test]
fn time_label_of_the_epoch() {
    assert_eq!(time_label(0), "00:00:00.000");
}

#[test]
fn time_label_has_hours_minutes_seconds_millis() {
    assert_eq!(time_label(947_638_923_004), "01:02:03.004");
    assert_eq!(time_label(86_399_999), "23:59:59.999");
    assert_eq!(time_label(86_400_000), "00:00:00.000");
    assert_eq!(time_label(12 * 3_600_000 + 34 * 60_000 + 56_000 + 789), "12:34:56.789");
}

#[test]
fn time_label_before_the_epoch_counts_from_the_previous_midnight() {
    assert_eq!(time_label(-1), "23:59:59.999");
    assert_eq!(time_label(-86_400_000), "00:00:00.000");
    assert_eq!(time_label(-86_400_001), "23:59:59.999");
    assert_eq!(time_label(-1_000), "23:59:59.000");
}

#[test]
fn time_label_at_the_ends_of_the_range() {
    assert_eq!(time_label(i64::MAX), "07:12:55.807");
    assert_eq!(time_label(i64::MIN), "16:47:04.192");
}

#[test]
fn time_label_agrees_with_a_datetime_of_the_same_instant() {
    for ms in [0i64, 1, 999, 1_000, 1_700_000_000_123, -5, -123_456_789, 253_402_300_799_999] {
        let expected = chrono::DateTime::from_timestamp_millis(ms)
            .unwrap()
            .format("%H:%M:%S%.3f")
            .to_string();
        assert_eq!(time_label(ms), expected);
    }
}

#[test]
fn unassigned_entities_get_the_fallback() {
    let table = ColorTable::new();
    assert_eq!(table.color_of(5), Color { r: 255, g: 255, b: 255 });
    assert_eq!(table.fallback(), Color::white());
    let table = ColorTable::with_fallback(Color::from_rgb(1, 2, 3));
    assert_eq!(table.color_of(0), Color { r: 1, g: 2, b: 3 });
    assert_eq!(table.color_of(u32::MAX), Color { r: 1, g: 2, b: 3 });
}

#[test]
fn assigned_entities_get_their_colour() {
    let mut table = ColorTable::new();
    table.assign(16, Color::from_rgb(220, 0, 0));
    table.assign(44, Color::from_rgb(0, 210, 190));
    assert_eq!(table.color_of(16), Color { r: 220, g: 0, b: 0 });
    assert_eq!(table.color_of(44), Color { r: 0, g: 210, b: 190 });
    assert_eq!(table.color_of(17), Color::white());
}

#[test]
fn a_later_assignment_replaces_an_earlier_one() {
    let mut table = ColorTable::new();
    table.assign(1, Color::from_rgb(1, 1, 1));
    table.assign(1, Color::from_rgb(2, 2, 2));
    assert_eq!(table.color_of(1), Color { r: 2, g: 2, b: 2 });
}

#[test]
fn base_colour_is_black() {
    assert_eq!(Color::base(), Color { r: 0, g: 0, b: 0 });
}
