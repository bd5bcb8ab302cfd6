use pods_operator::event::{Event, ObjectReference, Timestamp};
use pods_operator::labels::{extract_label_values_from_event, labels_from_parts};

fn event(uid: Option<&str>, first_timestamp: Option<Timestamp>) -> Event {
    Event {
        involved_object: ObjectReference { kind: "Pod".to_string(), uid: uid.map(|u| u.to_string()) },
        reason: Some("Created".to_string()),
        first_timestamp,
        name: "web-0.17d0".to_string(),
    }
}

#[test]
fn labels_of_an_event_with_timestamp_and_uid() {
    // 2024-01-02T03:04:05.123Z
    let at = Timestamp { secs: 1_704_164_645, nanos: 123_000_000 };
    let labels = extract_label_values_from_event(&event(Some("abc-123"), Some(at)));
    assert_eq!(labels.time, "2024-01-02T03:04:05.123Z");
    assert_eq!(labels.object_id, "abc-123");
}

#[test]
fn labels_of_an_event_without_timestamp_and_uid() {
    let labels = extract_label_values_from_event(&event(None, None));
    assert_eq!(labels.time, "");
    assert_eq!(labels.object_id, "");
}

#[test]
fn time_label_keeps_exactly_three_fractional_digits() {
    let whole = Timestamp { secs: 0, nanos: 0 };
    assert_eq!(
        extract_label_values_from_event(&event(None, Some(whole))).time,
        "1970-01-01T00:00:00.000Z"
    );
    let almost = Timestamp { secs: 0, nanos: 999_999_999 };
    assert_eq!(
        extract_label_values_from_event(&event(None, Some(almost))).time,
        "1970-01-01T00:00:00.999Z"
    );
    let tenth = Timestamp { secs: 1_704_164_645, nanos: 100_000_000 };
    assert_eq!(
        extract_label_values_from_event(&event(None, Some(tenth))).time,
        "2024-01-02T03:04:05.100Z"
    );
}

#[test]
fn time_label_before_the_epoch() {
    let at = Timestamp { secs: -1, nanos: 500_000_000 };
    assert_eq!(
        extract_label_values_from_event(&event(None, Some(at))).time,
        "1969-12-31T23:59:59.500Z"
    );
}

#[test]
fn time_label_of_a_leap_second() {
    // 2016-12-31T23:59:60.250Z
    let at = Timestamp { secs: 1_483_228_799, nanos: 1_250_000_000 };
    assert_eq!(
        extract_label_values_from_event(&event(None, Some(at))).time,
        "2016-12-31T23:59:60.250Z"
    );
}

#[test]
fn an_instant_outside_the_calendar_has_an_empty_time_label() {
    let far = Timestamp { secs: i64::MAX, nanos: 0 };
    let labels = extract_label_values_from_event(&event(Some("u"), Some(far)));
    assert_eq!(labels.time, "");
    assert_eq!(labels.object_id, "u");
    let bad_nanos = Timestamp { secs: 0, nanos: 2_000_000_000 };
    assert_eq!(extract_label_values_from_event(&event(None, Some(bad_nanos))).time, "");
}

#[test]
fn timestamp_alone_or_uid_alone() {
    let at = Timestamp { secs: 1_704_164_645, nanos: 123_000_000 };
    let only_time = extract_label_values_from_event(&event(None, Some(at)));
    assert_eq!(only_time.time, "2024-01-02T03:04:05.123Z");
    assert_eq!(only_time.object_id, "");
    let only_uid = extract_label_values_from_event(&event(Some("abc-123"), None));
    assert_eq!(only_uid.time, "");
    assert_eq!(only_uid.object_id, "abc-123");
}

#[test]
fn labels_from_parts_takes_each_part_or_nothing() {
    let both = labels_from_parts(Some("t".to_string()), &Some("u".to_string()));
    assert_eq!((both.time.as_str(), both.object_id.as_str()), ("t", "u"));
    let neither = labels_from_parts(None, &None);
    assert_eq!((neither.time.as_str(), neither.object_id.as_str()), ("", ""));
}
