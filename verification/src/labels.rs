//! The label extractor: the two labels of a counted event.

use vstd::prelude::*;
use crate::event::{opt_chars, Event, EventView, Timestamp};

verus! {

/// The labels under which an event is counted.
#[derive(Clone, Debug)]
pub struct EventLabels {
    /// When the event was first seen, in RFC 3339 form; empty if unknown.
    pub time: String,
    /// The uid of the object that the event is about; empty if unknown.
    pub object_id: String,
}

/// The mathematical content of [`EventLabels`].
pub struct EventLabelsView {
    pub time: Seq<char>,
    pub object_id: Seq<char>,
}

impl View for EventLabels {
    type V = EventLabelsView;

    open spec fn view(&self) -> EventLabelsView {
        EventLabelsView { time: self.time@, object_id: self.object_id@ }
    }
}

/// The RFC 3339 text of an instant in UTC, with exactly three fractional digits
/// and the suffix `Z`, as `chrono` writes it; `None` for an instant outside the
/// range of dates that `chrono` can hold, or with a nanosecond part that it
/// does not accept.
pub uninterp spec fn rfc3339_millis(secs: i64, nanos: u32) -> Option<Seq<char>>;

/// Calls `chrono::DateTime::<Utc>::from_timestamp` and, on the instant it
/// gives, `to_rfc3339_opts(SecondsFormat::Millis, true)`.
///
/// Trusted: the text returned is the one that [`rfc3339_millis`] names, and it
/// is absent exactly where `from_timestamp` gives no instant. Neither call
/// reads a clock, a locale or a time zone.
#[verifier::external_body]
fn format_rfc3339_millis(secs: i64, nanos: u32) -> (text: Option<String>)
    ensures
        opt_chars(text) == rfc3339_millis(secs, nanos),
{
    match chrono::DateTime::<chrono::Utc>::from_timestamp(secs, nanos) {
        Some(instant) => Some(instant.to_rfc3339_opts(chrono::SecondsFormat::Millis, true)),
        None => None,
    }
}

/// The formatted time of an event: none without a timestamp, and none for a
/// timestamp that has no RFC 3339 text.
pub open spec fn formatted_time(timestamp: Option<Timestamp>) -> Option<Seq<char>> {
    match timestamp {
        Some(t) => rfc3339_millis(t.secs, t.nanos),
        None => None,
    }
}

/// The labels made of a formatted time and a uid: each is empty where absent.
pub open spec fn labels_of(time: Option<Seq<char>>, uid: Option<Seq<char>>) -> EventLabelsView {
    EventLabelsView {
        time: match time {
            Some(t) => t,
            None => Seq::empty(),
        },
        object_id: match uid {
            Some(u) => u,
            None => Seq::empty(),
        },
    }
}

/// The labels of an event.
pub open spec fn event_labels(event: EventView) -> EventLabelsView {
    labels_of(formatted_time(event.first_timestamp), event.uid)
}

/// Builds the labels from an already formatted time and a uid.
pub fn labels_from_parts(time: Option<String>, uid: &Option<String>) -> (labels: EventLabels)
    ensures
        labels@ == labels_of(opt_chars(time), opt_chars(*uid)),
{
    let time = match time {
        Some(t) => t,
        None => String::new(),
    };
    let object_id = match uid {
        Some(u) => u.clone(),
        None => String::new(),
    };
    EventLabels { time, object_id }
}

/// Derives the labels of an event. Total: a missing timestamp or uid, and a
/// timestamp without RFC 3339 text, give an empty label.
pub fn extract_label_values_from_event(ev: &Event) -> (labels: EventLabels)
    ensures
        labels@ == event_labels(ev@),
{
    let time = match ev.first_timestamp {
        Some(t) => format_rfc3339_millis(t.secs, t.nanos),
        None => None,
    };
    labels_from_parts(time, &ev.involved_object.uid)
}

} // verus!
