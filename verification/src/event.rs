//! What the watch stream delivers: notifications, and the events they carry.

use vstd::prelude::*;

verus! {

/// An instant, as whole seconds since 1970-01-01T00:00:00 UTC and the
/// nanoseconds since the last whole second.
///
/// `nanos` may reach into the second billion to stand for a leap second.
#[derive(Clone, Copy, Debug, PartialEq, Eq, Structural)]
pub struct Timestamp {
    pub secs: i64,
    pub nanos: u32,
}

/// The resource that an event is about.
#[derive(Clone, Debug)]
pub struct ObjectReference {
    pub kind: String,
    pub uid: Option<String>,
}

/// One event of the cluster, as the watch stream saw it.
#[derive(Clone, Debug)]
pub struct Event {
    pub involved_object: ObjectReference,
    /// A short machine token that says why the event was emitted.
    pub reason: Option<String>,
    /// When the underlying condition was first observed.
    pub first_timestamp: Option<Timestamp>,
    /// Display name of the event; nothing is decided on it.
    pub name: String,
}

/// One message of the watch stream.
#[derive(Clone, Debug)]
pub enum WatchNotification {
    /// The stream is being (re)established.
    Init,
    /// The initial synchronisation is complete.
    InitDone,
    /// An event resource was created or updated.
    Apply(Event),
    /// An event resource was removed.
    Delete(Event),
    /// A recoverable fault of the stream, with its cause.
    Error(String),
}

/// The mathematical content of an [`Event`].
pub struct EventView {
    pub kind: Seq<char>,
    pub uid: Option<Seq<char>>,
    pub reason: Option<Seq<char>>,
    pub first_timestamp: Option<Timestamp>,
    pub name: Seq<char>,
}

/// The mathematical content of a [`WatchNotification`].
pub enum NotificationView {
    Init,
    InitDone,
    Apply(EventView),
    Delete(EventView),
    Error(Seq<char>),
}

/// The characters of an optional string.
pub open spec fn opt_chars(s: Option<String>) -> Option<Seq<char>> {
    match s {
        Some(t) => Some(t@),
        None => None,
    }
}

impl View for Event {
    type V = EventView;

    open spec fn view(&self) -> EventView {
        EventView {
            kind: self.involved_object.kind@,
            uid: opt_chars(self.involved_object.uid),
            reason: opt_chars(self.reason),
            first_timestamp: self.first_timestamp,
            name: self.name@,
        }
    }
}

impl View for WatchNotification {
    type V = NotificationView;

    open spec fn view(&self) -> NotificationView {
        match self {
            WatchNotification::Init => NotificationView::Init,
            WatchNotification::InitDone => NotificationView::InitDone,
            WatchNotification::Apply(e) => NotificationView::Apply(e@),
            WatchNotification::Delete(e) => NotificationView::Delete(e@),
            WatchNotification::Error(cause) => NotificationView::Error(cause@),
        }
    }
}

impl NotificationView {
    /// The event that the notification carries, if it carries one.
    pub open spec fn event(self) -> Option<EventView> {
        match self {
            NotificationView::Apply(e) => Some(e),
            NotificationView::Delete(e) => Some(e),
            _ => None,
        }
    }
}

} // verus!
