//! The classifier: from the reason of an event about a Pod to an action.

use vstd::prelude::*;
use crate::event::{Event, EventView, NotificationView, WatchNotification};
use crate::text::str_eq;

verus! {

/// A transition that is only reported, never counted.
#[derive(Clone, Copy, Debug, PartialEq, Eq, Structural)]
pub enum InfoKind {
    ImagePulled,
    Scheduled,
    Started,
    Updated,
}

/// What the loop does with an event.
#[derive(Clone, Copy, Debug, PartialEq, Eq, Structural)]
pub enum ClassifiedAction {
    Ignore,
    Created,
    Deleted,
    Informational(InfoKind),
}

/// The action that a reason stands for. The match is exact and case-sensitive;
/// an absent reason and every reason outside the table are ignored.
pub open spec fn action_for_reason(reason: Option<Seq<char>>) -> ClassifiedAction {
    match reason {
        None => ClassifiedAction::Ignore,
        Some(r) => if r == "Pulled"@ {
            ClassifiedAction::Informational(InfoKind::ImagePulled)
        } else if r == "Created"@ {
            ClassifiedAction::Created
        } else if r == "Scheduled"@ {
            ClassifiedAction::Informational(InfoKind::Scheduled)
        } else if r == "Started"@ {
            ClassifiedAction::Informational(InfoKind::Started)
        } else if r == "Updated"@ {
            ClassifiedAction::Informational(InfoKind::Updated)
        } else if r == "Killing"@ {
            ClassifiedAction::Deleted
        } else {
            ClassifiedAction::Ignore
        },
    }
}

/// The action for an event: events about anything but a Pod are ignored,
/// the others go by their reason.
pub open spec fn action_for_event(event: EventView) -> ClassifiedAction {
    if event.kind == "Pod"@ {
        action_for_reason(event.reason)
    } else {
        ClassifiedAction::Ignore
    }
}

/// The action for a notification: `Apply` and `Delete` are classified alike,
/// by the event they carry; the other notifications carry none and are left
/// to the loop.
pub open spec fn action_for(notification: NotificationView) -> Option<ClassifiedAction> {
    match notification.event() {
        Some(e) => Some(action_for_event(e)),
        None => None,
    }
}

/// An event about anything but a Pod is ignored, whatever its reason.
pub proof fn lemma_kind_filter(event: EventView)
    requires
        event.kind != "Pod"@,
    ensures
        action_for_event(event) == ClassifiedAction::Ignore,
{
}

/// The reason table, entry by entry, for an event about a Pod: `Created` is
/// counted as a creation, `Killing` as a deletion, `Pulled`, `Scheduled`,
/// `Started` and `Updated` are informational, and an absent reason or any other
/// string is ignored.
pub proof fn lemma_reason_table(event: EventView)
    requires
        event.kind == "Pod"@,
    ensures
        event.reason == Some("Created"@) ==> action_for_event(event) == ClassifiedAction::Created,
        event.reason == Some("Killing"@) ==> action_for_event(event) == ClassifiedAction::Deleted,
        event.reason == Some("Pulled"@) ==> action_for_event(event)
            == ClassifiedAction::Informational(InfoKind::ImagePulled),
        event.reason == Some("Scheduled"@) ==> action_for_event(event)
            == ClassifiedAction::Informational(InfoKind::Scheduled),
        event.reason == Some("Started"@) ==> action_for_event(event)
            == ClassifiedAction::Informational(InfoKind::Started),
        event.reason == Some("Updated"@) ==> action_for_event(event)
            == ClassifiedAction::Informational(InfoKind::Updated),
        (event.reason matches Some(r) ==> r != "Created"@ && r != "Killing"@ && r != "Pulled"@
            && r != "Scheduled"@ && r != "Started"@ && r != "Updated"@) ==> action_for_event(event)
            == ClassifiedAction::Ignore,
{
    reveal_strlit("Pulled");
    reveal_strlit("Created");
    reveal_strlit("Scheduled");
    reveal_strlit("Started");
    reveal_strlit("Updated");
    reveal_strlit("Killing");
    // The six tokens differ pairwise: in their length or in their second character.
    assert("Created"@.len() == 7 && "Pulled"@.len() == 6 && "Scheduled"@.len() == 9);
    assert("Started"@[1] == 't' && "Created"@[1] == 'r' && "Updated"@[1] == 'p' && "Killing"@[1]
        == 'i');
}

/// An action is counted exactly when the event is about a Pod and its reason is
/// `Created` or `Killing`.
pub proof fn lemma_counted_iff(event: EventView)
    ensures
        action_for_event(event) == ClassifiedAction::Created <==> event.kind == "Pod"@
            && event.reason == Some("Created"@),
        action_for_event(event) == ClassifiedAction::Deleted <==> event.kind == "Pod"@
            && event.reason == Some("Killing"@),
{
    if event.kind == "Pod"@ {
        lemma_reason_table(event);
    }
}

/// Classifies a reason token.
pub fn classify_reason(reason: &str) -> (action: ClassifiedAction)
    ensures
        action == action_for_reason(Some(reason@)),
{
    if str_eq(reason, "Pulled") {
        ClassifiedAction::Informational(InfoKind::ImagePulled)
    } else if str_eq(reason, "Created") {
        ClassifiedAction::Created
    } else if str_eq(reason, "Scheduled") {
        ClassifiedAction::Informational(InfoKind::Scheduled)
    } else if str_eq(reason, "Started") {
        ClassifiedAction::Informational(InfoKind::Started)
    } else if str_eq(reason, "Updated") {
        ClassifiedAction::Informational(InfoKind::Updated)
    } else if str_eq(reason, "Killing") {
        ClassifiedAction::Deleted
    } else {
        ClassifiedAction::Ignore
    }
}

/// Classifies one event. Total: every event has an action.
pub fn classify_event(event: &Event) -> (action: ClassifiedAction)
    ensures
        action == action_for_event(event@),
{
    if !str_eq(event.involved_object.kind.as_str(), "Pod") {
        return ClassifiedAction::Ignore;
    }
    match &event.reason {
        Some(reason) => classify_reason(reason.as_str()),
        None => ClassifiedAction::Ignore,
    }
}

/// Classifies one notification: `None` for the notifications that carry no event.
pub fn classify(notification: &WatchNotification) -> (action: Option<ClassifiedAction>)
    ensures
        action == action_for(notification@),
{
    match notification {
        WatchNotification::Apply(event) => Some(classify_event(event)),
        WatchNotification::Delete(event) => Some(classify_event(event)),
        _ => None,
    }
}

} // verus!
