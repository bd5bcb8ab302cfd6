//! The reconciliation loop, one notification at a time.
//!
//! The loop keeps no state of its own: all that a notification changes is the
//! registry, and that by at most one increment.

use vstd::prelude::*;
use crate::classify::{action_for_event, classify_event, ClassifiedAction};
use crate::event::{NotificationView, WatchNotification};
use crate::labels::{event_labels, extract_label_values_from_event, EventLabels, EventLabelsView};
use crate::reconcile::laws::{lemma_value_after_notification, lemma_value_after_run};
use crate::registry::{
    label_set, saturating_succ, Label, LabelSetView, MetricsRegistry, RegistryView, Unit,
};

pub mod laws;

verus! {

/// The counter of deleted pods.
pub const POD_DELETE_COUNTER: &'static str = "deleted_pods";

/// The counter of created pods.
pub const POD_CREATE_COUNTER: &'static str = "created_pods";

/// The label that holds the time of the event.
pub const TIME_METRIC_LABEL: &'static str = "event_time";

/// The label that holds the uid of the pod.
pub const POD_ID_LABEL: &'static str = "pod_id";

/// What the loop did with a notification; the caller reports it.
#[derive(Clone, Copy, Debug, PartialEq, Eq, Structural)]
pub enum LoopStep {
    /// The stream is starting; nothing was counted.
    StreamStarting,
    /// The stream is ready; nothing was counted.
    StreamReady,
    /// An event was classified, and counted if its action asks for it.
    Handled(ClassifiedAction),
    /// The stream reported a fault; nothing was counted, and the loop goes on.
    StreamError,
}

/// The registry with both counters declared.
pub open spec fn initialized(r: RegistryView) -> RegistryView {
    r.declare(POD_DELETE_COUNTER@, "The number of deleted pods"@, Unit::Count).declare(
        POD_CREATE_COUNTER@,
        "The number of created pods"@,
        Unit::Count,
    )
}

/// The label set under which an event is counted.
pub open spec fn label_pairs(labels: EventLabelsView) -> LabelSetView {
    seq![(TIME_METRIC_LABEL@, labels.time), (POD_ID_LABEL@, labels.object_id)]
}

/// The counter that an action counts on, if it counts.
pub open spec fn counter_of(action: ClassifiedAction) -> Option<Seq<char>> {
    match action {
        ClassifiedAction::Created => Some(POD_CREATE_COUNTER@),
        ClassifiedAction::Deleted => Some(POD_DELETE_COUNTER@),
        _ => None,
    }
}

/// The registry after an action was recorded under these labels.
pub open spec fn recorded(
    r: RegistryView,
    action: ClassifiedAction,
    labels: EventLabelsView,
) -> RegistryView {
    match counter_of(action) {
        Some(name) => r.increment(name, label_pairs(labels)),
        None => r,
    }
}

/// The registry after the loop has taken one notification.
pub open spec fn reconciled(r: RegistryView, notification: NotificationView) -> RegistryView {
    match notification.event() {
        Some(e) => recorded(r, action_for_event(e), event_labels(e)),
        None => r,
    }
}

/// What the loop reports for a notification.
pub open spec fn step_for(notification: NotificationView) -> LoopStep {
    match notification {
        NotificationView::Init => LoopStep::StreamStarting,
        NotificationView::InitDone => LoopStep::StreamReady,
        NotificationView::Apply(e) => LoopStep::Handled(action_for_event(e)),
        NotificationView::Delete(e) => LoopStep::Handled(action_for_event(e)),
        NotificationView::Error(_) => LoopStep::StreamError,
    }
}

/// The mathematical content of a run of notifications.
pub open spec fn notification_views(run: Seq<WatchNotification>) -> Seq<NotificationView> {
    Seq::new(run.len(), |i: int| run[i]@)
}

/// The registry after the loop has taken a run of notifications, in order.
pub open spec fn reconciled_all(r: RegistryView, run: Seq<NotificationView>) -> RegistryView
    decreases run.len(),
{
    if run.len() == 0 {
        r
    } else {
        reconciled(reconciled_all(r, run.drop_last()), run.last())
    }
}

/// Whether a notification counts on the counter `name` under `labels`: it
/// carries an event whose action counts on `name`, and whose labels are `labels`.
pub open spec fn counts_on(
    notification: NotificationView,
    name: Seq<char>,
    labels: LabelSetView,
) -> bool {
    match notification.event() {
        Some(e) => counter_of(action_for_event(e)) == Some(name) && label_pairs(event_labels(e))
            == labels,
        None => false,
    }
}

/// How many notifications of a run count on the counter `name` under `labels`.
pub open spec fn occurrences(
    run: Seq<NotificationView>,
    name: Seq<char>,
    labels: LabelSetView,
) -> nat
    decreases run.len(),
{
    if run.len() == 0 {
        0
    } else {
        occurrences(run.drop_last(), name, labels) + if counts_on(run.last(), name, labels) {
            1nat
        } else {
            0nat
        }
    }
}

/// A count as a `u64`: itself while it fits, the largest `u64` beyond.
pub open spec fn capped(n: int) -> u64 {
    if n < u64::MAX {
        n as u64
    } else {
        u64::MAX
    }
}

/// Whether a notification is classified to the action that counts on `name`.
pub open spec fn classified_to(notification: NotificationView, name: Seq<char>) -> bool {
    match notification.event() {
        Some(e) => counter_of(action_for_event(e)) == Some(name),
        None => false,
    }
}

/// How many notifications of a run are classified to the action that counts
/// on `name`.
pub open spec fn classified_count(run: Seq<NotificationView>, name: Seq<char>) -> nat
    decreases run.len(),
{
    if run.len() == 0 {
        0
    } else {
        classified_count(run.drop_last(), name) + if classified_to(run.last(), name) {
            1nat
        } else {
            0nat
        }
    }
}

/// Declares the two counters, each with its description and unit.
pub fn initialize_counters(registry: &mut MetricsRegistry)
    ensures
        final(registry)@ == initialized(old(registry)@),
        old(registry)@.wf() ==> final(registry)@.wf(),
{
    registry.declare(POD_DELETE_COUNTER, "The number of deleted pods", Unit::Count);
    registry.declare(POD_CREATE_COUNTER, "The number of created pods", Unit::Count);
}

/// The labels of an event as the label set of its partition.
pub fn label_list(labels: EventLabels) -> (list: Vec<Label>)
    ensures
        label_set(list@) == label_pairs(labels@),
{
    let mut list: Vec<Label> = Vec::new();
    list.push(Label { name: TIME_METRIC_LABEL.to_owned(), value: labels.time });
    list.push(Label { name: POD_ID_LABEL.to_owned(), value: labels.object_id });
    assert(label_set(list@) =~= label_pairs(labels@));
    list
}

/// Records an action under the labels of its event: a creation and a deletion
/// count once on their counter, every other action leaves the registry as it is.
pub fn record(registry: &mut MetricsRegistry, action: ClassifiedAction, labels: EventLabels)
    ensures
        final(registry)@ == recorded(old(registry)@, action, labels@),
        old(registry)@.wf() ==> final(registry)@.wf(),
{
    match action {
        ClassifiedAction::Created => {
            registry.increment(POD_CREATE_COUNTER, label_list(labels));
        },
        ClassifiedAction::Deleted => {
            registry.increment(POD_DELETE_COUNTER, label_list(labels));
        },
        _ => {},
    }
}

/// Takes one notification: classifies the event it carries, counts it where
/// the action asks for it, and says what was done. A notification without an
/// event, a stream fault among them, changes nothing.
pub fn reconcile(registry: &mut MetricsRegistry, notification: &WatchNotification) -> (step:
    LoopStep)
    ensures
        final(registry)@ == reconciled(old(registry)@, notification@),
        forall|name: Seq<char>, labels: LabelSetView|
            #[trigger] final(registry)@.value(name, labels) == if counts_on(
                notification@,
                name,
                labels,
            ) {
                saturating_succ(old(registry)@.value(name, labels))
            } else {
                old(registry)@.value(name, labels)
            },
        old(registry)@.wf() ==> final(registry)@.wf(),
        step == step_for(notification@),
{
    proof {
        assert forall|name: Seq<char>, labels: LabelSetView|
            #[trigger] reconciled(old(registry)@, notification@).value(name, labels) == if counts_on(
                notification@,
                name,
                labels,
            ) {
                saturating_succ(old(registry)@.value(name, labels))
            } else {
                old(registry)@.value(name, labels)
            } by {
            lemma_value_after_notification(old(registry)@, notification@, name, labels);
        }
    }
    match notification {
        WatchNotification::Init => LoopStep::StreamStarting,
        WatchNotification::InitDone => LoopStep::StreamReady,
        WatchNotification::Apply(event) | WatchNotification::Delete(event) => {
            let action = classify_event(event);
            match action {
                ClassifiedAction::Created | ClassifiedAction::Deleted => {
                    let labels = extract_label_values_from_event(event);
                    record(registry, action, labels);
                },
                _ => {},
            }
            LoopStep::Handled(action)
        },
        WatchNotification::Error(_) => LoopStep::StreamError,
    }
}

/// Takes a run of notifications in the order given, and says what was done
/// with each.
pub fn reconcile_all(registry: &mut MetricsRegistry, run: &[WatchNotification]) -> (steps: Vec<
    LoopStep,
>)
    ensures
        final(registry)@ == reconciled_all(old(registry)@, notification_views(run@)),
        forall|name: Seq<char>, labels: LabelSetView|
            #[trigger] final(registry)@.value(name, labels) == capped(
                old(registry)@.value(name, labels) + occurrences(
                    notification_views(run@),
                    name,
                    labels,
                ),
            ),
        old(registry)@.wf() ==> final(registry)@.wf(),
        steps@.len() == run@.len(),
        forall|i: int| 0 <= i < run@.len() ==> steps@[i] == step_for(#[trigger] run@[i]@),
{
    proof {
        let views = notification_views(run@);
        assert forall|name: Seq<char>, labels: LabelSetView|
            #[trigger] reconciled_all(old(registry)@, views).value(name, labels) == capped(
                old(registry)@.value(name, labels) + occurrences(views, name, labels),
            ) by {
            lemma_value_after_run(old(registry)@, views, name, labels);
        }
    }
    let mut steps: Vec<LoopStep> = Vec::new();
    let mut i: usize = 0;
    while i < run.len()
        invariant
            i <= run.len(),
            registry@ == reconciled_all(old(registry)@, notification_views(run@).take(i as int)),
            old(registry)@.wf() ==> registry@.wf(),
            steps@.len() == i,
            forall|k: int| 0 <= k < i ==> steps@[k] == step_for(#[trigger] run@[k]@),
        decreases run.len() - i,
    {
        proof {
            let views = notification_views(run@);
            assert(views.take(i + 1).drop_last() == views.take(i as int));
            assert(views.take(i + 1).last() == run@[i as int]@);
        }
        let step = reconcile(registry, &run[i]);
        steps.push(step);
        i += 1;
    }
    proof {
        let views = notification_views(run@);
        assert(views.take(run@.len() as int) == views);
    }
    steps
}

} // verus!
