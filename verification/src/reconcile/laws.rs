//! What holds of every run of the loop.

use vstd::prelude::*;
use crate::classify::{action_for_event, ClassifiedAction};
use crate::event::NotificationView;
use crate::labels::event_labels;
use crate::reconcile::{
    capped, classified_count, classified_to, counter_of, counts_on, label_pairs, occurrences,
    reconciled, reconciled_all, POD_CREATE_COUNTER, POD_DELETE_COUNTER,
};
use crate::registry::laws::{lemma_total_after_increment, lemma_value_after_increment};
use crate::registry::{saturating_succ, LabelSetView, RegistryView};

verus! {

/// The two counters have different names.
pub proof fn lemma_counters_distinct()
    ensures
        POD_CREATE_COUNTER@ != POD_DELETE_COUNTER@,
{
    reveal_strlit("created_pods");
    reveal_strlit("deleted_pods");
    assert(POD_CREATE_COUNTER@[0] == 'c');
    assert(POD_DELETE_COUNTER@[0] == 'd');
}

/// One notification raises a count by one, up to the largest `u64`, if it
/// counts on it, and else leaves it.
pub proof fn lemma_value_after_notification(
    r: RegistryView,
    notification: NotificationView,
    name: Seq<char>,
    labels: LabelSetView,
)
    ensures
        reconciled(r, notification).value(name, labels) == if counts_on(
            notification,
            name,
            labels,
        ) {
            saturating_succ(r.value(name, labels))
        } else {
            r.value(name, labels)
        },
{
    if let Some(e) = notification.event() {
        if let Some(counter) = counter_of(action_for_event(e)) {
            lemma_value_after_increment(r, counter, label_pairs(event_labels(e)), name, labels);
        }
    }
}

/// After a run, each count is what it was before plus the number of
/// notifications of the run that count on it, up to the largest `u64`.
pub proof fn lemma_value_after_run(
    r: RegistryView,
    run: Seq<NotificationView>,
    name: Seq<char>,
    labels: LabelSetView,
)
    ensures
        reconciled_all(r, run).value(name, labels) == capped(
            r.value(name, labels) + occurrences(run, name, labels),
        ),
    decreases run.len(),
{
    if run.len() > 0 {
        lemma_value_after_run(r, run.drop_last(), name, labels);
        lemma_value_after_notification(
            reconciled_all(r, run.drop_last()),
            run.last(),
            name,
            labels,
        );
    }
}

/// The number of notifications that count on a counter only grows along a run.
pub proof fn lemma_occurrences_grow(
    run: Seq<NotificationView>,
    i: int,
    j: int,
    name: Seq<char>,
    labels: LabelSetView,
)
    requires
        0 <= i <= j <= run.len(),
    ensures
        occurrences(run.take(i), name, labels) <= occurrences(run.take(j), name, labels),
    decreases j - i,
{
    if i < j {
        lemma_occurrences_grow(run, i, j - 1, name, labels);
        assert(run.take(j).drop_last() == run.take(j - 1));
    }
}

/// Counts never decrease: read at two points of a run, the later count is at
/// least the earlier one, and no count exceeds what it was before the run plus
/// the number of notifications that counted on it up to the point of reading.
pub proof fn lemma_counts_never_decrease(
    r: RegistryView,
    run: Seq<NotificationView>,
    i: int,
    j: int,
    name: Seq<char>,
    labels: LabelSetView,
)
    requires
        0 <= i <= j <= run.len(),
    ensures
        r.value(name, labels) <= reconciled_all(r, run.take(i)).value(name, labels),
        reconciled_all(r, run.take(i)).value(name, labels) <= reconciled_all(r, run.take(j)).value(
            name,
            labels,
        ),
        reconciled_all(r, run.take(j)).value(name, labels) <= r.value(name, labels) + occurrences(
            run.take(j),
            name,
            labels,
        ),
{
    lemma_value_after_run(r, run.take(i), name, labels);
    lemma_value_after_run(r, run.take(j), name, labels);
    lemma_occurrences_grow(run, i, j, name, labels);
}

/// After a run the total of a counter, over all its partitions, is what it was
/// before plus the number of notifications of the run that were classified to
/// its action, as long as no partition outgrows a `u64`.
pub proof fn lemma_total_after_run(r: RegistryView, run: Seq<NotificationView>, name: Seq<char>)
    requires
        forall|labels: LabelSetView|
            r.value(name, labels) + #[trigger] occurrences(run, name, labels) <= u64::MAX,
    ensures
        reconciled_all(r, run).total(name) == r.total(name) + classified_count(run, name),
    decreases run.len(),
{
    if run.len() > 0 {
        let front = run.drop_last();
        let before = reconciled_all(r, front);
        assert forall|labels: LabelSetView|
            r.value(name, labels) + #[trigger] occurrences(front, name, labels) <= u64::MAX by {
            assert(occurrences(front, name, labels) <= occurrences(run, name, labels));
        }
        lemma_total_after_run(r, front, name);
        if let Some(e) = run.last().event() {
            if let Some(counter) = counter_of(action_for_event(e)) {
                let labels = label_pairs(event_labels(e));
                lemma_total_after_increment(before, counter, labels, name);
                if counter == name {
                    lemma_value_after_run(r, front, name, labels);
                    assert(counts_on(run.last(), name, labels));
                    assert(occurrences(run, name, labels) == occurrences(front, name, labels) + 1);
                }
            }
        }
    }
}

/// Nothing is deduplicated: a notification that counts, delivered twice in a
/// row, counts twice.
pub proof fn lemma_redelivery_counts_twice(
    r: RegistryView,
    notification: NotificationView,
    name: Seq<char>,
    labels: LabelSetView,
)
    requires
        counts_on(notification, name, labels),
    ensures
        reconciled_all(r, seq![notification, notification]) == r.increment(
            name,
            labels,
        ).increment(name, labels),
        reconciled_all(r, seq![notification, notification]).value(name, labels) == capped(
            r.value(name, labels) + 2,
        ),
{
    let twice = seq![notification, notification];
    assert(twice.drop_last() =~= seq![notification]);
    assert(twice.drop_last().drop_last() =~= Seq::<NotificationView>::empty());
    assert(reconciled_all(r, twice.drop_last().drop_last()) == r);
    assert(reconciled_all(r, twice.drop_last()) == reconciled(r, notification));
    assert(reconciled_all(r, twice) == reconciled(reconciled(r, notification), notification));
    lemma_value_after_notification(r, notification, name, labels);
    lemma_value_after_notification(reconciled(r, notification), notification, name, labels);
}

/// Exactly one increment for a notification that counts: the registry after
/// it is the registry before it with one increment of its counter under its
/// labels.
pub proof fn lemma_counted_once(
    r: RegistryView,
    notification: NotificationView,
    name: Seq<char>,
    labels: LabelSetView,
)
    requires
        counts_on(notification, name, labels),
    ensures
        reconciled(r, notification) == r.increment(name, labels),
{
}

/// A notification changes the registry only if it carries an event about a
/// Pod whose reason is `Created` or `Killing`; a stream fault, the start and
/// the readiness of the stream, and every other event leave it as it is.
pub proof fn lemma_uncounted_changes_nothing(r: RegistryView, notification: NotificationView)
    requires
        match notification.event() {
            Some(e) => action_for_event(e) != ClassifiedAction::Created && action_for_event(e)
                != ClassifiedAction::Deleted,
            None => true,
        },
    ensures
        reconciled(r, notification) == r,
{
}

/// A run in which nothing counts leaves the registry as it is, however long it
/// is: a stream that only reports faults never touches a counter.
pub proof fn lemma_uncounted_run_changes_nothing(r: RegistryView, run: Seq<NotificationView>)
    requires
        forall|i: int|
            0 <= i < run.len() ==> !classified_to(#[trigger] run[i], POD_CREATE_COUNTER@)
                && !classified_to(run[i], POD_DELETE_COUNTER@),
    ensures
        reconciled_all(r, run) == r,
    decreases run.len(),
{
    if run.len() > 0 {
        assert forall|i: int| 0 <= i < run.drop_last().len() implies !classified_to(
            #[trigger] run.drop_last()[i],
            POD_CREATE_COUNTER@,
        ) && !classified_to(run.drop_last()[i], POD_DELETE_COUNTER@) by {
            assert(run.drop_last()[i] == run[i]);
        }
        lemma_uncounted_run_changes_nothing(r, run.drop_last());
        assert(run.last() == run[run.len() - 1]);
    }
}

} // verus!
