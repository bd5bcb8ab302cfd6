//! What holds of every registry.

use vstd::prelude::*;
use crate::registry::{
    saturating_succ, total_of, DescriptionView, FamilyView, LabelSetView, PartitionView,
    RegistryView, Unit,
};
use crate::seq_find::{lemma_first_index_facts, lemma_first_index_is, lemma_first_index_push};

verus! {

/// Within one counter, an increment under `labels` raises the count under
/// `labels` by one, up to the largest `u64`, and leaves every other count.
pub proof fn lemma_family_value_after_increment(
    f: FamilyView,
    labels: LabelSetView,
    other: LabelSetView,
)
    ensures
        f.increment(labels).name == f.name,
        f.increment(labels).description == f.description,
        f.increment(labels).value(other) == if other == labels {
            saturating_succ(f.value(labels))
        } else {
            f.value(other)
        },
{
    let g = f.increment(labels);
    lemma_first_index_facts(f.label_sets(), labels);
    lemma_first_index_facts(f.label_sets(), other);
    match f.position(labels) {
        Some(j) => {
            assert(f.label_sets()[j] == labels);
            assert(g.label_sets() =~= f.label_sets());
        },
        None => {
            assert(g.label_sets() =~= f.label_sets().push(labels));
            lemma_first_index_push(f.label_sets(), labels, other);
        },
    }
}

/// An increment of the counter `name` under `labels` raises that one count by
/// one, up to the largest `u64`, and leaves every other count of the registry.
pub proof fn lemma_value_after_increment(
    r: RegistryView,
    name: Seq<char>,
    labels: LabelSetView,
    other_name: Seq<char>,
    other_labels: LabelSetView,
)
    ensures
        r.increment(name, labels).value(other_name, other_labels) == if other_name == name
            && other_labels == labels {
            saturating_succ(r.value(name, labels))
        } else {
            r.value(other_name, other_labels)
        },
{
    let s = r.increment(name, labels);
    lemma_first_index_facts(r.names(), name);
    lemma_first_index_facts(r.names(), other_name);
    match r.position(name) {
        Some(i) => {
            lemma_family_value_after_increment(r.families[i], labels, other_labels);
            assert(r.names()[i] == name);
            assert(s.names() =~= r.names());
        },
        None => {
            assert(s.names() =~= r.names().push(name));
            lemma_first_index_push(r.names(), name, other_name);
            if other_name == name {
                let f = s.families[r.families.len() as int];
                assert(f.label_sets() =~= seq![labels]);
                if other_labels == labels {
                    lemma_first_index_is(f.label_sets(), other_labels, Some(0));
                } else {
                    lemma_first_index_is(f.label_sets(), other_labels, None);
                }
            }
        },
    }
}

/// No count ever goes down by an increment.
pub proof fn lemma_increment_never_lowers(
    r: RegistryView,
    name: Seq<char>,
    labels: LabelSetView,
    other_name: Seq<char>,
    other_labels: LabelSetView,
)
    ensures
        r.value(other_name, other_labels) <= r.increment(name, labels).value(
            other_name,
            other_labels,
        ),
{
    lemma_value_after_increment(r, name, labels, other_name, other_labels);
}

/// An increment leaves every description as it was.
pub proof fn lemma_increment_keeps_descriptions(
    r: RegistryView,
    name: Seq<char>,
    labels: LabelSetView,
    other_name: Seq<char>,
)
    ensures
        r.increment(name, labels).description(other_name) == r.description(other_name),
{
    let s = r.increment(name, labels);
    lemma_first_index_facts(r.names(), name);
    lemma_first_index_facts(r.names(), other_name);
    match r.position(name) {
        Some(i) => {
            assert(r.names()[i] == name);
            assert(s.names() =~= r.names());
        },
        None => {
            assert(s.names() =~= r.names().push(name));
            lemma_first_index_push(r.names(), name, other_name);
        },
    }
}

/// A declaration changes no count.
pub proof fn lemma_declare_keeps_values(
    r: RegistryView,
    name: Seq<char>,
    text: Seq<char>,
    unit: Unit,
    other_name: Seq<char>,
    other_labels: LabelSetView,
)
    ensures
        r.declare(name, text, unit).value(other_name, other_labels) == r.value(
            other_name,
            other_labels,
        ),
{
    let s = r.declare(name, text, unit);
    lemma_first_index_facts(r.names(), name);
    lemma_first_index_facts(r.names(), other_name);
    match r.position(name) {
        Some(i) => {
            assert(r.names()[i] == name);
            assert(s.names() =~= r.names());
            assert(s.families[i].label_sets() =~= r.families[i].label_sets());
        },
        None => {
            assert(s.names() =~= r.names().push(name));
            lemma_first_index_push(r.names(), name, other_name);
            if other_name == name {
                let f = s.families[r.families.len() as int];
                assert(f.label_sets() =~= Seq::<LabelSetView>::empty());
                lemma_first_index_is(f.label_sets(), other_labels, None);
            }
        },
    }
}

/// After its declaration a counter has a description: the one it had before,
/// or else the one just given. Every other counter keeps its own.
pub proof fn lemma_description_after_declare(
    r: RegistryView,
    name: Seq<char>,
    text: Seq<char>,
    unit: Unit,
    other_name: Seq<char>,
)
    ensures
        r.declare(name, text, unit).description(other_name) == if other_name == name
            && r.description(name) is None {
            Some((DescriptionView { text, unit }))
        } else {
            r.description(other_name)
        },
{
    let s = r.declare(name, text, unit);
    lemma_first_index_facts(r.names(), name);
    lemma_first_index_facts(r.names(), other_name);
    match r.position(name) {
        Some(i) => {
            assert(r.names()[i] == name);
            assert(s.names() =~= r.names());
        },
        None => {
            assert(s.names() =~= r.names().push(name));
            lemma_first_index_push(r.names(), name, other_name);
        },
    }
}

/// Declaring is idempotent: once a name is declared, declaring it again, with
/// the same or with another description, changes nothing.
pub proof fn lemma_declare_idempotent(
    r: RegistryView,
    name: Seq<char>,
    text: Seq<char>,
    unit: Unit,
    again_text: Seq<char>,
    again_unit: Unit,
)
    ensures
        r.declare(name, text, unit).declare(name, again_text, again_unit) == r.declare(
            name,
            text,
            unit,
        ),
{
    let s = r.declare(name, text, unit);
    lemma_description_after_declare(r, name, text, unit, name);
    lemma_first_index_facts(s.names(), name);
    assert(s.description(name) is Some);
}

/// Replacing one partition changes the sum of the counts by the difference of
/// the two counts.
pub proof fn lemma_total_of_update(partitions: Seq<PartitionView>, j: int, p: PartitionView)
    requires
        0 <= j < partitions.len(),
    ensures
        total_of(partitions.update(j, p)) == total_of(partitions) - partitions[j].value + p.value,
    decreases partitions.len(),
{
    let updated = partitions.update(j, p);
    if j == partitions.len() - 1 {
        assert(updated.drop_last() == partitions.drop_last());
    } else {
        assert(updated.drop_last() == partitions.drop_last().update(j, p));
        lemma_total_of_update(partitions.drop_last(), j, p);
    }
}

/// An increment of the counter `name` raises its total by one, unless the
/// partition counted on has reached the largest `u64`; every other total stays.
pub proof fn lemma_total_after_increment(
    r: RegistryView,
    name: Seq<char>,
    labels: LabelSetView,
    other_name: Seq<char>,
)
    ensures
        r.increment(name, labels).total(other_name) == r.total(other_name) + if other_name == name
            && r.value(name, labels) < u64::MAX {
            1nat
        } else {
            0nat
        },
{
    let s = r.increment(name, labels);
    lemma_first_index_facts(r.names(), name);
    lemma_first_index_facts(r.names(), other_name);
    match r.position(name) {
        Some(i) => {
            let f = r.families[i];
            assert(r.names()[i] == name);
            assert(s.names() =~= r.names());
            lemma_first_index_facts(f.label_sets(), labels);
            match f.position(labels) {
                Some(j) => {
                    lemma_total_of_update(
                        f.partitions,
                        j,
                        PartitionView { labels, value: saturating_succ(f.partitions[j].value) },
                    );
                },
                None => {
                    assert(f.increment(labels).partitions.drop_last() == f.partitions);
                },
            }
        },
        None => {
            assert(s.names() =~= r.names().push(name));
            lemma_first_index_push(r.names(), name, other_name);
            if other_name == name {
                let f = s.families[r.families.len() as int];
                assert(f.partitions.drop_last() == Seq::<PartitionView>::empty());
                assert(total_of(f.partitions.drop_last()) == 0);
            }
        },
    }
}

/// The empty registry is well-formed.
pub proof fn lemma_empty_wf()
    ensures
        RegistryView::empty().wf(),
{
}

/// A declaration keeps a registry well-formed.
pub proof fn lemma_declare_wf(r: RegistryView, name: Seq<char>, text: Seq<char>, unit: Unit)
    requires
        r.wf(),
    ensures
        r.declare(name, text, unit).wf(),
{
    let s = r.declare(name, text, unit);
    lemma_first_index_facts(r.names(), name);
    match r.position(name) {
        Some(i) => {
            assert(s.names() =~= r.names());
            assert(s.families[i].label_sets() =~= r.families[i].label_sets());
            assert forall|k: int| 0 <= k < s.families.len() implies (#[trigger] s.families[k]).wf() by {
                assert(r.families[k].wf());
            }
        },
        None => {
            assert(s.names() =~= r.names().push(name));
            let f = s.families[r.families.len() as int];
            assert(f.label_sets() =~= Seq::<LabelSetView>::empty());
            assert forall|k: int| 0 <= k < s.families.len() implies (#[trigger] s.families[k]).wf() by {
                if k < r.families.len() {
                    assert(r.families[k].wf());
                }
            }
        },
    }
}

/// An increment keeps a counter's partitions distinct.
pub proof fn lemma_family_increment_wf(f: FamilyView, labels: LabelSetView)
    requires
        f.wf(),
    ensures
        f.increment(labels).wf(),
{
    let g = f.increment(labels);
    lemma_first_index_facts(f.label_sets(), labels);
    match f.position(labels) {
        Some(j) => {
            assert(f.label_sets()[j] == labels);
            assert(g.label_sets() =~= f.label_sets());
        },
        None => {
            assert(g.label_sets() =~= f.label_sets().push(labels));
        },
    }
}

/// An increment keeps a registry well-formed.
pub proof fn lemma_increment_wf(r: RegistryView, name: Seq<char>, labels: LabelSetView)
    requires
        r.wf(),
    ensures
        r.increment(name, labels).wf(),
{
    let s = r.increment(name, labels);
    lemma_first_index_facts(r.names(), name);
    match r.position(name) {
        Some(i) => {
            lemma_family_value_after_increment(r.families[i], labels, labels);
            assert(r.families[i].wf());
            lemma_family_increment_wf(r.families[i], labels);
            assert(s.names() =~= r.names());
            assert forall|k: int| 0 <= k < s.families.len() implies (#[trigger] s.families[k]).wf() by {
                assert(r.families[k].wf());
            }
        },
        None => {
            assert(s.names() =~= r.names().push(name));
            let f = s.families[r.families.len() as int];
            assert(f.label_sets() =~= seq![labels]);
            assert forall|k: int| 0 <= k < s.families.len() implies (#[trigger] s.families[k]).wf() by {
                if k < r.families.len() {
                    assert(r.families[k].wf());
                }
            }
        },
    }
}

/// In a well-formed registry the count listed in a partition is the count of
/// its counter under its labels.
pub proof fn lemma_listed_value(r: RegistryView, i: int, j: int)
    requires
        r.wf(),
        0 <= i < r.families.len(),
        0 <= j < r.families[i].partitions.len(),
    ensures
        r.value(r.families[i].name, r.families[i].partitions[j].labels)
            == r.families[i].partitions[j].value,
{
    let f = r.families[i];
    assert(r.names()[i] == f.name);
    assert forall|k: int| 0 <= k < i implies r.names()[k] != f.name by {}
    lemma_first_index_is(r.names(), f.name, Some(i));
    assert(f.wf());
    let labels = f.partitions[j].labels;
    assert(f.label_sets()[j] == labels);
    assert forall|k: int| 0 <= k < j implies f.label_sets()[k] != labels by {}
    lemma_first_index_is(f.label_sets(), labels, Some(j));
}

} // verus!
