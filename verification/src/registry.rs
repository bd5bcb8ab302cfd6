//! The metrics registry: named counters, each partitioned by label sets.
//!
//! A counter only grows. Its families and partitions keep the order in which
//! they were first seen, which is the order of the exposition.

use vstd::prelude::*;
use crate::registry::laws::{lemma_declare_wf, lemma_increment_wf};
use crate::seq_find::{lemma_first_index_facts, lemma_first_index_is};
use crate::text::str_eq;

pub mod exposition;
pub mod laws;

verus! {

/// The unit in which a counter counts.
#[derive(Clone, Copy, Debug, PartialEq, Eq, Structural)]
pub enum Unit {
    Count,
    Seconds,
    Bytes,
}

/// One label: a name and a value.
#[derive(Clone, Debug)]
pub struct Label {
    pub name: String,
    pub value: String,
}

/// A label set as pairs of name and value, in the order given.
pub type LabelSetView = Seq<(Seq<char>, Seq<char>)>;

/// The mathematical content of a list of labels.
pub open spec fn label_set(labels: Seq<Label>) -> LabelSetView {
    Seq::new(labels.len(), |i: int| (labels[i].name@, labels[i].value@))
}

/// What a counter was declared with.
#[derive(Clone, Debug)]
pub struct Description {
    pub text: String,
    pub unit: Unit,
}

/// The mathematical content of a [`Description`].
pub struct DescriptionView {
    pub text: Seq<char>,
    pub unit: Unit,
}

impl View for Description {
    type V = DescriptionView;

    open spec fn view(&self) -> DescriptionView {
        DescriptionView { text: self.text@, unit: self.unit }
    }
}

/// One partition of a counter: a label set and its count.
pub struct PartitionView {
    pub labels: LabelSetView,
    pub value: u64,
}

/// One counter: its name, its description if it was declared, its partitions.
pub struct FamilyView {
    pub name: Seq<char>,
    pub description: Option<DescriptionView>,
    pub partitions: Seq<PartitionView>,
}

/// The mathematical content of a [`MetricsRegistry`].
pub struct RegistryView {
    pub families: Seq<FamilyView>,
}

/// The successor of a count; a count that has reached the largest `u64` stays there.
pub open spec fn saturating_succ(v: u64) -> u64 {
    if v < u64::MAX {
        (v + 1) as u64
    } else {
        v
    }
}

/// The sum of the counts of some partitions.
pub open spec fn total_of(partitions: Seq<PartitionView>) -> nat
    decreases partitions.len(),
{
    if partitions.len() == 0 {
        0
    } else {
        total_of(partitions.drop_last()) + partitions.last().value as nat
    }
}

impl FamilyView {
    /// The label sets of the partitions, in order.
    pub open spec fn label_sets(self) -> Seq<LabelSetView> {
        Seq::new(self.partitions.len(), |j: int| self.partitions[j].labels)
    }

    /// The index of the partition with these labels.
    pub open spec fn position(self, labels: LabelSetView) -> Option<int> {
        self.label_sets().index_of_first(labels)
    }

    /// The count of the partition with these labels; 0 if there is none.
    pub open spec fn value(self, labels: LabelSetView) -> u64 {
        match self.position(labels) {
            Some(j) => self.partitions[j].value,
            None => 0,
        }
    }

    /// The counter after one increment under these labels: the partition is
    /// created with count 1 on first use, and else its count goes up by one.
    pub open spec fn increment(self, labels: LabelSetView) -> FamilyView {
        match self.position(labels) {
            Some(j) => FamilyView {
                partitions: self.partitions.update(
                    j,
                    PartitionView { labels, value: saturating_succ(self.partitions[j].value) },
                ),
                ..self
            },
            None => FamilyView {
                partitions: self.partitions.push(PartitionView { labels, value: 1 }),
                ..self
            },
        }
    }

    /// The count of the counter over all its partitions.
    pub open spec fn total(self) -> nat {
        total_of(self.partitions)
    }

    /// No label set stands twice among the partitions.
    pub open spec fn wf(self) -> bool {
        self.label_sets().no_duplicates()
    }
}

impl RegistryView {
    /// The registry without any counter.
    pub open spec fn empty() -> RegistryView {
        RegistryView { families: Seq::empty() }
    }

    /// The names of the counters, in order.
    pub open spec fn names(self) -> Seq<Seq<char>> {
        Seq::new(self.families.len(), |i: int| self.families[i].name)
    }

    /// The index of the counter with this name.
    pub open spec fn position(self, name: Seq<char>) -> Option<int> {
        self.names().index_of_first(name)
    }

    /// The count of a counter under a label set; 0 where nothing was counted.
    pub open spec fn value(self, name: Seq<char>, labels: LabelSetView) -> u64 {
        match self.position(name) {
            Some(i) => self.families[i].value(labels),
            None => 0,
        }
    }

    /// The count of a counter over all its partitions; 0 where nothing was counted.
    pub open spec fn total(self, name: Seq<char>) -> nat {
        match self.position(name) {
            Some(i) => self.families[i].total(),
            None => 0,
        }
    }

    /// What a counter was declared with, if it was declared.
    pub open spec fn description(self, name: Seq<char>) -> Option<DescriptionView> {
        match self.position(name) {
            Some(i) => self.families[i].description,
            None => None,
        }
    }

    /// The registry after a declaration. The first declaration of a name
    /// stands: a later one changes nothing.
    pub open spec fn declare(self, name: Seq<char>, text: Seq<char>, unit: Unit) -> RegistryView {
        let described = Some(DescriptionView { text, unit });
        match self.position(name) {
            Some(i) => if self.families[i].description is Some {
                self
            } else {
                RegistryView {
                    families: self.families.update(
                        i,
                        FamilyView { description: described, ..self.families[i] },
                    ),
                }
            },
            None => RegistryView {
                families: self.families.push(
                    FamilyView { name, description: described, partitions: Seq::empty() },
                ),
            },
        }
    }

    /// The registry after one increment of the counter `name` under `labels`.
    /// A counter that was never declared is created without a description.
    pub open spec fn increment(self, name: Seq<char>, labels: LabelSetView) -> RegistryView {
        match self.position(name) {
            Some(i) => RegistryView {
                families: self.families.update(i, self.families[i].increment(labels)),
            },
            None => RegistryView {
                families: self.families.push(
                    FamilyView {
                        name,
                        description: None,
                        partitions: seq![PartitionView { labels, value: 1 }],
                    },
                ),
            },
        }
    }

    /// No name stands twice among the counters, and no label set twice within one.
    pub open spec fn wf(self) -> bool {
        &&& self.names().no_duplicates()
        &&& forall|i: int| 0 <= i < self.families.len() ==> (#[trigger] self.families[i]).wf()
    }
}

struct Partition {
    labels: Vec<Label>,
    value: u64,
}

struct CounterFamily {
    name: String,
    description: Option<Description>,
    partitions: Vec<Partition>,
}

/// A store of counters, keyed by counter name and label set.
pub struct MetricsRegistry {
    families: Vec<CounterFamily>,
}

impl View for Partition {
    type V = PartitionView;

    closed spec fn view(&self) -> PartitionView {
        PartitionView { labels: label_set(self.labels@), value: self.value }
    }
}

impl View for CounterFamily {
    type V = FamilyView;

    closed spec fn view(&self) -> FamilyView {
        FamilyView {
            name: self.name@,
            description: match self.description {
                Some(d) => Some(d@),
                None => None,
            },
            partitions: Seq::new(self.partitions.len() as nat, |j: int| self.partitions[j]@),
        }
    }
}

impl View for MetricsRegistry {
    type V = RegistryView;

    closed spec fn view(&self) -> RegistryView {
        RegistryView { families: Seq::new(self.families.len() as nat, |i: int| self.families[i]@) }
    }
}

/// Whether two lists of labels hold the same names and values in the same order.
pub fn labels_equal(a: &Vec<Label>, b: &Vec<Label>) -> (same: bool)
    ensures
        same == (label_set(a@) == label_set(b@)),
{
    if a.len() != b.len() {
        assert(label_set(a@).len() != label_set(b@).len());
        return false;
    }
    let mut i: usize = 0;
    while i < a.len()
        invariant
            i <= a.len(),
            a.len() == b.len(),
            forall|k: int| 0 <= k < i ==> label_set(a@)[k] == label_set(b@)[k],
        decreases a.len() - i,
    {
        if !str_eq(a[i].name.as_str(), b[i].name.as_str()) || !str_eq(
            a[i].value.as_str(),
            b[i].value.as_str(),
        ) {
            assert(label_set(a@)[i as int] != label_set(b@)[i as int]);
            return false;
        }
        i += 1;
    }
    assert(label_set(a@) =~= label_set(b@));
    true
}

impl CounterFamily {
    /// The index of the partition with these labels, or the number of
    /// partitions if there is none.
    fn find(&self, labels: &Vec<Label>) -> (j: usize)
        ensures
            j <= self.partitions.len(),
            self@.position(label_set(labels@)) == if j < self.partitions.len() {
                Some(j as int)
            } else {
                None
            },
    {
        let mut j: usize = 0;
        while j < self.partitions.len()
            invariant
                j <= self.partitions.len(),
                forall|k: int| 0 <= k < j ==> self@.label_sets()[k] != label_set(labels@),
            decreases self.partitions.len() - j,
        {
            if labels_equal(&self.partitions[j].labels, labels) {
                proof {
                    assert(self@.label_sets()[j as int] == label_set(labels@));
                    lemma_first_index_is(self@.label_sets(), label_set(labels@), Some(j as int));
                }
                return j;
            }
            j += 1;
        }
        proof {
            lemma_first_index_is(self@.label_sets(), label_set(labels@), None);
        }
        j
    }

    /// Counts once under these labels.
    fn increment(&mut self, labels: Vec<Label>)
        ensures
            final(self)@ == old(self)@.increment(label_set(labels@)),
    {
        let j = self.find(&labels);
        if j < self.partitions.len() {
            let v = self.partitions[j].value;
            if v < u64::MAX {
                self.partitions[j].value = v + 1;
            }
            proof {
                lemma_first_index_facts(old(self)@.label_sets(), label_set(labels@));
                assert(old(self)@.label_sets()[j as int] == label_set(labels@));
                assert(self@.partitions =~= old(self)@.increment(label_set(labels@)).partitions);
            }
        } else {
            self.partitions.push(Partition { labels, value: 1 });
            proof {
                assert(self@.partitions =~= old(self)@.increment(label_set(labels@)).partitions);
            }
        }
    }
}

impl MetricsRegistry {
    /// A registry without any counter.
    pub fn new() -> (registry: MetricsRegistry)
        ensures
            registry@ == RegistryView::empty(),
            registry@.wf(),
    {
        let registry = MetricsRegistry { families: Vec::new() };
        assert(registry@.families =~= RegistryView::empty().families);
        registry
    }

    /// The index of the counter with this name, or the number of counters if
    /// there is none.
    fn find(&self, name: &str) -> (i: usize)
        ensures
            i <= self.families.len(),
            self@.position(name@) == if i < self.families.len() {
                Some(i as int)
            } else {
                None
            },
    {
        let mut i: usize = 0;
        while i < self.families.len()
            invariant
                i <= self.families.len(),
                forall|k: int| 0 <= k < i ==> self@.names()[k] != name@,
            decreases self.families.len() - i,
        {
            if str_eq(self.families[i].name.as_str(), name) {
                proof {
                    assert(self@.names()[i as int] == name@);
                    lemma_first_index_is(self@.names(), name@, Some(i as int));
                }
                return i;
            }
            i += 1;
        }
        proof {
            lemma_first_index_is(self@.names(), name@, None);
        }
        i
    }

    /// Registers the counter `name` with its description and unit. The first
    /// declaration of a name stands; declaring it again changes nothing.
    pub fn declare(&mut self, name: &str, description: &str, unit: Unit)
        ensures
            final(self)@ == old(self)@.declare(name@, description@, unit),
            old(self)@.wf() ==> final(self)@.wf(),
    {
        proof {
            if old(self)@.wf() {
                lemma_declare_wf(old(self)@, name@, description@, unit);
            }
        }
        let i = self.find(name);
        let described = Some(Description { text: description.to_owned(), unit });
        if i < self.families.len() {
            if self.families[i].description.is_none() {
                self.families[i].description = described;
                proof {
                    assert(self@.families[i as int].partitions
                        =~= old(self)@.families[i as int].partitions);
                    assert(self@.families =~= old(self)@.declare(
                        name@,
                        description@,
                        unit,
                    ).families);
                }
            }
        } else {
            self.families.push(
                CounterFamily {
                    name: name.to_owned(),
                    description: described,
                    partitions: Vec::new(),
                },
            );
            proof {
                assert(self@.families[i as int].partitions =~= Seq::empty());
                assert(self@.families =~= old(self)@.declare(name@, description@, unit).families);
            }
        }
    }

    /// Counts once on the counter `name` under `labels`: the partition is
    /// created with count 1 on first use, and else its count goes up by one.
    /// A count that has reached the largest `u64` stays there.
    pub fn increment(&mut self, name: &str, labels: Vec<Label>)
        ensures
            final(self)@ == old(self)@.increment(name@, label_set(labels@)),
            old(self)@.wf() ==> final(self)@.wf(),
    {
        proof {
            if old(self)@.wf() {
                lemma_increment_wf(old(self)@, name@, label_set(labels@));
            }
        }
        let i = self.find(name);
        if i < self.families.len() {
            let ghost set = label_set(labels@);
            self.families[i].increment(labels);
            proof {
                assert(self@.families =~= old(self)@.increment(name@, set).families);
            }
        } else {
            let ghost set = label_set(labels@);
            let mut partitions = Vec::new();
            partitions.push(Partition { labels, value: 1 });
            self.families.push(
                CounterFamily { name: name.to_owned(), description: None, partitions },
            );
            proof {
                assert(self@.families[i as int].partitions =~= seq![
                    PartitionView { labels: set, value: 1 },
                ]);
                assert(self@.families =~= old(self)@.increment(name@, set).families);
            }
        }
    }

    /// The count of the counter `name` under `labels`; 0 where nothing was counted.
    pub fn value(&self, name: &str, labels: &Vec<Label>) -> (count: u64)
        ensures
            count == self@.value(name@, label_set(labels@)),
    {
        let i = self.find(name);
        if i < self.families.len() {
            let j = self.families[i].find(labels);
            if j < self.families[i].partitions.len() {
                self.families[i].partitions[j].value
            } else {
                0
            }
        } else {
            0
        }
    }

    /// What the counter `name` was declared with, if it was declared.
    pub fn description(&self, name: &str) -> (found: Option<Description>)
        ensures
            match found {
                Some(d) => self@.description(name@) == Some(d@),
                None => self@.description(name@) is None,
            },
    {
        let i = self.find(name);
        if i < self.families.len() {
            match &self.families[i].description {
                Some(d) => Some(Description { text: d.text.clone(), unit: d.unit }),
                None => None,
            }
        } else {
            None
        }
    }
}

} // verus!
