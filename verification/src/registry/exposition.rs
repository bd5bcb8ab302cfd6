//! The text exposition of a registry.
//!
//! Each counter is written as a `# HELP` line if it was declared, a `# TYPE`
//! line, and one line for each of its partitions: the counter's name, the
//! labels in braces, a blank and the count.

use vstd::prelude::*;
use vstd::string::*;
use crate::registry::{
    label_set, CounterFamily, FamilyView, Label, LabelSetView, MetricsRegistry, Partition,
    PartitionView, RegistryView,
};
use crate::text::{decimal, escaped, push_decimal, push_escaped};

verus! {

/// One label: its name, `=`, and its value, escaped, in double quotes.
pub open spec fn label_text(label: (Seq<char>, Seq<char>)) -> Seq<char> {
    label.0 + seq!['=', '"'] + escaped(label.1, true) + seq!['"']
}

/// The labels of a set, separated by commas.
pub open spec fn labels_text(labels: LabelSetView) -> Seq<char>
    decreases labels.len(),
{
    if labels.len() == 0 {
        Seq::empty()
    } else if labels.len() == 1 {
        label_text(labels[0])
    } else {
        labels_text(labels.drop_last()) + seq![','] + label_text(labels.last())
    }
}

/// The line of one partition. An empty label set is written without braces.
pub open spec fn sample_text(name: Seq<char>, partition: PartitionView) -> Seq<char> {
    name + (if partition.labels.len() == 0 {
        Seq::empty()
    } else {
        seq!['{'] + labels_text(partition.labels) + seq!['}']
    }) + seq![' '] + decimal(partition.value as nat) + seq!['\n']
}

/// The lines of the partitions of a counter, in order.
pub open spec fn samples_text(name: Seq<char>, partitions: Seq<PartitionView>) -> Seq<char>
    decreases partitions.len(),
{
    if partitions.len() == 0 {
        Seq::empty()
    } else {
        samples_text(name, partitions.drop_last()) + sample_text(name, partitions.last())
    }
}

/// The `# HELP` line of a counter; nothing for a counter that was not declared.
pub open spec fn help_text(family: FamilyView) -> Seq<char> {
    match family.description {
        Some(d) => "# HELP "@ + family.name + seq![' '] + escaped(d.text, false) + seq!['\n'],
        None => Seq::empty(),
    }
}

/// The `# TYPE` line of a counter.
pub open spec fn type_text(family: FamilyView) -> Seq<char> {
    "# TYPE "@ + family.name + " counter\n"@
}

/// All the lines of one counter.
pub open spec fn family_text(family: FamilyView) -> Seq<char> {
    help_text(family) + type_text(family) + samples_text(family.name, family.partitions)
}

/// The lines of the counters, in order.
pub open spec fn families_text(families: Seq<FamilyView>) -> Seq<char>
    decreases families.len(),
{
    if families.len() == 0 {
        Seq::empty()
    } else {
        families_text(families.drop_last()) + family_text(families.last())
    }
}

/// The exposition of a registry.
pub open spec fn exposition(r: RegistryView) -> Seq<char> {
    families_text(r.families)
}

/// Appends a label set to `out`.
fn push_labels(out: &mut String, labels: &Vec<Label>)
    ensures
        final(out)@ == old(out)@ + labels_text(label_set(labels@)),
{
    let ghost start = out@;
    let ghost set = label_set(labels@);
    let mut i: usize = 0;
    while i < labels.len()
        invariant
            i <= labels.len(),
            set == label_set(labels@),
            out@ == start + labels_text(set.take(i as int)),
        decreases labels.len() - i,
    {
        let ghost before = out@;
        if i > 0 {
            out.push(',');
        }
        out.append(labels[i].name.as_str());
        out.push('=');
        out.push('"');
        push_escaped(out, labels[i].value.as_str(), true);
        out.push('"');
        proof {
            let next = set.take(i + 1);
            assert(next.drop_last() == set.take(i as int));
            assert(next.last() == set[i as int]);
            assert(next[0] == set[0]);
            assert(out@ =~= start + labels_text(next));
        }
        i += 1;
    }
    proof {
        assert(set.take(labels.len() as int) == set);
    }
}

/// Appends the line of a partition of the counter `name` to `out`.
fn push_sample(out: &mut String, name: &str, partition: &Partition)
    ensures
        final(out)@ == old(out)@ + sample_text(name@, partition@),
{
    out.append(name);
    if partition.labels.len() > 0 {
        out.push('{');
        push_labels(out, &partition.labels);
        out.push('}');
    }
    out.push(' ');
    push_decimal(out, partition.value);
    out.push('\n');
    proof {
        assert(out@ =~= old(out)@ + sample_text(name@, partition@));
    }
}

/// Appends all the lines of a counter to `out`.
fn push_family(out: &mut String, family: &CounterFamily)
    ensures
        final(out)@ == old(out)@ + family_text(family@),
{
    let ghost start = out@;
    match &family.description {
        Some(d) => {
            out.append("# HELP ");
            out.append(family.name.as_str());
            out.push(' ');
            push_escaped(out, d.text.as_str(), false);
            out.push('\n');
        },
        None => {},
    }
    out.append("# TYPE ");
    out.append(family.name.as_str());
    out.append(" counter\n");
    let ghost head = out@;
    proof {
        assert(head =~= start + (help_text(family@) + type_text(family@)));
    }
    let mut j: usize = 0;
    while j < family.partitions.len()
        invariant
            j <= family.partitions.len(),
            out@ == head + samples_text(family@.name, family@.partitions.take(j as int)),
        decreases family.partitions.len() - j,
    {
        push_sample(out, family.name.as_str(), &family.partitions[j]);
        proof {
            let next = family@.partitions.take(j + 1);
            assert(next.drop_last() == family@.partitions.take(j as int));
            assert(next.last() == family.partitions[j as int]@);
            assert(out@ =~= head + samples_text(family@.name, next));
        }
        j += 1;
    }
    proof {
        assert(family@.partitions.take(family.partitions.len() as int) == family@.partitions);
        assert(out@ =~= start + family_text(family@));
    }
}

impl MetricsRegistry {
    /// The text exposition of all counters and partitions as they stand.
    pub fn snapshot(&self) -> (text: String)
        ensures
            text@ == exposition(self@),
    {
        let mut out = String::new();
        let mut i: usize = 0;
        while i < self.families.len()
            invariant
                i <= self.families.len(),
                out@ == families_text(self@.families.take(i as int)),
            decreases self.families.len() - i,
        {
            push_family(&mut out, &self.families[i]);
            proof {
                let next = self@.families.take(i + 1);
                assert(next.drop_last() == self@.families.take(i as int));
                assert(next.last() == self.families[i as int]@);
            }
            i += 1;
        }
        proof {
            assert(self@.families.take(self.families.len() as int) == self@.families);
        }
        out
    }
}

} // verus!
