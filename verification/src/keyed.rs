//! Lists of named values, in which a name is looked up from the front.

use vstd::prelude::*;

verus! {

/// The index of the first entry called `name`, or the number of entries
/// where none is.
pub open spec fn position_of<V>(entries: Seq<(Seq<char>, V)>, name: Seq<char>) -> int
    decreases entries.len(),
{
    if entries.len() == 0 {
        0
    } else if entries[0].0 == name {
        0
    } else {
        1 + position_of(entries.drop_first(), name)
    }
}

/// The position of a name lies within the list, where it points at the first
/// entry of that name, or at its end, where no entry has the name.
pub proof fn lemma_position_range<V>(entries: Seq<(Seq<char>, V)>, name: Seq<char>)
    ensures
        0 <= position_of(entries, name) <= entries.len(),
        position_of(entries, name) < entries.len() ==> entries[position_of(entries, name)].0
            == name,
        forall|i: int| 0 <= i < position_of(entries, name) ==> (#[trigger] entries[i]).0 != name,
    decreases entries.len(),
{
    if entries.len() > 0 && entries[0].0 != name {
        lemma_position_range(entries.drop_first(), name);
        assert forall|i: int| 0 <= i < position_of(entries, name) implies (#[trigger] entries[i]).0
            != name by {
            if i > 0 {
                assert(entries[i] == entries.drop_first()[i - 1]);
            }
        }
    }
}

/// The value of the first entry called `name`, if there is one.
pub open spec fn value_of<V>(entries: Seq<(Seq<char>, V)>, name: Seq<char>) -> Option<V> {
    let i = position_of(entries, name);
    if i < entries.len() {
        Some(entries[i].1)
    } else {
        None
    }
}

/// The entries once `name` is given `value`: the first entry of that name
/// takes the value, or a new entry joins at the end.
pub open spec fn with_entry<V>(entries: Seq<(Seq<char>, V)>, name: Seq<char>, value: V) -> Seq<
    (Seq<char>, V),
> {
    let i = position_of(entries, name);
    if i < entries.len() {
        entries.update(i, (name, value))
    } else {
        entries.push((name, value))
    }
}

/// Looking a name up passes over a first entry of another name.
pub proof fn lemma_value_of_step<V>(entries: Seq<(Seq<char>, V)>, name: Seq<char>)
    requires
        entries.len() > 0,
        entries[0].0 != name,
    ensures
        value_of(entries, name) == value_of(entries.drop_first(), name),
{
    lemma_position_range(entries.drop_first(), name);
}

/// After `name` is given `value`, looking `name` up finds `value`, and every
/// other name is found as before.
pub proof fn lemma_with_entry_lookup<V>(
    entries: Seq<(Seq<char>, V)>,
    name: Seq<char>,
    value: V,
    other: Seq<char>,
)
    ensures
        value_of(with_entry(entries, name, value), name) == Some(value),
        other != name ==> value_of(with_entry(entries, name, value), other) == value_of(
            entries,
            other,
        ),
    decreases entries.len(),
{
    let after = with_entry(entries, name, value);
    lemma_position_range(entries, name);
    if entries.len() == 0 {
        assert(after.drop_first() =~= Seq::empty());
        assert(position_of(after.drop_first(), other) == 0);
    } else if entries[0].0 == name {
        assert(after.drop_first() =~= entries.drop_first());
        if other != name {
            lemma_value_of_step(after, other);
            lemma_value_of_step(entries, other);
        }
    } else {
        lemma_with_entry_lookup(entries.drop_first(), name, value, other);
        let tail_after = with_entry(entries.drop_first(), name, value);
        lemma_position_range(entries.drop_first(), name);
        assert(after.drop_first() =~= tail_after);
        assert(after[0] == entries[0]);
        lemma_value_of_step(after, name);
        if other != name && entries[0].0 != other {
            lemma_value_of_step(after, other);
            lemma_value_of_step(entries, other);
        }
    }
}

/// Whether no two entries have the same name, so that the list is a
/// mapping from names to values.
pub open spec fn distinct_names<V>(entries: Seq<(Seq<char>, V)>) -> bool {
    forall|i: int, j: int|
        0 <= i < j < entries.len() ==> (#[trigger] entries[i]).0 != (#[trigger] entries[j]).0
}

/// A list that is a mapping stays one when a name is given a value.
pub proof fn lemma_with_entry_keeps_distinct<V>(
    entries: Seq<(Seq<char>, V)>,
    name: Seq<char>,
    value: V,
)
    requires
        distinct_names(entries),
    ensures
        distinct_names(with_entry(entries, name, value)),
{
    lemma_position_range(entries, name);
    let k = position_of(entries, name);
    let after = with_entry(entries, name, value);
    assert forall|i: int, j: int| 0 <= i < j < after.len() implies (#[trigger] after[i]).0 != (
    #[trigger] after[j]).0 by {
        if k < entries.len() {
            assert(after[i].0 == entries[i].0);
            assert(after[j].0 == entries[j].0);
        } else if j < entries.len() {
            assert(after[i] == entries[i]);
            assert(after[j] == entries[j]);
        } else {
            assert(after[i] == entries[i]);
        }
    }
}

} // verus!
