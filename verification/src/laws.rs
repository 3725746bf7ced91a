//! The engine's laws: what the deserialization outcome depends on, and
//! how the two engines compose. Each proof function here states one law
//! of the library and is part of its public contract.

use vstd::prelude::*;
use crate::value::{Val, EntryV};
use crate::de::{
    FieldDeclV, distinct_names, find_field, lemma_find_field, init_slots, run_from,
    first_unfilled, lemma_first_unfilled, de_outcome, args_match,
};
use crate::error::ErrorV;

verus! {

/// The value under the first occurrence of `key` in the stream, if any.
pub open spec fn lookup(entries: Seq<EntryV>, key: Seq<char>) -> Option<Val>
    decreases entries.len(),
{
    if entries.len() == 0 {
        None
    } else if entries[0].key == key {
        Some(entries[0].value)
    } else {
        lookup(entries.subrange(1, entries.len() as int), key)
    }
}

/// No declared key occurs twice in the stream. Undeclared keys may
/// repeat freely: the engine never reads them.
pub open spec fn declared_at_most_once(fields: Seq<FieldDeclV>, entries: Seq<EntryV>) -> bool {
    forall|i: int, j: int|
        0 <= i < j < entries.len() && (#[trigger] entries[i]).key == (#[trigger] entries[j]).key
            ==> find_field(fields, entries[i].key) == -1
}

/// The stream restricted to the entries whose keys some field declares,
/// in stream order.
pub open spec fn declared_entries(fields: Seq<FieldDeclV>, entries: Seq<EntryV>) -> Seq<EntryV>
    decreases entries.len(),
{
    if entries.len() == 0 {
        Seq::empty()
    } else {
        let rest = declared_entries(fields, entries.subrange(1, entries.len() as int));
        if find_field(fields, entries[0].key) == -1 {
            rest
        } else {
            seq![entries[0]] + rest
        }
    }
}

proof fn lemma_run_from_declared(
    fields: Seq<FieldDeclV>,
    slots: Seq<Option<Val>>,
    entries: Seq<EntryV>,
)
    ensures
        run_from(fields, slots, entries) == run_from(
            fields,
            slots,
            declared_entries(fields, entries),
        ),
    decreases entries.len(),
{
    if entries.len() > 0 {
        let e = entries[0];
        let rest = entries.subrange(1, entries.len() as int);
        let i = find_field(fields, e.key);
        if i == -1 {
            lemma_run_from_declared(fields, slots, rest);
        } else {
            let kept = seq![e] + declared_entries(fields, rest);
            assert(kept[0] == e);
            assert(kept.subrange(1, kept.len() as int) =~= declared_entries(fields, rest));
            if slots[i] is Some {
            } else if e.value.kind() != fields[i].kind {
            } else {
                lemma_run_from_declared(fields, slots.update(i, Some(e.value)), rest);
            }
        }
    }
}

/// Unknown field tolerance: entries whose keys no field declares never
/// reach the engine's outcome. A stream gives the same result as the
/// same stream with every undeclared entry removed.
pub proof fn lemma_unknown_field_tolerance(fields: Seq<FieldDeclV>, entries: Seq<EntryV>)
    ensures
        de_outcome(fields, entries) == de_outcome(fields, declared_entries(fields, entries)),
{
    lemma_run_from_declared(fields, init_slots(fields.len()), entries);
}

proof fn lemma_run_from_lookup(
    fields: Seq<FieldDeclV>,
    slots: Seq<Option<Val>>,
    entries: Seq<EntryV>,
)
    requires
        distinct_names(fields),
        slots.len() == fields.len(),
        declared_at_most_once(fields, entries),
        forall|i: int|
            0 <= i < fields.len() && lookup(entries, (#[trigger] fields[i]).name) is Some ==> {
                &&& slots[i] is None
                &&& lookup(entries, fields[i].name)->Some_0.kind() == fields[i].kind
            },
    ensures
        run_from(fields, slots, entries) == Ok::<Seq<Option<Val>>, ErrorV>(
            Seq::new(
                fields.len(),
                |i: int|
                    if lookup(entries, fields[i].name) is Some {
                        Some(lookup(entries, fields[i].name)->Some_0)
                    } else {
                        slots[i]
                    },
            ),
        ),
    decreases entries.len(),
{
    let target = Seq::new(
        fields.len(),
        |i: int|
            if lookup(entries, fields[i].name) is Some {
                Some(lookup(entries, fields[i].name)->Some_0)
            } else {
                slots[i]
            },
    );
    if entries.len() == 0 {
        assert(run_from(fields, slots, entries) == Ok::<Seq<Option<Val>>, ErrorV>(slots));
        assert(target =~= slots);
    } else {
        let e = entries[0];
        let rest = entries.subrange(1, entries.len() as int);
        let i0 = find_field(fields, e.key);
        lemma_find_field(fields, e.key);
        if i0 == -1 {
            assert forall|f: int| 0 <= f < fields.len() implies lookup(entries, fields[f].name)
                == lookup(rest, fields[f].name) by {
                assert(fields[f].name != e.key);
            }
            lemma_run_from_lookup(fields, slots, rest);
            assert(target =~= Seq::new(
                fields.len(),
                |i: int|
                    if lookup(rest, fields[i].name) is Some {
                        Some(lookup(rest, fields[i].name)->Some_0)
                    } else {
                        slots[i]
                    },
            ));
        } else {
            assert(fields[i0].name == e.key);
            assert(lookup(entries, fields[i0].name) == Some(e.value));
            assert(slots[i0] is None);
            assert(e.value.kind() == fields[i0].kind);
            let slots2 = slots.update(i0, Some(e.value));
            assert forall|f: int|
                0 <= f < fields.len() && f != i0 implies lookup(entries, fields[f].name) == lookup(
                rest,
                fields[f].name,
            ) by {
                assert(fields[f].name != fields[i0].name);
            }
            assert(lookup(rest, fields[i0].name) is None) by {
                lemma_lookup_absent(fields, entries, rest, i0);
            }
            lemma_run_from_lookup(fields, slots2, rest);
            assert(target =~= Seq::new(
                fields.len(),
                |i: int|
                    if lookup(rest, fields[i].name) is Some {
                        Some(lookup(rest, fields[i].name)->Some_0)
                    } else {
                        slots2[i]
                    },
            ));
        }
    }
}

/// A declared key that the first entry carries occurs nowhere later when
/// no declared key occurs twice.
proof fn lemma_lookup_absent(
    fields: Seq<FieldDeclV>,
    entries: Seq<EntryV>,
    rest: Seq<EntryV>,
    i0: int,
)
    requires
        entries.len() > 0,
        rest =~= entries.subrange(1, entries.len() as int),
        declared_at_most_once(fields, entries),
        0 <= i0 < fields.len(),
        fields[i0].name == entries[0].key,
        find_field(fields, entries[0].key) == i0,
    ensures
        lookup(rest, fields[i0].name) is None,
    decreases rest.len(),
{
    if rest.len() > 0 {
        assert(rest[0] == entries[1]);
        if rest[0].key == fields[i0].name {
            assert(entries[0].key == entries[1].key);
            assert(find_field(fields, entries[0].key) == -1);
            assert(false);
        }
        let entries2 = seq![entries[0]] + rest.subrange(1, rest.len() as int);
        assert forall|i: int, j: int|
            0 <= i < j < entries2.len() && (#[trigger] entries2[i]).key == (
            #[trigger] entries2[j]).key implies find_field(fields, entries2[i].key) == -1 by {
            if i == 0 {
                assert(entries2[j] == entries[j + 1]);
                assert(entries[0].key == entries[j + 1].key);
            } else {
                assert(entries2[i] == entries[i + 1]);
                assert(entries2[j] == entries[j + 1]);
            }
        }
        assert(entries2.subrange(1, entries2.len() as int) =~= rest.subrange(
            1,
            rest.len() as int,
        ));
        lemma_lookup_absent(fields, entries2, rest.subrange(1, rest.len() as int), i0);
    }
}

/// When no declared key repeats, every declared field is present with a
/// value of its declared kind, and no two fields declare one name, the
/// outcome is exactly the per-field lookup: the stream's order plays no
/// part in it.
pub proof fn lemma_de_by_lookup(fields: Seq<FieldDeclV>, entries: Seq<EntryV>)
    requires
        distinct_names(fields),
        declared_at_most_once(fields, entries),
        forall|i: int|
            0 <= i < fields.len() ==> {
                &&& lookup(entries, (#[trigger] fields[i]).name) is Some
                &&& lookup(entries, fields[i].name)->Some_0.kind() == fields[i].kind
            },
    ensures
        de_outcome(fields, entries) == Ok::<Seq<Val>, ErrorV>(
            Seq::new(fields.len(), |i: int| lookup(entries, fields[i].name)->Some_0),
        ),
{
    lemma_run_from_lookup(fields, init_slots(fields.len()), entries);
    let slots = Seq::new(
        fields.len(),
        |i: int|
            if lookup(entries, fields[i].name) is Some {
                Some(lookup(entries, fields[i].name)->Some_0)
            } else {
                init_slots(fields.len())[i]
            },
    );
    lemma_first_unfilled(slots);
    if first_unfilled(slots) != -1 {
        assert(slots[first_unfilled(slots)] is None);
        assert(false);
    }
    assert(Seq::new(slots.len(), |i: int| slots[i]->Some_0) =~= Seq::new(
        fields.len(),
        |i: int| lookup(entries, fields[i].name)->Some_0,
    ));
}

/// Order independence of reading: two streams that assign the same value
/// to every declared name — each name once, with its declared kind —
/// deserialize to the same outcome, whatever order their entries stand
/// in and whatever undeclared entries surround them.
pub proof fn lemma_order_independence(
    fields: Seq<FieldDeclV>,
    entries1: Seq<EntryV>,
    entries2: Seq<EntryV>,
)
    requires
        distinct_names(fields),
        declared_at_most_once(fields, entries1),
        declared_at_most_once(fields, entries2),
        forall|i: int|
            0 <= i < fields.len() ==> {
                &&& lookup(entries1, (#[trigger] fields[i]).name) is Some
                &&& lookup(entries1, fields[i].name)->Some_0.kind() == fields[i].kind
            },
        forall|i: int|
            0 <= i < fields.len() ==> lookup(entries1, (#[trigger] fields[i]).name) == lookup(
                entries2,
                fields[i].name,
            ),
    ensures
        de_outcome(fields, entries1) == de_outcome(fields, entries2),
{
    lemma_de_by_lookup(fields, entries1);
    lemma_de_by_lookup(fields, entries2);
    assert(Seq::new(fields.len(), |i: int| lookup(entries1, fields[i].name)->Some_0) =~= Seq::new(
        fields.len(),
        |i: int| lookup(entries2, fields[i].name)->Some_0,
    ));
}

/// The stream that the serialization engine emits for declared fields
/// and field values: one entry per field, in declaration order.
pub open spec fn emitted_stream(fields: Seq<FieldDeclV>, vals: Seq<Val>) -> Seq<EntryV> {
    Seq::new(fields.len(), |i: int| EntryV { key: fields[i].name, value: vals[i] })
}

proof fn lemma_lookup_emitted(fields: Seq<FieldDeclV>, stream: Seq<EntryV>, f: int)
    requires
        distinct_names(fields),
        stream.len() == fields.len(),
        forall|i: int| 0 <= i < stream.len() ==> (#[trigger] stream[i]).key == fields[i].name,
        0 <= f < fields.len(),
    ensures
        lookup(stream, fields[f].name) == Some(stream[f].value),
    decreases f,
{
    if f == 0 {
        assert(stream[0].key == fields[0].name);
    } else {
        assert(stream[0].key == fields[0].name);
        assert(fields[0].name != fields[f].name);
        let fields2 = fields.subrange(1, fields.len() as int);
        let stream2 = stream.subrange(1, stream.len() as int);
        assert(forall|i: int, j: int|
            0 <= i < j < fields2.len() ==> (#[trigger] fields2[i]).name != (
            #[trigger] fields2[j]).name);
        assert(forall|i: int|
            0 <= i < stream2.len() ==> (#[trigger] stream2[i]).key == fields2[i].name);
        lemma_lookup_emitted(fields2, stream2, f - 1);
        assert(stream2[f - 1] == stream[f]);
    }
}

/// Round trip: a stream shaped exactly as the serialization engine emits
/// it — one entry per declared field, keys the declared names in
/// declaration order, each value of its field's kind — deserializes to
/// exactly those values. With an assembly function that inverts the
/// accessors and a validator that accepts, the whole round trip
/// therefore reproduces the original value.
pub proof fn lemma_round_trip(fields: Seq<FieldDeclV>, stream: Seq<EntryV>)
    requires
        distinct_names(fields),
        stream.len() == fields.len(),
        forall|i: int|
            0 <= i < stream.len() ==> {
                &&& (#[trigger] stream[i]).key == fields[i].name
                &&& stream[i].value.kind() == fields[i].kind
            },
    ensures
        de_outcome(fields, stream) == Ok::<Seq<Val>, ErrorV>(
            Seq::new(stream.len(), |i: int| stream[i].value),
        ),
{
    assert forall|i: int, j: int|
        0 <= i < j < stream.len() && (#[trigger] stream[i]).key == (
        #[trigger] stream[j]).key implies find_field(fields, stream[i].key) == -1 by {
        assert(fields[i].name == fields[j].name);
        assert(false);
    }
    assert forall|i: int| 0 <= i < fields.len() implies {
        &&& lookup(stream, (#[trigger] fields[i]).name) is Some
        &&& lookup(stream, fields[i].name)->Some_0.kind() == fields[i].kind
    } by {
        lemma_lookup_emitted(fields, stream, i);
    }
    lemma_de_by_lookup(fields, stream);
    assert(Seq::new(fields.len(), |i: int| lookup(stream, fields[i].name)->Some_0) =~= Seq::new(
        stream.len(),
        |i: int| stream[i].value,
    )) by {
        assert forall|i: int| 0 <= i < fields.len() implies lookup(stream, fields[i].name)
            == Some(stream[i].value) by {
            lemma_lookup_emitted(fields, stream, i);
        }
    }
}

/// The round trip on the emitted stream itself: deserializing what the
/// serialization engine emits for field values of the declared kinds
/// recovers exactly those values.
pub proof fn lemma_round_trip_emitted(fields: Seq<FieldDeclV>, vals: Seq<Val>)
    requires
        distinct_names(fields),
        args_match(fields, vals),
    ensures
        de_outcome(fields, emitted_stream(fields, vals)) == Ok::<Seq<Val>, ErrorV>(vals),
{
    lemma_round_trip(fields, emitted_stream(fields, vals));
    assert(Seq::new(emitted_stream(fields, vals).len(), |i: int| emitted_stream(fields, vals)[i].value)
        =~= vals);
}

} // verus!
