//! The deserialization side: field declarations, the builder that
//! accumulates them, and the engine that reads a key-value stream into a
//! target value.
//!
//! The engine's behaviour is pinned down by the spec functions here:
//! [`run_from`] folds a stream into per-field slots, and [`de_outcome`]
//! adds the missing-field check. `StructDeserializer::deserialize` is
//! proved to follow them exactly.

use vstd::prelude::*;
use vstd::pervasive::VecAdditionalExecFns;
use core::marker::PhantomData;
use crate::value::{Value, Val, ValueKind, Entry, EntryV, entries_dv, vals_dv};
use crate::error::{Error, ErrorV};

verus! {

/// A declared field of the deserialization side: its external name, and
/// the kind a value must have to fill its slot.
#[derive(Debug)]
pub struct FieldDecl {
    pub name: String,
    pub kind: ValueKind,
}

/// Model of a field declaration.
pub struct FieldDeclV {
    pub name: Seq<char>,
    pub kind: ValueKind,
}

impl FieldDecl {
    /// Model of this declaration.
    pub open spec fn dv(self) -> FieldDeclV {
        FieldDeclV { name: self.name@, kind: self.kind }
    }
}

/// Model of an ordered list of field declarations.
pub open spec fn fields_dv(fields: Seq<FieldDecl>) -> Seq<FieldDeclV> {
    Seq::new(fields.len(), |i: int| fields[i].dv())
}

/// No two declared names are equal.
pub open spec fn distinct_names(fields: Seq<FieldDeclV>) -> bool {
    forall|i: int, j: int| 0 <= i < j < fields.len() ==> fields[i].name != fields[j].name
}

/// The position of the first field declaring `name`, or -1 when no field
/// declares it.
pub open spec fn find_field(fields: Seq<FieldDeclV>, name: Seq<char>) -> int
    decreases fields.len(),
{
    if fields.len() == 0 {
        -1
    } else if fields[0].name == name {
        0
    } else {
        let rest = find_field(fields.subrange(1, fields.len() as int), name);
        if rest == -1 {
            -1
        } else {
            rest + 1
        }
    }
}

/// `find_field` finds exactly the first position declaring `name`.
pub proof fn lemma_find_field(fields: Seq<FieldDeclV>, name: Seq<char>)
    ensures
        find_field(fields, name) == -1 ==> (forall|i: int|
            0 <= i < fields.len() ==> fields[i].name != name),
        find_field(fields, name) != -1 ==> {
            let r = find_field(fields, name);
            &&& 0 <= r < fields.len()
            &&& fields[r].name == name
            &&& forall|i: int| 0 <= i < r ==> fields[i].name != name
        },
    decreases fields.len(),
{
    if fields.len() > 0 && fields[0].name != name {
        let sub = fields.subrange(1, fields.len() as int);
        lemma_find_field(sub, name);
        assert(forall|i: int| 0 <= i < sub.len() ==> sub[i] == fields[i + 1]);
        let r = find_field(fields, name);
        let rs = find_field(sub, name);
        if rs == -1 {
            assert forall|i: int| 0 <= i < fields.len() implies fields[i].name != name by {
                if i > 0 {
                    assert(sub[i - 1] == fields[i]);
                }
            }
        } else {
            assert(fields[r] == sub[rs]);
            assert forall|i: int| 0 <= i < r implies fields[i].name != name by {
                if i > 0 {
                    assert(sub[i - 1] == fields[i]);
                }
            }
        }
    }
}

/// The slot state the engine starts from: one unfilled slot per declared
/// field.
pub open spec fn init_slots(n: nat) -> Seq<Option<Val>> {
    Seq::new(n, |i: int| None)
}

/// One engine step per stream entry, from the front: an entry whose key
/// no field declares is skipped; one that hits an already filled slot is
/// a duplicate; one whose value has the wrong kind is mistyped; any other
/// fills its field's slot.
pub open spec fn run_from(
    fields: Seq<FieldDeclV>,
    slots: Seq<Option<Val>>,
    entries: Seq<EntryV>,
) -> Result<Seq<Option<Val>>, ErrorV>
    decreases entries.len(),
{
    if entries.len() == 0 {
        Ok(slots)
    } else {
        let e = entries[0];
        let rest = entries.subrange(1, entries.len() as int);
        let i = find_field(fields, e.key);
        if i == -1 {
            run_from(fields, slots, rest)
        } else if slots[i] is Some {
            Err(ErrorV::DuplicateField(e.key))
        } else if e.value.kind() != fields[i].kind {
            Err(ErrorV::Mistyped { field: e.key, expected: fields[i].kind, found: e.value.kind() })
        } else {
            run_from(fields, slots.update(i, Some(e.value)), rest)
        }
    }
}

/// The position of the first unfilled slot, or -1 when every slot is
/// filled.
pub open spec fn first_unfilled(slots: Seq<Option<Val>>) -> int
    decreases slots.len(),
{
    if slots.len() == 0 {
        -1
    } else if slots[0] is None {
        0
    } else {
        let rest = first_unfilled(slots.subrange(1, slots.len() as int));
        if rest == -1 {
            -1
        } else {
            rest + 1
        }
    }
}

/// `first_unfilled` finds exactly the first unfilled slot.
pub proof fn lemma_first_unfilled(slots: Seq<Option<Val>>)
    ensures
        first_unfilled(slots) == -1 ==> (forall|i: int| 0 <= i < slots.len() ==> slots[i] is Some),
        first_unfilled(slots) != -1 ==> {
            let r = first_unfilled(slots);
            &&& 0 <= r < slots.len()
            &&& slots[r] is None
            &&& forall|i: int| 0 <= i < r ==> slots[i] is Some
        },
    decreases slots.len(),
{
    if slots.len() > 0 && slots[0] is Some {
        let sub = slots.subrange(1, slots.len() as int);
        lemma_first_unfilled(sub);
        assert(forall|i: int| 0 <= i < sub.len() ==> sub[i] == slots[i + 1]);
        let r = first_unfilled(slots);
        let rs = first_unfilled(sub);
        if rs == -1 {
            assert forall|i: int| 0 <= i < slots.len() implies slots[i] is Some by {
                if i > 0 {
                    assert(sub[i - 1] == slots[i]);
                }
            }
        } else {
            assert(slots[r] == sub[rs]);
            assert forall|i: int| 0 <= i < r implies slots[i] is Some by {
                if i > 0 {
                    assert(sub[i - 1] == slots[i]);
                }
            }
        }
    }
}

/// What the stream as a whole makes of the declared fields, before
/// assembly: either every field's value, in declaration order, or the
/// first structural error.
pub open spec fn de_outcome(fields: Seq<FieldDeclV>, entries: Seq<EntryV>) -> Result<
    Seq<Val>,
    ErrorV,
> {
    match run_from(fields, init_slots(fields.len()), entries) {
        Err(e) => Err(e),
        Ok(slots) => {
            let m = first_unfilled(slots);
            if m == -1 {
                Ok(Seq::new(slots.len(), |i: int| slots[i]->Some_0))
            } else {
                Err(ErrorV::MissingField(fields[m].name))
            }
        },
    }
}

/// One slot per declared field, and every filled slot holds a value of
/// its field's declared kind.
pub open spec fn slots_kinds_ok(fields: Seq<FieldDeclV>, slots: Seq<Option<Val>>) -> bool {
    &&& slots.len() == fields.len()
    &&& forall|i: int|
        0 <= i < slots.len() && slots[i] is Some ==> (#[trigger] slots[i])->Some_0.kind()
            == fields[i].kind
}

/// The field values are one per declared field, each of its field's
/// declared kind: the shape the assembly function is handed.
pub open spec fn args_match(fields: Seq<FieldDeclV>, vals: Seq<Val>) -> bool {
    &&& vals.len() == fields.len()
    &&& forall|i: int| 0 <= i < vals.len() ==> (#[trigger] vals[i]).kind() == fields[i].kind
}

/// Stepping the engine never fills a slot with a value of the wrong
/// kind.
pub proof fn lemma_run_from_kinds(
    fields: Seq<FieldDeclV>,
    slots: Seq<Option<Val>>,
    entries: Seq<EntryV>,
)
    requires
        slots_kinds_ok(fields, slots),
        run_from(fields, slots, entries) is Ok,
    ensures
        slots_kinds_ok(fields, run_from(fields, slots, entries)->Ok_0),
    decreases entries.len(),
{
    if entries.len() > 0 {
        let e = entries[0];
        let rest = entries.subrange(1, entries.len() as int);
        let i = find_field(fields, e.key);
        if i == -1 {
            lemma_run_from_kinds(fields, slots, rest);
        } else {
            lemma_find_field(fields, e.key);
            lemma_run_from_kinds(fields, slots.update(i, Some(e.value)), rest);
        }
    }
}

/// Model of the engine's slot vector.
pub open spec fn slots_dv(slots: Seq<Option<Value>>) -> Seq<Option<Val>> {
    Seq::new(
        slots.len(),
        |i: int|
            match slots[i] {
                Some(v) => Some(v.dv()),
                None => None,
            },
    )
}

/// Position of the first declared field named `key`, scanning in
/// declaration order.
fn find_field_index(fields: &Vec<FieldDecl>, key: &String) -> (r: Option<usize>)
    ensures
        match r {
            Some(i) => i < fields@.len() && find_field(fields_dv(fields@), key@) == i as int,
            None => find_field(fields_dv(fields@), key@) == -1,
        },
{
    let ghost fdv = fields_dv(fields@);
    let mut i: usize = 0;
    while i < fields.len()
        invariant
            i <= fields@.len(),
            fdv == fields_dv(fields@),
            forall|j: int| 0 <= j < i ==> fdv[j].name != key@,
        decreases fields@.len() - i,
    {
        if fields[i].name == *key {
            proof {
                assert(fdv[i as int].name == key@);
                lemma_find_field(fdv, key@);
                let r = find_field(fdv, key@);
                assert(r != -1);
                if r < i as int {
                    assert(fdv[r].name != key@);
                    assert(false);
                }
                if r > i as int {
                    assert(fdv[i as int].name != key@);
                    assert(false);
                }
            }
            return Some(i);
        }
        i += 1;
    }
    proof {
        lemma_find_field(fdv, key@);
    }
    None
}

/// The slot-filling half of the deserialization engine: fold the stream
/// into the declared slots, then demand that every slot was filled. On
/// success the values come back in declaration order.
fn fill_slots(fields: &Vec<FieldDecl>, entries: Vec<Entry>) -> (r: Result<Vec<Value>, Error>)
    ensures
        ({
            let outcome = de_outcome(fields_dv(fields@), entries_dv(entries@));
            match r {
                Ok(args) => outcome == Ok::<Seq<Val>, ErrorV>(vals_dv(args@)) && args_match(
                    fields_dv(fields@),
                    vals_dv(args@),
                ),
                Err(e) => outcome == Err::<Seq<Val>, ErrorV>(e.dv()),
            }
        }),
{
    let ghost fdv = fields_dv(fields@);
    let ghost entries0 = entries_dv(entries@);
    let n = fields.len();

    let mut slots: Vec<Option<Value>> = Vec::new();
    let mut k: usize = 0;
    while k < n
        invariant
            slots@.len() == k,
            k <= n,
            forall|i: int| 0 <= i < k ==> slots@[i] is None,
        decreases n - k,
    {
        slots.push(None);
        k += 1;
    }
    proof {
        assert(slots_dv(slots@) =~= init_slots(fdv.len()));
    }

    let mut rem = entries;
    while rem.len() > 0
        invariant
            fdv == fields_dv(fields@),
            entries0 == entries_dv(entries@),
            n == fields@.len(),
            slots@.len() == n,
            run_from(fdv, init_slots(fdv.len()), entries0) == run_from(
                fdv,
                slots_dv(slots@),
                entries_dv(rem@),
            ),
        decreases rem@.len(),
    {
        let ghost pre_rem = rem@;
        let ghost pre_slots = slots_dv(slots@);
        let e = rem.remove(0);
        proof {
            assert(entries_dv(pre_rem)[0] == e.dv());
            assert(entries_dv(pre_rem).subrange(1, pre_rem.len() as int) =~= entries_dv(rem@));
        }
        match find_field_index(fields, &e.key) {
            None => {
                proof {
                    assert(run_from(fdv, pre_slots, entries_dv(pre_rem)) == run_from(
                        fdv,
                        pre_slots,
                        entries_dv(rem@),
                    ));
                }
            },
            Some(i) => {
                proof {
                    lemma_find_field(fdv, e.key@);
                }
                if slots[i].is_some() {
                    proof {
                        assert(run_from(fdv, pre_slots, entries_dv(pre_rem)) == Err::<
                            Seq<Option<Val>>,
                            ErrorV,
                        >(ErrorV::DuplicateField(e.key@)));
                        assert(de_outcome(fdv, entries0) == Err::<Seq<Val>, ErrorV>(
                            ErrorV::DuplicateField(e.key@),
                        ));
                    }
                    return Err(Error::DuplicateField(e.key));
                }
                let found = e.value.kind();
                if found != fields[i].kind {
                    proof {
                        assert(run_from(fdv, pre_slots, entries_dv(pre_rem)) == Err::<
                            Seq<Option<Val>>,
                            ErrorV,
                        >(
                            ErrorV::Mistyped {
                                field: e.key@,
                                expected: fdv[i as int].kind,
                                found: e.value.dv().kind(),
                            },
                        ));
                        assert(de_outcome(fdv, entries0) == Err::<Seq<Val>, ErrorV>(
                            ErrorV::Mistyped {
                                field: e.key@,
                                expected: fdv[i as int].kind,
                                found: e.value.dv().kind(),
                            },
                        ));
                    }
                    return Err(
                        Error::Mistyped { field: e.key, expected: fields[i].kind, found },
                    );
                }
                let ghost val = e.value.dv();
                slots.set(i, Some(e.value));
                proof {
                    assert(slots_dv(slots@) =~= pre_slots.update(i as int, Some(val)));
                    assert(run_from(fdv, pre_slots, entries_dv(pre_rem)) == run_from(
                        fdv,
                        pre_slots.update(i as int, Some(val)),
                        entries_dv(rem@),
                    ));
                }
            },
        }
    }
    proof {
        assert(entries_dv(rem@) =~= Seq::<EntryV>::empty());
        assert(run_from(fdv, init_slots(fdv.len()), entries0) == Ok::<Seq<Option<Val>>, ErrorV>(
            slots_dv(slots@),
        ));
    }

    let ghost full = slots_dv(slots@);
    let mut j: usize = 0;
    while j < n
        invariant
            n == fields@.len(),
            fdv == fields_dv(fields@),
            entries0 == entries_dv(entries@),
            slots@.len() == n,
            full == slots_dv(slots@),
            run_from(fdv, init_slots(fdv.len()), entries0) == Ok::<Seq<Option<Val>>, ErrorV>(full),
            forall|i: int| 0 <= i < j ==> full[i] is Some,
        decreases n - j,
    {
        if slots[j].is_none() {
            proof {
                assert(full[j as int] is None);
                lemma_first_unfilled(full);
                let r = first_unfilled(full);
                assert(r != -1);
                if r < j as int {
                    assert(full[r] is Some);
                    assert(false);
                }
                if r > j as int {
                    assert(full[j as int] is Some);
                    assert(false);
                }
                assert(first_unfilled(full) == j as int);
                assert(run_from(fdv, init_slots(fdv.len()), entries0) == Ok::<
                    Seq<Option<Val>>,
                    ErrorV,
                >(full));
                assert(de_outcome(fdv, entries0) == Err::<Seq<Val>, ErrorV>(
                    ErrorV::MissingField(fdv[j as int].name),
                ));
            }
            return Err(Error::MissingField(fields[j].name.clone()));
        }
        j += 1;
    }
    proof {
        lemma_first_unfilled(full);
        assert(first_unfilled(full) == -1);
    }

    let ghost target = Seq::new(full.len(), |i: int| full[i]->Some_0);
    let mut args: Vec<Value> = Vec::new();
    let mut remslots = slots;
    while remslots.len() > 0
        invariant
            args@.len() + remslots@.len() == n,
            target.len() == n,
            forall|i: int| 0 <= i < args@.len() ==> (#[trigger] args@[i]).dv() == target[i],
            forall|i: int|
                0 <= i < remslots@.len() ==> {
                    let s = #[trigger] remslots@[i];
                    &&& s is Some
                    &&& s->Some_0.dv() == target[args@.len() + i]
                },
        decreases remslots@.len(),
    {
        let s = remslots.remove(0);
        args.push(s.unwrap());
    }
    proof {
        assert(vals_dv(args@) =~= target);
        lemma_run_from_kinds(fdv, init_slots(fdv.len()), entries0);
    }
    Ok(args)
}

/// The deserialization builder: an ordered list of declared fields, the
/// assembly function once one is set, and the validator once one is set.
/// An unset function is the unit type. Builders are immutable values:
/// every step consumes the old builder and returns the next one.
pub struct StructDeserializer<T, FB = (), V = ()> {
    fields: Vec<FieldDecl>,
    final_builder: FB,
    validator: V,
    target: PhantomData<T>,
}

impl<T, FB, V> StructDeserializer<T, FB, V> {
    /// The declared fields, in declaration order.
    pub closed spec fn fields_model(self) -> Seq<FieldDeclV> {
        fields_dv(self.fields@)
    }

    /// The assembly function; the unit type while none is set.
    pub closed spec fn final_builder_model(self) -> FB {
        self.final_builder
    }

    /// The validator; the unit type while none is set.
    pub closed spec fn validator_model(self) -> V {
        self.validator
    }

    /// Some field already declares this name.
    pub open spec fn declares(self, name: Seq<char>) -> bool {
        exists|i: int|
            0 <= i < self.fields_model().len() && (#[trigger] self.fields_model()[i]).name == name
    }

    /// The builder's invariant: no two declared names are equal.
    pub open spec fn wf(self) -> bool {
        distinct_names(self.fields_model())
    }
}

impl<T> StructDeserializer<T> {
    /// A builder with no fields, no assembly function and no validator.
    pub fn new() -> (r: Self)
        ensures
            r.fields_model() =~= Seq::<FieldDeclV>::empty(),
            r.wf(),
    {
        StructDeserializer {
            fields: Vec::new(),
            final_builder: (),
            validator: (),
            target: PhantomData,
        }
    }
}

impl<T> Default for StructDeserializer<T> {
    /// Same as `new`: a builder with nothing declared or set.
    fn default() -> (r: Self)
        ensures
            r.fields_model() =~= Seq::<FieldDeclV>::empty(),
            r.wf(),
    {
        Self::new()
    }
}

impl<T, V> StructDeserializer<T, (), V> {
    /// Declare one more field, at the end of the declaration order. Legal
    /// only while no assembly function is set, and only under a name that
    /// no earlier field declares.
    pub fn field(self, name: &str, kind: ValueKind) -> (r: Self)
        requires
            !self.declares(name@),
        ensures
            r.fields_model() == self.fields_model().push(FieldDeclV { name: name@, kind }),
            r.validator_model() == self.validator_model(),
            self.wf() ==> r.wf(),
    {
        let StructDeserializer { mut fields, final_builder, validator, target } = self;
        let ghost pre = fields@;
        fields.push(FieldDecl { name: name.to_owned(), kind });
        proof {
            assert(fields_dv(fields@) =~= fields_dv(pre).push(FieldDeclV { name: name@, kind }));
        }
        let r = StructDeserializer { fields, final_builder, validator, target };
        proof {
            if distinct_names(self.fields_model()) {
                let rf = r.fields_model();
                assert forall|i: int, j: int| 0 <= i < j < rf.len() implies rf[i].name
                    != rf[j].name by {
                    if j < rf.len() - 1 {
                        assert(self.fields_model()[i].name != self.fields_model()[j].name);
                    } else {
                        assert(rf[i] == self.fields_model()[i]);
                        assert(rf[j].name == name@);
                        if rf[i].name == name@ {
                            assert(0 <= i < self.fields_model().len()
                                && self.fields_model()[i].name == name@);
                            assert(self.declares(name@));
                            assert(false);
                        }
                    }
                }
            }
        }
        r
    }

    /// Declare the first two fields of an empty builder in one step, in
    /// the given order, under two different names.
    pub fn first_fields(self, name0: &str, kind0: ValueKind, name1: &str, kind1: ValueKind) -> (r:
        Self)
        requires
            self.fields_model().len() == 0,
            name0@ != name1@,
        ensures
            r.fields_model() == self.fields_model().push(
                FieldDeclV { name: name0@, kind: kind0 },
            ).push(FieldDeclV { name: name1@, kind: kind1 }),
            r.validator_model() == self.validator_model(),
            r.wf(),
    {
        let r = self.field(name0, kind0);
        let r = r.field(name1, kind1);
        r
    }

    /// Attach the assembly function. Legal only once, and only after at
    /// least one field has been declared; it consumes the builder's
    /// add-field state, so no further field can follow it.
    pub fn final_builder<FB>(self, final_builder: FB) -> (r: StructDeserializer<T, FB, V>)
        requires
            self.fields_model().len() >= 1,
        ensures
            r.fields_model() == self.fields_model(),
            r.final_builder_model() == final_builder,
            r.validator_model() == self.validator_model(),
    {
        let StructDeserializer { fields, final_builder: _, validator, target } = self;
        StructDeserializer { fields, final_builder, validator, target }
    }
}

impl<T, FB> StructDeserializer<T, FB, ()> {
    /// Attach the validator. Legal at most once.
    pub fn validator<V>(self, validator: V) -> (r: StructDeserializer<T, FB, V>)
        ensures
            r.fields_model() == self.fields_model(),
            r.final_builder_model() == self.final_builder_model(),
            r.validator_model() == validator,
    {
        let StructDeserializer { fields, final_builder, validator: _, target } = self;
        StructDeserializer { fields, final_builder, validator, target }
    }
}

impl<T, FB: FnOnce(Vec<Value>) -> Option<T>> StructDeserializer<T, FB, ()> {
    /// Everything `deserialize` (without a validator) guarantees of its
    /// result: structural errors follow [`de_outcome`] exactly, and on a
    /// structurally sound stream the result is what the assembly
    /// function's own contract says of the field values.
    pub open spec fn deserialize_post(self, entries: Seq<EntryV>, r: Result<T, Error>) -> bool {
        let outcome = de_outcome(self.fields_model(), entries);
        match r {
            Ok(v) => outcome is Ok && (exists|args: Vec<Value>|
                #[trigger] vals_dv(args@) == outcome->Ok_0 && call_ensures(
                    self.final_builder_model(),
                    (args,),
                    Some(v),
                )),
            Err(err) => match outcome {
                Err(e) => err.dv() == e,
                Ok(vals) => err == Error::Assembly && (exists|args: Vec<Value>|
                    vals_dv(args@) == vals && #[trigger] call_ensures(
                        self.final_builder_model(),
                        (args,),
                        None::<T>,
                    )),
            },
        }
    }

    /// Run the conversion without a validator: fold the stream into the
    /// declared slots, then assemble. The structural outcome follows
    /// [`de_outcome`] exactly; what assembly made of the values is
    /// whatever the assembly function's own contract says of them.
    pub fn deserialize(self, entries: Vec<Entry>) -> (r: Result<T, Error>)
        requires
            forall|args: Vec<Value>|
                args_match(self.fields_model(), vals_dv(args@)) ==> #[trigger] call_requires(
                    self.final_builder_model(),
                    (args,),
                ),
        ensures
            self.deserialize_post(entries_dv(entries@), r),
    {
        let ghost gentries = entries_dv(entries@);
        let StructDeserializer { fields, final_builder, validator: _, target: _ } = self;
        let args = match fill_slots(&fields, entries) {
            Err(e) => {
                proof {
                    assert(self.deserialize_post(gentries, Result::<T, Error>::Err(e)));
                }
                return Err(e);
            },
            Ok(a) => a,
        };
        let ghost gargs = args;
        proof {
            assert(final_builder == self.final_builder_model());
            assert(de_outcome(self.fields_model(), gentries) == Ok::<Seq<Val>, ErrorV>(
                vals_dv(args@),
            ));
            assert(args_match(self.fields_model(), vals_dv(args@)));
            assert(call_requires(final_builder, (args,)));
        }
        match final_builder(args) {
            Some(v) => {
                proof {
                    assert(call_ensures(self.final_builder_model(), (gargs,), Some(v)));
                    assert(exists|args2: Vec<Value>|
                        vals_dv(args2@) == de_outcome(self.fields_model(), gentries)->Ok_0
                            && #[trigger] call_ensures(
                            self.final_builder_model(),
                            (args2,),
                            Some(v),
                        ));
                    assert(self.deserialize_post(gentries, Result::<T, Error>::Ok(v)));
                }
                Ok(v)
            },
            None => {
                proof {
                    assert(call_ensures(self.final_builder_model(), (gargs,), None::<T>));
                    assert(self.deserialize_post(
                        gentries,
                        Result::<T, Error>::Err(Error::Assembly),
                    ));
                }
                Err(Error::Assembly)
            },
        }
    }
}

impl<
    T,
    FB: FnOnce(Vec<Value>) -> Option<T>,
    V: FnOnce(&T) -> Result<(), String>,
> StructDeserializer<T, FB, V> {
    /// The validator allows this value: acceptance is a possible outcome
    /// of calling it there.
    pub open spec fn validator_accepted(self, v: T) -> bool {
        exists|vr: Result<(), String>|
            #[trigger] call_ensures(self.validator_model(), (&v,), vr) && vr is Ok
    }

    /// The validator can reject this value for this reason.
    pub open spec fn validator_rejected(self, v: T, m: String) -> bool {
        call_ensures(self.validator_model(), (&v,), Result::<(), String>::Err(m))
    }

    /// Everything `deserialize` (with a validator) guarantees of its
    /// result: structural errors follow [`de_outcome`] exactly; on a
    /// structurally sound stream the result is what the assembly
    /// function made of the field values, held to the validator, whose
    /// rejection reason comes back as a validation error.
    pub open spec fn deserialize_post(self, entries: Seq<EntryV>, r: Result<T, Error>) -> bool {
        let outcome = de_outcome(self.fields_model(), entries);
        match r {
            Ok(v) => outcome is Ok && (exists|args: Vec<Value>|
                #[trigger] vals_dv(args@) == outcome->Ok_0 && call_ensures(
                    self.final_builder_model(),
                    (args,),
                    Some(v),
                )) && self.validator_accepted(v),
            Err(err) => match outcome {
                Err(e) => err.dv() == e,
                Ok(vals) => match err {
                    Error::Assembly => exists|args: Vec<Value>|
                        vals_dv(args@) == vals && #[trigger] call_ensures(
                            self.final_builder_model(),
                            (args,),
                            None::<T>,
                        ),
                    Error::Validation(m) => exists|args: Vec<Value>, v: T|
                        vals_dv(args@) == vals && #[trigger] call_ensures(
                            self.final_builder_model(),
                            (args,),
                            Some(v),
                        ) && self.validator_rejected(v, m),
                    _ => false,
                },
            },
        }
    }

    /// Run the conversion, then hold the assembled value to the
    /// validator: an accepted value is returned unchanged, a rejected one
    /// becomes a validation error carrying the validator's reason. The
    /// structural outcome follows [`de_outcome`] exactly.
    pub fn deserialize(self, entries: Vec<Entry>) -> (r: Result<T, Error>)
        requires
            forall|args: Vec<Value>|
                args_match(self.fields_model(), vals_dv(args@)) ==> #[trigger] call_requires(
                    self.final_builder_model(),
                    (args,),
                ),
            forall|t: &T| #[trigger] call_requires(self.validator_model(), (t,)),
        ensures
            self.deserialize_post(entries_dv(entries@), r),
    {
        let ghost gentries = entries_dv(entries@);
        let StructDeserializer { fields, final_builder, validator, target: _ } = self;
        let args = match fill_slots(&fields, entries) {
            Err(e) => {
                proof {
                    assert(self.deserialize_post(gentries, Result::<T, Error>::Err(e)));
                }
                return Err(e);
            },
            Ok(a) => a,
        };
        let ghost gargs = args;
        proof {
            assert(final_builder == self.final_builder_model());
            assert(validator == self.validator_model());
            assert(de_outcome(self.fields_model(), gentries) == Ok::<Seq<Val>, ErrorV>(
                vals_dv(args@),
            ));
            assert(args_match(self.fields_model(), vals_dv(args@)));
            assert(call_requires(final_builder, (args,)));
        }
        match final_builder(args) {
            None => {
                proof {
                    assert(call_ensures(self.final_builder_model(), (gargs,), None::<T>));
                    assert(self.deserialize_post(
                        gentries,
                        Result::<T, Error>::Err(Error::Assembly),
                    ));
                }
                Err(Error::Assembly)
            },
            Some(v) => {
                proof {
                    assert(call_ensures(self.final_builder_model(), (gargs,), Some(v)));
                    assert(call_requires(validator, (&v,)));
                }
                let vres = validator(&v);
                proof {
                    assert(call_ensures(self.validator_model(), (&v,), vres));
                }
                match vres {
                    Ok(()) => {
                        proof {
                            assert(self.validator_accepted(v)) by {
                                assert(call_ensures(self.validator_model(), (&v,), vres)
                                    && vres is Ok);
                            }
                            assert(self.deserialize_post(gentries, Result::<T, Error>::Ok(v)));
                        }
                        Ok(v)
                    },
                    Err(m) => {
                        proof {
                            assert(self.validator_rejected(v, m)) by {
                                assert(call_ensures(self.validator_model(), (&v,), vres));
                            }
                            assert(self.deserialize_post(
                                gentries,
                                Result::<T, Error>::Err(Error::Validation(m)),
                            ));
                        }
                        Err(Error::Validation(m))
                    },
                }
            },
        }
    }
}

} // verus!
