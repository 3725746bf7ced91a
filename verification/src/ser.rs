//! The serialization side: a builder that binds each declared field name
//! to an accessor, and the engine that emits a source value as a
//! named-field stream, in declaration order.

use vstd::prelude::*;
use core::marker::PhantomData;
use crate::value::{Value, Entry, entries_dv};

verus! {

/// The serialization builder: the declared field names in emission
/// order, and one extraction function that applies every declared
/// accessor to a source value, in that same order. Each `field` call
/// composes one more accessor onto it; the unit type stands where no
/// field has been declared yet. Builders are immutable values: every
/// step consumes the old builder and returns the next one.
pub struct StructSerializer<T, EX = ()> {
    names: Vec<String>,
    extract: EX,
    target: PhantomData<T>,
}

impl<T, EX> StructSerializer<T, EX> {
    /// The declared names, in declaration order, which is also the
    /// emission order.
    pub closed spec fn names_model(self) -> Seq<Seq<char>> {
        Seq::new(self.names@.len(), |i: int| self.names@[i]@)
    }

    /// The composed extraction function; the unit type while no field is
    /// declared.
    pub closed spec fn extract_model(self) -> EX {
        self.extract
    }

    /// Some field already declares this name.
    pub open spec fn declares(self, name: Seq<char>) -> bool {
        exists|i: int|
            0 <= i < self.names_model().len() && #[trigger] self.names_model()[i] == name
    }
}

impl<T> StructSerializer<T> {
    /// A builder with no fields.
    pub fn new() -> (r: Self)
        ensures
            r.names_model() =~= Seq::<Seq<char>>::empty(),
    {
        StructSerializer { names: Vec::new(), extract: (), target: PhantomData }
    }

    /// Declare the first field: its external name, and the accessor that
    /// extracts its value from a source value.
    pub fn field<FA: FnOnce(&T) -> Value>(self, name: &str, accessor: FA) -> (r: StructSerializer<
        T,
        impl FnOnce(&T) -> Vec<Value>,
    >)
        ensures
            r.names_model() == self.names_model().push(name@),
            forall|t: &T|
                call_requires(accessor, (t,)) ==> #[trigger] call_requires(
                    r.extract_model(),
                    (t,),
                ),
            forall|t: &T, vals: Vec<Value>|
                #[trigger] call_ensures(r.extract_model(), (t,), vals) ==> (exists|v: Value|
                    #[trigger] call_ensures(accessor, (t,), v) && vals@ =~= seq![v]),
    {
        let StructSerializer { mut names, extract: _, target } = self;
        names.push(name.to_owned());
        proof {
            assert(Seq::new(names@.len(), |i: int| names@[i]@) =~= self.names_model().push(
                name@,
            ));
        }
        let ex = move |t: &T| -> (vals: Vec<Value>)
            requires
                call_requires(accessor, (t,)),
            ensures
                exists|v: Value| #[trigger] call_ensures(accessor, (t,), v) && vals@ =~= seq![v],
            {
                let v = accessor(t);
                let ghost gv = v;
                let mut vs: Vec<Value> = Vec::new();
                vs.push(v);
                proof {
                    assert(call_ensures(accessor, (t,), gv) && vs@ =~= seq![gv]);
                }
                vs
            };
        StructSerializer { names, extract: ex, target }
    }
}

impl<T, EX: FnOnce(&T) -> Vec<Value>> StructSerializer<T, EX> {
    /// Declare one more field, at the end of the emission order, under a
    /// name that no earlier field declares.
    pub fn field<FA: FnOnce(&T) -> Value>(self, name: &str, accessor: FA) -> (r: StructSerializer<
        T,
        impl FnOnce(&T) -> Vec<Value>,
    >)
        requires
            !self.declares(name@),
        ensures
            r.names_model() == self.names_model().push(name@),
            forall|t: &T|
                call_requires(self.extract_model(), (t,)) && call_requires(accessor, (t,))
                    ==> #[trigger] call_requires(r.extract_model(), (t,)),
            forall|t: &T, vals: Vec<Value>|
                #[trigger] call_ensures(r.extract_model(), (t,), vals) ==> (exists|
                    pre: Vec<Value>,
                    v: Value,
                |
                    #![trigger call_ensures(self.extract_model(), (t,), pre), call_ensures(accessor, (t,), v)]
                    call_ensures(self.extract_model(), (t,), pre) && call_ensures(
                        accessor,
                        (t,),
                        v,
                    ) && vals@ =~= pre@.push(v)),
    {
        let ghost gacc = accessor;
        let StructSerializer { mut names, extract, target } = self;
        let ghost gex = extract;
        names.push(name.to_owned());
        proof {
            assert(Seq::new(names@.len(), |i: int| names@[i]@) =~= self.names_model().push(
                name@,
            ));
        }
        let ex = move |t: &T| -> (vals: Vec<Value>)
            requires
                call_requires(extract, (t,)),
                call_requires(accessor, (t,)),
            ensures
                exists|pre: Vec<Value>, v: Value|
                    #![trigger call_ensures(extract, (t,), pre), call_ensures(accessor, (t,), v)]
                    call_ensures(extract, (t,), pre) && call_ensures(accessor, (t,), v)
                        && vals@ =~= pre@.push(v),
            {
                let mut vs = extract(t);
                let ghost gpre = vs;
                let v = accessor(t);
                let ghost gv = v;
                vs.push(v);
                proof {
                    assert(call_ensures(extract, (t,), gpre) && call_ensures(accessor, (t,), gv)
                        && vs@ =~= gpre@.push(gv));
                }
                vs
            };
        proof {
            assert(gex == self.extract_model());
            assert forall|t: &T, vals: Vec<Value>|
                #[trigger] call_ensures(ex, (t,), vals) implies (exists|
                pre: Vec<Value>,
                v: Value,
            |
                #![trigger call_ensures(self.extract_model(), (t,), pre), call_ensures(gacc, (t,), v)]
                call_ensures(self.extract_model(), (t,), pre) && call_ensures(gacc, (t,), v)
                    && vals@ =~= pre@.push(v)) by {
                let (pre0, v0) = choose|pre: Vec<Value>, v: Value|
                    #![trigger call_ensures(gex, (t,), pre), call_ensures(gacc, (t,), v)]
                    call_ensures(gex, (t,), pre) && call_ensures(gacc, (t,), v) && vals@
                        =~= pre@.push(v);
                assert(call_ensures(self.extract_model(), (t,), pre0) && call_ensures(
                    gacc,
                    (t,),
                    v0,
                ) && vals@ =~= pre0@.push(v0));
            }
        }
        StructSerializer { names, extract: ex, target }
    }

    /// Emit the source value as a named-field stream: one entry per
    /// declared field, its key the declared name and its value what the
    /// field's accessor extracted. Declaration order is the sole
    /// determinant of emission order.
    pub fn serialize(self, value: &T) -> (r: Vec<Entry>)
        requires
            call_requires(self.extract_model(), (value,)),
            forall|t: &T, vals: Vec<Value>|
                #[trigger] call_ensures(self.extract_model(), (t,), vals) ==> vals@.len()
                    == self.names_model().len(),
        ensures
            r@.len() == self.names_model().len(),
            forall|i: int|
                0 <= i < r@.len() ==> (#[trigger] entries_dv(r@)[i]).key == self.names_model()[i],
            exists|vals: Vec<Value>|
                #[trigger] call_ensures(self.extract_model(), (value,), vals) && (forall|i: int|
                    0 <= i < r@.len() ==> (#[trigger] entries_dv(r@)[i]).value == vals@[i].dv()),
    {
        let ghost gnames = self.names_model();
        let StructSerializer { names, extract, target: _ } = self;
        let vals = extract(value);
        let ghost gvals = vals;
        proof {
            assert(call_ensures(self.extract_model(), (value,), gvals));
        }
        let mut rem_names = names;
        let mut rem_vals = vals;
        let mut out: Vec<Entry> = Vec::new();
        while rem_names.len() > 0
            invariant
                out@.len() + rem_names@.len() == gnames.len(),
                rem_vals@.len() == rem_names@.len(),
                gvals@.len() == gnames.len(),
                forall|i: int|
                    0 <= i < out@.len() ==> (#[trigger] out@[i]).key@ == gnames[i] && out@[i].value
                        == gvals@[i],
                forall|i: int|
                    0 <= i < rem_names@.len() ==> (#[trigger] rem_names@[i])@ == gnames[out@.len()
                        + i],
                forall|i: int|
                    0 <= i < rem_vals@.len() ==> #[trigger] rem_vals@[i] == gvals@[out@.len() + i],
            decreases rem_names@.len(),
        {
            let k = rem_names.remove(0);
            let v = rem_vals.remove(0);
            out.push(Entry { key: k, value: v });
        }
        proof {
            assert forall|i: int| 0 <= i < out@.len() implies (#[trigger] entries_dv(out@)[i]).key
                == gnames[i] && entries_dv(out@)[i].value == gvals@[i].dv() by {
                assert(entries_dv(out@)[i] == out@[i].dv());
            }
        }
        out
    }
}

impl<T> Default for StructSerializer<T> {
    /// Same as `new`: a builder with no fields.
    fn default() -> (r: Self)
        ensures
            r.names_model() =~= Seq::<Seq<char>>::empty(),
    {
        Self::new()
    }
}

} // verus!
