//! The type-erased structured values that the conversion engines move
//! between a backend stream and a target type, together with their
//! mathematical models.

use vstd::prelude::*;

verus! {

broadcast use vstd::std_specs::vec::group_vec_axioms;

/// The type tag a field declaration binds to: the shape a deserialized
/// value must have for the slot that declared it.
#[derive(Clone, Copy, Debug, PartialEq, Eq, Structural)]
pub enum ValueKind {
    Bool,
    UInt,
    Int,
    Str,
    List,
}

/// A type-erased structured value: what a backend stream carries for one
/// named field. Lists nest arbitrarily.
#[derive(Debug, PartialEq, Eq)]
pub enum Value {
    Bool(bool),
    UInt(u64),
    Int(i64),
    Str(String),
    List(Vec<Value>),
}

/// The mathematical model of a `Value`: strings become character
/// sequences and lists become sequences of models.
pub enum Val {
    Bool(bool),
    UInt(u64),
    Int(i64),
    Str(Seq<char>),
    List(Seq<Val>),
}

impl Value {
    /// Model of this value.
    pub open spec fn dv(self) -> Val
        decreases self,
    {
        match self {
            Value::Bool(b) => Val::Bool(b),
            Value::UInt(n) => Val::UInt(n),
            Value::Int(n) => Val::Int(n),
            Value::Str(s) => Val::Str(s@),
            Value::List(vs) => Val::List(dv_seq(vs@)),
        }
    }

    /// The kind of this value.
    pub fn kind(&self) -> (k: ValueKind)
        ensures
            k == self.dv().kind(),
    {
        match self {
            Value::Bool(_) => ValueKind::Bool,
            Value::UInt(_) => ValueKind::UInt,
            Value::Int(_) => ValueKind::Int,
            Value::Str(_) => ValueKind::Str,
            Value::List(_) => ValueKind::List,
        }
    }
}

impl Val {
    /// The kind of a modelled value.
    pub open spec fn kind(self) -> ValueKind {
        match self {
            Val::Bool(_) => ValueKind::Bool,
            Val::UInt(_) => ValueKind::UInt,
            Val::Int(_) => ValueKind::Int,
            Val::Str(_) => ValueKind::Str,
            Val::List(_) => ValueKind::List,
        }
    }
}

/// Model of a sequence of values, element for element.
pub open spec fn dv_seq(vs: Seq<Value>) -> Seq<Val>
    decreases vs,
{
    if vs.len() == 0 {
        Seq::empty()
    } else {
        seq![vs[0].dv()] + dv_seq(vs.subrange(1, vs.len() as int))
    }
}

/// One key-value pair of a backend stream, as handed to the
/// deserialization engine.
#[derive(Debug)]
pub struct Entry {
    pub key: String,
    pub value: Value,
}

/// Model of an `Entry`.
pub struct EntryV {
    pub key: Seq<char>,
    pub value: Val,
}

impl Entry {
    /// Model of this entry.
    pub open spec fn dv(self) -> EntryV {
        EntryV { key: self.key@, value: self.value.dv() }
    }

    /// Pair a key with a value.
    pub fn new(key: String, value: Value) -> (e: Entry)
        ensures
            e.dv() == (EntryV { key: key@, value: value.dv() }),
    {
        Entry { key, value }
    }
}

/// Model of a whole stream of entries.
pub open spec fn entries_dv(entries: Seq<Entry>) -> Seq<EntryV> {
    Seq::new(entries.len(), |i: int| entries[i].dv())
}

/// Model of a sequence of values, position for position. Where a value
/// stands on its own, this says the same as `dv_seq`, without recursion.
pub open spec fn vals_dv(vs: Seq<Value>) -> Seq<Val> {
    Seq::new(vs.len(), |i: int| vs[i].dv())
}

} // verus!
