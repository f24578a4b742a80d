use vstd::prelude::*;

use crate::ir::{inst_repr, Inst};

verus! {

/// The semantic type of a value on the target: fixed-width signed integers,
/// a single-precision float, a pointer to a constant string buffer, a one-bit
/// boolean, or no value at all.
#[derive(Clone, Copy, PartialEq, Eq, Structural, Debug)]
pub enum ValueType {
    I8,
    I16,
    F32,
    Str,
    Bool,
    Void,
}

/// The backend representation kind of an emitted value: an integer of a given
/// bit width, a single-precision float, or a pointer.
#[derive(Clone, Copy, PartialEq, Eq, Structural, Debug)]
pub enum Repr {
    Int(u32),
    Float,
    Ptr,
}

/// A reference to an emitted instruction's result. The representation kind is
/// carried alongside the index so a value's tag can be checked against it.
#[derive(Clone, Copy, PartialEq, Eq, Structural, Debug)]
pub struct Handle {
    pub id: usize,
    pub repr: Repr,
}

/// A typed value: a semantic type tag paired with the backend handle that
/// carries it. `Void` carries no handle.
#[derive(Clone, Copy, PartialEq, Eq, Structural, Debug)]
pub enum Value {
    I8(Handle),
    I16(Handle),
    F32(Handle),
    Str(Handle),
    Bool(Handle),
    Void,
}

/// The semantic type tag of a typed value.
pub open spec fn type_of(v: Value) -> ValueType {
    match v {
        Value::I8(_) => ValueType::I8,
        Value::I16(_) => ValueType::I16,
        Value::F32(_) => ValueType::F32,
        Value::Str(_) => ValueType::Str,
        Value::Bool(_) => ValueType::Bool,
        Value::Void => ValueType::Void,
    }
}

/// The backend representation that each semantic type occupies on this
/// target; `Void` occupies none.
pub open spec fn repr_of_type(t: ValueType) -> Option<Repr> {
    match t {
        ValueType::I8 => Some(Repr::Int(8)),
        ValueType::I16 => Some(Repr::Int(16)),
        ValueType::F32 => Some(Repr::Float),
        ValueType::Str => Some(Repr::Ptr),
        ValueType::Bool => Some(Repr::Int(1)),
        ValueType::Void => None,
    }
}

/// A handle is well formed against an instruction tape when it points inside
/// the tape and the instruction there produces the representation the handle
/// claims.
pub open spec fn handle_wf(h: Handle, tape: Seq<Inst>) -> bool {
    &&& h.id < tape.len()
    &&& inst_repr(tape[h.id as int]) == Some(h.repr)
}

/// The invariant of a typed value: its tag agrees with the representation
/// kind of its underlying handle, and the handle is well formed.
pub open spec fn value_wf(v: Value, tape: Seq<Inst>) -> bool {
    match v {
        Value::Void => true,
        Value::I8(h) | Value::I16(h) | Value::F32(h) | Value::Str(h) | Value::Bool(h) => {
            &&& handle_wf(h, tape)
            &&& Some(h.repr) == repr_of_type(type_of(v))
        },
    }
}

/// The handle a typed value carries, if it carries one.
pub open spec fn value_handle(v: Value) -> Option<Handle> {
    match v {
        Value::Void => None,
        Value::I8(h) | Value::I16(h) | Value::F32(h) | Value::Str(h) | Value::Bool(h) => Some(h),
    }
}

/// Wraps a backend handle as the typed value of a value-bearing type whose
/// representation the handle carries.
pub fn from_parts(ty: ValueType, h: Handle) -> (v: Value)
    requires
        repr_of_type(ty) == Some(h.repr),
    ensures
        type_of(v) == ty,
        value_handle(v) == Some(h),
{
    match ty {
        ValueType::I8 => Value::I8(h),
        ValueType::I16 => Value::I16(h),
        ValueType::F32 => Value::F32(h),
        ValueType::Str => Value::Str(h),
        ValueType::Bool => Value::Bool(h),
        ValueType::Void => {
            proof {
                assert(false);
            }
            Value::Void
        },
    }
}

/// The representation a value-bearing type occupies.
pub fn repr_of(ty: ValueType) -> (r: Repr)
    requires
        repr_of_type(ty) is Some,
    ensures
        repr_of_type(ty) == Some(r),
{
    match ty {
        ValueType::I8 => Repr::Int(8),
        ValueType::I16 => Repr::Int(16),
        ValueType::F32 => Repr::Float,
        ValueType::Str => Repr::Ptr,
        ValueType::Bool => Repr::Int(1),
        ValueType::Void => {
            proof {
                assert(false);
            }
            Repr::Int(0)
        },
    }
}

/// The executable counterpart of `type_of`.
pub fn get_type(v: &Value) -> (t: ValueType)
    ensures
        t == type_of(*v),
{
    match v {
        Value::I8(_) => ValueType::I8,
        Value::I16(_) => ValueType::I16,
        Value::F32(_) => ValueType::F32,
        Value::Str(_) => ValueType::Str,
        Value::Bool(_) => ValueType::Bool,
        Value::Void => ValueType::Void,
    }
}

/// A well-formed value stays well formed when the tape is only appended to.
pub proof fn lemma_value_wf_mono(v: Value, t1: Seq<Inst>, t2: Seq<Inst>)
    requires
        value_wf(v, t1),
        t1.is_prefix_of(t2),
    ensures
        value_wf(v, t2),
{
}

} // verus!
