use vstd::prelude::*;

use crate::ast::{BinOp, CmpOp};
use crate::value::{Handle, Repr};

verus! {

/// The backend representation of a call's returned value: an integer of a
/// given bit width, a single-precision float, a pointer, or nothing.
#[derive(Clone, Copy, PartialEq, Eq, Structural, Debug)]
pub enum RetRepr {
    Int(u32),
    Float,
    Ptr,
    Void,
}

/// One request to the backend emitter, recorded in order. Each instruction
/// names its operands by the index of the instruction that produced them.
///
/// - `ConstInt` materializes a `width`-bit integer constant; `bits` holds its
///   16-bit two's-complement pattern.
/// - `ConstF32` materializes a single-precision float constant from its bit
///   pattern.
/// - `ConstStr` materializes a pointer to a constant string buffer.
/// - `Load` reads the storage slot of a resolved symbol.
/// - `IntCast` sign-extends or reinterprets an integer to `width` bits.
/// - `IntTrunc` keeps the low `width` bits of an integer.
/// - `Binop` and `Compare` are the operator-lowering requests; a comparison
///   chain yields one one-bit result.
/// - `Call` invokes a function-table entry on already-emitted arguments, with
///   a tail-call hint, and reports its return representation.
#[derive(PartialEq, Debug)]
pub enum Inst {
    ConstInt { width: u32, bits: u16 },
    ConstF32 { bits: u32 },
    ConstStr { data: Vec<u8> },
    Load { slot: usize, repr: Repr },
    IntCast { src: usize, width: u32 },
    IntTrunc { src: usize, width: u32 },
    Binop { op: BinOp, lhs: usize, rhs: usize, repr: Repr },
    Compare { operands: Vec<usize>, ops: Vec<CmpOp> },
    Call { func: usize, args: Vec<usize>, ret: RetRepr, tail: bool },
}

/// The representation of an instruction's result, if it produces one.
pub open spec fn inst_repr(i: Inst) -> Option<Repr> {
    match i {
        Inst::ConstInt { width, .. } => Some(Repr::Int(width)),
        Inst::ConstF32 { .. } => Some(Repr::Float),
        Inst::ConstStr { .. } => Some(Repr::Ptr),
        Inst::Load { repr, .. } => Some(repr),
        Inst::IntCast { width, .. } => Some(Repr::Int(width)),
        Inst::IntTrunc { width, .. } => Some(Repr::Int(width)),
        Inst::Binop { repr, .. } => Some(repr),
        Inst::Compare { .. } => Some(Repr::Int(1)),
        Inst::Call { ret, .. } => match ret {
            RetRepr::Int(w) => Some(Repr::Int(w)),
            RetRepr::Float => Some(Repr::Float),
            RetRepr::Ptr => Some(Repr::Ptr),
            RetRepr::Void => None,
        },
    }
}

/// A tape extends itself by one appended instruction.
pub proof fn lemma_tape_push_prefix(s: Seq<Inst>, x: Inst)
    ensures
        s.is_prefix_of(s.push(x)),
{
    assert(s =~= s.push(x).take(s.len() as int));
}

/// Prefix of the tape is transitive across successive appends.
pub proof fn lemma_tape_prefix_trans(a: Seq<Inst>, b: Seq<Inst>, c: Seq<Inst>)
    requires
        a.is_prefix_of(b),
        b.is_prefix_of(c),
    ensures
        a.is_prefix_of(c),
{
    assert(a =~= c.take(a.len() as int));
}

/// The ordered tape of backend requests produced while lowering. The driver
/// hands the finished tape to the code generator; within this core it is
/// append-only.
pub struct Emitter {
    pub insts: Vec<Inst>,
}

impl Emitter {
    pub fn new() -> (r: Emitter)
        ensures
            r.insts@.len() == 0,
    {
        Emitter { insts: Vec::new() }
    }

    /// Appends one instruction and returns a handle to its result.
    pub fn emit(&mut self, inst: Inst) -> (h: Handle)
        requires
            inst_repr(inst) is Some,
        ensures
            final(self).insts@ == old(self).insts@.push(inst),
            h.id == old(self).insts@.len(),
            Some(h.repr) == inst_repr(inst),
    {
        let id = self.insts.len();
        let repr = match &inst {
            Inst::ConstInt { width, .. } => Repr::Int(*width),
            Inst::ConstF32 { .. } => Repr::Float,
            Inst::ConstStr { .. } => Repr::Ptr,
            Inst::Load { repr, .. } => *repr,
            Inst::IntCast { width, .. } => Repr::Int(*width),
            Inst::IntTrunc { width, .. } => Repr::Int(*width),
            Inst::Binop { repr, .. } => *repr,
            Inst::Compare { .. } => Repr::Int(1),
            Inst::Call { ret, .. } => match ret {
                RetRepr::Int(w) => Repr::Int(*w),
                RetRepr::Float => Repr::Float,
                RetRepr::Ptr => Repr::Ptr,
                RetRepr::Void => Repr::Int(0),
            },
        };
        self.insts.push(inst);
        Handle { id, repr }
    }

    /// Appends a call instruction, whose result may be no value at all; the
    /// returned index names the instruction, not a representation.
    pub fn emit_call(&mut self, func: usize, args: Vec<usize>, ret: RetRepr, tail: bool) -> (id:
        usize)
        ensures
            final(self).insts@ == old(self).insts@.push(
                (Inst::Call { func, args, ret, tail }),
            ),
            id == old(self).insts@.len(),
    {
        let id = self.insts.len();
        self.insts.push(Inst::Call { func, args, ret, tail });
        id
    }
}

} // verus!
