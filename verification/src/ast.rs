use vstd::prelude::*;

verus! {

/// A position in the source text, carried by every node for diagnostics.
#[derive(Clone, Copy, PartialEq, Eq, Structural, Debug)]
pub struct Loc {
    pub row: usize,
    pub col: usize,
}

/// Binary operators of the source language.
#[derive(Clone, Copy, PartialEq, Eq, Structural, Debug)]
pub enum BinOp {
    Add,
    Sub,
    Mul,
    Div,
    FloorDiv,
    Mod,
    Pow,
    LShift,
    RShift,
    BitOr,
    BitXor,
    BitAnd,
}

/// Unary operators of the source language.
#[derive(Clone, Copy, PartialEq, Eq, Structural, Debug)]
pub enum UnaryOp {
    Neg,
    Pos,
    Not,
    Inv,
}

/// Comparison operators of the source language.
#[derive(Clone, Copy, PartialEq, Eq, Structural, Debug)]
pub enum CmpOp {
    Eq,
    NotEq,
    Lt,
    LtE,
    Gt,
    GtE,
}

/// An expression node together with its source location.
pub struct Expr {
    pub loc: Loc,
    pub kind: ExprKind,
}

/// The node kinds of the expression grammar handed over by the parser.
///
/// Numeric literals arrive already narrowed by the front end: an integer
/// literal as its low 64 bits, a float literal as the bit pattern of the
/// single-precision value. Names are byte strings.
pub enum ExprKind {
    IntLit(i64),
    FloatLit(u32),
    ComplexLit,
    StrLit(Vec<u8>),
    BoolLit(bool),
    NoneLit,
    EllipsisLit,
    Ident(Vec<u8>),
    Call { callee: Box<Expr>, args: Vec<Expr> },
    Binop { lhs: Box<Expr>, op: BinOp, rhs: Box<Expr> },
    Unop { op: UnaryOp, operand: Box<Expr> },
    Compare { operands: Vec<Expr>, ops: Vec<CmpOp> },
    Attribute { value: Box<Expr>, attr: Vec<u8> },
    Unsupported,
}

} // verus!
