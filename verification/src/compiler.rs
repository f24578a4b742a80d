use vstd::prelude::*;

use crate::ast::{BinOp, CmpOp, Expr, ExprKind, Loc, UnaryOp};
use crate::ir::{
    lemma_tape_prefix_trans, lemma_tape_push_prefix, Emitter, Inst, RetRepr,
};
use crate::lit::{f32_neg_bits, trunc16, trunc16_exec, trunc16_neg_exec};
use crate::names::{clone_bytes, mangle, mangled};
use crate::scope::{lookup, Binding, SymTable, Symbol};
use crate::table::{find_func, lemma_find_func_ok, FuncSig, FuncTable};
use crate::value::{
    from_parts, get_type, lemma_value_wf_mono, repr_of, repr_of_type, type_of, value_handle,
    value_wf, Handle, Repr, Value, ValueType,
};

verus! {

/// Why lowering of a compilation unit stopped. Every failure is fatal for
/// the unit; nothing partial survives it.
#[derive(PartialEq, Eq, Debug)]
pub enum ErrorKind {
    /// An identifier absent from both the local and the global scope.
    NameError(Vec<u8>),
    /// A call target that neither the plain nor the mangled name resolves.
    UndefinedFunction(Vec<u8>),
    /// A complex-number or ellipsis literal.
    UnsupportedLiteral,
    /// A string literal outside any function body.
    UnsupportedContext,
    /// Unary negation of anything but a numeric literal.
    UnsupportedUnaryOperand,
    /// A call whose target is not a plain identifier.
    UnsupportedCallee,
    /// An argument whose type has no casting rule for its paired parameter.
    UnsupportedArgumentType,
    /// A node kind outside the supported expression grammar.
    UnsupportedExpression,
    /// A call return representation the target cannot carry in a value.
    UnsupportedReturnType,
}

/// A fatal diagnostic: the error kind and the source location that was
/// current when lowering stopped.
#[derive(PartialEq, Eq, Debug)]
pub struct CompileError {
    pub loc: Loc,
    pub kind: ErrorKind,
}

/// The mathematical form of an error kind, with names as byte sequences.
pub enum LowerErr {
    NameError(Seq<u8>),
    UndefinedFunction(Seq<u8>),
    UnsupportedLiteral,
    UnsupportedContext,
    UnsupportedUnaryOperand,
    UnsupportedCallee,
    UnsupportedArgumentType,
    UnsupportedExpression,
    UnsupportedReturnType,
}

/// The mathematical reading of an executable error kind.
pub open spec fn view_err(k: ErrorKind) -> LowerErr {
    match k {
        ErrorKind::NameError(n) => LowerErr::NameError(n@),
        ErrorKind::UndefinedFunction(n) => LowerErr::UndefinedFunction(n@),
        ErrorKind::UnsupportedLiteral => LowerErr::UnsupportedLiteral,
        ErrorKind::UnsupportedContext => LowerErr::UnsupportedContext,
        ErrorKind::UnsupportedUnaryOperand => LowerErr::UnsupportedUnaryOperand,
        ErrorKind::UnsupportedCallee => LowerErr::UnsupportedCallee,
        ErrorKind::UnsupportedArgumentType => LowerErr::UnsupportedArgumentType,
        ErrorKind::UnsupportedExpression => LowerErr::UnsupportedExpression,
        ErrorKind::UnsupportedReturnType => LowerErr::UnsupportedReturnType,
    }
}

/// The read-only symbol state lowering runs against: the global scope, the
/// function-local scope if a function body is being compiled, and the
/// function table.
pub type Env = (Seq<Binding>, Option<Seq<Binding>>, Seq<FuncSig>);

/// Whether a function body is currently being compiled.
pub open spec fn in_function(env: Env) -> bool {
    env.1 is Some
}

/// A scope never binds a name to a value-less type.
pub open spec fn scope_wf(s: Seq<Binding>) -> bool {
    forall|i: int| 0 <= i < s.len() ==> s[i].sym.ty != ValueType::Void
}

/// Well-formedness of the symbol state: both scopes obey `scope_wf`.
pub open spec fn env_wf(env: Env) -> bool {
    &&& scope_wf(env.0)
    &&& match env.1 {
        Some(l) => scope_wf(l),
        None => true,
    }
}

/// Name resolution: the local scope first when a function body is being
/// compiled, the global scope as the fallback; only the global scope
/// elsewhere.
pub open spec fn resolve_name(env: Env, name: Seq<u8>) -> Option<Symbol> {
    match env.1 {
        Some(l) => match lookup(l, name) {
            Some(s) => Some(s),
            None => lookup(env.0, name),
        },
        None => lookup(env.0, name),
    }
}

/// The fallback law of resolution: a name with no binding in the current
/// function-local scope resolves to whatever the global scope gives it.
pub proof fn lemma_global_fallback(env: Env, name: Seq<u8>)
    requires
        match env.1 {
            Some(l) => lookup(l, name) is None,
            None => true,
        },
    ensures
        resolve_name(env, name) == lookup(env.0, name),
{
}

/// The shadow law of resolution: a name bound in the current function-local
/// scope resolves to the local binding, whatever the global scope holds.
pub proof fn lemma_local_shadows_global(env: Env, name: Seq<u8>, sym: Symbol)
    requires
        env.1 matches Some(l) && lookup(l, name) == Some(sym),
    ensures
        resolve_name(env, name) == Some(sym),
{
}

/// What a well-formed scope hands out never has a value-less type.
pub proof fn lemma_lookup_wf(s: Seq<Binding>, name: Seq<u8>)
    requires
        scope_wf(s),
    ensures
        match lookup(s, name) {
            Some(sym) => sym.ty != ValueType::Void,
            None => true,
        },
    decreases s.len(),
{
    if s.len() > 0 && s.last().name@ != name {
        assert(scope_wf(s.drop_last()));
        lemma_lookup_wf(s.drop_last(), name);
    }
}

/// Function resolution: an exact match on the plain name first; failing
/// that, the name mangled with the first argument's type, when there is a
/// first argument.
pub open spec fn resolve_func(env: Env, name: Seq<u8>, t0: Option<ValueType>) -> Option<int> {
    match find_func(env.2, name) {
        Some(i) => Some(i),
        None => match t0 {
            Some(t) => find_func(env.2, mangled(name, t)),
            None => None,
        },
    }
}

/// The overload law of call resolution: when no function bears the plain
/// name but one bears the name mangled with the first argument's type, the
/// call dispatches to the latter.
pub proof fn lemma_mangled_overload(env: Env, name: Seq<u8>, t: ValueType, i: int)
    requires
        find_func(env.2, name) is None,
        find_func(env.2, mangled(name, t)) == Some(i),
    ensures
        resolve_func(env, name, Some(t)) == Some(i),
{
}

/// The target's operator-lowering rule for a binary operator, keyed by the
/// operand type tags: integer operands meet at the wider width, float
/// operands stay single precision, and every other pairing is refused.
pub open spec fn binop_result(a: ValueType, b: ValueType) -> Result<ValueType, LowerErr> {
    match (a, b) {
        (ValueType::I8, ValueType::I8) => Ok(ValueType::I8),
        (ValueType::I8, ValueType::I16) => Ok(ValueType::I16),
        (ValueType::I16, ValueType::I8) => Ok(ValueType::I16),
        (ValueType::I16, ValueType::I16) => Ok(ValueType::I16),
        (ValueType::F32, ValueType::F32) => Ok(ValueType::F32),
        _ => Err(LowerErr::UnsupportedExpression),
    }
}

/// A comparison chain accepts numeric operands only.
pub open spec fn cmp_operand_ok(t: ValueType) -> bool {
    t == ValueType::I8 || t == ValueType::I16 || t == ValueType::F32
}

/// The implicit casting rule for one paired (argument, parameter): integer
/// arguments need an integer-typed parameter to take a cast to its width,
/// floats and string pointers pass through unchanged, and any other argument
/// type has no rule.
pub open spec fn cast_rule(t: ValueType, p: Repr) -> Result<(), LowerErr> {
    match t {
        ValueType::I8 | ValueType::I16 => if p is Int {
            Ok(())
        } else {
            Err(LowerErr::UnsupportedArgumentType)
        },
        ValueType::F32 => Ok(()),
        ValueType::Str => Ok(()),
        ValueType::Bool | ValueType::Void => Err(LowerErr::UnsupportedArgumentType),
    }
}

/// The type of a call's value, inferred from the backend's reported return
/// representation. An 8- or 16-bit integer and a float are carried; any
/// other width, and a pointer return, the target cannot carry.
pub open spec fn ret_value_type(r: RetRepr) -> Result<ValueType, LowerErr> {
    match r {
        RetRepr::Int(w) => if w == 8 {
            Ok(ValueType::I8)
        } else if w == 16 {
            Ok(ValueType::I16)
        } else {
            Err(LowerErr::UnsupportedReturnType)
        },
        RetRepr::Float => Ok(ValueType::F32),
        RetRepr::Ptr => Err(LowerErr::UnsupportedReturnType),
        RetRepr::Void => Ok(ValueType::Void),
    }
}

/// What lowering an expression yields: the semantic type of its value, or
/// the error that stops the unit. This is the contract of `compile_expr`.
pub open spec fn lower_res(env: Env, e: Expr) -> Result<ValueType, LowerErr>
    decreases e, 1int, 0int,
{
    lower_kind_res(env, e.kind)
}

/// `lower_res`, by node kind.
pub open spec fn lower_kind_res(env: Env, k: ExprKind) -> Result<ValueType, LowerErr>
    decreases k, 0int, 0int,
{
    match k {
        ExprKind::IntLit(_) => Ok(ValueType::I16),
        ExprKind::FloatLit(_) => Ok(ValueType::F32),
        ExprKind::ComplexLit => Err(LowerErr::UnsupportedLiteral),
        ExprKind::StrLit(_) => if in_function(env) {
            Ok(ValueType::Str)
        } else {
            Err(LowerErr::UnsupportedContext)
        },
        ExprKind::BoolLit(_) => Ok(ValueType::Bool),
        ExprKind::NoneLit => Ok(ValueType::Void),
        ExprKind::EllipsisLit => Err(LowerErr::UnsupportedLiteral),
        ExprKind::Ident(name) => match resolve_name(env, name@) {
            Some(sym) => Ok(sym.ty),
            None => Err(LowerErr::NameError(name@)),
        },
        ExprKind::Binop { lhs, op: _, rhs } => match lower_res(env, *lhs) {
            Err(er) => Err(er),
            Ok(ta) => match lower_res(env, *rhs) {
                Err(er) => Err(er),
                Ok(tb) => binop_result(ta, tb),
            },
        },
        ExprKind::Unop { op, operand } => match operand.kind {
            ExprKind::IntLit(_) => if op == UnaryOp::Neg {
                Ok(ValueType::I16)
            } else {
                Err(LowerErr::UnsupportedExpression)
            },
            ExprKind::FloatLit(_) => if op == UnaryOp::Neg {
                Ok(ValueType::F32)
            } else {
                Err(LowerErr::UnsupportedExpression)
            },
            ExprKind::ComplexLit => Err(LowerErr::UnsupportedLiteral),
            _ => Err(LowerErr::UnsupportedUnaryOperand),
        },
        ExprKind::Compare { operands, ops } => compare_res(env, operands@, ops@),
        ExprKind::Call { callee, args } => call_res(env, *callee, args@),
        ExprKind::Attribute { .. } => Err(LowerErr::UnsupportedExpression),
        ExprKind::Unsupported => Err(LowerErr::UnsupportedExpression),
    }
}

/// Lowers the operands of a comparison chain in source order from index `i`
/// on, each of which must be numeric.
pub open spec fn cmp_chain_res(env: Env, s: Seq<Expr>, i: int) -> Result<(), LowerErr>
    decreases s, 0int, s.len() - i,
{
    if i < 0 || i >= s.len() {
        Ok(())
    } else {
        match lower_res(env, s[i]) {
            Err(er) => Err(er),
            Ok(t) => if cmp_operand_ok(t) {
                cmp_chain_res(env, s, i + 1)
            } else {
                Err(LowerErr::UnsupportedExpression)
            },
        }
    }
}

/// What lowering a call yields. The callee must be a plain identifier; the
/// first argument is lowered eagerly, before resolution, because overload
/// selection depends on its type.
pub open spec fn call_res(env: Env, callee: Expr, args: Seq<Expr>) -> Result<
    ValueType,
    LowerErr,
>
    decreases args, 1int, 0int,
{
    match callee.kind {
        ExprKind::Ident(name) => if args.len() > 0 {
            match lower_res(env, args[0]) {
                Err(er) => Err(er),
                Ok(t0) => call_res_resolved(env, name@, Some(t0), args),
            }
        } else {
            call_res_resolved(env, name@, None, args)
        },
        _ => Err(LowerErr::UnsupportedCallee),
    }
}

/// The rest of call lowering once the first argument's type is known:
/// resolve the function, pair arguments with parameters, infer the value of
/// the call from the return representation.
pub open spec fn call_res_resolved(
    env: Env,
    name: Seq<u8>,
    t0: Option<ValueType>,
    args: Seq<Expr>,
) -> Result<ValueType, LowerErr>
    decreases args, 0int, args.len() + 1,
{
    match resolve_func(env, name, t0) {
        None => Err(LowerErr::UndefinedFunction(name)),
        Some(i) => {
            let sig = env.2[i];
            match args_check(env, args, sig.params@, 0) {
                Err(er) => Err(er),
                Ok(_) => ret_value_type(sig.ret),
            }
        },
    }
}

/// Lowers the arguments in source order from index `i` on and applies the
/// casting rule to each argument that is paired with a parameter; arguments
/// beyond the parameter list are still lowered, and parameters beyond the
/// argument list are dropped.
pub open spec fn args_check(env: Env, args: Seq<Expr>, params: Seq<Repr>, i: int) -> Result<
    (),
    LowerErr,
>
    decreases args, 0int, args.len() - i,
{
    if i < 0 || i >= args.len() {
        Ok(())
    } else {
        match lower_res(env, args[i]) {
            Err(er) => Err(er),
            Ok(t) => {
                let chk = if i < params.len() {
                    cast_rule(t, params[i])
                } else {
                    Ok(())
                };
                match chk {
                    Err(er) => Err(er),
                    Ok(_) => args_check(env, args, params, i + 1),
                }
            },
        }
    }
}

/// The type of the eagerly lowered first argument, when there is one and it
/// lowers successfully.
pub open spec fn call_first_tag(env: Env, args: Seq<Expr>) -> Option<ValueType> {
    if args.len() > 0 {
        match lower_res(env, args[0]) {
            Ok(t) => Some(t),
            Err(_) => None,
        }
    } else {
        None
    }
}

/// What lowering a comparison chain yields: the pre-lowered operand sequence
/// must pair with the operator sequence and every operand must be numeric;
/// the chain's value is a boolean.
pub open spec fn compare_res(env: Env, operands: Seq<Expr>, ops: Seq<CmpOp>) -> Result<
    ValueType,
    LowerErr,
>
    decreases operands, 0int, operands.len() + 1,
{
    if operands.len() != ops.len() + 1 || ops.len() < 1 {
        Err(LowerErr::UnsupportedExpression)
    } else {
        match cmp_chain_res(env, operands, 0) {
            Err(er) => Err(er),
            Ok(_) => Ok(ValueType::Bool),
        }
    }
}

/// What a well-formed environment resolves a name to never has a value-less
/// type.
pub proof fn lemma_resolve_wf(env: Env, name: Seq<u8>)
    requires
        env_wf(env),
    ensures
        match resolve_name(env, name) {
            Some(sym) => sym.ty != ValueType::Void,
            None => true,
        },
{
    match env.1 {
        Some(l) => {
            lemma_lookup_wf(l, name);
            lemma_lookup_wf(env.0, name);
        },
        None => {
            lemma_lookup_wf(env.0, name);
        },
    }
}

/// What an implicit argument cast leaves on the tape: an `I8` argument takes
/// a sign-respecting cast and an `I16` argument a truncation, each to the
/// paired parameter's declared integer width; floats and string pointers
/// pass through unchanged.
pub open spec fn cast_effect(
    pre: Seq<Inst>,
    post: Seq<Inst>,
    v: Value,
    param: Repr,
    id: usize,
) -> bool {
    match v {
        Value::I8(h) => match param {
            Repr::Int(w) => post == pre.push((Inst::IntCast { src: h.id, width: w })) && id
                == pre.len(),
            _ => false,
        },
        Value::I16(h) => match param {
            Repr::Int(w) => post == pre.push((Inst::IntTrunc { src: h.id, width: w })) && id
                == pre.len(),
            _ => false,
        },
        Value::F32(h) => post == pre && id == h.id,
        Value::Str(h) => post == pre && id == h.id,
        _ => false,
    }
}

/// The instruction index a paired argument's value is passed under: an `I8`
/// value through a sign-respecting cast to the parameter's integer width, an
/// `I16` value through a truncation to it, a float or string pointer as the
/// unchanged value itself.
pub open spec fn passed_arg_ok(post: Seq<Inst>, v: Value, param: Repr, id: usize) -> bool {
    match v {
        Value::I8(h) => match param {
            Repr::Int(w) => id < post.len() && post[id as int] == (Inst::IntCast {
                src: h.id,
                width: w,
            }),
            _ => false,
        },
        Value::I16(h) => match param {
            Repr::Int(w) => id < post.len() && post[id as int] == (Inst::IntTrunc {
                src: h.id,
                width: w,
            }),
            _ => false,
        },
        Value::F32(h) => id == h.id,
        Value::Str(h) => id == h.id,
        _ => false,
    }
}

/// The argument discipline of an emitted call, witnessed by the lowered
/// argument values `vs`: every argument — the extra trailing ones included —
/// was lowered to a value of the type the lowering spec gives it, emitted
/// onto this call's stretch of the tape in source order; and each paired
/// index of the call's argument list carries that argument's cast result.
pub open spec fn call_args_ok(
    env: Env,
    args: Seq<Expr>,
    params: Seq<Repr>,
    pre: Seq<Inst>,
    post: Seq<Inst>,
    av: Seq<usize>,
    vs: Seq<Value>,
) -> bool {
    &&& vs.len() == args.len()
    &&& forall|j: int|
        0 <= j < args.len() ==> {
            &&& lower_res(env, args[j]) == Ok::<ValueType, LowerErr>(type_of(#[trigger] vs[j]))
            &&& value_wf(vs[j], post)
            &&& match value_handle(vs[j]) {
                Some(h) => pre.len() <= h.id,
                None => true,
            }
        }
    &&& forall|j: int, k: int|
        #![trigger vs[j], vs[k]]
        0 <= j < k < args.len() ==> match (value_handle(vs[j]), value_handle(vs[k])) {
            (Some(a), Some(b)) => a.id < b.id,
            _ => true,
        }
    &&& forall|j: int|
        0 <= j < av.len() ==> j < vs.len() && j < params.len() && passed_arg_ok(
            post,
            vs[j],
            params[j],
            #[trigger] av[j],
        )
}

/// What a successful call leaves on the tape: one call of the resolved
/// signature, carrying the tail-call hint, whose argument list pairs the
/// call's arguments with the declared parameters positionally up to the
/// shorter of the two lengths, each paired one passed through its implicit
/// cast, and whose arguments were all lowered here in source order.
pub open spec fn call_effect(
    env: Env,
    pre: Seq<Inst>,
    post: Seq<Inst>,
    callee: Expr,
    args: Seq<Expr>,
) -> bool {
    match callee.kind {
        ExprKind::Ident(name) => match resolve_func(env, name@, call_first_tag(env, args)) {
            Some(fi) => {
                &&& post.len() > pre.len()
                &&& match post.last() {
                    Inst::Call { func, args: av, ret, tail } => {
                        &&& func == fi
                        &&& av@.len() == vstd::math::min(
                            args.len() as int,
                            env.2[fi].params@.len() as int,
                        )
                        &&& ret == env.2[fi].ret
                        &&& tail == true
                    },
                    _ => false,
                }
                &&& exists|vs: Seq<Value>|
                    call_args_ok(
                        env,
                        args,
                        env.2[fi].params@,
                        pre,
                        post,
                        call_inst_args(post.last()),
                        vs,
                    )
            },
            None => false,
        },
        _ => false,
    }
}

/// The argument-index list an emitted call instruction carries.
pub open spec fn call_inst_args(i: Inst) -> Seq<usize> {
    match i {
        Inst::Call { args, .. } => args@,
        _ => Seq::empty(),
    }
}

/// A passed argument stays passed as the tape grows.
pub proof fn lemma_passed_arg_mono(
    t1: Seq<Inst>,
    t2: Seq<Inst>,
    v: Value,
    param: Repr,
    id: usize,
)
    requires
        passed_arg_ok(t1, v, param, id),
        t1.is_prefix_of(t2),
    ensures
        passed_arg_ok(t2, v, param, id),
{
}

/// The operand discipline of an emitted comparison, witnessed by the lowered
/// operand values `vs`: every operand was lowered to a numeric value of the
/// type the lowering spec gives it, emitted onto this chain's stretch of the
/// tape in source order, and the chain reads exactly those values.
pub open spec fn cmp_operands_ok(
    env: Env,
    operands: Seq<Expr>,
    pre: Seq<Inst>,
    post: Seq<Inst>,
    av: Seq<usize>,
    vs: Seq<Value>,
) -> bool {
    &&& vs.len() == operands.len()
    &&& av.len() == operands.len()
    &&& forall|j: int|
        0 <= j < operands.len() ==> {
            &&& lower_res(env, operands[j]) == Ok::<ValueType, LowerErr>(
                type_of(#[trigger] vs[j]),
            )
            &&& value_wf(vs[j], post)
            &&& match value_handle(vs[j]) {
                Some(h) => av[j] == h.id && pre.len() <= h.id,
                None => false,
            }
        }
    &&& forall|j: int, k: int|
        #![trigger vs[j], vs[k]]
        0 <= j < k < operands.len() ==> match (value_handle(vs[j]), value_handle(vs[k])) {
            (Some(a), Some(b)) => a.id < b.id,
            _ => true,
        }
}

/// What lowering one node leaves on the tape, for the node kinds this core
/// lowers directly. Operator and call nodes are covered by the contracts of
/// their own lowering routines.
pub open spec fn lowering_effect(
    env: Env,
    pre: Seq<Inst>,
    post: Seq<Inst>,
    k: ExprKind,
    r: Result<Value, CompileError>,
) -> bool {
    match k {
        ExprKind::IntLit(n) => match r {
            Ok(v) => {
                &&& post == pre.push((Inst::ConstInt { width: 16, bits: trunc16(n as int) }))
                &&& match v {
                    Value::I16(h) => h.id == pre.len() && h.repr == Repr::Int(16),
                    _ => false,
                }
            },
            Err(_) => false,
        },
        ExprKind::FloatLit(b) => match r {
            Ok(v) => {
                &&& post == pre.push((Inst::ConstF32 { bits: b }))
                &&& match v {
                    Value::F32(h) => h.id == pre.len() && h.repr == Repr::Float,
                    _ => false,
                }
            },
            Err(_) => false,
        },
        ExprKind::BoolLit(bv) => match r {
            Ok(v) => {
                &&& post == pre.push(
                    (Inst::ConstInt {
                        width: 1,
                        bits: if bv {
                            1u16
                        } else {
                            0u16
                        },
                    }),
                )
                &&& match v {
                    Value::Bool(h) => h.id == pre.len() && h.repr == Repr::Int(1),
                    _ => false,
                }
            },
            Err(_) => false,
        },
        ExprKind::NoneLit => r == Ok::<Value, CompileError>(Value::Void) && post == pre,
        ExprKind::StrLit(s) => match r {
            Ok(v) => {
                &&& post.len() == pre.len() + 1
                &&& match post.last() {
                    Inst::ConstStr { data } => data@ == s@,
                    _ => false,
                }
                &&& match v {
                    Value::Str(h) => h.id == pre.len() && h.repr == Repr::Ptr,
                    _ => false,
                }
            },
            Err(_) => post == pre,
        },
        ExprKind::Ident(name) => match r {
            Ok(v) => match resolve_name(env, name@) {
                Some(sym) => {
                    &&& post == pre.push(
                        (Inst::Load {
                            slot: sym.slot,
                            repr: match repr_of_type(sym.ty) {
                                Some(rp) => rp,
                                None => Repr::Int(0),
                            },
                        }),
                    )
                    &&& type_of(v) == sym.ty
                    &&& match value_handle(v) {
                        Some(h) => h.id == pre.len() && Some(h.repr) == repr_of_type(sym.ty),
                        None => false,
                    }
                },
                None => false,
            },
            Err(_) => post == pre,
        },
        ExprKind::Unop { op, operand } => match r {
            Ok(v) => match operand.kind {
                ExprKind::IntLit(n) => {
                    &&& post == pre.push(
                        (Inst::ConstInt { width: 16, bits: trunc16(-(n as int)) }),
                    )
                    &&& match v {
                        Value::I16(h) => h.id == pre.len() && h.repr == Repr::Int(16),
                        _ => false,
                    }
                },
                ExprKind::FloatLit(b) => {
                    &&& post == pre.push((Inst::ConstF32 { bits: f32_neg_bits(b) }))
                    &&& match v {
                        Value::F32(h) => h.id == pre.len() && h.repr == Repr::Float,
                        _ => false,
                    }
                },
                _ => false,
            },
            Err(_) => post == pre,
        },
        ExprKind::Binop { lhs, op, rhs } => match r {
            Ok(v) => {
                &&& post.len() > pre.len()
                &&& match value_handle(v) {
                    Some(h) => h.id + 1 == post.len(),
                    None => false,
                }
                &&& exists|vl: Value, vr: Value|
                    binop_operands_ok(env, *lhs, op, *rhs, pre, post, vl, vr, v)
            },
            Err(_) => true,
        },
        ExprKind::Compare { operands, ops } => match r {
            Ok(v) => {
                &&& post.len() > pre.len()
                &&& match value_handle(v) {
                    Some(h) => h.id + 1 == post.len(),
                    None => false,
                }
                &&& match post.last() {
                    Inst::Compare { operands: av, ops: o } => o@ == ops@ && exists|
                        vs: Seq<Value>,
                    | cmp_operands_ok(env, operands@, pre, post, av@, vs),
                    _ => false,
                }
            },
            Err(_) => true,
        },
        ExprKind::Call { callee, args } => match r {
            Ok(v) => {
                &&& call_effect(env, pre, post, *callee, args@)
                &&& match value_handle(v) {
                    Some(h) => pre.len() <= h.id && h.id + 1 == post.len(),
                    None => type_of(v) == ValueType::Void,
                }
            },
            Err(_) => true,
        },
        _ => true,
    }
}

/// Whether `l` is the source location of `e` or of a node inside it. A
/// diagnostic always carries the location that was current when lowering
/// stopped, which is always a node of the expression being lowered.
pub open spec fn node_has_loc(e: Expr, l: Loc) -> bool
    decreases e, 1int, 0int,
{
    l == e.loc || kind_has_loc(e.kind, l)
}

/// `node_has_loc`, over the children of a node kind.
pub open spec fn kind_has_loc(k: ExprKind, l: Loc) -> bool
    decreases k, 0int, 0int,
{
    match k {
        ExprKind::Binop { lhs, op: _, rhs } => node_has_loc(*lhs, l) || node_has_loc(*rhs, l),
        ExprKind::Unop { op: _, operand } => node_has_loc(*operand, l),
        ExprKind::Call { callee, args } => node_has_loc(*callee, l) || list_has_loc(args@, l, 0),
        ExprKind::Compare { operands, ops: _ } => list_has_loc(operands@, l, 0),
        ExprKind::Attribute { value, attr: _ } => node_has_loc(*value, l),
        _ => false,
    }
}

/// Whether `l` is the location of a node inside one of the expressions of
/// `s` from index `i` on.
pub open spec fn list_has_loc(s: Seq<Expr>, l: Loc, i: int) -> bool
    decreases s, 0int, s.len() - i,
{
    if i < 0 || i >= s.len() {
        false
    } else {
        node_has_loc(s[i], l) || list_has_loc(s, l, i + 1)
    }
}

/// A location found inside one list element is found in the list.
pub proof fn lemma_list_has_loc(s: Seq<Expr>, l: Loc, i: int, j: int)
    requires
        0 <= j <= i < s.len(),
        node_has_loc(s[i], l),
    ensures
        list_has_loc(s, l, j),
    decreases i - j,
{
    if j < i {
        lemma_list_has_loc(s, l, i, j + 1);
    }
}

/// The whole of what a successful comparison lowering guarantees: the
/// boolean result names the one comparison instruction appended last, whose
/// operand list reads the operands' lowered values in source order.
pub open spec fn compare_ok_post(
    c0: Compiler,
    c1: Compiler,
    operands: Seq<Expr>,
    ops: Seq<CmpOp>,
    v: Value,
) -> bool {
    &&& compare_res(env_of(c0), operands, ops) == Ok::<ValueType, LowerErr>(type_of(v))
    &&& value_wf(v, c1.emitter.insts@)
    &&& match value_handle(v) {
        Some(h) => h.id + 1 == c1.emitter.insts@.len(),
        None => false,
    }
    &&& match c1.emitter.insts@.last() {
        Inst::Compare { operands: av, ops: o } => o@ == ops && exists|vs: Seq<Value>|
            cmp_operands_ok(env_of(c0), operands, c0.emitter.insts@, c1.emitter.insts@, av@, vs),
        _ => false,
    }
    &&& c1.emitter.insts@.len() > c0.emitter.insts@.len()
}

/// The whole of what a successful call lowering guarantees: the call's value
/// has the type the lowering spec infers, names the call instruction
/// appended last when it carries a value, and the call's tape effect holds.
pub open spec fn call_ok_post(c0: Compiler, c1: Compiler, callee: Expr, args: Seq<Expr>, v: Value) -> bool {
    &&& call_res(env_of(c0), callee, args) == Ok::<ValueType, LowerErr>(type_of(v))
    &&& value_wf(v, c1.emitter.insts@)
    &&& call_effect(env_of(c0), c0.emitter.insts@, c1.emitter.insts@, callee, args)
    &&& match value_handle(v) {
        Some(h) => c0.emitter.insts@.len() <= h.id && h.id + 1 == c1.emitter.insts@.len(),
        None => type_of(v) == ValueType::Void,
    }
}

/// The operand discipline of an emitted binary operation, witnessed by the
/// lowered operand values: each operand lowered to a value of the type the
/// lowering spec gives it, the left one emitted before the right one on this
/// node's stretch of the tape, and the operation reading exactly those two
/// values.
pub open spec fn binop_operands_ok(
    env: Env,
    lhs: Expr,
    op: BinOp,
    rhs: Expr,
    pre: Seq<Inst>,
    post: Seq<Inst>,
    vl: Value,
    vr: Value,
    v: Value,
) -> bool {
    &&& lower_res(env, lhs) == Ok::<ValueType, LowerErr>(type_of(vl))
    &&& lower_res(env, rhs) == Ok::<ValueType, LowerErr>(type_of(vr))
    &&& binop_result(type_of(vl), type_of(vr)) == Ok::<ValueType, LowerErr>(type_of(v))
    &&& value_wf(vl, post)
    &&& value_wf(vr, post)
    &&& match (value_handle(vl), value_handle(vr)) {
        (Some(a), Some(b)) => {
            &&& pre.len() <= a.id
            &&& a.id < b.id
            &&& post.last() == (Inst::Binop {
                op,
                lhs: a.id,
                rhs: b.id,
                repr: match repr_of_type(type_of(v)) {
                    Some(rp) => rp,
                    None => Repr::Int(0),
                },
            })
        },
        _ => false,
    }
}

/// The idempotence law of literal lowering: lowering the same literal node
/// twice, from any two tape states — for a string literal, inside a function
/// body, the one context in which it lowers at all — yields values of the
/// same type backed by equal emitted constants; no state leaks between
/// independent lowerings.
pub proof fn lemma_literal_lowering_idempotent(
    env: Env,
    pre1: Seq<Inst>,
    post1: Seq<Inst>,
    r1: Result<Value, CompileError>,
    pre2: Seq<Inst>,
    post2: Seq<Inst>,
    r2: Result<Value, CompileError>,
    k: ExprKind,
)
    requires
        k matches ExprKind::IntLit(_) || k matches ExprKind::FloatLit(_) || k matches
            ExprKind::BoolLit(_) || k matches ExprKind::NoneLit || k matches ExprKind::StrLit(
            _,
        ),
        k matches ExprKind::StrLit(_) ==> in_function(env),
        lowering_effect(env, pre1, post1, k, r1),
        lowering_effect(env, pre2, post2, k, r2),
        r1 matches Err(er) ==> lower_kind_res(env, k) == Err::<ValueType, LowerErr>(
            view_err(er.kind),
        ),
        r2 matches Err(er) ==> lower_kind_res(env, k) == Err::<ValueType, LowerErr>(
            view_err(er.kind),
        ),
    ensures
        r1 is Ok && r2 is Ok,
        type_of(r1->Ok_0) == type_of(r2->Ok_0),
        (k matches ExprKind::IntLit(_) || k matches ExprKind::FloatLit(_) || k matches
            ExprKind::BoolLit(_)) ==> post1.last() == post2.last(),
        k matches ExprKind::StrLit(_) ==> match (post1.last(), post2.last()) {
            (Inst::ConstStr { data: d1 }, Inst::ConstStr { data: d2 }) => d1@ == d2@,
            _ => false,
        },
        k matches ExprKind::NoneLit ==> r1 == r2,
{
}

/// The expression compiler: the emitter tape it appends to, the global
/// scope, the local scope of the function being compiled if any, the
/// function table, and the source location of the node being lowered, kept
/// for diagnostics. The scopes and the table are populated by the statement
/// compiler and only read here.
pub struct Compiler {
    pub emitter: Emitter,
    pub globals: SymTable,
    pub locals: Option<SymTable>,
    pub funcs: FuncTable,
    pub loc: Loc,
}

/// The read-only symbol state of a compiler value.
pub open spec fn env_of(c: Compiler) -> Env {
    (
        c.globals.entries@,
        match c.locals {
            Some(l) => Some(l.entries@),
            None => None,
        },
        c.funcs.funcs@,
    )
}

impl Compiler {
    pub fn new() -> (r: Compiler)
        ensures
            env_of(r) == ((
                Seq::<Binding>::empty(),
                None::<Seq<Binding>>,
                Seq::<FuncSig>::empty(),
            )),
            r.emitter.insts@.len() == 0,
    {
        Compiler {
            emitter: Emitter::new(),
            globals: SymTable::new(),
            locals: None,
            funcs: FuncTable::new(),
            loc: Loc { row: 0, col: 0 },
        }
    }

    /// Opens the local scope of a function body; performed by the statement
    /// compiler when it starts compiling a function.
    pub fn enter_function(&mut self)
        ensures
            env_of(*final(self)) == ((
                env_of(*old(self)).0,
                Some(Seq::<Binding>::empty()),
                env_of(*old(self)).2,
            )),
            final(self).emitter == old(self).emitter,
    {
        self.locals = Some(SymTable::new());
    }

    /// Closes the local scope; performed by the statement compiler when the
    /// function's compilation ends.
    pub fn exit_function(&mut self)
        ensures
            env_of(*final(self)) == ((env_of(*old(self)).0, None::<Seq<Binding>>, env_of(
                *old(self),
            ).2)),
            final(self).emitter == old(self).emitter,
    {
        self.locals = None;
    }

    /// Records the source position of the node being lowered.
    pub fn set_source_location(&mut self, loc: Loc)
        ensures
            env_of(*final(self)) == env_of(*old(self)),
            final(self).emitter == old(self).emitter,
            final(self).loc == loc,
    {
        self.loc = loc;
    }

    /// Lowers a binary operator over already-lowered operands: the modeled
    /// target-specific operator emission, keyed by the operand type tags.
    pub fn compile_op(&mut self, a: Value, op: BinOp, b: Value) -> (r: Result<
        Value,
        CompileError,
    >)
        requires
            value_wf(a, old(self).emitter.insts@),
            value_wf(b, old(self).emitter.insts@),
        ensures
            env_of(*final(self)) == env_of(*old(self)),
            old(self).emitter.insts@.is_prefix_of(final(self).emitter.insts@),
            final(self).loc == old(self).loc,
            (match r {
                Ok(v) => {
                    &&& binop_result(type_of(a), type_of(b)) == Ok::<ValueType, LowerErr>(
                        type_of(v),
                    )
                    &&& value_wf(v, final(self).emitter.insts@)
                    &&& match value_handle(v) {
                        Some(h) => h.id == old(self).emitter.insts@.len(),
                        None => false,
                    }
                    &&& match (value_handle(a), value_handle(b)) {
                        (Some(ha), Some(hb)) => final(self).emitter.insts@ == old(
                            self,
                        ).emitter.insts@.push(
                            (Inst::Binop {
                                op,
                                lhs: ha.id,
                                rhs: hb.id,
                                repr: match repr_of_type(type_of(v)) {
                                    Some(rp) => rp,
                                    None => Repr::Int(0),
                                },
                            }),
                        ),
                        _ => false,
                    }
                },
                Err(er) => {
                    &&& binop_result(type_of(a), type_of(b)) == Err::<ValueType, LowerErr>(
                        view_err(er.kind),
                    )
                    &&& final(self).emitter.insts@ == old(self).emitter.insts@
                    &&& er.loc == old(self).loc
                },
            }),
    {
        let (ty, ha, hb): (ValueType, Handle, Handle) = match (a, b) {
            (Value::I8(x), Value::I8(y)) => (ValueType::I8, x, y),
            (Value::I8(x), Value::I16(y)) => (ValueType::I16, x, y),
            (Value::I16(x), Value::I8(y)) => (ValueType::I16, x, y),
            (Value::I16(x), Value::I16(y)) => (ValueType::I16, x, y),
            (Value::F32(x), Value::F32(y)) => (ValueType::F32, x, y),
            _ => {
                return Err(
                    CompileError { loc: self.loc, kind: ErrorKind::UnsupportedExpression },
                );
            },
        };
        let rp = repr_of(ty);
        let h = self.emitter.emit(Inst::Binop { op, lhs: ha.id, rhs: hb.id, repr: rp });
        proof {
            lemma_tape_push_prefix(
                old(self).emitter.insts@,
                (Inst::Binop { op, lhs: ha.id, rhs: hb.id, repr: rp }),
            );
        }
        Ok(from_parts(ty, h))
    }

    /// Applies the implicit cast an argument takes for its paired parameter
    /// and hands back the instruction index of the value actually passed.
    pub fn cast_argument(&mut self, v: Value, param: Repr) -> (r: Result<usize, CompileError>)
        requires
            value_wf(v, old(self).emitter.insts@),
        ensures
            env_of(*final(self)) == env_of(*old(self)),
            old(self).emitter.insts@.is_prefix_of(final(self).emitter.insts@),
            final(self).loc == old(self).loc,
            (match r {
                Ok(id) => {
                    &&& cast_rule(type_of(v), param) == Ok::<(), LowerErr>(())
                    &&& cast_effect(
                        old(self).emitter.insts@,
                        final(self).emitter.insts@,
                        v,
                        param,
                        id,
                    )
                },
                Err(er) => {
                    &&& cast_rule(type_of(v), param) == Err::<(), LowerErr>(view_err(er.kind))
                    &&& final(self).emitter.insts@ == old(self).emitter.insts@
                    &&& er.loc == old(self).loc
                },
            }),
    {
        match v {
            Value::I8(h) => match param {
                Repr::Int(w) => {
                    let hh = self.emitter.emit(Inst::IntCast { src: h.id, width: w });
                    proof {
                        lemma_tape_push_prefix(
                            old(self).emitter.insts@,
                            (Inst::IntCast { src: h.id, width: w }),
                        );
                    }
                    Ok(hh.id)
                },
                _ => Err(
                    CompileError { loc: self.loc, kind: ErrorKind::UnsupportedArgumentType },
                ),
            },
            Value::I16(h) => match param {
                Repr::Int(w) => {
                    let hh = self.emitter.emit(Inst::IntTrunc { src: h.id, width: w });
                    proof {
                        lemma_tape_push_prefix(
                            old(self).emitter.insts@,
                            (Inst::IntTrunc { src: h.id, width: w }),
                        );
                    }
                    Ok(hh.id)
                },
                _ => Err(
                    CompileError { loc: self.loc, kind: ErrorKind::UnsupportedArgumentType },
                ),
            },
            Value::F32(h) => Ok(h.id),
            Value::Str(h) => Ok(h.id),
            _ => Err(CompileError { loc: self.loc, kind: ErrorKind::UnsupportedArgumentType }),
        }
    }

    /// Lowers a comparison chain: every operand is lowered in source order
    /// and handed, with the operator sequence, to one comparison emission,
    /// whose value is a boolean.
    #[verifier::rlimit(60)]
    #[verifier::spinoff_prover]
    pub fn compile_comparison(&mut self, operands: &Vec<Expr>, ops: &Vec<CmpOp>) -> (r: Result<
        Value,
        CompileError,
    >)
        requires
            env_wf(env_of(*old(self))),
        ensures
            env_of(*final(self)) == env_of(*old(self)),
            old(self).emitter.insts@.is_prefix_of(final(self).emitter.insts@),
            final(self).loc == old(self).loc || list_has_loc(operands@, final(self).loc, 0),
            (match r {
                Ok(v) => compare_ok_post(*old(self), *final(self), operands@, ops@, v),
                Err(er) => compare_res(env_of(*old(self)), operands@, ops@) == Err::<
                    ValueType,
                    LowerErr,
                >(view_err(er.kind)) && er.loc == final(self).loc,
            }),
        decreases *operands, 0int, 0int,
    {
        if operands.len() < 2 || ops.len() != operands.len() - 1 {
            return Err(CompileError { loc: self.loc, kind: ErrorKind::UnsupportedExpression });
        }
        let ghost env = env_of(*self);
        let mut ids: Vec<usize> = Vec::new();
        let ghost mut gvals: Seq<Value> = Seq::empty();
        let mut i: usize = 0;
        let n = operands.len();
        while i < n
            invariant
                env_wf(env),
                env_of(*self) == env,
                env == env_of(*old(self)),
                old(self).emitter.insts@.is_prefix_of(self.emitter.insts@),
                i <= n,
                n == operands@.len(),
                n >= 2,
                ops@.len() + 1 == n,
                ids@.len() == i,
                gvals.len() == i,
                self.loc == old(self).loc || list_has_loc(operands@, self.loc, 0),
                cmp_chain_res(env, operands@, 0) == cmp_chain_res(env, operands@, i as int),
                forall|j: int|
                    0 <= j < i ==> {
                        &&& lower_res(env, operands@[j]) == Ok::<ValueType, LowerErr>(
                            type_of(#[trigger] gvals[j]),
                        )
                        &&& value_wf(gvals[j], self.emitter.insts@)
                        &&& match value_handle(gvals[j]) {
                            Some(h) => ids@[j] == h.id && old(self).emitter.insts@.len()
                                <= h.id,
                            None => false,
                        }
                    },
                forall|j: int, k: int|
                    #![trigger gvals[j], gvals[k]]
                    0 <= j < k < i ==> match (value_handle(gvals[j]), value_handle(
                        gvals[k],
                    )) {
                        (Some(a), Some(b)) => a.id < b.id,
                        _ => true,
                    },
            decreases n - i,
        {
            let ghost t_before = self.emitter.insts@;
            let v = match self.compile_expr(&operands[i]) {
                Ok(v) => v,
                Err(er) => {
                    proof {
                        lemma_tape_prefix_trans(
                            old(self).emitter.insts@,
                            t_before,
                            self.emitter.insts@,
                        );
                        lemma_list_has_loc(operands@, self.loc, i as int, 0);
                    }
                    return Err(er);
                },
            };
            proof {
                lemma_tape_prefix_trans(old(self).emitter.insts@, t_before, self.emitter.insts@);
                lemma_list_has_loc(operands@, self.loc, i as int, 0);
                assert forall|j: int| 0 <= j < i implies value_wf(
                    #[trigger] gvals[j],
                    self.emitter.insts@,
                ) by {
                    lemma_value_wf_mono(gvals[j], t_before, self.emitter.insts@);
                }
            }
            let id = match v {
                Value::I8(h) => h.id,
                Value::I16(h) => h.id,
                Value::F32(h) => h.id,
                _ => {
                    return Err(
                        CompileError { loc: self.loc, kind: ErrorKind::UnsupportedExpression },
                    );
                },
            };
            ids.push(id);
            proof {
                gvals = gvals.push(v);
            }
            i += 1;
        }
        let ops2 = copy_ops(ops);
        let ghost t_last = self.emitter.insts@;
        let ghost gids = ids@;
        let h = self.emitter.emit(Inst::Compare { operands: ids, ops: ops2 });
        proof {
            lemma_tape_push_prefix(t_last, self.emitter.insts@.last());
            lemma_tape_prefix_trans(old(self).emitter.insts@, t_last, self.emitter.insts@);
            assert forall|j: int| 0 <= j < n implies value_wf(
                #[trigger] gvals[j],
                self.emitter.insts@,
            ) by {
                lemma_value_wf_mono(gvals[j], t_last, self.emitter.insts@);
            }
            assert(cmp_operands_ok(
                env,
                operands@,
                old(self).emitter.insts@,
                self.emitter.insts@,
                gids,
                gvals,
            ));
            assert(exists|vs: Seq<Value>|
                cmp_operands_ok(
                    env,
                    operands@,
                    old(self).emitter.insts@,
                    self.emitter.insts@,
                    gids,
                    vs,
                ));
        }
        proof {
            assert(compare_res(env, operands@, ops@) == Ok::<ValueType, LowerErr>(
                ValueType::Bool,
            ));
            assert(value_wf(Value::Bool(h), self.emitter.insts@));
            assert(h.id + 1 == self.emitter.insts@.len());
            assert(match self.emitter.insts@.last() {
                Inst::Compare { operands: av, ops: o } => o@ == ops@ && av@ == gids,
                _ => false,
            });
            assert(compare_ok_post(*old(self), *self, operands@, ops@, Value::Bool(h)));
        }
        Ok(Value::Bool(h))
    }

    /// Resolves an identifier: the local scope first inside a function body,
    /// then the global scope.
    pub fn resolve(&self, name: &Vec<u8>) -> (r: Option<Symbol>)
        ensures
            r == resolve_name(env_of(*self), name@),
    {
        match &self.locals {
            Some(l) => match l.get(name) {
                Some(s) => Some(s),
                None => self.globals.get(name),
            },
            None => self.globals.get(name),
        }
    }

    /// Lowers a call. The callee must be a plain identifier; the first
    /// argument is lowered before resolution because overload selection
    /// depends on its type; arguments pair with declared parameters
    /// positionally up to the shorter of the two lengths, each paired one
    /// taking its implicit cast, while extra trailing arguments are still
    /// lowered for their effects but not passed; the call carries a
    /// tail-call hint and its value is inferred from the return
    /// representation.
    #[verifier::loop_isolation(false)]
    #[verifier::rlimit(60)]
    #[verifier::spinoff_prover]
    pub fn compile_expr_call(&mut self, callee: &Expr, args: &Vec<Expr>) -> (r: Result<
        Value,
        CompileError,
    >)
        requires
            env_wf(env_of(*old(self))),
        ensures
            env_of(*final(self)) == env_of(*old(self)),
            old(self).emitter.insts@.is_prefix_of(final(self).emitter.insts@),
            final(self).loc == old(self).loc || list_has_loc(args@, final(self).loc, 0),
            (match r {
                Ok(v) => call_ok_post(*old(self), *final(self), *callee, args@, v),
                Err(er) => call_res(env_of(*old(self)), *callee, args@) == Err::<
                    ValueType,
                    LowerErr,
                >(view_err(er.kind)) && er.loc == final(self).loc,
            }),
        decreases *args, 0int, 0int,
    {
        let ghost env = env_of(*self);
        let name: &Vec<u8> = match &callee.kind {
            ExprKind::Ident(n) => n,
            _ => {
                return Err(CompileError { loc: self.loc, kind: ErrorKind::UnsupportedCallee });
            },
        };
        let ghost cname = name@;
        // The first argument drives overload selection, so it is lowered
        // before the function is resolved.
        let mut first: Option<Value> = None;
        if args.len() > 0 {
            match self.compile_expr(&args[0]) {
                Ok(v) => {
                    first = Some(v);
                    proof {
                        lemma_list_has_loc(args@, self.loc, 0, 0);
                    }
                },
                Err(er) => {
                    proof {
                        lemma_list_has_loc(args@, self.loc, 0, 0);
                    }
                    return Err(er);
                },
            }
        }
        let fidx: usize = match self.funcs.get(name) {
            Some(i) => i,
            None => {
                match &first {
                    Some(v) => {
                        let mangled_name = mangle(name, get_type(v));
                        match self.funcs.get(&mangled_name) {
                            Some(i) => i,
                            None => {
                                return Err(
                                    CompileError {
                                        loc: self.loc,
                                        kind: ErrorKind::UndefinedFunction(clone_bytes(name)),
                                    },
                                );
                            },
                        }
                    },
                    None => {
                        return Err(
                            CompileError {
                                loc: self.loc,
                                kind: ErrorKind::UndefinedFunction(clone_bytes(name)),
                            },
                        );
                    },
                }
            },
        };
        proof {
            lemma_find_func_ok(env.2, cname);
            lemma_find_func_ok(env.2, mangled(cname, call_first_tag(env, args@)->0));
            assert(resolve_func(env, cname, call_first_tag(env, args@)) == Some(fidx as int));
        }
        let nparams = self.funcs.funcs[fidx].params.len();
        let ghost params = env.2[fidx as int].params@;
        let mut argv: Vec<usize> = Vec::new();
        let ghost mut gvals: Seq<Value> = Seq::empty();
        let mut i: usize = 0;
        let n = args.len();
        while i < n
            invariant
                env_wf(env),
                env_of(*self) == env,
                env == env_of(*old(self)),
                old(self).emitter.insts@.is_prefix_of(self.emitter.insts@),
                i <= n,
                n == args@.len(),
                0 <= fidx < env.2.len(),
                resolve_func(env, cname, call_first_tag(env, args@)) == Some(fidx as int),
                params == env.2[fidx as int].params@,
                nparams == params.len(),
                argv@.len() == vstd::math::min(i as int, nparams as int),
                self.loc == old(self).loc || list_has_loc(args@, self.loc, 0),
                args_check(env, args@, params, 0) == args_check(env, args@, params, i as int),
                n > 0 ==> match first {
                    Some(v) => value_wf(v, self.emitter.insts@) && lower_res(env, args@[0])
                        == Ok::<ValueType, LowerErr>(type_of(v)) && (match value_handle(v) {
                        Some(h) => old(self).emitter.insts@.len() <= h.id,
                        None => true,
                    }),
                    None => false,
                },
                gvals.len() == i,
                forall|j: int|
                    0 <= j < i ==> {
                        &&& lower_res(env, args@[j]) == Ok::<ValueType, LowerErr>(
                            type_of(#[trigger] gvals[j]),
                        )
                        &&& value_wf(gvals[j], self.emitter.insts@)
                        &&& match value_handle(gvals[j]) {
                            Some(h) => old(self).emitter.insts@.len() <= h.id,
                            None => true,
                        }
                    },
                forall|j: int, k: int|
                    #![trigger gvals[j], gvals[k]]
                    0 <= j < k < i ==> match (value_handle(gvals[j]), value_handle(
                        gvals[k],
                    )) {
                        (Some(a), Some(b)) => a.id < b.id,
                        _ => true,
                    },
                forall|j: int|
                    0 <= j < argv@.len() ==> j < gvals.len() && j < params.len()
                        && passed_arg_ok(
                        self.emitter.insts@,
                        gvals[j],
                        params[j],
                        #[trigger] argv@[j],
                    ),
            decreases n - i,
        {
            let v: Value = if i == 0 {
                match &first {
                    Some(v) => *v,
                    None => {
                        proof {
                            assert(false);
                        }
                        Value::Void
                    },
                }
            } else {
                let ghost tb = self.emitter.insts@;
                match self.compile_expr(&args[i]) {
                    Ok(v) => {
                        proof {
                            lemma_list_has_loc(args@, self.loc, i as int, 0);
                            lemma_tape_prefix_trans(
                                old(self).emitter.insts@,
                                tb,
                                self.emitter.insts@,
                            );
                            if n > 0 {
                                lemma_value_wf_mono(first->0, tb, self.emitter.insts@);
                            }
                            assert forall|j: int| 0 <= j < i implies value_wf(
                                #[trigger] gvals[j],
                                self.emitter.insts@,
                            ) by {
                                lemma_value_wf_mono(gvals[j], tb, self.emitter.insts@);
                            }
                            assert forall|j: int| 0 <= j < argv@.len() implies passed_arg_ok(
                                self.emitter.insts@,
                                gvals[j],
                                params[j],
                                #[trigger] argv@[j],
                            ) by {
                                lemma_passed_arg_mono(
                                    tb,
                                    self.emitter.insts@,
                                    gvals[j],
                                    params[j],
                                    argv@[j],
                                );
                            }
                        }
                        v
                    },
                    Err(er) => {
                        proof {
                            lemma_list_has_loc(args@, self.loc, i as int, 0);
                            lemma_tape_prefix_trans(
                                old(self).emitter.insts@,
                                tb,
                                self.emitter.insts@,
                            );
                            assert(args_check(env, args@, params, 0) == Err::<
                                (),
                                LowerErr,
                            >(view_err(er.kind)));
                        }
                        return Err(er);
                    },
                }
            };
            proof {
                gvals = gvals.push(v);
            }
            if i < nparams {
                let p: Repr = self.funcs.funcs[fidx].params[i];
                let ghost tb2 = self.emitter.insts@;
                match self.cast_argument(v, p) {
                    Ok(id) => {
                        argv.push(id);
                        proof {
                            lemma_tape_prefix_trans(
                                old(self).emitter.insts@,
                                tb2,
                                self.emitter.insts@,
                            );
                            if n > 0 {
                                lemma_value_wf_mono(first->0, tb2, self.emitter.insts@);
                            }
                            assert forall|j: int| 0 <= j <= i implies value_wf(
                                #[trigger] gvals[j],
                                self.emitter.insts@,
                            ) by {
                                lemma_value_wf_mono(gvals[j], tb2, self.emitter.insts@);
                            }
                            assert(passed_arg_ok(self.emitter.insts@, v, p, id));
                            assert forall|j: int|
                                0 <= j < argv@.len() - 1 implies passed_arg_ok(
                                self.emitter.insts@,
                                gvals[j],
                                params[j],
                                #[trigger] argv@[j],
                            ) by {
                                lemma_passed_arg_mono(
                                    tb2,
                                    self.emitter.insts@,
                                    gvals[j],
                                    params[j],
                                    argv@[j],
                                );
                            }
                        }
                    },
                    Err(er) => {
                        proof {
                            lemma_tape_prefix_trans(
                                old(self).emitter.insts@,
                                tb2,
                                self.emitter.insts@,
                            );
                            assert(args_check(env, args@, params, 0) == Err::<
                                (),
                                LowerErr,
                            >(view_err(er.kind)));
                        }
                        return Err(er);
                    },
                }
            }
            i += 1;
        }
        let ret: RetRepr = self.funcs.funcs[fidx].ret;
        let ghost t_pre = self.emitter.insts@;
        let ghost gargv = argv@;
        let cid = self.emitter.emit_call(fidx, argv, ret, true);
        proof {
            lemma_tape_push_prefix(t_pre, self.emitter.insts@.last());
            lemma_tape_prefix_trans(old(self).emitter.insts@, t_pre, self.emitter.insts@);
            assert forall|j: int| 0 <= j < n implies value_wf(
                #[trigger] gvals[j],
                self.emitter.insts@,
            ) by {
                lemma_value_wf_mono(gvals[j], t_pre, self.emitter.insts@);
            }
            assert forall|j: int| 0 <= j < gargv.len() implies passed_arg_ok(
                self.emitter.insts@,
                gvals[j],
                params[j],
                #[trigger] gargv[j],
            ) by {
                lemma_passed_arg_mono(
                    t_pre,
                    self.emitter.insts@,
                    gvals[j],
                    params[j],
                    gargv[j],
                );
            }
            assert(call_args_ok(
                env,
                args@,
                params,
                old(self).emitter.insts@,
                self.emitter.insts@,
                gargv,
                gvals,
            ));
            assert(call_inst_args(self.emitter.insts@.last()) == gargv);
            assert(exists|vs: Seq<Value>|
                call_args_ok(
                    env,
                    args@,
                    params,
                    old(self).emitter.insts@,
                    self.emitter.insts@,
                    call_inst_args(self.emitter.insts@.last()),
                    vs,
                ));
        }
        match ret {
            RetRepr::Int(w) => {
                if w == 8 {
                    let v = Value::I8(Handle { id: cid, repr: Repr::Int(8) });
                    proof {
                        assert(call_ok_post(*old(self), *self, *callee, args@, v));
                    }
                    Ok(v)
                } else if w == 16 {
                    let v = Value::I16(Handle { id: cid, repr: Repr::Int(16) });
                    proof {
                        assert(call_ok_post(*old(self), *self, *callee, args@, v));
                    }
                    Ok(v)
                } else {
                    Err(CompileError { loc: self.loc, kind: ErrorKind::UnsupportedReturnType })
                }
            },
            RetRepr::Float => {
                let v = Value::F32(Handle { id: cid, repr: Repr::Float });
                proof {
                    assert(call_ok_post(*old(self), *self, *callee, args@, v));
                }
                Ok(v)
            },
            RetRepr::Ptr => Err(
                CompileError { loc: self.loc, kind: ErrorKind::UnsupportedReturnType },
            ),
            RetRepr::Void => {
                proof {
                    assert(call_ok_post(*old(self), *self, *callee, args@, Value::Void));
                }
                Ok(Value::Void)
            },
        }
    }

    /// Lowers one expression node to a typed value, emitting its
    /// instructions in source order. This is the entry point the statement
    /// compiler invokes on each sub-expression.
    pub fn compile_expr(&mut self, e: &Expr) -> (r: Result<Value, CompileError>)
        requires
            env_wf(env_of(*old(self))),
        ensures
            env_of(*final(self)) == env_of(*old(self)),
            old(self).emitter.insts@.is_prefix_of(final(self).emitter.insts@),
            node_has_loc(*e, final(self).loc),
            (match r {
                Ok(v) => {
                    &&& lower_res(env_of(*old(self)), *e) == Ok::<ValueType, LowerErr>(
                        type_of(v),
                    )
                    &&& value_wf(v, final(self).emitter.insts@)
                    &&& match value_handle(v) {
                        Some(h) => old(self).emitter.insts@.len() <= h.id,
                        None => true,
                    }
                },
                Err(er) => lower_res(env_of(*old(self)), *e) == Err::<ValueType, LowerErr>(
                    view_err(er.kind),
                ) && er.loc == final(self).loc,
            }),
            lowering_effect(
                env_of(*old(self)),
                old(self).emitter.insts@,
                final(self).emitter.insts@,
                e.kind,
                r,
            ),
        decreases *e, 1int, 0int,
    {
        self.loc = e.loc;
        let ghost env = env_of(*self);
        match &e.kind {
            ExprKind::IntLit(n) => {
                let bits = trunc16_exec(*n);
                let ghost t0 = self.emitter.insts@;
                let h = self.emitter.emit(Inst::ConstInt { width: 16, bits });
                proof {
                    lemma_tape_push_prefix(t0, self.emitter.insts@.last());
                }
                Ok(Value::I16(h))
            },
            ExprKind::FloatLit(b) => {
                let ghost t0 = self.emitter.insts@;
                let h = self.emitter.emit(Inst::ConstF32 { bits: *b });
                proof {
                    lemma_tape_push_prefix(t0, self.emitter.insts@.last());
                }
                Ok(Value::F32(h))
            },
            ExprKind::ComplexLit => Err(
                CompileError { loc: self.loc, kind: ErrorKind::UnsupportedLiteral },
            ),
            ExprKind::StrLit(s) => {
                if self.locals.is_some() {
                    let data = clone_bytes(s);
                    let ghost t0 = self.emitter.insts@;
                    let h = self.emitter.emit(Inst::ConstStr { data });
                    proof {
                        lemma_tape_push_prefix(t0, self.emitter.insts@.last());
                    }
                    Ok(Value::Str(h))
                } else {
                    Err(CompileError { loc: self.loc, kind: ErrorKind::UnsupportedContext })
                }
            },
            ExprKind::BoolLit(bv) => {
                let bits: u16 = if *bv {
                    1
                } else {
                    0
                };
                let ghost t0 = self.emitter.insts@;
                let h = self.emitter.emit(Inst::ConstInt { width: 1, bits });
                proof {
                    lemma_tape_push_prefix(t0, self.emitter.insts@.last());
                }
                Ok(Value::Bool(h))
            },
            ExprKind::NoneLit => Ok(Value::Void),
            ExprKind::EllipsisLit => Err(
                CompileError { loc: self.loc, kind: ErrorKind::UnsupportedLiteral },
            ),
            ExprKind::Ident(name) => {
                match self.resolve(name) {
                    Some(sym) => {
                        proof {
                            lemma_resolve_wf(env, name@);
                        }
                        let rp = repr_of(sym.ty);
                        let ghost t0 = self.emitter.insts@;
                        let h = self.emitter.emit(Inst::Load { slot: sym.slot, repr: rp });
                        proof {
                            lemma_tape_push_prefix(t0, self.emitter.insts@.last());
                        }
                        Ok(from_parts(sym.ty, h))
                    },
                    None => Err(
                        CompileError {
                            loc: self.loc,
                            kind: ErrorKind::NameError(clone_bytes(name)),
                        },
                    ),
                }
            },
            ExprKind::Binop { lhs, op, rhs } => {
                let ghost t0 = self.emitter.insts@;
                let a = match self.compile_expr(lhs) {
                    Ok(v) => v,
                    Err(er) => {
                        return Err(er);
                    },
                };
                let ghost t1 = self.emitter.insts@;
                let b = match self.compile_expr(rhs) {
                    Ok(v) => v,
                    Err(er) => {
                        proof {
                            lemma_tape_prefix_trans(t0, t1, self.emitter.insts@);
                        }
                        return Err(er);
                    },
                };
                proof {
                    lemma_value_wf_mono(a, t1, self.emitter.insts@);
                    lemma_tape_prefix_trans(t0, t1, self.emitter.insts@);
                }
                let ghost t2 = self.emitter.insts@;
                let res = self.compile_op(a, *op, b);
                proof {
                    lemma_tape_prefix_trans(t0, t2, self.emitter.insts@);
                    if res is Ok {
                        lemma_value_wf_mono(a, t2, self.emitter.insts@);
                        lemma_value_wf_mono(b, t2, self.emitter.insts@);
                        assert(binop_operands_ok(
                            env,
                            **lhs,
                            *op,
                            **rhs,
                            t0,
                            self.emitter.insts@,
                            a,
                            b,
                            res->Ok_0,
                        ));
                    }
                }
                res
            },
            ExprKind::Unop { op, operand } => match &operand.kind {
                ExprKind::IntLit(n) => {
                    if *op == UnaryOp::Neg {
                        let bits = trunc16_neg_exec(*n);
                        let ghost t0 = self.emitter.insts@;
                        let h = self.emitter.emit(Inst::ConstInt { width: 16, bits });
                        proof {
                            lemma_tape_push_prefix(t0, self.emitter.insts@.last());
                        }
                        Ok(Value::I16(h))
                    } else {
                        Err(
                            CompileError {
                                loc: self.loc,
                                kind: ErrorKind::UnsupportedExpression,
                            },
                        )
                    }
                },
                ExprKind::FloatLit(b) => {
                    if *op == UnaryOp::Neg {
                        let nb: u32 = *b ^ 0x8000_0000;
                        let ghost t0 = self.emitter.insts@;
                        let h = self.emitter.emit(Inst::ConstF32 { bits: nb });
                        proof {
                            lemma_tape_push_prefix(t0, self.emitter.insts@.last());
                        }
                        Ok(Value::F32(h))
                    } else {
                        Err(
                            CompileError {
                                loc: self.loc,
                                kind: ErrorKind::UnsupportedExpression,
                            },
                        )
                    }
                },
                ExprKind::ComplexLit => Err(
                    CompileError { loc: self.loc, kind: ErrorKind::UnsupportedLiteral },
                ),
                _ => Err(
                    CompileError { loc: self.loc, kind: ErrorKind::UnsupportedUnaryOperand },
                ),
            },
            ExprKind::Compare { operands, ops } => self.compile_comparison(operands, ops),
            ExprKind::Call { callee, args } => self.compile_expr_call(callee, args),
            ExprKind::Attribute { .. } => Err(
                CompileError { loc: self.loc, kind: ErrorKind::UnsupportedExpression },
            ),
            ExprKind::Unsupported => Err(
                CompileError { loc: self.loc, kind: ErrorKind::UnsupportedExpression },
            ),
        }
    }
}

/// A fresh copy of an operator sequence, handed to the emitted comparison.
fn copy_ops(ops: &Vec<CmpOp>) -> (r: Vec<CmpOp>)
    ensures
        r@ == ops@,
{
    let mut r: Vec<CmpOp> = Vec::new();
    let n = ops.len();
    let mut i: usize = 0;
    while i < n
        invariant
            n == ops@.len(),
            i <= n,
            r@ == ops@.take(i as int),
        decreases n - i,
    {
        r.push(ops[i]);
        proof {
            assert(r@ =~= ops@.take(i + 1));
        }
        i += 1;
    }
    proof {
        assert(r@ =~= ops@);
    }
    r
}

} // verus!
