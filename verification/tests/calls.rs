use dspython::ast::{BinOp, Expr, ExprKind, Loc};
use dspython::compiler::{Compiler, ErrorKind};
use dspython::ir::{Inst, RetRepr};
use dspython::names::mangle;
use dspython::table::FuncSig;
use dspython::value::{Repr, Value, ValueType};

fn node(kind: ExprKind) -> Expr {
    Expr { loc: Loc { row: 1, col: 1 }, kind }
}

fn call(name: &[u8], args: Vec<Expr>) -> Expr {
    node(ExprKind::Call {
        callee: Box::new(node(ExprKind::Ident(name.to_vec()))),
        args,
    })
}

#[test]
fn mangled_name_has_plain_name_and_tag() {
    assert_eq!(mangle(&b"f".to_vec(), ValueType::I16), b"f_h".to_vec());
    assert_eq!(mangle(&b"f".to_vec(), ValueType::F32), b"f_f".to_vec());
    assert_ne!(
        mangle(&b"f".to_vec(), ValueType::I8),
        mangle(&b"f".to_vec(), ValueType::I16)
    );
}

#[test]
fn plain_name_resolves_directly() {
    let mut c = Compiler::new();
    c.funcs.declare(FuncSig {
        name: b"f".to_vec(),
        params: vec![Repr::Int(16)],
        ret: RetRepr::Int(16),
    });
    let r = c.compile_expr(&call(b"f", vec![node(ExprKind::IntLit(7))]));
    assert!(matches!(r, Ok(Value::I16(_))));
    let last = c.emitter.insts.last().unwrap();
    assert_eq!(
        *last,
        Inst::Call { func: 0, args: vec![1], ret: RetRepr::Int(16), tail: true }
    );
}

#[test]
fn overload_dispatches_through_mangled_name() {
    let mut c = Compiler::new();
    c.funcs.declare(FuncSig {
        name: mangle(&b"f".to_vec(), ValueType::I16),
        params: vec![Repr::Int(16)],
        ret: RetRepr::Int(16),
    });
    let r = c.compile_expr(&call(b"f", vec![node(ExprKind::IntLit(7))]));
    assert!(matches!(r, Ok(Value::I16(_))));
    let last = c.emitter.insts.last().unwrap();
    assert_eq!(
        *last,
        Inst::Call { func: 0, args: vec![1], ret: RetRepr::Int(16), tail: true }
    );
}

#[test]
fn undefined_function_reports_plain_name() {
    let mut c = Compiler::new();
    let r = c.compile_expr(&call(b"g", vec![node(ExprKind::IntLit(1))]));
    match r {
        Err(e) => assert_eq!(e.kind, ErrorKind::UndefinedFunction(b"g".to_vec())),
        Ok(_) => panic!("an undefined function must not lower"),
    }
}

#[test]
fn zero_argument_call_needs_plain_name() {
    let mut c = Compiler::new();
    c.funcs.declare(FuncSig {
        name: mangle(&b"h".to_vec(), ValueType::I16),
        params: vec![],
        ret: RetRepr::Void,
    });
    let r = c.compile_expr(&call(b"h", vec![]));
    match r {
        Err(e) => assert_eq!(e.kind, ErrorKind::UndefinedFunction(b"h".to_vec())),
        Ok(_) => panic!("a zero-argument call has no mangled fallback"),
    }
}

#[test]
fn zero_argument_call_on_plain_name_is_void() {
    let mut c = Compiler::new();
    c.funcs.declare(FuncSig { name: b"h".to_vec(), params: vec![], ret: RetRepr::Void });
    let r = c.compile_expr(&call(b"h", vec![]));
    assert!(matches!(r, Ok(Value::Void)));
    assert_eq!(
        c.emitter.insts[0],
        Inst::Call { func: 0, args: vec![], ret: RetRepr::Void, tail: true }
    );
}

#[test]
fn i16_argument_truncates_to_i8_parameter() {
    let mut c = Compiler::new();
    c.funcs.declare(FuncSig {
        name: b"f".to_vec(),
        params: vec![Repr::Int(8)],
        ret: RetRepr::Int(8),
    });
    let r = c.compile_expr(&call(b"f", vec![node(ExprKind::IntLit(300))]));
    assert!(matches!(r, Ok(Value::I8(_))));
    assert_eq!(c.emitter.insts[0], Inst::ConstInt { width: 16, bits: 300 });
    assert_eq!(c.emitter.insts[1], Inst::IntTrunc { src: 0, width: 8 });
    assert_eq!(
        c.emitter.insts[2],
        Inst::Call { func: 0, args: vec![1], ret: RetRepr::Int(8), tail: true }
    );
}

#[test]
fn i8_argument_widens_to_i16_parameter() {
    let mut c = Compiler::new();
    // An I8 value only arises from a call's return.
    c.funcs.declare(FuncSig { name: b"inner".to_vec(), params: vec![], ret: RetRepr::Int(8) });
    c.funcs.declare(FuncSig {
        name: b"outer".to_vec(),
        params: vec![Repr::Int(16)],
        ret: RetRepr::Int(16),
    });
    let inner_call = call(b"inner", vec![]);
    let r = c.compile_expr(&call(b"outer", vec![inner_call]));
    assert!(matches!(r, Ok(Value::I16(_))));
    assert_eq!(
        c.emitter.insts[0],
        Inst::Call { func: 0, args: vec![], ret: RetRepr::Int(8), tail: true }
    );
    assert_eq!(c.emitter.insts[1], Inst::IntCast { src: 0, width: 16 });
    assert_eq!(
        c.emitter.insts[2],
        Inst::Call { func: 1, args: vec![1], ret: RetRepr::Int(16), tail: true }
    );
}

#[test]
fn extra_arguments_are_lowered_but_not_passed() {
    let mut c = Compiler::new();
    c.funcs.declare(FuncSig {
        name: b"k".to_vec(),
        params: vec![Repr::Int(16)],
        ret: RetRepr::Void,
    });
    let r = c.compile_expr(&call(
        b"k",
        vec![
            node(ExprKind::IntLit(1)),
            node(ExprKind::IntLit(2)),
            node(ExprKind::IntLit(3)),
        ],
    ));
    assert!(matches!(r, Ok(Value::Void)));
    // All three arguments were lowered in source order ...
    assert_eq!(c.emitter.insts[0], Inst::ConstInt { width: 16, bits: 1 });
    assert_eq!(c.emitter.insts[1], Inst::IntTrunc { src: 0, width: 16 });
    assert_eq!(c.emitter.insts[2], Inst::ConstInt { width: 16, bits: 2 });
    assert_eq!(c.emitter.insts[3], Inst::ConstInt { width: 16, bits: 3 });
    // ... but only the first is passed.
    assert_eq!(
        c.emitter.insts[4],
        Inst::Call { func: 0, args: vec![1], ret: RetRepr::Void, tail: true }
    );
}

#[test]
fn extra_parameters_are_dropped() {
    let mut c = Compiler::new();
    c.funcs.declare(FuncSig {
        name: b"k".to_vec(),
        params: vec![Repr::Int(16), Repr::Int(16)],
        ret: RetRepr::Void,
    });
    let r = c.compile_expr(&call(b"k", vec![node(ExprKind::IntLit(1))]));
    assert!(matches!(r, Ok(Value::Void)));
    assert_eq!(
        c.emitter.insts[2],
        Inst::Call { func: 0, args: vec![1], ret: RetRepr::Void, tail: true }
    );
}

#[test]
fn computed_callee_is_unsupported() {
    let mut c = Compiler::new();
    let computed = node(ExprKind::Binop {
        lhs: Box::new(node(ExprKind::IntLit(1))),
        op: BinOp::Add,
        rhs: Box::new(node(ExprKind::IntLit(2))),
    });
    let r = c.compile_expr(
        &node(ExprKind::Call { callee: Box::new(computed), args: vec![] }),
    );
    match r {
        Err(e) => assert_eq!(e.kind, ErrorKind::UnsupportedCallee),
        Ok(_) => panic!("a computed callee must not lower"),
    }
    // Resolution was never attempted and nothing was emitted.
    assert_eq!(c.emitter.insts.len(), 0);
}

#[test]
fn bool_argument_has_no_casting_rule() {
    let mut c = Compiler::new();
    c.funcs.declare(FuncSig {
        name: b"f".to_vec(),
        params: vec![Repr::Int(8)],
        ret: RetRepr::Void,
    });
    let r = c.compile_expr(&call(b"f", vec![node(ExprKind::BoolLit(true))]));
    match r {
        Err(e) => assert_eq!(e.kind, ErrorKind::UnsupportedArgumentType),
        Ok(_) => panic!("a boolean argument must not be passed"),
    }
}

#[test]
fn float_and_string_arguments_pass_through() {
    let mut c = Compiler::new();
    c.enter_function();
    c.funcs.declare(FuncSig {
        name: b"f".to_vec(),
        params: vec![Repr::Float, Repr::Ptr],
        ret: RetRepr::Void,
    });
    let bits = (3.5f32).to_bits();
    let r = c.compile_expr(&call(
        b"f",
        vec![node(ExprKind::FloatLit(bits)), node(ExprKind::StrLit(b"s".to_vec()))],
    ));
    assert!(matches!(r, Ok(Value::Void)));
    // No cast instruction stands between the constants and the call.
    assert_eq!(
        c.emitter.insts[2],
        Inst::Call { func: 0, args: vec![0, 1], ret: RetRepr::Void, tail: true }
    );
}

#[test]
fn float_return_becomes_f32() {
    let mut c = Compiler::new();
    c.funcs.declare(FuncSig {
        name: b"f".to_vec(),
        params: vec![Repr::Int(16)],
        ret: RetRepr::Float,
    });
    let r = c.compile_expr(&call(b"f", vec![node(ExprKind::IntLit(1))]));
    assert!(matches!(r, Ok(Value::F32(_))));
}

#[test]
fn pointer_return_is_not_handled() {
    let mut c = Compiler::new();
    c.funcs.declare(FuncSig {
        name: b"f".to_vec(),
        params: vec![Repr::Int(16)],
        ret: RetRepr::Ptr,
    });
    let r = c.compile_expr(&call(b"f", vec![node(ExprKind::IntLit(1))]));
    match r {
        Err(e) => assert_eq!(e.kind, ErrorKind::UnsupportedReturnType),
        Ok(_) => panic!("a pointer return must not be carried"),
    }
}

#[test]
fn odd_integer_return_width_is_refused() {
    let mut c = Compiler::new();
    c.funcs.declare(FuncSig {
        name: b"f".to_vec(),
        params: vec![Repr::Int(16)],
        ret: RetRepr::Int(32),
    });
    let r = c.compile_expr(&call(b"f", vec![node(ExprKind::IntLit(1))]));
    match r {
        Err(e) => assert_eq!(e.kind, ErrorKind::UnsupportedReturnType),
        Ok(_) => panic!("a 32-bit return must not be carried"),
    }
}

#[test]
fn call_result_feeds_an_operator() {
    let mut c = Compiler::new();
    c.funcs.declare(FuncSig {
        name: b"f".to_vec(),
        params: vec![Repr::Int(16)],
        ret: RetRepr::Int(16),
    });
    let lhs = call(b"f", vec![node(ExprKind::IntLit(1))]);
    let r = c.compile_expr(&node(ExprKind::Binop {
        lhs: Box::new(lhs),
        op: BinOp::Add,
        rhs: Box::new(node(ExprKind::IntLit(2))),
    }));
    assert!(matches!(r, Ok(Value::I16(_))));
    assert_eq!(
        c.emitter.insts[4],
        Inst::Binop { op: BinOp::Add, lhs: 2, rhs: 3, repr: Repr::Int(16) }
    );
}

#[test]
fn nested_failure_reports_the_failing_node_location() {
    let mut c = Compiler::new();
    c.funcs.declare(FuncSig {
        name: b"f".to_vec(),
        params: vec![Repr::Int(16)],
        ret: RetRepr::Void,
    });
    let bad = Expr { loc: Loc { row: 9, col: 4 }, kind: ExprKind::Ident(b"gone".to_vec()) };
    let callee = Expr { loc: Loc { row: 9, col: 1 }, kind: ExprKind::Ident(b"f".to_vec()) };
    let e = Expr {
        loc: Loc { row: 9, col: 0 },
        kind: ExprKind::Call { callee: Box::new(callee), args: vec![bad] },
    };
    match c.compile_expr(&e) {
        Err(er) => {
            assert_eq!(er.kind, ErrorKind::NameError(b"gone".to_vec()));
            assert_eq!(er.loc, Loc { row: 9, col: 4 });
        }
        Ok(_) => panic!("an unbound argument must not lower"),
    }
}

#[test]
fn first_argument_error_stops_the_call() {
    let mut c = Compiler::new();
    c.funcs.declare(FuncSig {
        name: b"f".to_vec(),
        params: vec![Repr::Int(16)],
        ret: RetRepr::Void,
    });
    let r = c.compile_expr(&call(b"f", vec![node(ExprKind::Ident(b"missing".to_vec()))]));
    match r {
        Err(e) => assert_eq!(e.kind, ErrorKind::NameError(b"missing".to_vec())),
        Ok(_) => panic!("an unbound argument must not lower"),
    }
}
