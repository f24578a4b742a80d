use dspython::ast::{BinOp, CmpOp, Expr, ExprKind, Loc, UnaryOp};
use dspython::compiler::{Compiler, ErrorKind};
use dspython::ir::Inst;
use dspython::value::{Repr, Value};

fn node(kind: ExprKind) -> Expr {
    Expr { loc: Loc { row: 1, col: 1 }, kind }
}

fn fresh() -> Compiler {
    Compiler::new()
}

#[test]
fn int_literal_lowers_to_i16_exact() {
    let mut c = fresh();
    let r = c.compile_expr(&node(ExprKind::IntLit(42)));
    match r {
        Ok(Value::I16(h)) => {
            assert_eq!(h.id, 0);
            assert_eq!(c.emitter.insts[0], Inst::ConstInt { width: 16, bits: 42 });
        }
        other => panic!("expected an I16 value, got {:?}", other),
    }
}

#[test]
fn int_literal_negative_is_twos_complement() {
    let mut c = fresh();
    let r = c.compile_expr(&node(ExprKind::IntLit(-1)));
    assert!(matches!(r, Ok(Value::I16(_))));
    assert_eq!(c.emitter.insts[0], Inst::ConstInt { width: 16, bits: 0xFFFF });
}

#[test]
fn int_literal_out_of_range_truncates_mod_65536() {
    let mut c = fresh();
    let r = c.compile_expr(&node(ExprKind::IntLit(65541)));
    assert!(r.is_ok());
    assert_eq!(c.emitter.insts[0], Inst::ConstInt { width: 16, bits: 5 });

    let mut c2 = fresh();
    let r2 = c2.compile_expr(&node(ExprKind::IntLit(-32769)));
    assert!(r2.is_ok());
    assert_eq!(c2.emitter.insts[0], Inst::ConstInt { width: 16, bits: 0x7FFF });
}

#[test]
fn int_literal_boundaries_kept_exactly() {
    let mut c = fresh();
    assert!(c.compile_expr(&node(ExprKind::IntLit(-32768))).is_ok());
    assert!(c.compile_expr(&node(ExprKind::IntLit(32767))).is_ok());
    assert_eq!(c.emitter.insts[0], Inst::ConstInt { width: 16, bits: 0x8000 });
    assert_eq!(c.emitter.insts[1], Inst::ConstInt { width: 16, bits: 0x7FFF });
}

#[test]
fn float_literal_lowers_to_f32() {
    let mut c = fresh();
    let bits = (1.5f32).to_bits();
    let r = c.compile_expr(&node(ExprKind::FloatLit(bits)));
    assert!(matches!(r, Ok(Value::F32(_))));
    assert_eq!(c.emitter.insts[0], Inst::ConstF32 { bits });
}

#[test]
fn complex_literal_is_unsupported() {
    let mut c = fresh();
    let r = c.compile_expr(&node(ExprKind::ComplexLit));
    match r {
        Err(e) => assert_eq!(e.kind, ErrorKind::UnsupportedLiteral),
        Ok(_) => panic!("a complex literal must not lower"),
    }
}

#[test]
fn ellipsis_literal_is_unsupported() {
    let mut c = fresh();
    let r = c.compile_expr(&node(ExprKind::EllipsisLit));
    match r {
        Err(e) => assert_eq!(e.kind, ErrorKind::UnsupportedLiteral),
        Ok(_) => panic!("an ellipsis literal must not lower"),
    }
}

#[test]
fn bool_literals_are_one_bit_constants() {
    let mut c = fresh();
    let rt = c.compile_expr(&node(ExprKind::BoolLit(true)));
    let rf = c.compile_expr(&node(ExprKind::BoolLit(false)));
    assert!(matches!(rt, Ok(Value::Bool(_))));
    assert!(matches!(rf, Ok(Value::Bool(_))));
    assert_eq!(c.emitter.insts[0], Inst::ConstInt { width: 1, bits: 1 });
    assert_eq!(c.emitter.insts[1], Inst::ConstInt { width: 1, bits: 0 });
}

#[test]
fn none_literal_is_void_and_emits_nothing() {
    let mut c = fresh();
    let r = c.compile_expr(&node(ExprKind::NoneLit));
    assert!(matches!(r, Ok(Value::Void)));
    assert_eq!(c.emitter.insts.len(), 0);
}

#[test]
fn string_inside_function_is_a_pointer_constant() {
    let mut c = fresh();
    c.enter_function();
    let r = c.compile_expr(&node(ExprKind::StrLit(b"hi".to_vec())));
    assert!(matches!(r, Ok(Value::Str(_))));
    assert_eq!(c.emitter.insts[0], Inst::ConstStr { data: b"hi".to_vec() });
}

#[test]
fn string_outside_function_fails() {
    let mut c = fresh();
    let r = c.compile_expr(&node(ExprKind::StrLit(b"hi".to_vec())));
    match r {
        Err(e) => assert_eq!(e.kind, ErrorKind::UnsupportedContext),
        Ok(_) => panic!("a global string must not lower"),
    }
    assert_eq!(c.emitter.insts.len(), 0);
}

#[test]
fn negated_int_literal_folds() {
    let mut c = fresh();
    let r = c.compile_expr(
        &node(ExprKind::Unop {
            op: UnaryOp::Neg,
            operand: Box::new(node(ExprKind::IntLit(5))),
        }),
    );
    assert!(matches!(r, Ok(Value::I16(_))));
    assert_eq!(c.emitter.insts[0], Inst::ConstInt { width: 16, bits: 0xFFFB });
}

#[test]
fn negated_float_literal_flips_sign() {
    let mut c = fresh();
    let bits = (2.0f32).to_bits();
    let r = c.compile_expr(
        &node(ExprKind::Unop {
            op: UnaryOp::Neg,
            operand: Box::new(node(ExprKind::FloatLit(bits))),
        }),
    );
    assert!(matches!(r, Ok(Value::F32(_))));
    assert_eq!(c.emitter.insts[0], Inst::ConstF32 { bits: (-2.0f32).to_bits() });
}

#[test]
fn negation_of_non_literal_fails() {
    let mut c = fresh();
    let r = c.compile_expr(
        &node(ExprKind::Unop {
            op: UnaryOp::Neg,
            operand: Box::new(node(ExprKind::Ident(b"x".to_vec()))),
        }),
    );
    match r {
        Err(e) => assert_eq!(e.kind, ErrorKind::UnsupportedUnaryOperand),
        Ok(_) => panic!("negating an identifier must not lower"),
    }
}

#[test]
fn non_negation_unary_on_literal_fails() {
    let mut c = fresh();
    let r = c.compile_expr(
        &node(ExprKind::Unop {
            op: UnaryOp::Not,
            operand: Box::new(node(ExprKind::IntLit(1))),
        }),
    );
    match r {
        Err(e) => assert_eq!(e.kind, ErrorKind::UnsupportedExpression),
        Ok(_) => panic!("an unsupported unary operator must not lower"),
    }
}

#[test]
fn binop_lowers_operands_left_to_right() {
    let mut c = fresh();
    let r = c.compile_expr(
        &node(ExprKind::Binop {
            lhs: Box::new(node(ExprKind::IntLit(1))),
            op: BinOp::Add,
            rhs: Box::new(node(ExprKind::IntLit(2))),
        }),
    );
    assert!(matches!(r, Ok(Value::I16(_))));
    assert_eq!(c.emitter.insts[0], Inst::ConstInt { width: 16, bits: 1 });
    assert_eq!(c.emitter.insts[1], Inst::ConstInt { width: 16, bits: 2 });
    assert_eq!(
        c.emitter.insts[2],
        Inst::Binop { op: BinOp::Add, lhs: 0, rhs: 1, repr: Repr::Int(16) }
    );
}

#[test]
fn comparison_chain_is_boolean() {
    let mut c = fresh();
    let r = c.compile_expr(
        &node(ExprKind::Compare {
            operands: vec![
                node(ExprKind::IntLit(1)),
                node(ExprKind::IntLit(2)),
                node(ExprKind::IntLit(3)),
            ],
            ops: vec![CmpOp::Lt, CmpOp::Lt],
        }),
    );
    assert!(matches!(r, Ok(Value::Bool(_))));
    assert_eq!(
        c.emitter.insts[3],
        Inst::Compare { operands: vec![0, 1, 2], ops: vec![CmpOp::Lt, CmpOp::Lt] }
    );
}

#[test]
fn literal_lowering_is_idempotent() {
    let mut c = fresh();
    let e = node(ExprKind::IntLit(9));
    let r1 = c.compile_expr(&e);
    let r2 = c.compile_expr(&e);
    match (r1, r2) {
        (Ok(Value::I16(_)), Ok(Value::I16(_))) => {
            assert_eq!(c.emitter.insts[0], c.emitter.insts[1]);
        }
        other => panic!("both lowerings must yield I16, got {:?}", other),
    }
}

#[test]
fn binop_mixed_int_float_is_unsupported() {
    let mut c = fresh();
    let r = c.compile_expr(
        &node(ExprKind::Binop {
            lhs: Box::new(node(ExprKind::IntLit(1))),
            op: BinOp::Add,
            rhs: Box::new(node(ExprKind::FloatLit((2.0f32).to_bits()))),
        }),
    );
    match r {
        Err(e) => assert_eq!(e.kind, ErrorKind::UnsupportedExpression),
        Ok(_) => panic!("mixed operand types must not lower"),
    }
}

#[test]
fn comparison_with_non_numeric_operand_fails() {
    let mut c = fresh();
    let r = c.compile_expr(
        &node(ExprKind::Compare {
            operands: vec![node(ExprKind::BoolLit(true)), node(ExprKind::IntLit(1))],
            ops: vec![CmpOp::Lt],
        }),
    );
    match r {
        Err(e) => assert_eq!(e.kind, ErrorKind::UnsupportedExpression),
        Ok(_) => panic!("a boolean comparison operand must not lower"),
    }
}

#[test]
fn unsupported_node_kind_is_refused() {
    let mut c = fresh();
    let r = c.compile_expr(&node(ExprKind::Unsupported));
    match r {
        Err(e) => assert_eq!(e.kind, ErrorKind::UnsupportedExpression),
        Ok(_) => panic!("an unsupported node must not lower"),
    }
}

#[test]
fn attribute_expression_is_unsupported() {
    let mut c = fresh();
    let r = c.compile_expr(
        &node(ExprKind::Attribute {
            value: Box::new(node(ExprKind::Ident(b"a".to_vec()))),
            attr: b"b".to_vec(),
        }),
    );
    match r {
        Err(e) => assert_eq!(e.kind, ErrorKind::UnsupportedExpression),
        Ok(_) => panic!("an attribute access must not lower"),
    }
}
