use vrl_op::expr::{BatchContext, Expr, Target};
use vrl_op::kind::{Kind, TypeDef};
use vrl_op::op::{Error, Node, Note, Op, Opcode, Span};
use vrl_op::value::{Value, ValueError};

fn span(start: usize, end: usize) -> Span {
    Span { start, end }
}

fn node(e: Expr) -> Node<Expr> {
    Node::new(span(0, 1), e)
}

fn build(lhs: Expr, opcode: Opcode, rhs: Expr) -> Op {
    Op::new(node(lhs), Node::new(span(2, 3), opcode), node(rhs)).unwrap()
}

fn lit(v: Value) -> Expr {
    Expr::Literal(v)
}

fn bytes(s: &str) -> Value {
    Value::Bytes(s.as_bytes().to_vec())
}

fn record(fields: Vec<Value>) -> Target {
    Target::new(fields)
}

fn eval(op: &Op) -> Result<Value, ValueError> {
    op.resolve(&mut record(vec![]))
}

fn int_expr() -> Expr {
    // an integer that is no literal
    Expr::Op(build(lit(Value::Integer(1)), Opcode::Add, lit(Value::Integer(1))))
}

#[test]
fn bytes_or_true_is_bytes_and_infallible() {
    let op = build(lit(bytes("foo")), Opcode::Or, lit(Value::Boolean(true)));
    assert_eq!(op.type_def(), TypeDef::new(Kind::bytes(), false));
    assert_eq!(eval(&op), Ok(bytes("foo")));
}

#[test]
fn null_or_true_is_boolean_and_infallible() {
    let op = build(lit(Value::Null), Opcode::Or, lit(Value::Boolean(true)));
    assert_eq!(op.type_def(), TypeDef::new(Kind::boolean(), false));
    assert_eq!(eval(&op), Ok(Value::Boolean(true)));
}

#[test]
fn one_div_zero_is_fallible_and_fails() {
    let op = build(lit(Value::Integer(1)), Opcode::Div, lit(Value::Integer(0)));
    assert_eq!(op.type_def(), TypeDef::new(Kind::float(), true));
    assert_eq!(eval(&op), Err(ValueError::DivideByZero));
}

#[test]
fn five_rem_zero_is_fallible_and_fails() {
    let op = build(lit(Value::Integer(5)), Opcode::Rem, lit(Value::Integer(0)));
    assert_eq!(op.type_def(), TypeDef::new(Kind::integer(), true));
    assert_eq!(eval(&op), Err(ValueError::RemainderByZero));
}

#[test]
fn chained_comparison_is_refused() {
    let inner = Op::new(
        Node::new(span(0, 1), Expr::Field(0)),
        Node::new(span(2, 3), Opcode::Lt),
        Node::new(span(4, 5), Expr::Field(1)),
    )
    .unwrap();
    let err = Op::new(
        Node::new(span(0, 5), Expr::Op(inner)),
        Node::new(span(6, 7), Opcode::Lt),
        Node::new(span(8, 9), Expr::Field(2)),
    )
    .unwrap_err();
    assert_eq!(err, Error::ChainedComparison { span: span(0, 5) });
    assert_eq!(err.code(), 650);
    assert_eq!(err.message(), "comparison operators can't be chained together");
    let labels = err.labels();
    assert_eq!(labels.len(), 1);
    assert_eq!(labels[0].span, span(0, 5));
    assert!(labels[0].primary);
    assert_eq!(
        err.notes(),
        vec![Note::SeeDocs(
            "comparisons".to_string(),
            "https://vector.dev/docs/reference/vrl/expressions/#comparison".to_string()
        )]
    );
}

#[test]
fn comparison_after_arithmetic_is_accepted() {
    let inner = build(Expr::Field(0), Opcode::Add, Expr::Field(1));
    let op = Op::new(
        Node::new(span(0, 5), Expr::Op(inner)),
        Node::new(span(6, 7), Opcode::Lt),
        Node::new(span(8, 9), Expr::Field(2)),
    );
    assert!(op.is_ok());
}

#[test]
fn merging_non_objects_is_refused() {
    let err = Op::new(
        Node::new(span(0, 1), lit(Value::Integer(1))),
        Node::new(span(2, 3), Opcode::Merge),
        Node::new(span(4, 7), lit(bytes("a"))),
    )
    .unwrap_err();
    assert_eq!(
        err,
        Error::MergeNonObjects { lhs_span: Some(span(0, 1)), rhs_span: Some(span(4, 7)) }
    );
    assert_eq!(err.code(), 652);
    assert_eq!(err.message(), "only objects can be merged");
    let labels = err.labels();
    assert_eq!(labels.len(), 2);
    assert_eq!(labels[0].message, "this expression must resolve to an object");
    assert_eq!(labels[1].span, span(4, 7));
    assert!(err.notes().is_empty());
}

#[test]
fn merging_object_with_non_object_names_one_side() {
    let err = Op::new(
        Node::new(span(0, 2), lit(Value::Object(vec![]))),
        Node::new(span(3, 4), Opcode::Merge),
        Node::new(span(5, 6), lit(Value::Null)),
    )
    .unwrap_err();
    assert_eq!(err, Error::MergeNonObjects { lhs_span: None, rhs_span: Some(span(5, 6)) });
    assert_eq!(err.labels().len(), 1);
}

#[test]
fn coalescing_an_infallible_side_is_refused() {
    let err = Op::new(
        Node::new(span(0, 1), lit(Value::Integer(1))),
        Node::new(span(2, 4), Opcode::Coalesce),
        Node::new(span(5, 6), lit(Value::Integer(2))),
    )
    .unwrap_err();
    assert_eq!(
        err,
        Error::UnnecessaryCoalesce { lhs_span: span(0, 1), rhs_span: span(5, 6), op_span: span(2, 4) }
    );
    assert_eq!(err.code(), 651);
    assert_eq!(err.message(), "unnecessary error coalescing operation");
    let labels = err.labels();
    assert_eq!(labels.len(), 3);
    assert_eq!(labels[0].message, "this expression can't fail");
    assert!(labels[0].primary);
    assert_eq!(labels[1].message, "this expression never resolves");
    assert!(!labels[1].primary);
    assert_eq!(labels[2].message, "remove this error coalescing operation");
    assert_eq!(labels[2].span, span(2, 4));
}

#[test]
fn batch_keeps_order_when_one_left_side_fails() {
    // (f0 % f1) + f2 over three records; the middle one divides by zero
    let lhs = Expr::Op(build(Expr::Field(0), Opcode::Rem, Expr::Field(1)));
    let op = build(lhs, Opcode::Add, Expr::Field(2));
    let rows = vec![
        vec![Value::Integer(7), Value::Integer(4), Value::Integer(10)],
        vec![Value::Integer(5), Value::Integer(0), Value::Integer(1)],
        vec![Value::Integer(9), Value::Integer(5), Value::Integer(1)],
    ];
    let mut batch = BatchContext::new(rows.iter().map(|r| record(r.clone_values())).collect());
    op.resolve_batch(&mut batch);
    assert_eq!(batch.resolved[0], Ok(Value::Integer(13)));
    assert_eq!(batch.resolved[1], Err(ValueError::RemainderByZero));
    assert_eq!(batch.resolved[2], Ok(Value::Integer(5)));
    for (i, r) in rows.iter().enumerate() {
        let alone = op.resolve(&mut record(r.clone_values()));
        assert_eq!(batch.resolved[i], alone);
    }
}

trait CloneValues {
    fn clone_values(&self) -> Vec<Value>;
}

impl CloneValues for Vec<Value> {
    fn clone_values(&self) -> Vec<Value> {
        self.iter().map(|v| v.duplicate()).collect()
    }
}

#[test]
fn batch_of_copies_resolves_alike() {
    let opcodes = [
        Opcode::Add,
        Opcode::Sub,
        Opcode::Mul,
        Opcode::Div,
        Opcode::Rem,
        Opcode::Eq,
        Opcode::Ne,
        Opcode::Gt,
        Opcode::Ge,
        Opcode::Lt,
        Opcode::Le,
        Opcode::Or,
        Opcode::And,
    ];
    for opcode in opcodes {
        let op = build(Expr::Field(0), opcode, Expr::Field(1));
        let row = vec![Value::Integer(6), Value::Integer(4)];
        let mut batch =
            BatchContext::new((0..4).map(|_| record(row.clone_values())).collect());
        op.resolve_batch(&mut batch);
        let alone = op.resolve(&mut record(row.clone_values()));
        assert_eq!(batch.len(), 4);
        for r in &batch.resolved {
            assert_eq!(*r, alone);
        }
    }
}

#[test]
fn batch_runs_short_circuit_record_by_record() {
    // f0 ?? (f1 = 7): the assignment happens only where f0 fails
    let lhs = Expr::Op(build(Expr::Field(0), Opcode::Div, Expr::Field(2)));
    let rhs = Expr::Assign(1, Box::new(lit(Value::Integer(7))));
    let op = Op::new(node(lhs), Node::new(span(2, 3), Opcode::Coalesce), node(rhs)).unwrap();
    let mut batch = BatchContext::new(vec![
        record(vec![Value::Integer(4), Value::Null, Value::Integer(2)]),
        record(vec![Value::Integer(4), Value::Null, Value::Integer(0)]),
    ]);
    op.resolve_batch(&mut batch);
    assert_eq!(batch.resolved[0], Ok(Value::Float(2_000_000)));
    assert_eq!(batch.resolved[1], Ok(Value::Integer(7)));
    assert_eq!(batch.targets[0].fields[1], Value::Null);
    assert_eq!(batch.targets[1].fields[1], Value::Integer(7));
}

#[test]
fn coalesce_skips_right_side_after_success() {
    let lhs = Expr::Op(build(Expr::Field(0), Opcode::Div, Expr::Field(1)));
    let rhs = Expr::Assign(2, Box::new(lit(Value::Integer(99))));
    let op = Op::new(node(lhs), Node::new(span(2, 3), Opcode::Coalesce), node(rhs)).unwrap();
    let mut t = record(vec![Value::Integer(4), Value::Integer(2), Value::Null]);
    assert_eq!(op.resolve(&mut t), Ok(Value::Float(2_000_000)));
    assert_eq!(t.fields[2], Value::Null);
}

#[test]
fn coalesce_takes_right_side_after_failure() {
    let lhs = Expr::Op(build(lit(Value::Integer(4)), Opcode::Div, lit(Value::Integer(0))));
    let rhs = Expr::Assign(0, Box::new(lit(Value::Integer(99))));
    let op = Op::new(node(lhs), Node::new(span(2, 3), Opcode::Coalesce), node(rhs)).unwrap();
    let mut t = record(vec![Value::Null]);
    assert_eq!(op.resolve(&mut t), Ok(Value::Integer(99)));
    assert_eq!(t.fields[0], Value::Integer(99));
}

#[test]
fn and_skips_right_side_after_null() {
    let rhs = Expr::Assign(0, Box::new(lit(Value::Boolean(true))));
    let op = build(lit(Value::Null), Opcode::And, rhs);
    let mut t = record(vec![Value::Integer(1)]);
    assert_eq!(op.resolve(&mut t), Ok(Value::Boolean(false)));
    assert_eq!(t.fields[0], Value::Integer(1));
}

#[test]
fn or_skips_right_side_after_truthy_value() {
    let rhs = Expr::Assign(0, Box::new(lit(Value::Integer(5))));
    let op = build(lit(bytes("x")), Opcode::Or, rhs);
    let mut t = record(vec![Value::Null]);
    assert_eq!(op.resolve(&mut t), Ok(bytes("x")));
    assert_eq!(t.fields[0], Value::Null);
}

#[test]
fn or_evaluates_right_side_after_false() {
    let rhs = Expr::Assign(0, Box::new(lit(Value::Integer(5))));
    let op = build(lit(Value::Boolean(false)), Opcode::Or, rhs);
    let mut t = record(vec![Value::Null]);
    assert_eq!(op.resolve(&mut t), Ok(Value::Integer(5)));
    assert_eq!(t.fields[0], Value::Integer(5));
}

#[test]
fn and_of_true_and_integer_fails() {
    let op = build(lit(Value::Boolean(true)), Opcode::And, lit(Value::Integer(1)));
    assert_eq!(
        eval(&op),
        Err(ValueError::Unsupported { opcode: Opcode::And, lhs: Kind::boolean(), rhs: Kind::integer() })
    );
    assert_eq!(op.type_def(), TypeDef::new(Kind::boolean(), true));
}

#[test]
fn and_of_true_and_null_is_false() {
    let op = build(lit(Value::Boolean(true)), Opcode::And, lit(Value::Null));
    assert_eq!(eval(&op), Ok(Value::Boolean(false)));
}

#[test]
fn division_type_follows_literal_divisor() {
    let op = build(int_expr(), Opcode::Div, lit(Value::Integer(2)));
    assert_eq!(op.type_def(), TypeDef::new(Kind::float(), false));
    let op = build(int_expr(), Opcode::Div, lit(Value::Float(500_000)));
    assert_eq!(op.type_def(), TypeDef::new(Kind::float(), false));
    let op = build(int_expr(), Opcode::Div, lit(Value::Integer(0)));
    assert_eq!(op.type_def(), TypeDef::new(Kind::float(), true));
    let op = build(Expr::Field(0), Opcode::Div, lit(Value::Integer(2)));
    assert_eq!(op.type_def(), TypeDef::new(Kind::float(), true));
    let op = build(int_expr(), Opcode::Div, Expr::Field(0));
    assert_eq!(op.type_def(), TypeDef::new(Kind::float(), true));
}

#[test]
fn remainder_type_follows_literal_divisor() {
    let op = build(int_expr(), Opcode::Rem, lit(Value::Integer(3)));
    assert_eq!(op.type_def(), TypeDef::new(Kind::integer(), false));
    let op = build(int_expr(), Opcode::Rem, lit(Value::Integer(0)));
    assert_eq!(op.type_def(), TypeDef::new(Kind::integer(), true));
    let op = build(int_expr(), Opcode::Rem, lit(Value::Float(1_500_000)));
    assert_eq!(op.type_def(), TypeDef::new(Kind::float(), false));
    let op = build(int_expr(), Opcode::Rem, lit(Value::Float(0)));
    assert_eq!(op.type_def(), TypeDef::new(Kind::float(), true));
    let op = build(int_expr(), Opcode::Rem, Expr::Field(0));
    assert_eq!(op.type_def(), TypeDef::new(Kind::integer().union(&Kind::float()), true));
}

#[test]
fn arithmetic_type_rules() {
    let add_bytes = build(lit(bytes("a")), Opcode::Add, lit(Value::Null));
    assert_eq!(add_bytes.type_def(), TypeDef::new(Kind::bytes(), false));
    let add_bytes_int = build(lit(bytes("a")), Opcode::Add, lit(Value::Integer(1)));
    assert_eq!(add_bytes_int.type_def(), TypeDef::new(Kind::bytes(), true));
    let mul_float = build(lit(Value::Float(1)), Opcode::Mul, lit(Value::Integer(2)));
    assert_eq!(mul_float.type_def(), TypeDef::new(Kind::float(), false));
    let sub_int = build(lit(Value::Integer(1)), Opcode::Sub, lit(Value::Integer(2)));
    assert_eq!(sub_int.type_def(), TypeDef::new(Kind::integer(), false));
    let mul_bytes = build(lit(Value::Integer(2)), Opcode::Mul, lit(bytes("ab")));
    assert_eq!(mul_bytes.type_def(), TypeDef::new(Kind::bytes(), false));
    let add_any = build(Expr::Field(0), Opcode::Add, Expr::Field(1));
    assert_eq!(
        add_any.type_def(),
        TypeDef::new(Kind::bytes().union(&Kind::integer()).union(&Kind::float()), true)
    );
    let sub_any = build(Expr::Field(0), Opcode::Sub, Expr::Field(1));
    assert_eq!(sub_any.type_def(), TypeDef::new(Kind::integer().union(&Kind::float()), true));
}

#[test]
fn comparison_and_logic_type_rules() {
    let eq = build(Expr::Field(0), Opcode::Eq, Expr::Field(1));
    assert_eq!(eq.type_def(), TypeDef::new(Kind::boolean(), false));
    let lt_bytes = build(lit(bytes("a")), Opcode::Lt, lit(bytes("b")));
    assert_eq!(lt_bytes.type_def(), TypeDef::new(Kind::boolean(), false));
    let lt_any = build(Expr::Field(0), Opcode::Lt, lit(Value::Integer(1)));
    assert_eq!(lt_any.type_def(), TypeDef::new(Kind::boolean(), true));
    let and_null = build(lit(Value::Null), Opcode::And, lit(Value::Boolean(true)));
    assert_eq!(and_null.type_def(), TypeDef::new(Kind::boolean(), false));
    let or_field = build(Expr::Field(0), Opcode::Or, lit(Value::Integer(1)));
    let mut expected = Kind::any();
    expected.null = false;
    assert_eq!(or_field.type_def(), TypeDef::new(expected, false));
    let or_bool = build(lit(Value::Boolean(false)), Opcode::Or, lit(Value::Integer(1)));
    assert_eq!(or_bool.type_def(), TypeDef::new(Kind::boolean().union(&Kind::integer()), false));
    let failing = Expr::Op(build(lit(Value::Integer(1)), Opcode::Div, Expr::Field(0)));
    let coalesce =
        Op::new(node(failing), Node::new(span(2, 3), Opcode::Coalesce), node(lit(bytes("z"))))
            .unwrap();
    assert_eq!(coalesce.type_def(), TypeDef::new(Kind::float().union(&Kind::bytes()), false));
    let merge = build(lit(Value::Object(vec![])), Opcode::Merge, lit(Value::Object(vec![])));
    assert_eq!(merge.type_def(), TypeDef::new(Kind::object(), false));
}

#[test]
fn arithmetic_results() {
    let cases: Vec<(Value, Opcode, Value, Result<Value, ValueError>)> = vec![
        (Value::Integer(1), Opcode::Add, Value::Integer(2), Ok(Value::Integer(3))),
        (Value::Integer(i64::MAX), Opcode::Add, Value::Integer(1), Ok(Value::Integer(i64::MIN))),
        (Value::Integer(7), Opcode::Sub, Value::Integer(10), Ok(Value::Integer(-3))),
        (Value::Integer(6), Opcode::Mul, Value::Integer(7), Ok(Value::Integer(42))),
        (bytes("a"), Opcode::Add, bytes("b"), Ok(bytes("ab"))),
        (Value::Null, Opcode::Add, bytes("b"), Ok(bytes("b"))),
        (bytes("ab"), Opcode::Mul, Value::Integer(3), Ok(bytes("ababab"))),
        (Value::Integer(0), Opcode::Mul, bytes("ab"), Ok(bytes(""))),
        (Value::Integer(4), Opcode::Div, Value::Integer(2), Ok(Value::Float(2_000_000))),
        (Value::Integer(1), Opcode::Div, Value::Integer(3), Ok(Value::Float(333_333))),
        (Value::Float(1_500_000), Opcode::Add, Value::Integer(1), Ok(Value::Float(2_500_000))),
        (Value::Float(1_500_000), Opcode::Mul, Value::Float(-2_000_000), Ok(Value::Float(-3_000_000))),
        (Value::Integer(7), Opcode::Rem, Value::Integer(-3), Ok(Value::Integer(1))),
        (Value::Integer(-7), Opcode::Rem, Value::Integer(3), Ok(Value::Integer(-1))),
        (Value::Integer(i64::MIN), Opcode::Rem, Value::Integer(-1), Ok(Value::Integer(0))),
        (Value::Float(5_500_000), Opcode::Rem, Value::Integer(2), Ok(Value::Float(1_500_000))),
        (Value::Float(1), Opcode::Rem, Value::Float(0), Err(ValueError::RemainderByZero)),
        (Value::Float(1), Opcode::Div, Value::Float(0), Err(ValueError::DivideByZero)),
        (Value::Integer(1), Opcode::Eq, Value::Float(1_000_000), Ok(Value::Boolean(true))),
        (bytes("a"), Opcode::Ne, bytes("a"), Ok(Value::Boolean(false))),
        (bytes("abc"), Opcode::Lt, bytes("abd"), Ok(Value::Boolean(true))),
        (bytes("ab"), Opcode::Ge, bytes("abc"), Ok(Value::Boolean(false))),
        (Value::Integer(1), Opcode::Lt, Value::Float(2_500_000), Ok(Value::Boolean(true))),
        (Value::Integer(3), Opcode::Le, Value::Integer(3), Ok(Value::Boolean(true))),
        (Value::Integer(3), Opcode::Gt, Value::Integer(3), Ok(Value::Boolean(false))),
    ];
    for (l, opcode, r, expected) in cases {
        let op = build(lit(l), opcode, lit(r));
        assert_eq!(eval(&op), expected, "{:?}", op);
    }
}

#[test]
fn unsupported_operands_fail() {
    let op = build(lit(bytes("a")), Opcode::Gt, lit(Value::Integer(1)));
    assert_eq!(
        eval(&op),
        Err(ValueError::Unsupported { opcode: Opcode::Gt, lhs: Kind::bytes(), rhs: Kind::integer() })
    );
    let op = build(lit(Value::Boolean(true)), Opcode::Sub, lit(Value::Integer(1)));
    assert!(matches!(eval(&op), Err(ValueError::Unsupported { .. })));
}

#[test]
fn huge_repetition_is_refused() {
    let op = build(lit(bytes("ab")), Opcode::Mul, lit(Value::Integer(i64::MAX)));
    assert_eq!(eval(&op), Err(ValueError::TooLarge));
}

fn entry(k: &str, v: Value) -> (Vec<u8>, Value) {
    (k.as_bytes().to_vec(), v)
}

#[test]
fn merge_lets_right_side_win() {
    let l = Value::Object(vec![entry("a", Value::Integer(1)), entry("b", Value::Integer(2))]);
    let r = Value::Object(vec![entry("b", Value::Integer(3)), entry("c", Value::Integer(4))]);
    let op = build(lit(l), Opcode::Merge, lit(r));
    assert_eq!(
        eval(&op),
        Ok(Value::Object(vec![
            entry("a", Value::Integer(1)),
            entry("b", Value::Integer(3)),
            entry("c", Value::Integer(4)),
        ]))
    );
}

#[test]
fn nested_objects_compare_by_content() {
    let make = || Value::Object(vec![entry("k", Value::Object(vec![entry("x", bytes("y"))]))]);
    let op = build(lit(make()), Opcode::Eq, lit(make()));
    assert_eq!(eval(&op), Ok(Value::Boolean(true)));
    let other = Value::Object(vec![entry("k", Value::Object(vec![]))]);
    let op = build(lit(make()), Opcode::Eq, lit(other));
    assert_eq!(eval(&op), Ok(Value::Boolean(false)));
}

#[test]
fn fields_read_and_write_the_record() {
    let op = build(Expr::Field(0), Opcode::Add, Expr::Field(5));
    let mut t = record(vec![bytes("a")]);
    assert_eq!(op.resolve(&mut t), Ok(bytes("a")));
    let assign = Expr::Assign(0, Box::new(Expr::Op(op)));
    let mut t = record(vec![bytes("a")]);
    assert_eq!(assign.resolve(&mut t), Ok(bytes("a")));
    assert_eq!(t.fields[0], bytes("a"));
}
