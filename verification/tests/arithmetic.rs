use sql_grammar::arithmetic::{
    arithmetic_base, arithmetic_expression, ArithmeticBase, ArithmeticExpression,
    ArithmeticOperator,
};
use sql_grammar::column::{Column, FunctionExpression};
use sql_grammar::common::Literal;
use sql_grammar::arithmetic::ArithmeticBase::Column as ABColumn;
use sql_grammar::arithmetic::ArithmeticOperator::{Add, Subtract, Multiply, Divide};

fn col(name: &str) -> Column {
    Column { name: name.as_bytes().to_vec(), table: None, function: None }
}

fn scalar(v: i64) -> ArithmeticBase {
    ArithmeticBase::Scalar(Literal::Integer(v))
}

#[test]
fn it_parses_arithmetic_expressions() {
    let lit_ae = ["5 + 42", "5+42", "5 * 42", "5 - 42", "5 / 42", "2 * 10"];

    let col_lit_ae = ["foo+5", "foo + 5", "5 + foo ", "foo * bar", "MAX(foo)-3333"];

    let expected_lit_ae = [
        ArithmeticExpression::new(Add, scalar(5), scalar(42)),
        ArithmeticExpression::new(Add, scalar(5), scalar(42)),
        ArithmeticExpression::new(Multiply, scalar(5), scalar(42)),
        ArithmeticExpression::new(Subtract, scalar(5), scalar(42)),
        ArithmeticExpression::new(Divide, scalar(5), scalar(42)),
        ArithmeticExpression::new(Multiply, scalar(2), scalar(10)),
    ];
    let expected_col_lit_ae = [
        ArithmeticExpression::new(Add, ABColumn(col("foo")), scalar(5)),
        ArithmeticExpression::new(Add, ABColumn(col("foo")), scalar(5)),
        ArithmeticExpression::new(Add, scalar(5), ABColumn(col("foo"))),
        ArithmeticExpression::new(Multiply, ABColumn(col("foo")), ABColumn(col("bar"))),
        ArithmeticExpression::new(
            Subtract,
            ABColumn(Column {
                name: b"max(foo)".to_vec(),
                table: None,
                function: Some(Box::new(FunctionExpression::Max(col("foo")))),
            }),
            scalar(3333),
        ),
    ];

    for (i, e) in lit_ae.iter().enumerate() {
        let res = arithmetic_expression(e.as_bytes(), 0);
        assert!(res.is_some());
        assert_eq!(res.unwrap().1, expected_lit_ae[i]);
    }

    for (i, e) in col_lit_ae.iter().enumerate() {
        let res = arithmetic_expression(e.as_bytes(), 0);
        assert!(res.is_some());
        assert_eq!(res.unwrap().1, expected_col_lit_ae[i]);
    }
}

#[test]
fn it_displays_arithmetic_expressions() {
    let expressions = [
        ArithmeticExpression::new(Add, ABColumn(col("foo")), scalar(5)),
        ArithmeticExpression::new(Subtract, scalar(5), ABColumn(col("foo"))),
        ArithmeticExpression::new(Multiply, ABColumn(col("foo")), ABColumn(col("bar"))),
        ArithmeticExpression::new(Divide, scalar(10), scalar(2)),
        ArithmeticExpression::new(Add, scalar(10), scalar(2)),
    ];

    let expected_strings = ["foo + 5", "5 - foo", "foo * bar", "10 / 2", "10 + 2"];
    for (i, e) in expressions.iter().enumerate() {
        assert_eq!(expected_strings[i].as_bytes().to_vec(), e.display());
    }
}

#[test]
fn base_prefers_scalar_over_column() {
    let res = arithmetic_base(b"5", 0);
    assert_eq!(res.unwrap(), (1, scalar(5)));
    let res = arithmetic_base(b"foo", 0);
    assert_eq!(res.unwrap(), (3, ArithmeticBase::Column(col("foo"))));
}

#[test]
fn round_trips_rendered_expressions() {
    let expressions = [
        ArithmeticExpression::new(Add, scalar(0), scalar(9223372036854775807)),
        ArithmeticExpression::new(Subtract, ABColumn(col("foo")), scalar(3333)),
        ArithmeticExpression::new(
            Multiply,
            ABColumn(Column { name: b"c".to_vec(), table: Some(b"t".to_vec()), function: None }),
            ABColumn(col("bar")),
        ),
        ArithmeticExpression::new(
            Divide,
            ABColumn(Column {
                name: b"max(foo)".to_vec(),
                table: None,
                function: Some(Box::new(FunctionExpression::Max(col("foo")))),
            }),
            scalar(2),
        ),
    ];
    for e in expressions.iter() {
        let rendered = e.display();
        let res = arithmetic_expression(rendered.as_slice(), 0);
        let (end, back) = res.unwrap();
        assert_eq!(end, rendered.len());
        assert_eq!(&back, e);
    }
}

#[test]
fn whitespace_between_tokens_is_ignored() {
    let spaced = arithmetic_expression(b"5 + 42", 0).unwrap().1;
    let tight = arithmetic_expression(b"5+42", 0).unwrap().1;
    assert_eq!(spaced, tight);
    let spaced = arithmetic_expression(b"foo + 5", 0).unwrap().1;
    let tight = arithmetic_expression(b"foo+5", 0).unwrap().1;
    assert_eq!(spaced, tight);
}

#[test]
fn rejects_incomplete_expressions() {
    assert!(arithmetic_expression(b"", 0).is_none());
    assert!(arithmetic_expression(b"5", 0).is_none());
    assert!(arithmetic_expression(b"foo", 0).is_none());
    assert!(arithmetic_expression(b"5 + ", 0).is_none());
    assert!(arithmetic_expression(b"+ 5", 0).is_none());
    assert!(arithmetic_expression(b"5 % 3", 0).is_none());
}

#[test]
fn displays_literals() {
    assert_eq!(Literal::Integer(0).display(), b"0".to_vec());
    assert_eq!(Literal::Integer(3333).display(), b"3333".to_vec());
    assert_eq!(Literal::Integer(-7).display(), b"-7".to_vec());
    assert_eq!(
        Literal::Integer(-9223372036854775808).display(),
        b"-9223372036854775808".to_vec()
    );
}

#[test]
fn parses_qualified_and_function_columns() {
    let res = arithmetic_expression(b"t.c * 2", 0).unwrap().1;
    assert_eq!(
        res,
        ArithmeticExpression::new(
            Multiply,
            ABColumn(Column { name: b"c".to_vec(), table: Some(b"t".to_vec()), function: None }),
            scalar(2),
        )
    );
    let res = arithmetic_expression(b"SUM( price ) / 4", 0).unwrap().1;
    assert_eq!(
        res,
        ArithmeticExpression::new(
            Divide,
            ABColumn(Column {
                name: b"sum(price)".to_vec(),
                table: None,
                function: Some(Box::new(FunctionExpression::Sum(col("price")))),
            }),
            scalar(4),
        )
    );
}
