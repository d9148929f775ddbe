use sql_grammar::column::Column;
use sql_grammar::common::{Field, FieldExpression, Literal};
use sql_grammar::compound_select::{
    compound_selection, CompoundSelectOperator, CompoundSelectStatement,
};
use sql_grammar::select::{LimitClause, OrderClause, SelectStatement};
use sql_grammar::table::Table;

fn table(name: &str) -> Table {
    Table::named(name.as_bytes().to_vec())
}

fn col_field(name: &str) -> FieldExpression {
    FieldExpression::new(
        Field::Col(Column { name: name.as_bytes().to_vec(), table: None, function: None }),
        None,
    )
}

fn lit_field(v: i64) -> FieldExpression {
    FieldExpression::new(Field::Literal(Literal::Integer(v)), None)
}

#[test]
fn union() {
    let qstr = "SELECT id, 1 FROM Vote UNION SELECT id, stars from Rating;";
    let qstr2 = "(SELECT id, 1 FROM Vote) UNION (SELECT id, stars from Rating);";
    let res = compound_selection(qstr.as_bytes(), 0);
    let res2 = compound_selection(qstr2.as_bytes(), 0);

    let first_select = SelectStatement {
        tables: vec![table("Vote")],
        fields: vec![col_field("id"), lit_field(1)],
    };
    let second_select = SelectStatement {
        tables: vec![table("Rating")],
        fields: vec![col_field("id"), col_field("stars")],
    };
    let expected = CompoundSelectStatement {
        selects: vec![
            (None, first_select),
            (Some(CompoundSelectOperator::DistinctUnion), second_select),
        ],
        order: None,
        limit: None,
    };

    assert_eq!(res.unwrap().1, expected);
    assert_eq!(res2.unwrap().1, expected);
}

#[test]
fn multi_union() {
    let qstr = "SELECT id, 1 FROM Vote \
                UNION SELECT id, stars from Rating \
                UNION DISTINCT SELECT 42, 5 FROM Vote;";
    let res = compound_selection(qstr.as_bytes(), 0);

    let first_select = SelectStatement {
        tables: vec![table("Vote")],
        fields: vec![col_field("id"), lit_field(1)],
    };
    let second_select = SelectStatement {
        tables: vec![table("Rating")],
        fields: vec![col_field("id"), col_field("stars")],
    };
    let third_select = SelectStatement {
        tables: vec![table("Vote")],
        fields: vec![lit_field(42), lit_field(5)],
    };

    let expected = CompoundSelectStatement {
        selects: vec![
            (None, first_select),
            (Some(CompoundSelectOperator::DistinctUnion), second_select),
            (Some(CompoundSelectOperator::DistinctUnion), third_select),
        ],
        order: None,
        limit: None,
    };

    assert_eq!(res.unwrap().1, expected);
}

#[test]
fn union_all() {
    let qstr = "SELECT id, 1 FROM Vote UNION ALL SELECT id, stars from Rating;";
    let res = compound_selection(qstr.as_bytes(), 0);

    let first_select = SelectStatement {
        tables: vec![table("Vote")],
        fields: vec![col_field("id"), lit_field(1)],
    };
    let second_select = SelectStatement {
        tables: vec![table("Rating")],
        fields: vec![col_field("id"), col_field("stars")],
    };
    let expected = CompoundSelectStatement {
        selects: vec![
            (None, first_select),
            (Some(CompoundSelectOperator::Union), second_select),
        ],
        order: None,
        limit: None,
    };

    assert_eq!(res.unwrap().1, expected);
}

#[test]
fn rejects_single_bare_select() {
    assert!(compound_selection(b"SELECT id FROM Vote;", 0).is_none());
    assert!(compound_selection(b"(SELECT id FROM Vote);", 0).is_none());
    assert!(compound_selection(b"", 0).is_none());
}

#[test]
fn tolerates_unbalanced_parentheses() {
    let open_only = "(SELECT id FROM Vote UNION SELECT id FROM Rating;";
    let close_only = "SELECT id FROM Vote) UNION (SELECT id FROM Rating;";
    let balanced = "SELECT id FROM Vote UNION SELECT id FROM Rating;";
    let expected = compound_selection(balanced.as_bytes(), 0).unwrap().1;
    assert_eq!(compound_selection(open_only.as_bytes(), 0).unwrap().1, expected);
    assert_eq!(compound_selection(close_only.as_bytes(), 0).unwrap().1, expected);
}

#[test]
fn recognizes_intersect_and_except() {
    let res = compound_selection(b"SELECT id FROM Vote INTERSECT SELECT id FROM Rating;", 0);
    let st = res.unwrap().1;
    assert_eq!(st.selects[1].0, Some(CompoundSelectOperator::Intersect));
    let res = compound_selection(b"SELECT id FROM Vote EXCEPT SELECT id FROM Rating;", 0);
    let st = res.unwrap().1;
    assert_eq!(st.selects[1].0, Some(CompoundSelectOperator::Except));
}

#[test]
fn attaches_order_and_limit_to_whole_statement() {
    let qstr = "SELECT id FROM Vote UNION SELECT id FROM Rating ORDER BY id LIMIT 10;";
    let st = compound_selection(qstr.as_bytes(), 0).unwrap().1;
    assert_eq!(st.selects.len(), 2);
    assert_eq!(
        st.order,
        Some(OrderClause {
            columns: vec![Column { name: b"id".to_vec(), table: None, function: None }],
        })
    );
    assert_eq!(st.limit, Some(LimitClause { limit: 10 }));
}

#[test]
fn keywords_are_case_insensitive() {
    let upper = "SELECT id FROM Vote UNION ALL SELECT id FROM Rating;";
    let lower = "select id from Vote union all select id from Rating;";
    let a = compound_selection(upper.as_bytes(), 0).unwrap().1;
    let b = compound_selection(lower.as_bytes(), 0).unwrap().1;
    assert_eq!(a, b);
    assert_eq!(a.selects[1].0, Some(CompoundSelectOperator::Union));
}
