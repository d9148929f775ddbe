//! The single-select collaborators: one complete `SELECT` statement
//! (`nested_selection`), and the trailing `ORDER BY` and `LIMIT` clauses.

use vstd::prelude::*;

use crate::column::{
    Column, ColumnV, column_identifier_no_alias, spec_column_no_alias,
};
use crate::common::{
    Field, FieldExpression, FieldExpressionV, FieldV, Literal, integer_literal, match_keyword,
    multispace, opt_multispace, spec_integer_literal, spec_match_kw, spec_multispace,
    spec_skip_space,
};
use crate::table::{Table, TableV};

verus! {

/// One complete `SELECT` statement, as far as this core reads it: the
/// projected fields and the tables selected from.
#[derive(Debug, PartialEq, Eq, Hash)]
pub struct SelectStatement {
    pub tables: Vec<Table>,
    pub fields: Vec<FieldExpression>,
}

/// Mathematical model of a single select.
#[verifier::ext_equal]
pub struct SelectStatementV {
    pub tables: Seq<TableV>,
    pub fields: Seq<FieldExpressionV>,
}

impl View for SelectStatement {
    type V = SelectStatementV;

    open spec fn view(&self) -> SelectStatementV {
        SelectStatementV {
            tables: self.tables@.map_values(|t: Table| t@),
            fields: self.fields@.map_values(|f: FieldExpression| f@),
        }
    }
}

/// An ordering applied to a combined result.
#[derive(Debug, PartialEq, Eq, Hash)]
pub struct OrderClause {
    pub columns: Vec<Column>,
}

/// Mathematical model of an ordering clause.
#[verifier::ext_equal]
pub struct OrderClauseV {
    pub columns: Seq<ColumnV>,
}

impl View for OrderClause {
    type V = OrderClauseV;

    open spec fn view(&self) -> OrderClauseV {
        OrderClauseV { columns: self.columns@.map_values(|c: Column| c@) }
    }
}

/// A row limit applied to a combined result.
#[derive(Clone, Debug, PartialEq, Eq, Hash)]
pub struct LimitClause {
    pub limit: u64,
}

/// Mathematical model of a limit clause.
#[verifier::ext_equal]
pub struct LimitClauseV {
    pub limit: u64,
}

impl View for LimitClause {
    type V = LimitClauseV;

    open spec fn view(&self) -> LimitClauseV {
        LimitClauseV { limit: self.limit }
    }
}

pub open spec fn kw_select() -> Seq<u8> {
    seq![115u8, 101u8, 108u8, 101u8, 99u8, 116u8]
}

pub open spec fn kw_from() -> Seq<u8> {
    seq![102u8, 114u8, 111u8, 109u8]
}

pub open spec fn kw_order() -> Seq<u8> {
    seq![111u8, 114u8, 100u8, 101u8, 114u8]
}

pub open spec fn kw_by() -> Seq<u8> {
    seq![98u8, 121u8]
}

pub open spec fn kw_limit() -> Seq<u8> {
    seq![108u8, 105u8, 109u8, 105u8, 116u8]
}

/// One projected field: an integer literal, else a column reference.
/// The literal is tried first, so a bare number is never read as a name.
pub open spec fn spec_field(s: Seq<u8>, i: int) -> Option<(int, FieldExpressionV)> {
    match spec_integer_literal(s, i) {
        Some((j, v)) => Some((j, FieldExpressionV { field: FieldV::Literal(v), alias: None })),
        None => match spec_column_no_alias(s, i) {
            Some((j, c)) => Some((j, FieldExpressionV { field: FieldV::Col(c), alias: None })),
            None => None,
        },
    }
}

/// A list separator: optional whitespace, a comma, optional whitespace.
pub open spec fn spec_comma_sep(s: Seq<u8>, i: int) -> Option<int> {
    let j = spec_skip_space(s, i);
    if j < s.len() && s[j] == 44 {
        Some(spec_skip_space(s, j + 1))
    } else {
        None
    }
}

/// Zero or more further fields, each preceded by a comma separator.
/// A separator not followed by a field is left unconsumed.
pub open spec fn spec_field_list_rest(s: Seq<u8>, i: int) -> (int, Seq<FieldExpressionV>)
    decreases s.len() - i,
{
    match spec_comma_sep(s, i) {
        None => (i, seq![]),
        Some(j) => match spec_field(s, j) {
            None => (i, seq![]),
            Some((k, f)) => if i < k <= s.len() {
                let (m, rest) = spec_field_list_rest(s, k);
                (m, seq![f] + rest)
            } else {
                (i, seq![])
            },
        },
    }
}

/// One or more comma-separated fields.
pub open spec fn spec_field_list(s: Seq<u8>, i: int) -> Option<(int, Seq<FieldExpressionV>)> {
    match spec_field(s, i) {
        None => None,
        Some((j, f)) => {
            let (k, rest) = spec_field_list_rest(s, j);
            Some((k, seq![f] + rest))
        },
    }
}

/// One table reference: a bare identifier.
pub open spec fn spec_table_ref(s: Seq<u8>, i: int) -> Option<(int, TableV)> {
    match crate::common::spec_identifier(s, i) {
        Some((j, name)) => Some((j, TableV { name, alias: None })),
        None => None,
    }
}

/// Zero or more further tables, each preceded by a comma separator.
pub open spec fn spec_table_list_rest(s: Seq<u8>, i: int) -> (int, Seq<TableV>)
    decreases s.len() - i,
{
    match spec_comma_sep(s, i) {
        None => (i, seq![]),
        Some(j) => match spec_table_ref(s, j) {
            None => (i, seq![]),
            Some((k, t)) => if i < k <= s.len() {
                let (m, rest) = spec_table_list_rest(s, k);
                (m, seq![t] + rest)
            } else {
                (i, seq![])
            },
        },
    }
}

/// One or more comma-separated tables.
pub open spec fn spec_table_list(s: Seq<u8>, i: int) -> Option<(int, Seq<TableV>)> {
    match spec_table_ref(s, i) {
        None => None,
        Some((j, t)) => {
            let (k, rest) = spec_table_list_rest(s, j);
            Some((k, seq![t] + rest))
        },
    }
}

/// One complete single select: `SELECT`, whitespace, the field list,
/// whitespace, `FROM`, whitespace, the table list. Trailing input is left
/// unconsumed.
pub open spec fn spec_nested_selection(s: Seq<u8>, i: int) -> Option<(int, SelectStatementV)> {
    if spec_match_kw(s, i, kw_select()) {
        match spec_multispace(s, i + 6) {
            Some(j) => match spec_field_list(s, j) {
                Some((k, fields)) => match spec_multispace(s, k) {
                    Some(m) => if spec_match_kw(s, m, kw_from()) {
                        match spec_multispace(s, m + 4) {
                            Some(p) => match spec_table_list(s, p) {
                                Some((q, tables)) => Some((q, SelectStatementV { tables, fields })),
                                None => None,
                            },
                            None => None,
                        }
                    } else {
                        None
                    },
                    None => None,
                },
                None => None,
            },
            None => None,
        }
    } else {
        None
    }
}

/// Zero or more further ordering columns, each preceded by a comma.
pub open spec fn spec_order_cols_rest(s: Seq<u8>, i: int) -> (int, Seq<ColumnV>)
    decreases s.len() - i,
{
    match spec_comma_sep(s, i) {
        None => (i, seq![]),
        Some(j) => match spec_column_no_alias(s, j) {
            None => (i, seq![]),
            Some((k, c)) => if i < k <= s.len() {
                let (m, rest) = spec_order_cols_rest(s, k);
                (m, seq![c] + rest)
            } else {
                (i, seq![])
            },
        },
    }
}

/// An `ORDER BY` clause: optional leading whitespace, the two keywords,
/// and one or more comma-separated columns.
pub open spec fn spec_order_clause(s: Seq<u8>, i: int) -> Option<(int, OrderClauseV)> {
    let j = spec_skip_space(s, i);
    if spec_match_kw(s, j, kw_order()) {
        match spec_multispace(s, j + 5) {
            Some(k) => if spec_match_kw(s, k, kw_by()) {
                match spec_multispace(s, k + 2) {
                    Some(m) => match spec_column_no_alias(s, m) {
                        Some((p, c)) => {
                            let (q, rest) = spec_order_cols_rest(s, p);
                            Some((q, OrderClauseV { columns: seq![c] + rest }))
                        },
                        None => None,
                    },
                    None => None,
                }
            } else {
                None
            },
            None => None,
        }
    } else {
        None
    }
}

/// A `LIMIT` clause: optional leading whitespace, the keyword, whitespace,
/// and an integer row count.
pub open spec fn spec_limit_clause(s: Seq<u8>, i: int) -> Option<(int, LimitClauseV)> {
    let j = spec_skip_space(s, i);
    if spec_match_kw(s, j, kw_limit()) {
        match spec_multispace(s, j + 5) {
            Some(k) => match spec_integer_literal(s, k) {
                Some((m, v)) => Some((m, LimitClauseV { limit: v as u64 })),
                None => None,
            },
            None => None,
        }
    } else {
        None
    }
}

/// Recognize one projected field.
pub fn field(input: &[u8], pos: usize) -> (r: Option<(usize, FieldExpression)>)
    requires
        pos <= input@.len(),
    ensures
        match r {
            Some((j, f)) => spec_field(input@, pos as int) == Some((j as int, f@))
                && pos < j <= input@.len(),
            None => spec_field(input@, pos as int) is None,
        },
{
    match integer_literal(input, pos) {
        Some((j, lit)) => Some((j, FieldExpression { field: Field::Literal(lit), alias: None })),
        None => match column_identifier_no_alias(input, pos) {
            Some((j, c)) => Some((j, FieldExpression { field: Field::Col(c), alias: None })),
            None => None,
        },
    }
}

/// Recognize a list separator: optional whitespace, `,`, optional whitespace.
pub fn comma_sep(input: &[u8], pos: usize) -> (r: Option<usize>)
    requires
        pos <= input@.len(),
    ensures
        match r {
            Some(j) => spec_comma_sep(input@, pos as int) == Some(j as int)
                && pos < j <= input@.len(),
            None => spec_comma_sep(input@, pos as int) is None,
        },
{
    let j = opt_multispace(input, pos);
    if j < input.len() && input[j] == 44 {
        Some(opt_multispace(input, j + 1))
    } else {
        None
    }
}

/// Recognize one or more comma-separated fields.
pub fn field_list(input: &[u8], pos: usize) -> (r: Option<(usize, Vec<FieldExpression>)>)
    requires
        pos <= input@.len(),
    ensures
        match r {
            Some((j, fs)) => spec_field_list(input@, pos as int)
                == Some((j as int, fs@.map_values(|f: FieldExpression| f@)))
                && pos < j <= input@.len(),
            None => spec_field_list(input@, pos as int) is None,
        },
{
    match field(input, pos) {
        None => None,
        Some((j0, f0)) => {
            let ghost full = spec_field_list_rest(input@, j0 as int);
            let mut fs: Vec<FieldExpression> = Vec::new();
            fs.push(f0);
            let mut cur: usize = j0;
            let mut stop: bool = false;
            while !stop
                invariant
                    pos < cur <= input@.len(),
                    fs@.len() >= 1,
                    fs@[0] == f0,
                    full == spec_field_list_rest(input@, j0 as int),
                    full.0 == spec_field_list_rest(input@, cur as int).0,
                    full.1 == fs@.skip(1).map_values(|f: FieldExpression| f@)
                        + spec_field_list_rest(input@, cur as int).1,
                    stop ==> spec_field_list_rest(input@, cur as int) == (cur as int, Seq::<FieldExpressionV>::empty()),
                decreases input@.len() - cur + (if stop { 0int } else { 1int }),
            {
                match comma_sep(input, cur) {
                    None => {
                        stop = true;
                    },
                    Some(k) => match field(input, k) {
                        None => {
                            stop = true;
                        },
                        Some((m, f)) => {
                            proof {
                                assert(spec_field_list_rest(input@, cur as int).1
                                    == seq![f@] + spec_field_list_rest(input@, m as int).1);
                                assert((fs@ + seq![f]).skip(1) =~= fs@.skip(1) + seq![f]);
                                assert((fs@.skip(1) + seq![f]).map_values(|x: FieldExpression| x@)
                                    =~= fs@.skip(1).map_values(|x: FieldExpression| x@) + seq![f@]);
                            }
                            fs.push(f);
                            cur = m;
                        },
                    },
                }
            }
            proof {
                assert(fs@.map_values(|f: FieldExpression| f@)
                    =~= seq![f0@] + fs@.skip(1).map_values(|f: FieldExpression| f@));
            }
            Some((cur, fs))
        },
    }
}

/// Recognize one table reference.
pub fn table_ref(input: &[u8], pos: usize) -> (r: Option<(usize, Table)>)
    requires
        pos <= input@.len(),
    ensures
        match r {
            Some((j, t)) => spec_table_ref(input@, pos as int) == Some((j as int, t@))
                && pos < j <= input@.len(),
            None => spec_table_ref(input@, pos as int) is None,
        },
{
    match crate::common::sql_identifier(input, pos) {
        Some((j, name)) => Some((j, Table { name, alias: None })),
        None => None,
    }
}

/// Recognize one or more comma-separated tables.
pub fn table_list(input: &[u8], pos: usize) -> (r: Option<(usize, Vec<Table>)>)
    requires
        pos <= input@.len(),
    ensures
        match r {
            Some((j, ts)) => spec_table_list(input@, pos as int)
                == Some((j as int, ts@.map_values(|t: Table| t@)))
                && pos < j <= input@.len(),
            None => spec_table_list(input@, pos as int) is None,
        },
{
    match table_ref(input, pos) {
        None => None,
        Some((j0, t0)) => {
            let ghost full = spec_table_list_rest(input@, j0 as int);
            let mut ts: Vec<Table> = Vec::new();
            ts.push(t0);
            let mut cur: usize = j0;
            let mut stop: bool = false;
            while !stop
                invariant
                    pos < cur <= input@.len(),
                    ts@.len() >= 1,
                    ts@[0] == t0,
                    full == spec_table_list_rest(input@, j0 as int),
                    full.0 == spec_table_list_rest(input@, cur as int).0,
                    full.1 == ts@.skip(1).map_values(|t: Table| t@)
                        + spec_table_list_rest(input@, cur as int).1,
                    stop ==> spec_table_list_rest(input@, cur as int) == (cur as int, Seq::<TableV>::empty()),
                decreases input@.len() - cur + (if stop { 0int } else { 1int }),
            {
                match comma_sep(input, cur) {
                    None => {
                        stop = true;
                    },
                    Some(k) => match table_ref(input, k) {
                        None => {
                            stop = true;
                        },
                        Some((m, t)) => {
                            proof {
                                assert(spec_table_list_rest(input@, cur as int).1
                                    == seq![t@] + spec_table_list_rest(input@, m as int).1);
                                assert((ts@ + seq![t]).skip(1) =~= ts@.skip(1) + seq![t]);
                                assert((ts@.skip(1) + seq![t]).map_values(|x: Table| x@)
                                    =~= ts@.skip(1).map_values(|x: Table| x@) + seq![t@]);
                            }
                            ts.push(t);
                            cur = m;
                        },
                    },
                }
            }
            proof {
                assert(ts@.map_values(|t: Table| t@)
                    =~= seq![t0@] + ts@.skip(1).map_values(|t: Table| t@));
            }
            Some((cur, ts))
        },
    }
}

/// Recognize one complete single `SELECT` statement.
pub fn nested_selection(input: &[u8], pos: usize) -> (r: Option<(usize, SelectStatement)>)
    requires
        pos <= input@.len(),
    ensures
        match r {
            Some((j, sel)) => spec_nested_selection(input@, pos as int) == Some((j as int, sel@))
                && pos < j <= input@.len(),
            None => spec_nested_selection(input@, pos as int) is None,
        },
{
    let kw_select_b: [u8; 6] = [115, 101, 108, 101, 99, 116];
    let kw_from_b: [u8; 4] = [102, 114, 111, 109];
    proof {
        assert(kw_select_b@ =~= kw_select());
        assert(kw_from_b@ =~= kw_from());
    }
    let n = input.len();
    if !match_keyword(input, pos, kw_select_b.as_slice()) {
        return None;
    }
    assert(pos + 6 <= n);
    let j = match multispace(input, pos + 6) {
        Some(j) => j,
        None => {
            return None;
        },
    };
    let (k, fields) = match field_list(input, j) {
        Some(p) => p,
        None => {
            return None;
        },
    };
    let m = match multispace(input, k) {
        Some(m) => m,
        None => {
            return None;
        },
    };
    if !match_keyword(input, m, kw_from_b.as_slice()) {
        return None;
    }
    assert(m + 4 <= n);
    let p = match multispace(input, m + 4) {
        Some(p) => p,
        None => {
            return None;
        },
    };
    match table_list(input, p) {
        Some((q, tables)) => {
            let sel = SelectStatement { tables, fields };
            proof {
                assert(sel@ =~= (SelectStatementV {
                    tables: tables@.map_values(|t: Table| t@),
                    fields: fields@.map_values(|f: FieldExpression| f@),
                }));
            }
            Some((q, sel))
        },
        None => None,
    }
}

/// Recognize an `ORDER BY` clause.
pub fn order_clause(input: &[u8], pos: usize) -> (r: Option<(usize, OrderClause)>)
    requires
        pos <= input@.len(),
    ensures
        match r {
            Some((j, oc)) => spec_order_clause(input@, pos as int) == Some((j as int, oc@))
                && pos < j <= input@.len(),
            None => spec_order_clause(input@, pos as int) is None,
        },
{
    let kw_order_b: [u8; 5] = [111, 114, 100, 101, 114];
    let kw_by_b: [u8; 2] = [98, 121];
    proof {
        assert(kw_order_b@ =~= kw_order());
        assert(kw_by_b@ =~= kw_by());
    }
    let n = input.len();
    let j = opt_multispace(input, pos);
    if !match_keyword(input, j, kw_order_b.as_slice()) {
        return None;
    }
    assert(j + 5 <= n);
    let k = match multispace(input, j + 5) {
        Some(k) => k,
        None => {
            return None;
        },
    };
    if !match_keyword(input, k, kw_by_b.as_slice()) {
        return None;
    }
    assert(k + 2 <= n);
    let m = match multispace(input, k + 2) {
        Some(m) => m,
        None => {
            return None;
        },
    };
    let (p0, c0) = match column_identifier_no_alias(input, m) {
        Some(p) => p,
        None => {
            return None;
        },
    };
    let ghost full = spec_order_cols_rest(input@, p0 as int);
    let mut cols: Vec<Column> = Vec::new();
    cols.push(c0);
    let mut cur: usize = p0;
    let mut stop: bool = false;
    while !stop
        invariant
            pos <= p0 < cur + 1 <= input@.len() + 1,
            cur <= input@.len(),
            cols@.len() >= 1,
            cols@[0] == c0,
            full == spec_order_cols_rest(input@, p0 as int),
            full.0 == spec_order_cols_rest(input@, cur as int).0,
            full.1 == cols@.skip(1).map_values(|c: Column| c@)
                + spec_order_cols_rest(input@, cur as int).1,
            stop ==> spec_order_cols_rest(input@, cur as int) == (cur as int, Seq::<ColumnV>::empty()),
        decreases input@.len() - cur + (if stop { 0int } else { 1int }),
    {
        match comma_sep(input, cur) {
            None => {
                stop = true;
            },
            Some(k2) => match column_identifier_no_alias(input, k2) {
                None => {
                    stop = true;
                },
                Some((m2, c)) => {
                    proof {
                        assert(spec_order_cols_rest(input@, cur as int).1
                            == seq![c@] + spec_order_cols_rest(input@, m2 as int).1);
                        assert((cols@ + seq![c]).skip(1) =~= cols@.skip(1) + seq![c]);
                        assert((cols@.skip(1) + seq![c]).map_values(|x: Column| x@)
                            =~= cols@.skip(1).map_values(|x: Column| x@) + seq![c@]);
                    }
                    cols.push(c);
                    cur = m2;
                },
            },
        }
    }
    let oc = OrderClause { columns: cols };
    proof {
        assert(oc@.columns =~= seq![c0@] + cols@.skip(1).map_values(|c: Column| c@));
        assert(oc@ =~= (OrderClauseV { columns: seq![c0@] + full.1 }));
    }
    Some((cur, oc))
}

/// Recognize a `LIMIT` clause.
pub fn limit_clause(input: &[u8], pos: usize) -> (r: Option<(usize, LimitClause)>)
    requires
        pos <= input@.len(),
    ensures
        match r {
            Some((j, lc)) => spec_limit_clause(input@, pos as int) == Some((j as int, lc@))
                && pos < j <= input@.len(),
            None => spec_limit_clause(input@, pos as int) is None,
        },
{
    let kw_limit_b: [u8; 5] = [108, 105, 109, 105, 116];
    proof {
        assert(kw_limit_b@ =~= kw_limit());
    }
    let n = input.len();
    let j = opt_multispace(input, pos);
    if !match_keyword(input, j, kw_limit_b.as_slice()) {
        return None;
    }
    assert(j + 5 <= n);
    let k = match multispace(input, j + 5) {
        Some(k) => k,
        None => {
            return None;
        },
    };
    match integer_literal(input, k) {
        Some((m, lit)) => {
            let v = match lit {
                Literal::Integer(v) => v,
            };
            Some((m, LimitClause { limit: #[verifier::truncate] (v as u64) }))
        },
        None => None,
    }
}

} // verus!
