//! Compound select grammar: two or more single selects joined by set
//! operators, with an optional trailing ordering and row limit applied to
//! the combined result.

use vstd::prelude::*;

use crate::common::{match_keyword, multispace, opt_multispace, spec_match_kw, spec_multispace, spec_skip_space};
use crate::select::{
    LimitClause, LimitClauseV, OrderClause, OrderClauseV, SelectStatement, SelectStatementV,
    limit_clause, nested_selection, order_clause, spec_limit_clause, spec_nested_selection,
    spec_order_clause,
};

verus! {

/// The set-operator vocabulary. `Union` keeps duplicate rows
/// (`UNION ALL`); `DistinctUnion` removes them (bare `UNION`, or
/// `UNION DISTINCT`).
#[derive(Clone, Copy, Debug, PartialEq, Eq, Hash, Structural)]
pub enum CompoundSelectOperator {
    Union,
    DistinctUnion,
    Intersect,
    Except,
}

/// A compound select statement: an ordered sequence of selects, each but
/// the first preceded by its set operator, with an optional overall
/// ordering and row limit.
#[derive(Debug, PartialEq, Eq, Hash)]
pub struct CompoundSelectStatement {
    pub selects: Vec<(Option<CompoundSelectOperator>, SelectStatement)>,
    pub order: Option<OrderClause>,
    pub limit: Option<LimitClause>,
}

/// Mathematical model of a compound select statement.
#[verifier::ext_equal]
pub struct CompoundSelectStatementV {
    pub selects: Seq<(Option<CompoundSelectOperator>, SelectStatementV)>,
    pub order: Option<OrderClauseV>,
    pub limit: Option<LimitClauseV>,
}

impl View for CompoundSelectStatement {
    type V = CompoundSelectStatementV;

    open spec fn view(&self) -> CompoundSelectStatementV {
        CompoundSelectStatementV {
            selects: self.selects@.map_values(
                |p: (Option<CompoundSelectOperator>, SelectStatement)| (p.0, p.1@),
            ),
            order: match self.order {
                Some(ref oc) => Some(oc@),
                None => None,
            },
            limit: match self.limit {
                Some(ref lc) => Some(lc@),
                None => None,
            },
        }
    }
}

/// The statement's shape invariant: at least two selects, no operator
/// before the first, an operator before every other.
pub open spec fn wf_compound(st: CompoundSelectStatementV) -> bool {
    &&& st.selects.len() >= 2
    &&& st.selects[0].0 is None
    &&& forall|k: int| 1 <= k < st.selects.len() ==> (#[trigger] st.selects[k]).0 is Some
}

pub open spec fn kw_union() -> Seq<u8> {
    seq![117u8, 110u8, 105u8, 111u8, 110u8]
}

pub open spec fn kw_all() -> Seq<u8> {
    seq![97u8, 108u8, 108u8]
}

pub open spec fn kw_distinct() -> Seq<u8> {
    seq![100u8, 105u8, 115u8, 116u8, 105u8, 110u8, 99u8, 116u8]
}

pub open spec fn kw_intersect() -> Seq<u8> {
    seq![105u8, 110u8, 116u8, 101u8, 114u8, 115u8, 101u8, 99u8, 116u8]
}

pub open spec fn kw_except() -> Seq<u8> {
    seq![101u8, 120u8, 99u8, 101u8, 112u8, 116u8]
}

/// A set operator keyword, case-insensitive. `UNION` may be qualified by
/// whitespace and `ALL` or `DISTINCT`; an absent qualifier means
/// `DistinctUnion`, the dialect default.
pub open spec fn spec_compound_op(s: Seq<u8>, i: int) -> Option<(int, CompoundSelectOperator)> {
    if spec_match_kw(s, i, kw_union()) {
        match spec_multispace(s, i + 5) {
            Some(k) => if spec_match_kw(s, k, kw_all()) {
                Some((k + 3, CompoundSelectOperator::Union))
            } else if spec_match_kw(s, k, kw_distinct()) {
                Some((k + 8, CompoundSelectOperator::DistinctUnion))
            } else {
                Some((i + 5, CompoundSelectOperator::DistinctUnion))
            },
            None => Some((i + 5, CompoundSelectOperator::DistinctUnion)),
        }
    } else if spec_match_kw(s, i, kw_intersect()) {
        Some((i + 9, CompoundSelectOperator::Intersect))
    } else if spec_match_kw(s, i, kw_except()) {
        Some((i + 6, CompoundSelectOperator::Except))
    } else {
        None
    }
}

/// The first select of a compound statement, optionally wrapped in
/// parentheses. Each parenthesis is individually optional: an unbalanced
/// pair is tolerated, a known quirk of this grammar that is kept as it
/// stands.
pub open spec fn spec_first_select(s: Seq<u8>, i: int) -> Option<(int, SelectStatementV)> {
    let j0: int = if 0 <= i < s.len() && s[i] == 40 {
        i + 1
    } else {
        i
    };
    match spec_nested_selection(s, j0) {
        Some((j1, sel)) => {
            let j2: int = if j1 < s.len() && s[j1] == 41 {
                j1 + 1
            } else {
                j1
            };
            Some((j2, sel))
        },
        None => None,
    }
}

/// One repetition: optional whitespace, a set operator, mandatory
/// whitespace, an optional opening parenthesis, optional whitespace, a
/// single select, optional whitespace, an optional closing parenthesis.
pub open spec fn spec_compound_rep(s: Seq<u8>, i: int) -> Option<(int, (Option<CompoundSelectOperator>, SelectStatementV))> {
    let j0 = spec_skip_space(s, i);
    match spec_compound_op(s, j0) {
        None => None,
        Some((j1, op)) => match spec_multispace(s, j1) {
            None => None,
            Some(j2) => {
                let j3: int = if j2 < s.len() && s[j2] == 40 {
                    j2 + 1
                } else {
                    j2
                };
                let j4 = spec_skip_space(s, j3);
                match spec_nested_selection(s, j4) {
                    None => None,
                    Some((j5, sel)) => {
                        let j6 = spec_skip_space(s, j5);
                        let j7: int = if j6 < s.len() && s[j6] == 41 {
                            j6 + 1
                        } else {
                            j6
                        };
                        Some((j7, (Some(op), sel)))
                    },
                }
            },
        },
    }
}

/// Zero or more further repetitions after the first.
pub open spec fn spec_reps_rest(s: Seq<u8>, i: int) -> (int, Seq<(Option<CompoundSelectOperator>, SelectStatementV)>)
    decreases s.len() - i,
{
    match spec_compound_rep(s, i) {
        None => (i, seq![]),
        Some((j, p)) => if i < j <= s.len() {
            let (k, rest) = spec_reps_rest(s, j);
            (k, seq![p] + rest)
        } else {
            (i, seq![])
        },
    }
}

/// An optional ordering clause.
pub open spec fn spec_opt_order(s: Seq<u8>, i: int) -> (int, Option<OrderClauseV>) {
    match spec_order_clause(s, i) {
        Some((j, oc)) => (j, Some(oc)),
        None => (i, None),
    }
}

/// An optional limit clause.
pub open spec fn spec_opt_limit(s: Seq<u8>, i: int) -> (int, Option<LimitClauseV>) {
    match spec_limit_clause(s, i) {
        Some((j, lc)) => (j, Some(lc)),
        None => (i, None),
    }
}

/// A whole compound selection: a first select, one or more operator-led
/// repetitions (a single bare select is rejected), then optional
/// whitespace, an optional ordering and an optional limit. Trailing input
/// is left unconsumed.
pub open spec fn spec_compound_selection(s: Seq<u8>, i: int) -> Option<(int, CompoundSelectStatementV)> {
    match spec_first_select(s, i) {
        None => None,
        Some((j2, first)) => if i < j2 <= s.len() {
            match spec_compound_rep(s, j2) {
                None => None,
                Some((j3, p1)) => if j2 < j3 <= s.len() {
                    let (j4, rest) = spec_reps_rest(s, j3);
                    let j5 = spec_skip_space(s, j4);
                    let (j6, order) = spec_opt_order(s, j5);
                    let (j7, limit) = spec_opt_limit(s, j6);
                    Some((j7, CompoundSelectStatementV {
                        selects: seq![(None::<CompoundSelectOperator>, first), p1] + rest,
                        order,
                        limit,
                    }))
                } else {
                    None
                },
            }
        } else {
            None
        },
    }
}

/// Every repetition carries its operator.
proof fn lemma_reps_rest_ops(s: Seq<u8>, i: int)
    requires
        0 <= i <= s.len(),
    ensures
        forall|k: int| 0 <= k < spec_reps_rest(s, i).1.len()
            ==> (#[trigger] spec_reps_rest(s, i).1[k]).0 is Some,
    decreases s.len() - i,
{
    match spec_compound_rep(s, i) {
        None => {},
        Some((j, p)) => {
            if i < j <= s.len() {
                lemma_reps_rest_ops(s, j);
            }
        },
    }
}

/// Minimum-arity and operator-placement law: whatever the compound parser
/// accepts has at least two selects, none before the first operator slot,
/// and an operator in every later slot. A single bare select is rejected
/// because at least one repetition is required.
#[verifier::rlimit(50)]
pub proof fn lemma_compound_shape(s: Seq<u8>, i: int)
    requires
        0 <= i <= s.len(),
    ensures
        spec_compound_selection(s, i) matches Some((j, st)) ==> wf_compound(st),
{
    if spec_compound_selection(s, i) is Some {
        let st = spec_compound_selection(s, i)->Some_0.1;
        let fs = spec_first_select(s, i);
        assert(fs is Some);
        let first = fs->Some_0.1;
        let j2 = fs->Some_0.0;
        let rep = spec_compound_rep(s, j2);
        assert(rep is Some);
        let j3 = rep->Some_0.0;
        let p1 = rep->Some_0.1;
        assert(0 <= j3 <= s.len());
        lemma_reps_rest_ops(s, j3);
        let rest = spec_reps_rest(s, j3).1;
        assert(st.selects == seq![(None::<CompoundSelectOperator>, first), p1] + rest);
        assert(p1.0 is Some);
        assert(forall|k: int| 2 <= k < st.selects.len()
            ==> (#[trigger] st.selects[k]) == rest[k - 2]);
        assert(forall|k: int| 1 <= k < st.selects.len()
            ==> (#[trigger] st.selects[k]).0 is Some);
    }
}

/// Dialect-default law: wherever `UNION` is recognized, the operator is
/// `Union` exactly when the `ALL` qualifier follows; a bare `UNION` and
/// `UNION DISTINCT` both mean `DistinctUnion`, the default.
pub proof fn lemma_union_default_distinct(s: Seq<u8>, i: int)
    requires
        spec_match_kw(s, i, kw_union()),
    ensures
        spec_compound_op(s, i) is Some,
        ({
            let op = spec_compound_op(s, i)->Some_0.1;
            match spec_multispace(s, i + 5) {
                Some(k) => op == if spec_match_kw(s, k, kw_all()) {
                    CompoundSelectOperator::Union
                } else {
                    CompoundSelectOperator::DistinctUnion
                },
                None => op == CompoundSelectOperator::DistinctUnion,
            }
        }),
{
}

/// Parenthesized-equivalence law, first select: with an opening
/// parenthesis present, the first select's value is exactly what the
/// single-select parser produces just inside it, and without one it is
/// what the parser produces in place. The parentheses move positions but
/// never change the parsed structure.
pub proof fn lemma_first_select_paren_transparent(s: Seq<u8>, i: int)
    ensures
        0 <= i < s.len() && s[i] == 40 ==> {
            &&& (spec_first_select(s, i) is Some <==> spec_nested_selection(s, i + 1) is Some)
            &&& (spec_first_select(s, i) is Some
                ==> spec_first_select(s, i)->Some_0.1 == spec_nested_selection(s, i + 1)->Some_0.1)
        },
        !(0 <= i < s.len() && s[i] == 40) ==> {
            &&& (spec_first_select(s, i) is Some <==> spec_nested_selection(s, i) is Some)
            &&& (spec_first_select(s, i) is Some
                ==> spec_first_select(s, i)->Some_0.1 == spec_nested_selection(s, i)->Some_0.1)
        },
{
}

/// Parenthesized-equivalence law, repetitions: the select value of a
/// recognized repetition is exactly what the single-select parser
/// produces after the operator, the mandatory whitespace and the optional
/// opening parenthesis; the parentheses never change it.
pub proof fn lemma_rep_paren_transparent(s: Seq<u8>, i: int)
    ensures
        spec_compound_rep(s, i) matches Some((j, p)) ==> {
            let j0 = spec_skip_space(s, i);
            &&& spec_compound_op(s, j0) is Some
            &&& p.0 == Some(spec_compound_op(s, j0)->Some_0.1)
            &&& {
                let j1 = spec_compound_op(s, j0)->Some_0.0;
                &&& spec_multispace(s, j1) is Some
                &&& {
                    let j2 = spec_multispace(s, j1)->Some_0;
                    let j3: int = if j2 < s.len() && s[j2] == 40 { j2 + 1 } else { j2 };
                    let j4 = spec_skip_space(s, j3);
                    &&& spec_nested_selection(s, j4) is Some
                    &&& p.1 == spec_nested_selection(s, j4)->Some_0.1
                }
            }
        },
{
}

/// Recognize a set operator keyword.
pub fn compound_op(input: &[u8], pos: usize) -> (r: Option<(usize, CompoundSelectOperator)>)
    requires
        pos <= input@.len(),
    ensures
        match r {
            Some((j, op)) => spec_compound_op(input@, pos as int) == Some((j as int, op))
                && pos < j <= input@.len(),
            None => spec_compound_op(input@, pos as int) is None,
        },
{
    let kw_union_b: [u8; 5] = [117, 110, 105, 111, 110];
    let kw_all_b: [u8; 3] = [97, 108, 108];
    let kw_distinct_b: [u8; 8] = [100, 105, 115, 116, 105, 110, 99, 116];
    let kw_intersect_b: [u8; 9] = [105, 110, 116, 101, 114, 115, 101, 99, 116];
    let kw_except_b: [u8; 6] = [101, 120, 99, 101, 112, 116];
    proof {
        assert(kw_union_b@ =~= kw_union());
        assert(kw_all_b@ =~= kw_all());
        assert(kw_distinct_b@ =~= kw_distinct());
        assert(kw_intersect_b@ =~= kw_intersect());
        assert(kw_except_b@ =~= kw_except());
    }
    let n = input.len();
    if match_keyword(input, pos, kw_union_b.as_slice()) {
        assert(pos + 5 <= n);
        match multispace(input, pos + 5) {
            Some(k) => {
                if match_keyword(input, k, kw_all_b.as_slice()) {
                    assert(k + 3 <= n);
                    Some((k + 3, CompoundSelectOperator::Union))
                } else if match_keyword(input, k, kw_distinct_b.as_slice()) {
                    assert(k + 8 <= n);
                    Some((k + 8, CompoundSelectOperator::DistinctUnion))
                } else {
                    Some((pos + 5, CompoundSelectOperator::DistinctUnion))
                }
            },
            None => Some((pos + 5, CompoundSelectOperator::DistinctUnion)),
        }
    } else if match_keyword(input, pos, kw_intersect_b.as_slice()) {
        assert(pos + 9 <= n);
        Some((pos + 9, CompoundSelectOperator::Intersect))
    } else if match_keyword(input, pos, kw_except_b.as_slice()) {
        assert(pos + 6 <= n);
        Some((pos + 6, CompoundSelectOperator::Except))
    } else {
        None
    }
}

/// Recognize the first select, in its optional parentheses.
fn first_select(input: &[u8], pos: usize) -> (r: Option<(usize, SelectStatement)>)
    requires
        pos <= input@.len(),
    ensures
        match r {
            Some((j, sel)) => spec_first_select(input@, pos as int) == Some((j as int, sel@))
                && pos < j <= input@.len(),
            None => spec_first_select(input@, pos as int) is None,
        },
{
    let j0 = if pos < input.len() && input[pos] == 40 {
        pos + 1
    } else {
        pos
    };
    match nested_selection(input, j0) {
        None => None,
        Some((j1, sel)) => {
            let j2 = if j1 < input.len() && input[j1] == 41 {
                j1 + 1
            } else {
                j1
            };
            Some((j2, sel))
        },
    }
}

/// Recognize one operator-led repetition.
fn compound_rep(input: &[u8], pos: usize) -> (r: Option<(usize, (Option<CompoundSelectOperator>, SelectStatement))>)
    requires
        pos <= input@.len(),
    ensures
        match r {
            Some((j, p)) => spec_compound_rep(input@, pos as int) == Some((j as int, (p.0, p.1@)))
                && pos < j <= input@.len(),
            None => spec_compound_rep(input@, pos as int) is None,
        },
{
    let j0 = opt_multispace(input, pos);
    match compound_op(input, j0) {
        None => None,
        Some((j1, op)) => match multispace(input, j1) {
            None => None,
            Some(j2) => {
                let j3 = if j2 < input.len() && input[j2] == 40 {
                    j2 + 1
                } else {
                    j2
                };
                let j4 = opt_multispace(input, j3);
                match nested_selection(input, j4) {
                    None => None,
                    Some((j5, sel)) => {
                        let j6 = opt_multispace(input, j5);
                        let j7 = if j6 < input.len() && input[j6] == 41 {
                            j6 + 1
                        } else {
                            j6
                        };
                        Some((j7, (Some(op), sel)))
                    },
                }
            },
        },
    }
}

/// Recognize a whole compound selection: a first select and one or more
/// operator-led selects, then an optional ordering and an optional row
/// limit, both applied to the combined result. A single select with no
/// set operator is rejected.
pub fn compound_selection(input: &[u8], pos: usize) -> (r: Option<(usize, CompoundSelectStatement)>)
    requires
        pos <= input@.len(),
    ensures
        match r {
            Some((j, st)) => spec_compound_selection(input@, pos as int) == Some((j as int, st@))
                && pos < j <= input@.len()
                && wf_compound(st@),
            None => spec_compound_selection(input@, pos as int) is None,
        },
{
    let first = match first_select(input, pos) {
        None => {
            return None;
        },
        Some(p) => p,
    };
    let (j2, first_sel) = first;
    let p1 = match compound_rep(input, j2) {
        None => {
            return None;
        },
        Some(p) => p,
    };
    let (j3, first_rep) = p1;
    let ghost full = spec_reps_rest(input@, j3 as int);
    let mut selects: Vec<(Option<CompoundSelectOperator>, SelectStatement)> = Vec::new();
    selects.push((None, first_sel));
    selects.push(first_rep);
    let ghost pair_view = |p: (Option<CompoundSelectOperator>, SelectStatement)| (p.0, p.1@);
    let mut cur: usize = j3;
    let mut stop: bool = false;
    proof {
        assert(selects@.map_values(pair_view)
            =~= seq![(None::<CompoundSelectOperator>, first_sel@), (first_rep.0, first_rep.1@)]);
    }
    while !stop
        invariant
            pos < cur <= input@.len(),
            selects@.len() >= 2,
            selects@.map_values(pair_view).take(2)
                == seq![(None::<CompoundSelectOperator>, first_sel@), (first_rep.0, first_rep.1@)],
            pair_view == (|p: (Option<CompoundSelectOperator>, SelectStatement)| (p.0, p.1@)),
            full == spec_reps_rest(input@, j3 as int),
            full.0 == spec_reps_rest(input@, cur as int).0,
            full.1 == selects@.map_values(pair_view).skip(2)
                + spec_reps_rest(input@, cur as int).1,
            stop ==> spec_reps_rest(input@, cur as int)
                == (cur as int, Seq::<(Option<CompoundSelectOperator>, SelectStatementV)>::empty()),
        decreases input@.len() - cur + (if stop { 0int } else { 1int }),
    {
        match compound_rep(input, cur) {
            None => {
                stop = true;
            },
            Some((m, p)) => {
                proof {
                    assert(spec_reps_rest(input@, cur as int).1
                        == seq![(p.0, p.1@)] + spec_reps_rest(input@, m as int).1);
                    assert((selects@ + seq![p]).map_values(pair_view)
                        =~= selects@.map_values(pair_view) + seq![(p.0, p.1@)]);
                    assert((selects@ + seq![p]).map_values(pair_view).skip(2)
                        =~= selects@.map_values(pair_view).skip(2) + seq![(p.0, p.1@)]);
                    assert((selects@ + seq![p]).map_values(pair_view).take(2)
                        =~= selects@.map_values(pair_view).take(2));
                }
                selects.push(p);
                cur = m;
            },
        }
    }
    let j5 = opt_multispace(input, cur);
    let (j6, order) = match order_clause(input, j5) {
        Some((j6, oc)) => (j6, Some(oc)),
        None => (j5, None),
    };
    let (j7, limit) = match limit_clause(input, j6) {
        Some((j7, lc)) => (j7, Some(lc)),
        None => (j6, None),
    };
    let st = CompoundSelectStatement { selects, order, limit };
    proof {
        assert(st@.selects =~= seq![
            (None::<CompoundSelectOperator>, first_sel@),
            (first_rep.0, first_rep.1@),
        ] + full.1);
        assert(st@ =~= spec_compound_selection(input@, pos as int)->Some_0.1);
        lemma_compound_shape(input@, pos as int);
    }
    Some((j7, st))
}

} // verus!
