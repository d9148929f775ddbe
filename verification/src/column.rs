//! The column-reference collaborator: a bare or qualified column name,
//! optionally wrapping an embedded aggregate function call such as
//! `MAX(foo)`.

use vstd::prelude::*;

use crate::common::{
    is_digit, is_ident_byte, is_space, lemma_ident_run, match_keyword, opt_bytes_view,
    opt_multispace, push_all, spec_identifier, spec_match_kw, spec_skip_space, sql_identifier,
    to_lower,
};

verus! {

/// A reference to a table column. `name` is the column's textual form;
/// `function` carries an embedded aggregate expression when the reference
/// was written as a function call, in which case `name` is that call's
/// textual form (e.g. `max(foo)`).
#[derive(Debug, PartialEq, Eq, Hash)]
pub struct Column {
    pub name: Vec<u8>,
    pub table: Option<Vec<u8>>,
    pub function: Option<Box<FunctionExpression>>,
}

/// An aggregate function call embedded in a column reference.
#[derive(Debug, PartialEq, Eq, Hash)]
pub enum FunctionExpression {
    Avg(Column),
    Count(Column),
    Max(Column),
    Min(Column),
    Sum(Column),
}

/// Mathematical model of a plain (function-free) column reference.
#[verifier::ext_equal]
pub struct SimpleColumnV {
    pub name: Seq<u8>,
    pub table: Option<Seq<u8>>,
}

/// Mathematical model of an embedded aggregate call. The argument is
/// recorded as the plain column reference the grammar recognizes there.
#[verifier::ext_equal]
pub enum FunctionV {
    Avg(SimpleColumnV),
    Count(SimpleColumnV),
    Max(SimpleColumnV),
    Min(SimpleColumnV),
    Sum(SimpleColumnV),
}

/// Mathematical model of a column reference.
#[verifier::ext_equal]
pub struct ColumnV {
    pub name: Seq<u8>,
    pub table: Option<Seq<u8>>,
    pub function: Option<FunctionV>,
}

impl View for FunctionExpression {
    type V = FunctionV;

    open spec fn view(&self) -> FunctionV {
        match *self {
            FunctionExpression::Avg(ref c) => FunctionV::Avg(c.simple_view()),
            FunctionExpression::Count(ref c) => FunctionV::Count(c.simple_view()),
            FunctionExpression::Max(ref c) => FunctionV::Max(c.simple_view()),
            FunctionExpression::Min(ref c) => FunctionV::Min(c.simple_view()),
            FunctionExpression::Sum(ref c) => FunctionV::Sum(c.simple_view()),
        }
    }
}

impl Column {
    /// The plain part of this column reference: its name and table.
    pub open spec fn simple_view(&self) -> SimpleColumnV {
        SimpleColumnV { name: self.name@, table: opt_bytes_view(self.table) }
    }
}

impl View for Column {
    type V = ColumnV;

    open spec fn view(&self) -> ColumnV {
        ColumnV {
            name: self.name@,
            table: opt_bytes_view(self.table),
            function: match self.function {
                Some(ref f) => Some(f@),
                None => None,
            },
        }
    }
}

impl Column {
    /// The column's textual rendering: `name`, or `table.name`.
    pub fn display(&self) -> (r: Vec<u8>)
        ensures
            r@ == spec_render_simple(self@.name, self@.table),
    {
        let mut out: Vec<u8> = Vec::new();
        match self.table {
            Some(ref t) => {
                push_all(&mut out, t.as_slice());
                out.push(46);
            },
            None => {},
        }
        push_all(&mut out, self.name.as_slice());
        proof {
            assert(out@ =~= spec_render_simple(self@.name, self@.table));
        }
        out
    }
}

/// Textual form of a plain column reference: `name`, or `table.name`.
pub open spec fn spec_render_simple(name: Seq<u8>, table: Option<Seq<u8>>) -> Seq<u8> {
    match table {
        Some(t) => t + seq![46u8] + name,
        None => name,
    }
}

/// Lower-case keyword of each aggregate function.
pub open spec fn kw_avg() -> Seq<u8> {
    seq![97u8, 118u8, 103u8]
}

pub open spec fn kw_count() -> Seq<u8> {
    seq![99u8, 111u8, 117u8, 110u8, 116u8]
}

pub open spec fn kw_max() -> Seq<u8> {
    seq![109u8, 97u8, 120u8]
}

pub open spec fn kw_min() -> Seq<u8> {
    seq![109u8, 105u8, 110u8]
}

pub open spec fn kw_sum() -> Seq<u8> {
    seq![115u8, 117u8, 109u8]
}

/// Textual form of an embedded aggregate call, e.g. `max(foo)`.
pub open spec fn spec_function_name(f: FunctionV) -> Seq<u8> {
    match f {
        FunctionV::Avg(c) => kw_avg() + seq![40u8] + spec_render_simple(c.name, c.table) + seq![41u8],
        FunctionV::Count(c) => kw_count() + seq![40u8] + spec_render_simple(c.name, c.table) + seq![41u8],
        FunctionV::Max(c) => kw_max() + seq![40u8] + spec_render_simple(c.name, c.table) + seq![41u8],
        FunctionV::Min(c) => kw_min() + seq![40u8] + spec_render_simple(c.name, c.table) + seq![41u8],
        FunctionV::Sum(c) => kw_sum() + seq![40u8] + spec_render_simple(c.name, c.table) + seq![41u8],
    }
}

/// A plain column reference: an identifier, or `table.column`.
/// A dot not followed by an identifier is left unconsumed.
pub open spec fn spec_simple_column(s: Seq<u8>, i: int) -> Option<(int, SimpleColumnV)> {
    match spec_identifier(s, i) {
        None => None,
        Some((j, first)) => if j < s.len() && s[j] == 46 {
            match spec_identifier(s, j + 1) {
                Some((k, second)) => Some((k, SimpleColumnV { name: second, table: Some(first) })),
                None => Some((j, SimpleColumnV { name: first, table: None })),
            }
        } else {
            Some((j, SimpleColumnV { name: first, table: None }))
        },
    }
}

/// After an aggregate keyword: `(`, optional whitespace, a plain column,
/// optional whitespace, `)`.
pub open spec fn spec_fn_args(s: Seq<u8>, i: int) -> Option<(int, SimpleColumnV)> {
    if 0 <= i < s.len() && s[i] == 40 {
        let j = spec_skip_space(s, i + 1);
        match spec_simple_column(s, j) {
            Some((k, c)) => {
                let m = spec_skip_space(s, k);
                if m < s.len() && s[m] == 41 {
                    Some((m + 1, c))
                } else {
                    None
                }
            },
            None => None,
        }
    } else {
        None
    }
}

/// An embedded aggregate call: one of the five keywords (case-insensitive)
/// followed by a parenthesized plain column.
pub open spec fn spec_column_function(s: Seq<u8>, i: int) -> Option<(int, FunctionV)> {
    if spec_match_kw(s, i, kw_avg()) && spec_fn_args(s, i + 3) is Some {
        match spec_fn_args(s, i + 3) {
            Some((j, c)) => Some((j, FunctionV::Avg(c))),
            None => None,
        }
    } else if spec_match_kw(s, i, kw_count()) && spec_fn_args(s, i + 5) is Some {
        match spec_fn_args(s, i + 5) {
            Some((j, c)) => Some((j, FunctionV::Count(c))),
            None => None,
        }
    } else if spec_match_kw(s, i, kw_max()) && spec_fn_args(s, i + 3) is Some {
        match spec_fn_args(s, i + 3) {
            Some((j, c)) => Some((j, FunctionV::Max(c))),
            None => None,
        }
    } else if spec_match_kw(s, i, kw_min()) && spec_fn_args(s, i + 3) is Some {
        match spec_fn_args(s, i + 3) {
            Some((j, c)) => Some((j, FunctionV::Min(c))),
            None => None,
        }
    } else if spec_match_kw(s, i, kw_sum()) && spec_fn_args(s, i + 3) is Some {
        match spec_fn_args(s, i + 3) {
            Some((j, c)) => Some((j, FunctionV::Sum(c))),
            None => None,
        }
    } else {
        None
    }
}

/// A column reference without an alias: an aggregate call if one is
/// recognized, else a plain (possibly qualified) column name.
pub open spec fn spec_column_no_alias(s: Seq<u8>, i: int) -> Option<(int, ColumnV)> {
    match spec_column_function(s, i) {
        Some((j, f)) => Some((j, ColumnV { name: spec_function_name(f), table: None, function: Some(f) })),
        None => match spec_simple_column(s, i) {
            Some((j, c)) => Some((j, ColumnV { name: c.name, table: c.table, function: None })),
            None => None,
        },
    }
}

/// A usable identifier: non-empty, identifier bytes only.
pub open spec fn wf_ident_bytes(name: Seq<u8>) -> bool {
    &&& name.len() >= 1
    &&& forall|k: int| 0 <= k < name.len() ==> is_ident_byte(#[trigger] name[k])
}

/// A plain column whose textual form reads back as itself.
pub open spec fn wf_simple_operand(c: SimpleColumnV) -> bool {
    &&& wf_ident_bytes(c.name)
    &&& match c.table {
        Some(t) => wf_ident_bytes(t),
        None => true,
    }
}

/// The argument recorded in an embedded aggregate call.
pub open spec fn spec_fn_arg(f: FunctionV) -> SimpleColumnV {
    match f {
        FunctionV::Avg(c) => c,
        FunctionV::Count(c) => c,
        FunctionV::Max(c) => c,
        FunctionV::Min(c) => c,
        FunctionV::Sum(c) => c,
    }
}

/// A column reference whose textual form reads back as itself: a plain
/// reference made of identifier bytes whose leading byte is not a digit,
/// or an aggregate call whose `name` is the call's own textual form.
pub open spec fn wf_column_operand(c: ColumnV) -> bool {
    match c.function {
        None => {
            &&& wf_simple_operand(SimpleColumnV { name: c.name, table: c.table })
            &&& match c.table {
                Some(t) => !is_digit(t[0]),
                None => !is_digit(c.name[0]),
            }
        },
        Some(f) => {
            &&& c.table is None
            &&& c.name == spec_function_name(f)
            &&& wf_simple_operand(spec_fn_arg(f))
        },
    }
}

/// The aggregate keywords are lower-case letters.
proof fn lemma_kws_lowercase()
    ensures
        forall|k: int| 0 <= k < kw_avg().len() ==> 97 <= #[trigger] kw_avg()[k] <= 122,
        forall|k: int| 0 <= k < kw_count().len() ==> 97 <= #[trigger] kw_count()[k] <= 122,
        forall|k: int| 0 <= k < kw_max().len() ==> 97 <= #[trigger] kw_max()[k] <= 122,
        forall|k: int| 0 <= k < kw_min().len() ==> 97 <= #[trigger] kw_min()[k] <= 122,
        forall|k: int| 0 <= k < kw_sum().len() ==> 97 <= #[trigger] kw_sum()[k] <= 122,
{
}

/// An identifier parse at a rendered name, bounded by a non-identifier
/// byte or the end of input, returns exactly that name.
pub proof fn lemma_parse_ident_at(s: Seq<u8>, i: int, name: Seq<u8>)
    requires
        wf_ident_bytes(name),
        0 <= i,
        i + name.len() <= s.len(),
        s.subrange(i, i + name.len()) == name,
        i + name.len() == s.len() || !is_ident_byte(s[i + name.len()]),
    ensures
        crate::common::spec_identifier(s, i) == Some((i + name.len(), name)),
{
    assert forall|m: int| i <= m < i + name.len() implies is_ident_byte(s[m]) by {
        assert(s.subrange(i, i + name.len() as int)[m - i] == s[m]);
    }
    lemma_ident_run(s, i, i + name.len());
}

/// A plain column parse at its rendered form, bounded by a byte that is
/// neither an identifier byte nor a dot (or by the end of input), returns
/// exactly that column.
pub proof fn lemma_parse_simple_column_at(s: Seq<u8>, i: int, c: SimpleColumnV)
    requires
        wf_simple_operand(c),
        0 <= i,
        i + spec_render_simple(c.name, c.table).len() <= s.len(),
        s.subrange(i, i + spec_render_simple(c.name, c.table).len())
            == spec_render_simple(c.name, c.table),
        i + spec_render_simple(c.name, c.table).len() == s.len()
            || (!is_ident_byte(s[i + spec_render_simple(c.name, c.table).len()])
                && s[i + spec_render_simple(c.name, c.table).len()] != 46),
    ensures
        spec_simple_column(s, i)
            == Some((i + spec_render_simple(c.name, c.table).len(), c)),
{
    let r = spec_render_simple(c.name, c.table);
    assert forall|m: int| i <= m < i + r.len() implies s[m] == r[m - i] by {
        assert(s.subrange(i, i + r.len() as int)[m - i] == s[m]);
    }
    match c.table {
        None => {
            lemma_parse_ident_at(s, i, c.name);
            assert(c =~= (SimpleColumnV { name: c.name, table: None }));
        },
        Some(t) => {
            let tl = t.len() as int;
            let nl = c.name.len() as int;
            assert(s.subrange(i, i + tl) =~= t) by {
                assert(forall|k: int| 0 <= k < tl ==> r[k] == t[k]);
            }
            assert(s[i + tl] == 46) by {
                assert(r[tl] == 46);
            }
            lemma_parse_ident_at(s, i, t);
            assert(s.subrange(i + tl + 1, i + tl + 1 + nl) =~= c.name) by {
                assert(forall|k: int| 0 <= k < nl ==> r[tl + 1 + k] == c.name[k]);
            }
            lemma_parse_ident_at(s, i + tl + 1, c.name);
            assert(c =~= (SimpleColumnV { name: c.name, table: Some(t) }));
        },
    }
}

/// With the bytes at `i` all identifier bytes or dots up to a boundary
/// that is not an opening parenthesis, no aggregate-call branch applies.
proof fn lemma_no_fn_branch(s: Seq<u8>, i: int, rlen: int, kw: Seq<u8>)
    requires
        0 <= i,
        i + rlen <= s.len(),
        rlen >= 1,
        kw.len() >= 1,
        forall|m: int| i <= m < i + rlen ==> is_ident_byte(#[trigger] s[m]) || s[m] == 46,
        i + rlen == s.len()
            || (!is_ident_byte(s[i + rlen]) && s[i + rlen] != 46 && s[i + rlen] != 40),
        forall|k: int| 0 <= k < kw.len() ==> 97 <= #[trigger] kw[k] <= 122,
    ensures
        spec_match_kw(s, i, kw) ==> spec_fn_args(s, i + kw.len()) is None,
{
    if spec_match_kw(s, i, kw) {
        let ip = i + kw.len() as int;
        if ip < s.len() && s[ip] == 40 {
            if ip < i + rlen {
                assert(is_ident_byte(s[ip]) || s[ip] == 46);
                assert(false);
            } else if ip == i + rlen {
                assert(false);
            } else {
                assert(i + rlen < s.len());
                let b = s[i + rlen];
                assert(to_lower(b) == kw[rlen]);
                assert(!is_ident_byte(b) && b != 46);
                assert(to_lower(b) == b);
                assert(is_ident_byte(kw[rlen]));
                assert(false);
            }
        }
    }
}

/// An aggregate-argument parse just after the keyword: `(`, the rendered
/// argument, `)`.
proof fn lemma_parse_fn_args_at(s: Seq<u8>, i: int, arg: SimpleColumnV)
    requires
        wf_simple_operand(arg),
        0 <= i,
        i + 2 + spec_render_simple(arg.name, arg.table).len() <= s.len(),
        s[i] == 40,
        s.subrange(i + 1, i + 1 + spec_render_simple(arg.name, arg.table).len())
            == spec_render_simple(arg.name, arg.table),
        s[i + 1 + spec_render_simple(arg.name, arg.table).len()] == 41,
    ensures
        spec_fn_args(s, i)
            == Some((i + 2 + spec_render_simple(arg.name, arg.table).len(), arg)),
{
    let ra = spec_render_simple(arg.name, arg.table);
    assert(s.subrange(i + 1, i + 1 + ra.len() as int)[0] == s[i + 1]);
    assert(s[i + 1] == ra[0]);
    assert(is_ident_byte(ra[0])) by {
        match arg.table {
            None => {
                assert(ra[0] == arg.name[0]);
            },
            Some(t) => {
                assert(ra[0] == t[0]);
            },
        }
    }
    assert(!is_space(s[i + 1]));
    assert(spec_skip_space(s, i + 1) == i + 1);
    lemma_parse_simple_column_at(s, i + 1, arg);
    assert(!is_space(s[i + 1 + ra.len()]));
    assert(spec_skip_space(s, i + 1 + ra.len()) == i + 1 + ra.len());
}

/// The keyword of an embedded aggregate call.
pub open spec fn spec_fn_kw(f: FunctionV) -> Seq<u8> {
    match f {
        FunctionV::Avg(_) => kw_avg(),
        FunctionV::Count(_) => kw_count(),
        FunctionV::Max(_) => kw_max(),
        FunctionV::Min(_) => kw_min(),
        FunctionV::Sum(_) => kw_sum(),
    }
}

/// The textual form of an aggregate call is its keyword, `(`, the
/// argument's form, `)`.
pub proof fn lemma_function_name_structure(f: FunctionV)
    ensures
        spec_function_name(f) == spec_fn_kw(f) + seq![40u8]
            + spec_render_simple(spec_fn_arg(f).name, spec_fn_arg(f).table) + seq![41u8],
{
}

/// A column parse at its rendered textual form, bounded by a byte that is
/// not an identifier byte, a dot or an opening parenthesis (or by the end
/// of input), returns exactly that column.
#[verifier::rlimit(100)]
pub proof fn lemma_parse_column_at(s: Seq<u8>, i: int, c: ColumnV)
    requires
        wf_column_operand(c),
        0 <= i,
        i + spec_render_simple(c.name, c.table).len() <= s.len(),
        s.subrange(i, i + spec_render_simple(c.name, c.table).len())
            == spec_render_simple(c.name, c.table),
        ({
            let e = i + spec_render_simple(c.name, c.table).len();
            e == s.len() || (!is_ident_byte(s[e]) && s[e] != 46 && s[e] != 40)
        }),
    ensures
        spec_column_no_alias(s, i)
            == Some((i + spec_render_simple(c.name, c.table).len(), c)),
{
    let r = spec_render_simple(c.name, c.table);
    assert forall|m: int| i <= m < i + r.len() implies s[m] == r[m - i] by {
        assert(s.subrange(i, i + r.len() as int)[m - i] == s[m]);
    }
    lemma_kws_lowercase();
    match c.function {
        None => {
            assert forall|m: int| i <= m < i + r.len()
                implies is_ident_byte(#[trigger] s[m]) || s[m] == 46 by {
                match c.table {
                    None => {
                        assert(r[m - i] == c.name[m - i]);
                    },
                    Some(t) => {
                        let tl = t.len() as int;
                        if m - i < tl {
                            assert(r[m - i] == t[m - i]);
                        } else if m - i == tl {
                            assert(r[m - i] == 46);
                        } else {
                            assert(r[m - i] == c.name[m - i - tl - 1]);
                        }
                    },
                }
            }
            lemma_no_fn_branch(s, i, r.len() as int, kw_avg());
            lemma_no_fn_branch(s, i, r.len() as int, kw_count());
            lemma_no_fn_branch(s, i, r.len() as int, kw_max());
            lemma_no_fn_branch(s, i, r.len() as int, kw_min());
            lemma_no_fn_branch(s, i, r.len() as int, kw_sum());
            assert(spec_column_function(s, i) is None);
            lemma_parse_simple_column_at(s, i, SimpleColumnV { name: c.name, table: c.table });
            assert(c =~= (ColumnV { name: c.name, table: c.table, function: None }));
        },
        Some(f) => {
            lemma_function_name_structure(f);
            let kw = spec_fn_kw(f);
            let arg = spec_fn_arg(f);
            let ra = spec_render_simple(arg.name, arg.table);
            let kl = kw.len() as int;
            assert(r == c.name);
            assert(r.len() == kl + 2 + ra.len());
            assert(spec_match_kw(s, i, kw)) by {
                assert forall|k: int| 0 <= k < kl implies to_lower(s[i + k]) == kw[k] by {
                    assert(r[k] == kw[k]);
                    assert(to_lower(kw[k]) == kw[k]);
                }
            }
            assert(s[i + kl] == 40) by {
                assert(r[kl] == 40);
            }
            assert(s.subrange(i + kl + 1, i + kl + 1 + ra.len() as int) =~= ra) by {
                assert forall|k: int| 0 <= k < ra.len()
                    implies s.subrange(i + kl + 1, i + kl + 1 + ra.len() as int)[k] == ra[k] by {
                    assert(r[kl + 1 + k] == ra[k]);
                }
            }
            assert(s[i + kl + 1 + ra.len()] == 41) by {
                assert(r[kl + 1 + ra.len()] == 41);
            }
            lemma_parse_fn_args_at(s, i + kl, arg);
            match f {
                FunctionV::Avg(_) => {},
                FunctionV::Count(_) => {
                    if spec_match_kw(s, i, kw_avg()) {
                        assert(to_lower(s[i]) == kw_avg()[0]);
                        assert(false);
                    }
                },
                FunctionV::Max(_) => {
                    if spec_match_kw(s, i, kw_avg()) {
                        assert(to_lower(s[i]) == kw_avg()[0]);
                        assert(false);
                    }
                    if spec_match_kw(s, i, kw_count()) {
                        assert(to_lower(s[i]) == kw_count()[0]);
                        assert(false);
                    }
                },
                FunctionV::Min(_) => {
                    if spec_match_kw(s, i, kw_avg()) {
                        assert(to_lower(s[i]) == kw_avg()[0]);
                        assert(false);
                    }
                    if spec_match_kw(s, i, kw_count()) {
                        assert(to_lower(s[i]) == kw_count()[0]);
                        assert(false);
                    }
                    if spec_match_kw(s, i, kw_max()) {
                        assert(to_lower(s[i + 1]) == kw_max()[1]);
                        assert(s[i + 1] == kw_min()[1]);
                        assert(false);
                    }
                },
                FunctionV::Sum(_) => {
                    if spec_match_kw(s, i, kw_avg()) {
                        assert(to_lower(s[i]) == kw_avg()[0]);
                        assert(false);
                    }
                    if spec_match_kw(s, i, kw_count()) {
                        assert(to_lower(s[i]) == kw_count()[0]);
                        assert(false);
                    }
                    if spec_match_kw(s, i, kw_max()) {
                        assert(to_lower(s[i]) == kw_max()[0]);
                        assert(false);
                    }
                    if spec_match_kw(s, i, kw_min()) {
                        assert(to_lower(s[i]) == kw_min()[0]);
                        assert(false);
                    }
                },
            }
            assert(spec_column_function(s, i) == Some((i + r.len(), f)));
            assert(c =~= (ColumnV {
                name: spec_function_name(f),
                table: None,
                function: Some(f),
            }));
        },
    }
}

/// Recognize a plain column reference: `name` or `table.name`.
pub fn simple_column(input: &[u8], pos: usize) -> (r: Option<(usize, Column)>)
    requires
        pos <= input@.len(),
    ensures
        match r {
            Some((j, col)) => spec_simple_column(input@, pos as int) == Some((j as int, col.simple_view()))
                && col.function is None && col@.function is None
                && pos < j <= input@.len(),
            None => spec_simple_column(input@, pos as int) is None,
        },
{
    match sql_identifier(input, pos) {
        None => None,
        Some((j, first)) => {
            if j < input.len() && input[j] == 46 {
                match sql_identifier(input, j + 1) {
                    Some((k, second)) => Some((k, Column { name: second, table: Some(first), function: None })),
                    None => Some((j, Column { name: first, table: None, function: None })),
                }
            } else {
                Some((j, Column { name: first, table: None, function: None }))
            }
        },
    }
}

/// Recognize the parenthesized argument of an aggregate call.
fn fn_args(input: &[u8], pos: usize) -> (r: Option<(usize, Column)>)
    requires
        pos <= input@.len(),
    ensures
        match r {
            Some((j, col)) => spec_fn_args(input@, pos as int) == Some((j as int, col.simple_view()))
                && col.function is None
                && pos < j <= input@.len(),
            None => spec_fn_args(input@, pos as int) is None,
        },
{
    if pos < input.len() && input[pos] == 40 {
        let j = opt_multispace(input, pos + 1);
        match simple_column(input, j) {
            Some((k, c)) => {
                let m = opt_multispace(input, k);
                if m < input.len() && input[m] == 41 {
                    Some((m + 1, c))
                } else {
                    None
                }
            },
            None => None,
        }
    } else {
        None
    }
}

/// Recognize an embedded aggregate call such as `MAX(foo)`.
pub fn column_function(input: &[u8], pos: usize) -> (r: Option<(usize, FunctionExpression)>)
    requires
        pos <= input@.len(),
    ensures
        match r {
            Some((j, f)) => spec_column_function(input@, pos as int) == Some((j as int, f@))
                && pos < j <= input@.len(),
            None => spec_column_function(input@, pos as int) is None,
        },
{
    let kw_avg_b: [u8; 3] = [97, 118, 103];
    let kw_count_b: [u8; 5] = [99, 111, 117, 110, 116];
    let kw_max_b: [u8; 3] = [109, 97, 120];
    let kw_min_b: [u8; 3] = [109, 105, 110];
    let kw_sum_b: [u8; 3] = [115, 117, 109];
    proof {
        assert(kw_avg_b@ =~= kw_avg());
        assert(kw_count_b@ =~= kw_count());
        assert(kw_max_b@ =~= kw_max());
        assert(kw_min_b@ =~= kw_min());
        assert(kw_sum_b@ =~= kw_sum());
    }
    let n = input.len();
    if match_keyword(input, pos, kw_avg_b.as_slice()) {
        assert(pos + 3 <= n);
        match fn_args(input, pos + 3) {
            Some((j, c)) => { return Some((j, FunctionExpression::Avg(c))); },
            None => {},
        }
    }
    if match_keyword(input, pos, kw_count_b.as_slice()) {
        assert(pos + 5 <= n);
        match fn_args(input, pos + 5) {
            Some((j, c)) => { return Some((j, FunctionExpression::Count(c))); },
            None => {},
        }
    }
    if match_keyword(input, pos, kw_max_b.as_slice()) {
        assert(pos + 3 <= n);
        match fn_args(input, pos + 3) {
            Some((j, c)) => { return Some((j, FunctionExpression::Max(c))); },
            None => {},
        }
    }
    if match_keyword(input, pos, kw_min_b.as_slice()) {
        assert(pos + 3 <= n);
        match fn_args(input, pos + 3) {
            Some((j, c)) => { return Some((j, FunctionExpression::Min(c))); },
            None => {},
        }
    }
    if match_keyword(input, pos, kw_sum_b.as_slice()) {
        assert(pos + 3 <= n);
        match fn_args(input, pos + 3) {
            Some((j, c)) => { return Some((j, FunctionExpression::Sum(c))); },
            None => {},
        }
    }
    None
}

/// Build the textual form of an embedded aggregate call.
fn function_name_bytes(f: &FunctionExpression) -> (r: Vec<u8>)
    ensures
        r@ == spec_function_name(f@),
{
    let kw_avg_b: [u8; 3] = [97, 118, 103];
    let kw_count_b: [u8; 5] = [99, 111, 117, 110, 116];
    let kw_max_b: [u8; 3] = [109, 97, 120];
    let kw_min_b: [u8; 3] = [109, 105, 110];
    let kw_sum_b: [u8; 3] = [115, 117, 109];
    let mut out: Vec<u8> = Vec::new();
    let col: &Column = match f {
        FunctionExpression::Avg(c) => { push_all(&mut out, kw_avg_b.as_slice()); c },
        FunctionExpression::Count(c) => { push_all(&mut out, kw_count_b.as_slice()); c },
        FunctionExpression::Max(c) => { push_all(&mut out, kw_max_b.as_slice()); c },
        FunctionExpression::Min(c) => { push_all(&mut out, kw_min_b.as_slice()); c },
        FunctionExpression::Sum(c) => { push_all(&mut out, kw_sum_b.as_slice()); c },
    };
    proof {
        assert(kw_avg_b@ =~= kw_avg());
        assert(kw_count_b@ =~= kw_count());
        assert(kw_max_b@ =~= kw_max());
        assert(kw_min_b@ =~= kw_min());
        assert(kw_sum_b@ =~= kw_sum());
    }
    out.push(40);
    match col.table {
        Some(ref t) => {
            push_all(&mut out, t.as_slice());
            out.push(46);
        },
        None => {},
    }
    push_all(&mut out, col.name.as_slice());
    out.push(41);
    proof {
        assert(out@ =~= spec_function_name(f@));
    }
    out
}

/// Recognize a column reference without an alias. An aggregate call is
/// tried first; a column whose recognition fails mid-call falls back to a
/// plain identifier.
pub fn column_identifier_no_alias(input: &[u8], pos: usize) -> (r: Option<(usize, Column)>)
    requires
        pos <= input@.len(),
    ensures
        match r {
            Some((j, col)) => spec_column_no_alias(input@, pos as int) == Some((j as int, col@))
                && pos < j <= input@.len(),
            None => spec_column_no_alias(input@, pos as int) is None,
        },
{
    match column_function(input, pos) {
        Some((j, f)) => {
            let name = function_name_bytes(&f);
            let col = Column { name, table: None, function: Some(Box::new(f)) };
            proof {
                assert(col@ =~= (ColumnV {
                    name: spec_function_name(f@),
                    table: None,
                    function: Some(f@),
                }));
            }
            Some((j, col))
        },
        None => match simple_column(input, pos) {
            Some((j, c)) => {
                proof {
                    assert(c@ =~= (ColumnV { name: c.simple_view().name, table: c.simple_view().table, function: None }));
                }
                Some((j, c))
            },
            None => None,
        },
    }
}

} // verus!
