//! Arithmetic expression grammar: a flat `base OP base` triple over
//! columns and integer literals, with its textual rendering.

use vstd::prelude::*;

use crate::column::{
    Column, ColumnV, column_identifier_no_alias, spec_column_no_alias, spec_render_simple,
};
use crate::common::{
    Literal, integer_literal, opt_multispace, spec_integer_literal, spec_skip_space,
    push_all,
};

verus! {

/// The arithmetic operator vocabulary: `+`, `-`, `*`, `/`.
#[derive(Clone, Copy, Debug, PartialEq, Eq, Hash, Structural)]
pub enum ArithmeticOperator {
    Add,
    Subtract,
    Multiply,
    Divide,
}

/// One operand of an arithmetic expression: a column reference or a
/// scalar literal.
#[derive(Debug, PartialEq, Eq, Hash)]
pub enum ArithmeticBase {
    Column(Column),
    Scalar(Literal),
}

/// Mathematical model of an operand.
#[verifier::ext_equal]
pub enum ArithmeticBaseV {
    Column(ColumnV),
    Scalar(i64),
}

impl View for ArithmeticBase {
    type V = ArithmeticBaseV;

    open spec fn view(&self) -> ArithmeticBaseV {
        match *self {
            ArithmeticBase::Column(ref c) => ArithmeticBaseV::Column(c@),
            ArithmeticBase::Scalar(ref l) => ArithmeticBaseV::Scalar(l@),
        }
    }
}

/// A flat binary arithmetic expression: exactly one operator and two
/// operands, with no nesting.
#[derive(Debug, PartialEq, Eq, Hash)]
pub struct ArithmeticExpression {
    pub op: ArithmeticOperator,
    pub left: ArithmeticBase,
    pub right: ArithmeticBase,
}

/// Mathematical model of an arithmetic expression.
#[verifier::ext_equal]
pub struct ArithmeticExpressionV {
    pub op: ArithmeticOperator,
    pub left: ArithmeticBaseV,
    pub right: ArithmeticBaseV,
}

impl View for ArithmeticExpression {
    type V = ArithmeticExpressionV;

    open spec fn view(&self) -> ArithmeticExpressionV {
        ArithmeticExpressionV { op: self.op, left: self.left@, right: self.right@ }
    }
}

impl ArithmeticExpression {
    /// Assemble an expression from its operator and operands.
    pub fn new(op: ArithmeticOperator, left: ArithmeticBase, right: ArithmeticBase) -> (r: Self)
        ensures
            r == (ArithmeticExpression { op, left, right }),
    {
        Self { op, left, right }
    }
}

/// The symbol of each operator.
pub open spec fn spec_op_byte(op: ArithmeticOperator) -> u8 {
    match op {
        ArithmeticOperator::Add => 43,
        ArithmeticOperator::Subtract => 45,
        ArithmeticOperator::Multiply => 42,
        ArithmeticOperator::Divide => 47,
    }
}

/// An arithmetic operator: exactly one of the four symbols, tried in the
/// order `+`, `-`, `*`, `/`.
pub open spec fn spec_arithmetic_operator(s: Seq<u8>, i: int) -> Option<(int, ArithmeticOperator)> {
    if 0 <= i < s.len() {
        if s[i] == 43 {
            Some((i + 1, ArithmeticOperator::Add))
        } else if s[i] == 45 {
            Some((i + 1, ArithmeticOperator::Subtract))
        } else if s[i] == 42 {
            Some((i + 1, ArithmeticOperator::Multiply))
        } else if s[i] == 47 {
            Some((i + 1, ArithmeticOperator::Divide))
        } else {
            None
        }
    } else {
        None
    }
}

/// An operand: an integer literal if one applies, else a column
/// reference. The literal is tried first, so a bare number is never read
/// as a column name.
pub open spec fn spec_arithmetic_base(s: Seq<u8>, i: int) -> Option<(int, ArithmeticBaseV)> {
    match spec_integer_literal(s, i) {
        Some((j, v)) => Some((j, ArithmeticBaseV::Scalar(v))),
        None => match spec_column_no_alias(s, i) {
            Some((j, c)) => Some((j, ArithmeticBaseV::Column(c))),
            None => None,
        },
    }
}

/// A whole expression: base, optional whitespace, operator, optional
/// whitespace, base. If any of the three parts fails, the whole
/// recognition fails; trailing input is left unconsumed.
pub open spec fn spec_arithmetic_expression(s: Seq<u8>, i: int) -> Option<(int, ArithmeticExpressionV)> {
    match spec_arithmetic_base(s, i) {
        Some((j, l)) => {
            let j2 = spec_skip_space(s, j);
            match spec_arithmetic_operator(s, j2) {
                Some((k, op)) => {
                    let k2 = spec_skip_space(s, k);
                    match spec_arithmetic_base(s, k2) {
                        Some((m, r)) => Some((m, ArithmeticExpressionV { op, left: l, right: r })),
                        None => None,
                    }
                },
                None => None,
            }
        },
        None => None,
    }
}

/// Recognize one arithmetic operator symbol.
pub fn arithmetic_operator(input: &[u8], pos: usize) -> (r: Option<(usize, ArithmeticOperator)>)
    requires
        pos <= input@.len(),
    ensures
        match r {
            Some((j, op)) => spec_arithmetic_operator(input@, pos as int) == Some((j as int, op))
                && pos < j <= input@.len(),
            None => spec_arithmetic_operator(input@, pos as int) is None,
        },
{
    if pos < input.len() {
        let b = input[pos];
        if b == 43 {
            Some((pos + 1, ArithmeticOperator::Add))
        } else if b == 45 {
            Some((pos + 1, ArithmeticOperator::Subtract))
        } else if b == 42 {
            Some((pos + 1, ArithmeticOperator::Multiply))
        } else if b == 47 {
            Some((pos + 1, ArithmeticOperator::Divide))
        } else {
            None
        }
    } else {
        None
    }
}

/// Recognize one operand.
pub fn arithmetic_base(input: &[u8], pos: usize) -> (r: Option<(usize, ArithmeticBase)>)
    requires
        pos <= input@.len(),
    ensures
        match r {
            Some((j, b)) => spec_arithmetic_base(input@, pos as int) == Some((j as int, b@))
                && pos < j <= input@.len(),
            None => spec_arithmetic_base(input@, pos as int) is None,
        },
{
    match integer_literal(input, pos) {
        Some((j, lit)) => Some((j, ArithmeticBase::Scalar(lit))),
        None => match column_identifier_no_alias(input, pos) {
            Some((j, c)) => Some((j, ArithmeticBase::Column(c))),
            None => None,
        },
    }
}

/// Recognize one whole arithmetic expression.
pub fn arithmetic_expression(input: &[u8], pos: usize) -> (r: Option<(usize, ArithmeticExpression)>)
    requires
        pos <= input@.len(),
    ensures
        match r {
            Some((j, e)) => spec_arithmetic_expression(input@, pos as int) == Some((j as int, e@))
                && pos < j <= input@.len(),
            None => spec_arithmetic_expression(input@, pos as int) is None,
        },
{
    match arithmetic_base(input, pos) {
        None => None,
        Some((j, left)) => {
            let j2 = opt_multispace(input, j);
            match arithmetic_operator(input, j2) {
                None => None,
                Some((k, op)) => {
                    let k2 = opt_multispace(input, k);
                    match arithmetic_base(input, k2) {
                        None => None,
                        Some((m, right)) => Some((m, ArithmeticExpression { op, left, right })),
                    }
                },
            }
        },
    }
}

/// Textual form of an operand: the column's rendering, or the literal's.
pub open spec fn spec_render_base(b: ArithmeticBaseV) -> Seq<u8> {
    match b {
        ArithmeticBaseV::Column(c) => spec_render_simple(c.name, c.table),
        ArithmeticBaseV::Scalar(v) => crate::common::spec_render_int(v as int),
    }
}

/// Textual form of an expression: `left`, one space, the operator symbol,
/// one space, `right`.
pub open spec fn spec_render_expr(e: ArithmeticExpressionV) -> Seq<u8> {
    spec_render_base(e.left) + seq![32u8, spec_op_byte(e.op), 32u8] + spec_render_base(e.right)
}

impl ArithmeticOperator {
    /// The operator's textual rendering: its one-byte symbol.
    pub fn display(&self) -> (r: Vec<u8>)
        ensures
            r@ == seq![spec_op_byte(*self)],
    {
        let mut out: Vec<u8> = Vec::new();
        match *self {
            ArithmeticOperator::Add => out.push(43),
            ArithmeticOperator::Subtract => out.push(45),
            ArithmeticOperator::Multiply => out.push(42),
            ArithmeticOperator::Divide => out.push(47),
        }
        proof {
            assert(out@ =~= seq![spec_op_byte(*self)]);
        }
        out
    }
}

impl ArithmeticBase {
    /// The operand's textual rendering.
    pub fn display(&self) -> (r: Vec<u8>)
        ensures
            r@ == spec_render_base(self@),
    {
        match *self {
            ArithmeticBase::Column(ref c) => c.display(),
            ArithmeticBase::Scalar(ref l) => l.display(),
        }
    }
}

impl ArithmeticExpression {
    /// The expression's textual rendering, used for round-trip checks:
    /// `left`, one space, the operator symbol, one space, `right`.
    pub fn display(&self) -> (r: Vec<u8>)
        ensures
            r@ == spec_render_expr(self@),
    {
        let mut out = self.left.display();
        out.push(32);
        let op = self.op.display();
        push_all(&mut out, op.as_slice());
        out.push(32);
        let rhs = self.right.display();
        push_all(&mut out, rhs.as_slice());
        proof {
            assert(out@ =~= spec_render_expr(self@));
        }
        out
    }
}

/// A byte that may directly follow an operand: whitespace or an operator
/// symbol.
pub open spec fn is_token_boundary(b: u8) -> bool {
    crate::common::is_space(b) || b == 43 || b == 45 || b == 42 || b == 47
}

/// An operand whose textual form reads back as itself: a non-negative
/// scalar, or a well-formed column reference whose leading byte is not a
/// digit (a digit-led name would read back as a literal instead).
pub open spec fn wf_base(b: ArithmeticBaseV) -> bool {
    match b {
        ArithmeticBaseV::Scalar(v) => v >= 0,
        ArithmeticBaseV::Column(c) => crate::column::wf_column_operand(c),
    }
}

/// An expression whose operands both read back as themselves.
pub open spec fn wf_expr(e: ArithmeticExpressionV) -> bool {
    wf_base(e.left) && wf_base(e.right)
}

/// Every byte of `w` is whitespace.
pub open spec fn all_space(w: Seq<u8>) -> bool {
    forall|k: int| 0 <= k < w.len() ==> crate::common::is_space(#[trigger] w[k])
}

/// A rendered operand is non-empty and does not begin with a space.
proof fn lemma_render_base_head(b: ArithmeticBaseV)
    requires
        wf_base(b),
    ensures
        spec_render_base(b).len() >= 1,
        !crate::common::is_space(spec_render_base(b)[0]),
        b is Column ==> !crate::common::is_digit(spec_render_base(b)[0]),
{
    match b {
        ArithmeticBaseV::Scalar(v) => {
            crate::common::lemma_render_digits_bytes(v as int);
        },
        ArithmeticBaseV::Column(c) => {
            match c.function {
                None => {
                    match c.table {
                        None => {
                            assert(spec_render_base(b)[0] == c.name[0]);
                        },
                        Some(t) => {
                            assert(spec_render_base(b)[0] == t[0]);
                        },
                    }
                },
                Some(f) => {
                    crate::column::lemma_function_name_structure(f);
                    assert(spec_render_base(b)[0] == crate::column::spec_fn_kw(f)[0]);
                    match f {
                        crate::column::FunctionV::Avg(_) => {
                            assert(crate::column::spec_fn_kw(f)[0] == 97);
                        },
                        crate::column::FunctionV::Count(_) => {
                            assert(crate::column::spec_fn_kw(f)[0] == 99);
                        },
                        crate::column::FunctionV::Max(_) => {
                            assert(crate::column::spec_fn_kw(f)[0] == 109);
                        },
                        crate::column::FunctionV::Min(_) => {
                            assert(crate::column::spec_fn_kw(f)[0] == 109);
                        },
                        crate::column::FunctionV::Sum(_) => {
                            assert(crate::column::spec_fn_kw(f)[0] == 115);
                        },
                    }
                },
            }
        },
    }
}

/// An operand parse at its rendered form, bounded by whitespace, an
/// operator symbol or the end of input, returns exactly that operand.
pub proof fn lemma_parse_base_at(s: Seq<u8>, i: int, b: ArithmeticBaseV)
    requires
        wf_base(b),
        0 <= i,
        i + spec_render_base(b).len() <= s.len(),
        s.subrange(i, i + spec_render_base(b).len()) == spec_render_base(b),
        i + spec_render_base(b).len() == s.len()
            || is_token_boundary(s[i + spec_render_base(b).len()]),
    ensures
        spec_arithmetic_base(s, i) == Some((i + spec_render_base(b).len(), b)),
{
    let r = spec_render_base(b);
    lemma_render_base_head(b);
    match b {
        ArithmeticBaseV::Scalar(v) => {
            crate::common::lemma_parse_int_at(s, i, v);
        },
        ArithmeticBaseV::Column(c) => {
            assert(s.subrange(i, i + r.len() as int)[0] == s[i]);
            assert(s[i] == r[0]);
            assert(spec_integer_literal(s, i) is None) by {
                assert(crate::common::spec_digits_end(s, i) == i);
            }
            crate::column::lemma_parse_column_at(s, i, c);
        },
    }
}

/// Whitespace tolerance law: an expression's rendered operands joined by
/// its operator symbol parse back to exactly that expression, whatever
/// runs of whitespace (possibly empty) stand on either side of the
/// operator, and the parse consumes the whole text. In particular, texts
/// that differ only in such whitespace parse to identical expressions.
pub proof fn lemma_whitespace_tolerance(e: ArithmeticExpressionV, w1: Seq<u8>, w2: Seq<u8>)
    requires
        wf_expr(e),
        all_space(w1),
        all_space(w2),
    ensures
        ({
            let s = spec_render_base(e.left) + w1 + seq![spec_op_byte(e.op)] + w2
                + spec_render_base(e.right);
            spec_arithmetic_expression(s, 0) == Some((s.len() as int, e))
        }),
{
    let rl = spec_render_base(e.left);
    let rr = spec_render_base(e.right);
    let opb = spec_op_byte(e.op);
    let s = rl + w1 + seq![opb] + w2 + rr;
    let ll = rl.len() as int;
    let w1l = w1.len() as int;
    let w2l = w2.len() as int;
    lemma_render_base_head(e.left);
    lemma_render_base_head(e.right);
    assert(s.subrange(0, ll) =~= rl) by {
        assert(forall|k: int| 0 <= k < ll ==> s.subrange(0, ll)[k] == #[trigger] rl[k]);
    }
    assert(s[ll + w1l] == opb);
    assert(!crate::common::is_space(opb) && !crate::common::is_digit(opb)
        && !crate::common::is_ident_byte(opb) && opb != 46 && opb != 40);
    assert(is_token_boundary(s[ll])) by {
        if w1l > 0 {
            assert(s[ll] == w1[0]);
        } else {
            assert(s[ll] == opb);
        }
    }
    lemma_parse_base_at(s, 0, e.left);
    assert(forall|m: int| ll <= m < ll + w1l ==> crate::common::is_space(#[trigger] s[m])) by {
        assert(forall|m: int| ll <= m < ll + w1l ==> s[m] == w1[m - ll]);
    }
    crate::common::lemma_skip_space_run(s, ll, ll + w1l);
    let j2 = ll + w1l;
    assert(spec_arithmetic_operator(s, j2) == Some((j2 + 1, e.op)));
    let k2s = j2 + 1;
    assert(forall|m: int| k2s <= m < k2s + w2l ==> crate::common::is_space(#[trigger] s[m])) by {
        assert(forall|m: int| k2s <= m < k2s + w2l ==> s[m] == w2[m - k2s]);
    }
    assert(k2s + w2l == s.len() || !crate::common::is_space(s[k2s + w2l])) by {
        if k2s + w2l < s.len() {
            assert(s[k2s + w2l] == rr[0]);
        }
    }
    crate::common::lemma_skip_space_run(s, k2s, k2s + w2l);
    let k2 = k2s + w2l;
    assert(s.subrange(k2, k2 + rr.len() as int) =~= rr) by {
        assert(forall|k: int| 0 <= k < rr.len()
            ==> s.subrange(k2, k2 + rr.len() as int)[k] == #[trigger] rr[k]);
    }
    lemma_parse_base_at(s, k2, e.right);
    assert(spec_arithmetic_expression(s, 0) == Some((s.len() as int,
        ArithmeticExpressionV { op: e.op, left: e.left, right: e.right })));
    assert(e =~= (ArithmeticExpressionV { op: e.op, left: e.left, right: e.right }));
}

/// Round-trip law: rendering an expression and parsing the result back
/// reproduces a structurally equal expression, consuming the whole text.
/// It holds of every expression whose operands read back as themselves
/// (`wf_expr`): a negative scalar or a column name that is not made of
/// identifier bytes has no parseable rendering in this grammar.
pub proof fn lemma_round_trip(e: ArithmeticExpressionV)
    requires
        wf_expr(e),
    ensures
        spec_arithmetic_expression(spec_render_expr(e), 0)
            == Some((spec_render_expr(e).len() as int, e)),
{
    lemma_whitespace_tolerance(e, seq![32u8], seq![32u8]);
    assert(spec_render_expr(e) =~= spec_render_base(e.left) + seq![32u8]
        + seq![spec_op_byte(e.op)] + seq![32u8] + spec_render_base(e.right));
}

/// Operand precedence law: input that is recognized as an integer literal
/// is always read as a `Scalar` operand, never as a column reference.
pub proof fn lemma_base_prefers_scalar(s: Seq<u8>, i: int)
    requires
        spec_integer_literal(s, i) is Some,
    ensures
        spec_arithmetic_base(s, i) == Some((
            spec_integer_literal(s, i)->Some_0.0,
            ArithmeticBaseV::Scalar(spec_integer_literal(s, i)->Some_0.1),
        )),
{
}

} // verus!
