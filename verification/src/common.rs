//! Lexical collaborators shared by both grammar modules: byte classes,
//! whitespace skipping, case-insensitive keyword matching, integer
//! literals, identifiers, and the field vocabulary of a single select.

use vstd::prelude::*;

verus! {

/// A horizontal or vertical space byte: space, tab, line feed, carriage return.
pub open spec fn is_space(b: u8) -> bool {
    b == 32 || b == 9 || b == 10 || b == 13
}

/// An ASCII decimal digit.
pub open spec fn is_digit(b: u8) -> bool {
    48 <= b <= 57
}

/// A byte that may occur in an identifier: letter, digit or underscore.
pub open spec fn is_ident_byte(b: u8) -> bool {
    is_digit(b) || (97 <= b <= 122) || (65 <= b <= 90) || b == 95
}

/// ASCII lower-casing of a single byte; bytes outside `A`..`Z` are unchanged.
pub open spec fn to_lower(b: u8) -> u8 {
    if 65 <= b <= 90 {
        (b + 32) as u8
    } else {
        b
    }
}

/// Position just past the run of space bytes starting at `i`.
pub open spec fn spec_skip_space(s: Seq<u8>, i: int) -> int
    decreases s.len() - i,
{
    if 0 <= i < s.len() && is_space(s[i]) {
        spec_skip_space(s, i + 1)
    } else {
        i
    }
}

/// `spec_skip_space` stays within bounds and stops at a non-space byte.
pub proof fn lemma_skip_space_bounds(s: Seq<u8>, i: int)
    requires
        0 <= i <= s.len(),
    ensures
        i <= spec_skip_space(s, i) <= s.len(),
        spec_skip_space(s, i) < s.len() ==> !is_space(s[spec_skip_space(s, i)]),
    decreases s.len() - i,
{
    if i < s.len() && is_space(s[i]) {
        lemma_skip_space_bounds(s, i + 1);
    }
}

/// Consume zero or more space bytes; never fails.
pub fn opt_multispace(input: &[u8], pos: usize) -> (r: usize)
    requires
        pos <= input@.len(),
    ensures
        r == spec_skip_space(input@, pos as int),
        pos <= r <= input@.len(),
{
    let mut i: usize = pos;
    while i < input.len() && (input[i] == 32 || input[i] == 9 || input[i] == 10 || input[i] == 13)
        invariant
            pos <= i <= input@.len(),
            spec_skip_space(input@, pos as int) == spec_skip_space(input@, i as int),
        decreases input@.len() - i,
    {
        i = i + 1;
    }
    i
}

/// Position just past one-or-more space bytes, or `None` if none is present.
pub open spec fn spec_multispace(s: Seq<u8>, i: int) -> Option<int> {
    if 0 <= i < s.len() && is_space(s[i]) {
        Some(spec_skip_space(s, i + 1))
    } else {
        None
    }
}

/// Consume one or more space bytes; fails if none is present.
pub fn multispace(input: &[u8], pos: usize) -> (r: Option<usize>)
    requires
        pos <= input@.len(),
    ensures
        match r {
            Some(j) => spec_multispace(input@, pos as int) == Some(j as int) && pos < j <= input@.len(),
            None => spec_multispace(input@, pos as int) is None,
        },
{
    if pos < input.len() && (input[pos] == 32 || input[pos] == 9 || input[pos] == 10 || input[pos] == 13) {
        proof {
            lemma_skip_space_bounds(input@, pos + 1);
        }
        Some(opt_multispace(input, pos + 1))
    } else {
        None
    }
}

/// The keyword `kw` occurs at position `i` of `s`, compared ASCII-case-insensitively.
pub open spec fn spec_match_kw(s: Seq<u8>, i: int, kw: Seq<u8>) -> bool {
    &&& 0 <= i
    &&& i + kw.len() <= s.len()
    &&& forall|k: int| 0 <= k < kw.len() ==> to_lower(s[i + k]) == kw[k]
}

/// Case-insensitive keyword recognition; `kw` is given in lower case.
pub fn match_keyword(input: &[u8], pos: usize, kw: &[u8]) -> (r: bool)
    requires
        pos <= input@.len(),
    ensures
        r == spec_match_kw(input@, pos as int, kw@),
{
    let n = input.len();
    if n - pos < kw.len() {
        return false;
    }
    let mut k: usize = 0;
    while k < kw.len()
        invariant
            0 <= k <= kw@.len(),
            pos + kw@.len() <= input@.len(),
            input@.len() <= usize::MAX,
            forall|m: int| 0 <= m < k ==> to_lower(input@[pos + m]) == kw@[m],
        decreases kw@.len() - k,
    {
        assert(pos + k < input@.len());
        let c = input[pos + k];
        let c = if 65 <= c && c <= 90 { c + 32 } else { c };
        if c != kw[k] {
            assert(to_lower(input@[pos + k as int]) != kw@[k as int]);
            return false;
        }
        k = k + 1;
    }
    true
}

/// View of an optional byte buffer.
pub open spec fn opt_bytes_view(o: Option<Vec<u8>>) -> Option<Seq<u8>> {
    match o {
        Some(v) => Some(v@),
        None => None,
    }
}

/// Append every byte of `s` to `out`.
pub fn push_all(out: &mut Vec<u8>, s: &[u8])
    ensures
        final(out)@ == old(out)@ + s@,
{
    let mut k: usize = 0;
    while k < s.len()
        invariant
            0 <= k <= s@.len(),
            out@ == old(out)@ + s@.subrange(0, k as int),
        decreases s@.len() - k,
    {
        out.push(s[k]);
        assert(s@.subrange(0, k + 1 as int) =~= s@.subrange(0, k as int) + seq![s@[k as int]]);
        k = k + 1;
    }
    assert(s@.subrange(0, s@.len() as int) =~= s@);
}

/// An opaque literal value with a defined textual rendering.
///
/// Only integer literals are recognized by this core's collaborators.
#[derive(Clone, Debug, PartialEq, Eq, Hash)]
pub enum Literal {
    Integer(i64),
}

impl View for Literal {
    type V = i64;

    open spec fn view(&self) -> i64 {
        match *self {
            Literal::Integer(v) => v,
        }
    }
}

/// Position just past the run of decimal digits starting at `i`.
pub open spec fn spec_digits_end(s: Seq<u8>, i: int) -> int
    decreases s.len() - i,
{
    if 0 <= i < s.len() && is_digit(s[i]) {
        spec_digits_end(s, i + 1)
    } else {
        i
    }
}

/// `spec_digits_end` stays within bounds; every byte before it is a digit.
pub proof fn lemma_digits_end_bounds(s: Seq<u8>, i: int)
    requires
        0 <= i <= s.len(),
    ensures
        i <= spec_digits_end(s, i) <= s.len(),
        forall|m: int| i <= m < spec_digits_end(s, i) ==> is_digit(s[m]),
        spec_digits_end(s, i) < s.len() ==> !is_digit(s[spec_digits_end(s, i)]),
    decreases s.len() - i,
{
    if i < s.len() && is_digit(s[i]) {
        lemma_digits_end_bounds(s, i + 1);
    }
}

/// Numeric value of the digit run `s[i..j]`, most significant digit first.
pub open spec fn spec_digits_value(s: Seq<u8>, i: int, j: int) -> int
    decreases j - i,
{
    if i < j {
        spec_digits_value(s, i, j - 1) * 10 + (s[j - 1] - 48)
    } else {
        0
    }
}

/// An integer literal: one or more decimal digits whose value fits in `i64`.
pub open spec fn spec_integer_literal(s: Seq<u8>, i: int) -> Option<(int, i64)> {
    let j = spec_digits_end(s, i);
    if j == i {
        None
    } else if spec_digits_value(s, i, j) > i64::MAX {
        None
    } else {
        Some((j, spec_digits_value(s, i, j) as i64))
    }
}

/// Recognize an integer literal token: one or more decimal digits.
///
/// A digit run whose value exceeds `i64::MAX` is a no-match, like any
/// other input this rule does not apply to.
pub fn integer_literal(input: &[u8], pos: usize) -> (r: Option<(usize, Literal)>)
    requires
        pos <= input@.len(),
    ensures
        match r {
            Some((j, lit)) => spec_integer_literal(input@, pos as int) == Some((j as int, lit@))
                && pos < j <= input@.len(),
            None => spec_integer_literal(input@, pos as int) is None,
        },
{
    let n = input.len();
    if !(pos < n && 48 <= input[pos] && input[pos] <= 57) {
        return None;
    }
    let mut k: usize = pos;
    let mut acc: u64 = 0;
    let mut over: bool = false;
    while k < n && 48 <= input[k] && input[k] <= 57
        invariant
            pos <= k <= n,
            n == input@.len(),
            !over ==> acc == spec_digits_value(input@, pos as int, k as int) && acc <= i64::MAX,
            over ==> spec_digits_value(input@, pos as int, k as int) > i64::MAX,
            spec_digits_end(input@, pos as int) == spec_digits_end(input@, k as int),
        decreases n - k,
    {
        let d: u8 = input[k] - 48;
        if !over {
            if acc > 922337203685477580u64 || (acc == 922337203685477580u64 && d > 7) {
                over = true;
            } else {
                acc = acc * 10 + (d as u64);
            }
        }
        k = k + 1;
    }
    proof {
        lemma_digits_end_bounds(input@, pos as int);
    }
    if over {
        None
    } else {
        Some((k, Literal::Integer(acc as i64)))
    }
}

/// Position just past the run of identifier bytes starting at `i`.
pub open spec fn spec_ident_end(s: Seq<u8>, i: int) -> int
    decreases s.len() - i,
{
    if 0 <= i < s.len() && is_ident_byte(s[i]) {
        spec_ident_end(s, i + 1)
    } else {
        i
    }
}

/// An identifier token: one or more letter, digit or underscore bytes.
pub open spec fn spec_identifier(s: Seq<u8>, i: int) -> Option<(int, Seq<u8>)> {
    let j = spec_ident_end(s, i);
    if j == i {
        None
    } else {
        Some((j, s.subrange(i, j)))
    }
}

/// Recognize an identifier token and return its bytes.
pub fn sql_identifier(input: &[u8], pos: usize) -> (r: Option<(usize, Vec<u8>)>)
    requires
        pos <= input@.len(),
    ensures
        match r {
            Some((j, name)) => spec_identifier(input@, pos as int) == Some((j as int, name@))
                && pos < j <= input@.len(),
            None => spec_identifier(input@, pos as int) is None,
        },
{
    let n = input.len();
    let mut k: usize = pos;
    while k < n && (
        (48 <= input[k] && input[k] <= 57)
        || (97 <= input[k] && input[k] <= 122)
        || (65 <= input[k] && input[k] <= 90)
        || input[k] == 95
    )
        invariant
            pos <= k <= n,
            n == input@.len(),
            spec_ident_end(input@, pos as int) == spec_ident_end(input@, k as int),
        decreases n - k,
    {
        k = k + 1;
    }
    if k == pos {
        return None;
    }
    let name = vstd::slice::slice_to_vec(vstd::slice::slice_subrange(input, pos, k));
    Some((k, name))
}

/// Decimal digits of a non-negative number, most significant first.
pub open spec fn spec_render_digits(n: int) -> Seq<u8>
    decreases n,
{
    if n < 10 {
        seq![(48 + n) as u8]
    } else {
        spec_render_digits(n / 10) + seq![(48 + (n % 10)) as u8]
    }
}

/// Textual form of an integer: decimal digits, with a leading `-` when
/// negative.
pub open spec fn spec_render_int(v: int) -> Seq<u8> {
    if v < 0 {
        seq![45u8] + spec_render_digits(-v)
    } else {
        spec_render_digits(v)
    }
}

/// Append the decimal digits of `n` to `out`.
pub fn push_digits(out: &mut Vec<u8>, n: u64)
    ensures
        final(out)@ == old(out)@ + spec_render_digits(n as int),
    decreases n,
{
    if n < 10 {
        out.push(48 + (n as u8));
    } else {
        push_digits(out, n / 10);
        out.push(48 + ((n % 10) as u8));
        assert(out@ =~= old(out)@ + spec_render_digits(n as int));
    }
}

impl Literal {
    /// The literal's textual rendering.
    pub fn display(&self) -> (r: Vec<u8>)
        ensures
            r@ == spec_render_int(self@ as int),
    {
        let v: i64 = match *self {
            Literal::Integer(v) => v,
        };
        let mut out: Vec<u8> = Vec::new();
        if v < 0 {
            out.push(45);
            let m: u64 = if v == i64::MIN {
                9223372036854775808u64
            } else {
                (-v) as u64
            };
            assert(m as int == -(v as int));
            push_digits(&mut out, m);
            assert(out@ =~= spec_render_int(v as int));
        } else {
            push_digits(&mut out, v as u64);
        }
        out
    }
}

/// A space run bounded by a non-space byte (or the end of input) is
/// skipped whole.
pub proof fn lemma_skip_space_run(s: Seq<u8>, i: int, j: int)
    requires
        0 <= i <= j <= s.len(),
        forall|m: int| i <= m < j ==> is_space(s[m]),
        j == s.len() || !is_space(s[j]),
    ensures
        spec_skip_space(s, i) == j,
    decreases j - i,
{
    if i < j {
        lemma_skip_space_run(s, i + 1, j);
    }
}

/// A digit run bounded by a non-digit byte (or the end of input) is taken
/// whole.
pub proof fn lemma_digits_run(s: Seq<u8>, i: int, j: int)
    requires
        0 <= i <= j <= s.len(),
        forall|m: int| i <= m < j ==> is_digit(s[m]),
        j == s.len() || !is_digit(s[j]),
    ensures
        spec_digits_end(s, i) == j,
    decreases j - i,
{
    if i < j {
        lemma_digits_run(s, i + 1, j);
    }
}

/// An identifier run bounded by a non-identifier byte (or the end of
/// input) is taken whole.
pub proof fn lemma_ident_run(s: Seq<u8>, i: int, j: int)
    requires
        0 <= i <= j <= s.len(),
        forall|m: int| i <= m < j ==> is_ident_byte(s[m]),
        j == s.len() || !is_ident_byte(s[j]),
    ensures
        spec_ident_end(s, i) == j,
    decreases j - i,
{
    if i < j {
        lemma_ident_run(s, i + 1, j);
    }
}

/// Rendered digits are non-empty and are digits.
pub proof fn lemma_render_digits_bytes(v: int)
    requires
        v >= 0,
    ensures
        spec_render_digits(v).len() >= 1,
        forall|k: int| 0 <= k < spec_render_digits(v).len()
            ==> is_digit(#[trigger] spec_render_digits(v)[k]),
    decreases v,
{
    if v >= 10 {
        lemma_render_digits_bytes(v / 10);
    }
}

/// Reading back rendered digits yields the value they were rendered from.
pub proof fn lemma_digits_value_of_render(s: Seq<u8>, i: int, v: int)
    requires
        v >= 0,
        0 <= i,
        i + spec_render_digits(v).len() <= s.len(),
        s.subrange(i, i + spec_render_digits(v).len()) == spec_render_digits(v),
    ensures
        spec_digits_value(s, i, i + spec_render_digits(v).len()) == v,
    decreases v,
{
    let d = spec_render_digits(v);
    if v < 10 {
        assert(s.subrange(i, i + d.len() as int)[0] == s[i]);
        assert(s[i] == d[0]);
        assert(spec_digits_value(s, i, i) == 0);
        assert(spec_digits_value(s, i, i + 1) == s[i] - 48);
    } else {
        let dq = spec_render_digits(v / 10);
        assert forall|k: int| 0 <= k < dq.len()
            implies s.subrange(i, i + dq.len() as int)[k] == dq[k] by {
            assert(s.subrange(i, i + d.len() as int)[k] == s[i + k]);
            assert(s.subrange(i, i + dq.len() as int)[k] == s[i + k]);
            assert(d[k] == dq[k]);
        }
        assert(s.subrange(i, i + dq.len() as int) =~= dq);
        lemma_digits_value_of_render(s, i, v / 10);
        assert(s.subrange(i, i + d.len() as int)[d.len() - 1] == s[i + d.len() - 1]);
        assert(s[i + d.len() - 1] == d[d.len() - 1]);
        assert(d[d.len() - 1] == 48 + (v % 10));
    }
}

/// An integer literal parse at rendered digits, bounded by a non-digit
/// byte or the end of input, returns exactly the rendered value.
pub proof fn lemma_parse_int_at(s: Seq<u8>, i: int, v: i64)
    requires
        v >= 0,
        0 <= i,
        i + spec_render_digits(v as int).len() <= s.len(),
        s.subrange(i, i + spec_render_digits(v as int).len()) == spec_render_digits(v as int),
        i + spec_render_digits(v as int).len() == s.len()
            || !is_digit(s[i + spec_render_digits(v as int).len()]),
    ensures
        spec_integer_literal(s, i) == Some((i + spec_render_digits(v as int).len(), v)),
{
    let d = spec_render_digits(v as int);
    lemma_render_digits_bytes(v as int);
    assert(forall|m: int| i <= m < i + d.len() ==> is_digit(s[m])) by {
        assert(forall|m: int| i <= m < i + d.len() ==> s[m] == d[m - i]);
    }
    lemma_digits_run(s, i, i + d.len());
    lemma_digits_value_of_render(s, i, v as int);
}

/// One projected field of a select statement: a column reference or a
/// literal value.
#[derive(Debug, PartialEq, Eq, Hash)]
pub enum Field {
    Col(crate::column::Column),
    Literal(Literal),
}

/// Mathematical model of a projected field.
#[verifier::ext_equal]
pub enum FieldV {
    Col(crate::column::ColumnV),
    Literal(i64),
}

impl View for Field {
    type V = FieldV;

    open spec fn view(&self) -> FieldV {
        match *self {
            Field::Col(ref c) => FieldV::Col(c@),
            Field::Literal(ref l) => FieldV::Literal(l@),
        }
    }
}

/// A projected field together with an optional alias.
#[derive(Debug, PartialEq, Eq, Hash)]
pub struct FieldExpression {
    pub field: Field,
    pub alias: Option<Vec<u8>>,
}

/// Mathematical model of a projected field expression.
#[verifier::ext_equal]
pub struct FieldExpressionV {
    pub field: FieldV,
    pub alias: Option<Seq<u8>>,
}

impl View for FieldExpression {
    type V = FieldExpressionV;

    open spec fn view(&self) -> FieldExpressionV {
        FieldExpressionV { field: self.field@, alias: opt_bytes_view(self.alias) }
    }
}

impl FieldExpression {
    /// Pair a field with its alias.
    pub fn new(field: Field, alias: Option<Vec<u8>>) -> (r: FieldExpression)
        ensures
            r@ == (FieldExpressionV { field: field@, alias: opt_bytes_view(alias) }),
    {
        FieldExpression { field, alias }
    }
}

} // verus!
