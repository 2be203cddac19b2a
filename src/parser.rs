//! The grammars of numeric literals, identifiers and assignment operators,
//! each recognising the longest text it admits at the start of a span.
use vstd::prelude::*;
use crate::errors::JuliaParseError;
use crate::extensions::{id_continue, id_start, is_char_id, is_char_id_start};
use crate::syntax::{
    AssignmentExpr, IdentifierLiteral, NumericLiteral, OperatorLiteral, Span, Token,
};

verus! {

/// The digits that a group of a literal may hold.
#[derive(Clone, Copy, Debug, PartialEq, Eq, Structural)]
pub enum Radix {
    Hexadecimal,
    Octal,
    Binary,
    Decimal,
}

/// Whether `c` is a digit of radix `r`.
pub open spec fn is_digit_of(r: Radix, c: char) -> bool {
    match r {
        Radix::Hexadecimal => ('0' <= c && c <= '9') || ('a' <= c && c <= 'f') || ('A' <= c
            && c <= 'F'),
        Radix::Octal => '0' <= c && c <= '7',
        Radix::Binary => c == '0' || c == '1',
        Radix::Decimal => '0' <= c && c <= '9',
    }
}

/// Where a run of digit groups ends that has read at least one digit before
/// position `i`. A single `_` between two digits joins two groups; any other
/// character, a second `_` or a trailing `_` ends the run.
pub open spec fn group_tail(t: Seq<char>, i: int, r: Radix) -> int
    decreases t.len() - i,
{
    if 0 <= i < t.len() && is_digit_of(r, t[i]) {
        group_tail(t, i + 1, r)
    } else if 0 <= i && i + 1 < t.len() && t[i] == '_' && is_digit_of(r, t[i + 1]) {
        group_tail(t, i + 2, r)
    } else {
        i
    }
}

/// Where one or more groups of digits of radix `r`, separated by single
/// underscores, end when they begin at `i`; `None` if no digit stands there.
pub open spec fn groups_end(t: Seq<char>, i: int, r: Radix) -> Option<int> {
    if 0 <= i < t.len() && is_digit_of(r, t[i]) {
        Some(group_tail(t, i + 1, r))
    } else {
        None
    }
}

/// Where a run of decimal digits (no separators) from `i` ends.
pub open spec fn digits_end(t: Seq<char>, i: int) -> int
    decreases t.len() - i,
{
    if 0 <= i < t.len() && is_digit_of(Radix::Decimal, t[i]) {
        digits_end(t, i + 1)
    } else {
        i
    }
}

/// An optional sign followed by one or more decimal digits, from `i`.
pub open spec fn signed_digits_end(t: Seq<char>, i: int) -> Option<int> {
    let j = if 0 <= i < t.len() && (t[i] == '+' || t[i] == '-') {
        i + 1
    } else {
        i
    };
    if 0 <= j < t.len() && is_digit_of(Radix::Decimal, t[j]) {
        Some(digits_end(t, j + 1))
    } else {
        None
    }
}

/// An exponent marker among `e`, `E`, `f`, `F`.
pub open spec fn is_exponent_marker(c: char) -> bool {
    c == 'e' || c == 'E' || c == 'f' || c == 'F'
}

/// An exponent: a marker, an optional sign and decimal digits.
pub open spec fn exponent_end(t: Seq<char>, i: int) -> Option<int> {
    if 0 <= i < t.len() && is_exponent_marker(t[i]) {
        signed_digits_end(t, i + 1)
    } else {
        None
    }
}

/// `p` is `t`'s text from position `i` on.
pub open spec fn has_prefix(t: Seq<char>, i: int, p: Seq<char>) -> bool {
    0 <= i && i + p.len() <= t.len() && t.subrange(i, i + p.len()) == p
}

/// The end of the first of `ps[k..]` that stands in `t` at `i`.
pub open spec fn first_prefix_end(t: Seq<char>, i: int, ps: Seq<Seq<char>>, k: int) -> Option<
    int,
>
    decreases ps.len() - k,
{
    if k < 0 || k >= ps.len() {
        None
    } else if has_prefix(t, i, ps[k]) {
        Some(i + ps[k].len())
    } else {
        first_prefix_end(t, i, ps, k + 1)
    }
}

/// `a` if it is a match, else `b`.
pub open spec fn or_else(a: Option<int>, b: Option<int>) -> Option<int> {
    if a is Some {
        a
    } else {
        b
    }
}

/// A literal in radix `r` with the two-character prefix `0` and `letter`.
pub open spec fn prefixed_end(t: Seq<char>, i: int, letter: char, r: Radix) -> Option<int> {
    if 0 <= i && i + 1 < t.len() && t[i] == '0' && t[i + 1] == letter {
        groups_end(t, i + 2, r)
    } else {
        None
    }
}

/// `0x` and hexadecimal digit groups.
pub open spec fn hexadecimal_end(t: Seq<char>, i: int) -> Option<int> {
    prefixed_end(t, i, 'x', Radix::Hexadecimal)
}

/// `0o` and octal digit groups.
pub open spec fn octal_end(t: Seq<char>, i: int) -> Option<int> {
    prefixed_end(t, i, 'o', Radix::Octal)
}

/// `0b` and binary digit groups.
pub open spec fn binary_end(t: Seq<char>, i: int) -> Option<int> {
    prefixed_end(t, i, 'b', Radix::Binary)
}

/// Decimal digit groups.
pub open spec fn integer_end(t: Seq<char>, i: int) -> Option<int> {
    groups_end(t, i, Radix::Decimal)
}

/// `.42`, with an optional exponent.
pub open spec fn leading_dot_float_end(t: Seq<char>, i: int) -> Option<int> {
    if 0 <= i < t.len() && t[i] == '.' {
        match integer_end(t, i + 1) {
            Some(j) => or_else(exponent_end(t, j), Some(j)),
            None => None,
        }
    } else {
        None
    }
}

/// `42e42` and `42.42e42`: the exponent is required.
pub open spec fn exponent_float_end(t: Seq<char>, i: int) -> Option<int> {
    match integer_end(t, i) {
        Some(j) => {
            let m = if 0 <= j < t.len() && t[j] == '.' && integer_end(t, j + 1) is Some {
                integer_end(t, j + 1)->0
            } else {
                j
            };
            exponent_end(t, m)
        },
        None => None,
    }
}

/// `42.` and `42.42`.
pub open spec fn trailing_dot_float_end(t: Seq<char>, i: int) -> Option<int> {
    match integer_end(t, i) {
        Some(j) => if 0 <= j < t.len() && t[j] == '.' {
            or_else(integer_end(t, j + 1), Some(j + 1))
        } else {
            None
        },
        None => None,
    }
}

/// The named floating-point values, each before the names it begins with.
pub open spec fn special_float_names() -> Seq<Seq<char>> {
    seq![
        seq!['N', 'a', 'N', '3', '2'],
        seq!['N', 'a', 'N', '6', '4'],
        seq!['N', 'a', 'N'],
        seq!['-', 'I', 'n', 'f', '3', '2'],
        seq!['-', 'I', 'n', 'f', '6', '4'],
        seq!['-', 'I', 'n', 'f'],
        seq!['I', 'n', 'f', '3', '2'],
        seq!['I', 'n', 'f', '6', '4'],
        seq!['I', 'n', 'f'],
    ]
}

/// A named floating-point value such as `NaN32` or `-Inf`.
pub open spec fn special_float_end(t: Seq<char>, i: int) -> Option<int> {
    first_prefix_end(t, i, special_float_names(), 0)
}

/// The mantissa of a hexadecimal float: `DEAD`, `DEAD.BEEF` or `.BEEF`.
pub open spec fn hex_mantissa_end(t: Seq<char>, i: int) -> Option<int> {
    match groups_end(t, i, Radix::Hexadecimal) {
        Some(j) => if 0 <= j < t.len() && t[j] == '.' && groups_end(t, j + 1, Radix::Hexadecimal) is Some {
            groups_end(t, j + 1, Radix::Hexadecimal)
        } else {
            Some(j)
        },
        None => if 0 <= i < t.len() && t[i] == '.' {
            groups_end(t, i + 1, Radix::Hexadecimal)
        } else {
            None
        },
    }
}

/// `0x`, a hexadecimal mantissa, `p` and a signed decimal exponent of two.
pub open spec fn hex_float_end(t: Seq<char>, i: int) -> Option<int> {
    if 0 <= i && i + 1 < t.len() && t[i] == '0' && t[i + 1] == 'x' {
        match hex_mantissa_end(t, i + 2) {
            Some(k) => if 0 <= k < t.len() && t[k] == 'p' {
                signed_digits_end(t, k + 1)
            } else {
                None
            },
            None => None,
        }
    } else {
        None
    }
}

/// A float: the first of its five shapes that matches.
pub open spec fn float_end(t: Seq<char>, i: int) -> Option<int> {
    or_else(
        leading_dot_float_end(t, i),
        or_else(
            exponent_float_end(t, i),
            or_else(
                trailing_dot_float_end(t, i),
                or_else(special_float_end(t, i), hex_float_end(t, i)),
            ),
        ),
    )
}

/// An identifier: a start character and then characters that may continue one.
pub open spec fn identifier_tail(t: Seq<char>, i: int) -> int
    decreases t.len() - i,
{
    if 0 <= i < t.len() && id_continue(t[i]) {
        identifier_tail(t, i + 1)
    } else {
        i
    }
}

/// Where an identifier that begins at `i` ends.
pub open spec fn identifier_end(t: Seq<char>, i: int) -> Option<int> {
    if 0 <= i < t.len() && id_start(t[i]) {
        Some(identifier_tail(t, i + 1))
    } else {
        None
    }
}

/// The assignment operators that may follow a `.`.
pub open spec fn dotted_assignment_ops() -> Seq<Seq<char>> {
    seq![
        seq!['='],
        seq!['+', '='],
        seq!['-', '='],
        seq!['\u{2212}', '='],
        seq!['*', '='],
        seq!['\\', '='],
        seq!['/', '/', '='],
        seq!['\\', '\\', '='],
        seq!['^', '='],
        seq!['\u{f7}', '='],
        seq!['<', '<', '='],
        seq!['>', '>', '='],
        seq!['>', '>', '>', '='],
        seq!['|', '='],
        seq!['&', '='],
        seq!['\u{22bb}', '='],
        seq!['\u{2254}'],
        seq!['\u{2a74}'],
        seq!['\u{2255}'],
    ]
}

/// The assignment operators that take no `.`.
pub open spec fn plain_assignment_ops() -> Seq<Seq<char>> {
    seq![seq!['~'], seq![':', '='], seq!['$', '=']]
}

/// An assignment operator: an optional `.` and one of the dotted family, or
/// one of the plain ones.
pub open spec fn assignment_end(t: Seq<char>, i: int) -> Option<int> {
    let j = if 0 <= i < t.len() && t[i] == '.' {
        i + 1
    } else {
        i
    };
    or_else(
        first_prefix_end(t, j, dotted_assignment_ops(), 0),
        first_prefix_end(t, i, plain_assignment_ops(), 0),
    )
}

/// The kinds of numeric literal.
#[derive(Clone, Copy, Debug, PartialEq, Eq, Structural)]
pub enum NumericKind {
    Hexadecimal,
    Octal,
    Binary,
    Integer,
    Float,
}

/// The kinds of token.
#[derive(Clone, Copy, Debug, PartialEq, Eq, Structural)]
pub enum TokenKind {
    Numeric(NumericKind),
    Identifier,
}

/// The numeric literal at the start of `t`: a float before a hexadecimal,
/// octal or binary literal, and a decimal integer last.
pub open spec fn numeric_match(t: Seq<char>) -> Option<(NumericKind, int)> {
    if float_end(t, 0) is Some {
        Some((NumericKind::Float, float_end(t, 0)->0))
    } else if hexadecimal_end(t, 0) is Some {
        Some((NumericKind::Hexadecimal, hexadecimal_end(t, 0)->0))
    } else if octal_end(t, 0) is Some {
        Some((NumericKind::Octal, octal_end(t, 0)->0))
    } else if binary_end(t, 0) is Some {
        Some((NumericKind::Binary, binary_end(t, 0)->0))
    } else if integer_end(t, 0) is Some {
        Some((NumericKind::Integer, integer_end(t, 0)->0))
    } else {
        None
    }
}

/// The token at the start of `t`: a numeric literal, else an identifier.
pub open spec fn token_match(t: Seq<char>) -> Option<(TokenKind, int)> {
    if numeric_match(t) is Some {
        let (k, n) = numeric_match(t)->0;
        Some((TokenKind::Numeric(k), n))
    } else if identifier_end(t, 0) is Some {
        Some((TokenKind::Identifier, identifier_end(t, 0)->0))
    } else {
        None
    }
}

/// The literal of kind `k` over span `s`.
pub open spec fn numeric_literal<'a>(k: NumericKind, s: Span<'a>) -> NumericLiteral<'a> {
    match k {
        NumericKind::Hexadecimal => NumericLiteral::Hexadecimal(s),
        NumericKind::Octal => NumericLiteral::Octal(s),
        NumericKind::Binary => NumericLiteral::Binary(s),
        NumericKind::Integer => NumericLiteral::Integer(s),
        NumericKind::Float => NumericLiteral::Float(s),
    }
}

/// The token of kind `k` over span `s`.
pub open spec fn token_of<'a>(k: TokenKind, s: Span<'a>) -> Token<'a> {
    match k {
        TokenKind::Numeric(n) => Token::Numeric(numeric_literal(n, s)),
        TokenKind::Identifier => Token::Identifier(IdentifierLiteral(s)),
    }
}

/// What a scanner that starts at `i` returned, against what its grammar says.
pub open spec fn scanned(res: Option<usize>, expected: Option<int>, i: int, len: int) -> bool {
    match res {
        Some(e) => expected == Some(e as int) && i <= e <= len,
        None => expected is None,
    }
}

fn is_digit(r: Radix, c: char) -> (b: bool)
    ensures
        b == is_digit_of(r, c),
{
    match r {
        Radix::Hexadecimal => ('0' <= c && c <= '9') || ('a' <= c && c <= 'f') || ('A' <= c
            && c <= 'F'),
        Radix::Octal => '0' <= c && c <= '7',
        Radix::Binary => c == '0' || c == '1',
        Radix::Decimal => '0' <= c && c <= '9',
    }
}

fn scan_groups(t: &[char], i: usize, r: Radix) -> (res: Option<usize>)
    requires
        i <= t@.len() < usize::MAX,
    ensures
        scanned(res, groups_end(t@, i as int, r), i as int, t@.len() as int),
{
    if i < t.len() && is_digit(r, t[i]) {
        let mut j: usize = i + 1;
        while j < t.len() && (is_digit(r, t[j]) || (t[j] == '_' && j + 1 < t.len() && is_digit(
            r,
            t[j + 1],
        )))
            invariant
                i < j <= t@.len() < usize::MAX,
                group_tail(t@, j as int, r) == group_tail(t@, i + 1, r),
            decreases t@.len() - j,
        {
            if is_digit(r, t[j]) {
                j = j + 1;
            } else {
                j = j + 2;
            }
        }
        Some(j)
    } else {
        None
    }
}

fn scan_digits(t: &[char], i: usize) -> (e: usize)
    requires
        i <= t@.len() < usize::MAX,
    ensures
        e == digits_end(t@, i as int),
        i <= e <= t@.len(),
{
    let mut j: usize = i;
    while j < t.len() && is_digit(Radix::Decimal, t[j])
        invariant
            i <= j <= t@.len() < usize::MAX,
            digits_end(t@, j as int) == digits_end(t@, i as int),
        decreases t@.len() - j,
    {
        j = j + 1;
    }
    j
}

fn scan_signed_digits(t: &[char], i: usize) -> (res: Option<usize>)
    requires
        i <= t@.len() < usize::MAX,
    ensures
        scanned(res, signed_digits_end(t@, i as int), i as int, t@.len() as int),
{
    let j = if i < t.len() && (t[i] == '+' || t[i] == '-') {
        i + 1
    } else {
        i
    };
    if j < t.len() && is_digit(Radix::Decimal, t[j]) {
        Some(scan_digits(t, j + 1))
    } else {
        None
    }
}

fn scan_exponent(t: &[char], i: usize) -> (res: Option<usize>)
    requires
        i <= t@.len() < usize::MAX,
    ensures
        scanned(res, exponent_end(t@, i as int), i as int, t@.len() as int),
{
    if i < t.len() && (t[i] == 'e' || t[i] == 'E' || t[i] == 'f' || t[i] == 'F') {
        scan_signed_digits(t, i + 1)
    } else {
        None
    }
}

fn has_prefix_at(t: &[char], i: usize, p: &[char]) -> (b: bool)
    requires
        i <= t@.len() < usize::MAX,
    ensures
        b == has_prefix(t@, i as int, p@),
{
    if p.len() > t.len() - i {
        return false;
    }
    let mut k: usize = 0;
    while k < p.len()
        invariant
            k <= p@.len(),
            i + p@.len() <= t@.len() < usize::MAX,
            forall|m: int| 0 <= m < k ==> t@[i + m] == p@[m],
        decreases p@.len() - k,
    {
        if t[i + k] != p[k] {
            assert(t@.subrange(i as int, i + p@.len())[k as int] != p@[k as int]);
            return false;
        }
        k = k + 1;
    }
    assert(t@.subrange(i as int, i + p@.len()) =~= p@);
    true
}

fn scan_first_prefix(t: &[char], i: usize, ps: &Vec<Vec<char>>, names: Ghost<Seq<Seq<char>>>) -> (res:
    Option<usize>)
    requires
        i <= t@.len() < usize::MAX,
        ps@.len() == names@.len(),
        forall|k: int| 0 <= k < ps@.len() ==> #[trigger] ps@[k]@ == names@[k],
    ensures
        scanned(res, first_prefix_end(t@, i as int, names@, 0), i as int, t@.len() as int),
{
    let mut k: usize = 0;
    while k < ps.len()
        invariant
            k <= ps@.len(),
            i <= t@.len() < usize::MAX,
            ps@.len() == names@.len(),
            forall|k: int| 0 <= k < ps@.len() ==> #[trigger] ps@[k]@ == names@[k],
            first_prefix_end(t@, i as int, names@, 0) == first_prefix_end(
                t@,
                i as int,
                names@,
                k as int,
            ),
        decreases ps@.len() - k,
    {
        let p: &Vec<char> = &ps[k];
        assert(p@ == names@[k as int]);
        if has_prefix_at(t, i, p.as_slice()) {
            return Some(i + p.len());
        }
        k = k + 1;
    }
    None
}

fn scan_leading_dot_float(t: &[char], i: usize) -> (res: Option<usize>)
    requires
        i <= t@.len() < usize::MAX,
    ensures
        scanned(res, leading_dot_float_end(t@, i as int), i as int, t@.len() as int),
{
    if i < t.len() && t[i] == '.' {
        match scan_groups(t, i + 1, Radix::Decimal) {
            Some(j) => match scan_exponent(t, j) {
                Some(k) => Some(k),
                None => Some(j),
            },
            None => None,
        }
    } else {
        None
    }
}

fn scan_exponent_float(t: &[char], i: usize) -> (res: Option<usize>)
    requires
        i <= t@.len() < usize::MAX,
    ensures
        scanned(res, exponent_float_end(t@, i as int), i as int, t@.len() as int),
{
    match scan_groups(t, i, Radix::Decimal) {
        Some(j) => {
            let m = if j < t.len() && t[j] == '.' {
                match scan_groups(t, j + 1, Radix::Decimal) {
                    Some(k) => k,
                    None => j,
                }
            } else {
                j
            };
            scan_exponent(t, m)
        },
        None => None,
    }
}

fn scan_trailing_dot_float(t: &[char], i: usize) -> (res: Option<usize>)
    requires
        i <= t@.len() < usize::MAX,
    ensures
        scanned(res, trailing_dot_float_end(t@, i as int), i as int, t@.len() as int),
{
    match scan_groups(t, i, Radix::Decimal) {
        Some(j) => if j < t.len() && t[j] == '.' {
            match scan_groups(t, j + 1, Radix::Decimal) {
                Some(k) => Some(k),
                None => Some(j + 1),
            }
        } else {
            None
        },
        None => None,
    }
}

fn scan_special_float(t: &[char], i: usize) -> (res: Option<usize>)
    requires
        i <= t@.len() < usize::MAX,
    ensures
        scanned(res, special_float_end(t@, i as int), i as int, t@.len() as int),
{
    let names = vec![
        vec!['N', 'a', 'N', '3', '2'],
        vec!['N', 'a', 'N', '6', '4'],
        vec!['N', 'a', 'N'],
        vec!['-', 'I', 'n', 'f', '3', '2'],
        vec!['-', 'I', 'n', 'f', '6', '4'],
        vec!['-', 'I', 'n', 'f'],
        vec!['I', 'n', 'f', '3', '2'],
        vec!['I', 'n', 'f', '6', '4'],
        vec!['I', 'n', 'f'],
    ];
    assert(forall|k: int|
        0 <= k < names@.len() ==> #[trigger] names@[k]@ == special_float_names()[k]);
    scan_first_prefix(t, i, &names, Ghost(special_float_names()))
}

fn scan_hex_mantissa(t: &[char], i: usize) -> (res: Option<usize>)
    requires
        i <= t@.len() < usize::MAX,
    ensures
        scanned(res, hex_mantissa_end(t@, i as int), i as int, t@.len() as int),
{
    match scan_groups(t, i, Radix::Hexadecimal) {
        Some(j) => if j < t.len() && t[j] == '.' {
            match scan_groups(t, j + 1, Radix::Hexadecimal) {
                Some(k) => Some(k),
                None => Some(j),
            }
        } else {
            Some(j)
        },
        None => if i < t.len() && t[i] == '.' {
            scan_groups(t, i + 1, Radix::Hexadecimal)
        } else {
            None
        },
    }
}

fn scan_hex_float(t: &[char], i: usize) -> (res: Option<usize>)
    requires
        i <= t@.len() < usize::MAX,
    ensures
        scanned(res, hex_float_end(t@, i as int), i as int, t@.len() as int),
{
    if i + 1 < t.len() && t[i] == '0' && t[i + 1] == 'x' {
        match scan_hex_mantissa(t, i + 2) {
            Some(k) => if k < t.len() && t[k] == 'p' {
                scan_signed_digits(t, k + 1)
            } else {
                None
            },
            None => None,
        }
    } else {
        None
    }
}

fn scan_float(t: &[char], i: usize) -> (res: Option<usize>)
    requires
        i <= t@.len() < usize::MAX,
    ensures
        scanned(res, float_end(t@, i as int), i as int, t@.len() as int),
{
    let a = scan_leading_dot_float(t, i);
    if a.is_some() {
        return a;
    }
    let b = scan_exponent_float(t, i);
    if b.is_some() {
        return b;
    }
    let c = scan_trailing_dot_float(t, i);
    if c.is_some() {
        return c;
    }
    let d = scan_special_float(t, i);
    if d.is_some() {
        return d;
    }
    scan_hex_float(t, i)
}

fn scan_prefixed(t: &[char], i: usize, letter: char, r: Radix) -> (res: Option<usize>)
    requires
        i <= t@.len() < usize::MAX,
    ensures
        scanned(res, prefixed_end(t@, i as int, letter, r), i as int, t@.len() as int),
{
    if i + 1 < t.len() && t[i] == '0' && t[i + 1] == letter {
        scan_groups(t, i + 2, r)
    } else {
        None
    }
}

fn scan_identifier(t: &[char], i: usize) -> (res: Option<usize>)
    requires
        i <= t@.len() < usize::MAX,
    ensures
        scanned(res, identifier_end(t@, i as int), i as int, t@.len() as int),
{
    if i < t.len() && is_char_id_start(t[i]) {
        let mut j: usize = i + 1;
        while j < t.len() && is_char_id(t[j])
            invariant
                i < j <= t@.len() < usize::MAX,
                identifier_tail(t@, j as int) == identifier_tail(t@, i + 1),
            decreases t@.len() - j,
        {
            j = j + 1;
        }
        Some(j)
    } else {
        None
    }
}

fn scan_assignment(t: &[char], i: usize) -> (res: Option<usize>)
    requires
        i <= t@.len() < usize::MAX,
    ensures
        scanned(res, assignment_end(t@, i as int), i as int, t@.len() as int),
{
    let j = if i < t.len() && t[i] == '.' {
        i + 1
    } else {
        i
    };
    let dotted = vec![
        vec!['='],
        vec!['+', '='],
        vec!['-', '='],
        vec!['\u{2212}', '='],
        vec!['*', '='],
        vec!['\\', '='],
        vec!['/', '/', '='],
        vec!['\\', '\\', '='],
        vec!['^', '='],
        vec!['\u{f7}', '='],
        vec!['<', '<', '='],
        vec!['>', '>', '='],
        vec!['>', '>', '>', '='],
        vec!['|', '='],
        vec!['&', '='],
        vec!['\u{22bb}', '='],
        vec!['\u{2254}'],
        vec!['\u{2a74}'],
        vec!['\u{2255}'],
    ];
    assert(forall|k: int|
        0 <= k < dotted@.len() ==> #[trigger] dotted@[k]@ == dotted_assignment_ops()[k]);
    let a = scan_first_prefix(t, j, &dotted, Ghost(dotted_assignment_ops()));
    if a.is_some() {
        return a;
    }
    let plain = vec![vec!['~'], vec![':', '='], vec!['$', '=']];
    assert(forall|k: int|
        0 <= k < plain@.len() ==> #[trigger] plain@[k]@ == plain_assignment_ops()[k]);
    scan_first_prefix(t, i, &plain, Ghost(plain_assignment_ops()))
}

/// What follows the first `n` characters of `input`, and those characters.
fn split<'a>(input: Span<'a>, n: usize) -> (r: (Span<'a>, Span<'a>))
    requires
        input.wf(),
        n <= input.end - input.start,
    ensures
        r == (input.spec_rest(n as int), input.spec_first(n as int)),
        r.0.wf(),
        r.1.wf(),
{
    (input.rest(n), input.first(n))
}

/// Reads a hexadecimal literal such as `0xDEAD_BEEF`.
pub fn hexadecimal<'a>(input: Span<'a>) -> (r: Result<(Span<'a>, NumericLiteral<'a>), JuliaParseError>)
    requires
        input.wf(),
    ensures
        match hexadecimal_end(input.text(), 0) {
            Some(n) => r === Ok(
                (input.spec_rest(n), NumericLiteral::Hexadecimal(input.spec_first(n))),
            ),
            None => r === Err(JuliaParseError::Unparseable),
        },
        r is Ok ==> r->Ok_0.0.wf(),
{
    let t = input.fragment();
    match scan_prefixed(t, 0, 'x', Radix::Hexadecimal) {
        Some(n) => {
            let (rest, text) = split(input, n);
            Ok((rest, NumericLiteral::Hexadecimal(text)))
        },
        None => Err(JuliaParseError::Unparseable),
    }
}

/// Reads an octal literal such as `0o420_0123`.
pub fn octal<'a>(input: Span<'a>) -> (r: Result<(Span<'a>, NumericLiteral<'a>), JuliaParseError>)
    requires
        input.wf(),
    ensures
        match octal_end(input.text(), 0) {
            Some(n) => r === Ok(
                (input.spec_rest(n), NumericLiteral::Octal(input.spec_first(n))),
            ),
            None => r === Err(JuliaParseError::Unparseable),
        },
        r is Ok ==> r->Ok_0.0.wf(),
{
    let t = input.fragment();
    match scan_prefixed(t, 0, 'o', Radix::Octal) {
        Some(n) => {
            let (rest, text) = split(input, n);
            Ok((rest, NumericLiteral::Octal(text)))
        },
        None => Err(JuliaParseError::Unparseable),
    }
}

/// Reads a binary literal such as `0b10_10`.
pub fn binary<'a>(input: Span<'a>) -> (r: Result<(Span<'a>, NumericLiteral<'a>), JuliaParseError>)
    requires
        input.wf(),
    ensures
        match binary_end(input.text(), 0) {
            Some(n) => r === Ok(
                (input.spec_rest(n), NumericLiteral::Binary(input.spec_first(n))),
            ),
            None => r === Err(JuliaParseError::Unparseable),
        },
        r is Ok ==> r->Ok_0.0.wf(),
{
    let t = input.fragment();
    match scan_prefixed(t, 0, 'b', Radix::Binary) {
        Some(n) => {
            let (rest, text) = split(input, n);
            Ok((rest, NumericLiteral::Binary(text)))
        },
        None => Err(JuliaParseError::Unparseable),
    }
}

/// Reads a decimal integer literal such as `420_69`.
pub fn integer<'a>(input: Span<'a>) -> (r: Result<(Span<'a>, NumericLiteral<'a>), JuliaParseError>)
    requires
        input.wf(),
    ensures
        match integer_end(input.text(), 0) {
            Some(n) => r === Ok(
                (input.spec_rest(n), NumericLiteral::Integer(input.spec_first(n))),
            ),
            None => r === Err(JuliaParseError::Unparseable),
        },
        r is Ok ==> r->Ok_0.0.wf(),
{
    let t = input.fragment();
    match scan_groups(t, 0, Radix::Decimal) {
        Some(n) => {
            let (rest, text) = split(input, n);
            Ok((rest, NumericLiteral::Integer(text)))
        },
        None => Err(JuliaParseError::Unparseable),
    }
}

/// Reads a floating-point literal: `.5`, `2.5e-4`, `1.`, `-Inf32` or `0x.4p-1`.
pub fn float<'a>(input: Span<'a>) -> (r: Result<(Span<'a>, NumericLiteral<'a>), JuliaParseError>)
    requires
        input.wf(),
    ensures
        match float_end(input.text(), 0) {
            Some(n) => r === Ok(
                (input.spec_rest(n), NumericLiteral::Float(input.spec_first(n))),
            ),
            None => r === Err(JuliaParseError::Unparseable),
        },
        r is Ok ==> r->Ok_0.0.wf(),
{
    let t = input.fragment();
    match scan_float(t, 0) {
        Some(n) => {
            let (rest, text) = split(input, n);
            Ok((rest, NumericLiteral::Float(text)))
        },
        None => Err(JuliaParseError::Unparseable),
    }
}

/// Reads a numeric literal: a float, else a hexadecimal, octal or binary
/// literal, else a decimal integer.
pub fn numeric<'a>(input: Span<'a>) -> (r: Result<(Span<'a>, NumericLiteral<'a>), JuliaParseError>)
    requires
        input.wf(),
    ensures
        match numeric_match(input.text()) {
            Some((k, n)) => r === Ok((input.spec_rest(n), numeric_literal(k, input.spec_first(n)))),
            None => r === Err(JuliaParseError::Unparseable),
        },
        r is Ok ==> r->Ok_0.0.wf(),
{
    let f = float(input);
    if f.is_ok() {
        return f;
    }
    let h = hexadecimal(input);
    if h.is_ok() {
        return h;
    }
    let o = octal(input);
    if o.is_ok() {
        return o;
    }
    let b = binary(input);
    if b.is_ok() {
        return b;
    }
    integer(input)
}

/// Reads an identifier: a character that may start one, and the longest run
/// of characters that may continue it.
pub fn identifier<'a>(input: Span<'a>) -> (r: Result<(Span<'a>, IdentifierLiteral<'a>), JuliaParseError>)
    requires
        input.wf(),
    ensures
        match identifier_end(input.text(), 0) {
            Some(n) => r === Ok((input.spec_rest(n), IdentifierLiteral(input.spec_first(n)))),
            None => r === Err(JuliaParseError::Unparseable),
        },
        r is Ok ==> r->Ok_0.0.wf(),
{
    let t = input.fragment();
    match scan_identifier(t, 0) {
        Some(n) => {
            let (rest, text) = split(input, n);
            Ok((rest, IdentifierLiteral(text)))
        },
        None => Err(JuliaParseError::Unparseable),
    }
}

/// Reads an assignment operator such as `=`, `.+=` or `:=`.
pub fn assignment<'a>(input: Span<'a>) -> (r: Result<(Span<'a>, OperatorLiteral<'a>), JuliaParseError>)
    requires
        input.wf(),
    ensures
        match assignment_end(input.text(), 0) {
            Some(n) => r === Ok((input.spec_rest(n), OperatorLiteral::Assignment(input.spec_first(n)))),
            None => r === Err(JuliaParseError::Unparseable),
        },
        r is Ok ==> r->Ok_0.0.wf(),
{
    let t = input.fragment();
    match scan_assignment(t, 0) {
        Some(n) => {
            let (rest, text) = split(input, n);
            Ok((rest, OperatorLiteral::Assignment(text)))
        },
        None => Err(JuliaParseError::Unparseable),
    }
}

/// Reads an identifier, an assignment operator and a numeric literal, one
/// right after the other.
pub fn assignment_expr<'a>(input: Span<'a>) -> (r: Result<(Span<'a>, AssignmentExpr<'a>), JuliaParseError>)
    requires
        input.wf(),
    ensures
        match identifier_end(input.text(), 0) {
            None => r === Err(JuliaParseError::Unparseable),
            Some(n1) => {
                let s1 = input.spec_rest(n1);
                match assignment_end(s1.text(), 0) {
                    None => r === Err(JuliaParseError::Unparseable),
                    Some(n2) => {
                        let s2 = s1.spec_rest(n2);
                        match numeric_match(s2.text()) {
                            None => r === Err(JuliaParseError::Unparseable),
                            Some((k, n3)) => r === Ok(
                                (
                                    s2.spec_rest(n3),
                                    (AssignmentExpr {
                                        lvalue: IdentifierLiteral(input.spec_first(n1)),
                                        operator: OperatorLiteral::Assignment(s1.spec_first(n2)),
                                        rvalue: numeric_literal(k, s2.spec_first(n3)),
                                    }),
                                ),
                            ),
                        }
                    },
                }
            },
        },
{
    let (input, lvalue) = match identifier(input) {
        Ok(v) => v,
        Err(e) => return Err(e),
    };
    let (input, operator) = match assignment(input) {
        Ok(v) => v,
        Err(e) => return Err(e),
    };
    let (input, rvalue) = match numeric(input) {
        Ok(v) => v,
        Err(e) => return Err(e),
    };
    Ok((input, AssignmentExpr { lvalue, operator, rvalue }))
}

/// The next token at the start of `input` and what follows it: a numeric
/// literal if one stands there, else an identifier; `None` where neither
/// does, at the end of the input among others.
pub fn next_token<'a>(input: Span<'a>) -> (r: Option<(Token<'a>, Span<'a>)>)
    requires
        input.wf(),
    ensures
        match token_match(input.text()) {
            Some((k, n)) => r == Some((token_of(k, input.spec_first(n)), input.spec_rest(n))),
            None => r is None,
        },
{
    match numeric(input) {
        Ok((rest, lit)) => return Some((Token::Numeric(lit), rest)),
        Err(_) => {},
    }
    match identifier(input) {
        Ok((rest, id)) => Some((Token::Identifier(id), rest)),
        Err(_) => None,
    }
}

} // verus!
