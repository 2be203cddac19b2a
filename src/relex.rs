//! Lexing a token's own text again gives the same token: a match never
//! depends on what follows it, beyond what its grammar had to look at.
use vstd::prelude::*;
use crate::extensions::id_continue;
use crate::parser::{
    binary_end, digits_end, exponent_end, exponent_float_end, first_prefix_end, float_end,
    group_tail, groups_end, has_prefix, hex_float_end, hex_mantissa_end, hexadecimal_end,
    identifier_end, identifier_tail, integer_end, is_digit_of, leading_dot_float_end,
    numeric_match, octal_end, prefixed_end, signed_digits_end, special_float_end,
    special_float_names, token_match, trailing_dot_float_end, Radix,
};

verus! {

proof fn lemma_group_tail_bounds(t: Seq<char>, i: int, r: Radix)
    requires
        0 <= i <= t.len(),
    ensures
        i <= group_tail(t, i, r) <= t.len(),
    decreases t.len() - i,
{
    if i < t.len() && is_digit_of(r, t[i]) {
        lemma_group_tail_bounds(t, i + 1, r);
    } else if i + 1 < t.len() && t[i] == '_' && is_digit_of(r, t[i + 1]) {
        lemma_group_tail_bounds(t, i + 2, r);
    }
}

/// On the first `m` characters a run of groups ends where it ended on all of
/// `t`, unless it reached `m`, or stopped at a `_` just before `m`.
proof fn lemma_group_tail_prefix(t: Seq<char>, i: int, r: Radix, m: int)
    requires
        0 <= i <= m <= t.len(),
    ensures
        ({
            let e = group_tail(t.subrange(0, m), i, r);
            &&& (group_tail(t, i, r) <= m ==> e == group_tail(t, i, r))
            &&& (e == group_tail(t, i, r) || e == m || (e + 1 == m && t[e] == '_'))
            &&& i <= e <= m
        }),
    decreases t.len() - i,
{
    let u = t.subrange(0, m);
    if i < m && is_digit_of(r, t[i]) {
        assert(u[i] == t[i]);
        lemma_group_tail_prefix(t, i + 1, r, m);
    } else if i + 1 < m && t[i] == '_' && is_digit_of(r, t[i + 1]) {
        assert(u[i] == t[i] && u[i + 1] == t[i + 1]);
        lemma_group_tail_prefix(t, i + 2, r, m);
    } else {
        if i < m {
            assert(u[i] == t[i]);
        }
        if i + 1 < m {
            assert(u[i + 1] == t[i + 1]);
        }
        if i < t.len() {
            lemma_group_tail_bounds(t, i + 1, r);
        }
        if i + 1 < t.len() {
            lemma_group_tail_bounds(t, i + 2, r);
        }
    }
}

proof fn lemma_digits_prefix(t: Seq<char>, i: int, m: int)
    requires
        0 <= i <= m <= t.len(),
    ensures
        i <= digits_end(t, i) <= t.len(),
        i <= digits_end(t.subrange(0, m), i) <= m,
        digits_end(t, i) <= m ==> digits_end(t.subrange(0, m), i) == digits_end(t, i),
    decreases t.len() - i,
{
    let u = t.subrange(0, m);
    if i < m {
        assert(u[i] == t[i]);
    }
    if i < t.len() && is_digit_of(Radix::Decimal, t[i]) {
        if i < m {
            lemma_digits_prefix(t, i + 1, m);
        } else {
            lemma_digits_prefix(t, i + 1, t.len() as int);
            assert(t.subrange(0, t.len() as int) =~= t);
        }
    }
}

proof fn lemma_identifier_tail_prefix(t: Seq<char>, i: int, m: int)
    requires
        0 <= i <= m <= t.len(),
    ensures
        i <= identifier_tail(t, i) <= t.len(),
        identifier_tail(t, i) <= m ==> identifier_tail(t.subrange(0, m), i) == identifier_tail(
            t,
            i,
        ),
    decreases t.len() - i,
{
    let u = t.subrange(0, m);
    if i < m {
        assert(u[i] == t[i]);
    }
    if i < t.len() && id_continue(t[i]) {
        if i < m {
            lemma_identifier_tail_prefix(t, i + 1, m);
        } else {
            lemma_identifier_tail_prefix(t, i + 1, t.len() as int);
            assert(t.subrange(0, t.len() as int) =~= t);
        }
    }
}

proof fn lemma_groups_prefix(t: Seq<char>, i: int, r: Radix, m: int)
    requires
        0 <= i <= m <= t.len(),
    ensures
        groups_end(t, i, r) is Some ==> i < groups_end(t, i, r)->0 <= t.len(),
        groups_end(t.subrange(0, m), i, r) is Some ==> groups_end(t, i, r) is Some,
        groups_end(t, i, r) is Some && groups_end(t, i, r)->0 <= m ==> groups_end(
            t.subrange(0, m),
            i,
            r,
        ) == groups_end(t, i, r),
{
    let u = t.subrange(0, m);
    if i < m {
        assert(u[i] == t[i]);
        lemma_group_tail_prefix(t, i + 1, r, m);
    }
    if i < t.len() {
        lemma_group_tail_bounds(t, i + 1, r);
    }
}

proof fn lemma_signed_digits_prefix(t: Seq<char>, i: int, m: int)
    requires
        0 <= i <= m <= t.len(),
    ensures
        signed_digits_end(t, i) is Some ==> i < signed_digits_end(t, i)->0 <= t.len(),
        signed_digits_end(t.subrange(0, m), i) is Some ==> signed_digits_end(t, i) is Some,
        signed_digits_end(t, i) is Some && signed_digits_end(t, i)->0 <= m ==> signed_digits_end(
            t.subrange(0, m),
            i,
        ) == signed_digits_end(t, i),
{
    let u = t.subrange(0, m);
    if i < m {
        assert(u[i] == t[i]);
    }
    if i + 1 < m {
        assert(u[i + 1] == t[i + 1]);
    }
    if i + 1 <= m {
        lemma_digits_prefix(t, i + 1, m);
    } else if i + 1 <= t.len() {
        lemma_digits_prefix(t, i + 1, t.len() as int);
    }
    if i + 2 <= m {
        lemma_digits_prefix(t, i + 2, m);
    } else if i + 2 <= t.len() {
        lemma_digits_prefix(t, i + 2, t.len() as int);
    }
}

proof fn lemma_exponent_prefix(t: Seq<char>, i: int, m: int)
    requires
        0 <= i <= m <= t.len(),
    ensures
        exponent_end(t, i) is Some ==> i < exponent_end(t, i)->0 <= t.len(),
        exponent_end(t.subrange(0, m), i) is Some ==> exponent_end(t, i) is Some,
        exponent_end(t, i) is Some && exponent_end(t, i)->0 <= m ==> exponent_end(
            t.subrange(0, m),
            i,
        ) == exponent_end(t, i),
{
    let u = t.subrange(0, m);
    if i < m {
        assert(u[i] == t[i]);
        lemma_signed_digits_prefix(t, i + 1, m);
    } else if i < t.len() {
        lemma_signed_digits_prefix(t, i + 1, t.len() as int);
    }
}

proof fn lemma_has_prefix_prefix(t: Seq<char>, i: int, p: Seq<char>, m: int)
    requires
        0 <= i <= m <= t.len(),
    ensures
        has_prefix(t.subrange(0, m), i, p) ==> has_prefix(t, i, p),
        has_prefix(t, i, p) && i + p.len() <= m ==> has_prefix(t.subrange(0, m), i, p),
{
    let u = t.subrange(0, m);
    if i + p.len() <= m {
        assert(u.subrange(i, i + p.len()) =~= t.subrange(i, i + p.len()));
    }
}

proof fn lemma_first_prefix_prefix(t: Seq<char>, i: int, ps: Seq<Seq<char>>, k: int, m: int)
    requires
        0 <= i <= m <= t.len(),
        0 <= k,
    ensures
        first_prefix_end(t, i, ps, k) is Some ==> i <= first_prefix_end(t, i, ps, k)->0 <= t.len(),
        first_prefix_end(t.subrange(0, m), i, ps, k) is Some ==> first_prefix_end(t, i, ps, k) is Some,
        first_prefix_end(t, i, ps, k) is Some && first_prefix_end(t, i, ps, k)->0 <= m
            ==> first_prefix_end(t.subrange(0, m), i, ps, k) == first_prefix_end(t, i, ps, k),
    decreases ps.len() - k,
{
    if k < ps.len() {
        lemma_has_prefix_prefix(t, i, ps[k], m);
        lemma_first_prefix_prefix(t, i, ps, k + 1, m);
    }
}

proof fn lemma_leading_dot_prefix(t: Seq<char>, i: int, m: int)
    requires
        0 <= i <= m <= t.len(),
    ensures
        leading_dot_float_end(t, i) is Some ==> i < leading_dot_float_end(t, i)->0 <= t.len(),
        leading_dot_float_end(t.subrange(0, m), i) is Some ==> leading_dot_float_end(t, i) is Some,
        leading_dot_float_end(t, i) is Some && leading_dot_float_end(t, i)->0 <= m
            ==> leading_dot_float_end(t.subrange(0, m), i) == leading_dot_float_end(t, i),
{
    let u = t.subrange(0, m);
    if i < m {
        assert(u[i] == t[i]);
        lemma_groups_prefix(t, i + 1, Radix::Decimal, m);
        if integer_end(t, i + 1) is Some {
            let j = integer_end(t, i + 1)->0;
            if j <= m {
                lemma_exponent_prefix(t, j, m);
            } else {
                lemma_exponent_prefix(t, j, t.len() as int);
            }
        }
    } else if i < t.len() {
        lemma_groups_prefix(t, i + 1, Radix::Decimal, t.len() as int);
        if integer_end(t, i + 1) is Some {
            lemma_exponent_prefix(t, integer_end(t, i + 1)->0, t.len() as int);
        }
    }
}

proof fn lemma_trailing_dot_prefix(t: Seq<char>, i: int, m: int)
    requires
        0 <= i <= m <= t.len(),
    ensures
        trailing_dot_float_end(t, i) is Some ==> i < trailing_dot_float_end(t, i)->0 <= t.len(),
        trailing_dot_float_end(t.subrange(0, m), i) is Some ==> trailing_dot_float_end(t, i) is Some,
        trailing_dot_float_end(t, i) is Some && trailing_dot_float_end(t, i)->0 <= m
            ==> trailing_dot_float_end(t.subrange(0, m), i) == trailing_dot_float_end(t, i),
{
    let u = t.subrange(0, m);
    lemma_groups_prefix(t, i, Radix::Decimal, m);
    if i < m {
        assert(u[i] == t[i]);
        lemma_group_tail_prefix(t, i + 1, Radix::Decimal, m);
    }
    if integer_end(t, i) is Some {
        let j = integer_end(t, i)->0;
        if j < m {
            assert(u[j] == t[j]);
            lemma_groups_prefix(t, j + 1, Radix::Decimal, m);
        } else if j < t.len() {
            lemma_groups_prefix(t, j + 1, Radix::Decimal, t.len() as int);
        }
    }
    if integer_end(u, i) is Some {
        let j = integer_end(u, i)->0;
        if j < m {
            assert(u[j] == t[j]);
        }
    }
}

proof fn lemma_exponent_float_prefix(t: Seq<char>, i: int, m: int)
    requires
        0 <= i <= m <= t.len(),
    ensures
        exponent_float_end(t, i) is Some ==> i < exponent_float_end(t, i)->0 <= t.len(),
        exponent_float_end(t.subrange(0, m), i) is Some ==> exponent_float_end(t, i) is Some,
        exponent_float_end(t, i) is Some && exponent_float_end(t, i)->0 <= m
            ==> exponent_float_end(t.subrange(0, m), i) == exponent_float_end(t, i),
{
    let u = t.subrange(0, m);
    lemma_groups_prefix(t, i, Radix::Decimal, m);
    if i < m {
        assert(u[i] == t[i]);
        lemma_group_tail_prefix(t, i + 1, Radix::Decimal, m);
    }
    if integer_end(t, i) is Some {
        let j = integer_end(t, i)->0;
        if j < m {
            assert(u[j] == t[j]);
            lemma_groups_prefix(t, j + 1, Radix::Decimal, m);
            if j + 1 < m {
                assert(u[j + 1] == t[j + 1]);
                lemma_group_tail_prefix(t, j + 2, Radix::Decimal, m);
            }
        } else if j < t.len() {
            lemma_groups_prefix(t, j + 1, Radix::Decimal, t.len() as int);
        }
        let mt = if 0 <= j < t.len() && t[j] == '.' && integer_end(t, j + 1) is Some {
            integer_end(t, j + 1)->0
        } else {
            j
        };
        if mt <= m {
            lemma_exponent_prefix(t, mt, m);
        } else {
            lemma_exponent_prefix(t, mt, t.len() as int);
        }
    }
    if integer_end(u, i) is Some {
        let j = integer_end(u, i)->0;
        if j < m {
            assert(u[j] == t[j]);
            if integer_end(u, j + 1) is Some {
                let k = integer_end(u, j + 1)->0;
                if k < m {
                    assert(u[k] == t[k]);
                }
            }
        }
    }
}

proof fn lemma_special_prefix(t: Seq<char>, i: int, m: int)
    requires
        0 <= i <= m <= t.len(),
    ensures
        special_float_end(t, i) is Some ==> i < special_float_end(t, i)->0 <= t.len(),
        special_float_end(t.subrange(0, m), i) is Some ==> special_float_end(t, i) is Some,
        special_float_end(t, i) is Some && special_float_end(t, i)->0 <= m
            ==> special_float_end(t.subrange(0, m), i) == special_float_end(t, i),
{
    lemma_first_prefix_prefix(t, i, special_float_names(), 0, m);
    lemma_special_names_nonempty(t, i, 0);
}

proof fn lemma_special_names_nonempty(t: Seq<char>, i: int, k: int)
    requires
        0 <= k,
    ensures
        first_prefix_end(t, i, special_float_names(), k) is Some ==> i < first_prefix_end(
            t,
            i,
            special_float_names(),
            k,
        )->0,
    decreases special_float_names().len() - k,
{
    if k < special_float_names().len() {
        lemma_special_names_nonempty(t, i, k + 1);
    }
}

proof fn lemma_prefixed_prefix(t: Seq<char>, i: int, letter: char, r: Radix, m: int)
    requires
        0 <= i <= m <= t.len(),
    ensures
        prefixed_end(t, i, letter, r) is Some ==> i < prefixed_end(t, i, letter, r)->0 <= t.len(),
        prefixed_end(t.subrange(0, m), i, letter, r) is Some ==> prefixed_end(t, i, letter, r) is Some,
        prefixed_end(t, i, letter, r) is Some && prefixed_end(t, i, letter, r)->0 <= m
            ==> prefixed_end(t.subrange(0, m), i, letter, r) == prefixed_end(t, i, letter, r),
{
    let u = t.subrange(0, m);
    if i + 1 < m {
        assert(u[i] == t[i] && u[i + 1] == t[i + 1]);
        lemma_groups_prefix(t, i + 2, r, m);
    } else if i + 1 < t.len() {
        lemma_groups_prefix(t, i + 2, r, t.len() as int);
    }
}

proof fn lemma_hex_mantissa_prefix(t: Seq<char>, i: int, m: int)
    requires
        0 <= i <= m <= t.len(),
    ensures
        hex_mantissa_end(t, i) is Some ==> i < hex_mantissa_end(t, i)->0 <= t.len(),
        hex_mantissa_end(t, i) is Some && hex_mantissa_end(t, i)->0 <= m ==> hex_mantissa_end(
            t.subrange(0, m),
            i,
        ) == hex_mantissa_end(t, i),
        ({
            let u = t.subrange(0, m);
            let k = hex_mantissa_end(u, i)->0;
            hex_mantissa_end(u, i) is Some && k < m && u[k] == 'p' ==> hex_mantissa_end(t, i)
                == hex_mantissa_end(u, i)
        }),
{
    let u = t.subrange(0, m);
    let h = Radix::Hexadecimal;
    lemma_groups_prefix(t, i, h, m);
    if i < m {
        assert(u[i] == t[i]);
        lemma_group_tail_prefix(t, i + 1, h, m);
        lemma_groups_prefix(t, i + 1, h, m);
        if i + 1 < m {
            assert(u[i + 1] == t[i + 1]);
            lemma_group_tail_prefix(t, i + 2, h, m);
        }
    } else if i < t.len() {
        lemma_groups_prefix(t, i + 1, h, t.len() as int);
    }
    if groups_end(t, i, h) is Some {
        let j = groups_end(t, i, h)->0;
        if j < m {
            assert(u[j] == t[j]);
            lemma_groups_prefix(t, j + 1, h, m);
            if j + 1 < m {
                assert(u[j + 1] == t[j + 1]);
                lemma_group_tail_prefix(t, j + 2, h, m);
            }
        } else if j < t.len() {
            lemma_groups_prefix(t, j + 1, h, t.len() as int);
        }
    }
    if groups_end(u, i, h) is Some {
        let j = groups_end(u, i, h)->0;
        if j < m {
            assert(u[j] == t[j]);
            if groups_end(u, j + 1, h) is Some {
                let k = groups_end(u, j + 1, h)->0;
                if k < m {
                    assert(u[k] == t[k]);
                }
            }
        }
    }
    if i < m && groups_end(u, i + 1, h) is Some {
        let k = groups_end(u, i + 1, h)->0;
        if k < m {
            assert(u[k] == t[k]);
        }
    }
}

proof fn lemma_hex_float_prefix(t: Seq<char>, i: int, m: int)
    requires
        0 <= i <= m <= t.len(),
    ensures
        hex_float_end(t, i) is Some ==> i < hex_float_end(t, i)->0 <= t.len(),
        hex_float_end(t.subrange(0, m), i) is Some ==> hex_float_end(t, i) is Some,
        hex_float_end(t, i) is Some && hex_float_end(t, i)->0 <= m ==> hex_float_end(
            t.subrange(0, m),
            i,
        ) == hex_float_end(t, i),
{
    let u = t.subrange(0, m);
    if i + 1 < t.len() && t[i] == '0' && t[i + 1] == 'x' {
        if i + 2 <= m {
            assert(u[i] == t[i] && u[i + 1] == t[i + 1]);
            lemma_hex_mantissa_prefix(t, i + 2, m);
        } else {
            lemma_hex_mantissa_prefix(t, i + 2, t.len() as int);
        }
        if hex_mantissa_end(t, i + 2) is Some {
            let k = hex_mantissa_end(t, i + 2)->0;
            if k < m {
                assert(u[k] == t[k]);
                lemma_signed_digits_prefix(t, k + 1, m);
            } else if k < t.len() {
                lemma_signed_digits_prefix(t, k + 1, t.len() as int);
            }
        }
    } else if i + 1 < m {
        assert(u[i] == t[i] && u[i + 1] == t[i + 1]);
    }
}

proof fn lemma_float_prefix(t: Seq<char>, i: int, m: int)
    requires
        0 <= i <= m <= t.len(),
    ensures
        float_end(t, i) is Some ==> i < float_end(t, i)->0 <= t.len(),
        float_end(t.subrange(0, m), i) is Some ==> float_end(t, i) is Some,
        float_end(t, i) is Some && float_end(t, i)->0 <= m ==> float_end(t.subrange(0, m), i)
            == float_end(t, i),
{
    lemma_leading_dot_prefix(t, i, m);
    lemma_exponent_float_prefix(t, i, m);
    lemma_trailing_dot_prefix(t, i, m);
    lemma_special_prefix(t, i, m);
    lemma_hex_float_prefix(t, i, m);
}

proof fn lemma_numeric_prefix(t: Seq<char>, m: int)
    requires
        0 <= m <= t.len(),
    ensures
        numeric_match(t) is Some ==> {
            let (_, n) = numeric_match(t)->0;
            0 < n <= t.len()
        },
        numeric_match(t.subrange(0, m)) is Some ==> numeric_match(t) is Some,
        numeric_match(t) is Some && {
            let (_, n) = numeric_match(t)->0;
            n <= m
        } ==> numeric_match(t.subrange(0, m)) == numeric_match(t),
{
    lemma_float_prefix(t, 0, m);
    lemma_prefixed_prefix(t, 0, 'x', Radix::Hexadecimal, m);
    lemma_prefixed_prefix(t, 0, 'o', Radix::Octal, m);
    lemma_prefixed_prefix(t, 0, 'b', Radix::Binary, m);
    lemma_groups_prefix(t, 0, Radix::Decimal, m);
}

proof fn lemma_identifier_prefix(t: Seq<char>, m: int)
    requires
        0 <= m <= t.len(),
    ensures
        identifier_end(t, 0) is Some ==> 0 < identifier_end(t, 0)->0 <= t.len(),
        identifier_end(t, 0) is Some && identifier_end(t, 0)->0 <= m ==> identifier_end(
            t.subrange(0, m),
            0,
        ) == identifier_end(t, 0),
{
    if 0 < t.len() {
        lemma_identifier_tail_prefix(t, 1, t.len() as int);
        if 0 < m {
            assert(t.subrange(0, m)[0] == t[0]);
            lemma_identifier_tail_prefix(t, 1, m);
        }
    }
}

/// Lexing the text of the token at the start of `t` on its own gives a token
/// of the same kind that covers all of that text.
pub proof fn lemma_retokenize(t: Seq<char>)
    ensures
        token_match(t) is Some ==> {
            let (k, n) = token_match(t)->0;
            &&& 0 < n <= t.len()
            &&& token_match(t.subrange(0, n)) == Some((k, n))
        },
{
    if token_match(t) is Some {
        let (_, n) = token_match(t)->0;
        lemma_numeric_prefix(t, t.len() as int);
        lemma_identifier_prefix(t, t.len() as int);
        lemma_numeric_prefix(t, n);
        lemma_identifier_prefix(t, n);
    }
}

} // verus!
