//! Which characters may start or continue an identifier, and which may
//! trail an operator, after the rules of Julia's own lexer.
use vstd::prelude::*;
use crate::category::{general_category, general_category_of, GeneralCategory};

verus! {

/// `wc` is an ASCII letter or the underscore.
pub open spec fn is_ascii_id_start(wc: u32) -> bool {
    (0x41 <= wc && wc <= 0x5a) || (0x61 <= wc && wc <= 0x7a) || wc == 0x5f
}

/// `wc` is a control character, one of the first Latin-1 characters, or no
/// Unicode scalar value at all: none of these belongs to an identifier.
pub open spec fn is_excluded_code(wc: u32) -> bool {
    wc <= 0xa0 || wc >= 0x110000
}

/// The code points outside the letter and symbol categories that may
/// nevertheless start an identifier: some math symbols, super- and subscript
/// signs, angles, `Other_ID_Start` and bold or double-struck digits.
pub open spec fn is_listed_id_start_code(wc: u32) -> bool {
    // math symbols (category Sm) that are admitted one by one
    (0x2140 <= wc && wc <= 0x2a1c && (
        (0x2140 <= wc && wc <= 0x2144) // ⅀, ⅁, ⅂, ⅃, ⅄
        || wc == 0x223f || wc == 0x22be || wc == 0x22bf // ∿, ⊾, ⊿
        || wc == 0x22a4 || wc == 0x22a5 // ⊤, ⊥
        || (0x2200 <= wc && wc <= 0x2233 && (
            wc == 0x2202 || wc == 0x2205 || wc == 0x2206 // ∂, ∅, ∆
            || wc == 0x2207 || wc == 0x220e || wc == 0x220f // ∇, ∎, ∏
            || wc == 0x2200 || wc == 0x2203 || wc == 0x2204 // ∀, ∃, ∄
            || wc == 0x2210 || wc == 0x2211 // ∐, ∑
            || wc == 0x221e || wc == 0x221f // ∞, ∟
            || wc >= 0x222b)) // ∫ through ∳
        || (0x22c0 <= wc && wc <= 0x22c3) // n-ary big operators: ⋀, ⋁, ⋂, ⋃
        || (0x25f8 <= wc && wc <= 0x25ff) // ◸ through ◿
        || (wc >= 0x266f && (
            wc == 0x266f || wc == 0x27d8 || wc == 0x27d9 // ♯, ⟘, ⟙
            || (0x27c0 <= wc && wc <= 0x27c1) // ⟀, ⟁
            || (0x29b0 <= wc && wc <= 0x29b4) // ⦰ through ⦴
            || (0x2a00 <= wc && wc <= 0x2a06) // ⨀ through ⨆
            || (0x2a09 <= wc && wc <= 0x2a16) // ⨉ through ⨖
            || wc == 0x2a1b || wc == 0x2a1c)))) // ⨛, ⨜
    // variants of nabla and partial
    || (wc >= 0x1d6c1 && (
        wc == 0x1d6c1 || wc == 0x1d6db
        || wc == 0x1d6fb || wc == 0x1d715
        || wc == 0x1d735 || wc == 0x1d74f
        || wc == 0x1d76f || wc == 0x1d789
        || wc == 0x1d7a9 || wc == 0x1d7c3))
    // super- and subscript +-=()
    || (0x207a <= wc && wc <= 0x207e)
    || (0x208a <= wc && wc <= 0x208e)
    // angle symbols
    || (0x2220 <= wc && wc <= 0x2222) // ∠, ∡, ∢
    || (0x299b <= wc && wc <= 0x29af) // ⦛ through ⦯
    // Other_ID_Start
    || wc == 0x2118 || wc == 0x212e // ℘, ℮
    || (0x309b <= wc && wc <= 0x309c) // katakana-hiragana sound marks
    // bold digits and double-struck digits
    || (0x1d7ce <= wc && wc <= 0x1d7e1)
}

/// Whether `c` is an other symbol that is no arrow, replacement character,
/// not-slash or broken bar.
pub open spec fn is_admitted_other_symbol(c: char, cat: GeneralCategory) -> bool {
    let wc = c as u32;
    cat == GeneralCategory::OtherSymbol && !(0x2190 <= wc && wc <= 0x21FF) && wc != 0xfffc
        && wc != 0xfffd && wc != 0x233f && wc != 0x00a6
}

/// Outside ASCII, whether `c` of category `cat` may start an identifier.
pub open spec fn cat_id_start(c: char, cat: GeneralCategory) -> bool {
    cat == GeneralCategory::UppercaseLetter
        || cat == GeneralCategory::LowercaseLetter
        || cat == GeneralCategory::TitlecaseLetter
        || cat == GeneralCategory::ModifierLetter
        || cat == GeneralCategory::OtherLetter
        || cat == GeneralCategory::LetterNumber
        || cat == GeneralCategory::CurrencySymbol
        || is_admitted_other_symbol(c, cat)
        || is_listed_id_start_code(c as u32)
}

/// Outside ASCII, the characters of category `cat` that may continue an
/// identifier though they cannot start one.
pub open spec fn cat_id_continue_only(c: char, cat: GeneralCategory) -> bool {
    let wc = c as u32;
    cat == GeneralCategory::NonspacingMark
        || cat == GeneralCategory::SpacingMark
        || cat == GeneralCategory::DecimalNumber
        || cat == GeneralCategory::ConnectorPunctuation
        || cat == GeneralCategory::ModifierSymbol
        || cat == GeneralCategory::EnclosingMark
        || cat == GeneralCategory::OtherNumber
        // primes (single, double, triple, their reverses, and quadruple)
        || (0x2032 <= wc && wc <= 0x2037)
        || wc == 0x2057
}

/// Whether `c` may start an identifier.
pub open spec fn id_start(c: char) -> bool {
    let wc = c as u32;
    if is_ascii_id_start(wc) {
        true
    } else if is_excluded_code(wc) {
        false
    } else {
        cat_id_start(c, general_category_of(c))
    }
}

/// Whether `c` may stand in an identifier after its first character.
pub open spec fn id_continue(c: char) -> bool {
    let wc = c as u32;
    if is_ascii_id_start(wc) || (0x30 <= wc && wc <= 0x39) || wc == 0x21 {
        true
    } else if is_excluded_code(wc) {
        false
    } else {
        cat_id_start(c, general_category_of(c)) || cat_id_continue_only(c, general_category_of(c))
    }
}

/// The characters, listed one by one, that may trail an operator: super- and
/// subscripts, primes and some modifier letters.
pub open spec fn is_op_suffix_code(wc: u32) -> bool {
    match wc {
        0x00b2 | 0x00b3 | 0x00b9 | 0x02b0 | 0x02b2 | 0x02b3 | 0x02b7 | 0x02b8 |
        0x02e1 | 0x02e2 | 0x02e3 | 0x1d2c | 0x1d2e | 0x1d30 | 0x1d31 | 0x1d33 |
        0x1d34 | 0x1d35 | 0x1d36 | 0x1d37 | 0x1d38 | 0x1d39 | 0x1d3a | 0x1d3c |
        0x1d3e | 0x1d3f | 0x1d40 | 0x1d41 | 0x1d42 | 0x1d43 | 0x1d47 | 0x1d48 |
        0x1d49 | 0x1d4d | 0x1d4f | 0x1d50 | 0x1d52 | 0x1d56 | 0x1d57 | 0x1d58 |
        0x1d5b | 0x1d5d | 0x1d5e | 0x1d5f | 0x1d60 | 0x1d61 | 0x1d62 | 0x1d63 |
        0x1d64 | 0x1d65 | 0x1d66 | 0x1d67 | 0x1d68 | 0x1d69 | 0x1d6a | 0x1d9c |
        0x1da0 | 0x1da5 | 0x1da6 | 0x1dab | 0x1db0 | 0x1db8 | 0x1dbb | 0x1dbf |
        0x2032 | 0x2033 | 0x2034 | 0x2035 | 0x2036 | 0x2037 | 0x2057 | 0x2070 |
        0x2071 | 0x2074 | 0x2075 | 0x2076 | 0x2077 | 0x2078 | 0x2079 | 0x207a |
        0x207b | 0x207c | 0x207d | 0x207e | 0x207f | 0x2080 | 0x2081 | 0x2082 |
        0x2083 | 0x2084 | 0x2085 | 0x2086 | 0x2087 | 0x2088 | 0x2089 | 0x208a |
        0x208b | 0x208c | 0x208d | 0x208e | 0x2090 | 0x2091 | 0x2092 | 0x2093 |
        0x2095 | 0x2096 | 0x2097 | 0x2098 | 0x2099 | 0x209a | 0x209b | 0x209c |
        0x2c7c | 0x2c7d | 0xa71b | 0xa71c | 0xa71d => true,
        _ => false,
    }
}

/// Whether `c` may trail an operator and still be read as part of it.
pub open spec fn op_suffix(c: char) -> bool {
    if is_excluded_code(c as u32) {
        false
    } else {
        cat_op_suffix(c, general_category_of(c))
    }
}

/// Outside ASCII, whether `c` of category `cat` may trail an operator.
pub open spec fn cat_op_suffix(c: char, cat: GeneralCategory) -> bool {
    cat == GeneralCategory::NonspacingMark
        || cat == GeneralCategory::SpacingMark
        || cat == GeneralCategory::EnclosingMark
        || is_op_suffix_code(c as u32)
}

/// Tests whether `c`, of general category `cat`, starts an identifier; this
/// is the rule for characters past the control and Latin-1 range.
pub fn is_char_cat_id_start(c: char, cat: GeneralCategory) -> (r: bool)
    ensures
        r == cat_id_start(c, cat),
{
    let wc = c as u32;
    cat == GeneralCategory::UppercaseLetter
        || cat == GeneralCategory::LowercaseLetter
        || cat == GeneralCategory::TitlecaseLetter
        || cat == GeneralCategory::ModifierLetter
        || cat == GeneralCategory::OtherLetter
        || cat == GeneralCategory::LetterNumber
        || cat == GeneralCategory::CurrencySymbol
        // other symbols, but not arrows or replacement characters
        || (cat == GeneralCategory::OtherSymbol
            && !(0x2190 <= wc && wc <= 0x21FF)
            && wc != 0xfffc && wc != 0xfffd
            && wc != 0x233f // notslash
            && wc != 0x00a6) // broken bar
        // math symbols (category Sm) that are admitted one by one
        || (0x2140 <= wc && wc <= 0x2a1c && (
            (0x2140 <= wc && wc <= 0x2144) // ⅀, ⅁, ⅂, ⅃, ⅄
            || wc == 0x223f || wc == 0x22be || wc == 0x22bf // ∿, ⊾, ⊿
            || wc == 0x22a4 || wc == 0x22a5 // ⊤, ⊥
            || (0x2200 <= wc && wc <= 0x2233 && (
                wc == 0x2202 || wc == 0x2205 || wc == 0x2206 // ∂, ∅, ∆
                || wc == 0x2207 || wc == 0x220e || wc == 0x220f // ∇, ∎, ∏
                || wc == 0x2200 || wc == 0x2203 || wc == 0x2204 // ∀, ∃, ∄
                || wc == 0x2210 || wc == 0x2211 // ∐, ∑
                || wc == 0x221e || wc == 0x221f // ∞, ∟
                || wc >= 0x222b)) // ∫ through ∳
            || (0x22c0 <= wc && wc <= 0x22c3) // n-ary big operators: ⋀, ⋁, ⋂, ⋃
            || (0x25f8 <= wc && wc <= 0x25ff) // ◸ through ◿
            || (wc >= 0x266f && (
                wc == 0x266f || wc == 0x27d8 || wc == 0x27d9 // ♯, ⟘, ⟙
                || (0x27c0 <= wc && wc <= 0x27c1) // ⟀, ⟁
                || (0x29b0 <= wc && wc <= 0x29b4) // ⦰ through ⦴
                || (0x2a00 <= wc && wc <= 0x2a06) // ⨀ through ⨆
                || (0x2a09 <= wc && wc <= 0x2a16) // ⨉ through ⨖
                || wc == 0x2a1b || wc == 0x2a1c)))) // ⨛, ⨜
        // variants of nabla and partial
        || (wc >= 0x1d6c1 && (
            wc == 0x1d6c1 || wc == 0x1d6db
            || wc == 0x1d6fb || wc == 0x1d715
            || wc == 0x1d735 || wc == 0x1d74f
            || wc == 0x1d76f || wc == 0x1d789
            || wc == 0x1d7a9 || wc == 0x1d7c3))
        // super- and subscript +-=()
        || (0x207a <= wc && wc <= 0x207e)
        || (0x208a <= wc && wc <= 0x208e)
        // angle symbols
        || (0x2220 <= wc && wc <= 0x2222) // ∠, ∡, ∢
        || (0x299b <= wc && wc <= 0x29af) // ⦛ through ⦯
        // Other_ID_Start
        || wc == 0x2118 || wc == 0x212e // ℘, ℮
        || (0x309b <= wc && wc <= 0x309c) // katakana-hiragana sound marks
        // bold digits and double-struck digits
        || (0x1d7ce <= wc && wc <= 0x1d7e1)
}

/// Tests whether `c` starts a valid identifier.
pub fn is_char_id_start(c: char) -> (r: bool)
    ensures
        r == id_start(c),
{
    let wc = c as u32;
    if (0x41 <= wc && wc <= 0x5a) || (0x61 <= wc && wc <= 0x7a) || wc == 0x5f {
        true
    } else if wc <= 0xa0 || wc >= 0x110000 {
        false
    } else {
        is_char_cat_id_start(c, general_category(c))
    }
}

/// Tests whether `c` is valid in an identifier after its first character;
/// this is more lax than the rule for the first one.
pub fn is_char_id(c: char) -> (r: bool)
    ensures
        r == id_continue(c),
{
    let wc = c as u32;
    if (0x41 <= wc && wc <= 0x5a) || (0x61 <= wc && wc <= 0x7a) || wc == 0x5f
        || (0x30 <= wc && wc <= 0x39) || wc == 0x21 {
        true
    } else if wc <= 0xa0 || wc >= 0x110000 {
        false
    } else {
        is_char_cat_id(c, general_category(c))
    }
}

/// Tests whether `c`, of general category `cat`, may continue an identifier;
/// this is the rule for characters past the control and Latin-1 range.
pub fn is_char_cat_id(c: char, cat: GeneralCategory) -> (r: bool)
    ensures
        r == (cat_id_start(c, cat) || cat_id_continue_only(c, cat)),
{
    let wc = c as u32;
    is_char_cat_id_start(c, cat) || cat == GeneralCategory::NonspacingMark
        || cat == GeneralCategory::SpacingMark
        || cat == GeneralCategory::DecimalNumber
        || cat == GeneralCategory::ConnectorPunctuation
        || cat == GeneralCategory::ModifierSymbol
        || cat == GeneralCategory::EnclosingMark
        || cat == GeneralCategory::OtherNumber
        // primes (single, double, triple, their reverses, and quadruple)
        || (0x2032 <= wc && wc <= 0x2037)
        || wc == 0x2057
}

fn is_op_suffix_code_exec(wc: u32) -> (r: bool)
    ensures
        r == is_op_suffix_code(wc),
{
    match wc {
        0x00b2 | 0x00b3 | 0x00b9 | 0x02b0 | 0x02b2 | 0x02b3 | 0x02b7 | 0x02b8 |
        0x02e1 | 0x02e2 | 0x02e3 | 0x1d2c | 0x1d2e | 0x1d30 | 0x1d31 | 0x1d33 |
        0x1d34 | 0x1d35 | 0x1d36 | 0x1d37 | 0x1d38 | 0x1d39 | 0x1d3a | 0x1d3c |
        0x1d3e | 0x1d3f | 0x1d40 | 0x1d41 | 0x1d42 | 0x1d43 | 0x1d47 | 0x1d48 |
        0x1d49 | 0x1d4d | 0x1d4f | 0x1d50 | 0x1d52 | 0x1d56 | 0x1d57 | 0x1d58 |
        0x1d5b | 0x1d5d | 0x1d5e | 0x1d5f | 0x1d60 | 0x1d61 | 0x1d62 | 0x1d63 |
        0x1d64 | 0x1d65 | 0x1d66 | 0x1d67 | 0x1d68 | 0x1d69 | 0x1d6a | 0x1d9c |
        0x1da0 | 0x1da5 | 0x1da6 | 0x1dab | 0x1db0 | 0x1db8 | 0x1dbb | 0x1dbf |
        0x2032 | 0x2033 | 0x2034 | 0x2035 | 0x2036 | 0x2037 | 0x2057 | 0x2070 |
        0x2071 | 0x2074 | 0x2075 | 0x2076 | 0x2077 | 0x2078 | 0x2079 | 0x207a |
        0x207b | 0x207c | 0x207d | 0x207e | 0x207f | 0x2080 | 0x2081 | 0x2082 |
        0x2083 | 0x2084 | 0x2085 | 0x2086 | 0x2087 | 0x2088 | 0x2089 | 0x208a |
        0x208b | 0x208c | 0x208d | 0x208e | 0x2090 | 0x2091 | 0x2092 | 0x2093 |
        0x2095 | 0x2096 | 0x2097 | 0x2098 | 0x2099 | 0x209a | 0x209b | 0x209c |
        0x2c7c | 0x2c7d | 0xa71b | 0xa71c | 0xa71d => true,
        _ => false,
    }
}

/// Returns true if `c` can follow an operator (such as `+`) and be read as
/// part of that operator.
pub fn is_op_suffix_char(c: char) -> (r: bool)
    ensures
        r == op_suffix(c),
{
    let wc = c as u32;
    if wc <= 0xa0 || wc >= 0x110000 {
        false
    } else {
        is_cat_op_suffix_char(c, general_category(c))
    }
}

/// Tests whether `c`, of general category `cat`, may trail an operator; this
/// is the rule for characters past the control and Latin-1 range.
pub fn is_cat_op_suffix_char(c: char, cat: GeneralCategory) -> (r: bool)
    ensures
        r == cat_op_suffix(c, cat),
{
    cat == GeneralCategory::NonspacingMark
        || cat == GeneralCategory::SpacingMark
        || cat == GeneralCategory::EnclosingMark
        || is_op_suffix_code_exec(c as u32)
}

/// Outside ASCII and the control and Latin-1 range, a character continues an
/// identifier only through one of the admitted categories (letters, letter
/// numbers, currency symbols, marks, decimal and other numbers, connector
/// punctuation, modifier symbols), as an other symbol that is not excluded,
/// or as a code point listed one by one (the start list and the primes).
pub proof fn lemma_id_continue_categories(c: char)
    requires
        0xa0 < c as u32,
    ensures
        id_continue(c) ==> {
            let cat = general_category_of(c);
            ||| cat == GeneralCategory::UppercaseLetter
            ||| cat == GeneralCategory::LowercaseLetter
            ||| cat == GeneralCategory::TitlecaseLetter
            ||| cat == GeneralCategory::ModifierLetter
            ||| cat == GeneralCategory::OtherLetter
            ||| cat == GeneralCategory::LetterNumber
            ||| cat == GeneralCategory::CurrencySymbol
            ||| cat == GeneralCategory::NonspacingMark
            ||| cat == GeneralCategory::SpacingMark
            ||| cat == GeneralCategory::EnclosingMark
            ||| cat == GeneralCategory::DecimalNumber
            ||| cat == GeneralCategory::OtherNumber
            ||| cat == GeneralCategory::ConnectorPunctuation
            ||| cat == GeneralCategory::ModifierSymbol
            ||| is_admitted_other_symbol(c, cat)
            ||| is_listed_id_start_code(c as u32)
            ||| (0x2032 <= c as u32 && c as u32 <= 0x2037)
            ||| c as u32 == 0x2057
        },
{
}

/// Every character that may start an identifier may also continue one.
pub proof fn lemma_id_start_continues(c: char)
    ensures
        id_start(c) ==> id_continue(c),
{
}

} // verus!
