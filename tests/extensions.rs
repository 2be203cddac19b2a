use julia_lexer::category::{from_abbreviation, general_category, GeneralCategory};
use julia_lexer::extensions::{
    is_cat_op_suffix_char, is_char_cat_id, is_char_cat_id_start, is_char_id, is_char_id_start,
    is_op_suffix_char,
};

#[test]
fn identifier_start_characters() {
    assert!(is_char_id_start('a'));
    assert!(is_char_id_start('_'));
    assert!(is_char_id_start('λ'));
    assert!(is_char_id_start('⨊'));
    assert!(!is_char_id_start('′'));
}

#[test]
fn identifier_characters() {
    assert!(is_char_id('a'));
    assert!(is_char_id('_'));
    assert!(is_char_id('λ'));
    assert!(is_char_id('⨊'));
    assert!(is_char_id('′'));
}

#[test]
fn op_suffix() {
    assert!(is_op_suffix_char('ᵡ'));
    assert!(!is_op_suffix_char('1'));
}

#[test]
fn categories_come_from_the_unicode_tables() {
    assert_eq!(general_category('A'), GeneralCategory::UppercaseLetter);
    assert_eq!(general_category('a'), GeneralCategory::LowercaseLetter);
    assert_eq!(general_category('.'), GeneralCategory::OtherPunctuation);
    assert_eq!(general_category('カ'), GeneralCategory::OtherLetter);
    assert_eq!(general_category('\u{302}'), GeneralCategory::NonspacingMark);
    assert_eq!(general_category('→'), GeneralCategory::MathSymbol);
}

#[test]
fn ascii_rules() {
    assert!(is_char_id_start('Z'));
    assert!(!is_char_id_start('0'));
    assert!(!is_char_id_start('!'));
    assert!(is_char_id('9'));
    assert!(is_char_id('!'));
    assert!(!is_char_id(' '));
    assert!(!is_char_id('\u{a0}'));
    assert!(!is_op_suffix_char('\u{a0}'));
}

#[test]
fn symbol_exclusions() {
    // arrows, replacement characters, not-slash and the broken bar are
    // symbols that start no identifier
    assert!(!is_char_id_start('↔'));
    assert!(!is_char_id_start('\u{21ff}'));
    assert!(!is_char_id_start('\u{fffd}'));
    assert!(!is_char_id_start('\u{fffc}'));
    assert!(!is_char_id_start('\u{233f}'));
    assert!(!is_char_id_start('¦'));
    assert!(is_char_id_start('🐈'));
    assert!(!is_char_id_start('$'));
    assert!(is_char_id_start('€'));
}

#[test]
fn math_whitelist() {
    assert!(is_char_id_start('∂'));
    assert!(is_char_id_start('∑'));
    assert!(is_char_id_start('∞'));
    assert!(is_char_id_start('∫'));
    assert!(!is_char_id_start('+'));
    assert!(!is_char_id_start('∈'));
    assert!(is_char_id_start('⋃'));
    assert!(is_char_id_start('\u{207a}'));
    assert!(is_char_id_start('∠'));
    assert!(is_char_id_start('℘'));
    assert!(is_char_id_start('𝟎'));
    assert!(is_char_id_start('\u{1d6c1}'));
    assert!(is_char_id_start('\u{1d6c2}'));
}

#[test]
fn continuation_categories() {
    assert!(!is_char_id_start('\u{302}'));
    assert!(is_char_id('\u{302}'));
    assert!(is_char_id('₂'));
    assert!(is_char_id('٣'));
    assert!(is_char_id('‿'));
    assert!(is_char_id('⁗'));
    assert!(!is_char_id('⁘'));
}

#[test]
fn operator_suffixes() {
    assert!(is_op_suffix_char('²'));
    assert!(is_op_suffix_char('′'));
    assert!(is_op_suffix_char('\u{302}'));
    assert!(is_op_suffix_char('ꜝ'));
    assert!(!is_op_suffix_char('a'));
    assert!(!is_op_suffix_char('λ'));
}

#[test]
fn abbreviations_name_categories() {
    assert_eq!(from_abbreviation(&vec!['L', 'u']), GeneralCategory::UppercaseLetter);
    assert_eq!(from_abbreviation(&vec!['S', 'm']), GeneralCategory::MathSymbol);
    assert_eq!(from_abbreviation(&vec!['M', 'n']), GeneralCategory::NonspacingMark);
    assert_eq!(from_abbreviation(&vec!['C', 'n']), GeneralCategory::Unassigned);
    assert_eq!(from_abbreviation(&vec!['X', 'x']), GeneralCategory::Unassigned);
    assert_eq!(from_abbreviation(&vec!['L']), GeneralCategory::Unassigned);
}

#[test]
fn rules_by_category() {
    // a letter category admits any character
    assert!(is_char_cat_id_start('\u{4e00}', GeneralCategory::OtherLetter));
    // other symbols, but not arrows
    assert!(is_char_cat_id_start('\u{2600}', GeneralCategory::OtherSymbol));
    assert!(!is_char_cat_id_start('\u{2190}', GeneralCategory::OtherSymbol));
    // math symbols only where listed
    assert!(is_char_cat_id_start('\u{2a0a}', GeneralCategory::MathSymbol));
    assert!(!is_char_cat_id_start('\u{2a07}', GeneralCategory::MathSymbol));
    assert!(!is_char_cat_id_start('\u{300}', GeneralCategory::NonspacingMark));
    assert!(is_char_cat_id('\u{300}', GeneralCategory::NonspacingMark));
    assert!(is_char_cat_id('\u{2032}', GeneralCategory::OtherPunctuation));
    assert!(!is_char_cat_id('\u{2038}', GeneralCategory::OtherPunctuation));
    assert!(is_cat_op_suffix_char('\u{20dd}', GeneralCategory::EnclosingMark));
    assert!(is_cat_op_suffix_char('\u{1d62}', GeneralCategory::ModifierLetter));
    assert!(is_cat_op_suffix_char('\u{1d63}', GeneralCategory::ModifierLetter));
    assert!(!is_cat_op_suffix_char('\u{1d44}', GeneralCategory::ModifierLetter));
}
