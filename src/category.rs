//! Unicode general categories, as far as the identifier rules read them.
use vstd::prelude::*;

verus! {

/// The Unicode general category of a character.
#[derive(Clone, Copy, Debug, PartialEq, Eq, Structural)]
pub enum GeneralCategory {
    ClosePunctuation,
    ConnectorPunctuation,
    Control,
    CurrencySymbol,
    DashPunctuation,
    DecimalNumber,
    EnclosingMark,
    FinalPunctuation,
    Format,
    InitialPunctuation,
    LetterNumber,
    LineSeparator,
    LowercaseLetter,
    MathSymbol,
    ModifierLetter,
    ModifierSymbol,
    NonspacingMark,
    OpenPunctuation,
    OtherLetter,
    OtherNumber,
    OtherPunctuation,
    OtherSymbol,
    ParagraphSeparator,
    PrivateUse,
    SpaceSeparator,
    SpacingMark,
    Surrogate,
    TitlecaseLetter,
    Unassigned,
    UppercaseLetter,
}

/// The two-letter abbreviation (such as `Lu`) of the general category that
/// the Unicode character database gives `c`.
pub uninterp spec fn category_abbreviation(c: char) -> Seq<char>;

/// Relies on `unicode_general_category::get_general_category` for the
/// category of `c`, and on `GeneralCategory::abbreviation` for its
/// two-letter name.
#[verifier::external_body]
fn category_abbreviation_chars(c: char) -> (r: Vec<char>)
    ensures
        r@ == category_abbreviation(c),
        r@.len() == 2,
{
    unicode_general_category::get_general_category(c).abbreviation().chars().collect()
}

/// The category named by a two-letter abbreviation of the Unicode standard;
/// `Unassigned` for any other text.
pub open spec fn category_from_abbreviation(a: Seq<char>) -> GeneralCategory {
    if a.len() != 2 {
        GeneralCategory::Unassigned
    } else {
        match (a[0], a[1]) {
            ('P', 'e') => GeneralCategory::ClosePunctuation,
            ('P', 'c') => GeneralCategory::ConnectorPunctuation,
            ('C', 'c') => GeneralCategory::Control,
            ('S', 'c') => GeneralCategory::CurrencySymbol,
            ('P', 'd') => GeneralCategory::DashPunctuation,
            ('N', 'd') => GeneralCategory::DecimalNumber,
            ('M', 'e') => GeneralCategory::EnclosingMark,
            ('P', 'f') => GeneralCategory::FinalPunctuation,
            ('C', 'f') => GeneralCategory::Format,
            ('P', 'i') => GeneralCategory::InitialPunctuation,
            ('N', 'l') => GeneralCategory::LetterNumber,
            ('Z', 'l') => GeneralCategory::LineSeparator,
            ('L', 'l') => GeneralCategory::LowercaseLetter,
            ('S', 'm') => GeneralCategory::MathSymbol,
            ('L', 'm') => GeneralCategory::ModifierLetter,
            ('S', 'k') => GeneralCategory::ModifierSymbol,
            ('M', 'n') => GeneralCategory::NonspacingMark,
            ('P', 's') => GeneralCategory::OpenPunctuation,
            ('L', 'o') => GeneralCategory::OtherLetter,
            ('N', 'o') => GeneralCategory::OtherNumber,
            ('P', 'o') => GeneralCategory::OtherPunctuation,
            ('S', 'o') => GeneralCategory::OtherSymbol,
            ('Z', 'p') => GeneralCategory::ParagraphSeparator,
            ('C', 'o') => GeneralCategory::PrivateUse,
            ('Z', 's') => GeneralCategory::SpaceSeparator,
            ('M', 'c') => GeneralCategory::SpacingMark,
            ('C', 's') => GeneralCategory::Surrogate,
            ('L', 't') => GeneralCategory::TitlecaseLetter,
            ('L', 'u') => GeneralCategory::UppercaseLetter,
            _ => GeneralCategory::Unassigned,
        }
    }
}

/// The general category of `c`.
pub open spec fn general_category_of(c: char) -> GeneralCategory {
    category_from_abbreviation(category_abbreviation(c))
}

/// Reads a category from its two-letter abbreviation.
pub fn from_abbreviation(a: &Vec<char>) -> (r: GeneralCategory)
    ensures
        r == category_from_abbreviation(a@),
{
    if a.len() != 2 {
        return GeneralCategory::Unassigned;
    }
    match (a[0], a[1]) {
        ('P', 'e') => GeneralCategory::ClosePunctuation,
        ('P', 'c') => GeneralCategory::ConnectorPunctuation,
        ('C', 'c') => GeneralCategory::Control,
        ('S', 'c') => GeneralCategory::CurrencySymbol,
        ('P', 'd') => GeneralCategory::DashPunctuation,
        ('N', 'd') => GeneralCategory::DecimalNumber,
        ('M', 'e') => GeneralCategory::EnclosingMark,
        ('P', 'f') => GeneralCategory::FinalPunctuation,
        ('C', 'f') => GeneralCategory::Format,
        ('P', 'i') => GeneralCategory::InitialPunctuation,
        ('N', 'l') => GeneralCategory::LetterNumber,
        ('Z', 'l') => GeneralCategory::LineSeparator,
        ('L', 'l') => GeneralCategory::LowercaseLetter,
        ('S', 'm') => GeneralCategory::MathSymbol,
        ('L', 'm') => GeneralCategory::ModifierLetter,
        ('S', 'k') => GeneralCategory::ModifierSymbol,
        ('M', 'n') => GeneralCategory::NonspacingMark,
        ('P', 's') => GeneralCategory::OpenPunctuation,
        ('L', 'o') => GeneralCategory::OtherLetter,
        ('N', 'o') => GeneralCategory::OtherNumber,
        ('P', 'o') => GeneralCategory::OtherPunctuation,
        ('S', 'o') => GeneralCategory::OtherSymbol,
        ('Z', 'p') => GeneralCategory::ParagraphSeparator,
        ('C', 'o') => GeneralCategory::PrivateUse,
        ('Z', 's') => GeneralCategory::SpaceSeparator,
        ('M', 'c') => GeneralCategory::SpacingMark,
        ('C', 's') => GeneralCategory::Surrogate,
        ('L', 't') => GeneralCategory::TitlecaseLetter,
        ('L', 'u') => GeneralCategory::UppercaseLetter,
        _ => GeneralCategory::Unassigned,
    }
}

/// Looks up the general category of `c`.
pub fn general_category(c: char) -> (r: GeneralCategory)
    ensures
        r == general_category_of(c),
{
    let a = category_abbreviation_chars(c);
    from_abbreviation(&a)
}

} // verus!
