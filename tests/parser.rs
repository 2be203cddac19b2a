use julia_lexer::errors::JuliaParseError;
use julia_lexer::parser::{
    assignment, assignment_expr, binary, float, hexadecimal, identifier, integer, next_token,
    numeric, octal,
};
use julia_lexer::syntax::{IdentifierLiteral, NumericLiteral, OperatorLiteral, Span, Token};

type Lexer = for<'a> fn(Span<'a>) -> Result<(Span<'a>, NumericLiteral<'a>), JuliaParseError>;

fn text(span: &Span) -> String {
    span.fragment().iter().collect()
}

fn test_spanned(parser: Lexer, input: &str, remaining: &str) {
    let chars: Vec<char> = input.chars().collect();
    let in_span = Span::new(&chars);
    let (remaining_span, _) = parser(in_span).unwrap();
    assert_eq!(text(&remaining_span), remaining);
}

fn test_ident(input: &str, remaining: &str) {
    let chars: Vec<char> = input.chars().collect();
    let (remaining_span, _) = identifier(Span::new(&chars)).unwrap();
    assert_eq!(text(&remaining_span), remaining);
}

fn test_assign(input: &str, remaining: &str) {
    let chars: Vec<char> = input.chars().collect();
    let (remaining_span, _) = assignment(Span::new(&chars)).unwrap();
    assert_eq!(text(&remaining_span), remaining);
}

/// The kind and text of the numeric literal at the start of `input`.
fn lex_numeric(input: &str) -> Option<(&'static str, String)> {
    let chars: Vec<char> = input.chars().collect();
    match numeric(Span::new(&chars)) {
        Ok((_, lit)) => Some(match lit {
            NumericLiteral::Hexadecimal(s) => ("hex", text(&s)),
            NumericLiteral::Octal(s) => ("oct", text(&s)),
            NumericLiteral::Binary(s) => ("bin", text(&s)),
            NumericLiteral::Integer(s) => ("int", text(&s)),
            NumericLiteral::Float(s) => ("float", text(&s)),
        }),
        Err(_) => None,
    }
}

#[test]
fn hex() {
    test_spanned(hexadecimal, "0xDEAD__BEEF", "__BEEF");
    test_spanned(hexadecimal, "0xDEAD_BEEF", "");
    test_spanned(hexadecimal, "0xCAFE_BEED_BAD_F00D", "");
    test_spanned(hexadecimal, "0xcAfE_b0BA", "");
    test_spanned(hexadecimal, "0xFF*0xFF", "*0xFF");
}

#[test]
fn oct() {
    test_spanned(octal, "0o420", "");
    test_spanned(octal, "0o420_0123", "");
    test_spanned(octal, "0o420_0123_", "_");
}

#[test]
fn bin() {
    test_spanned(binary, "0b10010", "");
    test_spanned(binary, "0b10_10_10", "");
    test_spanned(binary, "0b10_10_", "_");
    test_spanned(binary, "0b10__10", "__10");
}

#[test]
fn integers() {
    test_spanned(integer, "0123456789", "");
    test_spanned(integer, "420_69", "");
    test_spanned(integer, "420__69", "__69");
}

#[test]
fn floats() {
    test_spanned(float, "1.0", "");
    test_spanned(float, "1.", "");
    test_spanned(float, "0.5", "");
    test_spanned(float, ".5", "");
    test_spanned(float, "1e10", "");
    test_spanned(float, "2.5e-4", "");
    test_spanned(float, "2.5f+4", "");
    test_spanned(float, "1_00_00f-4", "");
    test_spanned(float, "-Inf32", "");
    test_spanned(float, "0xDEAD.BEEF_420p69", "");
    test_spanned(float, "0xDEAD_BEEFp-420", "");
    test_spanned(float, "0xD_E_A_Dp-69", "");
    test_spanned(float, "0x.4p-1", "");
}

#[test]
fn ident() {
    test_ident("hello_world", "");
    test_ident("a_valid_ident not", " not");
    test_ident("🐈", "");
    test_ident("𒀃", "");
    test_ident("my_β̂₂", "");
    test_ident("ĉ̄", "");
}

#[test]
fn assign() {
    test_assign("=", "");
    test_assign("+=", "");
    test_assign(".+=", "");
}

#[test]
fn assignment_operators() {
    test_assign(">>>=1", "1");
    test_assign(">>=", "");
    test_assign("\\\\=", "");
    test_assign("≔x", "x");
    test_assign(":=", "");
    test_assign("~", "");
    test_assign("==", "=");
    let chars: Vec<char> = ".:=".chars().collect();
    assert_eq!(assignment(Span::new(&chars)), Err(JuliaParseError::Unparseable));
    let chars: Vec<char> = "+".chars().collect();
    assert_eq!(assignment(Span::new(&chars)), Err(JuliaParseError::Unparseable));
}

#[test]
fn binary_double_separator_truncates() {
    assert_eq!(lex_numeric("0b10__10"), Some(("bin", "0b10".to_string())));
}

#[test]
fn integer_separators() {
    assert_eq!(lex_numeric("420__69"), Some(("int", "420".to_string())));
    assert_eq!(lex_numeric("420_69"), Some(("int", "420_69".to_string())));
    assert_eq!(lex_numeric("420_"), Some(("int", "420".to_string())));
}

#[test]
fn float_before_integer() {
    assert_eq!(lex_numeric("1."), Some(("float", "1.".to_string())));
    assert_eq!(lex_numeric("1.5e"), Some(("float", "1.5".to_string())));
    assert_eq!(lex_numeric("1e+"), Some(("int", "1".to_string())));
    assert_eq!(lex_numeric("1e1_0"), Some(("float", "1e1".to_string())));
}

#[test]
fn hex_float_and_hexadecimal() {
    assert_eq!(lex_numeric("0x.4p-1"), Some(("float", "0x.4p-1".to_string())));
    assert_eq!(lex_numeric("0xFF*0xFF"), Some(("hex", "0xFF".to_string())));
    assert_eq!(lex_numeric("0xFFp"), Some(("hex", "0xFF".to_string())));
    assert_eq!(lex_numeric("0x1.p4"), Some(("hex", "0x1".to_string())));
    assert_eq!(lex_numeric("0x"), Some(("int", "0".to_string())));
    assert_eq!(lex_numeric("0o17"), Some(("oct", "0o17".to_string())));
    assert_eq!(lex_numeric("0o8"), Some(("int", "0".to_string())));
}

#[test]
fn named_special_floats() {
    assert_eq!(lex_numeric("NaN32x"), Some(("float", "NaN32".to_string())));
    assert_eq!(lex_numeric("NaN"), Some(("float", "NaN".to_string())));
    assert_eq!(lex_numeric("-Inf64"), Some(("float", "-Inf64".to_string())));
    assert_eq!(lex_numeric("Inf16"), Some(("float", "Inf".to_string())));
    assert_eq!(lex_numeric("Na"), None);
    assert_eq!(lex_numeric(""), None);
}

#[test]
fn named_special_leaves_identifier() {
    let chars: Vec<char> = "NaN32x".chars().collect();
    let (tok, rest) = next_token(Span::new(&chars)).unwrap();
    assert!(matches!(tok, Token::Numeric(NumericLiteral::Float(_))));
    assert_eq!(text(&rest), "x");
    let (tok, rest) = next_token(rest).unwrap();
    assert!(matches!(tok, Token::Identifier(_)));
    assert_eq!(text(&rest), "");
    assert!(next_token(rest).is_none());
}

#[test]
fn next_token_falls_back_to_identifier() {
    let chars: Vec<char> = "λx1 = 2".chars().collect();
    let (tok, rest) = next_token(Span::new(&chars)).unwrap();
    match tok {
        Token::Identifier(IdentifierLiteral(s)) => assert_eq!(text(&s), "λx1"),
        _ => panic!("expected an identifier"),
    }
    assert_eq!(text(&rest), " = 2");
    assert!(next_token(rest).is_none());
}

#[test]
fn retokenizing_a_token_gives_the_same_token() {
    for input in ["0b10__10", "1.5e3x", "0x.4p-1*", "NaN32x", "420_69 ", "λ′ = 1", "0xFFp", "1e+"] {
        let chars: Vec<char> = input.chars().collect();
        let (tok, _) = next_token(Span::new(&chars)).unwrap();
        let (kind, span) = match tok {
            Token::Numeric(NumericLiteral::Hexadecimal(s)) => (0, s),
            Token::Numeric(NumericLiteral::Octal(s)) => (1, s),
            Token::Numeric(NumericLiteral::Binary(s)) => (2, s),
            Token::Numeric(NumericLiteral::Integer(s)) => (3, s),
            Token::Numeric(NumericLiteral::Float(s)) => (4, s),
            Token::Identifier(IdentifierLiteral(s)) => (5, s),
        };
        let alone: Vec<char> = span.fragment().to_vec();
        let (again, rest) = next_token(Span::new(&alone)).unwrap();
        let kind_again = match again {
            Token::Numeric(NumericLiteral::Hexadecimal(_)) => 0,
            Token::Numeric(NumericLiteral::Octal(_)) => 1,
            Token::Numeric(NumericLiteral::Binary(_)) => 2,
            Token::Numeric(NumericLiteral::Integer(_)) => 3,
            Token::Numeric(NumericLiteral::Float(_)) => 4,
            Token::Identifier(_) => 5,
        };
        assert_eq!(kind, kind_again);
        assert_eq!(text(&rest), "");
    }
}

#[test]
fn spans_track_lines_and_columns() {
    let chars: Vec<char> = "ab\ncd".chars().collect();
    let span = Span::new(&chars);
    assert_eq!((span.location_line(), span.get_column()), (1, 1));
    let rest = span.rest(3);
    assert_eq!(rest.location_offset(), 3);
    assert_eq!((rest.location_line(), rest.get_column()), (2, 1));
    let rest = span.rest(4);
    assert_eq!((rest.location_line(), rest.get_column()), (2, 2));
    assert_eq!(text(&span.first(2)), "ab");
}

#[test]
fn offsets_count_utf8_bytes() {
    let chars: Vec<char> = "λ€𝟎x".chars().collect();
    let span = Span::new(&chars);
    assert_eq!(span.location_offset(), 0);
    assert_eq!(span.rest(1).location_offset(), 2);
    assert_eq!(span.rest(2).location_offset(), 5);
    assert_eq!(span.rest(3).location_offset(), 9);
    assert_eq!(span.rest(3).get_column(), 4);
    let (rest, id) = identifier(span).unwrap();
    assert_eq!(text(&id.0), "λ€𝟎x");
    assert_eq!(rest.location_offset(), 10);
}

#[test]
fn assignment_expression() {
    let chars: Vec<char> = "foo_bar+=120e23".chars().collect();
    let (rest, expr) = assignment_expr(Span::new(&chars)).unwrap();
    assert_eq!(text(&rest), "");
    assert_eq!(text(&expr.lvalue.0), "foo_bar");
    match expr.operator {
        OperatorLiteral::Assignment(s) => assert_eq!(text(&s), "+="),
    }
    assert!(matches!(expr.rvalue, NumericLiteral::Float(_)));
    let chars: Vec<char> = "1 = 2".chars().collect();
    assert_eq!(assignment_expr(Span::new(&chars)), Err(JuliaParseError::Unparseable));
    assert_eq!(JuliaParseError::LValue.message(), "invalid lvalue");
    assert_eq!(JuliaParseError::Unparseable.message(), "unknown parser error");
}
