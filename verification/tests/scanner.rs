use nasko::lex::{tokenize, NaskoExtras, NaskoLexer, NaskoToken, ScanError, Span};
use nasko::semantics::{NaskoArithmetic, NaskoKeyword, NaskoType};

fn scan(source: &str) -> Vec<NaskoToken> {
    match tokenize(source) {
        Ok(tokens) => tokens,
        Err(error) => panic!("scanner failed: {:?}", error),
    }
}

fn ident(name: &str) -> NaskoToken {
    NaskoToken::Ident(name.to_string())
}

fn number(text: &str) -> NaskoToken {
    NaskoToken::LiteralNumber(text.to_string())
}

#[test]
fn hex_literals_scan_to_their_value() {
    assert_eq!(scan("0x1A"), vec![NaskoToken::LiteralHex(26)]);
    assert_eq!(scan("0xFF"), vec![NaskoToken::LiteralHex(255)]);
    assert_eq!(scan("0Xff"), vec![NaskoToken::LiteralHex(255)]);
    assert_eq!(scan("0x0"), vec![NaskoToken::LiteralHex(0)]);
    assert_eq!(scan("0x00000000000000000000001f"), vec![NaskoToken::LiteralHex(31)]);
}

#[test]
fn decimal_literals_scan_to_their_value() {
    let tokens = scan("-3.5 10");
    assert_eq!(tokens, vec![number("-3.5"), number("10")]);
    match &tokens[0] {
        NaskoToken::LiteralNumber(text) => assert_eq!(text.parse::<f64>().unwrap(), -3.5),
        other => panic!("not a number: {:?}", other),
    }
    match &tokens[1] {
        NaskoToken::LiteralNumber(text) => assert_eq!(text.parse::<f64>().unwrap(), 10.0),
        other => panic!("not a number: {:?}", other),
    }
}

#[test]
fn function_scans_token_by_token() {
    assert_eq!(
        scan("func main(): int { return 1; }"),
        vec![
            NaskoToken::Keyword(NaskoKeyword::Func),
            ident("main"),
            NaskoToken::ParenOpen,
            NaskoToken::ParenClose,
            NaskoToken::Colon,
            NaskoToken::TypeAnnotation(NaskoType::Number),
            NaskoToken::BlockOpen,
            NaskoToken::Keyword(NaskoKeyword::Return),
            number("1"),
            NaskoToken::Semicolon,
            NaskoToken::BlockClose,
        ]
    );
}

#[test]
fn every_punctuation_mark_is_a_token() {
    assert_eq!(
        scan("{}[](),.;:="),
        vec![
            NaskoToken::BlockOpen,
            NaskoToken::BlockClose,
            NaskoToken::SubscriptOpen,
            NaskoToken::SubscriptClose,
            NaskoToken::ParenOpen,
            NaskoToken::ParenClose,
            NaskoToken::Comma,
            NaskoToken::Dot,
            NaskoToken::Semicolon,
            NaskoToken::Colon,
            NaskoToken::Eq,
        ]
    );
}

#[test]
fn hex_literal_out_of_range_is_a_scan_error() {
    let mut lexer = NaskoLexer::new(" 0x8000000000000000");
    assert_eq!(
        lexer.next_token(),
        Err(ScanError::HexOutOfRange(Span { start: 1, end: 19 }))
    );
    assert_eq!(lexer.next_token(), Ok(None));
    let mut lexer = NaskoLexer::new("0x7fffffffffffffff");
    assert_eq!(lexer.next_token(), Ok(Some(NaskoToken::LiteralHex(i64::MAX))));
    assert_eq!(
        tokenize("1 0xffffffffffffffffffff 2"),
        Err(ScanError::HexOutOfRange(Span { start: 2, end: 24 }))
    );
}

#[test]
fn operators_scan_by_longest_match() {
    assert_eq!(
        scan("+ - / * % ** -"),
        vec![
            NaskoToken::ArithmeticOperator(NaskoArithmetic::Add),
            NaskoToken::ArithmeticOperator(NaskoArithmetic::Subtract),
            NaskoToken::ArithmeticOperator(NaskoArithmetic::Divide),
            NaskoToken::ArithmeticOperator(NaskoArithmetic::Multiply),
            NaskoToken::ArithmeticOperator(NaskoArithmetic::Modulo),
            NaskoToken::ArithmeticOperator(NaskoArithmetic::Power),
            NaskoToken::ArithmeticOperator(NaskoArithmetic::Subtract),
        ]
    );
    assert_eq!(
        scan("***"),
        vec![
            NaskoToken::ArithmeticOperator(NaskoArithmetic::Power),
            NaskoToken::ArithmeticOperator(NaskoArithmetic::Multiply),
        ]
    );
}

#[test]
fn a_minus_before_a_digit_belongs_to_the_number() {
    assert_eq!(scan("1-2"), vec![number("1"), number("-2")]);
    assert_eq!(
        scan("1 - 2"),
        vec![
            number("1"),
            NaskoToken::ArithmeticOperator(NaskoArithmetic::Subtract),
            number("2"),
        ]
    );
    assert_eq!(
        scan("-x"),
        vec![NaskoToken::ArithmeticOperator(NaskoArithmetic::Subtract), ident("x")]
    );
}

#[test]
fn a_fraction_needs_a_digit_after_the_point() {
    assert_eq!(scan("1."), vec![number("1"), NaskoToken::Dot]);
    assert_eq!(scan("1.5.25"), vec![number("1.5"), NaskoToken::Dot, number("25")]);
    assert_eq!(scan(".5"), vec![NaskoToken::Dot, number("5")]);
    assert_eq!(scan("007.50"), vec![number("007.50")]);
}

#[test]
fn a_hex_prefix_without_digits_is_a_number_and_a_word() {
    assert_eq!(scan("0x"), vec![number("0"), ident("x")]);
    assert_eq!(scan("0xg1"), vec![number("0"), ident("xg1")]);
    assert_eq!(scan("0x1g"), vec![NaskoToken::LiteralHex(1), ident("g")]);
    assert_eq!(scan("1x2"), vec![number("1"), ident("x2")]);
}

#[test]
fn words_are_keywords_types_and_booleans_only_when_spelled_exactly() {
    assert_eq!(
        scan("func struct enum import if return while let as"),
        vec![
            NaskoToken::Keyword(NaskoKeyword::Func),
            NaskoToken::Keyword(NaskoKeyword::Struct),
            NaskoToken::Keyword(NaskoKeyword::Enum),
            NaskoToken::Keyword(NaskoKeyword::Import),
            NaskoToken::Keyword(NaskoKeyword::If),
            NaskoToken::Keyword(NaskoKeyword::Return),
            NaskoToken::Keyword(NaskoKeyword::While),
            NaskoToken::Keyword(NaskoKeyword::Let),
            NaskoToken::Keyword(NaskoKeyword::As),
        ]
    );
    assert_eq!(
        scan("string int boolean true false"),
        vec![
            NaskoToken::TypeAnnotation(NaskoType::String),
            NaskoToken::TypeAnnotation(NaskoType::Number),
            NaskoToken::TypeAnnotation(NaskoType::Boolean),
            NaskoToken::LiteralBoolean(true),
            NaskoToken::LiteralBoolean(false),
        ]
    );
    assert_eq!(
        scan("funcs integer truex _if Func a1_b"),
        vec![
            ident("funcs"),
            ident("integer"),
            ident("truex"),
            ident("_if"),
            ident("Func"),
            ident("a1_b"),
        ]
    );
}

#[test]
fn string_literals_keep_their_quotes() {
    assert_eq!(
        scan("\"hello world\" \"\""),
        vec![
            NaskoToken::LiteralString("\"hello world\"".to_string()),
            NaskoToken::LiteralString("\"\"".to_string()),
        ]
    );
    assert_eq!(
        scan("\"caf\u{e9} // 1\""),
        vec![NaskoToken::LiteralString("\"caf\u{e9} // 1\"".to_string())]
    );
}

#[test]
fn an_open_string_is_one_error_up_to_the_end_of_its_body() {
    let mut lexer = NaskoLexer::new("\"abc\nx");
    assert_eq!(lexer.next_token(), Ok(Some(NaskoToken::Error)));
    assert_eq!(lexer.span(), Span { start: 0, end: 4 });
    assert_eq!(lexer.slice(), "\"abc");
    assert_eq!(lexer.next_token(), Ok(Some(ident("x"))));
    assert_eq!(lexer.next_token(), Ok(None));
    assert_eq!(scan("\"abc"), vec![NaskoToken::Error]);
    assert_eq!(scan("\"a\tb\""), vec![NaskoToken::Error, ident("b"), NaskoToken::Error]);
}

#[test]
fn comments_lose_their_marker_and_the_blanks_around() {
    assert_eq!(
        scan("1 //  the rest \t\n2"),
        vec![number("1"), NaskoToken::Comment("the rest".to_string()), number("2")]
    );
    assert_eq!(scan("//"), vec![NaskoToken::Comment(String::new())]);
    assert_eq!(scan("//   "), vec![NaskoToken::Comment(String::new())]);
    assert_eq!(scan("// a // b"), vec![NaskoToken::Comment("a // b".to_string())]);
    assert_eq!(scan("//\u{a0}x\u{2003}\r"), vec![NaskoToken::Comment("x".to_string())]);
    assert_eq!(
        scan("/ /"),
        vec![
            NaskoToken::ArithmeticOperator(NaskoArithmetic::Divide),
            NaskoToken::ArithmeticOperator(NaskoArithmetic::Divide),
        ]
    );
}

#[test]
fn text_without_lexemes_scans_to_errors_only() {
    let tokens = scan("@ # $\n\t~ ` ?");
    assert_eq!(tokens.len(), 6);
    assert!(tokens.iter().all(|token| *token == NaskoToken::Error));
    assert_eq!(scan(" \t\n\x0c "), vec![]);
    assert_eq!(scan(""), vec![]);
}

#[test]
fn a_carriage_return_is_not_skipped() {
    assert_eq!(scan("a\r\nb"), vec![ident("a"), NaskoToken::Error, ident("b")]);
}

#[test]
fn an_unrecognised_character_is_one_error_whatever_its_width() {
    let mut lexer = NaskoLexer::new("a \u{e9}\u{1f600}b");
    assert_eq!(lexer.next_token(), Ok(Some(ident("a"))));
    assert_eq!(lexer.span(), Span { start: 0, end: 1 });
    assert_eq!(lexer.next_token(), Ok(Some(NaskoToken::Error)));
    assert_eq!(lexer.span(), Span { start: 2, end: 4 });
    assert_eq!(lexer.slice(), "\u{e9}");
    assert_eq!(lexer.next_token(), Ok(Some(NaskoToken::Error)));
    assert_eq!(lexer.span(), Span { start: 4, end: 8 });
    assert_eq!(lexer.next_token(), Ok(Some(ident("b"))));
    assert_eq!(lexer.span(), Span { start: 8, end: 9 });
    assert_eq!(lexer.slice(), "b");
    assert_eq!(lexer.next_token(), Ok(None));
    assert_eq!(lexer.span(), Span { start: 9, end: 9 });
}

#[test]
fn blanks_and_line_breaks_are_counted_with_their_offsets() {
    let mut lexer = NaskoLexer::new("a \t\nb\n\n \"x y\"\x0c// c d\n");
    while lexer.next_token() != Ok(None) {}
    let extras = lexer.extras();
    assert_eq!(extras.spaces, 4);
    assert_eq!(extras.line_breaks, 4);
    assert_eq!(extras.line_caps, vec![3, 5, 6, 20]);
    assert_eq!(extras.line_heads(), vec![0, 6, 7, 21]);
}

#[test]
fn line_offsets_are_in_bytes() {
    let mut lexer = NaskoLexer::new("\"\u{e9}\u{e9}\"\nx");
    assert_eq!(lexer.next_token(), Ok(Some(NaskoToken::LiteralString("\"\u{e9}\u{e9}\"".to_string()))));
    assert_eq!(lexer.span(), Span { start: 0, end: 6 });
    assert_eq!(lexer.next_token(), Ok(Some(ident("x"))));
    assert_eq!(lexer.span(), Span { start: 7, end: 8 });
    assert_eq!(lexer.extras().line_caps, vec![6]);
}

#[test]
fn line_heads_start_at_zero_and_pass_over_the_first_break() {
    let none = NaskoExtras { line_caps: vec![], line_breaks: 0, spaces: 0 };
    assert_eq!(none.line_heads(), vec![0]);
    let one = NaskoExtras { line_caps: vec![7], line_breaks: 1, spaces: 0 };
    assert_eq!(one.line_heads(), vec![0]);
    let three = NaskoExtras { line_caps: vec![7, 9, 30], line_breaks: 3, spaces: 2 };
    assert_eq!(three.line_heads(), vec![0, 10, 31]);
}

#[test]
fn scanning_a_text_twice_gives_the_same_tokens() {
    let source = "func f(a: int) { return \"s\" + 0x10 - 2.5; } // done\n@";
    let first = scan(source);
    let second = scan(source);
    assert_eq!(first.len(), 18);
    assert_eq!(first.len(), second.len());
    for i in 0..first.len() {
        assert_eq!(first[i], second[i]);
    }
}

#[test]
fn a_new_scanner_stands_at_the_start() {
    let lexer = NaskoLexer::new("abc");
    assert_eq!(lexer.span(), Span { start: 0, end: 0 });
    assert_eq!(lexer.slice(), "");
    assert_eq!(*lexer.extras(), NaskoExtras::default());
}

#[test]
fn operators_are_read_from_their_spelling() {
    assert_eq!(NaskoArithmetic::parse("+"), NaskoArithmetic::Add);
    assert_eq!(NaskoArithmetic::parse("-"), NaskoArithmetic::Subtract);
    assert_eq!(NaskoArithmetic::parse("/"), NaskoArithmetic::Divide);
    assert_eq!(NaskoArithmetic::parse("*"), NaskoArithmetic::Multiply);
    assert_eq!(NaskoArithmetic::parse("%"), NaskoArithmetic::Modulo);
    assert_eq!(NaskoArithmetic::parse("**"), NaskoArithmetic::Power);
    assert_eq!(NaskoArithmetic::parse("++"), NaskoArithmetic::Unknown);
    assert_eq!(NaskoArithmetic::parse(""), NaskoArithmetic::Unknown);
}

#[test]
fn types_are_read_from_their_spelling() {
    assert_eq!(NaskoType::parse("string"), NaskoType::String);
    assert_eq!(NaskoType::parse("boolean"), NaskoType::Boolean);
    assert_eq!(NaskoType::parse("int"), NaskoType::Number);
    assert_eq!(NaskoType::parse("number"), NaskoType::Unknown);
    assert_eq!(NaskoType::parse("Int"), NaskoType::Unknown);
    assert_eq!(NaskoType::default(), NaskoType::Unknown);
}

#[test]
fn keywords_are_read_from_their_spelling() {
    assert_eq!(NaskoKeyword::parse("func"), NaskoKeyword::Func);
    assert_eq!(NaskoKeyword::parse("struct"), NaskoKeyword::Struct);
    assert_eq!(NaskoKeyword::parse("enum"), NaskoKeyword::Enum);
    assert_eq!(NaskoKeyword::parse("import"), NaskoKeyword::Import);
    assert_eq!(NaskoKeyword::parse("if"), NaskoKeyword::If);
    assert_eq!(NaskoKeyword::parse("return"), NaskoKeyword::Return);
    assert_eq!(NaskoKeyword::parse("while"), NaskoKeyword::While);
    assert_eq!(NaskoKeyword::parse("let"), NaskoKeyword::Let);
    assert_eq!(NaskoKeyword::parse("as"), NaskoKeyword::As);
    assert_eq!(NaskoKeyword::parse("loop"), NaskoKeyword::Func);
    assert_eq!(NaskoKeyword::named("loop"), None);
    assert_eq!(NaskoKeyword::named("while"), Some(NaskoKeyword::While));
}
