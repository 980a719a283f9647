use nasko::ast::{
    clone_data, clone_node, clone_nodes, clone_operand, clone_payloads, clone_value, clone_values,
    ASTNode, ExtraNodeData, FunctionDeclNode, NameNode, NaskoNumber, Node, SourceNode, ValueNode,
};
use nasko::grammar::{hex_number, scan_run, symbol, trimmed, word, CharClass};
use nasko::lex::NaskoToken;
use nasko::parser::{
    annotate, declare_ident, open_keyword, push_expression, ParseErrorKind, ParserState,
};
use nasko::semantics::{NaskoArithmetic, NaskoKeyword, NaskoType};
use nasko::text::{chars_of, str_eq, text_between, utf8_width};
use nasko::type_check::search::has_name;

fn chars(text: &str) -> Vec<char> {
    text.chars().collect()
}

fn name(text: &str) -> Node {
    Node::Name(NameNode { ta: NaskoType::Unknown, name: text.to_string(), children: vec![] })
}

fn blank_function() -> FunctionDeclNode {
    FunctionDeclNode {
        ta: NaskoType::Unknown,
        value: ExtraNodeData::Empty,
        params: vec![],
        children: vec![],
    }
}

#[test]
fn texts_compare_by_their_characters() {
    assert!(str_eq("", ""));
    assert!(str_eq("func", "func"));
    assert!(!str_eq("func", "fund"));
    assert!(!str_eq("func", "fun"));
    assert!(str_eq("\u{e9}t\u{e9}", "\u{e9}t\u{e9}"));
    assert!(!str_eq("\u{e9}", "e"));
}

#[test]
fn characters_have_the_width_of_their_utf8_form() {
    assert_eq!(utf8_width('a'), 1);
    assert_eq!(utf8_width('\u{7f}'), 1);
    assert_eq!(utf8_width('\u{80}'), 2);
    assert_eq!(utf8_width('\u{7ff}'), 2);
    assert_eq!(utf8_width('\u{800}'), 3);
    assert_eq!(utf8_width('\u{ffff}'), 3);
    assert_eq!(utf8_width('\u{10000}'), 4);
    assert_eq!(utf8_width('\u{10ffff}'), 4);
    for c in ['a', '\u{e9}', '\u{20ac}', '\u{1f600}'] {
        assert_eq!(utf8_width(c), c.len_utf8());
    }
}

#[test]
fn a_text_splits_into_its_characters_and_back() {
    assert_eq!(chars_of("a\u{e9}\u{1f600}b"), vec!['a', '\u{e9}', '\u{1f600}', 'b']);
    assert_eq!(chars_of(""), Vec::<char>::new());
    let text = chars("hello world");
    assert_eq!(text_between(&text, 0, 5), "hello");
    assert_eq!(text_between(&text, 6, 11), "world");
    assert_eq!(text_between(&text, 3, 3), "");
    assert_eq!(text_between(&chars("a\u{e9}b"), 1, 3), "\u{e9}b");
}

#[test]
fn a_run_ends_at_the_first_character_of_another_class() {
    let text = chars("12ab_9 \t\n\x0c\"x");
    assert_eq!(scan_run(&text, 0, CharClass::Digit), 2);
    assert_eq!(scan_run(&text, 2, CharClass::Digit), 2);
    assert_eq!(scan_run(&text, 0, CharClass::HexDigit), 4);
    assert_eq!(scan_run(&text, 0, CharClass::IdentPart), 6);
    assert_eq!(scan_run(&text, 6, CharClass::Skipped), 10);
    assert_eq!(scan_run(&text, 0, CharClass::StringBody), 7);
    assert_eq!(scan_run(&text, 0, CharClass::CommentBody), 8);
    assert_eq!(scan_run(&text, 6, CharClass::Whitespace), 10);
    assert_eq!(scan_run(&text, 11, CharClass::IdentPart), 12);
    assert_eq!(scan_run(&text, 12, CharClass::IdentPart), 12);
}

#[test]
fn character_classes_hold_what_they_name() {
    for c in ['0', '5', '9'] {
        assert!(CharClass::Digit.contains(c) && CharClass::HexDigit.contains(c));
        assert!(CharClass::IdentPart.contains(c));
    }
    for c in ['a', 'f', 'A', 'F'] {
        assert!(!CharClass::Digit.contains(c) && CharClass::HexDigit.contains(c));
    }
    for c in ['g', 'G', '_', 'z', 'Z'] {
        assert!(!CharClass::HexDigit.contains(c) && CharClass::IdentPart.contains(c));
    }
    for c in ['/', ':', '@', '[', '`', '{', '\u{e9}'] {
        assert!(!CharClass::IdentPart.contains(c) && !CharClass::HexDigit.contains(c));
    }
    for c in [' ', '\t', '\x0c', '\n'] {
        assert!(CharClass::Skipped.contains(c));
    }
    for c in ['\r', '\x0b', '\u{a0}', 'a'] {
        assert!(!CharClass::Skipped.contains(c));
    }
    for c in ['"', '\t', '\n'] {
        assert!(!CharClass::StringBody.contains(c));
    }
    assert!(CharClass::StringBody.contains(' ') && CharClass::StringBody.contains('\r'));
    assert!(!CharClass::CommentBody.contains('\n') && CharClass::CommentBody.contains('\t'));
    for c in "\t\n\x0b\x0c\r \u{85}\u{a0}\u{1680}\u{2000}\u{200a}\u{2028}\u{2029}\u{202f}\u{205f}\u{3000}"
        .chars()
    {
        assert!(CharClass::Whitespace.contains(c));
    }
    for c in ['\x08', '\x0e', '\u{200b}', '\u{180e}', 'x'] {
        assert!(!CharClass::Whitespace.contains(c));
    }
    for code in 0..0x3100u32 {
        if let Some(c) = char::from_u32(code) {
            assert_eq!(CharClass::Whitespace.contains(c), c.is_whitespace());
            assert_eq!(CharClass::Digit.contains(c), c.is_ascii_digit());
            assert_eq!(CharClass::HexDigit.contains(c), c.is_ascii_hexdigit());
            assert_eq!(
                CharClass::IdentPart.contains(c),
                c.is_ascii_alphanumeric() || c == '_'
            );
        }
    }
}

#[test]
fn hexadecimal_digits_are_read_most_significant_first() {
    let text = chars("xx1aFz");
    assert_eq!(hex_number(&text, 2, 5), Some(0x1af));
    assert_eq!(hex_number(&text, 2, 2), Some(0));
    assert_eq!(hex_number(&chars("7fffffffffffffff"), 0, 16), Some(i64::MAX));
    assert_eq!(hex_number(&chars("8000000000000000"), 0, 16), None);
    assert_eq!(hex_number(&chars("00007fffffffffffffff"), 0, 20), Some(i64::MAX));
    assert_eq!(hex_number(&chars("10000000000000000"), 0, 17), None);
    assert_eq!(hex_number(&chars("abcdefABCDEF"), 0, 12), Some(0xabcdefabcdef));
}

#[test]
fn trimming_takes_the_white_space_at_both_ends_only() {
    let text = chars("// \t a  b \r\u{a0}");
    assert_eq!(trimmed(&text, 2, text.len()), "a  b");
    assert_eq!(trimmed(&text, 0, text.len()), "// \t a  b");
    assert_eq!(trimmed(&text, 2, 4), "");
    assert_eq!(trimmed(&text, 5, 6), "a");
    assert_eq!(trimmed(&text, 3, 3), "");
}

#[test]
fn single_characters_are_symbols_or_errors() {
    assert_eq!(symbol('+'), NaskoToken::ArithmeticOperator(NaskoArithmetic::Add));
    assert_eq!(symbol('%'), NaskoToken::ArithmeticOperator(NaskoArithmetic::Modulo));
    assert_eq!(symbol('='), NaskoToken::Eq);
    assert_eq!(symbol('.'), NaskoToken::Dot);
    for c in ['@', '"', 'a', '1', '\r', '!', '<', '\u{e9}'] {
        assert_eq!(symbol(c), NaskoToken::Error);
    }
}

#[test]
fn words_are_classified_by_their_spelling() {
    assert_eq!(word("true".to_string()), NaskoToken::LiteralBoolean(true));
    assert_eq!(word("false".to_string()), NaskoToken::LiteralBoolean(false));
    assert_eq!(word("let".to_string()), NaskoToken::Keyword(NaskoKeyword::Let));
    assert_eq!(word("boolean".to_string()), NaskoToken::TypeAnnotation(NaskoType::Boolean));
    assert_eq!(word("True".to_string()), NaskoToken::Ident("True".to_string()));
    assert_eq!(word("x".to_string()), NaskoToken::Ident("x".to_string()));
}

#[test]
fn an_identifier_is_a_parameter_a_name_or_a_statement() {
    let mut tree = SourceNode::default();
    let mut state = ParserState::default();
    assert_eq!(declare_ident(&mut tree, &mut state, "x".to_string()), Ok(()));
    assert_eq!(tree, SourceNode::default());
    assert_eq!(state, ParserState::default());

    state.in_function_decl = true;
    assert_eq!(
        declare_ident(&mut tree, &mut state, "x".to_string()),
        Err(ParseErrorKind::MissingNode)
    );
    tree.children.push(name("n"));
    assert_eq!(
        declare_ident(&mut tree, &mut state, "x".to_string()),
        Err(ParseErrorKind::UnexpectedNode)
    );
    assert_eq!(tree.children, vec![name("n")]);

    tree.children.push(Node::FunctionDecl(blank_function()));
    assert_eq!(declare_ident(&mut tree, &mut state, "f".to_string()), Ok(()));
    state.in_parens = true;
    assert_eq!(declare_ident(&mut tree, &mut state, "a".to_string()), Ok(()));
    assert!(state.in_arg && !state.has_unknown_ident);
    state.in_parens = false;
    state.in_block = true;
    assert_eq!(declare_ident(&mut tree, &mut state, "g".to_string()), Ok(()));
    assert!(state.has_unknown_ident);
    let value = |ntype: &str, text: &str| ValueNode {
        ta: NaskoType::Unknown,
        ntype: ntype.to_string(),
        value: ExtraNodeData::String(text.to_string()),
        children: vec![],
    };
    assert_eq!(
        tree.children[1],
        Node::FunctionDecl(FunctionDeclNode {
            ta: NaskoType::Unknown,
            value: ExtraNodeData::String("f".to_string()),
            params: vec![value("FunctionArgumentDecl", "a")],
            children: vec![Node::Value(value("UnknownIdent", "g"))],
        })
    );
}

#[test]
fn a_type_goes_to_the_pending_parameter_or_to_the_function() {
    let mut tree = SourceNode::default();
    tree.children.push(Node::FunctionDecl(blank_function()));
    let mut state = ParserState::default();
    assert_eq!(annotate(&mut tree, &mut state, NaskoType::Number), Ok(()));
    state.in_function_decl = true;
    assert_eq!(annotate(&mut tree, &mut state, NaskoType::Number), Ok(()));
    assert_eq!(tree.children, vec![Node::FunctionDecl(blank_function())]);
    state.in_colon = true;
    state.in_arg = true;
    assert_eq!(
        annotate(&mut tree, &mut state, NaskoType::Number),
        Err(ParseErrorKind::MissingNode)
    );
    state.in_arg = false;
    assert_eq!(annotate(&mut tree, &mut state, NaskoType::Boolean), Ok(()));
    let mut expected = blank_function();
    expected.ta = NaskoType::Boolean;
    assert_eq!(tree.children, vec![Node::FunctionDecl(expected)]);
}

#[test]
fn an_operator_wraps_the_last_child_whatever_it_is() {
    let mut tree = SourceNode::default();
    let mut state = ParserState::default();
    assert_eq!(
        push_expression(&mut tree, &mut state, NaskoArithmetic::Divide),
        Err(ParseErrorKind::RightHandSideMissing)
    );
    assert!(!state.in_expression);
    tree.children.push(name("a"));
    tree.children.push(name("b"));
    assert_eq!(push_expression(&mut tree, &mut state, NaskoArithmetic::Divide), Ok(()));
    assert!(state.in_expression);
    assert_eq!(tree.children.len(), 2);
    assert_eq!(tree.children[0], name("a"));
    match &tree.children[1] {
        Node::Binary(expr) => {
            assert_eq!(expr.rhs, Some(Box::new(name("b"))));
            assert_eq!(expr.lhs, None);
            assert_eq!(expr.expression, NaskoArithmetic::Divide);
            assert_eq!(expr.ta, NaskoType::Unknown);
            assert!(expr.children.is_empty());
        }
        other => panic!("not an expression: {:?}", other),
    }
}

#[test]
fn return_opens_a_statement_in_the_last_child() {
    let mut tree = SourceNode::default();
    let mut state = ParserState::default();
    assert_eq!(open_keyword(&mut tree, &mut state, NaskoKeyword::Func), Ok(()));
    assert!(state.in_function_decl);
    assert_eq!(tree.children, vec![Node::FunctionDecl(blank_function())]);
    assert_eq!(open_keyword(&mut tree, &mut state, NaskoKeyword::Return), Ok(()));
    assert!(state.in_return);
    assert_eq!(tree.children.len(), 1);
    assert_eq!(tree.children[0].get_leaves().len(), 1);
    assert_eq!(tree.children[0].get_leaves()[0].node_type(), "ReturnStatement");
    let mut empty = SourceNode::default();
    assert_eq!(
        open_keyword(&mut empty, &mut state, NaskoKeyword::Return),
        Err(ParseErrorKind::MissingNode)
    );
    assert_eq!(
        open_keyword(&mut tree, &mut state, NaskoKeyword::As),
        Err(ParseErrorKind::UnsupportedAs)
    );
}

#[test]
fn copies_are_deep_and_equal() {
    let inner = ValueNode {
        ta: NaskoType::String,
        ntype: "Constant".to_string(),
        value: ExtraNodeData::Vec(vec![
            ExtraNodeData::Number(NaskoNumber::Integer(-7)),
            ExtraNodeData::Number(NaskoNumber::Decimal("2.50".to_string())),
            ExtraNodeData::BoxedNode(Box::new(name("boxed"))),
            ExtraNodeData::Boolean(false),
            ExtraNodeData::Empty,
        ]),
        children: vec![name("leaf")],
    };
    assert_eq!(clone_value(&inner), inner);
    assert_eq!(clone_data(&inner.value), inner.value);
    let mut decl = blank_function();
    decl.params = vec![clone_value(&inner), clone_value(&inner)];
    decl.children = vec![Node::Value(clone_value(&inner)), name("x")];
    assert_eq!(clone_values(&decl.params), decl.params);
    assert_eq!(clone_nodes(&decl.children), decl.children);
    let node = Node::FunctionDecl(decl);
    let mut copy = clone_node(&node);
    assert_eq!(copy, node);
    copy.push_leaf(name("more"));
    assert_ne!(copy, node);
    assert_eq!(node.get_leaves().len(), 2);
    let operand = Some(Box::new(clone_node(&node)));
    assert_eq!(clone_operand(&operand), operand);
    assert_eq!(clone_operand(&None), None);
    match &inner.value {
        ExtraNodeData::Vec(items) => assert_eq!(&clone_payloads(items), items),
        other => panic!("not a list: {:?}", other),
    }
}

#[test]
fn a_function_has_the_name_it_was_given() {
    let mut decl = blank_function();
    assert!(!has_name(&Node::FunctionDecl(blank_function()), ""));
    decl.value = ExtraNodeData::String("main".to_string());
    let node = Node::FunctionDecl(decl);
    assert!(has_name(&node, "main"));
    assert!(!has_name(&node, "Main"));
    assert!(!has_name(&name("main"), "main"));
}
