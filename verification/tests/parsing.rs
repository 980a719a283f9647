use nasko::ast::{
    BinaryExpression, ExtraNodeData, FunctionDeclNode, NaskoNumber, Node, SourceNode,
    StatementNode, ValueNode,
};
use nasko::lex::{NaskoLexer, NaskoToken, Span};
use nasko::parser::{
    attach_literal, consume, parse, ParseError, ParseErrorKind, ParserState, SubscriptInput,
    Unrecognized,
};
use nasko::semantics::{NaskoArithmetic, NaskoKeyword, NaskoType};

fn parse_text(source: &str) -> (Result<SourceNode, ParseError>, Vec<Unrecognized>) {
    let mut lexer = NaskoLexer::new(source);
    let mut log = Vec::new();
    let result = parse(&mut lexer, &mut log);
    (result, log)
}

fn tree_of(source: &str) -> SourceNode {
    match parse_text(source).0 {
        Ok(tree) => tree,
        Err(error) => panic!("parser failed: {:?}", error),
    }
}

fn failure_of(source: &str) -> ParseError {
    match parse_text(source).0 {
        Ok(tree) => panic!("parser passed: {:?}", tree),
        Err(error) => error,
    }
}

fn decimal(text: &str) -> Node {
    Node::Value(ValueNode {
        ta: NaskoType::Number,
        ntype: "Constant".to_string(),
        value: ExtraNodeData::Number(NaskoNumber::Decimal(text.to_string())),
        children: vec![],
    })
}

fn named(ntype: &str, name: &str) -> ValueNode {
    ValueNode {
        ta: NaskoType::Unknown,
        ntype: ntype.to_string(),
        value: ExtraNodeData::String(name.to_string()),
        children: vec![],
    }
}

fn return_of(children: Vec<Node>) -> Node {
    Node::Statement(StatementNode {
        ta: NaskoType::Unknown,
        ntype: "ReturnStatement".to_string(),
        children,
    })
}

fn value_of(node: &Node) -> f64 {
    match node {
        Node::Value(ValueNode { value: ExtraNodeData::Number(NaskoNumber::Decimal(text)), .. }) => {
            text.parse::<f64>().unwrap()
        }
        Node::Value(ValueNode { value: ExtraNodeData::Number(NaskoNumber::Integer(n)), .. }) => {
            *n as f64
        }
        other => panic!("not a number: {:?}", other),
    }
}

#[test]
fn main_without_parameters_parses_to_one_declaration() {
    let tree = tree_of("func main(): int { return 1; }");
    assert_eq!(
        tree,
        SourceNode {
            ta: NaskoType::Unknown,
            children: vec![Node::FunctionDecl(FunctionDeclNode {
                ta: NaskoType::Number,
                value: ExtraNodeData::String("main".to_string()),
                params: vec![],
                children: vec![return_of(vec![decimal("1")])],
            })],
        }
    );
    match &tree.children[0] {
        Node::FunctionDecl(main) => match &main.children[0] {
            Node::Statement(statement) => {
                assert_eq!(statement.children.len(), 1);
                assert_eq!(value_of(&statement.children[0]), 1.0);
            }
            other => panic!("not a statement: {:?}", other),
        },
        other => panic!("not a declaration: {:?}", other),
    }
}

#[test]
fn parameters_stay_in_the_order_of_their_declaration() {
    let tree = tree_of("func main(argc, argv: string): int { return 0; }");
    let mut argv = named("FunctionArgumentDecl", "argv");
    argv.ta = NaskoType::String;
    assert_eq!(
        tree.children,
        vec![Node::FunctionDecl(FunctionDeclNode {
            ta: NaskoType::Number,
            value: ExtraNodeData::String("main".to_string()),
            params: vec![named("FunctionArgumentDecl", "argc"), argv],
            children: vec![return_of(vec![decimal("0")])],
        })]
    );
}

#[test]
fn a_declaration_keeps_its_place_while_it_grows() {
    let mut tree = SourceNode::default();
    let mut state = ParserState::default();
    let span = Span { start: 0, end: 0 };
    let tokens = vec![
        NaskoToken::LiteralBoolean(true),
        NaskoToken::Keyword(NaskoKeyword::Func),
        NaskoToken::Ident("f".to_string()),
        NaskoToken::ParenOpen,
        NaskoToken::Ident("a".to_string()),
        NaskoToken::Colon,
        NaskoToken::TypeAnnotation(NaskoType::Boolean),
        NaskoToken::Comma,
        NaskoToken::Ident("b".to_string()),
        NaskoToken::ParenClose,
        NaskoToken::BlockOpen,
        NaskoToken::Keyword(NaskoKeyword::Return),
    ];
    for token in tokens {
        assert_eq!(consume(&mut tree, &mut state, token, span), Ok(()));
        assert!(matches!(tree.children[0], Node::Value(_)));
        if tree.children.len() > 1 {
            assert_eq!(tree.children.len(), 2);
            assert!(matches!(tree.children[1], Node::FunctionDecl(_)));
        }
    }
    match &tree.children[1] {
        Node::FunctionDecl(decl) => {
            assert_eq!(decl.params.len(), 2);
            assert_eq!(decl.params[0].value, ExtraNodeData::String("a".to_string()));
            assert_eq!(decl.params[0].ta, NaskoType::Boolean);
            assert_eq!(decl.params[1].value, ExtraNodeData::String("b".to_string()));
            assert_eq!(decl.params[1].ta, NaskoType::Unknown);
        }
        other => panic!("not a declaration: {:?}", other),
    }
}

#[test]
fn an_operator_takes_what_came_before_as_its_right_operand() {
    let tree = tree_of("1 + 2");
    assert_eq!(
        tree.children,
        vec![Node::Binary(BinaryExpression {
            ta: NaskoType::Unknown,
            rhs: Some(Box::new(decimal("1"))),
            lhs: Some(Box::new(decimal("2"))),
            expression: NaskoArithmetic::Add,
            children: vec![],
        })]
    );
    match &tree.children[0] {
        Node::Binary(expr) => {
            assert_eq!(value_of(expr.rhs.as_ref().unwrap()), 1.0);
            assert_eq!(value_of(expr.lhs.as_ref().unwrap()), 2.0);
        }
        other => panic!("not an expression: {:?}", other),
    }
}

#[test]
fn an_operator_without_its_left_operand_waits_for_it() {
    let tree = tree_of("0x10 **");
    assert_eq!(
        tree.children,
        vec![Node::Binary(BinaryExpression {
            ta: NaskoType::Unknown,
            rhs: Some(Box::new(Node::Value(ValueNode {
                ta: NaskoType::Number,
                ntype: "Constant".to_string(),
                value: ExtraNodeData::Number(NaskoNumber::Integer(16)),
                children: vec![],
            }))),
            lhs: None,
            expression: NaskoArithmetic::Power,
            children: vec![],
        })]
    );
}

#[test]
fn a_second_operator_wraps_the_first_expression() {
    let tree = tree_of("1 + 2 * 3");
    let inner = Node::Binary(BinaryExpression {
        ta: NaskoType::Unknown,
        rhs: Some(Box::new(decimal("1"))),
        lhs: Some(Box::new(decimal("2"))),
        expression: NaskoArithmetic::Add,
        children: vec![],
    });
    assert_eq!(
        tree.children,
        vec![Node::Binary(BinaryExpression {
            ta: NaskoType::Unknown,
            rhs: Some(Box::new(inner)),
            lhs: Some(Box::new(decimal("3"))),
            expression: NaskoArithmetic::Multiply,
            children: vec![],
        })]
    );
}

#[test]
fn literals_at_top_level_become_children_of_the_root() {
    let tree = tree_of("\"s\" true 2.5 0xff");
    assert_eq!(
        tree.children,
        vec![
            Node::Value(ValueNode {
                ta: NaskoType::String,
                ntype: "Constant".to_string(),
                value: ExtraNodeData::String("\"s\"".to_string()),
                children: vec![],
            }),
            Node::Value(ValueNode {
                ta: NaskoType::Boolean,
                ntype: "Constant".to_string(),
                value: ExtraNodeData::Boolean(true),
                children: vec![],
            }),
            decimal("2.5"),
            Node::Value(ValueNode {
                ta: NaskoType::Number,
                ntype: "Constant".to_string(),
                value: ExtraNodeData::Number(NaskoNumber::Integer(255)),
                children: vec![],
            }),
        ]
    );
}

#[test]
fn an_identifier_with_an_argument_becomes_a_call() {
    let tree = tree_of("func f() { g(1, 2) h }");
    let mut call = named("CallExpression", "g");
    call.children = vec![decimal("1"), decimal("2")];
    assert_eq!(
        tree.children,
        vec![Node::FunctionDecl(FunctionDeclNode {
            ta: NaskoType::Unknown,
            value: ExtraNodeData::String("f".to_string()),
            params: vec![],
            children: vec![Node::Value(call), Node::Value(named("UnknownIdent", "h"))],
        })]
    );
}

#[test]
fn a_literal_after_return_joins_the_last_statement() {
    let tree = tree_of("func f() { return 1; } 2");
    assert_eq!(
        tree.children,
        vec![Node::FunctionDecl(FunctionDeclNode {
            ta: NaskoType::Unknown,
            value: ExtraNodeData::String("f".to_string()),
            params: vec![],
            children: vec![return_of(vec![decimal("1"), decimal("2")])],
        })]
    );
}

#[test]
fn identifiers_and_types_outside_a_function_change_nothing() {
    assert_eq!(tree_of("x : int y"), SourceNode::default());
    assert_eq!(tree_of(""), SourceNode::default());
    assert_eq!(tree_of("( ) [ ] { } , ; :"), SourceNode::default());
}

#[test]
fn a_type_counts_only_after_a_colon() {
    let tree = tree_of("func f(a int)");
    assert_eq!(
        tree.children,
        vec![Node::FunctionDecl(FunctionDeclNode {
            ta: NaskoType::Unknown,
            value: ExtraNodeData::String("f".to_string()),
            params: vec![named("FunctionArgumentDecl", "a")],
            children: vec![],
        })]
    );
}

#[test]
fn an_unknown_type_annotates_nothing() {
    let mut tree = tree_of("func f(a:");
    let mut state = ParserState::default();
    state.in_function_decl = true;
    state.in_colon = true;
    state.in_arg = true;
    let before = tree_of("func f(a:");
    let span = Span { start: 0, end: 0 };
    assert_eq!(
        consume(&mut tree, &mut state, NaskoToken::TypeAnnotation(NaskoType::Unknown), span),
        Ok(())
    );
    assert_eq!(tree, before);
    assert_eq!(
        consume(&mut tree, &mut state, NaskoToken::TypeAnnotation(NaskoType::String), span),
        Ok(())
    );
    match &tree.children[0] {
        Node::FunctionDecl(decl) => assert_eq!(decl.params[0].ta, NaskoType::String),
        other => panic!("not a declaration: {:?}", other),
    }
}

#[test]
fn flags_follow_the_punctuation() {
    let mut tree = SourceNode::default();
    let mut state = ParserState::default();
    let span = Span { start: 0, end: 0 };
    assert_eq!(consume(&mut tree, &mut state, NaskoToken::ParenOpen, span), Ok(()));
    assert!(state.in_parens);
    assert_eq!(consume(&mut tree, &mut state, NaskoToken::Comma, span), Ok(()));
    assert!(state.in_comma && !state.in_arg);
    assert_eq!(consume(&mut tree, &mut state, NaskoToken::Semicolon, span), Ok(()));
    assert!(state.closed_semi);
    assert_eq!(consume(&mut tree, &mut state, NaskoToken::ParenClose, span), Ok(()));
    assert!(!state.in_parens && !state.closed_semi);
    assert_eq!(consume(&mut tree, &mut state, NaskoToken::SubscriptOpen, span), Ok(()));
    assert!(state.in_subscript);
    assert_eq!(consume(&mut tree, &mut state, NaskoToken::SubscriptClose, span), Ok(()));
    assert!(!state.in_subscript);
    assert_eq!(consume(&mut tree, &mut state, NaskoToken::BlockOpen, span), Ok(()));
    assert!(state.in_block);
    assert_eq!(consume(&mut tree, &mut state, NaskoToken::Colon, span), Ok(()));
    assert!(state.in_colon);
    state.in_function_decl = true;
    state.in_struct_decl = true;
    assert_eq!(consume(&mut tree, &mut state, NaskoToken::BlockClose, span), Ok(()));
    assert!(!state.in_block && !state.in_function_decl && !state.in_struct_decl);
    assert_eq!(state.subscript_input, SubscriptInput::Empty);
    assert_eq!(tree, SourceNode::default());
}

#[test]
fn grammar_that_is_not_there_stops_the_parser() {
    for (source, keyword) in [
        ("struct", NaskoKeyword::Struct),
        ("enum", NaskoKeyword::Enum),
        ("import", NaskoKeyword::Import),
        ("if", NaskoKeyword::If),
        ("while", NaskoKeyword::While),
        ("let", NaskoKeyword::Let),
    ] {
        let error = failure_of(source);
        assert_eq!(error.kind, ParseErrorKind::UnimplementedKeyword(keyword));
        assert_eq!(error.span, Span { start: 0, end: source.len() });
    }
    assert_eq!(
        failure_of("1 as"),
        ParseError { kind: ParseErrorKind::UnsupportedAs, span: Span { start: 2, end: 4 } }
    );
}

#[test]
fn tokens_that_no_rule_takes_stop_the_parser() {
    assert_eq!(
        failure_of("a . b"),
        ParseError { kind: ParseErrorKind::UnhandledToken, span: Span { start: 2, end: 3 } }
    );
    assert_eq!(failure_of("=").kind, ParseErrorKind::UnhandledToken);
    assert_eq!(failure_of("// note").kind, ParseErrorKind::UnhandledToken);
}

#[test]
fn an_operator_needs_something_before_it() {
    assert_eq!(
        failure_of(" + 1"),
        ParseError { kind: ParseErrorKind::RightHandSideMissing, span: Span { start: 1, end: 2 } }
    );
}

#[test]
fn a_literal_after_an_operator_needs_the_expression_as_last_child() {
    assert_eq!(
        failure_of("1 + func 2"),
        ParseError { kind: ParseErrorKind::UnmatchedExpression, span: Span { start: 9, end: 10 } }
    );
    let mut tree = SourceNode::default();
    let mut state = ParserState::default();
    state.in_expression = true;
    let literal = match decimal("1") {
        Node::Value(literal) => literal,
        other => panic!("not a value: {:?}", other),
    };
    assert_eq!(
        attach_literal(&mut tree, &mut state, literal),
        Err(ParseErrorKind::UnmatchedExpression)
    );
    assert_eq!(tree, SourceNode::default());
    assert!(state.in_expression);
}

#[test]
fn return_needs_a_function() {
    assert_eq!(
        failure_of("return 1"),
        ParseError { kind: ParseErrorKind::ReturnOutsideFunction, span: Span { start: 0, end: 6 } }
    );
    assert_eq!(
        failure_of("func f() { } return").kind,
        ParseErrorKind::ReturnOutsideFunction
    );
}

#[test]
fn a_node_of_another_shape_in_place_of_the_declaration_stops_the_parser() {
    assert_eq!(
        failure_of("func 1 x"),
        ParseError { kind: ParseErrorKind::UnexpectedNode, span: Span { start: 7, end: 8 } }
    );
    assert_eq!(failure_of("func f() { x + 1 (2").kind, ParseErrorKind::UnexpectedNode);
}

#[test]
fn a_missing_node_stops_the_parser() {
    assert_eq!(failure_of("func f() { return + 1 2").kind, ParseErrorKind::MissingNode);
    assert_eq!(failure_of("func f(a func : int").kind, ParseErrorKind::MissingNode);
}

#[test]
fn a_hex_literal_out_of_range_stops_the_parser() {
    assert_eq!(
        failure_of("1 0xfffffffffffffffff"),
        ParseError { kind: ParseErrorKind::HexOutOfRange, span: Span { start: 2, end: 21 } }
    );
}

#[test]
fn unrecognised_text_is_logged_and_passed_over() {
    let (result, log) = parse_text("1 @ \"open\n+ 2 \u{e9}");
    assert_eq!(
        log,
        vec![
            Unrecognized { span: Span { start: 2, end: 3 }, slice: "@".to_string() },
            Unrecognized { span: Span { start: 4, end: 9 }, slice: "\"open".to_string() },
            Unrecognized { span: Span { start: 14, end: 16 }, slice: "\u{e9}".to_string() },
        ]
    );
    assert_eq!(
        result.unwrap().children,
        vec![Node::Binary(BinaryExpression {
            ta: NaskoType::Unknown,
            rhs: Some(Box::new(decimal("1"))),
            lhs: Some(Box::new(decimal("2"))),
            expression: NaskoArithmetic::Add,
            children: vec![],
        })]
    );
}

#[test]
fn the_log_keeps_what_was_passed_over_before_a_failure() {
    let (result, log) = parse_text("# if #");
    assert_eq!(
        result,
        Err(ParseError {
            kind: ParseErrorKind::UnimplementedKeyword(NaskoKeyword::If),
            span: Span { start: 2, end: 4 },
        })
    );
    assert_eq!(log, vec![Unrecognized { span: Span { start: 0, end: 1 }, slice: "#".to_string() }]);
}

#[test]
fn the_parser_leaves_the_scanner_where_it_stopped() {
    let mut lexer = NaskoLexer::new("1 if 2");
    let mut log = Vec::new();
    assert!(parse(&mut lexer, &mut log).is_err());
    assert_eq!(lexer.span(), Span { start: 2, end: 4 });
    assert_eq!(lexer.slice(), "if");
    assert_eq!(lexer.next_token(), Ok(Some(NaskoToken::LiteralNumber("2".to_string()))));
}

#[test]
fn an_open_function_at_the_end_of_the_text_is_returned_as_it_is() {
    let tree = tree_of("func f(a");
    assert_eq!(
        tree.children,
        vec![Node::FunctionDecl(FunctionDeclNode {
            ta: NaskoType::Unknown,
            value: ExtraNodeData::String("f".to_string()),
            params: vec![named("FunctionArgumentDecl", "a")],
            children: vec![],
        })]
    );
}

#[test]
fn a_failed_step_leaves_tree_and_state_as_they_were() {
    let mut tree = tree_of("func f() { return 1;");
    let before = tree_of("func f() { return 1;");
    let mut state = ParserState::default();
    state.closed_semi = true;
    let span = Span { start: 3, end: 5 };
    assert_eq!(
        consume(&mut tree, &mut state, NaskoToken::Keyword(NaskoKeyword::Return), span),
        Err(ParseError { kind: ParseErrorKind::ReturnOutsideFunction, span })
    );
    assert_eq!(tree, before);
    let mut unchanged = ParserState::default();
    unchanged.closed_semi = true;
    assert_eq!(state, unchanged);
}
