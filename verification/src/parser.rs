//! The parser: a state machine that reads one token at a time and grows the
//! tree in place. What is in progress is always the last child of the root.

use vstd::prelude::*;
use vstd::string::StringExecFns;
use crate::ast::{
    lemma_nodes_view_empty, lemma_nodes_view_push, lemma_nodes_view_update,
    lemma_payloads_view_push, lemma_values_view_push, lemma_values_view_update, payloads_view,
    ASTNode, BinaryExpression, BinaryView, DataView, ExtraNodeData, FunctionDeclNode,
    FunctionDeclView, NaskoNumber, Node, NodeView, NumberView, SourceNode, SourceView,
    StatementNode, StatementView, ValueNode, ValueView,
};
use crate::grammar::Scanned;
use crate::lex::{
    advance, current_slice, current_span, lemma_advance_moves, pending, LexerView, NaskoLexer,
    NaskoToken, ScanError, Span, TokenView,
};
use crate::semantics::{NaskoArithmetic, NaskoKeyword, NaskoType};
use crate::text::str_eq;

verus! {

/// What a subscript holds. Kept for grammar that is not there yet.
#[derive(Debug, PartialEq)]
pub enum SubscriptInput {
    Empty,
    Number(NaskoNumber),
    String(String),
}

impl Default for SubscriptInput {
    fn default() -> (input: SubscriptInput)
        ensures
            input == SubscriptInput::Empty,
    {
        SubscriptInput::Empty
    }
}

/// The context the parser is in, as independent flags.
#[derive(Debug, PartialEq)]
pub struct ParserState {
    /// Between `func` and the `}` that closes its body.
    pub in_function_decl: bool,
    pub in_struct_decl: bool,
    /// A parameter was declared and may still get its type.
    pub in_arg: bool,
    /// A `return` was read.
    pub in_return: bool,
    pub in_parens: bool,
    /// A `:` was read.
    pub in_colon: bool,
    pub in_comma: bool,
    pub in_block: bool,
    /// An operator was read and waits for its left operand.
    pub in_expression: bool,
    pub in_subscript: bool,
    pub subscript_has_input: bool,
    pub subscript_input: SubscriptInput,
    /// The token just read was a `;`.
    pub closed_semi: bool,
    /// An identifier was read in a body and may turn out to be a call.
    pub has_unknown_ident: bool,
}

/// The state before any token: every flag down.
pub open spec fn initial_state() -> ParserState {
    ParserState {
        in_function_decl: false,
        in_struct_decl: false,
        in_arg: false,
        in_return: false,
        in_parens: false,
        in_colon: false,
        in_comma: false,
        in_block: false,
        in_expression: false,
        in_subscript: false,
        subscript_has_input: false,
        subscript_input: SubscriptInput::Empty,
        closed_semi: false,
        has_unknown_ident: false,
    }
}

impl Default for ParserState {
    fn default() -> (state: ParserState)
        ensures
            state == initial_state(),
    {
        ParserState {
            in_function_decl: false,
            in_struct_decl: false,
            in_arg: false,
            in_return: false,
            in_parens: false,
            in_colon: false,
            in_comma: false,
            in_block: false,
            in_expression: false,
            in_subscript: false,
            subscript_has_input: false,
            subscript_input: SubscriptInput::Empty,
            closed_semi: false,
            has_unknown_ident: false,
        }
    }
}

/// Why parsing stopped.
#[derive(Debug, PartialEq, Eq, Clone, Copy, Structural)]
pub enum ParseErrorKind {
    /// `struct`, `enum`, `import`, `if`, `while` or `let`: grammar that is not there yet.
    UnimplementedKeyword(NaskoKeyword),
    /// `as` is not supported.
    UnsupportedAs,
    /// A comment, a `.` or a `=`: no rule takes it.
    UnhandledToken,
    /// An operator with nothing before it.
    RightHandSideMissing,
    /// A literal after an operator, where the operator's node is not the last child.
    UnmatchedExpression,
    /// `return` outside a function declaration.
    ReturnOutsideFunction,
    /// The node that the construct in progress needs is not in the tree.
    MissingNode,
    /// The node in progress does not have the shape that the construct needs.
    UnexpectedNode,
    /// A hexadecimal literal whose value does not fit 64 signed bits.
    HexOutOfRange,
}

/// A failure, with the span of the token that it stopped at.
#[derive(Debug, PartialEq, Eq, Clone, Copy, Structural)]
pub struct ParseError {
    pub kind: ParseErrorKind,
    pub span: Span,
}

/// The tree and the state between two tokens.
pub ghost struct Parsing {
    pub tree: SourceView,
    pub state: ParserState,
}

/// The tree with `node` in place of its last child.
pub open spec fn replace_last(tree: SourceView, node: NodeView) -> SourceView {
    SourceView { children: tree.children.update(tree.children.len() - 1, node), ..tree }
}

/// The tree with `node` as one more child.
pub open spec fn append(tree: SourceView, node: NodeView) -> SourceView {
    SourceView { children: tree.children.push(node), ..tree }
}

/// A node without children that holds a literal.
pub open spec fn constant(ta: NaskoType, value: DataView) -> ValueView {
    ValueView { ta, ntype: "Constant"@, value, children: Seq::empty() }
}

/// The node that a literal token becomes; `None` for any other token.
pub open spec fn literal_of(token: TokenView) -> Option<ValueView> {
    match token {
        TokenView::LiteralString(text) => Some(constant(NaskoType::String, DataView::String(text))),
        TokenView::LiteralBoolean(flag) => Some(
            constant(NaskoType::Boolean, DataView::Boolean(flag)),
        ),
        TokenView::LiteralNumber(text) => Some(
            constant(NaskoType::Number, DataView::Number(NumberView::Decimal(text))),
        ),
        TokenView::LiteralHex(n) => Some(
            constant(NaskoType::Number, DataView::Number(NumberView::Integer(n))),
        ),
        _ => None,
    }
}

/// The declaration in progress: the last child of the root, which has to be
/// a function declaration.
pub open spec fn open_decl(tree: SourceView) -> Result<FunctionDeclView, ParseErrorKind> {
    if tree.children.len() == 0 {
        Err(ParseErrorKind::MissingNode)
    } else {
        match tree.children.last() {
            NodeView::FunctionDecl(decl) => Ok(decl),
            _ => Err(ParseErrorKind::UnexpectedNode),
        }
    }
}

/// A failure of the tree alone, carried over to tree and state.
pub open spec fn with_state(tree: Result<SourceView, ParseErrorKind>, state: ParserState)
    -> Result<Parsing, ParseErrorKind> {
    match tree {
        Ok(tree) => Ok(Parsing { tree, state }),
        Err(kind) => Err(kind),
    }
}

/// The tree with `leaf` as the left operand of the expression that is its
/// last child.
pub open spec fn left_operand_spec(tree: SourceView, leaf: NodeView) -> Result<
    SourceView,
    ParseErrorKind,
> {
    if tree.children.len() > 0 && tree.children.last() is Binary {
        let expr = tree.children.last()->Binary_0;
        Ok(replace_last(tree, NodeView::Binary(BinaryView { lhs: Some(Box::new(leaf)), ..expr })))
    } else {
        Err(ParseErrorKind::UnmatchedExpression)
    }
}

/// The tree with `leaf` as one more child of the last child of its last
/// child: of the statement that the function in progress ends with.
pub open spec fn return_value_spec(tree: SourceView, leaf: NodeView) -> Result<
    SourceView,
    ParseErrorKind,
> {
    if tree.children.len() == 0 {
        Err(ParseErrorKind::MissingNode)
    } else {
        let func = tree.children.last();
        let leaves = func.children();
        if leaves.len() == 0 {
            Err(ParseErrorKind::MissingNode)
        } else {
            let statement = leaves.last().with_leaf(leaf);
            Ok(replace_last(tree, func.with_children(leaves.update(leaves.len() - 1, statement))))
        }
    }
}

/// An identifier with one more argument. One that was not known to be a
/// call is a call from now on.
pub open spec fn call_with(ident: ValueView, leaf: NodeView) -> ValueView {
    ValueView {
        ntype: if ident.ntype == "UnknownIdent"@ {
            "CallExpression"@
        } else {
            ident.ntype
        },
        children: ident.children.push(leaf),
        ..ident
    }
}

/// The declaration with `leaf` as one more argument of the identifier that
/// its body ends with.
pub open spec fn with_call_argument(decl: FunctionDeclView, leaf: NodeView) -> Result<
    FunctionDeclView,
    ParseErrorKind,
> {
    if decl.children.len() == 0 {
        Err(ParseErrorKind::MissingNode)
    } else {
        match decl.children.last() {
            NodeView::Value(ident) => Ok(
                FunctionDeclView {
                    children: decl.children.update(
                        decl.children.len() - 1,
                        NodeView::Value(call_with(ident, leaf)),
                    ),
                    ..decl
                },
            ),
            _ => Err(ParseErrorKind::UnexpectedNode),
        }
    }
}

/// The tree with `leaf` as one more argument of the identifier that the
/// body of the declaration in progress ends with.
pub open spec fn call_argument_spec(tree: SourceView, leaf: NodeView) -> Result<
    SourceView,
    ParseErrorKind,
> {
    match open_decl(tree) {
        Err(kind) => Err(kind),
        Ok(decl) => match with_call_argument(decl, leaf) {
            Err(kind) => Err(kind),
            Ok(decl) => Ok(replace_last(tree, NodeView::FunctionDecl(decl))),
        },
    }
}

/// Where a literal goes. The first of these that applies decides:
/// after an operator it becomes the left operand of the expression that is
/// the last child; after `return` it becomes a child of the last child of
/// the last child; inside the parentheses that follow an identifier read in
/// a body it becomes an argument of that identifier; otherwise it becomes a
/// child of the root.
pub open spec fn attach_literal_spec(tree: SourceView, state: ParserState, literal: ValueView)
    -> Result<Parsing, ParseErrorKind> {
    let leaf = NodeView::Value(literal);
    if state.in_expression {
        with_state(left_operand_spec(tree, leaf), ParserState { in_expression: false, ..state })
    } else if state.in_return {
        with_state(return_value_spec(tree, leaf), state)
    } else if state.has_unknown_ident && state.in_parens {
        with_state(call_argument_spec(tree, leaf), state)
    } else {
        Ok(Parsing { tree: append(tree, leaf), state })
    }
}

/// A node without children that holds a name.
pub open spec fn named(ntype: Seq<char>, name: Seq<char>) -> ValueView {
    ValueView {
        ta: NaskoType::Unknown,
        ntype,
        value: DataView::String(name),
        children: Seq::empty(),
    }
}

/// The declaration with one more parameter, of no known type.
pub open spec fn with_param(decl: FunctionDeclView, name: Seq<char>) -> FunctionDeclView {
    FunctionDeclView { params: decl.params.push(named("FunctionArgumentDecl"@, name)), ..decl }
}

/// The declaration with one more child: an identifier of which nothing is
/// known yet.
pub open spec fn with_body_ident(decl: FunctionDeclView, name: Seq<char>) -> FunctionDeclView {
    FunctionDeclView {
        children: decl.children.push(NodeView::Value(named("UnknownIdent"@, name))),
        ..decl
    }
}

/// What an identifier does. Outside a function declaration, nothing. Inside
/// one: between the parentheses it declares a parameter; before the body it
/// names the function; in the body it is a statement of its own.
pub open spec fn ident_spec(tree: SourceView, state: ParserState, name: Seq<char>) -> Result<
    Parsing,
    ParseErrorKind,
> {
    if !state.in_function_decl {
        Ok(Parsing { tree, state })
    } else {
        match open_decl(tree) {
            Err(kind) => Err(kind),
            Ok(decl) => {
                if state.in_parens {
                    Ok(
                        Parsing {
                            tree: replace_last(
                                tree,
                                NodeView::FunctionDecl(with_param(decl, name)),
                            ),
                            state: ParserState { in_arg: true, ..state },
                        },
                    )
                } else if !state.in_block {
                    Ok(
                        Parsing {
                            tree: replace_last(
                                tree,
                                NodeView::FunctionDecl(
                                    FunctionDeclView { value: DataView::String(name), ..decl },
                                ),
                            ),
                            state,
                        },
                    )
                } else {
                    Ok(
                        Parsing {
                            tree: replace_last(
                                tree,
                                NodeView::FunctionDecl(with_body_ident(decl, name)),
                            ),
                            state: ParserState { has_unknown_ident: true, ..state },
                        },
                    )
                }
            },
        }
    }
}

/// The declaration with `ta` as the type of its last parameter.
pub open spec fn with_param_type(decl: FunctionDeclView, ta: NaskoType) -> FunctionDeclView {
    FunctionDeclView {
        params: decl.params.update(
            decl.params.len() - 1,
            ValueView { ta, ..decl.params.last() },
        ),
        ..decl
    }
}

/// What a primitive type does. It counts only after a `:` inside a function
/// declaration: it is the type of the parameter declared last while that
/// parameter is pending, and the return type otherwise. `Unknown` never
/// annotates anything.
pub open spec fn annotation_spec(tree: SourceView, state: ParserState, ta: NaskoType) -> Result<
    Parsing,
    ParseErrorKind,
> {
    if ta == NaskoType::Unknown || !(state.in_function_decl && state.in_colon) {
        Ok(Parsing { tree, state })
    } else {
        match open_decl(tree) {
            Err(kind) => Err(kind),
            Ok(decl) => {
                if !state.in_arg {
                    Ok(
                        Parsing {
                            tree: replace_last(
                                tree,
                                NodeView::FunctionDecl(FunctionDeclView { ta, ..decl }),
                            ),
                            state,
                        },
                    )
                } else if decl.params.len() == 0 {
                    Err(ParseErrorKind::MissingNode)
                } else {
                    Ok(
                        Parsing {
                            tree: replace_last(
                                tree,
                                NodeView::FunctionDecl(with_param_type(decl, ta)),
                            ),
                            state,
                        },
                    )
                }
            },
        }
    }
}

/// An expression that has its right operand and waits for the left one.
pub open spec fn pending_expression(op: NaskoArithmetic, rhs: NodeView) -> NodeView {
    NodeView::Binary(
        BinaryView {
            ta: NaskoType::Unknown,
            rhs: Some(Box::new(rhs)),
            lhs: None,
            expression: op,
            children: Seq::empty(),
        },
    )
}

/// What an operator does: the last child of the root becomes the right
/// operand of a new expression, which takes its place and waits for its
/// left operand.
pub open spec fn operator_spec(tree: SourceView, state: ParserState, op: NaskoArithmetic)
    -> Result<Parsing, ParseErrorKind> {
    if tree.children.len() == 0 {
        Err(ParseErrorKind::RightHandSideMissing)
    } else {
        Ok(
            Parsing {
                tree: replace_last(tree, pending_expression(op, tree.children.last())),
                state: ParserState { in_expression: true, ..state },
            },
        )
    }
}

/// A function declaration of which nothing is known yet.
pub open spec fn blank_decl() -> NodeView {
    NodeView::FunctionDecl(
        FunctionDeclView {
            ta: NaskoType::Unknown,
            value: DataView::Empty,
            params: Seq::empty(),
            children: Seq::empty(),
        },
    )
}

/// A return statement that has no value yet.
pub open spec fn blank_return() -> NodeView {
    NodeView::Statement(
        StatementView { ta: NaskoType::Unknown, ntype: "ReturnStatement"@, children: Seq::empty() },
    )
}

/// What a keyword does: `func` opens a declaration as a new child of the
/// root, `return` opens a statement as a new child of the root's last
/// child, and every other keyword stops the parser.
pub open spec fn keyword_spec(tree: SourceView, state: ParserState, keyword: NaskoKeyword)
    -> Result<Parsing, ParseErrorKind> {
    match keyword {
        NaskoKeyword::Func => Ok(
            Parsing {
                tree: append(tree, blank_decl()),
                state: ParserState { in_function_decl: true, ..state },
            },
        ),
        NaskoKeyword::Return => {
            if !state.in_function_decl {
                Err(ParseErrorKind::ReturnOutsideFunction)
            } else if tree.children.len() == 0 {
                Err(ParseErrorKind::MissingNode)
            } else {
                Ok(
                    Parsing {
                        tree: replace_last(tree, tree.children.last().with_leaf(blank_return())),
                        state: ParserState { in_return: true, ..state },
                    },
                )
            }
        },
        NaskoKeyword::As => Err(ParseErrorKind::UnsupportedAs),
        _ => Err(ParseErrorKind::UnimplementedKeyword(keyword)),
    }
}

/// The tokens that move flags and do nothing else: structural punctuation.
#[derive(Debug, PartialEq, Eq, Clone, Copy, Structural)]
pub enum Punctuation {
    ParenOpen,
    ParenClose,
    BlockOpen,
    BlockClose,
    Colon,
    Comma,
    SubscriptOpen,
    SubscriptClose,
}

/// Which structural punctuation a token is, if any.
pub open spec fn punctuation_of(token: TokenView) -> Option<Punctuation> {
    match token {
        TokenView::ParenOpen => Some(Punctuation::ParenOpen),
        TokenView::ParenClose => Some(Punctuation::ParenClose),
        TokenView::BlockOpen => Some(Punctuation::BlockOpen),
        TokenView::BlockClose => Some(Punctuation::BlockClose),
        TokenView::Colon => Some(Punctuation::Colon),
        TokenView::Comma => Some(Punctuation::Comma),
        TokenView::SubscriptOpen => Some(Punctuation::SubscriptOpen),
        TokenView::SubscriptClose => Some(Punctuation::SubscriptClose),
        _ => None,
    }
}

/// The flags after a token of structural punctuation.
pub open spec fn flags_after(state: ParserState, mark: Punctuation) -> ParserState {
    match mark {
        Punctuation::ParenOpen => ParserState { in_parens: true, ..state },
        Punctuation::ParenClose => ParserState {
            in_arg: false,
            in_parens: false,
            has_unknown_ident: false,
            ..state
        },
        Punctuation::BlockOpen => ParserState { in_block: true, ..state },
        Punctuation::BlockClose => ParserState {
            in_struct_decl: false,
            in_function_decl: false,
            in_block: false,
            ..state
        },
        Punctuation::Colon => ParserState { in_colon: true, ..state },
        Punctuation::Comma => ParserState { in_arg: false, in_comma: true, ..state },
        Punctuation::SubscriptOpen => ParserState { in_subscript: true, ..state },
        Punctuation::SubscriptClose => ParserState { in_subscript: false, ..state },
    }
}

/// What one token does to the tree and to every flag but `closed_semi`.
/// Punctuation moves flags and never touches the tree; a `;` and
/// unrecognised text change nothing here.
pub open spec fn transition(tree: SourceView, state: ParserState, token: TokenView) -> Result<
    Parsing,
    ParseErrorKind,
> {
    match token {
        TokenView::Ident(name) => ident_spec(tree, state, name),
        TokenView::LiteralString(_) | TokenView::LiteralBoolean(_) | TokenView::LiteralNumber(_)
        | TokenView::LiteralHex(_) => attach_literal_spec(tree, state, literal_of(token)->0),
        TokenView::ArithmeticOperator(op) => operator_spec(tree, state, op),
        TokenView::TypeAnnotation(ta) => annotation_spec(tree, state, ta),
        TokenView::Keyword(keyword) => keyword_spec(tree, state, keyword),
        TokenView::Comment(_) | TokenView::Dot | TokenView::Eq => Err(
            ParseErrorKind::UnhandledToken,
        ),
        TokenView::Semicolon | TokenView::Error => Ok(Parsing { tree, state }),
        _ => Ok(Parsing { tree, state: flags_after(state, punctuation_of(token)->0) }),
    }
}

/// What one token does: `transition`, after which `closed_semi` tells
/// whether the token was a `;`.
pub open spec fn step_spec(tree: SourceView, state: ParserState, token: TokenView) -> Result<
    Parsing,
    ParseErrorKind,
> {
    match transition(tree, state, token) {
        Ok(next) => Ok(
            Parsing {
                tree: next.tree,
                state: ParserState { closed_semi: token is Semicolon, ..next.state },
            },
        ),
        Err(kind) => Err(kind),
    }
}

/// The payloads that a value holds after one more node was put into its
/// list: the list with the node at its end, or the node alone where the
/// value held no list.
pub open spec fn upserted(value: DataView, data: NodeView) -> DataView {
    let item = DataView::BoxedNode(Box::new(data));
    match value {
        DataView::Vec(items) => DataView::Vec(items.push(item)),
        _ => DataView::Vec(seq![item]),
    }
}

/// Puts a node into the list that a value holds. A value that holds
/// anything else holds a list of that one node afterwards.
pub fn vec_upsert(tree: &mut ValueNode, data: Node)
    ensures
        final(tree)@ == (ValueView { value: upserted(old(tree)@.value, data@), ..old(tree)@ }),
{
    let item = ExtraNodeData::BoxedNode(Box::new(data));
    match &mut tree.value {
        ExtraNodeData::Vec(items) => {
            proof {
                lemma_payloads_view_push(items@, item);
            }
            items.push(item);
        },
        _ => {
            let mut items: Vec<ExtraNodeData> = Vec::new();
            proof {
                lemma_nodes_view_empty();
                lemma_payloads_view_push(items@, item);
                assert(Seq::<DataView>::empty().push(item@) =~= seq![item@]);
            }
            items.push(item);
            tree.value = ExtraNodeData::Vec(items);
        },
    }
}

/// Mutable access to the list that a value holds; `None` where it holds
/// anything else. Whatever the caller leaves in the list is what the value
/// holds afterwards.
pub fn vec_get_mut(tree: &mut ValueNode) -> (list: Option<&mut Vec<ExtraNodeData>>)
    ensures
        match list {
            Some(items) => {
                &&& old(tree)@.value == DataView::Vec(payloads_view(items@))
                &&& final(tree)@ == (ValueView {
                    value: DataView::Vec(payloads_view(final(items)@)),
                    ..old(tree)@
                })
            },
            None => {
                &&& !(old(tree)@.value is Vec)
                &&& final(tree)@ == old(tree)@
            },
        },
{
    match &mut tree.value {
        ExtraNodeData::Vec(items) => Some(items),
        _ => None,
    }
}

/// Whether what a change of the tree returned, and what it left behind, is
/// what `expected` says: on success the new tree, on failure the kind of
/// failure with the tree as it was.
pub open spec fn tree_agrees(
    outcome: Result<(), ParseErrorKind>,
    expected: Result<SourceView, ParseErrorKind>,
    before: SourceView,
    after: SourceView,
) -> bool {
    match outcome {
        Ok(()) => expected == Ok::<SourceView, ParseErrorKind>(after),
        Err(kind) => expected == Err::<SourceView, ParseErrorKind>(kind) && after == before,
    }
}

/// The same for a step, which changes tree and state.
pub open spec fn agrees(
    outcome: Result<(), ParseErrorKind>,
    expected: Result<Parsing, ParseErrorKind>,
    before: Parsing,
    after: Parsing,
) -> bool {
    match outcome {
        Ok(()) => expected == Ok::<Parsing, ParseErrorKind>(after),
        Err(kind) => expected == Err::<Parsing, ParseErrorKind>(kind) && after == before,
    }
}

/// Putting the last child back in its place changes nothing.
proof fn lemma_replace_last_same(tree: SourceView)
    requires
        tree.children.len() > 0,
    ensures
        replace_last(tree, tree.children.last()) == tree,
{
    assert(tree.children.update(tree.children.len() - 1, tree.children.last()) =~= tree.children);
}

/// Mutable access to the declaration in progress.
fn open_decl_mut(tree: &mut SourceNode) -> (found: Result<&mut FunctionDeclNode, ParseErrorKind>)
    ensures
        match found {
            Ok(decl) => {
                &&& open_decl(old(tree)@) == Ok::<FunctionDeclView, ParseErrorKind>(decl@)
                &&& final(tree)@ == replace_last(old(tree)@, NodeView::FunctionDecl(final(decl)@))
            },
            Err(kind) => {
                &&& open_decl(old(tree)@) == Err::<FunctionDeclView, ParseErrorKind>(kind)
                &&& final(tree)@ == old(tree)@
            },
        },
{
    let n = tree.children.len();
    if n == 0 {
        return Err(ParseErrorKind::MissingNode);
    }
    let is_decl = match &tree.children[n - 1] {
        Node::FunctionDecl(_) => true,
        _ => false,
    };
    if !is_decl {
        return Err(ParseErrorKind::UnexpectedNode);
    }
    let ghost before = tree.children@;
    match &mut tree.children[n - 1] {
        Node::FunctionDecl(decl) => {
            proof {
                lemma_nodes_view_update(before, n - 1, Node::FunctionDecl(*final(decl)));
            }
            Ok(decl)
        },
        _ => {
            // The shape was tested above.
            proof {
                assert(false);
            }
            Err(ParseErrorKind::UnexpectedNode)
        },
    }
}

/// A node without children that holds a literal.
fn make_constant(ta: NaskoType, value: ExtraNodeData) -> (node: ValueNode)
    ensures
        node@ == constant(ta, value@),
{
    proof {
        lemma_nodes_view_empty();
    }
    ValueNode { ta, ntype: String::from_str("Constant"), value, children: Vec::new() }
}

/// Makes `leaf` the left operand of the expression that is the last child.
fn fill_left_operand(tree: &mut SourceNode, leaf: Node) -> (outcome: Result<(), ParseErrorKind>)
    ensures
        tree_agrees(outcome, left_operand_spec(old(tree)@, leaf@), old(tree)@, final(tree)@),
{
    let n = tree.children.len();
    if n == 0 {
        return Err(ParseErrorKind::UnmatchedExpression);
    }
    let ghost before = tree.children@;
    match &mut tree.children[n - 1] {
        Node::Binary(expr) => {
            expr.lhs = Some(Box::new(leaf));
            proof {
                lemma_nodes_view_update(before, n - 1, Node::Binary(*expr));
            }
            Ok(())
        },
        _ => {
            assert(tree.children@ =~= before);
            Err(ParseErrorKind::UnmatchedExpression)
        },
    }
}

/// Appends `leaf` to the last child of the last child.
fn extend_last_statement(tree: &mut SourceNode, leaf: Node) -> (outcome: Result<
    (),
    ParseErrorKind,
>)
    ensures
        tree_agrees(outcome, return_value_spec(old(tree)@, leaf@), old(tree)@, final(tree)@),
{
    let n = tree.children.len();
    if n == 0 {
        return Err(ParseErrorKind::MissingNode);
    }
    let ghost before = tree.children@;
    let func = &mut tree.children[n - 1];
    let count = func.get_leaves().len();
    if count == 0 {
        assert(tree.children@ =~= before);
        return Err(ParseErrorKind::MissingNode);
    }
    match func.get_leaf_mut(count - 1) {
        Some(statement) => {
            statement.push_leaf(leaf);
            proof {
                lemma_nodes_view_update(before, n - 1, *func);
            }
            Ok(())
        },
        None => {
            proof {
                lemma_nodes_view_update(before, n - 1, *func);
            }
            Err(ParseErrorKind::MissingNode)
        },
    }
}

/// Appends `leaf` to the identifier that the body of `decl` ends with.
fn append_argument(decl: &mut FunctionDeclNode, leaf: Node) -> (outcome: Result<
    (),
    ParseErrorKind,
>)
    ensures
        match outcome {
            Ok(()) => with_call_argument(old(decl)@, leaf@) == Ok::<
                FunctionDeclView,
                ParseErrorKind,
            >(final(decl)@),
            Err(kind) => {
                &&& with_call_argument(old(decl)@, leaf@) == Err::<
                    FunctionDeclView,
                    ParseErrorKind,
                >(kind)
                &&& final(decl)@ == old(decl)@
            },
        },
{
    let count = decl.children.len();
    if count == 0 {
        return Err(ParseErrorKind::MissingNode);
    }
    let ghost leaves = decl.children@;
    match &mut decl.children[count - 1] {
        Node::Value(ident) => {
            let ghost was = *ident;
            if str_eq(ident.ntype.as_str(), "UnknownIdent") {
                ident.ntype = String::from_str("CallExpression");
            }
            proof {
                lemma_nodes_view_push(ident.children@, leaf);
            }
            ident.children.push(leaf);
            proof {
                lemma_nodes_view_update(leaves, count - 1, Node::Value(*ident));
                assert(ident@ == call_with(was@, leaf@));
            }
            Ok(())
        },
        _ => {
            assert(decl.children@ =~= leaves);
            Err(ParseErrorKind::UnexpectedNode)
        },
    }
}

/// Appends `leaf` to the identifier that the declaration in progress ends with.
fn add_call_argument(tree: &mut SourceNode, leaf: Node) -> (outcome: Result<(), ParseErrorKind>)
    ensures
        tree_agrees(outcome, call_argument_spec(old(tree)@, leaf@), old(tree)@, final(tree)@),
{
    match open_decl_mut(tree) {
        Err(kind) => Err(kind),
        Ok(decl) => {
            proof {
                lemma_replace_last_same(old(tree)@);
            }
            append_argument(decl, leaf)
        },
    }
}

/// Puts a literal where the state says it belongs.
pub fn attach_literal(
    tree: &mut SourceNode,
    state: &mut ParserState,
    literal: ValueNode,
) -> (outcome: Result<(), ParseErrorKind>)
    ensures
        agrees(
            outcome,
            attach_literal_spec(old(tree)@, *old(state), literal@),
            Parsing { tree: old(tree)@, state: *old(state) },
            Parsing { tree: final(tree)@, state: *final(state) },
        ),
{
    if state.in_expression {
        match fill_left_operand(tree, Node::Value(literal)) {
            Ok(()) => {
                state.in_expression = false;
                Ok(())
            },
            Err(kind) => Err(kind),
        }
    } else if state.in_return {
        extend_last_statement(tree, Node::Value(literal))
    } else if state.has_unknown_ident && state.in_parens {
        add_call_argument(tree, Node::Value(literal))
    } else {
        proof {
            lemma_nodes_view_push(tree.children@, Node::Value(literal));
        }
        tree.children.push(Node::Value(literal));
        Ok(())
    }
}

/// A node without children that holds a name.
fn make_named(ntype: &str, name: String) -> (node: ValueNode)
    ensures
        node@ == named(ntype@, name@),
{
    proof {
        lemma_nodes_view_empty();
    }
    ValueNode {
        ta: NaskoType::Unknown,
        ntype: String::from_str(ntype),
        value: ExtraNodeData::String(name),
        children: Vec::new(),
    }
}

/// Takes an identifier: a parameter, the function's name or a statement,
/// as the state says.
pub fn declare_ident(
    tree: &mut SourceNode,
    state: &mut ParserState,
    name: String,
) -> (outcome: Result<(), ParseErrorKind>)
    ensures
        agrees(
            outcome,
            ident_spec(old(tree)@, *old(state), name@),
            Parsing { tree: old(tree)@, state: *old(state) },
            Parsing { tree: final(tree)@, state: *final(state) },
        ),
{
    if !state.in_function_decl {
        return Ok(());
    }
    match open_decl_mut(tree) {
        Err(kind) => Err(kind),
        Ok(decl) => {
            if state.in_parens {
                let param = make_named("FunctionArgumentDecl", name);
                proof {
                    lemma_values_view_push(decl.params@, param);
                }
                decl.params.push(param);
                state.in_arg = true;
            } else if !state.in_block {
                decl.value = ExtraNodeData::String(name);
            } else {
                let ident = make_named("UnknownIdent", name);
                proof {
                    lemma_nodes_view_push(decl.children@, Node::Value(ident));
                }
                decl.children.push(Node::Value(ident));
                state.has_unknown_ident = true;
            }
            Ok(())
        },
    }
}

/// Takes a primitive type: that of the pending parameter, or the return type.
pub fn annotate(
    tree: &mut SourceNode,
    state: &mut ParserState,
    ta: NaskoType,
) -> (outcome: Result<(), ParseErrorKind>)
    ensures
        agrees(
            outcome,
            annotation_spec(old(tree)@, *old(state), ta),
            Parsing { tree: old(tree)@, state: *old(state) },
            Parsing { tree: final(tree)@, state: *final(state) },
        ),
{
    if ta == NaskoType::Unknown || !(state.in_function_decl && state.in_colon) {
        return Ok(());
    }
    match open_decl_mut(tree) {
        Err(kind) => Err(kind),
        Ok(decl) => {
            proof {
                lemma_replace_last_same(old(tree)@);
            }
            if !state.in_arg {
                decl.ta = ta;
                return Ok(());
            }
            let count = decl.params.len();
            if count == 0 {
                return Err(ParseErrorKind::MissingNode);
            }
            let ghost params = decl.params@;
            let param = &mut decl.params[count - 1];
            param.ta = ta;
            proof {
                lemma_values_view_update(params, count - 1, *param);
            }
            Ok(())
        },
    }
}

/// Takes an operator: wraps the last child of the root as its right operand.
pub fn push_expression(
    tree: &mut SourceNode,
    state: &mut ParserState,
    op: NaskoArithmetic,
) -> (outcome: Result<(), ParseErrorKind>)
    ensures
        agrees(
            outcome,
            operator_spec(old(tree)@, *old(state), op),
            Parsing { tree: old(tree)@, state: *old(state) },
            Parsing { tree: final(tree)@, state: *final(state) },
        ),
{
    let ghost before = tree.children@;
    match tree.children.pop() {
        None => Err(ParseErrorKind::RightHandSideMissing),
        Some(rhs) => {
            let expr = Node::Binary(
                BinaryExpression {
                    ta: NaskoType::Unknown,
                    rhs: Some(Box::new(rhs)),
                    lhs: None,
                    expression: op,
                    children: Vec::new(),
                },
            );
            proof {
                lemma_nodes_view_empty();
                lemma_nodes_view_update(before, before.len() - 1, expr);
                assert(before.drop_last().push(expr) =~= before.update(before.len() - 1, expr));
            }
            tree.children.push(expr);
            state.in_expression = true;
            Ok(())
        },
    }
}

/// Takes a keyword: opens a function or a return statement, or fails.
pub fn open_keyword(
    tree: &mut SourceNode,
    state: &mut ParserState,
    keyword: NaskoKeyword,
) -> (outcome: Result<(), ParseErrorKind>)
    ensures
        agrees(
            outcome,
            keyword_spec(old(tree)@, *old(state), keyword),
            Parsing { tree: old(tree)@, state: *old(state) },
            Parsing { tree: final(tree)@, state: *final(state) },
        ),
{
    match keyword {
        NaskoKeyword::Func => {
            let decl = Node::FunctionDecl(
                FunctionDeclNode {
                    ta: NaskoType::Unknown,
                    value: ExtraNodeData::Empty,
                    params: Vec::new(),
                    children: Vec::new(),
                },
            );
            proof {
                lemma_nodes_view_empty();
                lemma_nodes_view_push(tree.children@, decl);
            }
            tree.children.push(decl);
            state.in_function_decl = true;
            Ok(())
        },
        NaskoKeyword::Return => {
            if !state.in_function_decl {
                return Err(ParseErrorKind::ReturnOutsideFunction);
            }
            let n = tree.children.len();
            if n == 0 {
                return Err(ParseErrorKind::MissingNode);
            }
            let statement = Node::Statement(
                StatementNode {
                    ta: NaskoType::Unknown,
                    ntype: String::from_str("ReturnStatement"),
                    children: Vec::new(),
                },
            );
            let ghost before = tree.children@;
            let func = &mut tree.children[n - 1];
            func.push_leaf(statement);
            proof {
                lemma_nodes_view_empty();
                lemma_nodes_view_update(before, n - 1, *func);
            }
            state.in_return = true;
            Ok(())
        },
        NaskoKeyword::As => Err(ParseErrorKind::UnsupportedAs),
        _ => Err(ParseErrorKind::UnimplementedKeyword(keyword)),
    }
}

/// Moves the flags as a token of structural punctuation asks.
fn set_flags(state: &mut ParserState, mark: Punctuation)
    ensures
        *final(state) == flags_after(*old(state), mark),
{
    match mark {
        Punctuation::ParenOpen => {
            state.in_parens = true;
        },
        Punctuation::ParenClose => {
            state.in_arg = false;
            state.in_parens = false;
            state.has_unknown_ident = false;
        },
        Punctuation::BlockOpen => {
            state.in_block = true;
        },
        Punctuation::BlockClose => {
            state.in_struct_decl = false;
            state.in_function_decl = false;
            state.in_block = false;
        },
        Punctuation::Colon => {
            state.in_colon = true;
        },
        Punctuation::Comma => {
            state.in_arg = false;
            state.in_comma = true;
        },
        Punctuation::SubscriptOpen => {
            state.in_subscript = true;
        },
        Punctuation::SubscriptClose => {
            state.in_subscript = false;
        },
    }
}

/// Takes one token, but for `closed_semi`.
fn apply(tree: &mut SourceNode, state: &mut ParserState, token: NaskoToken) -> (outcome: Result<
    (),
    ParseErrorKind,
>)
    ensures
        agrees(
            outcome,
            transition(old(tree)@, *old(state), token@),
            Parsing { tree: old(tree)@, state: *old(state) },
            Parsing { tree: final(tree)@, state: *final(state) },
        ),
{
    let mark = match token {
        NaskoToken::Ident(name) => {
            return declare_ident(tree, state, name);
        },
        NaskoToken::LiteralString(text) => {
            let literal = make_constant(NaskoType::String, ExtraNodeData::String(text));
            return attach_literal(tree, state, literal);
        },
        NaskoToken::LiteralBoolean(flag) => {
            let literal = make_constant(NaskoType::Boolean, ExtraNodeData::Boolean(flag));
            return attach_literal(tree, state, literal);
        },
        NaskoToken::LiteralNumber(text) => {
            let number = ExtraNodeData::Number(NaskoNumber::Decimal(text));
            return attach_literal(tree, state, make_constant(NaskoType::Number, number));
        },
        NaskoToken::LiteralHex(n) => {
            let number = ExtraNodeData::Number(NaskoNumber::Integer(n));
            return attach_literal(tree, state, make_constant(NaskoType::Number, number));
        },
        NaskoToken::ArithmeticOperator(op) => {
            return push_expression(tree, state, op);
        },
        NaskoToken::TypeAnnotation(ta) => {
            return annotate(tree, state, ta);
        },
        NaskoToken::Keyword(keyword) => {
            return open_keyword(tree, state, keyword);
        },
        NaskoToken::Comment(_) | NaskoToken::Dot | NaskoToken::Eq => {
            return Err(ParseErrorKind::UnhandledToken);
        },
        NaskoToken::Semicolon | NaskoToken::Error => {
            return Ok(());
        },
        NaskoToken::ParenOpen => Punctuation::ParenOpen,
        NaskoToken::ParenClose => Punctuation::ParenClose,
        NaskoToken::BlockOpen => Punctuation::BlockOpen,
        NaskoToken::BlockClose => Punctuation::BlockClose,
        NaskoToken::Colon => Punctuation::Colon,
        NaskoToken::Comma => Punctuation::Comma,
        NaskoToken::SubscriptOpen => Punctuation::SubscriptOpen,
        NaskoToken::SubscriptClose => Punctuation::SubscriptClose,
    };
    set_flags(state, mark);
    Ok(())
}

/// Takes one token. On success tree and state are what `step_spec` gives; on
/// failure they are as they were, and the error names the token's span.
pub fn consume(
    tree: &mut SourceNode,
    state: &mut ParserState,
    token: NaskoToken,
    span: Span,
) -> (outcome: Result<(), ParseError>)
    ensures
        match outcome {
            Ok(()) => step_spec(old(tree)@, *old(state), token@) == Ok::<Parsing, ParseErrorKind>(
                Parsing { tree: final(tree)@, state: *final(state) },
            ),
            Err(error) => {
                &&& step_spec(old(tree)@, *old(state), token@) == Err::<Parsing, ParseErrorKind>(
                    error.kind,
                )
                &&& error.span == span
                &&& final(tree)@ == old(tree)@
                &&& *final(state) == *old(state)
            },
        },
{
    let closes = match &token {
        NaskoToken::Semicolon => true,
        _ => false,
    };
    match apply(tree, state, token) {
        Ok(()) => {
            state.closed_semi = closes;
            Ok(())
        },
        Err(kind) => Err(ParseError { kind, span }),
    }
}

/// Text that the scanner did not recognise and the parser passed over.
#[derive(Debug, PartialEq, Eq)]
pub struct Unrecognized {
    pub span: Span,
    pub slice: String,
}

/// An entry of the log as contracts see it.
pub ghost struct UnrecognizedView {
    pub span: Span,
    pub slice: Seq<char>,
}

impl View for Unrecognized {
    type V = UnrecognizedView;

    open spec fn view(&self) -> UnrecognizedView {
        UnrecognizedView { span: self.span, slice: self.slice@ }
    }
}

/// The view of each entry of a log, in order.
pub open spec fn log_view(log: Seq<Unrecognized>) -> Seq<UnrecognizedView> {
    Seq::new(log.len(), |i: int| log[i]@)
}

/// How a run of the parser ends.
pub ghost struct Finished {
    /// The tree, or the failure that stopped the run.
    pub result: Result<SourceView, ParseError>,
    /// The scanner where the run left it.
    pub lexer: LexerView,
    /// What was passed over as unrecognised, in order.
    pub log: Seq<UnrecognizedView>,
}

/// The run of the parser from a scanner, a tree and a state: token by
/// token until the text is used up or a token fails. Unrecognised text
/// goes to the log and changes nothing.
pub open spec fn run(lexer: LexerView, parsing: Parsing) -> Finished
    decreases lexer.text.len() - lexer.position,
    when 0 <= lexer.position <= lexer.text.len()
    via run_decreases
{
    let after = advance(lexer);
    match pending(lexer) {
        None => Finished { result: Ok(parsing.tree), lexer: after, log: Seq::empty() },
        Some(Scanned::HexOutOfRange) => Finished {
            result: Err(
                ParseError { kind: ParseErrorKind::HexOutOfRange, span: current_span(after) },
            ),
            lexer: after,
            log: Seq::empty(),
        },
        Some(Scanned::Token(token)) => match step_spec(parsing.tree, parsing.state, token) {
            Err(kind) => Finished {
                result: Err(ParseError { kind, span: current_span(after) }),
                lexer: after,
                log: Seq::empty(),
            },
            Ok(next) => {
                let rest = run(after, next);
                let entry = if token is Error {
                    seq![
                        UnrecognizedView { span: current_span(after), slice: current_slice(after) },
                    ]
                } else {
                    Seq::empty()
                };
                Finished { log: entry + rest.log, ..rest }
            },
        },
    }
}

#[via_fn]
proof fn run_decreases(lexer: LexerView, parsing: Parsing) {
    lemma_advance_moves(lexer);
}

/// The run of the parser over a whole text, from an empty tree.
pub open spec fn parse_spec(lexer: LexerView) -> Finished {
    run(
        lexer,
        Parsing {
            tree: SourceView { ta: NaskoType::Unknown, children: Seq::empty() },
            state: initial_state(),
        },
    )
}

/// Reads every token that the scanner still has and builds the tree of the
/// program. Text that the scanner does not recognise is put on `log` and
/// passed over. Stops at the first token that fails.
pub fn parse(lex: &mut NaskoLexer, log: &mut Vec<Unrecognized>) -> (result: Result<
    SourceNode,
    ParseError,
>)
    requires
        old(lex).wf(),
    ensures
        final(lex).wf(),
        final(lex)@ == parse_spec(old(lex)@).lexer,
        log_view(final(log)@) == log_view(old(log)@) + parse_spec(old(lex)@).log,
        match result {
            Ok(tree) => parse_spec(old(lex)@).result == Ok::<SourceView, ParseError>(tree@),
            Err(error) => parse_spec(old(lex)@).result == Err::<SourceView, ParseError>(error),
        },
{
    let mut tree = SourceNode::default();
    let mut state = ParserState::default();
    let ghost whole = parse_spec(lex@);
    let ghost mut seen: Seq<UnrecognizedView> = Seq::empty();
    proof {
        lex.lemma_wf_bounds();
    }
    loop
        invariant
            lex.wf(),
            0 <= lex@.position <= lex@.text.len(),
            whole == parse_spec(old(lex)@),
            whole.result == run(lex@, Parsing { tree: tree@, state }).result,
            whole.lexer == run(lex@, Parsing { tree: tree@, state }).lexer,
            whole.log == seen + run(lex@, Parsing { tree: tree@, state }).log,
            log_view(log@) == log_view(old(log)@) + seen,
        decreases lex@.text.len() - lex@.position,
    {
        proof {
            lemma_advance_moves(lex@);
        }
        match lex.next_token() {
            Ok(None) => {
                return Ok(tree);
            },
            Err(ScanError::HexOutOfRange(span)) => {
                return Err(ParseError { kind: ParseErrorKind::HexOutOfRange, span });
            },
            Ok(Some(token)) => {
                let span = lex.span();
                let unrecognized = match &token {
                    NaskoToken::Error => true,
                    _ => false,
                };
                match consume(&mut tree, &mut state, token, span) {
                    Err(error) => {
                        return Err(error);
                    },
                    Ok(()) => {
                        if unrecognized {
                            let entry = Unrecognized { span, slice: lex.slice() };
                            proof {
                                seen = seen.push(entry@);
                                assert(log_view(log@.push(entry)) =~= log_view(log@).push(entry@));
                            }
                            log.push(entry);
                        }
                    },
                }
            },
        }
    }
}

} // verus!
