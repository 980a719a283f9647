//! What every step of the parser keeps: the places of the nodes, the order
//! of the parameters, and the operands of the expression in progress.

use vstd::prelude::*;
use crate::ast::{BinaryView, NodeView, SourceView, ValueView};
use crate::lex::TokenView;
use crate::parser::{
    annotation_spec, attach_literal_spec, ident_spec, initial_state, keyword_spec, literal_of,
    named, open_decl, operator_spec, step_spec, transition, ParserState,
};
use crate::semantics::{NaskoArithmetic, NaskoKeyword, NaskoType};

verus! {

/// Whether a tree came from another by growing in place: no child of the
/// root is gone, none but the last one is changed, and at most one is new,
/// at the end.
pub open spec fn grown(before: SourceView, after: SourceView) -> bool {
    &&& after.ta == before.ta
    &&& before.children.len() <= after.children.len() <= before.children.len() + 1
    &&& forall|i: int|
        0 <= i < before.children.len() - 1 ==> after.children[i] == before.children[i]
}

proof fn lemma_literal_grows(tree: SourceView, state: ParserState, literal: ValueView)
    requires
        attach_literal_spec(tree, state, literal) is Ok,
    ensures
        grown(tree, attach_literal_spec(tree, state, literal)->Ok_0.tree),
{
}

proof fn lemma_ident_grows(tree: SourceView, state: ParserState, name: Seq<char>)
    requires
        ident_spec(tree, state, name) is Ok,
    ensures
        grown(tree, ident_spec(tree, state, name)->Ok_0.tree),
{
}

proof fn lemma_annotation_grows(tree: SourceView, state: ParserState, ta: NaskoType)
    requires
        annotation_spec(tree, state, ta) is Ok,
    ensures
        grown(tree, annotation_spec(tree, state, ta)->Ok_0.tree),
{
}

proof fn lemma_operator_grows(tree: SourceView, state: ParserState, op: NaskoArithmetic)
    requires
        operator_spec(tree, state, op) is Ok,
    ensures
        grown(tree, operator_spec(tree, state, op)->Ok_0.tree),
{
}

proof fn lemma_keyword_grows(tree: SourceView, state: ParserState, keyword: NaskoKeyword)
    requires
        keyword_spec(tree, state, keyword) is Ok,
    ensures
        grown(tree, keyword_spec(tree, state, keyword)->Ok_0.tree),
{
}

/// A step never removes a child of the root and never touches a child but
/// the last one: the root's list grows at its end by at most one node, and
/// what is in progress stays where it is.
pub proof fn lemma_step_keeps_positions(tree: SourceView, state: ParserState, token: TokenView)
    requires
        step_spec(tree, state, token) is Ok,
    ensures
        grown(tree, step_spec(tree, state, token)->Ok_0.tree),
{
    match token {
        TokenView::Ident(name) => lemma_ident_grows(tree, state, name),
        TokenView::LiteralString(_) | TokenView::LiteralBoolean(_) | TokenView::LiteralNumber(_)
        | TokenView::LiteralHex(_) => lemma_literal_grows(tree, state, literal_of(token)->0),
        TokenView::ArithmeticOperator(op) => lemma_operator_grows(tree, state, op),
        TokenView::TypeAnnotation(ta) => lemma_annotation_grows(tree, state, ta),
        TokenView::Keyword(keyword) => lemma_keyword_grows(tree, state, keyword),
        _ => {},
    }
}

/// Two values that differ in nothing but their type annotation.
pub open spec fn same_but_type(a: ValueView, b: ValueView) -> bool {
    a.ntype == b.ntype && a.value == b.value && a.children == b.children
}

/// Whether the parameters `after` are the parameters `before` kept in
/// their order: all but the last unchanged, the last changed at most in its
/// type, and nothing new but `added`, at the end.
pub open spec fn params_kept(
    before: Seq<ValueView>,
    after: Seq<ValueView>,
    added: Option<ValueView>,
) -> bool {
    &&& after.len() == before.len() + if added is Some {
        1int
    } else {
        0int
    }
    &&& forall|i: int| 0 <= i < before.len() - 1 ==> after[i] == before[i]
    &&& before.len() > 0 ==> same_but_type(after[before.len() - 1], before.last())
    &&& added is Some ==> after.last() == added->0
}

/// The parameters of the declaration that is the last child of `tree`,
/// against what is at that place in `next`.
pub open spec fn decl_params_kept(tree: SourceView, next: SourceView, added: Option<ValueView>)
    -> bool {
    let at = tree.children.len() - 1;
    open_decl(tree) is Ok && at < next.children.len() && next.children[at] is FunctionDecl
        ==> params_kept(
        open_decl(tree)->Ok_0.params,
        next.children[at]->FunctionDecl_0.params,
        added,
    )
}

proof fn lemma_literal_keeps_params(tree: SourceView, state: ParserState, literal: ValueView)
    requires
        attach_literal_spec(tree, state, literal) is Ok,
    ensures
        decl_params_kept(tree, attach_literal_spec(tree, state, literal)->Ok_0.tree, None),
{
}

proof fn lemma_ident_keeps_params(tree: SourceView, state: ParserState, name: Seq<char>)
    requires
        ident_spec(tree, state, name) is Ok,
    ensures
        decl_params_kept(
            tree,
            ident_spec(tree, state, name)->Ok_0.tree,
            if state.in_function_decl && state.in_parens {
                Some(named("FunctionArgumentDecl"@, name))
            } else {
                None
            },
        ),
{
}

proof fn lemma_annotation_keeps_params(tree: SourceView, state: ParserState, ta: NaskoType)
    requires
        annotation_spec(tree, state, ta) is Ok,
    ensures
        decl_params_kept(tree, annotation_spec(tree, state, ta)->Ok_0.tree, None),
{
}

proof fn lemma_operator_keeps_params(tree: SourceView, state: ParserState, op: NaskoArithmetic)
    requires
        operator_spec(tree, state, op) is Ok,
    ensures
        decl_params_kept(tree, operator_spec(tree, state, op)->Ok_0.tree, None),
{
}

proof fn lemma_keyword_keeps_params(tree: SourceView, state: ParserState, keyword: NaskoKeyword)
    requires
        keyword_spec(tree, state, keyword) is Ok,
    ensures
        decl_params_kept(tree, keyword_spec(tree, state, keyword)->Ok_0.tree, None),
{
}

/// The parameter that a step declares: one for an identifier read between
/// the parentheses of a declaration, none otherwise.
pub open spec fn declared_by(state: ParserState, token: TokenView) -> Option<ValueView> {
    if token is Ident && state.in_function_decl && state.in_parens {
        Some(named("FunctionArgumentDecl"@, token->Ident_0))
    } else {
        None
    }
}

/// The parameters of the declaration in progress stay in the order in which
/// they were declared. Where the last child of the root is a function
/// declaration before and after a step, every parameter it had is still at
/// its place: all but the last unchanged, the last changed at most in its
/// type. The list grows, by one parameter at its end, only for an
/// identifier read between the parentheses of the declaration.
pub proof fn lemma_step_keeps_params(tree: SourceView, state: ParserState, token: TokenView)
    requires
        step_spec(tree, state, token) is Ok,
    ensures
        decl_params_kept(
            tree,
            step_spec(tree, state, token)->Ok_0.tree,
            declared_by(state, token),
        ),
{
    match token {
        TokenView::Ident(name) => lemma_ident_keeps_params(tree, state, name),
        TokenView::LiteralString(_) | TokenView::LiteralBoolean(_) | TokenView::LiteralNumber(_)
        | TokenView::LiteralHex(_) => lemma_literal_keeps_params(
            tree,
            state,
            literal_of(token)->0,
        ),
        TokenView::ArithmeticOperator(op) => lemma_operator_keeps_params(tree, state, op),
        TokenView::TypeAnnotation(ta) => lemma_annotation_keeps_params(tree, state, ta),
        TokenView::Keyword(keyword) => lemma_keyword_keeps_params(tree, state, keyword),
        _ => {},
    }
}

/// Whether the expression in progress, if the parser waits for its left
/// operand, has none yet.
pub open spec fn operand_pending(tree: SourceView, state: ParserState) -> bool {
    state.in_expression && tree.children.len() > 0 && tree.children.last() is Binary
        ==> tree.children.last()->Binary_0.lhs is None
}

/// Before any token no operand is pending.
pub proof fn lemma_operand_pending_at_start(ta: NaskoType)
    ensures
        operand_pending(SourceView { ta, children: Seq::empty() }, initial_state()),
{
}

/// Whether a step that took a literal after an operator made the literal
/// the left operand of the expression in progress, which had none, and
/// left the right operand alone.
pub open spec fn operand_filled(tree: SourceView, next: SourceView, literal: ValueView) -> bool {
    &&& tree.children.len() > 0
    &&& tree.children.last() matches NodeView::Binary(before)
    &&& next.children.len() == tree.children.len()
    &&& next.children.last() matches NodeView::Binary(after)
    &&& before.lhs is None
    &&& after == (BinaryView { lhs: Some(Box::new(NodeView::Value(literal))), ..before })
}

proof fn lemma_literal_fills_operand(tree: SourceView, state: ParserState, literal: ValueView)
    requires
        operand_pending(tree, state),
        attach_literal_spec(tree, state, literal) is Ok,
    ensures
        ({
            let next = attach_literal_spec(tree, state, literal)->Ok_0;
            &&& operand_pending(next.tree, next.state)
            &&& state.in_expression ==> operand_filled(tree, next.tree, literal)
                && !next.state.in_expression
        }),
{
}

proof fn lemma_ident_keeps_operand(tree: SourceView, state: ParserState, name: Seq<char>)
    requires
        operand_pending(tree, state),
        ident_spec(tree, state, name) is Ok,
    ensures
        operand_pending(
            ident_spec(tree, state, name)->Ok_0.tree,
            ident_spec(tree, state, name)->Ok_0.state,
        ),
{
}

proof fn lemma_annotation_keeps_operand(tree: SourceView, state: ParserState, ta: NaskoType)
    requires
        operand_pending(tree, state),
        annotation_spec(tree, state, ta) is Ok,
    ensures
        operand_pending(
            annotation_spec(tree, state, ta)->Ok_0.tree,
            annotation_spec(tree, state, ta)->Ok_0.state,
        ),
{
}

proof fn lemma_operator_keeps_operand(tree: SourceView, state: ParserState, op: NaskoArithmetic)
    requires
        operator_spec(tree, state, op) is Ok,
    ensures
        operand_pending(
            operator_spec(tree, state, op)->Ok_0.tree,
            operator_spec(tree, state, op)->Ok_0.state,
        ),
{
}

proof fn lemma_keyword_keeps_operand(tree: SourceView, state: ParserState, keyword: NaskoKeyword)
    requires
        operand_pending(tree, state),
        keyword_spec(tree, state, keyword) is Ok,
    ensures
        operand_pending(
            keyword_spec(tree, state, keyword)->Ok_0.tree,
            keyword_spec(tree, state, keyword)->Ok_0.state,
        ),
{
}

proof fn lemma_transition_keeps_operand(tree: SourceView, state: ParserState, token: TokenView)
    requires
        operand_pending(tree, state),
        transition(tree, state, token) is Ok,
    ensures
        ({
            let next = transition(tree, state, token)->Ok_0;
            &&& operand_pending(next.tree, next.state)
            &&& literal_of(token) is Some && state.in_expression ==> operand_filled(
                tree,
                next.tree,
                literal_of(token)->0,
            ) && !next.state.in_expression
        }),
{
    match token {
        TokenView::Ident(name) => lemma_ident_keeps_operand(tree, state, name),
        TokenView::LiteralString(_) | TokenView::LiteralBoolean(_) | TokenView::LiteralNumber(_)
        | TokenView::LiteralHex(_) => lemma_literal_fills_operand(
            tree,
            state,
            literal_of(token)->0,
        ),
        TokenView::ArithmeticOperator(op) => lemma_operator_keeps_operand(tree, state, op),
        TokenView::TypeAnnotation(ta) => lemma_annotation_keeps_operand(tree, state, ta),
        TokenView::Keyword(keyword) => lemma_keyword_keeps_operand(tree, state, keyword),
        _ => {},
    }
}

/// Every step keeps `operand_pending`. So, in a run from the start, the
/// left operand of an expression is set once, by the literal that follows
/// the operator: when a step sets it, there was none.
pub proof fn lemma_left_operand_set_once(tree: SourceView, state: ParserState, token: TokenView)
    requires
        operand_pending(tree, state),
        step_spec(tree, state, token) is Ok,
    ensures
        ({
            let next = step_spec(tree, state, token)->Ok_0;
            &&& operand_pending(next.tree, next.state)
            &&& literal_of(token) is Some && state.in_expression ==> operand_filled(
                tree,
                next.tree,
                literal_of(token)->0,
            ) && !next.state.in_expression
        }),
{
    lemma_transition_keeps_operand(tree, state, token);
}

/// An operator between two literals: the literal before it is the right
/// operand of the expression, the literal after it the left one.
pub proof fn lemma_operator_between_literals(
    tree: SourceView,
    state: ParserState,
    first: TokenView,
    op: NaskoArithmetic,
    second: TokenView,
)
    requires
        literal_of(first) is Some,
        literal_of(second) is Some,
        !state.in_expression,
        !state.in_return,
        !(state.has_unknown_ident && state.in_parens),
    ensures
        ({
            let one = step_spec(tree, state, first);
            let two = step_spec(one->Ok_0.tree, one->Ok_0.state, TokenView::ArithmeticOperator(op));
            let three = step_spec(two->Ok_0.tree, two->Ok_0.state, second);
            &&& one is Ok
            &&& two is Ok
            &&& three is Ok
            &&& three->Ok_0.tree.children == tree.children.push(
                NodeView::Binary(
                    BinaryView {
                        ta: NaskoType::Unknown,
                        rhs: Some(Box::new(NodeView::Value(literal_of(first)->0))),
                        lhs: Some(Box::new(NodeView::Value(literal_of(second)->0))),
                        expression: op,
                        children: Seq::empty(),
                    },
                ),
            )
        }),
{
    let one = step_spec(tree, state, first);
    let two = step_spec(one->Ok_0.tree, one->Ok_0.state, TokenView::ArithmeticOperator(op));
    assert(two->Ok_0.state.in_expression);
}

} // verus!
