//! The check of the entry point: a program needs a function `main` that
//! returns a number and takes at most a number and a string.

pub mod search;

use vstd::prelude::*;
use crate::ast::{
    lemma_nodes_view_update, nodes_view, values_view, FunctionDeclView, Node, NodeView,
    SourceNode, SourceView, ValueNode, ValueView,
};
use crate::semantics::NaskoType;
use self::search::{find_function, is_function_named, lemma_find_function, position_of_function};

verus! {

/// Why a program has no valid entry point.
#[derive(Debug, PartialEq, Eq, Clone, Copy)]
pub enum EntryError {
    /// No function is named `main`.
    MissingMain,
    /// `main` does not return a number; this is what it returns.
    MainReturnType(NaskoType),
    /// `main` takes more than two parameters; this is how many.
    MainArity(usize),
    /// A parameter of `main` has the wrong type. `first` holds the type of
    /// the first parameter where that is neither a number nor unknown,
    /// `second` that of the second where it is neither a string nor unknown.
    MainArguments { first: Option<NaskoType>, second: Option<NaskoType> },
}

/// The name of the entry point.
pub open spec fn entry_name() -> Seq<char> {
    "main"@
}

/// The type of the first parameter, where it is wrong.
pub open spec fn first_fault(params: Seq<ValueView>) -> Option<NaskoType> {
    if params[0].ta != NaskoType::Number && params[0].ta != NaskoType::Unknown {
        Some(params[0].ta)
    } else {
        None
    }
}

/// The type of the second parameter, where there is one and it is wrong.
pub open spec fn second_fault(params: Seq<ValueView>) -> Option<NaskoType> {
    if params.len() == 2 && params[1].ta != NaskoType::String && params[1].ta
        != NaskoType::Unknown {
        Some(params[1].ta)
    } else {
        None
    }
}

/// The one or two parameters of `main` with their types filled in: a
/// number, then a string.
pub open spec fn annotated_params(params: Seq<ValueView>) -> Seq<ValueView> {
    Seq::new(
        params.len(),
        |i: int|
            ValueView {
                ta: if i == 0 {
                    NaskoType::Number
                } else {
                    NaskoType::String
                },
                ..params[i]
            },
    )
}

/// The check of the one or two parameters of `main`. Both are looked at
/// before either fault is reported.
pub open spec fn check_params_spec(params: Seq<ValueView>) -> Result<Seq<ValueView>, EntryError> {
    if first_fault(params) is Some || second_fault(params) is Some {
        Err(EntryError::MainArguments { first: first_fault(params), second: second_fault(params) })
    } else {
        Ok(annotated_params(params))
    }
}

/// The check of a declaration of `main`, and what it becomes.
pub open spec fn check_main_spec(main: FunctionDeclView) -> Result<FunctionDeclView, EntryError> {
    if main.ta != NaskoType::Number {
        Err(EntryError::MainReturnType(main.ta))
    } else if main.params.len() == 0 {
        Ok(main)
    } else if main.params.len() > 2 {
        Err(EntryError::MainArity(main.params.len() as usize))
    } else {
        match check_params_spec(main.params) {
            Err(error) => Err(error),
            Ok(params) => Ok(FunctionDeclView { params, ..main }),
        }
    }
}

/// The check of a program, and what the program becomes: the first
/// function named `main` among the children of the root is checked, and
/// the parameters that it has get their types.
pub open spec fn annotate_spec(tree: SourceView) -> Result<SourceView, EntryError> {
    match find_function(tree.children, entry_name(), 0) {
        None => Err(EntryError::MissingMain),
        Some(at) => match check_main_spec(tree.children[at]->FunctionDecl_0) {
            Err(error) => Err(error),
            Ok(main) => Ok(
                SourceView {
                    children: tree.children.update(at, NodeView::FunctionDecl(main)),
                    ..tree
                },
            ),
        },
    }
}

/// Checks the one or two parameters of `main` and fills in their types.
fn check_main_args(params: &mut Vec<ValueNode>) -> (outcome: Result<(), EntryError>)
    requires
        1 <= old(params)@.len() <= 2,
    ensures
        match outcome {
            Ok(()) => check_params_spec(values_view(old(params)@)) == Ok::<
                Seq<ValueView>,
                EntryError,
            >(values_view(final(params)@)),
            Err(error) => {
                &&& check_params_spec(values_view(old(params)@)) == Err::<
                    Seq<ValueView>,
                    EntryError,
                >(error)
                &&& values_view(final(params)@) == values_view(old(params)@)
            },
        },
{
    let double = params.len() == 2;
    let first = match params[0].ta {
        NaskoType::Number | NaskoType::Unknown => None,
        other => Some(other),
    };
    let second = if double {
        match params[1].ta {
            NaskoType::String | NaskoType::Unknown => None,
            other => Some(other),
        }
    } else {
        None
    };
    if first.is_some() || second.is_some() {
        return Err(EntryError::MainArguments { first, second });
    }
    let ghost before = params@;
    params[0].ta = NaskoType::Number;
    if double {
        params[1].ta = NaskoType::String;
    }
    proof {
        assert(values_view(params@) =~= annotated_params(values_view(before)));
    }
    Ok(())
}

/// Checks the entry point of a program and fills in the types of its
/// parameters. On failure the program is as it was.
pub fn annotate_types(tree: &mut SourceNode) -> (outcome: Result<(), EntryError>)
    ensures
        match outcome {
            Ok(()) => annotate_spec(old(tree)@) == Ok::<SourceView, EntryError>(final(tree)@),
            Err(error) => {
                &&& annotate_spec(old(tree)@) == Err::<SourceView, EntryError>(error)
                &&& final(tree)@ == old(tree)@
            },
        },
{
    proof {
        reveal_strlit("main");
        lemma_find_function(old(tree)@.children, entry_name(), 0);
    }
    let at = match position_of_function("main", &tree.children) {
        None => {
            return Err(EntryError::MissingMain);
        },
        Some(at) => at,
    };
    let ghost before = tree.children@;
    match &mut tree.children[at] {
        Node::FunctionDecl(main) => {
            let ghost was = *main;
            let outcome = if !matches!(main.ta, NaskoType::Number) {
                Err(EntryError::MainReturnType(main.ta))
            } else if main.params.len() == 0 {
                Ok(())
            } else if main.params.len() > 2 {
                Err(EntryError::MainArity(main.params.len()))
            } else {
                check_main_args(&mut main.params)
            };
            proof {
                lemma_nodes_view_update(before, at as int, Node::FunctionDecl(*main));
                if outcome is Err || was.params@.len() == 0 {
                    assert(nodes_view(before).update(at as int, NodeView::FunctionDecl(was@))
                        =~= nodes_view(before));
                }
            }
            outcome
        },
        _ => {
            // What was found is a function.
            proof {
                assert(false);
            }
            Err(EntryError::MissingMain)
        },
    }
}

/// A program without a function named `main` fails the check for that.
pub proof fn lemma_missing_main(tree: SourceView)
    requires
        forall|i: int|
            0 <= i < tree.children.len() ==> !is_function_named(
                #[trigger] tree.children[i],
                entry_name(),
            ),
    ensures
        annotate_spec(tree) == Err::<SourceView, EntryError>(EntryError::MissingMain),
{
    lemma_find_function(tree.children, entry_name(), 0);
}

/// A `main` that returns a number and takes more than two parameters
/// fails the check for their number.
pub proof fn lemma_main_arity(tree: SourceView, at: int)
    requires
        find_function(tree.children, entry_name(), 0) == Some(at),
        tree.children[at]->FunctionDecl_0.ta == NaskoType::Number,
        tree.children[at]->FunctionDecl_0.params.len() > 2,
    ensures
        annotate_spec(tree) == Err::<SourceView, EntryError>(
            EntryError::MainArity(tree.children[at]->FunctionDecl_0.params.len() as usize),
        ),
{
}

/// A `main` that returns a number and takes two parameters of unknown
/// type passes the check, which makes the first a number and the second a
/// string and changes nothing else.
pub proof fn lemma_unknown_params_filled(tree: SourceView, at: int)
    requires
        find_function(tree.children, entry_name(), 0) == Some(at),
        tree.children[at]->FunctionDecl_0.ta == NaskoType::Number,
        tree.children[at]->FunctionDecl_0.params.len() == 2,
        tree.children[at]->FunctionDecl_0.params[0].ta == NaskoType::Unknown,
        tree.children[at]->FunctionDecl_0.params[1].ta == NaskoType::Unknown,
    ensures
        ({
            let main = tree.children[at]->FunctionDecl_0;
            let first = ValueView { ta: NaskoType::Number, ..main.params[0] };
            let second = ValueView { ta: NaskoType::String, ..main.params[1] };
            annotate_spec(tree) == Ok::<SourceView, EntryError>(
                SourceView {
                    children: tree.children.update(
                        at,
                        NodeView::FunctionDecl(
                            FunctionDeclView { params: seq![first, second], ..main },
                        ),
                    ),
                    ..tree
                },
            )
        }),
{
    let main = tree.children[at]->FunctionDecl_0;
    let first = ValueView { ta: NaskoType::Number, ..main.params[0] };
    let second = ValueView { ta: NaskoType::String, ..main.params[1] };
    lemma_find_function(tree.children, entry_name(), 0);
    assert(annotated_params(main.params) =~= seq![first, second]);
}

} // verus!
