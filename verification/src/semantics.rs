//! The closed vocabularies of the language: arithmetic operators, primitive
//! type annotations and keywords, each with the spelling that denotes it.

use vstd::prelude::*;
use crate::text::str_eq;

verus! {

/// An arithmetic operator. `Unknown` stands for a spelling that names no operator.
#[derive(Debug, PartialEq, Eq, Clone, Copy, Structural)]
pub enum NaskoArithmetic {
    Add,
    Subtract,
    Divide,
    Multiply,
    Modulo,
    Power,
    Unknown,
}

/// The operator that a spelling denotes.
pub open spec fn arithmetic_of(slice: Seq<char>) -> NaskoArithmetic {
    if slice == seq!['+'] {
        NaskoArithmetic::Add
    } else if slice == seq!['-'] {
        NaskoArithmetic::Subtract
    } else if slice == seq!['/'] {
        NaskoArithmetic::Divide
    } else if slice == seq!['*'] {
        NaskoArithmetic::Multiply
    } else if slice == seq!['%'] {
        NaskoArithmetic::Modulo
    } else if slice == seq!['*', '*'] {
        NaskoArithmetic::Power
    } else {
        NaskoArithmetic::Unknown
    }
}

impl NaskoArithmetic {
    /// Reads an operator from its spelling; any other text gives `Unknown`.
    pub fn parse(slice: &str) -> (op: NaskoArithmetic)
        ensures
            op == arithmetic_of(slice@),
    {
        proof {
            reveal_strlit("+");
            reveal_strlit("-");
            reveal_strlit("/");
            reveal_strlit("*");
            reveal_strlit("%");
            reveal_strlit("**");
            assert("+"@ =~= seq!['+']);
            assert("-"@ =~= seq!['-']);
            assert("/"@ =~= seq!['/']);
            assert("*"@ =~= seq!['*']);
            assert("%"@ =~= seq!['%']);
            assert("**"@ =~= seq!['*', '*']);
        }
        if str_eq(slice, "+") {
            NaskoArithmetic::Add
        } else if str_eq(slice, "-") {
            NaskoArithmetic::Subtract
        } else if str_eq(slice, "/") {
            NaskoArithmetic::Divide
        } else if str_eq(slice, "*") {
            NaskoArithmetic::Multiply
        } else if str_eq(slice, "%") {
            NaskoArithmetic::Modulo
        } else if str_eq(slice, "**") {
            NaskoArithmetic::Power
        } else {
            NaskoArithmetic::Unknown
        }
    }
}

/// A type annotation. `Unknown` is the annotation of whatever has none yet.
#[derive(Debug, PartialEq, Eq, Clone, Copy, Structural)]
pub enum NaskoType {
    String,
    Boolean,
    Number,
    Unknown,
}

/// The annotation that a spelling denotes.
pub open spec fn type_of(slice: Seq<char>) -> NaskoType {
    if slice == seq!['s', 't', 'r', 'i', 'n', 'g'] {
        NaskoType::String
    } else if slice == seq!['b', 'o', 'o', 'l', 'e', 'a', 'n'] {
        NaskoType::Boolean
    } else if slice == seq!['i', 'n', 't'] {
        NaskoType::Number
    } else {
        NaskoType::Unknown
    }
}

impl NaskoType {
    /// Reads a primitive type from its spelling; any other text gives `Unknown`.
    pub fn parse(slice: &str) -> (ta: NaskoType)
        ensures
            ta == type_of(slice@),
    {
        proof {
            reveal_strlit("string");
            reveal_strlit("boolean");
            reveal_strlit("int");
            assert("string"@ =~= seq!['s', 't', 'r', 'i', 'n', 'g']);
            assert("boolean"@ =~= seq!['b', 'o', 'o', 'l', 'e', 'a', 'n']);
            assert("int"@ =~= seq!['i', 'n', 't']);
        }
        if str_eq(slice, "string") {
            NaskoType::String
        } else if str_eq(slice, "boolean") {
            NaskoType::Boolean
        } else if str_eq(slice, "int") {
            NaskoType::Number
        } else {
            NaskoType::Unknown
        }
    }
}

impl Default for NaskoType {
    fn default() -> (ta: NaskoType)
        ensures
            ta == NaskoType::Unknown,
    {
        NaskoType::Unknown
    }
}

/// A reserved word.
#[derive(Debug, PartialEq, Eq, Clone, Copy, Structural)]
pub enum NaskoKeyword {
    Func,
    Struct,
    Enum,
    Import,
    If,
    Return,
    While,
    Let,
    As,
}

/// The keyword that a spelling denotes, if it is one of the nine.
pub open spec fn keyword_named(slice: Seq<char>) -> Option<NaskoKeyword> {
    if slice == seq!['f', 'u', 'n', 'c'] {
        Some(NaskoKeyword::Func)
    } else if slice == seq!['s', 't', 'r', 'u', 'c', 't'] {
        Some(NaskoKeyword::Struct)
    } else if slice == seq!['e', 'n', 'u', 'm'] {
        Some(NaskoKeyword::Enum)
    } else if slice == seq!['i', 'm', 'p', 'o', 'r', 't'] {
        Some(NaskoKeyword::Import)
    } else if slice == seq!['i', 'f'] {
        Some(NaskoKeyword::If)
    } else if slice == seq!['r', 'e', 't', 'u', 'r', 'n'] {
        Some(NaskoKeyword::Return)
    } else if slice == seq!['w', 'h', 'i', 'l', 'e'] {
        Some(NaskoKeyword::While)
    } else if slice == seq!['l', 'e', 't'] {
        Some(NaskoKeyword::Let)
    } else if slice == seq!['a', 's'] {
        Some(NaskoKeyword::As)
    } else {
        None
    }
}

/// The keyword that `parse` gives for a spelling: the one it names, and
/// `Func` for any text that names none.
pub open spec fn keyword_of(slice: Seq<char>) -> NaskoKeyword {
    match keyword_named(slice) {
        Some(k) => k,
        None => NaskoKeyword::Func,
    }
}

impl NaskoKeyword {
    /// The keyword that a spelling names, if it names one.
    pub fn named(slice: &str) -> (keyword: Option<NaskoKeyword>)
        ensures
            keyword == keyword_named(slice@),
    {
        proof {
            reveal_strlit("func");
            reveal_strlit("struct");
            reveal_strlit("enum");
            reveal_strlit("import");
            reveal_strlit("if");
            reveal_strlit("return");
            reveal_strlit("while");
            reveal_strlit("let");
            reveal_strlit("as");
            assert("func"@ =~= seq!['f', 'u', 'n', 'c']);
            assert("struct"@ =~= seq!['s', 't', 'r', 'u', 'c', 't']);
            assert("enum"@ =~= seq!['e', 'n', 'u', 'm']);
            assert("import"@ =~= seq!['i', 'm', 'p', 'o', 'r', 't']);
            assert("if"@ =~= seq!['i', 'f']);
            assert("return"@ =~= seq!['r', 'e', 't', 'u', 'r', 'n']);
            assert("while"@ =~= seq!['w', 'h', 'i', 'l', 'e']);
            assert("let"@ =~= seq!['l', 'e', 't']);
            assert("as"@ =~= seq!['a', 's']);
        }
        if str_eq(slice, "func") {
            Some(NaskoKeyword::Func)
        } else if str_eq(slice, "struct") {
            Some(NaskoKeyword::Struct)
        } else if str_eq(slice, "enum") {
            Some(NaskoKeyword::Enum)
        } else if str_eq(slice, "import") {
            Some(NaskoKeyword::Import)
        } else if str_eq(slice, "if") {
            Some(NaskoKeyword::If)
        } else if str_eq(slice, "return") {
            Some(NaskoKeyword::Return)
        } else if str_eq(slice, "while") {
            Some(NaskoKeyword::While)
        } else if str_eq(slice, "let") {
            Some(NaskoKeyword::Let)
        } else if str_eq(slice, "as") {
            Some(NaskoKeyword::As)
        } else {
            None
        }
    }

    /// Reads a keyword from its spelling. Text that is no keyword reads as
    /// `Func`, so callers hand over only what the scanner matched as one.
    pub fn parse(slice: &str) -> (keyword: NaskoKeyword)
        ensures
            keyword == keyword_of(slice@),
    {
        match NaskoKeyword::named(slice) {
            Some(keyword) => keyword,
            None => NaskoKeyword::Func,
        }
    }
}

} // verus!
