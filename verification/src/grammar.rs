//! The lexical grammar: which runs of characters are lexemes, where the
//! lexeme at a position ends, and which token it is.

use vstd::prelude::*;
use crate::lex::{NaskoToken, TokenView};
use crate::semantics::{keyword_named, type_of, NaskoArithmetic, NaskoKeyword, NaskoType};
use crate::text::{str_eq, text_between};

verus! {

/// The sets of characters that the scanner runs over.
#[derive(Debug, PartialEq, Eq, Clone, Copy, Structural)]
pub enum CharClass {
    /// Space, tab, form feed and line feed: what stands between tokens.
    Skipped,
    Digit,
    HexDigit,
    /// Letters, digits and the underscore.
    IdentPart,
    /// Anything but a double quote, a tab and a line feed.
    StringBody,
    /// Anything but a line feed.
    CommentBody,
    /// White space as Unicode defines it.
    Whitespace,
}

/// A decimal digit.
pub open spec fn is_digit(c: char) -> bool {
    '0' <= c <= '9'
}

/// A hexadecimal digit, in either case.
pub open spec fn is_hex_digit(c: char) -> bool {
    is_digit(c) || 'a' <= c <= 'f' || 'A' <= c <= 'F'
}

/// What a word may start with: a letter or an underscore.
pub open spec fn is_ident_start(c: char) -> bool {
    'a' <= c <= 'z' || 'A' <= c <= 'Z' || c == '_'
}

/// What a word may go on with: a letter, an underscore or a digit.
pub open spec fn is_ident_part(c: char) -> bool {
    is_ident_start(c) || is_digit(c)
}

/// Space, tab or form feed: a blank that the scanner counts.
pub open spec fn is_blank(c: char) -> bool {
    c == ' ' || c == '\t' || c == '\x0c'
}

/// White space as Unicode defines it.
pub open spec fn is_whitespace(c: char) -> bool {
    ||| '\t' <= c <= '\r'
    ||| c == ' '
    ||| c == '\u{85}'
    ||| c == '\u{a0}'
    ||| c == '\u{1680}'
    ||| '\u{2000}' <= c <= '\u{200a}'
    ||| c == '\u{2028}'
    ||| c == '\u{2029}'
    ||| c == '\u{202f}'
    ||| c == '\u{205f}'
    ||| c == '\u{3000}'
}

impl CharClass {
    /// Whether the class has the character.
    pub open spec fn holds(self, c: char) -> bool {
        match self {
            CharClass::Skipped => is_blank(c) || c == '\n',
            CharClass::Digit => is_digit(c),
            CharClass::HexDigit => is_hex_digit(c),
            CharClass::IdentPart => is_ident_part(c),
            CharClass::StringBody => c != '"' && c != '\t' && c != '\n',
            CharClass::CommentBody => c != '\n',
            CharClass::Whitespace => is_whitespace(c),
        }
    }

    /// Whether the class has the character.
    pub fn contains(self, c: char) -> (found: bool)
        ensures
            found == self.holds(c),
    {
        match self {
            CharClass::Skipped => c == ' ' || c == '\t' || c == '\x0c' || c == '\n',
            CharClass::Digit => '0' <= c && c <= '9',
            CharClass::HexDigit => ('0' <= c && c <= '9') || ('a' <= c && c <= 'f') || ('A' <= c
                && c <= 'F'),
            CharClass::IdentPart => ('a' <= c && c <= 'z') || ('A' <= c && c <= 'Z') || c == '_'
                || ('0' <= c && c <= '9'),
            CharClass::StringBody => c != '"' && c != '\t' && c != '\n',
            CharClass::CommentBody => c != '\n',
            CharClass::Whitespace => ('\t' <= c && c <= '\r') || c == ' ' || c == '\u{85}' || c
                == '\u{a0}' || c == '\u{1680}' || ('\u{2000}' <= c && c <= '\u{200a}') || c
                == '\u{2028}' || c == '\u{2029}' || c == '\u{202f}' || c == '\u{205f}' || c
                == '\u{3000}',
        }
    }
}

/// Where the run of characters of `class` that starts at `from` ends: the
/// first position at or after `from` that holds no character of the class.
pub open spec fn run_end(text: Seq<char>, from: int, class: CharClass) -> int
    decreases text.len() - from,
{
    if 0 <= from < text.len() && class.holds(text[from]) {
        run_end(text, from + 1, class)
    } else {
        from
    }
}

/// A run ends within the text, holds characters of its class only, and
/// stops before a character of another class or at the end of the text.
pub proof fn lemma_run_end(text: Seq<char>, from: int, class: CharClass)
    requires
        0 <= from <= text.len(),
    ensures
        from <= run_end(text, from, class) <= text.len(),
        forall|i: int| from <= i < run_end(text, from, class) ==> class.holds(#[trigger] text[i]),
        run_end(text, from, class) < text.len() ==> !class.holds(
            text[run_end(text, from, class)],
        ),
    decreases text.len() - from,
{
    if from < text.len() && class.holds(text[from]) {
        lemma_run_end(text, from + 1, class);
    }
}

/// A run ends where it is known to: after characters of the class only, at
/// the end of the text or before a character that is not of the class.
pub proof fn lemma_run_end_is(text: Seq<char>, from: int, class: CharClass, end: int)
    requires
        0 <= from <= end <= text.len(),
        forall|i: int| from <= i < end ==> class.holds(#[trigger] text[i]),
        end < text.len() ==> !class.holds(text[end]),
    ensures
        run_end(text, from, class) == end,
    decreases end - from,
{
    if from < end {
        lemma_run_end_is(text, from + 1, class, end);
    }
}

/// Finds the end of the run of characters of `class` that starts at `from`.
pub fn scan_run(text: &Vec<char>, from: usize, class: CharClass) -> (end: usize)
    requires
        from <= text@.len(),
    ensures
        end == run_end(text@, from as int, class),
        from <= end <= text@.len(),
{
    let mut end = from;
    while end < text.len() && class.contains(text[end])
        invariant
            from <= end <= text@.len(),
            forall|i: int| from <= i < end ==> class.holds(#[trigger] text@[i]),
        decreases text@.len() - end,
    {
        end += 1;
    }
    proof {
        lemma_run_end_is(text@, from as int, class, end as int);
    }
    end
}

/// Where the number whose digits start at `from` ends: after the digits,
/// and after the fraction where a `.` and a digit follow them.
pub open spec fn number_end(text: Seq<char>, from: int) -> int {
    let whole = run_end(text, from, CharClass::Digit);
    if whole + 1 < text.len() && text[whole] == '.' && is_digit(text[whole + 1]) {
        run_end(text, whole + 1, CharClass::Digit)
    } else {
        whole
    }
}

/// Whether a hexadecimal literal starts at `start`: `0`, `x` or `X`, and a
/// hexadecimal digit.
pub open spec fn hex_starts(text: Seq<char>, start: int) -> bool {
    &&& start + 2 < text.len()
    &&& text[start] == '0'
    &&& (text[start + 1] == 'x' || text[start + 1] == 'X')
    &&& is_hex_digit(text[start + 2])
}

/// Whether the character at `at` is there and is `c`.
pub open spec fn has_char(text: Seq<char>, at: int, c: char) -> bool {
    0 <= at < text.len() && text[at] == c
}

/// Where the string literal that opens at `start` would close: the first
/// position after the quote that holds no character of a string's body.
pub open spec fn string_body_end(text: Seq<char>, start: int) -> int {
    run_end(text, start + 1, CharClass::StringBody)
}

/// Where what starts at `start` ends, for a position that holds a character
/// that is not skipped. A lexeme is as long as it can be. What is no
/// lexeme is one character, or a quote with the string body after it where
/// no quote closes the string.
pub open spec fn lexeme_end(text: Seq<char>, start: int) -> int {
    let c = text[start];
    if c == '"' {
        let body = string_body_end(text, start);
        if has_char(text, body, '"') {
            body + 1
        } else {
            body
        }
    } else if hex_starts(text, start) {
        run_end(text, start + 2, CharClass::HexDigit)
    } else if is_digit(c) {
        number_end(text, start)
    } else if c == '-' && start + 1 < text.len() && is_digit(text[start + 1]) {
        number_end(text, start + 1)
    } else if c == '/' && has_char(text, start + 1, '/') {
        run_end(text, start + 2, CharClass::CommentBody)
    } else if c == '*' && has_char(text, start + 1, '*') {
        start + 2
    } else if is_ident_start(c) {
        run_end(text, start + 1, CharClass::IdentPart)
    } else {
        start + 1
    }
}

/// The token that a character alone is, `Error` where it is none.
pub open spec fn symbol_token(c: char) -> TokenView {
    if c == '+' {
        TokenView::ArithmeticOperator(NaskoArithmetic::Add)
    } else if c == '-' {
        TokenView::ArithmeticOperator(NaskoArithmetic::Subtract)
    } else if c == '/' {
        TokenView::ArithmeticOperator(NaskoArithmetic::Divide)
    } else if c == '*' {
        TokenView::ArithmeticOperator(NaskoArithmetic::Multiply)
    } else if c == '%' {
        TokenView::ArithmeticOperator(NaskoArithmetic::Modulo)
    } else if c == '{' {
        TokenView::BlockOpen
    } else if c == '}' {
        TokenView::BlockClose
    } else if c == '[' {
        TokenView::SubscriptOpen
    } else if c == ']' {
        TokenView::SubscriptClose
    } else if c == '(' {
        TokenView::ParenOpen
    } else if c == ')' {
        TokenView::ParenClose
    } else if c == ',' {
        TokenView::Comma
    } else if c == '.' {
        TokenView::Dot
    } else if c == ';' {
        TokenView::Semicolon
    } else if c == ':' {
        TokenView::Colon
    } else if c == '=' {
        TokenView::Eq
    } else {
        TokenView::Error
    }
}

/// The token that a word is: a boolean literal, a keyword or a primitive
/// type where it is spelled like one, an identifier otherwise.
pub open spec fn word_token(word: Seq<char>) -> TokenView {
    if word == seq!['t', 'r', 'u', 'e'] {
        TokenView::LiteralBoolean(true)
    } else if word == seq!['f', 'a', 'l', 's', 'e'] {
        TokenView::LiteralBoolean(false)
    } else if keyword_named(word) is Some {
        TokenView::Keyword(keyword_named(word)->0)
    } else if type_of(word) != NaskoType::Unknown {
        TokenView::TypeAnnotation(type_of(word))
    } else {
        TokenView::Ident(word)
    }
}

/// The value of a hexadecimal digit.
pub open spec fn hex_digit_value(c: char) -> int {
    if is_digit(c) {
        c as u32 - '0' as u32
    } else if 'a' <= c <= 'f' {
        c as u32 - 'a' as u32 + 10
    } else {
        c as u32 - 'A' as u32 + 10
    }
}

/// The number that hexadecimal digits write, most significant first.
pub open spec fn hex_value(digits: Seq<char>) -> int
    decreases digits.len(),
{
    if digits.len() == 0 {
        0
    } else {
        hex_value(digits.drop_last()) * 16 + hex_digit_value(digits.last())
    }
}

/// A text without the white space at its start.
pub open spec fn trim_start(text: Seq<char>) -> Seq<char>
    decreases text.len(),
{
    if text.len() > 0 && is_whitespace(text[0]) {
        trim_start(text.drop_first())
    } else {
        text
    }
}

/// A text without the white space at its end.
pub open spec fn trim_end(text: Seq<char>) -> Seq<char>
    decreases text.len(),
{
    if text.len() > 0 && is_whitespace(text.last()) {
        trim_end(text.drop_last())
    } else {
        text
    }
}

/// A text without the white space around it.
pub open spec fn trim(text: Seq<char>) -> Seq<char> {
    trim_end(trim_start(text))
}

/// What `trim_start` takes away is white space, and it stops at the first
/// character that is none.
pub proof fn lemma_trim_start(text: Seq<char>)
    ensures
        ({
            let cut = text.len() - trim_start(text).len();
            &&& 0 <= cut <= text.len()
            &&& trim_start(text) == text.skip(cut)
            &&& forall|i: int| 0 <= i < cut ==> is_whitespace(#[trigger] text[i])
            &&& cut < text.len() ==> !is_whitespace(text[cut])
        }),
    decreases text.len(),
{
    if text.len() > 0 && is_whitespace(text[0]) {
        let rest = text.drop_first();
        lemma_trim_start(rest);
        let cut = rest.len() - trim_start(rest).len();
        assert(rest.skip(cut) =~= text.skip(cut + 1));
        assert forall|i: int| 0 <= i < cut + 1 implies is_whitespace(#[trigger] text[i]) by {
            if i > 0 {
                assert(text[i] == rest[i - 1]);
            }
        }
        if cut + 1 < text.len() {
            assert(text[cut + 1] == rest[cut]);
        }
    } else {
        assert(text.skip(0) =~= text);
    }
}

/// What `trim_end` takes away is white space, and it stops at the last
/// character that is none.
pub proof fn lemma_trim_end(text: Seq<char>)
    ensures
        ({
            let keep = trim_end(text).len() as int;
            &&& 0 <= keep <= text.len()
            &&& trim_end(text) == text.take(keep)
            &&& forall|i: int| keep <= i < text.len() ==> is_whitespace(#[trigger] text[i])
            &&& keep > 0 ==> !is_whitespace(text[keep - 1])
        }),
    decreases text.len(),
{
    if text.len() > 0 && is_whitespace(text.last()) {
        let rest = text.drop_last();
        lemma_trim_end(rest);
        let keep = trim_end(rest).len() as int;
        assert(rest.take(keep) =~= text.take(keep));
        assert forall|i: int| keep <= i < text.len() implies is_whitespace(#[trigger] text[i]) by {
            if i < rest.len() {
                assert(text[i] == rest[i]);
            }
        }
        if keep > 0 {
            assert(text[keep - 1] == rest[keep - 1]);
        }
    } else {
        assert(text.take(text.len() as int) =~= text);
    }
}

/// Trimming keeps the part of a text from its first character that is no
/// white space to its last one, and takes away white space only. What it
/// keeps neither starts nor ends with white space.
pub proof fn lemma_trim(text: Seq<char>)
    ensures
        ({
            let from = text.len() - trim_start(text).len();
            let to = from + trim(text).len();
            &&& 0 <= from <= to <= text.len()
            &&& trim(text) == text.subrange(from, to)
            &&& forall|i: int| 0 <= i < from || to <= i < text.len() ==> is_whitespace(
                #[trigger] text[i],
            )
            &&& from < to ==> !is_whitespace(text[from]) && !is_whitespace(text[to - 1])
        }),
{
    lemma_trim_start(text);
    let from = text.len() - trim_start(text).len();
    let rest = text.skip(from);
    lemma_trim_end(rest);
    let keep = trim_end(rest).len() as int;
    assert(rest.take(keep) =~= text.subrange(from, from + keep));
    assert forall|i: int| from + keep <= i < text.len() implies is_whitespace(
        #[trigger] text[i],
    ) by {
        assert(text[i] == rest[i - from]);
    }
    if keep > 0 {
        assert(rest[keep - 1] == text[from + keep - 1]);
        assert(rest[0] == text[from]);
    }
}

/// What the scanner finds at a position.
pub ghost enum Scanned {
    Token(TokenView),
    /// A hexadecimal literal whose value does not fit 64 signed bits.
    HexOutOfRange,
}

/// Whether a quote closes the string that opens at `start`.
pub open spec fn string_closes(text: Seq<char>, start: int) -> bool {
    has_char(text, string_body_end(text, start), '"')
}

/// What the scanner finds at `start`, a position that holds a character
/// that is not skipped.
pub open spec fn scanned_at(text: Seq<char>, start: int) -> Scanned {
    let c = text[start];
    let end = lexeme_end(text, start);
    let lexeme = text.subrange(start, end);
    if c == '"' {
        if string_closes(text, start) {
            Scanned::Token(TokenView::LiteralString(lexeme))
        } else {
            Scanned::Token(TokenView::Error)
        }
    } else if hex_starts(text, start) {
        let value = hex_value(text.subrange(start + 2, end));
        if value <= i64::MAX {
            Scanned::Token(TokenView::LiteralHex(value))
        } else {
            Scanned::HexOutOfRange
        }
    } else if is_digit(c) || (c == '-' && end - start > 1) {
        Scanned::Token(TokenView::LiteralNumber(lexeme))
    } else if c == '/' && end - start > 1 {
        Scanned::Token(TokenView::Comment(trim(text.subrange(start + 2, end))))
    } else if c == '*' && end - start > 1 {
        Scanned::Token(TokenView::ArithmeticOperator(NaskoArithmetic::Power))
    } else if is_ident_start(c) {
        Scanned::Token(word_token(lexeme))
    } else {
        Scanned::Token(symbol_token(c))
    }
}

/// The token that a character alone is.
pub fn symbol(c: char) -> (token: NaskoToken)
    ensures
        token@ == symbol_token(c),
{
    if c == '+' {
        NaskoToken::ArithmeticOperator(NaskoArithmetic::Add)
    } else if c == '-' {
        NaskoToken::ArithmeticOperator(NaskoArithmetic::Subtract)
    } else if c == '/' {
        NaskoToken::ArithmeticOperator(NaskoArithmetic::Divide)
    } else if c == '*' {
        NaskoToken::ArithmeticOperator(NaskoArithmetic::Multiply)
    } else if c == '%' {
        NaskoToken::ArithmeticOperator(NaskoArithmetic::Modulo)
    } else if c == '{' {
        NaskoToken::BlockOpen
    } else if c == '}' {
        NaskoToken::BlockClose
    } else if c == '[' {
        NaskoToken::SubscriptOpen
    } else if c == ']' {
        NaskoToken::SubscriptClose
    } else if c == '(' {
        NaskoToken::ParenOpen
    } else if c == ')' {
        NaskoToken::ParenClose
    } else if c == ',' {
        NaskoToken::Comma
    } else if c == '.' {
        NaskoToken::Dot
    } else if c == ';' {
        NaskoToken::Semicolon
    } else if c == ':' {
        NaskoToken::Colon
    } else if c == '=' {
        NaskoToken::Eq
    } else {
        NaskoToken::Error
    }
}

/// The token that a word is.
pub fn word(text: String) -> (token: NaskoToken)
    ensures
        token@ == word_token(text@),
{
    proof {
        reveal_strlit("true");
        reveal_strlit("false");
        assert("true"@ =~= seq!['t', 'r', 'u', 'e']);
        assert("false"@ =~= seq!['f', 'a', 'l', 's', 'e']);
    }
    if str_eq(text.as_str(), "true") {
        NaskoToken::LiteralBoolean(true)
    } else if str_eq(text.as_str(), "false") {
        NaskoToken::LiteralBoolean(false)
    } else {
        match NaskoKeyword::named(text.as_str()) {
            Some(keyword) => NaskoToken::Keyword(keyword),
            None => {
                let ta = NaskoType::parse(text.as_str());
                if ta != NaskoType::Unknown {
                    NaskoToken::TypeAnnotation(ta)
                } else {
                    NaskoToken::Ident(text)
                }
            },
        }
    }
}

/// A longer run of hexadecimal digits writes a number at least as large.
pub proof fn lemma_hex_value_grows(digits: Seq<char>, k: int)
    requires
        0 <= k <= digits.len(),
        forall|i: int| 0 <= i < digits.len() ==> is_hex_digit(#[trigger] digits[i]),
    ensures
        0 <= hex_value(digits.take(k)) <= hex_value(digits),
    decreases digits.len() - k,
{
    if k == digits.len() {
        assert(digits.take(k) =~= digits);
        lemma_hex_value_nonnegative(digits);
    } else {
        lemma_hex_value_grows(digits, k + 1);
        assert(digits.take(k + 1).drop_last() =~= digits.take(k));
        lemma_hex_value_nonnegative(digits.take(k));
    }
}

/// Hexadecimal digits write no negative number.
pub proof fn lemma_hex_value_nonnegative(digits: Seq<char>)
    requires
        forall|i: int| 0 <= i < digits.len() ==> is_hex_digit(#[trigger] digits[i]),
    ensures
        0 <= hex_value(digits),
    decreases digits.len(),
{
    if digits.len() > 0 {
        lemma_hex_value_nonnegative(digits.drop_last());
    }
}

/// The value of the hexadecimal digits from `from` up to `to`, or `None`
/// where it does not fit 64 signed bits.
pub fn hex_number(text: &Vec<char>, from: usize, to: usize) -> (value: Option<i64>)
    requires
        from <= to <= text@.len(),
        forall|i: int| from <= i < to ==> is_hex_digit(#[trigger] text@[i]),
    ensures
        match value {
            Some(v) => hex_value(text@.subrange(from as int, to as int)) == v,
            None => hex_value(text@.subrange(from as int, to as int)) > i64::MAX,
        },
{
    let ghost digits = text@.subrange(from as int, to as int);
    let mut acc: i64 = 0;
    let mut i = from;
    while i < to
        invariant
            from <= i <= to <= text@.len(),
            digits == text@.subrange(from as int, to as int),
            forall|j: int| from <= j < to ==> is_hex_digit(#[trigger] text@[j]),
            0 <= acc,
            acc == hex_value(digits.take(i - from)),
        decreases to - i,
    {
        let c = text[i];
        let digit: i64 = if '0' <= c && c <= '9' {
            (c as u32 - '0' as u32) as i64
        } else if 'a' <= c && c <= 'f' {
            (c as u32 - 'a' as u32 + 10) as i64
        } else {
            (c as u32 - 'A' as u32 + 10) as i64
        };
        proof {
            assert(digits.take(i - from + 1).drop_last() =~= digits.take(i - from));
            assert(digits.take(i - from + 1).last() == c);
            assert(hex_value(digits.take(i - from + 1)) == acc * 16 + digit);
        }
        if acc > (i64::MAX - digit) / 16 {
            proof {
                lemma_hex_value_grows(digits, i - from + 1);
            }
            return None;
        }
        acc = acc * 16 + digit;
        i += 1;
    }
    assert(digits.take(to - from) =~= digits);
    Some(acc)
}

/// The text from `from` up to `to` without the white space around it.
pub fn trimmed(text: &Vec<char>, from: usize, to: usize) -> (out: String)
    requires
        from <= to <= text@.len(),
    ensures
        out@ == trim(text@.subrange(from as int, to as int)),
{
    let mut first = from;
    while first < to && CharClass::Whitespace.contains(text[first])
        invariant
            from <= first <= to <= text@.len(),
            trim_start(text@.subrange(from as int, to as int)) == trim_start(
                text@.subrange(first as int, to as int),
            ),
        decreases to - first,
    {
        assert(text@.subrange(first as int, to as int).drop_first() =~= text@.subrange(
            first as int + 1,
            to as int,
        ));
        first += 1;
    }
    let mut last = to;
    while last > first && CharClass::Whitespace.contains(text[last - 1])
        invariant
            first <= last <= to <= text@.len(),
            trim_end(text@.subrange(first as int, to as int)) == trim_end(
                text@.subrange(first as int, last as int),
            ),
        decreases last - first,
    {
        assert(text@.subrange(first as int, last as int).drop_last() =~= text@.subrange(
            first as int,
            last as int - 1,
        ));
        last -= 1;
    }
    text_between(text, first, last)
}

/// A string literal: a quote, characters of a string's body, a quote.
pub open spec fn is_string_literal(lexeme: Seq<char>) -> bool {
    &&& lexeme.len() >= 2
    &&& lexeme[0] == '"'
    &&& lexeme[lexeme.len() - 1] == '"'
    &&& forall|i: int|
        1 <= i < lexeme.len() - 1 ==> CharClass::StringBody.holds(#[trigger] lexeme[i])
}

/// A hexadecimal literal: `0x` or `0X`, then one hexadecimal digit or more.
pub open spec fn is_hex_literal(lexeme: Seq<char>) -> bool {
    &&& lexeme.len() >= 3
    &&& lexeme[0] == '0'
    &&& (lexeme[1] == 'x' || lexeme[1] == 'X')
    &&& forall|i: int| 2 <= i < lexeme.len() ==> is_hex_digit(#[trigger] lexeme[i])
}

/// Whether the characters from `from` up to `to` are digits, and at least one.
pub open spec fn digits_between(lexeme: Seq<char>, from: int, to: int) -> bool {
    &&& 0 <= from < to <= lexeme.len()
    &&& forall|i: int| from <= i < to ==> is_digit(#[trigger] lexeme[i])
}

/// Whether the lexeme, from `from` on, is digits, or digits, a `.` at
/// `dot` and digits.
pub open spec fn is_decimal_from(lexeme: Seq<char>, from: int, dot: int) -> bool {
    if dot == lexeme.len() {
        digits_between(lexeme, from, dot)
    } else {
        &&& digits_between(lexeme, from, dot)
        &&& lexeme[dot] == '.'
        &&& digits_between(lexeme, dot + 1, lexeme.len() as int)
    }
}

/// Whether the lexeme is a decimal with its `.`, if it has one, at `dot`:
/// an optional `-`, digits, and optionally the `.` and digits.
pub open spec fn is_decimal_at(lexeme: Seq<char>, dot: int) -> bool {
    ||| is_decimal_from(lexeme, 0, dot)
    ||| (lexeme.len() > 0 && lexeme[0] == '-' && is_decimal_from(lexeme, 1, dot))
}

/// A decimal literal: an optional `-`, digits, and optionally a `.` and
/// digits.
pub open spec fn is_number_literal(lexeme: Seq<char>) -> bool {
    exists|dot: int| #[trigger] is_decimal_at(lexeme, dot)
}

/// A comment: `//` and the rest of the line.
pub open spec fn is_comment(lexeme: Seq<char>) -> bool {
    &&& lexeme.len() >= 2
    &&& lexeme[0] == '/'
    &&& lexeme[1] == '/'
    &&& forall|i: int| 2 <= i < lexeme.len() ==> CharClass::CommentBody.holds(#[trigger] lexeme[i])
}

/// A word: a letter or an underscore, then letters, digits and
/// underscores. Boolean literals, keywords, primitive types and
/// identifiers are words.
pub open spec fn is_word(lexeme: Seq<char>) -> bool {
    &&& lexeme.len() >= 1
    &&& is_ident_start(lexeme[0])
    &&& forall|i: int| 1 <= i < lexeme.len() ==> is_ident_part(#[trigger] lexeme[i])
}

/// An operator or a punctuation mark.
pub open spec fn is_symbol(lexeme: Seq<char>) -> bool {
    ||| lexeme.len() == 1 && symbol_token(lexeme[0]) != TokenView::Error
    ||| lexeme.len() == 2 && lexeme[0] == '*' && lexeme[1] == '*'
}

/// Whether some rule of the grammar takes the whole of `lexeme`.
pub open spec fn is_lexeme(lexeme: Seq<char>) -> bool {
    ||| is_string_literal(lexeme)
    ||| is_hex_literal(lexeme)
    ||| is_number_literal(lexeme)
    ||| is_comment(lexeme)
    ||| is_word(lexeme)
    ||| is_symbol(lexeme)
}

/// Whether `lexeme` is taken by the rule of what was scanned. What is
/// scanned as `Error` is taken by no rule.
pub open spec fn matches_rule(item: Scanned, lexeme: Seq<char>) -> bool {
    match item {
        Scanned::HexOutOfRange => is_hex_literal(lexeme),
        Scanned::Token(token) => match token {
            TokenView::Error => !is_lexeme(lexeme),
            TokenView::LiteralString(text) => is_string_literal(lexeme) && text == lexeme,
            TokenView::LiteralHex(value) => is_hex_literal(lexeme) && value == hex_value(
                lexeme.skip(2),
            ),
            TokenView::LiteralNumber(text) => is_number_literal(lexeme) && text == lexeme,
            TokenView::Comment(text) => is_comment(lexeme) && text == trim(lexeme.skip(2)),
            TokenView::LiteralBoolean(_) | TokenView::Keyword(_) | TokenView::TypeAnnotation(_) => {
                is_word(lexeme) && token == word_token(lexeme)
            },
            TokenView::Ident(name) => is_word(lexeme) && name == lexeme,
            _ => is_symbol(lexeme),
        },
    }
}

/// Where the digits that start at `from` end, given that they do start.
proof fn lemma_number_end(text: Seq<char>, from: int)
    requires
        0 <= from < text.len(),
        is_digit(text[from]),
    ensures
        from < number_end(text, from) <= text.len(),
        is_decimal_from(
            text.subrange(from, number_end(text, from)),
            0,
            if number_end(text, from) == run_end(text, from, CharClass::Digit) {
                number_end(text, from) - from
            } else {
                run_end(text, from, CharClass::Digit) - from
            },
        ),
        forall|end: int, dot: int|
            number_end(text, from) < end <= text.len() ==> !#[trigger] is_decimal_from(
                text.subrange(from, end),
                0,
                dot,
            ),
{
    let whole = run_end(text, from, CharClass::Digit);
    lemma_run_end(text, from, CharClass::Digit);
    let last = number_end(text, from);
    if whole + 1 <= text.len() {
        lemma_run_end(text, whole + 1, CharClass::Digit);
    }
    assert forall|end: int, dot: int| last < end <= text.len() implies !#[trigger] is_decimal_from(
        text.subrange(from, end),
        0,
        dot,
    ) by {
        let longer = text.subrange(from, end);
        if is_decimal_from(longer, 0, dot) {
            assert(0 < dot <= longer.len());
            if dot > whole - from {
                assert(is_digit(longer[whole - from]));
            } else if dot < whole - from {
                assert(dot < longer.len());
                assert(is_digit(text[from + dot]));
            } else {
                assert(dot < longer.len());
                assert(is_digit(longer[dot + 1]));
                if last != whole {
                    assert(is_digit(longer[last - from]));
                }
            }
        }
    }
}

/// What is scanned at a position is taken by its rule, and nothing longer
/// that starts there is taken by any rule: a lexeme is as long as it can
/// be. Where the scanner finds `Error`, nothing that starts there is a
/// lexeme.
pub proof fn lemma_maximal_munch(text: Seq<char>, start: int)
    requires
        0 <= start < text.len(),
        !CharClass::Skipped.holds(text[start]),
    ensures
        start < lexeme_end(text, start) <= text.len(),
        matches_rule(scanned_at(text, start), text.subrange(start, lexeme_end(text, start))),
        forall|end: int|
            lexeme_end(text, start) < end <= text.len() ==> !is_lexeme(
                #[trigger] text.subrange(start, end),
            ),
        scanned_at(text, start) == Scanned::Token(TokenView::Error) ==> forall|end: int|
            start < end <= text.len() ==> !is_lexeme(#[trigger] text.subrange(start, end)),
{
    let c = text[start];
    if c == '"' {
        lemma_string_munch(text, start);
    } else if hex_starts(text, start) {
        lemma_hex_munch(text, start);
    } else if is_digit(c) {
        lemma_digit_munch(text, start);
    } else if c == '-' {
        lemma_minus_munch(text, start);
    } else if c == '/' {
        lemma_slash_munch(text, start);
    } else if is_ident_start(c) {
        lemma_word_munch(text, start);
    } else {
        lemma_symbol_munch(text, start);
    }
}

/// Maximal munch at a quote.
proof fn lemma_string_munch(text: Seq<char>, start: int)
    requires
        0 <= start < text.len(),
        text[start] == '"',
    ensures
        start < lexeme_end(text, start) <= text.len(),
        matches_rule(scanned_at(text, start), text.subrange(start, lexeme_end(text, start))),
        forall|end: int|
            lexeme_end(text, start) < end <= text.len() ==> !is_lexeme(
                #[trigger] text.subrange(start, end),
            ),
        scanned_at(text, start) == Scanned::Token(TokenView::Error) ==> forall|end: int|
            start < end <= text.len() ==> !is_lexeme(#[trigger] text.subrange(start, end)),
{
    let body = string_body_end(text, start);
    lemma_run_end(text, start + 1, CharClass::StringBody);
    let last = lexeme_end(text, start);
    assert forall|end: int| start < end <= text.len() && is_lexeme(
        #[trigger] text.subrange(start, end),
    ) implies end == body + 1 && string_closes(text, start) by {
        let longer = text.subrange(start, end);
        assert(longer[0] == '"');
        if is_number_literal(longer) {
            let dot = choose|dot: int| #[trigger] is_decimal_at(longer, dot);
            assert(is_digit(longer[0]));
        }
        assert(is_string_literal(longer));
        assert(longer[end - start - 1] == text[end - 1]);
        if end - 1 < body {
            assert(CharClass::StringBody.holds(text[end - 1]));
        } else if end - 1 > body {
            assert(CharClass::StringBody.holds(longer[body - start]));
        }
    }
    if string_closes(text, start) {
        let lexeme = text.subrange(start, last);
        assert(is_string_literal(lexeme));
    }
}

/// Maximal munch where a hexadecimal literal starts.
proof fn lemma_hex_munch(text: Seq<char>, start: int)
    requires
        0 <= start < text.len(),
        hex_starts(text, start),
    ensures
        start < lexeme_end(text, start) <= text.len(),
        matches_rule(scanned_at(text, start), text.subrange(start, lexeme_end(text, start))),
        forall|end: int|
            lexeme_end(text, start) < end <= text.len() ==> !is_lexeme(
                #[trigger] text.subrange(start, end),
            ),
        scanned_at(text, start) != Scanned::Token(TokenView::Error),
{
    let last = lexeme_end(text, start);
    lemma_run_end(text, start + 2, CharClass::HexDigit);
    let lexeme = text.subrange(start, last);
    assert(is_hex_literal(lexeme));
    assert(lexeme.skip(2) =~= text.subrange(start + 2, last));
    assert forall|end: int| last < end <= text.len() implies !is_lexeme(
        #[trigger] text.subrange(start, end),
    ) by {
        let longer = text.subrange(start, end);
        assert(longer[0] == '0' && longer[1] == text[start + 1]);
        if is_number_literal(longer) {
            let dot = choose|dot: int| #[trigger] is_decimal_at(longer, dot);
            assert(is_decimal_from(longer, 0, dot));
            if dot > 1 {
                assert(is_digit(longer[1]));
            }
        }
        if is_hex_literal(longer) {
            assert(is_hex_digit(longer[last - start]));
        }
    }
}

/// Maximal munch at a digit that starts no hexadecimal literal.
proof fn lemma_digit_munch(text: Seq<char>, start: int)
    requires
        0 <= start < text.len(),
        is_digit(text[start]),
        !hex_starts(text, start),
    ensures
        start < lexeme_end(text, start) <= text.len(),
        matches_rule(scanned_at(text, start), text.subrange(start, lexeme_end(text, start))),
        forall|end: int|
            lexeme_end(text, start) < end <= text.len() ==> !is_lexeme(
                #[trigger] text.subrange(start, end),
            ),
        scanned_at(text, start) != Scanned::Token(TokenView::Error),
{
    let last = lexeme_end(text, start);
    lemma_number_end(text, start);
    let lexeme = text.subrange(start, last);
    let whole = run_end(text, start, CharClass::Digit);
    assert(is_decimal_at(
        lexeme,
        if last == whole {
            last - start
        } else {
            whole - start
        },
    ));
    assert forall|end: int| last < end <= text.len() implies !is_lexeme(
        #[trigger] text.subrange(start, end),
    ) by {
        let longer = text.subrange(start, end);
        assert(longer[0] == text[start]);
        if is_hex_literal(longer) {
            assert(longer[1] == text[start + 1]);
            assert(is_hex_digit(longer[2]));
        }
        if is_number_literal(longer) {
            let dot = choose|dot: int| #[trigger] is_decimal_at(longer, dot);
            assert(is_decimal_from(longer, 0, dot));
        }
    }
}

/// Maximal munch at a `-`.
proof fn lemma_minus_munch(text: Seq<char>, start: int)
    requires
        0 <= start < text.len(),
        text[start] == '-',
    ensures
        start < lexeme_end(text, start) <= text.len(),
        matches_rule(scanned_at(text, start), text.subrange(start, lexeme_end(text, start))),
        forall|end: int|
            lexeme_end(text, start) < end <= text.len() ==> !is_lexeme(
                #[trigger] text.subrange(start, end),
            ),
        scanned_at(text, start) != Scanned::Token(TokenView::Error),
{
    let last = lexeme_end(text, start);
    if start + 1 < text.len() && is_digit(text[start + 1]) {
        lemma_number_end(text, start + 1);
        let lexeme = text.subrange(start, last);
        let digits = text.subrange(start + 1, last);
        let whole = run_end(text, start + 1, CharClass::Digit);
        let dot = if last == whole {
            last - start - 1
        } else {
            whole - start - 1
        };
        assert(is_decimal_from(digits, 0, dot));
        assert(digits =~= lexeme.drop_first());
        lemma_decimal_after_sign(lexeme, digits, dot);
    } else {
        assert(is_symbol(text.subrange(start, last)));
    }
    assert forall|end: int| last < end <= text.len() implies !is_lexeme(
        #[trigger] text.subrange(start, end),
    ) by {
        let longer = text.subrange(start, end);
        assert(longer[0] == '-');
        assert(longer[1] == text[start + 1]);
        if is_number_literal(longer) {
            let dot = choose|dot: int| #[trigger] is_decimal_at(longer, dot);
            if is_decimal_from(longer, 0, dot) {
                assert(is_digit(longer[0]));
            }
            let digits = text.subrange(start + 1, end);
            assert(digits =~= longer.drop_first());
            lemma_decimal_without_sign(longer, digits, dot);
            assert(is_digit(digits[0]));
        }
    }
}

/// A decimal behind a `-` is one from the second character on.
proof fn lemma_decimal_after_sign(lexeme: Seq<char>, digits: Seq<char>, dot: int)
    requires
        lexeme.len() > 0,
        digits == lexeme.drop_first(),
        is_decimal_from(digits, 0, dot),
    ensures
        is_decimal_from(lexeme, 1, dot + 1),
        lexeme[0] == '-' ==> is_number_literal(lexeme),
{
    assert forall|i: int| 1 <= i < lexeme.len() implies #[trigger] lexeme[i] == digits[i - 1] by {}
    assert forall|i: int| 1 <= i < dot + 1 implies is_digit(#[trigger] lexeme[i]) by {
        assert(is_digit(digits[i - 1]));
    }
    if dot != digits.len() {
        assert forall|i: int| dot + 2 <= i < lexeme.len() implies is_digit(
            #[trigger] lexeme[i],
        ) by {
            assert(is_digit(digits[i - 1]));
        }
    }
    if lexeme[0] == '-' {
        assert(is_decimal_at(lexeme, dot + 1));
    }
}

/// A decimal from the second character on is one without the first.
proof fn lemma_decimal_without_sign(lexeme: Seq<char>, digits: Seq<char>, dot: int)
    requires
        lexeme.len() > 0,
        digits == lexeme.drop_first(),
        is_decimal_from(lexeme, 1, dot),
    ensures
        is_decimal_from(digits, 0, dot - 1),
{
    assert forall|i: int| 0 <= i < digits.len() implies #[trigger] digits[i] == lexeme[i + 1] by {}
    assert forall|i: int| 0 <= i < dot - 1 implies is_digit(#[trigger] digits[i]) by {
        assert(is_digit(lexeme[i + 1]));
    }
    if dot != lexeme.len() {
        assert forall|i: int| dot <= i < digits.len() implies is_digit(#[trigger] digits[i]) by {
            assert(is_digit(lexeme[i + 1]));
        }
    }
}

/// Maximal munch at a `/`.
proof fn lemma_slash_munch(text: Seq<char>, start: int)
    requires
        0 <= start < text.len(),
        text[start] == '/',
    ensures
        start < lexeme_end(text, start) <= text.len(),
        matches_rule(scanned_at(text, start), text.subrange(start, lexeme_end(text, start))),
        forall|end: int|
            lexeme_end(text, start) < end <= text.len() ==> !is_lexeme(
                #[trigger] text.subrange(start, end),
            ),
        scanned_at(text, start) != Scanned::Token(TokenView::Error),
{
    let last = lexeme_end(text, start);
    let lexeme = text.subrange(start, last);
    if has_char(text, start + 1, '/') {
        lemma_run_end(text, start + 2, CharClass::CommentBody);
        assert(is_comment(lexeme));
        assert(lexeme.skip(2) =~= text.subrange(start + 2, last));
    } else {
        assert(is_symbol(lexeme));
    }
    assert forall|end: int| last < end <= text.len() implies !is_lexeme(
        #[trigger] text.subrange(start, end),
    ) by {
        let longer = text.subrange(start, end);
        assert(longer[0] == '/');
        assert(longer[1] == text[start + 1]);
        if is_number_literal(longer) {
            let dot = choose|dot: int| #[trigger] is_decimal_at(longer, dot);
            assert(is_digit(longer[0]));
        }
        if is_comment(longer) {
            assert(CharClass::CommentBody.holds(longer[last - start]));
        }
    }
}

/// Maximal munch at a letter or an underscore.
proof fn lemma_word_munch(text: Seq<char>, start: int)
    requires
        0 <= start < text.len(),
        is_ident_start(text[start]),
    ensures
        start < lexeme_end(text, start) <= text.len(),
        matches_rule(scanned_at(text, start), text.subrange(start, lexeme_end(text, start))),
        forall|end: int|
            lexeme_end(text, start) < end <= text.len() ==> !is_lexeme(
                #[trigger] text.subrange(start, end),
            ),
        scanned_at(text, start) != Scanned::Token(TokenView::Error),
{
    let last = lexeme_end(text, start);
    lemma_run_end(text, start + 1, CharClass::IdentPart);
    let lexeme = text.subrange(start, last);
    assert(is_word(lexeme));
    assert forall|end: int| last < end <= text.len() implies !is_lexeme(
        #[trigger] text.subrange(start, end),
    ) by {
        let longer = text.subrange(start, end);
        assert(longer[0] == text[start]);
        if is_number_literal(longer) {
            let dot = choose|dot: int| #[trigger] is_decimal_at(longer, dot);
            assert(is_digit(longer[0]));
        }
        if is_word(longer) {
            assert(is_ident_part(longer[last - start]));
        }
    }
}

/// Maximal munch at any other character.
proof fn lemma_symbol_munch(text: Seq<char>, start: int)
    requires
        0 <= start < text.len(),
        !CharClass::Skipped.holds(text[start]),
        text[start] != '"',
        !is_digit(text[start]),
        text[start] != '-',
        text[start] != '/',
        !is_ident_start(text[start]),
    ensures
        start < lexeme_end(text, start) <= text.len(),
        matches_rule(scanned_at(text, start), text.subrange(start, lexeme_end(text, start))),
        forall|end: int|
            lexeme_end(text, start) < end <= text.len() ==> !is_lexeme(
                #[trigger] text.subrange(start, end),
            ),
        scanned_at(text, start) == Scanned::Token(TokenView::Error) ==> forall|end: int|
            start < end <= text.len() ==> !is_lexeme(#[trigger] text.subrange(start, end)),
{
    let c = text[start];
    let last = lexeme_end(text, start);
    let lexeme = text.subrange(start, last);
    assert(lexeme[0] == c);
    assert forall|end: int| start < end <= text.len() && is_lexeme(
        #[trigger] text.subrange(start, end),
    ) implies end <= last && symbol_token(c) != TokenView::Error by {
        let longer = text.subrange(start, end);
        assert(longer[0] == c);
        if is_number_literal(longer) {
            let dot = choose|dot: int| #[trigger] is_decimal_at(longer, dot);
            assert(is_digit(longer[0]));
        }
        assert(is_symbol(longer));
        if longer.len() == 2 {
            assert(longer[1] == text[start + 1]);
        }
    }
    if c == '*' && has_char(text, start + 1, '*') {
        assert(is_symbol(lexeme));
    } else if symbol_token(c) != TokenView::Error {
        assert(is_symbol(lexeme));
    } else {
        if is_number_literal(lexeme) {
            let dot = choose|dot: int| #[trigger] is_decimal_at(lexeme, dot);
            assert(is_digit(lexeme[0]));
        }
    }
}

} // verus!
