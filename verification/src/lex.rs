//! Tokens, and what the scanner keeps beside them.

use vstd::prelude::*;
use crate::grammar::{
    hex_number, is_blank, is_lexeme, lemma_maximal_munch, lemma_run_end, lemma_run_end_is,
    lexeme_end, number_end, run_end, scan_run, scanned_at, symbol, trimmed, word, CharClass,
    Scanned,
};
use crate::semantics::{NaskoArithmetic, NaskoKeyword, NaskoType};
use crate::text::{
    byte_len, chars_of, lemma_byte_len_monotone, lemma_byte_len_step, text_between, utf8_width,
};

verus! {

/// A byte range of the source text: `start` is the first byte, `end` the one
/// after the last.
#[derive(Debug, PartialEq, Eq, Clone, Copy, Structural)]
pub struct Span {
    pub start: usize,
    pub end: usize,
}

/// What the scanner counts while it skips blank characters.
#[derive(Debug, PartialEq, Eq)]
pub struct NaskoExtras {
    /// The byte offset of each line break, in the order met.
    pub line_caps: Vec<usize>,
    /// How many line breaks were skipped.
    pub line_breaks: usize,
    /// How many spaces, tabs and form feeds were skipped, one by one.
    pub spaces: usize,
}

impl Default for NaskoExtras {
    fn default() -> (extras: NaskoExtras)
        ensures
            extras.line_caps@ == Seq::<usize>::empty(),
            extras.line_breaks == 0,
            extras.spaces == 0,
    {
        NaskoExtras { line_caps: Vec::new(), line_breaks: 0, spaces: 0 }
    }
}

impl NaskoExtras {
    /// The byte offset at which each line starts, as far as `line_caps`
    /// tells: 0 for the first line, and for every line break but the first
    /// the offset just after it.
    pub fn line_heads(&self) -> (heads: Vec<usize>)
        requires
            forall|i: int| 0 <= i < self.line_caps@.len() ==> self.line_caps@[i] < usize::MAX,
        ensures
            heads@.len() == if self.line_caps@.len() == 0 {
                1
            } else {
                self.line_caps@.len()
            },
            heads@[0] == 0,
            forall|i: int| 1 <= i < self.line_caps@.len() ==> heads@[i] == self.line_caps@[i] + 1,
    {
        let mut heads: Vec<usize> = Vec::new();
        heads.push(0);
        let mut i: usize = 1;
        while i < self.line_caps.len()
            invariant
                1 <= i,
                heads@.len() == i,
                i <= self.line_caps@.len() || (self.line_caps@.len() == 0 && i == 1),
                heads@[0] == 0,
                forall|j: int| 1 <= j < i ==> heads@[j] == self.line_caps@[j] + 1,
                forall|j: int|
                    0 <= j < self.line_caps@.len() ==> self.line_caps@[j] < usize::MAX,
            decreases self.line_caps@.len() - i,
        {
            heads.push(self.line_caps[i] + 1);
            i += 1;
        }
        heads
    }
}

/// One lexical unit of the source text.
#[derive(Debug, PartialEq)]
pub enum NaskoToken {
    /// Text that no rule recognises.
    Error,
    /// A string literal, quotes included.
    LiteralString(String),
    /// The value of a hexadecimal literal.
    LiteralHex(i64),
    /// The text of a decimal literal.
    LiteralNumber(String),
    LiteralBoolean(bool),
    /// A line comment, without its marker and the blanks around it.
    Comment(String),
    Keyword(NaskoKeyword),
    ArithmeticOperator(NaskoArithmetic),
    TypeAnnotation(NaskoType),
    Ident(String),
    BlockOpen,
    BlockClose,
    SubscriptOpen,
    SubscriptClose,
    ParenOpen,
    ParenClose,
    Comma,
    Dot,
    Semicolon,
    Colon,
    Eq,
}

/// A token as contracts see it: its text is a sequence of characters.
pub ghost enum TokenView {
    Error,
    LiteralString(Seq<char>),
    LiteralHex(int),
    LiteralNumber(Seq<char>),
    LiteralBoolean(bool),
    Comment(Seq<char>),
    Keyword(NaskoKeyword),
    ArithmeticOperator(NaskoArithmetic),
    TypeAnnotation(NaskoType),
    Ident(Seq<char>),
    BlockOpen,
    BlockClose,
    SubscriptOpen,
    SubscriptClose,
    ParenOpen,
    ParenClose,
    Comma,
    Dot,
    Semicolon,
    Colon,
    Eq,
}

impl View for NaskoToken {
    type V = TokenView;

    open spec fn view(&self) -> TokenView {
        match *self {
            NaskoToken::Error => TokenView::Error,
            NaskoToken::LiteralString(text) => TokenView::LiteralString(text@),
            NaskoToken::LiteralHex(n) => TokenView::LiteralHex(n as int),
            NaskoToken::LiteralNumber(text) => TokenView::LiteralNumber(text@),
            NaskoToken::LiteralBoolean(flag) => TokenView::LiteralBoolean(flag),
            NaskoToken::Comment(text) => TokenView::Comment(text@),
            NaskoToken::Keyword(keyword) => TokenView::Keyword(keyword),
            NaskoToken::ArithmeticOperator(op) => TokenView::ArithmeticOperator(op),
            NaskoToken::TypeAnnotation(ta) => TokenView::TypeAnnotation(ta),
            NaskoToken::Ident(name) => TokenView::Ident(name@),
            NaskoToken::BlockOpen => TokenView::BlockOpen,
            NaskoToken::BlockClose => TokenView::BlockClose,
            NaskoToken::SubscriptOpen => TokenView::SubscriptOpen,
            NaskoToken::SubscriptClose => TokenView::SubscriptClose,
            NaskoToken::ParenOpen => TokenView::ParenOpen,
            NaskoToken::ParenClose => TokenView::ParenClose,
            NaskoToken::Comma => TokenView::Comma,
            NaskoToken::Dot => TokenView::Dot,
            NaskoToken::Semicolon => TokenView::Semicolon,
            NaskoToken::Colon => TokenView::Colon,
            NaskoToken::Eq => TokenView::Eq,
        }
    }
}

/// The one failure of the scanner itself.
#[derive(Debug, PartialEq, Eq, Clone, Copy, Structural)]
pub enum ScanError {
    /// The hexadecimal literal at this span does not fit 64 signed bits.
    HexOutOfRange(Span),
}

/// How many of the characters from `from` up to `to` are blanks that the
/// scanner counts.
pub open spec fn count_blanks(text: Seq<char>, from: int, to: int) -> nat
    decreases to - from,
{
    if from >= to {
        0
    } else {
        count_blanks(text, from, to - 1) + if is_blank(text[to - 1]) {
            1nat
        } else {
            0nat
        }
    }
}

/// The byte offset of each line feed among the characters from `from` up
/// to `to`, in order.
pub open spec fn break_offsets(text: Seq<char>, from: int, to: int) -> Seq<usize>
    decreases to - from,
{
    if from >= to {
        Seq::empty()
    } else if text[to - 1] == '\n' {
        break_offsets(text, from, to - 1).push(byte_len(text.take(to - 1)) as usize)
    } else {
        break_offsets(text, from, to - 1)
    }
}

/// A scanner between two tokens, as contracts see it.
pub ghost struct LexerView {
    /// The whole source text.
    pub text: Seq<char>,
    /// How many characters are behind the scanner: where the current token ends.
    pub position: int,
    /// Where the current token starts.
    pub token_start: int,
    /// How many blanks were skipped so far.
    pub spaces: int,
    /// The byte offset of each line feed skipped so far.
    pub line_caps: Seq<usize>,
}

/// Where the next token starts: after whatever is skipped.
pub open spec fn next_start(view: LexerView) -> int {
    run_end(view.text, view.position, CharClass::Skipped)
}

/// What the next token is; `None` at the end of the text.
pub open spec fn pending(view: LexerView) -> Option<Scanned> {
    if next_start(view) < view.text.len() {
        Some(scanned_at(view.text, next_start(view)))
    } else {
        None
    }
}

/// The scanner after the next token, or at the end of the text.
pub open spec fn advance(view: LexerView) -> LexerView {
    let start = next_start(view);
    LexerView {
        text: view.text,
        position: if start < view.text.len() {
            lexeme_end(view.text, start)
        } else {
            start
        },
        token_start: start,
        spaces: view.spaces + count_blanks(view.text, view.position, start),
        line_caps: view.line_caps + break_offsets(view.text, view.position, start),
    }
}

/// The byte range of the scanner's current token.
pub open spec fn current_span(lexer: LexerView) -> Span {
    Span {
        start: byte_len(lexer.text.take(lexer.token_start)) as usize,
        end: byte_len(lexer.text.take(lexer.position)) as usize,
    }
}

/// The text of the scanner's current token.
pub open spec fn current_slice(lexer: LexerView) -> Seq<char> {
    lexer.text.subrange(lexer.token_start, lexer.position)
}

/// A scanner at the start of a text.
pub open spec fn start_of(text: Seq<char>) -> LexerView {
    LexerView { text, position: 0, token_start: 0, spaces: 0, line_caps: Seq::empty() }
}

/// Every token that the scanner still has, in order; the first
/// hexadecimal literal that is out of range, if there is one, instead.
pub open spec fn scan_all(view: LexerView) -> Result<Seq<TokenView>, ScanError>
    decreases view.text.len() - view.position,
    when 0 <= view.position <= view.text.len()
    via scan_all_decreases
{
    match pending(view) {
        None => Ok(Seq::empty()),
        Some(Scanned::HexOutOfRange) => Err(ScanError::HexOutOfRange(current_span(advance(view)))),
        Some(Scanned::Token(token)) => match scan_all(advance(view)) {
            Ok(rest) => Ok(seq![token] + rest),
            Err(error) => Err(error),
        },
    }
}

#[via_fn]
proof fn scan_all_decreases(view: LexerView) {
    lemma_advance_moves(view);
}

/// The scanner moves on with every token: what it hands out starts at a
/// character that is not skipped, is not empty, and ends within the text.
/// So blanks and line feeds are never part of the start of a token.
pub proof fn lemma_advance_moves(view: LexerView)
    requires
        0 <= view.position <= view.text.len(),
    ensures
        view.position <= advance(view).token_start <= advance(view).position <= view.text.len(),
        pending(view) is Some ==> {
            &&& advance(view).token_start < advance(view).position
            &&& !CharClass::Skipped.holds(view.text[advance(view).token_start])
        },
        pending(view) is None ==> advance(view).position == view.text.len(),
{
    lemma_run_end(view.text, view.position, CharClass::Skipped);
    if next_start(view) < view.text.len() {
        lemma_lexeme_end_bounds(view.text, next_start(view));
    }
}

/// The view of each token of a list, in order.
pub open spec fn tokens_view(tokens: Seq<NaskoToken>) -> Seq<TokenView> {
    Seq::new(tokens.len(), |i: int| tokens[i]@)
}

/// Scanning is a function of the text: whatever two scans of one text
/// return, token by token or as a failure, is the same.
pub proof fn lemma_rescan_equal(
    text: Seq<char>,
    first: Result<Seq<TokenView>, ScanError>,
    second: Result<Seq<TokenView>, ScanError>,
)
    requires
        first == scan_all(start_of(text)),
        second == scan_all(start_of(text)),
    ensures
        first == second,
        first matches Ok(tokens) ==> {
            &&& second->Ok_0.len() == tokens.len()
            &&& forall|i: int| 0 <= i < tokens.len() ==> second->Ok_0[i] == tokens[i]
        },
{
}

/// Where no part of the text is a lexeme, nothing but `Error` tokens are
/// scanned from any place of it.
pub proof fn lemma_only_errors_from(view: LexerView)
    requires
        0 <= view.position <= view.text.len(),
        forall|start: int, end: int|
            0 <= start < end <= view.text.len() ==> !is_lexeme(
                #[trigger] view.text.subrange(start, end),
            ),
    ensures
        scan_all(view) is Ok,
        forall|i: int|
            0 <= i < scan_all(view)->Ok_0.len() ==> scan_all(view)->Ok_0[i] == TokenView::Error,
    decreases view.text.len() - view.position,
{
    lemma_advance_moves(view);
    if pending(view) is Some {
        let start = next_start(view);
        lemma_maximal_munch(view.text, start);
        lemma_only_errors_from(advance(view));
    }
}

/// Where no part of a text is a lexeme, the scan of the text is `Error`
/// tokens only.
pub proof fn lemma_only_errors(text: Seq<char>)
    requires
        forall|start: int, end: int|
            0 <= start < end <= text.len() ==> !is_lexeme(#[trigger] text.subrange(start, end)),
    ensures
        scan_all(start_of(text)) is Ok,
        forall|i: int|
            0 <= i < scan_all(start_of(text))->Ok_0.len() ==> scan_all(start_of(text))->Ok_0[i]
                == TokenView::Error,
{
    lemma_only_errors_from(start_of(text));
}

/// A lexeme is not empty and ends within the text.
pub proof fn lemma_lexeme_end_bounds(text: Seq<char>, start: int)
    requires
        0 <= start < text.len(),
    ensures
        start < lexeme_end(text, start) <= text.len(),
{
    lemma_run_end(text, start + 1, CharClass::StringBody);
    lemma_run_end(text, start + 1, CharClass::IdentPart);
    lemma_run_end(text, start, CharClass::Digit);
    let whole = run_end(text, start, CharClass::Digit);
    if whole + 1 < text.len() {
        lemma_run_end(text, whole + 1, CharClass::Digit);
    }
    if start + 1 < text.len() {
        lemma_run_end(text, start + 1, CharClass::Digit);
        let signed = run_end(text, start + 1, CharClass::Digit);
        if signed + 1 < text.len() {
            lemma_run_end(text, signed + 1, CharClass::Digit);
        }
    }
    if start + 2 <= text.len() {
        lemma_run_end(text, start + 2, CharClass::HexDigit);
        lemma_run_end(text, start + 2, CharClass::CommentBody);
    }
}

/// Finds where the number whose digits start at `from` ends.
fn find_number_end(text: &Vec<char>, from: usize) -> (end: usize)
    requires
        from < text@.len(),
    ensures
        end == number_end(text@, from as int),
        from <= end <= text@.len(),
{
    let whole = scan_run(text, from, CharClass::Digit);
    if whole < text.len() && text.len() - whole > 1 && text[whole] == '.'
        && CharClass::Digit.contains(text[whole + 1]) {
        scan_run(text, whole + 1, CharClass::Digit)
    } else {
        whole
    }
}

/// Finds where what starts at `start` ends.
fn find_end(text: &Vec<char>, start: usize) -> (end: usize)
    requires
        start < text@.len(),
    ensures
        end == lexeme_end(text@, start as int),
        start < end <= text@.len(),
{
    proof {
        lemma_lexeme_end_bounds(text@, start as int);
    }
    let n = text.len();
    let c = text[start];
    if c == '"' {
        let body = scan_run(text, start + 1, CharClass::StringBody);
        if body < n && text[body] == '"' {
            body + 1
        } else {
            body
        }
    } else if c == '0' && n - start > 2 && (text[start + 1] == 'x' || text[start + 1] == 'X')
        && CharClass::HexDigit.contains(text[start + 2]) {
        scan_run(text, start + 2, CharClass::HexDigit)
    } else if CharClass::Digit.contains(c) {
        find_number_end(text, start)
    } else if c == '-' && n - start > 1 && CharClass::Digit.contains(text[start + 1]) {
        find_number_end(text, start + 1)
    } else if c == '/' && n - start > 1 && text[start + 1] == '/' {
        scan_run(text, start + 2, CharClass::CommentBody)
    } else if c == '*' && n - start > 1 && text[start + 1] == '*' {
        start + 2
    } else if ('a' <= c && c <= 'z') || ('A' <= c && c <= 'Z') || c == '_' {
        scan_run(text, start + 1, CharClass::IdentPart)
    } else {
        start + 1
    }
}

/// Reads what stands from `start` up to `end`; `None` for a hexadecimal
/// literal that is out of range.
fn read_token(text: &Vec<char>, start: usize, end: usize) -> (token: Option<NaskoToken>)
    requires
        start < text@.len(),
        end == lexeme_end(text@, start as int),
    ensures
        match token {
            Some(token) => scanned_at(text@, start as int) == Scanned::Token(token@),
            None => scanned_at(text@, start as int) == Scanned::HexOutOfRange,
        },
{
    proof {
        lemma_lexeme_end_bounds(text@, start as int);
    }
    let n = text.len();
    let c = text[start];
    if c == '"' {
        proof {
            lemma_run_end(text@, start as int + 1, CharClass::StringBody);
        }
        if end - start >= 2 && text[end - 1] == '"' {
            Some(NaskoToken::LiteralString(text_between(text, start, end)))
        } else {
            Some(NaskoToken::Error)
        }
    } else if c == '0' && n - start > 2 && (text[start + 1] == 'x' || text[start + 1] == 'X')
        && CharClass::HexDigit.contains(text[start + 2]) {
        proof {
            lemma_run_end(text@, start as int + 2, CharClass::HexDigit);
        }
        match hex_number(text, start + 2, end) {
            Some(value) => Some(NaskoToken::LiteralHex(value)),
            None => None,
        }
    } else if CharClass::Digit.contains(c) || (c == '-' && end - start > 1) {
        Some(NaskoToken::LiteralNumber(text_between(text, start, end)))
    } else if c == '/' && end - start > 1 {
        Some(NaskoToken::Comment(trimmed(text, start + 2, end)))
    } else if c == '*' && end - start > 1 {
        Some(NaskoToken::ArithmeticOperator(NaskoArithmetic::Power))
    } else if ('a' <= c && c <= 'z') || ('A' <= c && c <= 'Z') || c == '_' {
        Some(word(text_between(text, start, end)))
    } else {
        Some(symbol(c))
    }
}

/// The scanner: it hands out the tokens of a source text one by one, and
/// keeps count of what it skips between them.
#[derive(Debug)]
pub struct NaskoLexer {
    text: Vec<char>,
    /// How many characters are behind: where the current token ends.
    cursor: usize,
    /// The byte offset of `cursor`.
    offset: usize,
    /// Where the current token starts.
    token_from: usize,
    /// The byte offset of `token_from`.
    token_offset: usize,
    extras: NaskoExtras,
}

impl View for NaskoLexer {
    type V = LexerView;

    closed spec fn view(&self) -> LexerView {
        LexerView {
            text: self.text@,
            position: self.cursor as int,
            token_start: self.token_from as int,
            spaces: self.extras.spaces as int,
            line_caps: self.extras.line_caps@,
        }
    }
}

/// The blanks and line feeds among some characters are no more than the
/// characters, and every line feed lies at a byte of the text.
proof fn lemma_skipped_counts(text: Seq<char>, from: int, to: int)
    requires
        0 <= from <= to <= text.len(),
        byte_len(text) <= usize::MAX,
    ensures
        count_blanks(text, from, to) + break_offsets(text, from, to).len() <= to - from,
        forall|i: int|
            0 <= i < break_offsets(text, from, to).len() ==> (#[trigger] break_offsets(
                text,
                from,
                to,
            )[i]) < byte_len(text),
    decreases to - from,
{
    if from < to {
        lemma_skipped_counts(text, from, to - 1);
        lemma_byte_len_step(text, to - 1);
        lemma_byte_len_monotone(text, to, text.len() as int);
        assert(text.take(text.len() as int) =~= text);
    }
}

impl NaskoLexer {
    /// What holds of every scanner between two calls.
    pub closed spec fn wf(&self) -> bool {
        &&& self.token_from <= self.cursor <= self.text@.len()
        &&& byte_len(self.text@) <= usize::MAX
        &&& self.offset == byte_len(self.text@.take(self.cursor as int))
        &&& self.token_offset == byte_len(self.text@.take(self.token_from as int))
        &&& self.extras.line_breaks == self.extras.line_caps@.len()
        &&& self.extras.spaces + self.extras.line_breaks <= self.cursor
        &&& forall|i: int|
            0 <= i < self.extras.line_caps@.len() ==> (#[trigger] self.extras.line_caps@[i])
                < byte_len(self.text@)
    }

    /// A scanner stands within its text, at or after the start of its
    /// current token.
    pub proof fn lemma_wf_bounds(&self)
        requires
            self.wf(),
        ensures
            0 <= self@.token_start <= self@.position <= self@.text.len(),
            byte_len(self@.text) <= usize::MAX,
    {
    }

    /// A scanner at the start of `source`.
    pub fn new(source: &str) -> (lexer: NaskoLexer)
        ensures
            lexer.wf(),
            lexer@ == (LexerView {
                text: source@,
                position: 0,
                token_start: 0,
                spaces: 0,
                line_caps: Seq::empty(),
            }),
    {
        NaskoLexer {
            text: chars_of(source),
            cursor: 0,
            offset: 0,
            token_from: 0,
            token_offset: 0,
            extras: NaskoExtras { line_caps: Vec::new(), line_breaks: 0, spaces: 0 },
        }
    }

    /// The byte range of the current token.
    pub fn span(&self) -> (span: Span)
        requires
            self.wf(),
        ensures
            span.start == byte_len(self@.text.take(self@.token_start)),
            span.end == byte_len(self@.text.take(self@.position)),
            span.start <= span.end,
    {
        proof {
            lemma_byte_len_monotone(self.text@, self.token_from as int, self.cursor as int);
        }
        Span { start: self.token_offset, end: self.offset }
    }

    /// The text of the current token.
    pub fn slice(&self) -> (text: String)
        requires
            self.wf(),
        ensures
            text@ == self@.text.subrange(self@.token_start, self@.position),
    {
        text_between(&self.text, self.token_from, self.cursor)
    }

    /// What was counted so far.
    pub fn extras(&self) -> (extras: &NaskoExtras)
        requires
            self.wf(),
        ensures
            extras.spaces == self@.spaces,
            extras.line_caps@ == self@.line_caps,
            extras.line_breaks == self@.line_caps.len(),
            forall|i: int| 0 <= i < extras.line_caps@.len() ==> extras.line_caps@[i] < usize::MAX,
    {
        &self.extras
    }

    /// Skips what stands before the next token, counting blanks and line feeds.
    fn skip(&mut self)
        requires
            old(self).wf(),
        ensures
            final(self).wf(),
            final(self)@.text == old(self)@.text,
            final(self)@.position == next_start(old(self)@),
            final(self)@.token_start == next_start(old(self)@),
            final(self)@.spaces == advance(old(self)@).spaces,
            final(self)@.line_caps == advance(old(self)@).line_caps,
    {
        let ghost text = self.text@;
        let ghost from = self.cursor as int;
        let n = self.text.len();
        while self.cursor < n && CharClass::Skipped.contains(self.text[self.cursor])
            invariant
                self.text@ == text,
                n == text.len(),
                from <= self.cursor <= n,
                byte_len(text) <= usize::MAX,
                self.offset == byte_len(text.take(self.cursor as int)),
                self.extras.line_breaks == self.extras.line_caps@.len(),
                self.extras.spaces == old(self).extras.spaces + count_blanks(
                    text,
                    from,
                    self.cursor as int,
                ),
                self.extras.line_caps@ == old(self).extras.line_caps@ + break_offsets(
                    text,
                    from,
                    self.cursor as int,
                ),
                old(self).wf(),
                old(self).text@ == text,
                old(self).cursor == from,
                forall|i: int|
                    from <= i < self.cursor ==> CharClass::Skipped.holds(#[trigger] text[i]),
            decreases n - self.cursor,
        {
            let c = self.text[self.cursor];
            proof {
                lemma_byte_len_step(text, self.cursor as int);
                lemma_byte_len_monotone(text, self.cursor as int + 1, n as int);
                assert(text.take(n as int) =~= text);
                lemma_skipped_counts(text, from, self.cursor as int);
                lemma_skipped_counts(text, from, self.cursor as int + 1);
            }
            if c == '\n' {
                self.extras.line_breaks += 1;
                self.extras.line_caps.push(self.offset);
            } else {
                self.extras.spaces += 1;
            }
            self.offset += utf8_width(c);
            self.cursor += 1;
        }
        proof {
            lemma_run_end_is(text, from, CharClass::Skipped, self.cursor as int);
            lemma_skipped_counts(text, from, self.cursor as int);
        }
        self.token_from = self.cursor;
        self.token_offset = self.offset;
    }

    /// Moves the end of the current token to `end`.
    fn bump_to(&mut self, end: usize)
        requires
            old(self).wf(),
            old(self).cursor <= end <= old(self).text@.len(),
        ensures
            final(self).wf(),
            final(self)@ == (LexerView { position: end as int, ..old(self)@ }),
    {
        let ghost text = self.text@;
        while self.cursor < end
            invariant
                self.text@ == text,
                old(self).cursor <= self.cursor <= end <= text.len(),
                byte_len(text) <= usize::MAX,
                self.offset == byte_len(text.take(self.cursor as int)),
                self.token_from == old(self).token_from,
                self.token_offset == old(self).token_offset,
                self.extras == old(self).extras,
                old(self).wf(),
                old(self).text@ == text,
            decreases end - self.cursor,
        {
            proof {
                lemma_byte_len_step(text, self.cursor as int);
                lemma_byte_len_monotone(text, self.cursor as int + 1, text.len() as int);
                assert(text.take(text.len() as int) =~= text);
            }
            self.offset += utf8_width(self.text[self.cursor]);
            self.cursor += 1;
        }
    }

    /// Hands out the next token, `None` once the text is used up. A
    /// hexadecimal literal that is out of range is skipped and reported.
    pub fn next_token(&mut self) -> (token: Result<Option<NaskoToken>, ScanError>)
        requires
            old(self).wf(),
        ensures
            final(self).wf(),
            final(self)@ == advance(old(self)@),
            match token {
                Ok(None) => pending(old(self)@) is None,
                Ok(Some(token)) => pending(old(self)@) == Some(Scanned::Token(token@)),
                Err(ScanError::HexOutOfRange(span)) => {
                    &&& pending(old(self)@) == Some(Scanned::HexOutOfRange)
                    &&& span.start == byte_len(final(self)@.text.take(final(self)@.token_start))
                    &&& span.end == byte_len(final(self)@.text.take(final(self)@.position))
                },
            },
    {
        self.skip();
        let start = self.cursor;
        if start >= self.text.len() {
            return Ok(None);
        }
        let end = find_end(&self.text, start);
        let token = read_token(&self.text, start, end);
        self.bump_to(end);
        match token {
            Some(token) => Ok(Some(token)),
            None => Err(ScanError::HexOutOfRange(self.span())),
        }
    }
}

/// Scans a whole text. Stops at the first hexadecimal literal that is out
/// of range.
pub fn tokenize(source: &str) -> (result: Result<Vec<NaskoToken>, ScanError>)
    ensures
        match result {
            Ok(tokens) => scan_all(start_of(source@)) == Ok::<Seq<TokenView>, ScanError>(
                tokens_view(tokens@),
            ),
            Err(error) => scan_all(start_of(source@)) == Err::<Seq<TokenView>, ScanError>(error),
        },
{
    let mut lexer = NaskoLexer::new(source);
    let mut tokens: Vec<NaskoToken> = Vec::new();
    let ghost whole = scan_all(lexer@);
    proof {
        lexer.lemma_wf_bounds();
    }
    loop
        invariant
            lexer.wf(),
            0 <= lexer@.position <= lexer@.text.len(),
            whole == scan_all(start_of(source@)),
            whole == match scan_all(lexer@) {
                Ok(rest) => Ok::<Seq<TokenView>, ScanError>(tokens_view(tokens@) + rest),
                Err(error) => Err::<Seq<TokenView>, ScanError>(error),
            },
        decreases lexer@.text.len() - lexer@.position,
    {
        proof {
            lemma_advance_moves(lexer@);
        }
        match lexer.next_token() {
            Ok(None) => {
                return Ok(tokens);
            },
            Err(error) => {
                return Err(error);
            },
            Ok(Some(token)) => {
                proof {
                    let rest = scan_all(lexer@);
                    assert(tokens_view(tokens@.push(token)) =~= tokens_view(tokens@).push(token@));
                    if rest is Ok {
                        assert(tokens_view(tokens@) + (seq![token@] + rest->Ok_0) =~= tokens_view(
                            tokens@,
                        ).push(token@) + rest->Ok_0);
                    }
                }
                tokens.push(token);
            },
        }
    }
}

} // verus!
