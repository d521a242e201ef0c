//! The lexer: from source text to tokens.
use vstd::prelude::*;
use crate::lang::diagnostic::{Diagnostic, DiagnosticView, diagnostic_views};
use crate::lang::text::{chars_of, spells, text_of};
use crate::lang::token::{Token, TokenType, TokenView, token_views};

verus! {

/// An ASCII decimal digit.
pub open spec fn digit(c: char) -> bool {
    '0' <= c <= '9'
}

/// An ASCII letter or an underscore.
pub open spec fn alpha(c: char) -> bool {
    ('a' <= c <= 'z') || ('A' <= c <= 'Z') || c == '_'
}

/// A character that may continue an identifier.
pub open spec fn alnum(c: char) -> bool {
    digit(c) || alpha(c)
}

/// The character at `at`, or NUL past the end.
pub open spec fn peek_at(s: Seq<char>, at: int) -> char {
    if 0 <= at < s.len() {
        s[at]
    } else {
        '\0'
    }
}

/// The end of the longest run of digits that starts at `from`.
pub open spec fn digits_end(s: Seq<char>, from: int) -> int
    decreases s.len() - from,
{
    if 0 <= from < s.len() && digit(s[from]) {
        digits_end(s, from + 1)
    } else {
        from
    }
}

/// The end of the longest run of identifier characters that starts at `from`.
pub open spec fn word_end(s: Seq<char>, from: int) -> int
    decreases s.len() - from,
{
    if 0 <= from < s.len() && alnum(s[from]) {
        word_end(s, from + 1)
    } else {
        from
    }
}

/// The first place at or after `from` that holds `stop`, or the end of `s`.
pub open spec fn until(s: Seq<char>, from: int, stop: char) -> int
    decreases s.len() - from,
{
    if 0 <= from < s.len() && s[from] != stop {
        until(s, from + 1, stop)
    } else {
        from
    }
}

/// The place of the first `*/` at or after `from`, or the end of `s` if
/// there is none.
pub open spec fn comment_close(s: Seq<char>, from: int) -> int
    decreases s.len() - from,
{
    if from < 0 || from + 1 >= s.len() {
        s.len() as int
    } else if s[from] == '*' && s[from + 1] == '/' {
        from
    } else {
        comment_close(s, from + 1)
    }
}

/// The line after `line`; line numbers stop growing at `u32::MAX`.
pub open spec fn next_line(line: u32) -> u32 {
    if line < u32::MAX {
        (line + 1) as u32
    } else {
        line
    }
}

/// The line reached from `line` by passing over `s[from..to]`.
pub open spec fn line_after(s: Seq<char>, from: int, to: int, line: u32) -> u32
    decreases to - from,
{
    if to <= from {
        line
    } else {
        let before = line_after(s, from, to - 1, line);
        if peek_at(s, to - 1) == '\n' {
            next_line(before)
        } else {
            before
        }
    }
}

/// The keyword that `word` spells, if it spells one.
pub open spec fn keyword(word: Seq<char>) -> Option<TokenType> {
    if word == "if"@ {
        Some(TokenType::If)
    } else if word == "else"@ {
        Some(TokenType::Else)
    } else if word == "and"@ {
        Some(TokenType::And)
    } else if word == "or"@ {
        Some(TokenType::Or)
    } else if word == "let"@ {
        Some(TokenType::Let)
    } else if word == "struct"@ {
        Some(TokenType::Struct)
    } else if word == "self"@ {
        Some(TokenType::SSelf)
    } else if word == "while"@ {
        Some(TokenType::While)
    } else if word == "for"@ {
        Some(TokenType::For)
    } else if word == "return"@ {
        Some(TokenType::Return)
    } else if word == "fun"@ {
        Some(TokenType::Fun)
    } else if word == "true"@ {
        Some(TokenType::True)
    } else if word == "false"@ {
        Some(TokenType::False)
    } else if word == "null"@ {
        Some(TokenType::Null)
    } else {
        None
    }
}

/// What scanning one lexical element gives: where the next one starts, the
/// line reached, and the token or the diagnostic produced, if any.
pub struct Scan {
    pub next: int,
    pub line: u32,
    pub token: Option<TokenView>,
    pub error: Option<DiagnosticView>,
}

/// A scan that produces the token of kind `ty` read from `s[from..to]`.
pub open spec fn emit(s: Seq<char>, from: int, to: int, line: u32, ty: TokenType) -> Scan {
    Scan {
        next: to,
        line,
        token: Some(TokenView { ty, lexeme: s.subrange(from, to), line }),
        error: None,
    }
}

/// A scan that produces nothing and goes on at `next`.
pub open spec fn skip(next: int, line: u32) -> Scan {
    Scan { next, line, token: None, error: None }
}

/// A scan that reports `message` and goes on at `next`.
pub open spec fn complain(next: int, line: u32, message: Seq<char>) -> Scan {
    Scan { next, line, token: None, error: Some(DiagnosticView { line, message }) }
}

/// An operator that may be followed by `=`: `plain` alone, `compound` with it.
pub open spec fn scan_operator(
    s: Seq<char>,
    pos: int,
    line: u32,
    plain: TokenType,
    compound: TokenType,
) -> Scan {
    if peek_at(s, pos + 1) == '=' {
        emit(s, pos, pos + 2, line, compound)
    } else {
        emit(s, pos, pos + 1, line, plain)
    }
}

/// What follows a `/`: a line comment, a block comment, `/=` or a bare `/`.
pub open spec fn scan_slash(s: Seq<char>, pos: int, line: u32) -> Scan {
    let after = peek_at(s, pos + 1);
    if after == '/' {
        skip(until(s, pos + 2, '\n'), line)
    } else if after == '*' {
        let close = comment_close(s, pos + 2);
        if close >= s.len() {
            complain(
                s.len() as int,
                line_after(s, pos + 2, s.len() as int, line),
                "Unterminated block comment"@,
            )
        } else {
            skip(close + 2, line_after(s, pos + 2, close, line))
        }
    } else if after == '=' {
        emit(s, pos, pos + 2, line, TokenType::SlashEq)
    } else {
        emit(s, pos, pos + 1, line, TokenType::Slash)
    }
}

/// A character literal whose opening quote stands at `pos`.
pub open spec fn scan_char(s: Seq<char>, pos: int, line: u32) -> Scan {
    if pos + 1 >= s.len() {
        complain(pos + 1, line, "Unterminated character literal"@)
    } else if peek_at(s, pos + 2) == '\'' {
        Scan { next: pos + 3, ..emit(s, pos + 1, pos + 2, line, TokenType::Char) }
    } else {
        complain(
            if pos + 3 <= s.len() {
                pos + 3
            } else {
                s.len() as int
            },
            line,
            "Unterminated character literal"@,
        )
    }
}

/// A string literal whose opening quote stands at `pos`.
pub open spec fn scan_string(s: Seq<char>, pos: int, line: u32) -> Scan {
    let close = until(s, pos + 1, '"');
    if close >= s.len() {
        complain(s.len() as int, line, "Unterminated string literal"@)
    } else {
        Scan { next: close + 1, ..emit(s, pos + 1, close, line, TokenType::String) }
    }
}

/// A number that starts at `pos`: digits, then optionally a dot and digits.
pub open spec fn scan_number(s: Seq<char>, pos: int, line: u32) -> Scan {
    let whole = digits_end(s, pos + 1);
    if peek_at(s, whole) == '.' {
        emit(s, pos, digits_end(s, whole + 1), line, TokenType::Number)
    } else {
        emit(s, pos, whole, line, TokenType::Number)
    }
}

/// An identifier or keyword that starts at `pos`.
pub open spec fn scan_word(s: Seq<char>, pos: int, line: u32) -> Scan {
    let end = word_end(s, pos + 1);
    match keyword(s.subrange(pos, end)) {
        Some(ty) => emit(s, pos, end, line, ty),
        None => emit(s, pos, end, line, TokenType::Ident),
    }
}

/// The message for a character that starts no lexical element.
pub open spec fn unexpected(c: char) -> Seq<char> {
    "Unexpected symbol '"@.push(c).push('\'')
}

/// The lexical element that starts at `pos`, where `0 <= pos < s.len()`.
pub open spec fn scan_one(s: Seq<char>, pos: int, line: u32) -> Scan {
    let c = peek_at(s, pos);
    if c == '{' {
        emit(s, pos, pos + 1, line, TokenType::LCurly)
    } else if c == '}' {
        emit(s, pos, pos + 1, line, TokenType::RCurly)
    } else if c == '(' {
        emit(s, pos, pos + 1, line, TokenType::LParen)
    } else if c == ')' {
        emit(s, pos, pos + 1, line, TokenType::RParen)
    } else if c == ',' {
        emit(s, pos, pos + 1, line, TokenType::Comma)
    } else if c == '.' {
        emit(s, pos, pos + 1, line, TokenType::Dot)
    } else if c == ':' {
        emit(s, pos, pos + 1, line, TokenType::Colon)
    } else if c == ';' {
        emit(s, pos, pos + 1, line, TokenType::Semicolon)
    } else if c == '+' {
        scan_operator(s, pos, line, TokenType::Plus, TokenType::PlusEq)
    } else if c == '-' {
        scan_operator(s, pos, line, TokenType::Minus, TokenType::MinusEq)
    } else if c == '*' {
        scan_operator(s, pos, line, TokenType::Star, TokenType::StarEq)
    } else if c == '/' {
        scan_slash(s, pos, line)
    } else if c == '!' {
        scan_operator(s, pos, line, TokenType::Bang, TokenType::Ne)
    } else if c == '=' {
        scan_operator(s, pos, line, TokenType::Eq, TokenType::EqEq)
    } else if c == '<' {
        scan_operator(s, pos, line, TokenType::Lt, TokenType::Lte)
    } else if c == '>' {
        scan_operator(s, pos, line, TokenType::Gt, TokenType::Gte)
    } else if c == ' ' || c == '\t' || c == '\r' {
        skip(pos + 1, line)
    } else if c == '\n' {
        skip(pos + 1, next_line(line))
    } else if c == '\'' {
        scan_char(s, pos, line)
    } else if c == '"' {
        scan_string(s, pos, line)
    } else if digit(c) {
        scan_number(s, pos, line)
    } else if alpha(c) {
        scan_word(s, pos, line)
    } else {
        complain(pos + 1, line, unexpected(c))
    }
}

/// What a source text lexes to.
pub struct Lexed {
    pub tokens: Seq<TokenView>,
    pub diagnostics: Seq<DiagnosticView>,
}

/// The end-of-input token for a text that ends on `line`.
pub open spec fn eof(line: u32) -> TokenView {
    TokenView { ty: TokenType::Eof, lexeme: Seq::empty(), line }
}

/// The tokens and diagnostics of `s` from `pos` on, when `pos` is reached
/// on `line`. The tokens end with the end-of-input token.
pub open spec fn lex_from(s: Seq<char>, pos: int, line: u32) -> Lexed
    decreases s.len() - pos,
{
    if pos < 0 || pos >= s.len() {
        Lexed { tokens: seq![eof(line)], diagnostics: Seq::empty() }
    } else {
        let one = scan_one(s, pos, line);
        proof {
            lemma_scan_advances(s, pos, line);
        }
        let rest = lex_from(s, one.next, one.line);
        Lexed {
            tokens: match one.token {
                Some(t) => seq![t] + rest.tokens,
                None => rest.tokens,
            },
            diagnostics: match one.error {
                Some(e) => seq![e] + rest.diagnostics,
                None => rest.diagnostics,
            },
        }
    }
}

/// The tokens and diagnostics of a whole source text.
pub open spec fn lex(s: Seq<char>) -> Lexed {
    lex_from(s, 0, 1)
}

/// A run of digits lies within the text, holds digits only, and ends
/// before a character that is no digit.
pub proof fn lemma_digits_end_bounds(s: Seq<char>, from: int)
    requires
        0 <= from <= s.len(),
    ensures
        from <= digits_end(s, from) <= s.len(),
        forall|i: int| from <= i < digits_end(s, from) ==> digit(#[trigger] s[i]),
        digits_end(s, from) < s.len() ==> !digit(s[digits_end(s, from)]),
    decreases s.len() - from,
{
    if from < s.len() && digit(s[from]) {
        lemma_digits_end_bounds(s, from + 1);
    }
}

/// A run of identifier characters lies within the text, holds such
/// characters only, and ends before a character that is none.
pub proof fn lemma_word_end_bounds(s: Seq<char>, from: int)
    requires
        0 <= from <= s.len(),
    ensures
        from <= word_end(s, from) <= s.len(),
        forall|i: int| from <= i < word_end(s, from) ==> alnum(#[trigger] s[i]),
        word_end(s, from) < s.len() ==> !alnum(s[word_end(s, from)]),
    decreases s.len() - from,
{
    if from < s.len() && alnum(s[from]) {
        lemma_word_end_bounds(s, from + 1);
    }
}

/// The search for a character stays within the text, passes over other
/// characters only, and ends at the character if it ends within the text.
pub proof fn lemma_until_bounds(s: Seq<char>, from: int, stop: char)
    requires
        0 <= from <= s.len(),
    ensures
        from <= until(s, from, stop) <= s.len(),
        forall|i: int| from <= i < until(s, from, stop) ==> #[trigger] s[i] != stop,
        until(s, from, stop) < s.len() ==> s[until(s, from, stop)] == stop,
    decreases s.len() - from,
{
    if from < s.len() && s[from] != stop {
        lemma_until_bounds(s, from + 1, stop);
    }
}

/// The search for the end of a block comment stays within the text, and
/// ends at a `*/` if it ends within the text.
pub proof fn lemma_comment_close_bounds(s: Seq<char>, from: int)
    requires
        0 <= from <= s.len(),
    ensures
        from <= comment_close(s, from) <= s.len(),
        comment_close(s, from) < s.len() ==> comment_close(s, from) + 1 < s.len() && s[comment_close(
            s,
            from,
        )] == '*' && s[comment_close(s, from) + 1] == '/',
    decreases s.len() - from,
{
    if from + 1 < s.len() && !(s[from] == '*' && s[from + 1] == '/') {
        lemma_comment_close_bounds(s, from + 1);
    }
}

/// Every scan consumes at least one character and stays within the text.
pub proof fn lemma_scan_advances(s: Seq<char>, pos: int, line: u32)
    requires
        0 <= pos < s.len(),
    ensures
        pos < scan_one(s, pos, line).next <= s.len(),
{
    lemma_digits_end_bounds(s, pos + 1);
    let whole = digits_end(s, pos + 1);
    if whole < s.len() {
        lemma_digits_end_bounds(s, whole + 1);
    }
    lemma_word_end_bounds(s, pos + 1);
    lemma_until_bounds(s, pos + 1, '"');
    if pos + 2 <= s.len() {
        lemma_until_bounds(s, pos + 2, '\n');
        lemma_comment_close_bounds(s, pos + 2);
    }
}


/// No scan produces an end-of-input token.
pub proof fn lemma_scan_token_kind(s: Seq<char>, pos: int, line: u32)
    requires
        0 <= pos < s.len(),
    ensures
        match scan_one(s, pos, line).token {
            Some(t) => t.ty != TokenType::Eof,
            None => true,
        },
{
}

/// The tokens of a text end with the end-of-input token, and hold no
/// other one.
pub proof fn lemma_lex_ends_with_eof(s: Seq<char>, pos: int, line: u32)
    ensures
        lex_from(s, pos, line).tokens.len() >= 1,
        lex_from(s, pos, line).tokens.last().ty == TokenType::Eof,
        forall|i: int|
            0 <= i < lex_from(s, pos, line).tokens.len() - 1 ==> (#[trigger] lex_from(
                s,
                pos,
                line,
            ).tokens[i]).ty != TokenType::Eof,
    decreases s.len() - pos,
{
    if 0 <= pos < s.len() {
        let one = scan_one(s, pos, line);
        lemma_scan_advances(s, pos, line);
        lemma_scan_token_kind(s, pos, line);
        lemma_lex_ends_with_eof(s, one.next, one.line);
    }
}

/// Passing over text does not lower the line.
pub proof fn lemma_line_after_grows(s: Seq<char>, from: int, to: int, line: u32)
    ensures
        line <= line_after(s, from, to, line),
    decreases to - from,
{
    if to > from {
        lemma_line_after_grows(s, from, to - 1, line);
    }
}

/// A scan does not lower the line, and what it produces stands on a line
/// between the one it began on and the one it reaches.
pub proof fn lemma_scan_lines(s: Seq<char>, pos: int, line: u32)
    requires
        0 <= pos < s.len(),
    ensures
        line <= scan_one(s, pos, line).line,
        match scan_one(s, pos, line).token {
            Some(t) => line <= t.line <= scan_one(s, pos, line).line,
            None => true,
        },
        match scan_one(s, pos, line).error {
            Some(e) => line <= e.line <= scan_one(s, pos, line).line,
            None => true,
        },
{
    lemma_line_after_grows(s, pos + 2, s.len() as int, line);
    lemma_line_after_grows(s, pos + 2, comment_close(s, pos + 2), line);
}

/// Line numbers never go back: every token and every diagnostic of a text
/// stands on a line that is not before the line on which the scan began,
/// and the tokens come in the order of their lines.
pub proof fn lemma_lex_lines(s: Seq<char>, pos: int, line: u32)
    ensures
        forall|i: int|
            0 <= i < lex_from(s, pos, line).tokens.len() ==> line <= (#[trigger] lex_from(
                s,
                pos,
                line,
            ).tokens[i]).line,
        forall|i: int|
            0 <= i < lex_from(s, pos, line).diagnostics.len() ==> line <= (#[trigger] lex_from(
                s,
                pos,
                line,
            ).diagnostics[i]).line,
        forall|i: int, j: int|
            0 <= i <= j < lex_from(s, pos, line).tokens.len() ==> (#[trigger] lex_from(
                s,
                pos,
                line,
            ).tokens[i]).line <= (#[trigger] lex_from(s, pos, line).tokens[j]).line,
    decreases s.len() - pos,
{
    if 0 <= pos < s.len() {
        let one = scan_one(s, pos, line);
        lemma_scan_advances(s, pos, line);
        lemma_scan_lines(s, pos, line);
        lemma_lex_lines(s, one.next, one.line);
    }
}

/// A lexer over one source text.
pub struct Lexer {
    chars: Vec<char>,
    cursor: usize,
    start: usize,
    line: u32,
    tokens: Vec<Token>,
    diagnostics: Vec<Diagnostic>,
}

/// The mathematical value of a [`Lexer`]: the text, where it stands in it,
/// and what it has produced so far.
pub struct LexerView {
    pub source: Seq<char>,
    pub cursor: int,
    pub start: int,
    pub line: u32,
    pub tokens: Seq<TokenView>,
    pub diagnostics: Seq<DiagnosticView>,
}

impl View for Lexer {
    type V = LexerView;

    closed spec fn view(&self) -> LexerView {
        LexerView {
            source: self.chars@,
            cursor: self.cursor as int,
            start: self.start as int,
            line: self.line,
            tokens: token_views(self.tokens@),
            diagnostics: diagnostic_views(self.diagnostics@),
        }
    }
}

impl LexerView {
    /// The view after a scan that began at the cursor.
    pub open spec fn after(self, scan: Scan) -> LexerView {
        LexerView {
            cursor: scan.next,
            line: scan.line,
            tokens: match scan.token {
                Some(t) => self.tokens.push(t),
                None => self.tokens,
            },
            diagnostics: match scan.error {
                Some(e) => self.diagnostics.push(e),
                None => self.diagnostics,
            },
            ..self
        }
    }

    /// The cursor and the start of the current lexeme lie within the text.
    pub open spec fn wf(self) -> bool {
        0 <= self.start <= self.cursor <= self.source.len()
    }
}

impl Lexer {
    /// A lexer at the start of `source`, on line 1.
    pub fn new(source: String) -> (r: Self)
        ensures
            r@ == (LexerView {
                source: source@,
                cursor: 0,
                start: 0,
                line: 1,
                tokens: Seq::empty(),
                diagnostics: Seq::empty(),
            }),
    {
        let r = Self {
            chars: chars_of(source.as_str()),
            cursor: 0,
            start: 0,
            line: 1,
            tokens: Vec::new(),
            diagnostics: Vec::new(),
        };
        assert(r@.tokens =~= Seq::empty());
        assert(r@.diagnostics =~= Seq::empty());
        r
    }

    /// Scans the rest of the text and returns all tokens produced so far,
    /// ending with the end-of-input token.
    pub fn scan_tokens(&mut self) -> (r: &Vec<Token>)
        requires
            old(self)@.wf(),
        ensures
            final(self)@.wf(),
            final(self)@.source == old(self)@.source,
            final(self)@.cursor == old(self)@.source.len(),
            final(self)@.tokens == old(self)@.tokens + lex_from(
                old(self)@.source,
                old(self)@.cursor,
                old(self)@.line,
            ).tokens,
            final(self)@.diagnostics == old(self)@.diagnostics + lex_from(
                old(self)@.source,
                old(self)@.cursor,
                old(self)@.line,
            ).diagnostics,
            token_views(r@) == final(self)@.tokens,
    {
        loop
            invariant
                self@.wf(),
                self@.source == old(self)@.source,
                self@.tokens + lex_from(self@.source, self@.cursor, self@.line).tokens == old(
                    self,
                )@.tokens + lex_from(old(self)@.source, old(self)@.cursor, old(self)@.line).tokens,
                self@.diagnostics + lex_from(
                    self@.source,
                    self@.cursor,
                    self@.line,
                ).diagnostics == old(self)@.diagnostics + lex_from(
                    old(self)@.source,
                    old(self)@.cursor,
                    old(self)@.line,
                ).diagnostics,
            ensures
                self@.cursor == self@.source.len(),
            decreases self@.source.len() - self@.cursor,
        {
            if self.is_at_end() {
                break ;
            }
            self.start = self.cursor;
            let ghost before = self@;
            self.scan_token();
            proof {
                let one = scan_one(before.source, before.cursor, before.line);
                let rest = lex_from(before.source, one.next, one.line);
                lemma_scan_advances(before.source, before.cursor, before.line);
                assert(self@.tokens + rest.tokens =~= before.tokens + lex_from(
                    before.source,
                    before.cursor,
                    before.line,
                ).tokens);
                assert(self@.diagnostics + rest.diagnostics =~= before.diagnostics + lex_from(
                    before.source,
                    before.cursor,
                    before.line,
                ).diagnostics);
            }
        }
        let ghost before = self@;
        let eof = Token::new(TokenType::Eof, String::new(), self.line);
        self.tokens.push(eof);
        proof {
            assert(self@.tokens =~= before.tokens.push(eof@));
            assert(before.tokens.push(eof@) =~= before.tokens + lex_from(
                before.source,
                before.cursor,
                before.line,
            ).tokens);
            assert(self@.diagnostics =~= before.diagnostics + lex_from(
                before.source,
                before.cursor,
                before.line,
            ).diagnostics);
        }
        &self.tokens
    }

    /// The diagnostics reported so far.
    pub fn diagnostics(&self) -> (r: &Vec<Diagnostic>)
        ensures
            diagnostic_views(r@) == self@.diagnostics,
    {
        &self.diagnostics
    }

    /// Ends the lexer and hands over the tokens and the diagnostics.
    pub fn into_parts(self) -> (r: (Vec<Token>, Vec<Diagnostic>))
        ensures
            token_views(r.0@) == self@.tokens,
            diagnostic_views(r.1@) == self@.diagnostics,
    {
        (self.tokens, self.diagnostics)
    }

    /// Scans the lexical element at the cursor.
    fn scan_token(&mut self)
        requires
            old(self)@.wf(),
            old(self)@.start == old(self)@.cursor,
            old(self)@.cursor < old(self)@.source.len(),
        ensures
            final(self)@.wf(),
            final(self)@ == (LexerView { start: final(self)@.start, ..old(self)@.after(
                scan_one(old(self)@.source, old(self)@.cursor, old(self)@.line),
            ) }),
    {
        proof {
            lemma_scan_advances(self@.source, self@.cursor, self@.line);
        }
        let c = self.advance();
        match c {
            '{' => self.add_token(TokenType::LCurly),
            '}' => self.add_token(TokenType::RCurly),
            '(' => self.add_token(TokenType::LParen),
            ')' => self.add_token(TokenType::RParen),
            ',' => self.add_token(TokenType::Comma),
            '.' => self.add_token(TokenType::Dot),
            ':' => self.add_token(TokenType::Colon),
            ';' => self.add_token(TokenType::Semicolon),
            '+' => self.operator(TokenType::Plus, TokenType::PlusEq),
            '-' => self.operator(TokenType::Minus, TokenType::MinusEq),
            '*' => self.operator(TokenType::Star, TokenType::StarEq),
            '/' => {
                if self.next_matches('/') {
                    self.comment()
                } else if self.next_matches('*') {
                    self.multi_line_comment()
                } else if self.next_matches('=') {
                    self.add_token(TokenType::SlashEq)
                } else {
                    self.add_token(TokenType::Slash)
                }
            },
            '!' => self.operator(TokenType::Bang, TokenType::Ne),
            '=' => self.operator(TokenType::Eq, TokenType::EqEq),
            '<' => self.operator(TokenType::Lt, TokenType::Lte),
            '>' => self.operator(TokenType::Gt, TokenType::Gte),
            ' ' | '\t' | '\r' => (),
            '\n' => self.newline(),
            '\'' => self.char(),
            '"' => self.string(),
            _ => {
                if self.is_digit(c) {
                    self.number();
                } else if self.is_alpha(c) {
                    self.identifier();
                } else {
                    let mut msg = String::from_str("Unexpected symbol '");
                    msg.push(c);
                    msg.push('\'');
                    self.error(msg);
                }
            },
        }
    }

    /// An operator that a following `=` turns into its compound form.
    fn operator(&mut self, plain: TokenType, compound: TokenType)
        requires
            old(self)@.wf(),
            old(self)@.cursor == old(self)@.start + 1,
        ensures
            final(self)@ == (LexerView { start: old(self)@.start, ..(LexerView {
                cursor: old(self)@.start,
                ..old(self)@
            }).after(scan_operator(old(self)@.source, old(self)@.start, old(self)@.line, plain, compound)) }),
    {
        if self.next_matches('=') {
            self.add_token(compound)
        } else {
            self.add_token(plain)
        }
    }

    /// Moves on to the next line.
    fn newline(&mut self)
        ensures
            final(self)@ == (LexerView { line: next_line(old(self)@.line), ..old(self)@ }),
    {
        if self.line < u32::MAX {
            self.line += 1;
        }
    }

    /// Adds the token of kind `ty` whose lexeme runs from the start mark to
    /// the cursor.
    fn add_token(&mut self, ty: TokenType)
        requires
            old(self)@.wf(),
        ensures
            final(self)@ == (LexerView {
                tokens: old(self)@.tokens.push(
                    TokenView {
                        ty,
                        lexeme: old(self)@.source.subrange(old(self)@.start, old(self)@.cursor),
                        line: old(self)@.line,
                    },
                ),
                ..old(self)@
            }),
    {
        let lexeme = text_of(&self.chars, self.start, self.cursor);
        let token = Token::new(ty, lexeme, self.line);
        self.tokens.push(token);
        assert(self@.tokens =~= old(self)@.tokens.push(token@));
    }

    /// Consumes the character at the cursor and returns it; at the end of
    /// the text, consumes nothing and returns NUL.
    fn advance(&mut self) -> (c: char)
        requires
            old(self)@.cursor <= old(self)@.source.len(),
        ensures
            c == peek_at(old(self)@.source, old(self)@.cursor),
            final(self)@ == (LexerView {
                cursor: if old(self)@.cursor < old(self)@.source.len() {
                    old(self)@.cursor + 1
                } else {
                    old(self)@.cursor
                },
                ..old(self)@
            }),
    {
        if self.cursor >= self.chars.len() {
            return '\0';
        }
        let next = self.chars[self.cursor];
        self.cursor += 1;
        next
    }

    /// Reports `msg` for the current line.
    fn error(&mut self, msg: String)
        ensures
            final(self)@ == (LexerView {
                diagnostics: old(self)@.diagnostics.push(
                    DiagnosticView { line: old(self)@.line, message: msg@ },
                ),
                ..old(self)@
            }),
    {
        let d = Diagnostic { line: self.line, message: msg };
        self.diagnostics.push(d);
        assert(self@.diagnostics =~= old(self)@.diagnostics.push(d@));
    }

    /// A character literal; the opening quote has been consumed.
    fn char(&mut self)
        requires
            old(self)@.wf(),
            old(self)@.cursor == old(self)@.start + 1,
        ensures
            final(self)@.wf(),
            final(self)@ == (LexerView { start: final(self)@.start, ..(LexerView {
                cursor: old(self)@.start,
                ..old(self)@
            }).after(scan_char(old(self)@.source, old(self)@.start, old(self)@.line)) }),
    {
        if self.is_at_end() {
            self.error(String::from_str("Unterminated character literal"));
            return ;
        }
        self.advance();
        self.start += 1;
        if self.peek() != '\'' {
            self.error(String::from_str("Unterminated character literal"));
            self.advance();
            return ;
        }
        self.add_token(TokenType::Char);
        self.advance();
    }

    /// A string literal; the opening quote has been consumed.
    fn string(&mut self)
        requires
            old(self)@.wf(),
            old(self)@.cursor == old(self)@.start + 1,
        ensures
            final(self)@.wf(),
            final(self)@ == (LexerView { start: final(self)@.start, ..(LexerView {
                cursor: old(self)@.start,
                ..old(self)@
            }).after(scan_string(old(self)@.source, old(self)@.start, old(self)@.line)) }),
    {
        proof {
            lemma_until_bounds(self@.source, self@.cursor, '"');
        }
        while !self.is_at_end() && self.peek() != '"'
            invariant
                self@.wf(),
                self@ == (LexerView { cursor: self@.cursor, ..old(self)@ }),
                old(self)@.cursor <= self@.cursor,
                until(self@.source, self@.cursor, '"') == until(
                    old(self)@.source,
                    old(self)@.cursor,
                    '"',
                ),
            decreases self@.source.len() - self@.cursor,
        {
            self.advance();
        }
        if self.is_at_end() {
            self.error(String::from_str("Unterminated string literal"));
        } else {
            self.start += 1;
            self.add_token(TokenType::String);
            self.advance();
        }
    }

    /// A number; its first digit has been consumed.
    fn number(&mut self)
        requires
            old(self)@.wf(),
            old(self)@.cursor == old(self)@.start + 1,
        ensures
            final(self)@.wf(),
            final(self)@ == (LexerView {
                cursor: old(self)@.start,
                ..old(self)@
            }).after(scan_number(old(self)@.source, old(self)@.start, old(self)@.line)),
    {
        self.digits();
        if self.is_at_end() {
            self.add_token(TokenType::Number);
            return ;
        }
        if self.peek() == '.' {
            self.advance();
            self.digits();
        }
        self.add_token(TokenType::Number);
    }

    /// Consumes the digits at the cursor.
    fn digits(&mut self)
        requires
            old(self)@.wf(),
        ensures
            final(self)@.wf(),
            final(self)@ == (LexerView {
                cursor: digits_end(old(self)@.source, old(self)@.cursor),
                ..old(self)@
            }),
    {
        while !self.is_at_end() && self.is_digit(self.peek())
            invariant
                self@.wf(),
                self@ == (LexerView { cursor: self@.cursor, ..old(self)@ }),
                digits_end(self@.source, self@.cursor) == digits_end(
                    old(self)@.source,
                    old(self)@.cursor,
                ),
            decreases self@.source.len() - self@.cursor,
        {
            self.advance();
        }
    }

    /// An identifier or keyword; its first character has been consumed.
    fn identifier(&mut self)
        requires
            old(self)@.wf(),
            old(self)@.cursor == old(self)@.start + 1,
        ensures
            final(self)@.wf(),
            final(self)@ == (LexerView {
                cursor: old(self)@.start,
                ..old(self)@
            }).after(scan_word(old(self)@.source, old(self)@.start, old(self)@.line)),
    {
        while !self.is_at_end() && self.is_alnum(self.peek())
            invariant
                self@.wf(),
                self@ == (LexerView { cursor: self@.cursor, ..old(self)@ }),
                word_end(self@.source, self@.cursor) == word_end(
                    old(self)@.source,
                    old(self)@.cursor,
                ),
            decreases self@.source.len() - self@.cursor,
        {
            self.advance();
        }
        match self.keyword() {
            Some(ty) => self.add_token(ty),
            None => self.add_token(TokenType::Ident),
        }
    }

    /// The keyword that the current lexeme spells, if it spells one.
    fn keyword(&self) -> (r: Option<TokenType>)
        requires
            self@.wf(),
        ensures
            r == keyword(self@.source.subrange(self@.start, self@.cursor)),
    {
        if self.lexeme_is("if") {
            Some(TokenType::If)
        } else if self.lexeme_is("else") {
            Some(TokenType::Else)
        } else if self.lexeme_is("and") {
            Some(TokenType::And)
        } else if self.lexeme_is("or") {
            Some(TokenType::Or)
        } else if self.lexeme_is("let") {
            Some(TokenType::Let)
        } else if self.lexeme_is("struct") {
            Some(TokenType::Struct)
        } else if self.lexeme_is("self") {
            Some(TokenType::SSelf)
        } else if self.lexeme_is("while") {
            Some(TokenType::While)
        } else if self.lexeme_is("for") {
            Some(TokenType::For)
        } else if self.lexeme_is("return") {
            Some(TokenType::Return)
        } else if self.lexeme_is("fun") {
            Some(TokenType::Fun)
        } else if self.lexeme_is("true") {
            Some(TokenType::True)
        } else if self.lexeme_is("false") {
            Some(TokenType::False)
        } else if self.lexeme_is("null") {
            Some(TokenType::Null)
        } else {
            None
        }
    }

    /// Whether the current lexeme is exactly `word`.
    fn lexeme_is(&self, word: &str) -> (r: bool)
        requires
            self@.wf(),
        ensures
            r == (self@.source.subrange(self@.start, self@.cursor) == word@),
    {
        spells(&self.chars, self.start, self.cursor, word)
    }

    /// A line comment; both slashes have been consumed.
    fn comment(&mut self)
        requires
            old(self)@.wf(),
        ensures
            final(self)@.wf(),
            final(self)@ == (LexerView {
                cursor: until(old(self)@.source, old(self)@.cursor, '\n'),
                ..old(self)@
            }),
    {
        while !self.is_at_end() && self.peek() != '\n'
            invariant
                self@.wf(),
                self@ == (LexerView { cursor: self@.cursor, ..old(self)@ }),
                until(self@.source, self@.cursor, '\n') == until(
                    old(self)@.source,
                    old(self)@.cursor,
                    '\n',
                ),
            decreases self@.source.len() - self@.cursor,
        {
            self.advance();
        }
    }

    /// A block comment; its opening `/*` has been consumed.
    fn multi_line_comment(&mut self)
        requires
            old(self)@.wf(),
            old(self)@.cursor == old(self)@.start + 2,
            peek_at(old(self)@.source, old(self)@.start + 1) == '*',
        ensures
            final(self)@.wf(),
            final(self)@ == (LexerView {
                cursor: old(self)@.start,
                ..old(self)@
            }).after(scan_slash(old(self)@.source, old(self)@.start, old(self)@.line)),
    {
        proof {
            lemma_comment_close_bounds(self@.source, self@.cursor);
        }
        while !self.is_at_end() && !(self.peek() == '*' && self.peek_next() == '/')
            invariant
                self@.wf(),
                self@ == (LexerView { cursor: self@.cursor, line: self@.line, ..old(self)@ }),
                old(self)@.cursor <= self@.cursor,
                self@.cursor < self@.source.len() ==> comment_close(self@.source, self@.cursor)
                    == comment_close(old(self)@.source, old(self)@.cursor),
                self@.cursor == self@.source.len() ==> comment_close(
                    old(self)@.source,
                    old(self)@.cursor,
                ) == self@.source.len(),
                self@.line == line_after(
                    self@.source,
                    old(self)@.cursor,
                    self@.cursor,
                    old(self)@.line,
                ),
            decreases self@.source.len() - self@.cursor,
        {
            if self.peek() == '\n' {
                self.newline();
            }
            self.advance();
        }
        if self.is_at_end() {
            self.error(String::from_str("Unterminated block comment"));
        } else {
            self.advance();
            self.advance();
        }
    }

    /// Consumes the character at the cursor if it is `c`.
    fn next_matches(&mut self, c: char) -> (r: bool)
        requires
            old(self)@.wf(),
        ensures
            r == (peek_at(old(self)@.source, old(self)@.cursor) == c),
            final(self)@ == (LexerView {
                cursor: if r && old(self)@.cursor < old(self)@.source.len() {
                    old(self)@.cursor + 1
                } else {
                    old(self)@.cursor
                },
                ..old(self)@
            }),
    {
        let res = self.peek() == c;
        if res {
            self.advance();
        }
        res
    }

    /// The character at the cursor, or NUL at the end of the text.
    fn peek(&self) -> (c: char)
        ensures
            c == peek_at(self@.source, self@.cursor),
    {
        if self.cursor < self.chars.len() {
            self.chars[self.cursor]
        } else {
            '\0'
        }
    }

    /// The character after the one at the cursor, or NUL past the end.
    fn peek_next(&self) -> (c: char)
        ensures
            c == peek_at(self@.source, self@.cursor + 1),
    {
        if self.cursor < self.chars.len() && self.cursor + 1 < self.chars.len() {
            self.chars[self.cursor + 1]
        } else {
            '\0'
        }
    }

    /// Whether `c` is an ASCII decimal digit.
    fn is_digit(&self, c: char) -> (r: bool)
        ensures
            r == digit(c),
    {
        c >= '0' && c <= '9'
    }

    /// Whether `c` is an ASCII letter or an underscore.
    fn is_alpha(&self, c: char) -> (r: bool)
        ensures
            r == alpha(c),
    {
        (c >= 'a' && c <= 'z') || (c >= 'A' && c <= 'Z') || c == '_'
    }

    /// Whether `c` may continue an identifier.
    fn is_alnum(&self, c: char) -> (r: bool)
        ensures
            r == alnum(c),
    {
        self.is_digit(c) || self.is_alpha(c)
    }

    /// Whether the whole text has been consumed.
    fn is_at_end(&self) -> (r: bool)
        ensures
            r == (self@.cursor >= self@.source.len()),
    {
        self.cursor >= self.chars.len()
    }
}

} // verus!
