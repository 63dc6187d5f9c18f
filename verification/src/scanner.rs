//! The scanner: source text to tokens, in one pass with one character of
//! lookahead.

use vstd::prelude::*;
use vstd::string::StringExecFns;
use crate::text::{i32_to_string, int_text};
use crate::tokens::{LiteralTypes, LiteralView, Token, TokenType, TokenView, tokens_view};

verus! {

pub open spec fn is_digit(c: char) -> bool {
    '0' <= c && c <= '9'
}

pub open spec fn is_alpha(c: char) -> bool {
    ('a' <= c && c <= 'z') || ('A' <= c && c <= 'Z') || c == '_'
}

pub open spec fn is_alpha_numeric(c: char) -> bool {
    is_alpha(c) || is_digit(c)
}

/// The first position at or after `pos` that holds no decimal digit.
pub open spec fn digits_end(src: Seq<char>, pos: int) -> int
    decreases src.len() - pos,
{
    if 0 <= pos < src.len() && is_digit(src[pos]) {
        digits_end(src, pos + 1)
    } else {
        pos
    }
}

/// The first position at or after `pos` that holds no letter, digit or underscore.
pub open spec fn identifier_end(src: Seq<char>, pos: int) -> int
    decreases src.len() - pos,
{
    if 0 <= pos < src.len() && is_alpha_numeric(src[pos]) {
        identifier_end(src, pos + 1)
    } else {
        pos
    }
}

/// The first position at or after `pos` that holds `stop`, or the end of the text.
pub open spec fn find_char(src: Seq<char>, pos: int, stop: char) -> int
    decreases src.len() - pos,
{
    if 0 <= pos < src.len() && src[pos] != stop {
        find_char(src, pos + 1, stop)
    } else {
        pos
    }
}

/// The number of line breaks in `src[from..to]`.
pub open spec fn count_newlines(src: Seq<char>, from: int, to: int) -> int
    decreases to - from,
{
    if 0 <= from < to <= src.len() {
        count_newlines(src, from, to - 1) + if src[to - 1] == '\n' {
            1int
        } else {
            0int
        }
    } else {
        0
    }
}

/// Where a number that starts at `pos` ends: digits, then optionally a dot
/// that is followed by at least one digit, and the digits after it.
pub open spec fn number_end(src: Seq<char>, pos: int) -> int {
    let whole = digits_end(src, pos);
    if whole + 1 < src.len() && src[whole] == '.' && is_digit(src[whole + 1]) {
        digits_end(src, whole + 1)
    } else {
        whole
    }
}

/// The keyword that a word spells, if it spells one.
pub open spec fn keyword_of(word: Seq<char>) -> Option<TokenType> {
    if word == "and"@ {
        Some(TokenType::And)
    } else if word == "class"@ {
        Some(TokenType::Class)
    } else if word == "else"@ {
        Some(TokenType::Else)
    } else if word == "false"@ {
        Some(TokenType::False)
    } else if word == "for"@ {
        Some(TokenType::For)
    } else if word == "fun"@ {
        Some(TokenType::Fun)
    } else if word == "if"@ {
        Some(TokenType::If)
    } else if word == "nil"@ {
        Some(TokenType::Nil)
    } else if word == "or"@ {
        Some(TokenType::Or)
    } else if word == "print"@ {
        Some(TokenType::Print)
    } else if word == "return"@ {
        Some(TokenType::Return)
    } else if word == "super"@ {
        Some(TokenType::Super)
    } else if word == "this"@ {
        Some(TokenType::This)
    } else if word == "true"@ {
        Some(TokenType::True)
    } else if word == "var"@ {
        Some(TokenType::Var)
    } else if word == "while"@ {
        Some(TokenType::While)
    } else {
        None
    }
}

/// The token for the word `word` on line `line`: a keyword (with a boolean
/// payload for `true` and `false`) or an identifier that carries its name.
pub open spec fn word_token(word: Seq<char>, line: int) -> TokenView {
    match keyword_of(word) {
        Some(TokenType::True) => TokenView {
            token_type: TokenType::True,
            lexeme: word,
            literal: LiteralView::Bool(true),
            line,
        },
        Some(TokenType::False) => TokenView {
            token_type: TokenType::False,
            lexeme: word,
            literal: LiteralView::Bool(false),
            line,
        },
        Some(t) => TokenView { token_type: t, lexeme: word, literal: LiteralView::Nil, line },
        None => TokenView {
            token_type: TokenType::Identifier,
            lexeme: word,
            literal: LiteralView::String(word),
            line,
        },
    }
}

/// The text of a scanner diagnostic.
pub open spec fn scan_error_text(line: int, message: Seq<char>) -> Seq<char> {
    "[line "@ + int_text(line) + "] Error : "@ + message
}

/// What the scanner has done so far: the position of the next unread
/// character, the current line, and the tokens and diagnostics produced.
pub struct ScanState {
    pub pos: int,
    pub line: int,
    pub tokens: Seq<TokenView>,
    pub errors: Seq<Seq<char>>,
}

/// A token without payload whose lexeme is `src[from..to]`.
pub open spec fn plain_token(src: Seq<char>, from: int, to: int, t: TokenType, line: int) -> TokenView {
    TokenView { token_type: t, lexeme: src.subrange(from, to), literal: LiteralView::Nil, line }
}

/// The state after a one-character token of kind `t`.
pub open spec fn after_single(src: Seq<char>, st: ScanState, t: TokenType) -> ScanState {
    ScanState {
        pos: st.pos + 1,
        tokens: st.tokens.push(plain_token(src, st.pos, st.pos + 1, t, st.line)),
        ..st
    }
}

/// The state after an operator that is `two` when the next character is
/// `=` and `one` otherwise.
pub open spec fn after_operator(src: Seq<char>, st: ScanState, one: TokenType, two: TokenType) -> ScanState {
    if st.pos + 1 < src.len() && src[st.pos + 1] == '=' {
        ScanState {
            pos: st.pos + 2,
            tokens: st.tokens.push(plain_token(src, st.pos, st.pos + 2, two, st.line)),
            ..st
        }
    } else {
        after_single(src, st, one)
    }
}

/// The state after the lexeme that starts at `st.pos`, which must lie
/// inside the text.
pub open spec fn scan_token_spec(src: Seq<char>, st: ScanState) -> ScanState {
    let c = src[st.pos];
    let p = st.pos;
    if c == '(' {
        after_single(src, st, TokenType::LeftParen)
    } else if c == ')' {
        after_single(src, st, TokenType::RightParen)
    } else if c == '{' {
        after_single(src, st, TokenType::LeftBrace)
    } else if c == '}' {
        after_single(src, st, TokenType::RightBrace)
    } else if c == ',' {
        after_single(src, st, TokenType::Comma)
    } else if c == '.' {
        after_single(src, st, TokenType::Dot)
    } else if c == '-' {
        after_single(src, st, TokenType::Minus)
    } else if c == '+' {
        after_single(src, st, TokenType::Plus)
    } else if c == ';' {
        after_single(src, st, TokenType::Semicolon)
    } else if c == '*' {
        after_single(src, st, TokenType::Star)
    } else if c == '!' {
        after_operator(src, st, TokenType::Bang, TokenType::BangEqual)
    } else if c == '=' {
        after_operator(src, st, TokenType::Equal, TokenType::EqualEqual)
    } else if c == '<' {
        after_operator(src, st, TokenType::Less, TokenType::LessEqual)
    } else if c == '>' {
        after_operator(src, st, TokenType::Greater, TokenType::GreaterEqual)
    } else if c == '/' {
        if p + 1 < src.len() && src[p + 1] == '/' {
            ScanState { pos: find_char(src, p + 2, '\n'), ..st }
        } else {
            after_single(src, st, TokenType::Slash)
        }
    } else if c == ' ' || c == '\r' || c == '\t' {
        ScanState { pos: p + 1, ..st }
    } else if c == '\n' {
        ScanState { pos: p + 1, line: st.line + 1, ..st }
    } else if c == '"' {
        let close = find_char(src, p + 1, '"');
        let line = st.line + count_newlines(src, p + 1, close);
        if close >= src.len() {
            ScanState {
                pos: close,
                line,
                errors: st.errors.push(scan_error_text(line, "Unterminated string."@)),
                ..st
            }
        } else {
            ScanState {
                pos: close + 1,
                line,
                tokens: st.tokens.push(
                    TokenView {
                        token_type: TokenType::String,
                        lexeme: src.subrange(p, close + 1),
                        literal: LiteralView::String(src.subrange(p + 1, close)),
                        line,
                    },
                ),
                ..st
            }
        }
    } else if is_digit(c) {
        let end = number_end(src, p);
        ScanState {
            pos: end,
            tokens: st.tokens.push(
                TokenView {
                    token_type: TokenType::Number,
                    lexeme: src.subrange(p, end),
                    literal: LiteralView::Number(src.subrange(p, end)),
                    line: st.line,
                },
            ),
            ..st
        }
    } else if is_alpha(c) {
        let end = identifier_end(src, p);
        ScanState { pos: end, tokens: st.tokens.push(word_token(src.subrange(p, end), st.line)), ..st }
    } else {
        ScanState {
            pos: p + 1,
            errors: st.errors.push(scan_error_text(st.line, "Unexpected character."@)),
            ..st
        }
    }
}

/// The state when the whole text from `st.pos` on has been read.
pub open spec fn scan_rest(src: Seq<char>, st: ScanState) -> ScanState
    decreases src.len() - st.pos,
{
    if 0 <= st.pos < src.len() {
        let next = scan_token_spec(src, st);
        if st.pos < next.pos <= src.len() {
            scan_rest(src, next)
        } else {
            st
        }
    } else {
        st
    }
}

/// The end-of-input token on line `line`.
pub open spec fn eof_token(line: int) -> TokenView {
    TokenView { token_type: TokenType::Eof, lexeme: Seq::empty(), literal: LiteralView::Nil, line }
}

/// The state when the whole text from `st.pos` on has been read and the
/// end-of-input token has been added.
pub open spec fn scan_to_end(src: Seq<char>, st: ScanState) -> ScanState {
    let done = scan_rest(src, st);
    ScanState { tokens: done.tokens.push(eof_token(done.line)), ..done }
}

/// The state of a scanner that has read nothing yet.
pub open spec fn scan_start() -> ScanState {
    ScanState { pos: 0, line: 1, tokens: Seq::empty(), errors: Seq::empty() }
}

/// The tokens of a source text, ending in the end-of-input token.
pub open spec fn scan_spec(src: Seq<char>) -> Seq<TokenView> {
    scan_to_end(src, scan_start()).tokens
}

/// The diagnostics that scanning a source text gives, in order.
pub open spec fn scan_errors_spec(src: Seq<char>) -> Seq<Seq<char>> {
    scan_to_end(src, scan_start()).errors
}

pub open spec fn strings_view(v: Seq<String>) -> Seq<Seq<char>> {
    Seq::new(v.len(), |i: int| v[i]@)
}

pub proof fn lemma_digits_end_bounds(src: Seq<char>, pos: int)
    requires
        0 <= pos <= src.len(),
    ensures
        pos <= digits_end(src, pos) <= src.len(),
    decreases src.len() - pos,
{
    if pos < src.len() && is_digit(src[pos]) {
        lemma_digits_end_bounds(src, pos + 1);
    }
}

pub proof fn lemma_identifier_end_bounds(src: Seq<char>, pos: int)
    requires
        0 <= pos <= src.len(),
    ensures
        pos <= identifier_end(src, pos) <= src.len(),
    decreases src.len() - pos,
{
    if pos < src.len() && is_alpha_numeric(src[pos]) {
        lemma_identifier_end_bounds(src, pos + 1);
    }
}

pub proof fn lemma_find_char_bounds(src: Seq<char>, pos: int, stop: char)
    requires
        0 <= pos <= src.len(),
    ensures
        pos <= find_char(src, pos, stop) <= src.len(),
    decreases src.len() - pos,
{
    if pos < src.len() && src[pos] != stop {
        lemma_find_char_bounds(src, pos + 1, stop);
    }
}

pub proof fn lemma_count_newlines_bounds(src: Seq<char>, from: int, to: int)
    ensures
        0 <= count_newlines(src, from, to),
        0 <= from <= to ==> count_newlines(src, from, to) <= to - from,
    decreases to - from,
{
    if 0 <= from < to <= src.len() {
        lemma_count_newlines_bounds(src, from, to - 1);
    }
}

/// A scanner over one source text. Diagnostics are collected in `errors`,
/// in the order in which they arise; `had_error` is set with the first.
pub struct Scanner {
    source: String,
    chars: Vec<char>,
    pub had_error: bool,
    pub errors: Vec<String>,
    tokens: Vec<Token>,
    start: usize,
    current: usize,
    line: i32,
}

fn is_digit_char(c: char) -> (r: bool)
    ensures
        r == is_digit(c),
{
    '0' <= c && c <= '9'
}

impl Scanner {
    /// The source text, as a sequence of characters.
    pub closed spec fn source_text(&self) -> Seq<char> {
        self.chars@
    }

    /// The tokens produced so far.
    pub closed spec fn produced(&self) -> Vec<Token> {
        self.tokens
    }

    /// Position, line, tokens and diagnostics so far.
    pub closed spec fn state(&self) -> ScanState {
        ScanState {
            pos: self.current as int,
            line: self.line as int,
            tokens: tokens_view(self.tokens@),
            errors: strings_view(self.errors@),
        }
    }

    /// The scanner's invariant: the position lies inside the text and the
    /// line counter cannot overflow.
    pub closed spec fn wf(&self) -> bool {
        &&& self.chars@ == self.source@
        &&& self.current <= self.chars@.len()
        &&& self.chars@.len() < i32::MAX
        &&& 1 <= self.line <= self.current + 1
    }

    /// Whether a diagnostic has been recorded.
    pub closed spec fn has_failed(&self) -> bool {
        self.had_error
    }

    /// A scanner at the start of `source`. The text is limited to what a
    /// 32-bit line counter can number.
    pub fn new(source: String) -> (r: Self)
        requires
            source@.len() < i32::MAX,
        ensures
            r.wf(),
            r.source_text() == source@,
            r.state() == scan_start(),
            !r.has_failed(),
    {
        let mut chars: Vec<char> = Vec::new();
        for c in it: source.as_str().chars()
            invariant
                it.seq() == source@,
                chars@ == source@.take(it.index() as int),
        {
            chars.push(c);
            assert(chars@ =~= source@.take(it.index() + 1));
        }
        assert(chars@ =~= source@);
        let r = Scanner {
            source,
            chars,
            had_error: false,
            errors: Vec::new(),
            tokens: Vec::new(),
            start: 0,
            current: 0,
            line: 1,
        };
        assert(r.state().tokens =~= Seq::empty());
        assert(r.state().errors =~= Seq::empty());
        r
    }

    /// Reads the rest of the text and adds the end-of-input token.
    pub fn scan_tokens(&mut self) -> (r: &Vec<Token>)
        requires
            old(self).wf(),
        ensures
            final(self).wf(),
            final(self).source_text() == old(self).source_text(),
            final(self).state() == scan_to_end(old(self).source_text(), old(self).state()),
            final(self).has_failed() == (old(self).has_failed() || final(self).state().errors.len()
                > old(self).state().errors.len()),
            *r == final(self).produced(),
    {
        while !self.is_at_end()
            invariant
                self.wf(),
                self.source_text() == old(self).source_text(),
                scan_rest(self.source_text(), self.state()) == scan_rest(
                    old(self).source_text(),
                    old(self).state(),
                ),
                self.errors@.len() >= old(self).errors@.len(),
                self.had_error == (old(self).had_error || self.errors@.len() > old(
                    self,
                ).errors@.len()),
            decreases self.chars@.len() - self.current,
        {
            self.start = self.current;
            self.scan_token();
        }
        let eof = Token::new(TokenType::Eof, String::new(), LiteralTypes::Nil, self.line);
        self.tokens.push(eof);
        assert(tokens_view(self.tokens@) =~= scan_rest(
            old(self).source_text(),
            old(self).state(),
        ).tokens.push(eof_token(self.line as int)));
        &self.tokens
    }

    /// Whether a diagnostic has been recorded.
    pub fn failed(&self) -> (r: bool)
        ensures
            r == self.has_failed(),
    {
        self.had_error
    }

    /// The diagnostics recorded so far, in the order in which they arose.
    pub fn diagnostics(&self) -> (r: &Vec<String>)
        ensures
            strings_view(r@) == self.state().errors,
    {
        &self.errors
    }

    /// Hands over the tokens produced.
    pub fn into_tokens(self) -> (r: Vec<Token>)
        ensures
            r == self.produced(),
            tokens_view(r@) == self.state().tokens,
    {
        self.tokens
    }

    fn scan_token(&mut self)
        requires
            old(self).wf(),
            old(self).current < old(self).chars@.len(),
            old(self).start == old(self).current,
        ensures
            final(self).wf(),
            final(self).source_text() == old(self).source_text(),
            final(self).state() == scan_token_spec(old(self).source_text(), old(self).state()),
            final(self).current > old(self).current,
            final(self).errors@.len() >= old(self).errors@.len(),
            final(self).had_error == (old(self).had_error || final(self).errors@.len() > old(
                self,
            ).errors@.len()),
    {
        let c = self.advance();
        if c == '(' {
            self.add_token(TokenType::LeftParen)
        } else if c == ')' {
            self.add_token(TokenType::RightParen)
        } else if c == '{' {
            self.add_token(TokenType::LeftBrace)
        } else if c == '}' {
            self.add_token(TokenType::RightBrace)
        } else if c == ',' {
            self.add_token(TokenType::Comma)
        } else if c == '.' {
            self.add_token(TokenType::Dot)
        } else if c == '-' {
            self.add_token(TokenType::Minus)
        } else if c == '+' {
            self.add_token(TokenType::Plus)
        } else if c == ';' {
            self.add_token(TokenType::Semicolon)
        } else if c == '*' {
            self.add_token(TokenType::Star)
        } else if c == '!' {
            if self.match_next('=') {
                self.add_token(TokenType::BangEqual)
            } else {
                self.add_token(TokenType::Bang)
            }
        } else if c == '=' {
            if self.match_next('=') {
                self.add_token(TokenType::EqualEqual)
            } else {
                self.add_token(TokenType::Equal)
            }
        } else if c == '<' {
            if self.match_next('=') {
                self.add_token(TokenType::LessEqual)
            } else {
                self.add_token(TokenType::Less)
            }
        } else if c == '>' {
            if self.match_next('=') {
                self.add_token(TokenType::GreaterEqual)
            } else {
                self.add_token(TokenType::Greater)
            }
        } else if c == '/' {
            if self.match_next('/') {
                // A comment goes until the end of the line.
                self.skip_until('\n');
            } else {
                self.add_token(TokenType::Slash);
            }
        } else if c == ' ' || c == '\r' || c == '\t' {
            // Ignore whitespace.
        } else if c == '\n' {
            self.line = self.line + 1;
        } else if c == '"' {
            self.string();
        } else if is_digit_char(c) {
            self.number();
        } else if self.is_alpha(c) {
            self.identifier();
        } else {
            self.error(self.line, "Unexpected character.");
        }
    }

    /// Moves to the next `stop`, or to the end of the text.
    fn skip_until(&mut self, stop: char)
        requires
            old(self).wf(),
        ensures
            final(self).wf(),
            final(self).current == find_char(old(self).chars@, old(self).current as int, stop),
            final(self).current >= old(self).current,
            final(self).chars == old(self).chars,
            final(self).source == old(self).source,
            final(self).tokens == old(self).tokens,
            final(self).errors == old(self).errors,
            final(self).had_error == old(self).had_error,
            final(self).line == old(self).line,
            final(self).start == old(self).start,
    {
        while !self.is_at_end() && self.peek() != stop
            invariant
                self.wf(),
                self.current >= old(self).current,
                find_char(self.chars@, self.current as int, stop) == find_char(
                    old(self).chars@,
                    old(self).current as int,
                    stop,
                ),
                self.chars == old(self).chars,
                self.source == old(self).source,
                self.tokens == old(self).tokens,
                self.errors == old(self).errors,
                self.had_error == old(self).had_error,
                self.line == old(self).line,
                self.start == old(self).start,
            decreases self.chars@.len() - self.current,
        {
            self.current = self.current + 1;
        }
    }

    fn get_keyword(&self) -> (r: Option<TokenType>)
        requires
            self.wf(),
            self.start <= self.current,
        ensures
            r == keyword_of(self.chars@.subrange(self.start as int, self.current as int)),
    {
        if self.word_is("and") {
            Some(TokenType::And)
        } else if self.word_is("class") {
            Some(TokenType::Class)
        } else if self.word_is("else") {
            Some(TokenType::Else)
        } else if self.word_is("false") {
            Some(TokenType::False)
        } else if self.word_is("for") {
            Some(TokenType::For)
        } else if self.word_is("fun") {
            Some(TokenType::Fun)
        } else if self.word_is("if") {
            Some(TokenType::If)
        } else if self.word_is("nil") {
            Some(TokenType::Nil)
        } else if self.word_is("or") {
            Some(TokenType::Or)
        } else if self.word_is("print") {
            Some(TokenType::Print)
        } else if self.word_is("return") {
            Some(TokenType::Return)
        } else if self.word_is("super") {
            Some(TokenType::Super)
        } else if self.word_is("this") {
            Some(TokenType::This)
        } else if self.word_is("true") {
            Some(TokenType::True)
        } else if self.word_is("var") {
            Some(TokenType::Var)
        } else if self.word_is("while") {
            Some(TokenType::While)
        } else {
            None
        }
    }

    /// Whether the current lexeme spells `word`.
    fn word_is(&self, word: &str) -> (r: bool)
        requires
            self.wf(),
            self.start <= self.current,
        ensures
            r == (self.chars@.subrange(self.start as int, self.current as int) == word@),
    {
        let n = word.unicode_len();
        if self.current - self.start != n {
            return false;
        }
        let ghost lexeme = self.chars@.subrange(self.start as int, self.current as int);
        let mut i: usize = 0;
        while i < n
            invariant
                i <= n,
                n == word@.len(),
                self.wf(),
                self.start <= self.current,
                self.current - self.start == n,
                lexeme == self.chars@.subrange(self.start as int, self.current as int),
                forall|j: int| 0 <= j < i ==> lexeme[j] == word@[j],
            decreases n - i,
        {
            if self.chars[self.start + i] != word.get_char(i) {
                assert(lexeme[i as int] != word@[i as int]);
                return false;
            }
            i = i + 1;
        }
        assert(lexeme =~= word@);
        true
    }

    fn identifier(&mut self)
        requires
            old(self).wf(),
            old(self).start + 1 == old(self).current,
            is_alpha(old(self).chars@[old(self).start as int]),
        ensures
            final(self).wf(),
            final(self).source_text() == old(self).source_text(),
            final(self).current == identifier_end(old(self).chars@, old(self).start as int),
            final(self).current >= old(self).current,
            final(self).line == old(self).line,
            final(self).errors == old(self).errors,
            final(self).had_error == old(self).had_error,
            tokens_view(final(self).tokens@) == tokens_view(old(self).tokens@).push(
                word_token(
                    old(self).chars@.subrange(old(self).start as int, final(self).current as int),
                    old(self).line as int,
                ),
            ),
    {
        while !self.is_at_end() && self.is_alpha_numeric(self.peek())
            invariant
                self.wf(),
                self.current >= old(self).current,
                identifier_end(self.chars@, self.current as int) == identifier_end(
                    old(self).chars@,
                    old(self).start as int,
                ),
                self.chars == old(self).chars,
                self.source == old(self).source,
                self.tokens == old(self).tokens,
                self.errors == old(self).errors,
                self.had_error == old(self).had_error,
                self.line == old(self).line,
                self.start == old(self).start,
            decreases self.chars@.len() - self.current,
        {
            self.current = self.current + 1;
        }
        let token_type = self.get_keyword();
        match token_type {
            Some(t) => match t {
                TokenType::True => self.add_token_with_literal(t, LiteralTypes::Bool(true)),
                TokenType::False => self.add_token_with_literal(t, LiteralTypes::Bool(false)),
                _ => self.add_token_with_literal(t, LiteralTypes::Nil),
            },
            None => {
                let name = self.lexeme();
                self.add_token_with_literal(TokenType::Identifier, LiteralTypes::String(name))
            },
        }
    }

    fn number(&mut self)
        requires
            old(self).wf(),
            old(self).start + 1 == old(self).current,
            is_digit(old(self).chars@[old(self).start as int]),
        ensures
            final(self).wf(),
            final(self).source_text() == old(self).source_text(),
            final(self).current == number_end(old(self).chars@, old(self).start as int),
            final(self).current >= old(self).current,
            final(self).line == old(self).line,
            final(self).errors == old(self).errors,
            final(self).had_error == old(self).had_error,
            tokens_view(final(self).tokens@) == tokens_view(old(self).tokens@).push(
                TokenView {
                    token_type: TokenType::Number,
                    lexeme: old(self).chars@.subrange(
                        old(self).start as int,
                        final(self).current as int,
                    ),
                    literal: LiteralView::Number(
                        old(self).chars@.subrange(
                            old(self).start as int,
                            final(self).current as int,
                        ),
                    ),
                    line: old(self).line as int,
                },
            ),
    {
        self.skip_digits();
        // Look for a fractional part.
        if !self.is_at_end() && self.peek() == '.' && is_digit_char(self.peek_next()) {
            // Consume the "."
            self.current = self.current + 1;
            self.skip_digits();
        }
        let text = self.lexeme();
        self.add_token_with_literal(TokenType::Number, LiteralTypes::Number(text));
    }

    fn skip_digits(&mut self)
        requires
            old(self).wf(),
        ensures
            final(self).wf(),
            final(self).current == digits_end(old(self).chars@, old(self).current as int),
            final(self).current >= old(self).current,
            final(self).chars == old(self).chars,
            final(self).source == old(self).source,
            final(self).tokens == old(self).tokens,
            final(self).errors == old(self).errors,
            final(self).had_error == old(self).had_error,
            final(self).line == old(self).line,
            final(self).start == old(self).start,
    {
        while !self.is_at_end() && is_digit_char(self.peek())
            invariant
                self.wf(),
                self.current >= old(self).current,
                digits_end(self.chars@, self.current as int) == digits_end(
                    old(self).chars@,
                    old(self).current as int,
                ),
                self.chars == old(self).chars,
                self.source == old(self).source,
                self.tokens == old(self).tokens,
                self.errors == old(self).errors,
                self.had_error == old(self).had_error,
                self.line == old(self).line,
                self.start == old(self).start,
            decreases self.chars@.len() - self.current,
        {
            self.current = self.current + 1;
        }
    }

    fn string(&mut self)
        requires
            old(self).wf(),
            old(self).start + 1 == old(self).current,
        ensures
            final(self).wf(),
            final(self).source_text() == old(self).source_text(),
            final(self).state() == ({
                let src = old(self).chars@;
                let p = old(self).start as int;
                let st = old(self).state();
                let close = find_char(src, p + 1, '"');
                let line = st.line + count_newlines(src, p + 1, close);
                if close >= src.len() {
                    ScanState {
                        pos: close,
                        line,
                        errors: st.errors.push(scan_error_text(line, "Unterminated string."@)),
                        ..st
                    }
                } else {
                    ScanState {
                        pos: close + 1,
                        line,
                        tokens: st.tokens.push(
                            TokenView {
                                token_type: TokenType::String,
                                lexeme: src.subrange(p, close + 1),
                                literal: LiteralView::String(src.subrange(p + 1, close)),
                                line,
                            },
                        ),
                        ..st
                    }
                }
            }),
            final(self).current >= old(self).current,
            final(self).errors@.len() >= old(self).errors@.len(),
            final(self).had_error == (old(self).had_error || final(self).errors@.len() > old(
                self,
            ).errors@.len()),
    {
        while !self.is_at_end() && self.peek() != '"'
            invariant
                self.wf(),
                self.current >= old(self).current,
                find_char(self.chars@, self.current as int, '"') == find_char(
                    old(self).chars@,
                    old(self).current as int,
                    '"',
                ),
                self.line == old(self).line + count_newlines(
                    self.chars@,
                    old(self).current as int,
                    self.current as int,
                ),
                self.line <= old(self).line + (self.current - old(self).current),
                self.chars == old(self).chars,
                self.source == old(self).source,
                self.tokens == old(self).tokens,
                self.errors == old(self).errors,
                self.had_error == old(self).had_error,
                self.start == old(self).start,
            decreases self.chars@.len() - self.current,
        {
            if self.peek() == '\n' {
                self.line = self.line + 1;
            }
            self.current = self.current + 1;
        }
        if self.is_at_end() {
            self.error(self.line, "Unterminated string.");
            return ;
        }
        // The closing ".
        self.current = self.current + 1;
        // Trim the surrounding quotes.
        let value = self.source.as_str().substring_char(self.start + 1, self.current - 1).to_owned();
        self.add_token_with_literal(TokenType::String, LiteralTypes::String(value));
    }

    fn match_next(&mut self, expected: char) -> (r: bool)
        requires
            old(self).wf(),
        ensures
            final(self).wf(),
            r == (old(self).current < old(self).chars@.len() && old(self).chars@[old(
                self,
            ).current as int] == expected),
            final(self).current == if r {
                old(self).current + 1
            } else {
                old(self).current as int
            },
            final(self).chars == old(self).chars,
            final(self).source == old(self).source,
            final(self).tokens == old(self).tokens,
            final(self).errors == old(self).errors,
            final(self).had_error == old(self).had_error,
            final(self).line == old(self).line,
            final(self).start == old(self).start,
    {
        if self.is_at_end() {
            return false;
        }
        let c = self.chars[self.current];
        if c != expected {
            return false;
        }
        self.current = self.current + 1;
        true
    }

    fn peek(&self) -> (c: char)
        requires
            self.current < self.chars@.len(),
        ensures
            c == self.chars@[self.current as int],
    {
        self.chars[self.current]
    }

    /// The character after the next, or NUL at the end of the text.
    fn peek_next(&self) -> (c: char)
        requires
            self.wf(),
            self.current < self.chars@.len(),
        ensures
            self.current + 1 < self.chars@.len() ==> c == self.chars@[self.current + 1],
            self.current + 1 >= self.chars@.len() ==> c == '\0',
    {
        if self.current + 1 >= self.chars.len() {
            '\0'
        } else {
            self.chars[self.current + 1]
        }
    }

    fn is_alpha_numeric(&self, c: char) -> (r: bool)
        ensures
            r == is_alpha_numeric(c),
    {
        self.is_alpha(c) || is_digit_char(c)
    }

    fn is_alpha(&self, c: char) -> (r: bool)
        ensures
            r == is_alpha(c),
    {
        (c >= 'a' && c <= 'z') || (c >= 'A' && c <= 'Z') || c == '_'
    }

    fn is_at_end(&self) -> (r: bool)
        ensures
            r == (self.current >= self.chars@.len()),
    {
        self.current >= self.chars.len()
    }

    fn advance(&mut self) -> (c: char)
        requires
            old(self).wf(),
            old(self).current < old(self).chars@.len(),
        ensures
            final(self).wf(),
            c == old(self).chars@[old(self).current as int],
            final(self).current == old(self).current + 1,
            final(self).chars == old(self).chars,
            final(self).source == old(self).source,
            final(self).tokens == old(self).tokens,
            final(self).errors == old(self).errors,
            final(self).had_error == old(self).had_error,
            final(self).line == old(self).line,
            final(self).start == old(self).start,
    {
        let c = self.chars[self.current];
        self.current = self.current + 1;
        c
    }

    /// The text of the current lexeme.
    fn lexeme(&self) -> (r: String)
        requires
            self.wf(),
            self.start <= self.current,
        ensures
            r@ == self.chars@.subrange(self.start as int, self.current as int),
    {
        self.source.as_str().substring_char(self.start, self.current).to_owned()
    }

    fn add_token(&mut self, token_type: TokenType)
        requires
            old(self).wf(),
            old(self).start <= old(self).current,
        ensures
            final(self).wf(),
            final(self).current == old(self).current,
            final(self).chars == old(self).chars,
            final(self).source == old(self).source,
            final(self).errors == old(self).errors,
            final(self).had_error == old(self).had_error,
            final(self).line == old(self).line,
            final(self).start == old(self).start,
            tokens_view(final(self).tokens@) == tokens_view(old(self).tokens@).push(
                plain_token(
                    old(self).chars@,
                    old(self).start as int,
                    old(self).current as int,
                    token_type,
                    old(self).line as int,
                ),
            ),
    {
        self.add_token_with_literal(token_type, LiteralTypes::Nil);
    }

    fn add_token_with_literal(&mut self, token_type: TokenType, literal: LiteralTypes)
        requires
            old(self).wf(),
            old(self).start <= old(self).current,
        ensures
            final(self).wf(),
            final(self).current == old(self).current,
            final(self).chars == old(self).chars,
            final(self).source == old(self).source,
            final(self).errors == old(self).errors,
            final(self).had_error == old(self).had_error,
            final(self).line == old(self).line,
            final(self).start == old(self).start,
            tokens_view(final(self).tokens@) == tokens_view(old(self).tokens@).push(
                TokenView {
                    token_type,
                    lexeme: old(self).chars@.subrange(
                        old(self).start as int,
                        old(self).current as int,
                    ),
                    literal: literal@,
                    line: old(self).line as int,
                },
            ),
    {
        let text = self.lexeme();
        let token = Token::new(token_type, text, literal, self.line);
        self.tokens.push(token);
        assert(tokens_view(self.tokens@) =~= tokens_view(old(self).tokens@).push(token@));
    }

    fn error(&mut self, line: i32, message: &str)
        requires
            old(self).wf(),
        ensures
            final(self).wf(),
            final(self).current == old(self).current,
            final(self).chars == old(self).chars,
            final(self).source == old(self).source,
            final(self).tokens == old(self).tokens,
            final(self).line == old(self).line,
            final(self).start == old(self).start,
            final(self).had_error,
            final(self).errors@.len() == old(self).errors@.len() + 1,
            strings_view(final(self).errors@) == strings_view(old(self).errors@).push(
                scan_error_text(line as int, message@),
            ),
    {
        self.report(line, "", message);
        proof {
            reveal_strlit("] Error ");
            reveal_strlit("");
            reveal_strlit(": ");
            reveal_strlit("] Error : ");
            assert("] Error "@ + ""@ + ": "@ =~= "] Error : "@);
            assert("[line "@ + int_text(line as int) + "] Error "@ + ""@ + ": "@ + message@
                =~= "[line "@ + int_text(line as int) + ("] Error "@ + ""@ + ": "@) + message@);
        }
    }

    fn report(&mut self, line: i32, location: &str, message: &str)
        requires
            old(self).wf(),
        ensures
            final(self).wf(),
            final(self).current == old(self).current,
            final(self).chars == old(self).chars,
            final(self).source == old(self).source,
            final(self).tokens == old(self).tokens,
            final(self).line == old(self).line,
            final(self).start == old(self).start,
            final(self).had_error,
            final(self).errors@.len() == old(self).errors@.len() + 1,
            strings_view(final(self).errors@) == strings_view(old(self).errors@).push(
                "[line "@ + int_text(line as int) + "] Error "@ + location@ + ": "@ + message@,
            ),
    {
        let mut text = String::from_str("[line ");
        let number = i32_to_string(line);
        text.append(number.as_str());
        text.append("] Error ");
        text.append(location);
        text.append(": ");
        text.append(message);
        self.errors.push(text);
        self.had_error = true;
        assert(strings_view(self.errors@) =~= strings_view(old(self).errors@).push(text@));
    }
}

} // verus!
