//! The tokenizer: a single pass over the characters of a source text.

use crate::error::{Diagnostic, ParserError};
use crate::grammar::terminated;
use crate::laws::lemma_scan_is_terminated;
use crate::scan::{
    col_at, comment_tail, decimal_shape, digit_run, error_at, hex_run, is_digit, is_hex_digit,
    is_letter, is_space, is_word_char, keyword_of, lexeme_at, line_at, line_rest, number_shape,
    peek, scan, scan_from, string_tail, unescape, word_run, Lexeme,
};
use crate::text::{chars_of, same_text};
use crate::token::{Token, TokenType, TokenView};
use vstd::prelude::*;

verus! {

/// A tokenizer over one source text. `tokens` and `errors` hold what the
/// last run of [`Lexer::tokenize`] produced.
pub struct Lexer {
    pub errors: Vec<ParserError>,
    pub tokens: Vec<Token>,
    /// The characters of the source text.
    pub source: Vec<char>,
    /// The line of the cursor.
    pub line: usize,
    /// The column of the cursor.
    pub col: usize,
    /// The cursor: the index of the next character to read.
    pub c: usize,
}

/// Lines and columns never run ahead of the position.
pub proof fn lemma_position_bound(src: Seq<char>, pos: int)
    ensures
        1 <= line_at(src, pos) <= pos + 1 || pos < 0,
        1 <= col_at(src, pos) <= pos + 1 || pos < 0,
        1 <= line_at(src, pos),
        1 <= col_at(src, pos),
    decreases pos,
{
    if pos > 0 && pos <= src.len() {
        lemma_position_bound(src, pos - 1);
    }
}

/// Whether `c` is a blank character.
pub fn space(c: char) -> (b: bool)
    ensures
        b == is_space(c),
{
    c == ' ' || c == '\t' || c == '\n' || c == '\r' || c == '\x0C'
}

/// Whether `c` is a decimal digit.
pub fn digit(c: char) -> (b: bool)
    ensures
        b == is_digit(c),
{
    '0' <= c && c <= '9'
}

/// Whether `c` may start a word.
pub fn letter(c: char) -> (b: bool)
    ensures
        b == is_letter(c),
{
    ('a' <= c && c <= 'z') || ('A' <= c && c <= 'Z') || c == '_'
}

/// Whether `c` may continue a word.
pub fn word_char(c: char) -> (b: bool)
    ensures
        b == is_word_char(c),
{
    letter(c) || digit(c)
}

/// Whether `c` is a hexadecimal digit.
pub fn hex_digit(c: char) -> (b: bool)
    ensures
        b == is_hex_digit(c),
{
    digit(c) || ('a' <= c && c <= 'f') || ('A' <= c && c <= 'F')
}

/// The character that an escape sequence stands for, given the character
/// after the backslash.
pub fn unescaped(c: char) -> (u: char)
    ensures
        u == unescape(c),
{
    match c {
        '0' => '\0',
        'n' => '\n',
        'r' => '\r',
        't' => '\t',
        c => c,
    }
}

impl Lexer {
    /// The cursor is inside the text or at its end, and the line and column
    /// are those of the cursor.
    pub open spec fn wf(&self) -> bool {
        &&& self.c <= self.source@.len()
        &&& self.source@.len() < usize::MAX
        &&& self.line == line_at(self.source@, self.c as int)
        &&& self.col == col_at(self.source@, self.c as int)
    }

    /// Nothing but the cursor differs between `self` and `other`.
    pub open spec fn same_output(&self, other: &Lexer) -> bool {
        &&& self.source@ == other.source@
        &&& self.tokens == other.tokens
        &&& self.errors == other.errors
    }

    /// A tokenizer for `source`, which has not run yet.
    pub fn new(source: String) -> (lexer: Lexer)
        ensures
            lexer.source@ == source@,
            lexer.tokens@.len() == 0,
            lexer.errors@.len() == 0,
    {
        Lexer {
            errors: Vec::new(),
            tokens: Vec::new(),
            source: chars_of(source.as_str()),
            line: 1,
            col: 1,
            c: 0,
        }
    }

    /// Whether the cursor is at the end of the text.
    fn is_end(&self) -> (end: bool)
        ensures
            end == (self.c >= self.source@.len()),
    {
        self.c >= self.source.len()
    }

    /// The character under the cursor.
    fn current(&self) -> (ch: char)
        requires
            self.c < self.source@.len(),
        ensures
            ch == self.source@[self.c as int],
    {
        self.source[self.c]
    }

    /// The character after the one under the cursor, or NUL where there is
    /// none.
    fn next_char(&self) -> (ch: char)
        requires
            self.wf(),
        ensures
            ch == peek(self.source@, self.c + 1),
    {
        if self.c + 1 < self.source.len() {
            self.source[self.c + 1]
        } else {
            '\0'
        }
    }

    /// Moves the cursor one character on, unless it is at the end, and
    /// returns the character that is then under it (NUL at the end).
    fn advance(&mut self) -> (ch: char)
        requires
            old(self).wf(),
        ensures
            final(self).wf(),
            final(self).same_output(old(self)),
            final(self).c == if old(self).c < old(self).source@.len() {
                old(self).c + 1
            } else {
                old(self).c as int
            },
            ch == peek(final(self).source@, final(self).c as int),
    {
        if !self.is_end() {
            proof {
                lemma_position_bound(self.source@, self.c as int);
            }
            if self.current() == '\n' {
                self.line += 1;
                self.col = 1;
            } else {
                self.col += 1;
            }
            self.c += 1;
        }
        if self.c < self.source.len() {
            self.source[self.c]
        } else {
            '\0'
        }
    }

    /// Appends a token of `kind` with text `value` that starts at `line`,
    /// `col`.
    fn add_token_at(&mut self, kind: TokenType, value: String, line: usize, col: usize)
        ensures
            final(self).source@ == old(self).source@,
            final(self).errors == old(self).errors,
            final(self).line == old(self).line,
            final(self).col == old(self).col,
            final(self).c == old(self).c,
            final(self).tokens.deep_view() == old(self).tokens.deep_view().push(
                TokenView { kind, text: value@, line: line as nat, col: col as nat },
            ),
    {
        let ghost before = self.tokens.deep_view();
        let token = Token::new(kind, value, line, col);
        self.tokens.push(token);
        assert(self.tokens.deep_view() =~= before.push(token@));
    }

    /// Appends a token of `kind` with text `value` that starts at the
    /// cursor.
    fn add_token(&mut self, kind: TokenType, value: String)
        ensures
            final(self).source@ == old(self).source@,
            final(self).errors == old(self).errors,
            final(self).line == old(self).line,
            final(self).col == old(self).col,
            final(self).c == old(self).c,
            final(self).tokens.deep_view() == old(self).tokens.deep_view().push(
                TokenView {
                    kind,
                    text: value@,
                    line: old(self).line as nat,
                    col: old(self).col as nat,
                },
            ),
    {
        let line = self.line;
        let col = self.col;
        self.add_token_at(kind, value, line, col);
    }

    /// Appends a token of `kind` without text that starts at the cursor.
    fn add_no_value_token(&mut self, kind: TokenType)
        ensures
            final(self).source@ == old(self).source@,
            final(self).errors == old(self).errors,
            final(self).line == old(self).line,
            final(self).col == old(self).col,
            final(self).c == old(self).c,
            final(self).tokens.deep_view() == old(self).tokens.deep_view().push(
                TokenView {
                    kind,
                    text: Seq::empty(),
                    line: old(self).line as nat,
                    col: old(self).col as nat,
                },
            ),
    {
        self.add_token(kind, String::new());
    }

    /// Records an error with message `msg` at `line`, `col`.
    fn add_error_at(&mut self, msg: &str, line: usize, col: usize)
        ensures
            final(self).source@ == old(self).source@,
            final(self).tokens == old(self).tokens,
            final(self).line == old(self).line,
            final(self).col == old(self).col,
            final(self).c == old(self).c,
            final(self).errors.deep_view() == old(self).errors.deep_view().push(
                Diagnostic { message: msg@, line: line as nat, col: col as nat },
            ),
    {
        let ghost before = self.errors.deep_view();
        let error = ParserError::new(msg, line, col);
        self.errors.push(error);
        assert(self.errors.deep_view() =~= before.push(error@));
    }

    /// Records an error with message `msg` at the cursor.
    fn add_error(&mut self, msg: &str)
        ensures
            final(self).source@ == old(self).source@,
            final(self).tokens == old(self).tokens,
            final(self).line == old(self).line,
            final(self).col == old(self).col,
            final(self).c == old(self).c,
            final(self).errors.deep_view() == old(self).errors.deep_view().push(
                Diagnostic {
                    message: msg@,
                    line: old(self).line as nat,
                    col: old(self).col as nat,
                },
            ),
    {
        let line = self.line;
        let col = self.col;
        self.add_error_at(msg, line, col);
    }

    /// The kind of the keyword that `value` spells, if it is one.
    pub fn keyword(value: &str) -> (kind: Option<TokenType>)
        ensures
            kind == keyword_of(value@),
    {
        if same_text(value, "fn") || same_text(value, "func") {
            Some(TokenType::Func)
        } else if same_text(value, "class") {
            Some(TokenType::Class)
        } else if same_text(value, "static") {
            Some(TokenType::Static)
        } else if same_text(value, "let") {
            Some(TokenType::Var)
        } else if same_text(value, "const") {
            Some(TokenType::Const)
        } else if same_text(value, "if") {
            Some(TokenType::If)
        } else if same_text(value, "else") {
            Some(TokenType::Else)
        } else if same_text(value, "for") {
            Some(TokenType::For)
        } else if same_text(value, "while") {
            Some(TokenType::While)
        } else if same_text(value, "super") {
            Some(TokenType::Super)
        } else if same_text(value, "this") {
            Some(TokenType::This)
        } else if same_text(value, "return") {
            Some(TokenType::Return)
        } else if same_text(value, "continue") {
            Some(TokenType::Continue)
        } else if same_text(value, "break") {
            Some(TokenType::Break)
        } else if same_text(value, "true") {
            Some(TokenType::True)
        } else if same_text(value, "false") {
            Some(TokenType::False)
        } else if same_text(value, "null") {
            Some(TokenType::Null)
        } else if same_text(value, "import") {
            Some(TokenType::Import)
        } else if same_text(value, "struct") {
            Some(TokenType::Struct)
        } else if same_text(value, "and") {
            Some(TokenType::And)
        } else if same_text(value, "or") {
            Some(TokenType::Or)
        } else {
            None
        }
    }

    /// The character two after the one under the cursor, or NUL where there
    /// is none.
    fn char_after_next(&self) -> (ch: char)
        requires
            self.wf(),
            self.c < self.source@.len(),
        ensures
            ch == peek(self.source@, self.c + 2),
    {
        if self.c + 2 < self.source.len() {
            self.source[self.c + 2]
        } else {
            '\0'
        }
    }

    /// Reads the word that starts under the cursor and leaves the cursor on
    /// its last character.
    #[verifier::loop_isolation(false)]
    fn read_word(&mut self) -> (word: String)
        requires
            old(self).wf(),
            old(self).c < old(self).source@.len(),
        ensures
            final(self).wf(),
            final(self).same_output(old(self)),
            final(self).c == old(self).c + word_run(old(self).source@, old(self).c + 1),
            final(self).c < final(self).source@.len(),
            word@ == old(self).source@.subrange(old(self).c as int, final(self).c + 1),
    {
        let ghost pre = *self;
        let ghost src = self.source@;
        let ghost start = self.c as int;
        let mut word = String::new();
        word.push(self.current());
        assert(word@ =~= src.subrange(start, start + 1));
        while word_char(self.next_char())
            invariant
                self.wf(),
                self.same_output(&pre),
                src == self.source@,
                start <= self.c < src.len(),
                word@ == src.subrange(start, self.c + 1),
                word_run(src, start + 1) == (self.c - start) + word_run(src, self.c + 1),
            decreases src.len() - self.c,
        {
            self.advance();
            word.push(self.current());
            assert(word@ =~= src.subrange(start, self.c + 1));
        }
        word
    }

    /// Reads the decimal number whose first digit is under the cursor,
    /// appends its spelling to `number` and leaves the cursor on its last
    /// character. A second fraction after the number is reported at its dot.
    #[verifier::loop_isolation(false)]
    fn make_normal_number(&mut self, number: &mut String)
        requires
            old(self).wf(),
            old(self).c < old(self).source@.len(),
            is_digit(old(self).source@[old(self).c as int]),
        ensures
            final(self).wf(),
            final(self).source@ == old(self).source@,
            final(self).tokens == old(self).tokens,
            final(self).c + 1 == old(self).c + decimal_shape(
                old(self).source@,
                old(self).c as int,
            ).used,
            final(self).c < final(self).source@.len(),
            final(number)@ == old(number)@ + old(self).source@.subrange(
                old(self).c as int,
                final(self).c + 1,
            ),
            final(self).errors.deep_view() == if decimal_shape(
                old(self).source@,
                old(self).c as int,
            ).second_dot {
                old(self).errors.deep_view().push(
                    error_at(old(self).source@, final(self).c + 1, "invalid dot"@),
                )
            } else {
                old(self).errors.deep_view()
            },
    {
        let ghost pre = *self;
        let ghost src = self.source@;
        let ghost start = self.c as int;
        let ghost prefix = number@;
        number.push(self.current());
        assert(number@ =~= prefix + src.subrange(start, start + 1));
        while digit(self.next_char())
            invariant
                self.wf(),
                self.same_output(&pre),
                src == self.source@,
                start <= self.c < src.len(),
                is_digit(src[self.c as int]),
                number@ == prefix + src.subrange(start, self.c + 1),
                digit_run(src, start) == (self.c + 1 - start) + digit_run(src, self.c + 1),
            decreases src.len() - self.c,
        {
            self.advance();
            number.push(self.current());
            assert(number@ =~= prefix + src.subrange(start, self.c + 1));
        }
        assert(digit_run(src, self.c + 1) == 0);
        if self.next_char() == '.' && digit(self.char_after_next()) {
            self.advance();
            number.push('.');
            assert(number@ =~= prefix + src.subrange(start, self.c + 1));
            let ghost dot = self.c as int;
            while digit(self.next_char())
                invariant
                    self.wf(),
                    self.same_output(&pre),
                    src == self.source@,
                    dot <= self.c < src.len(),
                    start < dot,
                    self.c == dot || is_digit(src[self.c as int]),
                    number@ == prefix + src.subrange(start, self.c + 1),
                    digit_run(src, dot + 1) == (self.c - dot) + digit_run(src, self.c + 1),
                decreases src.len() - self.c,
            {
                self.advance();
                number.push(self.current());
                assert(number@ =~= prefix + src.subrange(start, self.c + 1));
            }
            assert(digit_run(src, self.c + 1) == 0);
            assert(self.c > dot);
            if self.next_char() == '.' && digit(self.char_after_next()) {
                proof {
                    lemma_position_bound(src, self.c as int);
                }
                let line = self.line;
                let col = self.col + 1;
                self.add_error_at("invalid dot", line, col);
            }
        }
    }

    /// Reads the number that starts under the cursor, with its sign where it
    /// has one, and leaves the cursor on its last character.
    #[verifier::loop_isolation(false)]
    fn read_number(&mut self) -> (number: String)
        requires
            old(self).wf(),
            old(self).c < old(self).source@.len(),
            ({
                let first = peek(old(self).source@, old(self).c as int);
                let second = peek(old(self).source@, old(self).c + 1);
                is_digit(first) || (first == '-' && is_digit(second))
            }),
        ensures
            final(self).wf(),
            final(self).source@ == old(self).source@,
            final(self).tokens == old(self).tokens,
            final(self).c < final(self).source@.len(),
            ({
                let src = old(self).source@;
                let pos = old(self).c as int;
                let sign: nat = if src[pos] == '-' {
                    1
                } else {
                    0
                };
                let shape = number_shape(src, pos + sign);
                &&& final(self).c + 1 == pos + sign + shape.used
                &&& number@ == src.subrange(pos, pos + sign + shape.used)
                &&& final(self).errors.deep_view() == if shape.second_dot {
                    old(self).errors.deep_view().push(
                        error_at(src, pos + sign + shape.used, "invalid dot"@),
                    )
                } else {
                    old(self).errors.deep_view()
                }
            }),
    {
        let ghost pre = *self;
        let ghost src = self.source@;
        let ghost start = self.c as int;
        let mut number = String::new();
        if self.current() == '-' {
            number.push('-');
            self.advance();
            assert(number@ =~= src.subrange(start, self.c as int));
        }
        assert(number@ =~= src.subrange(start, self.c as int));
        if self.current() == '0' && self.next_char() == 'x' {
            let ghost first = self.c as int;
            number.push('0');
            self.advance();
            number.push('x');
            assert(number@ =~= src.subrange(start, self.c + 1));
            while hex_digit(self.next_char())
                invariant
                    self.wf(),
                    self.same_output(&pre),
                    src == self.source@,
                    first < self.c < src.len(),
                    start <= first,
                    number@ == src.subrange(start, self.c + 1),
                    hex_run(src, first + 2) == (self.c - first - 1) + hex_run(src, self.c + 1),
                decreases src.len() - self.c,
            {
                self.advance();
                number.push(self.current());
                assert(number@ =~= src.subrange(start, self.c + 1));
            }
        } else {
            self.make_normal_number(&mut number);
            assert(number@ =~= src.subrange(start, self.c + 1));
        }
        number
    }

    /// Reads the string literal whose opening quote is under the cursor and
    /// returns its decoded body. The cursor is left on the closing quote;
    /// where there is none, it is left at the end of the text and the string
    /// is reported there.
    #[verifier::loop_isolation(false)]
    fn read_string(&mut self) -> (value: String)
        requires
            old(self).wf(),
            old(self).c < old(self).source@.len(),
        ensures
            final(self).wf(),
            final(self).source@ == old(self).source@,
            final(self).tokens == old(self).tokens,
            ({
                let src = old(self).source@;
                let tail = string_tail(src, old(self).c + 1);
                &&& value@ == tail.text
                &&& tail.closed ==> {
                    &&& final(self).c == old(self).c + tail.used
                    &&& final(self).c < src.len()
                    &&& final(self).errors == old(self).errors
                }
                &&& !tail.closed ==> {
                    &&& final(self).c == old(self).c + 1 + tail.used
                    &&& final(self).c == src.len()
                    &&& final(self).errors.deep_view() == old(self).errors.deep_view().push(
                        error_at(src, src.len() as int, "unterminated string"@),
                    )
                }
            }),
    {
        let ghost pre = *self;
        let ghost src = self.source@;
        let ghost start = self.c + 1;
        let mut value = String::new();
        loop
            invariant
                self.wf(),
                self.same_output(&pre),
                src == self.source@,
                start - 1 <= self.c < src.len(),
                string_tail(src, start).text == value@ + string_tail(src, self.c + 1).text,
                string_tail(src, start).used == (self.c + 1 - start) + string_tail(
                    src,
                    self.c + 1,
                ).used,
                string_tail(src, start).closed == string_tail(src, self.c + 1).closed,
            decreases src.len() - self.c,
        {
            let ghost rest = string_tail(src, self.c + 1);
            let ghost so_far = value@;
            if self.c + 1 >= self.source.len() {
                self.advance();
                self.add_error("unterminated string");
                assert(value@ =~= string_tail(src, start).text);
                return value;
            }
            let next = self.next_char();
            if next == '"' {
                self.advance();
                assert(value@ =~= string_tail(src, start).text);
                return value;
            } else if next == '\\' {
                self.advance();
                if self.c + 1 >= self.source.len() {
                    self.advance();
                    self.add_error("unterminated string");
                    assert(value@ =~= string_tail(src, start).text);
                    return value;
                }
                self.advance();
                value.push(unescaped(self.current()));
                assert(so_far + rest.text =~= value@ + string_tail(src, self.c + 1).text);
            } else {
                self.advance();
                value.push(self.current());
                assert(so_far + rest.text =~= value@ + string_tail(src, self.c + 1).text);
            }
        }
    }

    /// Skips the rest of the line comment whose first slash is under the
    /// cursor, up to the character before the next newline or the last
    /// character of the text, and leaves the cursor on it.
    #[verifier::loop_isolation(false)]
    fn skip_line_comment(&mut self)
        requires
            old(self).wf(),
            old(self).c + 1 < old(self).source@.len(),
        ensures
            final(self).wf(),
            final(self).same_output(old(self)),
            final(self).c + 1 == old(self).c + 2 + line_rest(old(self).source@, old(self).c + 2),
            final(self).c < final(self).source@.len(),
    {
        let ghost pre = *self;
        let ghost src = self.source@;
        let ghost start = self.c + 2;
        self.advance();
        while self.c + 1 < self.source.len() && self.next_char() != '\n'
            invariant
                self.wf(),
                self.same_output(&pre),
                src == self.source@,
                start - 1 <= self.c < src.len(),
                line_rest(src, start) == (self.c + 1 - start) + line_rest(src, self.c + 1),
            decreases src.len() - self.c,
        {
            self.advance();
        }
    }

    /// Skips the block comment whose opening slash is under the cursor. The
    /// cursor is left on the slash that closes it; where there is none, it
    /// is left at the end of the text and the comment is reported there.
    #[verifier::loop_isolation(false)]
    fn skip_block_comment(&mut self)
        requires
            old(self).wf(),
            old(self).c + 1 < old(self).source@.len(),
        ensures
            final(self).wf(),
            final(self).source@ == old(self).source@,
            final(self).tokens == old(self).tokens,
            ({
                let src = old(self).source@;
                let tail = comment_tail(src, old(self).c + 2, 1);
                &&& tail.closed ==> {
                    &&& final(self).c + 1 == old(self).c + 2 + tail.used
                    &&& final(self).c < src.len()
                    &&& final(self).errors == old(self).errors
                }
                &&& !tail.closed ==> {
                    &&& final(self).c == old(self).c + 2 + tail.used
                    &&& final(self).c == src.len()
                    &&& final(self).errors.deep_view() == old(self).errors.deep_view().push(
                        error_at(src, src.len() as int, "unterminated block comment"@),
                    )
                }
            }),
    {
        let ghost pre = *self;
        let ghost src = self.source@;
        let ghost start = self.c + 2;
        let mut nesting: usize = 1;
        self.advance();
        loop
            invariant
                self.wf(),
                self.same_output(&pre),
                src == self.source@,
                start - 1 <= self.c < src.len(),
                1 <= nesting <= self.c + 1,
                comment_tail(src, start, 1).used == (self.c + 1 - start) + comment_tail(
                    src,
                    self.c + 1,
                    nesting as nat,
                ).used,
                comment_tail(src, start, 1).closed == comment_tail(
                    src,
                    self.c + 1,
                    nesting as nat,
                ).closed,
            decreases src.len() - self.c,
        {
            if self.c + 1 >= self.source.len() {
                self.advance();
                self.add_error("unterminated block comment");
                return ;
            }
            let next = self.advance();
            if next == '*' && self.next_char() == '/' {
                self.advance();
                nesting -= 1;
                if nesting == 0 {
                    return ;
                }
            } else if next == '/' && self.next_char() == '*' {
                self.advance();
                nesting += 1;
            }
        }
    }

    /// What one step of the main loop has to achieve: the output grows by
    /// the lexeme's token and diagnostic, and the cursor is left on the
    /// lexeme's last character, or at the end of the text where the lexeme
    /// runs up to it.
    pub open spec fn lexeme_read(&self, before: &Lexer, lexeme: Lexeme) -> bool {
        &&& self.wf()
        &&& self.source@ == before.source@
        &&& self.tokens.deep_view() =~= before.tokens.deep_view() + lexeme.tokens
        &&& self.errors.deep_view() =~= before.errors.deep_view() + lexeme.errors
        &&& (self.c + 1 == before.c + lexeme.used && self.c < self.source@.len()) || (self.c
            == before.c + lexeme.used && self.c == self.source@.len())
    }

    /// Tokenizes the source text from its first character: afterwards
    /// `tokens` holds its tokens, closed by the end-of-input token, and
    /// `errors` its diagnostics. Results of an earlier run are replaced.
    pub fn tokenize(&mut self)
        requires
            old(self).source@.len() < usize::MAX,
        ensures
            final(self).source@ == old(self).source@,
            final(self).tokens.deep_view() == scan(old(self).source@).tokens,
            final(self).errors.deep_view() == scan(old(self).source@).errors,
            terminated(final(self).tokens.deep_view()),
    {
        proof {
            lemma_scan_is_terminated(self.source@);
        }
        self.tokens = Vec::new();
        self.errors = Vec::new();
        self.line = 1;
        self.col = 1;
        self.c = 0;
        let ghost src = self.source@;
        assert(self.tokens.deep_view() =~= Seq::empty());
        assert(self.errors.deep_view() =~= Seq::empty());
        while !self.is_end()
            invariant
                self.wf(),
                self.source@ == src,
                self.tokens.deep_view() + scan_from(src, self.c as int).tokens =~= scan(src).tokens,
                self.errors.deep_view() + scan_from(src, self.c as int).errors =~= scan(src).errors,
            decreases src.len() - self.c,
        {
            let ghost before = *self;
            let ghost lexeme = lexeme_at(src, self.c as int);
            let ch = self.current();
            match ch {
                ' ' | '\t' | '\n' | '\r' | '\x0C' => {},
                '(' => self.add_no_value_token(TokenType::LParen),
                ')' => self.add_no_value_token(TokenType::RParen),
                '{' => self.add_no_value_token(TokenType::LBrace),
                '}' => self.add_no_value_token(TokenType::RBrace),
                '[' => self.add_no_value_token(TokenType::LBracket),
                ']' => self.add_no_value_token(TokenType::RBracket),
                ':' => self.add_no_value_token(TokenType::Colon),
                ';' => self.add_no_value_token(TokenType::SColon),
                '@' => self.add_no_value_token(TokenType::At),
                '^' => self.add_no_value_token(TokenType::Caret),
                ',' => self.add_no_value_token(TokenType::Comma),
                '.' => self.add_no_value_token(TokenType::Dot),
                '+' => match self.next_char() {
                    '+' => {
                        self.add_no_value_token(TokenType::DPlus);
                        self.advance();
                    },
                    '=' => {
                        self.add_no_value_token(TokenType::PlusEq);
                        self.advance();
                    },
                    _ => self.add_no_value_token(TokenType::Plus),
                },
                '-' => match self.next_char() {
                    '-' => {
                        self.add_no_value_token(TokenType::DMinus);
                        self.advance();
                    },
                    '=' => {
                        self.add_no_value_token(TokenType::MinusEq);
                        self.advance();
                    },
                    next => {
                        if digit(next) {
                            let line = self.line;
                            let col = self.col;
                            let number = self.read_number();
                            self.add_token_at(TokenType::Num, number, line, col);
                        } else {
                            self.add_no_value_token(TokenType::Minus);
                        }
                    },
                },
                '*' => match self.next_char() {
                    '=' => {
                        self.add_no_value_token(TokenType::MulEq);
                        self.advance();
                    },
                    _ => self.add_no_value_token(TokenType::Mul),
                },
                '/' => match self.next_char() {
                    '/' => {
                        // one-line comment
                        self.skip_line_comment();
                    },
                    '*' => {
                        // multi-line comment
                        self.skip_block_comment();
                    },
                    '=' => {
                        self.add_no_value_token(TokenType::DivEq);
                        self.advance();
                    },
                    _ => self.add_no_value_token(TokenType::Div),
                },
                '%' => match self.next_char() {
                    '=' => {
                        self.add_no_value_token(TokenType::ModEq);
                        self.advance();
                    },
                    _ => self.add_no_value_token(TokenType::Mod),
                },
                '|' => match self.next_char() {
                    '>' => {
                        self.add_no_value_token(TokenType::RPipe);
                        self.advance();
                    },
                    '|' => {
                        self.add_no_value_token(TokenType::DPipe);
                        self.advance();
                    },
                    _ => {
                        self.add_error("unrecognized character");
                    },
                },
                '<' => match self.next_char() {
                    '|' => {
                        self.add_no_value_token(TokenType::LPipe);
                        self.advance();
                    },
                    '=' => {
                        self.add_no_value_token(TokenType::LTEq);
                        self.advance();
                    },
                    _ => self.add_no_value_token(TokenType::LT),
                },
                '>' => match self.next_char() {
                    '=' => {
                        self.add_no_value_token(TokenType::GTEq);
                        self.advance();
                    },
                    _ => self.add_no_value_token(TokenType::GT),
                },
                '!' => match self.next_char() {
                    '=' => {
                        self.add_no_value_token(TokenType::BangEq);
                        self.advance();
                    },
                    _ => self.add_no_value_token(TokenType::Bang),
                },
                '=' => match self.next_char() {
                    '=' => {
                        self.add_no_value_token(TokenType::DEq);
                        self.advance();
                    },
                    _ => self.add_no_value_token(TokenType::Equal),
                },
                '&' => match self.next_char() {
                    '&' => {
                        self.add_no_value_token(TokenType::DAmp);
                        self.advance();
                    },
                    _ => {
                        self.add_error("unrecognized character");
                    },
                },
                _ => {
                    if letter(ch) {
                        // an identifier or a keyword
                        let line = self.line;
                        let col = self.col;
                        let var = self.read_word();
                        match Lexer::keyword(var.as_str()) {
                            Some(kind) => self.add_token_at(kind, String::new(), line, col),
                            _ => self.add_token_at(TokenType::Id, var, line, col),
                        }
                    } else if digit(ch) {
                        // a number
                        let line = self.line;
                        let col = self.col;
                        let number = self.read_number();
                        self.add_token_at(TokenType::Num, number, line, col);
                    } else if ch == '"' {
                        // a string
                        let line = self.line;
                        let col = self.col;
                        let value = self.read_string();
                        self.add_token_at(TokenType::Str, value, line, col);
                    } else {
                        self.add_error("unrecognized character");
                    }
                },
            };
            assert(self.lexeme_read(&before, lexeme));
            self.advance();
            proof {
                let rest = scan_from(src, self.c as int);
                assert(scan_from(src, before.c as int).tokens == lexeme.tokens + rest.tokens);
                assert(scan_from(src, before.c as int).errors == lexeme.errors + rest.errors);
                assert(self.tokens.deep_view() + rest.tokens =~= before.tokens.deep_view() + (
                lexeme.tokens + rest.tokens));
                assert(self.errors.deep_view() + rest.errors =~= before.errors.deep_view() + (
                lexeme.errors + rest.errors));
            }
        }
        self.add_no_value_token(TokenType::EOF);
    }
}

} // verus!
