//! What tokenizing means: the tokens and diagnostics of a source text, as a
//! function of its characters.
//!
//! A source is read left to right, one lexeme at a time. Every lexeme takes
//! at least one character, so reading always reaches the end of the text,
//! where the end-of-input token closes the stream.

use crate::error::Diagnostic;
use crate::token::{TokenType, TokenView};
use vstd::prelude::*;

verus! {

/// The character at `pos`, or NUL outside the text.
pub open spec fn peek(src: Seq<char>, pos: int) -> char {
    if 0 <= pos < src.len() {
        src[pos]
    } else {
        '\0'
    }
}

/// The 1-based line of the character at `pos`: one more than the number of
/// newlines before it.
pub open spec fn line_at(src: Seq<char>, pos: int) -> nat
    decreases pos,
{
    if pos <= 0 || pos > src.len() {
        1
    } else if src[pos - 1] == '\n' {
        line_at(src, pos - 1) + 1
    } else {
        line_at(src, pos - 1)
    }
}

/// The 1-based column of the character at `pos`: one more than the number
/// of characters between it and the last newline before it.
pub open spec fn col_at(src: Seq<char>, pos: int) -> nat
    decreases pos,
{
    if pos <= 0 || pos > src.len() {
        1
    } else if src[pos - 1] == '\n' {
        1
    } else {
        col_at(src, pos - 1) + 1
    }
}

/// Blank characters, which separate lexemes and are otherwise skipped.
pub open spec fn is_space(c: char) -> bool {
    c == ' ' || c == '\t' || c == '\n' || c == '\r' || c == '\x0C'
}

/// The decimal digits.
pub open spec fn is_digit(c: char) -> bool {
    '0' <= c && c <= '9'
}

/// The characters that may start a word: ASCII letters and the underscore.
pub open spec fn is_letter(c: char) -> bool {
    ('a' <= c && c <= 'z') || ('A' <= c && c <= 'Z') || c == '_'
}

/// The characters that may continue a word.
pub open spec fn is_word_char(c: char) -> bool {
    is_letter(c) || is_digit(c)
}

/// The hexadecimal digits.
pub open spec fn is_hex_digit(c: char) -> bool {
    is_digit(c) || ('a' <= c && c <= 'f') || ('A' <= c && c <= 'F')
}

/// The kind of a punctuation character that is a token by itself.
pub open spec fn punctuation(c: char) -> Option<TokenType> {
    if c == '(' {
        Some(TokenType::LParen)
    } else if c == ')' {
        Some(TokenType::RParen)
    } else if c == '{' {
        Some(TokenType::LBrace)
    } else if c == '}' {
        Some(TokenType::RBrace)
    } else if c == '[' {
        Some(TokenType::LBracket)
    } else if c == ']' {
        Some(TokenType::RBracket)
    } else if c == ':' {
        Some(TokenType::Colon)
    } else if c == ';' {
        Some(TokenType::SColon)
    } else if c == '@' {
        Some(TokenType::At)
    } else if c == '^' {
        Some(TokenType::Caret)
    } else if c == ',' {
        Some(TokenType::Comma)
    } else if c == '.' {
        Some(TokenType::Dot)
    } else {
        None
    }
}

/// The keyword spelled by `text`, if it is one.
pub open spec fn keyword_of(text: Seq<char>) -> Option<TokenType> {
    if text == "fn"@ || text == "func"@ {
        Some(TokenType::Func)
    } else if text == "class"@ {
        Some(TokenType::Class)
    } else if text == "static"@ {
        Some(TokenType::Static)
    } else if text == "let"@ {
        Some(TokenType::Var)
    } else if text == "const"@ {
        Some(TokenType::Const)
    } else if text == "if"@ {
        Some(TokenType::If)
    } else if text == "else"@ {
        Some(TokenType::Else)
    } else if text == "for"@ {
        Some(TokenType::For)
    } else if text == "while"@ {
        Some(TokenType::While)
    } else if text == "super"@ {
        Some(TokenType::Super)
    } else if text == "this"@ {
        Some(TokenType::This)
    } else if text == "return"@ {
        Some(TokenType::Return)
    } else if text == "continue"@ {
        Some(TokenType::Continue)
    } else if text == "break"@ {
        Some(TokenType::Break)
    } else if text == "true"@ {
        Some(TokenType::True)
    } else if text == "false"@ {
        Some(TokenType::False)
    } else if text == "null"@ {
        Some(TokenType::Null)
    } else if text == "import"@ {
        Some(TokenType::Import)
    } else if text == "struct"@ {
        Some(TokenType::Struct)
    } else if text == "and"@ {
        Some(TokenType::And)
    } else if text == "or"@ {
        Some(TokenType::Or)
    } else {
        None
    }
}

/// How many word characters stand in a row from `pos` on.
pub open spec fn word_run(src: Seq<char>, pos: int) -> nat
    decreases src.len() - pos,
{
    if 0 <= pos < src.len() && is_word_char(src[pos]) {
        1 + word_run(src, pos + 1)
    } else {
        0
    }
}

/// How many decimal digits stand in a row from `pos` on.
pub open spec fn digit_run(src: Seq<char>, pos: int) -> nat
    decreases src.len() - pos,
{
    if 0 <= pos < src.len() && is_digit(src[pos]) {
        1 + digit_run(src, pos + 1)
    } else {
        0
    }
}

/// How many hexadecimal digits stand in a row from `pos` on.
pub open spec fn hex_run(src: Seq<char>, pos: int) -> nat
    decreases src.len() - pos,
{
    if 0 <= pos < src.len() && is_hex_digit(src[pos]) {
        1 + hex_run(src, pos + 1)
    } else {
        0
    }
}

/// How many characters stand from `pos` on before the next newline or the
/// end of the text.
pub open spec fn line_rest(src: Seq<char>, pos: int) -> nat
    decreases src.len() - pos,
{
    if 0 <= pos < src.len() && src[pos] != '\n' {
        1 + line_rest(src, pos + 1)
    } else {
        0
    }
}

/// The rest of a block comment.
pub struct CommentTail {
    /// Characters up to and including the closing marker, or up to the end
    /// of the text where the comment is never closed.
    pub used: nat,
    /// Whether the comment is closed.
    pub closed: bool,
}

/// The rest of a block comment from `pos` on, `depth` comments being open.
/// Every `/*` opens one more and every `*/` closes one; the comment ends
/// when none is open.
pub open spec fn comment_tail(src: Seq<char>, pos: int, depth: nat) -> CommentTail
    decreases src.len() - pos,
{
    if pos < 0 || pos >= src.len() {
        CommentTail { used: 0, closed: false }
    } else if src[pos] == '*' && peek(src, pos + 1) == '/' {
        if depth <= 1 {
            CommentTail { used: 2, closed: true }
        } else {
            let rest = comment_tail(src, pos + 2, (depth - 1) as nat);
            CommentTail { used: 2 + rest.used, closed: rest.closed }
        }
    } else if src[pos] == '/' && peek(src, pos + 1) == '*' {
        let rest = comment_tail(src, pos + 2, depth + 1);
        CommentTail { used: 2 + rest.used, closed: rest.closed }
    } else {
        let rest = comment_tail(src, pos + 1, depth);
        CommentTail { used: 1 + rest.used, closed: rest.closed }
    }
}

/// The character that an escape sequence stands for, given the character
/// after the backslash.
pub open spec fn unescape(c: char) -> char {
    if c == '0' {
        '\0'
    } else if c == 'n' {
        '\n'
    } else if c == 'r' {
        '\r'
    } else if c == 't' {
        '\t'
    } else {
        c
    }
}

/// The rest of a string literal.
pub struct StringTail {
    /// The decoded characters.
    pub text: Seq<char>,
    /// Characters up to and including the closing quote, or up to the end
    /// of the text where the string is never closed.
    pub used: nat,
    /// Whether the string is closed.
    pub closed: bool,
}

/// The rest of a string literal from `pos` on, after the opening quote. A
/// backslash takes the next character with it; a backslash that is the last
/// character of the text stands for nothing.
pub open spec fn string_tail(src: Seq<char>, pos: int) -> StringTail
    decreases src.len() - pos,
{
    if pos < 0 || pos >= src.len() {
        StringTail { text: Seq::empty(), used: 0, closed: false }
    } else if src[pos] == '"' {
        StringTail { text: Seq::empty(), used: 1, closed: true }
    } else if src[pos] == '\\' {
        if pos + 1 >= src.len() {
            StringTail { text: Seq::empty(), used: 1, closed: false }
        } else {
            let rest = string_tail(src, pos + 2);
            StringTail {
                text: seq![unescape(src[pos + 1])] + rest.text,
                used: 2 + rest.used,
                closed: rest.closed,
            }
        }
    } else {
        let rest = string_tail(src, pos + 1);
        StringTail { text: seq![src[pos]] + rest.text, used: 1 + rest.used, closed: rest.closed }
    }
}

/// The shape of a number that starts with the digit at `pos`.
pub struct NumberShape {
    /// Characters of the number.
    pub used: nat,
    /// Whether a second fraction follows the number, which is an error.
    pub second_dot: bool,
}

/// Whether a fraction starts at `pos`: a dot directly followed by a digit.
pub open spec fn fraction_at(src: Seq<char>, pos: int) -> bool {
    peek(src, pos) == '.' && is_digit(peek(src, pos + 1))
}

/// The decimal number that starts with the digit at `pos`: a run of digits
/// and at most one fraction.
pub open spec fn decimal_shape(src: Seq<char>, pos: int) -> NumberShape {
    let whole = digit_run(src, pos);
    if fraction_at(src, pos + whole) {
        let used = whole + 1 + digit_run(src, pos + whole + 1);
        NumberShape { used, second_dot: fraction_at(src, pos + used) }
    } else {
        NumberShape { used: whole, second_dot: false }
    }
}

/// The number that starts with the digit at `pos`: `0x` and all
/// hexadecimal digits after it, or a decimal number.
pub open spec fn number_shape(src: Seq<char>, pos: int) -> NumberShape {
    if peek(src, pos) == '0' && peek(src, pos + 1) == 'x' {
        NumberShape { used: 2 + hex_run(src, pos + 2), second_dot: false }
    } else {
        decimal_shape(src, pos)
    }
}

/// One lexeme: how many characters it takes, and the token and the
/// diagnostic it gives, if any.
pub struct Lexeme {
    pub used: nat,
    pub tokens: Seq<TokenView>,
    pub errors: Seq<Diagnostic>,
}

/// A token of `kind` with `text` that starts at `pos`.
pub open spec fn token_at(src: Seq<char>, pos: int, kind: TokenType, text: Seq<char>) -> TokenView {
    TokenView { kind, text, line: line_at(src, pos), col: col_at(src, pos) }
}

/// A diagnostic with `message` at `pos`.
pub open spec fn error_at(src: Seq<char>, pos: int, message: Seq<char>) -> Diagnostic {
    Diagnostic { message, line: line_at(src, pos), col: col_at(src, pos) }
}

/// A lexeme of `used` characters that is skipped.
pub open spec fn skipped(used: nat) -> Lexeme {
    Lexeme { used, tokens: Seq::empty(), errors: Seq::empty() }
}

/// A lexeme of `used` characters at `pos` that is a token without text.
pub open spec fn plain(src: Seq<char>, pos: int, kind: TokenType, used: nat) -> Lexeme {
    Lexeme { used, tokens: seq![token_at(src, pos, kind, Seq::empty())], errors: Seq::empty() }
}

/// A character at `pos` that starts no lexeme: it is reported and skipped.
pub open spec fn unrecognized(src: Seq<char>, pos: int) -> Lexeme {
    Lexeme {
        used: 1,
        tokens: Seq::empty(),
        errors: seq![error_at(src, pos, "unrecognized character"@)],
    }
}

/// The word at `pos`: a keyword token without text, or an identifier with
/// the word as its text.
pub open spec fn word_at(src: Seq<char>, pos: int) -> Lexeme {
    let used = 1 + word_run(src, pos + 1);
    let text = src.subrange(pos, pos + used);
    match keyword_of(text) {
        Some(kind) => plain(src, pos, kind, used),
        None => Lexeme {
            used,
            tokens: seq![token_at(src, pos, TokenType::Id, text)],
            errors: Seq::empty(),
        },
    }
}

/// The number at `pos`, `sign` being 1 where a minus sign stands before its
/// first digit and 0 otherwise. Its text is its spelling in the source. A
/// second fraction is reported at its dot and left for the next lexeme.
pub open spec fn number_at(src: Seq<char>, pos: int, sign: nat) -> Lexeme {
    let shape = number_shape(src, pos + sign);
    let used = sign + shape.used;
    Lexeme {
        used,
        tokens: seq![token_at(src, pos, TokenType::Num, src.subrange(pos, pos + used))],
        errors: if shape.second_dot {
            seq![error_at(src, pos + used, "invalid dot"@)]
        } else {
            Seq::empty()
        },
    }
}

/// The string literal whose opening quote is at `pos`. Its text is the
/// decoded body. A string that is never closed is reported at the end of
/// the text.
pub open spec fn string_at(src: Seq<char>, pos: int) -> Lexeme {
    let tail = string_tail(src, pos + 1);
    let used = 1 + tail.used;
    Lexeme {
        used,
        tokens: seq![token_at(src, pos, TokenType::Str, tail.text)],
        errors: if tail.closed {
            Seq::empty()
        } else {
            seq![error_at(src, pos + used, "unterminated string"@)]
        },
    }
}

/// The block comment whose `/*` is at `pos`. A comment that is never closed
/// is reported at the end of the text.
pub open spec fn comment_at(src: Seq<char>, pos: int) -> Lexeme {
    let tail = comment_tail(src, pos + 2, 1);
    let used = 2 + tail.used;
    Lexeme {
        used,
        tokens: Seq::empty(),
        errors: if tail.closed {
            Seq::empty()
        } else {
            seq![error_at(src, pos + used, "unterminated block comment"@)]
        },
    }
}

/// The lexeme that starts at `pos`, a position inside the text.
pub open spec fn lexeme_at(src: Seq<char>, pos: int) -> Lexeme {
    let c = src[pos];
    let next = peek(src, pos + 1);
    if is_space(c) {
        skipped(1)
    } else if punctuation(c) is Some {
        plain(src, pos, punctuation(c)->0, 1)
    } else if c == '+' {
        if next == '+' {
            plain(src, pos, TokenType::DPlus, 2)
        } else if next == '=' {
            plain(src, pos, TokenType::PlusEq, 2)
        } else {
            plain(src, pos, TokenType::Plus, 1)
        }
    } else if c == '-' {
        if next == '-' {
            plain(src, pos, TokenType::DMinus, 2)
        } else if next == '=' {
            plain(src, pos, TokenType::MinusEq, 2)
        } else if is_digit(next) {
            number_at(src, pos, 1)
        } else {
            plain(src, pos, TokenType::Minus, 1)
        }
    } else if c == '*' {
        if next == '=' {
            plain(src, pos, TokenType::MulEq, 2)
        } else {
            plain(src, pos, TokenType::Mul, 1)
        }
    } else if c == '/' {
        if next == '/' {
            skipped(2 + line_rest(src, pos + 2))
        } else if next == '*' {
            comment_at(src, pos)
        } else if next == '=' {
            plain(src, pos, TokenType::DivEq, 2)
        } else {
            plain(src, pos, TokenType::Div, 1)
        }
    } else if c == '%' {
        if next == '=' {
            plain(src, pos, TokenType::ModEq, 2)
        } else {
            plain(src, pos, TokenType::Mod, 1)
        }
    } else if c == '|' {
        if next == '>' {
            plain(src, pos, TokenType::RPipe, 2)
        } else if next == '|' {
            plain(src, pos, TokenType::DPipe, 2)
        } else {
            unrecognized(src, pos)
        }
    } else if c == '<' {
        if next == '|' {
            plain(src, pos, TokenType::LPipe, 2)
        } else if next == '=' {
            plain(src, pos, TokenType::LTEq, 2)
        } else {
            plain(src, pos, TokenType::LT, 1)
        }
    } else if c == '>' {
        if next == '=' {
            plain(src, pos, TokenType::GTEq, 2)
        } else {
            plain(src, pos, TokenType::GT, 1)
        }
    } else if c == '!' {
        if next == '=' {
            plain(src, pos, TokenType::BangEq, 2)
        } else {
            plain(src, pos, TokenType::Bang, 1)
        }
    } else if c == '=' {
        if next == '=' {
            plain(src, pos, TokenType::DEq, 2)
        } else {
            plain(src, pos, TokenType::Equal, 1)
        }
    } else if c == '&' {
        if next == '&' {
            plain(src, pos, TokenType::DAmp, 2)
        } else {
            unrecognized(src, pos)
        }
    } else if is_letter(c) {
        word_at(src, pos)
    } else if is_digit(c) {
        number_at(src, pos, 0)
    } else if c == '"' {
        string_at(src, pos)
    } else {
        unrecognized(src, pos)
    }
}

/// The result of tokenizing.
pub struct Scanned {
    pub tokens: Seq<TokenView>,
    pub errors: Seq<Diagnostic>,
}

/// The tokens and diagnostics of the text from `pos` on: lexeme after
/// lexeme, then the end-of-input token.
pub open spec fn scan_from(src: Seq<char>, pos: int) -> Scanned
    decreases
        (if pos < src.len() {
            src.len() - pos
        } else {
            0
        }),
{
    if pos < 0 || pos >= src.len() {
        Scanned {
            tokens: seq![token_at(src, src.len() as int, TokenType::EOF, Seq::empty())],
            errors: Seq::empty(),
        }
    } else {
        let first = lexeme_at(src, pos);
        let rest = scan_from(src, pos + first.used);
        Scanned { tokens: first.tokens + rest.tokens, errors: first.errors + rest.errors }
    }
}

/// The tokens and diagnostics of a source text.
pub open spec fn scan(src: Seq<char>) -> Scanned {
    scan_from(src, 0)
}

} // verus!
