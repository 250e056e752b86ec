//! Tokens: the smallest lexical units of the language.

use vstd::prelude::*;
use vstd::string::StringExecFns;

verus! {

/// The closed set of token kinds.
#[derive(Debug, Clone, Copy, PartialEq, Eq, Structural)]
pub enum TokenType {
    // punctuation
    LParen,
    RParen,
    LBrace,
    RBrace,
    LBracket,
    RBracket,
    Colon,
    SColon,
    At,
    Caret,
    Comma,
    Dot,
    // operators
    Plus,
    Minus,
    Mul,
    Div,
    Mod,
    Bang,
    Equal,
    LT,
    GT,
    DPlus,
    DMinus,
    PlusEq,
    MinusEq,
    MulEq,
    DivEq,
    ModEq,
    RPipe,
    LPipe,
    DPipe,
    DAmp,
    LTEq,
    GTEq,
    BangEq,
    DEq,
    // literals
    Num,
    Str,
    True,
    False,
    Null,
    Id,
    Atom,
    Underscore,
    // keywords
    Func,
    Class,
    Static,
    Var,
    Const,
    If,
    Else,
    For,
    While,
    Super,
    This,
    Return,
    Continue,
    Break,
    Import,
    Struct,
    And,
    Or,
    // end of input
    EOF,
}

/// The symbolic name of a token kind, as it appears in printed trees.
pub open spec fn kind_name(kind: TokenType) -> Seq<char> {
    match kind {
        TokenType::LParen => "LParen"@,
        TokenType::RParen => "RParen"@,
        TokenType::LBrace => "LBrace"@,
        TokenType::RBrace => "RBrace"@,
        TokenType::LBracket => "LBracket"@,
        TokenType::RBracket => "RBracket"@,
        TokenType::Colon => "Colon"@,
        TokenType::SColon => "SColon"@,
        TokenType::At => "At"@,
        TokenType::Caret => "Caret"@,
        TokenType::Comma => "Comma"@,
        TokenType::Dot => "Dot"@,
        TokenType::Plus => "Plus"@,
        TokenType::Minus => "Minus"@,
        TokenType::Mul => "Mul"@,
        TokenType::Div => "Div"@,
        TokenType::Mod => "Mod"@,
        TokenType::Bang => "Bang"@,
        TokenType::Equal => "Equal"@,
        TokenType::LT => "LT"@,
        TokenType::GT => "GT"@,
        TokenType::DPlus => "DPlus"@,
        TokenType::DMinus => "DMinus"@,
        TokenType::PlusEq => "PlusEq"@,
        TokenType::MinusEq => "MinusEq"@,
        TokenType::MulEq => "MulEq"@,
        TokenType::DivEq => "DivEq"@,
        TokenType::ModEq => "ModEq"@,
        TokenType::RPipe => "RPipe"@,
        TokenType::LPipe => "LPipe"@,
        TokenType::DPipe => "DPipe"@,
        TokenType::DAmp => "DAmp"@,
        TokenType::LTEq => "LTEq"@,
        TokenType::GTEq => "GTEq"@,
        TokenType::BangEq => "BangEq"@,
        TokenType::DEq => "DEq"@,
        TokenType::Num => "Num"@,
        TokenType::Str => "Str"@,
        TokenType::True => "True"@,
        TokenType::False => "False"@,
        TokenType::Null => "Null"@,
        TokenType::Id => "Id"@,
        TokenType::Atom => "Atom"@,
        TokenType::Underscore => "Underscore"@,
        TokenType::Func => "Func"@,
        TokenType::Class => "Class"@,
        TokenType::Static => "Static"@,
        TokenType::Var => "Var"@,
        TokenType::Const => "Const"@,
        TokenType::If => "If"@,
        TokenType::Else => "Else"@,
        TokenType::For => "For"@,
        TokenType::While => "While"@,
        TokenType::Super => "Super"@,
        TokenType::This => "This"@,
        TokenType::Return => "Return"@,
        TokenType::Continue => "Continue"@,
        TokenType::Break => "Break"@,
        TokenType::Import => "Import"@,
        TokenType::Struct => "Struct"@,
        TokenType::And => "And"@,
        TokenType::Or => "Or"@,
        TokenType::EOF => "EOF"@,
    }
}

impl TokenType {
    /// The symbolic name of this kind.
    pub fn name(self) -> (s: &'static str)
        ensures
            s@ == kind_name(self),
    {
        match self {
            TokenType::LParen => "LParen",
            TokenType::RParen => "RParen",
            TokenType::LBrace => "LBrace",
            TokenType::RBrace => "RBrace",
            TokenType::LBracket => "LBracket",
            TokenType::RBracket => "RBracket",
            TokenType::Colon => "Colon",
            TokenType::SColon => "SColon",
            TokenType::At => "At",
            TokenType::Caret => "Caret",
            TokenType::Comma => "Comma",
            TokenType::Dot => "Dot",
            TokenType::Plus => "Plus",
            TokenType::Minus => "Minus",
            TokenType::Mul => "Mul",
            TokenType::Div => "Div",
            TokenType::Mod => "Mod",
            TokenType::Bang => "Bang",
            TokenType::Equal => "Equal",
            TokenType::LT => "LT",
            TokenType::GT => "GT",
            TokenType::DPlus => "DPlus",
            TokenType::DMinus => "DMinus",
            TokenType::PlusEq => "PlusEq",
            TokenType::MinusEq => "MinusEq",
            TokenType::MulEq => "MulEq",
            TokenType::DivEq => "DivEq",
            TokenType::ModEq => "ModEq",
            TokenType::RPipe => "RPipe",
            TokenType::LPipe => "LPipe",
            TokenType::DPipe => "DPipe",
            TokenType::DAmp => "DAmp",
            TokenType::LTEq => "LTEq",
            TokenType::GTEq => "GTEq",
            TokenType::BangEq => "BangEq",
            TokenType::DEq => "DEq",
            TokenType::Num => "Num",
            TokenType::Str => "Str",
            TokenType::True => "True",
            TokenType::False => "False",
            TokenType::Null => "Null",
            TokenType::Id => "Id",
            TokenType::Atom => "Atom",
            TokenType::Underscore => "Underscore",
            TokenType::Func => "Func",
            TokenType::Class => "Class",
            TokenType::Static => "Static",
            TokenType::Var => "Var",
            TokenType::Const => "Const",
            TokenType::If => "If",
            TokenType::Else => "Else",
            TokenType::For => "For",
            TokenType::While => "While",
            TokenType::Super => "Super",
            TokenType::This => "This",
            TokenType::Return => "Return",
            TokenType::Continue => "Continue",
            TokenType::Break => "Break",
            TokenType::Import => "Import",
            TokenType::Struct => "Struct",
            TokenType::And => "And",
            TokenType::Or => "Or",
            TokenType::EOF => "EOF",
        }
    }
}

/// A token: its kind, its literal text (empty for punctuation, operators
/// and keywords) and the 1-based line and column where it starts.
#[derive(Debug, PartialEq, Eq)]
pub struct Token {
    pub kind: TokenType,
    pub value: String,
    pub position: (usize, usize),
}

/// The mathematical content of a [`Token`].
pub struct TokenView {
    pub kind: TokenType,
    pub text: Seq<char>,
    pub line: nat,
    pub col: nat,
}

impl TokenView {
    /// How a token is written in a printed tree: its text where it has one,
    /// otherwise the symbolic name of its kind.
    pub open spec fn printed(self) -> Seq<char> {
        if self.text.len() > 0 {
            self.text
        } else {
            kind_name(self.kind)
        }
    }
}

impl View for Token {
    type V = TokenView;

    open spec fn view(&self) -> TokenView {
        TokenView {
            kind: self.kind,
            text: self.value@,
            line: self.position.0 as nat,
            col: self.position.1 as nat,
        }
    }
}

impl DeepView for Token {
    type V = TokenView;

    open spec fn deep_view(&self) -> TokenView {
        self@
    }
}

impl Clone for Token {
    fn clone(&self) -> (t: Self)
        ensures
            t == *self,
    {
        Token { kind: self.kind, value: self.value.clone(), position: (self.position.0, self.position.1) }
    }
}

impl Token {
    /// A token of the given kind and text that starts at `line`, `col`.
    pub fn new(kind: TokenType, value: String, line: usize, col: usize) -> (t: Token)
        ensures
            t.kind == kind,
            t.value == value,
            t.position == (line, col),
    {
        Token { kind, value, position: (line, col) }
    }

    /// The token as it is written in a printed tree.
    pub fn print(&self) -> (s: String)
        ensures
            s@ == self@.printed(),
    {
        if self.value.as_str().is_empty() {
            String::from_str(self.kind.name())
        } else {
            self.value.clone()
        }
    }
}

} // verus!
