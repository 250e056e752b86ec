//! What parsing means: the program and the diagnostics of a token stream, as
//! a function of its tokens.
//!
//! Every rule of the grammar is a function from the stream and a position to
//! what the rule builds, how many tokens it takes and which diagnostics it
//! records. A rule that misses a token records a diagnostic and goes on as
//! if the token were there, so every stream has a program.

use crate::ast::{ExprView, NodeView, StmtView, TypeInfoView};
use crate::error::Diagnostic;
use crate::text::lower_text;
use crate::token::{TokenType, TokenView};
use vstd::prelude::*;

verus! {

/// What a rule made of the tokens from some position on.
pub struct Parsed<T> {
    /// What the rule built.
    pub value: T,
    /// How many tokens the rule took.
    pub used: nat,
    /// The diagnostics the rule recorded, in order.
    pub errors: Seq<Diagnostic>,
}

/// How many tokens a rule took and which diagnostics it recorded, where it
/// builds nothing.
pub struct Step {
    pub used: nat,
    pub errors: Seq<Diagnostic>,
}

/// A stream that the parser accepts: it is closed by the end-of-input token.
pub open spec fn terminated(ts: Seq<TokenView>) -> bool {
    ts.len() > 0 && ts.last().kind == TokenType::EOF
}

/// The kind of the token at `pos`; beyond the stream, end of input.
pub open spec fn kind_at(ts: Seq<TokenView>, pos: int) -> TokenType {
    if 0 <= pos < ts.len() {
        ts[pos].kind
    } else {
        TokenType::EOF
    }
}

/// Whether the end of input stands at `pos`.
pub open spec fn at_end(ts: Seq<TokenView>, pos: int) -> bool {
    kind_at(ts, pos) == TokenType::EOF
}

/// The token before `pos`; at the start of the stream, the first token.
pub open spec fn before(ts: Seq<TokenView>, pos: int) -> TokenView {
    if pos <= 0 {
        ts[0]
    } else {
        ts[pos - 1]
    }
}

/// How many tokens stand from `pos` on.
pub open spec fn remaining(ts: Seq<TokenView>, pos: int) -> nat {
    if pos < ts.len() {
        (ts.len() - pos) as nat
    } else {
        0
    }
}

/// A diagnostic with `message` at the token at `pos`.
pub open spec fn diagnostic(ts: Seq<TokenView>, pos: int, message: Seq<char>) -> Diagnostic {
    Diagnostic { message, line: ts[pos].line, col: ts[pos].col }
}

/// A token of `kind` is expected at `pos`. Where it stands it is taken;
/// where it does not, `message` is recorded and no token is taken.
pub open spec fn expect(ts: Seq<TokenView>, pos: int, kind: TokenType, message: Seq<char>) -> Step {
    if kind_at(ts, pos) == kind {
        Step { used: 1, errors: Seq::empty() }
    } else {
        Step { used: 0, errors: seq![diagnostic(ts, pos, message)] }
    }
}

/// The steps of the precedence ladder that build chains of two-operand
/// nodes, from the loosest to the tightest.
#[derive(Debug, Clone, Copy, PartialEq, Eq, Structural)]
pub enum Level {
    Or,
    And,
    Equality,
    Comparison,
    Term,
    Factor,
}

impl Level {
    /// Whether `kind` is an operator of this level.
    pub open spec fn has(self, kind: TokenType) -> bool {
        match self {
            Level::Or => kind == TokenType::DPipe || kind == TokenType::Or,
            Level::And => kind == TokenType::DAmp || kind == TokenType::And,
            Level::Equality => kind == TokenType::BangEq || kind == TokenType::DEq,
            Level::Comparison => kind == TokenType::GT || kind == TokenType::GTEq || kind
                == TokenType::LT || kind == TokenType::LTEq,
            Level::Term => kind == TokenType::Minus || kind == TokenType::Plus,
            Level::Factor => kind == TokenType::Div || kind == TokenType::Mul || kind
                == TokenType::Mod,
        }
    }

    /// The place of this level in the order of the rules.
    pub open spec fn rank(self) -> nat {
        match self {
            Level::Or => 19,
            Level::And => 16,
            Level::Equality => 13,
            Level::Comparison => 10,
            Level::Term => 7,
            Level::Factor => 4,
        }
    }

    /// The node that an operator of this level builds: a short-circuit
    /// node for `||` and `&&`, a binary node for the others.
    pub open spec fn node(self, left: ExprView, op: TokenView, right: ExprView) -> ExprView {
        match self {
            Level::Or | Level::And => ExprView::Logical {
                left: Box::new(left),
                right: Box::new(right),
                op,
            },
            _ => ExprView::Binary { left: Box::new(left), right: Box::new(right), op },
        }
    }
}

/// Whether `kind` is a compound assignment operator.
pub open spec fn is_compound(kind: TokenType) -> bool {
    kind == TokenType::PlusEq || kind == TokenType::MinusEq || kind == TokenType::MulEq || kind
        == TokenType::DivEq || kind == TokenType::ModEq
}

/// The operator that a compound assignment applies: `+` for `+=` and so on.
pub open spec fn base_kind(kind: TokenType) -> TokenType {
    match kind {
        TokenType::PlusEq => TokenType::Plus,
        TokenType::MinusEq => TokenType::Minus,
        TokenType::MulEq => TokenType::Mul,
        TokenType::DivEq => TokenType::Div,
        TokenType::ModEq => TokenType::Mod,
        _ => kind,
    }
}

/// The operator token of a desugared compound assignment: the token of the
/// compound operator with the kind of the operator that it applies.
pub open spec fn base_operator(op: TokenView) -> TokenView {
    TokenView { kind: base_kind(op.kind), text: op.text, line: op.line, col: op.col }
}

/// The literal `1` that `++` and `--` add or subtract.
pub open spec fn one() -> ExprView {
    ExprView::Literal { kind: TokenType::Num, value: "1"@ }
}

/// The type that the token after a field's colon names: one of the built-in
/// types, whatever the case of its letters, or a type of the program's own.
pub open spec fn type_of(t: TokenView) -> TypeInfoView {
    let name = lower_text(t.text);
    if name == "string"@ {
        TypeInfoView::Str
    } else if name == "number"@ {
        TypeInfoView::Num
    } else if name == "bool"@ {
        TypeInfoView::Bool
    } else if name == "any"@ {
        TypeInfoView::Any
    } else if name == "list"@ {
        TypeInfoView::List
    } else if name == "map"@ {
        TypeInfoView::Mapping
    } else {
        TypeInfoView::Id(t)
    }
}

/// The names of a parameter list from `pos` on, separated by commas. A
/// missing name is recorded and the token before stands in its place.
pub open spec fn param_items(ts: Seq<TokenView>, pos: int) -> Parsed<Seq<TokenView>>
    decreases remaining(ts, pos),
{
    let id = expect(ts, pos, TokenType::Id, "expected an identifier"@);
    let name = before(ts, pos + id.used);
    if kind_at(ts, pos + id.used) == TokenType::Comma {
        let rest = param_items(ts, pos + id.used + 1);
        Parsed {
            value: seq![name] + rest.value,
            used: id.used + 1 + rest.used,
            errors: id.errors + rest.errors,
        }
    } else {
        Parsed { value: seq![name], used: id.used, errors: id.errors }
    }
}

/// A parameter list in parentheses at `pos`; `what` says in diagnostics
/// whose parameters they are.
pub open spec fn params(ts: Seq<TokenView>, pos: int, what: Seq<char>) -> Parsed<Seq<TokenView>> {
    let open = expect(ts, pos, TokenType::LParen, "expected '(' after "@ + what + " name"@);
    let items = if kind_at(ts, pos + open.used) != TokenType::RParen {
        param_items(ts, pos + open.used)
    } else {
        Parsed { value: Seq::empty(), used: 0, errors: Seq::empty() }
    };
    let close = expect(
        ts,
        pos + open.used + items.used,
        TokenType::RParen,
        "expected ')' after parameters"@,
    );
    Parsed {
        value: items.value,
        used: open.used + items.used + close.used,
        errors: open.errors + items.errors + close.errors,
    }
}

/// The fields of a struct declaration and their types.
pub struct Fields {
    pub names: Seq<TokenView>,
    pub types: Seq<TypeInfoView>,
}

/// One field of a struct declaration: a name, a colon and a type. The
/// token in the place of the type is always taken, unless it is the end of
/// input; where it is no identifier, it is recorded and the field gets no
/// type.
pub open spec fn struct_field(ts: Seq<TokenView>, pos: int) -> Parsed<Fields> {
    let id = expect(ts, pos, TokenType::Id, "expected an identifier"@);
    let name = before(ts, pos + id.used);
    let colon = expect(ts, pos + id.used, TokenType::Colon, "expected ':'"@);
    let at_type = pos + id.used + colon.used;
    let taken: nat = if at_end(ts, at_type) {
        0
    } else {
        1
    };
    if kind_at(ts, at_type) == TokenType::Id {
        Parsed {
            value: Fields { names: seq![name], types: seq![type_of(ts[at_type])] },
            used: id.used + colon.used + taken,
            errors: id.errors + colon.errors,
        }
    } else {
        Parsed {
            value: Fields { names: seq![name], types: Seq::empty() },
            used: id.used + colon.used + taken,
            errors: id.errors + colon.errors + seq![
                diagnostic(ts, at_type, "invalid type info"@),
            ],
        }
    }
}

/// The fields of a struct declaration from `pos` on, up to the closing
/// brace or the end of input. A comma stands between two fields.
#[verifier::opaque]
pub open spec fn struct_fields(ts: Seq<TokenView>, pos: int) -> Parsed<Fields>
    decreases remaining(ts, pos),
{
    if kind_at(ts, pos) == TokenType::RBrace || at_end(ts, pos) {
        Parsed {
            value: Fields { names: Seq::empty(), types: Seq::empty() },
            used: 0,
            errors: Seq::empty(),
        }
    } else {
        let first = struct_field(ts, pos);
        let after = pos + first.used;
        if kind_at(ts, after) == TokenType::RBrace {
            first
        } else {
            let comma = expect(ts, after, TokenType::Comma, "expected ','"@);
            let rest = struct_fields(ts, after + comma.used);
            Parsed {
                value: Fields {
                    names: first.value.names + rest.value.names,
                    types: first.value.types + rest.value.types,
                },
                used: first.used + comma.used + rest.used,
                errors: first.errors + comma.errors + rest.errors,
            }
        }
    }
}

/// A struct declaration, after the keyword `struct`.
pub open spec fn struct_declaration(ts: Seq<TokenView>, pos: int) -> Parsed<NodeView> {
    let id = expect(ts, pos, TokenType::Id, "expected an identifier"@);
    let token = before(ts, pos + id.used);
    let open = expect(ts, pos + id.used, TokenType::LBrace, "expected '{'"@);
    let fields = struct_fields(ts, pos + id.used + open.used);
    let close = expect(
        ts,
        pos + id.used + open.used + fields.used,
        TokenType::RBrace,
        "expected '}'"@,
    );
    Parsed {
        value: NodeView::STMT(
            StmtView::Struct { token, fields: fields.value.names, types: fields.value.types },
        ),
        used: id.used + open.used + fields.used + close.used,
        errors: id.errors + open.errors + fields.errors + close.errors,
    }
}

/// `break ;` or `continue ;`: the keyword and a semicolon.
pub open spec fn keyword_stmt(ts: Seq<TokenView>, pos: int, stmt: StmtView) -> Parsed<NodeView> {
    let semi = expect(ts, pos + 1, TokenType::SColon, "expected ';'"@);
    Parsed { value: NodeView::STMT(stmt), used: 1 + semi.used, errors: semi.errors }
}

/// Nothing built and nothing taken.
pub open spec fn nothing<T>() -> Parsed<Seq<T>> {
    Parsed { value: Seq::empty(), used: 0, errors: Seq::empty() }
}

/// An expression.
#[verifier::opaque]
pub open spec fn expression(ts: Seq<TokenView>, pos: int) -> Parsed<ExprView>
    decreases remaining(ts, pos), 22nat,
{
    assignment(ts, pos)
}

/// An assignment, or what stands below it on the precedence ladder.
///
/// `=` assigns to a variable or to a member; any other target is recorded
/// at the `=`. `+=` and its like assign to a variable the result of the
/// operator that they apply; `++` and `--` that of adding or subtracting 1.
/// Any other target of these is recorded at the token that follows, and the
/// target stands for the whole.
#[verifier::opaque]
pub open spec fn assignment(ts: Seq<TokenView>, pos: int) -> Parsed<ExprView>
    decreases remaining(ts, pos), 21nat,
{
    let target = binary(ts, pos, Level::Or);
    let at_op = pos + target.used;
    let op = kind_at(ts, at_op);
    if op == TokenType::Equal {
        let value = assignment(ts, at_op + 1);
        let used = target.used + 1 + value.used;
        match target.value {
            ExprView::Variable { name } => Parsed {
                value: ExprView::Assign { name, value: Box::new(value.value) },
                used,
                errors: target.errors + value.errors,
            },
            ExprView::Get { instance, token } => Parsed {
                value: ExprView::SetMember { instance, token, value: Box::new(value.value) },
                used,
                errors: target.errors + value.errors,
            },
            _ => Parsed {
                value: target.value,
                used,
                errors: target.errors + value.errors + seq![
                    diagnostic(ts, at_op, "invalid assignment target"@),
                ],
            },
        }
    } else if is_compound(op) {
        let value = assignment(ts, at_op + 1);
        let used = target.used + 1 + value.used;
        match target.value {
            ExprView::Variable { name } => Parsed {
                value: ExprView::Assign {
                    name,
                    value: Box::new(
                        ExprView::Binary {
                            left: Box::new(target.value),
                            right: Box::new(value.value),
                            op: base_operator(ts[at_op]),
                        },
                    ),
                },
                used,
                errors: target.errors + value.errors,
            },
            _ => Parsed {
                value: target.value,
                used,
                errors: target.errors + value.errors + seq![
                    diagnostic(ts, pos + used, "expected a variable"@),
                ],
            },
        }
    } else if op == TokenType::DPlus || op == TokenType::DMinus {
        let used = target.used + 1;
        match target.value {
            ExprView::Variable { name } => Parsed {
                value: ExprView::Assign {
                    name,
                    value: Box::new(
                        ExprView::Binary {
                            left: Box::new(target.value),
                            right: Box::new(one()),
                            op: ts[at_op],
                        },
                    ),
                },
                used,
                errors: target.errors,
            },
            _ => Parsed {
                value: target.value,
                used,
                errors: target.errors + seq![diagnostic(ts, pos + used, "expected a variable"@)],
            },
        }
    } else {
        target
    }
}

/// A chain of operands joined by the operators of `level`, grouped from the
/// left. The operands are chains of the next tighter level; those of the
/// tightest level are unary expressions.
#[verifier::opaque]
pub open spec fn binary(ts: Seq<TokenView>, pos: int, level: Level) -> Parsed<ExprView>
    decreases remaining(ts, pos), level.rank(),
{
    let first = operand(ts, pos, level);
    let rest = binary_rest(ts, pos + first.used, level, first.value);
    Parsed { value: rest.value, used: first.used + rest.used, errors: first.errors + rest.errors }
}

/// One operand of a chain of `level`.
#[verifier::opaque]
pub open spec fn operand(ts: Seq<TokenView>, pos: int, level: Level) -> Parsed<ExprView>
    decreases remaining(ts, pos), (level.rank() - 1) as nat,
{
    match level {
        Level::Or => binary(ts, pos, Level::And),
        Level::And => binary(ts, pos, Level::Equality),
        Level::Equality => binary(ts, pos, Level::Comparison),
        Level::Comparison => binary(ts, pos, Level::Term),
        Level::Term => binary(ts, pos, Level::Factor),
        Level::Factor => unary(ts, pos),
    }
}

/// The rest of a chain of `level` whose operands so far make up `left`.
#[verifier::opaque]
pub open spec fn binary_rest(ts: Seq<TokenView>, pos: int, level: Level, left: ExprView) -> Parsed<
    ExprView,
>
    decreases remaining(ts, pos), 0nat,
{
    if level.has(kind_at(ts, pos)) {
        let right = operand(ts, pos + 1, level);
        let rest = binary_rest(
            ts,
            pos + 1 + right.used,
            level,
            level.node(left, ts[pos], right.value),
        );
        Parsed {
            value: rest.value,
            used: 1 + right.used + rest.used,
            errors: right.errors + rest.errors,
        }
    } else {
        Parsed { value: left, used: 0, errors: Seq::empty() }
    }
}

/// `!` or `-` before a unary expression, or a call.
#[verifier::opaque]
pub open spec fn unary(ts: Seq<TokenView>, pos: int) -> Parsed<ExprView>
    decreases remaining(ts, pos), 2nat,
{
    if kind_at(ts, pos) == TokenType::Bang || kind_at(ts, pos) == TokenType::Minus {
        let right = unary(ts, pos + 1);
        Parsed {
            value: ExprView::Unary { right: Box::new(right.value), op: ts[pos] },
            used: 1 + right.used,
            errors: right.errors,
        }
    } else {
        call(ts, pos, None)
    }
}

/// A primary expression and what is applied to it: calls, member access,
/// indexing and pipes. `piped` is the value that a `|>` before this
/// expression hands to its calls as their first argument.
#[verifier::opaque]
pub open spec fn call(ts: Seq<TokenView>, pos: int, piped: Option<ExprView>) -> Parsed<ExprView>
    decreases remaining(ts, pos), 1nat,
{
    let first = primary(ts, pos);
    let rest = call_rest(ts, pos + first.used, first.value, piped);
    Parsed { value: rest.value, used: first.used + rest.used, errors: first.errors + rest.errors }
}

/// What is applied to `callee` from `pos` on.
///
/// `(` calls it; `.` and a name reads a member; `[` index `]` calls its
/// member `__getitem__` with the index; `|>` hands it to the calls of the
/// expression that follows, which then stands for the whole.
#[verifier::opaque]
pub open spec fn call_rest(
    ts: Seq<TokenView>,
    pos: int,
    callee: ExprView,
    piped: Option<ExprView>,
) -> Parsed<ExprView>
    decreases remaining(ts, pos), 0nat,
{
    let kind = kind_at(ts, pos);
    if kind == TokenType::LParen {
        let called = finish_call(ts, pos + 1, callee, piped);
        let rest = call_rest(ts, pos + 1 + called.used, called.value, piped);
        Parsed {
            value: rest.value,
            used: 1 + called.used + rest.used,
            errors: called.errors + rest.errors,
        }
    } else if kind == TokenType::Dot {
        let id = expect(ts, pos + 1, TokenType::Id, "expected an identifier"@);
        let name = before(ts, pos + 1 + id.used);
        let rest = call_rest(
            ts,
            pos + 1 + id.used,
            ExprView::Get { instance: Box::new(callee), token: name },
            piped,
        );
        Parsed { value: rest.value, used: 1 + id.used + rest.used, errors: id.errors + rest.errors }
    } else if kind == TokenType::RPipe {
        let target = call(ts, pos + 1, Some(callee));
        Parsed { value: target.value, used: 1 + target.used, errors: target.errors }
    } else if kind == TokenType::LBracket {
        let key = expression(ts, pos + 1);
        let close = expect(ts, pos + 1 + key.used, TokenType::RBracket, "expected ']'"@);
        let token = TokenView {
            kind: TokenType::Id,
            text: "__getitem__"@,
            line: ts[pos].line,
            col: ts[pos].col,
        };
        let rest = call_rest(
            ts,
            pos + 1 + key.used + close.used,
            ExprView::Call {
                callee: Box::new(ExprView::Get { instance: Box::new(callee), token }),
                args: seq![key.value],
                token,
            },
            piped,
        );
        Parsed {
            value: rest.value,
            used: 1 + key.used + close.used + rest.used,
            errors: key.errors + close.errors + rest.errors,
        }
    } else {
        Parsed { value: callee, used: 0, errors: Seq::empty() }
    }
}

/// The arguments of a call from `pos` on, after the opening parenthesis:
/// none before a closing parenthesis, else expressions separated by commas.
#[verifier::opaque]
pub open spec fn call_args(ts: Seq<TokenView>, pos: int) -> Parsed<Seq<ExprView>>
    decreases remaining(ts, pos), 23nat,
{
    if kind_at(ts, pos) != TokenType::RParen {
        let first = expression(ts, pos);
        let rest = comma_exprs(ts, pos + first.used);
        Parsed {
            value: seq![first.value] + rest.value,
            used: first.used + rest.used,
            errors: first.errors + rest.errors,
        }
    } else {
        nothing()
    }
}

/// As many times as a comma stands at the position: the comma and an
/// expression.
#[verifier::opaque]
pub open spec fn comma_exprs(ts: Seq<TokenView>, pos: int) -> Parsed<Seq<ExprView>>
    decreases remaining(ts, pos), 0nat,
{
    if kind_at(ts, pos) == TokenType::Comma {
        let first = expression(ts, pos + 1);
        let rest = comma_exprs(ts, pos + 1 + first.used);
        Parsed {
            value: seq![first.value] + rest.value,
            used: 1 + first.used + rest.used,
            errors: first.errors + rest.errors,
        }
    } else {
        nothing()
    }
}

/// A call of `callee`, after the opening parenthesis. Its arguments are the
/// piped value, if there is one, the arguments in the parentheses, and the
/// expression after a `<|` that follows the closing parenthesis, if there is
/// one. The call's own token is the token before the place where the
/// parentheses end.
#[verifier::opaque]
pub open spec fn finish_call(
    ts: Seq<TokenView>,
    pos: int,
    callee: ExprView,
    piped: Option<ExprView>,
) -> Parsed<ExprView>
    decreases remaining(ts, pos), 24nat,
{
    let first: Seq<ExprView> = match piped {
        Some(value) => seq![value],
        None => Seq::empty(),
    };
    let listed = call_args(ts, pos);
    let close = expect(ts, pos + listed.used, TokenType::RParen, "expected ')'"@);
    let after = pos + listed.used + close.used;
    let token = before(ts, after);
    if kind_at(ts, after) == TokenType::LPipe {
        let last = expression(ts, after + 1);
        Parsed {
            value: ExprView::Call {
                callee: Box::new(callee),
                args: first + listed.value + seq![last.value],
                token,
            },
            used: listed.used + close.used + 1 + last.used,
            errors: listed.errors + close.errors + last.errors,
        }
    } else {
        Parsed {
            value: ExprView::Call { callee: Box::new(callee), args: first + listed.value, token },
            used: listed.used + close.used,
            errors: listed.errors + close.errors,
        }
    }
}

/// A primary expression: a literal, a name, an expression in parentheses
/// or an anonymous function. `[` and `{` are taken alone and stand for no
/// expression, without a diagnostic. Any other token is recorded as
/// unexpected and taken, unless it is the end of input, and stands for no
/// expression.
#[verifier::opaque]
pub open spec fn primary(ts: Seq<TokenView>, pos: int) -> Parsed<ExprView>
    decreases remaining(ts, pos), 0nat,
{
    let kind = kind_at(ts, pos);
    if kind == TokenType::True || kind == TokenType::False || kind == TokenType::Null || kind
        == TokenType::Num || kind == TokenType::Str {
        Parsed {
            value: ExprView::Literal { kind, value: ts[pos].text },
            used: 1,
            errors: Seq::empty(),
        }
    } else if kind == TokenType::Id {
        Parsed { value: ExprView::Variable { name: ts[pos] }, used: 1, errors: Seq::empty() }
    } else if kind == TokenType::LParen {
        let inner = expression(ts, pos + 1);
        let close = expect(ts, pos + 1 + inner.used, TokenType::RParen, "expected ')'"@);
        Parsed {
            value: ExprView::Group { expr: Box::new(inner.value) },
            used: 1 + inner.used + close.used,
            errors: inner.errors + close.errors,
        }
    } else if kind == TokenType::LBracket || kind == TokenType::LBrace {
        Parsed { value: ExprView::Unknown, used: 1, errors: Seq::empty() }
    } else if kind == TokenType::Func {
        let function = anonymous_function(ts, pos + 1);
        Parsed { value: function.value, used: 1 + function.used, errors: function.errors }
    } else {
        Parsed {
            value: ExprView::Unknown,
            used: if at_end(ts, pos) {
                0
            } else {
                1
            },
            errors: seq![diagnostic(ts, pos, "unexpected token"@)],
        }
    }
}

/// An anonymous function, after the keyword `fn`: parameters, and a body
/// in braces or a single expression, which the function returns. The token
/// of that return is the token before the expression.
#[verifier::opaque]
pub open spec fn anonymous_function(ts: Seq<TokenView>, pos: int) -> Parsed<ExprView>
    decreases remaining(ts, pos), 23nat,
{
    let names = params(ts, pos, "anonymous function"@);
    let after = pos + names.used;
    if kind_at(ts, after) == TokenType::LBrace {
        let body = block(ts, after + 1);
        Parsed {
            value: ExprView::Func { params: names.value, body: body.value },
            used: names.used + 1 + body.used,
            errors: names.errors + body.errors,
        }
    } else {
        let result = expression(ts, after);
        Parsed {
            value: ExprView::Func {
                params: names.value,
                body: seq![
                    NodeView::STMT(
                        StmtView::Return { token: before(ts, after), values: seq![result.value] },
                    ),
                ],
            },
            used: names.used + result.used,
            errors: names.errors + result.errors,
        }
    }
}

/// A declaration: a variable after `let`, a function after `fn` and a
/// name, a struct after `struct`; else a statement.
#[verifier::opaque]
pub open spec fn declaration(ts: Seq<TokenView>, pos: int) -> Parsed<NodeView>
    decreases remaining(ts, pos), 25nat,
{
    let kind = kind_at(ts, pos);
    if kind == TokenType::Var {
        let rest = var_declaration(ts, pos + 1);
        Parsed { value: rest.value, used: 1 + rest.used, errors: rest.errors }
    } else if kind == TokenType::Func && kind_at(ts, pos + 1) == TokenType::Id {
        let rest = function(ts, pos + 1, "function"@);
        Parsed { value: rest.value, used: 1 + rest.used, errors: rest.errors }
    } else if kind == TokenType::Struct {
        let rest = struct_declaration(ts, pos + 1);
        Parsed { value: rest.value, used: 1 + rest.used, errors: rest.errors }
    } else {
        statement(ts, pos)
    }
}

/// A statement: a block, one of the statements that start with a keyword,
/// or an expression and a semicolon.
#[verifier::opaque]
pub open spec fn statement(ts: Seq<TokenView>, pos: int) -> Parsed<NodeView>
    decreases remaining(ts, pos), 24nat,
{
    let kind = kind_at(ts, pos);
    if kind == TokenType::LBrace {
        let body = block(ts, pos + 1);
        Parsed {
            value: NodeView::STMT(StmtView::Block { statements: body.value }),
            used: 1 + body.used,
            errors: body.errors,
        }
    } else if kind == TokenType::If {
        if_stmt(ts, pos)
    } else if kind == TokenType::While {
        while_stmt(ts, pos)
    } else if kind == TokenType::For {
        for_stmt(ts, pos)
    } else if kind == TokenType::Return {
        return_stmt(ts, pos)
    } else if kind == TokenType::Break {
        keyword_stmt(ts, pos, StmtView::Break)
    } else if kind == TokenType::Import {
        import_stmt(ts, pos)
    } else if kind == TokenType::Continue {
        keyword_stmt(ts, pos, StmtView::Continue)
    } else {
        expr_stmt(ts, pos)
    }
}

/// An expression and a semicolon.
#[verifier::opaque]
pub open spec fn expr_stmt(ts: Seq<TokenView>, pos: int) -> Parsed<NodeView>
    decreases remaining(ts, pos), 23nat,
{
    let expr = expression(ts, pos);
    let semi = expect(ts, pos + expr.used, TokenType::SColon, "expected ';'"@);
    Parsed {
        value: NodeView::EXPR(expr.value),
        used: expr.used + semi.used,
        errors: expr.errors + semi.errors,
    }
}

/// The `import` at `pos`, an expression and a semicolon.
#[verifier::opaque]
pub open spec fn import_stmt(ts: Seq<TokenView>, pos: int) -> Parsed<NodeView>
    decreases remaining(ts, pos), 23nat,
    when kind_at(ts, pos) == TokenType::Import
{
    let name = expression(ts, pos + 1);
    let semi = expect(ts, pos + 1 + name.used, TokenType::SColon, "expected ';'"@);
    Parsed {
        value: NodeView::STMT(StmtView::Import { name: name.value, token: ts[pos] }),
        used: 1 + name.used + semi.used,
        errors: name.errors + semi.errors,
    }
}

/// The `if` at `pos`, a condition in parentheses and a statement; then,
/// where `else` follows, another `if` statement or any statement.
#[verifier::opaque]
pub open spec fn if_stmt(ts: Seq<TokenView>, pos: int) -> Parsed<NodeView>
    decreases remaining(ts, pos), 23nat,
    when kind_at(ts, pos) == TokenType::If
{
    let open = expect(ts, pos + 1, TokenType::LParen, "expected '(' after 'if'"@);
    let condition = expression(ts, pos + 1 + open.used);
    let close = expect(
        ts,
        pos + 1 + open.used + condition.used,
        TokenType::RParen,
        "expected ')' after if condition"@,
    );
    let at_then = pos + 1 + open.used + condition.used + close.used;
    let then_branch = statement(ts, at_then);
    let at_else = at_then + then_branch.used;
    let used = 1 + open.used + condition.used + close.used + then_branch.used;
    let errors = open.errors + condition.errors + close.errors + then_branch.errors;
    if kind_at(ts, at_else) == TokenType::Else {
        let els = if kind_at(ts, at_else + 1) == TokenType::If {
            if_stmt(ts, at_else + 1)
        } else {
            statement(ts, at_else + 1)
        };
        Parsed {
            value: NodeView::STMT(
                StmtView::If {
                    condition: condition.value,
                    then_branch: Box::new(then_branch.value),
                    els: Some(Box::new(els.value)),
                },
            ),
            used: used + 1 + els.used,
            errors: errors + els.errors,
        }
    } else {
        Parsed {
            value: NodeView::STMT(
                StmtView::If {
                    condition: condition.value,
                    then_branch: Box::new(then_branch.value),
                    els: None,
                },
            ),
            used,
            errors,
        }
    }
}

/// The `while` at `pos`, a condition in parentheses and a statement.
#[verifier::opaque]
pub open spec fn while_stmt(ts: Seq<TokenView>, pos: int) -> Parsed<NodeView>
    decreases remaining(ts, pos), 23nat,
    when kind_at(ts, pos) == TokenType::While
{
    let open = expect(ts, pos + 1, TokenType::LParen, "expected '(' after 'while'"@);
    let condition = expression(ts, pos + 1 + open.used);
    let close = expect(
        ts,
        pos + 1 + open.used + condition.used,
        TokenType::RParen,
        "expected ')' after while condition"@,
    );
    let body = statement(ts, pos + 1 + open.used + condition.used + close.used);
    Parsed {
        value: NodeView::STMT(
            StmtView::While {
                condition: condition.value,
                body: Box::new(body.value),
                token: ts[pos],
            },
        ),
        used: 1 + open.used + condition.used + close.used + body.used,
        errors: open.errors + condition.errors + close.errors + body.errors,
    }
}

/// The first part of the head of a `for` statement: a lone semicolon, a
/// variable declaration after `let`, or an expression statement.
#[verifier::opaque]
pub open spec fn for_init(ts: Seq<TokenView>, pos: int) -> Parsed<Option<NodeView>>
    decreases remaining(ts, pos), 24nat,
{
    let kind = kind_at(ts, pos);
    if kind == TokenType::SColon {
        Parsed { value: None, used: 1, errors: Seq::empty() }
    } else if kind == TokenType::Var {
        let init = var_declaration(ts, pos + 1);
        Parsed { value: Some(init.value), used: 1 + init.used, errors: init.errors }
    } else {
        let init = expr_stmt(ts, pos);
        Parsed { value: Some(init.value), used: init.used, errors: init.errors }
    }
}

/// An expression, unless a token of kind `stop` stands at `pos`.
#[verifier::opaque]
pub open spec fn expression_unless(ts: Seq<TokenView>, pos: int, stop: TokenType) -> Parsed<
    Option<ExprView>,
>
    decreases remaining(ts, pos), 23nat,
{
    if kind_at(ts, pos) != stop {
        let expr = expression(ts, pos);
        Parsed { value: Some(expr.value), used: expr.used, errors: expr.errors }
    } else {
        Parsed { value: None, used: 0, errors: Seq::empty() }
    }
}

/// The literal `true`, the condition of a `for` statement that has none.
pub open spec fn always() -> ExprView {
    ExprView::Literal { kind: TokenType::True, value: Seq::empty() }
}

/// The loop that a `for` statement stands for:
/// `{ init; while (condition) { body; increment } }`, without the outer
/// block where there is no `init`, without the inner one where there is no
/// `increment`, and with `true` where there is no `condition`.
pub open spec fn for_loop(
    token: TokenView,
    init: Option<NodeView>,
    condition: Option<ExprView>,
    increment: Option<ExprView>,
    body: NodeView,
) -> NodeView {
    let stepped = match increment {
        Some(step) => NodeView::STMT(
            StmtView::Block { statements: seq![body, NodeView::EXPR(step)] },
        ),
        None => body,
    };
    let looped = NodeView::STMT(
        StmtView::While {
            condition: match condition {
                Some(c) => c,
                None => always(),
            },
            body: Box::new(stepped),
            token,
        },
    );
    match init {
        Some(first) => NodeView::STMT(StmtView::Block { statements: seq![first, looped] }),
        None => looped,
    }
}

/// The `for` at `pos`, a head in parentheses and a statement. The head is
/// an `init`, a `condition` and a semicolon, and an `increment`; each of
/// the three may be missing.
#[verifier::opaque]
pub open spec fn for_stmt(ts: Seq<TokenView>, pos: int) -> Parsed<NodeView>
    decreases remaining(ts, pos), 23nat,
    when kind_at(ts, pos) == TokenType::For
{
    let open = expect(ts, pos + 1, TokenType::LParen, "expected '('"@);
    let at_init = pos + 1 + open.used;
    let init = for_init(ts, at_init);
    let at_condition = at_init + init.used;
    let condition = expression_unless(ts, at_condition, TokenType::SColon);
    let semi = expect(ts, at_condition + condition.used, TokenType::SColon, "expected ';'"@);
    let at_increment = at_condition + condition.used + semi.used;
    let increment = expression_unless(ts, at_increment, TokenType::RParen);
    let close = expect(ts, at_increment + increment.used, TokenType::RParen, "expected ')'"@);
    let body = statement(ts, at_increment + increment.used + close.used);
    Parsed {
        value: for_loop(ts[pos], init.value, condition.value, increment.value, body.value),
        used: 1 + open.used + init.used + condition.used + semi.used + increment.used
            + close.used + body.used,
        errors: open.errors + init.errors + condition.errors + semi.errors + increment.errors
            + close.errors + body.errors,
    }
}

/// Expressions separated by commas, at least one.
#[verifier::opaque]
pub open spec fn return_values(ts: Seq<TokenView>, pos: int) -> Parsed<Seq<ExprView>>
    decreases remaining(ts, pos), 23nat,
{
    let first = expression(ts, pos);
    if kind_at(ts, pos + first.used) == TokenType::Comma {
        let rest = return_values(ts, pos + first.used + 1);
        Parsed {
            value: seq![first.value] + rest.value,
            used: first.used + 1 + rest.used,
            errors: first.errors + rest.errors,
        }
    } else {
        Parsed { value: seq![first.value], used: first.used, errors: first.errors }
    }
}

/// The `return` at `pos`, any number of expressions separated by commas,
/// and a semicolon.
#[verifier::opaque]
pub open spec fn return_stmt(ts: Seq<TokenView>, pos: int) -> Parsed<NodeView>
    decreases remaining(ts, pos), 23nat,
    when kind_at(ts, pos) == TokenType::Return
{
    let values = if kind_at(ts, pos + 1) != TokenType::SColon {
        return_values(ts, pos + 1)
    } else {
        nothing()
    };
    let semi = expect(ts, pos + 1 + values.used, TokenType::SColon, "expected ';'"@);
    Parsed {
        value: NodeView::STMT(StmtView::Return { token: ts[pos], values: values.value }),
        used: 1 + values.used + semi.used,
        errors: values.errors + semi.errors,
    }
}

/// A variable declaration, after the keyword `let`: a name, then `=` and
/// an expression or nothing, which stands for `null`, and a semicolon.
#[verifier::opaque]
pub open spec fn var_declaration(ts: Seq<TokenView>, pos: int) -> Parsed<NodeView>
    decreases remaining(ts, pos), 23nat,
{
    let id = expect(ts, pos, TokenType::Id, "Expected an identifier"@);
    let name = before(ts, pos + id.used);
    let at_init = pos + id.used;
    if kind_at(ts, at_init) == TokenType::Equal {
        let init = expression(ts, at_init + 1);
        let semi = expect(ts, at_init + 1 + init.used, TokenType::SColon, "expected ';'"@);
        Parsed {
            value: NodeView::STMT(StmtView::Variable { name, init: init.value }),
            used: id.used + 1 + init.used + semi.used,
            errors: id.errors + init.errors + semi.errors,
        }
    } else {
        let semi = expect(ts, at_init, TokenType::SColon, "expected ';'"@);
        Parsed {
            value: NodeView::STMT(
                StmtView::Variable {
                    name,
                    init: ExprView::Literal { kind: TokenType::Null, value: Seq::empty() },
                },
            ),
            used: id.used + semi.used,
            errors: id.errors + semi.errors,
        }
    }
}

/// A function declaration, after the keyword `fn`: a name, parameters and a
/// body. `what` says in diagnostics what is declared.
#[verifier::opaque]
pub open spec fn function(ts: Seq<TokenView>, pos: int, what: Seq<char>) -> Parsed<NodeView>
    decreases remaining(ts, pos), 28nat,
{
    let id = expect(ts, pos, TokenType::Id, "expected "@ + what + " name"@);
    let name = before(ts, pos + id.used);
    let body = function_body(ts, pos + id.used, what);
    Parsed {
        value: NodeView::STMT(StmtView::Func { token: name, func: body.value }),
        used: id.used + body.used,
        errors: id.errors + body.errors,
    }
}

/// The parameters of a function and its body in braces.
#[verifier::opaque]
pub open spec fn function_body(ts: Seq<TokenView>, pos: int, what: Seq<char>) -> Parsed<ExprView>
    decreases remaining(ts, pos), 27nat,
{
    let names = params(ts, pos, what);
    let open = expect(
        ts,
        pos + names.used,
        TokenType::LBrace,
        "expected '{' before "@ + what + " body"@,
    );
    let body = block(ts, pos + names.used + open.used);
    Parsed {
        value: ExprView::Func { params: names.value, body: body.value },
        used: names.used + open.used + body.used,
        errors: names.errors + open.errors + body.errors,
    }
}

/// The declarations of a block from `pos` on, after its opening brace, and
/// its closing brace. The block ends at the closing brace or at the end of
/// input, where the missing brace is recorded.
#[verifier::opaque]
pub open spec fn block(ts: Seq<TokenView>, pos: int) -> Parsed<Seq<NodeView>>
    decreases remaining(ts, pos), 26nat,
{
    if kind_at(ts, pos) == TokenType::RBrace || at_end(ts, pos) {
        let close = expect(ts, pos, TokenType::RBrace, "expected '}' after a block"@);
        Parsed { value: Seq::empty(), used: close.used, errors: close.errors }
    } else {
        let first = declaration(ts, pos);
        let rest = if first.used > 0 {
            block(ts, pos + first.used)
        } else {
            nothing()
        };
        Parsed {
            value: seq![first.value] + rest.value,
            used: first.used + rest.used,
            errors: first.errors + rest.errors,
        }
    }
}

/// The declarations of a program from `pos` on, up to the end of input.
pub open spec fn program_from(ts: Seq<TokenView>, pos: int) -> Parsed<Seq<NodeView>>
    decreases remaining(ts, pos),
{
    if at_end(ts, pos) {
        nothing()
    } else {
        let first = declaration(ts, pos);
        let rest = if first.used > 0 {
            program_from(ts, pos + first.used)
        } else {
            nothing()
        };
        Parsed {
            value: seq![first.value] + rest.value,
            used: first.used + rest.used,
            errors: first.errors + rest.errors,
        }
    }
}

/// The program of a token stream and its diagnostics.
pub open spec fn program(ts: Seq<TokenView>) -> Parsed<Seq<NodeView>> {
    program_from(ts, 0)
}

} // verus!
