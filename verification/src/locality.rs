//! What is parsed from the start of a declaration on depends only on the
//! tokens from there on: neither the program nor the diagnostics of the
//! rest of a stream change when the tokens before it do. So a malformed
//! declaration never changes what is reported of the declarations after it.

use crate::ast::ExprView;
use crate::grammar::{
    anonymous_function, assignment, at_end, before, binary, binary_rest, block, call, call_args,
    call_rest, comma_exprs, declaration, diagnostic, expect, expr_stmt, expression,
    expression_unless, finish_call, for_init, for_stmt, function, function_body, if_stmt,
    import_stmt, kind_at, operand, param_items, params, primary, program_from, remaining,
    return_stmt, return_values, statement, struct_declaration, struct_field, struct_fields, unary,
    var_declaration, while_stmt, Level,
};
use crate::invariance::{
    inside, lemma_assignment, lemma_binary, lemma_call_args, lemma_declaration, lemma_expect,
    lemma_expression, lemma_expression_unless, lemma_finish_call, lemma_for_init, lemma_operand,
    lemma_param_items, lemma_params, lemma_primary, lemma_return_values, lemma_statement,
    lemma_struct_field, lemma_struct_fields,
};
use crate::token::{TokenType, TokenView};
use vstd::prelude::*;

verus! {

/// The stream `a` from `p` on holds the same tokens as the stream `b` from
/// `q` on.
pub open spec fn same_from(a: Seq<TokenView>, p: int, b: Seq<TokenView>, q: int) -> bool {
    &&& inside(a, p)
    &&& inside(b, q)
    &&& a.len() - p == b.len() - q
    &&& forall|i: int| p <= i < a.len() ==> #[trigger] a[i] == b[i - p + q]
}

/// What two streams have in common that hold the same tokens from some
/// position on.
pub proof fn lemma_same_from(a: Seq<TokenView>, p: int, b: Seq<TokenView>, q: int)
    requires
        same_from(a, p, b, q),
    ensures
        forall|i: int| p <= i ==> #[trigger] kind_at(a, i) == kind_at(b, i - p + q),
        forall|i: int| p <= i ==> #[trigger] at_end(a, i) == at_end(b, i - p + q),
        forall|i: int| p < i <= a.len() ==> #[trigger] before(a, i) == before(b, i - p + q),
        forall|i: int, m: Seq<char>|
            p <= i < a.len() ==> #[trigger] diagnostic(a, i, m) == diagnostic(b, i - p + q, m),
        forall|i: int, k: TokenType, m: Seq<char>|
            p <= i < a.len() ==> #[trigger] expect(a, i, k, m) == expect(b, i - p + q, k, m),
{
    assert forall|i: int| p <= i implies #[trigger] kind_at(a, i) == kind_at(b, i - p + q) by {
        if i < a.len() {
            assert(a[i] == b[i - p + q]);
        }
    }
    assert forall|i: int| p < i <= a.len() implies #[trigger] before(a, i) == before(
        b,
        i - p + q,
    ) by {
        assert(a[i - 1] == b[i - 1 - p + q]);
    }
    assert forall|i: int, m: Seq<char>| p <= i < a.len() implies #[trigger] diagnostic(a, i, m)
        == diagnostic(b, i - p + q, m) by {
        assert(a[i] == b[i - p + q]);
    }
    assert forall|i: int, k: TokenType, m: Seq<char>| p <= i < a.len() implies #[trigger] expect(
        a,
        i,
        k,
        m,
    ) == expect(b, i - p + q, k, m) by {
        assert(a[i] == b[i - p + q]);
    }
}

/// The names of a parameter list depend only on the tokens from the one
/// before them on.
#[verifier::spinoff_prover]
pub proof fn local_param_items(a: Seq<TokenView>, p: int, b: Seq<TokenView>, q: int, i: int)
    requires
        same_from(a, p, b, q),
        p < i < a.len(),
    ensures
        param_items(a, i) == param_items(b, i - p + q),
    decreases remaining(a, i),
{
    lemma_same_from(a, p, b, q);
    let id = expect(a, i, TokenType::Id, "expected an identifier"@);
    lemma_expect(a, i, TokenType::Id, "expected an identifier"@);
    if kind_at(a, i + id.used) == TokenType::Comma {
        local_param_items(a, p, b, q, i + id.used + 1);
    }
}

/// A parameter list depends only on the tokens from the one before it on.
#[verifier::spinoff_prover]
pub proof fn local_params(
    a: Seq<TokenView>,
    p: int,
    b: Seq<TokenView>,
    q: int,
    i: int,
    what: Seq<char>,
)
    requires
        same_from(a, p, b, q),
        p < i < a.len(),
    ensures
        params(a, i, what) == params(b, i - p + q, what),
{
    lemma_same_from(a, p, b, q);
    let message = "expected '(' after "@ + what + " name"@;
    let open = expect(a, i, TokenType::LParen, message);
    lemma_expect(a, i, TokenType::LParen, message);
    if kind_at(a, i + open.used) != TokenType::RParen {
        local_param_items(a, p, b, q, i + open.used);
        lemma_param_items(a, i + open.used);
    }
}

/// A field of a struct declaration depends only on the tokens from the one
/// before it on.
#[verifier::spinoff_prover]
pub proof fn local_struct_field(a: Seq<TokenView>, p: int, b: Seq<TokenView>, q: int, i: int)
    requires
        same_from(a, p, b, q),
        p < i < a.len(),
    ensures
        struct_field(a, i) == struct_field(b, i - p + q),
{
    lemma_same_from(a, p, b, q);
    let id = expect(a, i, TokenType::Id, "expected an identifier"@);
    lemma_expect(a, i, TokenType::Id, "expected an identifier"@);
    let colon = expect(a, i + id.used, TokenType::Colon, "expected ':'"@);
    lemma_expect(a, i + id.used, TokenType::Colon, "expected ':'"@);
    let at_type = i + id.used + colon.used;
    assert(a[at_type] == b[at_type - p + q]);
}

/// The fields of a struct declaration depend only on the tokens from the one
/// before them on.
#[verifier::spinoff_prover]
pub proof fn local_struct_fields(a: Seq<TokenView>, p: int, b: Seq<TokenView>, q: int, i: int)
    requires
        same_from(a, p, b, q),
        p < i < a.len(),
    ensures
        struct_fields(a, i) == struct_fields(b, i - p + q),
    decreases remaining(a, i),
{
    lemma_same_from(a, p, b, q);
    reveal_with_fuel(struct_fields, 1);
    if kind_at(a, i) == TokenType::RBrace || at_end(a, i) {
    } else {
        let first = struct_field(a, i);
        local_struct_field(a, p, b, q, i);
        lemma_struct_field(a, i);
        let after = i + first.used;
        if kind_at(a, after) == TokenType::RBrace {
        } else {
            let comma = expect(a, after, TokenType::Comma, "expected ','"@);
            lemma_expect(a, after, TokenType::Comma, "expected ','"@);
            local_struct_fields(a, p, b, q, after + comma.used);
        }
    }
}

/// A struct declaration depends only on the tokens from its keyword on.
#[verifier::spinoff_prover]
pub proof fn local_struct_declaration(a: Seq<TokenView>, p: int, b: Seq<TokenView>, q: int, i: int)
    requires
        same_from(a, p, b, q),
        p < i < a.len(),
    ensures
        struct_declaration(a, i) == struct_declaration(b, i - p + q),
{
    lemma_same_from(a, p, b, q);
    let id = expect(a, i, TokenType::Id, "expected an identifier"@);
    lemma_expect(a, i, TokenType::Id, "expected an identifier"@);
    let open = expect(a, i + id.used, TokenType::LBrace, "expected '{'"@);
    lemma_expect(a, i + id.used, TokenType::LBrace, "expected '{'"@);
    local_struct_fields(a, p, b, q, i + id.used + open.used);
    lemma_struct_fields(a, i + id.used + open.used);
}

/// An expression depends only on the tokens from its first one on.
#[verifier::spinoff_prover]
pub proof fn local_expression(a: Seq<TokenView>, p: int, b: Seq<TokenView>, q: int, i: int)
    requires
        same_from(a, p, b, q),
        p <= i < a.len(),
    ensures
        expression(a, i) == expression(b, i - p + q),
    decreases remaining(a, i), 22nat,
{
    lemma_same_from(a, p, b, q);
    reveal_with_fuel(expression, 1);
    reveal_with_fuel(assignment, 1);
    local_assignment(a, p, b, q, i);
}

/// An assignment depends only on the tokens from its first one on.
#[verifier::spinoff_prover]
pub proof fn local_assignment(a: Seq<TokenView>, p: int, b: Seq<TokenView>, q: int, i: int)
    requires
        same_from(a, p, b, q),
        p <= i < a.len(),
    ensures
        assignment(a, i) == assignment(b, i - p + q),
    decreases remaining(a, i), 21nat,
{
    lemma_same_from(a, p, b, q);
    reveal_with_fuel(assignment, 1);
    reveal_with_fuel(binary, 1);
    let target = binary(a, i, Level::Or);
    local_binary(a, p, b, q, i, Level::Or);
    lemma_binary(a, i, Level::Or);
    let at_op = i + target.used;
    let op = kind_at(a, at_op);
    assert(a[at_op] == b[at_op - p + q]);
    if op == TokenType::Equal {
        local_assignment(a, p, b, q, at_op + 1);
        lemma_assignment(a, at_op + 1);
    } else if crate::grammar::is_compound(op) {
        local_assignment(a, p, b, q, at_op + 1);
        lemma_assignment(a, at_op + 1);
    }
}

/// A chain depends only on the tokens from its first one on.
#[verifier::spinoff_prover]
pub proof fn local_binary(
    a: Seq<TokenView>,
    p: int,
    b: Seq<TokenView>,
    q: int,
    i: int,
    level: Level,
)
    requires
        same_from(a, p, b, q),
        p <= i < a.len(),
    ensures
        binary(a, i, level) == binary(b, i - p + q, level),
    decreases remaining(a, i), level.rank(),
{
    lemma_same_from(a, p, b, q);
    reveal_with_fuel(binary, 1);
    reveal_with_fuel(operand, 1);
    reveal_with_fuel(binary_rest, 1);
    let first = operand(a, i, level);
    local_operand(a, p, b, q, i, level);
    lemma_operand(a, i, level);
    local_binary_rest(a, p, b, q, i + first.used, level, first.value);
}

/// An operand depends only on the tokens from its first one on.
#[verifier::spinoff_prover]
pub proof fn local_operand(
    a: Seq<TokenView>,
    p: int,
    b: Seq<TokenView>,
    q: int,
    i: int,
    level: Level,
)
    requires
        same_from(a, p, b, q),
        p <= i < a.len(),
    ensures
        operand(a, i, level) == operand(b, i - p + q, level),
    decreases remaining(a, i), (level.rank() - 1) as nat,
{
    lemma_same_from(a, p, b, q);
    reveal_with_fuel(operand, 1);
    reveal_with_fuel(binary, 1);
    reveal_with_fuel(unary, 1);
    match level {
        Level::Or => local_binary(a, p, b, q, i, Level::And),
        Level::And => local_binary(a, p, b, q, i, Level::Equality),
        Level::Equality => local_binary(a, p, b, q, i, Level::Comparison),
        Level::Comparison => local_binary(a, p, b, q, i, Level::Term),
        Level::Term => local_binary(a, p, b, q, i, Level::Factor),
        Level::Factor => local_unary(a, p, b, q, i),
    }
}

/// The rest of a chain depends only on the tokens from its first one on.
#[verifier::spinoff_prover]
pub proof fn local_binary_rest(
    a: Seq<TokenView>,
    p: int,
    b: Seq<TokenView>,
    q: int,
    i: int,
    level: Level,
    left: ExprView,
)
    requires
        same_from(a, p, b, q),
        p <= i < a.len(),
    ensures
        binary_rest(a, i, level, left) == binary_rest(b, i - p + q, level, left),
    decreases remaining(a, i), 0nat,
{
    lemma_same_from(a, p, b, q);
    let j = i - p + q;
    reveal_with_fuel(binary_rest, 1);
    reveal_with_fuel(operand, 1);
    assert(a[i] == b[j]);
    if level.has(kind_at(a, i)) {
        let right = operand(a, i + 1, level);
        local_operand(a, p, b, q, i + 1, level);
        lemma_operand(a, i + 1, level);
        local_binary_rest(a, p, b, q, i + 1 + right.used, level, level.node(left, a[i], right.value));
    }
}

/// A unary expression depends only on the tokens from its first one on.
#[verifier::spinoff_prover]
pub proof fn local_unary(a: Seq<TokenView>, p: int, b: Seq<TokenView>, q: int, i: int)
    requires
        same_from(a, p, b, q),
        p <= i < a.len(),
    ensures
        unary(a, i) == unary(b, i - p + q),
    decreases remaining(a, i), 2nat,
{
    lemma_same_from(a, p, b, q);
    let j = i - p + q;
    reveal_with_fuel(unary, 1);
    reveal_with_fuel(call, 1);
    assert(a[i] == b[j]);
    if kind_at(a, i) == TokenType::Bang || kind_at(a, i) == TokenType::Minus {
        local_unary(a, p, b, q, i + 1);
    } else {
        local_call(a, p, b, q, i, None);
    }
}

/// A call depends only on the tokens from its first one on.
#[verifier::spinoff_prover]
pub proof fn local_call(
    a: Seq<TokenView>,
    p: int,
    b: Seq<TokenView>,
    q: int,
    i: int,
    piped: Option<ExprView>,
)
    requires
        same_from(a, p, b, q),
        p <= i < a.len(),
    ensures
        call(a, i, piped) == call(b, i - p + q, piped),
    decreases remaining(a, i), 1nat,
{
    lemma_same_from(a, p, b, q);
    reveal_with_fuel(call, 1);
    reveal_with_fuel(primary, 1);
    reveal_with_fuel(call_rest, 1);
    let first = primary(a, i);
    local_primary(a, p, b, q, i);
    lemma_primary(a, i);
    local_call_rest(a, p, b, q, i + first.used, first.value, piped);
}

/// What is applied to a callee depends only on the tokens from the first of
/// it on.
#[verifier::spinoff_prover]
pub proof fn local_call_rest(
    a: Seq<TokenView>,
    p: int,
    b: Seq<TokenView>,
    q: int,
    i: int,
    callee: ExprView,
    piped: Option<ExprView>,
)
    requires
        same_from(a, p, b, q),
        p <= i < a.len(),
    ensures
        call_rest(a, i, callee, piped) == call_rest(b, i - p + q, callee, piped),
    decreases remaining(a, i), 0nat,
{
    lemma_same_from(a, p, b, q);
    let j = i - p + q;
    reveal_with_fuel(call_rest, 1);
    reveal_with_fuel(finish_call, 1);
    reveal_with_fuel(call, 1);
    reveal_with_fuel(expression, 1);
    assert(a[i] == b[j]);
    let kind = kind_at(a, i);
    if kind == TokenType::LParen {
        let called = finish_call(a, i + 1, callee, piped);
        local_finish_call(a, p, b, q, i + 1, callee, piped);
        lemma_finish_call(a, i + 1, callee, piped);
        local_call_rest(a, p, b, q, i + 1 + called.used, called.value, piped);
    } else if kind == TokenType::Dot {
        let id = expect(a, i + 1, TokenType::Id, "expected an identifier"@);
        lemma_expect(a, i + 1, TokenType::Id, "expected an identifier"@);
        let name = before(a, i + 1 + id.used);
        local_call_rest(
            a,
            p,
            b,
            q,
            i + 1 + id.used,
            ExprView::Get { instance: Box::new(callee), token: name },
            piped,
        );
    } else if kind == TokenType::RPipe {
        local_call(a, p, b, q, i + 1, Some(callee));
    } else if kind == TokenType::LBracket {
        let key = expression(a, i + 1);
        local_expression(a, p, b, q, i + 1);
        lemma_expression(a, i + 1);
        let close = expect(a, i + 1 + key.used, TokenType::RBracket, "expected ']'"@);
        lemma_expect(a, i + 1 + key.used, TokenType::RBracket, "expected ']'"@);
        let token = TokenView {
            kind: TokenType::Id,
            text: "__getitem__"@,
            line: a[i].line,
            col: a[i].col,
        };
        local_call_rest(
            a,
            p,
            b,
            q,
            i + 1 + key.used + close.used,
            ExprView::Call {
                callee: Box::new(ExprView::Get { instance: Box::new(callee), token }),
                args: seq![key.value],
                token,
            },
            piped,
        );
    }
}

/// The arguments of a call depend only on the tokens from their first one on.
#[verifier::spinoff_prover]
pub proof fn local_call_args(a: Seq<TokenView>, p: int, b: Seq<TokenView>, q: int, i: int)
    requires
        same_from(a, p, b, q),
        p <= i < a.len(),
    ensures
        call_args(a, i) == call_args(b, i - p + q),
    decreases remaining(a, i), 23nat,
{
    lemma_same_from(a, p, b, q);
    reveal_with_fuel(call_args, 1);
    reveal_with_fuel(comma_exprs, 1);
    reveal_with_fuel(expression, 1);
    if kind_at(a, i) != TokenType::RParen {
        let first = expression(a, i);
        local_expression(a, p, b, q, i);
        lemma_expression(a, i);
        local_comma_exprs(a, p, b, q, i + first.used);
    }
}

/// Expressions after commas depend only on the tokens from the first comma on.
#[verifier::spinoff_prover]
pub proof fn local_comma_exprs(a: Seq<TokenView>, p: int, b: Seq<TokenView>, q: int, i: int)
    requires
        same_from(a, p, b, q),
        p <= i < a.len(),
    ensures
        comma_exprs(a, i) == comma_exprs(b, i - p + q),
    decreases remaining(a, i), 0nat,
{
    lemma_same_from(a, p, b, q);
    reveal_with_fuel(comma_exprs, 1);
    reveal_with_fuel(expression, 1);
    if kind_at(a, i) == TokenType::Comma {
        let first = expression(a, i + 1);
        local_expression(a, p, b, q, i + 1);
        lemma_expression(a, i + 1);
        local_comma_exprs(a, p, b, q, i + 1 + first.used);
    }
}

/// A call after its opening parenthesis depends only on the tokens from that
/// parenthesis on.
#[verifier::spinoff_prover]
pub proof fn local_finish_call(
    a: Seq<TokenView>,
    p: int,
    b: Seq<TokenView>,
    q: int,
    i: int,
    callee: ExprView,
    piped: Option<ExprView>,
)
    requires
        same_from(a, p, b, q),
        p < i < a.len(),
    ensures
        finish_call(a, i, callee, piped) == finish_call(b, i - p + q, callee, piped),
    decreases remaining(a, i), 24nat,
{
    lemma_same_from(a, p, b, q);
    reveal_with_fuel(finish_call, 1);
    reveal_with_fuel(call_args, 1);
    reveal_with_fuel(expression, 1);
    let listed = call_args(a, i);
    local_call_args(a, p, b, q, i);
    lemma_call_args(a, i);
    let close = expect(a, i + listed.used, TokenType::RParen, "expected ')'"@);
    lemma_expect(a, i + listed.used, TokenType::RParen, "expected ')'"@);
    let after = i + listed.used + close.used;
    if kind_at(a, after) == TokenType::LPipe {
        local_expression(a, p, b, q, after + 1);
    }
}

/// A primary expression depends only on the tokens from its first one on.
#[verifier::spinoff_prover]
pub proof fn local_primary(a: Seq<TokenView>, p: int, b: Seq<TokenView>, q: int, i: int)
    requires
        same_from(a, p, b, q),
        p <= i < a.len(),
    ensures
        primary(a, i) == primary(b, i - p + q),
    decreases remaining(a, i), 0nat,
{
    lemma_same_from(a, p, b, q);
    let j = i - p + q;
    reveal_with_fuel(primary, 1);
    reveal_with_fuel(expression, 1);
    reveal_with_fuel(anonymous_function, 1);
    assert(a[i] == b[j]);
    let kind = kind_at(a, i);
    if kind == TokenType::True || kind == TokenType::False || kind == TokenType::Null || kind
        == TokenType::Num || kind == TokenType::Str {
    } else if kind == TokenType::Id {
    } else if kind == TokenType::LParen {
        let inner = expression(a, i + 1);
        local_expression(a, p, b, q, i + 1);
        lemma_expression(a, i + 1);
    } else if kind == TokenType::LBracket || kind == TokenType::LBrace {
    } else if kind == TokenType::Func {
        local_anonymous_function(a, p, b, q, i + 1);
    } else {
    }
}

/// An anonymous function depends only on the tokens from its keyword on.
#[verifier::spinoff_prover]
pub proof fn local_anonymous_function(a: Seq<TokenView>, p: int, b: Seq<TokenView>, q: int, i: int)
    requires
        same_from(a, p, b, q),
        p < i < a.len(),
    ensures
        anonymous_function(a, i) == anonymous_function(b, i - p + q),
    decreases remaining(a, i), 23nat,
{
    lemma_same_from(a, p, b, q);
    reveal_with_fuel(anonymous_function, 1);
    reveal_with_fuel(block, 1);
    reveal_with_fuel(expression, 1);
    let names = params(a, i, "anonymous function"@);
    local_params(a, p, b, q, i, "anonymous function"@);
    lemma_params(a, i, "anonymous function"@);
    let after = i + names.used;
    if kind_at(a, after) == TokenType::LBrace {
        local_block(a, p, b, q, after + 1);
    } else {
        local_expression(a, p, b, q, after);
    }
}

/// A declaration depends only on the tokens from its first one on.
#[verifier::spinoff_prover]
pub proof fn local_declaration(a: Seq<TokenView>, p: int, b: Seq<TokenView>, q: int, i: int)
    requires
        same_from(a, p, b, q),
        p <= i < a.len(),
    ensures
        declaration(a, i) == declaration(b, i - p + q),
    decreases remaining(a, i), 25nat,
{
    lemma_same_from(a, p, b, q);
    reveal_with_fuel(declaration, 1);
    reveal_with_fuel(var_declaration, 1);
    reveal_with_fuel(function, 1);
    reveal_with_fuel(statement, 1);
    let kind = kind_at(a, i);
    if kind == TokenType::Var {
        local_var_declaration(a, p, b, q, i + 1);
    } else if kind == TokenType::Func && kind_at(a, i + 1) == TokenType::Id {
        local_function(a, p, b, q, i + 1, "function"@);
    } else if kind == TokenType::Struct {
        local_struct_declaration(a, p, b, q, i + 1);
    } else {
        local_statement(a, p, b, q, i);
    }
}

/// A statement depends only on the tokens from its first one on.
#[verifier::spinoff_prover]
pub proof fn local_statement(a: Seq<TokenView>, p: int, b: Seq<TokenView>, q: int, i: int)
    requires
        same_from(a, p, b, q),
        p <= i < a.len(),
    ensures
        statement(a, i) == statement(b, i - p + q),
    decreases remaining(a, i), 24nat,
{
    lemma_same_from(a, p, b, q);
    reveal_with_fuel(statement, 1);
    reveal_with_fuel(block, 1);
    reveal_with_fuel(if_stmt, 1);
    reveal_with_fuel(while_stmt, 1);
    reveal_with_fuel(for_stmt, 1);
    reveal_with_fuel(return_stmt, 1);
    reveal_with_fuel(import_stmt, 1);
    reveal_with_fuel(expr_stmt, 1);
    let kind = kind_at(a, i);
    if kind == TokenType::LBrace {
        local_block(a, p, b, q, i + 1);
    } else if kind == TokenType::If {
        local_if_stmt(a, p, b, q, i);
    } else if kind == TokenType::While {
        local_while_stmt(a, p, b, q, i);
    } else if kind == TokenType::For {
        local_for_stmt(a, p, b, q, i);
    } else if kind == TokenType::Return {
        local_return_stmt(a, p, b, q, i);
    } else if kind == TokenType::Break {
    } else if kind == TokenType::Import {
        local_import_stmt(a, p, b, q, i);
    } else if kind == TokenType::Continue {
    } else {
        local_expr_stmt(a, p, b, q, i);
    }
}

/// An expression statement depends only on the tokens from its first one on.
#[verifier::spinoff_prover]
pub proof fn local_expr_stmt(a: Seq<TokenView>, p: int, b: Seq<TokenView>, q: int, i: int)
    requires
        same_from(a, p, b, q),
        p <= i < a.len(),
    ensures
        expr_stmt(a, i) == expr_stmt(b, i - p + q),
    decreases remaining(a, i), 23nat,
{
    lemma_same_from(a, p, b, q);
    reveal_with_fuel(expr_stmt, 1);
    reveal_with_fuel(expression, 1);
    local_expression(a, p, b, q, i);
    lemma_expression(a, i);
}

/// An `import` statement depends only on the tokens from its keyword on.
#[verifier::spinoff_prover]
pub proof fn local_import_stmt(a: Seq<TokenView>, p: int, b: Seq<TokenView>, q: int, i: int)
    requires
        same_from(a, p, b, q),
        p <= i < a.len(),
        kind_at(a, i) == TokenType::Import,
    ensures
        import_stmt(a, i) == import_stmt(b, i - p + q),
    decreases remaining(a, i), 23nat,
{
    lemma_same_from(a, p, b, q);
    let j = i - p + q;
    reveal_with_fuel(import_stmt, 1);
    reveal_with_fuel(expression, 1);
    assert(a[i] == b[j]);
    local_expression(a, p, b, q, i + 1);
    lemma_expression(a, i + 1);
}

/// An `if` statement depends only on the tokens from its keyword on.
#[verifier::spinoff_prover]
pub proof fn local_if_stmt(a: Seq<TokenView>, p: int, b: Seq<TokenView>, q: int, i: int)
    requires
        same_from(a, p, b, q),
        p <= i < a.len(),
        kind_at(a, i) == TokenType::If,
    ensures
        if_stmt(a, i) == if_stmt(b, i - p + q),
    decreases remaining(a, i), 23nat,
{
    lemma_same_from(a, p, b, q);
    reveal_with_fuel(if_stmt, 1);
    reveal_with_fuel(expression, 1);
    reveal_with_fuel(statement, 1);
    let open = expect(a, i + 1, TokenType::LParen, "expected '(' after 'if'"@);
    lemma_expect(a, i + 1, TokenType::LParen, "expected '(' after 'if'"@);
    let condition = expression(a, i + 1 + open.used);
    local_expression(a, p, b, q, i + 1 + open.used);
    lemma_expression(a, i + 1 + open.used);
    let close = expect(
        a,
        i + 1 + open.used + condition.used,
        TokenType::RParen,
        "expected ')' after if condition"@,
    );
    lemma_expect(
        a,
        i + 1 + open.used + condition.used,
        TokenType::RParen,
        "expected ')' after if condition"@,
    );
    let at_then = i + 1 + open.used + condition.used + close.used;
    let then_branch = statement(a, at_then);
    local_statement(a, p, b, q, at_then);
    lemma_statement(a, at_then);
    let at_else = at_then + then_branch.used;
    if kind_at(a, at_else) == TokenType::Else {
        if kind_at(a, at_else + 1) == TokenType::If {
            local_if_stmt(a, p, b, q, at_else + 1);
        } else {
            local_statement(a, p, b, q, at_else + 1);
        }
    }
}

/// A `while` statement depends only on the tokens from its keyword on.
#[verifier::spinoff_prover]
pub proof fn local_while_stmt(a: Seq<TokenView>, p: int, b: Seq<TokenView>, q: int, i: int)
    requires
        same_from(a, p, b, q),
        p <= i < a.len(),
        kind_at(a, i) == TokenType::While,
    ensures
        while_stmt(a, i) == while_stmt(b, i - p + q),
    decreases remaining(a, i), 23nat,
{
    lemma_same_from(a, p, b, q);
    let j = i - p + q;
    reveal_with_fuel(while_stmt, 1);
    reveal_with_fuel(expression, 1);
    reveal_with_fuel(statement, 1);
    assert(a[i] == b[j]);
    let open = expect(a, i + 1, TokenType::LParen, "expected '(' after 'while'"@);
    lemma_expect(a, i + 1, TokenType::LParen, "expected '(' after 'while'"@);
    let condition = expression(a, i + 1 + open.used);
    local_expression(a, p, b, q, i + 1 + open.used);
    lemma_expression(a, i + 1 + open.used);
    let close = expect(
        a,
        i + 1 + open.used + condition.used,
        TokenType::RParen,
        "expected ')' after while condition"@,
    );
    lemma_expect(
        a,
        i + 1 + open.used + condition.used,
        TokenType::RParen,
        "expected ')' after while condition"@,
    );
    local_statement(a, p, b, q, i + 1 + open.used + condition.used + close.used);
}

/// The first part of the head of a `for` statement depends only on the tokens
/// from its first one on.
#[verifier::spinoff_prover]
pub proof fn local_for_init(a: Seq<TokenView>, p: int, b: Seq<TokenView>, q: int, i: int)
    requires
        same_from(a, p, b, q),
        p <= i < a.len(),
    ensures
        for_init(a, i) == for_init(b, i - p + q),
    decreases remaining(a, i), 24nat,
{
    lemma_same_from(a, p, b, q);
    reveal_with_fuel(for_init, 1);
    reveal_with_fuel(var_declaration, 1);
    reveal_with_fuel(expr_stmt, 1);
    let kind = kind_at(a, i);
    if kind == TokenType::SColon {
    } else if kind == TokenType::Var {
        local_var_declaration(a, p, b, q, i + 1);
    } else {
        local_expr_stmt(a, p, b, q, i);
    }
}

/// An expression that may be missing depends only on the tokens from its
/// place on.
#[verifier::spinoff_prover]
pub proof fn local_expression_unless(
    a: Seq<TokenView>,
    p: int,
    b: Seq<TokenView>,
    q: int,
    i: int,
    stop: TokenType,
)
    requires
        same_from(a, p, b, q),
        p <= i < a.len(),
    ensures
        expression_unless(a, i, stop) == expression_unless(b, i - p + q, stop),
    decreases remaining(a, i), 23nat,
{
    lemma_same_from(a, p, b, q);
    reveal_with_fuel(expression_unless, 1);
    reveal_with_fuel(expression, 1);
    if kind_at(a, i) != stop {
        local_expression(a, p, b, q, i);
    }
}

/// A `for` statement depends only on the tokens from its keyword on.
#[verifier::spinoff_prover]
pub proof fn local_for_stmt(a: Seq<TokenView>, p: int, b: Seq<TokenView>, q: int, i: int)
    requires
        same_from(a, p, b, q),
        p <= i < a.len(),
        kind_at(a, i) == TokenType::For,
    ensures
        for_stmt(a, i) == for_stmt(b, i - p + q),
    decreases remaining(a, i), 23nat,
{
    lemma_same_from(a, p, b, q);
    let j = i - p + q;
    reveal_with_fuel(for_stmt, 1);
    reveal_with_fuel(for_init, 1);
    reveal_with_fuel(expression_unless, 1);
    reveal_with_fuel(statement, 1);
    assert(a[i] == b[j]);
    let open = expect(a, i + 1, TokenType::LParen, "expected '('"@);
    lemma_expect(a, i + 1, TokenType::LParen, "expected '('"@);
    let at_init = i + 1 + open.used;
    let init = for_init(a, at_init);
    local_for_init(a, p, b, q, at_init);
    lemma_for_init(a, at_init);
    let at_condition = at_init + init.used;
    let condition = expression_unless(a, at_condition, TokenType::SColon);
    local_expression_unless(a, p, b, q, at_condition, TokenType::SColon);
    lemma_expression_unless(a, at_condition, TokenType::SColon);
    let semi = expect(a, at_condition + condition.used, TokenType::SColon, "expected ';'"@);
    lemma_expect(a, at_condition + condition.used, TokenType::SColon, "expected ';'"@);
    let at_increment = at_condition + condition.used + semi.used;
    let increment = expression_unless(a, at_increment, TokenType::RParen);
    local_expression_unless(a, p, b, q, at_increment, TokenType::RParen);
    lemma_expression_unless(a, at_increment, TokenType::RParen);
    let close = expect(a, at_increment + increment.used, TokenType::RParen, "expected ')'"@);
    lemma_expect(a, at_increment + increment.used, TokenType::RParen, "expected ')'"@);
    local_statement(a, p, b, q, at_increment + increment.used + close.used);
}

/// The values of a `return` depend only on the tokens from their first one on.
#[verifier::spinoff_prover]
pub proof fn local_return_values(a: Seq<TokenView>, p: int, b: Seq<TokenView>, q: int, i: int)
    requires
        same_from(a, p, b, q),
        p <= i < a.len(),
    ensures
        return_values(a, i) == return_values(b, i - p + q),
    decreases remaining(a, i), 23nat,
{
    lemma_same_from(a, p, b, q);
    reveal_with_fuel(return_values, 1);
    reveal_with_fuel(expression, 1);
    let first = expression(a, i);
    local_expression(a, p, b, q, i);
    lemma_expression(a, i);
    if kind_at(a, i + first.used) == TokenType::Comma {
        local_return_values(a, p, b, q, i + first.used + 1);
    }
}

/// A `return` statement depends only on the tokens from its keyword on.
#[verifier::spinoff_prover]
pub proof fn local_return_stmt(a: Seq<TokenView>, p: int, b: Seq<TokenView>, q: int, i: int)
    requires
        same_from(a, p, b, q),
        p <= i < a.len(),
        kind_at(a, i) == TokenType::Return,
    ensures
        return_stmt(a, i) == return_stmt(b, i - p + q),
    decreases remaining(a, i), 23nat,
{
    lemma_same_from(a, p, b, q);
    let j = i - p + q;
    reveal_with_fuel(return_stmt, 1);
    reveal_with_fuel(return_values, 1);
    assert(a[i] == b[j]);
    if kind_at(a, i + 1) != TokenType::SColon {
        local_return_values(a, p, b, q, i + 1);
        lemma_return_values(a, i + 1);
    }
}

/// A variable declaration depends only on the tokens from its keyword on.
#[verifier::spinoff_prover]
pub proof fn local_var_declaration(a: Seq<TokenView>, p: int, b: Seq<TokenView>, q: int, i: int)
    requires
        same_from(a, p, b, q),
        p < i < a.len(),
    ensures
        var_declaration(a, i) == var_declaration(b, i - p + q),
    decreases remaining(a, i), 23nat,
{
    lemma_same_from(a, p, b, q);
    reveal_with_fuel(var_declaration, 1);
    reveal_with_fuel(expression, 1);
    let id = expect(a, i, TokenType::Id, "Expected an identifier"@);
    lemma_expect(a, i, TokenType::Id, "Expected an identifier"@);
    let at_init = i + id.used;
    if kind_at(a, at_init) == TokenType::Equal {
        local_expression(a, p, b, q, at_init + 1);
        lemma_expression(a, at_init + 1);
    }
}

/// A function declaration depends only on the tokens from its keyword on.
#[verifier::spinoff_prover]
pub proof fn local_function(
    a: Seq<TokenView>,
    p: int,
    b: Seq<TokenView>,
    q: int,
    i: int,
    what: Seq<char>,
)
    requires
        same_from(a, p, b, q),
        p < i < a.len(),
    ensures
        function(a, i, what) == function(b, i - p + q, what),
    decreases remaining(a, i), 28nat,
{
    lemma_same_from(a, p, b, q);
    reveal_with_fuel(function, 1);
    reveal_with_fuel(function_body, 1);
    let id = expect(a, i, TokenType::Id, "expected "@ + what + " name"@);
    lemma_expect(a, i, TokenType::Id, "expected "@ + what + " name"@);
    local_function_body(a, p, b, q, i + id.used, what);
}

/// The parameters and the body of a function depend only on the tokens from
/// the one before them on.
#[verifier::spinoff_prover]
pub proof fn local_function_body(
    a: Seq<TokenView>,
    p: int,
    b: Seq<TokenView>,
    q: int,
    i: int,
    what: Seq<char>,
)
    requires
        same_from(a, p, b, q),
        p < i < a.len(),
    ensures
        function_body(a, i, what) == function_body(b, i - p + q, what),
    decreases remaining(a, i), 27nat,
{
    lemma_same_from(a, p, b, q);
    reveal_with_fuel(function_body, 1);
    reveal_with_fuel(block, 1);
    let names = params(a, i, what);
    local_params(a, p, b, q, i, what);
    lemma_params(a, i, what);
    let message = "expected '{' before "@ + what + " body"@;
    let open = expect(a, i + names.used, TokenType::LBrace, message);
    lemma_expect(a, i + names.used, TokenType::LBrace, message);
    local_block(a, p, b, q, i + names.used + open.used);
}

/// A block depends only on the tokens from its first one on.
#[verifier::spinoff_prover]
pub proof fn local_block(a: Seq<TokenView>, p: int, b: Seq<TokenView>, q: int, i: int)
    requires
        same_from(a, p, b, q),
        p <= i < a.len(),
    ensures
        block(a, i) == block(b, i - p + q),
    decreases remaining(a, i), 26nat,
{
    lemma_same_from(a, p, b, q);
    reveal_with_fuel(block, 1);
    reveal_with_fuel(declaration, 1);
    if kind_at(a, i) == TokenType::RBrace || at_end(a, i) {
    } else {
        let first = declaration(a, i);
        local_declaration(a, p, b, q, i);
        lemma_declaration(a, i);
        if first.used > 0 {
            local_block(a, p, b, q, i + first.used);
        }
    }
}

/// What is parsed from the start of a declaration on depends only on the
/// tokens from there on: where two streams hold the same tokens from some
/// position on, the rest of their programs is the same, with the same
/// diagnostics. So neither a malformed declaration nor its mending changes
/// what is reported of the declarations after it.
pub proof fn lemma_rest_of_program_is_local(a: Seq<TokenView>, p: int, b: Seq<TokenView>, q: int)
    requires
        same_from(a, p, b, q),
    ensures
        program_from(a, p) == program_from(b, q),
{
    local_program_from(a, p, b, q, p);
}

/// The rest of a program depends only on the tokens from its first one on.
pub proof fn local_program_from(a: Seq<TokenView>, p: int, b: Seq<TokenView>, q: int, i: int)
    requires
        same_from(a, p, b, q),
        p <= i < a.len(),
    ensures
        program_from(a, i) == program_from(b, i - p + q),
    decreases remaining(a, i),
{
    lemma_same_from(a, p, b, q);
    reveal_with_fuel(declaration, 1);
    if at_end(a, i) {
    } else {
        let first = declaration(a, i);
        local_declaration(a, p, b, q, i);
        lemma_declaration(a, i);
        if first.used > 0 {
            local_program_from(a, p, b, q, i + first.used);
        }
    }
}

/// Parsing is linear in its output: a program has at most as many
/// declarations as its stream has tokens before the end of input.
pub proof fn lemma_program_is_linear(ts: Seq<TokenView>, pos: int)
    requires
        inside(ts, pos),
    ensures
        pos + program_from(ts, pos).value.len() <= pos + program_from(ts, pos).used < ts.len(),
    decreases remaining(ts, pos),
{
    if !at_end(ts, pos) {
        crate::laws::lemma_declaration_takes_a_token(ts, pos);
        lemma_declaration(ts, pos);
        lemma_program_is_linear(ts, pos + declaration(ts, pos).used);
    }
}

/// The diagnostics of a program are those of its first declaration and
/// then those of the rest: a malformed declaration does not keep the
/// declarations after it from being parsed and diagnosed.
pub proof fn lemma_program_goes_on_after_a_declaration(ts: Seq<TokenView>, pos: int)
    requires
        inside(ts, pos),
        !at_end(ts, pos),
    ensures
        ({
            let first = declaration(ts, pos);
            let rest = program_from(ts, pos + first.used);
            &&& first.used >= 1
            &&& program_from(ts, pos).value == seq![first.value] + rest.value
            &&& program_from(ts, pos).errors == first.errors + rest.errors
            &&& program_from(ts, pos).errors.len() >= first.errors.len()
        }),
{
    crate::laws::lemma_declaration_takes_a_token(ts, pos);
}

/// The streams hold the same tokens at the positions from `p` up to `e` of
/// `a` and from `q` on of `b`.
pub open spec fn same_until(a: Seq<TokenView>, p: int, b: Seq<TokenView>, q: int, e: int) -> bool {
    &&& inside(a, p)
    &&& inside(b, q)
    &&& e < a.len()
    &&& e - p + q < b.len()
    &&& forall|i: int| p <= i <= e ==> #[trigger] a[i] == b[i - p + q]
}

/// What two streams have in common that hold the same tokens in a window.
pub proof fn lemma_same_until(a: Seq<TokenView>, p: int, b: Seq<TokenView>, q: int, e: int)
    requires
        same_until(a, p, b, q, e),
    ensures
        forall|i: int| p <= i <= e ==> #[trigger] kind_at(a, i) == kind_at(b, i - p + q),
        forall|i: int| p <= i <= e ==> #[trigger] at_end(a, i) == at_end(b, i - p + q),
        forall|i: int| p < i <= e + 1 ==> #[trigger] before(a, i) == before(b, i - p + q),
        forall|i: int, m: Seq<char>|
            p <= i <= e ==> #[trigger] diagnostic(a, i, m) == diagnostic(b, i - p + q, m),
        forall|i: int, k: TokenType, m: Seq<char>|
            p <= i <= e ==> #[trigger] expect(a, i, k, m) == expect(b, i - p + q, k, m),
{
    assert forall|i: int| p <= i <= e implies #[trigger] kind_at(a, i) == kind_at(b, i - p + q) by {
        assert(a[i] == b[i - p + q]);
    }
    assert forall|i: int| p < i <= e + 1 implies #[trigger] before(a, i) == before(
        b,
        i - p + q,
    ) by {
        assert(a[i - 1] == b[i - 1 - p + q]);
    }
    assert forall|i: int, m: Seq<char>| p <= i <= e implies #[trigger] diagnostic(a, i, m)
        == diagnostic(b, i - p + q, m) by {
        assert(a[i] == b[i - p + q]);
    }
    assert forall|i: int, k: TokenType, m: Seq<char>| p <= i <= e implies #[trigger] expect(
        a,
        i,
        k,
        m,
    ) == expect(b, i - p + q, k, m) by {
        assert(a[i] == b[i - p + q]);
    }
}

/// The names of a parameter list depend only on the tokens from the one
/// before them up to the one after them.
#[verifier::spinoff_prover]
pub proof fn near_param_items(
    a: Seq<TokenView>,
    p: int,
    b: Seq<TokenView>,
    q: int,
    e: int,
    i: int)
    requires
        same_until(a, p, b, q, e),
        p < i < a.len(),
        i + param_items(a, i).used <= e,
    ensures
        param_items(a, i) == param_items(b, i - p + q),
    decreases remaining(a, i),
{
    lemma_same_until(a, p, b, q, e);
    let id = expect(a, i, TokenType::Id, "expected an identifier"@);
    lemma_expect(a, i, TokenType::Id, "expected an identifier"@);
    if kind_at(a, i + id.used) == TokenType::Comma {
        near_param_items(a, p, b, q, e, i + id.used + 1);
    }
}

/// A parameter list depends only on the tokens from the one before it up to
/// the one after it.
#[verifier::spinoff_prover]
pub proof fn near_params(
    a: Seq<TokenView>,
    p: int,
    b: Seq<TokenView>,
    q: int,
    e: int,
    i: int, what: Seq<char>)
    requires
        same_until(a, p, b, q, e),
        p < i < a.len(),
        i + params(a, i, what).used <= e,
    ensures
        params(a, i, what) == params(b, i - p + q, what),
{
    lemma_same_until(a, p, b, q, e);
    let message = "expected '(' after "@ + what + " name"@;
    let open = expect(a, i, TokenType::LParen, message);
    lemma_expect(a, i, TokenType::LParen, message);
    if kind_at(a, i + open.used) != TokenType::RParen {
        near_param_items(a, p, b, q, e, i + open.used);
        lemma_param_items(a, i + open.used);
    }
}

/// A field of a struct declaration depends only on the tokens from the one
/// before it up to the one after it.
#[verifier::spinoff_prover]
pub proof fn near_struct_field(
    a: Seq<TokenView>,
    p: int,
    b: Seq<TokenView>,
    q: int,
    e: int,
    i: int)
    requires
        same_until(a, p, b, q, e),
        p < i < a.len(),
        i + struct_field(a, i).used <= e,
    ensures
        struct_field(a, i) == struct_field(b, i - p + q),
{
    lemma_same_until(a, p, b, q, e);
    let id = expect(a, i, TokenType::Id, "expected an identifier"@);
    lemma_expect(a, i, TokenType::Id, "expected an identifier"@);
    let colon = expect(a, i + id.used, TokenType::Colon, "expected ':'"@);
    lemma_expect(a, i + id.used, TokenType::Colon, "expected ':'"@);
    let at_type = i + id.used + colon.used;
    assert(a[at_type] == b[at_type - p + q]);
}

/// The fields of a struct declaration depend only on the tokens from the one
/// before them up to the one after them.
#[verifier::spinoff_prover]
pub proof fn near_struct_fields(
    a: Seq<TokenView>,
    p: int,
    b: Seq<TokenView>,
    q: int,
    e: int,
    i: int)
    requires
        same_until(a, p, b, q, e),
        p < i < a.len(),
        i + struct_fields(a, i).used <= e,
    ensures
        struct_fields(a, i) == struct_fields(b, i - p + q),
    decreases remaining(a, i),
{
    lemma_same_until(a, p, b, q, e);
    reveal_with_fuel(struct_fields, 1);
    if kind_at(a, i) == TokenType::RBrace || at_end(a, i) {
    } else {
        let first = struct_field(a, i);
        near_struct_field(a, p, b, q, e, i);
        lemma_struct_field(a, i);
        let after = i + first.used;
        if kind_at(a, after) == TokenType::RBrace {
        } else {
            let comma = expect(a, after, TokenType::Comma, "expected ','"@);
            lemma_expect(a, after, TokenType::Comma, "expected ','"@);
            near_struct_fields(a, p, b, q, e, after + comma.used);
        }
    }
}

/// A struct declaration depends only on the tokens from its keyword up to the
/// one after it.
#[verifier::spinoff_prover]
pub proof fn near_struct_declaration(
    a: Seq<TokenView>,
    p: int,
    b: Seq<TokenView>,
    q: int,
    e: int,
    i: int)
    requires
        same_until(a, p, b, q, e),
        p < i < a.len(),
        i + struct_declaration(a, i).used <= e,
    ensures
        struct_declaration(a, i) == struct_declaration(b, i - p + q),
{
    lemma_same_until(a, p, b, q, e);
    let id = expect(a, i, TokenType::Id, "expected an identifier"@);
    lemma_expect(a, i, TokenType::Id, "expected an identifier"@);
    let open = expect(a, i + id.used, TokenType::LBrace, "expected '{'"@);
    lemma_expect(a, i + id.used, TokenType::LBrace, "expected '{'"@);
    near_struct_fields(a, p, b, q, e, i + id.used + open.used);
    lemma_struct_fields(a, i + id.used + open.used);
}

/// An expression depends only on the tokens from its first one up to the one
/// after it.
#[verifier::spinoff_prover]
pub proof fn near_expression(
    a: Seq<TokenView>,
    p: int,
    b: Seq<TokenView>,
    q: int,
    e: int,
    i: int)
    requires
        same_until(a, p, b, q, e),
        p <= i < a.len(),
        i + expression(a, i).used <= e,
    ensures
        expression(a, i) == expression(b, i - p + q),
    decreases remaining(a, i), 22nat,
{
    lemma_same_until(a, p, b, q, e);
    reveal_with_fuel(expression, 1);
    reveal_with_fuel(assignment, 1);
    near_assignment(a, p, b, q, e, i);
}

/// An assignment depends only on the tokens from its first one up to the one
/// after it.
#[verifier::spinoff_prover]
pub proof fn near_assignment(
    a: Seq<TokenView>,
    p: int,
    b: Seq<TokenView>,
    q: int,
    e: int,
    i: int)
    requires
        same_until(a, p, b, q, e),
        p <= i < a.len(),
        i + assignment(a, i).used <= e,
    ensures
        assignment(a, i) == assignment(b, i - p + q),
    decreases remaining(a, i), 21nat,
{
    lemma_same_until(a, p, b, q, e);
    reveal_with_fuel(assignment, 1);
    reveal_with_fuel(binary, 1);
    let target = binary(a, i, Level::Or);
    near_binary(a, p, b, q, e, i, Level::Or);
    lemma_binary(a, i, Level::Or);
    let at_op = i + target.used;
    let op = kind_at(a, at_op);
    assert(a[at_op] == b[at_op - p + q]);
    if op == TokenType::Equal {
        near_assignment(a, p, b, q, e, at_op + 1);
        lemma_assignment(a, at_op + 1);
    } else if crate::grammar::is_compound(op) {
        near_assignment(a, p, b, q, e, at_op + 1);
        lemma_assignment(a, at_op + 1);
    }
}

/// A chain depends only on the tokens from its first one up to the one after
/// it.
#[verifier::spinoff_prover]
pub proof fn near_binary(
    a: Seq<TokenView>,
    p: int,
    b: Seq<TokenView>,
    q: int,
    e: int,
    i: int, level: Level)
    requires
        same_until(a, p, b, q, e),
        p <= i < a.len(),
        i + binary(a, i, level).used <= e,
    ensures
        binary(a, i, level) == binary(b, i - p + q, level),
    decreases remaining(a, i), level.rank(),
{
    lemma_same_until(a, p, b, q, e);
    reveal_with_fuel(binary, 1);
    reveal_with_fuel(operand, 1);
    reveal_with_fuel(binary_rest, 1);
    let first = operand(a, i, level);
    near_operand(a, p, b, q, e, i, level);
    lemma_operand(a, i, level);
    near_binary_rest(a, p, b, q, e, i + first.used, level, first.value);
}

/// An operand depends only on the tokens from its first one up to the one
/// after it.
#[verifier::spinoff_prover]
pub proof fn near_operand(
    a: Seq<TokenView>,
    p: int,
    b: Seq<TokenView>,
    q: int,
    e: int,
    i: int, level: Level)
    requires
        same_until(a, p, b, q, e),
        p <= i < a.len(),
        i + operand(a, i, level).used <= e,
    ensures
        operand(a, i, level) == operand(b, i - p + q, level),
    decreases remaining(a, i), (level.rank() - 1) as nat,
{
    lemma_same_until(a, p, b, q, e);
    reveal_with_fuel(operand, 1);
    reveal_with_fuel(binary, 1);
    reveal_with_fuel(unary, 1);
    match level {
        Level::Or => near_binary(a, p, b, q, e, i, Level::And),
        Level::And => near_binary(a, p, b, q, e, i, Level::Equality),
        Level::Equality => near_binary(a, p, b, q, e, i, Level::Comparison),
        Level::Comparison => near_binary(a, p, b, q, e, i, Level::Term),
        Level::Term => near_binary(a, p, b, q, e, i, Level::Factor),
        Level::Factor => near_unary(a, p, b, q, e, i),
    }
}

/// The rest of a chain depends only on the tokens from its first one up to
/// the one after it.
#[verifier::spinoff_prover]
pub proof fn near_binary_rest(
    a: Seq<TokenView>,
    p: int,
    b: Seq<TokenView>,
    q: int,
    e: int,
    i: int, level: Level, left: ExprView)
    requires
        same_until(a, p, b, q, e),
        p <= i < a.len(),
        i + binary_rest(a, i, level, left).used <= e,
    ensures
        binary_rest(a, i, level, left) == binary_rest(b, i - p + q, level, left),
    decreases remaining(a, i), 0nat,
{
    lemma_same_until(a, p, b, q, e);
    let j = i - p + q;
    reveal_with_fuel(binary_rest, 1);
    reveal_with_fuel(operand, 1);
    assert(a[i] == b[j]);
    if level.has(kind_at(a, i)) {
        let right = operand(a, i + 1, level);
        near_operand(a, p, b, q, e, i + 1, level);
        lemma_operand(a, i + 1, level);
        near_binary_rest(a, p, b, q, e, i + 1 + right.used, level, level.node(left, a[i], right.value));
    }
}

/// A unary expression depends only on the tokens from its first one up to the
/// one after it.
#[verifier::spinoff_prover]
pub proof fn near_unary(
    a: Seq<TokenView>,
    p: int,
    b: Seq<TokenView>,
    q: int,
    e: int,
    i: int)
    requires
        same_until(a, p, b, q, e),
        p <= i < a.len(),
        i + unary(a, i).used <= e,
    ensures
        unary(a, i) == unary(b, i - p + q),
    decreases remaining(a, i), 2nat,
{
    lemma_same_until(a, p, b, q, e);
    let j = i - p + q;
    reveal_with_fuel(unary, 1);
    reveal_with_fuel(call, 1);
    assert(a[i] == b[j]);
    if kind_at(a, i) == TokenType::Bang || kind_at(a, i) == TokenType::Minus {
        near_unary(a, p, b, q, e, i + 1);
    } else {
        near_call(a, p, b, q, e, i, None);
    }
}

/// A call depends only on the tokens from its first one up to the one after it.
#[verifier::spinoff_prover]
pub proof fn near_call(
    a: Seq<TokenView>,
    p: int,
    b: Seq<TokenView>,
    q: int,
    e: int,
    i: int, piped: Option<ExprView>)
    requires
        same_until(a, p, b, q, e),
        p <= i < a.len(),
        i + call(a, i, piped).used <= e,
    ensures
        call(a, i, piped) == call(b, i - p + q, piped),
    decreases remaining(a, i), 1nat,
{
    lemma_same_until(a, p, b, q, e);
    reveal_with_fuel(call, 1);
    reveal_with_fuel(primary, 1);
    reveal_with_fuel(call_rest, 1);
    let first = primary(a, i);
    near_primary(a, p, b, q, e, i);
    lemma_primary(a, i);
    near_call_rest(a, p, b, q, e, i + first.used, first.value, piped);
}

/// What is applied to a callee depends only on the tokens from the first of
/// it up to the one after it.
#[verifier::spinoff_prover]
pub proof fn near_call_rest(
    a: Seq<TokenView>,
    p: int,
    b: Seq<TokenView>,
    q: int,
    e: int,
    i: int, callee: ExprView, piped: Option<ExprView>)
    requires
        same_until(a, p, b, q, e),
        p <= i < a.len(),
        i + call_rest(a, i, callee, piped).used <= e,
    ensures
        call_rest(a, i, callee, piped) == call_rest(b, i - p + q, callee, piped),
    decreases remaining(a, i), 0nat,
{
    lemma_same_until(a, p, b, q, e);
    let j = i - p + q;
    reveal_with_fuel(call_rest, 1);
    reveal_with_fuel(finish_call, 1);
    reveal_with_fuel(call, 1);
    reveal_with_fuel(expression, 1);
    assert(a[i] == b[j]);
    let kind = kind_at(a, i);
    if kind == TokenType::LParen {
        let called = finish_call(a, i + 1, callee, piped);
        near_finish_call(a, p, b, q, e, i + 1, callee, piped);
        lemma_finish_call(a, i + 1, callee, piped);
        near_call_rest(a, p, b, q, e, i + 1 + called.used, called.value, piped);
    } else if kind == TokenType::Dot {
        let id = expect(a, i + 1, TokenType::Id, "expected an identifier"@);
        lemma_expect(a, i + 1, TokenType::Id, "expected an identifier"@);
        let name = before(a, i + 1 + id.used);
        near_call_rest(
            a,
            p,
            b,
            q,
            e,
            i + 1 + id.used,
            ExprView::Get { instance: Box::new(callee), token: name },
            piped,
        );
    } else if kind == TokenType::RPipe {
        near_call(a, p, b, q, e, i + 1, Some(callee));
    } else if kind == TokenType::LBracket {
        let key = expression(a, i + 1);
        near_expression(a, p, b, q, e, i + 1);
        lemma_expression(a, i + 1);
        let close = expect(a, i + 1 + key.used, TokenType::RBracket, "expected ']'"@);
        lemma_expect(a, i + 1 + key.used, TokenType::RBracket, "expected ']'"@);
        let token = TokenView {
            kind: TokenType::Id,
            text: "__getitem__"@,
            line: a[i].line,
            col: a[i].col,
        };
        near_call_rest(
            a,
            p,
            b,
            q,
            e,
            i + 1 + key.used + close.used,
            ExprView::Call {
                callee: Box::new(ExprView::Get { instance: Box::new(callee), token }),
                args: seq![key.value],
                token,
            },
            piped,
        );
    }
}

/// The arguments of a call depend only on the tokens from their first one up
/// to the one after them.
#[verifier::spinoff_prover]
pub proof fn near_call_args(
    a: Seq<TokenView>,
    p: int,
    b: Seq<TokenView>,
    q: int,
    e: int,
    i: int)
    requires
        same_until(a, p, b, q, e),
        p <= i < a.len(),
        i + call_args(a, i).used <= e,
    ensures
        call_args(a, i) == call_args(b, i - p + q),
    decreases remaining(a, i), 23nat,
{
    lemma_same_until(a, p, b, q, e);
    reveal_with_fuel(call_args, 1);
    reveal_with_fuel(comma_exprs, 1);
    reveal_with_fuel(expression, 1);
    if kind_at(a, i) != TokenType::RParen {
        let first = expression(a, i);
        near_expression(a, p, b, q, e, i);
        lemma_expression(a, i);
        near_comma_exprs(a, p, b, q, e, i + first.used);
    }
}

/// Expressions after commas depend only on the tokens from the first comma up
/// to the one after them.
#[verifier::spinoff_prover]
pub proof fn near_comma_exprs(
    a: Seq<TokenView>,
    p: int,
    b: Seq<TokenView>,
    q: int,
    e: int,
    i: int)
    requires
        same_until(a, p, b, q, e),
        p <= i < a.len(),
        i + comma_exprs(a, i).used <= e,
    ensures
        comma_exprs(a, i) == comma_exprs(b, i - p + q),
    decreases remaining(a, i), 0nat,
{
    lemma_same_until(a, p, b, q, e);
    reveal_with_fuel(comma_exprs, 1);
    reveal_with_fuel(expression, 1);
    if kind_at(a, i) == TokenType::Comma {
        let first = expression(a, i + 1);
        near_expression(a, p, b, q, e, i + 1);
        lemma_expression(a, i + 1);
        near_comma_exprs(a, p, b, q, e, i + 1 + first.used);
    }
}

/// A call after its opening parenthesis depends only on the tokens from that
/// parenthesis up to the one after it.
#[verifier::spinoff_prover]
pub proof fn near_finish_call(
    a: Seq<TokenView>,
    p: int,
    b: Seq<TokenView>,
    q: int,
    e: int,
    i: int, callee: ExprView, piped: Option<ExprView>)
    requires
        same_until(a, p, b, q, e),
        p < i < a.len(),
        i + finish_call(a, i, callee, piped).used <= e,
    ensures
        finish_call(a, i, callee, piped) == finish_call(b, i - p + q, callee, piped),
    decreases remaining(a, i), 24nat,
{
    lemma_same_until(a, p, b, q, e);
    reveal_with_fuel(finish_call, 1);
    reveal_with_fuel(call_args, 1);
    reveal_with_fuel(expression, 1);
    let listed = call_args(a, i);
    near_call_args(a, p, b, q, e, i);
    lemma_call_args(a, i);
    let close = expect(a, i + listed.used, TokenType::RParen, "expected ')'"@);
    lemma_expect(a, i + listed.used, TokenType::RParen, "expected ')'"@);
    let after = i + listed.used + close.used;
    if kind_at(a, after) == TokenType::LPipe {
        near_expression(a, p, b, q, e, after + 1);
    }
}

/// A primary expression depends only on the tokens from its first one up to
/// the one after it.
#[verifier::spinoff_prover]
pub proof fn near_primary(
    a: Seq<TokenView>,
    p: int,
    b: Seq<TokenView>,
    q: int,
    e: int,
    i: int)
    requires
        same_until(a, p, b, q, e),
        p <= i < a.len(),
        i + primary(a, i).used <= e,
    ensures
        primary(a, i) == primary(b, i - p + q),
    decreases remaining(a, i), 0nat,
{
    lemma_same_until(a, p, b, q, e);
    let j = i - p + q;
    reveal_with_fuel(primary, 1);
    reveal_with_fuel(expression, 1);
    reveal_with_fuel(anonymous_function, 1);
    assert(a[i] == b[j]);
    let kind = kind_at(a, i);
    if kind == TokenType::True || kind == TokenType::False || kind == TokenType::Null || kind
        == TokenType::Num || kind == TokenType::Str {
    } else if kind == TokenType::Id {
    } else if kind == TokenType::LParen {
        let inner = expression(a, i + 1);
        near_expression(a, p, b, q, e, i + 1);
        lemma_expression(a, i + 1);
    } else if kind == TokenType::LBracket || kind == TokenType::LBrace {
    } else if kind == TokenType::Func {
        near_anonymous_function(a, p, b, q, e, i + 1);
    } else {
    }
}

/// An anonymous function depends only on the tokens from its keyword up to
/// the one after it.
#[verifier::spinoff_prover]
pub proof fn near_anonymous_function(
    a: Seq<TokenView>,
    p: int,
    b: Seq<TokenView>,
    q: int,
    e: int,
    i: int)
    requires
        same_until(a, p, b, q, e),
        p < i < a.len(),
        i + anonymous_function(a, i).used <= e,
    ensures
        anonymous_function(a, i) == anonymous_function(b, i - p + q),
    decreases remaining(a, i), 23nat,
{
    lemma_same_until(a, p, b, q, e);
    reveal_with_fuel(anonymous_function, 1);
    reveal_with_fuel(block, 1);
    reveal_with_fuel(expression, 1);
    let names = params(a, i, "anonymous function"@);
    near_params(a, p, b, q, e, i, "anonymous function"@);
    lemma_params(a, i, "anonymous function"@);
    let after = i + names.used;
    if kind_at(a, after) == TokenType::LBrace {
        near_block(a, p, b, q, e, after + 1);
    } else {
        near_expression(a, p, b, q, e, after);
    }
}

/// A declaration depends only on the tokens from its first one up to the one
/// after it.
#[verifier::spinoff_prover]
pub proof fn near_declaration(
    a: Seq<TokenView>,
    p: int,
    b: Seq<TokenView>,
    q: int,
    e: int,
    i: int)
    requires
        same_until(a, p, b, q, e),
        p <= i < a.len(),
        i + declaration(a, i).used <= e,
    ensures
        declaration(a, i) == declaration(b, i - p + q),
    decreases remaining(a, i), 25nat,
{
    lemma_same_until(a, p, b, q, e);
    reveal_with_fuel(declaration, 1);
    reveal_with_fuel(var_declaration, 1);
    reveal_with_fuel(function, 1);
    reveal_with_fuel(statement, 1);
    if !at_end(a, i) {
        crate::laws::lemma_statement_takes_a_token(a, i);
    }
    let kind = kind_at(a, i);
    if kind == TokenType::Var {
        near_var_declaration(a, p, b, q, e, i + 1);
    } else if kind == TokenType::Func && kind_at(a, i + 1) == TokenType::Id {
        near_function(a, p, b, q, e, i + 1, "function"@);
    } else if kind == TokenType::Struct {
        near_struct_declaration(a, p, b, q, e, i + 1);
    } else {
        near_statement(a, p, b, q, e, i);
    }
}

/// A statement depends only on the tokens from its first one up to the one
/// after it.
#[verifier::spinoff_prover]
pub proof fn near_statement(
    a: Seq<TokenView>,
    p: int,
    b: Seq<TokenView>,
    q: int,
    e: int,
    i: int)
    requires
        same_until(a, p, b, q, e),
        p <= i < a.len(),
        i + statement(a, i).used <= e,
    ensures
        statement(a, i) == statement(b, i - p + q),
    decreases remaining(a, i), 24nat,
{
    lemma_same_until(a, p, b, q, e);
    reveal_with_fuel(statement, 1);
    reveal_with_fuel(block, 1);
    reveal_with_fuel(if_stmt, 1);
    reveal_with_fuel(while_stmt, 1);
    reveal_with_fuel(for_stmt, 1);
    reveal_with_fuel(return_stmt, 1);
    reveal_with_fuel(import_stmt, 1);
    reveal_with_fuel(expr_stmt, 1);
    let kind = kind_at(a, i);
    if kind == TokenType::LBrace {
        near_block(a, p, b, q, e, i + 1);
    } else if kind == TokenType::If {
        near_if_stmt(a, p, b, q, e, i);
    } else if kind == TokenType::While {
        near_while_stmt(a, p, b, q, e, i);
    } else if kind == TokenType::For {
        near_for_stmt(a, p, b, q, e, i);
    } else if kind == TokenType::Return {
        near_return_stmt(a, p, b, q, e, i);
    } else if kind == TokenType::Break {
    } else if kind == TokenType::Import {
        near_import_stmt(a, p, b, q, e, i);
    } else if kind == TokenType::Continue {
    } else {
        near_expr_stmt(a, p, b, q, e, i);
    }
}

/// An expression statement depends only on the tokens from its first one up
/// to the one after it.
#[verifier::spinoff_prover]
pub proof fn near_expr_stmt(
    a: Seq<TokenView>,
    p: int,
    b: Seq<TokenView>,
    q: int,
    e: int,
    i: int)
    requires
        same_until(a, p, b, q, e),
        p <= i < a.len(),
        i + expr_stmt(a, i).used <= e,
    ensures
        expr_stmt(a, i) == expr_stmt(b, i - p + q),
    decreases remaining(a, i), 23nat,
{
    lemma_same_until(a, p, b, q, e);
    reveal_with_fuel(expr_stmt, 1);
    reveal_with_fuel(expression, 1);
    near_expression(a, p, b, q, e, i);
    lemma_expression(a, i);
}

/// An `import` statement depends only on the tokens from its keyword up to
/// the one after it.
#[verifier::spinoff_prover]
pub proof fn near_import_stmt(
    a: Seq<TokenView>,
    p: int,
    b: Seq<TokenView>,
    q: int,
    e: int,
    i: int)
    requires
        same_until(a, p, b, q, e),
        p <= i < a.len(),
        i + import_stmt(a, i).used <= e,
        kind_at(a, i) == TokenType::Import,
    ensures
        import_stmt(a, i) == import_stmt(b, i - p + q),
    decreases remaining(a, i), 23nat,
{
    lemma_same_until(a, p, b, q, e);
    let j = i - p + q;
    reveal_with_fuel(import_stmt, 1);
    reveal_with_fuel(expression, 1);
    assert(a[i] == b[j]);
    near_expression(a, p, b, q, e, i + 1);
    lemma_expression(a, i + 1);
}

/// An `if` statement depends only on the tokens from its keyword up to the
/// one after it.
#[verifier::spinoff_prover]
pub proof fn near_if_stmt(
    a: Seq<TokenView>,
    p: int,
    b: Seq<TokenView>,
    q: int,
    e: int,
    i: int)
    requires
        same_until(a, p, b, q, e),
        p <= i < a.len(),
        i + if_stmt(a, i).used <= e,
        kind_at(a, i) == TokenType::If,
    ensures
        if_stmt(a, i) == if_stmt(b, i - p + q),
    decreases remaining(a, i), 23nat,
{
    lemma_same_until(a, p, b, q, e);
    reveal_with_fuel(if_stmt, 1);
    reveal_with_fuel(expression, 1);
    reveal_with_fuel(statement, 1);
    let open = expect(a, i + 1, TokenType::LParen, "expected '(' after 'if'"@);
    lemma_expect(a, i + 1, TokenType::LParen, "expected '(' after 'if'"@);
    let condition = expression(a, i + 1 + open.used);
    near_expression(a, p, b, q, e, i + 1 + open.used);
    lemma_expression(a, i + 1 + open.used);
    let close = expect(
        a,
        i + 1 + open.used + condition.used,
        TokenType::RParen,
        "expected ')' after if condition"@,
    );
    lemma_expect(
        a,
        i + 1 + open.used + condition.used,
        TokenType::RParen,
        "expected ')' after if condition"@,
    );
    let at_then = i + 1 + open.used + condition.used + close.used;
    let then_branch = statement(a, at_then);
    near_statement(a, p, b, q, e, at_then);
    lemma_statement(a, at_then);
    let at_else = at_then + then_branch.used;
    if kind_at(a, at_else) == TokenType::Else {
        if kind_at(a, at_else + 1) == TokenType::If {
            near_if_stmt(a, p, b, q, e, at_else + 1);
        } else {
            near_statement(a, p, b, q, e, at_else + 1);
        }
    }
}

/// A `while` statement depends only on the tokens from its keyword up to the
/// one after it.
#[verifier::spinoff_prover]
pub proof fn near_while_stmt(
    a: Seq<TokenView>,
    p: int,
    b: Seq<TokenView>,
    q: int,
    e: int,
    i: int)
    requires
        same_until(a, p, b, q, e),
        p <= i < a.len(),
        i + while_stmt(a, i).used <= e,
        kind_at(a, i) == TokenType::While,
    ensures
        while_stmt(a, i) == while_stmt(b, i - p + q),
    decreases remaining(a, i), 23nat,
{
    lemma_same_until(a, p, b, q, e);
    let j = i - p + q;
    reveal_with_fuel(while_stmt, 1);
    reveal_with_fuel(expression, 1);
    reveal_with_fuel(statement, 1);
    assert(a[i] == b[j]);
    let open = expect(a, i + 1, TokenType::LParen, "expected '(' after 'while'"@);
    lemma_expect(a, i + 1, TokenType::LParen, "expected '(' after 'while'"@);
    let condition = expression(a, i + 1 + open.used);
    near_expression(a, p, b, q, e, i + 1 + open.used);
    lemma_expression(a, i + 1 + open.used);
    let close = expect(
        a,
        i + 1 + open.used + condition.used,
        TokenType::RParen,
        "expected ')' after while condition"@,
    );
    lemma_expect(
        a,
        i + 1 + open.used + condition.used,
        TokenType::RParen,
        "expected ')' after while condition"@,
    );
    near_statement(a, p, b, q, e, i + 1 + open.used + condition.used + close.used);
}

/// The first part of the head of a `for` statement depends only on the tokens
/// from its first one up to the one after it.
#[verifier::spinoff_prover]
pub proof fn near_for_init(
    a: Seq<TokenView>,
    p: int,
    b: Seq<TokenView>,
    q: int,
    e: int,
    i: int)
    requires
        same_until(a, p, b, q, e),
        p <= i < a.len(),
        i + for_init(a, i).used <= e,
    ensures
        for_init(a, i) == for_init(b, i - p + q),
    decreases remaining(a, i), 24nat,
{
    lemma_same_until(a, p, b, q, e);
    reveal_with_fuel(for_init, 1);
    reveal_with_fuel(var_declaration, 1);
    reveal_with_fuel(expr_stmt, 1);
    let kind = kind_at(a, i);
    if kind == TokenType::SColon {
    } else if kind == TokenType::Var {
        near_var_declaration(a, p, b, q, e, i + 1);
    } else {
        near_expr_stmt(a, p, b, q, e, i);
    }
}

/// An expression that may be missing depends only on the tokens from its
/// place up to the one after it.
#[verifier::spinoff_prover]
pub proof fn near_expression_unless(
    a: Seq<TokenView>,
    p: int,
    b: Seq<TokenView>,
    q: int,
    e: int,
    i: int, stop: TokenType)
    requires
        same_until(a, p, b, q, e),
        p <= i < a.len(),
        i + expression_unless(a, i, stop).used <= e,
    ensures
        expression_unless(a, i, stop) == expression_unless(b, i - p + q, stop),
    decreases remaining(a, i), 23nat,
{
    lemma_same_until(a, p, b, q, e);
    reveal_with_fuel(expression_unless, 1);
    reveal_with_fuel(expression, 1);
    if kind_at(a, i) != stop {
        near_expression(a, p, b, q, e, i);
    }
}

/// A `for` statement depends only on the tokens from its keyword up to the
/// one after it.
#[verifier::spinoff_prover]
pub proof fn near_for_stmt(
    a: Seq<TokenView>,
    p: int,
    b: Seq<TokenView>,
    q: int,
    e: int,
    i: int)
    requires
        same_until(a, p, b, q, e),
        p <= i < a.len(),
        i + for_stmt(a, i).used <= e,
        kind_at(a, i) == TokenType::For,
    ensures
        for_stmt(a, i) == for_stmt(b, i - p + q),
    decreases remaining(a, i), 23nat,
{
    lemma_same_until(a, p, b, q, e);
    let j = i - p + q;
    reveal_with_fuel(for_stmt, 1);
    reveal_with_fuel(for_init, 1);
    reveal_with_fuel(expression_unless, 1);
    reveal_with_fuel(statement, 1);
    assert(a[i] == b[j]);
    let open = expect(a, i + 1, TokenType::LParen, "expected '('"@);
    lemma_expect(a, i + 1, TokenType::LParen, "expected '('"@);
    let at_init = i + 1 + open.used;
    let init = for_init(a, at_init);
    near_for_init(a, p, b, q, e, at_init);
    lemma_for_init(a, at_init);
    let at_condition = at_init + init.used;
    let condition = expression_unless(a, at_condition, TokenType::SColon);
    near_expression_unless(a, p, b, q, e, at_condition, TokenType::SColon);
    lemma_expression_unless(a, at_condition, TokenType::SColon);
    let semi = expect(a, at_condition + condition.used, TokenType::SColon, "expected ';'"@);
    lemma_expect(a, at_condition + condition.used, TokenType::SColon, "expected ';'"@);
    let at_increment = at_condition + condition.used + semi.used;
    let increment = expression_unless(a, at_increment, TokenType::RParen);
    near_expression_unless(a, p, b, q, e, at_increment, TokenType::RParen);
    lemma_expression_unless(a, at_increment, TokenType::RParen);
    let close = expect(a, at_increment + increment.used, TokenType::RParen, "expected ')'"@);
    lemma_expect(a, at_increment + increment.used, TokenType::RParen, "expected ')'"@);
    near_statement(a, p, b, q, e, at_increment + increment.used + close.used);
}

/// The values of a `return` depend only on the tokens from their first one up
/// to the one after them.
#[verifier::spinoff_prover]
pub proof fn near_return_values(
    a: Seq<TokenView>,
    p: int,
    b: Seq<TokenView>,
    q: int,
    e: int,
    i: int)
    requires
        same_until(a, p, b, q, e),
        p <= i < a.len(),
        i + return_values(a, i).used <= e,
    ensures
        return_values(a, i) == return_values(b, i - p + q),
    decreases remaining(a, i), 23nat,
{
    lemma_same_until(a, p, b, q, e);
    reveal_with_fuel(return_values, 1);
    reveal_with_fuel(expression, 1);
    let first = expression(a, i);
    near_expression(a, p, b, q, e, i);
    lemma_expression(a, i);
    if kind_at(a, i + first.used) == TokenType::Comma {
        near_return_values(a, p, b, q, e, i + first.used + 1);
    }
}

/// A `return` statement depends only on the tokens from its keyword up to the
/// one after it.
#[verifier::spinoff_prover]
pub proof fn near_return_stmt(
    a: Seq<TokenView>,
    p: int,
    b: Seq<TokenView>,
    q: int,
    e: int,
    i: int)
    requires
        same_until(a, p, b, q, e),
        p <= i < a.len(),
        i + return_stmt(a, i).used <= e,
        kind_at(a, i) == TokenType::Return,
    ensures
        return_stmt(a, i) == return_stmt(b, i - p + q),
    decreases remaining(a, i), 23nat,
{
    lemma_same_until(a, p, b, q, e);
    let j = i - p + q;
    reveal_with_fuel(return_stmt, 1);
    reveal_with_fuel(return_values, 1);
    assert(a[i] == b[j]);
    if kind_at(a, i + 1) != TokenType::SColon {
        near_return_values(a, p, b, q, e, i + 1);
        lemma_return_values(a, i + 1);
    }
}

/// A variable declaration depends only on the tokens from its keyword up to
/// the one after it.
#[verifier::spinoff_prover]
pub proof fn near_var_declaration(
    a: Seq<TokenView>,
    p: int,
    b: Seq<TokenView>,
    q: int,
    e: int,
    i: int)
    requires
        same_until(a, p, b, q, e),
        p < i < a.len(),
        i + var_declaration(a, i).used <= e,
    ensures
        var_declaration(a, i) == var_declaration(b, i - p + q),
    decreases remaining(a, i), 23nat,
{
    lemma_same_until(a, p, b, q, e);
    reveal_with_fuel(var_declaration, 1);
    reveal_with_fuel(expression, 1);
    let id = expect(a, i, TokenType::Id, "Expected an identifier"@);
    lemma_expect(a, i, TokenType::Id, "Expected an identifier"@);
    let at_init = i + id.used;
    if kind_at(a, at_init) == TokenType::Equal {
        near_expression(a, p, b, q, e, at_init + 1);
        lemma_expression(a, at_init + 1);
    }
}

/// A function declaration depends only on the tokens from its keyword up to
/// the one after it.
#[verifier::spinoff_prover]
pub proof fn near_function(
    a: Seq<TokenView>,
    p: int,
    b: Seq<TokenView>,
    q: int,
    e: int,
    i: int, what: Seq<char>)
    requires
        same_until(a, p, b, q, e),
        p < i < a.len(),
        i + function(a, i, what).used <= e,
    ensures
        function(a, i, what) == function(b, i - p + q, what),
    decreases remaining(a, i), 28nat,
{
    lemma_same_until(a, p, b, q, e);
    reveal_with_fuel(function, 1);
    reveal_with_fuel(function_body, 1);
    let id = expect(a, i, TokenType::Id, "expected "@ + what + " name"@);
    lemma_expect(a, i, TokenType::Id, "expected "@ + what + " name"@);
    near_function_body(a, p, b, q, e, i + id.used, what);
}

/// The parameters and the body of a function depend only on the tokens from
/// the one before them up to the one after them.
#[verifier::spinoff_prover]
pub proof fn near_function_body(
    a: Seq<TokenView>,
    p: int,
    b: Seq<TokenView>,
    q: int,
    e: int,
    i: int, what: Seq<char>)
    requires
        same_until(a, p, b, q, e),
        p < i < a.len(),
        i + function_body(a, i, what).used <= e,
    ensures
        function_body(a, i, what) == function_body(b, i - p + q, what),
    decreases remaining(a, i), 27nat,
{
    lemma_same_until(a, p, b, q, e);
    reveal_with_fuel(function_body, 1);
    reveal_with_fuel(block, 1);
    let names = params(a, i, what);
    near_params(a, p, b, q, e, i, what);
    lemma_params(a, i, what);
    let message = "expected '{' before "@ + what + " body"@;
    let open = expect(a, i + names.used, TokenType::LBrace, message);
    lemma_expect(a, i + names.used, TokenType::LBrace, message);
    near_block(a, p, b, q, e, i + names.used + open.used);
}

/// A block depends only on the tokens from its first one up to the one after
/// it.
#[verifier::spinoff_prover]
pub proof fn near_block(
    a: Seq<TokenView>,
    p: int,
    b: Seq<TokenView>,
    q: int,
    e: int,
    i: int)
    requires
        same_until(a, p, b, q, e),
        p <= i < a.len(),
        i + block(a, i).used <= e,
    ensures
        block(a, i) == block(b, i - p + q),
    decreases remaining(a, i), 26nat,
{
    lemma_same_until(a, p, b, q, e);
    reveal_with_fuel(block, 1);
    reveal_with_fuel(declaration, 1);
    if kind_at(a, i) == TokenType::RBrace || at_end(a, i) {
    } else {
        let first = declaration(a, i);
        near_declaration(a, p, b, q, e, i);
        lemma_declaration(a, i);
        if first.used > 0 {
            near_block(a, p, b, q, e, i + first.used);
        }
    }
}

/// What is parsed of a declaration depends only on its own tokens and the
/// one after them: where two streams hold the same tokens from the start of
/// a declaration of the first up to the token after it, the second has the
/// same declaration there, with the same diagnostics. So neither a
/// malformed declaration nor its mending changes what is reported of the
/// declarations before it.
pub proof fn lemma_declaration_is_local(a: Seq<TokenView>, p: int, b: Seq<TokenView>, q: int)
    requires
        same_until(a, p, b, q, p + declaration(a, p).used),
    ensures
        declaration(b, q) == declaration(a, p),
{
    near_declaration(a, p, b, q, p + declaration(a, p).used, p);
}

} // verus!
