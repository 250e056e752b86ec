//! Parsing does not depend on source positions: the program of a token
//! stream without its positions is the program of the stream without its
//! positions, and the diagnostics are the same but for their positions. So
//! the printed form of a parsed program is a function of the kinds and the
//! texts of its tokens alone, and blanks and comments, which only move
//! tokens, never show in it.

use crate::ast::{ExprView, NodeView, StmtView, TypeInfoView};
use crate::error::Diagnostic;
use crate::grammar::{
    anonymous_function, assignment, at_end, before, binary, binary_rest, block, call, call_args,
    call_rest, comma_exprs, declaration, diagnostic, expect, expr_stmt, expression,
    expression_unless, finish_call, for_init, for_loop, for_stmt, function, function_body, if_stmt,
    import_stmt, kind_at, operand, param_items, params, primary, program, program_from, remaining,
    return_stmt, return_values, statement, struct_declaration, struct_field, struct_fields,
    terminated, type_of, unary, var_declaration, while_stmt, Fields, Level, Parsed, Step,
};
use crate::printer::printed_program;
use crate::shape::{
    expr_shape, expr_shapes, lemma_same_shape_same_print, node_shape, node_shapes, stmt_shape,
    token_shape, token_shapes, type_shape, type_shapes,
};
use crate::token::{TokenType, TokenView};
use vstd::prelude::*;

verus! {

/// The diagnostic without its position.
pub open spec fn diagnostic_shape(d: Diagnostic) -> Diagnostic {
    Diagnostic { message: d.message, line: 0, col: 0 }
}

/// The diagnostics without their positions.
pub open spec fn diagnostic_shapes(ds: Seq<Diagnostic>) -> Seq<Diagnostic> {
    Seq::new(ds.len(), |i: int| diagnostic_shape(ds[i]))
}

/// The position is inside a stream that is closed by the end of input.
pub open spec fn inside(ts: Seq<TokenView>, pos: int) -> bool {
    terminated(ts) && 0 <= pos < ts.len()
}

/// An expression that may be there, without the positions of its tokens.
pub open spec fn option_expr_shape(e: Option<ExprView>) -> Option<ExprView> {
    match e {
        Some(expr) => Some(expr_shape(expr)),
        None => None,
    }
}

/// A node that may be there, without the positions of its tokens.
pub open spec fn option_node_shape(n: Option<NodeView>) -> Option<NodeView> {
    match n {
        Some(node) => Some(node_shape(node)),
        None => None,
    }
}

/// What the stream without positions has in common with the stream.
pub proof fn lemma_shapes_of_tokens(ts: Seq<TokenView>)
    requires
        terminated(ts),
    ensures
        token_shapes(ts).len() == ts.len(),
        terminated(token_shapes(ts)),
        forall|p: int| 0 <= p < ts.len() ==> #[trigger] token_shapes(ts)[p] == token_shape(ts[p]),
        forall|p: int| #[trigger] kind_at(token_shapes(ts), p) == kind_at(ts, p),
        forall|p: int|
            0 <= p <= ts.len() ==> #[trigger] before(token_shapes(ts), p) == token_shape(
                before(ts, p),
            ),
        forall|p: int, m: Seq<char>|
            0 <= p < ts.len() ==> #[trigger] diagnostic(token_shapes(ts), p, m)
                == diagnostic_shape(diagnostic(ts, p, m)),
        forall|p: int| 0 <= p < ts.len() && !#[trigger] at_end(ts, p) ==> p + 1 < ts.len(),
        forall|p: int| #[trigger] remaining(token_shapes(ts), p) == remaining(ts, p),
{
}

/// Diagnostics lose their positions one by one.
pub proof fn lemma_diagnostic_shapes(a: Seq<Diagnostic>, b: Seq<Diagnostic>, d: Diagnostic)
    ensures
        diagnostic_shapes(a + b) == diagnostic_shapes(a) + diagnostic_shapes(b),
        diagnostic_shapes(seq![d]) == seq![diagnostic_shape(d)],
        diagnostic_shapes(Seq::empty()) == Seq::<Diagnostic>::empty(),
{
    assert(diagnostic_shapes(a + b) =~= diagnostic_shapes(a) + diagnostic_shapes(b));
    assert(diagnostic_shapes(seq![d]) =~= seq![diagnostic_shape(d)]);
    assert(diagnostic_shapes(Seq::empty()) =~= Seq::<Diagnostic>::empty());
}

/// Tokens lose their positions one by one.
pub proof fn lemma_token_shapes(a: Seq<TokenView>, b: Seq<TokenView>, t: TokenView)
    ensures
        token_shapes(a + b) == token_shapes(a) + token_shapes(b),
        token_shapes(seq![t]) == seq![token_shape(t)],
        token_shapes(Seq::empty()) == Seq::<TokenView>::empty(),
{
    assert(token_shapes(a + b) =~= token_shapes(a) + token_shapes(b));
    assert(token_shapes(seq![t]) =~= seq![token_shape(t)]);
    assert(token_shapes(Seq::empty()) =~= Seq::<TokenView>::empty());
}

/// Types lose the positions of their names one by one.
pub proof fn lemma_type_shapes(a: Seq<TypeInfoView>, b: Seq<TypeInfoView>, t: TypeInfoView)
    ensures
        type_shapes(a + b) == type_shapes(a) + type_shapes(b),
        type_shapes(seq![t]) == seq![type_shape(t)],
        type_shapes(Seq::empty()) == Seq::<TypeInfoView>::empty(),
{
    assert(type_shapes(a + b) =~= type_shapes(a) + type_shapes(b));
    assert(type_shapes(seq![t]) =~= seq![type_shape(t)]);
    assert(type_shapes(Seq::empty()) =~= Seq::<TypeInfoView>::empty());
}

/// Expressions lose their positions one by one.
pub proof fn lemma_expr_shapes(a: Seq<ExprView>, b: Seq<ExprView>)
    ensures
        expr_shapes(a + b) == expr_shapes(a) + expr_shapes(b),
    decreases b.len(),
{
    if b.len() == 0 {
        assert(a + b =~= a);
        assert(expr_shapes(a) + expr_shapes(b) =~= expr_shapes(a));
    } else {
        lemma_expr_shapes(a, b.drop_last());
        assert((a + b).drop_last() =~= a + b.drop_last());
        assert((a + b).last() == b.last());
        assert(expr_shapes(a + b) =~= expr_shapes(a) + expr_shapes(b));
    }
}

/// Appending one expression appends it without its positions.
pub proof fn lemma_expr_shapes_push(a: Seq<ExprView>, x: ExprView)
    ensures
        expr_shapes(a.push(x)) == expr_shapes(a).push(expr_shape(x)),
{
    assert(a.push(x).drop_last() =~= a);
}

/// One expression or two lose their positions one by one.
pub proof fn lemma_expr_shapes_small(x: ExprView, y: ExprView)
    ensures
        expr_shapes(Seq::empty()) == Seq::<ExprView>::empty(),
        expr_shapes(seq![x]) == seq![expr_shape(x)],
        expr_shapes(seq![x, y]) == seq![expr_shape(x), expr_shape(y)],
{
    lemma_expr_shapes_push(Seq::empty(), x);
    lemma_expr_shapes_push(seq![x], y);
    assert(seq![x] =~= Seq::empty().push(x));
    assert(seq![x, y] =~= seq![x].push(y));
    assert(seq![expr_shape(x)] =~= Seq::empty().push(expr_shape(x)));
    assert(seq![expr_shape(x), expr_shape(y)] =~= seq![expr_shape(x)].push(expr_shape(y)));
}

/// Nodes lose their positions one by one.
pub proof fn lemma_node_shapes(a: Seq<NodeView>, b: Seq<NodeView>)
    ensures
        node_shapes(a + b) == node_shapes(a) + node_shapes(b),
    decreases b.len(),
{
    if b.len() == 0 {
        assert(a + b =~= a);
        assert(node_shapes(a) + node_shapes(b) =~= node_shapes(a));
    } else {
        lemma_node_shapes(a, b.drop_last());
        assert((a + b).drop_last() =~= a + b.drop_last());
        assert((a + b).last() == b.last());
        assert(node_shapes(a + b) =~= node_shapes(a) + node_shapes(b));
    }
}

/// Appending one node appends it without its positions.
pub proof fn lemma_node_shapes_push(a: Seq<NodeView>, x: NodeView)
    ensures
        node_shapes(a.push(x)) == node_shapes(a).push(node_shape(x)),
{
    assert(a.push(x).drop_last() =~= a);
}

/// One node or two lose their positions one by one.
pub proof fn lemma_node_shapes_small(x: NodeView, y: NodeView)
    ensures
        node_shapes(Seq::empty()) == Seq::<NodeView>::empty(),
        node_shapes(seq![x]) == seq![node_shape(x)],
        node_shapes(seq![x, y]) == seq![node_shape(x), node_shape(y)],
{
    lemma_node_shapes_push(Seq::empty(), x);
    lemma_node_shapes_push(seq![x], y);
    assert(seq![x] =~= Seq::empty().push(x));
    assert(seq![x, y] =~= seq![x].push(y));
    assert(seq![node_shape(x)] =~= Seq::empty().push(node_shape(x)));
    assert(seq![node_shape(x), node_shape(y)] =~= seq![node_shape(x)].push(node_shape(y)));
}

/// A step on the stream without positions is the step on the stream, but
/// for the positions of its diagnostics.
pub open spec fn step_agrees(plain: Step, placed: Step) -> bool {
    plain.used == placed.used && plain.errors == diagnostic_shapes(placed.errors)
}

/// An expression parsed from the stream without positions is the
/// expression parsed from the stream, but for the positions.
pub open spec fn expr_agrees(plain: Parsed<ExprView>, placed: Parsed<ExprView>) -> bool {
    plain.used == placed.used && plain.value == expr_shape(placed.value) && plain.errors
        == diagnostic_shapes(placed.errors)
}

/// A node parsed from the stream without positions is the node parsed from
/// the stream, but for the positions.
pub open spec fn node_agrees(plain: Parsed<NodeView>, placed: Parsed<NodeView>) -> bool {
    plain.used == placed.used && plain.value == node_shape(placed.value) && plain.errors
        == diagnostic_shapes(placed.errors)
}

/// Expressions parsed from the stream without positions are the
/// expressions parsed from the stream, but for the positions.
pub open spec fn exprs_agree(plain: Parsed<Seq<ExprView>>, placed: Parsed<Seq<ExprView>>) -> bool {
    plain.used == placed.used && plain.value == expr_shapes(placed.value) && plain.errors
        == diagnostic_shapes(placed.errors)
}

/// Nodes parsed from the stream without positions are the nodes parsed
/// from the stream, but for the positions.
pub open spec fn nodes_agree(plain: Parsed<Seq<NodeView>>, placed: Parsed<Seq<NodeView>>) -> bool {
    plain.used == placed.used && plain.value == node_shapes(placed.value) && plain.errors
        == diagnostic_shapes(placed.errors)
}

/// Names parsed from the stream without positions are the names parsed
/// from the stream, but for the positions.
pub open spec fn tokens_agree(plain: Parsed<Seq<TokenView>>, placed: Parsed<Seq<TokenView>>) -> bool {
    plain.used == placed.used && plain.value == token_shapes(placed.value) && plain.errors
        == diagnostic_shapes(placed.errors)
}

/// Fields parsed from the stream without positions are the fields parsed
/// from the stream, but for the positions.
pub open spec fn fields_agree(plain: Parsed<Fields>, placed: Parsed<Fields>) -> bool {
    plain.used == placed.used && plain.value.names == token_shapes(placed.value.names)
        && plain.value.types == type_shapes(placed.value.types) && plain.errors
        == diagnostic_shapes(placed.errors)
}

/// An expected token on the stream without positions.
pub proof fn lemma_expect(ts: Seq<TokenView>, pos: int, kind: TokenType, message: Seq<char>)
    requires
        inside(ts, pos),
        kind != TokenType::EOF,
    ensures
        inside(ts, pos + expect(ts, pos, kind, message).used),
        step_agrees(
            expect(token_shapes(ts), pos, kind, message),
            expect(ts, pos, kind, message),
        ),
{
    lemma_shapes_of_tokens(ts);
    lemma_diagnostic_shapes(Seq::empty(), Seq::empty(), diagnostic(ts, pos, message));
}

/// The type that a token names does not depend on the token's position.
pub proof fn lemma_type_of(t: TokenView)
    ensures
        type_of(token_shape(t)) == type_shape(type_of(t)),
{
}

/// The names of a parameter list on the stream without positions.
pub proof fn lemma_param_items(ts: Seq<TokenView>, pos: int)
    requires
        inside(ts, pos),
    ensures
        inside(ts, pos + param_items(ts, pos).used),
        tokens_agree(param_items(token_shapes(ts), pos), param_items(ts, pos)),
    decreases remaining(ts, pos),
{
    lemma_shapes_of_tokens(ts);
    let id = expect(ts, pos, TokenType::Id, "expected an identifier"@);
    lemma_expect(ts, pos, TokenType::Id, "expected an identifier"@);
    let name = before(ts, pos + id.used);
    if kind_at(ts, pos + id.used) == TokenType::Comma {
        lemma_param_items(ts, pos + id.used + 1);
        let rest = param_items(ts, pos + id.used + 1);
        lemma_token_shapes(seq![name], rest.value, name);
        lemma_diagnostic_shapes(id.errors, rest.errors, diagnostic(ts, pos, Seq::empty()));
    } else {
        lemma_token_shapes(seq![name], Seq::empty(), name);
    }
}

/// A parameter list on the stream without positions.
pub proof fn lemma_params(ts: Seq<TokenView>, pos: int, what: Seq<char>)
    requires
        inside(ts, pos),
    ensures
        inside(ts, pos + params(ts, pos, what).used),
        tokens_agree(params(token_shapes(ts), pos, what), params(ts, pos, what)),
{
    lemma_shapes_of_tokens(ts);
    let message = "expected '(' after "@ + what + " name"@;
    let open = expect(ts, pos, TokenType::LParen, message);
    lemma_expect(ts, pos, TokenType::LParen, message);
    let items = if kind_at(ts, pos + open.used) != TokenType::RParen {
        param_items(ts, pos + open.used)
    } else {
        Parsed { value: Seq::empty(), used: 0, errors: Seq::empty() }
    };
    if kind_at(ts, pos + open.used) != TokenType::RParen {
        lemma_param_items(ts, pos + open.used);
    }
    let at_close = pos + open.used + items.used;
    let close = expect(ts, at_close, TokenType::RParen, "expected ')' after parameters"@);
    lemma_expect(ts, at_close, TokenType::RParen, "expected ')' after parameters"@);
    lemma_token_shapes(Seq::empty(), Seq::empty(), before(ts, pos));
    lemma_diagnostic_shapes(open.errors, items.errors, diagnostic(ts, pos, Seq::empty()));
    lemma_diagnostic_shapes(
        open.errors + items.errors,
        close.errors,
        diagnostic(ts, pos, Seq::empty()),
    );
}

/// Sequences lose their positions piece by piece.
pub proof fn lemma_shape_algebra()
    ensures
        forall|a: Seq<Diagnostic>, b: Seq<Diagnostic>| #[trigger]
            diagnostic_shapes(a + b) == diagnostic_shapes(a) + diagnostic_shapes(b),
        diagnostic_shapes(Seq::empty()) == Seq::<Diagnostic>::empty(),
        forall|a: Seq<TokenView>, b: Seq<TokenView>| #[trigger]
            token_shapes(a + b) == token_shapes(a) + token_shapes(b),
        token_shapes(Seq::empty()) == Seq::<TokenView>::empty(),
        forall|a: Seq<TypeInfoView>, b: Seq<TypeInfoView>| #[trigger]
            type_shapes(a + b) == type_shapes(a) + type_shapes(b),
        type_shapes(Seq::empty()) == Seq::<TypeInfoView>::empty(),
        forall|a: Seq<ExprView>, b: Seq<ExprView>| #[trigger]
            expr_shapes(a + b) == expr_shapes(a) + expr_shapes(b),
        expr_shapes(Seq::empty()) == Seq::<ExprView>::empty(),
        forall|a: Seq<NodeView>, b: Seq<NodeView>| #[trigger]
            node_shapes(a + b) == node_shapes(a) + node_shapes(b),
        node_shapes(Seq::empty()) == Seq::<NodeView>::empty(),
{
    let d = Diagnostic { message: Seq::empty(), line: 0, col: 0 };
    let t = TokenView { kind: TokenType::EOF, text: Seq::empty(), line: 0, col: 0 };
    assert forall|a: Seq<Diagnostic>, b: Seq<Diagnostic>| #[trigger]
        diagnostic_shapes(a + b) == diagnostic_shapes(a) + diagnostic_shapes(b) by {
        lemma_diagnostic_shapes(a, b, d);
    }
    lemma_diagnostic_shapes(Seq::empty(), Seq::empty(), d);
    assert forall|a: Seq<TokenView>, b: Seq<TokenView>| #[trigger]
        token_shapes(a + b) == token_shapes(a) + token_shapes(b) by {
        lemma_token_shapes(a, b, t);
    }
    lemma_token_shapes(Seq::empty(), Seq::empty(), t);
    assert forall|a: Seq<TypeInfoView>, b: Seq<TypeInfoView>| #[trigger]
        type_shapes(a + b) == type_shapes(a) + type_shapes(b) by {
        lemma_type_shapes(a, b, TypeInfoView::Any);
    }
    lemma_type_shapes(Seq::empty(), Seq::empty(), TypeInfoView::Any);
    assert forall|a: Seq<ExprView>, b: Seq<ExprView>| #[trigger]
        expr_shapes(a + b) == expr_shapes(a) + expr_shapes(b) by {
        lemma_expr_shapes(a, b);
    }
    lemma_expr_shapes_small(ExprView::Unknown, ExprView::Unknown);
    assert forall|a: Seq<NodeView>, b: Seq<NodeView>| #[trigger]
        node_shapes(a + b) == node_shapes(a) + node_shapes(b) by {
        lemma_node_shapes(a, b);
    }
    lemma_node_shapes_small(NodeView::EXPR(ExprView::Unknown), NodeView::EXPR(ExprView::Unknown));
}

/// A single diagnostic without its position.
pub proof fn lemma_one_diagnostic(d: Diagnostic)
    ensures
        diagnostic_shapes(seq![d]) == seq![diagnostic_shape(d)],
{
    lemma_diagnostic_shapes(Seq::empty(), Seq::empty(), d);
}

/// One field of a struct declaration on the stream without positions.
pub proof fn lemma_struct_field(ts: Seq<TokenView>, pos: int)
    requires
        inside(ts, pos),
    ensures
        inside(ts, pos + struct_field(ts, pos).used),
        !at_end(ts, pos) ==> struct_field(ts, pos).used >= 1,
        fields_agree(struct_field(token_shapes(ts), pos), struct_field(ts, pos)),
{
    lemma_shapes_of_tokens(ts);
    lemma_shape_algebra();
    let id = expect(ts, pos, TokenType::Id, "expected an identifier"@);
    lemma_expect(ts, pos, TokenType::Id, "expected an identifier"@);
    let colon = expect(ts, pos + id.used, TokenType::Colon, "expected ':'"@);
    lemma_expect(ts, pos + id.used, TokenType::Colon, "expected ':'"@);
    let at_type = pos + id.used + colon.used;
    lemma_type_of(ts[at_type]);
    lemma_token_shapes(Seq::empty(), Seq::empty(), before(ts, pos + id.used));
    lemma_type_shapes(Seq::empty(), Seq::empty(), type_of(ts[at_type]));
    lemma_one_diagnostic(diagnostic(ts, at_type, "invalid type info"@));
}

/// The fields of a struct declaration on the stream without positions.
pub proof fn lemma_struct_fields(ts: Seq<TokenView>, pos: int)
    requires
        inside(ts, pos),
    ensures
        inside(ts, pos + struct_fields(ts, pos).used),
        fields_agree(struct_fields(token_shapes(ts), pos), struct_fields(ts, pos)),
    decreases remaining(ts, pos),
{
    reveal_with_fuel(struct_fields, 1);
    lemma_shapes_of_tokens(ts);
    lemma_shape_algebra();
    if kind_at(ts, pos) == TokenType::RBrace || at_end(ts, pos) {
    } else {
        let first = struct_field(ts, pos);
        lemma_struct_field(ts, pos);
        let after = pos + first.used;
        if kind_at(ts, after) == TokenType::RBrace {
        } else {
            let comma = expect(ts, after, TokenType::Comma, "expected ','"@);
            lemma_expect(ts, after, TokenType::Comma, "expected ','"@);
            lemma_struct_fields(ts, after + comma.used);
        }
    }
}

/// A struct declaration on the stream without positions.
pub proof fn lemma_struct_declaration(ts: Seq<TokenView>, pos: int)
    requires
        inside(ts, pos),
    ensures
        inside(ts, pos + struct_declaration(ts, pos).used),
        node_agrees(struct_declaration(token_shapes(ts), pos), struct_declaration(ts, pos)),
{
    lemma_shapes_of_tokens(ts);
    lemma_shape_algebra();
    let id = expect(ts, pos, TokenType::Id, "expected an identifier"@);
    lemma_expect(ts, pos, TokenType::Id, "expected an identifier"@);
    let open = expect(ts, pos + id.used, TokenType::LBrace, "expected '{'"@);
    lemma_expect(ts, pos + id.used, TokenType::LBrace, "expected '{'"@);
    let fields = struct_fields(ts, pos + id.used + open.used);
    lemma_struct_fields(ts, pos + id.used + open.used);
    lemma_expect(ts, pos + id.used + open.used + fields.used, TokenType::RBrace, "expected '}'"@);
}

/// The node of an operator does not depend on positions.
pub proof fn lemma_level_node(level: Level, left: ExprView, op: TokenView, right: ExprView)
    ensures
        level.node(expr_shape(left), token_shape(op), expr_shape(right)) == expr_shape(
            level.node(left, op, right),
        ),
{
}

/// The loop of a `for` statement does not depend on positions.
pub proof fn lemma_for_loop(
    token: TokenView,
    init: Option<NodeView>,
    condition: Option<ExprView>,
    increment: Option<ExprView>,
    body: NodeView,
)
    ensures
        for_loop(
            token_shape(token),
            option_node_shape(init),
            option_expr_shape(condition),
            option_expr_shape(increment),
            node_shape(body),
        ) == node_shape(for_loop(token, init, condition, increment, body)),
{
    let stepped = match increment {
        Some(step) => NodeView::STMT(
            StmtView::Block { statements: seq![body, NodeView::EXPR(step)] },
        ),
        None => body,
    };
    match increment {
        Some(step) => {
            lemma_node_shapes_small(body, NodeView::EXPR(step));
            assert(node_shape(stepped) == NodeView::STMT(
                StmtView::Block {
                    statements: seq![node_shape(body), NodeView::EXPR(expr_shape(step))],
                },
            ));
        },
        None => {},
    }
    let looped = NodeView::STMT(
        StmtView::While {
            condition: match condition {
                Some(c) => c,
                None => crate::grammar::always(),
            },
            body: Box::new(stepped),
            token,
        },
    );
    assert(expr_shape(crate::grammar::always()) == crate::grammar::always());
    assert(node_shape(looped) == NodeView::STMT(
        StmtView::While {
            condition: match condition {
                Some(c) => expr_shape(c),
                None => crate::grammar::always(),
            },
            body: Box::new(node_shape(stepped)),
            token: token_shape(token),
        },
    ));
    match init {
        Some(first) => {
            lemma_node_shapes_small(first, looped);
        },
        None => {},
    }
}

/// An expression on the stream without positions.
pub proof fn lemma_expression(ts: Seq<TokenView>, pos: int)
    requires
        inside(ts, pos),
    ensures
        inside(ts, pos + expression(ts, pos).used),
        expr_agrees(expression(token_shapes(ts), pos), expression(ts, pos)),
    decreases remaining(ts, pos), 22nat,
{
    reveal_with_fuel(expression, 1);
    reveal_with_fuel(assignment, 1);
    lemma_assignment(ts, pos);
}

/// An assignment on the stream without positions.
#[verifier::spinoff_prover]
pub proof fn lemma_assignment(ts: Seq<TokenView>, pos: int)
    requires
        inside(ts, pos),
    ensures
        inside(ts, pos + assignment(ts, pos).used),
        expr_agrees(assignment(token_shapes(ts), pos), assignment(ts, pos)),
    decreases remaining(ts, pos), 21nat,
{
    reveal_with_fuel(assignment, 1);
    reveal_with_fuel(binary, 1);
    lemma_shapes_of_tokens(ts);
    lemma_shape_algebra();
    let target = binary(ts, pos, Level::Or);
    lemma_binary(ts, pos, Level::Or);
    let at_op = pos + target.used;
    let op = kind_at(ts, at_op);
    if op == TokenType::Equal {
        lemma_assignment(ts, at_op + 1);
        lemma_one_diagnostic(diagnostic(ts, at_op, "invalid assignment target"@));
    } else if crate::grammar::is_compound(op) {
        lemma_assignment(ts, at_op + 1);
        let value = assignment(ts, at_op + 1);
        let used = target.used + 1 + value.used;
        lemma_one_diagnostic(diagnostic(ts, pos + used, "expected a variable"@));
        assert(crate::grammar::base_operator(token_shape(ts[at_op])) == token_shape(
            crate::grammar::base_operator(ts[at_op]),
        ));
        match target.value {
            ExprView::Variable { name } => {
                let sum = ExprView::Binary {
                    left: Box::new(target.value),
                    right: Box::new(value.value),
                    op: crate::grammar::base_operator(ts[at_op]),
                };
                assert(expr_shape(sum) == ExprView::Binary {
                    left: Box::new(expr_shape(target.value)),
                    right: Box::new(expr_shape(value.value)),
                    op: token_shape(crate::grammar::base_operator(ts[at_op])),
                });
            },
            _ => {},
        }
    } else if op == TokenType::DPlus || op == TokenType::DMinus {
        let used = target.used + 1;
        lemma_one_diagnostic(diagnostic(ts, pos + used, "expected a variable"@));
        assert(expr_shape(crate::grammar::one()) == crate::grammar::one());
        match target.value {
            ExprView::Variable { name } => {
                let sum = ExprView::Binary {
                    left: Box::new(target.value),
                    right: Box::new(crate::grammar::one()),
                    op: ts[at_op],
                };
                assert(expr_shape(sum) == ExprView::Binary {
                    left: Box::new(expr_shape(target.value)),
                    right: Box::new(crate::grammar::one()),
                    op: token_shape(ts[at_op]),
                });
            },
            _ => {},
        }
    } else {
    }
}

/// A chain of a level on the stream without positions.
pub proof fn lemma_binary(ts: Seq<TokenView>, pos: int, level: Level)
    requires
        inside(ts, pos),
    ensures
        inside(ts, pos + binary(ts, pos, level).used),
        expr_agrees(binary(token_shapes(ts), pos, level), binary(ts, pos, level)),
    decreases remaining(ts, pos), level.rank(),
{
    reveal_with_fuel(binary, 1);
    reveal_with_fuel(operand, 1);
    reveal_with_fuel(binary_rest, 1);
    lemma_shapes_of_tokens(ts);
    lemma_shape_algebra();
    let first = operand(ts, pos, level);
    lemma_operand(ts, pos, level);
    lemma_binary_rest(ts, pos + first.used, level, first.value);
}

/// One operand of a chain on the stream without positions.
pub proof fn lemma_operand(ts: Seq<TokenView>, pos: int, level: Level)
    requires
        inside(ts, pos),
    ensures
        inside(ts, pos + operand(ts, pos, level).used),
        expr_agrees(operand(token_shapes(ts), pos, level), operand(ts, pos, level)),
    decreases remaining(ts, pos), (level.rank() - 1) as nat,
{
    reveal_with_fuel(operand, 1);
    reveal_with_fuel(binary, 1);
    reveal_with_fuel(unary, 1);
    match level {
        Level::Or => lemma_binary(ts, pos, Level::And),
        Level::And => lemma_binary(ts, pos, Level::Equality),
        Level::Equality => lemma_binary(ts, pos, Level::Comparison),
        Level::Comparison => lemma_binary(ts, pos, Level::Term),
        Level::Term => lemma_binary(ts, pos, Level::Factor),
        Level::Factor => lemma_unary(ts, pos),
    }
}

/// The rest of a chain on the stream without positions.
pub proof fn lemma_binary_rest(ts: Seq<TokenView>, pos: int, level: Level, left: ExprView)
    requires
        inside(ts, pos),
    ensures
        inside(ts, pos + binary_rest(ts, pos, level, left).used),
        expr_agrees(
            binary_rest(token_shapes(ts), pos, level, expr_shape(left)),
            binary_rest(ts, pos, level, left),
        ),
    decreases remaining(ts, pos), 0nat,
{
    reveal_with_fuel(binary_rest, 1);
    reveal_with_fuel(operand, 1);
    lemma_shapes_of_tokens(ts);
    lemma_shape_algebra();
    if level.has(kind_at(ts, pos)) {
        let right = operand(ts, pos + 1, level);
        lemma_operand(ts, pos + 1, level);
        lemma_level_node(level, left, ts[pos], right.value);
        lemma_binary_rest(ts, pos + 1 + right.used, level, level.node(left, ts[pos], right.value));
    }
}

/// A unary expression on the stream without positions.
pub proof fn lemma_unary(ts: Seq<TokenView>, pos: int)
    requires
        inside(ts, pos),
    ensures
        inside(ts, pos + unary(ts, pos).used),
        expr_agrees(unary(token_shapes(ts), pos), unary(ts, pos)),
    decreases remaining(ts, pos), 2nat,
{
    reveal_with_fuel(unary, 1);
    reveal_with_fuel(call, 1);
    lemma_shapes_of_tokens(ts);
    lemma_shape_algebra();
    if kind_at(ts, pos) == TokenType::Bang || kind_at(ts, pos) == TokenType::Minus {
        lemma_unary(ts, pos + 1);
    } else {
        lemma_call(ts, pos, None);
    }
}

/// A call on the stream without positions.
pub proof fn lemma_call(ts: Seq<TokenView>, pos: int, piped: Option<ExprView>)
    requires
        inside(ts, pos),
    ensures
        inside(ts, pos + call(ts, pos, piped).used),
        expr_agrees(
            call(token_shapes(ts), pos, option_expr_shape(piped)),
            call(ts, pos, piped),
        ),
    decreases remaining(ts, pos), 1nat,
{
    reveal_with_fuel(call, 1);
    reveal_with_fuel(primary, 1);
    reveal_with_fuel(call_rest, 1);
    lemma_shapes_of_tokens(ts);
    lemma_shape_algebra();
    let first = primary(ts, pos);
    lemma_primary(ts, pos);
    lemma_call_rest(ts, pos + first.used, first.value, piped);
}

/// What is applied to a callee, on the stream without positions.
#[verifier::spinoff_prover]
pub proof fn lemma_call_rest(
    ts: Seq<TokenView>,
    pos: int,
    callee: ExprView,
    piped: Option<ExprView>,
)
    requires
        inside(ts, pos),
    ensures
        inside(ts, pos + call_rest(ts, pos, callee, piped).used),
        expr_agrees(
            call_rest(token_shapes(ts), pos, expr_shape(callee), option_expr_shape(piped)),
            call_rest(ts, pos, callee, piped),
        ),
    decreases remaining(ts, pos), 0nat,
{
    reveal_with_fuel(call_rest, 1);
    reveal_with_fuel(finish_call, 1);
    reveal_with_fuel(call, 1);
    reveal_with_fuel(expression, 1);
    lemma_shapes_of_tokens(ts);
    lemma_shape_algebra();
    let kind = kind_at(ts, pos);
    if kind == TokenType::LParen {
        let called = finish_call(ts, pos + 1, callee, piped);
        lemma_finish_call(ts, pos + 1, callee, piped);
        lemma_call_rest(ts, pos + 1 + called.used, called.value, piped);
    } else if kind == TokenType::Dot {
        let id = expect(ts, pos + 1, TokenType::Id, "expected an identifier"@);
        lemma_expect(ts, pos + 1, TokenType::Id, "expected an identifier"@);
        let name = before(ts, pos + 1 + id.used);
        let member = ExprView::Get { instance: Box::new(callee), token: name };
        assert(expr_shape(member) == ExprView::Get {
            instance: Box::new(expr_shape(callee)),
            token: token_shape(name),
        });
        lemma_call_rest(ts, pos + 1 + id.used, member, piped);
    } else if kind == TokenType::RPipe {
        lemma_call(ts, pos + 1, Some(callee));
    } else if kind == TokenType::LBracket {
        let key = expression(ts, pos + 1);
        lemma_expression(ts, pos + 1);
        let close = expect(ts, pos + 1 + key.used, TokenType::RBracket, "expected ']'"@);
        lemma_expect(ts, pos + 1 + key.used, TokenType::RBracket, "expected ']'"@);
        let token = TokenView {
            kind: TokenType::Id,
            text: "__getitem__"@,
            line: ts[pos].line,
            col: ts[pos].col,
        };
        let member = ExprView::Get { instance: Box::new(callee), token };
        assert(expr_shape(member) == ExprView::Get {
            instance: Box::new(expr_shape(callee)),
            token: token_shape(token),
        });
        let indexed = ExprView::Call { callee: Box::new(member), args: seq![key.value], token };
        lemma_expr_shapes_small(key.value, key.value);
        assert(expr_shape(indexed) == ExprView::Call {
            callee: Box::new(expr_shape(member)),
            args: seq![expr_shape(key.value)],
            token: token_shape(token),
        });
        lemma_call_rest(ts, pos + 1 + key.used + close.used, indexed, piped);
    } else {
    }
}

/// The arguments of a call on the stream without positions.
pub proof fn lemma_call_args(ts: Seq<TokenView>, pos: int)
    requires
        inside(ts, pos),
    ensures
        inside(ts, pos + call_args(ts, pos).used),
        exprs_agree(call_args(token_shapes(ts), pos), call_args(ts, pos)),
    decreases remaining(ts, pos), 23nat,
{
    reveal_with_fuel(call_args, 1);
    reveal_with_fuel(comma_exprs, 1);
    reveal_with_fuel(expression, 1);
    lemma_shapes_of_tokens(ts);
    lemma_shape_algebra();
    if kind_at(ts, pos) != TokenType::RParen {
        let first = expression(ts, pos);
        lemma_expression(ts, pos);
        lemma_comma_exprs(ts, pos + first.used);
        lemma_expr_shapes_small(first.value, first.value);
    }
}

/// Expressions after commas on the stream without positions.
pub proof fn lemma_comma_exprs(ts: Seq<TokenView>, pos: int)
    requires
        inside(ts, pos),
    ensures
        inside(ts, pos + comma_exprs(ts, pos).used),
        exprs_agree(comma_exprs(token_shapes(ts), pos), comma_exprs(ts, pos)),
    decreases remaining(ts, pos), 0nat,
{
    reveal_with_fuel(comma_exprs, 1);
    reveal_with_fuel(expression, 1);
    lemma_shapes_of_tokens(ts);
    lemma_shape_algebra();
    if kind_at(ts, pos) == TokenType::Comma {
        let first = expression(ts, pos + 1);
        lemma_expression(ts, pos + 1);
        lemma_comma_exprs(ts, pos + 1 + first.used);
        lemma_expr_shapes_small(first.value, first.value);
    }
}

/// A call after its opening parenthesis, on the stream without positions.
#[verifier::spinoff_prover]
pub proof fn lemma_finish_call(
    ts: Seq<TokenView>,
    pos: int,
    callee: ExprView,
    piped: Option<ExprView>,
)
    requires
        inside(ts, pos),
    ensures
        inside(ts, pos + finish_call(ts, pos, callee, piped).used),
        expr_agrees(
            finish_call(token_shapes(ts), pos, expr_shape(callee), option_expr_shape(piped)),
            finish_call(ts, pos, callee, piped),
        ),
    decreases remaining(ts, pos), 24nat,
{
    reveal_with_fuel(finish_call, 1);
    reveal_with_fuel(call_args, 1);
    reveal_with_fuel(expression, 1);
    lemma_shapes_of_tokens(ts);
    lemma_shape_algebra();
    let first: Seq<ExprView> = match piped {
        Some(value) => seq![value],
        None => Seq::empty(),
    };
    match piped {
        Some(value) => {
            lemma_expr_shapes_small(value, value);
        },
        None => {},
    }
    let listed = call_args(ts, pos);
    lemma_call_args(ts, pos);
    let close = expect(ts, pos + listed.used, TokenType::RParen, "expected ')'"@);
    lemma_expect(ts, pos + listed.used, TokenType::RParen, "expected ')'"@);
    let after = pos + listed.used + close.used;
    let token = before(ts, after);
    if kind_at(ts, after) == TokenType::LPipe {
        let last = expression(ts, after + 1);
        lemma_expression(ts, after + 1);
        lemma_expr_shapes_small(last.value, last.value);
        let node = ExprView::Call {
            callee: Box::new(callee),
            args: first + listed.value + seq![last.value],
            token,
        };
        assert(expr_shape(node) == ExprView::Call {
            callee: Box::new(expr_shape(callee)),
            args: expr_shapes(first + listed.value + seq![last.value]),
            token: token_shape(token),
        });
    } else {
        let node = ExprView::Call { callee: Box::new(callee), args: first + listed.value, token };
        assert(expr_shape(node) == ExprView::Call {
            callee: Box::new(expr_shape(callee)),
            args: expr_shapes(first + listed.value),
            token: token_shape(token),
        });
    }
}

/// A primary expression on the stream without positions.
#[verifier::spinoff_prover]
pub proof fn lemma_primary(ts: Seq<TokenView>, pos: int)
    requires
        inside(ts, pos),
    ensures
        inside(ts, pos + primary(ts, pos).used),
        expr_agrees(primary(token_shapes(ts), pos), primary(ts, pos)),
    decreases remaining(ts, pos), 0nat,
{
    reveal_with_fuel(primary, 1);
    reveal_with_fuel(expression, 1);
    reveal_with_fuel(anonymous_function, 1);
    lemma_shapes_of_tokens(ts);
    lemma_shape_algebra();
    let kind = kind_at(ts, pos);
    if kind == TokenType::True || kind == TokenType::False || kind == TokenType::Null || kind
        == TokenType::Num || kind == TokenType::Str {
    } else if kind == TokenType::Id {
    } else if kind == TokenType::LParen {
        let inner = expression(ts, pos + 1);
        lemma_expression(ts, pos + 1);
        lemma_expect(ts, pos + 1 + inner.used, TokenType::RParen, "expected ')'"@);
    } else if kind == TokenType::LBracket || kind == TokenType::LBrace {
    } else if kind == TokenType::Func {
        lemma_anonymous_function(ts, pos + 1);
    } else {
        lemma_one_diagnostic(diagnostic(ts, pos, "unexpected token"@));
    }
}

/// An anonymous function on the stream without positions.
#[verifier::spinoff_prover]
pub proof fn lemma_anonymous_function(ts: Seq<TokenView>, pos: int)
    requires
        inside(ts, pos),
    ensures
        inside(ts, pos + anonymous_function(ts, pos).used),
        expr_agrees(anonymous_function(token_shapes(ts), pos), anonymous_function(ts, pos)),
    decreases remaining(ts, pos), 23nat,
{
    reveal_with_fuel(anonymous_function, 1);
    reveal_with_fuel(block, 1);
    reveal_with_fuel(expression, 1);
    lemma_shapes_of_tokens(ts);
    lemma_shape_algebra();
    let names = params(ts, pos, "anonymous function"@);
    lemma_params(ts, pos, "anonymous function"@);
    let after = pos + names.used;
    if kind_at(ts, after) == TokenType::LBrace {
        lemma_block(ts, after + 1);
    } else {
        let result = expression(ts, after);
        lemma_expression(ts, after);
        lemma_expr_shapes_small(result.value, result.value);
        let returned = StmtView::Return { token: before(ts, after), values: seq![result.value] };
        assert(stmt_shape(returned) == StmtView::Return {
            token: token_shape(before(ts, after)),
            values: seq![expr_shape(result.value)],
        });
        lemma_node_shapes_small(NodeView::STMT(returned), NodeView::STMT(returned));
        assert(node_shape(NodeView::STMT(returned)) == NodeView::STMT(stmt_shape(returned)));
    }
}

/// A declaration on the stream without positions.
pub proof fn lemma_declaration(ts: Seq<TokenView>, pos: int)
    requires
        inside(ts, pos),
    ensures
        inside(ts, pos + declaration(ts, pos).used),
        node_agrees(declaration(token_shapes(ts), pos), declaration(ts, pos)),
    decreases remaining(ts, pos), 25nat,
{
    reveal_with_fuel(declaration, 1);
    reveal_with_fuel(var_declaration, 1);
    reveal_with_fuel(function, 1);
    reveal_with_fuel(statement, 1);
    lemma_shapes_of_tokens(ts);
    lemma_shape_algebra();
    let kind = kind_at(ts, pos);
    if kind == TokenType::Var {
        lemma_var_declaration(ts, pos + 1);
    } else if kind == TokenType::Func && kind_at(ts, pos + 1) == TokenType::Id {
        lemma_function(ts, pos + 1, "function"@);
    } else if kind == TokenType::Struct {
        lemma_struct_declaration(ts, pos + 1);
    } else {
        lemma_statement(ts, pos);
    }
}

/// A statement on the stream without positions.
#[verifier::spinoff_prover]
pub proof fn lemma_statement(ts: Seq<TokenView>, pos: int)
    requires
        inside(ts, pos),
    ensures
        inside(ts, pos + statement(ts, pos).used),
        node_agrees(statement(token_shapes(ts), pos), statement(ts, pos)),
    decreases remaining(ts, pos), 24nat,
{
    reveal_with_fuel(statement, 1);
    reveal_with_fuel(block, 1);
    reveal_with_fuel(if_stmt, 1);
    reveal_with_fuel(while_stmt, 1);
    reveal_with_fuel(for_stmt, 1);
    reveal_with_fuel(return_stmt, 1);
    reveal_with_fuel(import_stmt, 1);
    reveal_with_fuel(expr_stmt, 1);
    lemma_shapes_of_tokens(ts);
    lemma_shape_algebra();
    let kind = kind_at(ts, pos);
    if kind == TokenType::LBrace {
        let body = block(ts, pos + 1);
        lemma_block(ts, pos + 1);
        let node = StmtView::Block { statements: body.value };
        assert(node_shape(NodeView::STMT(node)) == NodeView::STMT(
            StmtView::Block { statements: node_shapes(body.value) },
        ));
    } else if kind == TokenType::If {
        lemma_if_stmt(ts, pos);
    } else if kind == TokenType::While {
        lemma_while_stmt(ts, pos);
    } else if kind == TokenType::For {
        lemma_for_stmt(ts, pos);
    } else if kind == TokenType::Return {
        lemma_return_stmt(ts, pos);
    } else if kind == TokenType::Break {
        lemma_expect(ts, pos + 1, TokenType::SColon, "expected ';'"@);
        assert(node_shape(NodeView::STMT(StmtView::Break)) == NodeView::STMT(StmtView::Break));
    } else if kind == TokenType::Import {
        lemma_import_stmt(ts, pos);
    } else if kind == TokenType::Continue {
        lemma_expect(ts, pos + 1, TokenType::SColon, "expected ';'"@);
        assert(node_shape(NodeView::STMT(StmtView::Continue)) == NodeView::STMT(
            StmtView::Continue,
        ));
    } else {
        lemma_expr_stmt(ts, pos);
    }
}

/// An expression statement on the stream without positions.
pub proof fn lemma_expr_stmt(ts: Seq<TokenView>, pos: int)
    requires
        inside(ts, pos),
    ensures
        inside(ts, pos + expr_stmt(ts, pos).used),
        node_agrees(expr_stmt(token_shapes(ts), pos), expr_stmt(ts, pos)),
    decreases remaining(ts, pos), 23nat,
{
    reveal_with_fuel(expr_stmt, 1);
    reveal_with_fuel(expression, 1);
    lemma_shapes_of_tokens(ts);
    lemma_shape_algebra();
    let expr = expression(ts, pos);
    lemma_expression(ts, pos);
    lemma_expect(ts, pos + expr.used, TokenType::SColon, "expected ';'"@);
}

/// An `import` statement on the stream without positions.
pub proof fn lemma_import_stmt(ts: Seq<TokenView>, pos: int)
    requires
        inside(ts, pos),
        kind_at(ts, pos) == TokenType::Import,
    ensures
        inside(ts, pos + import_stmt(ts, pos).used),
        node_agrees(import_stmt(token_shapes(ts), pos), import_stmt(ts, pos)),
    decreases remaining(ts, pos), 23nat,
{
    reveal_with_fuel(import_stmt, 1);
    reveal_with_fuel(expression, 1);
    lemma_shapes_of_tokens(ts);
    lemma_shape_algebra();
    let name = expression(ts, pos + 1);
    lemma_expression(ts, pos + 1);
    lemma_expect(ts, pos + 1 + name.used, TokenType::SColon, "expected ';'"@);
    let node = StmtView::Import { name: name.value, token: ts[pos] };
    assert(node_shape(NodeView::STMT(node)) == NodeView::STMT(
        StmtView::Import { name: expr_shape(name.value), token: token_shape(ts[pos]) },
    ));
}

/// An `if` statement on the stream without positions.
#[verifier::spinoff_prover]
pub proof fn lemma_if_stmt(ts: Seq<TokenView>, pos: int)
    requires
        inside(ts, pos),
        kind_at(ts, pos) == TokenType::If,
    ensures
        inside(ts, pos + if_stmt(ts, pos).used),
        node_agrees(if_stmt(token_shapes(ts), pos), if_stmt(ts, pos)),
    decreases remaining(ts, pos), 23nat,
{
    reveal_with_fuel(if_stmt, 1);
    reveal_with_fuel(expression, 1);
    reveal_with_fuel(statement, 1);
    lemma_shapes_of_tokens(ts);
    lemma_shape_algebra();
    let open = expect(ts, pos + 1, TokenType::LParen, "expected '(' after 'if'"@);
    lemma_expect(ts, pos + 1, TokenType::LParen, "expected '(' after 'if'"@);
    let condition = expression(ts, pos + 1 + open.used);
    lemma_expression(ts, pos + 1 + open.used);
    let close = expect(
        ts,
        pos + 1 + open.used + condition.used,
        TokenType::RParen,
        "expected ')' after if condition"@,
    );
    lemma_expect(
        ts,
        pos + 1 + open.used + condition.used,
        TokenType::RParen,
        "expected ')' after if condition"@,
    );
    let at_then = pos + 1 + open.used + condition.used + close.used;
    let then_branch = statement(ts, at_then);
    lemma_statement(ts, at_then);
    let at_else = at_then + then_branch.used;
    if kind_at(ts, at_else) == TokenType::Else {
        let els = if kind_at(ts, at_else + 1) == TokenType::If {
            if_stmt(ts, at_else + 1)
        } else {
            statement(ts, at_else + 1)
        };
        if kind_at(ts, at_else + 1) == TokenType::If {
            lemma_if_stmt(ts, at_else + 1);
        } else {
            lemma_statement(ts, at_else + 1);
        }
        let node = StmtView::If {
            condition: condition.value,
            then_branch: Box::new(then_branch.value),
            els: Some(Box::new(els.value)),
        };
        assert(node_shape(NodeView::STMT(node)) == NodeView::STMT(
            StmtView::If {
                condition: expr_shape(condition.value),
                then_branch: Box::new(node_shape(then_branch.value)),
                els: Some(Box::new(node_shape(els.value))),
            },
        ));
    } else {
        let node = StmtView::If {
            condition: condition.value,
            then_branch: Box::new(then_branch.value),
            els: None,
        };
        assert(node_shape(NodeView::STMT(node)) == NodeView::STMT(
            StmtView::If {
                condition: expr_shape(condition.value),
                then_branch: Box::new(node_shape(then_branch.value)),
                els: None,
            },
        ));
    }
}

/// A `while` statement on the stream without positions.
pub proof fn lemma_while_stmt(ts: Seq<TokenView>, pos: int)
    requires
        inside(ts, pos),
        kind_at(ts, pos) == TokenType::While,
    ensures
        inside(ts, pos + while_stmt(ts, pos).used),
        node_agrees(while_stmt(token_shapes(ts), pos), while_stmt(ts, pos)),
    decreases remaining(ts, pos), 23nat,
{
    reveal_with_fuel(while_stmt, 1);
    reveal_with_fuel(expression, 1);
    reveal_with_fuel(statement, 1);
    lemma_shapes_of_tokens(ts);
    lemma_shape_algebra();
    let open = expect(ts, pos + 1, TokenType::LParen, "expected '(' after 'while'"@);
    lemma_expect(ts, pos + 1, TokenType::LParen, "expected '(' after 'while'"@);
    let condition = expression(ts, pos + 1 + open.used);
    lemma_expression(ts, pos + 1 + open.used);
    let close = expect(
        ts,
        pos + 1 + open.used + condition.used,
        TokenType::RParen,
        "expected ')' after while condition"@,
    );
    lemma_expect(
        ts,
        pos + 1 + open.used + condition.used,
        TokenType::RParen,
        "expected ')' after while condition"@,
    );
    let body = statement(ts, pos + 1 + open.used + condition.used + close.used);
    lemma_statement(ts, pos + 1 + open.used + condition.used + close.used);
    let node = StmtView::While {
        condition: condition.value,
        body: Box::new(body.value),
        token: ts[pos],
    };
    assert(node_shape(NodeView::STMT(node)) == NodeView::STMT(
        StmtView::While {
            condition: expr_shape(condition.value),
            body: Box::new(node_shape(body.value)),
            token: token_shape(ts[pos]),
        },
    ));
}

/// The first part of the head of a `for` statement, on the stream without
/// positions.
#[verifier::spinoff_prover]
pub proof fn lemma_for_init(ts: Seq<TokenView>, pos: int)
    requires
        inside(ts, pos),
    ensures
        inside(ts, pos + for_init(ts, pos).used),
        for_init(token_shapes(ts), pos).used == for_init(ts, pos).used,
        for_init(token_shapes(ts), pos).value == option_node_shape(for_init(ts, pos).value),
        for_init(token_shapes(ts), pos).errors == diagnostic_shapes(for_init(ts, pos).errors),
    decreases remaining(ts, pos), 24nat,
{
    reveal_with_fuel(for_init, 1);
    reveal_with_fuel(var_declaration, 1);
    reveal_with_fuel(expr_stmt, 1);
    lemma_shapes_of_tokens(ts);
    lemma_shape_algebra();
    let kind = kind_at(ts, pos);
    if kind == TokenType::SColon {
    } else if kind == TokenType::Var {
        lemma_var_declaration(ts, pos + 1);
    } else {
        lemma_expr_stmt(ts, pos);
    }
}

/// An expression that may be missing, on the stream without positions.
pub proof fn lemma_expression_unless(ts: Seq<TokenView>, pos: int, stop: TokenType)
    requires
        inside(ts, pos),
    ensures
        inside(ts, pos + expression_unless(ts, pos, stop).used),
        expression_unless(token_shapes(ts), pos, stop).used == expression_unless(
            ts,
            pos,
            stop,
        ).used,
        expression_unless(token_shapes(ts), pos, stop).value == option_expr_shape(
            expression_unless(ts, pos, stop).value,
        ),
        expression_unless(token_shapes(ts), pos, stop).errors == diagnostic_shapes(
            expression_unless(ts, pos, stop).errors,
        ),
    decreases remaining(ts, pos), 23nat,
{
    reveal_with_fuel(expression_unless, 1);
    reveal_with_fuel(expression, 1);
    lemma_shapes_of_tokens(ts);
    lemma_shape_algebra();
    if kind_at(ts, pos) != stop {
        lemma_expression(ts, pos);
    }
}

/// A `for` statement on the stream without positions.
#[verifier::spinoff_prover]
pub proof fn lemma_for_stmt(ts: Seq<TokenView>, pos: int)
    requires
        inside(ts, pos),
        kind_at(ts, pos) == TokenType::For,
    ensures
        inside(ts, pos + for_stmt(ts, pos).used),
        node_agrees(for_stmt(token_shapes(ts), pos), for_stmt(ts, pos)),
    decreases remaining(ts, pos), 23nat,
{
    reveal_with_fuel(for_stmt, 1);
    reveal_with_fuel(for_init, 1);
    reveal_with_fuel(expression_unless, 1);
    reveal_with_fuel(statement, 1);
    lemma_shapes_of_tokens(ts);
    lemma_shape_algebra();
    let open = expect(ts, pos + 1, TokenType::LParen, "expected '('"@);
    lemma_expect(ts, pos + 1, TokenType::LParen, "expected '('"@);
    let at_init = pos + 1 + open.used;
    let init = for_init(ts, at_init);
    lemma_for_init(ts, at_init);
    let at_condition = at_init + init.used;
    let condition = expression_unless(ts, at_condition, TokenType::SColon);
    lemma_expression_unless(ts, at_condition, TokenType::SColon);
    let semi = expect(ts, at_condition + condition.used, TokenType::SColon, "expected ';'"@);
    lemma_expect(ts, at_condition + condition.used, TokenType::SColon, "expected ';'"@);
    let at_increment = at_condition + condition.used + semi.used;
    let increment = expression_unless(ts, at_increment, TokenType::RParen);
    lemma_expression_unless(ts, at_increment, TokenType::RParen);
    let close = expect(ts, at_increment + increment.used, TokenType::RParen, "expected ')'"@);
    lemma_expect(ts, at_increment + increment.used, TokenType::RParen, "expected ')'"@);
    let body = statement(ts, at_increment + increment.used + close.used);
    lemma_statement(ts, at_increment + increment.used + close.used);
    lemma_for_loop(ts[pos], init.value, condition.value, increment.value, body.value);
}

/// The values of a `return` on the stream without positions.
pub proof fn lemma_return_values(ts: Seq<TokenView>, pos: int)
    requires
        inside(ts, pos),
    ensures
        inside(ts, pos + return_values(ts, pos).used),
        exprs_agree(return_values(token_shapes(ts), pos), return_values(ts, pos)),
    decreases remaining(ts, pos), 23nat,
{
    reveal_with_fuel(return_values, 1);
    reveal_with_fuel(expression, 1);
    lemma_shapes_of_tokens(ts);
    lemma_shape_algebra();
    let first = expression(ts, pos);
    lemma_expression(ts, pos);
    lemma_expr_shapes_small(first.value, first.value);
    if kind_at(ts, pos + first.used) == TokenType::Comma {
        lemma_return_values(ts, pos + first.used + 1);
    }
}

/// A `return` statement on the stream without positions.
pub proof fn lemma_return_stmt(ts: Seq<TokenView>, pos: int)
    requires
        inside(ts, pos),
        kind_at(ts, pos) == TokenType::Return,
    ensures
        inside(ts, pos + return_stmt(ts, pos).used),
        node_agrees(return_stmt(token_shapes(ts), pos), return_stmt(ts, pos)),
    decreases remaining(ts, pos), 23nat,
{
    reveal_with_fuel(return_stmt, 1);
    reveal_with_fuel(return_values, 1);
    lemma_shapes_of_tokens(ts);
    lemma_shape_algebra();
    let values = if kind_at(ts, pos + 1) != TokenType::SColon {
        return_values(ts, pos + 1)
    } else {
        crate::grammar::nothing()
    };
    if kind_at(ts, pos + 1) != TokenType::SColon {
        lemma_return_values(ts, pos + 1);
    }
    lemma_expect(ts, pos + 1 + values.used, TokenType::SColon, "expected ';'"@);
    let node = StmtView::Return { token: ts[pos], values: values.value };
    assert(node_shape(NodeView::STMT(node)) == NodeView::STMT(
        StmtView::Return { token: token_shape(ts[pos]), values: expr_shapes(values.value) },
    ));
}

/// A variable declaration on the stream without positions.
#[verifier::spinoff_prover]
pub proof fn lemma_var_declaration(ts: Seq<TokenView>, pos: int)
    requires
        inside(ts, pos),
    ensures
        inside(ts, pos + var_declaration(ts, pos).used),
        node_agrees(var_declaration(token_shapes(ts), pos), var_declaration(ts, pos)),
    decreases remaining(ts, pos), 23nat,
{
    reveal_with_fuel(var_declaration, 1);
    reveal_with_fuel(expression, 1);
    lemma_shapes_of_tokens(ts);
    lemma_shape_algebra();
    let id = expect(ts, pos, TokenType::Id, "Expected an identifier"@);
    lemma_expect(ts, pos, TokenType::Id, "Expected an identifier"@);
    let name = before(ts, pos + id.used);
    let at_init = pos + id.used;
    if kind_at(ts, at_init) == TokenType::Equal {
        let init = expression(ts, at_init + 1);
        lemma_expression(ts, at_init + 1);
        lemma_expect(ts, at_init + 1 + init.used, TokenType::SColon, "expected ';'"@);
        let node = StmtView::Variable { name, init: init.value };
        assert(node_shape(NodeView::STMT(node)) == NodeView::STMT(
            StmtView::Variable { name: token_shape(name), init: expr_shape(init.value) },
        ));
    } else {
        lemma_expect(ts, at_init, TokenType::SColon, "expected ';'"@);
        let null = ExprView::Literal { kind: TokenType::Null, value: Seq::empty() };
        assert(expr_shape(null) == null);
        let node = StmtView::Variable { name, init: null };
        assert(node_shape(NodeView::STMT(node)) == NodeView::STMT(
            StmtView::Variable { name: token_shape(name), init: null },
        ));
    }
}

/// A function declaration on the stream without positions.
pub proof fn lemma_function(ts: Seq<TokenView>, pos: int, what: Seq<char>)
    requires
        inside(ts, pos),
    ensures
        inside(ts, pos + function(ts, pos, what).used),
        node_agrees(function(token_shapes(ts), pos, what), function(ts, pos, what)),
    decreases remaining(ts, pos), 28nat,
{
    reveal_with_fuel(function, 1);
    reveal_with_fuel(function_body, 1);
    lemma_shapes_of_tokens(ts);
    lemma_shape_algebra();
    let id = expect(ts, pos, TokenType::Id, "expected "@ + what + " name"@);
    lemma_expect(ts, pos, TokenType::Id, "expected "@ + what + " name"@);
    let name = before(ts, pos + id.used);
    let body = function_body(ts, pos + id.used, what);
    lemma_function_body(ts, pos + id.used, what);
    let node = StmtView::Func { token: name, func: body.value };
    assert(node_shape(NodeView::STMT(node)) == NodeView::STMT(
        StmtView::Func { token: token_shape(name), func: expr_shape(body.value) },
    ));
}

/// The parameters and the body of a function on the stream without
/// positions.
pub proof fn lemma_function_body(ts: Seq<TokenView>, pos: int, what: Seq<char>)
    requires
        inside(ts, pos),
    ensures
        inside(ts, pos + function_body(ts, pos, what).used),
        expr_agrees(function_body(token_shapes(ts), pos, what), function_body(ts, pos, what)),
    decreases remaining(ts, pos), 27nat,
{
    reveal_with_fuel(function_body, 1);
    reveal_with_fuel(block, 1);
    lemma_shapes_of_tokens(ts);
    lemma_shape_algebra();
    let names = params(ts, pos, what);
    lemma_params(ts, pos, what);
    let message = "expected '{' before "@ + what + " body"@;
    let open = expect(ts, pos + names.used, TokenType::LBrace, message);
    lemma_expect(ts, pos + names.used, TokenType::LBrace, message);
    lemma_block(ts, pos + names.used + open.used);
}

/// A block on the stream without positions.
pub proof fn lemma_block(ts: Seq<TokenView>, pos: int)
    requires
        inside(ts, pos),
    ensures
        inside(ts, pos + block(ts, pos).used),
        nodes_agree(block(token_shapes(ts), pos), block(ts, pos)),
    decreases remaining(ts, pos), 26nat,
{
    reveal_with_fuel(block, 1);
    reveal_with_fuel(declaration, 1);
    lemma_shapes_of_tokens(ts);
    lemma_shape_algebra();
    if kind_at(ts, pos) == TokenType::RBrace || at_end(ts, pos) {
        lemma_expect(ts, pos, TokenType::RBrace, "expected '}' after a block"@);
    } else {
        let first = declaration(ts, pos);
        lemma_declaration(ts, pos);
        lemma_node_shapes_small(first.value, first.value);
        if first.used > 0 {
            lemma_block(ts, pos + first.used);
        }
    }
}

/// A program from a position on, on the stream without positions.
pub proof fn lemma_program_from(ts: Seq<TokenView>, pos: int)
    requires
        inside(ts, pos),
    ensures
        inside(ts, pos + program_from(ts, pos).used),
        nodes_agree(program_from(token_shapes(ts), pos), program_from(ts, pos)),
    decreases remaining(ts, pos),
{
    reveal_with_fuel(declaration, 1);
    lemma_shapes_of_tokens(ts);
    lemma_shape_algebra();
    if at_end(ts, pos) {
    } else {
        let first = declaration(ts, pos);
        lemma_declaration(ts, pos);
        lemma_node_shapes_small(first.value, first.value);
        if first.used > 0 {
            lemma_program_from(ts, pos + first.used);
        }
    }
}

/// Parsing does not depend on source positions: the program of a token
/// stream without its positions is the program of the stream, without its
/// positions; as many tokens are taken, and the diagnostics are the same
/// but for their positions.
pub proof fn lemma_program_does_not_depend_on_positions(ts: Seq<TokenView>)
    requires
        terminated(ts),
    ensures
        program(token_shapes(ts)).value == node_shapes(program(ts).value),
        program(token_shapes(ts)).used == program(ts).used,
        program(token_shapes(ts)).errors == diagnostic_shapes(program(ts).errors),
{
    lemma_program_from(ts, 0);
}

/// The printed form of a parsed program is a function of the kinds and the
/// texts of its tokens alone: two streams that differ only in the positions
/// of their tokens have programs with the same printed form. Blanks and
/// comments give no token, so they never show in it.
pub proof fn lemma_printed_program_ignores_positions(a: Seq<TokenView>, b: Seq<TokenView>)
    requires
        terminated(a),
        terminated(b),
        token_shapes(a) == token_shapes(b),
    ensures
        printed_program(program(a).value) == printed_program(program(b).value),
        program(a).errors.len() == program(b).errors.len(),
{
    lemma_program_does_not_depend_on_positions(a);
    lemma_program_does_not_depend_on_positions(b);
    lemma_same_shape_same_print(program(a).value, program(b).value);
    assert(diagnostic_shapes(program(a).errors).len() == program(a).errors.len());
    assert(diagnostic_shapes(program(b).errors).len() == program(b).errors.len());
}

} // verus!
