//! The shape of a syntax tree: the tree without the source positions of
//! its tokens. The printed form of a tree depends on its shape alone.

use crate::ast::{ExprView, NodeView, StmtView, TypeInfoView};
use crate::printer::{printed_exprs, printed_fields, printed_nodes, printed_tokens};
use crate::token::TokenView;
use vstd::prelude::*;

verus! {

/// The token without its position.
pub open spec fn token_shape(t: TokenView) -> TokenView {
    TokenView { kind: t.kind, text: t.text, line: 0, col: 0 }
}

/// The tokens without their positions.
pub open spec fn token_shapes(ts: Seq<TokenView>) -> Seq<TokenView> {
    Seq::new(ts.len(), |i: int| token_shape(ts[i]))
}

/// The type without the position of its name.
pub open spec fn type_shape(t: TypeInfoView) -> TypeInfoView {
    match t {
        TypeInfoView::Id(name) => TypeInfoView::Id(token_shape(name)),
        other => other,
    }
}

/// The types without the positions of their names.
pub open spec fn type_shapes(ts: Seq<TypeInfoView>) -> Seq<TypeInfoView> {
    Seq::new(ts.len(), |i: int| type_shape(ts[i]))
}

/// The expressions without the positions of their tokens.
pub open spec fn expr_shapes(es: Seq<ExprView>) -> Seq<ExprView>
    decreases es,
{
    if es.len() == 0 {
        Seq::empty()
    } else {
        expr_shapes(es.drop_last()).push(expr_shape(es.last()))
    }
}

/// The nodes without the positions of their tokens.
pub open spec fn node_shapes(ns: Seq<NodeView>) -> Seq<NodeView>
    decreases ns,
{
    if ns.len() == 0 {
        Seq::empty()
    } else {
        node_shapes(ns.drop_last()).push(node_shape(ns.last()))
    }
}

/// The expression without the positions of its tokens.
pub open spec fn expr_shape(e: ExprView) -> ExprView
    decreases e,
{
    match e {
        ExprView::Binary { left, right, op } => ExprView::Binary {
            left: Box::new(expr_shape(*left)),
            right: Box::new(expr_shape(*right)),
            op: token_shape(op),
        },
        ExprView::Group { expr } => ExprView::Group { expr: Box::new(expr_shape(*expr)) },
        ExprView::Unary { right, op } => ExprView::Unary {
            right: Box::new(expr_shape(*right)),
            op: token_shape(op),
        },
        ExprView::Literal { kind, value } => ExprView::Literal { kind, value },
        ExprView::Logical { left, right, op } => ExprView::Logical {
            left: Box::new(expr_shape(*left)),
            right: Box::new(expr_shape(*right)),
            op: token_shape(op),
        },
        ExprView::Variable { name } => ExprView::Variable { name: token_shape(name) },
        ExprView::Assign { name, value } => ExprView::Assign {
            name: token_shape(name),
            value: Box::new(expr_shape(*value)),
        },
        ExprView::Call { callee, args, token } => ExprView::Call {
            callee: Box::new(expr_shape(*callee)),
            args: expr_shapes(args),
            token: token_shape(token),
        },
        ExprView::Get { instance, token } => ExprView::Get {
            instance: Box::new(expr_shape(*instance)),
            token: token_shape(token),
        },
        ExprView::SetMember { instance, token, value } => ExprView::SetMember {
            instance: Box::new(expr_shape(*instance)),
            token: token_shape(token),
            value: Box::new(expr_shape(*value)),
        },
        ExprView::Access { token, expr, index } => ExprView::Access {
            token: token_shape(token),
            expr: Box::new(expr_shape(*expr)),
            index: Box::new(expr_shape(*index)),
        },
        ExprView::Func { params, body } => ExprView::Func {
            params: token_shapes(params),
            body: node_shapes(body),
        },
        ExprView::Unknown => ExprView::Unknown,
    }
}

/// The statement without the positions of its tokens.
pub open spec fn stmt_shape(s: StmtView) -> StmtView
    decreases s,
{
    match s {
        StmtView::Expr { expr } => StmtView::Expr { expr: expr_shape(expr) },
        StmtView::Variable { name, init } => StmtView::Variable {
            name: token_shape(name),
            init: expr_shape(init),
        },
        StmtView::If { condition, then_branch, els } => StmtView::If {
            condition: expr_shape(condition),
            then_branch: Box::new(node_shape(*then_branch)),
            els: match els {
                Some(e) => Some(Box::new(node_shape(*e))),
                None => None,
            },
        },
        StmtView::Block { statements } => StmtView::Block { statements: node_shapes(statements) },
        StmtView::While { condition, body, token } => StmtView::While {
            condition: expr_shape(condition),
            body: Box::new(node_shape(*body)),
            token: token_shape(token),
        },
        StmtView::Func { token, func } => StmtView::Func {
            token: token_shape(token),
            func: expr_shape(func),
        },
        StmtView::Return { token, values } => StmtView::Return {
            token: token_shape(token),
            values: expr_shapes(values),
        },
        StmtView::Break => StmtView::Break,
        StmtView::Continue => StmtView::Continue,
        StmtView::Import { name, token } => StmtView::Import {
            name: expr_shape(name),
            token: token_shape(token),
        },
        StmtView::Struct { token, fields, types } => StmtView::Struct {
            token: token_shape(token),
            fields: token_shapes(fields),
            types: type_shapes(types),
        },
    }
}

/// The node without the positions of its tokens.
pub open spec fn node_shape(n: NodeView) -> NodeView
    decreases n,
{
    match n {
        NodeView::EXPR(e) => NodeView::EXPR(expr_shape(e)),
        NodeView::STMT(s) => NodeView::STMT(stmt_shape(s)),
    }
}

/// A token is printed as its shape is.
pub proof fn lemma_token_printed_by_shape(t: TokenView)
    ensures
        token_shape(t).printed() == t.printed(),
{
}

/// Tokens are printed as their shapes are.
pub proof fn lemma_tokens_printed_by_shape(ts: Seq<TokenView>)
    ensures
        printed_tokens(token_shapes(ts)) == printed_tokens(ts),
{
    assert(printed_tokens(token_shapes(ts)) =~= printed_tokens(ts));
}

/// Struct fields are printed as their shapes are.
pub proof fn lemma_fields_printed_by_shape(fields: Seq<TokenView>, types: Seq<TypeInfoView>)
    ensures
        printed_fields(token_shapes(fields), type_shapes(types)) == printed_fields(fields, types),
{
    assert(printed_fields(token_shapes(fields), type_shapes(types)) =~= printed_fields(
        fields,
        types,
    ));
}

/// Expressions are printed as their shapes are.
pub proof fn lemma_exprs_printed_by_shape(es: Seq<ExprView>)
    ensures
        expr_shapes(es).len() == es.len(),
        printed_exprs(expr_shapes(es)) == printed_exprs(es),
    decreases es, 0nat,
{
    if es.len() > 0 {
        let front = es.drop_last();
        lemma_exprs_printed_by_shape(front);
        lemma_expr_printed_by_shape(es.last());
        assert(expr_shapes(es).drop_last() =~= expr_shapes(front));
    }
}

/// Nodes are printed as their shapes are.
pub proof fn lemma_nodes_printed_by_shape(ns: Seq<NodeView>)
    ensures
        node_shapes(ns).len() == ns.len(),
        printed_nodes(node_shapes(ns)) == printed_nodes(ns),
    decreases ns, 0nat,
{
    if ns.len() > 0 {
        let front = ns.drop_last();
        lemma_nodes_printed_by_shape(front);
        lemma_node_printed_by_shape(ns.last());
        assert(node_shapes(ns).drop_last() =~= node_shapes(front));
    }
}

/// The printed form of an expression depends on its shape alone: the
/// expression without its source positions is printed as the expression is.
pub proof fn lemma_expr_printed_by_shape(e: ExprView)
    ensures
        expr_shape(e).printed() == e.printed(),
    decreases e, 1nat,
{
    match e {
        ExprView::Binary { left, right, op } => {
            lemma_expr_printed_by_shape(*left);
            lemma_expr_printed_by_shape(*right);
        },
        ExprView::Group { expr } => {
            lemma_expr_printed_by_shape(*expr);
        },
        ExprView::Unary { right, op } => {
            lemma_expr_printed_by_shape(*right);
        },
        ExprView::Literal { kind, value } => {},
        ExprView::Logical { left, right, op } => {
            lemma_expr_printed_by_shape(*left);
            lemma_expr_printed_by_shape(*right);
        },
        ExprView::Variable { name } => {},
        ExprView::Assign { name, value } => {
            lemma_expr_printed_by_shape(*value);
        },
        ExprView::Call { callee, args, token } => {
            lemma_expr_printed_by_shape(*callee);
            lemma_exprs_printed_by_shape(args);
        },
        ExprView::Get { instance, token } => {
            lemma_expr_printed_by_shape(*instance);
        },
        ExprView::SetMember { instance, token, value } => {
            lemma_expr_printed_by_shape(*instance);
            lemma_expr_printed_by_shape(*value);
        },
        ExprView::Access { token, expr, index } => {
            lemma_expr_printed_by_shape(*expr);
            lemma_expr_printed_by_shape(*index);
        },
        ExprView::Func { params, body } => {
            lemma_tokens_printed_by_shape(params);
            lemma_nodes_printed_by_shape(body);
        },
        ExprView::Unknown => {},
    }
}

/// The printed form of a statement depends on its shape alone.
pub proof fn lemma_stmt_printed_by_shape(s: StmtView)
    ensures
        stmt_shape(s).printed() == s.printed(),
    decreases s, 1nat,
{
    match s {
        StmtView::Expr { expr } => {
            lemma_expr_printed_by_shape(expr);
        },
        StmtView::Variable { name, init } => {
            lemma_expr_printed_by_shape(init);
        },
        StmtView::If { condition, then_branch, els } => {
            lemma_expr_printed_by_shape(condition);
            lemma_node_printed_by_shape(*then_branch);
            match els {
                Some(e) => {
                    lemma_node_printed_by_shape(*e);
                },
                None => {},
            }
        },
        StmtView::Block { statements } => {
            lemma_nodes_printed_by_shape(statements);
        },
        StmtView::While { condition, body, token } => {
            lemma_expr_printed_by_shape(condition);
            lemma_node_printed_by_shape(*body);
        },
        StmtView::Func { token, func } => {
            lemma_expr_printed_by_shape(func);
        },
        StmtView::Return { token, values } => {
            lemma_exprs_printed_by_shape(values);
        },
        StmtView::Break => {},
        StmtView::Continue => {},
        StmtView::Import { name, token } => {
            lemma_expr_printed_by_shape(name);
        },
        StmtView::Struct { token, fields, types } => {
            lemma_fields_printed_by_shape(fields, types);
        },
    }
}

/// The printed form of a node depends on its shape alone.
pub proof fn lemma_node_printed_by_shape(n: NodeView)
    ensures
        node_shape(n).printed() == n.printed(),
    decreases n, 1nat,
{
    match n {
        NodeView::EXPR(e) => {
            lemma_expr_printed_by_shape(e);
        },
        NodeView::STMT(s) => {
            lemma_stmt_printed_by_shape(s);
        },
    }
}

/// Two programs of the same shape have the same printed form, whatever the
/// source positions of their tokens.
pub proof fn lemma_same_shape_same_print(a: Seq<NodeView>, b: Seq<NodeView>)
    requires
        node_shapes(a) == node_shapes(b),
    ensures
        crate::printer::printed_program(a) == crate::printer::printed_program(b),
{
    lemma_nodes_printed_by_shape(a);
    lemma_nodes_printed_by_shape(b);
}

} // verus!
