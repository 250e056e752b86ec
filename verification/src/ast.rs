//! The syntax tree: expressions, statements and type annotations, each with
//! its mathematical view.

use crate::token::{Token, TokenType, TokenView};
use vstd::prelude::*;

verus! {

/// An expression.
#[allow(inconsistent_fields)]
#[derive(Debug, PartialEq)]
pub enum Expr {
    Binary { left: Box<Expr>, right: Box<Expr>, op: Token },
    Group { expr: Box<Expr> },
    Unary { right: Box<Expr>, op: Token },
    Literal { kind: TokenType, value: String },
    Logical { left: Box<Expr>, right: Box<Expr>, op: Token },
    Variable { name: Token },
    Assign { name: Token, value: Box<Expr> },
    Call { callee: Box<Expr>, args: Vec<Box<Expr>>, token: Token },
    Get { instance: Box<Expr>, token: Token },
    SetMember { instance: Box<Expr>, token: Token, value: Box<Expr> },
    Access { token: Token, expr: Box<Expr>, index: Box<Expr> },
    Func { params: Vec<Token>, body: Vec<Node> },
    /// Stands where no expression could be read.
    Unknown,
}

/// A statement.
#[allow(inconsistent_fields)]
#[derive(Debug, PartialEq)]
pub enum Stmt {
    Expr { expr: Expr },
    Variable { name: Token, init: Expr },
    If { condition: Expr, then_branch: Box<Node>, els: Option<Box<Node>> },
    Block { statements: Vec<Node> },
    While { condition: Expr, body: Box<Node>, token: Token },
    Func { token: Token, func: Expr },
    Return { token: Token, values: Vec<Expr> },
    Break,
    Continue,
    Import { name: Expr, token: Token },
    /// A struct declaration; the i-th field has the i-th type.
    Struct { token: Token, fields: Vec<Token>, types: Vec<TypeInfo> },
}

/// The type written after a struct field.
#[derive(Debug, PartialEq)]
pub enum TypeInfo {
    Str,
    Num,
    Bool,
    Any,
    Mapping,
    List,
    /// A user-defined type, by name.
    Id(Token),
}

/// One element of a program: an expression or a statement.
#[derive(Debug, PartialEq)]
pub enum Node {
    EXPR(Expr),
    STMT(Stmt),
}

/// The mathematical content of an [`Expr`].
#[allow(inconsistent_fields)]
pub enum ExprView {
    Binary { left: Box<ExprView>, right: Box<ExprView>, op: TokenView },
    Group { expr: Box<ExprView> },
    Unary { right: Box<ExprView>, op: TokenView },
    Literal { kind: TokenType, value: Seq<char> },
    Logical { left: Box<ExprView>, right: Box<ExprView>, op: TokenView },
    Variable { name: TokenView },
    Assign { name: TokenView, value: Box<ExprView> },
    Call { callee: Box<ExprView>, args: Seq<ExprView>, token: TokenView },
    Get { instance: Box<ExprView>, token: TokenView },
    SetMember { instance: Box<ExprView>, token: TokenView, value: Box<ExprView> },
    Access { token: TokenView, expr: Box<ExprView>, index: Box<ExprView> },
    Func { params: Seq<TokenView>, body: Seq<NodeView> },
    Unknown,
}

/// The mathematical content of a [`Stmt`].
#[allow(inconsistent_fields)]
pub enum StmtView {
    Expr { expr: ExprView },
    Variable { name: TokenView, init: ExprView },
    If { condition: ExprView, then_branch: Box<NodeView>, els: Option<Box<NodeView>> },
    Block { statements: Seq<NodeView> },
    While { condition: ExprView, body: Box<NodeView>, token: TokenView },
    Func { token: TokenView, func: ExprView },
    Return { token: TokenView, values: Seq<ExprView> },
    Break,
    Continue,
    Import { name: ExprView, token: TokenView },
    Struct { token: TokenView, fields: Seq<TokenView>, types: Seq<TypeInfoView> },
}

/// The mathematical content of a [`TypeInfo`].
pub enum TypeInfoView {
    Str,
    Num,
    Bool,
    Any,
    Mapping,
    List,
    Id(TokenView),
}

/// The mathematical content of a [`Node`].
pub enum NodeView {
    EXPR(ExprView),
    STMT(StmtView),
}

impl View for TypeInfo {
    type V = TypeInfoView;

    open spec fn view(&self) -> TypeInfoView {
        match self {
            TypeInfo::Str => TypeInfoView::Str,
            TypeInfo::Num => TypeInfoView::Num,
            TypeInfo::Bool => TypeInfoView::Bool,
            TypeInfo::Any => TypeInfoView::Any,
            TypeInfo::Mapping => TypeInfoView::Mapping,
            TypeInfo::List => TypeInfoView::List,
            TypeInfo::Id(t) => TypeInfoView::Id(t@),
        }
    }
}

impl DeepView for TypeInfo {
    type V = TypeInfoView;

    open spec fn deep_view(&self) -> TypeInfoView {
        self@
    }
}

/// The views of a sequence of boxed expressions, in order.
pub open spec fn boxed_expr_views(es: Seq<Box<Expr>>) -> Seq<ExprView>
    decreases es,
{
    if es.len() == 0 {
        Seq::empty()
    } else {
        boxed_expr_views(es.drop_last()).push(expr_view(*es.last()))
    }
}

/// The views of a sequence of expressions, in order.
pub open spec fn expr_views(es: Seq<Expr>) -> Seq<ExprView>
    decreases es,
{
    if es.len() == 0 {
        Seq::empty()
    } else {
        expr_views(es.drop_last()).push(expr_view(es.last()))
    }
}

/// The views of a sequence of nodes, in order.
pub open spec fn node_views(ns: Seq<Node>) -> Seq<NodeView>
    decreases ns,
{
    if ns.len() == 0 {
        Seq::empty()
    } else {
        node_views(ns.drop_last()).push(node_view(ns.last()))
    }
}

/// The view of an expression.
pub open spec fn expr_view(e: Expr) -> ExprView
    decreases e,
{
        match e {
            Expr::Binary { left, right, op } => ExprView::Binary {
                left: Box::new(expr_view(*left)),
                right: Box::new(expr_view(*right)),
                op: op@,
            },
            Expr::Group { expr } => ExprView::Group { expr: Box::new(expr_view(*expr)) },
            Expr::Unary { right, op } => ExprView::Unary { right: Box::new(expr_view(*right)), op: op@ },
            Expr::Literal { kind, value } => ExprView::Literal { kind, value: value@ },
            Expr::Logical { left, right, op } => ExprView::Logical {
                left: Box::new(expr_view(*left)),
                right: Box::new(expr_view(*right)),
                op: op@,
            },
            Expr::Variable { name } => ExprView::Variable { name: name@ },
            Expr::Assign { name, value } => ExprView::Assign {
                name: name@,
                value: Box::new(expr_view(*value)),
            },
            Expr::Call { callee, args, token } => ExprView::Call {
                callee: Box::new(expr_view(*callee)),
                args: boxed_expr_views(args@),
                token: token@,
            },
            Expr::Get { instance, token } => ExprView::Get {
                instance: Box::new(expr_view(*instance)),
                token: token@,
            },
            Expr::SetMember { instance, token, value } => ExprView::SetMember {
                instance: Box::new(expr_view(*instance)),
                token: token@,
                value: Box::new(expr_view(*value)),
            },
            Expr::Access { token, expr, index } => ExprView::Access {
                token: token@,
                expr: Box::new(expr_view(*expr)),
                index: Box::new(expr_view(*index)),
            },
            Expr::Func { params, body } => ExprView::Func {
                params: params.deep_view(),
                body: node_views(body@),
            },
            Expr::Unknown => ExprView::Unknown,
        }
}

/// The view of a statement.
pub open spec fn stmt_view(s: Stmt) -> StmtView
    decreases s,
{
        match s {
            Stmt::Expr { expr } => StmtView::Expr { expr: expr_view(expr) },
            Stmt::Variable { name, init } => StmtView::Variable { name: name@, init: expr_view(init) },
            Stmt::If { condition, then_branch, els } => StmtView::If {
                condition: expr_view(condition),
                then_branch: Box::new(node_view(*then_branch)),
                els: match els {
                    Some(b) => Some(Box::new(node_view(*b))),
                    None => None,
                },
            },
            Stmt::Block { statements } => StmtView::Block { statements: node_views(statements@) },
            Stmt::While { condition, body, token } => StmtView::While {
                condition: expr_view(condition),
                body: Box::new(node_view(*body)),
                token: token@,
            },
            Stmt::Func { token, func } => StmtView::Func { token: token@, func: expr_view(func) },
            Stmt::Return { token, values } => StmtView::Return {
                token: token@,
                values: expr_views(values@),
            },
            Stmt::Break => StmtView::Break,
            Stmt::Continue => StmtView::Continue,
            Stmt::Import { name, token } => StmtView::Import { name: expr_view(name), token: token@ },
            Stmt::Struct { token, fields, types } => StmtView::Struct {
                token: token@,
                fields: fields.deep_view(),
                types: types.deep_view(),
            },
        }
}

/// The view of a node.
pub open spec fn node_view(n: Node) -> NodeView
    decreases n,
{
        match n {
            Node::EXPR(e) => NodeView::EXPR(expr_view(e)),
            Node::STMT(s) => NodeView::STMT(stmt_view(s)),
        }
}

impl View for Expr {
    type V = ExprView;

    open spec fn view(&self) -> ExprView {
        expr_view(*self)
    }
}

impl View for Stmt {
    type V = StmtView;

    open spec fn view(&self) -> StmtView {
        stmt_view(*self)
    }
}

impl View for Node {
    type V = NodeView;

    open spec fn view(&self) -> NodeView {
        node_view(*self)
    }
}

/// The views of boxed expressions are taken element by element.
pub proof fn lemma_boxed_expr_views(es: Seq<Box<Expr>>)
    ensures
        boxed_expr_views(es).len() == es.len(),
        forall|i: int|
            #![trigger es[i]]
            #![trigger boxed_expr_views(es)[i]]
            0 <= i < es.len() ==> boxed_expr_views(es)[i] == expr_view(*es[i]),
    decreases es.len(),
{
    if es.len() > 0 {
        let front = es.drop_last();
        lemma_boxed_expr_views(front);
        assert forall|i: int| 0 <= i < es.len() implies boxed_expr_views(es)[i] == expr_view(*es[i]) by {
            if i < front.len() {
                assert(front[i] == es[i]);
                assert(boxed_expr_views(es)[i] == boxed_expr_views(front)[i]);
            }
        }
    }
}

/// The views of expressions are taken element by element.
pub proof fn lemma_expr_views(es: Seq<Expr>)
    ensures
        expr_views(es).len() == es.len(),
        forall|i: int|
            #![trigger es[i]]
            #![trigger expr_views(es)[i]]
            0 <= i < es.len() ==> expr_views(es)[i] == expr_view(es[i]),
    decreases es.len(),
{
    if es.len() > 0 {
        let front = es.drop_last();
        lemma_expr_views(front);
        assert forall|i: int| 0 <= i < es.len() implies expr_views(es)[i] == expr_view(es[i]) by {
            if i < front.len() {
                assert(front[i] == es[i]);
                assert(expr_views(es)[i] == expr_views(front)[i]);
            }
        }
    }
}

/// The views of nodes are taken element by element.
pub proof fn lemma_node_views(ns: Seq<Node>)
    ensures
        node_views(ns).len() == ns.len(),
        forall|i: int|
            #![trigger ns[i]]
            #![trigger node_views(ns)[i]]
            0 <= i < ns.len() ==> node_views(ns)[i] == node_view(ns[i]),
    decreases ns.len(),
{
    if ns.len() > 0 {
        let front = ns.drop_last();
        lemma_node_views(front);
        assert forall|i: int| 0 <= i < ns.len() implies node_views(ns)[i] == node_view(ns[i]) by {
            if i < front.len() {
                assert(front[i] == ns[i]);
                assert(node_views(ns)[i] == node_views(front)[i]);
            }
        }
    }
}

/// Appending a boxed expression appends its view.
pub proof fn lemma_boxed_expr_views_push(es: Seq<Box<Expr>>, e: Box<Expr>)
    ensures
        boxed_expr_views(es.push(e)) == boxed_expr_views(es).push(expr_view(*e)),
{
    assert(es.push(e).drop_last() =~= es);
}

/// Appending an expression appends its view.
pub proof fn lemma_expr_views_push(es: Seq<Expr>, e: Expr)
    ensures
        expr_views(es.push(e)) == expr_views(es).push(expr_view(e)),
{
    assert(es.push(e).drop_last() =~= es);
}

/// Appending a node appends its view.
pub proof fn lemma_node_views_push(ns: Seq<Node>, n: Node)
    ensures
        node_views(ns.push(n)) == node_views(ns).push(node_view(n)),
{
    assert(ns.push(n).drop_last() =~= ns);
}

/// A copy of each token.
pub fn copy_tokens(tokens: &Vec<Token>) -> (copy: Vec<Token>)
    ensures
        copy.deep_view() == tokens.deep_view(),
{
    let mut copy: Vec<Token> = Vec::new();
    let mut i: usize = 0;
    while i < tokens.len()
        invariant
            i <= tokens.len(),
            copy@.len() == i,
            forall|k: int| 0 <= k < i ==> copy@[k]@ == tokens@[k]@,
        decreases tokens.len() - i,
    {
        copy.push(tokens[i].clone());
        i += 1;
    }
    assert(copy.deep_view() =~= tokens.deep_view());
    copy
}

/// A copy of each type.
pub fn copy_types(types: &Vec<TypeInfo>) -> (copy: Vec<TypeInfo>)
    ensures
        copy.deep_view() == types.deep_view(),
{
    let mut copy: Vec<TypeInfo> = Vec::new();
    let mut i: usize = 0;
    while i < types.len()
        invariant
            i <= types.len(),
            copy@.len() == i,
            forall|k: int| 0 <= k < i ==> copy@[k]@ == types@[k]@,
        decreases types.len() - i,
    {
        copy.push(types[i].clone());
        i += 1;
    }
    assert(copy.deep_view() =~= types.deep_view());
    copy
}

/// A copy of each boxed expression.
pub fn copy_boxed_exprs(es: &Vec<Box<Expr>>) -> (copy: Vec<Box<Expr>>)
    ensures
        boxed_expr_views(copy@) == boxed_expr_views(es@),
    decreases es,
{
    let mut copy: Vec<Box<Expr>> = Vec::new();
    let mut i: usize = 0;
    assert(es@.take(0) =~= copy@);
    while i < es.len()
        invariant
            i <= es.len(),
            boxed_expr_views(copy@) == boxed_expr_views(es@.take(i as int)),
        decreases es.len() - i,
    {
        let ghost before = copy@;
        let e = es[i].duplicate();
        copy.push(Box::new(e));
        proof {
            lemma_boxed_expr_views_push(before, Box::new(e));
            lemma_boxed_expr_views_push(es@.take(i as int), es@[i as int]);
            assert(es@.take(i + 1) =~= es@.take(i as int).push(es@[i as int]));
        }
        i += 1;
    }
    assert(es@.take(i as int) =~= es@);
    copy
}

/// A copy of each expression.
pub fn copy_exprs(es: &Vec<Expr>) -> (copy: Vec<Expr>)
    ensures
        expr_views(copy@) == expr_views(es@),
    decreases es,
{
    let mut copy: Vec<Expr> = Vec::new();
    let mut i: usize = 0;
    assert(es@.take(0) =~= copy@);
    while i < es.len()
        invariant
            i <= es.len(),
            expr_views(copy@) == expr_views(es@.take(i as int)),
        decreases es.len() - i,
    {
        let ghost before = copy@;
        let e = es[i].duplicate();
        copy.push(e);
        proof {
            lemma_expr_views_push(before, e);
            lemma_expr_views_push(es@.take(i as int), es@[i as int]);
            assert(es@.take(i + 1) =~= es@.take(i as int).push(es@[i as int]));
        }
        i += 1;
    }
    assert(es@.take(i as int) =~= es@);
    copy
}

/// A copy of each node.
pub fn copy_nodes(ns: &Vec<Node>) -> (copy: Vec<Node>)
    ensures
        node_views(copy@) == node_views(ns@),
    decreases ns,
{
    let mut copy: Vec<Node> = Vec::new();
    let mut i: usize = 0;
    assert(ns@.take(0) =~= copy@);
    while i < ns.len()
        invariant
            i <= ns.len(),
            node_views(copy@) == node_views(ns@.take(i as int)),
        decreases ns.len() - i,
    {
        let ghost before = copy@;
        let n = ns[i].duplicate();
        copy.push(n);
        proof {
            lemma_node_views_push(before, n);
            lemma_node_views_push(ns@.take(i as int), ns@[i as int]);
            assert(ns@.take(i + 1) =~= ns@.take(i as int).push(ns@[i as int]));
        }
        i += 1;
    }
    assert(ns@.take(i as int) =~= ns@);
    copy
}

impl Clone for TypeInfo {
    fn clone(&self) -> (copy: Self)
        ensures
            copy@ == self@,
    {
        match self {
            TypeInfo::Str => TypeInfo::Str,
            TypeInfo::Num => TypeInfo::Num,
            TypeInfo::Bool => TypeInfo::Bool,
            TypeInfo::Any => TypeInfo::Any,
            TypeInfo::Mapping => TypeInfo::Mapping,
            TypeInfo::List => TypeInfo::List,
            TypeInfo::Id(t) => TypeInfo::Id(t.clone()),
        }
    }
}

impl Expr {
    /// A copy of the expression.
    pub fn duplicate(&self) -> (copy: Expr)
        ensures
            copy@ == self@,
        decreases self,
    {
        match self {
            Expr::Binary { left, right, op } => Expr::Binary {
                left: Box::new(left.duplicate()),
                right: Box::new(right.duplicate()),
                op: op.clone(),
            },
            Expr::Group { expr } => Expr::Group { expr: Box::new(expr.duplicate()) },
            Expr::Unary { right, op } => Expr::Unary {
                right: Box::new(right.duplicate()),
                op: op.clone(),
            },
            Expr::Literal { kind, value } => Expr::Literal { kind: *kind, value: value.clone() },
            Expr::Logical { left, right, op } => Expr::Logical {
                left: Box::new(left.duplicate()),
                right: Box::new(right.duplicate()),
                op: op.clone(),
            },
            Expr::Variable { name } => Expr::Variable { name: name.clone() },
            Expr::Assign { name, value } => Expr::Assign {
                name: name.clone(),
                value: Box::new(value.duplicate()),
            },
            Expr::Call { callee, args, token } => Expr::Call {
                callee: Box::new(callee.duplicate()),
                args: copy_boxed_exprs(args),
                token: token.clone(),
            },
            Expr::Get { instance, token } => Expr::Get {
                instance: Box::new(instance.duplicate()),
                token: token.clone(),
            },
            Expr::SetMember { instance, token, value } => Expr::SetMember {
                instance: Box::new(instance.duplicate()),
                token: token.clone(),
                value: Box::new(value.duplicate()),
            },
            Expr::Access { token, expr, index } => Expr::Access {
                token: token.clone(),
                expr: Box::new(expr.duplicate()),
                index: Box::new(index.duplicate()),
            },
            Expr::Func { params, body } => Expr::Func {
                params: copy_tokens(params),
                body: copy_nodes(body),
            },
            Expr::Unknown => Expr::Unknown,
        }
    }
}

impl Stmt {
    /// A copy of the statement.
    pub fn duplicate(&self) -> (copy: Stmt)
        ensures
            copy@ == self@,
        decreases self,
    {
        match self {
            Stmt::Expr { expr } => Stmt::Expr { expr: expr.duplicate() },
            Stmt::Variable { name, init } => Stmt::Variable {
                name: name.clone(),
                init: init.duplicate(),
            },
            Stmt::If { condition, then_branch, els } => Stmt::If {
                condition: condition.duplicate(),
                then_branch: Box::new(then_branch.duplicate()),
                els: match els {
                    Some(e) => Some(Box::new(e.duplicate())),
                    None => None,
                },
            },
            Stmt::Block { statements } => Stmt::Block { statements: copy_nodes(statements) },
            Stmt::While { condition, body, token } => Stmt::While {
                condition: condition.duplicate(),
                body: Box::new(body.duplicate()),
                token: token.clone(),
            },
            Stmt::Func { token, func } => Stmt::Func {
                token: token.clone(),
                func: func.duplicate(),
            },
            Stmt::Return { token, values } => Stmt::Return {
                token: token.clone(),
                values: copy_exprs(values),
            },
            Stmt::Break => Stmt::Break,
            Stmt::Continue => Stmt::Continue,
            Stmt::Import { name, token } => Stmt::Import {
                name: name.duplicate(),
                token: token.clone(),
            },
            Stmt::Struct { token, fields, types } => Stmt::Struct {
                token: token.clone(),
                fields: copy_tokens(fields),
                types: copy_types(types),
            },
        }
    }
}

impl Node {
    /// A copy of the node.
    pub fn duplicate(&self) -> (copy: Node)
        ensures
            copy@ == self@,
        decreases self,
    {
        match self {
            Node::EXPR(e) => Node::EXPR(e.duplicate()),
            Node::STMT(s) => Node::STMT(s.duplicate()),
        }
    }
}

impl Clone for Expr {
    fn clone(&self) -> (copy: Self)
        ensures
            copy@ == self@,
    {
        self.duplicate()
    }
}

impl Clone for Stmt {
    fn clone(&self) -> (copy: Self)
        ensures
            copy@ == self@,
    {
        self.duplicate()
    }
}

impl Clone for Node {
    fn clone(&self) -> (copy: Self)
        ensures
            copy@ == self@,
    {
        self.duplicate()
    }
}

/// The views of no expressions, and of a single one.
pub proof fn lemma_boxed_expr_views_small(e: Box<Expr>)
    ensures
        boxed_expr_views(Seq::empty()) == Seq::<ExprView>::empty(),
        boxed_expr_views(seq![e]) == seq![expr_view(*e)],
{
    lemma_boxed_expr_views_push(Seq::empty(), e);
    assert(seq![e] =~= Seq::empty().push(e));
    assert(seq![expr_view(*e)] =~= Seq::empty().push(expr_view(*e)));
}

/// The views of no expressions, and of a single one.
pub proof fn lemma_expr_views_small(e: Expr)
    ensures
        expr_views(Seq::empty()) == Seq::<ExprView>::empty(),
        expr_views(seq![e]) == seq![expr_view(e)],
{
    lemma_expr_views_push(Seq::empty(), e);
    assert(seq![e] =~= Seq::empty().push(e));
    assert(seq![expr_view(e)] =~= Seq::empty().push(expr_view(e)));
}

/// The views of no nodes, of a single one and of two.
pub proof fn lemma_node_views_small(a: Node, b: Node)
    ensures
        node_views(Seq::empty()) == Seq::<NodeView>::empty(),
        node_views(seq![a]) == seq![node_view(a)],
        node_views(seq![a, b]) == seq![node_view(a), node_view(b)],
{
    lemma_node_views_push(Seq::empty(), a);
    lemma_node_views_push(seq![a], b);
    assert(seq![a] =~= Seq::empty().push(a));
    assert(seq![a, b] =~= seq![a].push(b));
    assert(seq![node_view(a)] =~= Seq::empty().push(node_view(a)));
    assert(seq![node_view(a), node_view(b)] =~= seq![node_view(a)].push(node_view(b)));
}

} // verus!
