//! The canonical printed form of a syntax tree.
//!
//! Every variant has one fixed template. Tokens are written by their text
//! where they have one and by the symbolic name of their kind otherwise, so
//! the printed form depends on the shape of the tree and never on source
//! positions.

use crate::ast::{
    boxed_expr_views, expr_view, expr_views, lemma_boxed_expr_views, lemma_boxed_expr_views_push,
    lemma_expr_views, lemma_expr_views_push, lemma_node_views, lemma_node_views_push, node_view,
    node_views, Expr, ExprView, Node, NodeView, Stmt, StmtView, TypeInfo, TypeInfoView,
};
use crate::token::{kind_name, Token, TokenType, TokenView};
use vstd::prelude::*;
use vstd::string::StringExecFns;

verus! {

/// The parts, in order, with `sep` between neighbours.
pub open spec fn join(parts: Seq<Seq<char>>, sep: Seq<char>) -> Seq<char>
    decreases parts.len(),
{
    if parts.len() == 0 {
        Seq::empty()
    } else if parts.len() == 1 {
        parts[0]
    } else {
        join(parts.drop_last(), sep) + sep + parts.last()
    }
}

/// Whether a literal of this kind has a printed form.
pub open spec fn literal_kind(kind: TokenType) -> bool {
    kind == TokenType::Str || kind == TokenType::Atom || kind == TokenType::Underscore || kind
        == TokenType::Num || kind == TokenType::False || kind == TokenType::True || kind
        == TokenType::Null
}

/// The printed form of a literal: strings in double quotes, atoms after a
/// colon, the underscore as `:_:`, and numbers, booleans and null by the
/// name of their kind.
pub open spec fn printed_literal(kind: TokenType, value: Seq<char>) -> Seq<char> {
    match kind {
        TokenType::Str => "\""@ + value + "\""@,
        TokenType::Atom => ":"@ + value,
        TokenType::Underscore => ":_:"@,
        _ => kind_name(kind),
    }
}

/// The printed form of each token.
pub open spec fn printed_tokens(ts: Seq<TokenView>) -> Seq<Seq<char>> {
    Seq::new(ts.len(), |i: int| ts[i].printed())
}

/// The printed form of each expression.
pub open spec fn printed_exprs(es: Seq<ExprView>) -> Seq<Seq<char>>
    decreases es,
{
    if es.len() == 0 {
        Seq::empty()
    } else {
        printed_exprs(es.drop_last()).push(es.last().printed())
    }
}

/// The printed form of each node.
pub open spec fn printed_nodes(ns: Seq<NodeView>) -> Seq<Seq<char>>
    decreases ns,
{
    if ns.len() == 0 {
        Seq::empty()
    } else {
        printed_nodes(ns.drop_last()).push(ns.last().printed())
    }
}

/// The printed form of each struct field with its type, `name:type`, for as
/// many fields as have a type.
pub open spec fn printed_fields(fields: Seq<TokenView>, types: Seq<TypeInfoView>) -> Seq<Seq<char>> {
    Seq::new(
        if fields.len() <= types.len() {
            fields.len()
        } else {
            types.len()
        },
        |i: int| fields[i].printed() + ":"@ + types[i].printed(),
    )
}

/// The printed form of a whole program: one node per line.
pub open spec fn printed_program(ns: Seq<NodeView>) -> Seq<char> {
    join(printed_nodes(ns), "\n"@)
}

/// Whether every expression of the sequence can be printed.
pub open spec fn printable_exprs(es: Seq<ExprView>) -> bool
    decreases es,
{
    es.len() == 0 || (printable_exprs(es.drop_last()) && es.last().printable())
}

/// Whether every node of the sequence can be printed.
pub open spec fn printable_nodes(ns: Seq<NodeView>) -> bool
    decreases ns,
{
    ns.len() == 0 || (printable_nodes(ns.drop_last()) && ns.last().printable())
}

impl TypeInfoView {
    /// The printed form of a type annotation.
    pub open spec fn printed(self) -> Seq<char> {
        match self {
            TypeInfoView::Str => "string"@,
            TypeInfoView::Num => "number"@,
            TypeInfoView::Bool => "bool"@,
            TypeInfoView::Any => "any"@,
            TypeInfoView::Mapping => "map"@,
            TypeInfoView::List => "list"@,
            TypeInfoView::Id(t) => t.printed(),
        }
    }
}

impl ExprView {
    /// The printed form of an expression.
    pub open spec fn printed(self) -> Seq<char>
        decreases self,
    {
        match self {
            ExprView::Binary { left, right, op } => "("@ + op.printed() + " "@ + left.printed()
                + " "@ + right.printed() + ")"@,
            ExprView::Group { expr } => "("@ + expr.printed() + ")"@,
            ExprView::Unary { right, op } => "("@ + op.printed() + " "@ + right.printed() + ")"@,
            ExprView::Literal { kind, value } => printed_literal(kind, value),
            ExprView::Logical { left, right, op } => "("@ + op.printed() + " "@ + left.printed()
                + " "@ + right.printed() + ")"@,
            ExprView::Variable { name } => name.printed(),
            ExprView::Assign { name, value } => "(assign "@ + name.printed() + " "@
                + value.printed() + ")"@,
            ExprView::Call { callee, args, token } => if args.len() > 0 {
                "("@ + callee.printed() + " "@ + join(printed_exprs(args), " "@) + ")"@
            } else {
                "("@ + callee.printed() + ")"@
            },
            ExprView::Get { instance, token } => instance.printed() + "."@ + token.printed(),
            ExprView::SetMember { instance, token, value } => "(set "@ + instance.printed() + "."@
                + token.printed() + " "@ + value.printed() + ")"@,
            ExprView::Access { token, expr, index } => "(.access "@ + expr.printed() + " "@
                + index.printed() + ")"@,
            ExprView::Func { params, body } => "(lambda ("@ + join(printed_tokens(params), " "@)
                + ") "@ + join(printed_nodes(body), " "@) + ")"@,
            ExprView::Unknown => "unknown"@,
        }
    }

    /// Whether the expression can be printed: every literal in it is a
    /// string, an atom, an underscore, a number, a boolean or null.
    pub open spec fn printable(self) -> bool
        decreases self,
    {
        match self {
            ExprView::Binary { left, right, op } => left.printable() && right.printable(),
            ExprView::Group { expr } => expr.printable(),
            ExprView::Unary { right, op } => right.printable(),
            ExprView::Literal { kind, value } => literal_kind(kind),
            ExprView::Logical { left, right, op } => left.printable() && right.printable(),
            ExprView::Variable { name } => true,
            ExprView::Assign { name, value } => value.printable(),
            ExprView::Call { callee, args, token } => callee.printable() && printable_exprs(args),
            ExprView::Get { instance, token } => instance.printable(),
            ExprView::SetMember { instance, token, value } => instance.printable()
                && value.printable(),
            ExprView::Access { token, expr, index } => expr.printable() && index.printable(),
            ExprView::Func { params, body } => printable_nodes(body),
            ExprView::Unknown => true,
        }
    }
}

impl StmtView {
    /// The printed form of a statement.
    pub open spec fn printed(self) -> Seq<char>
        decreases self,
    {
        match self {
            StmtView::Expr { expr } => expr.printed(),
            StmtView::Variable { name, init } => "(var "@ + name.printed() + " "@ + init.printed()
                + ")"@,
            StmtView::If { condition, then_branch, els } => match els {
                Some(e) => "(if ("@ + condition.printed() + ") "@ + then_branch.printed()
                    + e.printed() + ")"@,
                None => "(if ("@ + condition.printed() + ") "@ + then_branch.printed() + ")"@,
            },
            StmtView::Block { statements } => {
                let inner = join(printed_nodes(statements), " "@);
                if inner.len() == 0 {
                    "(block"@ + ")"@
                } else {
                    "(block"@ + " "@ + inner + ")"@
                }
            },
            StmtView::While { condition, body, token } => "(while ("@ + condition.printed()
                + ") "@ + body.printed() + ")"@,
            StmtView::Func { token, func } => "(func "@ + token.printed() + " "@ + func.printed()
                + ")"@,
            StmtView::Return { token, values } => "(return "@ + join(printed_exprs(values), " "@)
                + ")"@,
            StmtView::Break => "(break)"@,
            StmtView::Continue => "(continue)"@,
            StmtView::Import { name, token } => "(import "@ + name.printed() + ")"@,
            StmtView::Struct { token, fields, types } => if fields.len() > 0 && types.len() > 0 {
                "(struct "@ + token.printed() + " "@ + join(printed_fields(fields, types), " "@)
                    + ")"@
            } else {
                "(struct "@ + token.printed() + ")"@
            },
        }
    }

    /// Whether the statement can be printed.
    pub open spec fn printable(self) -> bool
        decreases self,
    {
        match self {
            StmtView::Expr { expr } => expr.printable(),
            StmtView::Variable { name, init } => init.printable(),
            StmtView::If { condition, then_branch, els } => condition.printable()
                && then_branch.printable() && (match els {
                Some(e) => e.printable(),
                None => true,
            }),
            StmtView::Block { statements } => printable_nodes(statements),
            StmtView::While { condition, body, token } => condition.printable()
                && body.printable(),
            StmtView::Func { token, func } => func.printable(),
            StmtView::Return { token, values } => printable_exprs(values),
            StmtView::Break => true,
            StmtView::Continue => true,
            StmtView::Import { name, token } => name.printable(),
            StmtView::Struct { token, fields, types } => true,
        }
    }
}

impl NodeView {
    /// The printed form of a node.
    pub open spec fn printed(self) -> Seq<char>
        decreases self,
    {
        match self {
            NodeView::EXPR(e) => e.printed(),
            NodeView::STMT(s) => s.printed(),
        }
    }

    /// Whether the node can be printed.
    pub open spec fn printable(self) -> bool
        decreases self,
    {
        match self {
            NodeView::EXPR(e) => e.printable(),
            NodeView::STMT(s) => s.printable(),
        }
    }
}

/// Joining one more part: the first part stands alone, every later one
/// follows a separator.
pub proof fn lemma_join_take(parts: Seq<Seq<char>>, sep: Seq<char>, i: int)
    requires
        0 <= i < parts.len(),
    ensures
        join(parts.take(i + 1), sep) == if i == 0 {
            parts[0]
        } else {
            join(parts.take(i), sep) + sep + parts[i]
        },
{
    let t = parts.take(i + 1);
    assert(t.last() == parts[i]);
    assert(t.drop_last() =~= parts.take(i));
    if i == 0 {
        assert(t[0] == parts[0]);
    }
}

/// A sequence of expressions is printable exactly when each one is.
pub proof fn lemma_printable_exprs(es: Seq<ExprView>)
    ensures
        printable_exprs(es) <==> forall|i: int| 0 <= i < es.len() ==> (#[trigger] es[i]).printable(),
    decreases es.len(),
{
    if es.len() > 0 {
        let front = es.drop_last();
        lemma_printable_exprs(front);
        if printable_exprs(es) {
            assert forall|i: int| 0 <= i < es.len() implies (#[trigger] es[i]).printable() by {
                if i < front.len() {
                    assert(front[i] == es[i]);
                }
            }
        }
        if forall|i: int| 0 <= i < es.len() ==> (#[trigger] es[i]).printable() {
            assert forall|i: int| 0 <= i < front.len() implies (#[trigger] front[i]).printable() by {
                assert(front[i] == es[i]);
            }
            assert(es.last() == es[es.len() - 1]);
        }
    }
}

/// A sequence of nodes is printable exactly when each one is.
pub proof fn lemma_printable_nodes(ns: Seq<NodeView>)
    ensures
        printable_nodes(ns) <==> forall|i: int| 0 <= i < ns.len() ==> (#[trigger] ns[i]).printable(),
    decreases ns.len(),
{
    if ns.len() > 0 {
        let front = ns.drop_last();
        lemma_printable_nodes(front);
        if printable_nodes(ns) {
            assert forall|i: int| 0 <= i < ns.len() implies (#[trigger] ns[i]).printable() by {
                if i < front.len() {
                    assert(front[i] == ns[i]);
                }
            }
        }
        if forall|i: int| 0 <= i < ns.len() ==> (#[trigger] ns[i]).printable() {
            assert forall|i: int| 0 <= i < front.len() implies (#[trigger] front[i]).printable() by {
                assert(front[i] == ns[i]);
            }
            assert(ns.last() == ns[ns.len() - 1]);
        }
    }
}

/// Appending a printable expression keeps a sequence printable.
pub proof fn lemma_printable_exprs_push(es: Seq<ExprView>, e: ExprView)
    requires
        printable_exprs(es),
        e.printable(),
    ensures
        printable_exprs(es.push(e)),
{
    assert(es.push(e).drop_last() =~= es);
}

/// Appending a printable node keeps a sequence printable.
pub proof fn lemma_printable_nodes_push(ns: Seq<NodeView>, n: NodeView)
    requires
        printable_nodes(ns),
        n.printable(),
    ensures
        printable_nodes(ns.push(n)),
{
    assert(ns.push(n).drop_last() =~= ns);
}

/// Appending an expression appends its printed form.
pub proof fn lemma_printed_exprs_push(es: Seq<ExprView>, e: ExprView)
    ensures
        printed_exprs(es.push(e)) == printed_exprs(es).push(e.printed()),
{
    assert(es.push(e).drop_last() =~= es);
}

/// Appending a node appends its printed form.
pub proof fn lemma_printed_nodes_push(ns: Seq<NodeView>, n: NodeView)
    ensures
        printed_nodes(ns.push(n)) == printed_nodes(ns).push(n.printed()),
{
    assert(ns.push(n).drop_last() =~= ns);
}

/// The strings, in order, with `sep` between neighbours.
pub fn join_strings(parts: &Vec<String>, sep: &str) -> (s: String)
    ensures
        s@ == join(parts.deep_view(), sep@),
{
    let mut out = String::new();
    let mut i: usize = 0;
    while i < parts.len()
        invariant
            i <= parts.len(),
            out@ == join(parts.deep_view().take(i as int), sep@),
        decreases parts.len() - i,
    {
        proof {
            lemma_join_take(parts.deep_view(), sep@, i as int);
        }
        if i > 0 {
            out.append(sep);
        }
        out.append(parts[i].as_str());
        i += 1;
    }
    assert(parts.deep_view().take(i as int) =~= parts.deep_view());
    out
}

/// The printed tokens, separated by `sep`.
pub fn print_tokens(tokens: &Vec<Token>, sep: &str) -> (s: String)
    ensures
        s@ == join(printed_tokens(tokens.deep_view()), sep@),
{
    let mut parts: Vec<String> = Vec::new();
    let mut i: usize = 0;
    while i < tokens.len()
        invariant
            i <= tokens.len(),
            parts.deep_view() == printed_tokens(tokens.deep_view()).take(i as int),
        decreases tokens.len() - i,
    {
        let ghost before = parts.deep_view();
        let part = tokens[i].print();
        parts.push(part);
        proof {
            let whole = printed_tokens(tokens.deep_view());
            assert(parts.deep_view() =~= before.push(part@));
            assert(whole[i as int] == part@);
            assert(whole.take(i + 1) =~= whole.take(i as int).push(whole[i as int]));
        }
        i += 1;
    }
    assert(printed_tokens(tokens.deep_view()).take(i as int) =~= printed_tokens(
        tokens.deep_view(),
    ));
    join_strings(&parts, sep)
}

/// The printed fields with their types, separated by a space.
pub fn print_fields(fields: &Vec<Token>, types: &Vec<TypeInfo>) -> (s: String)
    ensures
        s@ == join(printed_fields(fields.deep_view(), types.deep_view()), " "@),
{
    let n = if fields.len() <= types.len() {
        fields.len()
    } else {
        types.len()
    };
    let mut parts: Vec<String> = Vec::new();
    let mut i: usize = 0;
    while i < n
        invariant
            i <= n,
            n <= fields.len(),
            n <= types.len(),
            n == fields.len() || n == types.len(),
            parts.deep_view() == printed_fields(fields.deep_view(), types.deep_view()).take(
                i as int,
            ),
        decreases n - i,
    {
        let mut part = fields[i].print();
        part.append(":");
        part.append(types[i].print().as_str());
        let ghost before = parts.deep_view();
        parts.push(part);
        proof {
            let whole = printed_fields(fields.deep_view(), types.deep_view());
            assert(parts.deep_view() =~= before.push(part@));
            assert(whole[i as int] == part@);
            assert(whole.take(i + 1) =~= whole.take(i as int).push(whole[i as int]));
        }
        i += 1;
    }
    assert(printed_fields(fields.deep_view(), types.deep_view()).take(i as int)
        =~= printed_fields(fields.deep_view(), types.deep_view()));
    join_strings(&parts, " ")
}

/// The printed expressions, separated by `sep`.
pub fn print_boxed_exprs(args: &Vec<Box<Expr>>, sep: &str) -> (s: String)
    requires
        printable_exprs(boxed_expr_views(args@)),
    ensures
        s@ == join(printed_exprs(boxed_expr_views(args@)), sep@),
    decreases args,
{
    let mut parts: Vec<String> = Vec::new();
    let mut i: usize = 0;
    proof {
        lemma_boxed_expr_views(args@);
        lemma_printable_exprs(boxed_expr_views(args@));
        assert(parts.deep_view() =~= printed_exprs(boxed_expr_views(args@.take(0))));
    }
    while i < args.len()
        invariant
            i <= args.len(),
            forall|k: int| 0 <= k < args.len() ==> expr_view(*#[trigger] args@[k]).printable(),
            parts.deep_view() == printed_exprs(boxed_expr_views(args@.take(i as int))),
        decreases args.len() - i,
    {
        let ghost before = parts.deep_view();
        let part = args[i].print();
        parts.push(part);
        proof {
            let done = args@.take(i as int);
            assert(parts.deep_view() =~= before.push(part@));
            assert(args@.take(i + 1) =~= done.push(args@[i as int]));
            lemma_boxed_expr_views_push(done, args@[i as int]);
            lemma_printed_exprs_push(boxed_expr_views(done), expr_view(*args@[i as int]));
        }
        i += 1;
    }
    assert(args@.take(i as int) =~= args@);
    join_strings(&parts, sep)
}

/// The printed expressions, separated by `sep`.
pub fn print_exprs(values: &Vec<Expr>, sep: &str) -> (s: String)
    requires
        printable_exprs(expr_views(values@)),
    ensures
        s@ == join(printed_exprs(expr_views(values@)), sep@),
    decreases values,
{
    let mut parts: Vec<String> = Vec::new();
    let mut i: usize = 0;
    proof {
        lemma_expr_views(values@);
        lemma_printable_exprs(expr_views(values@));
        assert(parts.deep_view() =~= printed_exprs(expr_views(values@.take(0))));
    }
    while i < values.len()
        invariant
            i <= values.len(),
            forall|k: int| 0 <= k < values.len() ==> expr_view(#[trigger] values@[k]).printable(),
            parts.deep_view() == printed_exprs(expr_views(values@.take(i as int))),
        decreases values.len() - i,
    {
        let ghost before = parts.deep_view();
        let part = values[i].print();
        parts.push(part);
        proof {
            let done = values@.take(i as int);
            assert(parts.deep_view() =~= before.push(part@));
            assert(values@.take(i + 1) =~= done.push(values@[i as int]));
            lemma_expr_views_push(done, values@[i as int]);
            lemma_printed_exprs_push(expr_views(done), expr_view(values@[i as int]));
        }
        i += 1;
    }
    assert(values@.take(i as int) =~= values@);
    join_strings(&parts, sep)
}

/// The printed nodes, separated by `sep`.
pub fn print_nodes(nodes: &Vec<Node>, sep: &str) -> (s: String)
    requires
        printable_nodes(node_views(nodes@)),
    ensures
        s@ == join(printed_nodes(node_views(nodes@)), sep@),
    decreases nodes,
{
    let mut parts: Vec<String> = Vec::new();
    let mut i: usize = 0;
    proof {
        lemma_node_views(nodes@);
        lemma_printable_nodes(node_views(nodes@));
        assert(parts.deep_view() =~= printed_nodes(node_views(nodes@.take(0))));
    }
    while i < nodes.len()
        invariant
            i <= nodes.len(),
            forall|k: int| 0 <= k < nodes.len() ==> node_view(#[trigger] nodes@[k]).printable(),
            parts.deep_view() == printed_nodes(node_views(nodes@.take(i as int))),
        decreases nodes.len() - i,
    {
        let ghost before = parts.deep_view();
        let part = nodes[i].print();
        parts.push(part);
        proof {
            let done = nodes@.take(i as int);
            assert(parts.deep_view() =~= before.push(part@));
            assert(nodes@.take(i + 1) =~= done.push(nodes@[i as int]));
            lemma_node_views_push(done, nodes@[i as int]);
            lemma_printed_nodes_push(node_views(done), node_view(nodes@[i as int]));
        }
        i += 1;
    }
    assert(nodes@.take(i as int) =~= nodes@);
    join_strings(&parts, sep)
}

impl TypeInfo {
    /// The printed form of the type annotation.
    pub fn print(&self) -> (s: String)
        ensures
            s@ == self@.printed(),
    {
        match self {
            TypeInfo::Str => String::from_str("string"),
            TypeInfo::Num => String::from_str("number"),
            TypeInfo::Bool => String::from_str("bool"),
            TypeInfo::Any => String::from_str("any"),
            TypeInfo::Mapping => String::from_str("map"),
            TypeInfo::List => String::from_str("list"),
            TypeInfo::Id(t) => t.print(),
        }
    }
}

impl Node {
    /// The printed form of a program: each node on a line of its own.
    pub fn pretty_print(nodes: &Vec<Node>) -> (s: String)
        requires
            printable_nodes(node_views(nodes@)),
        ensures
            s@ == printed_program(node_views(nodes@)),
    {
        print_nodes(nodes, "\n")
    }

    /// The printed form of the node.
    pub fn print(&self) -> (s: String)
        requires
            self@.printable(),
        ensures
            s@ == self@.printed(),
        decreases self,
    {
        match self {
            Node::EXPR(expr) => expr.print(),
            Node::STMT(stmt) => stmt.print(),
        }
    }
}

impl Expr {
    /// The printed form of the expression.
    pub fn print(&self) -> (s: String)
        requires
            self@.printable(),
        ensures
            s@ == self@.printed(),
        decreases self,
    {
        match self {
            Expr::Binary { left, right, op } => {
                let mut s = String::from_str("(");
                s.append(op.print().as_str());
                s.append(" ");
                s.append(left.print().as_str());
                s.append(" ");
                s.append(right.print().as_str());
                s.append(")");
                s
            },
            Expr::Group { expr } => {
                let mut s = String::from_str("(");
                s.append(expr.print().as_str());
                s.append(")");
                s
            },
            Expr::Unary { right, op } => {
                let mut s = String::from_str("(");
                s.append(op.print().as_str());
                s.append(" ");
                s.append(right.print().as_str());
                s.append(")");
                s
            },
            Expr::Literal { kind, value } => match kind {
                TokenType::Str => {
                    let mut s = String::from_str("\"");
                    s.append(value.as_str());
                    s.append("\"");
                    s
                },
                TokenType::Atom => {
                    let mut s = String::from_str(":");
                    s.append(value.as_str());
                    s
                },
                TokenType::Underscore => String::from_str(":_:"),
                _ => String::from_str(kind.name()),
            },
            Expr::Logical { left, right, op } => {
                let mut s = String::from_str("(");
                s.append(op.print().as_str());
                s.append(" ");
                s.append(left.print().as_str());
                s.append(" ");
                s.append(right.print().as_str());
                s.append(")");
                s
            },
            Expr::Variable { name } => name.print(),
            Expr::Assign { name, value } => {
                let mut s = String::from_str("(assign ");
                s.append(name.print().as_str());
                s.append(" ");
                s.append(value.print().as_str());
                s.append(")");
                s
            },
            Expr::Call { callee, args, token: _ } => {
                let mut s = String::from_str("(");
                s.append(callee.print().as_str());
                proof {
                    lemma_boxed_expr_views(args@);
                }
                if args.len() > 0 {
                    s.append(" ");
                    s.append(print_boxed_exprs(args, " ").as_str());
                    s.append(")");
                } else {
                    s.append(")");
                }
                s
            },
            Expr::Get { instance, token } => {
                let mut s = instance.print();
                s.append(".");
                s.append(token.print().as_str());
                s
            },
            Expr::SetMember { instance, token, value } => {
                let mut s = String::from_str("(set ");
                s.append(instance.print().as_str());
                s.append(".");
                s.append(token.print().as_str());
                s.append(" ");
                s.append(value.print().as_str());
                s.append(")");
                s
            },
            Expr::Access { token: _, expr, index } => {
                let mut s = String::from_str("(.access ");
                s.append(expr.print().as_str());
                s.append(" ");
                s.append(index.print().as_str());
                s.append(")");
                s
            },
            Expr::Func { params, body } => {
                let mut s = String::from_str("(lambda (");
                s.append(print_tokens(params, " ").as_str());
                s.append(") ");
                s.append(print_nodes(body, " ").as_str());
                s.append(")");
                s
            },
            Expr::Unknown => String::from_str("unknown"),
        }
    }
}

impl Stmt {
    /// The printed form of the statement.
        pub fn print(&self) -> (s: String)
        requires
            self@.printable(),
        ensures
            s@ == self@.printed(),
        decreases self,
    {
        match self {
            Stmt::Expr { expr } => expr.print(),
            Stmt::Variable { name, init } => {
                let mut s = String::from_str("(var ");
                s.append(name.print().as_str());
                s.append(" ");
                s.append(init.print().as_str());
                s.append(")");
                s
            },
            Stmt::If { condition, then_branch, els } => {
                let mut s = String::from_str("(if (");
                s.append(condition.print().as_str());
                s.append(") ");
                s.append(then_branch.print().as_str());
                match els {
                    Some(e) => {
                        s.append(e.print().as_str());
                    },
                    None => {},
                }
                s.append(")");
                s
            },
            Stmt::Block { statements } => {
                let inner = print_nodes(statements, " ");
                let mut s = String::from_str("(block");
                if !inner.as_str().is_empty() {
                    s.append(" ");
                    s.append(inner.as_str());
                }
                s.append(")");
                s
            },
            Stmt::While { condition, body, token: _ } => {
                let mut s = String::from_str("(while (");
                s.append(condition.print().as_str());
                s.append(") ");
                s.append(body.print().as_str());
                s.append(")");
                s
            },
            Stmt::Func { token, func } => {
                let mut s = String::from_str("(func ");
                s.append(token.print().as_str());
                s.append(" ");
                s.append(func.print().as_str());
                s.append(")");
                s
            },
            Stmt::Return { token: _, values } => {
                let mut s = String::from_str("(return ");
                s.append(print_exprs(values, " ").as_str());
                s.append(")");
                s
            },
            Stmt::Break => String::from_str("(break)"),
            Stmt::Continue => String::from_str("(continue)"),
            Stmt::Import { name, token: _ } => {
                let mut s = String::from_str("(import ");
                s.append(name.print().as_str());
                s.append(")");
                s
            },
            Stmt::Struct { token, fields, types } => {
                let mut s = String::from_str("(struct ");
                s.append(token.print().as_str());
                if fields.len() > 0 && types.len() > 0 {
                    s.append(" ");
                    s.append(print_fields(fields, types).as_str());
                }
                s.append(")");
                s
            },
        }
    }
}

/// Whether a literal of this kind has a printed form.
pub fn is_literal_kind(kind: TokenType) -> (can: bool)
    ensures
        can == literal_kind(kind),
{
    match kind {
        TokenType::Str | TokenType::Atom | TokenType::Underscore | TokenType::Num
        | TokenType::False | TokenType::True | TokenType::Null => true,
        _ => false,
    }
}

/// Whether every expression can be printed.
pub fn can_print_boxed_exprs(args: &Vec<Box<Expr>>) -> (can: bool)
    ensures
        can == printable_exprs(boxed_expr_views(args@)),
    decreases args,
{
    let mut i: usize = 0;
    proof {
        lemma_boxed_expr_views(args@);
        lemma_printable_exprs(boxed_expr_views(args@));
    }
    while i < args.len()
        invariant
            i <= args.len(),
            boxed_expr_views(args@).len() == args@.len(),
            forall|k: int| 0 <= k < args@.len() ==> boxed_expr_views(args@)[k] == expr_view(*args@[k]),
            printable_exprs(boxed_expr_views(args@)) <==> forall|k: int|
                0 <= k < boxed_expr_views(args@).len() ==> (#[trigger] boxed_expr_views(
                    args@,
                )[k]).printable(),
            forall|k: int| 0 <= k < i ==> (#[trigger] boxed_expr_views(args@)[k]).printable(),
        decreases args.len() - i,
    {
        if !args[i].can_print() {
            assert(!boxed_expr_views(args@)[i as int].printable());
            return false;
        }
        i += 1;
    }
    true
}

/// Whether every expression can be printed.
pub fn can_print_exprs(values: &Vec<Expr>) -> (can: bool)
    ensures
        can == printable_exprs(expr_views(values@)),
    decreases values,
{
    let mut i: usize = 0;
    proof {
        lemma_expr_views(values@);
        lemma_printable_exprs(expr_views(values@));
    }
    while i < values.len()
        invariant
            i <= values.len(),
            expr_views(values@).len() == values@.len(),
            forall|k: int| 0 <= k < values@.len() ==> expr_views(values@)[k] == expr_view(values@[k]),
            printable_exprs(expr_views(values@)) <==> forall|k: int|
                0 <= k < expr_views(values@).len() ==> (#[trigger] expr_views(
                    values@,
                )[k]).printable(),
            forall|k: int| 0 <= k < i ==> (#[trigger] expr_views(values@)[k]).printable(),
        decreases values.len() - i,
    {
        if !values[i].can_print() {
            assert(!expr_views(values@)[i as int].printable());
            return false;
        }
        i += 1;
    }
    true
}

/// Whether every node can be printed.
pub fn can_print_nodes(nodes: &Vec<Node>) -> (can: bool)
    ensures
        can == printable_nodes(node_views(nodes@)),
    decreases nodes,
{
    let mut i: usize = 0;
    proof {
        lemma_node_views(nodes@);
        lemma_printable_nodes(node_views(nodes@));
    }
    while i < nodes.len()
        invariant
            i <= nodes.len(),
            node_views(nodes@).len() == nodes@.len(),
            forall|k: int| 0 <= k < nodes@.len() ==> node_views(nodes@)[k] == node_view(nodes@[k]),
            printable_nodes(node_views(nodes@)) <==> forall|k: int|
                0 <= k < node_views(nodes@).len() ==> (#[trigger] node_views(
                    nodes@,
                )[k]).printable(),
            forall|k: int| 0 <= k < i ==> (#[trigger] node_views(nodes@)[k]).printable(),
        decreases nodes.len() - i,
    {
        if !nodes[i].can_print() {
            assert(!node_views(nodes@)[i as int].printable());
            return false;
        }
        i += 1;
    }
    true
}

impl Expr {
    /// Whether the expression can be printed.
    pub fn can_print(&self) -> (can: bool)
        ensures
            can == self@.printable(),
        decreases self,
    {
        match self {
            Expr::Binary { left, right, op: _ } => left.can_print() && right.can_print(),
            Expr::Group { expr } => expr.can_print(),
            Expr::Unary { right, op: _ } => right.can_print(),
            Expr::Literal { kind, value: _ } => is_literal_kind(*kind),
            Expr::Logical { left, right, op: _ } => left.can_print() && right.can_print(),
            Expr::Variable { name: _ } => true,
            Expr::Assign { name: _, value } => value.can_print(),
            Expr::Call { callee, args, token: _ } => callee.can_print() && can_print_boxed_exprs(
                args,
            ),
            Expr::Get { instance, token: _ } => instance.can_print(),
            Expr::SetMember { instance, token: _, value } => instance.can_print()
                && value.can_print(),
            Expr::Access { token: _, expr, index } => expr.can_print() && index.can_print(),
            Expr::Func { params: _, body } => can_print_nodes(body),
            Expr::Unknown => true,
        }
    }
}

impl Stmt {
    /// Whether the statement can be printed.
    pub fn can_print(&self) -> (can: bool)
        ensures
            can == self@.printable(),
        decreases self,
    {
        match self {
            Stmt::Expr { expr } => expr.can_print(),
            Stmt::Variable { name: _, init } => init.can_print(),
            Stmt::If { condition, then_branch, els } => condition.can_print()
                && then_branch.can_print() && (match els {
                Some(e) => e.can_print(),
                None => true,
            }),
            Stmt::Block { statements } => can_print_nodes(statements),
            Stmt::While { condition, body, token: _ } => condition.can_print()
                && body.can_print(),
            Stmt::Func { token: _, func } => func.can_print(),
            Stmt::Return { token: _, values } => can_print_exprs(values),
            Stmt::Break => true,
            Stmt::Continue => true,
            Stmt::Import { name, token: _ } => name.can_print(),
            Stmt::Struct { token: _, fields: _, types: _ } => true,
        }
    }
}

impl Node {
    /// Whether the node can be printed.
    pub fn can_print(&self) -> (can: bool)
        ensures
            can == self@.printable(),
        decreases self,
    {
        match self {
            Node::EXPR(expr) => expr.can_print(),
            Node::STMT(stmt) => stmt.can_print(),
        }
    }
}

} // verus!
