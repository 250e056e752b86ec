use script_parser::ast::{Expr, Node, Stmt, TypeInfo};
use script_parser::printer::join_strings;
use script_parser::token::{Token, TokenType};

fn id(name: &str) -> Token {
    Token::new(TokenType::Id, String::from(name), 1, 1)
}

fn op(kind: TokenType) -> Token {
    Token::new(kind, String::new(), 1, 1)
}

fn var(name: &str) -> Expr {
    Expr::Variable { name: id(name) }
}

fn num(text: &str) -> Expr {
    Expr::Literal { kind: TokenType::Num, value: String::from(text) }
}

fn boxed(expr: Expr) -> Box<Expr> {
    Box::new(expr)
}

#[test]
fn token_prints_its_text_or_the_name_of_its_kind() {
    assert_eq!(id("abc").print(), "abc");
    assert_eq!(op(TokenType::Plus).print(), "Plus");
    assert_eq!(op(TokenType::EOF).print(), "EOF");
    assert_eq!(Token::new(TokenType::Num, String::from("1.5"), 3, 4).print(), "1.5");
    assert_eq!(Token::new(TokenType::Str, String::new(), 3, 4).print(), "Str");
}

#[test]
fn every_kind_has_its_name() {
    let kinds = [
        (TokenType::LParen, "LParen"),
        (TokenType::RParen, "RParen"),
        (TokenType::LBrace, "LBrace"),
        (TokenType::RBrace, "RBrace"),
        (TokenType::LBracket, "LBracket"),
        (TokenType::RBracket, "RBracket"),
        (TokenType::Colon, "Colon"),
        (TokenType::SColon, "SColon"),
        (TokenType::At, "At"),
        (TokenType::Caret, "Caret"),
        (TokenType::Comma, "Comma"),
        (TokenType::Dot, "Dot"),
        (TokenType::Plus, "Plus"),
        (TokenType::Minus, "Minus"),
        (TokenType::Mul, "Mul"),
        (TokenType::Div, "Div"),
        (TokenType::Mod, "Mod"),
        (TokenType::Bang, "Bang"),
        (TokenType::Equal, "Equal"),
        (TokenType::LT, "LT"),
        (TokenType::GT, "GT"),
        (TokenType::DPlus, "DPlus"),
        (TokenType::DMinus, "DMinus"),
        (TokenType::PlusEq, "PlusEq"),
        (TokenType::MinusEq, "MinusEq"),
        (TokenType::MulEq, "MulEq"),
        (TokenType::DivEq, "DivEq"),
        (TokenType::ModEq, "ModEq"),
        (TokenType::RPipe, "RPipe"),
        (TokenType::LPipe, "LPipe"),
        (TokenType::DPipe, "DPipe"),
        (TokenType::DAmp, "DAmp"),
        (TokenType::LTEq, "LTEq"),
        (TokenType::GTEq, "GTEq"),
        (TokenType::BangEq, "BangEq"),
        (TokenType::DEq, "DEq"),
        (TokenType::Num, "Num"),
        (TokenType::Str, "Str"),
        (TokenType::True, "True"),
        (TokenType::False, "False"),
        (TokenType::Null, "Null"),
        (TokenType::Id, "Id"),
        (TokenType::Atom, "Atom"),
        (TokenType::Underscore, "Underscore"),
        (TokenType::Func, "Func"),
        (TokenType::Class, "Class"),
        (TokenType::Static, "Static"),
        (TokenType::Var, "Var"),
        (TokenType::Const, "Const"),
        (TokenType::If, "If"),
        (TokenType::Else, "Else"),
        (TokenType::For, "For"),
        (TokenType::While, "While"),
        (TokenType::Super, "Super"),
        (TokenType::This, "This"),
        (TokenType::Return, "Return"),
        (TokenType::Continue, "Continue"),
        (TokenType::Break, "Break"),
        (TokenType::Import, "Import"),
        (TokenType::Struct, "Struct"),
        (TokenType::And, "And"),
        (TokenType::Or, "Or"),
        (TokenType::EOF, "EOF"),
    ];
    for (kind, name) in kinds {
        assert_eq!(kind.name(), name);
        assert_eq!(format!("{:?}", kind), name);
    }
}

#[test]
fn token_new_keeps_its_parts() {
    let token = Token::new(TokenType::Id, String::from("x"), 7, 9);
    assert_eq!(token.kind, TokenType::Id);
    assert_eq!(token.value, "x");
    assert_eq!(token.position, (7, 9));
    assert_eq!(token.clone(), token);
}

#[test]
fn type_info_prints_its_keyword_or_its_name() {
    assert_eq!(TypeInfo::Str.print(), "string");
    assert_eq!(TypeInfo::Num.print(), "number");
    assert_eq!(TypeInfo::Bool.print(), "bool");
    assert_eq!(TypeInfo::Any.print(), "any");
    assert_eq!(TypeInfo::Mapping.print(), "map");
    assert_eq!(TypeInfo::List.print(), "list");
    assert_eq!(TypeInfo::Id(id("Person")).print(), "Person");
}

#[test]
fn literal_prints_by_its_kind() {
    let literal = |kind, value: &str| Expr::Literal { kind, value: String::from(value) };
    assert_eq!(literal(TokenType::Str, "a b").print(), "\"a b\"");
    assert_eq!(literal(TokenType::Str, "").print(), "\"\"");
    assert_eq!(literal(TokenType::Atom, "ok").print(), ":ok");
    assert_eq!(literal(TokenType::Underscore, "").print(), ":_:");
    assert_eq!(literal(TokenType::Underscore, "ignored").print(), ":_:");
    assert_eq!(literal(TokenType::Num, "42").print(), "Num");
    assert_eq!(literal(TokenType::True, "").print(), "True");
    assert_eq!(literal(TokenType::False, "").print(), "False");
    assert_eq!(literal(TokenType::Null, "").print(), "Null");
}

#[test]
fn expression_templates() {
    assert_eq!(
        Expr::Binary { left: boxed(var("a")), right: boxed(num("1")), op: op(TokenType::Plus) }
            .print(),
        "(Plus a Num)"
    );
    assert_eq!(
        Expr::Logical { left: boxed(var("a")), right: boxed(var("b")), op: op(TokenType::DAmp) }
            .print(),
        "(DAmp a b)"
    );
    assert_eq!(Expr::Group { expr: boxed(var("a")) }.print(), "(a)");
    assert_eq!(Expr::Unary { right: boxed(var("a")), op: op(TokenType::Bang) }.print(), "(Bang a)");
    assert_eq!(var("a").print(), "a");
    assert_eq!(Expr::Assign { name: id("x"), value: boxed(num("1")) }.print(), "(assign x Num)");
    assert_eq!(Expr::Get { instance: boxed(var("a")), token: id("b") }.print(), "a.b");
    assert_eq!(
        Expr::SetMember { instance: boxed(var("a")), token: id("b"), value: boxed(num("1")) }
            .print(),
        "(set a.b Num)"
    );
    assert_eq!(
        Expr::Access {
            token: op(TokenType::LBracket),
            expr: boxed(var("a")),
            index: boxed(num("0"))
        }
        .print(),
        "(.access a Num)"
    );
    assert_eq!(Expr::Unknown.print(), "unknown");
}

#[test]
fn call_template() {
    let call = |args: Vec<Box<Expr>>| Expr::Call {
        callee: boxed(var("f")),
        args,
        token: op(TokenType::RParen),
    };
    assert_eq!(call(vec![]).print(), "(f)");
    assert_eq!(call(vec![boxed(var("a"))]).print(), "(f a)");
    assert_eq!(call(vec![boxed(var("a")), boxed(num("1")), boxed(var("b"))]).print(), "(f a Num b)");
}

#[test]
fn function_template() {
    let function = |params: Vec<Token>, body: Vec<Node>| Expr::Func { params, body };
    assert_eq!(function(vec![], vec![]).print(), "(lambda () )");
    assert_eq!(
        function(vec![id("x"), id("y")], vec![Node::EXPR(var("x")), Node::EXPR(var("y"))]).print(),
        "(lambda (x y) x y)"
    );
}

#[test]
fn statement_templates() {
    assert_eq!(Stmt::Expr { expr: var("a") }.print(), "a");
    assert_eq!(Stmt::Variable { name: id("x"), init: num("1") }.print(), "(var x Num)");
    assert_eq!(Stmt::Break.print(), "(break)");
    assert_eq!(Stmt::Continue.print(), "(continue)");
    assert_eq!(
        Stmt::Import { name: var("m"), token: op(TokenType::Import) }.print(),
        "(import m)"
    );
    assert_eq!(
        Stmt::Func {
            token: id("f"),
            func: Expr::Func { params: vec![id("x")], body: vec![Node::EXPR(var("x"))] }
        }
        .print(),
        "(func f (lambda (x) x))"
    );
    assert_eq!(
        Stmt::While {
            condition: var("c"),
            body: Box::new(Node::EXPR(var("b"))),
            token: op(TokenType::While)
        }
        .print(),
        "(while (c) b)"
    );
}

#[test]
fn if_template_puts_nothing_between_the_branches() {
    let then_branch = || Box::new(Node::EXPR(var("t")));
    assert_eq!(
        Stmt::If { condition: var("c"), then_branch: then_branch(), els: None }.print(),
        "(if (c) t)"
    );
    assert_eq!(
        Stmt::If {
            condition: var("c"),
            then_branch: then_branch(),
            els: Some(Box::new(Node::EXPR(var("e"))))
        }
        .print(),
        "(if (c) te)"
    );
}

#[test]
fn block_template() {
    assert_eq!(Stmt::Block { statements: vec![] }.print(), "(block)");
    assert_eq!(Stmt::Block { statements: vec![Node::EXPR(var("a"))] }.print(), "(block a)");
    assert_eq!(
        Stmt::Block { statements: vec![Node::EXPR(var("a")), Node::STMT(Stmt::Break)] }.print(),
        "(block a (break))"
    );
}

#[test]
fn return_template() {
    let ret = |values: Vec<Expr>| Stmt::Return { token: op(TokenType::Return), values };
    assert_eq!(ret(vec![]).print(), "(return )");
    assert_eq!(ret(vec![var("a")]).print(), "(return a)");
    assert_eq!(ret(vec![var("a"), num("2")]).print(), "(return a Num)");
}

#[test]
fn struct_template_pairs_fields_with_types() {
    let declare = |fields: Vec<Token>, types: Vec<TypeInfo>| Stmt::Struct {
        token: id("P"),
        fields,
        types,
    };
    assert_eq!(declare(vec![], vec![]).print(), "(struct P)");
    assert_eq!(
        declare(vec![id("a"), id("b")], vec![TypeInfo::Str, TypeInfo::Id(id("Q"))]).print(),
        "(struct P a:string b:Q)"
    );
    assert_eq!(declare(vec![id("a"), id("b")], vec![TypeInfo::Num]).print(), "(struct P a:number)");
    assert_eq!(declare(vec![id("a")], vec![]).print(), "(struct P)");
    assert_eq!(declare(vec![], vec![TypeInfo::Num]).print(), "(struct P)");
}

#[test]
fn node_prints_what_it_holds() {
    assert_eq!(Node::EXPR(var("a")).print(), "a");
    assert_eq!(Node::STMT(Stmt::Break).print(), "(break)");
}

#[test]
fn pretty_print_puts_each_node_on_a_line() {
    assert_eq!(Node::pretty_print(&vec![]), "");
    assert_eq!(Node::pretty_print(&vec![Node::EXPR(var("a"))]), "a");
    assert_eq!(
        Node::pretty_print(&vec![
            Node::EXPR(var("a")),
            Node::STMT(Stmt::Break),
            Node::EXPR(num("1"))
        ]),
        "a\n(break)\nNum"
    );
}

#[test]
fn printed_form_does_not_depend_on_positions() {
    let at = |line: usize, col: usize| Expr::Binary {
        left: boxed(Expr::Variable { name: Token::new(TokenType::Id, String::from("a"), line, col) }),
        right: boxed(Expr::Call {
            callee: boxed(var("f")),
            args: vec![],
            token: Token::new(TokenType::RParen, String::new(), line + 1, col + 2),
        }),
        op: Token::new(TokenType::Plus, String::new(), line, col + 1),
    };
    assert_eq!(at(1, 1).print(), "(Plus a (f))");
    assert_eq!(at(1, 1).print(), at(40, 17).print());
}

#[test]
fn join_puts_the_separator_between_neighbours() {
    let parts = |items: &[&str]| items.iter().map(|s| String::from(*s)).collect::<Vec<String>>();
    assert_eq!(join_strings(&parts(&[]), ", "), "");
    assert_eq!(join_strings(&parts(&["a"]), ", "), "a");
    assert_eq!(join_strings(&parts(&["a", "b", "c"]), ", "), "a, b, c");
    assert_eq!(join_strings(&parts(&["a", "", "c"]), "-"), "a--c");
    assert_eq!(join_strings(&parts(&["a", "b"]), ""), "ab");
}

#[test]
fn copies_are_equal_to_what_was_copied() {
    let tree = Node::STMT(Stmt::If {
        condition: Expr::Call {
            callee: boxed(Expr::Get { instance: boxed(var("a")), token: id("b") }),
            args: vec![boxed(num("1")), boxed(Expr::Unknown)],
            token: op(TokenType::RParen),
        },
        then_branch: Box::new(Node::STMT(Stmt::Block {
            statements: vec![
                Node::STMT(Stmt::Return { token: op(TokenType::Return), values: vec![var("x")] }),
                Node::STMT(Stmt::Struct {
                    token: id("P"),
                    fields: vec![id("a")],
                    types: vec![TypeInfo::Id(id("Q"))],
                }),
            ],
        })),
        els: Some(Box::new(Node::EXPR(Expr::Func {
            params: vec![id("p")],
            body: vec![Node::STMT(Stmt::Continue)],
        }))),
    });
    assert_eq!(tree.clone(), tree);
    assert_eq!(tree.duplicate(), tree);
    assert_eq!(tree.clone().print(), tree.print());
}

#[test]
fn literal_of_another_kind_cannot_be_printed() {
    let bad = Expr::Literal { kind: TokenType::Plus, value: String::new() };
    assert!(!bad.can_print());
    assert!(num("1").can_print());
    assert!(!Expr::Group { expr: boxed(bad.clone()) }.can_print());
    assert!(!Node::STMT(Stmt::Return { token: op(TokenType::Return), values: vec![var("a"), bad.clone()] })
        .can_print());
    assert!(!Expr::Call { callee: boxed(var("f")), args: vec![boxed(bad.clone())], token: op(TokenType::RParen) }
        .can_print());
    assert!(!Stmt::Block { statements: vec![Node::EXPR(bad)] }.can_print());
    assert!(Stmt::Block { statements: vec![Node::EXPR(var("a"))] }.can_print());
}
