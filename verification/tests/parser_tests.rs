use script_parser::ast::{Expr, Node, Stmt, TypeInfo};
use script_parser::error::ParserError;
use script_parser::lexer::Lexer;
use script_parser::parser::Parser;
use script_parser::token::{Token, TokenType};

fn parse(source: &str) -> String {
    let source = String::from(source);

    let mut lexer = Lexer::new(source);
    lexer.tokenize();
    assert!(lexer.errors.is_empty(), "lexical errors: {:?}", lexer.errors);

    let mut parser = Parser::new(&lexer.tokens);
    parser.parse(&lexer.tokens);
    assert!(parser.errors.is_empty(), "syntax errors: {:?}", parser.errors);

    Node::pretty_print(&parser.statements)
}

fn run(source: &str) -> Parser {
    let mut lexer = Lexer::new(String::from(source));
    lexer.tokenize();
    assert!(lexer.errors.is_empty(), "lexical errors: {:?}", lexer.errors);
    let mut parser = Parser::new(&lexer.tokens);
    parser.parse(&lexer.tokens);
    parser
}

fn recover(source: &str) -> (String, Vec<ParserError>) {
    let parser = run(source);
    (Node::pretty_print(&parser.statements), parser.errors)
}

fn error(message: &str, line: usize, col: usize) -> ParserError {
    ParserError::new(message, line, col)
}

#[test]
fn test_anonymous_func() {
    let source = r#"let add = func (x, y) x + y;"#;
    let expected = "(var add (lambda (x y) (return (Plus x y))))";
    assert_eq!(parse(source), expected);
}

#[test]
fn test_for_stmt() {
    let source = r#"for (let i = 0; i < 10; i++) { println(i); }"#;
    let expected = "(block (var i Num) (while ((LT i Num)) (block (block (println i)) (assign i (DPlus i Num)))))";
    assert_eq!(parse(source), expected);
}

#[test]
fn test_struct_stmt() {
    let source = r#"struct Person { name: string, age: number, friends: list, book_reviews: map, others: any }"#;
    let expected =
        "(struct Person name:string age:number friends:list book_reviews:map others:any)";
    assert_eq!(parse(source), expected);
}

#[test]
fn empty_program() {
    let parser = run("");
    assert!(parser.statements.is_empty());
    assert!(parser.errors.is_empty());
    assert_eq!(Node::pretty_print(&parser.statements), "");
}

#[test]
fn program_keeps_source_order() {
    assert_eq!(parse("a; b; c;"), "a\nb\nc");
}

#[test]
fn literals() {
    assert_eq!(
        parse("true; false; null; 12; 1.5; \"s\";"),
        "True\nFalse\nNull\nNum\nNum\n\"s\""
    );
}

#[test]
fn literal_keeps_its_text() {
    let parser = run("12; \"hi\"; true;");
    assert_eq!(
        parser.statements,
        vec![
            Node::EXPR(Expr::Literal { kind: TokenType::Num, value: String::from("12") }),
            Node::EXPR(Expr::Literal { kind: TokenType::Str, value: String::from("hi") }),
            Node::EXPR(Expr::Literal { kind: TokenType::True, value: String::new() }),
        ]
    );
}

#[test]
fn variable_is_its_token() {
    let parser = run("  foo;");
    assert_eq!(
        parser.statements,
        vec![Node::EXPR(Expr::Variable {
            name: Token::new(TokenType::Id, String::from("foo"), 1, 3)
        })]
    );
}

#[test]
fn group() {
    assert_eq!(parse("(a + b) * c;"), "(Mul ((Plus a b)) c)");
    assert_eq!(parse("((a));"), "((a))");
}

#[test]
fn unary_is_right_recursive() {
    assert_eq!(parse("!a;"), "(Bang a)");
    assert_eq!(parse("- a;"), "(Minus a)");
    assert_eq!(parse("!!a;"), "(Bang (Bang a))");
    assert_eq!(parse("!-a;"), "(Bang (Minus a))");
    assert_eq!(parse("-a.b;"), "(Minus a.b)");
}

#[test]
fn binary_chains_group_from_the_left() {
    assert_eq!(parse("a - b - c;"), "(Minus (Minus a b) c)");
    assert_eq!(parse("a / b * c % d;"), "(Mod (Mul (Div a b) c) d)");
    assert_eq!(parse("a < b <= c > d >= e;"), "(GTEq (GT (LTEq (LT a b) c) d) e)");
    assert_eq!(parse("a == b != c;"), "(BangEq (DEq a b) c)");
}

#[test]
fn precedence_ladder() {
    assert_eq!(parse("1 + 2 * 3;"), "(Plus Num (Mul Num Num))");
    assert_eq!(parse("1 * 2 + 3;"), "(Plus (Mul Num Num) Num)");
    assert_eq!(parse("a < b == c;"), "(DEq (LT a b) c)");
    assert_eq!(parse("a + b < c;"), "(LT (Plus a b) c)");
    assert_eq!(parse("a == b && c;"), "(DAmp (DEq a b) c)");
    assert_eq!(parse("a || b && c;"), "(DPipe a (DAmp b c))");
    assert_eq!(parse("a && b || c;"), "(DPipe (DAmp a b) c)");
    assert_eq!(parse("-a * b;"), "(Mul (Minus a) b)");
    assert_eq!(parse("x = a || b;"), "(assign x (DPipe a b))");
}

#[test]
fn logical_operators_build_logical_nodes() {
    let parser = run("a && b; a + b;");
    assert!(matches!(parser.statements[0], Node::EXPR(Expr::Logical { .. })));
    assert!(matches!(parser.statements[1], Node::EXPR(Expr::Binary { .. })));
}

#[test]
fn keyword_aliases_of_the_logical_operators() {
    assert_eq!(parse("a or b and c;"), "(Or a (And b c))");
    let parser = run("a and b; a or b;");
    assert!(matches!(parser.statements[0], Node::EXPR(Expr::Logical { .. })));
    assert!(matches!(parser.statements[1], Node::EXPR(Expr::Logical { .. })));
}

#[test]
fn assignment_to_a_variable() {
    assert_eq!(parse("x = 1;"), "(assign x Num)");
    assert_eq!(parse("x = y = 1;"), "(assign x (assign y Num))");
}

#[test]
fn assignment_to_a_member() {
    assert_eq!(parse("a.b = 1;"), "(set a.b Num)");
    assert_eq!(parse("a.b.c = d;"), "(set a.b.c d)");
    assert!(matches!(run("a.b = 1;").statements[0], Node::EXPR(Expr::SetMember { .. })));
}

#[test]
fn invalid_assignment_target_is_reported_at_the_equal_sign() {
    let (printed, errors) = recover("1 = 2;");
    assert_eq!(printed, "Num");
    assert_eq!(errors, vec![error("invalid assignment target", 1, 3)]);
    let (printed, errors) = recover("f() = 2;");
    assert_eq!(printed, "(f)");
    assert_eq!(errors, vec![error("invalid assignment target", 1, 5)]);
}

#[test]
fn compound_assignment_applies_its_operator() {
    assert_eq!(parse("x += 1;"), "(assign x (Plus x Num))");
    assert_eq!(parse("x -= 1;"), "(assign x (Minus x Num))");
    assert_eq!(parse("x *= 2;"), "(assign x (Mul x Num))");
    assert_eq!(parse("x /= 2;"), "(assign x (Div x Num))");
    assert_eq!(parse("x %= 2;"), "(assign x (Mod x Num))");
    assert_eq!(parse("x += y * 2;"), "(assign x (Plus x (Mul y Num)))");
    assert_eq!(parse("x += y += 1;"), "(assign x (Plus x (assign y (Plus y Num))))");
}

#[test]
fn compound_assignment_parses_like_the_written_out_form() {
    assert_eq!(parse("x += 1;"), parse("x = x + 1;"));
    assert_eq!(parse("x -= 1;"), parse("x = x - 1;"));
    assert_eq!(parse("x *= y;"), parse("x = x * y;"));
    assert_eq!(parse("x /= y;"), parse("x = x / y;"));
    assert_eq!(parse("x %= y;"), parse("x = x % y;"));
}

#[test]
fn compound_assignment_builds_the_same_tree_as_the_written_out_form() {
    let short = run("x += 1;");
    let long = run("x = x + 1;");
    match (&short.statements[0], &long.statements[0]) {
        (
            Node::EXPR(Expr::Assign { name: short_name, value: short_value }),
            Node::EXPR(Expr::Assign { name: long_name, value: long_value }),
        ) => {
            assert_eq!(short_name, long_name);
            match (&**short_value, &**long_value) {
                (
                    Expr::Binary { left: sl, right: sr, op: so },
                    Expr::Binary { left: ll, right: lr, op: lo },
                ) => {
                    assert_eq!(so.kind, TokenType::Plus);
                    assert_eq!(so.kind, lo.kind);
                    assert_eq!(so.value, lo.value);
                    assert_eq!(so.position, (1, 3));
                    assert!(matches!(&**sl, Expr::Variable { name } if name.value == "x"));
                    assert!(matches!(&**ll, Expr::Variable { name } if name.value == "x"));
                    assert_eq!(sr, lr);
                    assert_eq!(
                        **lr,
                        Expr::Literal { kind: TokenType::Num, value: String::from("1") }
                    );
                },
                other => panic!("not two binary nodes: {:?}", other),
            }
        },
        other => panic!("not two assignments: {:?}", other),
    }
}

#[test]
fn compound_assignment_needs_a_variable() {
    let (printed, errors) = recover("1 += 2;");
    assert_eq!(printed, "Num");
    assert_eq!(errors, vec![error("expected a variable", 1, 7)]);
    let (printed, errors) = recover("a.b += 2;");
    assert_eq!(printed, "a.b");
    assert_eq!(errors, vec![error("expected a variable", 1, 9)]);
}

#[test]
fn increment_and_decrement_assign_with_the_literal_one() {
    assert_eq!(parse("x++;"), "(assign x (DPlus x Num))");
    assert_eq!(parse("x--;"), "(assign x (DMinus x Num))");
    let parser = run("x++;");
    match &parser.statements[0] {
        Node::EXPR(Expr::Assign { name, value }) => {
            assert_eq!(name.value, "x");
            match &**value {
                Expr::Binary { left, right, op } => {
                    assert_eq!(op.kind, TokenType::DPlus);
                    assert!(matches!(&**left, Expr::Variable { name } if name.value == "x"));
                    assert_eq!(
                        **right,
                        Expr::Literal { kind: TokenType::Num, value: String::from("1") }
                    );
                },
                other => panic!("not a binary node: {:?}", other),
            }
        },
        other => panic!("not an assignment: {:?}", other),
    }
}

#[test]
fn increment_has_the_shape_of_the_written_out_form() {
    let short = run("x++;");
    let long = run("x = x + 1;");
    match (&short.statements[0], &long.statements[0]) {
        (
            Node::EXPR(Expr::Assign { name: short_name, value: short_value }),
            Node::EXPR(Expr::Assign { name: long_name, value: long_value }),
        ) => {
            assert_eq!(short_name, long_name);
            match (&**short_value, &**long_value) {
                (
                    Expr::Binary { left: sl, right: sr, .. },
                    Expr::Binary { left: ll, right: lr, .. },
                ) => {
                    assert!(matches!(&**sl, Expr::Variable { name } if name.value == "x"));
                    assert!(matches!(&**ll, Expr::Variable { name } if name.value == "x"));
                    assert_eq!(sr, lr);
                },
                other => panic!("not two binary nodes: {:?}", other),
            }
        },
        other => panic!("not two assignments: {:?}", other),
    }
}

#[test]
fn increment_needs_a_variable() {
    let (printed, errors) = recover("1++;");
    assert_eq!(printed, "Num");
    assert_eq!(errors, vec![error("expected a variable", 1, 4)]);
}

#[test]
fn calls() {
    assert_eq!(parse("f();"), "(f)");
    assert_eq!(parse("f(1);"), "(f Num)");
    assert_eq!(parse("f(a, b, c);"), "(f a b c)");
    assert_eq!(parse("f(1, 2)(3);"), "((f Num Num) Num)");
    assert_eq!(parse("f(g(x));"), "(f (g x))");
    assert_eq!(parse("a.b.c(1);"), "(a.b.c Num)");
    assert_eq!(parse("f(x = 1);"), "(f (assign x Num))");
}

#[test]
fn call_keeps_the_closing_parenthesis_as_its_token() {
    let parser = run("f(a)");
    match &parser.statements[0] {
        Node::EXPR(Expr::Call { token, .. }) => {
            assert_eq!(*token, Token::new(TokenType::RParen, String::new(), 1, 4));
        },
        other => panic!("not a call: {:?}", other),
    }
}

#[test]
fn member_access() {
    assert_eq!(parse("a.b;"), "a.b");
    assert_eq!(parse("a.b.c;"), "a.b.c");
    assert_eq!(parse("f().x;"), "(f).x");
}

#[test]
fn indexing_calls_getitem() {
    assert_eq!(parse("a[0];"), "(a.__getitem__ Num)");
    assert_eq!(parse("a[i][j];"), "((a.__getitem__ i).__getitem__ j)");
    assert_eq!(parse("a[i + 1];"), "(a.__getitem__ (Plus i Num))");
    let parser = run("a[0];");
    match &parser.statements[0] {
        Node::EXPR(Expr::Call { callee, args, token }) => {
            let expected = Token::new(TokenType::Id, String::from("__getitem__"), 1, 2);
            assert_eq!(*token, expected);
            assert_eq!(args.len(), 1);
            match &**callee {
                Expr::Get { instance, token } => {
                    assert_eq!(*token, expected);
                    assert!(matches!(&**instance, Expr::Variable { name } if name.value == "a"));
                },
                other => panic!("not a member access: {:?}", other),
            }
        },
        other => panic!("not a call: {:?}", other),
    }
}

#[test]
fn forward_pipe_prepends_the_piped_value() {
    assert_eq!(parse("a |> f(b);"), "(f a b)");
    assert_eq!(parse("a |> f();"), "(f a)");
    assert_eq!(parse("a |> f(b, c);"), "(f a b c)");
    assert_eq!(parse("a |> f(b) |> g(c);"), "(g (f a b) c)");
    assert_eq!(parse("a + 1 |> f(b);"), "(Plus a (f Num b))");
}

#[test]
fn forward_pipe_parses_like_the_plain_call() {
    assert_eq!(parse("a |> f(b);"), parse("f(a, b);"));
}

#[test]
fn forward_pipe_reaches_every_call_of_its_target() {
    assert_eq!(parse("a |> f(b)(c);"), "((f a b) a c)");
    assert_eq!(parse("a |> o.m(b);"), "(o.m a b)");
}

#[test]
fn forward_pipe_into_no_call_drops_the_piped_value() {
    assert_eq!(parse("a |> f;"), "f");
}

#[test]
fn backward_pipe_appends_the_piped_value() {
    assert_eq!(parse("f(a) <| b;"), "(f a b)");
    assert_eq!(parse("f() <| b;"), "(f b)");
    assert_eq!(parse("f(a) <| b + 1;"), "(f a (Plus b Num))");
}

#[test]
fn backward_pipe_parses_like_the_plain_call() {
    assert_eq!(parse("f(a) <| b;"), parse("f(a, b);"));
}

#[test]
fn both_pipes_at_once() {
    assert_eq!(parse("a |> f(b) <| c;"), "(f a b c)");
}

#[test]
fn list_and_map_literals_stand_for_no_expression_without_a_diagnostic() {
    let (printed, errors) = recover("[;");
    assert_eq!(printed, "unknown");
    assert!(errors.is_empty());
    let (printed, errors) = recover("x = {;");
    assert_eq!(printed, "(assign x unknown)");
    assert!(errors.is_empty());
    assert_eq!(run("[;").statements, vec![Node::EXPR(Expr::Unknown)]);
}

#[test]
fn anonymous_function_with_a_block() {
    assert_eq!(parse("let f = fn (x) { return x; };"), "(var f (lambda (x) (return x)))");
    assert_eq!(parse("let f = fn () { };"), "(var f (lambda () ))");
    assert_eq!(parse("fn (a) { a; b; };"), "(lambda (a) a b)");
}

#[test]
fn anonymous_function_with_an_expression_returns_it() {
    assert_eq!(parse("let f = fn (x) x * 2;"), "(var f (lambda (x) (return (Mul x Num))))");
    assert_eq!(parse("fn () 1;"), "(lambda () (return Num))");
    let parser = run("fn () 1;");
    match &parser.statements[0] {
        Node::EXPR(Expr::Func { params, body }) => {
            assert!(params.is_empty());
            assert_eq!(
                *body,
                vec![Node::STMT(Stmt::Return {
                    token: Token::new(TokenType::RParen, String::new(), 1, 5),
                    values: vec![Expr::Literal {
                        kind: TokenType::Num,
                        value: String::from("1")
                    }],
                })]
            );
        },
        other => panic!("not a function: {:?}", other),
    }
}

#[test]
fn unexpected_token_is_reported_and_taken() {
    let (printed, errors) = recover(")");
    assert_eq!(printed, "unknown");
    assert_eq!(errors, vec![error("unexpected token", 1, 1), error("expected ';'", 1, 2)]);
    let (printed, errors) = recover("a + ;");
    assert_eq!(printed, "(Plus a unknown)");
    assert_eq!(errors, vec![error("unexpected token", 1, 5), error("expected ';'", 1, 6)]);
}

#[test]
fn unexpected_end_of_input_is_reported_and_not_taken() {
    let (printed, errors) = recover("a +");
    assert_eq!(printed, "(Plus a unknown)");
    assert_eq!(errors, vec![error("unexpected token", 1, 4), error("expected ';'", 1, 4)]);
}

#[test]
fn missing_semicolon_is_reported_at_the_next_token() {
    let (printed, errors) = recover("a b;");
    assert_eq!(printed, "a\nb");
    assert_eq!(errors, vec![error("expected ';'", 1, 3)]);
    let (printed, errors) = recover("a");
    assert_eq!(printed, "a");
    assert_eq!(errors, vec![error("expected ';'", 1, 2)]);
}

#[test]
fn missing_closing_parenthesis_of_a_group() {
    let (printed, errors) = recover("(1;");
    assert_eq!(printed, "(Num)");
    assert_eq!(errors, vec![error("expected ')'", 1, 3)]);
}

#[test]
fn missing_closing_parenthesis_of_a_call() {
    let (printed, errors) = recover("f(1;");
    assert_eq!(printed, "(f Num)");
    assert_eq!(errors, vec![error("expected ')'", 1, 4)]);
}

#[test]
fn missing_member_name() {
    let (printed, errors) = recover("a.;");
    assert_eq!(printed, "a.Dot");
    assert_eq!(errors, vec![error("expected an identifier", 1, 3)]);
}

#[test]
fn missing_closing_bracket() {
    let (printed, errors) = recover("a[1;");
    assert_eq!(printed, "(a.__getitem__ Num)");
    assert_eq!(errors, vec![error("expected ']'", 1, 4)]);
}

#[test]
fn block_statement() {
    assert_eq!(parse("{ }"), "(block)");
    assert_eq!(parse("{ a; }"), "(block a)");
    assert_eq!(parse("{ a; b; }"), "(block a b)");
    assert_eq!(parse("{ { a; } }"), "(block (block a))");
    assert_eq!(parse("{ let x = 1; x; }"), "(block (var x Num) x)");
}

#[test]
fn unterminated_block_is_reported_at_the_end() {
    let (printed, errors) = recover("{ a;");
    assert_eq!(printed, "(block a)");
    assert_eq!(errors, vec![error("expected '}' after a block", 1, 5)]);
    let (printed, errors) = recover("{ { a;");
    assert_eq!(printed, "(block (block a))");
    assert_eq!(
        errors,
        vec![
            error("expected '}' after a block", 1, 7),
            error("expected '}' after a block", 1, 7),
        ]
    );
}

#[test]
fn if_statement() {
    assert_eq!(parse("if (a) b;"), "(if (a) b)");
    assert_eq!(parse("if (a) { b; }"), "(if (a) (block b))");
    assert_eq!(parse("if (a < 1) b; else c;"), "(if ((LT a Num)) bc)");
    assert_eq!(parse("if (a) { b; } else { c; }"), "(if (a) (block b)(block c))");
}

#[test]
fn else_if_nests_to_the_right() {
    assert_eq!(parse("if (a) b; else if (c) d; else e;"), "(if (a) b(if (c) de))");
    let parser = run("if (a) b; else if (c) d;");
    match &parser.statements[0] {
        Node::STMT(Stmt::If { els: Some(els), .. }) => {
            assert!(matches!(&**els, Node::STMT(Stmt::If { els: None, .. })));
        },
        other => panic!("not an if with an else: {:?}", other),
    }
}

#[test]
fn else_belongs_to_the_nearest_if() {
    assert_eq!(parse("if (a) if (b) c; else d;"), "(if (a) (if (b) cd))");
}

#[test]
fn if_statement_errors() {
    let (printed, errors) = recover("if a) b;");
    assert_eq!(printed, "(if (a) b)");
    assert_eq!(errors, vec![error("expected '(' after 'if'", 1, 4)]);
    let (printed, errors) = recover("if (a b;");
    assert_eq!(printed, "(if (a) b)");
    assert_eq!(errors, vec![error("expected ')' after if condition", 1, 7)]);
}

#[test]
fn while_statement() {
    assert_eq!(parse("while (x < 3) x++;"), "(while ((LT x Num)) (assign x (DPlus x Num)))");
    assert_eq!(parse("while (true) { }"), "(while (True) (block))");
    let parser = run("while (a) b;");
    match &parser.statements[0] {
        Node::STMT(Stmt::While { token, .. }) => {
            assert_eq!(*token, Token::new(TokenType::While, String::new(), 1, 1));
        },
        other => panic!("not a while: {:?}", other),
    }
}

#[test]
fn while_statement_errors() {
    let (printed, errors) = recover("while a) b;");
    assert_eq!(printed, "(while (a) b)");
    assert_eq!(errors, vec![error("expected '(' after 'while'", 1, 7)]);
    let (printed, errors) = recover("while (a b;");
    assert_eq!(printed, "(while (a) b)");
    assert_eq!(errors, vec![error("expected ')' after while condition", 1, 10)]);
}

#[test]
fn for_statement_with_every_part() {
    assert_eq!(
        parse("for (i = 0; i < 3; i += 1) f(i);"),
        "(block (assign i Num) (while ((LT i Num)) (block (f i) (assign i (Plus i Num)))))"
    );
}

#[test]
fn for_statement_without_parts() {
    assert_eq!(parse("for (;;) x;"), "(while (True) x)");
    assert_eq!(parse("for (; i < 3;) x;"), "(while ((LT i Num)) x)");
    assert_eq!(parse("for (;; i++) x;"), "(while (True) (block x (assign i (DPlus i Num))))");
    assert_eq!(parse("for (let i;;) x;"), "(block (var i Null) (while (True) x))");
}

#[test]
fn for_statement_without_condition_loops_on_true() {
    let parser = run("for (;;) x;");
    match &parser.statements[0] {
        Node::STMT(Stmt::While { condition, token, .. }) => {
            assert_eq!(
                *condition,
                Expr::Literal { kind: TokenType::True, value: String::new() }
            );
            assert_eq!(*token, Token::new(TokenType::For, String::new(), 1, 1));
        },
        other => panic!("not a while: {:?}", other),
    }
}

#[test]
fn for_statement_errors() {
    let (printed, errors) = recover("for ;;) x;");
    assert_eq!(printed, "(while (True) x)");
    assert_eq!(errors, vec![error("expected '('", 1, 5)]);
    let (printed, errors) = recover("for (;; x;");
    assert_eq!(printed, "(while (True) (block unknown x))");
    assert_eq!(
        errors,
        vec![
            error("expected ')'", 1, 10),
            error("unexpected token", 1, 10),
            error("expected ';'", 1, 11),
        ]
    );
}

#[test]
fn return_statement() {
    assert_eq!(parse("return;"), "(return )");
    assert_eq!(parse("return 1;"), "(return Num)");
    assert_eq!(parse("return a, b + 1, c;"), "(return a (Plus b Num) c)");
    let parser = run("return a, b;");
    match &parser.statements[0] {
        Node::STMT(Stmt::Return { token, values }) => {
            assert_eq!(*token, Token::new(TokenType::Return, String::new(), 1, 1));
            assert_eq!(values.len(), 2);
        },
        other => panic!("not a return: {:?}", other),
    }
}

#[test]
fn return_statement_errors() {
    let (printed, errors) = recover("return a");
    assert_eq!(printed, "(return a)");
    assert_eq!(errors, vec![error("expected ';'", 1, 9)]);
    let (printed, errors) = recover("return a, ;");
    assert_eq!(printed, "(return a unknown)");
    assert_eq!(errors, vec![error("unexpected token", 1, 11), error("expected ';'", 1, 12)]);
}

#[test]
fn break_and_continue() {
    assert_eq!(parse("break;"), "(break)");
    assert_eq!(parse("continue;"), "(continue)");
    assert_eq!(parse("while (a) { break; continue; }"), "(while (a) (block (break) (continue)))");
    assert_eq!(run("break;").statements, vec![Node::STMT(Stmt::Break)]);
    assert_eq!(run("continue;").statements, vec![Node::STMT(Stmt::Continue)]);
}

#[test]
fn break_and_continue_errors() {
    let (printed, errors) = recover("break");
    assert_eq!(printed, "(break)");
    assert_eq!(errors, vec![error("expected ';'", 1, 6)]);
    let (printed, errors) = recover("continue x;");
    assert_eq!(printed, "(continue)\nx");
    assert_eq!(errors, vec![error("expected ';'", 1, 10)]);
}

#[test]
fn import_statement() {
    assert_eq!(parse("import \"mod\";"), "(import \"mod\")");
    assert_eq!(parse("import a.b;"), "(import a.b)");
    let (printed, errors) = recover("import x");
    assert_eq!(printed, "(import x)");
    assert_eq!(errors, vec![error("expected ';'", 1, 9)]);
}

#[test]
fn variable_declaration() {
    assert_eq!(parse("let x;"), "(var x Null)");
    assert_eq!(parse("let x = 1 + 2;"), "(var x (Plus Num Num))");
    assert_eq!(parse("let s = \"s\";"), "(var s \"s\")");
    assert_eq!(
        run("let x;").statements,
        vec![Node::STMT(Stmt::Variable {
            name: Token::new(TokenType::Id, String::from("x"), 1, 5),
            init: Expr::Literal { kind: TokenType::Null, value: String::new() },
        })]
    );
}

#[test]
fn variable_declaration_errors() {
    let (printed, errors) = recover("let = 5;");
    assert_eq!(printed, "(var Var Num)");
    assert_eq!(errors, vec![error("Expected an identifier", 1, 5)]);
    let (printed, errors) = recover("let x = 5");
    assert_eq!(printed, "(var x Num)");
    assert_eq!(errors, vec![error("expected ';'", 1, 10)]);
    let (printed, errors) = recover("let x 5;");
    assert_eq!(printed, "(var x Null)\nNum");
    assert_eq!(errors, vec![error("expected ';'", 1, 7)]);
}

#[test]
fn function_declaration() {
    assert_eq!(
        parse("fn add(a, b) { return a + b; }"),
        "(func add (lambda (a b) (return (Plus a b))))"
    );
    assert_eq!(parse("fn f() { }"), "(func f (lambda () ))");
    assert_eq!(parse("func f(x) { x; }"), "(func f (lambda (x) x))");
    assert_eq!(parse("fn f() { fn g() { } }"), "(func f (lambda () (func g (lambda () ))))");
}

#[test]
fn function_declaration_errors() {
    let (printed, errors) = recover("fn f x) { }");
    assert_eq!(printed, "(func f (lambda (x) ))");
    assert_eq!(errors, vec![error("expected '(' after function name", 1, 6)]);
    let (printed, errors) = recover("fn f(x { }");
    assert_eq!(printed, "(func f (lambda (x) ))");
    assert_eq!(errors, vec![error("expected ')' after parameters", 1, 8)]);
    let (printed, errors) = recover("fn f(, x) { }");
    assert_eq!(printed, "(func f (lambda (LParen x) ))");
    assert_eq!(errors, vec![error("expected an identifier", 1, 6)]);
    let (printed, errors) = recover("fn f() x");
    assert_eq!(printed, "(func f (lambda () x))");
    assert_eq!(
        errors,
        vec![
            error("expected '{' before function body", 1, 8),
            error("expected ';'", 1, 9),
            error("expected '}' after a block", 1, 9),
        ]
    );
}

#[test]
fn anonymous_function_errors() {
    let (printed, errors) = recover("let f = fn x) x;");
    assert_eq!(printed, "(var f (lambda (x) (return x)))");
    assert_eq!(errors, vec![error("expected '(' after anonymous function name", 1, 12)]);
}

#[test]
fn struct_declaration() {
    assert_eq!(parse("struct P { }"), "(struct P)");
    assert_eq!(parse("struct P { a: Q }"), "(struct P a:Q)");
    assert_eq!(parse("struct P { a: STRING, b: Bool, c: nuMber }"), "(struct P a:string b:bool c:number)");
    assert_eq!(parse("struct P { a: any, }"), "(struct P a:any)");
    let parser = run("struct P { a: map, b: Q }");
    match &parser.statements[0] {
        Node::STMT(Stmt::Struct { token, fields, types }) => {
            assert_eq!(*token, Token::new(TokenType::Id, String::from("P"), 1, 8));
            assert_eq!(fields.len(), 2);
            assert_eq!(
                *types,
                vec![
                    TypeInfo::Mapping,
                    TypeInfo::Id(Token::new(TokenType::Id, String::from("Q"), 1, 23)),
                ]
            );
        },
        other => panic!("not a struct: {:?}", other),
    }
}

#[test]
fn struct_declaration_errors() {
    let (printed, errors) = recover("struct { }");
    assert_eq!(printed, "(struct Struct)");
    assert_eq!(errors, vec![error("expected an identifier", 1, 8)]);
    let (printed, errors) = recover("struct P a: any }");
    assert_eq!(printed, "(struct P a:any)");
    assert_eq!(errors, vec![error("expected '{'", 1, 10)]);
    let (printed, errors) = recover("struct P { a b }");
    assert_eq!(printed, "(struct P a:b)");
    assert_eq!(errors, vec![error("expected ':'", 1, 14)]);
    let (printed, errors) = recover("struct P { a: 1 }");
    assert_eq!(printed, "(struct P)");
    assert_eq!(errors, vec![error("invalid type info", 1, 15)]);
    let (printed, errors) = recover("struct P { a: any b: any }");
    assert_eq!(printed, "(struct P a:any b:any)");
    assert_eq!(errors, vec![error("expected ','", 1, 19)]);
    let (printed, errors) = recover("struct P { a: any");
    assert_eq!(printed, "(struct P a:any)");
    assert_eq!(errors, vec![error("expected ','", 1, 18), error("expected '}'", 1, 18)]);
}

#[test]
fn struct_field_without_a_type_shifts_the_types_that_follow() {
    let (printed, errors) = recover("struct P { a: 1, b: any }");
    assert_eq!(printed, "(struct P a:any)");
    assert_eq!(errors, vec![error("invalid type info", 1, 15)]);
}

#[test]
fn errors_in_separate_statements_are_all_reported() {
    let (printed, errors) = recover("1 = 2; 3 = 4;\n5 = 6;");
    assert_eq!(printed, "Num\nNum\nNum");
    assert_eq!(
        errors,
        vec![
            error("invalid assignment target", 1, 3),
            error("invalid assignment target", 1, 10),
            error("invalid assignment target", 2, 3),
        ]
    );
}

#[test]
fn mending_one_statement_leaves_the_diagnostics_of_the_others() {
    let (_, broken) = recover("1 = 2; 3 = 4;\n5 = 6;");
    let (_, mended_first) = recover("x = 2; 3 = 4;\n5 = 6;");
    let (_, mended_second) = recover("1 = 2; y = 4;\n5 = 6;");
    let (_, mended_third) = recover("1 = 2; 3 = 4;\nz = 6;");
    assert_eq!(broken.len(), 3);
    assert_eq!(mended_first, vec![broken[1].clone(), broken[2].clone()]);
    assert_eq!(mended_second, vec![broken[0].clone(), broken[2].clone()]);
    assert_eq!(mended_third, vec![broken[0].clone(), broken[1].clone()]);
}

#[test]
fn errors_in_separate_blocks_are_all_reported() {
    let (_, errors) = recover("fn f() { let = 1; }\nfn g() { return 1 }\nwhile (a b;");
    assert_eq!(
        errors,
        vec![
            error("Expected an identifier", 1, 14),
            error("expected ';'", 2, 19),
            error("expected ')' after while condition", 3, 10),
        ]
    );
}

#[test]
fn parser_always_gives_a_program() {
    for source in ["(", ")", "{", "}", "if", "for", "while", "fn", "let", "struct", "return", "a.", "f(", "a[", "= = =", "+ + +", ", , ,"] {
        let parser = run(source);
        assert!(!parser.statements.is_empty(), "no program for {:?}", source);
        assert!(!parser.errors.is_empty(), "no diagnostic for {:?}", source);
        let printed = Node::pretty_print(&parser.statements);
        assert!(!printed.is_empty());
    }
}

#[test]
fn parsing_again_gives_the_same_result() {
    let mut lexer = Lexer::new(String::from("let x = 1; 2 = 3;"));
    lexer.tokenize();
    let mut parser = Parser::new(&lexer.tokens);
    parser.parse(&lexer.tokens);
    let statements = parser.statements.clone();
    let errors = parser.errors.clone();
    parser.parse(&lexer.tokens);
    assert_eq!(parser.statements, statements);
    assert_eq!(parser.errors, errors);
    assert_eq!(parser.statements.len(), 2);
    assert_eq!(parser.errors.len(), 1);
}

#[test]
fn new_parser_stands_at_the_first_token() {
    let tokens = vec![
        Token::new(TokenType::Id, String::from("a"), 1, 1),
        Token::new(TokenType::EOF, String::new(), 1, 2),
    ];
    let parser = Parser::new(&tokens);
    assert_eq!(parser.c, 0);
    assert_eq!(parser.current, tokens[0]);
    assert!(parser.errors.is_empty());
    assert!(parser.statements.is_empty());
}

#[test]
fn parser_stops_at_the_first_end_of_input() {
    let tokens = vec![
        Token::new(TokenType::Id, String::from("a"), 1, 1),
        Token::new(TokenType::SColon, String::new(), 1, 2),
        Token::new(TokenType::EOF, String::new(), 1, 3),
        Token::new(TokenType::Id, String::from("b"), 2, 1),
        Token::new(TokenType::EOF, String::new(), 2, 2),
    ];
    let mut parser = Parser::new(&tokens);
    parser.parse(&tokens);
    assert_eq!(Node::pretty_print(&parser.statements), "a");
    assert!(parser.errors.is_empty());
    assert_eq!(parser.c, 2);
}

#[test]
fn whitespace_and_comments_do_not_change_the_printed_form() {
    let plain = parse("let x=1;if(x<2){f(x);}else{g(x);}");
    let spaced = parse("let  x = 1 ;\n\nif ( x < 2 ) {\n\tf ( x ) ;\n}\nelse {\n\tg ( x ) ;\n}\n");
    let commented = parse(
        "// declare\nlet x = 1; /* then\n /* test */ it */ if (x < 2) { f(x); } // first\nelse { g(x); } /* last */",
    );
    assert_eq!(plain, "(var x Num)\n(if ((LT x Num)) (block (f x))(block (g x)))");
    assert_eq!(spaced, plain);
    assert_eq!(commented, plain);
}
