use script_parser::ast::Node;
use script_parser::error::ParserError;
use script_parser::lexer::Lexer;
use script_parser::parser::Parser;
use script_parser::printer::can_print_nodes;
use script_parser::token::{Token, TokenType};

fn tokens_of(source: &str) -> Vec<Token> {
    let mut lexer = Lexer::new(String::from(source));
    lexer.tokenize();
    lexer.tokens
}

fn shapes(tokens: &Vec<Token>) -> Vec<(TokenType, String)> {
    tokens.iter().map(|t| (t.kind, t.value.clone())).collect()
}

fn parsed(tokens: &Vec<Token>) -> (Vec<Node>, Vec<ParserError>) {
    let mut parser = Parser::new(tokens);
    parser.parse(tokens);
    (parser.statements, parser.errors)
}

fn with_character(source: &str, at: usize, c: char) -> String {
    let mut chars: Vec<char> = source.chars().collect();
    chars.insert(at, c);
    chars.into_iter().collect()
}

#[test]
fn blank_at_the_start_of_any_lexeme_changes_no_token() {
    let source = "let x=-1.5+y;if(x<=0x1F){f(\"a b\",x);}//c";
    let tokens = tokens_of(source);
    let expected = shapes(&tokens);
    assert_eq!(expected.len(), 23);
    for token in &tokens {
        let at = token.position.1 - 1;
        if at >= source.chars().count() {
            continue;
        }
        for blank in [' ', '\t', '\n', '\r', '\x0C'] {
            let spaced = with_character(source, at, blank);
            assert_eq!(shapes(&tokens_of(&spaced)), expected, "blank at {} of {:?}", at, spaced);
        }
    }
}

#[test]
fn blank_inside_a_lexeme_may_change_the_tokens() {
    assert_eq!(shapes(&tokens_of("ab")).len(), 2);
    assert_eq!(shapes(&tokens_of("a b")).len(), 3);
    assert_eq!(shapes(&tokens_of("+ +")).len(), 3);
    assert_eq!(shapes(&tokens_of("++")).len(), 2);
}

#[test]
fn blank_at_the_start_of_any_lexeme_changes_no_printed_form() {
    let source = "for(let i=0;i<3;i++){print(i);}";
    let tokens = tokens_of(source);
    let (statements, errors) = parsed(&tokens);
    assert!(errors.is_empty());
    let expected = Node::pretty_print(&statements);
    assert_eq!(
        expected,
        "(block (var i Num) (while ((LT i Num)) (block (block (print i)) (assign i (DPlus i Num)))))"
    );
    for token in &tokens {
        let at = token.position.1 - 1;
        if at >= source.chars().count() {
            continue;
        }
        let spaced = tokens_of(&with_character(source, at, '\n'));
        let (statements, errors) = parsed(&spaced);
        assert!(errors.is_empty());
        assert_eq!(Node::pretty_print(&statements), expected);
    }
}

#[test]
fn positions_of_tokens_do_not_change_what_is_printed_or_reported() {
    let tokens = tokens_of("let x = f(1, 2) + ; if (x) { return x, y } struct P { a: 1 }");
    let moved: Vec<Token> = tokens
        .iter()
        .map(|t| Token::new(t.kind, t.value.clone(), 100 - t.position.1, 7))
        .collect();
    let (statements, errors) = parsed(&tokens);
    let (moved_statements, moved_errors) = parsed(&moved);
    assert_eq!(errors.len(), 4);
    assert_eq!(Node::pretty_print(&moved_statements), Node::pretty_print(&statements));
    assert_eq!(
        moved_errors.iter().map(|e| e.message.clone()).collect::<Vec<String>>(),
        errors.iter().map(|e| e.message.clone()).collect::<Vec<String>>()
    );
}

#[test]
fn rest_of_a_program_does_not_depend_on_what_came_before() {
    let whole = tokens_of("1 = 2; let a = f(; while (a b;");
    let (statements, errors) = parsed(&whole);
    assert_eq!(statements.len(), 3);
    assert_eq!(errors.len(), 5);
    // the second declaration starts at the fifth token
    let rest: Vec<Token> = whole[4..].to_vec();
    let (rest_statements, rest_errors) = parsed(&rest);
    assert_eq!(rest_statements, statements[1..].to_vec());
    assert_eq!(rest_errors, errors[1..].to_vec());
    // another start of the stream leaves the rest as it is
    let mut mended = tokens_of("x;");
    mended.pop();
    mended.extend(rest.iter().cloned());
    let (mended_statements, mended_errors) = parsed(&mended);
    assert_eq!(mended_statements[1..].to_vec(), statements[1..].to_vec());
    assert_eq!(mended_errors, errors[1..].to_vec());
}

#[test]
fn declaration_does_not_depend_on_what_comes_after_the_next_token() {
    let first = tokens_of("let a = f(; y = 2; x");
    let second = tokens_of("let a = f(; y; struct { }");
    let (first_statements, first_errors) = parsed(&first);
    let (second_statements, second_errors) = parsed(&second);
    assert_eq!(first_statements[0], second_statements[0]);
    assert_eq!(first_errors[..3], second_errors[..3]);
    assert_eq!(
        first_errors[..3].to_vec(),
        vec![
            ParserError::new("unexpected token", 1, 11),
            ParserError::new("expected ')'", 1, 13),
            ParserError::new("expected ';'", 1, 13),
        ]
    );
    assert_eq!(first_errors.len(), 4);
    assert_eq!(second_errors.len(), 4);
    assert_ne!(first_errors[3], second_errors[3]);
}

#[test]
fn diagnostics_of_a_program_are_those_of_its_declarations_in_order() {
    let sources = ["1 = 2;", "let = 3;", "f(;", "ok;", "while (a b;"];
    let mut expected = 0;
    let mut text = String::new();
    for source in sources {
        let (_, errors) = parsed(&tokens_of(source));
        expected += errors.len();
        text.push_str(source);
        text.push('\n');
    }
    let (statements, errors) = parsed(&tokens_of(&text));
    assert_eq!(statements.len(), 5);
    assert_eq!(errors.len(), expected);
    assert_eq!(expected, 6);
}

#[test]
fn every_declaration_takes_a_token() {
    for source in ["a", ";", ")", "}", "fn", "let", "struct", "if", "+ -", "( ( (", "} } }"] {
        let tokens = tokens_of(source);
        let (statements, _) = parsed(&tokens);
        assert!(statements.len() <= tokens.len() - 1, "too many declarations for {:?}", source);
        assert!(!statements.is_empty());
    }
}

#[test]
fn what_is_parsed_can_always_be_printed() {
    for source in ["", "a", "1 = 2;", "fn f( {", "struct P { a: 1", "x = [;", "return , ;", "\"s\" + 1.5"] {
        let (statements, _) = parsed(&tokens_of(source));
        assert!(can_print_nodes(&statements));
    }
}

#[test]
fn tokens_of_any_text_end_with_the_end_of_input() {
    for source in ["", " ", "a", "\"abc", "/* x", "#", "1.2.3", "a // b"] {
        let tokens = tokens_of(source);
        assert_eq!(tokens.last().map(|t| t.kind), Some(TokenType::EOF));
        assert_eq!(tokens.iter().filter(|t| t.kind == TokenType::EOF).count(), 1);
    }
}
