use script_parser::error::ParserError;
use script_parser::lexer::{digit, hex_digit, letter, space, unescaped, word_char, Lexer};
use script_parser::text::{chars_of, same_text, same_text_lowered, to_lower};
use script_parser::token::{Token, TokenType};

fn run(source: &str) -> Lexer {
    let mut lexer = Lexer::new(String::from(source));
    lexer.tokenize();
    lexer
}

fn kinds(source: &str) -> Vec<TokenType> {
    run(source).tokens.iter().map(|t| t.kind).collect()
}

fn texts(source: &str) -> Vec<String> {
    run(source).tokens.iter().map(|t| t.value.clone()).collect()
}

fn token(kind: TokenType, value: &str, line: usize, col: usize) -> Token {
    Token::new(kind, String::from(value), line, col)
}

fn error(message: &str, line: usize, col: usize) -> ParserError {
    ParserError::new(message, line, col)
}

#[test]
fn empty_source_gives_only_end_of_input() {
    let lexer = run("");
    assert_eq!(lexer.tokens, vec![token(TokenType::EOF, "", 1, 1)]);
    assert!(lexer.errors.is_empty());
}

#[test]
fn blanks_alone_give_only_end_of_input() {
    let lexer = run(" \t\r\n  \n");
    assert_eq!(lexer.tokens, vec![token(TokenType::EOF, "", 3, 1)]);
    assert!(lexer.errors.is_empty());
}

#[test]
fn punctuation_gives_one_token_each() {
    assert_eq!(
        kinds("(){}[]:;@^,."),
        vec![
            TokenType::LParen,
            TokenType::RParen,
            TokenType::LBrace,
            TokenType::RBrace,
            TokenType::LBracket,
            TokenType::RBracket,
            TokenType::Colon,
            TokenType::SColon,
            TokenType::At,
            TokenType::Caret,
            TokenType::Comma,
            TokenType::Dot,
            TokenType::EOF,
        ]
    );
}

#[test]
fn punctuation_has_no_text() {
    for text in texts("(){}[]:;@^,.") {
        assert_eq!(text, "");
    }
}

#[test]
fn operators_take_the_longest_form() {
    assert_eq!(
        kinds("+ ++ += - -- -= * *= / /= % %= |> || <| <= < >= > != ! == = &&"),
        vec![
            TokenType::Plus,
            TokenType::DPlus,
            TokenType::PlusEq,
            TokenType::Minus,
            TokenType::DMinus,
            TokenType::MinusEq,
            TokenType::Mul,
            TokenType::MulEq,
            TokenType::Div,
            TokenType::DivEq,
            TokenType::Mod,
            TokenType::ModEq,
            TokenType::RPipe,
            TokenType::DPipe,
            TokenType::LPipe,
            TokenType::LTEq,
            TokenType::LT,
            TokenType::GTEq,
            TokenType::GT,
            TokenType::BangEq,
            TokenType::Bang,
            TokenType::DEq,
            TokenType::Equal,
            TokenType::DAmp,
            TokenType::EOF,
        ]
    );
}

#[test]
fn operators_need_no_blank_between_them() {
    assert_eq!(
        kinds("a+=b"),
        vec![TokenType::Id, TokenType::PlusEq, TokenType::Id, TokenType::EOF]
    );
    assert_eq!(
        kinds("+++"),
        vec![TokenType::DPlus, TokenType::Plus, TokenType::EOF]
    );
    assert_eq!(
        kinds("==="),
        vec![TokenType::DEq, TokenType::Equal, TokenType::EOF]
    );
}

#[test]
fn operator_at_the_end_of_the_text_is_single() {
    assert_eq!(kinds("+"), vec![TokenType::Plus, TokenType::EOF]);
    assert_eq!(kinds("<"), vec![TokenType::LT, TokenType::EOF]);
    assert_eq!(kinds("/"), vec![TokenType::Div, TokenType::EOF]);
    assert_eq!(kinds("-"), vec![TokenType::Minus, TokenType::EOF]);
}

#[test]
fn lone_ampersand_is_an_error() {
    let lexer = run("a & b");
    assert_eq!(
        lexer.tokens,
        vec![
            token(TokenType::Id, "a", 1, 1),
            token(TokenType::Id, "b", 1, 5),
            token(TokenType::EOF, "", 1, 6),
        ]
    );
    assert_eq!(lexer.errors, vec![error("unrecognized character", 1, 3)]);
}

#[test]
fn lone_bar_is_an_error() {
    let lexer = run("|");
    assert_eq!(lexer.tokens, vec![token(TokenType::EOF, "", 1, 2)]);
    assert_eq!(lexer.errors, vec![error("unrecognized character", 1, 1)]);
}

#[test]
fn lone_bar_takes_one_character_only() {
    let lexer = run("|=");
    assert_eq!(
        lexer.tokens,
        vec![token(TokenType::Equal, "", 1, 2), token(TokenType::EOF, "", 1, 3)]
    );
    assert_eq!(lexer.errors, vec![error("unrecognized character", 1, 1)]);
}

#[test]
fn other_characters_are_errors_and_skipped() {
    let lexer = run("a # b $ c");
    assert_eq!(
        kinds("a # b $ c"),
        vec![TokenType::Id, TokenType::Id, TokenType::Id, TokenType::EOF]
    );
    assert_eq!(
        lexer.errors,
        vec![
            error("unrecognized character", 1, 3),
            error("unrecognized character", 1, 7),
        ]
    );
}

#[test]
fn letters_outside_ascii_are_errors() {
    let lexer = run("é");
    assert_eq!(lexer.tokens, vec![token(TokenType::EOF, "", 1, 2)]);
    assert_eq!(lexer.errors, vec![error("unrecognized character", 1, 1)]);
}

#[test]
fn line_comment_ends_before_the_newline() {
    let lexer = run("a // b c\nd");
    assert_eq!(
        lexer.tokens,
        vec![
            token(TokenType::Id, "a", 1, 1),
            token(TokenType::Id, "d", 2, 1),
            token(TokenType::EOF, "", 2, 2),
        ]
    );
    assert!(lexer.errors.is_empty());
}

#[test]
fn line_comment_may_end_the_text() {
    let lexer = run("a //");
    assert_eq!(
        lexer.tokens,
        vec![token(TokenType::Id, "a", 1, 1), token(TokenType::EOF, "", 1, 5)]
    );
    assert!(lexer.errors.is_empty());
}

#[test]
fn block_comment_is_skipped() {
    let lexer = run("a /* b\nc */ d");
    assert_eq!(
        lexer.tokens,
        vec![
            token(TokenType::Id, "a", 1, 1),
            token(TokenType::Id, "d", 2, 6),
            token(TokenType::EOF, "", 2, 7),
        ]
    );
    assert!(lexer.errors.is_empty());
}

#[test]
fn block_comments_nest() {
    let lexer = run("a /* b /* c */ d */ e");
    assert_eq!(
        lexer.tokens,
        vec![
            token(TokenType::Id, "a", 1, 1),
            token(TokenType::Id, "e", 1, 21),
            token(TokenType::EOF, "", 1, 22),
        ]
    );
    assert!(lexer.errors.is_empty());
}

#[test]
fn empty_block_comment_is_skipped() {
    assert_eq!(kinds("/**/x"), vec![TokenType::Id, TokenType::EOF]);
    assert!(run("/**/x").errors.is_empty());
}

#[test]
fn unterminated_block_comment_is_reported_at_the_end() {
    let lexer = run("a /* b");
    assert_eq!(
        lexer.tokens,
        vec![token(TokenType::Id, "a", 1, 1), token(TokenType::EOF, "", 1, 7)]
    );
    assert_eq!(lexer.errors, vec![error("unterminated block comment", 1, 7)]);
}

#[test]
fn unterminated_nested_block_comment_is_reported() {
    let lexer = run("/* a /* b */");
    assert_eq!(lexer.tokens, vec![token(TokenType::EOF, "", 1, 13)]);
    assert_eq!(lexer.errors, vec![error("unterminated block comment", 1, 13)]);
}

#[test]
fn slash_star_at_the_end_is_an_unterminated_comment() {
    let lexer = run("/*");
    assert_eq!(lexer.tokens, vec![token(TokenType::EOF, "", 1, 3)]);
    assert_eq!(lexer.errors, vec![error("unterminated block comment", 1, 3)]);
}

#[test]
fn words_are_identifiers_with_their_text() {
    let lexer = run("foo _bar baz9 Q_1");
    assert_eq!(
        lexer.tokens,
        vec![
            token(TokenType::Id, "foo", 1, 1),
            token(TokenType::Id, "_bar", 1, 5),
            token(TokenType::Id, "baz9", 1, 10),
            token(TokenType::Id, "Q_1", 1, 15),
            token(TokenType::EOF, "", 1, 18),
        ]
    );
}

#[test]
fn keywords_are_tokens_without_text() {
    let source = "fn func class static let const if else for while super this return continue break true false null import struct and or";
    assert_eq!(
        kinds(source),
        vec![
            TokenType::Func,
            TokenType::Func,
            TokenType::Class,
            TokenType::Static,
            TokenType::Var,
            TokenType::Const,
            TokenType::If,
            TokenType::Else,
            TokenType::For,
            TokenType::While,
            TokenType::Super,
            TokenType::This,
            TokenType::Return,
            TokenType::Continue,
            TokenType::Break,
            TokenType::True,
            TokenType::False,
            TokenType::Null,
            TokenType::Import,
            TokenType::Struct,
            TokenType::And,
            TokenType::Or,
            TokenType::EOF,
        ]
    );
    for text in texts(source) {
        assert_eq!(text, "");
    }
}

#[test]
fn keywords_are_whole_words_in_lower_case() {
    assert_eq!(
        run("iff If fn_ lets").tokens,
        vec![
            token(TokenType::Id, "iff", 1, 1),
            token(TokenType::Id, "If", 1, 5),
            token(TokenType::Id, "fn_", 1, 8),
            token(TokenType::Id, "lets", 1, 12),
            token(TokenType::EOF, "", 1, 16),
        ]
    );
}

#[test]
fn keyword_lookup() {
    assert_eq!(Lexer::keyword("while"), Some(TokenType::While));
    assert_eq!(Lexer::keyword("let"), Some(TokenType::Var));
    assert_eq!(Lexer::keyword("fn"), Some(TokenType::Func));
    assert_eq!(Lexer::keyword("func"), Some(TokenType::Func));
    assert_eq!(Lexer::keyword("whil"), None);
    assert_eq!(Lexer::keyword("whiles"), None);
    assert_eq!(Lexer::keyword(""), None);
    assert_eq!(Lexer::keyword("WHILE"), None);
}

#[test]
fn numbers_carry_their_spelling() {
    let lexer = run("0 42 3.25 007");
    assert_eq!(
        lexer.tokens,
        vec![
            token(TokenType::Num, "0", 1, 1),
            token(TokenType::Num, "42", 1, 3),
            token(TokenType::Num, "3.25", 1, 6),
            token(TokenType::Num, "007", 1, 11),
            token(TokenType::EOF, "", 1, 14),
        ]
    );
    assert!(lexer.errors.is_empty());
}

#[test]
fn minus_before_a_digit_belongs_to_the_number() {
    let lexer = run("-5 - 5 -x -1.5");
    assert_eq!(
        lexer.tokens,
        vec![
            token(TokenType::Num, "-5", 1, 1),
            token(TokenType::Minus, "", 1, 4),
            token(TokenType::Num, "5", 1, 6),
            token(TokenType::Minus, "", 1, 8),
            token(TokenType::Id, "x", 1, 9),
            token(TokenType::Num, "-1.5", 1, 11),
            token(TokenType::EOF, "", 1, 15),
        ]
    );
}

#[test]
fn dot_without_a_digit_after_it_is_no_fraction() {
    let lexer = run("1.x 2.");
    assert_eq!(
        lexer.tokens,
        vec![
            token(TokenType::Num, "1", 1, 1),
            token(TokenType::Dot, "", 1, 2),
            token(TokenType::Id, "x", 1, 3),
            token(TokenType::Num, "2", 1, 5),
            token(TokenType::Dot, "", 1, 6),
            token(TokenType::EOF, "", 1, 7),
        ]
    );
    assert!(lexer.errors.is_empty());
}

#[test]
fn second_fraction_is_an_invalid_dot() {
    let lexer = run("1.5.3");
    assert_eq!(
        lexer.tokens,
        vec![
            token(TokenType::Num, "1.5", 1, 1),
            token(TokenType::Dot, "", 1, 4),
            token(TokenType::Num, "3", 1, 5),
            token(TokenType::EOF, "", 1, 6),
        ]
    );
    assert_eq!(lexer.errors, vec![error("invalid dot", 1, 4)]);
}

#[test]
fn hex_literal_takes_every_hex_digit() {
    let lexer = run("0x1F 0xdeadBEEF 0xg -0x10");
    assert_eq!(
        lexer.tokens,
        vec![
            token(TokenType::Num, "0x1F", 1, 1),
            token(TokenType::Num, "0xdeadBEEF", 1, 6),
            token(TokenType::Num, "0x", 1, 17),
            token(TokenType::Id, "g", 1, 19),
            token(TokenType::Num, "-0x10", 1, 21),
            token(TokenType::EOF, "", 1, 26),
        ]
    );
    assert!(lexer.errors.is_empty());
}

#[test]
fn hex_literal_has_no_fraction() {
    assert_eq!(
        run("0x1.5").tokens,
        vec![
            token(TokenType::Num, "0x1", 1, 1),
            token(TokenType::Dot, "", 1, 4),
            token(TokenType::Num, "5", 1, 5),
            token(TokenType::EOF, "", 1, 6),
        ]
    );
}

#[test]
fn number_directly_before_a_word() {
    assert_eq!(
        run("12ab").tokens,
        vec![
            token(TokenType::Num, "12", 1, 1),
            token(TokenType::Id, "ab", 1, 3),
            token(TokenType::EOF, "", 1, 5),
        ]
    );
}

#[test]
fn string_carries_its_body() {
    let lexer = run(r#""hello world" "" "a""#);
    assert_eq!(
        lexer.tokens,
        vec![
            token(TokenType::Str, "hello world", 1, 1),
            token(TokenType::Str, "", 1, 15),
            token(TokenType::Str, "a", 1, 18),
            token(TokenType::EOF, "", 1, 21),
        ]
    );
    assert!(lexer.errors.is_empty());
}

#[test]
fn string_escapes_are_decoded() {
    let lexer = run(r#""a\0b\"c\\d\%e\nf\rg\th\qi""#);
    assert_eq!(lexer.tokens.len(), 2);
    assert_eq!(lexer.tokens[0].kind, TokenType::Str);
    assert_eq!(lexer.tokens[0].value, "a\0b\"c\\d%e\nf\rg\thqi");
    assert!(lexer.errors.is_empty());
}

#[test]
fn string_may_hold_newlines() {
    let lexer = run("\"a\nb\" c");
    assert_eq!(
        lexer.tokens,
        vec![
            token(TokenType::Str, "a\nb", 1, 1),
            token(TokenType::Id, "c", 2, 4),
            token(TokenType::EOF, "", 2, 5),
        ]
    );
}

#[test]
fn string_holds_what_would_be_comments() {
    assert_eq!(
        run("\"// no /* comment */\"").tokens,
        vec![
            token(TokenType::Str, "// no /* comment */", 1, 1),
            token(TokenType::EOF, "", 1, 22),
        ]
    );
}

#[test]
fn unterminated_string_is_reported_at_the_end() {
    let lexer = run("x \"abc");
    assert_eq!(
        lexer.tokens,
        vec![
            token(TokenType::Id, "x", 1, 1),
            token(TokenType::Str, "abc", 1, 3),
            token(TokenType::EOF, "", 1, 7),
        ]
    );
    assert_eq!(lexer.errors, vec![error("unterminated string", 1, 7)]);
}

#[test]
fn lone_quote_is_an_unterminated_string() {
    let lexer = run("\"");
    assert_eq!(
        lexer.tokens,
        vec![token(TokenType::Str, "", 1, 1), token(TokenType::EOF, "", 1, 2)]
    );
    assert_eq!(lexer.errors, vec![error("unterminated string", 1, 2)]);
}

#[test]
fn backslash_at_the_end_of_the_text_stands_for_nothing() {
    let lexer = run("\"ab\\");
    assert_eq!(
        lexer.tokens,
        vec![token(TokenType::Str, "ab", 1, 1), token(TokenType::EOF, "", 1, 5)]
    );
    assert_eq!(lexer.errors, vec![error("unterminated string", 1, 5)]);
}

#[test]
fn escaped_quote_does_not_close_the_string() {
    let lexer = run(r#""a\""#);
    assert_eq!(
        lexer.tokens,
        vec![token(TokenType::Str, "a\"", 1, 1), token(TokenType::EOF, "", 1, 5)]
    );
    assert_eq!(lexer.errors, vec![error("unterminated string", 1, 5)]);
}

#[test]
fn positions_are_lines_and_columns_from_one() {
    let lexer = run("a\n  b\n\nc d");
    assert_eq!(
        lexer.tokens,
        vec![
            token(TokenType::Id, "a", 1, 1),
            token(TokenType::Id, "b", 2, 3),
            token(TokenType::Id, "c", 4, 1),
            token(TokenType::Id, "d", 4, 3),
            token(TokenType::EOF, "", 4, 4),
        ]
    );
}

#[test]
fn two_character_operator_starts_at_its_first_character() {
    assert_eq!(
        run("a <= b").tokens,
        vec![
            token(TokenType::Id, "a", 1, 1),
            token(TokenType::LTEq, "", 1, 3),
            token(TokenType::Id, "b", 1, 6),
            token(TokenType::EOF, "", 1, 7),
        ]
    );
}

#[test]
fn errors_never_stop_the_tokenizer() {
    let lexer = run("# \"abc\n & x /* y");
    assert_eq!(
        kinds("# \"abc\n & x /* y"),
        vec![TokenType::Str, TokenType::EOF]
    );
    assert_eq!(lexer.tokens[0].value, "abc\n & x /* y");
    assert_eq!(
        lexer.errors,
        vec![
            error("unrecognized character", 1, 1),
            error("unterminated string", 2, 10),
        ]
    );
}

#[test]
fn every_kind_of_error_in_one_text() {
    let lexer = run("1.2.3 & $ \"x");
    assert_eq!(
        lexer.errors,
        vec![
            error("invalid dot", 1, 4),
            error("unrecognized character", 1, 7),
            error("unrecognized character", 1, 9),
            error("unterminated string", 1, 13),
        ]
    );
}

#[test]
fn tokenizing_again_gives_the_same_result() {
    let mut lexer = Lexer::new(String::from("let x = 1; #"));
    lexer.tokenize();
    let tokens = lexer.tokens.clone();
    let errors = lexer.errors.clone();
    lexer.tokenize();
    assert_eq!(lexer.tokens, tokens);
    assert_eq!(lexer.errors, errors);
    assert_eq!(lexer.tokens.len(), 6);
    assert_eq!(lexer.errors.len(), 1);
}

#[test]
fn new_lexer_has_read_nothing() {
    let lexer = Lexer::new(String::from("a b"));
    assert!(lexer.tokens.is_empty());
    assert!(lexer.errors.is_empty());
    assert_eq!(lexer.source, vec!['a', ' ', 'b']);
}

#[test]
fn token_stream_has_at_most_one_token_per_character_and_the_end() {
    for source in ["", "a", "a b c", "((((", "\"abc", "/* x", "1.2.3.4", "a+=b--c"] {
        let lexer = run(source);
        let n = source.chars().count();
        assert!(lexer.tokens.len() <= n + 1);
        assert!(lexer.errors.len() <= n);
        assert_eq!(lexer.tokens.last().map(|t| t.kind), Some(TokenType::EOF));
    }
}

#[test]
fn character_classes() {
    assert!(space(' ') && space('\t') && space('\n') && space('\r') && space('\x0C'));
    assert!(!space('a') && !space('\0'));
    assert!(digit('0') && digit('9') && !digit('a') && !digit('/') && !digit(':'));
    assert!(letter('a') && letter('z') && letter('A') && letter('Z') && letter('_'));
    assert!(!letter('0') && !letter('-') && !letter('é'));
    assert!(word_char('a') && word_char('5') && word_char('_') && !word_char('.'));
    assert!(hex_digit('0') && hex_digit('a') && hex_digit('F') && !hex_digit('g') && !hex_digit('G'));
}

#[test]
fn escape_table() {
    assert_eq!(unescaped('0'), '\0');
    assert_eq!(unescaped('n'), '\n');
    assert_eq!(unescaped('r'), '\r');
    assert_eq!(unescaped('t'), '\t');
    assert_eq!(unescaped('"'), '"');
    assert_eq!(unescaped('\\'), '\\');
    assert_eq!(unescaped('%'), '%');
    assert_eq!(unescaped('q'), 'q');
}

#[test]
fn text_helpers() {
    assert_eq!(chars_of("héllo"), vec!['h', 'é', 'l', 'l', 'o']);
    assert_eq!(chars_of(""), Vec::<char>::new());
    assert!(same_text("abc", "abc"));
    assert!(!same_text("abc", "abd"));
    assert!(!same_text("abc", "ab"));
    assert!(same_text("", ""));
    assert_eq!(to_lower('A'), 'a');
    assert_eq!(to_lower('Z'), 'z');
    assert_eq!(to_lower('a'), 'a');
    assert_eq!(to_lower('1'), '1');
    assert_eq!(to_lower('É'), 'É');
    assert!(same_text_lowered("StRiNg", "string"));
    assert!(same_text_lowered("string", "string"));
    assert!(!same_text_lowered("strin", "string"));
    assert!(!same_text_lowered("string", "STRING"));
}
