//! Laws of the tokenizer and of the grammar.

use crate::grammar::{
    assignment, at_end, binary, call, declaration, expr_stmt, expression, operand, primary,
    statement, unary, Level,
};
use crate::grammar::terminated;
use crate::scan::{
    comment_tail, digit_run, hex_run, lexeme_at, line_rest, scan, scan_from, string_tail, word_run,
};
use crate::token::TokenView;
use vstd::prelude::*;

verus! {

/// Every lexeme takes at least one character and gives at most one token
/// and at most one diagnostic.
pub proof fn lemma_lexeme_is_small(src: Seq<char>, pos: int)
    requires
        0 <= pos < src.len(),
    ensures
        lexeme_at(src, pos).used >= 1,
        lexeme_at(src, pos).tokens.len() <= 1,
        lexeme_at(src, pos).errors.len() <= 1,
{
}

/// Runs of characters end inside the text.
pub proof fn lemma_runs_stay_inside(src: Seq<char>, pos: int)
    requires
        0 <= pos <= src.len(),
    ensures
        pos + word_run(src, pos) <= src.len(),
        pos + digit_run(src, pos) <= src.len(),
        pos + hex_run(src, pos) <= src.len(),
        pos + line_rest(src, pos) <= src.len(),
    decreases src.len() - pos,
{
    if pos < src.len() {
        lemma_runs_stay_inside(src, pos + 1);
    }
}

/// A block comment ends inside the text, and one that is never closed runs
/// up to the end of the text.
pub proof fn lemma_comment_stays_inside(src: Seq<char>, pos: int, depth: nat)
    requires
        0 <= pos <= src.len(),
    ensures
        pos + comment_tail(src, pos, depth).used <= src.len(),
        !comment_tail(src, pos, depth).closed ==> pos + comment_tail(src, pos, depth).used
            == src.len(),
    decreases src.len() - pos,
{
    if pos < src.len() {
        if src[pos] == '*' && crate::scan::peek(src, pos + 1) == '/' {
            if depth > 1 {
                lemma_comment_stays_inside(src, pos + 2, (depth - 1) as nat);
            }
        } else if src[pos] == '/' && crate::scan::peek(src, pos + 1) == '*' {
            lemma_comment_stays_inside(src, pos + 2, depth + 1);
        } else {
            lemma_comment_stays_inside(src, pos + 1, depth);
        }
    }
}

/// A string literal ends inside the text, and one that is never closed runs
/// up to the end of the text.
pub proof fn lemma_string_stays_inside(src: Seq<char>, pos: int)
    requires
        0 <= pos <= src.len(),
    ensures
        pos + string_tail(src, pos).used <= src.len(),
        !string_tail(src, pos).closed ==> pos + string_tail(src, pos).used == src.len(),
    decreases src.len() - pos,
{
    if pos < src.len() {
        if src[pos] == '"' {
        } else if src[pos] == '\\' {
            if pos + 1 < src.len() {
                lemma_string_stays_inside(src, pos + 2);
            }
        } else {
            lemma_string_stays_inside(src, pos + 1);
        }
    }
}

/// Every lexeme ends inside the text. A string or a block comment that is
/// never closed ends at the end of the text and is reported: no text makes
/// the tokenizer read on for ever.
pub proof fn lemma_lexeme_stays_inside(src: Seq<char>, pos: int)
    requires
        0 <= pos < src.len(),
    ensures
        pos + lexeme_at(src, pos).used <= src.len(),
        src[pos] == '"' && !string_tail(src, pos + 1).closed ==> pos + lexeme_at(src, pos).used
            == src.len() && lexeme_at(src, pos).errors.len() == 1,
        src[pos] == '/' && crate::scan::peek(src, pos + 1) == '*' && !comment_tail(
            src,
            pos + 2,
            1,
        ).closed ==> pos + lexeme_at(src, pos).used == src.len() && lexeme_at(
            src,
            pos,
        ).errors.len() == 1,
{
    lemma_runs_stay_inside(src, pos);
    lemma_runs_stay_inside(src, pos + 1);
    lemma_string_stays_inside(src, pos + 1);
    if pos + 2 <= src.len() {
        lemma_runs_stay_inside(src, pos + 2);
        lemma_comment_stays_inside(src, pos + 2, 1);
    }
    if pos + 3 <= src.len() {
        lemma_runs_stay_inside(src, pos + 3);
    }
    let whole = digit_run(src, pos);
    if pos + whole + 1 <= src.len() {
        lemma_runs_stay_inside(src, pos + whole + 1);
    }
    let signed = digit_run(src, pos + 1);
    if pos + 1 + signed + 1 <= src.len() {
        lemma_runs_stay_inside(src, pos + 1 + signed + 1);
    }
}

/// The tokens of any text from any position on end with the end-of-input
/// token, so the parser accepts them.
pub proof fn lemma_scan_from_is_terminated(src: Seq<char>, pos: int)
    requires
        0 <= pos <= src.len(),
    ensures
        terminated(scan_from(src, pos).tokens),
    decreases src.len() - pos,
{
    if pos < src.len() {
        lemma_lexeme_is_small(src, pos);
        lemma_lexeme_stays_inside(src, pos);
        lemma_scan_from_is_terminated(src, pos + lexeme_at(src, pos).used);
    }
}

/// The tokens of any source text end with the end-of-input token, so the
/// parser accepts them.
pub proof fn lemma_scan_is_terminated(src: Seq<char>)
    ensures
        terminated(scan(src).tokens),
{
    lemma_scan_from_is_terminated(src, 0);
}

/// Tokenizing is linear in its output: a text of n characters has at most
/// n + 1 tokens and at most n diagnostics.
pub proof fn lemma_scan_from_is_linear(src: Seq<char>, pos: int)
    requires
        0 <= pos <= src.len(),
    ensures
        scan_from(src, pos).tokens.len() <= src.len() - pos + 1,
        scan_from(src, pos).errors.len() <= src.len() - pos,
    decreases src.len() - pos,
{
    if pos < src.len() {
        lemma_lexeme_is_small(src, pos);
        lemma_lexeme_stays_inside(src, pos);
        lemma_scan_from_is_linear(src, pos + lexeme_at(src, pos).used);
    }
}

/// Forward progress: a primary expression takes a token unless it stands
/// at the end of input.
pub proof fn lemma_primary_takes_a_token(ts: Seq<TokenView>, pos: int)
    requires
        !at_end(ts, pos),
    ensures
        primary(ts, pos).used >= 1,
{
    reveal_with_fuel(primary, 1);
}

/// Forward progress: a call takes a token unless it stands at the end of
/// input.
pub proof fn lemma_call_takes_a_token(ts: Seq<TokenView>, pos: int)
    requires
        !at_end(ts, pos),
    ensures
        call(ts, pos, None).used >= 1,
{
    reveal_with_fuel(call, 1);
    reveal_with_fuel(primary, 1);
    lemma_primary_takes_a_token(ts, pos);
}

/// Forward progress: a unary expression takes a token unless it stands at
/// the end of input.
pub proof fn lemma_unary_takes_a_token(ts: Seq<TokenView>, pos: int)
    requires
        !at_end(ts, pos),
    ensures
        unary(ts, pos).used >= 1,
{
    reveal_with_fuel(unary, 1);
    reveal_with_fuel(call, 1);
    lemma_call_takes_a_token(ts, pos);
}

/// Forward progress: a chain of any level takes a token unless it stands at
/// the end of input.
pub proof fn lemma_binary_takes_a_token(ts: Seq<TokenView>, pos: int, level: Level)
    requires
        !at_end(ts, pos),
    ensures
        binary(ts, pos, level).used >= 1,
    decreases level.rank(),
{
    reveal_with_fuel(binary, 1);
    reveal_with_fuel(operand, 1);
    reveal_with_fuel(unary, 1);
    match level {
        Level::Or => lemma_binary_takes_a_token(ts, pos, Level::And),
        Level::And => lemma_binary_takes_a_token(ts, pos, Level::Equality),
        Level::Equality => lemma_binary_takes_a_token(ts, pos, Level::Comparison),
        Level::Comparison => lemma_binary_takes_a_token(ts, pos, Level::Term),
        Level::Term => lemma_binary_takes_a_token(ts, pos, Level::Factor),
        Level::Factor => lemma_unary_takes_a_token(ts, pos),
    }
    assert(operand(ts, pos, level).used >= 1);
}

/// Forward progress: an expression takes a token unless it stands at the
/// end of input.
pub proof fn lemma_expression_takes_a_token(ts: Seq<TokenView>, pos: int)
    requires
        !at_end(ts, pos),
    ensures
        expression(ts, pos).used >= 1,
{
    reveal_with_fuel(expression, 1);
    reveal_with_fuel(assignment, 1);
    reveal_with_fuel(binary, 1);
    lemma_binary_takes_a_token(ts, pos, Level::Or);
    assert(assignment(ts, pos).used >= 1);
}

/// Forward progress: a statement takes a token unless it stands at the end
/// of input.
pub proof fn lemma_statement_takes_a_token(ts: Seq<TokenView>, pos: int)
    requires
        !at_end(ts, pos),
    ensures
        statement(ts, pos).used >= 1,
{
    reveal_with_fuel(statement, 1);
    reveal_with_fuel(expr_stmt, 1);
    reveal_with_fuel(expression, 1);
    reveal_with_fuel(crate::grammar::if_stmt, 1);
    reveal_with_fuel(crate::grammar::while_stmt, 1);
    reveal_with_fuel(crate::grammar::for_stmt, 1);
    reveal_with_fuel(crate::grammar::return_stmt, 1);
    reveal_with_fuel(crate::grammar::import_stmt, 1);
    lemma_expression_takes_a_token(ts, pos);
    assert(expr_stmt(ts, pos).used >= 1);
}

/// Forward progress: a declaration takes a token unless it stands at the
/// end of input. So the loops over the declarations of a block and of a
/// program come to an end on every token stream.
pub proof fn lemma_declaration_takes_a_token(ts: Seq<TokenView>, pos: int)
    requires
        !at_end(ts, pos),
    ensures
        declaration(ts, pos).used >= 1,
{
    reveal_with_fuel(declaration, 1);
    reveal_with_fuel(statement, 1);
    lemma_statement_takes_a_token(ts, pos);
}

/// Where a primary expression stands for no expression, either a list or
/// map literal starts there or a diagnostic is recorded.
pub proof fn lemma_unknown_is_reported(ts: Seq<TokenView>, pos: int)
    requires
        primary(ts, pos).value is Unknown,
    ensures
        primary(ts, pos).errors.len() >= 1 || crate::grammar::kind_at(ts, pos)
            == crate::token::TokenType::LBracket || crate::grammar::kind_at(ts, pos)
            == crate::token::TokenType::LBrace,
{
    reveal_with_fuel(primary, 1);
    reveal_with_fuel(crate::grammar::anonymous_function, 1);
}

} // verus!
