//! The parser: recursive descent over a token stream, with error recovery.

use crate::ast::{
    boxed_expr_views, expr_views, lemma_boxed_expr_views_push, lemma_boxed_expr_views_small,
    lemma_expr_views_push, lemma_expr_views_small, lemma_node_views_push, lemma_node_views_small,
    node_views, Expr, ExprView, Node, NodeView, Stmt, StmtView, TypeInfo,
};
use crate::error::ParserError;
use crate::grammar;
use crate::grammar::{
    at_end, before, diagnostic, kind_at, remaining, terminated, Level, Parsed, Step,
};
use crate::laws::lemma_declaration_takes_a_token;
use crate::printer::{
    lemma_printable_exprs, lemma_printable_exprs_push, lemma_printable_nodes,
    lemma_printable_nodes_push, printable_exprs, printable_nodes,
};
use crate::text::same_text_lowered;
use crate::token::{Token, TokenType};
use vstd::prelude::*;
use vstd::string::StringExecFns;

verus! {

/// A parser over one token stream. `statements` and `errors` hold what the
/// last run of [`Parser::parse`] produced.
pub struct Parser {
    /// The cursor: the index of the current token.
    pub c: usize,
    /// The current token.
    pub current: Token,
    pub errors: Vec<ParserError>,
    pub statements: Vec<Node>,
}

impl Parser {
    /// The stream is closed by the end of input, the cursor is inside it,
    /// and the current token is the one under the cursor.
    pub open spec fn ready(&self, tokens: &Vec<Token>) -> bool {
        &&& terminated(tokens.deep_view())
        &&& self.c < tokens@.len()
        &&& self.current@ == tokens@[self.c as int]@
    }

    /// Since `before`, the parser has taken the tokens and recorded the
    /// diagnostics of `by`, and nothing else has changed.
    pub open spec fn advanced<T>(&self, before: &Parser, by: Parsed<T>) -> bool {
        &&& self.c == before.c + by.used
        &&& self.errors.deep_view() =~= before.errors.deep_view() + by.errors
        &&& self.statements == before.statements
    }

    /// Since `before`, the parser has taken the tokens and recorded the
    /// diagnostics of `by`, and nothing else has changed.
    pub open spec fn stepped(&self, before: &Parser, by: Step) -> bool {
        &&& self.c == before.c + by.used
        &&& self.errors.deep_view() =~= before.errors.deep_view() + by.errors
        &&& self.statements == before.statements
    }

    /// A parser at the start of `tokens`, which has not run yet.
    pub fn new(tokens: &Vec<Token>) -> (parser: Parser)
        requires
            tokens@.len() > 0,
        ensures
            parser.c == 0,
            parser.current@ == tokens@[0]@,
            parser.errors@.len() == 0,
            parser.statements@.len() == 0,
    {
        Parser { c: 0, current: tokens[0].clone(), errors: Vec::new(), statements: Vec::new() }
    }

    /// Checks if the end is reached
    fn is_end(&self, tokens: &Vec<Token>) -> (end: bool)
        requires
            self.ready(tokens),
        ensures
            end == at_end(tokens.deep_view(), self.c as int),
    {
        match tokens[self.c].kind {
            TokenType::EOF => true,
            _ => false,
        }
    }

    /// Checks if the token type of the current token is the same as the expected token type
    fn check_current(&self, kind: TokenType, tokens: &Vec<Token>) -> (same: bool)
        requires
            self.ready(tokens),
        ensures
            same == (kind_at(tokens.deep_view(), self.c as int) == kind),
    {
        tokens[self.c].kind == kind
    }

    /// Checks if the token type of the next token is the same as the expected token type
    fn check_next(&self, kind: TokenType, tokens: &Vec<Token>) -> (same: bool)
        requires
            self.ready(tokens),
        ensures
            same == (!at_end(tokens.deep_view(), self.c as int) && kind_at(
                tokens.deep_view(),
                self.c + 1,
            ) == kind),
    {
        if self.is_end(tokens) {
            false
        } else {
            let count = tokens.len();
            assert(tokens.deep_view().last() == tokens@[count - 1]@);
            tokens[self.c + 1].kind == kind
        }
    }

    /// Returns the previous token
    fn previous(&self, tokens: &Vec<Token>) -> (token: Token)
        requires
            self.ready(tokens),
        ensures
            token@ == before(tokens.deep_view(), self.c as int),
    {
        if self.c == 0 {
            tokens[0].clone()
        } else {
            tokens[self.c - 1].clone()
        }
    }

    /// Advances one token
    fn advance(&mut self, tokens: &Vec<Token>)
        requires
            old(self).ready(tokens),
        ensures
            final(self).ready(tokens),
            final(self).c == if at_end(tokens.deep_view(), old(self).c as int) {
                old(self).c as int
            } else {
                old(self).c + 1
            },
            final(self).errors == old(self).errors,
            final(self).statements == old(self).statements,
    {
        if !self.is_end(tokens) {
            let count = tokens.len();
            assert(tokens.deep_view().last() == tokens@[count - 1]@);
            self.c += 1;
            self.current = tokens[self.c].clone();
        }
    }

    /// Appends the error created with the given error message and the current line and column
    fn add_error(&mut self, message: &str, Ghost(tokens): Ghost<&Vec<Token>>)
        requires
            old(self).ready(tokens),
        ensures
            final(self).ready(tokens),
            final(self).c == old(self).c,
            final(self).statements == old(self).statements,
            final(self).errors.deep_view() == old(self).errors.deep_view().push(
                diagnostic(tokens.deep_view(), old(self).c as int, message@),
            ),
    {
        let ghost errors = self.errors.deep_view();
        let error = ParserError::new(message, self.current.position.0, self.current.position.1);
        self.errors.push(error);
        assert(self.errors.deep_view() =~= errors.push(error@));
    }

    /// Checks if the current token is in the given types
    fn does_match(&mut self, these: &[TokenType], tokens: &Vec<Token>) -> (found: bool)
        requires
            old(self).ready(tokens),
        ensures
            final(self).ready(tokens),
            found == these@.contains(kind_at(tokens.deep_view(), old(self).c as int)),
            final(self).c == if found && !at_end(tokens.deep_view(), old(self).c as int) {
                old(self).c + 1
            } else {
                old(self).c as int
            },
            final(self).errors == old(self).errors,
            final(self).statements == old(self).statements,
    {
        let mut i: usize = 0;
        while i < these.len()
            invariant
                i <= these.len(),
                self.ready(tokens),
                *self == *old(self),
                forall|k: int| 0 <= k < i ==> these@[k] != kind_at(
                    tokens.deep_view(),
                    self.c as int,
                ),
            decreases these.len() - i,
        {
            if self.check_current(these[i], tokens) {
                self.advance(tokens);
                return true;
            }
            i += 1;
        }
        false
    }

    /// Checks whether the current token is the expected type or not, and if not, adds an error
    fn expect(&mut self, kind: TokenType, message: &str, tokens: &Vec<Token>)
        requires
            old(self).ready(tokens),
            kind != TokenType::EOF,
        ensures
            final(self).ready(tokens),
            final(self).stepped(
                old(self),
                grammar::expect(tokens.deep_view(), old(self).c as int, kind, message@),
            ),
    {
        if self.check_current(kind, tokens) {
            self.advance(tokens);
        } else {
            self.add_error(message, Ghost(tokens));
        }
    }

    /// Parses a parameter list in parentheses; `kind` says in diagnostics
    /// whose parameters they are.
    fn parse_params(&mut self, kind: &str, tokens: &Vec<Token>) -> (params: Vec<Token>)
        requires
            old(self).ready(tokens),
        ensures
            final(self).ready(tokens),
            final(self).advanced(
                old(self),
                grammar::params(tokens.deep_view(), old(self).c as int, kind@),
            ),
            params.deep_view() == grammar::params(
                tokens.deep_view(),
                old(self).c as int,
                kind@,
            ).value,
    {
        let ghost ts = tokens.deep_view();
        let mut message = String::from_str("expected '(' after ");
        message.append(kind);
        message.append(" name");
        self.expect(TokenType::LParen, message.as_str(), tokens);
        let mut params: Vec<Token> = Vec::new();
        let ghost start = self.c as int;
        let ghost errors = self.errors.deep_view();
        if !self.check_current(TokenType::RParen, tokens) {
            let ghost whole = grammar::param_items(ts, start);
            assert(params.deep_view() =~= Seq::empty());
            loop
                invariant_except_break
                    whole.value =~= params.deep_view() + grammar::param_items(
                        ts,
                        self.c as int,
                    ).value,
                    whole.used == (self.c - start) + grammar::param_items(ts, self.c as int).used,
                    whole.errors =~= self.errors.deep_view().skip(errors.len() as int)
                        + grammar::param_items(ts, self.c as int).errors,
                invariant
                    self.ready(tokens),
                    ts == tokens.deep_view(),
                    start <= self.c,
                    errors.len() <= self.errors.deep_view().len(),
                    self.errors.deep_view().take(errors.len() as int) =~= errors,
                    self.statements == old(self).statements,
                ensures
                    whole.value =~= params.deep_view(),
                    whole.used == self.c - start,
                    whole.errors =~= self.errors.deep_view().skip(errors.len() as int),
                decreases tokens@.len() - self.c,
            {
                let ghost listed = params.deep_view();
                self.expect(TokenType::Id, "expected an identifier", tokens);
                let param = self.previous(tokens);
                params.push(param);
                assert(params.deep_view() =~= listed.push(param@));
                if !self.does_match(&[TokenType::Comma], tokens) {
                    break ;
                }
            }
            proof {
                let all = self.errors.deep_view();
                let n = errors.len() as int;
                assert(all =~= all.take(n) + all.skip(n));
                assert(all =~= errors + whole.errors);
            }
        }
        let ghost listed = self.errors.deep_view();
        self.expect(TokenType::RParen, "expected ')' after parameters", tokens);
        proof {
            let open = grammar::expect(ts, old(self).c as int, TokenType::LParen, message@);
            let items = if kind_at(ts, start) != TokenType::RParen {
                grammar::param_items(ts, start)
            } else {
                Parsed { value: Seq::empty(), used: 0, errors: Seq::empty() }
            };
            let close = grammar::expect(
                ts,
                start + items.used,
                TokenType::RParen,
                "expected ')' after parameters"@,
            );
            assert(message@ == "expected '(' after "@ + kind@ + " name"@);
            assert(errors =~= old(self).errors.deep_view() + open.errors);
            assert(listed =~= errors + items.errors);
            assert(self.errors.deep_view() =~= listed + close.errors);
            assert(self.errors.deep_view() =~= old(self).errors.deep_view() + (open.errors
                + items.errors + close.errors));
        }
        params
    }

    /// Parses an expression.
    #[verifier::spinoff_prover]
    fn expression(&mut self, tokens: &Vec<Token>) -> (e: Expr)
        requires
            old(self).ready(tokens),
        ensures
            final(self).ready(tokens),
            final(self).advanced(
                old(self),
                grammar::expression(tokens.deep_view(), old(self).c as int),
            ),
            e@ == grammar::expression(tokens.deep_view(), old(self).c as int).value,
            e@.printable(),
        decreases remaining(tokens.deep_view(), old(self).c as int), 22nat,
    {
        reveal_with_fuel(grammar::expression, 1);
        reveal_with_fuel(grammar::assignment, 1);
        return self.assignment(tokens);
    }

    /// Parses an assignment, or what stands below it on the precedence ladder.
    #[verifier::spinoff_prover]
    fn assignment(&mut self, tokens: &Vec<Token>) -> (e: Expr)
        requires
            old(self).ready(tokens),
        ensures
            final(self).ready(tokens),
            final(self).advanced(
                old(self),
                grammar::assignment(tokens.deep_view(), old(self).c as int),
            ),
            e@ == grammar::assignment(tokens.deep_view(), old(self).c as int).value,
            e@.printable(),
        decreases remaining(tokens.deep_view(), old(self).c as int), 21nat,
    {
        reveal_with_fuel(grammar::assignment, 1);
        reveal_with_fuel(grammar::binary, 1);
        let ghost ts = tokens.deep_view();
        let ghost pos = old(self).c as int;
        let ghost errors = self.errors.deep_view();
        let ghost target = grammar::binary(ts, pos, Level::Or);
        let expr = self.or_expr(tokens);
        let ghost at_op = self.c as int;
        if self.check_current(TokenType::Equal, tokens) {
            let eq = self.current.clone();
            self.advance(tokens);
            let value = Box::new(self.assignment(tokens));
            let ghost rhs = grammar::assignment(ts, at_op + 1);
            assert(self.errors.deep_view() =~= errors + (target.errors + rhs.errors));

            match expr {
                Expr::Variable { name } => {
                    return Expr::Assign { name, value };
                },
                Expr::Get { instance, token } => {
                    return Expr::SetMember { instance, token, value };
                },
                _ => {
                    let ghost recorded = self.errors.deep_view();
                    let error = ParserError::new(
                        "invalid assignment target",
                        eq.position.0,
                        eq.position.1,
                    );
                    self.errors.push(error);
                    assert(self.errors.deep_view() =~= recorded.push(error@));
                    assert(self.errors.deep_view() =~= errors + (target.errors + rhs.errors
                        + seq![diagnostic(ts, at_op, "invalid assignment target"@)]));
                },
            };
            return expr;
        } else if self.does_match(
            &[
                TokenType::PlusEq,
                TokenType::MinusEq,
                TokenType::MulEq,
                TokenType::DivEq,
                TokenType::ModEq,
            ],
            tokens,
        ) {
            let op = Parser::base_operator(self.previous(tokens));
            let value = self.assignment(tokens);
            let ghost rhs = grammar::assignment(ts, at_op + 1);
            assert(self.errors.deep_view() =~= errors + (target.errors + rhs.errors));
            match expr {
                Expr::Variable { ref name } => {
                    let name = name.clone();
                    let sum = Expr::Binary { left: Box::new(expr), right: Box::new(value), op };
                    assert(sum@.printable());
                    return Expr::Assign { name, value: Box::new(sum) };
                },
                _ => {
                    self.add_error("expected a variable", Ghost(tokens));
                    assert(self.errors.deep_view() =~= errors + (target.errors + rhs.errors
                        + seq![diagnostic(ts, self.c as int, "expected a variable"@)]));
                },
            };
            return expr;
        } else if self.does_match(&[TokenType::DPlus, TokenType::DMinus], tokens) {
            let op = self.previous(tokens);
            match expr {
                Expr::Variable { ref name } => {
                    let name = name.clone();
                    let one = Expr::Literal { kind: TokenType::Num, value: String::from_str("1") };
                    assert(one@ == grammar::one());
                    assert(one@.printable());
                    let sum = Expr::Binary { left: Box::new(expr), right: Box::new(one), op };
                    assert(sum@.printable());
                    return Expr::Assign { name, value: Box::new(sum) };
                },
                _ => {
                    self.add_error("expected a variable", Ghost(tokens));
                    assert(self.errors.deep_view() =~= errors + (target.errors + seq![
                        diagnostic(ts, self.c as int, "expected a variable"@),
                    ]));
                },
            }
            return expr;
        }
        return expr;
    }

    /// The operator token of a desugared compound assignment.
    fn base_operator(op: Token) -> (base: Token)
        ensures
            base@ == grammar::base_operator(op@),
    {
        let kind = match op.kind {
            TokenType::PlusEq => TokenType::Plus,
            TokenType::MinusEq => TokenType::Minus,
            TokenType::MulEq => TokenType::Mul,
            TokenType::DivEq => TokenType::Div,
            TokenType::ModEq => TokenType::Mod,
            kind => kind,
        };
        Token { kind, value: op.value, position: op.position }
    }

    /// Parses a primary expression.
    #[verifier::spinoff_prover]
    fn primary(&mut self, tokens: &Vec<Token>) -> (e: Expr)
        requires
            old(self).ready(tokens),
        ensures
            final(self).ready(tokens),
            final(self).advanced(old(self), grammar::primary(tokens.deep_view(), old(self).c as int)),
            e@ == grammar::primary(tokens.deep_view(), old(self).c as int).value,
            e@.printable(),
        decreases remaining(tokens.deep_view(), old(self).c as int), 0nat,
    {
        reveal_with_fuel(grammar::primary, 1);
        reveal_with_fuel(grammar::expression, 1);
        reveal_with_fuel(grammar::anonymous_function, 1);
        if self.does_match(&[TokenType::True, TokenType::False, TokenType::Null], tokens) {
            // Boolean and null literal
            let token = self.previous(tokens);
            Expr::Literal { kind: token.kind, value: token.value }
        } else if self.does_match(&[TokenType::Num, TokenType::Str], tokens) {
            // string or number literal
            let token = self.previous(tokens);
            Expr::Literal { kind: token.kind, value: token.value }
        } else if self.does_match(&[TokenType::Id], tokens) {
            // identifier
            let token = self.previous(tokens);
            Expr::Variable { name: token }
        } else if self.does_match(&[TokenType::LParen], tokens) {
            // grouping
            let expr = Box::new(self.expression(tokens));
            self.expect(TokenType::RParen, "expected ')'", tokens);
            Expr::Group { expr }
        } else if self.does_match(&[TokenType::LBracket], tokens) {
            // list literal
            Expr::Unknown
        } else if self.does_match(&[TokenType::LBrace], tokens) {
            // map literal
            Expr::Unknown
        } else if self.does_match(&[TokenType::Func], tokens) {
            // anonymous function
            self.anonymous_function(tokens)
        } else {
            self.add_error("unexpected token", Ghost(tokens));
            self.advance(tokens);
            Expr::Unknown
        }
    }

    /// Parses an anonymous function, after the keyword `fn`.
    #[verifier::spinoff_prover]
    fn anonymous_function(&mut self, tokens: &Vec<Token>) -> (e: Expr)
        requires
            old(self).ready(tokens),
        ensures
            final(self).ready(tokens),
            final(self).advanced(
                old(self),
                grammar::anonymous_function(tokens.deep_view(), old(self).c as int),
            ),
            e@ == grammar::anonymous_function(tokens.deep_view(), old(self).c as int).value,
            e@.printable(),
        decreases remaining(tokens.deep_view(), old(self).c as int), 23nat,
    {
        reveal_with_fuel(grammar::anonymous_function, 1);
        reveal_with_fuel(grammar::block, 1);
        reveal_with_fuel(grammar::expression, 1);
        let ghost ts = tokens.deep_view();
        let ghost pos = old(self).c as int;
        let ghost errors = self.errors.deep_view();
        let params = self.parse_params("anonymous function", tokens);
        let ghost names = grammar::params(ts, pos, "anonymous function"@);
        if self.check_current(TokenType::LBrace, tokens) {
            self.advance(tokens);
            let body = self.parse_block(tokens);
            proof {
                let body_spec = grammar::block(ts, pos + names.used + 1);
                assert(self.errors.deep_view() =~= errors + (names.errors + body_spec.errors));
            }
            Expr::Func { params, body }
        } else {
            // if there's no block, then expects an expression
            let token = self.previous(tokens);
            let expr = self.expression(tokens);
            // automatically returns the expression
            let ghost result = expr;
            let values = vec![expr];
            proof {
                lemma_expr_views_small(result);
                assert(values@ =~= seq![result]);
                lemma_printable_exprs(seq![result@]);
            }
            let return_stmt = Stmt::Return { token, values };
            assert(return_stmt@ == StmtView::Return { token: token@, values: seq![result@] });
            assert(return_stmt@.printable());
            let return_node = Node::STMT(return_stmt);
            let ghost returned = return_node;
            let body = vec![return_node];
            proof {
                lemma_node_views_small(returned, returned);
                assert(body@ =~= seq![returned]);
                lemma_printable_nodes(seq![returned@]);
                let result_spec = grammar::expression(ts, pos + names.used);
                assert(self.errors.deep_view() =~= errors + (names.errors + result_spec.errors));
            }
            Expr::Func { params, body }
        }
    }

    /// Parses a call of `callee`, after the opening parenthesis; `arg` is the
    /// value that a `|>` hands to the call as its first argument.
    #[verifier::spinoff_prover]
    fn finish_call(&mut self, callee: Expr, arg: Option<Expr>, tokens: &Vec<Token>) -> (e:
        Expr)
        requires
            old(self).ready(tokens),
            callee@.printable(),
            arg matches Some(a) ==> a@.printable(),
        ensures
            final(self).ready(tokens),
            final(self).advanced(
                old(self),
                grammar::finish_call(
                    tokens.deep_view(),
                    old(self).c as int,
                    callee@,
                    option_view(arg),
                ),
            ),
            e@ == grammar::finish_call(
                tokens.deep_view(),
                old(self).c as int,
                callee@,
                option_view(arg),
            ).value,
            e@.printable(),
        decreases remaining(tokens.deep_view(), old(self).c as int), 24nat,
    {
        reveal_with_fuel(grammar::finish_call, 1);
        reveal_with_fuel(grammar::call_args, 1);
        reveal_with_fuel(grammar::expression, 1);
        let ghost ts = tokens.deep_view();
        let ghost pos = old(self).c as int;
        let ghost errors = self.errors.deep_view();
        let ghost first: Seq<ExprView> = match option_view(arg) {
            Some(value) => seq![value],
            None => Seq::empty(),
        };
        let ghost listed = grammar::call_args(ts, pos);
        let callee = Box::new(callee);
        let mut args: Vec<Box<Expr>> = Vec::new();
        proof {
            lemma_boxed_expr_views_small(callee);
        }
        match arg {
            // check for |>
            Some(a) => {
                push_argument(&mut args, a);
            },
            _ => {},
        }
        assert(boxed_expr_views(args@) =~= first);

        self.arguments(&mut args, tokens);
        self.expect(TokenType::RParen, "expected ')'", tokens);
        let token = self.previous(tokens);
        let ghost close = grammar::expect(ts, pos + listed.used, TokenType::RParen, "expected ')'"@);

        // check for <|
        if self.does_match(&[TokenType::LPipe], tokens) {
            let argument = self.expression(tokens);
            push_argument(&mut args, argument);
            proof {
                let last = grammar::expression(ts, pos + listed.used + close.used + 1);
                assert(self.errors.deep_view() =~= errors + (listed.errors + close.errors
                    + last.errors));
                assert(boxed_expr_views(args@) =~= first + listed.value + seq![last.value]);
            }
        } else {
            assert(self.errors.deep_view() =~= errors + (listed.errors + close.errors));
            assert(boxed_expr_views(args@) =~= first + listed.value);
        }
        Expr::Call { callee, args, token }
    }

    /// Parses the arguments of a call, after the opening parenthesis, and
    /// appends them to `args`.
    #[verifier::spinoff_prover]
    fn arguments(&mut self, args: &mut Vec<Box<Expr>>, tokens: &Vec<Token>)
        requires
            old(self).ready(tokens),
            printable_exprs(boxed_expr_views(old(args)@)),
        ensures
            final(self).ready(tokens),
            final(self).advanced(
                old(self),
                grammar::call_args(tokens.deep_view(), old(self).c as int),
            ),
            boxed_expr_views(final(args)@) == boxed_expr_views(old(args)@) + grammar::call_args(
                tokens.deep_view(),
                old(self).c as int,
            ).value,
            printable_exprs(boxed_expr_views(final(args)@)),
        decreases remaining(tokens.deep_view(), old(self).c as int), 23nat,
    {
        reveal_with_fuel(grammar::call_args, 1);
        reveal_with_fuel(grammar::comma_exprs, 1);
        reveal_with_fuel(grammar::expression, 1);
        let ghost ts = tokens.deep_view();
        let ghost pos = old(self).c as int;
        let ghost errors = self.errors.deep_view();
        let ghost given = boxed_expr_views(args@);
        if !self.check_current(TokenType::RParen, tokens) {
            let argument = self.expression(tokens);
            push_argument(args, argument);
            let ghost head = grammar::expression(ts, pos);
            let ghost mid = self.c as int;
            let ghost tail = grammar::comma_exprs(ts, mid);
            loop
                invariant_except_break
                    given + seq![head.value] + tail.value =~= boxed_expr_views(args@)
                        + grammar::comma_exprs(ts, self.c as int).value,
                    tail.used == (self.c - mid) + grammar::comma_exprs(ts, self.c as int).used,
                    errors + head.errors + tail.errors =~= self.errors.deep_view()
                        + grammar::comma_exprs(ts, self.c as int).errors,
                invariant
                    self.ready(tokens),
                    ts == tokens.deep_view(),
                    pos <= mid <= self.c,
                    pos == old(self).c,
                    self.statements == old(self).statements,
                    printable_exprs(boxed_expr_views(args@)),
                ensures
                    given + seq![head.value] + tail.value =~= boxed_expr_views(args@),
                    tail.used == self.c - mid,
                    errors + head.errors + tail.errors =~= self.errors.deep_view(),
                decreases tokens@.len() - self.c,
            {
                reveal_with_fuel(grammar::comma_exprs, 1);
                reveal_with_fuel(grammar::expression, 1);
                let ghost here = self.c as int;
                let ghost so_far = boxed_expr_views(args@);
                let ghost recorded = self.errors.deep_view();
                if !self.does_match(&[TokenType::Comma], tokens) {
                    break ;
                }
                let argument = self.expression(tokens);
                push_argument(args, argument);
                proof {
                    let next = grammar::expression(ts, here + 1);
                    let rest = grammar::comma_exprs(ts, here + 1 + next.used);
                    assert(so_far + (seq![next.value] + rest.value) =~= so_far.push(next.value)
                        + rest.value);
                    assert(recorded + (next.errors + rest.errors) =~= recorded + next.errors
                        + rest.errors);
                }
            }
            assert(boxed_expr_views(args@) =~= given + (seq![head.value] + tail.value));
            assert(self.errors.deep_view() =~= errors + (head.errors + tail.errors));
        } else {
            assert(boxed_expr_views(args@) =~= given + Seq::empty());
            assert(self.errors.deep_view() =~= errors + Seq::empty());
        }
    }

    /// Parses a primary expression and what is applied to it; `arg` is the
    /// value that a `|>` before it hands to its calls.
    #[verifier::spinoff_prover]
    fn call(&mut self, tokens: &Vec<Token>, arg: &Option<Expr>) -> (e: Expr)
        requires
            old(self).ready(tokens),
            arg matches Some(a) ==> a@.printable(),
        ensures
            final(self).ready(tokens),
            final(self).advanced(
                old(self),
                grammar::call(tokens.deep_view(), old(self).c as int, option_view(*arg)),
            ),
            e@ == grammar::call(tokens.deep_view(), old(self).c as int, option_view(*arg)).value,
            e@.printable(),
        decreases remaining(tokens.deep_view(), old(self).c as int), 1nat,
    {
        reveal_with_fuel(grammar::call, 1);
        reveal_with_fuel(grammar::call_rest, 1);
        reveal_with_fuel(grammar::primary, 1);
        reveal_with_fuel(grammar::finish_call, 1);
        reveal_with_fuel(grammar::expression, 1);
        let ghost ts = tokens.deep_view();
        let ghost pos = old(self).c as int;
        let ghost errors = self.errors.deep_view();
        let ghost piped = option_view(*arg);
        let mut expr = self.primary(tokens);
        let ghost first = grammar::primary(ts, pos);
        let ghost mid = self.c as int;
        let ghost whole = grammar::call_rest(ts, mid, first.value, piped);
        loop
            invariant_except_break
                whole.value == grammar::call_rest(ts, self.c as int, expr@, piped).value,
                whole.used == (self.c - mid) + grammar::call_rest(
                    ts,
                    self.c as int,
                    expr@,
                    piped,
                ).used,
                errors + first.errors + whole.errors =~= self.errors.deep_view()
                    + grammar::call_rest(ts, self.c as int, expr@, piped).errors,
            invariant
                self.ready(tokens),
                ts == tokens.deep_view(),
                pos <= mid <= self.c,
                pos == old(self).c,
                self.statements == old(self).statements,
                expr@.printable(),
                piped == option_view(*arg),
                arg matches Some(a) ==> a@.printable(),
            ensures
                whole.value == expr@,
                whole.used == self.c - mid,
                errors + first.errors + whole.errors =~= self.errors.deep_view(),
            decreases tokens@.len() - self.c,
        {
            reveal_with_fuel(grammar::call, 1);
            reveal_with_fuel(grammar::call_rest, 1);
            reveal_with_fuel(grammar::finish_call, 1);
            reveal_with_fuel(grammar::expression, 1);
            let ghost here = self.c as int;
            let ghost callee = expr@;
            let ghost recorded = self.errors.deep_view();
            if self.does_match(&[TokenType::LParen], tokens) {
                expr = self.finish_call(expr, copy_option(arg), tokens);
                proof {
                    let called = grammar::finish_call(ts, here + 1, callee, piped);
                    let rest = grammar::call_rest(ts, here + 1 + called.used, called.value, piped);
                    assert(recorded + (called.errors + rest.errors) =~= recorded + called.errors
                        + rest.errors);
                }
            } else if self.does_match(&[TokenType::Dot], tokens) {
                self.expect(TokenType::Id, "expected an identifier", tokens);
                let name = self.previous(tokens);
                expr = Expr::Get { instance: Box::new(expr), token: name };
                proof {
                    let id = grammar::expect(
                        ts,
                        here + 1,
                        TokenType::Id,
                        "expected an identifier"@,
                    );
                    let rest = grammar::call_rest(ts, here + 1 + id.used, expr@, piped);
                    assert(recorded + (id.errors + rest.errors) =~= recorded + id.errors
                        + rest.errors);
                }
            } else if self.does_match(&[TokenType::RPipe], tokens) {
                expr = self.call(tokens, &Some(expr));
                break ;
            } else if self.does_match(&[TokenType::LBracket], tokens) {
                let mut token = self.previous(tokens);
                let key = self.expression(tokens);
                self.expect(TokenType::RBracket, "expected ']'", tokens);

                token.value = String::from_str("__getitem__");
                token.kind = TokenType::Id;
                let ghost index = key;
                let args = vec![Box::new(key)];
                proof {
                    lemma_boxed_expr_views_small(Box::new(index));
                    assert(args@ =~= seq![Box::new(index)]);
                    lemma_printable_exprs(seq![index@]);
                }
                let member = Expr::Get { instance: Box::new(expr), token: token.clone() };
                assert(member@ == ExprView::Get { instance: Box::new(callee), token: token@ });
                assert(member@.printable());
                expr = Expr::Call { callee: Box::new(member), args, token };
                proof {
                    let key_spec = grammar::expression(ts, here + 1);
                    let close = grammar::expect(
                        ts,
                        here + 1 + key_spec.used,
                        TokenType::RBracket,
                        "expected ']'"@,
                    );
                    let rest = grammar::call_rest(
                        ts,
                        here + 1 + key_spec.used + close.used,
                        expr@,
                        piped,
                    );
                    assert(recorded + (key_spec.errors + close.errors + rest.errors) =~= recorded
                        + key_spec.errors + close.errors + rest.errors);
                }
            } else {
                break ;
            }
        }
        assert(self.errors.deep_view() =~= errors + (first.errors + whole.errors));
        return expr;
    }

    /// Parses `!` or `-` before a unary expression, or a call.
    #[verifier::spinoff_prover]
    fn unary(&mut self, tokens: &Vec<Token>) -> (e: Expr)
        requires
            old(self).ready(tokens),
        ensures
            final(self).ready(tokens),
            final(self).advanced(old(self), grammar::unary(tokens.deep_view(), old(self).c as int)),
            e@ == grammar::unary(tokens.deep_view(), old(self).c as int).value,
            e@.printable(),
        decreases remaining(tokens.deep_view(), old(self).c as int), 2nat,
    {
        reveal_with_fuel(grammar::unary, 1);
        reveal_with_fuel(grammar::call, 1);
        if self.does_match(&[TokenType::Bang, TokenType::Minus], tokens) {
            let op = self.previous(tokens);
            Expr::Unary { right: Box::new(self.unary(tokens)), op }
        } else {
            self.call(tokens, &None)
        }
    }

    /// One operand of a chain of `level`.
    #[verifier::spinoff_prover]
    fn operand(&mut self, tokens: &Vec<Token>, level: Level) -> (e: Expr)
        requires
            old(self).ready(tokens),
        ensures
            final(self).ready(tokens),
            final(self).advanced(
                old(self),
                grammar::operand(tokens.deep_view(), old(self).c as int, level),
            ),
            e@ == grammar::operand(tokens.deep_view(), old(self).c as int, level).value,
            e@.printable(),
        decreases remaining(tokens.deep_view(), old(self).c as int), (level.rank() - 1) as nat,
    {
        reveal_with_fuel(grammar::operand, 1);
        reveal_with_fuel(grammar::binary, 1);
        reveal_with_fuel(grammar::unary, 1);
        match level {
            Level::Or => self.and_expr(tokens),
            Level::And => self.equality(tokens),
            Level::Equality => self.comparison(tokens),
            Level::Comparison => self.term(tokens),
            Level::Term => self.factor(tokens),
            Level::Factor => self.unary(tokens),
        }
    }

    /// A chain of operands joined by the operators of `level`.
    #[verifier::loop_isolation(false)]
    #[verifier::spinoff_prover]
    fn chain(&mut self, tokens: &Vec<Token>, level: Level) -> (e: Expr)
        requires
            old(self).ready(tokens),
        ensures
            final(self).ready(tokens),
            final(self).advanced(
                old(self),
                grammar::binary(tokens.deep_view(), old(self).c as int, level),
            ),
            e@ == grammar::binary(tokens.deep_view(), old(self).c as int, level).value,
            e@.printable(),
        decreases remaining(tokens.deep_view(), old(self).c as int), level.rank(),
    {
        reveal_with_fuel(grammar::binary, 1);
        reveal_with_fuel(grammar::binary_rest, 1);
        reveal_with_fuel(grammar::operand, 1);
        let ghost ts = tokens.deep_view();
        let ghost pos = old(self).c as int;
        let ghost errors = self.errors.deep_view();
        let mut expr = self.operand(tokens, level);
        let ghost first = grammar::operand(ts, pos, level);
        let ghost mid = self.c as int;
        let ghost whole = grammar::binary_rest(ts, mid, level, first.value);
        while operator_of(level, self.current.kind)
            invariant
                self.ready(tokens),
                ts == tokens.deep_view(),
                pos <= mid <= self.c,
                pos == old(self).c,
                self.statements == old(self).statements,
                expr@.printable(),
                whole.value == grammar::binary_rest(ts, self.c as int, level, expr@).value,
                whole.used == (self.c - mid) + grammar::binary_rest(
                    ts,
                    self.c as int,
                    level,
                    expr@,
                ).used,
                errors + first.errors + whole.errors =~= self.errors.deep_view()
                    + grammar::binary_rest(ts, self.c as int, level, expr@).errors,
            decreases tokens@.len() - self.c,
        {
            let ghost here = self.c as int;
            let ghost recorded = self.errors.deep_view();
            let op = self.current.clone();
            self.advance(tokens);
            let right = self.operand(tokens, level);
            expr = node_of(level, expr, op, right);
            proof {
                let right_spec = grammar::operand(ts, here + 1, level);
                let rest = grammar::binary_rest(ts, here + 1 + right_spec.used, level, expr@);
                assert(recorded + (right_spec.errors + rest.errors) =~= recorded
                    + right_spec.errors + rest.errors);
            }
        }
        assert(self.errors.deep_view() =~= errors + (first.errors + whole.errors));
        return expr;
    }

    /// Parses a chain of `/`, `*` and `%`.
    fn factor(&mut self, tokens: &Vec<Token>) -> (e: Expr)
        requires
            old(self).ready(tokens),
        ensures
            final(self).ready(tokens),
            final(self).advanced(
                old(self),
                grammar::binary(tokens.deep_view(), old(self).c as int, Level::Factor),
            ),
            e@ == grammar::binary(tokens.deep_view(), old(self).c as int, Level::Factor).value,
            e@.printable(),
        decreases remaining(tokens.deep_view(), old(self).c as int), 5nat,
    {
        self.chain(tokens, Level::Factor)
    }

    /// Parses a chain of `-` and `+`.
    fn term(&mut self, tokens: &Vec<Token>) -> (e: Expr)
        requires
            old(self).ready(tokens),
        ensures
            final(self).ready(tokens),
            final(self).advanced(
                old(self),
                grammar::binary(tokens.deep_view(), old(self).c as int, Level::Term),
            ),
            e@ == grammar::binary(tokens.deep_view(), old(self).c as int, Level::Term).value,
            e@.printable(),
        decreases remaining(tokens.deep_view(), old(self).c as int), 8nat,
    {
        self.chain(tokens, Level::Term)
    }

    /// Parses a chain of `>`, `>=`, `<` and `<=`.
    fn comparison(&mut self, tokens: &Vec<Token>) -> (e: Expr)
        requires
            old(self).ready(tokens),
        ensures
            final(self).ready(tokens),
            final(self).advanced(
                old(self),
                grammar::binary(tokens.deep_view(), old(self).c as int, Level::Comparison),
            ),
            e@ == grammar::binary(tokens.deep_view(), old(self).c as int, Level::Comparison).value,
            e@.printable(),
        decreases remaining(tokens.deep_view(), old(self).c as int), 11nat,
    {
        self.chain(tokens, Level::Comparison)
    }

    /// Parses a chain of `!=` and `==`.
    fn equality(&mut self, tokens: &Vec<Token>) -> (e: Expr)
        requires
            old(self).ready(tokens),
        ensures
            final(self).ready(tokens),
            final(self).advanced(
                old(self),
                grammar::binary(tokens.deep_view(), old(self).c as int, Level::Equality),
            ),
            e@ == grammar::binary(tokens.deep_view(), old(self).c as int, Level::Equality).value,
            e@.printable(),
        decreases remaining(tokens.deep_view(), old(self).c as int), 14nat,
    {
        self.chain(tokens, Level::Equality)
    }

    /// Parses a chain of `&&`.
    fn and_expr(&mut self, tokens: &Vec<Token>) -> (e: Expr)
        requires
            old(self).ready(tokens),
        ensures
            final(self).ready(tokens),
            final(self).advanced(
                old(self),
                grammar::binary(tokens.deep_view(), old(self).c as int, Level::And),
            ),
            e@ == grammar::binary(tokens.deep_view(), old(self).c as int, Level::And).value,
            e@.printable(),
        decreases remaining(tokens.deep_view(), old(self).c as int), 17nat,
    {
        self.chain(tokens, Level::And)
    }

    /// Parses a chain of `||`.
    fn or_expr(&mut self, tokens: &Vec<Token>) -> (e: Expr)
        requires
            old(self).ready(tokens),
        ensures
            final(self).ready(tokens),
            final(self).advanced(
                old(self),
                grammar::binary(tokens.deep_view(), old(self).c as int, Level::Or),
            ),
            e@ == grammar::binary(tokens.deep_view(), old(self).c as int, Level::Or).value,
            e@.printable(),
        decreases remaining(tokens.deep_view(), old(self).c as int), 20nat,
    {
        self.chain(tokens, Level::Or)
    }

    /// Parses a declaration, or a statement.
    #[verifier::spinoff_prover]
    fn declaration(&mut self, tokens: &Vec<Token>) -> (node: Node)
        requires
            old(self).ready(tokens),
        ensures
            final(self).ready(tokens),
            final(self).advanced(
                old(self),
                grammar::declaration(tokens.deep_view(), old(self).c as int),
            ),
            node@ == grammar::declaration(tokens.deep_view(), old(self).c as int).value,
            node@.printable(),
        decreases remaining(tokens.deep_view(), old(self).c as int), 25nat,
    {
        reveal_with_fuel(grammar::declaration, 1);
        reveal_with_fuel(grammar::var_declaration, 1);
        reveal_with_fuel(grammar::function, 1);
        reveal_with_fuel(grammar::statement, 1);
        if self.does_match(&[TokenType::Var], tokens) {
            self.var_declaration(tokens)
        } else if self.check_current(TokenType::Func, tokens) && self.check_next(
            TokenType::Id,
            tokens,
        ) {
            self.advance(tokens);
            self.function("function", tokens)
        } else if self.does_match(&[TokenType::Struct], tokens) {
            self.struct_declaration(tokens)
        } else {
            self.statement(tokens)
        }
    }

    /// Parses a statement.
    #[verifier::spinoff_prover]
    fn statement(&mut self, tokens: &Vec<Token>) -> (node: Node)
        requires
            old(self).ready(tokens),
        ensures
            final(self).ready(tokens),
            final(self).advanced(
                old(self),
                grammar::statement(tokens.deep_view(), old(self).c as int),
            ),
            node@ == grammar::statement(tokens.deep_view(), old(self).c as int).value,
            node@.printable(),
        decreases remaining(tokens.deep_view(), old(self).c as int), 24nat,
    {
        reveal_with_fuel(grammar::statement, 1);
        reveal_with_fuel(grammar::block, 1);
        reveal_with_fuel(grammar::if_stmt, 1);
        reveal_with_fuel(grammar::while_stmt, 1);
        reveal_with_fuel(grammar::for_stmt, 1);
        reveal_with_fuel(grammar::return_stmt, 1);
        reveal_with_fuel(grammar::import_stmt, 1);
        reveal_with_fuel(grammar::expr_stmt, 1);
        match self.current.kind {
            TokenType::LBrace => {
                self.advance(tokens);
                let statements = self.parse_block(tokens);
                statement_node(Stmt::Block { statements })
            },
            TokenType::If => self.if_stmt(tokens),
            TokenType::While => self.while_stmt(tokens),
            TokenType::For => self.for_stmt(tokens),
            TokenType::Return => self.return_stmt(tokens),
            TokenType::Break => self.break_stmt(tokens),
            TokenType::Import => self.import_stmt(tokens),
            TokenType::Continue => self.continue_stmt(tokens),
            _ => self.expr_stmt(tokens),
        }
    }

    /// Parses an expression and a semicolon.
    #[verifier::spinoff_prover]
    fn expr_stmt(&mut self, tokens: &Vec<Token>) -> (node: Node)
        requires
            old(self).ready(tokens),
        ensures
            final(self).ready(tokens),
            final(self).advanced(
                old(self),
                grammar::expr_stmt(tokens.deep_view(), old(self).c as int),
            ),
            node@ == grammar::expr_stmt(tokens.deep_view(), old(self).c as int).value,
            node@.printable(),
        decreases remaining(tokens.deep_view(), old(self).c as int), 23nat,
    {
        reveal_with_fuel(grammar::expr_stmt, 1);
        reveal_with_fuel(grammar::expression, 1);
        let ghost ts = tokens.deep_view();
        let ghost pos = old(self).c as int;
        let ghost errors = self.errors.deep_view();
        let node = expression_node(self.expression(tokens));
        self.expect(TokenType::SColon, "expected ';'", tokens);
        proof {
            let expr = grammar::expression(ts, pos);
            let semi = grammar::expect(ts, pos + expr.used, TokenType::SColon, "expected ';'"@);
            assert(self.errors.deep_view() =~= errors + (expr.errors + semi.errors));
        }
        return node;
    }

    /// Parses `continue` and a semicolon.
    #[verifier::spinoff_prover]
    fn continue_stmt(&mut self, tokens: &Vec<Token>) -> (node: Node)
        requires
            old(self).ready(tokens),
            kind_at(tokens.deep_view(), old(self).c as int) == TokenType::Continue,
        ensures
            final(self).ready(tokens),
            final(self).advanced(
                old(self),
                grammar::keyword_stmt(tokens.deep_view(), old(self).c as int, StmtView::Continue),
            ),
            node@ == NodeView::STMT(StmtView::Continue),
            node@.printable(),
    {
        self.advance(tokens);
        self.expect(TokenType::SColon, "expected ';'", tokens);
        statement_node(Stmt::Continue)
    }

    /// Parses `break` and a semicolon.
    #[verifier::spinoff_prover]
    fn break_stmt(&mut self, tokens: &Vec<Token>) -> (node: Node)
        requires
            old(self).ready(tokens),
            kind_at(tokens.deep_view(), old(self).c as int) == TokenType::Break,
        ensures
            final(self).ready(tokens),
            final(self).advanced(
                old(self),
                grammar::keyword_stmt(tokens.deep_view(), old(self).c as int, StmtView::Break),
            ),
            node@ == NodeView::STMT(StmtView::Break),
            node@.printable(),
    {
        self.advance(tokens);
        self.expect(TokenType::SColon, "expected ';'", tokens);
        statement_node(Stmt::Break {  })
    }

    /// Parses `import`, an expression and a semicolon.
    #[verifier::spinoff_prover]
    fn import_stmt(&mut self, tokens: &Vec<Token>) -> (node: Node)
        requires
            old(self).ready(tokens),
            kind_at(tokens.deep_view(), old(self).c as int) == TokenType::Import,
        ensures
            final(self).ready(tokens),
            final(self).advanced(
                old(self),
                grammar::import_stmt(tokens.deep_view(), old(self).c as int),
            ),
            node@ == grammar::import_stmt(tokens.deep_view(), old(self).c as int).value,
            node@.printable(),
        decreases remaining(tokens.deep_view(), old(self).c as int), 23nat,
    {
        reveal_with_fuel(grammar::import_stmt, 1);
        reveal_with_fuel(grammar::expression, 1);
        let ghost ts = tokens.deep_view();
        let ghost pos = old(self).c as int;
        let ghost errors = self.errors.deep_view();
        let token = self.current.clone();
        self.advance(tokens);
        let name = self.expression(tokens);
        self.expect(TokenType::SColon, "expected ';'", tokens);
        proof {
            let name_spec = grammar::expression(ts, pos + 1);
            let semi = grammar::expect(
                ts,
                pos + 1 + name_spec.used,
                TokenType::SColon,
                "expected ';'"@,
            );
            assert(self.errors.deep_view() =~= errors + (name_spec.errors + semi.errors));
        }
        statement_node(Stmt::Import { name, token })
    }

    /// Parses an `if` statement.
    #[verifier::spinoff_prover]
    fn if_stmt(&mut self, tokens: &Vec<Token>) -> (node: Node)
        requires
            old(self).ready(tokens),
            kind_at(tokens.deep_view(), old(self).c as int) == TokenType::If,
        ensures
            final(self).ready(tokens),
            final(self).advanced(old(self), grammar::if_stmt(tokens.deep_view(), old(self).c as int)),
            node@ == grammar::if_stmt(tokens.deep_view(), old(self).c as int).value,
            node@.printable(),
        decreases remaining(tokens.deep_view(), old(self).c as int), 23nat,
    {
        reveal_with_fuel(grammar::if_stmt, 1);
        reveal_with_fuel(grammar::expression, 1);
        reveal_with_fuel(grammar::statement, 1);
        let ghost ts = tokens.deep_view();
        let ghost pos = old(self).c as int;
        let ghost errors = self.errors.deep_view();
        self.advance(tokens);
        self.expect(TokenType::LParen, "expected '(' after 'if'", tokens);
        let cond = self.expression(tokens);
        self.expect(TokenType::RParen, "expected ')' after if condition", tokens);
        let then_branch = Box::new(self.statement(tokens));
        let ghost open = grammar::expect(
            ts,
            pos + 1,
            TokenType::LParen,
            "expected '(' after 'if'"@,
        );
        let ghost condition = grammar::expression(ts, pos + 1 + open.used);
        let ghost close = grammar::expect(
            ts,
            pos + 1 + open.used + condition.used,
            TokenType::RParen,
            "expected ')' after if condition"@,
        );
        let ghost at_then = pos + 1 + open.used + condition.used + close.used;
        let ghost then_spec = grammar::statement(ts, at_then);
        let ghost at_else = at_then + then_spec.used;
        let ghost so_far = open.errors + condition.errors + close.errors + then_spec.errors;
        assert(self.errors.deep_view() =~= errors + so_far);

        let els: Option<Box<Node>> = if self.check_current(TokenType::Else, tokens)
            && self.check_next(TokenType::If, tokens) {
            self.advance(tokens);
            let nested = self.if_stmt(tokens);
            proof {
                let els_spec = grammar::if_stmt(ts, at_else + 1);
                assert(self.errors.deep_view() =~= errors + (so_far + els_spec.errors));
            }
            Some(Box::new(nested))
        } else if self.check_current(TokenType::Else, tokens) {
            self.advance(tokens);
            let other = self.statement(tokens);
            proof {
                let els_spec = grammar::statement(ts, at_else + 1);
                assert(self.errors.deep_view() =~= errors + (so_far + els_spec.errors));
            }
            Some(Box::new(other))
        } else {
            None
        };

        statement_node(Stmt::If { condition: cond, then_branch, els })
    }

    /// Parses a `return` statement.
    #[verifier::spinoff_prover]
    fn return_stmt(&mut self, tokens: &Vec<Token>) -> (node: Node)
        requires
            old(self).ready(tokens),
            kind_at(tokens.deep_view(), old(self).c as int) == TokenType::Return,
        ensures
            final(self).ready(tokens),
            final(self).advanced(
                old(self),
                grammar::return_stmt(tokens.deep_view(), old(self).c as int),
            ),
            node@ == grammar::return_stmt(tokens.deep_view(), old(self).c as int).value,
            node@.printable(),
        decreases remaining(tokens.deep_view(), old(self).c as int), 23nat,
    {
        reveal_with_fuel(grammar::return_stmt, 1);
        reveal_with_fuel(grammar::return_values, 1);
        reveal_with_fuel(grammar::expression, 1);
        let ghost ts = tokens.deep_view();
        let ghost pos = old(self).c as int;
        let ghost errors = self.errors.deep_view();
        let token = self.current.clone();
        self.advance(tokens);
        let mut values: Vec<Expr> = Vec::new();
        proof {
            lemma_expr_views_small(Expr::Unknown);
        }
        let ghost listed = if kind_at(ts, pos + 1) != TokenType::SColon {
            grammar::return_values(ts, pos + 1)
        } else {
            grammar::nothing()
        };
        if !self.check_current(TokenType::SColon, tokens) {
            loop
                invariant_except_break
                    listed.value =~= expr_views(values@) + grammar::return_values(
                        ts,
                        self.c as int,
                    ).value,
                    listed.used == (self.c - (pos + 1)) + grammar::return_values(
                        ts,
                        self.c as int,
                    ).used,
                    errors + listed.errors =~= self.errors.deep_view() + grammar::return_values(
                        ts,
                        self.c as int,
                    ).errors,
                invariant
                    self.ready(tokens),
                    ts == tokens.deep_view(),
                    pos + 1 <= self.c,
                    pos == old(self).c,
                    pos < ts.len(),
                    self.statements == old(self).statements,
                    printable_exprs(expr_views(values@)),
                ensures
                    listed.value =~= expr_views(values@),
                    listed.used == self.c - (pos + 1),
                    errors + listed.errors =~= self.errors.deep_view(),
                decreases tokens@.len() - self.c,
            {
                reveal_with_fuel(grammar::return_values, 1);
                reveal_with_fuel(grammar::expression, 1);
                let ghost here = self.c as int;
                let ghost so_far = expr_views(values@);
                let ghost recorded = self.errors.deep_view();
                let value = self.expression(tokens);
                push_value(&mut values, value);
                let ghost first = grammar::expression(ts, here);
                if !self.does_match(&[TokenType::Comma], tokens) {
                    break ;
                }
                proof {
                    let rest = grammar::return_values(ts, here + first.used + 1);
                    assert(so_far + (seq![first.value] + rest.value) =~= so_far.push(first.value)
                        + rest.value);
                    assert(recorded + (first.errors + rest.errors) =~= recorded + first.errors
                        + rest.errors);
                }
            }
        }
        self.expect(TokenType::SColon, "expected ';'", tokens);
        proof {
            let semi = grammar::expect(
                ts,
                pos + 1 + listed.used,
                TokenType::SColon,
                "expected ';'"@,
            );
            assert(self.errors.deep_view() =~= errors + (listed.errors + semi.errors));
        }
        statement_node(Stmt::Return { token, values })
    }

    /// Parses a `while` statement.
    #[verifier::spinoff_prover]
    fn while_stmt(&mut self, tokens: &Vec<Token>) -> (node: Node)
        requires
            old(self).ready(tokens),
            kind_at(tokens.deep_view(), old(self).c as int) == TokenType::While,
        ensures
            final(self).ready(tokens),
            final(self).advanced(
                old(self),
                grammar::while_stmt(tokens.deep_view(), old(self).c as int),
            ),
            node@ == grammar::while_stmt(tokens.deep_view(), old(self).c as int).value,
            node@.printable(),
        decreases remaining(tokens.deep_view(), old(self).c as int), 23nat,
    {
        reveal_with_fuel(grammar::while_stmt, 1);
        reveal_with_fuel(grammar::expression, 1);
        reveal_with_fuel(grammar::statement, 1);
        let ghost ts = tokens.deep_view();
        let ghost pos = old(self).c as int;
        let ghost errors = self.errors.deep_view();
        let token = self.current.clone();
        self.advance(tokens);
        self.expect(TokenType::LParen, "expected '(' after 'while'", tokens);
        let cond = self.expression(tokens);
        self.expect(TokenType::RParen, "expected ')' after while condition", tokens);

        let body = Box::new(self.statement(tokens));
        proof {
            let open = grammar::expect(
                ts,
                pos + 1,
                TokenType::LParen,
                "expected '(' after 'while'"@,
            );
            let condition = grammar::expression(ts, pos + 1 + open.used);
            let close = grammar::expect(
                ts,
                pos + 1 + open.used + condition.used,
                TokenType::RParen,
                "expected ')' after while condition"@,
            );
            let body_spec = grammar::statement(
                ts,
                pos + 1 + open.used + condition.used + close.used,
            );
            assert(self.errors.deep_view() =~= errors + (open.errors + condition.errors
                + close.errors + body_spec.errors));
        }
        statement_node(Stmt::While { condition: cond, body, token })
    }

    /// Parses the first part of the head of a `for` statement.
    #[verifier::spinoff_prover]
    fn for_init(&mut self, tokens: &Vec<Token>) -> (init: Option<Node>)
        requires
            old(self).ready(tokens),
        ensures
            final(self).ready(tokens),
            final(self).advanced(
                old(self),
                grammar::for_init(tokens.deep_view(), old(self).c as int),
            ),
            node_option_view(init) == grammar::for_init(
                tokens.deep_view(),
                old(self).c as int,
            ).value,
            init matches Some(node) ==> node@.printable(),
        decreases remaining(tokens.deep_view(), old(self).c as int), 24nat,
    {
        reveal_with_fuel(grammar::for_init, 1);
        reveal_with_fuel(grammar::var_declaration, 1);
        reveal_with_fuel(grammar::expr_stmt, 1);
        let mut init: Option<Node> = None;
        if self.does_match(&[TokenType::SColon], tokens) {
            // do nothing
        } else if self.does_match(&[TokenType::Var], tokens) {
            init = Some(self.var_declaration(tokens));
        } else {
            init = Some(self.expr_stmt(tokens));
        }
        init
    }

    /// Parses an expression, unless a token of kind `stop` is the current
    /// one.
    #[verifier::spinoff_prover]
    fn expression_unless(&mut self, stop: TokenType, tokens: &Vec<Token>) -> (expr:
        Option<Expr>)
        requires
            old(self).ready(tokens),
        ensures
            final(self).ready(tokens),
            final(self).advanced(
                old(self),
                grammar::expression_unless(tokens.deep_view(), old(self).c as int, stop),
            ),
            option_view(expr) == grammar::expression_unless(
                tokens.deep_view(),
                old(self).c as int,
                stop,
            ).value,
            expr matches Some(e) ==> e@.printable(),
        decreases remaining(tokens.deep_view(), old(self).c as int), 23nat,
    {
        reveal_with_fuel(grammar::expression_unless, 1);
        reveal_with_fuel(grammar::expression, 1);
        let mut expr: Option<Expr> = None;
        if !self.check_current(stop, tokens) {
            expr = Some(self.expression(tokens));
        }
        expr
    }

    /// Parses a `for` statement and builds the loop that it stands for.
    #[verifier::spinoff_prover]
    fn for_stmt(&mut self, tokens: &Vec<Token>) -> (node: Node)
        requires
            old(self).ready(tokens),
            kind_at(tokens.deep_view(), old(self).c as int) == TokenType::For,
        ensures
            final(self).ready(tokens),
            final(self).advanced(
                old(self),
                grammar::for_stmt(tokens.deep_view(), old(self).c as int),
            ),
            node@ == grammar::for_stmt(tokens.deep_view(), old(self).c as int).value,
            node@.printable(),
        decreases remaining(tokens.deep_view(), old(self).c as int), 23nat,
    {
        reveal_with_fuel(grammar::for_stmt, 1);
        reveal_with_fuel(grammar::for_init, 1);
        reveal_with_fuel(grammar::expression_unless, 1);
        reveal_with_fuel(grammar::statement, 1);
        let ghost ts = tokens.deep_view();
        let ghost pos = old(self).c as int;
        let ghost errors = self.errors.deep_view();
        let token = self.current.clone();
        self.advance(tokens);
        self.expect(TokenType::LParen, "expected '('", tokens);
        let ghost open = grammar::expect(ts, pos + 1, TokenType::LParen, "expected '('"@);
        let ghost at_init = pos + 1 + open.used;

        let init = self.for_init(tokens);
        let ghost init_spec = grammar::for_init(ts, at_init);
        let ghost at_condition = at_init + init_spec.used;

        let condition = self.expression_unless(TokenType::SColon, tokens);
        let ghost condition_spec = grammar::expression_unless(ts, at_condition, TokenType::SColon);
        self.expect(TokenType::SColon, "expected ';'", tokens);
        let ghost semi = grammar::expect(
            ts,
            at_condition + condition_spec.used,
            TokenType::SColon,
            "expected ';'"@,
        );
        let ghost at_increment = at_condition + condition_spec.used + semi.used;

        let increment = self.expression_unless(TokenType::RParen, tokens);
        let ghost increment_spec = grammar::expression_unless(ts, at_increment, TokenType::RParen);
        self.expect(TokenType::RParen, "expected ')'", tokens);
        let ghost close = grammar::expect(
            ts,
            at_increment + increment_spec.used,
            TokenType::RParen,
            "expected ')'"@,
        );

        let body = self.statement(tokens);
        proof {
            let body_spec = grammar::statement(
                ts,
                at_increment + increment_spec.used + close.used,
            );
            assert(self.errors.deep_view() =~= errors + (open.errors + init_spec.errors
                + condition_spec.errors + semi.errors + increment_spec.errors + close.errors
                + body_spec.errors));
        }
        for_loop(token, init, condition, increment, body)
    }

    /// Parses a function declaration, after the keyword; `kind` says in
    /// diagnostics what is declared.
    #[verifier::spinoff_prover]
    fn function(&mut self, kind: &str, tokens: &Vec<Token>) -> (node: Node)
        requires
            old(self).ready(tokens),
        ensures
            final(self).ready(tokens),
            final(self).advanced(
                old(self),
                grammar::function(tokens.deep_view(), old(self).c as int, kind@),
            ),
            node@ == grammar::function(tokens.deep_view(), old(self).c as int, kind@).value,
            node@.printable(),
        decreases remaining(tokens.deep_view(), old(self).c as int), 28nat,
    {
        reveal_with_fuel(grammar::function, 1);
        reveal_with_fuel(grammar::function_body, 1);
        let ghost ts = tokens.deep_view();
        let ghost pos = old(self).c as int;
        let ghost errors = self.errors.deep_view();
        let mut message = String::from_str("expected ");
        message.append(kind);
        message.append(" name");
        self.expect(TokenType::Id, message.as_str(), tokens);
        let name = self.previous(tokens);
        let body = self.function_body(kind, tokens);
        proof {
            let id = grammar::expect(ts, pos, TokenType::Id, "expected "@ + kind@ + " name"@);
            let body_spec = grammar::function_body(ts, pos + id.used, kind@);
            assert(self.errors.deep_view() =~= errors + (id.errors + body_spec.errors));
        }
        statement_node(Stmt::Func { token: name, func: body })
    }

    /// Parses the parameters of a function and its body in braces.
    #[verifier::spinoff_prover]
    fn function_body(&mut self, kind: &str, tokens: &Vec<Token>) -> (e: Expr)
        requires
            old(self).ready(tokens),
        ensures
            final(self).ready(tokens),
            final(self).advanced(
                old(self),
                grammar::function_body(tokens.deep_view(), old(self).c as int, kind@),
            ),
            e@ == grammar::function_body(tokens.deep_view(), old(self).c as int, kind@).value,
            e@.printable(),
        decreases remaining(tokens.deep_view(), old(self).c as int), 27nat,
    {
        reveal_with_fuel(grammar::function_body, 1);
        reveal_with_fuel(grammar::block, 1);
        let ghost ts = tokens.deep_view();
        let ghost pos = old(self).c as int;
        let ghost errors = self.errors.deep_view();
        let params = self.parse_params(kind, tokens);
        let mut message = String::from_str("expected '{' before ");
        message.append(kind);
        message.append(" body");
        self.expect(TokenType::LBrace, message.as_str(), tokens);
        let body = self.parse_block(tokens);
        proof {
            let names = grammar::params(ts, pos, kind@);
            let open = grammar::expect(
                ts,
                pos + names.used,
                TokenType::LBrace,
                "expected '{' before "@ + kind@ + " body"@,
            );
            let body_spec = grammar::block(ts, pos + names.used + open.used);
            assert(self.errors.deep_view() =~= errors + (names.errors + open.errors
                + body_spec.errors));
        }
        Expr::Func { params, body }
    }

    /// Parses the declarations of a block, after its opening brace, and its
    /// closing brace.
    #[verifier::spinoff_prover]
    fn parse_block(&mut self, tokens: &Vec<Token>) -> (stmts: Vec<Node>)
        requires
            old(self).ready(tokens),
        ensures
            final(self).ready(tokens),
            final(self).advanced(old(self), grammar::block(tokens.deep_view(), old(self).c as int)),
            node_views(stmts@) == grammar::block(tokens.deep_view(), old(self).c as int).value,
            printable_nodes(node_views(stmts@)),
        decreases remaining(tokens.deep_view(), old(self).c as int), 26nat,
    {
        reveal_with_fuel(grammar::block, 1);
        reveal_with_fuel(grammar::declaration, 1);
        let ghost ts = tokens.deep_view();
        let ghost pos = old(self).c as int;
        let ghost errors = self.errors.deep_view();
        let ghost whole = grammar::block(ts, pos);
        let mut stmts: Vec<Node> = Vec::new();
        proof {
            lemma_node_views_small(Node::EXPR(Expr::Unknown), Node::EXPR(Expr::Unknown));
        }
        while !self.check_current(TokenType::RBrace, tokens) && !self.is_end(tokens)
            invariant
                self.ready(tokens),
                ts == tokens.deep_view(),
                pos <= self.c,
                pos == old(self).c,
                self.statements == old(self).statements,
                printable_nodes(node_views(stmts@)),
                whole.value =~= node_views(stmts@) + grammar::block(ts, self.c as int).value,
                whole.used == (self.c - pos) + grammar::block(ts, self.c as int).used,
                errors + whole.errors =~= self.errors.deep_view() + grammar::block(
                    ts,
                    self.c as int,
                ).errors,
            decreases tokens@.len() - self.c,
        {
            reveal_with_fuel(grammar::block, 1);
            reveal_with_fuel(grammar::declaration, 1);
            let ghost here = self.c as int;
            let ghost so_far = node_views(stmts@);
            let ghost recorded = self.errors.deep_view();
            let node = self.declaration(tokens);
            push_node(&mut stmts, node);
            proof {
                lemma_declaration_takes_a_token(ts, here);
                let first = grammar::declaration(ts, here);
                let rest = grammar::block(ts, here + first.used);
                assert(so_far + (seq![first.value] + rest.value) =~= so_far.push(first.value)
                    + rest.value);
                assert(recorded + (first.errors + rest.errors) =~= recorded + first.errors
                    + rest.errors);
            }
        }
        self.expect(TokenType::RBrace, "expected '}' after a block", tokens);
        proof {
            assert(self.errors.deep_view() =~= errors + whole.errors);
        }
        return stmts;
    }

    /// Parses a variable declaration, after the keyword.
    #[verifier::spinoff_prover]
    fn var_declaration(&mut self, tokens: &Vec<Token>) -> (node: Node)
        requires
            old(self).ready(tokens),
        ensures
            final(self).ready(tokens),
            final(self).advanced(
                old(self),
                grammar::var_declaration(tokens.deep_view(), old(self).c as int),
            ),
            node@ == grammar::var_declaration(tokens.deep_view(), old(self).c as int).value,
            node@.printable(),
        decreases remaining(tokens.deep_view(), old(self).c as int), 23nat,
    {
        reveal_with_fuel(grammar::var_declaration, 1);
        reveal_with_fuel(grammar::expression, 1);
        let ghost ts = tokens.deep_view();
        let ghost pos = old(self).c as int;
        let ghost errors = self.errors.deep_view();
        self.expect(TokenType::Id, "Expected an identifier", tokens);
        let name = self.previous(tokens);
        let ghost id = grammar::expect(ts, pos, TokenType::Id, "Expected an identifier"@);
        let mut init = Expr::Literal { kind: TokenType::Null, value: String::new() };
        assert(init@.printable());

        if self.does_match(&[TokenType::Equal], tokens) {
            init = self.expression(tokens);
            self.expect(TokenType::SColon, "expected ';'", tokens);
            proof {
                let init_spec = grammar::expression(ts, pos + id.used + 1);
                let semi = grammar::expect(
                    ts,
                    pos + id.used + 1 + init_spec.used,
                    TokenType::SColon,
                    "expected ';'"@,
                );
                assert(self.errors.deep_view() =~= errors + (id.errors + init_spec.errors
                    + semi.errors));
            }
        } else {
            self.expect(TokenType::SColon, "expected ';'", tokens);
            proof {
                let semi = grammar::expect(
                    ts,
                    pos + id.used,
                    TokenType::SColon,
                    "expected ';'"@,
                );
                assert(self.errors.deep_view() =~= errors + (id.errors + semi.errors));
            }
        }
        statement_node(Stmt::Variable { name, init })
    }
    /// Parses one field of a struct declaration and appends its name to
    /// `fields` and its type, where it has one, to `types`.
    #[verifier::spinoff_prover]
    fn struct_field(
        &mut self,
        fields: &mut Vec<Token>,
        types: &mut Vec<TypeInfo>,
        tokens: &Vec<Token>,
    )
        requires
            old(self).ready(tokens),
        ensures
            final(self).ready(tokens),
            final(self).advanced(
                old(self),
                grammar::struct_field(tokens.deep_view(), old(self).c as int),
            ),
            final(fields).deep_view() == old(fields).deep_view() + grammar::struct_field(
                tokens.deep_view(),
                old(self).c as int,
            ).value.names,
            final(types).deep_view() == old(types).deep_view() + grammar::struct_field(
                tokens.deep_view(),
                old(self).c as int,
            ).value.types,
    {
        let ghost ts = tokens.deep_view();
        let ghost pos = old(self).c as int;
        let ghost errors = self.errors.deep_view();
        let ghost names = fields.deep_view();
        let ghost kinds = types.deep_view();
        self.expect(TokenType::Id, "expected an identifier", tokens);
        let field = self.previous(tokens);
        fields.push(field);
        assert(fields.deep_view() =~= names + seq![field@]);
        self.expect(TokenType::Colon, "expected ':'", tokens);
        let ghost id = grammar::expect(ts, pos, TokenType::Id, "expected an identifier"@);
        let ghost colon = grammar::expect(ts, pos + id.used, TokenType::Colon, "expected ':'"@);
        assert(self.errors.deep_view() =~= errors + (id.errors + colon.errors));
        match self.current.kind {
            TokenType::Id => {
                let kind = type_of(&self.current);
                types.push(kind);
                assert(types.deep_view() =~= kinds + seq![kind@]);
            },
            _ => {
                self.add_error("invalid type info", Ghost(tokens));
                assert(types.deep_view() =~= kinds + Seq::empty());
                assert(self.errors.deep_view() =~= errors + (id.errors + colon.errors + seq![
                    diagnostic(ts, self.c as int, "invalid type info"@),
                ]));
            },
        }
        self.advance(tokens);
    }

    /// Parses a struct declaration, after the keyword.
    #[verifier::spinoff_prover]
    fn struct_declaration(&mut self, tokens: &Vec<Token>) -> (node: Node)
        requires
            old(self).ready(tokens),
        ensures
            final(self).ready(tokens),
            final(self).advanced(
                old(self),
                grammar::struct_declaration(tokens.deep_view(), old(self).c as int),
            ),
            node@ == grammar::struct_declaration(tokens.deep_view(), old(self).c as int).value,
            node@.printable(),
    {
        reveal_with_fuel(grammar::struct_fields, 1);
        let ghost ts = tokens.deep_view();
        let ghost pos = old(self).c as int;
        let ghost errors = self.errors.deep_view();
        self.expect(TokenType::Id, "expected an identifier", tokens);
        let token = self.previous(tokens);
        self.expect(TokenType::LBrace, "expected '{'", tokens);
        let ghost id = grammar::expect(ts, pos, TokenType::Id, "expected an identifier"@);
        let ghost open = grammar::expect(ts, pos + id.used, TokenType::LBrace, "expected '{'"@);
        let ghost start = self.c as int;
        let ghost whole = grammar::struct_fields(ts, start);
        let mut fields: Vec<Token> = Vec::new();
        let mut types: Vec<TypeInfo> = Vec::new();
        assert(fields.deep_view() =~= Seq::empty());
        assert(types.deep_view() =~= Seq::empty());
        assert(self.errors.deep_view() =~= errors + (id.errors + open.errors));
        loop
            invariant_except_break
                whole.value.names =~= fields.deep_view() + grammar::struct_fields(
                    ts,
                    self.c as int,
                ).value.names,
                whole.value.types =~= types.deep_view() + grammar::struct_fields(
                    ts,
                    self.c as int,
                ).value.types,
                whole.used == (self.c - start) + grammar::struct_fields(ts, self.c as int).used,
                errors + (id.errors + open.errors) + whole.errors =~= self.errors.deep_view()
                    + grammar::struct_fields(ts, self.c as int).errors,
            invariant
                self.ready(tokens),
                ts == tokens.deep_view(),
                start <= self.c,
                self.statements == old(self).statements,
            ensures
                whole.value.names =~= fields.deep_view(),
                whole.value.types =~= types.deep_view(),
                whole.used == self.c - start,
                errors + (id.errors + open.errors) + whole.errors =~= self.errors.deep_view(),
            decreases tokens@.len() - self.c,
        {
            reveal_with_fuel(grammar::struct_fields, 1);
            let ghost here = self.c as int;
            let ghost names = fields.deep_view();
            let ghost kinds = types.deep_view();
            let ghost recorded = self.errors.deep_view();
            if self.check_current(TokenType::RBrace, tokens) || self.is_end(tokens) {
                break ;
            }
            self.struct_field(&mut fields, &mut types, tokens);
            let ghost first = grammar::struct_field(ts, here);
            let ghost after = self.c as int;
            if self.check_current(TokenType::RBrace, tokens) {
                break ;
            } else {
                self.expect(TokenType::Comma, "expected ','", tokens);
            }
            proof {
                let comma = grammar::expect(ts, after, TokenType::Comma, "expected ','"@);
                let rest = grammar::struct_fields(ts, after + comma.used);
                assert(names + (first.value.names + rest.value.names) =~= fields.deep_view()
                    + rest.value.names);
                assert(kinds + (first.value.types + rest.value.types) =~= types.deep_view()
                    + rest.value.types);
                assert(recorded + (first.errors + comma.errors + rest.errors)
                    =~= self.errors.deep_view() + rest.errors);
            }
        }
        self.expect(TokenType::RBrace, "expected '}'", tokens);
        proof {
            let close = grammar::expect(
                ts,
                start + whole.used,
                TokenType::RBrace,
                "expected '}'"@,
            );
            assert(self.errors.deep_view() =~= errors + (id.errors + open.errors + whole.errors
                + close.errors));
        }

        statement_node(Stmt::Struct { token, fields, types })
    }

    /// Parses tokens to AST: afterwards `statements` holds the program of
    /// the stream and `errors` its diagnostics. Results of an earlier run
    /// are replaced.
    pub fn parse(&mut self, tokens: &Vec<Token>)
        requires
            terminated(tokens.deep_view()),
        ensures
            node_views(final(self).statements@) == grammar::program(tokens.deep_view()).value,
            final(self).errors.deep_view() == grammar::program(tokens.deep_view()).errors,
            final(self).c == grammar::program(tokens.deep_view()).used,
            at_end(tokens.deep_view(), final(self).c as int),
            final(self).ready(tokens),
            printable_nodes(node_views(final(self).statements@)),
    {
        let ghost ts = tokens.deep_view();
        let ghost whole = grammar::program(ts);
        self.c = 0;
        self.current = tokens[0].clone();
        self.errors = Vec::new();
        self.statements = Vec::new();
        proof {
            lemma_node_views_small(Node::EXPR(Expr::Unknown), Node::EXPR(Expr::Unknown));
            assert(self.errors.deep_view() =~= Seq::empty());
        }
        while !self.is_end(tokens)
            invariant
                self.ready(tokens),
                ts == tokens.deep_view(),
                whole == grammar::program(ts),
                printable_nodes(node_views(self.statements@)),
                whole.value =~= node_views(self.statements@) + grammar::program_from(
                    ts,
                    self.c as int,
                ).value,
                whole.used == self.c + grammar::program_from(ts, self.c as int).used,
                whole.errors =~= self.errors.deep_view() + grammar::program_from(
                    ts,
                    self.c as int,
                ).errors,
            decreases tokens@.len() - self.c,
        {
            let ghost here = self.c as int;
            let ghost so_far = node_views(self.statements@);
            let ghost recorded = self.errors.deep_view();
            let node = self.declaration(tokens);
            push_node(&mut self.statements, node);
            proof {
                lemma_declaration_takes_a_token(ts, here);
                let first = grammar::declaration(ts, here);
                let rest = grammar::program_from(ts, here + first.used);
                assert(so_far + (seq![first.value] + rest.value) =~= so_far.push(first.value)
                    + rest.value);
                assert(recorded + (first.errors + rest.errors) =~= recorded + first.errors
                    + rest.errors);
            }
        }
    }
}

/// The type that a token after a field's colon names.
pub fn type_of(token: &Token) -> (kind: TypeInfo)
    ensures
        kind@ == grammar::type_of(token@),
{
    let name = token.value.as_str();
    if same_text_lowered(name, "string") {
        TypeInfo::Str
    } else if same_text_lowered(name, "number") {
        TypeInfo::Num
    } else if same_text_lowered(name, "bool") {
        TypeInfo::Bool
    } else if same_text_lowered(name, "any") {
        TypeInfo::Any
    } else if same_text_lowered(name, "list") {
        TypeInfo::List
    } else if same_text_lowered(name, "map") {
        TypeInfo::Mapping
    } else {
        TypeInfo::Id(token.clone())
    }
}

/// The view of a node that may be there.
pub open spec fn node_option_view(node: Option<Node>) -> Option<NodeView> {
    match node {
        Some(n) => Some(n@),
        None => None,
    }
}

/// The statement as a node.
pub fn statement_node(stmt: Stmt) -> (node: Node)
    ensures
        node@ == NodeView::STMT(stmt@),
        stmt@.printable() ==> node@.printable(),
{
    Node::STMT(stmt)
}

/// The expression as a node.
pub fn expression_node(expr: Expr) -> (node: Node)
    ensures
        node@ == NodeView::EXPR(expr@),
        expr@.printable() ==> node@.printable(),
{
    Node::EXPR(expr)
}

/// The loop that a `for` statement stands for.
pub fn for_loop(
    token: Token,
    init: Option<Node>,
    condition: Option<Expr>,
    increment: Option<Expr>,
    body: Node,
) -> (node: Node)
    requires
        init matches Some(n) ==> n@.printable(),
        condition matches Some(e) ==> e@.printable(),
        increment matches Some(e) ==> e@.printable(),
        body@.printable(),
    ensures
        node@ == grammar::for_loop(
            token@,
            node_option_view(init),
            option_view(condition),
            option_view(increment),
            body@,
        ),
        node@.printable(),
{
    let mut body = body;
    if let Some(increment) = increment {
        let step = expression_node(increment);
        let ghost first = body;
        let ghost second = step;
        let statements = vec![body, step];
        proof {
            lemma_node_views_small(first, second);
            assert(statements@ =~= seq![first, second]);
            lemma_printable_nodes(seq![first@, second@]);
        }
        body = statement_node(Stmt::Block { statements });
    }
    let new_condition: Expr;
    if let Some(condition) = condition {
        new_condition = condition;
    } else {
        new_condition = Expr::Literal { kind: TokenType::True, value: String::new() };
        assert(new_condition@ == grammar::always());
    }
    assert(new_condition@.printable());

    body = statement_node(Stmt::While { condition: new_condition, body: Box::new(body), token });

    if let Some(init) = init {
        let ghost first = init;
        let ghost second = body;
        let statements = vec![init, body];
        proof {
            lemma_node_views_small(first, second);
            assert(statements@ =~= seq![first, second]);
            lemma_printable_nodes(seq![first@, second@]);
        }
        body = statement_node(Stmt::Block { statements });
    }
    return body;
}

/// Appends an argument to the arguments of a call.
pub fn push_argument(args: &mut Vec<Box<Expr>>, argument: Expr)
    requires
        printable_exprs(boxed_expr_views(old(args)@)),
        argument@.printable(),
    ensures
        boxed_expr_views(final(args)@) == boxed_expr_views(old(args)@).push(argument@),
        printable_exprs(boxed_expr_views(final(args)@)),
{
    let ghost before = args@;
    let boxed = Box::new(argument);
    args.push(boxed);
    proof {
        lemma_boxed_expr_views_push(before, boxed);
        lemma_printable_exprs_push(boxed_expr_views(before), argument@);
    }
}

/// Appends a value to the values of a `return`.
pub fn push_value(values: &mut Vec<Expr>, value: Expr)
    requires
        printable_exprs(expr_views(old(values)@)),
        value@.printable(),
    ensures
        expr_views(final(values)@) == expr_views(old(values)@).push(value@),
        printable_exprs(expr_views(final(values)@)),
{
    let ghost before = values@;
    let ghost pushed = value;
    values.push(value);
    proof {
        lemma_expr_views_push(before, pushed);
        lemma_printable_exprs_push(expr_views(before), pushed@);
    }
}

/// Appends a node to the nodes of a block or a program.
pub fn push_node(nodes: &mut Vec<Node>, node: Node)
    requires
        printable_nodes(node_views(old(nodes)@)),
        node@.printable(),
    ensures
        node_views(final(nodes)@) == node_views(old(nodes)@).push(node@),
        printable_nodes(node_views(final(nodes)@)),
{
    let ghost before = nodes@;
    let ghost pushed = node;
    nodes.push(node);
    proof {
        lemma_node_views_push(before, pushed);
        lemma_printable_nodes_push(node_views(before), pushed@);
    }
}

/// The view of an expression that may be there.
pub open spec fn option_view(arg: Option<Expr>) -> Option<ExprView> {
    match arg {
        Some(e) => Some(e@),
        None => None,
    }
}

/// A copy of an expression that may be there.
pub fn copy_option(arg: &Option<Expr>) -> (copy: Option<Expr>)
    ensures
        option_view(copy) == option_view(*arg),
{
    match arg {
        Some(e) => Some(e.clone()),
        None => None,
    }
}

/// Whether `kind` is an operator of `level`.
pub fn operator_of(level: Level, kind: TokenType) -> (found: bool)
    ensures
        found == level.has(kind),
{
    match level {
        Level::Or => kind == TokenType::DPipe || kind == TokenType::Or,
        Level::And => kind == TokenType::DAmp || kind == TokenType::And,
        Level::Equality => kind == TokenType::BangEq || kind == TokenType::DEq,
        Level::Comparison => kind == TokenType::GT || kind == TokenType::GTEq || kind
            == TokenType::LT || kind == TokenType::LTEq,
        Level::Term => kind == TokenType::Minus || kind == TokenType::Plus,
        Level::Factor => kind == TokenType::Div || kind == TokenType::Mul || kind
            == TokenType::Mod,
    }
}

/// The node that an operator of `level` builds from its operands.
pub fn node_of(level: Level, left: Expr, op: Token, right: Expr) -> (node: Expr)
    ensures
        node@ == level.node(left@, op@, right@),
{
    match level {
        Level::Or | Level::And => Expr::Logical {
            left: Box::new(left),
            right: Box::new(right),
            op,
        },
        _ => Expr::Binary { left: Box::new(left), right: Box::new(right), op },
    }
}

} // verus!
