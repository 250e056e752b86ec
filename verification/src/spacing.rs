//! Blanks between lexemes never show in the tokens: a text with one more
//! blank character at the start of one of its lexemes has tokens of the
//! same kinds and texts. So the printed form of what is parsed from a text
//! does not depend on how its lexemes are spaced.

use crate::grammar::program;
use crate::invariance::{diagnostic_shapes, lemma_printed_program_ignores_positions};
use crate::laws::{
    lemma_comment_stays_inside, lemma_lexeme_is_small, lemma_lexeme_stays_inside,
    lemma_runs_stay_inside, lemma_scan_is_terminated, lemma_string_stays_inside,
};
use crate::printer::printed_program;
use crate::scan::{
    comment_tail, digit_run, fraction_at, hex_run, is_digit, is_hex_digit, is_letter, is_space,
    is_word_char, lexeme_at, line_rest, number_shape, peek, comment_at, number_at, plain,
    punctuation, scan, scan_from, skipped, string_at, string_tail, unrecognized, word_at, word_run,
    Lexeme,
};
use crate::token::TokenType;
use crate::shape::token_shapes;
use vstd::prelude::*;

verus! {

/// The text `s` from `p` on reads as the text `t` from `q` on.
pub open spec fn same_text_from(s: Seq<char>, p: int, t: Seq<char>, q: int) -> bool {
    &&& 0 <= p <= s.len()
    &&& 0 <= q <= t.len()
    &&& s.len() - p == t.len() - q
    &&& forall|i: int| p <= i < s.len() ==> #[trigger] s[i] == t[i - p + q]
}

/// What two texts have in common that read the same from some position on.
pub proof fn lemma_same_text_from(s: Seq<char>, p: int, t: Seq<char>, q: int)
    requires
        same_text_from(s, p, t, q),
    ensures
        forall|i: int| p <= i ==> #[trigger] peek(s, i) == peek(t, i - p + q),
        forall|i: int, j: int|
            p <= i <= j <= s.len() ==> #[trigger] s.subrange(i, j) == t.subrange(
                i - p + q,
                j - p + q,
            ),
{
    assert forall|i: int| p <= i implies #[trigger] peek(s, i) == peek(t, i - p + q) by {
        if i < s.len() {
            assert(s[i] == t[i - p + q]);
        }
    }
    assert forall|i: int, j: int| p <= i <= j <= s.len() implies #[trigger] s.subrange(i, j)
        == t.subrange(i - p + q, j - p + q) by {
        assert forall|k: int| 0 <= k < j - i implies s.subrange(i, j)[k] == t.subrange(
            i - p + q,
            j - p + q,
        )[k] by {
            assert(s[i + k] == t[i + k - p + q]);
        }
        assert(s.subrange(i, j) =~= t.subrange(i - p + q, j - p + q));
    }
}

/// Runs of characters depend only on the text from their start on.
pub proof fn lemma_runs_from(s: Seq<char>, p: int, t: Seq<char>, q: int, i: int)
    requires
        same_text_from(s, p, t, q),
        p <= i <= s.len(),
    ensures
        word_run(s, i) == word_run(t, i - p + q),
        digit_run(s, i) == digit_run(t, i - p + q),
        hex_run(s, i) == hex_run(t, i - p + q),
        line_rest(s, i) == line_rest(t, i - p + q),
    decreases s.len() - i,
{
    if i < s.len() {
        assert(s[i] == t[i - p + q]);
        lemma_runs_from(s, p, t, q, i + 1);
    }
}

/// The rest of a block comment depends only on the text from its start on.
pub proof fn lemma_comment_from(s: Seq<char>, p: int, t: Seq<char>, q: int, i: int, depth: nat)
    requires
        same_text_from(s, p, t, q),
        p <= i <= s.len(),
    ensures
        comment_tail(s, i, depth) == comment_tail(t, i - p + q, depth),
    decreases s.len() - i,
{
    lemma_same_text_from(s, p, t, q);
    if i < s.len() {
        assert(s[i] == t[i - p + q]);
        if s[i] == '*' && peek(s, i + 1) == '/' {
            if depth > 1 {
                lemma_comment_from(s, p, t, q, i + 2, (depth - 1) as nat);
            }
        } else if s[i] == '/' && peek(s, i + 1) == '*' {
            lemma_comment_from(s, p, t, q, i + 2, depth + 1);
        } else {
            lemma_comment_from(s, p, t, q, i + 1, depth);
        }
    }
}

/// The rest of a string literal depends only on the text from its start on.
pub proof fn lemma_string_from(s: Seq<char>, p: int, t: Seq<char>, q: int, i: int)
    requires
        same_text_from(s, p, t, q),
        p <= i <= s.len(),
    ensures
        string_tail(s, i) == string_tail(t, i - p + q),
    decreases s.len() - i,
{
    if i < s.len() {
        assert(s[i] == t[i - p + q]);
        if s[i] == '"' {
        } else if s[i] == '\\' {
            if i + 1 < s.len() {
                assert(s[i + 1] == t[i + 1 - p + q]);
                lemma_string_from(s, p, t, q, i + 2);
            }
        } else {
            lemma_string_from(s, p, t, q, i + 1);
        }
    }
}

/// Two lexemes take the same characters and give tokens of the same
/// kinds and texts and diagnostics with the same messages.
pub open spec fn lexeme_agrees(x: Lexeme, y: Lexeme) -> bool {
    &&& x.used == y.used
    &&& token_shapes(x.tokens) == token_shapes(y.tokens)
    &&& diagnostic_shapes(x.errors) == diagnostic_shapes(y.errors)
}

/// A token without text depends on its place only by its position.
pub proof fn lemma_plain_from(
    s: Seq<char>,
    i: int,
    t: Seq<char>,
    j: int,
    kind: TokenType,
    used: nat,
)
    ensures
        lexeme_agrees(plain(s, i, kind, used), plain(t, j, kind, used)),
        lexeme_agrees(unrecognized(s, i), unrecognized(t, j)),
{
    assert(token_shapes(plain(s, i, kind, used).tokens) =~= token_shapes(
        plain(t, j, kind, used).tokens,
    ));
    assert(diagnostic_shapes(plain(s, i, kind, used).errors) =~= diagnostic_shapes(
        plain(t, j, kind, used).errors,
    ));
    assert(token_shapes(unrecognized(s, i).tokens) =~= token_shapes(unrecognized(t, j).tokens));
    assert(diagnostic_shapes(unrecognized(s, i).errors) =~= diagnostic_shapes(
        unrecognized(t, j).errors,
    ));
}

/// A word depends only on the text from its start on.
pub proof fn lemma_word_from(s: Seq<char>, p: int, t: Seq<char>, q: int, i: int)
    requires
        same_text_from(s, p, t, q),
        p <= i < s.len(),
    ensures
        lexeme_agrees(word_at(s, i), word_at(t, i - p + q)),
{
    let j = i - p + q;
    lemma_same_text_from(s, p, t, q);
    lemma_runs_from(s, p, t, q, i + 1);
    lemma_runs_stay_inside(s, i + 1);
    let used = 1 + word_run(s, i + 1);
    assert(s.subrange(i, i + used) == t.subrange(j, j + used));
    assert(token_shapes(word_at(s, i).tokens) =~= token_shapes(word_at(t, j).tokens));
    assert(diagnostic_shapes(word_at(s, i).errors) =~= diagnostic_shapes(word_at(t, j).errors));
}

/// The shape of a number depends only on the text from its start on.
pub proof fn lemma_number_shape_from(s: Seq<char>, p: int, t: Seq<char>, q: int, i: int)
    requires
        same_text_from(s, p, t, q),
        p <= i <= s.len(),
    ensures
        number_shape(s, i) == number_shape(t, i - p + q),
        i + number_shape(s, i).used <= s.len() || !is_digit(peek(s, i)),
{
    lemma_same_text_from(s, p, t, q);
    lemma_runs_from(s, p, t, q, i);
    lemma_runs_stay_inside(s, i);
    if i + 2 <= s.len() {
        lemma_runs_from(s, p, t, q, i + 2);
        lemma_runs_stay_inside(s, i + 2);
    }
    let whole = digit_run(s, i);
    if i + whole + 1 <= s.len() {
        lemma_runs_from(s, p, t, q, i + whole + 1);
        lemma_runs_stay_inside(s, i + whole + 1);
    }
}

/// A number depends only on the text from its start on.
pub proof fn lemma_number_from(s: Seq<char>, p: int, t: Seq<char>, q: int, i: int, sign: nat)
    requires
        same_text_from(s, p, t, q),
        p <= i < s.len(),
        sign <= 1,
        is_digit(peek(s, i + sign)),
    ensures
        lexeme_agrees(number_at(s, i, sign), number_at(t, i - p + q, sign)),
{
    let j = i - p + q;
    lemma_same_text_from(s, p, t, q);
    lemma_number_shape_from(s, p, t, q, i + sign);
    let used = sign + number_shape(s, i + sign).used;
    assert(s.subrange(i, i + used) == t.subrange(j, j + used));
    assert(token_shapes(number_at(s, i, sign).tokens) =~= token_shapes(
        number_at(t, j, sign).tokens,
    ));
    assert(diagnostic_shapes(number_at(s, i, sign).errors) =~= diagnostic_shapes(
        number_at(t, j, sign).errors,
    ));
}

/// A string literal depends only on the text from its start on.
pub proof fn lemma_string_at_from(s: Seq<char>, p: int, t: Seq<char>, q: int, i: int)
    requires
        same_text_from(s, p, t, q),
        p <= i < s.len(),
    ensures
        lexeme_agrees(string_at(s, i), string_at(t, i - p + q)),
{
    let j = i - p + q;
    lemma_string_from(s, p, t, q, i + 1);
    assert(token_shapes(string_at(s, i).tokens) =~= token_shapes(string_at(t, j).tokens));
    assert(diagnostic_shapes(string_at(s, i).errors) =~= diagnostic_shapes(
        string_at(t, j).errors,
    ));
}

/// A block comment depends only on the text from its start on.
pub proof fn lemma_comment_at_from(s: Seq<char>, p: int, t: Seq<char>, q: int, i: int)
    requires
        same_text_from(s, p, t, q),
        p <= i,
        i + 2 <= s.len(),
    ensures
        lexeme_agrees(comment_at(s, i), comment_at(t, i - p + q)),
{
    let j = i - p + q;
    lemma_comment_from(s, p, t, q, i + 2, 1);
    assert(token_shapes(comment_at(s, i).tokens) =~= token_shapes(comment_at(t, j).tokens));
    assert(diagnostic_shapes(comment_at(s, i).errors) =~= diagnostic_shapes(
        comment_at(t, j).errors,
    ));
}

/// A lexeme depends only on the text from its start on: the same
/// characters are taken and the token, if there is one, has the same kind
/// and the same text; so has the diagnostic the same message.
#[verifier::spinoff_prover]
pub proof fn lemma_lexeme_from(s: Seq<char>, p: int, t: Seq<char>, q: int, i: int)
    requires
        same_text_from(s, p, t, q),
        p <= i < s.len(),
    ensures
        lexeme_agrees(lexeme_at(s, i), lexeme_at(t, i - p + q)),
{
    let j = i - p + q;
    lemma_same_text_from(s, p, t, q);
    assert(s[i] == t[j]);
    assert(peek(s, i + 1) == peek(t, j + 1));
    let c = s[i];
    let next = peek(s, i + 1);
    if is_space(c) {
        assert(token_shapes(skipped(1).tokens) =~= token_shapes(skipped(1).tokens));
    } else if punctuation(c) is Some {
        lemma_plain_from(s, i, t, j, punctuation(c)->0, 1);
    } else if is_letter(c) {
        lemma_word_from(s, p, t, q, i);
    } else if is_digit(c) {
        lemma_number_from(s, p, t, q, i, 0);
    } else if c == '"' {
        lemma_string_at_from(s, p, t, q, i);
    } else if c == '-' && next != '-' && next != '=' && is_digit(next) {
        lemma_number_from(s, p, t, q, i, 1);
    } else if c == '/' && next == '/' {
        lemma_runs_from(s, p, t, q, i + 2);
    } else if c == '/' && next == '*' {
        lemma_comment_at_from(s, p, t, q, i);
    } else {
        lemma_plain_from(s, i, t, j, lexeme_at(s, i).tokens[0].kind, lexeme_at(s, i).used);
    }
}

/// The tokens of a text from a position on depend only on the text from
/// there on: their kinds and texts are the same in any text that reads the
/// same from some position on, and so are the messages of the diagnostics.
pub proof fn lemma_scan_from_is_local(s: Seq<char>, p: int, t: Seq<char>, q: int, i: int)
    requires
        same_text_from(s, p, t, q),
        p <= i <= s.len(),
    ensures
        token_shapes(scan_from(s, i).tokens) == token_shapes(scan_from(t, i - p + q).tokens),
        diagnostic_shapes(scan_from(s, i).errors) == diagnostic_shapes(
            scan_from(t, i - p + q).errors,
        ),
    decreases s.len() - i,
{
    let j = i - p + q;
    crate::invariance::lemma_shape_algebra();
    if i < s.len() {
        lemma_lexeme_from(s, p, t, q, i);
        lemma_lexeme_is_small(s, i);
        lemma_lexeme_is_small(t, j);
        lemma_lexeme_stays_inside(s, i);
        lemma_scan_from_is_local(s, p, t, q, i + lexeme_at(s, i).used);
    } else {
        assert(token_shapes(scan_from(s, i).tokens) =~= token_shapes(scan_from(t, j).tokens));
    }
}

/// The text `t` is the text `s` with one more character at `p`, a blank,
/// and `p` is a position inside `s`.
pub open spec fn spaced(s: Seq<char>, t: Seq<char>, p: int) -> bool {
    &&& 0 <= p < s.len()
    &&& t.len() == s.len() + 1
    &&& is_space(t[p])
    &&& forall|i: int| 0 <= i < p ==> #[trigger] t[i] == s[i]
    &&& forall|i: int| p <= i < s.len() ==> #[trigger] s[i] == t[i + 1]
}

/// A lexeme of the text starts at `p`, for the tokenizer that starts at
/// `pos`.
pub open spec fn reaches(src: Seq<char>, pos: int, p: int) -> bool
    decreases
        (if pos < p {
            p - pos
        } else {
            0
        }),
{
    if pos >= p || pos < 0 || pos >= src.len() {
        pos == p
    } else {
        reaches(src, pos + lexeme_at(src, pos).used, p)
    }
}

/// No lexeme that is reached starts beyond the place that is reached.
pub proof fn lemma_reaches(src: Seq<char>, pos: int, p: int)
    requires
        reaches(src, pos, p),
    ensures
        pos <= p,
{
}

/// The text with the character `c` put in at `p`.
pub open spec fn with_character(src: Seq<char>, p: int, c: char) -> Seq<char> {
    src.subrange(0, p).push(c) + src.subrange(p, src.len() as int)
}

/// What the text with one more blank has in common with the text.
pub proof fn lemma_spaced(s: Seq<char>, t: Seq<char>, p: int)
    requires
        spaced(s, t, p),
    ensures
        same_text_from(s, p, t, p + 1),
        forall|i: int| i < p ==> #[trigger] peek(t, i) == peek(s, i),
        forall|i: int, j: int|
            0 <= i <= j <= p ==> #[trigger] t.subrange(i, j) == s.subrange(i, j),
        !is_word_char(t[p]),
        !is_digit(t[p]),
        !is_hex_digit(t[p]),
{
    assert forall|i: int| i < p implies #[trigger] peek(t, i) == peek(s, i) by {
        if 0 <= i {
            assert(t[i] == s[i]);
        }
    }
    assert forall|i: int, j: int| 0 <= i <= j <= p implies #[trigger] t.subrange(i, j)
        == s.subrange(i, j) by {
        assert forall|k: int| 0 <= k < j - i implies t.subrange(i, j)[k] == s.subrange(i, j)[k] by {
            assert(t[i + k] == s[i + k]);
        }
        assert(t.subrange(i, j) =~= s.subrange(i, j));
    }
}

/// Runs that end before the blank are the same with it.
pub proof fn lemma_runs_before(s: Seq<char>, t: Seq<char>, p: int, k: int)
    requires
        spaced(s, t, p),
        0 <= k <= p,
    ensures
        k + word_run(s, k) <= p ==> word_run(t, k) == word_run(s, k),
        k + digit_run(s, k) <= p ==> digit_run(t, k) == digit_run(s, k),
        k + hex_run(s, k) <= p ==> hex_run(t, k) == hex_run(s, k),
        k + line_rest(s, k) < p ==> line_rest(t, k) == line_rest(s, k),
        k + line_rest(s, k) == p ==> line_rest(t, k) == line_rest(s, k) + if t[p] == '\n' {
            0int
        } else {
            1int
        },
    decreases p - k,
{
    lemma_spaced(s, t, p);
    if k < p {
        assert(t[k] == s[k]);
        lemma_runs_before(s, t, p, k + 1);
    } else {
        assert(s[p] == t[p + 1]);
        if line_rest(s, p) == 0 {
            assert(s[p] == '\n');
            assert(line_rest(t, p + 1) == 0);
        }
    }
}

/// A string literal that is closed before the blank is the same with it.
pub proof fn lemma_string_before(s: Seq<char>, t: Seq<char>, p: int, k: int)
    requires
        spaced(s, t, p),
        0 <= k <= p,
        string_tail(s, k).closed,
        k + string_tail(s, k).used <= p,
    ensures
        string_tail(t, k) == string_tail(s, k),
    decreases p - k,
{
    if k < p {
        assert(t[k] == s[k]);
        if s[k] == '"' {
        } else if s[k] == '\\' {
            if k + 1 < s.len() {
                assert(t[k + 1] == s[k + 1]);
                lemma_string_before(s, t, p, k + 2);
            }
        } else {
            lemma_string_before(s, t, p, k + 1);
        }
    }
}

/// A block comment that is closed before the blank is the same with it.
pub proof fn lemma_comment_before(s: Seq<char>, t: Seq<char>, p: int, k: int, depth: nat)
    requires
        spaced(s, t, p),
        0 <= k <= p,
        comment_tail(s, k, depth).closed,
        k + comment_tail(s, k, depth).used <= p,
    ensures
        comment_tail(t, k, depth) == comment_tail(s, k, depth),
    decreases p - k,
{
    lemma_spaced(s, t, p);
    if k < p {
        assert(t[k] == s[k]);
        if s[k] == '*' && peek(s, k + 1) == '/' {
            assert(k + 1 < p);
            if depth > 1 {
                lemma_comment_before(s, t, p, k + 2, (depth - 1) as nat);
            }
        } else if s[k] == '/' && peek(s, k + 1) == '*' {
            assert(k + 1 < p);
            lemma_comment_before(s, t, p, k + 2, depth + 1);
        } else {
            if k + 1 < p {
                lemma_comment_before(s, t, p, k + 1, depth);
            } else {
                assert(comment_tail(s, k + 1, depth).used >= 1);
            }
        }
    }
}

/// A number that ends before the blank has the same characters with it.
pub proof fn lemma_number_before(s: Seq<char>, t: Seq<char>, p: int, k: int)
    requires
        spaced(s, t, p),
        0 <= k < p,
        is_digit(s[k]),
        k + number_shape(s, k).used <= p,
    ensures
        number_shape(t, k).used == number_shape(s, k).used,
{
    lemma_spaced(s, t, p);
    lemma_runs_before(s, t, p, k);
    lemma_runs_stay_inside(s, k);
    assert(t[k] == s[k]);
    if peek(s, k) == '0' && peek(s, k + 1) == 'x' {
        assert(k + 2 <= p);
        lemma_runs_before(s, t, p, k + 2);
    } else {
        let whole = digit_run(s, k);
        assert(whole >= 1);
        if fraction_at(s, k + whole) {
            assert(k + whole + 1 <= p);
            lemma_runs_before(s, t, p, k + whole + 1);
            assert(peek(t, k + 1) == peek(s, k + 1));
        } else {
            if k + whole < p {
                assert(peek(t, k + whole) == peek(s, k + whole));
                if k + whole + 1 < p {
                    assert(peek(t, k + whole + 1) == peek(s, k + whole + 1));
                }
            }
            if k + 1 < p {
                assert(peek(t, k + 1) == peek(s, k + 1));
            } else {
                assert(peek(t, k + 1) == t[p]);
            }
        }
    }
}

/// A lexeme that ends before the blank gives the same token with it, and
/// takes the same characters, unless it is a line comment, which takes the
/// blank too.
#[verifier::spinoff_prover]
pub proof fn lemma_lexeme_before(s: Seq<char>, t: Seq<char>, p: int, pos: int)
    requires
        spaced(s, t, p),
        0 <= pos < p,
        pos + lexeme_at(s, pos).used <= p,
    ensures
        token_shapes(lexeme_at(t, pos).tokens) == token_shapes(lexeme_at(s, pos).tokens),
        lexeme_at(t, pos).used == lexeme_at(s, pos).used || (lexeme_at(t, pos).used == lexeme_at(
            s,
            pos,
        ).used + 1 && pos + lexeme_at(s, pos).used == p && lexeme_at(s, pos).tokens.len() == 0),
{
    lemma_spaced(s, t, p);
    assert(t[pos] == s[pos]);
    let c = s[pos];
    let next = peek(s, pos + 1);
    if pos + 1 < p {
        assert(peek(t, pos + 1) == next);
    } else {
        assert(peek(t, pos + 1) == t[p]);
    }
    if is_space(c) {
        assert(token_shapes(lexeme_at(t, pos).tokens) =~= token_shapes(lexeme_at(s, pos).tokens));
    } else if punctuation(c) is Some {
        lemma_plain_from(t, pos, s, pos, punctuation(c)->0, 1);
    } else if is_letter(c) {
        lemma_runs_before(s, t, p, pos + 1);
        let used = 1 + word_run(s, pos + 1);
        assert(t.subrange(pos, pos + used) == s.subrange(pos, pos + used));
        assert(token_shapes(word_at(t, pos).tokens) =~= token_shapes(word_at(s, pos).tokens));
    } else if is_digit(c) {
        lemma_number_before(s, t, p, pos);
        let used = number_shape(s, pos).used;
        assert(t.subrange(pos, pos + used) == s.subrange(pos, pos + used));
        assert(token_shapes(number_at(t, pos, 0).tokens) =~= token_shapes(
            number_at(s, pos, 0).tokens,
        ));
    } else if c == '"' {
        lemma_string_stays_inside(s, pos + 1);
        lemma_string_before(s, t, p, pos + 1);
        assert(token_shapes(string_at(t, pos).tokens) =~= token_shapes(string_at(s, pos).tokens));
    } else if c == '-' && next != '-' && next != '=' && is_digit(next) {
        assert(pos + 1 < p);
        lemma_number_before(s, t, p, pos + 1);
        let used = 1 + number_shape(s, pos + 1).used;
        assert(t.subrange(pos, pos + used) == s.subrange(pos, pos + used));
        assert(token_shapes(number_at(t, pos, 1).tokens) =~= token_shapes(
            number_at(s, pos, 1).tokens,
        ));
    } else if c == '/' && next == '/' {
        assert(pos + 2 <= p);
        lemma_runs_before(s, t, p, pos + 2);
        assert(token_shapes(lexeme_at(t, pos).tokens) =~= token_shapes(lexeme_at(s, pos).tokens));
    } else if c == '/' && next == '*' {
        assert(pos + 2 <= p);
        lemma_comment_stays_inside(s, pos + 2, 1);
        lemma_comment_before(s, t, p, pos + 2, 1);
        assert(token_shapes(comment_at(t, pos).tokens) =~= token_shapes(
            comment_at(s, pos).tokens,
        ));
    } else {
        lemma_plain_from(
            t,
            pos,
            s,
            pos,
            lexeme_at(s, pos).tokens[0].kind,
            lexeme_at(s, pos).used,
        );
    }
}

/// The tokens of a text with one more blank at the start of a lexeme have
/// the kinds and the texts of the tokens of the text, from any lexeme
/// before the blank on.
pub proof fn lemma_scan_spaced(s: Seq<char>, t: Seq<char>, p: int, pos: int)
    requires
        spaced(s, t, p),
        0 <= pos <= p,
        reaches(s, pos, p),
    ensures
        token_shapes(scan_from(t, pos).tokens) == token_shapes(scan_from(s, pos).tokens),
    decreases p - pos,
{
    lemma_spaced(s, t, p);
    crate::invariance::lemma_shape_algebra();
    if pos == p {
        lemma_scan_from_is_local(s, p, t, p + 1, p);
        assert(lexeme_at(t, p) == skipped(1));
        assert(scan_from(t, p).tokens =~= scan_from(t, p + 1).tokens);
    } else {
        let used = lexeme_at(s, pos).used;
        lemma_lexeme_is_small(s, pos);
        assert(reaches(s, pos + used, p));
        lemma_reaches(s, pos + used, p);
        assert(pos + used <= p);
        lemma_lexeme_before(s, t, p, pos);
        if lexeme_at(t, pos).used == used {
            lemma_scan_spaced(s, t, p, pos + used);
        } else {
            lemma_scan_from_is_local(s, p, t, p + 1, p);
            assert(token_shapes(lexeme_at(t, pos).tokens) =~= Seq::empty());
            assert(scan_from(s, pos).tokens =~= scan_from(s, p).tokens);
            assert(scan_from(t, pos).tokens =~= lexeme_at(t, pos).tokens + scan_from(
                t,
                p + 1,
            ).tokens);
        }
    }
}

/// Blanks between lexemes never show in the tokens: the text with one more
/// blank character at the start of one of its lexemes has tokens of the
/// same kinds and texts.
pub proof fn lemma_blank_between_lexemes(src: Seq<char>, p: int, c: char)
    requires
        0 <= p < src.len(),
        reaches(src, 0, p),
        is_space(c),
    ensures
        token_shapes(scan(with_character(src, p, c)).tokens) == token_shapes(scan(src).tokens),
{
    let t = with_character(src, p, c);
    assert(spaced(src, t, p));
    lemma_scan_spaced(src, t, p, 0);
}

/// Blanks between lexemes never show in the printed form: what is parsed
/// from the text with one more blank character at the start of one of its
/// lexemes is printed as what is parsed from the text.
pub proof fn lemma_spacing_does_not_show(src: Seq<char>, p: int, c: char)
    requires
        0 <= p < src.len(),
        reaches(src, 0, p),
        is_space(c),
    ensures
        printed_program(program(scan(with_character(src, p, c)).tokens).value) == printed_program(
            program(scan(src).tokens).value,
        ),
{
    lemma_blank_between_lexemes(src, p, c);
    lemma_scan_is_terminated(src);
    lemma_scan_is_terminated(with_character(src, p, c));
    lemma_printed_program_ignores_positions(
        scan(with_character(src, p, c)).tokens,
        scan(src).tokens,
    );
}

/// A character that is a blank gives no token and no diagnostic.
pub proof fn lemma_blank_gives_nothing(src: Seq<char>, pos: int)
    requires
        0 <= pos < src.len(),
        is_space(src[pos]),
    ensures
        scan_from(src, pos) == scan_from(src, pos + 1),
{
    assert(scan_from(src, pos).tokens =~= scan_from(src, pos + 1).tokens);
    assert(scan_from(src, pos).errors =~= scan_from(src, pos + 1).errors);
}

/// A line comment gives no token and no diagnostic: the tokens of the text
/// are those from the end of its line on.
pub proof fn lemma_line_comment_gives_nothing(src: Seq<char>, pos: int)
    requires
        0 <= pos < src.len(),
        src[pos] == '/',
        peek(src, pos + 1) == '/',
    ensures
        scan_from(src, pos) == scan_from(src, pos + 2 + line_rest(src, pos + 2)),
{
    let after = pos + 2 + line_rest(src, pos + 2);
    assert(scan_from(src, pos).tokens =~= scan_from(src, after).tokens);
    assert(scan_from(src, pos).errors =~= scan_from(src, after).errors);
}

/// A block comment gives no token: the tokens of the text are those from
/// the end of the comment on. Where it is closed it gives no diagnostic
/// either.
pub proof fn lemma_block_comment_gives_no_token(src: Seq<char>, pos: int)
    requires
        0 <= pos < src.len(),
        src[pos] == '/',
        peek(src, pos + 1) == '*',
    ensures
        scan_from(src, pos).tokens == scan_from(
            src,
            pos + 2 + comment_tail(src, pos + 2, 1).used,
        ).tokens,
        comment_tail(src, pos + 2, 1).closed ==> scan_from(src, pos).errors == scan_from(
            src,
            pos + 2 + comment_tail(src, pos + 2, 1).used,
        ).errors,
{
    let after = pos + 2 + comment_tail(src, pos + 2, 1).used;
    assert(scan_from(src, pos).tokens =~= scan_from(src, after).tokens);
    if comment_tail(src, pos + 2, 1).closed {
        assert(scan_from(src, pos).errors =~= scan_from(src, after).errors);
    }
}

} // verus!
