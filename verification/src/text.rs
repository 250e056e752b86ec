//! Small operations on strings and characters.

use vstd::prelude::*;

verus! {

/// `String::push` appends the character to the end of the string.
pub assume_specification[ String::push ](s: &mut String, ch: char)
    ensures
        final(s)@ == old(s)@.push(ch),
;

/// The characters of a string, in order.
pub fn chars_of(s: &str) -> (v: Vec<char>)
    ensures
        v@ == s@,
{
    let mut v: Vec<char> = Vec::new();
    for ch in it: s.chars()
        invariant
            v@ == it.seq().take(it.index() as int),
            it.seq() == s@,
    {
        v.push(ch);
    }
    v
}

/// Whether two strings hold the same characters.
pub fn same_text(a: &str, b: &str) -> (same: bool)
    ensures
        same == (a@ == b@),
{
    let n = a.unicode_len();
    if n != b.unicode_len() {
        return false;
    }
    let mut i: usize = 0;
    while i < n
        invariant
            i <= n,
            n == a@.len(),
            n == b@.len(),
            forall|k: int| 0 <= k < i ==> a@[k] == b@[k],
        decreases n - i,
    {
        if a.get_char(i) != b.get_char(i) {
            return false;
        }
        i += 1;
    }
    assert(a@ =~= b@);
    true
}

/// The lower-case form of an ASCII capital letter; any other character
/// unchanged.
pub open spec fn lower_char(c: char) -> char {
    match c {
        'A' => 'a',
        'B' => 'b',
        'C' => 'c',
        'D' => 'd',
        'E' => 'e',
        'F' => 'f',
        'G' => 'g',
        'H' => 'h',
        'I' => 'i',
        'J' => 'j',
        'K' => 'k',
        'L' => 'l',
        'M' => 'm',
        'N' => 'n',
        'O' => 'o',
        'P' => 'p',
        'Q' => 'q',
        'R' => 'r',
        'S' => 's',
        'T' => 't',
        'U' => 'u',
        'V' => 'v',
        'W' => 'w',
        'X' => 'x',
        'Y' => 'y',
        'Z' => 'z',
        _ => c,
    }
}

/// The text with every ASCII capital letter in lower case.
pub open spec fn lower_text(s: Seq<char>) -> Seq<char> {
    Seq::new(s.len(), |i: int| lower_char(s[i]))
}

/// The lower-case form of an ASCII capital letter; any other character
/// unchanged.
pub fn to_lower(c: char) -> (l: char)
    ensures
        l == lower_char(c),
{
    match c {
        'A' => 'a',
        'B' => 'b',
        'C' => 'c',
        'D' => 'd',
        'E' => 'e',
        'F' => 'f',
        'G' => 'g',
        'H' => 'h',
        'I' => 'i',
        'J' => 'j',
        'K' => 'k',
        'L' => 'l',
        'M' => 'm',
        'N' => 'n',
        'O' => 'o',
        'P' => 'p',
        'Q' => 'q',
        'R' => 'r',
        'S' => 's',
        'T' => 't',
        'U' => 'u',
        'V' => 'v',
        'W' => 'w',
        'X' => 'x',
        'Y' => 'y',
        'Z' => 'z',
        _ => c,
    }
}

/// Whether `a`, with its ASCII capital letters in lower case, reads `b`.
pub fn same_text_lowered(a: &str, b: &str) -> (same: bool)
    ensures
        same == (lower_text(a@) == b@),
{
    let n = a.unicode_len();
    if n != b.unicode_len() {
        return false;
    }
    let mut i: usize = 0;
    while i < n
        invariant
            i <= n,
            n == a@.len(),
            n == b@.len(),
            forall|k: int| 0 <= k < i ==> lower_char(a@[k]) == b@[k],
        decreases n - i,
    {
        if to_lower(a.get_char(i)) != b.get_char(i) {
            assert(lower_text(a@)[i as int] != b@[i as int]);
            return false;
        }
        i += 1;
    }
    assert(lower_text(a@) =~= b@);
    true
}

} // verus!
