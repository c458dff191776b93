//! Characters and strings: ASCII case folding, white space, and
//! conversions between strings and character vectors.

use vstd::prelude::*;
use vstd::string::*;
use vstd::std_specs::iter::IteratorSpec;

verus! {

/// The ASCII lower-case form of a character: `'A'..='Z'` map to
/// `'a'..='z'`, every other character is unchanged.
pub open spec fn ascii_lower(c: char) -> char {
    if 'A' <= c && c <= 'Z' {
        ((c as u32) + 32) as char
    } else {
        c
    }
}

/// `char::to_ascii_lowercase` of std: ASCII upper-case letters are mapped to
/// their lower-case counterparts and all other characters are returned
/// unchanged, as its documentation states.
pub assume_specification[ char::to_ascii_lowercase ](c: &char) -> (r: char)
    ensures
        r == ascii_lower(*c),
;

/// `String::push` of std: appends one character to the end of the string.
#[verifier::external_body]
pub(crate) fn push_char(s: &mut String, c: char)
    ensures
        final(s)@ == old(s)@.push(c),
{
    s.push(c)
}

/// `String::pop` of std: removes the last character of the string and
/// returns it, `None` where the string is empty.
#[verifier::external_body]
pub(crate) fn pop_char(s: &mut String) -> (last: Option<char>)
    ensures
        old(s)@.len() == 0 ==> last is None && final(s)@ == old(s)@,
        old(s)@.len() > 0 ==> last == Some(old(s)@.last()) && final(s)@ == old(s)@.drop_last(),
{
    s.pop()
}

/// The characters of a string, in order.
pub fn chars_of(s: &str) -> (v: Vec<char>)
    ensures
        v@ == s@,
{
    let mut v: Vec<char> = Vec::new();
    for c in it: s.chars()
        invariant
            v@ == it.seq().take(it.index() as int),
    {
        v.push(c);
    }
    v
}

/// The string made of the given characters, in order.
pub fn string_of(chars: &Vec<char>) -> (s: String)
    ensures
        s@ == chars@,
{
    let mut s = String::new();
    let mut i: usize = 0;
    while i < chars.len()
        invariant
            i <= chars.len(),
            s@ == chars@.take(i as int),
        decreases chars.len() - i,
    {
        push_char(&mut s, chars[i]);
        i += 1;
    }
    s
}

/// Whether std counts a character as white space.
pub uninterp spec fn white_space(c: char) -> bool;

/// `char::is_whitespace` of std: whether the character has the Unicode
/// property `White_Space`. It is a function of the character alone.
pub assume_specification[ char::is_whitespace ](c: char) -> (r: bool)
    ensures
        r == white_space(c),
;

/// The words of a text, joined by single spaces: white space at either end
/// is dropped, and every other run of white space becomes one space.
pub open spec fn collapsed(text: Seq<char>) -> Seq<char>
    decreases text.len(),
{
    if text.len() == 0 {
        Seq::empty()
    } else {
        let before = text.drop_last();
        if white_space(text.last()) {
            collapsed(before)
        } else if before.len() > 0 && white_space(before.last()) && collapsed(before).len() > 0 {
            collapsed(before).push(' ').push(text.last())
        } else {
            collapsed(before).push(text.last())
        }
    }
}

/// The words of `text`, joined by single spaces.
pub fn collapse_whitespace(text: &str) -> (out: String)
    ensures
        out@ == collapsed(text@),
{
    let chars = chars_of(text);
    let mut out = String::new();
    let mut i: usize = 0;
    while i < chars.len()
        invariant
            i <= chars.len(),
            out@ == collapsed(chars@.take(i as int)),
        decreases chars.len() - i,
    {
        let c = chars[i];
        proof {
            assert(chars@.take(i + 1).drop_last() =~= chars@.take(i as int));
        }
        if !c.is_whitespace() {
            if i > 0 && chars[i - 1].is_whitespace() && !out.as_str().is_empty() {
                push_char(&mut out, ' ');
            }
            push_char(&mut out, c);
        }
        i += 1;
    }
    assert(chars@.take(chars@.len() as int) =~= chars@);
    out
}

/// Whether a character is an ASCII digit.
pub open spec fn is_digit(c: char) -> bool {
    '0' <= c && c <= '9'
}

/// The length of the run of ASCII digits that ends just before position
/// `n` of `text`.
pub open spec fn digits_before(text: Seq<char>, n: int) -> nat
    decreases n,
{
    if n <= 0 || n > text.len() {
        0
    } else if is_digit(text[n - 1]) {
        digits_before(text, n - 1) + 1
    } else {
        0
    }
}

/// Whether no run of ASCII digits in `text` is longer than `bound`.
pub open spec fn digit_runs_within(text: Seq<char>, bound: nat) -> bool {
    forall|n: int| 0 <= n <= text.len() ==> digits_before(text, n) <= bound
}

/// Whether no run of ASCII digits in `text` is longer than `bound`.
pub fn has_digit_runs_within(text: &str, bound: usize) -> (within: bool)
    ensures
        within == digit_runs_within(text@, bound as nat),
{
    let chars = chars_of(text);
    let mut run: usize = 0;
    let mut i: usize = 0;
    while i < chars.len()
        invariant
            i <= chars.len(),
            chars@ == text@,
            run == digits_before(chars@, i as int),
            run <= bound,
            forall|n: int| 0 <= n <= i ==> digits_before(chars@, n) <= bound,
        decreases chars.len() - i,
    {
        let c = chars[i];
        if c >= '0' && c <= '9' {
            if run >= bound {
                assert(digits_before(chars@, i + 1) > bound);
                return false;
            }
            run += 1;
        } else {
            run = 0;
        }
        i += 1;
    }
    true
}

/// Whether two strings hold the same characters.
pub fn same_text(a: &str, b: &str) -> (same: bool)
    ensures
        same == (a@ == b@),
{
    let left = chars_of(a);
    let right = chars_of(b);
    if left.len() != right.len() {
        return false;
    }
    let mut i: usize = 0;
    while i < left.len()
        invariant
            i <= left.len(),
            left.len() == right.len(),
            left@ == a@,
            right@ == b@,
            forall|k: int| 0 <= k < i ==> left@[k] == right@[k],
        decreases left.len() - i,
    {
        if left[i] != right[i] {
            return false;
        }
        i += 1;
    }
    assert(left@ =~= right@);
    true
}

} // verus!
