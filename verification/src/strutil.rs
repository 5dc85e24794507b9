//! Small helpers for moving between `String`, `&str` and `Vec<char>`.
use vstd::prelude::*;

verus! {

/// Relies on `String::push` appending exactly the given character.
pub assume_specification[ String::push ](s: &mut String, c: char)
    ensures
        final(s)@ == old(s)@.push(c),
;

/// The characters of a string, in order, as an indexable vector.
pub fn chars_of(s: &str) -> (r: Vec<char>)
    ensures
        r@ == s@,
{
    let n = s.unicode_len();
    let mut r: Vec<char> = Vec::new();
    let mut i: usize = 0;
    while i < n
        invariant
            n == s@.len(),
            i <= n,
            r@ == s@.subrange(0, i as int),
        decreases n - i,
    {
        r.push(s.get_char(i));
        i = i + 1;
        proof {
            assert(r@ =~= s@.subrange(0, i as int));
        }
    }
    proof {
        assert(r@ =~= s@);
    }
    r
}

/// A string holding exactly the given characters.
pub fn string_of(v: &Vec<char>) -> (r: String)
    ensures
        r@ == v@,
{
    let mut r = String::new();
    let mut i: usize = 0;
    while i < v.len()
        invariant
            i <= v@.len(),
            r@ == v@.subrange(0, i as int),
        decreases v@.len() - i,
    {
        r.push(v[i]);
        i = i + 1;
        proof {
            assert(r@ =~= v@.subrange(0, i as int));
        }
    }
    proof {
        assert(r@ =~= v@);
    }
    r
}

/// Whether the vector holds the character.
pub fn contains_char(v: &Vec<char>, c: char) -> (r: bool)
    ensures
        r == v@.contains(c),
{
    let mut i: usize = 0;
    while i < v.len()
        invariant
            i <= v@.len(),
            forall|j: int| 0 <= j < i ==> v@[j] != c,
        decreases v@.len() - i,
    {
        if v[i] == c {
            return true;
        }
        i = i + 1;
    }
    false
}

/// The decimal digit character for a value below ten.
pub open spec fn digit_char(d: int) -> char {
    if d == 0 { '0' }
    else if d == 1 { '1' }
    else if d == 2 { '2' }
    else if d == 3 { '3' }
    else if d == 4 { '4' }
    else if d == 5 { '5' }
    else if d == 6 { '6' }
    else if d == 7 { '7' }
    else if d == 8 { '8' }
    else { '9' }
}

pub open spec fn is_digit_char(c: char) -> bool {
    48 <= c as u32 <= 57
}

/// The value of a decimal digit character.
pub open spec fn digit_val(c: char) -> int {
    c as u32 - 48
}

pub proof fn lemma_digit_char_val(d: int)
    requires
        0 <= d < 10,
    ensures
        is_digit_char(digit_char(d)),
        digit_val(digit_char(d)) == d,
{
}

pub fn digit_char_exec(d: usize) -> (c: char)
    requires
        d < 10,
    ensures
        c == digit_char(d as int),
{
    if d == 0 { '0' }
    else if d == 1 { '1' }
    else if d == 2 { '2' }
    else if d == 3 { '3' }
    else if d == 4 { '4' }
    else if d == 5 { '5' }
    else if d == 6 { '6' }
    else if d == 7 { '7' }
    else if d == 8 { '8' }
    else { '9' }
}

pub fn is_digit_char_exec(c: char) -> (r: bool)
    ensures
        r == is_digit_char(c),
{
    let u = c as u32;
    48 <= u && u <= 57
}

pub fn digit_val_exec(c: char) -> (d: u32)
    requires
        is_digit_char(c),
    ensures
        d == digit_val(c),
{
    c as u32 - 48
}

/// The lowercase letter with the given position in the alphabet.
pub open spec fn lowercase_char(d: int) -> char {
    if d == 0 { 'a' }
    else if d == 1 { 'b' }
    else if d == 2 { 'c' }
    else if d == 3 { 'd' }
    else if d == 4 { 'e' }
    else if d == 5 { 'f' }
    else if d == 6 { 'g' }
    else if d == 7 { 'h' }
    else if d == 8 { 'i' }
    else if d == 9 { 'j' }
    else if d == 10 { 'k' }
    else if d == 11 { 'l' }
    else if d == 12 { 'm' }
    else if d == 13 { 'n' }
    else if d == 14 { 'o' }
    else if d == 15 { 'p' }
    else if d == 16 { 'q' }
    else if d == 17 { 'r' }
    else if d == 18 { 's' }
    else if d == 19 { 't' }
    else if d == 20 { 'u' }
    else if d == 21 { 'v' }
    else if d == 22 { 'w' }
    else if d == 23 { 'x' }
    else if d == 24 { 'y' }
    else { 'z' }
}

pub fn lowercase_char_exec(d: usize) -> (c: char)
    requires
        d < 26,
    ensures
        c == lowercase_char(d as int),
{
    if d == 0 { 'a' }
    else if d == 1 { 'b' }
    else if d == 2 { 'c' }
    else if d == 3 { 'd' }
    else if d == 4 { 'e' }
    else if d == 5 { 'f' }
    else if d == 6 { 'g' }
    else if d == 7 { 'h' }
    else if d == 8 { 'i' }
    else if d == 9 { 'j' }
    else if d == 10 { 'k' }
    else if d == 11 { 'l' }
    else if d == 12 { 'm' }
    else if d == 13 { 'n' }
    else if d == 14 { 'o' }
    else if d == 15 { 'p' }
    else if d == 16 { 'q' }
    else if d == 17 { 'r' }
    else if d == 18 { 's' }
    else if d == 19 { 't' }
    else if d == 20 { 'u' }
    else if d == 21 { 'v' }
    else if d == 22 { 'w' }
    else if d == 23 { 'x' }
    else if d == 24 { 'y' }
    else { 'z' }
}

} // verus!
