//! Validation of wire parameters before the engine is invoked.
use vstd::prelude::*;

use crate::captcha::Difficulty;
use crate::json::{e_nat_usize, p_nat};
use crate::methods::CaptchaError;
use crate::strutil::{chars_of, is_digit_char};

verus! {

/// What a tries / time-to-live parameter means: at most three decimal
/// digits.
pub open spec fn parse_tries_spec(s: Seq<char>) -> Option<nat> {
    if s.len() > 3 {
        None
    } else {
        match p_nat(s, usize::MAX as nat) {
            Some(p) => if p.1.len() == 0 {
                Some(p.0)
            } else {
                None
            },
            None => None,
        }
    }
}

/// A lowercase hexadecimal digit.
pub open spec fn is_hex_char(c: char) -> bool {
    is_digit_char(c) || (97 <= c as u32 <= 102)
}

/// The canonical hyphenated identifier shape: 36 characters, hyphens at the
/// four fixed positions, lowercase hexadecimal digits elsewhere.
pub open spec fn valid_uuid(s: Seq<char>) -> bool {
    &&& s.len() == 36
    &&& forall|i: int|
        0 <= i < 36 ==> (if i == 8 || i == 13 || i == 18 || i == 23 {
            #[trigger] s[i] == '-'
        } else {
            is_hex_char(s[i])
        })
}

pub fn validate_difficulty(s: String) -> (r: Result<Difficulty, CaptchaError>)
    ensures
        s@ == ("easy")@ ==> r == Ok::<Difficulty, CaptchaError>(Difficulty::Easy),
        s@ == ("medium")@ ==> r == Ok::<Difficulty, CaptchaError>(Difficulty::Medium),
        s@ == ("hard")@ ==> r == Ok::<Difficulty, CaptchaError>(Difficulty::Hard),
        s@ != ("easy")@ && s@ != ("medium")@ && s@ != ("hard")@ ==> r == Err::<
            Difficulty,
            CaptchaError,
        >(CaptchaError::InvalidParameters),
{
    proof {
        reveal_strlit("easy");
        reveal_strlit("medium");
        reveal_strlit("hard");
        assert(("easy")@.len() == 4);
        assert(("medium")@.len() == 6);
        assert(("hard")@.len() == 4);
        if ("easy")@ == ("hard")@ {
            assert(("easy")@[0] == ("hard")@[0]);
            assert(false);
        }
    }
    if s == String::from_str("easy") {
        Ok(Difficulty::Easy)
    } else if s == String::from_str("medium") {
        Ok(Difficulty::Medium)
    } else if s == String::from_str("hard") {
        Ok(Difficulty::Hard)
    } else {
        Err(CaptchaError::InvalidParameters)
    }
}

pub fn validate_tries(s: String) -> (r: Result<usize, CaptchaError>)
    ensures
        r matches Ok(v) ==> parse_tries_spec(s@) == Some(v as nat),
        r matches Err(e) ==> e == CaptchaError::InvalidParameters && parse_tries_spec(s@) is None,
{
    let v = chars_of(s.as_str());
    if v.len() > 3 {
        return Err(CaptchaError::InvalidParameters);
    }
    proof {
        assert(v@.skip(0) =~= v@);
    }
    match e_nat_usize(&v, 0) {
        Some(p) => {
            if p.1 == v.len() {
                proof {
                    assert(v@.skip(p.1 as int).len() == 0);
                }
                Ok(p.0)
            } else {
                Err(CaptchaError::InvalidParameters)
            }
        },
        None => Err(CaptchaError::InvalidParameters),
    }
}

pub fn validate_ttl(s: String) -> (r: Result<i64, CaptchaError>)
    ensures
        r matches Ok(v) ==> 0 <= v <= 999 && parse_tries_spec(s@) == Some(v as nat),
        r matches Err(e) ==> e == CaptchaError::InvalidParameters && parse_tries_spec(s@) is None,
{
    match validate_tries(s) {
        Ok(v) => {
            // Three decimal digits keep the value below a thousand.
            if v > 999 {
                proof {
                    lemma_small_tries(s@);
                }
                Err(CaptchaError::InvalidParameters)
            } else {
                Ok(v as i64)
            }
        },
        Err(e) => Err(e),
    }
}

/// A tries text of at most three digits denotes a value below a thousand.
proof fn lemma_small_tries(s: Seq<char>)
    requires
        parse_tries_spec(s) is Some,
    ensures
        parse_tries_spec(s)->Some_0 < 1000,
{
    crate::json::lemma_p_digits_upper(s, 0);
    crate::json::lemma_pow10_le(s.len() as nat, 3);
    let v = crate::json::p_digits(s, 0).0;
    assert(parse_tries_spec(s)->Some_0 == v);
    assert(v < 1 * crate::json::pow10(s.len() as nat));
    assert(1 * crate::json::pow10(s.len() as nat) == crate::json::pow10(s.len() as nat));
    assert(crate::json::pow10(0) == 1);
    assert(crate::json::pow10(1) == 10);
    assert(crate::json::pow10(2) == 100);
    assert(crate::json::pow10(3) == 1000);
}

pub fn is_hex_char_exec(c: char) -> (r: bool)
    ensures
        r == is_hex_char(c),
{
    let u = c as u32;
    (48 <= u && u <= 57) || (97 <= u && u <= 102)
}

/// A hexadecimal digit of either case.
pub open spec fn is_hex_relaxed(c: char) -> bool {
    is_hex_char(c) || (65 <= c as u32 <= 70)
}

/// The identifier shape accepted on the wire: 36 characters, hyphens at the
/// four fixed positions, hexadecimal digits of either case elsewhere.
/// Unhyphenated, braced and urn spellings are not accepted.
pub open spec fn valid_uuid_input(s: Seq<char>) -> bool {
    &&& s.len() == 36
    &&& forall|i: int|
        0 <= i < 36 ==> (if i == 8 || i == 13 || i == 18 || i == 23 {
            #[trigger] s[i] == '-'
        } else {
            is_hex_relaxed(s[i])
        })
}

/// The character with an uppercase hexadecimal letter lowered.
pub open spec fn hex_lower(c: char) -> char {
    if c == 'A' { 'a' }
    else if c == 'B' { 'b' }
    else if c == 'C' { 'c' }
    else if c == 'D' { 'd' }
    else if c == 'E' { 'e' }
    else if c == 'F' { 'f' }
    else { c }
}

/// The identifier with its hexadecimal letters lowered: the canonical
/// spelling used as the store key.
pub open spec fn normalize_uuid(s: Seq<char>) -> Seq<char> {
    Seq::new(s.len(), |i: int| hex_lower(s[i]))
}

fn hex_lower_exec(c: char) -> (r: char)
    ensures
        r == hex_lower(c),
{
    if c == 'A' { 'a' }
    else if c == 'B' { 'b' }
    else if c == 'C' { 'c' }
    else if c == 'D' { 'd' }
    else if c == 'E' { 'e' }
    else if c == 'F' { 'f' }
    else { c }
}

fn is_hex_relaxed_exec(c: char) -> (r: bool)
    ensures
        r == is_hex_relaxed(c),
{
    let u = c as u32;
    (48 <= u && u <= 57) || (97 <= u && u <= 102) || (65 <= u && u <= 70)
}

/// An accepted identifier normalizes to the canonical hyphenated shape.
pub proof fn lemma_normalize_uuid(s: Seq<char>)
    requires
        valid_uuid_input(s),
    ensures
        valid_uuid(normalize_uuid(s)),
{
    assert forall|i: int|
        0 <= i < 36 implies (if i == 8 || i == 13 || i == 18 || i == 23 {
        #[trigger] normalize_uuid(s)[i] == '-'
    } else {
        is_hex_char(normalize_uuid(s)[i])
    }) by {
        assert(normalize_uuid(s)[i] == hex_lower(s[i]));
    }
}

/// Accepts a challenge identifier exactly when it has the hyphenated shape,
/// and hands back its canonical lowercase spelling.
pub fn validate_id(s: String) -> (r: Result<String, CaptchaError>)
    ensures
        r is Ok <==> valid_uuid_input(s@),
        r matches Ok(v) ==> v@ == normalize_uuid(s@) && valid_uuid(v@),
        r matches Err(e) ==> e == CaptchaError::InvalidParameters,
{
    let n = s.as_str().unicode_len();
    if n != 36 {
        return Err(CaptchaError::InvalidParameters);
    }
    let mut out = String::new();
    let mut i: usize = 0;
    while i < 36
        invariant
            s@.len() == 36,
            i <= 36,
            out@.len() == i,
            forall|j: int|
                0 <= j < i ==> (if j == 8 || j == 13 || j == 18 || j == 23 {
                    #[trigger] s@[j] == '-'
                } else {
                    is_hex_relaxed(s@[j])
                }),
            forall|j: int| 0 <= j < i ==> out@[j] == hex_lower(#[trigger] s@[j]),
        decreases 36 - i,
    {
        let c = s.as_str().get_char(i);
        if i == 8 || i == 13 || i == 18 || i == 23 {
            if c != '-' {
                return Err(CaptchaError::InvalidParameters);
            }
            out.push('-');
        } else {
            if !is_hex_relaxed_exec(c) {
                return Err(CaptchaError::InvalidParameters);
            }
            out.push(hex_lower_exec(c));
        }
        i = i + 1;
    }
    proof {
        assert(out@ =~= normalize_uuid(s@));
        lemma_normalize_uuid(s@);
    }
    Ok(out)
}

pub fn validate_solution(s: String) -> (r: Result<String, CaptchaError>)
    ensures
        r matches Ok(v) ==> v@ == s@ && s@.len() <= 10,
        r matches Err(e) ==> e == CaptchaError::InvalidParameters && s@.len() > 10,
{
    if s.as_str().unicode_len() > 10 {
        return Err(CaptchaError::InvalidParameters);
    }
    Ok(s)
}

} // verus!
