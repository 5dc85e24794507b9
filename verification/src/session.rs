//! Opaque session identifiers: 20 characters drawn from `[0-9a-z]`.
use vstd::prelude::*;

use crate::rng::os_random_u32;
use crate::strutil::{digit_char_exec, lowercase_char_exec};

verus! {

/// A character of the session-identifier alphabet: a decimal digit or a
/// lowercase letter.
pub open spec fn is_session_char(c: char) -> bool {
    (48 <= c as u32 <= 57) || (97 <= c as u32 <= 122)
}

/// A well-formed session identifier: exactly 20 characters, all from the
/// session alphabet.
pub open spec fn valid_session_id(s: Seq<char>) -> bool {
    &&& s.len() == 20
    &&& forall|i: int| 0 <= i < s.len() ==> is_session_char(#[trigger] s[i])
}

pub fn is_session_char_exec(c: char) -> (r: bool)
    ensures
        r == is_session_char(c),
{
    let u = c as u32;
    (48 <= u && u <= 57) || (97 <= u && u <= 122)
}

pub struct Session {
    id: String,
}

impl View for Session {
    type V = Seq<char>;

    closed spec fn view(&self) -> Seq<char> {
        self.id@
    }
}

impl Session {
    /// Draws a fresh random identifier from the session alphabet.
    /// `None` is returned exactly when the randomness source fails.
    pub fn new() -> (r: Option<Session>)
        ensures
            r matches Some(s) ==> valid_session_id(s@),
    {
        let mut id = String::new();
        let mut i: usize = 0;
        while i < 20
            invariant
                i <= 20,
                id@.len() == i,
                forall|j: int| 0 <= j < id@.len() ==> is_session_char(#[trigger] id@[j]),
            decreases 20 - i,
        {
            let r = match os_random_u32() {
                Some(r) => r,
                None => {
                    return None;
                },
            };
            let idx = (r % 36) as usize;
            let c = if idx < 10 {
                digit_char_exec(idx)
            } else {
                lowercase_char_exec(idx - 10)
            };
            assert(is_session_char(c));
            id.push(c);
            i = i + 1;
        }
        Some(Session { id })
    }

    /// Accepts a string as a session identifier exactly when it is
    /// well-formed.
    pub fn from_string(s: String) -> (r: Option<Session>)
        ensures
            r is Some <==> valid_session_id(s@),
            r matches Some(x) ==> x@ == s@,
    {
        let n = s.as_str().unicode_len();
        if n != 20 {
            return None;
        }
        let mut i: usize = 0;
        while i < 20
            invariant
                s@.len() == 20,
                i <= 20,
                forall|j: int| 0 <= j < i ==> is_session_char(#[trigger] s@[j]),
            decreases 20 - i,
        {
            if !is_session_char_exec(s.as_str().get_char(i)) {
                return None;
            }
            i = i + 1;
        }
        Some(Session { id: s })
    }

    pub fn to_string(&self) -> (r: String)
        ensures
            r@ == self@,
    {
        self.id.clone()
    }
}

} // verus!
