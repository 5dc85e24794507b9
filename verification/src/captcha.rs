//! Challenge values: the stored challenge, the solution text, and the
//! answers the service gives about them.
use vstd::prelude::*;

use crate::config::Config;
use crate::json::{dec_digits, e_lit, e_nat_usize, e_bool, e_qstring, json_bool, json_string,
    lemma_p_bool_of_json_bool, lemma_p_lit_prefix, lemma_p_nat_of_dec,
    lemma_p_qstring_of_json_string, p_bool, p_lit, p_nat, p_qstring, write_bool, write_json_string,
    write_usize};
use crate::rng::os_random_u32;
use crate::strutil::{chars_of, contains_char};

verus! {

/// A value with a JSON wire form.
pub trait CaptchaToJson: Sized {
    fn to_json(&self) -> String;
}

// ---------------------------------------------------------------------------

/// The difficulty steps a caller may ask for.
#[derive(Debug, PartialEq, Eq, Structural, Clone, Copy)]
pub enum Difficulty {
    Easy,
    Medium,
    Hard,
}

// ---------------------------------------------------------------------------

/// The answer to a solution attempt against a stored challenge.
#[derive(Debug)]
pub struct CaptchaSolutionResponse {
    pub checked: bool,
    pub info: String,
    pub solved: bool,
    pub tries: usize,
    pub max_tries: usize,
}

/// The JSON form of a solution response.
pub open spec fn json_of_csr(
    checked: bool,
    info: Seq<char>,
    solved: bool,
    tries: nat,
    max_tries: nat,
) -> Seq<char> {
    ("{\"checked\":")@ + json_bool(checked) + (",\"info\":")@ + json_string(info) + (
    ",\"solved\":")@ + json_bool(solved) + (",\"tries\":")@ + dec_digits(tries) + (
    ",\"max_tries\":")@ + dec_digits(max_tries) + ("}")@
}

impl CaptchaSolutionResponse {
    /// A fresh, unchecked response mirroring the stored challenge's state.
    pub fn new(c: &Captcha) -> (r: CaptchaSolutionResponse)
        ensures
            r.checked == false,
            r.info@.len() == 0,
            r.solved == c.solved,
            r.tries == c.tries,
            r.max_tries == c.max_tries,
    {
        CaptchaSolutionResponse {
            checked: false,
            info: String::new(),
            solved: c.solved,
            tries: c.tries,
            max_tries: c.max_tries,
        }
    }

    pub fn set_reason(self, reason: &str) -> (r: CaptchaSolutionResponse)
        ensures
            r.info@ == reason@,
            r.checked == self.checked,
            r.solved == self.solved,
            r.tries == self.tries,
            r.max_tries == self.max_tries,
    {
        CaptchaSolutionResponse { info: String::from_str(reason), ..self }
    }

    pub fn set_checked(self, val: bool) -> (r: CaptchaSolutionResponse)
        ensures
            r.checked == val,
            r.info@ == self.info@,
            r.solved == self.solved,
            r.tries == self.tries,
            r.max_tries == self.max_tries,
    {
        CaptchaSolutionResponse { checked: val, ..self }
    }

    pub fn inc_tries(self) -> (r: CaptchaSolutionResponse)
        requires
            self.tries < usize::MAX,
        ensures
            r.tries == self.tries + 1,
            r.checked == self.checked,
            r.info@ == self.info@,
            r.solved == self.solved,
            r.max_tries == self.max_tries,
    {
        CaptchaSolutionResponse { tries: self.tries + 1, ..self }
    }

    pub fn set_solved(self, val: bool) -> (r: CaptchaSolutionResponse)
        ensures
            r.solved == val,
            r.checked == self.checked,
            r.info@ == self.info@,
            r.tries == self.tries,
            r.max_tries == self.max_tries,
    {
        CaptchaSolutionResponse { solved: val, ..self }
    }
}

impl CaptchaToJson for CaptchaSolutionResponse {
    fn to_json(&self) -> (r: String)
        ensures
            r@ == json_of_csr(self.checked, self.info@, self.solved, self.tries as nat,
                self.max_tries as nat),
    {
        let mut out = String::new();
        out.append("{\"checked\":");
        write_bool(&mut out, self.checked);
        out.append(",\"info\":");
        write_json_string(&mut out, self.info.as_str());
        out.append(",\"solved\":");
        write_bool(&mut out, self.solved);
        out.append(",\"tries\":");
        write_usize(&mut out, self.tries);
        out.append(",\"max_tries\":");
        write_usize(&mut out, self.max_tries);
        out.append("}");
        proof {
            assert(out@ =~= json_of_csr(self.checked, self.info@, self.solved, self.tries as nat,
                self.max_tries as nat));
        }
        out
    }
}

// ---------------------------------------------------------------------------

/// What a caller is told about a created or fetched challenge: its state,
/// never its solution.
#[derive(Debug)]
pub struct CaptchaCreation {
    solved: bool,
    tries: usize,
    max_tries: usize,
}

/// The JSON form of a creation response.
pub open spec fn json_of_creation(solved: bool, tries: nat, max_tries: nat) -> Seq<char> {
    ("{\"solved\":")@ + json_bool(solved) + (",\"tries\":")@ + dec_digits(tries) + (
    ",\"max_tries\":")@ + dec_digits(max_tries) + ("}")@
}

impl CaptchaCreation {
    pub fn new(c: Captcha) -> (r: CaptchaCreation)
        ensures
            r.solved_spec() == c.solved,
            r.tries_spec() == c.tries as nat,
            r.max_tries_spec() == c.max_tries as nat,
    {
        CaptchaCreation { solved: c.solved, tries: c.tries, max_tries: c.max_tries }
    }

    pub closed spec fn solved_spec(&self) -> bool {
        self.solved
    }

    pub closed spec fn tries_spec(&self) -> nat {
        self.tries as nat
    }

    pub closed spec fn max_tries_spec(&self) -> nat {
        self.max_tries as nat
    }
}

impl CaptchaToJson for CaptchaCreation {
    fn to_json(&self) -> (r: String)
        ensures
            r@ == json_of_creation(self.solved_spec(), self.tries_spec(), self.max_tries_spec()),
    {
        let mut out = String::new();
        out.append("{\"solved\":");
        write_bool(&mut out, self.solved);
        out.append(",\"tries\":");
        write_usize(&mut out, self.tries);
        out.append(",\"max_tries\":");
        write_usize(&mut out, self.max_tries);
        out.append("}");
        proof {
            assert(out@ =~= json_of_creation(self.solved_spec(), self.tries_spec(),
                self.max_tries_spec()));
        }
        out
    }
}

// ---------------------------------------------------------------------------

/// A stored challenge of the session-keyed flavour: the ground truth, the
/// attempts made so far against the allowed budget, and whether it was
/// solved.
#[derive(Debug)]
pub struct Captcha {
    pub solution: String,
    pub tries: usize,
    pub max_tries: usize,
    pub session: String,
    pub solved: bool,
}

/// The JSON form a challenge is persisted as.
pub open spec fn json_of_captcha(
    solution: Seq<char>,
    tries: nat,
    max_tries: nat,
    session: Seq<char>,
    solved: bool,
) -> Seq<char> {
    ("{\"solution\":")@ + json_string(solution) + (",\"tries\":")@ + dec_digits(tries) + (
    ",\"max_tries\":")@ + dec_digits(max_tries) + (",\"session\":")@ + json_string(session) + (
    ",\"solved\":")@ + json_bool(solved) + ("}")@
}

/// What a persisted text means as a challenge: exactly the texts
/// `json_of_captcha` produces are accepted.
pub open spec fn parse_captcha_spec(s: Seq<char>) -> Option<(Seq<char>, nat, nat, Seq<char>, bool)> {
    match p_lit(s, ("{\"solution\":")@) {
        None => None,
        Some(s1) => match p_qstring(s1) {
            None => None,
            Some(p1) => match p_lit(p1.1, (",\"tries\":")@) {
                None => None,
                Some(s2) => match p_nat(s2, usize::MAX as nat) {
                    None => None,
                    Some(p2) => match p_lit(p2.1, (",\"max_tries\":")@) {
                        None => None,
                        Some(s3) => match p_nat(s3, usize::MAX as nat) {
                            None => None,
                            Some(p3) => match p_lit(p3.1, (",\"session\":")@) {
                                None => None,
                                Some(s4) => match p_qstring(s4) {
                                    None => None,
                                    Some(p4) => match p_lit(p4.1, (",\"solved\":")@) {
                                        None => None,
                                        Some(s5) => match p_bool(s5) {
                                            None => None,
                                            Some(p5) => match p_lit(p5.1, ("}")@) {
                                                None => None,
                                                Some(s6) => if s6.len() == 0 {
                                                    Some((p1.0, p2.0, p3.0, p4.0, p5.0))
                                                } else {
                                                    None
                                                },
                                            },
                                        },
                                    },
                                },
                            },
                        },
                    },
                },
            },
        },
    }
}

impl Captcha {
    /// A challenge carrying the state of a response together with its
    /// session and ground truth.
    pub fn new(c: &CaptchaSolutionResponse, session: &String, solution: &String) -> (r: Captcha)
        ensures
            r.solution@ == solution@,
            r.tries == c.tries,
            r.max_tries == c.max_tries,
            r.session@ == session@,
            r.solved == c.solved,
    {
        Captcha {
            solution: solution.clone(),
            tries: c.tries,
            max_tries: c.max_tries,
            session: session.clone(),
            solved: c.solved,
        }
    }

    /// Reads a challenge back from its persisted JSON form.
    pub fn from_json(s: String) -> (r: Option<Captcha>)
        ensures
            r matches Some(c) ==> parse_captcha_spec(s@) == Some(
                (c.solution@, c.tries as nat, c.max_tries as nat, c.session@, c.solved),
            ),
            r is None ==> parse_captcha_spec(s@) is None,
    {
        let v = chars_of(s.as_str());
        proof {
            assert(v@.skip(0) =~= v@);
        }
        let i = match e_lit(&v, 0, "{\"solution\":") {
            Some(i) => i,
            None => {
                return None;
            },
        };
        let (solution, i) = match e_qstring(&v, i) {
            Some(p) => p,
            None => {
                return None;
            },
        };
        let i = match e_lit(&v, i, ",\"tries\":") {
            Some(i) => i,
            None => {
                return None;
            },
        };
        let (tries, i) = match e_nat_usize(&v, i) {
            Some(p) => p,
            None => {
                return None;
            },
        };
        let i = match e_lit(&v, i, ",\"max_tries\":") {
            Some(i) => i,
            None => {
                return None;
            },
        };
        let (max_tries, i) = match e_nat_usize(&v, i) {
            Some(p) => p,
            None => {
                return None;
            },
        };
        let i = match e_lit(&v, i, ",\"session\":") {
            Some(i) => i,
            None => {
                return None;
            },
        };
        let (session, i) = match e_qstring(&v, i) {
            Some(p) => p,
            None => {
                return None;
            },
        };
        let i = match e_lit(&v, i, ",\"solved\":") {
            Some(i) => i,
            None => {
                return None;
            },
        };
        let (solved, i) = match e_bool(&v, i) {
            Some(p) => p,
            None => {
                return None;
            },
        };
        let i = match e_lit(&v, i, "}") {
            Some(i) => i,
            None => {
                return None;
            },
        };
        if i != v.len() {
            return None;
        }
        proof {
            assert(v@.skip(i as int).len() == 0);
        }
        Some(Captcha { solution, tries, max_tries, session, solved })
    }
}

impl CaptchaToJson for Captcha {
    fn to_json(&self) -> (r: String)
        ensures
            r@ == json_of_captcha(self.solution@, self.tries as nat, self.max_tries as nat,
                self.session@, self.solved),
    {
        let mut out = String::new();
        out.append("{\"solution\":");
        write_json_string(&mut out, self.solution.as_str());
        out.append(",\"tries\":");
        write_usize(&mut out, self.tries);
        out.append(",\"max_tries\":");
        write_usize(&mut out, self.max_tries);
        out.append(",\"session\":");
        write_json_string(&mut out, self.session.as_str());
        out.append(",\"solved\":");
        write_bool(&mut out, self.solved);
        out.append("}");
        proof {
            assert(out@ =~= json_of_captcha(self.solution@, self.tries as nat,
                self.max_tries as nat, self.session@, self.solved));
        }
        out
    }
}

/// Reading a persisted challenge back returns its fields unchanged.
pub proof fn lemma_parse_captcha_roundtrip(
    solution: Seq<char>,
    tries: nat,
    max_tries: nat,
    session: Seq<char>,
    solved: bool,
)
    requires
        tries <= usize::MAX as nat,
        max_tries <= usize::MAX as nat,
    ensures
        parse_captcha_spec(json_of_captcha(solution, tries, max_tries, session, solved)) == Some(
            (solution, tries, max_tries, session, solved),
        ),
{
    reveal_strlit("{\"solution\":");
    reveal_strlit(",\"tries\":");
    reveal_strlit(",\"max_tries\":");
    reveal_strlit(",\"session\":");
    reveal_strlit(",\"solved\":");
    reveal_strlit("}");
    let s = json_of_captcha(solution, tries, max_tries, session, solved);
    let r6: Seq<char> = Seq::empty();
    let r5 = json_bool(solved) + (("}")@ + r6);
    let r4 = json_string(session) + ((",\"solved\":")@ + r5);
    let r3 = dec_digits(max_tries) + ((",\"session\":")@ + r4);
    let r2 = dec_digits(tries) + ((",\"max_tries\":")@ + r3);
    let r1 = json_string(solution) + ((",\"tries\":")@ + r2);
    assert(s =~= ("{\"solution\":")@ + r1);
    lemma_p_lit_prefix(("{\"solution\":")@, r1);
    lemma_p_qstring_of_json_string(solution, (",\"tries\":")@ + r2);
    lemma_p_lit_prefix((",\"tries\":")@, r2);
    assert(((",\"max_tries\":")@ + r3)[0] == ',');
    lemma_p_nat_of_dec(tries, usize::MAX as nat, (",\"max_tries\":")@ + r3);
    lemma_p_lit_prefix((",\"max_tries\":")@, r3);
    assert(((",\"session\":")@ + r4)[0] == ',');
    lemma_p_nat_of_dec(max_tries, usize::MAX as nat, (",\"session\":")@ + r4);
    lemma_p_lit_prefix((",\"session\":")@, r4);
    lemma_p_qstring_of_json_string(session, (",\"solved\":")@ + r5);
    lemma_p_lit_prefix((",\"solved\":")@, r5);
    lemma_p_bool_of_json_bool(solved, ("}")@ + r6);
    lemma_p_lit_prefix(("}")@, r6);
}

// ---------------------------------------------------------------------------

/// The bounds a solution text must meet: a length range and an alphabet.
pub struct CaptchaSolutionConstraints {
    pub minlen: usize,
    pub maxlen: usize,
    pub chars: String,
}

impl CaptchaSolutionConstraints {
    pub fn new(conf: &Config) -> (r: CaptchaSolutionConstraints)
        ensures
            r.minlen == conf.min_letters,
            r.maxlen == conf.max_letters,
            r.chars@ == conf.characters@,
    {
        CaptchaSolutionConstraints {
            minlen: conf.min_letters,
            maxlen: conf.max_letters,
            chars: conf.characters.clone(),
        }
    }
}

/// A solution text meets the constraints: its length lies in the range and
/// every character belongs to the alphabet.
pub open spec fn solution_matches(
    s: Seq<char>,
    minlen: nat,
    maxlen: nat,
    alphabet: Seq<char>,
) -> bool {
    &&& minlen <= s.len() <= maxlen
    &&& forall|i: int| 0 <= i < s.len() ==> alphabet.contains(#[trigger] s[i])
}

// ---------------------------------------------------------------------------

/// A solution text: the ground truth of a challenge, or a caller's attempt.
pub struct CaptchaSolution {
    pub solution: String,
}

/// The JSON form of a solution attempt.
pub open spec fn json_of_solution(solution: Seq<char>) -> Seq<char> {
    ("{\"solution\":")@ + json_string(solution) + ("}")@
}

/// What a wire text means as a solution attempt.
pub open spec fn parse_solution_spec(s: Seq<char>) -> Option<Seq<char>> {
    match p_lit(s, ("{\"solution\":")@) {
        None => None,
        Some(s1) => match p_qstring(s1) {
            None => None,
            Some(p1) => match p_lit(p1.1, ("}")@) {
                None => None,
                Some(s2) => if s2.len() == 0 {
                    Some(p1.0)
                } else {
                    None
                },
            },
        },
    }
}

impl CaptchaSolution {
    /// Draws a random solution: the length uniformly within the bounds, each
    /// character independently from the alphabet. `None` is returned exactly
    /// when the randomness source fails.
    pub fn new(constraints: CaptchaSolutionConstraints) -> (r: Option<CaptchaSolution>)
        requires
            constraints.minlen >= 1,
            constraints.minlen <= constraints.maxlen,
            constraints.chars@.len() > 0,
        ensures
            r matches Some(cs) ==> solution_matches(
                cs.solution@,
                constraints.minlen as nat,
                constraints.maxlen as nat,
                constraints.chars@,
            ),
    {
        let r0 = match os_random_u32() {
            Some(r0) => r0,
            None => {
                return None;
            },
        };
        let span = constraints.maxlen - constraints.minlen + 1;
        let l = (r0 as usize) % span + constraints.minlen;
        let alphabet = chars_of(constraints.chars.as_str());
        let mut s = String::new();
        let mut i: usize = 0;
        while i < l
            invariant
                l <= constraints.maxlen,
                i <= l,
                alphabet@ == constraints.chars@,
                alphabet@.len() > 0,
                s@.len() == i,
                forall|j: int| 0 <= j < s@.len() ==> constraints.chars@.contains(#[trigger] s@[j]),
            decreases l - i,
        {
            let r = match os_random_u32() {
                Some(r) => r,
                None => {
                    return None;
                },
            };
            let idx = (r as usize) % alphabet.len();
            let c = alphabet[idx];
            proof {
                assert(constraints.chars@[idx as int] == c);
            }
            s.push(c);
            i = i + 1;
        }
        Some(CaptchaSolution { solution: s })
    }

    /// Accepts this solution text exactly when it meets the constraints.
    fn validate(self, constraints: CaptchaSolutionConstraints) -> (r: Option<CaptchaSolution>)
        ensures
            r is Some <==> solution_matches(
                self.solution@,
                constraints.minlen as nat,
                constraints.maxlen as nat,
                constraints.chars@,
            ),
            r matches Some(cs) ==> cs.solution@ == self.solution@,
    {
        let v = chars_of(self.solution.as_str());
        let alphabet = chars_of(constraints.chars.as_str());
        let n = v.len();
        if n < constraints.minlen || n > constraints.maxlen {
            return None;
        }
        let mut i: usize = 0;
        while i < n
            invariant
                n == self.solution@.len(),
                v@ == self.solution@,
                alphabet@ == constraints.chars@,
                i <= n,
                forall|j: int| 0 <= j < i ==> constraints.chars@.contains(
                    #[trigger] self.solution@[j],
                ),
            decreases n - i,
        {
            if !contains_char(&alphabet, v[i]) {
                return None;
            }
            i = i + 1;
        }
        Some(self)
    }

    /// Reads a wire text as a solution attempt and accepts it exactly when
    /// it parses and meets the constraints.
    pub fn from_json(s: String, constraints: CaptchaSolutionConstraints) -> (r: Option<
        CaptchaSolution,
    >)
        ensures
            r matches Some(cs) ==> parse_solution_spec(s@) == Some(cs.solution@)
                && solution_matches(
                cs.solution@,
                constraints.minlen as nat,
                constraints.maxlen as nat,
                constraints.chars@,
            ),
            r is None ==> (parse_solution_spec(s@) is None || !solution_matches(
                parse_solution_spec(s@)->Some_0,
                constraints.minlen as nat,
                constraints.maxlen as nat,
                constraints.chars@,
            )),
    {
        let v = chars_of(s.as_str());
        proof {
            assert(v@.skip(0) =~= v@);
        }
        let i = match e_lit(&v, 0, "{\"solution\":") {
            Some(i) => i,
            None => {
                return None;
            },
        };
        let (solution, i) = match e_qstring(&v, i) {
            Some(p) => p,
            None => {
                return None;
            },
        };
        let i = match e_lit(&v, i, "}") {
            Some(i) => i,
            None => {
                return None;
            },
        };
        if i != v.len() {
            return None;
        }
        proof {
            assert(v@.skip(i as int).len() == 0);
        }
        CaptchaSolution { solution }.validate(constraints)
    }

    pub fn to_string(&self) -> (r: String)
        ensures
            r@ == self.solution@,
    {
        self.solution.clone()
    }
}

impl CaptchaToJson for CaptchaSolution {
    fn to_json(&self) -> (r: String)
        ensures
            r@ == json_of_solution(self.solution@),
    {
        let mut out = String::new();
        out.append("{\"solution\":");
        write_json_string(&mut out, self.solution.as_str());
        out.append("}");
        proof {
            assert(out@ =~= json_of_solution(self.solution@));
        }
        out
    }
}

/// Reading a written solution attempt back returns its text unchanged.
pub proof fn lemma_parse_solution_roundtrip(solution: Seq<char>)
    ensures
        parse_solution_spec(json_of_solution(solution)) == Some(solution),
{
    reveal_strlit("{\"solution\":");
    reveal_strlit("}");
    let r2: Seq<char> = Seq::empty();
    let r1 = json_string(solution) + (("}")@ + r2);
    assert(json_of_solution(solution) =~= ("{\"solution\":")@ + r1);
    lemma_p_lit_prefix(("{\"solution\":")@, r1);
    lemma_p_qstring_of_json_string(solution, ("}")@ + r2);
    lemma_p_lit_prefix(("}")@, r2);
}

} // verus!
