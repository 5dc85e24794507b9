//! Building and reading the JSON texts that records are stored and sent as.
//!
//! Strings are written between double quotes with `"`, `\`, newline, carriage
//! return and tab escaped; numbers are written in decimal. The readers accept
//! exactly the texts the writers produce.
use vstd::prelude::*;

use crate::strutil::{digit_char, digit_char_exec, digit_val, digit_val_exec, is_digit_char,
    is_digit_char_exec};

verus! {

// ---------------------------------------------------------------------------
// Writing: specification
// ---------------------------------------------------------------------------

/// How one character appears inside a quoted JSON string.
pub open spec fn esc_char(c: char) -> Seq<char> {
    if c == '"' {
        seq!['\\', '"']
    } else if c == '\\' {
        seq!['\\', '\\']
    } else if c == '\n' {
        seq!['\\', 'n']
    } else if c == '\r' {
        seq!['\\', 'r']
    } else if c == '\t' {
        seq!['\\', 't']
    } else {
        seq![c]
    }
}

/// The body of a quoted JSON string.
pub open spec fn json_escape(s: Seq<char>) -> Seq<char>
    decreases s.len(),
{
    if s.len() == 0 {
        Seq::empty()
    } else {
        esc_char(s[0]) + json_escape(s.drop_first())
    }
}

/// A quoted JSON string.
pub open spec fn json_string(s: Seq<char>) -> Seq<char> {
    seq!['"'] + json_escape(s) + seq!['"']
}

/// The decimal digits of a non-negative number, most significant first.
pub open spec fn dec_digits(n: nat) -> Seq<char>
    decreases n,
{
    if n < 10 {
        seq![digit_char(n as int)]
    } else {
        dec_digits(n / 10) + seq![digit_char((n % 10) as int)]
    }
}

/// A decimal integer, with a leading minus sign when negative.
pub open spec fn dec_int(n: int) -> Seq<char> {
    if n < 0 {
        seq!['-'] + dec_digits((-n) as nat)
    } else {
        dec_digits(n as nat)
    }
}

/// A JSON boolean.
pub open spec fn json_bool(b: bool) -> Seq<char> {
    if b {
        seq!['t', 'r', 'u', 'e']
    } else {
        seq!['f', 'a', 'l', 's', 'e']
    }
}

pub proof fn lemma_json_escape_push(s: Seq<char>, c: char)
    ensures
        json_escape(s.push(c)) == json_escape(s) + esc_char(c),
    decreases s.len(),
{
    if s.len() == 0 {
        assert(s.push(c)[0] == c);
        assert(s.push(c).drop_first() =~= s);
        assert(json_escape(s.push(c)) =~= esc_char(c) + json_escape(s));
        assert(json_escape(s.push(c)) =~= json_escape(s) + esc_char(c));
    } else {
        assert(s.push(c)[0] == s[0]);
        assert(s.push(c).drop_first() =~= s.drop_first().push(c));
        lemma_json_escape_push(s.drop_first(), c);
        assert(json_escape(s.push(c)) =~= json_escape(s) + esc_char(c));
    }
}

// ---------------------------------------------------------------------------
// Writing: executable
// ---------------------------------------------------------------------------

/// Appends the escaped body of `s` to `out`.
pub fn write_escaped(out: &mut String, s: &str)
    ensures
        final(out)@ == old(out)@ + json_escape(s@),
{
    let n = s.unicode_len();
    let mut i: usize = 0;
    while i < n
        invariant
            n == s@.len(),
            i <= n,
            out@ == old(out)@ + json_escape(s@.subrange(0, i as int)),
        decreases n - i,
    {
        let c = s.get_char(i);
        if c == '"' {
            out.push('\\');
            out.push('"');
        } else if c == '\\' {
            out.push('\\');
            out.push('\\');
        } else if c == '\n' {
            out.push('\\');
            out.push('n');
        } else if c == '\r' {
            out.push('\\');
            out.push('r');
        } else if c == '\t' {
            out.push('\\');
            out.push('t');
        } else {
            out.push(c);
        }
        proof {
            lemma_json_escape_push(s@.subrange(0, i as int), c);
            assert(s@.subrange(0, i + 1) =~= s@.subrange(0, i as int).push(c));
            assert(out@ =~= old(out)@ + json_escape(s@.subrange(0, i + 1)));
        }
        i = i + 1;
    }
    proof {
        assert(s@.subrange(0, n as int) =~= s@);
    }
}

/// Appends `s` as a quoted JSON string to `out`.
pub fn write_json_string(out: &mut String, s: &str)
    ensures
        final(out)@ == old(out)@ + json_string(s@),
{
    out.push('"');
    write_escaped(out, s);
    out.push('"');
    proof {
        assert(out@ =~= old(out)@ + json_string(s@));
    }
}

/// Appends the decimal digits of `n` to `out`.
pub fn write_u64(out: &mut String, n: u64)
    ensures
        final(out)@ == old(out)@ + dec_digits(n as nat),
    decreases n,
{
    if n < 10 {
        out.push(digit_char_exec(n as usize));
        proof {
            assert(out@ =~= old(out)@ + dec_digits(n as nat));
        }
    } else {
        write_u64(out, n / 10);
        out.push(digit_char_exec((n % 10) as usize));
        proof {
            assert(out@ =~= old(out)@ + dec_digits(n as nat));
        }
    }
}

/// Appends the decimal form of `n`, signed, to `out`.
pub fn write_i64(out: &mut String, n: i64)
    ensures
        final(out)@ == old(out)@ + dec_int(n as int),
{
    if n < 0 {
        out.push('-');
        let m: u64 = (-(n as i128)) as u64;
        write_u64(out, m);
        proof {
            assert(out@ =~= old(out)@ + dec_int(n as int));
        }
    } else {
        write_u64(out, n as u64);
    }
}

/// Appends the decimal digits of `n` to `out`.
pub fn write_usize(out: &mut String, n: usize)
    ensures
        final(out)@ == old(out)@ + dec_digits(n as nat),
{
    write_u64(out, n as u64);
}

/// Appends a JSON boolean to `out`.
pub fn write_bool(out: &mut String, b: bool)
    ensures
        final(out)@ == old(out)@ + json_bool(b),
{
    if b {
        out.push('t');
        out.push('r');
        out.push('u');
        out.push('e');
    } else {
        out.push('f');
        out.push('a');
        out.push('l');
        out.push('s');
        out.push('e');
    }
    proof {
        assert(out@ =~= old(out)@ + json_bool(b));
    }
}

// ---------------------------------------------------------------------------
// Reading: specification
// ---------------------------------------------------------------------------

/// Consumes an expected literal from the front of `s`.
pub open spec fn p_lit(s: Seq<char>, lit: Seq<char>) -> Option<Seq<char>> {
    if lit.len() <= s.len() && s.subrange(0, lit.len() as int) == lit {
        Some(s.skip(lit.len() as int))
    } else {
        None
    }
}

/// The character denoted by a backslash escape.
pub open spec fn unescape_char(e: char) -> Option<char> {
    if e == '"' {
        Some('"')
    } else if e == '\\' {
        Some('\\')
    } else if e == 'n' {
        Some('\n')
    } else if e == 'r' {
        Some('\r')
    } else if e == 't' {
        Some('\t')
    } else {
        None
    }
}

/// Consumes string content up to and including a closing quote, returning the
/// unescaped content and what follows the quote.
pub open spec fn p_string(s: Seq<char>) -> Option<(Seq<char>, Seq<char>)>
    decreases s.len(),
{
    if s.len() == 0 {
        None
    } else if s[0] == '"' {
        Some((Seq::empty(), s.drop_first()))
    } else if s[0] == '\\' {
        if s.len() < 2 {
            None
        } else {
            match unescape_char(s[1]) {
                Some(c) => match p_string(s.skip(2)) {
                    Some(p) => Some((seq![c] + p.0, p.1)),
                    None => None,
                },
                None => None,
            }
        }
    } else {
        match p_string(s.drop_first()) {
            Some(p) => Some((seq![s[0]] + p.0, p.1)),
            None => None,
        }
    }
}

/// Consumes a whole quoted string, opening quote included.
pub open spec fn p_qstring(s: Seq<char>) -> Option<(Seq<char>, Seq<char>)> {
    if s.len() > 0 && s[0] == '"' {
        p_string(s.drop_first())
    } else {
        None
    }
}

/// Consumes a run of decimal digits, folding them onto `acc`.
pub open spec fn p_digits(s: Seq<char>, acc: nat) -> (nat, Seq<char>)
    decreases s.len(),
{
    if s.len() > 0 && is_digit_char(s[0]) {
        p_digits(s.drop_first(), acc * 10 + digit_val(s[0]) as nat)
    } else {
        (acc, s)
    }
}

/// Consumes a non-empty digit run whose value is at most `bound`.
pub open spec fn p_nat(s: Seq<char>, bound: nat) -> Option<(nat, Seq<char>)> {
    if s.len() > 0 && is_digit_char(s[0]) {
        let (v, rest) = p_digits(s, 0);
        if v <= bound {
            Some((v, rest))
        } else {
            None
        }
    } else {
        None
    }
}

/// Consumes a decimal integer in the range of `i64`.
pub open spec fn p_i64(s: Seq<char>) -> Option<(int, Seq<char>)> {
    if s.len() > 0 && s[0] == '-' {
        match p_nat(s.drop_first(), 0x8000_0000_0000_0000nat) {
            Some(p) => Some((-(p.0 as int), p.1)),
            None => None,
        }
    } else {
        match p_nat(s, 0x7fff_ffff_ffff_ffffnat) {
            Some(p) => Some((p.0 as int, p.1)),
            None => None,
        }
    }
}

/// Consumes a JSON boolean.
pub open spec fn p_bool(s: Seq<char>) -> Option<(bool, Seq<char>)> {
    if p_lit(s, json_bool(true)) is Some {
        Some((true, p_lit(s, json_bool(true))->Some_0))
    } else if p_lit(s, json_bool(false)) is Some {
        Some((false, p_lit(s, json_bool(false))->Some_0))
    } else {
        None
    }
}

// ---------------------------------------------------------------------------
// Reading: executable
// ---------------------------------------------------------------------------

/// Consumes `lit` at position `i` of `v`.
pub fn e_lit(v: &Vec<char>, i: usize, lit: &str) -> (r: Option<usize>)
    requires
        i <= v@.len(),
    ensures
        r matches Some(j) ==> i <= j <= v@.len() && p_lit(v@.skip(i as int), lit@) == Some(
            v@.skip(j as int),
        ),
        r is None ==> p_lit(v@.skip(i as int), lit@) is None,
{
    let n = lit.unicode_len();
    let vn = v.len();
    if n > vn - i {
        return None;
    }
    let mut k: usize = 0;
    while k < n
        invariant
            vn == v@.len(),
            i + n <= vn,
            n == lit@.len(),
            k <= n,
            forall|m: int| 0 <= m < k ==> v@[i + m] == lit@[m],
        decreases n - k,
    {
        if v[i + k] != lit.get_char(k) {
            proof {
                assert(v@.skip(i as int).subrange(0, n as int)[k as int] != lit@[k as int]);
            }
            return None;
        }
        k = k + 1;
    }
    proof {
        assert(v@.skip(i as int).subrange(0, n as int) =~= lit@);
        assert(v@.skip(i as int).skip(n as int) =~= v@.skip(i + n));
    }
    Some(i + n)
}

/// Consumes a quoted string at position `i` of `v`, returning its unescaped
/// content.
pub fn e_qstring(v: &Vec<char>, i: usize) -> (r: Option<(String, usize)>)
    requires
        i <= v@.len(),
    ensures
        r matches Some(p) ==> i < p.1 <= v@.len() && p_qstring(v@.skip(i as int)) == Some(
            (p.0@, v@.skip(p.1 as int)),
        ),
        r is None ==> p_qstring(v@.skip(i as int)) is None,
{
    if i >= v.len() || v[i] != '"' {
        proof {
            if i < v@.len() {
                assert(v@.skip(i as int)[0] == v@[i as int]);
            }
        }
        return None;
    }
    proof {
        assert(v@.skip(i as int)[0] == v@[i as int]);
        assert(v@.skip(i as int).drop_first() =~= v@.skip(i + 1));
        let ps0 = p_string(v@.skip(i + 1));
        if ps0 is Some {
            assert(Seq::<char>::empty() + ps0->Some_0.0 =~= ps0->Some_0.0);
        }
    }
    let mut out = String::new();
    let mut k: usize = i + 1;
    loop
        invariant
            i < k <= v@.len(),
            v@[i as int] == '"',
            v@.skip(i as int)[0] == '"',
            v@.skip(i as int).drop_first() == v@.skip(i + 1),
            p_string(v@.skip(i + 1)) == (match p_string(v@.skip(k as int)) {
                Some(p) => Some((out@ + p.0, p.1)),
                None => None,
            }),
        decreases v@.len() - k,
    {
        if k >= v.len() {
            proof {
                assert(v@.skip(k as int).len() == 0);
            }
            return None;
        }
        let c = v[k];
        proof {
            assert(v@.skip(k as int)[0] == v@[k as int]);
        }
        if c == '"' {
            proof {
                assert(v@.skip(k as int).drop_first() =~= v@.skip(k + 1));
                assert(out@ + Seq::<char>::empty() =~= out@);
                assert(p_string(v@.skip(i + 1)) == Some((out@, v@.skip(k + 1))));
            }
            return Some((out, k + 1));
        } else if c == '\\' {
            if k + 1 >= v.len() {
                proof {
                    assert(v@.skip(k as int).len() < 2);
                }
                return None;
            }
            let e = v[k + 1];
            proof {
                assert(v@.skip(k as int)[1] == v@[k + 1]);
            }
            let u = if e == '"' {
                '"'
            } else if e == '\\' {
                '\\'
            } else if e == 'n' {
                '\n'
            } else if e == 'r' {
                '\r'
            } else if e == 't' {
                '\t'
            } else {
                proof {
                    assert(unescape_char(v@.skip(k as int)[1]) is None);
                }
                return None;
            };
            let ghost out0 = out@;
            proof {
                assert(unescape_char(v@.skip(k as int)[1]) == Some(u));
                assert(v@.skip(k as int).skip(2) =~= v@.skip(k + 2));
            }
            out.push(u);
            proof {
                let ps = p_string(v@.skip(k + 2));
                if ps is Some {
                    assert(out@ + ps->Some_0.0 =~= out0 + (seq![u] + ps->Some_0.0));
                }
            }
            k = k + 2;
        } else {
            let ghost out0 = out@;
            proof {
                assert(v@.skip(k as int).drop_first() =~= v@.skip(k + 1));
            }
            out.push(c);
            proof {
                let ps = p_string(v@.skip(k + 1));
                if ps is Some {
                    assert(out@ + ps->Some_0.0 =~= out0 + (seq![c] + ps->Some_0.0));
                }
            }
            k = k + 1;
        }
    }
}

/// The folded value of a digit run never falls below its accumulator.
pub proof fn lemma_p_digits_ge(s: Seq<char>, acc: nat)
    ensures
        p_digits(s, acc).0 >= acc,
    decreases s.len(),
{
    if s.len() > 0 && is_digit_char(s[0]) {
        let acc2 = acc * 10 + digit_val(s[0]) as nat;
        assert(acc2 >= acc);
        lemma_p_digits_ge(s.drop_first(), acc2);
    }
}

/// Consumes a digit run at position `i` of `v`, rejecting values above
/// `bound`.
pub fn e_nat_u64(v: &Vec<char>, i: usize, bound: u64) -> (r: Option<(u64, usize)>)
    requires
        i <= v@.len(),
    ensures
        r matches Some(p) ==> i < p.1 <= v@.len() && p_nat(v@.skip(i as int), bound as nat)
            == Some((p.0 as nat, v@.skip(p.1 as int))),
        r is None ==> p_nat(v@.skip(i as int), bound as nat) is None,
{
    let vn = v.len();
    if i >= vn {
        return None;
    }
    let c0 = v[i];
    proof {
        assert(v@.skip(i as int)[0] == v@[i as int]);
    }
    if !is_digit_char_exec(c0) {
        return None;
    }
    let mut acc: u64 = 0;
    let mut k: usize = i;
    loop
        invariant
            i <= k <= vn,
            vn == v@.len(),
            acc <= bound,
            v@.skip(i as int).len() > 0,
            is_digit_char(v@.skip(i as int)[0]),
            p_digits(v@.skip(i as int), 0) == p_digits(v@.skip(k as int), acc as nat),
        ensures
            i < k <= vn,
            acc <= bound,
            p_digits(v@.skip(i as int), 0) == (acc as nat, v@.skip(k as int)),
        decreases vn - k,
    {
        if k >= vn {
            proof {
                assert(v@.skip(k as int).len() == 0);
            }
            break;
        }
        let c = v[k];
        proof {
            assert(v@.skip(k as int)[0] == v@[k as int]);
        }
        if !is_digit_char_exec(c) {
            break;
        }
        let d = digit_val_exec(c) as u64;
        let ghost acc2spec = (acc * 10 + digit_val(v@.skip(k as int)[0])) as nat;
        proof {
            assert(v@.skip(k as int).drop_first() =~= v@.skip(k + 1));
            lemma_p_digits_ge(v@.skip(k + 1), acc2spec);
        }
        let acc10 = match acc.checked_mul(10) {
            Some(x) => x,
            None => {
                return None;
            },
        };
        let acc2 = match acc10.checked_add(d) {
            Some(x) => x,
            None => {
                return None;
            },
        };
        if acc2 > bound {
            return None;
        }
        acc = acc2;
        k = k + 1;
    }
    Some((acc, k))
}

/// Consumes a digit run at position `i` of `v` as a `usize`.
pub fn e_nat_usize(v: &Vec<char>, i: usize) -> (r: Option<(usize, usize)>)
    requires
        i <= v@.len(),
    ensures
        r matches Some(p) ==> i < p.1 <= v@.len() && p_nat(v@.skip(i as int), usize::MAX as nat)
            == Some((p.0 as nat, v@.skip(p.1 as int))),
        r is None ==> p_nat(v@.skip(i as int), usize::MAX as nat) is None,
{
    match e_nat_u64(v, i, usize::MAX as u64) {
        Some(p) => Some((p.0 as usize, p.1)),
        None => None,
    }
}

/// Consumes a decimal integer at position `i` of `v` as an `i64`.
pub fn e_i64(v: &Vec<char>, i: usize) -> (r: Option<(i64, usize)>)
    requires
        i <= v@.len(),
    ensures
        r matches Some(p) ==> i < p.1 <= v@.len() && p_i64(v@.skip(i as int)) == Some(
            (p.0 as int, v@.skip(p.1 as int)),
        ),
        r is None ==> p_i64(v@.skip(i as int)) is None,
{
    if i < v.len() && v[i] == '-' {
        proof {
            assert(v@.skip(i as int)[0] == v@[i as int]);
            assert(v@.skip(i as int).drop_first() =~= v@.skip(i + 1));
        }
        match e_nat_u64(v, i + 1, 0x8000_0000_0000_0000u64) {
            Some(p) => {
                let r: i64 = if p.0 == 0x8000_0000_0000_0000u64 {
                    i64::MIN
                } else {
                    -(p.0 as i64)
                };
                Some((r, p.1))
            },
            None => None,
        }
    } else {
        proof {
            if i < v@.len() {
                assert(v@.skip(i as int)[0] == v@[i as int]);
            }
        }
        match e_nat_u64(v, i, 0x7fff_ffff_ffff_ffffu64) {
            Some(p) => Some((p.0 as i64, p.1)),
            None => None,
        }
    }
}

/// Consumes a JSON boolean at position `i` of `v`.
pub fn e_bool(v: &Vec<char>, i: usize) -> (r: Option<(bool, usize)>)
    requires
        i <= v@.len(),
    ensures
        r matches Some(p) ==> i <= p.1 <= v@.len() && p_bool(v@.skip(i as int)) == Some(
            (p.0, v@.skip(p.1 as int)),
        ),
        r is None ==> p_bool(v@.skip(i as int)) is None,
{
    proof {
        reveal_strlit("true");
        reveal_strlit("false");
        assert("true"@ =~= json_bool(true));
        assert("false"@ =~= json_bool(false));
    }
    match e_lit(v, i, "true") {
        Some(j) => Some((true, j)),
        None => match e_lit(v, i, "false") {
            Some(j) => Some((false, j)),
            None => None,
        },
    }
}

// ---------------------------------------------------------------------------
// The readers accept what the writers produce.
// ---------------------------------------------------------------------------

pub proof fn lemma_p_lit_prefix(lit: Seq<char>, rest: Seq<char>)
    ensures
        p_lit(lit + rest, lit) == Some(rest),
{
    assert((lit + rest).subrange(0, lit.len() as int) =~= lit);
    assert((lit + rest).skip(lit.len() as int) =~= rest);
}

pub proof fn lemma_p_string_of_escape(x: Seq<char>, rest: Seq<char>)
    ensures
        p_string(json_escape(x) + seq!['"'] + rest) == Some((x, rest)),
    decreases x.len(),
{
    let s = json_escape(x) + seq!['"'] + rest;
    if x.len() == 0 {
        assert(s[0] == '"');
        assert(s.drop_first() =~= rest);
        assert(x =~= Seq::<char>::empty());
    } else {
        let c = x[0];
        let x2 = x.drop_first();
        lemma_p_string_of_escape(x2, rest);
        let s2 = json_escape(x2) + seq!['"'] + rest;
        assert(json_escape(x) == esc_char(c) + json_escape(x2));
        if c == '"' || c == '\\' || c == '\n' || c == '\r' || c == '\t' {
            assert(s[0] == '\\');
            assert(s.len() >= 2);
            assert(s[1] == esc_char(c)[1]);
            assert(unescape_char(s[1]) == Some(c));
            assert(s.skip(2) =~= s2);
            assert(seq![c] + x2 =~= x);
        } else {
            assert(s[0] == c);
            assert(c != '"' && c != '\\');
            assert(s.drop_first() =~= s2);
            assert(seq![c] + x2 =~= x);
        }
    }
}

pub proof fn lemma_p_qstring_of_json_string(x: Seq<char>, rest: Seq<char>)
    ensures
        p_qstring(json_string(x) + rest) == Some((x, rest)),
{
    let s = json_string(x) + rest;
    assert(s[0] == '"');
    assert(s.drop_first() =~= json_escape(x) + seq!['"'] + rest);
    lemma_p_string_of_escape(x, rest);
}

/// Ten to the power `k`.
pub open spec fn pow10(k: nat) -> nat
    decreases k,
{
    if k == 0 {
        1nat
    } else {
        10 * pow10((k - 1) as nat)
    }
}

pub proof fn lemma_dec_digits_first(n: nat)
    ensures
        dec_digits(n).len() >= 1,
        is_digit_char(dec_digits(n)[0]),
    decreases n,
{
    if n < 10 {
        crate::strutil::lemma_digit_char_val(n as int);
    } else {
        lemma_dec_digits_first(n / 10);
        assert(dec_digits(n)[0] == dec_digits(n / 10)[0]);
    }
}

pub proof fn lemma_p_digits_of_dec(n: nat, acc: nat, rest: Seq<char>)
    ensures
        p_digits(dec_digits(n) + rest, acc) == p_digits(
            rest,
            acc * pow10(dec_digits(n).len() as nat) + n,
        ),
    decreases n,
{
    if n < 10 {
        crate::strutil::lemma_digit_char_val(n as int);
        let s = dec_digits(n) + rest;
        assert(s[0] == digit_char(n as int));
        assert(s.drop_first() =~= rest);
        assert(pow10(0nat) == 1);
        assert(pow10(1) == 10);
        assert(p_digits(s, acc) == p_digits(rest, acc * 10 + n));
    } else {
        let q = n / 10;
        let r = n % 10;
        crate::strutil::lemma_digit_char_val(r as int);
        let dq = dec_digits(q);
        let dr = seq![digit_char(r as int)];
        assert(dec_digits(n) == dq + dr);
        assert(dec_digits(n) + rest =~= dq + (dr + rest));
        lemma_p_digits_of_dec(q, acc, dr + rest);
        let pq = pow10(dq.len() as nat);
        let a2 = acc * pq + q;
        assert(p_digits(dec_digits(n) + rest, acc) == p_digits(dr + rest, a2));
        assert((dr + rest)[0] == digit_char(r as int));
        assert((dr + rest).drop_first() =~= rest);
        assert(p_digits(dr + rest, a2) == p_digits(rest, a2 * 10 + r));
        assert(dec_digits(n).len() == dq.len() + 1);
        assert(pow10(dec_digits(n).len() as nat) == 10 * pq);
        assert(a2 * 10 + r == acc * (10 * pq) + n) by (nonlinear_arith)
            requires
                a2 == acc * pq + q,
                q == n / 10,
                r == n % 10,
                n >= 10,
        ;
    }
}

pub proof fn lemma_p_nat_of_dec(n: nat, bound: nat, rest: Seq<char>)
    requires
        n <= bound,
        rest.len() == 0 || !is_digit_char(rest[0]),
    ensures
        p_nat(dec_digits(n) + rest, bound) == Some((n, rest)),
{
    let s = dec_digits(n) + rest;
    lemma_dec_digits_first(n);
    assert(s[0] == dec_digits(n)[0]);
    lemma_p_digits_of_dec(n, 0, rest);
    assert(0 * pow10(dec_digits(n).len() as nat) + n == n);
    if rest.len() == 0 {
        assert(p_digits(rest, n) == (n, rest));
    } else {
        assert(p_digits(rest, n) == (n, rest));
    }
}

pub proof fn lemma_p_i64_of_dec(n: int, rest: Seq<char>)
    requires
        i64::MIN <= n <= i64::MAX,
        rest.len() == 0 || !is_digit_char(rest[0]),
    ensures
        p_i64(dec_int(n) + rest) == Some((n, rest)),
{
    if n < 0 {
        let m = (-n) as nat;
        let s = dec_int(n) + rest;
        assert(s[0] == '-');
        assert(s.drop_first() =~= dec_digits(m) + rest);
        lemma_p_nat_of_dec(m, 0x8000_0000_0000_0000nat, rest);
    } else {
        let s = dec_int(n) + rest;
        assert(dec_int(n) == dec_digits(n as nat));
        lemma_dec_digits_first(n as nat);
        assert(s[0] == dec_digits(n as nat)[0]);
        assert(s[0] != '-');
        lemma_p_nat_of_dec(n as nat, 0x7fff_ffff_ffff_ffffnat, rest);
    }
}

pub proof fn lemma_pow10_pos(k: nat)
    ensures
        pow10(k) >= 1,
    decreases k,
{
    if k > 0 {
        lemma_pow10_pos((k - 1) as nat);
    }
}

pub proof fn lemma_pow10_le(a: nat, b: nat)
    requires
        a <= b,
    ensures
        pow10(a) <= pow10(b),
    decreases b,
{
    if a < b {
        lemma_pow10_le(a, (b - 1) as nat);
        lemma_pow10_pos((b - 1) as nat);
    }
}

/// A digit run of a given length folds to a bounded value.
pub proof fn lemma_p_digits_upper(s: Seq<char>, acc: nat)
    ensures
        p_digits(s, acc).0 < (acc + 1) * pow10(s.len() as nat),
    decreases s.len(),
{
    if s.len() > 0 && is_digit_char(s[0]) {
        let d = digit_val(s[0]) as nat;
        let acc2 = acc * 10 + d;
        lemma_p_digits_upper(s.drop_first(), acc2);
        let p1 = pow10((s.len() - 1) as nat);
        assert(pow10(s.len() as nat) == 10 * p1);
        assert(d <= 9);
        assert((acc2 + 1) * p1 <= (acc + 1) * (10 * p1)) by (nonlinear_arith)
            requires
                acc2 + 1 <= (acc + 1) * 10,
                p1 >= 0,
        ;
    } else {
        lemma_pow10_pos(s.len() as nat);
        assert(acc < (acc + 1) * pow10(s.len() as nat)) by (nonlinear_arith)
            requires
                pow10(s.len() as nat) >= 1,
        ;
    }
}

pub proof fn lemma_p_bool_of_json_bool(b: bool, rest: Seq<char>)
    ensures
        p_bool(json_bool(b) + rest) == Some((b, rest)),
{
    let s = json_bool(b) + rest;
    if b {
        lemma_p_lit_prefix(json_bool(true), rest);
    } else {
        lemma_p_lit_prefix(json_bool(false), rest);
        assert(s[0] == 'f');
        if p_lit(s, json_bool(true)) is Some {
            assert(s.subrange(0, 4)[0] == 'f');
            assert(false);
        }
    }
}

} // verus!
