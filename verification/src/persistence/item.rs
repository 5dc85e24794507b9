//! The persisted challenge record and its JSON form.
use vstd::prelude::*;

use crate::json::{dec_digits, dec_int, e_i64, e_lit, e_nat_usize, e_qstring, json_string,
    lemma_p_i64_of_dec, lemma_p_lit_prefix, lemma_p_nat_of_dec, lemma_p_qstring_of_json_string,
    p_i64, p_lit, p_nat, p_qstring, write_i64, write_json_string, write_usize};
use crate::strutil::chars_of;

verus! {

/// The mathematical content of a challenge record.
pub struct ItemV {
    pub uuid: Seq<char>,
    pub solution: Seq<char>,
    pub tries_left: nat,
    pub expires: int,
}

/// A stored challenge: its key, its ground-truth solution, the verification
/// attempts still permitted, and the moment (unix seconds) it expires.
#[derive(Debug, PartialEq, Clone)]
pub struct Item {
    uuid: String,
    solution: String,
    tries_left: usize,
    expires: i64,
}

impl View for Item {
    type V = ItemV;

    closed spec fn view(&self) -> ItemV {
        ItemV {
            uuid: self.uuid@,
            solution: self.solution@,
            tries_left: self.tries_left as nat,
            expires: self.expires as int,
        }
    }
}

impl Item {
    /// The validating factory: a record always carries all four fields.
    pub fn new(uuid: String, solution: String, tries_left: usize, expires: i64) -> (r: Item)
        ensures
            r@ == (ItemV {
                uuid: uuid@,
                solution: solution@,
                tries_left: tries_left as nat,
                expires: expires as int,
            }),
    {
        Item { uuid, solution, tries_left, expires }
    }

    /// A record that expires `ttl` seconds after `now`.
    pub fn with_ttl(uuid: String, solution: String, tries_left: usize, ttl: i64, now: i64) -> (r:
        Item)
        requires
            i64::MIN <= now + ttl <= i64::MAX,
        ensures
            r@ == (ItemV {
                uuid: uuid@,
                solution: solution@,
                tries_left: tries_left as nat,
                expires: now + ttl,
            }),
    {
        Item { uuid, solution, tries_left, expires: now + ttl }
    }

    pub fn uuid(&self) -> (r: String)
        ensures
            r@ == self@.uuid,
    {
        self.uuid.clone()
    }

    pub fn solution(&self) -> (r: String)
        ensures
            r@ == self@.solution,
    {
        self.solution.clone()
    }

    pub fn tries_left(&self) -> (r: usize)
        ensures
            r as nat == self@.tries_left,
    {
        self.tries_left
    }

    pub fn expires(&self) -> (r: i64)
        ensures
            r as int == self@.expires,
    {
        self.expires
    }

    /// The same record with one attempt fewer; the count never goes below
    /// zero.
    pub fn dec_tries_left(&self) -> (r: Item)
        ensures
            r@.uuid == self@.uuid,
            r@.solution == self@.solution,
            r@.expires == self@.expires,
            r@.tries_left == if self@.tries_left > 0 {
                (self@.tries_left - 1) as nat
            } else {
                0nat
            },
    {
        let t = if self.tries_left > 0 {
            self.tries_left - 1
        } else {
            0
        };
        Item {
            uuid: self.uuid.clone(),
            solution: self.solution.clone(),
            tries_left: t,
            expires: self.expires,
        }
    }

    /// The record's stored JSON form.
    pub fn to_json(&self) -> (r: String)
        ensures
            r@ == json_of_item(self@),
    {
        let mut out = String::new();
        out.append("{\"uuid\":");
        write_json_string(&mut out, self.uuid.as_str());
        out.append(",\"solution\":");
        write_json_string(&mut out, self.solution.as_str());
        out.append(",\"tries_left\":");
        write_usize(&mut out, self.tries_left);
        out.append(",\"expires\":");
        write_i64(&mut out, self.expires);
        out.append("}");
        proof {
            assert(out@ =~= json_of_item(self@));
        }
        out
    }
}

/// The JSON object a record is stored as.
pub open spec fn json_of_item(it: ItemV) -> Seq<char> {
    ("{\"uuid\":")@ + json_string(it.uuid) + (",\"solution\":")@ + json_string(it.solution) + (
    ",\"tries_left\":")@ + dec_digits(it.tries_left) + (",\"expires\":")@ + dec_int(it.expires) + (
    "}")@
}

/// What a stored text means as a record: exactly the texts `json_of_item`
/// produces are accepted.
pub open spec fn parse_item_spec(s: Seq<char>) -> Option<ItemV> {
    match p_lit(s, ("{\"uuid\":")@) {
        None => None,
        Some(s1) => match p_qstring(s1) {
            None => None,
            Some(p1) => match p_lit(p1.1, (",\"solution\":")@) {
                None => None,
                Some(s2) => match p_qstring(s2) {
                    None => None,
                    Some(p2) => match p_lit(p2.1, (",\"tries_left\":")@) {
                        None => None,
                        Some(s3) => match p_nat(s3, usize::MAX as nat) {
                            None => None,
                            Some(p3) => match p_lit(p3.1, (",\"expires\":")@) {
                                None => None,
                                Some(s4) => match p_i64(s4) {
                                    None => None,
                                    Some(p4) => match p_lit(p4.1, ("}")@) {
                                        None => None,
                                        Some(s5) => if s5.len() == 0 {
                                            Some(
                                                ItemV {
                                                    uuid: p1.0,
                                                    solution: p2.0,
                                                    tries_left: p3.0,
                                                    expires: p4.0,
                                                },
                                            )
                                        } else {
                                            None
                                        },
                                    },
                                },
                            },
                        },
                    },
                },
            },
        },
    }
}

/// Reads a record back from its stored JSON form.
pub fn parse_item(s: &str) -> (r: Option<Item>)
    ensures
        r matches Some(it) ==> parse_item_spec(s@) == Some(it@),
        r is None ==> parse_item_spec(s@) is None,
{
    let v = chars_of(s);
    proof {
        assert(v@.skip(0) =~= v@);
    }
    let i = match e_lit(&v, 0, "{\"uuid\":") {
        Some(i) => i,
        None => {
            return None;
        },
    };
    let (uuid, i) = match e_qstring(&v, i) {
        Some(p) => p,
        None => {
            return None;
        },
    };
    let i = match e_lit(&v, i, ",\"solution\":") {
        Some(i) => i,
        None => {
            return None;
        },
    };
    let (solution, i) = match e_qstring(&v, i) {
        Some(p) => p,
        None => {
            return None;
        },
    };
    let i = match e_lit(&v, i, ",\"tries_left\":") {
        Some(i) => i,
        None => {
            return None;
        },
    };
    let (tries_left, i) = match e_nat_usize(&v, i) {
        Some(p) => p,
        None => {
            return None;
        },
    };
    let i = match e_lit(&v, i, ",\"expires\":") {
        Some(i) => i,
        None => {
            return None;
        },
    };
    let (expires, i) = match e_i64(&v, i) {
        Some(p) => p,
        None => {
            return None;
        },
    };
    let i = match e_lit(&v, i, "}") {
        Some(i) => i,
        None => {
            return None;
        },
    };
    if i != v.len() {
        return None;
    }
    proof {
        assert(v@.skip(i as int).len() == 0);
    }
    Some(Item { uuid, solution, tries_left, expires })
}

/// Reading back what was written returns the record unchanged.
pub proof fn lemma_parse_item_roundtrip(it: ItemV)
    requires
        it.tries_left <= usize::MAX as nat,
        i64::MIN <= it.expires <= i64::MAX,
    ensures
        parse_item_spec(json_of_item(it)) == Some(it),
{
    reveal_strlit("{\"uuid\":");
    reveal_strlit(",\"solution\":");
    reveal_strlit(",\"tries_left\":");
    reveal_strlit(",\"expires\":");
    reveal_strlit("}");
    let s = json_of_item(it);
    let r5: Seq<char> = Seq::empty();
    let r4 = dec_int(it.expires) + (("}")@ + r5);
    let r3 = dec_digits(it.tries_left) + ((",\"expires\":")@ + r4);
    let r2 = json_string(it.solution) + ((",\"tries_left\":")@ + r3);
    let r1 = json_string(it.uuid) + ((",\"solution\":")@ + r2);
    assert(s =~= ("{\"uuid\":")@ + r1);
    lemma_p_lit_prefix(("{\"uuid\":")@, r1);
    lemma_p_qstring_of_json_string(it.uuid, (",\"solution\":")@ + r2);
    lemma_p_lit_prefix((",\"solution\":")@, r2);
    lemma_p_qstring_of_json_string(it.solution, (",\"tries_left\":")@ + r3);
    lemma_p_lit_prefix((",\"tries_left\":")@, r3);
    assert(((",\"expires\":")@ + r4)[0] == ',');
    lemma_p_nat_of_dec(it.tries_left, usize::MAX as nat, (",\"expires\":")@ + r4);
    lemma_p_lit_prefix((",\"expires\":")@, r4);
    assert((("}")@ + r5)[0] == '}');
    lemma_p_i64_of_dec(it.expires, ("}")@ + r5);
    lemma_p_lit_prefix(("}")@, r5);
}

} // verus!
