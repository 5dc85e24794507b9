//! The challenge lifecycle engine over identifier-keyed records: checking a
//! submitted solution against a stored challenge, enforcing the tries budget
//! and the expiry clock.
use vstd::prelude::*;

use crate::json::{json_string, write_json_string, write_usize};
use crate::persistence::{get_spec, json_of_item, key_spec, store_expiry, Error, Item,
    ItemV, Persistence};
use crate::validation::{validate_id, validate_solution, valid_uuid};

verus! {

pub type CaptchaSolutionResult = Result<CaptchaSolutionDetails, CaptchaError>;

#[derive(Debug, PartialEq, Eq, Structural, Clone, Copy)]
pub enum CaptchaError {
    InvalidParameters,
    CaptchaGeneration,
    Uuid,
    ToJson,
    Persist,
    NotFound,
    Unexpected,
}

/// The record with one attempt spent.
pub open spec fn dec_item(it: ItemV) -> ItemV {
    ItemV {
        uuid: it.uuid,
        solution: it.solution,
        tries_left: if it.tries_left > 0 {
            (it.tries_left - 1) as nat
        } else {
            0nat
        },
        expires: it.expires,
    }
}

/// What a solution attempt against a stored record answers:
/// `(result, reject_reason, trials_left)`. A spent budget rejects without
/// looking at the attempt; an exact match is accepted; anything else is
/// rejected with one attempt fewer remaining. The comparison is by exact
/// character equality: no case folding, no trimming.
pub open spec fn verify_outcome(it: ItemV, user: Seq<char>) -> (Seq<char>, Seq<char>, nat) {
    if it.tries_left == 0 {
        (("rejected")@, ("too many trials")@, 0nat)
    } else if it.solution == user {
        (("accepted")@, Seq::empty(), 0nat)
    } else {
        (("rejected")@, ("incorrect solution")@, (it.tries_left - 1) as nat)
    }
}

/// What a solution attempt leaves in the store: a spent budget changes
/// nothing; a match deletes the record; a wrong attempt rewrites the
/// decremented record with its remaining time-to-live if the record has not
/// expired, and deletes it otherwise.
pub open spec fn verify_store(
    m: Map<Seq<char>, (Seq<char>, int)>,
    it: ItemV,
    user: Seq<char>,
    now: int,
) -> Map<Seq<char>, (Seq<char>, int)> {
    if it.tries_left == 0 {
        m
    } else if it.solution == user {
        m.remove(key_spec(it.uuid))
    } else if it.expires > now {
        m.insert(
            key_spec(it.uuid),
            (json_of_item(dec_item(it)), store_expiry(it.expires, now)),
        )
    } else {
        m.remove(key_spec(it.uuid))
    }
}

// ---------------------------------------------------------------------------

/// The answer sent back for a solution attempt.
#[derive(Clone, Debug)]
pub struct CaptchaSolutionResponse {
    result: String,
    reject_reason: String,
    trials_left: usize,
}

/// The JSON form of a solution-attempt answer.
pub open spec fn json_of_response(
    result: Seq<char>,
    reject_reason: Seq<char>,
    trials_left: nat,
) -> Seq<char> {
    ("{\"result\":")@ + json_string(result) + (",\"reject_reason\":")@ + json_string(reject_reason)
        + (",\"trials_left\":")@ + crate::json::dec_digits(trials_left) + ("}")@
}

impl CaptchaSolutionResponse {
    pub closed spec fn result_spec(&self) -> Seq<char> {
        self.result@
    }

    pub closed spec fn reason_spec(&self) -> Seq<char> {
        self.reject_reason@
    }

    pub closed spec fn trials_left_spec(&self) -> nat {
        self.trials_left as nat
    }

    pub fn reject(reason: &str, trials_left: usize) -> (r: CaptchaSolutionResponse)
        ensures
            r.result_spec() == ("rejected")@,
            r.reason_spec() == reason@,
            r.trials_left_spec() == trials_left as nat,
    {
        CaptchaSolutionResponse {
            result: String::from_str("rejected"),
            reject_reason: String::from_str(reason),
            trials_left,
        }
    }

    pub fn accept() -> (r: CaptchaSolutionResponse)
        ensures
            r.result_spec() == ("accepted")@,
            r.reason_spec() == Seq::<char>::empty(),
            r.trials_left_spec() == 0,
    {
        CaptchaSolutionResponse {
            result: String::from_str("accepted"),
            reject_reason: String::new(),
            trials_left: 0,
        }
    }

    pub fn result(&self) -> (r: String)
        ensures
            r@ == self.result_spec(),
    {
        self.result.clone()
    }

    pub fn reason(&self) -> (r: String)
        ensures
            r@ == self.reason_spec(),
    {
        self.reject_reason.clone()
    }

    pub fn trials_left(&self) -> (r: usize)
        ensures
            r as nat == self.trials_left_spec(),
    {
        self.trials_left
    }

    /// The answer's wire form.
    pub fn to_json(&self) -> (r: String)
        ensures
            r@ == json_of_response(self.result_spec(), self.reason_spec(),
                self.trials_left_spec()),
    {
        let mut out = String::new();
        out.append("{\"result\":");
        write_json_string(&mut out, self.result.as_str());
        out.append(",\"reject_reason\":");
        write_json_string(&mut out, self.reject_reason.as_str());
        out.append(",\"trials_left\":");
        write_usize(&mut out, self.trials_left);
        out.append("}");
        proof {
            assert(out@ =~= json_of_response(self.result_spec(), self.reason_spec(),
                self.trials_left_spec()));
        }
        out
    }

    fn duplicate(&self) -> (r: CaptchaSolutionResponse)
        ensures
            r.result_spec() == self.result_spec(),
            r.reason_spec() == self.reason_spec(),
            r.trials_left_spec() == self.trials_left_spec(),
    {
        CaptchaSolutionResponse {
            result: self.result.clone(),
            reject_reason: self.reject_reason.clone(),
            trials_left: self.trials_left,
        }
    }
}

/// What a solution attempt answers, returned to the boundary layer.
#[derive(Debug)]
pub struct CaptchaSolutionDetails {
    json: String,
    uuid: String,
    csr: CaptchaSolutionResponse,
}

impl CaptchaSolutionDetails {
    pub closed spec fn json_spec(&self) -> Seq<char> {
        self.json@
    }

    pub closed spec fn uuid_spec(&self) -> Seq<char> {
        self.uuid@
    }

    pub closed spec fn csr_spec(&self) -> CaptchaSolutionResponse {
        self.csr
    }

    pub fn as_json(&self) -> (r: String)
        ensures
            r@ == self.json_spec(),
    {
        self.json.clone()
    }

    pub fn uuid(&self) -> (r: String)
        ensures
            r@ == self.uuid_spec(),
    {
        self.uuid.clone()
    }

    pub fn csr(&self) -> (r: CaptchaSolutionResponse)
        ensures
            r.result_spec() == self.csr_spec().result_spec(),
            r.reason_spec() == self.csr_spec().reason_spec(),
            r.trials_left_spec() == self.csr_spec().trials_left_spec(),
    {
        self.csr.duplicate()
    }
}

/// What a creation request answers, returned to the boundary layer.
#[derive(Debug)]
pub struct CaptchaNewDetails {
    json: String,
    uuid: String,
}

impl CaptchaNewDetails {
    pub closed spec fn json_spec(&self) -> Seq<char> {
        self.json@
    }

    pub closed spec fn uuid_spec(&self) -> Seq<char> {
        self.uuid@
    }

    pub fn as_json(&self) -> (r: String)
        ensures
            r@ == self.json_spec(),
    {
        self.json.clone()
    }

    pub fn uuid(&self) -> (r: String)
        ensures
            r@ == self.uuid_spec(),
    {
        self.uuid.clone()
    }
}

// ---------------------------------------------------------------------------

/// How store failures surface to the caller of the engine.
pub fn persistence_error_mapping(e: Error) -> (r: CaptchaError)
    ensures
        r == persistence_error_mapping_spec(e),
{
    match e {
        Error::Connection | Error::NoLocation => CaptchaError::Persist,
        Error::NotFound => CaptchaError::NotFound,
        Error::Json => CaptchaError::Persist,
    }
}

pub open spec fn persistence_error_mapping_spec(e: Error) -> CaptchaError {
    match e {
        Error::Connection => CaptchaError::Persist,
        Error::NoLocation => CaptchaError::Persist,
        Error::NotFound => CaptchaError::NotFound,
        Error::Json => CaptchaError::Persist,
    }
}

/// Checks an attempt against a record whose budget is not spent, mutating
/// the store as `verify_store` says.
fn check_solution(user_solution: String, item: Item, store: &mut Persistence, now: i64) -> (r:
    CaptchaSolutionResponse)
    requires
        old(store).wf(),
        item@.tries_left >= 1,
    ensures
        final(store).wf(),
        final(store)@ == verify_store(old(store)@, item@, user_solution@, now as int),
        ({
            let o = verify_outcome(item@, user_solution@);
            r.result_spec() == o.0 && r.reason_spec() == o.1 && r.trials_left_spec() == o.2
        }),
{
    if item.solution() == user_solution {
        let u = item.uuid();
        store.del(&u);
        CaptchaSolutionResponse::accept()
    } else {
        if item.expires() > now {
            let t = item.tries_left() - 1;
            let d = item.dec_tries_left();
            proof {
                assert(d@ == dec_item(item@));
            }
            let _ = store.set(d, now);
            CaptchaSolutionResponse::reject("incorrect solution", t)
        } else {
            let t = item.tries_left() - 1;
            let u = item.uuid();
            store.del(&u);
            CaptchaSolutionResponse::reject("incorrect solution", t)
        }
    }
}

/// Checks an attempt against a record: a spent budget rejects without any
/// store change; otherwise `check_solution` decides.
pub fn check(user_solution: String, item: Item, store: &mut Persistence, now: i64) -> (r: Result<
    CaptchaSolutionResponse,
    CaptchaError,
>)
    requires
        old(store).wf(),
    ensures
        final(store).wf(),
        final(store)@ == verify_store(old(store)@, item@, user_solution@, now as int),
        r matches Ok(csr) && ({
            let o = verify_outcome(item@, user_solution@);
            csr.result_spec() == o.0 && csr.reason_spec() == o.1 && csr.trials_left_spec() == o.2
        }),
{
    if item.tries_left() == 0 {
        Ok(CaptchaSolutionResponse::reject("too many trials", 0))
    } else {
        Ok(check_solution(user_solution, item, store, now))
    }
}

/// Answers a solution attempt: validates the parameters, fetches the
/// record, compares, and mutates the store; the answer carries the outcome
/// and its wire form.
pub fn captcha_solution(id: String, solution: String, store: &mut Persistence, now: i64) -> (r:
    CaptchaSolutionResult)
    requires
        old(store).wf(),
    ensures
        final(store).wf(),
        !crate::validation::valid_uuid_input(id@) ==> r == Err::<
            CaptchaSolutionDetails,
            CaptchaError,
        >(CaptchaError::InvalidParameters) && final(store)@ == old(store)@,
        crate::validation::valid_uuid_input(id@) && solution@.len() > 10 ==> r == Err::<
            CaptchaSolutionDetails,
            CaptchaError,
        >(CaptchaError::InvalidParameters) && final(store)@ == old(store)@,
        crate::validation::valid_uuid_input(id@) && solution@.len() <= 10 ==> ({
            let nid = crate::validation::normalize_uuid(id@);
            match get_spec(old(store)@, nid, now as int) {
                Err(e) => r == Err::<CaptchaSolutionDetails, CaptchaError>(
                    persistence_error_mapping_spec(e),
                ) && final(store)@ == old(store)@,
                Ok(it) => {
                    let o = verify_outcome(it, solution@);
                    &&& final(store)@ == verify_store(old(store)@, it, solution@, now as int)
                    &&& r matches Ok(d)
                    &&& r matches Ok(d) ==> d.uuid_spec() == nid && d.csr_spec().result_spec()
                        == o.0 && d.csr_spec().reason_spec() == o.1
                        && d.csr_spec().trials_left_spec() == o.2 && d.json_spec()
                        == json_of_response(o.0, o.1, o.2)
                },
            }
        }),
{
    let i = match validate_id(id) {
        Ok(i) => i,
        Err(e) => {
            return Err(e);
        },
    };
    let s = match validate_solution(solution) {
        Ok(s) => s,
        Err(e) => {
            return Err(e);
        },
    };
    let item = match store.get(&i, now) {
        Ok(item) => item,
        Err(e) => {
            return Err(persistence_error_mapping(e));
        },
    };
    let csr = match check(s, item, store, now) {
        Ok(csr) => csr,
        Err(e) => {
            return Err(e);
        },
    };
    let json = csr.to_json();
    Ok(CaptchaSolutionDetails { json, uuid: i, csr })
}

// ---------------------------------------------------------------------------
// Creation.
// ---------------------------------------------------------------------------

pub type CaptchaNewResult = Result<CaptchaNewDetails, CaptchaError>;

/// The JSON form of a creation response: the challenge identifier and the
/// base64 of its rendered PNG.
pub open spec fn json_of_new_captcha(id: Seq<char>, png: Seq<char>) -> Seq<char> {
    ("{\"id\":")@ + json_string(id) + (",\"png\":")@ + json_string(png) + ("}")@
}

/// Relies on uuid::Builder::from_random_bytes and the hyphenated form: the
/// sixteen random bytes become a version-4 identifier written as 36
/// lowercase hexadecimal characters with hyphens at the four fixed
/// positions.
#[verifier::external_body]
fn hyphenated_uuid(a: u32, b: u32, c: u32, d: u32) -> (r: String)
    ensures
        valid_uuid(r@),
{
    let mut bytes = [0u8; 16];
    bytes[0..4].copy_from_slice(&a.to_le_bytes());
    bytes[4..8].copy_from_slice(&b.to_le_bytes());
    bytes[8..12].copy_from_slice(&c.to_le_bytes());
    bytes[12..16].copy_from_slice(&d.to_le_bytes());
    uuid::Builder::from_random_bytes(bytes).into_uuid().hyphenated().to_string()
}

/// Draws a fresh random identifier. `Err` is returned exactly when the
/// randomness source fails.
fn create_uuid() -> (r: Result<String, CaptchaError>)
    ensures
        r matches Ok(s) ==> valid_uuid(s@),
        r matches Err(e) ==> e == CaptchaError::Uuid,
{
    let a = match crate::rng::os_random_u32() {
        Some(x) => x,
        None => {
            return Err(CaptchaError::Uuid);
        },
    };
    let b = match crate::rng::os_random_u32() {
        Some(x) => x,
        None => {
            return Err(CaptchaError::Uuid);
        },
    };
    let c = match crate::rng::os_random_u32() {
        Some(x) => x,
        None => {
            return Err(CaptchaError::Uuid);
        },
    };
    let d = match crate::rng::os_random_u32() {
        Some(x) => x,
        None => {
            return Err(CaptchaError::Uuid);
        },
    };
    Ok(hyphenated_uuid(a, b, c, d))
}

/// Renders a drawn solution's glyphs into one image: the solution text and
/// the PNG of the glyphs' composition.
pub fn create_captcha(solution: &crate::captcha::CaptchaSolution, glyphs: &Vec<
    crate::generator::Image,
>) -> (r: Result<(String, Vec<u8>), CaptchaError>)
    requires
        glyphs@.len() >= 1,
        forall|k: int| 0 <= k < glyphs@.len() ==> (#[trigger] glyphs@[k]).wf(),
    ensures
        r matches Ok(p) ==> p.0@ == solution.solution@ && exists|img: crate::generator::Image|
            #[trigger] crate::generator::is_composition(glyphs@, img) && p.1@
                == crate::generator::png_of(img.buf@, img.width as nat, img.height as nat),
        r matches Err(e) ==> e == CaptchaError::CaptchaGeneration,
        crate::generator::composition_oversized(glyphs@) ==> r is Err,
{
    match crate::generator::captcha_png(glyphs) {
        Ok(png) => Ok((solution.to_string(), png)),
        Err(_) => Err(CaptchaError::CaptchaGeneration),
    }
}

/// Creates a challenge from already validated numbers: draws an identifier,
/// renders and encodes the image, and stores the record with the given
/// budget and lifetime.
fn create_checked(
    x: usize,
    t: i64,
    solution: crate::captcha::CaptchaSolution,
    glyphs: &Vec<crate::generator::Image>,
    store: &mut Persistence,
    now: i64,
) -> (r: CaptchaNewResult)
    requires
        old(store).wf(),
        glyphs@.len() >= 1,
        forall|k: int| 0 <= k < glyphs@.len() ==> (#[trigger] glyphs@[k]).wf(),
        0 <= t,
        now + t <= i64::MAX,
    ensures
        final(store).wf(),
        r matches Err(_) ==> final(store)@ == old(store)@,
        crate::generator::composition_oversized(glyphs@) ==> r is Err,
        r matches Ok(d) ==> ({
            &&& valid_uuid(d.uuid_spec())
            &&& final(store)@ == old(store)@.insert(
                key_spec(d.uuid_spec()),
                (
                    json_of_item(
                        ItemV {
                            uuid: d.uuid_spec(),
                            solution: solution.solution@,
                            tries_left: x as nat,
                            expires: now + t,
                        },
                    ),
                    store_expiry(now + t, now as int),
                ),
            )
            &&& exists|img: crate::generator::Image|
                #[trigger] crate::generator::is_composition(glyphs@, img) && d.json_spec()
                    == json_of_new_captcha(
                    d.uuid_spec(),
                    crate::generator::base64_of(
                        crate::generator::png_of(img.buf@, img.width as nat, img.height as nat),
                    ),
                )
        }),
{
    let uuid = match create_uuid() {
        Ok(u) => u,
        Err(_) => {
            return Err(CaptchaError::Uuid);
        },
    };
    let (sol, png) = match create_captcha(&solution, glyphs) {
        Ok(p) => p,
        Err(e) => {
            return Err(e);
        },
    };
    let b64 = crate::generator::to_base64(&png);
    let mut json = String::new();
    json.append("{\"id\":");
    write_json_string(&mut json, uuid.as_str());
    json.append(",\"png\":");
    write_json_string(&mut json, b64.as_str());
    json.append("}");
    proof {
        assert(json@ =~= json_of_new_captcha(uuid@, b64@));
    }
    let item = Item::with_ttl(uuid.clone(), sol, x, t, now);
    match store.set(item, now) {
        Ok(_) => Ok(CaptchaNewDetails { json, uuid }),
        Err(_) => Err(CaptchaError::Persist),
    }
}

/// Creates a challenge: validates the wire parameters, draws an identifier,
/// renders the supplied glyphs of the supplied solution, and stores the
/// record with the asked-for tries budget and lifetime, both of which must
/// be positive.
pub fn captcha_new(
    difficulty: String,
    max_tries: String,
    ttl: String,
    solution: crate::captcha::CaptchaSolution,
    glyphs: &Vec<crate::generator::Image>,
    store: &mut Persistence,
    now: i64,
) -> (r: CaptchaNewResult)
    requires
        old(store).wf(),
        glyphs@.len() >= 1,
        forall|k: int| 0 <= k < glyphs@.len() ==> (#[trigger] glyphs@[k]).wf(),
        now <= i64::MAX - 1000,
    ensures
        final(store).wf(),
        r matches Err(_) ==> final(store)@ == old(store)@,
        crate::generator::composition_oversized(glyphs@) ==> r is Err,
        difficulty@ != ("easy")@ && difficulty@ != ("medium")@ && difficulty@ != ("hard")@ ==> r
            == Err::<CaptchaNewDetails, CaptchaError>(CaptchaError::InvalidParameters),
        crate::validation::parse_tries_spec(max_tries@) is None ==> r == Err::<
            CaptchaNewDetails,
            CaptchaError,
        >(CaptchaError::InvalidParameters),
        crate::validation::parse_tries_spec(ttl@) is None ==> r == Err::<
            CaptchaNewDetails,
            CaptchaError,
        >(CaptchaError::InvalidParameters),
        crate::validation::parse_tries_spec(max_tries@) == Some(0nat) ==> r == Err::<
            CaptchaNewDetails,
            CaptchaError,
        >(CaptchaError::InvalidParameters),
        crate::validation::parse_tries_spec(ttl@) == Some(0nat) ==> r == Err::<
            CaptchaNewDetails,
            CaptchaError,
        >(CaptchaError::InvalidParameters),
        r matches Ok(d) ==> ({
            &&& crate::validation::parse_tries_spec(max_tries@) matches Some(x)
            &&& crate::validation::parse_tries_spec(ttl@) matches Some(t)
            &&& valid_uuid(d.uuid_spec())
            &&& final(store)@ == old(store)@.insert(
                key_spec(d.uuid_spec()),
                (
                    json_of_item(
                        ItemV {
                            uuid: d.uuid_spec(),
                            solution: solution.solution@,
                            tries_left: crate::validation::parse_tries_spec(max_tries@)->Some_0,
                            expires: now + crate::validation::parse_tries_spec(ttl@)->Some_0,
                        },
                    ),
                    store_expiry(
                        now + crate::validation::parse_tries_spec(ttl@)->Some_0,
                        now as int,
                    ),
                ),
            )
            &&& exists|img: crate::generator::Image|
                #[trigger] crate::generator::is_composition(glyphs@, img) && d.json_spec()
                    == json_of_new_captcha(
                    d.uuid_spec(),
                    crate::generator::base64_of(
                        crate::generator::png_of(img.buf@, img.width as nat, img.height as nat),
                    ),
                )
        }),
{
    let _d = match crate::validation::validate_difficulty(difficulty) {
        Ok(d) => d,
        Err(e) => {
            return Err(e);
        },
    };
    let x = match crate::validation::validate_tries(max_tries) {
        Ok(x) => x,
        Err(e) => {
            return Err(e);
        },
    };
    let t = match crate::validation::validate_ttl(ttl) {
        Ok(t) => t,
        Err(e) => {
            return Err(e);
        },
    };
    if x == 0 || t == 0 {
        return Err(CaptchaError::InvalidParameters);
    }
    create_checked(x, t, solution, glyphs, store, now)
}

/// Creates a challenge with the configured default tries budget and
/// lifetime, which must both be positive.
pub fn captcha_newget(
    difficulty: String,
    conf: &crate::config::Config,
    solution: crate::captcha::CaptchaSolution,
    glyphs: &Vec<crate::generator::Image>,
    store: &mut Persistence,
    now: i64,
) -> (r: CaptchaNewResult)
    requires
        old(store).wf(),
        glyphs@.len() >= 1,
        forall|k: int| 0 <= k < glyphs@.len() ==> (#[trigger] glyphs@[k]).wf(),
        conf.expire <= i64::MAX,
        now + conf.expire <= i64::MAX,
    ensures
        final(store).wf(),
        r matches Err(_) ==> final(store)@ == old(store)@,
        crate::generator::composition_oversized(glyphs@) ==> r is Err,
        difficulty@ != ("easy")@ && difficulty@ != ("medium")@ && difficulty@ != ("hard")@ ==> r
            == Err::<CaptchaNewDetails, CaptchaError>(CaptchaError::InvalidParameters),
        (conf.max_tries == 0 || conf.expire == 0) ==> r == Err::<
            CaptchaNewDetails,
            CaptchaError,
        >(CaptchaError::InvalidParameters),
        r matches Ok(d) ==> ({
            &&& valid_uuid(d.uuid_spec())
            &&& final(store)@ == old(store)@.insert(
                key_spec(d.uuid_spec()),
                (
                    json_of_item(
                        ItemV {
                            uuid: d.uuid_spec(),
                            solution: solution.solution@,
                            tries_left: conf.max_tries as nat,
                            expires: now + conf.expire,
                        },
                    ),
                    store_expiry(now + conf.expire, now as int),
                ),
            )
            &&& exists|img: crate::generator::Image|
                #[trigger] crate::generator::is_composition(glyphs@, img) && d.json_spec()
                    == json_of_new_captcha(
                    d.uuid_spec(),
                    crate::generator::base64_of(
                        crate::generator::png_of(img.buf@, img.width as nat, img.height as nat),
                    ),
                )
        }),
{
    let _d = match crate::validation::validate_difficulty(difficulty) {
        Ok(d) => d,
        Err(e) => {
            return Err(e);
        },
    };
    if conf.max_tries == 0 || conf.expire == 0 {
        return Err(CaptchaError::InvalidParameters);
    }
    create_checked(conf.max_tries, conf.expire as i64, solution, glyphs, store, now)
}

// ---------------------------------------------------------------------------
// Laws of the verification state machine.
// ---------------------------------------------------------------------------

/// Tries decrement: a wrong attempt against an unexpired record leaves
/// exactly the decremented record under the same key — same identifier,
/// solution and expiry, one attempt fewer — readable until its preserved
/// expiry moment, and answers "incorrect solution" with the remaining
/// count.
pub proof fn lemma_wrong_attempt_decrements(
    m: Map<Seq<char>, (Seq<char>, int)>,
    it: ItemV,
    user: Seq<char>,
    now: int,
    later: int,
)
    requires
        1 <= it.tries_left <= usize::MAX as nat,
        it.solution != user,
        it.expires > now,
        i64::MIN <= it.expires <= i64::MAX,
        now <= later < store_expiry(it.expires, now),
    ensures
        verify_outcome(it, user) == (
            ("rejected")@,
            ("incorrect solution")@,
            (it.tries_left - 1) as nat,
        ),
        get_spec(verify_store(m, it, user, now), it.uuid, later) == Ok::<ItemV, Error>(
            dec_item(it),
        ),
{
    crate::persistence::item::lemma_parse_item_roundtrip(dec_item(it));
}

/// Acceptance deletes: after a correct attempt the record is gone, and any
/// later read of the same identifier reports it absent.
pub proof fn lemma_accepted_deletes(
    m: Map<Seq<char>, (Seq<char>, int)>,
    it: ItemV,
    user: Seq<char>,
    now: int,
    later: int,
)
    requires
        it.tries_left > 0,
        it.solution == user,
    ensures
        verify_outcome(it, user).0 == ("accepted")@,
        get_spec(verify_store(m, it, user, now), it.uuid, later) == Err::<ItemV, Error>(
            Error::NotFound,
        ),
{
}

/// Exact-match comparison: any attempt that differs from the stored
/// solution in any character — case included — is rejected, with exactly
/// one attempt spent.
pub proof fn lemma_exact_match_required(it: ItemV, user: Seq<char>)
    requires
        it.tries_left > 0,
        it.solution != user,
    ensures
        verify_outcome(it, user).0 == ("rejected")@,
        verify_outcome(it, user).1 == ("incorrect solution")@,
        verify_outcome(it, user).2 == it.tries_left - 1,
{
}

/// Tries exhaustion: once the budget is spent, every further attempt is
/// rejected with "too many trials", nothing is decremented and the store is
/// left untouched.
pub proof fn lemma_exhausted_rejects(
    m: Map<Seq<char>, (Seq<char>, int)>,
    it: ItemV,
    user: Seq<char>,
    now: int,
)
    requires
        it.tries_left == 0,
    ensures
        verify_outcome(it, user) == (("rejected")@, ("too many trials")@, 0nat),
        verify_store(m, it, user, now) == m,
{
}

} // verus!
