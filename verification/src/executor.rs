//! The challenge lifecycle engine over session-keyed records: creating a
//! challenge, fetching its state, and checking a submitted solution against
//! it while counting the attempts made.
use vstd::prelude::*;

use crate::captcha::{json_of_captcha, Captcha, CaptchaCreation, CaptchaSolution,
    CaptchaSolutionResponse};
use crate::config::Config;
use crate::generator::{base64_of, captcha_png, is_composition, png_of, to_base64, Image};
use crate::persistence::{del_key, expiry_at, get, get_captcha_spec, persist, update_key,
    Persistence, PersistenceError};
use crate::session::Session;

verus! {

#[derive(Debug, PartialEq, Eq, Structural, Clone, Copy)]
pub enum ExecutorError {
    ConnectionFailed,
    NotFound,
    JsonError,
    NoRng,
    DatabaseError,
    GeneratorFailed,
}

/// What a created challenge hands back to the boundary layer: the redacted
/// challenge state, the session it is filed under, and the rendered image.
pub struct CaptchaResult {
    pub captcha: CaptchaCreation,
    pub session: String,
    pub png: String,
}

/// How store failures of this flavour surface to the caller.
pub open spec fn map_error_spec(e: PersistenceError) -> ExecutorError {
    match e {
        PersistenceError::ConnectionFailed => ExecutorError::ConnectionFailed,
        PersistenceError::KeyNotFound => ExecutorError::NotFound,
        PersistenceError::JsonError => ExecutorError::JsonError,
        PersistenceError::DatabaseError => ExecutorError::DatabaseError,
    }
}

fn map_error(e: PersistenceError) -> (r: ExecutorError)
    ensures
        r == map_error_spec(e),
{
    match e {
        PersistenceError::ConnectionFailed => ExecutorError::ConnectionFailed,
        PersistenceError::KeyNotFound => ExecutorError::NotFound,
        PersistenceError::JsonError => ExecutorError::JsonError,
        PersistenceError::DatabaseError => ExecutorError::DatabaseError,
    }
}

/// What checking an attempt answers, given the stored challenge's fields:
/// `(checked, info, solved, tries)`. A spent budget or an already solved
/// challenge is reported without counting an attempt; otherwise the attempt
/// is counted and compared by exact character equality.
pub open spec fn check_outcome(
    tries: nat,
    max_tries: nat,
    solved: bool,
    stored: Seq<char>,
    submitted: Seq<char>,
) -> (bool, Seq<char>, bool, nat) {
    if tries >= max_tries {
        (false, ("Too many tries.")@, solved, tries)
    } else if solved {
        (false, ("Already solved.")@, solved, tries)
    } else if stored == submitted {
        (true, ("Correct.")@, true, tries + 1)
    } else {
        (true, ("Incorrect.")@, false, tries + 1)
    }
}

/// What a solution attempt leaves bound to the session: an uncounted
/// attempt (spent budget, already solved) changes nothing; a correct answer
/// deletes the challenge; a wrong answer rewrites the counted record, with
/// the expiry clock preserved rather than reset.
pub open spec fn check_store(
    m: Map<Seq<char>, (Seq<char>, int)>,
    session: Seq<char>,
    stored: (Seq<char>, nat, nat, Seq<char>, bool),
    submitted: Seq<char>,
) -> Map<Seq<char>, (Seq<char>, int)> {
    if stored.1 >= stored.2 || stored.4 {
        m
    } else if stored.0 == submitted {
        m.remove(session)
    } else {
        m.insert(
            session,
            (
                json_of_captcha(stored.0, (stored.1 + 1) as nat, stored.2, session, false),
                m[session].1,
            ),
        )
    }
}

/// Checks a submitted solution against the session's stored challenge: the
/// outcome is `check_outcome` of the stored fields, and the session's
/// binding becomes `check_store` of it — deleted on a correct answer, the
/// counted record with its expiry moment kept on a wrong one.
pub fn check_captcha(
    session: Session,
    cs: CaptchaSolution,
    _cf: Config,
    store: &mut Persistence,
    now: i64,
) -> (r: Result<CaptchaSolutionResponse, ExecutorError>)
    requires
        old(store).wf(),
    ensures
        final(store).wf(),
        ({
            match get_captcha_spec(old(store)@, session@, now as int) {
                Err(e) => r == Err::<CaptchaSolutionResponse, ExecutorError>(map_error_spec(e))
                    && final(store)@ == old(store)@,
                Ok(f) => {
                    let o = check_outcome(f.1, f.2, f.4, f.0, cs.solution@);
                    &&& r matches Ok(resp)
                    &&& r matches Ok(resp) ==> resp.checked == o.0 && resp.info@ == o.1
                        && resp.solved == o.2 && resp.tries as nat == o.3 && resp.max_tries as nat
                        == f.2
                    &&& final(store)@ == check_store(old(store)@, session@, f, cs.solution@)
                },
            }
        }),
{
    let sid = session.to_string();
    match get(session, store, now) {
        Ok(c) => {
            let cr = CaptchaSolutionResponse::new(&c);
            if cr.tries >= cr.max_tries {
                Ok(cr.set_reason("Too many tries.").set_checked(false))
            } else if cr.solved {
                Ok(cr.set_reason("Already solved.").set_checked(false))
            } else if c.solution == cs.solution {
                del_key(store, &sid);
                Ok(cr.inc_tries().set_checked(true).set_reason("Correct.").set_solved(true))
            } else {
                let r = cr.inc_tries().set_checked(true).set_reason("Incorrect.");
                let updated = Captcha::new(&r, &sid, &c.solution);
                update_key(store, sid, crate::captcha::CaptchaToJson::to_json(&updated));
                Ok(r)
            }
        },
        Err(e) => Err(map_error(e)),
    }
}

/// Acceptance deletes, session flavour: a correct answer removes the
/// challenge from the store, and any later fetch of the same session
/// reports it absent.
pub proof fn lemma_check_accept_deletes(
    m: Map<Seq<char>, (Seq<char>, int)>,
    session: Seq<char>,
    stored: (Seq<char>, nat, nat, Seq<char>, bool),
    later: int,
)
    requires
        stored.1 < stored.2,
        !stored.4,
    ensures
        check_outcome(stored.1, stored.2, stored.4, stored.0, stored.0).3 == stored.1 + 1,
        check_store(m, session, stored, stored.0) == m.remove(session),
        get_captcha_spec(check_store(m, session, stored, stored.0), session, later) == Err::<
            (Seq<char>, nat, nat, Seq<char>, bool),
            PersistenceError,
        >(PersistenceError::KeyNotFound),
{
}

/// A wrong answer, session flavour, counts exactly one attempt and leaves
/// the expiry moment of the binding untouched.
pub proof fn lemma_check_wrong_preserves_expiry(
    m: Map<Seq<char>, (Seq<char>, int)>,
    session: Seq<char>,
    stored: (Seq<char>, nat, nat, Seq<char>, bool),
    submitted: Seq<char>,
)
    requires
        stored.1 < stored.2,
        !stored.4,
        stored.0 != submitted,
        m.contains_key(session),
    ensures
        check_store(m, session, stored, submitted).contains_key(session),
        check_store(m, session, stored, submitted)[session].1 == m[session].1,
        check_store(m, session, stored, submitted)[session].0 == json_of_captcha(
            stored.0,
            (stored.1 + 1) as nat,
            stored.2,
            session,
            false,
        ),
{
}

/// Fetches the redacted state of a session's challenge.
pub fn get_captcha(session: Session, store: &Persistence, now: i64) -> (r: Result<
    CaptchaCreation,
    ExecutorError,
>)
    requires
        store.wf(),
    ensures
        ({
            match get_captcha_spec(store@, session@, now as int) {
                Err(e) => r == Err::<CaptchaCreation, ExecutorError>(map_error_spec(e)),
                Ok(f) => {
                    &&& r matches Ok(cc)
                    &&& r matches Ok(cc) ==> cc.solved_spec() == f.4 && cc.tries_spec() == f.1
                        && cc.max_tries_spec() == f.2
                },
            }
        }),
{
    match get(session, store, now) {
        Ok(c) => Ok(CaptchaCreation::new(c)),
        Err(e) => Err(map_error(e)),
    }
}

/// Encodes the glyphs' composition as a transportable image text: the
/// base64 of the assembled picture's PNG.
pub fn generate_image(glyphs: &Vec<Image>) -> (r: Result<String, ExecutorError>)
    requires
        glyphs@.len() >= 1,
        forall|k: int| 0 <= k < glyphs@.len() ==> (#[trigger] glyphs@[k]).wf(),
    ensures
        r matches Ok(s) ==> exists|img: Image|
            #[trigger] is_composition(glyphs@, img) && s@ == base64_of(
                png_of(img.buf@, img.width as nat, img.height as nat),
            ),
        r matches Err(e) ==> e == ExecutorError::GeneratorFailed,
        crate::generator::composition_oversized(glyphs@) ==> r is Err,
{
    match captcha_png(glyphs) {
        Ok(png) => {
            let b = to_base64(&png);
            proof {
                let img = choose|img: Image|
                    #[trigger] is_composition(glyphs@, img) && png@ == png_of(
                        img.buf@,
                        img.width as nat,
                        img.height as nat,
                    );
                assert(is_composition(glyphs@, img) && b@ == base64_of(
                    png_of(img.buf@, img.width as nat, img.height as nat),
                ));
            }
            Ok(b)
        },
        Err(_) => Err(ExecutorError::GeneratorFailed),
    }
}

/// Creates a new challenge and persists it: the caller supplies the freshly
/// drawn session, solution, and the rendered glyphs of that solution; the
/// challenge is stored under the session, unsolved and with no attempt
/// counted, alive for `conf.expire` seconds.
pub fn create_and_persist_captcha(
    conf: Config,
    session: Session,
    solution: CaptchaSolution,
    glyphs: &Vec<Image>,
    store: &mut Persistence,
    now: i64,
) -> (r: Result<CaptchaResult, ExecutorError>)
    requires
        old(store).wf(),
        glyphs@.len() >= 1,
        forall|k: int| 0 <= k < glyphs@.len() ==> (#[trigger] glyphs@[k]).wf(),
    ensures
        final(store).wf(),
        r matches Err(e) ==> e == ExecutorError::GeneratorFailed && final(store)@ == old(store)@,
        crate::generator::composition_oversized(glyphs@) ==> r is Err,
        r matches Ok(res) ==> ({
            &&& res.session@ == session@
            &&& !res.captcha.solved_spec()
            &&& res.captcha.tries_spec() == 0
            &&& res.captcha.max_tries_spec() == conf.max_tries as nat
            &&& exists|img: Image|
                #[trigger] is_composition(glyphs@, img) && res.png@ == base64_of(
                    png_of(img.buf@, img.width as nat, img.height as nat),
                )
            &&& final(store)@ == old(store)@.insert(
                session@,
                (
                    json_of_captcha(
                        solution.solution@,
                        0,
                        conf.max_tries as nat,
                        session@,
                        false,
                    ),
                    expiry_at(now as int, conf.expire as int),
                ),
            )
        }),
{
    let b64 = match generate_image(glyphs) {
        Ok(b) => b,
        Err(e) => {
            return Err(e);
        },
    };
    let captcha = Captcha {
        solution: solution.to_string(),
        tries: 0,
        max_tries: conf.max_tries,
        session: session.to_string(),
        solved: false,
    };
    match persist(&captcha, conf.expire, store, now) {
        Ok(_) => Ok(
            CaptchaResult {
                captcha: CaptchaCreation::new(captcha),
                session: session.to_string(),
                png: b64,
            },
        ),
        Err(e) => Err(map_error(e)),
    }
}

} // verus!
