//! Thin entry points for the boundary layer: each forwards to the engine
//! and hands back the answer's wire form.
use vstd::prelude::*;

use crate::captcha::CaptchaSolution;
use crate::config::Config;
use crate::generator::Image;
use crate::methods::{captcha_new, captcha_newget, captcha_solution, json_of_new_captcha,
    json_of_response, CaptchaError};
use crate::persistence::{get_spec, key_spec, Persistence};
use crate::validation::{normalize_uuid, parse_tries_spec, valid_uuid, valid_uuid_input};

verus! {

/// Creates a challenge with configured defaults and returns the creation
/// response text.
pub fn req_captcha_newget(
    difficulty: String,
    _clientid: String,
    conf: &Config,
    solution: CaptchaSolution,
    glyphs: &Vec<Image>,
    store: &mut Persistence,
    now: i64,
) -> (r: Result<String, CaptchaError>)
    requires
        old(store).wf(),
        glyphs@.len() >= 1,
        forall|k: int| 0 <= k < glyphs@.len() ==> (#[trigger] glyphs@[k]).wf(),
        conf.expire <= i64::MAX,
        now + conf.expire <= i64::MAX,
    ensures
        final(store).wf(),
        r matches Err(_) ==> final(store)@ == old(store)@,
        crate::generator::composition_oversized(glyphs@) ==> r is Err,
        difficulty@ != ("easy")@ && difficulty@ != ("medium")@ && difficulty@ != ("hard")@ ==> r
            == Err::<String, CaptchaError>(CaptchaError::InvalidParameters),
        r matches Ok(s) ==> exists|id: Seq<char>, png: Seq<char>|
            s@ == #[trigger] json_of_new_captcha(id, png) && valid_uuid(id)
                && final(store)@.contains_key(key_spec(id)),
{
    match captcha_newget(difficulty, conf, solution, glyphs, store, now) {
        Ok(details) => {
            let s = details.as_json();
            proof {
                let id = details.uuid_spec();
                let img = choose|img: Image|
                    #[trigger] crate::generator::is_composition(glyphs@, img)
                        && details.json_spec() == json_of_new_captcha(
                        id,
                        crate::generator::base64_of(
                            crate::generator::png_of(img.buf@, img.width as nat, img.height as nat),
                        ),
                    );
                let png = crate::generator::base64_of(
                    crate::generator::png_of(img.buf@, img.width as nat, img.height as nat),
                );
                assert(s@ == json_of_new_captcha(id, png) && valid_uuid(id)
                    && store@.contains_key(key_spec(id)));
            }
            Ok(s)
        },
        Err(e) => Err(e),
    }
}

/// Creates a challenge with caller-supplied parameters and returns the
/// creation response text.
pub fn req_captcha_new(
    difficulty: String,
    max_tries: String,
    ttl: String,
    _clientid: String,
    solution: CaptchaSolution,
    glyphs: &Vec<Image>,
    store: &mut Persistence,
    now: i64,
) -> (r: Result<String, CaptchaError>)
    requires
        old(store).wf(),
        glyphs@.len() >= 1,
        forall|k: int| 0 <= k < glyphs@.len() ==> (#[trigger] glyphs@[k]).wf(),
        now <= i64::MAX - 1000,
    ensures
        final(store).wf(),
        r matches Err(_) ==> final(store)@ == old(store)@,
        difficulty@ != ("easy")@ && difficulty@ != ("medium")@ && difficulty@ != ("hard")@ ==> r
            == Err::<String, CaptchaError>(CaptchaError::InvalidParameters),
        parse_tries_spec(max_tries@) is None ==> r == Err::<String, CaptchaError>(
            CaptchaError::InvalidParameters,
        ),
        parse_tries_spec(ttl@) is None ==> r == Err::<String, CaptchaError>(
            CaptchaError::InvalidParameters,
        ),
        crate::generator::composition_oversized(glyphs@) ==> r is Err,
        r matches Ok(s) ==> exists|id: Seq<char>, png: Seq<char>|
            s@ == #[trigger] json_of_new_captcha(id, png) && valid_uuid(id)
                && final(store)@.contains_key(key_spec(id)),
{
    match captcha_new(difficulty, max_tries, ttl, solution, glyphs, store, now) {
        Ok(details) => {
            let s = details.as_json();
            proof {
                let id = details.uuid_spec();
                let img = choose|img: Image|
                    #[trigger] crate::generator::is_composition(glyphs@, img)
                        && details.json_spec() == json_of_new_captcha(
                        id,
                        crate::generator::base64_of(
                            crate::generator::png_of(img.buf@, img.width as nat, img.height as nat),
                        ),
                    );
                let png = crate::generator::base64_of(
                    crate::generator::png_of(img.buf@, img.width as nat, img.height as nat),
                );
                assert(s@ == json_of_new_captcha(id, png) && valid_uuid(id)
                    && store@.contains_key(key_spec(id)));
            }
            Ok(s)
        },
        Err(e) => Err(e),
    }
}

/// Checks a submitted solution and returns the verification response text.
pub fn req_captcha_solution(
    id: String,
    solution: String,
    _clientid: String,
    store: &mut Persistence,
    now: i64,
) -> (r: Result<String, CaptchaError>)
    requires
        old(store).wf(),
    ensures
        final(store).wf(),
        r matches Err(_) ==> final(store)@ == old(store)@,
        !valid_uuid_input(id@) ==> r == Err::<String, CaptchaError>(
            CaptchaError::InvalidParameters,
        ),
        valid_uuid_input(id@) && solution@.len() <= 10 && get_spec(
            old(store)@,
            normalize_uuid(id@),
            now as int,
        ) is Ok ==> ({
            let it = get_spec(old(store)@, normalize_uuid(id@), now as int)->Ok_0;
            let o = crate::methods::verify_outcome(it, solution@);
            &&& final(store)@ == crate::methods::verify_store(old(store)@, it, solution@,
                now as int)
            &&& r matches Ok(s)
            &&& r matches Ok(s) ==> s@ == json_of_response(o.0, o.1, o.2)
        }),
{
    match captcha_solution(id, solution, store, now) {
        Ok(details) => Ok(details.as_json()),
        Err(e) => Err(e),
    }
}

} // verus!
