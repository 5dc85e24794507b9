use base64::Engine as _;
use rust_captcha::captcha::{Captcha, CaptchaSolution, CaptchaSolutionConstraints, CaptchaToJson,
    Difficulty};
use rust_captcha::config::{validate_config, Config};
use rust_captcha::executor::{check_captcha, create_and_persist_captcha, get_captcha,
    ExecutorError};
use rust_captcha::generator::{Image, Pixel};
use rust_captcha::methods::{captcha_new, captcha_newget, captcha_solution, CaptchaError};
use rust_captcha::persistence::{persist, Persistence};
use rust_captcha::session::Session;
use rust_captcha::validation::{validate_difficulty, validate_id, validate_solution,
    validate_tries, validate_ttl};

fn glyph() -> Image {
    let mut g = Image::fill(20, 20, 255);
    g.set_pixel(5, 5, Pixel::black());
    g.set_pixel(6, 5, Pixel::black());
    g
}

fn test_config() -> Config {
    Config {
        max_tries: 3,
        min_letters: 4,
        max_letters: 6,
        characters: "abcd".to_string(),
        expire: 60,
    }
}

// -- validation -------------------------------------------------------------

#[test]
fn validate_difficulty_accepts_the_three_levels() {
    assert_eq!(validate_difficulty("easy".to_string()).unwrap(), Difficulty::Easy);
    assert_eq!(validate_difficulty("medium".to_string()).unwrap(), Difficulty::Medium);
    assert_eq!(validate_difficulty("hard".to_string()).unwrap(), Difficulty::Hard);
    assert_eq!(
        validate_difficulty("EASY".to_string()).unwrap_err(),
        CaptchaError::InvalidParameters,
    );
}

#[test]
fn validate_tries_parses_up_to_three_digits() {
    assert_eq!(validate_tries("0".to_string()).unwrap(), 0);
    assert_eq!(validate_tries("999".to_string()).unwrap(), 999);
    assert_eq!(validate_tries("42".to_string()).unwrap(), 42);
    assert!(validate_tries("1000".to_string()).is_err());
    assert!(validate_tries("".to_string()).is_err());
    assert!(validate_tries("1a".to_string()).is_err());
    assert_eq!(validate_ttl("7".to_string()).unwrap(), 7);
    assert!(validate_ttl("-1".to_string()).is_err());
}

#[test]
fn validate_id_wants_the_hyphenated_shape() {
    assert_eq!(
        validate_id("123e4567-e89b-12d3-a456-426614174000".to_string()).unwrap(),
        "123e4567-e89b-12d3-a456-426614174000",
    );
    // Either hexadecimal case is accepted; the canonical lowercase spelling
    // comes back.
    assert_eq!(
        validate_id("123E4567-E89B-12D3-A456-426614174000".to_string()).unwrap(),
        "123e4567-e89b-12d3-a456-426614174000",
    );
    assert!(validate_id("123e4567e89b12d3a456426614174000".to_string()).is_err());
    assert!(validate_id("123g4567-e89b-12d3-a456-426614174000".to_string()).is_err());
    assert!(validate_id("xx".to_string()).is_err());
}

#[test]
fn validate_solution_limits_length() {
    assert_eq!(validate_solution("abcdefghij".to_string()).unwrap(), "abcdefghij");
    assert!(validate_solution("abcdefghijk".to_string()).is_err());
}

#[test]
fn validate_config_checks_bounds() {
    assert!(validate_config(&test_config()).is_ok());
    let mut c = test_config();
    c.min_letters = 7;
    assert!(validate_config(&c).is_err());
    let mut c = test_config();
    c.min_letters = 0;
    assert!(validate_config(&c).is_err());
    let mut c = test_config();
    c.characters = String::new();
    assert!(validate_config(&c).is_err());
}

// -- generation -------------------------------------------------------------

#[test]
fn session_ids_have_the_fixed_shape() {
    for _ in 0..10 {
        let s = Session::new().unwrap();
        let id = s.to_string();
        assert_eq!(id.chars().count(), 20);
        assert!(id.chars().all(|c| c.is_ascii_digit() || c.is_ascii_lowercase()));
        // A generated identifier is always accepted back.
        assert!(Session::from_string(id).is_some());
    }
    assert!(Session::from_string("short".to_string()).is_none());
    assert!(Session::from_string("ABCDEFGHIJKLMNOPQRST".to_string()).is_none());
}

#[test]
fn solutions_fit_length_and_alphabet() {
    for _ in 0..10 {
        let cs = CaptchaSolution::new(CaptchaSolutionConstraints::new(&test_config())).unwrap();
        let s = cs.to_string();
        let n = s.chars().count();
        assert!(4 <= n && n <= 6);
        assert!(s.chars().all(|c| "abcd".contains(c)));
    }
}

#[test]
fn solution_from_json_validates() {
    let constraints = CaptchaSolutionConstraints::new(&test_config());
    let ok = CaptchaSolution::from_json("{\"solution\":\"abcd\"}".to_string(), constraints);
    assert_eq!(ok.unwrap().to_string(), "abcd");
    let constraints = CaptchaSolutionConstraints::new(&test_config());
    assert!(CaptchaSolution::from_json("{\"solution\":\"abe\"}".to_string(), constraints)
        .is_none());
    let constraints = CaptchaSolutionConstraints::new(&test_config());
    assert!(CaptchaSolution::from_json("not json".to_string(), constraints).is_none());
}

// -- the identifier-keyed engine --------------------------------------------

fn fresh_challenge(store: &mut Persistence, now: i64, tries: &str, ttl: &str) -> String {
    let solution = CaptchaSolution { solution: "abcd".to_string() };
    let d = captcha_new(
        "easy".to_string(),
        tries.to_string(),
        ttl.to_string(),
        solution,
        &vec![glyph()],
        store,
        now,
    ).unwrap();
    d.uuid()
}

#[test]
fn created_challenge_has_valid_id_and_payload() {
    let mut store = Persistence::new();
    let now: i64 = 10_000;
    let solution = CaptchaSolution { solution: "abcd".to_string() };
    let d = captcha_new(
        "easy".to_string(),
        "3".to_string(),
        "60".to_string(),
        solution,
        &vec![glyph()],
        &mut store,
        now,
    ).unwrap();
    assert!(validate_id(d.uuid()).is_ok());
    let json = d.as_json();
    assert!(json.starts_with("{\"id\":\""));
    assert!(json.contains("\",\"png\":\""));
    assert!(json.ends_with("\"}"));
}

#[test]
fn captcha_new_rejects_bad_parameters() {
    let mut store = Persistence::new();
    let sol = || CaptchaSolution { solution: "abcd".to_string() };
    let g = vec![glyph()];
    let e = captcha_new("bogus".to_string(), "3".to_string(), "60".to_string(), sol(), &g,
        &mut store, 0).unwrap_err();
    assert_eq!(e, CaptchaError::InvalidParameters);
    let e = captcha_new("easy".to_string(), "abc".to_string(), "60".to_string(), sol(), &g,
        &mut store, 0).unwrap_err();
    assert_eq!(e, CaptchaError::InvalidParameters);
    let e = captcha_new("easy".to_string(), "0".to_string(), "60".to_string(), sol(), &g,
        &mut store, 0).unwrap_err();
    assert_eq!(e, CaptchaError::InvalidParameters);
    let e = captcha_new("easy".to_string(), "3".to_string(), "0".to_string(), sol(), &g,
        &mut store, 0).unwrap_err();
    assert_eq!(e, CaptchaError::InvalidParameters);
}

#[test]
fn captcha_newget_uses_config_defaults() {
    let mut store = Persistence::new();
    let now: i64 = 500;
    let solution = CaptchaSolution { solution: "abcd".to_string() };
    let d = captcha_newget("medium".to_string(), &test_config(), solution, &vec![glyph()],
        &mut store, now).unwrap();
    // One wrong answer: the configured budget of 3 leaves 2.
    let r = captcha_solution(d.uuid(), "zzzz".to_string(), &mut store, now).unwrap();
    assert_eq!(r.csr().result(), "rejected");
    assert_eq!(r.csr().trials_left(), 2);
}

#[test]
fn three_wrong_tries_exhaust_the_budget() {
    let mut store = Persistence::new();
    let now: i64 = 10_000;
    let id = fresh_challenge(&mut store, now, "3", "60");

    let r1 = captcha_solution(id.clone(), "zzz".to_string(), &mut store, now).unwrap();
    assert_eq!(r1.csr().result(), "rejected");
    assert_eq!(r1.csr().reason(), "incorrect solution");
    assert_eq!(r1.csr().trials_left(), 2);

    let r2 = captcha_solution(id.clone(), "zzz".to_string(), &mut store, now).unwrap();
    assert_eq!(r2.csr().result(), "rejected");
    assert_eq!(r2.csr().reason(), "incorrect solution");
    assert_eq!(r2.csr().trials_left(), 1);

    let r3 = captcha_solution(id.clone(), "zzz".to_string(), &mut store, now).unwrap();
    assert_eq!(r3.csr().result(), "rejected");
    assert_eq!(r3.csr().reason(), "incorrect solution");
    assert_eq!(r3.csr().trials_left(), 0);

    // A fourth attempt is rejected without any further decrement.
    let r4 = captcha_solution(id.clone(), "abcd".to_string(), &mut store, now).unwrap();
    assert_eq!(r4.csr().result(), "rejected");
    assert_eq!(r4.csr().reason(), "too many trials");
    assert_eq!(r4.csr().trials_left(), 0);
}

#[test]
fn acceptance_deletes_the_record() {
    let mut store = Persistence::new();
    let now: i64 = 10_000;
    let id = fresh_challenge(&mut store, now, "3", "60");

    let ok = captcha_solution(id.clone(), "abcd".to_string(), &mut store, now).unwrap();
    assert_eq!(ok.csr().result(), "accepted");
    assert_eq!(ok.csr().reason(), "");
    assert_eq!(
        ok.as_json(),
        "{\"result\":\"accepted\",\"reject_reason\":\"\",\"trials_left\":0}",
    );

    // The record is gone: a second attempt reports it absent.
    let e = captcha_solution(id, "abcd".to_string(), &mut store, now).unwrap_err();
    assert_eq!(e, CaptchaError::NotFound);
}

#[test]
fn recased_id_reaches_the_same_challenge() {
    let mut store = Persistence::new();
    let now: i64 = 10_000;
    let id = fresh_challenge(&mut store, now, "3", "60");
    let shouted = id.to_uppercase();
    let r = captcha_solution(shouted, "abcd".to_string(), &mut store, now).unwrap();
    assert_eq!(r.csr().result(), "accepted");
}

#[test]
fn comparison_is_case_sensitive() {
    let mut store = Persistence::new();
    let now: i64 = 10_000;
    let solution = CaptchaSolution { solution: "AbCd".to_string() };
    let d = captcha_new("easy".to_string(), "3".to_string(), "60".to_string(), solution,
        &vec![glyph()], &mut store, now).unwrap();
    let r = captcha_solution(d.uuid(), "abcd".to_string(), &mut store, now).unwrap();
    assert_eq!(r.csr().result(), "rejected");
    assert_eq!(r.csr().reason(), "incorrect solution");
}

#[test]
fn expired_challenge_is_not_found() {
    let mut store = Persistence::new();
    let now: i64 = 10_000;
    let id = fresh_challenge(&mut store, now, "3", "1");
    // Immediately it is there ...
    let r = captcha_solution(id.clone(), "zzz".to_string(), &mut store, now).unwrap();
    assert_eq!(r.csr().result(), "rejected");
    // ... and past the lifetime it is not.
    let e = captcha_solution(id, "abcd".to_string(), &mut store, now + 2).unwrap_err();
    assert_eq!(e, CaptchaError::NotFound);
}

#[test]
fn unknown_id_is_not_found() {
    let mut store = Persistence::new();
    let e = captcha_solution(
        "123e4567-e89b-12d3-a456-426614174000".to_string(),
        "a".to_string(),
        &mut store,
        0,
    ).unwrap_err();
    assert_eq!(e, CaptchaError::NotFound);
}

#[test]
fn invalid_wire_parameters_are_rejected() {
    let mut store = Persistence::new();
    let e = captcha_solution("not-an-id".to_string(), "a".to_string(), &mut store, 0)
        .unwrap_err();
    assert_eq!(e, CaptchaError::InvalidParameters);
    let e = captcha_solution(
        "123e4567-e89b-12d3-a456-426614174000".to_string(),
        "abcdefghijk".to_string(),
        &mut store,
        0,
    ).unwrap_err();
    assert_eq!(e, CaptchaError::InvalidParameters);
}

// -- the session-keyed engine -----------------------------------------------

#[test]
fn old_flavour_lifecycle() {
    let mut store = Persistence::new();
    let now: i64 = 77;
    let conf = test_config();
    let session = Session::from_string("a1b2c3d4e5f6g7h8i9j0".to_string()).unwrap();
    let solution = CaptchaSolution { solution: "abcd".to_string() };

    let created = create_and_persist_captcha(conf.clone(), session, solution, &vec![glyph()],
        &mut store, now).unwrap();
    assert_eq!(created.session, "a1b2c3d4e5f6g7h8i9j0");
    assert_eq!(
        created.captcha.to_json(),
        "{\"solved\":false,\"tries\":0,\"max_tries\":3}",
    );
    assert!(!created.png.is_empty());

    // The challenge can be fetched, redacted.
    let again = Session::from_string("a1b2c3d4e5f6g7h8i9j0".to_string()).unwrap();
    let cc = get_captcha(again, &store, now).unwrap();
    assert_eq!(cc.to_json(), "{\"solved\":false,\"tries\":0,\"max_tries\":3}");

    // A wrong answer is counted.
    let again = Session::from_string("a1b2c3d4e5f6g7h8i9j0".to_string()).unwrap();
    let wrong = CaptchaSolution { solution: "dcba".to_string() };
    let r = check_captcha(again, wrong, conf.clone(), &mut store, now).unwrap();
    assert!(r.checked);
    assert_eq!(r.info, "Incorrect.");
    assert!(!r.solved);
    assert_eq!(r.tries, 1);

    // The right answer solves the challenge and deletes the record.
    let again = Session::from_string("a1b2c3d4e5f6g7h8i9j0".to_string()).unwrap();
    let right = CaptchaSolution { solution: "abcd".to_string() };
    let r = check_captcha(again, right, conf.clone(), &mut store, now).unwrap();
    assert!(r.checked);
    assert_eq!(r.info, "Correct.");
    assert!(r.solved);
    assert_eq!(r.tries, 2);

    // The solved challenge is gone: fetching and answering report absence.
    let again = Session::from_string("a1b2c3d4e5f6g7h8i9j0".to_string()).unwrap();
    assert_eq!(get_captcha(again, &store, now).unwrap_err(), ExecutorError::NotFound);
    let again = Session::from_string("a1b2c3d4e5f6g7h8i9j0".to_string()).unwrap();
    let late = CaptchaSolution { solution: "abcd".to_string() };
    assert_eq!(
        check_captcha(again, late, conf.clone(), &mut store, now).unwrap_err(),
        ExecutorError::NotFound,
    );
}

#[test]
fn old_flavour_already_solved_record() {
    let mut store = Persistence::new();
    let now: i64 = 77;
    let conf = test_config();
    // A record marked solved, however it got there, is not checked again.
    let solved = Captcha {
        solution: "abcd".to_string(),
        tries: 1,
        max_tries: 3,
        session: "a1b2c3d4e5f6g7h8i9j0".to_string(),
        solved: true,
    };
    assert!(persist(&solved, 60, &mut store, now).is_ok());
    let session = Session::from_string("a1b2c3d4e5f6g7h8i9j0".to_string()).unwrap();
    let answer = CaptchaSolution { solution: "abcd".to_string() };
    let r = check_captcha(session, answer, conf, &mut store, now).unwrap();
    assert!(!r.checked);
    assert_eq!(r.info, "Already solved.");
    assert_eq!(r.tries, 1);
}

#[test]
fn old_flavour_wrong_answer_keeps_the_expiry_clock() {
    let mut store = Persistence::new();
    let now: i64 = 1_000;
    let conf = test_config();
    let session = Session::from_string("a1b2c3d4e5f6g7h8i9j0".to_string()).unwrap();
    let solution = CaptchaSolution { solution: "abcd".to_string() };
    create_and_persist_captcha(conf.clone(), session, solution, &vec![glyph()], &mut store, now)
        .unwrap();

    // A wrong answer halfway through the lifetime does not reset the clock.
    let again = Session::from_string("a1b2c3d4e5f6g7h8i9j0".to_string()).unwrap();
    let wrong = CaptchaSolution { solution: "dcba".to_string() };
    let r = check_captcha(again, wrong, conf.clone(), &mut store, now + 30).unwrap();
    assert_eq!(r.info, "Incorrect.");
    let again = Session::from_string("a1b2c3d4e5f6g7h8i9j0".to_string()).unwrap();
    assert!(get_captcha(again, &store, now + 59).is_ok());
    let again = Session::from_string("a1b2c3d4e5f6g7h8i9j0".to_string()).unwrap();
    assert_eq!(
        get_captcha(again, &store, now + 60).unwrap_err(),
        ExecutorError::NotFound,
    );
}

#[test]
fn old_flavour_too_many_tries() {
    let mut store = Persistence::new();
    let now: i64 = 77;
    let mut conf = test_config();
    conf.max_tries = 1;
    let session = Session::from_string("a1b2c3d4e5f6g7h8i9j0".to_string()).unwrap();
    let solution = CaptchaSolution { solution: "abcd".to_string() };
    create_and_persist_captcha(conf.clone(), session, solution, &vec![glyph()], &mut store, now)
        .unwrap();

    let again = Session::from_string("a1b2c3d4e5f6g7h8i9j0".to_string()).unwrap();
    let wrong = CaptchaSolution { solution: "dcba".to_string() };
    let r = check_captcha(again, wrong, conf.clone(), &mut store, now).unwrap();
    assert_eq!(r.info, "Incorrect.");
    assert_eq!(r.tries, 1);

    let again = Session::from_string("a1b2c3d4e5f6g7h8i9j0".to_string()).unwrap();
    let wrong = CaptchaSolution { solution: "abcd".to_string() };
    let r = check_captcha(again, wrong, conf, &mut store, now).unwrap();
    assert!(!r.checked);
    assert_eq!(r.info, "Too many tries.");
    assert_eq!(r.tries, 1);
}

#[test]
fn old_flavour_unknown_session() {
    let store = Persistence::new();
    let session = Session::from_string("a1b2c3d4e5f6g7h8i9j0".to_string()).unwrap();
    let e = get_captcha(session, &store, 0).unwrap_err();
    assert_eq!(e, ExecutorError::NotFound);
}

#[test]
fn created_png_decodes_to_the_composition() {
    let mut store = Persistence::new();
    let now: i64 = 10_000;
    let solution = CaptchaSolution { solution: "abcd".to_string() };
    let d = captcha_new(
        "easy".to_string(),
        "3".to_string(),
        "60".to_string(),
        solution,
        &vec![glyph()],
        &mut store,
        now,
    ).unwrap();
    let json = d.as_json();
    let marker = "\"png\":\"";
    let start = json.find(marker).unwrap() + marker.len();
    let end = json[start..].find('"').unwrap() + start;
    let png_b64 = &json[start..end];
    let png = base64::engine::general_purpose::STANDARD.decode(png_b64).unwrap();
    let decoded = lodepng::decode24(&png).unwrap();
    // glyph() trims to two black pixels side by side.
    assert_eq!(decoded.width, 2);
    assert_eq!(decoded.height, 1);
    assert_eq!(decoded.buffer[0].r, 0);
    assert_eq!(decoded.buffer[1].r, 0);
}
