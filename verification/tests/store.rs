use rust_captcha::persistence::{get, parse_result, persist, set_key, ttl, Error, Item,
    Persistence, PersistenceError};
use rust_captcha::captcha::{Captcha, CaptchaSolutionResponse, CaptchaToJson};
use rust_captcha::session::Session;

fn as_some(s: &str) -> Option<String> {
    Some(s.to_string())
}

#[test]
fn test_parse_result() {
    assert_eq!(parse_result(Err(Error::Connection)).err().unwrap(), Error::Connection);

    assert_eq!(parse_result(Ok(None)).err().unwrap(), Error::NotFound);

    let s = "{\"uuid\":\"x\",\"solution\":\"solution\",\"tries_left\":3,\"expires\":12345678}";
    let i = Item::new("x".to_string(), "solution".to_string(), 3, 12345678);
    assert_eq!(parse_result(Ok(as_some(s))), Ok(i));

    assert_eq!(parse_result(Ok(as_some("a"))).err().unwrap(), Error::Json);
}

#[test]
fn test_item_json_roundtrip() {
    let i = Item::new("ab-12".to_string(), "he\"l\\lo\n".to_string(), 7, -5);
    let text = i.to_json();
    assert_eq!(parse_result(Ok(Some(text))), Ok(i));
}

#[test]
fn test_item_accessors() {
    let i = Item::new("u1".to_string(), "sol".to_string(), 2, 99);
    assert_eq!(i.uuid(), "u1");
    assert_eq!(i.solution(), "sol");
    assert_eq!(i.tries_left(), 2);
    assert_eq!(i.expires(), 99);
    let d = i.dec_tries_left();
    assert_eq!(d.tries_left(), 1);
    let z = d.dec_tries_left().dec_tries_left();
    assert_eq!(z.tries_left(), 0);
    // The count floors at zero.
    assert_eq!(z.dec_tries_left().tries_left(), 0);
}

#[test]
fn test_notfound() {
    let store = Persistence::new();
    assert_eq!(store.get(&"xx".to_string(), 1000).expect_err("a"), Error::NotFound);
}

#[test]
fn test_expire() {
    let mut store = Persistence::new();
    let now: i64 = 5000;

    // Insert an element that will be expired after 1 second.
    let i = Item::with_ttl("uid1234".to_string(), "sol1234".to_string(), 3, 1, now);
    assert!(store.set(i, now).is_ok());

    // Check that the element exists.
    assert_eq!(store.get(&"uid1234".to_string(), now).expect("b").solution(), "sol1234");

    // Past the ttl the element is gone.
    assert_eq!(store.get(&"uid1234".to_string(), now + 2).expect_err("c"), Error::NotFound);
}

#[test]
fn test_persist() {
    let mut store = Persistence::new();
    let now: i64 = 7000;

    let i = Item::with_ttl("uid_persist".to_string(), "solp".to_string(), 3, 1, now);
    assert!(store.set(i, now).is_ok());

    assert_eq!(store.get(&"uid_persist".to_string(), now).expect("b").solution(), "solp");
}

#[test]
fn test_delete() {
    let mut store = Persistence::new();
    let now: i64 = 100;

    let i = Item::with_ttl("uidr".to_string(), "solution123".to_string(), 3, 10, now);
    assert!(store.set(i, now).is_ok());

    assert_eq!(store.get(&"uidr".to_string(), now).unwrap().solution(), "solution123");

    store.del(&"uidr".to_string());

    assert_eq!(store.get(&"uidr".to_string(), now).expect_err("e"), Error::NotFound);
}

#[test]
fn test_delete_twice_is_harmless() {
    let mut store = Persistence::new();
    let now: i64 = 100;
    let i = Item::with_ttl("gone".to_string(), "s".to_string(), 3, 10, now);
    assert!(store.set(i, now).is_ok());
    store.del(&"gone".to_string());
    store.del(&"gone".to_string());
    assert_eq!(store.get(&"gone".to_string(), now).expect_err("x"), Error::NotFound);
    // Deleting a key that never existed is equally harmless.
    store.del(&"never".to_string());
}

#[test]
fn test_set_overwrites_and_resets_ttl() {
    let mut store = Persistence::new();
    let now: i64 = 50;
    let a = Item::with_ttl("k".to_string(), "first".to_string(), 3, 10, now);
    assert!(store.set(a, now).is_ok());
    let b = Item::with_ttl("k".to_string(), "second".to_string(), 2, 10, now + 5);
    assert!(store.set(b, now + 5).is_ok());
    let got = store.get(&"k".to_string(), now + 12).unwrap();
    assert_eq!(got.solution(), "second");
    assert_eq!(got.tries_left(), 2);
}

#[test]
fn test_session_keyed_persist_and_get() {
    let mut store = Persistence::new();
    let now: i64 = 1234;
    let session = Session::from_string("a1b2c3d4e5f6g7h8i9j0".to_string()).unwrap();
    let c = Captcha {
        solution: "abc".to_string(),
        tries: 1,
        max_tries: 5,
        session: session.to_string(),
        solved: false,
    };
    assert!(persist(&c, 30, &mut store, now).is_ok());
    let back = get(
        Session::from_string("a1b2c3d4e5f6g7h8i9j0".to_string()).unwrap(),
        &store,
        now + 29,
    ).unwrap();
    assert_eq!(back.solution, "abc");
    assert_eq!(back.tries, 1);
    assert_eq!(back.max_tries, 5);
    assert_eq!(back.session, session.to_string());
    assert!(!back.solved);
    // After the lifetime has passed, the record is gone.
    assert_eq!(
        get(Session::from_string("a1b2c3d4e5f6g7h8i9j0".to_string()).unwrap(), &store, now + 30)
            .expect_err("gone"),
        PersistenceError::KeyNotFound,
    );
}

#[test]
fn test_captcha_json_roundtrip_with_escapes() {
    let c = Captcha {
        solution: "a\"b\\c\nd\te\r".to_string(),
        tries: 0,
        max_tries: 3,
        session: "s1".to_string(),
        solved: true,
    };
    let text = c.to_json();
    let back = Captcha::from_json(text).unwrap();
    assert_eq!(back.solution, c.solution);
    assert_eq!(back.tries, c.tries);
    assert_eq!(back.max_tries, c.max_tries);
    assert_eq!(back.session, c.session);
    assert_eq!(back.solved, c.solved);
}

#[test]
fn test_captcha_json_exact_text() {
    let c = Captcha {
        solution: "xy".to_string(),
        tries: 1,
        max_tries: 2,
        session: "s".to_string(),
        solved: false,
    };
    assert_eq!(
        c.to_json(),
        "{\"solution\":\"xy\",\"tries\":1,\"max_tries\":2,\"session\":\"s\",\"solved\":false}",
    );
}

#[test]
fn test_csr_json_exact_text() {
    let c = Captcha {
        solution: "xy".to_string(),
        tries: 0,
        max_tries: 2,
        session: "s".to_string(),
        solved: false,
    };
    let r = CaptchaSolutionResponse::new(&c).set_reason("Incorrect.").set_checked(true);
    assert_eq!(
        r.to_json(),
        "{\"checked\":true,\"info\":\"Incorrect.\",\"solved\":false,\"tries\":0,\"max_tries\":2}",
    );
}

#[test]
fn test_ttl_formula() {
    let i = Item::new("u".to_string(), "s".to_string(), 1, 105);
    assert_eq!(ttl(&i, 100), 5);
    // At or past the expiry moment the remaining lifetime floors at one.
    assert_eq!(ttl(&i, 105), 1);
    assert_eq!(ttl(&i, 200), 1);
}

#[test]
fn test_corrupt_payload_is_json_error() {
    let mut store = Persistence::new();
    let now: i64 = 10;
    assert!(set_key(&mut store, "X1:u-corrupt".to_string(), "not json".to_string(), 60, now)
        .is_ok());
    assert_eq!(store.get(&"u-corrupt".to_string(), now).expect_err("j"), Error::Json);
}
