//! The challenge store: a key-value map with per-key time-to-live.
//!
//! Records live under a namespaced key until their expiry moment; reading an
//! absent, deleted and expired key are indistinguishable. The store is an
//! in-process map; a network transport around it lives outside the library
//! and is handed the same serialized records.
pub mod error;
pub mod item;

use vstd::prelude::*;


pub use error::Error;
pub use item::{Item, ItemV, json_of_item, parse_item_spec};
use item::parse_item;

verus! {

pub type QueryResult = Result<Item, Error>;

/// One stored binding: a namespaced key, the serialized record, and the
/// moment the binding disappears.
struct StoreEntry {
    key: String,
    val: String,
    expires_at: i64,
}

/// What a sequence of bindings means: later bindings win.
spec fn entries_map(s: Seq<StoreEntry>) -> Map<Seq<char>, (Seq<char>, int)>
    decreases s.len(),
{
    if s.len() == 0 {
        Map::empty()
    } else {
        entries_map(s.drop_last()).insert(
            s.last().key@,
            (s.last().val@, s.last().expires_at as int),
        )
    }
}

spec fn unique_keys(s: Seq<StoreEntry>) -> bool {
    forall|i: int, j: int| 0 <= i < j < s.len() ==> s[i].key@ != s[j].key@
}

proof fn lemma_entries_map(s: Seq<StoreEntry>)
    requires
        unique_keys(s),
    ensures
        forall|k: Seq<char>| #[trigger] entries_map(s).contains_key(k) ==> exists|i: int|
            0 <= i < s.len() && s[i].key@ == k,
        forall|i: int| 0 <= i < s.len() ==> entries_map(s).contains_key(#[trigger] s[i].key@),
        forall|i: int| 0 <= i < s.len() ==> entries_map(s)[#[trigger] s[i].key@] == (
            s[i].val@,
            s[i].expires_at as int,
        ),
    decreases s.len(),
{
    if s.len() > 0 {
        let s0 = s.drop_last();
        let e = s.last();
        assert(unique_keys(s0));
        lemma_entries_map(s0);
        assert forall|i: int| 0 <= i < s.len() implies entries_map(s)[#[trigger] s[i].key@] == (
            s[i].val@,
            s[i].expires_at as int,
        ) by {
            if i < s.len() - 1 {
                assert(s0[i] == s[i]);
                assert(s[i].key@ != e.key@);
            }
        }
        assert forall|i: int| 0 <= i < s.len() implies entries_map(s).contains_key(
            #[trigger] s[i].key@,
        ) by {
            if i < s.len() - 1 {
                assert(s0[i] == s[i]);
            }
        }
        assert forall|k: Seq<char>| #[trigger] entries_map(s).contains_key(k) implies exists|i: int|
            0 <= i < s.len() && s[i].key@ == k by {
            if k == e.key@ {
                assert(s[s.len() - 1].key@ == k);
            } else {
                assert(entries_map(s0).contains_key(k));
                let i = choose|i: int| 0 <= i < s0.len() && s0[i].key@ == k;
                assert(s[i].key@ == k);
            }
        }
    }
}

proof fn lemma_entries_map_remove(s: Seq<StoreEntry>, i: int)
    requires
        unique_keys(s),
        0 <= i < s.len(),
    ensures
        unique_keys(s.remove(i)),
        entries_map(s.remove(i)) == entries_map(s).remove(s[i].key@),
    decreases s.len(),
{
    let s0 = s.drop_last();
    let e = s.last();
    if i == s.len() - 1 {
        assert(s.remove(i) =~= s0);
        assert(unique_keys(s0));
        lemma_entries_map(s0);
        if entries_map(s0).contains_key(e.key@) {
            let j = choose|j: int| 0 <= j < s0.len() && s0[j].key@ == e.key@;
            assert(s[j].key@ == s[s.len() - 1].key@);
            assert(false);
        }
        assert(entries_map(s.remove(i)) =~= entries_map(s).remove(s[i].key@));
    } else {
        assert(unique_keys(s0));
        lemma_entries_map_remove(s0, i);
        assert(s.remove(i).drop_last() =~= s0.remove(i));
        assert(s.remove(i).last() == e);
        assert(s.remove(i).len() == s.len() - 1);
        assert(entries_map(s.remove(i)) == entries_map(s0.remove(i)).insert(
            e.key@,
            (e.val@, e.expires_at as int),
        ));
        assert(s[i].key@ != e.key@);
        assert(entries_map(s0).remove(s[i].key@).insert(e.key@, (e.val@, e.expires_at as int))
            =~= entries_map(s0).insert(e.key@, (e.val@, e.expires_at as int)).remove(s[i].key@));
        assert forall|a: int, b: int| 0 <= a < b < s.remove(i).len() implies s.remove(i)[a].key@
            != s.remove(i)[b].key@ by {
            let sa = if a < i { a } else { a + 1 };
            let sb = if b < i { b } else { b + 1 };
            assert(s.remove(i)[a] == s[sa]);
            assert(s.remove(i)[b] == s[sb]);
        }
    }
}

/// The store key a challenge identifier is filed under.
pub open spec fn key_spec(k: Seq<char>) -> Seq<char> {
    ("X1:")@ + k
}

/// Files every record under a shared namespace prefix.
pub fn key(k: String) -> (r: String)
    ensures
        r@ == key_spec(k@),
{
    let mut out = String::from_str("X1:");
    out.append(k.as_str());
    out
}

/// The whole seconds a record may still live: the time left until its expiry
/// moment, and at least one.
pub open spec fn ttl_spec(expires: int, now: int) -> int {
    if expires - now > 0 {
        if expires - now > usize::MAX as int {
            usize::MAX as int
        } else {
            expires - now
        }
    } else {
        1
    }
}

/// The remaining time-to-live of a record, measured from `now`.
pub fn ttl(i: &Item, now: i64) -> (r: usize)
    ensures
        r as int == ttl_spec(i@.expires, now as int),
{
    let d: i128 = (i.expires() as i128) - (now as i128);
    if d > 0 {
        if d > usize::MAX as i128 {
            usize::MAX
        } else {
            d as usize
        }
    } else {
        1
    }
}

/// The moment a binding written at `now` disappears.
pub open spec fn store_expiry(expires: int, now: int) -> int {
    expiry_at(now, ttl_spec(expires, now))
}

/// What reading `uuid` at time `now` from store contents `m` returns.
pub open spec fn get_spec(m: Map<Seq<char>, (Seq<char>, int)>, uuid: Seq<char>, now: int) -> Result<
    ItemV,
    Error,
> {
    let k = key_spec(uuid);
    if !m.contains_key(k) {
        Err(Error::NotFound)
    } else if now >= m[k].1 {
        Err(Error::NotFound)
    } else {
        match parse_item_spec(m[k].0) {
            Some(it) => Ok(it),
            None => Err(Error::Json),
        }
    }
}

/// The in-process challenge store. Its view is the map from keys to the
/// serialized record and its expiry moment.
pub struct Persistence {
    entries: Vec<StoreEntry>,
}

impl View for Persistence {
    type V = Map<Seq<char>, (Seq<char>, int)>;

    closed spec fn view(&self) -> Map<Seq<char>, (Seq<char>, int)> {
        entries_map(self.entries@)
    }
}

impl Persistence {
    /// Internal well-formedness: one binding per key.
    pub closed spec fn wf(&self) -> bool {
        unique_keys(self.entries@)
    }

    pub fn new() -> (r: Persistence)
        ensures
            r.wf(),
            r@ == Map::<Seq<char>, (Seq<char>, int)>::empty(),
    {
        Persistence { entries: Vec::new() }
    }

    fn find(&self, key: &String) -> (r: Option<usize>)
        ensures
            r matches Some(i) ==> i < self.entries@.len() && self.entries@[i as int].key@ == key@,
            r is None ==> forall|j: int|
                0 <= j < self.entries@.len() ==> self.entries@[j].key@ != key@,
    {
        let n = self.entries.len();
        let mut j: usize = 0;
        while j < n
            invariant
                n == self.entries@.len(),
                j <= n,
                forall|m: int| 0 <= m < j ==> self.entries@[m].key@ != key@,
            decreases n - j,
        {
            if self.entries[j].key == *key {
                return Some(j);
            }
            j = j + 1;
        }
        None
    }

    fn remove_key(&mut self, key: &String)
        requires
            old(self).wf(),
        ensures
            final(self).wf(),
            final(self)@ == old(self)@.remove(key@),
            forall|j: int|
                0 <= j < final(self).entries@.len() ==> final(self).entries@[j].key@ != key@,
    {
        match self.find(key) {
            Some(idx) => {
                proof {
                    lemma_entries_map_remove(self.entries@, idx as int);
                }
                let ghost s = self.entries@;
                self.entries.remove(idx);
                proof {
                    assert forall|j: int|
                        0 <= j < self.entries@.len() implies self.entries@[j].key@ != key@ by {
                        let sj = if j < idx as int { j } else { j + 1 };
                        assert(self.entries@[j] == s[sj]);
                        if sj != idx as int {
                            assert(s[sj].key@ != s[idx as int].key@);
                        }
                    }
                }
            },
            None => {
                proof {
                    lemma_entries_map(self.entries@);
                    if entries_map(self.entries@).contains_key(key@) {
                        let i = choose|i: int|
                            0 <= i < self.entries@.len() && self.entries@[i].key@ == key@;
                        assert(false);
                    }
                    assert(entries_map(self.entries@).remove(key@) =~= entries_map(
                        self.entries@,
                    ));
                }
            },
        }
    }

    /// Writes a record, replacing any record already under its key; the
    /// time-to-live is measured afresh from `now`.
    pub fn set(&mut self, i: Item, now: i64) -> (r: Result<(), Error>)
        requires
            old(self).wf(),
        ensures
            final(self).wf(),
            r is Ok,
            final(self)@ == old(self)@.insert(
                key_spec(i@.uuid),
                (json_of_item(i@), store_expiry(i@.expires, now as int)),
            ),
    {
        let val = i.to_json();
        let t = ttl(&i, now);
        let k = key(i.uuid());
        let s: i128 = (now as i128) + (t as i128);
        let ea: i64 = if s > i64::MAX as i128 {
            i64::MAX
        } else {
            s as i64
        };
        self.set_raw(k, val, ea);
        Ok(())
    }

    /// Binds a raw key to a raw value until the moment `ea`, replacing any
    /// previous binding.
    fn set_raw(&mut self, k: String, v: String, ea: i64)
        requires
            old(self).wf(),
        ensures
            final(self).wf(),
            final(self)@ == old(self)@.insert(k@, (v@, ea as int)),
    {
        self.remove_key(&k);
        let ghost s0 = self.entries@;
        let ghost kg = k@;
        let ghost vg = v@;
        self.entries.push(StoreEntry { key: k, val: v, expires_at: ea });
        proof {
            assert(self.entries@.drop_last() =~= s0);
            assert(self.entries@.last() == self.entries@[self.entries@.len() - 1]);
            assert forall|a: int, b: int|
                0 <= a < b < self.entries@.len() implies self.entries@[a].key@
                != self.entries@[b].key@ by {
                if b == self.entries@.len() - 1 {
                    assert(self.entries@[a] == s0[a]);
                }
            }
            assert(old(self)@.remove(kg).insert(kg, (vg, ea as int)) =~= old(self)@.insert(
                kg,
                (vg, ea as int),
            ));
        }
    }

    fn lookup(&self, key: &String, now: i64) -> (r: Option<String>)
        requires
            self.wf(),
        ensures
            r matches Some(v) ==> self@.contains_key(key@) && now < self@[key@].1 && v@
                == self@[key@].0,
            r is None ==> !self@.contains_key(key@) || now >= self@[key@].1,
    {
        proof {
            lemma_entries_map(self.entries@);
        }
        match self.find(key) {
            Some(idx) => {
                let e = &self.entries[idx];
                if now < e.expires_at {
                    Some(e.val.clone())
                } else {
                    None
                }
            },
            None => {
                proof {
                    if self@.contains_key(key@) {
                        let i = choose|i: int|
                            0 <= i < self.entries@.len() && self.entries@[i].key@ == key@;
                        assert(false);
                    }
                }
                None
            },
        }
    }

    /// Reads the record stored under a challenge identifier. Absence —
    /// expired, deleted, or never written — is `NotFound`; a payload that is
    /// no record is `Json`.
    pub fn get(&self, uuid: &String, now: i64) -> (r: QueryResult)
        requires
            self.wf(),
        ensures
            r matches Ok(it) ==> get_spec(self@, uuid@, now as int) == Ok::<ItemV, Error>(it@),
            r matches Err(e) ==> get_spec(self@, uuid@, now as int) == Err::<ItemV, Error>(e),
    {
        let k = key(uuid.clone());
        parse_result(Ok(self.lookup(&k, now)))
    }

    /// Deletes whatever is stored under a challenge identifier; deleting an
    /// absent record is a no-op.
    pub fn del(&mut self, uuid: &String)
        requires
            old(self).wf(),
        ensures
            final(self).wf(),
            final(self)@ == old(self)@.remove(key_spec(uuid@)),
    {
        let k = key(uuid.clone());
        self.remove_key(&k);
    }
}

/// Round-trip persistence: a record just written is read back unchanged, and
/// stays readable at any moment before its expiry.
pub proof fn lemma_set_then_get(
    m: Map<Seq<char>, (Seq<char>, int)>,
    it: ItemV,
    now: int,
    later: int,
)
    requires
        it.tries_left <= usize::MAX as nat,
        i64::MIN <= it.expires <= i64::MAX,
        now <= later < store_expiry(it.expires, now),
    ensures
        get_spec(
            m.insert(key_spec(it.uuid), (json_of_item(it), store_expiry(it.expires, now))),
            it.uuid,
            later,
        ) == Ok::<ItemV, Error>(it),
{
    item::lemma_parse_item_roundtrip(it);
}

/// Expiry: at or after a binding's expiry moment a read reports the record
/// as absent.
pub proof fn lemma_get_after_expiry(m: Map<Seq<char>, (Seq<char>, int)>, uuid: Seq<char>, now: int)
    requires
        !m.contains_key(key_spec(uuid)) || now >= m[key_spec(uuid)].1,
    ensures
        get_spec(m, uuid, now) == Err::<ItemV, Error>(Error::NotFound),
{
}

/// Idempotent deletion: deleting a record twice leaves the store exactly as
/// deleting it once does, with the record absent; deletion reports no error.
pub proof fn lemma_del_idempotent(m: Map<Seq<char>, (Seq<char>, int)>, uuid: Seq<char>)
    ensures
        m.remove(key_spec(uuid)).remove(key_spec(uuid)) == m.remove(key_spec(uuid)),
        !m.remove(key_spec(uuid)).contains_key(key_spec(uuid)),
        get_spec(m.remove(key_spec(uuid)), uuid, 0) == Err::<ItemV, Error>(Error::NotFound),
{
    assert(m.remove(key_spec(uuid)).remove(key_spec(uuid)) =~= m.remove(key_spec(uuid)));
}

// ---------------------------------------------------------------------------
// The session-keyed store flavour: whole challenges serialized under their
// session identifier, without the namespace prefix.
// ---------------------------------------------------------------------------

#[derive(Debug, PartialEq, Eq, Structural, Clone, Copy)]
pub enum PersistenceError {
    ConnectionFailed,
    KeyNotFound,
    JsonError,
    DatabaseError,
}

/// The moment a binding written at `now` with `seconds` to live disappears.
pub open spec fn expiry_at(now: int, seconds: int) -> int {
    if now + seconds > i64::MAX as int {
        i64::MAX as int
    } else {
        now + seconds
    }
}

/// What reading a session-keyed challenge at time `now` from store contents
/// `m` returns: the parsed challenge fields, or why there are none.
pub open spec fn get_captcha_spec(
    m: Map<Seq<char>, (Seq<char>, int)>,
    key: Seq<char>,
    now: int,
) -> Result<(Seq<char>, nat, nat, Seq<char>, bool), PersistenceError> {
    if !m.contains_key(key) {
        Err(PersistenceError::KeyNotFound)
    } else if now >= m[key].1 {
        Err(PersistenceError::KeyNotFound)
    } else {
        match crate::captcha::parse_captcha_spec(m[key].0) {
            Some(t) => Ok(t),
            None => Err(PersistenceError::JsonError),
        }
    }
}

/// Stores a raw value under a raw key for `seconds` seconds from `now`.
pub fn set_key(store: &mut Persistence, k: String, v: String, seconds: usize, now: i64) -> (r:
    Result<(), PersistenceError>)
    requires
        old(store).wf(),
    ensures
        final(store).wf(),
        r is Ok,
        final(store)@ == old(store)@.insert(k@, (v@, expiry_at(now as int, seconds as int))),
{
    let s: i128 = (now as i128) + (seconds as i128);
    let ea: i64 = if s > i64::MAX as i128 {
        i64::MAX
    } else {
        s as i64
    };
    store.set_raw(k, v, ea);
    Ok(())
}

/// Deletes whatever is bound to a raw key; deleting an absent binding is a
/// no-op.
pub(crate) fn del_key(store: &mut Persistence, k: &String)
    requires
        old(store).wf(),
    ensures
        final(store).wf(),
        final(store)@ == old(store)@.remove(k@),
{
    store.remove_key(k);
}

/// Rewrites the value bound to a raw key, leaving its expiry moment as it
/// is: the expiry clock is preserved, not reset.
pub(crate) fn update_key(store: &mut Persistence, k: String, v: String)
    requires
        old(store).wf(),
        old(store)@.contains_key(k@),
    ensures
        final(store).wf(),
        final(store)@ == old(store)@.insert(k@, (v@, old(store)@[k@].1)),
{
    proof {
        lemma_entries_map(store.entries@);
    }
    match store.find(&k) {
        Some(idx) => {
            let ea = store.entries[idx].expires_at;
            store.set_raw(k, v, ea);
        },
        None => {
            proof {
                let i = choose|i: int|
                    0 <= i < store.entries@.len() && store.entries@[i].key@ == k@;
                assert(false);
            }
        },
    }
}

/// Reads a stored payload back as a challenge.
fn decode_json(json: String) -> (r: Result<crate::captcha::Captcha, PersistenceError>)
    ensures
        r matches Ok(c) ==> crate::captcha::parse_captcha_spec(json@) == Some(
            (c.solution@, c.tries as nat, c.max_tries as nat, c.session@, c.solved),
        ),
        r matches Err(e) ==> e == PersistenceError::JsonError && crate::captcha::parse_captcha_spec(
            json@,
        ) is None,
{
    match crate::captcha::Captcha::from_json(json) {
        Some(c) => Ok(c),
        None => Err(PersistenceError::JsonError),
    }
}

/// Reads the challenge stored under a raw session key.
fn get_key(store: &Persistence, session: String, now: i64) -> (r: Result<
    crate::captcha::Captcha,
    PersistenceError,
>)
    requires
        store.wf(),
    ensures
        r matches Ok(c) ==> get_captcha_spec(store@, session@, now as int) == Ok::<
            (Seq<char>, nat, nat, Seq<char>, bool),
            PersistenceError,
        >((c.solution@, c.tries as nat, c.max_tries as nat, c.session@, c.solved)),
        r matches Err(e) ==> get_captcha_spec(store@, session@, now as int) == Err::<
            (Seq<char>, nat, nat, Seq<char>, bool),
            PersistenceError,
        >(e),
{
    match store.lookup(&session, now) {
        Some(v) => decode_json(v),
        None => Err(PersistenceError::KeyNotFound),
    }
}

/// Fetches the challenge of a session, or why there is none.
pub fn get(session: crate::session::Session, store: &Persistence, now: i64) -> (r: Result<
    crate::captcha::Captcha,
    PersistenceError,
>)
    requires
        store.wf(),
    ensures
        r matches Ok(c) ==> get_captcha_spec(store@, session@, now as int) == Ok::<
            (Seq<char>, nat, nat, Seq<char>, bool),
            PersistenceError,
        >((c.solution@, c.tries as nat, c.max_tries as nat, c.session@, c.solved)),
        r matches Err(e) ==> get_captcha_spec(store@, session@, now as int) == Err::<
            (Seq<char>, nat, nat, Seq<char>, bool),
            PersistenceError,
        >(e),
{
    get_key(store, session.to_string(), now)
}

/// Writes a challenge under its session key, alive for `expire` seconds.
pub fn persist(c: &crate::captcha::Captcha, expire: usize, store: &mut Persistence, now: i64) -> (r:
    Result<(), PersistenceError>)
    requires
        old(store).wf(),
    ensures
        final(store).wf(),
        r is Ok,
        final(store)@ == old(store)@.insert(
            c.session@,
            (
                crate::captcha::json_of_captcha(
                    c.solution@,
                    c.tries as nat,
                    c.max_tries as nat,
                    c.session@,
                    c.solved,
                ),
                expiry_at(now as int, expire as int),
            ),
        ),
{
    let k = c.session.clone();
    set_key(store, k, crate::captcha::CaptchaToJson::to_json(c), expire, now)
}

/// Reads a stored payload as a record.
pub fn parse_string(val: String) -> (r: QueryResult)
    ensures
        r matches Ok(it) ==> parse_item_spec(val@) == Some(it@),
        r matches Err(e) ==> e == Error::Json && parse_item_spec(val@) is None,
{
    match parse_item(val.as_str()) {
        Some(i) => Ok(i),
        None => Err(Error::Json),
    }
}

/// An absent payload is `NotFound`; a present one is read as a record.
pub fn parse_option(o: Option<String>) -> (r: QueryResult)
    ensures
        o is None ==> r == Err::<Item, Error>(Error::NotFound),
        o matches Some(v) ==> ((r matches Ok(it) ==> parse_item_spec(v@) == Some(it@)) && (
        r matches Err(e) ==> e == Error::Json && parse_item_spec(v@) is None)),
{
    match o {
        Some(v) => parse_string(v),
        None => Err(Error::NotFound),
    }
}

/// Maps a transport answer to a record: any transport failure is
/// `Connection`.
pub fn parse_result(r: Result<Option<String>, Error>) -> (q: QueryResult)
    ensures
        r matches Err(_) ==> q == Err::<Item, Error>(Error::Connection),
        r == Ok::<Option<String>, Error>(None::<String>) ==> q == Err::<Item, Error>(
            Error::NotFound,
        ),
        r matches Ok(Some(v)) ==> ((q matches Ok(it) ==> parse_item_spec(v@) == Some(it@)) && (
        q matches Err(e) ==> e == Error::Json && parse_item_spec(v@) is None)),
{
    match r {
        Ok(o) => parse_option(o),
        Err(_) => Err(Error::Connection),
    }
}

} // verus!
