//! Sessions: a map from an opaque token to the user it stands for and the
//! instant it expires. A record whose expiry has come is never reported as
//! active, whether or not it has been evicted yet.

use std::collections::HashMap;
use vstd::prelude::*;
use vstd::std_specs::hash::*;
use crate::request::{ascii, find_header, header_pairs, literal, lookup, Header, Request};

verus! {

broadcast use {
    axiom_u128_obeys_hash_table_key_model,
    axiom_random_state_builds_valid_hashers,
    axiom_contains_deref_key,
    axiom_maps_deref_key_to_value,
    axiom_deref_key_removed,
};

/// How long a session lasts unless configured otherwise: one hour.
pub const DEFAULT_TTL_MILLIS: u64 = 3600000;

/// What a session token stands for: a user, until an instant given in
/// milliseconds since the Unix epoch.
#[derive(Clone, Debug)]
pub struct SessionUser {
    pub user_id: String,
    pub expire: i64,
}

/// Why a request is not authenticated.
#[derive(Clone, Copy, Debug, PartialEq, Eq, Structural)]
pub enum SessionError {
    /// The request has no `authority` header.
    MissingAuthority,
    /// No active session has that token.
    UnknownAuthority,
    /// The session with this token has expired.
    Expired(u128),
}

impl SessionError {
    /// The text that the error response carries as its internal message.
    pub fn message(&self) -> (r: &'static str)
        ensures
            r@ == self.message_spec(),
    {
        match self {
            SessionError::MissingAuthority => "No Authority in header",
            SessionError::UnknownAuthority => "No user associated with Authority",
            SessionError::Expired(_) => "Authority expired",
        }
    }

    /// What `message` gives.
    pub open spec fn message_spec(&self) -> Seq<char> {
        match self {
            SessionError::MissingAuthority => "No Authority in header"@,
            SessionError::UnknownAuthority => "No user associated with Authority"@,
            SessionError::Expired(_) => "Authority expired"@,
        }
    }
}

/// The expiry of a session issued at `now`: `now + ttl`, held at the
/// largest instant where that sum would overflow.
pub open spec fn expiry_of(now: i64, ttl: u64) -> i64 {
    if now + ttl <= i64::MAX {
        (now + ttl) as i64
    } else {
        i64::MAX
    }
}

/// What a lookup of `token` at `now` finds in `records`: the user of an
/// unexpired record, or why there is none.
pub open spec fn session_check(records: Map<u128, SessionUser>, token: u128, now: i64) -> Result<
    Seq<char>,
    SessionError,
> {
    if !records.contains_key(token) {
        Err(SessionError::UnknownAuthority)
    } else if records[token].expire <= now {
        Err(SessionError::Expired(token))
    } else {
        Ok(records[token].user_id@)
    }
}

/// The records after a check that came to `outcome`: a record found
/// expired is evicted, and all else stays as it was.
pub open spec fn records_after(
    records: Map<u128, SessionUser>,
    outcome: Result<Seq<char>, SessionError>,
) -> Map<u128, SessionUser> {
    match outcome {
        Err(SessionError::Expired(t)) => records.remove(t),
        _ => records,
    }
}

/// The `j`-th token from `start` on, counting past the largest back to 0.
pub open spec fn probe(start: u128, j: int) -> u128 {
    if start + j <= u128::MAX {
        (start + j) as u128
    } else {
        (start + j - u128::MAX - 1) as u128
    }
}

/// The token that a text of the `authority` header names, as the uuid
/// crate reads it.
pub uninterp spec fn token_of_text(text: Seq<u8>) -> Option<u128>;

/// The text of a token, as the uuid crate writes it.
pub uninterp spec fn token_text_of(token: u128) -> Seq<char>;

/// Relies on `chrono::Utc::now` and `DateTime::timestamp_millis`: the
/// current instant in milliseconds since the Unix epoch.
#[verifier::external_body]
pub(crate) fn now_millis() -> i64 {
    chrono::Utc::now().timestamp_millis()
}

/// Relies on `uuid::Uuid::new_v4`: a random token.
#[verifier::external_body]
pub(crate) fn fresh_token() -> u128 {
    uuid::Uuid::new_v4().as_u128()
}

/// Relies on `uuid::Uuid::try_parse_ascii`: the token that a text names, if
/// it is one.
#[verifier::external_body]
fn parse_token(text: &[u8]) -> (r: Option<u128>)
    ensures
        r == token_of_text(text@),
{
    match uuid::Uuid::try_parse_ascii(text) {
        Ok(u) => Some(u.as_u128()),
        Err(_) => None,
    }
}

/// Relies on the `Display` of `uuid::Uuid`: the hyphenated text of a token,
/// which `Uuid::try_parse_ascii` reads back as the same token.
#[verifier::external_body]
pub(crate) fn token_text(token: u128) -> (r: String)
    ensures
        r@ == token_text_of(token),
        token_of_text(vstd::utf8::encode_utf8(r@)) == Some(token),
{
    uuid::Uuid::from_u128(token).to_string()
}

/// The session map, with the lifetime given to each new session.
pub struct SessionStore {
    sessions: HashMap<u128, SessionUser>,
    ttl: u64,
}

impl SessionStore {
    /// The records, active or expired, by token.
    pub closed spec fn records(&self) -> Map<u128, SessionUser> {
        self.sessions@
    }

    /// The lifetime of a new session, in milliseconds.
    pub closed spec fn ttl_spec(&self) -> u64 {
        self.ttl
    }

    /// An empty store whose sessions last `ttl` milliseconds.
    pub fn with_ttl(ttl: u64) -> (r: Self)
        ensures
            r.records() == Map::<u128, SessionUser>::empty(),
            r.ttl_spec() == ttl,
    {
        SessionStore { sessions: HashMap::new(), ttl }
    }

    /// An empty store whose sessions last one hour.
    pub fn new() -> (r: Self)
        ensures
            r.records() == Map::<u128, SessionUser>::empty(),
            r.ttl_spec() == DEFAULT_TTL_MILLIS,
    {
        Self::with_ttl(DEFAULT_TTL_MILLIS)
    }

    pub fn ttl(&self) -> (r: u64)
        ensures
            r == self.ttl_spec(),
    {
        self.ttl
    }

    /// Stores a session for `user_id` under `token`, issued at `now`.
    pub fn issue(&mut self, token: u128, user_id: String, now: i64)
        ensures
            final(self).records() == old(self).records().insert(
                token,
                SessionUser { user_id, expire: expiry_of(now, old(self).ttl_spec()) },
            ),
            final(self).ttl_spec() == old(self).ttl_spec(),
    {
        let expire = match now.checked_add_unsigned(self.ttl) {
            Some(e) => e,
            None => i64::MAX,
        };
        self.sessions.insert(token, SessionUser { user_id, expire });
    }

    /// Issues a session for `user_id` under a fresh random token that no
    /// record holds yet, from now on; gives the token.
    pub fn issue_session(&mut self, user_id: String) -> (r: u128)
        ensures
            !old(self).records().contains_key(r),
            exists|now: i64|
                final(self).records() == old(self).records().insert(
                    r,
                    SessionUser { user_id, expire: #[trigger] expiry_of(now, old(self).ttl_spec()) },
                ),
            final(self).ttl_spec() == old(self).ttl_spec(),
    {
        let token = self.unused_token(fresh_token());
        let now = now_millis();
        self.issue(token, user_id, now);
        token
    }

    /// The first token from `start` on that no record holds. Of `n` records,
    /// one of `start` to `start + n` is free; a random `start` collides with
    /// a stored token only by chance, and then the next free one is taken.
    pub fn unused_token(&self, start: u128) -> (r: u128)
        ensures
            !self.records().contains_key(r),
    {
        let n = self.sessions.len();
        let mut k: usize = 0;
        let mut t: u128 = start;
        let ghost mut tried: Seq<u128> = seq![];
        while self.sessions.contains_key(&t)
            invariant
                n == self.records().len(),
                k <= n,
                t == probe(start, k as int),
                tried.len() == k,
                forall|j: int| 0 <= j < k ==> #[trigger] tried[j] == probe(start, j),
                forall|j: int| 0 <= j < k ==> self.records().contains_key(#[trigger] tried[j]),
            decreases n - k,
        {
            proof {
                let next = tried.push(t);
                assert forall|a: int, b: int| 0 <= a < next.len() && 0 <= b < next.len() && a != b
                    implies next[a] != next[b] by {
                    assert(next[a] == probe(start, a));
                    assert(next[b] == probe(start, b));
                }
                assert(next.no_duplicates());
                next.unique_seq_to_set();
                assert(next.to_set().subset_of(self.records().dom()));
                vstd::set_lib::lemma_len_subset(next.to_set(), self.records().dom());
                tried = next;
            }
            k = k + 1;
            t = if t == u128::MAX {
                0
            } else {
                t + 1
            };
        }
        t
    }

    /// The user of the session `token` at `now`: unknown where there is no
    /// record, expired where its expiry is at or before `now`.
    pub fn check(&self, token: u128, now: i64) -> (r: Result<String, SessionError>)
        ensures
            match r {
                Ok(u) => session_check(self.records(), token, now) == Ok::<Seq<char>, SessionError>(u@),
                Err(e) => session_check(self.records(), token, now) == Err::<Seq<char>, SessionError>(e),
            },
    {
        match self.sessions.get(&token) {
            None => Err(SessionError::UnknownAuthority),
            Some(s) => {
                if s.expire <= now {
                    Err(SessionError::Expired(token))
                } else {
                    Ok(s.user_id.clone())
                }
            },
        }
    }

    /// Removes the record of `token`, if any.
    pub fn evict(&mut self, token: u128)
        ensures
            final(self).records() == old(self).records().remove(token),
            final(self).ttl_spec() == old(self).ttl_spec(),
    {
        self.sessions.remove(&token);
    }

    /// As `check`, and an expired record is evicted on the way.
    pub fn validate(&mut self, token: u128, now: i64) -> (r: Result<String, SessionError>)
        ensures
            match r {
                Ok(u) => session_check(old(self).records(), token, now) == Ok::<Seq<char>, SessionError>(u@),
                Err(e) => session_check(old(self).records(), token, now) == Err::<Seq<char>, SessionError>(e),
            },
            final(self).records() == records_after(
                old(self).records(),
                session_check(old(self).records(), token, now),
            ),
            final(self).ttl_spec() == old(self).ttl_spec(),
    {
        let r = self.check(token, now);
        if let Err(SessionError::Expired(t)) = r {
            self.evict(t);
        }
        r
    }

    /// As `validate`, at the current instant.
    pub fn validate_now(&mut self, token: u128) -> (r: Result<String, SessionError>)
        ensures
            exists|now: i64|
                #![trigger session_check(old(self).records(), token, now)]
                match r {
                    Ok(u) => session_check(old(self).records(), token, now) == Ok::<Seq<char>, SessionError>(u@),
                    Err(e) => session_check(old(self).records(), token, now) == Err::<Seq<char>, SessionError>(e),
                } && final(self).records() == records_after(
                    old(self).records(),
                    session_check(old(self).records(), token, now),
                ),
            final(self).ttl_spec() == old(self).ttl_spec(),
    {
        let now = now_millis();
        self.validate(token, now)
    }
}


/// The value of the `authority` header among `headers`.
pub open spec fn authority_of(headers: Seq<Header>) -> Option<Seq<u8>> {
    lookup(header_pairs(headers), ascii("authority"@))
}

/// Who a request with `headers` speaks for at `now`, given the session
/// `records`.
pub open spec fn authenticated(
    records: Map<u128, SessionUser>,
    headers: Seq<Header>,
    now: i64,
) -> Result<Seq<char>, SessionError> {
    match authority_of(headers) {
        None => Err(SessionError::MissingAuthority),
        Some(text) => match token_of_text(text) {
            None => Err(SessionError::UnknownAuthority),
            Some(token) => session_check(records, token, now),
        },
    }
}

/// The session token that the request's `authority` header names.
pub fn authority_token(req: &Request) -> (r: Result<u128, SessionError>)
    ensures
        match r {
            Ok(t) => authority_of(req.headers@) matches Some(v) && token_of_text(v) == Some(t),
            Err(e) => match authority_of(req.headers@) {
                None => e == SessionError::MissingAuthority,
                Some(v) => token_of_text(v) is None && e == SessionError::UnknownAuthority,
            },
        },
{
    proof {
        reveal_strlit("authority");
    }
    match find_header(&req.headers, literal("authority")) {
        None => Err(SessionError::MissingAuthority),
        Some(k) => match parse_token(req.headers[k].value.as_slice()) {
            None => Err(SessionError::UnknownAuthority),
            Some(t) => Ok(t),
        },
    }
}

/// The user that the request's session stands for at `now`, without
/// touching the store: an expired session is reported with its token.
pub fn check_user_id(req: &Request, store: &SessionStore, now: i64) -> (r: Result<
    String,
    SessionError,
>)
    ensures
        match r {
            Ok(u) => authenticated(store.records(), req.headers@, now) == Ok::<Seq<char>, SessionError>(u@),
            Err(e) => authenticated(store.records(), req.headers@, now) == Err::<Seq<char>, SessionError>(e),
        },
{
    let token = authority_token(req)?;
    store.check(token, now)
}

/// As `check_user_id`, at the current instant.
pub fn check_user_id_now(req: &Request, store: &SessionStore) -> (r: Result<String, SessionError>)
    ensures
        exists|now: i64|
            #![trigger authenticated(store.records(), req.headers@, now)]
            match r {
                Ok(u) => authenticated(store.records(), req.headers@, now) == Ok::<Seq<char>, SessionError>(u@),
                Err(e) => authenticated(store.records(), req.headers@, now) == Err::<Seq<char>, SessionError>(e),
            },
{
    let now = now_millis();
    check_user_id(req, store, now)
}

/// The user that the request's session stands for at `now`. A session
/// found expired is evicted, and the request is refused.
pub fn extract_user_id(req: &Request, store: &mut SessionStore, now: i64) -> (r: Result<
    String,
    SessionError,
>)
    ensures
        match r {
            Ok(u) => authenticated(old(store).records(), req.headers@, now) == Ok::<Seq<char>, SessionError>(u@),
            Err(e) => authenticated(old(store).records(), req.headers@, now) == Err::<Seq<char>, SessionError>(e),
        },
        final(store).records() == records_after(
            old(store).records(),
            authenticated(old(store).records(), req.headers@, now),
        ),
        final(store).ttl_spec() == old(store).ttl_spec(),
{
    let token = authority_token(req)?;
    store.validate(token, now)
}

/// As `extract_user_id`, at the current instant.
pub fn extract_user_id_now(req: &Request, store: &mut SessionStore) -> (r: Result<
    String,
    SessionError,
>)
    ensures
        exists|now: i64|
            #![trigger authenticated(old(store).records(), req.headers@, now)]
            match r {
                Ok(u) => authenticated(old(store).records(), req.headers@, now) == Ok::<Seq<char>, SessionError>(u@),
                Err(e) => authenticated(old(store).records(), req.headers@, now) == Err::<Seq<char>, SessionError>(e),
            } && final(store).records() == records_after(
                old(store).records(),
                authenticated(old(store).records(), req.headers@, now),
            ),
        final(store).ttl_spec() == old(store).ttl_spec(),
{
    let now = now_millis();
    extract_user_id(req, store, now)
}

/// A session issued at `now` with lifetime `ttl` stands for its user at
/// every instant before its expiry, and is expired, and evicted when
/// checked, from that instant on;
/// its expiry is `now + ttl` wherever that sum is an instant.
pub proof fn lemma_session_lifetime(
    records: Map<u128, SessionUser>,
    token: u128,
    user_id: String,
    now: i64,
    ttl: u64,
    at: i64,
)
    ensures
        ({
            let after = records.insert(token, SessionUser { user_id, expire: expiry_of(now, ttl) });
            &&& at < expiry_of(now, ttl) ==> session_check(after, token, at) == Ok::<
                Seq<char>,
                SessionError,
            >(user_id@)
            &&& at >= expiry_of(now, ttl) ==> session_check(after, token, at) == Err::<
                Seq<char>,
                SessionError,
            >(SessionError::Expired(token))
            &&& at >= expiry_of(now, ttl) ==> !records_after(
                after,
                session_check(after, token, at),
            ).contains_key(token)
        }),
        now + ttl <= i64::MAX ==> expiry_of(now, ttl) == now + ttl,
{
}

} // verus!
