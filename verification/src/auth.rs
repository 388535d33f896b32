//! JWT authentication for the App Store Connect API.
//!
//! Tokens are ES256-signed JWTs with header `{"alg": "ES256", "kid": <key id>, "typ": "JWT"}`
//! and claims `{"iss": <issuer id>, "iat": <now>, "exp": <now + 20 min>, "aud": "appstoreconnect-v1"}`.
//! A token is cached and served again for 15 minutes after it was issued.

use std::time::Instant;
use vstd::prelude::*;

verus! {

/// How long a cached token is served, in milliseconds (15 minutes).
/// Apple allows 20 minutes at most; the remaining 5 minutes are a safety margin.
pub const TOKEN_LIFETIME_MS: u64 = 900_000;

/// Seconds between the `iat` and the `exp` claim of an issued token (20 minutes).
pub const TOKEN_VALIDITY_SECS: i64 = 1200;

/// Errors that can occur during authentication.
#[derive(Debug)]
pub enum AuthError {
    /// A required environment variable is missing.
    MissingEnvVar(String),
    /// Failed to read the key file from disk.
    KeyReadError(String),
    /// The key data could not be parsed as a valid PEM EC key.
    InvalidKey(String),
    /// JWT encoding failed.
    EncodingError(String),
}

/// The human-readable description of an [`AuthError`].
pub open spec fn auth_error_text(e: AuthError) -> Seq<char> {
    match e {
        AuthError::MissingEnvVar(v) => "missing environment variable: "@ + v@,
        AuthError::KeyReadError(v) => "failed to read key file: "@ + v@,
        AuthError::InvalidKey(v) => "invalid key data: "@ + v@,
        AuthError::EncodingError(v) => "jwt encoding failed: "@ + v@,
    }
}

impl AuthError {
    /// Describes the error, e.g. `missing environment variable: ASC_KEY_ID`.
    pub fn message(&self) -> (res: String)
        ensures
            res@ == auth_error_text(*self),
    {
        match self {
            AuthError::MissingEnvVar(v) => String::from_str("missing environment variable: ").concat(v.as_str()),
            AuthError::KeyReadError(v) => String::from_str("failed to read key file: ").concat(v.as_str()),
            AuthError::InvalidKey(v) => String::from_str("invalid key data: ").concat(v.as_str()),
            AuthError::EncodingError(v) => String::from_str("jwt encoding failed: ").concat(v.as_str()),
        }
    }
}

/// The claims of an App Store Connect token.
pub struct JwtClaims {
    /// Issuer: the issuer id of the API key.
    pub iss: String,
    /// Issued-at time, in seconds since the Unix epoch.
    pub iat: i64,
    /// Expiry time, in seconds since the Unix epoch.
    pub exp: i64,
    /// Audience: always `appstoreconnect-v1`.
    pub aud: String,
}

#[verifier::external_type_specification]
#[verifier::external_body]
pub struct ExEncodingKey(jsonwebtoken::EncodingKey);

#[verifier::external_type_specification]
#[verifier::external_body]
pub struct ExJwtError(jsonwebtoken::errors::Error);

#[verifier::external_type_specification]
#[verifier::external_body]
pub struct ExInstant(Instant);

/// Whether `jsonwebtoken::EncodingKey::from_ec_pem` accepts the given bytes as a
/// PEM-encoded private EC key.
pub uninterp spec fn ec_pem_accepted(pem: Seq<u8>) -> bool;

/// The signing input `base64url(header JSON) + "." + base64url(claims JSON)` that
/// `jsonwebtoken::encode` signs for an ES256 header with key id `kid` and the given claims.
pub uninterp spec fn jwt_signing_input(kid: Seq<char>, iss: Seq<char>, iat: i64, exp: i64, aud: Seq<char>) -> Seq<char>;

/// Number of `'.'` characters in `s`.
pub open spec fn dot_count(s: Seq<char>) -> nat
    decreases s.len(),
{
    if s.len() == 0 {
        0
    } else {
        dot_count(s.drop_last()) + if s.last() == '.' { 1nat } else { 0nat }
    }
}

/// `token` is the signing input followed by `.` and a signature segment without dots,
/// and the signing input itself holds exactly one dot.
pub open spec fn signed_token_shape(token: Seq<char>, input: Seq<char>) -> bool {
    &&& dot_count(input) == 1
    &&& token.len() > input.len()
    &&& token.take(input.len() as int) == input
    &&& token[input.len() as int] == '.'
    &&& dot_count(token.skip(input.len() as int + 1)) == 0
}

/// The bytes of `-----BEGIN `, which opens the framing of every PEM block.
pub open spec fn pem_begin_marker() -> Seq<u8> {
    seq![45u8, 45u8, 45u8, 45u8, 45u8, 66u8, 69u8, 71u8, 73u8, 78u8, 32u8]
}

/// Whether `b` holds the PEM opening marker somewhere.
pub open spec fn has_pem_begin(b: Seq<u8>) -> bool {
    exists|i: int| 0 <= i && i + 11 <= b.len() && #[trigger] b.subrange(i, i + 11) == pem_begin_marker()
}

/// Calls `jsonwebtoken::EncodingKey::from_ec_pem`. The contract claims that the call succeeds
/// exactly on the inputs named by [`ec_pem_accepted`] (its outcome depends on the bytes alone),
/// and that bytes without the PEM opening marker are rejected (the `pem` crate's framing parser
/// finds no block in them).
#[verifier::external_body]
fn ec_key_from_pem(pem: &[u8]) -> (res: Result<jsonwebtoken::EncodingKey, jsonwebtoken::errors::Error>)
    ensures
        res is Ok <==> ec_pem_accepted(pem@),
        !has_pem_begin(pem@) ==> res is Err,
{
    jsonwebtoken::EncodingKey::from_ec_pem(pem)
}

/// Calls `Display::to_string` on a `jsonwebtoken` error. Nothing is claimed of the text.
#[verifier::external_body]
fn jwt_error_text(e: &jsonwebtoken::errors::Error) -> String {
    e.to_string()
}

/// Calls `jsonwebtoken::encode` with an ES256 header carrying `kid` and the claims as a
/// JSON object. The source builds the token as the signing input, a dot and the base64url
/// signature; base64url text holds no dots. The contract claims that shape of every
/// successful result; the signature itself depends on a random nonce and is not named,
/// and nothing is claimed of when the call fails.
#[verifier::external_body]
fn jwt_encode_es256(kid: &str, claims: &JwtClaims, key: &jsonwebtoken::EncodingKey) -> (res: Result<String, jsonwebtoken::errors::Error>)
    ensures
        res matches Ok(t) ==> signed_token_shape(t@, jwt_signing_input(kid@, claims.iss@, claims.iat, claims.exp, claims.aud@)),
{
    let mut header = jsonwebtoken::Header::new(jsonwebtoken::Algorithm::ES256);
    header.kid = Some(kid.to_string());
    let mut map = serde_json::Map::new();
    map.insert("iss".to_string(), serde_json::Value::from(claims.iss.as_str()));
    map.insert("iat".to_string(), serde_json::Value::from(claims.iat));
    map.insert("exp".to_string(), serde_json::Value::from(claims.exp));
    map.insert("aud".to_string(), serde_json::Value::from(claims.aud.as_str()));
    jsonwebtoken::encode(&header, &map, key)
}

/// Calls `chrono::Utc::now().timestamp()`. The result is the wall clock; the contract claims
/// only the range of `chrono::DateTime<Utc>` (years -262143 to 262143), which lies within ±2^43 s.
#[verifier::external_body]
fn unix_now_secs() -> (res: i64)
    ensures
        -0x800_0000_0000 < res < 0x800_0000_0000,
{
    chrono::Utc::now().timestamp()
}

/// Calls `std::time::Instant::now`. Nothing is claimed of the reading.
#[verifier::external_body]
fn instant_now() -> Instant {
    Instant::now()
}

/// Calls `Instant::elapsed`: the time elapsed since `origin`. Nothing is claimed of the reading.
#[verifier::external_body]
fn elapsed_since(origin: &Instant) -> std::time::Duration {
    origin.elapsed()
}

/// Calls `Duration::as_millis`. Nothing is claimed of the result.
#[verifier::external_body]
fn duration_millis(d: std::time::Duration) -> u128 {
    d.as_millis()
}

/// A token together with the instant (in milliseconds on the credentials' monotonic clock)
/// at which it was stored, and the wall-clock second it was issued at.
struct CachedToken {
    /// The cached JWT.
    token: String,
    /// When it was stored, in milliseconds since the credentials were created.
    created_at_ms: u64,
    /// Its `iat` claim, in seconds since the Unix epoch.
    issued_at: Ghost<i64>,
}

/// Whether a token stored at `created_at_ms` is still served at `now_ms`.
pub open spec fn is_fresh(created_at_ms: u64, now_ms: u64) -> bool {
    now_ms < created_at_ms + TOKEN_LIFETIME_MS
}

/// App Store Connect API credentials for JWT generation.
pub struct Credentials {
    key_id: String,
    issuer_id: String,
    key_pem: Vec<u8>,
    origin: Instant,
    cache: Option<CachedToken>,
}

/// The signing input of a token issued at `iat` for the given key id and issuer.
pub open spec fn token_signing_input(kid: Seq<char>, iss: Seq<char>, iat: i64) -> Seq<char> {
    jwt_signing_input(kid, iss, iat, (iat + TOKEN_VALIDITY_SECS) as i64, "appstoreconnect-v1"@)
}

/// Whether `token` is a signed token of the key id `kid` and issuer `iss`, issued at some time.
pub open spec fn issued_token(token: Seq<char>, kid: Seq<char>, iss: Seq<char>) -> bool {
    exists|iat: i64| #[trigger] signed_token_shape(token, token_signing_input(kid, iss, iat))
}

/// One call of [`Credentials::token`] that read `now_ms` from the monotonic clock before
/// looking at the cache, `unix_now` from the wall clock before signing, and `stamp_ms` from the
/// monotonic clock after signing, taking `before` to `after` and returning `res`.
pub open spec fn token_step(
    before: Credentials,
    after: Credentials,
    res: Result<String, AuthError>,
    now_ms: u64,
    unix_now: i64,
    stamp_ms: u64,
) -> bool {
    &&& after.same_identity(&before)
    &&& after.cached_token_signed()
    &&& match before.cache_hit(now_ms) {
        Some(t) => {
            &&& res matches Ok(r) && r@ == t
            &&& after.cache() == before.cache()
        },
        None => match res {
            Ok(t) => {
                &&& has_pem_begin(before.key_pem())
                &&& ec_pem_accepted(before.key_pem())
                &&& signed_token_shape(t@, before.signing_input_at(unix_now))
                &&& after.cache() == Some((t@, stamp_ms, unix_now))
            },
            Err(e) => {
                &&& after.cache() == before.cache()
                &&& (e is InvalidKey <==> !ec_pem_accepted(before.key_pem()))
                &&& (!has_pem_begin(before.key_pem()) ==> e is InvalidKey)
                &&& (e is InvalidKey || e is EncodingError)
            },
        },
    }
}

impl Credentials {
    /// The cached token was signed with these credentials at its recorded `iat`.
    #[verifier::type_invariant]
    spec fn cache_holds_issued_token(self) -> bool {
        self.cache matches Some(c) ==> signed_token_shape(
            c.token@,
            token_signing_input(self.key_id@, self.issuer_id@, c.issued_at@),
        )
    }

    /// The Key ID from App Store Connect.
    pub closed spec fn key_id(&self) -> Seq<char> {
        self.key_id@
    }

    /// The Issuer ID from App Store Connect.
    pub closed spec fn issuer_id(&self) -> Seq<char> {
        self.issuer_id@
    }

    /// The PEM-encoded ES256 key bytes.
    pub closed spec fn key_pem(&self) -> Seq<u8> {
        self.key_pem@
    }

    /// The cached token, the instant it was stored and its `iat` claim, if a token is cached.
    pub closed spec fn cache(&self) -> Option<(Seq<char>, u64, i64)> {
        match self.cache {
            Some(c) => Some((c.token@, c.created_at_ms, c.issued_at@)),
            None => None,
        }
    }

    /// The token served from the cache at `now_ms`, if the cache holds a fresh one.
    pub open spec fn cache_hit(&self, now_ms: u64) -> Option<Seq<char>> {
        match self.cache() {
            Some((t, c, _)) => if is_fresh(c, now_ms) { Some(t) } else { None },
            None => None,
        }
    }

    /// The signing input of the token issued at `unix_now` with these credentials.
    pub open spec fn signing_input_at(&self, unix_now: i64) -> Seq<char> {
        token_signing_input(self.key_id(), self.issuer_id(), unix_now)
    }

    /// A cached token is a token of these credentials signed at its recorded `iat`.
    pub open spec fn cached_token_signed(&self) -> bool {
        self.cache() matches Some((t, _, iat)) ==> signed_token_shape(t, self.signing_input_at(iat))
    }

    /// The key id, issuer id and key of `self` and `other` are the same.
    pub open spec fn same_identity(&self, other: &Credentials) -> bool {
        &&& self.key_id() == other.key_id()
        &&& self.issuer_id() == other.issuer_id()
        &&& self.key_pem() == other.key_pem()
    }

    /// Creates credentials from explicit values, with an empty token cache.
    pub fn new(key_id: String, issuer_id: String, key_pem: Vec<u8>) -> (res: Self)
        ensures
            res.key_id() == key_id@,
            res.issuer_id() == issuer_id@,
            res.key_pem() == key_pem@,
            res.cache() is None,
    {
        Credentials { key_id, issuer_id, key_pem, origin: instant_now(), cache: None }
    }

    /// The instant at which the cached token was stored, if a token is cached.
    pub fn cached_at_ms(&self) -> (res: Option<u64>)
        ensures
            res == (match self.cache() { Some((_, c, _)) => Some(c), None => None::<u64> }),
    {
        match &self.cache {
            Some(c) => Some(c.created_at_ms),
            None => None,
        }
    }

    /// Issues a fresh JWT for the wall-clock time `unix_now` (not cached).
    fn generate_token(&self, unix_now: i64) -> (res: Result<String, AuthError>)
        requires
            unix_now <= i64::MAX - TOKEN_VALIDITY_SECS,
        ensures
            res matches Ok(t) ==> signed_token_shape(t@, self.signing_input_at(unix_now)),
            res is Ok ==> ec_pem_accepted(self.key_pem()) && has_pem_begin(self.key_pem()),
            !ec_pem_accepted(self.key_pem()) ==> res matches Err(AuthError::InvalidKey(_)),
            !has_pem_begin(self.key_pem()) ==> res matches Err(AuthError::InvalidKey(_)),
            res matches Err(e) ==> (e is InvalidKey <==> !ec_pem_accepted(self.key_pem())),
            res matches Err(e) ==> (e is InvalidKey || e is EncodingError),
    {
        let claims = JwtClaims {
            iss: self.issuer_id.clone(),
            iat: unix_now,
            exp: unix_now + TOKEN_VALIDITY_SECS,
            aud: String::from_str("appstoreconnect-v1"),
        };
        let key = match ec_key_from_pem(self.key_pem.as_slice()) {
            Ok(k) => k,
            Err(e) => return Err(AuthError::InvalidKey(jwt_error_text(&e))),
        };
        match jwt_encode_es256(self.key_id.as_str(), &claims, &key) {
            Ok(t) => Ok(t),
            Err(e) => Err(AuthError::EncodingError(jwt_error_text(&e))),
        }
    }

    /// The cached token, if it is still fresh at `now_ms`.
    fn fresh_cached(&self, now_ms: u64) -> (res: Option<String>)
        ensures
            match res {
                Some(t) => self.cache_hit(now_ms) == Some(t@),
                None => self.cache_hit(now_ms) is None,
            },
    {
        if let Some(c) = &self.cache {
            if now_ms < c.created_at_ms || now_ms - c.created_at_ms < TOKEN_LIFETIME_MS {
                return Some(c.token.clone());
            }
        }
        None
    }

    /// Stores `token`, issued at `iat`, as the cached token, stamped with `stamp_ms`.
    fn store(&mut self, token: String, stamp_ms: u64, iat: Ghost<i64>)
        requires
            signed_token_shape(token@, old(self).signing_input_at(iat@)),
        ensures
            final(self).same_identity(old(self)),
            final(self).cache() == Some((token@, stamp_ms, iat@)),
            final(self).cached_token_signed(),
    {
        self.cache = Some(CachedToken { token, created_at_ms: stamp_ms, issued_at: iat });
    }

    /// Returns a JWT, given the clock readings: `now_ms` (milliseconds on the credentials'
    /// monotonic clock) at which the cache is consulted, `unix_now` (seconds since the Unix
    /// epoch) at which a new token is issued, and `stamp_ms`, the monotonic instant after
    /// signing, with which a new token is stored. Serves the cached token while it is fresh;
    /// otherwise issues a new one, which then replaces the cache.
    pub fn token_at(&mut self, now_ms: u64, unix_now: i64, stamp_ms: u64) -> (res: Result<String, AuthError>)
        requires
            unix_now <= i64::MAX - TOKEN_VALIDITY_SECS,
        ensures
            token_step(*old(self), *final(self), res, now_ms, unix_now, stamp_ms),
            res matches Ok(t) ==> issued_token(t@, old(self).key_id(), old(self).issuer_id()),
            old(self).cache_hit(now_ms) is None && (!ec_pem_accepted(old(self).key_pem())
                || !has_pem_begin(old(self).key_pem())) ==> res matches Err(AuthError::InvalidKey(_)),
    {
        proof {
            use_type_invariant(&*self);
        }
        if let Some(t) = self.fresh_cached(now_ms) {
            return Ok(t);
        }
        let t = self.generate_token(unix_now)?;
        self.store(t.clone(), stamp_ms, Ghost(unix_now));
        Ok(t)
    }

    /// Milliseconds elapsed on the monotonic clock since the credentials were created
    /// (saturating at `u64::MAX`).
    fn clock_ms(&self) -> u64 {
        let elapsed = duration_millis(elapsed_since(&self.origin));
        if elapsed > u64::MAX as u128 { u64::MAX } else { elapsed as u64 }
    }

    /// Generates a JWT token, reusing a cached one while it is fresh.
    ///
    /// Reads the monotonic clock, serves the cached token while it is fresh; otherwise reads
    /// the wall clock, issues a token and stores it with the monotonic instant read after
    /// signing. What it does is [`Credentials::token_at`] at the readings it took.
    pub fn token(&mut self) -> (res: Result<String, AuthError>)
        ensures
            exists|now_ms: u64, unix_now: i64, stamp_ms: u64|
                #[trigger] token_step(*old(self), *final(self), res, now_ms, unix_now, stamp_ms),
            res matches Ok(t) ==> final(self).cache() matches Some((ct, _, _)) && ct == t@,
            res matches Ok(t) ==> issued_token(t@, old(self).key_id(), old(self).issuer_id()),
            old(self).cache() is None && (!ec_pem_accepted(old(self).key_pem())
                || !has_pem_begin(old(self).key_pem())) ==> res matches Err(AuthError::InvalidKey(_)),
            res is Err ==> final(self).cache() == old(self).cache(),
    {
        proof {
            use_type_invariant(&*self);
        }
        let now_ms = self.clock_ms();
        if let Some(t) = self.fresh_cached(now_ms) {
            assert(token_step(*old(self), *self, Ok(t), now_ms, 0, 0));
            return Ok(t);
        }
        let unix_now = unix_now_secs();
        let t = match self.generate_token(unix_now) {
            Ok(t) => t,
            Err(e) => {
                assert(token_step(*old(self), *self, Err(e), now_ms, unix_now, 0));
                return Err(e);
            },
        };
        let stamp_ms = self.clock_ms();
        self.store(t.clone(), stamp_ms, Ghost(unix_now));
        assert(token_step(*old(self), *self, Ok(t), now_ms, unix_now, stamp_ms));
        Ok(t)
    }
}

/// A stored token is served for 15 minutes (900 000 ms) after it was stored, and a new token
/// is valid for 20 minutes (its `exp` is 1200 s after its `iat`).
pub proof fn lemma_token_lifetimes(created_at_ms: u64, now_ms: u64, kid: Seq<char>, iss: Seq<char>, iat: i64)
    requires
        iat <= i64::MAX - 1200,
    ensures
        is_fresh(created_at_ms, now_ms) <==> now_ms < created_at_ms + 900_000,
        token_signing_input(kid, iss, iat) == jwt_signing_input(kid, iss, iat, (iat + 1200) as i64, "appstoreconnect-v1"@),
{
}

/// A fresh cached token is served as it is, and the cache is left as it was.
pub proof fn lemma_fresh_token_served(
    before: Credentials,
    after: Credentials,
    res: Result<String, AuthError>,
    now_ms: u64,
    unix_now: i64,
    stamp_ms: u64,
)
    requires
        token_step(before, after, res, now_ms, unix_now, stamp_ms),
        before.cache() matches Some((_, c, _)) && is_fresh(c, now_ms),
    ensures
        res matches Ok(r) && r@ == before.cache().unwrap().0,
        after.cache() == before.cache(),
{
}

/// A token handed out by one call is handed out again, unchanged, by the next call made before
/// the lifetime has passed since it was stored; the cache then stays as it was.
pub proof fn lemma_token_reused_within_lifetime(
    c0: Credentials,
    c1: Credentials,
    c2: Credentials,
    r1: Result<String, AuthError>,
    r2: Result<String, AuthError>,
    n1: u64,
    u1: i64,
    s1: u64,
    n2: u64,
    u2: i64,
    s2: u64,
)
    requires
        token_step(c0, c1, r1, n1, u1, s1),
        token_step(c1, c2, r2, n2, u2, s2),
        r1 is Ok,
        c1.cache() matches Some((_, c, _)) && c <= n2 && n2 - c < TOKEN_LIFETIME_MS,
    ensures
        r2 matches Ok(t2) && r1 matches Ok(t1) && t2@ == t1@,
        c2.cache() == c1.cache(),
{
    let t1 = r1->Ok_0;
    assert(c1.cache() matches Some((ct, _, _)) && ct == t1@);
}

/// A token served at monotonic instant `now_ms` from a cache entry stored at `c` with claim
/// `iat` still has more than 298 seconds before its `exp` claim at wall-clock time `wall_now`,
/// provided the wall clock advanced by no more than the monotonic clock plus one second since
/// `iat` was read (signing and the rounding of both clocks take under a second).
pub proof fn lemma_served_token_expiry_margin(cred: Credentials, now_ms: u64, wall_now: int)
    requires
        cred.cached_token_signed(),
        cred.cache() matches Some((_, c, iat)) && c <= now_ms && is_fresh(c, now_ms)
            && wall_now - iat <= (now_ms - c) / 1000 + 1,
    ensures
        cred.cache() matches Some((t, _, iat)) && {
            &&& signed_token_shape(t, token_signing_input(cred.key_id(), cred.issuer_id(), iat))
            &&& (iat + TOKEN_VALIDITY_SECS) - wall_now > 298
        },
{
}

/// A token stored at `created_at_ms` is served again at every instant from its issue until
/// the lifetime has passed, and at no instant after that.
pub proof fn lemma_cached_token_window(cred: &Credentials, now_ms: u64)
    requires
        cred.cache() is Some,
        cred.cache().unwrap().1 <= now_ms,
    ensures
        cred.cache_hit(now_ms) == (if now_ms - cred.cache().unwrap().1 < TOKEN_LIFETIME_MS {
            Some(cred.cache().unwrap().0)
        } else {
            None::<Seq<char>>
        }),
{
}

/// Every token issued with the credentials has three dot-separated segments: exactly two dots.
pub proof fn lemma_issued_token_has_three_segments(token: Seq<char>, kid: Seq<char>, iss: Seq<char>)
    requires
        issued_token(token, kid, iss),
    ensures
        dot_count(token) == 2,
{
    let iat = choose|iat: i64| #[trigger] signed_token_shape(token, token_signing_input(kid, iss, iat));
    lemma_signed_token_has_three_segments(token, token_signing_input(kid, iss, iat));
}

/// A token of the signed shape has three dot-separated segments: exactly two dots.
pub proof fn lemma_signed_token_has_three_segments(token: Seq<char>, input: Seq<char>)
    requires
        signed_token_shape(token, input),
    ensures
        dot_count(token) == 2,
{
    let rest = token.skip(input.len() as int + 1);
    assert(dot_count(seq!['.']) == 1) by {
        let one = seq!['.'];
        assert(one.drop_last() =~= Seq::<char>::empty());
        assert(dot_count(one.drop_last()) == 0);
        assert(one.last() == '.');
    }
    lemma_dot_count_append(input, seq!['.']);
    lemma_dot_count_append(input + seq!['.'], rest);
    assert(token =~= input + seq!['.'] + rest);
}

/// Dots are counted additively over concatenation.
pub proof fn lemma_dot_count_append(a: Seq<char>, b: Seq<char>)
    ensures
        dot_count(a + b) == dot_count(a) + dot_count(b),
    decreases b.len(),
{
    if b.len() == 0 {
        assert(a + b == a);
    } else {
        lemma_dot_count_append(a, b.drop_last());
        assert((a + b).drop_last() == a + b.drop_last());
    }
}

} // verus!
