//! Logging in: checking credentials and issuing the claims of a session
//! token.
use vstd::prelude::*;
use vstd::string::*;
use crate::error::AppError;
use crate::session::SessionEvent;

verus! {

broadcast use vstd::string::group_string_axioms;

/// The claims of a session token: its subject and its expiry (UNIX seconds).
#[derive(Debug, Clone, PartialEq, Eq)]
pub struct Claims {
    pub sub: String,
    pub exp: usize,
}

/// The body of a login request.
#[derive(Debug, Clone, PartialEq, Eq)]
pub struct LoginPayload {
    pub username: String,
    pub password: String,
}

/// How long a session token is valid, in seconds (one day).
pub const TOKEN_LIFETIME_SECS: i64 = 86_400;

/// The latest UNIX timestamp accepted as the time a token is issued: that
/// of `chrono::DateTime::<Utc>::MAX_UTC`, the last instant a UTC timestamp
/// can name.
pub const MAX_UTC_TIMESTAMP: i64 = 8_210_266_876_799;

/// The account the relay accepts: user `test` with password `test`.
pub open spec fn known_account() -> Seq<char> {
    seq!['t', 'e', 's', 't']
}

/// The expiry of a token issued at `now`, as the `usize` it is stored in.
pub open spec fn token_expiry(now: i64) -> usize {
    (now + TOKEN_LIFETIME_SECS) as usize
}

pub open spec fn credentials_valid(p: LoginPayload) -> bool {
    p.username@ == known_account() && p.password@ == known_account()
}

/// What logging in with `p` at `now` gives: claims for user `test` that
/// expire a day later, or `InvalidCredentials`.
pub open spec fn login_result(p: LoginPayload, now: i64) -> Result<(Seq<char>, usize), AppError> {
    if credentials_valid(p) {
        Ok((known_account(), token_expiry(now)))
    } else {
        Err(AppError::InvalidCredentials)
    }
}

/// Calls `SystemTime::elapsed` on `UNIX_EPOCH`, which returns an error
/// rather than panicking when the system clock is set before the epoch, and
/// hands out the whole seconds elapsed (`None` for that error). The result
/// depends on the clock, so nothing is claimed of it.
#[verifier::external_body]
fn seconds_since_epoch() -> (r: Option<u64>) {
    match std::time::UNIX_EPOCH.elapsed() {
        Ok(d) => Some(d.as_secs()),
        Err(_) => None,
    }
}

/// The error a login answers when the system clock gives no representable
/// time: before the UNIX epoch, or past `MAX_UTC_TIMESTAMP`.
pub open spec fn is_clock_error(e: AppError) -> bool {
    e matches AppError::Other(m) && m@ == "system time out of range"@
}

/// Whether `payload` holds the accepted credentials.
pub fn credentials_match(payload: &LoginPayload) -> (b: bool)
    ensures
        b == credentials_valid(*payload),
{
    proof {
        reveal_strlit("test");
    }
    assert("test"@ =~= known_account());
    let account = String::from_str("test");
    payload.username == account && payload.password == account
}

/// Checks the credentials in `payload` and issues the claims of a token valid
/// for a day from `now`.
pub fn issue_claims(payload: &LoginPayload, now: i64) -> (r: Result<Claims, AppError>)
    requires
        now <= i64::MAX - TOKEN_LIFETIME_SECS,
    ensures
        match (r, login_result(*payload, now)) {
            (Ok(c), Ok((sub, exp))) => c.sub@ == sub && c.exp == exp,
            (Err(e), Err(f)) => e == f,
            _ => false,
        },
{
    proof {
        reveal_strlit("test");
    }
    assert("test"@ =~= known_account());
    let account = String::from_str("test");
    if payload.username == account && payload.password == account {
        let expires = now + TOKEN_LIFETIME_SECS;
        Ok(Claims { sub: String::from_str("test"), exp: expires as usize })
    } else {
        Err(AppError::InvalidCredentials)
    }
}

/// What taking the claims for `p` with the clock reading `clock` (whole
/// seconds since the UNIX epoch, `None` when the clock is before it) gives,
/// as `r`: `InvalidCredentials` for wrong credentials; otherwise the claims of
/// a token issued at that reading, or the clock error when there is no
/// reading or it is past `MAX_UTC_TIMESTAMP`.
pub open spec fn claims_outcome(p: LoginPayload, clock: Option<u64>, r: Result<Claims, AppError>) -> bool {
    if !credentials_valid(p) {
        r == Err::<Claims, AppError>(AppError::InvalidCredentials)
    } else if clock matches Some(s) && s <= MAX_UTC_TIMESTAMP {
        r matches Ok(c) && c.sub@ == known_account() && c.exp == token_expiry(clock->0 as i64)
    } else {
        r matches Err(e) && is_clock_error(e)
    }
}

/// The claims for `payload` given the clock reading `clock` (see
/// `claims_outcome`).
pub fn claims_at(payload: &LoginPayload, clock: Option<u64>) -> (r: Result<Claims, AppError>)
    ensures
        claims_outcome(*payload, clock, r),
{
    if !credentials_match(payload) {
        return Err(AppError::InvalidCredentials);
    }
    let secs = match clock {
        Some(s) => s,
        None => return Err(AppError::Other(String::from_str("system time out of range"))),
    };
    if secs > MAX_UTC_TIMESTAMP as u64 {
        return Err(AppError::Other(String::from_str("system time out of range")));
    }
    let now = secs as i64;
    let r = issue_claims(payload, now);
    proof {
        if r is Ok {
            assert(r->Ok_0.exp == token_expiry(now));
        }
    }
    r
}

/// `jsonwebtoken::errors::Error`, the error of `jsonwebtoken::encode`.
#[verifier::external_type_specification]
#[verifier::external_body]
pub struct ExJwtError(jsonwebtoken::errors::Error);

/// The token `jsonwebtoken::encode` gives for the default header (`HS256`,
/// type `JWT`), the claims object `{"sub": sub, "exp": exp}` in that order,
/// and the HMAC key `secret` (as bytes).
pub uninterp spec fn hs256_token(sub: Seq<char>, exp: nat, secret: Seq<char>) -> Seq<char>;

/// Calls `jsonwebtoken::encode` with `Header::default()`, the claims object
/// `{"sub": sub, "exp": exp}` and `EncodingKey::from_secret(secret)`, and
/// claims that it succeeds with the token `hs256_token` names. Success is
/// what the source shows for these arguments: the key's family (HMAC) is that
/// of the header's algorithm, serialising the header and a map of a string
/// and a number cannot fail, and signing with `HS256` always returns `Ok`.
#[verifier::external_body]
fn encode_token(sub: &str, exp: usize, secret: &str) -> (r: Result<String, jsonwebtoken::errors::Error>)
    ensures
        r is Ok,
        r->Ok_0@ == hs256_token(sub@, exp as nat, secret@),
{
    let mut claims = serde_json::Map::new();
    claims.insert("sub".to_string(), serde_json::Value::from(sub));
    claims.insert("exp".to_string(), serde_json::Value::from(exp));
    jsonwebtoken::encode(
        &jsonwebtoken::Header::default(),
        &claims,
        &jsonwebtoken::EncodingKey::from_secret(secret.as_bytes()),
    )
}

/// The session token for `claims`, signed with `secret`.
pub fn issue_token(claims: &Claims, secret: &str) -> (t: String)
    ensures
        t@ == hs256_token(claims.sub@, claims.exp as nat, secret@),
{
    match encode_token(claims.sub.as_str(), claims.exp, secret) {
        Ok(t) => t,
        // `encode_token` never fails for these arguments.
        Err(_) => String::new(),
    }
}

/// What logging in with `p`, the clock reading `clock` and the signing
/// secret `secret` gives, as `r`: `claims_outcome` with the claims turned
/// into their signed token.
pub open spec fn login_outcome(
    p: LoginPayload,
    clock: Option<u64>,
    secret: Seq<char>,
    r: Result<String, AppError>,
) -> bool {
    if !credentials_valid(p) {
        r == Err::<String, AppError>(AppError::InvalidCredentials)
    } else if clock matches Some(s) && s <= MAX_UTC_TIMESTAMP {
        r matches Ok(t) && t@ == hs256_token(
            known_account(),
            token_expiry(clock->0 as i64) as nat,
            secret,
        )
    } else {
        r matches Err(e) && is_clock_error(e)
    }
}

/// Logs in with `payload` given the clock reading `clock`: the signed token
/// of the claims `claims_at` issues (see `login_outcome`).
pub fn login_at(payload: &LoginPayload, clock: Option<u64>, secret: &str) -> (r: Result<String, AppError>)
    ensures
        login_outcome(*payload, clock, secret@, r),
{
    match claims_at(payload, clock) {
        Ok(c) => Ok(issue_token(&c, secret)),
        Err(e) => Err(e),
    }
}

/// Logs in with `payload` at the current time: the token, signed with
/// `secret`, of claims for user `test` that expire a day later; or
/// `InvalidCredentials`. The clock is only read for valid credentials; a
/// clock before the UNIX epoch or past `MAX_UTC_TIMESTAMP` gives the clock
/// error (`is_clock_error`).
pub fn login(payload: &LoginPayload, secret: &str) -> (r: Result<String, AppError>)
    ensures
        !credentials_valid(*payload) ==> r == Err::<String, AppError>(AppError::InvalidCredentials),
        exists|clock: Option<u64>| #[trigger] login_outcome(*payload, clock, secret@, r),
{
    if !credentials_match(payload) {
        let r = Err(AppError::InvalidCredentials);
        assert(login_outcome(*payload, None, secret@, r));
        return r;
    }
    let clock = seconds_since_epoch();
    let r = login_at(payload, clock, secret);
    assert(login_outcome(*payload, clock, secret@, r));
    r
}

/// Calls `jsonwebtoken::decode` on `token` with
/// `DecodingKey::from_secret(secret)` and `Validation::default()` (an `HS256`
/// signature by `secret`, an `exp` claim that has not passed, give or take
/// 60 s), decoding the claims as a JSON object. Hands out `None` when decoding
/// fails, and otherwise the claims' `sub` field when it is a string
/// (`Some(None)` when it is missing or not a string). Whether the token has
/// expired depends on the clock, so nothing is claimed of the result.
#[verifier::external_body]
fn decode_subject(token: &str, secret: &str) -> (r: Option<Option<String>>) {
    match jsonwebtoken::decode::<serde_json::Map<String, serde_json::Value>>(
        token,
        &jsonwebtoken::DecodingKey::from_secret(secret.as_bytes()),
        &jsonwebtoken::Validation::default(),
    ) {
        Ok(data) => match data.claims.get("sub") {
            Some(serde_json::Value::String(sub)) => Some(Some(sub.clone())),
            _ => Some(None),
        },
        Err(_) => None,
    }
}

/// Whether decoded claims (see `decode_subject`) are those of a session
/// token: the token decoded, and its subject is text.
pub fn token_accepted(decoded: Option<Option<String>>) -> (b: bool)
    ensures
        b == (decoded matches Some(Some(_))),
{
    match decoded {
        Some(Some(_)) => true,
        _ => false,
    }
}

/// The event a registration message carrying `token` amounts to: a
/// registration whose token was or was not verified against `secret`.
pub fn register_event(token: &str, secret: &str) -> (e: SessionEvent)
    ensures
        e is Register,
{
    SessionEvent::Register(token_accepted(decode_subject(token, secret)))
}

} // verus!
