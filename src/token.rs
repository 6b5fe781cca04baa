//! Bearer-token claims: who the token speaks for and when it stops being
//! valid, and the authorization decision on a protected request.
use vstd::prelude::*;
use crate::error::ApiError;

verus! {

/// How long a token stays valid after it was issued, in seconds (24 hours).
pub const TOKEN_LIFETIME_SECS: i64 = 86400;

/// The payload of a bearer token: subject (a user id), issue time and expiry,
/// both in whole seconds since the epoch.
#[derive(Debug, Clone, Copy, PartialEq, Eq, Structural)]
pub struct Claims {
    pub sub: u128,
    pub exp: i64,
    pub iat: i64,
}

/// The token handed to a client after signup or signin.
#[derive(Debug, Clone)]
pub struct TokenPayload {
    pub access_token: String,
    pub token_type: String,
}

/// Relies on chrono::Utc::now and DateTime::timestamp: the current time in
/// whole seconds since the epoch. Nothing is promised of the value.
#[verifier::external_body]
fn now_secs() -> (r: i64) {
    chrono::Utc::now().timestamp()
}

impl Claims {
    /// The claims of a token for `id` issued at `now`.
    pub open spec fn spec_issued_at(id: u128, now: i64) -> Claims {
        Claims { sub: id, iat: now, exp: (now + TOKEN_LIFETIME_SECS) as i64 }
    }

    /// Claims for `id` issued at `now`, expiring 24 hours later.
    pub fn issued_at(id: u128, now: i64) -> (r: Claims)
        requires
            now <= i64::MAX - TOKEN_LIFETIME_SECS,
        ensures
            r == Self::spec_issued_at(id, now),
    {
        Claims { sub: id, iat: now, exp: now + TOKEN_LIFETIME_SECS }
    }

    /// Claims for `id` issued now, expiring 24 hours later; `None` only when
    /// the clock is so late that the expiry leaves the 64-bit range.
    pub fn new(id: u128) -> (r: Option<Claims>)
        ensures
            r matches Some(c) ==> c == Self::spec_issued_at(id, c.iat)
                && c.iat <= i64::MAX - TOKEN_LIFETIME_SECS,
    {
        let now = now_secs();
        if now <= i64::MAX - TOKEN_LIFETIME_SECS {
            Some(Self::issued_at(id, now))
        } else {
            None
        }
    }

    /// The token is still valid at time `now`.
    pub open spec fn spec_live_at(self, now: i64) -> bool {
        now <= self.exp
    }

    /// Whether the token is still valid at time `now`: it is rejected once
    /// the time exceeds its expiry.
    pub fn is_live_at(&self, now: i64) -> (r: bool)
        ensures
            r == self.spec_live_at(now),
    {
        now <= self.exp
    }
}

/// A token issued at `now` is valid at every time from `now` until 24 hours
/// later, and at none after that.
pub proof fn lemma_fresh_claims_live(id: u128, now: i64, t: i64)
    requires
        now <= i64::MAX - TOKEN_LIFETIME_SECS,
    ensures
        now <= t <= now + TOKEN_LIFETIME_SECS ==> Claims::spec_issued_at(id, now).spec_live_at(t),
        t > now + TOKEN_LIFETIME_SECS ==> !Claims::spec_issued_at(id, now).spec_live_at(t),
        Claims::spec_issued_at(id, now).sub == id,
{
}

/// The decision on a protected request: the claims of a verified token that
/// has not expired at `now` are let through; missing or expired claims are
/// unauthorized, without telling which.
pub fn authorize(claims: Option<Claims>, now: i64) -> (r: Result<Claims, ApiError>)
    ensures
        match claims {
            Some(c) => if c.spec_live_at(now) {
                r == Ok::<Claims, ApiError>(c)
            } else {
                r == Err::<Claims, ApiError>(ApiError::Unauthorized)
            },
            None => r == Err::<Claims, ApiError>(ApiError::Unauthorized),
        },
{
    match claims {
        Some(c) => if c.is_live_at(now) {
            Ok(c)
        } else {
            Err(ApiError::Unauthorized)
        },
        None => Err(ApiError::Unauthorized),
    }
}

/// Answers the token check endpoint: `true` for verified claims, otherwise
/// unauthorized.
pub fn verify_token(claims: Option<Claims>) -> (r: Result<bool, ApiError>)
    ensures
        claims is Some ==> r == Ok::<bool, ApiError>(true),
        claims is None ==> r == Err::<bool, ApiError>(ApiError::Unauthorized),
{
    match claims {
        Some(_) => Ok(true),
        None => Err(ApiError::Unauthorized),
    }
}

impl TokenPayload {
    /// Wraps an encoded token as a bearer token.
    pub fn bearer(access_token: String) -> (r: TokenPayload)
        ensures
            r.access_token@ == access_token@,
            r.token_type@ == "Bearer"@,
    {
        TokenPayload { access_token, token_type: "Bearer".to_string() }
    }
}

} // verus!
