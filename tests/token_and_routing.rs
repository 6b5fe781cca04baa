use microshop::demux::{classify, has_prefix, Protocol};
use microshop::error::ApiError;
use microshop::goods::QueryRequest;
use microshop::paging::page_offset;
use microshop::token::{authorize, verify_token, Claims, TokenPayload, TOKEN_LIFETIME_SECS};

#[test]
fn claims_expire_a_day_after_issue() {
    let c = Claims::issued_at(9, 1_700_000_000);
    assert_eq!(c.sub, 9);
    assert_eq!(c.iat, 1_700_000_000);
    assert_eq!(c.exp, 1_700_086_400);
    assert_eq!(TOKEN_LIFETIME_SECS, 86_400);
    assert!(c.is_live_at(1_700_086_400));
    assert!(!c.is_live_at(1_700_086_401));
}

#[test]
fn claims_now_use_the_clock() {
    let c = Claims::new(3).unwrap();
    assert_eq!(c.sub, 3);
    assert_eq!(c.exp - c.iat, 86_400);
    assert!(c.iat > 1_600_000_000);
}

#[test]
fn authorization_decisions() {
    let c = Claims::issued_at(1, 100);
    assert_eq!(authorize(Some(c), 150), Ok(c));
    assert_eq!(authorize(Some(c), 100 + 86_401), Err(ApiError::Unauthorized));
    assert_eq!(authorize(None, 0), Err(ApiError::Unauthorized));
    assert_eq!(verify_token(Some(c)), Ok(true));
    assert_eq!(verify_token(None), Err(ApiError::Unauthorized));
}

#[test]
fn bearer_payload() {
    let t = TokenPayload::bearer("abc".to_string());
    assert_eq!(t.access_token, "abc");
    assert_eq!(t.token_type, "Bearer");
}

#[test]
fn grpc_requests_are_told_apart() {
    assert_eq!(classify(Some("application/grpc")), Protocol::Grpc);
    assert_eq!(classify(Some("application/grpc+proto")), Protocol::Grpc);
    assert_eq!(classify(Some("application/json")), Protocol::Rest);
    assert_eq!(classify(Some("application/grp")), Protocol::Rest);
    assert_eq!(classify(None), Protocol::Rest);
    assert!(has_prefix("abc", ""));
    assert!(!has_prefix("ab", "abc"));
}

#[test]
fn page_offsets() {
    assert_eq!(page_offset(3, 20), Some(60));
    assert_eq!(page_offset(0, 0), Some(0));
    assert_eq!(page_offset(-1, 20), None);
    assert_eq!(page_offset(i64::MAX, 2), None);
    assert_eq!(QueryRequest { page: 2, page_size: 5 }.offset(), Some(10));
}

#[test]
fn error_statuses_and_messages() {
    assert_eq!(ApiError::DuplicateUserEmail.status_code(), 500);
    assert_eq!(ApiError::DuplicateUserEmail.message(), "DuplicateUserEmail");
    assert_eq!(ApiError::Unauthorized.status_code(), 401);
    assert_eq!(ApiError::BadRequest.status_code(), 400);
    assert_eq!(ApiError::NotFound.status_code(), 404);
    assert_eq!(ApiError::Conflict.status_code(), 409);
    assert_eq!(ApiError::DownstreamUnavailable.status_code(), 503);
    assert_eq!(ApiError::Internal.status_code(), 500);
    assert_eq!(ApiError::WrongCredentials.message(), "wrong password.");
}
