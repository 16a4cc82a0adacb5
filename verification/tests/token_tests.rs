use realworld::auth::Auth;
use realworld::errors::AppError;
use realworld::laws::{expired_token_rejected, foreign_secret_rejected, token_round_trip};
use realworld::token::{issue, verify, Claims, VerifyFailure, TOKEN_TTL_SECS};

const NOW: i64 = 1_700_000_000;

#[test]
fn issue_sets_thirty_day_expiry() {
    let (_token, claims) = issue(7, "alice", "secret", NOW);
    assert_eq!(claims.id, 7);
    assert_eq!(claims.username, "alice");
    assert_eq!(claims.exp, NOW + 30 * 24 * 60 * 60);
}

#[test]
fn verify_round_trips_issued_claims() {
    let (token, _claims) = issue(42, "bob", "secret", NOW);
    let got = verify(&token, "secret", NOW + 10).expect("token should verify");
    assert_eq!(got.id, 42);
    assert_eq!(got.username, "bob");
    assert_eq!(got.exp, NOW + TOKEN_TTL_SECS);
}

#[test]
fn verify_rejects_expired_token() {
    let (token, claims) = issue(1, "carol", "secret", NOW);
    let got = verify(&token, "secret", claims.exp);
    assert_eq!(got, Err(VerifyFailure::Expired));
}

#[test]
fn verify_rejects_foreign_secret() {
    let (token, _claims) = issue(1, "carol", "secret-one", NOW);
    let got = verify(&token, "secret-two", NOW + 1);
    assert_eq!(got, Err(VerifyFailure::Malformed));
}

#[test]
fn verify_rejects_garbage() {
    assert_eq!(verify("not.a.token", "secret", NOW), Err(VerifyFailure::Malformed));
    assert_eq!(verify("", "secret", NOW), Err(VerifyFailure::Malformed));
}

#[test]
fn law_functions_run_as_stated() {
    let ok = token_round_trip(5, "dan", "secret", NOW, NOW + 5);
    assert!(ok.is_ok());
    let expired = expired_token_rejected(5, "dan", "secret", NOW, NOW + TOKEN_TTL_SECS);
    assert_eq!(expired, Err(VerifyFailure::Expired));
    let foreign = foreign_secret_rejected(5, "dan", "left", "right", NOW, NOW + 5);
    assert_eq!(foreign, Err(VerifyFailure::Malformed));
}

#[test]
fn claims_decode_matches_verify() {
    let (token, _claims) = issue(9, "erin", "secret", NOW);
    let got = Claims::decode(&token, "secret", NOW + 1).expect("token should decode");
    assert_eq!(got.id, 9);
    assert_eq!(got.username, "erin");
}

#[test]
fn guard_accepts_prefixed_token() {
    let (token, claims) = issue(3, "fred", "secret", NOW);
    let header = format!("Token {}", token);
    let auth = Auth::from_request(Some(&header), "secret", NOW + 1).expect("guard should accept");
    assert_eq!(auth.claims.id, 3);
    assert_eq!(auth.claims.username, "fred");
    assert_eq!(auth.claims.exp, claims.exp);
    assert_eq!(auth.jwt, token);
}

#[test]
fn guard_rejections_share_one_kind() {
    let (token, claims) = issue(3, "fred", "secret", NOW);
    let good = format!("Token {}", token);
    let wrong_prefix = format!("Bearer {}", token);
    let foreign = {
        let (t2, _) = issue(3, "fred", "other", NOW);
        format!("Token {}", t2)
    };
    let missing: Option<&str> = None;
    let outcomes = [
        Auth::from_request(missing, "secret", NOW),
        Auth::from_request(Some(&wrong_prefix), "secret", NOW),
        Auth::from_request(Some(&foreign), "secret", NOW),
        Auth::from_request(Some("Token junk"), "secret", NOW),
        Auth::from_request(Some(&good), "secret", claims.exp),
    ];
    for outcome in outcomes {
        match outcome {
            Err(e) => assert_eq!(e, AppError::Unauthorized),
            Ok(_) => panic!("the guard must reject all of these"),
        }
    }
}

#[test]
fn guard_optional_yields_no_identity_on_failure() {
    assert!(Auth::from_request_optional(None, "secret", NOW).is_none());
    assert!(Auth::from_request_optional(Some("Token junk"), "secret", NOW).is_none());
    let (token, _claims) = issue(8, "gail", "secret", NOW);
    let header = format!("Token {}", token);
    let auth = Auth::from_request_optional(Some(&header), "secret", NOW + 1);
    assert!(auth.is_some());
}
