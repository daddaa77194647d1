use services::acl::{Principal, Role};
use services::catalog::Timestamp;
use services::tokens::{
    authentication, device_revocation, hash_api_token, owns_token, pending_link, redeemed, refresh_grant, refresh_rotation, ApiToken,
    AuthSession, Rotation,
    AuthError, Claims, DecodeFailure, Device,
};

fn claims(typ: &str, rol: &str) -> Claims {
    Claims {
        sub: "u1".into(),
        rol: rol.into(),
        aud: "shadowmask-api".into(),
        typ: typ.into(),
        exp: 4_000_000_000,
        jti: Some("j1".into()),
    }
}

fn at(n: i128) -> Timestamp {
    Timestamp { nanosecond: n }
}

fn device(id: &str) -> Device {
    Device { id: id.into(), user: "u1".into(), name: "Roku".into(), platform: "roku".into(), last_seen: None }
}

fn token(id: &str, device: &str) -> ApiToken {
    ApiToken { id: id.into(), user: "u1".into(), device: device.into(), token_hash: "h".into(), created_at: at(0) }
}

#[test]
fn an_api_token_authenticates_its_owner_as_a_player() {
    let p = authentication("smk_abc", Some("u7".into()), Err(DecodeFailure::Invalid)).unwrap();
    assert_eq!(p, Principal { user: "u7".into(), role: Role::Player });
    assert_eq!(authentication("smk_abc", None, Ok(claims("access", "admin"))), Err(AuthError::InvalidToken));
}

#[test]
fn a_signed_access_token_authenticates_its_subject() {
    let p = authentication("a.b.c", None, Ok(claims("access", "admin"))).unwrap();
    assert_eq!(p, Principal { user: "u1".into(), role: Role::Admin });
    let p = authentication("a.b.c", None, Ok(claims("access", "player"))).unwrap();
    assert_eq!(p.role, Role::Player);
}

#[test]
fn a_refresh_token_or_a_bad_token_does_not_authenticate() {
    assert_eq!(authentication("a.b.c", None, Ok(claims("refresh", "user"))), Err(AuthError::InvalidToken));
    assert_eq!(authentication("a.b.c", None, Err(DecodeFailure::Expired)), Err(AuthError::TokenExpired));
    assert_eq!(authentication("garbage", None, Err(DecodeFailure::Invalid)), Err(AuthError::InvalidToken));
    assert_eq!(authentication("a.b.c", None, Ok(claims("access", "root"))), Err(AuthError::InvalidToken));
    assert_eq!(authentication("smk", Some("u7".into()), Err(DecodeFailure::Invalid)), Err(AuthError::InvalidToken));
}

#[test]
fn a_refresh_needs_the_stored_signature() {
    let c = claims("refresh", "user");
    assert_eq!(refresh_grant(&c, Some("sig"), "head.body.sig"), Ok(("u1".to_owned(), Role::User)));
    assert_eq!(refresh_grant(&c, Some("old"), "head.body.sig"), Err(AuthError::InvalidToken));
    assert_eq!(refresh_grant(&c, None, "head.body.sig"), Err(AuthError::InvalidToken));
    let odd = claims("refresh", "root");
    assert_eq!(refresh_grant(&odd, Some("sig"), "head.body.sig"), Err(AuthError::InvalidToken));
}

#[test]
fn a_link_code_defaults_to_the_caller_and_grants_a_player() {
    let caller = Principal { user: "admin1".into(), role: Role::Admin };
    let link = pending_link("code1".into(), &caller, None, at(9));
    assert_eq!(link.user, "admin1");
    assert_eq!(link.role, Role::Player);
    assert_eq!(link.expires_at, at(9));
    let other = pending_link("code2".into(), &caller, Some("kid".into()), at(9));
    assert_eq!(other.user, "kid");
    assert_eq!(other.code, "code2");
}

#[test]
fn a_redeemed_code_binds_a_device_and_a_hashed_token() {
    let (dev, stored, text) = redeemed("u1", "Roku".into(), "roku".into(), "d1".into(), "t1".into(), "0123abcd", at(4));
    assert_eq!(text, "smk_0123abcd");
    assert_eq!(dev, Device { id: "d1".into(), user: "u1".into(), name: "Roku".into(), platform: "roku".into(), last_seen: Some(at(4)) });
    assert_eq!(stored.id, "t1");
    assert_eq!(stored.user, "u1");
    assert_eq!(stored.device, "d1");
    assert_eq!(stored.token_hash, hash_api_token(&text));
    assert_ne!(stored.token_hash, text);
    assert_eq!(stored.created_at, at(4));
}

#[test]
fn revoking_a_device_takes_its_tokens_with_it() {
    let devices = [device("d1"), device("d2")];
    let tokens = [token("t1", "d1"), token("t2", "d2"), token("t3", "d1")];
    assert_eq!(device_revocation(&devices, &tokens, "d1"), Some(vec!["t1".to_owned(), "t3".to_owned()]));
    assert_eq!(device_revocation(&devices, &tokens, "d2"), Some(vec!["t2".to_owned()]));
    assert_eq!(device_revocation(&devices, &[], "d2"), Some(Vec::new()));
}

#[test]
fn revoking_a_device_of_someone_else_does_nothing() {
    let tokens = [token("t1", "d9")];
    assert_eq!(device_revocation(&[device("d1")], &tokens, "d9"), None);
    assert_eq!(device_revocation(&[], &tokens, "d9"), None);
}

#[test]
fn only_an_owned_api_token_is_revoked() {
    let tokens = [token("t1", "d1"), token("t2", "d1")];
    assert!(owns_token(&tokens, "t2"));
    assert!(!owns_token(&tokens, "t9"));
    assert!(!owns_token(&[], "t1"));
}

use services::tokens::{signature_of, DefaultAuthService};

#[test]
fn a_service_issues_pairs_with_its_lifetimes() {
    let svc = DefaultAuthService::new((), (), "codec", 900, 2_592_000);
    assert_eq!(svc.expiries(1_700_000_000), (1_700_000_900, 1_702_592_000));
    assert_eq!(*svc.codec(), "codec");
}

#[test]
fn a_session_keeps_the_signature_and_both_instants() {
    let svc = DefaultAuthService::new((), (), (), 900, 3600);
    let s = svc.session_record("j1".into(), "u1".into(), "h.b.sig", 100, 3700).unwrap();
    assert_eq!(s.id, "j1");
    assert_eq!(s.user, "u1");
    assert_eq!(s.refresh_token_hash, signature_of("h.b.sig"));
    assert_eq!(s.refresh_token_hash, "sig");
    assert_eq!(s.issued_at, Timestamp { nanosecond: 100_000_000_000 });
    assert_eq!(s.expires_at, Timestamp { nanosecond: 3_700_000_000_000 });
}

#[test]
fn an_out_of_range_expiry_surfaces_a_backend_error() {
    let svc = DefaultAuthService::new((), (), (), 900, i64::MAX / 2);
    assert!(matches!(svc.session_record("j".into(), "u".into(), "a.b.c", 0, 253_402_207_201), Err(AuthError::Repository(_))));
}

fn session(id: &str, sig: &str) -> AuthSession {
    AuthSession { id: id.into(), user: "u1".into(), refresh_token_hash: sig.into(), issued_at: at(0), expires_at: at(1) }
}

#[test]
fn refresh_rotates_and_revokes_old() {
    let c = claims("refresh", "user");
    let mut store = vec![session("j0", "other"), session("j1", "sig")];
    let found = store.iter().find(|s| s.id == "j1");
    let rot = refresh_rotation(&c, found, "head.body.sig").unwrap();
    assert_eq!(rot, Rotation { revoke: "j1".into(), user: "u1".into(), role: Role::User });
    store.retain(|s| s.id != rot.revoke);
    let again = store.iter().find(|s| s.id == "j1");
    assert_eq!(refresh_rotation(&c, again, "head.body.sig"), Err(AuthError::InvalidToken));
}

#[test]
fn a_refresh_without_a_session_or_with_an_old_token_is_refused() {
    let mut c = claims("refresh", "user");
    assert_eq!(refresh_rotation(&c, Some(&session("j1", "old")), "head.body.sig"), Err(AuthError::InvalidToken));
    assert_eq!(refresh_rotation(&c, None, "head.body.sig"), Err(AuthError::InvalidToken));
    c.jti = None;
    assert_eq!(refresh_rotation(&c, Some(&session("j1", "sig")), "head.body.sig"), Err(AuthError::InvalidToken));
}
