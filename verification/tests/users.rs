use rusty_ledger::account::Types;
use rusty_ledger::ledger::Ledger;
use rusty_ledger::middleware::{auth, token_claims, Access, TOKEN_LIFETIME};
use rusty_ledger::user::{
    check_update, enroll, hash_password, login, merge_profile, password_verdict, profile_response,
    update_profile, LoginReq, UpdateProfileReq, User, UserError, UserReq,
};

const NOW: i64 = 1_700_000_000;

fn request() -> UserReq {
    UserReq {
        full_name: "Test User".to_string(),
        email: "test@example.com".to_string(),
        password: "password123".to_string(),
        account_type: Types::Salary,
    }
}

fn stored_user() -> User {
    User {
        id: 7,
        full_name: "Test User".to_string(),
        email: "test@example.com".to_string(),
        password_hash: "old-hash".to_string(),
    }
}

fn change(name: Option<&str>, email: Option<&str>, password: Option<&str>) -> UpdateProfileReq {
    UpdateProfileReq {
        full_name: name.map(|s| s.to_string()),
        email: email.map(|s| s.to_string()),
        password: password.map(|s| s.to_string()),
        account_type: None,
    }
}

#[test]
fn public_paths_need_no_token() {
    assert!(matches!(auth("/api/v1/user/register", None), Access::Open));
    assert!(matches!(auth("/api/v1/user/login", None), Access::Open));
    assert!(matches!(auth("/", Some("nonsense")), Access::Open));
    assert!(matches!(auth("", None), Access::Denied));
    assert!(matches!(auth("/api/v1/user/login/", None), Access::Denied));
    assert!(matches!(auth("/api/v1/user/updateProfile", None), Access::Denied));
}

#[test]
fn header_must_begin_with_bearer_and_a_space() {
    let path = "/api/v1/account/checkBalance";
    assert!(matches!(auth(path, Some("")), Access::Denied));
    assert!(matches!(auth(path, Some("Bearer")), Access::Denied));
    assert!(matches!(auth(path, Some("bearer abc")), Access::Denied));
    assert!(matches!(auth(path, Some("Basic abc")), Access::Denied));
    assert!(matches!(auth(path, Some(" Bearer abc")), Access::Denied));
    match auth(path, Some("Bearer ")) {
        Access::Bearer { token } => assert_eq!(token, ""),
        other => panic!("unexpected {:?}", other),
    }
    match auth(path, Some("Bearer  a b\u{e9}\u{4e16}c")) {
        Access::Bearer { token } => assert_eq!(token, " a b\u{e9}\u{4e16}c"),
        other => panic!("unexpected {:?}", other),
    }
    assert!(matches!(auth(path, Some("B\u{e9}arer abc")), Access::Denied));
}

#[test]
fn token_claims_expire_after_seven_days() {
    assert_eq!(TOKEN_LIFETIME, 7 * 24 * 60 * 60);
    let claims = token_claims(0xa1a2a3a4_b1b2_c1c2_d1d2_d3d4d5d6d7d8, NOW).unwrap();
    assert_eq!(claims.sub, "a1a2a3a4-b1b2-c1c2-d1d2-d3d4d5d6d7d8");
    assert_eq!(claims.exp, 1_700_604_800);
    let early = token_claims(1, -TOKEN_LIFETIME).unwrap();
    assert_eq!(early.exp, 0);
    assert_eq!(early.sub, "00000000-0000-0000-0000-000000000001");
    assert!(token_claims(1, -TOKEN_LIFETIME - 1).is_none());
    assert!(token_claims(1, i64::MAX).is_none());
    assert!(token_claims(1, i64::MAX - TOKEN_LIFETIME + 1).is_none());
    assert!(token_claims(1, i64::MAX - TOKEN_LIFETIME).is_some());
}

#[test]
fn account_kinds_have_lower_case_names() {
    let kinds = [
        (Types::Savings, "savings"),
        (Types::Current, "current"),
        (Types::Salary, "salary"),
        (Types::FD, "fd"),
        (Types::RD, "rd"),
    ];
    for (kind, name) in kinds {
        assert_eq!(kind.to_string(), name);
        assert_eq!(Types::from_name(name), kind);
    }
    assert_eq!(Types::from_name("Savings"), Types::Savings);
    assert_eq!(Types::from_name("FD"), Types::Savings);
    assert_eq!(Types::from_name(""), Types::Savings);
    assert_eq!(Types::from_name("checking"), Types::Savings);
}

#[test]
fn user_errors_map_to_statuses() {
    assert_eq!(UserError::EmailTaken.status(), 409);
    assert_eq!(UserError::InvalidCredentials.status(), 401);
    assert_eq!(UserError::NothingToUpdate.status(), 400);
    assert_eq!(UserError::EmailRequired.status(), 400);
    assert_eq!(UserError::UserNotFound.status(), 404);
    assert_eq!(UserError::Internal.status(), 500);
}

#[test]
fn hashed_password_is_a_bcrypt_hash_of_default_cost() {
    let hash = hash_password("password123").unwrap();
    assert_eq!(hash.len(), 60);
    assert!(hash.starts_with("$2b$12$"));
    assert_ne!(hash, "password123");
}

#[test]
fn login_checks_the_password_against_the_stored_hash() {
    let mut user = stored_user();
    user.password_hash = bcrypt::hash("password123", 4).unwrap();
    let right = LoginReq { email: user.email.clone(), password: "password123".to_string() };
    let wrong = LoginReq { email: user.email.clone(), password: "password124".to_string() };
    assert_eq!(login(&right, Some(&user)), Ok(7));
    assert_eq!(login(&wrong, Some(&user)), Err(UserError::InvalidCredentials));
    assert_eq!(login(&right, None), Err(UserError::InvalidCredentials));
    user.password_hash = "not a hash".to_string();
    assert_eq!(login(&right, Some(&user)), Err(UserError::Internal));
}

#[test]
fn password_verdict_tells_the_three_outcomes_apart() {
    assert_eq!(password_verdict(9, Some(true)), Ok(9));
    assert_eq!(password_verdict(9, Some(false)), Err(UserError::InvalidCredentials));
    assert_eq!(password_verdict(9, None), Err(UserError::Internal));
}

#[test]
fn enrolment_opens_the_account_at_zero() {
    let mut ledger = Ledger::new();
    let reg = enroll(&mut ledger, request(), false, Some("hash".to_string()), 1, 2, NOW).unwrap();
    assert_eq!(reg.user.id, 1);
    assert_eq!(reg.user.full_name, "Test User");
    assert_eq!(reg.user.email, "test@example.com");
    assert_eq!(reg.user.password_hash, "hash");
    assert_eq!(reg.account_id, 2);
    assert_eq!(reg.account_type, Types::Salary);
    assert_eq!(reg.claims.sub, "00000000-0000-0000-0000-000000000001");
    assert_eq!(reg.claims.exp, 1_700_604_800);
    assert!(ledger.account_exists(2));
    assert!(!ledger.account_exists(1));
    let balance = ledger.get(2).unwrap();
    assert!(!balance.is_positive() && !balance.is_negative());
}

#[test]
fn enrolment_is_declined_without_touching_the_ledger() {
    let mut ledger = Ledger::new();
    ledger.open_account(5).unwrap();
    let hash = || Some("hash".to_string());
    assert_eq!(
        enroll(&mut ledger, request(), true, hash(), 1, 2, NOW).unwrap_err(),
        UserError::EmailTaken
    );
    assert_eq!(
        enroll(&mut ledger, request(), true, None, 1, 5, i64::MAX).unwrap_err(),
        UserError::EmailTaken
    );
    assert_eq!(
        enroll(&mut ledger, request(), false, None, 1, 2, NOW).unwrap_err(),
        UserError::Internal
    );
    assert_eq!(
        enroll(&mut ledger, request(), false, hash(), 1, 5, NOW).unwrap_err(),
        UserError::Internal
    );
    assert_eq!(
        enroll(&mut ledger, request(), false, hash(), 1, 2, i64::MAX).unwrap_err(),
        UserError::Internal
    );
    assert!(!ledger.account_exists(2));
    assert!(ledger.account_exists(5));
}

#[test]
fn profile_change_is_checked_in_order() {
    assert_eq!(check_update(&change(None, None, None), true), Some(UserError::NothingToUpdate));
    assert_eq!(check_update(&change(None, None, None), false), Some(UserError::NothingToUpdate));
    assert_eq!(check_update(&change(Some("n"), None, None), true), Some(UserError::EmailRequired));
    assert_eq!(check_update(&change(None, None, Some("p")), false), Some(UserError::EmailRequired));
    assert_eq!(check_update(&change(None, Some("e"), None), false), Some(UserError::UserNotFound));
    assert_eq!(check_update(&change(None, Some("e"), None), true), None);
    let mut kind_only = change(None, None, None);
    kind_only.account_type = Some(Types::FD);
    assert_eq!(check_update(&kind_only, true), Some(UserError::EmailRequired));
    assert_eq!(
        update_profile(change(None, None, None), Some(stored_user()), NOW).unwrap_err(),
        UserError::NothingToUpdate
    );
    assert_eq!(
        update_profile(change(Some("n"), None, None), None, NOW).unwrap_err(),
        UserError::EmailRequired
    );
    assert_eq!(
        update_profile(change(None, Some("e"), None), None, NOW).unwrap_err(),
        UserError::UserNotFound
    );
}

#[test]
fn profile_change_takes_named_fields_and_keeps_the_rest() {
    let req = change(None, Some("new@example.com"), None);
    let update = merge_profile(req, Some(stored_user()), Some("ignored".to_string()), NOW).unwrap();
    assert_eq!(update.user.id, 7);
    assert_eq!(update.user.full_name, "Test User");
    assert_eq!(update.user.email, "new@example.com");
    assert_eq!(update.user.password_hash, "old-hash");
    assert_eq!(update.claims.sub, "00000000-0000-0000-0000-000000000007");
    assert_eq!(update.claims.exp, 1_700_604_800);

    let req = change(Some("New Name"), Some("test@example.com"), Some("secret"));
    let update = merge_profile(req, Some(stored_user()), Some("new-hash".to_string()), NOW).unwrap();
    assert_eq!(update.user.full_name, "New Name");
    assert_eq!(update.user.password_hash, "new-hash");

    let req = change(None, Some("test@example.com"), Some("secret"));
    assert_eq!(
        merge_profile(req, Some(stored_user()), None, NOW).unwrap_err(),
        UserError::Internal
    );
    let req = change(None, Some("test@example.com"), None);
    assert_eq!(
        merge_profile(req, Some(stored_user()), None, i64::MAX).unwrap_err(),
        UserError::Internal
    );
}

#[test]
fn profile_change_hashes_a_new_password() {
    let req = change(None, Some("test@example.com"), Some("secret"));
    let update = update_profile(req, Some(stored_user()), NOW).unwrap();
    assert!(update.user.password_hash.starts_with("$2b$12$"));
    assert_eq!(update.user.password_hash.len(), 60);
}

#[test]
fn profile_answer_reads_the_stored_kind_when_none_is_named() {
    let mut req = change(Some("New Name"), Some("test@example.com"), None);
    let kept = update_profile(req, Some(stored_user()), NOW).unwrap();
    let res = profile_response(kept, "rd", "signed".to_string());
    assert_eq!(res.account_id, 7);
    assert_eq!(res.full_name, "New Name");
    assert_eq!(res.email, "test@example.com");
    assert_eq!(res.account_type, Types::RD);
    assert_eq!(res.token, "signed");

    req = change(None, Some("test@example.com"), None);
    let kept = update_profile(req, Some(stored_user()), NOW).unwrap();
    assert_eq!(profile_response(kept, "unknown", String::new()).account_type, Types::Savings);

    req = change(None, Some("test@example.com"), None);
    req.account_type = Some(Types::Current);
    let named = update_profile(req, Some(stored_user()), NOW).unwrap();
    assert_eq!(named.account_type, Some(Types::Current));
    assert_eq!(profile_response(named, "rd", String::new()).account_type, Types::Current);
}
