use chat_presence::auth::{
    accept_login, account_taken, apply_profile_update, check_credentials, login_lookup_failed,
    login_response, login_write_failed, new_account, register_account, update_response,
    validate_login, validate_register, validate_update, LoginRequest, RegisterRequest,
    UpdateUserRequest,
};
use chat_presence::config::allows_any;
use chat_presence::error::DbError;
use chat_presence::model::{User, UserGender, UserState};

fn register_req(password: &str) -> RegisterRequest {
    RegisterRequest {
        username: "Ann".to_string(),
        account: "ann".to_string(),
        password: password.to_string(),
        gender: None,
    }
}

#[test]
fn new_user_defaults() {
    let u = User::new("n".to_string(), "a".to_string(), "p".to_string(), UserGender::Female);
    assert_eq!(u.id.len(), 36);
    assert_eq!(u.state, UserState::Online);
    assert_eq!(u.current_channel_id, None);
    assert_eq!(u.level, 0);
}

#[test]
fn login_requires_both_fields() {
    let e = validate_login(&LoginRequest { account: String::new(), password: "x".to_string() }).unwrap_err();
    assert_eq!(e.status, 400);
    assert_eq!(e.message, "Missing credentials");
    assert!(validate_login(&LoginRequest { account: "a".to_string(), password: "x".to_string() }).is_ok());
    assert_eq!(login_lookup_failed(&DbError::NotFound).status, 401);
    assert_eq!(login_lookup_failed(&DbError::Sqlx("x".to_string())).status, 500);
}

#[test]
fn login_decision_follows_the_verdict() {
    let u = User::new("n".to_string(), "a".to_string(), "h".to_string(), UserGender::Male);
    assert_eq!(accept_login(u.clone(), None, 1).unwrap_err().status, 500);
    assert_eq!(accept_login(u.clone(), Some(false), 1).unwrap_err().status, 401);
    let ok = accept_login(u, Some(true), 77).unwrap();
    assert_eq!(ok.last_login_at, Some(77));
    assert_eq!(ok.state, UserState::Online);
    let r = login_response(ok);
    assert_eq!(r.message, "Login successful");
    assert_eq!(login_write_failed(&DbError::NotFound).message, "Failed to update user state: Item not found");
}

#[test]
fn registered_password_is_hashed_and_verifies() {
    let user = register_account(register_req("s3cret")).unwrap();
    assert_ne!(user.password, "s3cret");
    assert_eq!(user.gender, UserGender::Male);
    assert_eq!(user.id.len(), 36);
    let mut stored = user.clone();
    stored.state = UserState::Gn;
    let good = check_credentials(&LoginRequest { account: "ann".to_string(), password: "s3cret".to_string() }, stored.clone()).unwrap();
    assert_eq!(good.state, UserState::Online);
    assert!(good.last_login_at.is_some());
    let bad = check_credentials(&LoginRequest { account: "ann".to_string(), password: "wrong".to_string() }, stored.clone()).unwrap_err();
    assert_eq!(bad.status, 401);
    stored.password = "not a hash".to_string();
    let broken = check_credentials(&LoginRequest { account: "ann".to_string(), password: "s3cret".to_string() }, stored).unwrap_err();
    assert_eq!(broken.status, 500);
}

#[test]
fn registration_checks() {
    assert_eq!(validate_register(&register_req("")).unwrap_err().status, 400);
    assert!(validate_register(&register_req("p")).is_ok());
    let existing = User::new("n".to_string(), "ann".to_string(), "h".to_string(), UserGender::Male);
    assert_eq!(account_taken(&Ok(existing)).unwrap_err().status, 409);
    assert!(account_taken(&Err(DbError::NotFound)).is_ok());
    assert_eq!(new_account(register_req("p"), None, "id".to_string(), 3).unwrap_err().status, 500);
    let mut req = register_req("p");
    req.gender = Some(UserGender::Female);
    let u = new_account(req, Some("H".to_string()), "id".to_string(), 3).unwrap();
    assert_eq!(u.password, "H");
    assert_eq!(u.gender, UserGender::Female);
    assert_eq!(u.created_at, 3);
}

#[test]
fn profile_update() {
    let req = || UpdateUserRequest { user_id: "u".to_string(), name: "New".to_string(), gender: None };
    assert_eq!(validate_update(&UpdateUserRequest { user_id: "u".to_string(), name: String::new(), gender: None }).unwrap_err().status, 400);
    assert!(validate_update(&req()).is_ok());
    assert_eq!(apply_profile_update(req(), Err(DbError::NotFound)).unwrap_err().status, 404);
    assert_eq!(apply_profile_update(req(), Err(DbError::Sqlx("x".to_string()))).unwrap_err().status, 500);
    let u = User::new("Old".to_string(), "a".to_string(), "h".to_string(), UserGender::Female);
    let updated = apply_profile_update(req(), Ok(u)).unwrap();
    assert_eq!(updated.name, "New");
    assert_eq!(updated.gender, UserGender::Female);
    let r = update_response(updated);
    assert_eq!(r.user.name, "New");
}

#[test]
fn wildcard_lists() {
    assert!(allows_any(&vec!["http://a".to_string(), "*".to_string()]));
    assert!(!allows_any(&vec!["http://a".to_string()]));
    assert!(!allows_any(&vec![]));
}
