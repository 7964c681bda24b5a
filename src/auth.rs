//! Login, registration and profile updates: the decisions around the
//! credential hash and the user record.

use vstd::prelude::*;

use crate::clock::{fresh_id, now_millis};
use crate::error::{db_error_text, DbError};
use crate::model::{User, UserGender, UserState};

verus! {

#[derive(Clone, Debug)]
pub struct LoginRequest {
    pub account: String,
    pub password: String,
}

#[derive(Clone, Debug)]
pub struct RegisterRequest {
    pub username: String,
    pub account: String,
    pub password: String,
    pub gender: Option<UserGender>,
}

#[derive(Clone, Debug)]
pub struct UpdateUserRequest {
    pub user_id: String,
    pub name: String,
    pub gender: Option<UserGender>,
}

/// A user record as sent back, without the credential hash.
#[derive(Clone, Debug)]
pub struct UserResponse {
    pub id: String,
    pub name: String,
    pub account: String,
    pub gender: UserGender,
    pub avatar: Option<String>,
    pub level: i64,
    pub state: UserState,
    pub current_channel_id: Option<String>,
    pub created_at: i64,
    pub last_login_at: Option<i64>,
}

#[derive(Clone, Debug)]
pub struct AuthResponse {
    pub message: String,
    pub user: UserResponse,
}

/// A refused request: the HTTP status and the text of `{error}`.
#[derive(Clone, Debug)]
pub struct ApiError {
    pub status: u16,
    pub message: String,
}

/// What bcrypt's verification says of `password` against the stored hash:
/// whether they match, or none when the hash cannot be read.
pub uninterp spec fn bcrypt_verdict(password: Seq<char>, hash: Seq<char>) -> Option<bool>;

/// Relies on `bcrypt::verify`: whether `password` matches `hash`, an error
/// when `hash` is not a bcrypt hash. It reads nothing but its arguments.
#[verifier::external_body]
fn verify_password(password: &str, hash: &str) -> (r: Option<bool>)
    ensures
        r == bcrypt_verdict(password@, hash@),
{
    bcrypt::verify(password, hash).ok()
}

/// Relies on `bcrypt::hash` with `bcrypt::DEFAULT_COST`: a salted hash of
/// `password`, the salt drawn at random; none when no randomness was had.
#[verifier::external_body]
fn hash_password(password: &str) -> (r: Option<String>) {
    bcrypt::hash(password, bcrypt::DEFAULT_COST).ok()
}

fn api_error(status: u16, message: &str) -> (e: ApiError)
    ensures
        e.status == status,
        e.message@ == message@,
{
    ApiError { status, message: String::from_str(message) }
}

fn api_error_with(status: u16, prefix: &str, e: &DbError) -> (r: ApiError)
    ensures
        r.status == status,
        r.message@ == prefix@ + db_error_text(*e),
{
    let mut message = String::from_str(prefix);
    let d = e.describe();
    message.append(d.as_str());
    ApiError { status, message }
}

/// The user record as sent back.
pub fn user_response(user: User) -> (r: UserResponse)
    ensures
        r.id == user.id,
        r.name == user.name,
        r.account == user.account,
        r.gender == user.gender,
        r.avatar == user.avatar,
        r.level == user.level,
        r.state == user.state,
        r.current_channel_id == user.current_channel_id,
        r.created_at == user.created_at,
        r.last_login_at == user.last_login_at,
{
    UserResponse {
        id: user.id,
        name: user.name,
        account: user.account,
        gender: user.gender,
        avatar: user.avatar,
        level: user.level,
        state: user.state,
        current_channel_id: user.current_channel_id,
        created_at: user.created_at,
        last_login_at: user.last_login_at,
    }
}

/// Refuses a login without an account or a password.
pub fn validate_login(req: &LoginRequest) -> (r: Result<(), ApiError>)
    ensures
        r is Err <==> (req.account@.len() == 0 || req.password@.len() == 0),
        r matches Err(e) ==> e.status == 400 && e.message@ == "Missing credentials"@,
{
    if req.account.as_str().is_empty() || req.password.as_str().is_empty() {
        return Err(api_error(400, "Missing credentials"));
    }
    Ok(())
}

/// What a failed account lookup means for a login.
pub fn login_lookup_failed(e: &DbError) -> (r: ApiError)
    ensures
        *e is NotFound ==> r.status == 401 && r.message@ == "找不到此帳號"@,
        !(*e is NotFound) ==> r.status == 500 && r.message@ == "Login failed"@,
{
    match e {
        DbError::NotFound => api_error(401, "找不到此帳號"),
        _ => api_error(500, "Login failed"),
    }
}

/// The login decision, given bcrypt's verdict on the password and the time
/// now: a matching password gives the user back online, stamped with the
/// login time.
pub fn accept_login(user: User, verdict: Option<bool>, now: i64) -> (r: Result<User, ApiError>)
    ensures
        verdict is None ==> (r matches Err(e) && e.status == 500 && e.message@ == "密碼驗證失敗"@),
        verdict == Some(false) ==> (r matches Err(e) && e.status == 401 && e.message@ == "密碼錯誤"@),
        verdict == Some(true) ==> r == Ok::<User, ApiError>(
            User { last_login_at: Some(now), state: UserState::Online, ..user },
        ),
{
    match verdict {
        None => Err(api_error(500, "密碼驗證失敗")),
        Some(false) => Err(api_error(401, "密碼錯誤")),
        Some(true) => {
            let mut user = user;
            user.last_login_at = Some(now);
            user.state = UserState::Online;
            Ok(user)
        },
    }
}

/// Checks the login's password against the user's stored hash and decides
/// as `accept_login` does, at the time now.
pub fn check_credentials(req: &LoginRequest, user: User) -> (r: Result<User, ApiError>)
    ensures
        bcrypt_verdict(req.password@, user.password@) is None ==> (r matches Err(e) && e.status == 500),
        bcrypt_verdict(req.password@, user.password@) == Some(false) ==> (r matches Err(e) && e.status
            == 401),
        bcrypt_verdict(req.password@, user.password@) == Some(true) ==> (r matches Ok(u) && u
            == User { last_login_at: u.last_login_at, state: UserState::Online, ..user }
            && u.last_login_at is Some),
{
    let verdict = verify_password(req.password.as_str(), user.password.as_str());
    let now = now_millis();
    accept_login(user, verdict, now)
}

/// The failure of the write that stores a login.
pub fn login_write_failed(e: &DbError) -> (r: ApiError)
    ensures
        r.status == 500,
        r.message@ == "Failed to update user state: "@ + db_error_text(*e),
{
    api_error_with(500, "Failed to update user state: ", e)
}

/// The response to a login that went through.
pub fn login_response(user: User) -> (r: AuthResponse)
    ensures
        r.message@ == "Login successful"@,
        r.user.id == user.id,
        r.user.state == user.state,
        r.user.last_login_at == user.last_login_at,
{
    AuthResponse { message: String::from_str("Login successful"), user: user_response(user) }
}

/// Refuses a registration without a name, an account or a password.
pub fn validate_register(req: &RegisterRequest) -> (r: Result<(), ApiError>)
    ensures
        r is Err <==> (req.username@.len() == 0 || req.account@.len() == 0 || req.password@.len()
            == 0),
        r matches Err(e) ==> e.status == 400 && e.message@ == "Missing required fields"@,
{
    if req.username.as_str().is_empty() || req.account.as_str().is_empty()
        || req.password.as_str().is_empty() {
        return Err(api_error(400, "Missing required fields"));
    }
    Ok(())
}

/// Refuses a registration whose account is taken: the lookup of it found a user.
pub fn account_taken(lookup: &Result<User, DbError>) -> (r: Result<(), ApiError>)
    ensures
        r is Err <==> lookup is Ok,
        r matches Err(e) ==> e.status == 409 && e.message@ == "此帳號已被註冊"@,
{
    match lookup {
        Ok(_) => Err(api_error(409, "此帳號已被註冊")),
        Err(_) => Ok(()),
    }
}

/// The new user of a registration, given the hash of its password, its id
/// and the time now; a male user when no gender is given.
pub fn new_account(req: RegisterRequest, hash: Option<String>, id: String, now: i64) -> (r: Result<User, ApiError>)
    ensures
        hash is None ==> (r matches Err(e) && e.status == 500 && e.message@ == "密碼加密失敗"@),
        hash matches Some(h) ==> r == Ok::<User, ApiError>(
            User {
                id,
                name: req.username,
                account: req.account,
                password: h,
                gender: match req.gender {
                    Some(g) => g,
                    None => UserGender::Male,
                },
                avatar: None,
                level: 0,
                created_at: now,
                last_login_at: None,
                state: UserState::Online,
                current_channel_id: None,
            },
        ),
{
    let password = match hash {
        Some(h) => h,
        None => return Err(api_error(500, "密碼加密失敗")),
    };
    let gender = match req.gender {
        Some(g) => g,
        None => UserGender::Male,
    };
    Ok(
        User {
            id,
            name: req.username,
            account: req.account,
            password,
            gender,
            avatar: None,
            level: 0,
            created_at: now,
            last_login_at: None,
            state: UserState::Online,
            current_channel_id: None,
        },
    )
}

/// Builds the new user of a registration: hashes its password, gives it a
/// fresh id and stamps it with the time now, as `new_account` does.
pub fn register_account(req: RegisterRequest) -> (r: Result<User, ApiError>)
    ensures
        r matches Ok(u) ==> u.name == req.username && u.account == req.account && u.gender == match req.gender {
            Some(g) => g,
            None => UserGender::Male,
        } && u.state == UserState::Online && u.current_channel_id is None && u.level == 0
            && u.avatar is None && u.last_login_at is None && u.id@.len() == 36,
        r matches Err(e) ==> e.status == 500,
{
    let hash = hash_password(req.password.as_str());
    let id = fresh_id();
    let now = now_millis();
    new_account(req, hash, id, now)
}

/// The failure of the write that stores a registration.
pub fn register_write_failed(e: &DbError) -> (r: ApiError)
    ensures
        r.status == 500,
        r.message@ == "Registration failed: "@ + db_error_text(*e),
{
    api_error_with(500, "Registration failed: ", e)
}

/// The response to a registration that went through.
pub fn register_response(user: User) -> (r: AuthResponse)
    ensures
        r.message@ == "Registration successful"@,
        r.user.id == user.id,
        r.user.name == user.name,
{
    AuthResponse { message: String::from_str("Registration successful"), user: user_response(user) }
}

/// Refuses a profile update without a name.
pub fn validate_update(req: &UpdateUserRequest) -> (r: Result<(), ApiError>)
    ensures
        r is Err <==> req.name@.len() == 0,
        r matches Err(e) ==> e.status == 400 && e.message@ == "名稱為必填"@,
{
    if req.name.as_str().is_empty() {
        return Err(api_error(400, "名稱為必填"));
    }
    Ok(())
}

/// A profile update applied to the user read for it: the name is replaced,
/// and the gender when one is given.
pub fn apply_profile_update(req: UpdateUserRequest, user: Result<User, DbError>) -> (r: Result<User, ApiError>)
    ensures
        user matches Err(e) ==> (r matches Err(a) && if e is NotFound {
            a.status == 404 && a.message@ == "找不到此用戶"@
        } else {
            a.status == 500 && a.message@ == "更新失敗"@
        }),
        user matches Ok(u) ==> r == Ok::<User, ApiError>(
            User {
                name: req.name,
                gender: match req.gender {
                    Some(g) => g,
                    None => u.gender,
                },
                ..u
            },
        ),
{
    let mut user = match user {
        Ok(u) => u,
        Err(DbError::NotFound) => return Err(api_error(404, "找不到此用戶")),
        Err(_) => return Err(api_error(500, "更新失敗")),
    };
    user.name = req.name;
    match req.gender {
        Some(g) => {
            user.gender = g;
        },
        None => {},
    }
    Ok(user)
}

/// The failure of the write that stores a profile update.
pub fn update_write_failed(e: &DbError) -> (r: ApiError)
    ensures
        r.status == 500,
        r.message@ == "Update failed: "@ + db_error_text(*e),
{
    api_error_with(500, "Update failed: ", e)
}

/// The response to a profile update that went through.
pub fn update_response(user: User) -> (r: AuthResponse)
    ensures
        r.message@ == "更新成功"@,
        r.user.id == user.id,
        r.user.name == user.name,
        r.user.gender == user.gender,
{
    AuthResponse { message: String::from_str("更新成功"), user: user_response(user) }
}

} // verus!
