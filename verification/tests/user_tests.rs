use realworld::errors::{AppError, ConflictField, InvalidField};
use realworld::store::Store;
use realworld::store::User;
use realworld::users::{login, post_users, LoginUser, LoginUserData, NewUserData, ReqUser, UserForm};

const NOW: i64 = 1_700_000_000;

fn req(username: &str, email: &str, password: &str) -> ReqUser {
    ReqUser {
        user: NewUserData {
            username: Some(username.to_string()),
            email: Some(email.to_string()),
            password: Some(password.to_string()),
        },
    }
}

#[test]
fn register_and_login_round_trip() {
    let mut s = Store::new();
    let u = post_users(&mut s, &req("alice", "alice@x.com", "password123")).expect("register");
    assert_eq!(u.username, "alice");
    assert_eq!(u.email, "alice@x.com");
    assert_ne!(u.password, "password123");
    let creds = LoginUser {
        user: LoginUserData { email: "alice@x.com".to_string(), password: "password123".to_string() },
    };
    let logged = login(&s, &creds.user.email, &creds.user.password, "secret", NOW).expect("login");
    assert_eq!(logged.id, u.id);
    assert_eq!(logged.username, "alice");
    assert!(!logged.token.is_empty());
}

#[test]
fn login_rejects_wrong_password() {
    let mut s = Store::new();
    post_users(&mut s, &req("alice", "alice@x.com", "password123")).expect("register");
    let got = login(&s, "alice@x.com", "password124", "secret", NOW);
    assert_eq!(got.unwrap_err(), AppError::Unauthorized);
}

#[test]
fn login_rejects_unknown_email() {
    let s = Store::new();
    let got = login(&s, "nobody@x.com", "password123", "secret", NOW);
    assert_eq!(got.unwrap_err(), AppError::NotFound);
}

#[test]
fn register_validates_fields() {
    let mut s = Store::new();
    let mut r = req("", "a@x.com", "password123");
    assert_eq!(
        post_users(&mut s, &r).unwrap_err(),
        AppError::ValidationFailed(InvalidField::Username)
    );
    r = req("al", "not-an-email", "password123");
    assert_eq!(
        post_users(&mut s, &r).unwrap_err(),
        AppError::ValidationFailed(InvalidField::Email)
    );
    r = req("al", "a@x.com", "short");
    assert_eq!(
        post_users(&mut s, &r).unwrap_err(),
        AppError::ValidationFailed(InvalidField::Password)
    );
    r = ReqUser { user: NewUserData { username: None, email: None, password: None } };
    assert_eq!(
        post_users(&mut s, &r).unwrap_err(),
        AppError::ValidationFailed(InvalidField::Username)
    );
}

#[test]
fn register_reports_duplicates_by_field() {
    let mut s = Store::new();
    post_users(&mut s, &req("alice", "alice@x.com", "password123")).expect("register");
    let dup_name = post_users(&mut s, &req("alice", "other@x.com", "password123"));
    assert_eq!(dup_name.unwrap_err(), AppError::Conflict(ConflictField::Username));
    let dup_mail = post_users(&mut s, &req("bob", "alice@x.com", "password123"));
    assert_eq!(dup_mail.unwrap_err(), AppError::Conflict(ConflictField::Email));
}

#[test]
fn update_patches_only_set_fields() {
    let mut s = Store::new();
    let u = post_users(&mut s, &req("alice", "alice@x.com", "password123")).expect("register");
    let form = UserForm {
        email: None,
        bio: Some("verified systems enthusiast".to_string()),
        password: None,
        image: None,
        username: None,
    };
    let patched = User::update(&mut s, u.id, &form).expect("update");
    assert_eq!(patched.username, "alice");
    assert_eq!(patched.email, "alice@x.com");
    assert_eq!(patched.bio.as_deref(), Some("verified systems enthusiast"));
    assert_eq!(patched.image, None);
}

#[test]
fn update_rejects_taken_username() {
    let mut s = Store::new();
    let _a = post_users(&mut s, &req("alice", "alice@x.com", "password123")).expect("register");
    let b = post_users(&mut s, &req("bob", "bob@x.com", "password123")).expect("register");
    let form = UserForm {
        email: None,
        bio: None,
        password: None,
        image: None,
        username: Some("alice".to_string()),
    };
    let got = User::update(&mut s, b.id, &form);
    assert_eq!(got.unwrap_err(), AppError::Conflict(ConflictField::Username));
}

#[test]
fn update_of_unknown_user_is_not_found() {
    let mut s = Store::new();
    let form = UserForm { email: None, bio: None, password: None, image: None, username: None };
    assert_eq!(User::update(&mut s, 99, &form).unwrap_err(), AppError::NotFound);
}

#[test]
fn lookups_find_exactly_the_registered_user() {
    let mut s = Store::new();
    let u = post_users(&mut s, &req("alice", "alice@x.com", "password123")).expect("register");
    assert_eq!(User::with_username(&s, "alice").expect("by name").id, u.id);
    assert_eq!(User::with_email(&s, "alice@x.com").expect("by email").id, u.id);
    assert_eq!(User::read(&s, u.id).expect("by id").username, "alice");
    assert_eq!(User::with_username(&s, "alicia").unwrap_err(), AppError::NotFound);
    assert_eq!(User::with_email(&s, "alicia@x.com").unwrap_err(), AppError::NotFound);
}

#[test]
fn jwt_issues_a_verifiable_token() {
    let mut s = Store::new();
    let u = post_users(&mut s, &req("alice", "alice@x.com", "password123")).expect("register");
    let (token, claims) = u.jwt("secret");
    let got = realworld::token::verify(&token, "secret", claims.exp - 1).expect("verify");
    assert_eq!(got.id, u.id);
    assert_eq!(got.username, "alice");
}

#[test]
fn error_messages_name_the_failure() {
    assert_eq!(AppError::Unauthorized.message(), "unauthorized");
    assert_eq!(AppError::NotFound.message(), "not found");
    assert_eq!(
        AppError::Conflict(ConflictField::Username).message(),
        "username is already taken"
    );
    assert_eq!(
        AppError::ValidationFailed(InvalidField::Password).message(),
        "password is too short"
    );
    assert_eq!(AppError::Unavailable.message(), "service unavailable");
}
