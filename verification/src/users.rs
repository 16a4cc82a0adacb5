//! User accounts: registration, login, lookups, partial updates and
//! projections.
//!
//! Registration hashes the password through the trusted `bcrypt` wrapper
//! and inserts a fresh row; login finds the account by email, checks the
//! password against the stored hash, and issues a token. Updates patch only
//! the fields that are set, leaving the rest unchanged. Username and email
//! stay unique across all of it.

use vstd::prelude::*;

use crate::auth::Auth;
use crate::errors::{AppError, ConflictField, InvalidField};
use crate::password::{hash_password, password_matches, verify_password};
use crate::profiles::{is_profile_of, Profile};
use crate::store::{
    dup_opt_string, lemma_user_exists_extend, lemma_user_exists_same_ids, lemma_user_mailed_props,
    lemma_user_named_props, user_by_id, user_mailed, user_named, Store, User,
};
use crate::token::{issue, now_ts, token_of, Claims, TOKEN_TTL_SECS};

verus! {

/// A copy of a stored user row, equal to the original.
pub(crate) fn dup_user(u: &User) -> (r: User)
    ensures
        r == *u,
{
    User {
        id: u.id,
        username: u.username.clone(),
        email: u.email.clone(),
        bio: dup_opt_string(&u.bio),
        image: dup_opt_string(&u.image),
        password: u.password.clone(),
        token: u.token.clone(),
    }
}

impl User {
    /// The profile view of this user, with the given viewer-relative flag.
    pub fn to_profile(&self, following: bool) -> (p: Profile)
        ensures
            is_profile_of(p, *self, following),
    {
        Profile {
            username: self.username.clone(),
            bio: dup_opt_string(&self.bio),
            image: dup_opt_string(&self.image),
            following,
        }
    }

    /// The user registered under the given email.
    ///
    /// Returns `NotFound` exactly when no user carries that email.
    pub fn with_email(s: &Store, email: &str) -> (r: Result<User, AppError>)
        ensures
            match r {
                Ok(u) => user_mailed(s.users@, email@) is Some && u == s.users@[user_mailed(
                    s.users@,
                    email@,
                ).unwrap()],
                Err(e) => e == AppError::NotFound && user_mailed(s.users@, email@) is None,
            },
    {
        match s.find_user_by_email(email) {
            Some(j) => Ok(dup_user(&s.users[j])),
            None => Err(AppError::NotFound),
        }
    }

    /// The user registered under the given username.
    ///
    /// Returns `NotFound` exactly when no user carries that username.
    pub fn with_username(s: &Store, username: &str) -> (r: Result<User, AppError>)
        ensures
            match r {
                Ok(u) => user_named(s.users@, username@) is Some && u == s.users@[user_named(
                    s.users@,
                    username@,
                ).unwrap()],
                Err(e) => e == AppError::NotFound && user_named(s.users@, username@) is None,
            },
    {
        match s.find_user_by_name(username) {
            Some(j) => Ok(dup_user(&s.users[j])),
            None => Err(AppError::NotFound),
        }
    }

    /// A token for this user, issued at the current moment, together with
    /// its claims: the token encodes this user's id and username under the
    /// secret, with the expiry the claims carry.
    pub fn jwt(&self, secret: &str) -> (r: (String, Claims))
        ensures
            r.0@ == token_of(self.id, self.username@, r.1.exp, secret@),
            r.1.id == self.id,
            r.1.username@ == self.username@,
    {
        let now = now_ts();
        let at = if now < 0 {
            0
        } else if now <= i64::MAX - TOKEN_TTL_SECS {
            now
        } else {
            i64::MAX - TOKEN_TTL_SECS
        };
        issue(self.id, self.username.as_str(), secret, at)
    }

    /// The user with the given id.
    ///
    /// Returns `NotFound` exactly when no user carries that id.
    pub fn read(s: &Store, user_id: i32) -> (r: Result<User, AppError>)
        ensures
            match r {
                Ok(u) => user_by_id(s.users@, user_id) is Some && u == s.users@[user_by_id(
                    s.users@,
                    user_id,
                ).unwrap()],
                Err(e) => e == AppError::NotFound && user_by_id(s.users@, user_id) is None,
            },
    {
        match s.find_user_by_id(user_id) {
            Some(j) => Ok(dup_user(&s.users[j])),
            None => Err(AppError::NotFound),
        }
    }
}

/// A partial-field patch for a user: fields left `None` are not touched.
pub struct UserForm {
    pub email: Option<String>,
    pub bio: Option<String>,
    pub password: Option<String>,
    pub image: Option<String>,
    pub username: Option<String>,
}

/// `nu` is `u` patched by `form`: fields set in the form take its values,
/// the rest keep `u`'s.
pub open spec fn patch_matches(nu: User, u: User, form: UserForm) -> bool {
    &&& nu.id == u.id
    &&& nu.username@ == (match form.username {
        Some(x) => x@,
        None => u.username@,
    })
    &&& nu.email@ == (match form.email {
        Some(x) => x@,
        None => u.email@,
    })
    &&& nu.password@ == (match form.password {
        Some(x) => x@,
        None => u.password@,
    })
    &&& nu.bio == (match form.bio {
        Some(x) => Some(x),
        None => u.bio,
    })
    &&& nu.image == (match form.image {
        Some(x) => Some(x),
        None => u.image,
    })
    &&& nu.token == u.token
}

impl User {
    /// Inserts a new user with a fresh id.
    ///
    /// All of username, email and password must be set; the username and
    /// the email must be unused. Exactly otherwise the matching
    /// `ValidationFailed` or `Conflict` error comes back and the store is
    /// untouched.
    pub fn create(s: &mut Store, form: &UserForm) -> (r: Result<User, AppError>)
        requires
            old(s).wf(),
            old(s).next_user_id < i32::MAX,
        ensures
            final(s).wf(),
            final(s).articles@ == old(s).articles@,
            final(s).comments@ == old(s).comments@,
            final(s).follows@ == old(s).follows@,
            final(s).favorites@ == old(s).favorites@,
            final(s).next_article_id == old(s).next_article_id,
            final(s).next_comment_id == old(s).next_comment_id,
            match r {
                Ok(u) => {
                    &&& form.username is Some && form.email is Some && form.password is Some
                    &&& user_named(old(s).users@, form.username.unwrap()@) is None
                    &&& user_mailed(old(s).users@, form.email.unwrap()@) is None
                    &&& final(s).users@ == old(s).users@.push(u)
                    &&& final(s).next_user_id == old(s).next_user_id + 1
                    &&& u.id == old(s).next_user_id
                    &&& u.username@ == form.username.unwrap()@
                    &&& u.email@ == form.email.unwrap()@
                    &&& u.password@ == form.password.unwrap()@
                    &&& u.bio == form.bio
                    &&& u.image == form.image
                    &&& u.token@ == Seq::<char>::empty()
                },
                Err(e) => {
                    &&& *final(s) == *old(s)
                    &&& match e {
                        AppError::ValidationFailed(InvalidField::Username) => form.username is None,
                        AppError::ValidationFailed(InvalidField::Email) => form.username is Some
                            && form.email is None,
                        AppError::ValidationFailed(InvalidField::Password) => form.username is Some
                            && form.email is Some && form.password is None,
                        AppError::Conflict(ConflictField::Username) => form.username is Some
                            && form.email is Some && form.password is Some && user_named(
                            old(s).users@,
                            form.username.unwrap()@,
                        ) is Some,
                        AppError::Conflict(ConflictField::Email) => form.username is Some
                            && form.email is Some && form.password is Some && user_named(
                            old(s).users@,
                            form.username.unwrap()@,
                        ) is None && user_mailed(old(s).users@, form.email.unwrap()@) is Some,
                        _ => false,
                    }
                },
            },
    {
        let username = match &form.username {
            Some(x) => x,
            None => {
                return Err(AppError::ValidationFailed(InvalidField::Username));
            },
        };
        let email = match &form.email {
            Some(x) => x,
            None => {
                return Err(AppError::ValidationFailed(InvalidField::Email));
            },
        };
        let password = match &form.password {
            Some(x) => x,
            None => {
                return Err(AppError::ValidationFailed(InvalidField::Password));
            },
        };
        if s.find_user_by_name(username.as_str()).is_some() {
            return Err(AppError::Conflict(ConflictField::Username));
        }
        if s.find_user_by_email(email.as_str()).is_some() {
            return Err(AppError::Conflict(ConflictField::Email));
        }
        let row = User {
            id: s.next_user_id,
            username: username.clone(),
            email: email.clone(),
            bio: dup_opt_string(&form.bio),
            image: dup_opt_string(&form.image),
            password: password.clone(),
            token: String::new(),
        };
        let result = dup_user(&row);
        let ghost prev = *s;
        s.users.push(row);
        s.next_user_id = s.next_user_id + 1;
        proof {
            lemma_user_named_props(prev.users@, username@, 0);
            lemma_user_mailed_props(prev.users@, email@, 0);
            assert forall|a: int, b: int|
                #![trigger s.users@[a], s.users@[b]]
                0 <= a < b < s.users@.len() implies s.users@[a].id != s.users@[b].id
                && s.users@[a].username@ != s.users@[b].username@ && s.users@[a].email@
                != s.users@[b].email@ by {
                if b < prev.users@.len() {
                    assert(s.users@[a] == prev.users@[a]);
                    assert(s.users@[b] == prev.users@[b]);
                } else {
                    assert(s.users@[a] == prev.users@[a]);
                }
            }
            assert forall|i: int| 0 <= i < s.articles@.len() implies crate::store::user_exists(
                s.users@,
                (#[trigger] s.articles@[i]).author,
            ) by {
                lemma_user_exists_extend(prev.users@, s.users@, s.articles@[i].author);
            }
            assert forall|i: int| 0 <= i < s.comments@.len() implies crate::store::user_exists(
                s.users@,
                (#[trigger] s.comments@[i]).author,
            ) by {
                lemma_user_exists_extend(prev.users@, s.users@, s.comments@[i].author);
            }
        }
        Ok(result)
    }

    /// Patches the user with the given id by the set fields of the form.
    ///
    /// Returns `NotFound` exactly when the id is unknown, and a `Conflict`
    /// exactly when a set username or email is already carried by another
    /// user; in both cases the store is untouched.
    pub fn update(s: &mut Store, user_id: i32, form: &UserForm) -> (r: Result<User, AppError>)
        requires
            old(s).wf(),
        ensures
            final(s).wf(),
            final(s).articles@ == old(s).articles@,
            final(s).comments@ == old(s).comments@,
            final(s).follows@ == old(s).follows@,
            final(s).favorites@ == old(s).favorites@,
            final(s).next_user_id == old(s).next_user_id,
            final(s).next_article_id == old(s).next_article_id,
            final(s).next_comment_id == old(s).next_comment_id,
            match r {
                Ok(u) => {
                    let j = user_by_id(old(s).users@, user_id).unwrap();
                    &&& user_by_id(old(s).users@, user_id) is Some
                    &&& no_name_clash(old(s).users@, j, form.username)
                    &&& no_mail_clash(old(s).users@, j, form.email)
                    &&& final(s).users@.len() == old(s).users@.len()
                    &&& forall|k: int|
                        0 <= k < old(s).users@.len() && k != j ==> final(s).users@[k] == old(
                            s,
                        ).users@[k]
                    &&& patch_matches(final(s).users@[j], old(s).users@[j], *form)
                    &&& u == final(s).users@[j]
                },
                Err(e) => {
                    &&& *final(s) == *old(s)
                    &&& match e {
                        AppError::NotFound => user_by_id(old(s).users@, user_id) is None,
                        AppError::Conflict(ConflictField::Username) => {
                            let j = user_by_id(old(s).users@, user_id).unwrap();
                            &&& user_by_id(old(s).users@, user_id) is Some
                            &&& !no_name_clash(old(s).users@, j, form.username)
                        },
                        AppError::Conflict(ConflictField::Email) => {
                            let j = user_by_id(old(s).users@, user_id).unwrap();
                            &&& user_by_id(old(s).users@, user_id) is Some
                            &&& no_name_clash(old(s).users@, j, form.username)
                            &&& !no_mail_clash(old(s).users@, j, form.email)
                        },
                        _ => false,
                    }
                },
            },
    {
        let j = match s.find_user_by_id(user_id) {
            Some(j) => j,
            None => {
                return Err(AppError::NotFound);
            },
        };
        match &form.username {
            Some(n) => {
                match s.find_user_by_name(n.as_str()) {
                    Some(k) => {
                        if k != j {
                            return Err(AppError::Conflict(ConflictField::Username));
                        }
                    },
                    None => (),
                }
            },
            None => (),
        }
        match &form.email {
            Some(m) => {
                match s.find_user_by_email(m.as_str()) {
                    Some(k) => {
                        if k != j {
                            return Err(AppError::Conflict(ConflictField::Email));
                        }
                    },
                    None => (),
                }
            },
            None => (),
        }
        let old_row = &s.users[j];
        let new_row = User {
            id: old_row.id,
            username: match &form.username {
                Some(x) => x.clone(),
                None => old_row.username.clone(),
            },
            email: match &form.email {
                Some(x) => x.clone(),
                None => old_row.email.clone(),
            },
            bio: match &form.bio {
                Some(x) => Some(x.clone()),
                None => dup_opt_string(&old_row.bio),
            },
            image: match &form.image {
                Some(x) => Some(x.clone()),
                None => dup_opt_string(&old_row.image),
            },
            password: match &form.password {
                Some(x) => x.clone(),
                None => old_row.password.clone(),
            },
            token: old_row.token.clone(),
        };
        let ghost prev = *s;
        s.users.set(j, new_row);
        proof {
            if form.username is Some {
                lemma_user_named_props(prev.users@, form.username.unwrap()@, 0);
            }
            if form.email is Some {
                lemma_user_mailed_props(prev.users@, form.email.unwrap()@, 0);
            }
            assert forall|a: int, b: int|
                #![trigger s.users@[a], s.users@[b]]
                0 <= a < b < s.users@.len() implies s.users@[a].id != s.users@[b].id
                && s.users@[a].username@ != s.users@[b].username@ && s.users@[a].email@
                != s.users@[b].email@ by {
                assert(prev.users@[a].id != prev.users@[b].id && prev.users@[a].username@
                    != prev.users@[b].username@ && prev.users@[a].email@ != prev.users@[b].email@);
            }
            assert forall|i: int| 0 <= i < s.articles@.len() implies crate::store::user_exists(
                s.users@,
                (#[trigger] s.articles@[i]).author,
            ) by {
                lemma_user_exists_same_ids(prev.users@, s.users@, s.articles@[i].author);
            }
            assert forall|i: int| 0 <= i < s.comments@.len() implies crate::store::user_exists(
                s.users@,
                (#[trigger] s.comments@[i]).author,
            ) by {
                lemma_user_exists_same_ids(prev.users@, s.users@, s.comments@[i].author);
            }
        }
        Ok(dup_user(&s.users[j]))
    }
}

/// No other user than the one at index `j` carries the username set in the
/// form (an unset form field never clashes).
pub open spec fn no_name_clash(users: Seq<User>, j: int, username: Option<String>) -> bool {
    match username {
        Some(n) => match user_named(users, n@) {
            Some(k) => k == j,
            None => true,
        },
        None => true,
    }
}

/// No other user than the one at index `j` carries the email set in the
/// form.
pub open spec fn no_mail_clash(users: Seq<User>, j: int, email: Option<String>) -> bool {
    match email {
        Some(m) => match user_mailed(users, m@) {
            Some(k) => k == j,
            None => true,
        },
        None => true,
    }
}

// ---------------------------------------------------------------------------
// Registration and login.
// ---------------------------------------------------------------------------

/// A registration request as the caller hands it in.
pub struct ReqUser {
    pub user: NewUserData,
}

/// The fields of a registration request.
pub struct NewUserData {
    pub username: Option<String>,
    pub email: Option<String>,
    pub password: Option<String>,
}

/// A login request as the caller hands it in.
pub struct LoginUser {
    pub user: LoginUserData,
}

/// The fields of a login request.
pub struct LoginUserData {
    pub email: String,
    pub password: String,
}

/// A username is valid when it is not empty.
pub open spec fn valid_username(n: Seq<char>) -> bool {
    n.len() >= 1
}

/// An email is valid when it carries an `@`.
pub open spec fn valid_email(e: Seq<char>) -> bool {
    exists|i: int| 0 <= i < e.len() && e[i] == '@'
}

/// A password is valid when it is at least eight characters long.
pub open spec fn valid_password(p: Seq<char>) -> bool {
    p.len() >= 8
}

/// The set username is valid.
pub open spec fn username_ok(o: Option<String>) -> bool {
    match o {
        Some(x) => valid_username(x@),
        None => false,
    }
}

/// The set email is valid.
pub open spec fn email_ok(o: Option<String>) -> bool {
    match o {
        Some(x) => valid_email(x@),
        None => false,
    }
}

/// The set password is valid.
pub open spec fn password_ok(o: Option<String>) -> bool {
    match o {
        Some(x) => valid_password(x@),
        None => false,
    }
}

/// Whether the string carries the character.
fn str_has_char(s: &str, c: char) -> (r: bool)
    ensures
        r == exists|i: int| 0 <= i < s@.len() && s@[i] == c,
{
    let n = s.unicode_len();
    let mut i: usize = 0;
    while i < n
        invariant
            n == s@.len(),
            i <= n,
            forall|k: int| 0 <= k < i ==> s@[k] != c,
        decreases n - i,
    {
        if s.get_char(i) == c {
            return true;
        }
        i = i + 1;
    }
    false
}

/// Registers a new user: validates presence and shape of the fields,
/// hashes the password through the trusted `bcrypt` wrapper, and inserts
/// the account.
///
/// The stored and returned password field holds the hash, never the
/// password, and the hash matches the registered password. Validation and
/// conflict failures come back exactly as stated and leave the store
/// untouched; `Unavailable` comes back only when the hasher itself
/// failed.
pub fn post_users(s: &mut Store, req: &ReqUser) -> (r: Result<User, AppError>)
    requires
        old(s).wf(),
        old(s).next_user_id < i32::MAX,
    ensures
        final(s).wf(),
        final(s).articles@ == old(s).articles@,
        final(s).comments@ == old(s).comments@,
        final(s).follows@ == old(s).follows@,
        final(s).favorites@ == old(s).favorites@,
        final(s).next_article_id == old(s).next_article_id,
        final(s).next_comment_id == old(s).next_comment_id,
        match r {
            Ok(u) => {
                &&& username_ok(req.user.username) && email_ok(req.user.email) && password_ok(
                    req.user.password,
                )
                &&& user_named(old(s).users@, req.user.username.unwrap()@) is None
                &&& user_mailed(old(s).users@, req.user.email.unwrap()@) is None
                &&& final(s).users@ == old(s).users@.push(u)
                &&& final(s).next_user_id == old(s).next_user_id + 1
                &&& u.id == old(s).next_user_id
                &&& u.username@ == req.user.username.unwrap()@
                &&& u.email@ == req.user.email.unwrap()@
                &&& password_matches(req.user.password.unwrap()@, u.password@)
                &&& u.bio is None && u.image is None
            },
            Err(e) => {
                &&& *final(s) == *old(s)
                &&& match e {
                    AppError::ValidationFailed(InvalidField::Username) => !username_ok(
                        req.user.username,
                    ),
                    AppError::ValidationFailed(InvalidField::Email) => username_ok(
                        req.user.username,
                    ) && !email_ok(req.user.email),
                    AppError::ValidationFailed(InvalidField::Password) => username_ok(
                        req.user.username,
                    ) && email_ok(req.user.email) && !password_ok(req.user.password),
                    AppError::Conflict(ConflictField::Username) => username_ok(req.user.username)
                        && email_ok(req.user.email) && password_ok(req.user.password)
                        && user_named(old(s).users@, req.user.username.unwrap()@) is Some,
                    AppError::Conflict(ConflictField::Email) => username_ok(req.user.username)
                        && email_ok(req.user.email) && password_ok(req.user.password)
                        && user_named(old(s).users@, req.user.username.unwrap()@) is None
                        && user_mailed(old(s).users@, req.user.email.unwrap()@) is Some,
                    AppError::Unavailable => username_ok(req.user.username) && email_ok(
                        req.user.email,
                    ) && password_ok(req.user.password) && user_named(
                        old(s).users@,
                        req.user.username.unwrap()@,
                    ) is None && user_mailed(old(s).users@, req.user.email.unwrap()@) is None,
                    _ => false,
                }
            },
        },
{
    let username = match &req.user.username {
        Some(x) => {
            if x.as_str().is_empty() {
                return Err(AppError::ValidationFailed(InvalidField::Username));
            }
            x
        },
        None => {
            return Err(AppError::ValidationFailed(InvalidField::Username));
        },
    };
    let email = match &req.user.email {
        Some(x) => {
            if !str_has_char(x.as_str(), '@') {
                return Err(AppError::ValidationFailed(InvalidField::Email));
            }
            x
        },
        None => {
            return Err(AppError::ValidationFailed(InvalidField::Email));
        },
    };
    let password = match &req.user.password {
        Some(x) => {
            if x.as_str().unicode_len() < 8 {
                return Err(AppError::ValidationFailed(InvalidField::Password));
            }
            x
        },
        None => {
            return Err(AppError::ValidationFailed(InvalidField::Password));
        },
    };
    if s.find_user_by_name(username.as_str()).is_some() {
        return Err(AppError::Conflict(ConflictField::Username));
    }
    if s.find_user_by_email(email.as_str()).is_some() {
        return Err(AppError::Conflict(ConflictField::Email));
    }
    let hashed = match hash_password(password.as_str()) {
        Some(h) => h,
        None => {
            return Err(AppError::Unavailable);
        },
    };
    let form = UserForm {
        email: Some(email.clone()),
        bio: None,
        password: Some(hashed),
        image: None,
        username: Some(username.clone()),
    };
    User::create_for_registration(s, &form)
}

/// Logs a user in by email and password, and issues a token valid from
/// `now`.
///
/// Succeeds exactly when a user carries the email and the password
/// matches the stored hash; the returned value is that user's row with
/// the fresh token filled in. An unknown email is `NotFound`; a wrong
/// password is `Unauthorized`.
pub fn login(s: &Store, email: &str, password: &str, secret: &str, now: i64) -> (r: Result<
    User,
    AppError,
>)
    requires
        0 <= now,
        now <= i64::MAX - TOKEN_TTL_SECS,
    ensures
        match r {
            Ok(u) => {
                let row = s.users@[user_mailed(s.users@, email@).unwrap()];
                &&& user_mailed(s.users@, email@) is Some
                &&& password_matches(password@, row.password@)
                &&& u.id == row.id
                &&& u.username@ == row.username@
                &&& u.email@ == row.email@
                &&& u.bio == row.bio
                &&& u.image == row.image
                &&& u.password@ == row.password@
                &&& u.token@ == token_of(row.id, row.username@, (now + TOKEN_TTL_SECS) as i64, secret@)
            },
            Err(e) => match e {
                AppError::NotFound => user_mailed(s.users@, email@) is None,
                AppError::Unauthorized => {
                    let row = s.users@[user_mailed(s.users@, email@).unwrap()];
                    user_mailed(s.users@, email@) is Some && !password_matches(
                        password@,
                        row.password@,
                    )
                },
                _ => false,
            },
        },
{
    let j = match s.find_user_by_email(email) {
        Some(j) => j,
        None => {
            return Err(AppError::NotFound);
        },
    };
    if !verify_password(password, s.users[j].password.as_str()) {
        return Err(AppError::Unauthorized);
    }
    let (token, _claims) = issue(s.users[j].id, s.users[j].username.as_str(), secret, now);
    let mut u = dup_user(&s.users[j]);
    u.token = token;
    Ok(u)
}

/// The authenticated user's own account, with the request's token echoed
/// back.
///
/// Returns `NotFound` exactly when the authenticated id is unknown.
pub fn get_user(s: &Store, auth: &Auth) -> (r: Result<User, AppError>)
    ensures
        match r {
            Ok(u) => {
                let row = s.users@[user_by_id(s.users@, auth.claims.id).unwrap()];
                &&& user_by_id(s.users@, auth.claims.id) is Some
                &&& u.id == row.id
                &&& u.username@ == row.username@
                &&& u.email@ == row.email@
                &&& u.bio == row.bio
                &&& u.image == row.image
                &&& u.password@ == row.password@
                &&& u.token@ == auth.jwt@
            },
            Err(e) => e == AppError::NotFound && user_by_id(s.users@, auth.claims.id) is None,
        },
{
    let j = match s.find_user_by_id(auth.claims.id) {
        Some(j) => j,
        None => {
            return Err(AppError::NotFound);
        },
    };
    let mut u = dup_user(&s.users[j]);
    u.token = auth.jwt.clone();
    Ok(u)
}

/// Patches the authenticated user's own account and echoes the request's
/// token back; otherwise as `User::update`.
pub fn put_user(s: &mut Store, auth: &Auth, form: &UserForm) -> (r: Result<User, AppError>)
    requires
        old(s).wf(),
    ensures
        final(s).wf(),
        final(s).articles@ == old(s).articles@,
        final(s).comments@ == old(s).comments@,
        final(s).follows@ == old(s).follows@,
        final(s).favorites@ == old(s).favorites@,
        final(s).next_user_id == old(s).next_user_id,
        final(s).next_article_id == old(s).next_article_id,
        final(s).next_comment_id == old(s).next_comment_id,
        match r {
            Ok(u) => {
                let j = user_by_id(old(s).users@, auth.claims.id).unwrap();
                &&& user_by_id(old(s).users@, auth.claims.id) is Some
                &&& no_name_clash(old(s).users@, j, form.username)
                &&& no_mail_clash(old(s).users@, j, form.email)
                &&& final(s).users@.len() == old(s).users@.len()
                &&& forall|k: int|
                    0 <= k < old(s).users@.len() && k != j ==> final(s).users@[k] == old(
                        s,
                    ).users@[k]
                &&& patch_matches(final(s).users@[j], old(s).users@[j], *form)
                &&& u.id == final(s).users@[j].id
                &&& u.username@ == final(s).users@[j].username@
                &&& u.email@ == final(s).users@[j].email@
                &&& u.bio == final(s).users@[j].bio
                &&& u.image == final(s).users@[j].image
                &&& u.password@ == final(s).users@[j].password@
                &&& u.token@ == auth.jwt@
            },
            Err(e) => {
                &&& *final(s) == *old(s)
                &&& match e {
                    AppError::NotFound => user_by_id(old(s).users@, auth.claims.id) is None,
                    AppError::Conflict(ConflictField::Username) => {
                        let j = user_by_id(old(s).users@, auth.claims.id).unwrap();
                        &&& user_by_id(old(s).users@, auth.claims.id) is Some
                        &&& !no_name_clash(old(s).users@, j, form.username)
                    },
                    AppError::Conflict(ConflictField::Email) => {
                        let j = user_by_id(old(s).users@, auth.claims.id).unwrap();
                        &&& user_by_id(old(s).users@, auth.claims.id) is Some
                        &&& no_name_clash(old(s).users@, j, form.username)
                        &&& !no_mail_clash(old(s).users@, j, form.email)
                    },
                    _ => false,
                }
            },
        },
{
    match User::update(s, auth.claims.id, form) {
        Ok(mut u) => {
            u.token = auth.jwt.clone();
            Ok(u)
        },
        Err(e) => Err(e),
    }
}

impl User {
    /// Inserts the already-validated, already-hashed registration form:
    /// the `create` step of `post_users`.
    fn create_for_registration(s: &mut Store, form: &UserForm) -> (r: Result<User, AppError>)
        requires
            old(s).wf(),
            old(s).next_user_id < i32::MAX,
            form.username is Some,
            form.email is Some,
            form.password is Some,
            user_named(old(s).users@, form.username.unwrap()@) is None,
            user_mailed(old(s).users@, form.email.unwrap()@) is None,
        ensures
            final(s).wf(),
            final(s).articles@ == old(s).articles@,
            final(s).comments@ == old(s).comments@,
            final(s).follows@ == old(s).follows@,
            final(s).favorites@ == old(s).favorites@,
            final(s).next_article_id == old(s).next_article_id,
            final(s).next_comment_id == old(s).next_comment_id,
            match r {
                Ok(u) => {
                    &&& final(s).users@ == old(s).users@.push(u)
                    &&& final(s).next_user_id == old(s).next_user_id + 1
                    &&& u.id == old(s).next_user_id
                    &&& u.username@ == form.username.unwrap()@
                    &&& u.email@ == form.email.unwrap()@
                    &&& u.password@ == form.password.unwrap()@
                    &&& u.bio == form.bio
                    &&& u.image == form.image
                },
                Err(_) => false,
            },
    {
        match Self::create(s, form) {
            Ok(u) => Ok(u),
            Err(e) => {
                proof {
                    assert(false);
                }
                Err(e)
            },
        }
    }
}

} // verus!
