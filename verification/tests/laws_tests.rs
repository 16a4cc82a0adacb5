use realworld::articles::{create_article, favorite, get_article, NewArticleData};
use realworld::errors::AppError;
use realworld::laws::{delete_by_non_owner, favorite_again_absorbed, guard_failures_agree};
use realworld::store::Store;
use realworld::users::{post_users, NewUserData, ReqUser};

const NOW: i64 = 1_700_000_000;

fn register(s: &mut Store, username: &str, email: &str) -> i32 {
    let req = ReqUser {
        user: NewUserData {
            username: Some(username.to_string()),
            email: Some(email.to_string()),
            password: Some("password123".to_string()),
        },
    };
    post_users(s, &req).expect("register").id
}

fn seed_article(s: &mut Store) -> (i32, i32) {
    let alice = register(s, "alice", "alice@x.com");
    let bob = register(s, "bob", "bob@x.com");
    let data = NewArticleData {
        title: "Law And Order".to_string(),
        description: "d".to_string(),
        body: "b".to_string(),
        tag_list: None,
    };
    create_article(s, &data, alice, NOW).expect("create");
    (alice, bob)
}

#[test]
fn law_delete_by_non_owner_holds_on_a_concrete_store() {
    let mut s = Store::new();
    let (_alice, bob) = seed_article(&mut s);
    let got = delete_by_non_owner(&mut s, bob, "law-and-order");
    assert_eq!(got, Err(AppError::NotFound));
    assert!(get_article(&s, "law-and-order", None).is_ok());
}

#[test]
fn law_repeated_favorite_is_absorbed_on_a_concrete_store() {
    let mut s = Store::new();
    let (_alice, bob) = seed_article(&mut s);
    favorite(&mut s, bob, "law-and-order").expect("first favorite");
    let again = favorite_again_absorbed(&mut s, bob, "law-and-order").expect("absorbed");
    assert_eq!(again.favorites_count, 1);
    let v = get_article(&s, "law-and-order", None).expect("get");
    assert_eq!(v.favorites_count, 1);
}

#[test]
fn law_guard_failures_agree_on_concrete_headers() {
    let (r1, r2) = guard_failures_agree(None, Some("Token junk"), "secret", NOW);
    assert!(matches!(r1, Err(AppError::Unauthorized)));
    assert!(matches!(r2, Err(AppError::Unauthorized)));
}
