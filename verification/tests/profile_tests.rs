use realworld::articles::{create_article, favorite, list_articles, update_article, ArticleQuery, ArticleResult, ArticleUpdateData, NewArticleData};
use realworld::comments::{add_comment, CommentResult};
use realworld::errors::{AppError, ConflictField};
use realworld::profiles::{Profile, ProfileResult};
use realworld::store::Store;
use realworld::users::{post_users, put_user, NewUserData, ReqUser, UserForm};

const NOW: i64 = 1_700_000_000;

fn register(s: &mut Store, username: &str, email: &str) -> i32 {
    let req = ReqUser {
        user: NewUserData {
            username: Some(username.to_string()),
            email: Some(email.to_string()),
            password: Some("password123".to_string()),
        },
    };
    post_users(s, &req).expect("register").id
}

fn new_article(title: &str) -> NewArticleData {
    NewArticleData {
        title: title.to_string(),
        description: "a description".to_string(),
        body: "a body".to_string(),
        tag_list: None,
    }
}

#[test]
fn get_proflies_of_unknown_user_is_not_found() {
    let s = Store::new();
    assert_eq!(
        Profile::get_proflies(&s, "ghost", None).unwrap_err(),
        AppError::NotFound
    );
}

#[test]
fn find_follered_reports_the_follow_state() {
    let mut s = Store::new();
    let alice = register(&mut s, "alice", "alice@x.com");
    let carol = register(&mut s, "carol", "carol@x.com");
    let before = Profile::find_follered(&s, carol, alice).expect("profile");
    assert!(!before.following);
    Profile::follow(&mut s, "alice", carol).expect("follow");
    let after = Profile::find_follered(&s, carol, alice).expect("profile");
    assert!(after.following);
    assert_eq!(after.username, "alice");
    assert_eq!(
        Profile::find_follered(&s, carol, 999).unwrap_err(),
        AppError::NotFound
    );
}

#[test]
fn put_user_patches_and_echoes_the_token() {
    let mut s = Store::new();
    let alice = register(&mut s, "alice", "alice@x.com");
    let logged = realworld::users::login(&s, "alice@x.com", "password123", "secret", NOW)
        .expect("login");
    let header = format!("Token {}", logged.token);
    let auth = realworld::auth::Auth::from_request(Some(&header), "secret", NOW + 1)
        .expect("guard");
    let form = UserForm {
        email: None,
        bio: None,
        password: None,
        image: Some("https://example.com/alice.png".to_string()),
        username: None,
    };
    let me = put_user(&mut s, &auth, &form).expect("put user");
    assert_eq!(me.id, alice);
    assert_eq!(me.image.as_deref(), Some("https://example.com/alice.png"));
    assert_eq!(me.token, logged.token);
}

#[test]
fn update_to_a_taken_slug_is_a_conflict() {
    let mut s = Store::new();
    let alice = register(&mut s, "alice", "alice@x.com");
    create_article(&mut s, &new_article("First One"), alice, NOW).expect("create");
    create_article(&mut s, &new_article("Second One"), alice, NOW).expect("create");
    let patch = ArticleUpdateData {
        slug: None,
        title: Some("First One".to_string()),
        description: None,
        body: None,
    };
    let got = update_article(&mut s, "second-one", alice, &patch);
    assert_eq!(got.unwrap_err(), AppError::Conflict(ConflictField::Slug));
}

#[test]
fn list_by_favoriting_user_finds_their_favorites() {
    let mut s = Store::new();
    let alice = register(&mut s, "alice", "alice@x.com");
    let bob = register(&mut s, "bob", "bob@x.com");
    create_article(&mut s, &new_article("Liked One"), alice, NOW).expect("create");
    create_article(&mut s, &new_article("Plain One"), alice, NOW).expect("create");
    favorite(&mut s, bob, "liked-one").expect("favorite");
    let q = ArticleQuery {
        tag: None,
        author: None,
        favorited: Some("bob".to_string()),
        limit: None,
        offset: None,
    };
    let page = list_articles(&s, &q, None).expect("list");
    assert_eq!(page.articles_count, 1);
    assert_eq!(page.articles[0].slug, "liked-one");
}

#[test]
fn result_wrappers_carry_their_values() {
    let mut s = Store::new();
    let alice = register(&mut s, "alice", "alice@x.com");
    let v = create_article(&mut s, &new_article("Wrapped"), alice, NOW).expect("create");
    let slug = v.slug.clone();
    let wrapped = ArticleResult::new(v);
    assert_eq!(wrapped.article.slug, slug);
    let p = Profile::get_proflies(&s, "alice", None).expect("profile");
    let wrapped_p = ProfileResult::new(p);
    assert_eq!(wrapped_p.profile.username, "alice");
    let c = add_comment(&mut s, alice, "wrapped", "hello", NOW).expect("comment");
    let wrapped_c = CommentResult::new(c);
    assert_eq!(wrapped_c.comment.body, "hello");
}
