use realworld::articles::{
    create_article, delete, feed, get_article, list_articles, tag_list, unfavorite,
    update_article, ArticleQuery, ArticleUpdate, ArticleUpdateData, NewArticle, NewArticleData,
};
use realworld::articles::favorite;
use realworld::errors::{AppError, ConflictField, InvalidField};
use realworld::store::Store;
use realworld::users::{post_users, NewUserData, ReqUser};

const NOW: i64 = 1_700_000_000;

fn register(s: &mut Store, username: &str, email: &str) -> i32 {
    let req = ReqUser {
        user: NewUserData {
            username: Some(username.to_string()),
            email: Some(email.to_string()),
            password: Some("password123".to_string()),
        },
    };
    post_users(s, &req).expect("register").id
}

fn new_article(title: &str, tags: &[&str]) -> NewArticleData {
    NewArticleData {
        title: title.to_string(),
        description: "a description".to_string(),
        body: "a body".to_string(),
        tag_list: if tags.is_empty() {
            None
        } else {
            Some(tags.iter().map(|t| t.to_string()).collect())
        },
    }
}

fn no_query() -> ArticleQuery {
    ArticleQuery { tag: None, author: None, favorited: None, limit: None, offset: None }
}

#[test]
fn create_derives_slug_and_zero_count() {
    let mut s = Store::new();
    let alice = register(&mut s, "alice", "alice@x.com");
    let wrapped = NewArticle { article: new_article("My First Post", &[]) };
    let v = create_article(&mut s, &wrapped.article, alice, NOW).expect("create");
    assert_eq!(v.slug, "my-first-post");
    assert_eq!(v.title, "My First Post");
    assert_eq!(v.favorites_count, 0);
    assert!(!v.favorited);
    assert_eq!(v.author.username, "alice");
}

#[test]
fn create_rejects_empty_title_and_taken_slug() {
    let mut s = Store::new();
    let alice = register(&mut s, "alice", "alice@x.com");
    let empty = create_article(&mut s, &new_article("", &[]), alice, NOW);
    assert_eq!(empty.unwrap_err(), AppError::ValidationFailed(InvalidField::Title));
    create_article(&mut s, &new_article("My First Post", &[]), alice, NOW).expect("create");
    let same_title = create_article(&mut s, &new_article("My First Post", &[]), alice, NOW);
    assert_eq!(same_title.unwrap_err(), AppError::Conflict(ConflictField::Slug));
    let same_slug = create_article(&mut s, &new_article("My First post", &[]), alice, NOW);
    assert_eq!(same_slug.unwrap_err(), AppError::Conflict(ConflictField::Slug));
}

#[test]
fn create_for_unknown_author_is_not_found() {
    let mut s = Store::new();
    let got = create_article(&mut s, &new_article("A Post", &[]), 5, NOW);
    assert_eq!(got.unwrap_err(), AppError::NotFound);
}

#[test]
fn get_article_finds_by_slug() {
    let mut s = Store::new();
    let alice = register(&mut s, "alice", "alice@x.com");
    create_article(&mut s, &new_article("My First Post", &["rust"]), alice, NOW)
        .expect("create");
    let v = get_article(&s, "my-first-post", None).expect("get");
    assert_eq!(v.title, "My First Post");
    assert_eq!(v.tag_list, vec!["rust".to_string()]);
    assert_eq!(get_article(&s, "missing", None).unwrap_err(), AppError::NotFound);
}

#[test]
fn update_is_owner_guarded_and_reslugs_from_title() {
    let mut s = Store::new();
    let alice = register(&mut s, "alice", "alice@x.com");
    let bob = register(&mut s, "bob", "bob@x.com");
    create_article(&mut s, &new_article("My First Post", &[]), alice, NOW).expect("create");
    let patch = ArticleUpdate {
        article: ArticleUpdateData {
            slug: None,
            title: Some("My Second Post".to_string()),
            description: None,
            body: Some("new body".to_string()),
        },
    };
    let patch = patch.article;
    let by_bob = update_article(&mut s, "my-first-post", bob, &patch);
    assert_eq!(by_bob.unwrap_err(), AppError::NotFound);
    let v = update_article(&mut s, "my-first-post", alice, &patch).expect("update");
    assert_eq!(v.slug, "my-second-post");
    assert_eq!(v.title, "My Second Post");
    assert_eq!(v.description, "a description");
    assert_eq!(v.body, "new body");
    assert_eq!(get_article(&s, "my-first-post", None).unwrap_err(), AppError::NotFound);
}

#[test]
fn delete_as_non_owner_is_not_found_and_harmless() {
    let mut s = Store::new();
    let alice = register(&mut s, "alice", "alice@x.com");
    let bob = register(&mut s, "bob", "bob@x.com");
    create_article(&mut s, &new_article("My First Post", &[]), alice, NOW).expect("create");
    let by_bob = delete(&mut s, bob, "my-first-post");
    assert_eq!(by_bob.unwrap_err(), AppError::NotFound);
    let still_there = get_article(&s, "my-first-post", None).expect("article must survive");
    assert_eq!(still_there.title, "My First Post");
    delete(&mut s, alice, "my-first-post").expect("owner may delete");
    assert_eq!(get_article(&s, "my-first-post", None).unwrap_err(), AppError::NotFound);
}

#[test]
fn list_filters_by_tag_and_widens_with_author() {
    let mut s = Store::new();
    let alice = register(&mut s, "alice", "alice@x.com");
    let bob = register(&mut s, "bob", "bob@x.com");
    create_article(&mut s, &new_article("Rust Post", &["rust"]), alice, NOW).expect("create");
    create_article(&mut s, &new_article("Cooking Post", &["food"]), bob, NOW).expect("create");
    create_article(&mut s, &new_article("Plain Post", &[]), bob, NOW).expect("create");

    let all = list_articles(&s, &no_query(), None).expect("list");
    assert_eq!(all.articles_count, 3);

    let mut q = no_query();
    q.tag = Some("rust".to_string());
    let tagged = list_articles(&s, &q, None).expect("list");
    assert_eq!(tagged.articles_count, 1);
    assert_eq!(tagged.articles[0].slug, "rust-post");

    // The author filter widens rather than narrows: tag=rust OR author=bob.
    q.author = Some("bob".to_string());
    let widened = list_articles(&s, &q, None).expect("list");
    assert_eq!(widened.articles_count, 3);

    let mut by_fav = no_query();
    by_fav.favorited = Some("nobody".to_string());
    assert_eq!(list_articles(&s, &by_fav, None).unwrap_err(), AppError::NotFound);
}

#[test]
fn list_pages_with_offset_and_limit() {
    let mut s = Store::new();
    let alice = register(&mut s, "alice", "alice@x.com");
    for i in 0..5 {
        let title = format!("Post Number {}", i);
        create_article(&mut s, &new_article(&title, &[]), alice, NOW).expect("create");
    }
    let mut q = no_query();
    q.limit = Some(2);
    q.offset = Some(1);
    let page = list_articles(&s, &q, None).expect("list");
    assert_eq!(page.articles_count, 2);
    assert_eq!(page.articles[0].slug, "post-number-1");
    assert_eq!(page.articles[1].slug, "post-number-2");
}

#[test]
fn unfavorite_of_unfavorited_article_is_noop_success() {
    let mut s = Store::new();
    let alice = register(&mut s, "alice", "alice@x.com");
    let bob = register(&mut s, "bob", "bob@x.com");
    create_article(&mut s, &new_article("My First Post", &[]), alice, NOW).expect("create");
    let v = unfavorite(&mut s, bob, "my-first-post").expect("noop unfavorite");
    assert_eq!(v.favorites_count, 0);
    assert!(!v.favorited);
}

#[test]
fn favorite_of_missing_article_is_not_found() {
    let mut s = Store::new();
    let bob = register(&mut s, "bob", "bob@x.com");
    assert_eq!(favorite(&mut s, bob, "missing").unwrap_err(), AppError::NotFound);
}

#[test]
fn tags_are_distinct_and_complete() {
    let mut s = Store::new();
    let alice = register(&mut s, "alice", "alice@x.com");
    create_article(&mut s, &new_article("One", &["rust", "verus"]), alice, NOW).expect("create");
    create_article(&mut s, &new_article("Two", &["verus", "proofs"]), alice, NOW)
        .expect("create");
    let tags = tag_list(&s);
    assert_eq!(tags, vec!["rust".to_string(), "verus".to_string(), "proofs".to_string()]);
    let wrapped = realworld::articles::tags(&s);
    assert_eq!(wrapped.tags, tags);
}

#[test]
fn feed_respects_limit() {
    let mut s = Store::new();
    let alice = register(&mut s, "alice", "alice@x.com");
    let carol = register(&mut s, "carol", "carol@x.com");
    for i in 0..3 {
        let title = format!("Feed Post {}", i);
        create_article(&mut s, &new_article(&title, &[]), alice, NOW).expect("create");
    }
    realworld::profiles::Profile::follow(&mut s, "alice", carol).expect("follow");
    let mut q = no_query();
    q.limit = Some(2);
    let page = feed(&s, &q, carol).expect("feed");
    assert_eq!(page.articles_count, 2);
}

#[test]
fn get_article_is_viewer_relative() {
    let mut s = Store::new();
    let alice = register(&mut s, "alice", "alice@x.com");
    let bob = register(&mut s, "bob", "bob@x.com");
    create_article(&mut s, &new_article("My First Post", &[]), alice, NOW).expect("create");
    favorite(&mut s, bob, "my-first-post").expect("favorite");
    realworld::profiles::Profile::follow(&mut s, "alice", bob).expect("follow");

    let by_bob = get_article(&s, "my-first-post", Some(bob)).expect("get");
    assert!(by_bob.favorited);
    assert!(by_bob.author.following);

    let by_alice = get_article(&s, "my-first-post", Some(alice)).expect("get");
    assert!(!by_alice.favorited);

    let anon = get_article(&s, "my-first-post", None).expect("get");
    assert!(!anon.favorited);
    assert!(!anon.author.following);
}
