use realworld::articles::{create_article, favorite, feed, get_article, unfavorite, ArticleQuery, NewArticleData};
use realworld::comments::{add_comment, delete_comment, get_comments, NewComment, NewCommentData};
use realworld::errors::AppError;
use realworld::profiles::Profile;
use realworld::store::Store;
use realworld::users::{post_users, NewUserData, ReqUser};

const NOW: i64 = 1_700_000_000;

fn register(s: &mut Store, username: &str, email: &str) -> i32 {
    let req = ReqUser {
        user: NewUserData {
            username: Some(username.to_string()),
            email: Some(email.to_string()),
            password: Some("password123".to_string()),
        },
    };
    post_users(s, &req).expect("register").id
}

fn new_article(title: &str) -> NewArticleData {
    NewArticleData {
        title: title.to_string(),
        description: "a description".to_string(),
        body: "a body".to_string(),
        tag_list: None,
    }
}

fn no_query() -> ArticleQuery {
    ArticleQuery { tag: None, author: None, favorited: None, limit: None, offset: None }
}

/// Register alice, create "My First Post", let bob favorite it twice and
/// unfavorite it once: the counter moves 0 -> 1 -> 1 -> 0, and each
/// viewer sees their own `favorited` flag.
#[test]
fn favorite_lifecycle_keeps_the_counter_consistent() {
    let mut s = Store::new();
    let alice = register(&mut s, "alice", "alice@x.com");
    let bob = register(&mut s, "bob", "bob@x.com");

    let created = create_article(&mut s, &new_article("My First Post"), alice, NOW)
        .expect("create");
    assert_eq!(created.slug, "my-first-post");
    assert_eq!(created.favorites_count, 0);

    let after_first = favorite(&mut s, bob, "my-first-post").expect("favorite");
    assert_eq!(after_first.favorites_count, 1);
    assert!(after_first.favorited);

    let bobs_view = list_view(&s, Some(bob));
    assert!(bobs_view.favorited);
    let alices_view = list_view(&s, Some(alice));
    assert!(!alices_view.favorited);

    let after_second = favorite(&mut s, bob, "my-first-post").expect("repeated favorite");
    assert_eq!(after_second.favorites_count, 1);

    let after_unfav = unfavorite(&mut s, bob, "my-first-post").expect("unfavorite");
    assert_eq!(after_unfav.favorites_count, 0);
    assert!(!after_unfav.favorited);

    let fetched = get_article(&s, "my-first-post", Some(bob)).expect("get");
    assert_eq!(fetched.favorites_count, 0);
    assert!(!fetched.favorited);
}

fn list_view(s: &Store, viewer: Option<i32>) -> realworld::articles::Article {
    let page = realworld::articles::list_articles(s, &no_query(), viewer).expect("list");
    assert_eq!(page.articles_count, 1);
    page.articles.into_iter().next().expect("one article")
}

/// Carol follows alice; carol's feed carries alice's article and leaves
/// out bob's.
#[test]
fn feed_shows_followed_authors_only() {
    let mut s = Store::new();
    let alice = register(&mut s, "alice", "alice@x.com");
    let bob = register(&mut s, "bob", "bob@x.com");
    let carol = register(&mut s, "carol", "carol@x.com");

    create_article(&mut s, &new_article("From Alice"), alice, NOW).expect("create");
    create_article(&mut s, &new_article("From Bob"), bob, NOW).expect("create");

    let p = Profile::follow(&mut s, "alice", carol).expect("follow");
    assert!(p.following);

    let page = feed(&s, &no_query(), carol).expect("feed");
    assert_eq!(page.articles_count, 1);
    assert_eq!(page.articles[0].slug, "from-alice");
    assert_eq!(page.articles[0].author.username, "alice");
}

#[test]
fn follow_is_idempotent_and_unfollow_reverses_it() {
    let mut s = Store::new();
    let alice = register(&mut s, "alice", "alice@x.com");
    let carol = register(&mut s, "carol", "carol@x.com");
    Profile::follow(&mut s, "alice", carol).expect("follow");
    Profile::follow(&mut s, "alice", carol).expect("repeated follow");
    assert!(Profile::is_following(&s, carol, alice));
    let p = Profile::get_proflies(&s, "alice", Some(carol)).expect("profile");
    assert!(p.following);
    let anon = Profile::get_proflies(&s, "alice", None).expect("profile");
    assert!(!anon.following);
    Profile::unfollow(&mut s, "alice", carol).expect("unfollow");
    assert!(!Profile::is_following(&s, carol, alice));
    Profile::unfollow(&mut s, "alice", carol).expect("repeated unfollow");
    assert_eq!(
        Profile::follow(&mut s, "nobody", carol).unwrap_err(),
        AppError::NotFound
    );
}

#[test]
fn comments_carry_viewer_relative_profiles() {
    let mut s = Store::new();
    let alice = register(&mut s, "alice", "alice@x.com");
    let bob = register(&mut s, "bob", "bob@x.com");
    let carol = register(&mut s, "carol", "carol@x.com");
    create_article(&mut s, &new_article("My First Post"), alice, NOW).expect("create");
    Profile::follow(&mut s, "bob", carol).expect("follow");

    let posted = NewComment { comment: NewCommentData { body: "nice one".to_string() } };
    let c = add_comment(&mut s, bob, "my-first-post", &posted.comment.body, NOW + 5)
        .expect("comment");
    assert_eq!(c.body, "nice one");
    assert_eq!(c.author.username, "bob");

    let seen_by_carol = get_comments(&s, Some(carol), "my-first-post").expect("comments");
    assert_eq!(seen_by_carol.comments.len(), 1);
    assert!(seen_by_carol.comments[0].author.following);

    let seen_anon = get_comments(&s, None, "my-first-post").expect("comments");
    assert!(!seen_anon.comments[0].author.following);

    assert_eq!(
        get_comments(&s, None, "missing").unwrap_err(),
        AppError::NotFound
    );
}

#[test]
fn comment_deletion_is_for_the_article_owner() {
    let mut s = Store::new();
    let alice = register(&mut s, "alice", "alice@x.com");
    let bob = register(&mut s, "bob", "bob@x.com");
    create_article(&mut s, &new_article("My First Post"), alice, NOW).expect("create");
    let c = add_comment(&mut s, bob, "my-first-post", "nice one", NOW).expect("comment");

    // bob wrote it, but only the article's author may delete it.
    assert_eq!(
        delete_comment(&mut s, bob, "my-first-post", c.id).unwrap_err(),
        AppError::NotFound
    );
    assert_eq!(get_comments(&s, None, "my-first-post").unwrap().comments.len(), 1);
    delete_comment(&mut s, alice, "my-first-post", c.id).expect("owner deletes");
    assert_eq!(get_comments(&s, None, "my-first-post").unwrap().comments.len(), 0);
    assert_eq!(
        delete_comment(&mut s, alice, "my-first-post", c.id).unwrap_err(),
        AppError::NotFound
    );
}

#[test]
fn get_user_echoes_the_request_token() {
    let mut s = Store::new();
    let alice = register(&mut s, "alice", "alice@x.com");
    let logged = realworld::users::login(&s, "alice@x.com", "password123", "secret", NOW)
        .expect("login");
    let header = format!("Token {}", logged.token);
    let auth = realworld::auth::Auth::from_request(Some(&header), "secret", NOW + 1)
        .expect("guard");
    let me = realworld::users::get_user(&s, &auth).expect("get user");
    assert_eq!(me.id, alice);
    assert_eq!(me.token, logged.token);
}
