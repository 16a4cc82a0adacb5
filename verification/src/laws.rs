//! The laws of the core, stated once and proved for all inputs.
//!
//! Each function here is a universally quantified statement: its parameters
//! range over all values its `requires` admits, and Verus proves its
//! `ensures` from the contracts of the operations it composes.

use vstd::prelude::*;

use crate::articles::{delete, favorite, feed_selected, feed_selected_from, owned_by, Article};
use crate::auth::{guard_accepts, header_view, Auth};
use crate::errors::AppError;
use crate::slugs::{lemma_slug_of_wf, slug_of, slug_wf};
use crate::store::{
    article_slugged, count_favs, has_favorited, is_following, ArticleData, FollowEdge, Store,
};
use crate::token::{distinct_key_secret, issue, verify, Claims, VerifyFailure, TOKEN_TTL_SECS};

verus! {

/// Law: in every well-formed store — and every mutator of this crate takes
/// a well-formed store to a well-formed store — each article's stored
/// `favorites_count` equals the number of favorite edges that reference
/// it. However many `favorite` and `unfavorite` calls are interleaved, the
/// counter and the edges never drift apart.
pub proof fn lemma_favorites_count_consistent(s: Store, i: int)
    requires
        s.wf(),
        0 <= i < s.articles@.len(),
    ensures
        s.articles@[i].favorites_count == count_favs(s.favorites@, s.articles@[i].id),
{
}

/// Law: verifying a freshly issued token under the same secret, at any
/// moment before its expiry, returns exactly the claims it was issued
/// for.
pub fn token_round_trip(id: i32, username: &str, secret: &str, issued_at: i64, checked_at: i64) -> (r:
    Result<Claims, VerifyFailure>)
    requires
        0 <= issued_at,
        issued_at <= i64::MAX - TOKEN_TTL_SECS,
        checked_at < issued_at + TOKEN_TTL_SECS,
    ensures
        r is Ok,
        r.unwrap().id == id,
        r.unwrap().username@ == username@,
        r.unwrap().exp == issued_at + TOKEN_TTL_SECS,
{
    let (token, _claims) = issue(id, username, secret, issued_at);
    verify(token.as_str(), secret, checked_at)
}

/// Law: a token presented at or past its expiry fails as `Expired`.
pub fn expired_token_rejected(
    id: i32,
    username: &str,
    secret: &str,
    issued_at: i64,
    checked_at: i64,
) -> (r: Result<Claims, VerifyFailure>)
    requires
        0 <= issued_at,
        issued_at <= i64::MAX - TOKEN_TTL_SECS,
        checked_at >= issued_at + TOKEN_TTL_SECS,
    ensures
        r == Err::<Claims, VerifyFailure>(VerifyFailure::Expired),
{
    let (token, _claims) = issue(id, username, secret, issued_at);
    verify(token.as_str(), secret, checked_at)
}

/// Law: a token issued under one secret never verifies under another; it
/// fails as `Malformed`, the same kind as any unparsable token, so the
/// caller cannot tell a foreign signature from garbage. The two secrets
/// must lie in the range where distinct strings stand for distinct HMAC
/// keys (see `distinct_key_secret`); outside it HMAC itself identifies
/// some keys, and no such promise can be made.
pub fn foreign_secret_rejected(
    id: i32,
    username: &str,
    secret_used: &str,
    secret_checked: &str,
    issued_at: i64,
    checked_at: i64,
) -> (r: Result<Claims, VerifyFailure>)
    requires
        0 <= issued_at,
        issued_at <= i64::MAX - TOKEN_TTL_SECS,
        secret_used@ != secret_checked@,
        distinct_key_secret(secret_used@),
        distinct_key_secret(secret_checked@),
    ensures
        r == Err::<Claims, VerifyFailure>(VerifyFailure::Malformed),
{
    let (token, _claims) = issue(id, username, secret_used, issued_at);
    verify(token.as_str(), secret_checked, checked_at)
}

/// Law: at the auth guard there is no oracle at all — any two rejected
/// requests, whether the token was expired, signed under another secret,
/// malformed or missing, produce the very same `Unauthorized` value.
pub fn guard_failures_agree(h1: Option<&str>, h2: Option<&str>, secret: &str, now: i64) -> (r: (
    Result<Auth, AppError>,
    Result<Auth, AppError>,
))
    requires
        !guard_accepts(header_view(h1), secret@, now),
        !guard_accepts(header_view(h2), secret@, now),
    ensures
        r.0 == Err::<Auth, AppError>(AppError::Unauthorized),
        r.1 == Err::<Auth, AppError>(AppError::Unauthorized),
{
    (Auth::from_request(h1, secret, now), Auth::from_request(h2, secret, now))
}

/// Law: deleting an article as a non-owner — or naming a slug that does
/// not exist, which looks exactly the same — yields `NotFound` and leaves
/// the store untouched, the article with it.
pub fn delete_by_non_owner(s: &mut Store, user_id: i32, slug: &str) -> (r: Result<(), AppError>)
    requires
        old(s).wf(),
        !owned_by(old(s).articles@, slug@, user_id),
    ensures
        r == Err::<(), AppError>(AppError::NotFound),
        *final(s) == *old(s),
{
    delete(s, user_id, slug)
}

/// Law: a repeated favorite is absorbed — marking an article the viewer
/// has already favorited succeeds and changes nothing, so the counter is
/// never double-counted.
pub fn favorite_again_absorbed(s: &mut Store, user_id: i32, slug: &str) -> (r: Result<
    Article,
    AppError,
>)
    requires
        old(s).wf(),
        match article_slugged(old(s).articles@, slug@) {
            Some(j) => has_favorited(old(s).favorites@, user_id, old(s).articles@[j].id),
            None => false,
        },
    ensures
        r is Ok,
        *final(s) == *old(s),
{
    favorite(s, user_id, slug)
}

/// Law: the slug is a pure function of the title alone — equal titles
/// always derive the identical slug, which is moreover well formed; a
/// second creation under the same title therefore collides on the slug
/// and is reported as a conflict, never inserted twice.
pub proof fn lemma_slug_deterministic(t1: Seq<char>, t2: Seq<char>)
    requires
        t1 == t2,
    ensures
        slug_of(t1) == slug_of(t2),
        slug_wf(slug_of(t1)),
{
    lemma_slug_of_wf(t1);
}

proof fn lemma_feed_selected_from_props(
    articles: Seq<ArticleData>,
    follows: Seq<FollowEdge>,
    viewer: i32,
    i: int,
)
    requires
        0 <= i <= articles.len(),
    ensures
        forall|m: int|
            0 <= m < feed_selected_from(articles, follows, viewer, i).len() ==> i <= #[trigger] feed_selected_from(
                articles,
                follows,
                viewer,
                i,
            )[m] < articles.len() && is_following(
                follows,
                viewer,
                articles[feed_selected_from(articles, follows, viewer, i)[m]].author,
            ),
        forall|j: int|
            i <= j < articles.len() && is_following(follows, viewer, (#[trigger] articles[j]).author)
                ==> feed_selected_from(articles, follows, viewer, i).contains(j),
    decreases articles.len() - i,
{
    if i < articles.len() {
        lemma_feed_selected_from_props(articles, follows, viewer, i + 1);
        let rest = feed_selected_from(articles, follows, viewer, i + 1);
        if is_following(follows, viewer, articles[i].author) {
            let cur = feed_selected_from(articles, follows, viewer, i);
            assert(cur == seq![i] + rest);
            assert forall|j: int|
                i <= j < articles.len() && is_following(
                    follows,
                    viewer,
                    (#[trigger] articles[j]).author,
                ) implies cur.contains(j) by {
                if j == i {
                    assert(cur[0] == j);
                } else {
                    let m = choose|m: int| 0 <= m < rest.len() && rest[m] == j;
                    assert(cur[m + 1] == j);
                }
            }
        } else {
            assert forall|j: int|
                i <= j < articles.len() && is_following(
                    follows,
                    viewer,
                    (#[trigger] articles[j]).author,
                ) implies feed_selected_from(articles, follows, viewer, i).contains(j) by {
                let m = choose|m: int| 0 <= m < rest.len() && rest[m] == j;
                assert(feed_selected_from(articles, follows, viewer, i)[m] == j);
            }
        }
    }
}

/// Law: the feed selects exactly the articles whose author the viewer
/// follows — every followed author's article is in the selection, and an
/// article by an unfollowed author never is.
pub proof fn lemma_feed_exactly_followed(
    articles: Seq<ArticleData>,
    follows: Seq<FollowEdge>,
    viewer: i32,
    j: int,
)
    requires
        0 <= j < articles.len(),
    ensures
        feed_selected(articles, follows, viewer).contains(j) <==> is_following(
            follows,
            viewer,
            articles[j].author,
        ),
{
    lemma_feed_selected_from_props(articles, follows, viewer, 0);
    if feed_selected(articles, follows, viewer).contains(j) {
        let m = choose|m: int|
            0 <= m < feed_selected(articles, follows, viewer).len() && feed_selected(
                articles,
                follows,
                viewer,
            )[m] == j;
        assert(is_following(follows, viewer, articles[j].author));
    }
}

} // verus!
