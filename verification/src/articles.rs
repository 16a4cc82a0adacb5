//! Articles: viewer-relative views, filtered listings, the personal feed,
//! and the transactional mutators.
//!
//! Every article view is assembled at read time from the stored row, its
//! author and the edge relations; the viewer-relative `favorited` flag is
//! never stored. `favorite` and `unfavorite` are existence-guarded: the
//! favorite edge and the denormalized counter change together or not at
//! all, so the counter always equals the number of edges. Update and
//! delete are owner-guarded and report an ownership mismatch as `NotFound`,
//! indistinguishable from a missing article.

use vstd::prelude::*;

use crate::errors::{AppError, ConflictField, InvalidField};
use crate::profiles::{following_for, is_profile_of, Profile};
use crate::slugs::{lemma_slug_of_wf, slug_of, slug_wf, slugify};
use crate::store::{
    article_slugged, count_favs, dup_opt_string, dup_string_vec, favorite_at,
    has_favorited, is_following, lemma_article_slugged_props, lemma_count_favs_at_least_one,
    lemma_count_favs_le_len, lemma_count_favs_push, lemma_count_favs_remove,
    lemma_count_favs_zero, lemma_favorite_at_props, lemma_user_by_id_props, str_eq, user_by_id,
    user_exists, user_named, ArticleData, FavoriteEdge, Store, User,
};

verus! {

/// The viewer-relative projection of an article.
#[derive(Debug)]
pub struct Article {
    pub slug: String,
    pub title: String,
    pub description: String,
    pub body: String,
    pub tag_list: Vec<String>,
    pub created_at: i64,
    pub updated_at: i64,
    pub favorited: bool,
    pub favorites_count: usize,
    pub author: Profile,
}

/// A page of article views, with its length.
#[derive(Debug)]
pub struct Articles {
    pub articles: Vec<Article>,
    pub articles_count: usize,
}

/// The fields an article is created from.
pub struct ArticleForm {
    pub slug: String,
    pub title: String,
    pub description: String,
    pub body: String,
    pub tag_list: Vec<String>,
    pub author: i32,
}

/// A partial-field patch for an article.
pub struct ArticleUpdate {
    pub article: ArticleUpdateData,
}

/// The patchable fields: those left `None` are not touched.
pub struct ArticleUpdateData {
    pub slug: Option<String>,
    pub title: Option<String>,
    pub description: Option<String>,
    pub body: Option<String>,
}

/// A listing filter. `author` and `favorited` widen the result (they are
/// or-combined with the tag filter); `limit` defaults to 20 and `offset`
/// to 0.
pub struct ArticleQuery {
    pub tag: Option<String>,
    pub author: Option<String>,
    pub favorited: Option<String>,
    pub limit: Option<usize>,
    pub offset: Option<usize>,
}

/// `v` is the view of row `a` whose author row is `u`, as seen by a viewer
/// for whom `following` and `favorited` hold.
pub open spec fn is_article_view(
    v: Article,
    a: ArticleData,
    u: User,
    following: bool,
    favorited: bool,
) -> bool {
    &&& v.slug@ == a.slug@
    &&& v.title@ == a.title@
    &&& v.description@ == a.description@
    &&& v.body@ == a.body@
    &&& v.tag_list@ == a.tag_list@
    &&& v.created_at == a.created_at
    &&& v.updated_at == a.updated_at
    &&& v.favorited == favorited
    &&& v.favorites_count == a.favorites_count
    &&& is_profile_of(v.author, u, following)
}

/// What the viewer sees in the `favorited` flag: anonymous viewers never
/// see `true`.
pub open spec fn favorited_for(
    favorites: Seq<FavoriteEdge>,
    viewer: Option<i32>,
    article: i32,
) -> bool {
    match viewer {
        Some(v) => has_favorited(favorites, v, article),
        None => false,
    }
}

/// The author row of the article: with a well-formed store every article's
/// author resolves.
pub open spec fn author_of(users: Seq<User>, a: ArticleData) -> User {
    users[user_by_id(users, a.author).unwrap()]
}

impl Article {
    /// Assembles the view of an article row from its author row and the
    /// viewer-relative flags.
    pub fn build(a: &ArticleData, u: &User, following: bool, favorited: bool) -> (v: Article)
        ensures
            is_article_view(v, *a, *u, following, favorited),
    {
        Article {
            slug: a.slug.clone(),
            title: a.title.clone(),
            description: a.description.clone(),
            body: a.body.clone(),
            tag_list: dup_string_vec(&a.tag_list),
            created_at: a.created_at,
            updated_at: a.updated_at,
            favorited,
            favorites_count: a.favorites_count,
            author: u.to_profile(following),
        }
    }
}

/// The index of the (existing) user with the given id.
pub(crate) fn author_index(s: &Store, id: i32) -> (k: usize)
    requires
        user_exists(s.users@, id),
    ensures
        k < s.users@.len(),
        user_by_id(s.users@, id) == Some(k as int),
        s.users@[k as int].id == id,
{
    match s.find_user_by_id(id) {
        Some(k) => {
            proof {
                lemma_user_by_id_props(s.users@, id, 0);
            }
            k
        },
        None => {
            proof {
                lemma_user_by_id_props(s.users@, id, 0);
                assert(false);
            }
            0
        },
    }
}

/// The article with the given slug, as seen by `viewer`: `favorited`
/// reflects the viewer's favorite edge and the author profile carries the
/// viewer's follow edge; an anonymous viewer sees both as `false`.
///
/// Returns `NotFound` exactly when no article carries that slug.
pub fn get_article(s: &Store, slug: &str, viewer: Option<i32>) -> (r: Result<Article, AppError>)
    requires
        s.wf(),
    ensures
        match r {
            Ok(v) => {
                let j = article_slugged(s.articles@, slug@).unwrap();
                &&& article_slugged(s.articles@, slug@) is Some
                &&& is_article_view(
                    v,
                    s.articles@[j],
                    author_of(s.users@, s.articles@[j]),
                    following_for(s.follows@, viewer, s.articles@[j].author),
                    favorited_for(s.favorites@, viewer, s.articles@[j].id),
                )
            },
            Err(e) => e == AppError::NotFound && article_slugged(s.articles@, slug@) is None,
        },
{
    match s.find_article_by_slug(slug) {
        None => Err(AppError::NotFound),
        Some(j) => {
            let k = author_index(s, s.articles[j].author);
            let (following, favorited) = match viewer {
                Some(v) => (
                    s.find_follow(v, s.articles[j].author).is_some(),
                    s.find_favorite(v, s.articles[j].id).is_some(),
                ),
                None => (false, false),
            };
            Ok(Article::build(&s.articles[j], &s.users[k], following, favorited))
        },
    }
}

/// The view of an optional string.
pub open spec fn opt_view(o: Option<String>) -> Option<Seq<char>> {
    match o {
        Some(x) => Some(x@),
        None => None,
    }
}

/// The article with this slug exists and belongs to `user_id`. A missing
/// article and an ownership mismatch are indistinguishable through this
/// predicate: both make it false.
pub open spec fn owned_by(articles: Seq<ArticleData>, slug: Seq<char>, user_id: i32) -> bool {
    match article_slugged(articles, slug) {
        Some(j) => articles[j].author == user_id,
        None => false,
    }
}

/// No other article than the one at index `j` carries the slug, when one is
/// set.
pub open spec fn no_slug_clash(articles: Seq<ArticleData>, j: int, slug: Option<Seq<char>>) -> bool {
    match slug {
        Some(n) => match article_slugged(articles, n) {
            Some(k) => k == j,
            None => true,
        },
        None => true,
    }
}

/// `nu` is `a` patched by the set fields; id, author, timestamps, tags and
/// the counter are untouched.
pub open spec fn article_patched(
    nu: ArticleData,
    a: ArticleData,
    slug: Option<Seq<char>>,
    title: Option<Seq<char>>,
    description: Option<Seq<char>>,
    body: Option<Seq<char>>,
) -> bool {
    &&& nu.id == a.id
    &&& nu.author == a.author
    &&& nu.created_at == a.created_at
    &&& nu.updated_at == a.updated_at
    &&& nu.favorites_count == a.favorites_count
    &&& nu.tag_list@ == a.tag_list@
    &&& nu.slug@ == (match slug {
        Some(x) => x,
        None => a.slug@,
    })
    &&& nu.title@ == (match title {
        Some(x) => x,
        None => a.title@,
    })
    &&& nu.description@ == (match description {
        Some(x) => x,
        None => a.description@,
    })
    &&& nu.body@ == (match body {
        Some(x) => x,
        None => a.body@,
    })
}

/// Inserts a new article with a fresh id, both timestamps at `now` and a
/// zero favorite count.
///
/// Returns `NotFound` exactly when the author id is unknown, and
/// `Conflict` on the slug exactly when the slug is already taken; in both
/// cases the store is untouched.
pub fn create(s: &mut Store, article: &ArticleForm, now: i64) -> (r: Result<Article, AppError>)
    requires
        old(s).wf(),
        old(s).next_article_id < i32::MAX,
    ensures
        final(s).wf(),
        final(s).users@ == old(s).users@,
        final(s).comments@ == old(s).comments@,
        final(s).follows@ == old(s).follows@,
        final(s).favorites@ == old(s).favorites@,
        final(s).next_user_id == old(s).next_user_id,
        final(s).next_comment_id == old(s).next_comment_id,
        match r {
            Ok(v) => {
                let row = final(s).articles@.last();
                &&& user_exists(old(s).users@, article.author)
                &&& article_slugged(old(s).articles@, article.slug@) is None
                &&& final(s).articles@ == old(s).articles@.push(row)
                &&& final(s).next_article_id == old(s).next_article_id + 1
                &&& row.id == old(s).next_article_id
                &&& row.slug@ == article.slug@
                &&& row.title@ == article.title@
                &&& row.description@ == article.description@
                &&& row.body@ == article.body@
                &&& row.author == article.author
                &&& row.tag_list@ == article.tag_list@
                &&& row.created_at == now
                &&& row.updated_at == now
                &&& row.favorites_count == 0
                &&& is_article_view(v, row, author_of(old(s).users@, row), false, false)
            },
            Err(e) => {
                &&& *final(s) == *old(s)
                &&& match e {
                    AppError::NotFound => !user_exists(old(s).users@, article.author),
                    AppError::Conflict(ConflictField::Slug) => user_exists(
                        old(s).users@,
                        article.author,
                    ) && article_slugged(old(s).articles@, article.slug@) is Some,
                    _ => false,
                }
            },
        },
{
    let k = match s.find_user_by_id(article.author) {
        Some(k) => k,
        None => {
            proof {
                lemma_user_by_id_props(s.users@, article.author, 0);
            }
            return Err(AppError::NotFound);
        },
    };
    proof {
        lemma_user_by_id_props(s.users@, article.author, 0);
        assert(user_exists(s.users@, article.author));
    }
    if s.find_article_by_slug(article.slug.as_str()).is_some() {
        return Err(AppError::Conflict(ConflictField::Slug));
    }
    let row = ArticleData {
        id: s.next_article_id,
        slug: article.slug.clone(),
        title: article.title.clone(),
        description: article.description.clone(),
        body: article.body.clone(),
        author: article.author,
        tag_list: dup_string_vec(&article.tag_list),
        created_at: now,
        updated_at: now,
        favorites_count: 0,
    };
    let v = Article::build(&row, &s.users[k], false, false);
    let ghost prev = *s;
    s.articles.push(row);
    s.next_article_id = s.next_article_id + 1;
    proof {
        lemma_article_slugged_props(prev.articles@, article.slug@, 0);
        assert forall|a: int, b: int|
            #![trigger s.articles@[a], s.articles@[b]]
            0 <= a < b < s.articles@.len() implies s.articles@[a].id != s.articles@[b].id
            && s.articles@[a].slug@ != s.articles@[b].slug@ by {
            if b < prev.articles@.len() {
                assert(s.articles@[a] == prev.articles@[a]);
                assert(s.articles@[b] == prev.articles@[b]);
            } else {
                assert(s.articles@[a] == prev.articles@[a]);
            }
        }
        assert forall|i: int| 0 <= i < s.articles@.len() implies (#[trigger] s.articles@[i]).favorites_count
            == count_favs(s.favorites@, s.articles@[i].id) by {
            if i < prev.articles@.len() {
                assert(s.articles@[i] == prev.articles@[i]);
            } else {
                assert(forall|m: int|
                    0 <= m < s.favorites@.len() ==> (#[trigger] s.favorites@[m]).article
                        != s.articles@[i].id);
                lemma_count_favs_zero(s.favorites@, s.articles@[i].id, 0);
            }
        }
    }
    Ok(v)
}

/// Patches the article with the given slug by the set fields, guarded by
/// ownership: the patch applies only when the acting identity is the
/// article's author.
///
/// Returns `NotFound` exactly when no article carries the slug or the
/// actor does not own it (the two are indistinguishable), and `Conflict`
/// on the slug exactly when a set slug is carried by another article; in
/// all failing cases the store is untouched.
pub fn update(s: &mut Store, slug: &str, user_id: i32, article: &ArticleUpdateData) -> (r: Result<
    Article,
    AppError,
>)
    requires
        old(s).wf(),
    ensures
        final(s).wf(),
        final(s).users@ == old(s).users@,
        final(s).comments@ == old(s).comments@,
        final(s).follows@ == old(s).follows@,
        final(s).favorites@ == old(s).favorites@,
        final(s).next_user_id == old(s).next_user_id,
        final(s).next_article_id == old(s).next_article_id,
        final(s).next_comment_id == old(s).next_comment_id,
        match r {
            Ok(v) => {
                let j = article_slugged(old(s).articles@, slug@).unwrap();
                &&& owned_by(old(s).articles@, slug@, user_id)
                &&& no_slug_clash(old(s).articles@, j, opt_view(article.slug))
                &&& final(s).articles@.len() == old(s).articles@.len()
                &&& forall|k: int|
                    0 <= k < old(s).articles@.len() && k != j ==> final(s).articles@[k] == old(
                        s,
                    ).articles@[k]
                &&& article_patched(
                    final(s).articles@[j],
                    old(s).articles@[j],
                    opt_view(article.slug),
                    opt_view(article.title),
                    opt_view(article.description),
                    opt_view(article.body),
                )
                &&& is_article_view(
                    v,
                    final(s).articles@[j],
                    author_of(old(s).users@, old(s).articles@[j]),
                    false,
                    false,
                )
            },
            Err(e) => {
                &&& *final(s) == *old(s)
                &&& match e {
                    AppError::NotFound => !owned_by(old(s).articles@, slug@, user_id),
                    AppError::Conflict(ConflictField::Slug) => {
                        let j = article_slugged(old(s).articles@, slug@).unwrap();
                        owned_by(old(s).articles@, slug@, user_id) && !no_slug_clash(
                            old(s).articles@,
                            j,
                            opt_view(article.slug),
                        )
                    },
                    _ => false,
                }
            },
        },
{
    let j = match s.find_article_by_slug(slug) {
        Some(j) => j,
        None => {
            return Err(AppError::NotFound);
        },
    };
    if s.articles[j].author != user_id {
        return Err(AppError::NotFound);
    }
    match &article.slug {
        Some(n) => {
            match s.find_article_by_slug(n.as_str()) {
                Some(k) => {
                    if k != j {
                        return Err(AppError::Conflict(ConflictField::Slug));
                    }
                },
                None => (),
            }
        },
        None => (),
    }
    proof {
        assert(user_exists(s.users@, s.articles@[j as int].author));
    }
    let k = author_index(s, s.articles[j].author);
    let old_row = &s.articles[j];
    let new_row = ArticleData {
        id: old_row.id,
        slug: match &article.slug {
            Some(x) => x.clone(),
            None => old_row.slug.clone(),
        },
        title: match &article.title {
            Some(x) => x.clone(),
            None => old_row.title.clone(),
        },
        description: match &article.description {
            Some(x) => x.clone(),
            None => old_row.description.clone(),
        },
        body: match &article.body {
            Some(x) => x.clone(),
            None => old_row.body.clone(),
        },
        author: old_row.author,
        tag_list: dup_string_vec(&old_row.tag_list),
        created_at: old_row.created_at,
        updated_at: old_row.updated_at,
        favorites_count: old_row.favorites_count,
    };
    let ghost prev = *s;
    s.articles.set(j, new_row);
    proof {
        if article.slug is Some {
            lemma_article_slugged_props(prev.articles@, article.slug.unwrap()@, 0);
        }
        assert forall|a: int, b: int|
            #![trigger s.articles@[a], s.articles@[b]]
            0 <= a < b < s.articles@.len() implies s.articles@[a].id != s.articles@[b].id
            && s.articles@[a].slug@ != s.articles@[b].slug@ by {
            assert(prev.articles@[a].id != prev.articles@[b].id && prev.articles@[a].slug@
                != prev.articles@[b].slug@);
        }
        assert forall|i: int| 0 <= i < s.articles@.len() implies (#[trigger] s.articles@[i]).favorites_count
            == count_favs(s.favorites@, s.articles@[i].id) by {
            assert(prev.articles@[i].favorites_count == count_favs(
                prev.favorites@,
                prev.articles@[i].id,
            ));
        }
    }
    Ok(Article::build(&s.articles[j], &s.users[k], false, false))
}

/// Deletes the article with the given slug, guarded by ownership.
///
/// A missing article and an ownership mismatch both yield `NotFound` and
/// leave the store untouched, so a non-owner cannot learn whether the
/// article exists.
pub fn delete(s: &mut Store, user_id: i32, slug: &str) -> (r: Result<(), AppError>)
    requires
        old(s).wf(),
    ensures
        final(s).wf(),
        final(s).users@ == old(s).users@,
        final(s).comments@ == old(s).comments@,
        final(s).follows@ == old(s).follows@,
        final(s).favorites@ == old(s).favorites@,
        final(s).next_user_id == old(s).next_user_id,
        final(s).next_article_id == old(s).next_article_id,
        final(s).next_comment_id == old(s).next_comment_id,
        match r {
            Ok(_) => {
                let j = article_slugged(old(s).articles@, slug@).unwrap();
                &&& owned_by(old(s).articles@, slug@, user_id)
                &&& final(s).articles@ == old(s).articles@.remove(j)
            },
            Err(e) => {
                &&& e == AppError::NotFound
                &&& !owned_by(old(s).articles@, slug@, user_id)
                &&& *final(s) == *old(s)
            },
        },
{
    let j = match s.find_article_by_slug(slug) {
        Some(j) => j,
        None => {
            return Err(AppError::NotFound);
        },
    };
    if s.articles[j].author != user_id {
        return Err(AppError::NotFound);
    }
    let ghost prev = *s;
    let _removed = s.articles.remove(j);
    proof {
        prev.articles@.remove_ensures(j as int);
        assert forall|a: int, b: int|
            #![trigger s.articles@[a], s.articles@[b]]
            0 <= a < b < s.articles@.len() implies s.articles@[a].id != s.articles@[b].id
            && s.articles@[a].slug@ != s.articles@[b].slug@ by {
            let a0 = if a < j as int { a } else { a + 1 };
            let b0 = if b < j as int { b } else { b + 1 };
            assert(s.articles@[a] == prev.articles@[a0]);
            assert(s.articles@[b] == prev.articles@[b0]);
        }
        assert forall|i: int| 0 <= i < s.articles@.len() implies 0 <= (
        #[trigger] s.articles@[i]).id < s.next_article_id && user_exists(
            s.users@,
            s.articles@[i].author,
        ) && s.articles@[i].favorites_count == count_favs(s.favorites@, s.articles@[i].id) by {
            let i0 = if i < j as int { i } else { i + 1 };
            assert(s.articles@[i] == prev.articles@[i0]);
        }
    }
    Ok(())
}

/// `nu` is `a` with `count` in the favorite counter and every other field
/// unchanged.
pub open spec fn same_article_but_count(nu: ArticleData, a: ArticleData, count: int) -> bool {
    &&& nu.id == a.id
    &&& nu.slug@ == a.slug@
    &&& nu.title@ == a.title@
    &&& nu.description@ == a.description@
    &&& nu.body@ == a.body@
    &&& nu.author == a.author
    &&& nu.tag_list@ == a.tag_list@
    &&& nu.created_at == a.created_at
    &&& nu.updated_at == a.updated_at
    &&& nu.favorites_count == count
}

/// A copy of an article row with the given favorite counter.
fn dup_article_with_count(a: &ArticleData, count: usize) -> (r: ArticleData)
    ensures
        same_article_but_count(r, *a, count as int),
{
    ArticleData {
        id: a.id,
        slug: a.slug.clone(),
        title: a.title.clone(),
        description: a.description.clone(),
        body: a.body.clone(),
        author: a.author,
        tag_list: dup_string_vec(&a.tag_list),
        created_at: a.created_at,
        updated_at: a.updated_at,
        favorites_count: count,
    }
}

/// Marks the article with the given slug as a favorite of `user_id`.
///
/// The transition is atomic and existence-guarded: when the edge is
/// absent, the edge is inserted and the counter raised by one, together;
/// when it is already present, nothing changes and the call still
/// succeeds, so the counter is never double-counted. The returned view
/// shows `favorited = true` and the author's profile relative to
/// `user_id`. Returns `NotFound` exactly when no article carries the slug,
/// leaving the store untouched.
pub fn favorite(s: &mut Store, user_id: i32, slug: &str) -> (r: Result<Article, AppError>)
    requires
        old(s).wf(),
    ensures
        final(s).wf(),
        final(s).users@ == old(s).users@,
        final(s).comments@ == old(s).comments@,
        final(s).follows@ == old(s).follows@,
        final(s).next_user_id == old(s).next_user_id,
        final(s).next_article_id == old(s).next_article_id,
        final(s).next_comment_id == old(s).next_comment_id,
        match r {
            Ok(v) => {
                let j = article_slugged(old(s).articles@, slug@).unwrap();
                let row = old(s).articles@[j];
                let author = author_of(old(s).users@, row);
                let fw = is_following(old(s).follows@, user_id, row.author);
                &&& article_slugged(old(s).articles@, slug@) is Some
                &&& has_favorited(final(s).favorites@, user_id, row.id)
                &&& if has_favorited(old(s).favorites@, user_id, row.id) {
                    &&& *final(s) == *old(s)
                    &&& is_article_view(v, row, author, fw, true)
                } else {
                    &&& final(s).favorites@ == old(s).favorites@.push(
                        FavoriteEdge { user: user_id, article: row.id },
                    )
                    &&& final(s).articles@.len() == old(s).articles@.len()
                    &&& forall|k: int|
                        0 <= k < old(s).articles@.len() && k != j ==> final(s).articles@[k] == old(
                            s,
                        ).articles@[k]
                    &&& same_article_but_count(
                        final(s).articles@[j],
                        row,
                        row.favorites_count + 1,
                    )
                    &&& is_article_view(v, final(s).articles@[j], author, fw, true)
                }
            },
            Err(e) => {
                &&& e == AppError::NotFound
                &&& article_slugged(old(s).articles@, slug@) is None
                &&& *final(s) == *old(s)
            },
        },
{
    let j = match s.find_article_by_slug(slug) {
        Some(j) => j,
        None => {
            return Err(AppError::NotFound);
        },
    };
    proof {
        assert(user_exists(s.users@, s.articles@[j as int].author));
    }
    let k = author_index(s, s.articles[j].author);
    let following = s.find_follow(user_id, s.articles[j].author).is_some();
    let aid = s.articles[j].id;
    match s.find_favorite(user_id, aid) {
        Some(_) => Ok(Article::build(&s.articles[j], &s.users[k], following, true)),
        None => {
            let c = s.articles[j].favorites_count;
            proof {
                lemma_count_favs_le_len(s.favorites@, aid, 0);
                lemma_favorite_at_props(s.favorites@, user_id, aid, 0);
            }
            let ghost prev = *s;
            s.favorites.push(FavoriteEdge { user: user_id, article: aid });
            let n = s.favorites.len();
            assert(c < n);
            let new_count = c + 1;
            let new_row = dup_article_with_count(&s.articles[j], new_count);
            s.articles.set(j, new_row);
            proof {
                assert forall|a: int, b: int|
                    #![trigger s.favorites@[a], s.favorites@[b]]
                    0 <= a < b < s.favorites@.len() implies s.favorites@[a] != s.favorites@[b] by {
                    if b < prev.favorites@.len() {
                        assert(s.favorites@[a] == prev.favorites@[a]);
                        assert(s.favorites@[b] == prev.favorites@[b]);
                    } else {
                        assert(s.favorites@[a] == prev.favorites@[a]);
                        assert(s.favorites@[b] == (FavoriteEdge { user: user_id, article: aid }));
                    }
                }
                assert forall|i: int|
                    0 <= i < s.favorites@.len() implies 0 <= (#[trigger] s.favorites@[i]).article
                    < s.next_article_id by {
                    if i < prev.favorites@.len() {
                        assert(s.favorites@[i] == prev.favorites@[i]);
                    } else {
                        assert(s.favorites@[i].article == aid);
                        assert(0 <= prev.articles@[j as int].id < prev.next_article_id);
                    }
                }
                assert forall|a: int, b: int|
                    #![trigger s.articles@[a], s.articles@[b]]
                    0 <= a < b < s.articles@.len() implies s.articles@[a].id != s.articles@[b].id
                    && s.articles@[a].slug@ != s.articles@[b].slug@ by {
                    assert(prev.articles@[a].id != prev.articles@[b].id && prev.articles@[a].slug@
                        != prev.articles@[b].slug@);
                }
                assert forall|i: int| 0 <= i < s.articles@.len() implies (
                #[trigger] s.articles@[i]).favorites_count == count_favs(
                    s.favorites@,
                    s.articles@[i].id,
                ) by {
                    lemma_count_favs_push(
                        prev.favorites@,
                        FavoriteEdge { user: user_id, article: aid },
                        s.articles@[i].id,
                        0,
                    );
                    if i == j as int {
                    } else {
                        assert(s.articles@[i] == prev.articles@[i]);
                        if prev.articles@[i].id == aid {
                            assert(prev.articles@[i].id != prev.articles@[j as int].id);
                        }
                    }
                }
                assert(has_favorited(s.favorites@, user_id, aid)) by {
                    lemma_favorite_at_props(s.favorites@, user_id, aid, 0);
                    if favorite_at(s.favorites@, user_id, aid) is None {
                        assert(s.favorites@[prev.favorites@.len() as int] == (FavoriteEdge {
                            user: user_id,
                            article: aid,
                        }));
                    }
                }
            }
            Ok(Article::build(&s.articles[j], &s.users[k], following, true))
        },
    }
}

/// Removes the article with the given slug from `user_id`'s favorites.
///
/// The inverse of `favorite`, equally guarded: when the edge is present,
/// the edge is deleted and the counter lowered by one, together (the
/// counter cannot underflow, since it equals the number of edges and one
/// exists); when it is absent, nothing changes and the call still
/// succeeds. The returned view shows `favorited = false`. Returns
/// `NotFound` exactly when no article carries the slug, leaving the store
/// untouched.
pub fn unfavorite(s: &mut Store, user_id: i32, slug: &str) -> (r: Result<Article, AppError>)
    requires
        old(s).wf(),
    ensures
        final(s).wf(),
        final(s).users@ == old(s).users@,
        final(s).comments@ == old(s).comments@,
        final(s).follows@ == old(s).follows@,
        final(s).next_user_id == old(s).next_user_id,
        final(s).next_article_id == old(s).next_article_id,
        final(s).next_comment_id == old(s).next_comment_id,
        match r {
            Ok(v) => {
                let j = article_slugged(old(s).articles@, slug@).unwrap();
                let row = old(s).articles@[j];
                let author = author_of(old(s).users@, row);
                let fw = is_following(old(s).follows@, user_id, row.author);
                &&& article_slugged(old(s).articles@, slug@) is Some
                &&& !has_favorited(final(s).favorites@, user_id, row.id)
                &&& if !has_favorited(old(s).favorites@, user_id, row.id) {
                    &&& *final(s) == *old(s)
                    &&& is_article_view(v, row, author, fw, false)
                } else {
                    &&& final(s).favorites@ == old(s).favorites@.remove(
                        favorite_at(old(s).favorites@, user_id, row.id).unwrap(),
                    )
                    &&& final(s).articles@.len() == old(s).articles@.len()
                    &&& forall|k: int|
                        0 <= k < old(s).articles@.len() && k != j ==> final(s).articles@[k] == old(
                            s,
                        ).articles@[k]
                    &&& same_article_but_count(
                        final(s).articles@[j],
                        row,
                        row.favorites_count - 1,
                    )
                    &&& is_article_view(v, final(s).articles@[j], author, fw, false)
                }
            },
            Err(e) => {
                &&& e == AppError::NotFound
                &&& article_slugged(old(s).articles@, slug@) is None
                &&& *final(s) == *old(s)
            },
        },
{
    let j = match s.find_article_by_slug(slug) {
        Some(j) => j,
        None => {
            return Err(AppError::NotFound);
        },
    };
    proof {
        assert(user_exists(s.users@, s.articles@[j as int].author));
    }
    let k = author_index(s, s.articles[j].author);
    let following = s.find_follow(user_id, s.articles[j].author).is_some();
    let aid = s.articles[j].id;
    match s.find_favorite(user_id, aid) {
        None => {
            proof {
                lemma_favorite_at_props(s.favorites@, user_id, aid, 0);
            }
            Ok(Article::build(&s.articles[j], &s.users[k], following, false))
        },
        Some(e_idx) => {
            let c = s.articles[j].favorites_count;
            proof {
                lemma_favorite_at_props(s.favorites@, user_id, aid, 0);
                lemma_count_favs_at_least_one(s.favorites@, aid, e_idx as int);
            }
            let ghost prev = *s;
            let _removed = s.favorites.remove(e_idx);
            let new_count = c - 1;
            let new_row = dup_article_with_count(&s.articles[j], new_count);
            s.articles.set(j, new_row);
            proof {
                prev.favorites@.remove_ensures(e_idx as int);
                assert forall|a: int, b: int|
                    #![trigger s.favorites@[a], s.favorites@[b]]
                    0 <= a < b < s.favorites@.len() implies s.favorites@[a] != s.favorites@[b] by {
                    let a0 = if a < e_idx as int { a } else { a + 1 };
                    let b0 = if b < e_idx as int { b } else { b + 1 };
                    assert(s.favorites@[a] == prev.favorites@[a0]);
                    assert(s.favorites@[b] == prev.favorites@[b0]);
                }
                assert forall|i: int|
                    0 <= i < s.favorites@.len() implies 0 <= (#[trigger] s.favorites@[i]).article
                    < s.next_article_id by {
                    let i0 = if i < e_idx as int { i } else { i + 1 };
                    assert(s.favorites@[i] == prev.favorites@[i0]);
                }
                assert forall|a: int, b: int|
                    #![trigger s.articles@[a], s.articles@[b]]
                    0 <= a < b < s.articles@.len() implies s.articles@[a].id != s.articles@[b].id
                    && s.articles@[a].slug@ != s.articles@[b].slug@ by {
                    assert(prev.articles@[a].id != prev.articles@[b].id && prev.articles@[a].slug@
                        != prev.articles@[b].slug@);
                }
                assert forall|i: int| 0 <= i < s.articles@.len() implies (
                #[trigger] s.articles@[i]).favorites_count == count_favs(
                    s.favorites@,
                    s.articles@[i].id,
                ) by {
                    lemma_count_favs_remove(prev.favorites@, e_idx as int, s.articles@[i].id, 0);
                    if i == j as int {
                    } else {
                        assert(s.articles@[i] == prev.articles@[i]);
                        if prev.articles@[i].id == aid {
                            assert(prev.articles@[i].id != prev.articles@[j as int].id);
                        }
                    }
                }
                assert(!has_favorited(s.favorites@, user_id, aid)) by {
                    lemma_favorite_at_props(s.favorites@, user_id, aid, 0);
                    if favorite_at(s.favorites@, user_id, aid) is Some {
                        let m = favorite_at(s.favorites@, user_id, aid).unwrap();
                        let m0 = if m < e_idx as int { m } else { m + 1 };
                        assert(s.favorites@[m] == prev.favorites@[m0]);
                        assert(prev.favorites@[e_idx as int] == (FavoriteEdge {
                            user: user_id,
                            article: aid,
                        }));
                    }
                }
            }
            Ok(Article::build(&s.articles[j], &s.users[k], following, false))
        },
    }
}

// ---------------------------------------------------------------------------
// Listings.
// ---------------------------------------------------------------------------

/// The article carries the tag.
pub open spec fn has_tag(a: ArticleData, t: Seq<char>) -> bool {
    exists|i: int| 0 <= i < a.tag_list@.len() && (#[trigger] a.tag_list@[i])@ == t
}

/// The article's author carries the username.
pub open spec fn author_named(users: Seq<User>, a: ArticleData, name: Seq<char>) -> bool {
    match user_by_id(users, a.author) {
        Some(k) => users[k].username@ == name,
        None => false,
    }
}

/// The union filter policy of the listing: with no filter set every
/// article matches; otherwise the set filters are or-combined, so
/// supplying both an author and a favoriting user widens the result
/// rather than narrowing it.
pub open spec fn query_matches(
    users: Seq<User>,
    favorites: Seq<FavoriteEdge>,
    a: ArticleData,
    tag: Option<String>,
    author: Option<String>,
    fav_user: Option<i32>,
) -> bool {
    if tag is None && author is None && fav_user is None {
        true
    } else {
        ||| match tag {
            Some(t) => has_tag(a, t@),
            None => false,
        }
        ||| match author {
            Some(n) => author_named(users, a, n@),
            None => false,
        }
        ||| match fav_user {
            Some(u) => has_favorited(favorites, u, a.id),
            None => false,
        }
    }
}

/// The indices of the matching articles, in stored order.
pub open spec fn selected_from(
    articles: Seq<ArticleData>,
    users: Seq<User>,
    favorites: Seq<FavoriteEdge>,
    tag: Option<String>,
    author: Option<String>,
    fav_user: Option<i32>,
    i: int,
) -> Seq<int>
    decreases articles.len() - i,
{
    if i < 0 || i >= articles.len() {
        Seq::empty()
    } else if query_matches(users, favorites, articles[i], tag, author, fav_user) {
        seq![i] + selected_from(articles, users, favorites, tag, author, fav_user, i + 1)
    } else {
        selected_from(articles, users, favorites, tag, author, fav_user, i + 1)
    }
}

pub open spec fn selected(
    articles: Seq<ArticleData>,
    users: Seq<User>,
    favorites: Seq<FavoriteEdge>,
    tag: Option<String>,
    author: Option<String>,
    fav_user: Option<i32>,
) -> Seq<int> {
    selected_from(articles, users, favorites, tag, author, fav_user, 0)
}

/// The page `offset`/`limit` cut out of a selection.
pub open spec fn page_of(sel: Seq<int>, offset: int, limit: int) -> Seq<int> {
    let lo = if offset <= sel.len() {
        offset
    } else {
        sel.len() as int
    };
    let hi = if offset + limit <= sel.len() {
        offset + limit
    } else {
        sel.len() as int
    };
    sel.subrange(lo, hi)
}

/// The user whose favorites a `favoritedBy` filter refers to, if the
/// filter is set and the username resolves.
pub open spec fn fav_user_of(users: Seq<User>, favorited: Option<String>) -> Option<i32> {
    match favorited {
        Some(f) => match user_named(users, f@) {
            Some(k) => Some(users[k].id),
            None => None,
        },
        None => None,
    }
}

/// The indices as mathematical integers.
pub open spec fn idx_view(v: Seq<usize>) -> Seq<int> {
    v.map_values(|x: usize| x as int)
}

/// The listing's effective limit: 20 when none is given.
pub open spec fn limit_of(limit: Option<usize>) -> int {
    match limit {
        Some(l) => l as int,
        None => 20,
    }
}

/// The listing's effective offset: 0 when none is given.
pub open spec fn offset_of(offset: Option<usize>) -> int {
    match offset {
        Some(o) => o as int,
        None => 0,
    }
}

fn has_tag_exec(a: &ArticleData, t: &str) -> (r: bool)
    ensures
        r == has_tag(*a, t@),
{
    let n = a.tag_list.len();
    let mut i: usize = 0;
    while i < n
        invariant
            n == a.tag_list@.len(),
            i <= n,
            forall|k: int| 0 <= k < i ==> (#[trigger] a.tag_list@[k])@ != t@,
        decreases n - i,
    {
        if str_eq(a.tag_list[i].as_str(), t) {
            return true;
        }
        i = i + 1;
    }
    false
}

fn query_matches_exec(
    s: &Store,
    a: &ArticleData,
    tag: &Option<String>,
    author: &Option<String>,
    fav_user: Option<i32>,
) -> (r: bool)
    ensures
        r == query_matches(s.users@, s.favorites@, *a, *tag, *author, fav_user),
{
    if tag.is_none() && author.is_none() && fav_user.is_none() {
        return true;
    }
    match tag {
        Some(t) => {
            if has_tag_exec(a, t.as_str()) {
                return true;
            }
        },
        None => (),
    }
    match author {
        Some(nm) => {
            match s.find_user_by_id(a.author) {
                Some(k) => {
                    if str_eq(s.users[k].username.as_str(), nm.as_str()) {
                        return true;
                    }
                },
                None => (),
            }
        },
        None => (),
    }
    match fav_user {
        Some(u) => {
            if s.find_favorite(u, a.id).is_some() {
                return true;
            }
        },
        None => (),
    }
    false
}

proof fn lemma_idx_view_push(v: Seq<usize>, x: usize)
    ensures
        idx_view(v.push(x)) == idx_view(v).push(x as int),
{
    assert(idx_view(v.push(x)) =~= idx_view(v).push(x as int));
}

/// Lists articles under the union filter policy, as seen by `user_id`.
///
/// A `favoritedBy` filter naming an unknown user yields `NotFound`;
/// otherwise the result is the `offset`/`limit` page of the matching
/// articles in stored order, each with `favorited` relative to `user_id`
/// and the author profile shown without a follow flag. The page's length
/// is also returned as its count.
#[verifier::loop_isolation(false)]
pub fn list_articles(s: &Store, form: &ArticleQuery, user_id: Option<i32>) -> (r: Result<
    Articles,
    AppError,
>)
    requires
        s.wf(),
    ensures
        match r {
            Ok(res) => {
                let sel = selected(
                    s.articles@,
                    s.users@,
                    s.favorites@,
                    form.tag,
                    form.author,
                    fav_user_of(s.users@, form.favorited),
                );
                let page = page_of(sel, offset_of(form.offset), limit_of(form.limit));
                &&& match form.favorited {
                    Some(f) => user_named(s.users@, f@) is Some,
                    None => true,
                }
                &&& res.articles@.len() == page.len()
                &&& res.articles_count == page.len()
                &&& forall|m: int|
                    0 <= m < page.len() ==> is_article_view(
                        #[trigger] res.articles@[m],
                        s.articles@[page[m]],
                        author_of(s.users@, s.articles@[page[m]]),
                        false,
                        favorited_for(s.favorites@, user_id, s.articles@[page[m]].id),
                    )
            },
            Err(e) => {
                &&& e == AppError::NotFound
                &&& form.favorited is Some
                &&& user_named(s.users@, form.favorited.unwrap()@) is None
            },
        },
{
    let fav_user: Option<i32> = match &form.favorited {
        Some(f) => match s.find_user_by_name(f.as_str()) {
            Some(k) => Some(s.users[k].id),
            None => {
                return Err(AppError::NotFound);
            },
        },
        None => None,
    };
    let limit = match form.limit {
        Some(l) => l,
        None => 20,
    };
    let offset = match form.offset {
        Some(o) => o,
        None => 0,
    };
    let ghost all = selected(s.articles@, s.users@, s.favorites@, form.tag, form.author, fav_user);
    let n = s.articles.len();
    let mut sel: Vec<usize> = Vec::new();
    let mut i: usize = 0;
    while i < n
        invariant
            i <= n,
            idx_view(sel@) + selected_from(
                s.articles@,
                s.users@,
                s.favorites@,
                form.tag,
                form.author,
                fav_user,
                i as int,
            ) == all,
            forall|m: int| 0 <= m < sel@.len() ==> #[trigger] sel@[m] < n,
        decreases n - i,
    {
        let ghost before = sel@;
        if query_matches_exec(s, &s.articles[i], &form.tag, &form.author, fav_user) {
            sel.push(i);
            proof {
                lemma_idx_view_push(before, i);
                assert(idx_view(sel@) + selected_from(
                    s.articles@,
                    s.users@,
                    s.favorites@,
                    form.tag,
                    form.author,
                    fav_user,
                    i + 1,
                ) =~= all);
            }
        }
        i = i + 1;
    }
    proof {
        assert(idx_view(sel@) == all);
    }
    let total = sel.len();
    let lo = if offset <= total {
        offset
    } else {
        total
    };
    let remaining = total - lo;
    let take_n = if limit <= remaining {
        limit
    } else {
        remaining
    };
    let hi = lo + take_n;
    let ghost page = page_of(all, offset_of(form.offset), limit_of(form.limit));
    proof {
        assert(page =~= all.subrange(lo as int, hi as int));
    }
    let mut out: Vec<Article> = Vec::new();
    let mut m: usize = lo;
    while m < hi
        invariant
            lo <= m <= hi,
            out@.len() == m - lo,
            forall|q: int|
                0 <= q < out@.len() ==> is_article_view(
                    #[trigger] out@[q],
                    s.articles@[page[q]],
                    author_of(s.users@, s.articles@[page[q]]),
                    false,
                    favorited_for(s.favorites@, user_id, s.articles@[page[q]].id),
                ),
        decreases hi - m,
    {
        let j = sel[m];
        proof {
            assert(page[m - lo] == j as int);
            assert(user_exists(s.users@, s.articles@[j as int].author));
        }
        let k = author_index(s, s.articles[j].author);
        let favd = match user_id {
            Some(v) => s.find_favorite(v, s.articles[j].id).is_some(),
            None => false,
        };
        out.push(Article::build(&s.articles[j], &s.users[k], false, favd));
        m = m + 1;
    }
    let count = out.len();
    Ok(Articles { articles: out, articles_count: count })
}

/// Articles by followed authors.
pub open spec fn feed_selected_from(
    articles: Seq<ArticleData>,
    follows: Seq<crate::store::FollowEdge>,
    viewer: i32,
    i: int,
) -> Seq<int>
    decreases articles.len() - i,
{
    if i < 0 || i >= articles.len() {
        Seq::empty()
    } else if is_following(follows, viewer, articles[i].author) {
        seq![i] + feed_selected_from(articles, follows, viewer, i + 1)
    } else {
        feed_selected_from(articles, follows, viewer, i + 1)
    }
}

pub open spec fn feed_selected(
    articles: Seq<ArticleData>,
    follows: Seq<crate::store::FollowEdge>,
    viewer: i32,
) -> Seq<int> {
    feed_selected_from(articles, follows, viewer, 0)
}

/// The personal feed: the `offset`/`limit` page of the articles whose
/// author `user_id` follows, in stored order; an article by an unfollowed
/// author never appears. `favorited` is relative to `user_id`; only
/// `limit` and `offset` of the query are read.
#[verifier::loop_isolation(false)]
pub fn feed(s: &Store, form: &ArticleQuery, user_id: i32) -> (r: Result<Articles, AppError>)
    requires
        s.wf(),
    ensures
        match r {
            Ok(res) => {
                let sel = feed_selected(s.articles@, s.follows@, user_id);
                let page = page_of(sel, offset_of(form.offset), limit_of(form.limit));
                &&& res.articles@.len() == page.len()
                &&& res.articles_count == page.len()
                &&& forall|m: int|
                    0 <= m < page.len() ==> is_article_view(
                        #[trigger] res.articles@[m],
                        s.articles@[page[m]],
                        author_of(s.users@, s.articles@[page[m]]),
                        false,
                        favorited_for(s.favorites@, Some(user_id), s.articles@[page[m]].id),
                    )
            },
            Err(_) => false,
        },
{
    let limit = match form.limit {
        Some(l) => l,
        None => 20,
    };
    let offset = match form.offset {
        Some(o) => o,
        None => 0,
    };
    let ghost all = feed_selected(s.articles@, s.follows@, user_id);
    let n = s.articles.len();
    let mut sel: Vec<usize> = Vec::new();
    let mut i: usize = 0;
    while i < n
        invariant
            i <= n,
            idx_view(sel@) + feed_selected_from(s.articles@, s.follows@, user_id, i as int) == all,
            forall|m: int| 0 <= m < sel@.len() ==> #[trigger] sel@[m] < n,
        decreases n - i,
    {
        let ghost before = sel@;
        if s.find_follow(user_id, s.articles[i].author).is_some() {
            sel.push(i);
            proof {
                lemma_idx_view_push(before, i);
                assert(idx_view(sel@) + feed_selected_from(s.articles@, s.follows@, user_id, i + 1)
                    =~= all);
            }
        }
        i = i + 1;
    }
    proof {
        assert(idx_view(sel@) == all);
    }
    let total = sel.len();
    let lo = if offset <= total {
        offset
    } else {
        total
    };
    let remaining = total - lo;
    let take_n = if limit <= remaining {
        limit
    } else {
        remaining
    };
    let hi = lo + take_n;
    let ghost page = page_of(all, offset_of(form.offset), limit_of(form.limit));
    proof {
        assert(page =~= all.subrange(lo as int, hi as int));
    }
    let mut out: Vec<Article> = Vec::new();
    let mut m: usize = lo;
    while m < hi
        invariant
            lo <= m <= hi,
            out@.len() == m - lo,
            forall|q: int|
                0 <= q < out@.len() ==> is_article_view(
                    #[trigger] out@[q],
                    s.articles@[page[q]],
                    author_of(s.users@, s.articles@[page[q]]),
                    false,
                    favorited_for(s.favorites@, Some(user_id), s.articles@[page[q]].id),
                ),
        decreases hi - m,
    {
        let j = sel[m];
        proof {
            assert(page[m - lo] == j as int);
            assert(user_exists(s.users@, s.articles@[j as int].author));
        }
        let k = author_index(s, s.articles[j].author);
        let favd = s.find_favorite(user_id, s.articles[j].id).is_some();
        out.push(Article::build(&s.articles[j], &s.users[k], false, favd));
        m = m + 1;
    }
    let count = out.len();
    Ok(Articles { articles: out, articles_count: count })
}

// ---------------------------------------------------------------------------
// Tags.
// ---------------------------------------------------------------------------

/// The tag stands in the list.
pub open spec fn tag_listed(ts: Seq<String>, t: Seq<char>) -> bool {
    exists|k: int| 0 <= k < ts.len() && (#[trigger] ts[k])@ == t
}

/// Some article carries the tag.
pub open spec fn tag_in_store(articles: Seq<ArticleData>, t: Seq<char>) -> bool {
    exists|i: int| 0 <= i < articles.len() && has_tag(#[trigger] articles[i], t)
}

fn contains_tag(v: &Vec<String>, t: &str) -> (r: bool)
    ensures
        r == tag_listed(v@, t@),
{
    let n = v.len();
    let mut i: usize = 0;
    while i < n
        invariant
            n == v@.len(),
            i <= n,
            forall|k: int| 0 <= k < i ==> (#[trigger] v@[k])@ != t@,
        decreases n - i,
    {
        if str_eq(v[i].as_str(), t) {
            return true;
        }
        i = i + 1;
    }
    false
}

proof fn lemma_tag_listed_extend(ts: Seq<String>, ts2: Seq<String>, t: Seq<char>)
    requires
        tag_listed(ts, t),
        ts.len() <= ts2.len(),
        forall|k: int| 0 <= k < ts.len() ==> ts2[k] == ts[k],
    ensures
        tag_listed(ts2, t),
{
    let k = choose|k: int| 0 <= k < ts.len() && (#[trigger] ts[k])@ == t;
    assert(ts2[k]@ == t);
}

/// The distinct tags over all articles, in order of first occurrence: no
/// tag twice, every listed tag carried by some article, and every tag of
/// every article listed.
#[verifier::loop_isolation(false)]
pub fn tag_list(s: &Store) -> (r: Vec<String>)
    ensures
        forall|k: int, l: int| 0 <= k < l < r@.len() ==> (#[trigger] r@[k])@ != (#[trigger] r@[l])@,
        forall|k: int| 0 <= k < r@.len() ==> tag_in_store(s.articles@, (#[trigger] r@[k])@),
        forall|i: int, ti: int|
            #![trigger s.articles@[i].tag_list@[ti]]
            0 <= i < s.articles@.len() && 0 <= ti < s.articles@[i].tag_list@.len() ==> tag_listed(
                r@,
                s.articles@[i].tag_list@[ti]@,
            ),
{
    let mut out: Vec<String> = Vec::new();
    let n = s.articles.len();
    let mut i: usize = 0;
    while i < n
        invariant
            i <= n,
            forall|k: int, l: int|
                0 <= k < l < out@.len() ==> (#[trigger] out@[k])@ != (#[trigger] out@[l])@,
            forall|k: int| 0 <= k < out@.len() ==> tag_in_store(s.articles@, (#[trigger] out@[k])@),
            forall|i2: int, ti: int|
                #![trigger s.articles@[i2].tag_list@[ti]]
                0 <= i2 < i && 0 <= ti < s.articles@[i2].tag_list@.len() ==> tag_listed(
                    out@,
                    s.articles@[i2].tag_list@[ti]@,
                ),
        decreases n - i,
    {
        let tl_len = s.articles[i].tag_list.len();
        let mut ti: usize = 0;
        while ti < tl_len
            invariant
                i < n,
                ti <= tl_len,
                tl_len == s.articles@[i as int].tag_list@.len(),
                forall|k: int, l: int|
                    0 <= k < l < out@.len() ==> (#[trigger] out@[k])@ != (#[trigger] out@[l])@,
                forall|k: int|
                    0 <= k < out@.len() ==> tag_in_store(s.articles@, (#[trigger] out@[k])@),
                forall|i2: int, ti2: int|
                    #![trigger s.articles@[i2].tag_list@[ti2]]
                    0 <= i2 < i && 0 <= ti2 < s.articles@[i2].tag_list@.len() ==> tag_listed(
                        out@,
                        s.articles@[i2].tag_list@[ti2]@,
                    ),
                forall|ti2: int|
                    #![trigger s.articles@[i as int].tag_list@[ti2]]
                    0 <= ti2 < ti ==> tag_listed(out@, s.articles@[i as int].tag_list@[ti2]@),
            decreases tl_len - ti,
        {
            let ghost before = out@;
            let t = &s.articles[i].tag_list[ti];
            if !contains_tag(&out, t.as_str()) {
                out.push(t.clone());
                proof {
                    assert(out@[before.len() as int]@ == t@);
                    assert(has_tag(s.articles@[i as int], t@));
                    assert forall|k: int| 0 <= k < out@.len() implies tag_in_store(
                        s.articles@,
                        (#[trigger] out@[k])@,
                    ) by {
                        if k < before.len() {
                            assert(out@[k] == before[k]);
                        }
                    }
                    assert forall|i2: int, ti2: int|
                        #![trigger s.articles@[i2].tag_list@[ti2]]
                        0 <= i2 < i && 0 <= ti2 < s.articles@[i2].tag_list@.len() implies tag_listed(
                        out@,
                        s.articles@[i2].tag_list@[ti2]@,
                    ) by {
                        lemma_tag_listed_extend(before, out@, s.articles@[i2].tag_list@[ti2]@);
                    }
                    assert forall|ti2: int|
                        #![trigger s.articles@[i as int].tag_list@[ti2]]
                        0 <= ti2 < ti implies tag_listed(
                        out@,
                        s.articles@[i as int].tag_list@[ti2]@,
                    ) by {
                        lemma_tag_listed_extend(before, out@, s.articles@[i as int].tag_list@[ti2]@);
                    }
                }
            }
            ti = ti + 1;
        }
        i = i + 1;
    }
    out
}

// ---------------------------------------------------------------------------
// Title-level operations: slug derivation composed with the mutators.
// ---------------------------------------------------------------------------

/// A new article as the caller hands it in.
pub struct NewArticle {
    pub article: NewArticleData,
}

/// The fields of a new article; the slug is derived from the title.
pub struct NewArticleData {
    pub title: String,
    pub description: String,
    pub body: String,
    pub tag_list: Option<Vec<String>>,
}

/// An article view wrapped for the caller.
pub struct ArticleResult {
    pub article: Article,
}

impl ArticleResult {
    pub fn new(article: Article) -> (r: ArticleResult)
        ensures
            r.article == article,
    {
        ArticleResult { article }
    }
}

/// A tag listing wrapped for the caller.
pub struct TagsResult {
    pub tags: Vec<String>,
}

/// The tag list a new article is created with: the given one, or empty.
pub open spec fn tags_of(tag_list: Option<Vec<String>>) -> Seq<String> {
    match tag_list {
        Some(tl) => tl@,
        None => Seq::empty(),
    }
}

/// Creates an article for `author` from its title-level fields: the title
/// must not be empty, and the slug is derived from it deterministically.
///
/// Returns `ValidationFailed` on the title exactly when it is empty,
/// `NotFound` exactly when the author id is unknown, and `Conflict` on the
/// slug exactly when the derived slug is taken; in all failing cases the
/// store is untouched.
pub fn create_article(s: &mut Store, new_article: &NewArticleData, author: i32, now: i64) -> (r:
    Result<Article, AppError>)
    requires
        old(s).wf(),
        old(s).next_article_id < i32::MAX,
    ensures
        final(s).wf(),
        final(s).users@ == old(s).users@,
        final(s).comments@ == old(s).comments@,
        final(s).follows@ == old(s).follows@,
        final(s).favorites@ == old(s).favorites@,
        final(s).next_user_id == old(s).next_user_id,
        final(s).next_comment_id == old(s).next_comment_id,
        match r {
            Ok(v) => {
                let row = final(s).articles@.last();
                &&& new_article.title@.len() > 0
                &&& user_exists(old(s).users@, author)
                &&& article_slugged(old(s).articles@, slug_of(new_article.title@)) is None
                &&& final(s).articles@ == old(s).articles@.push(row)
                &&& final(s).next_article_id == old(s).next_article_id + 1
                &&& row.id == old(s).next_article_id
                &&& row.slug@ == slug_of(new_article.title@)
                &&& slug_wf(row.slug@)
                &&& row.title@ == new_article.title@
                &&& row.description@ == new_article.description@
                &&& row.body@ == new_article.body@
                &&& row.author == author
                &&& row.tag_list@ == tags_of(new_article.tag_list)
                &&& row.created_at == now
                &&& row.updated_at == now
                &&& row.favorites_count == 0
                &&& is_article_view(v, row, author_of(old(s).users@, row), false, false)
            },
            Err(e) => {
                &&& *final(s) == *old(s)
                &&& match e {
                    AppError::ValidationFailed(InvalidField::Title) => new_article.title@.len()
                        == 0,
                    AppError::NotFound => new_article.title@.len() > 0 && !user_exists(
                        old(s).users@,
                        author,
                    ),
                    AppError::Conflict(ConflictField::Slug) => new_article.title@.len() > 0
                        && user_exists(old(s).users@, author) && article_slugged(
                        old(s).articles@,
                        slug_of(new_article.title@),
                    ) is Some,
                    _ => false,
                }
            },
        },
{
    if new_article.title.as_str().is_empty() {
        return Err(AppError::ValidationFailed(InvalidField::Title));
    }
    proof {
        lemma_slug_of_wf(new_article.title@);
    }
    let slug = slugify(new_article.title.as_str());
    let form = ArticleForm {
        slug,
        title: new_article.title.clone(),
        description: new_article.description.clone(),
        body: new_article.body.clone(),
        tag_list: match &new_article.tag_list {
            Some(tl) => dup_string_vec(tl),
            None => Vec::new(),
        },
        author,
    };
    create(s, &form, now)
}

/// The distinct tags of all articles, wrapped for the caller; the
/// contents are as `tag_list` states them.
pub fn tags(s: &Store) -> (r: TagsResult)
    ensures
        forall|k: int, l: int|
            0 <= k < l < r.tags@.len() ==> (#[trigger] r.tags@[k])@ != (#[trigger] r.tags@[l])@,
        forall|k: int| 0 <= k < r.tags@.len() ==> tag_in_store(s.articles@, (#[trigger] r.tags@[k])@),
        forall|i: int, ti: int|
            #![trigger s.articles@[i].tag_list@[ti]]
            0 <= i < s.articles@.len() && 0 <= ti < s.articles@[i].tag_list@.len() ==> tag_listed(
                r.tags@,
                s.articles@[i].tag_list@[ti]@,
            ),
{
    TagsResult { tags: tag_list(s) }
}

/// The slug an update will store: derived afresh from a set title,
/// otherwise the explicitly set one, otherwise none.
pub open spec fn derived_slug(d: ArticleUpdateData) -> Option<Seq<char>> {
    match d.title {
        Some(t) => Some(slug_of(t@)),
        None => opt_view(d.slug),
    }
}

/// Patches the article with the given slug, deriving a fresh slug from a
/// set title; otherwise as `update`.
pub fn update_article(s: &mut Store, slug: &str, user_id: i32, article: &ArticleUpdateData) -> (r:
    Result<Article, AppError>)
    requires
        old(s).wf(),
    ensures
        final(s).wf(),
        final(s).users@ == old(s).users@,
        final(s).comments@ == old(s).comments@,
        final(s).follows@ == old(s).follows@,
        final(s).favorites@ == old(s).favorites@,
        final(s).next_user_id == old(s).next_user_id,
        final(s).next_article_id == old(s).next_article_id,
        final(s).next_comment_id == old(s).next_comment_id,
        match r {
            Ok(v) => {
                let j = article_slugged(old(s).articles@, slug@).unwrap();
                &&& owned_by(old(s).articles@, slug@, user_id)
                &&& no_slug_clash(old(s).articles@, j, derived_slug(*article))
                &&& final(s).articles@.len() == old(s).articles@.len()
                &&& forall|k: int|
                    0 <= k < old(s).articles@.len() && k != j ==> final(s).articles@[k] == old(
                        s,
                    ).articles@[k]
                &&& article_patched(
                    final(s).articles@[j],
                    old(s).articles@[j],
                    derived_slug(*article),
                    opt_view(article.title),
                    opt_view(article.description),
                    opt_view(article.body),
                )
                &&& article.title is Some ==> slug_wf(final(s).articles@[j].slug@)
                &&& is_article_view(
                    v,
                    final(s).articles@[j],
                    author_of(old(s).users@, old(s).articles@[j]),
                    false,
                    false,
                )
            },
            Err(e) => {
                &&& *final(s) == *old(s)
                &&& match e {
                    AppError::NotFound => !owned_by(old(s).articles@, slug@, user_id),
                    AppError::Conflict(ConflictField::Slug) => {
                        let j = article_slugged(old(s).articles@, slug@).unwrap();
                        owned_by(old(s).articles@, slug@, user_id) && !no_slug_clash(
                            old(s).articles@,
                            j,
                            derived_slug(*article),
                        )
                    },
                    _ => false,
                }
            },
        },
{
    proof {
        if article.title is Some {
            lemma_slug_of_wf(article.title.unwrap()@);
        }
    }
    let data = ArticleUpdateData {
        slug: match &article.title {
            Some(t) => Some(slugify(t.as_str())),
            None => dup_opt_string(&article.slug),
        },
        title: dup_opt_string(&article.title),
        description: dup_opt_string(&article.description),
        body: dup_opt_string(&article.body),
    };
    update(s, slug, user_id, &data)
}

} // verus!
