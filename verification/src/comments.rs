//! Comments: creation, viewer-relative listing and guarded deletion.
//!
//! A comment view carries its author's profile with `following` computed
//! relative to the requesting viewer. Deleting a comment is authorized for
//! the author of the *article* it belongs to; any mismatch — missing
//! article, missing comment, a comment under another article, or a
//! non-owner — is reported as the same `NotFound`.

use vstd::prelude::*;

use crate::articles::author_index;
use crate::errors::AppError;
use crate::profiles::{following_for, is_profile_of, Profile};
use crate::store::{
    article_slugged, comment_by_id, lemma_user_by_id_props, user_by_id, user_exists, CommentData,
    Store, User,
};

verus! {

/// The viewer-relative projection of a comment.
#[derive(Debug)]
pub struct Comment {
    pub id: i32,
    pub body: String,
    pub created_at: i64,
    pub updated_at: i64,
    pub author: Profile,
}

/// A list of comment views.
#[derive(Debug)]
pub struct Comments {
    pub comments: Vec<Comment>,
}

/// A comment view wrapped for the caller.
pub struct CommentResult {
    pub comment: Comment,
}

impl CommentResult {
    pub fn new(comment: Comment) -> (r: CommentResult)
        ensures
            r.comment == comment,
    {
        CommentResult { comment }
    }
}

/// A new comment as the caller hands it in.
pub struct NewComment {
    pub comment: NewCommentData,
}

/// The fields of a new comment.
pub struct NewCommentData {
    pub body: String,
}

/// `v` is the view of row `c` whose author row is `u`, as seen by a
/// viewer for whom `following` holds.
pub open spec fn is_comment_view(v: Comment, c: CommentData, u: User, following: bool) -> bool {
    &&& v.id == c.id
    &&& v.body@ == c.body@
    &&& v.created_at == c.created_at
    &&& v.updated_at == c.updated_at
    &&& is_profile_of(v.author, u, following)
}

impl Comment {
    /// Assembles the view of a comment row with the given author profile.
    pub fn build(c: &CommentData, user: Profile) -> (v: Comment)
        ensures
            v.id == c.id,
            v.body@ == c.body@,
            v.created_at == c.created_at,
            v.updated_at == c.updated_at,
            v.author == user,
    {
        Comment {
            id: c.id,
            body: c.body.clone(),
            created_at: c.created_at,
            updated_at: c.updated_at,
            author: user,
        }
    }
}

/// The indices of the comments under the article with id `aid`, in stored
/// order.
pub open spec fn comments_of_from(comments: Seq<CommentData>, aid: i32, i: int) -> Seq<int>
    decreases comments.len() - i,
{
    if i < 0 || i >= comments.len() {
        Seq::empty()
    } else if comments[i].article == aid {
        seq![i] + comments_of_from(comments, aid, i + 1)
    } else {
        comments_of_from(comments, aid, i + 1)
    }
}

pub open spec fn comments_of(comments: Seq<CommentData>, aid: i32) -> Seq<int> {
    comments_of_from(comments, aid, 0)
}

pub open spec fn idx_view(v: Seq<usize>) -> Seq<int> {
    v.map_values(|x: usize| x as int)
}

proof fn lemma_idx_view_push(v: Seq<usize>, x: usize)
    ensures
        idx_view(v.push(x)) == idx_view(v).push(x as int),
{
    assert(idx_view(v.push(x)) =~= idx_view(v).push(x as int));
}

/// Adds a comment by `user` under the article with the given slug, with
/// both timestamps at `now` and a fresh id.
///
/// Returns `NotFound` exactly when the article's slug or the commenting
/// user's id is unknown, leaving the store untouched.
pub fn add_comment(s: &mut Store, user: i32, slug: &str, body: &str, now: i64) -> (r: Result<
    Comment,
    AppError,
>)
    requires
        old(s).wf(),
        old(s).next_comment_id < i32::MAX,
    ensures
        final(s).wf(),
        final(s).users@ == old(s).users@,
        final(s).articles@ == old(s).articles@,
        final(s).follows@ == old(s).follows@,
        final(s).favorites@ == old(s).favorites@,
        final(s).next_user_id == old(s).next_user_id,
        final(s).next_article_id == old(s).next_article_id,
        match r {
            Ok(v) => {
                let j = article_slugged(old(s).articles@, slug@).unwrap();
                let row = final(s).comments@.last();
                &&& article_slugged(old(s).articles@, slug@) is Some
                &&& user_by_id(old(s).users@, user) is Some
                &&& final(s).comments@ == old(s).comments@.push(row)
                &&& final(s).next_comment_id == old(s).next_comment_id + 1
                &&& row.id == old(s).next_comment_id
                &&& row.body@ == body@
                &&& row.article == old(s).articles@[j].id
                &&& row.author == user
                &&& row.created_at == now
                &&& row.updated_at == now
                &&& is_comment_view(
                    v,
                    row,
                    old(s).users@[user_by_id(old(s).users@, user).unwrap()],
                    false,
                )
            },
            Err(e) => {
                &&& e == AppError::NotFound
                &&& article_slugged(old(s).articles@, slug@) is None || user_by_id(
                    old(s).users@,
                    user,
                ) is None
                &&& *final(s) == *old(s)
            },
        },
{
    let j = match s.find_article_by_slug(slug) {
        Some(j) => j,
        None => {
            return Err(AppError::NotFound);
        },
    };
    let k = match s.find_user_by_id(user) {
        Some(k) => k,
        None => {
            return Err(AppError::NotFound);
        },
    };
    let row = CommentData {
        id: s.next_comment_id,
        body: body.to_owned(),
        article: s.articles[j].id,
        author: user,
        created_at: now,
        updated_at: now,
    };
    let v = Comment::build(&row, s.users[k].to_profile(false));
    let ghost prev = *s;
    s.comments.push(row);
    s.next_comment_id = s.next_comment_id + 1;
    proof {
        assert forall|a: int, b: int|
            #![trigger s.comments@[a], s.comments@[b]]
            0 <= a < b < s.comments@.len() implies s.comments@[a].id != s.comments@[b].id by {
            if b < prev.comments@.len() {
                assert(s.comments@[a] == prev.comments@[a]);
                assert(s.comments@[b] == prev.comments@[b]);
            } else {
                assert(s.comments@[a] == prev.comments@[a]);
            }
        }
        assert forall|i: int| 0 <= i < s.comments@.len() implies 0 <= (
        #[trigger] s.comments@[i]).id < s.next_comment_id && user_exists(
            s.users@,
            s.comments@[i].author,
        ) by {
            if i < prev.comments@.len() {
                assert(s.comments@[i] == prev.comments@[i]);
            } else {
                lemma_user_by_id_props(s.users@, user, 0);
                assert(s.users@[k as int].id == user);
            }
        }
    }
    Ok(v)
}

/// The comments under the article with the given slug, as seen by
/// `user_id`: each author profile carries `following` relative to the
/// viewer, `false` for an anonymous one.
///
/// Returns `NotFound` exactly when no article carries the slug.
#[verifier::loop_isolation(false)]
pub fn get_comments(s: &Store, user_id: Option<i32>, slug: &str) -> (r: Result<Comments, AppError>)
    requires
        s.wf(),
    ensures
        match r {
            Ok(res) => {
                let j = article_slugged(s.articles@, slug@).unwrap();
                let sel = comments_of(s.comments@, s.articles@[j].id);
                &&& article_slugged(s.articles@, slug@) is Some
                &&& res.comments@.len() == sel.len()
                &&& forall|m: int|
                    0 <= m < sel.len() ==> is_comment_view(
                        #[trigger] res.comments@[m],
                        s.comments@[sel[m]],
                        s.users@[user_by_id(s.users@, s.comments@[sel[m]].author).unwrap()],
                        following_for(s.follows@, user_id, s.comments@[sel[m]].author),
                    )
            },
            Err(e) => e == AppError::NotFound && article_slugged(s.articles@, slug@) is None,
        },
{
    let j = match s.find_article_by_slug(slug) {
        Some(j) => j,
        None => {
            return Err(AppError::NotFound);
        },
    };
    let aid = s.articles[j].id;
    let ghost all = comments_of(s.comments@, aid);
    let n = s.comments.len();
    let mut out: Vec<Comment> = Vec::new();
    let mut picked: Vec<usize> = Vec::new();
    let mut i: usize = 0;
    while i < n
        invariant
            i <= n,
            idx_view(picked@) + comments_of_from(s.comments@, aid, i as int) == all,
            out@.len() == picked@.len(),
            forall|m: int| 0 <= m < picked@.len() ==> #[trigger] picked@[m] < n,
            forall|m: int|
                0 <= m < picked@.len() ==> is_comment_view(
                    #[trigger] out@[m],
                    s.comments@[picked@[m] as int],
                    s.users@[user_by_id(s.users@, s.comments@[picked@[m] as int].author).unwrap()],
                    following_for(s.follows@, user_id, s.comments@[picked@[m] as int].author),
                ),
        decreases n - i,
    {
        let ghost before = picked@;
        if s.comments[i].article == aid {
            proof {
                assert(user_exists(s.users@, s.comments@[i as int].author));
            }
            let k = author_index(s, s.comments[i].author);
            let following = match user_id {
                Some(v) => s.find_follow(v, s.comments[i].author).is_some(),
                None => false,
            };
            out.push(Comment::build(&s.comments[i], s.users[k].to_profile(following)));
            picked.push(i);
            proof {
                lemma_idx_view_push(before, i);
                assert(idx_view(picked@) + comments_of_from(s.comments@, aid, i + 1) =~= all);
            }
        }
        i = i + 1;
    }
    proof {
        assert(idx_view(picked@) == all);
    }
    Ok(Comments { comments: out })
}

/// Deleting this comment under this slug is authorized for `user_id`: the
/// article exists and is owned by `user_id`, and the comment exists under
/// that article.
pub open spec fn may_delete_comment(
    articles: Seq<crate::store::ArticleData>,
    comments: Seq<CommentData>,
    user_id: i32,
    slug: Seq<char>,
    comment_id: i32,
) -> bool {
    match article_slugged(articles, slug) {
        Some(j) => match comment_by_id(comments, comment_id) {
            Some(c) => articles[j].author == user_id && comments[c].article == articles[j].id,
            None => false,
        },
        None => false,
    }
}

/// Deletes a comment, authorized for the author of the article it stands
/// under.
///
/// A missing article, a missing comment, a comment under a different
/// article and an ownership mismatch all yield the same `NotFound` and
/// leave the store untouched.
pub fn delete_comment(s: &mut Store, user_id: i32, slug: &str, comment_id: i32) -> (r: Result<
    (),
    AppError,
>)
    requires
        old(s).wf(),
    ensures
        final(s).wf(),
        final(s).users@ == old(s).users@,
        final(s).articles@ == old(s).articles@,
        final(s).follows@ == old(s).follows@,
        final(s).favorites@ == old(s).favorites@,
        final(s).next_user_id == old(s).next_user_id,
        final(s).next_article_id == old(s).next_article_id,
        final(s).next_comment_id == old(s).next_comment_id,
        match r {
            Ok(_) => {
                let c = comment_by_id(old(s).comments@, comment_id).unwrap();
                &&& may_delete_comment(
                    old(s).articles@,
                    old(s).comments@,
                    user_id,
                    slug@,
                    comment_id,
                )
                &&& final(s).comments@ == old(s).comments@.remove(c)
            },
            Err(e) => {
                &&& e == AppError::NotFound
                &&& !may_delete_comment(
                    old(s).articles@,
                    old(s).comments@,
                    user_id,
                    slug@,
                    comment_id,
                )
                &&& *final(s) == *old(s)
            },
        },
{
    let j = match s.find_article_by_slug(slug) {
        Some(j) => j,
        None => {
            return Err(AppError::NotFound);
        },
    };
    let c = match s.find_comment_by_id(comment_id) {
        Some(c) => c,
        None => {
            return Err(AppError::NotFound);
        },
    };
    if s.articles[j].author != user_id {
        return Err(AppError::NotFound);
    }
    if s.comments[c].article != s.articles[j].id {
        return Err(AppError::NotFound);
    }
    let ghost prev = *s;
    let _removed = s.comments.remove(c);
    proof {
        prev.comments@.remove_ensures(c as int);
        assert forall|a: int, b: int|
            #![trigger s.comments@[a], s.comments@[b]]
            0 <= a < b < s.comments@.len() implies s.comments@[a].id != s.comments@[b].id by {
            let a0 = if a < c as int { a } else { a + 1 };
            let b0 = if b < c as int { b } else { b + 1 };
            assert(s.comments@[a] == prev.comments@[a0]);
            assert(s.comments@[b] == prev.comments@[b0]);
        }
        assert forall|i: int| 0 <= i < s.comments@.len() implies 0 <= (
        #[trigger] s.comments@[i]).id < s.next_comment_id && user_exists(
            s.users@,
            s.comments@[i].author,
        ) by {
            let i0 = if i < c as int { i } else { i + 1 };
            assert(s.comments@[i] == prev.comments@[i0]);
        }
    }
    Ok(())
}

} // verus!
