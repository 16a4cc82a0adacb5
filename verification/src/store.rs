//! The in-memory relational store.
//!
//! Five relations back the core: users, articles, comments, follow edges and
//! favorite edges. `Store::wf` is the store invariant: keys are unique, ids
//! stay below their allocation counters, every article and comment author
//! exists, and each article's denormalized `favorites_count` equals the
//! number of favorite edges that reference it. Every mutator of the crate
//! preserves `wf`.

use vstd::prelude::*;

verus! {

/// A stored user. `token` is only ever filled in values handed back to the
/// caller; stored rows keep it empty.
#[derive(Debug)]
pub struct User {
    pub id: i32,
    pub username: String,
    pub email: String,
    pub bio: Option<String>,
    pub image: Option<String>,
    pub password: String,
    pub token: String,
}

/// A stored article. `favorites_count` is the denormalized counter that the
/// store invariant ties to the favorite edges.
pub struct ArticleData {
    pub id: i32,
    pub slug: String,
    pub title: String,
    pub description: String,
    pub body: String,
    pub author: i32,
    pub tag_list: Vec<String>,
    pub created_at: i64,
    pub updated_at: i64,
    pub favorites_count: usize,
}

/// A stored comment.
pub struct CommentData {
    pub id: i32,
    pub body: String,
    pub article: i32,
    pub author: i32,
    pub created_at: i64,
    pub updated_at: i64,
}

/// A follow relationship: its existence is the entire payload.
#[derive(Clone, Copy, PartialEq, Eq, Structural, Debug)]
pub struct FollowEdge {
    pub follower: i32,
    pub followed: i32,
}

/// A favorite relationship: its existence is the entire payload.
#[derive(Clone, Copy, PartialEq, Eq, Structural, Debug)]
pub struct FavoriteEdge {
    pub user: i32,
    pub article: i32,
}

/// The relational store.
pub struct Store {
    pub users: Vec<User>,
    pub articles: Vec<ArticleData>,
    pub comments: Vec<CommentData>,
    pub follows: Vec<FollowEdge>,
    pub favorites: Vec<FavoriteEdge>,
    pub next_user_id: i32,
    pub next_article_id: i32,
    pub next_comment_id: i32,
}

// ---------------------------------------------------------------------------
// First-match lookups, as recursive specifications.
// ---------------------------------------------------------------------------

pub open spec fn user_named_from(users: Seq<User>, name: Seq<char>, i: int) -> Option<int>
    decreases users.len() - i,
{
    if i < 0 || i >= users.len() {
        None
    } else if users[i].username@ == name {
        Some(i)
    } else {
        user_named_from(users, name, i + 1)
    }
}

/// The index of the user with the given username, if any.
pub open spec fn user_named(users: Seq<User>, name: Seq<char>) -> Option<int> {
    user_named_from(users, name, 0)
}

pub open spec fn user_mailed_from(users: Seq<User>, email: Seq<char>, i: int) -> Option<int>
    decreases users.len() - i,
{
    if i < 0 || i >= users.len() {
        None
    } else if users[i].email@ == email {
        Some(i)
    } else {
        user_mailed_from(users, email, i + 1)
    }
}

/// The index of the user with the given email, if any.
pub open spec fn user_mailed(users: Seq<User>, email: Seq<char>) -> Option<int> {
    user_mailed_from(users, email, 0)
}

pub open spec fn user_by_id_from(users: Seq<User>, id: i32, i: int) -> Option<int>
    decreases users.len() - i,
{
    if i < 0 || i >= users.len() {
        None
    } else if users[i].id == id {
        Some(i)
    } else {
        user_by_id_from(users, id, i + 1)
    }
}

/// The index of the user with the given id, if any.
pub open spec fn user_by_id(users: Seq<User>, id: i32) -> Option<int> {
    user_by_id_from(users, id, 0)
}

pub open spec fn article_slugged_from(articles: Seq<ArticleData>, slug: Seq<char>, i: int) -> Option<
    int,
>
    decreases articles.len() - i,
{
    if i < 0 || i >= articles.len() {
        None
    } else if articles[i].slug@ == slug {
        Some(i)
    } else {
        article_slugged_from(articles, slug, i + 1)
    }
}

/// The index of the article with the given slug, if any.
pub open spec fn article_slugged(articles: Seq<ArticleData>, slug: Seq<char>) -> Option<int> {
    article_slugged_from(articles, slug, 0)
}

pub open spec fn comment_by_id_from(comments: Seq<CommentData>, id: i32, i: int) -> Option<int>
    decreases comments.len() - i,
{
    if i < 0 || i >= comments.len() {
        None
    } else if comments[i].id == id {
        Some(i)
    } else {
        comment_by_id_from(comments, id, i + 1)
    }
}

/// The index of the comment with the given id, if any.
pub open spec fn comment_by_id(comments: Seq<CommentData>, id: i32) -> Option<int> {
    comment_by_id_from(comments, id, 0)
}

pub open spec fn follow_at_from(follows: Seq<FollowEdge>, follower: i32, followed: i32, i: int) -> Option<
    int,
>
    decreases follows.len() - i,
{
    if i < 0 || i >= follows.len() {
        None
    } else if follows[i].follower == follower && follows[i].followed == followed {
        Some(i)
    } else {
        follow_at_from(follows, follower, followed, i + 1)
    }
}

/// The index of the follow edge `(follower, followed)`, if any.
pub open spec fn follow_at(follows: Seq<FollowEdge>, follower: i32, followed: i32) -> Option<int> {
    follow_at_from(follows, follower, followed, 0)
}

/// Whether `follower` follows `followed`.
pub open spec fn is_following(follows: Seq<FollowEdge>, follower: i32, followed: i32) -> bool {
    follow_at(follows, follower, followed) is Some
}

pub open spec fn favorite_at_from(favorites: Seq<FavoriteEdge>, user: i32, article: i32, i: int) -> Option<
    int,
>
    decreases favorites.len() - i,
{
    if i < 0 || i >= favorites.len() {
        None
    } else if favorites[i].user == user && favorites[i].article == article {
        Some(i)
    } else {
        favorite_at_from(favorites, user, article, i + 1)
    }
}

/// The index of the favorite edge `(user, article)`, if any.
pub open spec fn favorite_at(favorites: Seq<FavoriteEdge>, user: i32, article: i32) -> Option<int> {
    favorite_at_from(favorites, user, article, 0)
}

/// Whether `user` has favorited the article with id `article`.
pub open spec fn has_favorited(favorites: Seq<FavoriteEdge>, user: i32, article: i32) -> bool {
    favorite_at(favorites, user, article) is Some
}

pub open spec fn count_favs_from(favorites: Seq<FavoriteEdge>, article: i32, i: int) -> nat
    decreases favorites.len() - i,
{
    if i < 0 || i >= favorites.len() {
        0
    } else {
        (if favorites[i].article == article {
            1nat
        } else {
            0nat
        }) + count_favs_from(favorites, article, i + 1)
    }
}

/// How many favorite edges reference the article with id `article`.
pub open spec fn count_favs(favorites: Seq<FavoriteEdge>, article: i32) -> nat {
    count_favs_from(favorites, article, 0)
}

// ---------------------------------------------------------------------------
// The store invariant.
// ---------------------------------------------------------------------------

pub open spec fn users_wf(users: Seq<User>, next_user_id: i32) -> bool {
    &&& 0 <= next_user_id
    &&& forall|i: int, j: int|
        #![trigger users[i], users[j]]
        0 <= i < j < users.len() ==> users[i].id != users[j].id && users[i].username@
            != users[j].username@ && users[i].email@ != users[j].email@
    &&& forall|i: int| 0 <= i < users.len() ==> 0 <= (#[trigger] users[i]).id < next_user_id
}

/// Some user carries the given id.
pub open spec fn user_exists(users: Seq<User>, id: i32) -> bool {
    exists|k: int| 0 <= k < users.len() && (#[trigger] users[k]).id == id
}

pub open spec fn articles_wf(
    articles: Seq<ArticleData>,
    users: Seq<User>,
    favorites: Seq<FavoriteEdge>,
    next_article_id: i32,
) -> bool {
    &&& 0 <= next_article_id
    &&& forall|i: int, j: int|
        #![trigger articles[i], articles[j]]
        0 <= i < j < articles.len() ==> articles[i].id != articles[j].id && articles[i].slug@
            != articles[j].slug@
    &&& forall|i: int|
        0 <= i < articles.len() ==> 0 <= (#[trigger] articles[i]).id < next_article_id
    &&& forall|i: int| 0 <= i < articles.len() ==> user_exists(users, (#[trigger] articles[i]).author)
    &&& forall|i: int|
        0 <= i < articles.len() ==> (#[trigger] articles[i]).favorites_count == count_favs(
            favorites,
            articles[i].id,
        )
}

pub open spec fn comments_wf(
    comments: Seq<CommentData>,
    users: Seq<User>,
    next_comment_id: i32,
) -> bool {
    &&& 0 <= next_comment_id
    &&& forall|i: int, j: int|
        #![trigger comments[i], comments[j]]
        0 <= i < j < comments.len() ==> comments[i].id != comments[j].id
    &&& forall|i: int|
        0 <= i < comments.len() ==> 0 <= (#[trigger] comments[i]).id < next_comment_id
    &&& forall|i: int| 0 <= i < comments.len() ==> user_exists(users, (#[trigger] comments[i]).author)
}

pub open spec fn follows_wf(follows: Seq<FollowEdge>) -> bool {
    forall|i: int, j: int|
        #![trigger follows[i], follows[j]]
        0 <= i < j < follows.len() ==> follows[i] != follows[j]
}

pub open spec fn favorites_wf(favorites: Seq<FavoriteEdge>, next_article_id: i32) -> bool {
    &&& forall|i: int, j: int|
        #![trigger favorites[i], favorites[j]]
        0 <= i < j < favorites.len() ==> favorites[i] != favorites[j]
    &&& forall|i: int|
        0 <= i < favorites.len() ==> 0 <= (#[trigger] favorites[i]).article < next_article_id
}

impl Store {
    /// The store invariant. Every operation of the crate takes a well-formed
    /// store to a well-formed store.
    pub open spec fn wf(self) -> bool {
        &&& users_wf(self.users@, self.next_user_id)
        &&& articles_wf(self.articles@, self.users@, self.favorites@, self.next_article_id)
        &&& comments_wf(self.comments@, self.users@, self.next_comment_id)
        &&& follows_wf(self.follows@)
        &&& favorites_wf(self.favorites@, self.next_article_id)
    }

    /// An empty store, trivially well formed, with all id counters at 0.
    pub fn new() -> (s: Store)
        ensures
            s.wf(),
            s.users@.len() == 0,
            s.articles@.len() == 0,
            s.comments@.len() == 0,
            s.follows@.len() == 0,
            s.favorites@.len() == 0,
            s.next_user_id == 0,
            s.next_article_id == 0,
            s.next_comment_id == 0,
    {
        Store {
            users: Vec::new(),
            articles: Vec::new(),
            comments: Vec::new(),
            follows: Vec::new(),
            favorites: Vec::new(),
            next_user_id: 0,
            next_article_id: 0,
            next_comment_id: 0,
        }
    }
}

// ---------------------------------------------------------------------------
// Small trusted helpers over std.
// ---------------------------------------------------------------------------

/// Whether two string slices hold the same characters.
pub(crate) fn str_eq(a: &str, b: &str) -> (r: bool)
    ensures
        r == (a@ == b@),
{
    let n = a.unicode_len();
    let m = b.unicode_len();
    if n != m {
        return false;
    }
    let mut i: usize = 0;
    while i < n
        invariant
            n == a@.len(),
            n == b@.len(),
            i <= n,
            forall|k: int| 0 <= k < i ==> a@[k] == b@[k],
        decreases n - i,
    {
        if a.get_char(i) != b.get_char(i) {
            return false;
        }
        i = i + 1;
    }
    proof {
        assert(a@ =~= b@);
    }
    true
}

/// A copy of an optional string, equal to the original.
pub(crate) fn dup_opt_string(o: &Option<String>) -> (r: Option<String>)
    ensures
        r == *o,
{
    match o {
        Some(s) => Some(s.clone()),
        None => None,
    }
}

/// A copy of a string vector with the same elements.
pub(crate) fn dup_string_vec(v: &Vec<String>) -> (r: Vec<String>)
    ensures
        r@ == v@,
{
    let r = v.clone();
    proof {
        assert forall|i: int| 0 <= i < v@.len() implies r@[i] == v@[i] by {
            assert(cloned::<String>(v@[i], r@[i]));
        }
        assert(r@ =~= v@);
    }
    r
}

// ---------------------------------------------------------------------------
// Executable finders.
// ---------------------------------------------------------------------------

impl Store {
    pub fn find_user_by_name(&self, name: &str) -> (r: Option<usize>)
        ensures
            match r {
                Some(k) => k < self.users@.len() && user_named(self.users@, name@) == Some(k as int),
                None => user_named(self.users@, name@) is None,
            },
    {
        let n = self.users.len();
        let mut i: usize = 0;
        while i < n
            invariant
                n == self.users@.len(),
                i <= n,
                user_named(self.users@, name@) == user_named_from(self.users@, name@, i as int),
            decreases n - i,
        {
            if str_eq(self.users[i].username.as_str(), name) {
                return Some(i);
            }
            i = i + 1;
        }
        None
    }

    pub fn find_user_by_email(&self, email: &str) -> (r: Option<usize>)
        ensures
            match r {
                Some(k) => k < self.users@.len() && user_mailed(self.users@, email@) == Some(
                    k as int,
                ),
                None => user_mailed(self.users@, email@) is None,
            },
    {
        let n = self.users.len();
        let mut i: usize = 0;
        while i < n
            invariant
                n == self.users@.len(),
                i <= n,
                user_mailed(self.users@, email@) == user_mailed_from(self.users@, email@, i as int),
            decreases n - i,
        {
            if str_eq(self.users[i].email.as_str(), email) {
                return Some(i);
            }
            i = i + 1;
        }
        None
    }

    pub fn find_user_by_id(&self, id: i32) -> (r: Option<usize>)
        ensures
            match r {
                Some(k) => k < self.users@.len() && user_by_id(self.users@, id) == Some(k as int),
                None => user_by_id(self.users@, id) is None,
            },
    {
        let n = self.users.len();
        let mut i: usize = 0;
        while i < n
            invariant
                n == self.users@.len(),
                i <= n,
                user_by_id(self.users@, id) == user_by_id_from(self.users@, id, i as int),
            decreases n - i,
        {
            if self.users[i].id == id {
                return Some(i);
            }
            i = i + 1;
        }
        None
    }

    pub fn find_article_by_slug(&self, slug: &str) -> (r: Option<usize>)
        ensures
            match r {
                Some(k) => k < self.articles@.len() && article_slugged(self.articles@, slug@)
                    == Some(k as int),
                None => article_slugged(self.articles@, slug@) is None,
            },
    {
        let n = self.articles.len();
        let mut i: usize = 0;
        while i < n
            invariant
                n == self.articles@.len(),
                i <= n,
                article_slugged(self.articles@, slug@) == article_slugged_from(
                    self.articles@,
                    slug@,
                    i as int,
                ),
            decreases n - i,
        {
            if str_eq(self.articles[i].slug.as_str(), slug) {
                return Some(i);
            }
            i = i + 1;
        }
        None
    }

    pub fn find_comment_by_id(&self, id: i32) -> (r: Option<usize>)
        ensures
            match r {
                Some(k) => k < self.comments@.len() && comment_by_id(self.comments@, id) == Some(
                    k as int,
                ),
                None => comment_by_id(self.comments@, id) is None,
            },
    {
        let n = self.comments.len();
        let mut i: usize = 0;
        while i < n
            invariant
                n == self.comments@.len(),
                i <= n,
                comment_by_id(self.comments@, id) == comment_by_id_from(self.comments@, id, i as int),
            decreases n - i,
        {
            if self.comments[i].id == id {
                return Some(i);
            }
            i = i + 1;
        }
        None
    }

    pub fn find_follow(&self, follower: i32, followed: i32) -> (r: Option<usize>)
        ensures
            match r {
                Some(k) => k < self.follows@.len() && follow_at(self.follows@, follower, followed)
                    == Some(k as int),
                None => follow_at(self.follows@, follower, followed) is None,
            },
    {
        let n = self.follows.len();
        let mut i: usize = 0;
        while i < n
            invariant
                n == self.follows@.len(),
                i <= n,
                follow_at(self.follows@, follower, followed) == follow_at_from(
                    self.follows@,
                    follower,
                    followed,
                    i as int,
                ),
            decreases n - i,
        {
            if self.follows[i].follower == follower && self.follows[i].followed == followed {
                return Some(i);
            }
            i = i + 1;
        }
        None
    }

    pub fn find_favorite(&self, user: i32, article: i32) -> (r: Option<usize>)
        ensures
            match r {
                Some(k) => k < self.favorites@.len() && favorite_at(self.favorites@, user, article)
                    == Some(k as int),
                None => favorite_at(self.favorites@, user, article) is None,
            },
    {
        let n = self.favorites.len();
        let mut i: usize = 0;
        while i < n
            invariant
                n == self.favorites@.len(),
                i <= n,
                favorite_at(self.favorites@, user, article) == favorite_at_from(
                    self.favorites@,
                    user,
                    article,
                    i as int,
                ),
            decreases n - i,
        {
            if self.favorites[i].user == user && self.favorites[i].article == article {
                return Some(i);
            }
            i = i + 1;
        }
        None
    }
}

// ---------------------------------------------------------------------------
// Lemmas about the lookups and the favorite count.
// ---------------------------------------------------------------------------

/// What a `Some`/`None` result of `user_named` says about the sequence.
pub proof fn lemma_user_named_props(users: Seq<User>, name: Seq<char>, i: int)
    requires
        0 <= i <= users.len(),
    ensures
        match user_named_from(users, name, i) {
            Some(j) => i <= j < users.len() && users[j].username@ == name,
            None => forall|k: int| i <= k < users.len() ==> (#[trigger] users[k]).username@ != name,
        },
    decreases users.len() - i,
{
    if i < users.len() {
        lemma_user_named_props(users, name, i + 1);
    }
}

pub proof fn lemma_user_mailed_props(users: Seq<User>, email: Seq<char>, i: int)
    requires
        0 <= i <= users.len(),
    ensures
        match user_mailed_from(users, email, i) {
            Some(j) => i <= j < users.len() && users[j].email@ == email,
            None => forall|k: int| i <= k < users.len() ==> (#[trigger] users[k]).email@ != email,
        },
    decreases users.len() - i,
{
    if i < users.len() {
        lemma_user_mailed_props(users, email, i + 1);
    }
}

pub proof fn lemma_user_by_id_props(users: Seq<User>, id: i32, i: int)
    requires
        0 <= i <= users.len(),
    ensures
        match user_by_id_from(users, id, i) {
            Some(j) => i <= j < users.len() && users[j].id == id,
            None => forall|k: int| i <= k < users.len() ==> (#[trigger] users[k]).id != id,
        },
    decreases users.len() - i,
{
    if i < users.len() {
        lemma_user_by_id_props(users, id, i + 1);
    }
}

pub proof fn lemma_article_slugged_props(articles: Seq<ArticleData>, slug: Seq<char>, i: int)
    requires
        0 <= i <= articles.len(),
    ensures
        match article_slugged_from(articles, slug, i) {
            Some(j) => i <= j < articles.len() && articles[j].slug@ == slug,
            None => forall|k: int|
                i <= k < articles.len() ==> (#[trigger] articles[k]).slug@ != slug,
        },
    decreases articles.len() - i,
{
    if i < articles.len() {
        lemma_article_slugged_props(articles, slug, i + 1);
    }
}

pub proof fn lemma_comment_by_id_props(comments: Seq<CommentData>, id: i32, i: int)
    requires
        0 <= i <= comments.len(),
    ensures
        match comment_by_id_from(comments, id, i) {
            Some(j) => i <= j < comments.len() && comments[j].id == id,
            None => forall|k: int| i <= k < comments.len() ==> (#[trigger] comments[k]).id != id,
        },
    decreases comments.len() - i,
{
    if i < comments.len() {
        lemma_comment_by_id_props(comments, id, i + 1);
    }
}

pub proof fn lemma_follow_at_props(follows: Seq<FollowEdge>, follower: i32, followed: i32, i: int)
    requires
        0 <= i <= follows.len(),
    ensures
        match follow_at_from(follows, follower, followed, i) {
            Some(j) => i <= j < follows.len() && follows[j] == (FollowEdge { follower, followed }),
            None => forall|k: int|
                i <= k < follows.len() ==> !((#[trigger] follows[k]).follower == follower
                    && follows[k].followed == followed),
        },
    decreases follows.len() - i,
{
    if i < follows.len() {
        lemma_follow_at_props(follows, follower, followed, i + 1);
    }
}

pub proof fn lemma_favorite_at_props(
    favorites: Seq<FavoriteEdge>,
    user: i32,
    article: i32,
    i: int,
)
    requires
        0 <= i <= favorites.len(),
    ensures
        match favorite_at_from(favorites, user, article, i) {
            Some(j) => i <= j < favorites.len() && favorites[j] == (FavoriteEdge { user, article }),
            None => forall|k: int|
                i <= k < favorites.len() ==> !((#[trigger] favorites[k]).user == user
                    && favorites[k].article == article),
        },
    decreases favorites.len() - i,
{
    if i < favorites.len() {
        lemma_favorite_at_props(favorites, user, article, i + 1);
    }
}

/// Appending an edge raises the count of its article by one and leaves every
/// other count unchanged.
pub proof fn lemma_count_favs_push(
    favorites: Seq<FavoriteEdge>,
    e: FavoriteEdge,
    article: i32,
    i: int,
)
    requires
        0 <= i <= favorites.len(),
    ensures
        count_favs_from(favorites.push(e), article, i) == count_favs_from(favorites, article, i) + (
        if e.article == article {
            1nat
        } else {
            0nat
        }),
    decreases favorites.len() - i,
{
    if i < favorites.len() {
        assert(favorites.push(e)[i] == favorites[i]);
        lemma_count_favs_push(favorites, e, article, i + 1);
    } else {
        assert(favorites.push(e)[i] == e);
        assert(count_favs_from(favorites.push(e), article, i + 1) == 0);
        assert(count_favs_from(favorites, article, i) == 0);
    }
}

proof fn lemma_count_favs_remove_suffix(favorites: Seq<FavoriteEdge>, j: int, article: i32, k: int)
    requires
        0 <= j < favorites.len(),
        j <= k <= favorites.len() - 1,
    ensures
        count_favs_from(favorites.remove(j), article, k) == count_favs_from(
            favorites,
            article,
            k + 1,
        ),
    decreases favorites.len() - k,
{
    if k < favorites.len() - 1 {
        assert(favorites.remove(j)[k] == favorites[k + 1]);
        lemma_count_favs_remove_suffix(favorites, j, article, k + 1);
    }
}

/// Removing the edge at index `j` lowers the count of its article by one and
/// leaves every other count unchanged.
pub proof fn lemma_count_favs_remove(favorites: Seq<FavoriteEdge>, j: int, article: i32, i: int)
    requires
        0 <= i <= j < favorites.len(),
    ensures
        count_favs_from(favorites, article, i) == count_favs_from(favorites.remove(j), article, i)
            + (if favorites[j].article == article {
            1nat
        } else {
            0nat
        }),
    decreases j - i,
{
    if i < j {
        assert(favorites.remove(j)[i] == favorites[i]);
        lemma_count_favs_remove(favorites, j, article, i + 1);
    } else {
        lemma_count_favs_remove_suffix(favorites, j, article, j);
    }
}

/// A user keeps existing when rows are appended.
pub proof fn lemma_user_exists_extend(users: Seq<User>, users2: Seq<User>, id: i32)
    requires
        user_exists(users, id),
        users.len() <= users2.len(),
        forall|k: int| 0 <= k < users.len() ==> users2[k] == users[k],
    ensures
        user_exists(users2, id),
{
    let k = choose|k: int| 0 <= k < users.len() && (#[trigger] users[k]).id == id;
    assert(users2[k].id == id);
}

/// A user keeps existing when rows change but keep their ids.
pub proof fn lemma_user_exists_same_ids(users: Seq<User>, users2: Seq<User>, id: i32)
    requires
        user_exists(users, id),
        users2.len() == users.len(),
        forall|k: int| 0 <= k < users.len() ==> users2[k].id == (#[trigger] users[k]).id,
    ensures
        user_exists(users2, id),
{
    let k = choose|k: int| 0 <= k < users.len() && (#[trigger] users[k]).id == id;
    assert(users2[k].id == id);
}

/// A count never exceeds the number of edges counted.
pub proof fn lemma_count_favs_le_len(favorites: Seq<FavoriteEdge>, article: i32, i: int)
    requires
        0 <= i <= favorites.len(),
    ensures
        count_favs_from(favorites, article, i) <= favorites.len() - i,
    decreases favorites.len() - i,
{
    if i < favorites.len() {
        lemma_count_favs_le_len(favorites, article, i + 1);
    }
}

/// A count is zero when no edge from `i` on references the article.
pub proof fn lemma_count_favs_zero(favorites: Seq<FavoriteEdge>, article: i32, i: int)
    requires
        0 <= i <= favorites.len(),
        forall|k: int| i <= k < favorites.len() ==> (#[trigger] favorites[k]).article != article,
    ensures
        count_favs_from(favorites, article, i) == 0,
    decreases favorites.len() - i,
{
    if i < favorites.len() {
        lemma_count_favs_zero(favorites, article, i + 1);
    }
}

/// A count is at least one when some edge references the article.
pub proof fn lemma_count_favs_at_least_one(favorites: Seq<FavoriteEdge>, article: i32, j: int)
    requires
        0 <= j < favorites.len(),
        favorites[j].article == article,
    ensures
        count_favs(favorites, article) >= 1,
{
    lemma_count_favs_lower(favorites, article, 0, j);
}

proof fn lemma_count_favs_lower(favorites: Seq<FavoriteEdge>, article: i32, i: int, j: int)
    requires
        0 <= i <= j < favorites.len(),
        favorites[j].article == article,
    ensures
        count_favs_from(favorites, article, i) >= 1,
    decreases j - i,
{
    if i < j {
        lemma_count_favs_lower(favorites, article, i + 1, j);
    }
}

} // verus!
