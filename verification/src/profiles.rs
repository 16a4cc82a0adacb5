//! Viewer-relative profiles and the follow relationship.
//!
//! A profile is never stored: `following` is computed per request from the
//! follow edges, relative to the identity making the request. Follow and
//! unfollow are existence-guarded, so both are idempotent: creating a
//! present edge and deleting an absent one are no-op successes.

use vstd::prelude::*;

use crate::errors::AppError;
use crate::store::{
    follow_at, is_following, lemma_follow_at_props, user_by_id, user_named, FollowEdge, Store, User,
};

verus! {

/// The viewer-relative projection of a user.
#[derive(Debug)]
pub struct Profile {
    pub username: String,
    pub bio: Option<String>,
    pub image: Option<String>,
    pub following: bool,
}

/// A profile wrapped for the caller.
pub struct ProfileResult {
    pub profile: Profile,
}

impl ProfileResult {
    pub fn new(profile: Profile) -> (r: ProfileResult)
        ensures
            r.profile == profile,
    {
        ProfileResult { profile }
    }
}

/// `p` is the profile of `u` as seen by a viewer for whom `following` holds.
pub open spec fn is_profile_of(p: Profile, u: User, following: bool) -> bool {
    &&& p.username@ == u.username@
    &&& p.bio == u.bio
    &&& p.image == u.image
    &&& p.following == following
}

/// What the viewer sees in the `following` field of a profile: anonymous
/// viewers never see `true`.
pub open spec fn following_for(follows: Seq<FollowEdge>, viewer: Option<i32>, target: i32) -> bool {
    match viewer {
        Some(v) => is_following(follows, v, target),
        None => false,
    }
}

impl Profile {
    /// The profile of the user with the given username, as seen by `viewer`.
    ///
    /// Returns `NotFound` exactly when no user carries that username.
    pub fn get_proflies(s: &Store, username: &str, viewer: Option<i32>) -> (r: Result<
        Profile,
        AppError,
    >)
        ensures
            match r {
                Ok(p) => user_named(s.users@, username@) is Some && is_profile_of(
                    p,
                    s.users@[user_named(s.users@, username@).unwrap()],
                    following_for(
                        s.follows@,
                        viewer,
                        s.users@[user_named(s.users@, username@).unwrap()].id,
                    ),
                ),
                Err(e) => e == AppError::NotFound && user_named(s.users@, username@) is None,
            },
    {
        match s.find_user_by_name(username) {
            None => Err(AppError::NotFound),
            Some(j) => {
                let target_id = s.users[j].id;
                let following = match viewer {
                    Some(v) => Self::is_following(s, v, target_id),
                    None => false,
                };
                Ok(s.users[j].to_profile(following))
            },
        }
    }

    /// The profile of the user with id `followed`, as seen by `follower`.
    ///
    /// Returns `NotFound` exactly when no user carries that id.
    pub fn find_follered(s: &Store, follower: i32, followed: i32) -> (r: Result<Profile, AppError>)
        ensures
            match r {
                Ok(p) => user_by_id(s.users@, followed) is Some && is_profile_of(
                    p,
                    s.users@[user_by_id(s.users@, followed).unwrap()],
                    is_following(s.follows@, follower, followed),
                ),
                Err(e) => e == AppError::NotFound && user_by_id(s.users@, followed) is None,
            },
    {
        match s.find_user_by_id(followed) {
            None => Err(AppError::NotFound),
            Some(j) => {
                let following = Self::is_following(s, follower, followed);
                Ok(s.users[j].to_profile(following))
            },
        }
    }

    /// Whether `follower` currently follows `followed`.
    pub fn is_following(s: &Store, follower: i32, followed: i32) -> (r: bool)
        ensures
            r == is_following(s.follows@, follower, followed),
    {
        s.find_follow(follower, followed).is_some()
    }

    /// `follower` starts following the user named `followed_name`.
    ///
    /// The edge is inserted only when absent, so a repeated follow is a
    /// no-op success. Returns `NotFound` exactly when the user is missing,
    /// and leaves the store unchanged on failure.
    pub fn follow(s: &mut Store, followed_name: &str, follower: i32) -> (r: Result<
        Profile,
        AppError,
    >)
        requires
            old(s).wf(),
        ensures
            final(s).wf(),
            final(s).users@ == old(s).users@,
            final(s).articles@ == old(s).articles@,
            final(s).comments@ == old(s).comments@,
            final(s).favorites@ == old(s).favorites@,
            final(s).next_user_id == old(s).next_user_id,
            final(s).next_article_id == old(s).next_article_id,
            final(s).next_comment_id == old(s).next_comment_id,
            match r {
                Ok(p) => {
                    let found = user_named(old(s).users@, followed_name@);
                    let target = old(s).users@[found.unwrap()];
                    &&& found is Some
                    &&& is_profile_of(p, target, true)
                    &&& is_following(final(s).follows@, follower, target.id)
                    &&& final(s).follows@ == (if is_following(
                        old(s).follows@,
                        follower,
                        target.id,
                    ) {
                        old(s).follows@
                    } else {
                        old(s).follows@.push(FollowEdge { follower, followed: target.id })
                    })
                },
                Err(e) => {
                    &&& e == AppError::NotFound
                    &&& user_named(old(s).users@, followed_name@) is None
                    &&& *final(s) == *old(s)
                },
            },
    {
        match s.find_user_by_name(followed_name) {
            None => Err(AppError::NotFound),
            Some(j) => {
                let target_id = s.users[j].id;
                match s.find_follow(follower, target_id) {
                    Some(_) => (),
                    None => {
                        proof {
                            lemma_follow_at_props(s.follows@, follower, target_id, 0);
                        }
                        let ghost prev = s.follows@;
                        s.follows.push(FollowEdge { follower, followed: target_id });
                        proof {
                            assert forall|a: int, b: int|
                                0 <= a < b < s.follows@.len() implies #[trigger] s.follows@[a]
                                != #[trigger] s.follows@[b] by {
                                if b < prev.len() as int {
                                } else {
                                    assert(s.follows@[b] == (FollowEdge {
                                        follower,
                                        followed: target_id,
                                    }));
                                    assert(s.follows@[a] == prev[a]);
                                }
                            }
                            assert(is_following(s.follows@, follower, target_id)) by {
                                lemma_follow_at_props(s.follows@, follower, target_id, 0);
                                if follow_at(s.follows@, follower, target_id) is None {
                                    assert(s.follows@[prev.len() as int] == (FollowEdge {
                                        follower,
                                        followed: target_id,
                                    }));
                                }
                            }
                        }
                    },
                }
                Ok(s.users[j].to_profile(true))
            },
        }
    }

    /// `follower` stops following the user named `followed_name`.
    ///
    /// The edge is deleted only when present, so unfollowing a user who was
    /// never followed is a no-op success. Returns `NotFound` exactly when
    /// the user is missing, and leaves the store unchanged on failure.
    pub fn unfollow(s: &mut Store, followed_name: &str, follower: i32) -> (r: Result<
        Profile,
        AppError,
    >)
        requires
            old(s).wf(),
        ensures
            final(s).wf(),
            final(s).users@ == old(s).users@,
            final(s).articles@ == old(s).articles@,
            final(s).comments@ == old(s).comments@,
            final(s).favorites@ == old(s).favorites@,
            final(s).next_user_id == old(s).next_user_id,
            final(s).next_article_id == old(s).next_article_id,
            final(s).next_comment_id == old(s).next_comment_id,
            match r {
                Ok(p) => {
                    let found = user_named(old(s).users@, followed_name@);
                    let target = old(s).users@[found.unwrap()];
                    &&& found is Some
                    &&& is_profile_of(p, target, false)
                    &&& !is_following(final(s).follows@, follower, target.id)
                    &&& final(s).follows@ == (match follow_at(
                        old(s).follows@,
                        follower,
                        target.id,
                    ) {
                        Some(k) => old(s).follows@.remove(k),
                        None => old(s).follows@,
                    })
                },
                Err(e) => {
                    &&& e == AppError::NotFound
                    &&& user_named(old(s).users@, followed_name@) is None
                    &&& *final(s) == *old(s)
                },
            },
    {
        match s.find_user_by_name(followed_name) {
            None => Err(AppError::NotFound),
            Some(j) => {
                let target_id = s.users[j].id;
                match s.find_follow(follower, target_id) {
                    None => {
                        proof {
                            lemma_follow_at_props(s.follows@, follower, target_id, 0);
                        }
                    },
                    Some(k) => {
                        let ghost prev = s.follows@;
                        let _removed = s.follows.remove(k);
                        proof {
                            prev.remove_ensures(k as int);
                            assert forall|a: int, b: int|
                                0 <= a < b < s.follows@.len() implies #[trigger] s.follows@[a]
                                != #[trigger] s.follows@[b] by {}
                            lemma_follow_at_props(s.follows@, follower, target_id, 0);
                            if follow_at(s.follows@, follower, target_id) is Some {
                                let m = follow_at(s.follows@, follower, target_id).unwrap();
                                assert(s.follows@[m] == (FollowEdge {
                                    follower,
                                    followed: target_id,
                                }));
                                lemma_follow_at_props(prev, follower, target_id, 0);
                                if m < k as int {
                                    assert(prev[m] == s.follows@[m]);
                                } else {
                                    assert(prev[m + 1] == s.follows@[m]);
                                }
                            }
                        }
                    },
                }
                Ok(s.users[j].to_profile(false))
            },
        }
    }
}

} // verus!
