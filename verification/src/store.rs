use vstd::prelude::*;

use crate::hashing::{argon_verifies, hash_password, verify_digest};
use crate::models::{AccountView, NewUser, Post, PostType, PostView, User};
use crate::token::fresh_token;

verus! {

/// The mathematical image of a `Store`: the live accounts and posts in
/// creation order, and the ids the next creations will receive.
pub struct StoreView {
    pub accounts: Seq<AccountView>,
    pub posts: Seq<PostView>,
    pub next_user_id: int,
    pub next_post_id: int,
}

impl StoreView {
    /// The store with no accounts and no posts; ids start at 1.
    pub open spec fn empty() -> StoreView {
        StoreView { accounts: Seq::empty(), posts: Seq::empty(), next_user_id: 1, next_post_id: 1 }
    }

    /// Well-formedness: ids are unique and below the counters, usernames
    /// are unique, a session token names at most one account, and every
    /// post's owner is a live account.
    pub open spec fn inv(self) -> bool {
        &&& 1 <= self.next_user_id
        &&& 1 <= self.next_post_id
        &&& forall|i: int| 0 <= i < self.accounts.len()
                ==> 1 <= (#[trigger] self.accounts[i]).id < self.next_user_id
        &&& forall|i: int, j: int| 0 <= i < j < self.accounts.len()
                ==> self.accounts[i].id != self.accounts[j].id
        &&& forall|i: int, j: int| 0 <= i < j < self.accounts.len()
                ==> self.accounts[i].username != self.accounts[j].username
        &&& forall|i: int, j: int|
                0 <= i < self.accounts.len() && 0 <= j < self.accounts.len() && i != j
                    && self.accounts[i].session_id is Some
                ==> self.accounts[i].session_id != self.accounts[j].session_id
        &&& forall|i: int| 0 <= i < self.posts.len()
                ==> 1 <= (#[trigger] self.posts[i]).id < self.next_post_id
        &&& forall|i: int, j: int| 0 <= i < j < self.posts.len()
                ==> self.posts[i].id != self.posts[j].id
        &&& forall|i: int| 0 <= i < self.posts.len()
                ==> self.owner_live((#[trigger] self.posts[i]).user_id)
    }

    /// Whether some live account bears `username`.
    pub open spec fn username_taken(self, username: Seq<char>) -> bool {
        exists|i: int| 0 <= i < self.accounts.len()
            && (#[trigger] self.accounts[i]).username == username
    }

    /// The index of the live account bearing `username`; meaningful only
    /// when the username is taken, and unique under the invariant.
    pub open spec fn user_index(self, username: Seq<char>) -> int {
        choose|i: int| 0 <= i < self.accounts.len()
            && (#[trigger] self.accounts[i]).username == username
    }

    /// The live account bearing `username`, if any.
    pub open spec fn find_by_username(self, username: Seq<char>) -> Option<AccountView> {
        if self.username_taken(username) {
            Some(self.accounts[self.user_index(username)])
        } else {
            None
        }
    }

    /// Whether some live account holds `token` as its session token.
    pub open spec fn token_in_use(self, token: u128) -> bool {
        exists|i: int| 0 <= i < self.accounts.len()
            && (#[trigger] self.accounts[i]).session_id == Some(token)
    }

    /// The index of the live account holding `token`; meaningful only when
    /// the token is in use, and unique under the invariant.
    pub open spec fn token_index(self, token: u128) -> int {
        choose|i: int| 0 <= i < self.accounts.len()
            && (#[trigger] self.accounts[i]).session_id == Some(token)
    }

    /// The live account holding `token` as its session token, if any.
    pub open spec fn resolve(self, token: u128) -> Option<AccountView> {
        if self.token_in_use(token) {
            Some(self.accounts[self.token_index(token)])
        } else {
            None
        }
    }

    /// Whether some live account has the id `owner`.
    pub open spec fn owner_live(self, owner: int) -> bool {
        exists|i: int| 0 <= i < self.accounts.len()
            && (#[trigger] self.accounts[i]).id == owner
    }

    /// The store after an account is created: the account is appended and
    /// the id counter moves past it.
    pub open spec fn with_new_account(self, a: AccountView) -> StoreView {
        StoreView {
            accounts: self.accounts.push(a),
            posts: self.posts,
            next_user_id: self.next_user_id + 1,
            next_post_id: self.next_post_id,
        }
    }

    /// The store after the account at index `i` logs in with `token`: that
    /// account holds the token, and an account that happened to hold the
    /// same token before loses it, so the token names one account.
    pub open spec fn with_session(self, i: int, token: u128) -> StoreView {
        StoreView {
            accounts: Seq::new(
                self.accounts.len(),
                |j: int|
                    if j == i {
                        AccountView { session_id: Some(token), ..self.accounts[j] }
                    } else if self.accounts[j].session_id == Some(token) {
                        AccountView { session_id: None, ..self.accounts[j] }
                    } else {
                        self.accounts[j]
                    },
            ),
            posts: self.posts,
            next_user_id: self.next_user_id,
            next_post_id: self.next_post_id,
        }
    }

    /// The store after the account at index `i` is deleted: the account
    /// disappears, and every post it owned disappears with it.
    pub open spec fn without_account(self, i: int) -> StoreView {
        StoreView {
            accounts: self.accounts.remove(i),
            posts: posts_without_owner(self.posts, self.accounts[i].id),
            next_user_id: self.next_user_id,
            next_post_id: self.next_post_id,
        }
    }

    /// The store after a post is created: the post is appended and the id
    /// counter moves past it.
    pub open spec fn with_new_post(self, p: PostView) -> StoreView {
        StoreView {
            accounts: self.accounts,
            posts: self.posts.push(p),
            next_user_id: self.next_user_id,
            next_post_id: self.next_post_id + 1,
        }
    }
}

/// The posts of `posts`, in order, without those owned by `owner`.
pub open spec fn posts_without_owner(posts: Seq<PostView>, owner: int) -> Seq<PostView>
    decreases posts.len(),
{
    if posts.len() == 0 {
        Seq::empty()
    } else {
        let rest = posts_without_owner(posts.drop_last(), owner);
        if posts.last().user_id == owner {
            rest
        } else {
            rest.push(posts.last())
        }
    }
}

/// Every post that survives `posts_without_owner` is one of the original
/// posts, and none of the survivors is owned by `owner`.
pub proof fn lemma_posts_without_owner_membership(posts: Seq<PostView>, owner: int)
    ensures
        forall|k: int| 0 <= k < posts_without_owner(posts, owner).len()
            ==> (#[trigger] posts_without_owner(posts, owner)[k]).user_id != owner
                && posts.contains(posts_without_owner(posts, owner)[k]),
    decreases posts.len(),
{
    if posts.len() > 0 {
        let rest = posts.drop_last();
        lemma_posts_without_owner_membership(rest, owner);
        let out = posts_without_owner(posts, owner);
        assert forall|k: int| 0 <= k < out.len() implies (#[trigger] out[k]).user_id != owner
            && posts.contains(out[k]) by {
            if k < posts_without_owner(rest, owner).len() {
                assert(out[k] == posts_without_owner(rest, owner)[k]);
                assert(rest.contains(out[k]));
                let m = choose|m: int| 0 <= m < rest.len() && rest[m] == out[k];
                assert(posts[m] == out[k]);
            } else {
                assert(out[k] == posts.last());
                assert(posts[posts.len() - 1] == out[k]);
            }
        }
    }
}

/// Removing an owner's posts keeps the remaining ids pairwise distinct.
pub proof fn lemma_posts_without_owner_distinct(posts: Seq<PostView>, owner: int)
    requires
        forall|i: int, j: int| 0 <= i < j < posts.len() ==> posts[i].id != posts[j].id,
    ensures
        forall|i: int, j: int|
            0 <= i < j < posts_without_owner(posts, owner).len()
                ==> posts_without_owner(posts, owner)[i].id
                    != posts_without_owner(posts, owner)[j].id,
    decreases posts.len(),
{
    if posts.len() > 0 {
        let rest = posts.drop_last();
        lemma_posts_without_owner_distinct(rest, owner);
        lemma_posts_without_owner_membership(rest, owner);
        let out = posts_without_owner(posts, owner);
        let prev = posts_without_owner(rest, owner);
        assert forall|i: int, j: int| 0 <= i < j < out.len() implies out[i].id != out[j].id by {
            if j < prev.len() {
                assert(out[i] == prev[i] && out[j] == prev[j]);
            } else {
                assert(out[j] == posts.last());
                assert(out[i] == prev[i]);
                assert(rest.contains(prev[i]));
                let m = choose|m: int| 0 <= m < rest.len() && rest[m] == prev[i];
                assert(posts[m] == prev[i]);
                assert(posts[m].id != posts[posts.len() - 1].id);
            }
        }
    }
}

/// Under the invariant, an account's position is the unique index that
/// `user_index` picks for its username.
pub proof fn lemma_index_is_user_index(s: StoreView, i: int)
    requires
        s.inv(),
        0 <= i < s.accounts.len(),
    ensures
        s.username_taken(s.accounts[i].username),
        s.user_index(s.accounts[i].username) == i,
{
    let u = s.accounts[i].username;
    assert(s.username_taken(u));
    let k = s.user_index(u);
    if k < i {
        assert(s.accounts[k].username != s.accounts[i].username);
    } else if i < k {
        assert(s.accounts[i].username != s.accounts[k].username);
    }
}

/// Under the invariant, an account's position is the unique index that
/// `token_index` picks for its session token.
pub proof fn lemma_index_is_token_index(s: StoreView, i: int, token: u128)
    requires
        s.inv(),
        0 <= i < s.accounts.len(),
        s.accounts[i].session_id == Some(token),
    ensures
        s.token_in_use(token),
        s.token_index(token) == i,
{
    assert(s.token_in_use(token));
    let k = s.token_index(token);
    if k != i {
        assert(s.accounts[i].session_id != s.accounts[k].session_id);
    }
}

/// A token that no live account holds resolves to no account.
pub proof fn lemma_unused_token_resolves_none(s: StoreView, token: u128)
    requires
        !s.token_in_use(token),
    ensures
        s.resolve(token) is None,
{
}

/// A login keeps the store well formed, and the token it stores resolves
/// to the account that logged in, which keeps its id and username.
pub proof fn lemma_login_token_resolves(s: StoreView, i: int, token: u128)
    requires
        s.inv(),
        0 <= i < s.accounts.len(),
    ensures
        s.with_session(i, token).inv(),
        s.with_session(i, token).accounts[i] == (AccountView {
            session_id: Some(token),
            ..s.accounts[i]
        }),
        s.with_session(i, token).resolve(token) == Some(s.with_session(i, token).accounts[i]),
{
    let t = s.with_session(i, token);
    assert forall|k: int| 0 <= k < t.posts.len() implies t.owner_live(
        (#[trigger] t.posts[k]).user_id,
    ) by {
        assert(s.owner_live(s.posts[k].user_id));
        let w = choose|w: int| 0 <= w < s.accounts.len()
            && (#[trigger] s.accounts[w]).id == s.posts[k].user_id;
        assert(t.accounts[w].id == t.posts[k].user_id);
    }
    assert(t.inv());
    lemma_index_is_token_index(t, i, token);
}

/// Deleting an account keeps the store well formed, frees its username,
/// and leaves no post behind that the account owned.
pub proof fn lemma_delete_cascades(s: StoreView, i: int)
    requires
        s.inv(),
        0 <= i < s.accounts.len(),
    ensures
        s.without_account(i).inv(),
        !s.without_account(i).username_taken(s.accounts[i].username),
        forall|k: int| 0 <= k < s.without_account(i).posts.len()
            ==> (#[trigger] s.without_account(i).posts[k]).user_id != s.accounts[i].id,
{
    let t = s.without_account(i);
    let owner = s.accounts[i].id;
    lemma_posts_without_owner_membership(s.posts, owner);
    lemma_posts_without_owner_distinct(s.posts, owner);
    assert(t.accounts.len() == s.accounts.len() - 1);
    assert(forall|k: int| 0 <= k < t.accounts.len()
        ==> t.accounts[k] == if k < i { s.accounts[k] } else { s.accounts[k + 1] });
    assert forall|k: int| 0 <= k < t.posts.len() implies 1 <= (#[trigger] t.posts[k]).id
        < t.next_post_id && t.posts[k].user_id != owner && t.owner_live(t.posts[k].user_id) by {
        assert(s.posts.contains(t.posts[k]));
        let m = choose|m: int| 0 <= m < s.posts.len() && s.posts[m] == t.posts[k];
        assert(s.owner_live(s.posts[m].user_id));
        let w = choose|w: int| 0 <= w < s.accounts.len()
            && (#[trigger] s.accounts[w]).id == s.posts[m].user_id;
        assert(s.accounts[w].id != owner);
        assert(w != i);
        if w < i {
            assert(t.accounts[w].id == t.posts[k].user_id);
        } else {
            assert(t.accounts[w - 1].id == t.posts[k].user_id);
        }
    }
    assert forall|k: int| 0 <= k < t.accounts.len() implies (#[trigger] t.accounts[k]).username
        != s.accounts[i].username by {
        if k < i {
            assert(s.accounts[k].username != s.accounts[i].username);
        } else {
            assert(s.accounts[i].username != s.accounts[k + 1].username);
        }
    }
    assert(t.inv());
}

/// The account/session/post store. All state lives here; the usernames of
/// live accounts are unique, each session token names at most one account,
/// and every post belongs to a live account.
pub struct Store {
    users: Vec<User>,
    posts: Vec<Post>,
    next_user_id: i32,
    next_post_id: i32,
}

impl View for Store {
    type V = StoreView;

    closed spec fn view(&self) -> StoreView {
        StoreView {
            accounts: Seq::new(self.users@.len(), |i: int| self.users@[i]@),
            posts: Seq::new(self.posts@.len(), |i: int| self.posts@[i]@),
            next_user_id: self.next_user_id as int,
            next_post_id: self.next_post_id as int,
        }
    }
}

impl Store {
    /// A fresh, empty store.
    pub fn new() -> (s: Store)
        ensures
            s@ == StoreView::empty(),
            s@.inv(),
    {
        let s = Store { users: Vec::new(), posts: Vec::new(), next_user_id: 1, next_post_id: 1 };
        proof {
            assert(s@.accounts =~= Seq::<AccountView>::empty());
            assert(s@.posts =~= Seq::<PostView>::empty());
            assert(s@ =~= StoreView::empty());
        }
        s
    }

    /// Insert an account whose password digest is already derived. Fails
    /// exactly when the username is taken or the id counter is exhausted,
    /// and then changes nothing; on success the new account carries the
    /// next id, the given username and digest, and no session token.
    pub fn insert_account(&mut self, user: NewUser) -> (r: Option<User>)
        requires
            old(self)@.inv(),
        ensures
            final(self)@.inv(),
            match r {
                Some(a) => {
                    &&& !old(self)@.username_taken(user.username@)
                    &&& old(self)@.next_user_id < i32::MAX
                    &&& a@ == (AccountView {
                        id: old(self)@.next_user_id,
                        username: user.username@,
                        hash: user.hash@,
                        session_id: None,
                    })
                    &&& final(self)@ == old(self)@.with_new_account(a@)
                },
                None => {
                    &&& *final(self) == *old(self)
                    &&& old(self)@.username_taken(user.username@)
                            || old(self)@.next_user_id == i32::MAX
                },
            },
    {
        if self.find_index_by_username(&user.username).is_some() {
            return None;
        }
        if self.next_user_id == i32::MAX {
            return None;
        }
        let id = self.next_user_id;
        let inserted = User {
            id,
            username: user.username,
            hash: user.hash,
            session_id: None,
        };
        let returned = User {
            id,
            username: inserted.username.clone(),
            hash: inserted.hash.clone(),
            session_id: None,
        };
        self.users.push(inserted);
        self.next_user_id = id + 1;
        proof {
            assert(self@.accounts =~= old(self)@.accounts.push(returned@));
            assert(self@ =~= old(self)@.with_new_account(returned@));
            lemma_new_account_preserves_inv(old(self)@, returned@);
        }
        Some(returned)
    }

    /// Sign an account up: derive a salted digest of `password` and insert
    /// an account named `uname` with it. Fails without mutating when the
    /// username is taken, and in the fatal cases that the id counter is
    /// exhausted or the hasher yields no digest; on success the new account
    /// verifies against `password` and has no session token yet.
    pub fn create_account(&mut self, uname: String, password: String) -> (r: Option<User>)
        requires
            old(self)@.inv(),
        ensures
            final(self)@.inv(),
            old(self)@.username_taken(uname@) ==> r is None,
            match r {
                Some(a) => {
                    &&& !old(self)@.username_taken(uname@)
                    &&& a@.id == old(self)@.next_user_id
                    &&& a@.username == uname@
                    &&& a@.session_id is None
                    &&& argon_verifies(password@, a@.hash)
                    &&& final(self)@ == old(self)@.with_new_account(a@)
                },
                None => *final(self) == *old(self),
            },
    {
        let digest = match hash_password(password.as_str()) {
            Some(d) => d,
            None => {
                return None;
            },
        };
        self.insert_account(NewUser { username: uname, hash: digest })
    }

    /// Whether `password` is the password of the live account named
    /// `uname`: false when no such account exists, and otherwise exactly
    /// the verdict of the credential hasher on the stored digest.
    pub fn verify_password(&self, uname: String, password: String) -> (r: bool)
        requires
            self@.inv(),
        ensures
            r == match self@.find_by_username(uname@) {
                Some(a) => argon_verifies(password@, a.hash),
                None => false,
            },
    {
        match self.find_index_by_username(&uname) {
            Some(i) => {
                proof {
                    lemma_index_is_user_index(self@, i as int);
                }
                verify_digest(password.as_str(), self.users[i].hash.as_str())
            },
            None => false,
        }
    }

    /// Log in: on the right password for a live account, store `token` as
    /// that account's session token (displacing the token's previous
    /// holder, if any, so the token names one account) and return true; on
    /// a wrong password or an unknown username, change nothing and return
    /// false. The token is persisted only on success.
    pub fn new_session_with_token(&mut self, uname: String, password: String, token: u128) -> (r:
        bool)
        requires
            old(self)@.inv(),
        ensures
            final(self)@.inv(),
            r == match old(self)@.find_by_username(uname@) {
                Some(a) => argon_verifies(password@, a.hash),
                None => false,
            },
            !r ==> *final(self) == *old(self),
            r ==> final(self)@ == old(self)@.with_session(old(self)@.user_index(uname@), token),
            r ==> (final(self)@.resolve(token) matches Some(a) && a.id == old(
                self,
            )@.find_by_username(uname@).unwrap().id && a.username == uname@ && a.session_id
                == Some(token)),
    {
        let idx = match self.find_index_by_username(&uname) {
            Some(i) => i,
            None => {
                return false;
            },
        };
        proof {
            lemma_index_is_user_index(self@, idx as int);
        }
        if !verify_digest(password.as_str(), self.users[idx].hash.as_str()) {
            return false;
        }
        proof {
            lemma_login_token_resolves(self@, idx as int, token);
        }
        self.set_session(idx, token);
        true
    }

    /// Log in with a freshly drawn random token: the pair of the token and
    /// whether the login succeeded. On success the token is stored on the
    /// account and resolves to it; on failure nothing is stored, so the
    /// token is valid only if it happens to collide with a live session.
    pub fn new_session(&mut self, uname: String, password: String) -> (r: (u128, bool))
        requires
            old(self)@.inv(),
        ensures
            final(self)@.inv(),
            r.1 == match old(self)@.find_by_username(uname@) {
                Some(a) => argon_verifies(password@, a.hash),
                None => false,
            },
            !r.1 ==> *final(self) == *old(self),
            r.1 ==> final(self)@ == old(self)@.with_session(old(self)@.user_index(uname@), r.0),
            r.1 ==> (final(self)@.resolve(r.0) matches Some(a) && a.id == old(
                self,
            )@.find_by_username(uname@).unwrap().id && a.username == uname@ && a.session_id
                == Some(r.0)),
    {
        let token = fresh_token();
        let ok = self.new_session_with_token(uname, password, token);
        (token, ok)
    }

    /// Delete the account named `uname` if `password` is its password,
    /// together with every post it owns, and report whether a deletion
    /// happened. On a wrong password or an unknown username this is a
    /// silent no-op.
    pub fn delete_account(&mut self, uname: String, password: String) -> (r: bool)
        requires
            old(self)@.inv(),
        ensures
            final(self)@.inv(),
            r == match old(self)@.find_by_username(uname@) {
                Some(a) => argon_verifies(password@, a.hash),
                None => false,
            },
            !r ==> *final(self) == *old(self),
            r ==> final(self)@ == old(self)@.without_account(old(self)@.user_index(uname@)),
            r ==> final(self)@.find_by_username(uname@) is None,
            r ==> forall|k: int| 0 <= k < final(self)@.posts.len()
                ==> (#[trigger] final(self)@.posts[k]).user_id != old(self)@.find_by_username(
                    uname@,
                ).unwrap().id,
    {
        let idx = match self.find_index_by_username(&uname) {
            Some(i) => i,
            None => {
                return false;
            },
        };
        proof {
            lemma_index_is_user_index(self@, idx as int);
        }
        if !verify_digest(password.as_str(), self.users[idx].hash.as_str()) {
            return false;
        }
        let ghost pre = self@;
        proof {
            lemma_delete_cascades(pre, idx as int);
        }
        let owner = self.users[idx].id;
        self.delete_posts_for_user(owner);
        self.users.remove(idx);
        proof {
            assert(self@.accounts =~= pre.accounts.remove(idx as int));
            assert(self@ =~= pre.without_account(idx as int));
        }
        true
    }

    /// Create a post in the feed, attributed to the account that `seshn_id`
    /// resolves to. Fails without mutating when the token resolves to no
    /// account (unauthorized) or, fatally, when the id counter is
    /// exhausted.
    pub fn create_post(
        &mut self,
        ttl: String,
        pst_typ: PostType,
        cntnt: String,
        seshn_id: u128,
    ) -> (r: Option<Post>)
        requires
            old(self)@.inv(),
        ensures
            final(self)@.inv(),
            match r {
                Some(p) => {
                    &&& old(self)@.token_in_use(seshn_id)
                    &&& old(self)@.next_post_id < i32::MAX as int
                    &&& p@ == (PostView {
                        id: old(self)@.next_post_id,
                        user_id: old(self)@.resolve(seshn_id).unwrap().id,
                        title: ttl@,
                        post_type: pst_typ,
                        content: cntnt@,
                    })
                    &&& final(self)@ == old(self)@.with_new_post(p@)
                },
                None => {
                    &&& *final(self) == *old(self)
                    &&& !old(self)@.token_in_use(seshn_id) || old(self)@.next_post_id
                        == i32::MAX as int
                },
            },
    {
        let idx = match self.find_index_by_token(seshn_id) {
            Some(i) => i,
            None => {
                return None;
            },
        };
        proof {
            lemma_index_is_token_index(self@, idx as int, seshn_id);
        }
        if self.next_post_id == i32::MAX {
            return None;
        }
        let id = self.next_post_id;
        let usr_id = self.users[idx].id;
        let inserted = Post { id, user_id: usr_id, title: ttl, post_type: pst_typ, content: cntnt };
        let returned = clone_post(&inserted);
        self.posts.push(inserted);
        self.next_post_id = id + 1;
        proof {
            assert(self@.posts =~= old(self)@.posts.push(returned@));
            assert(self@ =~= old(self)@.with_new_post(returned@));
            assert forall|k: int| 0 <= k < self@.posts.len() implies self@.owner_live(
                (#[trigger] self@.posts[k]).user_id,
            ) by {
                if k < old(self)@.posts.len() {
                    assert(old(self)@.owner_live(old(self)@.posts[k].user_id));
                    let w = choose|w: int| 0 <= w < old(self)@.accounts.len()
                        && (#[trigger] old(self)@.accounts[w]).id == old(self)@.posts[k].user_id;
                    assert(self@.accounts[w].id == self@.posts[k].user_id);
                } else {
                    assert(self@.accounts[idx as int].id == self@.posts[k].user_id);
                }
            }
        }
        Some(returned)
    }

    /// Every post in the feed, in creation order.
    pub fn get_posts(&self) -> (r: Vec<Post>)
        ensures
            r@.len() == self@.posts.len(),
            forall|i: int| 0 <= i < r@.len() ==> (#[trigger] r@[i])@ == self@.posts[i],
    {
        let mut out: Vec<Post> = Vec::new();
        let mut i: usize = 0;
        while i < self.posts.len()
            invariant
                i <= self.posts@.len(),
                out@.len() == i,
                self@.posts.len() == self.posts@.len(),
                forall|k: int| 0 <= k < i ==> (#[trigger] out@[k])@ == self@.posts[k],
            decreases self.posts@.len() - i,
        {
            out.push(clone_post(&self.posts[i]));
            i += 1;
        }
        out
    }

    /// The live account whose session token is `sesh`, if any.
    pub fn get_user_from_session(&self, sesh: u128) -> (r: Option<User>)
        requires
            self@.inv(),
        ensures
            match r {
                Some(u) => self@.resolve(sesh) == Some(u@),
                None => self@.resolve(sesh) is None,
            },
    {
        match self.find_index_by_token(sesh) {
            Some(i) => {
                proof {
                    lemma_index_is_token_index(self@, i as int, sesh);
                }
                Some(clone_user(&self.users[i]))
            },
            None => None,
        }
    }

    /// Remove every post owned by the account with id `owner`; accounts
    /// and the id counters stay as they are.
    fn delete_posts_for_user(&mut self, owner: i32)
        ensures
            final(self)@.posts == posts_without_owner(old(self)@.posts, owner as int),
            final(self)@.accounts == old(self)@.accounts,
            final(self)@.next_user_id == old(self)@.next_user_id,
            final(self)@.next_post_id == old(self)@.next_post_id,
            final(self).users == old(self).users,
    {
        let mut kept: Vec<Post> = Vec::new();
        let mut i: usize = 0;
        while i < self.posts.len()
            invariant
                i <= self.posts@.len(),
                Seq::new(kept@.len(), |k: int| kept@[k]@) == posts_without_owner(
                    Seq::new(i as nat, |k: int| self.posts@[k]@),
                    owner as int,
                ),
            decreases self.posts@.len() - i,
        {
            let ghost prefix = Seq::new(i as nat, |k: int| self.posts@[k]@);
            if self.posts[i].user_id != owner {
                kept.push(clone_post(&self.posts[i]));
            }
            i += 1;
            proof {
                let longer = Seq::new(i as nat, |k: int| self.posts@[k]@);
                assert(longer.drop_last() =~= prefix);
                assert(Seq::new(kept@.len(), |k: int| kept@[k]@) =~= posts_without_owner(
                    longer,
                    owner as int,
                ));
            }
        }
        self.posts = kept;
        proof {
            assert(Seq::new(i as nat, |k: int| old(self).posts@[k]@) =~= old(self)@.posts);
            assert(self@.posts =~= posts_without_owner(old(self)@.posts, owner as int));
            assert(self@.accounts =~= old(self)@.accounts);
        }
    }

    /// The position of the account holding `token` in creation order, if
    /// one is live.
    fn find_index_by_token(&self, token: u128) -> (r: Option<usize>)
        ensures
            match r {
                Some(i) => i < self@.accounts.len() && self@.accounts[i as int].session_id == Some(
                    token,
                ),
                None => !self@.token_in_use(token),
            },
    {
        let mut i: usize = 0;
        while i < self.users.len()
            invariant
                i <= self@.accounts.len(),
                self@.accounts.len() == self.users@.len(),
                forall|j: int| 0 <= j < i ==> (#[trigger] self@.accounts[j]).session_id != Some(
                    token,
                ),
            decreases self.users@.len() - i,
        {
            let matches_token = match self.users[i].session_id {
                Some(t) => t == token,
                None => false,
            };
            if matches_token {
                return Some(i);
            }
            i += 1;
        }
        None
    }

    /// Overwrite the session tokens so that the account at `idx` holds
    /// `token` and no other account does.
    fn set_session(&mut self, idx: usize, token: u128)
        requires
            old(self)@.inv(),
            idx < old(self)@.accounts.len(),
        ensures
            final(self)@ == old(self)@.with_session(idx as int, token),
    {
        let ghost target = old(self)@.with_session(idx as int, token);
        let mut j: usize = 0;
        while j < self.users.len()
            invariant
                j <= self.users@.len(),
                self.users@.len() == old(self).users@.len(),
                idx < self.users@.len(),
                self.posts == old(self).posts,
                self.next_user_id == old(self).next_user_id,
                self.next_post_id == old(self).next_post_id,
                target == old(self)@.with_session(idx as int, token),
                forall|k: int| 0 <= k < j ==> (#[trigger] self.users@[k])@ == target.accounts[k],
                forall|k: int| j <= k < self.users@.len() ==> self.users@[k] == old(
                    self,
                ).users@[k],
            decreases self.users@.len() - j,
        {
            if j == idx {
                self.users[j].session_id = Some(token);
            } else {
                let holds_token = match self.users[j].session_id {
                    Some(t) => t == token,
                    None => false,
                };
                if holds_token {
                    self.users[j].session_id = None;
                }
            }
            j += 1;
        }
        proof {
            assert(self@.accounts =~= target.accounts);
            assert(self@ =~= target);
        }
    }

    /// The position of the account bearing `username` in creation order,
    /// if one is live.
    fn find_index_by_username(&self, username: &String) -> (r: Option<usize>)
        ensures
            match r {
                Some(i) => i < self@.accounts.len() && self@.accounts[i as int].username
                    == username@,
                None => !self@.username_taken(username@),
            },
    {
        let mut i: usize = 0;
        while i < self.users.len()
            invariant
                i <= self@.accounts.len(),
                self@.accounts.len() == self.users@.len(),
                forall|j: int| 0 <= j < i ==> (#[trigger] self@.accounts[j]).username
                    != username@,
            decreases self.users.len() - i,
        {
            if self.users[i].username == *username {
                return Some(i);
            }
            i += 1;
        }
        None
    }
}

/// A fresh copy of a post, equal to it in the model.
fn clone_post(p: &Post) -> (r: Post)
    ensures
        r@ == p@,
{
    Post {
        id: p.id,
        user_id: p.user_id,
        title: p.title.clone(),
        post_type: p.post_type,
        content: p.content.clone(),
    }
}

/// A fresh copy of an account record, equal to it in the model.
fn clone_user(u: &User) -> (r: User)
    ensures
        r@ == u@,
{
    User {
        id: u.id,
        username: u.username.clone(),
        hash: u.hash.clone(),
        session_id: u.session_id,
    }
}

/// Creating an account under a fresh username preserves the invariant.
pub proof fn lemma_new_account_preserves_inv(s: StoreView, a: AccountView)
    requires
        s.inv(),
        !s.username_taken(a.username),
        a.id == s.next_user_id,
        a.session_id is None,
    ensures
        s.with_new_account(a).inv(),
{
    let t = s.with_new_account(a);
    assert forall|i: int| 0 <= i < t.posts.len() implies t.owner_live(
        (#[trigger] t.posts[i]).user_id,
    ) by {
        assert(s.owner_live(s.posts[i].user_id));
        let w = choose|k: int| 0 <= k < s.accounts.len()
            && (#[trigger] s.accounts[k]).id == s.posts[i].user_id;
        assert(t.accounts[w].id == t.posts[i].user_id);
    }
    assert forall|i: int, j: int| 0 <= i < j < t.accounts.len() implies t.accounts[i].username
        != t.accounts[j].username by {
        if j == t.accounts.len() - 1 {
            assert(!s.username_taken(a.username));
            assert(s.accounts[i].username != a.username);
        }
    }
}

/// Creating an account under a username nobody bears can succeed only
/// once: afterwards the username is taken, exactly one live account bears
/// it, and the store is still well formed, so a second creation with the
/// same username is refused without effect.
pub proof fn lemma_username_unique_after_create(s: StoreView, a: AccountView)
    requires
        s.inv(),
        !s.username_taken(a.username),
        a.id == s.next_user_id,
        a.session_id is None,
    ensures
        s.with_new_account(a).inv(),
        s.with_new_account(a).username_taken(a.username),
        forall|i: int, j: int|
            0 <= i < s.with_new_account(a).accounts.len() && 0 <= j < s.with_new_account(
                a,
            ).accounts.len() && (#[trigger] s.with_new_account(a).accounts[i]).username
                == a.username && (#[trigger] s.with_new_account(a).accounts[j]).username
                == a.username ==> i == j,
{
    lemma_new_account_preserves_inv(s, a);
    let t = s.with_new_account(a);
    assert(t.accounts[t.accounts.len() - 1].username == a.username);
    assert forall|i: int, j: int|
        0 <= i < t.accounts.len() && 0 <= j < t.accounts.len() && (#[trigger] t.accounts[i]).username
            == a.username && (#[trigger] t.accounts[j]).username == a.username implies i == j by {
        if i < j {
            assert(t.accounts[i].username != t.accounts[j].username);
        } else if j < i {
            assert(t.accounts[j].username != t.accounts[i].username);
        }
    }
}

/// A freshly created account is the one its username finds: the stored
/// digest of the password it signed up with is the digest that lookups
/// see, so verifying that password against the store succeeds.
pub proof fn lemma_create_then_find(s: StoreView, a: AccountView)
    requires
        s.inv(),
        !s.username_taken(a.username),
    ensures
        s.with_new_account(a).find_by_username(a.username) == Some(a),
{
    let t = s.with_new_account(a);
    assert(t.accounts[t.accounts.len() - 1].username == a.username);
    assert(t.username_taken(a.username));
    let k = t.user_index(a.username);
    if k < t.accounts.len() - 1 {
        assert(s.accounts[k].username == a.username);
        assert(s.username_taken(a.username));
    }
}

/// A post created with a live session token joins the feed attributed to
/// the account the token resolves to; the feed stays well formed, the
/// accounts stay as they are, and the token still resolves to the same
/// account.
pub proof fn lemma_post_with_live_token(s: StoreView, token: u128, p: PostView)
    requires
        s.inv(),
        s.resolve(token) matches Some(a) && p.user_id == a.id,
        p.id == s.next_post_id,
    ensures
        s.with_new_post(p).inv(),
        s.with_new_post(p).posts == s.posts.push(p),
        s.with_new_post(p).posts.last() == p,
        s.with_new_post(p).accounts == s.accounts,
        s.with_new_post(p).resolve(token) == s.resolve(token),
{
    let t = s.with_new_post(p);
    assert forall|k: int| 0 <= k < t.posts.len() implies t.owner_live(
        (#[trigger] t.posts[k]).user_id,
    ) by {
        if k < s.posts.len() {
            assert(s.owner_live(s.posts[k].user_id));
            let w = choose|w: int| 0 <= w < s.accounts.len()
                && (#[trigger] s.accounts[w]).id == s.posts[k].user_id;
            assert(t.accounts[w].id == t.posts[k].user_id);
        } else {
            let w = s.token_index(token);
            assert(t.accounts[w].id == t.posts[k].user_id);
        }
    }
    assert(t.inv());
}

} // verus!
