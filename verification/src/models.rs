use vstd::prelude::*;

verus! {

/// The two kinds of content a post can carry: a link or free text.
#[derive(Clone, Copy, Debug, PartialEq, Eq, Structural)]
pub enum PostType {
    Url,
    Text,
}

/// A live account: a stable id assigned by the store, a unique username,
/// the digest of the account's password, and the session token of the
/// most recent successful login, if any.
#[derive(Debug, PartialEq)]
pub struct User {
    pub id: i32,
    pub username: String,
    pub hash: String,
    pub session_id: Option<u128>,
}

/// The data a caller supplies to insert an account: the username and the
/// already-derived password digest. The store assigns the id, and a fresh
/// account has no session token.
pub struct NewUser {
    pub username: String,
    pub hash: String,
}

/// A feed item, permanently attributed to the account that created it.
#[derive(Debug, PartialEq)]
pub struct Post {
    pub id: i32,
    pub user_id: i32,
    pub title: String,
    pub post_type: PostType,
    pub content: String,
}

/// The mathematical image of a `User`.
pub struct AccountView {
    pub id: int,
    pub username: Seq<char>,
    pub hash: Seq<char>,
    pub session_id: Option<u128>,
}

/// The mathematical image of a `Post`.
pub struct PostView {
    pub id: int,
    pub user_id: int,
    pub title: Seq<char>,
    pub post_type: PostType,
    pub content: Seq<char>,
}

impl View for User {
    type V = AccountView;

    open spec fn view(&self) -> AccountView {
        AccountView {
            id: self.id as int,
            username: self.username@,
            hash: self.hash@,
            session_id: self.session_id,
        }
    }
}

impl View for Post {
    type V = PostView;

    open spec fn view(&self) -> PostView {
        PostView {
            id: self.id as int,
            user_id: self.user_id as int,
            title: self.title@,
            post_type: self.post_type,
            content: self.content@,
        }
    }
}

} // verus!
