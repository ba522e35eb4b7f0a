//! Account, session and post bookkeeping for a small shared feed.
//!
//! Accounts sign up with a username and a password, log in to receive an
//! opaque session token, and post titled items to a common feed. The store
//! keeps usernames unique, binds each live session token to at most one
//! account, attributes every post to a live account, and deletes an
//! account's posts together with the account.

pub mod hashing;
pub mod models;
pub mod store;
pub mod token;
