use antirev::models::PostType;
use antirev::store::Store;

#[test]
fn account_creation_verification_deletion() {
    let store = &mut Store::new();

    store
        .create_account("username".to_string(), "password123".to_string())
        .unwrap_or_else(|| panic!("Username already exists."));
    assert!(
        !store.verify_password("username".to_string(), "password125".to_string()),
        "incorrect password allowed"
    );
    assert!(
        store.verify_password("username".to_string(), "password123".to_string()),
        "correct password dissalowed"
    );
    store.delete_account("username".to_string(), "password123".to_string());
}

#[test]
fn post_creation() {
    let store = &mut Store::new();

    let _account = store
        .create_account("username".to_string(), "password123".to_string())
        .unwrap_or_else(|| panic!("Username already exists."));
    let (session, ok) = store.new_session("username".to_string(), "password123".to_string());
    assert!(ok);
    let post = store
        .create_post(
            "Hello, world".to_string(),
            PostType::Text,
            "Hello, world!".to_string(),
            session,
        )
        .unwrap();
    assert_eq!(post.title, "Hello, world");
    assert_eq!(post.content, "Hello, world!");
    store.delete_account("username".to_string(), "password123".to_string());
}

#[test]
fn duplicate_username_refused() {
    let store = &mut Store::new();

    let first = store.create_account("u".to_string(), "first-pass".to_string());
    assert!(first.is_some());
    let second = store.create_account("u".to_string(), "second-pass".to_string());
    assert!(second.is_none());
    // Exactly the first account survives: its password verifies, the
    // loser's does not.
    assert!(store.verify_password("u".to_string(), "first-pass".to_string()));
    assert!(!store.verify_password("u".to_string(), "second-pass".to_string()));
}

#[test]
fn verification_distinguishes_passwords() {
    let store = &mut Store::new();

    store
        .create_account("heidi".to_string(), "correct horse battery staple".to_string())
        .unwrap();
    assert!(store.verify_password(
        "heidi".to_string(),
        "correct horse battery staple".to_string()
    ));
    assert!(!store.verify_password(
        "heidi".to_string(),
        "correct horse battery stable".to_string()
    ));
    assert!(!store.verify_password("heidi".to_string(), "".to_string()));
    assert!(!store.verify_password("".to_string(), "correct horse battery staple".to_string()));
}

#[test]
fn empty_password_round_trips() {
    let store = &mut Store::new();

    store.create_account("ivan".to_string(), "".to_string()).unwrap();
    assert!(store.verify_password("ivan".to_string(), "".to_string()));
    assert!(!store.verify_password("ivan".to_string(), "x".to_string()));
}

#[test]
fn authentication_issues_resolvable_token() {
    let store = &mut Store::new();

    store
        .create_account("carol".to_string(), "hunter2".to_string())
        .unwrap();
    let (token, ok) = store.new_session("carol".to_string(), "hunter2".to_string());
    assert!(ok);
    let resolved = store.get_user_from_session(token).unwrap();
    assert_eq!(resolved.username, "carol");
    assert_eq!(resolved.session_id, Some(token));
}

#[test]
fn failed_authentication_leaves_no_session() {
    let store = &mut Store::new();

    store
        .create_account("carol".to_string(), "hunter2".to_string())
        .unwrap();
    let (token, ok) = store.new_session("carol".to_string(), "wrong".to_string());
    assert!(!ok);
    assert!(store.get_user_from_session(token).is_none());
    let (token2, ok2) = store.new_session("nobody".to_string(), "hunter2".to_string());
    assert!(!ok2);
    assert!(store.get_user_from_session(token2).is_none());
}

#[test]
fn deletion_requires_the_right_password() {
    let store = &mut Store::new();

    store
        .create_account("dave".to_string(), "open sesame".to_string())
        .unwrap();
    assert!(!store.delete_account("dave".to_string(), "open says me".to_string()));
    assert!(store.verify_password("dave".to_string(), "open sesame".to_string()));
    assert!(!store.delete_account("mallory".to_string(), "open sesame".to_string()));
    assert!(store.delete_account("dave".to_string(), "open sesame".to_string()));
    assert!(!store.verify_password("dave".to_string(), "open sesame".to_string()));
}

#[test]
fn deletion_cascades_to_posts() {
    let store = &mut Store::new();

    let alice = store
        .create_account("alice".to_string(), "pw-a".to_string())
        .unwrap();
    let bob = store.create_account("bob".to_string(), "pw-b".to_string()).unwrap();

    let (token_a, ok_a) = store.new_session("alice".to_string(), "pw-a".to_string());
    assert!(ok_a);
    store
        .create_post("one".to_string(), PostType::Text, "first".to_string(), token_a)
        .unwrap();
    store
        .create_post("two".to_string(), PostType::Url, "https://example".to_string(), token_a)
        .unwrap();

    let (token_b, ok_b) = store.new_session("bob".to_string(), "pw-b".to_string());
    assert!(ok_b);
    store
        .create_post("three".to_string(), PostType::Text, "third".to_string(), token_b)
        .unwrap();
    assert_eq!(store.get_posts().len(), 3);

    assert!(store.delete_account("alice".to_string(), "pw-a".to_string()));
    assert!(!store.verify_password("alice".to_string(), "pw-a".to_string()));
    let remaining = store.get_posts();
    assert_eq!(remaining.len(), 1);
    for post in &remaining {
        assert_ne!(post.user_id, alice.id);
        assert_eq!(post.user_id, bob.id);
    }
}

#[test]
fn post_needs_a_live_token() {
    let store = &mut Store::new();

    let account = store
        .create_account("erin".to_string(), "pw-e".to_string())
        .unwrap();
    let (token, ok) = store.new_session("erin".to_string(), "pw-e".to_string());
    assert!(ok);
    let post = store
        .create_post("t".to_string(), PostType::Text, "c".to_string(), token)
        .unwrap();
    assert_eq!(post.user_id, account.id);

    let before = store.get_posts().len();
    let unknown_token: u128 = 0xDEC0DE;
    let refused = store.create_post(
        "t2".to_string(),
        PostType::Text,
        "c2".to_string(),
        unknown_token,
    );
    assert!(refused.is_none());
    assert_eq!(store.get_posts().len(), before);
}

#[test]
fn signup_login_post_feed() {
    let store = &mut Store::new();

    let alice = store
        .create_account("alice".to_string(), "secret1".to_string())
        .unwrap();
    assert_eq!(alice.session_id, None);
    let (token, ok) = store.new_session("alice".to_string(), "secret1".to_string());
    assert!(ok);
    let post = store
        .create_post("Hi".to_string(), PostType::Text, "hello".to_string(), token)
        .unwrap();
    assert_eq!(post.user_id, alice.id);

    let feed = store.get_posts();
    assert_eq!(feed.len(), 1);
    assert_eq!(feed[0].title, "Hi");
    assert!(matches!(feed[0].post_type, PostType::Text));
    assert_eq!(feed[0].content, "hello");
    assert_eq!(feed[0].user_id, alice.id);
}

#[test]
fn wrong_password_token_resolves_to_nothing() {
    let store = &mut Store::new();

    store
        .create_account("alice".to_string(), "secret1".to_string())
        .unwrap();
    let (token, ok) = store.new_session("alice".to_string(), "wrong".to_string());
    assert!(!ok);
    assert!(store.get_user_from_session(token).is_none());
}

#[test]
fn fresh_account_has_no_session() {
    let store = &mut Store::new();

    let account = store
        .create_account("frank".to_string(), "pw-f".to_string())
        .unwrap();
    assert_eq!(account.session_id, None);
    assert!(account.id >= 1);
    assert!(!account.hash.is_empty());
    assert_ne!(account.hash, "pw-f");
}

#[test]
fn new_login_displaces_the_old_token() {
    let store = &mut Store::new();

    store
        .create_account("grace".to_string(), "pw-g".to_string())
        .unwrap();
    let (first, ok1) = store.new_session("grace".to_string(), "pw-g".to_string());
    assert!(ok1);
    let (second, ok2) = store.new_session("grace".to_string(), "pw-g".to_string());
    assert!(ok2);
    assert!(store.get_user_from_session(first).is_none());
    let resolved = store.get_user_from_session(second).unwrap();
    assert_eq!(resolved.username, "grace");
}
