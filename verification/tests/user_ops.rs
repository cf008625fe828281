use gif_store::error::StorageFailure;
use gif_store::user::{User, UserStore};

#[test]
fn insert_assigns_an_id_and_keeps_email_and_hash() {
    let mut tx = UserStore::new();
    let user = User::insert("a@example.com".to_owned(), "hash-one".to_owned(), &mut tx)
        .expect("insert failed");
    assert_eq!(user.id, 1);
    assert_eq!(user.email, "a@example.com");
    assert_eq!(user.pwhash, "hash-one");
    let second = User::insert("b@example.com".to_owned(), "hash-two".to_owned(), &mut tx)
        .expect("insert failed");
    assert_eq!(second.id, 2);
}

#[test]
fn inserting_the_same_email_twice_gives_the_duplicate_error() {
    let mut tx = UserStore::new();
    User::insert("a@example.com".to_owned(), "hash-one".to_owned(), &mut tx)
        .expect("first insert failed");
    let err = User::insert("a@example.com".to_owned(), "hash-two".to_owned(), &mut tx)
        .expect_err("second insert succeeded");
    assert_eq!(err.message, "That email address is already taken.");
    assert_eq!(err.status, 400);
    assert_eq!(err.cause, None);
    // The failed insert left the table as it was.
    let found = User::find_by_email("a@example.com".to_owned(), &tx)
        .expect("lookup failed")
        .expect("account missing");
    assert_eq!(found.pwhash, "hash-one");
}

#[test]
fn find_by_email_returns_the_matching_account() {
    let mut tx = UserStore::new();
    User::insert("a@example.com".to_owned(), "hash-one".to_owned(), &mut tx)
        .expect("insert failed");
    User::insert("b@example.com".to_owned(), "hash-two".to_owned(), &mut tx)
        .expect("insert failed");
    let found = User::find_by_email("b@example.com".to_owned(), &tx)
        .expect("lookup failed")
        .expect("account missing");
    assert_eq!(found.id, 2);
    assert_eq!(found.pwhash, "hash-two");
}

#[test]
fn find_by_id_returns_the_matching_account() {
    let mut tx = UserStore::new();
    User::insert("a@example.com".to_owned(), "hash-one".to_owned(), &mut tx)
        .expect("insert failed");
    let found = User::find_by_id(1, &tx).expect("lookup failed").expect("account missing");
    assert_eq!(found.email, "a@example.com");
}

#[test]
fn lookups_for_missing_keys_are_none_not_errors() {
    let mut tx = UserStore::new();
    assert!(User::find_by_email("a@example.com".to_owned(), &tx)
        .expect("lookup failed")
        .is_none());
    assert!(User::find_by_id(41, &tx).expect("lookup failed").is_none());
    User::insert("a@example.com".to_owned(), "hash-one".to_owned(), &mut tx)
        .expect("insert failed");
    assert!(User::find_by_email("b@example.com".to_owned(), &tx)
        .expect("lookup failed")
        .is_none());
    assert!(User::find_by_id(41, &tx).expect("lookup failed").is_none());
}

#[test]
fn into_common_embeds_the_token_and_drops_the_hash() {
    let user = User { id: 3, email: "a@example.com".to_owned(), pwhash: "hash-one".to_owned() };
    let public = user.into_common("token-123".to_owned());
    assert_eq!(public.id, 3);
    assert_eq!(public.email, "a@example.com");
    assert_eq!(public.jwt, "token-123");
}

#[test]
fn email_constraint_violations_classify_as_the_duplicate_error() {
    let failure = StorageFailure::Database {
        constraint: Some("users_email_key".to_owned()),
        detail: "duplicate key value violates unique constraint".to_owned(),
    };
    let err = failure.into_insert_error();
    assert_eq!(err.message, "That email address is already taken.");
    assert_eq!(err.status, 400);
    assert_eq!(err.cause, None);
}

#[test]
fn other_database_errors_classify_as_wrapped_storage_failures() {
    let failure = StorageFailure::Database {
        constraint: Some("saved_gifs_pkey".to_owned()),
        detail: "boom".to_owned(),
    };
    let err = failure.into_insert_error();
    assert_eq!(err.message, "internal server error");
    assert_eq!(err.status, 500);
    assert_eq!(err.cause, Some("boom".to_owned()));

    let failure = StorageFailure::Database { constraint: None, detail: "lost".to_owned() };
    let err = failure.into_insert_error();
    assert_eq!(err.status, 500);
    assert_eq!(err.cause, Some("lost".to_owned()));
}

#[test]
fn failures_before_the_database_answered_classify_as_bare_internal_errors() {
    let err = StorageFailure::Other.into_insert_error();
    assert_eq!(err.message, "internal server error");
    assert_eq!(err.status, 500);
    assert_eq!(err.cause, None);
}
