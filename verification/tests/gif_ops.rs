use gif_store::gif::{GifsById, GiphyGif, SavedGif, SavedGifStore};

fn gif(id: &str, title: &str, url: &str, category: Option<&str>) -> GiphyGif {
    GiphyGif {
        id: id.to_owned(),
        title: title.to_owned(),
        url: url.to_owned(),
        is_saved: false,
        category: category.map(|c| c.to_owned()),
    }
}

#[test]
fn insert_assigns_generated_id_and_preserves_fields() {
    let mut tx = SavedGifStore::new();
    let saved = SavedGif::insert(1, &gif("abc123", "Cat", "http://x/abc123.gif", None), &mut tx)
        .expect("insert failed");
    assert_eq!(saved.id, 1);
    assert_eq!(saved.user, 1);
    assert_eq!(saved.giphy_id, "abc123");
    assert_eq!(saved.title, "Cat");
    assert_eq!(saved.url, "http://x/abc123.gif");
    assert_eq!(saved.category, None);

    let second = SavedGif::insert(1, &gif("def", "Dog", "http://x/def.gif", Some("pets")), &mut tx)
        .expect("insert failed");
    assert_eq!(second.id, 2);
    assert_eq!(second.category, Some("pets".to_owned()));
}

#[test]
fn all_for_user_returns_exactly_the_inserted_record() {
    let mut tx = SavedGifStore::new();
    let saved = SavedGif::insert(1, &gif("abc123", "Cat", "http://x/abc123.gif", None), &mut tx)
        .expect("insert failed");
    let listed = SavedGif::all_for_user(1, &tx).expect("listing failed");
    assert_eq!(listed.len(), 1);
    assert_eq!(listed[0].id, saved.id);
    assert_eq!(listed[0].user, 1);
    assert_eq!(listed[0].giphy_id, "abc123");
    assert_eq!(listed[0].title, "Cat");
    assert_eq!(listed[0].url, "http://x/abc123.gif");
    assert_eq!(listed[0].category, None);
}

#[test]
fn all_for_user_is_empty_not_an_error_for_a_user_with_nothing() {
    let mut tx = SavedGifStore::new();
    assert!(SavedGif::all_for_user(7, &tx).expect("listing failed").is_empty());
    SavedGif::insert(1, &gif("abc", "Cat", "http://x/a.gif", None), &mut tx).expect("insert failed");
    assert!(SavedGif::all_for_user(7, &tx).expect("listing failed").is_empty());
}

#[test]
fn all_for_user_keeps_only_that_users_records() {
    let mut tx = SavedGifStore::new();
    SavedGif::insert(1, &gif("a", "A", "http://x/a.gif", None), &mut tx).expect("insert failed");
    SavedGif::insert(2, &gif("b", "B", "http://x/b.gif", None), &mut tx).expect("insert failed");
    SavedGif::insert(1, &gif("c", "C", "http://x/c.gif", None), &mut tx).expect("insert failed");
    let listed = SavedGif::all_for_user(1, &tx).expect("listing failed");
    assert_eq!(listed.len(), 2);
    assert_eq!(listed[0].giphy_id, "a");
    assert_eq!(listed[1].giphy_id, "c");
}

#[test]
fn for_user_matching_ids_returns_only_the_existing_subset() {
    let mut tx = SavedGifStore::new();
    SavedGif::insert(1, &gif("a", "A", "http://x/a.gif", None), &mut tx).expect("insert failed");
    SavedGif::insert(1, &gif("b", "B", "http://x/b.gif", None), &mut tx).expect("insert failed");
    SavedGif::insert(2, &gif("c", "C", "http://x/c.gif", None), &mut tx).expect("insert failed");

    let ids = vec!["a".to_owned(), "c".to_owned(), "zzz".to_owned()];
    let found: GifsById =
        SavedGif::for_user_matching_ids(1, &ids, &tx).expect("matching failed");
    assert_eq!(found.len(), 1);
    let hit = found.get(&"a".to_owned()).expect("requested id missing");
    assert_eq!(hit.user, 1);
    assert_eq!(hit.giphy_id, "a");
    // "b" exists for the user but was not requested; "c" belongs to another
    // user; "zzz" exists nowhere. All three are absent, none is an error.
    assert!(found.get(&"b".to_owned()).is_none());
    assert!(found.get(&"c".to_owned()).is_none());
    assert!(found.get(&"zzz".to_owned()).is_none());
}

#[test]
fn set_category_updates_an_existing_pair() {
    let mut tx = SavedGifStore::new();
    SavedGif::insert(1, &gif("abc123", "Cat", "http://x/abc123.gif", None), &mut tx)
        .expect("insert failed");
    let updated = SavedGif::set_category(1, "abc123".to_owned(), "funny".to_owned(), &mut tx)
        .expect("update failed")
        .expect("record not found");
    assert_eq!(updated.giphy_id, "abc123");
    assert_eq!(updated.category, Some("funny".to_owned()));

    let listed = SavedGif::all_for_user(1, &tx).expect("listing failed");
    assert_eq!(listed.len(), 1);
    assert_eq!(listed[0].category, Some("funny".to_owned()));
}

#[test]
fn set_category_on_a_missing_pair_is_none_not_an_error() {
    let mut tx = SavedGifStore::new();
    SavedGif::insert(1, &gif("abc123", "Cat", "http://x/abc123.gif", None), &mut tx)
        .expect("insert failed");
    // Wrong id for the right user, and right id for the wrong user.
    let miss = SavedGif::set_category(1, "nonexistent".to_owned(), "x".to_owned(), &mut tx)
        .expect("update failed");
    assert!(miss.is_none());
    let miss = SavedGif::set_category(2, "abc123".to_owned(), "x".to_owned(), &mut tx)
        .expect("update failed");
    assert!(miss.is_none());
    // The stored row is untouched.
    let listed = SavedGif::all_for_user(1, &tx).expect("listing failed");
    assert_eq!(listed[0].category, None);
}

#[test]
fn converting_to_the_api_shape_marks_it_saved_and_keeps_the_fields() {
    let saved = SavedGif {
        id: 9,
        user: 1,
        giphy_id: "abc123".to_owned(),
        title: "Cat".to_owned(),
        url: "http://x/abc123.gif".to_owned(),
        category: Some("funny".to_owned()),
    };
    let shaped = GiphyGif::from(saved);
    assert!(shaped.is_saved);
    assert_eq!(shaped.id, "abc123");
    assert_eq!(shaped.title, "Cat");
    assert_eq!(shaped.url, "http://x/abc123.gif");
    assert_eq!(shaped.category, Some("funny".to_owned()));
}

#[test]
fn saving_the_full_scenario_round() {
    let mut tx = SavedGifStore::new();
    let saved = SavedGif::insert(1, &gif("abc123", "Cat", "http://x/abc123.gif", None), &mut tx)
        .expect("insert failed");
    assert!(saved.id > 0);
    assert_eq!(saved.category, None);

    let listed = SavedGif::all_for_user(1, &tx).expect("listing failed");
    assert_eq!(listed.len(), 1);
    assert_eq!(listed[0].id, saved.id);

    let updated = SavedGif::set_category(1, "abc123".to_owned(), "funny".to_owned(), &mut tx)
        .expect("update failed")
        .expect("record not found");
    assert_eq!(updated.category, Some("funny".to_owned()));

    let miss = SavedGif::set_category(1, "nonexistent".to_owned(), "x".to_owned(), &mut tx)
        .expect("update failed");
    assert!(miss.is_none());
}
