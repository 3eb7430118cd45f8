use newsletter::store::Store;
use newsletter::store::StoreError;
use newsletter::store::SubscriberStatus;

#[test]
fn a_duplicate_email_is_a_conflict_and_a_duplicate_id_a_constraint_failure() {
    let mut store = Store::new();
    let mut txn = store.begin_transaction();
    txn.insert_subscriber(1, "a@example.com", "first", 10).unwrap();
    store.commit(txn);

    let mut txn = store.begin_transaction();
    assert_eq!(Err(StoreError::Conflict), txn.insert_subscriber(2, "a@example.com", "again", 11));
    assert_eq!(Err(StoreError::Constraint), txn.insert_subscriber(1, "b@example.com", "again", 11));
    txn.rollback();
    assert_eq!(1, store.subscriber_count());
}

#[test]
fn a_token_for_an_absent_subscriber_or_a_duplicate_token_is_a_constraint_failure() {
    let mut store = Store::new();
    let mut txn = store.begin_transaction();
    txn.insert_subscriber(1, "a@example.com", "first", 10).unwrap();
    txn.store_token(1, "token-one").unwrap();
    assert_eq!(Err(StoreError::Constraint), txn.store_token(9, "token-two"));
    assert_eq!(Err(StoreError::Constraint), txn.store_token(1, "token-one"));
    txn.store_token(1, "token-two").unwrap();
    store.commit(txn);
    assert_eq!(2, store.token_count());
    assert_eq!(Some(1), store.find_subscriber_by_token("token-one"));
    assert_eq!(Some(1), store.find_subscriber_by_token("token-two"));
}

#[test]
fn nothing_staged_is_visible_before_commit_and_rollback_discards_everything() {
    let mut store = Store::new();
    let mut txn = store.begin_transaction();
    txn.insert_subscriber(1, "a@example.com", "first", 10).unwrap();
    txn.store_token(1, "token-one").unwrap();
    assert_eq!(0, store.subscriber_count());
    assert_eq!(0, store.token_count());
    txn.rollback();
    assert_eq!(0, store.subscriber_count());
    assert_eq!(0, store.token_count());
    assert_eq!(None, store.find_subscriber_by_token("token-one"));
}

#[test]
fn confirming_an_absent_id_changes_nothing() {
    let mut store = Store::new();
    let mut txn = store.begin_transaction();
    txn.insert_subscriber(1, "a@example.com", "first", 10).unwrap();
    store.commit(txn);
    store.confirm_subscriber(42);
    let saved = store.find_subscriber_by_email("a@example.com").unwrap();
    assert_eq!(saved.status, SubscriberStatus::PendingConfirmation);
}

#[test]
fn the_confirmed_listing_revalidates_each_row() {
    let mut store = Store::new();
    let mut txn = store.begin_transaction();
    txn.insert_subscriber(1, "good@example.com", "first", 10).unwrap();
    txn.insert_subscriber(2, "not-an-email", "second", 11).unwrap();
    txn.insert_subscriber(3, "pending@example.com", "third", 12).unwrap();
    store.commit(txn);
    store.confirm_subscriber(1);
    store.confirm_subscriber(2);

    let listing = store.list_confirmed_subscriber_emails();
    assert_eq!(2, listing.len());
    assert_eq!("good@example.com", listing[0].as_ref().unwrap().as_str());
    match &listing[1] {
        Err(m) => assert_eq!(m, "not-an-email is not a valid subscriber email."),
        Ok(_) => panic!("a malformed stored email must surface as a per-row failure"),
    }
}
