use zero2prod::store::{Store, StoreError, SubscriptionStatus};

#[test]
fn a_new_store_is_empty() {
    let store = Store::new();
    assert!(store.subscribers().is_empty());
    assert!(store.tokens().is_empty());
    assert_eq!(store.list_confirmed(), Ok(vec![]));
}

#[test]
fn an_id_or_an_email_that_is_taken_is_a_conflict() {
    let store = Store::new();
    let mut transaction = store.begin().unwrap();

    assert_eq!(transaction.insert(1, "a@example.com", "a", 10), Ok(()));
    assert_eq!(
        transaction.insert(1, "b@example.com", "b", 11),
        Err(StoreError::Conflict)
    );
    assert_eq!(
        transaction.insert(2, "a@example.com", "b", 11),
        Err(StoreError::Conflict)
    );
    assert_eq!(transaction.insert(2, "b@example.com", "a", 11), Ok(()));
}

#[test]
fn a_token_that_is_taken_is_a_conflict_and_needs_its_subscriber() {
    let store = Store::new();
    let mut transaction = store.begin().unwrap();
    transaction.insert(1, "a@example.com", "a", 10).unwrap();

    assert_eq!(
        transaction.insert_token("token", 2),
        Err(StoreError::StorageError)
    );
    assert_eq!(transaction.insert_token("token", 1), Ok(()));
    assert_eq!(
        transaction.insert_token("token", 1),
        Err(StoreError::Conflict)
    );
    assert_eq!(
        transaction.insert_token("token", 2),
        Err(StoreError::Conflict)
    );
    assert_eq!(transaction.insert_token("other", 1), Ok(()));
}

#[test]
fn a_transaction_that_is_dropped_leaves_no_trace() {
    let mut store = Store::new();
    {
        let mut transaction = store.begin().unwrap();
        transaction.insert(1, "a@example.com", "a", 10).unwrap();
        transaction.insert_token("token", 1).unwrap();
    }
    assert!(store.subscribers().is_empty());
    assert!(store.tokens().is_empty());

    let mut transaction = store.begin().unwrap();
    transaction.insert(1, "a@example.com", "a", 10).unwrap();
    transaction.insert_token("token", 1).unwrap();
    store.commit(transaction).unwrap();
    assert_eq!(store.subscribers().len(), 1);
    assert_eq!(store.subscribers()[0].subscribed_at, 10);
    assert_eq!(store.tokens().len(), 1);
    assert_eq!(store.resolve("token"), Ok(Some(1)));
    assert_eq!(store.resolve("other"), Ok(None));
}

#[test]
fn only_confirmed_subscribers_are_listed_in_the_order_of_their_insertion() {
    let mut store = Store::new();
    let mut transaction = store.begin().unwrap();
    transaction.insert(1, "a@example.com", "a", 10).unwrap();
    transaction.insert(2, "b@example.com", "b", 11).unwrap();
    transaction.insert(3, "c@example.com", "c", 12).unwrap();
    store.commit(transaction).unwrap();

    store.confirm(3).unwrap();
    store.confirm(1).unwrap();
    store.confirm(1).unwrap();
    store.confirm(4).unwrap();

    assert_eq!(
        store.list_confirmed(),
        Ok(vec![
            (1, "a@example.com".to_string()),
            (3, "c@example.com".to_string())
        ])
    );
    assert_eq!(
        store.subscribers()[1].status,
        SubscriptionStatus::PendingConfirmation
    );
}

#[test]
fn a_store_out_of_reach_fails_every_operation_and_changes_nothing() {
    let mut store = Store::new();
    let mut transaction = store.begin().unwrap();
    transaction.insert(1, "a@example.com", "a", 10).unwrap();
    transaction.insert_token("token", 1).unwrap();
    store.commit(transaction).unwrap();
    let mut pending = store.begin().unwrap();
    pending.insert(2, "b@example.com", "b", 11).unwrap();

    store.set_available(false);

    assert!(store.begin().is_err());
    assert_eq!(store.commit(pending), Err(StoreError::StorageError));
    assert_eq!(store.resolve("token"), Err(StoreError::StorageError));
    assert_eq!(store.confirm(1), Err(StoreError::StorageError));
    assert_eq!(store.list_confirmed(), Err(StoreError::StorageError));

    store.set_available(true);
    assert_eq!(store.subscribers().len(), 1);
    assert_eq!(
        store.subscribers()[0].status,
        SubscriptionStatus::PendingConfirmation
    );
    assert_eq!(store.resolve("token"), Ok(Some(1)));
}

#[test]
fn two_units_of_work_that_do_not_clash_both_persist() {
    let mut store = Store::new();
    let mut first = store.begin().unwrap();
    let mut second = store.begin().unwrap();
    first.insert(1, "a@example.com", "a", 10).unwrap();
    first.insert_token("first", 1).unwrap();
    second.insert(2, "b@example.com", "b", 11).unwrap();
    second.insert_token("second", 2).unwrap();

    assert_eq!(store.commit(second), Ok(()));
    assert_eq!(store.commit(first), Ok(()));

    let emails: Vec<&str> = store
        .subscribers()
        .iter()
        .map(|row| row.email.as_str())
        .collect();
    assert_eq!(emails, vec!["b@example.com", "a@example.com"]);
    assert_eq!(store.resolve("first"), Ok(Some(1)));
    assert_eq!(store.resolve("second"), Ok(Some(2)));
}

#[test]
fn a_unit_of_work_that_clashes_with_a_committed_one_is_refused_whole() {
    let mut store = Store::new();
    let mut first = store.begin().unwrap();
    let mut second = store.begin().unwrap();
    first.insert(1, "a@example.com", "a", 10).unwrap();
    first.insert_token("first", 1).unwrap();
    second.insert(2, "b@example.com", "b", 11).unwrap();
    second.insert(3, "a@example.com", "a again", 12).unwrap();
    second.insert_token("second", 2).unwrap();

    assert_eq!(store.commit(first), Ok(()));
    assert_eq!(store.commit(second), Err(StoreError::Conflict));

    assert_eq!(store.subscribers().len(), 1);
    assert_eq!(store.subscribers()[0].email, "a@example.com");
    assert_eq!(store.tokens().len(), 1);
    assert_eq!(store.resolve("second"), Ok(None));
}

#[test]
fn a_confirmation_outlasts_the_commit_of_a_unit_of_work_opened_before_it() {
    let mut store = Store::new();
    let mut first = store.begin().unwrap();
    first.insert(1, "a@example.com", "a", 10).unwrap();
    store.commit(first).unwrap();

    let mut second = store.begin().unwrap();
    second.insert(2, "b@example.com", "b", 11).unwrap();
    store.confirm(1).unwrap();
    store.commit(second).unwrap();

    assert_eq!(store.subscribers()[0].status, SubscriptionStatus::Confirmed);
    assert_eq!(
        store.subscribers()[1].status,
        SubscriptionStatus::PendingConfirmation
    );
}

#[test]
fn a_unit_of_work_is_not_committed_to_a_store_that_lacks_its_subscriber() {
    let mut store = Store::new();
    let mut first = store.begin().unwrap();
    first.insert(1, "a@example.com", "a", 10).unwrap();
    store.commit(first).unwrap();
    let mut second = store.begin().unwrap();
    second.insert_token("token", 1).unwrap();

    let mut other = Store::new();
    assert_eq!(other.commit(second), Err(StoreError::StorageError));
    assert!(other.tokens().is_empty());
}
