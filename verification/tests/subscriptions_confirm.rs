use zero2prod::domain::SubscriberEmail;
use zero2prod::email::{EmailClient, Outbox};
use zero2prod::routes::subscriptions::{subscribe, ApplicationBaseUrl, FormData};
use zero2prod::routes::subscriptions_confirm::{
    confirm_subscriber, confirm_subscription, get_subscriber_id_from_token,
    get_subscriptions_confirm, resolved, ConfirmSubscriptionError, ConfirmationQuery,
};
use zero2prod::routes::Fault;
use zero2prod::store::{Store, StoreError, SubscriptionStatus};

fn get_mock_client() -> (EmailClient, Outbox) {
    let from = SubscriberEmail::parse("newsletter@example.com".to_string()).unwrap();
    let email_client = EmailClient::new(
        "http://127.0.0.1:8025/v3/mail/send".to_string(),
        "SECRET-REDACTED".to_string(),
        from,
    );
    (email_client, Outbox::new())
}

fn sign_up(store: &mut Store, outbox: &mut Outbox, name: &str, email: &str) {
    let (email_client, _) = get_mock_client();
    let app_base_url = ApplicationBaseUrl("http://127.0.0.1".to_string());
    let form = FormData {
        name: name.to_string(),
        email: email.to_string(),
    };
    subscribe(form, store, outbox, &email_client, &app_base_url).unwrap();
}

fn query(token: &str) -> ConfirmationQuery {
    ConfirmationQuery {
        subscription_token: token.to_string(),
    }
}

#[test]
fn confirmations_without_token_are_rejected_with_a_400() {
    let mut store = Store::new();

    let status = get_subscriptions_confirm(None, &mut store);

    assert_eq!(status, 400);
}

#[test]
fn confirmations_with_an_unknown_token_are_rejected_with_a_401() {
    let mut store = Store::new();
    let mut outbox = Outbox::new();
    sign_up(&mut store, &mut outbox, "le guin", "ursula_le_guin@gmail.com");

    let status = get_subscriptions_confirm(Some(query("0123456789012345678901234")), &mut store);

    assert_eq!(status, 401);
    assert_eq!(
        store.subscribers()[0].status,
        SubscriptionStatus::PendingConfirmation
    );
}

#[test]
fn the_link_returned_by_subscribe_returned_a_200_if_called() {
    let mut store = Store::new();
    let mut outbox = Outbox::new();
    sign_up(&mut store, &mut outbox, "le guin", "ursula_le_guin@gmail.com");

    let email_request = &outbox.requests()[0];
    let body = &email_request.body.content[0].value;
    let links: Vec<_> = linkify::LinkFinder::new()
        .links(body)
        .filter(|l| *l.kind() == linkify::LinkKind::Url)
        .collect();
    let confirmation_link = links[0].as_str();
    let link_uri = confirmation_link
        .split('/')
        .skip(3)
        .collect::<Vec<_>>()
        .join("/");
    let link_uri = format!("/{link_uri}");
    let token = link_uri
        .strip_prefix("/subscriptions/confirm?subscription_token=")
        .unwrap();

    let status = get_subscriptions_confirm(Some(query(token)), &mut store);

    assert_eq!(status, 200);
    assert_eq!(store.subscribers()[0].status, SubscriptionStatus::Confirmed);
}

#[test]
fn confirming_twice_succeeds_twice_and_leaves_the_subscriber_confirmed() {
    let mut store = Store::new();
    let mut outbox = Outbox::new();
    sign_up(&mut store, &mut outbox, "le guin", "ursula_le_guin@gmail.com");
    sign_up(&mut store, &mut outbox, "atwood", "margaret_atwood@gmail.com");
    let token = store.tokens()[0].subscription_token.clone();

    assert!(confirm_subscription(query(&token), &mut store).is_ok());
    let after_first = format!("{:?}", store.subscribers());
    assert!(confirm_subscription(query(&token), &mut store).is_ok());

    assert_eq!(format!("{:?}", store.subscribers()), after_first);
    assert_eq!(store.subscribers()[0].status, SubscriptionStatus::Confirmed);
    assert_eq!(
        store.subscribers()[1].status,
        SubscriptionStatus::PendingConfirmation
    );
    assert_eq!(store.tokens().len(), 2);
}

#[test]
fn an_unknown_token_is_unauthorized() {
    let mut store = Store::new();

    match confirm_subscription(query("unknown"), &mut store) {
        Err(error) => {
            assert_eq!(error.status_code(), 401);
            match error {
                ConfirmSubscriptionError::Unauthorized(message) => {
                    assert_eq!(message, "Invalid subscription token")
                }
                other => panic!("the token was refused otherwise: {other:?}"),
            }
        }
        Ok(()) => panic!("the token was accepted"),
    }
}

#[test]
fn a_store_out_of_reach_fails_the_confirmation_with_a_500() {
    let mut store = Store::new();
    let mut outbox = Outbox::new();
    sign_up(&mut store, &mut outbox, "le guin", "ursula_le_guin@gmail.com");
    let token = store.tokens()[0].subscription_token.clone();
    store.set_available(false);

    let status = get_subscriptions_confirm(Some(query(&token)), &mut store);

    assert_eq!(status, 500);
    assert_eq!(
        store.subscribers()[0].status,
        SubscriptionStatus::PendingConfirmation
    );
}

#[test]
fn a_token_resolves_to_the_subscriber_it_was_issued_to() {
    let mut store = Store::new();
    let mut outbox = Outbox::new();
    sign_up(&mut store, &mut outbox, "le guin", "ursula_le_guin@gmail.com");
    sign_up(&mut store, &mut outbox, "atwood", "margaret_atwood@gmail.com");

    let token = store.tokens()[1].subscription_token.clone();
    let id = store.subscribers()[1].id;
    assert_eq!(get_subscriber_id_from_token(&store, &token), Ok(Some(id)));
    assert_eq!(get_subscriber_id_from_token(&store, "unknown"), Ok(None));

    confirm_subscriber(&mut store, id).unwrap();
    assert_eq!(
        store.subscribers()[0].status,
        SubscriptionStatus::PendingConfirmation
    );
    assert_eq!(store.subscribers()[1].status, SubscriptionStatus::Confirmed);
    assert_eq!(store.subscribers()[1].email, "margaret_atwood@gmail.com");
    assert_eq!(store.subscribers()[1].name, "atwood");

    // No subscriber has this id: nothing changes.
    let before = format!("{:?}", store.subscribers());
    confirm_subscriber(&mut store, id ^ 1).unwrap();
    assert_eq!(format!("{:?}", store.subscribers()), before);
}

#[test]
fn each_stage_of_a_confirmation_ends_it_on_a_failure() {
    match resolved(Err(StoreError::StorageError)) {
        Err(ConfirmSubscriptionError::UnexpectedError(fault)) => {
            assert_eq!(fault, Fault::Storage(StoreError::StorageError))
        }
        _ => panic!("a failed lookup did not end the confirmation"),
    }
    match resolved(Ok(None)) {
        Err(ConfirmSubscriptionError::Unauthorized(_)) => {}
        _ => panic!("an unknown token was not turned away"),
    }
    let subscriber = resolved(Ok(Some(9))).ok().unwrap();
    assert_eq!(subscriber.id(), 9);
    match subscriber.complete(Err(StoreError::StorageError)) {
        Err(error) => assert_eq!(error.status_code(), 500),
        Ok(()) => panic!("a failed update did not fail the confirmation"),
    }
    assert!(resolved(Ok(Some(9))).ok().unwrap().complete(Ok(())).is_ok());
}
