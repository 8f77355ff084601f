use zero2prod::domain::SubscriberEmail;
use zero2prod::email::{EmailClient, Outbox};
use zero2prod::routes::newsletters::{
    get_confirmed_subscribers, post_newsletter, post_newsletters, revalidate, BodyData, Broadcast,
    BroadcastAction, Content, PublishError,
};
use zero2prod::routes::subscriptions::{subscribe, ApplicationBaseUrl, FormData};
use zero2prod::routes::subscriptions_confirm::{confirm_subscription, ConfirmationQuery};
use zero2prod::routes::Fault;
use zero2prod::store::{Store, StoreError};

fn get_mock_client() -> (EmailClient, Outbox) {
    let from = SubscriberEmail::parse("newsletter@example.com".to_string()).unwrap();
    let email_client = EmailClient::new(
        "http://127.0.0.1:8025/v3/mail/send".to_string(),
        "SECRET-REDACTED".to_string(),
        from,
    );
    (email_client, Outbox::new())
}

fn extract_links(body: &str) -> Vec<String> {
    linkify::LinkFinder::new()
        .links(body)
        .filter_map(|link| match link.kind() {
            linkify::LinkKind::Url => Some(link.as_str().to_string()),
            _ => None,
        })
        .collect()
}

fn create_unconfirmed_subscriber(store: &mut Store, name: &str, email: &str) -> Vec<String> {
    let (email_client, mut outbox) = get_mock_client();
    let app_base_url = ApplicationBaseUrl("http://127.0.0.1".to_string());
    let form = FormData {
        name: name.to_string(),
        email: email.to_string(),
    };
    subscribe(form, store, &mut outbox, &email_client, &app_base_url).unwrap();
    extract_links(&outbox.requests()[0].body.content[0].value)
}

fn create_confirmed_subscriber(store: &mut Store, name: &str, email: &str) {
    let links = create_unconfirmed_subscriber(store, name, email);
    let token = links[0].split("subscription_token=").nth(1).unwrap();
    let query = ConfirmationQuery {
        subscription_token: token.to_string(),
    };
    confirm_subscription(query, store).unwrap();
}

fn issue() -> BodyData {
    BodyData {
        title: "Newsletter title".to_string(),
        content: Content {
            text: "Newsletter body as plain text".to_string(),
            html: "<p>Newsletter body as HTML</p>".to_string(),
        },
    }
}

fn recipients(outbox: &Outbox) -> Vec<String> {
    outbox
        .requests()
        .iter()
        .map(|request| request.body.personalizations[0].to[0].email.clone())
        .collect()
}

#[test]
fn newsletters_are_not_delivered_to_unconfirmed_subscribers() {
    let mut store = Store::new();
    let (email_client, mut outbox) = get_mock_client();
    create_unconfirmed_subscriber(&mut store, "le guin", "ursula_le_guin@gmail.com");

    let status = post_newsletters(Some(issue()), &store, &mut outbox, &email_client);

    assert_eq!(status, 200);
    assert!(outbox.requests().is_empty());
}

#[test]
fn newsletters_are_delivered_to_confirmed_subscribers() {
    let mut store = Store::new();
    let (email_client, mut outbox) = get_mock_client();
    create_confirmed_subscriber(&mut store, "le guin", "ursula_le_guin@gmail.com");

    let status = post_newsletters(Some(issue()), &store, &mut outbox, &email_client);

    assert_eq!(status, 200);
    assert_eq!(outbox.requests().len(), 1);
    let request = &outbox.requests()[0];
    assert_eq!(request.body.personalizations[0].subject, "Newsletter title");
    assert_eq!(request.body.content[0].value, "Newsletter body as plain text");
    assert_eq!(request.body.content[1].value, "<p>Newsletter body as HTML</p>");
}

#[test]
fn a_newsletter_reaches_the_confirmed_subscriber_and_not_the_unconfirmed_one() {
    let mut store = Store::new();
    let (email_client, mut outbox) = get_mock_client();
    create_unconfirmed_subscriber(&mut store, "atwood", "margaret_atwood@gmail.com");
    create_confirmed_subscriber(&mut store, "le guin", "ursula_le_guin@gmail.com");

    post_newsletter(issue(), &store, &mut outbox, &email_client).unwrap();

    assert_eq!(recipients(&outbox), vec!["ursula_le_guin@gmail.com"]);
}

#[test]
fn a_newsletter_to_no_one_is_a_success_that_sends_nothing() {
    let store = Store::new();
    let (email_client, mut outbox) = get_mock_client();

    let status = post_newsletters(Some(issue()), &store, &mut outbox, &email_client);

    assert_eq!(status, 200);
    assert!(outbox.requests().is_empty());
}

#[test]
fn a_newsletter_that_could_not_be_read_is_a_bad_request() {
    let mut store = Store::new();
    let (email_client, mut outbox) = get_mock_client();
    create_confirmed_subscriber(&mut store, "le guin", "ursula_le_guin@gmail.com");

    let status = post_newsletters(None, &store, &mut outbox, &email_client);

    assert_eq!(status, 400);
    assert!(outbox.requests().is_empty());
}

#[test]
fn a_refused_delivery_does_not_keep_the_others_from_their_issue() {
    let mut store = Store::new();
    let (email_client, _) = get_mock_client();
    create_confirmed_subscriber(&mut store, "le guin", "ursula_le_guin@gmail.com");
    create_confirmed_subscriber(&mut store, "atwood", "margaret_atwood@gmail.com");
    create_confirmed_subscriber(&mut store, "butler", "octavia_butler@gmail.com");
    let mut outbox = Outbox::scripted(vec![true, false, true]);

    let outcome = post_newsletter(issue(), &store, &mut outbox, &email_client);

    assert!(outcome.is_ok());
    assert_eq!(
        recipients(&outbox),
        vec!["ursula_le_guin@gmail.com", "octavia_butler@gmail.com"]
    );
}

#[test]
fn a_stored_address_that_is_no_longer_valid_is_passed_over() {
    let mut store = Store::new();
    let (email_client, _) = get_mock_client();
    create_confirmed_subscriber(&mut store, "le guin", "ursula_le_guin@gmail.com");
    let mut transaction = store.begin().unwrap();
    transaction.insert(5, "not-an-address", "atwood", 0).unwrap();
    store.commit(transaction).unwrap();
    store.confirm(5).unwrap();
    create_confirmed_subscriber(&mut store, "butler", "octavia_butler@gmail.com");
    // The second answer of the script goes to the third subscriber: the
    // address that is passed over uses none.
    let mut outbox = Outbox::scripted(vec![true, true, false]);

    let listed = get_confirmed_subscribers(&store).unwrap();
    assert_eq!(listed.len(), 3);
    assert!(listed[0].is_ok());
    assert_eq!(
        listed[1].as_ref().err().unwrap(),
        "Invalid email address: not-an-address"
    );
    assert_eq!(listed[2].as_ref().ok().unwrap().fmt(), "octavia_butler@gmail.com");

    post_newsletter(issue(), &store, &mut outbox, &email_client).unwrap();

    assert_eq!(
        recipients(&outbox),
        vec!["ursula_le_guin@gmail.com", "octavia_butler@gmail.com"]
    );
}

#[test]
fn a_store_out_of_reach_fails_the_broadcast_with_a_500() {
    let mut store = Store::new();
    let (email_client, mut outbox) = get_mock_client();
    create_confirmed_subscriber(&mut store, "le guin", "ursula_le_guin@gmail.com");
    store.set_available(false);

    match post_newsletter(issue(), &store, &mut outbox, &email_client) {
        Err(PublishError::UnexpectedError(fault)) => {
            assert_eq!(fault, Fault::Storage(StoreError::StorageError))
        }
        Ok(()) => panic!("the broadcast went through"),
    }
    assert_eq!(
        post_newsletters(Some(issue()), &store, &mut outbox, &email_client),
        500
    );
    assert!(outbox.requests().is_empty());
}

#[test]
fn a_broadcast_gives_every_subscriber_one_turn() {
    let (email_client, _) = get_mock_client();
    let listed = revalidate(vec![
        "ursula_le_guin@gmail.com".to_string(),
        "@gmail.com".to_string(),
        "octavia_butler@gmail.com".to_string(),
    ]);
    let mut broadcast = Broadcast::start(Ok(listed)).ok().unwrap();
    let body = issue();

    let mut turns = Vec::new();
    loop {
        match broadcast.next(&body, &email_client) {
            BroadcastAction::Send(request) => {
                turns.push(request.body.personalizations[0].to[0].email.clone())
            }
            BroadcastAction::Skip(reason) => turns.push(reason),
            BroadcastAction::Finish => break,
        }
    }

    assert_eq!(
        turns,
        vec![
            "ursula_le_guin@gmail.com",
            "Invalid email address: @gmail.com",
            "octavia_butler@gmail.com",
        ]
    );
    assert!(matches!(
        broadcast.next(&body, &email_client),
        BroadcastAction::Finish
    ));
}

#[test]
fn a_broadcast_does_not_start_on_a_list_that_could_not_be_had() {
    match Broadcast::start(Err(StoreError::StorageError)) {
        Err(error) => {
            assert_eq!(error.status_code(), 500);
            match error {
                PublishError::UnexpectedError(fault) => {
                    assert_eq!(fault, Fault::Storage(StoreError::StorageError))
                }
            }
        }
        Ok(_) => panic!("the broadcast started"),
    }
}
