use zero2prod::email::DeliveryError;
use zero2prod::routes::{error_chain_fmt, health_check, Fault};
use zero2prod::settings::Settings;
use zero2prod::store::StoreError;

#[test]
fn an_error_without_a_cause_is_reported_with_its_message_and_an_empty_line() {
    assert_eq!(error_chain_fmt("it failed", &vec![]), "it failed\n\n");
}

#[test]
fn the_causes_of_an_error_follow_its_message_outermost_first() {
    let causes = vec!["the store failed".to_string(), "timed out".to_string()];
    assert_eq!(
        error_chain_fmt("it failed", &causes),
        "it failed\n\nCaused by:\n\tthe store failed\nCaused by:\n\ttimed out\n"
    );
}

#[test]
fn a_fault_is_reported_with_its_cause() {
    let fault = Fault::Storage(StoreError::Conflict);
    assert_eq!(fault.message(), "the store failed");
    assert_eq!(fault.cause(), "a value that must be unique is taken");
    assert_eq!(
        fault.fmt(),
        "the store failed\n\nCaused by:\n\ta value that must be unique is taken\n"
    );
    assert_eq!(
        Fault::Storage(StoreError::StorageError).cause(),
        "the store could not be reached"
    );
    let fault = Fault::Delivery(DeliveryError::Rejected);
    assert_eq!(
        fault.fmt(),
        "the email could not be delivered\n\nCaused by:\n\tthe mail service refused the request\n"
    );
    assert_eq!(
        Fault::Delivery(DeliveryError::Unreachable).cause(),
        "the mail service could not be reached"
    );
}

fn settings(email_sender: &str) -> Settings {
    Settings {
        app_host: "127.0.0.1".to_string(),
        app_port: 8000,
        database_url: "postgres://localhost/newsletter".to_string(),
        email_base_url: "http://127.0.0.1:8025".to_string(),
        email_auth_token: "SECRET-REDACTED".to_string(),
        email_sender: email_sender.to_string(),
    }
}

#[test]
fn settings_with_a_valid_sender_give_an_email_client() {
    let client = settings("newsletter@example.com").email_client().ok().unwrap();
    let to = zero2prod::SubscriberEmail::parse("ursula_le_guin@gmail.com".to_string()).unwrap();
    let request = client.request(&to, "subject", "html", "text");
    assert_eq!(request.url, "http://127.0.0.1:8025");
    assert_eq!(request.authorization, "Bearer SECRET-REDACTED");
    assert_eq!(request.body.from.email, "newsletter@example.com");
}

#[test]
fn settings_with_an_invalid_sender_give_no_email_client() {
    let error = settings("newsletter").email_client().err().unwrap();
    assert_eq!(error, "Invalid email address: newsletter");
}

#[test]
fn health_check_works() {
    assert_eq!(health_check(), 200);
}

#[test]
fn an_error_of_a_workflow_is_reported_as_what_it_wraps() {
    let refused = zero2prod::SubscribeError::ValidationError("Invalid subscriber name: ".into());
    assert_eq!(refused.fmt(), "Invalid subscriber name: \n\n");
    let fault = Fault::Storage(StoreError::StorageError);
    assert_eq!(
        zero2prod::SubscribeError::UnexpectedError(fault).fmt(),
        "the store failed\n\nCaused by:\n\tthe store could not be reached\n"
    );

    let turned_away =
        zero2prod::ConfirmSubscriptionError::Unauthorized("Invalid subscription token".into());
    assert_eq!(turned_away.fmt(), "Invalid subscription token\n\n");
    assert_eq!(
        zero2prod::ConfirmSubscriptionError::UnexpectedError(fault).fmt(),
        fault.fmt()
    );

    assert_eq!(
        zero2prod::PublishError::UnexpectedError(fault).fmt(),
        fault.fmt()
    );
}
