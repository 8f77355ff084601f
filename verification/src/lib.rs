//! The core of a newsletter service: who may subscribe, how a subscription is
//! confirmed, and who receives an issue.
//!
//! The crate draws random ids and tokens and reads the clock, and performs no
//! other I/O: the database and the mail service are left to its host. Every
//! workflow is cut into stages; a stage takes the outcome of the storage or
//! delivery call that the host has just made and says what is owed next. A
//! store and an outbox in memory run the same stages to completion, and the
//! properties of the workflows are proved against them.

pub mod domain;
pub mod email;
pub mod routes;
pub mod settings;
pub mod store;

pub use domain::{Subscriber, SubscriberEmail, SubscriberName};
pub use email::{EmailClient, Outbox};
pub use routes::newsletters::{
    post_newsletter, post_newsletters, BodyData, ConfirmedSubscriber, Content, PublishError,
};
pub use routes::subscriptions::{
    generate_subscription_token, post_subscriptions, subscribe, subscribe_with,
    ApplicationBaseUrl, FormData, SubscribeError,
};
pub use routes::subscriptions_confirm::{
    confirm_subscriber, confirm_subscription, get_subscriber_id_from_token,
    get_subscriptions_confirm, ConfirmSubscriptionError, ConfirmationQuery,
};
pub use routes::health_check;
pub use settings::Settings;
pub use store::{Store, StoreError, SubscriptionStatus, Transaction};
