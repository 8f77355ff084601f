//! What the service is configured with.

use crate::domain::{email_error, email_is_valid, SubscriberEmail};
use crate::email::EmailClient;
use vstd::prelude::*;

verus! {

/// The settings of one deployment.
#[derive(Debug)]
pub struct Settings {
    pub app_host: String,
    pub app_port: u16,
    pub database_url: String,
    pub email_base_url: String,
    pub email_auth_token: String,
    pub email_sender: String,
}

impl Settings {
    /// The account at the mail service that these settings describe, or why
    /// the sender's address is refused.
    pub fn email_client(&self) -> (r: Result<EmailClient, String>)
        ensures
            match r {
                Ok(client) => email_is_valid(self.email_sender@) && client.base_url()
                    == self.email_base_url@ && client.auth_token() == self.email_auth_token@
                    && client.from() == self.email_sender@,
                Err(message) => !email_is_valid(self.email_sender@) && message@ == email_error(
                    self.email_sender@,
                ),
            },
    {
        let from = SubscriberEmail::parse(self.email_sender.clone())?;
        Ok(EmailClient::new(self.email_base_url.clone(), self.email_auth_token.clone(), from))
    }
}

} // verus!
