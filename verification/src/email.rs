//! The email notifier: what is asked of the mail service for one message, and
//! an outbox that stands for the service in memory.

use crate::domain::SubscriberEmail;
use vstd::prelude::*;
use vstd::string::StringExecFns;

verus! {

/// One address, as the mail service names it.
#[derive(Debug)]
pub struct EmailAddress {
    pub email: String,
}

/// The recipients of a message and its subject line.
#[derive(Debug)]
pub struct Personalization {
    pub to: Vec<EmailAddress>,
    pub subject: String,
}

/// One rendering of a message, with its media type.
#[derive(Debug)]
pub struct Content {
    pub content_type: String,
    pub value: String,
}

/// The document that is posted to the mail service.
#[derive(Debug)]
pub struct EmailRequestBody {
    pub personalizations: Vec<Personalization>,
    pub from: EmailAddress,
    pub content: Vec<Content>,
}

/// One call of the mail service: where the body is posted, and the
/// `Authorization` header that goes with it.
#[derive(Debug)]
pub struct EmailRequest {
    pub url: String,
    pub authorization: String,
    pub body: EmailRequestBody,
}

/// Why a message did not go out.
#[derive(Clone, Copy, Debug, PartialEq, Eq, Structural)]
pub enum DeliveryError {
    /// The service answered, and refused.
    Rejected,
    /// The service did not answer in time, or could not be reached.
    Unreachable,
}

/// `request` asks the service at `url`, under `auth_token`, to send one
/// message from `from` to `to`: the plain text first, the HTML second.
pub open spec fn is_email_request(
    request: EmailRequest,
    url: Seq<char>,
    auth_token: Seq<char>,
    from: Seq<char>,
    to: Seq<char>,
    subject: Seq<char>,
    html_content: Seq<char>,
    text_content: Seq<char>,
) -> bool {
    &&& request.url@ == url
    &&& request.authorization@ == "Bearer "@ + auth_token
    &&& request.body.personalizations@.len() == 1
    &&& request.body.personalizations@[0].to@.len() == 1
    &&& request.body.personalizations@[0].to@[0].email@ == to
    &&& request.body.personalizations@[0].subject@ == subject
    &&& request.body.from.email@ == from
    &&& request.body.content@.len() == 2
    &&& request.body.content@[0].content_type@ == "text/plain"@
    &&& request.body.content@[0].value@ == text_content
    &&& request.body.content@[1].content_type@ == "text/html"@
    &&& request.body.content@[1].value@ == html_content
}

/// Whom `request` names first as the recipient of its message.
pub open spec fn recipient(request: EmailRequest) -> Seq<char> {
    request.body.personalizations@[0].to@[0].email@
}

/// The account at the mail service under which messages are sent.
pub struct EmailClient {
    base_url: String,
    auth_token: String,
    from: SubscriberEmail,
}

impl EmailClient {
    /// The address that requests are posted to.
    pub closed spec fn base_url(&self) -> Seq<char> {
        self.base_url@
    }

    /// The secret that authorizes the requests.
    pub closed spec fn auth_token(&self) -> Seq<char> {
        self.auth_token@
    }

    /// The sender of every message.
    pub closed spec fn from(&self) -> Seq<char> {
        self.from@
    }

    /// `request` is what this client asks for the given message.
    pub open spec fn asks(
        &self,
        request: EmailRequest,
        to: Seq<char>,
        subject: Seq<char>,
        html_content: Seq<char>,
        text_content: Seq<char>,
    ) -> bool {
        is_email_request(
            request,
            self.base_url(),
            self.auth_token(),
            self.from(),
            to,
            subject,
            html_content,
            text_content,
        )
    }

    /// The account that posts to `base_url` under `auth_token` and sends as
    /// `from`.
    pub fn new(base_url: String, auth_token: String, from: SubscriberEmail) -> (client: Self)
        ensures
            client.base_url() == base_url@,
            client.auth_token() == auth_token@,
            client.from() == from@,
    {
        Self { base_url, auth_token, from }
    }

    /// The request that sends one message to `to`.
    pub fn request(
        &self,
        to: &SubscriberEmail,
        subject: &str,
        html_content: &str,
        text_content: &str,
    ) -> (request: EmailRequest)
        ensures
            self.asks(request, to@, subject@, html_content@, text_content@),
    {
        let mut recipients: Vec<EmailAddress> = Vec::new();
        recipients.push(EmailAddress { email: String::from_str(to.as_ref()) });
        let mut personalizations: Vec<Personalization> = Vec::new();
        personalizations.push(
            Personalization { to: recipients, subject: String::from_str(subject) },
        );
        let mut content: Vec<Content> = Vec::new();
        content.push(
            Content {
                content_type: String::from_str("text/plain"),
                value: String::from_str(text_content),
            },
        );
        content.push(
            Content {
                content_type: String::from_str("text/html"),
                value: String::from_str(html_content),
            },
        );
        EmailRequest {
            url: self.base_url.clone(),
            authorization: String::from_str("Bearer ").concat(self.auth_token.as_str()),
            body: EmailRequestBody {
                personalizations,
                from: EmailAddress { email: String::from_str(self.from.as_ref()) },
                content,
            },
        }
    }

    /// Hands the request for one message to `outbox`, once.
    pub fn send_email(
        &self,
        outbox: &mut Outbox,
        to: &SubscriberEmail,
        subject: &str,
        html_content: &str,
        text_content: &str,
    ) -> (r: Result<(), DeliveryError>)
        ensures
            final(outbox).script() == after_attempt(old(outbox).script()),
            match r {
                Ok(()) => {
                    &&& accepts_next(old(outbox).script())
                    &&& final(outbox).sent().len() == old(outbox).sent().len() + 1
                    &&& final(outbox).sent().drop_last() == old(outbox).sent()
                    &&& self.asks(
                        final(outbox).sent().last(),
                        to@,
                        subject@,
                        html_content@,
                        text_content@,
                    )
                },
                Err(e) => {
                    &&& !accepts_next(old(outbox).script())
                    &&& e == DeliveryError::Rejected
                    &&& final(outbox).sent() == old(outbox).sent()
                },
            },
    {
        let request = self.request(to, subject, html_content, text_content);
        outbox.deliver(request)
    }
}

/// Whether a service that follows `script` takes the next request: it does
/// where the script has run out, or where its first entry says so.
pub open spec fn accepts_next(script: Seq<bool>) -> bool {
    script.len() == 0 || script[0]
}

/// What is left of `script` once one request has been answered.
pub open spec fn after_attempt(script: Seq<bool>) -> Seq<bool> {
    if script.len() == 0 {
        script
    } else {
        script.drop_first()
    }
}

/// A mail service in memory. It keeps every request that it takes, in order.
/// Made with a script, it answers its first requests as the script says,
/// one entry each, and takes every request after those.
pub struct Outbox {
    sent: Vec<EmailRequest>,
    outcomes: Vec<bool>,
    answered: usize,
}

impl Outbox {
    /// The requests taken so far, oldest first.
    pub closed spec fn sent(&self) -> Seq<EmailRequest> {
        self.sent@
    }

    /// The answers still to be given, next first.
    pub closed spec fn script(&self) -> Seq<bool> {
        if self.answered <= self.outcomes@.len() {
            self.outcomes@.skip(self.answered as int)
        } else {
            Seq::empty()
        }
    }

    /// An outbox that takes every request.
    pub fn new() -> (outbox: Self)
        ensures
            outbox.sent() == Seq::<EmailRequest>::empty(),
            outbox.script() == Seq::<bool>::empty(),
    {
        Self { sent: Vec::new(), outcomes: Vec::new(), answered: 0 }
    }

    /// An outbox that refuses its `k`-th request where `outcomes[k]` is false.
    pub fn scripted(outcomes: Vec<bool>) -> (outbox: Self)
        ensures
            outbox.sent() == Seq::<EmailRequest>::empty(),
            outbox.script() == outcomes@,
    {
        Self { sent: Vec::new(), outcomes, answered: 0 }
    }

    /// Takes `request`, or refuses it, as the script says.
    pub fn deliver(&mut self, request: EmailRequest) -> (r: Result<(), DeliveryError>)
        ensures
            final(self).script() == after_attempt(old(self).script()),
            match r {
                Ok(()) => {
                    &&& accepts_next(old(self).script())
                    &&& final(self).sent() == old(self).sent().push(request)
                },
                Err(e) => {
                    &&& !accepts_next(old(self).script())
                    &&& e == DeliveryError::Rejected
                    &&& final(self).sent() == old(self).sent()
                },
            },
    {
        let accepted = if self.answered < self.outcomes.len() {
            let accepted = self.outcomes[self.answered];
            self.answered = self.answered + 1;
            accepted
        } else {
            true
        };
        if accepted {
            self.sent.push(request);
            Ok(())
        } else {
            Err(DeliveryError::Rejected)
        }
    }

    /// The requests taken so far, oldest first.
    pub fn requests(&self) -> (sent: &Vec<EmailRequest>)
        ensures
            sent@ == self.sent(),
    {
        &self.sent
    }
}

} // verus!
