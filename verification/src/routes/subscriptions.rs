//! Signing up: the form is validated, the subscriber and a confirmation token
//! are stored in one unit of work, and only then the confirmation email goes
//! out.

use crate::domain::{
    email_error, email_is_valid, name_error, name_is_valid, Subscriber, SubscriberEmail,
    SubscriberName,
};
use crate::email::{
    accepts_next, after_attempt, DeliveryError, EmailClient, EmailRequest, Outbox,
};
use crate::routes::{
    error_chain, error_chain_fmt, fault_report, Fault, BAD_REQUEST, INTERNAL_SERVER_ERROR, OK,
};
use crate::store::{
    is_pending_row, Store, StoreError, SubscriberRecord, SubscriptionStatus, Tables, TokenRecord,
    Transaction,
};
use rand::Rng;
use vstd::prelude::*;
use vstd::string::StringExecFns;

verus! {

/// What the sign-up form holds.
#[derive(Debug)]
pub struct FormData {
    pub name: String,
    pub email: String,
}

/// The address under which this service is reached from outside.
#[derive(Debug)]
pub struct ApplicationBaseUrl(pub String);

/// Why a sign-up failed.
#[derive(Debug)]
pub enum SubscribeError {
    /// The form was refused, for the reason given.
    ValidationError(String),
    /// A collaborator failed.
    UnexpectedError(Fault),
}

impl SubscribeError {
    /// The status of the response that reports this error.
    pub fn status_code(&self) -> (status: u16)
        ensures
            status == match self {
                SubscribeError::ValidationError(_) => BAD_REQUEST,
                SubscribeError::UnexpectedError(_) => INTERNAL_SERVER_ERROR,
            },
    {
        match self {
            SubscribeError::ValidationError(_) => BAD_REQUEST,
            SubscribeError::UnexpectedError(_) => INTERNAL_SERVER_ERROR,
        }
    }

    /// The report of this error: what was wrong with the form, or the
    /// report of the fault.
    pub fn fmt(&self) -> (text: String)
        ensures
            text@ == match self {
                SubscribeError::ValidationError(message) => error_chain(message@, Seq::empty()),
                SubscribeError::UnexpectedError(fault) => fault_report(*fault),
            },
    {
        match self {
            SubscribeError::ValidationError(message) => {
                let causes: Vec<String> = Vec::new();
                error_chain_fmt(message.as_str(), &causes)
            },
            SubscribeError::UnexpectedError(fault) => fault.fmt(),
        }
    }
}

/// Why a form with the given fields is refused, if it is: the name is
/// looked at first.
pub open spec fn validation_error(name: Seq<char>, email: Seq<char>) -> Option<Seq<char>> {
    if !name_is_valid(name) {
        Some(name_error(name))
    } else if !email_is_valid(email) {
        Some(email_error(email))
    } else {
        None
    }
}

impl Subscriber {
    /// The subscriber that a form describes, or why the form is refused.
    pub fn try_from(value: FormData) -> (r: Result<Self, String>)
        ensures
            match r {
                Ok(subscriber) => validation_error(value.name@, value.email@) is None
                    && subscriber.name@ == value.name@ && subscriber.email@ == value.email@,
                Err(message) => validation_error(value.name@, value.email@) == Some(message@),
            },
    {
        let name = SubscriberName::parse(value.name)?;
        let email = SubscriberEmail::parse(value.email)?;
        Ok(Self { name, email })
    }
}

/// The length of a confirmation token, in characters.
pub const TOKEN_LENGTH: usize = 25;

/// `c` is an ASCII letter or an ASCII digit.
pub open spec fn is_alphanumeric(c: char) -> bool {
    ('0' <= c && c <= '9') || ('A' <= c && c <= 'Z') || ('a' <= c && c <= 'z')
}

/// `s` has the shape of a confirmation token: `TOKEN_LENGTH` characters, each
/// an ASCII letter or digit.
pub open spec fn is_token(s: Seq<char>) -> bool {
    s.len() == TOKEN_LENGTH && forall|i: int| 0 <= i < s.len() ==> is_alphanumeric(#[trigger] s[i])
}

/// The handle to the random number generator of the current thread.
#[verifier::external_type_specification]
#[verifier::external_body]
pub struct ExThreadRng(rand::rngs::ThreadRng);

/// Calls `rand::thread_rng`, which hands out the generator of the current
/// thread. Nothing is claimed of it.
#[verifier::external_body]
fn thread_rng() -> rand::rngs::ThreadRng {
    rand::thread_rng()
}

/// Draws one character from `rng` with `rand::distributions::Alphanumeric`,
/// which yields ASCII letters and digits only. Which one comes is not
/// determined.
#[verifier::external_body]
fn sample_alphanumeric(rng: &mut rand::rngs::ThreadRng) -> (c: char)
    ensures
        is_alphanumeric(c),
{
    char::from(rng.sample(rand::distributions::Alphanumeric))
}

/// Calls `String::push`, which appends one character.
#[verifier::external_body]
fn push_char(s: &mut String, c: char)
    ensures
        final(s)@ == old(s)@.push(c),
{
    s.push(c)
}

/// A fresh confirmation token.
pub fn generate_subscription_token() -> (token: String)
    ensures
        is_token(token@),
{
    let mut rng = thread_rng();
    let mut token = String::new();
    let mut i: usize = 0;
    while i < TOKEN_LENGTH
        invariant
            i <= TOKEN_LENGTH,
            token@.len() == i,
            forall|k: int| 0 <= k < token@.len() ==> is_alphanumeric(#[trigger] token@[k]),
        decreases TOKEN_LENGTH - i,
    {
        let c = sample_alphanumeric(&mut rng);
        push_char(&mut token, c);
        i = i + 1;
    }
    token
}

/// A sign-up whose form has passed validation. Owed next: the subscriber is
/// inserted, as pending, in a unit of work opened for this sign-up.
pub struct Validated {
    subscriber: Subscriber,
}

/// A sign-up whose subscriber is in the unit of work. Owed next: a fresh token
/// is stored for the subscriber in the same unit of work.
pub struct Persisted {
    subscriber: Subscriber,
    subscriber_id: u128,
}

/// A sign-up whose token is in the unit of work. Owed next: the unit of work
/// is committed.
pub struct TokenIssued {
    subscriber: Subscriber,
    subscription_token: String,
}

/// A sign-up whose subscriber and token are stored for good. Owed next: the
/// confirmation email is sent.
pub struct Committed {
    subscriber: Subscriber,
    subscription_token: String,
}

/// The first stage: the form is validated. Nothing has been written when it
/// fails.
pub fn validate(form: FormData) -> (r: Result<Validated, SubscribeError>)
    ensures
        match r {
            Ok(validated) => {
                &&& validation_error(form.name@, form.email@) is None
                &&& validated.name() == form.name@
                &&& validated.email() == form.email@
            },
            Err(SubscribeError::ValidationError(message)) => validation_error(
                form.name@,
                form.email@,
            ) == Some(message@),
            Err(SubscribeError::UnexpectedError(_)) => false,
        },
{
    match Subscriber::try_from(form) {
        Ok(subscriber) => Ok(Validated { subscriber }),
        Err(message) => Err(SubscribeError::ValidationError(message)),
    }
}

impl Validated {
    /// The name on the form.
    pub closed spec fn name(&self) -> Seq<char> {
        self.subscriber.name@
    }

    /// The address on the form.
    pub closed spec fn email(&self) -> Seq<char> {
        self.subscriber.email@
    }

    /// Who is to be inserted.
    pub fn subscriber(&self) -> (subscriber: &Subscriber)
        ensures
            subscriber.name@ == self.name(),
            subscriber.email@ == self.email(),
    {
        &self.subscriber
    }

    /// Takes the outcome of the insertion: the id of the new subscriber, or
    /// the error of the store, which ends the sign-up.
    pub fn persisted(self, inserted: Result<u128, StoreError>) -> (r: Result<
        Persisted,
        SubscribeError,
    >)
        ensures
            match r {
                Ok(persisted) => {
                    &&& inserted == Ok::<u128, StoreError>(persisted.subscriber_id())
                    &&& persisted.name() == self.name()
                    &&& persisted.email() == self.email()
                },
                Err(e) => {
                    &&& inserted matches Err(cause)
                    &&& e == SubscribeError::UnexpectedError(Fault::Storage(cause))
                },
            },
    {
        match inserted {
            Ok(subscriber_id) => Ok(Persisted { subscriber: self.subscriber, subscriber_id }),
            Err(e) => Err(SubscribeError::UnexpectedError(Fault::Storage(e))),
        }
    }
}

impl Persisted {
    /// The name on the form.
    pub closed spec fn name(&self) -> Seq<char> {
        self.subscriber.name@
    }

    /// The address on the form.
    pub closed spec fn email(&self) -> Seq<char> {
        self.subscriber.email@
    }

    /// The id under which the subscriber was inserted.
    pub closed spec fn subscriber_id(&self) -> u128 {
        self.subscriber_id
    }

    /// Whom the token is to be stored for.
    pub fn id(&self) -> (id: u128)
        ensures
            id == self.subscriber_id(),
    {
        self.subscriber_id
    }

    /// Takes the token and the outcome of storing it.
    pub fn token_issued(
        self,
        subscription_token: String,
        stored: Result<(), StoreError>,
    ) -> (r: Result<TokenIssued, SubscribeError>)
        ensures
            match r {
                Ok(issued) => {
                    &&& stored is Ok
                    &&& issued.name() == self.name()
                    &&& issued.email() == self.email()
                    &&& issued.token() == subscription_token@
                },
                Err(e) => {
                    &&& stored matches Err(cause)
                    &&& e == SubscribeError::UnexpectedError(Fault::Storage(cause))
                },
            },
    {
        match stored {
            Ok(()) => Ok(TokenIssued { subscriber: self.subscriber, subscription_token }),
            Err(e) => Err(SubscribeError::UnexpectedError(Fault::Storage(e))),
        }
    }
}

impl TokenIssued {
    /// The name on the form.
    pub closed spec fn name(&self) -> Seq<char> {
        self.subscriber.name@
    }

    /// The address on the form.
    pub closed spec fn email(&self) -> Seq<char> {
        self.subscriber.email@
    }

    /// The token that was stored.
    pub closed spec fn token(&self) -> Seq<char> {
        self.subscription_token@
    }

    /// Takes the outcome of the commit.
    pub fn committed(self, committed: Result<(), StoreError>) -> (r: Result<
        Committed,
        SubscribeError,
    >)
        ensures
            match r {
                Ok(done) => {
                    &&& committed is Ok
                    &&& done.name() == self.name()
                    &&& done.email() == self.email()
                    &&& done.token() == self.token()
                },
                Err(e) => {
                    &&& committed matches Err(cause)
                    &&& e == SubscribeError::UnexpectedError(Fault::Storage(cause))
                },
            },
    {
        match committed {
            Ok(()) => Ok(
                Committed {
                    subscriber: self.subscriber,
                    subscription_token: self.subscription_token,
                },
            ),
            Err(e) => Err(SubscribeError::UnexpectedError(Fault::Storage(e))),
        }
    }
}

/// The subject of the confirmation email.
pub open spec fn confirmation_subject() -> Seq<char> {
    "Welcome!"@
}

/// The link that confirms the subscription behind `token`.
pub open spec fn confirmation_link(base_url: Seq<char>, token: Seq<char>) -> Seq<char> {
    base_url + "/subscriptions/confirm?subscription_token="@ + token
}

/// The HTML rendering of the confirmation email.
pub open spec fn confirmation_html(link: Seq<char>) -> Seq<char> {
    "Welcome to our newsletter!<br />Click <a href=\""@ + link
        + "\">here</a> to confirm your subscription."@
}

/// The plain rendering of the confirmation email.
pub open spec fn confirmation_text(link: Seq<char>) -> Seq<char> {
    "Welcome to our newsletter!\nVisit "@ + link + " to confirm your subscription."@
}

/// `request` is what `email_client` asks to have the confirmation email for
/// `token` sent to `email`.
pub open spec fn is_confirmation_request(
    request: EmailRequest,
    email_client: EmailClient,
    email: Seq<char>,
    base_url: Seq<char>,
    token: Seq<char>,
) -> bool {
    email_client.asks(
        request,
        email,
        confirmation_subject(),
        confirmation_html(confirmation_link(base_url, token)),
        confirmation_text(confirmation_link(base_url, token)),
    )
}

/// The request that sends the confirmation email for `subscription_token` to
/// `subscriber`.
pub fn confirmation_request(
    email_client: &EmailClient,
    subscriber: &Subscriber,
    app_base_url: &ApplicationBaseUrl,
    subscription_token: &str,
) -> (request: EmailRequest)
    ensures
        is_confirmation_request(
            request,
            *email_client,
            subscriber.email@,
            app_base_url.0@,
            subscription_token@,
        ),
{
    let confirmation_link = app_base_url.0.clone().concat(
        "/subscriptions/confirm?subscription_token=",
    ).concat(subscription_token);
    let html_content = String::from_str("Welcome to our newsletter!<br />Click <a href=\"").concat(
        confirmation_link.as_str(),
    ).concat("\">here</a> to confirm your subscription.");
    let text_content = String::from_str("Welcome to our newsletter!\nVisit ").concat(
        confirmation_link.as_str(),
    ).concat(" to confirm your subscription.");
    email_client.request(
        &subscriber.email,
        "Welcome!",
        html_content.as_str(),
        text_content.as_str(),
    )
}

impl Committed {
    /// The name on the form.
    pub closed spec fn name(&self) -> Seq<char> {
        self.subscriber.name@
    }

    /// The address on the form.
    pub closed spec fn email(&self) -> Seq<char> {
        self.subscriber.email@
    }

    /// The token that was stored.
    pub closed spec fn token(&self) -> Seq<char> {
        self.subscription_token@
    }

    /// The request that sends the confirmation email of this sign-up.
    pub fn confirmation_request(
        &self,
        email_client: &EmailClient,
        app_base_url: &ApplicationBaseUrl,
    ) -> (request: EmailRequest)
        ensures
            is_confirmation_request(
                request,
                *email_client,
                self.email(),
                app_base_url.0@,
                self.token(),
            ),
    {
        confirmation_request(
            email_client,
            &self.subscriber,
            app_base_url,
            self.subscription_token.as_str(),
        )
    }

    /// Takes the outcome of the delivery, and with it ends the sign-up. What
    /// was stored stays stored, whatever the outcome.
    pub fn complete(self, delivered: Result<(), DeliveryError>) -> (r: Result<(), SubscribeError>)
        ensures
            match r {
                Ok(()) => delivered is Ok,
                Err(e) => {
                    &&& delivered matches Err(cause)
                    &&& e == SubscribeError::UnexpectedError(Fault::Delivery(cause))
                },
            },
    {
        match delivered {
            Ok(()) => Ok(()),
            Err(e) => Err(SubscribeError::UnexpectedError(Fault::Delivery(e))),
        }
    }
}

/// `id` has the layout of a random UUID: version 4 of the RFC 4122 variant.
pub open spec fn is_version_4(id: u128) -> bool {
    (id >> 76) & 0xf == 4 && (id >> 62) & 0x3 == 2
}

/// Calls `Uuid::new_v4` and packs its bytes into one number, first byte
/// highest. The value is random; its version and variant bits are fixed.
#[verifier::external_body]
fn new_v4() -> (id: u128)
    ensures
        is_version_4(id),
{
    uuid::Uuid::new_v4().as_u128()
}

/// Calls `OffsetDateTime::now_utc` and takes the time as nanoseconds since
/// the Unix epoch. Nothing is claimed of the value.
#[verifier::external_body]
fn now_utc() -> i128 {
    time::OffsetDateTime::now_utc().unix_timestamp_nanos()
}

/// The row that makes `subscriber` a pending subscriber as of now, under a
/// fresh id.
pub fn new_subscriber_record(subscriber: &Subscriber) -> (row: SubscriberRecord)
    ensures
        is_version_4(row.id),
        is_pending_row(row, row.id, subscriber.email@, subscriber.name@, row.subscribed_at),
{
    SubscriberRecord {
        id: new_v4(),
        email: String::from_str(subscriber.email.as_ref()),
        name: String::from_str(subscriber.name.as_ref()),
        subscribed_at: now_utc(),
        status: SubscriptionStatus::PendingConfirmation,
    }
}

/// Some id with the layout of a random UUID is the id of a subscriber.
pub open spec fn some_random_id_is_taken(tables: Tables) -> bool {
    exists|id: u128| is_version_4(id) && #[trigger] tables.has_id(id)
}

/// `after` is `before` with the given subscriber inserted at some time.
pub open spec fn inserted_at_some_time(
    before: Tables,
    after: Tables,
    id: u128,
    email: Seq<char>,
    name: Seq<char>,
) -> bool {
    exists|subscribed_at: i128|
        before.inserts(after, Ok(()), id, email, name, subscribed_at)
}

/// Inserts `subscriber` into the unit of work as a pending subscriber as of
/// now, under a fresh id, which it returns.
pub fn insert_subscriber(transaction: &mut Transaction, subscriber: &Subscriber) -> (r: Result<
    u128,
    StoreError,
>)
    ensures
        final(transaction)@.wf(),
        old(transaction)@.has_email(subscriber.email@) ==> r is Err,
        r matches Ok(id) ==> is_version_4(id) && inserted_at_some_time(
            old(transaction)@,
            final(transaction)@,
            id,
            subscriber.email@,
            subscriber.name@,
        ),
        r matches Err(e) ==> {
            &&& e == StoreError::Conflict
            &&& final(transaction)@ == old(transaction)@
            &&& old(transaction)@.has_email(subscriber.email@) || some_random_id_is_taken(
                old(transaction)@,
            )
        },
        final(transaction).new_tokens() == old(transaction).new_tokens(),
        final(transaction).new_subscribers() == if r is Ok {
            old(transaction).new_subscribers().push(final(transaction)@.subscribers.last())
        } else {
            old(transaction).new_subscribers()
        },
{
    let row = new_subscriber_record(subscriber);
    match transaction.insert(row.id, row.email.as_str(), row.name.as_str(), row.subscribed_at) {
        Ok(()) => {
            proof {
                assert(old(transaction)@.inserts(
                    final(transaction)@,
                    Ok(()),
                    row.id,
                    subscriber.email@,
                    subscriber.name@,
                    row.subscribed_at,
                ));
            }
            Ok(row.id)
        },
        Err(e) => Err(e),
    }
}

/// Stores `subscription_token` for the subscriber `subscriber_id` in the unit
/// of work.
pub fn store_token(
    transaction: &mut Transaction,
    subscriber_id: u128,
    subscription_token: &str,
) -> (r: Result<(), StoreError>)
    ensures
        final(transaction)@.wf(),
        old(transaction)@.stores_token(
            final(transaction)@,
            r,
            subscription_token@,
            subscriber_id,
        ),
        final(transaction).new_subscribers() == old(transaction).new_subscribers(),
        final(transaction).new_tokens() == if r is Ok {
            old(transaction).new_tokens().push(final(transaction)@.tokens.last())
        } else {
            old(transaction).new_tokens()
        },
{
    transaction.insert_token(subscription_token, subscriber_id)
}

/// Hands the confirmation email for `subscription_token` to `outbox`, once.
pub fn send_confirmation_email(
    email_client: &EmailClient,
    outbox: &mut Outbox,
    subscriber: &Subscriber,
    app_base_url: &ApplicationBaseUrl,
    subscription_token: &str,
) -> (r: Result<(), DeliveryError>)
    ensures
        final(outbox).script() == after_attempt(old(outbox).script()),
        match r {
            Ok(()) => {
                &&& accepts_next(old(outbox).script())
                &&& gains_confirmation_request(
                    old(outbox).sent(),
                    final(outbox).sent(),
                    *email_client,
                    subscriber.email@,
                    app_base_url.0@,
                    subscription_token@,
                )
            },
            Err(e) => {
                &&& !accepts_next(old(outbox).script())
                &&& e == DeliveryError::Rejected
                &&& final(outbox).sent() == old(outbox).sent()
            },
        },
{
    let request = confirmation_request(email_client, subscriber, app_base_url, subscription_token);
    let r = outbox.deliver(request);
    proof {
        if r is Ok {
            assert(final(outbox).sent().drop_last() =~= old(outbox).sent());
        }
    }
    r
}

/// `after` is `before` with one request added at the end: the confirmation
/// email for `token`, to `email`.
pub open spec fn gains_confirmation_request(
    before: Seq<EmailRequest>,
    after: Seq<EmailRequest>,
    email_client: EmailClient,
    email: Seq<char>,
    base_url: Seq<char>,
    token: Seq<char>,
) -> bool {
    &&& after.len() == before.len() + 1
    &&& after.drop_last() == before
    &&& is_confirmation_request(after.last(), email_client, email, base_url, token)
}

/// Why the store refuses the two rows of a sign-up, if it does.
pub open spec fn registration_error(
    tables: Tables,
    subscriber_id: u128,
    email: Seq<char>,
    token: Seq<char>,
) -> Option<StoreError> {
    if !tables.available {
        Some(StoreError::StorageError)
    } else if tables.has_id(subscriber_id) || tables.has_email(email) || tables.has_token(token) {
        Some(StoreError::Conflict)
    } else {
        None
    }
}

/// `after` is `before` with the two rows of one sign-up added: the pending
/// subscriber and the token.
pub open spec fn registers(
    before: Tables,
    after: Tables,
    subscriber_id: u128,
    email: Seq<char>,
    name: Seq<char>,
    subscribed_at: i128,
    token: Seq<char>,
) -> bool {
    &&& after.subscribers.len() == before.subscribers.len() + 1
    &&& after.subscribers.drop_last() == before.subscribers
    &&& is_pending_row(after.subscribers.last(), subscriber_id, email, name, subscribed_at)
    &&& after.tokens.len() == before.tokens.len() + 1
    &&& after.tokens.drop_last() == before.tokens
    &&& after.tokens.last().subscription_token@ == token
    &&& after.tokens.last().subscriber_id == subscriber_id
    &&& after.available == before.available
}

/// One sign-up: what it was given, the store and the mail service before and
/// after it, and how it ended.
pub struct SignUp {
    /// The name on the form.
    pub name: Seq<char>,
    /// The address on the form.
    pub email: Seq<char>,
    /// The address of this service, which the confirmation link starts with.
    pub base_url: Seq<char>,
    /// The account that the confirmation email is sent from.
    pub email_client: EmailClient,
    /// The id drawn for the subscriber.
    pub subscriber_id: u128,
    /// The time taken for the subscriber.
    pub subscribed_at: i128,
    /// The token drawn for the subscriber.
    pub token: Seq<char>,
    /// The tables before.
    pub tables: Tables,
    /// What the mail service had taken before.
    pub sent: Seq<EmailRequest>,
    /// The answers that the mail service had still to give before.
    pub script: Seq<bool>,
    /// The tables after.
    pub tables_after: Tables,
    /// What the mail service has taken after.
    pub sent_after: Seq<EmailRequest>,
    /// The answers that the mail service has still to give after.
    pub script_after: Seq<bool>,
    /// How the sign-up ended.
    pub outcome: Result<(), SubscribeError>,
}

impl SignUp {
    /// Nothing was written and nothing was sent.
    pub open spec fn changes_nothing(self) -> bool {
        &&& self.tables_after == self.tables
        &&& self.sent_after == self.sent
        &&& self.script_after == self.script
    }

    /// What a sign-up does. A form that fails validation is refused before
    /// anything is written. Then both rows are written or neither. Only when
    /// they are written is the email attempted, and they stay written
    /// whatever comes of it.
    pub open spec fn holds(self) -> bool {
        match validation_error(self.name, self.email) {
            Some(message) => {
                &&& self.outcome matches Err(SubscribeError::ValidationError(m))
                &&& m@ == message
                &&& self.changes_nothing()
            },
            None => match registration_error(
                self.tables,
                self.subscriber_id,
                self.email,
                self.token,
            ) {
                Some(e) => {
                    &&& self.outcome == Err::<(), SubscribeError>(
                        SubscribeError::UnexpectedError(Fault::Storage(e)),
                    )
                    &&& self.changes_nothing()
                },
                None => {
                    &&& registers(
                        self.tables,
                        self.tables_after,
                        self.subscriber_id,
                        self.email,
                        self.name,
                        self.subscribed_at,
                        self.token,
                    )
                    &&& self.script_after == after_attempt(self.script)
                    &&& if accepts_next(self.script) {
                        &&& self.outcome is Ok
                        &&& gains_confirmation_request(
                            self.sent,
                            self.sent_after,
                            self.email_client,
                            self.email,
                            self.base_url,
                            self.token,
                        )
                    } else {
                        &&& self.outcome == Err::<(), SubscribeError>(
                            SubscribeError::UnexpectedError(
                                Fault::Delivery(DeliveryError::Rejected),
                            ),
                        )
                        &&& self.sent_after == self.sent
                    }
                },
            },
        }
    }
}

/// A commit of the two rows of a sign-up that clash with none goes through.
proof fn lemma_commit_registers(
    before: Tables,
    after: Tables,
    outcome: Result<(), StoreError>,
    subscriber: SubscriberRecord,
    token: TokenRecord,
)
    requires
        before.available,
        !before.has_id(subscriber.id),
        !before.has_email(subscriber.email@),
        !before.has_token(token.subscription_token@),
        subscriber.status == SubscriptionStatus::PendingConfirmation,
        token.subscriber_id == subscriber.id,
        before.commits(after, outcome, seq![subscriber], seq![token]),
    ensures
        outcome is Ok,
        registers(
            before,
            after,
            subscriber.id,
            subscriber.email@,
            subscriber.name@,
            subscriber.subscribed_at,
            token.subscription_token@,
        ),
{
    let with_subscriber = before.with_rows(seq![subscriber], Seq::empty());
    assert(with_subscriber.subscribers[before.subscribers.len() as int].id == token.subscriber_id);
    assert(!before.leaves_orphans(seq![subscriber], seq![token]));
    let all = before.with_rows(seq![subscriber], seq![token]);
    assert(all.subscribers.drop_last() =~= before.subscribers);
    assert(all.tokens.drop_last() =~= before.tokens);
}

/// Takes a sign-up whose form has passed validation through its remaining
/// stages, under the given id, time and token.
fn register_and_notify(
    validated: Validated,
    store: &mut Store,
    outbox: &mut Outbox,
    email_client: &EmailClient,
    app_base_url: &ApplicationBaseUrl,
    subscriber_id: u128,
    subscribed_at: i128,
    subscription_token: String,
) -> (r: Result<(), SubscribeError>)
    requires
        validation_error(validated.name(), validated.email()) is None,
    ensures
        final(store)@.wf(),
        (SignUp {
            name: validated.name(),
            email: validated.email(),
            base_url: app_base_url.0@,
            email_client: *email_client,
            subscriber_id,
            subscribed_at,
            token: subscription_token@,
            tables: old(store)@,
            sent: old(outbox).sent(),
            script: old(outbox).script(),
            tables_after: final(store)@,
            sent_after: final(outbox).sent(),
            script_after: final(outbox).script(),
            outcome: r,
        }).holds(),
{
    proof {
        use_type_invariant(&*store);
    }
    let mut transaction = match store.begin() {
        Ok(transaction) => transaction,
        Err(e) => {
            return Err(SubscribeError::UnexpectedError(Fault::Storage(e)));
        },
    };
    let inserted = match transaction.insert(
        subscriber_id,
        validated.subscriber().email.as_ref(),
        validated.subscriber().name.as_ref(),
        subscribed_at,
    ) {
        Ok(()) => Ok(subscriber_id),
        Err(e) => Err(e),
    };
    let persisted = validated.persisted(inserted)?;
    let stored = store_token(&mut transaction, persisted.id(), subscription_token.as_str());
    let issued = persisted.token_issued(subscription_token, stored)?;
    let ghost subscriber = transaction@.subscribers.last();
    let ghost token = transaction@.tokens.last();
    let outcome = store.commit(transaction);
    proof {
        assert(transaction.new_subscribers() =~= seq![subscriber]);
        assert(transaction.new_tokens() =~= seq![token]);
        lemma_commit_registers(old(store)@, store@, outcome, subscriber, token);
    }
    let committed = issued.committed(outcome)?;
    let request = committed.confirmation_request(email_client, app_base_url);
    let delivered = outbox.deliver(request);
    proof {
        if delivered is Ok {
            assert(final(outbox).sent().drop_last() =~= old(outbox).sent());
        }
    }
    committed.complete(delivered)
}

/// Signs up whoever `form` describes, under the given id, time and token.
pub fn subscribe_with(
    form: FormData,
    store: &mut Store,
    outbox: &mut Outbox,
    email_client: &EmailClient,
    app_base_url: &ApplicationBaseUrl,
    subscriber_id: u128,
    subscribed_at: i128,
    subscription_token: String,
) -> (r: Result<(), SubscribeError>)
    ensures
        final(store)@.wf(),
        (SignUp {
            name: form.name@,
            email: form.email@,
            base_url: app_base_url.0@,
            email_client: *email_client,
            subscriber_id,
            subscribed_at,
            token: subscription_token@,
            tables: old(store)@,
            sent: old(outbox).sent(),
            script: old(outbox).script(),
            tables_after: final(store)@,
            sent_after: final(outbox).sent(),
            script_after: final(outbox).script(),
            outcome: r,
        }).holds(),
{
    proof {
        use_type_invariant(&*store);
    }
    let validated = validate(form)?;
    register_and_notify(
        validated,
        store,
        outbox,
        email_client,
        app_base_url,
        subscriber_id,
        subscribed_at,
        subscription_token,
    )
}

/// Some id has the layout of a random UUID, and some text the shape of a
/// token.
proof fn lemma_draws_exist() -> (draw: (u128, Seq<char>))
    ensures
        is_version_4(draw.0),
        is_token(draw.1),
{
    let id: u128 = 0x4000_8000_0000_0000_0000;
    assert((id >> 76) & 0xf == 4 && (id >> 62) & 0x3 == 2) by (bit_vector)
        requires
            id == 0x4000_8000_0000_0000_0000u128,
    ;
    (id, Seq::new(TOKEN_LENGTH as nat, |i: int| '0'))
}

/// Signs up whoever `form` describes, as of now, under a fresh id and a fresh
/// token. Nothing is drawn for a form that fails validation.
pub fn subscribe(
    form: FormData,
    store: &mut Store,
    outbox: &mut Outbox,
    email_client: &EmailClient,
    app_base_url: &ApplicationBaseUrl,
) -> (r: Result<(), SubscribeError>)
    ensures
        final(store)@.wf(),
        exists|subscriber_id: u128, subscribed_at: i128, token: Seq<char>|
            is_version_4(subscriber_id) && is_token(token) && (SignUp {
                name: form.name@,
                email: form.email@,
                base_url: app_base_url.0@,
                email_client: *email_client,
                subscriber_id,
                subscribed_at,
                token,
                tables: old(store)@,
                sent: old(outbox).sent(),
                script: old(outbox).script(),
                tables_after: final(store)@,
                sent_after: final(outbox).sent(),
                script_after: final(outbox).script(),
                outcome: r,
            }).holds(),
{
    proof {
        use_type_invariant(&*store);
    }
    let validated = match validate(form) {
        Ok(validated) => validated,
        Err(e) => {
            proof {
                let draw = lemma_draws_exist();
                assert((SignUp {
                    name: form.name@,
                    email: form.email@,
                    base_url: app_base_url.0@,
                    email_client: *email_client,
                    subscriber_id: draw.0,
                    subscribed_at: 0,
                    token: draw.1,
                    tables: old(store)@,
                    sent: old(outbox).sent(),
                    script: old(outbox).script(),
                    tables_after: store@,
                    sent_after: outbox.sent(),
                    script_after: outbox.script(),
                    outcome: Err::<(), SubscribeError>(e),
                }).holds());
            }
            return Err(e);
        },
    };
    let subscriber_id = new_v4();
    let subscribed_at = now_utc();
    let subscription_token = generate_subscription_token();
    register_and_notify(
        validated,
        store,
        outbox,
        email_client,
        app_base_url,
        subscriber_id,
        subscribed_at,
        subscription_token,
    )
}

/// A sign-up whose name or address fails validation is refused as a
/// validation error, and nothing is written or sent.
pub proof fn lemma_invalid_form_is_refused(sign_up: SignUp)
    requires
        sign_up.holds(),
        !name_is_valid(sign_up.name) || !email_is_valid(sign_up.email),
    ensures
        sign_up.outcome matches Err(SubscribeError::ValidationError(_)),
        sign_up.changes_nothing(),
{
}

/// The two rows of a sign-up are written together or not at all: where the
/// token cannot be stored though the subscriber could be inserted, no
/// subscriber has been added. And whenever the store is the cause of a
/// failure, nothing is written and nothing is sent.
pub proof fn lemma_sign_up_is_atomic(sign_up: SignUp)
    requires
        sign_up.holds(),
    ensures
        sign_up.tables_after == sign_up.tables || registers(
            sign_up.tables,
            sign_up.tables_after,
            sign_up.subscriber_id,
            sign_up.email,
            sign_up.name,
            sign_up.subscribed_at,
            sign_up.token,
        ),
        validation_error(sign_up.name, sign_up.email) is None && sign_up.tables.has_token(
            sign_up.token,
        ) ==> sign_up.outcome is Err && sign_up.changes_nothing(),
        sign_up.outcome matches Err(SubscribeError::UnexpectedError(Fault::Storage(_)))
            ==> sign_up.changes_nothing(),
{
}

/// The email is attempted only after both rows are written, and a refused
/// email leaves them written.
pub proof fn lemma_email_follows_commit(sign_up: SignUp)
    requires
        sign_up.holds(),
        sign_up.script_after != sign_up.script || sign_up.sent_after != sign_up.sent,
    ensures
        registers(
            sign_up.tables,
            sign_up.tables_after,
            sign_up.subscriber_id,
            sign_up.email,
            sign_up.name,
            sign_up.subscribed_at,
            sign_up.token,
        ),
{
}

/// The status that answers a sign-up with the given outcome.
pub open spec fn status_of(outcome: Result<(), SubscribeError>) -> u16 {
    match outcome {
        Ok(()) => OK,
        Err(SubscribeError::ValidationError(_)) => BAD_REQUEST,
        Err(SubscribeError::UnexpectedError(_)) => INTERNAL_SERVER_ERROR,
    }
}

/// Answers `POST /subscriptions`: the status of the response. A request
/// whose form could not be read is a bad request, and touches nothing.
pub fn post_subscriptions(
    form: Option<FormData>,
    store: &mut Store,
    outbox: &mut Outbox,
    email_client: &EmailClient,
    app_base_url: &ApplicationBaseUrl,
) -> (status: u16)
    ensures
        final(store)@.wf(),
        match form {
            None => status == BAD_REQUEST && final(store)@ == old(store)@ && final(outbox).sent()
                == old(outbox).sent() && final(outbox).script() == old(outbox).script(),
            Some(form) => exists|
                subscriber_id: u128,
                subscribed_at: i128,
                token: Seq<char>,
                outcome: Result<(), SubscribeError>,
            |
                is_version_4(subscriber_id) && is_token(token) && status == status_of(outcome)
                    && (SignUp {
                    name: form.name@,
                    email: form.email@,
                    base_url: app_base_url.0@,
                    email_client: *email_client,
                    subscriber_id,
                    subscribed_at,
                    token,
                    tables: old(store)@,
                    sent: old(outbox).sent(),
                    script: old(outbox).script(),
                    tables_after: final(store)@,
                    sent_after: final(outbox).sent(),
                    script_after: final(outbox).script(),
                    outcome,
                }).holds(),
        },
{
    proof {
        use_type_invariant(&*store);
    }
    match form {
        None => BAD_REQUEST,
        Some(form) => {
            let outcome = subscribe(form, store, outbox, email_client, app_base_url);
            match &outcome {
                Ok(()) => OK,
                Err(e) => e.status_code(),
            }
        },
    }
}

} // verus!
