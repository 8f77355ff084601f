//! Broadcasting an issue: every confirmed subscriber whose stored address is
//! still valid is sent the issue, each on its own.

use crate::domain::{email_error, email_is_valid, SubscriberEmail};
use crate::email::{
    accepts_next, after_attempt, recipient, EmailClient, EmailRequest, Outbox,
};
use crate::routes::{fault_report, texts, Fault, BAD_REQUEST, INTERNAL_SERVER_ERROR, OK};
use crate::store::{
    confirmed_rows, Store, StoreError, SubscriberRecord, SubscriptionStatus, Tables,
};
use vstd::prelude::*;

verus! {

/// One issue of the newsletter.
#[derive(Debug)]
pub struct BodyData {
    pub title: String,
    pub content: Content,
}

/// The two renderings of an issue.
#[derive(Debug)]
pub struct Content {
    pub html: String,
    pub text: String,
}

/// Why a broadcast failed.
#[derive(Debug)]
pub enum PublishError {
    /// A collaborator failed.
    UnexpectedError(Fault),
}

impl PublishError {
    /// The status of the response that reports this error.
    pub fn status_code(&self) -> (status: u16)
        ensures
            status == INTERNAL_SERVER_ERROR,
    {
        match self {
            PublishError::UnexpectedError(_) => INTERNAL_SERVER_ERROR,
        }
    }

    /// The report of this error: the report of the fault.
    pub fn fmt(&self) -> (text: String)
        ensures
            text@ == match self {
                PublishError::UnexpectedError(fault) => fault_report(*fault),
            },
    {
        match self {
            PublishError::UnexpectedError(fault) => fault.fmt(),
        }
    }
}

/// A confirmed subscriber whose stored address is valid.
#[derive(Debug)]
pub struct ConfirmedSubscriber {
    pub email: SubscriberEmail,
}

impl ConfirmedSubscriber {
    /// The subscriber in words: the address.
    pub fn fmt(&self) -> (text: String)
        ensures
            text@ == self.email@,
    {
        self.email.as_ref().to_owned()
    }
}

/// The addresses of `rows`, in their order.
pub open spec fn emails_of(rows: Seq<SubscriberRecord>) -> Seq<Seq<char>> {
    Seq::new(rows.len(), |i: int| rows[i].email@)
}

/// `subscribers` is what the stored addresses `emails` are read as: each
/// valid address as a subscriber, each other one as the reason why it is
/// refused.
pub open spec fn reads(
    emails: Seq<Seq<char>>,
    subscribers: Seq<Result<ConfirmedSubscriber, String>>,
) -> bool {
    &&& subscribers.len() == emails.len()
    &&& forall|k: int|
        0 <= k < emails.len() ==> match #[trigger] subscribers[k] {
            Ok(subscriber) => email_is_valid(emails[k]) && subscriber.email@ == emails[k],
            Err(message) => !email_is_valid(emails[k]) && message@ == email_error(emails[k]),
        }
}

/// Reads stored addresses: each is validated again.
pub fn revalidate(emails: Vec<String>) -> (subscribers: Vec<Result<ConfirmedSubscriber, String>>)
    ensures
        reads(texts(emails@), subscribers@),
{
    let mut subscribers: Vec<Result<ConfirmedSubscriber, String>> = Vec::new();
    let mut i: usize = 0;
    while i < emails.len()
        invariant
            i <= emails@.len(),
            reads(texts(emails@).take(i as int), subscribers@),
        decreases emails@.len() - i,
    {
        let subscriber = match SubscriberEmail::parse(emails[i].clone()) {
            Ok(email) => Ok(ConfirmedSubscriber { email }),
            Err(error) => Err(error),
        };
        subscribers.push(subscriber);
        i = i + 1;
    }
    subscribers
}

/// The confirmed subscribers, in the order of their insertion, each read
/// from its stored address.
pub fn get_confirmed_subscribers(store: &Store) -> (r: Result<
    Vec<Result<ConfirmedSubscriber, String>>,
    StoreError,
>)
    ensures
        match r {
            Ok(subscribers) => store@.available && reads(
                emails_of(store@.confirmed()),
                subscribers@,
            ),
            Err(e) => !store@.available && e == StoreError::StorageError,
        },
{
    let rows = store.list_confirmed()?;
    let mut emails: Vec<String> = Vec::new();
    let mut i: usize = 0;
    while i < rows.len()
        invariant
            i <= rows@.len(),
            emails@.len() == i,
            forall|k: int| 0 <= k < i ==> (#[trigger] emails@[k])@ == rows@[k].1@,
        decreases rows@.len() - i,
    {
        emails.push(rows[i].1.clone());
        i = i + 1;
    }
    let subscribers = revalidate(emails);
    proof {
        assert(texts(emails@) =~= emails_of(store@.confirmed()));
    }
    Ok(subscribers)
}

/// What a broadcast owes next.
pub enum BroadcastAction {
    /// This request is to be sent. Whatever comes of it, the broadcast goes
    /// on.
    Send(EmailRequest),
    /// A stored address was refused, for the reason given, and is passed
    /// over.
    Skip(String),
    /// Every subscriber has had a turn.
    Finish,
}

/// A broadcast under way: the subscribers that have not had their turn.
pub struct Broadcast {
    subscribers: Vec<Result<ConfirmedSubscriber, String>>,
    position: usize,
}

impl Broadcast {
    /// Who has not had a turn, next first.
    pub closed spec fn remaining(&self) -> Seq<Result<ConfirmedSubscriber, String>> {
        if self.position <= self.subscribers@.len() {
            self.subscribers@.skip(self.position as int)
        } else {
            Seq::empty()
        }
    }

    /// The first stage: takes what the store listed. Only a store that
    /// could not list its subscribers fails a broadcast.
    pub fn start(listed: Result<Vec<Result<ConfirmedSubscriber, String>>, StoreError>) -> (r:
        Result<Broadcast, PublishError>)
        ensures
            match r {
                Ok(broadcast) => {
                    &&& listed matches Ok(subscribers)
                    &&& broadcast.remaining() == subscribers@
                },
                Err(e) => {
                    &&& listed matches Err(cause)
                    &&& e == PublishError::UnexpectedError(Fault::Storage(cause))
                },
            },
    {
        match listed {
            Ok(subscribers) => Ok(Broadcast { subscribers, position: 0 }),
            Err(e) => Err(PublishError::UnexpectedError(Fault::Storage(e))),
        }
    }

    /// Gives the next subscriber a turn, and says what is owed for it.
    pub fn next(&mut self, body: &BodyData, email_client: &EmailClient) -> (action: BroadcastAction)
        ensures
            final(self).remaining() == if old(self).remaining().len() == 0 {
                old(self).remaining()
            } else {
                old(self).remaining().drop_first()
            },
            match action {
                BroadcastAction::Send(request) => {
                    &&& old(self).remaining().len() > 0
                    &&& old(self).remaining()[0] matches Ok(subscriber)
                    &&& email_client.asks(
                        request,
                        subscriber.email@,
                        body.title@,
                        body.content.html@,
                        body.content.text@,
                    )
                },
                BroadcastAction::Skip(reason) => {
                    &&& old(self).remaining().len() > 0
                    &&& old(self).remaining()[0] matches Err(message)
                    &&& reason@ == message@
                },
                BroadcastAction::Finish => old(self).remaining().len() == 0,
            },
    {
        if self.position >= self.subscribers.len() {
            return BroadcastAction::Finish;
        }
        let action = match &self.subscribers[self.position] {
            Ok(subscriber) => BroadcastAction::Send(
                email_client.request(
                    &subscriber.email,
                    body.title.as_str(),
                    body.content.html.as_str(),
                    body.content.text.as_str(),
                ),
            ),
            Err(message) => BroadcastAction::Skip(message.clone()),
        };
        self.position = self.position + 1;
        action
    }
}

/// The addresses that a broadcast to `emails` reaches when the mail service
/// follows `script`: those that are valid and whose request is taken.
pub open spec fn reached(emails: Seq<Seq<char>>, script: Seq<bool>) -> Seq<Seq<char>>
    decreases emails.len(),
{
    if emails.len() == 0 {
        Seq::empty()
    } else if !email_is_valid(emails[0]) {
        reached(emails.drop_first(), script)
    } else if accepts_next(script) {
        seq![emails[0]] + reached(emails.drop_first(), after_attempt(script))
    } else {
        reached(emails.drop_first(), after_attempt(script))
    }
}

/// What is left of `script` after a broadcast to `emails`: one entry is used
/// for each valid address.
pub open spec fn script_after(emails: Seq<Seq<char>>, script: Seq<bool>) -> Seq<bool>
    decreases emails.len(),
{
    if emails.len() == 0 {
        script
    } else if !email_is_valid(emails[0]) {
        script_after(emails.drop_first(), script)
    } else {
        script_after(emails.drop_first(), after_attempt(script))
    }
}

/// `after` is `before` with one request added for each of `recipients`, in
/// their order: the request of `email_client` that sends them the issue.
pub open spec fn gains_issue(
    before: Seq<EmailRequest>,
    after: Seq<EmailRequest>,
    recipients: Seq<Seq<char>>,
    email_client: EmailClient,
    title: Seq<char>,
    html: Seq<char>,
    text: Seq<char>,
) -> bool {
    &&& after.len() == before.len() + recipients.len()
    &&& after.take(before.len() as int) == before
    &&& forall|k: int|
        0 <= k < recipients.len() ==> email_client.asks(
            #[trigger] after[before.len() + k],
            recipients[k],
            title,
            html,
            text,
        )
}

/// One broadcast: the issue it was given, the store that it read, the mail
/// service before and after it, and how it ended.
pub struct Publication {
    /// The title of the issue.
    pub title: Seq<char>,
    /// The HTML rendering of the issue.
    pub html: Seq<char>,
    /// The plain rendering of the issue.
    pub text: Seq<char>,
    /// The account that the issue is sent from.
    pub email_client: EmailClient,
    /// The tables, which a broadcast does not change.
    pub tables: Tables,
    /// What the mail service had taken before.
    pub sent: Seq<EmailRequest>,
    /// The answers that the mail service had still to give before.
    pub script: Seq<bool>,
    /// What the mail service has taken after.
    pub sent_after: Seq<EmailRequest>,
    /// The answers that the mail service has still to give after.
    pub script_after: Seq<bool>,
    /// How the broadcast ended.
    pub outcome: Result<(), PublishError>,
}

impl Publication {
    /// The stored addresses of the confirmed subscribers.
    pub open spec fn audience(self) -> Seq<Seq<char>> {
        emails_of(self.tables.confirmed())
    }

    /// What a broadcast does. It fails only where the store cannot list its
    /// subscribers, and then sends nothing. Else every confirmed subscriber
    /// with a valid address is tried once, in order, and no one else is.
    pub open spec fn holds(self) -> bool {
        if !self.tables.available {
            &&& self.outcome == Err::<(), PublishError>(
                PublishError::UnexpectedError(Fault::Storage(StoreError::StorageError)),
            )
            &&& self.sent_after == self.sent
            &&& self.script_after == self.script
        } else {
            &&& self.outcome is Ok
            &&& self.script_after == script_after(self.audience(), self.script)
            &&& gains_issue(
                self.sent,
                self.sent_after,
                reached(self.audience(), self.script),
                self.email_client,
                self.title,
                self.html,
                self.text,
            )
        }
    }
}

/// What the turn of `emails[turn]` adds to a broadcast.
proof fn lemma_turn(emails: Seq<Seq<char>>, turn: int, script: Seq<bool>)
    requires
        0 <= turn < emails.len(),
    ensures
        reached(emails.skip(turn), script) == if !email_is_valid(emails[turn]) {
            reached(emails.skip(turn + 1), script)
        } else if accepts_next(script) {
            seq![emails[turn]] + reached(emails.skip(turn + 1), after_attempt(script))
        } else {
            reached(emails.skip(turn + 1), after_attempt(script))
        },
        script_after(emails.skip(turn), script) == if !email_is_valid(emails[turn]) {
            script_after(emails.skip(turn + 1), script)
        } else {
            script_after(emails.skip(turn + 1), after_attempt(script))
        },
{
    assert(emails.skip(turn).drop_first() =~= emails.skip(turn + 1));
}

/// One more request, for one more recipient.
proof fn lemma_gains_one_more(
    before: Seq<EmailRequest>,
    after: Seq<EmailRequest>,
    recipients: Seq<Seq<char>>,
    request: EmailRequest,
    to: Seq<char>,
    email_client: EmailClient,
    title: Seq<char>,
    html: Seq<char>,
    text: Seq<char>,
)
    requires
        gains_issue(before, after, recipients, email_client, title, html, text),
        email_client.asks(request, to, title, html, text),
    ensures
        gains_issue(
            before,
            after.push(request),
            recipients.push(to),
            email_client,
            title,
            html,
            text,
        ),
{
    let grown = after.push(request);
    assert(grown.take(before.len() as int) =~= after.take(before.len() as int));
    assert forall|k: int| 0 <= k < recipients.len() + 1 implies email_client.asks(
        #[trigger] grown[before.len() + k],
        recipients.push(to)[k],
        title,
        html,
        text,
    ) by {
        if k < recipients.len() {
            assert(grown[before.len() + k] == after[before.len() + k]);
        }
    }
}

/// Sends the issue `body` to every confirmed subscriber. The store is only
/// read.
pub fn post_newsletter(
    body: BodyData,
    store: &Store,
    outbox: &mut Outbox,
    email_client: &EmailClient,
) -> (r: Result<(), PublishError>)
    ensures
        (Publication {
            title: body.title@,
            html: body.content.html@,
            text: body.content.text@,
            email_client: *email_client,
            tables: store@,
            sent: old(outbox).sent(),
            script: old(outbox).script(),
            sent_after: final(outbox).sent(),
            script_after: final(outbox).script(),
            outcome: r,
        }).holds(),
{
    let mut broadcast = Broadcast::start(get_confirmed_subscribers(store))?;
    let ghost emails = emails_of(store@.confirmed());
    let ghost subscribers = broadcast.remaining();
    let ghost mut turn: int = 0;
    let ghost mut served: Seq<Seq<char>> = Seq::empty();
    proof {
        assert(emails.skip(0) =~= emails);
        assert(outbox.sent().take(outbox.sent().len() as int) =~= outbox.sent());
    }
    loop
        invariant
            reads(emails, subscribers),
            0 <= turn <= emails.len(),
            broadcast.remaining() == subscribers.skip(turn),
            reached(emails, old(outbox).script()) == served + reached(
                emails.skip(turn),
                outbox.script(),
            ),
            script_after(emails, old(outbox).script()) == script_after(
                emails.skip(turn),
                outbox.script(),
            ),
            gains_issue(
                old(outbox).sent(),
                outbox.sent(),
                served,
                *email_client,
                body.title@,
                body.content.html@,
                body.content.text@,
            ),
        ensures
            turn == emails.len(),
        decreases emails.len() - turn,
    {
        let ghost sent = outbox.sent();
        let ghost script = outbox.script();
        proof {
            if turn < emails.len() {
                lemma_turn(emails, turn, script);
            }
        }
        match broadcast.next(&body, email_client) {
            BroadcastAction::Send(request) => {
                let delivered = outbox.deliver(request);
                proof {
                    if delivered is Ok {
                        lemma_gains_one_more(
                            old(outbox).sent(),
                            sent,
                            served,
                            request,
                            emails[turn],
                            *email_client,
                            body.title@,
                            body.content.html@,
                            body.content.text@,
                        );
                        served = served.push(emails[turn]);
                    }
                    turn = turn + 1;
                }
            },
            BroadcastAction::Skip(_) => {
                proof {
                    turn = turn + 1;
                }
            },
            BroadcastAction::Finish => {
                break ;
            },
        }
    }
    Ok(())
}

/// Whoever a broadcast reaches is among those it was addressed to, and has a
/// valid address.
pub proof fn lemma_reached_are_addressed(emails: Seq<Seq<char>>, script: Seq<bool>, k: int)
    requires
        0 <= k < reached(emails, script).len(),
    ensures
        emails.contains(reached(emails, script)[k]),
        email_is_valid(reached(emails, script)[k]),
    decreases emails.len(),
{
    if emails.len() > 0 {
        let rest = emails.drop_first();
        if !email_is_valid(emails[0]) {
            lemma_reached_are_addressed(rest, script, k);
            let i = choose|i: int| 0 <= i < rest.len() && rest[i] == reached(emails, script)[k];
            assert(emails[i + 1] == rest[i]);
        } else if accepts_next(script) && k == 0 {
            assert(emails[0] == reached(emails, script)[k]);
        } else {
            let j = if accepts_next(script) {
                k - 1
            } else {
                k
            };
            lemma_reached_are_addressed(rest, after_attempt(script), j);
            let i = choose|i: int|
                0 <= i < rest.len() && rest[i] == reached(rest, after_attempt(script))[j];
            assert(emails[i + 1] == rest[i]);
        }
    }
}

/// Every row among the confirmed rows of `rows` is a row of `rows`, and is
/// confirmed.
pub proof fn lemma_confirmed_rows_are_confirmed(rows: Seq<SubscriberRecord>, k: int)
    requires
        0 <= k < confirmed_rows(rows).len(),
    ensures
        rows.contains(confirmed_rows(rows)[k]),
        confirmed_rows(rows)[k].status == SubscriptionStatus::Confirmed,
    decreases rows.len(),
{
    if rows.len() > 0 {
        let rest = rows.drop_last();
        if rows.last().status == SubscriptionStatus::Confirmed && k == confirmed_rows(rest).len() {
            assert(rows[rows.len() - 1] == confirmed_rows(rows)[k]);
        } else {
            lemma_confirmed_rows_are_confirmed(rest, k);
            let i = choose|i: int| 0 <= i < rest.len() && rest[i] == confirmed_rows(rest)[k];
            assert(rows[i] == rest[i]);
        }
    }
}

/// Some subscriber with the given status has the address `email`.
pub open spec fn is_address_of(
    tables: Tables,
    status: SubscriptionStatus,
    email: Seq<char>,
) -> bool {
    exists|i: int|
        0 <= i < tables.subscribers.len() && (#[trigger] tables.subscribers[i]).status == status
            && tables.subscribers[i].email@ == email
}

/// Only confirmed subscribers receive an issue: every request that a
/// broadcast has the mail service take goes to the address of a confirmed
/// subscriber, and none to the address of a pending one.
pub proof fn lemma_only_confirmed_receive(publication: Publication)
    requires
        publication.tables.wf(),
        publication.holds(),
    ensures
        forall|k: int|
            publication.sent.len() <= k < publication.sent_after.len() ==> {
                &&& is_address_of(
                    publication.tables,
                    SubscriptionStatus::Confirmed,
                    recipient(#[trigger] publication.sent_after[k]),
                )
                &&& !is_address_of(
                    publication.tables,
                    SubscriptionStatus::PendingConfirmation,
                    recipient(publication.sent_after[k]),
                )
            },
{
    let rows = publication.tables.subscribers;
    let audience = publication.audience();
    let served = reached(audience, publication.script);
    assert forall|k: int| publication.sent.len() <= k < publication.sent_after.len() implies {
        &&& is_address_of(
            publication.tables,
            SubscriptionStatus::Confirmed,
            recipient(#[trigger] publication.sent_after[k]),
        )
        &&& !is_address_of(
            publication.tables,
            SubscriptionStatus::PendingConfirmation,
            recipient(publication.sent_after[k]),
        )
    } by {
        let turn = k - publication.sent.len();
        let to = served[turn];
        assert(publication.sent_after[publication.sent.len() + turn] == publication.sent_after[k]);
        assert(recipient(publication.sent_after[k]) == to);
        lemma_reached_are_addressed(audience, publication.script, turn);
        let a = choose|a: int| 0 <= a < audience.len() && audience[a] == to;
        lemma_confirmed_rows_are_confirmed(rows, a);
        let j = choose|j: int| 0 <= j < rows.len() && rows[j] == confirmed_rows(rows)[a];
        assert(rows[j].status == SubscriptionStatus::Confirmed && rows[j].email@ == to);
        if is_address_of(publication.tables, SubscriptionStatus::PendingConfirmation, to) {
            let i = choose|i: int|
                0 <= i < rows.len() && (#[trigger] rows[i]).status
                    == SubscriptionStatus::PendingConfirmation && rows[i].email@ == to;
            if i < j {
                assert(rows[i].email@ != rows[j].email@);
            } else if j < i {
                assert(rows[j].email@ != rows[i].email@);
            }
        }
    }
}

/// Every confirmed subscriber receives the issue: where the store can be
/// reached, every stored address is valid and the mail service takes every
/// request, a broadcast adds one request for each confirmed subscriber, in
/// the order of their insertion.
pub proof fn lemma_every_confirmed_receives(publication: Publication)
    requires
        publication.holds(),
        publication.tables.available,
        publication.script.len() == 0,
        forall|a: int|
            0 <= a < publication.audience().len() ==> email_is_valid(
                #[trigger] publication.audience()[a],
            ),
    ensures
        publication.outcome is Ok,
        publication.sent_after.len() == publication.sent.len()
            + publication.tables.confirmed().len(),
        forall|a: int|
            0 <= a < publication.tables.confirmed().len() ==> recipient(
                #[trigger] publication.sent_after[publication.sent.len() + a],
            ) == publication.tables.confirmed()[a].email@,
{
    let audience = publication.audience();
    lemma_all_are_reached(audience);
    assert(publication.script =~= Seq::<bool>::empty());
    assert forall|a: int| 0 <= a < publication.tables.confirmed().len() implies recipient(
        #[trigger] publication.sent_after[publication.sent.len() + a],
    ) == publication.tables.confirmed()[a].email@ by {
        assert(audience[a] == publication.tables.confirmed()[a].email@);
    }
}

/// A mail service that takes every request is sent the issue for every
/// address, in order, where every address is valid.
proof fn lemma_all_are_reached(emails: Seq<Seq<char>>)
    requires
        forall|a: int| 0 <= a < emails.len() ==> email_is_valid(#[trigger] emails[a]),
    ensures
        reached(emails, Seq::empty()) == emails,
    decreases emails.len(),
{
    if emails.len() > 0 {
        let rest = emails.drop_first();
        assert forall|a: int| 0 <= a < rest.len() implies email_is_valid(#[trigger] rest[a]) by {
            assert(rest[a] == emails[a + 1]);
        }
        lemma_all_are_reached(rest);
    }
}

/// The status that answers a broadcast with the given outcome.
pub open spec fn status_of(outcome: Result<(), PublishError>) -> u16 {
    match outcome {
        Ok(()) => OK,
        Err(PublishError::UnexpectedError(_)) => INTERNAL_SERVER_ERROR,
    }
}

/// Answers `POST /newsletters`: the status of the response. A request whose
/// issue could not be read is a bad request, and sends nothing.
pub fn post_newsletters(
    body: Option<BodyData>,
    store: &Store,
    outbox: &mut Outbox,
    email_client: &EmailClient,
) -> (status: u16)
    ensures
        match body {
            None => {
                &&& status == BAD_REQUEST
                &&& final(outbox).sent() == old(outbox).sent()
                &&& final(outbox).script() == old(outbox).script()
            },
            Some(body) => exists|outcome: Result<(), PublishError>|
                status == status_of(outcome) && (Publication {
                    title: body.title@,
                    html: body.content.html@,
                    text: body.content.text@,
                    email_client: *email_client,
                    tables: store@,
                    sent: old(outbox).sent(),
                    script: old(outbox).script(),
                    sent_after: final(outbox).sent(),
                    script_after: final(outbox).script(),
                    outcome,
                }).holds(),
        },
{
    match body {
        None => BAD_REQUEST,
        Some(body) => {
            let ghost issue = (body.title@, body.content.html@, body.content.text@);
            let outcome = post_newsletter(body, store, outbox, email_client);
            let status = match &outcome {
                Ok(()) => OK,
                Err(e) => e.status_code(),
            };
            proof {
                assert(status == status_of(outcome) && (Publication {
                    title: issue.0,
                    html: issue.1,
                    text: issue.2,
                    email_client: *email_client,
                    tables: store@,
                    sent: old(outbox).sent(),
                    script: old(outbox).script(),
                    sent_after: outbox.sent(),
                    script_after: outbox.script(),
                    outcome,
                }).holds());
            }
            status
        },
    }
}

} // verus!
