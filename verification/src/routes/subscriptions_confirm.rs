//! Confirming a subscription: the token is resolved to its subscriber, and the
//! subscriber is marked as confirmed.

use crate::routes::{
    error_chain, error_chain_fmt, fault_report, Fault, BAD_REQUEST, INTERNAL_SERVER_ERROR, OK,
    UNAUTHORIZED,
};
use crate::store::{Store, StoreError, SubscriptionStatus, Tables};
use vstd::prelude::*;
use vstd::string::StringExecFns;

verus! {

/// What the confirmation link carries.
#[derive(Debug)]
pub struct ConfirmationQuery {
    pub subscription_token: String,
}

/// Why a confirmation failed.
#[derive(Debug)]
pub enum ConfirmSubscriptionError {
    /// The token is not one that was issued.
    Unauthorized(String),
    /// A collaborator failed.
    UnexpectedError(Fault),
}

impl ConfirmSubscriptionError {
    /// The status of the response that reports this error.
    pub fn status_code(&self) -> (status: u16)
        ensures
            status == match self {
                ConfirmSubscriptionError::Unauthorized(_) => UNAUTHORIZED,
                ConfirmSubscriptionError::UnexpectedError(_) => INTERNAL_SERVER_ERROR,
            },
    {
        match self {
            ConfirmSubscriptionError::Unauthorized(_) => UNAUTHORIZED,
            ConfirmSubscriptionError::UnexpectedError(_) => INTERNAL_SERVER_ERROR,
        }
    }

    /// The report of this error: why the request was turned away, or the
    /// report of the fault.
    pub fn fmt(&self) -> (text: String)
        ensures
            text@ == match self {
                ConfirmSubscriptionError::Unauthorized(message) => error_chain(
                    message@,
                    Seq::empty(),
                ),
                ConfirmSubscriptionError::UnexpectedError(fault) => fault_report(*fault),
            },
    {
        match self {
            ConfirmSubscriptionError::Unauthorized(message) => {
                let causes: Vec<String> = Vec::new();
                error_chain_fmt(message.as_str(), &causes)
            },
            ConfirmSubscriptionError::UnexpectedError(fault) => fault.fmt(),
        }
    }
}

/// What is said of a token that was never issued.
pub open spec fn invalid_token_message() -> Seq<char> {
    "Invalid subscription token"@
}

/// A confirmation whose token belongs to a subscriber. Owed next: the
/// subscriber is marked as confirmed.
pub struct Resolved {
    subscriber_id: u128,
}

/// The first stage: takes what the token store found for the token. A token
/// that was never issued is no fault: the request is turned away.
pub fn resolved(found: Result<Option<u128>, StoreError>) -> (r: Result<
    Resolved,
    ConfirmSubscriptionError,
>)
    ensures
        match r {
            Ok(resolved) => found == Ok::<Option<u128>, StoreError>(Some(resolved.subscriber_id())),
            Err(ConfirmSubscriptionError::Unauthorized(message)) => {
                &&& found == Ok::<Option<u128>, StoreError>(None)
                &&& message@ == invalid_token_message()
            },
            Err(ConfirmSubscriptionError::UnexpectedError(fault)) => {
                &&& found matches Err(cause)
                &&& fault == Fault::Storage(cause)
            },
        },
{
    match found {
        Ok(Some(subscriber_id)) => Ok(Resolved { subscriber_id }),
        Ok(None) => Err(
            ConfirmSubscriptionError::Unauthorized(String::from_str("Invalid subscription token")),
        ),
        Err(e) => Err(ConfirmSubscriptionError::UnexpectedError(Fault::Storage(e))),
    }
}

impl Resolved {
    /// The subscriber that the token belongs to.
    pub closed spec fn subscriber_id(&self) -> u128 {
        self.subscriber_id
    }

    /// Who is to be confirmed.
    pub fn id(&self) -> (id: u128)
        ensures
            id == self.subscriber_id(),
    {
        self.subscriber_id
    }

    /// Takes the outcome of the update, and with it ends the confirmation.
    pub fn complete(self, confirmed: Result<(), StoreError>) -> (r: Result<
        (),
        ConfirmSubscriptionError,
    >)
        ensures
            match r {
                Ok(()) => confirmed is Ok,
                Err(e) => {
                    &&& confirmed matches Err(cause)
                    &&& e == ConfirmSubscriptionError::UnexpectedError(Fault::Storage(cause))
                },
            },
    {
        match confirmed {
            Ok(()) => Ok(()),
            Err(e) => Err(ConfirmSubscriptionError::UnexpectedError(Fault::Storage(e))),
        }
    }
}

/// The subscriber that `subscription_token` was issued to, if it was issued
/// at all.
pub fn get_subscriber_id_from_token(store: &Store, subscription_token: &str) -> (r: Result<
    Option<u128>,
    StoreError,
>)
    ensures
        match r {
            Ok(found) => store@.available && found == store@.resolve(subscription_token@),
            Err(e) => !store@.available && e == StoreError::StorageError,
        },
{
    store.resolve(subscription_token)
}

/// Marks the subscriber `subscriber_id` as confirmed.
pub fn confirm_subscriber(store: &mut Store, subscriber_id: u128) -> (r: Result<(), StoreError>)
    ensures
        final(store)@.wf(),
        match r {
            Ok(()) => old(store)@.available && final(store)@ == old(store)@.confirm(
                subscriber_id,
            ),
            Err(e) => !old(store)@.available && e == StoreError::StorageError && final(store)@
                == old(store)@,
        },
{
    store.confirm(subscriber_id)
}

/// One confirmation: the token it was given, the store before and after it,
/// and how it ended.
pub struct Confirmation {
    /// The token of the request.
    pub token: Seq<char>,
    /// The tables before.
    pub tables: Tables,
    /// The tables after.
    pub tables_after: Tables,
    /// How the confirmation ended.
    pub outcome: Result<(), ConfirmSubscriptionError>,
}

impl Confirmation {
    /// What a confirmation does. A token that was issued confirms its
    /// subscriber. Any other token is turned away, and nothing changes.
    pub open spec fn holds(self) -> bool {
        if !self.tables.available {
            &&& self.outcome == Err::<(), ConfirmSubscriptionError>(
                ConfirmSubscriptionError::UnexpectedError(
                    Fault::Storage(StoreError::StorageError),
                ),
            )
            &&& self.tables_after == self.tables
        } else {
            match self.tables.resolve(self.token) {
                Some(subscriber_id) => {
                    &&& self.outcome is Ok
                    &&& self.tables_after == self.tables.confirm(subscriber_id)
                },
                None => {
                    &&& self.outcome matches Err(ConfirmSubscriptionError::Unauthorized(message))
                    &&& message@ == invalid_token_message()
                    &&& self.tables_after == self.tables
                },
            }
        }
    }
}

/// Confirms the subscription that the token of `query` was issued for.
pub fn confirm_subscription(query: ConfirmationQuery, store: &mut Store) -> (r: Result<
    (),
    ConfirmSubscriptionError,
>)
    ensures
        final(store)@.wf(),
        (Confirmation {
            token: query.subscription_token@,
            tables: old(store)@,
            tables_after: final(store)@,
            outcome: r,
        }).holds(),
{
    proof {
        use_type_invariant(&*store);
    }
    let found = get_subscriber_id_from_token(store, query.subscription_token.as_str());
    let subscriber = resolved(found)?;
    let confirmed = confirm_subscriber(store, subscriber.id());
    subscriber.complete(confirmed)
}

/// Confirming is idempotent: where a confirmation has succeeded, one more
/// with the same token succeeds too and changes nothing, and the subscriber
/// that the token belongs to is confirmed.
pub proof fn lemma_confirmation_is_idempotent(first: Confirmation, second: Confirmation)
    requires
        first.tables.wf(),
        first.holds(),
        first.outcome is Ok,
        second.holds(),
        second.token == first.token,
        second.tables == first.tables_after,
    ensures
        second.outcome is Ok,
        second.tables_after == first.tables_after,
        first.tables.resolve(first.token) matches Some(subscriber_id)
            && second.tables_after.status_of(subscriber_id) == Some(SubscriptionStatus::Confirmed),
{
    let before = first.tables;
    let subscriber_id = before.resolve(first.token)->Some_0;
    let after = before.confirm(subscriber_id);
    // The token resolves as before, and confirming once more changes no row.
    assert(after.confirm(subscriber_id).subscribers =~= after.subscribers);
    // The token belongs to a subscriber that is there, so there is a status.
    let t = choose|t: int|
        0 <= t < before.tokens.len() && (#[trigger] before.tokens[t]).subscription_token@
            == first.token;
    let k = choose|k: int|
        0 <= k < before.subscribers.len() && (#[trigger] before.subscribers[k]).id
            == before.tokens[t].subscriber_id;
    assert(after.subscribers[k].id == subscriber_id);
}

/// The status that answers a confirmation with the given outcome.
pub open spec fn status_of(outcome: Result<(), ConfirmSubscriptionError>) -> u16 {
    match outcome {
        Ok(()) => OK,
        Err(ConfirmSubscriptionError::Unauthorized(_)) => UNAUTHORIZED,
        Err(ConfirmSubscriptionError::UnexpectedError(_)) => INTERNAL_SERVER_ERROR,
    }
}

/// Answers `GET /subscriptions/confirm`: the status of the response. A
/// request that carries no token is a bad request, and touches nothing.
pub fn get_subscriptions_confirm(query: Option<ConfirmationQuery>, store: &mut Store) -> (status:
    u16)
    ensures
        final(store)@.wf(),
        match query {
            None => status == BAD_REQUEST && final(store)@ == old(store)@,
            Some(query) => exists|outcome: Result<(), ConfirmSubscriptionError>|
                status == status_of(outcome) && (Confirmation {
                    token: query.subscription_token@,
                    tables: old(store)@,
                    tables_after: final(store)@,
                    outcome,
                }).holds(),
        },
{
    proof {
        use_type_invariant(&*store);
    }
    match query {
        None => BAD_REQUEST,
        Some(query) => {
            let ghost token = query.subscription_token@;
            let outcome = confirm_subscription(query, store);
            let status = match &outcome {
                Ok(()) => OK,
                Err(e) => e.status_code(),
            };
            proof {
                assert(status == status_of(outcome) && (Confirmation {
                    token,
                    tables: old(store)@,
                    tables_after: store@,
                    outcome,
                }).holds());
            }
            status
        },
    }
}

} // verus!
