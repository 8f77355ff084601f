//! The three workflows, and what their failures have in common.

pub mod newsletters;
pub mod subscriptions;
pub mod subscriptions_confirm;

use crate::email::DeliveryError;
use crate::store::StoreError;
use vstd::prelude::*;
use vstd::string::StringExecFns;

verus! {

/// The status of a response that reports success.
pub const OK: u16 = 200;

/// The status of a response to a request that could not be read or did not
/// pass validation.
pub const BAD_REQUEST: u16 = 400;

/// The status of a response to a request that shows no valid credential.
pub const UNAUTHORIZED: u16 = 401;

/// The status of a response to a request that a fault kept from being served.
pub const INTERNAL_SERVER_ERROR: u16 = 500;

/// Answers `GET /health_check`: the service is alive.
pub fn health_check() -> (status: u16)
    ensures
        status == OK,
{
    OK
}

/// A fault of a collaborator, which no caller could have avoided.
#[derive(Clone, Copy, Debug, PartialEq, Eq, Structural)]
pub enum Fault {
    /// The store failed.
    Storage(StoreError),
    /// The mail service failed.
    Delivery(DeliveryError),
}

/// What a fault says of itself.
pub open spec fn fault_message(fault: Fault) -> Seq<char> {
    match fault {
        Fault::Storage(_) => "the store failed"@,
        Fault::Delivery(_) => "the email could not be delivered"@,
    }
}

/// What the error under a fault says of itself.
pub open spec fn fault_cause(fault: Fault) -> Seq<char> {
    match fault {
        Fault::Storage(StoreError::Conflict) => "a value that must be unique is taken"@,
        Fault::Storage(StoreError::StorageError) => "the store could not be reached"@,
        Fault::Delivery(DeliveryError::Rejected) => "the mail service refused the request"@,
        Fault::Delivery(DeliveryError::Unreachable) => "the mail service could not be reached"@,
    }
}

impl Fault {
    /// What the fault says of itself.
    pub fn message(&self) -> (text: String)
        ensures
            text@ == fault_message(*self),
    {
        match self {
            Fault::Storage(_) => String::from_str("the store failed"),
            Fault::Delivery(_) => String::from_str("the email could not be delivered"),
        }
    }

    /// What the error under the fault says of itself.
    pub fn cause(&self) -> (text: String)
        ensures
            text@ == fault_cause(*self),
    {
        match self {
            Fault::Storage(StoreError::Conflict) => String::from_str(
                "a value that must be unique is taken",
            ),
            Fault::Storage(StoreError::StorageError) => String::from_str(
                "the store could not be reached",
            ),
            Fault::Delivery(DeliveryError::Rejected) => String::from_str(
                "the mail service refused the request",
            ),
            Fault::Delivery(DeliveryError::Unreachable) => String::from_str(
                "the mail service could not be reached",
            ),
        }
    }

    /// The report of the fault: its message and, under it, its cause.
    pub fn fmt(&self) -> (text: String)
        ensures
            text@ == fault_report(*self),
    {
        let mut causes: Vec<String> = Vec::new();
        causes.push(self.cause());
        let message = self.message();
        let text = error_chain_fmt(message.as_str(), &causes);
        proof {
            assert(texts(causes@) =~= seq![fault_cause(*self)]);
        }
        text
    }
}

/// The report of a fault: its message and, under it, its cause.
pub open spec fn fault_report(fault: Fault) -> Seq<char> {
    error_chain(fault_message(fault), seq![fault_cause(fault)])
}

/// The texts of `strings`, in their order.
pub open spec fn texts(strings: Seq<String>) -> Seq<Seq<char>> {
    Seq::new(strings.len(), |i: int| strings[i]@)
}

/// The report of an error: its message and an empty line, then for each
/// cause, outermost first, a line `Caused by:` and the cause on a line of its
/// own behind a tab.
pub open spec fn error_chain(message: Seq<char>, causes: Seq<Seq<char>>) -> Seq<char>
    decreases causes.len(),
{
    if causes.len() == 0 {
        message + "\n\n"@
    } else {
        error_chain(message, causes.drop_last()) + "Caused by:\n\t"@ + causes.last() + "\n"@
    }
}

/// Writes the report of an error with the message `message` and the causes
/// `causes`, outermost first.
pub fn error_chain_fmt(message: &str, causes: &Vec<String>) -> (text: String)
    ensures
        text@ == error_chain(message@, texts(causes@)),
{
    let mut text = String::from_str(message).concat("\n\n");
    let mut i: usize = 0;
    while i < causes.len()
        invariant
            i <= causes@.len(),
            text@ == error_chain(message@, texts(causes@).take(i as int)),
        decreases causes@.len() - i,
    {
        proof {
            let next = texts(causes@).take(i + 1);
            assert(next.drop_last() =~= texts(causes@).take(i as int));
        }
        text = text.concat("Caused by:\n\t").concat(causes[i].as_str()).concat("\n");
        i = i + 1;
    }
    proof {
        assert(texts(causes@).take(causes@.len() as int) =~= texts(causes@));
    }
    text
}

} // verus!
