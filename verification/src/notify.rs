//! The way of a claim: it is let in or refused by where it comes from, a
//! person is asked to verify it, and it is recorded once that request has
//! gone out.
//!
//! Sending the request is not done here. The library says what is to be
//! sent, and is told afterwards whether it was.

use crate::gate::RemoteAddr;
use crate::ledger::{claim_type_of, description_of, next_claim_id, Claim, ClaimLedger, ClaimType};
use vstd::prelude::*;
use vstd::string::*;

verus! {

/// A request to verify a claim, as it goes out to the verifier.
#[derive(Clone, Debug, PartialEq, Eq)]
pub struct Notification {
    pub subject: String,
    pub body: String,
}

/// The request to verify a claim could not be sent.
#[derive(Clone, Debug, PartialEq, Eq)]
pub struct NotificationError {
    /// What the transport said.
    pub message: String,
}

/// Why a claim was not recorded.
#[derive(Clone, Debug, PartialEq, Eq)]
pub enum ClaimError {
    /// The request to verify the claim could not be sent. `message` is what
    /// the transport said, word for word.
    NotificationFailure { message: String },
    /// The request went out, but the ledger refused the write.
    Persistence,
}

/// What is done with a claim that has come in.
#[derive(Clone, Debug, PartialEq, Eq)]
pub enum ClaimAction {
    /// The claim is turned away, and nobody is asked to verify it.
    Refuse,
    /// A verifier is to be sent `notification` about a claim of
    /// `claim_type`.
    Notify { claim_type: ClaimType, notification: Notification },
}

/// The subject of the request to verify a claim by `name`.
pub open spec fn subject_text(name: Seq<char>) -> Seq<char> {
    name + " har vundet"@
}

/// The body of the request to verify a claim of `claim_type` by `name`.
pub open spec fn body_text(name: Seq<char>, claim_type: ClaimType) -> Seq<char> {
    "Hej!\n\n"@ + name + " ansøger om gevinst for "@ + description_of(claim_type)
}

/// The request to verify a claim of `claim_type` by `name`.
pub fn compose(name: &str, claim_type: ClaimType) -> (notification: Notification)
    ensures
        notification.subject@ == subject_text(name@),
        notification.body@ == body_text(name@, claim_type),
{
    let mut subject = String::from_str(name);
    subject.append(" har vundet");
    let mut body = String::from_str("Hej!\n\n");
    body.append(name);
    body.append(" ansøger om gevinst for ");
    body.append(claim_type.description());
    Notification { subject, body }
}

/// Decides what is done with a claim by `name`, with the code `how`, that
/// came from `remote`.
///
/// The claim is let in when `remote` is `allowed`, the one address that
/// claims may come from, and `how` stands for a claim type. A claim that is
/// let in leads to a request to its verifier. Any other is refused.
pub fn banko(remote: &RemoteAddr, allowed: &str, name: &str, how: i32) -> (action: ClaimAction)
    ensures
        action is Notify <==> remote@ == allowed@ && claim_type_of(how) is Some,
        action matches ClaimAction::Notify { claim_type, notification } ==> Some(claim_type)
            == claim_type_of(how) && notification.subject@ == subject_text(name@)
            && notification.body@ == body_text(name@, claim_type),
{
    if !remote.may_claim(allowed) {
        return ClaimAction::Refuse;
    }
    match ClaimType::from_code(how) {
        Some(claim_type) => ClaimAction::Notify { claim_type, notification: compose(name, claim_type) },
        None => ClaimAction::Refuse,
    }
}

/// What concluding a claim does to the ledger and returns, once it is known
/// whether the request to the verifier went out.
///
/// Only a request that went out gets the claim recorded. One that did not
/// leaves the ledger as it was, and its error goes back as it came.
pub open spec fn claim_outcome(
    pre: Seq<Claim>,
    name: String,
    claim_type: ClaimType,
    sent: Result<(), NotificationError>,
    now: u64,
    post: Seq<Claim>,
    r: Result<i32, ClaimError>,
) -> bool {
    match sent {
        Err(e) => post == pre && r == Err::<i32, ClaimError>(
            ClaimError::NotificationFailure { message: e.message },
        ),
        Ok(_) => if next_claim_id(pre) <= i32::MAX {
            let id = next_claim_id(pre) as i32;
            &&& post == pre.push(Claim { id, claimant_name: name, claim_type, recorded_at: now })
            &&& r == Ok::<i32, ClaimError>(id)
        } else {
            &&& post == pre
            &&& r == Err::<i32, ClaimError>(ClaimError::Persistence)
        },
    }
}

/// Concludes a claim of `claim_type` by `name`: records it at `now` if
/// `sent` says that the request to its verifier went out, and returns the id
/// under which it stands in the ledger.
pub fn conclude_claim(
    ledger: &mut ClaimLedger,
    name: String,
    claim_type: ClaimType,
    sent: Result<(), NotificationError>,
    now: u64,
) -> (r: Result<i32, ClaimError>)
    requires
        old(ledger).wf(),
    ensures
        final(ledger).wf(),
        claim_outcome(old(ledger)@, name, claim_type, sent, now, final(ledger)@, r),
{
    match sent {
        Err(e) => Err(ClaimError::NotificationFailure { message: e.message }),
        Ok(_) => match ledger.record_claim(name, claim_type, now) {
            Ok(id) => Ok(id),
            Err(_) => Err(ClaimError::Persistence),
        },
    }
}

/// A claim gets into the ledger if and only if the request to its verifier
/// went out, as long as the ledger has an id left for it. A request that did
/// not go out leaves the ledger as it was in any case.
pub proof fn lemma_recorded_iff_notified(
    pre: Seq<Claim>,
    name: String,
    claim_type: ClaimType,
    sent: Result<(), NotificationError>,
    now: u64,
    post: Seq<Claim>,
    r: Result<i32, ClaimError>,
)
    requires
        claim_outcome(pre, name, claim_type, sent, now, post, r),
    ensures
        sent is Err ==> post == pre,
        next_claim_id(pre) <= i32::MAX ==> (sent is Ok <==> post.len() == pre.len() + 1
            && post.take(pre.len() as int) == pre && post.last().claimant_name == name
            && post.last().claim_type == claim_type),
        next_claim_id(pre) <= i32::MAX ==> (sent is Ok <==> post != pre),
        next_claim_id(pre) <= i32::MAX ==> (sent is Ok <==> r is Ok),
{
    if sent is Ok && next_claim_id(pre) <= i32::MAX {
        assert(post.take(pre.len() as int) =~= pre);
        assert(post.len() != pre.len());
    }
}

/// What the claimant is told of a claim that was not recorded. Where the
/// request to the verifier failed it is what the transport said, unchanged.
pub open spec fn claim_message_text(e: ClaimError) -> Seq<char> {
    match e {
        ClaimError::NotificationFailure { message } => message@,
        ClaimError::Persistence => "The claim could not be recorded"@,
    }
}

impl ClaimError {
    /// What the claimant is told of this failure.
    pub fn message(&self) -> (text: String)
        ensures
            text@ == claim_message_text(*self),
    {
        match self {
            ClaimError::NotificationFailure { message } => message.clone(),
            ClaimError::Persistence => String::from_str("The claim could not be recorded"),
        }
    }
}

} // verus!
