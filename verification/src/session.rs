//! What the two kinds of sessions share: how they answer an event, and how they
//! can fail.

use crate::text::{line_view, Line, LineView};
use vstd::prelude::*;
use vstd::string::StringExecFns;

verus! {

/// How many times a session tries again.
pub const GATEWAY_RETRIES: usize = 20;

/// The answer of a session to an event, to be carried out in this order: show
/// `report`, wait, show `announce`, perform `action`.
#[derive(Debug)]
pub struct Reaction<A> {
    pub report: Option<Line>,
    pub delay_ms: u64,
    pub announce: Option<Line>,
    pub action: A,
}

#[verifier::ext_equal]
pub struct ReactionView<A> {
    pub report: Option<LineView>,
    pub delay_ms: u64,
    pub announce: Option<LineView>,
    pub action: A,
}

impl<A: View> View for Reaction<A> {
    type V = ReactionView<A::V>;

    open spec fn view(&self) -> ReactionView<A::V> {
        ReactionView {
            report: line_view(self.report),
            delay_ms: self.delay_ms,
            announce: line_view(self.announce),
            action: self.action@,
        }
    }
}

/// Why a session failed.
#[derive(Debug)]
pub enum SendError {
    /// The transaction was executed and failed, for the reason given.
    Transaction(String),
    /// No attempt was left.
    MaxRetries,
    /// The block engine did not take the bundle.
    SubmitBundle,
}

pub enum SendErrorView {
    Transaction(Seq<char>),
    MaxRetries,
    SubmitBundle,
}

impl View for SendError {
    type V = SendErrorView;

    open spec fn view(&self) -> SendErrorView {
        match self {
            SendError::Transaction(reason) => SendErrorView::Transaction(reason@),
            SendError::MaxRetries => SendErrorView::MaxRetries,
            SendError::SubmitBundle => SendErrorView::SubmitBundle,
        }
    }
}

/// The message of a failure.
pub open spec fn send_error_text(error: SendErrorView) -> Seq<char> {
    match error {
        SendErrorView::Transaction(reason) => reason,
        SendErrorView::MaxRetries => "Max retries"@,
        SendErrorView::SubmitBundle => "submit bundle err"@,
    }
}

impl SendError {
    /// The message of the failure.
    pub fn message(&self) -> (message: String)
        ensures
            message@ == send_error_text(self@),
            self matches SendError::Transaction(reason) ==> message@ == reason@,
            self is MaxRetries ==> message@ == "Max retries"@,
            self is SubmitBundle ==> message@ == "submit bundle err"@,
    {
        match self {
            SendError::Transaction(reason) => reason.clone(),
            SendError::MaxRetries => String::from_str("Max retries"),
            SendError::SubmitBundle => String::from_str("submit bundle err"),
        }
    }
}

/// A failed transaction is told by its own reason, the other failures by their
/// names.
pub proof fn a_failure_is_told_by_its_reason(reason: Seq<char>)
    ensures
        send_error_text(SendErrorView::Transaction(reason)) == reason,
        send_error_text(SendErrorView::MaxRetries) == "Max retries"@,
        send_error_text(SendErrorView::SubmitBundle) == "submit bundle err"@,
{
}

/// What is stated of a failure or of a reaction speaks of all that it holds.
pub proof fn a_reaction_is_seen_whole<A: View>(reaction: Reaction<A>, error: SendError)
    ensures
        reaction@.report is Some <==> reaction.report is Some,
        reaction.report matches Some(line) ==> reaction@.report == Some(line@),
        reaction@.delay_ms == reaction.delay_ms,
        reaction@.announce is Some <==> reaction.announce is Some,
        reaction.announce matches Some(line) ==> reaction@.announce == Some(line@),
        reaction@.action == reaction.action@,
        error matches SendError::Transaction(reason) ==> error@ == SendErrorView::Transaction(
            reason@,
        ),
        error is MaxRetries ==> error@ is MaxRetries,
        error is SubmitBundle ==> error@ is SubmitBundle,
{
}

} // verus!
