//! A session that sends a transaction to the gateway until it is confirmed.
//!
//! The session decides; whoever runs it talks to the network. It is given what
//! happened, one event at a time, and answers with what to do next.

use crate::balance::{
    balance_suffices, check_balance, insufficient_balance, insufficient_line, sol_text,
};
use crate::instruction::{
    eight_bytes, four_bytes, instruction_views, ComputeBudget, Instruction, InstructionView,
    Pubkey,
};
use crate::limits::{is_signable, signable};
use crate::miner::{
    gateway_calls, gateway_instructions, gateway_list,
    the_gateway_list_holds_the_price_and_every_instruction, Miner,
};
use crate::session::{Reaction, ReactionView, SendError, SendErrorView, GATEWAY_RETRIES};
use crate::text::{
    decimal, error_line, final_error_line, line_view, number_text, report_error,
    report_final_error, Badge, Line, LineView, Outlet,
};
use crate::transaction::{
    address_of, calls_instructions, compile, compiled_message, lists_accounts, serializable,
    sign_message, signature_text, signature_to_text, signed, Blockhash, Keypair, Message,
    MessageView, Signature, Transaction, TransactionView,
};
use vstd::pervasive::unreached;
use vstd::prelude::*;
use vstd::string::StringExecFns;

verus! {

/// How many times the gateway itself tries to pass a transaction on.
pub const RPC_RETRIES: usize = 0;

/// How many times an accepted transaction is asked after.
pub const CONFIRM_RETRIES: usize = 1;

/// The wait before each question, in milliseconds.
pub const CONFIRM_DELAY: u64 = 0;

/// The wait before the next attempt, in milliseconds.
pub const GATEWAY_DELAY: u64 = 300;

/// How far the network is with a transaction.
#[derive(Clone, Copy, Debug, PartialEq, Eq, Structural)]
pub enum ConfirmationStatus {
    Processed,
    Confirmed,
    Finalized,
}

/// What the network knows of a transaction. An error is kept as text.
#[derive(Debug)]
pub struct SignatureStatus {
    pub err: Option<String>,
    pub confirmation_status: Option<ConfirmationStatus>,
}

pub struct StatusView {
    pub err: Option<Seq<char>>,
    pub confirmation_status: Option<ConfirmationStatus>,
}

impl View for SignatureStatus {
    type V = StatusView;

    open spec fn view(&self) -> StatusView {
        StatusView {
            err: match self.err {
                Some(text) => Some(text@),
                None => None,
            },
            confirmation_status: self.confirmation_status,
        }
    }
}

/// The view of a status that may be unknown.
pub open spec fn known_status(status: Option<SignatureStatus>) -> Option<StatusView> {
    match status {
        Some(s) => Some(s@),
        None => None,
    }
}

/// The views of a list of statuses.
pub open spec fn status_views(list: Seq<Option<SignatureStatus>>) -> Seq<Option<StatusView>> {
    list.map_values(|status: Option<SignatureStatus>| known_status(status))
}

/// What a list of statuses settles.
#[derive(Debug)]
pub enum Verdict {
    Pending,
    Landed,
    Failed(String),
}

pub enum VerdictView {
    Pending,
    Landed,
    Failed(Seq<char>),
}

impl View for Verdict {
    type V = VerdictView;

    open spec fn view(&self) -> VerdictView {
        match self {
            Verdict::Pending => VerdictView::Pending,
            Verdict::Landed => VerdictView::Landed,
            Verdict::Failed(reason) => VerdictView::Failed(reason@),
        }
    }
}

/// What one status settles: an error fails, else a confirmation lands.
pub open spec fn status_verdict(status: Option<StatusView>) -> VerdictView {
    match status {
        Some(s) => match s.err {
            Some(reason) => VerdictView::Failed(reason),
            None => if s.confirmation_status == Some(ConfirmationStatus::Confirmed)
                || s.confirmation_status == Some(ConfirmationStatus::Finalized) {
                VerdictView::Landed
            } else {
                VerdictView::Pending
            },
        },
        None => VerdictView::Pending,
    }
}

/// What a list settles: what its first status that settles something does.
pub open spec fn verdict(list: Seq<Option<StatusView>>) -> VerdictView
    decreases list.len(),
{
    if list.len() == 0 {
        VerdictView::Pending
    } else if status_verdict(list[0]) != VerdictView::Pending {
        status_verdict(list[0])
    } else {
        verdict(list.drop_first())
    }
}

/// What one status settles.
fn judge_one(status: &Option<SignatureStatus>) -> (settled: Verdict)
    ensures
        settled@ == status_verdict(known_status(*status)),
{
    match status {
        Some(s) => match &s.err {
            Some(reason) => Verdict::Failed(reason.clone()),
            None => match s.confirmation_status {
                Some(ConfirmationStatus::Confirmed) => Verdict::Landed,
                Some(ConfirmationStatus::Finalized) => Verdict::Landed,
                _ => Verdict::Pending,
            },
        },
        None => Verdict::Pending,
    }
}

/// The status settles nothing: it is unknown, or tells neither of an error nor of a
/// confirmation.
pub open spec fn tells_nothing(status: Option<SignatureStatus>) -> bool {
    status matches Some(s) ==> s.err is None && s.confirmation_status != Some(
        ConfirmationStatus::Confirmed,
    ) && s.confirmation_status != Some(ConfirmationStatus::Finalized)
}

/// What a list of statuses settles.
pub fn judge(list: &Vec<Option<SignatureStatus>>) -> (settled: Verdict)
    ensures
        settled@ == verdict(status_views(list@)),
        settled is Pending ==> forall|i: int|
            0 <= i < list@.len() ==> tells_nothing(#[trigger] list@[i]),
        settled is Landed ==> exists|i: int|
            0 <= i < list@.len() && (forall|j: int|
                0 <= j < i ==> tells_nothing(#[trigger] list@[j])) && {
                &&& (#[trigger] list@[i]) is Some
                &&& list@[i]->0.err is None
                &&& list@[i]->0.confirmation_status == Some(ConfirmationStatus::Confirmed)
                    || list@[i]->0.confirmation_status == Some(ConfirmationStatus::Finalized)
            },
        settled matches Verdict::Failed(reason) ==> exists|i: int|
            0 <= i < list@.len() && (forall|j: int|
                0 <= j < i ==> tells_nothing(#[trigger] list@[j])) && {
                &&& (#[trigger] list@[i]) is Some
                &&& list@[i]->0.err is Some
                &&& list@[i]->0.err->0@ == reason@
            },
{
    let ghost views = status_views(list@);
    assert(views.skip(0) =~= views);
    let mut i: usize = 0;
    while i < list.len()
        invariant
            i <= list@.len(),
            views == status_views(list@),
            verdict(views) == verdict(views.skip(i as int)),
            forall|j: int| 0 <= j < i ==> tells_nothing(#[trigger] list@[j]),
        decreases list@.len() - i,
    {
        let settled: Verdict = judge_one(&list[i]);
        assert(views.skip(i as int)[0] == known_status(list@[i as int]));
        assert(views.skip(i as int).drop_first() =~= views.skip(i + 1));
        match settled {
            Verdict::Pending => {},
            _ => {
                return settled;
            },
        }
        i += 1;
    }
    Verdict::Pending
}

/// How a transaction is handed to the gateway.
#[derive(Clone, Copy, Debug, PartialEq, Eq, Structural)]
pub struct SubmitOptions {
    pub skip_preflight: bool,
    pub preflight_commitment: ConfirmationStatus,
    pub base64: bool,
    pub max_retries: Option<usize>,
    pub min_context_slot: Option<u64>,
}

/// How a transaction is handed to the gateway: in base 64, without a trial run,
/// passed on once, at any slot.
pub fn submit_options() -> (options: SubmitOptions)
    ensures
        options == (SubmitOptions {
            skip_preflight: true,
            preflight_commitment: ConfirmationStatus::Confirmed,
            base64: true,
            max_retries: Some(0usize),
            min_context_slot: None,
        }),
{
    SubmitOptions {
        skip_preflight: true,
        preflight_commitment: ConfirmationStatus::Confirmed,
        base64: true,
        max_retries: Some(RPC_RETRIES),
        min_context_slot: None,
    }
}

/// What happened since the last action. Errors of the network are kept as text.
#[derive(Debug)]
pub enum SendEvent {
    /// The balance of the signer, or none if it could not be read.
    Balance(Option<u64>),
    /// The latest block.
    Blockhash(Blockhash),
    /// The gateway took the transaction, or did not.
    Submitted(Result<Signature, String>),
    /// What is known of the transaction.
    Statuses(Result<Vec<Option<SignatureStatus>>, String>),
}

/// What to do next.
#[derive(Debug)]
pub enum SendAction {
    /// Ask for the balance of an account.
    QueryBalance(Pubkey),
    /// Ask for the latest block.
    QueryBlockhash,
    /// Hand the transaction of the session to the gateway.
    Submit,
    /// Ask what is known of a transaction.
    QueryStatuses(Signature),
    /// Give up the whole program: the miner cannot pay.
    Abort,
    /// Return the outcome.
    Finish(Result<Signature, SendError>),
}

pub enum SendEventView {
    Balance(Option<u64>),
    Blockhash(Seq<u8>),
    Submitted(Result<Seq<u8>, Seq<char>>),
    Statuses(Result<Seq<Option<StatusView>>, Seq<char>>),
}

pub enum SendActionView {
    QueryBalance(Seq<u8>),
    QueryBlockhash,
    Submit,
    QueryStatuses(Seq<u8>),
    Abort,
    Finish(Result<Seq<u8>, SendErrorView>),
}

impl View for SendEvent {
    type V = SendEventView;

    open spec fn view(&self) -> SendEventView {
        match self {
            SendEvent::Balance(balance) => SendEventView::Balance(*balance),
            SendEvent::Blockhash(blockhash) => SendEventView::Blockhash(blockhash@),
            SendEvent::Submitted(Ok(signature)) => SendEventView::Submitted(Ok(signature@)),
            SendEvent::Submitted(Err(text)) => SendEventView::Submitted(Err(text@)),
            SendEvent::Statuses(Ok(list)) => SendEventView::Statuses(Ok(status_views(list@))),
            SendEvent::Statuses(Err(text)) => SendEventView::Statuses(Err(text@)),
        }
    }
}

impl View for SendAction {
    type V = SendActionView;

    open spec fn view(&self) -> SendActionView {
        match self {
            SendAction::QueryBalance(account) => SendActionView::QueryBalance(account@),
            SendAction::QueryBlockhash => SendActionView::QueryBlockhash,
            SendAction::Submit => SendActionView::Submit,
            SendAction::QueryStatuses(signature) => SendActionView::QueryStatuses(signature@),
            SendAction::Abort => SendActionView::Abort,
            SendAction::Finish(Ok(signature)) => SendActionView::Finish(Ok(signature@)),
            SendAction::Finish(Err(error)) => SendActionView::Finish(Err(error@)),
        }
    }
}

/// What a session waits for.
#[derive(Clone, Copy, Debug)]
pub enum SendStage {
    Balance,
    Blockhash,
    Submission,
    Confirmation { signature: Signature, round: usize },
    Finished,
}

pub enum SendStageView {
    Balance,
    Blockhash,
    Submission,
    Confirmation { signature: Seq<u8>, round: nat },
    Finished,
}

impl View for SendStage {
    type V = SendStageView;

    open spec fn view(&self) -> SendStageView {
        match self {
            SendStage::Balance => SendStageView::Balance,
            SendStage::Blockhash => SendStageView::Blockhash,
            SendStage::Submission => SendStageView::Submission,
            SendStage::Confirmation { signature, round } => SendStageView::Confirmation {
                signature: signature@,
                round: *round as nat,
            },
            SendStage::Finished => SendStageView::Finished,
        }
    }
}

/// What a session sends: a message until the block is known, then a transaction.
#[derive(Debug)]
pub enum Payload {
    Unsigned(Message),
    Signed(Transaction),
}

pub enum PayloadView {
    Unsigned(MessageView),
    Signed(TransactionView),
}

impl View for Payload {
    type V = PayloadView;

    open spec fn view(&self) -> PayloadView {
        match self {
            Payload::Unsigned(message) => PayloadView::Unsigned(message@),
            Payload::Signed(transaction) => PayloadView::Signed(transaction@),
        }
    }
}

/// A keypair can sign the message on its own.
pub open spec fn ready_for(message: MessageView, signer: Seq<u8>) -> bool {
    &&& message.num_required_signatures == 1
    &&& message.account_keys.len() > 0
    &&& message.account_keys[0] == address_of(signer)
    &&& serializable(message)
}

/// The state of a session.
pub struct SendState {
    pub signer: Seq<u8>,
    pub skip_confirm: bool,
    pub attempts: nat,
    pub stage: SendStageView,
    pub payload: PayloadView,
}

impl SendState {
    /// The message is unsigned as long as the block is unknown, and no attempt is
    /// made beyond the last.
    pub open spec fn well_formed(self) -> bool {
        &&& self.attempts <= GATEWAY_RETRIES
        &&& match self.payload {
            PayloadView::Unsigned(message) => {
                &&& ready_for(message, self.signer)
                &&& self.stage is Balance || self.stage is Blockhash || self.stage is Finished
            },
            PayloadView::Signed(_) => !(self.stage is Balance) && !(self.stage is Blockhash),
        }
        &&& self.stage is Balance || self.stage is Blockhash ==> self.attempts == 0
        &&& self.stage matches SendStageView::Confirmation { round, .. } ==> round < CONFIRM_RETRIES
    }

    /// The session waits for an event of this kind.
    pub open spec fn expects(self, event: SendEventView) -> bool {
        match event {
            SendEventView::Balance(_) => self.stage is Balance,
            SendEventView::Blockhash(_) => self.stage is Blockhash,
            SendEventView::Submitted(_) => self.stage is Submission,
            SendEventView::Statuses(_) => self.stage is Confirmation,
        }
    }
}

/// The line that announces an attempt.
pub open spec fn attempt_line(attempt: nat) -> LineView {
    LineView {
        outlet: Outlet::Spinner,
        badge: Badge::Plain,
        text: "Submitting transaction... (attempt "@ + decimal(attempt) + ")"@,
    }
}

/// The line of a transaction that was sent, given its signature as text.
pub open spec fn sent_line(signature: Seq<char>) -> LineView {
    LineView { outlet: Outlet::SpinnerEnd, badge: Badge::Plain, text: "Sent: "@ + signature }
}

/// The line of a transaction that landed, given its signature as text.
pub open spec fn landed_line(signature: Seq<char>) -> LineView {
    LineView { outlet: Outlet::SpinnerEnd, badge: Badge::Success, text: " "@ + signature }
}

/// The session is over: `announce` is the last line.
pub open spec fn send_finish(
    state: SendState,
    announce: LineView,
    outcome: Result<Seq<u8>, SendErrorView>,
) -> (SendState, ReactionView<SendActionView>) {
    (
        SendState { stage: SendStageView::Finished, ..state },
        ReactionView {
            report: None,
            delay_ms: 0,
            announce: Some(announce),
            action: SendActionView::Finish(outcome),
        },
    )
}

/// The attempt came to nothing: wait, then make the next one, or end the session
/// if that was the last.
pub open spec fn send_retry(state: SendState, report: Option<LineView>) -> (
    SendState,
    ReactionView<SendActionView>,
) {
    if state.attempts < GATEWAY_RETRIES {
        (
            SendState { stage: SendStageView::Submission, attempts: state.attempts + 1, ..state },
            ReactionView {
                report,
                delay_ms: GATEWAY_DELAY,
                announce: Some(attempt_line(state.attempts + 1)),
                action: SendActionView::Submit,
            },
        )
    } else {
        let (done, reaction) = send_finish(
            state,
            final_error_line("Max retries"@),
            Err(SendErrorView::MaxRetries),
        );
        (done, ReactionView { report, delay_ms: GATEWAY_DELAY, ..reaction })
    }
}

/// Ask after the transaction for the given time, or give the attempt up.
pub open spec fn send_ask(
    state: SendState,
    signature: Seq<u8>,
    round: nat,
    report: Option<LineView>,
) -> (SendState, ReactionView<SendActionView>) {
    if round < CONFIRM_RETRIES {
        (
            SendState { stage: SendStageView::Confirmation { signature, round }, ..state },
            ReactionView {
                report,
                delay_ms: CONFIRM_DELAY,
                announce: None,
                action: SendActionView::QueryStatuses(signature),
            },
        )
    } else {
        send_retry(state, report)
    }
}

/// How a session answers an event.
pub open spec fn send_step(state: SendState, event: SendEventView) -> (
    SendState,
    ReactionView<SendActionView>,
) {
    match event {
        SendEventView::Balance(balance) => {
            if balance_suffices(balance) {
                (
                    SendState { stage: SendStageView::Blockhash, ..state },
                    ReactionView {
                        report: None,
                        delay_ms: 0,
                        announce: None,
                        action: SendActionView::QueryBlockhash,
                    },
                )
            } else {
                (
                    SendState { stage: SendStageView::Finished, ..state },
                    ReactionView {
                        report: None,
                        delay_ms: 0,
                        announce: Some(insufficient_line(sol_text(balance->0))),
                        action: SendActionView::Abort,
                    },
                )
            }
        },
        SendEventView::Blockhash(blockhash) => {
            let transaction = signed(state.payload->Unsigned_0, state.signer, blockhash);
            (
                SendState {
                    stage: SendStageView::Submission,
                    payload: PayloadView::Signed(transaction),
                    ..state
                },
                ReactionView {
                    report: None,
                    delay_ms: 0,
                    announce: Some(attempt_line(0)),
                    action: SendActionView::Submit,
                },
            )
        },
        SendEventView::Submitted(Ok(signature)) => if state.skip_confirm {
            send_finish(state, sent_line(signature_text(signature)), Ok(signature))
        } else {
            send_ask(state, signature, 0, None)
        },
        SendEventView::Submitted(Err(text)) => send_retry(state, Some(error_line(text))),
        SendEventView::Statuses(reply) => {
            let signature = state.stage->signature;
            let round = state.stage->round;
            match reply {
                Ok(list) => match verdict(list) {
                    VerdictView::Failed(reason) => send_finish(
                        state,
                        final_error_line(reason),
                        Err(SendErrorView::Transaction(reason)),
                    ),
                    VerdictView::Landed => send_finish(
                        state,
                        landed_line(signature_text(signature)),
                        Ok(signature),
                    ),
                    VerdictView::Pending => send_ask(state, signature, round + 1, None),
                },
                Err(text) => send_ask(state, signature, round + 1, Some(error_line(text))),
            }
        },
    }
}

/// The line that announces an attempt.
fn announce_attempt(attempt: usize) -> (line: Line)
    ensures
        line@ == attempt_line(attempt as nat),
{
    let mut text: String = String::from_str("Submitting transaction... (attempt ");
    text.append(number_text(attempt as u64).as_str());
    text.append(")");
    Line { outlet: Outlet::Spinner, badge: Badge::Plain, text }
}

/// The line of a transaction that was sent, given its signature as text.
pub fn report_sent(signature: &str) -> (line: Line)
    ensures
        line@ == sent_line(signature@),
        line.outlet == Outlet::SpinnerEnd,
        line.badge == Badge::Plain,
        line.text@ == "Sent: "@ + signature@,
{
    let mut text: String = String::from_str("Sent: ");
    text.append(signature);
    Line { outlet: Outlet::SpinnerEnd, badge: Badge::Plain, text }
}

/// The line of a transaction that landed, given its signature as text.
pub fn report_landed(signature: &str) -> (line: Line)
    ensures
        line@ == landed_line(signature@),
        line.outlet == Outlet::SpinnerEnd,
        line.badge == Badge::Success,
        line.text@ == " "@ + signature@,
{
    let mut text: String = String::from_str(" ");
    text.append(signature);
    Line { outlet: Outlet::SpinnerEnd, badge: Badge::Success, text }
}

/// A session that sends one transaction to the gateway.
pub struct SendSession<'a> {
    signer: &'a Keypair,
    skip_confirm: bool,
    attempts: usize,
    stage: SendStage,
    payload: Payload,
}

impl<'a> View for SendSession<'a> {
    type V = SendState;

    closed spec fn view(&self) -> SendState {
        SendState {
            signer: self.signer@,
            skip_confirm: self.skip_confirm,
            attempts: self.attempts as nat,
            stage: self.stage@,
            payload: self.payload@,
        }
    }
}

impl<'a> SendSession<'a> {
    #[verifier::type_invariant]
    spec fn well_formed(self) -> bool {
        self@.well_formed()
    }

    fn finish(self, announce: Line, outcome: Result<Signature, SendError>) -> (next: (
        SendSession<'a>,
        Reaction<SendAction>,
    ))
        ensures
            (next.0@, next.1@) == send_finish(
                self@,
                announce@,
                match outcome {
                    Ok(signature) => Ok(signature@),
                    Err(error) => Err(error@),
                },
            ),
    {
        proof {
            use_type_invariant(&self);
        }
        (
            SendSession { stage: SendStage::Finished, ..self },
            Reaction {
                report: None,
                delay_ms: 0,
                announce: Some(announce),
                action: SendAction::Finish(outcome),
            },
        )
    }

    fn retry(self, report: Option<Line>) -> (next: (SendSession<'a>, Reaction<SendAction>))
        requires
            self@.payload is Signed,
        ensures
            (next.0@, next.1@) == send_retry(self@, line_view(report)),
    {
        proof {
            use_type_invariant(&self);
        }
        let attempts: usize = self.attempts + 1;
        if attempts > GATEWAY_RETRIES {
            let (done, reaction) = self.finish(
                report_final_error("Max retries"),
                Err(SendError::MaxRetries),
            );
            (done, Reaction { report, delay_ms: GATEWAY_DELAY, ..reaction })
        } else {
            (
                SendSession { stage: SendStage::Submission, attempts, ..self },
                Reaction {
                    report,
                    delay_ms: GATEWAY_DELAY,
                    announce: Some(announce_attempt(attempts)),
                    action: SendAction::Submit,
                },
            )
        }
    }

    fn ask(self, signature: Signature, round: usize, report: Option<Line>) -> (next: (
        SendSession<'a>,
        Reaction<SendAction>,
    ))
        requires
            self@.payload is Signed,
        ensures
            (next.0@, next.1@) == send_ask(
                self@,
                signature@,
                round as nat,
                line_view(report),
            ),
    {
        proof {
            use_type_invariant(&self);
        }
        if round < CONFIRM_RETRIES {
            (
                SendSession { stage: SendStage::Confirmation { signature, round }, ..self },
                Reaction {
                    report,
                    delay_ms: CONFIRM_DELAY,
                    announce: None,
                    action: SendAction::QueryStatuses(signature),
                },
            )
        } else {
            self.retry(report)
        }
    }

    fn on_balance(self, balance: Option<u64>) -> (next: (SendSession<'a>, Reaction<SendAction>))
        requires
            self@.stage is Balance,
        ensures
            (next.0@, next.1@) == send_step(self@, SendEventView::Balance(balance)),
    {
        proof {
            use_type_invariant(&self);
        }
        match balance {
            Some(lamports) if !check_balance(balance) => {
                (
                    SendSession { stage: SendStage::Finished, ..self },
                    Reaction {
                        report: None,
                        delay_ms: 0,
                        announce: Some(insufficient_balance(lamports)),
                        action: SendAction::Abort,
                    },
                )
            },
            _ => {
                (
                    SendSession { stage: SendStage::Blockhash, ..self },
                    Reaction {
                        report: None,
                        delay_ms: 0,
                        announce: None,
                        action: SendAction::QueryBlockhash,
                    },
                )
            },
        }
    }

    fn on_blockhash(self, blockhash: Blockhash) -> (next: (SendSession<'a>, Reaction<SendAction>))
        requires
            self@.stage is Blockhash,
        ensures
            (next.0@, next.1@) == send_step(self@, SendEventView::Blockhash(blockhash@)),
    {
        proof {
            use_type_invariant(&self);
        }
        let payload: Payload = match self.payload {
            Payload::Unsigned(message) => {
                Payload::Signed(sign_message(message, self.signer, &blockhash))
            },
            Payload::Signed(_) => unreached(),
        };
        (
            SendSession {
                signer: self.signer,
                skip_confirm: self.skip_confirm,
                attempts: self.attempts,
                stage: SendStage::Submission,
                payload,
            },
            Reaction {
                report: None,
                delay_ms: 0,
                announce: Some(announce_attempt(0)),
                action: SendAction::Submit,
            },
        )
    }

    /// Answers an event: the session afterwards, and what to do next.
    pub fn step(self, event: SendEvent) -> (next: (SendSession<'a>, Reaction<SendAction>))
        requires
            self@.expects(event@),
        ensures
            (next.0@, next.1@) == send_step(self@, event@),
            next.0@.well_formed(),
    {
        proof {
            use_type_invariant(&self);
        }
        let next = match event {
            SendEvent::Balance(balance) => self.on_balance(balance),
            SendEvent::Blockhash(blockhash) => self.on_blockhash(blockhash),
            SendEvent::Submitted(Ok(signature)) => {
                if self.skip_confirm {
                    let line: Line = report_sent(signature_to_text(&signature).as_str());
                    self.finish(line, Ok(signature))
                } else {
                    self.ask(signature, 0, None)
                }
            },
            SendEvent::Submitted(Err(text)) => self.retry(Some(report_error(text.as_str()))),
            SendEvent::Statuses(reply) => match self.stage {
                SendStage::Confirmation { signature, round } => match reply {
                    Ok(list) => match judge(&list) {
                        Verdict::Failed(reason) => {
                            let line: Line = report_final_error(reason.as_str());
                            self.finish(line, Err(SendError::Transaction(reason)))
                        },
                        Verdict::Landed => {
                            let line: Line = report_landed(signature_to_text(&signature).as_str());
                            self.finish(line, Ok(signature))
                        },
                        Verdict::Pending => self.ask(signature, round + 1, None),
                    },
                    Err(text) => {
                        self.ask(signature, round + 1, Some(report_error(text.as_str())))
                    },
                },
                _ => unreached(),
            },
        };
        proof {
            use_type_invariant(&next.0);
        }
        next
    }

    /// The signed transaction, once the block is known.
    pub fn transaction(&self) -> (transaction: Option<&Transaction>)
        ensures
            transaction is Some == self@.payload is Signed,
            transaction matches Some(t) ==> self@.payload == PayloadView::Signed(t@),
    {
        match &self.payload {
            Payload::Signed(transaction) => Some(transaction),
            Payload::Unsigned(_) => None,
        }
    }
}

impl Miner {
    /// Whether the miner can begin a session with the gateway.
    pub fn can_send(&self, ixs: &[Instruction], compute_budget: ComputeBudget) -> (ready: bool)
        ensures
            ready == signable(
                gateway_calls(*self, ixs@, compute_budget),
                self.signer@.subrange(32, 64),
            ),
            ready == signable(
                gateway_list(compute_budget, self.priority_fee, instruction_views(ixs@)),
                address_of(self.signer@),
            ),
    {
        let list: Vec<Instruction> = gateway_instructions(compute_budget, self.priority_fee, ixs);
        is_signable(&list, &self.signer.pubkey())
    }

    /// Begins a session that sends the instructions to the gateway, at the
    /// priority fee of the miner.
    pub fn send_and_confirm(
        &self,
        ixs: &[Instruction],
        compute_budget: ComputeBudget,
        skip_confirm: bool,
    ) -> (next: (SendSession<'_>, Reaction<SendAction>))
        requires
            signable(
                gateway_list(compute_budget, self.priority_fee, instruction_views(ixs@)),
                address_of(self.signer@),
            ),
        ensures
            next.0@ == send_start(
                self.signer@,
                skip_confirm,
                gateway_calls(*self, ixs@, compute_budget),
            ),
            next.0@ == send_start(
                self.signer@,
                skip_confirm,
                gateway_list(compute_budget, self.priority_fee, instruction_views(ixs@)),
            ),
            next.1@ == (ReactionView {
                report: None,
                delay_ms: 0,
                announce: None,
                action: SendActionView::QueryBalance(address_of(self.signer@)),
            }),
            next.0@.well_formed(),
            next.0@.signer == self.signer@,
            next.0@.skip_confirm == skip_confirm,
            next.0@.stage is Balance,
            next.0@.payload is Unsigned,
            ({
                let calls = next.0@.payload->Unsigned_0.instructions;
                &&& calls.len() == ixs@.len() + 2
                &&& four_bytes(calls[0].data, 1) == match compute_budget {
                    ComputeBudget::Dynamic => 1_400_000,
                    ComputeBudget::Fixed(units) => units as int,
                }
                &&& calls[1].data.len() == 9
                &&& calls[1].data[0] == 3
                &&& eight_bytes(calls[1].data, 1) == self.priority_fee
                &&& forall|i: int|
                    0 <= i < ixs@.len() ==> (#[trigger] calls[i + 2]).data == ixs@[i].data@
            }),
            lists_accounts(
                next.0@.payload->Unsigned_0,
                gateway_list(compute_budget, self.priority_fee, instruction_views(ixs@)),
                address_of(self.signer@),
            ),
            calls_instructions(
                next.0@.payload->Unsigned_0,
                gateway_list(compute_budget, self.priority_fee, instruction_views(ixs@)),
            ),
    {
        let list: Vec<Instruction> = gateway_instructions(compute_budget, self.priority_fee, ixs);
        let payer: Pubkey = self.signer.pubkey();
        let message: Message = compile(list, payer);
        proof {
            let views = instruction_views(ixs@);
            let wanted = gateway_list(compute_budget, self.priority_fee, views);
            the_gateway_list_holds_the_price_and_every_instruction(
                compute_budget,
                self.priority_fee,
                views,
            );
            assert(message@.instructions[0].data == wanted[0].data);
            assert(message@.instructions[1].data == wanted[1].data);
            assert forall|i: int| 0 <= i < ixs@.len() implies (#[trigger] message@.instructions[i
                + 2]).data == ixs@[i].data@ by {
                assert(wanted[i + 2] == views[i]);
            }
        }
        let session = SendSession {
            signer: &self.signer,
            skip_confirm,
            attempts: 0,
            stage: SendStage::Balance,
            payload: Payload::Unsigned(message),
        };
        (
            session,
            Reaction {
                report: None,
                delay_ms: 0,
                announce: None,
                action: SendAction::QueryBalance(payer),
            },
        )
    }
}

/// A session before its first event.
pub open spec fn send_start(
    signer: Seq<u8>,
    skip_confirm: bool,
    ixs: Seq<InstructionView>,
) -> SendState {
    SendState {
        signer,
        skip_confirm,
        attempts: 0,
        stage: SendStageView::Balance,
        payload: PayloadView::Unsigned(compiled_message(ixs, address_of(signer))),
    }
}

} // verus!
