//! A session that sends a transaction as a bundle to the block engine, with a tip,
//! and asks after it until it is confirmed.

use crate::balance::{
    balance_suffices, check_balance, insufficient_balance, insufficient_line, sol_text,
};
use crate::instruction::{
    a_transfer_moves_its_amount, bribe_ix, build_bribe_ix, eight_bytes, four_bytes,
    instruction_views, transfer_instruction, ComputeBudget, Instruction, InstructionView,
    Pubkey, JITO_RECIPIENTS,
};
use crate::limits::{is_signable, signable};
use crate::miner::{
    adjusted_fee, bundle_instructions, bundle_list, fee_fits, fee_line, report_fee,
    the_bundle_list_holds_the_tip_and_every_instruction, Miner, BASE_DIFFICULTY,
};
use crate::rpc::{
    call, carried_status, get_bundle_statuses, is_complete, is_landed, request_error_text,
    send_jito_bundle, text_views, BundleSendResponse, BundleSendView, BundleStatusResponse,
    BundleStatusView, RequestError, RpcRequest, RpcRequestView,
};
use crate::send::{ready_for, Payload, PayloadView};
use crate::session::{Reaction, ReactionView, SendError, SendErrorView, GATEWAY_RETRIES};
use crate::text::{
    console_line, decimal, error_line, final_error_line, line_view, number_text, quote,
    quoted_text, report_error, report_final_error, Badge, Line, LineView, Outlet,
};
use crate::transaction::{
    address_of, binary_encoding, calls_instructions, compile, compiled_message, lists_accounts,
    sign_message, signed, Blockhash, Keypair, Message, Transaction,
};
use vstd::pervasive::unreached;
use vstd::prelude::*;
use vstd::string::StringExecFns;

verus! {

/// The wait before the next question about a bundle, in milliseconds.
pub const BUNDLE_DELAY: u64 = 2000;

/// What happened since the last action.
#[derive(Debug)]
pub enum BundleEvent {
    /// The balance of the signer, or none if it could not be read.
    Balance(Option<u64>),
    /// The latest block.
    Blockhash(Blockhash),
    /// The block engine took the bundle, or did not.
    Submitted(Result<BundleSendResponse, RequestError>),
    /// What is known of the bundle.
    Statuses(Result<BundleStatusResponse, RequestError>),
}

/// What to do next.
#[derive(Debug)]
pub enum BundleAction {
    /// Ask for the balance of an account.
    QueryBalance(Pubkey),
    /// Ask for the latest block.
    QueryBlockhash,
    /// Send the request that submits the bundle.
    Submit(RpcRequest),
    /// Send the request that asks after the bundle.
    QueryStatuses(RpcRequest),
    /// Give up the whole program: the miner cannot pay.
    Abort,
    /// Return the outcome.
    Finish(Result<(), SendError>),
}

pub enum BundleEventView {
    Balance(Option<u64>),
    Blockhash(Seq<u8>),
    /// The reply, or the message of the error.
    Submitted(Result<BundleSendView, Seq<char>>),
    Statuses(Result<Seq<BundleStatusView>, Seq<char>>),
}

pub enum BundleActionView {
    QueryBalance(Seq<u8>),
    QueryBlockhash,
    Submit(RpcRequestView),
    QueryStatuses(RpcRequestView),
    Abort,
    Finish(Result<(), SendErrorView>),
}

impl View for BundleEvent {
    type V = BundleEventView;

    open spec fn view(&self) -> BundleEventView {
        match self {
            BundleEvent::Balance(balance) => BundleEventView::Balance(*balance),
            BundleEvent::Blockhash(blockhash) => BundleEventView::Blockhash(blockhash@),
            BundleEvent::Submitted(Ok(reply)) => BundleEventView::Submitted(Ok(reply@)),
            BundleEvent::Submitted(Err(error)) => BundleEventView::Submitted(
                Err(request_error_text(*error, carried_status(*error))),
            ),
            BundleEvent::Statuses(Ok(reply)) => BundleEventView::Statuses(Ok(reply@)),
            BundleEvent::Statuses(Err(error)) => BundleEventView::Statuses(
                Err(request_error_text(*error, carried_status(*error))),
            ),
        }
    }
}

impl View for BundleAction {
    type V = BundleActionView;

    open spec fn view(&self) -> BundleActionView {
        match self {
            BundleAction::QueryBalance(account) => BundleActionView::QueryBalance(account@),
            BundleAction::QueryBlockhash => BundleActionView::QueryBlockhash,
            BundleAction::Submit(request) => BundleActionView::Submit(request@),
            BundleAction::QueryStatuses(request) => BundleActionView::QueryStatuses(request@),
            BundleAction::Abort => BundleActionView::Abort,
            BundleAction::Finish(Ok(_)) => BundleActionView::Finish(Ok(())),
            BundleAction::Finish(Err(error)) => BundleActionView::Finish(Err(error@)),
        }
    }
}

/// What a session waits for.
#[derive(Clone, Copy, Debug, PartialEq, Eq, Structural)]
pub enum BundleStage {
    Balance,
    Blockhash,
    Submission,
    Statuses,
    Finished,
}

/// The state of a session.
pub struct BundleState {
    pub signer: Seq<u8>,
    pub attempts: nat,
    pub stage: BundleStage,
    pub payload: PayloadView,
    /// The identity of the bundle, once it is known.
    pub bundle_id: Seq<char>,
    /// The fee, where the difficulty may have raised it.
    pub raised_fee: Option<u64>,
}

impl BundleState {
    /// The message is unsigned as long as the block is unknown, and no question is
    /// asked beyond the last.
    pub open spec fn well_formed(self) -> bool {
        &&& self.attempts <= GATEWAY_RETRIES
        &&& match self.payload {
            PayloadView::Unsigned(message) => {
                &&& ready_for(message, self.signer)
                &&& self.stage is Balance || self.stage is Blockhash || self.stage is Finished
            },
            PayloadView::Signed(_) => !(self.stage is Balance) && !(self.stage is Blockhash),
        }
        &&& self.stage is Statuses || self.stage is Finished || self.attempts == 0
    }

    /// The session waits for an event of this kind. A reply that reports the bundle
    /// as confirmed has to name a transaction of it.
    pub open spec fn expects(self, event: BundleEventView) -> bool {
        match event {
            BundleEventView::Balance(_) => self.stage is Balance,
            BundleEventView::Blockhash(_) => self.stage is Blockhash,
            BundleEventView::Submitted(_) => self.stage is Submission,
            BundleEventView::Statuses(Ok(reply)) => self.stage is Statuses && is_complete(reply),
            BundleEventView::Statuses(Err(_)) => self.stage is Statuses,
        }
    }
}

/// The line that announces the submission of a bundle.
pub open spec fn submission_line() -> LineView {
    LineView {
        outlet: Outlet::Spinner,
        badge: Badge::Plain,
        text: "Submitting jito transaction... (attempt 0)"@,
    }
}

/// The line of a bundle that was sent, with the reply of the block engine; its
/// texts are given in quotes.
pub open spec fn bundle_sent_line(id: u64, jsonrpc: Seq<char>, result: Seq<char>) -> LineView {
    LineView {
        outlet: Outlet::SpinnerEnd,
        badge: Badge::Plain,
        text: "Sent: BundleSendResponse { id: "@ + decimal(id as nat) + ", jsonrpc: "@ + jsonrpc
            + ", result: "@ + result + " }"@,
    }
}

/// The line that announces a question about a bundle.
pub open spec fn question_line(bundle_id: Seq<char>, attempts: nat) -> LineView {
    console_line(
        "query bundle bundle_id: "@ + bundle_id + ", attempts: "@ + decimal(attempts),
    )
}

/// The lines of a bundle that landed, with its first transaction.
pub open spec fn bundle_landed_line(transaction: Seq<char>) -> LineView {
    console_line(
        " Bundle landed successfully\n https://solscan.io/tx/"@ + transaction
            + "?cluster=mainnet"@,
    )
}

/// The question after the bundle of the session.
pub open spec fn bundle_ask(state: BundleState) -> (BundleState, ReactionView<BundleActionView>) {
    (
        BundleState { stage: BundleStage::Statuses, ..state },
        ReactionView {
            report: None,
            delay_ms: 0,
            announce: Some(question_line(state.bundle_id, state.attempts)),
            action: BundleActionView::QueryStatuses(
                call("getBundleStatuses"@, seq![state.bundle_id]),
            ),
        },
    )
}

/// The session is over.
pub open spec fn bundle_finish(
    state: BundleState,
    report: Option<LineView>,
    announce: Option<LineView>,
    outcome: Result<(), SendErrorView>,
) -> (BundleState, ReactionView<BundleActionView>) {
    (
        BundleState { stage: BundleStage::Finished, ..state },
        ReactionView {
            report,
            delay_ms: 0,
            announce,
            action: BundleActionView::Finish(outcome),
        },
    )
}

/// The bundle has not landed yet: wait, then ask again, or end the session if that
/// was the last question.
pub open spec fn bundle_retry(state: BundleState, report: Option<LineView>) -> (
    BundleState,
    ReactionView<BundleActionView>,
) {
    let (next, reaction) = if state.attempts < GATEWAY_RETRIES {
        bundle_ask(BundleState { attempts: state.attempts + 1, ..state })
    } else {
        bundle_finish(
            state,
            None,
            Some(final_error_line("Max retries"@)),
            Err(SendErrorView::MaxRetries),
        )
    };
    (next, ReactionView { report, delay_ms: BUNDLE_DELAY, ..reaction })
}

/// How a session answers an event.
pub open spec fn bundle_step(state: BundleState, event: BundleEventView) -> (
    BundleState,
    ReactionView<BundleActionView>,
) {
    match event {
        BundleEventView::Balance(balance) => {
            if balance_suffices(balance) {
                (
                    BundleState { stage: BundleStage::Blockhash, ..state },
                    ReactionView {
                        report: fee_line(state.raised_fee),
                        delay_ms: 0,
                        announce: None,
                        action: BundleActionView::QueryBlockhash,
                    },
                )
            } else {
                (
                    BundleState { stage: BundleStage::Finished, ..state },
                    ReactionView {
                        report: None,
                        delay_ms: 0,
                        announce: Some(insufficient_line(sol_text(balance->0))),
                        action: BundleActionView::Abort,
                    },
                )
            }
        },
        BundleEventView::Blockhash(blockhash) => {
            let transaction = signed(state.payload->Unsigned_0, state.signer, blockhash);
            (
                BundleState {
                    stage: BundleStage::Submission,
                    payload: PayloadView::Signed(transaction),
                    ..state
                },
                ReactionView {
                    report: None,
                    delay_ms: 0,
                    announce: Some(submission_line()),
                    action: BundleActionView::Submit(
                        call("sendBundle"@, seq![binary_encoding(transaction)]),
                    ),
                },
            )
        },
        BundleEventView::Submitted(Ok(reply)) => {
            let (next, reaction) = bundle_ask(BundleState { bundle_id: reply.result, ..state });
            let line = bundle_sent_line(
                reply.id,
                quoted_text(reply.jsonrpc),
                quoted_text(reply.result),
            );
            (next, ReactionView { report: Some(line), ..reaction })
        },
        BundleEventView::Submitted(Err(text)) => bundle_finish(
            state,
            Some(error_line(text)),
            None,
            Err(SendErrorView::SubmitBundle),
        ),
        BundleEventView::Statuses(Ok(reply)) => if is_landed(reply) {
            bundle_finish(
                state,
                None,
                Some(bundle_landed_line(reply[0].transactions[0])),
                Ok(()),
            )
        } else {
            bundle_retry(state, None)
        },
        BundleEventView::Statuses(Err(text)) => bundle_retry(state, Some(console_line(text))),
    }
}

/// The line of a bundle that was sent, given the texts of the reply in quotes.
pub fn report_bundle_sent(id: u64, jsonrpc: &str, result: &str) -> (line: Line)
    ensures
        line@ == bundle_sent_line(id, jsonrpc@, result@),
        line.outlet == Outlet::SpinnerEnd,
        line.badge == Badge::Plain,
        line.text@ == "Sent: BundleSendResponse { id: "@ + decimal(id as nat) + ", jsonrpc: "@
            + jsonrpc@ + ", result: "@ + result@ + " }"@,
{
    let mut text: String = String::from_str("Sent: BundleSendResponse { id: ");
    text.append(number_text(id).as_str());
    text.append(", jsonrpc: ");
    text.append(jsonrpc);
    text.append(", result: ");
    text.append(result);
    text.append(" }");
    Line { outlet: Outlet::SpinnerEnd, badge: Badge::Plain, text }
}

fn announce_question(bundle_id: &String, attempts: usize) -> (line: Line)
    ensures
        line@ == question_line(bundle_id@, attempts as nat),
{
    let mut text: String = String::from_str("query bundle bundle_id: ");
    text.append(bundle_id.as_str());
    text.append(", attempts: ");
    text.append(number_text(attempts as u64).as_str());
    Line { outlet: Outlet::Console, badge: Badge::Plain, text }
}

fn announce_landed(transaction: &String) -> (line: Line)
    ensures
        line@ == bundle_landed_line(transaction@),
{
    let mut text: String = String::from_str(
        " Bundle landed successfully\n https://solscan.io/tx/",
    );
    text.append(transaction.as_str());
    text.append("?cluster=mainnet");
    Line { outlet: Outlet::Console, badge: Badge::Plain, text }
}

/// A session that sends one bundle.
pub struct BundleSession<'a> {
    signer: &'a Keypair,
    attempts: usize,
    stage: BundleStage,
    payload: Payload,
    bundle_id: String,
    raised_fee: Option<u64>,
}

impl<'a> View for BundleSession<'a> {
    type V = BundleState;

    closed spec fn view(&self) -> BundleState {
        BundleState {
            signer: self.signer@,
            attempts: self.attempts as nat,
            stage: self.stage,
            payload: self.payload@,
            bundle_id: self.bundle_id@,
            raised_fee: self.raised_fee,
        }
    }
}

/// A list of one text.
fn single(text: String) -> (list: Vec<String>)
    ensures
        text_views(list@) == seq![text@],
{
    let mut list: Vec<String> = Vec::new();
    list.push(text);
    assert(text_views(list@) =~= seq![text@]);
    list
}

impl<'a> BundleSession<'a> {
    #[verifier::type_invariant]
    spec fn well_formed(self) -> bool {
        self@.well_formed()
    }

    fn ask(self) -> (next: (BundleSession<'a>, Reaction<BundleAction>))
        requires
            self@.payload is Signed,
        ensures
            (next.0@, next.1@) == bundle_ask(self@),
    {
        proof {
            use_type_invariant(&self);
        }
        let line: Line = announce_question(&self.bundle_id, self.attempts);
        let request: RpcRequest = get_bundle_statuses(single(self.bundle_id.clone()));
        (
            BundleSession { stage: BundleStage::Statuses, ..self },
            Reaction {
                report: None,
                delay_ms: 0,
                announce: Some(line),
                action: BundleAction::QueryStatuses(request),
            },
        )
    }

    fn finish(self, report: Option<Line>, announce: Option<Line>, outcome: Result<(), SendError>)
        -> (next: (BundleSession<'a>, Reaction<BundleAction>))
        ensures
            (next.0@, next.1@) == bundle_finish(
                self@,
                line_view(report),
                line_view(announce),
                match outcome {
                    Ok(_) => Ok(()),
                    Err(error) => Err(error@),
                },
            ),
    {
        proof {
            use_type_invariant(&self);
        }
        (
            BundleSession { stage: BundleStage::Finished, ..self },
            Reaction { report, delay_ms: 0, announce, action: BundleAction::Finish(outcome) },
        )
    }

    fn retry(self, report: Option<Line>) -> (next: (BundleSession<'a>, Reaction<BundleAction>))
        requires
            self@.stage is Statuses,
        ensures
            (next.0@, next.1@) == bundle_retry(self@, line_view(report)),
    {
        proof {
            use_type_invariant(&self);
        }
        let attempts: usize = self.attempts + 1;
        let (next, reaction) = if attempts > GATEWAY_RETRIES {
            self.finish(None, Some(report_final_error("Max retries")), Err(SendError::MaxRetries))
        } else {
            let session = BundleSession { attempts, ..self };
            session.ask()
        };
        (next, Reaction { report, delay_ms: BUNDLE_DELAY, ..reaction })
    }

    fn on_balance(self, balance: Option<u64>) -> (next: (BundleSession<'a>, Reaction<BundleAction>))
        requires
            self@.stage is Balance,
        ensures
            (next.0@, next.1@) == bundle_step(self@, BundleEventView::Balance(balance)),
    {
        proof {
            use_type_invariant(&self);
        }
        match balance {
            Some(lamports) if !check_balance(balance) => {
                (
                    BundleSession { stage: BundleStage::Finished, ..self },
                    Reaction {
                        report: None,
                        delay_ms: 0,
                        announce: Some(insufficient_balance(lamports)),
                        action: BundleAction::Abort,
                    },
                )
            },
            _ => {
                let report: Option<Line> = report_fee(self.raised_fee);
                (
                    BundleSession { stage: BundleStage::Blockhash, ..self },
                    Reaction {
                        report,
                        delay_ms: 0,
                        announce: None,
                        action: BundleAction::QueryBlockhash,
                    },
                )
            },
        }
    }

    fn on_blockhash(self, blockhash: Blockhash) -> (next: (
        BundleSession<'a>,
        Reaction<BundleAction>,
    ))
        requires
            self@.stage is Blockhash,
        ensures
            (next.0@, next.1@) == bundle_step(self@, BundleEventView::Blockhash(blockhash@)),
    {
        proof {
            use_type_invariant(&self);
        }
        let transaction: Transaction = match self.payload {
            Payload::Unsigned(message) => sign_message(message, self.signer, &blockhash),
            Payload::Signed(_) => unreached(),
        };
        assert(transaction@.signatures.len() == 1);
        let request: RpcRequest = send_jito_bundle(single(transaction.encode()));
        (
            BundleSession {
                signer: self.signer,
                attempts: self.attempts,
                stage: BundleStage::Submission,
                payload: Payload::Signed(transaction),
                bundle_id: self.bundle_id,
                raised_fee: self.raised_fee,
            },
            Reaction {
                report: None,
                delay_ms: 0,
                announce: Some(
                    Line {
                        outlet: Outlet::Spinner,
                        badge: Badge::Plain,
                        text: String::from_str("Submitting jito transaction... (attempt 0)"),
                    },
                ),
                action: BundleAction::Submit(request),
            },
        )
    }

    /// Answers an event: the session afterwards, and what to do next.
    pub fn step(self, event: BundleEvent) -> (next: (BundleSession<'a>, Reaction<BundleAction>))
        requires
            self@.expects(event@),
        ensures
            (next.0@, next.1@) == bundle_step(self@, event@),
            next.0@.well_formed(),
    {
        proof {
            use_type_invariant(&self);
        }
        let next = match event {
            BundleEvent::Balance(balance) => self.on_balance(balance),
            BundleEvent::Blockhash(blockhash) => self.on_blockhash(blockhash),
            BundleEvent::Submitted(Ok(reply)) => {
                let line: Line = report_bundle_sent(
                    reply.id,
                    quote(reply.jsonrpc.as_str()).as_str(),
                    quote(reply.result.as_str()).as_str(),
                );
                let session = BundleSession { bundle_id: reply.result, ..self };
                let (next, reaction) = session.ask();
                (next, Reaction { report: Some(line), ..reaction })
            },
            BundleEvent::Submitted(Err(error)) => {
                let text: String = error.message();
                self.finish(Some(report_error(text.as_str())), None, Err(SendError::SubmitBundle))
            },
            BundleEvent::Statuses(Ok(reply)) => {
                if reply.landed() {
                    assert(reply@[0] == reply.result.value@[0]@);
                    let line: Line = announce_landed(&reply.result.value[0].transactions[0]);
                    self.finish(None, Some(line), Ok(()))
                } else {
                    self.retry(None)
                }
            },
            BundleEvent::Statuses(Err(error)) => {
                let line = Line {
                    outlet: Outlet::Console,
                    badge: Badge::Plain,
                    text: error.message(),
                };
                self.retry(Some(line))
            },
        };
        proof {
            use_type_invariant(&next.0);
        }
        next
    }
}

/// A session before its first event.
pub open spec fn bundle_start(
    signer: Seq<u8>,
    ixs: Seq<InstructionView>,
    raised_fee: Option<u64>,
) -> BundleState {
    BundleState {
        signer,
        attempts: 0,
        stage: BundleStage::Balance,
        payload: PayloadView::Unsigned(compiled_message(ixs, address_of(signer))),
        bundle_id: Seq::empty(),
        raised_fee,
    }
}

/// The tip of `fee` lamports from a miner to the given recipient.
pub open spec fn tip(payer: Seq<u8>, recipient: int, fee: u64) -> InstructionView {
    transfer_instruction(payer, JITO_RECIPIENTS@[recipient]@, fee)
}

/// What a miner sends as a bundle for its caller, at a difficulty, with the tip to the
/// given recipient.
pub open spec fn bundle_calls(
    miner: Miner,
    ixs: Seq<Instruction>,
    budget: ComputeBudget,
    difficult: u32,
    recipient: int,
) -> Seq<InstructionView> {
    bundle_list(
        budget,
        tip(
            address_of(miner.signer@),
            recipient,
            adjusted_fee(miner.priority_fee as nat, difficult as nat) as u64,
        ),
        instruction_views(ixs),
    )
}

/// The instructions of a bundle for each recipient make a transaction that the
/// miner can sign, and its fee can be computed.
pub open spec fn bundle_ready(
    signer: Seq<u8>,
    priority_fee: u64,
    ixs: Seq<InstructionView>,
    budget: ComputeBudget,
    difficult: u32,
) -> bool {
    &&& fee_fits(priority_fee as nat, difficult as nat)
    &&& forall|recipient: int|
        0 <= recipient < JITO_RECIPIENTS@.len() ==> signable(
            bundle_list(
                budget,
                #[trigger] tip(
                    address_of(signer),
                    recipient,
                    adjusted_fee(priority_fee as nat, difficult as nat) as u64,
                ),
                ixs,
            ),
            address_of(signer),
        )
}

impl Miner {
    /// Whether the miner can begin a session with the block engine.
    pub fn can_send_bundle(
        &self,
        ixs: &[Instruction],
        compute_budget: ComputeBudget,
        difficult: u32,
    ) -> (ready: bool)
        ensures
            ready == bundle_ready(
                self.signer@,
                self.priority_fee,
                instruction_views(ixs@),
                compute_budget,
                difficult,
            ),
    {
        let fee: u64 = match self.checked_adjust_fee(difficult) {
            Some(fee) => fee,
            None => {
                return false;
            },
        };
        let payer: Pubkey = self.signer.pubkey();
        let ghost views = instruction_views(ixs@);
        let mut recipient: usize = 0;
        while recipient < JITO_RECIPIENTS.len()
            invariant
                recipient <= JITO_RECIPIENTS@.len(),
                views == instruction_views(ixs@),
                payer@ == address_of(self.signer@),
                fee == adjusted_fee(self.priority_fee as nat, difficult as nat) as u64,
                forall|r: int|
                    0 <= r < recipient ==> signable(
                        bundle_list(compute_budget, #[trigger] tip(payer@, r, fee), views),
                        payer@,
                    ),
            decreases JITO_RECIPIENTS@.len() - recipient,
        {
            let list: Vec<Instruction> = bundle_instructions(
                compute_budget,
                bribe_ix(&payer, fee, recipient),
                ixs,
            );
            assert(instruction_views(list@) == bundle_list(
                compute_budget,
                tip(payer@, recipient as int, fee),
                views,
            ));
            if !is_signable(&list, &payer) {
                return false;
            }
            recipient += 1;
        }
        true
    }

    /// Begins a session that sends the instructions as a bundle, with the given
    /// instruction as the tip.
    pub fn send_bundle_with_tip(
        &self,
        ixs: &[Instruction],
        compute_budget: ComputeBudget,
        tip: Instruction,
        raised_fee: Option<u64>,
    ) -> (next: (BundleSession<'_>, Reaction<BundleAction>))
        requires
            signable(
                bundle_list(compute_budget, tip@, instruction_views(ixs@)),
                address_of(self.signer@),
            ),
        ensures
            begins_bundle(
                next.0@,
                bundle_list(compute_budget, tip@, instruction_views(ixs@)),
                self.signer@,
                raised_fee,
            ),
            next.1@ == first_bundle_reaction(self.signer@),
            next.0@.raised_fee == raised_fee,
            next.0@.payload is Unsigned,
            ({
                let calls = next.0@.payload->Unsigned_0.instructions;
                &&& calls.len() == ixs@.len() + 3
                &&& four_bytes(calls[0].data, 1) == match compute_budget {
                    ComputeBudget::Dynamic => 1_400_000,
                    ComputeBudget::Fixed(units) => units as int,
                }
                &&& eight_bytes(calls[1].data, 1) == 0
                &&& calls[2].data == tip.data@
                &&& forall|i: int|
                    0 <= i < ixs@.len() ==> (#[trigger] calls[i + 3]).data == ixs@[i].data@
            }),
    {
        let ghost wanted = bundle_list(compute_budget, tip@, instruction_views(ixs@));
        proof {
            the_bundle_list_holds_the_tip_and_every_instruction(
                compute_budget,
                tip@,
                instruction_views(ixs@),
            );
        }
        let list: Vec<Instruction> = bundle_instructions(compute_budget, tip, ixs);
        let payer: Pubkey = self.signer.pubkey();
        let message: Message = compile(list, payer);
        proof {
            let views = instruction_views(ixs@);
            assert(message@.instructions[0].data == wanted[0].data);
            assert(message@.instructions[1].data == wanted[1].data);
            assert(message@.instructions[2].data == wanted[2].data);
            assert forall|i: int| 0 <= i < ixs@.len() implies (#[trigger] message@.instructions[i
                + 3]).data == ixs@[i].data@ by {
                assert(wanted[i + 3] == views[i]);
            }
        }
        let session = BundleSession {
            signer: &self.signer,
            attempts: 0,
            stage: BundleStage::Balance,
            payload: Payload::Unsigned(message),
            bundle_id: String::new(),
            raised_fee,
        };
        (
            session,
            Reaction {
                report: None,
                delay_ms: 0,
                announce: None,
                action: BundleAction::QueryBalance(payer),
            },
        )
    }

    /// Begins a session that sends the instructions as a bundle, with a tip of the
    /// adjusted fee to a recipient drawn at random. A bundle is always asked after,
    /// whatever `skip_confirm` says.
    pub fn send_and_confirm_jito(
        &self,
        ixs: &[Instruction],
        compute_budget: ComputeBudget,
        skip_confirm: bool,
        difficult: u32,
    ) -> (next: (BundleSession<'_>, Reaction<BundleAction>))
        requires
            bundle_ready(
                self.signer@,
                self.priority_fee,
                instruction_views(ixs@),
                compute_budget,
                difficult,
            ),
        ensures
            exists|recipient: int|
                0 <= recipient < 8 && next.0@.payload == PayloadView::Unsigned(
                    compiled_message(
                        #[trigger] bundle_calls(
                            *self,
                            ixs@,
                            compute_budget,
                            difficult,
                            recipient,
                        ),
                        self.signer@.subrange(32, 64),
                    ),
                ),
            exists|recipient: int|
                0 <= recipient < JITO_RECIPIENTS@.len() && begins_bundle(
                    next.0@,
                    bundle_list(
                        compute_budget,
                        #[trigger] tip(
                            address_of(self.signer@),
                            recipient,
                            adjusted_fee(self.priority_fee as nat, difficult as nat) as u64,
                        ),
                        instruction_views(ixs@),
                    ),
                    self.signer@,
                    if difficult > BASE_DIFFICULTY {
                        Some(adjusted_fee(self.priority_fee as nat, difficult as nat) as u64)
                    } else {
                        None
                    },
                ),
            next.1@ == first_bundle_reaction(self.signer@),
            next.0@.raised_fee is Some <==> difficult > 20,
            next.0@.raised_fee matches Some(fee) ==> fee == adjusted_fee(
                self.priority_fee as nat,
                difficult as nat,
            ),
            next.0@.payload is Unsigned,
            ({
                let calls = next.0@.payload->Unsigned_0.instructions;
                &&& calls.len() == ixs@.len() + 3
                &&& four_bytes(calls[0].data, 1) == match compute_budget {
                    ComputeBudget::Dynamic => 1_400_000,
                    ComputeBudget::Fixed(units) => units as int,
                }
                &&& eight_bytes(calls[1].data, 1) == 0
                &&& calls[2].data.len() == 12
                &&& eight_bytes(calls[2].data, 4) == adjusted_fee(
                    self.priority_fee as nat,
                    difficult as nat,
                )
                &&& forall|i: int|
                    0 <= i < ixs@.len() ==> (#[trigger] calls[i + 3]).data == ixs@[i].data@
            }),
    {
        let fee: u64 = self.adjust_fee(difficult);
        let payer: Pubkey = self.signer.pubkey();
        let bribe: Instruction = build_bribe_ix(&payer, fee);
        let raised_fee: Option<u64> = if difficult > BASE_DIFFICULTY { Some(fee) } else { None };
        proof {
            let recipient = choose|recipient: int|
                0 <= recipient < JITO_RECIPIENTS@.len() && bribe@ == transfer_instruction(
                    payer@,
                    #[trigger] JITO_RECIPIENTS@[recipient]@,
                    fee,
                );
            let agreed = adjusted_fee(self.priority_fee as nat, difficult as nat) as u64;
            assert(fee == agreed);
            assert(bribe@ == tip(address_of(self.signer@), recipient, agreed));
            a_transfer_moves_its_amount(payer@, JITO_RECIPIENTS@[recipient]@, fee);
            assert(bribe@.data == bribe.data@);
            assert(bundle_calls(*self, ixs@, compute_budget, difficult, recipient) == bundle_list(
                compute_budget,
                bribe@,
                instruction_views(ixs@),
            ));
        }
        self.send_bundle_with_tip(ixs, compute_budget, bribe, raised_fee)
    }
}

/// The first thing that a session does: ask for the balance of the signer.
pub open spec fn first_bundle_reaction(signer: Seq<u8>) -> ReactionView<BundleActionView> {
    ReactionView {
        report: None,
        delay_ms: 0,
        announce: None,
        action: BundleActionView::QueryBalance(address_of(signer)),
    }
}

/// A session that is about to send the given instructions.
pub open spec fn begins_bundle(
    state: BundleState,
    ixs: Seq<InstructionView>,
    signer: Seq<u8>,
    raised_fee: Option<u64>,
) -> bool {
    &&& state == bundle_start(signer, ixs, raised_fee)
    &&& state.well_formed()
    &&& lists_accounts(state.payload->Unsigned_0, ixs, address_of(signer))
    &&& calls_instructions(state.payload->Unsigned_0, ixs)
}

} // verus!
