//! What holds of every session with the block engine, whatever the network does.

use crate::balance::{balance_suffices, sol_text};
use crate::bundle::{
    begins_bundle, bundle_calls, bundle_ready, bundle_start, bundle_step, first_bundle_reaction,
    tip, BundleAction, BundleActionView, BundleEvent, BundleEventView, BundleStage, BundleState,
};
use crate::instruction::{
    a_transfer_moves_its_amount, instruction_views, lemma_little_endian_len, ComputeBudget,
    Instruction, InstructionView, JITO_RECIPIENTS,
};
use crate::limits::{
    addresses, countable, few_accounts_are_signable, lemma_mentioned_concat, mentioned,
    signable, signed_by_payer_alone, LIST_MAX, READONLY_MAX,
};
use crate::miner::{
    adjusted_fee, bundle_list, compute_units, fee_fits, ordinary_fee_fits,
    the_bundle_list_holds_the_tip_and_every_instruction, Miner, ORDINARY_FEE_MAX,
};
use crate::rpc::{
    call, carried_status, is_complete, is_landed, request_error_text, BundleSendView,
    BundleStatusView, RpcRequestView,
};
use crate::send::PayloadView;
use crate::send_laws::signing_keeps_the_instructions;
use crate::session::{ReactionView, SendErrorView, GATEWAY_RETRIES};
use crate::text::{decimal, quoted_text, Badge, LineView, Outlet};
use crate::transaction::{
    address_of, binary_encoding, calls_instructions, compiled_message, lists_accounts,
    message_signature, MessageView, TransactionView,
};
use vstd::prelude::*;

verus! {

/// The session after a run of events, and its answer to the last of them.
pub open spec fn replay(state: BundleState, events: Seq<BundleEventView>) -> (
    BundleState,
    Option<ReactionView<BundleActionView>>,
)
    decreases events.len(),
{
    if events.len() == 0 {
        (state, None)
    } else {
        let (next, reaction) = bundle_step(replay(state, events.drop_last()).0, events.last());
        (next, Some(reaction))
    }
}

/// Every event of the run is one that the session waits for when it comes.
pub open spec fn accepted(state: BundleState, events: Seq<BundleEventView>) -> bool
    decreases events.len(),
{
    events.len() > 0 ==> {
        &&& accepted(state, events.drop_last())
        &&& replay(state, events.drop_last()).0.expects(events.last())
    }
}

/// How many times the session submits its bundle in a run.
pub open spec fn submissions(state: BundleState, events: Seq<BundleEventView>) -> nat
    decreases events.len(),
{
    if events.len() == 0 {
        0
    } else {
        submissions(state, events.drop_last()) + if replay(state, events).1->0.action is Submit {
            1nat
        } else {
            0nat
        }
    }
}

/// How many times the session asks after its bundle in a run.
pub open spec fn questions(state: BundleState, events: Seq<BundleEventView>) -> nat
    decreases events.len(),
{
    if events.len() == 0 {
        0
    } else {
        questions(state, events.drop_last()) + if replay(
            state,
            events,
        ).1->0.action is QueryStatuses {
            1nat
        } else {
            0nat
        }
    }
}

/// How many more events a session can take at most.
pub open spec fn events_left(state: BundleState) -> int {
    match state.stage {
        BundleStage::Balance => 3 + GATEWAY_RETRIES + 1,
        BundleStage::Blockhash => 2 + GATEWAY_RETRIES + 1,
        BundleStage::Submission => 1 + GATEWAY_RETRIES + 1,
        BundleStage::Statuses => GATEWAY_RETRIES - state.attempts + 1,
        BundleStage::Finished => 0,
    }
}

/// Instructions that mention few accounts can be sent as a bundle, if nobody but
/// the payer has to sign.
proof fn lemma_few_accounts_in_a_bundle(
    budget: ComputeBudget,
    recipient: int,
    fee: u64,
    ixs: Seq<InstructionView>,
    payer: Seq<u8>,
)
    requires
        signed_by_payer_alone(ixs, payer),
        countable(ixs),
        ixs.len() + 3 <= LIST_MAX,
        mentioned(ixs).len() + 5 <= READONLY_MAX,
    ensures
        signable(bundle_list(budget, tip(payer, recipient, fee), ixs), payer),
{
    let list = bundle_list(budget, tip(payer, recipient, fee), ixs);
    let head = list.take(3);
    assert(list =~= head + ixs);
    lemma_mentioned_concat(head, ixs);
    assert(mentioned(head).len() == 5) by {
        reveal_with_fuel(mentioned, 4);
        assert(addresses(head[0].accounts).len() == 0);
        assert(addresses(head[1].accounts).len() == 0);
        assert(addresses(head[2].accounts).len() == 2);
        assert(head.drop_last().last() == head[1]);
        assert(head.drop_last().drop_last().last() == head[0]);
    }
    lemma_little_endian_len(compute_units(budget) as nat, 4);
    lemma_little_endian_len(0, 8);
    lemma_little_endian_len(fee as nat, 8);
    assert forall|i: int| 0 <= i < list.len() implies (#[trigger] list[i]).accounts.len()
        <= LIST_MAX && list[i].data.len() <= LIST_MAX by {
        if i >= 3 {
            assert(list[i] == ixs[i - 3]);
        }
    }
    assert forall|i: int, j: int| 0 <= i < list.len() && 0 <= j < list[i].accounts.len() implies {
        (#[trigger] list[i].accounts[j]).is_signer ==> list[i].accounts[j].pubkey == payer
    } by {
        if i >= 3 {
            assert(list[i].accounts[j] == ixs[i - 3].accounts[j]);
        }
    }
    few_accounts_are_signable(list, payer);
}

/// A miner with an ordinary fee can send instructions that mention few accounts as
/// a bundle at every difficulty, if nobody but it has to sign.
pub proof fn ordinary_bundles_are_ready(
    signer: Seq<u8>,
    priority_fee: u64,
    ixs: Seq<InstructionView>,
    budget: ComputeBudget,
    difficult: u32,
)
    requires
        priority_fee <= ORDINARY_FEE_MAX,
        signed_by_payer_alone(ixs, address_of(signer)),
        countable(ixs),
        ixs.len() + 3 <= LIST_MAX,
        mentioned(ixs).len() + 5 <= READONLY_MAX,
    ensures
        bundle_ready(signer, priority_fee, ixs, budget, difficult),
{
    ordinary_fee_fits(priority_fee as nat, difficult as nat);
    let payer = address_of(signer);
    let fee = adjusted_fee(priority_fee as nat, difficult as nat) as u64;
    assert forall|recipient: int| 0 <= recipient < JITO_RECIPIENTS@.len() implies signable(
        bundle_list(budget, #[trigger] tip(payer, recipient, fee), ixs),
        payer,
    ) by {
        lemma_few_accounts_in_a_bundle(budget, recipient, fee, ixs, payer);
    }
}

/// An answer keeps the session well formed, and brings it nearer to its end.
pub proof fn a_step_makes_progress(state: BundleState, event: BundleEventView)
    requires
        state.well_formed(),
        state.expects(event),
    ensures
        bundle_step(state, event).0.well_formed(),
        0 <= events_left(bundle_step(state, event).0) < events_left(state),
{
}

/// The event tells how the action went; an answer to a question is one that the
/// session can read. Nothing follows the end of a session.
pub open spec fn replies_to(event: BundleEventView, action: BundleActionView) -> bool {
    match action {
        BundleActionView::QueryBalance(_) => event is Balance,
        BundleActionView::QueryBlockhash => event is Blockhash,
        BundleActionView::Submit(_) => event is Submitted,
        BundleActionView::QueryStatuses(_) => event matches BundleEventView::Statuses(answer)
            && readable(answer),
        BundleActionView::Abort => false,
        BundleActionView::Finish(_) => false,
    }
}

/// After an answer, the session waits for the reply to the action that it asked
/// for, and for nothing else; after the last action it is finished.
pub proof fn the_reply_is_expected(
    state: BundleState,
    event: BundleEventView,
    reply: BundleEventView,
)
    requires
        state.expects(event),
    ensures
        ({
            let (next, reaction) = bundle_step(state, event);
            &&& next.expects(reply) <==> replies_to(reply, reaction.action)
            &&& next.stage is Finished <==> reaction.action is Abort || reaction.action is Finish
        }),
{
}

/// The action that comes before the next event: the last answer, or `first`.
pub open spec fn pending_action(
    state: BundleState,
    first: BundleActionView,
    events: Seq<BundleEventView>,
) -> BundleActionView {
    match replay(state, events).1 {
        Some(reaction) => reaction.action,
        None => first,
    }
}

/// Every event of the run is a reply to the action before it.
pub open spec fn replied(
    state: BundleState,
    first: BundleActionView,
    events: Seq<BundleEventView>,
) -> bool
    decreases events.len(),
{
    events.len() > 0 ==> {
        &&& replied(state, first, events.drop_last())
        &&& replies_to(events.last(), pending_action(state, first, events.drop_last()))
    }
}

/// A session takes every run of replies: whoever performs its actions and reports
/// how they went never comes with an event that it does not wait for.
pub proof fn replies_are_accepted(
    signer: Seq<u8>,
    ixs: Seq<InstructionView>,
    raised_fee: Option<u64>,
    events: Seq<BundleEventView>,
)
    requires
        replied(
            bundle_start(signer, ixs, raised_fee),
            first_bundle_reaction(signer).action,
            events,
        ),
    ensures
        accepted(bundle_start(signer, ixs, raised_fee), events),
    decreases events.len(),
{
    if events.len() > 0 {
        let state = bundle_start(signer, ixs, raised_fee);
        let before = events.drop_last();
        replies_are_accepted(signer, ixs, raised_fee, before);
        if before.len() > 0 {
            the_reply_is_expected(
                replay(state, before.drop_last()).0,
                before.last(),
                events.last(),
            );
        }
    }
}

/// A session ends: from its start it takes no more than three events, and one for
/// each of its twenty-one questions.
pub proof fn a_session_ends(state: BundleState, events: Seq<BundleEventView>)
    requires
        state.well_formed(),
        accepted(state, events),
    ensures
        replay(state, events).0.well_formed(),
        events.len() + events_left(replay(state, events).0) <= events_left(state),
        events_left(replay(state, events).0) >= 0,
    decreases events.len(),
{
    if events.len() > 0 {
        a_session_ends(state, events.drop_last());
        a_step_makes_progress(replay(state, events.drop_last()).0, events.last());
    }
}

/// A session submits its bundle once at most, and asks after it twenty-one times
/// at most.
pub proof fn requests_are_bounded(state: BundleState, events: Seq<BundleEventView>)
    requires
        state.well_formed(),
        state.stage is Balance,
        accepted(state, events),
    ensures
        submissions(state, events) == if replay(state, events).0.payload is Signed {
            1nat
        } else {
            0nat
        },
        questions(state, events) <= GATEWAY_RETRIES + 1,
        replay(state, events).0.stage is Statuses ==> questions(state, events) == replay(
            state,
            events,
        ).0.attempts + 1,
        !(replay(state, events).0.stage is Statuses) && !(replay(state, events).0.stage is Finished)
            ==> questions(state, events) == 0,
    decreases events.len(),
{
    a_session_ends(state, events);
    if events.len() > 0 {
        requests_are_bounded(state, events.drop_last());
        a_session_ends(state, events.drop_last());
    }
}

/// What a session submits is what it was begun with: one transaction, which calls
/// the instructions in order, and which the payer alone has signed.
pub proof fn a_session_submits_its_instructions(
    state: BundleState,
    ixs: Seq<InstructionView>,
    payer: Seq<u8>,
    events: Seq<BundleEventView>,
)
    requires
        state.well_formed(),
        state.stage is Balance,
        lists_accounts(state.payload->Unsigned_0, ixs, payer),
        calls_instructions(state.payload->Unsigned_0, ixs),
        accepted(state, events),
    ensures
        match replay(state, events).0.payload {
            PayloadView::Signed(transaction) => {
                &&& lists_accounts(transaction.message, ixs, payer)
                &&& calls_instructions(transaction.message, ixs)
                &&& transaction.signatures.len() == 1
            },
            PayloadView::Unsigned(message) => message == state.payload->Unsigned_0,
        },
        replay(state, events).1 matches Some(reaction) ==> (reaction.action
            matches BundleActionView::Submit(request) ==> request == call(
            "sendBundle"@,
            seq![binary_encoding(replay(state, events).0.payload->Signed_0)],
        )),
    decreases events.len(),
{
    if events.len() > 0 {
        a_session_submits_its_instructions(state, ixs, payer, events.drop_last());
        a_session_ends(state, events.drop_last());
        if let BundleEventView::Blockhash(blockhash) = events.last() {
            signing_keeps_the_instructions(
                state.payload->Unsigned_0,
                ixs,
                payer,
                replay(state, events.drop_last()).0.signer,
                blockhash,
            );
        }
    }
}

/// Every question of a session is after the bundle that the block engine took.
pub proof fn every_question_names_the_bundle(
    state: BundleState,
    reply: BundleSendView,
    events: Seq<BundleEventView>,
)
    requires
        state.stage is Submission,
        state.well_formed(),
        events.len() > 0,
        events[0] == BundleEventView::Submitted(Ok(reply)),
        accepted(state, events),
    ensures
        replay(state, events).0.bundle_id == reply.result,
        !(replay(state, events).0.stage is Submission),
        replay(state, events).1->0.action matches BundleActionView::QueryStatuses(request)
            ==> request == call("getBundleStatuses"@, seq![reply.result]),
    decreases events.len(),
{
    if events.len() > 1 {
        assert(events.drop_last()[0] == events[0]);
        every_question_names_the_bundle(state, reply, events.drop_last());
        a_session_ends(state, events.drop_last());
    } else {
        assert(events.drop_last().len() == 0);
    }
}

/// A miner that cannot pay never submits: the session aborts on its first event.
pub proof fn no_balance_no_submission(state: BundleState, balance: Option<u64>)
    requires
        state.stage is Balance,
        !balance_suffices(balance),
    ensures
        bundle_step(state, BundleEventView::Balance(balance)).0.stage is Finished,
        bundle_step(state, BundleEventView::Balance(balance)).1.action is Abort,
{
}

/// A bundle that the block engine does not take ends the session at once.
pub proof fn a_refused_bundle_is_not_retried(state: BundleState, text: Seq<char>)
    requires
        state.stage is Submission,
    ensures
        bundle_step(state, BundleEventView::Submitted(Err(text))).0.stage is Finished,
        bundle_step(state, BundleEventView::Submitted(Err(text))).1.action
            == BundleActionView::Finish(Err(SendErrorView::SubmitBundle)),
{
}

/// The reply to one question: what is known of the bundle, or an error.
pub type Answer = Result<Seq<BundleStatusView>, Seq<char>>;

/// The reply reports the bundle as confirmed.
pub open spec fn confirms(answer: Answer) -> bool {
    answer matches Ok(reply) && is_landed(reply)
}

/// The session can read the reply.
pub open spec fn readable(answer: Answer) -> bool {
    answer matches Ok(reply) ==> is_complete(reply)
}

/// The events of several questions.
pub open spec fn answers(list: Seq<Answer>) -> Seq<BundleEventView> {
    list.map_values(|answer: Answer| BundleEventView::Statuses(answer))
}

proof fn lemma_answer(state: BundleState, list: Seq<Answer>)
    requires
        list.len() > 0,
        accepted(state, answers(list.drop_last())),
        replay(state, answers(list.drop_last())).0.stage is Statuses,
        readable(list.last()),
    ensures
        accepted(state, answers(list)),
        replay(state, answers(list)).0 == bundle_step(
            replay(state, answers(list.drop_last())).0,
            BundleEventView::Statuses(list.last()),
        ).0,
        replay(state, answers(list)).1 == Some(
            bundle_step(
                replay(state, answers(list.drop_last())).0,
                BundleEventView::Statuses(list.last()),
            ).1,
        ),
{
    assert(answers(list).drop_last() =~= answers(list.drop_last()));
    assert(answers(list).last() == BundleEventView::Statuses(list.last()));
}

/// Replies that confirm nothing leave the session asking.
proof fn lemma_unconfirmed(state: BundleState, list: Seq<Answer>)
    requires
        state.stage is Statuses,
        state.attempts == 0,
        list.len() <= GATEWAY_RETRIES,
        forall|i: int| 0 <= i < list.len() ==> !confirms(#[trigger] list[i]),
    ensures
        accepted(state, answers(list)),
        replay(state, answers(list)).0.stage is Statuses,
        replay(state, answers(list)).0.attempts == list.len(),
    decreases list.len(),
{
    if list.len() > 0 {
        assert(!confirms(list[list.len() - 1]));
        lemma_unconfirmed(state, list.drop_last());
        lemma_answer(state, list);
    }
}

/// The first reply that confirms the bundle decides the session.
pub proof fn first_confirmation_decides(state: BundleState, list: Seq<Answer>)
    requires
        state.stage is Statuses,
        state.attempts == 0,
        0 < list.len() <= GATEWAY_RETRIES + 1,
        forall|i: int| 0 <= i < list.len() - 1 ==> !confirms(#[trigger] list[i]),
        confirms(list.last()),
        readable(list.last()),
    ensures
        accepted(state, answers(list)),
        replay(state, answers(list)).0.stage is Finished,
        replay(state, answers(list)).1->0.action == BundleActionView::Finish(Ok(())),
{
    lemma_unconfirmed(state, list.drop_last());
    lemma_answer(state, list);
}

/// Twenty-one replies that confirm nothing end the session for want of retries.
pub proof fn unconfirmed_answers_run_out(state: BundleState, list: Seq<Answer>)
    requires
        state.stage is Statuses,
        state.attempts == 0,
        list.len() == GATEWAY_RETRIES + 1,
        forall|i: int| 0 <= i < list.len() ==> !confirms(#[trigger] list[i]),
    ensures
        accepted(state, answers(list)),
        replay(state, answers(list)).0.stage is Finished,
        replay(state, answers(list)).1->0.action == BundleActionView::Finish(
            Err(SendErrorView::MaxRetries),
        ),
{
    assert(!confirms(list[list.len() - 1]));
    lemma_unconfirmed(state, list.drop_last());
    lemma_answer(state, list);
}

/// The balance decides on its number alone: above 0.005 SOL the session tells of a
/// fee that the difficulty may have raised and asks for the latest block, at or below
/// it the session aborts and says how little there is. A balance that could not be
/// read stops nothing.
pub proof fn the_balance_decides(state: BundleState, lamports: u64)
    ensures
        ({
            let (next, reaction) = bundle_step(state, BundleEventView::Balance(Some(lamports)));
            &&& lamports > 5_000_000 ==> {
                &&& next == (BundleState { stage: BundleStage::Blockhash, ..state })
                &&& reaction.action is QueryBlockhash
                &&& reaction.announce is None
                &&& state.raised_fee is None ==> reaction.report is None
                &&& state.raised_fee matches Some(fee) ==> reaction.report == Some(
                    LineView {
                        outlet: Outlet::Console,
                        badge: Badge::Plain,
                        text: "change extra fee to "@ + decimal(fee as nat),
                    },
                )
            }
            &&& lamports <= 5_000_000 ==> {
                &&& next == (BundleState { stage: BundleStage::Finished, ..state })
                &&& reaction.action is Abort
                &&& reaction.report is None
                &&& reaction.announce matches Some(line) && line.badge == Badge::Failure
                    && line.text == " Insufficient balance: "@ + sol_text(lamports)
                    + " SOL\nPlease top up with at least 0.005 SOL"@
            }
            &&& reaction.delay_ms == 0
        }),
        ({
            let (next, reaction) = bundle_step(state, BundleEventView::Balance(None));
            &&& next == (BundleState { stage: BundleStage::Blockhash, ..state })
            &&& reaction.action is QueryBlockhash
            &&& reaction.announce is None
            &&& reaction.delay_ms == 0
            &&& state.raised_fee is None ==> reaction.report is None
            &&& state.raised_fee matches Some(fee) ==> reaction.report == Some(
                LineView {
                    outlet: Outlet::Console,
                    badge: Badge::Plain,
                    text: "change extra fee to "@ + decimal(fee as nat),
                },
            )
        }),
{
}

/// A larger balance never stops a session that a smaller one lets go on.
pub proof fn more_balance_never_stops(state: BundleState, lower: u64, higher: u64)
    requires
        lower <= higher,
        bundle_step(state, BundleEventView::Balance(Some(lower))).1.action is QueryBlockhash,
    ensures
        bundle_step(state, BundleEventView::Balance(Some(higher))).1.action is QueryBlockhash,
{
}

/// The latest block turns the message into a transaction for that block, signed on
/// it by the signer of the session, and a bundle of that one transaction goes to the
/// block engine at once.
pub proof fn the_block_is_signed_for(
    state: BundleState,
    message: MessageView,
    blockhash: Seq<u8>,
)
    requires
        state.payload == PayloadView::Unsigned(message),
    ensures
        ({
            let (next, reaction) = bundle_step(state, BundleEventView::Blockhash(blockhash));
            let transaction = TransactionView {
                signatures: seq![message_signature(state.signer, message, blockhash)],
                recent_blockhash: blockhash,
                message,
            };
            &&& next == (BundleState {
                stage: BundleStage::Submission,
                payload: PayloadView::Signed(transaction),
                ..state
            })
            &&& reaction.report is None
            &&& reaction.delay_ms == 0
            &&& reaction.announce == Some(
                LineView {
                    outlet: Outlet::Spinner,
                    badge: Badge::Plain,
                    text: "Submitting jito transaction... (attempt 0)"@,
                },
            )
            &&& reaction.action == BundleActionView::Submit(
                RpcRequestView {
                    jsonrpc: "2.0"@,
                    id: 1,
                    method: "sendBundle"@,
                    params: seq![seq![binary_encoding(transaction)]],
                },
            )
        }),
{
}

/// The session asks after the bundle of the given identity, and says so with the
/// number of the question.
pub open spec fn asks_after(
    bundle_id: Seq<char>,
    number: nat,
    reaction: ReactionView<BundleActionView>,
) -> bool {
    &&& reaction.announce == Some(
        LineView {
            outlet: Outlet::Console,
            badge: Badge::Plain,
            text: "query bundle bundle_id: "@ + bundle_id + ", attempts: "@ + decimal(number),
        },
    )
    &&& reaction.action == BundleActionView::QueryStatuses(
        RpcRequestView {
            jsonrpc: "2.0"@,
            id: 1,
            method: "getBundleStatuses"@,
            params: seq![seq![bundle_id]],
        },
    )
}

/// A bundle that the block engine took is shown with its whole reply and asked after
/// at once, under the very identity that the reply gives, whatever it is.
pub proof fn a_taken_bundle_is_asked_after(state: BundleState, reply: BundleSendView)
    ensures
        ({
            let (next, reaction) = bundle_step(state, BundleEventView::Submitted(Ok(reply)));
            &&& next == (BundleState {
                stage: BundleStage::Statuses,
                bundle_id: reply.result,
                ..state
            })
            &&& reaction.delay_ms == 0
            &&& reaction.report == Some(
                LineView {
                    outlet: Outlet::SpinnerEnd,
                    badge: Badge::Plain,
                    text: "Sent: BundleSendResponse { id: "@ + decimal(reply.id as nat)
                        + ", jsonrpc: "@ + quoted_text(reply.jsonrpc) + ", result: "@
                        + quoted_text(reply.result) + " }"@,
                },
            )
            &&& asks_after(reply.result, state.attempts, reaction)
        }),
{
}

/// A bundle that the block engine did not take ends the session, with the whole error
/// on the spinner.
pub proof fn a_refused_bundle_shows_its_error(state: BundleState, text: Seq<char>)
    ensures
        ({
            let (next, reaction) = bundle_step(state, BundleEventView::Submitted(Err(text)));
            &&& next == (BundleState { stage: BundleStage::Finished, ..state })
            &&& reaction == (ReactionView {
                report: Some(
                    LineView {
                        outlet: Outlet::Spinner,
                        badge: Badge::Failure,
                        text: ": "@ + text,
                    },
                ),
                delay_ms: 0,
                announce: None,
                action: BundleActionView::Finish(Err(SendErrorView::SubmitBundle)),
            })
        }),
{
}

/// A reply whose first entry says `confirmed` ends the session well, and shows the
/// first transaction of that entry.
pub proof fn a_confirmed_bundle_ends_the_session(
    state: BundleState,
    reply: Seq<BundleStatusView>,
)
    requires
        reply.len() > 0,
        reply[0].confirmation_status == "confirmed"@,
    ensures
        ({
            let (next, reaction) = bundle_step(state, BundleEventView::Statuses(Ok(reply)));
            &&& next == (BundleState { stage: BundleStage::Finished, ..state })
            &&& reaction == (ReactionView {
                report: None,
                delay_ms: 0,
                announce: Some(
                    LineView {
                        outlet: Outlet::Console,
                        badge: Badge::Plain,
                        text: " Bundle landed successfully\n https://solscan.io/tx/"@
                            + reply[0].transactions[0] + "?cluster=mainnet"@,
                    },
                ),
                action: BundleActionView::Finish(Ok(())),
            })
        }),
{
}

/// The session asks again: two seconds later it asks after the same bundle with the
/// next number, as long as fewer than twenty numbers were used up. After the
/// twentieth the session ends for want of retries.
pub open spec fn asks_again(
    state: BundleState,
    report: Option<LineView>,
    next: BundleState,
    reaction: ReactionView<BundleActionView>,
) -> bool {
    &&& reaction.report == report
    &&& reaction.delay_ms == 2000
    &&& state.attempts < 20 ==> {
        &&& next == (BundleState {
            stage: BundleStage::Statuses,
            attempts: state.attempts + 1,
            ..state
        })
        &&& asks_after(state.bundle_id, state.attempts + 1, reaction)
    }
    &&& state.attempts >= 20 ==> {
        &&& next == (BundleState { stage: BundleStage::Finished, ..state })
        &&& reaction.action == BundleActionView::Finish(Err(SendErrorView::MaxRetries))
        &&& reaction.announce == Some(
            LineView {
                outlet: Outlet::SpinnerEnd,
                badge: Badge::Failure,
                text: ": "@ + "Max retries"@,
            },
        )
    }
}

/// A question that confirmed nothing is asked again: the reply has no entry, its first
/// entry says something else than `confirmed`, or there was no reply. An error is
/// shown on the console.
pub proof fn a_vain_question_is_asked_again(
    state: BundleState,
    reply: Seq<BundleStatusView>,
    text: Seq<char>,
)
    ensures
        reply.len() == 0 || reply[0].confirmation_status != "confirmed"@ ==> {
            let (next, reaction) = bundle_step(state, BundleEventView::Statuses(Ok(reply)));
            asks_again(state, None, next, reaction)
        },
        ({
            let (next, reaction) = bundle_step(state, BundleEventView::Statuses(Err(text)));
            asks_again(
                state,
                Some(LineView { outlet: Outlet::Console, badge: Badge::Plain, text }),
                next,
                reaction,
            )
        }),
{
}

/// A session ends well only if the first entry of a reply says `confirmed`. It fails
/// only if the block engine does not take the bundle, or after its last question.
pub proof fn no_outcome_without_a_reason(state: BundleState, event: BundleEventView)
    requires
        state.well_formed(),
        state.expects(event),
    ensures
        bundle_step(state, event).1.action matches BundleActionView::Finish(Ok(_)) ==> {
            event matches BundleEventView::Statuses(Ok(reply)) && reply.len() > 0
                && reply[0].confirmation_status == "confirmed"@
        },
        bundle_step(state, event).1.action matches BundleActionView::Finish(Err(error)) ==> {
            ||| error == SendErrorView::SubmitBundle && (event matches BundleEventView::Submitted(
                Err(_),
            ))
            ||| error == SendErrorView::MaxRetries && state.attempts == 20
        },
{
}

/// The tip of a miner pays the very fee from the miner to the recipient, by the
/// program of the network that moves lamports.
pub proof fn a_tip_pays_the_fee(payer: Seq<u8>, recipient: int, fee: u64)
    ensures
        ({
            let ix = tip(payer, recipient, fee);
            &&& ix.program_id.len() == 32
            &&& forall|i: int| 0 <= i < 32 ==> ix.program_id[i] == 0
            &&& ix.accounts.len() == 2
            &&& ix.accounts[0].pubkey == payer
            &&& ix.accounts[0].is_signer
            &&& ix.accounts[0].is_writable
            &&& ix.accounts[1].pubkey == JITO_RECIPIENTS@[recipient]@
            &&& !ix.accounts[1].is_signer
            &&& ix.accounts[1].is_writable
            &&& ix.data.len() == 12
            &&& ix.data[0] == 2 && ix.data[1] == 0 && ix.data[2] == 0 && ix.data[3] == 0
            &&& ix.data[4] + 0x100 * ix.data[5] + 0x1_0000 * ix.data[6] + 0x100_0000 * ix.data[7]
                + 0x1_0000_0000 * ix.data[8] + 0x100_0000_0000 * ix.data[9] + 0x1_0000_0000_0000
                * ix.data[10] + 0x100_0000_0000_0000 * ix.data[11] == fee
        }),
{
    a_transfer_moves_its_amount(payer, JITO_RECIPIENTS@[recipient]@, fee);
}

/// Nothing keeps a miner from sending a bundle but a fee that cannot be computed, or
/// instructions that it cannot sign together with the tip to one of the eight
/// recipients.
pub proof fn nothing_else_keeps_from_bundling(
    signer: Seq<u8>,
    priority_fee: u64,
    ixs: Seq<InstructionView>,
    budget: ComputeBudget,
    difficult: u32,
)
    requires
        fee_fits(priority_fee as nat, difficult as nat),
        forall|recipient: int|
            0 <= recipient < 8 ==> signable(
                bundle_list(
                    budget,
                    #[trigger] tip(
                        signer.subrange(32, 64),
                        recipient,
                        adjusted_fee(priority_fee as nat, difficult as nat) as u64,
                    ),
                    ixs,
                ),
                signer.subrange(32, 64),
            ),
    ensures
        bundle_ready(signer, priority_fee, ixs, budget, difficult),
{
}

/// A session begins with the balance, before its first question and without a bundle,
/// and with the message that is compiled from its instructions.
pub proof fn a_session_begins_with_the_balance(
    state: BundleState,
    ixs: Seq<InstructionView>,
    signer: Seq<u8>,
    raised_fee: Option<u64>,
)
    requires
        begins_bundle(state, ixs, signer, raised_fee),
    ensures
        state.stage is Balance,
        state.attempts == 0,
        state.signer == signer,
        state.bundle_id.len() == 0,
        state.raised_fee == raised_fee,
        state.payload == PayloadView::Unsigned(compiled_message(ixs, signer.subrange(32, 64))),
        state.payload->Unsigned_0.instructions.len() == ixs.len(),
        forall|i: int|
            0 <= i < ixs.len() ==> (#[trigger] state.payload->Unsigned_0.instructions[i]).data
                == ixs[i].data,
        first_bundle_reaction(signer) == (ReactionView {
            report: None,
            delay_ms: 0,
            announce: None,
            action: BundleActionView::QueryBalance(signer.subrange(32, 64)),
        }),
{
}

/// A session submits one bundle at most, asks after it twenty-one times at most, and
/// takes twenty-four events at most.
pub proof fn twenty_one_questions_at_most(state: BundleState, events: Seq<BundleEventView>)
    requires
        state.well_formed(),
        state.stage is Balance,
        accepted(state, events),
    ensures
        submissions(state, events) <= 1,
        questions(state, events) <= 21,
        events.len() <= 24,
{
    requests_are_bounded(state, events);
    a_session_ends(state, events);
}

/// What is stated of an event speaks of all that was reported; an error is told by
/// its message.
pub proof fn an_event_is_seen_whole(event: BundleEvent)
    ensures
        event matches BundleEvent::Balance(balance) ==> event@ == BundleEventView::Balance(
            balance,
        ),
        event matches BundleEvent::Blockhash(blockhash) ==> event@ == BundleEventView::Blockhash(
            blockhash@,
        ),
        event matches BundleEvent::Submitted(Ok(reply)) ==> event@ == BundleEventView::Submitted(
            Ok(reply@),
        ),
        event matches BundleEvent::Submitted(Err(error)) ==> event@ == BundleEventView::Submitted(
            Err(request_error_text(error, carried_status(error))),
        ),
        event matches BundleEvent::Statuses(Ok(reply)) ==> event@ == BundleEventView::Statuses(
            Ok(reply@),
        ),
        event matches BundleEvent::Statuses(Err(error)) ==> event@ == BundleEventView::Statuses(
            Err(request_error_text(error, carried_status(error))),
        ),
{
}

/// What is stated of an action speaks of all that is to be done.
pub proof fn an_action_is_seen_whole(action: BundleAction)
    ensures
        action matches BundleAction::QueryBalance(account) ==> action@
            == BundleActionView::QueryBalance(account@),
        action is QueryBlockhash ==> action@ is QueryBlockhash,
        action matches BundleAction::Submit(request) ==> action@ == BundleActionView::Submit(
            request@,
        ),
        action matches BundleAction::QueryStatuses(request) ==> action@
            == BundleActionView::QueryStatuses(request@),
        action is Abort ==> action@ is Abort,
        action matches BundleAction::Finish(Ok(_)) ==> action@ == BundleActionView::Finish(Ok(())),
        action matches BundleAction::Finish(Err(error)) ==> action@ == BundleActionView::Finish(
            Err(error@),
        ),
{
}

/// What a session submits as a bundle calls every instruction of the caller, in order
/// and with all of its data, behind the limit, a price of nothing and the tip, which
/// is the very fee.
pub proof fn every_instruction_reaches_the_block_engine(
    state: BundleState,
    budget: ComputeBudget,
    recipient: int,
    fee: u64,
    ixs: Seq<InstructionView>,
    payer: Seq<u8>,
    events: Seq<BundleEventView>,
)
    requires
        state.well_formed(),
        state.stage is Balance,
        lists_accounts(
            state.payload->Unsigned_0,
            bundle_list(budget, tip(payer, recipient, fee), ixs),
            payer,
        ),
        calls_instructions(
            state.payload->Unsigned_0,
            bundle_list(budget, tip(payer, recipient, fee), ixs),
        ),
        accepted(state, events),
    ensures
        replay(state, events).0.payload matches PayloadView::Signed(transaction) ==> {
            let calls = transaction.message.instructions;
            let pays = calls[2].data;
            &&& calls.len() == ixs.len() + 3
            &&& forall|i: int|
                0 <= i < ixs.len() ==> {
                    &&& (#[trigger] calls[i + 3]).data == ixs[i].data
                    &&& calls[i + 3].accounts.len() == ixs[i].accounts.len()
                }
            &&& forall|i: int| 1 <= i < 9 ==> calls[1].data[i] == 0
            &&& pays.len() == 12
            &&& pays[4] + 0x100 * pays[5] + 0x1_0000 * pays[6] + 0x100_0000 * pays[7]
                + 0x1_0000_0000 * pays[8] + 0x100_0000_0000 * pays[9] + 0x1_0000_0000_0000
                * pays[10] + 0x100_0000_0000_0000 * pays[11] == fee
        },
{
    let paid = tip(payer, recipient, fee);
    let list = bundle_list(budget, paid, ixs);
    a_session_submits_its_instructions(state, list, payer, events);
    the_bundle_list_holds_the_tip_and_every_instruction(budget, paid, ixs);
    a_tip_pays_the_fee(payer, recipient, fee);
    if let PayloadView::Signed(transaction) = replay(state, events).0.payload {
        let calls = transaction.message.instructions;
        assert(calls[1].data == list[1].data);
        assert(calls[2].data == list[2].data);
        assert forall|i: int| 0 <= i < ixs.len() implies {
            &&& (#[trigger] calls[i + 3]).data == ixs[i].data
            &&& calls[i + 3].accounts.len() == ixs[i].accounts.len()
        } by {
            assert(list[i + 3] == ixs[i]);
        }
    }
}

/// A miner sends all of its caller's instructions in a bundle, in order, pays nothing
/// for their units, and tips the recipient with the fee at the difficulty, to the
/// last bit.
pub proof fn a_miner_tips_its_adjusted_fee(
    miner: Miner,
    ixs: Seq<Instruction>,
    budget: ComputeBudget,
    difficult: u32,
    recipient: int,
)
    requires
        fee_fits(miner.priority_fee as nat, difficult as nat),
    ensures
        ({
            let calls = bundle_calls(miner, ixs, budget, difficult, recipient);
            let (limit, tips) = (calls[0].data, calls[2].data);
            &&& calls.len() == ixs.len() + 3
            &&& forall|i: int| 0 <= i < ixs.len() ==> #[trigger] calls[i + 3] == ixs[i]@
            &&& limit.len() == 5
            &&& limit[0] == 2
            &&& limit[1] + 0x100 * limit[2] + 0x1_0000 * limit[3] + 0x100_0000 * limit[4]
                == match budget {
                ComputeBudget::Dynamic => 1_400_000,
                ComputeBudget::Fixed(units) => units as int,
            }
            &&& calls[1].data.len() == 9
            &&& calls[1].data[0] == 3
            &&& forall|i: int| 1 <= i < 9 ==> calls[1].data[i] == 0
            &&& calls[2].accounts.len() == 2
            &&& calls[2].accounts[0].pubkey == miner.signer@.subrange(32, 64)
            &&& calls[2].accounts[1].pubkey == JITO_RECIPIENTS@[recipient]@
            &&& tips.len() == 12
            &&& tips[4] + 0x100 * tips[5] + 0x1_0000 * tips[6] + 0x100_0000 * tips[7]
                + 0x1_0000_0000 * tips[8] + 0x100_0000_0000 * tips[9] + 0x1_0000_0000_0000
                * tips[10] + 0x100_0000_0000_0000 * tips[11] == adjusted_fee(
                miner.priority_fee as nat,
                difficult as nat,
            )
        }),
{
    let views = instruction_views(ixs);
    let payer = address_of(miner.signer@);
    let fee = adjusted_fee(miner.priority_fee as nat, difficult as nat) as u64;
    let calls = bundle_calls(miner, ixs, budget, difficult, recipient);
    the_bundle_list_holds_the_tip_and_every_instruction(budget, tip(payer, recipient, fee), views);
    a_tip_pays_the_fee(payer, recipient, fee);
    assert forall|i: int| 0 <= i < ixs.len() implies #[trigger] calls[i + 3] == ixs[i]@ by {
        assert(bundle_list(budget, tip(payer, recipient, fee), views)[i + 3] == views[i]);
    }
}

} // verus!
