//! What holds of every session with the gateway, whatever the network does.

use crate::balance::{balance_suffices, sol_text};
use crate::instruction::{lemma_little_endian_len, ComputeBudget, InstructionView};
use crate::limits::{
    addresses, countable, few_accounts_are_signable, lemma_mentioned_concat, mentioned,
    signable, signed_by_payer_alone, LIST_MAX, READONLY_MAX,
};
use crate::miner::{
    compute_units, gateway_list, the_gateway_list_holds_the_price_and_every_instruction,
};
use crate::send::{
    send_start, send_step, status_verdict, status_views, verdict, ConfirmationStatus,
    PayloadView, SendAction, SendActionView, SendEvent, SendEventView, SendStageView, SendState,
    SignatureStatus, StatusView, VerdictView, CONFIRM_RETRIES,
};
use crate::session::{ReactionView, SendErrorView, GATEWAY_RETRIES};
use crate::text::{decimal, Badge, LineView, Outlet};
use crate::transaction::{
    address_of, calls_instructions, compiled_message, lists_accounts, message_signature,
    signature_text, signed, MessageView, TransactionView,
};
use vstd::prelude::*;

verus! {

/// The session after a run of events, and its answer to the last of them.
pub open spec fn replay(state: SendState, events: Seq<SendEventView>) -> (
    SendState,
    Option<ReactionView<SendActionView>>,
)
    decreases events.len(),
{
    if events.len() == 0 {
        (state, None)
    } else {
        let (next, reaction) = send_step(replay(state, events.drop_last()).0, events.last());
        (next, Some(reaction))
    }
}

/// Every event of the run is one that the session waits for when it comes.
pub open spec fn accepted(state: SendState, events: Seq<SendEventView>) -> bool
    decreases events.len(),
{
    events.len() > 0 ==> {
        &&& accepted(state, events.drop_last())
        &&& replay(state, events.drop_last()).0.expects(events.last())
    }
}

/// How many times the session hands its transaction to the gateway in a run.
pub open spec fn submissions(state: SendState, events: Seq<SendEventView>) -> nat
    decreases events.len(),
{
    if events.len() == 0 {
        0
    } else {
        submissions(state, events.drop_last()) + if replay(state, events).1->0.action is Submit {
            1nat
        } else {
            0nat
        }
    }
}

/// How many more events a session can take at most.
pub open spec fn events_left(state: SendState) -> int {
    let per_attempt = 1 + CONFIRM_RETRIES;
    match state.stage {
        SendStageView::Balance => 2 + (GATEWAY_RETRIES + 1) * per_attempt,
        SendStageView::Blockhash => 1 + (GATEWAY_RETRIES + 1) * per_attempt,
        SendStageView::Submission => (GATEWAY_RETRIES - state.attempts + 1) * per_attempt,
        SendStageView::Confirmation { round, .. } => (GATEWAY_RETRIES - state.attempts)
            * per_attempt + CONFIRM_RETRIES - round,
        SendStageView::Finished => 0,
    }
}

/// Instructions that mention few accounts can be sent to the gateway, if nobody but
/// the payer has to sign.
pub proof fn few_accounts_can_be_sent(
    budget: ComputeBudget,
    price: u64,
    ixs: Seq<InstructionView>,
    payer: Seq<u8>,
)
    requires
        signed_by_payer_alone(ixs, payer),
        countable(ixs),
        ixs.len() + 2 <= LIST_MAX,
        mentioned(ixs).len() + 2 <= READONLY_MAX,
    ensures
        signable(gateway_list(budget, price, ixs), payer),
{
    let list = gateway_list(budget, price, ixs);
    let head = list.take(2);
    assert(list =~= head + ixs);
    lemma_mentioned_concat(head, ixs);
    assert(mentioned(head).len() == 2) by {
        reveal_with_fuel(mentioned, 3);
        assert(addresses(head[0].accounts).len() == 0);
        assert(addresses(head[1].accounts).len() == 0);
        assert(head.drop_last().last() == head[0]);
    }
    lemma_little_endian_len(compute_units(budget) as nat, 4);
    lemma_little_endian_len(price as nat, 8);
    assert forall|i: int| 0 <= i < list.len() implies (#[trigger] list[i]).accounts.len()
        <= LIST_MAX && list[i].data.len() <= LIST_MAX by {
        if i >= 2 {
            assert(list[i] == ixs[i - 2]);
        }
    }
    assert forall|i: int, j: int| 0 <= i < list.len() && 0 <= j < list[i].accounts.len() implies {
        (#[trigger] list[i].accounts[j]).is_signer ==> list[i].accounts[j].pubkey == payer
    } by {
        if i >= 2 {
            assert(list[i].accounts[j] == ixs[i - 2].accounts[j]);
        }
    }
    few_accounts_are_signable(list, payer);
}

/// An answer keeps the session well formed, and brings it nearer to its end.
pub proof fn a_step_makes_progress(state: SendState, event: SendEventView)
    requires
        state.well_formed(),
        state.expects(event),
    ensures
        send_step(state, event).0.well_formed(),
        0 <= events_left(send_step(state, event).0) < events_left(state),
{
}

/// The event tells how the action went. Nothing follows the end of a session.
pub open spec fn replies_to(event: SendEventView, action: SendActionView) -> bool {
    match action {
        SendActionView::QueryBalance(_) => event is Balance,
        SendActionView::QueryBlockhash => event is Blockhash,
        SendActionView::Submit => event is Submitted,
        SendActionView::QueryStatuses(_) => event is Statuses,
        SendActionView::Abort => false,
        SendActionView::Finish(_) => false,
    }
}

/// After an answer, the session waits for the reply to the action that it asked
/// for, and for nothing else; after the last action it is finished.
pub proof fn the_reply_is_expected(state: SendState, event: SendEventView, reply: SendEventView)
    requires
        state.expects(event),
    ensures
        ({
            let (next, reaction) = send_step(state, event);
            &&& next.expects(reply) <==> replies_to(reply, reaction.action)
            &&& next.stage is Finished <==> reaction.action is Abort || reaction.action is Finish
            &&& reaction.action matches SendActionView::QueryStatuses(signature)
                ==> next.stage->signature == signature
        }),
{
}

/// The action that comes before the next event: the last answer, or `first`.
pub open spec fn pending_action(
    state: SendState,
    first: SendActionView,
    events: Seq<SendEventView>,
) -> SendActionView {
    match replay(state, events).1 {
        Some(reaction) => reaction.action,
        None => first,
    }
}

/// Every event of the run is a reply to the action before it.
pub open spec fn replied(
    state: SendState,
    first: SendActionView,
    events: Seq<SendEventView>,
) -> bool
    decreases events.len(),
{
    events.len() > 0 ==> {
        &&& replied(state, first, events.drop_last())
        &&& replies_to(events.last(), pending_action(state, first, events.drop_last()))
    }
}

/// A session takes every run of replies: whoever performs its actions and reports
/// how they went never comes with an event that it does not wait for.
pub proof fn replies_are_accepted(
    signer: Seq<u8>,
    skip_confirm: bool,
    ixs: Seq<InstructionView>,
    events: Seq<SendEventView>,
)
    requires
        replied(
            send_start(signer, skip_confirm, ixs),
            SendActionView::QueryBalance(address_of(signer)),
            events,
        ),
    ensures
        accepted(send_start(signer, skip_confirm, ixs), events),
    decreases events.len(),
{
    if events.len() > 0 {
        let state = send_start(signer, skip_confirm, ixs);
        let before = events.drop_last();
        replies_are_accepted(signer, skip_confirm, ixs, before);
        if before.len() > 0 {
            the_reply_is_expected(
                replay(state, before.drop_last()).0,
                before.last(),
                events.last(),
            );
        }
    }
}

/// A session ends: from its start it takes no more than two events, and two for
/// each of its twenty-one attempts.
pub proof fn a_session_ends(state: SendState, events: Seq<SendEventView>)
    requires
        state.well_formed(),
        accepted(state, events),
    ensures
        replay(state, events).0.well_formed(),
        events.len() + events_left(replay(state, events).0) <= events_left(state),
        events_left(replay(state, events).0) >= 0,
    decreases events.len(),
{
    if events.len() > 0 {
        a_session_ends(state, events.drop_last());
        a_step_makes_progress(replay(state, events.drop_last()).0, events.last());
    }
}

/// A session submits once for its first attempt and once for each retry, so
/// twenty-one times at most.
pub proof fn submissions_are_bounded(state: SendState, events: Seq<SendEventView>)
    requires
        state.well_formed(),
        state.stage is Balance,
        accepted(state, events),
    ensures
        submissions(state, events) == if replay(state, events).0.payload is Signed {
            replay(state, events).0.attempts + 1
        } else {
            0
        },
        submissions(state, events) <= GATEWAY_RETRIES + 1,
    decreases events.len(),
{
    a_session_ends(state, events);
    if events.len() > 0 {
        submissions_are_bounded(state, events.drop_last());
        a_session_ends(state, events.drop_last());
    }
}

/// Once signed, the transaction stays: every attempt submits the same one.
pub proof fn every_attempt_submits_the_same(state: SendState, events: Seq<SendEventView>)
    requires
        state.payload is Signed,
        state.well_formed(),
        accepted(state, events),
    ensures
        replay(state, events).0.payload == state.payload,
    decreases events.len(),
{
    if events.len() > 0 {
        every_attempt_submits_the_same(state, events.drop_last());
        a_session_ends(state, events.drop_last());
    }
}

/// What is submitted calls the instructions of the message, for the block that
/// was reported, under the one signature that it needs.
pub proof fn signing_keeps_the_instructions(
    message: MessageView,
    ixs: Seq<InstructionView>,
    payer: Seq<u8>,
    keypair: Seq<u8>,
    blockhash: Seq<u8>,
)
    requires
        lists_accounts(message, ixs, payer),
        calls_instructions(message, ixs),
    ensures
        lists_accounts(signed(message, keypair, blockhash).message, ixs, payer),
        calls_instructions(signed(message, keypair, blockhash).message, ixs),
        signed(message, keypair, blockhash).recent_blockhash == blockhash,
        signed(message, keypair, blockhash).signatures.len() == 1,
{
}

/// What a session submits is what it was begun with: a transaction that calls the
/// instructions in order, and that the payer alone has signed.
pub proof fn a_session_submits_its_instructions(
    state: SendState,
    ixs: Seq<InstructionView>,
    payer: Seq<u8>,
    events: Seq<SendEventView>,
)
    requires
        state.well_formed(),
        state.stage is Balance,
        lists_accounts(state.payload->Unsigned_0, ixs, payer),
        calls_instructions(state.payload->Unsigned_0, ixs),
        accepted(state, events),
    ensures
        match replay(state, events).0.payload {
            PayloadView::Signed(transaction) => {
                &&& lists_accounts(transaction.message, ixs, payer)
                &&& calls_instructions(transaction.message, ixs)
                &&& transaction.signatures.len() == 1
            },
            PayloadView::Unsigned(message) => message == state.payload->Unsigned_0,
        },
    decreases events.len(),
{
    if events.len() > 0 {
        a_session_submits_its_instructions(state, ixs, payer, events.drop_last());
        a_session_ends(state, events.drop_last());
        if let SendEventView::Blockhash(blockhash) = events.last() {
            signing_keeps_the_instructions(
                state.payload->Unsigned_0,
                ixs,
                payer,
                replay(state, events.drop_last()).0.signer,
                blockhash,
            );
        }
    }
}

/// A miner that cannot pay never submits: the session aborts on its first event.
pub proof fn no_balance_no_submission(state: SendState, balance: Option<u64>)
    requires
        state.stage is Balance,
        !balance_suffices(balance),
    ensures
        send_step(state, SendEventView::Balance(balance)).0.stage is Finished,
        send_step(state, SendEventView::Balance(balance)).1.action is Abort,
{
}

/// Of several statuses, the first that settles something decides.
pub proof fn first_settled_status_decides(list: Seq<Option<StatusView>>, first: int)
    requires
        0 <= first < list.len(),
        forall|i: int| 0 <= i < first ==> status_verdict(#[trigger] list[i]) is Pending,
        !(status_verdict(list[first]) is Pending),
    ensures
        verdict(list) == status_verdict(list[first]),
    decreases list.len(),
{
    if first > 0 {
        assert(status_verdict(list[0]) is Pending);
        assert forall|i: int| 0 <= i < first - 1 implies status_verdict(
            #[trigger] list.drop_first()[i],
        ) is Pending by {
            assert(list.drop_first()[i] == list[i + 1]);
        }
        assert(list.drop_first()[first - 1] == list[first]);
        first_settled_status_decides(list.drop_first(), first - 1);
    }
}

/// Statuses that settle nothing leave the transaction pending.
pub proof fn unsettled_statuses_leave_it_pending(list: Seq<Option<StatusView>>)
    requires
        forall|i: int| 0 <= i < list.len() ==> status_verdict(#[trigger] list[i]) is Pending,
    ensures
        verdict(list) is Pending,
    decreases list.len(),
{
    if list.len() > 0 {
        assert(status_verdict(list[0]) is Pending);
        assert forall|i: int| 0 <= i < list.len() - 1 implies status_verdict(
            #[trigger] list.drop_first()[i],
        ) is Pending by {
            assert(list.drop_first()[i] == list[i + 1]);
        }
        unsettled_statuses_leave_it_pending(list.drop_first());
    }
}

/// One attempt as the network sees it: the reply to the submission, and the reply
/// to the question after it, if it is asked.
pub struct Attempt {
    pub sent: Result<Seq<u8>, Seq<char>>,
    pub statuses: Result<Seq<Option<StatusView>>, Seq<char>>,
}

/// The events of an attempt.
pub open spec fn attempt_events(attempt: Attempt, skip_confirm: bool) -> Seq<SendEventView> {
    if attempt.sent is Err || skip_confirm {
        seq![SendEventView::Submitted(attempt.sent)]
    } else {
        seq![SendEventView::Submitted(attempt.sent), SendEventView::Statuses(attempt.statuses)]
    }
}

/// The events of several attempts.
pub open spec fn all_events(attempts: Seq<Attempt>, skip_confirm: bool) -> Seq<SendEventView>
    decreases attempts.len(),
{
    if attempts.len() == 0 {
        Seq::empty()
    } else {
        all_events(attempts.drop_last(), skip_confirm) + attempt_events(
            attempts.last(),
            skip_confirm,
        )
    }
}

/// The outcome that an attempt settles, if it settles one: the transaction was
/// taken, and it is known to have landed or failed, unless nobody asks.
pub open spec fn settles(attempt: Attempt, skip_confirm: bool) -> Option<
    Result<Seq<u8>, SendErrorView>,
> {
    match attempt.sent {
        Ok(signature) => if skip_confirm {
            Some(Ok(signature))
        } else {
            match attempt.statuses {
                Ok(list) => match verdict(list) {
                    VerdictView::Landed => Some(Ok(signature)),
                    VerdictView::Failed(reason) => Some(Err(SendErrorView::Transaction(reason))),
                    VerdictView::Pending => None,
                },
                Err(_) => None,
            }
        },
        Err(_) => None,
    }
}

proof fn lemma_replay_push(state: SendState, events: Seq<SendEventView>, event: SendEventView)
    requires
        accepted(state, events),
        replay(state, events).0.expects(event),
    ensures
        accepted(state, events.push(event)),
        replay(state, events.push(event)).0 == send_step(replay(state, events).0, event).0,
        replay(state, events.push(event)).1 == Some(
            send_step(replay(state, events).0, event).1,
        ),
{
    assert(events.push(event).drop_last() =~= events);
}

/// One more attempt, after a run that left the session waiting for a submission.
proof fn lemma_attempt(state: SendState, before: Seq<SendEventView>, attempt: Attempt)
    requires
        accepted(state, before),
        replay(state, before).0.stage is Submission,
    ensures
        ({
            let waiting = replay(state, before).0;
            let events = before + attempt_events(attempt, waiting.skip_confirm);
            let (next, reaction) = replay(state, events);
            &&& accepted(state, events)
            &&& match settles(attempt, waiting.skip_confirm) {
                Some(outcome) => {
                    &&& next.stage is Finished
                    &&& reaction->0.action == SendActionView::Finish(outcome)
                },
                None => if waiting.attempts < GATEWAY_RETRIES {
                    &&& next.stage is Submission
                    &&& next.attempts == waiting.attempts + 1
                    &&& next.skip_confirm == waiting.skip_confirm
                    &&& reaction->0.action is Submit
                } else {
                    &&& next.stage is Finished
                    &&& reaction->0.action == SendActionView::Finish(Err(SendErrorView::MaxRetries))
                },
            }
        }),
{
    let waiting = replay(state, before).0;
    let sent = SendEventView::Submitted(attempt.sent);
    lemma_replay_push(state, before, sent);
    if attempt.sent is Err || waiting.skip_confirm {
        assert(before + attempt_events(attempt, waiting.skip_confirm) =~= before.push(sent));
    } else {
        let statuses = SendEventView::Statuses(attempt.statuses);
        lemma_replay_push(state, before.push(sent), statuses);
        assert(before + attempt_events(attempt, waiting.skip_confirm) =~= before.push(sent).push(
            statuses,
        ));
    }
}

/// Attempts that settle nothing leave the session waiting for the next one.
proof fn lemma_unsettled(state: SendState, attempts: Seq<Attempt>)
    requires
        state.stage is Submission,
        state.attempts == 0,
        attempts.len() <= GATEWAY_RETRIES,
        forall|i: int|
            0 <= i < attempts.len() ==> settles(#[trigger] attempts[i], state.skip_confirm) is None,
    ensures
        ({
            let events = all_events(attempts, state.skip_confirm);
            let next = replay(state, events).0;
            &&& accepted(state, events)
            &&& next.stage is Submission
            &&& next.attempts == attempts.len()
            &&& next.skip_confirm == state.skip_confirm
        }),
    decreases attempts.len(),
{
    if attempts.len() > 0 {
        lemma_unsettled(state, attempts.drop_last());
        lemma_attempt(
            state,
            all_events(attempts.drop_last(), state.skip_confirm),
            attempts.last(),
        );
        assert(settles(attempts[attempts.len() - 1], state.skip_confirm) is None);
    }
}

/// The first attempt that settles an outcome decides the session: it returns the
/// signature of a transaction that landed (or was taken, if nobody asks), or the
/// error of one that failed.
pub proof fn first_settled_attempt_decides(state: SendState, attempts: Seq<Attempt>)
    requires
        state.stage is Submission,
        state.attempts == 0,
        0 < attempts.len() <= GATEWAY_RETRIES + 1,
        forall|i: int|
            0 <= i < attempts.len() - 1 ==> settles(#[trigger] attempts[i], state.skip_confirm)
                is None,
        settles(attempts.last(), state.skip_confirm) is Some,
    ensures
        accepted(state, all_events(attempts, state.skip_confirm)),
        replay(state, all_events(attempts, state.skip_confirm)).0.stage is Finished,
        replay(state, all_events(attempts, state.skip_confirm)).1->0.action
            == SendActionView::Finish(settles(attempts.last(), state.skip_confirm)->0),
{
    lemma_unsettled(state, attempts.drop_last());
    lemma_attempt(state, all_events(attempts.drop_last(), state.skip_confirm), attempts.last());
}

/// Twenty-one attempts that settle nothing end the session for want of retries.
pub proof fn unsettled_attempts_run_out(state: SendState, attempts: Seq<Attempt>)
    requires
        state.stage is Submission,
        state.attempts == 0,
        attempts.len() == GATEWAY_RETRIES + 1,
        forall|i: int|
            0 <= i < attempts.len() ==> settles(#[trigger] attempts[i], state.skip_confirm) is None,
    ensures
        accepted(state, all_events(attempts, state.skip_confirm)),
        replay(state, all_events(attempts, state.skip_confirm)).0.stage is Finished,
        replay(state, all_events(attempts, state.skip_confirm)).1->0.action
            == SendActionView::Finish(Err(SendErrorView::MaxRetries)),
{
    lemma_unsettled(state, attempts.drop_last());
    lemma_attempt(state, all_events(attempts.drop_last(), state.skip_confirm), attempts.last());
    assert(settles(attempts[attempts.len() - 1], state.skip_confirm) is None);
}

/// A status with an error fails the transaction for that very reason, however far
/// the network says it is.
pub proof fn an_error_fails_whatever_the_confirmation(status: StatusView, reason: Seq<char>)
    requires
        status.err == Some(reason),
    ensures
        verdict(seq![Some(status)]) == VerdictView::Failed(reason),
{
    first_settled_status_decides(seq![Some(status)], 0);
}

/// The first status that tells of an error or of a confirmation decides, and an error
/// counts before a confirmation.
pub proof fn the_first_telling_status_decides(
    list: Seq<Option<StatusView>>,
    first: int,
    status: StatusView,
)
    requires
        0 <= first < list.len(),
        list[first] == Some(status),
        forall|i: int|
            0 <= i < first && (#[trigger] list[i]) is Some ==> {
                &&& list[i]->0.err is None
                &&& list[i]->0.confirmation_status is None || list[i]->0.confirmation_status
                    == Some(ConfirmationStatus::Processed)
            },
    ensures
        status.err matches Some(reason) ==> verdict(list) == VerdictView::Failed(reason),
        status.err is None && (status.confirmation_status == Some(ConfirmationStatus::Confirmed)
            || status.confirmation_status == Some(ConfirmationStatus::Finalized)) ==> verdict(list)
            == VerdictView::Landed,
{
    assert forall|i: int| 0 <= i < first implies status_verdict(#[trigger] list[i]) is Pending by {
        if list[i] is Some {
            assert(list[i]->0.err is None);
        }
    }
    if status.err is Some || status.confirmation_status == Some(ConfirmationStatus::Confirmed)
        || status.confirmation_status == Some(ConfirmationStatus::Finalized) {
        first_settled_status_decides(list, first);
    }
}

/// Statuses that tell neither of an error nor of a confirmation leave it open.
pub proof fn silent_statuses_leave_it_open(list: Seq<Option<StatusView>>)
    requires
        forall|i: int|
            0 <= i < list.len() && (#[trigger] list[i]) is Some ==> {
                &&& list[i]->0.err is None
                &&& list[i]->0.confirmation_status is None || list[i]->0.confirmation_status
                    == Some(ConfirmationStatus::Processed)
            },
    ensures
        verdict(list) == VerdictView::Pending,
{
    assert forall|i: int| 0 <= i < list.len() implies status_verdict(
        #[trigger] list[i],
    ) is Pending by {
        if list[i] is Some {
            assert(list[i]->0.err is None);
        }
    }
    unsettled_statuses_leave_it_pending(list);
}

/// A transaction counts as landed only if some status says so without an error, and
/// no status before it tells anything; it counts as failed only for the error of
/// such a status.
pub proof fn nothing_lands_or_fails_unsaid(list: Seq<Option<StatusView>>)
    ensures
        verdict(list) is Landed ==> exists|first: int|
            0 <= first < list.len() && (#[trigger] list[first]) is Some && {
                &&& list[first]->0.err is None
                &&& list[first]->0.confirmation_status == Some(ConfirmationStatus::Confirmed)
                    || list[first]->0.confirmation_status == Some(ConfirmationStatus::Finalized)
                &&& forall|i: int|
                    0 <= i < first && (#[trigger] list[i]) is Some ==> list[i]->0.err is None
            },
        verdict(list) matches VerdictView::Failed(reason) ==> exists|first: int|
            0 <= first < list.len() && (#[trigger] list[first]) is Some && {
                &&& list[first]->0.err == Some(reason)
                &&& forall|i: int|
                    0 <= i < first && (#[trigger] list[i]) is Some ==> list[i]->0.err is None
            },
    decreases list.len(),
{
    if list.len() > 0 {
        let rest = list.drop_first();
        nothing_lands_or_fails_unsaid(rest);
        assert(list[0] is None || list[0] is Some);
        if status_verdict(list[0]) is Pending && !(verdict(list) is Pending) {
            let at = if verdict(list) is Landed {
                choose|first: int|
                    0 <= first < rest.len() && (#[trigger] rest[first]) is Some && {
                        &&& rest[first]->0.err is None
                        &&& rest[first]->0.confirmation_status == Some(
                            ConfirmationStatus::Confirmed,
                        ) || rest[first]->0.confirmation_status == Some(
                            ConfirmationStatus::Finalized,
                        )
                        &&& forall|i: int|
                            0 <= i < first && (#[trigger] rest[i]) is Some
                                ==> rest[i]->0.err is None
                    }
            } else {
                choose|first: int|
                    0 <= first < rest.len() && (#[trigger] rest[first]) is Some && {
                        &&& rest[first]->0.err == Some(verdict(list)->Failed_0)
                        &&& forall|i: int|
                            0 <= i < first && (#[trigger] rest[i]) is Some
                                ==> rest[i]->0.err is None
                    }
            };
            assert(list[at + 1] == rest[at]);
            assert forall|i: int|
                0 <= i < at + 1 && (#[trigger] list[i]) is Some implies list[i]->0.err is None by {
                if i > 0 {
                    assert(rest[i - 1] == list[i]);
                }
            }
        }
    }
}

/// The balance decides on its number alone: above 0.005 SOL the session asks for the
/// latest block, at or below it the session aborts and says how little there is. A
/// balance that could not be read stops nothing.
pub proof fn the_balance_decides(state: SendState, lamports: u64)
    ensures
        ({
            let (next, reaction) = send_step(state, SendEventView::Balance(Some(lamports)));
            &&& lamports > 5_000_000 ==> {
                &&& next == (SendState { stage: SendStageView::Blockhash, ..state })
                &&& reaction.action is QueryBlockhash
                &&& reaction.report is None
                &&& reaction.announce is None
            }
            &&& lamports <= 5_000_000 ==> {
                &&& next == (SendState { stage: SendStageView::Finished, ..state })
                &&& reaction.action is Abort
                &&& reaction.report is None
                &&& reaction.announce matches Some(line) && line.badge == Badge::Failure
                    && line.text == " Insufficient balance: "@ + sol_text(lamports)
                    + " SOL\nPlease top up with at least 0.005 SOL"@
            }
            &&& reaction.delay_ms == 0
        }),
        ({
            let (next, reaction) = send_step(state, SendEventView::Balance(None));
            &&& next == (SendState { stage: SendStageView::Blockhash, ..state })
            &&& reaction.action is QueryBlockhash
            &&& reaction.report is None
            &&& reaction.announce is None
            &&& reaction.delay_ms == 0
        }),
{
}

/// A larger balance never stops a session that a smaller one lets go on.
pub proof fn more_balance_never_stops(state: SendState, lower: u64, higher: u64)
    requires
        lower <= higher,
        send_step(state, SendEventView::Balance(Some(lower))).1.action is QueryBlockhash,
    ensures
        send_step(state, SendEventView::Balance(Some(higher))).1.action is QueryBlockhash,
{
}

/// The latest block turns the message into a transaction for that block, signed on
/// it by the signer of the session, and the first attempt follows at once.
pub proof fn the_block_is_signed_for(
    state: SendState,
    message: MessageView,
    blockhash: Seq<u8>,
)
    requires
        state.payload == PayloadView::Unsigned(message),
    ensures
        ({
            let (next, reaction) = send_step(state, SendEventView::Blockhash(blockhash));
            &&& next.payload == PayloadView::Signed(
                TransactionView {
                    signatures: seq![message_signature(state.signer, message, blockhash)],
                    recent_blockhash: blockhash,
                    message,
                },
            )
            &&& next.signer == state.signer
            &&& next.skip_confirm == state.skip_confirm
            &&& next.attempts == state.attempts
            &&& next.stage is Submission
            &&& reaction.report is None
            &&& reaction.delay_ms == 0
            &&& reaction.announce == Some(
                LineView {
                    outlet: Outlet::Spinner,
                    badge: Badge::Plain,
                    text: "Submitting transaction... (attempt "@ + decimal(0) + ")"@,
                },
            )
            &&& reaction.action is Submit
        }),
{
}

/// A transaction that the gateway took is the outcome at once if nobody is to
/// confirm it. Else the session asks after it, under the very signature that the
/// gateway gave.
pub proof fn a_taken_transaction_is_sent_or_asked_after(state: SendState, signature: Seq<u8>)
    ensures
        ({
            let (next, reaction) = send_step(state, SendEventView::Submitted(Ok(signature)));
            &&& reaction.report is None
            &&& reaction.delay_ms == 0
            &&& state.skip_confirm ==> {
                &&& next == (SendState { stage: SendStageView::Finished, ..state })
                &&& reaction.action == SendActionView::Finish(Ok(signature))
                &&& reaction.announce == Some(
                    LineView {
                        outlet: Outlet::SpinnerEnd,
                        badge: Badge::Plain,
                        text: "Sent: "@ + signature_text(signature),
                    },
                )
            }
            &&& !state.skip_confirm ==> {
                &&& next == (SendState {
                    stage: SendStageView::Confirmation { signature, round: 0 },
                    ..state
                })
                &&& reaction.action == SendActionView::QueryStatuses(signature)
                &&& reaction.announce is None
            }
        }),
{
}

/// The session tries again: 300 milliseconds later the same transaction goes out with
/// the next number, as long as fewer than twenty numbers were used up. After the
/// twentieth the session ends for want of retries.
pub open spec fn tries_again(
    state: SendState,
    report: Option<LineView>,
    next: SendState,
    reaction: ReactionView<SendActionView>,
) -> bool {
    &&& reaction.report == report
    &&& reaction.delay_ms == 300
    &&& next.payload == state.payload
    &&& next.signer == state.signer
    &&& next.skip_confirm == state.skip_confirm
    &&& state.attempts < 20 ==> {
        &&& next.attempts == state.attempts + 1
        &&& next.stage is Submission
        &&& reaction.action is Submit
        &&& reaction.announce == Some(
            LineView {
                outlet: Outlet::Spinner,
                badge: Badge::Plain,
                text: "Submitting transaction... (attempt "@ + decimal(state.attempts + 1) + ")"@,
            },
        )
    }
    &&& state.attempts >= 20 ==> {
        &&& next.attempts == state.attempts
        &&& next.stage is Finished
        &&& reaction.action == SendActionView::Finish(Err(SendErrorView::MaxRetries))
        &&& reaction.announce == Some(
            LineView {
                outlet: Outlet::SpinnerEnd,
                badge: Badge::Failure,
                text: ": "@ + "Max retries"@,
            },
        )
    }
}

/// An attempt that came to nothing is made again: the gateway did not take the
/// transaction, the statuses could not be read, or none of them tells anything. An
/// error of the network is shown.
pub proof fn a_vain_attempt_is_made_again(state: SendState, event: SendEventView)
    requires
        state.well_formed(),
        state.expects(event),
    ensures
        event matches SendEventView::Submitted(Err(text)) ==> {
            let (next, reaction) = send_step(state, event);
            tries_again(
                state,
                Some(
                    LineView {
                        outlet: Outlet::Spinner,
                        badge: Badge::Failure,
                        text: ": "@ + text,
                    },
                ),
                next,
                reaction,
            )
        },
        event matches SendEventView::Statuses(Err(text)) ==> {
            let (next, reaction) = send_step(state, event);
            tries_again(
                state,
                Some(
                    LineView {
                        outlet: Outlet::Spinner,
                        badge: Badge::Failure,
                        text: ": "@ + text,
                    },
                ),
                next,
                reaction,
            )
        },
        event matches SendEventView::Statuses(Ok(list)) && (forall|i: int|
            0 <= i < list.len() && (#[trigger] list[i]) is Some ==> {
                &&& list[i]->0.err is None
                &&& list[i]->0.confirmation_status is None || list[i]->0.confirmation_status
                    == Some(ConfirmationStatus::Processed)
            }) ==> {
            let (next, reaction) = send_step(state, event);
            tries_again(state, None, next, reaction)
        },
{
    if let SendEventView::Statuses(Ok(list)) = event {
        if forall|i: int|
            0 <= i < list.len() && (#[trigger] list[i]) is Some ==> {
                &&& list[i]->0.err is None
                &&& list[i]->0.confirmation_status is None || list[i]->0.confirmation_status
                    == Some(ConfirmationStatus::Processed)
            } {
            silent_statuses_leave_it_open(list);
        }
    }
}

/// A reply whose first telling status has an error ends the session with that error;
/// one whose first telling status is a confirmation ends it with the signature that
/// was asked after.
pub proof fn a_telling_status_ends_the_session(
    state: SendState,
    signature: Seq<u8>,
    round: nat,
    list: Seq<Option<StatusView>>,
    first: int,
)
    requires
        state.stage == (SendStageView::Confirmation { signature, round }),
        0 <= first < list.len(),
        list[first] is Some,
        forall|i: int|
            0 <= i < first && (#[trigger] list[i]) is Some ==> {
                &&& list[i]->0.err is None
                &&& list[i]->0.confirmation_status is None || list[i]->0.confirmation_status
                    == Some(ConfirmationStatus::Processed)
            },
    ensures
        ({
            let (next, reaction) = send_step(state, SendEventView::Statuses(Ok(list)));
            let status = list[first]->0;
            &&& status.err matches Some(reason) ==> {
                &&& next == (SendState { stage: SendStageView::Finished, ..state })
                &&& reaction == (ReactionView {
                    report: None,
                    delay_ms: 0,
                    announce: Some(
                        LineView {
                            outlet: Outlet::SpinnerEnd,
                            badge: Badge::Failure,
                            text: ": "@ + reason,
                        },
                    ),
                    action: SendActionView::Finish(Err(SendErrorView::Transaction(reason))),
                })
            }
            &&& status.err is None && (status.confirmation_status == Some(
                ConfirmationStatus::Confirmed,
            ) || status.confirmation_status == Some(ConfirmationStatus::Finalized)) ==> {
                &&& next == (SendState { stage: SendStageView::Finished, ..state })
                &&& reaction == (ReactionView {
                    report: None,
                    delay_ms: 0,
                    announce: Some(
                        LineView {
                            outlet: Outlet::SpinnerEnd,
                            badge: Badge::Success,
                            text: " "@ + signature_text(signature),
                        },
                    ),
                    action: SendActionView::Finish(Ok(signature)),
                })
            }
        }),
{
    the_first_telling_status_decides(list, first, list[first]->0);
}

/// A session succeeds only with a signature that the gateway gave, and only if nobody
/// is to confirm it or some status confirms it without an error. It fails only for the
/// error of a status, or after its last attempt.
pub proof fn no_outcome_without_a_reason(state: SendState, event: SendEventView)
    requires
        state.well_formed(),
        state.expects(event),
    ensures
        send_step(state, event).1.action matches SendActionView::Finish(Ok(signature)) ==> {
            ||| state.skip_confirm && event == SendEventView::Submitted(Ok(signature))
            ||| {
                &&& state.stage matches SendStageView::Confirmation { signature: asked, .. }
                    && asked == signature
                &&& event matches SendEventView::Statuses(Ok(list)) && exists|first: int|
                    0 <= first < list.len() && (#[trigger] list[first]) is Some && {
                        &&& list[first]->0.err is None
                        &&& list[first]->0.confirmation_status == Some(
                            ConfirmationStatus::Confirmed,
                        ) || list[first]->0.confirmation_status == Some(
                            ConfirmationStatus::Finalized,
                        )
                        &&& forall|i: int|
                            0 <= i < first && (#[trigger] list[i]) is Some
                                ==> list[i]->0.err is None
                    }
            }
        },
        send_step(state, event).1.action matches SendActionView::Finish(Err(error)) ==> {
            ||| error == SendErrorView::MaxRetries && state.attempts == 20
            ||| event matches SendEventView::Statuses(Ok(list)) && exists|first: int|
                0 <= first < list.len() && (#[trigger] list[first]) is Some
                    && list[first]->0.err is Some && error == SendErrorView::Transaction(
                    list[first]->0.err->0,
                )
        },
{
    if let SendEventView::Statuses(Ok(list)) = event {
        nothing_lands_or_fails_unsaid(list);
    }
}

/// A session begins with the balance, before its first attempt, and with the message
/// that is compiled from its instructions.
pub proof fn a_session_begins_with_the_balance(
    signer: Seq<u8>,
    skip_confirm: bool,
    ixs: Seq<InstructionView>,
)
    ensures
        send_start(signer, skip_confirm, ixs).stage is Balance,
        send_start(signer, skip_confirm, ixs).attempts == 0,
        send_start(signer, skip_confirm, ixs).signer == signer,
        send_start(signer, skip_confirm, ixs).skip_confirm == skip_confirm,
        send_start(signer, skip_confirm, ixs).payload == PayloadView::Unsigned(
            compiled_message(ixs, signer.subrange(32, 64)),
        ),
{
}

/// A session hands its transaction to the gateway twenty-one times at most, and takes
/// forty-four events at most.
pub proof fn twenty_one_attempts_at_most(state: SendState, events: Seq<SendEventView>)
    requires
        state.well_formed(),
        state.stage is Balance,
        accepted(state, events),
    ensures
        submissions(state, events) <= 21,
        events.len() <= 44,
{
    submissions_are_bounded(state, events);
    a_session_ends(state, events);
}

/// What is stated of an event speaks of all that was reported.
pub proof fn an_event_is_seen_whole(event: SendEvent)
    ensures
        event matches SendEvent::Balance(balance) ==> event@ == SendEventView::Balance(balance),
        event matches SendEvent::Blockhash(blockhash) ==> event@ == SendEventView::Blockhash(
            blockhash@,
        ),
        event matches SendEvent::Submitted(Ok(signature)) ==> event@ == SendEventView::Submitted(
            Ok(signature@),
        ),
        event matches SendEvent::Submitted(Err(text)) ==> event@ == SendEventView::Submitted(
            Err(text@),
        ),
        event matches SendEvent::Statuses(Ok(list)) ==> event@ == SendEventView::Statuses(
            Ok(status_views(list@)),
        ),
        event matches SendEvent::Statuses(Err(text)) ==> event@ == SendEventView::Statuses(
            Err(text@),
        ),
{
}

/// What is stated of statuses speaks of every one of them, its error and its
/// confirmation.
pub proof fn statuses_are_seen_whole(list: Seq<Option<SignatureStatus>>, i: int)
    requires
        0 <= i < list.len(),
    ensures
        status_views(list).len() == list.len(),
        status_views(list)[i] is Some <==> list[i] is Some,
        list[i] matches Some(status) ==> {
            let seen = status_views(list)[i]->0;
            &&& seen.confirmation_status == status.confirmation_status
            &&& status.err is None ==> seen.err is None
            &&& status.err matches Some(text) ==> seen.err == Some(text@)
        },
{
}

/// What is stated of an action speaks of all that is to be done.
pub proof fn an_action_is_seen_whole(action: SendAction)
    ensures
        action matches SendAction::QueryBalance(account) ==> action@
            == SendActionView::QueryBalance(account@),
        action is QueryBlockhash ==> action@ is QueryBlockhash,
        action is Submit ==> action@ is Submit,
        action matches SendAction::QueryStatuses(signature) ==> action@
            == SendActionView::QueryStatuses(signature@),
        action is Abort ==> action@ is Abort,
        action matches SendAction::Finish(Ok(signature)) ==> action@ == SendActionView::Finish(
            Ok(signature@),
        ),
        action matches SendAction::Finish(Err(error)) ==> action@ == SendActionView::Finish(
            Err(error@),
        ),
{
}

/// What a session with the gateway submits calls every instruction of the caller, in
/// order and with all of its data, behind the limit and the very price.
pub proof fn every_instruction_reaches_the_gateway(
    state: SendState,
    budget: ComputeBudget,
    price: u64,
    ixs: Seq<InstructionView>,
    payer: Seq<u8>,
    events: Seq<SendEventView>,
)
    requires
        state.well_formed(),
        state.stage is Balance,
        lists_accounts(state.payload->Unsigned_0, gateway_list(budget, price, ixs), payer),
        calls_instructions(state.payload->Unsigned_0, gateway_list(budget, price, ixs)),
        accepted(state, events),
    ensures
        replay(state, events).0.payload matches PayloadView::Signed(transaction) ==> {
            let calls = transaction.message.instructions;
            let pays = calls[1].data;
            &&& calls.len() == ixs.len() + 2
            &&& forall|i: int|
                0 <= i < ixs.len() ==> {
                    &&& (#[trigger] calls[i + 2]).data == ixs[i].data
                    &&& calls[i + 2].accounts.len() == ixs[i].accounts.len()
                }
            &&& pays.len() == 9
            &&& pays[0] == 3
            &&& pays[1] + 0x100 * pays[2] + 0x1_0000 * pays[3] + 0x100_0000 * pays[4]
                + 0x1_0000_0000 * pays[5] + 0x100_0000_0000 * pays[6] + 0x1_0000_0000_0000
                * pays[7] + 0x100_0000_0000_0000 * pays[8] == price
        },
{
    let list = gateway_list(budget, price, ixs);
    a_session_submits_its_instructions(state, list, payer, events);
    the_gateway_list_holds_the_price_and_every_instruction(budget, price, ixs);
    if let PayloadView::Signed(transaction) = replay(state, events).0.payload {
        let calls = transaction.message.instructions;
        assert(calls[1].data == list[1].data);
        assert forall|i: int| 0 <= i < ixs.len() implies {
            &&& (#[trigger] calls[i + 2]).data == ixs[i].data
            &&& calls[i + 2].accounts.len() == ixs[i].accounts.len()
        } by {
            assert(list[i + 2] == ixs[i]);
        }
    }
}

} // verus!
