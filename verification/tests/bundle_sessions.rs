use bundle_sender::bundle::{BundleAction, BundleEvent, BundleSession};
use bundle_sender::instruction::{bribe_ix, ComputeBudget, Instruction, JITO_RECIPIENTS};
use bundle_sender::miner::Miner;
use bundle_sender::rpc::{
    BundleSendResponse, BundleStatus, BundleStatusResponse, BundleStatusResult, Context,
    HttpStatus, RequestError, RpcRequest,
};
use bundle_sender::session::SendError;
use bundle_sender::text::{Badge, Outlet};
use bundle_sender::transaction::Keypair;
use solana_transaction_status::EncodedTransaction;

fn miner() -> Miner {
    let keypair = solana_sdk::signature::keypair_from_seed(&[7u8; 32]).unwrap();
    Miner { priority_fee: 1000, signer: Keypair::from_bytes(&keypair.to_bytes()).unwrap() }
}

fn own() -> Vec<Instruction> {
    vec![Instruction { program_id: [1; 32], accounts: vec![], data: vec![10, 11] }]
}

fn reply(status: &str, transactions: &[&str]) -> BundleStatusResponse {
    BundleStatusResponse {
        jsonrpc: "2.0".to_string(),
        result: BundleStatusResult {
            context: Context { slot: 1 },
            value: vec![BundleStatus {
                bundle_id: "the-bundle".to_string(),
                transactions: transactions.iter().map(|t| t.to_string()).collect(),
                slot: 2,
                confirmation_status: status.to_string(),
                err: None,
            }],
        },
        id: 1,
    }
}

fn nothing() -> BundleStatusResponse {
    let mut empty = reply("", &[]);
    empty.result.value.clear();
    empty
}

/// A session that has just asked to submit its bundle, and the request.
fn submitting(miner: &Miner, difficult: u32) -> (BundleSession<'_>, RpcRequest) {
    assert!(miner.can_send_bundle(&own(), ComputeBudget::Fixed(7), difficult));
    let (session, first) =
        miner.send_and_confirm_jito(&own(), ComputeBudget::Fixed(7), true, difficult);
    match first.action {
        BundleAction::QueryBalance(account) => assert_eq!(account, miner.signer.pubkey()),
        other => panic!("{other:?}"),
    }
    let (session, next) = session.step(BundleEvent::Balance(None));
    assert!(matches!(next.action, BundleAction::QueryBlockhash));
    let (session, next) = session.step(BundleEvent::Blockhash([5; 32]));
    assert_eq!(next.announce.unwrap().text, "Submitting jito transaction... (attempt 0)");
    match next.action {
        BundleAction::Submit(request) => (session, request),
        other => panic!("{other:?}"),
    }
}

fn asked(action: BundleAction) {
    match action {
        BundleAction::QueryStatuses(request) => {
            assert_eq!(request.method, "getBundleStatuses");
            assert_eq!(request.params, vec![vec!["the-bundle".to_string()]]);
        }
        other => panic!("{other:?}"),
    }
}

/// A session that has asked after its bundle once.
fn asking(miner: &Miner) -> BundleSession<'_> {
    let (session, _) = submitting(miner, 0);
    let response = BundleSendResponse {
        id: 1,
        jsonrpc: "2.0".to_string(),
        result: "the-bundle".to_string(),
    };
    let expected = format!("Sent: {response:?}");
    let (session, next) = session.step(BundleEvent::Submitted(Ok(response)));
    let sent = next.report.unwrap();
    assert_eq!((sent.outlet, sent.badge), (Outlet::SpinnerEnd, Badge::Plain));
    assert_eq!(sent.text, expected);
    let line = next.announce.unwrap();
    assert_eq!(line.outlet, Outlet::Console);
    assert_eq!(line.text, "query bundle bundle_id: the-bundle, attempts: 0");
    assert_eq!(next.delay_ms, 0);
    asked(next.action);
    session
}

#[test]
fn bundle_holds_the_signed_transaction() {
    let miner = miner();
    let (_, request) = submitting(&miner, 25);
    assert_eq!(request.method, "sendBundle");
    assert_eq!(request.params.len(), 1);
    assert_eq!(request.params[0].len(), 1);
    let decoded = EncodedTransaction::LegacyBinary(request.params[0][0].clone()).decode().unwrap();
    let transaction = decoded.into_legacy_transaction().unwrap();
    assert!(transaction.verify().is_ok());
    let message = &transaction.message;
    assert_eq!(message.recent_blockhash.to_bytes(), [5; 32]);
    assert_eq!(message.account_keys[0].to_bytes(), miner.signer.pubkey());
    let data: Vec<Vec<u8>> = message.instructions.iter().map(|ix| ix.data.clone()).collect();
    // At difficulty 25 the tip is twice the priority fee.
    assert_eq!(data[0], vec![2, 7, 0, 0, 0]);
    assert_eq!(data[1], vec![3, 0, 0, 0, 0, 0, 0, 0, 0]);
    let mut tip = vec![2, 0, 0, 0];
    tip.extend_from_slice(&2000u64.to_le_bytes());
    assert_eq!(data[2], tip);
    assert_eq!(data[3], vec![10, 11]);
    let paid = message.account_keys[message.instructions[2].accounts[1] as usize].to_bytes();
    assert!(JITO_RECIPIENTS.contains(&paid));
}

#[test]
fn given_tip_is_used() {
    let miner = miner();
    let tip = bribe_ix(&miner.signer.pubkey(), 55, 6);
    let (session, _) = miner.send_bundle_with_tip(&own(), ComputeBudget::Dynamic, tip, Some(55));
    let (session, next) = session.step(BundleEvent::Balance(Some(u64::MAX)));
    assert_eq!(next.report.unwrap().text, "change extra fee to 55");
    let (_, next) = session.step(BundleEvent::Blockhash([5; 32]));
    let text = match next.action {
        BundleAction::Submit(request) => request.params[0][0].clone(),
        other => panic!("{other:?}"),
    };
    let decoded = EncodedTransaction::LegacyBinary(text).decode().unwrap();
    let transaction = decoded.into_legacy_transaction().unwrap();
    let message = &transaction.message;
    let paid = message.account_keys[message.instructions[2].accounts[1] as usize].to_bytes();
    assert_eq!(paid, JITO_RECIPIENTS[6]);
}

#[test]
fn raised_fee_is_told() {
    let miner = miner();
    for (difficult, expected) in [(20, None), (21, Some("change extra fee to 1200"))] {
        let (session, _) =
            miner.send_and_confirm_jito(&own(), ComputeBudget::Dynamic, false, difficult);
        let (_, next) = session.step(BundleEvent::Balance(None));
        assert_eq!(next.report.map(|line| line.text), expected.map(|text: &str| text.to_string()));
    }
}

#[test]
fn poor_miner_sends_no_bundle() {
    let miner = miner();
    let (session, _) = miner.send_and_confirm_jito(&own(), ComputeBudget::Dynamic, false, 0);
    let (_, next) = session.step(BundleEvent::Balance(Some(5_000_000)));
    assert!(matches!(next.action, BundleAction::Abort));
    assert_eq!(
        next.announce.unwrap().text,
        " Insufficient balance: 0.005 SOL\nPlease top up with at least 0.005 SOL"
    );
}

#[test]
fn reply_of_the_block_engine_is_shown_in_quotes() {
    let miner = miner();
    let (session, _) = submitting(&miner, 0);
    let response = BundleSendResponse {
        id: 12,
        jsonrpc: "2.0".to_string(),
        result: "a\"b\n".to_string(),
    };
    let (_, next) = session.step(BundleEvent::Submitted(Ok(response)));
    assert_eq!(
        next.report.unwrap().text,
        "Sent: BundleSendResponse { id: 12, jsonrpc: \"2.0\", result: \"a\\\"b\\n\" }"
    );
}

#[test]
fn refused_bundle_ends_the_session() {
    let miner = miner();
    let (session, _) = submitting(&miner, 0);
    let error = RequestError::Status { status: HttpStatus::new(400).unwrap(), text: "no".to_string() };
    let (_, next) = session.step(BundleEvent::Submitted(Err(error)));
    let line = next.report.unwrap();
    assert_eq!((line.outlet, line.badge), (Outlet::Spinner, Badge::Failure));
    assert_eq!(line.text, ": Status code: 400 Bad Request, response: no");
    assert!(next.announce.is_none());
    assert_eq!(next.delay_ms, 0);
    assert!(matches!(next.action, BundleAction::Finish(Err(SendError::SubmitBundle))));
}

#[test]
fn confirmed_bundle_lands() {
    let miner = miner();
    let session = asking(&miner);
    let landed = reply("confirmed", &["first", "second"]);
    assert!(landed.complete());
    let (_, next) = session.step(BundleEvent::Statuses(Ok(landed)));
    assert_eq!(
        next.announce.unwrap().text,
        " Bundle landed successfully\n https://solscan.io/tx/first?cluster=mainnet"
    );
    assert!(matches!(next.action, BundleAction::Finish(Ok(()))));
}

#[test]
fn unknown_bundle_is_asked_after_again() {
    let miner = miner();
    for unsettled in [nothing(), reply("processed", &["t"]), reply("finalized", &["t"])] {
        let session = asking(&miner);
        let (_, next) = session.step(BundleEvent::Statuses(Ok(unsettled)));
        assert!(next.report.is_none());
        assert_eq!(next.delay_ms, 2000);
        assert_eq!(next.announce.unwrap().text, "query bundle bundle_id: the-bundle, attempts: 1");
        asked(next.action);
    }
}

#[test]
fn unanswered_question_is_asked_again() {
    let miner = miner();
    let session = asking(&miner);
    let error = RequestError::Send("no route".to_string());
    let (_, next) = session.step(BundleEvent::Statuses(Err(error)));
    let line = next.report.unwrap();
    assert_eq!((line.outlet, line.badge), (Outlet::Console, Badge::Plain));
    assert_eq!(line.text, "Failed to send request: no route");
    assert_eq!(next.delay_ms, 2000);
    asked(next.action);
}

#[test]
fn twenty_one_questions_are_enough() {
    let miner = miner();
    let mut session = asking(&miner);
    for attempt in 1..=20 {
        let (after, next) = session.step(BundleEvent::Statuses(Ok(nothing())));
        assert_eq!(
            next.announce.unwrap().text,
            format!("query bundle bundle_id: the-bundle, attempts: {attempt}")
        );
        asked(next.action);
        session = after;
    }
    let (_, next) = session.step(BundleEvent::Statuses(Ok(nothing())));
    assert_eq!(next.delay_ms, 2000);
    let line = next.announce.unwrap();
    assert_eq!((line.outlet, line.badge), (Outlet::SpinnerEnd, Badge::Failure));
    assert_eq!(line.text, ": Max retries");
    assert!(matches!(next.action, BundleAction::Finish(Err(SendError::MaxRetries))));
}
