use bundle_sender::instruction::{AccountMeta, ComputeBudget, Instruction};
use bundle_sender::miner::Miner;
use bundle_sender::send::{
    judge, submit_options, ConfirmationStatus, SendAction, SendEvent, SendSession,
    SignatureStatus, Verdict,
};
use bundle_sender::session::{Reaction, SendError};
use bundle_sender::text::{Badge, Outlet};
use bundle_sender::transaction::{signature_to_text, Keypair};

fn miner() -> Miner {
    let keypair = solana_sdk::signature::keypair_from_seed(&[7u8; 32]).unwrap();
    Miner { priority_fee: 1000, signer: Keypair::from_bytes(&keypair.to_bytes()).unwrap() }
}

fn own() -> Vec<Instruction> {
    vec![Instruction { program_id: [1; 32], accounts: vec![], data: vec![10, 11] }]
}

fn status(err: Option<&str>, confirmation: Option<ConfirmationStatus>) -> Option<SignatureStatus> {
    Some(SignatureStatus { err: err.map(|e| e.to_string()), confirmation_status: confirmation })
}

/// A session that waits for the reply to its first submission.
fn submitting(miner: &Miner, skip_confirm: bool) -> SendSession<'_> {
    assert!(miner.can_send(&own(), ComputeBudget::Dynamic));
    let (session, first) = miner.send_and_confirm(&own(), ComputeBudget::Dynamic, skip_confirm);
    match first.action {
        SendAction::QueryBalance(account) => assert_eq!(account, miner.signer.pubkey()),
        other => panic!("{other:?}"),
    }
    assert!(session.transaction().is_none());
    let (session, next) = session.step(SendEvent::Balance(Some(5_000_001)));
    assert!(matches!(next.action, SendAction::QueryBlockhash));
    let (session, next) = session.step(SendEvent::Blockhash([5; 32]));
    assert!(matches!(next.action, SendAction::Submit));
    assert_eq!(next.delay_ms, 0);
    assert_eq!(next.announce.unwrap().text, "Submitting transaction... (attempt 0)");
    session
}

fn finished(reaction: Reaction<SendAction>) -> Result<[u8; 64], SendError> {
    match reaction.action {
        SendAction::Finish(outcome) => outcome,
        other => panic!("{other:?}"),
    }
}

#[test]
fn transaction_carries_budget_price_and_instructions() {
    let miner = miner();
    let session = submitting(&miner, false);
    let transaction = session.transaction().unwrap();
    assert_eq!(transaction.recent_blockhash, [5; 32]);
    assert_eq!(transaction.signatures.len(), 1);
    assert_eq!(transaction.message.account_keys[0], miner.signer.pubkey());
    let data: Vec<Vec<u8>> =
        transaction.message.instructions.iter().map(|ix| ix.data.clone()).collect();
    let mut limit = vec![2];
    limit.extend_from_slice(&1_400_000u32.to_le_bytes());
    let mut price = vec![3];
    price.extend_from_slice(&1000u64.to_le_bytes());
    assert_eq!(data, vec![limit, price, vec![10, 11]]);
}

#[test]
fn low_balance_aborts() {
    let miner = miner();
    for balance in [0u64, 4_999_999, 5_000_000] {
        let (session, _) = miner.send_and_confirm(&own(), ComputeBudget::Fixed(1), false);
        let (_, next) = session.step(SendEvent::Balance(Some(balance)));
        assert!(matches!(next.action, SendAction::Abort));
        let line = next.announce.unwrap();
        assert_eq!(line.badge, Badge::Failure);
        assert!(line.text.starts_with(" Insufficient balance: "));
    }
}

#[test]
fn unknown_balance_does_not_abort() {
    let miner = miner();
    let (session, _) = miner.send_and_confirm(&own(), ComputeBudget::Dynamic, false);
    let (_, next) = session.step(SendEvent::Balance(None));
    assert!(matches!(next.action, SendAction::QueryBlockhash));
}

#[test]
fn skipping_confirmation_returns_at_once() {
    let miner = miner();
    let session = submitting(&miner, true);
    let (_, next) = session.step(SendEvent::Submitted(Ok([8; 64])));
    let line = next.announce.as_ref().unwrap();
    assert_eq!(line.text, format!("Sent: {}", signature_to_text(&[8; 64])));
    assert_eq!(line.badge, Badge::Plain);
    assert_eq!(finished(next).unwrap(), [8; 64]);
}

#[test]
fn confirmed_transaction_lands() {
    for confirmation in [ConfirmationStatus::Confirmed, ConfirmationStatus::Finalized] {
        let miner = miner();
        let session = submitting(&miner, false);
        let (session, next) = session.step(SendEvent::Submitted(Ok([8; 64])));
        assert_eq!(next.delay_ms, 0);
        match next.action {
            SendAction::QueryStatuses(signature) => assert_eq!(signature, [8; 64]),
            other => panic!("{other:?}"),
        }
        let list = vec![None, status(None, Some(confirmation))];
        let (_, next) = session.step(SendEvent::Statuses(Ok(list)));
        let line = next.announce.as_ref().unwrap();
        assert_eq!((line.outlet, line.badge), (Outlet::SpinnerEnd, Badge::Success));
        assert_eq!(line.text, format!(" {}", signature_to_text(&[8; 64])));
        assert_eq!(finished(next).unwrap(), [8; 64]);
    }
}

#[test]
fn failed_transaction_gives_its_error() {
    let miner = miner();
    let session = submitting(&miner, false);
    let (session, _) = session.step(SendEvent::Submitted(Ok([8; 64])));
    let list = vec![status(Some("custom program error: 0x1"), Some(ConfirmationStatus::Confirmed))];
    let (_, next) = session.step(SendEvent::Statuses(Ok(list)));
    let line = next.announce.as_ref().unwrap();
    assert_eq!((line.outlet, line.badge), (Outlet::SpinnerEnd, Badge::Failure));
    assert_eq!(line.text, ": custom program error: 0x1");
    let error = finished(next).unwrap_err();
    assert!(matches!(error, SendError::Transaction(_)));
    assert_eq!(error.message(), "custom program error: 0x1");
}

#[test]
fn pending_transaction_is_submitted_again() {
    let replies = [
        SendEvent::Statuses(Ok(vec![])),
        SendEvent::Statuses(Ok(vec![None])),
        SendEvent::Statuses(Ok(vec![status(None, Some(ConfirmationStatus::Processed))])),
        SendEvent::Statuses(Ok(vec![status(None, None)])),
    ];
    for reply in replies {
        let miner = miner();
        let session = submitting(&miner, false);
        let before = session.transaction().unwrap().signatures[0];
        let (session, _) = session.step(SendEvent::Submitted(Ok([8; 64])));
        let (session, next) = session.step(reply);
        assert!(next.report.is_none());
        assert_eq!(next.delay_ms, 300);
        assert!(matches!(next.action, SendAction::Submit));
        assert_eq!(next.announce.unwrap().text, "Submitting transaction... (attempt 1)");
        assert_eq!(session.transaction().unwrap().signatures[0], before);
    }
}

#[test]
fn network_errors_are_reported_and_retried() {
    let miner = miner();
    let session = submitting(&miner, false);
    let (session, next) = session.step(SendEvent::Submitted(Err("down".to_string())));
    let line = next.report.unwrap();
    assert_eq!((line.outlet, line.badge), (Outlet::Spinner, Badge::Failure));
    assert_eq!(line.text, ": down");
    assert!(matches!(next.action, SendAction::Submit));
    let (session, _) = session.step(SendEvent::Submitted(Ok([8; 64])));
    let (_, next) = session.step(SendEvent::Statuses(Err("still down".to_string())));
    assert_eq!(next.report.unwrap().text, ": still down");
    assert_eq!(next.announce.unwrap().text, "Submitting transaction... (attempt 2)");
}

#[test]
fn twenty_one_failed_submissions_end_the_session() {
    let miner = miner();
    let mut session = submitting(&miner, false);
    for attempt in 1..=20 {
        let (after, next) = session.step(SendEvent::Submitted(Err("down".to_string())));
        assert!(matches!(next.action, SendAction::Submit));
        assert_eq!(next.announce.unwrap().text, format!("Submitting transaction... (attempt {attempt})"));
        session = after;
    }
    let (_, next) = session.step(SendEvent::Submitted(Err("down".to_string())));
    assert_eq!(next.report.as_ref().unwrap().text, ": down");
    assert_eq!(next.delay_ms, 300);
    assert_eq!(next.announce.as_ref().unwrap().text, ": Max retries");
    let error = finished(next).unwrap_err();
    assert!(matches!(error, SendError::MaxRetries));
}

#[test]
fn last_attempt_can_still_land() {
    let miner = miner();
    let mut session = submitting(&miner, false);
    for _ in 0..20 {
        session = session.step(SendEvent::Submitted(Ok([8; 64]))).0;
        session = session.step(SendEvent::Statuses(Ok(vec![]))).0;
    }
    session = session.step(SendEvent::Submitted(Ok([9; 64]))).0;
    let list = vec![status(None, Some(ConfirmationStatus::Finalized))];
    let (_, next) = session.step(SendEvent::Statuses(Ok(list)));
    assert_eq!(finished(next).unwrap(), [9; 64]);
}

#[test]
fn first_settled_status_counts() {
    let confirmed = || status(None, Some(ConfirmationStatus::Confirmed));
    let failed = || status(Some("bad"), None);
    assert!(matches!(judge(&vec![]), Verdict::Pending));
    assert!(matches!(judge(&vec![None, confirmed(), failed()]), Verdict::Landed));
    assert!(matches!(judge(&vec![failed(), confirmed()]), Verdict::Failed(_)));
    assert!(matches!(judge(&vec![status(None, Some(ConfirmationStatus::Processed))]), Verdict::Pending));
}

#[test]
fn gateway_gets_the_transaction_without_a_trial_run() {
    let options = submit_options();
    assert!(options.skip_preflight);
    assert_eq!(options.preflight_commitment, ConfirmationStatus::Confirmed);
    assert!(options.base64);
    assert_eq!(options.max_retries, Some(0));
    assert_eq!(options.min_context_slot, None);
}

#[test]
fn foreign_signers_cannot_be_served() {
    let foreign = vec![Instruction {
        program_id: [1; 32],
        accounts: vec![AccountMeta { pubkey: [2; 32], is_signer: true, is_writable: false }],
        data: vec![],
    }];
    assert!(!miner().can_send(&foreign, ComputeBudget::Dynamic));
    assert!(!miner().can_send_bundle(&foreign, ComputeBudget::Dynamic, 0));
}

/// One instruction with so many read-only accounts, all different.
fn crowded(accounts: u16) -> Vec<Instruction> {
    let account = |n: u16| {
        let mut pubkey = [9u8; 32];
        pubkey[..2].copy_from_slice(&n.to_le_bytes());
        AccountMeta { pubkey, is_signer: false, is_writable: false }
    };
    vec![Instruction {
        program_id: [1; 32],
        accounts: (0..accounts).map(account).collect(),
        data: vec![],
    }]
}

#[test]
fn few_accounts_can_be_served() {
    assert!(miner().can_send(&crowded(252), ComputeBudget::Dynamic));
    assert!(miner().can_send_bundle(&crowded(249), ComputeBudget::Dynamic, u32::MAX));
    assert!(!miner().can_send(&crowded(256), ComputeBudget::Dynamic));
    assert!(!miner().can_send_bundle(&crowded(256), ComputeBudget::Dynamic, 0));
}
