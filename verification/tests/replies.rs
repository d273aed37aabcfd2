use bundle_sender::balance::{
    check_balance, insufficient_balance, report_insufficient, MIN_BALANCE_LAMPORTS,
};
use bundle_sender::rpc::{
    accept_parsed, accept_reply, get_bundle_statuses, send_jito_bundle, take_reply, BundleStatus,
    BundleStatusResponse, BundleStatusResult, Context, HttpStatus, RequestError, BUNDLES_URL,
    CONTENT_TYPE_JSON,
};
use bundle_sender::session::SendError;
use bundle_sender::text::{number_text, report_error, Badge, Outlet};

#[test]
fn minimum_balance_is_five_thousandths() {
    assert_eq!(MIN_BALANCE_LAMPORTS, solana_program::native_token::sol_to_lamports(0.005));
    assert!(check_balance(None));
    assert!(check_balance(Some(5_000_001)));
    assert!(!check_balance(Some(5_000_000)));
    assert!(!check_balance(Some(0)));
}

#[test]
fn insufficient_balance_names_the_amounts() {
    let line = insufficient_balance(1_500_000);
    assert_eq!(line.badge, Badge::Failure);
    assert_eq!(
        line.text,
        " Insufficient balance: 0.0015 SOL\nPlease top up with at least 0.005 SOL"
    );
    assert_eq!(report_insufficient("2").text, " Insufficient balance: 2 SOL\nPlease top up with at least 0.005 SOL");
    assert_eq!(format!("{}", 0.005), "0.005");
}

#[test]
fn numbers_are_decimal() {
    for n in [0u64, 1, 9, 10, 19, 100, 1_234_567_890, u64::MAX] {
        assert_eq!(number_text(n), n.to_string());
    }
}

#[test]
fn errors_show_on_the_spinner() {
    let line = report_error("no route");
    assert_eq!(line.outlet, Outlet::Spinner);
    assert_eq!(line.badge, Badge::Failure);
    assert_eq!(line.text, ": no route");
}

#[test]
fn requests_name_their_method() {
    let request = send_jito_bundle(vec!["abc".to_string()]);
    assert_eq!(request.jsonrpc, "2.0");
    assert_eq!(request.id, 1);
    assert_eq!(request.method, "sendBundle");
    assert_eq!(request.params, vec![vec!["abc".to_string()]]);
    let request = get_bundle_statuses(vec!["id".to_string()]);
    assert_eq!(request.jsonrpc, "2.0");
    assert_eq!(request.id, 1);
    assert_eq!(request.method, "getBundleStatuses");
    assert_eq!(request.params, vec![vec!["id".to_string()]]);
    assert_eq!(BUNDLES_URL, "https://mainnet.block-engine.jito.wtf:443/api/v1/bundles");
    assert_eq!(CONTENT_TYPE_JSON, "application/json");
}

#[test]
fn status_codes_have_three_digits() {
    assert!(HttpStatus::new(99).is_none());
    assert!(HttpStatus::new(1000).is_none());
    for code in 100..1000u16 {
        let status = HttpStatus::new(code).unwrap();
        let expected = reqwest::StatusCode::from_u16(code).unwrap();
        assert_eq!(status.is_success(), expected.is_success());
        assert_eq!(status.text(), expected.to_string());
    }
    assert_eq!(HttpStatus::new(404).unwrap().text(), "404 Not Found");
}

#[test]
fn only_success_gives_the_body() {
    let ok = accept_reply(HttpStatus::new(204).unwrap(), "body".to_string());
    assert_eq!(ok.unwrap(), "body");
    let refused = accept_reply(HttpStatus::new(429).unwrap(), "slow down".to_string());
    assert_eq!(
        refused.unwrap_err().message(),
        "Status code: 429 Too Many Requests, response: slow down"
    );
    assert!(accept_reply(HttpStatus::new(300).unwrap(), String::new()).is_err());
    assert!(accept_reply(HttpStatus::new(199).unwrap(), String::new()).is_err());
}

#[test]
fn unreadable_body_is_reported_with_its_text() {
    let status = HttpStatus::new(200).unwrap();
    assert_eq!(accept_parsed(status, "7".to_string(), Ok(7u64)).unwrap(), 7);
    let parsed: Result<u64, String> = Err("expected value".to_string());
    let error = accept_parsed(status, "<html>".to_string(), parsed).unwrap_err();
    assert_eq!(
        error.message(),
        "Failed to deserialize response: expected value, response: <html>, status: 200 OK"
    );
}

#[test]
fn first_stage_that_failed_is_the_error() {
    let status = |code: u16| HttpStatus::new(code).unwrap();
    let body = |parsed: Result<u64, String>| Ok(("body".to_string(), parsed));
    let unreadable = || Err("expected value".to_string());
    let message = |sent| take_reply::<u64>(sent).unwrap_err().message();

    assert_eq!(take_reply(Ok((status(200), body(Ok(7))))).unwrap(), 7);
    assert_eq!(take_reply(Ok((status(299), body(Ok(7))))).unwrap(), 7);
    assert_eq!(message(Err("timed out".to_string())), "Failed to send request: timed out");
    for code in [200, 500] {
        let sent = Ok((status(code), Err("closed".to_string())));
        assert_eq!(message(sent), "Failed to read response content: closed");
    }
    for parsed in [Ok(7), unreadable()] {
        assert_eq!(
            message(Ok((status(500), body(parsed)))),
            "Status code: 500 Internal Server Error, response: body"
        );
    }
    assert!(matches!(
        take_reply(Ok((status(300), body(Ok(7))))),
        Err(RequestError::Status { .. })
    ));
    assert_eq!(
        message(Ok((status(200), body(unreadable())))),
        "Failed to deserialize response: expected value, response: body, status: 200 OK"
    );
}

#[test]
fn request_errors_have_messages() {
    assert_eq!(
        RequestError::Send("timed out".to_string()).message(),
        "Failed to send request: timed out"
    );
    assert_eq!(
        RequestError::Read("closed".to_string()).message(),
        "Failed to read response content: closed"
    );
    let error = RequestError::Deserialize {
        reason: "expected value".to_string(),
        text: "<html>".to_string(),
        status: HttpStatus::new(200).unwrap(),
    };
    assert_eq!(
        error.message(),
        "Failed to deserialize response: expected value, response: <html>, status: 200 OK"
    );
    assert_eq!(
        error.message_with("fine"),
        "Failed to deserialize response: expected value, response: <html>, status: fine"
    );
}

#[test]
fn session_errors_have_messages() {
    assert_eq!(SendError::Transaction("bad".to_string()).message(), "bad");
    assert_eq!(SendError::MaxRetries.message(), "Max retries");
    assert_eq!(SendError::SubmitBundle.message(), "submit bundle err");
}

fn reply(statuses: &[(&str, &[&str])]) -> BundleStatusResponse {
    BundleStatusResponse {
        jsonrpc: "2.0".to_string(),
        result: BundleStatusResult {
            context: Context { slot: 1 },
            value: statuses
                .iter()
                .map(|(status, transactions)| BundleStatus {
                    bundle_id: "id".to_string(),
                    transactions: transactions.iter().map(|t| t.to_string()).collect(),
                    slot: 2,
                    confirmation_status: status.to_string(),
                    err: None,
                })
                .collect(),
        },
        id: 1,
    }
}

#[test]
fn first_entry_decides_whether_a_bundle_landed() {
    assert!(!reply(&[]).landed());
    assert!(reply(&[("confirmed", &["t"])]).landed());
    assert!(!reply(&[("finalized", &["t"])]).landed());
    assert!(!reply(&[("processed", &["t"]), ("confirmed", &["t"])]).landed());
    assert!(reply(&[("confirmed", &["t"])]).complete());
    assert!(!reply(&[("confirmed", &[])]).complete());
    assert!(reply(&[("processed", &[])]).complete());
    assert!(reply(&[]).complete());
}
