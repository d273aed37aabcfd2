//! Requests to the block engine, and what is made of its replies.

use vstd::prelude::*;
use vstd::string::StringExecFns;

verus! {

/// The address that takes bundles and questions about them.
pub const BUNDLES_URL: &'static str = "https://mainnet.block-engine.jito.wtf:443/api/v1/bundles";

/// The media type of a request body.
pub const CONTENT_TYPE_JSON: &'static str = "application/json";

/// A call of the block engine. Every call takes one list of texts.
#[derive(Debug)]
pub struct RpcRequest {
    pub jsonrpc: String,
    pub id: u64,
    pub method: String,
    pub params: Vec<Vec<String>>,
}

#[verifier::ext_equal]
pub struct RpcRequestView {
    pub jsonrpc: Seq<char>,
    pub id: u64,
    pub method: Seq<char>,
    pub params: Seq<Seq<Seq<char>>>,
}

/// The views of a list of texts.
pub open spec fn text_views(list: Seq<String>) -> Seq<Seq<char>> {
    list.map_values(|text: String| text@)
}

impl View for RpcRequest {
    type V = RpcRequestView;

    open spec fn view(&self) -> RpcRequestView {
        RpcRequestView {
            jsonrpc: self.jsonrpc@,
            id: self.id,
            method: self.method@,
            params: self.params@.map_values(|list: Vec<String>| text_views(list@)),
        }
    }
}

/// The call of a method on one list of texts.
pub open spec fn call(method: Seq<char>, list: Seq<Seq<char>>) -> RpcRequestView {
    RpcRequestView { jsonrpc: "2.0"@, id: 1, method, params: seq![list] }
}

fn request(method: &str, list: Vec<String>) -> (request: RpcRequest)
    ensures
        request@ == call(method@, text_views(list@)),
        request.jsonrpc@ == "2.0"@,
        request.id == 1,
        request.method@ == method@,
        request.params@.len() == 1,
        request.params@[0]@ == list@,
{
    let mut params: Vec<Vec<String>> = Vec::new();
    let ghost views = text_views(list@);
    params.push(list);
    let request = RpcRequest {
        jsonrpc: String::from_str("2.0"),
        id: 1,
        method: String::from_str(method),
        params,
    };
    assert(request@.params =~= seq![views]);
    request
}

/// The request that submits encoded transactions as one bundle.
pub fn send_jito_bundle(transactions: Vec<String>) -> (request: RpcRequest)
    ensures
        request@ == call("sendBundle"@, text_views(transactions@)),
        request.jsonrpc@ == "2.0"@,
        request.id == 1,
        request.method@ == "sendBundle"@,
        request.params@.len() == 1,
        request.params@[0]@ == transactions@,
{
    request("sendBundle", transactions)
}

/// The request that asks what became of bundles.
pub fn get_bundle_statuses(bundle_ids: Vec<String>) -> (request: RpcRequest)
    ensures
        request@ == call("getBundleStatuses"@, text_views(bundle_ids@)),
        request.jsonrpc@ == "2.0"@,
        request.id == 1,
        request.method@ == "getBundleStatuses"@,
        request.params@.len() == 1,
        request.params@[0]@ == bundle_ids@,
{
    request("getBundleStatuses", bundle_ids)
}

/// The reply to a submitted bundle: its identity.
#[derive(Debug)]
pub struct BundleSendResponse {
    pub id: u64,
    pub jsonrpc: String,
    pub result: String,
}

pub struct BundleSendView {
    pub id: u64,
    pub jsonrpc: Seq<char>,
    pub result: Seq<char>,
}

impl View for BundleSendResponse {
    type V = BundleSendView;

    open spec fn view(&self) -> BundleSendView {
        BundleSendView { id: self.id, jsonrpc: self.jsonrpc@, result: self.result@ }
    }
}

/// The reply to a question about bundles.
#[derive(Debug)]
pub struct BundleStatusResponse {
    pub jsonrpc: String,
    pub result: BundleStatusResult,
    pub id: u64,
}

#[derive(Debug)]
pub struct BundleStatusResult {
    pub context: Context,
    pub value: Vec<BundleStatus>,
}

/// The slot for which a reply holds.
#[derive(Debug)]
pub struct Context {
    pub slot: u64,
}

/// What became of one bundle. An error is kept as its JSON text.
#[derive(Debug)]
pub struct BundleStatus {
    pub bundle_id: String,
    pub transactions: Vec<String>,
    pub slot: u64,
    pub confirmation_status: String,
    pub err: Option<String>,
}

#[verifier::ext_equal]
pub struct BundleStatusView {
    pub transactions: Seq<Seq<char>>,
    pub confirmation_status: Seq<char>,
}

impl View for BundleStatus {
    type V = BundleStatusView;

    open spec fn view(&self) -> BundleStatusView {
        BundleStatusView {
            transactions: text_views(self.transactions@),
            confirmation_status: self.confirmation_status@,
        }
    }
}

impl View for BundleStatusResponse {
    type V = Seq<BundleStatusView>;

    open spec fn view(&self) -> Seq<BundleStatusView> {
        self.result.value@.map_values(|status: BundleStatus| status@)
    }
}

/// The bundle asked about is confirmed: the first entry of the reply says so.
pub open spec fn is_landed(reply: Seq<BundleStatusView>) -> bool {
    reply.len() > 0 && reply[0].confirmation_status == "confirmed"@
}

/// A reply that reports a bundle as confirmed names a transaction of it.
pub open spec fn is_complete(reply: Seq<BundleStatusView>) -> bool {
    is_landed(reply) ==> reply[0].transactions.len() > 0
}

impl BundleStatusResponse {
    /// Whether the bundle asked about is confirmed.
    pub fn landed(&self) -> (landed: bool)
        ensures
            landed == is_landed(self@),
            landed == (self.result.value@.len() > 0 && self.result.value@[0].confirmation_status@
                == "confirmed"@),
    {
        if self.result.value.len() > 0 {
            let confirmed: String = String::from_str("confirmed");
            assert(self@[0] == self.result.value@[0]@);
            self.result.value[0].confirmation_status == confirmed
        } else {
            false
        }
    }

    /// Whether a confirmed bundle comes with a transaction.
    pub fn complete(&self) -> (complete: bool)
        ensures
            complete == is_complete(self@),
            complete == (self.result.value@.len() > 0
                && self.result.value@[0].confirmation_status@ == "confirmed"@
                ==> self.result.value@[0].transactions@.len() > 0),
    {
        if self.landed() {
            assert(self@[0] == self.result.value@[0]@);
            self.result.value[0].transactions.len() > 0
        } else {
            true
        }
    }
}

/// The status code of an HTTP reply: a number of three digits.
#[derive(Clone, Copy, Debug)]
pub struct HttpStatus {
    code: u16,
}

impl View for HttpStatus {
    type V = u16;

    closed spec fn view(&self) -> u16 {
        self.code
    }
}

/// The text of a status code: `StatusCode` of `reqwest`, displayed.
pub uninterp spec fn status_text(code: u16) -> Seq<char>;

/// Displays a `StatusCode` of `reqwest`.
///
/// Trusted: the text depends on the code alone. There is no `StatusCode` for a
/// number that has not three digits.
#[verifier::external_body]
fn display_status(code: u16) -> (text: String)
    requires
        100 <= code < 1000,
    ensures
        text@ == status_text(code),
{
    reqwest::StatusCode::from_u16(code).unwrap().to_string()
}

impl HttpStatus {
    #[verifier::type_invariant]
    spec fn well_formed(self) -> bool {
        100 <= self.code < 1000
    }

    /// The status with the given code, if it has three digits.
    pub fn new(code: u16) -> (status: Option<HttpStatus>)
        ensures
            status is Some == (100 <= code < 1000),
            status matches Some(s) ==> s@ == code,
    {
        if 100 <= code && code < 1000 {
            Some(HttpStatus { code })
        } else {
            None
        }
    }

    /// Whether the code tells of success.
    pub fn is_success(&self) -> (success: bool)
        ensures
            success == (200 <= self@ < 300),
    {
        200 <= self.code && self.code < 300
    }

    /// The code and its meaning, as text.
    pub fn text(&self) -> (text: String)
        ensures
            text@ == status_text(self@),
    {
        proof {
            use_type_invariant(self);
        }
        display_status(self.code)
    }
}

/// What can go wrong with a request. The reasons are kept as text.
#[derive(Debug)]
pub enum RequestError {
    Send(String),
    Read(String),
    Status { status: HttpStatus, text: String },
    Deserialize { reason: String, text: String, status: HttpStatus },
}

/// The message of an error, given the text of its status.
pub open spec fn request_error_text(error: RequestError, status: Seq<char>) -> Seq<char> {
    match error {
        RequestError::Send(reason) => "Failed to send request: "@ + reason@,
        RequestError::Read(reason) => "Failed to read response content: "@ + reason@,
        RequestError::Status { text, .. } => "Status code: "@ + status + ", response: "@ + text@,
        RequestError::Deserialize { reason, text, .. } => "Failed to deserialize response: "@
            + reason@ + ", response: "@ + text@ + ", status: "@ + status,
    }
}

/// The text of the status that an error carries, empty where it carries none.
pub open spec fn carried_status(error: RequestError) -> Seq<char> {
    match error {
        RequestError::Status { status, .. } => status_text(status@),
        RequestError::Deserialize { status, .. } => status_text(status@),
        _ => Seq::empty(),
    }
}

impl RequestError {
    /// The message of the error, given the text of its status.
    pub fn message_with(&self, status: &str) -> (message: String)
        ensures
            message@ == request_error_text(*self, status@),
            self matches RequestError::Send(reason) ==> message@ == "Failed to send request: "@
                + reason@,
            self matches RequestError::Read(reason) ==> message@
                == "Failed to read response content: "@ + reason@,
            self matches RequestError::Status { text, .. } ==> message@ == "Status code: "@
                + status@ + ", response: "@ + text@,
            self matches RequestError::Deserialize { reason, text, .. } ==> message@
                == "Failed to deserialize response: "@ + reason@ + ", response: "@ + text@
                + ", status: "@ + status@,
    {
        match self {
            RequestError::Send(reason) => {
                String::from_str("Failed to send request: ").concat(reason.as_str())
            },
            RequestError::Read(reason) => {
                String::from_str("Failed to read response content: ").concat(reason.as_str())
            },
            RequestError::Status { text, .. } => {
                String::from_str("Status code: ").concat(status).concat(", response: ").concat(
                    text.as_str(),
                )
            },
            RequestError::Deserialize { reason, text, .. } => {
                String::from_str("Failed to deserialize response: ").concat(reason.as_str()).concat(
                    ", response: ",
                ).concat(text.as_str()).concat(", status: ").concat(status)
            },
        }
    }

    /// The message of the error.
    pub fn message(&self) -> (message: String)
        ensures
            message@ == request_error_text(*self, carried_status(*self)),
            self matches RequestError::Send(reason) ==> message@ == "Failed to send request: "@
                + reason@,
            self matches RequestError::Read(reason) ==> message@
                == "Failed to read response content: "@ + reason@,
            self matches RequestError::Status { status, text } ==> message@ == "Status code: "@
                + status_text(status@) + ", response: "@ + text@,
            self matches RequestError::Deserialize { reason, text, status } ==> message@
                == "Failed to deserialize response: "@ + reason@ + ", response: "@ + text@
                + ", status: "@ + status_text(status@),
    {
        let status: String = match self {
            RequestError::Status { status, .. } => status.text(),
            RequestError::Deserialize { status, .. } => status.text(),
            _ => String::new(),
        };
        self.message_with(status.as_str())
    }
}

/// The body of a reply, unless its status tells of failure.
pub fn accept_reply(status: HttpStatus, text: String) -> (body: Result<String, RequestError>)
    ensures
        200 <= status@ < 300 ==> body == Ok::<String, RequestError>(text),
        !(200 <= status@ < 300) ==> body == Err::<String, RequestError>(
            RequestError::Status { status, text },
        ),
{
    if status.is_success() {
        Ok(text)
    } else {
        Err(RequestError::Status { status, text })
    }
}

/// What a body says, unless it could not be read as the reply that was asked for.
/// The reason for that is given as text.
pub fn accept_parsed<T>(status: HttpStatus, text: String, parsed: Result<T, String>) -> (reply:
    Result<T, RequestError>)
    ensures
        parsed matches Ok(value) ==> reply == Ok::<T, RequestError>(value),
        parsed matches Err(reason) ==> reply == Err::<T, RequestError>(
            RequestError::Deserialize { reason, text, status },
        ),
{
    match parsed {
        Ok(value) => Ok(value),
        Err(reason) => Err(RequestError::Deserialize { reason, text, status }),
    }
}

/// What comes of a request, told stage by stage.
pub open spec fn reply_outcome<T>(
    sent: Result<(HttpStatus, Result<(String, Result<T, String>), String>), String>,
) -> Result<T, RequestError> {
    match sent {
        Err(reason) => Err(RequestError::Send(reason)),
        Ok((_, Err(reason))) => Err(RequestError::Read(reason)),
        Ok((status, Ok((text, parsed)))) => if 200 <= status@ < 300 {
            match parsed {
                Ok(value) => Ok(value),
                Err(reason) => Err(RequestError::Deserialize { reason, text, status }),
            }
        } else {
            Err(RequestError::Status { status, text })
        },
    }
}

/// A request succeeds exactly if its reply has a status from 200 to 299 and a body
/// that could be read for what it says, and then gives just that.
pub proof fn only_a_good_reply_succeeds<T>(
    sent: Result<(HttpStatus, Result<(String, Result<T, String>), String>), String>,
    value: T,
)
    ensures
        reply_outcome(sent) == Ok::<T, RequestError>(value) <==> {
            &&& sent is Ok
            &&& 200 <= sent->Ok_0.0@ <= 299
            &&& sent->Ok_0.1 is Ok
            &&& sent->Ok_0.1->Ok_0.1 == Ok::<T, String>(value)
        },
{
}

/// Of several failures the first is told, with its own reason: a request that was not
/// sent, a body that was not read, a status that is not good, a body that says
/// something else.
pub proof fn the_first_failure_is_told<T>(
    status: HttpStatus,
    reason: String,
    text: String,
    parsed: Result<T, String>,
)
    ensures
        reply_outcome::<T>(Err(reason)) == Err::<T, RequestError>(RequestError::Send(reason)),
        reply_outcome::<T>(Ok((status, Err(reason)))) == Err::<T, RequestError>(
            RequestError::Read(reason),
        ),
        status@ < 200 || status@ >= 300 ==> reply_outcome(Ok((status, Ok((text, parsed)))))
            == Err::<T, RequestError>(RequestError::Status { status, text }),
        200 <= status@ < 300 ==> reply_outcome::<T>(Ok((status, Ok((text, Err(reason))))))
            == Err::<T, RequestError>(RequestError::Deserialize { reason, text, status }),
{
}

/// What comes of a request, told stage by stage: whether it could be sent, then the
/// status, whether the body could be read, then the body and what it says. The
/// first stage that failed is the error.
pub fn take_reply<T>(
    sent: Result<(HttpStatus, Result<(String, Result<T, String>), String>), String>,
) -> (reply: Result<T, RequestError>)
    ensures
        reply == reply_outcome(sent),
        reply == (match sent {
            Err(reason) => Err::<T, RequestError>(RequestError::Send(reason)),
            Ok((_, Err(reason))) => Err(RequestError::Read(reason)),
            Ok((status, Ok((text, parsed)))) => if 200 <= status@ < 300 {
                match parsed {
                    Ok(value) => Ok(value),
                    Err(reason) => Err(RequestError::Deserialize { reason, text, status }),
                }
            } else {
                Err(RequestError::Status { status, text })
            },
        }),
{
    match sent {
        Err(reason) => Err(RequestError::Send(reason)),
        Ok((_, Err(reason))) => Err(RequestError::Read(reason)),
        Ok((status, Ok((text, parsed)))) => match accept_reply(status, text) {
            Ok(body) => accept_parsed(status, body, parsed),
            Err(error) => Err(error),
        },
    }
}

/// A call names its method and hands over its one list whole, as the first call of
/// version 2.0.
pub proof fn a_call_hands_over_its_list(method: Seq<char>, list: Seq<Seq<char>>)
    ensures
        call(method, list).jsonrpc == "2.0"@,
        call(method, list).id == 1,
        call(method, list).method == method,
        call(method, list).params.len() == 1,
        call(method, list).params[0] == list,
{
}

/// What is stated of a request or a reply speaks of all that is read of it.
pub proof fn requests_and_replies_are_seen_whole(
    request: RpcRequest,
    sent: BundleSendResponse,
    reply: BundleStatusResponse,
)
    ensures
        request@.jsonrpc == request.jsonrpc@,
        request@.id == request.id,
        request@.method == request.method@,
        request@.params.len() == request.params@.len(),
        forall|i: int|
            0 <= i < request.params@.len() ==> {
                &&& (#[trigger] request@.params[i]).len() == request.params@[i]@.len()
                &&& forall|j: int|
                    0 <= j < request.params@[i]@.len() ==> request@.params[i][j] == (
                    #[trigger] request.params@[i]@[j])@
            },
        sent@.id == sent.id,
        sent@.jsonrpc == sent.jsonrpc@,
        sent@.result == sent.result@,
        reply@.len() == reply.result.value@.len(),
        forall|i: int|
            0 <= i < reply.result.value@.len() ==> {
                let status = reply.result.value@[i];
                &&& (#[trigger] reply@[i]).confirmation_status == status.confirmation_status@
                &&& reply@[i].transactions.len() == status.transactions@.len()
                &&& forall|j: int|
                    0 <= j < status.transactions@.len() ==> reply@[i].transactions[j]
                        == (#[trigger] status.transactions@[j])@
            },
{
}

/// A bundle has landed exactly if the first entry of the reply says `confirmed`, word
/// for word; the other entries say nothing.
pub proof fn only_the_first_entry_counts(reply: Seq<BundleStatusView>)
    ensures
        reply.len() == 0 ==> !is_landed(reply) && is_complete(reply),
        reply.len() > 0 ==> {
            &&& is_landed(reply) <==> reply[0].confirmation_status == "confirmed"@
            &&& is_complete(reply) <==> {
                reply[0].confirmation_status == "confirmed"@ ==> reply[0].transactions.len() > 0
            }
        },
{
}

/// Every error tells its whole reason and, where there was a reply, its whole text
/// and its status.
pub proof fn an_error_tells_all_it_knows(error: RequestError)
    ensures
        ({
            let told = request_error_text(error, carried_status(error));
            &&& error matches RequestError::Send(reason) ==> told == "Failed to send request: "@
                + reason@
            &&& error matches RequestError::Read(reason) ==> told
                == "Failed to read response content: "@ + reason@
            &&& error matches RequestError::Status { status, text } ==> told == "Status code: "@
                + status_text(status@) + ", response: "@ + text@
            &&& error matches RequestError::Deserialize { reason, text, status } ==> told
                == "Failed to deserialize response: "@ + reason@ + ", response: "@ + text@
                + ", status: "@ + status_text(status@)
        }),
{
}

} // verus!
