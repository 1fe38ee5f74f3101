//! Responses: a status code, an optional content type and a body, and the
//! responses that the router gives by itself when no handler is called.

use vstd::prelude::*;
use vstd::string::StringExecFns;

verus! {

/// A response as handlers produce it and the transport sends it.
#[derive(Debug)]
pub struct Response {
    pub status: u16,
    pub content_type: Option<String>,
    pub body: String,
}

/// What a response says: its status, its content type and its body text.
pub struct ResponseView {
    pub status: u16,
    pub content_type: Option<Seq<char>>,
    pub body: Seq<char>,
}

impl View for Response {
    type V = ResponseView;

    open spec fn view(&self) -> ResponseView {
        ResponseView {
            status: self.status,
            content_type: match self.content_type {
                Some(t) => Some(t@),
                None => None,
            },
            body: self.body@,
        }
    }
}

/// The short name of a response.
pub type Resp = Response;

/// Status of a successful request.
pub const OK: u16 = 200;

/// Status of a request that is malformed.
pub const BAD_REQUEST: u16 = 400;

/// Status of a request that lacks valid credentials.
pub const UNAUTHORIZED: u16 = 401;

/// Status of a request for a path that no route matches.
pub const NOT_FOUND: u16 = 404;

/// Status of a request whose path is routed, but not under its method.
pub const METHOD_NOT_ALLOWED: u16 = 405;

/// Status of a request that failed inside the server.
pub const INTERNAL_SERVER_ERROR: u16 = 500;

/// The content type of a JSON body.
pub open spec fn json_content_type() -> Seq<char> {
    "application/json"@
}

/// A plain response: status 200, no content type, the given body.
pub open spec fn plain_view(body: Seq<char>) -> ResponseView {
    ResponseView { status: OK, content_type: None, body }
}

/// A JSON response: status 200, the JSON content type, the given body.
pub open spec fn json_view(body: Seq<char>) -> ResponseView {
    ResponseView { status: OK, content_type: Some(json_content_type()), body }
}

/// The response given for a path that no route matches.
pub open spec fn not_found_view() -> ResponseView {
    ResponseView {
        status: NOT_FOUND,
        content_type: Some(json_content_type()),
        body: "{\"status\":404,\"msg\":\"NOT FOUND\"}"@,
    }
}

/// The response given for a path that is routed, but not under the
/// request's method.
pub open spec fn method_not_allowed_view() -> ResponseView {
    ResponseView {
        status: METHOD_NOT_ALLOWED,
        content_type: Some(json_content_type()),
        body: "{\"status\":405,\"msg\":\"Method Not Allowed\"}"@,
    }
}

/// The response given when the server itself fails.
pub open spec fn internal_server_err_view() -> ResponseView {
    ResponseView {
        status: INTERNAL_SERVER_ERROR,
        content_type: Some(json_content_type()),
        body: "{\"status\":500,\"msg\":\"Internal Server Error\"}"@,
    }
}

impl Response {
    /// A plain response with status 200.
    pub fn new(body: String) -> (r: Response)
        ensures
            r@ == plain_view(body@),
    {
        Response { status: OK, content_type: None, body }
    }

    /// A response with status 200 whose body is already JSON text.
    pub fn json(body: String) -> (r: Response)
        ensures
            r@ == json_view(body@),
    {
        Response {
            status: OK,
            content_type: Some(String::from_str("application/json")),
            body,
        }
    }
}

/// A value that can be turned into a response, and then given a status.
pub trait IntoResponse: Sized {
    /// Whether `r` is what the value turns into. A type that says nothing
    /// of it may turn into any response.
    open spec fn turns_into(&self, r: ResponseView) -> bool {
        true
    }

    /// The value as a response.
    fn into_response(self) -> (r: Response)
        ensures
            self.turns_into(r@),
    ;

    /// The value as a response with the given status.
    fn with_status(self, status: u16) -> (r: Response)
        ensures
            r@.status == status,
            exists|before: u16| #[trigger]
                self.turns_into(
                    ResponseView { status: before, content_type: r@.content_type, body: r@.body },
                ),
    {
        let mut r = self.into_response();
        let ghost before = r@;
        r.status = status;
        assert(before == (ResponseView {
            status: before.status,
            content_type: r@.content_type,
            body: r@.body,
        }));
        r
    }

    /// The value as a response with status 200.
    fn ok(self) -> (r: Response)
        ensures
            r@.status == OK,
            exists|before: u16| #[trigger]
                self.turns_into(
                    ResponseView { status: before, content_type: r@.content_type, body: r@.body },
                ),
    {
        self.with_status(OK)
    }

    /// The value as a response with status 400.
    fn bad_request(self) -> (r: Response)
        ensures
            r@.status == BAD_REQUEST,
            exists|before: u16| #[trigger]
                self.turns_into(
                    ResponseView { status: before, content_type: r@.content_type, body: r@.body },
                ),
    {
        self.with_status(BAD_REQUEST)
    }

    /// The value as a response with status 405.
    fn method_not_allowed(self) -> (r: Response)
        ensures
            r@.status == METHOD_NOT_ALLOWED,
            exists|before: u16| #[trigger]
                self.turns_into(
                    ResponseView { status: before, content_type: r@.content_type, body: r@.body },
                ),
    {
        self.with_status(METHOD_NOT_ALLOWED)
    }

    /// The value as a response with status 401.
    fn unauthorized(self) -> (r: Response)
        ensures
            r@.status == UNAUTHORIZED,
            exists|before: u16| #[trigger]
                self.turns_into(
                    ResponseView { status: before, content_type: r@.content_type, body: r@.body },
                ),
    {
        self.with_status(UNAUTHORIZED)
    }

    /// The value as a response with status 404.
    fn not_found(self) -> (r: Response)
        ensures
            r@.status == NOT_FOUND,
            exists|before: u16| #[trigger]
                self.turns_into(
                    ResponseView { status: before, content_type: r@.content_type, body: r@.body },
                ),
    {
        self.with_status(NOT_FOUND)
    }
}

impl IntoResponse for Response {
    open spec fn turns_into(&self, r: ResponseView) -> bool {
        r == self@
    }

    fn into_response(self) -> (r: Response) {
        self
    }
}

impl IntoResponse for String {
    open spec fn turns_into(&self, r: ResponseView) -> bool {
        r == plain_view(self@)
    }

    fn into_response(self) -> (r: Response) {
        Response::new(self)
    }
}

impl IntoResponse for &'static str {
    open spec fn turns_into(&self, r: ResponseView) -> bool {
        r == plain_view(self@)
    }

    fn into_response(self) -> (r: Response) {
        Response::new(String::from_str(self))
    }
}

/// `serde_json::Error`, the reason for which a value was not rendered.
#[verifier::external_type_specification]
#[verifier::external_body]
pub struct ExJsonError(serde_json::Error);

/// The JSON string literal that stands for a text: the text between
/// double quotes, with the characters escaped that JSON asks it for, as
/// `serde_json::to_string` renders a `str`.
pub uninterp spec fn json_string_text(s: Seq<char>) -> Seq<char>;

/// Calls `serde_json::to_string` on a `str`. The contract claims that a
/// text is always given, and that it depends only on the text that was
/// handed in. `to_string` fails only where the value's `Serialize` impl
/// fails or a map has a key that is no string; a `str` is written
/// straight into a byte vector, which takes every write.
#[verifier::external_body]
fn json_quote(s: &str) -> (r: Result<String, serde_json::Error>)
    ensures
        r is Ok,
        r matches Ok(t) ==> t@ == json_string_text(s@),
{
    serde_json::to_string(s)
}

/// `serde_json::Value`, any JSON value. Nothing inside it is visible
/// here.
#[verifier::external_type_specification]
#[verifier::external_body]
pub struct ExJsonValue(serde_json::Value);

/// The compact JSON text of a value, as `Value::to_string` writes it.
pub uninterp spec fn json_value_text(value: serde_json::Value) -> Seq<char>;

/// Calls `to_string` on a `serde_json::Value`, which writes the value as
/// compact JSON. The contract claims that the text depends only on the
/// value.
#[verifier::external_body]
fn json_write(value: &serde_json::Value) -> (text: String)
    ensures
        text@ == json_value_text(*value),
{
    value.to_string()
}

impl IntoResponse for serde_json::Value {
    open spec fn turns_into(&self, r: ResponseView) -> bool {
        r == json_view(json_value_text(*self))
    }

    fn into_response(self) -> (r: Response) {
        Response::json(json_write(&self))
    }
}

/// The character of one decimal digit.
pub open spec fn digit_char(d: nat) -> char {
    if d == 0 {
        '0'
    } else if d == 1 {
        '1'
    } else if d == 2 {
        '2'
    } else if d == 3 {
        '3'
    } else if d == 4 {
        '4'
    } else if d == 5 {
        '5'
    } else if d == 6 {
        '6'
    } else if d == 7 {
        '7'
    } else if d == 8 {
        '8'
    } else {
        '9'
    }
}

/// A number in decimal digits, without leading zeros.
pub open spec fn decimal_text(n: nat) -> Seq<char>
    decreases n,
{
    if n < 10 {
        seq![digit_char(n)]
    } else {
        decimal_text(n / 10).push(digit_char(n % 10))
    }
}

/// The character of a decimal digit.
pub fn digit(d: u16) -> (c: char)
    requires
        d < 10,
    ensures
        c == digit_char(d as nat),
{
    if d == 0 {
        '0'
    } else if d == 1 {
        '1'
    } else if d == 2 {
        '2'
    } else if d == 3 {
        '3'
    } else if d == 4 {
        '4'
    } else if d == 5 {
        '5'
    } else if d == 6 {
        '6'
    } else if d == 7 {
        '7'
    } else if d == 8 {
        '8'
    } else {
        '9'
    }
}

/// Writes a number in decimal digits.
pub fn decimal(n: u16) -> (text: String)
    ensures
        text@ == decimal_text(n as nat),
    decreases n,
{
    if n < 10 {
        let mut text = String::new();
        text.push(digit(n));
        assert(text@ =~= seq![digit_char(n as nat)]);
        text
    } else {
        let mut text = decimal(n / 10);
        text.push(digit(n % 10));
        text
    }
}

/// The JSON object of a status and a message that is already a JSON
/// string literal.
pub open spec fn msg_json_text(status: u16, quoted: Seq<char>) -> Seq<char> {
    "{\"status\":"@ + decimal_text(status as nat) + ",\"msg\":"@ + quoted + "}"@
}

/// Writes the JSON object of a status and a message; `quoted` is the
/// message as a JSON string literal.
pub fn msg_json(status: u16, quoted: &str) -> (text: String)
    ensures
        text@ == msg_json_text(status, quoted@),
{
    let mut text = String::from_str("{\"status\":");
    let digits = decimal(status);
    text.append(digits.as_str());
    text.append(",\"msg\":");
    text.append(quoted);
    text.append("}");
    text
}

/// The plain response given where a value has no JSON text.
pub open spec fn unrendered_view() -> ResponseView {
    ResponseView { status: INTERNAL_SERVER_ERROR, content_type: None, body: "Internal Server Error"@ }
}

/// What a JSON text, or the lack of one, turns into.
pub open spec fn json_response_view(text: Option<Seq<char>>) -> ResponseView {
    match text {
        Some(t) => json_view(t),
        None => unrendered_view(),
    }
}

/// The response for a value's JSON text: a JSON response with status 200
/// and that body, or the plain 500 response where there is no text.
pub fn json_response(text: Option<String>) -> (r: Response)
    ensures
        r@ == json_response_view(
            match text {
                Some(t) => Some(t@),
                None => None,
            },
        ),
{
    match text {
        Some(t) => Response::json(t),
        None => Response {
            status: INTERNAL_SERVER_ERROR,
            content_type: None,
            body: String::from_str("Internal Server Error"),
        },
    }
}

/// A value that has a JSON text and turns into a JSON response.
pub trait ResponseJson: Sized {
    /// Whether `text` is the value's JSON text. A type that says nothing
    /// of it may give any text.
    open spec fn is_json(&self, text: Seq<char>) -> bool {
        true
    }

    /// The value's JSON text, or `None` where it cannot be rendered.
    fn to_json(&self) -> (text: Option<String>)
        ensures
            text matches Some(t) ==> self.is_json(t@),
    ;
}

impl<T: ResponseJson> IntoResponse for T {
    open spec fn turns_into(&self, r: ResponseView) -> bool {
        r == unrendered_view() || exists|text: Seq<char>| #[trigger]
            self.is_json(text) && r == json_view(text)
    }

    fn into_response(self) -> (r: Response) {
        json_response(self.to_json())
    }
}

/// A status and a message, the content of a short JSON answer.
#[derive(Debug)]
pub struct ResponseMsg {
    pub status: u16,
    pub msg: String,
}

impl ResponseMsg {
    /// A message with the given status code.
    pub fn new(status_code: u16, msg: String) -> (m: Self)
        ensures
            m.status == status_code,
            m.msg == msg,
    {
        Self { status: status_code, msg }
    }
}

impl ResponseJson for ResponseMsg {
    open spec fn is_json(&self, text: Seq<char>) -> bool {
        text == msg_json_text(self.status, json_string_text(self.msg@))
    }

    /// The JSON object of the status and the message, the status first.
    /// A message always has a JSON text.
    fn to_json(&self) -> (text: Option<String>)
        ensures
            text matches Some(t) && t@ == msg_json_text(self.status, json_string_text(self.msg@)),
    {
        match json_quote(self.msg.as_str()) {
            Ok(quoted) => Some(msg_json(self.status, quoted.as_str())),
            Err(_) => None,
        }
    }
}

/// The response for a path that no route matches.
pub fn response_not_found() -> (r: Response)
    ensures
        r@ == not_found_view(),
{
    Response::json(String::from_str("{\"status\":404,\"msg\":\"NOT FOUND\"}")).with_status(NOT_FOUND)
}

/// The response for a path that is routed, but not under the request's
/// method.
pub fn response_method_not_allowed() -> (r: Response)
    ensures
        r@ == method_not_allowed_view(),
{
    Response::json(
        String::from_str("{\"status\":405,\"msg\":\"Method Not Allowed\"}"),
    ).with_status(METHOD_NOT_ALLOWED)
}

/// The response for a failure of the server itself.
pub fn response_internal_server_err() -> (r: Response)
    ensures
        r@ == internal_server_err_view(),
{
    Response::json(
        String::from_str("{\"status\":500,\"msg\":\"Internal Server Error\"}"),
    ).with_status(INTERNAL_SERVER_ERROR)
}

} // verus!
