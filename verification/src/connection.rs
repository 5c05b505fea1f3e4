//! The course of a connection: a request is read, its token is checked, and it
//! is answered.

use crate::failure;
use crate::failure::Failure;
use crate::json;
use crate::number;
use crate::panel::PANEL_HTML;
use crate::query;
use crate::request;
use crate::request::Request;
use crate::request::RequestView;
use crate::response;
use crate::response::Response;
use crate::response::ResponseView;
use crate::status;
use crate::status::Status;
use crate::status::StatusView;
use crate::text;
use crate::token;
use vstd::prelude::*;

verus! {

/// For how many seconds a connection waits when it reads or writes.
pub const TIMEOUT_SECONDS: u64 = 5;

/// The answer where the token could not be loaded.
pub const UNAVAILABLE: &'static str = "internal error: token unavailable\n";

/// The answer to a request without the token.
pub const FORBIDDEN: &'static str =
    "forbidden: token required\nhint: adb shell su -c 'cat /data/adb/ksu/webui_token'\n";

/// The answer to a request to set a feature that does not say which, or what to.
pub const INCOMPLETE: &'static str = "{\"ok\":false,\"error\":\"missing id or value\"}";

/// The answer to any other request.
pub const NOT_FOUND: &'static str = "not found\n";

/// What a connection needs next.
#[derive(Debug)]
pub enum ConnStep {
    /// Read the request.
    Receive,
    /// Load the token that the request has to come with.
    LoadToken { request: Request },
    /// Ask the kernel for its status.
    QueryStatus,
    /// Set a feature in the kernel and save its value.
    SetFeature { id: u32, value: u64 },
    /// Send this response and close the connection.
    Send(Response),
    /// Close the connection without a response.
    Close,
}

/// The outcome of what a connection needed.
#[derive(Debug)]
pub enum ConnEvent {
    /// The bytes that were read; none where the peer has closed or reading
    /// failed.
    Received(Vec<u8>),
    /// The token, if it could be loaded.
    Token(Option<String>),
    /// The status.
    Status(Status),
    /// Whether the feature is set, or why not.
    FeatureSet(Result<(), Failure>),
}

/// The model of [`ConnStep`].
pub enum ConnStepView {
    Receive,
    LoadToken { request: RequestView },
    QueryStatus,
    SetFeature { id: u32, value: u64 },
    Send(ResponseView),
    Close,
}

/// The model of [`ConnEvent`].
pub enum ConnEventView {
    Received(Seq<u8>),
    Token(Option<Seq<char>>),
    Status(StatusView),
    FeatureSet(Result<(), Seq<Seq<char>>>),
}

impl View for ConnStep {
    type V = ConnStepView;

    open spec fn view(&self) -> ConnStepView {
        match *self {
            ConnStep::Receive => ConnStepView::Receive,
            ConnStep::LoadToken { request } => ConnStepView::LoadToken { request: request@ },
            ConnStep::QueryStatus => ConnStepView::QueryStatus,
            ConnStep::SetFeature { id, value } => ConnStepView::SetFeature { id, value },
            ConnStep::Send(response) => ConnStepView::Send(response@),
            ConnStep::Close => ConnStepView::Close,
        }
    }
}

impl View for ConnEvent {
    type V = ConnEventView;

    open spec fn view(&self) -> ConnEventView {
        match *self {
            ConnEvent::Received(bytes) => ConnEventView::Received(bytes@),
            ConnEvent::Token(token) => ConnEventView::Token(token.deep_view()),
            ConnEvent::Status(status) => ConnEventView::Status(status@),
            ConnEvent::FeatureSet(r) => ConnEventView::FeatureSet(failure::outcome(r)),
        }
    }
}

/// The number up to `max` that a query gives to a parameter.
pub open spec fn number_param(query: Seq<char>, key: Seq<char>, max: nat) -> Option<nat> {
    match query::param(query, key) {
        Some(s) => number::number(s, max),
        None => None,
    }
}

/// What a request to set a feature needs.
pub open spec fn set_request(query: Seq<char>) -> ConnStepView {
    let id = number_param(query, "id"@, u32::MAX as nat);
    let value = number_param(query, "value"@, u64::MAX as nat);
    match (id, value) {
        (Some(id), Some(value)) => ConnStepView::SetFeature { id: id as u32, value: value as u64 },
        _ => ConnStepView::Send(
            ResponseView { code: 400, content_type: response::JSON@, body: INCOMPLETE@ },
        ),
    }
}

/// What a request with the right token needs.
pub open spec fn route(r: RequestView) -> ConnStepView {
    if r.method == "GET"@ && r.path == "/"@ {
        ConnStepView::Send(
            ResponseView { code: 200, content_type: response::HTML@, body: PANEL_HTML@ },
        )
    } else if r.method == "GET"@ && r.path == "/api/status"@ {
        ConnStepView::QueryStatus
    } else if (r.method == "GET"@ || r.method == "POST"@) && r.path == "/api/feature/set"@ {
        set_request(r.query)
    } else {
        ConnStepView::Send(
            ResponseView { code: 404, content_type: response::PLAIN@, body: NOT_FOUND@ },
        )
    }
}

/// What a request needs once the token is loaded, or could not be.
pub open spec fn checked(r: RequestView, expected: Option<Seq<char>>) -> ConnStepView {
    match expected {
        None => ConnStepView::Send(
            ResponseView { code: 500, content_type: response::PLAIN@, body: UNAVAILABLE@ },
        ),
        Some(t) => if request::provided(r) == Some(t) {
            route(r)
        } else {
            ConnStepView::Send(
                ResponseView { code: 403, content_type: response::PLAIN@, body: FORBIDDEN@ },
            )
        },
    }
}

/// The response to a request to set a feature.
pub open spec fn set_response(id: u32, value: u64, r: Result<(), Seq<Seq<char>>>) -> ResponseView {
    match r {
        Ok(()) => ResponseView {
            code: 200,
            content_type: response::JSON@,
            body: "{\"ok\":true,\"id\":"@ + number::decimal(id as nat) + ",\"value\":"@
                + number::decimal(value as nat) + "}"@,
        },
        Err(e) => ResponseView {
            code: 500,
            content_type: response::JSON@,
            body: "{\"ok\":false,\"error\":\""@ + json::escaped(failure::shown(e)) + "\"}"@,
        },
    }
}

/// What a connection needs after an outcome.
pub open spec fn conn_next(pending: ConnStepView, event: ConnEventView) -> ConnStepView {
    match (pending, event) {
        (ConnStepView::Receive, ConnEventView::Received(bytes)) => if bytes.len() == 0 {
            ConnStepView::Close
        } else {
            ConnStepView::LoadToken { request: request::request_of(request::text_of(bytes)) }
        },
        (ConnStepView::LoadToken { request }, ConnEventView::Token(expected)) => checked(
            request,
            expected,
        ),
        (ConnStepView::QueryStatus, ConnEventView::Status(s)) => ConnStepView::Send(
            ResponseView {
                code: 200,
                content_type: response::JSON@,
                body: status::status_text(s),
            },
        ),
        (ConnStepView::SetFeature { id, value }, ConnEventView::FeatureSet(r)) => ConnStepView::Send(
            set_response(id, value, r),
        ),
        _ => pending,
    }
}

/// The number up to `max` that a query gives to a parameter.
fn get_number_param(query: &str, key: &str, max: u64) -> (r: Option<u64>)
    ensures
        match r {
            Some(n) => number_param(query@, key@, max as nat) == Some(n as nat),
            None => number_param(query@, key@, max as nat) is None,
        },
{
    match query::get_query_param(query, key) {
        Some(s) => {
            let chars = text::chars_of(s.as_str());
            number::parse_number(chars.as_slice(), max)
        },
        None => None,
    }
}

/// Whether two strings hold the same text.
fn is(a: &String, b: &str) -> (r: bool)
    ensures
        r == (a@ == b@),
{
    let chars = text::chars_of(a.as_str());
    text::same(chars.as_slice(), b)
}

/// What a request with the right token needs: the page, the status, a feature
/// set, or a response that says what is wrong with it.
pub fn answer(r: &Request) -> (step: ConnStep)
    ensures
        step@ == route(r@),
{
    let get = is(&r.method, "GET");
    if get && is(&r.path, "/") {
        ConnStep::Send(Response::new(200, response::HTML, PANEL_HTML))
    } else if get && is(&r.path, "/api/status") {
        ConnStep::QueryStatus
    } else if (get || is(&r.method, "POST")) && is(&r.path, "/api/feature/set") {
        let id = get_number_param(r.query.as_str(), "id", u32::MAX as u64);
        let value = get_number_param(r.query.as_str(), "value", u64::MAX);
        match (id, value) {
            (Some(id), Some(value)) => ConnStep::SetFeature { id: id as u32, value },
            _ => ConnStep::Send(Response::new(400, response::JSON, INCOMPLETE)),
        }
    } else {
        ConnStep::Send(Response::new(404, response::PLAIN, NOT_FOUND))
    }
}

/// What a request needs once the token is loaded, or could not be: only one that
/// comes with the token is looked at any further.
pub fn check(r: &Request, expected: Option<&str>) -> (step: ConnStep)
    ensures
        step@ == checked(r@, expected.deep_view()),
{
    match expected {
        None => ConnStep::Send(Response::new(500, response::PLAIN, UNAVAILABLE)),
        Some(t) => {
            let ok = match r.provided_token() {
                Some(p) => token::same_token(p.as_str(), t),
                None => false,
            };
            if ok {
                answer(r)
            } else {
                ConnStep::Send(Response::new(403, response::PLAIN, FORBIDDEN))
            }
        },
    }
}

/// The response to a request to set a feature.
pub fn set_reply(id: u32, value: u64, r: Result<(), Failure>) -> (response: Response)
    ensures
        response@ == set_response(id, value, failure::outcome(r)),
{
    let mut body = String::new();
    match r {
        Ok(()) => {
            body.append("{\"ok\":true,\"id\":");
            number::push_decimal(&mut body, id as u64);
            body.append(",\"value\":");
            number::push_decimal(&mut body, value);
            body.append("}");
            Response::new(200, response::JSON, body.as_str())
        },
        Err(e) => {
            body.append("{\"ok\":false,\"error\":\"");
            body.append(json::escape_json(e.describe().as_str()).as_str());
            body.append("\"}");
            Response::new(500, response::JSON, body.as_str())
        },
    }
}

/// What a connection needs after the outcome of what it needed. It starts with
/// [`ConnStep::Receive`] and ends with [`ConnStep::Send`] or [`ConnStep::Close`];
/// an outcome of something else than what is pending leaves that pending.
pub fn handle_conn(pending: ConnStep, event: ConnEvent) -> (next: ConnStep)
    ensures
        next@ == conn_next(pending@, event@),
{
    match (pending, event) {
        (ConnStep::Receive, ConnEvent::Received(bytes)) => {
            if bytes.len() == 0 {
                ConnStep::Close
            } else {
                ConnStep::LoadToken { request: request::read_request(bytes.as_slice()) }
            }
        },
        (ConnStep::LoadToken { request }, ConnEvent::Token(expected)) => match &expected {
            Some(t) => check(&request, Some(t.as_str())),
            None => check(&request, None),
        },
        (ConnStep::QueryStatus, ConnEvent::Status(s)) => ConnStep::Send(
            Response::new(200, response::JSON, status::status_json(&s).as_str()),
        ),
        (ConnStep::SetFeature { id, value }, ConnEvent::FeatureSet(r)) => ConnStep::Send(
            set_reply(id, value, r),
        ),
        (pending, _) => pending,
    }
}

/// A request is looked at any further if and only if there is a token and the
/// request comes with it. Otherwise it is answered in plain words: that the token
/// is unavailable, or that it is required and where to find it.
pub proof fn law_checked(r: RequestView, token: Seq<char>)
    ensures
        request::provided(r) == Some(token) ==> checked(r, Some(token)) == route(r),
        request::provided(r) != Some(token) ==> checked(r, Some(token)) == ConnStepView::Send(
            ResponseView {
                code: 403,
                content_type: "text/plain; charset=utf-8"@,
                body:
                    "forbidden: token required\nhint: adb shell su -c 'cat /data/adb/ksu/webui_token'\n"@,
            },
        ),
        checked(r, None) == ConnStepView::Send(
            ResponseView {
                code: 500,
                content_type: "text/plain; charset=utf-8"@,
                body: "internal error: token unavailable\n"@,
            },
        ),
{
}

/// A GET of the root is answered with the page, as HTML; one of the status asks
/// for it; and what is neither these nor a feature to be set is not found.
pub proof fn law_route(r: RequestView)
    ensures
        r.method == "GET"@ && r.path == "/"@ ==> route(r) == ConnStepView::Send(
            ResponseView {
                code: 200,
                content_type: "text/html; charset=utf-8"@,
                body: PANEL_HTML@,
            },
        ),
        r.method == "GET"@ && r.path == "/api/status"@ ==> route(r) == ConnStepView::QueryStatus,
        !(r.method == "GET"@ && (r.path == "/"@ || r.path == "/api/status"@)) && !((r.method
            == "GET"@ || r.method == "POST"@) && r.path == "/api/feature/set"@) ==> route(r)
            == ConnStepView::Send(
            ResponseView {
                code: 404,
                content_type: "text/plain; charset=utf-8"@,
                body: "not found\n"@,
            },
        ),
{
    reveal_strlit("/");
    reveal_strlit("/api/status");
    assert("/"@.len() == 1 && "/api/status"@.len() == 11);
}

/// A GET and a POST that ask for a feature to be set lead to exactly the feature
/// and the value that the query gives as numbers in range, and to nothing else;
/// where it does not give both, they are told so.
pub proof fn law_route_sets(r: RequestView, id: u32, value: u64)
    requires
        r.method == "GET"@ || r.method == "POST"@,
        r.path == "/api/feature/set"@,
    ensures
        route(r) == (ConnStepView::SetFeature { id, value }) <==> (query::param(r.query, "id"@)
            matches Some(x) && number::number(x, 0xffff_ffff) == Some(id as nat)) && (query::param(
            r.query,
            "value"@,
        ) matches Some(y) && number::number(y, 0xffff_ffff_ffff_ffff) == Some(value as nat)),
        route(r) is SetFeature || route(r) == ConnStepView::Send(
            ResponseView {
                code: 400,
                content_type: "application/json"@,
                body: "{\"ok\":false,\"error\":\"missing id or value\"}"@,
            },
        ),
{
    reveal_strlit("/");
    reveal_strlit("/api/status");
    reveal_strlit("/api/feature/set");
    assert("/"@.len() == 1 && "/api/status"@.len() == 11 && "/api/feature/set"@.len() == 16);
}

/// What a request with the right token needs does not depend on where it carries
/// the token; and for setting a feature GET and POST are the same.
pub proof fn law_route_ignores_token(r: RequestView, other: RequestView)
    requires
        r.path == other.path,
        r.query == other.query,
        r.method == other.method || (r.path == "/api/feature/set"@ && (r.method == "GET"@
            || r.method == "POST"@) && (other.method == "GET"@ || other.method == "POST"@)),
    ensures
        route(r) == route(other),
{
    reveal_strlit("/");
    reveal_strlit("/api/status");
    reveal_strlit("/api/feature/set");
    assert("/"@.len() == 1 && "/api/status"@.len() == 11 && "/api/feature/set"@.len() == 16);
}

/// The answer to a feature that was set is a success, and to one that was not a
/// failure; both are JSON.
pub proof fn law_set_response_head(id: u32, value: u64, r: Result<(), Seq<Seq<char>>>)
    ensures
        r is Ok ==> set_response(id, value, r).code == 200,
        r is Err ==> set_response(id, value, r).code == 500,
        set_response(id, value, r).content_type == "application/json"@,
{
}

/// Each step goes on as its outcome says: bytes are read as a request, whose
/// token is then checked; the status is sent as it is written, as JSON; and that
/// a feature was set or not is told of that feature and that value.
pub proof fn law_conn_goes_on(
    bytes: Seq<u8>,
    r: RequestView,
    token: Option<Seq<char>>,
    s: StatusView,
    id: u32,
    value: u64,
    done: Result<(), Seq<Seq<char>>>,
)
    ensures
        bytes.len() == 0 ==> conn_next(ConnStepView::Receive, ConnEventView::Received(bytes))
            == ConnStepView::Close,
        bytes.len() != 0 ==> conn_next(ConnStepView::Receive, ConnEventView::Received(bytes))
            == (ConnStepView::LoadToken {
            request: request::request_of(request::text_of(bytes)),
        }),
        conn_next(ConnStepView::LoadToken { request: r }, ConnEventView::Token(token)) == checked(
            r,
            token,
        ),
        conn_next(ConnStepView::QueryStatus, ConnEventView::Status(s)) == ConnStepView::Send(
            ResponseView {
                code: 200,
                content_type: "application/json"@,
                body: status::status_text(s),
            },
        ),
        conn_next(ConnStepView::SetFeature { id, value }, ConnEventView::FeatureSet(done))
            == ConnStepView::Send(set_response(id, value, done)),
        TIMEOUT_SECONDS == 5 && request::MAX_REQUEST == 16 * 1024,
{
}

/// A step waits for its own outcome: any other leaves it pending, and what is
/// sent or closed stays so.
pub proof fn law_conn_waits(pending: ConnStepView, event: ConnEventView)
    requires
        pending is Receive ==> !(event is Received),
        pending is LoadToken ==> !(event is Token),
        pending is QueryStatus ==> !(event is Status),
        pending is SetFeature ==> !(event is FeatureSet),
    ensures
        conn_next(pending, event) == pending,
{
}

/// The model of a step or an outcome holds its parts.
pub proof fn law_conn_model(step: ConnStep, event: ConnEvent)
    ensures
        match step {
            ConnStep::Receive => step@ == ConnStepView::Receive,
            ConnStep::LoadToken { request } => step@ == (ConnStepView::LoadToken {
                request: request@,
            }),
            ConnStep::QueryStatus => step@ == ConnStepView::QueryStatus,
            ConnStep::SetFeature { id, value } => step@ == (ConnStepView::SetFeature { id, value }),
            ConnStep::Send(response) => step@ == ConnStepView::Send(response@),
            ConnStep::Close => step@ == ConnStepView::Close,
        },
        match event {
            ConnEvent::Received(bytes) => event@ == ConnEventView::Received(bytes@),
            ConnEvent::Token(Some(token)) => event@ == ConnEventView::Token(Some(token@)),
            ConnEvent::Token(None) => event@ == ConnEventView::Token(None),
            ConnEvent::Status(status) => event@ == ConnEventView::Status(status@),
            ConnEvent::FeatureSet(r) => event@ == ConnEventView::FeatureSet(failure::outcome(r)),
        },
{
}

} // verus!
