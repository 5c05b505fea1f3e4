//! What holds of a connection from its beginning, whatever comes.

use crate::connection;
use crate::connection::ConnEventView;
use crate::connection::ConnStepView;
use crate::failure;
use crate::feature;
use crate::json;
use crate::number;
use crate::panel::PANEL_HTML;
use crate::query;
use crate::request;
use crate::request::RequestView;
use crate::response;
use crate::response::ResponseView;
use crate::status;
use crate::status::StatusView;
use crate::text;
use crate::token;
use vstd::prelude::*;

verus! {

/// What a connection needs after the outcomes, from its beginning.
pub open spec fn conn_after(events: Seq<ConnEventView>) -> ConnStepView
    decreases events.len(),
{
    if events.len() == 0 {
        ConnStepView::Receive
    } else {
        connection::conn_next(conn_after(events.drop_last()), events.last())
    }
}

/// The response to a request without the token.
pub open spec fn forbidden() -> ResponseView {
    ResponseView {
        code: 403,
        content_type: response::PLAIN@,
        body: connection::FORBIDDEN@,
    }
}

/// The response where the token could not be loaded.
pub open spec fn unavailable() -> ResponseView {
    ResponseView {
        code: 500,
        content_type: response::PLAIN@,
        body: connection::UNAVAILABLE@,
    }
}

/// What the panel reads of the bytes of a request.
pub open spec fn request_in(bytes: Seq<u8>) -> RequestView {
    request::request_of(request::text_of(bytes))
}

/// Whether the bytes of a request were received at `i`.
pub open spec fn received_at(events: Seq<ConnEventView>, i: int, bytes: Seq<u8>) -> bool {
    &&& 0 <= i < events.len()
    &&& events[i] == ConnEventView::Received(bytes)
    &&& conn_after(events.take(i)) is Receive
}

/// Whether a request was received at `i`, and, when it was to be checked, a token
/// was loaded at `j` that it comes with.
pub open spec fn is_authorized(
    events: Seq<ConnEventView>,
    i: int,
    j: int,
    bytes: Seq<u8>,
    token: Seq<char>,
) -> bool {
    &&& received_at(events, i, bytes)
    &&& i < j < events.len()
    &&& events[j] == ConnEventView::Token(Some(token))
    &&& conn_after(events.take(j)) == ConnStepView::LoadToken { request: request_in(bytes) }
    &&& request::provided(request_in(bytes)) == Some(token)
}

/// Whether a step gives nothing away: no status, no feature, no page, and no
/// other response than that there is no token or not the right one.
pub open spec fn gives_nothing(step: ConnStepView) -> bool {
    match step {
        ConnStepView::Receive => true,
        ConnStepView::LoadToken { .. } => true,
        ConnStepView::Close => true,
        ConnStepView::Send(r) => r == forbidden() || r == unavailable(),
        _ => false,
    }
}

/// What was received stays so when more comes.
proof fn lemma_received_stays(events: Seq<ConnEventView>)
    requires
        events.len() != 0,
    ensures
        forall|i: int, bytes: Seq<u8>| #[trigger]
            received_at(events.drop_last(), i, bytes) ==> received_at(events, i, bytes),
        events[events.len() - 1] == events.last(),
        events.take(events.len() - 1) == events.drop_last(),
{
    let before = events.drop_last();
    assert(events.take(events.len() - 1) == before);
    assert forall|i: int, bytes: Seq<u8>| #[trigger] received_at(before, i, bytes) implies
        received_at(events, i, bytes) by {
        assert(events[i] == before[i]);
        assert(events.take(i) == before.take(i));
    }
}

/// The request of a pending check was received.
proof fn lemma_pending_request(events: Seq<ConnEventView>)
    ensures
        conn_after(events) matches ConnStepView::LoadToken { request } ==> exists|
            i: int,
            bytes: Seq<u8>,
        | #[trigger]
            received_at(events, i, bytes) && request == request_in(bytes),
    decreases events.len(),
{
    if events.len() != 0 {
        let before = events.drop_last();
        lemma_pending_request(before);
        lemma_received_stays(events);
        if let ConnStepView::LoadToken { request } = conn_after(before) {
            let (i, bytes) = choose|i: int, bytes: Seq<u8>| #[trigger]
                received_at(before, i, bytes) && request == request_in(bytes);
            assert(received_at(events, i, bytes));
        } else if let ConnEventView::Received(bytes) = events.last() {
            if conn_after(before) is Receive {
                assert(received_at(events, events.len() - 1, bytes));
            }
        }
    }
}

/// Access needs the token: whatever comes, a connection asks for no status, sets
/// no feature, and sends nothing but a refusal, unless its request came with the
/// token that was loaded to check it.
pub proof fn law_access_needs_token(events: Seq<ConnEventView>)
    ensures
        gives_nothing(conn_after(events)) || exists|
            i: int,
            j: int,
            bytes: Seq<u8>,
            token: Seq<char>,
        |
            is_authorized(events, i, j, bytes, token),
    decreases events.len(),
{
    if events.len() != 0 {
        let before = events.drop_last();
        law_access_needs_token(before);
        lemma_pending_request(before);
        lemma_received_stays(events);
        if !gives_nothing(conn_after(before)) {
            let (i, j, bytes, token) = choose|i: int, j: int, bytes: Seq<u8>, token: Seq<char>|
                is_authorized(before, i, j, bytes, token);
            assert(received_at(before, i, bytes));
            assert(events[j] == before[j]);
            assert(events.take(j) == before.take(j));
            assert(is_authorized(events, i, j, bytes, token));
        } else if let ConnStepView::LoadToken { request } = conn_after(before) {
            let (i, bytes) = choose|i: int, bytes: Seq<u8>| #[trigger]
                received_at(before, i, bytes) && request == request_in(bytes);
            assert(received_at(events, i, bytes));
            if let ConnEventView::Token(Some(token)) = events.last() {
                if request::provided(request) == Some(token) {
                    assert(is_authorized(events, i, events.len() - 1, bytes, token));
                }
            }
        }
    }
}

/// What a connection needs after a request and the token.
proof fn lemma_two_events(bytes: Seq<u8>, token: Option<Seq<char>>)
    requires
        bytes.len() != 0,
    ensures
        conn_after(seq![ConnEventView::Received(bytes), ConnEventView::Token(token)])
            == connection::checked(request_in(bytes), token),
{
    let events = seq![ConnEventView::Received(bytes), ConnEventView::Token(token)];
    let first = seq![ConnEventView::Received(bytes)];
    assert(events.drop_last() == first);
    assert(first.drop_last() == Seq::<ConnEventView>::empty());
    assert(conn_after(first.drop_last()) == ConnStepView::Receive);
    assert(conn_after(first) == ConnStepView::LoadToken { request: request_in(bytes) });
}

/// A request without the token is answered that it is forbidden, and one whose
/// token cannot be checked that the token is unavailable.
pub proof fn law_refused_request(bytes: Seq<u8>, token: Option<Seq<char>>)
    requires
        bytes.len() != 0,
        token matches Some(t) ==> request::provided(request_in(bytes)) != Some(t),
    ensures
        conn_after(seq![ConnEventView::Received(bytes), ConnEventView::Token(token)])
            == ConnStepView::Send(
            if token is Some {
                forbidden()
            } else {
                unavailable()
            },
        ),
{
    lemma_two_events(bytes, token);
}

/// A connection on which nothing is received is closed without a response, and
/// no other one is.
pub proof fn law_closed_only_if_silent(events: Seq<ConnEventView>)
    ensures
        conn_after(seq![ConnEventView::Received(seq![])]) == ConnStepView::Close,
        conn_after(events) is Close ==> exists|i: int|
            received_at(events, i, Seq::<u8>::empty()),
    decreases events.len(),
{
    let none = seq![ConnEventView::Received(seq![])];
    assert(none.drop_last() == Seq::<ConnEventView>::empty());
    assert(conn_after(none.drop_last()) == ConnStepView::Receive);
    if events.len() != 0 {
        let before = events.drop_last();
        law_closed_only_if_silent(before);
        lemma_received_stays(events);
        if conn_after(before) is Close {
            let i = choose|i: int| received_at(before, i, Seq::<u8>::empty());
            assert(received_at(events, i, Seq::<u8>::empty()));
        } else if let ConnStepView::LoadToken { request } = conn_after(before) {
            if let ConnEventView::Token(token) = events.last() {
                assert(!(connection::checked(request, token) is Close));
            }
        } else if let ConnEventView::Received(bytes) = events.last() {
            if conn_after(before) is Receive && bytes.len() == 0 {
                assert(bytes == Seq::<u8>::empty());
                assert(received_at(events, events.len() - 1, bytes));
            }
        }
    }
}

/// A response that is on its way stays what it is: a connection sends one.
pub proof fn law_one_response(events: Seq<ConnEventView>, more: Seq<ConnEventView>)
    requires
        conn_after(events) is Send || conn_after(events) is Close,
    ensures
        conn_after(events + more) == conn_after(events),
    decreases more.len(),
{
    if more.len() == 0 {
        assert(events + more == events);
    } else {
        assert((events + more).drop_last() == events + more.drop_last());
        law_one_response(events, more.drop_last());
    }
}

/// Every response that a connection sends is framed as its reader needs it: the
/// first empty line ends its head, and the head gives the number of bytes of the
/// body that follows.
pub proof fn law_every_response_is_framed(events: Seq<ConnEventView>)
    ensures
        conn_after(events) matches ConnStepView::Send(r) ==> {
            &&& r.code == 200 || r.code == 400 || r.code == 403 || r.code == 404 || r.code == 500
            &&& text::lines(response::response_text(r)) == response::head(r) + text::lines(r.body)
            &&& response::head(r)[2] == "Content-Length: "@ + number::decimal(
                vstd::utf8::encode_utf8(r.body).len(),
            )
        },
    decreases events.len(),
{
    lemma_content_type(events);
    if let ConnStepView::Send(r) = conn_after(events) {
        response::law_response_is_framed(r);
    }
}

proof fn lemma_content_type(events: Seq<ConnEventView>)
    ensures
        conn_after(events) matches ConnStepView::Send(r) ==> !text::holds(r.content_type, '\n') && (
        r.code == 200 || r.code == 400 || r.code == 403 || r.code == 404 || r.code == 500),
    decreases events.len(),
{
    reveal_strlit("text/plain; charset=utf-8");
    reveal_strlit("text/html; charset=utf-8");
    reveal_strlit("application/json");
    assert(!text::holds(response::PLAIN@, '\n'));
    assert(!text::holds(response::HTML@, '\n'));
    assert(!text::holds(response::JSON@, '\n'));
    if events.len() != 0 {
        lemma_content_type(events.drop_last());
    }
}

/// The bytes of a request for a path, with named values in the query.
pub open spec fn address_request(
    method: Seq<char>,
    path: Seq<char>,
    params: Seq<(Seq<char>, Seq<char>)>,
    version: Seq<char>,
    headers: Seq<Seq<char>>,
    body: Seq<char>,
) -> Seq<u8> {
    vstd::utf8::encode_utf8(
        request::request_text(
            request::request_line(
                method,
                request::target(path, Some(query::written(params))),
                version,
            ),
            headers,
            body,
        ),
    )
}

/// The bytes of a request as a browser sends it for the page and the page for
/// what it shows.
pub open spec fn page_request(
    path: Seq<char>,
    params: Seq<(Seq<char>, Seq<char>)>,
    version: Seq<char>,
    headers: Seq<Seq<char>>,
) -> Seq<u8> {
    address_request("GET"@, path, params, version, headers, seq![])
}

/// Whether a token can stand in the query of a request as it is: it holds no
/// whitespace and no `&`.
pub open spec fn is_query_token(token: Seq<char>) -> bool {
    text::is_spaceless(token) && !text::holds(token, '&')
}

/// Whether the script of the page writes a character into an address as it is:
/// `encodeURIComponent` leaves ASCII letters, digits and these marks alone.
pub open spec fn is_plain(c: char) -> bool {
    ||| 'a' <= c <= 'z'
    ||| 'A' <= c <= 'Z'
    ||| '0' <= c <= '9'
    ||| c == '-' || c == '_' || c == '.' || c == '!' || c == '~'
    ||| c == '*' || c == '\'' || c == '(' || c == ')'
}

/// Whether the script of the page writes a token into an address as it is. That
/// is so of every token that is made here. The panel decodes nothing, so it does
/// not know another token when the page sends it.
pub open spec fn is_plain_token(token: Seq<char>) -> bool {
    forall|i: int| 0 <= i < token.len() ==> is_plain(#[trigger] token[i])
}

/// A token that the page writes as it is can stand in a query.
proof fn lemma_plain_in_query(token: Seq<char>)
    requires
        is_plain_token(token),
    ensures
        is_query_token(token),
{
    assert forall|i: int| 0 <= i < token.len() implies !text::is_space(#[trigger] token[i])
        && token[i] != '&' by {
        assert(is_plain(token[i]));
    }
}

/// Whether headers are lines of a request that carry no token: none of them
/// starts, in capitals or not, with the name of the token header and a colon.
pub open spec fn are_other_headers(headers: Seq<Seq<char>>) -> bool {
    forall|i: int|
        0 <= i < headers.len() ==> request::is_header(#[trigger] headers[i])
            && !text::starts_lowered(headers[i], "x-ksu-token:"@)
}

/// Headers of other names hold no token.
proof fn lemma_other_headers(headers: Seq<Seq<char>>)
    requires
        are_other_headers(headers),
    ensures
        request::header_token(headers) is None,
{
    assert forall|i: int| 0 <= i < headers.len() implies request::line_token(
        #[trigger] headers[i],
    ) is None by {
        request::law_line_token(headers[i]);
        assert(request::is_header(headers[i]));
    }
    request::law_no_token_header(headers);
}

proof fn lemma_plain_joined(texts: Seq<Seq<char>>, c: char)
    requires
        !text::is_space(c),
        forall|i: int| 0 <= i < texts.len() ==> text::is_spaceless(#[trigger] texts[i]),
    ensures
        text::is_spaceless(text::joined(texts, c)),
    decreases texts.len(),
{
    if texts.len() > 0 {
        assert(text::is_spaceless(texts[0]));
        let rest = texts.drop_first();
        assert forall|i: int| 0 <= i < rest.len() implies text::is_spaceless(
            #[trigger] rest[i],
        ) by {
            assert(rest[i] == texts[i + 1]);
        }
        lemma_plain_joined(rest, c);
        let tail = text::joined(rest, c);
        let all = text::joined(texts, c);
        if texts.len() > 1 {
            assert forall|i: int| 0 <= i < all.len() implies !text::is_space(#[trigger] all[i]) by {
                if i < texts[0].len() {
                    assert(all[i] == texts[0][i]);
                } else if i > texts[0].len() {
                    assert(all[i] == tail[i - texts[0].len() - 1]);
                }
            }
        }
    }
}

/// What is read of a request with parameters in its address: its path, its
/// parameters, and the token of its headers.
proof fn lemma_address_request(
    method: Seq<char>,
    path: Seq<char>,
    params: Seq<(Seq<char>, Seq<char>)>,
    version: Seq<char>,
    headers: Seq<Seq<char>>,
    body: Seq<char>,
)
    requires
        method.len() != 0,
        text::is_spaceless(method),
        text::is_spaceless(path),
        !text::holds(path, '?'),
        forall|i: int|
            0 <= i < params.len() ==> text::is_spaceless((#[trigger] params[i]).0)
                && text::is_spaceless(params[i].1),
        !text::holds(version, '\n'),
        forall|i: int| 0 <= i < headers.len() ==> request::is_header(#[trigger] headers[i]),
    ensures
        address_request(method, path, params, version, headers, body).len() != 0,
        request_in(address_request(method, path, params, version, headers, body)) == (RequestView {
            method,
            path,
            query: query::written(params),
            header_token: request::header_token(headers),
        }),
{
    let f = |p: (Seq<char>, Seq<char>)| query::pair(p.0, p.1);
    let pairs = params.map_values(f);
    assert forall|i: int| 0 <= i < pairs.len() implies text::is_spaceless(#[trigger] pairs[i]) by {
        let (name, value) = params[i];
        assert(text::is_spaceless(params[i].0));
        let s = query::pair(name, value);
        assert(pairs[i] == s);
        assert forall|j: int| 0 <= j < s.len() implies !text::is_space(#[trigger] s[j]) by {
            if j < name.len() {
                assert(s[j] == name[j]);
            } else if j > name.len() {
                assert(s[j] == value[j - name.len() - 1]);
            }
        }
    }
    lemma_plain_joined(pairs, '&');
    let q = query::written(params);
    let target = request::target(path, Some(q));
    assert forall|i: int| 0 <= i < target.len() implies !text::is_space(#[trigger] target[i]) by {
        if i < path.len() {
            assert(target[i] == path[i]);
        } else if i > path.len() {
            assert(target[i] == q[i - path.len() - 1]);
        }
    }
    request::law_request_reads_back(method, path, Some(q), version, headers, body);
    let s = request::request_text(
        request::request_line(method, target, version),
        headers,
        body,
    );
    request::law_utf8_reads_back(s);
    assert(s.len() != 0);
    vstd::utf8::encode_utf8_first_scalar(s);
}

/// What is read of a request of the page.
proof fn lemma_page_request(
    path: Seq<char>,
    params: Seq<(Seq<char>, Seq<char>)>,
    version: Seq<char>,
    headers: Seq<Seq<char>>,
)
    requires
        text::is_spaceless(path),
        !text::holds(path, '?'),
        forall|i: int|
            0 <= i < params.len() ==> text::is_spaceless((#[trigger] params[i]).0)
                && text::is_spaceless(params[i].1),
        !text::holds(version, '\n'),
        are_other_headers(headers),
    ensures
        page_request(path, params, version, headers).len() != 0,
        request_in(page_request(path, params, version, headers)) == (RequestView {
            method: "GET"@,
            path,
            query: query::written(params),
            header_token: None,
        }),
{
    reveal_strlit("GET");
    assert(text::is_spaceless("GET"@));
    assert forall|i: int| 0 <= i < headers.len() implies request::is_header(
        #[trigger] headers[i],
    ) by {}
    lemma_address_request("GET"@, path, params, version, headers, seq![]);
    lemma_other_headers(headers);
}

/// A token in the query, where it is the first value of that name and no header
/// carries one, is the token that a request comes with.
pub proof fn law_address_token_is_provided(
    method: Seq<char>,
    path: Seq<char>,
    params: Seq<(Seq<char>, Seq<char>)>,
    at: int,
    version: Seq<char>,
    headers: Seq<Seq<char>>,
    body: Seq<char>,
)
    requires
        method.len() != 0,
        text::is_spaceless(method),
        text::is_spaceless(path),
        !text::holds(path, '?'),
        forall|i: int|
            0 <= i < params.len() ==> text::is_spaceless((#[trigger] params[i]).0)
                && text::is_spaceless(params[i].1) && query::is_writable(params[i].0, params[i].1),
        0 <= at < params.len(),
        params[at].0 == "token"@,
        forall|i: int| 0 <= i < at ==> (#[trigger] params[i]).0 != "token"@,
        !text::holds(version, '\n'),
        are_other_headers(headers),
    ensures
        request::provided(
            request_in(address_request(method, path, params, version, headers, body)),
        ) == Some(params[at].1),
{
    assert forall|i: int| 0 <= i < headers.len() implies request::is_header(
        #[trigger] headers[i],
    ) by {}
    lemma_address_request(method, path, params, version, headers, body);
    lemma_other_headers(headers);
    query::law_query_reads_back(params, at);
}

/// The token in the address opens the page.
pub proof fn law_page_opens(token: Seq<char>, version: Seq<char>, headers: Seq<Seq<char>>)
    requires
        is_query_token(token),
        !text::holds(version, '\n'),
        are_other_headers(headers),
    ensures
        conn_after(
            seq![
                ConnEventView::Received(
                    page_request("/"@, seq![("token"@, token)], version, headers),
                ),
                ConnEventView::Token(Some(token)),
            ],
        ) == ConnStepView::Send(
            ResponseView { code: 200, content_type: response::HTML@, body: PANEL_HTML@ },
        ),
{
    reveal_strlit("/");
    reveal_strlit("token");
    let params = seq![("token"@, token)];
    assert forall|i: int| 0 <= i < params.len() implies query::is_writable(
        (#[trigger] params[i]).0,
        params[i].1,
    ) by {}
    query::law_query_reads_back(params, 0);
    lemma_page_request("/"@, params, version, headers);
    lemma_two_events(page_request("/"@, params, version, headers), Some(token));
}

/// The page's question for the status, with a token that it writes as it is, is
/// taken for one.
pub proof fn law_page_reads_status(token: Seq<char>, version: Seq<char>, headers: Seq<Seq<char>>)
    requires
        is_plain_token(token),
        !text::holds(version, '\n'),
        are_other_headers(headers),
    ensures
        conn_after(
            seq![
                ConnEventView::Received(
                    page_request("/api/status"@, seq![("token"@, token)], version, headers),
                ),
                ConnEventView::Token(Some(token)),
            ],
        ) == ConnStepView::QueryStatus,
{
    lemma_plain_in_query(token);
    reveal_strlit("/");
    reveal_strlit("/api/status");
    reveal_strlit("token");
    let params = seq![("token"@, token)];
    assert forall|i: int| 0 <= i < params.len() implies query::is_writable(
        (#[trigger] params[i]).0,
        params[i].1,
    ) by {}
    query::law_query_reads_back(params, 0);
    lemma_page_request("/api/status"@, params, version, headers);
    lemma_two_events(page_request("/api/status"@, params, version, headers), Some(token));
    assert("/api/status"@.len() != "/"@.len());
}

/// The page's request to set a feature, with a token that it writes as it is,
/// sets that feature to that value, for every feature number and every value.
pub proof fn law_page_sets_feature(
    id: u32,
    value: u64,
    token: Seq<char>,
    version: Seq<char>,
    headers: Seq<Seq<char>>,
)
    requires
        is_plain_token(token),
        !text::holds(version, '\n'),
        are_other_headers(headers),
    ensures
        conn_after(
            seq![
                ConnEventView::Received(
                    page_request(
                        "/api/feature/set"@,
                        seq![
                            ("id"@, number::decimal(id as nat)),
                            ("value"@, number::decimal(value as nat)),
                            ("token"@, token),
                        ],
                        version,
                        headers,
                    ),
                ),
                ConnEventView::Token(Some(token)),
            ],
        ) == (ConnStepView::SetFeature { id, value }),
{
    lemma_plain_in_query(token);
    reveal_strlit("/");
    reveal_strlit("/api/status");
    reveal_strlit("/api/feature/set");
    reveal_strlit("id");
    reveal_strlit("value");
    reveal_strlit("token");
    let path = "/api/feature/set"@;
    let x = number::decimal(id as nat);
    let y = number::decimal(value as nat);
    let params = seq![("id"@, x), ("value"@, y), ("token"@, token)];
    number::lemma_decimal(id as nat);
    number::lemma_decimal(value as nat);
    assert forall|i: int| 0 <= i < params.len() implies query::is_writable(
        (#[trigger] params[i]).0,
        params[i].1,
    ) && text::is_spaceless(params[i].0) && text::is_spaceless(params[i].1) by {}
    assert("id"@.len() == 2 && "value"@.len() == 5 && "token"@.len() == 5);
    assert("value"@[0] != "token"@[0]);
    query::law_query_reads_back(params, 0);
    query::law_query_reads_back(params, 1);
    query::law_query_reads_back(params, 2);
    number::law_decimal_reads_back(id as nat, u32::MAX as nat);
    number::law_decimal_reads_back(value as nat, u64::MAX as nat);
    lemma_page_request(path, params, version, headers);
    lemma_two_events(page_request(path, params, version, headers), Some(token));
    assert(path.len() != "/"@.len() && path.len() != "/api/status"@.len());
}

/// A token in the token header, in capitals or not and with whitespace around
/// it, is the one that a request comes with, whatever its query holds, if no
/// later header carries another.
pub proof fn law_header_token_is_provided(
    method: Seq<char>,
    path: Seq<char>,
    query: Option<Seq<char>>,
    version: Seq<char>,
    before: Seq<Seq<char>>,
    name: Seq<char>,
    value: Seq<char>,
    after: Seq<Seq<char>>,
    body: Seq<char>,
)
    requires
        method.len() != 0,
        text::is_spaceless(method),
        request::target(path, query).len() != 0,
        text::is_spaceless(request::target(path, query)),
        !text::holds(path, '?'),
        !text::holds(version, '\n'),
        forall|i: int| 0 <= i < before.len() ==> request::is_header(#[trigger] before[i]),
        name.len() == "x-ksu-token"@.len(),
        forall|i: int|
            0 <= i < name.len() ==> text::lowered(#[trigger] name[i]) == "x-ksu-token"@[i],
        !text::holds(value, '\n'),
        are_other_headers(after),
    ensures
        request::provided(
            request_in(
                vstd::utf8::encode_utf8(
                    request::request_text(
                        request::request_line(method, request::target(path, query), version),
                        before + seq![name + seq![':'] + value] + after,
                        body,
                    ),
                ),
            ),
        ) == Some(text::trimmed(value)),
{
    let line = name + seq![':'] + value;
    let headers = before + seq![line] + after;
    let at = before.len() as int;
    request::law_header_in_any_case(name, value);
    reveal_strlit("x-ksu-token");
    assert(!text::holds(line, '\n')) by {
        assert forall|i: int| 0 <= i < line.len() implies #[trigger] line[i] != '\n' by {
            if i < name.len() {
                assert(line[i] == name[i]);
                assert(text::lowered(name[i]) == "x-ksu-token"@[i]);
            } else if i > name.len() {
                assert(line[i] == value[i - name.len() - 1]);
            }
        }
    }
    assert(headers[at] == line);
    assert forall|i: int| 0 <= i < headers.len() implies request::is_header(
        #[trigger] headers[i],
    ) by {
        if i < at {
            assert(headers[i] == before[i]);
        } else if i > at {
            assert(headers[i] == after[i - at - 1]);
        }
    }
    assert forall|i: int| 0 <= i < headers.len() implies (#[trigger] headers[i]).len() != 0 by {
        assert(request::is_header(headers[i]));
    }
    assert forall|i: int| at < i < headers.len() implies request::line_token(
        #[trigger] headers[i],
    ) is None by {
        assert(headers[i] == after[i - at - 1]);
    }
    request::law_last_header_counts(headers, at);
    request::law_request_reads_back(method, path, query, version, headers, body);
    request::law_utf8_reads_back(
        request::request_text(
            request::request_line(method, request::target(path, query), version),
            headers,
            body,
        ),
    );
}

/// Every token that is made here is one that the page writes as it is.
pub proof fn law_new_token_is_plain(random: Seq<u8>)
    ensures
        is_plain_token(number::hex(token::seed(random))),
{
    token::law_new_token_is_hex(random);
    let t = number::hex(token::seed(random));
    assert forall|i: int| 0 <= i < t.len() implies is_plain(#[trigger] t[i]) by {
        let c = number::hex(token::seed(random))[i];
        assert('0' <= c <= '9' || 'a' <= c <= 'f');
    }
}

/// The reason in the answer to a feature that could not be set is the reason
/// that was given, with its causes: from where its JSON string starts to where it
/// ends, it stands for that text.
pub proof fn law_set_error_reads_back(id: u32, value: u64, e: Seq<Seq<char>>)
    ensures
        ({
            let body = connection::set_response(id, value, Err(e)).body;
            let inside = body.skip("{\"ok\":false,\"error\":\""@.len() as int);
            json::unescaped(inside.take(json::string_end(inside) as int)) == failure::shown(e)
        }),
{
    let start = "{\"ok\":false,\"error\":\""@;
    let reason = failure::shown(e);
    reveal_strlit("\"}");
    assert(connection::set_response(id, value, Err(e)).body == start + json::escaped(reason)
        + seq!['"'] + seq!['}']);
    json::law_string_reads_back(start, reason, seq!['}']);
}

/// The answer to a request to set a feature is a JSON object: that it is set,
/// with its number and its value, or that it is not, with the reason.
pub proof fn law_set_response_is_object(id: u32, value: u64, r: Result<(), Seq<Seq<char>>>)
    ensures
        connection::set_response(id, value, r).body == json::object(
            match r {
                Ok(_) => seq![
                    json::member("ok"@, json::boolean(true)),
                    json::member("id"@, number::decimal(id as nat)),
                    json::member("value"@, number::decimal(value as nat)),
                ],
                Err(e) => seq![
                    json::member("ok"@, json::boolean(false)),
                    json::member("error"@, json::string(failure::shown(e))),
                ],
            },
        ),
{
    let q = seq!['"'];
    assert(json::is_key("ok"@) && json::is_key("id"@) && json::is_key("value"@) && json::is_key(
        "error"@,
    )) by {
        reveal_strlit("ok");
        reveal_strlit("id");
        reveal_strlit("value");
        reveal_strlit("error");
    }
    match r {
        Ok(_) => {
            let yes = json::boolean(true);
            let a = number::decimal(id as nat);
            let b = number::decimal(value as nat);
            assert("{\"ok\":true,\"id\":"@ == seq!['{'] + json::label("ok"@) + yes + (seq![',']
                + json::label("id"@))) by {
                reveal_strlit("{\"ok\":true,\"id\":");
                reveal_strlit("ok");
                reveal_strlit("true");
                reveal_strlit("id");
            }
            assert(",\"value\":"@ == seq![','] + json::label("value"@)) by {
                reveal_strlit(",\"value\":");
                reveal_strlit("value");
            }
            assert("}"@ == seq!['}']) by {
                reveal_strlit("}");
            }
            let m = seq![
                json::member("ok"@, yes),
                json::member("id"@, a),
                json::member("value"@, b),
            ];
            assert(m.take(1) == seq![m[0]]);
            assert(m.take(2) == m.take(1).push(m[1]));
            assert(m == m.take(2).push(m[2]));
            let t1 = seq!['{'] + json::label("ok"@) + yes;
            json::lemma_object_begins("ok"@, yes);
            let t2 = t1 + (seq![','] + json::label("id"@)) + a;
            json::lemma_object_goes_on(t1, m.take(1), "id"@, a);
            json::lemma_object_goes_on(t2, m.take(2), "value"@, b);
        },
        Err(e) => {
            let no = json::boolean(false);
            let reason = failure::shown(e);
            let x = json::escaped(reason);
            assert("{\"ok\":false,\"error\":\""@ == seq!['{'] + json::label("ok"@) + no + (seq![
                ',',
            ] + json::label("error"@)) + q) by {
                reveal_strlit("{\"ok\":false,\"error\":\"");
                reveal_strlit("ok");
                reveal_strlit("false");
                reveal_strlit("error");
            }
            assert("\"}"@ == q + seq!['}']) by {
                reveal_strlit("\"}");
            }
            let m = seq![json::member("ok"@, no), json::member("error"@, json::string(reason))];
            assert(m.take(1) == seq![m[0]]);
            assert(m == m.take(1).push(m[1]));
            let t1 = seq!['{'] + json::label("ok"@) + no;
            json::lemma_object_begins("ok"@, no);
            json::lemma_object_goes_on(t1, m.take(1), "error"@, json::string(reason));
            let t2 = t1 + (seq![','] + json::label("error"@));
            assert((t2 + q) + x + (q + seq!['}']) == t2 + (q + x + q) + seq!['}']);
        },
    }
}

/// A request to set a feature is answered with success if and only if the
/// feature is known, the kernel takes the value, and it is saved.
pub proof fn law_set_is_answered(
    id: u32,
    value: u64,
    known: bool,
    applied: Result<(), Seq<Seq<char>>>,
    config: Option<Map<u32, u64>>,
    saved: Result<(), Seq<Seq<char>>>,
)
    ensures
        feature::set_run(id, value, known, applied, config, saved).0
            matches feature::SetStepView::Done(r) && connection::conn_next(
            ConnStepView::SetFeature { id, value },
            ConnEventView::FeatureSet(r),
        ) matches ConnStepView::Send(answer) && (answer.code == 200 <==> known && applied is Ok
            && saved is Ok) && (answer.code == 500 <==> !(known && applied is Ok && saved is Ok)),
{
}

/// The version in the status is the trimmed name of the version: from where its
/// JSON string starts to where it ends, it stands for that text.
pub proof fn law_status_version_reads_back(s: StatusView)
    ensures
        ({
            let inside = status::status_text(s).skip("{\"version\":\""@.len() as int);
            json::unescaped(inside.take(json::string_end(inside) as int)) == text::trimmed(
                s.version_name,
            )
        }),
{
    let start = "{\"version\":\""@;
    let v = text::trimmed(s.version_name);
    let body = status::status_text(s);
    reveal_strlit("\",\"full_version\":\"");
    let n = start.len() as int + json::escaped(v).len();
    let tail = body.skip(n + 1);
    assert(body.take(n) == start + json::escaped(v));
    assert(body[n] == '"');
    assert(body == start + json::escaped(v) + seq!['"'] + tail);
    json::law_string_reads_back(start, v, tail);
}

/// The full version in the status is the trimmed full version: from where its
/// JSON string starts, behind the one of the version, to where it ends, it stands
/// for that text.
pub proof fn law_status_full_version_reads_back(s: StatusView)
    ensures
        ({
            let before = "{\"version\":\""@ + json::escaped(text::trimmed(s.version_name))
                + "\",\"full_version\":\""@;
            let inside = status::status_text(s).skip(before.len() as int);
            &&& status::status_text(s).take(before.len() as int) == before
            &&& json::unescaped(inside.take(json::string_end(inside) as int)) == text::trimmed(
                s.full_version,
            )
        }),
{
    let before = "{\"version\":\""@ + json::escaped(text::trimmed(s.version_name))
        + "\",\"full_version\":\""@;
    let v = text::trimmed(s.full_version);
    let body = status::status_text(s);
    reveal_strlit("\",\"kernel_version_code\":");
    let n = before.len() as int + json::escaped(v).len();
    let tail = body.skip(n + 1);
    assert(body.take(n) == before + json::escaped(v));
    assert(body[n] == '"');
    assert(body == before + json::escaped(v) + seq!['"'] + tail);
    json::law_string_reads_back(before, v, tail);
    assert(body.take(before.len() as int) == before);
}

/// The status lists every feature once: no two of the six that it lists are the
/// same or have one name.
pub proof fn law_features_differ(i: int, j: int)
    requires
        0 <= i < 6,
        0 <= j < 6,
        i != j,
    ensures
        feature::ALL_FEATURES@[i] != feature::ALL_FEATURES@[j],
        feature::ALL_FEATURES@[i].spec_name() != feature::ALL_FEATURES@[j].spec_name(),
{
    reveal_strlit("su_compat");
    reveal_strlit("kernel_umount");
    reveal_strlit("sulog");
    reveal_strlit("adb_root");
    reveal_strlit("selinux_hide");
    reveal_strlit("stealth");
    assert("su_compat"@.len() == 9);
    assert("kernel_umount"@.len() == 13);
    assert("sulog"@.len() == 5);
    assert("adb_root"@.len() == 8);
    assert("selinux_hide"@.len() == 12);
    assert("stealth"@.len() == 7);
}

/// A request that comes with the token gets what it asks for, and any other one
/// a refusal.
pub proof fn law_right_token_is_let_through(bytes: Seq<u8>, token: Seq<char>)
    requires
        bytes.len() != 0,
    ensures
        conn_after(seq![ConnEventView::Received(bytes), ConnEventView::Token(Some(token))]) == (
        if request::provided(request_in(bytes)) == Some(token) {
            connection::route(request_in(bytes))
        } else {
            ConnStepView::Send(
                ResponseView {
                    code: 403,
                    content_type: "text/plain; charset=utf-8"@,
                    body:
                        "forbidden: token required\nhint: adb shell su -c 'cat /data/adb/ksu/webui_token'\n"@,
                },
            )
        }),
{
    lemma_two_events(bytes, Some(token));
}

/// A request to set a feature sets exactly that feature to exactly that value: by
/// GET or by POST, with the token in a header or in the query, with whatever other
/// headers and body, and in whatever order and among whatever others the values
/// stand in the query.
pub proof fn law_request_sets_feature(
    method: Seq<char>,
    params: Seq<(Seq<char>, Seq<char>)>,
    i: int,
    j: int,
    id: u32,
    value: u64,
    version: Seq<char>,
    headers: Seq<Seq<char>>,
    body: Seq<char>,
    token: Seq<char>,
)
    requires
        method == "GET"@ || method == "POST"@,
        forall|k: int|
            0 <= k < params.len() ==> text::is_spaceless((#[trigger] params[k]).0)
                && text::is_spaceless(params[k].1) && query::is_writable(params[k].0, params[k].1),
        0 <= i < params.len() && params[i].0 == "id"@,
        forall|k: int| 0 <= k < i ==> (#[trigger] params[k]).0 != "id"@,
        0 <= j < params.len() && params[j].0 == "value"@,
        forall|k: int| 0 <= k < j ==> (#[trigger] params[k]).0 != "value"@,
        number::number(params[i].1, 0xffff_ffff) == Some(id as nat),
        number::number(params[j].1, 0xffff_ffff_ffff_ffff) == Some(value as nat),
        !text::holds(version, '\n'),
        forall|k: int| 0 <= k < headers.len() ==> request::is_header(#[trigger] headers[k]),
        match request::header_token(headers) {
            Some(t) => t == token,
            None => query::param(query::written(params), "token"@) == Some(token),
        },
    ensures
        conn_after(
            seq![
                ConnEventView::Received(
                    address_request(method, "/api/feature/set"@, params, version, headers, body),
                ),
                ConnEventView::Token(Some(token)),
            ],
        ) == (ConnStepView::SetFeature { id, value }),
{
    let path = "/api/feature/set"@;
    assert(method.len() != 0 && text::is_spaceless(method)) by {
        reveal_strlit("GET");
        reveal_strlit("POST");
    }
    assert(text::is_spaceless(path) && !text::holds(path, '?')) by {
        reveal_strlit("/api/feature/set");
    }
    let bytes = address_request(method, path, params, version, headers, body);
    lemma_address_request(method, path, params, version, headers, body);
    query::law_query_reads_back(params, i);
    query::law_query_reads_back(params, j);
    lemma_two_events(bytes, Some(token));
    request::law_header_before_query(request_in(bytes));
    connection::law_checked(request_in(bytes), token);
    connection::law_route_sets(request_in(bytes), id, value);
}

/// An ordinary request for the page, whatever headers it has beside the token
/// header, opens it if and only if the token in its address is the right one.
pub proof fn law_page_opens_only_with_token(
    given: Seq<char>,
    token: Seq<char>,
    version: Seq<char>,
    headers: Seq<Seq<char>>,
)
    requires
        is_query_token(given),
        !text::holds(version, '\n'),
        are_other_headers(headers),
    ensures
        conn_after(
            seq![
                ConnEventView::Received(
                    page_request("/"@, seq![("token"@, given)], version, headers),
                ),
                ConnEventView::Token(Some(token)),
            ],
        ) == (if given == token {
            ConnStepView::Send(
                ResponseView {
                    code: 200,
                    content_type: "text/html; charset=utf-8"@,
                    body: PANEL_HTML@,
                },
            )
        } else {
            ConnStepView::Send(forbidden())
        }),
{
    reveal_strlit("/");
    reveal_strlit("token");
    let params = seq![("token"@, given)];
    assert forall|i: int| 0 <= i < params.len() implies query::is_writable(
        (#[trigger] params[i]).0,
        params[i].1,
    ) by {}
    query::law_query_reads_back(params, 0);
    lemma_page_request("/"@, params, version, headers);
    lemma_two_events(page_request("/"@, params, version, headers), Some(token));
}

} // verus!
