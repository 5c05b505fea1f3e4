//! HTTP responses.

use crate::number;
use crate::text;
use vstd::prelude::*;

verus! {

pub const PLAIN: &'static str = "text/plain; charset=utf-8";

pub const HTML: &'static str = "text/html; charset=utf-8";

pub const JSON: &'static str = "application/json";

/// A response: its status code, the type of its body, and its body.
#[derive(Debug)]
pub struct Response {
    pub code: u16,
    pub content_type: String,
    pub body: String,
}

/// The model of [`Response`].
pub struct ResponseView {
    pub code: u16,
    pub content_type: Seq<char>,
    pub body: Seq<char>,
}

impl View for Response {
    type V = ResponseView;

    open spec fn view(&self) -> ResponseView {
        ResponseView { code: self.code, content_type: self.content_type@, body: self.body@ }
    }
}

impl Response {
    /// The response of these parts.
    pub fn new(code: u16, content_type: &str, body: &str) -> (r: Response)
        ensures
            r@ == (ResponseView { code, content_type: content_type@, body: body@ }),
    {
        Response { code, content_type: content_type.to_owned(), body: body.to_owned() }
    }
}

/// The reason phrase of a status code; a code that the panel does not use has
/// that of success.
pub open spec fn reason(code: u16) -> Seq<char> {
    if code == 400 {
        "Bad Request"@
    } else if code == 403 {
        "Forbidden"@
    } else if code == 404 {
        "Not Found"@
    } else if code == 500 {
        "Internal Server Error"@
    } else {
        "OK"@
    }
}

/// The lines of a response before its body, the empty one at their end
/// included. The length that they give is that of the body in bytes.
pub open spec fn head(r: ResponseView) -> Seq<Seq<char>> {
    seq![
        "HTTP/1.1 "@ + number::decimal(r.code as nat) + " "@ + reason(r.code),
        "Content-Type: "@ + r.content_type,
        "Content-Length: "@ + number::decimal(vstd::utf8::encode_utf8(r.body).len()),
        "Connection: close"@,
        "Cache-Control: no-store"@,
        ""@,
    ]
}

/// The text of a response.
pub open spec fn response_text(r: ResponseView) -> Seq<char> {
    text::as_lines(head(r)) + r.body
}

/// The reason phrase of a status code.
pub fn reason_phrase(code: u16) -> (r: &'static str)
    ensures
        r@ == reason(code),
{
    match code {
        200 => "OK",
        400 => "Bad Request",
        403 => "Forbidden",
        404 => "Not Found",
        500 => "Internal Server Error",
        _ => "OK",
    }
}

/// The text of a response.
pub fn respond(code: u16, content_type: &str, body: &str) -> (r: String)
    ensures
        r@ == response_text(ResponseView { code, content_type: content_type@, body: body@ }),
{
    let ghost v = ResponseView { code, content_type: content_type@, body: body@ };
    let ghost lines = head(v);
    let length: usize = body.as_bytes().len();
    let mut out = String::new();
    out.append("HTTP/1.1 ");
    number::push_decimal(&mut out, code as u64);
    out.append(" ");
    out.append(reason_phrase(code));
    let ghost first = out@;
    out.append("\r\nContent-Type: ");
    out.append(content_type);
    out.append("\r\nContent-Length: ");
    number::push_decimal(&mut out, length as u64);
    out.append("\r\nConnection: close\r\nCache-Control: no-store\r\n\r\n");
    proof {
        reveal_strlit("\r\nContent-Type: ");
        reveal_strlit("Content-Type: ");
        reveal_strlit("\r\nContent-Length: ");
        reveal_strlit("Content-Length: ");
        reveal_strlit("\r\nConnection: close\r\nCache-Control: no-store\r\n\r\n");
        reveal_strlit("Connection: close");
        reveal_strlit("Cache-Control: no-store");
        reveal_strlit("");
        reveal_with_fuel(text::as_lines, 7);
        assert(first == lines[0]);
        assert(out@ == text::as_lines(lines));
    }
    out.append(body);
    out
}

/// The bytes of two texts, one after the other, are those of the text that is
/// one after the other.
proof fn lemma_encode_concat(a: Seq<char>, b: Seq<char>)
    ensures
        vstd::utf8::encode_utf8(a + b) == vstd::utf8::encode_utf8(a) + vstd::utf8::encode_utf8(b),
    decreases a.len(),
{
    if a.len() == 0 {
        assert(a + b == b);
    } else {
        lemma_encode_concat(a.drop_first(), b);
        assert((a + b).drop_first() == a.drop_first() + b);
        assert((a + b)[0] == a[0]);
    }
}

/// A response is framed as its reader needs it. Its lines are those of the head
/// and those of the body; the first empty one ends the head. The bytes behind
/// the head are those of the body, and the head gives their number.
pub proof fn law_response_is_framed(r: ResponseView)
    requires
        !text::holds(r.content_type, '\n'),
    ensures
        text::lines(response_text(r)) == head(r) + text::lines(r.body),
        head(r).last().len() == 0,
        forall|i: int| 0 <= i < head(r).len() - 1 ==> (#[trigger] head(r)[i]).len() != 0,
        vstd::utf8::encode_utf8(response_text(r)) == vstd::utf8::encode_utf8(
            text::as_lines(head(r)),
        ) + vstd::utf8::encode_utf8(r.body),
        exists|digits: Seq<char>|
            head(r)[2] == "Content-Length: "@ + digits && #[trigger] number::number(
                digits,
                vstd::utf8::encode_utf8(r.body).len(),
            ) == Some(vstd::utf8::encode_utf8(r.body).len()),
{
    reveal_strlit("HTTP/1.1 ");
    reveal_strlit(" ");
    reveal_strlit("OK");
    reveal_strlit("Bad Request");
    reveal_strlit("Forbidden");
    reveal_strlit("Not Found");
    reveal_strlit("Internal Server Error");
    reveal_strlit("Content-Type: ");
    reveal_strlit("Content-Length: ");
    reveal_strlit("Connection: close");
    reveal_strlit("Cache-Control: no-store");
    reveal_strlit("");
    let h = head(r);
    let n = vstd::utf8::encode_utf8(r.body).len();
    let code = number::decimal(r.code as nat);
    let digits = number::decimal(n);
    number::lemma_decimal(r.code as nat);
    number::lemma_decimal(n);
    number::law_decimal_reads_back(n, n);
    assert(!text::holds(h[0], '\n')) by {
        let phrase = reason(r.code);
        assert forall|i: int| 0 <= i < phrase.len() implies #[trigger] phrase[i] != '\n' by {}
        assert forall|i: int| 0 <= i < h[0].len() implies #[trigger] h[0][i] != '\n' by {
            if 9 <= i < 9 + code.len() {
                assert(h[0][i] == code[i - 9]);
            } else if i > 9 + code.len() {
                assert(h[0][i] == phrase[i - 10 - code.len()]);
            }
        }
    }
    assert(!text::holds(h[1], '\n')) by {
        assert forall|i: int| 0 <= i < h[1].len() implies #[trigger] h[1][i] != '\n' by {
            if i >= 14 {
                assert(h[1][i] == r.content_type[i - 14]);
            }
        }
    }
    assert(!text::holds(h[2], '\n')) by {
        assert forall|i: int| 0 <= i < h[2].len() implies #[trigger] h[2][i] != '\n' by {
            if i >= 16 {
                assert(h[2][i] == digits[i - 16]);
            }
        }
    }
    assert(!text::holds(h[3], '\n'));
    assert(!text::holds(h[4], '\n'));
    assert(!text::holds(h[5], '\n'));
    assert forall|i: int| 0 <= i < h.len() implies !text::holds(#[trigger] h[i], '\n') by {}
    text::law_lines_read_back(h, r.body);
    lemma_encode_concat(text::as_lines(h), r.body);
    assert(h[2] == "Content-Length: "@ + digits);
}

/// The reason phrases that the panel uses, and that of every other code.
pub proof fn law_reason(code: u16)
    ensures
        code == 400 ==> reason(code) == "Bad Request"@,
        code == 403 ==> reason(code) == "Forbidden"@,
        code == 404 ==> reason(code) == "Not Found"@,
        code == 500 ==> reason(code) == "Internal Server Error"@,
        code != 400 && code != 403 && code != 404 && code != 500 ==> reason(code) == "OK"@,
{
}

/// The head of every response tells its reader what comes: the code and its
/// phrase stand in the first line, the type of the body in the second, and the
/// number of its bytes in the third. The head ends in an empty line, and what
/// follows it are the lines of the body.
pub proof fn law_head_tells(r: ResponseView)
    requires
        forall|i: int| 0 <= i < r.content_type.len() ==> #[trigger] r.content_type[i] != '\n',
    ensures
        ({
            let lines = text::lines(response_text(r));
            &&& lines.len() >= 6
            &&& lines[0] == "HTTP/1.1 "@ + number::decimal(r.code as nat) + " "@ + reason(r.code)
            &&& lines[1] == "Content-Type: "@ + r.content_type
            &&& lines[2] == "Content-Length: "@ + number::decimal(
                vstd::utf8::encode_utf8(r.body).len(),
            )
            &&& lines[3] == "Connection: close"@
            &&& lines[4] == "Cache-Control: no-store"@
            &&& lines[5].len() == 0
            &&& lines.skip(6) == text::lines(r.body)
        }),
{
    assert(!text::holds(r.content_type, '\n'));
    law_response_is_framed(r);
    reveal_strlit("");
    let lines = text::lines(response_text(r));
    let h = head(r);
    assert forall|i: int| 0 <= i < 6 implies #[trigger] lines[i] == h[i] by {}
}

/// The text of a response, whatever its parts hold: each part stands once and as
/// it is between what frames it, and the body comes last.
pub proof fn law_response_text(r: ResponseView)
    ensures
        response_text(r) == "HTTP/1.1 "@ + number::decimal(r.code as nat) + " "@ + reason(r.code)
            + "\r\nContent-Type: "@ + r.content_type + "\r\nContent-Length: "@ + number::decimal(
            vstd::utf8::encode_utf8(r.body).len(),
        ) + "\r\nConnection: close\r\nCache-Control: no-store\r\n\r\n"@ + r.body,
{
    reveal_strlit("\r\nContent-Type: ");
    reveal_strlit("Content-Type: ");
    reveal_strlit("\r\nContent-Length: ");
    reveal_strlit("Content-Length: ");
    reveal_strlit("\r\nConnection: close\r\nCache-Control: no-store\r\n\r\n");
    reveal_strlit("Connection: close");
    reveal_strlit("Cache-Control: no-store");
    reveal_strlit("");
    reveal_with_fuel(text::as_lines, 7);
    let first = "HTTP/1.1 "@ + number::decimal(r.code as nat) + " "@ + reason(r.code);
    let h = head(r);
    assert(h[0] == first);
    assert(text::as_lines(h) == first + "\r\nContent-Type: "@ + r.content_type
        + "\r\nContent-Length: "@ + number::decimal(vstd::utf8::encode_utf8(r.body).len())
        + "\r\nConnection: close\r\nCache-Control: no-store\r\n\r\n"@);
}

/// The model of a response holds its parts.
pub proof fn law_response_model(r: Response)
    ensures
        r@.code == r.code,
        r@.content_type == r.content_type@,
        r@.body == r.body@,
{
}

} // verus!
