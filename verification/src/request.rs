//! What the panel reads of an HTTP request.

use crate::query;
use crate::text;
use vstd::prelude::*;
use vstd::slice::slice_subrange;

verus! {

/// The most bytes of a request that are read.
pub const MAX_REQUEST: usize = 16384;

/// How the line starts that carries the token, its ASCII capitals made small.
pub const TOKEN_HEADER: &'static str = "x-ksu-token:";

/// The name of the query parameter that carries the token.
pub const TOKEN_PARAM: &'static str = "token";

/// What [`String::from_utf8_lossy`] makes of bytes.
pub uninterp spec fn lossy_text(bytes: Seq<u8>) -> Seq<char>;

/// Calls [`String::from_utf8_lossy`]: what it returns is a function of the
/// bytes, and the text that they encode where they are UTF-8. How many
/// replacement characters stand for bytes that are not UTF-8 is left unsaid.
#[verifier::external_body]
fn from_utf8_lossy(bytes: &[u8]) -> (r: String)
    ensures
        r@ == lossy_text(bytes@),
        vstd::utf8::valid_utf8(bytes@) ==> r@ == vstd::utf8::decode_utf8(bytes@),
{
    String::from_utf8_lossy(bytes).into_owned()
}

/// The text of the bytes of a request: what they encode where they are UTF-8,
/// and otherwise what the lossy decoding makes of them.
pub open spec fn text_of(bytes: Seq<u8>) -> Seq<char> {
    if vstd::utf8::valid_utf8(bytes) {
        vstd::utf8::decode_utf8(bytes)
    } else {
        lossy_text(bytes)
    }
}

/// What the panel reads of a request.
#[derive(Debug)]
pub struct Request {
    /// The first word of the first line.
    pub method: String,
    /// The second word of the first line, up to its first `?`.
    pub path: String,
    /// The second word of the first line, from behind its first `?`.
    pub query: String,
    /// The token in the headers.
    pub header_token: Option<String>,
}

/// The model of [`Request`].
pub struct RequestView {
    pub method: Seq<char>,
    pub path: Seq<char>,
    pub query: Seq<char>,
    pub header_token: Option<Seq<char>>,
}

impl View for Request {
    type V = RequestView;

    open spec fn view(&self) -> RequestView {
        RequestView {
            method: self.method@,
            path: self.path@,
            query: self.query@,
            header_token: self.header_token.deep_view(),
        }
    }
}

/// The token that a header line carries.
pub open spec fn line_token(line: Seq<char>) -> Option<Seq<char>> {
    if text::starts_lowered(line, TOKEN_HEADER@) {
        Some(text::trimmed(line.skip(TOKEN_HEADER@.len() as int)))
    } else {
        None
    }
}

/// The token in header lines: that of the last line that carries one, of the
/// lines before the first empty one.
pub open spec fn header_token(lines: Seq<Seq<char>>) -> Option<Seq<char>>
    decreases lines.len(),
{
    if lines.len() == 0 || lines[0].len() == 0 {
        None
    } else {
        match header_token(lines.drop_first()) {
            Some(token) => Some(token),
            None => line_token(lines[0]),
        }
    }
}

/// The path and the query of a request target.
pub open spec fn target_parts(target: Seq<char>) -> (Seq<char>, Seq<char>) {
    match text::parted(target, '?') {
        Some((path, query)) => (path, query),
        None => (target, seq![]),
    }
}

/// What the panel reads of a request that starts with `line` and goes on with
/// the lines `headers`.
pub open spec fn request_of_lines(line: Seq<char>, headers: Seq<Seq<char>>) -> RequestView {
    let target = text::first_word(text::after_word(line));
    RequestView {
        method: text::first_word(line),
        path: target_parts(target).0,
        query: target_parts(target).1,
        header_token: header_token(headers),
    }
}

/// What the panel reads of the text of a request.
pub open spec fn request_of(s: Seq<char>) -> RequestView {
    let lines = text::lines(s);
    if lines.len() == 0 {
        request_of_lines(seq![], seq![])
    } else {
        request_of_lines(lines[0], lines.drop_first())
    }
}

/// The token in the header lines of `s`.
fn read_header_token(s: &[char]) -> (r: Option<String>)
    ensures
        r.deep_view() == header_token(text::lines(s@)),
{
    let mut rest: &[char] = s;
    let mut found: Option<String> = None;
    loop
        invariant
            header_token(text::lines(s@)) == (match header_token(text::lines(rest@)) {
                Some(token) => Some(token),
                None => found.deep_view(),
            }),
        decreases rest@.len(),
    {
        match text::next_line(rest) {
            None => {
                return found;
            },
            Some((line, more)) => {
                assert(text::lines(rest@).drop_first() == text::lines(more@));
                if line.len() == 0 {
                    return found;
                }
                if text::starts_with_lowered(line, TOKEN_HEADER) {
                    let n: usize = TOKEN_HEADER.unicode_len();
                    let value = slice_subrange(line, n, line.len());
                    assert(value@ == line@.skip(n as int));
                    found = Some(text::string_of(text::trim(value)));
                }
                rest = more;
            },
        }
    }
}

/// What the panel reads of the text of a request.
pub fn parse_request(s: &str) -> (r: Request)
    ensures
        r@ == request_of(s@),
{
    let chars = text::chars_of(s);
    let all: &[char] = chars.as_slice();
    let (line, headers) = match text::next_line(all) {
        Some((line, more)) => {
            assert(text::lines(all@).drop_first() == text::lines(more@));
            (line, more)
        },
        None => {
            assert(text::lines(seq![]) == Seq::<Seq<char>>::empty());
            assert(all@.len() == 0) by {
                text::lemma_position(all@, '\n');
            }
            assert(all@ == Seq::<char>::empty());
            (all, all)
        },
    };
    let (method, more) = text::next_word(line);
    let (target, _) = text::next_word(more);
    let header_token = read_header_token(headers);
    match text::split_once(target, '?') {
        Some((path, query)) => Request {
            method: text::string_of(method),
            path: text::string_of(path),
            query: text::string_of(query),
            header_token,
        },
        None => Request {
            method: text::string_of(method),
            path: text::string_of(target),
            query: String::new(),
            header_token,
        },
    }
}

/// What the panel reads of the bytes of a request.
pub fn read_request(bytes: &[u8]) -> (r: Request)
    ensures
        r@ == request_of(text_of(bytes@)),
{
    let s = from_utf8_lossy(bytes);
    parse_request(s.as_str())
}

/// The token that a request comes with: the one in its headers, or else the one
/// in its query.
pub open spec fn provided(r: RequestView) -> Option<Seq<char>> {
    match r.header_token {
        Some(token) => Some(token),
        None => query::param(r.query, TOKEN_PARAM@),
    }
}

impl Request {
    /// The token that the request comes with: the one in its headers, or else
    /// the one in its query.
    pub fn provided_token(&self) -> (r: Option<String>)
        ensures
            r.deep_view() == provided(self@),
    {
        match &self.header_token {
            Some(token) => Some(token.clone()),
            None => query::get_query_param(self.query.as_str(), TOKEN_PARAM),
        }
    }
}

/// The target of a request for a path, with a query or without one.
pub open spec fn target(path: Seq<char>, query: Option<Seq<char>>) -> Seq<char> {
    match query {
        Some(q) => path + seq!['?'] + q,
        None => path,
    }
}

/// The first line of a request.
pub open spec fn request_line(
    method: Seq<char>,
    target: Seq<char>,
    version: Seq<char>,
) -> Seq<char> {
    method + seq![' '] + target + seq![' '] + version
}

/// The text of a request: its first line, its headers, an empty line, and its
/// body.
pub open spec fn request_text(
    line: Seq<char>,
    headers: Seq<Seq<char>>,
    body: Seq<char>,
) -> Seq<char> {
    text::as_lines(seq![line] + headers + seq![seq![]]) + body
}

/// Whether a text can be a header line: it is not empty and holds no line feed.
pub open spec fn is_header(line: Seq<char>) -> bool {
    line.len() != 0 && !text::holds(line, '\n')
}

/// What follows the first empty line is not looked at for a token.
proof fn lemma_headers_end(headers: Seq<Seq<char>>, more: Seq<Seq<char>>)
    requires
        forall|i: int| 0 <= i < headers.len() ==> (#[trigger] headers[i]).len() != 0,
    ensures
        header_token(headers + seq![seq![]] + more) == header_token(headers),
    decreases headers.len(),
{
    let all = headers + seq![seq![]] + more;
    if headers.len() == 0 {
        assert(all[0].len() == 0);
    } else {
        let rest = headers.drop_first();
        assert(headers[0].len() != 0);
        assert(all[0] == headers[0]);
        assert(all.drop_first() == rest + seq![seq![]] + more);
        assert forall|i: int| 0 <= i < rest.len() implies (#[trigger] rest[i]).len() != 0 by {
            assert(rest[i] == headers[i + 1]);
        }
        lemma_headers_end(rest, more);
    }
}

/// The parts of a request are read as they were written, whatever its version
/// and its body are. Only the headers are looked at for a token in a line of
/// its own.
pub proof fn law_request_reads_back(
    method: Seq<char>,
    path: Seq<char>,
    query: Option<Seq<char>>,
    version: Seq<char>,
    headers: Seq<Seq<char>>,
    body: Seq<char>,
)
    requires
        method.len() != 0,
        text::is_spaceless(method),
        target(path, query).len() != 0,
        text::is_spaceless(target(path, query)),
        !text::holds(path, '?'),
        !text::holds(version, '\n'),
        forall|i: int| 0 <= i < headers.len() ==> is_header(#[trigger] headers[i]),
    ensures
        request_of(
            request_text(request_line(method, target(path, query), version), headers, body),
        ) == (RequestView {
            method,
            path,
            query: match query {
                Some(q) => q,
                None => seq![],
            },
            header_token: header_token(headers),
        }),
{
    let t = target(path, query);
    let line = request_line(method, t, version);
    let rest = headers + seq![seq![]];
    let texts = seq![line] + headers + seq![seq![]];
    assert(!text::holds(line, '\n')) by {
        assert forall|i: int| 0 <= i < line.len() implies #[trigger] line[i] != '\n' by {
            let m = method.len() as int;
            let n = t.len() as int;
            if i < m {
                assert(line[i] == method[i]);
            } else if m < i < m + 1 + n {
                assert(line[i] == t[i - m - 1]);
            } else if i > m + 1 + n {
                assert(line[i] == version[i - m - n - 2]);
            }
        }
    }
    assert forall|i: int| 0 <= i < texts.len() implies !text::holds(#[trigger] texts[i], '\n') by {
        if 0 < i < texts.len() - 1 {
            assert(texts[i] == headers[i - 1]);
            assert(is_header(headers[i - 1]));
        }
    }
    text::law_lines_read_back(texts, body);
    let lines = text::lines(request_text(line, headers, body));
    assert(lines[0] == line);
    assert(lines.drop_first() == headers + seq![seq![]] + text::lines(body));
    assert forall|i: int| 0 <= i < headers.len() implies (#[trigger] headers[i]).len() != 0 by {
        assert(is_header(headers[i]));
    }
    lemma_headers_end(headers, text::lines(body));
    let after = seq![' '] + t + (seq![' '] + version);
    assert(line == seq![] + method + after);
    text::lemma_first_word(seq![], method, after);
    text::lemma_first_word(seq![' '], t, seq![' '] + version);
    match query {
        Some(q) => {
            text::lemma_parted_at(path, '?', q);
        },
        None => {
            text::lemma_not_parted(path, '?');
        },
    }
}

/// The bytes of a text in UTF-8 are read as that text.
pub proof fn law_utf8_reads_back(s: Seq<char>)
    ensures
        text_of(vstd::utf8::encode_utf8(s)) == s,
{
    vstd::utf8::encode_utf8_valid_utf8(s);
    vstd::utf8::encode_utf8_decode_utf8(s);
}

/// A line carries a token if it is the name of the token header, in capitals or
/// not, a colon, and a value: the token is that value, trimmed.
pub proof fn law_header_in_any_case(name: Seq<char>, value: Seq<char>)
    requires
        name.len() == "x-ksu-token"@.len(),
        forall|i: int|
            0 <= i < name.len() ==> text::lowered(#[trigger] name[i]) == "x-ksu-token"@[i],
    ensures
        line_token(name + seq![':'] + value) == Some(text::trimmed(value)),
{
    reveal_strlit("x-ksu-token");
    reveal_strlit("x-ksu-token:");
    let line = name + seq![':'] + value;
    assert forall|i: int| 0 <= i < 12 implies text::lowered(#[trigger] line[i])
        == TOKEN_HEADER@[i] by {
        if i < 11 {
            assert(line[i] == name[i]);
        }
    }
    assert(line.skip(12) == value);
}

/// Of the headers that carry a token, the last one counts.
pub proof fn law_last_header_counts(headers: Seq<Seq<char>>, at: int)
    requires
        forall|i: int| 0 <= i < headers.len() ==> (#[trigger] headers[i]).len() != 0,
        0 <= at < headers.len(),
        line_token(headers[at]) is Some,
        forall|i: int| at < i < headers.len() ==> line_token(#[trigger] headers[i]) is None,
    ensures
        header_token(headers) == line_token(headers[at]),
    decreases headers.len(),
{
    let rest = headers.drop_first();
    assert(headers[0].len() != 0);
    assert forall|i: int| 0 <= i < rest.len() implies (#[trigger] rest[i]).len() != 0 by {
        assert(rest[i] == headers[i + 1]);
    }
    if at == 0 {
        assert forall|i: int| 0 <= i < rest.len() implies line_token(#[trigger] rest[i]) is None by {
            assert(rest[i] == headers[i + 1]);
        }
        law_no_token_header(rest);
    } else {
        assert(rest[at - 1] == headers[at]);
        assert forall|i: int| at - 1 < i < rest.len() implies line_token(
            #[trigger] rest[i],
        ) is None by {
            assert(rest[i] == headers[i + 1]);
        }
        law_last_header_counts(rest, at - 1);
    }
}

/// Headers of which none carries a token hold none.
pub proof fn law_no_token_header(headers: Seq<Seq<char>>)
    requires
        forall|i: int| 0 <= i < headers.len() ==> line_token(#[trigger] headers[i]) is None,
    ensures
        header_token(headers) is None,
    decreases headers.len(),
{
    if headers.len() != 0 {
        let rest = headers.drop_first();
        assert(line_token(headers[0]) is None);
        assert forall|i: int| 0 <= i < rest.len() implies line_token(#[trigger] rest[i]) is None by {
            assert(rest[i] == headers[i + 1]);
        }
        law_no_token_header(rest);
    }
}

/// The token in the headers comes before the one in the query, which counts only
/// where the headers hold none.
pub proof fn law_header_before_query(r: RequestView)
    ensures
        r.header_token is Some ==> provided(r) == r.header_token,
        r.header_token is None ==> provided(r) == query::param(r.query, "token"@),
{
}

/// A line carries a token if and only if it starts with the name of the token
/// header and a colon, in capitals or not: no other header does. The token is
/// what follows, trimmed.
pub proof fn law_line_token(line: Seq<char>)
    ensures
        line_token(line) is Some <==> text::starts_lowered(line, "x-ksu-token:"@),
        line_token(line) matches Some(token) ==> token == text::trimmed(line.skip(12)),
{
    reveal_strlit("x-ksu-token:");
}

/// One more header carries the token from then on if it carries one, and changes
/// nothing if it does not; behind an empty line nothing is a header any more.
pub proof fn law_next_header(headers: Seq<Seq<char>>, line: Seq<char>, more: Seq<Seq<char>>)
    requires
        forall|i: int| 0 <= i < headers.len() ==> (#[trigger] headers[i]).len() != 0,
    ensures
        header_token(seq![]) is None,
        line.len() != 0 ==> header_token(headers.push(line)) == match line_token(line) {
            Some(token) => Some(token),
            None => header_token(headers),
        },
        line.len() == 0 ==> header_token(headers + seq![line] + more) == header_token(headers),
    decreases headers.len(),
{
    if line.len() == 0 {
        assert(line == Seq::<char>::empty());
        lemma_headers_end(headers, more);
    } else if headers.len() == 0 {
        assert(headers.push(line).drop_first() == Seq::<Seq<char>>::empty());
        assert(header_token(headers.push(line).drop_first()) is None);
        assert(headers.push(line)[0] == line);
    } else {
        let rest = headers.drop_first();
        assert(headers[0].len() != 0);
        assert forall|i: int| 0 <= i < rest.len() implies (#[trigger] rest[i]).len() != 0 by {
            assert(rest[i] == headers[i + 1]);
        }
        law_next_header(rest, line, more);
        assert(headers.push(line).drop_first() == rest.push(line));
    }
}

/// What is read of any text: the method is the first word of the first line, the
/// path and the query are the second word up to and from its first `?`, and the
/// token is that of the lines behind the first. A text without lines has none of
/// them.
pub proof fn law_request_of(s: Seq<char>)
    ensures
        ({
            let r = request_of(s);
            let lines = text::lines(s);
            let line = if lines.len() == 0 {
                seq![]
            } else {
                lines[0]
            };
            let second = text::first_word(text::after_word(line));
            &&& r.method == text::first_word(line)
            &&& forall|i: int| 0 <= i < r.path.len() ==> #[trigger] r.path[i] != '?'
            &&& second == r.path + seq!['?'] + r.query || (second == r.path && r.query.len() == 0)
            &&& lines.len() == 0 ==> r.header_token is None
            &&& lines.len() != 0 ==> r.header_token == header_token(lines.skip(1))
        }),
{
    let lines = text::lines(s);
    let line = if lines.len() == 0 {
        seq![]
    } else {
        lines[0]
    };
    let second = text::first_word(text::after_word(line));
    assert(lines.len() != 0 ==> lines.skip(1) == lines.drop_first());
    match text::parted(second, '?') {
        Some((path, query)) => {
            text::law_parted(second, '?', path, query);
        },
        None => {
            text::law_parted(second, '?', seq![], seq![]);
        },
    }
}

/// Bytes that are UTF-8 are read as the text that they encode, and others as
/// what the lossy decoding makes of them.
pub proof fn law_text_of(bytes: Seq<u8>)
    ensures
        vstd::utf8::valid_utf8(bytes) ==> text_of(bytes) == vstd::utf8::decode_utf8(bytes),
        !vstd::utf8::valid_utf8(bytes) ==> text_of(bytes) == lossy_text(bytes),
{
}

/// The model of a request holds its parts.
pub proof fn law_request_model(r: Request)
    ensures
        r@.method == r.method@,
        r@.path == r.path@,
        r@.query == r.query@,
        match r.header_token {
            Some(token) => r@.header_token == Some(token@),
            None => r@.header_token is None,
        },
{
}

} // verus!
