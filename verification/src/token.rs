//! The access token: comparing it, and loading or making it.

use crate::failure;
use crate::failure::Failure;
use crate::number;
use crate::text;
use vstd::prelude::*;

verus! {

/// The name of the file that holds the token.
pub const TOKEN_FILE_NAME: &'static str = "webui_token";

/// The permissions of the file that holds the token: only its owner reads and
/// writes it.
pub const TOKEN_FILE_MODE: u32 = 0o600;

/// The file that random bytes are read from.
pub const RANDOM_FILE: &'static str = "/dev/urandom";

/// The number of random bytes that a token is made of.
pub const TOKEN_BYTES: usize = 16;

/// Whether two byte strings are equal. Every byte of strings of one length is
/// looked at, whatever the others hold.
pub fn constant_time_eq(a: &[u8], b: &[u8]) -> (r: bool)
    ensures
        r == (a@ == b@),
{
    if a.len() != b.len() {
        return false;
    }
    let mut diff: u8 = 0;
    for i in 0..a.len()
        invariant
            a@.len() == b@.len(),
            diff == 0 <==> (forall|j: int| 0 <= j < i ==> #[trigger] a@[j] == b@[j]),
    {
        let x = a[i];
        let y = b[i];
        proof {
            assert((diff | (x ^ y)) == 0 <==> diff == 0 && x == y) by (bit_vector);
            if diff == 0 && x == y {
                assert forall|j: int| 0 <= j < i + 1 implies #[trigger] a@[j] == b@[j] by {}
            } else if diff == 0 {
                assert(a@[i as int] != b@[i as int]);
            }
        }
        diff = diff | (x ^ y);
    }
    proof {
        if diff == 0 {
            assert(a@ == b@);
        }
    }
    diff == 0
}

/// Whether two texts are equal, compared by their bytes in constant time.
pub fn same_token(a: &str, b: &str) -> (r: bool)
    ensures
        r == (a@ == b@),
{
    proof {
        vstd::utf8::encode_utf8_decode_utf8(a@);
        vstd::utf8::encode_utf8_decode_utf8(b@);
    }
    constant_time_eq(a.as_bytes(), b.as_bytes())
}

/// A file name appended to a directory, with a slash between them unless the
/// directory is empty or ends in one.
pub open spec fn file_in(dir: Seq<char>, name: Seq<char>) -> Seq<char> {
    if dir.len() == 0 || dir.last() == '/' {
        dir + name
    } else {
        dir + seq!['/'] + name
    }
}

/// The path of the file that holds the token, in the working directory.
pub fn token_path(working_dir: &str) -> (r: String)
    ensures
        r@ == file_in(working_dir@, TOKEN_FILE_NAME@),
{
    let dir = text::chars_of(working_dir);
    let mut path = text::string_of(dir.as_slice());
    if dir.len() != 0 && dir[dir.len() - 1] != '/' {
        path.push('/');
    }
    path.append(TOKEN_FILE_NAME);
    path
}

/// The token in what the token file holds: what is left of it when it is
/// trimmed, if anything is.
pub open spec fn stored(contents: Option<Seq<char>>) -> Option<Seq<char>> {
    match contents {
        Some(s) => if text::trimmed(s).len() != 0 {
            Some(text::trimmed(s))
        } else {
            None
        },
        None => None,
    }
}

/// The token in what the token file holds; `None` stands for a file that could
/// not be read.
pub fn stored_token(contents: Option<&str>) -> (r: Option<String>)
    ensures
        r.deep_view() == stored(contents.deep_view()),
{
    match contents {
        Some(s) => {
            let chars = text::chars_of(s);
            let t = text::trim(chars.as_slice());
            if t.len() != 0 {
                Some(text::string_of(t))
            } else {
                None
            }
        },
        None => None,
    }
}

/// The first bytes of `random`, with zeros for those that are missing.
pub open spec fn seed(random: Seq<u8>) -> Seq<u8> {
    Seq::new(
        TOKEN_BYTES as nat,
        |i: int|
            if i < random.len() {
                random[i]
            } else {
                0
            },
    )
}

/// The token made of random bytes: its seed in hexadecimal.
pub fn new_token(random: &[u8]) -> (r: String)
    ensures
        r@ == number::hex(seed(random@)),
{
    let mut raw: Vec<u8> = Vec::new();
    for i in 0..TOKEN_BYTES
        invariant
            raw@ == seed(random@).take(i as int),
    {
        raw.push(if i < random.len() {
            random[i]
        } else {
            0
        });
    }
    assert(raw@ == seed(random@));
    number::to_hex(raw.as_slice())
}

/// What loading the token needs next.
#[derive(Debug)]
pub enum TokenStep {
    /// Read the token file.
    ReadFile,
    /// Read [`TOKEN_BYTES`] bytes from [`RANDOM_FILE`].
    ReadRandom,
    /// Make sure that the working directory exists.
    CreateDirectory { token: String },
    /// Write the token to the token file, which has these permissions by the time
    /// that it holds the token.
    WriteFile { token: String, mode: u32 },
    /// Give the token file these permissions.
    Restrict { token: String, mode: u32 },
    /// Nothing: this is the token, or why there is none.
    Done(Result<String, Failure>),
}

/// The outcome of what loading the token needed.
#[derive(Debug)]
pub enum TokenEvent {
    /// What the token file holds, if it could be read as text.
    Contents(Option<String>),
    /// The random bytes, or why there are none.
    Random(Result<Vec<u8>, Failure>),
    /// Whether the working directory exists, or why not.
    Directory(Result<(), Failure>),
    /// Whether the token file is written, or why not.
    Written(Result<(), Failure>),
    /// Whether the permissions are set, or why not.
    Restricted(Result<(), Failure>),
}

/// The model of [`TokenStep`].
pub enum TokenStepView {
    ReadFile,
    ReadRandom,
    CreateDirectory { token: Seq<char> },
    WriteFile { token: Seq<char>, mode: u32 },
    Restrict { token: Seq<char>, mode: u32 },
    Done(Result<Seq<char>, Seq<Seq<char>>>),
}

/// The model of [`TokenEvent`].
pub enum TokenEventView {
    Contents(Option<Seq<char>>),
    Random(Result<Seq<u8>, Seq<Seq<char>>>),
    Directory(Result<(), Seq<Seq<char>>>),
    Written(Result<(), Seq<Seq<char>>>),
    Restricted(Result<(), Seq<Seq<char>>>),
}

impl View for TokenStep {
    type V = TokenStepView;

    open spec fn view(&self) -> TokenStepView {
        match *self {
            TokenStep::ReadFile => TokenStepView::ReadFile,
            TokenStep::ReadRandom => TokenStepView::ReadRandom,
            TokenStep::CreateDirectory { token } => TokenStepView::CreateDirectory {
                token: token@,
            },
            TokenStep::WriteFile { token, mode } => TokenStepView::WriteFile {
                token: token@,
                mode,
            },
            TokenStep::Restrict { token, mode } => TokenStepView::Restrict { token: token@, mode },
            TokenStep::Done(Ok(token)) => TokenStepView::Done(Ok(token@)),
            TokenStep::Done(Err(e)) => TokenStepView::Done(Err(e@)),
        }
    }
}

impl View for TokenEvent {
    type V = TokenEventView;

    open spec fn view(&self) -> TokenEventView {
        match *self {
            TokenEvent::Contents(c) => TokenEventView::Contents(c.deep_view()),
            TokenEvent::Random(Ok(bytes)) => TokenEventView::Random(Ok(bytes@)),
            TokenEvent::Random(Err(e)) => TokenEventView::Random(Err(e@)),
            TokenEvent::Directory(r) => TokenEventView::Directory(failure::outcome(r)),
            TokenEvent::Written(r) => TokenEventView::Written(failure::outcome(r)),
            TokenEvent::Restricted(r) => TokenEventView::Restricted(failure::outcome(r)),
        }
    }
}

/// What loading the token needs after an outcome. A token in the file is taken;
/// otherwise a new one is made of random bytes, and written to the file. It is
/// handed out only if the file has its permissions, so that nobody but the owner
/// reads it.
pub open spec fn token_next(
    path: Seq<char>,
    pending: TokenStepView,
    event: TokenEventView,
) -> TokenStepView {
    match (pending, event) {
        (TokenStepView::ReadFile, TokenEventView::Contents(contents)) => match stored(contents) {
            Some(token) => TokenStepView::Done(Ok(token)),
            None => TokenStepView::ReadRandom,
        },
        (TokenStepView::ReadRandom, TokenEventView::Random(Ok(bytes))) =>
            TokenStepView::CreateDirectory { token: number::hex(seed(bytes)) },
        (TokenStepView::ReadRandom, TokenEventView::Random(Err(e))) => TokenStepView::Done(
            Err(seq!["failed to read /dev/urandom"@] + e),
        ),
        (TokenStepView::CreateDirectory { token }, TokenEventView::Directory(Ok(()))) =>
            TokenStepView::WriteFile { token, mode: TOKEN_FILE_MODE },
        (TokenStepView::CreateDirectory { token }, TokenEventView::Directory(Err(e))) =>
            TokenStepView::Done(Err(e)),
        (TokenStepView::WriteFile { token, mode }, TokenEventView::Written(Ok(()))) =>
            TokenStepView::Restrict { token, mode },
        (TokenStepView::WriteFile { .. }, TokenEventView::Written(Err(e))) =>
            TokenStepView::Done(Err(seq!["failed to write "@ + path] + e)),
        (TokenStepView::Restrict { token, .. }, TokenEventView::Restricted(Ok(()))) =>
            TokenStepView::Done(Ok(token)),
        (TokenStepView::Restrict { .. }, TokenEventView::Restricted(Err(e))) =>
            TokenStepView::Done(Err(seq!["failed to restrict "@ + path] + e)),
        _ => pending,
    }
}

/// What loading the token needs after the outcome of what it needed. Loading
/// starts with [`TokenStep::ReadFile`]; an outcome of something else than what
/// is pending leaves that pending. `path` is the path of the token file.
pub fn load_or_create_token(path: &str, pending: TokenStep, event: TokenEvent) -> (next: TokenStep)
    ensures
        next@ == token_next(path@, pending@, event@),
{
    match (pending, event) {
        (TokenStep::ReadFile, TokenEvent::Contents(contents)) => {
            let found = match &contents {
                Some(s) => stored_token(Some(s.as_str())),
                None => stored_token(None),
            };
            match found {
                Some(token) => TokenStep::Done(Ok(token)),
                None => TokenStep::ReadRandom,
            }
        },
        (TokenStep::ReadRandom, TokenEvent::Random(Ok(bytes))) => TokenStep::CreateDirectory {
            token: new_token(bytes.as_slice()),
        },
        (TokenStep::ReadRandom, TokenEvent::Random(Err(e))) => {
            let mut message = String::new();
            message.append("failed to read /dev/urandom");
            TokenStep::Done(Err(e.causing(message)))
        },
        (TokenStep::CreateDirectory { token }, TokenEvent::Directory(Ok(()))) =>
            TokenStep::WriteFile { token, mode: TOKEN_FILE_MODE },
        (TokenStep::CreateDirectory { token }, TokenEvent::Directory(Err(e))) => TokenStep::Done(
            Err(e),
        ),
        (TokenStep::WriteFile { token, mode }, TokenEvent::Written(Ok(()))) => TokenStep::Restrict {
            token,
            mode,
        },
        (TokenStep::WriteFile { .. }, TokenEvent::Written(Err(e))) => {
            let mut message = String::new();
            message.append("failed to write ");
            message.append(path);
            TokenStep::Done(Err(e.causing(message)))
        },
        (TokenStep::Restrict { token, .. }, TokenEvent::Restricted(Ok(()))) => TokenStep::Done(
            Ok(token),
        ),
        (TokenStep::Restrict { .. }, TokenEvent::Restricted(Err(e))) => {
            let mut message = String::new();
            message.append("failed to restrict ");
            message.append(path);
            TokenStep::Done(Err(e.causing(message)))
        },
        (pending, _) => pending,
    }
}

/// Whether a text can be a token: it is not empty, and neither starts nor ends
/// in whitespace.
pub open spec fn is_token(s: Seq<char>) -> bool {
    s.len() != 0 && !text::is_space(s[0]) && !text::is_space(s.last())
}

/// A new token is 32 small hexadecimal digits.
pub proof fn law_new_token_is_hex(random: Seq<u8>)
    ensures
        number::hex(seed(random)).len() == 32,
        forall|i: int|
            0 <= i < 32 ==> {
                let c = #[trigger] number::hex(seed(random))[i];
                '0' <= c <= '9' || 'a' <= c <= 'f'
            },
        is_token(number::hex(seed(random))),
{
    let bytes = seed(random);
    let t = number::hex(bytes);
    assert forall|i: int| 0 <= i < 32 implies {
        let c = #[trigger] t[i];
        '0' <= c <= '9' || 'a' <= c <= 'f'
    } by {
        let b = bytes[i / 2] as int;
        assert(0 <= b / 16 < 16 && 0 <= b % 16 < 16);
    }
    let first = t[0];
    let last = t[31];
    assert('0' <= first <= '9' || 'a' <= first <= 'f');
    assert('0' <= last <= '9' || 'a' <= last <= 'f');
}

/// Different random bytes make different tokens.
pub proof fn law_new_tokens_differ(a: Seq<u8>, b: Seq<u8>)
    requires
        seed(a) != seed(b),
    ensures
        number::hex(seed(a)) != number::hex(seed(b)),
{
    let x = seed(a);
    let y = seed(b);
    if number::hex(x) == number::hex(y) {
        assert forall|i: int| 0 <= i < x.len() implies x[i] == y[i] by {
            let p = x[i] as int;
            let q = y[i] as int;
            assert(0 <= p / 16 < 16 && 0 <= p % 16 < 16);
            assert(0 <= q / 16 < 16 && 0 <= q % 16 < 16);
            assert(number::hex(x)[2 * i] == number::hex_digit(p / 16));
            assert(number::hex(y)[2 * i] == number::hex_digit(q / 16));
            assert(number::hex(x)[2 * i + 1] == number::hex_digit(p % 16));
            assert(number::hex(y)[2 * i + 1] == number::hex_digit(q % 16));
        }
        assert(x == y);
    }
}

/// A token that is in the file, with any whitespace around it, is the token
/// that is loaded.
pub proof fn law_stored_token_reads_back(before: Seq<char>, token: Seq<char>, after: Seq<char>)
    requires
        is_token(token),
        forall|i: int| 0 <= i < before.len() ==> text::is_space(#[trigger] before[i]),
        forall|i: int| 0 <= i < after.len() ==> text::is_space(#[trigger] after[i]),
    ensures
        stored(Some(before + token + after)) == Some(token),
{
    text::lemma_trimmed_is(before, token, after);
}

/// What is taken for the token of the file can be a token.
proof fn lemma_stored_is_token(contents: Option<Seq<char>>)
    ensures
        stored(contents) matches Some(token) ==> is_token(token),
{
    if let Some(s) = contents {
        text::lemma_trimmed_ends(s);
    }
}

/// Whether the token of a step, if it has one, can be a token.
pub open spec fn holds_token(step: TokenStepView) -> bool {
    match step {
        TokenStepView::CreateDirectory { token } => is_token(token),
        TokenStepView::WriteFile { token, .. } => is_token(token),
        TokenStepView::Restrict { token, .. } => is_token(token),
        TokenStepView::Done(Ok(token)) => is_token(token),
        _ => true,
    }
}

/// What loading the token needs after the outcomes, from its beginning.
pub open spec fn token_after(path: Seq<char>, events: Seq<TokenEventView>) -> TokenStepView
    decreases events.len(),
{
    if events.len() == 0 {
        TokenStepView::ReadFile
    } else {
        token_next(path, token_after(path, events.drop_last()), events.last())
    }
}

/// Loading never writes or hands out an empty token, nor one that would not be
/// read back from the file as it is.
pub proof fn law_loaded_token_is_token(path: Seq<char>, events: Seq<TokenEventView>)
    ensures
        holds_token(token_after(path, events)),
    decreases events.len(),
{
    if events.len() != 0 {
        law_loaded_token_is_token(path, events.drop_last());
        if let TokenEventView::Contents(contents) = events.last() {
            lemma_stored_is_token(contents);
        }
        if let TokenEventView::Random(Ok(bytes)) = events.last() {
            law_new_token_is_hex(bytes);
        }
    }
}

/// Whether the file was read and held the token.
pub open spec fn was_stored(
    path: Seq<char>,
    events: Seq<TokenEventView>,
    token: Seq<char>,
) -> bool {
    exists|i: int|
        0 <= i < events.len() && (#[trigger] events[i] matches TokenEventView::Contents(c)
            && stored(c) == Some(token)) && token_after(path, events.take(i)) is ReadFile
}

/// Whether random bytes were read that the token is made of.
pub open spec fn was_made(path: Seq<char>, events: Seq<TokenEventView>, token: Seq<char>) -> bool {
    exists|i: int|
        0 <= i < events.len() && (#[trigger] events[i] matches TokenEventView::Random(r) && r
            is Ok && number::hex(seed(r->Ok_0)) == token) && token_after(path, events.take(i))
            is ReadRandom
}

/// Whether the token was written to the token file, as one that only its owner
/// reads and writes.
pub open spec fn was_written(
    path: Seq<char>,
    events: Seq<TokenEventView>,
    token: Seq<char>,
) -> bool {
    exists|i: int|
        0 <= i < events.len() && (#[trigger] events[i] matches TokenEventView::Written(r) && r
            is Ok) && token_after(path, events.take(i)) == (TokenStepView::WriteFile {
            token,
            mode: 0o600,
        })
}

/// Whether the token file, when it held the token, got the permissions by which
/// only its owner reads and writes it.
pub open spec fn was_restricted(
    path: Seq<char>,
    events: Seq<TokenEventView>,
    token: Seq<char>,
) -> bool {
    exists|i: int|
        0 <= i < events.len() && (#[trigger] events[i] matches TokenEventView::Restricted(r) && r
            is Ok) && token_after(path, events.take(i)) == (TokenStepView::Restrict {
            token,
            mode: 0o600,
        })
}

/// Where the token of a step comes from, and the permissions that a step gives
/// its file.
pub open spec fn comes_from(
    path: Seq<char>,
    step: TokenStepView,
    events: Seq<TokenEventView>,
) -> bool {
    match step {
        TokenStepView::CreateDirectory { token } => was_made(path, events, token),
        TokenStepView::WriteFile { token, mode } => mode == 0o600 && was_made(path, events, token),
        TokenStepView::Restrict { token, mode } => mode == 0o600 && was_made(path, events, token)
            && was_written(path, events, token),
        TokenStepView::Done(Ok(token)) => was_stored(path, events, token) || (was_made(
            path,
            events,
            token,
        ) && was_written(path, events, token) && was_restricted(path, events, token)),
        _ => true,
    }
}

/// What was the case stays so when more comes.
proof fn lemma_stays(path: Seq<char>, events: Seq<TokenEventView>, token: Seq<char>)
    requires
        events.len() != 0,
    ensures
        was_stored(path, events.drop_last(), token) ==> was_stored(path, events, token),
        was_made(path, events.drop_last(), token) ==> was_made(path, events, token),
        was_written(path, events.drop_last(), token) ==> was_written(path, events, token),
        was_restricted(path, events.drop_last(), token) ==> was_restricted(path, events, token),
{
    let before = events.drop_last();
    assert forall|i: int| 0 <= i < before.len() implies #[trigger] before[i] == events[i]
        && before.take(i) == events.take(i) by {
        assert(before.take(i) == events.take(i));
    }
}

/// A token that is handed out was in the file; or it was made of the random
/// bytes that were read, it was written to the file, and the file was given the
/// mode 0600: only its owner reads and writes it.
pub proof fn law_token_is_on_file(path: Seq<char>, events: Seq<TokenEventView>)
    ensures
        comes_from(path, token_after(path, events), events),
    decreases events.len(),
{
    if events.len() != 0 {
        let before = events.drop_last();
        law_token_is_on_file(path, before);
        assert(events[events.len() - 1] == events.last());
        assert(events.take(events.len() - 1) == before);
        match token_after(path, before) {
            TokenStepView::CreateDirectory { token } => lemma_stays(path, events, token),
            TokenStepView::WriteFile { token, .. } => lemma_stays(path, events, token),
            TokenStepView::Restrict { token, .. } => lemma_stays(path, events, token),
            TokenStepView::Done(Ok(token)) => lemma_stays(path, events, token),
            _ => {},
        }
    }
}

/// A token that is in the file is handed out as it is, and nothing is written.
pub proof fn law_stored_token_is_used(path: Seq<char>, contents: Seq<char>)
    requires
        text::trimmed(contents).len() != 0,
    ensures
        token_after(path, seq![TokenEventView::Contents(Some(contents))]) == TokenStepView::Done(
            Ok(text::trimmed(contents)),
        ),
{
    let events = seq![TokenEventView::Contents(Some(contents))];
    assert(events.drop_last() == Seq::<TokenEventView>::empty());
    assert(token_after(path, events.drop_last()) == TokenStepView::ReadFile);
}

/// Where the file holds no token, loading makes one of the random bytes, writes
/// it, and hands out the one that it wrote if the file got its permissions;
/// loading from the file that was written hands out the same one. Where the file
/// did not get its permissions, no token is handed out.
pub proof fn law_new_token_is_kept(
    path: Seq<char>,
    contents: Option<Seq<char>>,
    random: Seq<u8>,
    restricted: Result<(), Seq<Seq<char>>>,
)
    requires
        stored(contents) is None,
    ensures
        ({
            let token = number::hex(seed(random));
            let s0 = token_next(path, TokenStepView::ReadFile, TokenEventView::Contents(contents));
            let s1 = token_next(path, s0, TokenEventView::Random(Ok(random)));
            let s2 = token_next(path, s1, TokenEventView::Directory(Ok(())));
            let s3 = token_next(path, s2, TokenEventView::Written(Ok(())));
            let s4 = token_next(path, s3, TokenEventView::Restricted(restricted));
            &&& s2 == TokenStepView::WriteFile { token, mode: 0o600 }
            &&& s3 == TokenStepView::Restrict { token, mode: 0o600 }
            &&& restricted is Ok ==> s4 == TokenStepView::Done(Ok(token))
            &&& restricted matches Err(e) ==> s4 == TokenStepView::Done(
                Err(seq!["failed to restrict "@ + path] + e),
            )
            &&& token_next(path, TokenStepView::ReadFile, TokenEventView::Contents(Some(token)))
                == TokenStepView::Done(Ok(token))
        }),
{
    let token = number::hex(seed(random));
    law_new_token_is_hex(random);
    law_stored_token_reads_back(seq![], token, seq![]);
    assert(seq![] + token + seq![] == token);
}

/// The file holds a token if it holds anything but whitespace: then the token is
/// what it holds, trimmed.
pub proof fn law_stored(s: Seq<char>)
    ensures
        stored(None) is None,
        stored(Some(s)) is None <==> (forall|i: int|
            0 <= i < s.len() ==> text::is_space(#[trigger] s[i])),
        stored(Some(s)) matches Some(token) ==> token == text::trimmed(s),
{
    text::law_trimmed(s);
    let t = text::trimmed(s);
    let n = choose|n: int|
        0 <= n <= n + t.len() <= s.len() && t == #[trigger] s.subrange(n, n + t.len()) && (forall|
            i: int,
        |
            0 <= i < n ==> text::is_space(#[trigger] s[i])) && (forall|i: int|
            n + t.len() <= i < s.len() ==> text::is_space(#[trigger] s[i]));
    if t.len() != 0 {
        assert(t[0] == s[n]);
    }
}

/// The token file stands in the working directory under its own name, behind a
/// slash: the path starts with the directory, ends in the name, and has between
/// them the one slash that the directory lacks, if it does.
pub proof fn law_file_in(dir: Seq<char>, name: Seq<char>)
    ensures
        TOKEN_FILE_NAME@ == "webui_token"@,
        file_in(dir, name).take(dir.len() as int) == dir,
        file_in(dir, name).skip(file_in(dir, name).len() - name.len()) == name,
        dir.len() == 0 ==> file_in(dir, name) == name,
        dir.len() != 0 ==> file_in(dir, name)[file_in(dir, name).len() - name.len() - 1] == '/',
        file_in(dir, name).len() == dir.len() + name.len() + (if dir.len() != 0 && dir.last()
            != '/' {
            1int
        } else {
            0
        }),
{
    let path = file_in(dir, name);
    assert(path.take(dir.len() as int) == dir);
    assert(path.skip(path.len() - name.len()) == name);
}

/// A token is made of the first sixteen random bytes, and of zeros for those that
/// are missing: each byte is two of its digits, in order.
pub proof fn law_new_token_spells(random: Seq<u8>, i: int)
    requires
        0 <= i < 16,
    ensures
        ({
            let token = number::hex(seed(random));
            let high = token[2 * i] as int;
            let low = token[2 * i + 1] as int;
            &&& token.len() == 32
            &&& 48 <= high <= 57 || 97 <= high <= 102
            &&& 48 <= low <= 57 || 97 <= low <= 102
            &&& 16 * (if high <= 57 {
                high - 48
            } else {
                high - 87
            }) + (if low <= 57 {
                low - 48
            } else {
                low - 87
            }) == (if i < random.len() {
                random[i] as int
            } else {
                0
            })
        }),
{
    number::law_hex(seed(random), i);
}

/// Each step goes on as soon as its outcome allows: a token on file is handed
/// out; otherwise one is made, the directory is made sure of, and the token is
/// written, restricted to its owner, and handed out unchanged.
pub proof fn law_token_goes_on(
    path: Seq<char>,
    contents: Option<Seq<char>>,
    random: Seq<u8>,
    token: Seq<char>,
    mode: u32,
)
    ensures
        token_next(path, TokenStepView::ReadFile, TokenEventView::Contents(contents)) == (
        match stored(contents) {
            Some(found) => TokenStepView::Done(Ok(found)),
            None => TokenStepView::ReadRandom,
        }),
        token_next(path, TokenStepView::ReadRandom, TokenEventView::Random(Ok(random)))
            == (TokenStepView::CreateDirectory { token: number::hex(seed(random)) }),
        token_next(
            path,
            TokenStepView::CreateDirectory { token },
            TokenEventView::Directory(Ok(())),
        ) == (TokenStepView::WriteFile { token, mode: 0o600 }),
        token_next(
            path,
            TokenStepView::WriteFile { token, mode },
            TokenEventView::Written(Ok(())),
        ) == (TokenStepView::Restrict { token, mode }),
        token_next(
            path,
            TokenStepView::Restrict { token, mode },
            TokenEventView::Restricted(Ok(())),
        ) == TokenStepView::Done(Ok(token)),
{
}

/// Where a step fails, no token is handed out, and the reason is given, with what
/// failed before it unless that says it itself.
pub proof fn law_no_token_on_failure(
    path: Seq<char>,
    token: Seq<char>,
    mode: u32,
    e: Seq<Seq<char>>,
)
    ensures
        token_next(path, TokenStepView::ReadRandom, TokenEventView::Random(Err(e)))
            == TokenStepView::Done(Err(seq!["failed to read /dev/urandom"@] + e)),
        token_next(
            path,
            TokenStepView::CreateDirectory { token },
            TokenEventView::Directory(Err(e)),
        ) == TokenStepView::Done(Err(e)),
        token_next(
            path,
            TokenStepView::WriteFile { token, mode },
            TokenEventView::Written(Err(e)),
        ) == TokenStepView::Done(Err(seq!["failed to write "@ + path] + e)),
        token_next(
            path,
            TokenStepView::Restrict { token, mode },
            TokenEventView::Restricted(Err(e)),
        ) == TokenStepView::Done(Err(seq!["failed to restrict "@ + path] + e)),
        RANDOM_FILE@ == "/dev/urandom"@,
{
}

/// A step waits for its own outcome: any other leaves it pending, and what is
/// done stays done.
pub proof fn law_token_waits(path: Seq<char>, pending: TokenStepView, event: TokenEventView)
    requires
        pending is ReadFile ==> !(event is Contents),
        pending is ReadRandom ==> !(event is Random),
        pending is CreateDirectory ==> !(event is Directory),
        pending is WriteFile ==> !(event is Written),
        pending is Restrict ==> !(event is Restricted),
    ensures
        token_next(path, pending, event) == pending,
{
}

/// The model of a step or an outcome holds its parts.
pub proof fn law_token_model(step: TokenStep, event: TokenEvent)
    ensures
        match step {
            TokenStep::ReadFile => step@ == TokenStepView::ReadFile,
            TokenStep::ReadRandom => step@ == TokenStepView::ReadRandom,
            TokenStep::CreateDirectory { token } => step@ == (TokenStepView::CreateDirectory {
                token: token@,
            }),
            TokenStep::WriteFile { token, mode } => step@ == (TokenStepView::WriteFile {
                token: token@,
                mode,
            }),
            TokenStep::Restrict { token, mode } => step@ == (TokenStepView::Restrict {
                token: token@,
                mode,
            }),
            TokenStep::Done(Ok(token)) => step@ == TokenStepView::Done(Ok(token@)),
            TokenStep::Done(Err(e)) => step@ == TokenStepView::Done(Err(e@)),
        },
        match event {
            TokenEvent::Contents(Some(s)) => event@ == TokenEventView::Contents(Some(s@)),
            TokenEvent::Contents(None) => event@ == TokenEventView::Contents(None),
            TokenEvent::Random(Ok(bytes)) => event@ == TokenEventView::Random(Ok(bytes@)),
            TokenEvent::Random(Err(e)) => event@ == TokenEventView::Random(Err(e@)),
            TokenEvent::Directory(r) => event@ == TokenEventView::Directory(failure::outcome(r)),
            TokenEvent::Written(r) => event@ == TokenEventView::Written(failure::outcome(r)),
            TokenEvent::Restricted(r) => event@ == TokenEventView::Restricted(failure::outcome(r)),
        },
{
}

} // verus!
