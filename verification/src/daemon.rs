//! The daemon: its port, how it is started, and how it serves.

use crate::failure;
use crate::failure::Failure;
use crate::number;
use crate::text;
use vstd::prelude::*;

verus! {

/// The port where no other one is asked for.
pub const WEBUI_PORT_DEFAULT: u16 = 8389;

/// The environment variable that asks for another port.
pub const PORT_VARIABLE: &'static str = "KSU_WEBUI_PORT";

/// The only address that the daemon listens on.
pub const HOST: &'static str = "127.0.0.1";

/// The program that runs the daemon: the running one itself.
pub const DAEMON_PROGRAM: &'static str = "/proc/self/exe";

/// The argument with which that program runs the daemon.
pub const DAEMON_ARGUMENT: &'static str = "webuid";

/// The port that a value of [`PORT_VARIABLE`] asks for: the number that it is,
/// if it is one, and otherwise the default.
pub open spec fn port(variable: Option<Seq<char>>) -> u16 {
    match variable {
        Some(s) => match number::number(s, u16::MAX as nat) {
            Some(n) => n as u16,
            None => WEBUI_PORT_DEFAULT,
        },
        None => WEBUI_PORT_DEFAULT,
    }
}

/// The port of the panel, given the value of [`PORT_VARIABLE`] if it has one.
pub fn webui_port(variable: Option<&str>) -> (r: u16)
    ensures
        r == port(variable.deep_view()),
{
    match variable {
        Some(s) => {
            let chars = text::chars_of(s);
            match number::parse_number(chars.as_slice(), u16::MAX as u64) {
                Some(n) => n as u16,
                None => WEBUI_PORT_DEFAULT,
            }
        },
        None => WEBUI_PORT_DEFAULT,
    }
}

/// What starting the daemon needs next.
#[derive(Debug)]
pub enum SpawnStep {
    /// Fork a process that outlives the caller.
    CreateDaemon,
    /// Run the program with the one argument, its input and outputs connected
    /// to nothing.
    Launch { program: &'static str, argument: &'static str },
    /// Nothing: the daemon is started, or this is why not.
    Done(Result<(), Failure>),
}

/// The outcome of what starting the daemon needed.
#[derive(Debug)]
pub enum SpawnEvent {
    /// Whether this is the forked process, or why there is none.
    Forked(Result<bool, Failure>),
    /// Whether the program runs, or why not.
    Launched(Result<(), Failure>),
}

/// The model of [`SpawnStep`].
pub enum SpawnStepView {
    CreateDaemon,
    Launch { program: Seq<char>, argument: Seq<char> },
    Done(Result<(), Seq<Seq<char>>>),
}

/// The model of [`SpawnEvent`].
pub enum SpawnEventView {
    Forked(Result<bool, Seq<Seq<char>>>),
    Launched(Result<(), Seq<Seq<char>>>),
}

impl View for SpawnStep {
    type V = SpawnStepView;

    open spec fn view(&self) -> SpawnStepView {
        match *self {
            SpawnStep::CreateDaemon => SpawnStepView::CreateDaemon,
            SpawnStep::Launch { program, argument } => SpawnStepView::Launch {
                program: program@,
                argument: argument@,
            },
            SpawnStep::Done(r) => SpawnStepView::Done(failure::outcome(r)),
        }
    }
}

impl View for SpawnEvent {
    type V = SpawnEventView;

    open spec fn view(&self) -> SpawnEventView {
        match *self {
            SpawnEvent::Forked(Ok(child)) => SpawnEventView::Forked(Ok(child)),
            SpawnEvent::Forked(Err(e)) => SpawnEventView::Forked(Err(e@)),
            SpawnEvent::Launched(r) => SpawnEventView::Launched(failure::outcome(r)),
        }
    }
}

/// What starting the daemon needs after an outcome. Only the forked process
/// runs the program.
pub open spec fn spawn_next(pending: SpawnStepView, event: SpawnEventView) -> SpawnStepView {
    match (pending, event) {
        (SpawnStepView::CreateDaemon, SpawnEventView::Forked(Ok(true))) => SpawnStepView::Launch {
            program: DAEMON_PROGRAM@,
            argument: DAEMON_ARGUMENT@,
        },
        (SpawnStepView::CreateDaemon, SpawnEventView::Forked(Ok(false))) => SpawnStepView::Done(
            Ok(()),
        ),
        (SpawnStepView::CreateDaemon, SpawnEventView::Forked(Err(e))) => SpawnStepView::Done(
            Err(e),
        ),
        (SpawnStepView::Launch { .. }, SpawnEventView::Launched(Ok(()))) => SpawnStepView::Done(
            Ok(()),
        ),
        (SpawnStepView::Launch { .. }, SpawnEventView::Launched(Err(e))) => SpawnStepView::Done(
            Err(seq!["failed to spawn webuid"@] + e),
        ),
        _ => pending,
    }
}

/// What starting the daemon needs after the outcome of what it needed. Starting
/// begins with [`SpawnStep::CreateDaemon`]; an outcome of something else than
/// what is pending leaves that pending.
pub fn spawn_webuid(pending: SpawnStep, event: SpawnEvent) -> (next: SpawnStep)
    ensures
        next@ == spawn_next(pending@, event@),
{
    match (pending, event) {
        (SpawnStep::CreateDaemon, SpawnEvent::Forked(Ok(child))) => {
            if child {
                SpawnStep::Launch { program: DAEMON_PROGRAM, argument: DAEMON_ARGUMENT }
            } else {
                SpawnStep::Done(Ok(()))
            }
        },
        (SpawnStep::CreateDaemon, SpawnEvent::Forked(Err(e))) => SpawnStep::Done(Err(e)),
        (SpawnStep::Launch { .. }, SpawnEvent::Launched(Ok(()))) => SpawnStep::Done(Ok(())),
        (SpawnStep::Launch { .. }, SpawnEvent::Launched(Err(e))) => {
            let mut message = String::new();
            message.append("failed to spawn webuid");
            SpawnStep::Done(Err(e.causing(message)))
        },
        (pending, _) => pending,
    }
}

/// What making sure that the daemon runs needs after the outcome of what it
/// needed: the daemon is started.
pub fn ensure_webuid_running(pending: SpawnStep, event: SpawnEvent) -> (next: SpawnStep)
    ensures
        next@ == spawn_next(pending@, event@),
{
    spawn_webuid(pending, event)
}

/// What running the daemon needs next.
#[derive(Debug)]
pub enum RunStep {
    /// Read the environment variable [`PORT_VARIABLE`].
    ReadPort,
    /// Load the token, or make it.
    LoadToken { port: u16 },
    /// Listen on this address.
    Bind { host: &'static str, port: u16 },
    /// Accept the next connection.
    Accept,
    /// Serve the connection that was accepted, beside the others.
    Serve,
    /// Nothing: no more connections come, or this is why there are none.
    Done(Result<(), Failure>),
}

/// The outcome of what running the daemon needed.
#[derive(Debug)]
pub enum RunEvent {
    /// The value of the environment variable, if it has one.
    Variable(Option<String>),
    /// Whether there is a token, or why not.
    Token(Result<(), Failure>),
    /// Whether the daemon listens, or why not.
    Bound(Result<(), Failure>),
    /// Whether a connection came, or why the one that came could not be taken.
    Accepted(Result<(), Failure>),
    /// No connection will come any more.
    Ended,
    /// The connection is being served.
    Serving,
}

/// The model of [`RunStep`].
pub enum RunStepView {
    ReadPort,
    LoadToken { port: u16 },
    Bind { host: Seq<char>, port: u16 },
    Accept,
    Serve,
    Done(Result<(), Seq<Seq<char>>>),
}

/// The model of [`RunEvent`].
pub enum RunEventView {
    Variable(Option<Seq<char>>),
    Token(Result<(), Seq<Seq<char>>>),
    Bound(Result<(), Seq<Seq<char>>>),
    Accepted(Result<(), Seq<Seq<char>>>),
    Ended,
    Serving,
}

impl View for RunStep {
    type V = RunStepView;

    open spec fn view(&self) -> RunStepView {
        match *self {
            RunStep::ReadPort => RunStepView::ReadPort,
            RunStep::LoadToken { port } => RunStepView::LoadToken { port },
            RunStep::Bind { host, port } => RunStepView::Bind { host: host@, port },
            RunStep::Accept => RunStepView::Accept,
            RunStep::Serve => RunStepView::Serve,
            RunStep::Done(r) => RunStepView::Done(failure::outcome(r)),
        }
    }
}

impl View for RunEvent {
    type V = RunEventView;

    open spec fn view(&self) -> RunEventView {
        match *self {
            RunEvent::Variable(v) => RunEventView::Variable(v.deep_view()),
            RunEvent::Token(r) => RunEventView::Token(failure::outcome(r)),
            RunEvent::Bound(r) => RunEventView::Bound(failure::outcome(r)),
            RunEvent::Accepted(r) => RunEventView::Accepted(failure::outcome(r)),
            RunEvent::Ended => RunEventView::Ended,
            RunEvent::Serving => RunEventView::Serving,
        }
    }
}

/// What running the daemon needs after an outcome. There is a token before the
/// daemon listens; a connection that could not be taken does not stop it.
pub open spec fn run_next(pending: RunStepView, event: RunEventView) -> RunStepView {
    match (pending, event) {
        (RunStepView::ReadPort, RunEventView::Variable(v)) => RunStepView::LoadToken {
            port: port(v),
        },
        (RunStepView::LoadToken { port }, RunEventView::Token(Ok(()))) => RunStepView::Bind {
            host: HOST@,
            port,
        },
        (RunStepView::LoadToken { .. }, RunEventView::Token(Err(e))) => RunStepView::Done(Err(e)),
        (RunStepView::Bind { .. }, RunEventView::Bound(Ok(()))) => RunStepView::Accept,
        (RunStepView::Bind { host, port }, RunEventView::Bound(Err(e))) => RunStepView::Done(
            Err(seq!["failed to bind "@ + host + ":"@ + number::decimal(port as nat)] + e),
        ),
        (RunStepView::Accept, RunEventView::Accepted(Ok(()))) => RunStepView::Serve,
        (RunStepView::Accept, RunEventView::Accepted(Err(_))) => RunStepView::Accept,
        (RunStepView::Accept, RunEventView::Ended) => RunStepView::Done(Ok(())),
        (RunStepView::Serve, RunEventView::Serving) => RunStepView::Accept,
        _ => pending,
    }
}

/// What running the daemon needs after the outcome of what it needed. Running
/// begins with [`RunStep::ReadPort`]; an outcome of something else than what is
/// pending leaves that pending.
pub fn run_webuid(pending: RunStep, event: RunEvent) -> (next: RunStep)
    ensures
        next@ == run_next(pending@, event@),
{
    match (pending, event) {
        (RunStep::ReadPort, RunEvent::Variable(v)) => {
            let port = match &v {
                Some(s) => webui_port(Some(s.as_str())),
                None => webui_port(None),
            };
            RunStep::LoadToken { port }
        },
        (RunStep::LoadToken { port }, RunEvent::Token(Ok(()))) => RunStep::Bind {
            host: HOST,
            port,
        },
        (RunStep::LoadToken { .. }, RunEvent::Token(Err(e))) => RunStep::Done(Err(e)),
        (RunStep::Bind { .. }, RunEvent::Bound(Ok(()))) => RunStep::Accept,
        (RunStep::Bind { host, port }, RunEvent::Bound(Err(e))) => {
            let mut message = String::new();
            message.append("failed to bind ");
            message.append(host);
            message.append(":");
            number::push_decimal(&mut message, port as u64);
            RunStep::Done(Err(e.causing(message)))
        },
        (RunStep::Accept, RunEvent::Accepted(Ok(()))) => RunStep::Serve,
        (RunStep::Accept, RunEvent::Accepted(Err(_))) => RunStep::Accept,
        (RunStep::Accept, RunEvent::Ended) => RunStep::Done(Ok(())),
        (RunStep::Serve, RunEvent::Serving) => RunStep::Accept,
        (pending, _) => pending,
    }
}

/// The variable overrides the port if and only if it writes a number that a
/// port can be: then that is the port, and otherwise it is the default.
pub proof fn law_port(variable: Option<Seq<char>>)
    ensures
        variable is None ==> port(variable) == 8389,
        variable matches Some(s) ==> match number::number(s, 65535) {
            Some(n) => port(variable) == n,
            None => port(variable) == 8389,
        },
{
}

/// Every port can be asked for, by its decimal text.
pub proof fn law_port_reads_back(p: u16)
    ensures
        port(Some(number::decimal(p as nat))) == p,
{
    number::law_decimal_reads_back(p as nat, u16::MAX as nat);
}

/// What running the daemon needs after the outcomes, from its beginning.
pub open spec fn run_after(events: Seq<RunEventView>) -> RunStepView
    decreases events.len(),
{
    if events.len() == 0 {
        RunStepView::ReadPort
    } else {
        run_next(run_after(events.drop_last()), events.last())
    }
}

/// Whether the environment variable was read and asked for the port.
pub open spec fn port_was_read(events: Seq<RunEventView>, p: u16) -> bool {
    exists|i: int|
        0 <= i < events.len() && (#[trigger] events[i] matches RunEventView::Variable(v) && p
            == port(v)) && run_after(events.take(i)) is ReadPort
}

/// Whether the token was loaded.
pub open spec fn token_was_loaded(events: Seq<RunEventView>) -> bool {
    exists|i: int|
        0 <= i < events.len() && (#[trigger] events[i] matches RunEventView::Token(r) && r is Ok)
            && run_after(events.take(i)) is LoadToken
}

/// Whether the daemon came to listen.
pub open spec fn was_bound(events: Seq<RunEventView>) -> bool {
    exists|i: int|
        0 <= i < events.len() && (#[trigger] events[i] matches RunEventView::Bound(r) && r is Ok)
            && run_after(events.take(i)) is Bind
}

/// What was the case stays so when more comes.
proof fn lemma_stays(events: Seq<RunEventView>)
    requires
        events.len() != 0,
    ensures
        forall|p: u16| #[trigger]
            port_was_read(events.drop_last(), p) ==> port_was_read(events, p),
        token_was_loaded(events.drop_last()) ==> token_was_loaded(events),
        was_bound(events.drop_last()) ==> was_bound(events),
        events[events.len() - 1] == events.last(),
        events.take(events.len() - 1) == events.drop_last(),
{
    let before = events.drop_last();
    assert(events.take(events.len() - 1) == before);
    assert forall|i: int| 0 <= i < before.len() implies #[trigger] before[i] == events[i]
        && before.take(i) == events.take(i) by {
        assert(before.take(i) == events.take(i));
    }
}

/// The port that is kept is the one that the environment variable asked for.
proof fn lemma_run_port(events: Seq<RunEventView>)
    ensures
        run_after(events) matches RunStepView::LoadToken { port: p } ==> port_was_read(events, p),
        run_after(events) matches RunStepView::Bind { port: p, .. } ==> port_was_read(events, p),
    decreases events.len(),
{
    if events.len() != 0 {
        lemma_run_port(events.drop_last());
        lemma_stays(events);
    }
}

/// The daemon never listens on another address than 127.0.0.1, and on no other
/// port than the one that the environment variable asks for.
pub proof fn law_only_local(events: Seq<RunEventView>)
    ensures
        run_after(events) matches RunStepView::Bind { host, port: p } ==> host == "127.0.0.1"@
            && port_was_read(events, p),
    decreases events.len(),
{
    lemma_run_port(events);
    if events.len() != 0 {
        law_only_local(events.drop_last());
    }
}

/// There is a token before the daemon listens, and the daemon listens before it
/// accepts a connection.
pub proof fn law_token_before_listening(events: Seq<RunEventView>)
    ensures
        run_after(events) is Bind || run_after(events) is Accept || run_after(events) is Serve
            ==> token_was_loaded(events),
        run_after(events) is Accept || run_after(events) is Serve ==> was_bound(events),
    decreases events.len(),
{
    if events.len() != 0 {
        law_token_before_listening(events.drop_last());
        lemma_stays(events);
    }
}

/// Once it accepts connections, the daemon goes on until no more come: neither
/// one that it serves nor one that could not be taken stops it.
pub proof fn law_keeps_serving(pending: RunStepView, event: RunEventView)
    requires
        pending is Accept || pending is Serve,
    ensures
        !(event is Ended) ==> run_next(pending, event) is Accept || run_next(pending, event)
            is Serve,
        event matches RunEventView::Accepted(r) && r is Err ==> run_next(pending, event)
            == pending,
{
}

/// What starting the daemon needs after the outcomes, from its beginning.
pub open spec fn spawn_after(events: Seq<SpawnEventView>) -> SpawnStepView
    decreases events.len(),
{
    if events.len() == 0 {
        SpawnStepView::CreateDaemon
    } else {
        spawn_next(spawn_after(events.drop_last()), events.last())
    }
}

/// Only the forked process runs a program, and that program is the daemon; the
/// caller is told that all is well.
pub proof fn law_only_child_launches(events: Seq<SpawnEventView>)
    ensures
        spawn_after(events) matches SpawnStepView::Launch { program, argument } ==> {
            &&& program == "/proc/self/exe"@
            &&& argument == "webuid"@
            &&& exists|i: int|
                0 <= i < events.len() && #[trigger] events[i] == SpawnEventView::Forked(Ok(true))
        },
        spawn_next(SpawnStepView::CreateDaemon, SpawnEventView::Forked(Ok(false)))
            == SpawnStepView::Done(Ok(())),
    decreases events.len(),
{
    if events.len() != 0 {
        let before = events.drop_last();
        law_only_child_launches(before);
        assert(events[events.len() - 1] == events.last());
        if spawn_after(before) is Launch {
            let i = choose|i: int|
                0 <= i < before.len() && #[trigger] before[i] == SpawnEventView::Forked(Ok(true));
            assert(events[i] == before[i]);
        }
    }
}

/// The daemon gets to serving: with a token it listens on 127.0.0.1 and the port
/// that the environment variable asks for, whatever that is; once it listens it
/// accepts, and what it accepts it serves.
pub proof fn law_daemon_serves(variable: Option<Seq<char>>)
    ensures
        ({
            let begun = seq![RunEventView::Variable(variable), RunEventView::Token(Ok(()))];
            let bound = begun.push(RunEventView::Bound(Ok(())));
            let accepted = bound.push(RunEventView::Accepted(Ok(())));
            &&& run_after(begun) == (RunStepView::Bind {
                host: "127.0.0.1"@,
                port: port(variable),
            })
            &&& run_after(bound) == RunStepView::Accept
            &&& run_after(accepted) == RunStepView::Serve
            &&& run_after(accepted.push(RunEventView::Serving)) == RunStepView::Accept
        }),
{
    let none = Seq::<RunEventView>::empty();
    let read = none.push(RunEventView::Variable(variable));
    let begun = seq![RunEventView::Variable(variable), RunEventView::Token(Ok(()))];
    let bound = begun.push(RunEventView::Bound(Ok(())));
    let accepted = bound.push(RunEventView::Accepted(Ok(())));
    let served = accepted.push(RunEventView::Serving);
    assert(read.drop_last() == none);
    assert(run_after(none) == RunStepView::ReadPort);
    assert(run_after(read) == (RunStepView::LoadToken { port: port(variable) }));
    assert(begun.drop_last() == read);
    assert(bound.drop_last() == begun);
    assert(accepted.drop_last() == bound);
    assert(served.drop_last() == accepted);
}

/// Whatever comes, the daemon ends well only when it was accepting and no more
/// connections come.
pub proof fn law_ends_only_when_ended(events: Seq<RunEventView>)
    ensures
        run_after(events) == RunStepView::Done(Ok(())) ==> exists|i: int|
            0 <= i < events.len() && #[trigger] events[i] is Ended && run_after(events.take(i))
                is Accept,
    decreases events.len(),
{
    if events.len() != 0 {
        let before = events.drop_last();
        law_ends_only_when_ended(before);
        lemma_stays(events);
        assert forall|i: int| 0 <= i < before.len() implies #[trigger] before[i] == events[i]
            && before.take(i) == events.take(i) by {
            assert(before.take(i) == events.take(i));
        }
    }
}

/// Each step goes on as soon as its outcome allows, for every port and every
/// address, and a failure before the daemon accepts ends it with the reason.
pub proof fn law_run_goes_on(
    variable: Option<Seq<char>>,
    host: Seq<char>,
    p: u16,
    e: Seq<Seq<char>>,
)
    ensures
        run_next(RunStepView::ReadPort, RunEventView::Variable(variable))
            == (RunStepView::LoadToken { port: port(variable) }),
        run_next(RunStepView::LoadToken { port: p }, RunEventView::Token(Ok(())))
            == (RunStepView::Bind { host: "127.0.0.1"@, port: p }),
        run_next(RunStepView::LoadToken { port: p }, RunEventView::Token(Err(e)))
            == RunStepView::Done(Err(e)),
        run_next(RunStepView::Bind { host, port: p }, RunEventView::Bound(Ok(())))
            == RunStepView::Accept,
        run_next(RunStepView::Bind { host, port: p }, RunEventView::Bound(Err(e)))
            == RunStepView::Done(
            Err(seq!["failed to bind "@ + host + ":"@ + number::decimal(p as nat)] + e),
        ),
        run_next(RunStepView::Accept, RunEventView::Accepted(Ok(()))) == RunStepView::Serve,
        run_next(RunStepView::Accept, RunEventView::Accepted(Err(e))) == RunStepView::Accept,
        run_next(RunStepView::Accept, RunEventView::Ended) == RunStepView::Done(Ok(())),
        run_next(RunStepView::Serve, RunEventView::Serving) == RunStepView::Accept,
        PORT_VARIABLE@ == "KSU_WEBUI_PORT"@,
{
}

/// A step waits for its own outcome: any other leaves it pending, and what is
/// done stays done.
pub proof fn law_run_waits(pending: RunStepView, event: RunEventView)
    requires
        pending is ReadPort ==> !(event is Variable),
        pending is LoadToken ==> !(event is Token),
        pending is Bind ==> !(event is Bound),
        pending is Accept ==> !(event is Accepted || event is Ended),
        pending is Serve ==> !(event is Serving),
    ensures
        run_next(pending, event) == pending,
{
}

/// The forked process launches the daemon and is done once that runs; the caller
/// is done at once; and a failure ends it with the reason.
pub proof fn law_spawn_goes_on(program: Seq<char>, argument: Seq<char>, e: Seq<Seq<char>>)
    ensures
        spawn_next(SpawnStepView::CreateDaemon, SpawnEventView::Forked(Ok(true)))
            == (SpawnStepView::Launch { program: "/proc/self/exe"@, argument: "webuid"@ }),
        spawn_next(SpawnStepView::CreateDaemon, SpawnEventView::Forked(Ok(false)))
            == SpawnStepView::Done(Ok(())),
        spawn_next(SpawnStepView::CreateDaemon, SpawnEventView::Forked(Err(e)))
            == SpawnStepView::Done(Err(e)),
        spawn_next(
            SpawnStepView::Launch { program, argument },
            SpawnEventView::Launched(Ok(())),
        ) == SpawnStepView::Done(Ok(())),
        spawn_next(
            SpawnStepView::Launch { program, argument },
            SpawnEventView::Launched(Err(e)),
        ) == SpawnStepView::Done(Err(seq!["failed to spawn webuid"@] + e)),
{
}

/// A step waits for its own outcome: any other leaves it pending, and what is
/// done stays done.
pub proof fn law_spawn_waits(pending: SpawnStepView, event: SpawnEventView)
    requires
        pending is CreateDaemon ==> !(event is Forked),
        pending is Launch ==> !(event is Launched),
    ensures
        spawn_next(pending, event) == pending,
{
}

/// The model of a step or an outcome of starting holds its parts.
pub proof fn law_spawn_model(step: SpawnStep, event: SpawnEvent)
    ensures
        match step {
            SpawnStep::CreateDaemon => step@ == SpawnStepView::CreateDaemon,
            SpawnStep::Launch { program, argument } => step@ == (SpawnStepView::Launch {
                program: program@,
                argument: argument@,
            }),
            SpawnStep::Done(r) => step@ == SpawnStepView::Done(failure::outcome(r)),
        },
        match event {
            SpawnEvent::Forked(Ok(child)) => event@ == SpawnEventView::Forked(Ok(child)),
            SpawnEvent::Forked(Err(e)) => event@ == SpawnEventView::Forked(Err(e@)),
            SpawnEvent::Launched(r) => event@ == SpawnEventView::Launched(failure::outcome(r)),
        },
{
}

/// The model of a step or an outcome of running holds its parts.
pub proof fn law_run_model(step: RunStep, event: RunEvent)
    ensures
        match step {
            RunStep::ReadPort => step@ == RunStepView::ReadPort,
            RunStep::LoadToken { port } => step@ == (RunStepView::LoadToken { port }),
            RunStep::Bind { host, port } => step@ == (RunStepView::Bind { host: host@, port }),
            RunStep::Accept => step@ == RunStepView::Accept,
            RunStep::Serve => step@ == RunStepView::Serve,
            RunStep::Done(r) => step@ == RunStepView::Done(failure::outcome(r)),
        },
        match event {
            RunEvent::Variable(Some(s)) => event@ == RunEventView::Variable(Some(s@)),
            RunEvent::Variable(None) => event@ == RunEventView::Variable(None),
            RunEvent::Token(r) => event@ == RunEventView::Token(failure::outcome(r)),
            RunEvent::Bound(r) => event@ == RunEventView::Bound(failure::outcome(r)),
            RunEvent::Accepted(r) => event@ == RunEventView::Accepted(failure::outcome(r)),
            RunEvent::Ended => event@ == RunEventView::Ended,
            RunEvent::Serving => event@ == RunEventView::Serving,
        },
{
}

} // verus!
