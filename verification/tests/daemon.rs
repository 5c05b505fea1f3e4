use ksu_webui::daemon::{
    ensure_webuid_running, run_webuid, spawn_webuid, webui_port, RunEvent, RunStep, SpawnEvent,
    SpawnStep, PORT_VARIABLE, WEBUI_PORT_DEFAULT,
};
use ksu_webui::failure::Failure;

fn failed(message: &str) -> Failure {
    Failure::new(message.to_string())
}

fn spawn_error(step: SpawnStep) -> (String, Vec<String>) {
    match step {
        SpawnStep::Done(Err(e)) => (e.message, e.causes),
        other => panic!("{other:?}"),
    }
}

fn run_error(step: RunStep) -> (String, Vec<String>) {
    match step {
        RunStep::Done(Err(e)) => (e.message, e.causes),
        other => panic!("{other:?}"),
    }
}

#[test]
fn the_port_can_be_asked_for() {
    assert_eq!(WEBUI_PORT_DEFAULT, 8389);
    assert_eq!(PORT_VARIABLE, "KSU_WEBUI_PORT");
    assert_eq!(webui_port(None), 8389);
    assert_eq!(webui_port(Some("9000")), 9000);
    assert_eq!(webui_port(Some("+9000")), 9000);
    assert_eq!(webui_port(Some("0")), 0);
    assert_eq!(webui_port(Some("65535")), 65535);
}

#[test]
fn what_is_no_port_gives_the_default() {
    for s in ["", "65536", "-1", " 9000", "9000 ", "http", "9_000"] {
        assert_eq!(webui_port(Some(s)), 8389, "{s:?}");
    }
}

#[test]
fn the_forked_process_runs_the_daemon() {
    let step = spawn_webuid(SpawnStep::CreateDaemon, SpawnEvent::Forked(Ok(true)));
    match &step {
        SpawnStep::Launch { program, argument } => {
            assert_eq!((*program, *argument), ("/proc/self/exe", "webuid"));
        }
        other => panic!("{other:?}"),
    }
    let step = spawn_webuid(step, SpawnEvent::Launched(Ok(())));
    assert!(matches!(step, SpawnStep::Done(Ok(()))));
}

#[test]
fn the_caller_goes_on() {
    let step = ensure_webuid_running(SpawnStep::CreateDaemon, SpawnEvent::Forked(Ok(false)));
    assert!(matches!(step, SpawnStep::Done(Ok(()))));
}

#[test]
fn why_the_daemon_is_not_started_is_said() {
    let step = ensure_webuid_running(
        SpawnStep::CreateDaemon,
        SpawnEvent::Forked(Err(failed("fork failed"))),
    );
    assert_eq!(spawn_error(step), ("fork failed".to_string(), vec![]));
    let step = spawn_webuid(
        SpawnStep::Launch { program: "/proc/self/exe", argument: "webuid" },
        SpawnEvent::Launched(Err(failed("not found"))),
    );
    assert_eq!(
        spawn_error(step),
        ("failed to spawn webuid".to_string(), vec!["not found".to_string()])
    );
}

#[test]
fn the_daemon_listens_on_the_local_host() {
    let step = run_webuid(RunStep::ReadPort, RunEvent::Variable(Some("9001".to_string())));
    assert!(matches!(step, RunStep::LoadToken { port: 9001 }));
    let step = run_webuid(step, RunEvent::Token(Ok(())));
    assert!(matches!(step, RunStep::Bind { host: "127.0.0.1", port: 9001 }));
    let step = run_webuid(step, RunEvent::Bound(Ok(())));
    assert!(matches!(step, RunStep::Accept));
}

#[test]
fn the_daemon_serves_until_no_connection_comes() {
    let step = run_webuid(RunStep::Accept, RunEvent::Accepted(Ok(())));
    assert!(matches!(step, RunStep::Serve));
    let step = run_webuid(step, RunEvent::Serving);
    assert!(matches!(step, RunStep::Accept));
    let step = run_webuid(step, RunEvent::Accepted(Err(failed("reset"))));
    assert!(matches!(step, RunStep::Accept));
    let step = run_webuid(step, RunEvent::Ended);
    assert!(matches!(step, RunStep::Done(Ok(()))));
}

#[test]
fn without_a_token_the_daemon_does_not_listen() {
    let step = run_webuid(
        RunStep::LoadToken { port: 8389 },
        RunEvent::Token(Err(failed("no token"))),
    );
    assert_eq!(run_error(step), ("no token".to_string(), vec![]));
}

#[test]
fn a_port_in_use_is_reported() {
    let step = run_webuid(
        RunStep::Bind { host: "127.0.0.1", port: 8389 },
        RunEvent::Bound(Err(failed("in use"))),
    );
    assert_eq!(
        run_error(step),
        ("failed to bind 127.0.0.1:8389".to_string(), vec!["in use".to_string()])
    );
}
