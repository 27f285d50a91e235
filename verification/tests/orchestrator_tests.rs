use fractal_shell::config::{server_url, window_title, SERVER_PORT, WINDOW_HEIGHT, WINDOW_WIDTH};
use fractal_shell::orchestrator::{step, Action, Event, Phase};

#[test]
fn startup_begins_by_launching_the_server() {
    assert_eq!(step(Phase::Boot, Event::Init), (Phase::ServerStarting, Action::LaunchServer));
}

#[test]
fn window_opens_only_on_the_readiness_signal() {
    assert_eq!(
        step(Phase::ServerStarting, Event::ListenerBound),
        (Phase::ServerReady, Action::OpenWindow),
    );
    assert_eq!(step(Phase::Boot, Event::ListenerBound), (Phase::Boot, Action::Ignore));
    assert_eq!(step(Phase::ServerStarting, Event::SurfaceUp).1, Action::Ignore);
}

#[test]
fn bind_failure_aborts() {
    assert_eq!(
        step(Phase::ServerStarting, Event::BindFailed),
        (Phase::Done, Action::AbortProcess),
    );
}

#[test]
fn surface_failure_aborts() {
    assert_eq!(
        step(Phase::ServerReady, Event::StartupFailed),
        (Phase::Done, Action::AbortProcess),
    );
}

#[test]
fn close_request_exits_the_process() {
    assert_eq!(step(Phase::Running, Event::CloseRequested), (Phase::Done, Action::ExitProcess));
    assert_eq!(step(Phase::Running, Event::OtherEvent), (Phase::Running, Action::KeepRunning));
}

#[test]
fn happy_path_runs_to_the_event_loop() {
    let (p1, a1) = step(Phase::Boot, Event::Init);
    assert_eq!(a1, Action::LaunchServer);
    let (p2, a2) = step(p1, Event::ListenerBound);
    assert_eq!(a2, Action::OpenWindow);
    let (p3, a3) = step(p2, Event::SurfaceUp);
    assert_eq!(a3, Action::KeepRunning);
    assert_eq!(p3, Phase::Running);
}

#[test]
fn fixed_configuration() {
    assert_eq!(SERVER_PORT, 3030);
    assert_eq!(server_url(), "http://127.0.0.1:3030");
    assert_eq!(window_title(), "FRACTAL");
    assert_eq!((WINDOW_WIDTH, WINDOW_HEIGHT), (800, 600));
}
