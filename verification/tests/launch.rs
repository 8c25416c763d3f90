use std::collections::HashSet;

use cosmic_wmctl::error::{Problem, WmError};
use cosmic_wmctl::launch::{
    Launch, LaunchConfig, LaunchEvent, LaunchNext, LaunchResult, LaunchStep, Started, Turn,
};
use cosmic_wmctl::wayland::{
    Compositor, OutputInfo, Session, ToplevelInfo, WorkspaceGroup, WorkspaceInfo,
};

const SECOND: u128 = 1_000_000_000;

fn toplevel(app_id: &str, title: &str, id: u32) -> ToplevelInfo {
    ToplevelInfo {
        title: title.to_owned(),
        app_id: app_id.to_owned(),
        identifier: String::new(),
        outputs: vec![],
        workspaces: HashSet::new(),
        cosmic_toplevel: Some(100 + id as u64),
        foreign_id: id,
        active: false,
    }
}

fn session() -> Session {
    Session::connect(Compositor {
        workspaces: vec![WorkspaceInfo {
            handle: 1,
            name: "one".to_owned(),
            id: None,
            coordinates: vec![0],
        }],
        groups: vec![WorkspaceGroup { workspaces: [1].into_iter().collect(), outputs: vec![2] }],
        outputs: vec![OutputInfo { handle: 2, name: Some("DP-1".to_owned()) }],
        toplevels: vec![toplevel("old", "Old", 1)],
        seats: vec![],
        globals: vec![],
        manager_capabilities: vec![],
        workspace_done: true,
        manager_capabilities_ready: true,
    })
}

fn config(workspace: Option<&str>, app_id: Option<&str>, title: Option<&str>) -> LaunchConfig {
    LaunchConfig {
        workspace_selector: workspace.map(str::to_owned),
        app_id: app_id.map(str::to_owned),
        title: title.map(str::to_owned),
        timeout: 3 * SECOND,
        dry_run: false,
        wait: false,
    }
}

fn words(list: &[&str]) -> Vec<String> {
    list.iter().map(|s| s.to_string()).collect()
}

fn launch(cfg: LaunchConfig) -> Launch {
    session().launch(cfg, &words(&["sleep", "1"])).expect("valid launch")
}

#[test]
fn command_line_is_joined_for_the_shell() {
    let plan = launch(config(None, None, None));
    assert_eq!(plan.command, "sleep 1");
    assert!(plan.rule.is_none());
    let empty = session().launch(config(None, None, None), &vec![]).unwrap();
    assert_eq!(empty.command, "");
}

#[test]
fn filters_make_a_rule() {
    let plan = launch(config(Some("one"), Some("fire*"), Some("*x*")));
    let rule = plan.rule.expect("filter");
    assert_eq!((rule.app_id.as_str(), rule.title.as_deref()), ("fire*", Some("*x*")));
    assert_eq!(rule.workspace, "one");
    let error = session().launch(config(None, None, Some("x")), &vec![]).unwrap_err();
    assert_eq!(error.message(), "--title requires --app-id");
    let error = session().launch(config(None, Some("["), None), &vec![]).unwrap_err();
    assert_eq!(error.message(), "invalid app_id glob pattern '['");
}

#[test]
fn runs_have_no_filter_and_half_a_minute() {
    let plan = session().run(Some("one"), &words(&["ls"]), true).expect("a run is always decided on");
    assert_eq!(plan.config.timeout, 30 * SECOND);
    assert_eq!(plan.config.workspace_selector.as_deref(), Some("one"));
    assert!(plan.config.wait && !plan.config.dry_run);
    assert!(plan.rule.is_none());
}

#[test]
fn windows_that_were_open_are_no_candidates() {
    let mut session = session();
    let plan = launch(config(Some("one"), None, None));
    let open = session.open_windows();
    assert_eq!(open, [1].into_iter().collect());
    assert!(matches!(session.poll_launch(&plan, &open, 0), LaunchStep::Waiting));
    session.compositor.toplevels.push(toplevel("new", "New", 3));
    session.compositor.toplevels.push(toplevel("new", "Newer", 4));
    // A window that is there counts, also when the time is over.
    let LaunchStep::Found(window) = session.poll_launch(&plan, &open, 9 * SECOND) else {
        panic!("the window is there");
    };
    assert_eq!(window.foreign_id, 3);
}

#[test]
fn first_new_window_counts_without_an_app_id() {
    let mut session = session();
    let open = session.open_windows();
    session.compositor.toplevels.push(toplevel("", "Splash", 2));
    session.compositor.toplevels.push(toplevel("new", "New", 3));
    let plan = launch(config(Some("one"), None, None));
    assert!(matches!(session.poll_launch(&plan, &open, 0), LaunchStep::Found(w) if w.foreign_id == 2));
    // The app_id counts where a filter asks for one.
    let plan = launch(config(Some("one"), Some("n*"), None));
    assert!(matches!(session.poll_launch(&plan, &open, 0), LaunchStep::Found(w) if w.foreign_id == 3));
}

#[test]
fn filtered_launches_wait_for_their_window() {
    let mut session = session();
    let plan = launch(config(Some("one"), Some("fire*"), Some("Main*")));
    let open = session.open_windows();
    session.compositor.toplevels.push(toplevel("other", "Main", 2));
    session.compositor.toplevels.push(toplevel("firefox", "Splash", 3));
    assert!(matches!(session.poll_launch(&plan, &open, 0), LaunchStep::Waiting));
    session.compositor.toplevels.push(toplevel("firefox", "Main window", 4));
    assert!(matches!(session.poll_launch(&plan, &open, 0), LaunchStep::Found(w) if w.foreign_id == 4));
}

#[test]
fn launches_time_out() {
    let session = session();
    let plan = launch(config(Some("one"), None, None));
    let open = session.open_windows();
    assert!(matches!(session.poll_launch(&plan, &open, 3 * SECOND - 1), LaunchStep::Waiting));
    let LaunchStep::Failed(error) = session.poll_launch(&plan, &open, 3 * SECOND) else {
        panic!("the time is over");
    };
    assert_eq!(
        error.message(),
        "no matching window appeared within 3s for 'sleep 1'; the app may not have opened a window"
    );
    let mut endless = config(Some("one"), None, None);
    endless.timeout = u128::MAX;
    let plan = launch(endless);
    let LaunchStep::Failed(error) = session.poll_launch(&plan, &open, u128::MAX) else {
        panic!("the time is over");
    };
    assert!(error.message().contains("within 18446744073709551615s"));
}

/// The launch that goes on.
fn going(turn: Turn) -> Started {
    match turn {
        Turn::Going(started) => started,
        Turn::Over(outcome) => panic!("over too early: {outcome:?}"),
    }
}

/// What the launch came to.
fn over(turn: Turn) -> Result<LaunchResult, WmError> {
    match turn {
        Turn::Over(outcome) => outcome,
        Turn::Going(started) => panic!("not over: {started:?}"),
    }
}

#[test]
fn launch_without_workspace_places_nothing() {
    let session = session();
    let mut cfg = config(None, None, None);
    cfg.wait = true;
    let started = going(Started::begin(launch(cfg), 77, &session));
    assert_eq!(started.asks(), LaunchNext::AwaitExit);
    // What was not asked for is passed over.
    let started = going(started.advance(&session, LaunchEvent::Sent));
    let started = going(started.advance(&session, LaunchEvent::Looked { elapsed: 0 }));
    assert_eq!(started.asks(), LaunchNext::AwaitExit);
    let result = over(started.advance(&session, LaunchEvent::Exited)).unwrap();
    assert_eq!((result.command.as_str(), result.pid, result.exited), ("sleep 1", Some(77), true));
    assert!(result.move_result.is_none());
    let result = over(Started::begin(launch(config(None, None, None)), 78, &session)).unwrap();
    let run = result.into_run();
    assert_eq!((run.pid, run.exited, run.moved.is_none()), (Some(78), false, true));
}

#[test]
fn launched_window_is_moved() {
    let mut session = session();
    let started = going(Started::begin(launch(config(Some("one"), None, None)), 5, &session));
    assert_eq!(started.asks(), LaunchNext::Look);
    let started = going(started.advance(&session, LaunchEvent::Looked { elapsed: 0 }));
    assert_eq!(started.asks(), LaunchNext::LookAgain);
    session.compositor.toplevels.push(toplevel("new", "New", 3));
    let started = going(started.advance(&session, LaunchEvent::Looked { elapsed: SECOND }));
    let LaunchNext::Send(Some(order)) = started.asks() else {
        panic!("the window is there");
    };
    assert_eq!((order.toplevel, order.workspace, order.output), (103, 1, 2));
    let started = going(started.advance(&session, LaunchEvent::Exited));
    let result = over(started.advance(&session, LaunchEvent::Sent)).unwrap();
    let moved = result.move_result.expect("placed");
    assert_eq!((moved.window_title.as_str(), moved.output_name.as_str()), ("New", "DP-1"));
    assert!(!result.exited);
}

#[test]
fn exit_is_awaited_behind_the_move() {
    let mut session = session();
    let mut cfg = config(Some("one"), None, None);
    cfg.wait = true;
    let started = going(Started::begin(launch(cfg), 5, &session));
    // An exit before the window has been placed does not end the launch.
    let started = going(started.advance(&session, LaunchEvent::Exited));
    session.compositor.toplevels.push(toplevel("new", "New", 3));
    let started = going(started.advance(&session, LaunchEvent::Looked { elapsed: 0 }));
    let started = going(started.advance(&session, LaunchEvent::Sent));
    assert_eq!(started.asks(), LaunchNext::AwaitExit);
    let result = over(started.advance(&session, LaunchEvent::Exited)).unwrap();
    assert!(result.exited);
    assert_eq!(result.move_result.expect("placed").window_title, "New");
}

#[test]
fn failed_launches_are_told() {
    let mut session = session();
    let started = going(Started::begin(launch(config(Some("two"), None, None)), 5, &session));
    session.compositor.toplevels.push(toplevel("new", "New", 3));
    let error = over(started.advance(&session, LaunchEvent::Looked { elapsed: 0 })).unwrap_err();
    assert_eq!(error.message(), "no workspace matched 'two'");
    let started = going(Started::begin(launch(config(Some("one"), None, None)), 5, &session));
    let late = LaunchEvent::Looked { elapsed: 3 * SECOND };
    assert!(matches!(over(started.advance(&session, late)), Err(Problem::LaunchTimeout { .. })));
    let mut dry = config(Some("one"), None, None);
    dry.dry_run = true;
    let started = going(Started::begin(launch(dry), 5, &session));
    session.compositor.toplevels.push(toplevel("newer", "Newer", 4));
    let started = going(started.advance(&session, LaunchEvent::Looked { elapsed: 0 }));
    assert_eq!(started.asks(), LaunchNext::Send(None));
    let result = over(started.advance(&session, LaunchEvent::Sent)).unwrap();
    assert_eq!(result.move_result.expect("decided on").window_title, "Newer");
}
