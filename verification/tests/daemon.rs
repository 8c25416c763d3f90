use std::collections::HashSet;

use cosmic_wmctl::daemon::{Daemon, Event, Next, Note};
use cosmic_wmctl::rules::Rule;
use cosmic_wmctl::watcher::{FileStamp, Watcher};
use cosmic_wmctl::wayland::{
    Compositor, MoveOrder, OutputInfo, Session, ToplevelInfo, WorkspaceGroup, WorkspaceInfo,
};

fn toplevel(app_id: &str, id: u32) -> ToplevelInfo {
    ToplevelInfo {
        title: format!("T{id}"),
        app_id: app_id.to_owned(),
        identifier: String::new(),
        outputs: vec![],
        workspaces: HashSet::new(),
        cosmic_toplevel: Some(100 + id as u64),
        foreign_id: id,
        active: false,
    }
}

fn session() -> Session {
    Session::connect(Compositor {
        workspaces: vec![WorkspaceInfo {
            handle: 1,
            name: "one".to_owned(),
            id: None,
            coordinates: vec![0],
        }],
        groups: vec![WorkspaceGroup { workspaces: [1].into_iter().collect(), outputs: vec![2] }],
        outputs: vec![OutputInfo { handle: 2, name: Some("DP-1".to_owned()) }],
        toplevels: vec![toplevel("old", 1)],
        seats: vec![],
        globals: vec![],
        manager_capabilities: vec![],
        workspace_done: true,
        manager_capabilities_ready: true,
    })
}

fn rules(workspace: &str) -> Vec<Rule> {
    vec![Rule::new("*", None, workspace).unwrap()]
}

fn stamp(n: i128) -> Option<FileStamp> {
    Some(FileStamp { modified: n, len: 10 })
}

fn daemon(workspace: &str, dry_run: bool) -> Daemon {
    Daemon::start(session(), rules(workspace), stamp(1), "/r.toml".to_owned(), dry_run, false, 0)
}

fn report(line: &str) -> Note {
    Note::Report(line.to_owned())
}

fn complaint(line: &str) -> Note {
    Note::Complaint(line.to_owned())
}

#[test]
fn daemon_moves_each_new_window_once() {
    let mut d = daemon("one", false);
    assert_eq!(d.asks(), Next::Wait);
    d.session.compositor.toplevels.push(toplevel("a", 2));
    d.session.compositor.toplevels.push(toplevel("b", 3));
    assert_eq!(d.advance(Event::Dispatched { stamp: stamp(1) }), []);
    assert_eq!(d.asks(), Next::Pass);
    assert_eq!(d.advance(Event::Pass { now: 5 }), []);
    let order = |id: u64| MoveOrder { toplevel: 100 + id, workspace: 1, output: 2 };
    assert_eq!(d.asks(), Next::Send(Some(order(2))));
    let notes = d.advance(Event::Sent(Ok(())));
    assert_eq!(notes, [report("moved 'T2' (a) to workspace 'one' on output 'DP-1'")]);
    assert_eq!(d.asks(), Next::Send(Some(order(3))));
    let notes = d.advance(Event::Sent(Ok(())));
    assert_eq!(notes, [report("moved 'T3' (b) to workspace 'one' on output 'DP-1'")]);
    assert_eq!(d.asks(), Next::Wait);
    for now in [6, 7] {
        d.advance(Event::Dispatched { stamp: stamp(1) });
        assert_eq!(d.advance(Event::Pass { now }), []);
        assert_eq!(d.asks(), Next::Wait);
    }
}

#[test]
fn dry_runs_are_told_and_send_nothing() {
    let mut d = daemon("one", true);
    d.session.compositor.toplevels.push(toplevel("a", 2));
    d.advance(Event::Dispatched { stamp: None });
    d.advance(Event::Pass { now: 5 });
    assert_eq!(d.asks(), Next::Send(None));
    let notes = d.advance(Event::Sent(Ok(())));
    assert_eq!(notes, [report("would move 'T2' (a) to workspace 'one' on output 'DP-1'")]);
    assert_eq!(d.asks(), Next::Wait);
}

#[test]
fn failures_are_told_and_survived() {
    let mut d = daemon("nowhere", false);
    d.session.compositor.toplevels.push(toplevel("a", 2));
    d.advance(Event::Dispatched { stamp: stamp(1) });
    let notes = d.advance(Event::Pass { now: 5 });
    assert_eq!(notes, [complaint("cosmic-wmctl: no workspace matched 'nowhere'")]);
    assert_eq!(d.asks(), Next::Wait);
    let mut d = daemon("one", false);
    d.session.compositor.toplevels.push(toplevel("a", 2));
    d.advance(Event::Dispatched { stamp: stamp(1) });
    d.advance(Event::Pass { now: 5 });
    let notes = d.advance(Event::Sent(Err("broken pipe".to_owned())));
    assert_eq!(notes, [complaint("cosmic-wmctl: broken pipe")]);
    assert_eq!(d.asks(), Next::Wait);
    // What could not be sent is tried again.
    d.advance(Event::Dispatched { stamp: stamp(1) });
    d.advance(Event::Pass { now: 6 });
    assert!(matches!(d.asks(), Next::Send(Some(_))));
}

#[test]
fn changed_rules_are_loaded_and_applied_at_once() {
    let mut d = daemon("nowhere", false);
    assert_eq!(d.advance(Event::Dispatched { stamp: stamp(2) }), []);
    assert_eq!(d.asks(), Next::Load);
    let notes = d.advance(Event::Loaded(Ok(rules("one"))));
    assert_eq!(notes, [complaint("cosmic-wmctl: reloaded 1 rule(s) from /r.toml")]);
    // The rules are applied at once, and then as after every event.
    assert_eq!(d.asks(), Next::Pass);
    d.advance(Event::Pass { now: 5 });
    assert_eq!(d.asks(), Next::Pass);
    d.advance(Event::Pass { now: 6 });
    assert_eq!(d.asks(), Next::Wait);
    assert_eq!(d.watcher.rules[0].workspace, "one");
    // The file is not loaded again until it changes again.
    d.advance(Event::Dispatched { stamp: stamp(2) });
    assert_eq!(d.asks(), Next::Pass);
}

#[test]
fn rules_that_do_not_load_leave_the_old_ones() {
    let mut d = daemon("one", false);
    d.advance(Event::Dispatched { stamp: stamp(2) });
    let notes = d.advance(Event::Loaded(Err("invalid rules file /r.toml".to_owned())));
    assert_eq!(
        notes,
        [complaint("cosmic-wmctl: failed to reload rules: invalid rules file /r.toml")]
    );
    assert_eq!(d.watcher.rules[0].workspace, "one");
    d.advance(Event::Pass { now: 5 });
    assert_eq!(d.asks(), Next::Wait);
    // Nor is the bad file loaded again.
    d.advance(Event::Dispatched { stamp: stamp(2) });
    assert_eq!(d.asks(), Next::Pass);
}

#[test]
fn answers_to_other_questions_are_passed_over() {
    let mut d = daemon("one", false);
    assert_eq!(d.advance(Event::Sent(Ok(()))), []);
    assert_eq!(d.advance(Event::Pass { now: 1 }), []);
    assert_eq!(d.advance(Event::Loaded(Ok(vec![]))), []);
    assert_eq!(d.asks(), Next::Wait);
    assert_eq!(d.watcher.rules.len(), 1);
}

#[test]
fn vanished_files_are_not_loaded() {
    let mut watcher = Watcher::new(vec![], stamp(1));
    assert!(!watcher.notice(None));
    assert!(!watcher.notice(stamp(1)));
    assert!(watcher.notice(stamp(2)));
    assert!(!watcher.notice(stamp(2)));
    assert!(watcher.notice(Some(FileStamp { modified: 2, len: 11 })));
    let mut watcher = Watcher::new(vec![], None);
    assert!(watcher.notice(stamp(1)));
}
