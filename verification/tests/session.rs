use std::collections::HashSet;

use cosmic_wmctl::compositor::display_capability;
use cosmic_wmctl::error::Problem;
use cosmic_wmctl::model::{match_window, match_workspace, resolve_workspace_output, workspace_names};
use cosmic_wmctl::model::Coordinates;
use cosmic_wmctl::rules::Rule;
use cosmic_wmctl::wayland::{
    ActivateOrder, Compositor, GlobalRecord, MoveOrder, MoveRequest, OutputInfo, Query, RuleStep, Session,
    ToplevelCapability, ToplevelInfo, WindowRecord, WorkspaceGroup, WorkspaceInfo, WorkspaceRecord,
};

fn set(handles: &[u64]) -> HashSet<u64> {
    handles.iter().copied().collect()
}

fn toplevel(app_id: &str, title: &str, id: u32, outputs: &[u64], workspaces: &[u64]) -> ToplevelInfo {
    ToplevelInfo {
        title: title.to_owned(),
        app_id: app_id.to_owned(),
        identifier: format!("id{id}"),
        outputs: outputs.to_vec(),
        workspaces: set(workspaces),
        cosmic_toplevel: Some(1000 + id as u64),
        foreign_id: id,
        active: false,
    }
}

fn workspace(handle: u64, name: &str, id: Option<&str>, coordinates: &[u32]) -> WorkspaceInfo {
    WorkspaceInfo {
        handle,
        name: name.to_owned(),
        id: id.map(str::to_owned),
        coordinates: coordinates.to_vec(),
    }
}

fn compositor() -> Compositor {
    Compositor {
        workspaces: vec![
            workspace(11, "1", Some("ws-a"), &[0, 0]),
            workspace(12, "2", None, &[1, 0]),
            workspace(13, "lost", None, &[2, 0]),
            workspace(14, "bare", None, &[]),
        ],
        groups: vec![
            WorkspaceGroup { workspaces: set(&[11, 12]), outputs: vec![21, 22, 29] },
            WorkspaceGroup { workspaces: set(&[12, 14]), outputs: vec![] },
        ],
        outputs: vec![
            OutputInfo { handle: 21, name: Some("eDP-1".to_owned()) },
            OutputInfo { handle: 22, name: Some("DP-2".to_owned()) },
            OutputInfo { handle: 29, name: None },
        ],
        toplevels: vec![
            toplevel("firefox", "Main", 1, &[22, 21, 22, 29, 99], &[12, 11, 13]),
            toplevel("code", "Editor", 2, &[], &[]),
        ],
        seats: vec![31, 32],
        globals: vec![],
        manager_capabilities: vec![ToplevelCapability::MoveToExtWorkspace],
        workspace_done: true,
        manager_capabilities_ready: true,
    }
}

fn global(interface: &str) -> GlobalRecord {
    GlobalRecord { interface: interface.to_owned(), version: 1, name: 7 }
}

fn request(window: &str, workspace: &str, output: Option<&str>) -> MoveRequest {
    MoveRequest {
        window_query: Query::parse(window).unwrap(),
        workspace_selector: workspace.to_owned(),
        output_name: output.map(str::to_owned),
        dry_run: false,
        force_ext_move: false,
    }
}

#[test]
fn snapshot_lists_grouped_workspaces_and_all_windows() {
    let snapshot = Session::connect(compositor()).snapshot();
    let names: Vec<&str> = snapshot.workspaces.iter().map(|w| w.name.as_str()).collect();
    // A workspace in no group is left out; the first group that holds one counts.
    assert_eq!(names, ["1", "2", "bare"]);
    assert_eq!(snapshot.workspaces[1].output_handles, [21, 22, 29]);
    assert_eq!(snapshot.workspaces[1].output_names, ["eDP-1", "DP-2"]);
    assert_eq!(snapshot.workspaces[2].output_handles, Vec::<u64>::new());
    assert_eq!(snapshot.workspaces[0].id.as_deref(), Some("ws-a"));
    assert_eq!(snapshot.windows.len(), 2);
    // Names are in order and each once; what has no name is left out.
    assert_eq!(snapshot.windows[0].output_names, ["DP-2", "eDP-1"]);
    assert_eq!(snapshot.windows[0].output_handles, [22, 21, 22, 29, 99]);
    assert_eq!(snapshot.windows[0].workspace_names, ["1", "2"]);
    assert_eq!(snapshot.windows[0].cosmic_toplevel, Some(1001));
    assert_eq!(snapshot.windows[1].workspace_names, Vec::<String>::new());
    assert_eq!(snapshot.windows[1].foreign_id, 2);
}

#[test]
fn workspace_names_are_sorted_and_unique() {
    let records = Session::connect(compositor()).snapshot().workspaces;
    assert_eq!(workspace_names(&set(&[12, 11, 99]), &records), ["1", "2"]);
    assert_eq!(workspace_names(&set(&[]), &records), Vec::<String>::new());
    let mut twice = records;
    twice[1].name = "1".to_owned();
    assert_eq!(workspace_names(&set(&[12, 11]), &twice), ["1"]);
}

#[test]
fn workspaces_answer_to_id_name_and_coordinates() {
    let records = Session::connect(compositor()).snapshot().workspaces;
    assert!(records[0].matches_selector("ws-a"));
    assert!(records[0].matches_selector("1"));
    assert!(records[0].matches_selector(" 0 , 0"));
    assert!(!records[0].matches_selector("0"));
    assert!(!records[0].matches_selector("WS-A"));
    // A dash is not read as empty coordinates.
    assert!(!records[2].matches_selector("-"));
    assert_eq!(records[0].summary(), "1 (id=ws-a, coords=0,0, outputs=eDP-1, DP-2)");
    assert_eq!(records[2].summary(), "bare (id=-, coords=-, outputs=-)");
    assert_eq!(records[1].coordinates_string(), "1,0");
    assert_eq!(records[1].outputs_csv(), "eDP-1, DP-2");
    assert_eq!(records[1].output_by_name("dp-2"), Some(22));
    assert_eq!(records[1].output_by_name("dp-3"), None);
}

#[test]
fn coordinates_are_read_back() {
    for list in [vec![0], vec![1, 0], vec![4294967295, 7, 0]] {
        let shown = Coordinates(list.clone()).to_string();
        assert_eq!(Coordinates::parse(&shown), Some(Coordinates(list)));
    }
    assert_eq!(Coordinates(vec![]).to_string(), "-");
    assert_eq!(Coordinates::parse("-"), None);
    assert_eq!(Coordinates::parse(""), None);
    assert_eq!(Coordinates::parse("1,"), None);
    assert_eq!(Coordinates::parse("4294967296"), None);
    assert_eq!(Coordinates::parse("+1, 2 "), Some(Coordinates(vec![1, 2])));
}

#[test]
fn one_window_alone_is_chosen() {
    let windows = Session::connect(compositor()).snapshot().windows;
    let chosen = |raw: &str| match_window(&windows, &Query::parse(raw).unwrap()).map(|w| w.foreign_id);
    assert_eq!(chosen("title=main").unwrap(), 1);
    assert_eq!(chosen("nothing").unwrap_err().message(), "no window matched app_id=nothing");
    assert_eq!(
        chosen("identifier=id").unwrap_err().message(),
        "window selector identifier=id matched multiple windows: \
         Main (app_id=firefox, identifier=id1) | Editor (app_id=code, identifier=id2)"
    );
}

#[test]
fn focused_window_is_chosen() {
    let mut c = compositor();
    c.toplevels[1].active = true;
    let windows = Session::connect(c).snapshot().windows;
    assert_eq!(windows.iter().map(|w| w.active).collect::<Vec<_>>(), [false, true]);
    let chosen = |raw: &str| match_window(&windows, &Query::parse(raw).unwrap()).map(|w| w.foreign_id);
    assert_eq!(chosen("active=true").unwrap(), 2);
    assert_eq!(chosen("active=false").unwrap(), 1);
    assert_eq!(chosen("title=editor and active=true").unwrap(), 2);
    assert_eq!(
        chosen("title=Main and active=true").unwrap_err().message(),
        "no window matched title=Main and active=true"
    );
}

#[test]
fn one_workspace_alone_is_chosen() {
    let workspaces = Session::connect(compositor()).snapshot().workspaces;
    let chosen = |raw: &str| match_workspace(&workspaces, raw).map(|w| w.handle);
    assert_eq!(chosen("ws-a").unwrap(), 11);
    assert_eq!(chosen("1,0").unwrap(), 12);
    assert_eq!(chosen("lost").unwrap_err().message(), "no workspace matched 'lost'");
    let mut same: Vec<WorkspaceRecord> = workspaces;
    same[1].name = "1".to_owned();
    assert_eq!(
        match_workspace(&same, "1").unwrap_err().message(),
        "workspace selector '1' matched multiple workspaces: \
         1 (id=ws-a, coords=0,0, outputs=eDP-1, DP-2) | 1 (id=-, coords=1,0, outputs=eDP-1, DP-2)"
    );
}

#[test]
fn output_is_the_requested_one_or_the_best() {
    let snapshot = Session::connect(compositor()).snapshot();
    let (firefox, code) = (&snapshot.windows[0], &snapshot.windows[1]);
    let two = &snapshot.workspaces[1];
    assert_eq!(resolve_workspace_output(two, code, Some("DP-2")).unwrap(), 22);
    assert_eq!(
        resolve_workspace_output(two, code, Some("HDMI")).unwrap_err().message(),
        "workspace '2' is not on output 'HDMI'; available outputs: eDP-1, DP-2"
    );
    // The first output of the workspace that shows the window, else the first.
    assert_eq!(resolve_workspace_output(two, firefox, None).unwrap(), 21);
    assert_eq!(resolve_workspace_output(two, code, None).unwrap(), 21);
    let mut moved: WindowRecord = firefox.clone();
    moved.output_handles = vec![29, 22];
    assert_eq!(resolve_workspace_output(two, &moved, None).unwrap(), 22);
    assert_eq!(
        resolve_workspace_output(&snapshot.workspaces[2], code, None).unwrap_err().message(),
        "workspace 'bare' has no associated outputs"
    );
}

#[test]
fn moves_are_planned() {
    let session = Session::connect(compositor());
    let plan = session.move_window(request("firefox", "2", Some("dp-2"))).unwrap();
    assert_eq!(plan.order, Some(MoveOrder { toplevel: 1001, workspace: 12, output: 22 }));
    assert_eq!(plan.result.window_title, "Main");
    assert_eq!(plan.result.window_app_id, "firefox");
    assert_eq!(plan.result.workspace_name, "2");
    assert_eq!(plan.result.output_name, "DP-2");
    let mut dry = request("firefox", "2", Some("dp-2"));
    dry.dry_run = true;
    let plan = session.move_window(dry).unwrap();
    assert_eq!(plan.order, None);
    assert_eq!(plan.result.output_name, "DP-2");
}

#[test]
fn requested_output_is_the_one_of_that_name() {
    let mut c = compositor();
    c.groups[0].outputs = vec![29, 21, 22];
    let session = Session::connect(c);
    for (name, output) in [("eDP-1", 21), ("edp-1", 21), ("DP-2", 22)] {
        let plan = session.move_window(request("firefox", "2", Some(name))).unwrap();
        assert_eq!(plan.order.unwrap().output, output, "{name}");
        assert!(plan.result.output_name.eq_ignore_ascii_case(name));
    }
    for name in ["", "HDMI"] {
        assert_eq!(
            session.move_window(request("firefox", "2", Some(name))).unwrap_err().message(),
            format!("workspace '2' is not on output '{name}'; available outputs: eDP-1, DP-2")
        );
    }
    // Of two outputs of one name the first is taken.
    let mut c = compositor();
    c.outputs[0].name = Some("dp-2".to_owned());
    let plan = Session::connect(c).move_window(request("firefox", "2", Some("DP-2"))).unwrap();
    assert_eq!(plan.order.unwrap().output, 21);
}

#[test]
fn unnamed_outputs_and_missing_handles_are_told() {
    let mut c = compositor();
    c.groups[0].outputs = vec![29];
    let mut session = Session::connect(c);
    let plan = session.move_window(request("firefox", "2", None)).unwrap();
    assert_eq!(plan.result.output_name, "<unknown>");
    session.compositor.toplevels[0].cosmic_toplevel = None;
    assert_eq!(
        session.move_window(request("firefox", "2", None)).unwrap_err().message(),
        "window 'Main' does not support moving (no cosmic toplevel info yet)"
    );
}

#[test]
fn move_support_is_checked() {
    let mut c = compositor();
    c.manager_capabilities = vec![];
    let mut session = Session::connect(c);
    assert_eq!(
        session.move_window(request("firefox", "2", None)).unwrap_err().message(),
        "the compositor does not advertise move_to_ext_workspace support"
    );
    let mut forced = request("firefox", "2", None);
    forced.force_ext_move = true;
    assert!(session.move_window(forced).is_ok());
    session.compositor.manager_capabilities = vec![ToplevelCapability::MoveToWorkspace];
    assert!(session
        .move_window(request("firefox", "2", None))
        .unwrap_err()
        .message()
        .starts_with("this COSMIC session exposes ext workspaces"));
    // With both new managers and without the legacy one, support is assumed.
    session.compositor.globals =
        vec![global("ext_workspace_manager_v1"), global("zcosmic_workspace_manager_v2")];
    assert!(session.compositor.should_assume_ext_move_support());
    assert!(session.move_window(request("firefox", "2", None)).is_ok());
    session.compositor.globals.push(global("zcosmic_workspace_manager_v1"));
    assert!(!session.compositor.should_assume_ext_move_support());
    // Moving a record does not look at the capabilities.
    let window = session.snapshot().windows[0].clone();
    assert!(session.move_window_record(&window, "2", false).is_ok());
}

#[test]
fn activation_needs_a_seat_and_a_handle() {
    let mut session = Session::connect(compositor());
    let activation = session.activate_window(Query::parse("code").unwrap()).unwrap();
    assert_eq!(activation.order, ActivateOrder { toplevel: 1002, seat: 31 });
    assert_eq!(activation.result.title, "Editor");
    assert_eq!(activation.result.app_id, "code");
    let refusal = |session: &Session, raw: &str| {
        session.activate_window(Query::parse(raw).unwrap()).unwrap_err()
    };
    assert!(matches!(refusal(&session, "none"), Problem::NoWindow { .. }));
    assert!(matches!(refusal(&session, "identifier=id"), Problem::AmbiguousWindow { .. }));
    session.compositor.toplevels[1].cosmic_toplevel = None;
    assert_eq!(
        refusal(&session, "code").message(),
        "window 'Editor' does not support activation (no cosmic toplevel info yet)"
    );
    session.compositor.seats.clear();
    assert_eq!(
        refusal(&session, "firefox").message(),
        "the compositor has no seat to activate a window for"
    );
    assert!(matches!(refusal(&session, "firefox"), Problem::NoSeat));
    assert!(matches!(refusal(&session, "code"), Problem::NotActivatable { .. }));
    assert_eq!(session.activate_workspace("1,0").unwrap(), 12);
    assert_eq!(session.activate_workspace("lost").unwrap_err().message(), "no workspace matched 'lost'");
}

#[test]
fn debug_info_shows_globals_and_capabilities() {
    let mut c = compositor();
    c.globals = vec![global("wl_seat")];
    c.manager_capabilities = vec![ToplevelCapability::Sticky, ToplevelCapability::Unknown(42)];
    let debug = Session::connect(c).debug_info();
    assert_eq!(debug.globals[0].interface, "wl_seat");
    assert_eq!(debug.toplevel_manager_capabilities, ["Sticky", "Unknown(42)"]);
    for (capability, name) in [
        (ToplevelCapability::Close, "Close"),
        (ToplevelCapability::Activate, "Activate"),
        (ToplevelCapability::Maximize, "Maximize"),
        (ToplevelCapability::Minimize, "Minimize"),
        (ToplevelCapability::Fullscreen, "Fullscreen"),
        (ToplevelCapability::MoveToWorkspace, "MoveToWorkspace"),
        (ToplevelCapability::MoveToExtWorkspace, "MoveToExtWorkspace"),
    ] {
        assert_eq!(display_capability(capability), name);
        assert_eq!(format!("{capability:?}"), name);
    }
}

#[test]
fn initial_state_is_waited_for_up_to_the_deadline() {
    let mut c = compositor();
    c.workspace_done = false;
    c.manager_capabilities_ready = false;
    let mut session = Session::connect(c);
    assert!(session.wait_for_initial_state(0));
    assert!(session.wait_for_initial_state(4_999_999_999));
    assert!(!session.wait_for_initial_state(5_000_000_000));
    session.compositor.done();
    assert!(session.wait_for_initial_state(0));
    session.compositor.capabilities(vec![ToplevelCapability::Close]);
    assert!(!session.wait_for_initial_state(0));
    session.compositor.toplevels.clear();
    assert!(session.wait_for_initial_state(0));
}

#[test]
fn rules_are_applied_to_open_windows() {
    let session = Session::connect(compositor());
    let rules = vec![Rule::new("fire*", None, "2").unwrap(), Rule::new("*", None, "1").unwrap()];
    let (plans, failure) = session.apply_rules_now(&rules);
    assert!(failure.is_none());
    assert_eq!(plans.len(), 2);
    assert_eq!(plans[0].order.unwrap().workspace, 12);
    assert_eq!(plans[1].order.unwrap().workspace, 11);
    // The first window that cannot be moved ends it.
    let rules = vec![Rule::new("code", None, "nowhere").unwrap(), Rule::new("*", None, "1").unwrap()];
    let (plans, failure) = session.apply_rules_now(&rules);
    assert_eq!(plans.len(), 1);
    assert_eq!(failure.unwrap().message(), "no workspace matched 'nowhere'");
    assert_eq!(session.apply_rules_now(&vec![]).0.len(), 0);
}

#[test]
fn one_selector_moves_a_window_once() {
    let mut c = compositor();
    c.toplevels[1].foreign_id = 1;
    let session = Session::connect(c);
    let to = |s: &str| Some(s.to_owned());
    assert_eq!(session.move_targets(&vec![to("1"), to("1")]).0.len(), 1);
    assert_eq!(session.move_targets(&vec![to("1"), to("2")]).0.len(), 2);
    assert_eq!(session.move_targets(&vec![None, to("2")]).0.len(), 1);
}

#[test]
fn new_windows_are_moved_by_rules() {
    let mut session = Session::connect(compositor());
    session.daemon(false, 0);
    let rules = vec![Rule::new("*", None, "2").unwrap()];
    // What was open at the start stays.
    assert!(matches!(session.apply_rules(&rules, 0, 1, false), RuleStep::Finished));
    session.compositor.toplevels.push(toplevel("new", "New", 3, &[], &[]));
    let RuleStep::Move { index, id, workspace, plan } = session.apply_rules(&rules, 0, 2, false) else {
        panic!("a move is due");
    };
    assert_eq!((index, id, workspace.as_str()), (2, 3, "2"));
    assert_eq!(plan.order, Some(MoveOrder { toplevel: 1003, workspace: 12, output: 21 }));
    // Until the move is taken down it is tried again.
    assert!(matches!(session.apply_rules(&rules, 0, 3, false), RuleStep::Move { .. }));
    session.record_move(id, workspace);
    assert!(matches!(session.apply_rules(&rules, index + 1, 3, false), RuleStep::Finished));
    assert!(matches!(session.apply_rules(&rules, 0, 4, false), RuleStep::Finished));
}

#[test]
fn existing_windows_are_moved_where_asked_for() {
    let mut session = Session::connect(compositor());
    session.daemon(true, 0);
    let rules = vec![Rule::new("code", None, "1").unwrap()];
    let RuleStep::Move { index, .. } = session.apply_rules(&rules, 0, 1, false) else {
        panic!("a move is due");
    };
    assert_eq!(index, 1);
    // They are met at the first pass, however late it comes.
    let mut session = Session::connect(compositor());
    session.daemon(true, 0);
    assert!(matches!(session.apply_rules(&rules, 0, 60_000_000_000, false), RuleStep::Move { .. }));
}

#[test]
fn grace_period_ends_at_the_next_pass() {
    const SECOND: u64 = 1_000_000_000;
    let mut session = Session::connect(compositor());
    let none = vec![Rule::new("nothing", None, "1").unwrap()];
    let all = vec![Rule::new("*", None, "1").unwrap()];
    // Without rules nothing is looked at.
    assert!(matches!(session.apply_rules(&vec![], 0, 0, false), RuleStep::Finished));
    assert!(session.tracker.seen.is_empty());
    assert!(matches!(session.apply_rules(&none, 0, 0, false), RuleStep::Finished));
    assert_eq!(session.tracker.pending.len(), 2);
    assert!(matches!(session.apply_rules(&none, 0, 5 * SECOND - 1, false), RuleStep::Finished));
    assert_eq!(session.tracker.pending.len(), 2);
    assert!(matches!(session.apply_rules(&all, 0, 5 * SECOND - 1, false), RuleStep::Move { .. }));
    assert!(matches!(session.apply_rules(&none, 0, 5 * SECOND, false), RuleStep::Finished));
    assert_eq!(session.tracker.pending.len(), 0);
    assert!(matches!(session.apply_rules(&all, 0, 5 * SECOND, false), RuleStep::Finished));
    // Also where no pass comes in between.
    let mut session = Session::connect(compositor());
    assert!(matches!(session.apply_rules(&none, 0, 0, false), RuleStep::Finished));
    session.compositor.toplevels.push(toplevel("new", "New", 3, &[], &[]));
    let RuleStep::Move { id, .. } = session.apply_rules(&all, 0, 60 * SECOND, false) else {
        panic!("a move is due");
    };
    assert_eq!(id, 3);
    assert_eq!(session.tracker.pending.len(), 1);
}

#[test]
fn failed_moves_are_told() {
    let mut session = Session::connect(compositor());
    let rules = vec![Rule::new("code", None, "nowhere").unwrap()];
    let RuleStep::Failed { index, problem } = session.apply_rules(&rules, 0, 0, true) else {
        panic!("the move must fail");
    };
    assert_eq!(index, 1);
    assert_eq!(problem.message(), "no workspace matched 'nowhere'");
}
