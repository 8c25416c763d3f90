use cosmic_wmctl::cli::{
    self, Action, Cli, Command, DaemonArgs, JsonValue, LaunchArgs, RunArgs, WindowActivateArgs,
    WindowJson, WindowMoveArgs, WindowsArgs, WorkspaceActivateArgs, WorkspaceJson, WorkspacesArgs,
};
use cosmic_wmctl::launch::{LaunchResult, RunResult};
use cosmic_wmctl::wayland::{
    ActivateWindowResult, DebugInfo, GlobalRecord, MoveResult, WindowRecord, WorkspaceRecord,
};

/// The JSON object that the fields stand for.
fn object(fields: Vec<(&'static str, JsonValue)>) -> serde_json::Value {
    let mut object = serde_json::Map::new();
    for (key, value) in fields {
        let value = match value {
            JsonValue::Null => serde_json::Value::Null,
            JsonValue::Text(text) => serde_json::Value::String(text),
            JsonValue::List(items) => list(&items),
        };
        object.insert(key.to_owned(), value);
    }
    serde_json::Value::Object(object)
}

fn list<T: AsRef<str>>(items: &[T]) -> serde_json::Value {
    serde_json::Value::Array(
        items.iter().map(|item| serde_json::Value::String(item.as_ref().to_owned())).collect(),
    )
}

fn terminal() -> WindowRecord {
    WindowRecord {
        title: "Terminal".to_owned(),
        app_id: "org.gnome.Terminal".to_owned(),
        identifier: "term".to_owned(),
        output_names: vec!["eDP-1".to_owned()],
        output_handles: vec![],
        workspace_names: vec!["2".to_owned(), "1".to_owned()],
        cosmic_toplevel: None,
        foreign_id: 42,
        active: false,
    }
}

fn moved() -> MoveResult {
    MoveResult {
        window_title: "Main".to_owned(),
        window_app_id: String::new(),
        workspace_name: "2".to_owned(),
        output_name: "DP-1".to_owned(),
    }
}

#[test]
fn window_json_shape() {
    let record = WindowRecord {
        title: "Terminal".to_owned(),
        app_id: "org.gnome.Terminal".to_owned(),
        identifier: "term".to_owned(),
        output_names: vec!["eDP-1".to_owned()],
        output_handles: vec![],
        workspace_names: vec!["2".to_owned(), "1".to_owned()],
        cosmic_toplevel: None,
        foreign_id: 42,
        active: false,
    };
    let view = WindowJson::from_record(&record);
    let value = object(view.fields());
    assert_eq!(value["title"], "Terminal");
    assert_eq!(value["app_id"], "org.gnome.Terminal");
    assert_eq!(value["identifier"], "term");
    assert_eq!(value["workspaces"], list(&["2", "1"]));
    assert_eq!(value["outputs"], list(&["eDP-1"]));
}

#[test]
fn workspace_json_shape() {
    let view = WorkspaceJson {
        name: "work".to_owned(),
        id: None,
        coords: "1,0".to_owned(),
        outputs: vec!["eDP-1".to_owned()],
    };
    let value = object(view.fields());
    assert_eq!(value["name"], "work");
    assert_eq!(value["id"], serde_json::Value::Null);
    assert_eq!(value["coords"], "1,0");
    assert_eq!(value["outputs"], list(&["eDP-1"]));
}

#[test]
fn json_fields_keep_their_order() {
    let keys: Vec<&str> =
        WindowJson::from_record(&terminal()).fields().into_iter().map(|f| f.0).collect();
    assert_eq!(keys, ["title", "app_id", "identifier", "workspaces", "outputs"]);
    let record = WorkspaceRecord {
        handle: 1,
        name: "w".to_owned(),
        id: Some("x".to_owned()),
        coordinates: vec![1, 2],
        output_names: vec![],
        output_handles: vec![],
    };
    let json = WorkspaceJson::from_record(&record);
    assert_eq!(json.coords, "1,2");
    let fields = json.fields();
    assert_eq!(fields[1], ("id", JsonValue::Text("x".to_owned())));
    let keys: Vec<&str> = fields.iter().map(|f| f.0).collect();
    assert_eq!(keys, ["name", "id", "coords", "outputs"]);
}

#[test]
fn tables_have_a_line_for_each() {
    let mut bare = terminal();
    bare.title = String::new();
    bare.workspace_names = vec![];
    assert_eq!(
        cli::window_lines(&vec![terminal(), bare]),
        [
            "Terminal | app_id=org.gnome.Terminal | identifier=term | workspaces=2, 1 | outputs=eDP-1",
            "- | app_id=org.gnome.Terminal | identifier=term | workspaces=- | outputs=eDP-1",
        ]
    );
    let workspace = |id: Option<&str>| WorkspaceRecord {
        handle: 1,
        name: "w".to_owned(),
        id: id.map(str::to_owned),
        coordinates: vec![1, 0],
        output_names: vec!["A".to_owned(), "B".to_owned()],
        output_handles: vec![],
    };
    assert_eq!(
        cli::workspace_lines(&vec![workspace(None), workspace(Some("i"))]),
        ["w | id=- | coords=1,0 | outputs=A, B", "w | id=i | coords=1,0 | outputs=A, B"]
    );
}

#[test]
fn reports_are_told() {
    assert_eq!(cli::move_line(&moved()), "Moved 'Main' (-) to workspace '2' on output 'DP-1'");
    assert_eq!(
        cli::rule_move_line(&moved(), false),
        "moved 'Main' (-) to workspace '2' on output 'DP-1'"
    );
    assert_eq!(
        cli::rule_move_line(&moved(), true),
        "would move 'Main' (-) to workspace '2' on output 'DP-1'"
    );
    let result = ActivateWindowResult { title: String::new(), app_id: "a".to_owned() };
    assert_eq!(cli::activation_line(&result), "Activated '-' (a)");
    let result = LaunchResult {
        command: "ls -l".to_owned(),
        pid: Some(7),
        exited: true,
        move_result: Some(moved()),
    };
    assert_eq!(
        cli::launch_lines(&result),
        [
            "Launched 'ls -l'",
            "pid=7",
            "Moved 'Main' (-) to workspace '2' on output 'DP-1'",
            "exited",
        ]
    );
    let result = RunResult { command: "ls".to_owned(), pid: None, exited: false, moved: None };
    assert_eq!(cli::run_lines(&result), ["Ran 'ls'"]);
    assert_eq!(
        cli::example_line("/r.toml"),
        "wrote example rules to /r.toml; edit it and run `cosmic-wmctl daemon`"
    );
    assert_eq!(
        cli::watch_lines("/r.toml", 0),
        [
            "cosmic-wmctl: no rules loaded from /r.toml; add [[rules]] entries or pass --config",
            "cosmic-wmctl: watching for new windows (0 rule(s)); press Ctrl-C to stop",
        ]
    );
    assert_eq!(
        cli::watch_lines("/r.toml", 12),
        ["cosmic-wmctl: watching for new windows (12 rule(s)); press Ctrl-C to stop"]
    );
    let debug = DebugInfo {
        globals: vec![GlobalRecord { interface: "wl_seat".to_owned(), version: 9, name: 3 }],
        toplevel_manager_capabilities: vec!["Close".to_owned(), "Unknown(9)".to_owned()],
    };
    assert_eq!(
        cli::debug_lines(&debug),
        [
            "globals:",
            "  wl_seat v9 name=3",
            "toplevel_manager_capabilities:",
            "  Close",
            "  Unknown(9)",
        ]
    );
}

fn run(command: Command) -> Result<Action, String> {
    let home = Some(b"/home/u".to_vec());
    Cli { command }.run(None, home).map_err(|e| e.message())
}

fn window_move(window: &str, exact: bool) -> Command {
    Command::WindowMove(WindowMoveArgs {
        window: window.to_owned(),
        workspace: "2".to_owned(),
        output: Some("DP-1".to_owned()),
        exact,
        dry_run: true,
        force_ext_move: false,
    })
}

#[test]
fn commands_come_to_actions() {
    assert!(matches!(
        run(Command::Windows(WindowsArgs { json: true })),
        Ok(Action::ListWindows { json: true })
    ));
    assert!(matches!(
        run(Command::Workspaces(WorkspacesArgs { json: false })),
        Ok(Action::ListWorkspaces { json: false })
    ));
    assert!(matches!(run(Command::DebugCapabilities), Ok(Action::ShowCapabilities)));
    let Ok(Action::ActivateWindow(query)) =
        run(Command::WindowActivate(WindowActivateArgs { window: "firefox".to_owned() }))
    else {
        panic!("a window is activated");
    };
    assert_eq!(query.to_string(), "app_id=firefox");
    assert_eq!(
        run(Command::WindowActivate(WindowActivateArgs { window: " ".to_owned() })).unwrap_err(),
        "empty window query"
    );
    assert!(matches!(
        run(Command::WorkspaceActivate(WorkspaceActivateArgs { workspace: "1,0".to_owned() })),
        Ok(Action::ActivateWorkspace { selector }) if selector == "1,0"
    ));
    let Ok(Action::Run { workspace, command, wait }) = run(Command::Run(RunArgs {
        workspace: None,
        wait: true,
        command: vec!["ls".to_owned()],
    })) else {
        panic!("a command is run");
    };
    assert_eq!((workspace, command, wait), (None, vec!["ls".to_owned()], true));
}

#[test]
fn move_command_makes_a_request() {
    let Ok(Action::MoveWindow(request)) = run(window_move("fire and title=Main", false)) else {
        panic!("a window is moved");
    };
    assert_eq!(request.window_query.to_string(), "app_id=fire and title=Main");
    assert_eq!(request.workspace_selector, "2");
    assert_eq!(request.output_name.as_deref(), Some("DP-1"));
    assert!(request.dry_run && !request.force_ext_move);
    let mut window = terminal();
    window.app_id = "firefox".to_owned();
    window.title = "Main".to_owned();
    assert!(request.window_query.matches(&window));
    let Ok(Action::MoveWindow(request)) = run(window_move("fire and title=Main", true)) else {
        panic!("a window is moved");
    };
    // An exact query wants the whole text.
    assert!(!request.window_query.matches(&window));
    window.app_id = "fire".to_owned();
    assert!(request.window_query.matches(&window));
    assert_eq!(
        run(window_move("foo=bar", true)).unwrap_err(),
        "unknown field 'foo': use app_id, title, identifier, or active"
    );
}

#[test]
fn launch_command_counts_in_seconds() {
    let args = |timeout: u64| {
        Command::Launch(LaunchArgs {
            workspace: Some("2".to_owned()),
            app_id: Some("a".to_owned()),
            title: None,
            timeout,
            dry_run: false,
            wait: true,
            command: vec!["x".to_owned()],
        })
    };
    let Ok(Action::Launch { config, command }) = run(args(30)) else {
        panic!("a command is launched");
    };
    assert_eq!(config.timeout, 30_000_000_000);
    assert_eq!(config.app_id.as_deref(), Some("a"));
    assert!(config.wait && !config.dry_run && config.title.is_none());
    assert_eq!(command, ["x"]);
    let Ok(Action::Launch { config, .. }) = run(args(u64::MAX)) else {
        panic!("a command is launched");
    };
    assert_eq!(config.timeout, u64::MAX as u128 * 1_000_000_000);
}

#[test]
fn daemon_command_knows_its_rules_file() {
    let args = |config: Option<&str>, init: bool| {
        Command::Daemon(DaemonArgs {
            config: config.map(|path| path.as_bytes().to_vec()),
            dry_run: true,
            move_existing: false,
            init,
        })
    };
    let Ok(Action::Watch { path, dry_run, move_existing }) = run(args(Some("/x.toml"), false)) else {
        panic!("windows are watched");
    };
    assert_eq!((path.as_slice(), dry_run, move_existing), (&b"/x.toml"[..], true, false));
    let Ok(Action::WriteExample { path }) = run(args(None, true)) else {
        panic!("an example is written");
    };
    assert_eq!(path, b"/home/u/.config/cosmic-wmctl/rules.toml");
}
