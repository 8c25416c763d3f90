//! The commands of the program and the lines that it prints.
use vstd::prelude::*;
use vstd::string::StringExecFns;

use crate::decimal;
use crate::error;
use crate::error::{ErrorView, WmError};
use crate::launch;
use crate::launch::{LaunchConfig, LaunchResult, RunResult};
use crate::model;
use crate::query;
use crate::records;
use crate::records::{WindowRecord, WindowView, WorkspaceRecord, WorkspaceView};
use crate::rules;
use crate::text;
use crate::wayland;
use crate::wayland::{
    ActivateWindowResult, DebugInfo, GlobalRecord, MoveRequest, MoveResult, MoveResultView, Query,
    SelectorView,
};

verus! {

/// A value in the JSON output.
#[derive(Debug, PartialEq, Eq)]
pub enum JsonValue {
    Null,
    Text(String),
    List(Vec<String>),
}

/// A JSON value as contracts speak of it.
pub enum JsonView {
    Null,
    Text(Seq<char>),
    List(Seq<Seq<char>>),
}

impl View for JsonValue {
    type V = JsonView;

    open spec fn view(&self) -> JsonView {
        match self {
            JsonValue::Null => JsonView::Null,
            JsonValue::Text(s) => JsonView::Text(s@),
            JsonValue::List(items) => JsonView::List(text::views(items@)),
        }
    }
}

/// The fields of a JSON object as contracts speak of them.
pub open spec fn field_views(fields: Seq<(&'static str, JsonValue)>) -> Seq<(Seq<char>, JsonView)> {
    fields.map_values(|f: (&'static str, JsonValue)| (f.0@, f.1@))
}

/// JSON representation of a window (for the `--json` output of `windows`).
#[derive(Debug)]
pub struct WindowJson {
    pub title: String,
    pub app_id: String,
    pub identifier: String,
    pub workspaces: Vec<String>,
    pub outputs: Vec<String>,
}

impl WindowJson {
    /// The representation of a window.
    pub fn from_record(window: &WindowRecord) -> (r: Self)
        ensures
            r.title@ == window@.title,
            r.app_id@ == window@.app_id,
            r.identifier@ == window@.identifier,
            text::views(r.workspaces@) == window@.workspace_names,
            text::views(r.outputs@) == window@.output_names,
    {
        WindowJson {
            title: window.title.clone(),
            app_id: window.app_id.clone(),
            identifier: window.identifier.clone(),
            workspaces: records::copy_strings(&window.workspace_names),
            outputs: records::copy_strings(&window.output_names),
        }
    }

    /// The fields of the JSON object, in the order of the output.
    pub fn fields(&self) -> (r: Vec<(&'static str, JsonValue)>)
        ensures
            field_views(r@) == seq![
                ("title"@, JsonView::Text(self.title@)),
                ("app_id"@, JsonView::Text(self.app_id@)),
                ("identifier"@, JsonView::Text(self.identifier@)),
                ("workspaces"@, JsonView::List(text::views(self.workspaces@))),
                ("outputs"@, JsonView::List(text::views(self.outputs@))),
            ],
    {
        let mut fields: Vec<(&'static str, JsonValue)> = Vec::new();
        fields.push(("title", JsonValue::Text(self.title.clone())));
        fields.push(("app_id", JsonValue::Text(self.app_id.clone())));
        fields.push(("identifier", JsonValue::Text(self.identifier.clone())));
        fields.push(("workspaces", JsonValue::List(records::copy_strings(&self.workspaces))));
        fields.push(("outputs", JsonValue::List(records::copy_strings(&self.outputs))));
        fields
    }
}

/// JSON representation of a workspace (for the `--json` output of `workspaces`).
#[derive(Debug)]
pub struct WorkspaceJson {
    pub name: String,
    pub id: Option<String>,
    pub coords: String,
    pub outputs: Vec<String>,
}

impl WorkspaceJson {
    /// The representation of a workspace.
    pub fn from_record(workspace: &WorkspaceRecord) -> (r: Self)
        ensures
            r.name@ == workspace@.name,
            text::opt_view(r.id) == workspace@.id,
            r.coords@ == model::coordinates_text(workspace@.coordinates),
            text::views(r.outputs@) == workspace@.output_names,
    {
        WorkspaceJson {
            name: workspace.name.clone(),
            id: records::copy_option(&workspace.id),
            coords: workspace.coordinates_string(),
            outputs: records::copy_strings(&workspace.output_names),
        }
    }

    /// The fields of the JSON object, in the order of the output.
    pub fn fields(&self) -> (r: Vec<(&'static str, JsonValue)>)
        ensures
            field_views(r@) == seq![
                ("name"@, JsonView::Text(self.name@)),
                (
                    "id"@,
                    match self.id {
                        Some(id) => JsonView::Text(id@),
                        None => JsonView::Null,
                    },
                ),
                ("coords"@, JsonView::Text(self.coords@)),
                ("outputs"@, JsonView::List(text::views(self.outputs@))),
            ],
    {
        let mut fields: Vec<(&'static str, JsonValue)> = Vec::new();
        fields.push(("name", JsonValue::Text(self.name.clone())));
        match &self.id {
            Some(id) => fields.push(("id", JsonValue::Text(id.clone()))),
            None => fields.push(("id", JsonValue::Null)),
        }
        fields.push(("coords", JsonValue::Text(self.coords.clone())));
        fields.push(("outputs", JsonValue::List(records::copy_strings(&self.outputs))));
        fields
    }
}

/// The command line.
#[derive(Debug)]
pub struct Cli {
    pub command: Command,
}

/// A command with its arguments.
#[derive(Debug)]
pub enum Command {
    /// List all windows.
    Windows(WindowsArgs),
    /// List all workspaces.
    Workspaces(WorkspacesArgs),
    /// Print runtime Wayland globals and COSMIC toplevel capabilities.
    DebugCapabilities,
    /// Move a window to a workspace.
    WindowMove(WindowMoveArgs),
    /// Activate (focus) a window.
    WindowActivate(WindowActivateArgs),
    /// Activate (focus) a workspace.
    WorkspaceActivate(WorkspaceActivateArgs),
    /// Launch a command and move its window to a workspace.
    Launch(LaunchArgs),
    /// Watch for new windows and move them per rules in a config file.
    Daemon(DaemonArgs),
    /// Run a command, optionally on a specific workspace.
    Run(RunArgs),
}

#[derive(Debug)]
pub struct WindowsArgs {
    /// Emit a JSON array instead of the human-readable table.
    pub json: bool,
}

#[derive(Debug)]
pub struct WorkspacesArgs {
    /// Emit a JSON array instead of the human-readable table.
    pub json: bool,
}

#[derive(Debug)]
pub struct WindowMoveArgs {
    /// Window selector query (field=value pairs joined with ' and ').
    pub window: String,
    /// Workspace query (id, name, or coordinates).
    pub workspace: String,
    /// Prefer a specific output when the target workspace spans multiple outputs.
    pub output: Option<String>,
    /// Require exact matching instead of case-insensitive substring matching.
    pub exact: bool,
    /// Resolve selectors and print the intended move without sending the request.
    pub dry_run: bool,
    /// Bypass capability checks and try the ext workspace move request anyway.
    pub force_ext_move: bool,
}

#[derive(Debug)]
pub struct WindowActivateArgs {
    /// Window selector query (field=value pairs joined with ' and ').
    pub window: String,
}

#[derive(Debug)]
pub struct WorkspaceActivateArgs {
    /// Workspace query (id, name, or coordinates).
    pub workspace: String,
}

#[derive(Debug)]
pub struct LaunchArgs {
    /// Move the launched window to this workspace (name, id, or coordinates).
    pub workspace: Option<String>,
    /// Glob matched against the window's app_id.
    pub app_id: Option<String>,
    /// Glob matched against the window's title (requires an app_id glob).
    pub title: Option<String>,
    /// Seconds to wait for a matching window before giving up.
    pub timeout: u64,
    /// Resolve and print the intended move without sending the request.
    pub dry_run: bool,
    /// Wait for the launched process to exit before returning.
    pub wait: bool,
    /// Command to run (passed through to shell).
    pub command: Vec<String>,
}

#[derive(Debug)]
pub struct DaemonArgs {
    /// Rules file with [[rules]] entries.
    pub config: Option<Vec<u8>>,
    /// Print what would be moved without moving anything.
    pub dry_run: bool,
    /// Also apply rules to windows already open when the daemon starts.
    pub move_existing: bool,
    /// Write an example rules file to the config path and exit.
    pub init: bool,
}

#[derive(Debug)]
pub struct RunArgs {
    /// Start the command on this workspace (name, id, or coordinates).
    pub workspace: Option<String>,
    /// Wait for the command to exit before returning.
    pub wait: bool,
    /// Command to run (passed through to shell).
    pub command: Vec<String>,
}

/// What a command asks the program to do.
#[derive(Debug)]
pub enum Action {
    ListWindows { json: bool },
    ListWorkspaces { json: bool },
    ShowCapabilities,
    MoveWindow(MoveRequest),
    ActivateWindow(Query),
    ActivateWorkspace { selector: String },
    Launch { config: LaunchConfig, command: Vec<String> },
    /// Write the example rules to the path.
    WriteExample { path: Vec<u8> },
    /// Watch for new windows by the rules of the file at the path.
    Watch { path: Vec<u8>, dry_run: bool, move_existing: bool },
    Run { workspace: Option<String>, command: Vec<String>, wait: bool },
}

/// The query of a window argument.
pub open spec fn wanted_query(raw: Seq<char>, exact: bool) -> Result<Seq<SelectorView>, ErrorView> {
    match query::read_query(raw) {
        Ok(list) => Ok(
            if exact {
                query::exact_query(list)
            } else {
                list
            },
        ),
        Err(e) => Err(e),
    }
}

/// The path of the rules file: the one that was given, else the default.
pub open spec fn rules_path(
    config: Option<Seq<u8>>,
    xdg_config_home: Option<Seq<u8>>,
    home: Option<Seq<u8>>,
) -> Seq<u8> {
    match config {
        Some(path) => path,
        None => rules::config_path(xdg_config_home, home),
    }
}

/// Is this what the command comes to?
pub open spec fn comes_to(
    command: Command,
    xdg_config_home: Option<Seq<u8>>,
    home: Option<Seq<u8>>,
    r: Result<Action, WmError>,
) -> bool {
    match command {
        Command::Windows(args) => r == Ok::<Action, WmError>(Action::ListWindows { json: args.json }),
        Command::Workspaces(args) => r == Ok::<Action, WmError>(
            Action::ListWorkspaces { json: args.json },
        ),
        Command::DebugCapabilities => r == Ok::<Action, WmError>(Action::ShowCapabilities),
        Command::WindowMove(args) => match wanted_query(args.window@, args.exact) {
            Ok(query) => {
                &&& r matches Ok(Action::MoveWindow(request))
                &&& request.window_query@ == query
                &&& request.workspace_selector == args.workspace
                &&& request.output_name == args.output
                &&& request.dry_run == args.dry_run
                &&& request.force_ext_move == args.force_ext_move
            },
            Err(e) => r matches Err(error) && error@ == e,
        },
        Command::WindowActivate(args) => match query::read_query(args.window@) {
            Ok(query) => r matches Ok(Action::ActivateWindow(q)) && q@ == query,
            Err(e) => r matches Err(error) && error@ == e,
        },
        Command::WorkspaceActivate(args) => r == Ok::<Action, WmError>(
            Action::ActivateWorkspace { selector: args.workspace },
        ),
        Command::Launch(args) => {
            &&& r matches Ok(Action::Launch { config, command })
            &&& config.workspace_selector == args.workspace
            &&& config.app_id == args.app_id
            &&& config.title == args.title
            &&& config.timeout == args.timeout * wayland::SECOND
            &&& config.dry_run == args.dry_run
            &&& config.wait == args.wait
            &&& command == args.command
        },
        Command::Daemon(args) => {
            let path = rules_path(rules::opt_bytes(args.config), xdg_config_home, home);
            if args.init {
                r matches Ok(Action::WriteExample { path: p }) && p@ == path
            } else {
                &&& r matches Ok(Action::Watch { path: p, dry_run, move_existing })
                &&& p@ == path
                &&& dry_run == args.dry_run
                &&& move_existing == args.move_existing
            }
        },
        Command::Run(args) => r == Ok::<Action, WmError>(
            Action::Run { workspace: args.workspace, command: args.command, wait: args.wait },
        ),
    }
}

impl Cli {
    /// What the command asks the program to do, given the values of
    /// `XDG_CONFIG_HOME` and `HOME`.
    pub fn run(self, xdg_config_home: Option<Vec<u8>>, home: Option<Vec<u8>>) -> (r: Result<
        Action,
        WmError,
    >)
        ensures
            comes_to(self.command, rules::opt_bytes(xdg_config_home), rules::opt_bytes(home), r),
    {
        match self.command {
            Command::Windows(args) => Ok(Action::ListWindows { json: args.json }),
            Command::Workspaces(args) => Ok(Action::ListWorkspaces { json: args.json }),
            Command::DebugCapabilities => Ok(Action::ShowCapabilities),
            Command::WindowMove(args) => match parse_window_query(
                args.window.as_str(),
                args.exact,
            ) {
                Ok(window_query) => Ok(
                    Action::MoveWindow(
                        MoveRequest {
                            window_query,
                            workspace_selector: args.workspace,
                            output_name: args.output,
                            dry_run: args.dry_run,
                            force_ext_move: args.force_ext_move,
                        },
                    ),
                ),
                Err(e) => Err(e),
            },
            Command::WindowActivate(args) => match parse_window_query(args.window.as_str(), false) {
                Ok(window_query) => Ok(Action::ActivateWindow(window_query)),
                Err(e) => Err(e),
            },
            Command::WorkspaceActivate(args) => Ok(
                Action::ActivateWorkspace { selector: args.workspace },
            ),
            Command::Launch(args) => Ok(
                Action::Launch {
                    config: LaunchConfig {
                        workspace_selector: args.workspace,
                        app_id: args.app_id,
                        title: args.title,
                        timeout: args.timeout as u128 * wayland::SECOND,
                        dry_run: args.dry_run,
                        wait: args.wait,
                    },
                    command: args.command,
                },
            ),
            Command::Daemon(args) => {
                let path: Vec<u8> = match args.config {
                    Some(path) => path,
                    None => rules::default_config_path(xdg_config_home, home),
                };
                if args.init {
                    Ok(Action::WriteExample { path })
                } else {
                    Ok(
                        Action::Watch {
                            path,
                            dry_run: args.dry_run,
                            move_existing: args.move_existing,
                        },
                    )
                }
            },
            Command::Run(args) => Ok(
                Action::Run { workspace: args.workspace, command: args.command, wait: args.wait },
            ),
        }
    }
}

/// The query of a window argument.
pub fn parse_window_query(raw: &str, exact: bool) -> (r: Result<Query, WmError>)
    ensures
        error::outcome(r) == wanted_query(raw@, exact),
{
    match Query::parse(raw) {
        Ok(query) => if exact {
            Ok(query.exact())
        } else {
            Ok(query)
        },
        Err(e) => Err(e),
    }
}

/// The line that tells of a window.
pub open spec fn window_text(window: WindowView) -> Seq<char> {
    records::shown(window.title) + " | app_id="@ + records::shown(window.app_id)
        + " | identifier="@ + records::shown(window.identifier) + " | workspaces="@
        + records::shown_list(window.workspace_names) + " | outputs="@ + records::shown_list(
        window.output_names,
    )
}

/// The line that tells of a window.
pub fn window_line(window: &WindowRecord) -> (r: String)
    ensures
        r@ == window_text(window@),
{
    let mut out: String = records::display_field(window.title.as_str()).to_owned();
    out.append(" | app_id=");
    out.append(records::display_field(window.app_id.as_str()));
    out.append(" | identifier=");
    out.append(records::display_field(window.identifier.as_str()));
    out.append(" | workspaces=");
    out.append(records::joined_or_dash(&window.workspace_names).as_str());
    out.append(" | outputs=");
    out.append(records::joined_or_dash(&window.output_names).as_str());
    out
}

/// The line that tells of a workspace.
pub open spec fn workspace_text(workspace: WorkspaceView) -> Seq<char> {
    workspace.name + " | id="@ + records::shown_option(workspace.id) + " | coords="@
        + model::coordinates_text(workspace.coordinates) + " | outputs="@ + records::shown_list(
        workspace.output_names,
    )
}

/// The line that tells of a workspace.
pub fn workspace_line(workspace: &WorkspaceRecord) -> (r: String)
    ensures
        r@ == workspace_text(workspace@),
{
    let mut out: String = workspace.name.clone();
    out.append(" | id=");
    match &workspace.id {
        Some(id) => out.append(id.as_str()),
        None => out.append("-"),
    }
    out.append(" | coords=");
    out.append(workspace.coordinates_string().as_str());
    out.append(" | outputs=");
    out.append(workspace.outputs_csv().as_str());
    out
}

/// The table of the windows, a line for each.
pub fn window_lines(windows: &Vec<WindowRecord>) -> (r: Vec<String>)
    ensures
        text::views(r@) == records::window_views(windows@).map_values(
            |w: WindowView| window_text(w),
        ),
{
    let mut lines: Vec<String> = Vec::new();
    let ghost wanted = records::window_views(windows@).map_values(|w: WindowView| window_text(w));
    let mut i: usize = 0;
    while i < windows.len()
        invariant
            i <= windows.len(),
            lines.len() == i,
            wanted == records::window_views(windows@).map_values(|w: WindowView| window_text(w)),
            forall|k: int| 0 <= k < i ==> (#[trigger] lines@[k])@ == wanted[k],
        decreases windows.len() - i,
    {
        lines.push(window_line(&windows[i]));
        i = i + 1;
    }
    assert(text::views(lines@) =~= wanted);
    lines
}

/// The table of the workspaces, a line for each.
pub fn workspace_lines(workspaces: &Vec<WorkspaceRecord>) -> (r: Vec<String>)
    ensures
        text::views(r@) == records::workspace_views(workspaces@).map_values(
            |w: WorkspaceView| workspace_text(w),
        ),
{
    let mut lines: Vec<String> = Vec::new();
    let ghost wanted = records::workspace_views(workspaces@).map_values(
        |w: WorkspaceView| workspace_text(w),
    );
    let mut i: usize = 0;
    while i < workspaces.len()
        invariant
            i <= workspaces.len(),
            lines.len() == i,
            wanted == records::workspace_views(workspaces@).map_values(
                |w: WorkspaceView| workspace_text(w),
            ),
            forall|k: int| 0 <= k < i ==> (#[trigger] lines@[k])@ == wanted[k],
        decreases workspaces.len() - i,
    {
        lines.push(workspace_line(&workspaces[i]));
        i = i + 1;
    }
    assert(text::views(lines@) =~= wanted);
    lines
}

/// The line that tells of a global object.
pub open spec fn global_text(interface: Seq<char>, version: u32, name: u32) -> Seq<char> {
    "  "@ + interface + " v"@ + decimal::decimal(version as nat) + " name="@ + decimal::decimal(
        name as nat,
    )
}

/// The lines that tell of the global objects and the capabilities.
pub open spec fn debug_text(debug: DebugInfo) -> Seq<Seq<char>> {
    seq!["globals:"@] + debug.globals@.map_values(
        |g: GlobalRecord| global_text(g.interface@, g.version, g.name),
    ) + seq!["toplevel_manager_capabilities:"@] + debug.toplevel_manager_capabilities@.map_values(
        |c: String| "  "@ + c@,
    )
}

/// The lines that tell of the global objects and the capabilities.
pub fn debug_lines(debug: &DebugInfo) -> (r: Vec<String>)
    ensures
        text::views(r@) == debug_text(*debug),
{
    let ghost globals = debug.globals@.map_values(
        |g: GlobalRecord| global_text(g.interface@, g.version, g.name),
    );
    let ghost names = debug.toplevel_manager_capabilities@.map_values(|c: String| "  "@ + c@);
    let ghost first = seq!["globals:"@];
    let ghost middle = seq!["toplevel_manager_capabilities:"@];
    let mut lines: Vec<String> = Vec::new();
    lines.push("globals:".to_owned());
    assert(text::views(lines@) =~= first + globals.take(0));
    let mut i: usize = 0;
    while i < debug.globals.len()
        invariant
            i <= debug.globals.len(),
            globals == debug.globals@.map_values(
                |g: GlobalRecord| global_text(g.interface@, g.version, g.name),
            ),
            text::views(lines@) == first + globals.take(i as int),
        decreases debug.globals.len() - i,
    {
        let global: &GlobalRecord = &debug.globals[i];
        let ghost before = text::views(lines@);
        let mut line: String = "  ".to_owned();
        line.append(global.interface.as_str());
        line.append(" v");
        line.append(decimal::decimal_text(global.version as u64).as_str());
        line.append(" name=");
        line.append(decimal::decimal_text(global.name as u64).as_str());
        assert(line@ == globals[i as int]);
        lines.push(line);
        proof {
            assert(text::views(lines@) =~= before.push(globals[i as int]));
            assert(first + globals.take(i + 1) =~= (first + globals.take(i as int)).push(
                globals[i as int],
            ));
        }
        i = i + 1;
    }
    let ghost upper = text::views(lines@);
    assert(upper =~= first + globals);
    lines.push("toplevel_manager_capabilities:".to_owned());
    assert(text::views(lines@) =~= upper + middle + names.take(0));
    let mut k: usize = 0;
    while k < debug.toplevel_manager_capabilities.len()
        invariant
            k <= debug.toplevel_manager_capabilities.len(),
            names == debug.toplevel_manager_capabilities@.map_values(|c: String| "  "@ + c@),
            text::views(lines@) == upper + middle + names.take(k as int),
        decreases debug.toplevel_manager_capabilities.len() - k,
    {
        let ghost before = text::views(lines@);
        let mut line: String = "  ".to_owned();
        line.append(debug.toplevel_manager_capabilities[k].as_str());
        assert(line@ == names[k as int]);
        lines.push(line);
        proof {
            assert(text::views(lines@) =~= before.push(names[k as int]));
            assert(upper + middle + names.take(k + 1) =~= (upper + middle + names.take(
                k as int,
            )).push(names[k as int]));
        }
        k = k + 1;
    }
    assert(names.take(k as int) =~= names);
    lines
}

/// The line that tells of a move, behind a word for what was done.
pub open spec fn move_text(action: Seq<char>, result: MoveResultView) -> Seq<char> {
    action + " '"@ + records::shown(result.window_title) + "' ("@ + records::shown(
        result.window_app_id,
    ) + ") to workspace '"@ + result.workspace_name + "' on output '"@ + result.output_name + "'"@
}

/// The line that tells of a move, behind a word for what was done.
fn describe_move(action: &str, result: &MoveResult) -> (r: String)
    ensures
        r@ == move_text(action@, result@),
{
    let mut out: String = action.to_owned();
    out.append(" '");
    out.append(records::display_field(result.window_title.as_str()));
    out.append("' (");
    out.append(records::display_field(result.window_app_id.as_str()));
    out.append(") to workspace '");
    out.append(result.workspace_name.as_str());
    out.append("' on output '");
    out.append(result.output_name.as_str());
    out.append("'");
    out
}

/// The line that tells of a move that was asked for.
pub fn move_line(result: &MoveResult) -> (r: String)
    ensures
        r@ == move_text("Moved"@, result@),
{
    describe_move("Moved", result)
}

/// The line that tells of a move by a rule.
pub fn rule_move_line(result: &MoveResult, dry_run: bool) -> (r: String)
    ensures
        r@ == move_text(
            if dry_run {
                "would move"@
            } else {
                "moved"@
            },
            result@,
        ),
{
    describe_move(
        if dry_run {
            "would move"
        } else {
            "moved"
        },
        result,
    )
}

/// The line that tells of an activated window.
pub fn activation_line(result: &ActivateWindowResult) -> (r: String)
    ensures
        r@ == "Activated '"@ + records::shown(result.title@) + "' ("@ + records::shown(
            result.app_id@,
        ) + ")"@,
{
    let mut out: String = "Activated '".to_owned();
    out.append(records::display_field(result.title.as_str()));
    out.append("' (");
    out.append(records::display_field(result.app_id.as_str()));
    out.append(")");
    out
}

/// The lines that tell of a started command, behind a word for what was done.
pub open spec fn started_text(
    action: Seq<char>,
    command: Seq<char>,
    pid: Option<u32>,
    moved: Option<MoveResultView>,
    exited: bool,
) -> Seq<Seq<char>> {
    seq![action + " '"@ + command + "'"@] + (match pid {
        Some(pid) => seq!["pid="@ + decimal::decimal(pid as nat)],
        None => Seq::empty(),
    }) + (match moved {
        Some(result) => seq![move_text("Moved"@, result)],
        None => Seq::empty(),
    }) + (if exited {
        seq!["exited"@]
    } else {
        Seq::empty()
    })
}

/// The lines that tell of a started command, behind a word for what was done.
fn started_lines(
    action: &str,
    command: &str,
    pid: Option<u32>,
    moved: &Option<MoveResult>,
    exited: bool,
) -> (r: Vec<String>)
    ensures
        text::views(r@) == started_text(action@, command@, pid, launch::moved_view(*moved), exited),
{
    let mut lines: Vec<String> = Vec::new();
    let mut first: String = action.to_owned();
    first.append(" '");
    first.append(command);
    first.append("'");
    lines.push(first);
    if let Some(pid) = pid {
        let mut line: String = "pid=".to_owned();
        line.append(decimal::decimal_text(pid as u64).as_str());
        lines.push(line);
    }
    if let Some(result) = moved {
        lines.push(move_line(result));
    }
    if exited {
        lines.push("exited".to_owned());
    }
    assert(text::views(lines@) =~= started_text(
        action@,
        command@,
        pid,
        launch::moved_view(*moved),
        exited,
    ));
    lines
}

/// The lines that tell of a launch.
pub fn launch_lines(result: &LaunchResult) -> (r: Vec<String>)
    ensures
        text::views(r@) == started_text(
            "Launched"@,
            result.command@,
            result.pid,
            launch::moved_view(result.move_result),
            result.exited,
        ),
{
    started_lines(
        "Launched",
        result.command.as_str(),
        result.pid,
        &result.move_result,
        result.exited,
    )
}

/// The lines that tell of a run.
pub fn run_lines(result: &RunResult) -> (r: Vec<String>)
    ensures
        text::views(r@) == started_text(
            "Ran"@,
            result.command@,
            result.pid,
            launch::moved_view(result.moved),
            result.exited,
        ),
{
    started_lines("Ran", result.command.as_str(), result.pid, &result.moved, result.exited)
}

/// The line that tells where the example rules were written.
pub fn example_line(path: &str) -> (r: String)
    ensures
        r@ == "wrote example rules to "@ + path@ + "; edit it and run `cosmic-wmctl daemon`"@,
{
    let mut out: String = "wrote example rules to ".to_owned();
    out.append(path);
    out.append("; edit it and run `cosmic-wmctl daemon`");
    out
}

/// The lines that a daemon starts with: a warning where it has no rules, and
/// how many it has.
pub open spec fn watch_text(path: Seq<char>, count: nat) -> Seq<Seq<char>> {
    let watching = "cosmic-wmctl: watching for new windows ("@ + decimal::decimal(count)
        + " rule(s)); press Ctrl-C to stop"@;
    if count == 0 {
        seq![
            "cosmic-wmctl: no rules loaded from "@ + path
                + "; add [[rules]] entries or pass --config"@,
            watching,
        ]
    } else {
        seq![watching]
    }
}

/// The lines that a daemon starts with.
pub fn watch_lines(path: &str, count: usize) -> (r: Vec<String>)
    ensures
        text::views(r@) == watch_text(path@, count as nat),
{
    let mut lines: Vec<String> = Vec::new();
    if count == 0 {
        let mut warning: String = "cosmic-wmctl: no rules loaded from ".to_owned();
        warning.append(path);
        warning.append("; add [[rules]] entries or pass --config");
        lines.push(warning);
    }
    let mut line: String = "cosmic-wmctl: watching for new windows (".to_owned();
    line.append(decimal::decimal_text(count as u64).as_str());
    line.append(" rule(s)); press Ctrl-C to stop");
    lines.push(line);
    assert(text::views(lines@) =~= watch_text(path@, count as nat));
    lines
}

/// What a command comes to does what its arguments say: each argument is handed
/// on as it was given, a query is read and taken exactly where that was asked
/// for, and a timeout is told in seconds. A command is refused only for a query
/// that cannot be read.
pub proof fn law_arguments_are_handed_on(
    command: Command,
    xdg_config_home: Option<Seq<u8>>,
    home: Option<Seq<u8>>,
    r: Result<Action, WmError>,
)
    requires
        comes_to(command, xdg_config_home, home, r),
    ensures
        match command {
            Command::Windows(args) => r matches Ok(Action::ListWindows { json }) && json
                == args.json,
            Command::Workspaces(args) => r matches Ok(Action::ListWorkspaces { json }) && json
                == args.json,
            Command::DebugCapabilities => r matches Ok(Action::ShowCapabilities),
            Command::WindowMove(args) => {
                &&& r is Ok <==> query::read_query(args.window@) is Ok
                &&& r matches Err(e) ==> query::read_query(args.window@) == Err::<
                    Seq<SelectorView>,
                    ErrorView,
                >(e@)
                &&& r matches Ok(action) ==> {
                    let list = query::read_query(args.window@)->Ok_0;
                    &&& action matches Action::MoveWindow(request)
                    &&& request.window_query@.len() == list.len()
                    &&& forall|i: int|
                        0 <= i < list.len() ==> {
                            let selector = #[trigger] request.window_query@[i];
                            &&& selector.field == list[i].field
                            &&& selector.value == list[i].value
                            &&& selector.exact == args.exact
                        }
                    &&& request.workspace_selector@ == args.workspace@
                    &&& text::opt_view(request.output_name) == text::opt_view(args.output)
                    &&& request.dry_run == args.dry_run
                    &&& request.force_ext_move == args.force_ext_move
                }
            },
            Command::WindowActivate(args) => {
                &&& r is Ok <==> query::read_query(args.window@) is Ok
                &&& r matches Err(e) ==> query::read_query(args.window@) == Err::<
                    Seq<SelectorView>,
                    ErrorView,
                >(e@)
                &&& r matches Ok(action) ==> (action matches Action::ActivateWindow(found)
                    && query::read_query(args.window@) == Ok::<Seq<SelectorView>, ErrorView>(
                    found@,
                ))
            },
            Command::WorkspaceActivate(args) => r matches Ok(
                Action::ActivateWorkspace { selector },
            ) && selector@ == args.workspace@,
            Command::Launch(args) => {
                &&& r matches Ok(Action::Launch { config, command })
                &&& text::opt_view(config.workspace_selector) == text::opt_view(args.workspace)
                &&& text::opt_view(config.app_id) == text::opt_view(args.app_id)
                &&& text::opt_view(config.title) == text::opt_view(args.title)
                &&& config.timeout == args.timeout * 1_000_000_000
                &&& config.dry_run == args.dry_run
                &&& config.wait == args.wait
                &&& text::views(command@) == text::views(args.command@)
            },
            Command::Daemon(args) => {
                &&& args.init <==> (r matches Ok(Action::WriteExample { .. }))
                &&& r matches Ok(Action::WriteExample { path }) ==> match args.config {
                    Some(given) => path@ == given@,
                    None => path@ == rules::config_path(xdg_config_home, home),
                }
                &&& !args.init ==> {
                    &&& r matches Ok(Action::Watch { path, dry_run, move_existing })
                    &&& dry_run == args.dry_run
                    &&& move_existing == args.move_existing
                    &&& match args.config {
                        Some(given) => path@ == given@,
                        None => path@ == rules::config_path(xdg_config_home, home),
                    }
                }
            },
            Command::Run(args) => {
                &&& r matches Ok(Action::Run { workspace, command, wait })
                &&& text::opt_view(workspace) == text::opt_view(args.workspace)
                &&& text::views(command@) == text::views(args.command@)
                &&& wait == args.wait
            },
        },
{
    if let Command::WindowMove(args) = command {
        query::lemma_read_is_plain(args.window@);
    }
}

/// The line of a window tells its title, app_id and identifier, its workspaces
/// and its outputs, in this order; the line of a workspace tells its name, id,
/// coordinates and outputs.
pub proof fn law_lines_tell(window: WindowView, workspace: WorkspaceView)
    ensures
        exists|a: Seq<char>, b: Seq<char>, c: Seq<char>, d: Seq<char>|
            #![trigger a + records::shown(window.app_id) + b + records::shown(window.identifier) + c
                + records::shown_list(window.workspace_names) + d]
            window_text(window) == records::shown(window.title) + (a + records::shown(window.app_id)
                + b + records::shown(window.identifier) + c + records::shown_list(
                window.workspace_names,
            ) + d) + records::shown_list(window.output_names),
        exists|a: Seq<char>, b: Seq<char>, c: Seq<char>|
            #![trigger a + records::shown_option(workspace.id) + b + model::coordinates_text(
                workspace.coordinates,
            ) + c]
            workspace_text(workspace) == workspace.name + (a + records::shown_option(workspace.id)
                + b + model::coordinates_text(workspace.coordinates) + c) + records::shown_list(
                workspace.output_names,
            ),
{
    let a = " | app_id="@;
    let b = " | identifier="@;
    let c = " | workspaces="@;
    let d = " | outputs="@;
    assert(window_text(window) =~= records::shown(window.title) + (a + records::shown(window.app_id)
        + b + records::shown(window.identifier) + c + records::shown_list(window.workspace_names)
        + d) + records::shown_list(window.output_names));
    let a = " | id="@;
    let b = " | coords="@;
    let c = " | outputs="@;
    assert(workspace_text(workspace) =~= workspace.name + (a + records::shown_option(workspace.id)
        + b + model::coordinates_text(workspace.coordinates) + c) + records::shown_list(
        workspace.output_names,
    ));
}

/// The line of a move tells what was done, with which window, to which
/// workspace and on which output, in this order.
pub proof fn law_move_line_tells(action: Seq<char>, result: MoveResultView)
    ensures
        exists|a: Seq<char>, b: Seq<char>, c: Seq<char>, d: Seq<char>, e: Seq<char>|
            #![trigger a + records::shown(result.window_title) + b + records::shown(
                result.window_app_id,
            ) + c + result.workspace_name + d + result.output_name + e]
            move_text(action, result) == action + (a + records::shown(result.window_title) + b
                + records::shown(result.window_app_id) + c + result.workspace_name + d
                + result.output_name + e),
{
    let a = " '"@;
    let b = "' ("@;
    let c = ") to workspace '"@;
    let d = "' on output '"@;
    let e = "'"@;
    assert(move_text(action, result) =~= action + (a + records::shown(result.window_title) + b
        + records::shown(result.window_app_id) + c + result.workspace_name + d + result.output_name
        + e));
}

/// Of a started command there is a line with the command, one for its process
/// where that is known, one for the move where there was one, and one for its
/// exit where it has exited, in this order, and no other line.
pub proof fn law_started_lines(
    action: Seq<char>,
    command: Seq<char>,
    pid: Option<u32>,
    moved: Option<MoveResultView>,
    exited: bool,
)
    ensures
        ({
            let lines = started_text(action, command, pid, moved, exited);
            let with_pid: int = if pid is Some {
                1
            } else {
                0
            };
            let with_move: int = if moved is Some {
                1
            } else {
                0
            };
            let with_exit: int = if exited {
                1
            } else {
                0
            };
            &&& lines.len() == 1 + with_pid + with_move + with_exit
            &&& lines[0] == action + " '"@ + command + "'"@
            &&& pid matches Some(pid) ==> lines[1] == "pid="@ + decimal::decimal(pid as nat)
            &&& moved matches Some(result) ==> lines[1 + with_pid] == move_text("Moved"@, result)
            &&& exited ==> lines.last() == "exited"@
        }),
{
}

/// A daemon that starts without rules warns of that before it tells how many it
/// has; one with rules tells their number alone.
pub proof fn law_watch_lines(path: Seq<char>, count: nat)
    ensures
        watch_text(path, count).len() == (if count == 0 {
            2int
        } else {
            1int
        }),
        text::contains_text(watch_text(path, count).last(), decimal::decimal(count)),
        count == 0 ==> text::contains_text(watch_text(path, count)[0], path),
{
    let last = watch_text(path, count).last();
    let number = decimal::decimal(count);
    let n = "cosmic-wmctl: watching for new windows ("@.len() as int;
    assert(last.subrange(n, n + number.len()) =~= number);
    assert(text::occurs_at(last, number, n));
    if count == 0 {
        let first = watch_text(path, count)[0];
        let m = "cosmic-wmctl: no rules loaded from "@.len() as int;
        assert(first.subrange(m, m + path.len()) =~= path);
        assert(text::occurs_at(first, path, m));
    }
}

/// The capabilities are told with a line for each global object, then a line
/// for each capability, each part behind a heading.
pub proof fn law_debug_lines(debug: DebugInfo)
    ensures
        ({
            let lines = debug_text(debug);
            let n = debug.globals@.len() as int;
            let m = debug.toplevel_manager_capabilities@.len() as int;
            &&& lines.len() == 2 + n + m
            &&& lines[0] == "globals:"@
            &&& lines[n + 1] == "toplevel_manager_capabilities:"@
            &&& forall|i: int|
                0 <= i < n ==> lines[1 + i] == global_text(
                    (#[trigger] debug.globals@[i]).interface@,
                    debug.globals@[i].version,
                    debug.globals@[i].name,
                )
            &&& forall|i: int|
                0 <= i < m ==> lines[2 + n + i] == "  "@ + (
                #[trigger] debug.toplevel_manager_capabilities@[i])@
        }),
{
}

/// What contracts say of the fields of a JSON object they say of their names
/// and values, in their order.
pub proof fn law_fields_are_seen_as_they_are(fields: Seq<(&'static str, JsonValue)>, i: int)
    requires
        0 <= i < fields.len(),
    ensures
        field_views(fields).len() == fields.len(),
        field_views(fields)[i].0 == fields[i].0@,
        match fields[i].1 {
            JsonValue::Null => field_views(fields)[i].1 is Null,
            JsonValue::Text(s) => field_views(fields)[i].1 == JsonView::Text(s@),
            JsonValue::List(list) => field_views(fields)[i].1 == JsonView::List(text::views(list@)),
        },
{
}

} // verus!
