use std::collections::HashSet;

use cosmic_wmctl::document::write_rules;
use cosmic_wmctl::editor::{
    save_rules, valid_rules, workspace_selector, App, Dialog, Effect, LiveData, Message, RuleDraft,
    SavePurpose, WindowInfo, HELP_TEXT,
};
use cosmic_wmctl::panel::{applied_move_text, move_window_to_workspace, moved_window_text};
use cosmic_wmctl::rules::{load_rules, Rule, RuleFile};
use cosmic_wmctl::wayland::{
    Compositor, MoveResult, OutputInfo, Session, Snapshot, ToplevelInfo, WindowRecord,
    WorkspaceGroup, WorkspaceInfo, WorkspaceRecord,
};

fn draft(app_id: &str, title: &str, workspace: &str) -> RuleDraft {
    RuleDraft {
        app_id: app_id.to_owned(),
        title: title.to_owned(),
        workspace: workspace.to_owned(),
    }
}

fn workspace(name: &str, id: Option<&str>, coordinates: &[u32]) -> WorkspaceRecord {
    WorkspaceRecord {
        handle: 1,
        name: name.to_owned(),
        id: id.map(str::to_owned),
        coordinates: coordinates.to_vec(),
        output_names: vec!["DP-1".to_owned()],
        output_handles: vec![2],
    }
}

fn window(app_id: &str, title: &str, identifier: &str) -> WindowInfo {
    WindowInfo {
        app_id: app_id.to_owned(),
        title: title.to_owned(),
        identifier: identifier.to_owned(),
    }
}

fn live() -> LiveData {
    LiveData {
        workspaces: vec![workspace("one", None, &[0]), workspace("", None, &[]), workspace("", Some("i"), &[])],
        windows: vec![window("code", "Editor", "w2")],
    }
}

fn app() -> App {
    let mut app = App::init(
        "/r.toml".to_owned(),
        &vec![Rule::new("a", None, "1").unwrap(), Rule::new("b", Some("t*"), "2").unwrap()],
    );
    app.live = Some(live());
    app
}

fn status(app: &App) -> &str {
    app.status.as_deref().expect("a status")
}

/// The rules that the text of a rules file stands for.
fn loaded(contents: &str) -> Vec<Rule> {
    let table: toml::Table = toml::from_str(contents).expect("valid TOML");
    let entries: Vec<RuleFile> = table["rules"]
        .as_array()
        .expect("array")
        .iter()
        .map(|entry| RuleFile {
            app_id: entry["app_id"].as_str().expect("app_id").to_owned(),
            title: entry.get("title").map(|t| t.as_str().expect("title").to_owned()),
            workspace: entry["workspace"].as_str().expect("workspace").to_owned(),
        })
        .collect();
    load_rules(&entries).expect("valid rules")
}

#[test]
fn rows_show_rules() {
    let app = App::init(
        "/r.toml".to_owned(),
        &vec![Rule::new("b", Some("t*"), "2").unwrap(), Rule::new("c", None, "3").unwrap()],
    );
    assert_eq!(app.rules.len(), 2);
    assert_eq!((app.rules[0].app_id.as_str(), app.rules[0].title.as_str()), ("b", "t*"));
    assert_eq!((app.rules[1].title.as_str(), app.rules[1].workspace.as_str()), ("", "3"));
    assert!(app.live.is_none() && app.dialog.is_none() && app.status.is_none() && !app.show_help);
}

#[test]
fn rows_are_trimmed_into_rules() {
    let rule = draft("  fire* ", " \t ", " 1,0 ").to_rule().expect("valid row");
    assert_eq!((rule.app_id.as_str(), rule.title, rule.workspace.as_str()), ("fire*", None, "1,0"));
    let rule = draft("a", " t ", "").to_rule().expect("valid row");
    assert_eq!(rule.title.as_deref(), Some("t"));
    assert_eq!(draft(" ", "t", "1").to_rule().unwrap_err().message(), "app_id is empty");
    assert_eq!(
        draft("[", "", "1").to_rule().unwrap_err().message(),
        "invalid app_id glob pattern '['"
    );
    // A rule made of a row is shown by a row that makes it again.
    let again = RuleDraft::from_rule(&rule).to_rule().unwrap();
    assert_eq!((again.app_id, again.title, again.workspace), (rule.app_id, rule.title, rule.workspace));
}

#[test]
fn saved_rules_are_loaded_back() {
    let drafts = vec![
        draft(" a ", "", "1"),
        draft("q\"uo\\te", "new\nline 'x' é", "tab\tbed"),
        draft("c", "*t*", ""),
    ];
    let plan = save_rules(&drafts).expect("valid rows");
    assert_eq!(plan.count, 3);
    let rules = loaded(&plan.body);
    assert_eq!(rules.len(), 3);
    for (rule, draft) in rules.iter().zip(&drafts) {
        let want = draft.to_rule().unwrap();
        assert_eq!((&rule.app_id, &rule.title, &rule.workspace), (&want.app_id, &want.title, &want.workspace));
    }
    assert_eq!(
        write_rules(&vec![Rule::new("a", Some("t"), "2").unwrap()]).unwrap(),
        "[[rules]]\napp_id = \"a\"\ntitle = \"t\"\nworkspace = \"2\"\n"
    );
    assert_eq!(save_rules(&vec![]).unwrap().body, "rules = []\n");
    assert_eq!(loaded(&save_rules(&vec![]).unwrap().body).len(), 0);
}

#[test]
fn first_bad_row_is_not_saved() {
    let error = save_rules(&vec![draft("a", "", "1"), draft("", "", "1"), draft("[", "", "1")]);
    assert_eq!(error.unwrap_err(), "rule not saved: app_id is empty");
    let error = save_rules(&vec![draft("[", "", "1")]);
    assert_eq!(error.unwrap_err(), "rule not saved: invalid app_id glob pattern '['");
    let rules = valid_rules(&vec![draft("a", "", "1"), draft("", "", "1"), draft("b", "", "2")]);
    assert_eq!(rules.iter().map(|r| r.app_id.as_str()).collect::<Vec<_>>(), ["a", "b"]);
}

#[test]
fn workspaces_are_referenced_by_name_id_or_coordinates() {
    assert_eq!(workspace_selector(&workspace("n", Some("i"), &[1])).as_deref(), Some("n"));
    assert_eq!(workspace_selector(&workspace("", Some("i"), &[1])).as_deref(), Some("i"));
    assert_eq!(workspace_selector(&workspace("", Some(""), &[1, 0])).as_deref(), Some("1,0"));
    assert_eq!(workspace_selector(&workspace("", None, &[])), None);
    for w in [workspace("n", None, &[]), workspace("", Some("i"), &[]), workspace("", None, &[3, 4])] {
        assert!(w.matches_selector(&workspace_selector(&w).unwrap()));
    }
}

#[test]
fn session_data_is_taken_in() {
    let mut app = app();
    app.live = None;
    app.status = Some("old".to_owned());
    assert!(matches!(app.update(Message::Refresh), Effect::FetchLive));
    assert!(matches!(app.update(Message::LiveLoaded(Ok(live()))), Effect::Nothing));
    assert!(app.status.is_none());
    assert_eq!(app.live.as_ref().unwrap().windows.len(), 1);
    app.update(Message::LiveLoaded(Err("no display".to_owned())));
    assert_eq!(status(&app), "could not read the COSMIC session: no display");
    assert_eq!(app.live.as_ref().unwrap().workspaces.len(), 0);
    let snapshot = Snapshot {
        workspaces: vec![workspace("w", None, &[])],
        windows: vec![WindowRecord {
            title: "T".to_owned(),
            app_id: "A".to_owned(),
            identifier: "I".to_owned(),
            output_names: vec![],
            output_handles: vec![],
            workspace_names: vec![],
            cosmic_toplevel: None,
            foreign_id: 1,
            active: false,
        }],
    };
    let data = LiveData::from_snapshot(snapshot);
    assert_eq!((data.windows[0].app_id.as_str(), data.windows[0].title.as_str()), ("A", "T"));
    assert_eq!(data.windows[0].identifier, "I");
    assert_eq!(data.workspaces[0].name, "w");
}

#[test]
fn rows_are_edited() {
    let mut app = app();
    app.update(Message::AppIdChanged(1, "x".to_owned()));
    app.update(Message::TitleChanged(0, "y".to_owned()));
    app.update(Message::AppIdChanged(9, "z".to_owned()));
    app.update(Message::TitleChanged(9, "z".to_owned()));
    assert_eq!((app.rules[0].app_id.as_str(), app.rules[0].title.as_str()), ("a", "y"));
    assert_eq!((app.rules[1].app_id.as_str(), app.rules[1].title.as_str()), ("x", "t*"));
    app.update(Message::AddRule);
    assert_eq!(app.rules.len(), 3);
    assert_eq!(app.rules[2].app_id, "");
    app.dialog = Some(Dialog::PickWorkspace { rule_index: 1 });
    app.update(Message::WorkspacePicked(1, 0));
    assert_eq!(app.rules[1].workspace, "one");
    assert!(app.dialog.is_none());
    // A workspace without a selector, or out of range, changes nothing.
    app.update(Message::WorkspacePicked(1, 1));
    app.update(Message::WorkspacePicked(1, 7));
    app.update(Message::WorkspacePicked(7, 0));
    assert_eq!(app.rules[1].workspace, "one");
    app.update(Message::WorkspacePicked(1, 2));
    assert_eq!(app.rules[1].workspace, "i");
}

#[test]
fn rules_are_saved_on_demand() {
    let mut app = app();
    let Effect::Write { plan, purpose } = app.update(Message::Save) else {
        panic!("there is something to write");
    };
    assert_eq!(plan.count, 2);
    assert_eq!(loaded(&plan.body).len(), 2);
    assert!(matches!(app.saved(purpose, Ok(2)), Effect::Nothing));
    assert_eq!(status(&app), "wrote 2 rule(s) to /r.toml");
    app.saved(SavePurpose::Save, Err("failed to write /r.toml: full".to_owned()));
    assert_eq!(status(&app), "failed to write /r.toml: full");
    app.update(Message::AddRule);
    assert!(matches!(app.update(Message::Save), Effect::Nothing));
    assert_eq!(status(&app), "rule not saved: app_id is empty");
}

#[test]
fn removal_is_confirmed_and_saved() {
    let mut app = app();
    app.update(Message::RemoveRule(0));
    let content = app.dialog().expect("a dialog");
    assert_eq!(content.title, "Remove rule?");
    assert_eq!(content.body, "Windows of \"a\" will no longer be moved.");
    assert!(content.choices.is_empty());
    let action = content.action.expect("an action");
    assert_eq!(action.label, "Remove");
    let Effect::Write { plan, purpose } = app.update(action.message.expect("enabled")) else {
        panic!("there is something to write");
    };
    assert_eq!((app.rules.len(), plan.count, app.dialog.is_none()), (1, 1, true));
    app.saved(purpose, Ok(1));
    assert_eq!(status(&app), "removed rule, saved 1 rule(s) total");
    app.saved(SavePurpose::Remove, Err("full".to_owned()));
    assert_eq!(status(&app), "rule removed but save failed: full");
    app.update(Message::RemoveRule(0));
    assert_eq!(app.dialog().unwrap().body, "Windows of \"b \u{2014} title t*\" will no longer be moved.");
    app.update(Message::RemoveRule(7));
    assert!(app.dialog().is_none());
    app.update(Message::AddRule);
    assert!(matches!(app.update(Message::RemoveRuleConfirmed(0)), Effect::Nothing));
    assert_eq!(status(&app), "rule removed but save failed: rule not saved: app_id is empty");
}

#[test]
fn rules_are_applied_on_demand() {
    let mut app = app();
    app.update(Message::AddRule);
    let Effect::ApplyRules(rules) = app.update(Message::ApplyNow) else {
        panic!("there are rules to apply");
    };
    assert_eq!(rules.len(), 2);
    app.update(Message::Applied(Ok(vec!["x".to_owned(), "y".to_owned()])));
    assert_eq!(status(&app), "moved 2 window(s): x; y");
    app.update(Message::Applied(Ok(vec![])));
    assert_eq!(status(&app), "no currently open windows match any rule");
    app.update(Message::Applied(Err("gone".to_owned())));
    assert_eq!(status(&app), "failed to apply rules: gone");
    app.rules.clear();
    assert!(matches!(app.update(Message::ApplyNow), Effect::Nothing));
    assert_eq!(status(&app), "nothing to apply: add at least one rule with an app_id");
}

#[test]
fn confirmed_move_creates_a_rule() {
    let mut app = app();
    app.update(app.live.as_ref().unwrap().windows[0].move_message());
    let content = app.dialog().expect("a dialog");
    assert_eq!(content.title, "Move window to workspace");
    assert_eq!(content.body, "Editor (code)\nChoose a workspace:");
    assert!(content.action.as_ref().unwrap().message.is_none());
    assert_eq!(content.choices.len(), 3);
    assert_eq!(content.choices[0].label, "one");
    assert_eq!(content.choices[0].caption, "coordinates 0 \u{b7} DP-1");
    assert_eq!(content.choices[1].label, "?");
    app.update(content.choices.into_iter().next().unwrap().message);
    let content = app.dialog().expect("a dialog");
    assert_eq!(content.body, "Editor (code)\nWill move to workspace one");
    assert_eq!(content.choices.iter().map(|c| c.selected).collect::<Vec<_>>(), [true, false, false]);
    let Effect::Write { plan, purpose } = app.update(content.action.unwrap().message.unwrap()) else {
        panic!("there is something to write");
    };
    assert_eq!(plan.count, 3);
    assert_eq!((app.rules[2].app_id.as_str(), app.rules[2].title.as_str()), ("code", ""));
    assert_eq!(app.rules[2].workspace, "one");
    let Effect::MoveWindow { window, workspace } = app.saved(purpose, Ok(3)) else {
        panic!("the window is moved");
    };
    assert_eq!((window.app_id.as_str(), workspace.as_str()), ("code", "one"));
    assert_eq!((window.title.as_str(), window.identifier.as_str()), ("Editor", "w2"));
    assert_eq!(status(&app), "created rule and saved 3 rule(s) total");
    app.update(Message::WindowMoved(Ok("it".to_owned())));
    assert_eq!(status(&app), "moved: it");
    app.update(Message::WindowMoved(Err("no".to_owned())));
    assert_eq!(status(&app), "failed to move window: no");
}

#[test]
fn window_is_moved_though_the_rules_are_not_saved() {
    let mut app = app();
    app.update(Message::AddRule);
    app.update(Message::MoveWindow(window("code", "", "w2")));
    app.update(Message::PendingMoveWorkspacePicked(0));
    assert!(matches!(app.update(Message::ConfirmMove), Effect::MoveWindow { .. }));
    assert_eq!(status(&app), "rule added but save failed: rule not saved: app_id is empty");
    let create = SavePurpose::Create {
        window: window("code", "", "w2"),
        workspace: "one".to_owned(),
    };
    assert!(matches!(app.saved(create, Err("full".to_owned())), Effect::MoveWindow { .. }));
    assert_eq!(status(&app), "rule added but save failed: full");
}

#[test]
fn moves_without_a_workspace_are_refused() {
    let mut app = app();
    let open = || Message::MoveWindow(window("code", "", "w2"));
    app.update(open());
    assert!(matches!(app.update(Message::ConfirmMove), Effect::Nothing));
    assert_eq!(status(&app), "no workspace selected");
    app.update(open());
    app.update(Message::PendingMoveWorkspacePicked(9));
    assert_eq!(app.dialog().unwrap().body, "code\nChoose a workspace:");
    app.update(Message::ConfirmMove);
    assert_eq!(status(&app), "no workspace selected");
    app.update(open());
    app.update(Message::PendingMoveWorkspacePicked(1));
    app.update(Message::ConfirmMove);
    assert_eq!(status(&app), "selected workspace has no selector");
    assert_eq!(app.rules.len(), 2);
    // Another dialog is closed, and nothing else happens.
    app.update(Message::PickWorkspace(0));
    app.update(Message::PendingMoveWorkspacePicked(0));
    assert!(matches!(app.dialog, Some(Dialog::PickWorkspace { rule_index: 0 })));
    app.update(Message::ConfirmMove);
    assert!(app.dialog.is_none());
    app.live = None;
    app.status = None;
    app.update(open());
    assert_eq!(status(&app), "session data not loaded \u{2014} press Refresh first");
    app.status = None;
    app.update(Message::PickWorkspace(0));
    assert_eq!(status(&app), "session data not loaded \u{2014} press Refresh first");
    assert!(app.dialog.is_none());
}

#[test]
fn workspace_picker_sets_the_row() {
    let mut app = app();
    app.update(Message::PickWorkspace(1));
    let content = app.dialog().expect("a dialog");
    assert_eq!(content.title, "Pick a workspace");
    assert_eq!(content.body, "Choose the workspace new windows matching this rule open on:");
    assert!(content.action.is_none());
    app.update(content.choices.into_iter().next().unwrap().message);
    assert_eq!(app.rules[1].workspace, "one");
    app.update(Message::PickWorkspace(1));
    app.update(Message::CloseDialog);
    assert!(app.dialog().is_none());
}

#[test]
fn notes_and_labels_are_shown() {
    let mut app = app();
    assert_eq!(app.rules_note(), None);
    assert_eq!(app.windows_note(), None);
    assert_eq!(app.status_row(), " ");
    app.status = Some("s".to_owned());
    assert_eq!(app.status_row(), "s");
    app.rules.clear();
    assert_eq!(app.rules_note(), Some("No rules yet — add one above, or click Move on a window."));
    app.live.as_mut().unwrap().windows.clear();
    assert_eq!(app.windows_note(), Some("No windows open."));
    app.live = None;
    assert_eq!(app.windows_note(), Some("Loading session…"));
    assert_eq!(draft("a", "", "").workspace_label(), "pick workspace");
    assert_eq!(draft("a", "", "3").workspace_label(), "3");
    let info = |title: &str| window("a", title, "");
    assert_eq!(info("").label(), "a");
    assert_eq!(info("t").label(), "a · t");
    app.update(Message::ToggleHelp);
    assert!(app.show_help);
    app.update(Message::ToggleHelp);
    assert!(!app.show_help);
    app.update(Message::ToggleHelp);
    app.update(Message::CloseHelp);
    assert!(!app.show_help);
    assert!(HELP_TEXT.starts_with("Each [[rules]] entry"));
}

#[test]
fn clicked_window_is_moved() {
    let toplevel = |app_id: &str, id: u32| ToplevelInfo {
        title: format!("T{id}"),
        app_id: app_id.to_owned(),
        identifier: format!("w{id}"),
        outputs: vec![],
        workspaces: HashSet::new(),
        cosmic_toplevel: Some(100 + id as u64),
        foreign_id: id,
        active: false,
    };
    let mut session = Session::connect(Compositor {
        workspaces: vec![WorkspaceInfo {
            handle: 1,
            name: "one".to_owned(),
            id: None,
            coordinates: vec![0],
        }],
        groups: vec![WorkspaceGroup { workspaces: [1].into_iter().collect(), outputs: vec![2] }],
        outputs: vec![OutputInfo { handle: 2, name: Some("DP-1".to_owned()) }],
        toplevels: vec![toplevel("x", 1), toplevel("code", 2), toplevel("code", 3)],
        seats: vec![],
        globals: vec![],
        manager_capabilities: vec![],
        workspace_done: true,
        manager_capabilities_ready: true,
    });
    let plan = move_window_to_workspace(&session, &window("code", "T2", "w2"), "one").unwrap();
    assert_eq!(plan.order.unwrap().toplevel, 102);
    assert_eq!(moved_window_text(&plan.result), "moved 'T2' to workspace 'one' on output 'DP-1'");
    // Another window of the same app is not taken for it.
    let plan = move_window_to_workspace(&session, &window("code", "T3", "w3"), "one").unwrap();
    assert_eq!(plan.order.unwrap().toplevel, 103);
    // The title may have changed since.
    let plan = move_window_to_workspace(&session, &window("code", "T2", "w3"), "one").unwrap();
    assert_eq!(plan.order.unwrap().toplevel, 103);
    let gone = |app_id: &str, identifier: &str| {
        move_window_to_workspace(&session, &window(app_id, "T2", identifier), "one")
            .unwrap_err()
            .message()
    };
    assert_eq!(gone("code", "w4"), "'code' is no longer open");
    assert_eq!(gone("Code", "w2"), "'Code' is no longer open");
    // Where identifiers tell nothing, the title does, and then the order.
    for toplevel in session.compositor.toplevels.iter_mut() {
        toplevel.identifier.clear();
    }
    let moved = |title: &str| {
        let plan = move_window_to_workspace(&session, &window("code", title, ""), "one").unwrap();
        plan.order.unwrap().toplevel
    };
    assert_eq!((moved("T2"), moved("T3"), moved("T9")), (102, 103, 102));
    let result = MoveResult {
        window_title: "T".to_owned(),
        window_app_id: "a".to_owned(),
        workspace_name: "2".to_owned(),
        output_name: "o".to_owned(),
    };
    assert_eq!(applied_move_text(&result), "'T' → workspace '2'");
}
