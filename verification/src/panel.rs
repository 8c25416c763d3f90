//! What the editor of the rules file shows.
use vstd::prelude::*;
use vstd::string::StringExecFns;

use crate::editor;
use crate::editor::{
    App, AppView, Dialog, DialogView, DraftView, InfoView, Message, RuleDraft, WindowInfo,
};
use crate::error;
use crate::error::{ErrorView, Problem, WmError};
use crate::list;
use crate::model;
use crate::records;
use crate::records::{WindowRecord, WindowView, WorkspaceRecord, WorkspaceView};
use crate::text;
use crate::wayland;
use crate::wayland::{MovePlan, MoveResult, PlanView, Session, Snapshot};

verus! {

/// A workspace that can be picked in a dialog.
#[derive(Debug)]
pub struct Choice {
    pub label: String,
    pub caption: String,
    pub selected: bool,
    /// What is told when it is picked.
    pub message: Message,
}

/// A workspace that can be picked, as contracts speak of it.
#[verifier::ext_equal]
pub struct ChoiceView {
    pub label: Seq<char>,
    pub caption: Seq<char>,
    pub selected: bool,
    pub message: Message,
}

impl View for Choice {
    type V = ChoiceView;

    open spec fn view(&self) -> ChoiceView {
        ChoiceView {
            label: self.label@,
            caption: self.caption@,
            selected: self.selected,
            message: self.message,
        }
    }
}

/// The button of a dialog that does more than close it. Without a message it
/// is disabled.
#[derive(Debug)]
pub struct DialogAction {
    pub label: &'static str,
    pub message: Option<Message>,
}

/// A dialog as it is shown.
#[derive(Debug)]
pub struct DialogContent {
    pub title: &'static str,
    pub body: String,
    pub choices: Vec<Choice>,
    pub action: Option<DialogAction>,
}

/// A shown dialog as contracts speak of it.
#[verifier::ext_equal]
pub struct ContentView {
    pub title: Seq<char>,
    pub body: Seq<char>,
    pub choices: Seq<ChoiceView>,
    pub action: Option<(Seq<char>, Option<Message>)>,
}

impl View for DialogContent {
    type V = ContentView;

    open spec fn view(&self) -> ContentView {
        ContentView {
            title: self.title@,
            body: self.body@,
            choices: self.choices@.map_values(|c: Choice| c@),
            action: match self.action {
                Some(action) => Some((action.label@, action.message)),
                None => None,
            },
        }
    }
}

/// The selector of a workspace as it is shown.
pub open spec fn choice_label(workspace: WorkspaceView) -> Seq<char> {
    match editor::selector_of(workspace) {
        Some(selector) => selector,
        None => "?"@,
    }
}

/// The details of a workspace as they are shown.
pub open spec fn choice_caption(workspace: WorkspaceView) -> Seq<char> {
    "coordinates "@ + model::coordinates_text(workspace.coordinates) + " \u{b7} "@
        + records::shown_list(workspace.output_names)
}

/// A window as the move dialog tells it.
pub open spec fn dialog_label(app_id: Seq<char>, title: Seq<char>) -> Seq<char> {
    if title.len() == 0 {
        app_id
    } else {
        title + " ("@ + app_id + ")"@
    }
}

/// A rule as the removal dialog tells it.
pub open spec fn removal_label(draft: DraftView) -> Seq<char> {
    if draft.title.len() == 0 {
        draft.app_id
    } else {
        draft.app_id + " \u{2014} title "@ + draft.title
    }
}

impl AppView {
    /// The workspaces that can be picked.
    pub open spec fn live_workspaces(self) -> Seq<WorkspaceView> {
        match self.live {
            Some(live) => live.workspaces,
            None => Seq::empty(),
        }
    }

    /// The choices of the move dialog.
    pub open spec fn move_choices(self, picked: Option<usize>) -> Seq<ChoiceView> {
        Seq::new(
            self.live_workspaces().len(),
            |i: int|
                ChoiceView {
                    label: choice_label(self.live_workspaces()[i]),
                    caption: choice_caption(self.live_workspaces()[i]),
                    selected: picked == Some(i as usize),
                    message: Message::PendingMoveWorkspacePicked(i as usize),
                },
        )
    }

    /// The choices of the dialog that picks a workspace for a rule.
    pub open spec fn rule_choices(self, rule_index: usize) -> Seq<ChoiceView> {
        Seq::new(
            self.live_workspaces().len(),
            |i: int|
                ChoiceView {
                    label: choice_label(self.live_workspaces()[i]),
                    caption: choice_caption(self.live_workspaces()[i]),
                    selected: false,
                    message: Message::WorkspacePicked(rule_index, i as usize),
                },
        )
    }

    /// The dialog as it is shown, if any.
    pub open spec fn dialog_view(self) -> Option<ContentView> {
        match self.dialog {
            None => None,
            Some(DialogView::MoveWindow { window, workspace }) => {
                let record = match workspace {
                    Some(index) => self.workspace_at(index),
                    None => None,
                };
                let picked = match record {
                    Some(record) => editor::selector_of(record),
                    None => None,
                };
                Some(
                    ContentView {
                        title: "Move window to workspace"@,
                        body: match picked {
                            Some(selector) => dialog_label(window.app_id, window.title)
                                + "\nWill move to workspace "@ + selector,
                            None => dialog_label(window.app_id, window.title)
                                + "\nChoose a workspace:"@,
                        },
                        choices: self.move_choices(workspace),
                        action: Some(
                            (
                                "Move & add rule"@,
                                if workspace is Some {
                                    Some(Message::ConfirmMove)
                                } else {
                                    None
                                },
                            ),
                        ),
                    },
                )
            },
            Some(DialogView::PickWorkspace { rule_index }) => Some(
                ContentView {
                    title: "Pick a workspace"@,
                    body: "Choose the workspace new windows matching this rule open on:"@,
                    choices: self.rule_choices(rule_index),
                    action: None,
                },
            ),
            Some(DialogView::ConfirmRemove { rule_index }) => if rule_index < self.rules.len() {
                Some(
                    ContentView {
                        title: "Remove rule?"@,
                        body: "Windows of \""@ + removal_label(self.rules[rule_index as int])
                            + "\" will no longer be moved."@,
                        choices: Seq::empty(),
                        action: Some(
                            ("Remove"@, Some(Message::RemoveRuleConfirmed(rule_index))),
                        ),
                    },
                )
            } else {
                None
            },
        }
    }
}

/// A workspace as a dialog shows it.
fn choice(workspace: &WorkspaceRecord, selected: bool, message: Message) -> (r: Choice)
    ensures
        r@ == (ChoiceView {
            label: choice_label(workspace@),
            caption: choice_caption(workspace@),
            selected,
            message,
        }),
{
    let label: String = match editor::workspace_selector(workspace) {
        Some(selector) => selector,
        None => "?".to_owned(),
    };
    let mut caption: String = "coordinates ".to_owned();
    caption.append(workspace.coordinates_string().as_str());
    caption.append(" \u{b7} ");
    caption.append(workspace.outputs_csv().as_str());
    Choice { label, caption, selected, message }
}

impl App {
    /// The choices of the move dialog.
    fn move_picker(&self, picked: Option<usize>) -> (r: Vec<Choice>)
        ensures
            r@.map_values(|c: Choice| c@) == self@.move_choices(picked),
    {
        let mut choices: Vec<Choice> = Vec::new();
        let ghost wanted = self@.move_choices(picked);
        if let Some(live) = &self.live {
            let mut i: usize = 0;
            while i < live.workspaces.len()
                invariant
                    self.live == Some(*live),
                    i <= live.workspaces.len(),
                    choices.len() == i,
                    wanted == self@.move_choices(picked),
                    forall|k: int| 0 <= k < i ==> (#[trigger] choices@[k])@ == wanted[k],
                decreases live.workspaces.len() - i,
            {
                assert(live@.workspaces[i as int] == live.workspaces@[i as int]@);
                let selected: bool = match picked {
                    Some(index) => index == i,
                    None => false,
                };
                choices.push(
                    choice(&live.workspaces[i], selected, Message::PendingMoveWorkspacePicked(i)),
                );
                i = i + 1;
            }
        }
        assert(choices@.map_values(|c: Choice| c@) =~= wanted);
        choices
    }

    /// The choices of the dialog that picks a workspace for a rule.
    fn rule_picker(&self, rule_index: usize) -> (r: Vec<Choice>)
        ensures
            r@.map_values(|c: Choice| c@) == self@.rule_choices(rule_index),
    {
        let mut choices: Vec<Choice> = Vec::new();
        let ghost wanted = self@.rule_choices(rule_index);
        if let Some(live) = &self.live {
            let mut i: usize = 0;
            while i < live.workspaces.len()
                invariant
                    self.live == Some(*live),
                    i <= live.workspaces.len(),
                    choices.len() == i,
                    wanted == self@.rule_choices(rule_index),
                    forall|k: int| 0 <= k < i ==> (#[trigger] choices@[k])@ == wanted[k],
                decreases live.workspaces.len() - i,
            {
                assert(live@.workspaces[i as int] == live.workspaces@[i as int]@);
                choices.push(
                    choice(
                        &live.workspaces[i],
                        false,
                        Message::WorkspacePicked(rule_index, i),
                    ),
                );
                i = i + 1;
            }
        }
        assert(choices@.map_values(|c: Choice| c@) =~= wanted);
        choices
    }

    /// The selector of a picked workspace, where it has one.
    fn picked_selector(&self, workspace: Option<usize>) -> (r: Option<String>)
        ensures
            text::opt_view(r) == (match workspace {
                Some(index) => match self@.workspace_at(index) {
                    Some(record) => editor::selector_of(record),
                    None => None,
                },
                None => None,
            }),
    {
        match workspace {
            Some(index) => match &self.live {
                Some(live) => if index < live.workspaces.len() {
                    assert(live@.workspaces[index as int] == live.workspaces@[index as int]@);
                    editor::workspace_selector(&live.workspaces[index])
                } else {
                    None
                },
                None => None,
            },
            None => None,
        }
    }

    /// The dialog as it is shown, if any.
    pub fn dialog(&self) -> (r: Option<DialogContent>)
        ensures
            match r {
                Some(content) => self@.dialog_view() == Some(content@),
                None => self@.dialog_view() is None,
            },
    {
        match &self.dialog {
            None => None,
            Some(Dialog::MoveWindow { window, workspace }) => {
                let mut body: String = if window.title.as_str().is_empty() {
                    window.app_id.clone()
                } else {
                    let mut label: String = window.title.clone();
                    label.append(" (");
                    label.append(window.app_id.as_str());
                    label.append(")");
                    label
                };
                match self.picked_selector(*workspace) {
                    Some(selector) => {
                        body.append("\nWill move to workspace ");
                        body.append(selector.as_str());
                    },
                    None => {
                        body.append("\nChoose a workspace:");
                    },
                }
                let message: Option<Message> = match workspace {
                    Some(_) => Some(Message::ConfirmMove),
                    None => None,
                };
                Some(
                    DialogContent {
                        title: "Move window to workspace",
                        body,
                        choices: self.move_picker(*workspace),
                        action: Some(DialogAction { label: "Move & add rule", message }),
                    },
                )
            },
            Some(Dialog::PickWorkspace { rule_index }) => Some(
                DialogContent {
                    title: "Pick a workspace",
                    body: "Choose the workspace new windows matching this rule open on:".to_owned(),
                    choices: self.rule_picker(*rule_index),
                    action: None,
                },
            ),
            Some(Dialog::ConfirmRemove { rule_index }) => {
                if *rule_index >= self.rules.len() {
                    return None;
                }
                let draft: &RuleDraft = &self.rules[*rule_index];
                assert(self@.rules[*rule_index as int] == draft@);
                let mut body: String = "Windows of \"".to_owned();
                body.append(draft.app_id.as_str());
                if !draft.title.as_str().is_empty() {
                    body.append(" \u{2014} title ");
                    body.append(draft.title.as_str());
                }
                body.append("\" will no longer be moved.");
                let content: DialogContent = DialogContent {
                    title: "Remove rule?",
                    body,
                    choices: Vec::new(),
                    action: Some(
                        DialogAction {
                            label: "Remove",
                            message: Some(Message::RemoveRuleConfirmed(*rule_index)),
                        },
                    ),
                };
                proof {
                    let label = removal_label(draft@);
                    assert(content@.body =~= "Windows of \""@ + label
                        + "\" will no longer be moved."@);
                    assert(content@.choices =~= Seq::empty());
                }
                Some(content)
            },
        }
    }

    /// What is shown in place of the rules where there are none.
    pub fn rules_note(&self) -> (r: Option<&'static str>)
        ensures
            match r {
                Some(note) => self@.rules.len() == 0 && note@
                    == "No rules yet \u{2014} add one above, or click Move on a window."@,
                None => self@.rules.len() > 0,
            },
    {
        if self.rules.len() == 0 {
            Some("No rules yet \u{2014} add one above, or click Move on a window.")
        } else {
            None
        }
    }

    /// What is shown in place of the windows where there are none to show.
    pub fn windows_note(&self) -> (r: Option<&'static str>)
        ensures
            match r {
                Some(note) => match self@.live {
                    Some(live) => live.windows.len() == 0 && note@ == "No windows open."@,
                    None => note@ == "Loading session\u{2026}"@,
                },
                None => self@.live matches Some(live) && live.windows.len() > 0,
            },
    {
        match &self.live {
            Some(live) => if live.windows.len() == 0 {
                Some("No windows open.")
            } else {
                None
            },
            None => Some("Loading session\u{2026}"),
        }
    }

    /// The status line; a blank keeps its place where there is nothing to say.
    pub fn status_row(&self) -> (r: &str)
        ensures
            r@ == (match self@.status {
                Some(status) => status,
                None => " "@,
            }),
    {
        match &self.status {
            Some(status) => status.as_str(),
            None => " ",
        }
    }
}

impl RuleDraft {
    /// The label of the button that picks the workspace of the row.
    pub fn workspace_label(&self) -> (r: &str)
        ensures
            r@ == (if self@.workspace.len() == 0 {
                "pick workspace"@
            } else {
                self@.workspace
            }),
    {
        if self.workspace.as_str().is_empty() {
            "pick workspace"
        } else {
            self.workspace.as_str()
        }
    }
}

impl WindowInfo {
    /// The window as the list of open windows tells it.
    pub fn label(&self) -> (r: String)
        ensures
            r@ == (if self@.title.len() == 0 {
                self@.app_id
            } else {
                self@.app_id + " \u{b7} "@ + self@.title
            }),
    {
        let mut out: String = self.app_id.clone();
        if !self.title.as_str().is_empty() {
            out.append(" \u{b7} ");
            out.append(self.title.as_str());
        }
        out
    }

    /// What is told when the window is to be moved.
    pub fn move_message(&self) -> (r: Message)
        ensures
            r matches Message::MoveWindow(window) && window@ == self@,
    {
        Message::MoveWindow(self.clone())
    }
}

/// May the window be the one that was clicked? Its title may have changed.
pub open spec fn may_be_clicked(window: WindowView, clicked: InfoView) -> bool {
    window.identifier == clicked.identifier && window.app_id == clicked.app_id
}

/// The position of the window that was clicked. Where identifiers do not tell
/// windows apart, one that still has the title is taken before the others.
pub open spec fn clicked_window(windows: Seq<WindowView>, clicked: InfoView) -> Option<int> {
    match list::first_where(
        windows,
        |w: WindowView| may_be_clicked(w, clicked) && w.title == clicked.title,
    ) {
        Some(i) => Some(i),
        None => list::first_where(windows, |w: WindowView| may_be_clicked(w, clicked)),
    }
}

/// The move of the window that was clicked.
pub open spec fn clicked_move_plan(
    compositor: wayland::CompositorView,
    clicked: InfoView,
    workspace: Seq<char>,
) -> Result<PlanView, ErrorView> {
    let windows = compositor.snapshot_view().windows;
    match clicked_window(windows, clicked) {
        Some(i) => wayland::record_plan(compositor, windows[i], workspace, None, false),
        None => Err(Problem::NotOpen { app_id: clicked.app_id }),
    }
}

/// The position of the window that was clicked.
fn find_clicked(windows: &Vec<WindowRecord>, clicked: &WindowInfo) -> (r: Option<usize>)
    ensures
        match r {
            Some(i) => clicked_window(records::window_views(windows@), clicked@) == Some(i as int)
                && i < windows.len(),
            None => clicked_window(records::window_views(windows@), clicked@) is None,
        },
{
    let ghost all = records::window_views(windows@);
    let ghost same = |w: WindowView| may_be_clicked(w, clicked@);
    let ghost exact = |w: WindowView| may_be_clicked(w, clicked@) && w.title == clicked@.title;
    let mut first: Option<usize> = None;
    let mut i: usize = 0;
    while i < windows.len()
        invariant
            i <= windows.len(),
            all == records::window_views(windows@),
            same == (|w: WindowView| may_be_clicked(w, clicked@)),
            exact == (|w: WindowView| may_be_clicked(w, clicked@) && w.title == clicked@.title),
            list::first_from(all, exact, 0) == list::first_from(all, exact, i as int),
            match first {
                Some(k) => k < i && list::first_from(all, same, 0) == Some(k as int),
                None => list::first_from(all, same, 0) == list::first_from(all, same, i as int),
            },
        decreases windows.len() - i,
    {
        let window: &WindowRecord = &windows[i];
        assert(all[i as int] == window@);
        if text::same_text(window.identifier.as_str(), clicked.identifier.as_str())
            && text::same_text(window.app_id.as_str(), clicked.app_id.as_str()) {
            if text::same_text(window.title.as_str(), clicked.title.as_str()) {
                return Some(i);
            }
            if first.is_none() {
                first = Some(i);
            }
        }
        i = i + 1;
    }
    first
}

/// The move of the window that was clicked.
pub fn move_window_to_workspace(session: &Session, clicked: &WindowInfo, workspace: &str) -> (r:
    Result<MovePlan, WmError>)
    ensures
        error::outcome(r) == clicked_move_plan(session.compositor@, clicked@, workspace@),
        r matches Ok(plan) ==> plan.order is Some,
{
    let snapshot: Snapshot = session.snapshot();
    match find_clicked(&snapshot.windows, clicked) {
        Some(i) => {
            let window: &WindowRecord = &snapshot.windows[i];
            assert(snapshot@.windows[i as int] == window@);
            session.move_window_record(window, workspace, false)
        },
        None => Err(Problem::NotOpen { app_id: clicked.app_id.clone() }),
    }
}

/// The window that was clicked is the one that is moved, whatever other
/// windows of its app are open and whatever its title is by then, where no
/// other window has its identifier.
pub proof fn law_clicked_window_is_moved(
    compositor: wayland::CompositorView,
    clicked: InfoView,
    workspace: Seq<char>,
    i: int,
)
    requires
        ({
            let windows = compositor.snapshot_view().windows;
            &&& 0 <= i < windows.len()
            &&& may_be_clicked(windows[i], clicked)
            &&& forall|j: int|
                0 <= j < windows.len() && j != i ==> (#[trigger] windows[j]).identifier
                    != clicked.identifier
        }),
    ensures
        clicked_move_plan(compositor, clicked, workspace) == wayland::record_plan(
            compositor,
            compositor.snapshot_view().windows[i],
            workspace,
            None,
            false,
        ),
{
    let windows = compositor.snapshot_view().windows;
    let same = |w: WindowView| may_be_clicked(w, clicked);
    let exact = |w: WindowView| may_be_clicked(w, clicked) && w.title == clicked.title;
    list::lemma_first_from(windows, same, 0);
    list::lemma_first_from(windows, exact, 0);
    assert(same(windows[i]));
}

/// Where nothing has changed since the click, what is moved looks as what was
/// clicked did, also where identifiers do not tell windows apart.
pub proof fn law_clicked_window_is_unchanged(windows: Seq<WindowView>, i: int)
    requires
        0 <= i < windows.len(),
    ensures
        ({
            let clicked = InfoView::of_window(windows[i]);
            clicked_window(windows, clicked) matches Some(k) && 0 <= k <= i
                && InfoView::of_window(windows[k]) == clicked
        }),
{
    let clicked = InfoView::of_window(windows[i]);
    let exact = |w: WindowView| may_be_clicked(w, clicked) && w.title == clicked.title;
    list::lemma_first_from(windows, exact, 0);
    assert(exact(windows[i]));
}

/// What the editor tells of a window that it moved.
pub fn moved_window_text(result: &MoveResult) -> (r: String)
    ensures
        r@ == "moved '"@ + result@.window_title + "' to workspace '"@ + result@.workspace_name
            + "' on output '"@ + result@.output_name + "'"@,
{
    let mut out: String = "moved '".to_owned();
    out.append(result.window_title.as_str());
    out.append("' to workspace '");
    out.append(result.workspace_name.as_str());
    out.append("' on output '");
    out.append(result.output_name.as_str());
    out.append("'");
    out
}

/// What the editor tells of a window that a rule moved.
pub fn applied_move_text(result: &MoveResult) -> (r: String)
    ensures
        r@ == "'"@ + result@.window_title + "' \u{2192} workspace '"@ + result@.workspace_name
            + "'"@,
{
    let mut out: String = "'".to_owned();
    out.append(result.window_title.as_str());
    out.append("' \u{2192} workspace '");
    out.append(result.workspace_name.as_str());
    out.append("'");
    out
}

/// The move of a window can be confirmed exactly when a workspace has been
/// picked.
pub proof fn law_confirm_needs_pick(app: AppView, window: InfoView, workspace: Option<usize>)
    requires
        app.dialog == Some(DialogView::MoveWindow { window, workspace }),
    ensures
        ({
            let content = app.dialog_view()->0;
            content.action matches Some(action) && (action.1 == Some(Message::ConfirmMove)
                <==> workspace is Some) && (action.1 is None <==> workspace is None)
        }),
{
}

/// A removal that a dialog offers is one of a rule that is there.
pub proof fn law_offered_removal_is_safe(app: AppView, index: usize)
    requires
        app.dialog_view() matches Some(content) && content.action matches Some(action)
            && action.1 == Some(Message::RemoveRuleConfirmed(index)),
    ensures
        index < app.rules.len(),
{
}

/// The window that was clicked is moved for real, to the workspace that was
/// asked for: what is sent serves the move of an open window with its
/// identifier and its app_id, of the first that has its title too where there
/// is one, and of the first otherwise. Where no such window is open that is
/// told and nothing is sent.
pub proof fn law_clicked_move_is_served(
    compositor: wayland::CompositorView,
    clicked: InfoView,
    workspace: Seq<char>,
)
    ensures
        ({
            let windows = compositor.snapshot_view().windows;
            let planned = clicked_move_plan(compositor, clicked, workspace);
            let known = |w: WindowView|
                w.identifier == clicked.identifier && w.app_id == clicked.app_id;
            &&& (forall|j: int| 0 <= j < windows.len() ==> !known(#[trigger] windows[j]))
                ==> planned == Err::<PlanView, ErrorView>(
                Problem::NotOpen { app_id: clicked.app_id },
            )
            &&& forall|i: int|
                {
                    &&& 0 <= i < windows.len()
                    &&& known(#[trigger] windows[i])
                    &&& forall|j: int|
                        0 <= j < i && known(#[trigger] windows[j]) ==> windows[j].title
                            != clicked.title
                    &&& windows[i].title == clicked.title || ((forall|j: int|
                        0 <= j < windows.len() && known(#[trigger] windows[j])
                            ==> windows[j].title != clicked.title) && (forall|j: int|
                        0 <= j < i ==> !known(#[trigger] windows[j])))
                } ==> {
                    &&& planned is Ok <==> wayland::is_movable(
                        compositor,
                        windows[i],
                        workspace,
                        None,
                    )
                    &&& planned matches Ok(plan) ==> plan.order is Some && wayland::serves(
                        compositor,
                        windows[i],
                        workspace,
                        None,
                        false,
                        plan,
                    )
                }
        }),
{
    let windows = compositor.snapshot_view().windows;
    let known = |w: WindowView| w.identifier == clicked.identifier && w.app_id == clicked.app_id;
    let same = |w: WindowView| may_be_clicked(w, clicked);
    let exact = |w: WindowView| may_be_clicked(w, clicked) && w.title == clicked.title;
    list::lemma_first_from(windows, same, 0);
    list::lemma_first_from(windows, exact, 0);
    if forall|j: int| 0 <= j < windows.len() ==> !known(#[trigger] windows[j]) {
        if let Some(k) = list::first_where(windows, same) {
            assert(same(windows[k]));
            assert(!known(windows[k]));
        }
        if let Some(k) = list::first_where(windows, exact) {
            assert(exact(windows[k]));
            assert(!known(windows[k]));
        }
    }
    assert forall|i: int|
        {
            &&& 0 <= i < windows.len()
            &&& known(#[trigger] windows[i])
            &&& forall|j: int|
                0 <= j < i && known(#[trigger] windows[j]) ==> windows[j].title != clicked.title
            &&& windows[i].title == clicked.title || ((forall|j: int|
                0 <= j < windows.len() && known(#[trigger] windows[j]) ==> windows[j].title
                    != clicked.title) && (forall|j: int|
                0 <= j < i ==> !known(#[trigger] windows[j])))
        } implies clicked_window(windows, clicked) == Some(i) by {
        assert(same(windows[i]));
        match list::first_where(windows, exact) {
            Some(k) => {
                assert(exact(windows[k]));
                assert(known(windows[k]));
                if i < k {
                    assert(!exact(windows[i]));
                }
            },
            None => {
                assert(!exact(windows[i]));
                let k = list::first_where(windows, same)->0;
                assert(same(windows[k]));
                assert(known(windows[k]));
                if i < k {
                    assert(!same(windows[i]));
                }
            },
        }
    }
    if let Some(i) = clicked_window(windows, clicked) {
        wayland::law_move_is_served(compositor, windows[i], workspace, None, false);
    }
}

/// In a dialog that picks a workspace each live workspace can be picked, in
/// their order. Its choice shows the selector that refers to it, and picking it
/// picks this workspace, in the move dialog for the window and in the other for
/// the row that the dialog was opened for. Only the one that has been picked
/// for the window is marked.
pub proof fn law_each_workspace_can_be_picked(app: AppView, i: int)
    requires
        app.live is Some,
        0 <= i < app.live->0.workspaces.len(),
        i <= usize::MAX,
    ensures
        ({
            let workspaces = app.live->0.workspaces;
            let content = app.dialog_view()->0;
            &&& app.dialog matches Some(DialogView::MoveWindow { window, workspace }) ==> {
                &&& content.choices.len() == workspaces.len()
                &&& content.choices[i].message == Message::PendingMoveWorkspacePicked(i as usize)
                &&& content.choices[i].selected <==> (workspace matches Some(picked) && picked
                    == i)
                &&& editor::selector_of(workspaces[i]) matches Some(selector)
                    ==> content.choices[i].label == selector
            }
            &&& app.dialog matches Some(DialogView::PickWorkspace { rule_index }) ==> {
                &&& content.choices.len() == workspaces.len()
                &&& content.choices[i].message == Message::WorkspacePicked(rule_index, i as usize)
                &&& !content.choices[i].selected
                &&& content.action is None
                &&& editor::selector_of(workspaces[i]) matches Some(selector)
                    ==> content.choices[i].label == selector
            }
        }),
{
}

/// What a choice for a row shows is what the row refers to once it is picked.
pub proof fn law_choice_is_taken(app: AppView, rule_index: usize, i: int)
    requires
        app.live is Some,
        0 <= i < app.live->0.workspaces.len(),
        i <= usize::MAX,
        app.dialog == Some(DialogView::PickWorkspace { rule_index }),
        rule_index < app.rules.len(),
        editor::selector_of(app.live->0.workspaces[i]) is Some,
    ensures
        ({
            let choice = app.dialog_view()->0.choices[i];
            let later = app.updated(choice.message).0;
            later.rules[rule_index as int].workspace == choice.label
        }),
{
}

/// The dialog that asks whether to remove a row is shown exactly where the row
/// is there, speaks of that row, and removes that row when it is confirmed.
pub proof fn law_removal_dialog(app: AppView, rule_index: usize)
    requires
        app.dialog == Some(DialogView::ConfirmRemove { rule_index }),
    ensures
        app.dialog_view() is Some <==> rule_index < app.rules.len(),
        rule_index < app.rules.len() ==> {
            let content = app.dialog_view()->0;
            &&& content.action matches Some(action)
            &&& action.1 == Some(Message::RemoveRuleConfirmed(rule_index))
            &&& content.choices.len() == 0
            &&& text::contains_text(content.body, app.rules[rule_index as int].app_id)
            &&& text::contains_text(content.body, app.rules[rule_index as int].title)
        },
{
    if rule_index < app.rules.len() {
        let draft = app.rules[rule_index as int];
        let body = app.dialog_view()->0.body;
        let n = "Windows of \""@.len() as int;
        let m = draft.app_id.len() as int;
        assert(body.subrange(n, n + m) =~= draft.app_id);
        assert(text::occurs_at(body, draft.app_id, n));
        if draft.title.len() == 0 {
            assert(body.subrange(0, 0) =~= draft.title);
            assert(text::occurs_at(body, draft.title, 0));
        } else {
            let k = n + m + " \u{2014} title "@.len();
            assert(body.subrange(k, k + draft.title.len()) =~= draft.title);
            assert(text::occurs_at(body, draft.title, k));
        }
    }
}

/// The move dialog speaks of the window that it is for, and of the workspace
/// that has been picked, where one has been.
pub proof fn law_move_dialog(app: AppView, window: InfoView, workspace: Option<usize>)
    requires
        app.dialog == Some(DialogView::MoveWindow { window, workspace }),
    ensures
        app.dialog_view() matches Some(content) && text::contains_text(content.body, window.app_id)
            && text::contains_text(content.body, window.title),
        workspace matches Some(index) ==> (app.live matches Some(live) ==> (index
            < live.workspaces.len() ==> (editor::selector_of(
            live.workspaces[index as int],
        ) matches Some(selector) ==> text::contains_text(app.dialog_view()->0.body, selector)))),
{
    let body = app.dialog_view()->0.body;
    let label = dialog_label(window.app_id, window.title);
    if window.title.len() == 0 {
        assert(body.subrange(0, window.app_id.len() as int) =~= window.app_id);
        assert(text::occurs_at(body, window.app_id, 0));
        assert(body.subrange(0, 0) =~= window.title);
        assert(text::occurs_at(body, window.title, 0));
    } else {
        let n = (window.title.len() + " ("@.len()) as int;
        assert(body.subrange(0, window.title.len() as int) =~= window.title);
        assert(text::occurs_at(body, window.title, 0));
        assert(body.subrange(n, n + window.app_id.len()) =~= window.app_id);
        assert(text::occurs_at(body, window.app_id, n));
    }
    if let Some(index) = workspace {
        if let Some(live) = app.live {
            if index < live.workspaces.len() {
                if let Some(selector) = editor::selector_of(live.workspaces[index as int]) {
                    let k = (label.len() + "\nWill move to workspace "@.len()) as int;
                    assert(body.subrange(k, k + selector.len()) =~= selector);
                    assert(text::occurs_at(body, selector, k));
                }
            }
        }
    }
}

/// A choice tells the coordinates and the outputs of its workspace.
pub proof fn law_choice_tells(workspace: WorkspaceView)
    ensures
        text::contains_text(
            choice_caption(workspace),
            model::coordinates_text(workspace.coordinates),
        ),
        text::contains_text(
            choice_caption(workspace),
            records::shown_list(workspace.output_names),
        ),
        editor::selector_of(workspace) is None ==> choice_label(workspace) == "?"@,
{
    let caption = choice_caption(workspace);
    let coordinates = model::coordinates_text(workspace.coordinates);
    let outputs = records::shown_list(workspace.output_names);
    let n = "coordinates "@.len() as int;
    assert(caption.subrange(n, n + coordinates.len()) =~= coordinates);
    assert(text::occurs_at(caption, coordinates, n));
    let m = caption.len() - outputs.len();
    assert(caption.subrange(m, m + outputs.len()) =~= outputs);
    assert(text::occurs_at(caption, outputs, m));
}

/// What contracts say of a shown dialog they say of its texts, its choices and
/// its button.
pub proof fn law_dialog_is_seen_as_it_is(content: DialogContent, i: int)
    ensures
        content@.title == content.title@,
        content@.body == content.body@,
        content@.choices.len() == content.choices@.len(),
        0 <= i < content.choices@.len() ==> {
            &&& content@.choices[i].label == content.choices@[i].label@
            &&& content@.choices[i].caption == content.choices@[i].caption@
            &&& content@.choices[i].selected == content.choices@[i].selected
            &&& content@.choices[i].message == content.choices@[i].message
        },
        content@.action is Some <==> content.action is Some,
        content.action matches Some(action) ==> content@.action == Some(
            (action.label@, action.message),
        ),
{
}

} // verus!
