//! The editor of the rules file.
//!
//! The editor takes in messages and answers each with what is to be done
//! outside: reading the session, writing the rules file, moving windows.
use vstd::prelude::*;
use vstd::string::StringExecFns;

use crate::decimal;
use crate::document;
use crate::error;
use crate::error::{ErrorView, Problem, WmError};
use crate::list;
use crate::model;
use crate::records;
use crate::records::{WindowRecord, WindowView, WorkspaceRecord, WorkspaceView};
use crate::rules;
use crate::rules::{Rule, RuleView};
use crate::text;
use crate::wayland::Snapshot;

verus! {

/// The rules reference shown in the help popup.
pub const HELP_TEXT: &'static str = r#"Each [[rules]] entry moves matching windows to a workspace:

    app_id      (required) glob against the window's app id,
                e.g. "firefox" or "com.mitchellh.ghostty"
    title       (optional) glob against the window's title
    workspace   (required) pick it in the UI; the saved TOML
                accepts a workspace name, id, or coordinates,
                e.g. "6" or "1,0"

Glob syntax:
    *              any sequence of characters
    ?              exactly one character
    [a-z0-9]       one character from a set or range
    [!abc]         any character NOT in the set
    everything else matches literally (dots, dashes, spaces)
    matching is case-sensitive; dots are not wildcards

Examples:
    app_id = "firefox"              every Firefox window
    app_id = "firefox", title = "*DevTools*"   only DevTools

Notes:
  - app_id and title must BOTH match for a rule to fire.
  - Rules created by clicking Move are app_id-only.
  - The daemon only matches a window within ~5s of it opening, so title
    rules need titles that are stable when the window appears.
  - Clicking Move on a window moves it now and creates + saves a rule.
  - Save persists manual edits. Apply now runs all rules against the
    windows currently open."#;

/// One editable rule row.
#[derive(Debug)]
pub struct RuleDraft {
    pub app_id: String,
    pub title: String,
    pub workspace: String,
}

/// A rule row as contracts speak of it.
#[verifier::ext_equal]
pub struct DraftView {
    pub app_id: Seq<char>,
    pub title: Seq<char>,
    pub workspace: Seq<char>,
}

impl View for RuleDraft {
    type V = DraftView;

    open spec fn view(&self) -> DraftView {
        DraftView { app_id: self.app_id@, title: self.title@, workspace: self.workspace@ }
    }
}

impl Default for RuleDraft {
    fn default() -> (r: Self)
        ensures
            r@ == (DraftView {
                app_id: Seq::empty(),
                title: Seq::empty(),
                workspace: Seq::empty(),
            }),
    {
        RuleDraft { app_id: String::new(), title: String::new(), workspace: String::new() }
    }
}

/// The views of a list of rule rows.
pub open spec fn draft_views(drafts: Seq<RuleDraft>) -> Seq<DraftView> {
    drafts.map_values(|d: RuleDraft| d@)
}

impl DraftView {
    /// The row that shows a rule.
    pub open spec fn of_rule(rule: RuleView) -> DraftView {
        DraftView {
            app_id: rule.app_id,
            title: match rule.title {
                Some(title) => title,
                None => Seq::empty(),
            },
            workspace: rule.workspace,
        }
    }

    /// The rule that the row stands for. White space around the fields does
    /// not count, and a blank title is none.
    pub open spec fn rule(self) -> Result<RuleView, ErrorView> {
        let app_id = text::trimmed(self.app_id);
        let title = text::trimmed(self.title);
        if app_id.len() == 0 {
            Err(Problem::EmptyAppId)
        } else {
            rules::rule_of(
                app_id,
                if title.len() == 0 {
                    None
                } else {
                    Some(title)
                },
                text::trimmed(self.workspace),
            )
        }
    }
}

impl RuleDraft {
    /// The row that shows a rule.
    pub fn from_rule(rule: &Rule) -> (r: Self)
        ensures
            r@ == DraftView::of_rule(rule@),
    {
        let title: String = match &rule.title {
            Some(title) => title.clone(),
            None => String::new(),
        };
        assert(title@ =~= DraftView::of_rule(rule@).title);
        RuleDraft { app_id: rule.app_id.clone(), title, workspace: rule.workspace.clone() }
    }

    /// The rule that the row stands for.
    pub fn to_rule(&self) -> (r: Result<Rule, WmError>)
        ensures
            error::outcome(r) == self@.rule(),
    {
        let app_id: &str = text::trim(self.app_id.as_str());
        if app_id.is_empty() {
            return Err(Problem::EmptyAppId);
        }
        let trimmed: &str = text::trim(self.title.as_str());
        let title: Option<&str> = if trimmed.is_empty() {
            None
        } else {
            Some(trimmed)
        };
        Rule::new(app_id, title, text::trim(self.workspace.as_str()))
    }
}

/// A running window, enough to identify and move it.
#[derive(Debug)]
pub struct WindowInfo {
    pub app_id: String,
    pub title: String,
    /// What tells the window apart from the others, also in another session.
    pub identifier: String,
}

/// A running window as contracts speak of it.
#[verifier::ext_equal]
pub struct InfoView {
    pub app_id: Seq<char>,
    pub title: Seq<char>,
    pub identifier: Seq<char>,
}

impl InfoView {
    /// What the editor keeps of a window.
    pub open spec fn of_window(window: WindowView) -> InfoView {
        InfoView { app_id: window.app_id, title: window.title, identifier: window.identifier }
    }
}

impl View for WindowInfo {
    type V = InfoView;

    open spec fn view(&self) -> InfoView {
        InfoView { app_id: self.app_id@, title: self.title@, identifier: self.identifier@ }
    }
}

impl Clone for WindowInfo {
    fn clone(&self) -> (r: Self)
        ensures
            r@ == self@,
    {
        WindowInfo {
            app_id: self.app_id.clone(),
            title: self.title.clone(),
            identifier: self.identifier.clone(),
        }
    }
}

/// What the modal dialog is currently showing.
#[derive(Debug)]
pub enum Dialog {
    /// Pick a workspace for a window, by its position among the workspaces.
    MoveWindow { window: WindowInfo, workspace: Option<usize> },
    /// Pick a workspace for a rule.
    PickWorkspace { rule_index: usize },
    /// Confirm removal of a rule.
    ConfirmRemove { rule_index: usize },
}

/// A dialog as contracts speak of it.
#[verifier::ext_equal]
pub enum DialogView {
    MoveWindow { window: InfoView, workspace: Option<usize> },
    PickWorkspace { rule_index: usize },
    ConfirmRemove { rule_index: usize },
}

impl View for Dialog {
    type V = DialogView;

    open spec fn view(&self) -> DialogView {
        match self {
            Dialog::MoveWindow { window, workspace } => DialogView::MoveWindow {
                window: window@,
                workspace: *workspace,
            },
            Dialog::PickWorkspace { rule_index } => DialogView::PickWorkspace {
                rule_index: *rule_index,
            },
            Dialog::ConfirmRemove { rule_index } => DialogView::ConfirmRemove {
                rule_index: *rule_index,
            },
        }
    }
}

/// What was read from the session.
#[derive(Debug)]
pub struct LiveData {
    /// Live workspaces, for the pickers.
    pub workspaces: Vec<WorkspaceRecord>,
    pub windows: Vec<WindowInfo>,
}

/// What was read from the session, as contracts speak of it.
#[verifier::ext_equal]
pub struct LiveView {
    pub workspaces: Seq<WorkspaceView>,
    pub windows: Seq<InfoView>,
}

impl View for LiveData {
    type V = LiveView;

    open spec fn view(&self) -> LiveView {
        LiveView {
            workspaces: records::workspace_views(self.workspaces@),
            windows: self.windows@.map_values(|w: WindowInfo| w@),
        }
    }
}

impl LiveData {
    /// What the editor keeps of a snapshot.
    pub fn from_snapshot(snapshot: Snapshot) -> (r: Self)
        ensures
            r@.workspaces == snapshot@.workspaces,
            r@.windows == snapshot@.windows.map_values(|w: WindowView| InfoView::of_window(w)),
    {
        let mut windows: Vec<WindowInfo> = Vec::new();
        let ghost wanted = snapshot@.windows.map_values(|w: WindowView| InfoView::of_window(w));
        let mut i: usize = 0;
        while i < snapshot.windows.len()
            invariant
                i <= snapshot.windows.len(),
                windows.len() == i,
                wanted == snapshot@.windows.map_values(|w: WindowView| InfoView::of_window(w)),
                forall|k: int| 0 <= k < i ==> (#[trigger] windows@[k])@ == wanted[k],
            decreases snapshot.windows.len() - i,
        {
            let window: &WindowRecord = &snapshot.windows[i];
            assert(snapshot@.windows[i as int] == window@);
            windows.push(
                WindowInfo {
                    app_id: window.app_id.clone(),
                    title: window.title.clone(),
                    identifier: window.identifier.clone(),
                },
            );
            i = i + 1;
        }
        assert(windows@.map_values(|w: WindowInfo| w@) =~= wanted);
        LiveData { workspaces: snapshot.workspaces, windows }
    }
}

/// The selector used to reference a workspace: name, id, or coordinates.
pub open spec fn selector_of(workspace: WorkspaceView) -> Option<Seq<char>> {
    if workspace.name.len() > 0 {
        Some(workspace.name)
    } else if workspace.id is Some && workspace.id->0.len() > 0 {
        workspace.id
    } else if workspace.coordinates.len() > 0 {
        Some(model::coordinates_text(workspace.coordinates))
    } else {
        None
    }
}

/// The selector used to reference a workspace: name, id, or coordinates.
pub fn workspace_selector(workspace: &WorkspaceRecord) -> (r: Option<String>)
    ensures
        text::opt_view(r) == selector_of(workspace@),
{
    if !workspace.name.as_str().is_empty() {
        return Some(workspace.name.clone());
    }
    if let Some(id) = &workspace.id {
        if !id.as_str().is_empty() {
            return Some(id.clone());
        }
    }
    if workspace.coordinates.len() > 0 {
        return Some(workspace.coordinates_string());
    }
    None
}

/// The selector of a workspace names that workspace.
pub proof fn law_selector_answers(workspace: WorkspaceView)
    requires
        selector_of(workspace) is Some,
    ensures
        workspace.answers(selector_of(workspace)->0),
{
    if workspace.coordinates.len() > 0 {
        model::law_coordinates_round_trip(workspace.coordinates);
    }
}

/// A rule that a row stands for is shown by a row that stands for it.
pub proof fn law_draft_of_rule(draft: DraftView)
    requires
        draft.rule() is Ok,
    ensures
        DraftView::of_rule(draft.rule()->Ok_0).rule() == draft.rule(),
{
    text::lemma_trimmed(draft.app_id);
    text::lemma_trimmed(draft.title);
    text::lemma_trimmed(draft.workspace);
    assert(text::trimmed(Seq::<char>::empty()) =~= Seq::empty());
}

/// A rules file that is ready to be written: its text, and how many rules it
/// holds.
#[derive(Debug)]
pub struct SavePlan {
    pub body: String,
    pub count: usize,
}

/// A rules file that is ready to be written, as contracts speak of it.
#[verifier::ext_equal]
pub struct SaveView {
    pub body: Seq<char>,
    pub count: nat,
}

impl View for SavePlan {
    type V = SaveView;

    open spec fn view(&self) -> SaveView {
        SaveView { body: self.body@, count: self.count as nat }
    }
}

/// The rules file that the rows stand for. The first row that stands for no
/// rule is told.
pub open spec fn save_plan(drafts: Seq<DraftView>) -> Result<SaveView, Seq<char>> {
    match list::first_where(drafts, |d: DraftView| d.rule() is Err) {
        Some(i) => Err("rule not saved: "@ + drafts[i].rule()->Err_0.text()),
        None => Ok(
            SaveView {
                body: document::rules_document(
                    drafts.map_values(|d: DraftView| d.rule()->Ok_0),
                ),
                count: drafts.len(),
            },
        ),
    }
}

/// The view of a result whose error is a text.
pub open spec fn text_outcome<T: View>(r: Result<T, String>) -> Result<T::V, Seq<char>> {
    match r {
        Ok(value) => Ok(value@),
        Err(e) => Err(e@),
    }
}

/// The rules file that the rows stand for.
pub fn save_rules(drafts: &Vec<RuleDraft>) -> (r: Result<SavePlan, String>)
    ensures
        text_outcome(r) == save_plan(draft_views(drafts@)),
{
    let ghost all = draft_views(drafts@);
    let ghost bad = |d: DraftView| d.rule() is Err;
    let ghost wanted = all.map_values(|d: DraftView| d.rule()->Ok_0);
    let mut found: Vec<Rule> = Vec::new();
    let mut i: usize = 0;
    while i < drafts.len()
        invariant
            i <= drafts.len(),
            found.len() == i,
            all == draft_views(drafts@),
            bad == (|d: DraftView| d.rule() is Err),
            wanted == all.map_values(|d: DraftView| d.rule()->Ok_0),
            list::first_from(all, bad, 0) == list::first_from(all, bad, i as int),
            forall|k: int| 0 <= k < i ==> (#[trigger] found@[k])@ == wanted[k],
        decreases drafts.len() - i,
    {
        assert(all[i as int] == drafts@[i as int]@);
        match drafts[i].to_rule() {
            Ok(rule) => found.push(rule),
            Err(e) => {
                let mut out: String = "rule not saved: ".to_owned();
                out.append(e.message().as_str());
                return Err(out);
            },
        }
        i = i + 1;
    }
    assert(rules::rule_views(found@) =~= wanted);
    match document::write_rules(&found) {
        Ok(body) => Ok(SavePlan { body, count: found.len() }),
        Err(e) => Err(e),
    }
}

/// The rules of the rows that stand for one.
pub open spec fn applicable_rules(drafts: Seq<DraftView>) -> Seq<RuleView> {
    drafts.filter(|d: DraftView| d.rule() is Ok).map_values(|d: DraftView| d.rule()->Ok_0)
}

/// The rules of the rows that stand for one.
pub fn valid_rules(drafts: &Vec<RuleDraft>) -> (r: Vec<Rule>)
    ensures
        rules::rule_views(r@) == applicable_rules(draft_views(drafts@)),
{
    let ghost all = draft_views(drafts@);
    let ghost good = |d: DraftView| d.rule() is Ok;
    let ghost made = |d: DraftView| d.rule()->Ok_0;
    let mut found: Vec<Rule> = Vec::new();
    let mut i: usize = 0;
    proof {
        reveal(Seq::filter);
        assert(rules::rule_views(found@) =~= all.take(0).filter(good).map_values(made));
    }
    while i < drafts.len()
        invariant
            i <= drafts.len(),
            all == draft_views(drafts@),
            good == (|d: DraftView| d.rule() is Ok),
            made == (|d: DraftView| d.rule()->Ok_0),
            rules::rule_views(found@) == all.take(i as int).filter(good).map_values(made),
        decreases drafts.len() - i,
    {
        let ghost before = found@;
        proof {
            list::lemma_filter_step(all, good, i as int);
            assert(all[i as int] == drafts@[i as int]@);
        }
        if let Ok(rule) = drafts[i].to_rule() {
            let ghost added = rule@;
            found.push(rule);
            proof {
                let kept = all.take(i as int).filter(good);
                assert(rules::rule_views(found@) =~= rules::rule_views(before).push(added));
                assert(kept.push(all[i as int]).map_values(made) =~= kept.map_values(made).push(
                    added,
                ));
            }
        }
        i = i + 1;
    }
    assert(all.take(i as int) =~= all);
    found
}

/// What the user or the session tells the editor.
#[derive(Debug)]
pub enum Message {
    /// Live session data arrived.
    LiveLoaded(Result<LiveData, String>),
    Refresh,
    AppIdChanged(usize, String),
    TitleChanged(usize, String),
    /// Set a rule's workspace from the workspace-picker dialog.
    WorkspacePicked(usize, usize),
    AddRule,
    /// Open a confirmation dialog before removing a rule.
    RemoveRule(usize),
    /// The removal was confirmed in the dialog.
    RemoveRuleConfirmed(usize),
    Save,
    ApplyNow,
    Applied(Result<Vec<String>, String>),
    /// Open the "move window to workspace" dialog for a window.
    MoveWindow(WindowInfo),
    /// Open the workspace-picker dialog for a rule.
    PickWorkspace(usize),
    /// A workspace was picked inside the move dialog.
    PendingMoveWorkspacePicked(usize),
    CloseDialog,
    /// Move the window and add + save a rule for its app_id.
    ConfirmMove,
    WindowMoved(Result<String, String>),
    ToggleHelp,
    CloseHelp,
}

/// Why the rules file is written.
#[derive(Debug)]
pub enum SavePurpose {
    /// A rule was removed.
    Remove,
    /// The user asked for it.
    Save,
    /// A rule was created for a window, which is moved once the file is
    /// written.
    Create { window: WindowInfo, workspace: String },
}

/// Why the rules file is written, as contracts speak of it.
#[verifier::ext_equal]
pub enum PurposeView {
    Remove,
    Save,
    Create { window: InfoView, workspace: Seq<char> },
}

impl View for SavePurpose {
    type V = PurposeView;

    open spec fn view(&self) -> PurposeView {
        match self {
            SavePurpose::Remove => PurposeView::Remove,
            SavePurpose::Save => PurposeView::Save,
            SavePurpose::Create { window, workspace } => PurposeView::Create {
                window: window@,
                workspace: workspace@,
            },
        }
    }
}

/// What is to be done outside of the editor.
#[derive(Debug)]
pub enum Effect {
    Nothing,
    /// Read the session; the answer is `LiveLoaded`.
    FetchLive,
    /// Write the rules file; the answer goes to [`App::saved`].
    Write { plan: SavePlan, purpose: SavePurpose },
    /// Apply the rules to the open windows; the answer is `Applied`.
    ApplyRules(Vec<Rule>),
    /// Move the window; the answer is `WindowMoved`.
    MoveWindow { window: WindowInfo, workspace: String },
}

/// What is to be done, as contracts speak of it.
#[verifier::ext_equal]
pub enum EffectView {
    Nothing,
    FetchLive,
    Write { plan: SaveView, purpose: PurposeView },
    ApplyRules(Seq<RuleView>),
    MoveWindow { window: InfoView, workspace: Seq<char> },
}

impl View for Effect {
    type V = EffectView;

    open spec fn view(&self) -> EffectView {
        match self {
            Effect::Nothing => EffectView::Nothing,
            Effect::FetchLive => EffectView::FetchLive,
            Effect::Write { plan, purpose } => EffectView::Write { plan: plan@, purpose: purpose@ },
            Effect::ApplyRules(rules) => EffectView::ApplyRules(rules::rule_views(rules@)),
            Effect::MoveWindow { window, workspace } => EffectView::MoveWindow {
                window: window@,
                workspace: workspace@,
            },
        }
    }
}

/// The editor.
#[derive(Debug)]
pub struct App {
    /// The path of the rules file, as it is shown.
    pub config_path: String,
    pub rules: Vec<RuleDraft>,
    pub live: Option<LiveData>,
    pub dialog: Option<Dialog>,
    pub show_help: bool,
    pub status: Option<String>,
}

/// The editor as contracts speak of it.
#[verifier::ext_equal]
pub struct AppView {
    pub config_path: Seq<char>,
    pub rules: Seq<DraftView>,
    pub live: Option<LiveView>,
    pub dialog: Option<DialogView>,
    pub show_help: bool,
    pub status: Option<Seq<char>>,
}

impl View for App {
    type V = AppView;

    open spec fn view(&self) -> AppView {
        AppView {
            config_path: self.config_path@,
            rules: draft_views(self.rules@),
            live: match self.live {
                Some(live) => Some(live@),
                None => None,
            },
            dialog: match self.dialog {
                Some(dialog) => Some(dialog@),
                None => None,
            },
            show_help: self.show_help,
            status: text::opt_view(self.status),
        }
    }
}

/// What is said where the session has not been read yet.
pub open spec fn not_loaded_text() -> Seq<char> {
    "session data not loaded \u{2014} press Refresh first"@
}

/// What is said of a set of moves.
pub open spec fn applied_text(result: Result<Seq<Seq<char>>, Seq<char>>) -> Seq<char> {
    match result {
        Ok(moves) => if moves.len() == 0 {
            "no currently open windows match any rule"@
        } else {
            "moved "@ + decimal::decimal(moves.len()) + " window(s): "@ + text::join_text(
                moves,
                "; "@,
            )
        },
        Err(error) => "failed to apply rules: "@ + error,
    }
}

/// What is said of an attempt to write the rules file.
pub open spec fn saved_text(
    purpose: PurposeView,
    config_path: Seq<char>,
    written: Result<nat, Seq<char>>,
) -> Seq<char> {
    match (purpose, written) {
        (PurposeView::Remove, Ok(n)) => "removed rule, saved "@ + decimal::decimal(n)
            + " rule(s) total"@,
        (PurposeView::Remove, Err(e)) => "rule removed but save failed: "@ + e,
        (PurposeView::Save, Ok(n)) => "wrote "@ + decimal::decimal(n) + " rule(s) to "@
            + config_path,
        (PurposeView::Save, Err(e)) => e,
        (PurposeView::Create { .. }, Ok(n)) => "created rule and saved "@ + decimal::decimal(n)
            + " rule(s) total"@,
        (PurposeView::Create { .. }, Err(e)) => "rule added but save failed: "@ + e,
    }
}

impl AppView {
    /// The editor with a status line.
    pub open spec fn saying(self, status: Seq<char>) -> AppView {
        AppView { status: Some(status), ..self }
    }

    /// The workspace at a position of the live list.
    pub open spec fn workspace_at(self, index: usize) -> Option<WorkspaceView> {
        match self.live {
            Some(live) => if index < live.workspaces.len() {
                Some(live.workspaces[index as int])
            } else {
                None
            },
            None => None,
        }
    }

    /// The editor once the attempt to write the rules file is over, and what
    /// is to be done then: a window that a rule was created for is moved.
    pub open spec fn after_write(
        self,
        purpose: PurposeView,
        written: Result<nat, Seq<char>>,
    ) -> (AppView, EffectView) {
        (
            self.saying(saved_text(purpose, self.config_path, written)),
            match purpose {
                PurposeView::Create { window, workspace } => EffectView::MoveWindow {
                    window,
                    workspace,
                },
                _ => EffectView::Nothing,
            },
        )
    }

    /// The editor once it is known whether there is something to write.
    pub open spec fn after_plan(
        self,
        purpose: PurposeView,
        plan: Result<SaveView, Seq<char>>,
    ) -> (AppView, EffectView) {
        match plan {
            Ok(plan) => (self, EffectView::Write { plan, purpose }),
            Err(e) => self.after_write(purpose, Err(e)),
        }
    }

    /// The editor once it is known which rules can be applied.
    pub open spec fn after_choice(self, rules: Seq<RuleView>) -> (AppView, EffectView) {
        if rules.len() == 0 {
            (
                self.saying("nothing to apply: add at least one rule with an app_id"@),
                EffectView::Nothing,
            )
        } else {
            (self, EffectView::ApplyRules(rules))
        }
    }

    /// The editor once the move of a window has been confirmed: a rule for
    /// its app_id is added and saved, and the window is moved.
    pub open spec fn after_confirm(self) -> (AppView, EffectView) {
        match self.dialog {
            Some(DialogView::MoveWindow { window, workspace }) => {
                let closed = AppView { dialog: None, ..self };
                let record = match workspace {
                    Some(index) => self.workspace_at(index),
                    None => None,
                };
                match record {
                    None => (closed.saying("no workspace selected"@), EffectView::Nothing),
                    Some(record) => match selector_of(record) {
                        None => (
                            closed.saying("selected workspace has no selector"@),
                            EffectView::Nothing,
                        ),
                        Some(selector) => {
                            let added = AppView {
                                rules: self.rules.push(
                                    DraftView {
                                        app_id: window.app_id,
                                        title: Seq::empty(),
                                        workspace: selector,
                                    },
                                ),
                                ..closed
                            };
                            added.after_plan(
                                PurposeView::Create { window, workspace: selector },
                                save_plan(added.rules),
                            )
                        },
                    },
                }
            },
            _ => (AppView { dialog: None, ..self }, EffectView::Nothing),
        }
    }

    /// The editor once a message has been taken in, and what is to be done.
    pub open spec fn updated(self, message: Message) -> (AppView, EffectView) {
        match message {
            Message::LiveLoaded(result) => (
                match result {
                    Ok(live) => AppView { status: None, live: Some(live@), ..self },
                    Err(error) => AppView {
                        status: Some("could not read the COSMIC session: "@ + error@),
                        live: Some(
                            LiveView { workspaces: Seq::empty(), windows: Seq::empty() },
                        ),
                        ..self
                    },
                },
                EffectView::Nothing,
            ),
            Message::Refresh => (self, EffectView::FetchLive),
            Message::AppIdChanged(index, value) => (
                if index < self.rules.len() {
                    let draft = self.rules[index as int];
                    AppView {
                        rules: self.rules.update(
                            index as int,
                            DraftView { app_id: value@, ..draft },
                        ),
                        ..self
                    }
                } else {
                    self
                },
                EffectView::Nothing,
            ),
            Message::TitleChanged(index, value) => (
                if index < self.rules.len() {
                    let draft = self.rules[index as int];
                    AppView {
                        rules: self.rules.update(
                            index as int,
                            DraftView { title: value@, ..draft },
                        ),
                        ..self
                    }
                } else {
                    self
                },
                EffectView::Nothing,
            ),
            Message::WorkspacePicked(rule_index, workspace_index) => {
                let pick = match self.workspace_at(workspace_index) {
                    Some(workspace) => selector_of(workspace),
                    None => None,
                };
                let closed = AppView { dialog: None, ..self };
                (
                    match pick {
                        Some(selector) => if rule_index < self.rules.len() {
                            let draft = self.rules[rule_index as int];
                            AppView {
                                rules: self.rules.update(
                                    rule_index as int,
                                    DraftView { workspace: selector, ..draft },
                                ),
                                ..closed
                            }
                        } else {
                            closed
                        },
                        None => closed,
                    },
                    EffectView::Nothing,
                )
            },
            Message::AddRule => (
                AppView {
                    rules: self.rules.push(
                        DraftView {
                            app_id: Seq::empty(),
                            title: Seq::empty(),
                            workspace: Seq::empty(),
                        },
                    ),
                    ..self
                },
                EffectView::Nothing,
            ),
            Message::RemoveRule(index) => (
                AppView {
                    dialog: Some(DialogView::ConfirmRemove { rule_index: index }),
                    ..self
                },
                EffectView::Nothing,
            ),
            Message::RemoveRuleConfirmed(index) => {
                let removed = AppView {
                    rules: self.rules.remove(index as int),
                    dialog: None,
                    ..self
                };
                removed.after_plan(PurposeView::Remove, save_plan(removed.rules))
            },
            Message::Save => self.after_plan(PurposeView::Save, save_plan(self.rules)),
            Message::ApplyNow => self.after_choice(applicable_rules(self.rules)),
            Message::Applied(result) => (
                self.saying(
                    applied_text(
                        match result {
                            Ok(moves) => Ok(text::views(moves@)),
                            Err(error) => Err(error@),
                        },
                    ),
                ),
                EffectView::Nothing,
            ),
            Message::MoveWindow(window) => (
                if self.live is None {
                    self.saying(not_loaded_text())
                } else {
                    AppView {
                        dialog: Some(
                            DialogView::MoveWindow { window: window@, workspace: None },
                        ),
                        ..self
                    }
                },
                EffectView::Nothing,
            ),
            Message::PickWorkspace(rule_index) => (
                if self.live is None {
                    self.saying(not_loaded_text())
                } else {
                    AppView { dialog: Some(DialogView::PickWorkspace { rule_index }), ..self }
                },
                EffectView::Nothing,
            ),
            Message::PendingMoveWorkspacePicked(index) => (
                match self.dialog {
                    Some(DialogView::MoveWindow { window, workspace }) => AppView {
                        dialog: Some(DialogView::MoveWindow { window, workspace: Some(index) }),
                        ..self
                    },
                    _ => self,
                },
                EffectView::Nothing,
            ),
            Message::CloseDialog => (AppView { dialog: None, ..self }, EffectView::Nothing),
            Message::ConfirmMove => self.after_confirm(),
            Message::WindowMoved(result) => (
                self.saying(
                    match result {
                        Ok(what) => "moved: "@ + what@,
                        Err(error) => "failed to move window: "@ + error@,
                    },
                ),
                EffectView::Nothing,
            ),
            Message::ToggleHelp => (
                AppView { show_help: !self.show_help, ..self },
                EffectView::Nothing,
            ),
            Message::CloseHelp => (AppView { show_help: false, ..self }, EffectView::Nothing),
        }
    }
}

/// `before` with `after` behind it.
fn joined(before: &str, after: &str) -> (r: String)
    ensures
        r@ == before@ + after@,
{
    let mut out: String = before.to_owned();
    out.append(after);
    out
}

/// `before`, a count, and `after`.
fn counted(before: &str, count: usize, after: &str) -> (r: String)
    ensures
        r@ == before@ + decimal::decimal(count as nat) + after@,
{
    let mut out: String = before.to_owned();
    out.append(decimal::decimal_text(count as u64).as_str());
    out.append(after);
    out
}

/// The view of the count of an attempt to write the rules file.
pub open spec fn count_outcome(written: Result<usize, String>) -> Result<nat, Seq<char>> {
    match written {
        Ok(n) => Ok(n as nat),
        Err(e) => Err(e@),
    }
}

impl App {
    /// The editor with the rules of the file, before the session is read.
    pub fn init(config_path: String, rules: &Vec<Rule>) -> (r: Self)
        ensures
            r@ == (AppView {
                config_path: config_path@,
                rules: rules::rule_views(rules@).map_values(|r: RuleView| DraftView::of_rule(r)),
                live: None,
                dialog: None,
                show_help: false,
                status: None,
            }),
    {
        let mut drafts: Vec<RuleDraft> = Vec::new();
        let ghost wanted = rules::rule_views(rules@).map_values(
            |r: RuleView| DraftView::of_rule(r),
        );
        let mut i: usize = 0;
        while i < rules.len()
            invariant
                i <= rules.len(),
                drafts.len() == i,
                wanted == rules::rule_views(rules@).map_values(
                    |r: RuleView| DraftView::of_rule(r),
                ),
                forall|k: int| 0 <= k < i ==> (#[trigger] drafts@[k])@ == wanted[k],
            decreases rules.len() - i,
        {
            drafts.push(RuleDraft::from_rule(&rules[i]));
            i = i + 1;
        }
        assert(draft_views(drafts@) =~= wanted);
        App {
            config_path,
            rules: drafts,
            live: None,
            dialog: None,
            show_help: false,
            status: None,
        }
    }

    /// Takes in how the attempt to write the rules file went.
    pub fn saved(&mut self, purpose: SavePurpose, written: Result<usize, String>) -> (r: Effect)
        ensures
            (final(self)@, r@) == old(self)@.after_write(purpose@, count_outcome(written)),
    {
        let status: String = match (&purpose, written) {
            (SavePurpose::Remove, Ok(n)) => counted("removed rule, saved ", n, " rule(s) total"),
            (SavePurpose::Remove, Err(e)) => joined("rule removed but save failed: ", e.as_str()),
            (SavePurpose::Save, Ok(n)) => joined(
                counted("wrote ", n, " rule(s) to ").as_str(),
                self.config_path.as_str(),
            ),
            (SavePurpose::Save, Err(e)) => e,
            (SavePurpose::Create { window: _, workspace: _ }, Ok(n)) => counted(
                "created rule and saved ",
                n,
                " rule(s) total",
            ),
            (SavePurpose::Create { window: _, workspace: _ }, Err(e)) => joined(
                "rule added but save failed: ",
                e.as_str(),
            ),
        };
        self.status = Some(status);
        match purpose {
            SavePurpose::Create { window, workspace } => Effect::MoveWindow { window, workspace },
            _ => Effect::Nothing,
        }
    }

    /// Takes in what there is to write.
    pub fn store(&mut self, purpose: SavePurpose, plan: Result<SavePlan, String>) -> (r: Effect)
        ensures
            (final(self)@, r@) == old(self)@.after_plan(purpose@, text_outcome(plan)),
    {
        match plan {
            Ok(plan) => Effect::Write { plan, purpose },
            Err(e) => self.saved(purpose, Err(e)),
        }
    }

    /// Takes in which rules can be applied.
    pub fn apply(&mut self, rules: Vec<Rule>) -> (r: Effect)
        ensures
            (final(self)@, r@) == old(self)@.after_choice(rules::rule_views(rules@)),
    {
        if rules.len() == 0 {
            self.status = Some(
                "nothing to apply: add at least one rule with an app_id".to_owned(),
            );
            return Effect::Nothing;
        }
        Effect::ApplyRules(rules)
    }

    /// The selector of the workspace at a position of the live list, where
    /// there is such a workspace and it has one.
    fn pick(&self, index: usize) -> (r: Option<Option<String>>)
        ensures
            match self@.workspace_at(index) {
                Some(workspace) => r matches Some(pick) && text::opt_view(pick) == selector_of(
                    workspace,
                ),
                None => r is None,
            },
    {
        match &self.live {
            Some(live) => if index < live.workspaces.len() {
                assert(live@.workspaces[index as int] == live.workspaces@[index as int]@);
                Some(workspace_selector(&live.workspaces[index]))
            } else {
                None
            },
            None => None,
        }
    }

    /// Takes in that the move of a window has been confirmed.
    fn confirm_move(&mut self) -> (r: Effect)
        ensures
            (final(self)@, r@) == old(self)@.after_confirm(),
    {
        let dialog: Option<Dialog> = self.dialog.take();
        match dialog {
            Some(Dialog::MoveWindow { window, workspace }) => {
                let pick: Option<Option<String>> = match workspace {
                    Some(index) => self.pick(index),
                    None => None,
                };
                match pick {
                    None => {
                        self.status = Some("no workspace selected".to_owned());
                        Effect::Nothing
                    },
                    Some(None) => {
                        self.status = Some("selected workspace has no selector".to_owned());
                        Effect::Nothing
                    },
                    Some(Some(selector)) => {
                        let ghost before = self@;
                        let draft: RuleDraft = RuleDraft {
                            app_id: window.app_id.clone(),
                            title: String::new(),
                            workspace: selector.clone(),
                        };
                        assert(draft.title@ =~= Seq::empty());
                        let ghost added = draft@;
                        self.rules.push(draft);
                        assert(self@.rules =~= before.rules.push(added));
                        let plan: Result<SavePlan, String> = save_rules(&self.rules);
                        self.store(SavePurpose::Create { window, workspace: selector }, plan)
                    },
                }
            },
            _ => Effect::Nothing,
        }
    }

    /// Takes in a message.
    pub fn update(&mut self, message: Message) -> (r: Effect)
        requires
            message matches Message::RemoveRuleConfirmed(index) ==> index < old(self).rules.len(),
        ensures
            (final(self)@, r@) == old(self)@.updated(message),
            message matches Message::RemoveRuleConfirmed(index) ==> final(self)@.rules == old(
                self,
            )@.rules.remove(index as int),
    {
        let ghost before = self@;
        match message {
            Message::LiveLoaded(result) => {
                match result {
                    Ok(live) => {
                        self.status = None;
                        self.live = Some(live);
                    },
                    Err(error) => {
                        self.live = Some(LiveData { workspaces: Vec::new(), windows: Vec::new() });
                        self.status = Some(
                            joined("could not read the COSMIC session: ", error.as_str()),
                        );
                        proof {
                            assert(self@.live->0.workspaces =~= Seq::empty());
                            assert(self@.live->0.windows =~= Seq::empty());
                        }
                    },
                }
                Effect::Nothing
            },
            Message::Refresh => Effect::FetchLive,
            Message::AppIdChanged(index, value) => {
                if index < self.rules.len() {
                    self.rules[index].app_id = value;
                    assert(self@.rules =~= before.updated(message).0.rules);
                }
                Effect::Nothing
            },
            Message::TitleChanged(index, value) => {
                if index < self.rules.len() {
                    self.rules[index].title = value;
                    assert(self@.rules =~= before.updated(message).0.rules);
                }
                Effect::Nothing
            },
            Message::WorkspacePicked(rule_index, workspace_index) => {
                if let Some(Some(selector)) = self.pick(workspace_index) {
                    if rule_index < self.rules.len() {
                        self.rules[rule_index].workspace = selector;
                        assert(self@.rules =~= before.updated(message).0.rules);
                    }
                }
                self.dialog = None;
                Effect::Nothing
            },
            Message::AddRule => {
                self.rules.push(RuleDraft::default());
                assert(self@.rules =~= before.updated(message).0.rules);
                Effect::Nothing
            },
            Message::RemoveRule(index) => {
                self.dialog = Some(Dialog::ConfirmRemove { rule_index: index });
                Effect::Nothing
            },
            Message::RemoveRuleConfirmed(index) => {
                self.rules.remove(index);
                assert(self@.rules =~= before.rules.remove(index as int));
                self.dialog = None;
                let plan: Result<SavePlan, String> = save_rules(&self.rules);
                self.store(SavePurpose::Remove, plan)
            },
            Message::Save => {
                let plan: Result<SavePlan, String> = save_rules(&self.rules);
                self.store(SavePurpose::Save, plan)
            },
            Message::ApplyNow => {
                let rules: Vec<Rule> = valid_rules(&self.rules);
                self.apply(rules)
            },
            Message::Applied(result) => {
                let status: String = match result {
                    Ok(moves) => if moves.len() == 0 {
                        "no currently open windows match any rule".to_owned()
                    } else {
                        joined(
                            counted("moved ", moves.len(), " window(s): ").as_str(),
                            text::join(&moves, "; ").as_str(),
                        )
                    },
                    Err(error) => joined("failed to apply rules: ", error.as_str()),
                };
                self.status = Some(status);
                Effect::Nothing
            },
            Message::MoveWindow(window) => {
                if self.live.is_none() {
                    self.status = Some(
                        "session data not loaded \u{2014} press Refresh first".to_owned(),
                    );
                } else {
                    self.dialog = Some(Dialog::MoveWindow { window, workspace: None });
                }
                Effect::Nothing
            },
            Message::PickWorkspace(rule_index) => {
                if self.live.is_none() {
                    self.status = Some(
                        "session data not loaded \u{2014} press Refresh first".to_owned(),
                    );
                } else {
                    self.dialog = Some(Dialog::PickWorkspace { rule_index });
                }
                Effect::Nothing
            },
            Message::PendingMoveWorkspacePicked(index) => {
                let dialog: Option<Dialog> = self.dialog.take();
                self.dialog = match dialog {
                    Some(Dialog::MoveWindow { window, workspace: _ }) => Some(
                        Dialog::MoveWindow { window, workspace: Some(index) },
                    ),
                    other => other,
                };
                Effect::Nothing
            },
            Message::CloseDialog => {
                self.dialog = None;
                Effect::Nothing
            },
            Message::ConfirmMove => self.confirm_move(),
            Message::WindowMoved(result) => {
                let status: String = match result {
                    Ok(what) => joined("moved: ", what.as_str()),
                    Err(error) => joined("failed to move window: ", error.as_str()),
                };
                self.status = Some(status);
                Effect::Nothing
            },
            Message::ToggleHelp => {
                self.show_help = !self.show_help;
                Effect::Nothing
            },
            Message::CloseHelp => {
                self.show_help = false;
                Effect::Nothing
            },
        }
    }
}

/// The rows are saved exactly when each of them stands for a rule; then all
/// of them are saved, and the table of each is read back as its rule.
pub proof fn law_saved_rows_read_back(drafts: Seq<DraftView>)
    ensures
        save_plan(drafts) is Ok <==> forall|i: int|
            0 <= i < drafts.len() ==> (#[trigger] drafts[i]).rule() is Ok,
        save_plan(drafts) matches Ok(plan) ==> {
            &&& plan.count == drafts.len()
            &&& forall|i: int|
                0 <= i < drafts.len() ==> (document::table_entry(
                    document::rule_table((#[trigger] drafts[i]).rule()->Ok_0),
                ) matches Some(entry) && entry.rule() == drafts[i].rule())
        },
{
    list::lemma_first_from(drafts, |d: DraftView| d.rule() is Err, 0);
    if save_plan(drafts) is Ok {
        assert forall|i: int| 0 <= i < drafts.len() implies (document::table_entry(
            document::rule_table((#[trigger] drafts[i]).rule()->Ok_0),
        ) matches Some(entry) && entry.rule() == drafts[i].rule()) by {
            let draft = drafts[i];
            let title = text::trimmed(draft.title);
            document::law_rule_read_back(
                text::trimmed(draft.app_id),
                if title.len() == 0 {
                    None
                } else {
                    Some(title)
                },
                text::trimmed(draft.workspace),
            );
        }
    }
}

/// Whatever the editor is told, the rules file is written only where each row
/// stands for a rule, and then it is the file of all rows.
pub proof fn law_bad_rows_write_nothing(app: AppView, message: Message)
    requires
        message matches Message::RemoveRuleConfirmed(index) ==> index < app.rules.len(),
    ensures
        ({
            let (later, effect) = app.updated(message);
            effect matches EffectView::Write { plan, purpose } ==> save_plan(later.rules) == Ok::<
                SaveView,
                Seq<char>,
            >(plan) && forall|i: int|
                0 <= i < later.rules.len() ==> (#[trigger] later.rules[i]).rule() is Ok
        }),
{
    let (later, effect) = app.updated(message);
    list::lemma_first_from(later.rules, |d: DraftView| d.rule() is Err, 0);
}

/// A confirmed move to a workspace that has a selector adds one rule, for the
/// app_id of the window alone, and the window for which the dialog was opened
/// is moved there, whatever the attempt to save the rules comes to.
pub proof fn law_confirmed_move(
    app: AppView,
    window: InfoView,
    index: usize,
    written: Result<nat, Seq<char>>,
)
    requires
        app.dialog == Some(DialogView::MoveWindow { window, workspace: Some(index) }),
        app.workspace_at(index) matches Some(workspace) && selector_of(workspace) is Some,
    ensures
        ({
            let selector = selector_of(app.workspace_at(index)->0)->0;
            let (later, effect) = app.updated(Message::ConfirmMove);
            let moving = EffectView::MoveWindow { window, workspace: selector };
            &&& later.dialog is None
            &&& later.rules == app.rules.push(
                DraftView { app_id: window.app_id, title: Seq::empty(), workspace: selector },
            )
            &&& effect == moving || (effect matches EffectView::Write { plan, purpose }
                && later.after_write(purpose, written).1 == moving && plan.count
                == app.rules.len() + 1)
        }),
{
}

/// Rules that are loaded into rows are applied as they are loaded, where their
/// fields have no white space around them and the app_id is not empty.
pub proof fn law_loaded_rules_apply(
    app_id: Seq<char>,
    title: Option<Seq<char>>,
    workspace: Seq<char>,
)
    requires
        rules::rule_of(app_id, title, workspace) is Ok,
        app_id.len() > 0 && text::trimmed(app_id) == app_id,
        title matches Some(t) ==> t.len() > 0 && text::trimmed(t) == t,
        text::trimmed(workspace) == workspace,
    ensures
        DraftView::of_rule(rules::rule_of(app_id, title, workspace)->Ok_0).rule()
            == rules::rule_of(app_id, title, workspace),
{
    assert(text::trimmed(Seq::<char>::empty()) =~= Seq::empty());
}

/// Is this the editor but for its rows, its dialog and its status line?
pub open spec fn keeps_the_rest(app: AppView, later: AppView) -> bool {
    &&& later.config_path == app.config_path
    &&& later.live == app.live
    &&& later.show_help == app.show_help
}

/// A confirmed removal takes out the row that it is for, and no other: the rows
/// before it stay where they are, and each row behind it moves up by one. What
/// is left is written where all of it stands for rules, and it is told
/// otherwise.
pub proof fn law_confirmed_removal(app: AppView, index: usize)
    requires
        index < app.rules.len(),
    ensures
        ({
            let (later, effect) = app.updated(Message::RemoveRuleConfirmed(index));
            &&& later.rules.len() == app.rules.len() - 1
            &&& forall|k: int|
                0 <= k < index && k < later.rules.len() ==> #[trigger] later.rules[k]
                    == app.rules[k]
            &&& forall|k: int|
                index <= k < later.rules.len() ==> #[trigger] later.rules[k] == app.rules[k + 1]
            &&& later.dialog is None
            &&& keeps_the_rest(app, later)
            &&& if forall|k: int|
                0 <= k < app.rules.len() && k != index ==> (#[trigger] app.rules[k]).rule() is Ok {
                &&& effect matches EffectView::Write { plan, purpose }
                &&& purpose == PurposeView::Remove
                &&& plan.count == app.rules.len() - 1
                &&& later.status == app.status
            } else {
                &&& effect == EffectView::Nothing
                &&& later.status is Some
            }
        }),
{
    let (later, effect) = app.updated(Message::RemoveRuleConfirmed(index));
    law_saved_rows_read_back(later.rules);
    if forall|k: int|
        0 <= k < app.rules.len() && k != index ==> (#[trigger] app.rules[k]).rule() is Ok {
        assert forall|i: int| 0 <= i < later.rules.len() implies (
        #[trigger] later.rules[i]).rule() is Ok by {
            if i < index {
                assert(app.rules[i].rule() is Ok);
            } else {
                assert(app.rules[i + 1].rule() is Ok);
            }
        }
    } else {
        let k = choose|k: int|
            0 <= k < app.rules.len() && k != index && !((#[trigger] app.rules[k]).rule() is Ok);
        if k < index {
            assert(later.rules[k] == app.rules[k]);
        } else {
            assert(later.rules[k - 1] == app.rules[k]);
        }
    }
}

/// A removal is not made before it is confirmed: asking for it opens a dialog
/// for that row and leaves the rows as they are.
pub proof fn law_removal_is_asked_for(app: AppView, index: usize)
    ensures
        ({
            let (later, effect) = app.updated(Message::RemoveRule(index));
            &&& later.dialog == Some(DialogView::ConfirmRemove { rule_index: index })
            &&& later.rules == app.rules
            &&& later.status == app.status
            &&& keeps_the_rest(app, later)
            &&& effect == EffectView::Nothing
        }),
{
}

/// Is `later` the list `rows` but for what stands at `index`?
pub open spec fn differs_at(rows: Seq<DraftView>, later: Seq<DraftView>, index: int) -> bool {
    &&& later.len() == rows.len()
    &&& forall|k: int| 0 <= k < rows.len() && k != index ==> #[trigger] later[k] == rows[k]
}

/// Typing an app_id or a title changes this field of this row, and nothing
/// else; a row that is not there stays away.
pub proof fn law_typed_field(app: AppView, index: usize, value: String)
    ensures
        ({
            let (later, effect) = app.updated(Message::AppIdChanged(index, value));
            &&& effect == EffectView::Nothing
            &&& differs_at(app.rules, later.rules, index as int)
            &&& index < app.rules.len() ==> {
                &&& later.rules[index as int].app_id == value@
                &&& later.rules[index as int].title == app.rules[index as int].title
                &&& later.rules[index as int].workspace == app.rules[index as int].workspace
            }
            &&& later.dialog == app.dialog
            &&& later.status == app.status
            &&& keeps_the_rest(app, later)
        }),
        ({
            let (later, effect) = app.updated(Message::TitleChanged(index, value));
            &&& effect == EffectView::Nothing
            &&& differs_at(app.rules, later.rules, index as int)
            &&& index < app.rules.len() ==> {
                &&& later.rules[index as int].title == value@
                &&& later.rules[index as int].app_id == app.rules[index as int].app_id
                &&& later.rules[index as int].workspace == app.rules[index as int].workspace
            }
            &&& later.dialog == app.dialog
            &&& later.status == app.status
            &&& keeps_the_rest(app, later)
        }),
{
}

/// Picking a workspace for a row gives this row, and no other, a selector that
/// names the picked workspace, and closes the dialog. A workspace without a
/// selector, or one that is not there, changes no row.
pub proof fn law_picked_workspace(app: AppView, rule_index: usize, workspace_index: usize)
    ensures
        ({
            let (later, effect) = app.updated(
                Message::WorkspacePicked(rule_index, workspace_index),
            );
            let rows = app.rules;
            &&& effect == EffectView::Nothing
            &&& later.dialog is None
            &&& later.status == app.status
            &&& keeps_the_rest(app, later)
            &&& differs_at(rows, later.rules, rule_index as int)
            &&& rule_index < rows.len() ==> {
                &&& later.rules[rule_index as int].app_id == rows[rule_index as int].app_id
                &&& later.rules[rule_index as int].title == rows[rule_index as int].title
            }
            &&& match app.live {
                Some(live) if workspace_index < live.workspaces.len() && selector_of(
                    live.workspaces[workspace_index as int],
                ) is Some => rule_index < rows.len()
                    ==> live.workspaces[workspace_index as int].answers(
                    later.rules[rule_index as int].workspace,
                ) && later.rules[rule_index as int].workspace == selector_of(
                    live.workspaces[workspace_index as int],
                )->0,
                _ => later.rules == rows,
            }
        }),
{
    if let Some(live) = app.live {
        if workspace_index < live.workspaces.len() && selector_of(
            live.workspaces[workspace_index as int],
        ) is Some {
            law_selector_answers(live.workspaces[workspace_index as int]);
        }
    }
}

/// A workspace is referred to by its name, by its id where it has no name, by
/// its coordinates where it has neither, and not at all where it has none of
/// them.
pub proof fn law_selector_choice(workspace: WorkspaceView)
    ensures
        workspace.name.len() > 0 ==> selector_of(workspace) == Some(workspace.name),
        workspace.name.len() == 0 ==> (workspace.id matches Some(id) ==> (id.len() > 0
            ==> selector_of(workspace) == Some(id))),
        workspace.name.len() == 0 && (workspace.id is None || workspace.id->0.len() == 0) ==> {
            &&& selector_of(workspace) is Some <==> workspace.coordinates.len() > 0
            &&& selector_of(workspace) matches Some(selector) ==> model::read_coordinates(selector)
                == Some(workspace.coordinates)
        },
{
    if workspace.coordinates.len() > 0 {
        model::law_coordinates_round_trip(workspace.coordinates);
    }
}

/// A new row is empty and comes last; the rows before it stay.
pub proof fn law_added_row(app: AppView)
    ensures
        ({
            let (later, effect) = app.updated(Message::AddRule);
            let n = app.rules.len() as int;
            &&& effect == EffectView::Nothing
            &&& later.rules.len() == n + 1
            &&& forall|k: int| 0 <= k < n ==> #[trigger] later.rules[k] == app.rules[k]
            &&& later.rules[n].app_id.len() == 0
            &&& later.rules[n].title.len() == 0
            &&& later.rules[n].workspace.len() == 0
            &&& later.dialog == app.dialog
            &&& later.status == app.status
            &&& keeps_the_rest(app, later)
        }),
{
}

/// The rows change only where one is typed in, picked for, added, removed after
/// a confirmation, or created by a confirmed move. The path of the rules file
/// never changes, the session data change only when they are read, and the help
/// only when it is asked for or closed.
pub proof fn law_nothing_else_changes(app: AppView, message: Message)
    ensures
        ({
            let later = app.updated(message).0;
            &&& !(message is AppIdChanged || message is TitleChanged || message is WorkspacePicked
                || message is AddRule || message is RemoveRuleConfirmed || message is ConfirmMove)
                ==> later.rules == app.rules
            &&& later.config_path == app.config_path
            &&& !(message is LiveLoaded) ==> later.live == app.live
            &&& !(message is ToggleHelp || message is CloseHelp) ==> later.show_help
                == app.show_help
            &&& message is ToggleHelp ==> later.show_help == !app.show_help
            &&& message is CloseHelp ==> !later.show_help
        }),
{
}

/// Outside of the editor something is done only where it was asked for: the
/// session is read on a refresh, rules are applied when that is asked for, a
/// window is moved when that is confirmed, and the rules file is written when
/// it is to be saved, a removal or a move is confirmed.
pub proof fn law_effects_are_asked_for(app: AppView, message: Message)
    ensures
        ({
            let effect = app.updated(message).1;
            &&& effect == EffectView::FetchLive <==> message is Refresh
            &&& effect is ApplyRules ==> message is ApplyNow
            &&& effect is MoveWindow ==> message is ConfirmMove
            &&& effect matches EffectView::Write { plan, purpose } ==> match purpose {
                PurposeView::Save => message is Save,
                PurposeView::Remove => message is RemoveRuleConfirmed,
                PurposeView::Create { .. } => message is ConfirmMove,
            }
        }),
{
}

/// To save writes the rules file of all rows where each stands for a rule, and
/// otherwise writes nothing and tells what is wrong with the first that does
/// not.
pub proof fn law_save_writes_all(app: AppView)
    ensures
        ({
            let (later, effect) = app.updated(Message::Save);
            &&& later.rules == app.rules
            &&& later.dialog == app.dialog
            &&& keeps_the_rest(app, later)
            &&& (forall|i: int| 0 <= i < app.rules.len() ==> (#[trigger] app.rules[i]).rule() is Ok)
                ==> {
                &&& effect matches EffectView::Write { plan, purpose }
                &&& purpose == PurposeView::Save
                &&& plan.count == app.rules.len()
                &&& later.status == app.status
            }
            &&& forall|i: int|
                0 <= i < app.rules.len() && (#[trigger] app.rules[i]).rule() is Err && (forall|j: int|
                    0 <= j < i ==> (#[trigger] app.rules[j]).rule() is Ok) ==> {
                    &&& effect == EffectView::Nothing
                    &&& later.status == Some(
                        "rule not saved: "@ + app.rules[i].rule()->Err_0.text(),
                    )
                }
        }),
{
    let bad = |d: DraftView| d.rule() is Err;
    law_saved_rows_read_back(app.rules);
    list::lemma_first_from(app.rules, bad, 0);
    assert forall|i: int|
        0 <= i < app.rules.len() && (#[trigger] app.rules[i]).rule() is Err && (forall|j: int|
            0 <= j < i ==> (#[trigger] app.rules[j]).rule() is Ok) implies list::first_where(
        app.rules,
        bad,
    ) == Some(i) by {
        let first = list::first_where(app.rules, bad);
        assert(bad(app.rules[i]));
        if let Some(k) = first {
            assert(bad(app.rules[k]));
            if k < i {
                assert(app.rules[k].rule() is Ok);
            }
        }
    }
}

/// The rules of no rows are none, and one more row adds its rule at the end
/// where it stands for one, and nothing otherwise.
pub proof fn law_rows_that_apply(drafts: Seq<DraftView>, draft: DraftView)
    ensures
        applicable_rules(Seq::empty()) == Seq::<RuleView>::empty(),
        draft.rule() matches Ok(rule) ==> applicable_rules(drafts.push(draft)) == applicable_rules(
            drafts,
        ).push(rule),
        draft.rule() is Err ==> applicable_rules(drafts.push(draft)) == applicable_rules(drafts),
{
    reveal(Seq::filter);
    let good = |d: DraftView| d.rule() is Ok;
    let made = |d: DraftView| d.rule()->Ok_0;
    let more = drafts.push(draft);
    assert(more.drop_last() =~= drafts);
    assert(applicable_rules(Seq::empty()) =~= Seq::<RuleView>::empty());
    if draft.rule() is Ok {
        let kept = drafts.filter(good);
        assert(kept.push(draft).map_values(made) =~= kept.map_values(made).push(draft.rule()->Ok_0));
    }
}

/// To apply the rules now applies those of all rows that stand for one, and
/// says so where there is none.
pub proof fn law_apply_now(app: AppView)
    ensures
        ({
            let (later, effect) = app.updated(Message::ApplyNow);
            &&& later.rules == app.rules
            &&& later.dialog == app.dialog
            &&& keeps_the_rest(app, later)
            &&& (exists|i: int|
                0 <= i < app.rules.len() && (#[trigger] app.rules[i]).rule() is Ok) ==> effect
                == EffectView::ApplyRules(applicable_rules(app.rules)) && later.status
                == app.status
            &&& (forall|i: int|
                0 <= i < app.rules.len() ==> (#[trigger] app.rules[i]).rule() is Err) ==> effect
                == EffectView::Nothing && later.status is Some
        }),
{
    list::lemma_filter_count(app.rules, |d: DraftView| d.rule() is Ok);
}

/// Opening a dialog needs the session data; then the dialog is for what it was
/// opened for, with no workspace picked. Otherwise it is told that the data
/// must be read first, and no dialog opens.
pub proof fn law_dialogs_open(app: AppView, window: WindowInfo, rule_index: usize)
    ensures
        app.live is Some ==> {
            &&& app.updated(Message::MoveWindow(window)).0.dialog == Some(
                DialogView::MoveWindow { window: window@, workspace: None },
            )
            &&& app.updated(Message::PickWorkspace(rule_index)).0.dialog == Some(
                DialogView::PickWorkspace { rule_index },
            )
            &&& app.updated(Message::MoveWindow(window)).0.status == app.status
            &&& app.updated(Message::PickWorkspace(rule_index)).0.status == app.status
        },
        app.live is None ==> {
            &&& app.updated(Message::MoveWindow(window)).0.dialog == app.dialog
            &&& app.updated(Message::PickWorkspace(rule_index)).0.dialog == app.dialog
            &&& app.updated(Message::MoveWindow(window)).0.status is Some
            &&& app.updated(Message::PickWorkspace(rule_index)).0.status is Some
        },
{
}

/// In the move dialog a workspace can be picked, and another one after it; the
/// last pick counts, and the window stays the one that the dialog is for.
/// Elsewhere the pick is passed over.
pub proof fn law_pick_in_the_move_dialog(app: AppView, first: usize, second: usize)
    ensures
        app.dialog matches Some(DialogView::MoveWindow { window, workspace }) ==> {
            let once = app.updated(Message::PendingMoveWorkspacePicked(first)).0;
            let twice = once.updated(Message::PendingMoveWorkspacePicked(second)).0;
            &&& once == AppView {
                dialog: Some(DialogView::MoveWindow { window, workspace: Some(first) }),
                ..app
            }
            &&& twice == AppView {
                dialog: Some(DialogView::MoveWindow { window, workspace: Some(second) }),
                ..app
            }
        },
        !(app.dialog is Some && app.dialog->0 is MoveWindow) ==> app.updated(
            Message::PendingMoveWorkspacePicked(first),
        ).0 == app,
{
}

/// Closing a dialog changes nothing but that it is closed.
pub proof fn law_closed_dialog(app: AppView)
    ensures
        app.updated(Message::CloseDialog).0.dialog is None,
        app.updated(Message::CloseDialog).0 == (AppView { dialog: None, ..app }),
        app.updated(Message::CloseDialog).1 == EffectView::Nothing,
{
}

/// A confirmed move does nothing where no workspace with a selector has been
/// picked, or where no move is at hand: no row is added and no window moved.
pub proof fn law_unpicked_move(app: AppView)
    requires
        app.dialog matches Some(DialogView::MoveWindow { window, workspace }) ==> match workspace {
            Some(index) => match app.live {
                Some(live) => index >= live.workspaces.len() || selector_of(
                    live.workspaces[index as int],
                ) is None,
                None => true,
            },
            None => true,
        },
    ensures
        ({
            let (later, effect) = app.updated(Message::ConfirmMove);
            &&& effect == EffectView::Nothing
            &&& later.rules == app.rules
            &&& later.dialog is None
            &&& keeps_the_rest(app, later)
            &&& app.dialog matches Some(DialogView::MoveWindow { .. }) ==> later.status is Some
        }),
{
}

/// What was read from the session is taken over, and an old status goes; where
/// it could not be read, that is told and nothing can be picked.
pub proof fn law_session_is_read(app: AppView, result: Result<LiveData, String>)
    ensures
        ({
            let (later, effect) = app.updated(Message::LiveLoaded(result));
            &&& effect == EffectView::Nothing
            &&& later.rules == app.rules
            &&& later.dialog == app.dialog
            &&& later.config_path == app.config_path
            &&& later.show_help == app.show_help
            &&& result matches Ok(live) ==> later.live == Some(live@) && later.status is None
            &&& result matches Err(error) ==> {
                &&& later.status == Some("could not read the COSMIC session: "@ + error@)
                &&& later.live matches Some(live)
                &&& live.workspaces.len() == 0
                &&& live.windows.len() == 0
            }
        }),
{
}

/// Once the attempt to write the rules file is over, nothing but the status has
/// changed, whatever came of it, and a window is moved exactly where a rule was
/// created for it: that window, to the workspace of the rule.
pub proof fn law_after_the_write(
    app: AppView,
    purpose: PurposeView,
    written: Result<nat, Seq<char>>,
)
    ensures
        ({
            let (later, effect) = app.after_write(purpose, written);
            &&& later == AppView { status: later.status, ..app }
            &&& later.status is Some
            &&& match purpose {
                PurposeView::Create { window, workspace } => effect == EffectView::MoveWindow {
                    window,
                    workspace,
                },
                _ => effect == EffectView::Nothing,
            }
        }),
{
}

/// A row stands for the rule of its fields without the white space around them;
/// a blank title is no title, and a row with a blank app_id stands for none.
pub proof fn law_row_stands_for_rule(draft: DraftView)
    ensures
        draft.rule() matches Ok(rule) ==> {
            &&& text::trimmed(draft.app_id).len() > 0
            &&& rule.app_id == text::trimmed(draft.app_id)
            &&& rule.title is None <==> text::trimmed(draft.title).len() == 0
            &&& rule.title matches Some(title) ==> title == text::trimmed(draft.title)
            &&& rule.workspace == text::trimmed(draft.workspace)
        },
        text::trimmed(draft.app_id).len() == 0 <==> draft.rule() == Err::<RuleView, ErrorView>(
            Problem::EmptyAppId,
        ),
{
}

/// A confirmed move adds a row for the app_id of the window, behind the others,
/// with the selector of the workspace that was picked. Where all rows stand for
/// rules they are written, and the window is moved after that; otherwise the
/// window is moved at once. Either way it is the window of the dialog.
pub proof fn law_confirmed_move_is_saved(
    app: AppView,
    live: LiveView,
    window: InfoView,
    index: usize,
)
    requires
        app.live == Some(live),
        app.dialog == Some(DialogView::MoveWindow { window, workspace: Some(index) }),
        index < live.workspaces.len(),
        selector_of(live.workspaces[index as int]) is Some,
    ensures
        ({
            let selector = selector_of(live.workspaces[index as int])->0;
            let (later, effect) = app.updated(Message::ConfirmMove);
            let n = app.rules.len() as int;
            &&& later.dialog is None
            &&& keeps_the_rest(app, later)
            &&& later.rules.len() == n + 1
            &&& forall|k: int| 0 <= k < n ==> #[trigger] later.rules[k] == app.rules[k]
            &&& later.rules[n].app_id == window.app_id
            &&& later.rules[n].title.len() == 0
            &&& later.rules[n].workspace == selector
            &&& live.workspaces[index as int].answers(selector)
            &&& if forall|k: int|
                0 <= k < later.rules.len() ==> (#[trigger] later.rules[k]).rule() is Ok {
                &&& effect matches EffectView::Write { plan, purpose }
                &&& purpose == PurposeView::Create { window, workspace: selector }
                &&& plan.count == n + 1
            } else {
                effect == EffectView::MoveWindow { window, workspace: selector }
            }
        }),
{
    law_selector_answers(live.workspaces[index as int]);
    law_saved_rows_read_back(app.updated(Message::ConfirmMove).0.rules);
}

/// The file that is written for rows that all stand for rules has one table for
/// each row, in the order of the rows, and each table is read back as the rule
/// of its row. The tables are given back.
pub proof fn law_saved_file_has_each_row(drafts: Seq<DraftView>) -> (tables: Seq<
    Seq<(Seq<char>, Seq<char>)>,
>)
    requires
        forall|i: int| 0 <= i < drafts.len() ==> (#[trigger] drafts[i]).rule() is Ok,
    ensures
        save_plan(drafts) matches Ok(plan) && plan.body == document::toml_text("rules"@, tables)
            && plan.count == drafts.len(),
        tables.len() == drafts.len(),
        forall|i: int|
            0 <= i < drafts.len() ==> (document::table_entry(#[trigger] tables[i]) matches Some(
                entry,
            ) && entry.rule() == drafts[i].rule()),
{
    law_saved_rows_read_back(drafts);
    let found = drafts.map_values(|d: DraftView| d.rule()->Ok_0);
    let tables = document::law_document_has_each_rule(found);
    assert forall|i: int| 0 <= i < drafts.len() implies (document::table_entry(
        #[trigger] tables[i],
    ) matches Some(entry) && entry.rule() == drafts[i].rule()) by {
        assert(found[i] == drafts[i].rule()->Ok_0);
        law_row_stands_for_rule(drafts[i]);
        let title = text::trimmed(drafts[i].title);
        rules::law_rule_is_as_given(
            text::trimmed(drafts[i].app_id),
            if title.len() == 0 {
                None
            } else {
                Some(title)
            },
            text::trimmed(drafts[i].workspace),
        );
    }
    tables
}

/// Whatever the editor writes is the file of the rows that it has then.
pub proof fn law_written_file_is_of_the_rows(app: AppView, message: Message) -> (tables: Seq<
    Seq<(Seq<char>, Seq<char>)>,
>)
    requires
        message matches Message::RemoveRuleConfirmed(index) ==> index < app.rules.len(),
        app.updated(message).1 is Write,
    ensures
        ({
            let (later, effect) = app.updated(message);
            &&& effect matches EffectView::Write { plan, purpose }
            &&& plan.body == document::toml_text("rules"@, tables)
            &&& plan.count == later.rules.len()
            &&& tables.len() == later.rules.len()
            &&& forall|i: int|
                0 <= i < tables.len() ==> (document::table_entry(#[trigger] tables[i]) matches Some(
                    entry,
                ) && entry.rule() == later.rules[i].rule())
        }),
{
    law_bad_rows_write_nothing(app, message);
    law_saved_file_has_each_row(app.updated(message).0.rules)
}

/// Rules that are shown in rows are shown as they are: their patterns, and the
/// workspace; a rule without a title pattern has an empty title.
pub proof fn law_rule_is_shown(rule: RuleView)
    ensures
        DraftView::of_rule(rule).app_id == rule.app_id,
        DraftView::of_rule(rule).workspace == rule.workspace,
        rule.title matches Some(title) ==> DraftView::of_rule(rule).title == title,
        rule.title is None ==> DraftView::of_rule(rule).title.len() == 0,
{
}

/// What is told of a set of moves tells each of them, or that there was none,
/// or why they could not be made.
pub proof fn law_moves_are_told(moves: Seq<Seq<char>>, error: Seq<char>, i: int)
    ensures
        0 <= i < moves.len() ==> text::contains_text(applied_text(Ok(moves)), moves[i]),
        moves.len() > 0 ==> text::contains_text(applied_text(Ok(moves)), decimal::decimal(moves.len())),
        moves.len() == 0 ==> applied_text(Ok(moves)) == "no currently open windows match any rule"@,
        text::contains_text(applied_text(Err(error)), error),
{
    let whole = applied_text(Ok(moves));
    if 0 <= i < moves.len() {
        let joined = text::join_text(moves, "; "@);
        text::law_parts_stand_in_joined_text(moves, "; "@, i);
        let k = choose|k: int| text::occurs_at(joined, moves[i], k);
        let n = whole.len() - joined.len() + k;
        assert(whole.subrange(n, n + moves[i].len()) =~= joined.subrange(k, k + moves[i].len()));
        assert(text::occurs_at(whole, moves[i], n));
    }
    if moves.len() > 0 {
        let number = decimal::decimal(moves.len());
        let n = "moved "@.len() as int;
        assert(whole.subrange(n, n + number.len()) =~= number);
        assert(text::occurs_at(whole, number, n));
    }
    let failed = applied_text(Err(error));
    let n = failed.len() - error.len();
    assert(failed.subrange(n, n + error.len()) =~= error);
    assert(text::occurs_at(failed, error, n));
}

/// What is told of an attempt to write the rules file tells how many rules were
/// written, or why none were.
pub proof fn law_write_is_told(
    purpose: PurposeView,
    config_path: Seq<char>,
    n: nat,
    error: Seq<char>,
)
    ensures
        text::contains_text(saved_text(purpose, config_path, Ok(n)), decimal::decimal(n)),
        text::contains_text(saved_text(purpose, config_path, Err(error)), error),
        purpose is Save ==> text::contains_text(saved_text(purpose, config_path, Ok(n)), config_path),
{
    let told = saved_text(purpose, config_path, Ok(n));
    let number = decimal::decimal(n);
    let k = match purpose {
        PurposeView::Remove => "removed rule, saved "@.len() as int,
        PurposeView::Save => "wrote "@.len() as int,
        PurposeView::Create { .. } => "created rule and saved "@.len() as int,
    };
    assert(told.subrange(k, k + number.len()) =~= number);
    assert(text::occurs_at(told, number, k));
    let failed = saved_text(purpose, config_path, Err(error));
    let m = failed.len() - error.len();
    assert(failed.subrange(m, m + error.len()) =~= error);
    assert(text::occurs_at(failed, error, m));
    if purpose is Save {
        let p = told.len() - config_path.len();
        assert(told.subrange(p, p + config_path.len()) =~= config_path);
        assert(text::occurs_at(told, config_path, p));
    }
}

/// What contracts say of the editor they say of its rows, of what was read from
/// the session, of its dialog and of its status line.
pub proof fn law_editor_is_seen_as_it_is(app: App, i: int)
    ensures
        app@.rules.len() == app.rules@.len(),
        0 <= i < app.rules@.len() ==> {
            &&& app@.rules[i].app_id == app.rules@[i].app_id@
            &&& app@.rules[i].title == app.rules@[i].title@
            &&& app@.rules[i].workspace == app.rules@[i].workspace@
        },
        app@.config_path == app.config_path@,
        app@.show_help == app.show_help,
        app@.status is Some <==> app.status is Some,
        app.status matches Some(status) ==> app@.status == Some(status@),
        app@.live is Some <==> app.live is Some,
        app.live matches Some(live) ==> {
            let seen = app@.live->0;
            &&& seen.workspaces.len() == live.workspaces@.len()
            &&& 0 <= i < live.workspaces@.len() ==> seen.workspaces[i] == live.workspaces@[i]@
            &&& seen.windows.len() == live.windows@.len()
            &&& 0 <= i < live.windows@.len() ==> {
                &&& seen.windows[i].app_id == live.windows@[i].app_id@
                &&& seen.windows[i].title == live.windows@[i].title@
                &&& seen.windows[i].identifier == live.windows@[i].identifier@
            }
        },
        app@.dialog is Some <==> app.dialog is Some,
        app.dialog matches Some(dialog) ==> match dialog {
            Dialog::MoveWindow { window, workspace } => app@.dialog matches Some(
                DialogView::MoveWindow { window: w, workspace: p },
            ) && w.app_id == window.app_id@ && w.title == window.title@ && w.identifier
                == window.identifier@ && p == workspace,
            Dialog::PickWorkspace { rule_index } => app@.dialog == Some(
                DialogView::PickWorkspace { rule_index },
            ),
            Dialog::ConfirmRemove { rule_index } => app@.dialog == Some(
                DialogView::ConfirmRemove { rule_index },
            ),
        },
{
}

/// What contracts say of what is to be done they say of what a program finds
/// there: the text to write, the rules to apply, the window to move.
pub proof fn law_effect_is_seen_as_it_is(effect: Effect, i: int)
    ensures
        match effect {
            Effect::Nothing => effect@ is Nothing,
            Effect::FetchLive => effect@ is FetchLive,
            Effect::Write { plan, purpose } => {
                &&& effect@ matches EffectView::Write { plan: p, purpose: q }
                &&& p.body == plan.body@
                &&& p.count == plan.count
                &&& match purpose {
                    SavePurpose::Remove => q is Remove,
                    SavePurpose::Save => q is Save,
                    SavePurpose::Create { window, workspace } => q == (PurposeView::Create {
                        window: window@,
                        workspace: workspace@,
                    }),
                }
            },
            Effect::ApplyRules(rules) => {
                &&& effect@ matches EffectView::ApplyRules(seen)
                &&& seen.len() == rules@.len()
                &&& 0 <= i < rules@.len() ==> seen[i] == rules@[i]@
            },
            Effect::MoveWindow { window, workspace } => {
                &&& effect@ matches EffectView::MoveWindow { window: w, workspace: s }
                &&& w.app_id == window.app_id@
                &&& w.title == window.title@
                &&& w.identifier == window.identifier@
                &&& s == workspace@
            },
        },
{
}

/// What came of applying the rules and of moving a window is told, and nothing
/// else changes.
pub proof fn law_results_are_told(
    app: AppView,
    applied: Result<Vec<String>, String>,
    moved: Result<String, String>,
)
    ensures
        ({
            let (later, effect) = app.updated(Message::Applied(applied));
            &&& effect == EffectView::Nothing
            &&& later == AppView { status: later.status, ..app }
            &&& later.status == Some(
                match applied {
                    Ok(moves) => applied_text(Ok(text::views(moves@))),
                    Err(error) => applied_text(Err(error@)),
                },
            )
        }),
        ({
            let (later, effect) = app.updated(Message::WindowMoved(moved));
            &&& effect == EffectView::Nothing
            &&& later == AppView { status: later.status, ..app }
            &&& later.status == Some(
                match moved {
                    Ok(what) => "moved: "@ + what@,
                    Err(error) => "failed to move window: "@ + error@,
                },
            )
        }),
{
}

} // verus!
