//! A session with the compositor.
//!
//! The functions here decide what is to be asked of the compositor; the
//! program that holds the connection sends it. Spans of time are told in
//! nanoseconds.
use vstd::prelude::*;

use crate::compositor;
use crate::error;
use crate::error::{ErrorView, Problem, WmError};
use crate::list;
use crate::model;
use crate::query;
use crate::records;
use crate::rules;
use crate::rules::{Rule, RuleView};
use crate::text;
use crate::tracker;
use crate::tracker::{Step, StepView, Tracker, TrackerView};

pub use crate::compositor::{
    Compositor, CompositorView, GlobalRecord, OutputInfo, Snapshot, ToplevelCapability,
    ToplevelInfo, WorkspaceGroup, WorkspaceInfo,
};
pub use crate::launch::{LaunchConfig, LaunchResult, RunResult};
pub use crate::query::{Query, SelectorView, WindowSelector, WindowSelectorField};
pub use crate::records::{Handle, WindowRecord, WindowView, WorkspaceRecord, WorkspaceView};

verus! {

/// How long to wait for what the compositor tells at the start.
pub const INITIAL_WAIT: u128 = 5_000_000_000;

/// How long `run` waits for a window of the command.
pub const RUN_TIMEOUT: u128 = 30_000_000_000;

/// The nanoseconds of a second.
pub const SECOND: u128 = 1_000_000_000;

/// The global objects and capabilities, as they are shown.
#[derive(Debug)]
pub struct DebugInfo {
    pub globals: Vec<GlobalRecord>,
    pub toplevel_manager_capabilities: Vec<String>,
}

/// Request to move a window to a workspace.
#[derive(Debug)]
pub struct MoveRequest {
    pub window_query: Query,
    pub workspace_selector: String,
    pub output_name: Option<String>,
    pub dry_run: bool,
    pub force_ext_move: bool,
}

impl Clone for MoveRequest {
    fn clone(&self) -> (r: Self)
        ensures
            r.window_query@ == self.window_query@,
            r.workspace_selector@ == self.workspace_selector@,
            text::opt_view(r.output_name) == text::opt_view(self.output_name),
            r.dry_run == self.dry_run,
            r.force_ext_move == self.force_ext_move,
    {
        MoveRequest {
            window_query: self.window_query.clone(),
            workspace_selector: self.workspace_selector.clone(),
            output_name: records::copy_option(&self.output_name),
            dry_run: self.dry_run,
            force_ext_move: self.force_ext_move,
        }
    }
}

/// Result of window activation.
#[derive(Debug)]
pub struct ActivateWindowResult {
    pub title: String,
    pub app_id: String,
}

/// Result of a window move operation.
#[derive(Debug)]
pub struct MoveResult {
    pub window_title: String,
    pub window_app_id: String,
    pub workspace_name: String,
    pub output_name: String,
}

/// The result of a move as contracts speak of it.
#[verifier::ext_equal]
pub struct MoveResultView {
    pub window_title: Seq<char>,
    pub window_app_id: Seq<char>,
    pub workspace_name: Seq<char>,
    pub output_name: Seq<char>,
}

impl View for MoveResult {
    type V = MoveResultView;

    open spec fn view(&self) -> MoveResultView {
        MoveResultView {
            window_title: self.window_title@,
            window_app_id: self.window_app_id@,
            workspace_name: self.workspace_name@,
            output_name: self.output_name@,
        }
    }
}

impl Clone for MoveResult {
    fn clone(&self) -> (r: Self)
        ensures
            r@ == self@,
    {
        MoveResult {
            window_title: self.window_title.clone(),
            window_app_id: self.window_app_id.clone(),
            workspace_name: self.workspace_name.clone(),
            output_name: self.output_name.clone(),
        }
    }
}

/// What the toplevel manager is asked: put the window on the workspace, on
/// the output.
#[derive(Debug, Clone, Copy, PartialEq, Eq, Structural)]
pub struct MoveOrder {
    pub toplevel: Handle,
    pub workspace: Handle,
    pub output: Handle,
}

/// A move that has been decided on: the order to send, unless nothing is to
/// be sent, and the result once it is sent.
#[derive(Debug)]
pub struct MovePlan {
    pub order: Option<MoveOrder>,
    pub result: MoveResult,
}

/// A decided move as contracts speak of it.
#[verifier::ext_equal]
pub struct PlanView {
    pub order: Option<MoveOrder>,
    pub result: MoveResultView,
}

impl View for MovePlan {
    type V = PlanView;

    open spec fn view(&self) -> PlanView {
        PlanView { order: self.order, result: self.result@ }
    }
}

/// What the toplevel manager is asked: give the window the focus of the seat.
#[derive(Debug, Clone, Copy, PartialEq, Eq, Structural)]
pub struct ActivateOrder {
    pub toplevel: Handle,
    pub seat: Handle,
}

/// The activation of a window that has been decided on: the order to send, and
/// the result once it is sent.
#[derive(Debug)]
pub struct Activation {
    pub order: ActivateOrder,
    pub result: ActivateWindowResult,
}

/// A decided activation as contracts speak of it.
#[verifier::ext_equal]
pub struct ActivationView {
    pub order: ActivateOrder,
    pub title: Seq<char>,
    pub app_id: Seq<char>,
}

impl View for Activation {
    type V = ActivationView;

    open spec fn view(&self) -> ActivationView {
        ActivationView {
            order: self.order,
            title: self.result.title@,
            app_id: self.result.app_id@,
        }
    }
}

/// A session: what the compositor has told, and what the rules have done.
#[derive(Debug)]
pub struct Session {
    pub compositor: Compositor,
    pub tracker: Tracker,
}

/// The move of a window to an output of a workspace.
pub open spec fn move_plan(
    compositor: CompositorView,
    window: WindowView,
    workspace: WorkspaceView,
    output: Handle,
    dry_run: bool,
) -> Result<PlanView, ErrorView> {
    match window.cosmic_toplevel {
        None => Err(Problem::NotMovable { title: window.title }),
        Some(toplevel) => Ok(
            PlanView {
                order: if dry_run {
                    None
                } else {
                    Some(MoveOrder { toplevel, workspace: workspace.handle, output })
                },
                result: MoveResultView {
                    window_title: window.title,
                    window_app_id: window.app_id,
                    workspace_name: workspace.name,
                    output_name: match compositor.output_label(output) {
                        Some(name) => name,
                        None => "<unknown>"@,
                    },
                },
            },
        ),
    }
}

/// The output of a workspace to place a window on: the first that has the name
/// that was asked for, where one was, and the one that fits best otherwise.
pub open spec fn placed_output(
    compositor: CompositorView,
    workspace: WorkspaceView,
    window: WindowView,
    requested: Option<Seq<char>>,
) -> Result<Handle, ErrorView> {
    match requested {
        Some(name) => match compositor.output_among(workspace.output_handles, name) {
            Some(output) => Ok(output),
            None => Err(
                Problem::NotOnOutput {
                    workspace: workspace.name,
                    output: name,
                    available: records::shown_list(workspace.output_names),
                },
            ),
        },
        None => model::placement_output(workspace, window, None),
    }
}

/// The move of a window to the workspace that the selector names, on the
/// output that was asked for or that fits best.
pub open spec fn record_plan(
    compositor: CompositorView,
    window: WindowView,
    selector: Seq<char>,
    requested: Option<Seq<char>>,
    dry_run: bool,
) -> Result<PlanView, ErrorView> {
    match model::chosen_workspace(compositor.snapshot_view().workspaces, selector) {
        Err(e) => Err(e),
        Ok(workspace) => match placed_output(compositor, workspace, window, requested) {
            Err(e) => Err(e),
            Ok(output) => move_plan(compositor, window, workspace, output, dry_run),
        },
    }
}

/// The move that a request asks for.
pub open spec fn request_plan(
    compositor: CompositorView,
    window_query: Seq<SelectorView>,
    selector: Seq<char>,
    requested: Option<Seq<char>>,
    dry_run: bool,
    force_ext_move: bool,
) -> Result<PlanView, ErrorView> {
    match compositor.move_obstacle(force_ext_move) {
        Some(e) => Err(e),
        None => match model::chosen_window(compositor.snapshot_view().windows, window_query) {
            Err(e) => Err(e),
            Ok(window) => record_plan(compositor, window, selector, requested, dry_run),
        },
    }
}

/// The activation of the window that answers the query, for the first seat. It
/// is refused where the window has no toplevel handle or there is no seat.
pub open spec fn activation_plan(
    compositor: CompositorView,
    window_query: Seq<SelectorView>,
) -> Result<ActivationView, ErrorView> {
    match model::chosen_window(compositor.snapshot_view().windows, window_query) {
        Err(e) => Err(e),
        Ok(window) => match window.cosmic_toplevel {
            None => Err(Problem::NotActivatable { title: window.title }),
            Some(toplevel) => if compositor.seats.len() == 0 {
                Err(Problem::NoSeat)
            } else {
                Ok(
                    ActivationView {
                        order: ActivateOrder { toplevel, seat: compositor.seats[0] },
                        title: window.title,
                        app_id: window.app_id,
                    },
                )
            },
        },
    }
}

/// For each window the selector of the workspace that the first rule that
/// applies wants it on.
pub open spec fn wanted_targets(
    rules: Seq<RuleView>,
    windows: Seq<WindowView>,
) -> Seq<Option<Seq<char>>> {
    windows.map_values(
        |w: WindowView|
            match rules::first_rule(rules, w.app_id, w.title) {
                Some(i) => Some(rules[i].workspace),
                None => None,
            },
    )
}

/// What comes next when rules are applied.
#[derive(Debug)]
pub enum RuleStep {
    /// Send the plan for the window at position `index`. Once it is sent,
    /// take down that window `id` was moved by `workspace`, and go on behind
    /// `index`.
    Move { index: usize, id: u32, workspace: String, plan: MovePlan },
    /// The window at position `index` cannot be moved.
    Failed { index: usize, problem: WmError },
    /// No window is left to move.
    Finished,
}

/// What comes next, as contracts speak of it.
pub enum RuleStepView {
    Move { index: int, id: u32, workspace: Seq<char>, plan: PlanView },
    Failed { index: int, problem: ErrorView },
    Finished,
}

impl View for RuleStep {
    type V = RuleStepView;

    open spec fn view(&self) -> RuleStepView {
        match self {
            RuleStep::Move { index, id, workspace, plan } => RuleStepView::Move {
                index: *index as int,
                id: *id,
                workspace: workspace@,
                plan: plan@,
            },
            RuleStep::Failed { index, problem } => RuleStepView::Failed {
                index: *index as int,
                problem: problem@,
            },
            RuleStep::Finished => RuleStepView::Finished,
        }
    }
}

/// What comes next, given what a look at the windows came to.
pub open spec fn rule_step(
    compositor: CompositorView,
    step: StepView,
    dry_run: bool,
) -> RuleStepView {
    match step {
        StepView::Finished => RuleStepView::Finished,
        StepView::Attempt { index, workspace } => {
            let window = compositor.snapshot_view().windows[index];
            match record_plan(compositor, window, workspace, None, dry_run) {
                Ok(plan) => RuleStepView::Move { index, id: window.foreign_id, workspace, plan },
                Err(problem) => RuleStepView::Failed { index, problem },
            }
        },
    }
}

/// The moves of the windows from position `from` on to their targets, up to
/// the first that cannot be made, and why it cannot. No window is moved twice
/// by one selector.
pub open spec fn moves_now(
    compositor: CompositorView,
    windows: Seq<WindowView>,
    targets: Seq<Option<Seq<char>>>,
    from: int,
    handled: Set<(u32, Seq<char>)>,
) -> (Seq<PlanView>, Option<ErrorView>)
    decreases windows.len() - from,
{
    if from < 0 || from >= windows.len() {
        (Seq::empty(), None)
    } else {
        match targets[from] {
            None => moves_now(compositor, windows, targets, from + 1, handled),
            Some(workspace) => {
                let key = (windows[from].foreign_id, workspace);
                if handled.contains(key) {
                    moves_now(compositor, windows, targets, from + 1, handled)
                } else {
                    match record_plan(compositor, windows[from], workspace, None, false) {
                        Err(e) => (Seq::empty(), Some(e)),
                        Ok(plan) => {
                            let (rest, failure) = moves_now(
                                compositor,
                                windows,
                                targets,
                                from + 1,
                                handled.insert(key),
                            );
                            (seq![plan] + rest, failure)
                        },
                    }
                }
            },
        }
    }
}

/// The views of a list of plans.
pub open spec fn plan_views(plans: Seq<MovePlan>) -> Seq<PlanView> {
    plans.map_values(|p: MovePlan| p@)
}

/// The view of an optional problem.
pub open spec fn problem_view(problem: Option<WmError>) -> Option<ErrorView> {
    match problem {
        Some(e) => Some(e@),
        None => None,
    }
}

/// For each window the selector of the workspace that the first rule that
/// applies wants it on.
pub fn find_targets(rules: &Vec<Rule>, windows: &Vec<WindowRecord>) -> (r: Vec<Option<String>>)
    ensures
        tracker::target_views(r@) == wanted_targets(
            rules::rule_views(rules@),
            records::window_views(windows@),
        ),
{
    let mut targets: Vec<Option<String>> = Vec::new();
    let ghost wanted = wanted_targets(rules::rule_views(rules@), records::window_views(windows@));
    let mut i: usize = 0;
    while i < windows.len()
        invariant
            i <= windows.len(),
            targets.len() == i,
            wanted == wanted_targets(rules::rule_views(rules@), records::window_views(windows@)),
            forall|k: int| 0 <= k < i ==> text::opt_view(#[trigger] targets@[k]) == wanted[k],
        decreases windows.len() - i,
    {
        let window: &WindowRecord = &windows[i];
        assert(records::window_views(windows@)[i as int] == window@);
        match rules::find_rule(rules, window.app_id.as_str(), window.title.as_str()) {
            Some(k) => targets.push(Some(rules[k].workspace.clone())),
            None => targets.push(None),
        }
        i = i + 1;
    }
    assert(tracker::target_views(targets@) =~= wanted);
    targets
}

impl Session {
    /// A session that starts from what the compositor has told.
    pub fn connect(compositor: Compositor) -> (r: Self)
        ensures
            r.compositor == compositor,
            r.tracker@ == TrackerView::fresh(),
    {
        Session { compositor, tracker: Tracker::new() }
    }

    /// Must more be waited for what the compositor tells at the start?
    pub fn wait_for_initial_state(&self, elapsed: u128) -> (r: bool)
        ensures
            r == (!self.compositor@.initial_state_arrived() && elapsed < INITIAL_WAIT),
    {
        !self.compositor.is_ready() && elapsed < INITIAL_WAIT
    }

    /// The workspaces and windows.
    pub fn snapshot(&self) -> (r: Snapshot)
        ensures
            r@ == self.compositor@.snapshot_view(),
            forall|i: int|
                0 <= i < r@.windows.len() ==> self.compositor@.has_names_in_order(
                    self.compositor@.toplevels[i],
                    #[trigger] r@.windows[i],
                ),
    {
        self.compositor.snapshot()
    }

    /// The move that the request asks for.
    pub fn move_window(&self, request: MoveRequest) -> (r: Result<MovePlan, WmError>)
        ensures
            error::outcome(r) == request_plan(
                self.compositor@,
                request.window_query@,
                request.workspace_selector@,
                text::opt_view(request.output_name),
                request.dry_run,
                request.force_ext_move,
            ),
            r matches Ok(plan) ==> (plan.order is None <==> request.dry_run),
    {
        if let Err(e) = self.compositor.ensure_move_capability(request.force_ext_move) {
            return Err(e);
        }
        let snapshot: Snapshot = self.snapshot();
        let window: &WindowRecord = match model::match_window(
            snapshot.windows.as_slice(),
            &request.window_query,
        ) {
            Ok(window) => window,
            Err(e) => {
                return Err(e);
            },
        };
        let output_name: Option<&str> = match &request.output_name {
            Some(name) => Some(name.as_str()),
            None => None,
        };
        self.plan_move(window, request.workspace_selector.as_str(), output_name, request.dry_run)
    }

    /// The move of a window record to a workspace selected by name, id, or
    /// coordinates.
    pub fn move_window_record(
        &self,
        window: &WindowRecord,
        workspace_selector: &str,
        dry_run: bool,
    ) -> (r: Result<MovePlan, WmError>)
        ensures
            error::outcome(r) == record_plan(
                self.compositor@,
                window@,
                workspace_selector@,
                None,
                dry_run,
            ),
            r matches Ok(plan) ==> {
                &&& plan.order is None <==> dry_run
                &&& plan.order matches Some(order) ==> window.cosmic_toplevel == Some(
                    order.toplevel,
                )
            },
    {
        self.plan_move(window, workspace_selector, None, dry_run)
    }

    /// The move of a window to the workspace that the selector names.
    fn plan_move(
        &self,
        window: &WindowRecord,
        workspace_selector: &str,
        output_name: Option<&str>,
        dry_run: bool,
    ) -> (r: Result<MovePlan, WmError>)
        ensures
            error::outcome(r) == record_plan(
                self.compositor@,
                window@,
                workspace_selector@,
                text::opt_str_view(output_name),
                dry_run,
            ),
    {
        let snapshot: Snapshot = self.snapshot();
        match model::match_workspace(snapshot.workspaces.as_slice(), workspace_selector) {
            Ok(workspace) => match self.place(workspace, window, output_name) {
                Ok(output) => self.move_impl(window, workspace, output, dry_run),
                Err(e) => Err(e),
            },
            Err(e) => Err(e),
        }
    }

    /// The output of a workspace to place a window on.
    fn place(
        &self,
        workspace: &WorkspaceRecord,
        window: &WindowRecord,
        output_name: Option<&str>,
    ) -> (r: Result<Handle, WmError>)
        ensures
            match r {
                Ok(output) => placed_output(
                    self.compositor@,
                    workspace@,
                    window@,
                    text::opt_str_view(output_name),
                ) == Ok::<Handle, ErrorView>(output),
                Err(e) => placed_output(
                    self.compositor@,
                    workspace@,
                    window@,
                    text::opt_str_view(output_name),
                ) == Err::<Handle, ErrorView>(e@),
            },
    {
        match output_name {
            Some(name) => match self.compositor.find_output(&workspace.output_handles, name) {
                Some(output) => Ok(output),
                None => Err(
                    Problem::NotOnOutput {
                        workspace: workspace.name.clone(),
                        output: name.to_owned(),
                        available: workspace.outputs_csv(),
                    },
                ),
            },
            None => model::resolve_workspace_output(workspace, window, None),
        }
    }

    /// The move of a window to an output of a workspace.
    fn move_impl(
        &self,
        window: &WindowRecord,
        workspace: &WorkspaceRecord,
        output: Handle,
        dry_run: bool,
    ) -> (r: Result<MovePlan, WmError>)
        ensures
            error::outcome(r) == move_plan(
                self.compositor@,
                window@,
                workspace@,
                output,
                dry_run,
            ),
    {
        let toplevel: Handle = match window.cosmic_toplevel {
            Some(toplevel) => toplevel,
            None => {
                return Err(Problem::NotMovable { title: window.title.clone() });
            },
        };
        let output_name: String = match self.compositor.output_name(output) {
            Some(name) => name,
            None => "<unknown>".to_owned(),
        };
        let order: Option<MoveOrder> = if dry_run {
            None
        } else {
            Some(MoveOrder { toplevel, workspace: workspace.handle, output })
        };
        Ok(
            MovePlan {
                order,
                result: MoveResult {
                    window_title: window.title.clone(),
                    window_app_id: window.app_id.clone(),
                    workspace_name: workspace.name.clone(),
                    output_name,
                },
            },
        )
    }

    /// The global objects and capabilities, as they are shown.
    pub fn debug_info(&self) -> (r: DebugInfo)
        ensures
            r.globals@.map_values(|g: GlobalRecord| g@) == self.compositor@.globals,
            text::views(r.toplevel_manager_capabilities@)
                == self.compositor@.manager_capabilities.map_values(
                |c: ToplevelCapability| c.text(),
            ),
    {
        let mut globals: Vec<GlobalRecord> = Vec::new();
        let mut i: usize = 0;
        while i < self.compositor.globals.len()
            invariant
                i <= self.compositor.globals.len(),
                globals.len() == i,
                forall|k: int|
                    0 <= k < i ==> (#[trigger] globals@[k])@ == self.compositor@.globals[k],
            decreases self.compositor.globals.len() - i,
        {
            globals.push(self.compositor.globals[i].clone());
            i = i + 1;
        }
        let mut names: Vec<String> = Vec::new();
        let mut k: usize = 0;
        while k < self.compositor.manager_capabilities.len()
            invariant
                k <= self.compositor.manager_capabilities.len(),
                names.len() == k,
                forall|j: int|
                    0 <= j < k ==> (#[trigger] names@[j])@
                        == self.compositor@.manager_capabilities[j].text(),
            decreases self.compositor.manager_capabilities.len() - k,
        {
            names.push(compositor::display_capability(self.compositor.manager_capabilities[k]));
            k = k + 1;
        }
        assert(globals@.map_values(|g: GlobalRecord| g@) =~= self.compositor@.globals);
        assert(text::views(names@) =~= self.compositor@.manager_capabilities.map_values(
            |c: ToplevelCapability| c.text(),
        ));
        DebugInfo { globals, toplevel_manager_capabilities: names }
    }

    /// The activation of the window that answers the query.
    pub fn activate_window(&self, query: Query) -> (r: Result<Activation, WmError>)
        ensures
            error::outcome(r) == activation_plan(self.compositor@, query@),
    {
        let snapshot: Snapshot = self.snapshot();
        match model::match_window(snapshot.windows.as_slice(), &query) {
            Ok(window) => {
                let toplevel: Handle = match window.cosmic_toplevel {
                    Some(toplevel) => toplevel,
                    None => {
                        return Err(Problem::NotActivatable { title: window.title.clone() });
                    },
                };
                let seat: Handle = match self.compositor.first_seat() {
                    Some(seat) => seat,
                    None => {
                        return Err(Problem::NoSeat);
                    },
                };
                Ok(
                    Activation {
                        order: ActivateOrder { toplevel, seat },
                        result: ActivateWindowResult {
                            title: window.title.clone(),
                            app_id: window.app_id.clone(),
                        },
                    },
                )
            },
            Err(e) => Err(e),
        }
    }

    /// The workspace to activate: the one that the selector names.
    pub fn activate_workspace(&self, selector: &str) -> (r: Result<Handle, WmError>)
        ensures
            match r {
                Ok(handle) => model::chosen_workspace(
                    self.compositor@.snapshot_view().workspaces,
                    selector@,
                ) matches Ok(workspace) && workspace.handle == handle,
                Err(e) => model::chosen_workspace(
                    self.compositor@.snapshot_view().workspaces,
                    selector@,
                ) == Err::<WorkspaceView, ErrorView>(e@),
            },
    {
        let snapshot: Snapshot = self.snapshot();
        match model::match_workspace(snapshot.workspaces.as_slice(), selector) {
            Ok(workspace) => Ok(workspace.handle),
            Err(e) => Err(e),
        }
    }

    /// Starts to watch for new windows. The windows that are open already are
    /// not moved, unless they are to be moved too.
    pub fn daemon(&mut self, move_existing: bool, now: u64)
        ensures
            final(self).compositor == old(self).compositor,
            final(self).tracker@ == old(self).tracker@.anchored(
                old(self).compositor@.snapshot_view().windows,
                move_existing,
                now,
            ),
    {
        let snapshot: Snapshot = self.snapshot();
        self.tracker.anchor(&snapshot.windows, move_existing, now);
    }

    /// Looks for the next window, at position `from` or behind it, that the
    /// rules move. Without rules there is nothing to look for.
    pub fn apply_rules(&mut self, rules: &Vec<Rule>, from: usize, now: u64, dry_run: bool) -> (r:
        RuleStep)
        ensures
            final(self).compositor == old(self).compositor,
            rules.len() == 0 ==> final(self).tracker@ == old(self).tracker@ && r@
                == RuleStepView::Finished,
            rules.len() > 0 ==> ({
                let windows = old(self).compositor@.snapshot_view().windows;
                let targets = wanted_targets(rules::rule_views(rules@), windows);
                let (later, step) = old(self).tracker@.advanced(windows, targets, from as int, now);
                &&& final(self).tracker@ == later
                &&& r@ == rule_step(old(self).compositor@, step, dry_run)
            }),
    {
        if rules.len() == 0 {
            return RuleStep::Finished;
        }
        let snapshot: Snapshot = self.snapshot();
        let targets: Vec<Option<String>> = find_targets(rules, &snapshot.windows);
        proof {
            assert(tracker::target_views(targets@).len() == snapshot@.windows.len());
        }
        self.apply_targets(&targets, from, now, dry_run)
    }

    /// Looks for the next window, at position `from` or behind it, that is to
    /// be moved. `targets` holds, for each window, the selector of the
    /// workspace that it is wanted on.
    pub fn apply_targets(
        &mut self,
        targets: &Vec<Option<String>>,
        from: usize,
        now: u64,
        dry_run: bool,
    ) -> (r: RuleStep)
        requires
            targets.len() == old(self).compositor.toplevels.len(),
        ensures
            final(self).compositor == old(self).compositor,
            ({
                let windows = old(self).compositor@.snapshot_view().windows;
                let (later, step) = old(self).tracker@.advanced(
                    windows,
                    tracker::target_views(targets@),
                    from as int,
                    now,
                );
                &&& final(self).tracker@ == later
                &&& r@ == rule_step(old(self).compositor@, step, dry_run)
            }),
            r matches RuleStep::Move { index, id, workspace, plan } ==> {
                &&& index < old(self).compositor.toplevels.len()
                &&& id == old(self).compositor.toplevels@[index as int].foreign_id
                &&& plan.order is None <==> dry_run
                &&& plan.order matches Some(order)
                    ==> old(self).compositor.toplevels@[index as int].cosmic_toplevel == Some(
                    order.toplevel,
                )
            },
    {
        let snapshot: Snapshot = self.snapshot();
        assert(snapshot@.windows.len() == snapshot.windows.len());
        match self.tracker.advance(&snapshot.windows, targets, from, now) {
            Step::Finished => RuleStep::Finished,
            Step::Attempt { index, workspace } => {
                let window: &WindowRecord = &snapshot.windows[index];
                assert(snapshot@.windows[index as int] == window@);
                match self.move_window_record(window, workspace.as_str(), dry_run) {
                    Ok(plan) => RuleStep::Move { index, id: window.foreign_id, workspace, plan },
                    Err(problem) => RuleStep::Failed { index, problem },
                }
            },
        }
    }

    /// Takes down that the window has been moved by the selector.
    pub fn record_move(&mut self, id: u32, workspace: String)
        ensures
            final(self).compositor == old(self).compositor,
            final(self).tracker@ == old(self).tracker@.recorded(id, workspace@),
    {
        self.tracker.record(id, workspace);
    }

    /// The moves of the windows that are open to the workspaces that the
    /// rules want them on, up to the first that cannot be made, and why it
    /// cannot.
    pub fn apply_rules_now(&self, rules: &Vec<Rule>) -> (r: (Vec<MovePlan>, Option<WmError>))
        ensures
            ({
                let windows = self.compositor@.snapshot_view().windows;
                (plan_views(r.0@), problem_view(r.1)) == moves_now(
                    self.compositor@,
                    windows,
                    wanted_targets(rules::rule_views(rules@), windows),
                    0,
                    Set::empty(),
                )
            }),
            forall|k: int| 0 <= k < r.0.len() ==> (#[trigger] r.0@[k]).order is Some,
    {
        let snapshot: Snapshot = self.snapshot();
        let targets: Vec<Option<String>> = find_targets(rules, &snapshot.windows);
        proof {
            assert(tracker::target_views(targets@).len() == snapshot@.windows.len());
        }
        self.move_targets(&targets)
    }

    /// The moves of the windows that are open to their targets, up to the
    /// first that cannot be made, and why it cannot.
    pub fn move_targets(&self, targets: &Vec<Option<String>>) -> (r: (
        Vec<MovePlan>,
        Option<WmError>,
    ))
        requires
            targets.len() == self.compositor.toplevels.len(),
        ensures
            (plan_views(r.0@), problem_view(r.1)) == moves_now(
                self.compositor@,
                self.compositor@.snapshot_view().windows,
                tracker::target_views(targets@),
                0,
                Set::empty(),
            ),
            forall|k: int| 0 <= k < r.0.len() ==> (#[trigger] r.0@[k]).order is Some,
    {
        let snapshot: Snapshot = self.snapshot();
        let ghost all = snapshot@.windows;
        let ghost wanted = tracker::target_views(targets@);
        let ghost whole = moves_now(self.compositor@, all, wanted, 0, Set::empty());
        let mut handled: Tracker = Tracker::new();
        let mut plans: Vec<MovePlan> = Vec::new();
        let mut i: usize = 0;
        assert(plan_views(plans@) + whole.0 =~= whole.0);
        while i < snapshot.windows.len()
            invariant
                i <= snapshot.windows.len(),
                targets.len() == snapshot.windows.len(),
                all == snapshot@.windows,
                all == self.compositor@.snapshot_view().windows,
                wanted == tracker::target_views(targets@),
                whole == moves_now(self.compositor@, all, wanted, 0, Set::empty()),
                ({
                    let (rest, failure) = moves_now(
                        self.compositor@,
                        all,
                        wanted,
                        i as int,
                        handled@.moved,
                    );
                    &&& whole.0 == plan_views(plans@) + rest
                    &&& whole.1 == failure
                }),
                forall|k: int| 0 <= k < plans.len() ==> (#[trigger] plans@[k]).order is Some,
            decreases snapshot.windows.len() - i,
        {
            let window: &WindowRecord = &snapshot.windows[i];
            assert(all[i as int] == window@);
            assert(wanted[i as int] == text::opt_view(targets@[i as int]));
            if let Some(workspace) = &targets[i] {
                if !handled.has_moved(window.foreign_id, workspace.as_str()) {
                    match self.move_window_record(window, workspace.as_str(), false) {
                        Ok(plan) => {
                            let ghost added = plan@;
                            let ghost before = plan_views(plans@);
                            let ghost rest = moves_now(
                                self.compositor@,
                                all,
                                wanted,
                                i + 1,
                                handled@.moved.insert((window@.foreign_id, workspace@)),
                            ).0;
                            handled.record(window.foreign_id, workspace.clone());
                            plans.push(plan);
                            proof {
                                assert(plan_views(plans@) =~= before.push(added));
                                assert(before + (seq![added] + rest) =~= plan_views(plans@) + rest);
                            }
                        },
                        Err(problem) => {
                            assert(plan_views(plans@) + Seq::<PlanView>::empty() =~= plan_views(
                                plans@,
                            ));
                            return (plans, Some(problem));
                        },
                    }
                }
            }
            i = i + 1;
        }
        assert(plan_views(plans@) + Seq::<PlanView>::empty() =~= plan_views(plans@));
        (plans, None)
    }
}

/// A dry run comes to what the real move comes to, but sends nothing.
pub proof fn law_dry_run(
    compositor: CompositorView,
    window: WindowView,
    selector: Seq<char>,
    requested: Option<Seq<char>>,
)
    ensures
        match record_plan(compositor, window, selector, requested, false) {
            Ok(plan) => plan.order is Some && record_plan(
                compositor,
                window,
                selector,
                requested,
                true,
            ) == Ok::<PlanView, ErrorView>(PlanView { order: None, ..plan }),
            Err(e) => record_plan(compositor, window, selector, requested, true) == Err::<
                PlanView,
                ErrorView,
            >(e),
        },
{
}

/// What is sent is for the window that was meant, for the one workspace that
/// answers the selector, and for an output of that workspace.
pub proof fn law_order_is_meant(
    compositor: CompositorView,
    window: WindowView,
    selector: Seq<char>,
    requested: Option<Seq<char>>,
)
    ensures
        record_plan(compositor, window, selector, requested, false) matches Ok(plan) ==> {
            let workspaces = compositor.snapshot_view().workspaces;
            let order = plan.order->0;
            &&& window.cosmic_toplevel == Some(order.toplevel)
            &&& model::chosen_workspace(workspaces, selector) matches Ok(workspace)
            &&& workspace.answers(selector)
            &&& order.workspace == workspace.handle
            &&& workspace.output_handles.contains(order.output)
        },
{
    let workspaces = compositor.snapshot_view().workspaces;
    if let Ok(workspace) = model::chosen_workspace(workspaces, selector) {
        model::law_placement(workspace, window, None);
        if let Some(name) = requested {
            list::lemma_first_from(
                workspace.output_handles,
                |o: Handle| compositor.is_named(o, name),
                0,
            );
        }
        model::law_workspace_choice(workspaces, selector);
        let answers = |w: WorkspaceView| w.answers(selector);
        let i = choose|i: int| #[trigger] list::sole_position(workspaces, answers, i);
        assert(list::sole_position(workspaces, answers, i));
    }
}

/// Where an output is asked for by name, the window goes to the first output
/// of the workspace that has this name, ASCII case aside, whatever outputs
/// without a name there are; it is refused for its output exactly where the
/// workspace has no such output.
pub proof fn law_requested_output(
    compositor: CompositorView,
    window_query: Seq<SelectorView>,
    selector: Seq<char>,
    name: Seq<char>,
    force_ext_move: bool,
)
    ensures
        ({
            let asked = request_plan(
                compositor,
                window_query,
                selector,
                Some(name),
                false,
                force_ext_move,
            );
            let workspace = model::chosen_workspace(
                compositor.snapshot_view().workspaces,
                selector,
            )->Ok_0;
            let outputs = workspace.output_handles;
            &&& asked matches Ok(plan) ==> exists|i: int|
                {
                    &&& 0 <= i < outputs.len()
                    &&& plan.order->0.output == #[trigger] outputs[i]
                    &&& compositor.is_named(outputs[i], name)
                    &&& compositor.output_label(outputs[i]) == Some(plan.result.output_name)
                    &&& forall|j: int|
                        0 <= j < i ==> !compositor.is_named(#[trigger] outputs[j], name)
                }
            &&& compositor.move_obstacle(force_ext_move) is None && model::chosen_window(
                compositor.snapshot_view().windows,
                window_query,
            ) is Ok && model::chosen_workspace(compositor.snapshot_view().workspaces, selector) is Ok
                ==> ((asked matches Err(Problem::NotOnOutput { .. })) <==> forall|j: int|
                0 <= j < outputs.len() ==> !compositor.is_named(#[trigger] outputs[j], name))
        }),
{
    if let Ok(workspace) = model::chosen_workspace(
        compositor.snapshot_view().workspaces,
        selector,
    ) {
        let outputs = workspace.output_handles;
        let pred = |o: Handle| compositor.is_named(o, name);
        list::lemma_first_from(outputs, pred, 0);
        if let Some(i) = list::first_where(outputs, pred) {
            assert(pred(outputs[i]));
            assert forall|j: int| 0 <= j < i implies !compositor.is_named(
                #[trigger] outputs[j],
                name,
            ) by {
                assert(!pred(outputs[j]));
            }
        } else {
            assert forall|j: int| 0 <= j < outputs.len() implies !compositor.is_named(
                #[trigger] outputs[j],
                name,
            ) by {
                assert(!pred(outputs[j]));
            }
        }
    }
}

/// A window is activated exactly when it alone answers the query, has a
/// toplevel handle, and there is a seat; the order is for its toplevel and the
/// first seat then.
pub proof fn law_activation_is_meant(compositor: CompositorView, window_query: Seq<SelectorView>)
    ensures
        ({
            let windows = compositor.snapshot_view().windows;
            let answers = |w: WindowView| query::query_selects(window_query, w);
            let plan = activation_plan(compositor, window_query);
            &&& plan is Ok <==> compositor.seats.len() > 0 && exists|i: int| #[trigger]
                list::sole_position(windows, answers, i) && windows[i].cosmic_toplevel is Some
            &&& forall|i: int| #[trigger]
                list::sole_position(windows, answers, i) && plan is Ok ==> {
                    let activation = plan->Ok_0;
                    &&& windows[i].cosmic_toplevel == Some(activation.order.toplevel)
                    &&& activation.order.seat == compositor.seats[0]
                    &&& activation.title == windows[i].title
                    &&& activation.app_id == windows[i].app_id
                }
        }),
{
    model::law_window_choice(compositor.snapshot_view().windows, window_query);
}

/// A move is never refused for want of support where the capability is
/// advertised or the check is bypassed.
pub proof fn law_move_allowed(compositor: CompositorView, force_ext_move: bool)
    requires
        force_ext_move || compositor.advertises(ToplevelCapability::MoveToExtWorkspace),
    ensures
        compositor.move_obstacle(force_ext_move) is None,
{
}

/// Every move that is made at once is the move of an open window to the
/// workspace that it is wanted on.
pub proof fn law_moves_are_wanted(
    compositor: CompositorView,
    windows: Seq<WindowView>,
    targets: Seq<Option<Seq<char>>>,
    from: int,
    handled: Set<(u32, Seq<char>)>,
    k: int,
)
    requires
        0 <= from,
        0 <= k < moves_now(compositor, windows, targets, from, handled).0.len(),
    ensures
        exists|i: int|
            from <= i < windows.len() && (#[trigger] targets[i]) is Some && record_plan(
                compositor,
                windows[i],
                targets[i]->0,
                None,
                false,
            ) == Ok::<PlanView, ErrorView>(
                moves_now(compositor, windows, targets, from, handled).0[k],
            ),
    decreases windows.len() - from,
{
    if from < windows.len() {
        match targets[from] {
            None => {
                law_moves_are_wanted(compositor, windows, targets, from + 1, handled, k);
            },
            Some(workspace) => {
                let key = (windows[from].foreign_id, workspace);
                if handled.contains(key) {
                    law_moves_are_wanted(compositor, windows, targets, from + 1, handled, k);
                } else if record_plan(compositor, windows[from], workspace, None, false) is Ok {
                    let later = handled.insert(key);
                    if k > 0 {
                        let rest = moves_now(compositor, windows, targets, from + 1, later).0;
                        law_moves_are_wanted(compositor, windows, targets, from + 1, later, k - 1);
                        assert(moves_now(compositor, windows, targets, from, handled).0[k]
                            == rest[k - 1]);
                    }
                }
            },
        }
    }
}

/// Is the output at position `k` the one of the workspace for the window? Where
/// one was asked for, it is the first of that name. Otherwise it is the first
/// that shows the window already, or the first of all where none does.
pub open spec fn is_place(
    compositor: CompositorView,
    workspace: WorkspaceView,
    window: WindowView,
    requested: Option<Seq<char>>,
    k: int,
) -> bool {
    let outputs = workspace.output_handles;
    &&& 0 <= k < outputs.len()
    &&& match requested {
        Some(name) => compositor.is_named(outputs[k], name) && forall|j: int|
            0 <= j < k ==> !compositor.is_named(#[trigger] outputs[j], name),
        None => {
            ||| window.output_handles.contains(outputs[k]) && forall|j: int|
                0 <= j < k ==> !window.output_handles.contains(#[trigger] outputs[j])
            ||| k == 0 && forall|j: int|
                0 <= j < outputs.len() ==> !window.output_handles.contains(#[trigger] outputs[j])
        },
    }
}

/// Can the window be moved? It has a toplevel handle, one workspace alone
/// answers the selector, and that workspace has an output for the window.
pub open spec fn is_movable(
    compositor: CompositorView,
    window: WindowView,
    selector: Seq<char>,
    requested: Option<Seq<char>>,
) -> bool {
    let workspaces = compositor.snapshot_view().workspaces;
    let answers = |w: WorkspaceView| w.answers(selector);
    &&& window.cosmic_toplevel is Some
    &&& exists|i: int, k: int|
        #![trigger list::sole_position(workspaces, answers, i), is_place(
            compositor,
            workspaces[i],
            window,
            requested,
            k,
        )]
        list::sole_position(workspaces, answers, i) && is_place(
            compositor,
            workspaces[i],
            window,
            requested,
            k,
        )
}

/// Does the plan serve the move of the window? Unless nothing is to be sent,
/// its order is for the toplevel of the window, for the one workspace that
/// answers the selector, and for the output of that workspace that the window
/// is placed on; and that is what the plan tells of.
pub open spec fn serves(
    compositor: CompositorView,
    window: WindowView,
    selector: Seq<char>,
    requested: Option<Seq<char>>,
    dry_run: bool,
    plan: PlanView,
) -> bool {
    let workspaces = compositor.snapshot_view().workspaces;
    let answers = |w: WorkspaceView| w.answers(selector);
    &&& plan.order is None <==> dry_run
    &&& plan.result.window_title == window.title
    &&& plan.result.window_app_id == window.app_id
    &&& exists|i: int, k: int|
        #![trigger list::sole_position(workspaces, answers, i), is_place(
            compositor,
            workspaces[i],
            window,
            requested,
            k,
        )]
        {
            let output = workspaces[i].output_handles[k];
            &&& list::sole_position(workspaces, answers, i)
            &&& is_place(compositor, workspaces[i], window, requested, k)
            &&& plan.order matches Some(order) ==> {
                &&& window.cosmic_toplevel == Some(order.toplevel)
                &&& order.workspace == workspaces[i].handle
                &&& order.output == output
            }
            &&& plan.result.workspace_name == workspaces[i].name
            &&& compositor.output_label(output) matches Some(label) ==> plan.result.output_name
                == label
            &&& compositor.output_label(output) is None ==> plan.result.output_name == "<unknown>"@
        }
}

/// A window is moved exactly where it can be, and the plan serves the move; a
/// plan without an order comes of a dry run and of nothing else.
pub proof fn law_move_is_served(
    compositor: CompositorView,
    window: WindowView,
    selector: Seq<char>,
    requested: Option<Seq<char>>,
    dry_run: bool,
)
    ensures
        record_plan(compositor, window, selector, requested, dry_run) is Ok <==> is_movable(
            compositor,
            window,
            selector,
            requested,
        ),
        record_plan(compositor, window, selector, requested, dry_run) matches Ok(plan) ==> serves(
            compositor,
            window,
            selector,
            requested,
            dry_run,
            plan,
        ),
{
    let workspaces = compositor.snapshot_view().workspaces;
    let answers = |w: WorkspaceView| w.answers(selector);
    model::law_workspace_choice(workspaces, selector);
    if let Ok(workspace) = model::chosen_workspace(workspaces, selector) {
        let i = choose|i: int| #[trigger] list::sole_position(workspaces, answers, i);
        assert(list::sole_position(workspaces, answers, i));
        assert(workspaces[i] == workspace);
        lemma_place(compositor, workspace, window, requested);
        if let Ok(output) = placed_output(compositor, workspace, window, requested) {
            let k = choose|k: int|
                #[trigger] is_place(compositor, workspace, window, requested, k)
                    && workspace.output_handles[k] == output;
            assert(is_place(compositor, workspaces[i], window, requested, k));
        } else {
            assert forall|j: int, k: int|
                #![trigger list::sole_position(workspaces, answers, j), is_place(
                    compositor,
                    workspaces[j],
                    window,
                    requested,
                    k,
                )]
                !(list::sole_position(workspaces, answers, j) && is_place(
                    compositor,
                    workspaces[j],
                    window,
                    requested,
                    k,
                )) by {
                if list::sole_position(workspaces, answers, j) {
                    assert(workspaces[j] == workspace);
                }
            }
        }
    }
}

/// The output that a window is placed on is the one of the workspace for it;
/// there is none only where the workspace has no such output.
proof fn lemma_place(
    compositor: CompositorView,
    workspace: WorkspaceView,
    window: WindowView,
    requested: Option<Seq<char>>,
)
    ensures
        match placed_output(compositor, workspace, window, requested) {
            Ok(output) => exists|k: int| #[trigger]
                is_place(compositor, workspace, window, requested, k)
                    && workspace.output_handles[k] == output,
            Err(_) => forall|k: int| !#[trigger]
                is_place(compositor, workspace, window, requested, k),
        },
{
    let outputs = workspace.output_handles;
    match requested {
        Some(name) => {
            let pred = |o: Handle| compositor.is_named(o, name);
            list::lemma_first_from(outputs, pred, 0);
            match list::first_where(outputs, pred) {
                Some(k) => {
                    assert forall|j: int| 0 <= j < k implies !compositor.is_named(
                        #[trigger] outputs[j],
                        name,
                    ) by {
                        assert(!pred(outputs[j]));
                    }
                    assert(pred(outputs[k]));
                    assert(is_place(compositor, workspace, window, requested, k));
                },
                None => {
                    assert forall|k: int| !#[trigger]
                        is_place(compositor, workspace, window, requested, k) by {
                        if 0 <= k < outputs.len() {
                            assert(!pred(outputs[k]));
                        }
                    }
                },
            }
        },
        None => {
            let pred = |o: Handle| window.output_handles.contains(o);
            list::lemma_first_from(outputs, pred, 0);
            match list::first_where(outputs, pred) {
                Some(k) => {
                    assert(pred(outputs[k]));
                    assert forall|j: int| 0 <= j < k implies !window.output_handles.contains(
                        #[trigger] outputs[j],
                    ) by {
                        assert(!pred(outputs[j]));
                    }
                    assert(is_place(compositor, workspace, window, requested, k));
                },
                None => {
                    assert forall|j: int|
                        0 <= j < outputs.len() implies !window.output_handles.contains(
                        #[trigger] outputs[j],
                    ) by {
                        assert(!pred(outputs[j]));
                    }
                    if outputs.len() > 0 {
                        assert(is_place(compositor, workspace, window, requested, 0));
                    }
                },
            }
        },
    }
}

/// A request is served exactly where moves are supported, one window alone
/// answers its query and that window can be moved; the plan serves the move of
/// that window then. It has an order exactly where the request is no dry run,
/// whether or not an output was asked for.
pub proof fn law_request_is_served(
    compositor: CompositorView,
    window_query: Seq<SelectorView>,
    selector: Seq<char>,
    requested: Option<Seq<char>>,
    dry_run: bool,
    force_ext_move: bool,
)
    ensures
        ({
            let windows = compositor.snapshot_view().windows;
            let selects = |w: WindowView| query::query_selects(window_query, w);
            let planned = request_plan(
                compositor,
                window_query,
                selector,
                requested,
                dry_run,
                force_ext_move,
            );
            &&& planned is Ok <==> compositor.move_obstacle(force_ext_move) is None && exists|n: int|
                #[trigger] list::sole_position(windows, selects, n) && is_movable(
                    compositor,
                    windows[n],
                    selector,
                    requested,
                )
            &&& planned matches Ok(plan) ==> (plan.order is None <==> dry_run)
            &&& planned matches Ok(plan) ==> forall|n: int| #[trigger]
                list::sole_position(windows, selects, n) ==> serves(
                    compositor,
                    windows[n],
                    selector,
                    requested,
                    dry_run,
                    plan,
                )
            &&& compositor.move_obstacle(force_ext_move) is Some ==> planned == Err::<
                PlanView,
                ErrorView,
            >(compositor.move_obstacle(force_ext_move)->0)
            &&& compositor.move_obstacle(force_ext_move) is None ==> {
                &&& model::chosen_window(windows, window_query) matches Err(e) ==> planned == Err::<
                    PlanView,
                    ErrorView,
                >(e)
                &&& forall|n: int| #[trigger]
                    list::sole_position(windows, selects, n) ==> planned == record_plan(
                        compositor,
                        windows[n],
                        selector,
                        requested,
                        dry_run,
                    )
            }
        }),
{
    let windows = compositor.snapshot_view().windows;
    let selects = |w: WindowView| query::query_selects(window_query, w);
    model::law_window_choice(windows, window_query);
    if let Ok(window) = model::chosen_window(windows, window_query) {
        let n = choose|n: int| #[trigger] list::sole_position(windows, selects, n);
        assert(list::sole_position(windows, selects, n));
        law_move_is_served(compositor, window, selector, requested, dry_run);
    }
}

/// What keeps a window from being moved is told: that no workspace answers the
/// selector, or more than one does; that the workspace has no output for the
/// window; and else that the window has no toplevel handle.
pub proof fn law_move_is_refused(
    compositor: CompositorView,
    window: WindowView,
    selector: Seq<char>,
    requested: Option<Seq<char>>,
    dry_run: bool,
)
    requires
        !is_movable(compositor, window, selector, requested),
    ensures
        ({
            let workspaces = compositor.snapshot_view().workspaces;
            let answers = |w: WorkspaceView| w.answers(selector);
            let planned = record_plan(compositor, window, selector, requested, dry_run);
            &&& (forall|j: int|
                0 <= j < workspaces.len() ==> !(#[trigger] workspaces[j]).answers(selector))
                ==> planned == Err::<PlanView, ErrorView>(Problem::NoWorkspace { selector })
            &&& (exists|a: int, b: int|
                0 <= a < b < workspaces.len() && (#[trigger] workspaces[a]).answers(selector)
                    && (#[trigger] workspaces[b]).answers(selector)) ==> (planned matches Err(
                Problem::AmbiguousWorkspace { selector: told, .. },
            ) && told == selector)
            &&& forall|i: int| #[trigger]
                list::sole_position(workspaces, answers, i) ==> {
                    if exists|k: int| #[trigger]
                        is_place(compositor, workspaces[i], window, requested, k) {
                        planned == Err::<PlanView, ErrorView>(
                            Problem::NotMovable { title: window.title },
                        )
                    } else if requested is None {
                        planned == Err::<PlanView, ErrorView>(
                            Problem::NoOutputs { workspace: workspaces[i].name },
                        )
                    } else {
                        planned matches Err(Problem::NotOnOutput { workspace, output, .. })
                            && workspace == workspaces[i].name && output == requested->0
                    }
                }
        }),
{
    let workspaces = compositor.snapshot_view().workspaces;
    let answers = |w: WorkspaceView| w.answers(selector);
    model::law_workspace_choice(workspaces, selector);
    if exists|a: int, b: int|
        0 <= a < b < workspaces.len() && (#[trigger] workspaces[a]).answers(selector) && (
        #[trigger] workspaces[b]).answers(selector) {
        let (a, b) = choose|a: int, b: int|
            0 <= a < b < workspaces.len() && (#[trigger] workspaces[a]).answers(selector) && (
            #[trigger] workspaces[b]).answers(selector);
        assert forall|i: int| !#[trigger] list::sole_position(workspaces, answers, i) by {
            if list::sole_position(workspaces, answers, i) {
                assert(answers(workspaces[a]) && answers(workspaces[b]));
            }
        }
    }
    assert forall|i: int| #[trigger] list::sole_position(workspaces, answers, i) implies {
        let planned = record_plan(compositor, window, selector, requested, dry_run);
        if exists|k: int| #[trigger] is_place(compositor, workspaces[i], window, requested, k) {
            planned == Err::<PlanView, ErrorView>(Problem::NotMovable { title: window.title })
        } else if requested is None {
            planned == Err::<PlanView, ErrorView>(
                Problem::NoOutputs { workspace: workspaces[i].name },
            )
        } else {
            planned matches Err(Problem::NotOnOutput { workspace, output, .. }) && workspace
                == workspaces[i].name && output == requested->0
        }
    } by {
        lemma_place(compositor, workspaces[i], window, requested);
    }
}

/// Is the rule at position `k` the first that applies to the window?
pub open spec fn is_first_to_apply(rules: Seq<RuleView>, window: WindowView, k: int) -> bool {
    &&& 0 <= k < rules.len()
    &&& rules[k].applies(window.app_id, window.title)
    &&& forall|j: int|
        0 <= j < k ==> !(#[trigger] rules[j]).applies(window.app_id, window.title)
}

/// A window is wanted on the workspace that the first rule that applies to it
/// names, and nowhere where no rule applies.
pub proof fn law_window_is_wanted(rules: Seq<RuleView>, windows: Seq<WindowView>, i: int)
    requires
        0 <= i < windows.len(),
    ensures
        wanted_targets(rules, windows).len() == windows.len(),
        wanted_targets(rules, windows)[i] is None <==> forall|k: int|
            0 <= k < rules.len() ==> !(#[trigger] rules[k]).applies(
                windows[i].app_id,
                windows[i].title,
            ),
        forall|k: int| #[trigger]
            is_first_to_apply(rules, windows[i], k) ==> wanted_targets(rules, windows)[i] == Some(
                rules[k].workspace,
            ),
        wanted_targets(rules, windows)[i] is Some ==> exists|k: int| #[trigger]
            is_first_to_apply(rules, windows[i], k),
{
    let window = windows[i];
    let pred = |r: RuleView| r.applies(window.app_id, window.title);
    list::lemma_first_from(rules, pred, 0);
    match list::first_where(rules, pred) {
        Some(k) => {
            assert(pred(rules[k]));
            assert forall|j: int| 0 <= j < k implies !(#[trigger] rules[j]).applies(
                window.app_id,
                window.title,
            ) by {
                assert(!pred(rules[j]));
            }
            assert(is_first_to_apply(rules, window, k));
            assert forall|n: int| #[trigger] is_first_to_apply(rules, window, n) implies n == k by {
                if k < n {
                    assert(!rules[k].applies(window.app_id, window.title));
                }
            }
        },
        None => {
            assert forall|k: int| 0 <= k < rules.len() implies !(#[trigger] rules[k]).applies(
                window.app_id,
                window.title,
            ) by {
                assert(!pred(rules[k]));
            }
        },
    }
}

/// Whatever a look of the daemon comes to is for a window that it has looked at
/// and that a rule applies to, by the workspace of the first such rule. Where
/// the window can be moved the plan serves that move, with an order exactly
/// where it is no dry run; where it cannot be, that is told and nothing is
/// planned.
pub proof fn law_rule_is_carried_out(
    compositor: CompositorView,
    tracker: TrackerView,
    rules: Seq<RuleView>,
    from: nat,
    now: u64,
    dry_run: bool,
)
    ensures
        ({
            let windows = compositor.snapshot_view().windows;
            let step = tracker.advanced(
                windows,
                wanted_targets(rules, windows),
                from as int,
                now,
            ).1;
            match rule_step(compositor, step, dry_run) {
                RuleStepView::Move { index, id, workspace, plan } => {
                    &&& from <= index < windows.len()
                    &&& id == windows[index].foreign_id
                    &&& exists|k: int| #[trigger]
                        is_first_to_apply(rules, windows[index], k) && workspace
                            == rules[k].workspace
                    &&& plan.order is None <==> dry_run
                    &&& serves(compositor, windows[index], workspace, None, dry_run, plan)
                },
                RuleStepView::Failed { index, problem } => {
                    &&& from <= index < windows.len()
                    &&& exists|k: int| #[trigger]
                        is_first_to_apply(rules, windows[index], k) && !is_movable(
                            compositor,
                            windows[index],
                            rules[k].workspace,
                            None,
                        ) && record_plan(
                            compositor,
                            windows[index],
                            rules[k].workspace,
                            None,
                            dry_run,
                        ) == Err::<PlanView, ErrorView>(problem)
                },
                RuleStepView::Finished => step is Finished,
            }
        }),
{
    let windows = compositor.snapshot_view().windows;
    let targets = wanted_targets(rules, windows);
    tracker::lemma_advanced(tracker, windows, targets, from as int, now);
    let step = tracker.advanced(windows, targets, from as int, now).1;
    if let StepView::Attempt { index, workspace } = step {
        law_window_is_wanted(rules, windows, index);
        let k = choose|k: int| #[trigger] is_first_to_apply(rules, windows[index], k);
        assert(is_first_to_apply(rules, windows[index], k));
        assert(targets[index] == Some(rules[k].workspace));
        law_move_is_served(compositor, windows[index], workspace, None, dry_run);
        if let RuleStepView::Failed { index: at, problem } = rule_step(compositor, step, dry_run) {
            assert(record_plan(compositor, windows[index], rules[k].workspace, None, dry_run)
                == Err::<PlanView, ErrorView>(problem));
        }
    }
}

/// A dry run of the daemon picks the window that the real run picks, and tells
/// of the same move.
pub proof fn law_rule_dry_run(compositor: CompositorView, step: StepView)
    ensures
        match rule_step(compositor, step, false) {
            RuleStepView::Move { index, id, workspace, plan } => rule_step(compositor, step, true)
                == (RuleStepView::Move {
                index,
                id,
                workspace,
                plan: PlanView { order: None, ..plan },
            }),
            other => rule_step(compositor, step, true) == other,
        },
{
    if let StepView::Attempt { index, workspace } = step {
        law_dry_run(compositor, compositor.snapshot_view().windows[index], workspace, None);
    }
}

/// Is the window at position `i` to be moved at once? It is wanted on a
/// workspace, and no window before it stands for the same move.
pub open spec fn is_due(
    windows: Seq<WindowView>,
    targets: Seq<Option<Seq<char>>>,
    i: int,
) -> bool {
    &&& 0 <= i < windows.len()
    &&& targets[i] is Some
    &&& forall|j: int|
        0 <= j < i && (#[trigger] windows[j]).foreign_id == windows[i].foreign_id ==> targets[j]
            != targets[i]
}

/// What the moves from position `from` on are: those of the positions that are
/// due, in their order, up to the first that cannot be made.
proof fn lemma_moves_now(
    compositor: CompositorView,
    windows: Seq<WindowView>,
    targets: Seq<Option<Seq<char>>>,
    from: int,
    handled: Set<(u32, Seq<char>)>,
) -> (positions: Seq<int>)
    requires
        0 <= from <= windows.len(),
        forall|key: (u32, Seq<char>)| #[trigger]
            handled.contains(key) <==> exists|j: int|
                0 <= j < from && (#[trigger] windows[j]).foreign_id == key.0 && targets[j] == Some(
                    key.1,
                ),
    ensures
        ({
            let (plans, failure) = moves_now(compositor, windows, targets, from, handled);
            &&& positions.len() == plans.len()
            &&& forall|k: int|
                0 <= k < positions.len() ==> {
                    let i = #[trigger] positions[k];
                    &&& from <= i < windows.len()
                    &&& is_due(windows, targets, i)
                    &&& serves(compositor, windows[i], targets[i]->0, None, false, plans[k])
                }
            &&& forall|a: int, b: int|
                0 <= a < b < positions.len() ==> #[trigger] positions[a] < #[trigger] positions[b]
            &&& failure is None ==> forall|i: int|
                from <= i && #[trigger] is_due(windows, targets, i) ==> positions.contains(i)
            &&& failure matches Some(e) ==> exists|n: int|
                {
                    &&& from <= n && #[trigger] is_due(windows, targets, n)
                    &&& !is_movable(compositor, windows[n], targets[n]->0, None)
                    &&& record_plan(compositor, windows[n], targets[n]->0, None, false) == Err::<
                        PlanView,
                        ErrorView,
                    >(e)
                    &&& forall|i: int| #[trigger]
                        positions.contains(i) <==> from <= i < n && is_due(windows, targets, i)
                }
        }),
    decreases windows.len() - from,
{
    if from == windows.len() {
        Seq::empty()
    } else {
        match targets[from] {
            None => {
                assert forall|key: (u32, Seq<char>)| #[trigger]
                    handled.contains(key) <==> exists|j: int|
                        0 <= j < from + 1 && (#[trigger] windows[j]).foreign_id == key.0
                            && targets[j] == Some(key.1) by {
                    if exists|j: int|
                        0 <= j < from + 1 && (#[trigger] windows[j]).foreign_id == key.0
                            && targets[j] == Some(key.1) {
                        let j = choose|j: int|
                            0 <= j < from + 1 && (#[trigger] windows[j]).foreign_id == key.0
                                && targets[j] == Some(key.1);
                        assert(j < from);
                    }
                }
                assert(!is_due(windows, targets, from));
                lemma_moves_now(compositor, windows, targets, from + 1, handled)
            },
            Some(workspace) => {
                let key = (windows[from].foreign_id, workspace);
                if handled.contains(key) {
                    let j = choose|j: int|
                        0 <= j < from && (#[trigger] windows[j]).foreign_id == key.0 && targets[j]
                            == Some(key.1);
                    assert(!is_due(windows, targets, from));
                    assert forall|other: (u32, Seq<char>)| #[trigger]
                        handled.contains(other) <==> exists|j: int|
                            0 <= j < from + 1 && (#[trigger] windows[j]).foreign_id == other.0
                                && targets[j] == Some(other.1) by {
                        if exists|j: int|
                            0 <= j < from + 1 && (#[trigger] windows[j]).foreign_id == other.0
                                && targets[j] == Some(other.1) {
                            let j = choose|j: int|
                                0 <= j < from + 1 && (#[trigger] windows[j]).foreign_id == other.0
                                    && targets[j] == Some(other.1);
                            if j == from {
                                assert(other == key);
                            }
                        }
                    }
                    lemma_moves_now(compositor, windows, targets, from + 1, handled)
                } else {
                    assert forall|j: int|
                        0 <= j < from && (#[trigger] windows[j]).foreign_id
                            == windows[from].foreign_id implies targets[j] != targets[from] by {
                        if targets[j] == targets[from] {
                            assert(handled.contains(key));
                        }
                    }
                    assert(is_due(windows, targets, from));
                    law_move_is_served(compositor, windows[from], workspace, None, false);
                    match record_plan(compositor, windows[from], workspace, None, false) {
                        Err(e) => {
                            let none = Seq::<int>::empty();
                            assert forall|i: int| #[trigger]
                                none.contains(i) <==> from <= i < from && is_due(
                                    windows,
                                    targets,
                                    i,
                                ) by {}
                            none
                        },
                        Ok(plan) => {
                            let later = handled.insert(key);
                            assert forall|other: (u32, Seq<char>)| #[trigger]
                                later.contains(other) <==> exists|j: int|
                                    0 <= j < from + 1 && (#[trigger] windows[j]).foreign_id
                                        == other.0 && targets[j] == Some(other.1) by {
                                if other == key {
                                    assert(windows[from].foreign_id == other.0);
                                } else if exists|j: int|
                                    0 <= j < from + 1 && (#[trigger] windows[j]).foreign_id
                                        == other.0 && targets[j] == Some(other.1) {
                                    let j = choose|j: int|
                                        0 <= j < from + 1 && (#[trigger] windows[j]).foreign_id
                                            == other.0 && targets[j] == Some(other.1);
                                    assert(j < from);
                                    assert(handled.contains(other));
                                }
                            }
                            let rest = lemma_moves_now(
                                compositor,
                                windows,
                                targets,
                                from + 1,
                                later,
                            );
                            let (more, failure) = moves_now(
                                compositor,
                                windows,
                                targets,
                                from + 1,
                                later,
                            );
                            let positions = seq![from] + rest;
                            let plans = moves_now(compositor, windows, targets, from, handled).0;
                            assert(plans =~= seq![plan] + more);
                            assert forall|k: int| 0 <= k < positions.len() implies {
                                let i = #[trigger] positions[k];
                                &&& from <= i < windows.len()
                                &&& is_due(windows, targets, i)
                                &&& serves(
                                    compositor,
                                    windows[i],
                                    targets[i]->0,
                                    None,
                                    false,
                                    plans[k],
                                )
                            } by {
                                if k > 0 {
                                    assert(positions[k] == rest[k - 1]);
                                    assert(plans[k] == more[k - 1]);
                                }
                            }
                            assert forall|a: int, b: int|
                                0 <= a < b < positions.len() implies #[trigger] positions[a]
                                < #[trigger] positions[b] by {
                                assert(positions[b] == rest[b - 1]);
                                if a > 0 {
                                    assert(positions[a] == rest[a - 1]);
                                }
                            }
                            assert forall|i: int| #[trigger]
                                positions.contains(i) <==> i == from || rest.contains(i) by {
                                if rest.contains(i) {
                                    let k = choose|k: int| 0 <= k < rest.len() && rest[k] == i;
                                    assert(positions[k + 1] == i);
                                }
                                if i == from {
                                    assert(positions[0] == i);
                                }
                                if positions.contains(i) && i != from {
                                    let k = choose|k: int|
                                        0 <= k < positions.len() && positions[k] == i;
                                    assert(rest[k - 1] == i);
                                }
                            }
                            positions
                        },
                    }
                }
            },
        }
    }
}

/// Where the targets are applied at once, the moves are those of the windows
/// that are due, each once and in the order of the windows. Where nothing
/// fails no such window is left out; where a failure is told, it is of the
/// first of them that cannot be moved, and the ones before it are moved. The
/// positions of the moved windows are given back.
pub proof fn law_all_due_windows_are_moved(
    compositor: CompositorView,
    windows: Seq<WindowView>,
    targets: Seq<Option<Seq<char>>>,
) -> (positions: Seq<int>)
    ensures
        ({
            let (plans, failure) = moves_now(compositor, windows, targets, 0, Set::empty());
            &&& positions.len() == plans.len()
            &&& forall|k: int|
                0 <= k < positions.len() ==> {
                    let i = #[trigger] positions[k];
                    &&& is_due(windows, targets, i)
                    &&& plans[k].order is Some
                    &&& serves(compositor, windows[i], targets[i]->0, None, false, plans[k])
                }
            &&& forall|a: int, b: int|
                0 <= a < b < positions.len() ==> #[trigger] positions[a] < #[trigger] positions[b]
            &&& failure is None ==> forall|i: int| #[trigger]
                is_due(windows, targets, i) ==> positions.contains(i)
            &&& failure matches Some(e) ==> exists|n: int|
                {
                    &&& #[trigger] is_due(windows, targets, n)
                    &&& !is_movable(compositor, windows[n], targets[n]->0, None)
                    &&& record_plan(compositor, windows[n], targets[n]->0, None, false) == Err::<
                        PlanView,
                        ErrorView,
                    >(e)
                    &&& forall|i: int| #[trigger]
                        positions.contains(i) <==> i < n && is_due(windows, targets, i)
                }
        }),
{
    lemma_moves_now(compositor, windows, targets, 0, Set::empty())
}

/// Where the targets are applied at once and nothing fails, every window that
/// is wanted on a workspace gets its move, or a window before it with the same
/// id has the same target.
pub proof fn law_no_wanted_window_is_left(
    compositor: CompositorView,
    windows: Seq<WindowView>,
    targets: Seq<Option<Seq<char>>>,
    i: int,
)
    requires
        0 <= i < windows.len(),
        targets[i] is Some,
        moves_now(compositor, windows, targets, 0, Set::empty()).1 is None,
    ensures
        ({
            let plans = moves_now(compositor, windows, targets, 0, Set::empty()).0;
            ||| exists|k: int|
                0 <= k < plans.len() && serves(
                    compositor,
                    windows[i],
                    targets[i]->0,
                    None,
                    false,
                    #[trigger] plans[k],
                )
            ||| exists|j: int|
                0 <= j < i && (#[trigger] windows[j]).foreign_id == windows[i].foreign_id
                    && targets[j] == targets[i]
        }),
{
    let plans = moves_now(compositor, windows, targets, 0, Set::empty()).0;
    let positions = law_all_due_windows_are_moved(compositor, windows, targets);
    if is_due(windows, targets, i) {
        assert(positions.contains(i));
        let k = choose|k: int| 0 <= k < positions.len() && positions[k] == i;
        assert(serves(compositor, windows[i], targets[i]->0, None, false, plans[k]));
    }
}

/// Where the targets are applied at once to windows with ids of their own and
/// nothing fails, there are as many moves as windows that are wanted on a
/// workspace.
pub proof fn law_moves_are_counted(
    compositor: CompositorView,
    windows: Seq<WindowView>,
    targets: Seq<Option<Seq<char>>>,
)
    requires
        targets.len() == windows.len(),
        forall|i: int, j: int|
            0 <= i < j < windows.len() ==> (#[trigger] windows[i]).foreign_id != (
            #[trigger] windows[j]).foreign_id,
        moves_now(compositor, windows, targets, 0, Set::empty()).1 is None,
    ensures
        moves_now(compositor, windows, targets, 0, Set::empty()).0.len() == targets.filter(
            |t: Option<Seq<char>>| t is Some,
        ).len(),
{
    let positions = law_all_due_windows_are_moved(compositor, windows, targets);
    let wanted = |t: Option<Seq<char>>| t is Some;
    assert forall|i: int|
        0 <= i < targets.len() && targets[i] is Some implies #[trigger] positions.contains(i) by {
        assert(is_due(windows, targets, i));
    }
    assert forall|k: int| 0 <= k < positions.len() implies 0 <= #[trigger] positions[k]
        < targets.len() && wanted(targets[positions[k]]) by {
        assert(is_due(windows, targets, positions[k]));
    }
    list::lemma_filter_positions(targets, wanted, positions);
}

/// What contracts say of a plan, of an activation and of a step they say of the
/// orders and texts that a program finds in it.
pub proof fn law_plans_are_seen_as_they_are(plan: MovePlan, activation: Activation, step: RuleStep)
    ensures
        plan@.order == plan.order,
        plan@.result.window_title == plan.result.window_title@,
        plan@.result.window_app_id == plan.result.window_app_id@,
        plan@.result.workspace_name == plan.result.workspace_name@,
        plan@.result.output_name == plan.result.output_name@,
        activation@.order == activation.order,
        activation@.title == activation.result.title@,
        activation@.app_id == activation.result.app_id@,
        match step {
            RuleStep::Move { index, id, workspace, plan } => step@ matches RuleStepView::Move {
                index: i,
                id: n,
                workspace: w,
                plan: p,
            } && i == index && n == id && w == workspace@ && p.order == plan.order,
            RuleStep::Failed { index, problem } => step@ matches RuleStepView::Failed {
                index: i,
                problem: p,
            } && i == index && p == problem@,
            RuleStep::Finished => step@ is Finished,
        },
{
}

/// The plans of a list are seen one by one, in their order.
pub proof fn law_lists_of_plans(plans: Seq<MovePlan>, i: int, problem: Option<WmError>)
    ensures
        plan_views(plans).len() == plans.len(),
        0 <= i < plans.len() ==> plan_views(plans)[i] == plans[i]@,
        problem_view(problem) is Some <==> problem is Some,
        problem matches Some(e) ==> problem_view(problem) == Some(e@),
{
}

/// A second has a thousand million nanoseconds; the start is waited for five
/// seconds, and the window of a run half a minute.
pub proof fn law_spans_of_time()
    ensures
        SECOND == 1_000 * 1_000_000,
        INITIAL_WAIT == 5 * SECOND,
        RUN_TIMEOUT == 30 * SECOND,
{
}

/// An activation that is refused tells why: what keeps one window from being
/// chosen, or else that the chosen window has no toplevel handle, or else that
/// there is no seat.
pub proof fn law_activation_is_refused(compositor: CompositorView, window_query: Seq<SelectorView>)
    ensures
        ({
            let windows = compositor.snapshot_view().windows;
            let selects = |w: WindowView| query::query_selects(window_query, w);
            let plan = activation_plan(compositor, window_query);
            &&& model::chosen_window(windows, window_query) matches Err(e) ==> plan == Err::<
                ActivationView,
                ErrorView,
            >(e)
            &&& forall|i: int| #[trigger]
                list::sole_position(windows, selects, i) ==> {
                    &&& windows[i].cosmic_toplevel is None ==> plan == Err::<
                        ActivationView,
                        ErrorView,
                    >(Problem::NotActivatable { title: windows[i].title })
                    &&& windows[i].cosmic_toplevel is Some && compositor.seats.len() == 0 ==> plan
                        == Err::<ActivationView, ErrorView>(Problem::NoSeat)
                }
        }),
{
    model::law_window_choice(compositor.snapshot_view().windows, window_query);
}

} // verus!
