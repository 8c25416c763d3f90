//! Launching commands and placing their windows.
//!
//! A launch is decided on here. Once the program has started the command, the
//! launch asks for one thing at a time, and is told what came of it: to look
//! for the window, to send its move, or to wait for the command to exit.
use vstd::prelude::*;

use std::collections::HashSet;

use crate::error;
use crate::error::{ErrorView, Problem, WmError};
use crate::records;
use crate::records::{WindowRecord, WindowView};
use crate::rules;
use crate::rules::{Rule, RuleView};
use crate::text;
use crate::wayland;
use crate::wayland::{
    CompositorView, MoveOrder, MovePlan, MoveResult, MoveResultView, Session, Snapshot,
};

verus! {

/// Settings for [`Session::launch`].
#[derive(Debug)]
pub struct LaunchConfig {
    /// Where to move the window; `None` launches without placing.
    pub workspace_selector: Option<String>,
    /// Optional glob to match against the window's app_id.
    pub app_id: Option<String>,
    /// Optional glob to match against the window's title (requires `app_id`).
    pub title: Option<String>,
    /// How long to wait for a matching window to appear, in nanoseconds.
    pub timeout: u128,
    /// Resolve and print the intended move without sending the request.
    pub dry_run: bool,
    /// Wait for the launched process to exit before returning.
    pub wait: bool,
}

/// The settings of a launch as contracts speak of them.
#[verifier::ext_equal]
pub struct ConfigView {
    pub workspace_selector: Option<Seq<char>>,
    pub app_id: Option<Seq<char>>,
    pub title: Option<Seq<char>>,
    pub timeout: u128,
    pub dry_run: bool,
    pub wait: bool,
}

impl View for LaunchConfig {
    type V = ConfigView;

    open spec fn view(&self) -> ConfigView {
        ConfigView {
            workspace_selector: text::opt_view(self.workspace_selector),
            app_id: text::opt_view(self.app_id),
            title: text::opt_view(self.title),
            timeout: self.timeout,
            dry_run: self.dry_run,
            wait: self.wait,
        }
    }
}

impl Clone for LaunchConfig {
    fn clone(&self) -> (r: Self)
        ensures
            r@ == self@,
    {
        LaunchConfig {
            workspace_selector: records::copy_option(&self.workspace_selector),
            app_id: records::copy_option(&self.app_id),
            title: records::copy_option(&self.title),
            timeout: self.timeout,
            dry_run: self.dry_run,
            wait: self.wait,
        }
    }
}

/// A launch that has been decided on.
#[derive(Debug)]
pub struct Launch {
    pub config: LaunchConfig,
    /// The command line, for the shell.
    pub command: String,
    /// What the window must match, where that was asked for.
    pub rule: Option<Rule>,
}

/// A launch as contracts speak of it.
#[verifier::ext_equal]
pub struct LaunchView {
    pub config: ConfigView,
    pub command: Seq<char>,
    pub rule: Option<RuleView>,
}

impl View for Launch {
    type V = LaunchView;

    open spec fn view(&self) -> LaunchView {
        LaunchView {
            config: self.config@,
            command: self.command@,
            rule: match self.rule {
                Some(rule) => Some(rule@),
                None => None,
            },
        }
    }
}

/// Result of [`Session::launch`].
#[derive(Debug)]
pub struct LaunchResult {
    pub command: String,
    pub pid: Option<u32>,
    pub exited: bool,
    pub move_result: Option<MoveResult>,
}

/// Result of running a command.
#[derive(Debug)]
pub struct RunResult {
    pub command: String,
    pub pid: Option<u32>,
    pub exited: bool,
    /// Set when the command was placed on a workspace.
    pub moved: Option<MoveResult>,
}

/// What the window of a launch must match: nothing where no filter is given.
/// A title filter needs an app_id filter.
pub open spec fn launch_filter(config: ConfigView) -> Result<Option<RuleView>, ErrorView> {
    match config.app_id {
        Some(app_id) => match rules::rule_of(
            app_id,
            config.title,
            match config.workspace_selector {
                Some(selector) => selector,
                None => Seq::empty(),
            },
        ) {
            Ok(rule) => Ok(Some(rule)),
            Err(e) => Err(e),
        },
        None => match config.title {
            Some(_) => Err(Problem::TitleWithoutAppId),
            None => Ok(None),
        },
    }
}

/// The launch of a command.
pub open spec fn launch_plan(config: ConfigView, command: Seq<Seq<char>>) -> Result<
    LaunchView,
    ErrorView,
> {
    match launch_filter(config) {
        Ok(rule) => Ok(LaunchView { config, command: text::join_text(command, " "@), rule }),
        Err(e) => Err(e),
    }
}

/// The settings of a run: no filter, and a timeout of half a minute.
pub open spec fn run_config(workspace_selector: Option<Seq<char>>, wait: bool) -> ConfigView {
    ConfigView {
        workspace_selector,
        app_id: None,
        title: None,
        timeout: wayland::RUN_TIMEOUT,
        dry_run: false,
        wait,
    }
}

/// May the window be the one of the launch? It was not open before, and
/// matches the filter.
pub open spec fn is_candidate(window: WindowView, open: Set<u32>, hit: bool) -> bool {
    !open.contains(window.foreign_id) && hit
}

/// The position of the first window, at `from` or behind it, that may be the
/// one of the launch. `hits` tells which windows match the filter.
pub open spec fn first_candidate(
    windows: Seq<WindowView>,
    open: Set<u32>,
    hits: Seq<bool>,
    from: int,
) -> Option<int>
    decreases windows.len() - from,
{
    if from < 0 || from >= windows.len() {
        None
    } else if is_candidate(windows[from], open, hits[from]) {
        Some(from)
    } else {
        first_candidate(windows, open, hits, from + 1)
    }
}

/// Which windows match the filter? Without a filter all do.
pub open spec fn filter_hits(rule: Option<RuleView>, windows: Seq<WindowView>) -> Seq<bool> {
    windows.map_values(
        |w: WindowView|
            match rule {
                Some(rule) => rule.applies(w.app_id, w.title),
                None => true,
            },
    )
}

/// The whole seconds of a span, as far as they can be told.
pub open spec fn whole_seconds(span: u128) -> u64 {
    if span / wayland::SECOND <= u64::MAX {
        (span / wayland::SECOND) as u64
    } else {
        u64::MAX
    }
}

/// What comes next of a launch.
#[derive(Debug)]
pub enum LaunchStep {
    /// The window has appeared.
    Found(WindowRecord),
    /// The window has not appeared yet.
    Waiting,
    /// The window has not appeared in time.
    Failed(WmError),
}

/// What comes next of a launch, as contracts speak of it.
pub enum LaunchStepView {
    Found(WindowView),
    Waiting,
    Failed(ErrorView),
}

impl View for LaunchStep {
    type V = LaunchStepView;

    open spec fn view(&self) -> LaunchStepView {
        match self {
            LaunchStep::Found(window) => LaunchStepView::Found(window@),
            LaunchStep::Waiting => LaunchStepView::Waiting,
            LaunchStep::Failed(e) => LaunchStepView::Failed(e@),
        }
    }
}

/// What comes next of a launch, given which windows match its filter. `open`
/// holds the windows that were open before.
pub open spec fn launch_step(
    launch: LaunchView,
    windows: Seq<WindowView>,
    open: Set<u32>,
    hits: Seq<bool>,
    elapsed: u128,
) -> LaunchStepView {
    match first_candidate(windows, open, hits, 0) {
        Some(i) => LaunchStepView::Found(windows[i]),
        None => if elapsed >= launch.config.timeout {
            LaunchStepView::Failed(
                Problem::LaunchTimeout {
                    seconds: whole_seconds(launch.config.timeout),
                    command: launch.command,
                },
            )
        } else {
            LaunchStepView::Waiting
        },
    }
}

/// The ids of the windows.
pub open spec fn window_ids(windows: Seq<WindowView>) -> Set<u32> {
    windows.map_values(|w: WindowView| w.foreign_id).to_set()
}

impl Session {
    /// The launch of a command.
    ///
    /// Without an app_id/title filter, the first window that opens after the
    /// start (that was not already open) is moved. With filters, only windows
    /// whose app_id (and title, when given) match are considered.
    pub fn launch(&self, cfg: LaunchConfig, command: &Vec<String>) -> (r: Result<Launch, WmError>)
        ensures
            error::outcome(r) == launch_plan(cfg@, text::views(command@)),
            cfg@.app_id is None && cfg@.title is None ==> r is Ok,
    {
        let line: String = text::join(command, " ");
        let title: Option<&str> = match &cfg.title {
            Some(title) => Some(title.as_str()),
            None => None,
        };
        let rule: Option<Rule> = match &cfg.app_id {
            Some(app_id) => {
                let workspace: String = match &cfg.workspace_selector {
                    Some(selector) => selector.clone(),
                    None => String::new(),
                };
                assert(workspace@ =~= match cfg@.workspace_selector {
                    Some(selector) => selector,
                    None => Seq::empty(),
                });
                match Rule::new(app_id.as_str(), title, workspace.as_str()) {
                    Ok(rule) => Some(rule),
                    Err(e) => {
                        return Err(e);
                    },
                }
            },
            None => {
                if title.is_some() {
                    return Err(Problem::TitleWithoutAppId);
                }
                None
            },
        };
        Ok(Launch { config: cfg, command: line, rule })
    }

    /// The launch of a command that is run without filters.
    pub fn run(&self, workspace_selector: Option<&str>, command: &Vec<String>, wait: bool) -> (r:
        Result<Launch, WmError>)
        ensures
            r matches Ok(launch) && launch@ == (LaunchView {
                config: run_config(text::opt_str_view(workspace_selector), wait),
                command: text::join_text(text::views(command@), " "@),
                rule: None,
            }),
    {
        let selector: Option<String> = match workspace_selector {
            Some(selector) => Some(selector.to_owned()),
            None => None,
        };
        let cfg: LaunchConfig = LaunchConfig {
            workspace_selector: selector,
            app_id: None,
            title: None,
            timeout: wayland::RUN_TIMEOUT,
            dry_run: false,
            wait,
        };
        self.launch(cfg, command)
    }

    /// The ids of the windows that are open.
    pub fn open_windows(&self) -> (r: HashSet<u32>)
        ensures
            r@ == window_ids(self.compositor@.snapshot_view().windows),
    {
        broadcast use vstd::std_specs::hash::group_hash_axioms;

        let snapshot: Snapshot = self.snapshot();
        let ghost ids = snapshot@.windows.map_values(|w: WindowView| w.foreign_id);
        let mut open: HashSet<u32> = HashSet::new();
        let mut i: usize = 0;
        assert(open@ =~= ids.take(0).to_set());
        while i < snapshot.windows.len()
            invariant
                i <= snapshot.windows.len(),
                ids == snapshot@.windows.map_values(|w: WindowView| w.foreign_id),
                open@ == ids.take(i as int).to_set(),
            decreases snapshot.windows.len() - i,
        {
            open.insert(snapshot.windows[i].foreign_id);
            proof {
                let next = ids.take(i + 1);
                let now = ids.take(i as int);
                assert(next =~= now.push(ids[i as int]));
                assert(next.to_set() =~= now.to_set().insert(ids[i as int])) by {
                    assert forall|id: u32| next.contains(id) <==> (now.contains(id) || id
                        == ids[i as int]) by {
                        if now.contains(id) {
                            let k = choose|k: int| 0 <= k < now.len() && now[k] == id;
                            assert(next[k] == id);
                        }
                        assert(next[i as int] == ids[i as int]);
                    }
                }
            }
            i = i + 1;
        }
        assert(ids.take(i as int) =~= ids);
        open
    }

    /// What comes next of a launch. `open` holds the windows that were open
    /// before, `elapsed` is the time since then.
    pub fn poll_launch(&self, launch: &Launch, open: &HashSet<u32>, elapsed: u128) -> (r: LaunchStep)
        ensures
            ({
                let windows = self.compositor@.snapshot_view().windows;
                r@ == launch_step(
                    launch@,
                    windows,
                    open@,
                    filter_hits(launch@.rule, windows),
                    elapsed,
                )
            }),
    {
        let snapshot: Snapshot = self.snapshot();
        let mut hits: Vec<bool> = Vec::new();
        let ghost wanted = filter_hits(launch@.rule, snapshot@.windows);
        let mut i: usize = 0;
        while i < snapshot.windows.len()
            invariant
                i <= snapshot.windows.len(),
                hits.len() == i,
                wanted == filter_hits(launch@.rule, snapshot@.windows),
                forall|k: int| 0 <= k < i ==> hits@[k] == #[trigger] wanted[k],
            decreases snapshot.windows.len() - i,
        {
            let window: &WindowRecord = &snapshot.windows[i];
            assert(snapshot@.windows[i as int] == window@);
            match &launch.rule {
                Some(rule) => hits.push(
                    rule.matches(window.app_id.as_str(), window.title.as_str()),
                ),
                None => hits.push(true),
            }
            i = i + 1;
        }
        assert(hits@ =~= wanted);
        launch.next_step(&snapshot.windows, open, &hits, elapsed)
    }
}

impl Launch {
    /// What comes next of the launch, given which windows match its filter.
    pub fn next_step(
        &self,
        windows: &Vec<WindowRecord>,
        open: &HashSet<u32>,
        hits: &Vec<bool>,
        elapsed: u128,
    ) -> (r: LaunchStep)
        requires
            hits.len() == windows.len(),
        ensures
            r@ == launch_step(self@, records::window_views(windows@), open@, hits@, elapsed),
    {
        broadcast use vstd::std_specs::hash::group_hash_axioms;

        let ghost all = records::window_views(windows@);
        let mut i: usize = 0;
        while i < windows.len()
            invariant
                hits.len() == windows.len(),
                i <= windows.len(),
                all == records::window_views(windows@),
                first_candidate(all, open@, hits@, 0) == first_candidate(
                    all,
                    open@,
                    hits@,
                    i as int,
                ),
            decreases windows.len() - i,
        {
            let window: &WindowRecord = &windows[i];
            assert(all[i as int] == window@);
            if !open.contains(&window.foreign_id) && hits[i] {
                return LaunchStep::Found(window.clone());
            }
            i = i + 1;
        }
        if elapsed >= self.config.timeout {
            let count: u128 = self.config.timeout / wayland::SECOND;
            let seconds: u64 = if count <= u64::MAX as u128 {
                count as u64
            } else {
                u64::MAX
            };
            LaunchStep::Failed(
                Problem::LaunchTimeout { seconds, command: self.command.clone() },
            )
        } else {
            LaunchStep::Waiting
        }
    }
}

impl LaunchResult {
    /// The result of a run.
    pub fn into_run(self) -> (r: RunResult)
        ensures
            r.command == self.command,
            r.pid == self.pid,
            r.exited == self.exited,
            r.moved == self.move_result,
    {
        RunResult {
            command: self.command,
            pid: self.pid,
            exited: self.exited,
            moved: self.move_result,
        }
    }
}

/// The result of a launch as contracts speak of it.
#[verifier::ext_equal]
pub struct LaunchResultView {
    pub command: Seq<char>,
    pub pid: Option<u32>,
    pub exited: bool,
    pub move_result: Option<MoveResultView>,
}

impl View for LaunchResult {
    type V = LaunchResultView;

    open spec fn view(&self) -> LaunchResultView {
        LaunchResultView {
            command: self.command@,
            pid: self.pid,
            exited: self.exited,
            move_result: moved_view(self.move_result),
        }
    }
}

/// The view of a move that may not have been made.
pub open spec fn moved_view(moved: Option<MoveResult>) -> Option<MoveResultView> {
    match moved {
        Some(moved) => Some(moved@),
        None => None,
    }
}

/// What a launch asks for, once its command has been started.
#[derive(Debug, Clone, Copy, PartialEq, Eq, Structural)]
pub enum LaunchNext {
    /// Take in what the compositor has told, and tell the time since the
    /// first look.
    Look,
    /// Wait a moment, then do as for `Look`.
    LookAgain,
    /// Send the order, where there is one.
    Send(Option<MoveOrder>),
    /// Wait for the command to exit.
    AwaitExit,
}

/// What came of what a launch asked for.
#[derive(Debug, Clone, Copy, PartialEq, Eq, Structural)]
pub enum LaunchEvent {
    /// What the compositor has told was taken in, this long after the first
    /// look.
    Looked { elapsed: u128 },
    /// The order was sent.
    Sent,
    /// The command has exited.
    Exited,
}

/// What a launch is at.
#[derive(Debug)]
pub enum LaunchPhase {
    /// The window is looked for, for the first time or again.
    Looking { again: bool },
    /// The move of the window is being sent.
    Sending { order: Option<MoveOrder>, moved: MoveResult },
    /// The exit of the command is waited for.
    Exiting { moved: Option<MoveResult> },
}

/// What a launch is at, as contracts speak of it.
#[verifier::ext_equal]
pub enum LaunchPhaseView {
    Looking { again: bool },
    Sending { order: Option<MoveOrder>, moved: MoveResultView },
    Exiting { moved: Option<MoveResultView> },
}

impl View for LaunchPhase {
    type V = LaunchPhaseView;

    open spec fn view(&self) -> LaunchPhaseView {
        match self {
            LaunchPhase::Looking { again } => LaunchPhaseView::Looking { again: *again },
            LaunchPhase::Sending { order, moved } => LaunchPhaseView::Sending {
                order: *order,
                moved: moved@,
            },
            LaunchPhase::Exiting { moved } => LaunchPhaseView::Exiting {
                moved: moved_view(*moved),
            },
        }
    }
}

/// A launch whose command has been started, and which is not over.
#[derive(Debug)]
pub struct Started {
    pub launch: Launch,
    pub pid: u32,
    /// The windows that were open when the command had been started.
    pub open: HashSet<u32>,
    pub phase: LaunchPhase,
}

/// A started launch as contracts speak of it.
#[verifier::ext_equal]
pub struct StartedView {
    pub launch: LaunchView,
    pub pid: u32,
    pub open: Set<u32>,
    pub phase: LaunchPhaseView,
}

impl View for Started {
    type V = StartedView;

    open spec fn view(&self) -> StartedView {
        StartedView {
            launch: self.launch@,
            pid: self.pid,
            open: self.open@,
            phase: self.phase@,
        }
    }
}

/// How a launch stands: it goes on, or it is over and has come to something.
#[derive(Debug)]
pub enum Turn {
    Going(Started),
    Over(Result<LaunchResult, WmError>),
}

/// How a launch stands, as contracts speak of it.
#[verifier::ext_equal]
pub enum TurnView {
    Going(StartedView),
    Over(Result<LaunchResultView, ErrorView>),
}

impl View for Turn {
    type V = TurnView;

    open spec fn view(&self) -> TurnView {
        match self {
            Turn::Going(started) => TurnView::Going(started@),
            Turn::Over(outcome) => TurnView::Over(error::outcome(*outcome)),
        }
    }
}

impl StartedView {
    /// The launch in another phase.
    pub open spec fn at(self, phase: LaunchPhaseView) -> TurnView {
        TurnView::Going(StartedView { phase, ..self })
    }

    /// The end of the launch.
    pub open spec fn finished(self, moved: Option<MoveResultView>) -> TurnView {
        TurnView::Over(
            Ok(
                LaunchResultView {
                    command: self.launch.command,
                    pid: Some(self.pid),
                    exited: self.launch.config.wait,
                    move_result: moved,
                },
            ),
        )
    }

    /// The launch once the window has been placed, or need not be.
    pub open spec fn after_placing(self, moved: Option<MoveResultView>) -> TurnView {
        if self.launch.config.wait {
            self.at(LaunchPhaseView::Exiting { moved })
        } else {
            self.finished(moved)
        }
    }

    /// The launch at its start: without a workspace no window is placed.
    pub open spec fn begun(launch: LaunchView, pid: u32, open: Set<u32>) -> TurnView {
        let started = StartedView {
            launch,
            pid,
            open,
            phase: LaunchPhaseView::Looking { again: false },
        };
        if launch.config.workspace_selector is Some {
            TurnView::Going(started)
        } else {
            started.after_placing(None)
        }
    }

    /// The launch once the windows have been looked at: a window that has
    /// appeared is moved to the workspace.
    pub open spec fn looked(self, compositor: CompositorView, step: LaunchStepView) -> TurnView {
        match step {
            LaunchStepView::Waiting => self.at(LaunchPhaseView::Looking { again: true }),
            LaunchStepView::Failed(e) => TurnView::Over(Err(e)),
            LaunchStepView::Found(window) => match self.launch.config.workspace_selector {
                None => self.after_placing(None),
                Some(selector) => match wayland::record_plan(
                    compositor,
                    window,
                    selector,
                    None,
                    self.launch.config.dry_run,
                ) {
                    Ok(plan) => self.at(
                        LaunchPhaseView::Sending { order: plan.order, moved: plan.result },
                    ),
                    Err(e) => TurnView::Over(Err(e)),
                },
            },
        }
    }

    /// The launch once something has come of what it asked for. What does not
    /// answer what was asked for is passed over.
    pub open spec fn advanced(self, compositor: CompositorView, event: LaunchEvent) -> TurnView {
        match (self.phase, event) {
            (LaunchPhaseView::Looking { again }, LaunchEvent::Looked { elapsed }) => {
                let windows = compositor.snapshot_view().windows;
                let hits = filter_hits(self.launch.rule, windows);
                self.looked(
                    compositor,
                    launch_step(self.launch, windows, self.open, hits, elapsed),
                )
            },
            (LaunchPhaseView::Sending { order, moved }, LaunchEvent::Sent) => self.after_placing(
                Some(moved),
            ),
            (LaunchPhaseView::Exiting { moved }, LaunchEvent::Exited) => self.finished(moved),
            _ => TurnView::Going(self),
        }
    }

    /// What the launch asks for.
    pub open spec fn asks(self) -> LaunchNext {
        match self.phase {
            LaunchPhaseView::Looking { again } => if again {
                LaunchNext::LookAgain
            } else {
                LaunchNext::Look
            },
            LaunchPhaseView::Sending { order, moved } => LaunchNext::Send(order),
            LaunchPhaseView::Exiting { moved } => LaunchNext::AwaitExit,
        }
    }

    /// Is the launch in a phase that its settings ask for? A window is looked
    /// for and moved where a workspace was asked for, the exit is waited for
    /// where that was asked for, and then a window has been moved exactly where
    /// a workspace was asked for.
    pub open spec fn is_consistent(self) -> bool {
        match self.phase {
            LaunchPhaseView::Looking { .. } => self.launch.config.workspace_selector is Some,
            LaunchPhaseView::Sending { .. } => self.launch.config.workspace_selector is Some,
            LaunchPhaseView::Exiting { moved } => self.launch.config.wait && (moved is Some
                <==> self.launch.config.workspace_selector is Some),
        }
    }
}

impl Started {
    /// The launch once its command has been started as process `pid`.
    pub fn begin(launch: Launch, pid: u32, session: &Session) -> (r: Turn)
        ensures
            r@ == StartedView::begun(
                launch@,
                pid,
                window_ids(session.compositor@.snapshot_view().windows),
            ),
            r matches Turn::Going(started) ==> started@.is_consistent(),
    {
        let places: bool = launch.config.workspace_selector.is_some();
        let started: Started = Started {
            launch,
            pid,
            open: session.open_windows(),
            phase: LaunchPhase::Looking { again: false },
        };
        if places {
            Turn::Going(started)
        } else {
            started.after_placing(None)
        }
    }

    /// What the launch asks for.
    pub fn asks(&self) -> (r: LaunchNext)
        ensures
            r == self@.asks(),
    {
        match &self.phase {
            LaunchPhase::Looking { again } => if *again {
                LaunchNext::LookAgain
            } else {
                LaunchNext::Look
            },
            LaunchPhase::Sending { order, moved: _ } => LaunchNext::Send(*order),
            LaunchPhase::Exiting { moved: _ } => LaunchNext::AwaitExit,
        }
    }

    /// The end of the launch.
    fn finish(self, moved: Option<MoveResult>) -> (r: Turn)
        ensures
            r@ == self@.finished(moved_view(moved)),
    {
        Turn::Over(
            Ok(
                LaunchResult {
                    command: self.launch.command,
                    pid: Some(self.pid),
                    exited: self.launch.config.wait,
                    move_result: moved,
                },
            ),
        )
    }

    /// The launch once the window has been placed, or need not be.
    fn after_placing(self, moved: Option<MoveResult>) -> (r: Turn)
        ensures
            r@ == self@.after_placing(moved_view(moved)),
    {
        if self.launch.config.wait {
            let mut started: Started = self;
            started.phase = LaunchPhase::Exiting { moved };
            Turn::Going(started)
        } else {
            self.finish(moved)
        }
    }

    /// Takes in what a look at the windows came to.
    pub fn take_step(self, session: &Session, step: LaunchStep) -> (r: Turn)
        ensures
            r@ == self@.looked(session.compositor@, step@),
            step matches LaunchStep::Found(window) ==> (r matches Turn::Going(later) ==> (
            later.phase matches LaunchPhase::Sending { order, moved } ==> {
                &&& order is None <==> self.launch.config.dry_run
                &&& order matches Some(order) ==> window.cosmic_toplevel == Some(order.toplevel)
            })),
    {
        let mut started: Started = self;
        match step {
            LaunchStep::Waiting => {
                started.phase = LaunchPhase::Looking { again: true };
                Turn::Going(started)
            },
            LaunchStep::Failed(e) => Turn::Over(Err(e)),
            LaunchStep::Found(window) => {
                let plan: Result<MovePlan, WmError> =
                    match &started.launch.config.workspace_selector {
                    None => {
                        return started.after_placing(None);
                    },
                    Some(selector) => session.move_window_record(
                        &window,
                        selector.as_str(),
                        started.launch.config.dry_run,
                    ),
                };
                match plan {
                    Ok(plan) => {
                        started.phase = LaunchPhase::Sending {
                            order: plan.order,
                            moved: plan.result,
                        };
                        Turn::Going(started)
                    },
                    Err(e) => Turn::Over(Err(e)),
                }
            },
        }
    }

    /// Takes in what came of what the launch asked for.
    pub fn advance(self, session: &Session, event: LaunchEvent) -> (r: Turn)
        ensures
            r@ == self@.advanced(session.compositor@, event),
            self@.is_consistent() ==> (r matches Turn::Going(started) ==> started@.is_consistent()),
    {
        let mut started: Started = self;
        let mut phase: LaunchPhase = LaunchPhase::Looking { again: false };
        std::mem::swap(&mut phase, &mut started.phase);
        match (phase, event) {
            (LaunchPhase::Looking { again }, LaunchEvent::Looked { elapsed }) => {
                started.phase = LaunchPhase::Looking { again };
                let step: LaunchStep = session.poll_launch(&started.launch, &started.open, elapsed);
                started.take_step(session, step)
            },
            (LaunchPhase::Sending { order: _, moved }, LaunchEvent::Sent) => started.after_placing(
                Some(moved),
            ),
            (LaunchPhase::Exiting { moved }, LaunchEvent::Exited) => started.finish(moved),
            (other, _) => {
                started.phase = other;
                Turn::Going(started)
            },
        }
    }
}

/// How a launch stands once events have come in. What the compositor has told
/// may have changed before each of them; nothing comes in once it is over.
pub open spec fn after_events(
    turn: TurnView,
    history: Seq<(CompositorView, LaunchEvent)>,
) -> TurnView
    decreases history.len(),
{
    if history.len() == 0 {
        turn
    } else {
        let (compositor, event) = history.last();
        match after_events(turn, history.drop_last()) {
            TurnView::Going(started) => started.advanced(compositor, event),
            over => over,
        }
    }
}

/// What holds of a launch whatever has come in: it is the launch that was
/// begun, its phase is one that it asks for, and where it has come to a result
/// the result has a move exactly where a workspace was asked for, and the exit
/// of the command has come in where it was to be waited for.
proof fn lemma_launch_events(
    launch: LaunchView,
    pid: u32,
    open: Set<u32>,
    history: Seq<(CompositorView, LaunchEvent)>,
)
    ensures
        match after_events(StartedView::begun(launch, pid, open), history) {
            TurnView::Going(started) => started.launch == launch && started.pid == pid
                && started.is_consistent(),
            TurnView::Over(Ok(result)) => {
                &&& result.command == launch.command
                &&& result.pid == Some(pid)
                &&& result.exited == launch.config.wait
                &&& result.move_result is Some <==> launch.config.workspace_selector is Some
                &&& launch.config.wait ==> has_exited(history)
            },
            TurnView::Over(Err(_)) => true,
        },
    decreases history.len(),
{
    if history.len() > 0 {
        let front = history.drop_last();
        lemma_launch_events(launch, pid, open, front);
        if has_exited(front) {
            let k = choose|k: int| 0 <= k < front.len() && (#[trigger] front[k]).1 is Exited;
            assert(history[k] == front[k]);
        }
        if history.last().1 is Exited {
            assert(history[history.len() - 1].1 is Exited);
        }
    }
}

/// Has the exit of the command come in?
pub open spec fn has_exited(history: Seq<(CompositorView, LaunchEvent)>) -> bool {
    exists|k: int| 0 <= k < history.len() && (#[trigger] history[k]).1 is Exited
}

/// A launch that is to wait for its command comes to a result only after the
/// command has exited, and only such a launch tells that it has.
pub proof fn law_exit_is_awaited(
    launch: LaunchView,
    pid: u32,
    open: Set<u32>,
    history: Seq<(CompositorView, LaunchEvent)>,
)
    ensures
        after_events(StartedView::begun(launch, pid, open), history) matches TurnView::Over(
            Ok(result),
        ) ==> result.exited == launch.config.wait && (result.exited ==> has_exited(history)),
{
    lemma_launch_events(launch, pid, open, history);
}

/// A launch comes to a result with a move exactly where a workspace was asked
/// for, and the result is that of its own command.
pub proof fn law_result_has_the_move(
    launch: LaunchView,
    pid: u32,
    open: Set<u32>,
    history: Seq<(CompositorView, LaunchEvent)>,
)
    ensures
        after_events(StartedView::begun(launch, pid, open), history) matches TurnView::Over(
            Ok(result),
        ) ==> {
            &&& result.move_result is Some <==> launch.config.workspace_selector is Some
            &&& result.command == launch.command
            &&& result.pid == Some(pid)
        },
{
    lemma_launch_events(launch, pid, open, history);
}

/// The move in a result is one that was asked to be sent, and was sent: it is
/// taken over when the sending comes in, and from nowhere else.
pub proof fn law_move_is_sent_first(
    started: StartedView,
    compositor: CompositorView,
    event: LaunchEvent,
)
    requires
        started.is_consistent(),
    ensures
        started.advanced(compositor, event) matches TurnView::Over(Ok(result)) ==> (
        result.move_result matches Some(moved) ==> {
            ||| started.phase matches LaunchPhaseView::Sending { order, moved: sent } && sent
                == moved && event is Sent
            ||| started.phase == (LaunchPhaseView::Exiting { moved: Some(moved) })
        }),
        started.advanced(compositor, event) matches TurnView::Going(later) ==> (
        later.phase matches LaunchPhaseView::Exiting { moved: Some(moved) } ==> {
            ||| started.phase matches LaunchPhaseView::Sending { order, moved: sent } && sent
                == moved && event is Sent
            ||| started.phase == (LaunchPhaseView::Exiting { moved: Some(moved) })
        }),
{
}

/// The window that a launch finds was not open before, is open now, and
/// matches the filter of the launch.
pub proof fn law_found_window_is_new(
    launch: LaunchView,
    windows: Seq<WindowView>,
    open: Set<u32>,
    elapsed: u128,
    window: WindowView,
)
    requires
        launch_step(launch, windows, open, filter_hits(launch.rule, windows), elapsed)
            == LaunchStepView::Found(window),
    ensures
        windows.contains(window),
        !open.contains(window.foreign_id),
        launch.rule matches Some(rule) ==> rule.applies(window.app_id, window.title),
{
    lemma_first_candidate(windows, open, filter_hits(launch.rule, windows), 0);
}

/// Without a filter the first window that was not open before is the one of
/// the launch, whatever its app_id; only where there is none is it waited for.
pub proof fn law_first_new_window_is_found(
    launch: LaunchView,
    windows: Seq<WindowView>,
    open: Set<u32>,
    elapsed: u128,
    i: int,
)
    requires
        launch.rule is None,
        0 <= i < windows.len(),
        !open.contains(windows[i].foreign_id),
        forall|j: int| 0 <= j < i ==> open.contains((#[trigger] windows[j]).foreign_id),
    ensures
        launch_step(launch, windows, open, filter_hits(launch.rule, windows), elapsed)
            == LaunchStepView::Found(windows[i]),
{
    let hits = filter_hits(launch.rule, windows);
    lemma_first_candidate(windows, open, hits, 0);
    assert(is_candidate(windows[i], open, hits[i]));
}

/// A launch is given up only when the time is over and no window that is open
/// may be the one of the launch.
pub proof fn law_launch_given_up(
    launch: LaunchView,
    windows: Seq<WindowView>,
    open: Set<u32>,
    hits: Seq<bool>,
    elapsed: u128,
)
    ensures
        launch_step(launch, windows, open, hits, elapsed) is Failed <==> (elapsed
            >= launch.config.timeout && forall|i: int|
            0 <= i < windows.len() ==> !#[trigger] is_candidate(windows[i], open, hits[i])),
{
    lemma_first_candidate(windows, open, hits, 0);
}

/// A position found is the first of a candidate.
proof fn lemma_first_candidate(
    windows: Seq<WindowView>,
    open: Set<u32>,
    hits: Seq<bool>,
    from: int,
)
    requires
        0 <= from,
    ensures
        match first_candidate(windows, open, hits, from) {
            Some(i) => from <= i < windows.len() && is_candidate(windows[i], open, hits[i])
                && forall|j: int|
                from <= j < i ==> !#[trigger] is_candidate(windows[j], open, hits[j]),
            None => forall|i: int|
                from <= i < windows.len() ==> !#[trigger] is_candidate(windows[i], open, hits[i]),
        },
    decreases windows.len() - from,
{
    if from < windows.len() && !is_candidate(windows[from], open, hits[from]) {
        lemma_first_candidate(windows, open, hits, from + 1);
    }
}

/// Is the window at position `i` the first that was not open before and
/// matches the filter, where there is one?
pub open spec fn is_first_new(
    rule: Option<RuleView>,
    windows: Seq<WindowView>,
    open: Set<u32>,
    i: int,
) -> bool {
    &&& 0 <= i < windows.len()
    &&& !open.contains(windows[i].foreign_id)
    &&& rule matches Some(rule) ==> rule.applies(windows[i].app_id, windows[i].title)
    &&& forall|j: int|
        0 <= j < i ==> open.contains((#[trigger] windows[j]).foreign_id) || (rule matches Some(rule)
            && !rule.applies(windows[j].app_id, windows[j].title))
}

/// What a look comes to for the first new window, and where there is none.
proof fn lemma_first_new(
    launch: LaunchView,
    windows: Seq<WindowView>,
    open: Set<u32>,
    elapsed: u128,
)
    ensures
        forall|i: int| #[trigger]
            is_first_new(launch.rule, windows, open, i) ==> launch_step(
                launch,
                windows,
                open,
                filter_hits(launch.rule, windows),
                elapsed,
            ) == LaunchStepView::Found(windows[i]),
        (forall|i: int| !#[trigger] is_first_new(launch.rule, windows, open, i))
            ==> first_candidate(windows, open, filter_hits(launch.rule, windows), 0) is None,
{
    let hits = filter_hits(launch.rule, windows);
    lemma_first_candidate(windows, open, hits, 0);
    match first_candidate(windows, open, hits, 0) {
        Some(k) => {
            assert forall|j: int| 0 <= j < k implies open.contains(
                (#[trigger] windows[j]).foreign_id,
            ) || (launch.rule matches Some(rule) && !rule.applies(
                windows[j].app_id,
                windows[j].title,
            )) by {
                assert(!is_candidate(windows[j], open, hits[j]));
            }
            assert(is_first_new(launch.rule, windows, open, k));
            assert forall|i: int| #[trigger]
                is_first_new(launch.rule, windows, open, i) implies i == k by {
                if i < k {
                    assert(!is_candidate(windows[i], open, hits[i]));
                } else if k < i {
                    assert(open.contains(windows[k].foreign_id) || (launch.rule matches Some(rule)
                        && !rule.applies(windows[k].app_id, windows[k].title)));
                }
            }
        },
        None => {
            assert forall|i: int| !#[trigger] is_first_new(launch.rule, windows, open, i) by {
                if 0 <= i < windows.len() {
                    assert(!is_candidate(windows[i], open, hits[i]));
                }
            }
        },
    }
}

/// A launch that looks for its window and finds it goes on to send its move,
/// however long that took: the plan serves the move of the first new window to
/// the workspace that was asked for, and has an order exactly where the launch
/// is no dry run. A window that cannot be moved ends the launch instead.
pub proof fn law_found_window_is_sent(
    started: StartedView,
    compositor: CompositorView,
    elapsed: u128,
    i: int,
)
    requires
        started.phase is Looking,
        started.launch.config.workspace_selector is Some,
        is_first_new(
            started.launch.rule,
            compositor.snapshot_view().windows,
            started.open,
            i,
        ),
    ensures
        ({
            let window = compositor.snapshot_view().windows[i];
            let selector = started.launch.config.workspace_selector->0;
            let dry_run = started.launch.config.dry_run;
            let turn = started.advanced(compositor, LaunchEvent::Looked { elapsed });
            if wayland::is_movable(compositor, window, selector, None) {
                &&& turn matches TurnView::Going(later)
                &&& later.launch == started.launch
                &&& later.pid == started.pid
                &&& later.phase matches LaunchPhaseView::Sending { order, moved }
                &&& later.asks() == LaunchNext::Send(order)
                &&& order is None <==> dry_run
                &&& wayland::serves(
                    compositor,
                    window,
                    selector,
                    None,
                    dry_run,
                    (wayland::PlanView { order, result: moved }),
                )
            } else {
                &&& turn matches TurnView::Over(Err(e))
                &&& wayland::record_plan(compositor, window, selector, None, dry_run) == Err::<
                    wayland::PlanView,
                    ErrorView,
                >(e)
            }
        }),
{
    let windows = compositor.snapshot_view().windows;
    let selector = started.launch.config.workspace_selector->0;
    let dry_run = started.launch.config.dry_run;
    lemma_first_new(started.launch, windows, started.open, elapsed);
    wayland::law_move_is_served(compositor, windows[i], selector, None, dry_run);
    if let Ok(plan) = wayland::record_plan(compositor, windows[i], selector, None, dry_run) {
        assert(plan == (wayland::PlanView { order: plan.order, result: plan.result }));
    }
}

/// Whether the exit of the command is to be waited for has no part in finding
/// and moving its window.
pub proof fn law_wait_has_no_part_in_the_move(
    started: StartedView,
    other: StartedView,
    compositor: CompositorView,
    elapsed: u128,
)
    requires
        started.phase is Looking,
        other.phase == started.phase,
        other.open == started.open,
        other.launch.rule == started.launch.rule,
        other.launch.command == started.launch.command,
        other.launch.config == (ConfigView {
            wait: !started.launch.config.wait,
            ..started.launch.config
        }),
        started.launch.config.workspace_selector is Some,
    ensures
        match started.advanced(compositor, LaunchEvent::Looked { elapsed }) {
            TurnView::Going(later) => other.advanced(compositor, LaunchEvent::Looked { elapsed })
                == TurnView::Going(StartedView { phase: later.phase, ..other }),
            TurnView::Over(result) => other.advanced(compositor, LaunchEvent::Looked { elapsed })
                == TurnView::Over(result),
        },
{
}

/// Where no new window matches, a launch looks again until its time is over,
/// and then tells after how many seconds it was given up and for which command.
pub proof fn law_launch_keeps_looking(
    started: StartedView,
    compositor: CompositorView,
    elapsed: u128,
)
    requires
        started.phase is Looking,
        forall|i: int| !#[trigger]
            is_first_new(
                started.launch.rule,
                compositor.snapshot_view().windows,
                started.open,
                i,
            ),
    ensures
        ({
            let turn = started.advanced(compositor, LaunchEvent::Looked { elapsed });
            let timeout = started.launch.config.timeout;
            &&& elapsed < timeout ==> {
                &&& turn matches TurnView::Going(later)
                &&& later.asks() == LaunchNext::LookAgain
                &&& later == StartedView { phase: later.phase, ..started }
            }
            &&& elapsed >= timeout ==> {
                &&& turn matches TurnView::Over(Err(Problem::LaunchTimeout { seconds, command }))
                &&& command == started.launch.command
                &&& seconds * wayland::SECOND <= timeout
                &&& seconds < u64::MAX ==> timeout < (seconds + 1) * wayland::SECOND
            }
        }),
{
    lemma_first_new(
        started.launch,
        compositor.snapshot_view().windows,
        started.open,
        elapsed,
    );
}

/// A launch begins to look for a window exactly where a workspace was asked
/// for, and leaves the windows alone that are open then. Where none was asked
/// for it waits for its command if it is to, and is over otherwise.
pub proof fn law_launch_begins(launch: LaunchView, pid: u32, open: Set<u32>)
    ensures
        match StartedView::begun(launch, pid, open) {
            TurnView::Going(started) => {
                &&& started.launch == launch
                &&& started.pid == pid
                &&& started.open == open
                &&& started.asks() == LaunchNext::Look
                    <==> launch.config.workspace_selector is Some
                &&& started.asks() == LaunchNext::AwaitExit
                    <==> launch.config.workspace_selector is None
                &&& started.asks() == LaunchNext::AwaitExit ==> launch.config.wait
            },
            TurnView::Over(result) => {
                &&& launch.config.workspace_selector is None
                &&& !launch.config.wait
                &&& result matches Ok(result)
                &&& result.move_result is None
                &&& !result.exited
                &&& result.pid == Some(pid)
                &&& result.command == launch.command
            },
        },
{
}

/// Once the move has been sent, a launch waits for its command exactly where it
/// is to, and else is over with that move. Once the command has exited it is
/// over with the move that was sent before, if any.
pub proof fn law_launch_ends(started: StartedView, compositor: CompositorView)
    ensures
        started.phase matches LaunchPhaseView::Sending { order, moved } ==> match started.advanced(
            compositor,
            LaunchEvent::Sent,
        ) {
            TurnView::Going(later) => {
                &&& started.launch.config.wait
                &&& later.asks() == LaunchNext::AwaitExit
                &&& later.phase matches LaunchPhaseView::Exiting { moved: kept }
                &&& kept == Some(moved)
                &&& later == StartedView { phase: later.phase, ..started }
            },
            TurnView::Over(result) => {
                &&& !started.launch.config.wait
                &&& result matches Ok(result)
                &&& result.move_result == Some(moved)
                &&& !result.exited
                &&& result.pid == Some(started.pid)
                &&& result.command == started.launch.command
            },
        },
        started.phase matches LaunchPhaseView::Exiting { moved } ==> (started.launch.config.wait
            ==> (started.advanced(compositor, LaunchEvent::Exited) matches TurnView::Over(
            Ok(result),
        ) && result.move_result == moved && result.exited && result.pid == Some(started.pid)
            && result.command == started.launch.command)),
{
}

/// What does not answer what a launch asked for changes nothing.
pub proof fn law_launch_passes_over(
    started: StartedView,
    compositor: CompositorView,
    event: LaunchEvent,
)
    requires
        event is Looked ==> started.asks() is Send || started.asks() == LaunchNext::AwaitExit,
        event is Sent ==> !(started.asks() is Send),
        event is Exited ==> started.asks() != LaunchNext::AwaitExit,
    ensures
        started.advanced(compositor, event) == TurnView::Going(started),
{
}

/// The window of a launch must match what was given, and nothing else: the
/// patterns are those of the settings, a title pattern alone is refused, and
/// without patterns every window will do. The command line is made of the words
/// of the command and the settings are kept.
pub proof fn law_launch_is_as_set(config: ConfigView, command: Seq<Seq<char>>)
    ensures
        match launch_plan(config, command) {
            Ok(launch) => {
                &&& launch.config == config
                &&& launch.command == text::join_text(command, " "@)
                &&& launch.rule is None <==> config.app_id is None
                &&& launch.rule is None ==> config.title is None
                &&& launch.rule matches Some(rule) ==> {
                    &&& Some(rule.app_id) == config.app_id
                    &&& rule.title == config.title
                    &&& config.workspace_selector matches Some(selector) ==> rule.workspace
                        == selector
                }
            },
            Err(e) => config.app_id is Some || config.title is Some,
        },
        config.app_id is None ==> (config.title is Some <==> launch_plan(config, command) == Err::<
            LaunchView,
            ErrorView,
        >(Problem::TitleWithoutAppId)),
{
}

/// A run is a launch without patterns, is no dry run, and gives its window half
/// a minute.
pub proof fn law_run_is_unfiltered(
    workspace_selector: Option<Seq<char>>,
    command: Seq<Seq<char>>,
    wait: bool,
)
    ensures
        ({
            let config = run_config(workspace_selector, wait);
            &&& launch_plan(config, command) matches Ok(launch)
            &&& launch.rule is None
            &&& config.workspace_selector == workspace_selector
            &&& config.wait == wait
            &&& !config.dry_run
            &&& config.timeout == 30 * wayland::SECOND
        }),
{
}

/// The ids of the windows are theirs and no others.
pub proof fn law_window_ids(windows: Seq<WindowView>, id: u32)
    ensures
        window_ids(windows).contains(id) <==> exists|i: int|
            0 <= i < windows.len() && (#[trigger] windows[i]).foreign_id == id,
{
    let ids = windows.map_values(|w: WindowView| w.foreign_id);
    if window_ids(windows).contains(id) {
        let k = choose|k: int| 0 <= k < ids.len() && ids[k] == id;
        assert(windows[k].foreign_id == id);
    }
    if exists|i: int| 0 <= i < windows.len() && (#[trigger] windows[i]).foreign_id == id {
        let i = choose|i: int| 0 <= i < windows.len() && (#[trigger] windows[i]).foreign_id == id;
        assert(ids[i] == id);
    }
}

/// What contracts say of a launch they say of its settings, its command and its
/// filter.
pub proof fn law_launch_is_seen_as_it_is(launch: Launch)
    ensures
        launch@.command == launch.command@,
        launch@.rule is Some <==> launch.rule is Some,
        launch.rule matches Some(rule) ==> launch@.rule == Some(rule@),
        launch@.config.timeout == launch.config.timeout,
        launch@.config.dry_run == launch.config.dry_run,
        launch@.config.wait == launch.config.wait,
        launch@.config.workspace_selector is Some <==> launch.config.workspace_selector is Some,
        launch.config.workspace_selector matches Some(selector)
            ==> launch@.config.workspace_selector == Some(selector@),
        launch@.config.app_id is Some <==> launch.config.app_id is Some,
        launch.config.app_id matches Some(pattern) ==> launch@.config.app_id == Some(pattern@),
        launch@.config.title is Some <==> launch.config.title is Some,
        launch.config.title matches Some(pattern) ==> launch@.config.title == Some(pattern@),
{
}

/// What contracts say of a started launch they say of what it is at, and of its
/// end they say of the result that a program finds.
pub proof fn law_turn_is_seen_as_it_is(turn: Turn)
    ensures
        match turn {
            Turn::Going(started) => {
                &&& turn@ matches TurnView::Going(seen)
                &&& seen.launch == started.launch@
                &&& seen.pid == started.pid
                &&& seen.open == started.open@
                &&& match started.phase {
                    LaunchPhase::Looking { again } => seen.phase == (LaunchPhaseView::Looking {
                        again,
                    }),
                    LaunchPhase::Sending { order, moved } => seen.phase == (
                    LaunchPhaseView::Sending { order, moved: moved@ }),
                    LaunchPhase::Exiting { moved } => {
                        &&& seen.phase matches LaunchPhaseView::Exiting { moved: kept }
                        &&& kept is Some <==> moved is Some
                        &&& moved matches Some(result) ==> kept == Some(result@)
                    },
                }
            },
            Turn::Over(Ok(result)) => {
                &&& turn@ matches TurnView::Over(Ok(seen))
                &&& seen.command == result.command@
                &&& seen.pid == result.pid
                &&& seen.exited == result.exited
                &&& seen.move_result is Some <==> result.move_result is Some
                &&& result.move_result matches Some(moved) ==> seen.move_result == Some(moved@)
            },
            Turn::Over(Err(e)) => turn@ matches TurnView::Over(Err(seen)) && seen == e@,
        },
{
}

/// What a look came to is seen as it is.
pub proof fn law_launch_step_is_seen_as_it_is(step: LaunchStep)
    ensures
        match step {
            LaunchStep::Found(window) => step@ == LaunchStepView::Found(window@),
            LaunchStep::Waiting => step@ is Waiting,
            LaunchStep::Failed(e) => step@ == LaunchStepView::Failed(e@),
        },
{
}

} // verus!
