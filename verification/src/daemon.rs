//! The daemon that moves new windows by rules.
//!
//! The daemon asks for one thing at a time, and is told what came of it: to
//! wait for the compositor, to load the rules file again, to go over the
//! windows, or to send a move.
use vstd::prelude::*;
use vstd::string::StringExecFns;

use crate::cli;
use crate::rules;
use crate::rules::{Rule, RuleView};
use crate::tracker;
use crate::tracker::{StepView, TrackerView};
use crate::watcher;
use crate::watcher::{FileStamp, Watcher};
use crate::wayland;
use crate::wayland::{
    CompositorView, MoveOrder, MoveResult, MoveResultView, PlanView, RuleStep, RuleStepView, Session,
};

verus! {

/// A line that the daemon prints.
#[derive(Debug, PartialEq, Eq)]
pub enum Note {
    /// A line for the standard output.
    Report(String),
    /// A line for the standard error output.
    Complaint(String),
}

/// A printed line as contracts speak of it.
#[verifier::ext_equal]
pub enum NoteView {
    Report(Seq<char>),
    Complaint(Seq<char>),
}

impl View for Note {
    type V = NoteView;

    open spec fn view(&self) -> NoteView {
        match self {
            Note::Report(line) => NoteView::Report(line@),
            Note::Complaint(line) => NoteView::Complaint(line@),
        }
    }
}

/// The views of a list of printed lines.
pub open spec fn note_views(notes: Seq<Note>) -> Seq<NoteView> {
    notes.map_values(|n: Note| n@)
}

/// What the daemon asks for.
#[derive(Debug, Clone, Copy, PartialEq, Eq, Structural)]
pub enum Next {
    /// Wait until the compositor has told something.
    Wait,
    /// Load the rules file.
    Load,
    /// Tell the time and go over the windows.
    Pass,
    /// Send the order, where there is one.
    Send(Option<MoveOrder>),
}

/// What came of what the daemon asked for.
#[derive(Debug)]
pub enum Event {
    /// The compositor has told something. The state of the rules file is
    /// looked up then.
    Dispatched { stamp: Option<FileStamp> },
    /// The rules file was loaded, or could not be.
    Loaded(Result<Vec<Rule>, String>),
    /// The windows are to be gone over at this moment.
    Pass { now: u64 },
    /// The order was sent, or could not be.
    Sent(Result<(), String>),
}

/// What the daemon is at.
#[derive(Debug)]
pub enum Phase {
    Watching,
    Loading,
    /// The windows are to be gone over, this many times.
    Ready { passes: u8 },
    /// The move of a window is being sent; then the windows behind it are
    /// gone over.
    Sending {
        order: Option<MoveOrder>,
        index: usize,
        id: u32,
        workspace: String,
        result: MoveResult,
        now: u64,
        passes: u8,
    },
}

/// What the daemon is at, as contracts speak of it.
#[verifier::ext_equal]
pub enum PhaseView {
    Watching,
    Loading,
    Ready { passes: u8 },
    Sending {
        order: Option<MoveOrder>,
        index: int,
        id: u32,
        workspace: Seq<char>,
        result: MoveResultView,
        now: u64,
        passes: u8,
    },
}

impl View for Phase {
    type V = PhaseView;

    open spec fn view(&self) -> PhaseView {
        match self {
            Phase::Watching => PhaseView::Watching,
            Phase::Loading => PhaseView::Loading,
            Phase::Ready { passes } => PhaseView::Ready { passes: *passes },
            Phase::Sending { order, index, id, workspace, result, now, passes } =>
                PhaseView::Sending {
                order: *order,
                index: *index as int,
                id: *id,
                workspace: workspace@,
                result: result@,
                now: *now,
                passes: *passes,
            },
        }
    }
}

/// The daemon.
#[derive(Debug)]
pub struct Daemon {
    pub session: Session,
    pub watcher: Watcher,
    /// The path of the rules file, as it is shown.
    pub config_path: String,
    pub dry_run: bool,
    pub phase: Phase,
}

/// The daemon as contracts speak of it.
#[verifier::ext_equal]
pub struct DaemonView {
    pub compositor: CompositorView,
    pub tracker: TrackerView,
    pub rules: Seq<RuleView>,
    pub stamp: Option<FileStamp>,
    pub config_path: Seq<char>,
    pub dry_run: bool,
    pub phase: PhaseView,
}

impl View for Daemon {
    type V = DaemonView;

    open spec fn view(&self) -> DaemonView {
        DaemonView {
            compositor: self.session.compositor@,
            tracker: self.session.tracker@,
            rules: rules::rule_views(self.watcher.rules@),
            stamp: self.watcher.stamp,
            config_path: self.config_path@,
            dry_run: self.dry_run,
            phase: self.phase@,
        }
    }
}

/// The complaint about a problem.
pub open spec fn complaint(problem: Seq<char>) -> NoteView {
    NoteView::Complaint("cosmic-wmctl: "@ + problem)
}

impl PhaseView {
    /// What is asked for in this phase.
    pub open spec fn asks(self) -> Next {
        match self {
            PhaseView::Watching => Next::Wait,
            PhaseView::Loading => Next::Load,
            PhaseView::Ready { .. } => Next::Pass,
            PhaseView::Sending { order, .. } => Next::Send(order),
        }
    }
}

impl DaemonView {
    /// The daemon in another phase.
    pub open spec fn at(self, phase: PhaseView) -> DaemonView {
        DaemonView { phase, ..self }
    }

    /// The daemon once the windows have been gone over.
    pub open spec fn after_pass(self, passes: u8) -> DaemonView {
        self.at(
            if passes > 1 {
                PhaseView::Ready { passes: (passes - 1) as u8 }
            } else {
                PhaseView::Watching
            },
        )
    }

    /// The daemon once it is known what comes next of going over the windows.
    /// A window that cannot be moved ends it, with a complaint.
    pub open spec fn after_step(self, step: RuleStepView, now: u64, passes: u8) -> (
        DaemonView,
        Seq<NoteView>,
    ) {
        match step {
            RuleStepView::Finished => (self.after_pass(passes), Seq::empty()),
            RuleStepView::Failed { index, problem } => (
                self.after_pass(passes),
                seq![complaint(problem.full_text())],
            ),
            RuleStepView::Move { index, id, workspace, plan } => (
                self.at(
                    PhaseView::Sending {
                        order: plan.order,
                        index,
                        id,
                        workspace,
                        result: plan.result,
                        now,
                        passes,
                    },
                ),
                Seq::empty(),
            ),
        }
    }

    /// The daemon once it has gone over the windows from position `from` on,
    /// up to the first that is to be moved. Without rules it looks at none.
    pub open spec fn go_over(self, from: int, now: u64, passes: u8) -> (DaemonView, Seq<NoteView>) {
        if self.rules.len() == 0 {
            (self.after_pass(passes), Seq::empty())
        } else {
            let windows = self.compositor.snapshot_view().windows;
            let targets = wayland::wanted_targets(self.rules, windows);
            let (tracker, step) = self.tracker.advanced(windows, targets, from, now);
            (DaemonView { tracker, ..self }).after_step(
                wayland::rule_step(self.compositor, step, self.dry_run),
                now,
                passes,
            )
        }
    }

    /// The daemon once something has come of what it asked for, and the lines
    /// that it prints. What does not answer what was asked for is passed
    /// over.
    pub open spec fn advanced(self, event: Event) -> (DaemonView, Seq<NoteView>) {
        match (self.phase, event) {
            (PhaseView::Watching, Event::Dispatched { stamp }) => if watcher::has_changed(
                self.stamp,
                stamp,
            ) {
                (DaemonView { stamp, phase: PhaseView::Loading, ..self }, Seq::empty())
            } else {
                (self.at(PhaseView::Ready { passes: 1 }), Seq::empty())
            },
            (PhaseView::Loading, Event::Loaded(Ok(fresh))) => (
                DaemonView {
                    rules: rules::rule_views(fresh@),
                    phase: PhaseView::Ready { passes: 2 },
                    ..self
                },
                seq![
                    NoteView::Complaint(watcher::reloaded_text(fresh@.len(), self.config_path)),
                ],
            ),
            (PhaseView::Loading, Event::Loaded(Err(error))) => (
                self.at(PhaseView::Ready { passes: 1 }),
                seq![
                    NoteView::Complaint("cosmic-wmctl: failed to reload rules: "@ + error@),
                ],
            ),
            (PhaseView::Ready { passes }, Event::Pass { now }) => self.go_over(0, now, passes),
            (
                PhaseView::Sending { order, index, id, workspace, result, now, passes },
                Event::Sent(Ok(_)),
            ) => {
                let moved = DaemonView { tracker: self.tracker.recorded(id, workspace), ..self };
                let (later, notes) = moved.go_over(index + 1, now, passes);
                (
                    later,
                    seq![
                        NoteView::Report(
                            cli::move_text(
                                if self.dry_run {
                                    "would move"@
                                } else {
                                    "moved"@
                                },
                                result,
                            ),
                        ),
                    ] + notes,
                )
            },
            (
                PhaseView::Sending { order, index, id, workspace, result, now, passes },
                Event::Sent(Err(error)),
            ) => (self.after_pass(passes), seq![complaint(error@)]),
            _ => (self, Seq::empty()),
        }
    }
}

/// What comes of going over the windows does not depend on the phase, and
/// behind the last window all positions are alike.
proof fn lemma_go_over(
    daemon: DaemonView,
    phase: PhaseView,
    from: int,
    other: int,
    now: u64,
    passes: u8,
)
    requires
        from == other || (from >= daemon.compositor.toplevels.len() && other
            >= daemon.compositor.toplevels.len()),
    ensures
        daemon.go_over(from, now, passes) == daemon.at(phase).go_over(other, now, passes),
{
    let there = daemon.at(phase);
    assert(daemon.after_pass(passes) == there.after_pass(passes));
    if daemon.rules.len() > 0 {
        let windows = daemon.compositor.snapshot_view().windows;
        let targets = wayland::wanted_targets(daemon.rules, windows);
        assert(daemon.tracker.advanced(windows, targets, from, now)
            == there.tracker.advanced(windows, targets, other, now));
    }
}

impl Daemon {
    /// The daemon at its start. The windows that are open already are not
    /// moved, unless they are to be moved too.
    pub fn start(
        session: Session,
        rules: Vec<Rule>,
        stamp: Option<FileStamp>,
        config_path: String,
        dry_run: bool,
        move_existing: bool,
        now: u64,
    ) -> (r: Self)
        ensures
            r@ == (DaemonView {
                compositor: session.compositor@,
                tracker: session.tracker@.anchored(
                    session.compositor@.snapshot_view().windows,
                    move_existing,
                    now,
                ),
                rules: rules::rule_views(rules@),
                stamp,
                config_path: config_path@,
                dry_run,
                phase: PhaseView::Watching,
            }),
    {
        let mut session: Session = session;
        session.daemon(move_existing, now);
        Daemon {
            session,
            watcher: Watcher::new(rules, stamp),
            config_path,
            dry_run,
            phase: Phase::Watching,
        }
    }

    /// What the daemon asks for.
    pub fn asks(&self) -> (r: Next)
        ensures
            r == self@.phase.asks(),
    {
        match &self.phase {
            Phase::Watching => Next::Wait,
            Phase::Loading => Next::Load,
            Phase::Ready { passes: _ } => Next::Pass,
            Phase::Sending { order, .. } => Next::Send(*order),
        }
    }

    /// The phase once the windows have been gone over.
    fn end_pass(&mut self, passes: u8)
        ensures
            final(self)@ == old(self)@.after_pass(passes),
    {
        self.phase = if passes > 1 {
            Phase::Ready { passes: passes - 1 }
        } else {
            Phase::Watching
        };
    }

    /// Takes in what comes next of going over the windows.
    pub fn take_step(&mut self, step: RuleStep, now: u64, passes: u8) -> (r: Vec<Note>)
        ensures
            (final(self)@, note_views(r@)) == old(self)@.after_step(step@, now, passes),
    {
        let mut notes: Vec<Note> = Vec::new();
        match step {
            RuleStep::Finished => self.end_pass(passes),
            RuleStep::Failed { index: _, problem } => {
                let mut line: String = "cosmic-wmctl: ".to_owned();
                line.append(problem.full_message().as_str());
                notes.push(Note::Complaint(line));
                self.end_pass(passes);
            },
            RuleStep::Move { index, id, workspace, plan } => {
                self.phase = Phase::Sending {
                    order: plan.order,
                    index,
                    id,
                    workspace,
                    result: plan.result,
                    now,
                    passes,
                };
            },
        }
        assert(note_views(notes@) =~= old(self)@.after_step(step@, now, passes).1);
        notes
    }

    /// Goes over the windows from position `from` on, up to the first that is
    /// to be moved.
    fn go_over(&mut self, from: usize, now: u64, passes: u8) -> (r: Vec<Note>)
        ensures
            (final(self)@, note_views(r@)) == old(self)@.go_over(from as int, now, passes),
    {
        let step: RuleStep = self.session.apply_rules(
            &self.watcher.rules,
            from,
            now,
            self.dry_run,
        );
        proof {
            assert(self@.rules.len() == self.watcher.rules.len());
        }
        self.take_step(step, now, passes)
    }

    /// Takes in what came of what the daemon asked for, and returns the lines
    /// to print.
    pub fn advance(&mut self, event: Event) -> (r: Vec<Note>)
        ensures
            (final(self)@, note_views(r@)) == old(self)@.advanced(event),
    {
        let mut notes: Vec<Note> = Vec::new();
        let mut phase: Phase = Phase::Watching;
        std::mem::swap(&mut phase, &mut self.phase);
        match (phase, event) {
            (Phase::Watching, Event::Dispatched { stamp }) => {
                if self.watcher.notice(stamp) {
                    self.phase = Phase::Loading;
                } else {
                    self.phase = Phase::Ready { passes: 1 };
                }
            },
            (Phase::Loading, Event::Loaded(loaded)) => {
                let (line, apply): (String, bool) = self.watcher.reload(
                    loaded,
                    self.config_path.as_str(),
                );
                notes.push(Note::Complaint(line));
                self.phase = Phase::Ready {
                    passes: if apply {
                        2
                    } else {
                        1
                    },
                };
            },
            (Phase::Ready { passes }, Event::Pass { now }) => {
                proof {
                    lemma_go_over(self@, old(self)@.phase, 0, 0, now, passes);
                }
                return self.go_over(0, now, passes);
            },
            (
                Phase::Sending { order: _, index, id, workspace, result, now, passes },
                Event::Sent(sent),
            ) => {
                match sent {
                    Ok(_) => {
                        notes.push(Note::Report(cli::rule_move_line(&result, self.dry_run)));
                        self.session.record_move(id, workspace);
                        let from: usize = if index < usize::MAX {
                            index + 1
                        } else {
                            index
                        };
                        let ghost moved = self@;
                        assert(moved.compositor.toplevels.len()
                            == self.session.compositor.toplevels.len());
                        let more: Vec<Note> = self.go_over(from, now, passes);
                        proof {
                            lemma_go_over(
                                moved,
                                old(self)@.phase,
                                from as int,
                                index + 1,
                                now,
                                passes,
                            );
                        }
                        notes = concat(notes, more);
                    },
                    Err(error) => {
                        let mut line: String = "cosmic-wmctl: ".to_owned();
                        line.append(error.as_str());
                        notes.push(Note::Complaint(line));
                        self.end_pass(passes);
                    },
                }
            },
            (other, _) => {
                self.phase = other;
            },
        }
        assert(note_views(notes@) =~= old(self)@.advanced(event).1);
        notes
    }
}

/// The notes of both lists.
fn concat(first: Vec<Note>, second: Vec<Note>) -> (r: Vec<Note>)
    ensures
        note_views(r@) == note_views(first@) + note_views(second@),
{
    let mut notes: Vec<Note> = first;
    let mut second: Vec<Note> = second;
    let ghost a = first@;
    let ghost b = second@;
    notes.append(&mut second);
    assert(note_views(notes@) =~= note_views(a) + note_views(b));
    notes
}

/// Is the window done with? It has been seen, waits for no rule, and is not
/// being moved.
pub open spec fn is_settled(daemon: DaemonView, id: u32) -> bool {
    &&& daemon.tracker.seen.contains(id)
    &&& !daemon.tracker.pending.contains_key(id)
    &&& daemon.phase matches PhaseView::Sending { id: moving, .. } ==> moving != id
}

/// Has the window that is being moved, if any, been seen?
pub open spec fn is_consistent(daemon: DaemonView) -> bool {
    daemon.phase matches PhaseView::Sending { id, .. } ==> daemon.tracker.seen.contains(id)
}

/// The daemon once events have come in. What the compositor has told may have
/// changed before each of them.
pub open spec fn after_events(
    daemon: DaemonView,
    history: Seq<(CompositorView, Event)>,
) -> DaemonView
    decreases history.len(),
{
    if history.len() == 0 {
        daemon
    } else {
        let (compositor, event) = history.last();
        let before = after_events(daemon, history.drop_last());
        (DaemonView { compositor, ..before }).advanced(event).0
    }
}

/// Going over the windows leaves those alone that are done with, and moves
/// none that has not been seen then.
proof fn lemma_go_over_settled(daemon: DaemonView, from: int, now: u64, passes: u8, id: u32)
    ensures
        is_consistent(daemon.go_over(from, now, passes).0),
        daemon.tracker.seen.contains(id) && !daemon.tracker.pending.contains_key(id) ==> is_settled(
            daemon.go_over(from, now, passes).0,
            id,
        ),
{
    let windows = daemon.compositor.snapshot_view().windows;
    let targets = wayland::wanted_targets(daemon.rules, windows);
    tracker::lemma_advanced(daemon.tracker, windows, targets, from, now);
}

/// An event leaves the windows alone that are done with.
proof fn lemma_advanced_settled(daemon: DaemonView, event: Event, id: u32)
    requires
        is_settled(daemon, id),
    ensures
        is_settled(daemon.advanced(event).0, id),
{
    match (daemon.phase, event) {
        (PhaseView::Ready { passes }, Event::Pass { now }) => {
            lemma_go_over_settled(daemon, 0, now, passes, id);
        },
        (
            PhaseView::Sending { order, index, id: moving, workspace, result, now, passes },
            Event::Sent(Ok(_)),
        ) => {
            let moved = DaemonView {
                tracker: daemon.tracker.recorded(moving, workspace),
                ..daemon
            };
            lemma_go_over_settled(moved, index + 1, now, passes, id);
        },
        _ => {},
    }
}

/// A daemon whose moving window has been seen stays such a daemon.
pub proof fn law_consistency_is_kept(daemon: DaemonView, event: Event)
    requires
        is_consistent(daemon),
    ensures
        is_consistent(daemon.advanced(event).0),
{
    match (daemon.phase, event) {
        (PhaseView::Ready { passes }, Event::Pass { now }) => {
            lemma_go_over_settled(daemon, 0, now, passes, 0);
        },
        (
            PhaseView::Sending { order, index, id, workspace, result, now, passes },
            Event::Sent(Ok(_)),
        ) => {
            let moved = DaemonView { tracker: daemon.tracker.recorded(id, workspace), ..daemon };
            lemma_go_over_settled(moved, index + 1, now, passes, 0);
        },
        _ => {},
    }
}

/// A window that the daemon has moved is never moved by it again, whatever
/// comes in.
pub proof fn law_window_is_moved_once(
    daemon: DaemonView,
    id: u32,
    event: Event,
    history: Seq<(CompositorView, Event)>,
)
    requires
        is_consistent(daemon),
        daemon.phase matches PhaseView::Sending { id: moving, .. } && moving == id,
        event matches Event::Sent(Ok(_)),
    ensures
        is_settled(after_events(daemon.advanced(event).0, history), id),
{
    if let PhaseView::Sending { order, index, id: moving, workspace, result, now, passes } =
        daemon.phase {
        let moved = DaemonView { tracker: daemon.tracker.recorded(id, workspace), ..daemon };
        lemma_go_over_settled(moved, index + 1, now, passes, id);
    }
    lemma_events_settled(daemon.advanced(event).0, history, id);
}

/// A window that was open when the daemon started is never moved by it,
/// whatever comes in, unless those windows are to be moved too.
pub proof fn law_open_windows_stay(
    daemon: DaemonView,
    now: u64,
    i: int,
    history: Seq<(CompositorView, Event)>,
)
    requires
        0 <= i < daemon.compositor.snapshot_view().windows.len(),
        daemon.tracker == TrackerView::fresh().anchored(
            daemon.compositor.snapshot_view().windows,
            false,
            now,
        ),
        daemon.phase == PhaseView::Watching,
    ensures
        is_settled(
            after_events(daemon, history),
            daemon.compositor.snapshot_view().windows[i].foreign_id,
        ),
{
    let open = daemon.compositor.snapshot_view().windows;
    tracker::lemma_anchored_seen(open, now);
    lemma_events_settled(daemon, history, open[i].foreign_id);
}

/// Events leave the windows alone that are done with.
proof fn lemma_events_settled(
    daemon: DaemonView,
    history: Seq<(CompositorView, Event)>,
    id: u32,
)
    requires
        is_settled(daemon, id),
    ensures
        is_settled(after_events(daemon, history), id),
    decreases history.len(),
{
    if history.len() > 0 {
        let before = after_events(daemon, history.drop_last());
        lemma_events_settled(daemon, history.drop_last(), id);
        let (compositor, event) = history.last();
        lemma_advanced_settled(DaemonView { compositor, ..before }, event, id);
    }
}

/// A failure does not end the daemon: it is told, the rules stay in force,
/// and the daemon goes on to go over the windows or to watch.
pub proof fn law_failures_are_survived(daemon: DaemonView, event: Event)
    requires
        event matches Event::Sent(Err(_)) || event matches Event::Loaded(Err(_)),
        daemon.phase.asks() == Next::Load ==> event is Loaded,
        daemon.phase.asks() is Send ==> event is Sent,
        daemon.phase.asks() == Next::Load || daemon.phase.asks() is Send,
    ensures
        ({
            let (later, notes) = daemon.advanced(event);
            &&& later.rules == daemon.rules
            &&& later.tracker == daemon.tracker
            &&& later.phase.asks() == Next::Pass || later.phase.asks() == Next::Wait
            &&& notes.len() == 1
            &&& notes[0] is Complaint
        }),
{
}

/// Where going over the windows comes to the sending of a move, it is a move by
/// the first rule that applies to a window at `from` or behind it, and what is
/// sent serves that move: there is an order exactly where the daemon makes no
/// dry run. Where it does not, the pass is over: there is one more pass, if
/// one is left, and else the compositor is waited for.
pub proof fn law_pass_sends_the_move(daemon: DaemonView, from: nat, now: u64, passes: u8)
    ensures
        ({
            let windows = daemon.compositor.snapshot_view().windows;
            let (later, notes) = daemon.go_over(from as int, now, passes);
            &&& later.rules == daemon.rules
            &&& later.compositor == daemon.compositor
            &&& later.stamp == daemon.stamp
            &&& later.dry_run == daemon.dry_run
            &&& later.config_path == daemon.config_path
            &&& match later.phase {
                PhaseView::Sending {
                    order,
                    index,
                    id,
                    workspace,
                    result,
                    now: at,
                    passes: left,
                } => {
                    &&& from <= index < windows.len()
                    &&& id == windows[index].foreign_id
                    &&& exists|k: int| #[trigger]
                        wayland::is_first_to_apply(daemon.rules, windows[index], k) && workspace
                            == daemon.rules[k].workspace
                    &&& order is None <==> daemon.dry_run
                    &&& wayland::serves(
                        daemon.compositor,
                        windows[index],
                        workspace,
                        None,
                        daemon.dry_run,
                        (PlanView { order, result }),
                    )
                    &&& at == now
                    &&& left == passes
                    &&& notes.len() == 0
                    &&& later.phase.asks() == Next::Send(order)
                },
                PhaseView::Ready { passes: left } => passes > 1 && left == passes - 1
                    && later.phase.asks() == Next::Pass,
                PhaseView::Watching => passes <= 1 && later.phase.asks() == Next::Wait,
                PhaseView::Loading => false,
            }
        }),
{
    let windows = daemon.compositor.snapshot_view().windows;
    let targets = wayland::wanted_targets(daemon.rules, windows);
    wayland::law_rule_is_carried_out(
        daemon.compositor,
        daemon.tracker,
        daemon.rules,
        from,
        now,
        daemon.dry_run,
    );
    let step = daemon.tracker.advanced(windows, targets, from as int, now).1;
    if let RuleStepView::Move { index, id, workspace, plan } = wayland::rule_step(
        daemon.compositor,
        step,
        daemon.dry_run,
    ) {
        assert(plan == (PlanView { order: plan.order, result: plan.result }));
    }
}

/// Is the window at position `i` to be moved by the daemon at `now`? It still
/// waits for a rule, and by the first rule that applies to it, the one at
/// position `k`, it has not been moved.
pub open spec fn is_due(daemon: DaemonView, now: u64, i: int, k: int) -> bool {
    let windows = daemon.compositor.snapshot_view().windows;
    &&& 0 <= i < windows.len()
    &&& tracker::still_waits(daemon.tracker, windows[i].foreign_id, now)
    &&& wayland::is_first_to_apply(daemon.rules, windows[i], k)
    &&& !daemon.tracker.moved.contains((windows[i].foreign_id, daemon.rules[k].workspace))
}

/// The first window that is to be moved is the one that the daemon goes on to
/// move, where it can be moved; where it cannot be, the daemon complains once
/// and ends the pass. Where no window is to be moved nothing is sent or said.
pub proof fn law_due_window_is_moved(daemon: DaemonView, from: nat, now: u64, passes: u8)
    ensures
        ({
            let windows = daemon.compositor.snapshot_view().windows;
            let (later, notes) = daemon.go_over(from as int, now, passes);
            &&& forall|i: int, k: int|
                #![trigger is_due(daemon, now, i, k)]
                from <= i && is_due(daemon, now, i, k) && (forall|j: int, n: int|
                    from <= j < i ==> !#[trigger] is_due(daemon, now, j, n)) ==> if wayland::is_movable(
                    daemon.compositor,
                    windows[i],
                    daemon.rules[k].workspace,
                    None,
                ) {
                    later.phase matches PhaseView::Sending { index, workspace, .. } && index == i
                        && workspace == daemon.rules[k].workspace
                } else {
                    &&& !(later.phase is Sending)
                    &&& wayland::record_plan(
                        daemon.compositor,
                        windows[i],
                        daemon.rules[k].workspace,
                        None,
                        daemon.dry_run,
                    ) matches Err(problem)
                    &&& notes == seq![
                        NoteView::Complaint("cosmic-wmctl: "@ + problem.full_text()),
                    ]
                }
            &&& (forall|j: int, n: int| from <= j ==> !#[trigger] is_due(daemon, now, j, n)) ==> {
                &&& !(later.phase is Sending)
                &&& notes.len() == 0
            }
        }),
{
    let windows = daemon.compositor.snapshot_view().windows;
    let targets = wayland::wanted_targets(daemon.rules, windows);
    let (later, notes) = daemon.go_over(from as int, now, passes);
    tracker::law_first_due_window_is_picked(daemon.tracker, windows, targets, from, now);
    assert forall|j: int, n: int| #[trigger] is_due(daemon, now, j, n) implies tracker::is_due(
        daemon.tracker,
        windows,
        targets,
        now,
        j,
    ) && targets[j] == Some(daemon.rules[n].workspace) by {
        wayland::law_window_is_wanted(daemon.rules, windows, j);
    }
    let step = daemon.tracker.advanced(windows, targets, from as int, now).1;
    match step {
        StepView::Attempt { index, workspace } => {
            wayland::law_window_is_wanted(daemon.rules, windows, index);
            let k = choose|k: int| #[trigger]
                wayland::is_first_to_apply(daemon.rules, windows[index], k);
            assert(is_due(daemon, now, index, k));
            if daemon.rules.len() > 0 {
                wayland::law_move_is_served(
                    daemon.compositor,
                    windows[index],
                    workspace,
                    None,
                    daemon.dry_run,
                );
            }
            assert forall|i: int, n: int|
                #![trigger is_due(daemon, now, i, n)]
                from <= i && is_due(daemon, now, i, n) && (forall|j: int, m: int|
                    from <= j < i ==> !#[trigger] is_due(daemon, now, j, m)) implies i == index
                && workspace == daemon.rules[n].workspace by {
                if i < index {
                    assert(!tracker::is_due(daemon.tracker, windows, targets, now, i));
                } else if index < i {
                    assert(!is_due(daemon, now, index, k));
                }
            }
        },
        StepView::Finished => {
            assert forall|j: int, n: int| from <= j implies !#[trigger]
                is_due(daemon, now, j, n) by {
                if is_due(daemon, now, j, n) {
                    assert(tracker::is_due(daemon.tracker, windows, targets, now, j));
                }
            }
        },
    }
}

/// A pass goes over all windows, from the first on.
pub proof fn law_pass_starts_at_the_first(daemon: DaemonView, passes: u8, now: u64)
    requires
        daemon.phase == (PhaseView::Ready { passes }),
    ensures
        daemon.advanced(Event::Pass { now }) == daemon.go_over(0, now, passes),
{
}

/// Once a move has been sent, it is reported, the window waits for no rule any
/// more and is known to have been moved by that selector, and the daemon goes
/// on with the windows behind it, at the same moment.
pub proof fn law_sent_move_is_recorded(daemon: DaemonView, event: Event)
    requires
        daemon.phase is Sending,
        event matches Event::Sent(Ok(_)),
        daemon.phase->Sending_index >= 0,
    ensures
        ({
            let id = daemon.phase->Sending_id;
            let workspace = daemon.phase->Sending_workspace;
            let (later, notes) = daemon.advanced(event);
            &&& later.tracker.moved.contains((id, workspace))
            &&& daemon.tracker.seen.contains(id) ==> !later.tracker.pending.contains_key(id)
            &&& later.rules == daemon.rules
            &&& notes.len() >= 1
            &&& notes[0] == NoteView::Report(
                cli::move_text(
                    if daemon.dry_run {
                        "would move"@
                    } else {
                        "moved"@
                    },
                    daemon.phase->Sending_result,
                ),
            )
            &&& later.phase matches PhaseView::Sending { index, now, passes, .. } ==> {
                &&& index > daemon.phase->Sending_index
                &&& now == daemon.phase->Sending_now
                &&& passes == daemon.phase->Sending_passes
            }
        }),
{
    if let PhaseView::Sending { order, index, id, workspace, result, now, passes } = daemon.phase {
        let moved = DaemonView { tracker: daemon.tracker.recorded(id, workspace), ..daemon };
        let windows = moved.compositor.snapshot_view().windows;
        let targets = wayland::wanted_targets(moved.rules, windows);
        tracker::lemma_advanced(moved.tracker, windows, targets, index + 1, now);
        law_pass_sends_the_move(moved, (index + 1) as nat, now, passes);
    }
}

/// A move that could not be sent is told of, is not taken for made, and ends
/// the pass.
pub proof fn law_unsent_move_is_not_recorded(daemon: DaemonView, error: String)
    requires
        daemon.phase is Sending,
    ensures
        ({
            let (later, notes) = daemon.advanced(Event::Sent(Err(error)));
            let passes = daemon.phase->Sending_passes;
            &&& later == DaemonView { phase: later.phase, ..daemon }
            &&& passes > 1 ==> later.phase == (PhaseView::Ready { passes: (passes - 1) as u8 })
            &&& passes <= 1 ==> later.phase == PhaseView::Watching
            &&& notes == seq![NoteView::Complaint("cosmic-wmctl: "@ + error@)]
        }),
{
}

/// When the compositor has told something, the rules file is loaded where it
/// has changed, and else the windows are gone over once, by the rules that are
/// in force.
pub proof fn law_news_are_followed(daemon: DaemonView, stamp: Option<FileStamp>)
    requires
        daemon.phase == PhaseView::Watching,
    ensures
        ({
            let (later, notes) = daemon.advanced(Event::Dispatched { stamp });
            &&& notes.len() == 0
            &&& later.rules == daemon.rules
            &&& later.tracker == daemon.tracker
            &&& later.dry_run == daemon.dry_run
            &&& if stamp is Some && stamp != daemon.stamp {
                later.phase.asks() == Next::Load && later.stamp == stamp
            } else {
                later.phase == (PhaseView::Ready { passes: 1 }) && later.phase.asks() == Next::Pass
                    && later.stamp == daemon.stamp
            }
        }),
{
}

/// Rules that have been loaded take the place of the old ones, and the windows
/// are gone over by them twice. Rules that could not be loaded leave the old
/// ones in force, and the windows are gone over once. Either way it is told.
pub proof fn law_rules_are_reloaded(daemon: DaemonView, loaded: Result<Vec<Rule>, String>)
    requires
        daemon.phase == PhaseView::Loading,
    ensures
        ({
            let (later, notes) = daemon.advanced(Event::Loaded(loaded));
            &&& later.tracker == daemon.tracker
            &&& later.stamp == daemon.stamp
            &&& later.dry_run == daemon.dry_run
            &&& later.compositor == daemon.compositor
            &&& notes.len() == 1
            &&& notes[0] is Complaint
            &&& match loaded {
                Ok(fresh) => {
                    &&& later.phase == (PhaseView::Ready { passes: 2 })
                    &&& later.rules.len() == fresh@.len()
                    &&& forall|i: int|
                        0 <= i < fresh@.len() ==> #[trigger] later.rules[i] == fresh@[i]@
                },
                Err(error) => {
                    &&& later.phase == (PhaseView::Ready { passes: 1 })
                    &&& later.rules == daemon.rules
                    &&& notes[0] == NoteView::Complaint(
                        "cosmic-wmctl: failed to reload rules: "@ + error@,
                    )
                },
            }
        }),
{
}

/// What does not answer what the daemon asked for changes nothing and prints
/// nothing.
pub proof fn law_daemon_passes_over(daemon: DaemonView, event: Event)
    requires
        event is Dispatched ==> daemon.phase.asks() != Next::Wait,
        event is Loaded ==> daemon.phase.asks() != Next::Load,
        event is Pass ==> daemon.phase.asks() != Next::Pass,
        event is Sent ==> !(daemon.phase.asks() is Send),
    ensures
        daemon.advanced(event) == (daemon, Seq::<NoteView>::empty()),
{
}

/// A daemon without rules moves nothing, says nothing and does not even take
/// note of the windows: those that open meanwhile are new to rules that are
/// loaded later.
pub proof fn law_no_rules_no_moves(daemon: DaemonView, passes: u8, now: u64)
    requires
        daemon.phase == (PhaseView::Ready { passes }),
        daemon.rules.len() == 0,
    ensures
        ({
            let (later, notes) = daemon.advanced(Event::Pass { now });
            &&& notes.len() == 0
            &&& later.tracker == daemon.tracker
            &&& !(later.phase is Sending)
        }),
{
}

/// Once a move has been sent, the first window behind the moved one that is to
/// be moved then is the next, at the same moment: no window is skipped. Where
/// there is none the pass is over with nothing more said.
pub proof fn law_next_due_window_follows(daemon: DaemonView, event: Event)
    requires
        daemon.phase is Sending,
        event matches Event::Sent(Ok(_)),
        daemon.phase->Sending_index >= 0,
    ensures
        ({
            let windows = daemon.compositor.snapshot_view().windows;
            let at = daemon.phase->Sending_index;
            let now = daemon.phase->Sending_now;
            let moved = DaemonView {
                tracker: daemon.tracker.recorded(
                    daemon.phase->Sending_id,
                    daemon.phase->Sending_workspace,
                ),
                ..daemon
            };
            let (later, notes) = daemon.advanced(event);
            &&& forall|i: int, k: int|
                #![trigger is_due(moved, now, i, k)]
                at < i && is_due(moved, now, i, k) && (forall|j: int, n: int|
                    at < j < i ==> !#[trigger] is_due(moved, now, j, n)) ==> if wayland::is_movable(
                    daemon.compositor,
                    windows[i],
                    daemon.rules[k].workspace,
                    None,
                ) {
                    later.phase matches PhaseView::Sending { index, workspace, order, .. } && index
                        == i && workspace == daemon.rules[k].workspace && (order is None
                        <==> daemon.dry_run)
                } else {
                    &&& !(later.phase is Sending)
                    &&& notes.len() == 2
                    &&& notes[1] is Complaint
                }
            &&& (forall|j: int, n: int| at < j ==> !#[trigger] is_due(moved, now, j, n)) ==> {
                &&& !(later.phase is Sending)
                &&& notes.len() == 1
            }
        }),
{
    if let PhaseView::Sending { order, index, id, workspace, result, now, passes } = daemon.phase {
        let moved = DaemonView { tracker: daemon.tracker.recorded(id, workspace), ..daemon };
        law_due_window_is_moved(moved, (index + 1) as nat, now, passes);
        law_pass_sends_the_move(moved, (index + 1) as nat, now, passes);
    }
}

/// What contracts say of a daemon they say of its session, its rules, its
/// settings and its phase, and of a printed line they say of its text and of
/// where it is printed.
pub proof fn law_daemon_is_seen_as_it_is(daemon: Daemon, note: Note, i: int)
    ensures
        daemon@.compositor == daemon.session.compositor@,
        daemon@.tracker == daemon.session.tracker@,
        daemon@.rules.len() == daemon.watcher.rules@.len(),
        0 <= i < daemon.watcher.rules@.len() ==> daemon@.rules[i] == daemon.watcher.rules@[i]@,
        daemon@.stamp == daemon.watcher.stamp,
        daemon@.config_path == daemon.config_path@,
        daemon@.dry_run == daemon.dry_run,
        match daemon.phase {
            Phase::Watching => daemon@.phase is Watching,
            Phase::Loading => daemon@.phase is Loading,
            Phase::Ready { passes } => daemon@.phase == (PhaseView::Ready { passes }),
            Phase::Sending { order, index, id, workspace, result, now, passes } => {
                &&& daemon@.phase is Sending
                &&& daemon@.phase->Sending_order == order
                &&& daemon@.phase->Sending_index == index
                &&& daemon@.phase->Sending_id == id
                &&& daemon@.phase->Sending_workspace == workspace@
                &&& daemon@.phase->Sending_result == result@
                &&& daemon@.phase->Sending_now == now
                &&& daemon@.phase->Sending_passes == passes
            },
        },
        match note {
            Note::Report(line) => note@ == NoteView::Report(line@),
            Note::Complaint(line) => note@ == NoteView::Complaint(line@),
        },
{
}

} // verus!
