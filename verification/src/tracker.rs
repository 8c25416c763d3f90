//! Which windows the rules may still move.
//!
//! A window may be moved from the moment it is first seen until it has been
//! moved or until the grace period is over in which its title and app_id
//! settle: a look that comes later passes it over. Moments are told in
//! nanoseconds since a start of the caller's choice.
use vstd::prelude::*;

use std::collections::{HashMap, HashSet};

use crate::records;
use crate::records::{WindowRecord, WindowView};
use crate::text;

verus! {

/// How long a newly opened window remains eligible for rule matching while
/// its title/app_id are still settling, in nanoseconds.
pub const SETTLE_GRACE: u64 = 5_000_000_000;

/// The windows that have been met, wait for a rule, or have been moved.
#[derive(Debug)]
pub struct Tracker {
    /// Every window that was met or anchored.
    pub seen: HashSet<u32>,
    /// Newly opened windows that wait for a rule, with the moment they were
    /// met.
    pub pending: HashMap<u32, u64>,
    /// The windows that were moved, with the workspace selector they were
    /// moved by.
    pub moved: Vec<(u32, String)>,
}

/// A tracker as contracts speak of it.
pub struct TrackerView {
    pub seen: Set<u32>,
    pub pending: Map<u32, u64>,
    pub moved: Set<(u32, Seq<char>)>,
}

/// The pairs of a list of moves.
pub open spec fn move_pairs(list: Seq<(u32, String)>) -> Seq<(u32, Seq<char>)> {
    list.map_values(|p: (u32, String)| (p.0, p.1@))
}

impl View for Tracker {
    type V = TrackerView;

    open spec fn view(&self) -> TrackerView {
        TrackerView {
            seen: self.seen@,
            pending: self.pending@,
            moved: move_pairs(self.moved@).to_set(),
        }
    }
}

/// How old at `now` is what was born at `birth`?
pub open spec fn age(birth: u64, now: u64) -> int {
    if birth <= now {
        now - birth
    } else {
        0
    }
}

/// What a look at the windows came to.
#[derive(Debug)]
pub enum Step {
    /// Move the window at `index` to the workspace that the selector names.
    Attempt { index: usize, workspace: String },
    /// No window is left to move.
    Finished,
}

/// A step as contracts speak of it.
pub enum StepView {
    Attempt { index: int, workspace: Seq<char> },
    Finished,
}

impl View for Step {
    type V = StepView;

    open spec fn view(&self) -> StepView {
        match self {
            Step::Attempt { index, workspace } => StepView::Attempt {
                index: *index as int,
                workspace: workspace@,
            },
            Step::Finished => StepView::Finished,
        }
    }
}

/// The texts of a list of optional strings.
pub open spec fn target_views(targets: Seq<Option<String>>) -> Seq<Option<Seq<char>>> {
    targets.map_values(|t: Option<String>| text::opt_view(t))
}

impl TrackerView {
    /// The tracker of a session that has met no window.
    pub open spec fn fresh() -> TrackerView {
        TrackerView { seen: Set::empty(), pending: Map::empty(), moved: Set::empty() }
    }

    /// The tracker once the window has been met: a window that was not seen
    /// before waits for a rule from now on.
    pub open spec fn met(self, id: u32, now: u64) -> TrackerView {
        if self.seen.contains(id) {
            self
        } else {
            TrackerView { seen: self.seen.insert(id), pending: self.pending.insert(id, now), ..self }
        }
    }

    /// May the window be moved by the selector? It must wait for a rule, and
    /// must not have been moved by that selector.
    pub open spec fn may_move(self, id: u32, target: Option<Seq<char>>) -> bool {
        &&& self.pending.contains_key(id)
        &&& target matches Some(workspace) && !self.moved.contains((id, workspace))
    }

    /// The tracker without the windows that never matched within the grace
    /// period.
    pub open spec fn expired(self, now: u64) -> TrackerView {
        TrackerView {
            pending: self.pending.restrict(
                Set::new(
                    |id: u32|
                        self.pending.contains_key(id) && age(self.pending[id], now) < SETTLE_GRACE,
                ),
            ),
            ..self
        }
    }

    /// Meets the windows from position `from` on, up to the first that may be
    /// moved by its target.
    pub open spec fn looked(
        self,
        windows: Seq<WindowView>,
        targets: Seq<Option<Seq<char>>>,
        from: int,
        now: u64,
    ) -> (TrackerView, StepView)
        decreases windows.len() - from,
    {
        if from < 0 || from >= windows.len() {
            (self, StepView::Finished)
        } else {
            let id = windows[from].foreign_id;
            let here = self.met(id, now);
            if here.may_move(id, targets[from]) {
                (here, StepView::Attempt { index: from, workspace: targets[from]->0 })
            } else {
                here.looked(windows, targets, from + 1, now)
            }
        }
    }

    /// Drops the windows whose grace period is over, and looks at the windows
    /// from position `from` on, up to the first that may be moved by its
    /// target.
    pub open spec fn advanced(
        self,
        windows: Seq<WindowView>,
        targets: Seq<Option<Seq<char>>>,
        from: int,
        now: u64,
    ) -> (TrackerView, StepView) {
        self.expired(now).looked(windows, targets, from, now)
    }

    /// The tracker once the window has been moved by the selector.
    pub open spec fn recorded(self, id: u32, workspace: Seq<char>) -> TrackerView {
        TrackerView {
            pending: self.pending.remove(id),
            moved: self.moved.insert((id, workspace)),
            ..self
        }
    }

    /// The tracker once the windows that are open at the start have been
    /// taken in: they wait for a rule where they are to be moved too, and
    /// count as seen otherwise.
    pub open spec fn anchored(
        self,
        windows: Seq<WindowView>,
        move_existing: bool,
        now: u64,
    ) -> TrackerView
        decreases windows.len(),
    {
        if windows.len() == 0 {
            self
        } else {
            let rest = self.anchored(windows.drop_last(), move_existing, now);
            let id = windows.last().foreign_id;
            if move_existing {
                TrackerView { pending: rest.pending.insert(id, now), ..rest }
            } else {
                TrackerView { seen: rest.seen.insert(id), ..rest }
            }
        }
    }
}

impl Tracker {
    /// The tracker of a session that has met no window.
    pub fn new() -> (r: Self)
        ensures
            r@ == TrackerView::fresh(),
    {
        let r: Tracker = Tracker { seen: HashSet::new(), pending: HashMap::new(), moved: Vec::new() };
        assert(move_pairs(r.moved@).to_set() =~= Set::empty());
        r
    }

    /// Has the window been moved by the selector?
    pub fn has_moved(&self, id: u32, workspace: &str) -> (r: bool)
        ensures
            r == self@.moved.contains((id, workspace@)),
    {
        let ghost pairs = move_pairs(self.moved@);
        let mut i: usize = 0;
        while i < self.moved.len()
            invariant
                i <= self.moved.len(),
                pairs == move_pairs(self.moved@),
                forall|k: int| 0 <= k < i ==> #[trigger] pairs[k] != (id, workspace@),
            decreases self.moved.len() - i,
        {
            assert(pairs[i as int] == (self.moved@[i as int].0, self.moved@[i as int].1@));
            if self.moved[i].0 == id && text::same_text(self.moved[i].1.as_str(), workspace) {
                assert(pairs.contains((id, workspace@)));
                return true;
            }
            i = i + 1;
        }
        false
    }

    /// Takes in the windows that are open at the start.
    pub fn anchor(&mut self, windows: &Vec<WindowRecord>, move_existing: bool, now: u64)
        ensures
            final(self)@ == old(self)@.anchored(
                records::window_views(windows@),
                move_existing,
                now,
            ),
    {
        broadcast use vstd::std_specs::hash::group_hash_axioms;

        let ghost start = self@;
        let ghost all = records::window_views(windows@);
        let mut i: usize = 0;
        while i < windows.len()
            invariant
                i <= windows.len(),
                all == records::window_views(windows@),
                self@ == start.anchored(all.take(i as int), move_existing, now),
            decreases windows.len() - i,
        {
            let id: u32 = windows[i].foreign_id;
            proof {
                let next = all.take(i + 1);
                assert(next.drop_last() =~= all.take(i as int));
                assert(next.last() == windows@[i as int]@);
            }
            if move_existing {
                self.pending.insert(id, now);
            } else {
                self.seen.insert(id);
            }
            i = i + 1;
        }
        assert(all.take(i as int) =~= all);
    }

    /// Drops the windows whose grace period is over, and looks at the windows
    /// from position `from` on, up to the first that may be moved by its
    /// target. `targets` holds, for each window, the selector of the workspace
    /// that a rule wants it on.
    pub fn advance(
        &mut self,
        windows: &Vec<WindowRecord>,
        targets: &Vec<Option<String>>,
        from: usize,
        now: u64,
    ) -> (r: Step)
        requires
            targets.len() == windows.len(),
        ensures
            (final(self)@, r@) == old(self)@.advanced(
                records::window_views(windows@),
                target_views(targets@),
                from as int,
                now,
            ),
            r matches Step::Attempt { index, workspace } ==> from <= index < windows.len(),
    {
        broadcast use vstd::std_specs::hash::group_hash_axioms;

        let ghost all = records::window_views(windows@);
        let ghost wanted = target_views(targets@);
        let ghost whole = self@.advanced(all, wanted, from as int, now);
        self.expire(now);
        let mut i: usize = from;
        while i < windows.len()
            invariant
                targets.len() == windows.len(),
                from <= i,
                all == records::window_views(windows@),
                wanted == target_views(targets@),
                whole == old(self)@.advanced(all, wanted, from as int, now),
                self@.looked(all, wanted, i as int, now) == whole,
            decreases windows.len() - i,
        {
            let id: u32 = windows[i].foreign_id;
            let ghost before = self@;
            if self.seen.insert(id) {
                self.pending.insert(id, now);
            }
            assert(self@.seen =~= before.met(id, now).seen);
            assert(self@ == before.met(id, now));
            assert(all[i as int] == windows@[i as int]@);
            assert(wanted[i as int] == text::opt_view(targets@[i as int]));
            if self.pending.contains_key(&id) {
                if let Some(workspace) = &targets[i] {
                    if !self.has_moved(id, workspace.as_str()) {
                        assert(self@.may_move(id, wanted[i as int]));
                        return Step::Attempt { index: i, workspace: workspace.clone() };
                    }
                }
            }
            i = i + 1;
        }
        Step::Finished
    }

    /// Drops the windows that never matched within the grace period.
    fn expire(&mut self, now: u64)
        ensures
            final(self)@ == old(self)@.expired(now),
    {
        broadcast use vstd::std_specs::hash::group_hash_axioms;

        let mut kept: HashMap<u32, u64> = HashMap::new();
        let ghost all = self.pending@;
        let ghost walked = vstd::std_specs::iter::IteratorSpec::remaining(
            &vstd::std_specs::hash::spec_hash_map_iter(&self.pending),
        );
        for entry in it: self.pending.iter()
            invariant
                all == self.pending@,
                it.seq() == walked,
                forall|k: int|
                    0 <= k < walked.len() ==> all.contains_key(*(#[trigger] walked[k]).0)
                        && all[*walked[k].0] == *walked[k].1,
                forall|id: u32| #[trigger]
                    kept@.contains_key(id) ==> all.contains_key(id) && kept@[id] == all[id] && age(
                        all[id],
                        now,
                    ) < SETTLE_GRACE,
                forall|k: int|
                    0 <= k < it.index() && age(*(#[trigger] walked[k]).1, now) < SETTLE_GRACE
                        ==> kept@.contains_key(*walked[k].0),
        {
            let (id, birth): (&u32, &u64) = entry;
            assert(walked[it.index() as int] == (id, birth));
            if *birth > now || now - *birth < SETTLE_GRACE {
                kept.insert(*id, *birth);
            }
        }
        proof {
            assert forall|id: u32| #[trigger] all.contains_key(id) && age(all[id], now)
                < SETTLE_GRACE implies kept@.contains_key(id) by {
                assert(walked.contains((&id, &all[id])));
                let k = choose|k: int| 0 <= k < walked.len() && walked[k] == (&id, &all[id]);
                assert(age(*walked[k].1, now) < SETTLE_GRACE);
            }
            assert(kept@ =~= self@.expired(now).pending);
        }
        self.pending = kept;
    }

    /// Takes down that the window has been moved by the selector.
    pub fn record(&mut self, id: u32, workspace: String)
        ensures
            final(self)@ == old(self)@.recorded(id, workspace@),
    {
        broadcast use vstd::std_specs::hash::group_hash_axioms;

        let ghost before = self@;
        let ghost pairs = move_pairs(self.moved@);
        let ghost added = (id, workspace@);
        self.moved.push((id, workspace));
        self.pending.remove(&id);
        proof {
            let now = move_pairs(self.moved@);
            assert(now =~= pairs.push(added));
            assert(now.to_set() =~= pairs.to_set().insert(added)) by {
                assert forall|p: (u32, Seq<char>)| now.contains(p) <==> (pairs.contains(p) || p
                    == added) by {
                    if pairs.contains(p) {
                        let k = choose|k: int| 0 <= k < pairs.len() && pairs[k] == p;
                        assert(now[k] == p);
                    }
                    assert(now[pairs.len() as int] == added);
                }
            }
            assert(self@.pending =~= before.pending.remove(id));
        }
    }
}

/// What may happen to a tracker.
pub enum Happening {
    /// The windows were looked at from `from` on.
    Looked {
        windows: Seq<WindowView>,
        targets: Seq<Option<Seq<char>>>,
        from: nat,
        now: u64,
    },
    /// A window was moved by a selector.
    Recorded { id: u32, workspace: Seq<char> },
}

/// The tracker once something has happened.
pub open spec fn after(tracker: TrackerView, happening: Happening) -> TrackerView {
    match happening {
        Happening::Looked { windows, targets, from, now } => tracker.advanced(
            windows,
            targets,
            from as int,
            now,
        ).0,
        Happening::Recorded { id, workspace } => tracker.recorded(id, workspace),
    }
}

/// The tracker once all of the history has happened.
pub open spec fn after_all(tracker: TrackerView, history: Seq<Happening>) -> TrackerView
    decreases history.len(),
{
    if history.len() == 0 {
        tracker
    } else {
        after(after_all(tracker, history.drop_last()), history.last())
    }
}

/// Would a look at the windows come to an attempt to move the window `id` by
/// the selector?
pub open spec fn attempts(
    tracker: TrackerView,
    windows: Seq<WindowView>,
    targets: Seq<Option<Seq<char>>>,
    from: int,
    now: u64,
    id: u32,
    workspace: Seq<char>,
) -> bool {
    tracker.advanced(windows, targets, from, now).1 matches StepView::Attempt {
        index,
        workspace: w,
    } && windows[index].foreign_id == id && w == workspace
}

/// Has the grace period of no window that waits for a rule run out?
pub open spec fn is_fresh(tracker: TrackerView, now: u64) -> bool {
    forall|id: u32| #[trigger]
        tracker.pending.contains_key(id) ==> age(tracker.pending[id], now) < SETTLE_GRACE
}

/// What meeting the windows does to a tracker without windows whose grace
/// period is over.
proof fn lemma_looked(
    tracker: TrackerView,
    windows: Seq<WindowView>,
    targets: Seq<Option<Seq<char>>>,
    from: int,
    now: u64,
)
    requires
        is_fresh(tracker, now),
    ensures
        ({
            let (later, step) = tracker.looked(windows, targets, from, now);
            &&& later.moved == tracker.moved
            &&& tracker.seen.subset_of(later.seen)
            &&& is_fresh(later, now)
            &&& forall|id: u32| #[trigger]
                later.pending.contains_key(id) && tracker.seen.contains(id)
                    ==> tracker.pending.contains_key(id) && later.pending[id]
                    == tracker.pending[id]
            &&& step matches StepView::Attempt { index, workspace } ==> {
                let id = windows[index].foreign_id;
                &&& from <= index < windows.len()
                &&& targets[index] == Some(workspace)
                &&& later.seen.contains(id)
                &&& later.pending.contains_key(id)
                &&& !tracker.moved.contains((id, workspace))
            }
        }),
    decreases windows.len() - from,
{
    if 0 <= from < windows.len() {
        let id = windows[from].foreign_id;
        let here = tracker.met(id, now);
        if !here.may_move(id, targets[from]) {
            lemma_looked(here, windows, targets, from + 1, now);
        }
    }
}

/// What a look at the windows does: nothing that was moved or seen is
/// forgotten, nothing is taken for moved, no window that was seen starts to
/// wait or to wait anew, none waits whose grace period is over, and an attempt
/// is for a window that waits for a rule then, by its own target, and was not
/// moved by it before.
pub proof fn lemma_advanced(
    tracker: TrackerView,
    windows: Seq<WindowView>,
    targets: Seq<Option<Seq<char>>>,
    from: int,
    now: u64,
)
    ensures
        ({
            let (later, step) = tracker.advanced(windows, targets, from, now);
            &&& later.moved == tracker.moved
            &&& tracker.seen.subset_of(later.seen)
            &&& is_fresh(later, now)
            &&& forall|id: u32| #[trigger]
                later.pending.contains_key(id) && tracker.seen.contains(id)
                    ==> tracker.pending.contains_key(id) && later.pending[id]
                    == tracker.pending[id]
            &&& step matches StepView::Attempt { index, workspace } ==> {
                let id = windows[index].foreign_id;
                &&& from <= index < windows.len()
                &&& targets[index] == Some(workspace)
                &&& later.seen.contains(id)
                &&& later.pending.contains_key(id)
                &&& !tracker.moved.contains((id, workspace))
            }
        }),
{
    lemma_looked(tracker.expired(now), windows, targets, from, now);
}

/// A window that a look has picked and that has been moved then is never
/// picked again, whatever happens and whatever the selector.
pub proof fn law_never_moved_twice(
    tracker: TrackerView,
    first_windows: Seq<WindowView>,
    first_targets: Seq<Option<Seq<char>>>,
    first_from: nat,
    first_now: u64,
    id: u32,
    workspace: Seq<char>,
    history: Seq<Happening>,
    windows: Seq<WindowView>,
    targets: Seq<Option<Seq<char>>>,
    from: nat,
    now: u64,
    other: Seq<char>,
)
    requires
        attempts(
            tracker,
            first_windows,
            first_targets,
            first_from as int,
            first_now,
            id,
            workspace,
        ),
    ensures
        ({
            let looked = tracker.advanced(
                first_windows,
                first_targets,
                first_from as int,
                first_now,
            ).0;
            !attempts(
                after_all(looked.recorded(id, workspace), history),
                windows,
                targets,
                from as int,
                now,
                id,
                other,
            )
        }),
{
    lemma_advanced(tracker, first_windows, first_targets, first_from as int, first_now);
    let looked = tracker.advanced(first_windows, first_targets, first_from as int, first_now).0;
    let moved = looked.recorded(id, workspace);
    lemma_seen_stays(moved, history, id);
    lemma_advanced(after_all(moved, history), windows, targets, from as int, now);
}

/// A window that was open at the start, and was not to be moved, is never
/// moved, whatever happens.
pub proof fn law_anchored_windows_stay(
    open: Seq<WindowView>,
    start: u64,
    history: Seq<Happening>,
    id: u32,
    workspace: Seq<char>,
    windows: Seq<WindowView>,
    targets: Seq<Option<Seq<char>>>,
    from: nat,
    now: u64,
)
    requires
        exists|i: int| 0 <= i < open.len() && (#[trigger] open[i]).foreign_id == id,
    ensures
        !attempts(
            after_all(TrackerView::fresh().anchored(open, false, start), history),
            windows,
            targets,
            from as int,
            now,
            id,
            workspace,
        ),
{
    let tracker = TrackerView::fresh().anchored(open, false, start);
    lemma_anchored_seen(open, start);
    lemma_seen_stays(tracker, history, id);
    lemma_advanced(after_all(tracker, history), windows, targets, from as int, now);
}

/// The windows that were open at the start are seen, and none waits.
pub proof fn lemma_anchored_seen(open: Seq<WindowView>, start: u64)
    ensures
        ({
            let tracker = TrackerView::fresh().anchored(open, false, start);
            &&& tracker.pending == Map::<u32, u64>::empty()
            &&& forall|i: int|
                0 <= i < open.len() ==> tracker.seen.contains((#[trigger] open[i]).foreign_id)
        }),
    decreases open.len(),
{
    if open.len() > 0 {
        let front = open.drop_last();
        lemma_anchored_seen(front, start);
        assert forall|i: int| 0 <= i < open.len() implies TrackerView::fresh().anchored(
            open,
            false,
            start,
        ).seen.contains((#[trigger] open[i]).foreign_id) by {
            if i < front.len() {
                assert(front[i] == open[i]);
            }
        }
    }
}

/// A seen window that does not wait never starts to.
proof fn lemma_seen_stays(tracker: TrackerView, history: Seq<Happening>, id: u32)
    requires
        tracker.seen.contains(id),
        !tracker.pending.contains_key(id),
    ensures
        after_all(tracker, history).seen.contains(id),
        !after_all(tracker, history).pending.contains_key(id),
    decreases history.len(),
{
    if history.len() > 0 {
        let front = history.drop_last();
        lemma_seen_stays(tracker, front, id);
        match history.last() {
            Happening::Looked { windows, targets, from, now } => {
                lemma_advanced(after_all(tracker, front), windows, targets, from as int, now);
            },
            Happening::Recorded { .. } => {},
        }
    }
}

/// After a look every window that still waits for a rule was met less than the
/// grace period ago.
pub proof fn law_waiting_is_bounded(
    tracker: TrackerView,
    windows: Seq<WindowView>,
    targets: Seq<Option<Seq<char>>>,
    from: int,
    now: u64,
    id: u32,
)
    requires
        tracker.advanced(windows, targets, from, now).0.pending.contains_key(id),
    ensures
        age(tracker.advanced(windows, targets, from, now).0.pending[id], now) < SETTLE_GRACE,
{
    lemma_advanced(tracker, windows, targets, from, now);
}

/// A seen window keeps the moment from which it waits, for as long as it does.
proof fn lemma_birth_stays(tracker: TrackerView, history: Seq<Happening>, id: u32, birth: u64)
    requires
        tracker.seen.contains(id),
        tracker.pending.contains_key(id) ==> tracker.pending[id] == birth,
    ensures
        ({
            let later = after_all(tracker, history);
            &&& later.seen.contains(id)
            &&& later.pending.contains_key(id) ==> later.pending[id] == birth
        }),
    decreases history.len(),
{
    if history.len() > 0 {
        let front = history.drop_last();
        lemma_birth_stays(tracker, front, id, birth);
        match history.last() {
            Happening::Looked { windows, targets, from, now } => {
                lemma_advanced(after_all(tracker, front), windows, targets, from as int, now);
            },
            Happening::Recorded { .. } => {},
        }
    }
}

/// A window that was met at `birth` is moved within the grace period or never,
/// whatever happens in between, and also where nothing does.
pub proof fn law_moves_are_within_the_grace(
    tracker: TrackerView,
    id: u32,
    birth: u64,
    history: Seq<Happening>,
    windows: Seq<WindowView>,
    targets: Seq<Option<Seq<char>>>,
    from: nat,
    now: u64,
    workspace: Seq<char>,
)
    requires
        tracker.seen.contains(id),
        tracker.pending.contains_key(id) ==> tracker.pending[id] == birth,
        age(birth, now) >= SETTLE_GRACE,
    ensures
        !attempts(
            after_all(tracker, history),
            windows,
            targets,
            from as int,
            now,
            id,
            workspace,
        ),
{
    lemma_birth_stays(tracker, history, id, birth);
    lemma_advanced(after_all(tracker, history), windows, targets, from as int, now);
}

/// Where meeting the windows comes to an end, none of them may be moved by its
/// target.
proof fn lemma_nothing_passed_over(
    tracker: TrackerView,
    windows: Seq<WindowView>,
    targets: Seq<Option<Seq<char>>>,
    from: int,
    now: u64,
    i: int,
)
    requires
        0 <= from <= i < windows.len(),
        tracker.looked(windows, targets, from, now).1 is Finished,
    ensures
        !tracker.met(windows[i].foreign_id, now).may_move(windows[i].foreign_id, targets[i]),
    decreases windows.len() - from,
{
    let here = tracker.met(windows[from].foreign_id, now);
    if i > from {
        lemma_nothing_passed_over(here, windows, targets, from + 1, now, i);
    }
}

/// No window is passed over: where a look comes to an end, none of the windows
/// that it looked at may be moved by its target within its grace period.
pub proof fn law_nothing_passed_over(
    tracker: TrackerView,
    windows: Seq<WindowView>,
    targets: Seq<Option<Seq<char>>>,
    from: int,
    now: u64,
    i: int,
)
    requires
        0 <= from <= i < windows.len(),
        tracker.advanced(windows, targets, from, now).1 is Finished,
    ensures
        !tracker.expired(now).met(windows[i].foreign_id, now).may_move(
            windows[i].foreign_id,
            targets[i],
        ),
{
    lemma_nothing_passed_over(tracker.expired(now), windows, targets, from, now, i);
}

/// Where the windows that are open at the start are to be moved too, each of
/// them waits for a rule.
pub proof fn law_existing_windows_wait(open: Seq<WindowView>, start: u64, i: int)
    requires
        0 <= i < open.len(),
    ensures
        TrackerView::fresh().anchored(open, true, start).pending.contains_key(
            open[i].foreign_id,
        ),
        TrackerView::fresh().anchored(open, true, start).pending[open[i].foreign_id] == start,
    decreases open.len(),
{
    let front = open.drop_last();
    if i < front.len() {
        assert(front[i] == open[i]);
        law_existing_windows_wait(front, start, i);
    }
}

/// Does the window still wait for a rule at `now`? It has not been seen, or was
/// met less than the grace period ago and waits since.
pub open spec fn still_waits(tracker: TrackerView, id: u32, now: u64) -> bool {
    ||| !tracker.seen.contains(id)
    ||| tracker.pending.contains_key(id) && now < tracker.pending[id] + SETTLE_GRACE
}

/// Is the window at position `i` to be moved at `now`? It still waits, it is
/// wanted on a workspace, and the selector of that workspace has not moved it.
pub open spec fn is_due(
    tracker: TrackerView,
    windows: Seq<WindowView>,
    targets: Seq<Option<Seq<char>>>,
    now: u64,
    i: int,
) -> bool {
    &&& 0 <= i < windows.len()
    &&& still_waits(tracker, windows[i].foreign_id, now)
    &&& targets[i] matches Some(workspace) && !tracker.moved.contains(
        (windows[i].foreign_id, workspace),
    )
}

/// Is one of the windows from position `from` on, and before `to`, this one?
pub open spec fn is_among(windows: Seq<WindowView>, from: int, to: int, id: u32) -> bool {
    exists|j: int| from <= j < to && (#[trigger] windows[j]).foreign_id == id
}

/// What meeting the windows comes to, and which windows have been met then.
proof fn lemma_looked_exactly(
    tracker: TrackerView,
    windows: Seq<WindowView>,
    targets: Seq<Option<Seq<char>>>,
    from: int,
    now: u64,
)
    requires
        0 <= from,
        is_fresh(tracker, now),
    ensures
        ({
            let (later, step) = tracker.looked(windows, targets, from, now);
            let to = match step {
                StepView::Attempt { index, .. } => index + 1,
                StepView::Finished => windows.len() as int,
            };
            &&& match step {
                StepView::Attempt { index, workspace } => {
                    &&& from <= index
                    &&& is_due(tracker, windows, targets, now, index)
                    &&& targets[index] == Some(workspace)
                    &&& forall|j: int|
                        from <= j < index ==> !#[trigger] is_due(tracker, windows, targets, now, j)
                },
                StepView::Finished => forall|j: int|
                    from <= j < windows.len() ==> !#[trigger] is_due(
                        tracker,
                        windows,
                        targets,
                        now,
                        j,
                    ),
            }
            &&& later.moved == tracker.moved
            &&& forall|id: u32| #[trigger]
                later.seen.contains(id) <==> tracker.seen.contains(id) || is_among(
                    windows,
                    from,
                    to,
                    id,
                )
            &&& forall|id: u32| #[trigger]
                later.pending.contains_key(id) <==> tracker.pending.contains_key(id) || (
                !tracker.seen.contains(id) && is_among(windows, from, to, id))
            &&& forall|id: u32| #[trigger]
                later.pending.contains_key(id) ==> later.pending[id] == (if !tracker.seen.contains(
                    id,
                ) && is_among(windows, from, to, id) {
                    now
                } else {
                    tracker.pending[id]
                })
        }),
    decreases windows.len() - from,
{
    let (later, step) = tracker.looked(windows, targets, from, now);
    let to = match step {
        StepView::Attempt { index, .. } => index + 1,
        StepView::Finished => windows.len() as int,
    };
    if from < windows.len() {
        let id = windows[from].foreign_id;
        let here = tracker.met(id, now);
        assert(is_fresh(here, now));
        assert forall|j: int|
            #![trigger is_due(here, windows, targets, now, j)]
            #![trigger is_due(tracker, windows, targets, now, j)]
            is_due(here, windows, targets, now, j) == is_due(tracker, windows, targets, now, j) by {
        }
        if here.may_move(id, targets[from]) {
            assert(is_due(tracker, windows, targets, now, from));
            assert forall|other: u32| #[trigger]
                is_among(windows, from, to, other) <==> other == id by {
                if other == id {
                    assert(windows[from].foreign_id == other);
                }
            }
        } else {
            assert(!is_due(tracker, windows, targets, now, from));
            lemma_looked_exactly(here, windows, targets, from + 1, now);
            assert forall|other: u32| #[trigger]
                is_among(windows, from, to, other) <==> other == id || is_among(
                    windows,
                    from + 1,
                    to,
                    other,
                ) by {
                if other == id {
                    assert(windows[from].foreign_id == other);
                }
                if is_among(windows, from + 1, to, other) {
                    let j = choose|j: int|
                        from + 1 <= j < to && (#[trigger] windows[j]).foreign_id == other;
                    assert(windows[j].foreign_id == other);
                }
            }
        }
    } else {
        assert forall|other: u32| !#[trigger] is_among(windows, from, to, other) by {}
    }
}

/// A look comes to an attempt exactly where one of the windows that it looks at
/// is to be moved, and then it is for the first of them, by its own target.
pub proof fn law_first_due_window_is_picked(
    tracker: TrackerView,
    windows: Seq<WindowView>,
    targets: Seq<Option<Seq<char>>>,
    from: nat,
    now: u64,
)
    ensures
        match tracker.advanced(windows, targets, from as int, now).1 {
            StepView::Attempt { index, workspace } => {
                &&& from <= index
                &&& is_due(tracker, windows, targets, now, index)
                &&& targets[index] == Some(workspace)
                &&& forall|j: int|
                    from <= j < index ==> !#[trigger] is_due(tracker, windows, targets, now, j)
            },
            StepView::Finished => forall|j: int|
                from <= j < windows.len() ==> !#[trigger] is_due(
                    tracker,
                    windows,
                    targets,
                    now,
                    j,
                ),
        },
{
    let fresh = tracker.expired(now);
    lemma_looked_exactly(fresh, windows, targets, from as int, now);
    assert forall|j: int|
        #![trigger is_due(fresh, windows, targets, now, j)]
        #![trigger is_due(tracker, windows, targets, now, j)]
        is_due(fresh, windows, targets, now, j) == is_due(tracker, windows, targets, now, j) by {
    }
}

/// What a look leaves behind: the windows that it met have been seen, and a new
/// one among them waits from now on. A window that was seen before goes on to
/// wait from the moment it did, until the five seconds of its grace period are
/// over. Nothing is taken for moved.
pub proof fn law_look_meets_windows(
    tracker: TrackerView,
    windows: Seq<WindowView>,
    targets: Seq<Option<Seq<char>>>,
    from: nat,
    now: u64,
    id: u32,
)
    ensures
        SETTLE_GRACE == 5 * 1_000_000_000,
        ({
            let (later, step) = tracker.advanced(windows, targets, from as int, now);
            let to = match step {
                StepView::Attempt { index, .. } => index + 1,
                StepView::Finished => windows.len() as int,
            };
            let waited = tracker.pending.contains_key(id) && now < tracker.pending[id]
                + SETTLE_GRACE;
            &&& later.moved == tracker.moved
            &&& later.seen.contains(id) <==> tracker.seen.contains(id) || is_among(
                windows,
                from as int,
                to,
                id,
            )
            &&& if !tracker.seen.contains(id) && is_among(windows, from as int, to, id) {
                later.pending.contains_key(id) && later.pending[id] == now
            } else {
                &&& later.pending.contains_key(id) <==> waited
                &&& waited ==> later.pending[id] == tracker.pending[id]
            }
        }),
{
    lemma_looked_exactly(tracker.expired(now), windows, targets, from as int, now);
}

/// A window that has been moved waits no more and is known to have been moved
/// by its selector; the other windows are as they were.
pub proof fn law_moved_window_is_recorded(
    tracker: TrackerView,
    id: u32,
    workspace: Seq<char>,
    other: u32,
    selector: Seq<char>,
)
    ensures
        ({
            let later = tracker.recorded(id, workspace);
            &&& later.moved.contains((id, workspace))
            &&& !later.pending.contains_key(id)
            &&& later.seen == tracker.seen
            &&& (other, selector) != (id, workspace) ==> (later.moved.contains((other, selector))
                <==> tracker.moved.contains((other, selector)))
            &&& other != id ==> (later.pending.contains_key(other)
                <==> tracker.pending.contains_key(other))
            &&& other != id && tracker.pending.contains_key(other) ==> later.pending[other]
                == tracker.pending[other]
        }),
{
}

/// Where the windows that are open at the start are to be moved too, a look
/// that comes at once picks the first of them that is wanted somewhere; where
/// they are not, it picks none of them.
pub proof fn law_start_decides_on_open_windows(
    open: Seq<WindowView>,
    targets: Seq<Option<Seq<char>>>,
    start: u64,
    now: u64,
    i: int,
)
    requires
        0 <= i < open.len(),
        targets[i] is Some,
    ensures
        is_due(TrackerView::fresh().anchored(open, true, start), open, targets, now, i),
        !is_due(TrackerView::fresh().anchored(open, false, start), open, targets, now, i),
{
    lemma_anchored_seen(open, start);
    lemma_anchored_unseen(open, start);
    assert(TrackerView::fresh().anchored(open, false, start).seen.contains(open[i].foreign_id));
}

/// Where the windows that are open at the start are to be moved too, none of
/// them counts as seen or moved.
proof fn lemma_anchored_unseen(open: Seq<WindowView>, start: u64)
    ensures
        TrackerView::fresh().anchored(open, true, start).seen == Set::<u32>::empty(),
        TrackerView::fresh().anchored(open, true, start).moved == Set::<
            (u32, Seq<char>),
        >::empty(),
    decreases open.len(),
{
    if open.len() > 0 {
        lemma_anchored_unseen(open.drop_last(), start);
    }
}

/// What contracts say of a tracker they say of the windows that it holds: those
/// it has seen, those that wait, and each move that it has taken down.
pub proof fn law_tracker_is_seen_as_it_is(tracker: Tracker, id: u32, workspace: Seq<char>)
    ensures
        tracker@.seen == tracker.seen@,
        tracker@.pending == tracker.pending@,
        tracker@.moved.contains((id, workspace)) <==> exists|i: int|
            0 <= i < tracker.moved@.len() && (#[trigger] tracker.moved@[i]).0 == id
                && tracker.moved@[i].1@ == workspace,
{
    let pairs = move_pairs(tracker.moved@);
    if pairs.contains((id, workspace)) {
        let k = choose|k: int| 0 <= k < pairs.len() && pairs[k] == (id, workspace);
        assert(tracker.moved@[k].0 == id);
    }
    if exists|i: int|
        0 <= i < tracker.moved@.len() && (#[trigger] tracker.moved@[i]).0 == id
            && tracker.moved@[i].1@ == workspace {
        let i = choose|i: int|
            0 <= i < tracker.moved@.len() && (#[trigger] tracker.moved@[i]).0 == id
                && tracker.moved@[i].1@ == workspace;
        assert(pairs[i] == (id, workspace));
    }
}

/// A step is for the window and the selector that a program finds in it, and
/// the targets of a list are seen one by one.
pub proof fn law_steps_are_seen_as_they_are(step: Step, targets: Seq<Option<String>>, i: int)
    ensures
        match step {
            Step::Attempt { index, workspace } => step@ matches StepView::Attempt {
                index: n,
                workspace: w,
            } && n == index && w == workspace@,
            Step::Finished => step@ is Finished,
        },
        target_views(targets).len() == targets.len(),
        0 <= i < targets.len() ==> {
            &&& target_views(targets)[i] is Some <==> targets[i] is Some
            &&& targets[i] matches Some(target) ==> target_views(targets)[i] == Some(target@)
        },
{
}

} // verus!
