//! What the compositor has told so far, and what follows from it.
use vstd::prelude::*;
use vstd::string::StringExecFns;

use std::collections::HashSet;

use crate::decimal;
use crate::error::{ErrorView, Problem, WmError};
use crate::list;
use crate::model;
use crate::order;
use crate::records;
use crate::records::{Handle, WindowRecord, WindowView, WorkspaceRecord, WorkspaceView};
use crate::text;

verus! {

/// An output, with its name where it has one.
#[derive(Debug)]
pub struct OutputInfo {
    pub handle: Handle,
    pub name: Option<String>,
}

/// An output as contracts speak of it.
#[verifier::ext_equal]
pub struct OutputView {
    pub handle: Handle,
    pub name: Option<Seq<char>>,
}

impl View for OutputInfo {
    type V = OutputView;

    open spec fn view(&self) -> OutputView {
        OutputView { handle: self.handle, name: text::opt_view(self.name) }
    }
}

/// A workspace as the workspace manager describes it.
#[derive(Debug)]
pub struct WorkspaceInfo {
    pub handle: Handle,
    pub name: String,
    pub id: Option<String>,
    pub coordinates: Vec<u32>,
}

/// A described workspace as contracts speak of it.
#[verifier::ext_equal]
pub struct WorkspaceInfoView {
    pub handle: Handle,
    pub name: Seq<char>,
    pub id: Option<Seq<char>>,
    pub coordinates: Seq<u32>,
}

impl View for WorkspaceInfo {
    type V = WorkspaceInfoView;

    open spec fn view(&self) -> WorkspaceInfoView {
        WorkspaceInfoView {
            handle: self.handle,
            name: self.name@,
            id: text::opt_view(self.id),
            coordinates: self.coordinates@,
        }
    }
}

/// Workspaces that are shown on the same outputs.
#[derive(Debug)]
pub struct WorkspaceGroup {
    pub workspaces: HashSet<Handle>,
    pub outputs: Vec<Handle>,
}

/// A workspace group as contracts speak of it.
#[verifier::ext_equal]
pub struct GroupView {
    pub workspaces: Set<Handle>,
    pub outputs: Seq<Handle>,
}

impl View for WorkspaceGroup {
    type V = GroupView;

    open spec fn view(&self) -> GroupView {
        GroupView { workspaces: self.workspaces@, outputs: self.outputs@ }
    }
}

/// A window as the toplevel list describes it.
#[derive(Debug)]
pub struct ToplevelInfo {
    pub title: String,
    pub app_id: String,
    pub identifier: String,
    /// The outputs that show the window, in the order in which they are to be
    /// listed.
    pub outputs: Vec<Handle>,
    /// The workspaces that hold the window.
    pub workspaces: HashSet<Handle>,
    pub cosmic_toplevel: Option<Handle>,
    pub foreign_id: u32,
    /// Is the window in the activated state?
    pub active: bool,
}

/// A described window as contracts speak of it.
#[verifier::ext_equal]
pub struct ToplevelView {
    pub title: Seq<char>,
    pub app_id: Seq<char>,
    pub identifier: Seq<char>,
    pub outputs: Seq<Handle>,
    pub workspaces: Set<Handle>,
    pub cosmic_toplevel: Option<Handle>,
    pub foreign_id: u32,
    pub active: bool,
}

impl View for ToplevelInfo {
    type V = ToplevelView;

    open spec fn view(&self) -> ToplevelView {
        ToplevelView {
            title: self.title@,
            app_id: self.app_id@,
            identifier: self.identifier@,
            outputs: self.outputs@,
            workspaces: self.workspaces@,
            cosmic_toplevel: self.cosmic_toplevel,
            foreign_id: self.foreign_id,
            active: self.active,
        }
    }
}

/// A global object that the compositor offers.
#[derive(Debug)]
pub struct GlobalRecord {
    pub interface: String,
    pub version: u32,
    pub name: u32,
}

/// A global object as contracts speak of it.
#[verifier::ext_equal]
pub struct GlobalView {
    pub interface: Seq<char>,
    pub version: u32,
    pub name: u32,
}

impl View for GlobalRecord {
    type V = GlobalView;

    open spec fn view(&self) -> GlobalView {
        GlobalView { interface: self.interface@, version: self.version, name: self.name }
    }
}

impl Clone for GlobalRecord {
    fn clone(&self) -> (r: Self)
        ensures
            r@ == self@,
    {
        GlobalRecord {
            interface: self.interface.clone(),
            version: self.version,
            name: self.name,
        }
    }
}

/// A request that the toplevel manager may offer.
#[derive(Debug, Clone, Copy, PartialEq, Eq, Structural)]
pub enum ToplevelCapability {
    Close,
    Activate,
    Maximize,
    Minimize,
    Fullscreen,
    MoveToWorkspace,
    Sticky,
    MoveToExtWorkspace,
    /// A request that is not known by name.
    Unknown(u32),
}

impl ToplevelCapability {
    /// The capability as it is shown.
    pub open spec fn text(self) -> Seq<char> {
        match self {
            ToplevelCapability::Close => "Close"@,
            ToplevelCapability::Activate => "Activate"@,
            ToplevelCapability::Maximize => "Maximize"@,
            ToplevelCapability::Minimize => "Minimize"@,
            ToplevelCapability::Fullscreen => "Fullscreen"@,
            ToplevelCapability::MoveToWorkspace => "MoveToWorkspace"@,
            ToplevelCapability::Sticky => "Sticky"@,
            ToplevelCapability::MoveToExtWorkspace => "MoveToExtWorkspace"@,
            ToplevelCapability::Unknown(n) => "Unknown("@ + decimal::decimal(n as nat) + ")"@,
        }
    }
}

/// The capability as it is shown.
pub fn display_capability(capability: ToplevelCapability) -> (r: String)
    ensures
        r@ == capability.text(),
{
    match capability {
        ToplevelCapability::Close => "Close".to_owned(),
        ToplevelCapability::Activate => "Activate".to_owned(),
        ToplevelCapability::Maximize => "Maximize".to_owned(),
        ToplevelCapability::Minimize => "Minimize".to_owned(),
        ToplevelCapability::Fullscreen => "Fullscreen".to_owned(),
        ToplevelCapability::MoveToWorkspace => "MoveToWorkspace".to_owned(),
        ToplevelCapability::Sticky => "Sticky".to_owned(),
        ToplevelCapability::MoveToExtWorkspace => "MoveToExtWorkspace".to_owned(),
        ToplevelCapability::Unknown(n) => {
            let mut out: String = "Unknown(".to_owned();
            out.append(decimal::decimal_text(n as u64).as_str());
            out.append(")");
            out
        },
    }
}

/// All that the compositor has told so far.
#[derive(Debug)]
pub struct Compositor {
    pub workspaces: Vec<WorkspaceInfo>,
    pub groups: Vec<WorkspaceGroup>,
    pub outputs: Vec<OutputInfo>,
    pub toplevels: Vec<ToplevelInfo>,
    pub seats: Vec<Handle>,
    pub globals: Vec<GlobalRecord>,
    pub manager_capabilities: Vec<ToplevelCapability>,
    /// Set when the workspace manager sends its initial `done`.
    pub workspace_done: bool,
    /// Set when the toplevel manager advertises its capabilities.
    pub manager_capabilities_ready: bool,
}

/// What the compositor has told, as contracts speak of it.
#[verifier::ext_equal]
pub struct CompositorView {
    pub workspaces: Seq<WorkspaceInfoView>,
    pub groups: Seq<GroupView>,
    pub outputs: Seq<OutputView>,
    pub toplevels: Seq<ToplevelView>,
    pub seats: Seq<Handle>,
    pub globals: Seq<GlobalView>,
    pub manager_capabilities: Seq<ToplevelCapability>,
    pub workspace_done: bool,
    pub manager_capabilities_ready: bool,
}

impl View for Compositor {
    type V = CompositorView;

    open spec fn view(&self) -> CompositorView {
        CompositorView {
            workspaces: self.workspaces@.map_values(|w: WorkspaceInfo| w@),
            groups: self.groups@.map_values(|g: WorkspaceGroup| g@),
            outputs: self.outputs@.map_values(|o: OutputInfo| o@),
            toplevels: self.toplevels@.map_values(|t: ToplevelInfo| t@),
            seats: self.seats@,
            globals: self.globals@.map_values(|g: GlobalRecord| g@),
            manager_capabilities: self.manager_capabilities@,
            workspace_done: self.workspace_done,
            manager_capabilities_ready: self.manager_capabilities_ready,
        }
    }
}

/// The workspaces and windows at one moment.
#[derive(Debug)]
pub struct Snapshot {
    pub workspaces: Vec<WorkspaceRecord>,
    pub windows: Vec<WindowRecord>,
}

/// A snapshot as contracts speak of it.
#[verifier::ext_equal]
pub struct SnapshotView {
    pub workspaces: Seq<WorkspaceView>,
    pub windows: Seq<WindowView>,
}

impl View for Snapshot {
    type V = SnapshotView;

    open spec fn view(&self) -> SnapshotView {
        SnapshotView {
            workspaces: records::workspace_views(self.workspaces@),
            windows: records::window_views(self.windows@),
        }
    }
}

impl CompositorView {
    /// The name of the output, where it is known and has one.
    pub open spec fn output_label(self, output: Handle) -> Option<Seq<char>> {
        match list::first_where(self.outputs, |o: OutputView| o.handle == output) {
            Some(i) => self.outputs[i].name,
            None => None,
        }
    }

    /// The names of the outputs that have one, in the order of the outputs.
    pub open spec fn output_labels(self, outputs: Seq<Handle>) -> Seq<Seq<char>> {
        outputs.filter(|o: Handle| self.output_label(o) is Some).map_values(
            |o: Handle| self.output_label(o)->0,
        )
    }

    /// Is this the name of the output, ASCII case aside?
    pub open spec fn is_named(self, output: Handle, name: Seq<char>) -> bool {
        self.output_label(output) matches Some(label) && text::lowered(label) == text::lowered(name)
    }

    /// The first of the outputs that has this name, ASCII case aside.
    pub open spec fn output_among(self, outputs: Seq<Handle>, name: Seq<char>) -> Option<Handle> {
        match list::first_where(outputs, |o: Handle| self.is_named(o, name)) {
            Some(i) => Some(outputs[i]),
            None => None,
        }
    }

    /// The position of the first group that holds the workspace.
    pub open spec fn group_of(self, workspace: Handle) -> Option<int> {
        list::first_where(self.groups, |g: GroupView| g.workspaces.contains(workspace))
    }

    /// The workspace with the outputs of its group.
    pub open spec fn workspace_record(self, info: WorkspaceInfoView) -> WorkspaceView {
        let group = self.groups[self.group_of(info.handle)->0];
        WorkspaceView {
            handle: info.handle,
            name: info.name,
            id: info.id,
            coordinates: info.coordinates,
            output_names: self.output_labels(group.outputs),
            output_handles: group.outputs,
        }
    }

    /// The workspaces that belong to a group, with its outputs.
    pub open spec fn workspace_records(self) -> Seq<WorkspaceView> {
        self.workspaces.filter(|w: WorkspaceInfoView| self.group_of(w.handle) is Some).map_values(
            |w: WorkspaceInfoView| self.workspace_record(w),
        )
    }

    /// The window with the names of its outputs and workspaces, in order and
    /// each once.
    pub open spec fn window_record(self, window: ToplevelView) -> WindowView {
        WindowView {
            title: window.title,
            app_id: window.app_id,
            identifier: window.identifier,
            output_names: order::in_order(self.output_labels(window.outputs).to_set()),
            output_handles: window.outputs,
            workspace_names: order::in_order(
                model::names_of(window.workspaces, self.workspace_records()),
            ),
            cosmic_toplevel: window.cosmic_toplevel,
            foreign_id: window.foreign_id,
            active: window.active,
        }
    }

    /// Does the record of the window list the names of its outputs and of its
    /// workspaces, in order and each once?
    pub open spec fn has_names_in_order(self, window: ToplevelView, record: WindowView) -> bool {
        &&& order::is_order_of(
            record.output_names,
            self.output_labels(window.outputs).to_set(),
        )
        &&& order::is_order_of(
            record.workspace_names,
            model::names_of(window.workspaces, self.workspace_records()),
        )
    }

    /// The workspaces and windows.
    pub open spec fn snapshot_view(self) -> SnapshotView {
        SnapshotView {
            workspaces: self.workspace_records(),
            windows: self.toplevels.map_values(|t: ToplevelView| self.window_record(t)),
        }
    }

    /// Is a global object with this interface on offer?
    pub open spec fn offers(self, interface: Seq<char>) -> bool {
        exists|i: int| 0 <= i < self.globals.len() && (#[trigger] self.globals[i]).interface == interface
    }

    /// Does the toplevel manager advertise the capability?
    pub open spec fn advertises(self, capability: ToplevelCapability) -> bool {
        self.manager_capabilities.contains(capability)
    }

    /// May windows be moved between workspaces although that is not
    /// advertised? So it is where the new workspace managers are on offer,
    /// the legacy one is not, and the legacy move is advertised.
    pub open spec fn assumes_ext_move(self) -> bool {
        &&& self.offers("ext_workspace_manager_v1"@)
        &&& self.offers("zcosmic_workspace_manager_v2"@)
        &&& !self.offers("zcosmic_workspace_manager_v1"@)
        &&& self.advertises(ToplevelCapability::MoveToWorkspace)
    }

    /// Why windows cannot be moved between workspaces, if they cannot.
    pub open spec fn move_obstacle(self, force_ext_move: bool) -> Option<ErrorView> {
        if self.advertises(ToplevelCapability::MoveToExtWorkspace) || force_ext_move
            || self.assumes_ext_move() {
            None
        } else if self.advertises(ToplevelCapability::MoveToWorkspace) {
            Some(Problem::LegacyMoveOnly)
        } else {
            Some(Problem::NoExtMove)
        }
    }

    /// Has everything arrived that the compositor tells at the start?
    pub open spec fn initial_state_arrived(self) -> bool {
        self.workspace_done && self.manager_capabilities_ready && self.toplevels.len() > 0
    }
}

impl Compositor {
    /// The name of the output, where it is known and has one.
    pub fn output_name(&self, output: Handle) -> (r: Option<String>)
        ensures
            text::opt_view(r) == self@.output_label(output),
    {
        let ghost all = self@.outputs;
        let ghost pred = |o: OutputView| o.handle == output;
        let mut i: usize = 0;
        while i < self.outputs.len()
            invariant
                i <= self.outputs.len(),
                all == self@.outputs,
                pred == (|o: OutputView| o.handle == output),
                list::first_from(all, pred, 0) == list::first_from(all, pred, i as int),
            decreases self.outputs.len() - i,
        {
            assert(all[i as int] == self.outputs@[i as int]@);
            if self.outputs[i].handle == output {
                return records::copy_option(&self.outputs[i].name);
            }
            i = i + 1;
        }
        None
    }

    /// The names of the outputs that have one, in the order of the outputs.
    fn output_names(&self, outputs: &Vec<Handle>) -> (r: Vec<String>)
        ensures
            text::views(r@) == self@.output_labels(outputs@),
    {
        let ghost view = self@;
        let ghost named = |o: Handle| view.output_label(o) is Some;
        let ghost label = |o: Handle| view.output_label(o)->0;
        let mut names: Vec<String> = Vec::new();
        let mut i: usize = 0;
        proof {
            reveal(Seq::filter);
            assert(text::views(names@) =~= outputs@.take(0).filter(named).map_values(label));
        }
        while i < outputs.len()
            invariant
                i <= outputs.len(),
                view == self@,
                named == (|o: Handle| view.output_label(o) is Some),
                label == (|o: Handle| view.output_label(o)->0),
                text::views(names@) == outputs@.take(i as int).filter(named).map_values(label),
            decreases outputs.len() - i,
        {
            let ghost before = names@;
            proof {
                list::lemma_filter_step(outputs@, named, i as int);
            }
            let name: Option<String> = self.output_name(outputs[i]);
            if let Some(name) = name {
                names.push(name);
                proof {
                    let kept = outputs@.take(i as int).filter(named);
                    assert(text::views(names@) =~= text::views(before).push(name@));
                    assert(kept.push(outputs@[i as int]).map_values(label) =~= kept.map_values(label).push(
                        name@,
                    ));
                }
            }
            i = i + 1;
        }
        assert(outputs@.take(i as int) =~= outputs@);
        names
    }

    /// The first of the outputs that has this name, ASCII case aside.
    pub fn find_output(&self, outputs: &Vec<Handle>, name: &str) -> (r: Option<Handle>)
        ensures
            r == self@.output_among(outputs@, name@),
    {
        let ghost pred = |o: Handle| self@.is_named(o, name@);
        let mut i: usize = 0;
        while i < outputs.len()
            invariant
                i <= outputs.len(),
                pred == (|o: Handle| self@.is_named(o, name@)),
                list::first_from(outputs@, pred, 0) == list::first_from(outputs@, pred, i as int),
            decreases outputs.len() - i,
        {
            if let Some(label) = self.output_name(outputs[i]) {
                if text::same_ignoring_case(label.as_str(), name) {
                    return Some(outputs[i]);
                }
            }
            i = i + 1;
        }
        None
    }

    /// The position of the first group that holds the workspace.
    fn find_group(&self, workspace: Handle) -> (r: Option<usize>)
        ensures
            match r {
                Some(i) => self@.group_of(workspace) == Some(i as int) && i < self.groups.len(),
                None => self@.group_of(workspace) is None,
            },
    {
        broadcast use vstd::std_specs::hash::group_hash_axioms;

        let ghost all = self@.groups;
        let ghost pred = |g: GroupView| g.workspaces.contains(workspace);
        let mut i: usize = 0;
        while i < self.groups.len()
            invariant
                i <= self.groups.len(),
                all == self@.groups,
                pred == (|g: GroupView| g.workspaces.contains(workspace)),
                list::first_from(all, pred, 0) == list::first_from(all, pred, i as int),
            decreases self.groups.len() - i,
        {
            assert(all[i as int] == self.groups@[i as int]@);
            if self.groups[i].workspaces.contains(&workspace) {
                return Some(i);
            }
            i = i + 1;
        }
        None
    }

    /// The workspaces that belong to a group, with its outputs.
    fn list_workspaces(&self) -> (r: Vec<WorkspaceRecord>)
        ensures
            records::workspace_views(r@) == self@.workspace_records(),
    {
        let ghost view = self@;
        let ghost grouped = |w: WorkspaceInfoView| view.group_of(w.handle) is Some;
        let ghost record = |w: WorkspaceInfoView| view.workspace_record(w);
        let mut found: Vec<WorkspaceRecord> = Vec::new();
        let mut i: usize = 0;
        proof {
            reveal(Seq::filter);
            assert(records::workspace_views(found@) =~= view.workspaces.take(0).filter(grouped).map_values(
                record,
            ));
        }
        while i < self.workspaces.len()
            invariant
                i <= self.workspaces.len(),
                view == self@,
                grouped == (|w: WorkspaceInfoView| view.group_of(w.handle) is Some),
                record == (|w: WorkspaceInfoView| view.workspace_record(w)),
                records::workspace_views(found@) == view.workspaces.take(i as int).filter(
                    grouped,
                ).map_values(record),
            decreases self.workspaces.len() - i,
        {
            let ghost before = found@;
            proof {
                list::lemma_filter_step(view.workspaces, grouped, i as int);
            }
            let info: &WorkspaceInfo = &self.workspaces[i];
            assert(view.workspaces[i as int] == info@);
            if let Some(g) = self.find_group(info.handle) {
                let group: &WorkspaceGroup = &self.groups[g];
                assert(view.groups[g as int] == group@);
                let workspace: WorkspaceRecord = WorkspaceRecord {
                    handle: info.handle,
                    name: info.name.clone(),
                    id: records::copy_option(&info.id),
                    coordinates: records::copy_coordinates(&info.coordinates),
                    output_names: self.output_names(&group.outputs),
                    output_handles: records::copy_handles(&group.outputs),
                };
                assert(workspace@ =~= view.workspace_record(info@));
                found.push(workspace);
                proof {
                    let kept = view.workspaces.take(i as int).filter(grouped);
                    assert(records::workspace_views(found@) =~= records::workspace_views(before).push(
                        view.workspace_record(info@),
                    ));
                    assert(kept.push(info@).map_values(record) =~= kept.map_values(record).push(
                        view.workspace_record(info@),
                    ));
                }
            }
            i = i + 1;
        }
        assert(view.workspaces.take(i as int) =~= view.workspaces);
        found
    }

    /// The window with the names of its outputs and workspaces.
    fn describe_window(&self, window: &ToplevelInfo, workspaces: &Vec<WorkspaceRecord>) -> (r:
        WindowRecord)
        requires
            records::workspace_views(workspaces@) == self@.workspace_records(),
        ensures
            r@ == self@.window_record(window@),
            self@.has_names_in_order(window@, r@),
    {
        let names: Vec<String> = self.output_names(&window.outputs);
        let ghost texts = text::views(names@);
        let mut sorted: Vec<String> = Vec::new();
        let mut i: usize = 0;
        while i < names.len()
            invariant
                i <= names.len(),
                texts == text::views(names@),
                order::is_order_of(text::views(sorted@), texts.take(i as int).to_set()),
            decreases names.len() - i,
        {
            proof {
                let next = texts.take(i + 1);
                assert(texts[i as int] == names@[i as int]@);
                assert forall|t: Seq<char>| next.contains(t) <==> (texts.take(i as int).contains(t)
                    || t == texts[i as int]) by {
                    if texts.take(i as int).contains(t) {
                        let k = choose|k: int| 0 <= k < i && texts.take(i as int)[k] == t;
                        assert(next[k] == t);
                    }
                    assert(next[i as int] == texts[i as int]);
                    if next.contains(t) {
                        let k = choose|k: int| 0 <= k < next.len() && next[k] == t;
                        if k < i {
                            assert(texts.take(i as int)[k] == t);
                        }
                    }
                }
            }
            order::insert_sorted(&mut sorted, names[i].clone());
            i = i + 1;
        }
        proof {
            assert(texts.take(i as int) =~= texts);
            order::lemma_in_order(text::views(sorted@), texts.to_set());
        }
        WindowRecord {
            title: window.title.clone(),
            app_id: window.app_id.clone(),
            identifier: window.identifier.clone(),
            output_names: sorted,
            output_handles: records::copy_handles(&window.outputs),
            workspace_names: model::workspace_names(&window.workspaces, workspaces.as_slice()),
            cosmic_toplevel: window.cosmic_toplevel,
            foreign_id: window.foreign_id,
            active: window.active,
        }
    }

    /// The workspaces and windows.
    pub fn snapshot(&self) -> (r: Snapshot)
        ensures
            r@ == self@.snapshot_view(),
            forall|i: int|
                0 <= i < r@.windows.len() ==> self@.has_names_in_order(
                    self@.toplevels[i],
                    #[trigger] r@.windows[i],
                ),
    {
        let workspaces: Vec<WorkspaceRecord> = self.list_workspaces();
        let mut windows: Vec<WindowRecord> = Vec::new();
        let mut i: usize = 0;
        while i < self.toplevels.len()
            invariant
                i <= self.toplevels.len(),
                records::workspace_views(workspaces@) == self@.workspace_records(),
                windows.len() == i,
                forall|k: int|
                    0 <= k < i ==> (#[trigger] windows@[k])@ == self@.window_record(
                        self@.toplevels[k],
                    ) && self@.has_names_in_order(self@.toplevels[k], windows@[k]@),
            decreases self.toplevels.len() - i,
        {
            windows.push(self.describe_window(&self.toplevels[i], &workspaces));
            i = i + 1;
        }
        let r: Snapshot = Snapshot { workspaces, windows };
        assert(r@.windows =~= self@.snapshot_view().windows);
        assert forall|i: int| 0 <= i < r@.windows.len() implies self@.has_names_in_order(
            self@.toplevels[i],
            #[trigger] r@.windows[i],
        ) by {
            assert(r@.windows[i] == r.windows@[i]@);
        }
        r
    }

    /// Is a global object with this interface on offer?
    fn has_global(&self, interface: &str) -> (r: bool)
        ensures
            r == self@.offers(interface@),
    {
        let mut i: usize = 0;
        while i < self.globals.len()
            invariant
                i <= self.globals.len(),
                forall|k: int|
                    0 <= k < i ==> (#[trigger] self@.globals[k]).interface != interface@,
            decreases self.globals.len() - i,
        {
            assert(self@.globals[i as int] == self.globals@[i as int]@);
            if text::same_text(self.globals[i].interface.as_str(), interface) {
                return true;
            }
            i = i + 1;
        }
        false
    }

    /// Does the toplevel manager advertise the capability?
    fn has_capability(&self, capability: ToplevelCapability) -> (r: bool)
        ensures
            r == self@.advertises(capability),
    {
        let mut i: usize = 0;
        while i < self.manager_capabilities.len()
            invariant
                i <= self.manager_capabilities.len(),
                forall|k: int| 0 <= k < i ==> self.manager_capabilities@[k] != capability,
            decreases self.manager_capabilities.len() - i,
        {
            if self.manager_capabilities[i] == capability {
                assert(self@.manager_capabilities[i as int] == capability);
                return true;
            }
            i = i + 1;
        }
        false
    }

    /// May windows be moved between workspaces although that is not
    /// advertised?
    pub fn should_assume_ext_move_support(&self) -> (r: bool)
        ensures
            r == self@.assumes_ext_move(),
    {
        self.has_global("ext_workspace_manager_v1") && self.has_global(
            "zcosmic_workspace_manager_v2",
        ) && !self.has_global("zcosmic_workspace_manager_v1") && self.has_capability(
            ToplevelCapability::MoveToWorkspace,
        )
    }

    /// Can windows be moved between workspaces?
    pub fn ensure_move_capability(&self, force_ext_move: bool) -> (r: Result<(), WmError>)
        ensures
            match r {
                Ok(_) => self@.move_obstacle(force_ext_move) is None,
                Err(e) => self@.move_obstacle(force_ext_move) == Some(e@),
            },
    {
        if self.has_capability(ToplevelCapability::MoveToExtWorkspace) {
            return Ok(());
        }
        if force_ext_move {
            return Ok(());
        }
        if self.should_assume_ext_move_support() {
            return Ok(());
        }
        if self.has_capability(ToplevelCapability::MoveToWorkspace) {
            return Err(Problem::LegacyMoveOnly);
        }
        Err(Problem::NoExtMove)
    }

    /// The first seat.
    pub fn first_seat(&self) -> (r: Option<Handle>)
        ensures
            r == (if self@.seats.len() > 0 {
                Some(self@.seats[0])
            } else {
                None
            }),
    {
        if self.seats.len() > 0 {
            Some(self.seats[0])
        } else {
            None
        }
    }

    /// Has everything arrived that the compositor tells at the start?
    pub fn is_ready(&self) -> (r: bool)
        ensures
            r == self@.initial_state_arrived(),
    {
        self.workspace_done && self.manager_capabilities_ready && self.toplevels.len() > 0
    }

    /// Takes in that the workspace manager has described all its workspaces.
    pub fn done(&mut self)
        ensures
            final(self)@ == (CompositorView { workspace_done: true, ..old(self)@ }),
    {
        self.workspace_done = true;
    }

    /// Takes in the capabilities that the toplevel manager advertises.
    pub fn capabilities(&mut self, capabilities: Vec<ToplevelCapability>)
        ensures
            final(self)@ == (CompositorView {
                manager_capabilities: capabilities@,
                manager_capabilities_ready: true,
                ..old(self)@
            }),
    {
        self.manager_capabilities = capabilities;
        self.manager_capabilities_ready = true;
    }
}

/// The snapshot has a record for each window, in the order of the windows, and
/// the record is of that window: it is moved, activated and told apart by what
/// the compositor has told of it.
pub proof fn law_snapshot_has_each_window(compositor: CompositorView, i: int)
    requires
        0 <= i < compositor.toplevels.len(),
    ensures
        ({
            let windows = compositor.snapshot_view().windows;
            let told = compositor.toplevels[i];
            &&& windows.len() == compositor.toplevels.len()
            &&& windows[i].title == told.title
            &&& windows[i].app_id == told.app_id
            &&& windows[i].identifier == told.identifier
            &&& windows[i].output_handles == told.outputs
            &&& windows[i].cosmic_toplevel == told.cosmic_toplevel
            &&& windows[i].foreign_id == told.foreign_id
            &&& windows[i].active == told.active
        }),
{
}

/// Does the output have this name? It is that of the first entry for the
/// output.
pub open spec fn has_name(compositor: CompositorView, output: Handle, name: Seq<char>) -> bool {
    exists|k: int|
        {
            &&& 0 <= k < compositor.outputs.len()
            &&& (#[trigger] compositor.outputs[k]).handle == output
            &&& compositor.outputs[k].name == Some(name)
            &&& forall|j: int|
                0 <= j < k ==> (#[trigger] compositor.outputs[j]).handle != output
        }
}

/// An output is labelled with its name, and not at all where it is not known or
/// has no name.
pub proof fn law_output_is_labelled(compositor: CompositorView, output: Handle, name: Seq<char>)
    ensures
        compositor.output_label(output) == Some(name) <==> has_name(compositor, output, name),
        (forall|k: int|
            0 <= k < compositor.outputs.len() ==> (#[trigger] compositor.outputs[k]).handle
                != output) ==> compositor.output_label(output) is None,
{
    let pred = |o: OutputView| o.handle == output;
    list::lemma_first_from(compositor.outputs, pred, 0);
    if let Some(k) = list::first_where(compositor.outputs, pred) {
        assert(pred(compositor.outputs[k]));
        assert forall|j: int| 0 <= j < k implies (#[trigger] compositor.outputs[j]).handle
            != output by {
            assert(!pred(compositor.outputs[j]));
        }
        if has_name(compositor, output, name) {
            let n = choose|n: int|
                {
                    &&& 0 <= n < compositor.outputs.len()
                    &&& (#[trigger] compositor.outputs[n]).handle == output
                    &&& compositor.outputs[n].name == Some(name)
                    &&& forall|j: int|
                        0 <= j < n ==> (#[trigger] compositor.outputs[j]).handle != output
                };
            assert(n == k);
        }
    } else {
        assert forall|j: int| 0 <= j < compositor.outputs.len() implies (
        #[trigger] compositor.outputs[j]).handle != output by {
            assert(!pred(compositor.outputs[j]));
        }
    }
}

/// An output is found by its name in any ASCII case, and by no other text.
pub proof fn law_output_is_found_by_name(
    compositor: CompositorView,
    output: Handle,
    name: Seq<char>,
    label: Seq<char>,
)
    ensures
        has_name(compositor, output, label) ==> (compositor.is_named(output, name) <==> text::lowered(
            label,
        ) == text::lowered(name)),
        compositor.is_named(output, name) ==> exists|other: Seq<char>| #[trigger]
            has_name(compositor, output, other),
{
    law_output_is_labelled(compositor, output, label);
    if let Some(other) = compositor.output_label(output) {
        law_output_is_labelled(compositor, output, other);
        assert(has_name(compositor, output, other));
    }
}

/// Is the group at position `g` the one of the workspace, the first that holds
/// it?
pub open spec fn is_group_of(compositor: CompositorView, workspace: Handle, g: int) -> bool {
    &&& 0 <= g < compositor.groups.len()
    &&& compositor.groups[g].workspaces.contains(workspace)
    &&& forall|j: int|
        0 <= j < g ==> !(#[trigger] compositor.groups[j]).workspaces.contains(workspace)
}

/// The group of a workspace is found.
proof fn lemma_group(compositor: CompositorView, workspace: Handle)
    ensures
        match compositor.group_of(workspace) {
            Some(g) => is_group_of(compositor, workspace, g),
            None => forall|g: int|
                0 <= g < compositor.groups.len() ==> !(
                #[trigger] compositor.groups[g]).workspaces.contains(workspace),
        },
        forall|g: int| #[trigger]
            is_group_of(compositor, workspace, g) ==> compositor.group_of(workspace) == Some(g),
{
    let pred = |g: GroupView| g.workspaces.contains(workspace);
    list::lemma_first_from(compositor.groups, pred, 0);
    match list::first_where(compositor.groups, pred) {
        Some(k) => {
            assert(pred(compositor.groups[k]));
            assert forall|j: int| 0 <= j < k implies !(
            #[trigger] compositor.groups[j]).workspaces.contains(workspace) by {
                assert(!pred(compositor.groups[j]));
            }
        },
        None => {
            assert forall|j: int| 0 <= j < compositor.groups.len() implies !(
            #[trigger] compositor.groups[j]).workspaces.contains(workspace) by {
                assert(!pred(compositor.groups[j]));
            }
        },
    }
}

/// The snapshot has a record for each workspace that a group holds, in the
/// order of the workspaces, and none for the others. The record is of that
/// workspace, with the outputs of its group. The positions of the workspaces
/// that have a record are given back.
pub proof fn law_snapshot_has_grouped_workspaces(compositor: CompositorView) -> (positions: Seq<
    int,
>)
    ensures
        ({
            let records = compositor.snapshot_view().workspaces;
            &&& positions.len() == records.len()
            &&& forall|k: int|
                0 <= k < records.len() ==> {
                    let n = #[trigger] positions[k];
                    let told = compositor.workspaces[n];
                    &&& 0 <= n < compositor.workspaces.len()
                    &&& records[k].handle == told.handle
                    &&& records[k].name == told.name
                    &&& records[k].id == told.id
                    &&& records[k].coordinates == told.coordinates
                    &&& exists|g: int| #[trigger]
                        is_group_of(compositor, told.handle, g) && records[k].output_handles
                            == compositor.groups[g].outputs
                }
            &&& forall|a: int, b: int|
                0 <= a < b < positions.len() ==> #[trigger] positions[a] < #[trigger] positions[b]
            &&& forall|n: int, g: int|
                0 <= n < compositor.workspaces.len() && 0 <= g < compositor.groups.len() && (
                #[trigger] compositor.groups[g]).workspaces.contains(
                    (#[trigger] compositor.workspaces[n]).handle,
                ) ==> positions.contains(n)
        }),
{
    let grouped = |w: WorkspaceInfoView| compositor.group_of(w.handle) is Some;
    let positions = list::lemma_kept_positions(compositor.workspaces, grouped);
    let records = compositor.snapshot_view().workspaces;
    assert forall|k: int| 0 <= k < records.len() implies {
        let n = #[trigger] positions[k];
        let told = compositor.workspaces[n];
        &&& 0 <= n < compositor.workspaces.len()
        &&& records[k].handle == told.handle
        &&& records[k].name == told.name
        &&& records[k].id == told.id
        &&& records[k].coordinates == told.coordinates
        &&& exists|g: int| #[trigger]
            is_group_of(compositor, told.handle, g) && records[k].output_handles
                == compositor.groups[g].outputs
    } by {
        let told = compositor.workspaces[positions[k]];
        assert(grouped(told));
        lemma_group(compositor, told.handle);
        assert(is_group_of(compositor, told.handle, compositor.group_of(told.handle)->0));
    }
    assert forall|n: int, g: int|
        0 <= n < compositor.workspaces.len() && 0 <= g < compositor.groups.len() && (
        #[trigger] compositor.groups[g]).workspaces.contains(
            (#[trigger] compositor.workspaces[n]).handle,
        ) implies positions.contains(n) by {
        lemma_group(compositor, compositor.workspaces[n].handle);
        assert(grouped(compositor.workspaces[n]));
    }
    positions
}

/// The record of a workspace lists the names of its outputs in the order of the
/// outputs; outputs without a name are left out. The positions of the outputs
/// that have a name are given back.
pub proof fn law_workspace_lists_outputs(compositor: CompositorView, k: int) -> (positions: Seq<
    int,
>)
    requires
        0 <= k < compositor.snapshot_view().workspaces.len(),
    ensures
        ({
            let record = compositor.snapshot_view().workspaces[k];
            let outputs = record.output_handles;
            &&& positions.len() == record.output_names.len()
            &&& forall|m: int|
                0 <= m < positions.len() ==> {
                    let n = #[trigger] positions[m];
                    &&& 0 <= n < outputs.len()
                    &&& has_name(compositor, outputs[n], record.output_names[m])
                }
            &&& forall|a: int, b: int|
                0 <= a < b < positions.len() ==> #[trigger] positions[a] < #[trigger] positions[b]
            &&& forall|n: int, name: Seq<char>|
                0 <= n < outputs.len() && #[trigger] has_name(compositor, outputs[n], name)
                    ==> positions.contains(n)
        }),
{
    let record = compositor.snapshot_view().workspaces[k];
    let outputs = record.output_handles;
    let named = |o: Handle| compositor.output_label(o) is Some;
    let positions = list::lemma_kept_positions(outputs, named);
    assert(record.output_names == compositor.output_labels(outputs));
    assert forall|m: int| 0 <= m < positions.len() implies {
        let n = #[trigger] positions[m];
        &&& 0 <= n < outputs.len()
        &&& has_name(compositor, outputs[n], record.output_names[m])
    } by {
        let n = positions[m];
        assert(named(outputs[n]));
        law_output_is_labelled(compositor, outputs[n], record.output_names[m]);
    }
    assert forall|n: int, name: Seq<char>|
        0 <= n < outputs.len() && #[trigger] has_name(
            compositor,
            outputs[n],
            name,
        ) implies positions.contains(n) by {
        law_output_is_labelled(compositor, outputs[n], name);
        assert(named(outputs[n]));
    }
    positions
}

/// The record of a window lists the names of the outputs that show it and of
/// the workspaces that hold it, each once, in the order of texts, and no other
/// names.
pub proof fn law_window_lists_names(
    compositor: CompositorView,
    window: ToplevelView,
    record: WindowView,
    name: Seq<char>,
)
    requires
        compositor.has_names_in_order(window, record),
    ensures
        record.output_names.contains(name) <==> exists|n: int|
            0 <= n < window.outputs.len() && has_name(
                compositor,
                #[trigger] window.outputs[n],
                name,
            ),
        record.workspace_names.contains(name) <==> model::names_of(
            window.workspaces,
            compositor.snapshot_view().workspaces,
        ).contains(name),
        forall|i: int, j: int|
            0 <= i < j < record.output_names.len() ==> order::text_before(
                #[trigger] record.output_names[i],
                #[trigger] record.output_names[j],
            ),
        forall|i: int, j: int|
            0 <= i < j < record.workspace_names.len() ==> order::text_before(
                #[trigger] record.workspace_names[i],
                #[trigger] record.workspace_names[j],
            ),
{
    let outputs = window.outputs;
    let named = |o: Handle| compositor.output_label(o) is Some;
    let labels = compositor.output_labels(outputs);
    let positions = list::lemma_kept_positions(outputs, named);
    assert(record.output_names.contains(name) <==> labels.to_set().contains(name));
    if labels.contains(name) {
        let m = choose|m: int| 0 <= m < labels.len() && labels[m] == name;
        assert(named(outputs[positions[m]]));
        law_output_is_labelled(compositor, outputs[positions[m]], name);
    }
    if exists|n: int|
        0 <= n < outputs.len() && has_name(compositor, #[trigger] outputs[n], name) {
        let n = choose|n: int|
            0 <= n < outputs.len() && has_name(compositor, #[trigger] outputs[n], name);
        law_output_is_labelled(compositor, outputs[n], name);
        assert(named(outputs[n]));
        assert(positions.contains(n));
        let m = choose|m: int| 0 <= m < positions.len() && positions[m] == n;
        assert(labels[m] == name);
    }
}

/// Is an object with this interface among those on offer?
pub open spec fn is_offered(compositor: CompositorView, interface: Seq<char>) -> bool {
    exists|k: int|
        0 <= k < compositor.globals.len() && (#[trigger] compositor.globals[k]).interface
            == interface
}

/// Windows can be moved where the move between the new workspaces is
/// advertised, where the check is bypassed, and where the old move is
/// advertised but the new workspaces are the only ones on offer. Otherwise it
/// is told whether the old move is all there is.
pub proof fn law_move_is_supported(compositor: CompositorView, force_ext_move: bool)
    ensures
        ({
            let advertised = compositor.manager_capabilities;
            let new_move = advertised.contains(ToplevelCapability::MoveToExtWorkspace);
            let old_move = advertised.contains(ToplevelCapability::MoveToWorkspace);
            let new_only = is_offered(compositor, "ext_workspace_manager_v1"@) && is_offered(
                compositor,
                "zcosmic_workspace_manager_v2"@,
            ) && !is_offered(compositor, "zcosmic_workspace_manager_v1"@);
            &&& compositor.move_obstacle(force_ext_move) is None <==> force_ext_move || new_move
                || (old_move && new_only)
            &&& compositor.move_obstacle(force_ext_move) == Some(ErrorView::LegacyMoveOnly)
                <==> !force_ext_move && !new_move && old_move && !new_only
            &&& compositor.move_obstacle(force_ext_move) == Some(ErrorView::NoExtMove)
                <==> !force_ext_move && !new_move && !old_move
        }),
{
}

/// All that is told at the start has arrived once the workspaces, the
/// capabilities and a window have been told of, and not before.
pub proof fn law_start_is_complete(compositor: CompositorView)
    ensures
        compositor.initial_state_arrived() ==> compositor.workspace_done,
        compositor.initial_state_arrived() ==> compositor.manager_capabilities_ready,
        compositor.initial_state_arrived() ==> compositor.toplevels.len() > 0,
        compositor.workspace_done && compositor.manager_capabilities_ready
            && compositor.toplevels.len() > 0 ==> compositor.initial_state_arrived(),
{
}

/// What contracts say of what the compositor has told they say of each thing
/// that it has told of, in their order.
pub proof fn law_compositor_is_seen_as_it_is(compositor: Compositor, i: int)
    ensures
        compositor@.toplevels.len() == compositor.toplevels@.len(),
        0 <= i < compositor.toplevels@.len() ==> {
            let told = compositor.toplevels@[i];
            let seen = compositor@.toplevels[i];
            &&& seen.title == told.title@
            &&& seen.app_id == told.app_id@
            &&& seen.identifier == told.identifier@
            &&& seen.outputs == told.outputs@
            &&& seen.workspaces == told.workspaces@
            &&& seen.cosmic_toplevel == told.cosmic_toplevel
            &&& seen.foreign_id == told.foreign_id
            &&& seen.active == told.active
        },
        compositor@.workspaces.len() == compositor.workspaces@.len(),
        0 <= i < compositor.workspaces@.len() ==> {
            let told = compositor.workspaces@[i];
            let seen = compositor@.workspaces[i];
            &&& seen.handle == told.handle
            &&& seen.name == told.name@
            &&& seen.id is Some <==> told.id is Some
            &&& told.id matches Some(id) ==> seen.id == Some(id@)
            &&& seen.coordinates == told.coordinates@
        },
        compositor@.groups.len() == compositor.groups@.len(),
        0 <= i < compositor.groups@.len() ==> {
            &&& compositor@.groups[i].workspaces == compositor.groups@[i].workspaces@
            &&& compositor@.groups[i].outputs == compositor.groups@[i].outputs@
        },
        compositor@.outputs.len() == compositor.outputs@.len(),
        0 <= i < compositor.outputs@.len() ==> {
            let told = compositor.outputs@[i];
            let seen = compositor@.outputs[i];
            &&& seen.handle == told.handle
            &&& seen.name is Some <==> told.name is Some
            &&& told.name matches Some(name) ==> seen.name == Some(name@)
        },
        compositor@.globals.len() == compositor.globals@.len(),
        0 <= i < compositor.globals@.len() ==> {
            let told = compositor.globals@[i];
            let seen = compositor@.globals[i];
            &&& seen.interface == told.interface@
            &&& seen.version == told.version
            &&& seen.name == told.name
        },
        compositor@.seats == compositor.seats@,
        compositor@.manager_capabilities == compositor.manager_capabilities@,
        compositor@.workspace_done == compositor.workspace_done,
        compositor@.manager_capabilities_ready == compositor.manager_capabilities_ready,
{
}

/// A snapshot is seen as the records that it holds.
pub proof fn law_snapshot_is_seen_as_it_is(snapshot: Snapshot, i: int)
    ensures
        snapshot@.windows.len() == snapshot.windows@.len(),
        0 <= i < snapshot.windows@.len() ==> snapshot@.windows[i] == snapshot.windows@[i]@,
        snapshot@.workspaces.len() == snapshot.workspaces@.len(),
        0 <= i < snapshot.workspaces@.len() ==> snapshot@.workspaces[i]
            == snapshot.workspaces@[i]@,
{
}

/// A capability is told by its own name, and one that is not known by its
/// number.
pub proof fn law_capabilities_are_told(n: u32)
    ensures
        ToplevelCapability::MoveToWorkspace.text() == "MoveToWorkspace"@,
        ToplevelCapability::MoveToExtWorkspace.text() == "MoveToExtWorkspace"@,
        text::contains_text(
            ToplevelCapability::Unknown(n).text(),
            decimal::decimal(n as nat),
        ),
{
    let told = ToplevelCapability::Unknown(n).text();
    let number = decimal::decimal(n as nat);
    let k = "Unknown("@.len() as int;
    assert(told.subrange(k, k + number.len()) =~= number);
    assert(text::occurs_at(told, number, k));
}

/// The record of each window in a snapshot lists the names of its outputs and
/// of its workspaces in order and each once.
pub proof fn law_snapshot_lists_names(compositor: CompositorView, i: int)
    requires
        0 <= i < compositor.toplevels.len(),
    ensures
        compositor.has_names_in_order(
            compositor.toplevels[i],
            compositor.snapshot_view().windows[i],
        ),
{
    let window = compositor.toplevels[i];
    let labels = compositor.output_labels(window.outputs);
    order::law_texts_can_be_ordered(labels, labels.to_set());
    let records = compositor.workspace_records();
    let held = model::names_of(window.workspaces, records);
    let names = records.map_values(|w: WorkspaceView| w.name);
    assert forall|t: Seq<char>| #[trigger] held.contains(t) implies names.contains(t) by {
        model::law_names_of_handles(window.workspaces, records, t);
        let k = choose|k: int|
            {
                &&& 0 <= k < records.len()
                &&& window.workspaces.contains((#[trigger] records[k]).handle)
                &&& records[k].name == t
                &&& forall|j: int|
                    0 <= j < k ==> (#[trigger] records[j]).handle != records[k].handle
            };
        assert(names[k] == t);
    }
    order::law_texts_can_be_ordered(names, held);
}

} // verus!
