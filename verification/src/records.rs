//! What the compositor tells of its windows and workspaces.
//!
//! Compositor objects (workspace handles, outputs, toplevel handles) are held
//! as numbers. The program that talks to the compositor gives every object
//! one number and every number one object, so that two numbers are equal
//! exactly when they stand for the same object.
use vstd::prelude::*;
use vstd::string::StringExecFns;

use crate::model;
use crate::text;

verus! {

/// The number that stands for a compositor object.
pub type Handle = u64;

/// A workspace.
#[derive(Debug)]
pub struct WorkspaceRecord {
    pub handle: Handle,
    pub name: String,
    pub id: Option<String>,
    pub coordinates: Vec<u32>,
    /// The names of the outputs that show the workspace.
    pub output_names: Vec<String>,
    /// The outputs that show the workspace.
    pub output_handles: Vec<Handle>,
}

/// A workspace as contracts speak of it.
#[verifier::ext_equal]
pub struct WorkspaceView {
    pub handle: Handle,
    pub name: Seq<char>,
    pub id: Option<Seq<char>>,
    pub coordinates: Seq<u32>,
    pub output_names: Seq<Seq<char>>,
    pub output_handles: Seq<Handle>,
}

impl View for WorkspaceRecord {
    type V = WorkspaceView;

    open spec fn view(&self) -> WorkspaceView {
        WorkspaceView {
            handle: self.handle,
            name: self.name@,
            id: text::opt_view(self.id),
            coordinates: self.coordinates@,
            output_names: text::views(self.output_names@),
            output_handles: self.output_handles@,
        }
    }
}

/// A window.
#[derive(Debug)]
pub struct WindowRecord {
    pub title: String,
    pub app_id: String,
    pub identifier: String,
    pub output_names: Vec<String>,
    pub output_handles: Vec<Handle>,
    pub workspace_names: Vec<String>,
    /// The toplevel handle that requests on the window are made with. The
    /// compositor sends it lazily, so it may be missing.
    pub cosmic_toplevel: Option<Handle>,
    /// The id that tells windows apart across snapshots.
    pub foreign_id: u32,
    /// Has the window the focus?
    pub active: bool,
}

/// A window as contracts speak of it.
#[verifier::ext_equal]
pub struct WindowView {
    pub title: Seq<char>,
    pub app_id: Seq<char>,
    pub identifier: Seq<char>,
    pub output_names: Seq<Seq<char>>,
    pub output_handles: Seq<Handle>,
    pub workspace_names: Seq<Seq<char>>,
    pub cosmic_toplevel: Option<Handle>,
    pub foreign_id: u32,
    pub active: bool,
}

impl View for WindowRecord {
    type V = WindowView;

    open spec fn view(&self) -> WindowView {
        WindowView {
            title: self.title@,
            app_id: self.app_id@,
            identifier: self.identifier@,
            output_names: text::views(self.output_names@),
            output_handles: self.output_handles@,
            workspace_names: text::views(self.workspace_names@),
            cosmic_toplevel: self.cosmic_toplevel,
            foreign_id: self.foreign_id,
            active: self.active,
        }
    }
}

/// The views of a list of workspaces.
pub open spec fn workspace_views(list: Seq<WorkspaceRecord>) -> Seq<WorkspaceView> {
    list.map_values(|w: WorkspaceRecord| w@)
}

/// The views of a list of windows.
pub open spec fn window_views(list: Seq<WindowRecord>) -> Seq<WindowView> {
    list.map_values(|w: WindowRecord| w@)
}

/// A field as it is shown: a dash stands for an empty one.
pub open spec fn shown(value: Seq<char>) -> Seq<char> {
    if value.len() == 0 {
        "-"@
    } else {
        value
    }
}

/// A list as it is shown: a dash stands for an empty one.
pub open spec fn shown_list(values: Seq<Seq<char>>) -> Seq<char> {
    if values.len() == 0 {
        "-"@
    } else {
        text::join_text(values, ", "@)
    }
}

/// An optional field as it is shown: a dash stands for a missing one.
pub open spec fn shown_option(value: Option<Seq<char>>) -> Seq<char> {
    match value {
        Some(s) => s,
        None => "-"@,
    }
}

impl WorkspaceView {
    /// Does the selector name the workspace by its id, its name or its
    /// coordinates?
    pub open spec fn answers(self, selector: Seq<char>) -> bool {
        ||| self.id == Some(selector)
        ||| self.name == selector
        ||| model::read_coordinates(selector) == Some(self.coordinates)
    }

    /// The one-line description of the workspace.
    pub open spec fn summary_text(self) -> Seq<char> {
        self.name + " (id="@ + shown_option(self.id) + ", coords="@ + model::coordinates_text(
            self.coordinates,
        ) + ", outputs="@ + shown_list(self.output_names) + ")"@
    }

    /// The position of the first of the names, at `from` or behind it, that is
    /// this one, ASCII case aside, and has an output at its side.
    pub open spec fn output_position(self, name: Seq<char>, from: int) -> Option<int>
        decreases self.output_names.len() - from,
    {
        if from < 0 || from >= self.output_names.len() || from >= self.output_handles.len() {
            None
        } else if text::lowered(self.output_names[from]) == text::lowered(name) {
            Some(from)
        } else {
            self.output_position(name, from + 1)
        }
    }

    /// The output that stands beside this name, ASCII case aside: names and
    /// outputs are paired by position.
    pub open spec fn output_beside(self, name: Seq<char>) -> Option<Handle> {
        match self.output_position(name, 0) {
            Some(i) => Some(self.output_handles[i]),
            None => None,
        }
    }
}

impl WindowView {
    /// The one-line description of the window.
    pub open spec fn summary_text(self) -> Seq<char> {
        shown(self.title) + " (app_id="@ + shown(self.app_id) + ", identifier="@ + shown(
            self.identifier,
        ) + ")"@
    }
}

/// A field as it is shown: a dash stands for an empty one.
pub fn display_field(value: &str) -> (r: &str)
    ensures
        r@ == shown(value@),
{
    if value.is_empty() {
        "-"
    } else {
        value
    }
}

/// A list as it is shown: a dash stands for an empty one.
pub fn joined_or_dash(values: &Vec<String>) -> (r: String)
    ensures
        r@ == shown_list(text::views(values@)),
{
    if values.len() == 0 {
        "-".to_owned()
    } else {
        text::join(values, ", ")
    }
}

/// A copy of a list of strings.
pub fn copy_strings(values: &Vec<String>) -> (r: Vec<String>)
    ensures
        text::views(r@) == text::views(values@),
{
    let r: Vec<String> = values.clone();
    assert(text::views(r@) =~= text::views(values@));
    r
}

/// A copy of an optional string.
pub fn copy_option(value: &Option<String>) -> (r: Option<String>)
    ensures
        text::opt_view(r) == text::opt_view(*value),
{
    match value {
        Some(s) => Some(s.clone()),
        None => None,
    }
}

/// A copy of a list of numbers.
pub fn copy_coordinates(values: &Vec<u32>) -> (r: Vec<u32>)
    ensures
        r@ == values@,
{
    values.clone()
}

/// A copy of a list of handles.
pub fn copy_handles(values: &Vec<Handle>) -> (r: Vec<Handle>)
    ensures
        r@ == values@,
{
    values.clone()
}

impl Clone for WorkspaceRecord {
    fn clone(&self) -> (r: Self)
        ensures
            r@ == self@,
    {
        WorkspaceRecord {
            handle: self.handle,
            name: self.name.clone(),
            id: copy_option(&self.id),
            coordinates: copy_coordinates(&self.coordinates),
            output_names: copy_strings(&self.output_names),
            output_handles: copy_handles(&self.output_handles),
        }
    }
}

impl Clone for WindowRecord {
    fn clone(&self) -> (r: Self)
        ensures
            r@ == self@,
    {
        WindowRecord {
            title: self.title.clone(),
            app_id: self.app_id.clone(),
            identifier: self.identifier.clone(),
            output_names: copy_strings(&self.output_names),
            output_handles: copy_handles(&self.output_handles),
            workspace_names: copy_strings(&self.workspace_names),
            cosmic_toplevel: self.cosmic_toplevel,
            foreign_id: self.foreign_id,
            active: self.active,
        }
    }
}

impl WorkspaceRecord {
    /// Does the selector name this workspace by its id, its name or its
    /// coordinates?
    pub fn matches_selector(&self, selector: &str) -> (r: bool)
        ensures
            r == self@.answers(selector@),
    {
        if let Some(id) = &self.id {
            if text::same_text(id.as_str(), selector) {
                return true;
            }
        }
        if text::same_text(self.name.as_str(), selector) {
            return true;
        }
        match model::Coordinates::parse(selector) {
            Some(coordinates) => same_numbers(&coordinates.0, &self.coordinates),
            None => false,
        }
    }

    /// The one-line description of the workspace.
    pub fn summary(&self) -> (r: String)
        ensures
            r@ == self@.summary_text(),
    {
        let mut out: String = self.name.clone();
        out.append(" (id=");
        match &self.id {
            Some(id) => out.append(id.as_str()),
            None => out.append("-"),
        }
        out.append(", coords=");
        out.append(self.coordinates_string().as_str());
        out.append(", outputs=");
        out.append(self.outputs_csv().as_str());
        out.append(")");
        out
    }

    /// The coordinates, separated by commas.
    pub fn coordinates_string(&self) -> (r: String)
        ensures
            r@ == model::coordinates_text(self@.coordinates),
    {
        model::Coordinates(copy_coordinates(&self.coordinates)).to_string()
    }

    /// The names of the outputs, separated by commas.
    pub fn outputs_csv(&self) -> (r: String)
        ensures
            r@ == shown_list(self@.output_names),
    {
        joined_or_dash(&self.output_names)
    }

    /// The output that stands beside this name, ASCII case aside. It is the
    /// output of that name where every output of the workspace has a name.
    pub fn output_by_name(&self, name: &str) -> (r: Option<Handle>)
        ensures
            r == self@.output_beside(name@),
    {
        let mut i: usize = 0;
        while i < self.output_names.len() && i < self.output_handles.len()
            invariant
                i <= self.output_names.len(),
                i <= self.output_handles.len(),
                self@.output_position(name@, 0) == self@.output_position(name@, i as int),
            decreases self.output_names.len() - i,
        {
            if text::same_ignoring_case(self.output_names[i].as_str(), name) {
                return Some(self.output_handles[i]);
            }
            i = i + 1;
        }
        None
    }
}

impl WindowRecord {
    /// The one-line description of the window.
    pub fn summary(&self) -> (r: String)
        ensures
            r@ == self@.summary_text(),
    {
        let mut out: String = display_field(self.title.as_str()).to_owned();
        out.append(" (app_id=");
        out.append(display_field(self.app_id.as_str()));
        out.append(", identifier=");
        out.append(display_field(self.identifier.as_str()));
        out.append(")");
        out
    }
}

/// Do the two lists hold the same numbers?
fn same_numbers(a: &Vec<u32>, b: &Vec<u32>) -> (r: bool)
    ensures
        r == (a@ == b@),
{
    if a.len() != b.len() {
        return false;
    }
    let mut i: usize = 0;
    while i < a.len()
        invariant
            a.len() == b.len(),
            i <= a.len(),
            forall|j: int| 0 <= j < i ==> a@[j] == b@[j],
        decreases a.len() - i,
    {
        if a[i] != b[i] {
            return false;
        }
        i = i + 1;
    }
    assert(a@ =~= b@);
    true
}

/// A workspace is named by its id, by its name, and by its coordinates however
/// they are written, and by nothing else.
pub proof fn law_workspace_is_named(workspace: WorkspaceView, selector: Seq<char>)
    ensures
        workspace.answers(workspace.name),
        workspace.id matches Some(id) ==> workspace.answers(id),
        workspace.coordinates.len() > 0 ==> workspace.answers(
            model::coordinates_text(workspace.coordinates),
        ),
        model::read_coordinates(selector) == Some(workspace.coordinates) ==> workspace.answers(
            selector,
        ),
        workspace.name != selector && workspace.id != Some(selector) && model::read_coordinates(
            selector,
        ) is None ==> !workspace.answers(selector),
        workspace.name != selector && workspace.id != Some(selector) && (model::read_coordinates(
            selector,
        ) matches Some(coordinates) && coordinates != workspace.coordinates) ==> !workspace.answers(
            selector,
        ),
{
    if workspace.coordinates.len() > 0 {
        model::law_coordinates_round_trip(workspace.coordinates);
    }
}

/// An output of a workspace is found by a name exactly where the name stands at
/// its side, ASCII case aside, and it is the first such.
pub proof fn law_output_beside_name(workspace: WorkspaceView, name: Seq<char>, i: int)
    requires
        0 <= i < workspace.output_names.len(),
        i < workspace.output_handles.len(),
        text::lowered(workspace.output_names[i]) == text::lowered(name),
        forall|j: int|
            0 <= j < i ==> text::lowered(#[trigger] workspace.output_names[j]) != text::lowered(
                name,
            ),
    ensures
        workspace.output_beside(name) == Some(workspace.output_handles[i]),
{
    lemma_position_is(workspace, name, 0, i);
}

/// No output of a workspace is found by a name that stands at the side of none.
pub proof fn law_no_output_beside_name(workspace: WorkspaceView, name: Seq<char>)
    requires
        forall|j: int|
            0 <= j < workspace.output_names.len() && j < workspace.output_handles.len()
                ==> text::lowered(#[trigger] workspace.output_names[j]) != text::lowered(name),
    ensures
        workspace.output_beside(name) is None,
{
    lemma_no_position(workspace, name, 0);
}

/// The first position of a name is found.
proof fn lemma_position_is(workspace: WorkspaceView, name: Seq<char>, from: int, i: int)
    requires
        0 <= from <= i < workspace.output_names.len(),
        i < workspace.output_handles.len(),
        text::lowered(workspace.output_names[i]) == text::lowered(name),
        forall|j: int|
            from <= j < i ==> text::lowered(#[trigger] workspace.output_names[j]) != text::lowered(
                name,
            ),
    ensures
        workspace.output_position(name, from) == Some(i),
    decreases i - from,
{
    if from < i {
        assert(text::lowered(workspace.output_names[from]) != text::lowered(name));
        lemma_position_is(workspace, name, from + 1, i);
    }
}

/// A name that does not stand at the side of an output has no position.
proof fn lemma_no_position(workspace: WorkspaceView, name: Seq<char>, from: int)
    requires
        0 <= from,
        forall|j: int|
            from <= j < workspace.output_names.len() && j < workspace.output_handles.len()
                ==> text::lowered(#[trigger] workspace.output_names[j]) != text::lowered(name),
    ensures
        workspace.output_position(name, from) is None,
    decreases workspace.output_names.len() - from,
{
    if from < workspace.output_names.len() && from < workspace.output_handles.len() {
        assert(text::lowered(workspace.output_names[from]) != text::lowered(name));
        lemma_no_position(workspace, name, from + 1);
    }
}

/// What is shown is never empty: a text that is not empty is shown as it is, a
/// list as all of its items, and what is empty or missing as a dash.
pub proof fn law_nothing_is_shown_empty(value: Seq<char>, values: Seq<Seq<char>>, i: int)
    ensures
        value.len() > 0 ==> shown(value) == value,
        value.len() == 0 ==> shown(value) == "-"@,
        shown_option(Some(value)) == value,
        shown_option(None) == "-"@,
        values.len() == 0 ==> shown_list(values) == "-"@,
        0 <= i < values.len() ==> text::contains_text(shown_list(values), values[i]),
        values.len() == 1 ==> shown_list(values) == values[0],
{
    if 0 <= i < values.len() {
        text::law_parts_stand_in_joined_text(values, ", "@, i);
    }
}

/// The description of a window tells its title, its app_id and its identifier,
/// that of a workspace its name, its id, its coordinates and its outputs.
pub proof fn law_summaries_tell(window: WindowView, workspace: WorkspaceView)
    ensures
        exists|a: Seq<char>, b: Seq<char>, c: Seq<char>|
            #![trigger a + shown(window.app_id) + b + shown(window.identifier) + c]
            window.summary_text() == shown(window.title) + (a + shown(window.app_id) + b + shown(
                window.identifier,
            ) + c),
        exists|a: Seq<char>, b: Seq<char>, c: Seq<char>, d: Seq<char>|
            #![trigger a + shown_option(workspace.id) + b + model::coordinates_text(
                workspace.coordinates,
            ) + c + shown_list(workspace.output_names) + d]
            workspace.summary_text() == workspace.name + (a + shown_option(workspace.id) + b
                + model::coordinates_text(workspace.coordinates) + c + shown_list(
                workspace.output_names,
            ) + d),
{
    let a = " (app_id="@;
    let b = ", identifier="@;
    let c = ")"@;
    assert(window.summary_text() =~= shown(window.title) + (a + shown(window.app_id) + b + shown(
        window.identifier,
    ) + c));
    let a = " (id="@;
    let b = ", coords="@;
    let c = ", outputs="@;
    let d = ")"@;
    assert(workspace.summary_text() =~= workspace.name + (a + shown_option(workspace.id) + b
        + model::coordinates_text(workspace.coordinates) + c + shown_list(workspace.output_names)
        + d));
}

/// What contracts say of a record they say of its fields, and of a list of
/// records they say of each of them, in their order.
pub proof fn law_records_are_seen_as_they_are(
    window: WindowRecord,
    workspace: WorkspaceRecord,
    windows: Seq<WindowRecord>,
    workspaces: Seq<WorkspaceRecord>,
    i: int,
)
    ensures
        window@.title == window.title@,
        window@.app_id == window.app_id@,
        window@.identifier == window.identifier@,
        window@.output_handles == window.output_handles@,
        window@.cosmic_toplevel == window.cosmic_toplevel,
        window@.foreign_id == window.foreign_id,
        window@.active == window.active,
        window@.output_names.len() == window.output_names@.len(),
        0 <= i < window.output_names@.len() ==> window@.output_names[i] == window.output_names@[i]@,
        window@.workspace_names.len() == window.workspace_names@.len(),
        0 <= i < window.workspace_names@.len() ==> window@.workspace_names[i]
            == window.workspace_names@[i]@,
        workspace@.handle == workspace.handle,
        workspace@.name == workspace.name@,
        workspace@.id is Some <==> workspace.id is Some,
        workspace.id matches Some(id) ==> workspace@.id == Some(id@),
        workspace@.coordinates == workspace.coordinates@,
        workspace@.output_handles == workspace.output_handles@,
        workspace@.output_names.len() == workspace.output_names@.len(),
        0 <= i < workspace.output_names@.len() ==> workspace@.output_names[i]
            == workspace.output_names@[i]@,
        window_views(windows).len() == windows.len(),
        0 <= i < windows.len() ==> window_views(windows)[i] == windows[i]@,
        workspace_views(workspaces).len() == workspaces.len(),
        0 <= i < workspaces.len() ==> workspace_views(workspaces)[i] == workspaces[i]@,
{
}

} // verus!
