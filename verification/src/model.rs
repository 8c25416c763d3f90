//! Choosing windows, workspaces and outputs.
use vstd::prelude::*;

use std::collections::HashSet;

use crate::decimal;
use crate::error::{ErrorView, Problem, WmError};
use crate::list;
use crate::order;
use crate::query::{Query, SelectorView};
use crate::records::{Handle, WindowRecord, WindowView, WorkspaceRecord, WorkspaceView};
use crate::query;
use crate::records;
use crate::text;

verus! {

/// A position in the grid of workspaces.
#[derive(Debug, PartialEq, Eq)]
pub struct Coordinates(pub Vec<u32>);

impl Clone for Coordinates {
    fn clone(&self) -> (r: Self)
        ensures
            r.0@ == self.0@,
    {
        Coordinates(records::copy_coordinates(&self.0))
    }
}

/// The coordinates that a text names: numbers between commas, with white
/// space around each of them allowed.
pub open spec fn read_coordinates(value: Seq<char>) -> Option<Seq<u32>> {
    let parts = text::split_text(value, ","@);
    if forall|i: int|
        0 <= i < parts.len() ==> decimal::read_u32(text::trimmed(#[trigger] parts[i])) is Some {
        Some(parts.map_values(|p: Seq<char>| decimal::read_u32(text::trimmed(p))->0))
    } else {
        None
    }
}

/// The coordinates as they are shown: separated by commas, or a dash where
/// there are none.
pub open spec fn coordinates_text(coordinates: Seq<u32>) -> Seq<char> {
    if coordinates.len() == 0 {
        "-"@
    } else {
        text::join_text(coordinates.map_values(|n: u32| decimal::decimal(n as nat)), ","@)
    }
}

impl Coordinates {
    /// Reads numbers between commas, with white space around each of them
    /// allowed.
    pub fn parse(value: &str) -> (r: Option<Self>)
        ensures
            match r {
                Some(c) => read_coordinates(value@) == Some(c.0@),
                None => read_coordinates(value@) is None,
            },
    {
        proof {
            reveal_strlit(",");
        }
        let parts: Vec<&str> = text::split(value, ",");
        let ghost pieces = text::split_text(value@, ","@);
        let mut numbers: Vec<u32> = Vec::new();
        let mut i: usize = 0;
        while i < parts.len()
            invariant
                text::str_views(parts@) == pieces,
                pieces == text::split_text(value@, ","@),
                i <= parts.len(),
                numbers.len() == i,
                forall|j: int|
                    0 <= j < i ==> decimal::read_u32(text::trimmed(#[trigger] pieces[j])) == Some(
                        numbers@[j],
                    ),
            decreases parts.len() - i,
        {
            assert(pieces[i as int] == parts@[i as int]@);
            match decimal::parse_u32(text::trim(parts[i])) {
                Some(n) => numbers.push(n),
                None => {
                    return None;
                },
            }
            i = i + 1;
        }
        proof {
            assert(numbers@ =~= pieces.map_values(
                |p: Seq<char>| decimal::read_u32(text::trimmed(p))->0,
            ));
        }
        Some(Coordinates(numbers))
    }

    /// The coordinates as they are shown.
    pub fn to_string(&self) -> (r: String)
        ensures
            r@ == coordinates_text(self.0@),
    {
        if self.0.len() == 0 {
            return "-".to_owned();
        }
        let mut parts: Vec<String> = Vec::new();
        let mut i: usize = 0;
        while i < self.0.len()
            invariant
                i <= self.0.len(),
                parts.len() == i,
                forall|j: int| 0 <= j < i ==> (#[trigger] parts@[j])@ == decimal::decimal(self.0@[j] as nat),
            decreases self.0.len() - i,
        {
            parts.push(decimal::decimal_text(self.0[i] as u64));
            i = i + 1;
        }
        assert(text::views(parts@) =~= self.0@.map_values(|n: u32| decimal::decimal(n as nat)));
        text::join(&parts, ",")
    }
}

/// Coordinates, once shown, are read back as they were. The empty list is
/// shown as a dash, which names no coordinates.
pub proof fn law_coordinates_round_trip(coordinates: Seq<u32>)
    requires
        coordinates.len() > 0,
    ensures
        read_coordinates(coordinates_text(coordinates)) == Some(coordinates),
{
    reveal_strlit(",");
    let sep = ","@;
    assert(sep =~= seq![',']);
    let parts = coordinates.map_values(|n: u32| decimal::decimal(n as nat));
    assert forall|k: int| 0 <= k < parts.len() implies {
        &&& text::find_from(#[trigger] parts[k], sep, 0) is None
        &&& text::find_from(parts[k] + sep, sep, 0) == Some(parts[k].len() as int)
        &&& decimal::read_u32(text::trimmed(parts[k])) == Some(coordinates[k])
    } by {
        let p = parts[k];
        decimal::lemma_decimal(coordinates[k] as nat);
        decimal::lemma_digits_plain(p);
        decimal::law_read_of_decimal(coordinates[k]);
        assert(!decimal::is_digit(','));
        let whole = p + sep;
        let n = p.len() as int;
        assert(whole.subrange(n, n + 1) =~= sep);
        assert forall|j: int| 0 <= j < n implies !#[trigger] text::occurs_at(whole, sep, j) by {
            assert(whole.subrange(j, j + 1)[0] == p[j]);
            assert(decimal::is_digit(p[j]));
        }
        text::lemma_find_is(whole, sep, 0, n);
    }
    text::lemma_split_of_join(parts, sep);
    assert(parts.map_values(|p: Seq<char>| decimal::read_u32(text::trimmed(p))->0) =~= coordinates);
}

/// The windows that answer the query, in the order of the list.
pub open spec fn answering_windows(
    windows: Seq<WindowView>,
    query: Seq<SelectorView>,
) -> Seq<WindowView> {
    windows.filter(|w: WindowView| query::query_selects(query, w))
}

/// The one window that answers the query.
pub open spec fn chosen_window(
    windows: Seq<WindowView>,
    query: Seq<SelectorView>,
) -> Result<WindowView, ErrorView> {
    let hits = answering_windows(windows, query);
    if hits.len() == 1 {
        Ok(hits[0])
    } else if hits.len() == 0 {
        Err(Problem::NoWindow { query: query::query_text(query) })
    } else {
        Err(
            Problem::AmbiguousWindow {
                query: query::query_text(query),
                candidates: text::join_text(
                    hits.map_values(|w: WindowView| w.summary_text()),
                    " | "@,
                ),
            },
        )
    }
}

/// The workspaces that answer the selector, in the order of the list.
pub open spec fn answering_workspaces(
    workspaces: Seq<WorkspaceView>,
    selector: Seq<char>,
) -> Seq<WorkspaceView> {
    workspaces.filter(|w: WorkspaceView| w.answers(selector))
}

/// The one workspace that answers the selector.
pub open spec fn chosen_workspace(
    workspaces: Seq<WorkspaceView>,
    selector: Seq<char>,
) -> Result<WorkspaceView, ErrorView> {
    let hits = answering_workspaces(workspaces, selector);
    if hits.len() == 1 {
        Ok(hits[0])
    } else if hits.len() == 0 {
        Err(Problem::NoWorkspace { selector })
    } else {
        Err(
            Problem::AmbiguousWorkspace {
                selector,
                candidates: text::join_text(
                    hits.map_values(|w: WorkspaceView| w.summary_text()),
                    " | "@,
                ),
            },
        )
    }
}

/// The output to place a window on: the one that stands beside the name that
/// was asked for, else the first output of the workspace that shows the window
/// already, else the first output of the workspace.
pub open spec fn placement_output(
    workspace: WorkspaceView,
    window: WindowView,
    requested: Option<Seq<char>>,
) -> Result<Handle, ErrorView> {
    match requested {
        Some(name) => match workspace.output_beside(name) {
            Some(output) => Ok(output),
            None => Err(
                Problem::NotOnOutput {
                    workspace: workspace.name,
                    output: name,
                    available: records::shown_list(workspace.output_names),
                },
            ),
        },
        None => match list::first_where(
            workspace.output_handles,
            |o: Handle| window.output_handles.contains(o),
        ) {
            Some(i) => Ok(workspace.output_handles[i]),
            None => if workspace.output_handles.len() > 0 {
                Ok(workspace.output_handles[0])
            } else {
                Err(Problem::NoOutputs { workspace: workspace.name })
            },
        },
    }
}

/// The name of the first workspace with this handle.
pub open spec fn name_of_handle(
    workspaces: Seq<WorkspaceView>,
    handle: Handle,
) -> Option<Seq<char>> {
    match list::first_where(workspaces, |w: WorkspaceView| w.handle == handle) {
        Some(i) => Some(workspaces[i].name),
        None => None,
    }
}

/// Is `name` the name of a workspace with one of the handles?
pub open spec fn names_one_of(
    handles: Set<Handle>,
    workspaces: Seq<WorkspaceView>,
    name: Seq<char>,
) -> bool {
    exists|h: Handle| handles.contains(h) && #[trigger] name_of_handle(workspaces, h) == Some(name)
}

/// The names of the workspaces with the handles.
pub open spec fn names_of(handles: Set<Handle>, workspaces: Seq<WorkspaceView>) -> Set<Seq<char>> {
    Set::new(|name: Seq<char>| names_one_of(handles, workspaces, name))
}

/// The window that answers the query, where exactly one does.
pub fn match_window<'a>(windows: &'a [WindowRecord], query: &Query) -> (r: Result<
    &'a WindowRecord,
    WmError,
>)
    ensures
        match r {
            Ok(w) => chosen_window(records::window_views(windows@), query@) == Ok::<
                WindowView,
                ErrorView,
            >(w@),
            Err(e) => chosen_window(records::window_views(windows@), query@) == Err::<
                WindowView,
                ErrorView,
            >(e@),
        },
{
    let mut hits: Vec<&'a WindowRecord> = Vec::new();
    let mut i: usize = 0;
    let ghost all = records::window_views(windows@);
    let ghost pred = |w: WindowView| query::query_selects(query@, w);
    proof {
        reveal(Seq::filter);
        assert(hits@.map_values(|w: &WindowRecord| w@) =~= all.take(0).filter(pred));
    }
    while i < windows.len()
        invariant
            i <= windows.len(),
            all == records::window_views(windows@),
            pred == (|w: WindowView| query::query_selects(query@, w)),
            hits@.map_values(|w: &WindowRecord| w@) == all.take(i as int).filter(pred),
        decreases windows.len() - i,
    {
        let window: &'a WindowRecord = &windows[i];
        let ghost before = hits@;
        proof {
            list::lemma_filter_step(all, pred, i as int);
        }
        if query.matches(window) {
            hits.push(window);
            assert(hits@.map_values(|w: &WindowRecord| w@) =~= before.map_values(
                |w: &WindowRecord| w@,
            ).push(window@));
        }
        i = i + 1;
    }
    let ghost found = hits@.map_values(|w: &WindowRecord| w@);
    assert(all.take(i as int) =~= all);
    if hits.len() == 1 {
        assert(found[0] == hits@[0]@);
        return Ok(hits[0]);
    }
    if hits.len() == 0 {
        return Err(Problem::NoWindow { query: query.to_string() });
    }
    let mut summaries: Vec<String> = Vec::new();
    let mut k: usize = 0;
    while k < hits.len()
        invariant
            k <= hits.len(),
            summaries.len() == k,
            forall|j: int| 0 <= j < k ==> (#[trigger] summaries@[j])@ == hits@[j]@.summary_text(),
        decreases hits.len() - k,
    {
        summaries.push(hits[k].summary());
        k = k + 1;
    }
    assert(text::views(summaries@) =~= found.map_values(|w: WindowView| w.summary_text()));
    Err(
        Problem::AmbiguousWindow {
            query: query.to_string(),
            candidates: text::join(&summaries, " | "),
        },
    )
}

/// The workspace that answers the selector, where exactly one does.
pub fn match_workspace<'a>(workspaces: &'a [WorkspaceRecord], selector: &str) -> (r: Result<
    &'a WorkspaceRecord,
    WmError,
>)
    ensures
        match r {
            Ok(w) => chosen_workspace(records::workspace_views(workspaces@), selector@) == Ok::<
                WorkspaceView,
                ErrorView,
            >(w@),
            Err(e) => chosen_workspace(records::workspace_views(workspaces@), selector@) == Err::<
                WorkspaceView,
                ErrorView,
            >(e@),
        },
{
    let mut hits: Vec<&'a WorkspaceRecord> = Vec::new();
    let mut i: usize = 0;
    let ghost all = records::workspace_views(workspaces@);
    let ghost pred = |w: WorkspaceView| w.answers(selector@);
    proof {
        reveal(Seq::filter);
        assert(hits@.map_values(|w: &WorkspaceRecord| w@) =~= all.take(0).filter(pred));
    }
    while i < workspaces.len()
        invariant
            i <= workspaces.len(),
            all == records::workspace_views(workspaces@),
            pred == (|w: WorkspaceView| w.answers(selector@)),
            hits@.map_values(|w: &WorkspaceRecord| w@) == all.take(i as int).filter(pred),
        decreases workspaces.len() - i,
    {
        let workspace: &'a WorkspaceRecord = &workspaces[i];
        let ghost before = hits@;
        proof {
            list::lemma_filter_step(all, pred, i as int);
        }
        if workspace.matches_selector(selector) {
            hits.push(workspace);
            assert(hits@.map_values(|w: &WorkspaceRecord| w@) =~= before.map_values(
                |w: &WorkspaceRecord| w@,
            ).push(workspace@));
        }
        i = i + 1;
    }
    let ghost found = hits@.map_values(|w: &WorkspaceRecord| w@);
    assert(all.take(i as int) =~= all);
    if hits.len() == 1 {
        assert(found[0] == hits@[0]@);
        return Ok(hits[0]);
    }
    if hits.len() == 0 {
        return Err(Problem::NoWorkspace { selector: selector.to_owned() });
    }
    let mut summaries: Vec<String> = Vec::new();
    let mut k: usize = 0;
    while k < hits.len()
        invariant
            k <= hits.len(),
            summaries.len() == k,
            forall|j: int| 0 <= j < k ==> (#[trigger] summaries@[j])@ == hits@[j]@.summary_text(),
        decreases hits.len() - k,
    {
        summaries.push(hits[k].summary());
        k = k + 1;
    }
    assert(text::views(summaries@) =~= found.map_values(|w: WorkspaceView| w.summary_text()));
    Err(
        Problem::AmbiguousWorkspace {
            selector: selector.to_owned(),
            candidates: text::join(&summaries, " | "),
        },
    )
}

/// Is the handle in the list?
pub fn holds_handle(handles: &Vec<Handle>, handle: Handle) -> (r: bool)
    ensures
        r == handles@.contains(handle),
{
    let mut i: usize = 0;
    while i < handles.len()
        invariant
            i <= handles.len(),
            forall|j: int| 0 <= j < i ==> handles@[j] != handle,
        decreases handles.len() - i,
    {
        if handles[i] == handle {
            return true;
        }
        i = i + 1;
    }
    false
}

/// The output to place a window on: the one that stands beside the name that
/// was asked for, else the first output of the workspace that shows the window
/// already, else the first output of the workspace.
pub fn resolve_workspace_output(
    workspace: &WorkspaceRecord,
    window: &WindowRecord,
    requested_output: Option<&str>,
) -> (r: Result<Handle, WmError>)
    ensures
        match r {
            Ok(o) => placement_output(workspace@, window@, text::opt_str_view(requested_output))
                == Ok::<Handle, ErrorView>(o),
            Err(e) => placement_output(workspace@, window@, text::opt_str_view(requested_output))
                == Err::<Handle, ErrorView>(e@),
        },
{
    if let Some(name) = requested_output {
        if let Some(output) = workspace.output_by_name(name) {
            return Ok(output);
        }
        return Err(
            Problem::NotOnOutput {
                workspace: workspace.name.clone(),
                output: name.to_owned(),
                available: workspace.outputs_csv(),
            },
        );
    }
    let ghost pred = |o: Handle| window@.output_handles.contains(o);
    let mut i: usize = 0;
    while i < workspace.output_handles.len()
        invariant
            requested_output is None,
            i <= workspace.output_handles.len(),
            pred == (|o: Handle| window@.output_handles.contains(o)),
            list::first_from(workspace@.output_handles, pred, 0) == list::first_from(
                workspace@.output_handles,
                pred,
                i as int,
            ),
        decreases workspace.output_handles.len() - i,
    {
        if holds_handle(&window.output_handles, workspace.output_handles[i]) {
            return Ok(workspace.output_handles[i]);
        }
        i = i + 1;
    }
    if workspace.output_handles.len() > 0 {
        return Ok(workspace.output_handles[0]);
    }
    Err(Problem::NoOutputs { workspace: workspace.name.clone() })
}

/// The name of the first workspace with this handle.
fn find_name(workspaces: &[WorkspaceRecord], handle: Handle) -> (r: Option<String>)
    ensures
        text::opt_view(r) == name_of_handle(records::workspace_views(workspaces@), handle),
{
    let ghost all = records::workspace_views(workspaces@);
    let ghost pred = |w: WorkspaceView| w.handle == handle;
    let mut i: usize = 0;
    while i < workspaces.len()
        invariant
            i <= workspaces.len(),
            all == records::workspace_views(workspaces@),
            pred == (|w: WorkspaceView| w.handle == handle),
            list::first_from(all, pred, 0) == list::first_from(all, pred, i as int),
        decreases workspaces.len() - i,
    {
        assert(all[i as int] == workspaces@[i as int]@);
        if workspaces[i].handle == handle {
            return Some(workspaces[i].name.clone());
        }
        i = i + 1;
    }
    None
}

/// The names of the workspaces with the handles, in order and each once.
pub fn workspace_names(handles: &HashSet<Handle>, workspaces: &[WorkspaceRecord]) -> (r: Vec<
    String,
>)
    ensures
        order::is_order_of(
            text::views(r@),
            names_of(handles@, records::workspace_views(workspaces@)),
        ),
        text::views(r@) == order::in_order(
            names_of(handles@, records::workspace_views(workspaces@)),
        ),
{
    broadcast use vstd::std_specs::hash::group_hash_axioms;

    let mut names: Vec<String> = Vec::new();
    let ghost all = records::workspace_views(workspaces@);
    let ghost walked = vstd::std_specs::iter::IteratorSpec::remaining(
        &vstd::std_specs::hash::spec_hash_keys_iter(handles),
    );
    for handle in it: handles.iter()
        invariant
            all == records::workspace_views(workspaces@),
            it.seq() == walked,
            order::strictly_sorted(text::views(names@)),
            forall|name: Seq<char>|
                text::views(names@).contains(name) <==> exists|k: int|
                    0 <= k < it.index() && name_of_handle(all, *#[trigger] it.seq()[k]) == Some(name),
    {
        let ghost before = text::views(names@);
        let found: Option<String> = find_name(workspaces, *handle);
        if let Some(name) = found {
            order::insert_sorted(&mut names, name);
        }
        proof {
            let k = it.index();
            assert(*it.seq()[k] == *handle);
        }
    }
    proof {
        let keys = walked.unref();
        assert(keys.to_set() == handles@);
        assert forall|name: Seq<char>|
            text::views(names@).contains(name) <==> names_one_of(handles@, all, name) by {
            if text::views(names@).contains(name) {
                let k = choose|k: int|
                    0 <= k < walked.len() && name_of_handle(all, *#[trigger] walked[k]) == Some(name);
                assert(keys[k] == *walked[k]);
                assert(keys.to_set().contains(keys[k]));
                assert(handles@.contains(*walked[k]));
            }
            if names_one_of(handles@, all, name) {
                let h = choose|h: Handle|
                    handles@.contains(h) && #[trigger] name_of_handle(all, h) == Some(name);
                assert(keys.to_set().contains(h));
                let k = choose|k: int| 0 <= k < keys.len() && keys[k] == h;
                assert(*walked[k] == h);
            }
        }
        order::lemma_in_order(text::views(names@), names_of(handles@, all));
    }
    names
}

/// A window is chosen exactly when one window alone answers the query, and
/// then it is that one; that none was found is told exactly when none
/// answers.
pub proof fn law_window_choice(windows: Seq<WindowView>, query: Seq<SelectorView>)
    ensures
        ({
            let answers = |w: WindowView| query::query_selects(query, w);
            &&& chosen_window(windows, query) is Ok <==> exists|i: int| #[trigger]
                list::sole_position(windows, answers, i)
            &&& forall|i: int| #[trigger]
                list::sole_position(windows, answers, i) ==> chosen_window(windows, query) == Ok::<
                    WindowView,
                    ErrorView,
                >(windows[i])
            &&& (chosen_window(windows, query) matches Err(Problem::NoWindow { .. })) <==> (
            forall|i: int|
                0 <= i < windows.len() ==> !query::query_selects(query, #[trigger] windows[i]))
        }),
{
    list::lemma_filter_count(windows, |w: WindowView| query::query_selects(query, w));
}

/// A workspace is chosen exactly when one workspace alone answers the
/// selector, and then it is that one; that none was found is told exactly
/// when none answers.
pub proof fn law_workspace_choice(workspaces: Seq<WorkspaceView>, selector: Seq<char>)
    ensures
        ({
            let answers = |w: WorkspaceView| w.answers(selector);
            &&& chosen_workspace(workspaces, selector) is Ok <==> exists|i: int| #[trigger]
                list::sole_position(workspaces, answers, i)
            &&& forall|i: int| #[trigger]
                list::sole_position(workspaces, answers, i) ==> chosen_workspace(
                    workspaces,
                    selector,
                ) == Ok::<WorkspaceView, ErrorView>(workspaces[i])
            &&& (chosen_workspace(workspaces, selector) matches Err(Problem::NoWorkspace { .. }))
                <==> (forall|i: int|
                0 <= i < workspaces.len() ==> !(#[trigger] workspaces[i]).answers(selector))
        }),
{
    list::lemma_filter_count(workspaces, |w: WorkspaceView| w.answers(selector));
}

/// A window is placed on an output of the workspace. Where no output is asked
/// for, the window stays on an output that shows it, if the workspace has
/// such an output, and is refused only where the workspace has no output.
pub proof fn law_placement(
    workspace: WorkspaceView,
    window: WindowView,
    requested: Option<Seq<char>>,
)
    ensures
        placement_output(workspace, window, requested) matches Ok(output)
            ==> workspace.output_handles.contains(output),
        requested is None ==> (placement_output(workspace, window, requested) is Ok
            <==> workspace.output_handles.len() > 0),
        requested is None && (exists|i: int|
            0 <= i < workspace.output_handles.len() && window.output_handles.contains(
                #[trigger] workspace.output_handles[i],
            )) ==> window.output_handles.contains(
            placement_output(workspace, window, requested)->Ok_0,
        ),
{
    list::lemma_first_from(
        workspace.output_handles,
        |o: Handle| window.output_handles.contains(o),
        0,
    );
    if let Some(name) = requested {
        lemma_output_position(workspace, name, 0);
    }
}

/// A position found by name is one of an output.
proof fn lemma_output_position(workspace: WorkspaceView, name: Seq<char>, from: int)
    requires
        0 <= from,
    ensures
        workspace.output_position(name, from) matches Some(i) ==> from <= i
            < workspace.output_handles.len(),
    decreases workspace.output_names.len() - from,
{
    if from < workspace.output_names.len() && from < workspace.output_handles.len()
        && text::lowered(workspace.output_names[from]) != text::lowered(name) {
        lemma_output_position(workspace, name, from + 1);
    }
}

/// A choice that is refused tells what was asked for, and where more than one
/// answers it tells of every one that does.
pub proof fn law_refused_choice_tells(
    windows: Seq<WindowView>,
    query: Seq<SelectorView>,
    workspaces: Seq<WorkspaceView>,
    selector: Seq<char>,
)
    ensures
        match chosen_window(windows, query) {
            Ok(_) => true,
            Err(Problem::NoWindow { query: told }) => told == query::query_text(query),
            Err(Problem::AmbiguousWindow { query: told, candidates }) => {
                &&& told == query::query_text(query)
                &&& forall|i: int|
                    0 <= i < windows.len() && query::query_selects(query, #[trigger] windows[i])
                        ==> text::contains_text(candidates, windows[i].summary_text())
            },
            Err(_) => false,
        },
        match chosen_workspace(workspaces, selector) {
            Ok(_) => true,
            Err(Problem::NoWorkspace { selector: told }) => told == selector,
            Err(Problem::AmbiguousWorkspace { selector: told, candidates }) => {
                &&& told == selector
                &&& forall|i: int|
                    0 <= i < workspaces.len() && (#[trigger] workspaces[i]).answers(selector)
                        ==> text::contains_text(candidates, workspaces[i].summary_text())
            },
            Err(_) => false,
        },
{
    let selects = |w: WindowView| query::query_selects(query, w);
    let positions = list::lemma_kept_positions(windows, selects);
    let hits = answering_windows(windows, query);
    let told = hits.map_values(|w: WindowView| w.summary_text());
    assert forall|i: int|
        0 <= i < windows.len() && query::query_selects(
            query,
            #[trigger] windows[i],
        ) implies text::contains_text(
        text::join_text(told, " | "@),
        windows[i].summary_text(),
    ) by {
        assert(selects(windows[i]));
        assert(positions.contains(i));
        let k = choose|k: int| 0 <= k < positions.len() && positions[k] == i;
        assert(told[k] == windows[i].summary_text());
        text::law_parts_stand_in_joined_text(told, " | "@, k);
    }
    let answers = |w: WorkspaceView| w.answers(selector);
    let places = list::lemma_kept_positions(workspaces, answers);
    let found = answering_workspaces(workspaces, selector);
    let said = found.map_values(|w: WorkspaceView| w.summary_text());
    assert forall|i: int|
        0 <= i < workspaces.len() && (#[trigger] workspaces[i]).answers(
            selector,
        ) implies text::contains_text(
        text::join_text(said, " | "@),
        workspaces[i].summary_text(),
    ) by {
        assert(answers(workspaces[i]));
        assert(places.contains(i));
        let k = choose|k: int| 0 <= k < places.len() && places[k] == i;
        assert(said[k] == workspaces[i].summary_text());
        text::law_parts_stand_in_joined_text(said, " | "@, k);
    }
}

/// Coordinates are read from numerals between commas, one number from each, and
/// white space around a numeral does not count; a piece that is no numeral
/// makes the text name no coordinates.
pub proof fn law_coordinates_are_read(value: Seq<char>)
    ensures
        ({
            let pieces = text::split_text(value, ","@);
            match read_coordinates(value) {
                Some(coordinates) => {
                    &&& coordinates.len() == pieces.len()
                    &&& forall|i: int|
                        0 <= i < pieces.len() ==> decimal::read_u32(
                            text::trimmed(#[trigger] pieces[i]),
                        ) == Some(coordinates[i])
                },
                None => exists|i: int|
                    0 <= i < pieces.len() && decimal::read_u32(
                        text::trimmed(#[trigger] pieces[i]),
                    ) is None,
            }
        }),
{
}

/// Coordinates are shown with commas between them and no white space, and none
/// are shown as a dash.
pub proof fn law_coordinates_are_shown(coordinates: Seq<u32>, n: u32)
    ensures
        coordinates_text(Seq::empty()) == "-"@,
        coordinates_text(seq![n]) == decimal::decimal(n as nat),
        coordinates.len() > 0 ==> coordinates_text(coordinates.push(n)) == coordinates_text(
            coordinates,
        ) + ","@ + decimal::decimal(n as nat),
{
    let parts = coordinates.map_values(|m: u32| decimal::decimal(m as nat));
    text::law_one_more_part(parts, ","@, decimal::decimal(n as nat));
    assert(coordinates.push(n).map_values(|m: u32| decimal::decimal(m as nat)) =~= parts.push(
        decimal::decimal(n as nat),
    ));
    assert(seq![n].map_values(|m: u32| decimal::decimal(m as nat)) =~= seq![
        decimal::decimal(n as nat),
    ]);
}

/// The names of a set of workspaces are those of the first workspace with each
/// handle; a handle that no workspace has gives no name.
pub proof fn law_names_of_handles(
    handles: Set<Handle>,
    workspaces: Seq<WorkspaceView>,
    name: Seq<char>,
)
    ensures
        names_of(handles, workspaces).contains(name) <==> exists|i: int|
            {
                &&& 0 <= i < workspaces.len()
                &&& handles.contains((#[trigger] workspaces[i]).handle)
                &&& workspaces[i].name == name
                &&& forall|j: int|
                    0 <= j < i ==> (#[trigger] workspaces[j]).handle != workspaces[i].handle
            },
{
    if names_of(handles, workspaces).contains(name) {
        let h = choose|h: Handle|
            handles.contains(h) && #[trigger] name_of_handle(workspaces, h) == Some(name);
        let pred = |w: WorkspaceView| w.handle == h;
        list::lemma_first_from(workspaces, pred, 0);
        let i = list::first_where(workspaces, pred)->0;
        assert(pred(workspaces[i]));
        assert forall|j: int| 0 <= j < i implies (#[trigger] workspaces[j]).handle
            != workspaces[i].handle by {
            assert(!pred(workspaces[j]));
        }
    }
    if exists|i: int|
        {
            &&& 0 <= i < workspaces.len()
            &&& handles.contains((#[trigger] workspaces[i]).handle)
            &&& workspaces[i].name == name
            &&& forall|j: int|
                0 <= j < i ==> (#[trigger] workspaces[j]).handle != workspaces[i].handle
        } {
        let i = choose|i: int|
            {
                &&& 0 <= i < workspaces.len()
                &&& handles.contains((#[trigger] workspaces[i]).handle)
                &&& workspaces[i].name == name
                &&& forall|j: int|
                    0 <= j < i ==> (#[trigger] workspaces[j]).handle != workspaces[i].handle
            };
        let h = workspaces[i].handle;
        let pred = |w: WorkspaceView| w.handle == h;
        list::lemma_first_from(workspaces, pred, 0);
        assert(pred(workspaces[i]));
        assert(name_of_handle(workspaces, h) == Some(name));
    }
}

/// An output that is asked for by name is the one that stands beside that name;
/// where none does, it is told for which workspace and which name.
pub proof fn law_output_by_name(workspace: WorkspaceView, window: WindowView, name: Seq<char>)
    ensures
        match workspace.output_beside(name) {
            Some(output) => placement_output(workspace, window, Some(name)) == Ok::<
                Handle,
                ErrorView,
            >(output),
            None => placement_output(workspace, window, Some(name)) matches Err(
                Problem::NotOnOutput { workspace: told, output, available },
            ) && told == workspace.name && output == name && available == records::shown_list(
                workspace.output_names,
            ),
        },
{
}

/// Where no output is asked for, the window goes to the first output of the
/// workspace that shows it, and to the first of all where none does.
pub proof fn law_first_fitting_output(workspace: WorkspaceView, window: WindowView, k: int)
    requires
        0 <= k < workspace.output_handles.len(),
    ensures
        ({
            let outputs = workspace.output_handles;
            let placed = placement_output(workspace, window, None);
            &&& window.output_handles.contains(outputs[k]) && (forall|j: int|
                0 <= j < k ==> !window.output_handles.contains(#[trigger] outputs[j])) ==> placed
                == Ok::<Handle, ErrorView>(outputs[k])
            &&& (forall|j: int|
                0 <= j < outputs.len() ==> !window.output_handles.contains(#[trigger] outputs[j]))
                ==> placed == Ok::<Handle, ErrorView>(outputs[0])
        }),
{
    let outputs = workspace.output_handles;
    let pred = |o: Handle| window.output_handles.contains(o);
    list::lemma_first_from(outputs, pred, 0);
    match list::first_where(outputs, pred) {
        Some(i) => {
            assert(pred(outputs[i]));
            if k < i {
                assert(!pred(outputs[k]));
            }
        },
        None => {
            assert(!pred(outputs[k]));
        },
    }
}

} // verus!
