//! What can go wrong, and how it is told to the user.
use vstd::prelude::*;
use vstd::string::StringExecFns;

use crate::decimal;
use crate::text;

verus! {

/// The window property that a glob pattern of a rule is held against.
#[derive(Debug, Clone, Copy, PartialEq, Eq, Structural)]
pub enum PatternField {
    AppId,
    Title,
}

impl PatternField {
    /// The name of the property in messages.
    pub open spec fn name(self) -> Seq<char> {
        match self {
            PatternField::AppId => "app_id"@,
            PatternField::Title => "title"@,
        }
    }

    /// The name of the property in messages.
    pub fn label(self) -> (r: &'static str)
        ensures
            r@ == self.name(),
    {
        match self {
            PatternField::AppId => "app_id",
            PatternField::Title => "title",
        }
    }
}

/// A reason for which a request is refused. `T` is the type of the texts that
/// it carries: `String` in programs, `Seq<char>` in contracts.
#[derive(Debug)]
pub enum Problem<T> {
    /// A window query without a predicate.
    EmptyQuery,
    /// A predicate with nothing behind its `=`.
    EmptyValue { predicate: T },
    /// A value with white space in it.
    SpaceInValue { value: T },
    /// An `active` predicate with a value other than `true` and `false`.
    BadActiveValue { value: T },
    /// A predicate on a field that windows do not have.
    UnknownField { field: T },
    /// No open window answers the query.
    NoWindow { query: T },
    /// Two or more open windows answer the query.
    AmbiguousWindow { query: T, candidates: T },
    /// No workspace answers the selector.
    NoWorkspace { selector: T },
    /// Two or more workspaces answer the selector.
    AmbiguousWorkspace { selector: T, candidates: T },
    /// The workspace is not shown on the output that was asked for.
    NotOnOutput { workspace: T, output: T, available: T },
    /// The workspace is shown on no output.
    NoOutputs { workspace: T },
    /// The compositor has not described the window well enough to move it.
    NotMovable { title: T },
    /// The compositor has not described the window well enough to activate it.
    NotActivatable { title: T },
    /// There is no seat to activate a window for.
    NoSeat,
    /// The compositor moves windows between its legacy workspaces alone.
    LegacyMoveOnly,
    /// The compositor does not move windows between workspaces.
    NoExtMove,
    /// A launch with a title filter and no app_id filter.
    TitleWithoutAppId,
    /// A glob pattern that does not parse or does not compile.
    InvalidGlob { what: PatternField, pattern: T, cause: T },
    /// No window of a launched command appeared in time.
    LaunchTimeout { seconds: u64, command: T },
    /// A rule draft without an app_id.
    EmptyAppId,
    /// The window to move has been closed.
    NotOpen { app_id: T },
}

/// A problem as programs handle it.
pub type WmError = Problem<String>;

/// A problem as contracts speak of it.
pub type ErrorView = Problem<Seq<char>>;

impl View for Problem<String> {
    type V = Problem<Seq<char>>;

    open spec fn view(&self) -> Problem<Seq<char>> {
        match self {
            Problem::EmptyQuery => Problem::EmptyQuery,
            Problem::EmptyValue { predicate } => Problem::EmptyValue { predicate: predicate@ },
            Problem::SpaceInValue { value } => Problem::SpaceInValue { value: value@ },
            Problem::BadActiveValue { value } => Problem::BadActiveValue { value: value@ },
            Problem::UnknownField { field } => Problem::UnknownField { field: field@ },
            Problem::NoWindow { query } => Problem::NoWindow { query: query@ },
            Problem::AmbiguousWindow { query, candidates } => Problem::AmbiguousWindow {
                query: query@,
                candidates: candidates@,
            },
            Problem::NoWorkspace { selector } => Problem::NoWorkspace { selector: selector@ },
            Problem::AmbiguousWorkspace { selector, candidates } => Problem::AmbiguousWorkspace {
                selector: selector@,
                candidates: candidates@,
            },
            Problem::NotOnOutput { workspace, output, available } => Problem::NotOnOutput {
                workspace: workspace@,
                output: output@,
                available: available@,
            },
            Problem::NoOutputs { workspace } => Problem::NoOutputs { workspace: workspace@ },
            Problem::NotMovable { title } => Problem::NotMovable { title: title@ },
            Problem::NotActivatable { title } => Problem::NotActivatable { title: title@ },
            Problem::NoSeat => Problem::NoSeat,
            Problem::LegacyMoveOnly => Problem::LegacyMoveOnly,
            Problem::NoExtMove => Problem::NoExtMove,
            Problem::TitleWithoutAppId => Problem::TitleWithoutAppId,
            Problem::InvalidGlob { what, pattern, cause } => Problem::InvalidGlob {
                what: *what,
                pattern: pattern@,
                cause: cause@,
            },
            Problem::LaunchTimeout { seconds, command } => Problem::LaunchTimeout {
                seconds: *seconds,
                command: command@,
            },
            Problem::EmptyAppId => Problem::EmptyAppId,
            Problem::NotOpen { app_id } => Problem::NotOpen { app_id: app_id@ },
        }
    }
}

/// What a function that may fail returned, as contracts speak of it.
pub open spec fn outcome<T: View>(r: Result<T, WmError>) -> Result<T::V, ErrorView> {
    match r {
        Ok(value) => Ok(value@),
        Err(e) => Err(e@),
    }
}

impl Problem<Seq<char>> {
    /// The message that tells the problem.
    pub open spec fn text(self) -> Seq<char> {
        match self {
            Problem::EmptyQuery => "empty window query"@,
            Problem::EmptyValue { predicate } => "empty value in predicate '"@ + predicate + "'"@,
            Problem::SpaceInValue { value } => "white space in value '"@ + value + "'"@,
            Problem::BadActiveValue { value } => "'active' value must be 'true' or 'false', got '"@
                + value + "'"@,
            Problem::UnknownField { field } => "unknown field '"@ + field
                + "': use app_id, title, identifier, or active"@,
            Problem::NoWindow { query } => "no window matched "@ + query,
            Problem::AmbiguousWindow { query, candidates } => "window selector "@ + query
                + " matched multiple windows: "@ + candidates,
            Problem::NoWorkspace { selector } => "no workspace matched '"@ + selector + "'"@,
            Problem::AmbiguousWorkspace { selector, candidates } => "workspace selector '"@
                + selector + "' matched multiple workspaces: "@ + candidates,
            Problem::NotOnOutput { workspace, output, available } => "workspace '"@ + workspace
                + "' is not on output '"@ + output + "'; available outputs: "@ + available,
            Problem::NoOutputs { workspace } => "workspace '"@ + workspace
                + "' has no associated outputs"@,
            Problem::NotMovable { title } => "window '"@ + title
                + "' does not support moving (no cosmic toplevel info yet)"@,
            Problem::NotActivatable { title } => "window '"@ + title
                + "' does not support activation (no cosmic toplevel info yet)"@,
            Problem::NoSeat => "the compositor has no seat to activate a window for"@,
            Problem::LegacyMoveOnly =>
                "this COSMIC session exposes ext workspaces (ext_workspace_manager_v1 + zcosmic_workspace_manager_v2) but does not advertise move_to_ext_workspace; move-window is unavailable on this compositor build"@,
            Problem::NoExtMove =>
                "the compositor does not advertise move_to_ext_workspace support"@,
            Problem::TitleWithoutAppId => "--title requires --app-id"@,
            Problem::InvalidGlob { what, pattern, cause } => "invalid "@ + what.name()
                + " glob pattern '"@ + pattern + "'"@,
            Problem::LaunchTimeout { seconds, command } => "no matching window appeared within "@
                + decimal::decimal(seconds as nat) + "s for '"@ + command
                + "'; the app may not have opened a window"@,
            Problem::EmptyAppId => "app_id is empty"@,
            Problem::NotOpen { app_id } => "'"@ + app_id + "' is no longer open"@,
        }
    }

    /// The message with what caused the problem, where something did.
    pub open spec fn full_text(self) -> Seq<char> {
        match self {
            Problem::InvalidGlob { cause, .. } => self.text() + ": "@ + cause,
            _ => self.text(),
        }
    }
}

/// `before`, then `middle`, then `after`.
fn around(before: &str, middle: &str, after: &str) -> (r: String)
    ensures
        r@ == before@ + middle@ + after@,
{
    let mut out: String = before.to_owned();
    out.append(middle);
    out.append(after);
    out
}

impl Problem<String> {
    /// The message that tells the problem.
    pub fn message(&self) -> (r: String)
        ensures
            r@ == self@.text(),
    {
        match self {
            Problem::EmptyQuery => "empty window query".to_owned(),
            Problem::EmptyValue { predicate } => around(
                "empty value in predicate '",
                predicate.as_str(),
                "'",
            ),
            Problem::SpaceInValue { value } => around(
                "white space in value '",
                value.as_str(),
                "'",
            ),
            Problem::BadActiveValue { value } => around(
                "'active' value must be 'true' or 'false', got '",
                value.as_str(),
                "'",
            ),
            Problem::UnknownField { field } => around(
                "unknown field '",
                field.as_str(),
                "': use app_id, title, identifier, or active",
            ),
            Problem::NoWindow { query } => {
                let mut out: String = "no window matched ".to_owned();
                out.append(query.as_str());
                out
            },
            Problem::AmbiguousWindow { query, candidates } => {
                let mut out: String = around(
                    "window selector ",
                    query.as_str(),
                    " matched multiple windows: ",
                );
                out.append(candidates.as_str());
                out
            },
            Problem::NoWorkspace { selector } => around(
                "no workspace matched '",
                selector.as_str(),
                "'",
            ),
            Problem::AmbiguousWorkspace { selector, candidates } => {
                let mut out: String = around(
                    "workspace selector '",
                    selector.as_str(),
                    "' matched multiple workspaces: ",
                );
                out.append(candidates.as_str());
                out
            },
            Problem::NotOnOutput { workspace, output, available } => {
                let mut out: String = around(
                    "workspace '",
                    workspace.as_str(),
                    "' is not on output '",
                );
                out.append(output.as_str());
                out.append("'; available outputs: ");
                out.append(available.as_str());
                out
            },
            Problem::NoOutputs { workspace } => around(
                "workspace '",
                workspace.as_str(),
                "' has no associated outputs",
            ),
            Problem::NotMovable { title } => around(
                "window '",
                title.as_str(),
                "' does not support moving (no cosmic toplevel info yet)",
            ),
            Problem::NotActivatable { title } => around(
                "window '",
                title.as_str(),
                "' does not support activation (no cosmic toplevel info yet)",
            ),
            Problem::NoSeat => "the compositor has no seat to activate a window for".to_owned(),
            Problem::LegacyMoveOnly =>
                "this COSMIC session exposes ext workspaces (ext_workspace_manager_v1 + zcosmic_workspace_manager_v2) but does not advertise move_to_ext_workspace; move-window is unavailable on this compositor build".to_owned(),
            Problem::NoExtMove =>
                "the compositor does not advertise move_to_ext_workspace support".to_owned(),
            Problem::TitleWithoutAppId => "--title requires --app-id".to_owned(),
            Problem::InvalidGlob { what, pattern, cause: _ } => {
                let mut out: String = around("invalid ", what.label(), " glob pattern '");
                out.append(pattern.as_str());
                out.append("'");
                out
            },
            Problem::LaunchTimeout { seconds, command } => {
                let count: String = decimal::decimal_text(*seconds);
                let mut out: String = around(
                    "no matching window appeared within ",
                    count.as_str(),
                    "s for '",
                );
                out.append(command.as_str());
                out.append("'; the app may not have opened a window");
                out
            },
            Problem::EmptyAppId => "app_id is empty".to_owned(),
            Problem::NotOpen { app_id } => around("'", app_id.as_str(), "' is no longer open"),
        }
    }

    /// The message with what caused the problem, where something did.
    pub fn full_message(&self) -> (r: String)
        ensures
            r@ == self@.full_text(),
    {
        let mut out: String = self.message();
        if let Problem::InvalidGlob { what: _, pattern: _, cause } = self {
            out.append(": ");
            out.append(cause.as_str());
        }
        out
    }
}

/// A problem tells all that it carries: which predicate, field or value it was,
/// what was looked for and what was found, which window or workspace it is, and
/// what caused it.
pub proof fn law_problem_tells(problem: ErrorView)
    ensures
        ({
            let tells = |part: Seq<char>| text::contains_text(problem.text(), part);
            match problem {
                Problem::EmptyValue { predicate } => tells(predicate),
                Problem::SpaceInValue { value } => tells(value),
                Problem::BadActiveValue { value } => tells(value),
                Problem::UnknownField { field } => tells(field),
                Problem::NoWindow { query } => tells(query),
                Problem::AmbiguousWindow { query, candidates } => tells(query) && tells(candidates),
                Problem::NoWorkspace { selector } => tells(selector),
                Problem::AmbiguousWorkspace { selector, candidates } => tells(selector) && tells(
                    candidates,
                ),
                Problem::NotOnOutput { workspace, output, available } => tells(workspace) && tells(
                    output,
                ) && tells(available),
                Problem::NoOutputs { workspace } => tells(workspace),
                Problem::NotMovable { title } => tells(title),
                Problem::NotActivatable { title } => tells(title),
                Problem::InvalidGlob { what, pattern, cause } => tells(what.name()) && tells(
                    pattern,
                ) && exists|before: Seq<char>| #[trigger]
                    (before + cause) == problem.full_text(),
                Problem::LaunchTimeout { seconds, command } => tells(
                    decimal::decimal(seconds as nat),
                ) && tells(command),
                Problem::NotOpen { app_id } => tells(app_id),
                _ => problem.full_text() == problem.text(),
            }
        }),
{
    match problem {
        Problem::EmptyValue { predicate } => {
            lemma_told(problem, "empty value in predicate '"@, predicate);
        },
        Problem::SpaceInValue { value } => {
            lemma_told(problem, "white space in value '"@, value);
        },
        Problem::BadActiveValue { value } => {
            lemma_told(problem, "'active' value must be 'true' or 'false', got '"@, value);
        },
        Problem::UnknownField { field } => {
            lemma_told(problem, "unknown field '"@, field);
        },
        Problem::NoWindow { query } => {
            lemma_told(problem, "no window matched "@, query);
        },
        Problem::AmbiguousWindow { query, candidates } => {
            lemma_told(problem, "window selector "@, query);
            lemma_told(
                problem,
                "window selector "@ + query + " matched multiple windows: "@,
                candidates,
            );
        },
        Problem::NoWorkspace { selector } => {
            lemma_told(problem, "no workspace matched '"@, selector);
        },
        Problem::AmbiguousWorkspace { selector, candidates } => {
            lemma_told(problem, "workspace selector '"@, selector);
            lemma_told(
                problem,
                "workspace selector '"@ + selector + "' matched multiple workspaces: "@,
                candidates,
            );
        },
        Problem::NotOnOutput { workspace, output, available } => {
            let first = "workspace '"@;
            let second = first + workspace + "' is not on output '"@;
            lemma_told(problem, first, workspace);
            lemma_told(problem, second, output);
            lemma_told(problem, second + output + "'; available outputs: "@, available);
        },
        Problem::NoOutputs { workspace } => {
            lemma_told(problem, "workspace '"@, workspace);
        },
        Problem::NotMovable { title } => {
            lemma_told(problem, "window '"@, title);
        },
        Problem::NotActivatable { title } => {
            lemma_told(problem, "window '"@, title);
        },
        Problem::InvalidGlob { what, pattern, cause } => {
            lemma_told(problem, "invalid "@, what.name());
            lemma_told(problem, "invalid "@ + what.name() + " glob pattern '"@, pattern);
            assert((problem.text() + ": "@) + cause == problem.full_text());
        },
        Problem::LaunchTimeout { seconds, command } => {
            let first = "no matching window appeared within "@;
            let number = decimal::decimal(seconds as nat);
            lemma_told(problem, first, number);
            lemma_told(problem, first + number + "s for '"@, command);
        },
        Problem::NotOpen { app_id } => {
            lemma_told(problem, "'"@, app_id);
        },
        _ => {},
    }
}

/// What stands behind the start of a message is told.
proof fn lemma_told(problem: ErrorView, before: Seq<char>, part: Seq<char>)
    requires
        before.len() + part.len() <= problem.text().len(),
        problem.text().take((before.len() + part.len()) as int) =~= before + part,
    ensures
        text::contains_text(problem.text(), part),
{
    let whole = problem.text();
    let n = before.len() as int;
    assert(whole.subrange(n, n + part.len()) =~= whole.take(n + part.len()).skip(n));
    assert((before + part).skip(n) =~= part);
    assert(text::occurs_at(whole, part, n));
}

/// What contracts say of what may have failed they say of the value, or of the
/// problem, that a program finds.
pub proof fn law_outcome_is_seen_as_it_is<T: View>(r: Result<T, WmError>)
    ensures
        outcome(r) is Ok <==> r is Ok,
        r matches Ok(value) ==> outcome(r) == Ok::<T::V, ErrorView>(value@),
        r matches Err(e) ==> outcome(r) == Err::<T::V, ErrorView>(e@),
{
}

} // verus!
