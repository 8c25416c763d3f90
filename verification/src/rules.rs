//! Rules that move windows to workspaces as they open.
use vstd::prelude::*;
use vstd::string::StringExecFns;

use crate::decimal;
use crate::error::{ErrorView, PatternField, Problem, WmError};
use crate::globs;
use crate::list;
use crate::records;
use crate::text;

verus! {

/// A rule: move windows whose `app_id` matches `app_id` (and, when given,
/// whose `title` matches `title`) to the workspace selected by `workspace`.
///
/// The workspace selector uses the same syntax as `window-move`: a workspace
/// name, id, or coordinates like `1,0`.
#[derive(Debug)]
pub struct Rule {
    /// The glob pattern that the app_id is held against.
    pub app_id: String,
    /// The glob pattern that the title is held against, if any.
    pub title: Option<String>,
    /// Where to move matching windows (name, id, or coordinates).
    pub workspace: String,
}

/// A rule as contracts speak of it.
#[verifier::ext_equal]
pub struct RuleView {
    pub app_id: Seq<char>,
    pub title: Option<Seq<char>>,
    pub workspace: Seq<char>,
}

impl View for Rule {
    type V = RuleView;

    open spec fn view(&self) -> RuleView {
        RuleView {
            app_id: self.app_id@,
            title: text::opt_view(self.title),
            workspace: self.workspace@,
        }
    }
}

impl Clone for Rule {
    fn clone(&self) -> (r: Self)
        ensures
            r@ == self@,
    {
        Rule {
            app_id: self.app_id.clone(),
            title: records::copy_option(&self.title),
            workspace: self.workspace.clone(),
        }
    }
}

/// The views of a list of rules.
pub open spec fn rule_views(rules: Seq<Rule>) -> Seq<RuleView> {
    rules.map_values(|r: Rule| r@)
}

impl RuleView {
    /// Does the rule apply to a window with this app_id and title?
    pub open spec fn applies(self, app_id: Seq<char>, title: Seq<char>) -> bool {
        &&& globs::pattern_accepts(self.app_id, app_id)
        &&& match self.title {
            Some(pattern) => globs::pattern_accepts(pattern, title),
            None => true,
        }
    }

    /// Is it settled what the patterns say of the app_id and the title?
    pub open spec fn is_clear_on(self, app_id: Seq<char>, title: Seq<char>) -> bool {
        &&& globs::is_clear_on(self.app_id, app_id)
        &&& match self.title {
            Some(pattern) => globs::is_clear_on(pattern, title),
            None => true,
        }
    }

    /// Do the app_id and the title fit the pieces of the patterns?
    pub open spec fn fits(self, app_id: Seq<char>, title: Seq<char>) -> bool {
        &&& globs::fits(globs::pieces_of(self.app_id), app_id)
        &&& match self.title {
            Some(pattern) => globs::fits(globs::pieces_of(pattern), title),
            None => true,
        }
    }
}

/// What is said against the pattern of a rule: nothing against a good one.
pub open spec fn pattern_problem(what: PatternField, pattern: Seq<char>) -> Option<ErrorView> {
    match globs::pattern_error(pattern) {
        Some(reason) => Some(
            Problem::InvalidGlob { what, pattern, cause: glob_cause(pattern, reason) },
        ),
        None => None,
    }
}

/// What is told of a pattern that is no glob, beside that it is none.
pub open spec fn glob_cause(pattern: Seq<char>, reason: Seq<char>) -> Seq<char> {
    "error parsing glob '"@ + pattern + "': "@ + reason
}

/// The rule made of two patterns and a workspace selector; the app_id pattern
/// is looked at first.
pub open spec fn rule_of(
    app_id: Seq<char>,
    title: Option<Seq<char>>,
    workspace: Seq<char>,
) -> Result<RuleView, ErrorView> {
    match pattern_problem(PatternField::AppId, app_id) {
        Some(e) => Err(e),
        None => match title {
            Some(pattern) => match pattern_problem(PatternField::Title, pattern) {
                Some(e) => Err(e),
                None => Ok(RuleView { app_id, title, workspace }),
            },
            None => Ok(RuleView { app_id, title, workspace }),
        },
    }
}

/// The position of the first rule that applies to a window with this app_id
/// and title.
pub open spec fn first_rule(rules: Seq<RuleView>, app_id: Seq<char>, title: Seq<char>) -> Option<
    int,
> {
    list::first_where(rules, |r: RuleView| r.applies(app_id, title))
}

/// What was said against the pattern of a rule, as a problem.
pub fn glob_problem(what: PatternField, pattern: &str, checked: Result<(), String>) -> (r: Result<
    (),
    WmError,
>)
    ensures
        match checked {
            Ok(_) => r is Ok,
            Err(reason) => r matches Err(e) && e@ == (Problem::InvalidGlob {
                what,
                pattern: pattern@,
                cause: glob_cause(pattern@, reason@),
            }),
        },
{
    match checked {
        Ok(_) => Ok(()),
        Err(reason) => {
            let mut cause: String = "error parsing glob '".to_owned();
            cause.append(pattern);
            cause.append("': ");
            cause.append(reason.as_str());
            Err(Problem::InvalidGlob { what, pattern: pattern.to_owned(), cause })
        },
    }
}

/// Checks the pattern of a rule.
fn compile_glob(pattern: &str, what: PatternField) -> (r: Result<(), WmError>)
    ensures
        match r {
            Ok(_) => pattern_problem(what, pattern@) is None,
            Err(e) => pattern_problem(what, pattern@) == Some(e@),
        },
        globs::is_clear(pattern@) ==> r is Ok,
        globs::is_open(pattern@) ==> r is Err,
{
    glob_problem(what, pattern, globs::check(pattern))
}

/// Whether a rule applies, given whether its patterns matched: the app_id
/// must match, and so must the title where the rule has a title pattern.
pub fn rule_verdict(app_id_hit: bool, title_hit: Option<bool>) -> (r: bool)
    ensures
        r == (app_id_hit && title_hit != Some(false)),
{
    app_id_hit && match title_hit {
        Some(hit) => hit,
        None => true,
    }
}

/// Are the patterns of a rule sure to be globs?
pub open spec fn clear_patterns(app_id: Seq<char>, title: Option<Seq<char>>) -> bool {
    &&& globs::is_clear(app_id)
    &&& title matches Some(pattern) ==> globs::is_clear(pattern)
}

impl Rule {
    /// Build a rule from raw glob patterns.
    pub fn new(app_id: &str, title: Option<&str>, workspace: &str) -> (r: Result<Self, WmError>)
        ensures
            match r {
                Ok(rule) => rule_of(app_id@, text::opt_str_view(title), workspace@) == Ok::<
                    RuleView,
                    ErrorView,
                >(rule@),
                Err(e) => rule_of(app_id@, text::opt_str_view(title), workspace@) == Err::<
                    RuleView,
                    ErrorView,
                >(e@) && e@ is InvalidGlob,
            },
            clear_patterns(app_id@, text::opt_str_view(title)) ==> r is Ok,
            globs::is_open(app_id@) ==> r is Err,
            title matches Some(pattern) && globs::is_open(pattern@) ==> r is Err,
    {
        if let Err(e) = compile_glob(app_id, PatternField::AppId) {
            return Err(e);
        }
        let title: Option<String> = match title {
            Some(pattern) => {
                if let Err(e) = compile_glob(pattern, PatternField::Title) {
                    return Err(e);
                }
                Some(pattern.to_owned())
            },
            None => None,
        };
        Ok(Rule { app_id: app_id.to_owned(), title, workspace: workspace.to_owned() })
    }

    /// Does this rule apply to a window with the given `app_id` and `title`?
    pub fn matches(&self, app_id: &str, title: &str) -> (r: bool)
        ensures
            r == self@.applies(app_id@, title@),
            self@.is_clear_on(app_id@, title@) ==> r == self@.fits(app_id@, title@),
            globs::is_literal(self@.app_id) && (self@.title matches Some(pattern)
                ==> globs::is_literal(pattern)) ==> r == (self@.app_id == app_id@ && (
            self@.title is None || self@.title == Some(title@))),
    {
        let app_id_hit: bool = globs::accepts(self.app_id.as_str(), app_id);
        let title_hit: Option<bool> = match &self.title {
            Some(pattern) => Some(globs::accepts(pattern.as_str(), title)),
            None => None,
        };
        rule_verdict(app_id_hit, title_hit)
    }
}

/// The position of the first rule that applies to a window with this app_id
/// and title.
pub fn find_rule(rules: &Vec<Rule>, app_id: &str, title: &str) -> (r: Option<usize>)
    ensures
        match r {
            Some(i) => first_rule(rule_views(rules@), app_id@, title@) == Some(i as int) && i
                < rules.len(),
            None => first_rule(rule_views(rules@), app_id@, title@) is None,
        },
{
    let ghost all = rule_views(rules@);
    let ghost pred = |r: RuleView| r.applies(app_id@, title@);
    let mut i: usize = 0;
    while i < rules.len()
        invariant
            i <= rules.len(),
            all == rule_views(rules@),
            pred == (|r: RuleView| r.applies(app_id@, title@)),
            list::first_from(all, pred, 0) == list::first_from(all, pred, i as int),
        decreases rules.len() - i,
    {
        assert(all[i as int] == rules@[i as int]@);
        if rules[i].matches(app_id, title) {
            return Some(i);
        }
        i = i + 1;
    }
    None
}

/// An entry of the rules file.
#[derive(Debug)]
pub struct RuleFile {
    pub app_id: String,
    pub title: Option<String>,
    pub workspace: String,
}

/// An entry of the rules file as contracts speak of it.
pub struct RuleFileView {
    pub app_id: Seq<char>,
    pub title: Option<Seq<char>>,
    pub workspace: Seq<char>,
}

impl View for RuleFile {
    type V = RuleFileView;

    open spec fn view(&self) -> RuleFileView {
        RuleFileView {
            app_id: self.app_id@,
            title: text::opt_view(self.title),
            workspace: self.workspace@,
        }
    }
}

/// The views of a list of entries.
pub open spec fn entry_views(entries: Seq<RuleFile>) -> Seq<RuleFileView> {
    entries.map_values(|e: RuleFile| e@)
}

impl RuleFileView {
    /// The rule that the entry stands for.
    pub open spec fn rule(self) -> Result<RuleView, ErrorView> {
        rule_of(self.app_id, self.title, self.workspace)
    }

    /// Is the entry sure to stand for a rule?
    pub open spec fn is_clear(self) -> bool {
        clear_patterns(self.app_id, self.title)
    }
}

/// An entry of the rules file that makes no rule.
#[derive(Debug)]
pub struct LoadError {
    /// The position of the entry.
    pub index: usize,
    pub problem: WmError,
}

impl LoadError {
    /// The message that tells which entry it is.
    pub fn message(&self) -> (r: String)
        ensures
            r@ == "rules["@ + decimal::decimal(self.index as nat) + "]"@,
    {
        let mut out: String = "rules[".to_owned();
        out.append(decimal::decimal_text(self.index as u64).as_str());
        out.append("]");
        out
    }

    /// The message that tells which entry it is and what is wrong with it.
    pub fn full_message(&self) -> (r: String)
        ensures
            r@ == "rules["@ + decimal::decimal(self.index as nat) + "]"@ + ": "@
                + self.problem@.full_text(),
    {
        let mut out: String = self.message();
        out.append(": ");
        out.append(self.problem.full_message().as_str());
        out
    }
}

/// The rules that the entries of a rules file stand for, or the first entry
/// that makes no rule.
pub fn load_rules(entries: &Vec<RuleFile>) -> (r: Result<Vec<Rule>, LoadError>)
    ensures
        match r {
            Ok(rules) => rules.len() == entries.len() && forall|i: int|
                0 <= i < entries.len() ==> (#[trigger] entry_views(entries@)[i]).rule() == Ok::<
                    RuleView,
                    ErrorView,
                >(rule_views(rules@)[i]),
            Err(e) => e.index < entries.len() && entry_views(entries@)[e.index as int].rule()
                == Err::<RuleView, ErrorView>(e.problem@) && forall|i: int|
                0 <= i < e.index ==> (#[trigger] entry_views(entries@)[i]).rule() is Ok,
        },
        (forall|i: int|
            0 <= i < entries.len() ==> (#[trigger] entry_views(entries@)[i]).is_clear()) ==> r is Ok,
{
    let mut rules: Vec<Rule> = Vec::new();
    let mut i: usize = 0;
    while i < entries.len()
        invariant
            i <= entries.len(),
            rules.len() == i,
            forall|k: int|
                0 <= k < i ==> (#[trigger] entry_views(entries@)[k]).rule() == Ok::<
                    RuleView,
                    ErrorView,
                >(rule_views(rules@)[k]),
        decreases entries.len() - i,
    {
        let entry: &RuleFile = &entries[i];
        let title: Option<&str> = match &entry.title {
            Some(title) => Some(title.as_str()),
            None => None,
        };
        let ghost before = rules@;
        assert(entry_views(entries@)[i as int] == entry@);
        match Rule::new(entry.app_id.as_str(), title, entry.workspace.as_str()) {
            Ok(rule) => {
                rules.push(rule);
                proof {
                    assert forall|k: int| 0 <= k < i + 1 implies (#[trigger] entry_views(
                        entries@,
                    )[k]).rule() == Ok::<RuleView, ErrorView>(rule_views(rules@)[k]) by {
                        if k < i {
                            assert(rule_views(rules@)[k] == rule_views(before)[k]);
                        }
                    }
                }
            },
            Err(problem) => {
                return Err(LoadError { index: i, problem });
            },
        }
        i = i + 1;
    }
    Ok(rules)
}

/// A path with one more component behind it.
pub open spec fn joined_path(base: Seq<u8>, part: Seq<u8>) -> Seq<u8> {
    if base.len() > 0 && base.last() != 0x2f {
        base.push(0x2f) + part
    } else {
        base + part
    }
}

/// The bytes of a text of ASCII characters.
pub open spec fn ascii_bytes(s: Seq<char>) -> Seq<u8> {
    s.map_values(|c: char| c as u8)
}

/// The path of the rules file, given the values of `XDG_CONFIG_HOME` and
/// `HOME`.
pub open spec fn config_path(xdg_config_home: Option<Seq<u8>>, home: Option<Seq<u8>>) -> Seq<u8> {
    let config_home = match xdg_config_home {
        Some(path) => path,
        None => match home {
            Some(path) => joined_path(path, ascii_bytes(".config"@)),
            None => ascii_bytes(".config"@),
        },
    };
    joined_path(joined_path(config_home, ascii_bytes("cosmic-wmctl"@)), ascii_bytes("rules.toml"@))
}

/// The bytes of an optional path.
pub open spec fn opt_bytes(path: Option<Vec<u8>>) -> Option<Seq<u8>> {
    match path {
        Some(bytes) => Some(bytes@),
        None => None,
    }
}

/// Puts one more component behind a path.
fn push_component(base: &mut Vec<u8>, part: &str)
    requires
        vstd::utf8::is_ascii_chars(part@),
    ensures
        final(base)@ == joined_path(old(base)@, ascii_bytes(part@)),
{
    broadcast use vstd::string::is_ascii_spec_bytes;

    let bytes: &[u8] = part.as_bytes();
    proof {
        assert(part.is_ascii());
        assert(bytes@ =~= ascii_bytes(part@));
    }
    let ghost start = base@;
    if base.len() > 0 && base[base.len() - 1] != 0x2f {
        base.push(0x2f);
    }
    let ghost stem = base@;
    let mut i: usize = 0;
    assert(stem + bytes@.take(0) =~= stem);
    while i < bytes.len()
        invariant
            i <= bytes.len(),
            base@ == stem + bytes@.take(i as int),
        decreases bytes.len() - i,
    {
        base.push(bytes[i]);
        assert(stem + bytes@.take(i + 1) =~= (stem + bytes@.take(i as int)).push(bytes@[i as int]));
        i = i + 1;
    }
    assert(bytes@.take(i as int) =~= bytes@);
}

/// Default location of the rules file: `$XDG_CONFIG_HOME/cosmic-wmctl/rules.toml`
/// (falling back to `$HOME/.config/cosmic-wmctl/rules.toml`), given the
/// values of the two variables.
pub fn default_config_path(xdg_config_home: Option<Vec<u8>>, home: Option<Vec<u8>>) -> (r: Vec<u8>)
    ensures
        r@ == config_path(opt_bytes(xdg_config_home), opt_bytes(home)),
{
    proof {
        reveal_strlit(".config");
        reveal_strlit("cosmic-wmctl");
        reveal_strlit("rules.toml");
    }
    let mut path: Vec<u8> = match xdg_config_home {
        Some(path) => path,
        None => {
            let mut base: Vec<u8> = match home {
                Some(path) => path,
                None => Vec::new(),
            };
            let ghost start = base@;
            push_component(&mut base, ".config");
            proof {
                if home is None {
                    assert(start + ascii_bytes(".config"@) =~= ascii_bytes(".config"@));
                }
            }
            base
        },
    };
    push_component(&mut path, "cosmic-wmctl");
    push_component(&mut path, "rules.toml");
    path
}

/// The rules file lies in the directory of this program, wherever the
/// configuration is kept.
pub proof fn law_config_path_ends(xdg_config_home: Option<Seq<u8>>, home: Option<Seq<u8>>)
    ensures
        ({
            let path = config_path(xdg_config_home, home);
            let end = ascii_bytes("cosmic-wmctl/rules.toml"@);
            &&& path.len() >= end.len()
            &&& path.skip(path.len() - end.len()) == end
            &&& path.len() > end.len() ==> path[path.len() - end.len() - 1] == 0x2f
        }),
{
    reveal_strlit("cosmic-wmctl");
    reveal_strlit("rules.toml");
    reveal_strlit("cosmic-wmctl/rules.toml");
    let path = config_path(xdg_config_home, home);
    let end = ascii_bytes("cosmic-wmctl/rules.toml"@);
    let dir = ascii_bytes("cosmic-wmctl"@);
    let file = ascii_bytes("rules.toml"@);
    assert(end =~= dir.push(0x2f) + file);
    assert(path.skip(path.len() - end.len()) =~= end);
}

/// An example rules file, written out when the daemon is asked for one.
pub const EXAMPLE_CONFIG: &'static str = r#"# cosmic-wmctl rules
#
# Move a window to a workspace when it opens. The first matching rule wins.
# Workspace selectors accept a workspace name, id, or coordinates (e.g. "1,0").
#
# app_id  (required) glob matched against the window's app_id, e.g. "org.mozilla.firefox"
# title   (optional) glob matched against the window's title
# workspace (required) where to move matching windows

[[rules]]
app_id = "org.mozilla.firefox"
workspace = "2"

[[rules]]
app_id = "org.gnome.Terminal"
title = "*htop*"
workspace = "3"

[[rules]]
app_id = "com.slack.Slack"
workspace = "4"
"#;

/// The first rule that applies wins: the rule that is found applies, and none
/// before it does; none is found exactly when none applies.
pub proof fn law_first_rule_wins(rules: Seq<RuleView>, app_id: Seq<char>, title: Seq<char>)
    ensures
        match first_rule(rules, app_id, title) {
            Some(i) => 0 <= i < rules.len() && rules[i].applies(app_id, title) && forall|j: int|
                0 <= j < i ==> !(#[trigger] rules[j]).applies(app_id, title),
            None => forall|j: int|
                0 <= j < rules.len() ==> !(#[trigger] rules[j]).applies(app_id, title),
        },
{
    list::lemma_first_from(rules, |r: RuleView| r.applies(app_id, title), 0);
}

/// A rule without a title pattern does not look at the title; a rule with one
/// applies only where both patterns match.
pub proof fn law_both_patterns_count(rule: RuleView, app_id: Seq<char>, title: Seq<char>)
    ensures
        rule.title is None ==> forall|other: Seq<char>|
            rule.applies(app_id, title) == #[trigger] rule.applies(app_id, other),
        rule.applies(app_id, title) <==> (globs::pattern_accepts(rule.app_id, app_id) && (
        rule.title matches Some(pattern) ==> globs::pattern_accepts(pattern, title))),
{
}

/// A rule is made exactly where nothing is said against its patterns, and it is
/// made of what was given. Of two bad patterns that of the app_id is told.
pub proof fn law_rule_is_as_given(app_id: Seq<char>, title: Option<Seq<char>>, workspace: Seq<char>)
    ensures
        ({
            let made = rule_of(app_id, title, workspace);
            &&& made is Ok <==> globs::pattern_error(app_id) is None && (title matches Some(pattern)
                ==> globs::pattern_error(pattern) is None)
            &&& made matches Ok(rule) ==> {
                &&& rule.app_id == app_id
                &&& rule.title == title
                &&& rule.workspace == workspace
            }
            &&& globs::pattern_error(app_id) matches Some(reason) ==> (made matches Err(
                Problem::InvalidGlob { what, pattern, cause },
            ) && what == PatternField::AppId && pattern == app_id && text::contains_text(
                cause,
                reason,
            ))
            &&& made is Err && globs::pattern_error(app_id) is None ==> (made matches Err(
                Problem::InvalidGlob { what, pattern, cause },
            ) && what == PatternField::Title && Some(pattern) == title && text::contains_text(
                cause,
                globs::pattern_error(pattern)->0,
            ))
        }),
{
    if let Some(reason) = globs::pattern_error(app_id) {
        lemma_cause(app_id, reason);
    }
    if let Some(pattern) = title {
        if let Some(reason) = globs::pattern_error(pattern) {
            lemma_cause(pattern, reason);
        }
    }
}

/// The reason stands in what is told of a bad pattern.
proof fn lemma_cause(pattern: Seq<char>, reason: Seq<char>)
    ensures
        text::contains_text(glob_cause(pattern, reason), reason),
{
    let cause = glob_cause(pattern, reason);
    let n = cause.len() - reason.len();
    assert(cause.subrange(n, n + reason.len()) =~= reason);
    assert(text::occurs_at(cause, reason, n));
}

/// The rules file is looked for in the directory that `XDG_CONFIG_HOME` names,
/// whatever the home directory, and in `.config` of the home directory where it
/// names none; a slash stands between the parts, and only one is put there.
pub proof fn law_config_path_starts(
    config_home: Seq<u8>,
    home: Seq<u8>,
    other: Option<Seq<u8>>,
)
    ensures
        ({
            let end = ascii_bytes("cosmic-wmctl/rules.toml"@);
            &&& config_home.len() > 0 && config_home.last() != 0x2f ==> config_path(
                Some(config_home),
                other,
            ) == config_home + seq![0x2fu8] + end
            &&& config_home.len() > 0 && config_home.last() == 0x2f ==> config_path(
                Some(config_home),
                other,
            ) == config_home + end
            &&& home.len() > 0 && home.last() != 0x2f ==> config_path(None, Some(home))
                == config_path(Some(home + ascii_bytes("/.config"@)), other)
            &&& config_path(None, None) == config_path(Some(ascii_bytes(".config"@)), other)
        }),
{
    reveal_strlit("cosmic-wmctl");
    reveal_strlit("rules.toml");
    reveal_strlit("cosmic-wmctl/rules.toml");
    reveal_strlit(".config");
    reveal_strlit("/.config");
    let dir = ascii_bytes("cosmic-wmctl"@);
    let file = ascii_bytes("rules.toml"@);
    let end = ascii_bytes("cosmic-wmctl/rules.toml"@);
    assert(end =~= dir.push(0x2f) + file);
    if config_home.len() > 0 {
        if config_home.last() != 0x2f {
            assert(config_path(Some(config_home), other) =~= config_home + seq![0x2fu8] + end);
        } else {
            assert(config_path(Some(config_home), other) =~= config_home + end);
        }
    }
    if home.len() > 0 && home.last() != 0x2f {
        assert(joined_path(home, ascii_bytes(".config"@)) =~= home + ascii_bytes("/.config"@));
    }
}

/// What contracts say of a rule and of an entry of the rules file they say of
/// its patterns and its workspace, and of a list they say of each, in order.
pub proof fn law_rules_are_seen_as_they_are(
    rule: Rule,
    entry: RuleFile,
    rules: Seq<Rule>,
    entries: Seq<RuleFile>,
    i: int,
)
    ensures
        rule@.app_id == rule.app_id@,
        rule@.title is Some <==> rule.title is Some,
        rule.title matches Some(title) ==> rule@.title == Some(title@),
        rule@.workspace == rule.workspace@,
        entry@.app_id == entry.app_id@,
        entry@.title is Some <==> entry.title is Some,
        entry.title matches Some(title) ==> entry@.title == Some(title@),
        entry@.workspace == entry.workspace@,
        entry@.rule() == rule_of(entry@.app_id, entry@.title, entry@.workspace),
        rule_views(rules).len() == rules.len(),
        0 <= i < rules.len() ==> rule_views(rules)[i] == rules[i]@,
        entry_views(entries).len() == entries.len(),
        0 <= i < entries.len() ==> entry_views(entries)[i] == entries[i]@,
{
}

} // verus!
