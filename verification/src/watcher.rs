//! Keeping the rules of a running daemon up to date with the rules file.
use vstd::prelude::*;
use vstd::string::StringExecFns;

use crate::decimal;
use crate::rules::Rule;
use crate::text;

verus! {

/// Identity of a file's contents: when it was modified, in nanoseconds, and
/// its size.
#[derive(Debug, Clone, Copy, PartialEq, Eq, Structural)]
pub struct FileStamp {
    pub modified: i128,
    pub len: u64,
}

/// The rules of a running daemon, and the state of the rules file that they
/// were last loaded from.
#[derive(Debug)]
pub struct Watcher {
    pub rules: Vec<Rule>,
    pub stamp: Option<FileStamp>,
}

/// Has the rules file changed? A file that cannot be looked at has not.
pub open spec fn has_changed(known: Option<FileStamp>, found: Option<FileStamp>) -> bool {
    found is Some && found != known
}

/// What is told when the rules have been loaded again.
pub open spec fn reloaded_text(count: nat, path: Seq<char>) -> Seq<char> {
    "cosmic-wmctl: reloaded "@ + decimal::decimal(count) + " rule(s) from "@ + path
}

impl Watcher {
    /// The rules as they were first loaded.
    pub fn new(rules: Vec<Rule>, stamp: Option<FileStamp>) -> (r: Self)
        ensures
            r.rules == rules,
            r.stamp == stamp,
    {
        Watcher { rules, stamp }
    }

    /// Must the rules be loaded again? Where the file has changed, its new
    /// state is taken down, whatever the loading comes to.
    pub fn notice(&mut self, found: Option<FileStamp>) -> (r: bool)
        ensures
            r == has_changed(old(self).stamp, found),
            final(self).rules == old(self).rules,
            final(self).stamp == (if r {
                found
            } else {
                old(self).stamp
            }),
    {
        match found {
            Some(stamp) => {
                let changed: bool = match self.stamp {
                    Some(known) => stamp != known,
                    None => true,
                };
                if changed {
                    self.stamp = found;
                }
                changed
            },
            None => false,
        }
    }

    /// Takes in what loading the rules again came to, and returns what is to
    /// be told and whether the new rules are to be applied at once. Rules
    /// that do not load leave those in force that were.
    pub fn reload(&mut self, loaded: Result<Vec<Rule>, String>, path: &str) -> (r: (String, bool))
        ensures
            final(self).stamp == old(self).stamp,
            match loaded {
                Ok(fresh) => {
                    &&& final(self).rules == fresh
                    &&& r.0@ == reloaded_text(fresh.len() as nat, path@)
                    &&& r.1
                },
                Err(error) => {
                    &&& final(self).rules == old(self).rules
                    &&& r.0@ == "cosmic-wmctl: failed to reload rules: "@ + error@
                    &&& !r.1
                },
            },
    {
        match loaded {
            Ok(fresh) => {
                self.rules = fresh;
                let mut out: String = "cosmic-wmctl: reloaded ".to_owned();
                out.append(decimal::decimal_text(self.rules.len() as u64).as_str());
                out.append(" rule(s) from ");
                out.append(path);
                (out, true)
            },
            Err(error) => {
                let mut out: String = "cosmic-wmctl: failed to reload rules: ".to_owned();
                out.append(error.as_str());
                (out, false)
            },
        }
    }
}

/// A file that has been noticed is not noticed again until it changes.
pub proof fn law_noticed_once(known: Option<FileStamp>, found: Option<FileStamp>)
    requires
        has_changed(known, found),
    ensures
        !has_changed(found, found),
{
}

/// A change of the rules file is noticed where the file can be looked at and
/// was not there before, was modified at another moment, or has another size;
/// nothing else counts as a change.
pub proof fn law_changes_are_noticed(
    known: FileStamp,
    found: FileStamp,
    before: Option<FileStamp>,
)
    ensures
        has_changed(None, Some(found)),
        !has_changed(before, None),
        has_changed(Some(known), Some(found)) <==> known.modified != found.modified || known.len
            != found.len,
{
}

/// What is told of rules that were loaded again tells how many they are and
/// from which file.
pub proof fn law_reload_is_told(count: nat, path: Seq<char>)
    ensures
        text::contains_text(reloaded_text(count, path), decimal::decimal(count)),
        text::contains_text(reloaded_text(count, path), path),
{
    let told = reloaded_text(count, path);
    let start = "cosmic-wmctl: reloaded "@;
    let number = decimal::decimal(count);
    let middle = " rule(s) from "@;
    let none = Seq::<char>::empty();
    text::law_part_stands(start, number, middle + path, 0);
    assert(told =~= start + number + (middle + path));
    text::law_part_stands(start + number + middle, path, none, 0);
    assert(told =~= start + number + middle + path + none);
}

} // verus!
