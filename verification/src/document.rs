//! The rules file as a TOML document.
//!
//! One function of this module calls the `toml` crate; its contract is what
//! the rest of the library knows of it.
use vstd::prelude::*;

use crate::list;
use crate::rules;
use crate::rules::{Rule, RuleFileView, RuleView};
use crate::text;

verus! {

/// A table of texts under keys.
pub type TextTable = Vec<(String, String)>;

/// The view of a table of texts.
pub open spec fn table_view(table: Seq<(String, String)>) -> Seq<(Seq<char>, Seq<char>)> {
    table.map_values(|e: (String, String)| (e.0@, e.1@))
}

/// The views of a list of tables of texts.
pub open spec fn table_views(tables: Seq<TextTable>) -> Seq<Seq<(Seq<char>, Seq<char>)>> {
    tables.map_values(|t: TextTable| table_view(t@))
}

/// What `toml::to_string_pretty` writes for a document that holds, under
/// `key`, an array of tables of texts.
pub uninterp spec fn toml_text(
    key: Seq<char>,
    tables: Seq<Seq<(Seq<char>, Seq<char>)>>,
) -> Seq<char>;

/// Calls `toml::to_string_pretty` on a document that holds, under `key`, an
/// array of tables of texts.
///
/// What is written depends on the key and the tables alone and is named by
/// `toml_text`. Writing fails on values that TOML has no form for and on keys
/// that are no texts; a document of texts holds none of these, so that it is
/// always written.
#[verifier::external_body]
pub(crate) fn write_toml(key: &str, tables: &Vec<TextTable>) -> (r: Result<String, String>)
    ensures
        r is Ok,
        r->Ok_0@ == toml_text(key@, table_views(tables@)),
{
    let rows = tables.iter().map(|table| {
        let entries = table.iter().map(|(k, v)| (k.clone(), toml::Value::String(v.clone())));
        toml::Value::Table(entries.collect())
    });
    let mut document = toml::Table::new();
    document.insert(key.to_owned(), toml::Value::Array(rows.collect()));
    toml::to_string_pretty(&document).map_err(|error| error.to_string())
}

/// The table that stands for a rule in the rules file.
pub open spec fn rule_table(rule: RuleView) -> Seq<(Seq<char>, Seq<char>)> {
    seq![("app_id"@, rule.app_id)] + (match rule.title {
        Some(title) => seq![("title"@, title)],
        None => Seq::empty(),
    }) + seq![("workspace"@, rule.workspace)]
}

/// The rules file with these rules.
pub open spec fn rules_document(rules: Seq<RuleView>) -> Seq<char> {
    toml_text("rules"@, rules.map_values(|r: RuleView| rule_table(r)))
}

/// The table that stands for a rule in the rules file.
fn table_of(rule: &Rule) -> (r: TextTable)
    ensures
        table_view(r@) == rule_table(rule@),
{
    let mut table: TextTable = Vec::new();
    table.push(("app_id".to_owned(), rule.app_id.clone()));
    if let Some(title) = &rule.title {
        table.push(("title".to_owned(), title.clone()));
    }
    table.push(("workspace".to_owned(), rule.workspace.clone()));
    assert(table_view(table@) =~= rule_table(rule@));
    table
}

/// The rules file with these rules.
pub fn write_rules(rules: &Vec<Rule>) -> (r: Result<String, String>)
    ensures
        r is Ok,
        r->Ok_0@ == rules_document(rules::rule_views(rules@)),
{
    let mut tables: Vec<TextTable> = Vec::new();
    let ghost wanted = rules::rule_views(rules@).map_values(|r: RuleView| rule_table(r));
    let mut i: usize = 0;
    while i < rules.len()
        invariant
            i <= rules.len(),
            tables.len() == i,
            wanted == rules::rule_views(rules@).map_values(|r: RuleView| rule_table(r)),
            forall|k: int| 0 <= k < i ==> table_view((#[trigger] tables@[k])@) == wanted[k],
        decreases rules.len() - i,
    {
        tables.push(table_of(&rules[i]));
        i = i + 1;
    }
    assert(table_views(tables@) =~= wanted);
    write_toml("rules", &tables)
}

/// The text under a key of a table, where there is one.
pub open spec fn text_under(table: Seq<(Seq<char>, Seq<char>)>, key: Seq<char>) -> Option<
    Seq<char>,
> {
    match list::first_where(table, |e: (Seq<char>, Seq<char>)| e.0 == key) {
        Some(i) => Some(table[i].1),
        None => None,
    }
}

/// The entry of the rules file that a table stands for, where it has an
/// app_id and a workspace.
pub open spec fn table_entry(table: Seq<(Seq<char>, Seq<char>)>) -> Option<RuleFileView> {
    match (text_under(table, "app_id"@), text_under(table, "workspace"@)) {
        (Some(app_id), Some(workspace)) => Some(
            RuleFileView { app_id, title: text_under(table, "title"@), workspace },
        ),
        _ => None,
    }
}

/// The table of a rule that can be made is read back as that rule.
pub proof fn law_rule_read_back(app_id: Seq<char>, title: Option<Seq<char>>, workspace: Seq<char>)
    requires
        rules::rule_of(app_id, title, workspace) is Ok,
    ensures
        ({
            let rule = rules::rule_of(app_id, title, workspace)->Ok_0;
            &&& table_entry(rule_table(rule)) matches Some(entry)
            &&& entry.rule() == Ok::<RuleView, crate::error::ErrorView>(rule)
        }),
{
    lemma_table_is_read(rules::rule_of(app_id, title, workspace)->Ok_0);
}

/// The table of a rule has what the rule is made of under its keys.
proof fn lemma_table_is_read(rule: RuleView)
    ensures
        text_under(rule_table(rule), "app_id"@) == Some(rule.app_id),
        text_under(rule_table(rule), "title"@) == rule.title,
        text_under(rule_table(rule), "workspace"@) == Some(rule.workspace),
{
    reveal_strlit("app_id");
    reveal_strlit("title");
    reveal_strlit("workspace");
    let table = rule_table(rule);
    assert("app_id"@.len() == 6 && "title"@.len() == 5 && "workspace"@.len() == 9);
    let by_app_id = |e: (Seq<char>, Seq<char>)| e.0 == "app_id"@;
    let by_title = |e: (Seq<char>, Seq<char>)| e.0 == "title"@;
    let by_workspace = |e: (Seq<char>, Seq<char>)| e.0 == "workspace"@;
    assert(table[0] == ("app_id"@, rule.app_id));
    assert(list::first_from(table, by_app_id, 0) == Some(0int));
    match rule.title {
        Some(text) => {
            assert(table[1] == ("title"@, text));
            assert(table[2] == ("workspace"@, rule.workspace));
            assert(list::first_from(table, by_title, 1) == Some(1int));
            assert(list::first_from(table, by_title, 0) == Some(1int));
            assert(list::first_from(table, by_workspace, 2) == Some(2int));
            assert(list::first_from(table, by_workspace, 1) == Some(2int));
            assert(list::first_from(table, by_workspace, 0) == Some(2int));
        },
        None => {
            assert(table[1] == ("workspace"@, rule.workspace));
            assert(list::first_from(table, by_title, 2) is None);
            assert(list::first_from(table, by_title, 1) is None);
            assert(list::first_from(table, by_title, 0) is None);
            assert(list::first_from(table, by_workspace, 1) == Some(1int));
            assert(list::first_from(table, by_workspace, 0) == Some(1int));
        },
    }
}

/// The rules file is one list of tables, a table for each rule and in their
/// order, and each table is that of an entry with what its rule is made of. The
/// tables are given back.
pub proof fn law_document_has_each_rule(rules: Seq<RuleView>) -> (tables: Seq<
    Seq<(Seq<char>, Seq<char>)>,
>)
    ensures
        rules_document(rules) == toml_text("rules"@, tables),
        tables.len() == rules.len(),
        forall|i: int|
            0 <= i < rules.len() ==> (table_entry(#[trigger] tables[i]) matches Some(entry)
                && entry.app_id == rules[i].app_id && entry.title == rules[i].title
                && entry.workspace == rules[i].workspace),
{
    let tables = rules.map_values(|r: RuleView| rule_table(r));
    assert forall|i: int| 0 <= i < rules.len() implies (table_entry(
        #[trigger] tables[i],
    ) matches Some(entry) && entry.app_id == rules[i].app_id && entry.title == rules[i].title
        && entry.workspace == rules[i].workspace) by {
        lemma_table_is_read(rules[i]);
    }
    tables
}

/// A table has under each of the keys of an entry what the entry has, and each
/// key once.
pub proof fn law_table_is_plain(rule: RuleView)
    ensures
        text_under(rule_table(rule), "app_id"@) == Some(rule.app_id),
        text_under(rule_table(rule), "title"@) == rule.title,
        text_under(rule_table(rule), "workspace"@) == Some(rule.workspace),
        forall|i: int, j: int|
            0 <= i < j < rule_table(rule).len() ==> (#[trigger] rule_table(rule)[i]).0 != (
            #[trigger] rule_table(rule)[j]).0,
{
    reveal_strlit("app_id");
    reveal_strlit("title");
    reveal_strlit("workspace");
    assert("app_id"@.len() == 6 && "title"@.len() == 5 && "workspace"@.len() == 9);
    lemma_table_is_read(rule);
}

} // verus!
