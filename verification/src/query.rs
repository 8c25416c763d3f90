//! Window queries: predicates joined by ` and `.
use vstd::prelude::*;
use vstd::string::StrSliceExecFns;
use vstd::string::StringExecFns;

use crate::error::{ErrorView, Problem, WmError};
use crate::records::{WindowRecord, WindowView};
use crate::text;

verus! {

/// The window field that a selector looks at.
#[derive(Debug, Clone, Copy, PartialEq, Eq, Structural)]
pub enum WindowSelectorField {
    AppId,
    Title,
    Identifier,
    Any,
    /// Whether the window has the focus, and which of the two is wanted.
    Active(bool),
}

/// A single predicate like `app_id=firefox`.
#[derive(Debug, PartialEq, Eq)]
pub struct WindowSelector {
    pub field: WindowSelectorField,
    pub value: String,
    pub exact: bool,
}

/// A selector as contracts speak of it.
pub struct SelectorView {
    pub field: WindowSelectorField,
    pub value: Seq<char>,
    pub exact: bool,
}

impl View for WindowSelector {
    type V = SelectorView;

    open spec fn view(&self) -> SelectorView {
        SelectorView { field: self.field, value: self.value@, exact: self.exact }
    }
}

/// A window query: one or more predicates, all of which must hold.
#[derive(Debug)]
pub struct Query {
    pub selectors: Vec<WindowSelector>,
}

impl View for Query {
    type V = Seq<SelectorView>;

    open spec fn view(&self) -> Seq<SelectorView> {
        self.selectors@.map_values(|s: WindowSelector| s@)
    }
}

impl Clone for WindowSelector {
    fn clone(&self) -> (r: Self)
        ensures
            r@ == self@,
    {
        WindowSelector { field: self.field, value: self.value.clone(), exact: self.exact }
    }
}

impl Clone for Query {
    fn clone(&self) -> (r: Self)
        ensures
            r@ == self@,
    {
        let mut selectors: Vec<WindowSelector> = Vec::new();
        let mut i: usize = 0;
        while i < self.selectors.len()
            invariant
                i <= self.selectors.len(),
                selectors.len() == i,
                forall|k: int| 0 <= k < i ==> (#[trigger] selectors@[k])@ == self@[k],
            decreases self.selectors.len() - i,
        {
            selectors.push(self.selectors[i].clone());
            i = i + 1;
        }
        let r: Query = Query { selectors };
        assert(r@ =~= self@);
        r
    }
}

impl WindowSelectorField {
    /// The name of the field in queries.
    pub open spec fn name(self) -> Seq<char> {
        match self {
            WindowSelectorField::AppId => "app_id"@,
            WindowSelectorField::Title => "title"@,
            WindowSelectorField::Identifier => "identifier"@,
            WindowSelectorField::Any => "window"@,
            WindowSelectorField::Active(_) => "active"@,
        }
    }

    /// The name of the field in queries.
    pub fn label(self) -> (r: &'static str)
        ensures
            r@ == self.name(),
    {
        match self {
            WindowSelectorField::AppId => "app_id",
            WindowSelectorField::Title => "title",
            WindowSelectorField::Identifier => "identifier",
            WindowSelectorField::Any => "window",
            WindowSelectorField::Active(_) => "active",
        }
    }
}

impl SelectorView {
    /// Does the text answer the selector? An exact selector wants the text
    /// itself, any other wants its value within the text, case aside.
    pub open spec fn accepts(self, haystack: Seq<char>) -> bool {
        if self.exact {
            haystack == self.value
        } else {
            text::contains_text(text::lower_text(haystack), text::lower_text(self.value))
        }
    }

    /// Does the window answer the selector?
    pub open spec fn selects(self, window: WindowView) -> bool {
        match self.field {
            WindowSelectorField::AppId => self.accepts(window.app_id),
            WindowSelectorField::Title => self.accepts(window.title),
            WindowSelectorField::Identifier => self.accepts(window.identifier),
            WindowSelectorField::Any => {
                ||| self.accepts(window.app_id)
                ||| self.accepts(window.title)
                ||| self.accepts(window.identifier)
            },
            WindowSelectorField::Active(wanted) => window.active == wanted,
        }
    }

    /// The selector as a predicate.
    pub open spec fn text(self) -> Seq<char> {
        self.field.name() + "="@ + self.value
    }
}

/// Does the window answer every selector of the query?
pub open spec fn query_selects(query: Seq<SelectorView>, window: WindowView) -> bool {
    forall|i: int| 0 <= i < query.len() ==> (#[trigger] query[i]).selects(window)
}

/// The query as a text.
pub open spec fn query_text(query: Seq<SelectorView>) -> Seq<char> {
    text::join_text(query.map_values(|s: SelectorView| s.text()), " and "@)
}

/// A selector on one field, case aside.
pub open spec fn plain_selector(field: WindowSelectorField, value: Seq<char>) -> SelectorView {
    SelectorView { field, value, exact: false }
}

/// How a flag is written in a query.
pub open spec fn flag_text(flag: bool) -> Seq<char> {
    if flag {
        "true"@
    } else {
        "false"@
    }
}

/// The selector of the windows that have the focus, or of those that do not.
pub open spec fn active_selector(wanted: bool) -> SelectorView {
    plain_selector(WindowSelectorField::Active(wanted), flag_text(wanted))
}

/// The selector that a predicate `field=value` stands for.
pub open spec fn read_field_predicate(
    predicate: Seq<char>,
    field: Seq<char>,
    value: Seq<char>,
) -> Result<SelectorView, ErrorView> {
    if value.len() == 0 {
        Err(Problem::EmptyValue { predicate })
    } else if text::has_white_space(value) {
        Err(Problem::SpaceInValue { value })
    } else if field == "app_id"@ {
        Ok(plain_selector(WindowSelectorField::AppId, value))
    } else if field == "title"@ {
        Ok(plain_selector(WindowSelectorField::Title, value))
    } else if field == "identifier"@ {
        Ok(plain_selector(WindowSelectorField::Identifier, value))
    } else if field == "active"@ {
        if value == "true"@ || value == "false"@ {
            Ok(active_selector(value == "true"@))
        } else {
            Err(Problem::BadActiveValue { value })
        }
    } else {
        Err(Problem::UnknownField { field })
    }
}

/// The selector that a predicate stands for. A predicate without `=` is the
/// value of an `app_id` predicate.
pub open spec fn read_predicate(predicate: Seq<char>) -> Result<SelectorView, ErrorView> {
    match text::find_from(predicate, seq!['='], 0) {
        Some(i) => read_field_predicate(
            predicate,
            text::trimmed(predicate.take(i)),
            text::trimmed(predicate.skip(i + 1)),
        ),
        None => if text::has_white_space(predicate) {
            Err(Problem::SpaceInValue { value: predicate })
        } else {
            Ok(plain_selector(WindowSelectorField::AppId, predicate))
        },
    }
}

/// The selectors of the pieces of a query, blank pieces left out; the first
/// predicate that is no good decides the error.
pub open spec fn read_pieces(pieces: Seq<Seq<char>>) -> Result<Seq<SelectorView>, ErrorView>
    decreases pieces.len(),
{
    if pieces.len() == 0 {
        Ok(Seq::empty())
    } else {
        let piece = text::trimmed(pieces[0]);
        if piece.len() == 0 {
            read_pieces(pieces.drop_first())
        } else {
            match read_predicate(piece) {
                Err(e) => Err(e),
                Ok(s) => behind(seq![s], read_pieces(pieces.drop_first())),
            }
        }
    }
}

/// What comes of a list, with `before` put in front of it.
pub open spec fn behind(
    before: Seq<SelectorView>,
    rest: Result<Seq<SelectorView>, ErrorView>,
) -> Result<Seq<SelectorView>, ErrorView> {
    match rest {
        Ok(list) => Ok(before + list),
        Err(e) => Err(e),
    }
}

/// The selectors of a query.
pub open spec fn read_query(raw: Seq<char>) -> Result<Seq<SelectorView>, ErrorView> {
    let body = text::trimmed(raw);
    if body.len() == 0 {
        Err(Problem::EmptyQuery)
    } else {
        match read_pieces(text::split_text(body, " and "@)) {
            Ok(list) => if list.len() == 0 {
                Err(Problem::EmptyQuery)
            } else {
                Ok(list)
            },
            Err(e) => Err(e),
        }
    }
}

/// A query that wants the texts themselves in place of texts that hold them.
pub open spec fn exact_query(query: Seq<SelectorView>) -> Seq<SelectorView> {
    query.map_values(
        |s: SelectorView| SelectorView { field: s.field, value: s.value, exact: true },
    )
}

impl Query {
    /// Parse a query string like `app_id=firefox and title=Main`.
    ///
    /// Grammar:
    ///   query = predicate (" and " predicate)*
    ///   predicate = field "=" value
    ///   field = "app_id" | "title" | "identifier" | "active"
    ///   value = any non-whitespace token
    ///
    /// A predicate without `=` is the value of an `app_id` predicate.
    pub fn parse(raw: &str) -> (r: Result<Self, WmError>)
        ensures
            match r {
                Ok(q) => read_query(raw@) == Ok::<Seq<SelectorView>, ErrorView>(q@),
                Err(e) => read_query(raw@) == Err::<Seq<SelectorView>, ErrorView>(e@),
            },
    {
        let body: &str = text::trim(raw);
        if body.is_empty() {
            return Err(Problem::EmptyQuery);
        }
        proof {
            reveal_strlit(" and ");
        }
        let parts: Vec<&str> = text::split(body, " and ");
        let ghost pieces = text::split_text(body@, " and "@);
        let mut selectors: Vec<WindowSelector> = Vec::new();
        let mut i: usize = 0;
        proof {
            let none = selectors@.map_values(|s: WindowSelector| s@);
            assert(none =~= Seq::empty());
            assert(pieces.skip(0) =~= pieces);
            assert(behind(none, read_pieces(pieces)) =~= read_pieces(pieces)) by {
                match read_pieces(pieces) {
                    Ok(list) => {
                        assert(none + list =~= list);
                    },
                    Err(_) => {},
                }
            }
        }
        while i < parts.len()
            invariant
                text::str_views(parts@) == pieces,
                i <= parts.len(),
                behind(
                    selectors@.map_values(|s: WindowSelector| s@),
                    read_pieces(pieces.skip(i as int)),
                ) == read_pieces(pieces),
                pieces == text::split_text(text::trimmed(raw@), " and "@),
                text::trimmed(raw@).len() > 0,
            decreases parts.len() - i,
        {
            let ghost rest = pieces.skip(i as int);
            let ghost done = selectors@.map_values(|s: WindowSelector| s@);
            assert(rest[0] == parts@[i as int]@);
            assert(rest.drop_first() =~= pieces.skip(i + 1));
            let piece: &str = text::trim(parts[i]);
            if !piece.is_empty() {
                match Self::parse_predicate(piece) {
                    Ok(s) => {
                        let ghost added = s@;
                        selectors.push(s);
                        proof {
                            let now = selectors@.map_values(|s: WindowSelector| s@);
                            assert(now =~= done.push(added));
                            match read_pieces(rest.drop_first()) {
                                Ok(list) => {
                                    assert(done + (seq![added] + list) =~= now + list);
                                },
                                Err(_) => {},
                            }
                        }
                    },
                    Err(e) => {
                        return Err(e);
                    },
                }
            }
            i = i + 1;
        }
        let ghost all = selectors@.map_values(|s: WindowSelector| s@);
        proof {
            assert(pieces.skip(i as int) =~= Seq::empty());
            assert(all + Seq::<SelectorView>::empty() =~= all);
        }
        if selectors.len() == 0 {
            return Err(Problem::EmptyQuery);
        }
        Ok(Query { selectors })
    }

    /// Parse one predicate.
    pub fn parse_predicate(raw: &str) -> (r: Result<WindowSelector, WmError>)
        ensures
            match r {
                Ok(s) => read_predicate(raw@) == Ok::<SelectorView, ErrorView>(s@),
                Err(e) => read_predicate(raw@) == Err::<SelectorView, ErrorView>(e@),
            },
    {
        match text::find_char(raw, '=') {
            Some(eq) => {
                let end: usize = raw.unicode_len();
                let field_name: &str = text::trim(raw.substring_char(0, eq));
                let value: &str = text::trim(raw.substring_char(eq + 1, end));
                proof {
                    assert(raw@.subrange(0, eq as int) =~= raw@.take(eq as int));
                    assert(raw@.subrange(eq + 1, end as int) =~= raw@.skip(eq + 1));
                    reveal_strlit("app_id");
                    reveal_strlit("title");
                    reveal_strlit("identifier");
                    reveal_strlit("active");
                    reveal_strlit("true");
                    reveal_strlit("false");
                }
                if value.is_empty() {
                    return Err(Problem::EmptyValue { predicate: raw.to_owned() });
                }
                if text::holds_white_space(value) {
                    return Err(Problem::SpaceInValue { value: value.to_owned() });
                }
                let field: WindowSelectorField = if text::same_text(field_name, "app_id") {
                    WindowSelectorField::AppId
                } else if text::same_text(field_name, "title") {
                    WindowSelectorField::Title
                } else if text::same_text(field_name, "identifier") {
                    WindowSelectorField::Identifier
                } else if text::same_text(field_name, "active") {
                    if text::same_text(value, "true") {
                        WindowSelectorField::Active(true)
                    } else if text::same_text(value, "false") {
                        WindowSelectorField::Active(false)
                    } else {
                        return Err(Problem::BadActiveValue { value: value.to_owned() });
                    }
                } else {
                    return Err(Problem::UnknownField { field: field_name.to_owned() });
                };
                Ok(WindowSelector { field, value: value.to_owned(), exact: false })
            },
            None => {
                if text::holds_white_space(raw) {
                    return Err(Problem::SpaceInValue { value: raw.to_owned() });
                }
                Ok(
                    WindowSelector {
                        field: WindowSelectorField::AppId,
                        value: raw.to_owned(),
                        exact: false,
                    },
                )
            },
        }
    }

    /// Does the window answer every selector of the query?
    pub fn matches(&self, window: &WindowRecord) -> (r: bool)
        ensures
            r == query_selects(self@, window@),
    {
        let mut i: usize = 0;
        while i < self.selectors.len()
            invariant
                i <= self.selectors.len(),
                forall|j: int| 0 <= j < i ==> (#[trigger] self@[j]).selects(window@),
            decreases self.selectors.len() - i,
        {
            assert(self@[i as int] == self.selectors@[i as int]@);
            if !self.selectors[i].matches(window) {
                return false;
            }
            i = i + 1;
        }
        true
    }

    /// The query as a text.
    pub fn to_string(&self) -> (r: String)
        ensures
            r@ == query_text(self@),
    {
        let mut parts: Vec<String> = Vec::new();
        let mut i: usize = 0;
        while i < self.selectors.len()
            invariant
                i <= self.selectors.len(),
                parts.len() == i,
                forall|j: int| 0 <= j < i ==> (#[trigger] parts@[j])@ == self@[j].text(),
            decreases self.selectors.len() - i,
        {
            parts.push(self.selectors[i].to_string());
            i = i + 1;
        }
        assert(text::views(parts@) =~= self@.map_values(|s: SelectorView| s.text()));
        text::join(&parts, " and ")
    }

    /// The query that wants the texts themselves in place of texts that hold
    /// them.
    pub fn exact(self) -> (r: Query)
        ensures
            r@ == exact_query(self@),
    {
        let mut selectors: Vec<WindowSelector> = Vec::new();
        let mut i: usize = 0;
        while i < self.selectors.len()
            invariant
                i <= self.selectors.len(),
                selectors.len() == i,
                forall|j: int| 0 <= j < i ==> (#[trigger] selectors@[j])@ == exact_query(self@)[j],
            decreases self.selectors.len() - i,
        {
            let s: &WindowSelector = &self.selectors[i];
            selectors.push(
                WindowSelector { field: s.field, value: s.value.clone(), exact: true },
            );
            i = i + 1;
        }
        let r: Query = Query { selectors };
        assert(r@ =~= exact_query(self@));
        r
    }
}

impl WindowSelector {
    /// Does the window answer the selector?
    pub fn matches(&self, window: &WindowRecord) -> (r: bool)
        ensures
            r == self@.selects(window@),
    {
        match self.field {
            WindowSelectorField::AppId => self.matches_field(window.app_id.as_str()),
            WindowSelectorField::Title => self.matches_field(window.title.as_str()),
            WindowSelectorField::Identifier => self.matches_field(window.identifier.as_str()),
            WindowSelectorField::Any => {
                self.matches_field(window.app_id.as_str()) || self.matches_field(
                    window.title.as_str(),
                ) || self.matches_field(window.identifier.as_str())
            },
            WindowSelectorField::Active(wanted) => window.active == wanted,
        }
    }

    /// Does the text answer the selector?
    pub fn matches_field(&self, haystack: &str) -> (r: bool)
        ensures
            r == self@.accepts(haystack@),
    {
        if self.exact {
            text::same_text(haystack, self.value.as_str())
        } else {
            text::contains_ignoring_case(haystack, self.value.as_str())
        }
    }

    /// The selector as a predicate.
    pub fn to_string(&self) -> (r: String)
        ensures
            r@ == self@.text(),
    {
        let mut out: String = self.field.label().to_owned();
        out.append("=");
        out.append(self.value.as_str());
        out
    }
}

/// Looking for a value within a text does not depend on case, neither of the
/// value nor of the text.
pub proof fn law_case_does_not_matter(
    field: WindowSelectorField,
    value: Seq<char>,
    other_value: Seq<char>,
    haystack: Seq<char>,
    other_haystack: Seq<char>,
)
    requires
        text::lower_text(value) == text::lower_text(other_value),
        text::lower_text(haystack) == text::lower_text(other_haystack),
    ensures
        plain_selector(field, value).accepts(haystack) == plain_selector(
            field,
            other_value,
        ).accepts(other_haystack),
{
}

/// Among ASCII texts a value is found exactly where it stands in the text with
/// the letters of both in lower case.
pub proof fn law_ascii_texts(field: WindowSelectorField, value: Seq<char>, haystack: Seq<char>)
    requires
        vstd::utf8::is_ascii_chars(value),
        vstd::utf8::is_ascii_chars(haystack),
    ensures
        plain_selector(field, value).accepts(haystack) == text::contains_text(
            text::lowered(haystack),
            text::lowered(value),
        ),
{
    text::lemma_lower_ascii(value);
    text::lemma_lower_ascii(haystack);
}

/// A value is found in every text that it is a part of.
pub proof fn law_part_is_found(
    field: WindowSelectorField,
    before: Seq<char>,
    value: Seq<char>,
    behind: Seq<char>,
)
    ensures
        plain_selector(field, value).accepts(before + value + behind),
{
    let whole = text::lower_text(before + value + behind);
    let part = text::lower_text(value);
    let n = text::lower_text(before).len() as int;
    text::lemma_lower_text(before + value, behind);
    text::lemma_lower_text(before, value);
    assert(whole.subrange(n, n + part.len()) =~= part);
    assert(text::occurs_at(whole, part, n));
}

/// A window answers two queries taken together exactly when it answers both.
pub proof fn law_all_selectors_count(
    first: Seq<SelectorView>,
    second: Seq<SelectorView>,
    window: WindowView,
)
    ensures
        query_selects(first + second, window) <==> query_selects(first, window) && query_selects(
            second,
            window,
        ),
{
    let both = first + second;
    let n = first.len() as int;
    if query_selects(both, window) {
        assert forall|i: int| 0 <= i < first.len() implies (#[trigger] first[i]).selects(window) by {
            assert(both[i] == first[i]);
        }
        assert forall|i: int| 0 <= i < second.len() implies (#[trigger] second[i]).selects(
            window,
        ) by {
            assert(both[n + i] == second[i]);
        }
    }
}

/// A window that answers the exact form of a query answers the query.
pub proof fn law_exact_is_narrower(query: Seq<SelectorView>, window: WindowView)
    requires
        query_selects(exact_query(query), window),
    ensures
        query_selects(query, window),
{
    assert forall|i: int| 0 <= i < query.len() implies (#[trigger] query[i]).selects(window) by {
        let narrow = exact_query(query)[i];
        assert(narrow.selects(window));
        assert forall|h: Seq<char>| #[trigger] narrow.accepts(h) implies query[i].accepts(h) by {
            if narrow.exact && !query[i].exact {
                let low = text::lower_text(h);
                assert(low.subrange(0, low.len() as int) =~= low);
                assert(text::occurs_at(low, text::lower_text(query[i].value), 0));
            }
        }
    }
}

/// White space around a query does not count.
pub proof fn law_outer_white_space(raw: Seq<char>)
    ensures
        read_query(text::trimmed(raw)) == read_query(raw),
{
    text::lemma_trimmed(raw);
}

/// Pieces that are no good are never told as an empty query.
proof fn lemma_pieces_not_empty_query(pieces: Seq<Seq<char>>)
    ensures
        read_pieces(pieces) != Err::<Seq<SelectorView>, ErrorView>(Problem::EmptyQuery),
    decreases pieces.len(),
{
    if pieces.len() > 0 {
        lemma_pieces_not_empty_query(pieces.drop_first());
    }
}

/// A query is empty exactly when it is white space alone.
pub proof fn law_empty_query(raw: Seq<char>)
    ensures
        read_query(raw) == Err::<Seq<SelectorView>, ErrorView>(Problem::EmptyQuery)
            <==> text::trimmed(raw).len() == 0,
{
    let body = text::trimmed(raw);
    if body.len() > 0 {
        reveal_strlit(" and ");
        let sep = " and "@;
        let pieces = text::split_text(body, sep);
        lemma_pieces_not_empty_query(pieces);
        text::lemma_trimmed(raw);
        text::lemma_find_from(body, sep, 0);
        match text::find_from(body, sep, 0) {
            Some(i) => {
                if i == 0 {
                    assert(body.subrange(0, sep.len() as int)[0] == sep[0]);
                }
                assert(pieces[0] == body.take(i));
                assert(pieces[0][0] == body[0]);
            },
            None => {},
        }
        text::lemma_trim_keeps(pieces[0], 0);
    }
}

/// Is the selector one that a predicate `field=value` says?
pub open spec fn is_sayable(selector: SelectorView) -> bool {
    &&& !selector.exact
    &&& selector.value.len() > 0
    &&& !text::has_white_space(selector.value)
    &&& match selector.field {
        WindowSelectorField::Any => false,
        WindowSelectorField::Active(wanted) => selector.value == flag_text(wanted),
        _ => true,
    }
}

/// The text of a sayable selector starts with the name of its field, and has
/// no white space.
proof fn lemma_predicate_text(selector: SelectorView)
    requires
        is_sayable(selector),
    ensures
        !text::has_white_space(selector.text()),
        selector.text() == selector.field.name() + seq!['='] + selector.value,
        0 < selector.field.name().len() <= 10,
        !text::has_white_space(selector.field.name()),
        !selector.field.name().contains('='),
{
    reveal_strlit("app_id");
    reveal_strlit("title");
    reveal_strlit("identifier");
    reveal_strlit("active");
    reveal_strlit("=");
    let name = selector.field.name();
    let value = selector.value;
    let whole = selector.text();
    let n = name.len() as int;
    assert("="@ =~= seq!['=']);
    assert forall|i: int| 0 <= i < whole.len() implies !text::is_white_space(#[trigger] whole[i]) by {
        if i < n {
            assert(whole[i] == name[i]);
        } else if i > n {
            assert(whole[i] == value[i - n - 1]);
        }
    }
}

/// The text of a sayable selector is read back as that selector.
proof fn lemma_predicate_read_back(selector: SelectorView)
    requires
        is_sayable(selector),
    ensures
        read_predicate(selector.text()) == Ok::<SelectorView, ErrorView>(selector),
        text::trimmed(selector.text()) == selector.text(),
        selector.text().len() > 0,
{
    lemma_predicate_text(selector);
    let name = selector.field.name();
    let value = selector.value;
    let whole = selector.text();
    let n = name.len() as int;
    assert(whole.subrange(n, n + 1) =~= seq!['=']);
    assert forall|j: int| 0 <= j < n implies !#[trigger] text::occurs_at(whole, seq!['='], j) by {
        assert(whole.subrange(j, j + 1)[0] == whole[j]);
        assert(whole[j] == name[j]);
        assert(name.contains(name[j]));
    }
    text::lemma_find_is(whole, seq!['='], 0, n);
    assert(whole.take(n) =~= name);
    assert(whole.skip(n + 1) =~= value);
    text::lemma_trim_plain(name);
    text::lemma_trim_plain(value);
    text::lemma_trim_plain(whole);
    reveal_strlit("app_id");
    reveal_strlit("title");
    reveal_strlit("identifier");
    reveal_strlit("active");
    reveal_strlit("true");
    reveal_strlit("false");
    assert("app_id"@[1] == 'p' && "title"@[1] == 'i' && "identifier"@[1] == 'd' && "active"@[1]
        == 'c');
    assert("true"@[0] == 't' && "false"@[0] == 'f');
}

/// In the text of a sayable selector no ` and ` is met before its end, also
/// where one follows.
proof fn lemma_predicate_has_no_and(selector: SelectorView)
    requires
        is_sayable(selector),
    ensures
        text::find_from(selector.text(), " and "@, 0) is None,
        text::find_from(selector.text() + " and "@, " and "@, 0) == Some(
            selector.text().len() as int,
        ),
{
    reveal_strlit(" and ");
    let sep = " and "@;
    let whole = selector.text();
    let longer = whole + sep;
    let m = whole.len() as int;
    lemma_predicate_text(selector);
    assert forall|j: int| 0 <= j implies !#[trigger] text::occurs_at(whole, sep, j) by {
        if text::occurs_at(whole, sep, j) {
            assert(whole.subrange(j, j + 5)[0] == whole[j]);
            assert(text::is_white_space(whole[j]));
        }
    }
    text::lemma_find_from(whole, sep, 0);
    assert(longer.subrange(m, m + 5) =~= sep);
    assert forall|j: int| 0 <= j < m implies !#[trigger] text::occurs_at(longer, sep, j) by {
        if text::occurs_at(longer, sep, j) {
            assert(longer.subrange(j, j + 5)[0] == longer[j]);
            assert(longer[j] == whole[j]);
            assert(text::is_white_space(whole[j]));
        }
    }
    text::lemma_find_is(longer, sep, 0, m);
}

/// The pieces of the text of sayable selectors are read back as those
/// selectors.
proof fn lemma_pieces_read_back(query: Seq<SelectorView>)
    requires
        forall|i: int| 0 <= i < query.len() ==> is_sayable(#[trigger] query[i]),
    ensures
        read_pieces(query.map_values(|s: SelectorView| s.text())) == Ok::<
            Seq<SelectorView>,
            ErrorView,
        >(query),
    decreases query.len(),
{
    let pieces = query.map_values(|s: SelectorView| s.text());
    if query.len() == 0 {
        assert(query =~= Seq::empty());
    } else {
        let rest = query.drop_first();
        assert forall|i: int| 0 <= i < rest.len() implies is_sayable(#[trigger] rest[i]) by {
            assert(rest[i] == query[i + 1]);
        }
        lemma_pieces_read_back(rest);
        assert(pieces.drop_first() =~= rest.map_values(|s: SelectorView| s.text()));
        assert(is_sayable(query[0]));
        lemma_predicate_read_back(query[0]);
        assert(pieces[0] == query[0].text());
        assert(seq![query[0]] + rest =~= query);
    }
}

/// A query of sayable predicates, once told as a text, is read back as it was.
pub proof fn law_query_read_back(query: Seq<SelectorView>)
    requires
        query.len() > 0,
        forall|i: int| 0 <= i < query.len() ==> is_sayable(#[trigger] query[i]),
    ensures
        read_query(query_text(query)) == Ok::<Seq<SelectorView>, ErrorView>(query),
{
    reveal_strlit(" and ");
    let sep = " and "@;
    let parts = query.map_values(|s: SelectorView| s.text());
    let n = query.len() as int;
    assert forall|k: int| 0 <= k < parts.len() - 1 implies text::find_from(
        #[trigger] parts[k] + sep,
        sep,
        0,
    ) == Some(parts[k].len() as int) by {
        assert(is_sayable(query[k]));
        lemma_predicate_has_no_and(query[k]);
    }
    assert(is_sayable(query[n - 1]));
    lemma_predicate_has_no_and(query[n - 1]);
    assert(parts.last() == query[n - 1].text());
    text::lemma_split_of_join(parts, sep);
    lemma_pieces_read_back(query);
    let body = query_text(query);
    assert forall|i: int| 0 <= i < parts.len() implies (#[trigger] parts[i]).len() > 0
        && text::trimmed(parts[i]) == parts[i] by {
        assert(is_sayable(query[i]));
        lemma_predicate_read_back(query[i]);
    }
    text::lemma_join_ends(parts, sep);
    text::lemma_trimmed(parts[0]);
    text::lemma_trimmed(parts.last());
    text::lemma_trim_plain(body);
}

/// Every selector that is read from pieces is sayable.
proof fn lemma_read_is_sayable(pieces: Seq<Seq<char>>)
    ensures
        read_pieces(pieces) matches Ok(list) ==> forall|i: int|
            0 <= i < list.len() ==> is_sayable(#[trigger] list[i]),
    decreases pieces.len(),
{
    reveal_strlit("true");
    reveal_strlit("false");
    if pieces.len() > 0 {
        lemma_read_is_sayable(pieces.drop_first());
    }
}

/// Whatever is read, once told as a text, is read back as it was.
pub proof fn law_read_query_read_back(raw: Seq<char>)
    requires
        read_query(raw) is Ok,
    ensures
        read_query(query_text(read_query(raw)->Ok_0)) == read_query(raw),
{
    lemma_read_is_sayable(text::split_text(text::trimmed(raw), " and "@));
    law_query_read_back(read_query(raw)->Ok_0);
}

/// The text of a query of one selector is the predicate.
proof fn lemma_one_selector(selector: SelectorView)
    requires
        is_sayable(selector),
    ensures
        read_query(selector.text()) == Ok::<Seq<SelectorView>, ErrorView>(seq![selector]),
{
    let query = seq![selector];
    assert(query.map_values(|s: SelectorView| s.text()) =~= seq![selector.text()]);
    assert(query_text(query) == selector.text());
    law_query_read_back(query);
}

/// `active=true` chooses the windows that have the focus, `active=false`
/// those that do not.
pub proof fn law_active_is_the_focus(wanted: bool, window: WindowView)
    ensures
        read_query("active="@ + flag_text(wanted)) == Ok::<Seq<SelectorView>, ErrorView>(
            seq![active_selector(wanted)],
        ),
        query_selects(seq![active_selector(wanted)], window) == (window.active == wanted),
{
    let selector = active_selector(wanted);
    reveal_strlit("active=");
    reveal_strlit("active");
    reveal_strlit("=");
    reveal_strlit("true");
    reveal_strlit("false");
    assert("active="@ + flag_text(wanted) =~= selector.text());
    lemma_one_selector(selector);
    assert(seq![selector][0] == selector);
}

/// A token without `=` says the same as a predicate on the app_id with that
/// value.
pub proof fn law_bare_token(token: Seq<char>)
    requires
        token.len() > 0,
        !text::has_white_space(token),
        text::find_from(token, seq!['='], 0) is None,
    ensures
        read_query(token) == Ok::<Seq<SelectorView>, ErrorView>(
            seq![plain_selector(WindowSelectorField::AppId, token)],
        ),
        read_query("app_id="@ + token) == read_query(token),
{
    let selector = plain_selector(WindowSelectorField::AppId, token);
    let query = seq![selector];
    reveal_strlit("app_id=");
    reveal_strlit("app_id");
    reveal_strlit("=");
    reveal_strlit(" and ");
    assert("app_id="@ + token =~= selector.text());
    lemma_one_selector(selector);
    text::lemma_trim_plain(token);
    text::lemma_find_from(token, " and "@, 0);
    assert forall|j: int| 0 <= j implies !#[trigger] text::occurs_at(token, " and "@, j) by {
        if text::occurs_at(token, " and "@, j) {
            assert(token.subrange(j, j + 5)[0] == token[j]);
            assert(text::is_white_space(token[j]));
        }
    }
    assert(text::split_text(token, " and "@) =~= seq![token]);
    let pieces = seq![token];
    assert(pieces.drop_first() =~= Seq::empty());
    assert(read_pieces(pieces.drop_first()) == Ok::<Seq<SelectorView>, ErrorView>(Seq::empty()));
    assert(seq![selector] + Seq::<SelectorView>::empty() =~= query);
    assert(read_predicate(token) == Ok::<SelectorView, ErrorView>(selector));
    assert(read_pieces(pieces) == Ok::<Seq<SelectorView>, ErrorView>(query));
}

/// A predicate whose value has white space in it is refused.
pub proof fn law_no_white_space_in_values(field: WindowSelectorField, value: Seq<char>)
    requires
        !(field is Any),
        text::has_white_space(value),
        text::trimmed(value) == value,
    ensures
        read_predicate(field.name() + "="@ + value) == Err::<SelectorView, ErrorView>(
            Problem::SpaceInValue { value },
        ),
{
    reveal_strlit("app_id");
    reveal_strlit("title");
    reveal_strlit("identifier");
    reveal_strlit("active");
    reveal_strlit("=");
    let name = field.name();
    let whole = name + "="@ + value;
    let n = name.len() as int;
    assert(whole.subrange(n, n + 1) =~= seq!['=']);
    assert forall|j: int| 0 <= j < n implies !#[trigger] text::occurs_at(whole, seq!['='], j) by {
        assert(whole.subrange(j, j + 1)[0] == whole[j]);
        assert(whole[j] == name[j]);
    }
    text::lemma_find_is(whole, seq!['='], 0, n);
    assert(whole.skip(n + 1) =~= value);
}

/// A query that is read asks for no exact match.
pub proof fn lemma_read_is_plain(raw: Seq<char>)
    ensures
        read_query(raw) matches Ok(list) ==> forall|i: int|
            0 <= i < list.len() ==> !(#[trigger] list[i]).exact,
{
    let pieces = text::split_text(text::trimmed(raw), " and "@);
    lemma_read_is_sayable(pieces);
    if let Ok(list) = read_query(raw) {
        assert forall|i: int| 0 <= i < list.len() implies !(#[trigger] list[i]).exact by {
            assert(is_sayable(list[i]));
        }
    }
}

/// A selector looks at its own field and at no other: at the app_id, the title
/// or the identifier, or at any of the three, or at the focus.
pub proof fn law_selector_looks_at_its_field(
    value: Seq<char>,
    exact: bool,
    wanted: bool,
    window: WindowView,
)
    ensures
        ({
            let on = |field: WindowSelectorField| SelectorView { field, value, exact };
            let holds = |s: Seq<char>|
                if exact {
                    s == value
                } else {
                    text::contains_text(text::lower_text(s), text::lower_text(value))
                };
            &&& on(WindowSelectorField::AppId).selects(window) <==> holds(window.app_id)
            &&& on(WindowSelectorField::Title).selects(window) <==> holds(window.title)
            &&& on(WindowSelectorField::Identifier).selects(window) <==> holds(window.identifier)
            &&& on(WindowSelectorField::Any).selects(window) <==> holds(window.app_id) || holds(
                window.title,
            ) || holds(window.identifier)
            &&& on(WindowSelectorField::Active(wanted)).selects(window) <==> window.active == wanted
        }),
{
}

/// The exact form of a query has the same selectors, on the same fields and for
/// the same values, and all of them want the text itself.
pub proof fn law_exact_form(query: Seq<SelectorView>, i: int)
    requires
        0 <= i < query.len(),
    ensures
        exact_query(query).len() == query.len(),
        exact_query(query)[i].field == query[i].field,
        exact_query(query)[i].value == query[i].value,
        exact_query(query)[i].exact,
{
}

/// Pieces of a query are read one behind the other: those of two lists come to
/// the selectors of the first and then those of the second, and what is wrong
/// with the first is told before what is wrong with the second.
pub proof fn law_pieces_are_read_in_order(first: Seq<Seq<char>>, second: Seq<Seq<char>>)
    ensures
        match (read_pieces(first), read_pieces(second)) {
            (Err(e), _) => read_pieces(first + second) == Err::<Seq<SelectorView>, ErrorView>(e),
            (Ok(_), Err(e)) => read_pieces(first + second) == Err::<Seq<SelectorView>, ErrorView>(
                e,
            ),
            (Ok(a), Ok(b)) => read_pieces(first + second) == Ok::<Seq<SelectorView>, ErrorView>(
                a + b,
            ),
        },
    decreases first.len(),
{
    let both = first + second;
    if first.len() == 0 {
        assert(both =~= second);
        if let Ok(b) = read_pieces(second) {
            assert(Seq::<SelectorView>::empty() + b =~= b);
        }
    } else {
        law_pieces_are_read_in_order(first.drop_first(), second);
        assert(both.drop_first() =~= first.drop_first() + second);
        let piece = text::trimmed(first[0]);
        if piece.len() > 0 {
            if let Ok(s) = read_predicate(piece) {
                if let (Ok(a), Ok(b)) = (read_pieces(first.drop_first()), read_pieces(second)) {
                    assert(seq![s] + (a + b) =~= seq![s] + a + b);
                }
            }
        }
    }
}

/// A blank piece says nothing, and any other is one predicate.
pub proof fn law_one_piece(piece: Seq<char>)
    ensures
        text::trimmed(piece).len() == 0 ==> read_pieces(seq![piece]) == Ok::<
            Seq<SelectorView>,
            ErrorView,
        >(Seq::empty()),
        text::trimmed(piece).len() > 0 ==> match read_predicate(text::trimmed(piece)) {
            Ok(s) => read_pieces(seq![piece]) == Ok::<Seq<SelectorView>, ErrorView>(seq![s]),
            Err(e) => read_pieces(seq![piece]) == Err::<Seq<SelectorView>, ErrorView>(e),
        },
{
    let pieces = seq![piece];
    assert(pieces.drop_first() =~= Seq::empty());
    assert(read_pieces(pieces.drop_first()) == Ok::<Seq<SelectorView>, ErrorView>(Seq::empty()));
    if let Ok(s) = read_predicate(text::trimmed(piece)) {
        assert(seq![s] + Seq::<SelectorView>::empty() =~= seq![s]);
    }
}

/// A predicate `field=value` is on the field that it names, for the value behind
/// the first `=`; white space around the two does not count. It is refused
/// where the value is missing or has white space in it, where the field is
/// unknown, and where the focus is wanted to be anything but true or false.
pub proof fn law_predicate_is_read(field: Seq<char>, value: Seq<char>)
    requires
        !field.contains('='),
    ensures
        ({
            let predicate = field + seq!['='] + value;
            let name = text::trimmed(field);
            let wanted = text::trimmed(value);
            match read_predicate(predicate) {
                Ok(selector) => {
                    &&& selector.value == wanted
                    &&& wanted.len() > 0
                    &&& !text::has_white_space(wanted)
                    &&& !selector.exact
                    &&& selector.field.name() == name
                    &&& selector.field matches WindowSelectorField::Active(flag) ==> wanted
                        == flag_text(flag)
                    &&& !(selector.field is Any)
                },
                Err(Problem::EmptyValue { predicate: told }) => wanted.len() == 0 && told
                    == predicate,
                Err(Problem::SpaceInValue { value: told }) => text::has_white_space(wanted) && told
                    == wanted,
                Err(Problem::BadActiveValue { value: told }) => name == "active"@ && told == wanted
                    && wanted != "true"@ && wanted != "false"@,
                Err(Problem::UnknownField { field: told }) => told == name && name != "app_id"@
                    && name != "title"@ && name != "identifier"@ && name != "active"@,
                Err(_) => false,
            }
        }),
{
    let predicate = field + seq!['='] + value;
    let n = field.len() as int;
    assert(predicate.subrange(n, n + 1) =~= seq!['=']);
    assert forall|j: int| 0 <= j < n implies !#[trigger] text::occurs_at(
        predicate,
        seq!['='],
        j,
    ) by {
        if text::occurs_at(predicate, seq!['='], j) {
            assert(predicate.subrange(j, j + 1)[0] == seq!['='][0]);
            assert(predicate[j] == field[j]);
        }
    }
    text::lemma_find_is(predicate, seq!['='], 0, n);
    assert(predicate.take(n) =~= field);
    assert(predicate.skip(n + 1) =~= value);
    reveal_strlit("true");
    reveal_strlit("false");
}

/// What contracts say of a query they say of each of its selectors, in order.
pub proof fn law_query_is_seen_as_it_is(query: Query, i: int)
    ensures
        query@.len() == query.selectors@.len(),
        0 <= i < query.selectors@.len() ==> {
            &&& query@[i].field == query.selectors@[i].field
            &&& query@[i].value == query.selectors@[i].value@
            &&& query@[i].exact == query.selectors@[i].exact
        },
{
}

/// A query of one selector selects what the selector does, and a query without
/// selectors selects every window.
pub proof fn law_query_of_one_selector(selector: SelectorView, window: WindowView)
    ensures
        query_selects(seq![selector], window) <==> selector.selects(window),
        query_selects(Seq::empty(), window),
{
    let query = seq![selector];
    assert(query[0] == selector);
}

} // verus!
