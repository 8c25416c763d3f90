use cosmic_wmctl::error::Problem;
use cosmic_wmctl::wayland::{Query, WindowRecord, WindowSelector, WindowSelectorField};

fn window(app_id: &str, title: &str, identifier: &str) -> WindowRecord {
    WindowRecord {
        title: title.to_owned(),
        app_id: app_id.to_owned(),
        identifier: identifier.to_owned(),
        output_names: vec![],
        output_handles: vec![],
        workspace_names: vec![],
        cosmic_toplevel: None,
        foreign_id: 1,
        active: false,
    }
}

fn parsed(raw: &str) -> Vec<(WindowSelectorField, String, bool)> {
    let query = Query::parse(raw).expect("valid query");
    query.selectors.into_iter().map(|s| (s.field, s.value, s.exact)).collect()
}

#[test]
fn predicates_are_trimmed_and_blank_ones_left_out() {
    assert_eq!(
        parsed("  app_id = firefox  and   title=Main and identifier=a=b "),
        vec![
            (WindowSelectorField::AppId, "firefox".to_owned(), false),
            (WindowSelectorField::Title, "Main".to_owned(), false),
            (WindowSelectorField::Identifier, "a=b".to_owned(), false),
        ]
    );
    assert_eq!(
        parsed("a and  and b"),
        vec![
            (WindowSelectorField::AppId, "a".to_owned(), false),
            (WindowSelectorField::AppId, "b".to_owned(), false),
        ]
    );
    assert_eq!(parsed("rand and sand").len(), 2);
    assert_eq!(parsed("and"), vec![(WindowSelectorField::AppId, "and".to_owned(), false)]);
}

#[test]
fn active_asks_for_the_focus() {
    assert_eq!(
        parsed("active=true"),
        vec![(WindowSelectorField::Active(true), "true".to_owned(), false)]
    );
    assert_eq!(
        parsed("title=Main and active=false"),
        vec![
            (WindowSelectorField::Title, "Main".to_owned(), false),
            (WindowSelectorField::Active(false), "false".to_owned(), false),
        ]
    );
    let mut w = window("app", "Main", "id");
    let yes = |raw: &str, w: &WindowRecord| Query::parse(raw).unwrap().matches(w);
    assert!(!yes("active=true", &w) && yes("active=false", &w));
    assert!(!yes("title=Main and active=true", &w));
    w.active = true;
    assert!(yes("active=true", &w) && !yes("active=false", &w));
    assert!(yes("title=Main and active=true", &w) && !yes("title=Other and active=true", &w));
    // The focus does not hang on the app_id, nor on how texts are compared.
    w.app_id.clear();
    assert!(yes("active=true", &w) && !yes("active=false", &w));
    assert!(Query::parse("active=true").unwrap().exact().matches(&w));
    assert!(!Query::parse("active=false").unwrap().exact().matches(&w));
}

#[test]
fn values_are_tokens_without_white_space() {
    for (raw, value) in [
        ("title=Main Window", "Main Window"),
        ("title=a\tb and app_id=x", "a\tb"),
        ("fire fox", "fire fox"),
        ("app_id=x and two words", "two words"),
        ("foo=a b", "a b"),
        ("active=true false", "true false"),
        ("identifier=a\u{3000}b", "a\u{3000}b"),
    ] {
        let error = Query::parse(raw).expect_err("white space in a value");
        assert_eq!(error.message(), format!("white space in value '{value}'"), "{raw:?}");
        assert!(matches!(error, Problem::SpaceInValue { .. }));
    }
    assert_eq!(parsed(" title = Main ").len(), 1);
}

#[test]
fn bad_queries_are_told() {
    let message = |raw: &str| Query::parse(raw).expect_err("bad query").message();
    assert_eq!(message(""), "empty window query");
    assert_eq!(message(" \t "), "empty window query");
    assert_eq!(message("title="), "empty value in predicate 'title='");
    assert_eq!(message("title= and x"), "empty value in predicate 'title='");
    assert_eq!(message("active=yes"), "'active' value must be 'true' or 'false', got 'yes'");
    assert_eq!(message("foo=bar"), "unknown field 'foo': use app_id, title, identifier, or active");
    assert_eq!(message("=bar"), "unknown field '': use app_id, title, identifier, or active");
    // The value is looked at before the field, and the first bad predicate decides.
    assert_eq!(message("foo="), "empty value in predicate 'foo='");
    assert_eq!(message("a and foo=1 and title="), "unknown field 'foo': use app_id, title, identifier, or active");
    assert!(matches!(Query::parse(""), Err(Problem::EmptyQuery)));
    assert!(matches!(Query::parse("title="), Err(Problem::EmptyValue { .. })));
    assert!(matches!(Query::parse("active=1"), Err(Problem::BadActiveValue { .. })));
    assert!(matches!(Query::parse("x=1"), Err(Problem::UnknownField { .. })));
}

#[test]
fn all_selectors_must_match() {
    let w = window("org.mozilla.firefox", "Main - Firefox", "id7");
    let yes = |raw: &str| Query::parse(raw).unwrap().matches(&w);
    assert!(yes("FIRE"));
    assert!(yes("app_id=mozilla and title=main and identifier=ID7"));
    assert!(!yes("app_id=mozilla and title=other"));
}

#[test]
fn case_is_ignored_beyond_ascii() {
    let selector = |value: &str, exact: bool| WindowSelector {
        field: WindowSelectorField::Title,
        value: value.to_owned(),
        exact,
    };
    assert!(selector("é", false).matches_field("CAFÉ"));
    assert!(selector("CAFÉ", false).matches_field("le café"));
    assert!(selector("ΑΣ", false).matches_field("ΑΣΑ"));
    assert!(selector("straße", false).matches_field("STRAßE"));
    assert!(!selector("é", false).matches_field("CAFE"));
    assert!(!selector("é", true).matches_field("É"));
    assert!(selector("É", true).matches_field("É"));
}

#[test]
fn any_field_looks_everywhere() {
    let selector = |value: &str, exact: bool| WindowSelector {
        field: WindowSelectorField::Any,
        value: value.to_owned(),
        exact,
    };
    let w = window("app", "Title", "ident");
    for value in ["APP", "title", "den"] {
        assert!(selector(value, false).matches(&w));
    }
    assert!(!selector("none", false).matches(&w));
    assert!(selector("Title", true).matches(&w));
    assert!(!selector("title", true).matches(&w));
    assert_eq!(selector("v", false).to_string(), "window=v");
}

#[test]
fn exact_queries_want_the_text_itself() {
    let w = window("org.mozilla.firefox", "Main", "id");
    assert!(Query::parse("fire").unwrap().matches(&w));
    assert!(!Query::parse("fire").unwrap().exact().matches(&w));
    assert!(Query::parse("org.mozilla.firefox and title=Main").unwrap().exact().matches(&w));
    assert!(!Query::parse("title=main").unwrap().exact().matches(&w));
}

#[test]
fn queries_are_read_back() {
    for raw in ["app_id=firefox", "app_id=firefox and title=Main", "identifier=a=b and title=and and active=true"] {
        let query = Query::parse(raw).unwrap();
        assert_eq!(query.to_string(), raw);
        assert_eq!(parsed(&query.to_string()), parsed(raw));
    }
    assert_eq!(Query::parse("firefox").unwrap().to_string(), "app_id=firefox");
}
