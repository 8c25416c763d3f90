use cosmic_wmctl::model::Coordinates;
use cosmic_wmctl::wayland::{Query, WindowSelector, WindowSelectorField};

#[test]
fn coordinates_parser_accepts_csv() {
    assert_eq!(Coordinates::parse("1,2,3"), Some(Coordinates(vec![1, 2, 3])));
    assert_eq!(Coordinates::parse("nope"), None);
}

#[test]
fn window_selector_matches_case_insensitive_substring() {
    let selector = WindowSelector {
        field: WindowSelectorField::AppId,
        value: "fire".to_owned(),
        exact: false,
    };

    assert!(selector.matches_field("org.mozilla.firefox"));
    assert!(!selector.matches_field("org.gnome.Terminal"));
}

#[test]
fn query_parse_single_field() {
    let q = Query::parse("app_id=firefox").expect("valid query");
    assert_eq!(q.selectors.len(), 1);
    assert_eq!(q.selectors[0].field, WindowSelectorField::AppId);
    assert_eq!(q.selectors[0].value, "firefox");
}

#[test]
fn query_parse_multi_predicate() {
    let q = Query::parse("app_id=firefox and title=Main").expect("valid query");
    assert_eq!(q.selectors.len(), 2);
    assert_eq!(q.selectors[0].field, WindowSelectorField::AppId);
    assert_eq!(q.selectors[1].field, WindowSelectorField::Title);
}

#[test]
fn query_parse_bare_token_defaults_app_id() {
    let q = Query::parse("firefox").expect("valid query");
    assert_eq!(q.selectors.len(), 1);
    assert_eq!(q.selectors[0].field, WindowSelectorField::AppId);
    assert_eq!(q.selectors[0].value, "firefox");
}

#[test]
fn query_parse_invalid_field() {
    assert!(Query::parse("foo=bar").is_err());
}

#[test]
fn query_parse_empty() {
    assert!(Query::parse("").is_err());
}
