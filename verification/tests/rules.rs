use cosmic_wmctl::error::{PatternField, Problem};
use cosmic_wmctl::globs;
use cosmic_wmctl::rules::{
    default_config_path, find_rule, load_rules, rule_verdict, Rule, RuleFile, EXAMPLE_CONFIG,
};

/// The entries of a rules file, as a program hands them to the library.
fn entries(contents: &str) -> Vec<RuleFile> {
    let table: toml::Table = toml::from_str(contents).expect("valid TOML");
    let rules = match table.get("rules") {
        Some(rules) => rules.as_array().expect("array of tables").clone(),
        None => Vec::new(),
    };
    rules
        .iter()
        .map(|entry| RuleFile {
            app_id: entry["app_id"].as_str().expect("app_id").to_owned(),
            title: entry.get("title").map(|title| title.as_str().expect("title").to_owned()),
            workspace: entry["workspace"].as_str().expect("workspace").to_owned(),
        })
        .collect()
}

#[test]
fn rule_matches_app_id_and_title() {
    let rule = Rule::new("org.mozilla.firefox", Some("*DevTools*"), "2").expect("valid rule");

    assert!(rule.matches("org.mozilla.firefox", "Firefox — DevTools"));
    assert!(!rule.matches("org.mozilla.firefox", "Firefox"));
    assert!(!rule.matches("org.gnome.Terminal", "Firefox — DevTools"));
}

#[test]
fn rule_without_title_glob_matches_any_title() {
    let rule = Rule::new("org.gnome.Terminal", None, "3").expect("valid rule");

    assert!(rule.matches("org.gnome.Terminal", ""));
    assert!(rule.matches("org.gnome.Terminal", "anything"));
}

#[test]
fn glob_is_case_sensitive() {
    let rule = Rule::new("Code", None, "1").expect("valid rule");

    assert!(rule.matches("Code", ""));
    assert!(!rule.matches("code", ""));
}

#[test]
fn invalid_glob_is_rejected() {
    assert!(Rule::new("[", None, "1").is_err());
}

#[test]
fn load_rules_from_toml() {
    let rules = load_rules(&entries(
        "[[rules]]\napp_id = \"org.mozilla.firefox\"\nworkspace = \"2\"\n",
    ))
    .expect("load rules");
    assert_eq!(rules.len(), 1);
    assert_eq!(rules[0].workspace, "2");
    assert!(rules[0].matches("org.mozilla.firefox", "Firefox"));
}

#[test]
fn empty_rules_file_is_valid() {
    let rules = load_rules(&entries("# no rules yet\n")).expect("load rules");
    assert!(rules.is_empty());
}

#[test]
fn config_path_uses_xdg_config_home() {
    // Without env vars set, the path still resolves to something sane.
    let path = default_config_path(None, None);
    assert!(path.ends_with(b"cosmic-wmctl/rules.toml"));
}

#[test]
fn example_config_parses() {
    let rules = load_rules(&entries(EXAMPLE_CONFIG)).expect("example config should parse");
    assert_eq!(rules.len(), 3);
    assert!(rules[0].matches("org.mozilla.firefox", "Firefox"));
    assert!(rules[1].matches("org.gnome.Terminal", "htop"));
    assert!(!rules[1].matches("org.gnome.Terminal", "bash"));
}

#[test]
fn config_path_is_joined_like_a_path() {
    let bytes = |s: &str| Some(s.as_bytes().to_vec());
    assert_eq!(
        default_config_path(bytes("/xdg"), bytes("/home/u")),
        b"/xdg/cosmic-wmctl/rules.toml".to_vec()
    );
    assert_eq!(
        default_config_path(bytes("/xdg/"), None),
        b"/xdg/cosmic-wmctl/rules.toml".to_vec()
    );
    assert_eq!(default_config_path(bytes(""), None), b"cosmic-wmctl/rules.toml".to_vec());
    assert_eq!(
        default_config_path(None, bytes("/home/u")),
        b"/home/u/.config/cosmic-wmctl/rules.toml".to_vec()
    );
    assert_eq!(default_config_path(None, None), b".config/cosmic-wmctl/rules.toml".to_vec());
    for xdg in ["", "/", "a", "a/", "/x//"] {
        for home in ["", "/", "h"] {
            let got = default_config_path(bytes(xdg), bytes(home));
            let want = std::path::PathBuf::from(xdg).join("cosmic-wmctl").join("rules.toml");
            assert_eq!(got, want.to_str().unwrap().as_bytes());
            let got = default_config_path(None, bytes(home));
            let want = std::path::PathBuf::from(home)
                .join(".config")
                .join("cosmic-wmctl")
                .join("rules.toml");
            assert_eq!(got, want.to_str().unwrap().as_bytes());
        }
    }
}

#[test]
fn bad_patterns_are_told_with_their_field() {
    let error = Rule::new("[", None, "1").expect_err("bad app_id");
    assert_eq!(error.message(), "invalid app_id glob pattern '['");
    assert!(error.full_message().starts_with("invalid app_id glob pattern '[': "));
    match &error {
        Problem::InvalidGlob { what, pattern, cause } => {
            assert_eq!(*what, PatternField::AppId);
            assert_eq!(pattern, "[");
            assert_eq!(*cause, globset::Glob::new("[").unwrap_err().to_string());
            assert_eq!(cause, "error parsing glob '[': unclosed character class; missing ']'");
        }
        other => panic!("unexpected {other:?}"),
    }
    let error = Rule::new("ok", Some("{[b-a]"), "1").expect_err("bad title");
    assert_eq!(error.message(), "invalid title glob pattern '{[b-a]'");
    assert_eq!(
        error.full_message(),
        "invalid title glob pattern '{[b-a]': error parsing glob '{[b-a]': invalid range; 'b' > 'a'"
    );
    // The app_id is looked at first.
    let error = Rule::new("[", Some("[a"), "1").expect_err("both bad");
    assert_eq!(error.message(), "invalid app_id glob pattern '['");
}

#[test]
fn first_bad_entry_is_told_with_its_index() {
    let entry = |app_id: &str| RuleFile {
        app_id: app_id.to_owned(),
        title: None,
        workspace: "1".to_owned(),
    };
    let error = load_rules(&vec![entry("a{"), entry("["), entry("[!")]).expect_err("bad entry");
    assert_eq!(error.index, 1);
    assert_eq!(error.message(), "rules[1]");
    assert!(error.full_message().starts_with("rules[1]: invalid app_id glob pattern '[': "));
}

#[test]
fn large_patterns_are_taken_or_told() {
    for n in [32_768, 50_000] {
        let long = "a".repeat(n);
        let rule = Rule::new(&long, None, "1").expect("compiles");
        assert!(rule.matches(&long, ""));
        assert!(!rule.matches(&long[1..], ""));
        assert!(globset::Glob::new(&long).is_ok());
    }
    // What globset does not compile is told, for either pattern.
    let huge = "a".repeat(1_000_000);
    let error = Rule::new(&huge, None, "1").expect_err("does not compile");
    assert!(matches!(error, Problem::InvalidGlob { what: PatternField::AppId, .. }));
    let error = Rule::new("a", Some(&format!("{huge}*")), "1").expect_err("does not compile");
    assert!(matches!(error, Problem::InvalidGlob { what: PatternField::Title, .. }));
    assert!(!globs::accepts(&huge, &huge));
}

#[test]
fn braces_do_not_nest() {
    let deep = format!("{}a{}", "{".repeat(1_000), "}".repeat(1_000));
    let rule = Rule::new(&deep, None, "1").expect("valid glob");
    assert!(rule.matches(&deep, ""));
    assert!(!rule.matches("a", ""));
}

#[test]
fn dense_patterns_compile() {
    let n = globs::SURE_PATTERN_CHARS;
    for unit in ["?", "*a", "\u{10ffff}", "?*", "{", "[a-z]", "[!a]", "[abcdefgh]", "[!acegikmo]"] {
        let pattern = unit.repeat(n / unit.chars().count());
        assert!(globs::spelling(&pattern).chars().count() <= globs::SURE_GLOB_CHARS);
        assert!(Rule::new(&pattern, None, "1").is_ok(), "{unit:?}");
    }
    for unit in ["[a-\u{ff}]", "[^a]", "**/", "\\a", "[\u{ff}]"] {
        let _ = Rule::new(&unit.repeat(2_000), None, "1");
        let _ = globs::accepts(&unit.repeat(2_000), "a");
    }
}

#[test]
fn glob_syntax_is_the_one_of_the_help() {
    assert!(globs::accepts("*", ""));
    assert!(globs::accepts("*", "a/b\nc"));
    assert!(globs::accepts("a?c", "abc"));
    assert!(!globs::accepts("a?c", "ac"));
    assert!(globs::accepts("[a-c0-9]x", "bx"));
    assert!(globs::accepts("[a-c0-9]x", "7x"));
    assert!(!globs::accepts("[a-c0-9]x", "dx"));
    assert!(globs::accepts("[!a]", "b"));
    assert!(!globs::accepts("[!a]", "a"));
    assert!(globs::accepts("[]{}\\]", "{") && globs::accepts("[]{}\\]", "]"));
    assert!(globs::accepts("[]{}\\]", "\\") && !globs::accepts("[]{}\\]", "a"));
    // Everything else means itself.
    assert!(globs::accepts("{foo,bar}", "{foo,bar}"));
    assert!(!globs::accepts("{foo,bar}", "bar"));
    assert!(globs::accepts("\\*", "\\x"));
    assert!(!globs::accepts("\\*", "*"));
    assert!(globs::accepts("C:\\*.txt", "C:\\a.txt"));
    assert!(globs::accepts("}{*", "}{x"));
    // Several stars say no more than one.
    assert!(globs::accepts("**/a", "x/a") && globs::accepts("**/a", "/a"));
    assert!(!globs::accepts("**/a", "a"));
    assert!(globs::accepts("a/**/b", "a/x/y/b") && !globs::accepts("a/**/b", "a/b"));
    assert!(globs::accepts("a***b", "ab") && globs::accepts("***", ""));
    // Texts are no file names.
    assert!(globs::accepts("*.", "..") && globs::accepts("?.", ".."));
    assert!(globs::accepts("*...", "Loading..."));
    // What is no glob matches nothing.
    assert!(!globs::accepts("[", "["));
}

#[test]
fn patterns_are_spelled_for_globset() {
    for (pattern, glob) in [
        ("", "{}"),
        ("a.b", "a.b{}"),
        ("{a,b}", "\\{a,b\\}{}"),
        ("\\", "\\\\{}"),
        ("a**?***", "a*?*{}"),
        ("[{]*{", "[{]*\\{{}"),
        ("[!]}]}", "[!]}]\\}{}"),
        ("[^]**]**", "[^]**]*{}"),
        ("a[**{", "a[**{{}"),
    ] {
        assert_eq!(globs::spelling(pattern), glob, "{pattern:?}");
    }
}

#[test]
fn plain_patterns_match_themselves_alone() {
    for text in ["", "org.mozilla.firefox", "a]b", "a,b", "!x", "a/b//c", "h\u{e9}\u{1f980}", "a\nb", "-^$", "{", "}{", "\\", "a\\b{c,d}"] {
        assert!(globs::accepts(text, text), "{text:?}");
        assert!(!globs::accepts(text, &format!("{text}x")), "{text:?}");
        assert!(Rule::new(text, Some(text), "1").is_ok());
    }
    assert!(!globs::accepts("a.c", "abc"));
}

#[test]
fn first_matching_rule_wins() {
    let rules = vec![
        Rule::new("x", None, "1").unwrap(),
        Rule::new("fire*", Some("*Tools"), "2").unwrap(),
        Rule::new("fire*", None, "3").unwrap(),
        Rule::new("*", None, "4").unwrap(),
    ];
    assert_eq!(find_rule(&rules, "firefox", "DevTools"), Some(1));
    assert_eq!(find_rule(&rules, "firefox", "Main"), Some(2));
    assert_eq!(find_rule(&rules, "code", "Main"), Some(3));
    assert_eq!(find_rule(&rules[..1].to_vec(), "code", "Main"), None);
}

#[test]
fn verdict_needs_both_hits() {
    assert!(rule_verdict(true, None));
    assert!(rule_verdict(true, Some(true)));
    assert!(!rule_verdict(true, Some(false)));
    assert!(!rule_verdict(false, None));
    assert!(!rule_verdict(false, Some(true)));
}

#[test]
fn odd_patterns_match_as_single_globs_do() {
    let mut state: u64 = 1;
    let mut next = |bound: usize| {
        state = state.wrapping_mul(6364136223846793005).wrapping_add(1442695040888963407);
        (state >> 33) as usize % bound
    };
    let alphabet: Vec<char> = "[]!^-,*?/.&~|()+$a:\u{e9}\u{800}\u{10ffff}{}\\".chars().collect();
    for round in 0..4000 {
        let bound = if round % 2 == 0 { alphabet.len() } else { alphabet.len() - 3 };
        let pattern: String = (0..next(8)).map(|_| alphabet[next(bound)]).collect();
        let text: String = (0..next(6)).map(|_| alphabet[next(bound)]).collect();
        let valid = Rule::new(&pattern, None, "1").is_ok();
        let hit = globs::accepts(&pattern, &text);
        if !pattern.chars().any(|c| "?*[".contains(c)) {
            assert!(valid, "{pattern:?}");
            assert_eq!(hit, pattern == text, "{pattern:?} {text:?}");
            assert!(globs::accepts(&pattern, &pattern), "{pattern:?}");
        }
        if !pattern.contains("**") && !pattern.chars().any(|c| "{}\\".contains(c)) {
            let glob = globset::Glob::new(&pattern);
            assert_eq!(valid, glob.is_ok(), "{pattern:?}");
            let want = glob.is_ok_and(|glob| glob.compile_matcher().is_match(&text));
            assert_eq!(hit, want, "{pattern:?} {text:?}");
        }
    }
}

/// Is the character one that the piece of a pattern stands for?
fn is_one(piece: &str, c: char) -> bool {
    match piece {
        "?" => true,
        "[ab]" => c == 'a' || c == 'b',
        "[a-b.]" => c == 'a' || c == 'b' || c == '.',
        "[!a]" => c != 'a',
        "[!{-~b]" => c != 'b' && !('{'..='~').contains(&c),
        _ => piece.chars().eq([c]),
    }
}

/// Does the text fit the pieces?
fn fits(pieces: &[&str], text: &[char]) -> bool {
    match pieces {
        [] => text.is_empty(),
        ["*", rest @ ..] => (0..=text.len()).any(|n| fits(rest, &text[n..])),
        [piece, rest @ ..] => !text.is_empty() && is_one(piece, text[0]) && fits(rest, &text[1..]),
    }
}

#[test]
fn patterns_fit_piece_by_piece() {
    let mut state: u64 = 7;
    let mut next = |bound: usize| {
        state = state.wrapping_mul(6364136223846793005).wrapping_add(1442695040888963407);
        (state >> 33) as usize % bound
    };
    let ascii = ["a", "b", ".", "{", "\\", "}", "?", "*", "*", "[ab]", "[a-b.]", "[!a]", "[!{-~b]"];
    let wide = ["a", "\u{e9}", "\u{c3}", "\u{1f980}", ".", "*", "*"];
    for round in 0..8000 {
        let (units, letters) = if round % 2 == 0 { (&ascii[..], 6) } else { (&wide[..], 5) };
        let pieces: Vec<&str> = (0..next(6)).map(|_| units[next(units.len())]).collect();
        let text: String = (0..next(6)).map(|_| units[next(letters)]).collect();
        let got = globs::accepts(&pieces.concat(), &text);
        let want = fits(&pieces, &text.chars().collect::<Vec<_>>());
        assert_eq!(got, want, "{pieces:?} {text:?}");
    }
}
