use dot_desktop::catalog::build_catalog;
use dot_desktop::dispatch::dispatch;
use dot_desktop::dispatch::Outcome;
use dot_desktop::entry::Config;
use dot_desktop::entry::Entry;
use dot_desktop::fields::substitute;
use dot_desktop::section::parse_entry;
use dot_desktop::strcmp::str_eq;
use dot_desktop::strcmp::str_le;

fn app_entry(name: &str, exec: &str, term: bool) -> Entry {
    Entry {
        entry_type: "Application".to_string(),
        name: name.to_string(),
        no_display: false,
        hidden: false,
        exec_cmd: Some(exec.to_string()),
        url: None,
        term,
    }
}

fn link_entry(name: &str, url: &str) -> Entry {
    Entry {
        entry_type: "Link".to_string(),
        name: name.to_string(),
        no_display: false,
        hidden: false,
        exec_cmd: None,
        url: Some(url.to_string()),
        term: false,
    }
}

fn plain_config() -> Config {
    Config::from_env_values(None, None, None)
}

const WELL_FORMED: &str = "[Desktop Entry]\nType=Application\nName=Editor\nExec=edit %f\nTerminal=true\n";

#[test]
fn parse_reads_every_recognized_key() {
    let e = parse_entry(WELL_FORMED).expect("well-formed entry must parse");
    assert_eq!(e.entry_type, "Application");
    assert_eq!(e.name, "Editor");
    assert_eq!(e.exec_cmd.as_deref(), Some("edit %f"));
    assert_eq!(e.url, None);
    assert!(e.term);
    assert!(!e.hidden);
    assert!(!e.no_display);
}

#[test]
fn parse_defaults_missing_keys() {
    let e = parse_entry("[Desktop Entry]\nExec=run\n").expect("section present");
    assert_eq!(e.entry_type, "");
    assert_eq!(e.name, "");
    assert!(!e.term);
    assert!(!e.hidden);
    assert!(!e.no_display);
    assert_eq!(e.exec_cmd.as_deref(), Some("run"));
    assert_eq!(e.url, None);
}

#[test]
fn parse_booleans_need_exact_true() {
    let e = parse_entry("[Desktop Entry]\nTerminal=TRUE\nHidden=yes\nNoDisplay=true\n")
        .expect("section present");
    assert!(!e.term);
    assert!(!e.hidden);
    assert!(e.no_display);
}

#[test]
fn parse_rejects_missing_section() {
    assert!(parse_entry("[Other Section]\nName=Elsewhere\n").is_none());
}

#[test]
fn parse_rejects_malformed_text() {
    assert!(parse_entry("this line is no key value pair\n").is_none());
}

#[test]
fn catalog_skips_malformed_files() {
    let texts = vec![
        WELL_FORMED.to_string(),
        "this line is no key value pair\n".to_string(),
    ];
    let cat = build_catalog(&texts);
    assert_eq!(cat.len(), 1);
    assert_eq!(cat[0].name, "Editor");
}

#[test]
fn catalog_filters_invisible_entries() {
    let texts = vec![
        "[Desktop Entry]\nType=Application\nName=Shown\nExec=a\n".to_string(),
        "[Desktop Entry]\nType=Application\nName=Hid\nExec=b\nHidden=true\n".to_string(),
        "[Desktop Entry]\nType=Application\nName=NoShow\nExec=c\nNoDisplay=true\n".to_string(),
        "[Desktop Entry]\nType=Directory\nName=Folder\n".to_string(),
        "[Desktop Entry]\nType=Link\nName=Page\nURL=http://example.org\n".to_string(),
    ];
    let cat = build_catalog(&texts);
    let names: Vec<&str> = cat.iter().map(|e| e.name.as_str()).collect();
    assert_eq!(names, vec!["Page", "Shown"]);
}

#[test]
fn catalog_sorts_by_name() {
    let texts = vec![
        "[Desktop Entry]\nType=Application\nName=zeta\nExec=z\n".to_string(),
        "[Desktop Entry]\nType=Application\nName=Alpha\nExec=a\n".to_string(),
        "[Desktop Entry]\nType=Application\nName=beta\nExec=b\n".to_string(),
    ];
    let cat = build_catalog(&texts);
    let names: Vec<&str> = cat.iter().map(|e| e.name.as_str()).collect();
    assert_eq!(names, vec!["Alpha", "beta", "zeta"]);
    for w in cat.windows(2) {
        assert!(str_le(w[0].name.as_str(), w[1].name.as_str()));
    }
}

#[test]
fn substitution_replaces_every_field_code() {
    let r = substitute("run %f %F extra %u %U", "x");
    assert_eq!(r, "run x x extra x x");
}

#[test]
fn substitution_with_empty_argument_keeps_surrounding_text() {
    let r = substitute("run %f %F extra %u %U", "");
    assert_eq!(r, "run   extra  ");
}

#[test]
fn substitution_leaves_other_percents_alone() {
    assert_eq!(substitute("load %x 100%", "y"), "load %x 100%");
    assert_eq!(substitute("%", "y"), "%");
}

#[test]
fn config_prefixes_gain_a_trailing_space() {
    let cfg = Config::from_env_values(
        Some("kitty".to_string()),
        Some("nohup".to_string()),
        Some("open".to_string()),
    );
    assert_eq!(cfg.term_prefix, "kitty ");
    assert_eq!(cfg.app_prefix, "nohup ");
    assert_eq!(cfg.url_prefix, "open ");
}

#[test]
fn config_defaults_when_unset() {
    let cfg = plain_config();
    assert_eq!(cfg.term_prefix, "");
    assert_eq!(cfg.app_prefix, "");
    assert_eq!(cfg.url_prefix, "xdg-open ");
}

#[test]
fn dispatch_without_arguments_lists_names_in_order() {
    let cat = vec![app_entry("A", "a", false), link_entry("B", "u")];
    let args: Vec<String> = vec![];
    match dispatch(&cat, &args, &plain_config()) {
        Outcome::Names(ns) => assert_eq!(ns, vec!["A".to_string(), "B".to_string()]),
        _ => panic!("expected the name listing"),
    }
}

#[test]
fn dispatch_terminal_entry_uses_terminal_prefix_only() {
    let cat = vec![app_entry("Term", "top", true)];
    let cfg = Config::from_env_values(
        Some("kitty".to_string()),
        Some("nohup".to_string()),
        None,
    );
    let args = vec!["Term".to_string()];
    match dispatch(&cat, &args, &cfg) {
        Outcome::Line(l) => assert_eq!(l, "kitty top"),
        _ => panic!("expected a resolved line"),
    }
}

#[test]
fn dispatch_plain_entry_uses_app_prefix_only() {
    let cat = vec![app_entry("Plain", "calc", false)];
    let cfg = Config::from_env_values(
        Some("kitty".to_string()),
        Some("nohup".to_string()),
        None,
    );
    let args = vec!["Plain".to_string()];
    match dispatch(&cat, &args, &cfg) {
        Outcome::Line(l) => assert_eq!(l, "nohup calc"),
        _ => panic!("expected a resolved line"),
    }
}

#[test]
fn dispatch_unset_prefixes_leave_the_line_bare() {
    let cat = vec![app_entry("Bare", "calc %U", false)];
    let args = vec!["Bare".to_string(), "file.txt".to_string()];
    match dispatch(&cat, &args, &plain_config()) {
        Outcome::Line(l) => assert_eq!(l, "calc file.txt"),
        _ => panic!("expected a resolved line"),
    }
}

#[test]
fn dispatch_link_defaults_to_xdg_open() {
    let cat = vec![link_entry("Docs", "http://example.org")];
    let args = vec!["Docs".to_string()];
    match dispatch(&cat, &args, &plain_config()) {
        Outcome::Line(l) => assert_eq!(l, "xdg-open http://example.org"),
        _ => panic!("expected a resolved line"),
    }
}

#[test]
fn dispatch_link_uses_set_url_prefix() {
    let cat = vec![link_entry("Docs", "http://example.org")];
    let cfg = Config::from_env_values(None, None, Some("firefox".to_string()));
    let args = vec!["Docs".to_string()];
    match dispatch(&cat, &args, &cfg) {
        Outcome::Line(l) => assert_eq!(l, "firefox http://example.org"),
        _ => panic!("expected a resolved line"),
    }
}

#[test]
fn dispatch_link_without_target_is_incomplete() {
    let mut e = link_entry("Hollow", "u");
    e.url = None;
    let cat = vec![e];
    let args = vec!["Hollow".to_string()];
    assert!(matches!(
        dispatch(&cat, &args, &plain_config()),
        Outcome::Incomplete
    ));
}

#[test]
fn dispatch_absent_name_is_a_miss() {
    let cat = vec![app_entry("Present", "run", false)];
    let args = vec!["Absent".to_string()];
    assert!(matches!(
        dispatch(&cat, &args, &plain_config()),
        Outcome::NoMatch
    ));
}

#[test]
fn dispatch_three_arguments_are_a_usage_error() {
    let cat = vec![app_entry("Present", "run", false)];
    let args = vec!["a".to_string(), "b".to_string(), "c".to_string()];
    assert!(matches!(
        dispatch(&cat, &args, &plain_config()),
        Outcome::Usage
    ));
}

#[test]
fn dispatch_unsupported_type_is_reported() {
    let mut e = app_entry("Odd", "run", false);
    e.entry_type = "Service".to_string();
    let cat = vec![e];
    let args = vec!["Odd".to_string()];
    match dispatch(&cat, &args, &plain_config()) {
        Outcome::Unsupported(t) => assert_eq!(t, "Service"),
        _ => panic!("expected the unsupported-type report"),
    }
}

#[test]
fn dispatch_first_match_wins_on_duplicate_names() {
    let cat = vec![app_entry("Twin", "first", false), app_entry("Twin", "second", false)];
    let args = vec!["Twin".to_string()];
    match dispatch(&cat, &args, &plain_config()) {
        Outcome::Line(l) => assert_eq!(l, "first"),
        _ => panic!("expected a resolved line"),
    }
}

#[test]
fn dispatch_application_without_template_is_incomplete() {
    let mut e = app_entry("Broken", "run", false);
    e.exec_cmd = None;
    let cat = vec![e];
    let args = vec!["Broken".to_string()];
    assert!(matches!(
        dispatch(&cat, &args, &plain_config()),
        Outcome::Incomplete
    ));
}

#[test]
fn string_helpers_compare_by_codepoint() {
    assert!(str_eq("abc", "abc"));
    assert!(!str_eq("abc", "abd"));
    assert!(str_le("Alpha", "beta"));
    assert!(str_le("same", "same"));
    assert!(!str_le("zeta", "beta"));
    assert!(str_le("ab", "abc"));
}
