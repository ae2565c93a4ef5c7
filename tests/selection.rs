use llun::catalog::{code_from_resource_name, parse_default_rules};
use llun::{RuleCatalog, RuleManager, RuleManagerError, RuleSelectionConfig};

fn strings(codes: &[&str]) -> Vec<String> {
    codes.iter().map(|c| c.to_string()).collect()
}

fn manager(resources: &[&str], defaults: &str) -> RuleManager {
    match RuleManager::new(&strings(resources), defaults) {
        Ok(m) => m,
        Err(_) => panic!("manager should load"),
    }
}

fn config(select: &[&str], extend: &[&str], ignore: &[&str]) -> RuleSelectionConfig {
    RuleSelectionConfig {
        select: strings(select),
        extend_select: strings(extend),
        ignore: strings(ignore),
    }
}

fn resolved(m: &RuleManager, c: &RuleSelectionConfig) -> Vec<String> {
    match m.finalise_selected_rules(c) {
        Ok(codes) => codes,
        Err(RuleManagerError::InvalidRule(code)) => panic!("unexpected invalid rule {}", code),
        Err(_) => panic!("unexpected failure"),
    }
}

fn invalid_code(m: &RuleManager, c: &RuleSelectionConfig) -> String {
    match m.finalise_selected_rules(c) {
        Err(RuleManagerError::InvalidRule(code)) => code,
        _ => panic!("expected an invalid rule"),
    }
}

#[test]
fn extend_then_ignore_scenario() {
    let m = manager(&["A1.json", "A2.json", "B1.json"], "A1\n");
    let c = config(&[], &["B1"], &["A1"]);
    assert_eq!(resolved(&m, &c), strings(&["B1"]));
}

#[test]
fn unknown_selected_code_is_rejected() {
    let m = manager(&["A1.json", "A2.json", "B1.json"], "A1\n");
    let c = config(&["Z9"], &[], &[]);
    assert_eq!(invalid_code(&m, &c), "Z9");
}

#[test]
fn empty_select_uses_defaults_then_extend() {
    let m = manager(&["A1.json", "A2.json", "B1.json"], "A2\nA1\n");
    let c = config(&[], &["B1"], &[]);
    assert_eq!(resolved(&m, &c), strings(&["A2", "A1", "B1"]));
}

#[test]
fn select_replaces_defaults() {
    let m = manager(&["A1.json", "A2.json", "B1.json"], "A1\n");
    let c = config(&["B1"], &["A2"], &[]);
    assert_eq!(resolved(&m, &c), strings(&["B1", "A2"]));
}

#[test]
fn select_ignores_default_list_even_when_empty() {
    let m = manager(&["A1.json", "B1.json"], "\n\n");
    let c = config(&["B1"], &[], &[]);
    assert_eq!(resolved(&m, &c), strings(&["B1"]));
}

#[test]
fn ignored_unknown_code_is_still_rejected() {
    let m = manager(&["A1.json", "B1.json"], "A1\n");
    let c = config(&[], &["Q7"], &["Q7"]);
    assert_eq!(invalid_code(&m, &c), "Q7");
}

#[test]
fn ignored_unknown_select_code_is_still_rejected() {
    let m = manager(&["A1.json", "B1.json"], "A1\n");
    let c = config(&["A1", "Q7"], &[], &["Q7"]);
    assert_eq!(invalid_code(&m, &c), "Q7");
}

#[test]
fn first_unknown_code_is_reported() {
    let m = manager(&["A1.json"], "A1\n");
    let c = config(&["A1", "X1", "X2"], &["X3"], &[]);
    assert_eq!(invalid_code(&m, &c), "X1");
}

#[test]
fn ignored_codes_never_remain() {
    let m = manager(&["A1.json", "A2.json", "B1.json"], "A1\nA2\n");
    let c = config(&[], &["A1", "B1", "A2"], &["A2"]);
    let codes = resolved(&m, &c);
    assert_eq!(codes, strings(&["A1", "A1", "B1"]));
    assert!(!codes.iter().any(|code| code == "A2"));
}

#[test]
fn duplicates_are_kept() {
    let m = manager(&["A1.json"], "A1\n");
    let c = config(&["A1", "A1"], &["A1"], &[]);
    assert_eq!(resolved(&m, &c), strings(&["A1", "A1", "A1"]));
}

#[test]
fn resolution_is_idempotent() {
    let m = manager(&["A1.json", "A2.json", "B1.json"], "A1\nA2\n");
    let c = config(&[], &["B1"], &["A2"]);
    let first = resolved(&m, &c);
    let second = resolved(&m, &c);
    assert_eq!(first, second);
    assert_eq!(first, strings(&["A1", "B1"]));
}

#[test]
fn empty_default_list_fails_when_needed() {
    let m = manager(&["A1.json"], "  \n\n");
    let c = config(&[], &["A1"], &[]);
    match m.finalise_selected_rules(&c) {
        Err(RuleManagerError::DefaultRulesError(msg)) => assert_eq!(msg, "No default rules in file."),
        _ => panic!("expected the default list error"),
    }
}

#[test]
fn no_resources_means_no_rules() {
    assert!(matches!(RuleManager::new(&Vec::new(), "A1\n"), Err(RuleManagerError::NoRulesAvailable)));
    assert!(matches!(RuleCatalog::from_resource_names(&Vec::new()), Err(RuleManagerError::NoRulesAvailable)));
}

#[test]
fn load_from_cli_resolves() {
    let m = manager(&["A1.json", "B1.json"], "A1\n");
    match m.load_from_cli(strings(&[]), strings(&["B1"]), strings(&["A1"])) {
        Ok(codes) => assert_eq!(codes, strings(&["B1"])),
        Err(_) => panic!("expected success"),
    }
}

#[test]
fn catalog_codes_come_from_file_names() {
    let catalog = match RuleCatalog::from_resource_names(&strings(&["A1.json", "B2.json", "A1.txt", ".hidden", "c.d.json"])) {
        Ok(c) => c,
        Err(_) => panic!("catalog should load"),
    };
    let mut codes = catalog.all_codes();
    codes.sort();
    assert_eq!(codes, strings(&[".hidden", "A1", "B2", "c.d"]));
    assert!(catalog.contains(&"A1".to_string()));
    assert!(!catalog.contains(&"A1.json".to_string()));
}

#[test]
fn stems_of_file_names() {
    assert_eq!(code_from_resource_name("PY001.json"), "PY001");
    assert_eq!(code_from_resource_name("noext"), "noext");
    assert_eq!(code_from_resource_name(".json"), ".json");
    assert_eq!(code_from_resource_name("a.b.c"), "a.b");
}

#[test]
fn default_list_lines_are_trimmed_and_blank_lines_dropped() {
    assert_eq!(parse_default_rules("  A1  \n\n\tB2\r\nC3"), strings(&["A1", "B2", "C3"]));
    assert_eq!(parse_default_rules(""), Vec::<String>::new());
    assert_eq!(parse_default_rules("\n \n"), Vec::<String>::new());
}

#[test]
fn default_rules_are_listed() {
    let m = manager(&["A1.json"], "A1\nB2\n");
    match m.get_default_rules() {
        Ok(codes) => assert_eq!(codes, strings(&["A1", "B2"])),
        Err(_) => panic!("expected defaults"),
    }
}

#[test]
fn default_list_trims_unicode_white_space() {
    assert_eq!(parse_default_rules("\u{3000}A1\u{a0}\n\u{2028}\n B2\u{85}"), strings(&["A1", "B2"]));
}
