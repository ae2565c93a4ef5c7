use llun::scanner::{first_choice_content, DEFAULT_CONSENSUS_CALLS};
use llun::{
    AvailableScanner, DetectedIssue, LlmProvider, Response, ScanMode, ScannerError,
    ScannerManager, ScannerManagerError, Violation,
};

fn issue(code: &str) -> DetectedIssue {
    DetectedIssue {
        rule_code: code.to_string(),
        brief_description: format!("breaks {}", code),
        suggested_alternative: "do better".to_string(),
        violations: vec![Violation {
            file_path: "src/main.rs".to_string(),
            code_snippet: "fn main() {}".to_string(),
            line_range: "1-1".to_string(),
            explanation: "because".to_string(),
        }],
    }
}

fn response(codes: &[&str]) -> Response {
    Response { detected_issues: codes.iter().map(|c| issue(c)).collect() }
}

fn codes_of(r: &Response) -> Vec<String> {
    r.detected_issues.iter().map(|i| i.rule_code.clone()).collect()
}

#[test]
fn single_scan_keeps_its_findings() {
    let manager = ScannerManager::new();
    let plan = match manager.plan_scan(AvailableScanner::OpenAi, ScanMode::Single) {
        Ok(p) => p,
        Err(_) => panic!("scanner is registered"),
    };
    assert_eq!(plan.calls, 1);
    assert!(plan.advise_consensus);
    let result = match manager.finish_scan(vec![Ok(response(&["A1", "B1"]))]) {
        Ok(r) => r,
        Err(_) => panic!("scan succeeded"),
    };
    assert_eq!(codes_of(&result), vec!["A1", "B1"]);
    assert_eq!(result.detected_issues[0].violations[0].file_path, "src/main.rs");
    assert_eq!(result.detected_issues[1].brief_description, "breaks B1");
}

#[test]
fn consensus_scan_concatenates_in_issue_order() {
    let manager = ScannerManager::new();
    let plan = match manager.plan_scan(AvailableScanner::OpenAi, ScanMode::from_production_flag(true)) {
        Ok(p) => p,
        Err(_) => panic!("scanner is registered"),
    };
    assert_eq!(plan.calls, DEFAULT_CONSENSUS_CALLS);
    assert_eq!(plan.calls, 3);
    assert!(!plan.advise_consensus);
    let outcomes = vec![
        Ok(response(&["A1", "A2"])),
        Ok(response(&[])),
        Ok(response(&["B1", "A1", "C3"])),
    ];
    let result = match manager.finish_scan(outcomes) {
        Ok(r) => r,
        Err(_) => panic!("scan succeeded"),
    };
    assert_eq!(result.detected_issues.len(), 2 + 0 + 3);
    assert_eq!(codes_of(&result), vec!["A1", "A2", "B1", "A1", "C3"]);
}

#[test]
fn consensus_scan_with_chosen_count() {
    let manager = ScannerManager::new();
    match manager.plan_scan(AvailableScanner::OpenAi, ScanMode::Consensus(5)) {
        Ok(p) => {
            assert_eq!(p.calls, 5);
            assert_eq!(p.scanner, AvailableScanner::OpenAi);
        }
        Err(_) => panic!("scanner is registered"),
    }
    assert_eq!(ScanMode::from_production_flag(false), ScanMode::Single);
}

#[test]
fn one_failed_call_fails_the_scan() {
    let manager = ScannerManager::new();
    let outcomes = vec![
        Ok(response(&["A1"])),
        Err(ScannerError::EmptyResponse),
        Ok(response(&["B1"])),
    ];
    match manager.finish_scan(outcomes) {
        Err(ScannerManagerError::ScannerError(ScannerError::EmptyResponse)) => {}
        _ => panic!("expected the empty response error"),
    }
}

#[test]
fn first_failure_in_issue_order_is_reported() {
    let manager = ScannerManager::new();
    let outcomes = vec![
        Ok(response(&["A1"])),
        Err(ScannerError::JsonParseError("bad json".to_string())),
        Err(ScannerError::ApiRequestFailed("timeout".to_string())),
    ];
    match manager.finish_scan(outcomes) {
        Err(ScannerManagerError::ScannerError(ScannerError::JsonParseError(m))) => assert_eq!(m, "bad json"),
        _ => panic!("expected the parse error"),
    }
}

#[test]
fn combine_responses_concatenates() {
    let manager = ScannerManager::new();
    let combined = manager.combine_responses(vec![response(&["X"]), response(&["Y", "Z"])]);
    assert_eq!(codes_of(&combined), vec!["X", "Y", "Z"]);
    assert_eq!(manager.combine_responses(Vec::new()).detected_issues.len(), 0);
}

#[test]
fn registry_holds_openai() {
    let manager = ScannerManager::new();
    assert!(manager.is_registered(AvailableScanner::OpenAi));
}

#[test]
fn scanner_names_parse_ignoring_case() {
    assert_eq!(AvailableScanner::from_name("OpenAI"), Ok(AvailableScanner::OpenAi));
    assert_eq!("openai".parse::<AvailableScanner>(), Ok(AvailableScanner::OpenAi));
    assert_eq!(AvailableScanner::from_name("gemini"), Err("Unknown scanner: gemini".to_string()));
}

#[test]
fn provider_names_parse_ignoring_case() {
    assert_eq!(LlmProvider::from_name("OPENAI"), Ok(LlmProvider::OpenAi));
    assert_eq!("other".parse::<LlmProvider>(), Err("Unregistered Provider: other".to_string()));
}

#[test]
fn content_of_first_choice() {
    assert!(matches!(first_choice_content(vec![Some("{}".to_string()), None]), Ok(c) if c == "{}"));
    assert!(matches!(first_choice_content(vec![None, Some("{}".to_string())]), Err(ScannerError::EmptyResponse)));
    assert!(matches!(first_choice_content(Vec::new()), Err(ScannerError::EmptyResponse)));
}
