use llun::{OutputFormat, OutputManager};

#[test]
fn format_names_parse_ignoring_case() {
    assert_eq!(OutputFormat::from_name("JSON"), Ok(OutputFormat::Json));
    assert_eq!(OutputFormat::from_name("StackTrace"), Ok(OutputFormat::StackTrace));
    assert_eq!("azure".parse::<OutputFormat>(), Ok(OutputFormat::Azure));
    assert_eq!("JUnit".parse::<OutputFormat>(), Ok(OutputFormat::Junit));
}

#[test]
fn unknown_format_is_rejected() {
    assert_eq!(OutputFormat::from_name("xml"), Err("Unknown output format: xml".to_string()));
    assert_eq!(OutputFormat::from_name(""), Err("Unknown output format: ".to_string()));
}

#[test]
fn unregistered_formats_are_skipped_in_order() {
    let manager = OutputManager::new();
    let requested = vec![
        OutputFormat::Junit,
        OutputFormat::Azure,
        OutputFormat::StackTrace,
        OutputFormat::Json,
        OutputFormat::Azure,
    ];
    assert_eq!(
        manager.formats_to_render(&requested),
        vec![OutputFormat::Azure, OutputFormat::Json, OutputFormat::Azure]
    );
    assert!(manager.formats_to_render(&Vec::new()).is_empty());
}

#[test]
fn registry_has_json_and_azure() {
    let manager = OutputManager::new();
    assert!(manager.has_formatter(OutputFormat::Json));
    assert!(manager.has_formatter(OutputFormat::Azure));
    assert!(!manager.has_formatter(OutputFormat::Junit));
}
