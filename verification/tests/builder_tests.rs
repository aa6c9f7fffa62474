use akton_arn::{Account, Arn, ArnBuilder, ArnError, ArnParser, Category, Domain, Part, Root};

#[test]
fn builder_test() {
    // Create an Arn using the ArnBuilder with specified components
    let arn = ArnBuilder::new()
        .with::<Domain>("akton-internal".to_string())
        .unwrap()
        .with::<Category>("hr".to_string())
        .unwrap()
        .with::<Account>("company123".to_string())
        .unwrap()
        .with::<Root>("root".to_string())
        .unwrap()
        .with::<Part>("departmentA".to_string())
        .unwrap()
        .with::<Part>("team1".to_string())
        .unwrap()
        .build();

    // Verify the constructed Arn matches the expected value
    assert!(
        arn.is_ok(),
        "arn:akton-internal:hr:company123:root/departmentA/team1"
    );
}

#[test]
fn test_arn_builder() {
    let arn = ArnBuilder::new()
        .with::<Domain>("custom".to_string())
        .unwrap()
        .with::<Category>("service".to_string())
        .unwrap()
        .with::<Account>("account123".to_string())
        .unwrap()
        .with::<Root>("resource".to_string())
        .unwrap()
        .with::<Part>("subresource".to_string())
        .unwrap()
        .build()
        .unwrap();

    let text = arn.to_string();
    assert!(
        text.ends_with("/subresource"),
        "{} did not end with expected string",
        text
    );
}

#[test]
fn test_arn_builder_with_default_parts() {
    let arn = Arn::default();
    let parser = ArnParser::new(arn.to_string());
    let parsed = parser.parse().unwrap();
    assert_eq!(parsed.domain.as_str(), "akton");
}

#[test]
fn test_arn_builder_with_owned_strings() {
    let arn = ArnBuilder::new()
        .with::<Domain>(String::from("custom"))
        .unwrap()
        .with::<Category>(String::from("service"))
        .unwrap()
        .with::<Account>(String::from("account123"))
        .unwrap()
        .with::<Root>(String::from("resource"))
        .unwrap()
        .build()
        .unwrap();

    assert!(arn
        .to_string()
        .starts_with("arn:custom:service:account123:resource"));
}

#[test]
fn builder_without_parts_has_no_trailing_slash() {
    let arn = ArnBuilder::new()
        .with::<Domain>("custom".to_string())
        .unwrap()
        .with::<Category>("service".to_string())
        .unwrap()
        .with::<Account>("account123".to_string())
        .unwrap()
        .with::<Root>("resource".to_string())
        .unwrap()
        .build()
        .unwrap();

    let text = arn.to_string();
    assert_eq!(text, "arn:custom:service:account123:resource");
    assert!(text.starts_with("arn:custom:service:account123:resource"));
    assert!(!text.ends_with('/'));
    assert_eq!(arn.parts.to_string(), "");
}

#[test]
fn builder_rejects_empty_domain() {
    match ArnBuilder::new().with::<Domain>(String::new()) {
        Err(ArnError::InvalidPart(name)) => assert_eq!(name, "domain"),
        _ => panic!("expected InvalidPart(\"domain\")"),
    }
}

#[test]
fn builder_rejects_delimiter_in_part() {
    let builder = ArnBuilder::new()
        .with::<Domain>("d".to_string())
        .unwrap()
        .with::<Category>("c".to_string())
        .unwrap()
        .with::<Account>("a".to_string())
        .unwrap()
        .with::<Root>("r".to_string())
        .unwrap();
    match builder.with::<Part>("with/slash".to_string()) {
        Err(ArnError::InvalidPart(name)) => assert_eq!(name, "part"),
        _ => panic!("expected InvalidPart(\"part\")"),
    }
}
