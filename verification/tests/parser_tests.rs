use akton_arn::{Account, ArnBuilder, ArnError, ArnParser, Category, Domain, Part, Root};

#[test]
fn tests_test() {
    // Create an Arn using the ArnBuilder with specified components
    let arn = ArnBuilder::new()
        .with::<Domain>("akton-internal".to_string())
        .unwrap()
        .with::<Category>("hr".to_string())
        .unwrap()
        .with::<Account>("company123".to_string())
        .unwrap()
        .with::<Root>("root".to_string())
        .unwrap()
        .with::<Part>("departmentA".to_string())
        .unwrap()
        .with::<Part>("team1".to_string())
        .unwrap()
        .build();

    // Verify the constructed Arn matches the expected value
    assert!(
        arn.is_ok(),
        "arn:akton-internal:hr:company123:root/departmentA/team1"
    );
}

#[test]
fn test_parser() {
    // Create an ArnParser with a specific Arn string
    let parser = ArnParser::new("arn:akton-internal:hr:company123:root/departmentA/team1".to_string());

    // Parse the Arn string into its components
    let result = parser.parse();

    // Verify the parser returns a successful result
    assert!(
        result.is_ok(),
        "Parser should return Ok, but returned Err with message: {:?}",
        result.as_ref().err()
    );

    // Extract the components from the result
    let arn = result.unwrap();

    // Verify each component matches the expected value
    assert_eq!(
        arn.domain.to_string(),
        "akton-internal",
        "Domain should be 'akton-internal'"
    );
    assert_eq!(arn.category.to_string(), "hr", "Category should be 'hr'");
    assert_eq!(
        arn.account.to_string(),
        "company123",
        "Account should be 'company123'"
    );
    assert_eq!(
        arn.parts.to_string(),
        "departmentA/team1",
        "Parts should match expected values"
    );
}

#[test]
fn parser_yields_all_components() {
    let parser = ArnParser::new("arn:akton-internal:hr:company123:root/departmentA/team1".to_string());
    let arn = parser.parse().unwrap();
    assert_eq!(arn.domain.as_str(), "akton-internal");
    assert_eq!(arn.category.as_str(), "hr");
    assert_eq!(arn.account.as_str(), "company123");
    assert_eq!(arn.root.as_str(), "root");
    assert_eq!(arn.parts.len(), 2);
    assert_eq!(arn.parts.get(0).as_str(), "departmentA");
    assert_eq!(arn.parts.get(1).as_str(), "team1");
    assert_eq!(arn.parts.to_string(), "departmentA/team1");
}

#[test]
fn parser_rejects_missing_scheme() {
    let parser = ArnParser::new("akton-internal:hr:company123:root".to_string());
    match parser.parse() {
        Err(ArnError::InvalidFormat) => {}
        other => panic!("expected InvalidFormat, got {:?}", other),
    }
}

#[test]
fn parser_rejects_extra_segments() {
    let parser = ArnParser::new("arn:d:c:a:r:extra".to_string());
    match parser.parse() {
        Err(ArnError::InvalidFormat) => {}
        other => panic!("expected InvalidFormat, got {:?}", other),
    }
}

#[test]
fn parser_rejects_trailing_slash() {
    let parser = ArnParser::new("arn:custom:service:account123:resource/".to_string());
    match parser.parse() {
        Err(ArnError::InvalidPart(name)) => assert_eq!(name, "part"),
        other => panic!("expected InvalidPart(\"part\"), got {:?}", other),
    }
}

#[test]
fn parser_names_first_missing_segment() {
    let cases = [
        ("arn", "domain"),
        ("arn:d", "category"),
        ("arn:d:c", "account"),
        ("arn:d:c:a", "root"),
    ];
    for (input, expected) in cases {
        let parser = ArnParser::new(input.to_string());
        match parser.parse() {
            Err(ArnError::MissingPart(name)) => assert_eq!(name, expected),
            other => panic!("expected MissingPart for {:?}, got {:?}", input, other),
        }
    }
}

#[test]
fn parser_names_first_invalid_component() {
    let cases = [
        ("arn::c:a:r", "domain"),
        ("arn:d/x:c:a:r", "domain"),
        ("arn:d::a:r", "category"),
        ("arn:d:c::r", "account"),
        ("arn:d:c:a:", "root"),
        ("arn:d:c:a:r//x", "part"),
    ];
    for (input, expected) in cases {
        let parser = ArnParser::new(input.to_string());
        match parser.parse() {
            Err(ArnError::InvalidPart(name)) => assert_eq!(name, expected, "input {:?}", input),
            other => panic!("expected InvalidPart for {:?}, got {:?}", input, other),
        }
    }
}

#[test]
fn parser_accepts_empty_parts_tail() {
    let parser = ArnParser::new("arn:d:c:a:r".to_string());
    let arn = parser.parse().unwrap();
    assert_eq!(arn.root.as_str(), "r");
    assert_eq!(arn.parts.len(), 0);
    assert_eq!(arn.parts.to_string(), "");
}
