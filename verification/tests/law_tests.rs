use akton_arn::{
    Account, Arn, ArnBuilder, ArnError, ArnParser, Category, Domain, Part, PrivateArnBuilder,
    Root,
};

#[test]
fn round_trip_build_format_parse() {
    let built = ArnBuilder::new()
        .with::<Domain>("akton-internal".to_string())
        .unwrap()
        .with::<Category>("hr".to_string())
        .unwrap()
        .with::<Account>("company123".to_string())
        .unwrap()
        .with::<Root>("root".to_string())
        .unwrap()
        .with::<Part>("departmentA".to_string())
        .unwrap()
        .with::<Part>("team1".to_string())
        .unwrap()
        .build()
        .unwrap();

    let text = built.to_string();
    assert_eq!(text, "arn:akton-internal:hr:company123:root/departmentA/team1");
    let parsed = ArnParser::new(text.clone()).parse().unwrap();
    assert_eq!(parsed, built);
    assert_eq!(parsed.to_string(), text);
}

#[test]
fn default_round_trips() {
    let arn = Arn::default();
    let text = arn.to_string();
    assert_eq!(text, "arn:akton:system:default:root");
    let parsed = ArnParser::new(text).parse().unwrap();
    assert_eq!(parsed, arn);
    assert_eq!(parsed.domain.as_str(), "akton");
    assert_eq!(parsed.category.as_str(), "system");
    assert_eq!(parsed.account.as_str(), "default");
    assert_eq!(parsed.root.as_str(), "root");
    assert_eq!(parsed.parts.len(), 0);
}

#[test]
fn positional_inference_fills_slots_in_order() {
    let arn = PrivateArnBuilder::new()
        .add_part("arn", "d".to_string())
        .unwrap()
        .add_part("", "c".to_string())
        .unwrap()
        .add_part("", "a".to_string())
        .unwrap()
        .add_part("", "r".to_string())
        .unwrap()
        .add_part("", "p1".to_string())
        .unwrap()
        .add_part(":", "p2".to_string())
        .unwrap()
        .build()
        .unwrap();

    assert_eq!(arn.domain.as_str(), "d");
    assert_eq!(arn.category.as_str(), "c");
    assert_eq!(arn.account.as_str(), "a");
    assert_eq!(arn.root.as_str(), "r");
    assert_eq!(arn.parts.to_string(), "p1/p2");
    assert_eq!(arn.to_string(), "arn:d:c:a:r/p1/p2");
}

#[test]
fn build_reports_first_missing_slot() {
    match PrivateArnBuilder::new().build() {
        Err(ArnError::MissingPart(name)) => assert_eq!(name, "domain"),
        other => panic!("expected MissingPart(\"domain\"), got {:?}", other),
    }

    let with_domain = PrivateArnBuilder::new().add_part("arn", "d".to_string()).unwrap();
    match with_domain.build() {
        Err(ArnError::MissingPart(name)) => assert_eq!(name, "category"),
        other => panic!("expected MissingPart(\"category\"), got {:?}", other),
    }

    let with_category = PrivateArnBuilder::new()
        .add_part("arn", "d".to_string())
        .unwrap()
        .add_part("", "c".to_string())
        .unwrap();
    match with_category.build() {
        Err(ArnError::MissingPart(name)) => assert_eq!(name, "account"),
        other => panic!("expected MissingPart(\"account\"), got {:?}", other),
    }

    let with_account = PrivateArnBuilder::new()
        .add_part("arn", "d".to_string())
        .unwrap()
        .add_part("", "c".to_string())
        .unwrap()
        .add_part("", "a".to_string())
        .unwrap();
    match with_account.build() {
        Err(ArnError::MissingPart(name)) => assert_eq!(name, "root"),
        other => panic!("expected MissingPart(\"root\"), got {:?}", other),
    }
}

#[test]
fn add_part_rejects_unknown_prefix() {
    match PrivateArnBuilder::new().add_part("bogus", "x".to_string()) {
        Err(ArnError::InvalidPrefix(token)) => assert_eq!(token, "bogus"),
        other => panic!("expected InvalidPrefix(\"bogus\"), got {:?}", other),
    }
}
