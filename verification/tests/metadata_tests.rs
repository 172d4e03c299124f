use qubit_metadata_verified::{
    DataType, MatchOutcome, Metadata, MetadataError, MetadataLimits, MetadataValidationError, MetadataValue,
    MetadataValueKind, MetadataWireDecodeError, MetadataWireLimitKind, MetadataWireLimits, DEFAULT_MAX_JSON_BYTES,
    DEFAULT_MAX_KEY_BYTES, DEFAULT_MAX_METADATA_ENTRIES, DEFAULT_MAX_SCHEMA_FIELDS,
};

fn sample() -> Metadata {
    Metadata::new()
        .with("zeta", MetadataValue::Int32(3))
        .with("alpha", MetadataValue::String("a".to_owned()))
        .with("mid", MetadataValue::Bool(true))
}

#[test]
fn test_insert_returns_previous_value_and_len_counts_keys() {
    let mut meta = Metadata::new();
    assert!(meta.is_empty());
    assert_eq!(meta.insert("k", MetadataValue::Int64(1)), None);
    assert_eq!(meta.insert("k", MetadataValue::Int64(2)), Some(MetadataValue::Int64(1)));
    assert_eq!(meta.len(), 1);
    assert_eq!(meta.get_raw("k"), Some(&MetadataValue::Int64(2)));
    assert!(meta.contains_key("k"));
    assert!(!meta.contains_key("other"));
}

#[test]
fn test_keys_values_and_iter_follow_key_order() {
    let meta = sample();
    assert_eq!(meta.keys(), vec!["alpha".to_owned(), "mid".to_owned(), "zeta".to_owned()]);
    assert_eq!(
        meta.values(),
        vec![
            MetadataValue::String("a".to_owned()),
            MetadataValue::Bool(true),
            MetadataValue::Int32(3),
        ]
    );
    let pairs = meta.iter();
    assert_eq!(pairs.len(), 3);
    assert_eq!(pairs[0].0, "alpha");
    assert_eq!(pairs[2].1, MetadataValue::Int32(3));
    let inner = sample().into_inner();
    assert_eq!(inner[1], ("mid".to_owned(), MetadataValue::Bool(true)));
}

#[test]
fn test_remove_then_get_gives_nothing() {
    let mut meta = sample();
    assert_eq!(meta.remove("mid"), Some(MetadataValue::Bool(true)));
    assert_eq!(meta.remove("mid"), None);
    assert_eq!(meta.get_raw("mid"), None);
    assert_eq!(meta.len(), 2);
    meta.clear();
    assert!(meta.is_empty());
}

#[test]
fn test_entry_reports_missing_key() {
    let meta = sample();
    assert_eq!(meta.entry("alpha"), Ok(&MetadataValue::String("a".to_owned())));
    assert_eq!(meta.entry("nope"), Err(MetadataError::MissingKey("nope".to_owned())));
    assert_eq!(meta.data_type("zeta"), Some(DataType::Int32));
    assert_eq!(meta.data_type("nope"), None);
}

#[test]
fn test_set_overwrites() {
    let mut meta = sample();
    meta.set("alpha", MetadataValue::Unset(DataType::String));
    assert_eq!(meta.get_raw("alpha"), Some(&MetadataValue::Unset(DataType::String)));
    assert!(meta.get_raw("alpha").map(|v| v.is_unset()).unwrap_or(false));
}

#[test]
fn test_merge_prefers_the_other_side() {
    let mut left = Metadata::new()
        .with("a", MetadataValue::Int8(1))
        .with("b", MetadataValue::Int8(2));
    let right = Metadata::new()
        .with("b", MetadataValue::Int8(20))
        .with("c", MetadataValue::Int8(30));
    let copy = left.merged(&right);
    left.merge(right);
    assert_eq!(left.keys(), vec!["a".to_owned(), "b".to_owned(), "c".to_owned()]);
    assert_eq!(left.get_raw("b"), Some(&MetadataValue::Int8(20)));
    assert_eq!(copy.into_inner(), left.into_inner());
}

#[test]
fn test_retain_keeps_only_accepted_entries() {
    let mut meta = sample();
    meta.retain(|key, _value| key != "mid");
    assert_eq!(meta.keys(), vec!["alpha".to_owned(), "zeta".to_owned()]);
    let mut meta = sample();
    meta.retain(|_key, value| matches!(value, MetadataValue::Int32(_)));
    assert_eq!(meta.keys(), vec!["zeta".to_owned()]);
}

#[test]
fn test_clone_keeps_entries() {
    let meta = sample();
    let copy = meta.clone();
    assert_eq!(copy.into_inner(), meta.into_inner());
}

#[test]
fn test_validate_wire_contract_rejects_long_keys() {
    assert_eq!(sample().validate_wire_contract(), Ok(()));
    let long_key = "k".repeat(257);
    let meta = Metadata::new()
        .with("short", MetadataValue::Bool(false))
        .with(&long_key, MetadataValue::Bool(true));
    assert_eq!(
        meta.validate_wire_contract(),
        Err(MetadataError::WireLimitExceeded {
            kind: MetadataWireLimitKind::KeyBytes,
            value: 257,
            maximum: 256,
        })
    );
    let exact = "k".repeat(256);
    assert_eq!(Metadata::new().with(&exact, MetadataValue::Bool(true)).validate_wire_contract(), Ok(()));
}

#[test]
fn test_validate_wire_contract_rejects_too_many_entries() {
    let mut meta = Metadata::new();
    for i in 0..4097 {
        meta.set(&format!("key{i:05}"), MetadataValue::UInt32(i));
    }
    assert_eq!(
        meta.validate_wire_contract(),
        Err(MetadataError::WireLimitExceeded {
            kind: MetadataWireLimitKind::Entries,
            value: 4097,
            maximum: 4096,
        })
    );
}

#[test]
fn test_match_outcome_three_valued_logic() {
    assert_eq!(MatchOutcome::from_bool(true), MatchOutcome::True);
    assert_eq!(MatchOutcome::Unknown.not(), MatchOutcome::Unknown);
    assert_eq!(MatchOutcome::True.not(), MatchOutcome::False);
    assert_eq!(MatchOutcome::and(&[MatchOutcome::True, MatchOutcome::Unknown]), MatchOutcome::Unknown);
    assert_eq!(MatchOutcome::and(&[MatchOutcome::Unknown, MatchOutcome::False]), MatchOutcome::False);
    assert_eq!(MatchOutcome::and(&[]), MatchOutcome::True);
    assert_eq!(MatchOutcome::or(&[MatchOutcome::False, MatchOutcome::Unknown]), MatchOutcome::Unknown);
    assert_eq!(MatchOutcome::or(&[MatchOutcome::Unknown, MatchOutcome::True]), MatchOutcome::True);
    assert_eq!(MatchOutcome::or(&[]), MatchOutcome::False);
    assert!(MatchOutcome::True.is_match());
    assert!(!MatchOutcome::Unknown.is_match());
}

#[test]
fn test_error_messages() {
    assert_eq!(MetadataError::MissingKey("a".to_owned()).message(), "Metadata key not found: a");
    assert_eq!(
        MetadataError::MissingValue {
            key: "a".to_owned(),
            data_type: DataType::Int32,
        }
        .message(),
        "Metadata key 'a' has no concrete value (declared int32)"
    );
    assert_eq!(
        MetadataError::WireLimitExceeded {
            kind: MetadataWireLimitKind::Entries,
            value: 4097,
            maximum: 4096,
        }
        .message(),
        "Metadata wire Entries value 4097 exceeds the maximum of 4096"
    );
    assert_eq!(MetadataError::MissingFilterExpression.message(), "Metadata filter requires an expression");
    assert_eq!(DataType::BigDecimal.as_str(), "bigdecimal");
}

#[test]
fn test_metadata_limits_defaults_and_validation_messages() {
    let limits = MetadataLimits::default();
    assert_eq!(limits.max_metadata_entries(), DEFAULT_MAX_METADATA_ENTRIES);
    assert_eq!(limits.max_schema_fields(), DEFAULT_MAX_SCHEMA_FIELDS);
    assert_eq!(limits.max_key_bytes(), DEFAULT_MAX_KEY_BYTES);
    assert!(limits.validate().is_ok());
    let err = MetadataLimits::builder()
        .max_metadata_entries(4097)
        .build()
        .expect_err("entries above the maximum are refused");
    assert_eq!(err.to_string(), "metadata entries limit 4097 exceeds 4096");
    let err = MetadataLimits::builder()
        .max_schema_fields(5000)
        .build()
        .expect_err("fields above the maximum are refused");
    assert_eq!(err.to_string(), "schema fields limit 5000 exceeds 4096");
    let err = MetadataLimits::builder()
        .max_key_bytes(300)
        .build()
        .expect_err("key bytes above the maximum are refused");
    assert_eq!(err.to_string(), "metadata key limit 300 exceeds 256");
    let small = MetadataLimits::builder().max_key_bytes(8).build().expect("small limits build");
    assert_eq!(small.max_key_bytes(), 8);
}

#[test]
fn test_wire_limits_checks() {
    let limits = MetadataWireLimits::new(DEFAULT_MAX_JSON_BYTES).with_max_metadata_entries(2);
    assert_eq!(limits.max_json_bytes(), DEFAULT_MAX_JSON_BYTES);
    assert_eq!(limits.max_metadata_entries(), 2);
    assert!(limits.check_metadata_entries(2).is_ok());
    assert!(matches!(
        limits.check_metadata_entries(3),
        Err(MetadataWireDecodeError::LimitExceeded { .. })
    ));
    assert!(limits.check_key_bytes(DEFAULT_MAX_KEY_BYTES).is_ok());
    assert!(limits.check_key_bytes(DEFAULT_MAX_KEY_BYTES + 1).is_err());
    assert!(limits.validate_metadata_limits().is_ok());
    let too_large = MetadataWireLimits::new(DEFAULT_MAX_JSON_BYTES).with_max_key_bytes(DEFAULT_MAX_KEY_BYTES + 1);
    assert!(matches!(
        too_large.validate_metadata_limits(),
        Err(MetadataWireDecodeError::InvalidLimit { .. })
    ));
}

#[test]
fn test_validation_error_collects_issues() {
    assert!(MetadataValidationError::from_issues(Vec::new()).is_none());
    let one = MetadataValidationError::from_issue(MetadataError::MissingFilterExpression);
    assert_eq!(one.len(), 1);
    assert!(!one.is_empty());
    let many = MetadataValidationError::from_issues(vec![
        MetadataError::MissingKey("a".to_owned()),
        MetadataError::MissingFilterExpression,
    ])
    .expect("non-empty issues");
    assert_eq!(many.issues()[0], MetadataError::MissingKey("a".to_owned()));
    assert_eq!(many.clone().into_issues().len(), 2);
    assert_eq!(MetadataValueKind::Null.as_str(), "null");
}

#[test]
fn test_validation_error_message_numbers_issues() {
    let error = MetadataValidationError::from_issues(vec![
        MetadataError::MissingKey("a".to_owned()),
        MetadataError::MissingFilterExpression,
    ])
    .expect("non-empty issues");
    assert_eq!(
        error.message(),
        "2 metadata validation issue(s); 1: Metadata key not found: a; 2: Metadata filter requires an expression"
    );
    assert_eq!(error.clone(), error);
}

#[test]
fn test_wire_limits_hold_shared_json_bound() {
    let limits = MetadataWireLimits::new(10).with_wire(qubit_metadata_verified::WireLimits::new(2048));
    assert_eq!(limits.max_json_bytes(), 2048);
    assert_eq!(limits.wire().max_input_bytes(), 2048);
    assert_eq!(limits.wire(), qubit_metadata_verified::WireLimits::new(2048));
}
