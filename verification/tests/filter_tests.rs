use qubit_metadata_verified::{
    DataType, ExpressionField, ExpressionFields, ExpressionKind, FilterDecodeBudget, FilterExpression, FilterExpressionView,
    FilterExpressionWireV1, FilterLimitKind, FilterLimits, FilterMatchOptions, Metadata, MetadataError,
    MetadataFilter, MetadataFilterWireV1, MetadataValue, NumericComparisonPolicy, WireValue,
};

fn build(builder: qubit_metadata_verified::FilterExpressionBuilder) -> FilterExpression {
    builder.build().expect("expression should build")
}

fn filter_of(expression: FilterExpression) -> MetadataFilter {
    MetadataFilter::builder()
        .expression(expression)
        .build()
        .expect("filter should build")
}

fn record() -> Metadata {
    Metadata::new()
        .with("status", MetadataValue::String("active".to_owned()))
        .with("count", MetadataValue::Int32(5))
        .with("owner", MetadataValue::Unset(DataType::String))
}

#[test]
fn test_equality_and_range_conditions() {
    let meta = record();
    let eq = filter_of(build(FilterExpression::builder().eq("status", MetadataValue::String("active".to_owned()))));
    assert!(eq.matches(&meta));
    let ne = filter_of(build(FilterExpression::builder().ne("status", MetadataValue::String("active".to_owned()))));
    assert!(!ne.matches(&meta));
    let gt = filter_of(build(FilterExpression::builder().gt("count", MetadataValue::Int64(4))));
    assert!(gt.matches(&meta));
    let le = filter_of(build(FilterExpression::builder().le("count", MetadataValue::UInt8(4))));
    assert!(!le.matches(&meta));
    let ge = filter_of(build(FilterExpression::builder().ge("count", MetadataValue::Int8(5))));
    assert!(ge.matches(&meta));
    let lt = filter_of(build(FilterExpression::builder().lt("count", MetadataValue::Int32(6))));
    assert!(lt.matches(&meta));
}

#[test]
fn test_missing_and_unset_values_are_unknown_under_negation() {
    let meta = record();
    let missing = build(FilterExpression::builder().eq("absent", MetadataValue::Int32(1)));
    assert!(!filter_of(missing.clone()).matches(&meta));
    let negated = missing.try_not().expect("negation should build");
    assert!(!filter_of(negated).matches(&meta));
    let unset = build(FilterExpression::builder().eq("owner", MetadataValue::String("x".to_owned())).not());
    assert!(!filter_of(unset).matches(&meta));
}

#[test]
fn test_existence_conditions() {
    let meta = record();
    assert!(filter_of(build(FilterExpression::builder().exists_key("status"))).matches(&meta));
    assert!(!filter_of(build(FilterExpression::builder().exists_key("owner"))).matches(&meta));
    assert!(filter_of(build(FilterExpression::builder().not_exists("owner"))).matches(&meta));
    assert!(filter_of(build(FilterExpression::builder().not_exists("absent"))).matches(&meta));
}

#[test]
fn test_membership_conditions() {
    let meta = record();
    let inside = build(FilterExpression::builder().in_set(
        "status",
        vec![MetadataValue::String("idle".to_owned()), MetadataValue::String("active".to_owned())],
    ));
    assert!(filter_of(inside).matches(&meta));
    let outside = build(FilterExpression::builder().not_in_set("count", vec![MetadataValue::Int32(1)]));
    assert!(filter_of(outside).matches(&meta));
    let too_many: Vec<MetadataValue> = (0..129).map(MetadataValue::Int32).collect();
    assert_eq!(
        FilterExpression::builder().in_set("count", too_many).build().err(),
        Some(MetadataError::FilterLimitExceeded {
            kind: FilterLimitKind::SetValues,
            value: 129,
            maximum: 128,
        })
    );
}

#[test]
fn test_groups_and_negation() {
    let meta = record();
    let expression = build(
        FilterExpression::builder()
            .exists_key("status")
            .or_group(|group| group.eq("count", MetadataValue::Int32(0)).eq("count", MetadataValue::Int32(5))),
    );
    assert!(filter_of(expression).matches(&meta));
    let expression = build(
        FilterExpression::builder()
            .and_group(|group| group.exists_key("absent"))
            .not(),
    );
    assert!(filter_of(expression).matches(&meta));
}

#[test]
fn test_builder_errors() {
    assert!(matches!(
        FilterExpression::builder().build(),
        Err(MetadataError::InvalidFilterExpression { .. })
    ));
    assert!(matches!(
        FilterExpression::builder().not().build(),
        Err(MetadataError::InvalidFilterExpression { .. })
    ));
    let long_key = "k".repeat(257);
    assert!(matches!(
        FilterExpression::builder().exists_key(&long_key).build(),
        Err(MetadataError::FilterLimitExceeded {
            kind: FilterLimitKind::KeyBytes,
            ..
        })
    ));
}

#[test]
fn test_constants_and_simplification() {
    let meta = Metadata::new();
    assert!(MetadataFilter::all().matches(&meta));
    assert!(!MetadataFilter::none().matches(&meta));
    let leaf = build(FilterExpression::builder().exists_key("a"));
    let and_true = FilterExpression::match_all().try_and(leaf.clone()).expect("and builds");
    assert_eq!(and_true.node_count(), leaf.node_count());
    let and_false = FilterExpression::match_none().try_and(leaf.clone()).expect("and builds");
    assert!(matches!(and_false.view(), FilterExpressionView::False));
    let or_true = leaf.clone().try_or(FilterExpression::match_all()).expect("or builds");
    assert!(matches!(or_true.view(), FilterExpressionView::True));
    let double = leaf.clone().try_not().and_then(|e| e.try_not()).expect("not builds");
    assert!(matches!(double.view(), FilterExpressionView::Condition(_)));
    let pair = leaf.clone().try_and(build(FilterExpression::builder().exists_key("b"))).expect("and builds");
    assert_eq!(pair.node_count(), 3);
    assert_eq!(pair.max_depth(), 2);
}

#[test]
fn test_filter_limits_builder_and_validation() {
    let limits = FilterLimits::builder().max_nodes(2).build().expect("limits build");
    assert_eq!(limits.max_nodes(), 2);
    assert_eq!(limits.max_depth(), 64);
    assert_eq!(
        FilterLimits::builder().max_depth(0).build().err(),
        Some(MetadataError::InvalidFilterLimit {
            kind: FilterLimitKind::Depth,
            value: 0,
            maximum: 64,
        })
    );
    assert!(FilterLimits::builder().max_nodes(257).build().is_err());
    let three = build(FilterExpression::builder().exists_key("a").exists_key("b"));
    let refused = MetadataFilter::builder().expression(three).limits(limits).build();
    assert_eq!(
        refused.err(),
        Some(MetadataError::FilterLimitExceeded {
            kind: FilterLimitKind::Nodes,
            value: 3,
            maximum: 2,
        })
    );
    assert_eq!(MetadataFilter::builder().build().err(), Some(MetadataError::MissingFilterExpression));
}

#[test]
fn test_wire_round_trip_keeps_matching() {
    let meta = record();
    let options = FilterMatchOptions::builder()
        .numeric_comparison_policy(NumericComparisonPolicy::Exact)
        .build();
    let filter = MetadataFilter::builder()
        .expression(build(
            FilterExpression::builder()
                .eq("status", MetadataValue::String("active".to_owned()))
                .or_group(|g| g.gt("count", MetadataValue::Int32(100)).not_exists("owner")),
        ))
        .options(options)
        .build()
        .expect("filter builds");
    let wire = MetadataFilterWireV1::from_filter(&filter);
    assert_eq!(wire.version, 1);
    let decoded = wire.into_filter(filter.limits()).expect("decodes");
    assert_eq!(decoded.matches(&meta), filter.matches(&meta));
    assert_eq!(decoded.expression().node_count(), filter.expression().node_count());
    assert_eq!(MetadataFilterWireV1::from_filter(&decoded), wire);
}

#[test]
fn test_wire_version_is_checked() {
    let wire = MetadataFilterWireV1 {
        version: 2,
        expression: FilterExpressionWireV1::All,
        options: FilterMatchOptions::default(),
    };
    match wire.into_filter(FilterLimits::max_limits()) {
        Err(MetadataError::InvalidFilterExpression { message }) => {
            assert_eq!(message, "unsupported MetadataFilter wire format version 2; expected 1")
        }
        _ => panic!("version 2 must be refused"),
    }
}

#[test]
fn test_wire_tree_round_trip() {
    let expression = build(
        FilterExpression::builder()
            .in_set("k", vec![MetadataValue::Int32(1), MetadataValue::Int32(2)])
            .not(),
    );
    let wire = FilterExpressionWireV1::from_expression(&expression);
    let back = wire.into_expression().expect("converts back");
    assert_eq!(FilterExpressionWireV1::from_expression(&back), wire);
    assert!(wire.validate_limits(FilterLimits::max_limits()).is_ok());
    let scalar = FilterExpressionWireV1::Eq {
        key: "k".to_owned(),
        value: WireValue::Scalar(MetadataValue::Bool(true)),
    };
    assert!(scalar.into_expression().is_ok());
}

fn fields(kind: Option<ExpressionKind>, key: Option<&str>) -> ExpressionFields {
    ExpressionFields {
        kind,
        key: key.map(|k| k.to_owned()),
        value: None,
        values: None,
        children: None,
        expression: None,
    }
}

#[test]
fn test_expression_fields_into_wire() {
    assert_eq!(
        fields(Some(ExpressionKind::Exists), Some("k")).into_wire(),
        Ok(FilterExpressionWireV1::Exists { key: "k".to_owned() })
    );
    assert!(fields(Some(ExpressionKind::Exists), None).into_wire().is_err());
    assert!(fields(Some(ExpressionKind::All), Some("k")).into_wire().is_err());
    assert!(fields(None, None).into_wire().is_err());
}

#[test]
fn test_decode_budget_counts_nodes() {
    let limits = FilterLimits::builder().max_nodes(2).max_depth(2).build().expect("limits build");
    let mut budget = FilterDecodeBudget::new(limits);
    assert_eq!(budget.consumed(), 0);
    assert!(budget.enter_node(1).is_ok());
    assert!(budget.enter_node(2).is_ok());
    assert_eq!(budget.consumed(), 2);
    assert!(matches!(
        budget.enter_node(2),
        Err(MetadataError::FilterLimitExceeded {
            kind: FilterLimitKind::Nodes,
            ..
        })
    ));
    let mut deep = FilterDecodeBudget::new(limits);
    assert!(matches!(
        deep.enter_node(3),
        Err(MetadataError::FilterLimitExceeded {
            kind: FilterLimitKind::Depth,
            value: 3,
            maximum: 2,
        })
    ));
    assert!(budget.check_key("ab").is_ok());
    assert!(budget.check_set_value(128).is_ok());
    assert!(budget.check_set_value(129).is_err());
}

fn big(negative: bool, magnitude: Vec<u8>) -> qubit_metadata_verified::BigDigits {
    qubit_metadata_verified::BigDigits { negative, magnitude }
}

#[test]
fn test_big_numbers_compare_by_value() {
    let meta = Metadata::new()
        .with("int", MetadataValue::Int32(5))
        .with("huge", MetadataValue::BigInteger(big(false, vec![0; 16].into_iter().chain([1]).collect())))
        .with("price", MetadataValue::BigDecimal(big(false, vec![15]), 1))
        .with("debt", MetadataValue::BigInteger(big(true, vec![3])));
    let eq_big = build(FilterExpression::builder().eq("int", MetadataValue::BigInteger(big(false, vec![5]))));
    assert!(filter_of(eq_big).matches(&meta));
    let eq_decimal = build(FilterExpression::builder().eq("int", MetadataValue::BigDecimal(big(false, vec![50]), 1)));
    assert!(filter_of(eq_decimal).matches(&meta));
    let huge = build(FilterExpression::builder().gt("huge", MetadataValue::UInt128(u128::MAX)));
    assert!(filter_of(huge).matches(&meta));
    let price_low = build(FilterExpression::builder().gt("price", MetadataValue::Int8(1)));
    assert!(filter_of(price_low).matches(&meta));
    let price_high = build(FilterExpression::builder().lt("price", MetadataValue::BigDecimal(big(false, vec![2]), 0)));
    assert!(filter_of(price_high).matches(&meta));
    let negative = build(FilterExpression::builder().lt("debt", MetadataValue::Int64(-2)));
    assert!(filter_of(negative).matches(&meta));
    let member = build(FilterExpression::builder().in_set(
        "price",
        vec![MetadataValue::BigDecimal(big(false, vec![150]), 2), MetadataValue::Int32(7)],
    ));
    assert!(filter_of(member).matches(&meta));
    let scaled_up = build(FilterExpression::builder().eq("int", MetadataValue::BigDecimal(big(false, vec![5]), -1)));
    assert!(!filter_of(scaled_up).matches(&meta));
}

#[test]
fn test_and_flattens_in_order_and_set_limit_is_reported_once() {
    let left = build(FilterExpression::builder().exists_key("left_1").exists_key("left_2"));
    let right = build(FilterExpression::builder().exists_key("right_1").exists_key("right_2"));
    let joined = left.try_and(right).expect("and builds");
    match joined.view() {
        FilterExpressionView::And(children) => {
            let keys: Vec<&str> = children
                .iter()
                .map(|c| match c.view() {
                    FilterExpressionView::Condition(condition) => condition.key(),
                    _ => panic!("children are conditions"),
                })
                .collect();
            assert_eq!(keys, vec!["left_1", "left_2", "right_1", "right_2"]);
        }
        _ => panic!("expected a flattened AND"),
    }
    let values: Vec<MetadataValue> = (0..200).map(MetadataValue::Int64).collect();
    assert_eq!(
        FilterExpression::builder().in_set("k", values).build().err(),
        Some(MetadataError::FilterLimitExceeded {
            kind: FilterLimitKind::SetValues,
            value: 129,
            maximum: 128,
        })
    );
}

#[test]
fn test_constant_laws_hold_as_values() {
    let e = build(FilterExpression::builder().exists_key("a").eq("b", MetadataValue::Int32(1)));
    assert_eq!(FilterExpression::match_all().try_and(e.clone()), Ok(e.clone()));
    assert_eq!(e.clone().try_and(FilterExpression::match_all()), Ok(e.clone()));
    assert_eq!(FilterExpression::match_none().try_and(e.clone()), Ok(FilterExpression::match_none()));
    assert_eq!(e.clone().try_and(FilterExpression::match_none()), Ok(FilterExpression::match_none()));
    assert_eq!(FilterExpression::match_none().try_or(e.clone()), Ok(e.clone()));
    assert_eq!(e.clone().try_or(FilterExpression::match_none()), Ok(e.clone()));
    assert_eq!(FilterExpression::match_all().try_or(e.clone()), Ok(FilterExpression::match_all()));
    assert_eq!(e.clone().try_or(FilterExpression::match_all()), Ok(FilterExpression::match_all()));
    let once = e.clone().try_not().expect("not builds");
    assert_eq!(once.clone().try_not(), Ok(e.clone()));
    assert_eq!(once.clone().try_not().and_then(|x| x.try_not()), Ok(once));
    assert_eq!(FilterExpression::match_all().try_not(), Ok(FilterExpression::match_none()));
    assert_eq!(FilterExpression::match_none().try_not(), Ok(FilterExpression::match_all()));
}

#[test]
fn test_expression_object_grammar() {
    assert_eq!(ExpressionField::from_name("children"), Ok(ExpressionField::Children));
    assert_eq!(
        ExpressionField::from_name("color"),
        Err("unknown field `color`, expected one of `kind`, `key`, `value`, `values`, `children`, `expression`".to_owned())
    );
    assert_eq!(ExpressionKind::from_name("not_in"), Ok(ExpressionKind::NotIn));
    assert!(ExpressionKind::from_name("xor").is_err());
    let fields = ExpressionFields {
        kind: Some(ExpressionKind::Exists),
        key: None,
        value: None,
        values: None,
        children: None,
        expression: None,
    };
    assert_eq!(fields.check_unset(ExpressionField::Kind), Err("duplicate field `kind`".to_owned()));
    assert_eq!(fields.check_unset(ExpressionField::Key), Ok(()));
}
