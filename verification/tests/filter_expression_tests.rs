use qubit_metadata_verified::{
    DataType, FilterExpression, FilterExpressionView, FilterExpressionWireV1, FilterLimitKind, FilterLimits,
    MetadataError, WireValue,
};

/// Walks every node and checks that the cached metrics equal the recomputed
/// ones.
fn assert_cached_metrics_consistent(expression: &FilterExpression) {
    match expression.view() {
        FilterExpressionView::And(children) | FilterExpressionView::Or(children) => {
            for child in children {
                assert_cached_metrics_consistent(child);
            }
        }
        FilterExpressionView::Not(inner) => assert_cached_metrics_consistent(inner),
        FilterExpressionView::Condition(_) | FilterExpressionView::True | FilterExpressionView::False => {}
    }
    let (node_count, max_depth) = expression.recursive_metrics();
    assert_eq!(
        expression.node_count(),
        node_count,
        "cached node count differs from the expression tree"
    );
    assert_eq!(
        expression.max_depth(),
        max_depth,
        "cached maximum depth differs from the expression tree"
    );
}

#[test]
fn test_cached_metrics_match_recursive_metrics() {
    let leaf = FilterExpression::builder()
        .exists_key("leaf")
        .build()
        .expect("leaf expression should build");
    assert_cached_metrics_consistent(&leaf);

    let left = FilterExpression::builder()
        .exists_key("left_1")
        .exists_key("left_2")
        .build()
        .expect("left expression should build");
    let right = FilterExpression::builder()
        .exists_key("right_1")
        .exists_key("right_2")
        .build()
        .expect("right expression should build");
    let flattened = left.try_and(right).expect("flattened AND should build");
    assert_cached_metrics_consistent(&flattened);

    let nested = flattened
        .try_or(
            FilterExpression::builder()
                .exists_key("alternative")
                .build()
                .expect("alternative expression should build"),
        )
        .expect("nested OR should build")
        .try_not()
        .expect("negated expression should build");
    assert_cached_metrics_consistent(&nested);

    let simplified_and = FilterExpression::match_all()
        .try_and(nested.clone())
        .expect("true AND expression should simplify");
    assert_cached_metrics_consistent(&simplified_and);
    let simplified_or = FilterExpression::match_none()
        .try_or(nested)
        .expect("false OR expression should simplify");
    assert_cached_metrics_consistent(&simplified_or);
    let negated_constant = FilterExpression::match_all()
        .try_not()
        .expect("constant negation should simplify");
    assert_cached_metrics_consistent(&negated_constant);
}

fn non_scalar_payload() -> WireValue {
    WireValue::Collection(DataType::Int32)
}

#[test]
fn test_validate_limits_rejects_depth_nodes_key_and_membership() {
    let depth_limits = FilterLimits::builder()
        .max_depth(2)
        .build()
        .expect("limits should build");
    let too_deep = FilterExpressionWireV1::Not {
        expression: Box::new(FilterExpressionWireV1::Not {
            expression: Box::new(FilterExpressionWireV1::All),
        }),
    };
    assert!(matches!(
        too_deep.validate_limits(depth_limits),
        Err(MetadataError::FilterLimitExceeded {
            kind: FilterLimitKind::Depth,
            value: 3,
            maximum: 2,
        })
    ));

    let node_limits = FilterLimits::builder()
        .max_nodes(2)
        .build()
        .expect("limits should build");
    let too_many_nodes = FilterExpressionWireV1::And {
        children: vec![
            FilterExpressionWireV1::All,
            FilterExpressionWireV1::Nothing,
            FilterExpressionWireV1::All,
        ],
    };
    assert!(matches!(
        too_many_nodes.validate_limits(node_limits),
        Err(MetadataError::FilterLimitExceeded {
            kind: FilterLimitKind::Nodes,
            value: 3,
            maximum: 2,
        })
    ));

    let key_limits = FilterLimits::builder()
        .max_key_bytes(4)
        .build()
        .expect("limits should build");
    let long_key = FilterExpressionWireV1::Exists {
        key: "status".to_owned(),
    };
    assert!(matches!(
        long_key.validate_limits(key_limits),
        Err(MetadataError::FilterLimitExceeded {
            kind: FilterLimitKind::KeyBytes,
            value: 6,
            maximum: 4,
        })
    ));

    let set_limits = FilterLimits::builder()
        .max_set_values(1)
        .build()
        .expect("limits should build");
    let too_many_values = FilterExpressionWireV1::In {
        key: "k".to_owned(),
        values: vec![non_scalar_payload(), non_scalar_payload()],
    };
    assert!(matches!(
        too_many_values.validate_limits(set_limits),
        Err(MetadataError::FilterLimitExceeded {
            kind: FilterLimitKind::SetValues,
            value: 2,
            maximum: 1,
        })
    ));
}

#[test]
fn test_into_expression_rejects_non_scalar_operands_and_short_groups() {
    let non_scalar = FilterExpressionWireV1::Eq {
        key: "k".to_owned(),
        value: non_scalar_payload(),
    };
    assert!(matches!(
        non_scalar.into_expression(),
        Err(MetadataError::InvalidFilterExpression { .. })
    ));

    let single_child = FilterExpressionWireV1::And {
        children: vec![FilterExpressionWireV1::All],
    };
    assert!(matches!(
        single_child.into_expression(),
        Err(MetadataError::InvalidFilterExpression { .. })
    ));

    let three_children = FilterExpressionWireV1::Or {
        children: vec![
            FilterExpressionWireV1::All,
            FilterExpressionWireV1::Nothing,
            FilterExpressionWireV1::All,
        ],
    };
    let _ = three_children
        .into_expression()
        .expect("three-child groups should fold into an expression");
}
