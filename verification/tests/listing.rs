use audit_logger::models::LogQueryParams;
use audit_logger::query::{
    effective_limit, effective_offset, predicates, BindValue, Column, Comparison, Predicate,
    QueryPlan, DEFAULT_LIMIT, MAX_LIMIT,
};

fn params(
    event_type: Option<&str>,
    severity: Option<&str>,
    from_date: Option<i64>,
    to_date: Option<i64>,
) -> LogQueryParams {
    LogQueryParams {
        event_type: event_type.map(|s| s.to_string()),
        severity: severity.map(|s| s.to_string()),
        limit: None,
        offset: None,
        from_date,
        to_date,
    }
}

#[test]
fn limit_defaults_to_100_and_is_capped_at_1000() {
    assert_eq!(DEFAULT_LIMIT, 100);
    assert_eq!(MAX_LIMIT, 1000);
    assert_eq!(effective_limit(None), 100);
    assert_eq!(effective_limit(Some(5)), 5);
    assert_eq!(effective_limit(Some(1000)), 1000);
    assert_eq!(effective_limit(Some(1001)), 1000);
    assert_eq!(effective_limit(Some(5000)), 1000);
    assert_eq!(effective_limit(Some(i64::MAX)), 1000);
    assert_eq!(effective_limit(Some(0)), 0);
    assert_eq!(effective_limit(Some(-3)), -3);
}

#[test]
fn offset_defaults_to_0() {
    assert_eq!(effective_offset(None), 0);
    assert_eq!(effective_offset(Some(40)), 40);
    assert_eq!(effective_offset(Some(-1)), -1);
}

#[test]
fn no_filter_gives_no_condition() {
    let plan = QueryPlan::new(&params(None, None, None, None));
    assert!(plan.predicates.is_empty());
    assert_eq!(plan.limit, 100);
    assert_eq!(plan.offset, 0);
    assert_eq!(plan.count_sql(), "SELECT COUNT(*) FROM logs WHERE 1=1");
    assert_eq!(
        plan.select_sql(),
        "SELECT * FROM logs WHERE 1=1 ORDER BY created_at DESC, id ASC LIMIT $1 OFFSET $2"
    );
    assert_eq!(plan.count_binds(), vec![]);
    assert_eq!(plan.binds(), vec![BindValue::Integer(100), BindValue::Integer(0)]);
}

#[test]
fn all_filters_are_numbered_in_order() {
    let mut all = params(Some("deploy"), Some("info"), Some(10), Some(20));
    all.limit = Some(5000);
    all.offset = Some(7);
    let plan = QueryPlan::new(&all);
    assert_eq!(
        plan.predicates,
        vec![
            Predicate {
                column: Column::EventType,
                comparison: Comparison::Equal,
                value: BindValue::Text("deploy".to_string()),
            },
            Predicate {
                column: Column::Severity,
                comparison: Comparison::Equal,
                value: BindValue::Text("info".to_string()),
            },
            Predicate {
                column: Column::CreatedAt,
                comparison: Comparison::AtLeast,
                value: BindValue::Instant(10),
            },
            Predicate {
                column: Column::CreatedAt,
                comparison: Comparison::AtMost,
                value: BindValue::Instant(20),
            },
        ]
    );
    assert_eq!(
        plan.count_sql(),
        "SELECT COUNT(*) FROM logs WHERE 1=1 AND event_type = $1 AND severity = $2 \
         AND created_at >= $3 AND created_at <= $4"
    );
    assert_eq!(
        plan.select_sql(),
        "SELECT * FROM logs WHERE 1=1 AND event_type = $1 AND severity = $2 \
         AND created_at >= $3 AND created_at <= $4 \
         ORDER BY created_at DESC, id ASC LIMIT $5 OFFSET $6"
    );
    assert_eq!(
        plan.binds(),
        vec![
            BindValue::Text("deploy".to_string()),
            BindValue::Text("info".to_string()),
            BindValue::Instant(10),
            BindValue::Instant(20),
            BindValue::Integer(1000),
            BindValue::Integer(7),
        ]
    );
    assert_eq!(plan.count_binds().len(), 4);
}

#[test]
fn positions_do_not_depend_on_which_filters_are_absent() {
    let plan = QueryPlan::new(&params(None, Some("warn"), None, Some(99)));
    assert_eq!(
        plan.select_sql(),
        "SELECT * FROM logs WHERE 1=1 AND severity = $1 AND created_at <= $2 \
         ORDER BY created_at DESC, id ASC LIMIT $3 OFFSET $4"
    );
    assert_eq!(
        plan.count_sql(),
        "SELECT COUNT(*) FROM logs WHERE 1=1 AND severity = $1 AND created_at <= $2"
    );
    assert_eq!(
        plan.binds(),
        vec![
            BindValue::Text("warn".to_string()),
            BindValue::Instant(99),
            BindValue::Integer(100),
            BindValue::Integer(0),
        ]
    );

    let plan = QueryPlan::new(&params(None, None, Some(5), None));
    assert_eq!(
        plan.select_sql(),
        "SELECT * FROM logs WHERE 1=1 AND created_at >= $1 \
         ORDER BY created_at DESC, id ASC LIMIT $2 OFFSET $3"
    );
    assert_eq!(plan.count_binds(), vec![BindValue::Instant(5)]);
}

#[test]
fn every_subset_of_filters_binds_as_many_values_as_it_has_placeholders() {
    for mask in 0..16u32 {
        let p = params(
            if mask & 1 != 0 { Some("a") } else { None },
            if mask & 2 != 0 { Some("b") } else { None },
            if mask & 4 != 0 { Some(1) } else { None },
            if mask & 8 != 0 { Some(2) } else { None },
        );
        let n = mask.count_ones() as usize;
        assert_eq!(predicates(&p).len(), n);
        let plan = QueryPlan::new(&p);
        let select = plan.select_sql();
        let count = plan.count_sql();
        assert_eq!(select.matches('$').count(), n + 2);
        assert_eq!(count.matches('$').count(), n);
        assert_eq!(plan.binds().len(), n + 2);
        assert_eq!(plan.count_binds().len(), n);
        for position in 1..=n {
            assert!(count.contains(&format!("${}", position)));
        }
        assert!(select.ends_with(&format!(" LIMIT ${} OFFSET ${}", n + 1, n + 2)));
    }
}

#[test]
fn long_lists_of_conditions_get_decimal_positions() {
    let mut predicates = Vec::new();
    for i in 0..12 {
        predicates.push(Predicate {
            column: Column::CreatedAt,
            comparison: Comparison::AtLeast,
            value: BindValue::Instant(i),
        });
    }
    let plan = QueryPlan { predicates, limit: 10, offset: 0 };
    let sql = plan.select_sql();
    assert!(sql.contains(" AND created_at >= $9 AND created_at >= $10 AND created_at >= $11"));
    assert!(sql.ends_with(" LIMIT $13 OFFSET $14"));
}

#[test]
fn column_and_comparison_texts() {
    assert_eq!(Column::EventType.as_str(), "event_type");
    assert_eq!(Column::Severity.as_str(), "severity");
    assert_eq!(Column::CreatedAt.as_str(), "created_at");
    assert_eq!(Comparison::Equal.as_str(), "=");
    assert_eq!(Comparison::AtLeast.as_str(), ">=");
    assert_eq!(Comparison::AtMost.as_str(), "<=");
}
