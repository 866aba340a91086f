use stellar_k8s::crd::DbMaintenanceConfig;
use stellar_k8s::maintenance::controller::{
    checked_window_duration, is_time_in_window, maintenance_plan, parse_window_duration, repack_statement,
    MaintenanceController, TimeOfDay,
};
use stellar_k8s::maintenance::query_profiler::{create_index_sql, recommend_indexes};

fn config(start: &str, duration: &str) -> DbMaintenanceConfig {
    DbMaintenanceConfig {
        enabled: true,
        window_start: start.to_string(),
        window_duration: duration.to_string(),
        bloat_threshold_percent: 30,
        auto_reindex: true,
        read_pool_coordination: false,
        enable_query_profiling: false,
        auto_index_maintenance: false,
        slow_query_threshold_ms: 100,
    }
}

#[test]
fn test_is_time_in_window_basic() {
    let cfg = config("02:00", "2h");
    assert!(is_time_in_window(&cfg, TimeOfDay::from_hms(2, 30, 0)));
    assert!(!is_time_in_window(&cfg, TimeOfDay::from_hms(4, 1, 0)));
}

#[test]
fn test_is_time_in_window_wraps_midnight() {
    let cfg = config("23:00", "3h");
    assert!(is_time_in_window(&cfg, TimeOfDay::from_hms(23, 30, 0)));
    assert!(is_time_in_window(&cfg, TimeOfDay::from_hms(0, 30, 0)));
    assert!(!is_time_in_window(&cfg, TimeOfDay::from_hms(2, 30, 1)));
}

#[test]
fn test_parse_window_duration_falls_back_to_default() {
    assert_eq!(parse_window_duration("2h"), chrono::Duration::hours(2).num_seconds());
    assert_eq!(parse_window_duration("90m"), chrono::Duration::minutes(90).num_seconds());
    assert_eq!(parse_window_duration("invalid"), chrono::Duration::hours(2).num_seconds());
}

#[test]
fn window_duration_combines_units_in_any_case() {
    assert_eq!(parse_window_duration(" 1H30m15S "), 5415);
    assert_eq!(parse_window_duration("45s"), 45);
    assert_eq!(parse_window_duration("0h0m"), 7200);
    assert_eq!(parse_window_duration(""), 7200);
    assert_eq!(parse_window_duration("30m1h"), 7200);
    assert_eq!(parse_window_duration("1h1h"), 7200);
    assert_eq!(parse_window_duration("h"), 7200);
    assert_eq!(parse_window_duration("99999999999999999999h"), 7200);
}

#[test]
fn oversized_window_is_refused() {
    assert_eq!(checked_window_duration("9223372036854775s"), Some(9223372036854775));
    assert_eq!(checked_window_duration("9223372036854776s"), None);
    assert_eq!(checked_window_duration("3000000000000000h"), None);
}

#[test]
fn window_start_accepts_seconds_and_defaults_to_two() {
    // "HH:MM:SS" start.
    let cfg = config("01:00:30", "1m");
    assert!(is_time_in_window(&cfg, TimeOfDay::from_hms(1, 1, 30)));
    assert!(!is_time_in_window(&cfg, TimeOfDay::from_hms(1, 0, 29)));
    // Unparsable start falls back to 02:00.
    let cfg = config("soon", "1h");
    assert!(is_time_in_window(&cfg, TimeOfDay::from_hms(2, 59, 59)));
    assert!(!is_time_in_window(&cfg, TimeOfDay::from_hms(1, 59, 59)));
}

#[test]
fn day_long_window_always_holds() {
    let cfg = config("12:00", "24h");
    assert!(is_time_in_window(&cfg, TimeOfDay::from_hms(3, 0, 0)));
}

#[test]
fn disabled_or_missing_settings_are_never_in_window() {
    let c = MaintenanceController::new();
    let mut cfg = config("02:00", "2h");
    assert_eq!(c.is_in_window(&Some(cfg.clone()), TimeOfDay::from_hms(2, 30, 0)), Some(true));
    cfg.enabled = false;
    assert_eq!(c.is_in_window(&Some(cfg), TimeOfDay::from_hms(2, 30, 0)), Some(false));
    assert_eq!(c.is_in_window(&None, TimeOfDay::from_hms(2, 30, 0)), Some(false));
    assert_eq!(c.is_in_window(&Some(config("02:00", "9999999999999999s")), TimeOfDay::from_hms(2, 30, 0)), None);
}

#[test]
fn recommend_indexes_parses_where_clauses() {
    let query = "SELECT * FROM payments WHERE payment_id = $1 AND ledger_seq = $2".to_string();

    let suggestions = recommend_indexes(&[query]);
    assert_eq!(suggestions.len(), 1);
    let suggestion = &suggestions[0];
    assert_eq!(suggestion.table, "payments");
    assert_eq!(suggestion.columns, vec!["payment_id".to_string(), "ledger_seq".to_string()]);
    assert!(suggestion.index_name.starts_with("idx_payments_payment_id_ledger_seq"));
}

#[test]
fn create_index_sql_lists_columns() {
    let query = "SELECT * FROM payments WHERE payment_id = $1 AND ledger_seq = $2".to_string();
    let suggestions = recommend_indexes(&[query]);
    assert_eq!(
        create_index_sql(&suggestions[0]),
        "CREATE INDEX CONCURRENTLY IF NOT EXISTS idx_payments_payment_id_ledger_seq ON payments (payment_id, ledger_seq)"
    );
}

#[test]
fn queries_without_where_give_no_suggestion() {
    let suggestions = recommend_indexes(&["SELECT * FROM payments".to_string()]);
    assert!(suggestions.is_empty());
}

#[test]
fn plan_vacuums_and_reindexes_bloated_tables() {
    let mut cfg = config("02:00", "2h");
    cfg.auto_index_maintenance = true;
    let tables = vec!["ledgers".to_string(), "txhistory".to_string()];
    let p = maintenance_plan(&cfg, true, true, &tables).unwrap();
    assert!(!p.coordinate_read_pool);
    assert!(p.profile_queries);
    assert!(p.apply_index_suggestions);
    assert_eq!(p.tables.len(), 2);
    assert_eq!(p.tables[0].vacuum, "VACUUM ANALYZE ledgers");
    assert_eq!(p.tables[1].reindex.as_deref(), Some("REINDEX TABLE txhistory"));
    cfg.auto_reindex = false;
    let p = maintenance_plan(&cfg, true, true, &tables).unwrap();
    assert_eq!(p.tables[0].reindex, None);
    assert!(maintenance_plan(&cfg, false, true, &tables).is_none());
    assert!(maintenance_plan(&cfg, true, false, &tables).is_none());
    assert!(maintenance_plan(&cfg, true, true, &[]).is_none());
    assert_eq!(repack_statement(), "SELECT pg_repack.repack_table($1)");
}

#[test]
fn window_includes_its_start_and_end() {
    let cfg = config("02:00", "2h");
    assert!(is_time_in_window(&cfg, TimeOfDay::from_hms(2, 0, 0)));
    assert!(is_time_in_window(&cfg, TimeOfDay::from_hms(4, 0, 0)));
    assert!(!is_time_in_window(&cfg, TimeOfDay::from_hms(4, 0, 1)));
    assert!(!is_time_in_window(&cfg, TimeOfDay::from_hms(1, 59, 59)));
}
