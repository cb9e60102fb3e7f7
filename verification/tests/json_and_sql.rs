use divar_sweep::jsonval::combination_outcome;
use divar_sweep::jsonval::count_or_zero;
use divar_sweep::jsonval::extract_count;
use divar_sweep::jsonval::extract_rate_fields;
use divar_sweep::jsonval::SkipReason;
use divar_sweep::rates::convert_records;
use divar_sweep::sqltext::build_conn_str;
use divar_sweep::sqltext::bulk_insert_sql;
use divar_sweep::sqltext::create_tables_sql;
use divar_sweep::sqltext::listings_insert_sql;
use divar_sweep::sqltext::view_statements;

#[test]
fn stub_count_body_yields_42() {
    assert_eq!(extract_count("{\"count\": 42}"), Some(42));
}

#[test]
fn non_json_body_is_the_recoverable_failure() {
    assert_eq!(extract_count("<html>busy</html>"), None);
    assert_eq!(extract_count(""), None);
}

#[test]
fn missing_or_non_integer_count_defaults_to_zero() {
    assert_eq!(extract_count("{}"), Some(0));
    assert_eq!(extract_count("{\"count\": \"many\"}"), Some(0));
    assert_eq!(extract_count("{\"count\": 3.5}"), Some(0));
    assert_eq!(extract_count("{\"total\": 9}"), Some(0));
}

#[test]
fn count_or_zero_keeps_storable_values_only() {
    assert_eq!(count_or_zero(None), 0);
    assert_eq!(count_or_zero(Some(42)), 42);
    assert_eq!(count_or_zero(Some(i32::MAX as i64)), i32::MAX);
    assert_eq!(count_or_zero(Some(i32::MAX as i64 + 1)), 0);
    assert_eq!(count_or_zero(Some(-5)), 0);
}

#[test]
fn one_combination_is_decided_by_its_own_fetch() {
    assert_eq!(combination_outcome(&None), Err(SkipReason::NoResponse));
    assert_eq!(
        combination_outcome(&Some("<html>busy</html>".to_string())),
        Err(SkipReason::BodyNotJson)
    );
    assert_eq!(combination_outcome(&Some("{\"count\": 42}".to_string())), Ok(42));
    assert_eq!(combination_outcome(&Some("{}".to_string())), Ok(0));
}

#[test]
fn skip_reasons_have_log_messages() {
    assert_eq!(SkipReason::NoResponse.message(), "no response before the timeout");
    assert_eq!(SkipReason::BodyNotJson.message(), "response body was not JSON");
}

#[test]
fn rate_fields_come_from_positions_6_and_3() {
    let body = "{\"data\": [[\"a\", \"b\", \"c\", \"502,350\", \"e\", \"f\", \"2023/05/14\", \"g\"]]}";
    let raw = extract_rate_fields(body).expect("body is JSON");
    assert_eq!(
        raw,
        vec![(Some("2023/05/14".to_string()), Some("502,350".to_string()))]
    );
    let rows = convert_records(&raw).expect("record is well-formed");
    assert_eq!(rows, vec![(20230514, 502350)]);
}

#[test]
fn short_or_non_string_records_show_up_as_missing() {
    let body = "{\"data\": [[\"only\", \"four\", \"entries\", \"502,350\"]]}";
    let raw = extract_rate_fields(body).expect("body is JSON");
    assert_eq!(raw, vec![(None, Some("502,350".to_string()))]);
    let body2 = "{\"data\": [[0, 1, 2, 3, 4, 5, 6, 7]]}";
    let raw2 = extract_rate_fields(body2).expect("body is JSON");
    assert_eq!(raw2, vec![(None, None)]);
}

#[test]
fn rate_body_without_data_array_has_no_records() {
    assert_eq!(extract_rate_fields("{}"), Some(vec![]));
    assert_eq!(extract_rate_fields("{\"data\": 7}"), Some(vec![]));
    assert_eq!(extract_rate_fields("no json at all"), None);
}

#[test]
fn bulk_insert_lists_every_row_with_the_conflict_clause() {
    let rows = vec![(20230514i64, 502350i64), (20230515i64, 503000i64)];
    let sql = bulk_insert_sql(&rows).expect("two rows give a statement");
    assert_eq!(
        sql,
        "INSERT INTO dollar (date, dollar_price) VALUES (20230514, 502350), (20230515, 503000) ON CONFLICT (date) DO NOTHING;"
    );
}

#[test]
fn bulk_insert_of_nothing_is_no_statement() {
    assert_eq!(bulk_insert_sql(&vec![]), None);
}

#[test]
fn schema_creates_both_tables_idempotently() {
    let ddl = create_tables_sql();
    assert!(ddl.contains("CREATE TABLE IF NOT EXISTS divar_data"));
    assert!(ddl.contains("CREATE TABLE IF NOT EXISTS dollar"));
    assert!(ddl.contains(
        "PRIMARY KEY (date, lon1, lat1, lon2, lat2, category, price, recent_ads)"
    ));
    assert!(ddl.contains("date BIGINT PRIMARY KEY"));
}

#[test]
fn listings_insert_carries_the_duplicate_policy() {
    let sql = listings_insert_sql();
    assert_eq!(
        sql,
        "INSERT INTO divar_data (lon1, lat1, lon2, lat2, category, price, recent_ads, count) VALUES ($1, $2, $3, $4, $5, $6, $7, $8) ON CONFLICT DO NOTHING"
    );
}

#[test]
fn view_refresh_drops_then_recreates_both_views() {
    let stmts = view_statements();
    assert_eq!(stmts.len(), 4);
    assert_eq!(stmts[0], "DROP MATERIALIZED VIEW IF EXISTS mv_divar_apartment;");
    assert_eq!(stmts[1], "DROP MATERIALIZED VIEW IF EXISTS mv_divar_plotold;");
    assert!(stmts[2].starts_with("CREATE MATERIALIZED VIEW IF NOT EXISTS mv_divar_apartment"));
    assert!(stmts[2].contains("category = 'apartment-sell'"));
    assert!(stmts[2].contains("price = 8000000000"));
    assert!(stmts[2].contains("recent_ads = '7d'"));
    assert!(stmts[3].starts_with("CREATE MATERIALIZED VIEW IF NOT EXISTS mv_divar_plotold"));
    assert!(stmts[3].contains("category = 'plot-old'"));
}

#[test]
fn conn_str_is_libpq_keyword_form() {
    assert_eq!(
        build_conn_str(
            &"pgdk".to_string(),
            &"dev".to_string(),
            &"hunter2".to_string(),
            &"bourse".to_string()
        ),
        "host=pgdk user=dev password=hunter2 dbname=bourse"
    );
}
