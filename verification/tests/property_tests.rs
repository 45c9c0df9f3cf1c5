//! Scenario tests for the library's stated behaviour: round-trips through
//! the store, status normalization, CSV defaulting, bootstrap idempotence,
//! delete semantics, and exact parser values.

use job_tracker::bootstrap::{bootstrap, BootstrapOutcome};
use job_tracker::csv_reader::parse_csv_jobs;
use job_tracker::database_methods::{
    count_rows, create_table, enter_data, get_jobs, open_memory, remove_data,
};
use job_tracker::job::{applied_from_int, applied_from_str, Job};
use job_tracker::text::{is_valid_port, parse_rate_cents};

#[test]
fn insert_then_list_round_trip() {
    let mut conn = open_memory().expect("open");
    create_table(&mut conn).expect("schema");

    let job = Job::new(
        None,
        "Archivist".to_string(),
        2125,
        true,
        Some("http://archive.example".to_string()),
    );
    enter_data(&mut conn, &job).expect("insert");

    let jobs = get_jobs(&conn).expect("list");
    assert_eq!(jobs.len(), 1);
    let listed = &jobs[0];
    assert_eq!(listed.get_title(), "Archivist");
    assert_eq!(listed.get_hourly(), 2125);
    assert!(listed.is_applied());
    assert_eq!(listed.get_link(), "http://archive.example");
    assert_eq!(listed._get_id(), 1);
}

#[test]
fn schema_creation_is_idempotent() {
    let mut conn = open_memory().expect("open");
    create_table(&mut conn).expect("first creation");
    let job = Job::new(None, "Guard".to_string(), 1500, false, None);
    enter_data(&mut conn, &job).expect("insert");

    create_table(&mut conn).expect("second creation must not error");

    assert_eq!(count_rows(&conn).expect("count"), 1);
    let tables: i64 = conn
        .query_row(
            "SELECT COUNT(*) FROM sqlite_master WHERE type='table' AND name='jobs'",
            (),
            |row| row.get(0),
        )
        .expect("sqlite_master");
    assert_eq!(tables, 1, "no duplicate table");
}

#[test]
fn status_normalization() {
    assert!(applied_from_str("1"));
    assert!(applied_from_str("Yes"));
    assert!(applied_from_str("true"));
    assert!(applied_from_int(1));

    assert!(!applied_from_str("0"));
    assert!(!applied_from_str("No"));
    assert!(!applied_from_str(""));
    assert!(!applied_from_str("garbage"));
    assert!(!applied_from_str("2"));
    assert!(!applied_from_int(0));
    assert!(!applied_from_int(2));

    // The canonical state survives the store in both directions.
    let mut conn = open_memory().expect("open");
    create_table(&mut conn).expect("schema");
    let applied_job = Job::new(None, "A".to_string(), 100, applied_from_str("Yes"), None);
    let plain_job = Job::new(None, "B".to_string(), 100, applied_from_str("nope"), None);
    enter_data(&mut conn, &applied_job).expect("insert");
    enter_data(&mut conn, &plain_job).expect("insert");
    let jobs = get_jobs(&conn).expect("list");
    assert_eq!(jobs[0].get_applied(), "Yes");
    assert_eq!(jobs[1].get_applied(), "No");
}

#[test]
fn csv_defaulting_keeps_other_rows() {
    let csv_text = "id,title,hourly_rate,applied,link\n\
                    1,Welder,not-a-rate,1,http://w\n\
                    2,Roofer,31.25,0,http://r\n";

    let jobs = parse_csv_jobs(csv_text);
    assert_eq!(jobs.len(), 2, "the malformed rate must not drop the row");
    assert_eq!(jobs[0].get_title(), "Welder");
    assert_eq!(jobs[0].get_hourly(), 0, "unparsable rate defaults to 0");
    assert_eq!(jobs[1].get_hourly(), 3125, "the remaining row still imports");
}

#[test]
fn bootstrap_is_idempotent() {
    let csv_text = "id,title,hourly_rate,applied,link\n\
                    1,Bus Driver,25,0,\n\
                    2,Waiter,16,1,http://x\n";

    let mut conn = open_memory().expect("open");

    let first = bootstrap(&mut conn, csv_text).expect("first bootstrap");
    assert_eq!(first, BootstrapOutcome::Seeded);
    assert_eq!(count_rows(&conn).expect("count"), 2);

    let second = bootstrap(&mut conn, csv_text).expect("second bootstrap");
    assert_eq!(second, BootstrapOutcome::Skipped);
    assert_eq!(count_rows(&conn).expect("count"), 2, "no duplicated rows");
}

#[test]
fn delete_nonexistent_is_not_an_error() {
    let mut conn = open_memory().expect("open");
    create_table(&mut conn).expect("schema");

    let removed = remove_data(&mut conn, 12345).expect("must not error");
    assert!(!removed, "nothing to remove: reported as not found");
}

#[test]
fn bootstrap_scenario_two_rows() {
    let csv_text = "id,title,hourly_rate,applied,link\n\
                    1,Bus Driver,25,0,\n\
                    2,Waiter,16,1,http://x\n";

    let mut conn = open_memory().expect("open");
    let outcome = bootstrap(&mut conn, csv_text).expect("bootstrap");
    assert_eq!(outcome, BootstrapOutcome::Seeded);

    let jobs = get_jobs(&conn).expect("list");
    assert_eq!(jobs.len(), 2);

    let waiter = jobs
        .iter()
        .find(|j| j.get_title() == "Waiter")
        .expect("Waiter listed");
    assert!(waiter.is_applied());
    assert_eq!(waiter.get_link(), "http://x");
    assert_eq!(waiter.get_hourly(), 1600);

    let driver = jobs
        .iter()
        .find(|j| j.get_title() == "Bus Driver")
        .expect("Bus Driver listed");
    assert!(!driver.is_applied());
    assert_eq!(driver.get_link(), "No Link");
    assert_eq!(driver.get_hourly(), 2500);
}

#[test]
fn rate_parsing_exact_values() {
    assert_eq!(parse_rate_cents("25"), 2500);
    assert_eq!(parse_rate_cents("45.5"), 4550);
    assert_eq!(parse_rate_cents("45.55"), 4555);
    assert_eq!(parse_rate_cents("45.559"), 4555);
    assert_eq!(parse_rate_cents("0"), 0);
    assert_eq!(parse_rate_cents("16."), 1600);
    assert_eq!(parse_rate_cents(""), 0);
    assert_eq!(parse_rate_cents("abc"), 0);
    assert_eq!(parse_rate_cents("1.2.3"), 0);
    assert_eq!(parse_rate_cents("-5"), 0);
}

#[test]
fn rate_parsing_at_the_u32_boundary() {
    // 42949672.95 dollars is exactly u32::MAX cents; one cent more cannot
    // be held and counts as unparsable.
    assert_eq!(parse_rate_cents("42949672.95"), 4294967295);
    assert_eq!(parse_rate_cents("42949672.96"), 0);
    assert_eq!(parse_rate_cents("4294967296"), 0);
}

#[test]
fn empty_csv_seeds_nothing() {
    let mut conn = open_memory().expect("open");

    let first = bootstrap(&mut conn, "").expect("bootstrap");
    assert_eq!(first, BootstrapOutcome::Seeded);
    assert_eq!(count_rows(&conn).expect("count"), 0);

    // A store that a seed left empty is seeded again — with nothing — so
    // still nothing is duplicated.
    let second = bootstrap(&mut conn, "").expect("bootstrap");
    assert_eq!(second, BootstrapOutcome::Seeded);
    assert_eq!(count_rows(&conn).expect("count"), 0);
}

#[test]
fn header_only_csv_yields_no_jobs() {
    let jobs = parse_csv_jobs("id,title,hourly_rate,applied,link\n");
    assert_eq!(jobs.len(), 0);
    let jobs = parse_csv_jobs("");
    assert_eq!(jobs.len(), 0);
}

#[test]
fn port_validation() {
    assert!(is_valid_port("8000"));
    assert!(is_valid_port("1"));
    assert!(is_valid_port("65535"));
    assert!(is_valid_port("+80"));

    assert!(!is_valid_port("0"));
    assert!(!is_valid_port("65536"));
    assert!(!is_valid_port(""));
    assert!(!is_valid_port("abc"));
    assert!(!is_valid_port("80a"));
    assert!(!is_valid_port("-1"));
}

#[test]
fn store_errors_without_schema() {
    let mut conn = open_memory().expect("open");

    let job = Job::new(None, "X".to_string(), 100, false, None);
    let insert = enter_data(&mut conn, &job);
    assert!(insert.is_err(), "insert without a table must fail");

    let count = count_rows(&conn);
    assert!(count.is_err(), "count without a table must fail");
}

#[test]
fn rate_survives_real_column() {
    let mut conn = open_memory().expect("open");
    create_table(&mut conn).expect("schema");
    let job = Job::new(None, "Surveyor".to_string(), 4550, false, None);
    enter_data(&mut conn, &job).expect("insert");

    // The REAL column holds dollars; the record held cents.
    let dollars: f64 = conn
        .query_row("SELECT hourly_rate FROM jobs", (), |row| row.get(0))
        .expect("raw read");
    assert_eq!(dollars, 45.5);

    let jobs = get_jobs(&conn).expect("list");
    assert_eq!(jobs[0].get_hourly(), 4550);
}

#[test]
fn lists_rows_written_by_plain_sql() {
    let mut conn = open_memory().expect("open");
    create_table(&mut conn).expect("schema");
    conn.execute(
        "INSERT INTO jobs (title, hourly_rate, applied, link) VALUES ('Typist', 12.5, 1, NULL)",
        (),
    )
    .expect("raw insert");

    let jobs = get_jobs(&conn).expect("list");
    assert_eq!(jobs.len(), 1);
    assert_eq!(jobs[0].get_title(), "Typist");
    assert_eq!(jobs[0].get_hourly(), 1250);
    assert!(jobs[0].is_applied());
    assert_eq!(jobs[0].get_link(), "No Link");
}
