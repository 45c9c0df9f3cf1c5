//! Tests for CSV ingestion: parsing tabular text and writing its rows into
//! the store.

use job_tracker::csv_reader::{parse_csv_jobs, read_csv_data};
use job_tracker::database_methods::{create_table, open_memory};

#[test]
fn test_read_csv_file() {
    let mut connection = open_memory().expect("Failed to create in-memory database");
    create_table(&mut connection).expect("Failed to create jobs table");

    let csv_text = "job_id,job_title,hourly_rate,applied,link\n\
                    1,Software Engineer,50.0,1,https://example.com\n\
                    2,Data Scientist,45.5,0,https://example.com\n";

    let inserted = read_csv_data(&mut connection, csv_text);
    assert_eq!(inserted, 2, "read_csv_data() should insert both rows");

    let count: i64 = connection
        .query_row("SELECT COUNT(*) FROM jobs", (), |row| row.get(0))
        .expect("Failed to count rows");

    assert_eq!(
        count, 2,
        "Database should have 2 job entries after reading the CSV."
    );
}

#[test]
fn parses_rows_positionally() {
    let csv_text = "id,title,hourly_rate,applied,link\n\
                    7,Librarian,12.75,1,http://lib.example\n\
                    8,Barista,9,0,\n";

    let jobs = parse_csv_jobs(csv_text);
    assert_eq!(jobs.len(), 2);

    assert_eq!(jobs[0].get_title(), "Librarian");
    assert_eq!(jobs[0].get_hourly(), 1275);
    assert!(jobs[0].is_applied());
    assert_eq!(jobs[0].get_link(), "http://lib.example");

    assert_eq!(jobs[1].get_title(), "Barista");
    assert_eq!(jobs[1].get_hourly(), 900);
    assert!(!jobs[1].is_applied());
    assert_eq!(jobs[1].get_link(), "No Link");
}

#[test]
fn skips_rows_without_title() {
    let csv_text = "id,title,hourly_rate,applied,link\n\
                    1,,10,1,http://a\n\
                    2\n\
                    \n\
                    3,Cook,11,0,http://b\n";

    let jobs = parse_csv_jobs(csv_text);
    assert_eq!(jobs.len(), 1);
    assert_eq!(jobs[0].get_title(), "Cook");
}

#[test]
fn accepts_four_column_rows() {
    let csv_text = "id,title,hourly_rate,applied\n\
                    1,Tutor,20,1\n";

    let jobs = parse_csv_jobs(csv_text);
    assert_eq!(jobs.len(), 1);
    assert_eq!(jobs[0].get_title(), "Tutor");
    assert_eq!(jobs[0].get_hourly(), 2000);
    assert!(jobs[0].is_applied());
    assert_eq!(jobs[0].get_link(), "No Link");
}

#[test]
fn handles_crlf_line_endings() {
    let csv_text = "id,title,hourly_rate,applied,link\r\n1,Clerk,13.5,1,http://c\r\n";

    let jobs = parse_csv_jobs(csv_text);
    assert_eq!(jobs.len(), 1);
    assert_eq!(jobs[0].get_title(), "Clerk");
    assert_eq!(jobs[0].get_hourly(), 1350);
}
