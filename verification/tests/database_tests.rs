//! Tests for the persistent store: each one builds an in-memory database,
//! drives it through the library, and cross-checks the table with plain SQL.

use job_tracker::database_methods::{
    count_rows, create_table, database_empty, enter_data, get_jobs, open_memory, remove_data,
    update_applied, _drop_table,
};
use job_tracker::job::Job;
use rusqlite::Connection;

// Helper to set up an in-memory database and create the jobs table.
fn setup_database() -> Connection {
    let mut connection = open_memory().expect("Failed to open in-memory database");
    create_table(&mut connection).expect("Failed to create table");
    connection
}

// Helper to insert a job.
fn insert_job(connection: &mut Connection, job: &Job) {
    enter_data(connection, job).expect("Failed to insert job");
}

// Helper to count the number of jobs in the database.
fn count_jobs(connection: &Connection) -> i64 {
    count_rows(connection).expect("Failed to count rows")
}

#[test]
fn test_create_table() {
    let mut connection = setup_database();

    let result = create_table(&mut connection);

    assert!(result.is_ok(), "Table creation failed: {:?}", result);

    let query = "
        SELECT name
        FROM sqlite_master
        WHERE type='table' AND name='jobs'
    ";
    let table_exists: Result<String, rusqlite::Error> =
        connection.query_row(query, (), |row| row.get(0));

    match table_exists {
        Ok(table_name) => assert_eq!(table_name, "jobs", "Table 'jobs' does not exist."),
        Err(_) => panic!("Table 'jobs' was not created successfully."),
    }
}

#[test]
fn test_enter_data() {
    let mut connection = setup_database();

    create_table(&mut connection).expect("Failed to create table");

    let job = Job::new(
        Some(0),
        "Software Engineer".to_string(),
        4500,
        true,
        Some("https://example.com".to_string()),
    );

    let result = enter_data(&mut connection, &job);

    assert!(result.is_ok(), "Failed to insert data: {:?}", result);

    let query = "
        SELECT title, hourly_rate, applied, link
        FROM jobs
        WHERE title = ?1
    ";
    let mut stmt = connection.prepare(query).expect("Failed to prepare query");
    let job_iter = stmt
        .query_map(("Software Engineer",), |row| {
            Ok((
                row.get::<_, String>(0)?,
                row.get::<_, f64>(1)?,
                row.get::<_, i64>(2)?,
                row.get::<_, String>(3)?,
            ))
        })
        .expect("Failed to execute query");

    for job_result in job_iter {
        match job_result {
            Ok((job_title, hourly_rate, applied, link)) => {
                assert_eq!(job_title, "Software Engineer", "Job title doesn't match.");
                assert_eq!(hourly_rate, 45.0, "Hourly rate doesn't match.");
                assert_eq!(applied, 1, "Applied value doesn't match.");
                assert_eq!(link, "https://example.com", "Link doesn't match.");
            }
            Err(e) => {
                panic!("Failed to fetch job data: {}", e);
            }
        }
    }
}

#[test]
fn test_remove_data() {
    let mut connection = open_memory().expect("Failed to open in-memory database");

    create_table(&mut connection).expect("Failed to create table");

    let job = Job::new(
        Some(0),
        "Software Engineer".to_string(),
        4500,
        true,
        Some("https://example.com".to_string()),
    );

    insert_job(&mut connection, &job);

    let query = "SELECT COUNT(*) FROM jobs WHERE title = ?1";
    let count: i64 = connection
        .query_row(query, ("Software Engineer",), |row| row.get(0))
        .expect("Failed to query job count");

    assert_eq!(count, 1, "Job should be in the database.");

    let result = remove_data(&mut connection, 1);

    assert!(result.is_ok(), "Failed to remove job: {:?}", result);
    assert!(result.unwrap(), "Job should be removed.");

    let count_after_removal: i64 = connection
        .query_row(query, ("Software Engineer",), |row| row.get(0))
        .expect("Failed to query job count after removal");

    assert_eq!(
        count_after_removal, 0,
        "Job should be removed from the database."
    );

    let result_non_existent = remove_data(&mut connection, 99999);

    assert!(
        result_non_existent.is_ok(),
        "Failed to check non-existent job removal"
    );
    assert!(
        !result_non_existent.unwrap(),
        "No job should be removed for non-existent id."
    );
}

#[test]
fn database_methods_test_get_jobs() {
    let mut connection = open_memory().expect("Failed to open in-memory database");

    create_table(&mut connection).expect("Failed to create table");

    let job1 = Job::new(
        Some(0),
        "Software Engineer".to_string(),
        5000,
        true,
        Some("https://example1.com".to_string()),
    );
    let job2 = Job::new(
        Some(0),
        "Product Manager".to_string(),
        6000,
        false,
        Some("https://example2.com".to_string()),
    );

    enter_data(&mut connection, &job1).expect("Failed to insert job1");
    enter_data(&mut connection, &job2).expect("Failed to insert job2");

    let jobs_result = get_jobs(&connection);

    assert!(
        jobs_result.is_ok(),
        "Failed to fetch jobs: {:?}",
        jobs_result
    );
    let jobs = jobs_result.unwrap();
    assert_eq!(jobs.len(), 2, "There should be 2 jobs in the result.");

    let job_titles: Vec<String> = jobs.iter().map(|j| j.get_title()).collect();
    assert!(job_titles.contains(&"Software Engineer".to_string()));
    assert!(job_titles.contains(&"Product Manager".to_string()));

    let applied_status: Vec<String> = jobs.iter().map(|j| j.get_applied()).collect();
    assert!(applied_status.contains(&"Yes".to_string()));
    assert!(applied_status.contains(&"No".to_string()));

    let links: Vec<String> = jobs.iter().map(|j| j.get_link()).collect();
    assert!(links.contains(&"https://example1.com".to_string()));
    assert!(links.contains(&"https://example2.com".to_string()));
}

#[test]
fn test_drop_table() {
    let mut connection = setup_database();

    _drop_table(&mut connection, "jobs").expect("Failed to drop table");

    let result = connection.prepare("SELECT COUNT(*) FROM jobs");
    assert!(
        result.is_err(),
        "The table should be dropped and not accessible"
    );
}

#[test]
fn test_update_applied() {
    let mut connection = setup_database();

    let job = Job::new(
        Some(0),
        "Software Engineer".to_string(),
        5000,
        false,
        Some("https://example.com".to_string()),
    );
    insert_job(&mut connection, &job);

    update_applied(&mut connection, true, 1).expect("Failed to update applied status");

    let jobs = get_jobs(&connection).expect("Failed to fetch jobs");
    assert_eq!(jobs.len(), 1, "There should be 1 job in the result.");
    assert_eq!(
        jobs[0].get_applied(),
        "Yes",
        "The applied status should be updated to 'Yes'"
    );
}

#[test]
fn test_count_rows() {
    let mut connection = setup_database();

    let job1 = Job::new(
        Some(0),
        "Software Engineer".to_string(),
        5000,
        false,
        Some("https://example1.com".to_string()),
    );
    let job2 = Job::new(
        Some(0),
        "Product Manager".to_string(),
        6000,
        true,
        Some("https://example2.com".to_string()),
    );
    insert_job(&mut connection, &job1);
    insert_job(&mut connection, &job2);

    let count = count_jobs(&connection);
    assert_eq!(count, 2, "There should be 2 jobs in the table.");
}

#[test]
fn test_database_empty() {
    let mut connection = setup_database();
    assert!(
        database_empty(&connection).expect("Failed to check if database is empty"),
        "The database should be empty initially."
    );

    let job = Job::new(
        Some(0),
        "Software Engineer".to_string(),
        5000,
        false,
        Some("https://example.com".to_string()),
    );
    insert_job(&mut connection, &job);

    assert!(
        !database_empty(&connection).expect("Failed to check if database is empty"),
        "The database should not be empty after insertion."
    );
}
