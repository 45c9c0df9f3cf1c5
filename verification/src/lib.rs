//! A job-application tracker library.
//!
//! Job records (title, hourly pay rate, applied flag, optional link) are kept
//! in a SQLite table reached through `rusqlite`; the table is modelled as a
//! sequence of records so that every operation on it carries an exact
//! contract. CSV text can be parsed into job records and used to seed an
//! empty store at startup.

pub mod application;
pub mod bootstrap;
pub mod csv_reader;
pub mod database_methods;
pub mod facade;
pub mod job;
pub mod text;
