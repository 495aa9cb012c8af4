//! Attendance records for recurring events (house meetings, technical seminars,
//! committee meetings), tracked for two populations: members, keyed by handle,
//! and frosh, keyed by number.

pub mod date;
pub mod error;
pub mod ident;
pub mod schema;
pub mod store;
pub mod query;
pub mod engine;
pub mod laws;
pub mod house;
pub mod presence;
pub mod seminar;
pub mod committee;
pub mod plan;
pub mod coop;
