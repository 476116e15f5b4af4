//! A roster generator: turns a declarative description of staff, rooms,
//! job types and a date range into a calendar-shaped table that assigns
//! each person a room/job (or an off state) for every working day.

pub mod config;
pub mod header;
pub mod laws;
pub mod numfmt;
pub mod nurses;
pub mod slots;
pub mod supporters;
pub mod table;
pub mod validate;
pub mod vocab;
