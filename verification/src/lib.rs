//! Recurrence and reconciliation engine for weekly tutoring timeslots.
//!
//! A timeslot is a weekly commitment that is anchored to a first calendar
//! date and a local start time in a named timezone. The modules below derive
//! the instant of each weekly occurrence, find occurrences without a recorded
//! entry, find the next occurrence, and map ISO week intervals to occurrence
//! indices.

pub mod auth;
pub mod calendar;
pub mod entry;
pub mod export;
pub mod handlers;
pub mod isoweek;
pub mod migrate;
pub mod model;
pub mod sorting;
pub mod text;
pub mod timeslot;
pub mod util;
pub mod zone;
