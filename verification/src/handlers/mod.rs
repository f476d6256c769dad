//! What each request decides, apart from reading and writing stored records.

pub mod entry;
pub mod health;
pub mod timeslot;
