//! The rows the database stores, and the rules for storing them.
pub mod conversations;
pub mod memories;
pub mod reminders;
pub mod search;
