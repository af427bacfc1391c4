//! In-memory record stores for a small clinic back end: user accounts,
//! appointments, and users whose permissions derive from their role.
//!
//! Every store is an explicitly constructed value; callers that share one
//! between threads guard it with a lock of their own and run one operation
//! at a time.

pub mod accounts;
pub mod appointments;
pub mod laws;
pub mod patch;
pub mod permission;
pub mod reply;
pub mod store;
pub mod text;
pub mod users;
