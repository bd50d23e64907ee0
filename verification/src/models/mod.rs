//! Records kept about transfers, and the statements that keep them.
pub mod ftp;
pub mod sql;
