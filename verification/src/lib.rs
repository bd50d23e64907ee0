//! Verified core of an HTTP gateway to an FTP server with resumable
//! transfers: the commands it sends, how it reads the server's replies, the
//! statements that keep track of unfinished transfers, and each handler's
//! decisions as a state machine.

pub mod command;
pub mod flow;
pub mod models;
pub mod reply;
pub mod text;
