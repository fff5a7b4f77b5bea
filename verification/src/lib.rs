//! Short-code allocation, encoding helpers, file-sharing records and SQL text
//! builders for a small file-sharing web service and its companion services.

pub mod text;
pub mod code;
pub mod deque;
pub mod file;
pub mod share;
pub mod access;
pub mod job;
pub mod sql;
pub mod router;
