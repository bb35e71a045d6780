pub mod logger;

pub use logger::{AuditEntry, AuditLogger, OperationType};
