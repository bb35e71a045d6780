use vstd::prelude::*;
use crate::utils::fs::{join_path, spec_join_path};
use crate::utils::text::opt_string_view;
use crate::utils::time::Timestamp;

verus! {

/// What an audited operation did to a session.
#[derive(Clone, Copy, Debug, PartialEq, Eq, Structural)]
pub enum OperationType {
    SoftDelete,
    HardDelete,
    Restore,
}

/// One line of the audit log.
#[derive(Debug)]
pub struct AuditEntry {
    /// The identifier of the operation (the bits of a UUID).
    pub batch_id: u128,
    pub timestamp: Timestamp,
    pub op_type: OperationType,
    pub session_id: String,
    pub original_path: String,
    pub target_path: Option<String>,
}

/// The model of an audit entry.
pub type AuditEntryView = (u128, Timestamp, OperationType, Seq<char>, Seq<char>, Option<Seq<char>>);

impl View for AuditEntry {
    type V = AuditEntryView;

    open spec fn view(&self) -> AuditEntryView {
        (self.batch_id, self.timestamp, self.op_type, self.session_id@, self.original_path@, opt_string_view(self.target_path))
    }
}

/// The append-only audit log of destructive operations.
pub struct AuditLogger {
    pub log_path: String,
}

impl AuditLogger {
    /// The logger that writes `audit.jsonl` in the directory `audit_path`.
    pub fn new(audit_path: &str) -> (r: AuditLogger)
        ensures
            r.log_path@ == spec_join_path(audit_path@, "audit.jsonl"@),
    {
        AuditLogger { log_path: join_path(audit_path, "audit.jsonl") }
    }
}

/// The positions of the entries the history shows: the newest `limit` of `len`
/// entries, newest first.
pub fn latest_entries(len: usize, limit: usize) -> (r: Vec<usize>)
    ensures
        r@.len() == if len < limit { len } else { limit },
        forall|k: int| 0 <= k < r@.len() ==> #[trigger] r@[k] == len - 1 - k,
{
    let mut r: Vec<usize> = Vec::new();
    let mut i = len;
    while i > 0 && r.len() < limit
        invariant
            i <= len,
            r@.len() == len - i,
            r@.len() <= limit,
            forall|k: int| 0 <= k < r@.len() ==> #[trigger] r@[k] == len - 1 - k,
        decreases i,
    {
        i -= 1;
        r.push(i);
    }
    r
}

} // verus!
