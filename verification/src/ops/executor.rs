use vstd::prelude::*;
use crate::audit::logger::{AuditEntry, AuditEntryView, AuditLogger, OperationType};
use crate::config::Config;
use crate::error::CastorError;
use crate::model::session::Session;
use crate::utils::fs::{join_path, spec_join_path};
use crate::utils::text::{str_eq, opt_string_view};
use crate::utils::time::{Timestamp, now};

verus! {

/// One step of a file operation, carried out in order by the caller.
#[derive(Debug)]
pub enum PlanStep {
    /// Print a notice (a dry run's report).
    Announce(String),
    /// Append the entry to the audit log.
    AppendAudit(AuditEntry),
    /// Stop with `CastorError::PathNotFound` unless the path exists.
    RequireExists(String),
    /// Create the parent directories of the path.
    CreateParentDirs(String),
    /// Move the file or directory at the first path to the second.
    MovePath(String, String),
    /// Delete the file or directory at the path.
    RemovePath(String),
}

/// The model of a plan step.
pub enum StepView {
    Announce(Seq<char>),
    AppendAudit(AuditEntryView),
    RequireExists(Seq<char>),
    CreateParentDirs(Seq<char>),
    MovePath(Seq<char>, Seq<char>),
    RemovePath(Seq<char>),
}

impl View for PlanStep {
    type V = StepView;

    open spec fn view(&self) -> StepView {
        match self {
            PlanStep::Announce(m) => StepView::Announce(m@),
            PlanStep::AppendAudit(e) => StepView::AppendAudit(e@),
            PlanStep::RequireExists(p) => StepView::RequireExists(p@),
            PlanStep::CreateParentDirs(p) => StepView::CreateParentDirs(p@),
            PlanStep::MovePath(a, b) => StepView::MovePath(a@, b@),
            PlanStep::RemovePath(p) => StepView::RemovePath(p@),
        }
    }
}

/// A file operation: its batch id, its time, and its steps.
#[derive(Debug)]
pub struct OperationPlan {
    pub batch_id: u128,
    pub timestamp: Timestamp,
    pub steps: Vec<PlanStep>,
}

impl OperationPlan {
    /// The models of the steps.
    pub open spec fn step_views(&self) -> Seq<StepView> {
        self.steps@.map_values(|s: PlanStep| s@)
    }
}

/// Where a soft delete moves a session: `<trash>/<project>/<file name>`.
pub open spec fn spec_trash_target(trash: Seq<char>, project_id: Seq<char>, id: Seq<char>) -> Seq<char> {
    spec_join_path(spec_join_path(trash, project_id), id)
}

/// The steps of a soft delete: a dry run only reports; otherwise the entry is
/// logged first, then the session file is moved into the trash.
pub open spec fn spec_soft_delete_steps(
    trash: Seq<char>,
    id: Seq<char>,
    project_id: Seq<char>,
    path: Seq<char>,
    dry_run: bool,
    batch_id: u128,
    timestamp: Timestamp,
) -> Seq<StepView> {
    let target = spec_trash_target(trash, project_id, id);
    if dry_run {
        seq![StepView::Announce("[DRY-RUN] Would move session "@ + id + " (Project: "@ + project_id + ") to trash"@)]
    } else {
        seq![
            StepView::AppendAudit((batch_id, timestamp, OperationType::SoftDelete, id, path, Some(target))),
            StepView::RequireExists(path),
            StepView::CreateParentDirs(target),
            StepView::MovePath(path, target),
        ]
    }
}

/// The steps of a hard delete: a dry run only reports; otherwise the entry is
/// logged first, then the session file is removed.
pub open spec fn spec_hard_delete_steps(
    id: Seq<char>,
    project_id: Seq<char>,
    path: Seq<char>,
    dry_run: bool,
    batch_id: u128,
    timestamp: Timestamp,
) -> Seq<StepView> {
    if dry_run {
        seq![StepView::Announce("[DRY-RUN] Would permanently delete session "@ + id + " (Project: "@ + project_id + ")"@)]
    } else {
        seq![
            StepView::AppendAudit((batch_id, timestamp, OperationType::HardDelete, id, path, None)),
            StepView::RequireExists(path),
            StepView::RemovePath(path),
        ]
    }
}

/// The position of the latest soft delete of session `id` in the history, or -1.
pub open spec fn spec_latest_soft_delete(history: Seq<AuditEntryView>, id: Seq<char>) -> int
    decreases history.len(),
{
    if history.len() == 0 {
        -1
    } else if history.last().3 == id && history.last().2 == OperationType::SoftDelete {
        history.len() - 1
    } else {
        spec_latest_soft_delete(history.drop_last(), id)
    }
}

/// The latest soft delete is -1 or a position in the history.
pub proof fn lemma_latest_soft_delete(history: Seq<AuditEntryView>, id: Seq<char>)
    ensures
        -1 <= spec_latest_soft_delete(history, id) < history.len(),
    decreases history.len(),
{
    if history.len() > 0 {
        lemma_latest_soft_delete(history.drop_last(), id);
    }
}

/// What `format!("{:?}", Path::new(p))` gives: the path quoted and escaped.
pub uninterp spec fn path_debug(p: Seq<char>) -> Seq<char>;

/// The `Debug` rendering of a path. Trusted: the result is the named result
/// [`path_debug`].
#[verifier::external_body]
pub(crate) fn debug_path(p: &str) -> (r: String)
    ensures
        r@ == path_debug(p@),
{
    format!("{:?}", std::path::Path::new(p))
}

/// The steps of restoring a session from its soft delete `latest` (its
/// model): the trashed file must still exist; a dry run then only reports;
/// otherwise the restore is logged, then the file is moved back.
pub open spec fn spec_restore_steps(
    latest: AuditEntryView,
    id: Seq<char>,
    dry_run: bool,
    batch_id: u128,
    timestamp: Timestamp,
) -> Seq<StepView> {
    let trash = latest.5->0;
    let original = latest.4;
    if dry_run {
        seq![
            StepView::RequireExists(trash),
            StepView::Announce("[DRY-RUN] Would restore session "@ + id + " to "@ + path_debug(original)),
        ]
    } else {
        seq![
            StepView::RequireExists(trash),
            StepView::AppendAudit((batch_id, timestamp, OperationType::Restore, id, trash, Some(original))),
            StepView::CreateParentDirs(original),
            StepView::MovePath(trash, original),
        ]
    }
}

/// Whether a step writes the audit log or creates, moves or removes anything.
pub open spec fn changes_disk(s: StepView) -> bool {
    s is AppendAudit || s is CreateParentDirs || s is MovePath || s is RemovePath
}

/// A dry run changes nothing: no step of a dry-run soft delete, hard delete or
/// restore writes the log or creates, moves or removes a file.
pub proof fn lemma_dry_run_changes_nothing(
    trash: Seq<char>,
    id: Seq<char>,
    project_id: Seq<char>,
    path: Seq<char>,
    latest: AuditEntryView,
    batch_id: u128,
    timestamp: Timestamp,
)
    ensures
        forall|k: int| 0 <= k < spec_soft_delete_steps(trash, id, project_id, path, true, batch_id, timestamp).len()
            ==> !changes_disk(#[trigger] spec_soft_delete_steps(trash, id, project_id, path, true, batch_id, timestamp)[k]),
        forall|k: int| 0 <= k < spec_hard_delete_steps(id, project_id, path, true, batch_id, timestamp).len()
            ==> !changes_disk(#[trigger] spec_hard_delete_steps(id, project_id, path, true, batch_id, timestamp)[k]),
        forall|k: int| 0 <= k < spec_restore_steps(latest, id, true, batch_id, timestamp).len()
            ==> !changes_disk(#[trigger] spec_restore_steps(latest, id, true, batch_id, timestamp)[k]),
{
}

/// Every operation that changes the disk logs first: the first step of a soft
/// delete or hard delete that is not a dry run is its audit entry, and a restore
/// logs right after checking that the trashed file exists, before it creates or
/// moves anything.
pub proof fn lemma_logged_before_change(
    trash: Seq<char>,
    id: Seq<char>,
    project_id: Seq<char>,
    path: Seq<char>,
    latest: AuditEntryView,
    batch_id: u128,
    timestamp: Timestamp,
)
    ensures
        spec_soft_delete_steps(trash, id, project_id, path, false, batch_id, timestamp)[0] is AppendAudit,
        spec_hard_delete_steps(id, project_id, path, false, batch_id, timestamp)[0] is AppendAudit,
        spec_restore_steps(latest, id, false, batch_id, timestamp)[1] is AppendAudit,
        !changes_disk(spec_restore_steps(latest, id, false, batch_id, timestamp)[0]),
{
}

/// A restore undoes a soft delete: once the audit entry a soft delete of a
/// session logs is the last entry of the history, restoring that session moves
/// the file from where the soft delete moved it back to where it was, and logs
/// the move the other way.
pub proof fn lemma_restore_undoes_soft_delete(
    history: Seq<AuditEntryView>,
    trash: Seq<char>,
    id: Seq<char>,
    project_id: Seq<char>,
    path: Seq<char>,
    b1: u128,
    t1: Timestamp,
    b2: u128,
    t2: Timestamp,
)
    ensures
        ({
            let del = spec_soft_delete_steps(trash, id, project_id, path, false, b1, t1);
            let h = history.push(del[0]->AppendAudit_0);
            let k = spec_latest_soft_delete(h, id);
            let res = spec_restore_steps(h[k], id, false, b2, t2);
            &&& k == h.len() - 1
            &&& del[3] == StepView::MovePath(path, spec_trash_target(trash, project_id, id))
            &&& res[3] == StepView::MovePath(spec_trash_target(trash, project_id, id), path)
            &&& res[1] == StepView::AppendAudit((b2, t2, OperationType::Restore, id, spec_trash_target(trash, project_id, id), Some(path)))
        }),
{
    let del = spec_soft_delete_steps(trash, id, project_id, path, false, b1, t1);
    let h = history.push(del[0]->AppendAudit_0);
    assert(h.drop_last() =~= history);
}

/// The message of an operation that could not read the clock.
pub open spec fn clock_error() -> Seq<char> {
    "The system clock reads before the Unix epoch"@
}

/// Performs destructive operations on sessions, logging each.
pub struct Executor {
    pub config: Config,
    pub logger: AuditLogger,
}

/// Concatenates three texts.
fn concat3(a: &str, b: &str, c: &str) -> (r: String)
    ensures
        r@ == a@ + b@ + c@,
{
    let mut r = a.to_owned();
    r.append(b);
    r.append(c);
    r
}

/// Copies a list of audit entries' models out of the entries.
pub open spec fn history_views(h: Seq<AuditEntry>) -> Seq<AuditEntryView> {
    h.map_values(|e: AuditEntry| e@)
}

impl Executor {
    /// An executor with the settings `config`, logging into its audit directory.
    pub fn new(config: Config) -> (r: Executor)
        ensures
            r.config == config,
            r.logger.log_path@ == spec_join_path(config.audit_path@, "audit.jsonl"@),
    {
        let logger = AuditLogger::new(config.audit_path.as_str());
        Executor { config, logger }
    }

    /// Plans the soft delete of `session` with the given batch id and time.
    pub fn plan_delete_soft(&self, session: &Session, dry_run: bool, batch_id: u128, timestamp: Timestamp) -> (r: OperationPlan)
        ensures
            r.batch_id == batch_id,
            r.timestamp == timestamp,
            r.step_views() == spec_soft_delete_steps(
                self.config.trash_path@,
                session.id@,
                session.project_id@,
                session.path@,
                dry_run,
                batch_id,
                timestamp,
            ),
    {
        let target = join_path(join_path(self.config.trash_path.as_str(), session.project_id.as_str()).as_str(), session.id.as_str());
        let mut steps: Vec<PlanStep> = Vec::new();
        if dry_run {
            let mut m = concat3("[DRY-RUN] Would move session ", session.id.as_str(), " (Project: ");
            m.append(session.project_id.as_str());
            m.append(") to trash");
            steps.push(PlanStep::Announce(m));
        } else {
            let entry = AuditEntry {
                batch_id,
                timestamp,
                op_type: OperationType::SoftDelete,
                session_id: session.id.clone(),
                original_path: session.path.clone(),
                target_path: Some(target.clone()),
            };
            steps.push(PlanStep::AppendAudit(entry));
            steps.push(PlanStep::RequireExists(session.path.clone()));
            steps.push(PlanStep::CreateParentDirs(target.clone()));
            steps.push(PlanStep::MovePath(session.path.clone(), target));
        }
        let r = OperationPlan { batch_id, timestamp, steps };
        assert(r.step_views() =~= spec_soft_delete_steps(
            self.config.trash_path@,
            session.id@,
            session.project_id@,
            session.path@,
            dry_run,
            batch_id,
            timestamp,
        ));
        r
    }

    /// Plans the soft delete of `session` (moving it to the trash) under the
    /// batch id `batch_id` at the current time; fails where the clock cannot be
    /// read.
    pub fn delete_soft(&self, session: &Session, dry_run: bool, batch_id: u128) -> (r: Result<OperationPlan, CastorError>)
        ensures
            r matches Ok(p) ==> p.batch_id == batch_id && p.step_views() == spec_soft_delete_steps(
                self.config.trash_path@,
                session.id@,
                session.project_id@,
                session.path@,
                dry_run,
                batch_id,
                p.timestamp,
            ),
            r matches Err(e) ==> e matches CastorError::Execution(m) && m@ == clock_error(),
    {
        match now() {
            Some(t) => Ok(self.plan_delete_soft(session, dry_run, batch_id, t)),
            None => Err(CastorError::Execution(String::from_str("The system clock reads before the Unix epoch"))),
        }
    }

    /// Plans the hard delete of `session` with the given batch id and time.
    pub fn plan_delete_hard(&self, session: &Session, dry_run: bool, batch_id: u128, timestamp: Timestamp) -> (r: OperationPlan)
        ensures
            r.batch_id == batch_id,
            r.timestamp == timestamp,
            r.step_views() == spec_hard_delete_steps(
                session.id@,
                session.project_id@,
                session.path@,
                dry_run,
                batch_id,
                timestamp,
            ),
    {
        let mut steps: Vec<PlanStep> = Vec::new();
        if dry_run {
            let mut m = concat3("[DRY-RUN] Would permanently delete session ", session.id.as_str(), " (Project: ");
            m.append(session.project_id.as_str());
            m.append(")");
            steps.push(PlanStep::Announce(m));
        } else {
            let entry = AuditEntry {
                batch_id,
                timestamp,
                op_type: OperationType::HardDelete,
                session_id: session.id.clone(),
                original_path: session.path.clone(),
                target_path: None,
            };
            steps.push(PlanStep::AppendAudit(entry));
            steps.push(PlanStep::RequireExists(session.path.clone()));
            steps.push(PlanStep::RemovePath(session.path.clone()));
        }
        let r = OperationPlan { batch_id, timestamp, steps };
        assert(r.step_views() =~= spec_hard_delete_steps(
            session.id@,
            session.project_id@,
            session.path@,
            dry_run,
            batch_id,
            timestamp,
        ));
        r
    }

    /// Plans the permanent removal of `session` under the batch id `batch_id` at
    /// the current time; fails where the clock cannot be read.
    pub fn delete_hard(&self, session: &Session, dry_run: bool, batch_id: u128) -> (r: Result<OperationPlan, CastorError>)
        ensures
            r matches Ok(p) ==> p.batch_id == batch_id && p.step_views() == spec_hard_delete_steps(
                session.id@,
                session.project_id@,
                session.path@,
                dry_run,
                batch_id,
                p.timestamp,
            ),
            r matches Err(e) ==> e matches CastorError::Execution(m) && m@ == clock_error(),
    {
        match now() {
            Some(t) => Ok(self.plan_delete_hard(session, dry_run, batch_id, t)),
            None => Err(CastorError::Execution(String::from_str("The system clock reads before the Unix epoch"))),
        }
    }

    /// Plans the restore of session `id` from its latest soft delete in `history`,
    /// with the given batch id and time. Fails with `BatchNotFound` where no soft
    /// delete of `id` is recorded, and with an audit error where the latest one
    /// has no target path.
    pub fn plan_restore(
        &self,
        history: &Vec<AuditEntry>,
        id: &str,
        dry_run: bool,
        batch_id: u128,
        timestamp: Timestamp,
    ) -> (r: Result<OperationPlan, CastorError>)
        ensures
            ({
                let k = spec_latest_soft_delete(history_views(history@), id@);
                &&& k < 0 ==> (r matches Err(CastorError::BatchNotFound(s)) && s@ == id@)
                &&& k >= 0 && history@[k].target_path is None ==> (r matches Err(CastorError::Audit(m))
                    && m@ == "Missing target path in audit log"@)
                &&& k >= 0 && history@[k].target_path is Some ==> (r matches Ok(p) && p.batch_id == batch_id
                    && p.timestamp == timestamp
                    && p.step_views() == spec_restore_steps(history@[k]@, id@, dry_run, batch_id, timestamp))
            }),
    {
        let ghost hv = history_views(history@);
        proof { lemma_latest_soft_delete(hv, id@); }
        let mut i = history.len();
        assert(hv.take(i as int) =~= hv);
        while i > 0
            invariant
                i <= history@.len(),
                hv == history_views(history@),
                spec_latest_soft_delete(hv, id@) == spec_latest_soft_delete(hv.take(i as int), id@),
            ensures
                i <= history@.len(),
                spec_latest_soft_delete(hv, id@) == spec_latest_soft_delete(hv.take(i as int), id@),
                i > 0 ==> history@[i - 1].session_id@ == id@ && history@[i - 1].op_type == OperationType::SoftDelete,
            decreases i,
        {
            assert(hv.take(i as int).drop_last() =~= hv.take(i - 1));
            let e = &history[i - 1];
            if str_eq(e.session_id.as_str(), id) && e.op_type == OperationType::SoftDelete {
                break;
            }
            i -= 1;
        }
        if i == 0 {
            assert(hv.take(0) =~= Seq::<AuditEntryView>::empty());
            return Err(CastorError::BatchNotFound(id.to_owned()));
        }
        assert(hv.take(i as int).last() == history@[i - 1]@);
        assert(spec_latest_soft_delete(hv, id@) == i - 1);
        let latest = &history[i - 1];
        let trash = match &latest.target_path {
            Some(t) => t,
            None => return Err(CastorError::Audit(String::from_str("Missing target path in audit log"))),
        };
        let mut steps: Vec<PlanStep> = Vec::new();
        steps.push(PlanStep::RequireExists(trash.clone()));
        if dry_run {
            let mut m = concat3("[DRY-RUN] Would restore session ", id, " to ");
            let d = debug_path(latest.original_path.as_str());
            m.append(d.as_str());
            steps.push(PlanStep::Announce(m));
        } else {
            let entry = AuditEntry {
                batch_id,
                timestamp,
                op_type: OperationType::Restore,
                session_id: id.to_owned(),
                original_path: trash.clone(),
                target_path: Some(latest.original_path.clone()),
            };
            steps.push(PlanStep::AppendAudit(entry));
            steps.push(PlanStep::CreateParentDirs(latest.original_path.clone()));
            steps.push(PlanStep::MovePath(trash.clone(), latest.original_path.clone()));
        }
        let r = OperationPlan { batch_id, timestamp, steps };
        assert(r.step_views() =~= spec_restore_steps(history@[i - 1]@, id@, dry_run, batch_id, timestamp));
        Ok(r)
    }

    /// Plans the restore of session `id` from the trash, as [`Self::plan_restore`]
    /// does, under the batch id `batch_id` at the current time; where the history
    /// allows the restore but the clock cannot be read, it fails.
    pub fn restore(&self, history: &Vec<AuditEntry>, id: &str, dry_run: bool, batch_id: u128) -> (r: Result<
        OperationPlan,
        CastorError,
    >)
        ensures
            ({
                let k = spec_latest_soft_delete(history_views(history@), id@);
                &&& k < 0 ==> (r matches Err(CastorError::BatchNotFound(s)) && s@ == id@)
                &&& k >= 0 && history@[k].target_path is None ==> (r matches Err(CastorError::Audit(m))
                    && m@ == "Missing target path in audit log"@)
                &&& k >= 0 && history@[k].target_path is Some ==> (
                    (r matches Ok(p) && p.batch_id == batch_id
                        && p.step_views() == spec_restore_steps(history@[k]@, id@, dry_run, batch_id, p.timestamp))
                    || (r matches Err(CastorError::Execution(m)) && m@ == clock_error()))
            }),
    {
        match now() {
            Some(t) => self.plan_restore(history, id, dry_run, batch_id, t),
            None => {
                match self.plan_restore(history, id, dry_run, batch_id, Timestamp { secs: 0, nanos: 0 }) {
                    Ok(_) => Err(CastorError::Execution(String::from_str("The system clock reads before the Unix epoch"))),
                    Err(e) => Err(e),
                }
            },
        }
    }
}

} // verus!
