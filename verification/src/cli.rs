use vstd::prelude::*;
use std::sync::Arc;
use crate::model::session::Session;
use crate::ops::executor::{Executor, OperationPlan, spec_soft_delete_steps, spec_hard_delete_steps, clock_error};
use crate::error::CastorError;

verus! {

/// The command line: global flags and the command, if any.
#[derive(Debug)]
pub struct Cli {
    /// Enable verbose logging.
    pub verbose: bool,
    /// A custom config path.
    pub config: Option<String>,
    pub command: Option<Commands>,
}

/// The shells completions can be generated for.
#[derive(Clone, Copy, Debug, PartialEq, Eq, Structural)]
pub enum Shell {
    Bash,
    Elvish,
    Fish,
    PowerShell,
    Zsh,
}

/// The commands.
#[derive(Debug)]
pub enum Commands {
    /// Start the terminal user interface.
    Tui,
    /// List all detected sessions.
    List {
        /// Format output as JSON.
        json: bool,
        /// Group sessions by host project.
        group: bool,
        /// Number of sessions per page (0 for no paging).
        page_size: usize,
    },
    /// Show the content of a session.
    Cat {
        /// The id or path of the session.
        id: String,
        /// Display raw JSON instead of the conversation.
        raw: bool,
    },
    /// Search the sessions' contents.
    Grep {
        pattern: String,
        ignore_case: bool,
    },
    /// Export a session as Markdown.
    Export {
        id: String,
        output: Option<String>,
    },
    /// Show storage statistics.
    Stats,
    /// Remove old sessions.
    Prune {
        /// Remove sessions older than this many days.
        days: u64,
        /// Perform a hard delete (bypass trash).
        hard: bool,
        /// Only show what would be pruned.
        dry_run: bool,
        /// Confirm the operation.
        confirm: bool,
    },
    /// Delete a session.
    Delete {
        /// The id or path of the session.
        id: String,
        /// Perform a hard delete (bypass trash).
        hard: bool,
        /// Only show what would be done.
        dry_run: bool,
        /// Confirm the operation (required for actual deletion).
        confirm: bool,
    },
    /// Restore a session from the trash.
    Restore {
        id: String,
        dry_run: bool,
    },
    /// Permanently empty the trash.
    ClearTrash {
        confirm: bool,
    },
    /// Show the audit history.
    History {
        /// The number of entries.
        limit: usize,
    },
    /// Check the health of the environment and configuration.
    Doctor,
    /// Generate shell completions.
    Completions {
        shell: Shell,
    },
}

/// Whether the command line opens the terminal interface: with no command, or
/// with `tui`.
pub fn runs_tui(cli: &Cli) -> (r: bool)
    ensures
        r == (cli.command is None || cli.command matches Some(Commands::Tui)),
{
    match &cli.command {
        None => true,
        Some(Commands::Tui) => true,
        Some(_) => false,
    }
}

/// The delete plan of one session, soft or hard.
pub open spec fn spec_delete_steps(e: Executor, s: Session, hard: bool, dry_run: bool, p: OperationPlan) -> bool {
    if hard {
        p.step_views() == spec_hard_delete_steps(s.id@, s.project_id@, s.path@, dry_run, p.batch_id, p.timestamp)
    } else {
        p.step_views() == spec_soft_delete_steps(
            e.config.trash_path@,
            s.id@,
            s.project_id@,
            s.path@,
            dry_run,
            p.batch_id,
            p.timestamp,
        )
    }
}

/// Plans the deletion of a session under batch id `batch_id`: nothing without
/// confirmation, else its hard or soft delete, which fails where the clock
/// cannot be read.
pub fn plan_delete(
    executor: &Executor,
    session: &Session,
    hard: bool,
    dry_run: bool,
    confirm: bool,
    batch_id: u128,
) -> (r: Result<Option<OperationPlan>, CastorError>)
    ensures
        !confirm ==> r matches Ok(None),
        confirm ==> (r matches Ok(Some(p)) && p.batch_id == batch_id && spec_delete_steps(*executor, *session, hard, dry_run, p))
            || (r matches Err(CastorError::Execution(m)) && m@ == clock_error()),
{
    if !confirm {
        return Ok(None);
    }
    let planned = if hard { executor.delete_hard(session, dry_run, batch_id) } else { executor.delete_soft(session, dry_run, batch_id) };
    match planned {
        Ok(p) => Ok(Some(p)),
        Err(e) => Err(e),
    }
}

/// Plans pruning `sessions`, the `k`-th under batch id `batch_ids[k]`: nothing
/// without confirmation, else the hard or soft delete of each, in order; fails
/// where the clock cannot be read.
pub fn plan_prune(
    executor: &Executor,
    sessions: &Vec<&Arc<Session>>,
    hard: bool,
    dry_run: bool,
    confirm: bool,
    batch_ids: &Vec<u128>,
) -> (r: Result<Vec<OperationPlan>, CastorError>)
    requires
        batch_ids@.len() == sessions@.len(),
    ensures
        !confirm ==> (r matches Ok(v) && v@.len() == 0),
        r is Err ==> confirm && (r matches Err(CastorError::Execution(m)) && m@ == clock_error()),
        confirm && r is Ok ==> (r matches Ok(v) && v@.len() == sessions@.len() && forall|k: int| 0 <= k < v@.len()
            ==> (#[trigger] v@[k]).batch_id == batch_ids@[k] && spec_delete_steps(*executor, **sessions@[k], hard, dry_run, v@[k])),
{
    let mut r: Vec<OperationPlan> = Vec::new();
    if !confirm {
        return Ok(r);
    }
    let mut i: usize = 0;
    while i < sessions.len()
        invariant
            i <= sessions@.len(),
            batch_ids@.len() == sessions@.len(),
            confirm,
            r@.len() == i,
            forall|k: int| 0 <= k < i ==> (#[trigger] r@[k]).batch_id == batch_ids@[k]
                && spec_delete_steps(*executor, **sessions@[k], hard, dry_run, r@[k]),
        decreases sessions.len() - i,
    {
        match plan_delete(executor, &**sessions[i], hard, dry_run, true, batch_ids[i]) {
            Ok(Some(p)) => r.push(p),
            Ok(None) => {},
            Err(e) => return Err(e),
        }
        i += 1;
    }
    Ok(r)
}

/// The closing line of a prune: what happened, or how to make it happen.
pub fn prune_epilogue(confirm: bool, dry_run: bool) -> (r: &'static str)
    ensures
        r@ == if !confirm {
            "\nRun with --confirm to perform the operation."@
        } else if dry_run {
            "\nDry-run complete. No files were moved."@
        } else {
            "\nPrune complete."@
        },
{
    if !confirm {
        "\nRun with --confirm to perform the operation."
    } else if dry_run {
        "\nDry-run complete. No files were moved."
    } else {
        "\nPrune complete."
    }
}

/// The closing line of a confirmed delete of session `id`.
pub fn delete_epilogue(id: &str, dry_run: bool) -> (r: String)
    ensures
        r@ == if dry_run {
            "Dry-run: Session "@ + id@ + " would be deleted."@
        } else {
            "Session "@ + id@ + " deleted."@
        },
{
    let mut r = if dry_run { String::from_str("Dry-run: Session ") } else { String::from_str("Session ") };
    r.append(id);
    if dry_run {
        r.append(" would be deleted.");
    } else {
        r.append(" deleted.");
    }
    r
}

} // verus!
