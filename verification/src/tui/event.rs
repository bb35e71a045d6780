use vstd::prelude::*;
use crate::ops::executor::{OperationPlan, spec_soft_delete_steps};
use crate::config::PreviewConfig;
use crate::error::CastorError;
use crate::tui::ui::{spec_truncate_with_ellipsis, truncate_with_ellipsis};
use crate::ops::executor::clock_error;
use crate::tui::app::{App, FoldOp, InputMode, after_fold, after_next, after_previous, after_toggle, after_reload, lemma_wf_same_parts};

verus! {

/// The keys the interface tells apart.
#[derive(Clone, Copy, Debug, PartialEq, Eq, Structural)]
pub enum Key {
    Char(char),
    Up,
    Down,
    Left,
    Right,
    Enter,
    Esc,
    Other,
}

/// What the caller still has to do after a key was handled.
#[derive(Debug)]
pub enum KeyAction {
    /// Nothing.
    Nothing,
    /// Scan the session files again and hand every batch found to
    /// [`App::add_sessions`]; the tree was emptied for them.
    Reload,
    /// Load the full preview of session `session_id` now, and hand it to
    /// [`App::apply_preview`].
    DeepPreview { session_id: String },
    /// Open session `session_id`: load its preview at once.
    Open { session_id: String },
    /// Carry out `plan`, the soft delete of session `session_id`; once it has
    /// succeeded, call [`finish_delete`] with that id.
    RunDelete { plan: OperationPlan, session_id: String },
}

/// `a` with a different input mode.
pub open spec fn with_mode(a: App, m: InputMode) -> App {
    App { input_mode: m, ..a }
}

/// `a` with a different message.
pub open spec fn with_message(a: App, m: Option<String>) -> App {
    App { message: m, ..a }
}

/// Whether `key` moves the selection down.
pub open spec fn is_down(key: Key) -> bool {
    key == Key::Char('j') || key == Key::Down
}

/// Whether `key` moves the selection up.
pub open spec fn is_up(key: Key) -> bool {
    key == Key::Char('k') || key == Key::Up
}

/// The fold operation a key stands for, if any.
pub open spec fn fold_key(key: Key) -> Option<FoldOp> {
    if key == Key::Char('h') || key == Key::Left {
        Some(FoldOp::Fold)
    } else if key == Key::Char('l') || key == Key::Right {
        Some(FoldOp::Unfold)
    } else if key == Key::Char(' ') {
        Some(FoldOp::Toggle)
    } else {
        None
    }
}

/// Whether the selected row is a group heading.
pub open spec fn heading_selected(a: App) -> bool {
    match a.list_state.selected {
        Some(c) => (c as int) < a.rows().len() && a.rows()[c as int] is Group,
        None => false,
    }
}

/// Handles one key: in normal mode `q` quits, `j`/down and `k`/up move the
/// selection, `h`/left folds and `l`/right unfolds the selected group, space
/// toggles its fold, `g` switches the grouping, `r` empties the tree and asks
/// for a fresh scan, `p` asks for the deep preview of the selected session,
/// enter toggles the fold of a selected heading or opens a selected session,
/// and `d` asks to confirm deleting the selected session. When confirming, `y`
/// plans the soft delete of the selected session under batch id `batch_id` and
/// hands it back to carry out (failing, with the state unchanged, where the
/// clock cannot be read), and `n`/escape cancel.
pub fn handle_key_event(app: &mut App, key: Key, batch_id: u128) -> (r: Result<KeyAction, CastorError>)
    requires
        old(app).wf(),
    ensures
        final(app).wf(),
        r is Err ==> old(app).input_mode == InputMode::ConfirmDelete && key == Key::Char('y')
            && old(app).selected_position() is Some && *final(app) == *old(app)
            && (r matches Err(CastorError::Execution(m)) && m@ == clock_error()),
        old(app).input_mode == InputMode::Normal ==> {
            if key == Key::Char('q') {
                *final(app) == App { should_quit: true, ..*old(app) } && r matches Ok(KeyAction::Nothing)
            } else if is_down(key) {
                after_next(*old(app), *final(app)) && r matches Ok(KeyAction::Nothing)
            } else if is_up(key) {
                after_previous(*old(app), *final(app)) && r matches Ok(KeyAction::Nothing)
            } else if fold_key(key) is Some {
                after_fold(*old(app), *final(app), fold_key(key)->0) && r matches Ok(KeyAction::Nothing)
            } else if key == Key::Char('g') {
                after_toggle(*old(app), *final(app)) && r matches Ok(KeyAction::Nothing)
            } else if key == Key::Char('r') {
                &&& final(app).message matches Some(m) && m@ == "Reloading..."@
                &&& after_reload(with_message(*old(app), final(app).message), *final(app))
                &&& r matches Ok(KeyAction::Reload)
            } else if key == Key::Char('p') {
                &&& *final(app) == *old(app)
                &&& match old(app).selected_position() {
                    Some(i) => r matches Ok(KeyAction::DeepPreview { session_id })
                        && session_id@ == old(app).registry.sessions@[i].id@,
                    None => r matches Ok(KeyAction::Nothing),
                }
            } else if key == Key::Enter {
                if heading_selected(*old(app)) {
                    after_fold(*old(app), *final(app), FoldOp::Toggle) && r matches Ok(KeyAction::Nothing)
                } else {
                    &&& *final(app) == *old(app)
                    &&& match old(app).selected_position() {
                        Some(i) => r matches Ok(KeyAction::Open { session_id })
                            && session_id@ == old(app).registry.sessions@[i].id@,
                        None => r matches Ok(KeyAction::Nothing),
                    }
                }
            } else if key == Key::Char('d') {
                &&& r matches Ok(KeyAction::Nothing)
                &&& if old(app).selected_position() is Some {
                    *final(app) == with_mode(*old(app), InputMode::ConfirmDelete)
                } else {
                    *final(app) == *old(app)
                }
            } else {
                *final(app) == *old(app) && r matches Ok(KeyAction::Nothing)
            }
        },
        old(app).input_mode == InputMode::ConfirmDelete ==> {
            if key == Key::Char('y') {
                match old(app).selected_position() {
                    Some(i) => {
                        let s = old(app).registry.sessions@[i];
                        &&& *final(app) == *old(app)
                        &&& r is Ok ==> (r matches Ok(KeyAction::RunDelete { plan, session_id })
                            && session_id@ == s.id@
                            && plan.batch_id == batch_id
                            && plan.step_views() == spec_soft_delete_steps(
                            old(app).executor.config.trash_path@,
                            s.id@,
                            s.project_id@,
                            s.path@,
                            false,
                            plan.batch_id,
                            plan.timestamp,
                        ))
                    },
                    None => *final(app) == with_mode(*old(app), InputMode::Normal) && r matches Ok(KeyAction::Nothing),
                }
            } else if key == Key::Char('n') || key == Key::Esc {
                *final(app) == with_mode(*old(app), InputMode::Normal) && r matches Ok(KeyAction::Nothing)
            } else {
                *final(app) == *old(app) && r matches Ok(KeyAction::Nothing)
            }
        },
{
    match app.input_mode {
        InputMode::Normal => {
            let mut action = KeyAction::Nothing;
            match key {
                Key::Char('q') => {
                    app.should_quit = true;
                },
                Key::Char('j') | Key::Down => {
                    app.next();
                },
                Key::Char('k') | Key::Up => {
                    app.previous();
                },
                Key::Char('h') | Key::Left => {
                    app.set_fold(FoldOp::Fold);
                },
                Key::Char('l') | Key::Right => {
                    app.set_fold(FoldOp::Unfold);
                },
                Key::Char(' ') => {
                    app.set_fold(FoldOp::Toggle);
                },
                Key::Char('g') => {
                    let _ = app.toggle_grouping();
                },
                Key::Char('r') => {
                    app.message = Some("Reloading...".to_owned());
                    proof { lemma_wf_same_parts(*old(app), *app); }
                    let _ = app.reload();
                    action = KeyAction::Reload;
                },
                Key::Char('p') => {
                    if let Some(session) = app.get_selected_session() {
                        action = KeyAction::DeepPreview { session_id: session.id.clone() };
                    }
                },
                Key::Enter => {
                    if app.selected_is_heading() {
                        app.set_fold(FoldOp::Toggle);
                    } else if let Some(session) = app.get_selected_session() {
                        action = KeyAction::Open { session_id: session.id.clone() };
                    }
                },
                Key::Char('d') => {
                    if app.get_selected_session().is_some() {
                        app.input_mode = InputMode::ConfirmDelete;
                    }
                },
                _ => {},
            }
            proof {
                if !(key == Key::Char('g') || key == Key::Char('r') || fold_key(key) is Some || key == Key::Enter) {
                    lemma_wf_same_parts(*old(app), *app);
                }
                if key == Key::Enter && !heading_selected(*old(app)) {
                    lemma_wf_same_parts(*old(app), *app);
                }
            }
            Ok(action)
        },
        InputMode::ConfirmDelete => {
            let r = match key {
                Key::Char('y') => {
                    match app.get_selected_session() {
                        Some(session) => {
                            match app.executor.delete_soft(&**session, false, batch_id) {
                                Ok(plan) => {
                                    let session_id = session.id.clone();
                                    Ok(KeyAction::RunDelete { plan, session_id })
                                },
                                Err(e) => Err(e),
                            }
                        },
                        None => {
                            app.input_mode = InputMode::Normal;
                            Ok(KeyAction::Nothing)
                        },
                    }
                },
                Key::Char('n') | Key::Esc => {
                    app.input_mode = InputMode::Normal;
                    Ok(KeyAction::Nothing)
                },
                _ => Ok(KeyAction::Nothing),
            };
            proof { lemma_wf_same_parts(*old(app), *app); }
            r
        },
    }
}

/// Completes a delete that [`handle_key_event`] handed back once its plan was
/// carried out: reports it, reloads and returns to normal mode.
pub fn finish_delete(app: &mut App, session_id: &str)
    requires
        old(app).wf(),
    ensures
        final(app).wf(),
        final(app).message matches Some(m) && m@ == "Deleted session "@ + session_id@,
        final(app).input_mode == InputMode::Normal,
        after_reload(with_mode(with_message(*old(app), final(app).message), InputMode::Normal), *final(app)),
{
    let mut m = "Deleted session ".to_owned();
    m.append(session_id);
    app.message = Some(m);
    app.input_mode = InputMode::Normal;
    proof { lemma_wf_same_parts(*old(app), *app); }
    let _ = app.reload();
}


/// The quiet time, in milliseconds, that the selection must rest before its
/// preview is loaded.
pub const PREVIEW_DELAY_MS: u128 = 100;

/// Whether the preview of the selected session is due: it has not been asked
/// for since the selection last changed, and the selection has rested for more
/// than [`PREVIEW_DELAY_MS`] milliseconds.
pub fn preview_due(triggered: bool, quiet_ms: u128) -> (r: bool)
    ensures
        r == (!triggered && quiet_ms > PREVIEW_DELAY_MS),
{
    !triggered && quiet_ms > PREVIEW_DELAY_MS
}

/// Whether a session file of `size` bytes is small enough for a deep preview.
pub fn deep_preview_allowed(size: u64, prefs: &PreviewConfig) -> (r: bool)
    ensures
        r == (size <= prefs.deep_preview_max_bytes),
{
    size <= prefs.deep_preview_max_bytes
}

/// The deep preview of a session from its whole conversation in markdown: the
/// text cut to the deep preview's character budget.
pub fn deep_preview_text(markdown: &str, prefs: &PreviewConfig) -> (r: String)
    ensures
        r@ == spec_truncate_with_ellipsis(markdown@, prefs.deep_preview_char_budget as nat),
{
    truncate_with_ellipsis(markdown, prefs.deep_preview_char_budget)
}

/// The message shown where a session file is too large for a deep preview.
pub fn deep_preview_refused() -> (r: &'static str)
    ensures
        r@ == "Session too large for deep preview"@,
{
    "Session too large for deep preview"
}

} // verus!
