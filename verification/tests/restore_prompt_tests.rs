use hyprsechy::restore_tui::{App, AppState, RestoreAction};
use hyprsechy::tui::Key;

fn offered() -> App<u32> {
    let mut app: App<u32> = App::new();
    app.set_session(7);
    app
}

#[test]
fn starts_loading() {
    let app: App<u32> = App::new();
    assert_eq!(app.state, AppState::Loading);
    assert!(app.session.is_none());
    assert!(app.selected);
    assert_eq!(app.progress, 0);
    assert_eq!(app.status_message, "Loading previous session...");
    assert!(app.error_message.is_none());
    assert!(!app.is_finished());
}

#[test]
fn offering_and_toggling() {
    let mut app = offered();
    assert_eq!(app.state, AppState::ShowSession);
    assert_eq!(app.status_message, "Previous session found. Do you want to restore it?");
    app.toggle_selection();
    assert!(!app.selected);
    assert_eq!(app.handle_key(Key::Tab), RestoreAction::Continue);
    assert!(app.selected);
    let mut loading: App<u32> = App::new();
    loading.toggle_selection();
    assert!(loading.selected);
}

#[test]
fn confirming_restore() {
    let mut app = offered();
    assert_eq!(app.handle_key(Key::Enter), RestoreAction::Restore);
    assert_eq!(app.state, AppState::Restoring);
    assert_eq!(app.status_message, "Restoring session...");
    app.restore_finished(Ok(()));
    assert_eq!(app.state, AppState::Complete);
    assert_eq!(app.progress, 100);
    assert_eq!(app.status_message, "Session restored successfully!");
    assert!(app.is_finished());
    assert_eq!(app.handle_key(Key::Char('x')), RestoreAction::Exit);
}

#[test]
fn declining() {
    let mut app = offered();
    app.handle_key(Key::Down);
    assert_eq!(app.handle_key(Key::Char(' ')), RestoreAction::Exit);
    assert_eq!(app.state, AppState::Cancelled);
    assert_eq!(app.status_message, "Session restore cancelled");
    let mut app = offered();
    assert_eq!(app.handle_key(Key::Char('N')), RestoreAction::Exit);
    assert!(!app.selected);
    assert_eq!(app.state, AppState::Cancelled);
    let mut app = offered();
    assert_eq!(app.handle_key(Key::Esc), RestoreAction::Exit);
    assert_eq!(app.state, AppState::Cancelled);
}

#[test]
fn yes_key_restores_even_after_choosing_no() {
    let mut app = offered();
    app.toggle_selection();
    assert_eq!(app.handle_key(Key::Char('y')), RestoreAction::Restore);
    assert!(app.selected);
    assert_eq!(app.state, AppState::Restoring);
    assert_eq!(app.handle_key(Key::Char('q')), RestoreAction::Exit);
    assert_eq!(app.state, AppState::Cancelled);
}

#[test]
fn restore_failure_is_reported() {
    let mut app = offered();
    app.handle_key(Key::Enter);
    app.restore_finished(Err("boom".to_string()));
    assert_eq!(app.state, AppState::Complete);
    assert_eq!(app.error_message.as_deref(), Some("Restore failed: boom"));
    assert_eq!(app.status_message, "Error loading session. Starting fresh.");
}

#[test]
fn loading_outcomes() {
    let mut app: App<u32> = App::new();
    app.load_finished(Ok(None));
    assert_eq!(app.state, AppState::Complete);
    assert_eq!(app.status_message, "No previous session found. Starting fresh.");
    let mut app: App<u32> = App::new();
    app.load_finished(Err("bad json".to_string()));
    assert_eq!(app.error_message.as_deref(), Some("Failed to load session: bad json"));
    assert!(app.is_finished());
    let mut app: App<u32> = App::new();
    app.load_finished(Ok(Some(3)));
    assert_eq!(app.session, Some(3));
    assert_eq!(app.state, AppState::ShowSession);
    let mut app: App<u32> = App::new();
    assert_eq!(app.handle_key(Key::Enter), RestoreAction::Continue);
    assert_eq!(app.handle_key(Key::Esc), RestoreAction::Exit);
    assert_eq!(app.state, AppState::Cancelled);
}

#[test]
fn progress_below_full_keeps_state() {
    let mut app = offered();
    app.handle_key(Key::Enter);
    app.update_progress(40);
    assert_eq!(app.state, AppState::Restoring);
    assert_eq!(app.progress, 40);
    assert!(app.confirm_selection() == false);
}
