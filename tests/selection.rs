use fi::keys::{handle_key, Key};
use fi::result::SearchResult;
use fi::selection::{Action, AppState};

fn rec(backend: &str, name: &str) -> SearchResult {
    SearchResult {
        backend: backend.to_string(),
        name: name.to_string(),
        identifier: name.to_string(),
        description: format!("{} package", name),
        version: None,
    }
}

fn three_groups() -> AppState {
    AppState::new(vec![
        ("dnf".to_string(), vec![]),
        ("flatpak".to_string(), vec![rec("flatpak", "alpha"), rec("flatpak", "beta")]),
        ("cargo".to_string(), vec![rec("cargo", "gamma")]),
    ])
}

#[test]
fn initial_state_has_cursor_on_first_record_of_non_empty_groups() {
    let app = three_groups();
    assert_eq!(app.active_section, 0);
    assert_eq!(app.section_states, vec![None, Some(0), Some(0)]);
    assert!(app.selected_result.is_none());
    assert!(!app.finished);
}

#[test]
fn next_group_move_down_confirm_chooses_second_flatpak_record() {
    let mut app = three_groups();
    app.apply(Action::NextGroup);
    assert_eq!(app.active_section, 1);
    app.apply(Action::MoveDown);
    assert_eq!(app.section_states[1], Some(1));
    app.apply(Action::Confirm);
    assert!(app.finished);
    let chosen = app.selected_result.expect("a record is chosen");
    assert_eq!(chosen.identifier, "beta");
    assert_eq!(chosen.backend, "flatpak");
}

#[test]
fn quit_immediately_chooses_nothing_and_touches_no_group() {
    let mut app = three_groups();
    app.apply(Action::Quit);
    assert!(app.finished);
    assert!(app.selected_result.is_none());
    assert_eq!(app.active_section, 0);
    assert_eq!(app.section_states, vec![None, Some(0), Some(0)]);
}

#[test]
fn move_down_stops_at_last_record_and_move_up_at_first() {
    let mut app = three_groups();
    app.apply(Action::NextGroup);
    app.apply(Action::MoveDown);
    app.apply(Action::MoveDown);
    app.apply(Action::MoveDown);
    assert_eq!(app.section_states[1], Some(1));
    app.apply(Action::MoveUp);
    app.apply(Action::MoveUp);
    assert_eq!(app.section_states[1], Some(0));
}

#[test]
fn moves_in_an_empty_group_change_nothing() {
    let mut app = three_groups();
    app.apply(Action::MoveDown);
    app.apply(Action::MoveUp);
    app.apply(Action::JumpTop);
    app.apply(Action::JumpBottom);
    assert_eq!(app.section_states, vec![None, Some(0), Some(0)]);
}

#[test]
fn jumps_are_idempotent() {
    let mut app = three_groups();
    app.apply(Action::NextGroup);
    app.apply(Action::JumpBottom);
    assert_eq!(app.section_states[1], Some(1));
    app.apply(Action::JumpBottom);
    assert_eq!(app.section_states[1], Some(1));
    app.apply(Action::JumpTop);
    assert_eq!(app.section_states[1], Some(0));
    app.apply(Action::JumpTop);
    assert_eq!(app.section_states[1], Some(0));
}

#[test]
fn next_and_prev_group_cycle_through_all_groups() {
    let mut app = three_groups();
    for _ in 0..3 {
        app.apply(Action::NextGroup);
    }
    assert_eq!(app.active_section, 0);
    app.apply(Action::PrevGroup);
    assert_eq!(app.active_section, 2);
    app.apply(Action::PrevGroup);
    app.apply(Action::PrevGroup);
    assert_eq!(app.active_section, 0);
    assert_eq!(app.section_states, vec![None, Some(0), Some(0)]);
}

#[test]
fn confirm_on_empty_group_stays_browsing() {
    let mut app = three_groups();
    app.apply(Action::Confirm);
    assert!(!app.finished);
    assert!(app.selected_result.is_none());
    assert_eq!(app.active_section, 0);
}

#[test]
fn quit_after_moves_chooses_nothing() {
    let mut app = three_groups();
    app.apply(Action::PrevGroup);
    app.apply(Action::JumpBottom);
    app.apply(Action::Quit);
    assert!(app.finished);
    assert!(app.selected_result.is_none());
}

#[test]
fn finished_state_ignores_further_actions() {
    let mut app = three_groups();
    app.apply(Action::Quit);
    app.apply(Action::NextGroup);
    app.apply(Action::Confirm);
    assert_eq!(app.active_section, 0);
    assert!(app.selected_result.is_none());
}

#[test]
fn no_groups_only_quit_has_an_effect() {
    let mut app = AppState::new(vec![]);
    app.apply(Action::NextGroup);
    app.apply(Action::MoveDown);
    app.apply(Action::Confirm);
    assert!(!app.finished);
    app.apply(Action::Quit);
    assert!(app.finished);
}

#[test]
fn get_selected_item_follows_the_active_cursor() {
    let mut app = three_groups();
    assert!(app.get_selected_item().is_none());
    app.apply(Action::PrevGroup);
    assert_eq!(app.get_selected_item().unwrap().identifier, "gamma");
}

#[test]
fn keys_drive_the_selection() {
    let mut app = three_groups();
    assert!(!handle_key(&mut app, Key::Tab));
    assert_eq!(app.active_section, 1);
    assert!(!handle_key(&mut app, Key::Char('j')));
    assert!(!handle_key(&mut app, Key::Char('x')));
    assert_eq!(app.section_states[1], Some(1));
    assert!(!handle_key(&mut app, Key::Char('k')));
    assert!(!handle_key(&mut app, Key::Char('G')));
    assert!(!handle_key(&mut app, Key::Left));
    assert_eq!(app.active_section, 0);
    assert!(!handle_key(&mut app, Key::BackTab));
    assert_eq!(app.active_section, 2);
    assert!(handle_key(&mut app, Key::Enter));
    assert_eq!(app.selected_result.unwrap().identifier, "gamma");
}

#[test]
fn q_key_quits() {
    let mut app = three_groups();
    assert!(handle_key(&mut app, Key::Char('q')));
    assert!(app.selected_result.is_none());
}
