use side_panel_right::launcher_settings::{
    grid_step, move_action, unhide, COLUMNS_MAX, COLUMNS_MIN, ICON_MAX, ICON_MIN, ROWS_MAX, ROWS_MIN,
};
use side_panel_right::power::PowerAction;

#[test]
fn unhide_removes_the_id() {
    let mut hidden = vec!["a".to_string(), "b".to_string(), "c".to_string()];
    assert!(unhide(&mut hidden, "b"));
    assert_eq!(hidden, vec!["a", "c"]);
    assert!(!unhide(&mut hidden, "zzz"), "missing id must not report a change");
}

#[test]
fn move_action_reorders_and_clamps() {
    let mut order = vec![
        PowerAction::Lock,
        PowerAction::LogOut,
        PowerAction::Sleep,
    ];
    assert!(move_action(&mut order, 1, -1));
    assert_eq!(order, vec![PowerAction::LogOut, PowerAction::Lock, PowerAction::Sleep]);
    assert!(!move_action(&mut order, 0, -1));
    assert!(!move_action(&mut order, 2, 1));
}


#[test]
fn move_action_down_and_far_out_of_range() {
    let mut order = vec![PowerAction::Lock, PowerAction::Restart, PowerAction::Shutdown];
    assert!(move_action(&mut order, 0, 2));
    assert_eq!(order, vec![PowerAction::Restart, PowerAction::Shutdown, PowerAction::Lock]);
    assert!(!move_action(&mut order, 1, isize::MIN));
    assert!(!move_action(&mut order, 1, isize::MAX));
    assert_eq!(order, vec![PowerAction::Restart, PowerAction::Shutdown, PowerAction::Lock]);
}

#[test]
fn unhide_removes_every_copy() {
    let mut hidden = vec!["a".to_string(), "b".to_string(), "a".to_string()];
    assert!(unhide(&mut hidden, "a"));
    assert_eq!(hidden, vec!["b"]);
}

#[test]
fn grid_steps_clamp_to_their_ranges() {
    assert_eq!(grid_step(5, 1, true, COLUMNS_MIN, COLUMNS_MAX), 6);
    assert_eq!(grid_step(12, 1, true, COLUMNS_MIN, COLUMNS_MAX), 12);
    assert_eq!(grid_step(1, 1, false, COLUMNS_MIN, COLUMNS_MAX), 1);
    assert_eq!(grid_step(10, 1, true, ROWS_MIN, ROWS_MAX), 10);
    assert_eq!(grid_step(3, 1, false, ROWS_MIN, ROWS_MAX), 2);
    assert_eq!(grid_step(62, 4, true, ICON_MIN, ICON_MAX), 64);
    assert_eq!(grid_step(18, 4, false, ICON_MIN, ICON_MAX), 16);
    assert_eq!(grid_step(2, 4, false, ICON_MIN, ICON_MAX), 16);
    assert_eq!(grid_step(usize::MAX, 1, true, ROWS_MIN, ROWS_MAX), 10);
}
