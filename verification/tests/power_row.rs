use side_panel_right::power::PowerAction;
use side_panel_right::power_row::{clock_text, label_for};

#[test]
fn label_for_names_each_action() {
    assert_eq!(label_for(PowerAction::LogOut, None), "Log out");
    assert_eq!(label_for(PowerAction::Restart, None), "Restart");
    assert_eq!(label_for(PowerAction::Shutdown, None), "Power");
    assert_eq!(label_for(PowerAction::Lock, None), "Lock");
    assert_eq!(label_for(PowerAction::Sleep, None), "Sleep");
    assert_eq!(label_for(PowerAction::Hibernate, None), "Hibernate");
}

#[test]
fn label_for_confirms_only_the_armed_action() {
    assert_eq!(label_for(PowerAction::Restart, Some(PowerAction::Restart)), "Confirm?");
    assert_eq!(label_for(PowerAction::Shutdown, Some(PowerAction::Restart)), "Power");
}

#[test]
fn clock_text_pads_time_and_names_month() {
    assert_eq!(clock_text(9, 5, 3, 0), "09:05 · 3 янв");
    assert_eq!(clock_text(23, 59, 31, 11), "23:59 · 31 дек");
    assert_eq!(clock_text(0, 0, 1, 4), "00:00 · 1 май");
}

#[test]
fn clock_text_unknown_month_is_question_marks() {
    assert_eq!(clock_text(12, 30, 15, 12), "12:30 · 15 ???");
}
