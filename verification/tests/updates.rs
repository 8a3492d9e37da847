use side_panel_right::updates::{selectable_names, Selection, UpdateRow};

fn s(x: &str) -> String {
    x.to_string()
}

#[test]
fn toggle_selects_then_deselects() {
    let mut sel = Selection::new();
    assert!(sel.is_empty());
    sel.toggle(s("linux"));
    assert!(sel.contains(&s("linux")));
    assert!(!sel.is_empty());
    sel.toggle(s("linux"));
    assert!(!sel.contains(&s("linux")));
    assert!(sel.is_empty());
}

#[test]
fn toggle_leaves_other_names_alone() {
    let mut sel = Selection::new();
    sel.toggle(s("a"));
    sel.toggle(s("b"));
    sel.toggle(s("c"));
    sel.toggle(s("b"));
    let mut names = sel.names();
    names.sort();
    assert_eq!(names, vec![s("a"), s("c")]);
}

#[test]
fn retain_listed_drops_names_no_longer_visible() {
    let mut sel = Selection::new();
    sel.toggle(s("mesa"));
    sel.toggle(s("gone"));
    sel.toggle(s("firefox"));
    sel.retain_listed(&vec![s("firefox"), s("mesa"), s("other")]);
    let mut names = sel.names();
    names.sort();
    assert_eq!(names, vec![s("firefox"), s("mesa")]);
    assert!(!sel.contains(&s("other")));
}

#[test]
fn upgrade_label_flips_with_selection() {
    let mut sel = Selection::new();
    assert_eq!(sel.upgrade_label(), "Upgrade all");
    sel.toggle(s("mesa"));
    assert_eq!(sel.upgrade_label(), "Upgrade selected");
}

fn row(name: &str, aur: bool) -> UpdateRow {
    UpdateRow { name: name.to_string(), aur }
}

#[test]
fn selectable_names_skip_aur_and_completed() {
    let rows = vec![row("mesa", false), row("yay-bin", true), row("linux", false), row("firefox", false)];
    let names = selectable_names(&rows, &vec![s("linux")]);
    assert_eq!(names, vec![s("mesa"), s("firefox")]);
}

#[test]
fn retain_with_selectable_names_never_keeps_an_aur_name() {
    let mut sel = Selection::new();
    sel.toggle(s("mesa"));
    sel.toggle(s("yay-bin"));
    sel.toggle(s("linux"));
    let rows = vec![row("mesa", false), row("yay-bin", true), row("linux", false)];
    sel.retain_listed(&selectable_names(&rows, &vec![s("linux")]));
    assert!(!sel.contains(&s("yay-bin")));
    assert!(!sel.contains(&s("linux")));
    assert_eq!(sel.names(), vec![s("mesa")]);
}
