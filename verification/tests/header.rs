use side_panel_right::header::{pick_title, ActiveWindow};

#[test]
fn pick_title_returns_desktop_when_none() {
    let t = pick_title(None);
    assert_eq!(t, "Desktop");
    assert_ne!(t, "kitty", "never fakes a window class");
}

#[test]
fn pick_title_returns_window_title_when_some() {
    let w = ActiveWindow {
        title: "Freebuff: пиши отчет".to_string(),
        class: "codebuff".to_string(),
        address: "0x123".to_string(),
    };
    assert_eq!(pick_title(Some(&w)), "Freebuff: пиши отчет");
}

#[test]
fn pick_title_preserves_empty_title_honestly() {
    let w = ActiveWindow {
        title: String::new(),
        class: "firefox".to_string(),
        address: "0x456".to_string(),
    };
    assert_eq!(pick_title(Some(&w)), "");
}

#[test]
fn pick_title_does_not_use_class_as_fallback() {
    let w = ActiveWindow {
        title: String::new(),
        class: "kitty".to_string(),
        address: "0x789".to_string(),
    };
    let t = pick_title(Some(&w));
    assert_ne!(t, "kitty", "class MUST NOT leak as title");
    assert_eq!(t, "");
}

