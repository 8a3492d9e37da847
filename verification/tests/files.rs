use side_panel_right::files::{ListPage, Listing, LoadState};

#[test]
fn request_resets_to_loading_and_empty() {
    let mut l: Listing<&str> = Listing::new();
    let t = l.request();
    assert!(l.complete(t, Ok(ListPage { entries: vec!["a", "b"], more: false, total: 2 })));
    let t2 = l.request();
    assert_eq!(t2, t + 1);
    assert_eq!(l.load, LoadState::Loading);
    assert!(l.entries.is_empty());
    assert_eq!(l.total, 0);
    assert!(!l.truncated);
}

#[test]
fn truncated_listing_shows_banner_when_ready() {
    let mut l: Listing<u32> = Listing::new();
    let t = l.request();
    assert!(!l.shows_truncated_banner());
    assert!(l.complete(t, Ok(ListPage { entries: (0..10).collect(), more: true, total: 15 })));
    assert_eq!(l.load, LoadState::Ready);
    assert!(l.truncated);
    assert_eq!(l.total, 15);
    assert_eq!(l.entries.len(), 10);
    assert!(l.shows_truncated_banner());
}

#[test]
fn stale_result_is_discarded() {
    let mut l: Listing<&str> = Listing::new();
    let old = l.request();
    let new = l.request();
    assert!(!l.complete(old, Ok(ListPage { entries: vec!["stale"], more: false, total: 1 })));
    assert_eq!(l.load, LoadState::Loading);
    assert!(l.entries.is_empty());
    assert!(l.complete(new, Ok(ListPage { entries: vec!["fresh"], more: false, total: 1 })));
    assert_eq!(l.entries, vec!["fresh"]);
}

#[test]
fn error_shows_message_with_empty_listing() {
    let mut l: Listing<&str> = Listing::new();
    let t = l.request();
    assert!(l.complete(t, Err("Cannot read '/nope': not found".to_string())));
    assert_eq!(l.load, LoadState::Error("Cannot read '/nope': not found".to_string()));
    assert!(l.entries.is_empty());
    assert!(!l.shows_truncated_banner());
}

#[test]
fn request_wraps_the_generation() {
    let mut l: Listing<&str> = Listing::new();
    l.generation = u64::MAX;
    assert_eq!(l.request(), 0);
}
