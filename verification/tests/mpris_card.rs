use std::path::PathBuf;

use side_panel_right::mpris_card::{display_title, file_uri_to_path, remaining_timecode, MprisState};

#[test]
fn no_player_shows_placeholder_title() {
    let state = MprisState::default();
    assert_eq!(display_title(&state), "No player");
}

#[test]
fn active_player_shows_real_title() {
    let state = MprisState {
        title: "Colour Temperature".into(),
        artist: "Ambient Systems".into(),
        playing: true,
        has_player: true,
        player_count: 1,
        player_index: 1,
        player_id: "vivaldi".into(),
        ..Default::default()
    };
    assert_eq!(display_title(&state), "Colour Temperature");
}

#[test]
fn empty_title_falls_back_to_artist_or_id() {
    let mut state = MprisState {
        title: String::new(),
        artist: "Only Artist".into(),
        playing: false,
        has_player: true,
        player_count: 1,
        player_index: 1,
        player_id: "mpv".into(),
        ..Default::default()
    };
    assert_eq!(display_title(&state), "Only Artist");
    state.artist.clear();
    assert_eq!(display_title(&state), "mpv");
}

#[test]
fn remaining_timecode_formats_like_mockup() {
    let len = (14 * 60 + 22) * 1_000_000;
    assert_eq!(
        remaining_timecode(Some(0), Some(len)).as_deref(),
        Some("-14:22")
    );
    assert_eq!(
        remaining_timecode(Some(len - 60_000_000), Some(len)).as_deref(),
        Some("-1:00")
    );
    assert_eq!(remaining_timecode(Some(10), None), None);
}

#[test]
fn file_uri_to_path_decodes_percent() {
    let p = file_uri_to_path("file:///tmp/my%20cover.png").unwrap();
    assert_eq!(PathBuf::from(String::from_utf8(p).unwrap()), PathBuf::from("/tmp/my cover.png"));
}

#[test]
fn file_uri_rejects_http() {
    assert!(file_uri_to_path("https://cdn.example/art.jpg").is_none());
}

#[test]
fn remaining_timecode_hours_and_clamps() {
    let len = (3600 + 2 * 60 + 3) * 1_000_000;
    assert_eq!(remaining_timecode(None, Some(len)).as_deref(), Some("-1:02:03"));
    assert_eq!(remaining_timecode(Some(-5), Some(len)).as_deref(), Some("-1:02:03"));
    assert_eq!(remaining_timecode(Some(2 * len), Some(len)).as_deref(), Some("-0:00"));
    assert_eq!(remaining_timecode(Some(0), Some(-1)), None);
}

#[test]
fn file_uri_escapes() {
    assert_eq!(file_uri_to_path("file:///a%2Fb%2fc").unwrap(), b"/a/b/c".to_vec());
    assert_eq!(file_uri_to_path("file:///x%+7y").unwrap(), b"/x\x07y".to_vec());
    assert!(file_uri_to_path("file:///bad%zz").is_none());
    assert!(file_uri_to_path("file:///cut%2").is_none());
    assert!(file_uri_to_path("FILE:///upper").is_none());
    assert_eq!(file_uri_to_path("file://").unwrap(), Vec::<u8>::new());
}
