use std::path::PathBuf;

use side_panel_right::preview_target::{PreviewIntent, PreviewTarget};

use side_panel_right::preview::{
    intent_view_mode, kind_label, may_set_view_mode, State, ViewMode,
    can_toggle_edit, classify, classify_extension, classify_image_url, is_editable, looks_like_text,
    redact_remote_images, ImageUrlClass, PreviewKind, SaveStatus, decide_target, on_target_changed, settle_load,
    Loaded, TargetAction, text_read_plan, TextRead,
    SNIFF_BYTES,
};

#[test]
fn classify_known_image_extensions() {
    let head = {
        let probe: &[u8] = b"...";
        let mut a = [0u8; SNIFF_BYTES];
        for (i, slot) in a.iter_mut().enumerate() {
            *slot = probe.get(i).copied().unwrap_or(0);
        }
        a
    };
    for ext in ["png", "PNG", "jpg", "jpeg", "svg", "webp", "gif", "bmp"] {
        let path = PathBuf::from(format!("/x/foo.{ext}"));
        assert_eq!(classify(&path, &head), PreviewKind::Image, "ext={ext}");
    }
}

#[test]
fn classify_markdown_variants() {
    let head = {
        let probe: &[u8] = b"# hi";
        let mut a = [0u8; SNIFF_BYTES];
        for (i, slot) in a.iter_mut().enumerate() {
            *slot = probe.get(i).copied().unwrap_or(0);
        }
        a
    };
    for ext in ["md", "markdown", "mdown", "MD"] {
        let path = PathBuf::from(format!("/x/README.{ext}"));
        assert_eq!(classify(&path, &head), PreviewKind::Markdown);
    }
}

#[test]
fn classify_web_is_honest_unavailable() {
    let head = {
        let probe: &[u8] = b"...\n";
        let mut a = [0u8; SNIFF_BYTES];
        for (i, slot) in a.iter_mut().enumerate() {
            *slot = probe.get(i).copied().unwrap_or(0);
        }
        a
    };
    for ext in ["html", "htm", "xhtml", "css"] {
        let path = PathBuf::from(format!("/x/main.{ext}"));
        assert_eq!(classify(&path, &head), PreviewKind::WebPreview);
    }
}

#[test]
fn classify_unknown_with_text_bytes_falls_through_to_text() {
    let path = PathBuf::from("/x/.bashrc");
    let src = b"export PATH=\n";
    let mut head = [0u8; SNIFF_BYTES];
    for (i, slot) in head.iter_mut().enumerate() {
        *slot = src[i % src.len()];
    }
    assert!(
        std::str::from_utf8(&head).is_ok(),
        "test sanity: probe head must decode as UTF-8"
    );
    assert_eq!(classify(&path, &head), PreviewKind::Text);
}

#[test]
fn classify_unknown_with_binary_bytes_is_unsupported() {
    let path = PathBuf::from("/x/data.bin");
    let head = [0x7f, 0x45, 0x4c, 0x46, 0x02, 0x01, 0x01, 0x00, 0, 0, 0, 0, 0, 0, 0, 0];
    assert_eq!(classify(&path, &head), PreviewKind::Unsupported);
}

#[test]
fn classify_all_zero_is_unsupported() {
    let path = PathBuf::from("/x/.dat");
    let head = [0u8; SNIFF_BYTES];
    assert_eq!(classify(&path, &head), PreviewKind::Unsupported);
}

#[test]
fn text_and_markdown_are_editable_when_not_truncated() {
    assert!(is_editable(PreviewKind::Text, false));
    assert!(is_editable(PreviewKind::Markdown, false));
}

#[test]
fn truncated_text_and_markdown_are_not_editable() {
    assert!(!is_editable(PreviewKind::Text, true));
    assert!(!is_editable(PreviewKind::Markdown, true));
}

#[test]
fn non_text_kinds_are_never_editable() {
    for kind in [
        PreviewKind::Image,
        PreviewKind::WebPreview,
        PreviewKind::Unsupported,
    ] {
        assert!(!is_editable(kind, false), "{kind:?} must not be editable");
        assert!(!is_editable(kind, true), "{kind:?} must not be editable");
    }
}

#[test]
fn classify_image_url_categories() {
    let cases: &[(&str, ImageUrlClass)] = &[
        ("https://a/x.png", ImageUrlClass::Remote("https://a/x.png".into())),
        ("http://a/x.png", ImageUrlClass::Remote("http://a/x.png".into())),
        ("ftp://a/x.png", ImageUrlClass::Remote("ftp://a/x.png".into())),
        ("HTTPS://A/X.PNG", ImageUrlClass::Remote("HTTPS://A/X.PNG".into())),
        ("data:image/png;base64,xyz", ImageUrlClass::Data),
        ("file:///abs/foo.svg", ImageUrlClass::Local("/abs/foo.svg".into())),
        ("./local.png", ImageUrlClass::Local("./local.png".into())),
        ("../foo.png", ImageUrlClass::Local("../foo.png".into())),
        ("plain.jpg", ImageUrlClass::Local("plain.jpg".into())),
        ("/abs/foo.png", ImageUrlClass::Local("/abs/foo.png".into())),
        ("", ImageUrlClass::Unsupported("".into())),
        ("   ", ImageUrlClass::Unsupported("   ".into())),
    ];
    for (input, expected) in cases {
        assert_eq!(&classify_image_url(input), expected, "{input:?}");
    }
}


#[test]
fn redact_remote_images_replaces_badges() {
    let original = "Header\n\
                    [![status](https://img.shields.io/badge/status-work%20in%20progress-orange)](#status)\n\
                    [![license](https://img.shields.io/badge/license-Apache--2.0-blue)](#license)\n\
                    End\n";
    let redacted = redact_remote_images(original);
    assert!(
        !redacted.contains("!["),
        "image syntax must be gone, got: {redacted}"
    );
    assert!(
        redacted.contains("img.shields.io"),
        "marker must surface the URL: {redacted}"
    );
    assert!(redacted.contains("Header"));
    assert!(redacted.contains("End"));
    assert!(redacted.contains("remote image, not loaded"));
    assert!(redacted.contains("[🛰 status"));
    assert!(redacted.contains("[🛰 license"));
}

#[test]
fn redact_remote_images_keeps_local() {
    let s = "![alt](./local.png)\n\
             ![alt2](/abs/foo.png)\n\
             ![alt3](foo.png)\n\
             ![alt4](data:image/png;base64,xyz)";
    assert_eq!(
        redact_remote_images(s),
        s,
        "local/data classes must pass through unchanged"
    );
}

#[test]
fn redact_remote_images_handles_title_and_edges() {
    let r1 = redact_remote_images(r#"![a](https://x/y.png "Title")"#);
    assert!(r1.contains(r#"(title: "Title")"#));
    assert!(!r1.contains("!["));

    let long_url = "https://a/".to_string() + &"x".repeat(200) + ".png";
    let r2 = redact_remote_images(&format!("![a]({long_url})"));
    assert!(r2.contains('…'));
    assert!(r2.chars().filter(|c| *c == 'x').count() <= 80);

    assert_eq!(
        redact_remote_images("[a](https://x/y.png)"),
        "[a](https://x/y.png)"
    );

    assert_eq!(redact_remote_images(""), "");
    assert_eq!(
        redact_remote_images("# Hello\nworld"),
        "# Hello\nworld"
    );
    assert_eq!(
        redact_remote_images("![alt]no-paren"),
        "![alt]no-paren"
    );
    assert_eq!(
        redact_remote_images("![alt](unclosed"),
        "![alt](unclosed"
    );

    let r = redact_remote_images("![Логотип](https://x/logo.svg)");
    assert!(r.contains("Логотип"));
    assert!(!r.contains("!["), "non-ASCII alt still stripped: {r}");
}


#[test]
fn looks_like_text_threshold_is_eighty_percent() {
    let mut head = [b'a'; SNIFF_BYTES];
    for b in head.iter_mut().take(3) {
        *b = 1;
    }
    assert!(looks_like_text(&head));
    head[3] = 1;
    assert!(!looks_like_text(&head));
}

#[test]
fn classify_extension_is_case_insensitive() {
    let head = [0u8; SNIFF_BYTES];
    assert_eq!(classify_extension("JpEg", &head), PreviewKind::Image);
    assert_eq!(classify_extension("", &head), PreviewKind::Unsupported);
}

#[test]
fn toggle_edit_only_for_whole_markdown() {
    assert!(can_toggle_edit(PreviewKind::Markdown, false));
    assert!(!can_toggle_edit(PreviewKind::Markdown, true));
    assert!(!can_toggle_edit(PreviewKind::Text, false));
}

#[test]
fn remote_marker_exact_text() {
    assert_eq!(
        redact_remote_images("x ![b](HTTP://h/i.png) y"),
        "x [🛰 b — remote image, not loaded: HTTP://h/i.png] y"
    );
    let url = format!("https://{}", "u".repeat(90));
    let out = redact_remote_images(&format!("![a]({url})"));
    assert_eq!(out, format!("[🛰 a — remote image, not loaded: {}…]", &url[..80]));
}


#[test]
fn edit_intent_settles_to_edit_only_for_whole_markdown() {
    assert_eq!(intent_view_mode(PreviewIntent::Edit, PreviewKind::Markdown, false), ViewMode::Edit);
    assert_eq!(intent_view_mode(PreviewIntent::Edit, PreviewKind::Markdown, true), ViewMode::View);
    assert_eq!(intent_view_mode(PreviewIntent::Edit, PreviewKind::Text, false), ViewMode::View);
    assert_eq!(intent_view_mode(PreviewIntent::Edit, PreviewKind::Image, false), ViewMode::View);
    assert_eq!(intent_view_mode(PreviewIntent::View, PreviewKind::Markdown, false), ViewMode::View);
}

#[test]
fn leaving_edit_while_dirty_is_refused() {
    assert!(!may_set_view_mode(ViewMode::View, ViewMode::Edit, true));
    assert!(may_set_view_mode(ViewMode::View, ViewMode::Edit, false));
    assert!(may_set_view_mode(ViewMode::Edit, ViewMode::View, true));
}

#[test]
fn state_generation_and_labels() {
    assert_eq!(State::Empty.generation(), 0);
    let s = State::Error { generation: 7, message: "x".into() };
    assert_eq!(s.generation(), 7);
    let l = State::Loading { generation: 3, path: PathBuf::from("/a") };
    assert_eq!(l.generation(), 3);
    assert_eq!(kind_label(PreviewKind::WebPreview), "web (unavailable)");
}

#[test]
fn save_starts_only_when_idle_loaded_and_editing() {
    let mut s = SaveStatus::new();
    assert!(!s.begin(false, true));
    assert!(!s.begin(true, false));
    assert_eq!(s, SaveStatus::new());
    s.dirty = true;
    s.result = Some((false, "old".to_string()));
    assert!(s.begin(true, true));
    assert!(s.saving);
    assert_eq!(s.result, None);
    // A second request while the first is in flight is ignored.
    assert!(!s.begin(true, true));
}

#[test]
fn save_success_clears_dirty_failure_keeps_it() {
    let mut s = SaveStatus::new();
    s.dirty = true;
    assert!(s.begin(true, true));
    s.finish(Err("Cannot save 'a.md': denied".to_string()));
    assert!(!s.saving);
    assert!(s.dirty);
    assert_eq!(s.result, Some((false, "Cannot save 'a.md': denied".to_string())));
    assert!(s.begin(true, true));
    s.finish(Ok(()));
    assert!(!s.dirty);
    assert_eq!(s.result, Some((true, String::new())));
}

#[test]
fn edit_request_bumps_generation_and_sets_edit_intent() {
    let t = PreviewTarget::file(PathBuf::from("/tmp/a.md"));
    let e = t.edit(PathBuf::from("/tmp/b.md"));
    assert_eq!(e.path, Some(PathBuf::from("/tmp/b.md")));
    assert_eq!(e.generation, 2);
    assert_eq!(e.intent, PreviewIntent::Edit);
    let mut top = PreviewTarget::default();
    top.generation = u64::MAX;
    assert_eq!(top.edit(PathBuf::from("/x")).generation, 0);
}

fn loaded_md(path: &str, generation: u64) -> State {
    State::Loaded {
        generation,
        path: PathBuf::from(path),
        kind: PreviewKind::Markdown,
        size_bytes: 3,
        text: Some("# a".to_string()),
        truncated: false,
    }
}

#[test]
fn target_cleared_goes_empty() {
    assert_eq!(on_target_changed(&loaded_md("/a.md", 1), None, PreviewIntent::Edit), TargetAction::Clear);
}

#[test]
fn same_path_intent_switch_only_switches_mode() {
    let state = loaded_md("/a.md", 1);
    let p = PathBuf::from("/a.md");
    assert_eq!(on_target_changed(&state, Some(&p), PreviewIntent::Edit), TargetAction::SwitchMode(ViewMode::Edit));
    assert_eq!(on_target_changed(&state, Some(&p), PreviewIntent::View), TargetAction::SwitchMode(ViewMode::View));
    let q = PathBuf::from("/b.md");
    assert_eq!(on_target_changed(&state, Some(&q), PreviewIntent::Edit), TargetAction::Load);
    let loading = State::Loading { generation: 2, path: p.clone() };
    assert_eq!(on_target_changed(&loading, Some(&p), PreviewIntent::View), TargetAction::Load);
    assert_eq!(decide_target(&state, true, false, PreviewIntent::Edit), TargetAction::Load);
}

#[test]
fn settle_drops_stale_and_applies_pending_intent() {
    let loading = State::Loading { generation: 5, path: PathBuf::from("/a.md") };
    let read = || Loaded {
        path: PathBuf::from("/a.md"),
        kind: PreviewKind::Markdown,
        size_bytes: 3,
        text: Some("# a".to_string()),
        truncated: false,
    };
    assert!(settle_load(&loading, 4, Ok(read()), PreviewIntent::Edit).is_none());
    match settle_load(&loading, 5, Ok(read()), PreviewIntent::Edit) {
        Some((State::Loaded { generation: 5, kind: PreviewKind::Markdown, .. }, ViewMode::Edit)) => {}
        _ => panic!("expected a loaded markdown body in edit mode"),
    }
    match settle_load(&loading, 5, Err("Cannot read '/a.md': gone".to_string()), PreviewIntent::Edit) {
        Some((State::Error { generation: 5, message }, ViewMode::View)) => {
            assert_eq!(message, "Cannot read '/a.md': gone")
        }
        _ => panic!("expected an error state in view mode"),
    }
}

#[test]
fn text_kinds_read_whole_up_to_the_cap() {
    assert_eq!(text_read_plan(PreviewKind::Markdown, 10), TextRead::All);
    assert_eq!(text_read_plan(PreviewKind::Text, 131072), TextRead::All);
    assert_eq!(text_read_plan(PreviewKind::Text, 131073), TextRead::Capped);
    assert_eq!(text_read_plan(PreviewKind::Image, 1 << 30), TextRead::Skip);
    assert_eq!(text_read_plan(PreviewKind::Unsupported, 0), TextRead::Skip);
}

#[test]
fn file_url_keeps_path_case() {
    assert_eq!(classify_image_url("file:///Pics/Cover.PNG"), ImageUrlClass::Local("/Pics/Cover.PNG".into()));
    assert_eq!(classify_image_url(" FILE:///Abs/X.svg "), ImageUrlClass::Local("/Abs/X.svg".into()));
}

#[test]
fn redaction_skips_wide_white_space_before_the_paren() {
    assert_eq!(redact_remote_images("![a](x\u{3000})"), "![a](x\u{3000})");
    assert_eq!(redact_remote_images("![a](./p.png\u{a0} \"T\")"), "![a](./p.png\u{a0} \"T\")");
    let r = redact_remote_images("![a](https://x/y.png\u{3000}\"T\")");
    assert!(!r.contains("!["));
    assert!(r.contains("(title: \"T\")"));
}

#[test]
fn save_button_follows_the_status() {
    let mut s = SaveStatus::new();
    assert_eq!(s.save_label(), "Saved");
    assert!(!s.can_save());
    s.dirty = true;
    assert_eq!(s.save_label(), "Save");
    assert!(s.can_save());
    assert!(s.begin(true, true));
    assert_eq!(s.save_label(), "Saving…");
    assert!(!s.can_save());
}
