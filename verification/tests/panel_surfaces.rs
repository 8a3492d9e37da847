use side_panel_right::panel_surfaces::{two_surface_open_outcome, TwoSurfaceOpen};

#[test]
fn both_surfaces_open_commits_both_handles() {
    assert_eq!(two_surface_open_outcome(true), TwoSurfaceOpen::CommitBoth);
}

#[test]
fn rail_failing_after_content_opened_rolls_content_back() {
    assert_eq!(
        two_surface_open_outcome(false),
        TwoSurfaceOpen::RollbackContent
    );
}

