//! Shared target for the Preview tab — which file the user wants to see.
//!
//! Files sets it on a regular file click; Preview observes it. The pair
//! `(path, generation)` lets observers drop stale background results when a
//! second click arrives before the first finishes loading.

use std::path::PathBuf;

use vstd::prelude::*;

verus! {

/// `std::path::PathBuf`, carried through unread.
#[verifier::external_type_specification]
#[verifier::external_body]
pub struct ExPathBuf(PathBuf);

/// `PathBuf::clone` gives a copy of the path it is called on.
pub assume_specification[ <PathBuf as Clone>::clone ](p: &PathBuf) -> (r: PathBuf)
    ensures
        r == *p,
;

/// What the caller wants to do with the file — view it or edit it.
#[derive(Debug, Clone, Copy, PartialEq, Eq, Structural)]
pub enum PreviewIntent {
    View,
    Edit,
}

impl Default for PreviewIntent {
    fn default() -> (r: Self)
        ensures
            r == PreviewIntent::View,
    {
        PreviewIntent::View
    }
}

/// Single source of truth for "what should Preview show right now".
///
/// `path` is `None` until the user clicks a regular file in Files.
/// `generation` is bumped on every distinct file selection or intent change
/// for the same file.
#[derive(Debug, Clone)]
pub struct PreviewTarget {
    pub path: Option<PathBuf>,
    pub generation: u64,
    pub intent: PreviewIntent,
}

impl Default for PreviewTarget {
    fn default() -> (r: Self)
        ensures
            r.path is None,
            r.generation == 0,
            r.intent == PreviewIntent::View,
    {
        PreviewTarget { path: None, generation: 0, intent: PreviewIntent::View }
    }
}

impl PreviewTarget {
    /// The first selection of a file, to be viewed.
    pub fn file(path: PathBuf) -> (r: Self)
        ensures
            r.path == Some(path),
            r.generation == 1,
            r.intent == PreviewIntent::View,
    {
        Self { path: Some(path), generation: 1, intent: PreviewIntent::View }
    }

    /// The target after an external request to edit `path`: that file, to be
    /// edited, under the next generation (wrapping at `u64::MAX`), so loads
    /// started for the previous target are discarded.
    pub fn edit(&self, path: PathBuf) -> (r: Self)
        ensures
            r.path == Some(path),
            r.generation == (if self.generation == u64::MAX {
                0
            } else {
                (self.generation + 1) as u64
            }),
            r.intent == PreviewIntent::Edit,
            r.generation != self.generation,
    {
        Self { path: Some(path), generation: self.generation.wrapping_add(1), intent: PreviewIntent::Edit }
    }
}

} // verus!
