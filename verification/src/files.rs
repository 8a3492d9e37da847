//! The files tab's directory listing: generation-stamped loads, so a result
//! that arrives after a newer request is discarded.
//!
//! The caller lists the directory in the background and hands the outcome
//! back with the ticket it was started with.

use vstd::prelude::*;

verus! {

/// Load lifecycle of the listing.
#[derive(Debug, Clone, PartialEq, Eq)]
pub enum LoadState {
    Loading,
    Ready,
    Error(String),
}

/// A finished listing: the entries of the page (already sorted by name),
/// whether more entries were cut off by the page limit, and how many names
/// the directory holds in all.
#[derive(Debug, Clone)]
pub struct ListPage<E> {
    pub entries: Vec<E>,
    pub more: bool,
    pub total: usize,
}

/// The listing shown by the tab.
#[derive(Debug)]
pub struct Listing<E> {
    pub entries: Vec<E>,
    /// Names in the directory before the page limit.
    pub total: usize,
    /// The listing was cut off by the page limit.
    pub truncated: bool,
    pub load: LoadState,
    /// Bumped by every request; stale results are discarded.
    pub generation: u64,
}

/// The generation after one request (wrapping at `u64::MAX`).
pub open spec fn bumped(g: u64) -> u64 {
    if g == u64::MAX {
        0
    } else {
        (g + 1) as u64
    }
}

impl<E> Listing<E> {
    /// Before the first request: loading, nothing listed, generation zero.
    pub fn new() -> (r: Listing<E>)
        ensures
            r.entries@.len() == 0,
            r.total == 0,
            !r.truncated,
            r.load == LoadState::Loading,
            r.generation == 0,
    {
        Listing { entries: Vec::new(), total: 0, truncated: false, load: LoadState::Loading, generation: 0 }
    }

    /// Starts a (re)load: a new generation, loading, and an empty listing.
    /// Returns the ticket the background load must hand back.
    pub fn request(&mut self) -> (ticket: u64)
        ensures
            ticket == final(self).generation,
            final(self).generation == bumped(old(self).generation),
            final(self).load == LoadState::Loading,
            final(self).entries@.len() == 0,
            final(self).total == 0,
            !final(self).truncated,
    {
        self.generation = self.generation.wrapping_add(1);
        self.load = LoadState::Loading;
        self.entries = Vec::new();
        self.truncated = false;
        self.total = 0;
        self.generation
    }

    /// A background load finished. Applies it only when `ticket` is still the
    /// current generation (`true` then): a page makes the listing ready, an
    /// error shows the message with an empty listing.
    pub fn complete(&mut self, ticket: u64, outcome: Result<ListPage<E>, String>) -> (applied: bool)
        ensures
            applied == (ticket == old(self).generation),
            final(self).generation == old(self).generation,
            !applied ==> final(self).entries@ == old(self).entries@ && final(self).total == old(
                self,
            ).total && final(self).truncated == old(self).truncated && final(self).load == old(
                self,
            ).load,
            applied ==> match outcome {
                Ok(page) => final(self).entries@ == page.entries@ && final(self).total == page.total
                    && final(self).truncated == page.more && final(self).load == LoadState::Ready,
                Err(m) => final(self).entries@.len() == 0 && final(self).total == 0
                    && !final(self).truncated && final(self).load == LoadState::Error(m),
            },
    {
        if ticket != self.generation {
            return false;
        }
        match outcome {
            Ok(page) => {
                self.truncated = page.more;
                self.total = page.total;
                self.entries = page.entries;
                self.load = LoadState::Ready;
            },
            Err(message) => {
                self.load = LoadState::Error(message);
                self.entries = Vec::new();
                self.total = 0;
                self.truncated = false;
            },
        }
        true
    }

    /// The truncation banner shows only for a ready, cut-off listing.
    pub fn shows_truncated_banner(&self) -> (r: bool)
        ensures
            r == (self.truncated && self.load == LoadState::Ready),
    {
        self.truncated && match self.load {
            LoadState::Ready => true,
            _ => false,
        }
    }
}

/// A new request discards every load started before it: one bump moves the
/// generation away from the previous ticket.
pub proof fn lemma_request_discards_older(g: u64)
    ensures
        bumped(g) != g,
{
}

} // verus!
