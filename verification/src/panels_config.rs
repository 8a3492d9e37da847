//! Right-panel rail tab layout (`panels.toml`).
//!
//! Two groups per mode: `top` (above the spacer) and `bottom` (between the
//! spacer and the dock toggle). `System settings` (`editor_settings`) lives
//! in the bottom group by default — right above the dock button.
//!
//! Reading and writing the file, and watching it for edits, happen outside
//! this module; here are the layout values, their sanitization, reordering,
//! resolution into tabs, and the in-memory cache.

use vstd::prelude::*;

use crate::tabs::{
    PanelTab, contains_tab, lemma_parse_id_round_trip, lemma_parse_unique, mode_tabs, no_dups,
    parse_tab, parse_unique, tab_id, views,
};
use crate::text;
use crate::workspace_mode::WorkspaceMode;

verus! {

/// Per-mode rail groups.
#[derive(Debug, Clone, PartialEq)]
pub struct RailGroups {
    /// Tabs above the spacer (top of the rail).
    pub top: Vec<String>,
    /// Tabs between the spacer and the dock toggle (bottom of the rail).
    pub bottom: Vec<String>,
}

/// Per-mode rail config (`[right.rail.<mode>]`).
#[derive(Debug, Clone, PartialEq)]
pub struct RailConfig {
    pub developer: RailGroups,
    pub gamer: RailGroups,
}

/// Top-level config — `version` + `[right.rail]`.
#[derive(Debug, Clone, PartialEq)]
pub struct PanelLayoutConfig {
    pub version: u32,
    pub right: RightConfig,
}

#[derive(Debug, Clone, PartialEq)]
pub struct RightConfig {
    pub rail: RailConfig,
}

/// The names of one mode's two groups.
pub struct GroupsView {
    pub top: Seq<Seq<char>>,
    pub bottom: Seq<Seq<char>>,
}

/// A layout as values: version and both modes' groups.
pub struct LayoutView {
    pub version: u32,
    pub developer: GroupsView,
    pub gamer: GroupsView,
}

impl View for RailGroups {
    type V = GroupsView;

    open spec fn view(&self) -> GroupsView {
        GroupsView { top: views(self.top@), bottom: views(self.bottom@) }
    }
}

impl View for PanelLayoutConfig {
    type V = LayoutView;

    open spec fn view(&self) -> LayoutView {
        LayoutView {
            version: self.version,
            developer: self.right.rail.developer@,
            gamer: self.right.rail.gamer@,
        }
    }
}

// --- Defaults ---------------------------------------------------------------

/// Default developer top group.
pub open spec fn default_dev_top_view() -> Seq<Seq<char>> {
    seq![
        "system"@,
        "updates"@,
        "notifications"@,
        "files"@,
        "preview"@,
        "hyprland_binds"@,
        "acp_settings"@,
    ]
}

/// Default bottom group of both modes.
pub open spec fn default_bottom_view() -> Seq<Seq<char>> {
    seq!["display"@, "editor_settings"@]
}

/// Default gamer top group.
pub open spec fn default_gamer_top_view() -> Seq<Seq<char>> {
    seq![
        "system"@,
        "updates"@,
        "notifications"@,
        "library"@,
        "captures"@,
        "acp_settings"@,
        "hyprland_binds"@,
    ]
}

/// Default developer layout.
pub open spec fn default_dev_view() -> GroupsView {
    GroupsView { top: default_dev_top_view(), bottom: default_bottom_view() }
}

/// Default gamer layout.
pub open spec fn default_gamer_view() -> GroupsView {
    GroupsView { top: default_gamer_top_view(), bottom: default_bottom_view() }
}

fn default_dev_top() -> (r: Vec<String>)
    ensures
        views(r@) == default_dev_top_view(),
{
    let r = vec![
        text::owned("system"),
        text::owned("updates"),
        text::owned("notifications"),
        text::owned("files"),
        text::owned("preview"),
        text::owned("hyprland_binds"),
        text::owned("acp_settings"),
    ];
    assert(views(r@) =~= default_dev_top_view());
    r
}

fn default_dev_bottom() -> (r: Vec<String>)
    ensures
        views(r@) == default_bottom_view(),
{
    let r = vec![text::owned("display"), text::owned("editor_settings")];
    assert(views(r@) =~= default_bottom_view());
    r
}

fn default_gamer_top() -> (r: Vec<String>)
    ensures
        views(r@) == default_gamer_top_view(),
{
    let r = vec![
        text::owned("system"),
        text::owned("updates"),
        text::owned("notifications"),
        text::owned("library"),
        text::owned("captures"),
        text::owned("acp_settings"),
        text::owned("hyprland_binds"),
    ];
    assert(views(r@) =~= default_gamer_top_view());
    r
}

fn default_gamer_bottom() -> (r: Vec<String>)
    ensures
        views(r@) == default_bottom_view(),
{
    default_dev_bottom()
}

impl Default for RailGroups {
    /// The Developer defaults.
    fn default() -> (r: Self)
        ensures
            r@ == default_dev_view(),
    {
        Self { top: default_dev_top(), bottom: default_dev_bottom() }
    }
}

impl Default for RailConfig {
    /// Both modes take `RailGroups::default()`.
    fn default() -> (r: Self)
        ensures
            r.developer@ == default_dev_view(),
            r.gamer@ == default_dev_view(),
    {
        Self { developer: RailGroups::default(), gamer: RailGroups::default() }
    }
}

impl RailConfig {
    fn default_developer() -> (r: RailGroups)
        ensures
            r@ == default_dev_view(),
    {
        RailGroups { top: default_dev_top(), bottom: default_dev_bottom() }
    }

    fn default_gamer() -> (r: RailGroups)
        ensures
            r@ == default_gamer_view(),
    {
        RailGroups { top: default_gamer_top(), bottom: default_gamer_bottom() }
    }
}

impl Default for RightConfig {
    fn default() -> (r: Self)
        ensures
            r.rail.developer@ == default_dev_view(),
            r.rail.gamer@ == default_gamer_view(),
    {
        Self {
            rail: RailConfig {
                developer: RailConfig::default_developer(),
                gamer: RailConfig::default_gamer(),
            },
        }
    }
}

impl Default for PanelLayoutConfig {
    fn default() -> (r: Self)
        ensures
            r@ == (LayoutView {
                version: 1,
                developer: default_dev_view(),
                gamer: default_gamer_view(),
            }),
    {
        Self { version: 1, right: RightConfig::default() }
    }
}

// --- Cache ------------------------------------------------------------------

/// The in-memory copy of the layout that views read without disk I/O.
pub struct ConfigCache {
    config: PanelLayoutConfig,
}

impl View for ConfigCache {
    type V = LayoutView;

    closed spec fn view(&self) -> LayoutView {
        self.config@
    }
}

impl ConfigCache {
    /// A cache holding the default layout.
    pub fn new() -> (r: Self)
        ensures
            r@ == (LayoutView {
                version: 1,
                developer: default_dev_view(),
                gamer: default_gamer_view(),
            }),
    {
        ConfigCache { config: PanelLayoutConfig::default() }
    }
}

fn clone_names(v: &Vec<String>) -> (r: Vec<String>)
    ensures
        views(r@) == views(v@),
{
    let r = v.clone();
    assert(views(r@) =~= views(v@)) by {
        assert forall|i: int| 0 <= i < r.len() implies r@[i]@ == v@[i]@ by {
            assert(vstd::pervasive::cloned::<String>(v@[i], r@[i]));
        }
    }
    r
}

fn clone_groups(g: &RailGroups) -> (r: RailGroups)
    ensures
        r@ == g@,
{
    RailGroups { top: clone_names(&g.top), bottom: clone_names(&g.bottom) }
}

fn clone_config(c: &PanelLayoutConfig) -> (r: PanelLayoutConfig)
    ensures
        r@ == c@,
{
    PanelLayoutConfig {
        version: c.version,
        right: RightConfig {
            rail: RailConfig {
                developer: clone_groups(&c.right.rail.developer),
                gamer: clone_groups(&c.right.rail.gamer),
            },
        },
    }
}

/// Cached layout (no disk I/O).
pub fn cached(cache: &ConfigCache) -> (r: PanelLayoutConfig)
    ensures
        r@ == cache@,
{
    clone_config(&cache.config)
}

/// Replace the cache with `cfg` as given: the layout loaded and sanitized,
/// or the cached layout after a move.
pub fn update_cache(cache: &mut ConfigCache, cfg: PanelLayoutConfig)
    ensures
        final(cache)@ == cfg@,
{
    cache.config = cfg;
}

// --- Sanitization -----------------------------------------------------------

/// Ids of a sequence of tabs.
pub open spec fn ids_of(tabs: Seq<PanelTab>) -> Seq<Seq<char>> {
    tabs.map_values(|t: PanelTab| tab_id(t))
}

/// Tabs of `mode`, in order, that are not in `present`.
pub open spec fn missing_from(mode: Seq<PanelTab>, present: Seq<PanelTab>) -> Seq<PanelTab>
    decreases mode.len(),
{
    if mode.len() == 0 {
        Seq::empty()
    } else {
        let prev = missing_from(mode.drop_last(), present);
        if present.contains(mode.last()) {
            prev
        } else {
            prev.push(mode.last())
        }
    }
}

/// Tabs of `mode`, in order, that are (`settings`) or are not (`!settings`)
/// `EditorSettings`.
pub open spec fn split_settings(mode: Seq<PanelTab>, settings: bool) -> Seq<PanelTab>
    decreases mode.len(),
{
    if mode.len() == 0 {
        Seq::empty()
    } else {
        let prev = split_settings(mode.drop_last(), settings);
        if (mode.last() == PanelTab::EditorSettings) == settings {
            prev.push(mode.last())
        } else {
            prev
        }
    }
}

/// One mode's groups after sanitization against the mode's tab set: unknown
/// names dropped, each tab kept once (first occurrence, top before bottom),
/// names canonicalized to ids; when nothing survives, the mode's tabs with
/// `EditorSettings` at the bottom; otherwise mode tabs missing from both
/// groups appended to the top.
pub open spec fn sanitized_groups(g: GroupsView, mode: Seq<PanelTab>) -> GroupsView {
    let t = parse_unique(g.top, Seq::empty());
    let b = parse_unique(g.bottom, t);
    if t.len() == 0 && b.len() == 0 {
        GroupsView { top: ids_of(split_settings(mode, false)), bottom: ids_of(split_settings(mode, true)) }
    } else {
        GroupsView { top: ids_of(t + missing_from(mode, t + b)), bottom: ids_of(b) }
    }
}

/// A whole layout after sanitization.
pub open spec fn sanitized_layout(c: LayoutView) -> LayoutView {
    LayoutView {
        version: c.version,
        developer: sanitized_groups(c.developer, mode_tabs(WorkspaceMode::Developer)),
        gamer: sanitized_groups(c.gamer, mode_tabs(WorkspaceMode::Gamer)),
    }
}

/// Membership in a concatenation.
pub proof fn lemma_concat_contains<A>(a: Seq<A>, b: Seq<A>, x: A)
    ensures
        (a + b).contains(x) <==> a.contains(x) || b.contains(x),
{
    if a.contains(x) {
        let i = choose|i: int| 0 <= i < a.len() && a[i] == x;
        assert((a + b)[i] == x);
    }
    if b.contains(x) {
        let i = choose|i: int| 0 <= i < b.len() && b[i] == x;
        assert((a + b)[a.len() + i] == x);
    }
    if (a + b).contains(x) {
        let i = choose|i: int| 0 <= i < (a + b).len() && (a + b)[i] == x;
        if i < a.len() {
            assert(a[i] == x);
        } else {
            assert(b[i - a.len()] == x);
        }
    }
}

fn push_id(v: &mut Vec<String>, t: PanelTab)
    ensures
        views(final(v)@) == views(old(v)@).push(tab_id(t)),
{
    v.push(text::owned(t.id()));
    assert(views(v@) =~= views(old(v)@).push(tab_id(t)));
}

/// Sanitize a top + bottom group pair: drop unknown, deduplicate, ensure
/// non-empty, append missing mode tabs to top.
fn sanitize_pair(top: &[String], bottom: &[String], mode_tabs: &[PanelTab]) -> (r: (
    Vec<String>,
    Vec<String>,
))
    ensures
        (GroupsView { top: views(r.0@), bottom: views(r.1@) }) == sanitized_groups(
            GroupsView { top: views(top@), bottom: views(bottom@) },
            mode_tabs@,
        ),
{
    let ghost tv = views(top@);
    let ghost bv = views(bottom@);
    let mut top_tabs: Vec<PanelTab> = Vec::new();
    let mut out_top: Vec<String> = Vec::new();
    let mut i: usize = 0;
    while i < top.len()
        invariant
            i <= top.len(),
            tv == views(top@),
            top_tabs@ == parse_unique(tv.take(i as int), Seq::empty()),
            views(out_top@) == ids_of(top_tabs@),
        decreases top.len() - i,
    {
        assert(tv.take(i + 1).drop_last() =~= tv.take(i as int));
        match PanelTab::parse_id(top[i].as_str()) {
            Some(tab) => {
                if !contains_tab(&top_tabs, tab) {
                    top_tabs.push(tab);
                    push_id(&mut out_top, tab);
                    assert(ids_of(top_tabs@) =~= views(out_top@));
                }
            },
            None => {},
        }
        i = i + 1;
    }
    assert(tv.take(top.len() as int) =~= tv);
    let mut bottom_tabs: Vec<PanelTab> = Vec::new();
    let mut out_bottom: Vec<String> = Vec::new();
    let mut j: usize = 0;
    while j < bottom.len()
        invariant
            j <= bottom.len(),
            bv == views(bottom@),
            top_tabs@ == parse_unique(tv, Seq::empty()),
            bottom_tabs@ == parse_unique(bv.take(j as int), top_tabs@),
            views(out_bottom@) == ids_of(bottom_tabs@),
        decreases bottom.len() - j,
    {
        assert(bv.take(j + 1).drop_last() =~= bv.take(j as int));
        match PanelTab::parse_id(bottom[j].as_str()) {
            Some(tab) => {
                if !contains_tab(&top_tabs, tab) && !contains_tab(&bottom_tabs, tab) {
                    bottom_tabs.push(tab);
                    push_id(&mut out_bottom, tab);
                    assert(ids_of(bottom_tabs@) =~= views(out_bottom@));
                }
            },
            None => {},
        }
        j = j + 1;
    }
    assert(bv.take(bottom.len() as int) =~= bv);
    let ghost mt = mode_tabs@;
    if top_tabs.len() == 0 && bottom_tabs.len() == 0 {
        // Nothing survived: fall back to the mode's own tabs.
        let mut k: usize = 0;
        while k < mode_tabs.len()
            invariant
                k <= mode_tabs.len(),
                mt == mode_tabs@,
                views(out_top@) == ids_of(split_settings(mt.take(k as int), false)),
                views(out_bottom@) == ids_of(split_settings(mt.take(k as int), true)),
            decreases mode_tabs.len() - k,
        {
            assert(mt.take(k + 1).drop_last() =~= mt.take(k as int));
            let tab = mode_tabs[k];
            if tab == PanelTab::EditorSettings {
                push_id(&mut out_bottom, tab);
            } else {
                push_id(&mut out_top, tab);
            }
            k = k + 1;
            assert(ids_of(split_settings(mt.take(k as int), false)) =~= views(out_top@));
            assert(ids_of(split_settings(mt.take(k as int), true)) =~= views(out_bottom@));
        }
        assert(mt.take(mode_tabs.len() as int) =~= mt);
        return (out_top, out_bottom);
    }
    // Append any mode tab that was lost (neither top nor bottom).
    let ghost present = top_tabs@ + bottom_tabs@;
    let mut k: usize = 0;
    while k < mode_tabs.len()
        invariant
            k <= mode_tabs.len(),
            mt == mode_tabs@,
            present == top_tabs@ + bottom_tabs@,
            views(out_top@) == ids_of(top_tabs@ + missing_from(mt.take(k as int), present)),
        decreases mode_tabs.len() - k,
    {
        assert(mt.take(k + 1).drop_last() =~= mt.take(k as int));
        let tab = mode_tabs[k];
        let seen = contains_tab(&top_tabs, tab) || contains_tab(&bottom_tabs, tab);
        proof {
            lemma_concat_contains(top_tabs@, bottom_tabs@, tab);
        }
        assert(seen == present.contains(tab));
        if !seen {
            push_id(&mut out_top, tab);
        }
        k = k + 1;
        assert(ids_of(top_tabs@ + missing_from(mt.take(k as int), present)) =~= views(out_top@));
    }
    assert(mt.take(mode_tabs.len() as int) =~= mt);
    (out_top, out_bottom)
}

impl PanelLayoutConfig {
    /// Drop unknown names, deduplicate, and make sure the result is never
    /// empty (fall back to mode defaults). Also appends any tab of the mode
    /// set missing from both groups, so a manual config edit cannot
    /// silently lose a tab.
    pub fn sanitized(&self) -> (r: Self)
        ensures
            r@ == sanitized_layout(self@),
            groups_well_formed(r@.developer, mode_tabs(WorkspaceMode::Developer)),
            groups_well_formed(r@.gamer, mode_tabs(WorkspaceMode::Gamer)),
    {
        proof {
            lemma_sanitized_idempotent(self@);
        }
        let mode_dev = PanelTab::for_mode(WorkspaceMode::Developer);
        let mode_gamer = PanelTab::for_mode(WorkspaceMode::Gamer);
        let (dev_top, dev_bottom) = sanitize_pair(
            self.right.rail.developer.top.as_slice(),
            self.right.rail.developer.bottom.as_slice(),
            mode_dev.as_slice(),
        );
        let (gamer_top, gamer_bottom) = sanitize_pair(
            self.right.rail.gamer.top.as_slice(),
            self.right.rail.gamer.bottom.as_slice(),
            mode_gamer.as_slice(),
        );
        Self {
            version: self.version,
            right: RightConfig {
                rail: RailConfig {
                    developer: RailGroups { top: dev_top, bottom: dev_bottom },
                    gamer: RailGroups { top: gamer_top, bottom: gamer_bottom },
                },
            },
        }
    }
}

// --- Reordering -------------------------------------------------------------

/// Index of the first name in `names` that names `tab`, or `-1`.
pub open spec fn first_of(names: Seq<Seq<char>>, tab: PanelTab) -> int
    decreases names.len(),
{
    if names.len() == 0 {
        -1
    } else {
        let p = first_of(names.drop_last(), tab);
        if p >= 0 {
            p
        } else if parse_tab(names.last()) == Some(tab) {
            names.len() - 1
        } else {
            -1
        }
    }
}

/// `s` with the entries at `i` and `j` exchanged.
pub open spec fn swapped(s: Seq<Seq<char>>, i: int, j: int) -> Seq<Seq<char>> {
    s.update(i, s[j]).update(j, s[i])
}

/// Moving `tab` by `delta` inside one group pair: within its group when the
/// target slot exists, otherwise across the boundary into the other group
/// (past the top end → end of bottom, past the bottom end → start of
/// bottom, and the mirror for a tab in the bottom group). `None` when the
/// tab is in neither group or in both.
pub open spec fn moved_groups(g: GroupsView, tab: PanelTab, delta: int) -> Option<GroupsView> {
    let ti = first_of(g.top, tab);
    let bi = first_of(g.bottom, tab);
    if ti >= 0 && bi < 0 {
        let n = ti + delta;
        if n < 0 {
            Some(GroupsView { top: g.top.remove(ti), bottom: g.bottom.push(tab_id(tab)) })
        } else if n >= g.top.len() {
            Some(GroupsView { top: g.top.remove(ti), bottom: g.bottom.insert(0, tab_id(tab)) })
        } else {
            Some(GroupsView { top: swapped(g.top, ti, n), bottom: g.bottom })
        }
    } else if ti < 0 && bi >= 0 {
        let n = bi + delta;
        if n < 0 {
            Some(GroupsView { top: g.top.push(tab_id(tab)), bottom: g.bottom.remove(bi) })
        } else if n >= g.bottom.len() {
            Some(GroupsView { top: g.top.insert(0, tab_id(tab)), bottom: g.bottom.remove(bi) })
        } else {
            Some(GroupsView { top: g.top, bottom: swapped(g.bottom, bi, n) })
        }
    } else {
        None
    }
}

/// Position of the first name that names `tab`.
fn position_of(names: &Vec<String>, tab: PanelTab) -> (r: Option<usize>)
    ensures
        match r {
            Some(i) => i as int == first_of(views(names@), tab),
            None => first_of(views(names@), tab) == -1,
        },
        first_of(views(names@), tab) < names.len(),
{
    let ghost nv = views(names@);
    let mut i: usize = 0;
    while i < names.len()
        invariant
            i <= names.len(),
            nv == views(names@),
            first_of(nv.take(i as int), tab) == -1,
        decreases names.len() - i,
    {
        assert(nv.take(i + 1).drop_last() =~= nv.take(i as int));
        if PanelTab::parse_id(names[i].as_str()) == Some(tab) {
            proof {
                lemma_first_of_prefix(nv, tab, i as int + 1);
            }
            return Some(i);
        }
        i = i + 1;
    }
    assert(nv.take(names.len() as int) =~= nv);
    None
}

/// `first_of` is decided by the first prefix that contains a match.
pub proof fn lemma_first_of_prefix(names: Seq<Seq<char>>, tab: PanelTab, k: int)
    requires
        0 <= k <= names.len(),
        first_of(names.take(k), tab) >= 0,
    ensures
        first_of(names, tab) == first_of(names.take(k), tab),
    decreases names.len() - k,
{
    if k < names.len() {
        assert(names.take(k + 1).drop_last() =~= names.take(k));
        lemma_first_of_prefix(names, tab, k + 1);
    } else {
        assert(names.take(k) =~= names);
    }
}

/// `first_of` is `-1` or an index.
pub proof fn lemma_first_of_range(names: Seq<Seq<char>>, tab: PanelTab)
    ensures
        -1 <= first_of(names, tab) < names.len(),
        first_of(names, tab) >= 0 ==> parse_tab(names[first_of(names, tab)]) == Some(tab),
        first_of(names, tab) == -1 ==> forall|i: int|
            0 <= i < names.len() ==> parse_tab(#[trigger] names[i]) != Some(tab),
        first_of(names, tab) >= 0 ==> forall|i: int|
            0 <= i < first_of(names, tab) ==> parse_tab(#[trigger] names[i]) != Some(tab),
    decreases names.len(),
{
    if names.len() > 0 {
        let d = names.drop_last();
        lemma_first_of_range(d, tab);
        if first_of(names, tab) == -1 {
            assert forall|i: int| 0 <= i < names.len() implies parse_tab(#[trigger] names[i]) != Some(tab) by {
                if i < names.len() - 1 {
                    assert(names[i] == d[i]);
                }
            }
        }
        if first_of(names, tab) >= 0 {
            assert forall|i: int| 0 <= i < first_of(names, tab) implies parse_tab(#[trigger] names[i]) != Some(tab) by {
                assert(names[i] == d[i]);
            }
        }
    }
}

fn swap_names(v: &mut Vec<String>, i: usize, j: usize)
    requires
        i < old(v).len(),
        j < old(v).len(),
    ensures
        views(final(v)@) == swapped(views(old(v)@), i as int, j as int),
{
    if i == j {
        assert(views(v@) =~= swapped(views(v@), i as int, j as int));
        return;
    }
    let mut tmp = String::new();
    v.set_and_swap(j, &mut tmp);
    v.set_and_swap(i, &mut tmp);
    v.set_and_swap(j, &mut tmp);
    assert(views(v@) =~= swapped(views(old(v)@), i as int, j as int));
}

fn move_in_groups(groups: &mut RailGroups, tab: PanelTab, delta: isize) -> (r: bool)
    ensures
        r == (moved_groups(old(groups)@, tab, delta as int) is Some && moved_groups(
            old(groups)@,
            tab,
            delta as int,
        )->0 != old(groups)@),
        r ==> final(groups)@ == moved_groups(old(groups)@, tab, delta as int)->0,
        !r ==> final(groups)@ == old(groups)@,
{
    let top_idx = position_of(&groups.top, tab);
    let bottom_idx = position_of(&groups.bottom, tab);
    match (top_idx, bottom_idx) {
        (Some(idx), None) => {
            // In top group — move within top, or cross to bottom.
            let new_idx: i128 = idx as i128 + delta as i128;
            if new_idx < 0 {
                groups.top.remove(idx);
                groups.bottom.push(text::owned(tab.id()));
                assert(views(groups.top@) =~= views(old(groups).top@).remove(idx as int));
                assert(views(groups.bottom@) =~= views(old(groups).bottom@).push(tab_id(tab)));
                assert(groups@.bottom.len() != old(groups)@.bottom.len());
                return true;
            } else if new_idx >= groups.top.len() as i128 {
                groups.top.remove(idx);
                groups.bottom.insert(0, text::owned(tab.id()));
                assert(views(groups.top@) =~= views(old(groups).top@).remove(idx as int));
                assert(views(groups.bottom@) =~= views(old(groups).bottom@).insert(0, tab_id(tab)));
                assert(groups@.top.len() != old(groups)@.top.len());
                return true;
            }
            let n = new_idx as usize;
            if groups.top[idx] == groups.top[n] {
                // Same name in both slots: the swap would change nothing.
                assert(swapped(views(groups.top@), idx as int, n as int) =~= views(groups.top@));
                assert(groups@.top == views(groups.top@));
                return false;
            }
            swap_names(&mut groups.top, idx, n);
            assert(groups@.top[idx as int] != old(groups)@.top[idx as int]);
            true
        },
        (None, Some(idx)) => {
            // In bottom group — move within bottom, or cross to top.
            let new_idx: i128 = idx as i128 + delta as i128;
            if new_idx < 0 {
                groups.bottom.remove(idx);
                groups.top.push(text::owned(tab.id()));
                assert(views(groups.bottom@) =~= views(old(groups).bottom@).remove(idx as int));
                assert(views(groups.top@) =~= views(old(groups).top@).push(tab_id(tab)));
                assert(groups@.top.len() != old(groups)@.top.len());
                return true;
            } else if new_idx >= groups.bottom.len() as i128 {
                groups.bottom.remove(idx);
                groups.top.insert(0, text::owned(tab.id()));
                assert(views(groups.bottom@) =~= views(old(groups).bottom@).remove(idx as int));
                assert(views(groups.top@) =~= views(old(groups).top@).insert(0, tab_id(tab)));
                assert(groups@.top.len() != old(groups)@.top.len());
                return true;
            }
            let n = new_idx as usize;
            if groups.bottom[idx] == groups.bottom[n] {
                // Same name in both slots: the swap would change nothing.
                assert(swapped(views(groups.bottom@), idx as int, n as int) =~= views(groups.bottom@));
                assert(groups@.bottom == views(groups.bottom@));
                return false;
            }
            swap_names(&mut groups.bottom, idx, n);
            assert(groups@.bottom[idx as int] != old(groups)@.bottom[idx as int]);
            true
        },
        _ => false,
    }
}

impl PanelLayoutConfig {
    /// Move a tab within its group by `delta` (-1 up, +1 down in rail
    /// coordinates). When the tab hits a group boundary it moves to the
    /// adjacent group. Returns `true` if the order changed.
    pub fn move_tab(&mut self, mode: WorkspaceMode, tab: PanelTab, delta: isize) -> (r: bool)
        ensures
            ({
                let before = match mode {
                    WorkspaceMode::Developer => old(self)@.developer,
                    WorkspaceMode::Gamer => old(self)@.gamer,
                };
                let after = match mode {
                    WorkspaceMode::Developer => final(self)@.developer,
                    WorkspaceMode::Gamer => final(self)@.gamer,
                };
                &&& r == (moved_groups(before, tab, delta as int) is Some && moved_groups(
                    before,
                    tab,
                    delta as int,
                )->0 != before)
                &&& r ==> after == moved_groups(before, tab, delta as int)->0
                &&& !r ==> after == before
            }),
            final(self)@.version == old(self)@.version,
            mode == WorkspaceMode::Developer ==> final(self)@.gamer == old(self)@.gamer,
            mode == WorkspaceMode::Gamer ==> final(self)@.developer == old(self)@.developer,
    {
        match mode {
            WorkspaceMode::Developer => move_in_groups(&mut self.right.rail.developer, tab, delta),
            WorkspaceMode::Gamer => move_in_groups(&mut self.right.rail.gamer, tab, delta),
        }
    }
}

// --- Resolution -------------------------------------------------------------

/// `(top, bottom)` tabs of a mode under a layout: each group's known tabs in
/// order, each once within its group; when both come out empty, the mode's
/// tabs with `EditorSettings` at the bottom.
pub open spec fn resolved_groups(mode: WorkspaceMode, c: LayoutView) -> (Seq<PanelTab>, Seq<PanelTab>) {
    let g = match mode {
        WorkspaceMode::Developer => c.developer,
        WorkspaceMode::Gamer => c.gamer,
    };
    let top = parse_unique(g.top, Seq::empty());
    let bottom = parse_unique(g.bottom, Seq::empty());
    if top.len() == 0 && bottom.len() == 0 {
        (split_settings(mode_tabs(mode), false), split_settings(mode_tabs(mode), true))
    } else {
        (top, bottom)
    }
}

fn parse_group(names: &Vec<String>) -> (r: Vec<PanelTab>)
    ensures
        r@ == parse_unique(views(names@), Seq::empty()),
{
    let ghost nv = views(names@);
    let mut tabs: Vec<PanelTab> = Vec::new();
    let mut i: usize = 0;
    while i < names.len()
        invariant
            i <= names.len(),
            nv == views(names@),
            tabs@ == parse_unique(nv.take(i as int), Seq::empty()),
        decreases names.len() - i,
    {
        assert(nv.take(i + 1).drop_last() =~= nv.take(i as int));
        match PanelTab::parse_id(names[i].as_str()) {
            Some(tab) => {
                if !contains_tab(&tabs, tab) {
                    tabs.push(tab);
                }
            },
            None => {},
        }
        i = i + 1;
    }
    assert(nv.take(names.len() as int) =~= nv);
    tabs
}

/// Resolve a layout into a mode's `(top, bottom)` tabs. Falls back to
/// `PanelTab::for_mode` when both groups come out empty.
pub fn resolve_grouped(mode: WorkspaceMode, config: &PanelLayoutConfig) -> (r: (
    Vec<PanelTab>,
    Vec<PanelTab>,
))
    ensures
        (r.0@, r.1@) == resolved_groups(mode, config@),
        r.0@.len() + r.1@.len() > 0,
        no_dups(r.0@),
        no_dups(r.1@),
{
    let groups = match mode {
        WorkspaceMode::Developer => &config.right.rail.developer,
        WorkspaceMode::Gamer => &config.right.rail.gamer,
    };
    let top = parse_group(&groups.top);
    let bottom = parse_group(&groups.bottom);
    proof {
        lemma_parse_unique(views(groups.top@), Seq::empty());
        lemma_parse_unique(views(groups.bottom@), Seq::empty());
    }
    if top.len() == 0 && bottom.len() == 0 {
        let mode_tabs = PanelTab::for_mode(mode);
        let ghost mt = mode_tabs@;
        let mut fallback_top: Vec<PanelTab> = Vec::new();
        let mut fallback_bottom: Vec<PanelTab> = Vec::new();
        let mut k: usize = 0;
        while k < mode_tabs.len()
            invariant
                k <= mode_tabs.len(),
                mt == mode_tabs@,
                fallback_top@ == split_settings(mt.take(k as int), false),
                fallback_bottom@ == split_settings(mt.take(k as int), true),
            decreases mode_tabs.len() - k,
        {
            assert(mt.take(k + 1).drop_last() =~= mt.take(k as int));
            let tab = mode_tabs[k];
            if tab == PanelTab::EditorSettings {
                fallback_bottom.push(tab);
            } else {
                fallback_top.push(tab);
            }
            k = k + 1;
        }
        assert(mt.take(mode_tabs.len() as int) =~= mt);
        proof {
            lemma_split_settings(mt, false);
            lemma_split_settings(mt, true);
            reveal_with_fuel(split_settings, 9);
        }
        (fallback_top, fallback_bottom)
    } else {
        (top, bottom)
    }
}

/// `split_settings` keeps a subsequence of distinct tabs when the input has
/// no repeats.
pub proof fn lemma_split_settings(mode: Seq<PanelTab>, settings: bool)
    requires
        no_dups(mode),
    ensures
        no_dups(split_settings(mode, settings)),
        forall|t: PanelTab| #[trigger] split_settings(mode, settings).contains(t) ==> mode.contains(t)
            && ((t == PanelTab::EditorSettings) == settings),
        forall|t: PanelTab| mode.contains(t) && ((t == PanelTab::EditorSettings) == settings) ==> #[trigger] split_settings(mode, settings).contains(t),
    decreases mode.len(),
{
    if mode.len() > 0 {
        let prev = split_settings(mode.drop_last(), settings);
        assert(no_dups(mode.drop_last()));
        lemma_split_settings(mode.drop_last(), settings);
        assert forall|t: PanelTab| #[trigger] split_settings(mode, settings).contains(t) implies mode.contains(t)
            && ((t == PanelTab::EditorSettings) == settings) by {
            if prev.contains(t) {
                let i = choose|i: int| 0 <= i < mode.drop_last().len() && mode.drop_last()[i] == t;
                assert(mode[i] == t);
            } else {
                assert(t == mode.last());
            }
        }
        assert forall|t: PanelTab| mode.contains(t) && ((t == PanelTab::EditorSettings) == settings) implies #[trigger] split_settings(mode, settings).contains(t) by {
            let i = choose|i: int| 0 <= i < mode.len() && mode[i] == t;
            if i < mode.len() - 1 {
                assert(mode.drop_last()[i] == t);
                assert(mode.drop_last().contains(t));
                assert(prev.contains(t));
                let k = choose|k: int| 0 <= k < prev.len() && prev[k] == t;
                assert(split_settings(mode, settings)[k] == t);
            } else {
                assert(split_settings(mode, settings) == prev.push(t));
                assert(split_settings(mode, settings)[prev.len() as int] == t);
            }
        }
        if (mode.last() == PanelTab::EditorSettings) == settings {
            assert(!prev.contains(mode.last())) by {
                if prev.contains(mode.last()) {
                    let i = choose|i: int| 0 <= i < mode.drop_last().len() && mode.drop_last()[i] == mode.last();
                    assert(mode[i] == mode[mode.len() - 1]);
                }
            }
            assert forall|i: int, j: int| 0 <= i < j < split_settings(mode, settings).len() implies split_settings(mode, settings)[i] != split_settings(mode, settings)[j] by {
                if j == prev.len() {
                    assert(prev[i] == split_settings(mode, settings)[i]);
                }
            }
        }
    }
}

// --- Laws -------------------------------------------------------------------

/// The tab each name stands for (meaningful where every name is known).
pub open spec fn tabs_named(names: Seq<Seq<char>>) -> Seq<PanelTab> {
    names.map_values(|n: Seq<char>| parse_tab(n)->0)
}

/// Every name is the id of a tab.
pub open spec fn canonical(names: Seq<Seq<char>>) -> bool {
    forall|i: int|
        0 <= i < names.len() ==> (#[trigger] parse_tab(names[i])) is Some && names[i] == tab_id(
            parse_tab(names[i])->0,
        )
}

/// A sanitized mode layout: only ids, no tab twice across both groups, every
/// tab of the mode present, and at least one tab in total.
pub open spec fn groups_well_formed(g: GroupsView, mode: Seq<PanelTab>) -> bool {
    &&& canonical(g.top)
    &&& canonical(g.bottom)
    &&& no_dups(tabs_named(g.top) + tabs_named(g.bottom))
    &&& forall|t: PanelTab| #[trigger] mode.contains(t) ==> (tabs_named(g.top) + tabs_named(g.bottom)).contains(t)
    &&& g.top.len() + g.bottom.len() > 0
}

/// Distinct sequences with no common element concatenate to a distinct
/// sequence.
pub proof fn lemma_no_dups_concat(a: Seq<PanelTab>, b: Seq<PanelTab>)
    requires
        no_dups(a),
        no_dups(b),
        forall|t: PanelTab| #[trigger] a.contains(t) ==> !b.contains(t),
    ensures
        no_dups(a + b),
{
    assert forall|i: int, j: int| 0 <= i < j < (a + b).len() implies (a + b)[i] != (a + b)[j] by {
        if i < a.len() && j >= a.len() {
            assert(a.contains(a[i]));
            assert(b[j - a.len()] == (a + b)[j]);
            if a[i] == b[j - a.len()] {
                assert(b.contains(a[i]));
            }
        } else if i >= a.len() {
            assert((a + b)[i] == b[i - a.len()]);
            assert((a + b)[j] == b[j - a.len()]);
        }
    }
}

/// The ids of distinct tabs outside `seen` parse back to those tabs.
pub proof fn lemma_parse_ids(ts: Seq<PanelTab>, seen: Seq<PanelTab>)
    requires
        no_dups(ts),
        forall|t: PanelTab| #[trigger] ts.contains(t) ==> !seen.contains(t),
    ensures
        parse_unique(ids_of(ts), seen) == ts,
    decreases ts.len(),
{
    if ts.len() > 0 {
        let d = ts.drop_last();
        assert(ids_of(ts).drop_last() =~= ids_of(d));
        assert forall|t: PanelTab| #[trigger] d.contains(t) implies !seen.contains(t) by {
            let i = choose|i: int| 0 <= i < d.len() && d[i] == t;
            assert(ts[i] == t);
            assert(ts.contains(t));
        }
        lemma_parse_ids(d, seen);
        lemma_parse_id_round_trip(ts.last());
        assert(ts.contains(ts.last()));
        assert(!d.contains(ts.last())) by {
            if d.contains(ts.last()) {
                let i = choose|i: int| 0 <= i < d.len() && d[i] == ts.last();
                assert(ts[i] == ts[ts.len() - 1]);
            }
        }
        assert(d.push(ts.last()) =~= ts);
    } else {
        assert(ids_of(ts) =~= Seq::<Seq<char>>::empty());
    }
}

/// Ids of tabs are canonical names of exactly those tabs.
pub proof fn lemma_ids_canonical(ts: Seq<PanelTab>)
    ensures
        canonical(ids_of(ts)),
        tabs_named(ids_of(ts)) == ts,
{
    assert forall|i: int| 0 <= i < ids_of(ts).len() implies (#[trigger] parse_tab(ids_of(ts)[i])) is Some
        && ids_of(ts)[i] == tab_id(parse_tab(ids_of(ts)[i])->0) by {
        lemma_parse_id_round_trip(ts[i]);
    }
    assert forall|i: int| 0 <= i < ts.len() implies tabs_named(ids_of(ts))[i] == ts[i] by {
        lemma_parse_id_round_trip(ts[i]);
    }
    assert(tabs_named(ids_of(ts)) =~= ts);
}

/// With every mode tab present, none is missing.
pub proof fn lemma_none_missing(mode: Seq<PanelTab>, present: Seq<PanelTab>)
    requires
        forall|t: PanelTab| #[trigger] mode.contains(t) ==> present.contains(t),
    ensures
        missing_from(mode, present) == Seq::<PanelTab>::empty(),
    decreases mode.len(),
{
    if mode.len() > 0 {
        assert forall|t: PanelTab| #[trigger] mode.drop_last().contains(t) implies present.contains(t) by {
            let i = choose|i: int| 0 <= i < mode.drop_last().len() && mode.drop_last()[i] == t;
            assert(mode[i] == t);
            assert(mode.contains(t));
        }
        lemma_none_missing(mode.drop_last(), present);
        assert(mode.contains(mode.last()));
    }
}

/// What `missing_from` adds: distinct mode tabs outside `present`, and every
/// mode tab outside `present`.
pub proof fn lemma_missing(mode: Seq<PanelTab>, present: Seq<PanelTab>)
    requires
        no_dups(mode),
    ensures
        no_dups(missing_from(mode, present)),
        forall|t: PanelTab| #[trigger] missing_from(mode, present).contains(t) ==> mode.contains(t)
            && !present.contains(t),
        forall|t: PanelTab| mode.contains(t) && !present.contains(t) ==> #[trigger] missing_from(mode, present).contains(t),
    decreases mode.len(),
{
    if mode.len() > 0 {
        let d = mode.drop_last();
        let prev = missing_from(d, present);
        assert(no_dups(d));
        lemma_missing(d, present);
        assert forall|t: PanelTab| #[trigger] missing_from(mode, present).contains(t) implies mode.contains(t)
            && !present.contains(t) by {
            if prev.contains(t) {
                let i = choose|i: int| 0 <= i < d.len() && d[i] == t;
                assert(mode[i] == t);
            } else {
                assert(t == mode.last());
            }
        }
        assert forall|t: PanelTab| mode.contains(t) && !present.contains(t) implies #[trigger] missing_from(mode, present).contains(t) by {
            let i = choose|i: int| 0 <= i < mode.len() && mode[i] == t;
            if i < mode.len() - 1 {
                assert(d[i] == t);
                assert(d.contains(t));
                assert(prev.contains(t));
                let k = choose|k: int| 0 <= k < prev.len() && prev[k] == t;
                assert(missing_from(mode, present)[k] == t);
            } else {
                assert(missing_from(mode, present) == prev.push(t));
                assert(missing_from(mode, present)[prev.len() as int] == t);
            }
        }
        if !present.contains(mode.last()) {
            assert(!prev.contains(mode.last())) by {
                if prev.contains(mode.last()) {
                    let i = choose|i: int| 0 <= i < d.len() && d[i] == mode.last();
                    assert(mode[i] == mode[mode.len() - 1]);
                }
            }
            assert forall|i: int, j: int| 0 <= i < j < missing_from(mode, present).len() implies missing_from(mode, present)[i] != missing_from(mode, present)[j] by {
                if j == prev.len() {
                    assert(prev[i] == missing_from(mode, present)[i]);
                }
            }
        }
    }
}

/// Layouts built from distinct tabs covering the mode are their own
/// sanitization.
proof fn lemma_fixpoint(top: Seq<PanelTab>, bottom: Seq<PanelTab>, mode: Seq<PanelTab>)
    requires
        no_dups(top + bottom),
        forall|t: PanelTab| #[trigger] mode.contains(t) ==> (top + bottom).contains(t),
        top.len() + bottom.len() > 0,
    ensures
        sanitized_groups(GroupsView { top: ids_of(top), bottom: ids_of(bottom) }, mode) == (GroupsView {
            top: ids_of(top),
            bottom: ids_of(bottom),
        }),
        groups_well_formed(GroupsView { top: ids_of(top), bottom: ids_of(bottom) }, mode),
{
    assert(no_dups(top)) by {
        assert forall|i: int, j: int| 0 <= i < j < top.len() implies top[i] != top[j] by {
            assert((top + bottom)[i] == top[i]);
            assert((top + bottom)[j] == top[j]);
        }
    }
    assert(no_dups(bottom)) by {
        assert forall|i: int, j: int| 0 <= i < j < bottom.len() implies bottom[i] != bottom[j] by {
            assert((top + bottom)[top.len() + i] == bottom[i]);
            assert((top + bottom)[top.len() + j] == bottom[j]);
        }
    }
    assert forall|t: PanelTab| #[trigger] bottom.contains(t) implies !top.contains(t) by {
        if top.contains(t) {
            let i = choose|i: int| 0 <= i < top.len() && top[i] == t;
            let j = choose|j: int| 0 <= j < bottom.len() && bottom[j] == t;
            assert((top + bottom)[i] == (top + bottom)[top.len() + j]);
        }
    }
    lemma_parse_ids(top, Seq::empty());
    lemma_parse_ids(bottom, top);
    lemma_none_missing(mode, top + bottom);
    assert(top + Seq::<PanelTab>::empty() =~= top);
    lemma_ids_canonical(top);
    lemma_ids_canonical(bottom);
}

/// Sanitizing a mode layout yields a well-formed layout that sanitizing
/// again leaves unchanged.
pub proof fn lemma_sanitized_groups(g: GroupsView, mode: Seq<PanelTab>)
    requires
        no_dups(mode),
        mode.len() > 0,
    ensures
        groups_well_formed(sanitized_groups(g, mode), mode),
        sanitized_groups(sanitized_groups(g, mode), mode) == sanitized_groups(g, mode),
{
    let t = parse_unique(g.top, Seq::empty());
    let b = parse_unique(g.bottom, t);
    lemma_parse_unique(g.top, Seq::empty());
    lemma_parse_unique(g.bottom, t);
    if t.len() == 0 && b.len() == 0 {
        let ft = split_settings(mode, false);
        let fb = split_settings(mode, true);
        lemma_split_settings(mode, false);
        lemma_split_settings(mode, true);
        assert forall|x: PanelTab| #[trigger] ft.contains(x) implies !fb.contains(x) by {}
        lemma_no_dups_concat(ft, fb);
        assert forall|x: PanelTab| #[trigger] mode.contains(x) implies (ft + fb).contains(x) by {
            lemma_concat_contains(ft, fb, x);
        }
        assert(mode.contains(mode[0]));
        lemma_concat_contains(ft, fb, mode[0]);
        lemma_fixpoint(ft, fb, mode);
    } else {
        let present = t + b;
        let m = missing_from(mode, present);
        lemma_missing(mode, present);
        assert forall|x: PanelTab| #[trigger] b.contains(x) implies !t.contains(x) by {}
        lemma_no_dups_concat(t, b);
        assert forall|x: PanelTab| #[trigger] m.contains(x) implies !t.contains(x) by {
            lemma_concat_contains(t, b, x);
        }
        lemma_no_dups_concat(t, m);
        assert forall|x: PanelTab| #[trigger] (t + m).contains(x) implies !b.contains(x) by {
            lemma_concat_contains(t, m, x);
            lemma_concat_contains(t, b, x);
        }
        lemma_no_dups_concat(t + m, b);
        assert forall|x: PanelTab| #[trigger] mode.contains(x) implies ((t + m) + b).contains(x) by {
            lemma_concat_contains(t + m, b, x);
            lemma_concat_contains(t, m, x);
            lemma_concat_contains(t, b, x);
        }
        lemma_fixpoint(t + m, b, mode);
    }
}

/// The default rails have no repeated tab and are non-empty.
pub proof fn lemma_mode_tabs(mode: WorkspaceMode)
    ensures
        no_dups(mode_tabs(mode)),
        mode_tabs(mode).len() > 0,
{
}

/// Sanitizing is idempotent, and its result is well-formed for both modes.
pub proof fn lemma_sanitized_idempotent(c: LayoutView)
    ensures
        sanitized_layout(sanitized_layout(c)) == sanitized_layout(c),
        groups_well_formed(sanitized_layout(c).developer, mode_tabs(WorkspaceMode::Developer)),
        groups_well_formed(sanitized_layout(c).gamer, mode_tabs(WorkspaceMode::Gamer)),
{
    lemma_mode_tabs(WorkspaceMode::Developer);
    lemma_mode_tabs(WorkspaceMode::Gamer);
    lemma_sanitized_groups(c.developer, mode_tabs(WorkspaceMode::Developer));
    lemma_sanitized_groups(c.gamer, mode_tabs(WorkspaceMode::Gamer));
}

/// `first_of` finds the only name naming `tab`.
pub proof fn lemma_first_of_unique(names: Seq<Seq<char>>, tab: PanelTab, k: int)
    requires
        0 <= k < names.len(),
        parse_tab(names[k]) == Some(tab),
        forall|i: int| 0 <= i < names.len() && i != k ==> parse_tab(#[trigger] names[i]) != Some(tab),
    ensures
        first_of(names, tab) == k,
{
    lemma_first_of_range(names, tab);
}

/// `first_of` is `-1` when no name names `tab`.
pub proof fn lemma_first_of_absent(names: Seq<Seq<char>>, tab: PanelTab)
    requires
        forall|i: int| 0 <= i < names.len() ==> parse_tab(#[trigger] names[i]) != Some(tab),
    ensures
        first_of(names, tab) == -1,
{
    lemma_first_of_range(names, tab);
}

/// In a well-formed pair of groups a tab is named at most once.
proof fn lemma_named_once(g: GroupsView, tab: PanelTab)
    requires
        canonical(g.top),
        canonical(g.bottom),
        no_dups(tabs_named(g.top) + tabs_named(g.bottom)),
    ensures
        forall|i: int, j: int|
            0 <= i < j < g.top.len() && parse_tab(#[trigger] g.top[i]) == Some(tab) ==> parse_tab(
                #[trigger] g.top[j],
            ) != Some(tab),
        forall|i: int, j: int|
            0 <= i < j < g.bottom.len() && parse_tab(#[trigger] g.bottom[i]) == Some(tab) ==> parse_tab(
                #[trigger] g.bottom[j],
            ) != Some(tab),
        forall|i: int, j: int|
            0 <= i < g.top.len() && 0 <= j < g.bottom.len() && parse_tab(#[trigger] g.top[i]) == Some(tab)
                ==> parse_tab(#[trigger] g.bottom[j]) != Some(tab),
{
    let all = tabs_named(g.top) + tabs_named(g.bottom);
    assert forall|i: int, j: int|
        0 <= i < j < g.top.len() && parse_tab(#[trigger] g.top[i]) == Some(tab) implies parse_tab(
        #[trigger] g.top[j],
    ) != Some(tab) by {
        assert(all[i] == parse_tab(g.top[i])->0);
        assert(all[j] == parse_tab(g.top[j])->0);
    }
    assert forall|i: int, j: int|
        0 <= i < j < g.bottom.len() && parse_tab(#[trigger] g.bottom[i]) == Some(tab) implies parse_tab(
        #[trigger] g.bottom[j],
    ) != Some(tab) by {
        assert(all[g.top.len() + i] == parse_tab(g.bottom[i])->0);
        assert(all[g.top.len() + j] == parse_tab(g.bottom[j])->0);
    }
    assert forall|i: int, j: int|
        0 <= i < g.top.len() && 0 <= j < g.bottom.len() && parse_tab(#[trigger] g.top[i]) == Some(tab)
            implies parse_tab(#[trigger] g.bottom[j]) != Some(tab) by {
        assert(all[i] == parse_tab(g.top[i])->0);
        assert(all[g.top.len() + j] == parse_tab(g.bottom[j])->0);
    }
}

/// Undoing a move of a tab that sits in the top group.
#[verifier::rlimit(40)]
proof fn lemma_move_undo_top(g: GroupsView, tab: PanelTab, delta: int)
    requires
        canonical(g.top),
        canonical(g.bottom),
        no_dups(tabs_named(g.top) + tabs_named(g.bottom)),
        delta == 1 || delta == -1,
        moved_groups(g, tab, delta) is Some,
        first_of(g.top, tab) >= 0,
        first_of(g.bottom, tab) < 0,
    ensures
        moved_groups(moved_groups(g, tab, delta)->0, tab, -delta) == Some(g),
{
    let ti = first_of(g.top, tab);
    let id = tab_id(tab);
    lemma_first_of_range(g.top, tab);
    lemma_first_of_range(g.bottom, tab);
    lemma_named_once(g, tab);
    lemma_parse_id_round_trip(tab);
    let h = moved_groups(g, tab, delta)->0;
    assert(g.top[ti] == id);
    let n = ti + delta;
    if n < 0 {
        assert(h.top == g.top.remove(ti));
        assert(h.bottom == g.bottom.push(id));
        assert forall|i: int| 0 <= i < h.top.len() implies parse_tab(#[trigger] h.top[i]) != Some(tab) by {
            assert(h.top[i] == g.top[i + 1]);
        }
        lemma_first_of_absent(h.top, tab);
        assert forall|i: int| 0 <= i < h.bottom.len() && i != g.bottom.len() implies parse_tab(
            #[trigger] h.bottom[i],
        ) != Some(tab) by {
            assert(h.bottom[i] == g.bottom[i]);
        }
        lemma_first_of_unique(h.bottom, tab, g.bottom.len() as int);
        assert(h.top.insert(0, id) =~= g.top);
        assert(h.bottom.remove(g.bottom.len() as int) =~= g.bottom);
    } else if n >= g.top.len() {
        assert(ti == g.top.len() - 1);
        assert(h.top == g.top.remove(ti));
        assert(h.bottom == g.bottom.insert(0, id));
        assert forall|i: int| 0 <= i < h.top.len() implies parse_tab(#[trigger] h.top[i]) != Some(tab) by {
            assert(h.top[i] == g.top[i]);
        }
        lemma_first_of_absent(h.top, tab);
        assert forall|i: int| 0 <= i < h.bottom.len() && i != 0 implies parse_tab(
            #[trigger] h.bottom[i],
        ) != Some(tab) by {
            assert(h.bottom[i] == g.bottom[i - 1]);
        }
        lemma_first_of_unique(h.bottom, tab, 0);
        assert(h.top.push(id) =~= g.top);
        assert(h.bottom.remove(0) =~= g.bottom);
    } else {
        assert(h.top == swapped(g.top, ti, n));
        assert(h.bottom == g.bottom);
        assert forall|i: int| 0 <= i < h.top.len() && i != n implies parse_tab(#[trigger] h.top[i]) != Some(
            tab,
        ) by {
            if i == ti {
                assert(h.top[i] == g.top[n]);
            } else {
                assert(h.top[i] == g.top[i]);
            }
        }
        lemma_first_of_unique(h.top, tab, n);
        assert(swapped(h.top, n, n - delta) =~= g.top);
    }
}

/// Undoing a move of a tab that sits in the bottom group.
#[verifier::rlimit(40)]
proof fn lemma_move_undo_bottom(g: GroupsView, tab: PanelTab, delta: int)
    requires
        canonical(g.top),
        canonical(g.bottom),
        no_dups(tabs_named(g.top) + tabs_named(g.bottom)),
        delta == 1 || delta == -1,
        moved_groups(g, tab, delta) is Some,
        first_of(g.top, tab) < 0,
        first_of(g.bottom, tab) >= 0,
    ensures
        moved_groups(moved_groups(g, tab, delta)->0, tab, -delta) == Some(g),
{
    let ti = first_of(g.top, tab);
    let bi = first_of(g.bottom, tab);
    let id = tab_id(tab);
    lemma_first_of_range(g.top, tab);
    lemma_first_of_range(g.bottom, tab);
    lemma_named_once(g, tab);
    lemma_parse_id_round_trip(tab);
    let h = moved_groups(g, tab, delta)->0;
    assert(ti < 0 && bi >= 0);
    assert(g.bottom[bi] == id);
    let n = bi + delta;
    if n < 0 {
        assert(h.top == g.top.push(id));
        assert(h.bottom == g.bottom.remove(bi));
        assert forall|i: int| 0 <= i < h.bottom.len() implies parse_tab(#[trigger] h.bottom[i]) != Some(tab) by {
            assert(h.bottom[i] == g.bottom[i + 1]);
        }
        lemma_first_of_absent(h.bottom, tab);
        assert forall|i: int| 0 <= i < h.top.len() && i != g.top.len() implies parse_tab(
            #[trigger] h.top[i],
        ) != Some(tab) by {
            assert(h.top[i] == g.top[i]);
        }
        lemma_first_of_unique(h.top, tab, g.top.len() as int);
        assert(h.top.insert(0, id) =~= g.top.push(id).insert(0, id));
        assert(h.top.remove(g.top.len() as int) =~= g.top);
        assert(h.bottom.insert(0, id) =~= g.bottom);
    } else if n >= g.bottom.len() {
        assert(bi == g.bottom.len() - 1);
        assert(h.top == g.top.insert(0, id));
        assert(h.bottom == g.bottom.remove(bi));
        assert forall|i: int| 0 <= i < h.bottom.len() implies parse_tab(#[trigger] h.bottom[i]) != Some(tab) by {
            assert(h.bottom[i] == g.bottom[i]);
        }
        lemma_first_of_absent(h.bottom, tab);
        assert forall|i: int| 0 <= i < h.top.len() && i != 0 implies parse_tab(#[trigger] h.top[i]) != Some(
            tab,
        ) by {
            assert(h.top[i] == g.top[i - 1]);
        }
        lemma_first_of_unique(h.top, tab, 0);
        assert(h.top.remove(0) =~= g.top);
        assert(h.bottom.push(id) =~= g.bottom);
    } else {
        assert(h.bottom == swapped(g.bottom, bi, n));
        assert(h.top == g.top);
        assert forall|i: int| 0 <= i < h.bottom.len() && i != n implies parse_tab(
            #[trigger] h.bottom[i],
        ) != Some(tab) by {
            if i == bi {
                assert(h.bottom[i] == g.bottom[n]);
            } else {
                assert(h.bottom[i] == g.bottom[i]);
            }
        }
        lemma_first_of_unique(h.bottom, tab, n);
        assert(swapped(h.bottom, n, n - delta) =~= g.bottom);
    }
}

/// Moving a tab one slot and then one slot back restores the layout, for
/// layouts in sanitized form (only ids, no tab twice).
pub proof fn lemma_move_undo(g: GroupsView, tab: PanelTab, delta: int)
    requires
        canonical(g.top),
        canonical(g.bottom),
        no_dups(tabs_named(g.top) + tabs_named(g.bottom)),
        delta == 1 || delta == -1,
        moved_groups(g, tab, delta) is Some,
    ensures
        moved_groups(moved_groups(g, tab, delta)->0, tab, -delta) == Some(g),
{
    if first_of(g.top, tab) >= 0 {
        lemma_move_undo_top(g, tab, delta);
    } else {
        lemma_move_undo_bottom(g, tab, delta);
    }
}

/// Canonical names are the ids of the tabs they name.
pub proof fn lemma_canonical_ids(names: Seq<Seq<char>>)
    requires
        canonical(names),
    ensures
        names == ids_of(tabs_named(names)),
{
    assert(names =~= ids_of(tabs_named(names)));
}

/// The rail shows exactly what sanitizing wrote: resolving a sanitized
/// layout gives each group's tabs in the stored order.
pub proof fn lemma_resolve_sanitized(c: LayoutView, mode: WorkspaceMode)
    ensures
        ({
            let s = sanitized_layout(c);
            let g = match mode {
                WorkspaceMode::Developer => s.developer,
                WorkspaceMode::Gamer => s.gamer,
            };
            resolved_groups(mode, s) == (tabs_named(g.top), tabs_named(g.bottom))
        }),
{
    lemma_sanitized_idempotent(c);
    let s = sanitized_layout(c);
    let g = match mode {
        WorkspaceMode::Developer => s.developer,
        WorkspaceMode::Gamer => s.gamer,
    };
    let t = tabs_named(g.top);
    let b = tabs_named(g.bottom);
    lemma_canonical_ids(g.top);
    lemma_canonical_ids(g.bottom);
    assert(no_dups(t)) by {
        assert forall|i: int, j: int| 0 <= i < j < t.len() implies t[i] != t[j] by {
            assert((t + b)[i] == t[i]);
            assert((t + b)[j] == t[j]);
        }
    }
    assert(no_dups(b)) by {
        assert forall|i: int, j: int| 0 <= i < j < b.len() implies b[i] != b[j] by {
            assert((t + b)[t.len() + i] == b[i]);
            assert((t + b)[t.len() + j] == b[j]);
        }
    }
    lemma_parse_ids(t, Seq::empty());
    lemma_parse_ids(b, Seq::empty());
}

} // verus!
