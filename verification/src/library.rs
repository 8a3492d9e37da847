//! The game library tab: the detected games, the pinned and recently played
//! ids, and how they are split into display sections.

use vstd::prelude::*;

use crate::text;

verus! {

/// First uppercase letter of a name, for the avatar tile (`?` when empty).
pub fn initial(name: &str) -> (r: char)
    ensures
        r == text::upper_char(if name@.len() > 0 { name@[0] } else { '?' }),
{
    let v = text::chars_of(name);
    let c = if v.len() > 0 { v[0] } else { '?' };
    text::to_upper(c)
}

/// A detected game: the fields of a desktop entry that the tab reads.
#[derive(Debug, Clone)]
pub struct GameEntry {
    pub id: String,
    pub name: String,
    pub command: String,
}

/// The persisted library lists, as read: pinned ids in pin order and recently
/// played ids, most recent first.
#[derive(Debug, Clone)]
pub struct GamesConfig {
    pub pinned: Vec<String>,
    pub recent: Vec<String>,
}

/// The three display sections of the library.
#[derive(Debug)]
pub struct Sections {
    pub pinned: Vec<GameEntry>,
    pub recent: Vec<GameEntry>,
    pub all: Vec<GameEntry>,
}

/// Index of the first game with id `id` at or after `i`, or `-1`.
pub open spec fn first_with_id(games: Seq<GameEntry>, id: Seq<char>, i: nat) -> int
    decreases games.len() - i,
{
    if i >= games.len() {
        -1
    } else if games[i as int].id@ == id {
        i as int
    } else {
        first_with_id(games, id, i + 1)
    }
}

/// The games that `ids` name, in the order of `ids`; an id that names no
/// game is skipped, and an id that names several yields the first.
pub open spec fn lookup_ids(games: Seq<GameEntry>, ids: Seq<String>) -> Seq<GameEntry>
    decreases ids.len(),
{
    if ids.len() == 0 {
        Seq::empty()
    } else {
        let prev = lookup_ids(games, ids.drop_last());
        let k = first_with_id(games, ids.last()@, 0);
        if k >= 0 {
            prev.push(games[k])
        } else {
            prev
        }
    }
}

/// Some id of `ids` reads `id`.
pub open spec fn ids_contain(ids: Seq<String>, id: Seq<char>) -> bool {
    exists|k: int| 0 <= k < ids.len() && #[trigger] ids[k]@ == id
}

/// Some game of `games` has id `id`.
pub open spec fn games_contain(games: Seq<GameEntry>, id: Seq<char>) -> bool {
    exists|k: int| 0 <= k < games.len() && #[trigger] games[k].id@ == id
}

/// `ids` without those that `excluded` holds, order kept.
pub open spec fn drop_ids(ids: Seq<String>, excluded: Seq<String>) -> Seq<String>
    decreases ids.len(),
{
    if ids.len() == 0 {
        Seq::empty()
    } else {
        let prev = drop_ids(ids.drop_last(), excluded);
        if ids_contain(excluded, ids.last()@) {
            prev
        } else {
            prev.push(ids.last())
        }
    }
}

/// `games` without those whose id `shown` holds, order kept.
pub open spec fn games_not_shown(games: Seq<GameEntry>, shown: Seq<GameEntry>) -> Seq<GameEntry>
    decreases games.len(),
{
    if games.len() == 0 {
        Seq::empty()
    } else {
        let prev = games_not_shown(games.drop_last(), shown);
        if games_contain(shown, games.last().id@) {
            prev
        } else {
            prev.push(games.last())
        }
    }
}

/// The pinned section: the pinned ids that name a game, in pin order.
pub open spec fn pinned_section(games: Seq<GameEntry>, config: GamesConfig) -> Seq<GameEntry> {
    lookup_ids(games, config.pinned@)
}

/// The recent section: the recent ids that are not pinned and name a game.
pub open spec fn recent_section(games: Seq<GameEntry>, config: GamesConfig) -> Seq<GameEntry> {
    lookup_ids(games, drop_ids(config.recent@, config.pinned@))
}

/// The "all" section: every game that neither other section shows.
pub open spec fn all_section(games: Seq<GameEntry>, config: GamesConfig) -> Seq<GameEntry> {
    games_not_shown(games, pinned_section(games, config) + recent_section(games, config))
}

fn copy_entry(e: &GameEntry) -> (r: GameEntry)
    ensures
        r == *e,
{
    GameEntry { id: e.id.clone(), name: e.name.clone(), command: e.command.clone() }
}

/// Position of the first game with id `id`.
fn find_game(games: &Vec<GameEntry>, id: &String) -> (r: Option<usize>)
    ensures
        match r {
            Some(k) => k as int == first_with_id(games@, id@, 0) && k < games.len(),
            None => first_with_id(games@, id@, 0) == -1,
        },
{
    let mut i: usize = 0;
    while i < games.len()
        invariant
            i <= games.len(),
            first_with_id(games@, id@, 0) == first_with_id(games@, id@, i as nat),
        decreases games.len() - i,
    {
        if games[i].id == *id {
            return Some(i);
        }
        i = i + 1;
    }
    None
}

/// Whether some id of `ids` equals `id`.
fn contains_id(ids: &Vec<String>, id: &String) -> (r: bool)
    ensures
        r == ids_contain(ids@, id@),
{
    let mut i: usize = 0;
    while i < ids.len()
        invariant
            i <= ids.len(),
            forall|k: int| 0 <= k < i ==> #[trigger] ids@[k]@ != id@,
        decreases ids.len() - i,
    {
        if ids[i] == *id {
            return true;
        }
        i = i + 1;
    }
    false
}

/// Whether some game of `games` has id `id`.
fn shows_id(games: &Vec<GameEntry>, id: &String) -> (r: bool)
    ensures
        r == games_contain(games@, id@),
{
    let mut i: usize = 0;
    while i < games.len()
        invariant
            i <= games.len(),
            forall|k: int| 0 <= k < i ==> #[trigger] games@[k].id@ != id@,
        decreases games.len() - i,
    {
        if games[i].id == *id {
            return true;
        }
        i = i + 1;
    }
    false
}

/// The games that `ids` name, skipping those in `excluded`.
fn resolve_ids(games: &Vec<GameEntry>, ids: &Vec<String>, excluded: &Vec<String>) -> (r: Vec<
    GameEntry,
>)
    ensures
        r@ == lookup_ids(games@, drop_ids(ids@, excluded@)),
{
    let mut out: Vec<GameEntry> = Vec::new();
    let mut i: usize = 0;
    while i < ids.len()
        invariant
            i <= ids.len(),
            out@ == lookup_ids(games@, drop_ids(ids@.take(i as int), excluded@)),
        decreases ids.len() - i,
    {
        let ghost before = drop_ids(ids@.take(i as int), excluded@);
        assert(ids@.take(i + 1).drop_last() =~= ids@.take(i as int));
        if !contains_id(excluded, &ids[i]) {
            assert(drop_ids(ids@.take(i + 1), excluded@) == before.push(ids@[i as int]));
            assert(before.push(ids@[i as int]).drop_last() =~= before);
            match find_game(games, &ids[i]) {
                Some(k) => {
                    out.push(copy_entry(&games[k]));
                },
                None => {},
            }
        }
        i = i + 1;
    }
    assert(ids@.take(ids.len() as int) =~= ids@);
    out
}

/// `drop_ids` with nothing excluded keeps every id.
pub proof fn lemma_drop_nothing(ids: Seq<String>)
    ensures
        drop_ids(ids, Seq::empty()) == ids,
    decreases ids.len(),
{
    if ids.len() > 0 {
        lemma_drop_nothing(ids.drop_last());
        assert(ids.drop_last().push(ids.last()) =~= ids);
    }
}

proof fn lemma_first_with_id(games: Seq<GameEntry>, id: Seq<char>, i: nat)
    ensures
        first_with_id(games, id, i) >= 0 ==> {
            let k = first_with_id(games, id, i);
            i <= k < games.len() && games[k].id@ == id
        },
    decreases games.len() - i,
{
    if i < games.len() && games[i as int].id@ != id {
        lemma_first_with_id(games, id, i + 1);
    }
}

/// Every looked-up game is a game and is named by one of the ids.
proof fn lemma_lookup_ids(games: Seq<GameEntry>, ids: Seq<String>)
    ensures
        forall|k: int|
            0 <= k < lookup_ids(games, ids).len() ==> games.contains(
                #[trigger] lookup_ids(games, ids)[k],
            ) && ids_contain(ids, lookup_ids(games, ids)[k].id@),
    decreases ids.len(),
{
    if ids.len() > 0 {
        let d = ids.drop_last();
        lemma_lookup_ids(games, d);
        lemma_first_with_id(games, ids.last()@, 0);
        let prev = lookup_ids(games, d);
        assert forall|k: int| 0 <= k < lookup_ids(games, ids).len() implies games.contains(
            #[trigger] lookup_ids(games, ids)[k],
        ) && ids_contain(ids, lookup_ids(games, ids)[k].id@) by {
            if k < prev.len() {
                let j = choose|j: int| 0 <= j < d.len() && #[trigger] d[j]@ == prev[k].id@;
                assert(ids[j] == d[j]);
            } else {
                let f = first_with_id(games, ids.last()@, 0);
                assert(games[f] == lookup_ids(games, ids)[k]);
                assert(ids[ids.len() - 1]@ == ids.last()@);
            }
        }
    }
}

/// The kept ids are ids of the input, and none of them is excluded.
proof fn lemma_drop_ids(ids: Seq<String>, excluded: Seq<String>)
    ensures
        forall|k: int|
            0 <= k < drop_ids(ids, excluded).len() ==> !ids_contain(
                excluded,
                (#[trigger] drop_ids(ids, excluded)[k])@,
            ),
    decreases ids.len(),
{
    if ids.len() > 0 {
        let prev = drop_ids(ids.drop_last(), excluded);
        lemma_drop_ids(ids.drop_last(), excluded);
        assert forall|k: int| 0 <= k < drop_ids(ids, excluded).len() implies !ids_contain(
            excluded,
            (#[trigger] drop_ids(ids, excluded)[k])@,
        ) by {
            if k < prev.len() {
                assert(drop_ids(ids, excluded)[k] == prev[k]);
            }
        }
    }
}

/// A game is either shown, or kept by `games_not_shown`; nothing kept is shown.
proof fn lemma_games_not_shown(games: Seq<GameEntry>, shown: Seq<GameEntry>)
    ensures
        forall|k: int|
            0 <= k < games.len() ==> games_contain(shown, (#[trigger] games[k]).id@)
                || games_not_shown(games, shown).contains(games[k]),
        forall|k: int|
            0 <= k < games_not_shown(games, shown).len() ==> !games_contain(
                shown,
                (#[trigger] games_not_shown(games, shown)[k]).id@,
            ),
    decreases games.len(),
{
    if games.len() > 0 {
        let d = games.drop_last();
        lemma_games_not_shown(d, shown);
        let prev = games_not_shown(d, shown);
        assert forall|k: int| 0 <= k < games.len() implies games_contain(
            shown,
            (#[trigger] games[k]).id@,
        ) || games_not_shown(games, shown).contains(games[k]) by {
            if k < d.len() {
                assert(d[k] == games[k]);
                if prev.contains(games[k]) {
                    let j = choose|j: int| 0 <= j < prev.len() && prev[j] == games[k];
                    assert(games_not_shown(games, shown)[j] == games[k]);
                }
            } else if !games_contain(shown, games[k].id@) {
                assert(games_not_shown(games, shown)[prev.len() as int] == games[k]);
            }
        }
    }
}

/// Pinned wins, then recent, then "all": no game shows in two sections, every
/// detected game shows in one, and every section entry is a detected game.
pub proof fn lemma_sections_partition(games: Seq<GameEntry>, config: GamesConfig)
    ensures
        forall|k: int|
            0 <= k < recent_section(games, config).len() ==> !games_contain(
                pinned_section(games, config),
                (#[trigger] recent_section(games, config)[k]).id@,
            ),
        forall|k: int|
            0 <= k < all_section(games, config).len() ==> !games_contain(
                pinned_section(games, config) + recent_section(games, config),
                (#[trigger] all_section(games, config)[k]).id@,
            ),
        forall|k: int|
            0 <= k < games.len() ==> games_contain(
                pinned_section(games, config) + recent_section(games, config) + all_section(
                    games,
                    config,
                ),
                (#[trigger] games[k]).id@,
            ),
        forall|k: int|
            0 <= k < pinned_section(games, config).len() ==> games.contains(
                #[trigger] pinned_section(games, config)[k],
            ),
        forall|k: int|
            0 <= k < recent_section(games, config).len() ==> games.contains(
                #[trigger] recent_section(games, config)[k],
            ),
        forall|k: int|
            0 <= k < all_section(games, config).len() ==> games.contains(
                #[trigger] all_section(games, config)[k],
            ),
{
    let p = pinned_section(games, config);
    let d = drop_ids(config.recent@, config.pinned@);
    let r = recent_section(games, config);
    let shown = p + r;
    let a = all_section(games, config);
    lemma_lookup_ids(games, config.pinned@);
    lemma_lookup_ids(games, d);
    lemma_drop_ids(config.recent@, config.pinned@);
    lemma_games_not_shown(games, shown);
    assert forall|k: int| 0 <= k < r.len() implies !games_contain(p, (#[trigger] r[k]).id@) by {
        let j = choose|j: int| 0 <= j < d.len() && #[trigger] d[j]@ == r[k].id@;
        assert(!ids_contain(config.pinned@, d[j]@));
        if games_contain(p, r[k].id@) {
            let q = choose|q: int| 0 <= q < p.len() && #[trigger] p[q].id@ == r[k].id@;
            assert(ids_contain(config.pinned@, p[q].id@));
        }
    }
    assert forall|k: int| 0 <= k < games.len() implies games_contain(
        shown + a,
        (#[trigger] games[k]).id@,
    ) by {
        if games_contain(shown, games[k].id@) {
            let q = choose|q: int| 0 <= q < shown.len() && #[trigger] shown[q].id@ == games[k].id@;
            assert((shown + a)[q] == shown[q]);
        } else {
            let q = choose|q: int| 0 <= q < a.len() && a[q] == games[k];
            assert((shown + a)[shown.len() + q] == a[q]);
        }
    }
    assert forall|k: int| 0 <= k < a.len() implies games.contains(#[trigger] a[k]) by {
        lemma_not_shown_are_games(games, shown);
    }
}

proof fn lemma_not_shown_are_games(games: Seq<GameEntry>, shown: Seq<GameEntry>)
    ensures
        forall|k: int|
            0 <= k < games_not_shown(games, shown).len() ==> games.contains(
                #[trigger] games_not_shown(games, shown)[k],
            ),
    decreases games.len(),
{
    if games.len() > 0 {
        let d = games.drop_last();
        lemma_not_shown_are_games(d, shown);
        assert forall|k: int| 0 <= k < games_not_shown(games, shown).len() implies games.contains(
            #[trigger] games_not_shown(games, shown)[k],
        ) by {
            let prev = games_not_shown(d, shown);
            if k < prev.len() {
                let j = choose|j: int| 0 <= j < d.len() && d[j] == prev[k];
                assert(games[j] == d[j]);
            } else {
                assert(games[games.len() - 1] == games.last());
            }
        }
    }
}

/// `part` is `whole` thinned out in order: `idx` picks, for each entry of
/// `part`, a position of `whole` holding it, and the positions increase.
pub open spec fn picks_in_order(part: Seq<GameEntry>, whole: Seq<GameEntry>, idx: Seq<int>) -> bool {
    &&& idx.len() == part.len()
    &&& forall|k: int| 0 <= k < idx.len() ==> 0 <= #[trigger] idx[k] < whole.len() && part[k] == whole[idx[k]]
    &&& forall|a: int, b: int| 0 <= a < b < idx.len() ==> #[trigger] idx[a] < #[trigger] idx[b]
}

proof fn lemma_not_shown_in_order(games: Seq<GameEntry>, shown: Seq<GameEntry>) -> (idx: Seq<int>)
    ensures
        picks_in_order(games_not_shown(games, shown), games, idx),
    decreases games.len(),
{
    if games.len() == 0 {
        Seq::empty()
    } else {
        let d = games.drop_last();
        let prev = lemma_not_shown_in_order(d, shown);
        assert forall|k: int| 0 <= k < prev.len() implies 0 <= #[trigger] prev[k] < games.len()
            && games_not_shown(d, shown)[k] == games[prev[k]] by {
            assert(d[prev[k]] == games[prev[k]]);
        }
        if games_contain(shown, games.last().id@) {
            prev
        } else {
            let idx = prev.push(games.len() - 1);
            let g = games_not_shown(games, shown);
            assert forall|k: int| 0 <= k < idx.len() implies 0 <= #[trigger] idx[k] < games.len()
                && g[k] == games[idx[k]] by {
                if k < prev.len() {
                    assert(idx[k] == prev[k]);
                } else {
                    assert(games[games.len() - 1] == games.last());
                }
            }
            assert forall|a: int, b: int| 0 <= a < b < idx.len() implies #[trigger] idx[a]
                < #[trigger] idx[b] by {
                if b < prev.len() {
                    assert(idx[a] == prev[a] && idx[b] == prev[b]);
                } else {
                    assert(idx[a] == prev[a]);
                }
            }
            idx
        }
    }
}

/// The "all" section keeps the order of the detected games (alphabetical
/// after `filter_games`): it is the detected list thinned out, so of two
/// entries the one listed first among the games comes first.
pub proof fn lemma_all_section_in_order(games: Seq<GameEntry>, config: GamesConfig)
    ensures
        exists|idx: Seq<int>| #[trigger] picks_in_order(all_section(games, config), games, idx),
{
    let idx = lemma_not_shown_in_order(
        games,
        pinned_section(games, config) + recent_section(games, config),
    );
    assert(picks_in_order(all_section(games, config), games, idx));
}

/// Splits the detected games into the pinned, recent and "all" sections. A
/// game appears in at most one section: pinned wins, then recent, then the
/// "all" bucket. Pinned and recent ids that name no detected game are
/// dropped.
pub fn compute_sections(games: &Vec<GameEntry>, config: &GamesConfig) -> (r: Sections)
    ensures
        r.pinned@ == pinned_section(games@, *config),
        r.recent@ == recent_section(games@, *config),
        r.all@ == all_section(games@, *config),
{
    let none: Vec<String> = Vec::new();
    let pinned = resolve_ids(games, &config.pinned, &none);
    proof {
        lemma_drop_nothing(config.pinned@);
    }
    let recent = resolve_ids(games, &config.recent, &config.pinned);
    let mut shown: Vec<GameEntry> = Vec::new();
    let mut j: usize = 0;
    while j < pinned.len()
        invariant
            j <= pinned.len(),
            shown@ == pinned@.take(j as int),
        decreases pinned.len() - j,
    {
        shown.push(copy_entry(&pinned[j]));
        j = j + 1;
        assert(shown@ =~= pinned@.take(j as int));
    }
    j = 0;
    while j < recent.len()
        invariant
            j <= recent.len(),
            shown@ == pinned@ + recent@.take(j as int),
        decreases recent.len() - j,
    {
        shown.push(copy_entry(&recent[j]));
        j = j + 1;
        assert(shown@ =~= pinned@ + recent@.take(j as int));
    }
    assert(recent@.take(recent.len() as int) =~= recent@);
    let mut all: Vec<GameEntry> = Vec::new();
    let mut i: usize = 0;
    while i < games.len()
        invariant
            i <= games.len(),
            all@ == games_not_shown(games@.take(i as int), shown@),
        decreases games.len() - i,
    {
        assert(games@.take(i + 1).drop_last() =~= games@.take(i as int));
        if !shows_id(&shown, &games[i].id) {
            all.push(copy_entry(&games[i]));
        }
        i = i + 1;
    }
    assert(games@.take(games.len() as int) =~= games@);
    Sections { pinned, recent, all }
}

/// What `str::to_lowercase` gives for a string (full Unicode case mapping).
pub uninterp spec fn lowercased(s: Seq<char>) -> Seq<char>;

/// `str::to_lowercase`. Its result is named, not stated: the mapping comes
/// from the Unicode tables and depends on the input alone.
#[verifier::external_body]
fn lowercase_of(s: &str) -> (r: String)
    ensures
        r@ == lowercased(s@),
{
    s.to_lowercase()
}

/// The sort key of a game: its lowercased display name.
pub open spec fn name_key(e: GameEntry) -> Seq<char> {
    lowercased(e.name@)
}

/// Lexicographic `<=` on characters from position `i` on (the order of
/// `String`'s `Ord`, since UTF-8 keeps code point order).
pub open spec fn lex_le_from(a: Seq<char>, b: Seq<char>, i: nat) -> bool
    decreases a.len() - i,
{
    if i >= a.len() {
        true
    } else if i >= b.len() {
        false
    } else if a[i as int] != b[i as int] {
        a[i as int] < b[i as int]
    } else {
        lex_le_from(a, b, i + 1)
    }
}

/// Lexicographic `<=` on characters.
pub open spec fn lex_le(a: Seq<char>, b: Seq<char>) -> bool {
    lex_le_from(a, b, 0)
}

/// Inserts `x` into `s` after every entry whose key is not greater.
pub open spec fn insert_by_name(s: Seq<GameEntry>, x: GameEntry) -> Seq<GameEntry>
    decreases s.len(),
{
    if s.len() == 0 {
        seq![x]
    } else if lex_le(name_key(s.last()), name_key(x)) {
        s.push(x)
    } else {
        insert_by_name(s.drop_last(), x).push(s.last())
    }
}

/// Stable sort by `name_key`.
pub open spec fn sort_by_name(s: Seq<GameEntry>) -> Seq<GameEntry>
    decreases s.len(),
{
    if s.len() == 0 {
        Seq::empty()
    } else {
        insert_by_name(sort_by_name(s.drop_last()), s.last())
    }
}

/// The entries whose flag is set, order kept.
pub open spec fn keep_flagged(entries: Seq<GameEntry>, flags: Seq<bool>) -> Seq<GameEntry>
    decreases entries.len(),
{
    if entries.len() == 0 {
        Seq::empty()
    } else {
        let prev = keep_flagged(entries.drop_last(), flags);
        if flags[entries.len() - 1] {
            prev.push(entries.last())
        } else {
            prev
        }
    }
}

fn name_key_of(e: &GameEntry) -> (r: Vec<char>)
    ensures
        r@ == name_key(*e),
{
    let lower = lowercase_of(e.name.as_str());
    text::chars_of(lower.as_str())
}

fn lex_le_exec(a: &Vec<char>, b: &Vec<char>) -> (r: bool)
    ensures
        r == lex_le(a@, b@),
{
    let mut i: usize = 0;
    while i < a.len()
        invariant
            i <= a.len(),
            lex_le(a@, b@) == lex_le_from(a@, b@, i as nat),
        decreases a.len() - i,
    {
        if i >= b.len() {
            return false;
        }
        if a[i] != b[i] {
            return a[i] < b[i];
        }
        i = i + 1;
    }
    true
}

proof fn lemma_insert_at(s: Seq<GameEntry>, x: GameEntry, j: int)
    requires
        0 <= j <= s.len(),
        forall|k: int| j <= k < s.len() ==> !lex_le(#[trigger] name_key(s[k]), name_key(x)),
        j > 0 ==> lex_le(name_key(s[j - 1]), name_key(x)),
    ensures
        insert_by_name(s, x) == s.insert(j, x),
    decreases s.len(),
{
    if s.len() == 0 {
        assert(s.insert(j, x) =~= seq![x]);
    } else if j == s.len() {
        assert(s.insert(j, x) =~= s.push(x));
    } else {
        let d = s.drop_last();
        assert(!lex_le(name_key(s[s.len() - 1]), name_key(x)));
        assert forall|k: int| j <= k < d.len() implies !lex_le(
            #[trigger] name_key(d[k]),
            name_key(x),
        ) by {
            assert(d[k] == s[k]);
        }
        if j > 0 {
            assert(d[j - 1] == s[j - 1]);
        }
        lemma_insert_at(d, x, j);
        assert(d.insert(j, x).push(s.last()) =~= s.insert(j, x));
    }
}

/// Any two keys are ordered one way or the other.
pub proof fn lemma_lex_total(a: Seq<char>, b: Seq<char>, i: nat)
    ensures
        lex_le_from(a, b, i) || lex_le_from(b, a, i),
    decreases a.len() - i,
{
    if i < a.len() && i < b.len() {
        if a[i as int] == b[i as int] {
            lemma_lex_total(a, b, i + 1);
        }
    }
}

/// The key order is transitive.
pub proof fn lemma_lex_trans(a: Seq<char>, b: Seq<char>, c: Seq<char>, i: nat)
    requires
        lex_le_from(a, b, i),
        lex_le_from(b, c, i),
    ensures
        lex_le_from(a, c, i),
    decreases a.len() - i,
{
    if i < a.len() && a[i as int] == b[i as int] && b[i as int] == c[i as int] {
        lemma_lex_trans(a, b, c, i + 1);
    }
}

/// Entries in non-decreasing key order.
pub open spec fn sorted_by_name(s: Seq<GameEntry>) -> bool {
    forall|i: int, j: int|
        0 <= i < j < s.len() ==> lex_le(#[trigger] name_key(s[i]), #[trigger] name_key(s[j]))
}

proof fn lemma_insert_by_name(s: Seq<GameEntry>, x: GameEntry)
    requires
        sorted_by_name(s),
    ensures
        sorted_by_name(insert_by_name(s, x)),
        insert_by_name(s, x).to_multiset() == s.to_multiset().insert(x),
    decreases s.len(),
{
    broadcast use vstd::seq_lib::group_to_multiset_ensures;

    let r = insert_by_name(s, x);
    if s.len() == 0 {
        assert(seq![x] =~= Seq::<GameEntry>::empty().push(x));
    } else if lex_le(name_key(s.last()), name_key(x)) {
        assert forall|i: int, j: int| 0 <= i < j < r.len() implies lex_le(
            #[trigger] name_key(r[i]),
            #[trigger] name_key(r[j]),
        ) by {
            if j == s.len() && i < s.len() - 1 {
                assert(lex_le(name_key(s[i]), name_key(s[s.len() - 1])));
                lemma_lex_trans(name_key(s[i]), name_key(s.last()), name_key(x), 0);
            }
        }
    } else {
        let d = s.drop_last();
        let m = insert_by_name(d, x);
        assert(s == d.push(s.last()));
        assert(sorted_by_name(d)) by {
            assert forall|i: int, j: int| 0 <= i < j < d.len() implies lex_le(
                #[trigger] name_key(d[i]),
                #[trigger] name_key(d[j]),
            ) by {
                assert(d[i] == s[i] && d[j] == s[j]);
            }
        }
        lemma_insert_by_name(d, x);
        lemma_lex_total(name_key(s.last()), name_key(x), 0);
        assert forall|i: int, j: int| 0 <= i < j < r.len() implies lex_le(
            #[trigger] name_key(r[i]),
            #[trigger] name_key(r[j]),
        ) by {
            if j == m.len() {
                assert(m.to_multiset().count(m[i]) > 0);
                if m[i] != x {
                    assert(d.contains(m[i]));
                    let k = choose|k: int| 0 <= k < d.len() && d[k] == m[i];
                    assert(s[k] == m[i]);
                    assert(lex_le(name_key(s[k]), name_key(s[s.len() - 1])));
                }
            } else {
                assert(r[i] == m[i] && r[j] == m[j]);
            }
        }
    }
}

/// Sorting by name only reorders: the same entries, each as often, come
/// out in non-decreasing order of lowercased name.
pub proof fn lemma_sort_by_name(s: Seq<GameEntry>)
    ensures
        sorted_by_name(sort_by_name(s)),
        sort_by_name(s).to_multiset() == s.to_multiset(),
    decreases s.len(),
{
    broadcast use vstd::seq_lib::group_to_multiset_ensures;

    if s.len() > 0 {
        lemma_sort_by_name(s.drop_last());
        lemma_insert_by_name(sort_by_name(s.drop_last()), s.last());
        assert(s == s.drop_last().push(s.last()));
    }
}

/// Keeps the entries whose `is_game` flag is set and sorts them by display
/// name, case-insensitively (stable for equal names).
pub fn filter_games(entries: Vec<GameEntry>, is_game: &Vec<bool>) -> (r: Vec<GameEntry>)
    requires
        is_game.len() == entries.len(),
    ensures
        r@ == sort_by_name(keep_flagged(entries@, is_game@)),
{
    let mut kept: Vec<GameEntry> = Vec::new();
    let mut i: usize = 0;
    while i < entries.len()
        invariant
            i <= entries.len(),
            is_game.len() == entries.len(),
            kept@ == keep_flagged(entries@.take(i as int), is_game@),
        decreases entries.len() - i,
    {
        assert(entries@.take(i + 1).drop_last() =~= entries@.take(i as int));
        if is_game[i] {
            kept.push(copy_entry(&entries[i]));
        }
        i = i + 1;
    }
    assert(entries@.take(entries.len() as int) =~= entries@);
    let mut out: Vec<GameEntry> = Vec::new();
    let mut keys: Vec<Vec<char>> = Vec::new();
    i = 0;
    while i < kept.len()
        invariant
            i <= kept.len(),
            out@ == sort_by_name(kept@.take(i as int)),
            keys.len() == out.len(),
            forall|k: int| 0 <= k < out.len() ==> (#[trigger] keys@[k])@ == name_key(out@[k]),
        decreases kept.len() - i,
    {
        let x = copy_entry(&kept[i]);
        let kx = name_key_of(&x);
        let mut j: usize = out.len();
        while j > 0 && !lex_le_exec(&keys[j - 1], &kx)
            invariant
                j <= out.len(),
                keys.len() == out.len(),
                kx@ == name_key(x),
                forall|k: int| 0 <= k < out.len() ==> (#[trigger] keys@[k])@ == name_key(out@[k]),
                forall|k: int| j <= k < out.len() ==> !lex_le(#[trigger] name_key(out@[k]), kx@),
            decreases j,
        {
            j = j - 1;
        }
        proof {
            if j > 0 {
                assert(keys@[j - 1]@ == name_key(out@[j - 1]));
            }
            lemma_insert_at(out@, x, j as int);
            assert(kept@.take(i + 1).drop_last() =~= kept@.take(i as int));
        }
        let ghost keys_before = keys@;
        out.insert(j, x);
        keys.insert(j, kx);
        proof {
            assert forall|k: int| 0 <= k < out.len() implies (#[trigger] keys@[k])@ == name_key(
                out@[k],
            ) by {
                if k > j {
                    assert(keys@[k] == keys_before[k - 1]);
                }
            }
        }
        i = i + 1;
    }
    assert(kept@.take(kept.len() as int) =~= kept@);
    out
}

} // verus!
