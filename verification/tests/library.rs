use side_panel_right::library::{compute_sections, filter_games, initial, GameEntry, GamesConfig};

fn game(id: &str, name: &str) -> GameEntry {
    GameEntry {
        id: id.into(),
        name: name.into(),
        command: format!("steam steam://rungameid/{id}"),
    }
}

fn non_game(id: &str, name: &str, command: &str) -> GameEntry {
    GameEntry { id: id.into(), name: name.into(), command: command.into() }
}

fn config(pinned: &[&str], recent: &[&str]) -> GamesConfig {
    GamesConfig {
        pinned: pinned.iter().map(|s| s.to_string()).collect(),
        recent: recent.iter().map(|s| s.to_string()).collect(),
    }
}

fn ids(entries: &[GameEntry]) -> Vec<&str> {
    entries.iter().map(|g| g.id.as_str()).collect()
}

#[test]
fn initial_uppercases_first_char() {
    assert_eq!(initial("Counter-Strike"), 'C');
    assert_eq!(initial("pubg"), 'P');
    assert_eq!(initial(""), '?');
}

#[test]
fn initial_keeps_non_letters() {
    assert_eq!(initial("7 Days"), '7');
    assert_eq!(initial("école"), 'é');
}

#[test]
fn filter_games_excludes_steam_client_and_non_games_and_sorts() {
    // The Steam client and Firefox are not games; CS2 and PUBG are.
    let steam = non_game("steam", "Steam", "/usr/bin/steam %U");
    let firefox = non_game("firefox", "Firefox", "/usr/bin/firefox");
    let cs2 = game("Counter-Strike 2", "Counter-Strike 2");
    let pubg = game("PUBG BATTLEGROUNDS", "PUBG: BATTLEGROUNDS");

    let out = filter_games(vec![steam, pubg.clone(), cs2.clone(), firefox], &vec![false, true, true, false]);
    assert_eq!(out.len(), 2, "only the two real games survive");
    // Sorted case-insensitively by name: "counter-strike..." < "pubg...".
    assert_eq!(out[0].id, "Counter-Strike 2");
    assert_eq!(out[1].id, "PUBG BATTLEGROUNDS");
}

#[test]
fn filter_games_empty_input() {
    assert!(filter_games(Vec::new(), &Vec::new()).is_empty());
}

#[test]
fn filter_games_sort_ignores_case_and_is_stable() {
    let out = filter_games(
        vec![game("b2", "beta"), game("a", "Alpha"), game("b1", "BETA"), game("z", "zulu")],
        &vec![true, true, true, true],
    );
    assert_eq!(ids(&out), vec!["a", "b2", "b1", "z"]);
}

#[test]
fn filter_games_orders_by_code_point_after_lowercasing() {
    let out = filter_games(
        vec![game("e", "Éclair"), game("z", "Zed"), game("a", "apple")],
        &vec![true, true, true],
    );
    assert_eq!(ids(&out), vec!["a", "z", "e"]);
}

#[test]
fn compute_sections_pinned_wins_over_recent_and_all() {
    let games = vec![game("cs2", "CS2"), game("pubg", "PUBG"), game("scum", "SCUM"), game("dota", "Dota 2")];
    // cs2 is both pinned and recent: pinned wins.
    let config = config(&["cs2"], &["cs2", "pubg"]);
    let s = compute_sections(&games, &config);

    assert_eq!(ids(&s.pinned), vec!["cs2"]);
    assert_eq!(ids(&s.recent), vec!["pubg"]);
    let all = ids(&s.all);
    assert!(all.contains(&"scum"));
    assert!(all.contains(&"dota"));
    assert!(!all.contains(&"cs2"));
    assert!(!all.contains(&"pubg"));
}

#[test]
fn compute_sections_drops_stale_pinned_and_recent_ids() {
    let games = vec![game("cs2", "CS2")];
    let config = config(&["cs2", "nonexistent-game"], &["ghost"]);
    let s = compute_sections(&games, &config);
    assert_eq!(s.pinned.len(), 1);
    assert_eq!(s.pinned[0].id, "cs2");
    assert!(s.recent.is_empty(), "stale recent id must be dropped");
}

#[test]
fn compute_sections_empty_games_yields_all_empty() {
    let s = compute_sections(&Vec::new(), &config(&[], &[]));
    assert!(s.pinned.is_empty());
    assert!(s.recent.is_empty());
    assert!(s.all.is_empty());
}

#[test]
fn compute_sections_pinned_keeps_config_order() {
    let games = vec![game("a", "A"), game("b", "B"), game("c", "C")];
    let s = compute_sections(&games, &config(&["c", "a"], &[]));
    assert_eq!(ids(&s.pinned), vec!["c", "a"], "pinned section must preserve insertion order");
}

#[test]
fn compute_sections_every_game_in_exactly_one_section() {
    let games = vec![game("a", "A"), game("b", "B"), game("c", "C"), game("d", "D")];
    let s = compute_sections(&games, &config(&["d", "x"], &["b", "d", "y", "a"]));
    assert_eq!(ids(&s.pinned), vec!["d"]);
    assert_eq!(ids(&s.recent), vec!["b", "a"]);
    assert_eq!(ids(&s.all), vec!["c"]);
}
