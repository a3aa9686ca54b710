use arena_sessions::store::{Player, Store, Team};

fn player(game: &str, name: &str, team: Team) -> Player {
    Player { game: game.to_string(), name: name.to_string(), team }
}

#[test]
fn add_game_creates_stopped_empty() {
    let mut s = Store::new();
    s.add_game(&"Arena1".to_string());
    let games = s.snapshot();
    assert_eq!(games.len(), 1);
    assert_eq!(games[0].name, "Arena1");
    assert!(!games[0].running);
    assert!(games[0].blue.is_empty());
    assert!(games[0].red.is_empty());
}

#[test]
fn add_game_empty_name_ignored() {
    let mut s = Store::new();
    s.add_game(&String::new());
    assert!(s.snapshot().is_empty());
}

#[test]
fn add_game_existing_name_resets_the_game() {
    // Inserting an existing name replaces the game wholesale: its players
    // and running state are discarded.
    let mut s = Store::new();
    s.add_game(&"Arena1".to_string());
    s.add_player(player("Arena1", "Alice", Team::Blue));
    s.update_game(&"Arena1".to_string());
    s.add_game(&"Arena1".to_string());
    let games = s.snapshot();
    assert_eq!(games.len(), 1);
    assert!(!games[0].running);
    assert!(games[0].blue.is_empty());
    assert!(games[0].red.is_empty());
}

#[test]
fn add_player_goes_to_team_roster() {
    let mut s = Store::new();
    s.add_game(&"Arena1".to_string());
    s.add_player(player("Arena1", "Alice", Team::Blue));
    s.add_player(player("Arena1", "Bob", Team::Red));
    let games = s.snapshot();
    assert_eq!(games[0].blue.len(), 1);
    assert_eq!(games[0].blue[0].name, "Alice");
    assert_eq!(games[0].blue[0].game, "Arena1");
    assert_eq!(games[0].blue[0].team, Team::Blue);
    assert_eq!(games[0].red.len(), 1);
    assert_eq!(games[0].red[0].name, "Bob");
}

#[test]
fn add_player_nonexistent_game_is_noop() {
    // Never creates the game and never touches any roster.
    let mut s = Store::new();
    s.add_game(&"Arena1".to_string());
    s.add_player(player("Nowhere", "Alice", Team::Blue));
    let games = s.snapshot();
    assert_eq!(games.len(), 1);
    assert_eq!(games[0].name, "Arena1");
    assert!(games[0].blue.is_empty());
    assert!(games[0].red.is_empty());
}

#[test]
fn add_player_duplicate_name_rejected_across_rosters() {
    // A name already on either roster is rejected, so it is never on
    // both rosters of the same game.
    let mut s = Store::new();
    s.add_game(&"Arena1".to_string());
    s.add_player(player("Arena1", "Alice", Team::Blue));
    s.add_player(player("Arena1", "Alice", Team::Red));
    s.add_player(player("Arena1", "Alice", Team::Blue));
    let games = s.snapshot();
    assert_eq!(games[0].blue.len(), 1);
    assert!(games[0].red.is_empty());
}

#[test]
fn add_player_empty_name_rejected() {
    let mut s = Store::new();
    s.add_game(&"Arena1".to_string());
    s.add_player(player("Arena1", "", Team::Blue));
    let games = s.snapshot();
    assert!(games[0].blue.is_empty());
    assert!(games[0].red.is_empty());
}

#[test]
fn remove_player_takes_name_out_of_its_roster() {
    let mut s = Store::new();
    s.add_game(&"Arena1".to_string());
    s.add_player(player("Arena1", "Alice", Team::Blue));
    s.add_player(player("Arena1", "Bob", Team::Red));
    s.remove_player(&"Arena1".to_string(), &"Alice".to_string());
    let games = s.snapshot();
    assert!(games[0].blue.is_empty());
    assert_eq!(games[0].red.len(), 1);
}

#[test]
fn remove_player_absent_name_is_noop() {
    let mut s = Store::new();
    s.add_game(&"Arena1".to_string());
    s.add_player(player("Arena1", "Alice", Team::Blue));
    s.remove_player(&"Arena1".to_string(), &"Nobody".to_string());
    s.remove_player(&"Ghost".to_string(), &"Alice".to_string());
    let games = s.snapshot();
    assert_eq!(games.len(), 1);
    assert_eq!(games[0].blue.len(), 1);
    assert_eq!(games[0].blue[0].name, "Alice");
}

#[test]
fn remove_game_drops_players_and_readd_is_fresh() {
    let mut s = Store::new();
    s.add_game(&"Arena1".to_string());
    s.add_player(player("Arena1", "Alice", Team::Blue));
    s.remove_game(&"Arena1".to_string());
    assert!(s.snapshot().is_empty());
    // Adding a player to the removed name finds no game.
    s.add_player(player("Arena1", "Alice", Team::Blue));
    assert!(s.snapshot().is_empty());
    // Re-adding the game creates a brand-new one, without the old roster.
    s.add_game(&"Arena1".to_string());
    let games = s.snapshot();
    assert_eq!(games.len(), 1);
    assert!(games[0].blue.is_empty());
    assert!(!games[0].running);
}

#[test]
fn remove_game_absent_name_is_noop() {
    let mut s = Store::new();
    s.add_game(&"Arena1".to_string());
    s.remove_game(&"Other".to_string());
    assert_eq!(s.snapshot().len(), 1);
}
