use arena_sessions::store::{Player, Store, Team};

fn player(game: &str, name: &str, team: Team) -> Player {
    Player { game: game.to_string(), name: name.to_string(), team }
}

fn player_start_block(name: &str, x: i32, y: i32) -> Vec<String> {
    vec![
        "/gamerule keepinventory true".to_string(),
        format!("/replaceitem entity {} slot.armor.head 1 iron_helmet", name),
        format!("/clear {}", name),
        format!("/effect {} clear", name),
        format!("/effect {} instant_health 1 4", name),
        format!("/effect {} night_vision 100000 1", name),
        format!("/scoreboard teams add {} ", name),
        format!("/replaceitem entity {} slot.armor.head 1 iron_helmet", name),
        format!("/replaceitem entity {} slot.armor.chest 1 iron_chestplate", name),
        format!("/replaceitem entity {} slot.armor.legs 1 iron_leggings", name),
        format!("/replaceitem entity {} slot.armor.feet 1 iron_boots", name),
        format!("/give {} iron_sword 1", name),
        format!("/give {} apple 16", name),
        format!("/teleport {} {} {} 0", name, x, y),
    ]
}

#[test]
fn first_start_emits_arena_then_each_player_block() {
    // First-ever start transition: the counter becomes 1, so the offset
    // is -40 + 1 * 10 = -30; Alice (blue) lands at x = 10, Bob (red) at
    // x = -10, both at vertical -30 + 3 = -27.
    let mut s = Store::new();
    s.add_game(&"Arena1".to_string());
    s.add_player(player("Arena1", "Alice", Team::Blue));
    s.add_player(player("Arena1", "Bob", Team::Red));
    let cmds = s.update_game(&"Arena1".to_string());

    let mut expected = vec!["fill 25 -30 -25 -25 -20 25 bedrock hollow".to_string()];
    expected.extend(player_start_block("Alice", 10, -27));
    expected.extend(player_start_block("Bob", -10, -27));
    assert_eq!(cmds, expected);
    assert_eq!(cmds.len(), 1 + 2 * 14);
    assert!(s.snapshot()[0].running);
}

#[test]
fn stop_emits_one_weakness_per_player_blue_then_red() {
    let mut s = Store::new();
    s.add_game(&"Arena1".to_string());
    s.add_player(player("Arena1", "Alice", Team::Blue));
    s.add_player(player("Arena1", "Bob", Team::Red));
    s.update_game(&"Arena1".to_string());
    let cmds = s.update_game(&"Arena1".to_string());
    assert_eq!(
        cmds,
        vec![
            "/effect Alice weakness 100000 255".to_string(),
            "/effect Bob weakness 100000 255".to_string(),
        ]
    );
    assert!(!s.snapshot()[0].running);
}

#[test]
fn start_offset_follows_counter_and_wraps() {
    // The k-th start transition uses offset -40 + (k mod 20) * 10, no
    // matter which game starts: alternate two playerless games and read
    // the offset back from the arena command.
    let mut s = Store::new();
    s.add_game(&"G1".to_string());
    s.add_game(&"G2".to_string());
    for k in 1..=45u32 {
        let name = if k % 2 == 0 { "G2" } else { "G1" }.to_string();
        let cmds = s.update_game(&name);
        assert_eq!(cmds.len(), 1);
        let offset = -40 + (k % 20) as i32 * 10;
        assert_eq!(
            cmds[0],
            format!("fill 25 {} -25 -25 {} 25 bedrock hollow", offset, offset + 10)
        );
        // Stop it again so the next toggle is a start.
        let stop = s.update_game(&name);
        assert!(stop.is_empty());
    }
}

#[test]
fn update_nonexistent_game_emits_nothing() {
    let mut s = Store::new();
    s.add_game(&"Arena1".to_string());
    let cmds = s.update_game(&"Other".to_string());
    assert!(cmds.is_empty());
    assert!(!s.snapshot()[0].running);
}

#[test]
fn stop_with_empty_rosters_emits_nothing_but_flips_flag() {
    let mut s = Store::new();
    s.add_game(&"Arena1".to_string());
    let start = s.update_game(&"Arena1".to_string());
    assert_eq!(start.len(), 1);
    assert!(s.snapshot()[0].running);
    let stop = s.update_game(&"Arena1".to_string());
    assert!(stop.is_empty());
    assert!(!s.snapshot()[0].running);
}
