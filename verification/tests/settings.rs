use std::collections::HashSet;

use oxidar_snake::config::{
    default_chaos_interval_ticks, default_health_port, generate_palette, Config, GameConfig, ServerConfig,
};

#[test]
fn generate_palette_produces_unique_colors() {
    let palette = generate_palette(128);
    let unique: HashSet<&String> = palette.iter().collect();
    assert_eq!(unique.len(), 128);
}

#[test]
fn generate_palette_produces_valid_hex() {
    let palette = generate_palette(128);
    for color in &palette {
        assert_eq!(color.len(), 7, "color must be 7 chars: {color}");
        assert!(color.starts_with('#'), "color must start with #: {color}");
        let hex_chars = &color[1..];
        assert!(
            hex_chars.chars().all(|c| c.is_ascii_hexdigit() && !c.is_ascii_lowercase()),
            "color must be uppercase hex: {color}"
        );
    }
}

#[test]
fn palette_starts_at_red_and_walks_the_hue_circle() {
    assert_eq!(generate_palette(1), vec!["#E23636".to_string()]);
    assert_eq!(
        generate_palette(6),
        vec!["#E23636", "#E2E236", "#36E236", "#36E2E2", "#3636E2", "#E236E2"]
    );
    assert_eq!(generate_palette(4), vec!["#E23636", "#8CE236", "#36E2E2", "#8C36E2"]);
    assert!(generate_palette(0).is_empty());
}

#[test]
fn defaults_are_as_documented() {
    assert_eq!(default_health_port(), 9002);
    assert_eq!(default_chaos_interval_ticks(), 10);
}

fn sample(palette: Vec<String>) -> Config {
    Config {
        game: GameConfig {
            board_width: 64,
            board_height: 32,
            max_players: 3,
            tick_ms: 200,
            snake_start_length: 4,
            snake_win_length: 16,
            disconnect_timeout_s: 60,
            leaderboard_interval_ticks: 25,
            chaos_interval_ticks: 10,
            palette,
        },
        server: ServerConfig { host: "0.0.0.0".into(), port: 9001, health_port: 9002 },
    }
}

#[test]
fn empty_palette_is_filled_with_one_colour_per_player() {
    let c = sample(vec![]).fill_palette();
    assert_eq!(c.game.palette, generate_palette(3));
    let given = sample(vec!["#FF0000".into()]).fill_palette();
    assert_eq!(given.game.palette, vec!["#FF0000".to_string()]);
    assert_eq!(given.server.port, 9001);
}
