//! RetroAchievements helper tests.

use rom_patcher::ra::{game_url, parse_game_id_response};

#[test]
fn test_game_url() {
    assert_eq!(game_url(12345), "https://retroachievements.org/game/12345");
    assert_eq!(game_url(0), "https://retroachievements.org/game/0");
    assert_eq!(
        game_url(u32::MAX),
        "https://retroachievements.org/game/4294967295"
    );
}

#[test]
fn test_parse_game_id_success() {
    let json = "{\"Success\":true,\"GameID\":12345}";
    assert_eq!(parse_game_id_response(json), Ok(Some(12345)));
}

#[test]
fn test_parse_game_id_with_whitespace() {
    let json = "{\"Success\":true,\"GameID\": 7}";
    assert_eq!(parse_game_id_response(json), Ok(Some(7)));
}

#[test]
fn test_parse_game_id_failure_flag() {
    let json = "{\"Success\":false,\"GameID\":12345}";
    assert_eq!(parse_game_id_response(json), Ok(None));
}

#[test]
fn test_parse_game_id_zero_is_none() {
    let json = "{\"Success\":true,\"GameID\":0}";
    assert_eq!(parse_game_id_response(json), Ok(None));
}

#[test]
fn test_parse_game_id_missing_field() {
    let json = "{\"Success\":true}";
    assert_eq!(parse_game_id_response(json), Ok(None));
}

#[test]
fn test_parse_game_id_overflowing_value() {
    let json = "{\"Success\":true,\"GameID\":99999999999999}";
    assert_eq!(parse_game_id_response(json), Ok(None));
}
