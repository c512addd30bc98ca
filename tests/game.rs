use snake_core::game::{ends_game, frame_delay_ms, resolve_direction};
use snake_core::Direction;

#[test]
fn direction_falls_back_to_last() {
    assert_eq!(Some(Direction::Up), resolve_direction(Some(Direction::Left), Some(Direction::Up)));
    assert_eq!(Some(Direction::Left), resolve_direction(Some(Direction::Left), None));
    assert_eq!(None, resolve_direction(None, None));
}

#[test]
fn game_ends_only_on_refused_given_direction() {
    assert!(ends_game(false, Some(Direction::Down)));
    assert!(!ends_game(false, None));
    assert!(!ends_game(true, Some(Direction::Down)));
}

#[test]
fn frame_delay_shrinks_to_a_floor() {
    assert_eq!(200, frame_delay_ms(0));
    assert_eq!(180, frame_delay_ms(10));
    assert_eq!(152, frame_delay_ms(24));
    assert_eq!(150, frame_delay_ms(25));
    assert_eq!(150, frame_delay_ms(u32::MAX));
}
