use snake_core::game::Game;
use snake_core::grid::Direction;
use snake_core::grid::Position;
use snake_core::grid::in_bounds;

fn pos(x: i32, y: i32) -> Position {
    Position { x, y }
}

#[test]
fn opposite_is_involutive_for_all_directions() {
    assert_eq!(Direction::Left.opposite(), Direction::Right);
    assert_eq!(Direction::Right.opposite(), Direction::Left);
    assert_eq!(Direction::Up.opposite(), Direction::Down);
    assert_eq!(Direction::Down.opposite(), Direction::Up);
    for d in [Direction::Left, Direction::Right, Direction::Up, Direction::Down] {
        assert_eq!(d.opposite().opposite(), d);
    }
}

#[test]
fn bounds_cover_the_arena_edges() {
    assert!(in_bounds(pos(0, 0)));
    assert!(in_bounds(pos(9, 9)));
    assert!(in_bounds(pos(9, 0)));
    assert!(!in_bounds(pos(10, 0)));
    assert!(!in_bounds(pos(0, 10)));
    assert!(!in_bounds(pos(-1, 0)));
    assert!(!in_bounds(pos(0, -1)));
}

#[test]
fn set_direction_rejects_only_the_reverse() {
    let mut g = Game::new();
    assert_eq!(g.direction, Direction::Up);
    g.set_direction(Direction::Down);
    assert_eq!(g.direction, Direction::Up);
    g.set_direction(Direction::Left);
    assert_eq!(g.direction, Direction::Left);
    g.set_direction(Direction::Right);
    assert_eq!(g.direction, Direction::Left);
    g.set_direction(Direction::Down);
    assert_eq!(g.direction, Direction::Down);
}

#[test]
fn advance_moves_head_one_cell_each_direction() {
    for (d, expected) in [
        (Direction::Left, pos(2, 3)),
        (Direction::Right, pos(4, 3)),
        (Direction::Up, pos(3, 4)),
        (Direction::Down, pos(3, 2)),
    ] {
        let mut g = Game::new();
        g.direction = d;
        g.advance();
        assert_eq!(g.segments[0], expected);
    }
}

#[test]
fn advance_shifts_body_from_snapshot() {
    let mut g = Game::new();
    g.segments = vec![pos(3, 3), pos(3, 2), pos(4, 2)];
    g.advance();
    assert_eq!(g.segments, vec![pos(3, 4), pos(3, 3), pos(3, 2)]);
    assert_eq!(g.last_tail_position, Some(pos(4, 2)));
    assert!(!g.pending_game_over);
}

#[test]
fn boundary_exit_raises_game_over() {
    let mut g = Game::new();
    g.segments = vec![pos(0, 5), pos(1, 5)];
    g.set_direction(Direction::Left);
    g.advance();
    assert_eq!(g.segments[0], pos(-1, 5));
    assert!(g.pending_game_over);
}

#[test]
fn self_collision_raises_game_over() {
    // the head moves into the cell the tail is about to vacate: still
    // flagged, because the check runs against the pre-move snapshot
    let mut g = Game::new();
    g.segments = vec![pos(3, 3), pos(3, 4)];
    g.advance();
    assert_eq!(g.segments[0], pos(3, 4));
    assert!(g.pending_game_over);
}

#[test]
fn collision_with_second_segment_cell_raises_game_over() {
    let mut g = Game::new();
    g.segments = vec![pos(3, 3), pos(3, 2), pos(4, 2), pos(4, 3)];
    g.direction = Direction::Right;
    g.advance();
    assert_eq!(g.segments[0], pos(4, 3));
    assert!(g.pending_game_over);
}

#[test]
fn spawned_food_avoids_head_and_stays_on_arena() {
    let mut g = Game::new();
    for _ in 0..200 {
        let spawned = g.spawn_if_absent();
        assert!(spawned.x >= 0 && spawned.x < 10);
        assert!(spawned.y >= 0 && spawned.y < 10);
        assert_ne!(spawned, pos(3, 3));
    }
    assert_eq!(g.foods.len(), 200);
}

#[test]
fn eating_food_grows_by_one_segment() {
    let mut g = Game::new();
    g.foods = vec![pos(3, 4)];
    g.advance();
    assert_eq!(g.segments[0], pos(3, 4));
    assert_eq!(g.last_tail_position, Some(pos(3, 3)));
    g.check_eating();
    assert_eq!(g.pending_growth, 1);
    assert!(g.foods.is_empty());
    g.apply_growth();
    assert_eq!(g.segments, vec![pos(3, 4), pos(3, 3), pos(3, 3)]);
    assert_eq!(g.pending_growth, 0);
    assert_eq!(g.last_tail_position, None);
}

#[test]
fn food_elsewhere_is_not_eaten() {
    let mut g = Game::new();
    g.foods = vec![pos(7, 7)];
    g.advance();
    g.check_eating();
    assert_eq!(g.pending_growth, 0);
    assert_eq!(g.foods, vec![pos(7, 7)]);
    g.apply_growth();
    assert_eq!(g.segments.len(), 2);
}

#[test]
fn game_over_resets_to_start() {
    let mut g = Game::new();
    g.segments = vec![pos(5, 5), pos(5, 4), pos(5, 3)];
    g.foods = vec![pos(1, 1), pos(2, 2)];
    g.last_tail_position = Some(pos(5, 2));
    g.pending_game_over = true;
    g.handle_game_over();
    assert_eq!(g.segments, vec![pos(3, 3), pos(3, 3)]);
    assert_eq!(g.direction, Direction::Up);
    assert!(g.foods.is_empty());
    assert_eq!(g.last_tail_position, None);
    assert_eq!(g.pending_growth, 0);
    assert!(!g.pending_game_over);
}

#[test]
fn no_game_over_leaves_state_alone() {
    let mut g = Game::new();
    g.segments = vec![pos(5, 5), pos(5, 4)];
    g.foods = vec![pos(1, 1)];
    g.handle_game_over();
    assert_eq!(g.segments, vec![pos(5, 5), pos(5, 4)]);
    assert_eq!(g.foods, vec![pos(1, 1)]);
}

#[test]
fn startup_advance_reaches_the_next_cell() {
    // grid 10x10, head at (3,3) facing up, one segment behind at (3,3)
    let mut g = Game::new();
    g.advance();
    assert_eq!(g.segments[0], pos(3, 4));
    assert_eq!(g.segments[1], pos(3, 3));
    assert!(!g.pending_game_over);
}

#[test]
fn boundary_exit_still_shifts_and_records_tail() {
    let mut g = Game::new();
    g.segments = vec![pos(0, 5), pos(1, 5)];
    g.direction = Direction::Left;
    g.advance();
    assert_eq!(g.segments[0], pos(-1, 5));
    assert!(g.pending_game_over);
    assert_eq!(g.segments[1], pos(0, 5));
    assert_eq!(g.last_tail_position, Some(pos(1, 5)));
}

#[test]
fn duplicated_food_grows_twice_at_the_same_cell() {
    let mut g = Game::new();
    g.foods = vec![pos(3, 4), pos(3, 4)];
    g.advance();
    g.check_eating();
    assert_eq!(g.pending_growth, 2);
    assert!(g.foods.is_empty());
    g.apply_growth();
    assert_eq!(g.segments, vec![pos(3, 4), pos(3, 3), pos(3, 3), pos(3, 3)]);
}

#[test]
fn movement_tick_runs_the_whole_pipeline() {
    let mut g = Game::new();
    g.foods = vec![pos(3, 4)];
    g.movement_tick(None);
    assert_eq!(g.segments, vec![pos(3, 4), pos(3, 3), pos(3, 3)]);
    g.movement_tick(Some(Direction::Left));
    assert_eq!(g.segments[0], pos(2, 4));
    assert_eq!(g.direction, Direction::Left);
}

#[test]
fn movement_tick_resets_in_the_same_tick_on_game_over() {
    let mut g = Game::new();
    g.segments = vec![pos(0, 5), pos(1, 5)];
    g.direction = Direction::Left;
    g.movement_tick(None);
    assert_eq!(g.segments, vec![pos(3, 3), pos(3, 3)]);
    assert_eq!(g.direction, Direction::Up);
    assert!(g.foods.is_empty());
    assert!(!g.pending_game_over);
}
