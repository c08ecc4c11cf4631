use rangoon::{cell_rect, AccessError, Color, Direction, Position, Rect, Snake, Surface};

const SPARE: Position = Position(1, 1);

fn surface() -> Surface {
    Surface { width: 300, height: 300 }
}

fn game(food_at: Position) -> Snake {
    Snake::new(surface(), food_at)
}

/// Runs frames that each make a tick fall due.
fn tick(g: &mut Snake, after_reset: Position, after_meal: Position) -> Vec<Rect> {
    let delta = if g.time() == 0 { 101 } else { 100 };
    let rects = g.run(delta, after_reset, after_meal).unwrap();
    assert_eq!(g.time(), 1);
    rects
}

fn sorted(mut trail: Vec<(Position, i32)>) -> Vec<(Position, i32)> {
    trail.sort_by_key(|(at, ttl)| (at.0, at.1, *ttl));
    trail
}

fn keyed(mut rects: Vec<Rect>) -> Vec<Rect> {
    rects.sort_by_key(|r| (r.x, r.y, r.width, r.height, r.color.name()));
    rects
}

#[test]
fn new_game_has_head_in_the_middle_and_food() {
    let g = game(Position(3, 4));
    assert_eq!(g.head_position(), Ok(Position(15, 15)));
    assert_eq!(g.level(), Ok(1));
    assert_eq!(g.food_position(), Ok(Position(3, 4)));
    assert!(g.segments().is_empty());
}

#[test]
fn first_tick_moves_down_and_leaves_one_segment() {
    let mut g = game(Position(3, 4));
    tick(&mut g, SPARE, SPARE);
    assert_eq!(g.head_position(), Ok(Position(15, 16)));
    assert_eq!(g.segments(), vec![(Position(15, 15), 1)]);
    assert_eq!(g.level(), Ok(1));
    assert_eq!(g.food_position(), Ok(Position(3, 4)));
}

#[test]
fn segment_disappears_after_one_further_tick() {
    let mut g = game(Position(3, 4));
    tick(&mut g, SPARE, SPARE);
    tick(&mut g, SPARE, SPARE);
    assert_eq!(g.head_position(), Ok(Position(15, 17)));
    assert_eq!(g.segments(), vec![(Position(15, 16), 1)]);
}

#[test]
fn frame_without_tick_moves_nothing() {
    let mut g = game(Position(3, 4));
    let rects = g.run(100, SPARE, SPARE).unwrap();
    assert_eq!(g.time(), 100);
    assert_eq!(g.head_position(), Ok(Position(15, 15)));
    assert!(g.segments().is_empty());
    assert_eq!(rects.len(), 2);
    g.run(1, SPARE, SPARE).unwrap();
    assert_eq!(g.time(), 1);
    assert_eq!(g.head_position(), Ok(Position(15, 16)));
}

#[test]
fn each_direction_steps_one_cell() {
    let mut g = game(Position(3, 4));
    g.key_down(68);
    tick(&mut g, SPARE, SPARE);
    assert_eq!(g.head_position(), Ok(Position(16, 15)));
    g.key_down(87);
    tick(&mut g, SPARE, SPARE);
    assert_eq!(g.head_position(), Ok(Position(16, 14)));
    g.key_down(65);
    tick(&mut g, SPARE, SPARE);
    assert_eq!(g.head_position(), Ok(Position(15, 14)));
    g.key_down(83);
    tick(&mut g, SPARE, SPARE);
    assert_eq!(g.head_position(), Ok(Position(15, 15)));
}

#[test]
fn far_edge_is_on_the_grid_and_beyond_it_resets() {
    let mut g = game(Position(3, 4));
    for _ in 0..15 {
        tick(&mut g, Position(7, 8), SPARE);
    }
    assert_eq!(g.head_position(), Ok(Position(15, 30)));
    assert_eq!(g.food_position(), Ok(Position(3, 4)));
    tick(&mut g, Position(7, 8), SPARE);
    assert_eq!(g.head_position(), Ok(Position(15, 15)));
    assert_eq!(g.food_position(), Ok(Position(7, 8)));
    assert!(g.segments().is_empty());
    assert_eq!(g.direction(), Direction::Down);
    assert_eq!(g.level(), Ok(1));
}

#[test]
fn near_edge_resets_below_zero() {
    let mut g = game(Position(3, 4));
    g.key_down(65);
    for _ in 0..15 {
        tick(&mut g, Position(7, 8), SPARE);
    }
    assert_eq!(g.head_position(), Ok(Position(0, 15)));
    tick(&mut g, Position(7, 8), SPARE);
    assert_eq!(g.head_position(), Ok(Position(15, 15)));
    assert_eq!(g.food_position(), Ok(Position(7, 8)));
    assert!(g.segments().is_empty());
    assert_eq!(g.direction(), Direction::Left);
}

#[test]
fn eating_raises_level_and_moves_food() {
    let mut g = game(Position(15, 16));
    tick(&mut g, SPARE, Position(20, 21));
    assert_eq!(g.head_position(), Ok(Position(15, 16)));
    assert_eq!(g.level(), Ok(2));
    assert_eq!(g.food_position(), Ok(Position(20, 21)));
    assert_eq!(g.segments(), vec![(Position(15, 15), 1)]);
    tick(&mut g, SPARE, SPARE);
    assert_eq!(g.level(), Ok(2));
    assert_eq!(g.segments(), vec![(Position(15, 16), 2)]);
    tick(&mut g, SPARE, SPARE);
    assert_eq!(
        sorted(g.segments()),
        vec![(Position(15, 16), 1), (Position(15, 17), 2)]
    );
}

#[test]
fn eat_system_alone_leaves_a_hungry_head_alone() {
    let mut g = game(Position(3, 4));
    assert_eq!(g.eat_system(Position(9, 9)), Ok(()));
    assert_eq!(g.level(), Ok(1));
    assert_eq!(g.food_position(), Ok(Position(3, 4)));
}

#[test]
fn eat_system_feeds_a_head_on_the_food() {
    let mut g = game(Position(15, 15));
    assert_eq!(g.eat_system(Position(9, 9)), Ok(()));
    assert_eq!(g.level(), Ok(2));
    assert_eq!(g.food_position(), Ok(Position(9, 9)));
    assert_eq!(g.head_position(), Ok(Position(15, 15)));
}

#[test]
fn biting_the_trail_resets_and_keeps_level_and_direction() {
    let mut g = game(Position(15, 16));
    tick(&mut g, SPARE, Position(15, 17));
    tick(&mut g, SPARE, Position(15, 18));
    tick(&mut g, SPARE, Position(15, 19));
    tick(&mut g, SPARE, Position(2, 2));
    assert_eq!(g.level(), Ok(5));
    assert_eq!(g.head_position(), Ok(Position(15, 19)));
    assert_eq!(
        sorted(g.segments()),
        vec![(Position(15, 17), 2), (Position(15, 18), 4)]
    );
    g.key_down(68);
    tick(&mut g, SPARE, SPARE);
    g.key_down(87);
    tick(&mut g, SPARE, SPARE);
    assert_eq!(g.head_position(), Ok(Position(16, 18)));
    assert_eq!(
        sorted(g.segments()),
        vec![(Position(15, 18), 2), (Position(15, 19), 4), (Position(16, 19), 5)]
    );
    g.key_down(65);
    tick(&mut g, Position(7, 8), SPARE);
    assert_eq!(g.head_position(), Ok(Position(15, 15)));
    assert_eq!(g.food_position(), Ok(Position(7, 8)));
    assert!(g.segments().is_empty());
    assert_eq!(g.level(), Ok(5));
    assert_eq!(g.direction(), Direction::Left);
}

#[test]
fn expiring_segment_is_no_obstacle() {
    // Level 3: the head circles back onto a segment on its last tick.
    let mut g = game(Position(15, 16));
    tick(&mut g, SPARE, Position(15, 17));
    tick(&mut g, SPARE, Position(2, 2));
    assert_eq!(g.level(), Ok(3));
    assert_eq!(g.segments(), vec![(Position(15, 16), 2)]);
    tick(&mut g, SPARE, SPARE);
    g.key_down(68);
    tick(&mut g, SPARE, SPARE);
    g.key_down(87);
    tick(&mut g, SPARE, SPARE);
    assert_eq!(g.head_position(), Ok(Position(16, 17)));
    assert_eq!(
        sorted(g.segments()),
        vec![(Position(15, 17), 1), (Position(15, 18), 2), (Position(16, 18), 3)]
    );
    g.key_down(65);
    tick(&mut g, Position(7, 8), SPARE);
    assert_eq!(g.head_position(), Ok(Position(15, 17)));
    assert_eq!(g.food_position(), Ok(Position(2, 2)));
    assert_eq!(
        sorted(g.segments()),
        vec![(Position(15, 18), 1), (Position(16, 17), 3), (Position(16, 18), 2)]
    );
}

#[test]
fn reset_food_under_the_head_is_eaten_in_the_same_tick() {
    let mut g = game(Position(3, 4));
    for _ in 0..15 {
        tick(&mut g, SPARE, SPARE);
    }
    tick(&mut g, Position(15, 15), Position(9, 9));
    assert_eq!(g.head_position(), Ok(Position(15, 15)));
    assert_eq!(g.level(), Ok(2));
    assert_eq!(g.food_position(), Ok(Position(9, 9)));
}

#[test]
fn reset_empties_the_world_but_for_head_and_food() {
    let mut g = game(Position(3, 4));
    tick(&mut g, SPARE, SPARE);
    g.key_down(65);
    assert_eq!(g.reset(Position(30, 0)), Ok(()));
    assert_eq!(g.head_position(), Ok(Position(15, 15)));
    assert_eq!(g.food_position(), Ok(Position(30, 0)));
    assert!(g.segments().is_empty());
    assert_eq!(g.render_system().len(), 2);
    assert_eq!(g.direction(), Direction::Left);
    assert_eq!(g.time(), 1);
}

#[test]
fn move_system_alone_steps_the_head() {
    let mut g = game(Position(3, 4));
    assert_eq!(g.move_snake_system(SPARE), Ok(()));
    assert_eq!(g.head_position(), Ok(Position(15, 16)));
    assert_eq!(g.segments(), vec![(Position(15, 15), 1)]);
    assert_eq!(g.time(), 0);
}

#[test]
fn render_draws_one_cell_per_entity() {
    let mut g = game(Position(3, 4));
    let first = keyed(g.render_system());
    assert_eq!(
        first,
        vec![
            Rect { x: 30, y: 40, width: 10, height: 10, color: Color::Red },
            Rect { x: 150, y: 150, width: 10, height: 10, color: Color::Green },
        ]
    );
    let rects = keyed(tick(&mut g, SPARE, SPARE));
    assert_eq!(
        rects,
        vec![
            Rect { x: 30, y: 40, width: 10, height: 10, color: Color::Red },
            Rect { x: 150, y: 150, width: 10, height: 10, color: Color::ForestGreen },
            Rect { x: 150, y: 160, width: 10, height: 10, color: Color::Green },
        ]
    );
}

#[test]
fn render_twice_draws_the_same() {
    let mut g = game(Position(3, 4));
    tick(&mut g, SPARE, SPARE);
    tick(&mut g, SPARE, SPARE);
    let a = keyed(g.render_system());
    let b = keyed(g.render_system());
    assert_eq!(a, b);
    assert_eq!(a.len(), 3);
    assert_eq!(g.head_position(), Ok(Position(15, 17)));
}

#[test]
fn cell_rect_scales_by_whole_pixels() {
    let s = Surface { width: 640, height: 95 };
    assert_eq!(
        cell_rect(&s, &Position(30, 30), Color::Red),
        Rect { x: 630, y: 90, width: 21, height: 3, color: Color::Red }
    );
    assert_eq!(
        cell_rect(&s, &Position(0, 7), Color::Green),
        Rect { x: 0, y: 21, width: 21, height: 3, color: Color::Green }
    );
    let tiny = Surface { width: 29, height: 0 };
    assert_eq!(
        cell_rect(&tiny, &Position(12, 12), Color::ForestGreen),
        Rect { x: 0, y: 0, width: 0, height: 0, color: Color::ForestGreen }
    );
}

#[test]
fn colors_have_their_names() {
    assert_eq!(Color::Green.name(), "green");
    assert_eq!(Color::ForestGreen.name(), "forestgreen");
    assert_eq!(Color::Red.name(), "red");
}

#[test]
fn grid_edges_are_on_the_grid() {
    assert!(Position(0, 0).is_on_grid());
    assert!(Position(30, 30).is_on_grid());
    assert!(!Position(31, 0).is_on_grid());
    assert!(!Position(0, -1).is_on_grid());
    assert!(Position(4, 5).same(&Position(4, 5)));
    assert!(!Position(4, 5).same(&Position(5, 4)));
}

#[test]
fn access_error_is_a_plain_value() {
    let e: Result<(), AccessError> = Err(AccessError);
    assert_eq!(e, Err(AccessError));
}
