use snake::{Direction, Food, Game, Key, Snake};
use std::collections::VecDeque;

fn game_with(cells: Vec<(i32, i32)>, direction: Direction, food: (i32, i32)) -> Game {
    let score = cells.len() as u32 - 2;
    Game {
        size: (30, 20),
        snake: Snake { body: VecDeque::from(cells), direction },
        food: Food { position: food },
        pending_direction: None,
        score,
    }
}

fn cells(game: &Game) -> Vec<(i32, i32)> {
    game.snake.body.iter().copied().collect()
}

fn on_grid(game: &Game) -> bool {
    let (x, y) = game.food.position;
    0 <= x && x < game.size.0 as i32 && 0 <= y && y < game.size.1 as i32
}

#[test]
fn new_game_starts_with_the_snake_in_place() {
    let game = Game::new((30, 20));
    assert_eq!(game.size, (30, 20));
    assert_eq!(cells(&game), vec![(5, 5), (4, 5)]);
    assert_eq!(game.snake.direction, Direction::Right);
    assert_eq!(game.pending_direction, None);
    assert_eq!(game.score, 0);
    assert!(on_grid(&game));
    assert!(!game.is_loosing());
}

#[test]
fn new_game_on_a_single_cell_puts_the_food_there() {
    let game = Game::new((1, 1));
    assert_eq!(game.food.position, (0, 0));
    assert!(game.is_loosing());
}

#[test]
fn new_game_on_a_small_grid_is_lost_from_the_start() {
    assert!(Game::new((5, 20)).is_loosing());
    assert!(Game::new((30, 5)).is_loosing());
    assert!(!Game::new((6, 6)).is_loosing());
}

#[test]
fn tick_moves_the_head_and_removes_the_tail() {
    let mut game = game_with(vec![(5, 5), (4, 5)], Direction::Right, (20, 10));
    assert!(game.update());
    assert_eq!(cells(&game), vec![(6, 5), (5, 5)]);
    assert_eq!(game.score, 0);
    assert_eq!(game.food.position, (20, 10));
    assert_eq!(game.snake.direction, Direction::Right);
}

#[test]
fn tick_past_the_right_edge_ends_the_game() {
    let mut game = game_with(vec![(29, 5), (28, 5)], Direction::Right, (0, 0));
    assert!(!game.update());
    assert_eq!(*game.snake.head(), (30, 5));
    assert!(game.snake.is_out_of_bounds(game.size));
    assert!(game.is_loosing());
}

#[test]
fn tick_past_each_other_edge_ends_the_game() {
    let mut left = game_with(vec![(0, 5), (1, 5)], Direction::Left, (9, 9));
    assert!(!left.update());
    assert_eq!(*left.snake.head(), (-1, 5));
    let mut up = game_with(vec![(5, 0), (5, 1)], Direction::Up, (9, 9));
    assert!(!up.update());
    assert_eq!(*up.snake.head(), (5, -1));
    let mut down = game_with(vec![(5, 19), (5, 18)], Direction::Down, (9, 9));
    assert!(!down.update());
    assert_eq!(*down.snake.head(), (5, 20));
}

#[test]
fn tick_along_the_edge_goes_on() {
    let mut game = game_with(vec![(29, 5), (28, 5)], Direction::Right, (0, 0));
    game.pressed(Key::Down);
    assert!(game.update());
    assert_eq!(cells(&game), vec![(29, 6), (29, 5)]);
}

#[test]
fn tick_onto_a_kept_segment_ends_the_game() {
    let mut game =
        game_with(vec![(5, 5), (4, 5), (4, 4), (5, 4), (6, 4)], Direction::Up, (20, 10));
    assert!(!game.update());
    assert_eq!(cells(&game), vec![(5, 4), (5, 5), (4, 5), (4, 4), (5, 4)]);
    assert!(game.snake.is_eating_itself());
    assert!(game.is_loosing());
    assert_eq!(game.score, 3);
}

#[test]
fn tick_onto_the_tail_ends_the_game_when_the_tail_stays() {
    let mut game = game_with(vec![(5, 5), (4, 5), (4, 4), (5, 4)], Direction::Up, (5, 4));
    assert!(!game.update());
    assert_eq!(cells(&game), vec![(5, 4), (5, 5), (4, 5), (4, 4), (5, 4)]);
    assert!(game.snake.is_eating_itself());
    assert_eq!(game.score, 3);
}

#[test]
fn tick_onto_the_tail_goes_on_when_the_tail_leaves() {
    let mut game = game_with(vec![(5, 5), (4, 5), (4, 4), (5, 4)], Direction::Up, (20, 10));
    assert!(game.update());
    assert_eq!(cells(&game), vec![(5, 4), (5, 5), (4, 5), (4, 4)]);
    assert!(!game.snake.is_eating_itself());
}

#[test]
fn tick_onto_food_grows_scores_and_draws_new_food() {
    let mut game = game_with(vec![(5, 5), (4, 5)], Direction::Right, (6, 5));
    assert!(game.update());
    assert_eq!(cells(&game), vec![(6, 5), (5, 5), (4, 5)]);
    assert_eq!(game.score, 1);
    assert!(on_grid(&game));
}

#[test]
fn tick_onto_food_after_a_turn() {
    let mut game = game_with(vec![(5, 5), (4, 5)], Direction::Right, (5, 6));
    game.pressed(Key::Down);
    assert!(game.update());
    assert_eq!(cells(&game), vec![(5, 6), (5, 5), (4, 5)]);
    assert_eq!(game.score, 1);
    assert_eq!(game.pending_direction, None);
}

#[test]
fn tick_clears_the_pending_turn() {
    let mut game = game_with(vec![(5, 5), (4, 5)], Direction::Right, (20, 10));
    game.pressed(Key::Up);
    assert!(game.update());
    assert_eq!(game.pending_direction, None);
    assert_eq!(game.snake.direction, Direction::Up);
}

#[test]
fn generate_food_changes_the_food_only() {
    let mut game = game_with(vec![(5, 5), (4, 5), (3, 5)], Direction::Right, (6, 5));
    game.pending_direction = Some(Direction::Up);
    game.generate_food();
    assert!(on_grid(&game));
    assert_eq!(cells(&game), vec![(5, 5), (4, 5), (3, 5)]);
    assert_eq!(game.snake.direction, Direction::Right);
    assert_eq!(game.pending_direction, Some(Direction::Up));
    assert_eq!(game.score, 1);
    assert_eq!(game.size, (30, 20));
}

#[test]
fn is_loosing_tells_both_ways_of_losing() {
    assert!(!game_with(vec![(5, 5), (4, 5)], Direction::Right, (0, 0)).is_loosing());
    assert!(game_with(vec![(30, 5), (29, 5)], Direction::Right, (0, 0)).is_loosing());
    assert!(game_with(vec![(5, 20), (5, 19)], Direction::Down, (0, 0)).is_loosing());
    assert!(
        game_with(vec![(5, 4), (5, 5), (4, 5), (4, 4), (5, 4)], Direction::Up, (0, 0)).is_loosing()
    );
}
