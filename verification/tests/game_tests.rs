use std::collections::VecDeque;

use snake::board::HEIGHT;
use snake::board::Point;
use snake::board::WIDTH;
use snake::game::Direction;
use snake::game::Game;

fn body_of(points: &[(i32, i32)]) -> VecDeque<Point> {
    let mut body = VecDeque::new();
    for &(x, y) in points {
        body.push_back(Point { x, y });
    }
    body
}

fn game_with(points: &[(i32, i32)], food: (i32, i32), direction: Direction) -> Game {
    Game {
        snake: body_of(points),
        food: Point { x: food.0, y: food.1 },
        direction,
        score: (points.len() - 1) as u32,
        game_over: false,
    }
}

#[test]
fn new_game_starts_at_center() {
    let g = Game::new();
    assert_eq!(g.snake.len(), 1);
    assert_eq!(g.snake[0], Point { x: 5, y: 5 });
    assert_eq!(g.direction, Direction::Right);
    assert_eq!(g.score, 0);
    assert!(!g.game_over);
    assert!(0 <= g.food.x && g.food.x < WIDTH);
    assert!(0 <= g.food.y && g.food.y < HEIGHT);
    assert_ne!(g.food, Point { x: 5, y: 5 });
    assert!(g.well_formed());
}

#[test]
fn scenario_moves_right_dropping_tail() {
    let mut g = game_with(&[(5, 5)], (0, 0), Direction::Right);
    g.update();
    assert!(!g.game_over);
    assert_eq!(g.snake, body_of(&[(6, 5)]));
    assert_eq!(g.score, 0);
    assert_eq!(g.food, Point { x: 0, y: 0 });
    assert!(g.well_formed());
}

#[test]
fn scenario_wall_exit_ends_game() {
    let mut g = game_with(&[(0, 5)], (9, 9), Direction::Left);
    g.update();
    assert!(g.game_over);
    assert_eq!(g.score, 0);
    assert_eq!(g.snake, body_of(&[(0, 5)]));
    assert_eq!(g.food, Point { x: 9, y: 9 });
}

#[test]
fn scenario_reversal_rejected_then_moves() {
    let mut g = game_with(&[(5, 5), (6, 5), (7, 5)], (6, 5), Direction::Right);
    g.handle_input("a");
    assert_eq!(g.direction, Direction::Right);
    g.update();
    assert!(!g.game_over);
    assert_eq!(g.snake, body_of(&[(6, 5), (7, 5), (8, 5)]));
    assert_eq!(g.food, Point { x: 6, y: 5 });
    assert_eq!(g.score, 2);
}

#[test]
fn eating_grows_and_scores() {
    let mut g = game_with(&[(5, 5)], (6, 5), Direction::Right);
    g.update();
    assert!(!g.game_over);
    assert_eq!(g.snake, body_of(&[(5, 5), (6, 5)]));
    assert_eq!(g.score, 1);
    assert!(0 <= g.food.x && g.food.x < WIDTH);
    assert!(0 <= g.food.y && g.food.y < HEIGHT);
    for p in g.snake.iter() {
        assert_ne!(g.food, *p);
    }
    assert!(g.well_formed());
}

#[test]
fn self_collision_ends_game() {
    let mut g = game_with(&[(4, 5), (5, 5), (5, 6), (4, 6)], (9, 9), Direction::Up);
    g.update();
    assert!(g.game_over);
    assert_eq!(g.snake, body_of(&[(4, 5), (5, 5), (5, 6), (4, 6)]));
    assert_eq!(g.score, 3);
    assert_eq!(g.food, Point { x: 9, y: 9 });
}

#[test]
fn update_after_game_over_is_noop() {
    let mut g = game_with(&[(0, 5)], (9, 9), Direction::Left);
    g.update();
    assert!(g.game_over);
    let snake = g.snake.clone();
    let food = g.food;
    let direction = g.direction;
    let score = g.score;
    for _ in 0..5 {
        g.update();
        assert_eq!(g.snake, snake);
        assert_eq!(g.food, food);
        assert_eq!(g.direction, direction);
        assert_eq!(g.score, score);
        assert!(g.game_over);
    }
}

#[test]
fn reversal_blocked_for_each_direction() {
    let cases = [
        (Direction::Up, "s"),
        (Direction::Down, "w"),
        (Direction::Left, "d"),
        (Direction::Right, "a"),
    ];
    for &(dir, key) in cases.iter() {
        let mut g = game_with(&[(5, 5)], (0, 0), dir);
        g.handle_input(key);
        assert_eq!(g.direction, dir);
    }
}

#[test]
fn input_selects_each_direction() {
    let mut g = game_with(&[(5, 5)], (0, 0), Direction::Right);
    g.handle_input("w");
    assert_eq!(g.direction, Direction::Up);
    g.handle_input("a");
    assert_eq!(g.direction, Direction::Left);
    g.handle_input("s");
    assert_eq!(g.direction, Direction::Down);
    g.handle_input("d");
    assert_eq!(g.direction, Direction::Right);
}

#[test]
fn unrecognized_input_is_ignored() {
    let mut g = game_with(&[(5, 5)], (0, 0), Direction::Up);
    for cmd in ["", "x", "ww", "W", "up", "q"] {
        g.handle_input(cmd);
        assert_eq!(g.direction, Direction::Up);
    }
}

#[test]
fn input_changes_nothing_but_direction() {
    let mut g = game_with(&[(5, 5), (6, 5)], (3, 3), Direction::Right);
    g.handle_input("w");
    assert_eq!(g.snake, body_of(&[(5, 5), (6, 5)]));
    assert_eq!(g.food, Point { x: 3, y: 3 });
    assert_eq!(g.score, 1);
    assert!(!g.game_over);
}

#[test]
fn spawn_food_avoids_snake() {
    let mut g = game_with(&[(0, 0), (1, 0), (2, 0), (3, 0)], (0, 0), Direction::Right);
    for _ in 0..25 {
        g.spawn_food();
        assert!(0 <= g.food.x && g.food.x < WIDTH);
        assert!(0 <= g.food.y && g.food.y < HEIGHT);
        for p in g.snake.iter() {
            assert_ne!(g.food, *p);
        }
        assert_eq!(g.snake, body_of(&[(0, 0), (1, 0), (2, 0), (3, 0)]));
        assert_eq!(g.score, 3);
        assert!(!g.game_over);
    }
}

#[test]
fn walk_around_keeps_invariants() {
    let mut g = Game::new();
    for cmd in ["d", "s", "a", "w", "d", "d", "s", "s", "a", "a"] {
        g.handle_input(cmd);
        g.update();
        assert!(g.well_formed());
        if g.game_over {
            break;
        }
    }
}

#[test]
fn well_formed_rejects_broken_states() {
    let empty = Game {
        snake: VecDeque::new(),
        food: Point { x: 0, y: 0 },
        direction: Direction::Right,
        score: 0,
        game_over: false,
    };
    assert!(!empty.well_formed());

    let duplicated = game_with(&[(5, 5), (6, 5), (5, 5)], (0, 0), Direction::Right);
    assert!(!duplicated.well_formed());

    let outside = game_with(&[(5, 5), (20, 5)], (0, 0), Direction::Right);
    assert!(!outside.well_formed());

    let mut wrong_score = game_with(&[(5, 5)], (0, 0), Direction::Right);
    wrong_score.score = 7;
    assert!(!wrong_score.well_formed());

    let fine = game_with(&[(5, 5), (6, 5)], (0, 0), Direction::Right);
    assert!(fine.well_formed());
}
