use snake_game::board::{holds, is_adjacent, is_on_board, offset, offset_cell, BOARD_SIZE};
use snake_game::direction::Direction;
use snake_game::game::Game;
use snake_game::state::{Status, StopReason};

fn game(snake: &[(u16, u16)], direction: Direction, apple: (u16, u16)) -> Game {
    Game::from_parts(snake.to_vec(), direction, apple, 200).expect("a state the game can reach")
}

#[test]
fn vectors_of_the_four_headings() {
    assert_eq!(Direction::Up.get_vec2(), (0, -1));
    assert_eq!(Direction::Down.get_vec2(), (0, 1));
    assert_eq!(Direction::Left.get_vec2(), (-1, 0));
    assert_eq!(Direction::Right.get_vec2(), (1, 0));
}

#[test]
fn opposites_of_the_four_headings() {
    assert_eq!(Direction::Up.opposite(), Direction::Down);
    assert_eq!(Direction::Down.opposite(), Direction::Up);
    assert_eq!(Direction::Left.opposite(), Direction::Right);
    assert_eq!(Direction::Right.opposite(), Direction::Left);
}

#[test]
fn opposite_twice_is_the_heading_and_negates_the_vector() {
    for d in [Direction::Up, Direction::Down, Direction::Left, Direction::Right] {
        assert_eq!(d.opposite().opposite(), d);
        assert_ne!(d.opposite(), d);
        let (x, y) = d.get_vec2();
        assert_eq!(d.opposite().get_vec2(), (-x, -y));
    }
}

#[test]
fn offset_saturates_at_both_ends() {
    assert_eq!(offset(0, -1), 0);
    assert_eq!(offset(5, -1), 4);
    assert_eq!(offset(5, 1), 6);
    assert_eq!(offset(5, 0), 5);
    assert_eq!(offset(u16::MAX, 1), u16::MAX);
    assert_eq!(offset(u16::MAX, -1), u16::MAX - 1);
    assert_eq!(offset(3, -7), 0);
    assert_eq!(offset_cell((0, 19), (-1, 1)), (0, 20));
}

#[test]
fn board_and_neighbours() {
    assert_eq!(BOARD_SIZE, 20);
    assert!(is_on_board((0, 0)));
    assert!(is_on_board((19, 19)));
    assert!(!is_on_board((20, 0)));
    assert!(!is_on_board((0, 20)));
    assert!(is_adjacent((5, 5), (5, 6)));
    assert!(is_adjacent((5, 5), (4, 5)));
    assert!(!is_adjacent((5, 5), (5, 5)));
    assert!(!is_adjacent((5, 5), (6, 6)));
    assert!(!is_adjacent((5, 5), (5, 7)));
    assert!(!is_adjacent((0, u16::MAX), (0, 0)));
    assert!(holds(&vec![(1, 2), (3, 4)], (3, 4)));
    assert!(!holds(&vec![(1, 2), (3, 4)], (4, 3)));
    assert!(!holds(&vec![], (0, 0)));
}

#[test]
fn single_cell_snake_may_not_reverse() {
    let g = game(&[(5, 5)], Direction::Right, (0, 0));
    assert!(!g.is_valid_turn(Direction::Left));
    assert!(g.is_valid_turn(Direction::Up));
    assert!(g.is_valid_turn(Direction::Down));
    assert!(g.is_valid_turn(Direction::Right));
}

#[test]
fn single_cell_snake_every_heading() {
    for d in [Direction::Up, Direction::Down, Direction::Left, Direction::Right] {
        let g = game(&[(5, 5)], d, (0, 0));
        for r in [Direction::Up, Direction::Down, Direction::Left, Direction::Right] {
            assert_eq!(g.is_valid_turn(r), r != d.opposite());
        }
    }
}

#[test]
fn longer_snake_may_not_turn_onto_its_neck() {
    // The neck lies to the right of the head, whatever the heading says.
    for heading in [Direction::Up, Direction::Down, Direction::Left, Direction::Right] {
        let g = game(&[(5, 5), (6, 5), (7, 5)], heading, (0, 0));
        assert!(!g.is_valid_turn(Direction::Right));
        assert!(g.is_valid_turn(Direction::Left));
        assert!(g.is_valid_turn(Direction::Up));
        assert!(g.is_valid_turn(Direction::Down));
    }
    let g = game(&[(5, 5), (5, 4)], Direction::Down, (0, 0));
    assert!(!g.is_valid_turn(Direction::Up));
    assert!(g.is_valid_turn(Direction::Down));
}

#[test]
fn turn_at_the_wall_is_judged_by_the_saturated_cell() {
    // At the left wall a step to the left stays on the head, not on the neck.
    let g = game(&[(0, 5), (1, 5)], Direction::Left, (9, 9));
    assert!(g.is_valid_turn(Direction::Left));
    assert!(!g.is_valid_turn(Direction::Right));
}

#[test]
fn tick_moves_the_head_and_keeps_the_length() {
    let mut g = game(&[(5, 5), (4, 5), (3, 5)], Direction::Right, (10, 3));
    assert_eq!(g.tick(), Status::Running);
    assert_eq!(g.snake(), &vec![(6, 5), (5, 5), (4, 5)]);
    assert_eq!(g.snake().len(), 3);
    assert_eq!(g.direction(), Direction::Right);
    assert_eq!(g.apple(), (10, 3));
    assert_eq!(g.move_interval(), 200);
}

#[test]
fn tick_of_a_new_game() {
    let mut g = Game::default();
    assert_eq!(g.snake(), &vec![(10, 10)]);
    assert_eq!(g.direction(), Direction::Right);
    assert_eq!(g.apple(), (10, 6));
    assert_eq!(g.move_interval(), 200);
    assert_eq!(g.tick(), Status::Running);
    assert_eq!(g.snake(), &vec![(11, 10)]);
}

#[test]
fn tick_up_and_down_follow_the_screen() {
    let mut g = game(&[(5, 5)], Direction::Up, (0, 0));
    assert_eq!(g.tick(), Status::Running);
    assert_eq!(g.snake(), &vec![(5, 4)]);
    let mut g = game(&[(5, 5)], Direction::Down, (0, 0));
    assert_eq!(g.tick(), Status::Running);
    assert_eq!(g.snake(), &vec![(5, 6)]);
    let mut g = game(&[(5, 5)], Direction::Left, (0, 0));
    assert_eq!(g.tick(), Status::Running);
    assert_eq!(g.snake(), &vec![(4, 5)]);
}

#[test]
fn wall_collision_ends_the_run_and_changes_nothing() {
    let mut g = game(&[(0, 5)], Direction::Left, (10, 3));
    assert_eq!(g.tick(), Status::Stopped(StopReason::Collision));
    assert_eq!(g.snake(), &vec![(0, 5)]);
    assert_eq!(g.direction(), Direction::Left);
    assert_eq!(g.apple(), (10, 3));
    assert_eq!(g.move_interval(), 200);
}

#[test]
fn every_wall_stops_the_snake() {
    let cases = [
        ((0, 7), Direction::Left),
        ((19, 7), Direction::Right),
        ((7, 0), Direction::Up),
        ((7, 19), Direction::Down),
    ];
    for (head, heading) in cases {
        let mut g = game(&[head, offset_cell(head, heading.opposite().get_vec2())], heading, (3, 3));
        let before = g.snake().clone();
        assert_eq!(g.tick(), Status::Stopped(StopReason::Collision));
        assert_eq!(g.snake(), &before);
    }
}

#[test]
fn along_the_wall_is_no_collision() {
    let mut g = game(&[(0, 5)], Direction::Down, (3, 3));
    assert_eq!(g.tick(), Status::Running);
    assert_eq!(g.snake(), &vec![(0, 6)]);
    let mut g = game(&[(19, 19)], Direction::Left, (3, 3));
    assert_eq!(g.tick(), Status::Running);
    assert_eq!(g.snake(), &vec![(18, 19)]);
}

#[test]
fn self_collision_ends_the_run() {
    let mut g = game(
        &[(5, 5), (6, 5), (6, 6), (5, 6), (4, 6), (4, 5)],
        Direction::Right,
        (10, 3),
    );
    assert_eq!(g.tick(), Status::Stopped(StopReason::Collision));
    // The tail has left its cell before the head was tested.
    assert_eq!(g.snake(), &vec![(5, 5), (6, 5), (6, 6), (5, 6), (4, 6)]);
}

#[test]
fn head_may_follow_the_leaving_tail() {
    let mut g = game(&[(5, 5), (5, 6), (6, 6), (6, 5)], Direction::Right, (10, 3));
    assert_eq!(g.tick(), Status::Running);
    assert_eq!(g.snake(), &vec![(6, 5), (5, 5), (5, 6), (6, 6)]);
}

#[test]
fn snake_stays_on_the_board_without_repeats_while_it_runs() {
    let mut g = Game::default();
    let turns = [
        Direction::Right,
        Direction::Down,
        Direction::Left,
        Direction::Left,
        Direction::Up,
        Direction::Up,
        Direction::Right,
    ];
    for round in 0..60 {
        let wanted = turns[round % turns.len()];
        if g.is_valid_turn(wanted) {
            let snake = g.snake().clone();
            g = Game::from_parts(snake, wanted, g.apple(), g.move_interval()).unwrap();
        }
        if g.tick() != Status::Running {
            break;
        }
        let snake = g.snake();
        assert!(!snake.is_empty());
        for (i, c) in snake.iter().enumerate() {
            assert!(is_on_board(*c));
            assert!(!snake[..i].contains(c));
        }
    }
}
