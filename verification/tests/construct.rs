use snake_game::direction::Direction;
use snake_game::game::Game;

fn parts(snake: &[(u16, u16)], apple: (u16, u16), interval: u64) -> Option<Game> {
    Game::from_parts(snake.to_vec(), Direction::Right, apple, interval)
}

#[test]
fn new_game_has_the_fixed_layout() {
    let g = Game::default();
    assert_eq!(g.snake(), &vec![(10, 10)]);
    assert_eq!(g.direction(), Direction::Right);
    assert_eq!(g.apple(), (10, 6));
    assert_eq!(g.move_interval(), 200);
    assert_eq!(g.score(), 0);
}

#[test]
fn parts_are_kept() {
    let g = Game::from_parts(vec![(3, 4), (3, 5)], Direction::Up, (7, 8), 120).unwrap();
    assert_eq!(g.snake(), &vec![(3, 4), (3, 5)]);
    assert_eq!(g.direction(), Direction::Up);
    assert_eq!(g.apple(), (7, 8));
    assert_eq!(g.move_interval(), 120);
    assert_eq!(g.score(), 1);
}

#[test]
fn snake_needs_a_cell() {
    assert!(parts(&[], (0, 0), 200).is_none());
    assert!(parts(&[(0, 0)], (0, 0), 200).is_some());
}

#[test]
fn interval_has_bounds() {
    assert!(parts(&[(5, 5)], (0, 0), 49).is_none());
    assert!(parts(&[(5, 5)], (0, 0), 50).is_some());
    assert!(parts(&[(5, 5)], (0, 0), 200).is_some());
    assert!(parts(&[(5, 5)], (0, 0), 201).is_none());
    assert!(parts(&[(5, 5)], (0, 0), 0).is_none());
}

#[test]
fn apple_lies_on_the_board() {
    assert!(parts(&[(5, 5)], (19, 19), 200).is_some());
    assert!(parts(&[(5, 5)], (20, 0), 200).is_none());
    assert!(parts(&[(5, 5)], (0, 20), 200).is_none());
}

#[test]
fn head_lies_on_the_board() {
    assert!(parts(&[(20, 5)], (0, 0), 200).is_none());
    assert!(parts(&[(5, 20)], (0, 0), 200).is_none());
    assert!(parts(&[(20, 5), (19, 5)], (0, 0), 200).is_none());
}

#[test]
fn body_is_a_chain() {
    assert!(parts(&[(5, 5), (5, 6), (6, 6), (6, 5)], (0, 0), 200).is_some());
    // A gap, a diagonal step, a cell twice.
    assert!(parts(&[(5, 5), (5, 7), (5, 8)], (0, 0), 200).is_none());
    assert!(parts(&[(5, 5), (6, 6), (6, 7)], (0, 0), 200).is_none());
    assert!(parts(&[(5, 5), (5, 6), (5, 5), (5, 4)], (0, 0), 200).is_none());
    assert!(parts(&[(5, 5), (5, 5), (5, 6)], (0, 0), 200).is_none());
}

#[test]
fn last_cell_may_be_fresh_growth() {
    // Off the board behind the far edge, on the tail at the near wall, on the body.
    assert!(parts(&[(18, 5), (19, 5), (20, 5)], (0, 0), 200).is_some());
    assert!(parts(&[(1, 5), (0, 5), (0, 5)], (9, 9), 200).is_some());
    assert!(parts(&[(5, 5), (5, 6), (6, 6), (6, 5), (5, 5)], (0, 0), 200).is_some());
    // But not further away, and only the last.
    assert!(parts(&[(18, 5), (19, 5), (21, 5)], (0, 0), 200).is_none());
    assert!(parts(&[(19, 5), (20, 5), (21, 5)], (0, 0), 200).is_none());
    assert!(parts(&[(18, 5), (19, 5), (20, 6)], (0, 0), 200).is_none());
}

#[test]
fn fresh_growth_comes_with_the_apple_off_the_head() {
    assert!(parts(&[(18, 5), (19, 5), (20, 5)], (18, 5), 200).is_none());
    assert!(parts(&[(18, 5), (19, 5), (20, 5)], (19, 5), 200).is_some());
    // A settled snake may have its head on the apple.
    assert!(parts(&[(17, 5), (18, 5), (19, 5)], (17, 5), 200).is_some());
}

#[test]
fn score_is_the_length_less_one() {
    for n in 1..=20u16 {
        let snake: Vec<(u16, u16)> = (0..n).map(|i| (i, 3)).collect();
        let g = Game::from_parts(snake, Direction::Up, (0, 0), 200).unwrap();
        assert_eq!(g.score(), usize::from(n) - 1);
    }
}

#[test]
fn games_stay_well_formed_until_a_step_fails() {
    let mut g = Game::default();
    assert!(g.is_well_formed());
    g.tick();
    assert!(g.is_well_formed());
    let mut g = Game::from_parts(vec![(2, 5), (1, 5), (0, 5)], Direction::Right, (2, 5), 200).unwrap();
    assert_eq!(g.eat(), Ok(true));
    assert!(g.is_well_formed());
    g.tick();
    assert!(g.is_well_formed());

    let mut path = Vec::new();
    for x in 0..20u16 {
        for k in 0..20u16 {
            path.push((x, if x % 2 == 0 { k } else { 19 - k }));
        }
    }
    let mut g = Game::from_parts(path, Direction::Left, (0, 0), 200).unwrap();
    assert!(g.eat().is_err());
    assert!(!g.is_well_formed());
}
