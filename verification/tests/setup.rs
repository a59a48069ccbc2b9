use snakers::coord::Coord;
use snakers::direction::Direction;
use snakers::game::GameState;
use snakers::grid::ItemType;
use snakers::model::{
    StateTransition, FOOD_ATTEMPTS, INITIAL_SNAKE_LENGTH, MAX_CELLS, SNAKE_GROWTH_PER_FOOD,
};

fn cells_of(cells: &[(i32, i32)]) -> Vec<Coord> {
    cells.iter().map(|&(x, y)| Coord::new(x, y)).collect()
}

fn count_items(g: &GameState, item: ItemType) -> usize {
    g.get_world().iter().map(|row| row.iter().filter(|c| **c == item).count()).sum()
}

#[test]
fn constants_of_the_game() {
    assert_eq!(INITIAL_SNAKE_LENGTH, 7);
    assert_eq!(SNAKE_GROWTH_PER_FOOD, 3);
    assert_eq!(FOOD_ATTEMPTS, 100);
    assert_eq!(MAX_CELLS, 1_000_000_000);
}

#[test]
fn board_sizes_that_fit_a_game() {
    assert!(GameState::fits(48, 18));
    assert!(GameState::fits(24, 15));
    assert!(GameState::fits(1, 8));
    assert!(GameState::fits(10, 8));
    assert!(GameState::fits(31622, 31622));
    assert!(GameState::fits(125_000_000, 8));
}

#[test]
fn board_sizes_that_do_not_fit_a_game() {
    assert!(!GameState::fits(10, 7));
    assert!(!GameState::fits(0, 10));
    assert!(!GameState::fits(10, 0));
    assert!(!GameState::fits(0, 0));
    assert!(!GameState::fits(40000, 40000));
    assert!(!GameState::fits(125_000_001, 8));
    assert!(!GameState::fits(u32::MAX, u32::MAX));
}

#[test]
fn new_game_has_the_initial_snake() {
    let g = GameState::new(48, 18);
    assert_eq!(g.get_width(), 48);
    assert_eq!(g.get_height(), 18);
    let body: Vec<_> = g.get_snake().get_body().iter().copied().collect();
    assert_eq!(body.len(), 7);
    // rows run from -9 to 8: the tail stands one row above the bottom row
    for (i, segment) in body.iter().enumerate() {
        assert_eq!(segment.coord, Coord::new(0, 1 + i as i32));
        assert_eq!(segment.dir_next, Direction::Up);
        let behind = if i < 6 { Some(Direction::Down) } else { None };
        assert_eq!(segment.dir_prev, behind);
    }
    assert_eq!(g.get_snake().get_growing(), 0);
    assert_eq!(g.get(&Coord::new(0, 1)), ItemType::SnakeHead);
    for y in 2..=6 {
        assert_eq!(g.get(&Coord::new(0, y)), ItemType::SnakeBit);
    }
    assert_eq!(g.get(&Coord::new(0, 7)), ItemType::SnakeTail);
    assert_eq!(g.get(&Coord::new(0, 8)), ItemType::Nothing);
    assert_eq!(count_items(&g, ItemType::SnakeHead), 1);
    assert_eq!(count_items(&g, ItemType::SnakeBit), 5);
    assert_eq!(count_items(&g, ItemType::SnakeTail), 1);
}

#[test]
fn new_game_has_one_item_of_food() {
    for _ in 0..20 {
        let g = GameState::new(24, 15);
        assert_eq!(count_items(&g, ItemType::Food), 1);
        assert_eq!(count_items(&g, ItemType::Nothing), 24 * 15 - 8);
    }
}

#[test]
fn new_game_on_the_smallest_board() {
    let mut g = GameState::new(1, 8);
    let body: Vec<_> = g.get_snake().get_body().iter().map(|s| s.coord).collect();
    // rows run from -4 to 3
    assert_eq!(body[0], Coord::new(0, -4));
    assert_eq!(body[6], Coord::new(0, 2));
    // one cell is free: the food lies there, if a try has hit it
    let food = count_items(&g, ItemType::Food);
    assert!(food <= 1);
    assert_eq!(g.get(&Coord::new(0, 3)) == ItemType::Food, food == 1);
    // the head stands at the top wall
    assert_eq!(g.update_state(), StateTransition::Stop);
}

#[test]
fn new_game_starts_upwards() {
    let mut g = GameState::new(48, 18);
    let placed = g.place_food(Coord::new(0, 0));
    let before = count_items(&g, ItemType::Food);
    assert_eq!(g.update_state(), StateTransition::Continue);
    let head = g.get_snake().head();
    assert_eq!(head.coord, Coord::new(0, 0));
    if placed {
        // the food ahead was eaten: growth for three cells, one spent at once
        assert_eq!(g.get_snake().get_growing(), 2);
        assert_eq!(g.get_snake().len(), 8);
        assert_eq!(count_items(&g, ItemType::Food), before);
    }
}

#[test]
fn layout_needs_a_board() {
    assert!(GameState::with_snake(0, 10, &cells_of(&[(0, 0)]), 0).is_none());
    assert!(GameState::with_snake(10, 0, &cells_of(&[(0, 0)]), 0).is_none());
    assert!(GameState::with_snake(100_000, 100_000, &cells_of(&[(0, 0)]), 0).is_none());
    assert!(GameState::with_snake(1, 1, &cells_of(&[(0, 0)]), 0).is_some());
}

#[test]
fn layout_needs_a_head() {
    assert!(GameState::with_snake(10, 10, &cells_of(&[]), 0).is_none());
}

#[test]
fn layout_must_lie_on_the_board() {
    assert!(GameState::with_snake(10, 10, &cells_of(&[(5, 0)]), 0).is_none());
    assert!(GameState::with_snake(10, 10, &cells_of(&[(0, -6)]), 0).is_none());
    assert!(GameState::with_snake(10, 10, &cells_of(&[(4, 0), (5, 0)]), 0).is_none());
    assert!(GameState::with_snake(10, 10, &cells_of(&[(4, 4), (4, 3)]), 0).is_some());
    assert!(GameState::with_snake(10, 10, &cells_of(&[(-5, -5)]), 0).is_some());
}

#[test]
fn layout_must_be_connected() {
    assert!(GameState::with_snake(10, 10, &cells_of(&[(0, 0), (2, 0)]), 0).is_none());
    assert!(GameState::with_snake(10, 10, &cells_of(&[(0, 0), (1, 1)]), 0).is_none());
    assert!(GameState::with_snake(10, 10, &cells_of(&[(0, 0), (1, 0), (3, 0)]), 0).is_none());
}

#[test]
fn layout_must_not_cross_itself() {
    assert!(GameState::with_snake(10, 10, &cells_of(&[(0, 0), (1, 0), (0, 0)]), 0).is_none());
    assert!(GameState::with_snake(10, 10, &cells_of(&[(0, 0), (0, 0)]), 0).is_none());
    let ring = [(0, 0), (1, 0), (1, 1), (0, 1), (0, 0)];
    assert!(GameState::with_snake(10, 10, &cells_of(&ring), 0).is_none());
}

#[test]
fn layout_growth_must_fit_the_length() {
    let cells = cells_of(&[(0, 0), (0, 1), (0, 2)]);
    assert!(GameState::with_snake(10, 10, &cells, 6).is_some());
    assert!(GameState::with_snake(10, 10, &cells, 7).is_none());
    assert!(GameState::with_snake(10, 10, &cells, -2).is_some());
    assert!(GameState::with_snake(10, 10, &cells, -3).is_none());
    assert!(GameState::with_snake(10, 10, &cells, i32::MAX).is_none());
    assert!(GameState::with_snake(10, 10, &cells, i32::MIN).is_none());
}

#[test]
fn layout_keeps_the_growth() {
    let cells = cells_of(&[(0, 0), (0, 1), (0, 2)]);
    let g = match GameState::with_snake(10, 10, &cells, 5) {
        Some(g) => g,
        None => panic!("the layout should be valid"),
    };
    assert_eq!(g.get_snake().get_growing(), 5);
    assert_eq!(g.get_snake().len(), 3);
}

#[test]
fn layout_can_fill_the_board() {
    let g = match GameState::with_snake(2, 2, &cells_of(&[(-1, -1), (0, -1), (0, 0), (-1, 0)]), 0) {
        Some(g) => g,
        None => panic!("the layout should be valid"),
    };
    assert_eq!(count_items(&g, ItemType::Nothing), 0);
    assert_eq!(g.get(&Coord::new(-1, -1)), ItemType::SnakeHead);
    assert_eq!(g.get(&Coord::new(-1, 0)), ItemType::SnakeTail);
}
