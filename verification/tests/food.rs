use snakers::coord::Coord;
use snakers::game::GameState;
use snakers::grid::ItemType;
use snakers::inputtype::InputType;
use snakers::model::StateTransition;

fn at(cells: &[(i32, i32)]) -> Vec<Coord> {
    cells.iter().map(|&(x, y)| Coord::new(x, y)).collect()
}

fn board(width: u32, height: u32, cells: &[(i32, i32)], growing: i32) -> GameState {
    match GameState::with_snake(width, height, &at(cells), growing) {
        Some(g) => g,
        None => panic!("the layout should be valid"),
    }
}

fn food_cells(g: &GameState) -> Vec<(i32, i32)> {
    let mut found = Vec::new();
    let width = g.get_width() as i32;
    let height = g.get_height() as i32;
    let xmin = -(width / 2);
    let ymin = -(height / 2);
    for y in ymin..(ymin + height) {
        for x in xmin..(xmin + width) {
            if g.get(&Coord::new(x, y)) == ItemType::Food {
                found.push((x, y));
            }
        }
    }
    found
}

fn snake_cells(g: &GameState) -> Vec<(i32, i32)> {
    g.get_snake().get_body().iter().map(|s| (s.coord.x, s.coord.y)).collect()
}

#[test]
fn food_can_be_placed_on_an_empty_cell() {
    let mut g = board(10, 10, &[(0, 0), (0, 1)], 0);
    assert!(g.place_food(Coord::new(3, -2)));
    assert_eq!(g.get(&Coord::new(3, -2)), ItemType::Food);
    assert_eq!(food_cells(&g), vec![(3, -2)]);
}

#[test]
fn food_is_refused_on_the_snake_on_food_and_off_the_board() {
    let mut g = board(10, 10, &[(0, 0), (0, 1), (0, 2)], 0);
    assert!(!g.place_food(Coord::new(0, 0)));
    assert!(!g.place_food(Coord::new(0, 1)));
    assert!(!g.place_food(Coord::new(0, 2)));
    assert!(!g.place_food(Coord::new(5, 0)));
    assert!(!g.place_food(Coord::new(0, -6)));
    assert!(g.place_food(Coord::new(1, 1)));
    assert!(!g.place_food(Coord::new(1, 1)));
    assert_eq!(food_cells(&g), vec![(1, 1)]);
    assert_eq!(g.get(&Coord::new(0, 0)), ItemType::SnakeHead);
}

#[test]
fn food_is_refused_on_the_head_that_stands_on_the_cell_the_tail_left() {
    let mut g = board(10, 10, &[(0, 0), (1, 0), (1, 1), (0, 1)], 0);
    g.handle_input(InputType::Down);
    assert_eq!(g.update_state(), StateTransition::Continue);
    assert_eq!(g.get(&Coord::new(0, 1)), ItemType::Nothing);
    assert!(!g.place_food(Coord::new(0, 1)));
    assert_eq!(food_cells(&g), Vec::<(i32, i32)>::new());
}

#[test]
fn food_ahead_is_seen_before_the_tick() {
    let mut g = board(10, 10, &[(0, 0), (0, 1), (0, 2)], 0);
    assert!(!g.food_ahead());
    assert!(g.place_food(Coord::new(1, 0)));
    assert!(!g.food_ahead());
    g.handle_input(InputType::Right);
    assert!(g.food_ahead());
    g.handle_input(InputType::Down);
    assert!(!g.food_ahead());
    assert!(g.place_food(Coord::new(0, -1)));
    assert!(g.food_ahead());
}

#[test]
fn eating_moves_the_head_onto_the_food_and_drops_new_food() {
    let mut g = board(10, 10, &[(0, 0), (0, 1), (0, 2)], 0);
    assert!(g.place_food(Coord::new(0, -1)));
    assert_eq!(g.update_state(), StateTransition::Continue);
    assert_eq!(snake_cells(&g), vec![(0, -1), (0, 0), (0, 1), (0, 2)]);
    assert_eq!(g.get(&Coord::new(0, -1)), ItemType::SnakeHead);
    let food = food_cells(&g);
    assert_eq!(food.len(), 1);
    assert_ne!(food[0], (0, -1));
    assert!(!snake_cells(&g).contains(&food[0]));
}

#[test]
fn eating_drops_new_food_on_the_cell_that_is_offered() {
    let mut g = board(10, 10, &[(0, 0), (0, 1), (0, 2)], 0);
    assert!(g.place_food(Coord::new(0, -1)));
    assert_eq!(g.update_state_with(Some(Coord::new(3, 3))), StateTransition::Continue);
    assert_eq!(food_cells(&g), vec![(3, 3)]);
    assert_eq!(g.get(&Coord::new(0, -1)), ItemType::SnakeHead);
}

#[test]
fn offered_cell_is_ignored_unless_it_is_empty() {
    for offered in [(0, 0), (0, 2), (0, -1), (9, 9), (-6, 0)] {
        let mut g = board(10, 10, &[(0, 0), (0, 1), (0, 2)], 0);
        assert!(g.place_food(Coord::new(0, -1)));
        let respawn = Some(Coord::new(offered.0, offered.1));
        assert_eq!(g.update_state_with(respawn), StateTransition::Continue);
        assert_eq!(food_cells(&g), Vec::<(i32, i32)>::new(), "offered {:?}", offered);
        assert_eq!(snake_cells(&g), vec![(0, -1), (0, 0), (0, 1), (0, 2)]);
    }
}

#[test]
fn offered_cell_is_ignored_when_nothing_is_eaten() {
    let mut g = board(10, 10, &[(0, 0), (0, 1), (0, 2)], 0);
    assert_eq!(g.update_state_with(Some(Coord::new(3, 3))), StateTransition::Continue);
    assert_eq!(food_cells(&g), Vec::<(i32, i32)>::new());
    assert_eq!(g.get(&Coord::new(3, 3)), ItemType::Nothing);
}

#[test]
fn food_may_be_dropped_on_the_cell_the_tail_leaves_later() {
    let mut g = board(10, 10, &[(0, 0), (0, 1), (0, 2)], 0);
    assert!(g.place_food(Coord::new(0, -1)));
    // the tail does not move in the tick that eats, so its cell is taken
    assert_eq!(g.update_state_with(Some(Coord::new(0, 2))), StateTransition::Continue);
    assert_eq!(g.get(&Coord::new(0, 2)), ItemType::SnakeTail);
    assert_eq!(food_cells(&g), Vec::<(i32, i32)>::new());
}

#[test]
fn one_item_of_food_makes_the_snake_three_cells_longer() {
    let mut g = board(10, 10, &[(0, 0), (0, 1), (0, 2)], 0);
    assert!(g.place_food(Coord::new(0, -1)));
    let mut lengths = Vec::new();
    let mut growing = Vec::new();
    let mut tails = Vec::new();
    for _ in 0..4 {
        assert_eq!(g.update_state_with(None), StateTransition::Continue);
        lengths.push(g.get_snake().len());
        growing.push(g.get_snake().get_growing());
        let tail = g.get_snake().tail().coord;
        tails.push((tail.x, tail.y));
    }
    assert_eq!(lengths, vec![4, 5, 6, 6]);
    assert_eq!(growing, vec![2, 1, 0, 0]);
    // the tail stays for three ticks, then follows again
    assert_eq!(tails, vec![(0, 2), (0, 2), (0, 2), (0, 1)]);
}

#[test]
fn food_eaten_while_growing_adds_to_the_growth() {
    let mut g = board(10, 10, &[(0, 0), (0, 1), (0, 2)], 0);
    assert!(g.place_food(Coord::new(0, -1)));
    assert!(g.place_food(Coord::new(0, -2)));
    assert_eq!(g.update_state_with(None), StateTransition::Continue);
    assert_eq!(g.get_snake().get_growing(), 2);
    assert_eq!(g.update_state_with(None), StateTransition::Continue);
    assert_eq!(g.get_snake().get_growing(), 4);
    assert_eq!(g.get_snake().len(), 5);
    for _ in 0..2 {
        assert_eq!(g.update_state_with(None), StateTransition::Continue);
    }
    assert_eq!(g.get_snake().len(), 7);
    assert_eq!(g.get_snake().get_growing(), 2);
}

#[test]
fn food_eaten_in_debt_pays_the_debt() {
    let mut g = board(10, 10, &[(0, 0), (0, 1), (0, 2), (0, 3), (0, 4)], -4);
    assert!(g.place_food(Coord::new(0, -1)));
    // growth -4 + 3 = -1: the tail is drawn in twice, and the debt is gone
    assert_eq!(g.update_state_with(None), StateTransition::Continue);
    assert_eq!(snake_cells(&g), vec![(0, -1), (0, 0), (0, 1), (0, 2)]);
    assert_eq!(g.get_snake().get_growing(), 0);
}

#[test]
fn snake_of_one_segment_eats_and_gets_a_tail() {
    let mut g = board(10, 10, &[(0, 0)], 0);
    assert!(g.place_food(Coord::new(0, -1)));
    assert_eq!(g.update_state_with(None), StateTransition::Continue);
    assert_eq!(snake_cells(&g), vec![(0, -1), (0, 0)]);
    assert_eq!(g.get(&Coord::new(0, -1)), ItemType::SnakeHead);
    assert_eq!(g.get(&Coord::new(0, 0)), ItemType::SnakeTail);
    assert_eq!(g.get_snake().get_growing(), 2);
}

#[test]
fn picked_cell_is_empty_and_on_the_board() {
    let g = board(10, 10, &[(0, 0), (0, 1), (0, 2)], 0);
    for _ in 0..200 {
        match g.pick_empty_cell() {
            Some(c) => {
                assert!(g.in_range(&c));
                assert_eq!(g.get(&c), ItemType::Nothing);
            }
            None => panic!("a board that is nearly empty has an empty cell to find"),
        }
    }
}

#[test]
fn picked_cell_is_the_one_that_is_left() {
    let g = board(2, 2, &[(-1, -1), (0, -1), (0, 0)], 0);
    assert_eq!(g.pick_empty_cell(), Some(Coord::new(-1, 0)));
}

#[test]
fn no_cell_is_picked_on_a_full_board() {
    let mut g = board(2, 2, &[(-1, -1), (0, -1), (0, 0), (-1, 0)], 0);
    assert_eq!(g.pick_empty_cell(), None);
    assert_eq!(g.drop_new_food(), None);
    assert_eq!(food_cells(&g), Vec::<(i32, i32)>::new());
}

#[test]
fn dropped_food_lies_on_the_cell_that_is_returned() {
    let mut g = board(10, 10, &[(0, 0), (0, 1), (0, 2)], 0);
    match g.drop_new_food() {
        Some(c) => {
            assert_eq!(g.get(&c), ItemType::Food);
            assert_eq!(food_cells(&g), vec![(c.x, c.y)]);
        }
        None => panic!("a board that is nearly empty has an empty cell to find"),
    }
}

#[test]
fn picked_cells_are_spread_over_the_board() {
    let g = board(20, 20, &[(0, 0)], 0);
    let mut seen: Vec<Coord> = Vec::new();
    let mut least = Coord::new(i32::MAX, i32::MAX);
    let mut greatest = Coord::new(i32::MIN, i32::MIN);
    for _ in 0..400 {
        let c = match g.pick_empty_cell() {
            Some(c) => c,
            None => panic!("a board that is nearly empty has an empty cell to find"),
        };
        least = Coord::new(least.x.min(c.x), least.y.min(c.y));
        greatest = Coord::new(greatest.x.max(c.x), greatest.y.max(c.y));
        if !seen.contains(&c) {
            seen.push(c);
        }
    }
    // a source that handed back the least or the greatest coordinate every
    // time would always pick the same corner
    assert!(seen.len() > 50);
    assert!(least.x < -5 && least.y < -5);
    assert!(greatest.x > 4 && greatest.y > 4);
}

#[test]
fn respawned_food_keeps_the_game_fed() {
    let mut g = board(10, 10, &[(0, 4), (1, 4)], 0);
    let mut eaten = 0;
    // walk up the board and down again, eating whatever lies in the column
    for y in (-5..4).rev() {
        let before = g.get_snake().len() as i32 + g.get_snake().get_growing();
        let fed = g.place_food(Coord::new(0, y)) || g.get(&Coord::new(0, y)) == ItemType::Food;
        g.handle_input(InputType::Up);
        assert_eq!(g.update_state(), StateTransition::Continue);
        let after = g.get_snake().len() as i32 + g.get_snake().get_growing();
        if fed {
            eaten += 1;
            assert_eq!(after, before + 3);
        } else {
            assert_eq!(after, before);
        }
    }
    assert!(eaten >= 1);
    assert!(food_cells(&g).len() >= 1);
}
