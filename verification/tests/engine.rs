use snakers::coord::Coord;
use snakers::direction::Direction;
use snakers::game::GameState;
use snakers::grid::ItemType;
use snakers::inputtype::InputType;
use snakers::model::StateTransition;

fn coords(cells: &[(i32, i32)]) -> Vec<Coord> {
    cells.iter().map(|&(x, y)| Coord::new(x, y)).collect()
}

/// A game on a board of 10 by 10 cells (coordinates -5 to 4 on both axes).
fn game(cells: &[(i32, i32)], growing: i32) -> GameState {
    match GameState::with_snake(10, 10, &coords(cells), growing) {
        Some(g) => g,
        None => panic!("the layout should be valid"),
    }
}

fn body_of(g: &GameState) -> Vec<(i32, i32)> {
    g.get_snake().get_body().iter().map(|s| (s.coord.x, s.coord.y)).collect()
}

fn heading_of(g: &GameState) -> Direction {
    g.get_snake().get_body()[0].dir_next
}

fn cell(g: &GameState, x: i32, y: i32) -> ItemType {
    g.get(&Coord::new(x, y))
}

fn count(g: &GameState, item: ItemType) -> usize {
    g.get_world().iter().map(|row| row.iter().filter(|c| **c == item).count()).sum()
}

fn expected_mark(i: usize, len: usize) -> ItemType {
    if i == 0 {
        ItemType::SnakeHead
    } else if i == len - 1 {
        ItemType::SnakeTail
    } else {
        ItemType::SnakeBit
    }
}

/// Board and snake agree on every cell.
fn assert_agreement(g: &GameState) {
    let body = body_of(g);
    for (i, &(x, y)) in body.iter().enumerate() {
        assert_eq!(cell(g, x, y), expected_mark(i, body.len()), "segment {}", i);
    }
    let marked = count(g, ItemType::SnakeHead)
        + count(g, ItemType::SnakeBit)
        + count(g, ItemType::SnakeTail);
    assert_eq!(marked, body.len());
    assert_eq!(count(g, ItemType::SnakeHead), 1);
    assert_eq!(count(g, ItemType::SnakeTail), if body.len() > 1 { 1 } else { 0 });
    for i in 0..body.len() {
        for j in (i + 1)..body.len() {
            assert_ne!(body[i], body[j]);
        }
    }
}

#[test]
fn laid_out_snake_agrees_with_the_board() {
    let g = game(&[(0, 0), (1, 0), (1, 1), (0, 1), (-1, 1)], 0);
    assert_agreement(&g);
    assert_eq!(g.get_width(), 10);
    assert_eq!(g.get_height(), 10);
    assert_eq!(heading_of(&g), Direction::Left);
    assert_eq!(g.get_snake().get_growing(), 0);
    assert_eq!(count(&g, ItemType::Food), 0);
    assert_eq!(count(&g, ItemType::Nothing), 95);
}

#[test]
fn laid_out_snake_has_linked_segments() {
    let g = game(&[(0, 0), (1, 0), (1, 1)], 0);
    let body: Vec<_> = g.get_snake().get_body().iter().copied().collect();
    assert_eq!(body[0].dir_next, Direction::Left);
    assert_eq!(body[0].dir_prev, Some(Direction::Right));
    assert_eq!(body[1].dir_next, Direction::Left);
    assert_eq!(body[1].dir_prev, Some(Direction::Down));
    assert_eq!(body[2].dir_next, Direction::Up);
    assert_eq!(body[2].dir_prev, None);
}

#[test]
fn single_segment_snake_heads_up() {
    let g = game(&[(2, 2)], 0);
    assert_eq!(heading_of(&g), Direction::Up);
    assert_eq!(cell(&g, 2, 2), ItemType::SnakeHead);
    assert_agreement(&g);
}

#[test]
fn quit_stops_at_once_and_changes_nothing() {
    let mut g = game(&[(0, 0), (0, 1), (0, 2)], 0);
    assert_eq!(g.handle_input(InputType::Quit), StateTransition::Stop);
    assert_eq!(body_of(&g), vec![(0, 0), (0, 1), (0, 2)]);
    // nothing was buffered: the next tick moves straight on
    assert_eq!(g.update_state(), StateTransition::Continue);
    assert_eq!(body_of(&g), vec![(0, -1), (0, 0), (0, 1)]);
}

#[test]
fn nothing_continues_and_changes_nothing() {
    let mut g = game(&[(0, 0), (0, 1), (0, 2)], 0);
    assert_eq!(g.handle_input(InputType::Left), StateTransition::Continue);
    assert_eq!(g.handle_input(InputType::Nothing), StateTransition::Continue);
    // the buffered direction is still there
    assert_eq!(g.update_state(), StateTransition::Continue);
    assert_eq!(body_of(&g), vec![(-1, 0), (0, 0), (0, 1)]);
}

#[test]
fn direction_is_buffered_until_the_tick() {
    let mut g = game(&[(0, 0), (0, 1), (0, 2)], 0);
    assert_eq!(g.handle_input(InputType::Right), StateTransition::Continue);
    assert_eq!(heading_of(&g), Direction::Up);
    assert_eq!(body_of(&g), vec![(0, 0), (0, 1), (0, 2)]);
    assert_eq!(g.update_state(), StateTransition::Continue);
    assert_eq!(heading_of(&g), Direction::Right);
    assert_eq!(body_of(&g), vec![(1, 0), (0, 0), (0, 1)]);
}

#[test]
fn last_input_before_the_tick_wins() {
    let mut g = game(&[(0, 0), (0, 1), (0, 2)], 0);
    g.handle_input(InputType::Left);
    g.handle_input(InputType::Right);
    assert_eq!(g.update_state(), StateTransition::Continue);
    assert_eq!(body_of(&g), vec![(1, 0), (0, 0), (0, 1)]);
    // the buffer is empty again: the next tick goes straight on
    assert_eq!(g.update_state(), StateTransition::Continue);
    assert_eq!(body_of(&g), vec![(2, 0), (1, 0), (0, 0)]);
}

#[test]
fn reverse_written_over_a_turn_leaves_the_heading() {
    let mut g = game(&[(0, 0), (0, 1), (0, 2)], 0);
    g.handle_input(InputType::Left);
    g.handle_input(InputType::Down);
    assert_eq!(g.update_state(), StateTransition::Continue);
    assert_eq!(heading_of(&g), Direction::Up);
    assert_eq!(body_of(&g), vec![(0, -1), (0, 0), (0, 1)]);
}

#[test]
fn plain_tick_moves_one_step_and_keeps_the_length() {
    let mut g = game(&[(0, 0), (0, 1), (0, 2)], 0);
    assert_eq!(g.update_state(), StateTransition::Continue);
    assert_eq!(body_of(&g), vec![(0, -1), (0, 0), (0, 1)]);
    assert_eq!(cell(&g, 0, -1), ItemType::SnakeHead);
    assert_eq!(cell(&g, 0, 0), ItemType::SnakeBit);
    assert_eq!(cell(&g, 0, 1), ItemType::SnakeTail);
    assert_eq!(cell(&g, 0, 2), ItemType::Nothing);
    assert_agreement(&g);
    let body: Vec<_> = g.get_snake().get_body().iter().copied().collect();
    assert_eq!(body[0].dir_prev, Some(Direction::Down));
    assert_eq!(body[1].dir_next, Direction::Up);
    assert_eq!(body[2].dir_prev, None);
}

#[test]
fn turn_leaves_a_corner_in_the_body() {
    let mut g = game(&[(0, 0), (0, 1), (0, 2)], 0);
    g.handle_input(InputType::Right);
    g.update_state();
    let body: Vec<_> = g.get_snake().get_body().iter().copied().collect();
    // the new head points back left, the corner heads right and points back down
    assert_eq!(body[0].dir_next, Direction::Right);
    assert_eq!(body[0].dir_prev, Some(Direction::Left));
    assert_eq!(body[1].dir_next, Direction::Right);
    assert_eq!(body[1].dir_prev, Some(Direction::Down));
    assert_eq!(body[2].dir_next, Direction::Up);
    assert_eq!(body[2].dir_prev, None);
}

#[test]
fn reverse_input_leaves_the_heading() {
    let mut g = game(&[(0, 0), (0, 1), (0, 2)], 0);
    assert_eq!(heading_of(&g), Direction::Up);
    assert_eq!(g.handle_input(InputType::Down), StateTransition::Continue);
    assert_eq!(g.update_state(), StateTransition::Continue);
    assert_eq!(heading_of(&g), Direction::Up);
    assert_eq!(body_of(&g), vec![(0, -1), (0, 0), (0, 1)]);
}

#[test]
fn reverse_input_is_ignored_for_every_heading() {
    let layouts: [(&[(i32, i32)], InputType, Direction); 4] = [
        (&[(0, 0), (0, 1)], InputType::Down, Direction::Up),
        (&[(0, 0), (-1, 0)], InputType::Left, Direction::Right),
        (&[(0, 0), (0, -1)], InputType::Up, Direction::Down),
        (&[(0, 0), (1, 0)], InputType::Right, Direction::Left),
    ];
    for (cells, reverse, heading) in layouts {
        let mut g = game(cells, 0);
        assert_eq!(heading_of(&g), heading);
        g.handle_input(reverse);
        assert_eq!(g.update_state(), StateTransition::Continue);
        assert_eq!(heading_of(&g), heading);
    }
}

#[test]
fn redundant_direction_is_plain_forward_movement() {
    let mut with_input = game(&[(0, 0), (0, 1), (0, 2)], 0);
    let mut without = game(&[(0, 0), (0, 1), (0, 2)], 0);
    for _ in 0..4 {
        with_input.handle_input(InputType::Up);
        with_input.handle_input(InputType::Up);
        without.handle_input(InputType::Nothing);
        assert_eq!(with_input.update_state(), without.update_state());
        assert_eq!(body_of(&with_input), body_of(&without));
        assert_eq!(heading_of(&with_input), Direction::Up);
        assert_eq!(with_input.get_world(), without.get_world());
    }
    assert_eq!(body_of(&with_input), vec![(0, -4), (0, -3), (0, -2)]);
}

#[test]
fn wall_ahead_at_the_top_row_stops() {
    let mut g = game(&[(0, -5), (0, -4), (0, -3)], 0);
    assert_eq!(heading_of(&g), Direction::Up);
    assert_eq!(g.update_state(), StateTransition::Stop);
    assert_eq!(body_of(&g), vec![(0, -5), (0, -4), (0, -3)]);
    assert_agreement(&g);
}

#[test]
fn wall_stops_on_every_side() {
    let mut right = game(&[(4, 0), (3, 0)], 0);
    assert_eq!(right.update_state(), StateTransition::Stop);
    let mut left = game(&[(-5, 0), (-4, 0)], 0);
    assert_eq!(left.update_state(), StateTransition::Stop);
    let mut down = game(&[(0, 4), (0, 3)], 0);
    assert_eq!(down.update_state(), StateTransition::Stop);
    let mut up = game(&[(0, -5), (0, -4)], 0);
    assert_eq!(up.update_state(), StateTransition::Stop);
}

#[test]
fn last_cell_before_the_wall_can_be_entered() {
    let mut g = game(&[(3, 0), (2, 0)], 0);
    assert_eq!(g.update_state(), StateTransition::Continue);
    assert_eq!(body_of(&g), vec![(4, 0), (3, 0)]);
    assert_eq!(g.update_state(), StateTransition::Stop);
}

#[test]
fn turning_into_the_wall_stops_with_the_head_turned() {
    let mut g = game(&[(4, 0), (4, 1)], 0);
    g.handle_input(InputType::Right);
    assert_eq!(g.update_state(), StateTransition::Stop);
    assert_eq!(heading_of(&g), Direction::Right);
    assert_eq!(body_of(&g), vec![(4, 0), (4, 1)]);
}

#[test]
fn running_into_the_body_stops() {
    // head at (0,0) heading left; the segment below the head is the fourth
    let mut g = game(&[(0, 0), (1, 0), (1, 1), (0, 1), (-1, 1)], 0);
    g.handle_input(InputType::Down);
    assert_eq!(cell(&g, 0, 1), ItemType::SnakeBit);
    assert_eq!(g.update_state(), StateTransition::Stop);
    assert_eq!(body_of(&g), vec![(0, 0), (1, 0), (1, 1), (0, 1), (-1, 1)]);
    assert_agreement(&g);
}

#[test]
fn head_may_follow_the_tail_that_leaves() {
    let mut g = game(&[(0, 0), (1, 0), (1, 1), (0, 1)], 0);
    assert_eq!(cell(&g, 0, 1), ItemType::SnakeTail);
    g.handle_input(InputType::Down);
    assert_eq!(g.update_state(), StateTransition::Continue);
    assert_eq!(body_of(&g), vec![(0, 1), (0, 0), (1, 0), (1, 1)]);
    // the cell that the tail left is marked empty, though the head is on it
    assert_eq!(cell(&g, 0, 1), ItemType::Nothing);
    assert_eq!(cell(&g, 1, 1), ItemType::SnakeTail);
    assert_eq!(cell(&g, 0, 0), ItemType::SnakeBit);
    assert_eq!(cell(&g, 1, 0), ItemType::SnakeBit);
    assert_eq!(count(&g, ItemType::SnakeHead), 0);
}

#[test]
fn agreement_returns_with_the_tick_after_a_tail_chase() {
    let mut g = game(&[(0, 0), (1, 0), (1, 1), (0, 1)], 0);
    g.handle_input(InputType::Down);
    assert_eq!(g.update_state(), StateTransition::Continue);
    assert_eq!(g.update_state(), StateTransition::Continue);
    assert_eq!(body_of(&g), vec![(0, 2), (0, 1), (0, 0), (1, 0)]);
    assert_agreement(&g);
}

#[test]
fn snake_can_circle_on_its_own_tail() {
    let mut g = game(&[(0, 0), (1, 0), (1, 1), (0, 1)], 0);
    let turns = [InputType::Down, InputType::Right, InputType::Up, InputType::Left];
    for round in 0..3 {
        for turn in turns {
            g.handle_input(turn);
            assert_eq!(g.update_state(), StateTransition::Continue, "round {}", round);
            assert_eq!(g.get_snake().len(), 4);
        }
    }
    assert_eq!(body_of(&g), vec![(0, 0), (1, 0), (1, 1), (0, 1)]);
}

#[test]
fn tail_blocks_a_growing_snake() {
    let mut g = game(&[(0, 0), (1, 0), (1, 1), (0, 1)], 1);
    g.handle_input(InputType::Down);
    assert_eq!(g.update_state(), StateTransition::Stop);
    assert_eq!(body_of(&g), vec![(0, 0), (1, 0), (1, 1), (0, 1)]);
    assert_eq!(g.get_snake().get_growing(), 1);
}

#[test]
fn pending_growth_is_spent_one_cell_per_tick() {
    let mut g = game(&[(0, 0), (0, 1), (0, 2)], 2);
    assert_eq!(g.update_state(), StateTransition::Continue);
    assert_eq!(body_of(&g), vec![(0, -1), (0, 0), (0, 1), (0, 2)]);
    assert_eq!(g.get_snake().get_growing(), 1);
    assert_agreement(&g);
    assert_eq!(g.update_state(), StateTransition::Continue);
    assert_eq!(body_of(&g), vec![(0, -2), (0, -1), (0, 0), (0, 1), (0, 2)]);
    assert_eq!(g.get_snake().get_growing(), 0);
    assert_eq!(g.update_state(), StateTransition::Continue);
    assert_eq!(body_of(&g), vec![(0, -3), (0, -2), (0, -1), (0, 0), (0, 1)]);
    assert_eq!(g.get_snake().get_growing(), 0);
    assert_agreement(&g);
}

#[test]
fn debt_draws_the_tail_in_twice() {
    let mut g = game(&[(0, 0), (0, 1), (0, 2), (0, 3)], -1);
    assert_eq!(g.update_state(), StateTransition::Continue);
    assert_eq!(body_of(&g), vec![(0, -1), (0, 0), (0, 1)]);
    assert_eq!(g.get_snake().get_growing(), 0);
    assert_eq!(cell(&g, 0, 2), ItemType::Nothing);
    assert_eq!(cell(&g, 0, 3), ItemType::Nothing);
    assert_agreement(&g);
    // the debt is paid: the next tick keeps the length
    assert_eq!(g.update_state(), StateTransition::Continue);
    assert_eq!(body_of(&g), vec![(0, -2), (0, -1), (0, 0)]);
}

#[test]
fn debt_can_shrink_the_snake_to_its_head() {
    let mut g = game(&[(0, 0), (0, 1)], -1);
    assert_eq!(g.update_state(), StateTransition::Continue);
    assert_eq!(body_of(&g), vec![(0, -1)]);
    assert_eq!(g.get_snake().get_growing(), 0);
    assert_eq!(cell(&g, 0, -1), ItemType::SnakeHead);
    assert_eq!(count(&g, ItemType::SnakeTail), 0);
    assert_agreement(&g);
}

#[test]
fn snake_of_one_segment_moves() {
    let mut g = game(&[(0, 0)], 0);
    assert_eq!(g.update_state(), StateTransition::Continue);
    assert_eq!(body_of(&g), vec![(0, -1)]);
    assert_eq!(cell(&g, 0, -1), ItemType::SnakeHead);
    assert_eq!(cell(&g, 0, 0), ItemType::Nothing);
    assert_agreement(&g);
    let head = g.get_snake().head();
    assert_eq!(head.dir_prev, None);
}

#[test]
fn snake_of_one_segment_grows_a_tail() {
    let mut g = game(&[(0, 0)], 1);
    assert_eq!(g.update_state(), StateTransition::Continue);
    assert_eq!(body_of(&g), vec![(0, -1), (0, 0)]);
    assert_eq!(cell(&g, 0, -1), ItemType::SnakeHead);
    assert_eq!(cell(&g, 0, 0), ItemType::SnakeTail);
    assert_agreement(&g);
}

#[test]
fn stop_is_repeated_on_the_next_tick() {
    let mut g = game(&[(0, -5), (0, -4)], 0);
    assert_eq!(g.update_state(), StateTransition::Stop);
    assert_eq!(g.update_state(), StateTransition::Stop);
    assert_eq!(body_of(&g), vec![(0, -5), (0, -4)]);
}

#[test]
fn game_coordinates_map_to_grid_places() {
    let g = game(&[(0, 0)], 0);
    assert_eq!(g.game_to_grid(&Coord::new(0, 0)), Coord::new(5, 5));
    assert_eq!(g.game_to_grid(&Coord::new(-5, -5)), Coord::new(0, 0));
    assert_eq!(g.game_to_grid(&Coord::new(4, 4)), Coord::new(9, 9));
    assert_eq!(g.game_to_grid(&Coord::new(-6, 7)), Coord::new(-1, 12));
    assert_eq!(g.game_to_grid_tuple(&(0, 0)), (5, 5));
    assert_eq!(g.game_to_grid_tuple(&(-5, 4)), (0, 9));
    assert_eq!(g.game_to_grid_tuple(&(4, -5)), (9, 0));
}

#[test]
fn world_rows_follow_the_grid_places() {
    let g = game(&[(1, -2), (1, -1)], 0);
    let world = g.get_world();
    assert_eq!(world.len(), 10);
    assert_eq!(world[0].len(), 10);
    let (col, row) = g.game_to_grid_tuple(&(1, -2));
    assert_eq!(world[row][col], ItemType::SnakeHead);
    assert_eq!(world[3][6], ItemType::SnakeHead);
    assert_eq!(world[4][6], ItemType::SnakeTail);
    assert!(g.in_range(&Coord::new(4, 4)));
    assert!(!g.in_range(&Coord::new(5, 4)));
    assert!(!g.in_range(&Coord::new(0, -6)));
}

#[test]
fn odd_board_is_centred_on_the_origin() {
    let g = match GameState::with_snake(5, 7, &coords(&[(0, 0)]), 0) {
        Some(g) => g,
        None => panic!("the layout should be valid"),
    };
    assert!(g.in_range(&Coord::new(-2, -3)));
    assert!(g.in_range(&Coord::new(2, 3)));
    assert!(!g.in_range(&Coord::new(3, 0)));
    assert!(!g.in_range(&Coord::new(0, 4)));
    assert_eq!(g.game_to_grid_tuple(&(0, 0)), (2, 3));
}

#[test]
fn board_and_snake_agree_through_random_play() {
    let mut seed: u64 = 0x2545F4914F6CDD1D;
    let inputs = [
        InputType::Nothing,
        InputType::Up,
        InputType::Right,
        InputType::Down,
        InputType::Left,
    ];
    let mut ticks = 0;
    for _ in 0..200 {
        let mut g = GameState::new(12, 12);
        assert_agreement(&g);
        for _ in 0..300 {
            seed = seed.wrapping_mul(6364136223846793005).wrapping_add(1442695040888963407);
            let input = inputs[((seed >> 33) % 5) as usize];
            let tail_before = *body_of(&g).last().unwrap();
            let full_before = g.get_snake().len() as i32 + g.get_snake().get_growing();
            let eats = g.handle_input(input) == StateTransition::Continue && g.food_ahead();
            let moved = g.update_state();
            let body = body_of(&g);
            let full_after = g.get_snake().len() as i32 + g.get_snake().get_growing();
            assert_eq!(full_after, full_before + if eats { 3 } else { 0 });
            assert!(count(&g, ItemType::Food) <= 1);
            if moved == StateTransition::Stop {
                break;
            }
            ticks += 1;
            if body[0] == tail_before {
                // the head followed the tail: its cell is left marked empty
                assert_eq!(cell(&g, body[0].0, body[0].1), ItemType::Nothing);
            } else {
                assert_agreement(&g);
            }
        }
    }
    assert!(ticks > 500);
}
