use snakers::coord::Coord;
use snakers::game::GameState;
use snakers::grid::{init_grid, ItemType};
use snakers::render::{glyph_of, render, render_border, render_row};

#[test]
fn glyph_of_each_item() {
    assert_eq!(glyph_of(&ItemType::Nothing), " ");
    assert_eq!(glyph_of(&ItemType::Food), "O");
    assert_eq!(glyph_of(&ItemType::SnakeBit), "S");
    assert_eq!(glyph_of(&ItemType::SnakeHead), "%");
    assert_eq!(glyph_of(&ItemType::SnakeTail), "*");
}

#[test]
fn row_is_framed_by_bars() {
    let row = vec![
        ItemType::Nothing,
        ItemType::Food,
        ItemType::SnakeBit,
        ItemType::SnakeHead,
        ItemType::SnakeTail,
    ];
    assert_eq!(render_row(&row), "| OS%*|");
}

#[test]
fn empty_row_is_two_bars() {
    assert_eq!(render_row(&Vec::new()), "||");
}

#[test]
fn border_has_one_dash_per_column() {
    assert_eq!(render_border(0), "++");
    assert_eq!(render_border(3), "+---+");
    assert_eq!(render_border(48), format!("+{}+", "-".repeat(48)));
}

#[test]
fn empty_board_as_text() {
    let world = init_grid(4, 2);
    assert_eq!(render(&world, 4), vec!["+----+", "|    |", "|    |", "+----+"]);
}

#[test]
fn game_as_text() {
    let cells = vec![Coord::new(0, -1), Coord::new(0, 0), Coord::new(1, 0)];
    let mut g = match GameState::with_snake(5, 3, &cells, 0) {
        Some(g) => g,
        None => panic!("the layout should be valid"),
    };
    assert!(g.place_food(Coord::new(-2, 1)));
    let lines = render(g.get_world(), g.get_width() as usize);
    assert_eq!(
        lines,
        vec!["+-----+", "|  %  |", "|  S* |", "|O    |", "+-----+"]
    );
}
