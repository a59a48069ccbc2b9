use snakers::coord::Coord;
use snakers::direction::Direction;
use snakers::grid::make_coordinate_range;
use snakers::inputtype::InputType;
use snakers::pair::Pair;

const ALL_DIRECTIONS: [Direction; 4] =
    [Direction::Up, Direction::Right, Direction::Down, Direction::Left];

#[test]
fn unit_vectors_of_the_four_directions() {
    assert_eq!(Direction::Up.direction_get_unit_vector(), Coord::new(0, -1));
    assert_eq!(Direction::Right.direction_get_unit_vector(), Coord::new(1, 0));
    assert_eq!(Direction::Down.direction_get_unit_vector(), Coord::new(0, 1));
    assert_eq!(Direction::Left.direction_get_unit_vector(), Coord::new(-1, 0));
}

#[test]
fn opposite_of_each_direction() {
    assert_eq!(Direction::Up.get_opposite(), Direction::Down);
    assert_eq!(Direction::Right.get_opposite(), Direction::Left);
    assert_eq!(Direction::Down.get_opposite(), Direction::Up);
    assert_eq!(Direction::Left.get_opposite(), Direction::Right);
}

#[test]
fn opposite_is_an_involution() {
    for d in ALL_DIRECTIONS {
        assert_eq!(d.get_opposite().get_opposite(), d);
        assert_ne!(d.get_opposite(), d);
    }
}

#[test]
fn disallowed_direction_is_the_opposite() {
    for d in ALL_DIRECTIONS {
        assert_eq!(d.get_disallowed(), d.get_opposite());
    }
}

#[test]
fn unit_vector_round_trip() {
    for d in ALL_DIRECTIONS {
        let uv = d.direction_get_unit_vector();
        assert_eq!(Direction::direction_from_unit_vector(&uv), d);
    }
}

#[test]
fn neighbor_adds_the_unit_vector() {
    let c = Coord::new(3, -2);
    assert_eq!(c.calculate_neighbor(Direction::Up), Coord::new(3, -3));
    assert_eq!(c.calculate_neighbor(Direction::Right), Coord::new(4, -2));
    assert_eq!(c.calculate_neighbor(Direction::Down), Coord::new(3, -1));
    assert_eq!(c.calculate_neighbor(Direction::Left), Coord::new(2, -2));
}

#[test]
fn neighbor_at_the_edge_of_i32() {
    let c = Coord::new(i32::MAX - 1, i32::MIN + 1);
    assert_eq!(c.calculate_neighbor(Direction::Right), Coord::new(i32::MAX, i32::MIN + 1));
    assert_eq!(c.calculate_neighbor(Direction::Up), Coord::new(i32::MAX - 1, i32::MIN));
}

#[test]
fn direction_between_adjacent_cells() {
    let c = Coord::new(0, 0);
    assert_eq!(c.direction_to(&Coord::new(0, -1)), Some(Direction::Up));
    assert_eq!(c.direction_to(&Coord::new(1, 0)), Some(Direction::Right));
    assert_eq!(c.direction_to(&Coord::new(0, 1)), Some(Direction::Down));
    assert_eq!(c.direction_to(&Coord::new(-1, 0)), Some(Direction::Left));
}

#[test]
fn direction_between_is_the_inverse_of_neighbor() {
    let c = Coord::new(-7, 12);
    for d in ALL_DIRECTIONS {
        assert_eq!(c.direction_to(&c.calculate_neighbor(d)), Some(d));
        assert_eq!(c.calculate_neighbor(d).direction_to(&c), Some(d.get_opposite()));
    }
}

#[test]
fn no_direction_between_equal_diagonal_or_distant_cells() {
    let c = Coord::new(2, 2);
    assert_eq!(c.direction_to(&Coord::new(2, 2)), None);
    assert_eq!(c.direction_to(&Coord::new(3, 3)), None);
    assert_eq!(c.direction_to(&Coord::new(1, 3)), None);
    assert_eq!(c.direction_to(&Coord::new(4, 2)), None);
    assert_eq!(c.direction_to(&Coord::new(2, 0)), None);
    assert_eq!(c.direction_to(&Coord::new(-5, 2)), None);
}

#[test]
fn no_direction_across_the_limits_of_i32() {
    let low = Coord::new(i32::MIN, 0);
    let high = Coord::new(i32::MAX, 0);
    assert_eq!(low.direction_to(&high), None);
    assert_eq!(high.direction_to(&low), None);
}

#[test]
fn coord_accessors() {
    let c = Coord::new(5, -6);
    assert_eq!(c.get_x(), 5);
    assert_eq!(c.get_y(), -6);
    assert_eq!(c.as_tuple(), (5, -6));
    assert_eq!(c, Pair { x: 5, y: -6 });
}

#[test]
fn generic_pair_accessors() {
    let p = Pair { x: 'a', y: 'b' };
    assert_eq!(p.get_x(), 'a');
    assert_eq!(p.get_y(), 'b');
}

#[test]
fn offset_between_two_cells() {
    let a = Coord::new(3, 4);
    let b = Coord::new(1, 1);
    assert_eq!(a.unit_vector_to(&b), Coord::new(2, 3));
    assert_eq!(b.unit_vector_to(&a), Coord::new(-2, -3));
    assert_eq!(a - b, Coord::new(2, 3));
}

#[test]
fn coordinate_range_of_even_sizes() {
    assert_eq!(make_coordinate_range(4), (-2, 1));
    assert_eq!(make_coordinate_range(2), (-1, 0));
    assert_eq!(make_coordinate_range(48), (-24, 23));
    assert_eq!(make_coordinate_range(18), (-9, 8));
}

#[test]
fn coordinate_range_of_odd_sizes() {
    assert_eq!(make_coordinate_range(5), (-2, 2));
    assert_eq!(make_coordinate_range(1), (0, 0));
    assert_eq!(make_coordinate_range(15), (-7, 7));
}

#[test]
fn coordinate_range_of_extreme_sizes() {
    assert_eq!(make_coordinate_range(0), (0, -1));
    assert_eq!(make_coordinate_range(u32::MAX), (-2147483647, 2147483647));
    assert_eq!(make_coordinate_range(u32::MAX - 1), (-2147483647, 2147483646));
}

#[test]
fn coordinate_range_holds_as_many_cells_as_the_size() {
    for size in 1u32..200 {
        let (lo, hi) = make_coordinate_range(size);
        assert_eq!((hi - lo + 1) as u32, size);
        assert!(lo <= 0 && 0 <= hi);
    }
}

#[test]
fn rotation_matrices() {
    assert_eq!(*Direction::Up.rotation_matrix(), ((1, 0), (0, 1)));
    assert_eq!(*Direction::Left.rotation_matrix(), ((0, 1), (-1, 0)));
    assert_eq!(*Direction::Down.rotation_matrix(), ((-1, 0), (0, -1)));
    assert_eq!(*Direction::Right.rotation_matrix(), ((0, -1), (1, 0)));
}

#[test]
fn rotation_of_a_point() {
    let p = Coord::new(1, 2);
    assert_eq!(Direction::Up.rotate(&p), Coord::new(1, 2));
    assert_eq!(Direction::Right.rotate(&p), Coord::new(-2, 1));
    assert_eq!(Direction::Down.rotate(&p), Coord::new(-1, -2));
    assert_eq!(Direction::Left.rotate(&p), Coord::new(2, -1));
}

#[test]
fn rotation_by_up_keeps_the_least_i32() {
    let p = Coord::new(i32::MIN, i32::MIN);
    assert_eq!(Direction::Up.rotate(&p), p);
}

#[test]
fn input_directions() {
    assert_eq!(InputType::Up.get_direction(), Some(Direction::Up));
    assert_eq!(InputType::Right.get_direction(), Some(Direction::Right));
    assert_eq!(InputType::Down.get_direction(), Some(Direction::Down));
    assert_eq!(InputType::Left.get_direction(), Some(Direction::Left));
    assert_eq!(InputType::Nothing.get_direction(), None);
    assert_eq!(InputType::Quit.get_direction(), None);
}
