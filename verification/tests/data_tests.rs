use snake_core::data::{Block, Bounding, Coordinate, Direction, Key, UncheckedCoordinate, Wrapping};
use snake_core::grid::Grid;

#[test]
fn test_block_size() {
    // nested enum optimization kicking in
    assert_eq!(::std::mem::size_of::<Block>(), 1,)
}

#[test]
fn test_unchecked_coordinate_generic_inside() {
    let orig = Coordinate { x: 0, y: 0 };
    let unchecked = orig.move_towards(Direction::West);

    let grid = Grid::empty(10, 2);

    assert_eq!(
        unchecked.inside::<Wrapping>(&grid),
        Some(Coordinate { x: 9, y: 0 })
    );
    assert_eq!(unchecked.inside::<Bounding>(&grid), None);
}

#[test]
fn key_codes_map_to_directions() {
    assert_eq!(Key::from_code(37).direction(), Some(Direction::West));
    assert_eq!(Key::from_code(38).direction(), Some(Direction::North));
    assert_eq!(Key::from_code(39).direction(), Some(Direction::East));
    assert_eq!(Key::from_code(40).direction(), Some(Direction::South));
    assert_eq!(Key::from_code(41).direction(), None);
    assert_eq!(Key::none().direction(), None);
}

#[test]
fn key_direction_detection() {
    assert!(Key::from_code(37).is_direction_key());
    assert!(Key::from_code(40).is_direction_key());
    assert!(!Key::from_code(0).is_direction_key());
    assert!(!Key::none().is_direction_key());
    assert!(!Key::from_code(36).is_direction_key());
}

#[test]
fn double_opposite_is_identity() {
    for d in [
        Direction::North,
        Direction::South,
        Direction::East,
        Direction::West,
    ] {
        assert_eq!(d.opposite().opposite(), d);
    }
}

#[test]
fn turns_compose_as_expected() {
    assert_eq!(Direction::North.turn_left(), Direction::West);
    assert_eq!(Direction::West.turn_left(), Direction::South);
    assert_eq!(Direction::South.turn_left(), Direction::East);
    assert_eq!(Direction::East.turn_left(), Direction::North);
    assert_eq!(Direction::North.turn_right(), Direction::East);
    assert_eq!(Direction::East.turn_right(), Direction::South);
}

#[test]
fn block_queries() {
    let b: Block = Block::Snake(Direction::East);
    assert!(!b.is_empty());
    assert!(Block::<Direction>::Empty.is_empty());
    assert_eq!(b.snake(), Some(Direction::East));
    assert_eq!(Block::<Direction>::Food.snake(), None);
    assert_eq!(b.snake_or_err("no snake"), Ok(Direction::East));
    assert_eq!(
        Block::<Direction>::Empty.snake_or_err("no snake"),
        Err("no snake")
    );
    assert_eq!(
        Block::from_direction(Direction::South),
        Block::Snake(Direction::South)
    );
}

#[test]
fn encode_has_exact_interleaved_value() {
    // x = 3 (bits 11) fills even positions, y = 5 (bits 101) odd positions:
    // 0b100111 = 39
    assert_eq!(Coordinate { x: 3, y: 5 }.encode_usize(), 39);
    assert_eq!(Coordinate { x: 0, y: 0 }.encode_usize(), 0);
    assert_eq!(Coordinate { x: 1, y: 0 }.encode_usize(), 1);
    assert_eq!(Coordinate { x: 0, y: 1 }.encode_usize(), 2);
    assert_eq!(
        Coordinate {
            x: 65535,
            y: 65535
        }
        .encode_usize(),
        0xFFFF_FFFF
    );
}

#[test]
fn encode_decode_round_trip() {
    for (x, y) in [(0u16, 0u16), (1, 2), (3, 5), (255, 254), (65535, 0), (12345, 54321)] {
        let c = Coordinate { x, y };
        assert_eq!(Coordinate::decode_usize(c.encode_usize()), c);
    }
    assert_eq!(Coordinate::decode_usize(39), Coordinate { x: 3, y: 5 });
}

#[test]
fn encode_agrees_with_morton_crate() {
    for (x, y) in [(0u16, 0u16), (1, 2), (3, 5), (1000, 2000), (65535, 65535)] {
        let c = Coordinate { x, y };
        assert_eq!(c.encode_usize(), morton::interleave_morton(x, y) as usize);
        let (mx, my) = morton::deinterleave_morton(c.encode_usize() as u32);
        assert_eq!((mx, my), (x, y));
    }
}

#[test]
fn from_usizes_truncates_to_sixteen_bits() {
    assert_eq!(
        Coordinate::from_usizes(7, 11),
        Coordinate { x: 7, y: 11 }
    );
    assert_eq!(
        Coordinate::from_usizes(70000, 3),
        Coordinate { x: 4464, y: 3 }
    );
}

#[test]
fn coordinate_usize_preserves_partial_order() {
    let pairs = [
        (Coordinate { x: 1, y: 1 }, Coordinate { x: 2, y: 2 }),
        (Coordinate { x: 2, y: 2 }, Coordinate { x: 1, y: 1 }),
        (Coordinate { x: 5, y: 5 }, Coordinate { x: 5, y: 5 }),
        (Coordinate { x: 0, y: 7 }, Coordinate { x: 0, y: 9 }),
        (Coordinate { x: 4, y: 3 }, Coordinate { x: 9, y: 3 }),
    ];
    for (a, b) in pairs {
        if let Some(ordering) = a.partial_cmp(&b) {
            assert_eq!(ordering, a.encode_usize().cmp(&b.encode_usize()));
        }
    }
}

#[test]
fn conflicting_axes_are_incomparable() {
    let a = Coordinate { x: 1, y: 2 };
    let b = Coordinate { x: 2, y: 1 };
    assert_eq!(a.partial_cmp(&b), None);
    assert_eq!(b.partial_cmp(&a), None);
}

#[test]
fn opposite_direction_moves_cancel() {
    let (width, height) = (5u16, 4u16);
    for d in [
        Direction::North,
        Direction::South,
        Direction::East,
        Direction::West,
    ] {
        for start in [
            Coordinate { x: 0, y: 0 },
            Coordinate { x: 4, y: 3 },
            Coordinate { x: 2, y: 0 },
        ] {
            let coord = start.move_towards(d).wrap_inside(width, height);
            let back = coord
                .move_towards(d.opposite())
                .wrap_inside(width, height);
            let orig = UncheckedCoordinate::new(start.x, start.y).wrap_inside(width, height);
            assert_eq!(back, orig);
        }
    }
}

#[test]
fn coord_returns_after_enws_moves() {
    let (width, height) = (3u16, 7u16);
    for start in [
        Coordinate { x: 0, y: 0 },
        Coordinate { x: 2, y: 6 },
        Coordinate { x: 1, y: 3 },
    ] {
        let orig = UncheckedCoordinate::new(start.x, start.y).wrap_inside(width, height);
        let mut coord = orig;
        coord = coord.move_towards(Direction::East).wrap_inside(width, height);
        coord = coord
            .move_towards(Direction::North)
            .wrap_inside(width, height);
        coord = coord.move_towards(Direction::West).wrap_inside(width, height);
        coord = coord
            .move_towards(Direction::South)
            .wrap_inside(width, height);
        assert_eq!(coord, orig);
    }
}

#[test]
fn coord_wrap_is_identity_if_already_inside() {
    let (width, height) = (10u16, 2u16);
    for t in [
        UncheckedCoordinate::new(0, 0),
        UncheckedCoordinate::new(9, 1),
        UncheckedCoordinate::new(5, 0),
        UncheckedCoordinate::new(12, 1),
        UncheckedCoordinate::new(3, 40000),
    ] {
        if let Some(bounded) = t.bound_inside(width, height) {
            assert_eq!(t.wrap_inside(width, height), bounded);
        }
    }
}

#[test]
fn wrap_reduces_out_of_range_components() {
    // one step below zero wraps to the far edge
    let under = Coordinate { x: 0, y: 0 }.move_towards(Direction::North);
    assert_eq!(
        under.wrap_inside(6, 6),
        Coordinate { x: 0, y: 5 }
    );
    // one step past the edge wraps to zero
    let over = Coordinate { x: 5, y: 0 }.move_towards(Direction::East);
    assert_eq!(over.wrap_inside(6, 6), Coordinate { x: 0, y: 0 });
}

#[test]
fn clip_rejects_out_of_range_components() {
    assert_eq!(UncheckedCoordinate::new(6, 0).bound_inside(6, 6), None);
    assert_eq!(UncheckedCoordinate::new(0, 6).bound_inside(6, 6), None);
    assert_eq!(
        UncheckedCoordinate::new(5, 5).bound_inside(6, 6),
        Some(Coordinate { x: 5, y: 5 })
    );
}
