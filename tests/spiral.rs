use std::collections::HashSet;

use grambulate::{get_coords, get_diagonal_properties, get_value_at_coords, Coordinate};

#[test]
fn test_get_coords() {
    let diagonal_props = &get_diagonal_properties();

    assert_eq!(get_coords(1, diagonal_props), Coordinate { x: 0, y: 0 },);
    assert_eq!(get_coords(2, diagonal_props), Coordinate { x: 1, y: 0 },);
    assert_eq!(get_coords(3, diagonal_props), Coordinate { x: 1, y: 1 },);
    assert_eq!(get_coords(7, diagonal_props), Coordinate { x: -1, y: -1 },);
    assert_eq!(get_coords(9, diagonal_props), Coordinate { x: 1, y: -1 },);
    assert_eq!(get_coords(25, diagonal_props), Coordinate { x: 2, y: -2 },);
    assert_eq!(get_coords(49, diagonal_props), Coordinate { x: 3, y: -3 },);
    assert_eq!(get_coords(281, diagonal_props), Coordinate { x: 0, y: -8 },);
    assert_eq!(get_coords(100, diagonal_props), Coordinate { x: -4, y: 5 },);
}

#[test]
fn test_get_value_at_coords() {
    let diagonal_props = &get_diagonal_properties();

    assert_eq!(
        get_value_at_coords(&Coordinate { x: 0, y: 0 }, diagonal_props),
        1,
    );
    assert_eq!(
        get_value_at_coords(&Coordinate { x: 1, y: 0 }, diagonal_props),
        2,
    );
    assert_eq!(
        get_value_at_coords(&Coordinate { x: 1, y: 1 }, diagonal_props),
        3,
    );
    assert_eq!(
        get_value_at_coords(&Coordinate { x: 0, y: 1 }, diagonal_props),
        4,
    );

    assert_eq!(
        get_value_at_coords(&Coordinate { x: 1, y: -1 }, diagonal_props),
        9,
    );
    assert_eq!(
        get_value_at_coords(&Coordinate { x: 2, y: -1 }, diagonal_props),
        10,
    );
    assert_eq!(
        get_value_at_coords(&Coordinate { x: 2, y: 0 }, diagonal_props),
        11,
    );
}

#[test]
fn values_round_trip_through_their_points() {
    let props = get_diagonal_properties();
    for v in 1u64..=5000 {
        let c = get_coords(v, &props);
        assert_eq!(get_value_at_coords(&c, &props), v as u128);
    }
    for v in [u64::MAX, u64::MAX - 1, 1u64 << 63, (1u64 << 62) + 1, 4294967295] {
        let c = get_coords(v, &props);
        assert_eq!(get_value_at_coords(&c, &props), v as u128);
    }
}

#[test]
fn distinct_values_land_on_distinct_points() {
    let props = get_diagonal_properties();
    let mut seen = HashSet::new();
    for v in 1u64..=5000 {
        let c = get_coords(v, &props);
        assert!(seen.insert((c.x, c.y)));
    }
}

#[test]
fn points_round_trip_through_their_values() {
    let props = get_diagonal_properties();
    for x in -20i64..=20 {
        for y in -20i64..=20 {
            let v = get_value_at_coords(&Coordinate { x, y }, &props);
            assert_eq!(get_coords(v as u64, &props), Coordinate { x, y });
        }
    }
}

#[test]
fn value_at_the_edge_of_the_plane() {
    let props = get_diagonal_properties();
    let r = i64::MAX as u128;
    assert_eq!(
        get_value_at_coords(&Coordinate { x: i64::MAX, y: 0 }, &props),
        4 * r * r - 3 * r + 1
    );
    assert_eq!(
        get_value_at_coords(&Coordinate { x: i64::MAX, y: -i64::MAX }, &props),
        (2 * r + 1) * (2 * r + 1)
    );
}

#[test]
fn coords_of_the_largest_value() {
    let props = get_diagonal_properties();
    assert_eq!(
        get_coords(u64::MAX, &props),
        Coordinate { x: -2147483646, y: 2147483648 }
    );
}
