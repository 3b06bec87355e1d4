use grid_select::grid::GridPosition;
use grid_select::spiral::{
    positions_in_ring, ring_diameter, sufficient_diameter, total_positions_within, SpiralGenerator,
};

#[test]
fn test_iterator() {
    let mut sg = SpiralGenerator::new();

    // ring 0
    assert_eq!(sg.next(), Some(GridPosition::new(0, 0)));

    // ring 1
    assert_eq!(sg.next(), Some(GridPosition::new(0, 1)));
    assert_eq!(sg.next(), Some(GridPosition::new(1, 0)));
    assert_eq!(sg.next(), Some(GridPosition::new(0, -1)));
    assert_eq!(sg.next(), Some(GridPosition::new(-1, 0)));

    // ring 2
    assert_eq!(sg.next(), Some(GridPosition::new(0, 2)));
    assert_eq!(sg.next(), Some(GridPosition::new(1, 1)));
    assert_eq!(sg.next(), Some(GridPosition::new(2, 0)));
    assert_eq!(sg.next(), Some(GridPosition::new(1, -1)));
    assert_eq!(sg.next(), Some(GridPosition::new(0, -2)));
}

#[test]
fn test_ring_diameter() {
    assert_eq!(1, ring_diameter(0));
    assert_eq!(3, ring_diameter(1));
    assert_eq!(5, ring_diameter(2));
    assert_eq!(7, ring_diameter(3));
}

#[test]
fn test_positions_in_ring() {
    assert_eq!(1, positions_in_ring(0));
    assert_eq!(4, positions_in_ring(1));
    assert_eq!(8, positions_in_ring(2));
    assert_eq!(12, positions_in_ring(3));
}

#[test]
fn test_sufficient_diameter() {
    assert_eq!(0, sufficient_diameter(0));
    assert_eq!(1, sufficient_diameter(1));
    assert_eq!(3, sufficient_diameter(2));
    assert_eq!(3, sufficient_diameter(3));
    assert_eq!(3, sufficient_diameter(4));
    assert_eq!(3, sufficient_diameter(5));
    assert_eq!(5, sufficient_diameter(6));
}

#[test]
fn test_total_positions_within() {
    assert_eq!(1, total_positions_within(0));
    assert_eq!(5, total_positions_within(1));
    assert_eq!(13, total_positions_within(2));
    assert_eq!(25, total_positions_within(3));
}

#[test]
fn test_ring_three_walk() {
    let mut sg = SpiralGenerator::new();
    // skip rings 0..=2
    for _ in 0..13 {
        sg.next();
    }
    // ring 3 starts at the bottom and walks up and to the right
    assert_eq!(sg.next(), Some(GridPosition::new(0, 3)));
    assert_eq!(sg.next(), Some(GridPosition::new(1, 2)));
    assert_eq!(sg.next(), Some(GridPosition::new(2, 1)));
    assert_eq!(sg.next(), Some(GridPosition::new(3, 0)));
    assert_eq!(sg.next(), Some(GridPosition::new(2, -1)));
    assert_eq!(sg.next(), Some(GridPosition::new(1, -2)));
    assert_eq!(sg.next(), Some(GridPosition::new(0, -3)));
    assert_eq!(sg.next(), Some(GridPosition::new(-1, -2)));
    assert_eq!(sg.next(), Some(GridPosition::new(-2, -1)));
    assert_eq!(sg.next(), Some(GridPosition::new(-3, 0)));
    assert_eq!(sg.next(), Some(GridPosition::new(-2, 1)));
    assert_eq!(sg.next(), Some(GridPosition::new(-1, 2)));
    // next comes ring 4
    assert_eq!(sg.next(), Some(GridPosition::new(0, 4)));
}

#[test]
fn test_sufficient_diameter_boundaries() {
    // the last count that fits each ring, and the first that does not
    assert_eq!(5, sufficient_diameter(13));
    assert_eq!(7, sufficient_diameter(14));
    assert_eq!(7, sufficient_diameter(25));
    assert_eq!(9, sufficient_diameter(26));
}
