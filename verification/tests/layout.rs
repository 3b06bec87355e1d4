use grid_select::grid::GridPosition;
use grid_select::layout::{grid_position_to_screen, ScreenPosition, Space};

#[test]
fn simple() {
    assert_eq!(
        grid_position_to_screen(
            &Space { width: 1000, height: 1000 },
            &GridPosition::new(0, 0),
            100,
            50,
            0
        ),
        (ScreenPosition { x: 450, y: 475 }, Space { width: 100, height: 50 })
    );

    assert_eq!(
        grid_position_to_screen(
            &Space { width: 1000, height: 1000 },
            &GridPosition::new(0, 1),
            100,
            50,
            0
        ),
        (ScreenPosition { x: 450, y: 525 }, Space { width: 100, height: 50 })
    );

    assert_eq!(
        grid_position_to_screen(
            &Space { width: 1000, height: 1000 },
            &GridPosition::new(1, 0),
            100,
            50,
            0
        ),
        (ScreenPosition { x: 550, y: 475 }, Space { width: 100, height: 50 })
    );
}

#[test]
fn margin_and_negative_coordinates() {
    // one step left of centre, with a margin: offset by -(width + margin)
    let (pos, space) = grid_position_to_screen(
        &Space { width: 1000, height: 1000 },
        &GridPosition::new(-1, -1),
        100,
        50,
        10,
    );
    assert_eq!(pos, ScreenPosition { x: 340, y: 415 });
    // the margin affects spacing, not the cell size
    assert_eq!(space, Space { width: 100, height: 50 });
}
