use grid_select::colour::{Colour, Colours};
use grid_select::config;
use grid_select::grid::{Grid, GridPosition};
use grid_select::render::DrawableItems;

#[test]
fn from_rgba_packs_big_endian() {
    assert_eq!(Colour::from_rgba(0x12, 0x34, 0x56, 0x78).0, 0x12345678);
    assert_eq!(Colour::from_rgba(0, 0, 0, 0).0, 0);
    assert_eq!(Colour::from_rgba(0xff, 0xff, 0xff, 0xff).0, 0xffffffff);
}

#[test]
fn to_rgba_unpacks_big_endian() {
    assert_eq!(Colour(0x12345678).to_rgba(), [0x12, 0x34, 0x56, 0x78]);
    assert_eq!(Colour(0xff000001).to_rgba(), [0xff, 0x00, 0x00, 0x01]);
    let c = Colour::from_rgba(0xab, 0xcd, 0xef, 0x01);
    assert_eq!(c.to_rgba(), [0xab, 0xcd, 0xef, 0x01]);
}

#[test]
fn single_colour_cycles_constantly() {
    let colours = Colours::One(Colour(0x11223344));
    assert_eq!(colours.cycle(0), Colour(0x11223344));
    assert_eq!(colours.cycle(1), Colour(0x11223344));
    assert_eq!(colours.cycle(100), Colour(0x11223344));
}

#[test]
fn colour_list_cycles_modulo_its_length() {
    let colours = Colours::Many(vec![Colour(1), Colour(2), Colour(3)]);
    assert_eq!(colours.cycle(0), Colour(1));
    assert_eq!(colours.cycle(1), Colour(2));
    assert_eq!(colours.cycle(2), Colour(3));
    assert_eq!(colours.cycle(3), Colour(1));
    assert_eq!(colours.cycle(7), Colour(2));
}

#[test]
fn default_colours_match_the_packed_values() {
    match config::bg_colour() {
        Colours::One(c) => assert_eq!(c, Colour(0x3c3836ff)),
        Colours::Many(_) => panic!("the default background is one colour"),
    }
    assert_eq!(config::fg_colour(), Colour(0xa89984ff));
    assert_eq!(config::active_bg_colour(), Colour(0xfabd2fff));
    assert_eq!(config::active_fg_colour(), Colour(0x282828ff));
    assert_eq!(config::border_colour(), Colour(0xebdbb2ff));
}

#[test]
fn from_grid_cycles_colours_in_spiral_order() {
    let names: Vec<String> = ["a", "b", "c", "d", "e"].iter().map(|s| s.to_string()).collect();
    let grid = Grid::new(&names).unwrap();
    let colours = Colours::Many(vec![Colour(10), Colour(20)]);
    let drawables = DrawableItems::from_grid(&colours, &grid);

    assert_eq!(drawables.items.len(), 5);
    let expected = [
        (0, 0, "a", 10),
        (0, 1, "b", 20),
        (1, 0, "c", 10),
        (0, -1, "d", 20),
        (-1, 0, "e", 10),
    ];
    for (item, &(x, y, text, colour)) in drawables.items.iter().zip(expected.iter()) {
        assert_eq!((item.grid_position.x, item.grid_position.y), (x, y));
        assert_eq!(item.text, text);
        assert_eq!(item.normal_bg_colour, Colour(colour));
    }
}

#[test]
fn at_positions_filters_and_keeps_order() {
    let names: Vec<String> = ["a", "b", "c", "d", "e"].iter().map(|s| s.to_string()).collect();
    let grid = Grid::new(&names).unwrap();
    let drawables = DrawableItems::from_grid(&Colours::One(Colour(7)), &grid);

    let wanted = [GridPosition::new(1, 0), GridPosition::new(0, 0)];
    let hits = drawables.at_positions(&wanted);
    assert_eq!(hits.len(), 2);
    // stored (spiral) order, not the order of the query
    assert_eq!(hits[0].text, "a");
    assert_eq!(hits[1].text, "c");

    // an unoccupied coordinate matches nothing
    let misses = drawables.at_positions(&[GridPosition::new(2, 2)]);
    assert!(misses.is_empty());
}
