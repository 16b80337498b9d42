use poemgrid::grid::{Area, Cell, Color, GridBuffer, Symbol};

fn cell(c: char) -> Cell {
    Cell { symbol: Symbol::One(c), fg: Color::Reset, bg: Color::Reset }
}

#[test]
fn new_fills_every_cell() {
    let g = GridBuffer::new(3, 2, cell('x'));
    assert_eq!(g.width(), 3);
    assert_eq!(g.height(), 2);
    for y in 0..2 {
        for x in 0..3 {
            assert_eq!(g.get(x, y), cell('x'));
        }
    }
}

#[test]
fn set_changes_only_one_cell() {
    let mut g = GridBuffer::new(3, 3, cell('.'));
    g.set(1, 2, cell('z'));
    for y in 0..3 {
        for x in 0..3 {
            if (x, y) == (1, 2) {
                assert_eq!(g.get(x, y), cell('z'));
            } else {
                assert_eq!(g.get(x, y), cell('.'));
            }
        }
    }
}

#[test]
fn compose_copies_intersection_at_origin() {
    let mut src = GridBuffer::new(2, 2, cell('s'));
    src.set(1, 0, cell('t'));
    let mut dest = GridBuffer::new(5, 5, cell('.'));
    src.compose(Area::new(1, 1, 3, 3), &mut dest);
    assert_eq!(dest.get(1, 1), cell('s'));
    assert_eq!(dest.get(2, 1), cell('t'));
    assert_eq!(dest.get(1, 2), cell('s'));
    assert_eq!(dest.get(2, 2), cell('s'));
    // Cells of the area beyond the source's extent are untouched.
    assert_eq!(dest.get(3, 1), cell('.'));
    assert_eq!(dest.get(1, 3), cell('.'));
    // Cells outside the area are untouched.
    assert_eq!(dest.get(0, 0), cell('.'));
    assert_eq!(dest.get(4, 4), cell('.'));
    assert_eq!(dest.get(0, 2), cell('.'));
}

#[test]
fn compose_clips_to_small_area() {
    let src = GridBuffer::new(3, 3, cell('s'));
    let mut dest = GridBuffer::new(5, 5, cell('.'));
    src.compose(Area::new(0, 0, 2, 2), &mut dest);
    for y in 0..5 {
        for x in 0..5 {
            if x < 2 && y < 2 {
                assert_eq!(dest.get(x, y), cell('s'));
            } else {
                assert_eq!(dest.get(x, y), cell('.'));
            }
        }
    }
}
