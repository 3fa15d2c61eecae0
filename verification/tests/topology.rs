use life_kernel::topology::{Direction, Topology, Wrap, MAX_CELLS};

fn shape(width: usize, height: usize, wrap: Wrap) -> Topology {
    Topology::new(width, height, wrap).unwrap()
}

#[test]
fn new_accepts_admissible_extents() {
    let t = shape(4, 3, Wrap::Toroidal);
    assert_eq!(t.width, 4);
    assert_eq!(t.height, 3);
    assert_eq!(t.wrap, Wrap::Toroidal);
    assert_eq!(t.length(), 12);
    assert!(Topology::new(1, 1, Wrap::KleinBottle).is_some());
    assert!(Topology::new(MAX_CELLS, 1, Wrap::Toroidal).is_some());
}

#[test]
fn new_rejects_empty_and_oversized_extents() {
    assert!(Topology::new(0, 3, Wrap::Toroidal).is_none());
    assert!(Topology::new(3, 0, Wrap::Toroidal).is_none());
    assert!(Topology::new(MAX_CELLS, 2, Wrap::Toroidal).is_none());
    assert!(Topology::new(usize::MAX, usize::MAX, Wrap::KleinBottle).is_none());
}

#[test]
fn index_wraps_both_coordinates() {
    let t = shape(4, 3, Wrap::Toroidal);
    assert_eq!(t.index(0, 0), 0);
    assert_eq!(t.index(3, 2), 11);
    assert_eq!(t.index(4, 3), 0);
    assert_eq!(t.index(5, 4), 5);
    assert_eq!(t.index(-1, -1), 11);
    assert_eq!(t.index(-4, -3), 0);
    assert_eq!(t.index(-5, 0), 3);
    assert_eq!(t.index(i32::MIN, i32::MAX), 0 + 1 * 4);
    assert_eq!(t.index(i32::MAX, i32::MIN), 3 + 1 * 4);
}

#[test]
fn interior_neighbors_are_the_same_under_both_wraps() {
    for wrap in [Wrap::Toroidal, Wrap::KleinBottle] {
        let t = shape(5, 5, wrap);
        let i = 12;
        assert_eq!(t.neighbor(Direction::Up, i), 7);
        assert_eq!(t.neighbor(Direction::Down, i), 17);
        assert_eq!(t.neighbor(Direction::Left, i), 11);
        assert_eq!(t.neighbor(Direction::Right, i), 13);
        assert_eq!(t.neighbor(Direction::UpLeft, i), 6);
        assert_eq!(t.neighbor(Direction::DownLeft, i), 16);
        assert_eq!(t.neighbor(Direction::UpRight, i), 8);
        assert_eq!(t.neighbor(Direction::DownRight, i), 18);
    }
}

#[test]
fn vertical_moves_wrap_onto_the_same_column() {
    for wrap in [Wrap::Toroidal, Wrap::KleinBottle] {
        let t = shape(4, 3, wrap);
        assert_eq!(t.up(1), 9);
        assert_eq!(t.down(9), 1);
        assert_eq!(t.up(5), 1);
        assert_eq!(t.down(5), 9);
    }
}

#[test]
fn torus_corner_sees_the_opposite_corner() {
    let t = shape(4, 3, Wrap::Toroidal);
    assert_eq!(t.neighbor(Direction::UpLeft, 0), 11);
    assert_eq!(t.neighbor(Direction::Left, 0), 3);
    assert_eq!(t.neighbor(Direction::Up, 0), 8);
    assert_eq!(t.neighbor(Direction::DownRight, 11), 0);
    assert_eq!(t.neighbor(Direction::Right, 11), 8);
    assert_eq!(t.neighbor(Direction::DownLeft, 8), 3);
    assert_eq!(t.neighbor(Direction::UpRight, 3), 8);
}

#[test]
fn klein_edge_lands_on_the_mirrored_index() {
    let t = shape(4, 4, Wrap::KleinBottle);
    // column 0 of row 1: not column 3 of row 1 (index 7), but 15 - 4
    assert_eq!(t.left(4), 11);
    assert_eq!(t.left(0), 15);
    assert_eq!(t.left(12), 3);
    // the last column going right
    assert_eq!(t.right(7), 8);
    assert_eq!(t.right(15), 0);
    assert_eq!(t.right(3), 12);
    // diagonals move sideways first, then vertically
    assert_eq!(t.neighbor(Direction::UpLeft, 4), 7);
    assert_eq!(t.neighbor(Direction::DownLeft, 4), 15);
    assert_eq!(t.neighbor(Direction::UpRight, 7), 4);
    assert_eq!(t.neighbor(Direction::DownRight, 7), 12);
    assert_eq!(t.neighbor(Direction::UpLeft, 0), 11);
}

#[test]
fn every_neighbor_of_every_cell_is_in_the_grid() {
    let directions = [
        Direction::Up,
        Direction::Down,
        Direction::Left,
        Direction::Right,
        Direction::UpLeft,
        Direction::DownLeft,
        Direction::UpRight,
        Direction::DownRight,
    ];
    for wrap in [Wrap::Toroidal, Wrap::KleinBottle] {
        for (w, h) in [(1, 1), (1, 4), (4, 1), (2, 2), (3, 5), (6, 4)] {
            let t = shape(w, h, wrap);
            for i in 0..t.length() {
                for d in directions {
                    assert!(t.neighbor(d, i) < t.length());
                }
            }
        }
    }
}

#[test]
fn torus_moves_follow_the_coordinates() {
    let t = shape(5, 4, Wrap::Toroidal);
    for y in -6..6 {
        for x in -7..7 {
            let i = t.index(x, y);
            assert_eq!(t.left(i), t.index(x - 1, y));
            assert_eq!(t.right(i), t.index(x + 1, y));
            assert_eq!(t.up(i), t.index(x, y - 1));
            assert_eq!(t.down(i), t.index(x, y + 1));
            assert_eq!(t.neighbor(Direction::UpLeft, i), t.index(x - 1, y - 1));
            assert_eq!(t.neighbor(Direction::DownRight, i), t.index(x + 1, y + 1));
        }
    }
}

#[test]
fn klein_edges_follow_the_mirrored_coordinates() {
    let t = shape(5, 4, Wrap::KleinBottle);
    for y in -6..6 {
        let a = t.index(0, y);
        assert_eq!(t.left(a), t.length() - 1 - a);
        assert_eq!(t.left(a), t.index(4, 3 - y));
        let b = t.index(4, y);
        assert_eq!(t.right(b), t.length() - 1 - b);
        assert_eq!(t.right(b), t.index(0, 3 - y));
    }
}
