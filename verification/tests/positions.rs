use chess::displacement::Displacement;
use chess::position::Position;

#[test]
fn test_add_position() {
    let mut p = Position { x: 0, y: 0 };
    let m_up = Displacement { dx: 0, dy: 1 };
    let m_right = Displacement { dx: 1, dy: 0 };

    for _ in 0..10 {
        p = p + m_right + m_up
    }
    assert_eq!(p, Position { x: 10, y: 10 })
}

#[test]
fn stepping_off_the_low_edge_wraps_out_of_bounds() {
    let p = Position { x: 0, y: 3 };
    let q = p + Displacement { dx: -1, dy: 0 };
    assert_eq!(q, Position { x: usize::MAX, y: 3 });
    assert_eq!(q + Displacement { dx: 1, dy: 0 }, p);
}

#[test]
fn subtraction_undoes_addition() {
    let p = Position { x: 4, y: 4 };
    let v = Displacement { dx: -2, dy: 1 };
    assert_eq!(p + v, Position { x: 2, y: 5 });
    assert_eq!((p + v) - v, p);
    assert_eq!(p - Displacement { dx: 0, dy: 1 }, Position { x: 4, y: 3 });
}

#[test]
fn scaled_displacement_multiplies_both_parts() {
    assert_eq!(Displacement::left().scaled(3), Displacement { dx: -3, dy: 0 });
    assert_eq!(Displacement::right().scaled(2), Displacement { dx: 2, dy: 0 });
}

#[test]
fn add_assign_moves_in_place() {
    let mut p = Position { x: 3, y: 3 };
    p += Displacement { dx: 2, dy: -3 };
    assert_eq!(p, Position { x: 5, y: 0 });
    p += Displacement { dx: 0, dy: -1 };
    assert_eq!(p, Position { x: 5, y: usize::MAX });
}
