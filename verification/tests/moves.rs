use checkers::error::MoveError;
use checkers::moves::{Move, Position};

#[test]
fn coords_round_trip_for_every_cell() {
    for x in 0..8 {
        for y in 0..8 {
            let pos = Position::from_coords(x, y);
            assert_eq!(pos.coords(), (x, y));
            assert_eq!(pos.idx(), y * 8 + x);
            assert_eq!(Position::from_idx(pos.idx()).coords(), (x, y));
        }
    }
}

#[test]
fn checked_constructors_reject_out_of_range() {
    assert_eq!(Position::from_idx_checked(63).map(|p| p.idx()), Ok(63));
    assert_eq!(
        Position::from_idx_checked(64),
        Err(MoveError::PositionOutOfRange)
    );
    assert_eq!(
        Position::from_coords_checked(7, 7).map(|p| p.idx()),
        Ok(63)
    );
    assert_eq!(
        Position::from_coords_checked(-1, 3),
        Err(MoveError::PositionOutOfRange)
    );
    assert_eq!(
        Position::from_coords_checked(3, -1),
        Err(MoveError::PositionOutOfRange)
    );
    assert_eq!(
        Position::from_coords_checked(8, 0),
        Err(MoveError::PositionOutOfRange)
    );
    assert_eq!(
        Position::from_coords_checked(0, 8),
        Err(MoveError::PositionOutOfRange)
    );
}

#[test]
fn parse_position_from_text() {
    assert_eq!(Position::from_str("e3").map(|p| p.idx()), Ok(20));
    assert_eq!(Position::from_str("a1").map(|p| p.idx()), Ok(0));
    assert_eq!(Position::from_str("h8").map(|p| p.idx()), Ok(63));
    // Only the first two characters name the cell, whatever else the text
    // holds.
    assert_eq!(Position::from_str("b2 to c3").map(|p| p.idx()), Ok(9));
    // An upper-case letter passes the pattern but is not a cell.
    assert_eq!(
        Position::from_str("E3"),
        Err(MoveError::PositionOutOfRange)
    );
    // A pattern match later in the text does not rescue a bad start.
    assert_eq!(
        Position::from_str("xxe3"),
        Err(MoveError::PositionOutOfRange)
    );
    // No file-letter/rank-digit pair anywhere.
    assert_eq!(
        Position::from_str("99"),
        Err(MoveError::PositionOutOfRange)
    );
    assert_eq!(Position::from_str(""), Err(MoveError::PositionOutOfRange));
    // The rank digit must be 1..8.
    assert_eq!(
        Position::from_str("e9"),
        Err(MoveError::PositionOutOfRange)
    );
}

#[test]
fn notation_is_algebraic() {
    assert_eq!(Position::from_idx(20).notation(), "e3");
    assert_eq!(Position::from_idx(0).notation(), "a1");
    assert_eq!(Position::from_idx(63).notation(), "h8");
    assert_eq!(Position::from_coords(3, 4).notation(), "d5");
}

#[test]
fn move_delta_and_accessors() {
    let mv = Move::new(20, 29);
    assert_eq!(mv.from().idx(), 20);
    assert_eq!(mv.to().idx(), 29);
    assert_eq!(mv.delta(), (1, 1));

    let back = Move::from_positions(Position::from_idx(29), Position::from_idx(20));
    assert_eq!(back.delta(), (-1, -1));

    let long = Move::new(0, 63);
    assert_eq!(long.delta(), (7, 7));
}
