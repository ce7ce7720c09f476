use checkers::board::Board;
use checkers::error::MoveError;
use checkers::moves::{Move, Position};
use checkers::player::Player;
use checkers::tile::{Tile, TileKind};

fn black() -> Tile {
    Tile {
        occupied_by: Some(Player::Black),
        kind: TileKind::Normal,
    }
}

fn white() -> Tile {
    Tile {
        occupied_by: Some(Player::White),
        kind: TileKind::Normal,
    }
}

fn none() -> Tile {
    Tile {
        occupied_by: None,
        kind: TileKind::Normal,
    }
}

/// Clears every cell of the board.
fn clear_board(board: &mut Board) {
    for i in 0..64 {
        board.set_tile(Position::from_idx(i), Tile::empty());
    }
}

#[test]
fn test_board_initializer() {
    let board = Board::new();

    assert_eq!(board.board().len(), 8 * 8);
    let expected = [
        black(), none(), black(), none(), black(), none(), black(), none(),
        none(), black(), none(), black(), none(), black(), none(), black(),
        black(), none(), black(), none(), black(), none(), black(), none(),
        none(), none(), none(), none(), none(), none(), none(), none(),
        none(), none(), none(), none(), none(), none(), none(), none(),
        none(), white(), none(), white(), none(), white(), none(), white(),
        white(), none(), white(), none(), white(), none(), white(), none(),
        none(), white(), none(), white(), none(), white(), none(), white(),
    ];
    assert_eq!(*board.board(), expected);

    // Each player has 12 tiles
    assert_eq!(board.get_remaining_peices(Player::White), 12);
    assert_eq!(board.get_remaining_peices(Player::Black), 12);

    // No kings on the board
    assert_eq!(
        board
            .board()
            .iter()
            .filter(|tile| tile.kind == TileKind::King)
            .count(),
        0
    );
}

#[test]
fn test_movement() {
    let mut board = Board::new();

    // Check we cannot move to the same location as we started
    assert!(board.make_move(0, Move::new(20, 20)).is_err());

    // Move e3 to f4
    assert!(board.make_move(0, Move::new(20, 29)).is_ok());

    // Verify that board updates accordingly
    assert_eq!(board.board()[29], black());
    assert_eq!(board.board()[20], none());

    assert!(board.make_move(1, Move::new(43, 36)).is_ok());

    // Verify that board updates accordingly
    assert_eq!(board.board()[36], white());
    assert_eq!(board.board()[43], none());

    assert_eq!(board.board()[36], white());

    assert!(board.make_move(0, Move::new(29, 36)).is_ok());

    // Verify that capturing works as expected
    assert_eq!(board.board()[29], none());
    assert_eq!(board.board()[36], none());
    assert_eq!(board.board()[43], black());

    assert!(board.make_move(1, Move::new(52, 43)).is_ok());

    assert_eq!(board.board()[43], none());
    assert_eq!(board.board()[52], none());
    assert_eq!(board.board()[34], white());

    assert!(board.make_move(0, Move::new(18, 10)).is_err());
}

#[test]
fn test_king_promotion() {
    let mut board = Board::new();

    // Remove all white tiles from the board to make my life easier
    for i in 0..64 {
        let tile = board.board()[i];
        if tile.is_empty() || tile.occupied_by == Some(Player::White) {
            board.set_tile(Position::from_idx(i), Tile::empty());
        }
    }

    // Add one white peice back so the game doesn't think black's won
    board.set_tile(Position::from_idx(63), Tile::occupied(Player::White));

    assert!(board.make_move(0, Move::new(22, 29)).is_ok());
    assert!(board.make_move(0, Move::new(29, 36)).is_ok());
    assert!(board.make_move(0, Move::new(36, 43)).is_ok());
    assert!(board.make_move(0, Move::new(43, 50)).is_ok());
    assert!(board.make_move(0, Move::new(50, 59)).is_ok());
    assert!(board.board()[59].kind() == TileKind::King);
}

#[test]
fn test_king_movement() {
    let mut board = Board::new();
    // remove all peices from the board
    clear_board(&mut board);

    assert_eq!(board.get_remaining_peices(Player::White), 0);
    assert_eq!(board.get_remaining_peices(Player::Black), 0);

    let mut king = Tile::occupied(Player::Black);
    king.promote();
    board.set_tile(Position::from_idx(42), king);
    board.set_tile(Position::from_idx(28), Tile::occupied(Player::White));

    assert_eq!(board.board()[42].kind(), TileKind::King);
    assert_eq!(board.board()[28], white());

    assert!(board.make_move(0, Move::new(42, 14)).is_ok());
    assert!(board.make_move(0, Move::new(42, 42)).is_err());

    assert_eq!(
        board.board()[14],
        Tile {
            occupied_by: Some(Player::Black),
            kind: TileKind::King
        }
    );
    assert_eq!(board.board()[28], none());

    board.set_tile(Position::from_idx(14), Tile::empty());
    board.set_tile(
        Position::from_idx(35),
        Tile {
            occupied_by: Some(Player::Black),
            kind: TileKind::King,
        },
    );
    board.set_tile(Position::from_idx(17), Tile::occupied(Player::White));

    assert!(board.make_move(0, Move::new(35, 17)).is_ok());
    assert_eq!(
        board.board()[17],
        Tile {
            occupied_by: Some(Player::Black),
            kind: TileKind::King
        }
    );

    board.set_tile(Position::from_idx(44), Tile::occupied(Player::White));
    board.set_tile(Position::from_idx(53), Tile::occupied(Player::White));

    assert!(board.make_move(0, Move::new(17, 62)).is_ok());
}

#[test]
fn test_can_capture() {
    let mut b = Board::new();

    clear_board(&mut b);

    b.set_tile(
        Position::from_idx(Board::coords_to_idx(4, 3)),
        Tile::occupied(Player::Black),
    );
    b.set_tile(
        Position::from_idx(Board::coords_to_idx(3, 4)),
        Tile::occupied(Player::White),
    );
    assert!(b.can_capture(Player::Black, Position::from_coords(4, 3)));
    b.set_tile(Position::from_idx(Board::coords_to_idx(3, 4)), Tile::empty());
    assert!(!b.can_capture(Player::Black, Position::from_coords(4, 3)));
    b.set_tile(Position::from_idx(Board::coords_to_idx(3, 4)), Tile::empty());
    b.set_tile(
        Position::from_idx(Board::coords_to_idx(6, 6)),
        Tile::occupied(Player::Black),
    );
    b.set_tile(
        Position::from_idx(Board::coords_to_idx(7, 7)),
        Tile::occupied(Player::White),
    );
}

#[test]
fn degenerate_move_always_fails() {
    // On a live board the error names the degenerate pair.
    let mut board = Board::new();
    assert_eq!(
        board.make_move(0, Move::new(20, 20)),
        Err(MoveError::DegenerateMove)
    );
    // On an arbitrary custom board it still fails.
    let mut board = Board::new();
    clear_board(&mut board);
    board.set_tile(Position::from_idx(0), Tile::occupied(Player::Black));
    board.set_tile(Position::from_idx(63), Tile::occupied(Player::White));
    assert!(board.make_move(0, Move::new(0, 0)).is_err());
    assert!(board.make_move(1, Move::new(63, 63)).is_err());
}

#[test]
fn normal_move_error_kinds() {
    let mut board = Board::new();
    // Straight ahead is not a diagonal.
    assert_eq!(
        board.make_move(0, Move::new(20, 28)),
        Err(MoveError::NotDiagonal)
    );
    // Two cells along a diagonal is too far for a normal piece.
    assert_eq!(board.make_move(0, Move::new(20, 38)), Err(MoveError::TooFar));
    // Black may not move toward its own edge.
    assert_eq!(
        board.make_move(0, Move::new(20, 13)),
        Err(MoveError::MovedBackwards)
    );
    // White cannot move a Black piece on turn 1.
    assert_eq!(
        board.make_move(1, Move::new(20, 29)),
        Err(MoveError::WrongPlayersPiece)
    );
    // An empty origin has no owner.
    assert_eq!(
        board.make_move(0, Move::new(28, 37)),
        Err(MoveError::UnoccupiedTile)
    );
    // Moving onto one's own piece is rejected.
    assert_eq!(
        board.make_move(0, Move::new(9, 16)),
        Err(MoveError::AlreadyOccupiedBySelf)
    );
    // None of these rejections may have touched the board.
    assert_eq!(*board.board(), *Board::new().board());
}

#[test]
fn jump_capture_requires_empty_landing() {
    let mut board = Board::new();
    clear_board(&mut board);
    board.set_tile(Position::from_idx(28), Tile::occupied(Player::Black));
    board.set_tile(Position::from_idx(37), Tile::occupied(Player::White));
    board.set_tile(Position::from_idx(46), Tile::occupied(Player::White));
    // 28 -> 37 would land on 46, which is occupied.
    assert_eq!(
        board.make_move(0, Move::new(28, 37)),
        Err(MoveError::LandingOccupied)
    );
    // Freeing the landing cell makes the same jump legal, and it removes
    // exactly the jumped piece.
    board.set_tile(Position::from_idx(46), Tile::empty());
    assert_eq!(board.get_remaining_peices(Player::White), 1);
    assert!(board.make_move(0, Move::new(28, 37)).is_ok());
    assert_eq!(board.board()[28], none());
    assert_eq!(board.board()[37], none());
    assert_eq!(board.board()[46], black());
    assert_eq!(board.get_remaining_peices(Player::White), 0);
    assert_eq!(board.get_remaining_peices(Player::Black), 1);
}

#[test]
fn jump_landing_off_board_is_rejected() {
    let mut board = Board::new();
    clear_board(&mut board);
    // Black at (6,6) facing White at (7,7): the landing cell would be
    // (8,8), which is off the board.
    board.set_tile(Position::from_coords(6, 6), Tile::occupied(Player::Black));
    board.set_tile(Position::from_coords(7, 7), Tile::occupied(Player::White));
    assert_eq!(
        board.make_move(0, Move::new(54, 63)),
        Err(MoveError::PositionOutOfRange)
    );
}

#[test]
fn jump_capture_does_not_promote() {
    let mut board = Board::new();
    clear_board(&mut board);
    // Black at (3,5) jumps White at (4,6) and lands on (5,7): the far row,
    // yet a jump never promotes.
    board.set_tile(Position::from_coords(3, 5), Tile::occupied(Player::Black));
    board.set_tile(Position::from_coords(4, 6), Tile::occupied(Player::White));
    board.set_tile(Position::from_coords(0, 0), Tile::occupied(Player::White));
    let from = Board::coords_to_idx(3, 5);
    let over = Board::coords_to_idx(4, 6);
    let land = Board::coords_to_idx(5, 7);
    assert!(board.make_move(0, Move::new(from, over)).is_ok());
    assert_eq!(board.board()[over], none());
    assert_eq!(board.board()[land], black());
    assert_eq!(board.board()[land].kind(), TileKind::Normal);
}

#[test]
fn promotion_only_on_far_row() {
    let mut board = Board::new();
    clear_board(&mut board);
    board.set_tile(Position::from_coords(2, 5), Tile::occupied(Player::Black));
    board.set_tile(Position::from_coords(0, 0), Tile::occupied(Player::White));
    // A step that does not reach row 7 keeps the piece normal.
    let from = Board::coords_to_idx(2, 5);
    let mid = Board::coords_to_idx(3, 6);
    let far = Board::coords_to_idx(4, 7);
    assert!(board.make_move(0, Move::new(from, mid)).is_ok());
    assert_eq!(board.board()[mid].kind(), TileKind::Normal);
    // The step onto row 7 promotes.
    assert!(board.make_move(0, Move::new(mid, far)).is_ok());
    assert_eq!(board.board()[far].kind(), TileKind::King);
    assert_eq!(board.board()[far].occupied_by, Some(Player::Black));
}

#[test]
fn king_captures_every_opponent_on_path() {
    let mut board = Board::new();
    clear_board(&mut board);
    let mut king = Tile::occupied(Player::Black);
    king.promote();
    board.set_tile(Position::from_idx(0), king);
    board.set_tile(Position::from_idx(9), Tile::occupied(Player::White));
    board.set_tile(Position::from_idx(18), Tile::occupied(Player::White));
    board.set_tile(Position::from_idx(62), Tile::occupied(Player::White));
    assert_eq!(board.get_remaining_peices(Player::White), 3);
    assert!(board.make_move(0, Move::new(0, 27)).is_ok());
    assert_eq!(board.board()[0], none());
    assert_eq!(board.board()[9], none());
    assert_eq!(board.board()[18], none());
    assert_eq!(
        board.board()[27],
        Tile {
            occupied_by: Some(Player::Black),
            kind: TileKind::King
        }
    );
    assert_eq!(board.get_remaining_peices(Player::White), 1);
}

#[test]
fn king_blocked_by_friendly_piece() {
    let mut board = Board::new();
    clear_board(&mut board);
    let mut king = Tile::occupied(Player::Black);
    king.promote();
    board.set_tile(Position::from_idx(0), king);
    board.set_tile(Position::from_idx(27), Tile::occupied(Player::Black));
    board.set_tile(Position::from_idx(62), Tile::occupied(Player::White));
    assert_eq!(
        board.make_move(0, Move::new(0, 63)),
        Err(MoveError::BlockedByFriendly)
    );
    // The blocked move changed nothing.
    assert_eq!(board.board()[0].kind(), TileKind::King);
    assert_eq!(board.board()[27], black());
}

#[test]
fn has_won_iff_opponent_has_no_pieces() {
    let mut board = Board::new();
    assert!(!board.has_player_won(Player::Black));
    assert!(!board.has_player_won(Player::White));

    clear_board(&mut board);
    board.set_tile(Position::from_idx(20), Tile::occupied(Player::Black));
    assert_eq!(board.get_remaining_peices(Player::White), 0);
    assert!(board.has_player_won(Player::Black));
    assert!(!board.has_player_won(Player::White));

    // Once won, every move request fails with the game already over,
    // and the board stays as it is.
    assert_eq!(
        board.make_move(0, Move::new(20, 29)),
        Err(MoveError::GameAlreadyOver {
            winner: Player::Black
        })
    );
    assert_eq!(
        board.make_move(1, Move::new(20, 29)),
        Err(MoveError::GameAlreadyOver {
            winner: Player::Black
        })
    );
    assert_eq!(board.board()[20], black());
    assert!(board.has_player_won(Player::Black));
}

#[test]
fn has_king_finds_promoted_pieces() {
    let mut board = Board::new();
    assert!(!board.has_king(Player::Black));
    assert!(!board.has_king(Player::White));
    let mut king = Tile::occupied(Player::White);
    king.promote();
    board.set_tile(Position::from_idx(36), king);
    assert!(board.has_king(Player::White));
    assert!(!board.has_king(Player::Black));
}

#[test]
fn player_piece_indices_on_fresh_board() {
    let board = Board::new();
    assert_eq!(
        board.get_idx_of_player_peices(Player::Black),
        vec![0, 2, 4, 6, 9, 11, 13, 15, 16, 18, 20, 22]
    );
    assert_eq!(
        board.get_idx_of_player_peices(Player::White),
        vec![41, 43, 45, 47, 48, 50, 52, 54, 57, 59, 61, 63]
    );
}

#[test]
fn board_from_layout() {
    let source = Board::new();
    let copy = Board::from_layout(source.board());
    assert_eq!(*copy.board(), *source.board());
    let empty = Board::empty();
    assert_eq!(empty.get_remaining_peices(Player::Black), 0);
    assert_eq!(empty.get_remaining_peices(Player::White), 0);
}

#[test]
fn coordinate_mapping() {
    assert_eq!(Board::coords_to_idx(4, 2), 20);
    assert_eq!(Board::idx_to_coords(20), (4, 2));
    assert_eq!(Board::coords_to_idx(0, 0), 0);
    assert_eq!(Board::coords_to_idx(7, 7), 63);
}
