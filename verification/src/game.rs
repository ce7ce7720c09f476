use crate::board::{player_for_turn, spec_make_move, Board};
use crate::error::MoveError;
use crate::king_moves::{is_king_candidate, king_destinations};
use crate::moves::{Move, Position};
use crate::player::Player;
use crate::tile::{Tile, TileKind};
use vstd::prelude::*;

verus! {

/// The two cells diagonally ahead of a normal piece owned by `owner` at
/// `pos`: the only destinations it can be asked to move to. A cell off
/// the board is no candidate.
pub open spec fn is_normal_candidate(pos: Position, owner: Player, t: int) -> bool {
    let x = pos.spec_x();
    let fy = pos.spec_y() + owner.spec_forward_dy();
    0 <= fy < 8 && ((x + 1 < 8 && t == fy * 8 + x + 1) || (x - 1 >= 0 && t == fy * 8 + (x - 1)))
}

/// The destinations the generator offers for the piece standing at `pos`
/// on board `s`, before the move engine has filtered them: the forward
/// diagonal neighbours of a normal piece, or every diagonal cell for a
/// king. An empty cell offers nothing.
pub open spec fn is_candidate_dest(s: Seq<Tile>, pos: Position, t: int) -> bool {
    match s[pos.0 as int].occupied_by {
        Some(owner) => if s[pos.0 as int].kind == TileKind::Normal {
            is_normal_candidate(pos, owner, t)
        } else {
            is_king_candidate(pos, t)
        },
        None => false,
    }
}

/// Who supplies each side's moves. The engine itself does not care; the
/// surrounding session loop dispatches on it.
#[derive(Debug, Copy, Clone, PartialEq, Eq, Structural)]
pub enum GameMode {
    HumanVsHuman,
    HumanVsAi,
    AiVsAi,
}

/// One running game: the board, the turn counter whose parity names the
/// side to move, the mode, and the moves played so far.
pub struct Game {
    pub board: Board,
    pub move_id: usize,
    pub mode: GameMode,
    pub moves: Vec<Move>,
}

impl Game {
    /// A fresh two-player game on the starting layout.
    pub fn new() -> (r: Self)
        ensures
            forall|i: int| 0 <= i < 64 ==> r.board.board@[i] == crate::board::init_tile(i),
            r.move_id == 0,
            r.mode == GameMode::HumanVsHuman,
            r.moves@ == Seq::<Move>::empty(),
    {
        Self { board: Board::new(), move_id: 0, mode: GameMode::HumanVsHuman, moves: Vec::new() }
    }

    /// A game seeded from an externally supplied layout.
    pub fn from_board(board: &[Tile; 64], mode: GameMode) -> (r: Self)
        ensures
            r.board.board@ == board@,
            r.move_id == 0,
            r.mode == mode,
            r.moves@ == Seq::<Move>::empty(),
    {
        let mut b = Board::empty();
        *b.board_mut() = *board;
        Self { board: b, move_id: 0, mode, moves: Vec::new() }
    }

    /// The side to move: even turns belong to Black, odd turns to White.
    pub fn get_current_player(&self) -> (r: Player)
        ensures
            r == player_for_turn(self.move_id as int),
    {
        if self.move_id % 2 == 0 {
            Player::Black
        } else {
            Player::White
        }
    }

    pub fn board(&self) -> (r: &Board)
        ensures
            r == &self.board,
    {
        &self.board
    }

    pub fn board_mut(&mut self) -> (r: &mut Board)
        ensures
            *r == old(self).board,
            final(self).board == *final(r),
            final(self).move_id == old(self).move_id,
            final(self).mode == old(self).mode,
            final(self).moves == old(self).moves,
    {
        &mut self.board
    }

    /// The whole legal move set of `moving_player`: for every piece that
    /// `board` shows for that side, every move of it that the engine would
    /// accept against this game's own board, each exactly once. Callers
    /// hand in this game's board; the piece listing is taken from the
    /// argument so that a caller may also ask about a snapshot whose
    /// pieces still stand on the live board.
    #[verifier::loop_isolation(false)]
    pub fn generate_all_possible_moves(&self, board: Board, moving_player: Player) -> (r: Result<
        Vec<Move>,
        MoveError,
    >)
        requires
            forall|i: int|
                0 <= i < 64 && board.board@[i].spec_is_owned_by(moving_player)
                    ==> self.board.board@[i].occupied_by is Some,
        ensures
            match r {
                Ok(v) => {
                    &&& forall|a: int|
                        0 <= a < v@.len() ==> (#[trigger] v@[a]).wf() && board.board@[v@[a].from.0
                            as int].spec_is_owned_by(moving_player) && is_candidate_dest(
                            self.board.board@,
                            v@[a].from,
                            v@[a].to.0 as int,
                        ) && spec_make_move(self.board.board@, self.move_id as int, v@[a]) is Ok
                    &&& forall|m: Move|
                        m.wf() && board.board@[m.from.0 as int].spec_is_owned_by(moving_player)
                            && is_candidate_dest(self.board.board@, m.from, m.to.0 as int)
                            && spec_make_move(self.board.board@, self.move_id as int, m) is Ok
                            ==> #[trigger] v@.contains(m)
                    &&& forall|a1: int, a2: int| 0 <= a1 < a2 < v@.len() ==> v@[a1] != v@[a2]
                },
                Err(_) => false,
            },
    {
        let friendly_peices = board.get_idx_of_player_peices(moving_player);
        let mut all: Vec<Move> = Vec::new();
        let mut fi: usize = 0;
        while fi < friendly_peices.len()
            invariant
                fi <= friendly_peices@.len(),
                forall|a: int|
                    0 <= a < all@.len() ==> (#[trigger] all@[a]).wf() && board.board@[all@[a].from.0
                        as int].spec_is_owned_by(moving_player) && is_candidate_dest(
                        self.board.board@,
                        all@[a].from,
                        all@[a].to.0 as int,
                    ) && spec_make_move(self.board.board@, self.move_id as int, all@[a]) is Ok,
                forall|a: int|
                    0 <= a < all@.len() ==> exists|b: int|
                        0 <= b < fi && (#[trigger] all@[a]).from.0 == friendly_peices@[b],
                forall|b: int, t: int|
                    0 <= b < fi && 0 <= t < 64 && #[trigger] is_candidate_dest(
                        self.board.board@,
                        Position(friendly_peices@[b]),
                        t,
                    ) && spec_make_move(
                        self.board.board@,
                        self.move_id as int,
                        Move { from: Position(friendly_peices@[b]), to: Position(t as usize) },
                    ) is Ok ==> all@.contains(
                        Move { from: Position(friendly_peices@[b]), to: Position(t as usize) },
                    ),
                forall|a1: int, a2: int| 0 <= a1 < a2 < all@.len() ==> all@[a1] != all@[a2],
            decreases friendly_peices@.len() - fi,
        {
            let f = friendly_peices[fi];
            let piece_pos = Position::from_idx(f);
            let ms = match self.generate_moves_for_peice(piece_pos) {
                Ok(v) => v,
                Err(e) => {
                    proof {
                        assert(false);
                    }
                    return Err(e);
                },
            };
            let ghost before = all@;
            let mut mj: usize = 0;
            while mj < ms.len()
                invariant
                    mj <= ms@.len(),
                    all@ == before + ms@.subrange(0, mj as int),
                decreases ms@.len() - mj,
            {
                all.push(ms[mj]);
                proof {
                    assert(all@ =~= before + ms@.subrange(0, mj as int + 1));
                }
                mj = mj + 1;
            }
            proof {
                assert(all@ == before + ms@);
                assert forall|a: int| 0 <= a < all@.len() implies exists|b: int|
                    0 <= b < fi + 1 && (#[trigger] all@[a]).from.0 == friendly_peices@[b] by {
                    if a < before.len() {
                        let b = choose|b: int|
                            0 <= b < fi && (#[trigger] before[a]).from.0 == friendly_peices@[b];
                        assert(all@[a].from.0 == friendly_peices@[b]);
                    } else {
                        assert(all@[a] == ms@[a - before.len()]);
                        assert(all@[a].from.0 == friendly_peices@[fi as int]);
                    }
                }
                assert forall|b: int, t: int|
                    0 <= b < fi + 1 && 0 <= t < 64 && #[trigger] is_candidate_dest(
                        self.board.board@,
                        Position(friendly_peices@[b]),
                        t,
                    ) && spec_make_move(
                        self.board.board@,
                        self.move_id as int,
                        Move { from: Position(friendly_peices@[b]), to: Position(t as usize) },
                    ) is Ok implies all@.contains(
                    Move { from: Position(friendly_peices@[b]), to: Position(t as usize) },
                ) by {
                    let mv = Move { from: Position(friendly_peices@[b]), to: Position(t as usize) };
                    if b < fi {
                        let w = choose|w: int| 0 <= w < before.len() && before[w] == mv;
                        assert(all@[w] == mv);
                    } else {
                        assert(ms@.contains(mv));
                        let w = choose|w: int| 0 <= w < ms@.len() && ms@[w] == mv;
                        assert(all@[before.len() + w] == mv);
                    }
                }
                assert forall|a1: int, a2: int|
                    0 <= a1 < a2 < all@.len() implies all@[a1] != all@[a2] by {
                    if a1 < before.len() && a2 >= before.len() {
                        let b = choose|b: int|
                            0 <= b < fi && (#[trigger] before[a1]).from.0 == friendly_peices@[b];
                        assert(friendly_peices@[b] < friendly_peices@[fi as int]);
                        assert(all@[a2].from.0 == friendly_peices@[fi as int]);
                    }
                }
            }
            fi = fi + 1;
        }
        proof {
            assert forall|m: Move|
                m.wf() && board.board@[m.from.0 as int].spec_is_owned_by(moving_player)
                    && is_candidate_dest(self.board.board@, m.from, m.to.0 as int) && spec_make_move(
                    self.board.board@,
                    self.move_id as int,
                    m,
                ) is Ok implies #[trigger] all@.contains(m) by {
                assert(friendly_peices@.contains(m.from.0));
                let b = choose|b: int|
                    0 <= b < friendly_peices@.len() && friendly_peices@[b] == m.from.0;
                assert(m.from == Position(friendly_peices@[b]));
                assert(m.to == Position(m.to.0 as usize));
                assert(all@.contains(
                    Move { from: Position(friendly_peices@[b]), to: Position(m.to.0 as usize) },
                ));
            }
        }
        Ok(all)
    }

    /// The legal moves of the piece standing at `peice`: every candidate
    /// destination of that piece that the move engine would accept right
    /// now, each exactly once. Asking about an empty cell fails.
    #[verifier::loop_isolation(false)]
    pub fn generate_moves_for_peice(&self, peice: Position) -> (r: Result<Vec<Move>, MoveError>)
        requires
            peice.wf(),
        ensures
            match r {
                Ok(v) => {
                    &&& self.board.board@[peice.0 as int].occupied_by is Some
                    &&& forall|a: int|
                        0 <= a < v@.len() ==> (#[trigger] v@[a]).from == peice && v@[a].wf()
                            && is_candidate_dest(self.board.board@, peice, v@[a].to.0 as int)
                            && spec_make_move(self.board.board@, self.move_id as int, v@[a]) is Ok
                    &&& forall|t: int|
                        0 <= t < 64 && #[trigger] is_candidate_dest(self.board.board@, peice, t)
                            && spec_make_move(
                            self.board.board@,
                            self.move_id as int,
                            Move { from: peice, to: Position(t as usize) },
                        ) is Ok ==> v@.contains(Move { from: peice, to: Position(t as usize) })
                    &&& forall|a1: int, a2: int| 0 <= a1 < a2 < v@.len() ==> v@[a1] != v@[a2]
                },
                Err(e) => e == MoveError::UnoccupiedTile && self.board.board@[peice.0
                    as int].occupied_by is None,
            },
    {
        let selected_peice = self.board.tile_at(peice);
        let owner = match selected_peice.occupied_by {
            None => {
                return Err(MoveError::UnoccupiedTile);
            },
            Some(owner) => owner,
        };
        let mut moves: Vec<Move> = Vec::new();
        match selected_peice.kind() {
            TileKind::Normal => {
                let (x, y) = peice.coords();
                let y_offset = owner.forward_dy();
                let right = Position::from_coords_checked(
                    (x as isize) + 1,
                    (y as isize) + y_offset,
                );
                let left = Position::from_coords_checked((x as isize) - 1, (y as isize) + y_offset);
                if let Ok(pos) = right {
                    let mv = Move::from_positions(peice, pos);
                    if self.is_valid_move(mv) {
                        moves.push(mv);
                    }
                }
                let ghost after_right = moves@;
                if let Ok(pos) = left {
                    let mv = Move::from_positions(peice, pos);
                    if self.is_valid_move(mv) {
                        moves.push(mv);
                    }
                }
                proof {
                    assert forall|t: int|
                        0 <= t < 64 && #[trigger] is_candidate_dest(self.board.board@, peice, t)
                            && spec_make_move(
                            self.board.board@,
                            self.move_id as int,
                            Move { from: peice, to: Position(t as usize) },
                        ) is Ok implies moves@.contains(
                        Move { from: peice, to: Position(t as usize) },
                    ) by {
                        let fy = peice.spec_y() + owner.spec_forward_dy();
                        if t == fy * 8 + peice.spec_x() + 1 {
                            assert(moves@[0] == Move { from: peice, to: Position(t as usize) });
                        } else {
                            assert(moves@[moves@.len() - 1] == Move {
                                from: peice,
                                to: Position(t as usize),
                            });
                        }
                    }
                }
            },
            TileKind::King => {
                let dests = king_destinations(peice);
                let mut j: usize = 0;
                while j < dests.len()
                    invariant
                        j <= dests@.len(),
                        forall|a: int|
                            0 <= a < moves@.len() ==> (#[trigger] moves@[a]).from == peice
                                && moves@[a].wf() && is_king_candidate(
                                peice,
                                moves@[a].to.0 as int,
                            ) && spec_make_move(
                                self.board.board@,
                                self.move_id as int,
                                moves@[a],
                            ) is Ok,
                        forall|a: int|
                            0 <= a < moves@.len() ==> exists|b: int|
                                0 <= b < j && (#[trigger] moves@[a]).to.0 == dests@[b],
                        forall|b: int|
                            0 <= b < j && spec_make_move(
                                self.board.board@,
                                self.move_id as int,
                                Move { from: peice, to: Position(#[trigger] dests@[b]) },
                            ) is Ok ==> moves@.contains(
                                Move { from: peice, to: Position(dests@[b]) },
                            ),
                        forall|a1: int, a2: int|
                            0 <= a1 < a2 < moves@.len() ==> moves@[a1].to.0 < moves@[a2].to.0,
                    decreases dests@.len() - j,
                {
                    let mv = Move::new(peice.idx(), dests[j]);
                    if self.is_valid_move(mv) {
                        let ghost before = moves@;
                        moves.push(mv);
                        proof {
                            assert forall|a1: int, a2: int|
                                0 <= a1 < a2 < moves@.len() implies moves@[a1].to.0
                                < moves@[a2].to.0 by {
                                if a2 == moves@.len() - 1 {
                                    let b = choose|b: int|
                                        0 <= b < j && before[a1].to.0 == dests@[b];
                                    assert(dests@[b] < dests@[j as int]);
                                }
                            }
                            assert forall|b: int|
                                0 <= b < j + 1 && spec_make_move(
                                    self.board.board@,
                                    self.move_id as int,
                                    Move { from: peice, to: Position(#[trigger] dests@[b]) },
                                ) is Ok implies moves@.contains(
                                Move { from: peice, to: Position(dests@[b]) },
                            ) by {
                                if b < j {
                                    let w = choose|w: int|
                                        0 <= w < before.len() && before[w] == Move {
                                            from: peice,
                                            to: Position(dests@[b]),
                                        };
                                    assert(moves@[w] == Move {
                                        from: peice,
                                        to: Position(dests@[b]),
                                    });
                                } else {
                                    assert(moves@[moves@.len() - 1] == Move {
                                        from: peice,
                                        to: Position(dests@[b]),
                                    });
                                }
                            }
                        }
                    }
                    j = j + 1;
                }
                proof {
                    assert forall|t: int|
                        0 <= t < 64 && #[trigger] is_candidate_dest(self.board.board@, peice, t)
                            && spec_make_move(
                            self.board.board@,
                            self.move_id as int,
                            Move { from: peice, to: Position(t as usize) },
                        ) is Ok implies moves@.contains(
                        Move { from: peice, to: Position(t as usize) },
                    ) by {
                        assert(dests@.contains(t as usize));
                        let b = choose|b: int| 0 <= b < dests@.len() && dests@[b] == t as usize;
                        assert(moves@.contains(Move { from: peice, to: Position(dests@[b]) }));
                    }
                }
            },
        }
        Ok(moves)
    }

    /// Whether the engine would accept this move right now. The trial runs
    /// against a scratch copy of the board, so the game itself never
    /// changes.
    fn is_valid_move(&self, this_move: Move) -> (r: bool)
        requires
            this_move.wf(),
        ensures
            r == (spec_make_move(self.board.board@, self.move_id as int, this_move) is Ok),
    {
        let mut board_cpy = self.board;
        board_cpy.make_move(self.move_id, this_move).is_ok()
    }
}

} // verus!
