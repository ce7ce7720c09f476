use crate::error::MoveError;
use crate::moves::{Move, Position};
use crate::player::Player;
use crate::tile::{Tile, TileKind};
use vstd::prelude::*;

verus! {

broadcast use vstd::array::group_array_axioms;

/// The side length of the square board.
pub const BOARD_SIZE: usize = 8;

/// The playing field: 64 tiles in row-major order. Cells are permanent;
/// a move only changes what stands on them.
#[derive(Debug, Copy, Clone, PartialEq, Eq)]
pub struct Board {
    pub board: [Tile; 64],
}

/// How many of the first `n` tiles are held by `player`.
pub open spec fn count_owned(s: Seq<Tile>, player: Player, n: int) -> int
    decreases n,
{
    if n <= 0 {
        0
    } else {
        count_owned(s, player, n - 1) + if s[n - 1].spec_is_owned_by(player) {
            1int
        } else {
            0int
        }
    }
}

/// The number of pieces `player` still has on the board.
pub open spec fn spec_remaining(s: Seq<Tile>, player: Player) -> int {
    count_owned(s, player, 64)
}

/// The game has ended: one side has no pieces left.
pub open spec fn spec_game_over(s: Seq<Tile>) -> bool {
    spec_remaining(s, Player::Black) == 0 || spec_remaining(s, Player::White) == 0
}

/// The winner once the game has ended. Black's victory is looked for
/// first, so on an impossible board with no pieces at all Black is named.
pub open spec fn spec_winner(s: Seq<Tile>) -> Player {
    if spec_remaining(s, Player::White) == 0 {
        Player::Black
    } else {
        Player::White
    }
}

/// The side to move: even turns belong to Black, odd turns to White.
pub open spec fn player_for_turn(turn_id: int) -> Player {
    if turn_id % 2 == 0 {
        Player::Black
    } else {
        Player::White
    }
}

/// The tile the fresh board holds at index `i`: Black pieces on the dark
/// squares of the three lowest rows, White pieces on the dark squares of
/// the three highest, everything else empty. A square is dark when
/// `(x + y % 2) % 2 == 0`.
pub open spec fn init_tile(i: int) -> Tile {
    let x = i % 8;
    let y = i / 8;
    if y < 3 && (x + y % 2) % 2 == 0 {
        Tile { occupied_by: Some(Player::Black), kind: TileKind::Normal }
    } else if y >= 5 && (x + y % 2) % 2 == 0 {
        Tile { occupied_by: Some(Player::White), kind: TileKind::Normal }
    } else {
        Tile::spec_empty()
    }
}

pub open spec fn abs_val(v: int) -> int {
    if v < 0 {
        -v
    } else {
        v
    }
}

/// The column of the `k`-th cell along the move's diagonal, counted from
/// the origin (`k == 0`) toward the destination.
pub open spec fn seg_x(m: Move, k: int) -> int {
    if m.spec_dx() > 0 {
        m.from.spec_x() + k
    } else {
        m.from.spec_x() - k
    }
}

/// The row of the `k`-th cell along the move's diagonal.
pub open spec fn seg_y(m: Move, k: int) -> int {
    if m.spec_dy() > 0 {
        m.from.spec_y() + k
    } else {
        m.from.spec_y() - k
    }
}

/// The index of the `k`-th cell along the move's diagonal.
pub open spec fn seg_idx(m: Move, k: int) -> int {
    seg_y(m, k) * 8 + seg_x(m, k)
}

/// How many diagonal steps the move spans.
pub open spec fn diag_len(m: Move) -> int {
    abs_val(m.spec_dx())
}

/// Whether cell `i` lies on the move's diagonal, strictly between the
/// origin and the `kmax`-th step.
pub open spec fn on_king_path_upto(m: Move, i: int, kmax: int) -> bool {
    exists|k: int| 1 <= k < kmax && i == seg_idx(m, k)
}

/// Whether cell `i` lies strictly between the move's origin and its
/// destination, on their diagonal.
pub open spec fn on_king_path(m: Move, i: int) -> bool {
    on_king_path_upto(m, i, diag_len(m))
}

/// A king's move is blocked when a cell strictly between origin and
/// destination is held by the mover's own side.
pub open spec fn spec_king_blocked(s: Seq<Tile>, player: Player, m: Move) -> bool {
    exists|k: int| 1 <= k < diag_len(m) && s[seg_idx(m, k)].spec_is_owned_by(player)
}

/// The board after the opponent pieces on the first `kmax` steps of the
/// king's diagonal have been taken off it.
pub open spec fn king_capture_upto(s: Seq<Tile>, player: Player, m: Move, kmax: int) -> Seq<Tile> {
    Seq::new(
        64,
        |i: int|
            if on_king_path_upto(m, i, kmax) && s[i].spec_is_owned_by(player.spec_opponent()) {
                Tile::spec_empty()
            } else {
                s[i]
            },
    )
}

/// The board after a legal king move: every opponent piece strictly
/// between origin and destination is removed, the origin is vacated, and
/// the destination holds the mover's piece as a king — whatever stood
/// there before.
pub open spec fn spec_king_result(s: Seq<Tile>, player: Player, m: Move) -> Seq<Tile> {
    king_capture_upto(s, player, m, diag_len(m)).update(m.from.0 as int, Tile::spec_empty()).update(
        m.to.0 as int,
        Tile { occupied_by: Some(player), kind: TileKind::King },
    )
}

/// A king move request, decided in the order the engine checks it:
/// a degenerate pair, then a non-diagonal, then a friendly piece in the
/// way; otherwise the move happens.
pub open spec fn spec_king_move(s: Seq<Tile>, player: Player, m: Move) -> Result<
    Seq<Tile>,
    MoveError,
> {
    if m.from == m.to {
        Err(MoveError::DegenerateMove)
    } else if abs_val(m.spec_dx()) != abs_val(m.spec_dy()) {
        Err(MoveError::NotDiagonal)
    } else if spec_king_blocked(s, player, m) {
        Err(MoveError::BlockedByFriendly)
    } else {
        Ok(spec_king_result(s, player, m))
    }
}

/// The board after a normal piece's plain move: the origin is vacated and
/// the mover occupies the destination, promoted to a king exactly when
/// the destination row is the mover's far row.
pub open spec fn spec_simple_result(s: Seq<Tile>, player: Player, m: Move) -> Seq<Tile> {
    s.update(m.from.0 as int, Tile::spec_empty()).update(
        m.to.0 as int,
        Tile {
            occupied_by: Some(player),
            kind: if m.to.spec_y() == player.spec_far_row() {
                TileKind::King
            } else {
                s[m.to.0 as int].kind
            },
        },
    )
}

/// The cell one further step along the move's diagonal, behind the
/// destination: where a jumping piece lands. May fall off the board.
pub open spec fn landing_x(m: Move) -> int {
    m.to.spec_x() + m.spec_dx()
}

pub open spec fn landing_y(m: Move) -> int {
    m.to.spec_y() + m.spec_dy()
}

pub open spec fn landing_on_board(m: Move) -> bool {
    0 <= landing_x(m) < 8 && 0 <= landing_y(m) < 8
}

pub open spec fn landing_idx(m: Move) -> int {
    landing_y(m) * 8 + landing_x(m)
}

/// The board after a jump capture: origin and jumped cell are vacated and
/// the mover occupies the landing cell, keeping its kind.
pub open spec fn spec_capture_result(s: Seq<Tile>, player: Player, m: Move) -> Seq<Tile> {
    s.update(m.from.0 as int, Tile::spec_empty()).update(m.to.0 as int, Tile::spec_empty()).update(
        landing_idx(m),
        Tile { occupied_by: Some(player), kind: s[landing_idx(m)].kind },
    )
}

/// A normal piece's move request, decided in the order the engine checks
/// it. The engine only asks this of a move whose origin and destination
/// differ, so a diagonal step within reach covers exactly one cell.
pub open spec fn spec_normal_move(s: Seq<Tile>, player: Player, m: Move) -> Result<
    Seq<Tile>,
    MoveError,
> {
    let dx = m.spec_dx();
    let dy = m.spec_dy();
    if abs_val(dx) != abs_val(dy) {
        Err(MoveError::NotDiagonal)
    } else if abs_val(dx) > 1 {
        Err(MoveError::TooFar)
    } else if dy != player.spec_forward_dy() {
        Err(MoveError::MovedBackwards)
    } else if s[m.to.0 as int].occupied_by is None {
        Ok(spec_simple_result(s, player, m))
    } else if s[m.to.0 as int].spec_is_owned_by(player.spec_opponent()) {
        if !landing_on_board(m) {
            Err(MoveError::PositionOutOfRange)
        } else if s[landing_idx(m)].occupied_by is None {
            Ok(spec_capture_result(s, player, m))
        } else {
            Err(MoveError::LandingOccupied)
        }
    } else {
        Err(MoveError::AlreadyOccupiedBySelf)
    }
}

/// One move request against the whole engine, decided in the order the
/// checks run: a finished game, a degenerate pair, an empty or foreign
/// origin, then the rule of the piece kind standing on the origin.
pub open spec fn spec_make_move(s: Seq<Tile>, turn_id: int, m: Move) -> Result<
    Seq<Tile>,
    MoveError,
> {
    if spec_remaining(s, Player::White) == 0 {
        Err(MoveError::GameAlreadyOver { winner: Player::Black })
    } else if spec_remaining(s, Player::Black) == 0 {
        Err(MoveError::GameAlreadyOver { winner: Player::White })
    } else if m.from == m.to {
        Err(MoveError::DegenerateMove)
    } else {
        let player = player_for_turn(turn_id);
        match s[m.from.0 as int].occupied_by {
            None => Err(MoveError::UnoccupiedTile),
            Some(owner) => if owner != player {
                Err(MoveError::WrongPlayersPiece)
            } else if s[m.from.0 as int].kind == TileKind::Normal {
                spec_normal_move(s, player, m)
            } else {
                spec_king_move(s, player, m)
            },
        }
    }
}

/// Whether `player`'s piece at `pos` stands next to an opponent piece on
/// one of its two forward diagonals, with both of those diagonals on the
/// board.
pub open spec fn spec_can_capture(s: Seq<Tile>, player: Player, pos: Position) -> bool {
    let x = pos.spec_x();
    let y = pos.spec_y();
    let ahead = y + player.spec_forward_dy();
    1 <= x <= 6 && 0 <= ahead < 8 && (s[ahead * 8 + (x - 1)].spec_is_owned_by(
        player.spec_opponent(),
    ) || s[ahead * 8 + (x + 1)].spec_is_owned_by(player.spec_opponent()))
}

/// The geometry of a diagonal move: every step stays on the board, the
/// steps name pairwise distinct cells, and the walk starts at the origin
/// and ends at the destination.
pub proof fn lemma_seg_cells(m: Move)
    requires
        m.wf(),
        m.from != m.to,
        abs_val(m.spec_dx()) == abs_val(m.spec_dy()),
    ensures
        1 <= diag_len(m) <= 7,
        forall|k: int|
            0 <= k <= diag_len(m) ==> 0 <= seg_x(m, k) < 8 && 0 <= seg_y(m, k) < 8 && 0 <= #[trigger] seg_idx(
                m,
                k,
            ) < 64,
        forall|k1: int, k2: int|
            0 <= k1 < k2 <= diag_len(m) ==> #[trigger] seg_idx(m, k1) != #[trigger] seg_idx(m, k2),
        seg_idx(m, 0) == m.from.0,
        seg_idx(m, diag_len(m)) == m.to.0,
{
    vstd::arithmetic::div_mod::lemma_fundamental_div_mod(m.from.0 as int, 8);
    vstd::arithmetic::div_mod::lemma_fundamental_div_mod(m.to.0 as int, 8);
    assert(m.spec_dx() != 0 || m.spec_dy() != 0);
    assert(forall|k1: int, k2: int|
        0 <= k1 < k2 <= diag_len(m) ==> seg_x(m, k1) != seg_x(m, k2));
}

/// Counting is not changed by an update at or beyond `n`.
pub proof fn lemma_count_update_beyond(s: Seq<Tile>, player: Player, i: int, t: Tile, n: int)
    requires
        n <= i,
        0 <= i < s.len(),
    ensures
        count_owned(s.update(i, t), player, n) == count_owned(s, player, n),
    decreases n,
{
    if n > 0 {
        lemma_count_update_beyond(s, player, i, t, n - 1);
    }
}

/// How a single update moves the count: the old occupant's contribution
/// leaves, the new one's enters.
pub proof fn lemma_count_update(s: Seq<Tile>, player: Player, i: int, t: Tile, n: int)
    requires
        0 <= i < n,
        n <= s.len(),
    ensures
        count_owned(s.update(i, t), player, n) == count_owned(s, player, n) - (
        if s[i].spec_is_owned_by(player) {
            1int
        } else {
            0int
        }) + (if t.spec_is_owned_by(player) {
            1int
        } else {
            0int
        }),
    decreases n,
{
    if i == n - 1 {
        lemma_count_update_beyond(s, player, i, t, n - 1);
    } else {
        lemma_count_update(s, player, i, t, n - 1);
    }
}

/// How many Black pieces the starting layout has among its first `n`
/// cells: four per full row over the three rows nearest Black's edge.
pub open spec fn init_count_black(n: int) -> int {
    if n <= 0 {
        0
    } else if n >= 24 {
        12
    } else {
        4 * (n / 8) + (if (n / 8) % 2 == 0 {
            (n % 8 + 1) / 2
        } else {
            (n % 8) / 2
        })
    }
}

/// How many White pieces the starting layout has among its first `n`
/// cells: four per full row over the three rows nearest White's edge.
pub open spec fn init_count_white(n: int) -> int {
    if n <= 40 {
        0
    } else if n >= 64 {
        12
    } else {
        4 * (n / 8 - 5) + (if (n / 8) % 2 == 0 {
            (n % 8 + 1) / 2
        } else {
            (n % 8) / 2
        })
    }
}

proof fn lemma_init_count_prefix(s: Seq<Tile>, n: int)
    requires
        0 <= n <= 64,
        forall|i: int| 0 <= i < n ==> s[i] == init_tile(i),
    ensures
        count_owned(s, Player::Black, n) == init_count_black(n),
        count_owned(s, Player::White, n) == init_count_white(n),
    decreases n,
{
    if n > 0 {
        lemma_init_count_prefix(s, n - 1);
        let i = n - 1;
        assert(s[i] == init_tile(i));
        let y = i / 8;
        let x = i % 8;
        vstd::arithmetic::div_mod::lemma_fundamental_div_mod(i, 8);
        assert(0 <= x < 8);
        if x < 7 {
            vstd::arithmetic::div_mod::lemma_fundamental_div_mod_converse(n, 8, y, x + 1);
        } else {
            vstd::arithmetic::div_mod::lemma_fundamental_div_mod_converse(n, 8, y + 1, 0);
        }
    }
}

/// The starting layout: twelve pieces per side, no kings anywhere, Black
/// exactly on the dark squares of the three rows nearest its edge and
/// White mirrored on the other side.
pub proof fn lemma_initial_board(s: Seq<Tile>)
    requires
        s.len() == 64,
        forall|i: int| 0 <= i < 64 ==> s[i] == init_tile(i),
    ensures
        spec_remaining(s, Player::Black) == 12,
        spec_remaining(s, Player::White) == 12,
        forall|i: int| 0 <= i < 64 ==> s[i].kind == TileKind::Normal,
        forall|i: int|
            0 <= i < 64 ==> (s[i].occupied_by == Some(Player::Black) <==> i / 8 < 3 && (i % 8 + (i
                / 8) % 2) % 2 == 0),
        forall|i: int|
            0 <= i < 64 ==> (s[i].occupied_by == Some(Player::White) <==> i / 8 >= 5 && (i % 8 + (i
                / 8) % 2) % 2 == 0),
{
    lemma_init_count_prefix(s, 64);
    assert forall|i: int| 0 <= i < 64 implies s[i].kind == TileKind::Normal by {
        assert(s[i] == init_tile(i));
    }
    assert forall|i: int|
        0 <= i < 64 implies (s[i].occupied_by == Some(Player::Black) <==> i / 8 < 3 && (i % 8 + (i
        / 8) % 2) % 2 == 0) by {
        assert(s[i] == init_tile(i));
    }
    assert forall|i: int|
        0 <= i < 64 implies (s[i].occupied_by == Some(Player::White) <==> i / 8 >= 5 && (i % 8 + (i
        / 8) % 2) % 2 == 0) by {
        assert(s[i] == init_tile(i));
    }
}

/// A move whose origin and destination are the same cell is rejected,
/// whatever the board looks like: as a degenerate move on a live board,
/// as a finished game otherwise.
pub proof fn lemma_degenerate_move_rejected(s: Seq<Tile>, turn_id: int, m: Move)
    requires
        m.from == m.to,
    ensures
        spec_make_move(s, turn_id, m) is Err,
{
}

/// An accepted move of a normal piece covers exactly one cell on each
/// axis and steps in the mover's forward row direction.
pub proof fn lemma_normal_move_steps_forward(s: Seq<Tile>, turn_id: int, m: Move)
    requires
        s[m.from.0 as int].kind == TileKind::Normal,
        spec_make_move(s, turn_id, m) is Ok,
    ensures
        abs_val(m.spec_dx()) == 1,
        abs_val(m.spec_dy()) == 1,
        m.spec_dy() == player_for_turn(turn_id).spec_forward_dy(),
{
}

/// A jump capture is only accepted when the cell behind the jumped piece
/// is on the board and free; it then removes exactly the jumped piece —
/// the opponent loses one piece, the mover none — and relocates the mover
/// to that cell.
pub proof fn lemma_jump_capture(s: Seq<Tile>, turn_id: int, m: Move)
    requires
        m.wf(),
        s.len() == 64,
        s[m.from.0 as int].kind == TileKind::Normal,
        s[m.to.0 as int].spec_is_owned_by(player_for_turn(turn_id).spec_opponent()),
        spec_make_move(s, turn_id, m) is Ok,
    ensures
        landing_on_board(m),
        s[landing_idx(m)].occupied_by is None,
        ({
            let s2 = spec_make_move(s, turn_id, m)->Ok_0;
            let player = player_for_turn(turn_id);
            &&& s2[m.from.0 as int] == Tile::spec_empty()
            &&& s2[m.to.0 as int] == Tile::spec_empty()
            &&& s2[landing_idx(m)].spec_is_owned_by(player)
            &&& spec_remaining(s2, player.spec_opponent()) == spec_remaining(
                s,
                player.spec_opponent(),
            ) - 1
            &&& spec_remaining(s2, player) == spec_remaining(s, player)
        }),
{
    let player = player_for_turn(turn_id);
    let opp = player.spec_opponent();
    let fi = m.from.0 as int;
    let ti = m.to.0 as int;
    let li = landing_idx(m);
    vstd::arithmetic::div_mod::lemma_fundamental_div_mod(fi, 8);
    vstd::arithmetic::div_mod::lemma_fundamental_div_mod(ti, 8);
    vstd::arithmetic::div_mod::lemma_fundamental_div_mod_converse(
        li,
        8,
        landing_y(m),
        landing_x(m),
    );
    assert(li % 8 == landing_x(m) && li / 8 == landing_y(m));
    assert(fi != ti && li != fi && li != ti);
    let u1 = s.update(fi, Tile::spec_empty());
    let u2 = u1.update(ti, Tile::spec_empty());
    let s2 = spec_make_move(s, turn_id, m)->Ok_0;
    assert(s2 == u2.update(li, Tile { occupied_by: Some(player), kind: s[li].kind }));
    lemma_count_update(s, opp, fi, Tile::spec_empty(), 64);
    lemma_count_update(u1, opp, ti, Tile::spec_empty(), 64);
    lemma_count_update(u2, opp, li, Tile { occupied_by: Some(player), kind: s[li].kind }, 64);
    lemma_count_update(s, player, fi, Tile::spec_empty(), 64);
    lemma_count_update(u1, player, ti, Tile::spec_empty(), 64);
    lemma_count_update(u2, player, li, Tile { occupied_by: Some(player), kind: s[li].kind }, 64);
}

/// A normal piece stepping onto a free, well-formed cell is promoted to a
/// king on that move exactly when the cell's row is the mover's far row.
/// (A jump capture never promotes, so its landing cell is excluded here.)
pub proof fn lemma_promotion_exactly_on_far_row(s: Seq<Tile>, turn_id: int, m: Move)
    requires
        m.wf(),
        s.len() == 64,
        s[m.from.0 as int].kind == TileKind::Normal,
        s[m.to.0 as int].occupied_by is None,
        s[m.to.0 as int].wf(),
        spec_make_move(s, turn_id, m) is Ok,
    ensures
        ({
            let s2 = spec_make_move(s, turn_id, m)->Ok_0;
            let player = player_for_turn(turn_id);
            &&& s2[m.to.0 as int].spec_is_owned_by(player)
            &&& (s2[m.to.0 as int].kind == TileKind::King <==> m.to.spec_y()
                == player.spec_far_row())
        }),
{
}

/// An accepted king move removes every opponent piece on the diagonal
/// strictly between origin and destination, vacates the origin, sets the
/// mover down as a king on the destination, and changes nothing else.
pub proof fn lemma_king_move_captures_path(s: Seq<Tile>, turn_id: int, m: Move)
    requires
        m.wf(),
        s.len() == 64,
        s[m.from.0 as int].kind == TileKind::King,
        spec_make_move(s, turn_id, m) is Ok,
    ensures
        ({
            let s2 = spec_make_move(s, turn_id, m)->Ok_0;
            let player = player_for_turn(turn_id);
            &&& forall|i: int|
                0 <= i < 64 && #[trigger] on_king_path(m, i) && s[i].spec_is_owned_by(
                    player.spec_opponent(),
                ) ==> s2[i] == Tile::spec_empty()
            &&& s2[m.from.0 as int] == Tile::spec_empty()
            &&& s2[m.to.0 as int] == Tile { occupied_by: Some(player), kind: TileKind::King }
            &&& forall|i: int|
                0 <= i < 64 && i != m.from.0 && i != m.to.0 && !(#[trigger] on_king_path(m, i)
                    && s[i].spec_is_owned_by(player.spec_opponent())) ==> s2[i] == s[i]
        }),
{
    lemma_seg_cells(m);
    let player = player_for_turn(turn_id);
    let s2 = spec_make_move(s, turn_id, m)->Ok_0;
    assert forall|i: int|
        0 <= i < 64 && #[trigger] on_king_path(m, i) && s[i].spec_is_owned_by(
            player.spec_opponent(),
        ) implies s2[i] == Tile::spec_empty() by {
        let k = choose|k: int| 1 <= k < diag_len(m) && i == seg_idx(m, k);
        assert(i != m.from.0 && i != m.to.0);
    }
}

/// A king move whose diagonal holds a friendly piece strictly between
/// origin and destination is rejected as blocked, and with exactly that
/// error, whenever the earlier checks pass.
pub proof fn lemma_king_blocked_rejected(s: Seq<Tile>, turn_id: int, m: Move)
    requires
        !spec_game_over(s),
        m.from != m.to,
        s[m.from.0 as int].spec_is_owned_by(player_for_turn(turn_id)),
        s[m.from.0 as int].kind == TileKind::King,
        abs_val(m.spec_dx()) == abs_val(m.spec_dy()),
        spec_king_blocked(s, player_for_turn(turn_id), m),
    ensures
        spec_make_move(s, turn_id, m) == Err::<Seq<Tile>, MoveError>(MoveError::BlockedByFriendly),
{
}

/// Once one side has no pieces left, every move request fails with the
/// game already over, naming the winner — and, since a failing request
/// leaves the board as it was, every later request fails the same way.
pub proof fn lemma_game_over_rejects_all(s: Seq<Tile>, turn_id: int, m: Move)
    requires
        spec_game_over(s),
    ensures
        spec_make_move(s, turn_id, m) == Err::<Seq<Tile>, MoveError>(
            MoveError::GameAlreadyOver { winner: spec_winner(s) },
        ),
{
}

impl Board {
    /// A board with no pieces on it.
    pub fn empty() -> (r: Self)
        ensures
            forall|i: int| 0 <= i < 64 ==> r.board@[i] == Tile::spec_empty(),
    {
        let t = Tile::empty();
        Self { board: [t;64] }
    }

    /// A board synthesized from an externally supplied layout, for seeding
    /// arbitrary positions.
    pub fn from_layout(tiles: &[Tile; 64]) -> (r: Self)
        ensures
            r.board@ == tiles@,
    {
        Self { board: *tiles }
    }

    /// The starting layout: twelve Black pieces on the dark squares of the
    /// rows nearest Black's edge, twelve White pieces mirrored on the
    /// other side, all of them normal pieces.
    pub fn new() -> (r: Self)
        ensures
            forall|i: int| 0 <= i < 64 ==> r.board@[i] == init_tile(i),
    {
        let t = Tile::empty();
        let mut board: [Tile; 64] = [t;64];
        let mut i: usize = 0;
        while i < 64
            invariant
                i <= 64,
                forall|j: int| 0 <= j < i ==> board@[j] == init_tile(j),
                forall|j: int| i <= j < 64 ==> board@[j] == Tile::spec_empty(),
            decreases 64 - i,
        {
            let x = i % 8;
            let y = i / 8;
            if (x + (y % 2)) % 2 == 0 {
                if y < 3 {
                    board[i] = Tile::occupied(Player::Black);
                } else if y >= 5 {
                    board[i] = Tile::occupied(Player::White);
                }
            }
            proof {
                assert(board@[i as int] == init_tile(i as int));
            }
            i = i + 1;
        }
        Self { board }
    }

    pub fn board(&self) -> (r: &[Tile; 64])
        ensures
            r == &self.board,
    {
        &self.board
    }

    pub fn board_mut(&mut self) -> (r: &mut [Tile; 64])
        ensures
            *r == old(self).board,
            final(self).board == *final(r),
    {
        &mut self.board
    }

    /// The row-major index of the cell in column `x` of row `y`.
    pub fn coords_to_idx(x: usize, y: usize) -> (r: usize)
        requires
            x < 8,
            y < 8,
        ensures
            r == y * 8 + x,
            r < 64,
    {
        (y * BOARD_SIZE) + x
    }

    /// The column and row of the cell at index `idx`.
    pub fn idx_to_coords(idx: usize) -> (r: (usize, usize))
        ensures
            r.0 == idx % 8,
            r.1 == idx / 8,
    {
        (idx % BOARD_SIZE, idx / BOARD_SIZE)
    }

    /// The tile standing at a position: the read-only view of one cell.
    pub fn tile_at(&self, pos: Position) -> (r: Tile)
        requires
            pos.wf(),
        ensures
            r == self.board@[pos.0 as int],
    {
        self.board[pos.0]
    }

    /// Replaces the tile at a position: the way an externally supplied
    /// layout is seeded one cell at a time.
    pub fn set_tile(&mut self, pos: Position, tile: Tile)
        requires
            pos.wf(),
        ensures
            final(self).board@ == old(self).board@.update(pos.0 as int, tile),
    {
        self.board[pos.0] = tile;
    }

    /// The number of pieces `player` still has on the board.
    pub fn get_remaining_peices(&self, player: Player) -> (r: usize)
        ensures
            r == spec_remaining(self.board@, player),
    {
        let mut count: usize = 0;
        let mut i: usize = 0;
        while i < 64
            invariant
                i <= 64,
                count <= i,
                count == count_owned(self.board@, player, i as int),
            decreases 64 - i,
        {
            if self.board[i].is_occupied_by(player) {
                count = count + 1;
            }
            i = i + 1;
        }
        count
    }

    /// Whether `player` has won: the opponent has no pieces left.
    pub fn has_player_won(&self, player: Player) -> (r: bool)
        ensures
            r == (spec_remaining(self.board@, player.spec_opponent()) == 0),
    {
        self.get_remaining_peices(player.opponent()) == 0
    }

    /// The indices of all cells held by `player`, in increasing order.
    pub fn get_idx_of_player_peices(&self, player: Player) -> (r: Vec<usize>)
        ensures
            forall|j: int|
                0 <= j < r@.len() ==> r@[j] < 64 && self.board@[r@[j] as int].spec_is_owned_by(
                    player,
                ),
            forall|i: int|
                0 <= i < 64 && self.board@[i].spec_is_owned_by(player) ==> r@.contains(i as usize),
            forall|j1: int, j2: int| 0 <= j1 < j2 < r@.len() ==> r@[j1] < r@[j2],
    {
        let mut found: Vec<usize> = Vec::new();
        let mut i: usize = 0;
        while i < 64
            invariant
                i <= 64,
                forall|j: int|
                    0 <= j < found@.len() ==> found@[j] < i && self.board@[found@[j] as int].spec_is_owned_by(
                        player,
                    ),
                forall|t: int|
                    0 <= t < i && self.board@[t].spec_is_owned_by(player) ==> found@.contains(
                        t as usize,
                    ),
                forall|j1: int, j2: int| 0 <= j1 < j2 < found@.len() ==> found@[j1] < found@[j2],
            decreases 64 - i,
        {
            if self.board[i].is_occupied_by(player) {
                let ghost before = found@;
                found.push(i);
                proof {
                    assert forall|t: int|
                        0 <= t < i + 1 && self.board@[t].spec_is_owned_by(
                            player,
                        ) implies found@.contains(t as usize) by {
                        if t < i {
                            let w = choose|w: int|
                                0 <= w < before.len() && before[w] == t as usize;
                            assert(found@[w] == t as usize);
                        } else {
                            assert(found@[found@.len() - 1] == i as usize);
                        }
                    }
                }
            }
            i = i + 1;
        }
        found
    }

    /// Whether `player`'s piece at `peice` has an opponent piece on one of
    /// its two forward diagonals, both of which lie on the board.
    pub fn can_capture(&self, player: Player, peice: Position) -> (r: bool)
        requires
            peice.wf(),
        ensures
            r == spec_can_capture(self.board@, player, peice),
    {
        let (x, y) = peice.coords();
        let y_offset = player.forward_dy();
        let capture_left = Position::from_coords_checked((x as isize) - 1, (y as isize) + y_offset);
        let capture_right = Position::from_coords_checked(
            (x as isize) + 1,
            (y as isize) + y_offset,
        );
        match (capture_left, capture_right) {
            (Ok(p1), Ok(p2)) => self.board[p1.0].is_occupied_by(player.opponent())
                || self.board[p2.0].is_occupied_by(player.opponent()),
            _ => false,
        }
    }

    /// Moves a king along a diagonal: every opponent piece strictly
    /// between origin and destination is captured, the origin is vacated,
    /// and the destination is occupied as a king. Rejected without any
    /// change to the board when the pair is degenerate, not a diagonal,
    /// or blocked by a friendly piece.
    #[verifier::loop_isolation(false)]
    #[verifier::rlimit(60)]
    pub fn handle_king_movement(&mut self, moving_player: Player, this_move: Move) -> (r: Result<
        (),
        MoveError,
    >)
        requires
            this_move.wf(),
        ensures
            match spec_king_move(old(self).board@, moving_player, this_move) {
                Ok(s2) => r is Ok && final(self).board@ == s2,
                Err(e) => r == Err::<(), MoveError>(e) && final(self).board@ == old(self).board@,
            },
    {
        let m = this_move;
        if m.from().idx() == m.to().idx() {
            return Err(MoveError::DegenerateMove);
        }
        let (dx, dy) = m.delta();
        let adx = if dx < 0 {
            -dx
        } else {
            dx
        };
        let ady = if dy < 0 {
            -dy
        } else {
            dy
        };
        if adx != ady {
            return Err(MoveError::NotDiagonal);
        }
        proof {
            lemma_seg_cells(m);
        }
        let dist = adx as usize;
        let (fx, fy) = m.from().coords();
        let opp = moving_player.opponent();

        // Every cell strictly between origin and destination must be free
        // of friendly pieces before anything is touched.
        let mut k: usize = 1;
        while k < dist
            invariant
                1 <= k <= dist,
                forall|k2: int|
                    1 <= k2 < k ==> !self.board@[seg_idx(m, k2)].spec_is_owned_by(moving_player),
            decreases dist - k,
        {
            proof {
                assert(0 <= seg_idx(m, k as int) < 64);
            }
            let cx = if dx > 0 {
                fx + k
            } else {
                fx - k
            };
            let cy = if dy > 0 {
                fy + k
            } else {
                fy - k
            };
            let idx = cy * 8 + cx;
            if self.board[idx].is_occupied_by(moving_player) {
                proof {
                    assert(spec_king_blocked(self.board@, moving_player, m));
                }
                return Err(MoveError::BlockedByFriendly);
            }
            k = k + 1;
        }
        proof {
            if spec_king_blocked(self.board@, moving_player, m) {
                let kb = choose|kb: int|
                    1 <= kb < diag_len(m) && self.board@[seg_idx(m, kb)].spec_is_owned_by(
                        moving_player,
                    );
                assert(false);
            }
        }

        // Capture every opponent piece on the path.
        let ghost orig = self.board@;
        proof {
            assert forall|i: int| 0 <= i < 64 implies king_capture_upto(
                orig,
                moving_player,
                m,
                1,
            )[i] == orig[i] by {
                assert(!on_king_path_upto(m, i, 1));
            }
            assert(self.board@ =~= king_capture_upto(orig, moving_player, m, 1));
        }
        let mut k: usize = 1;
        while k < dist
            invariant
                1 <= k <= dist,
                self.board@ == king_capture_upto(orig, moving_player, m, k as int),
            decreases dist - k,
        {
            proof {
                assert(0 <= seg_idx(m, k as int) < 64);
            }
            let cx = if dx > 0 {
                fx + k
            } else {
                fx - k
            };
            let cy = if dy > 0 {
                fy + k
            } else {
                fy - k
            };
            let idx = cy * 8 + cx;
            if self.board[idx].is_occupied_by(opp) {
                self.board[idx] = Tile::empty();
            }
            proof {
                assert forall|i: int| 0 <= i < 64 implies self.board@[i] == king_capture_upto(
                    orig,
                    moving_player,
                    m,
                    k as int + 1,
                )[i] by {
                    if i == seg_idx(m, k as int) {
                        assert(on_king_path_upto(m, i, k as int + 1));
                        if on_king_path_upto(m, i, k as int) {
                            let k2 = choose|k2: int| 1 <= k2 < k && i == seg_idx(m, k2);
                            assert(false);
                        }
                    } else {
                        if on_king_path_upto(m, i, k as int + 1) {
                            let k2 = choose|k2: int|
                                1 <= k2 < k as int + 1 && i == seg_idx(m, k2);
                            assert(k2 != k);
                            assert(on_king_path_upto(m, i, k as int));
                        }
                        if on_king_path_upto(m, i, k as int) {
                            let k2 = choose|k2: int| 1 <= k2 < k && i == seg_idx(m, k2);
                            assert(on_king_path_upto(m, i, k as int + 1));
                        }
                    }
                }
                assert(self.board@ =~= king_capture_upto(orig, moving_player, m, k as int + 1));
            }
            k = k + 1;
        }

        // Vacate the origin and occupy the destination as a king.
        let fidx = m.from().idx();
        let tidx = m.to().idx();
        self.board[fidx] = Tile::empty();
        self.board[tidx] = Tile { occupied_by: Some(moving_player), kind: TileKind::King };
        Ok(())
    }

    /// The single mutating entry point of the engine: validates the move
    /// of the side whose turn it is and applies it. On any rejection the
    /// board is left exactly as it was; on success the board changes to
    /// what the move rules say, and nothing else.
    pub fn make_move(&mut self, turn_id: usize, this_move: Move) -> (r: Result<(), MoveError>)
        requires
            this_move.wf(),
        ensures
            match spec_make_move(old(self).board@, turn_id as int, this_move) {
                Ok(s2) => r is Ok && final(self).board@ == s2,
                Err(e) => r == Err::<(), MoveError>(e) && final(self).board@ == old(self).board@,
            },
    {
        if self.has_player_won(Player::Black) {
            return Err(MoveError::GameAlreadyOver { winner: Player::Black });
        }
        if self.has_player_won(Player::White) {
            return Err(MoveError::GameAlreadyOver { winner: Player::White });
        }
        if this_move.from().idx() == this_move.to().idx() {
            return Err(MoveError::DegenerateMove);
        }
        let moving_player = if turn_id % 2 == 0 {
            Player::Black
        } else {
            Player::White
        };
        let fidx = this_move.from().idx();
        let owner = match self.board[fidx].get_owner() {
            Ok(p) => p,
            Err(e) => {
                return Err(e);
            },
        };
        if owner != moving_player {
            return Err(MoveError::WrongPlayersPiece);
        }
        match self.board[fidx].kind() {
            TileKind::King => {
                return self.handle_king_movement(moving_player, this_move);
            },
            TileKind::Normal => {},
        }

        let (dx, dy) = this_move.delta();
        let adx = if dx < 0 {
            -dx
        } else {
            dx
        };
        let ady = if dy < 0 {
            -dy
        } else {
            dy
        };
        if adx != ady {
            return Err(MoveError::NotDiagonal);
        }
        if adx > 1 {
            return Err(MoveError::TooFar);
        }
        if dy != moving_player.forward_dy() {
            return Err(MoveError::MovedBackwards);
        }
        let tidx = this_move.to().idx();
        let dest = self.board[tidx];
        if dest.is_empty() {
            // A plain step onto a free cell, promoted on the far row.
            self.board[fidx] = Tile::empty();
            let (_, ty) = this_move.to().coords();
            let kind = if ty == moving_player.far_row() {
                TileKind::King
            } else {
                dest.kind()
            };
            self.board[tidx] = Tile { occupied_by: Some(moving_player), kind };
            Ok(())
        } else if dest.is_occupied_by(moving_player.opponent()) {
            // A jump over the opponent piece onto the cell behind it.
            let (tx, ty) = this_move.to().coords();
            match Position::from_coords_checked((tx as isize) + dx, (ty as isize) + dy) {
                Err(e) => Err(e),
                Ok(next_tile) => {
                    let landing = self.board[next_tile.0];
                    if landing.is_empty() {
                        self.board[fidx] = Tile::empty();
                        self.board[tidx] = Tile::empty();
                        self.board[next_tile.0] = Tile {
                            occupied_by: Some(moving_player),
                            kind: landing.kind(),
                        };
                        Ok(())
                    } else {
                        Err(MoveError::LandingOccupied)
                    }
                },
            }
        } else {
            Err(MoveError::AlreadyOccupiedBySelf)
        }
    }

    /// Whether `player` has at least one king on the board.
    pub fn has_king(&self, player: Player) -> (r: bool)
        ensures
            r == exists|i: int|
                0 <= i < 64 && self.board@[i].kind == TileKind::King
                    && self.board@[i].spec_is_owned_by(player),
    {
        let mut i: usize = 0;
        while i < 64
            invariant
                i <= 64,
                forall|j: int|
                    0 <= j < i ==> !(self.board@[j].kind == TileKind::King
                        && self.board@[j].spec_is_owned_by(player)),
            decreases 64 - i,
        {
            let t = self.board[i];
            if t.is_occupied_by(player) {
                match t.kind() {
                    TileKind::King => {
                        return true;
                    },
                    TileKind::Normal => {},
                }
            }
            i = i + 1;
        }
        false
    }
}

} // verus!
