use crate::board::abs_val;
use crate::moves::Position;
use vstd::prelude::*;

verus! {

/// Whether the cell at index `t` can be reached by a king standing at
/// `pos`: any other cell of the board on one of the four diagonals
/// through `pos`.
pub open spec fn is_king_candidate(pos: Position, t: int) -> bool {
    0 <= t < 64 && t != pos.0 && abs_val(t % 8 - pos.spec_x()) == abs_val(t / 8 - pos.spec_y())
}

/// All cells a king standing at `peice` could be asked to move to: the
/// board-bounded diagonals through that cell, in increasing index order.
pub fn king_destinations(peice: Position) -> (r: Vec<usize>)
    requires
        peice.wf(),
    ensures
        forall|j: int| 0 <= j < r@.len() ==> is_king_candidate(peice, r@[j] as int),
        forall|t: int| 0 <= t < 64 && is_king_candidate(peice, t) ==> r@.contains(t as usize),
        forall|j1: int, j2: int| 0 <= j1 < j2 < r@.len() ==> r@[j1] < r@[j2],
{
    let (px, py) = peice.coords();
    let mut found: Vec<usize> = Vec::new();
    let mut i: usize = 0;
    while i < 64
        invariant
            i <= 64,
            peice.wf(),
            px == peice.spec_x(),
            py == peice.spec_y(),
            forall|j: int|
                0 <= j < found@.len() ==> found@[j] < i && is_king_candidate(
                    peice,
                    found@[j] as int,
                ),
            forall|t: int|
                0 <= t < i && is_king_candidate(peice, t) ==> found@.contains(t as usize),
            forall|j1: int, j2: int| 0 <= j1 < j2 < found@.len() ==> found@[j1] < found@[j2],
        decreases 64 - i,
    {
        let ix = i % 8;
        let iy = i / 8;
        let adx = if ix > px {
            ix - px
        } else {
            px - ix
        };
        let ady = if iy > py {
            iy - py
        } else {
            py - iy
        };
        if i != peice.0 && adx == ady {
            let ghost before = found@;
            found.push(i);
            proof {
                assert forall|t: int|
                    0 <= t < i + 1 && is_king_candidate(peice, t) implies found@.contains(
                    t as usize,
                ) by {
                    if t < i {
                        let w = choose|w: int| 0 <= w < before.len() && before[w] == t as usize;
                        assert(found@[w] == t as usize);
                    } else {
                        assert(found@[found@.len() - 1] == i as usize);
                    }
                }
            }
        }
        i = i + 1;
    }
    found
}

} // verus!
