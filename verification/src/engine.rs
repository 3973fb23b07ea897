//! The interaction engine: what a click does.
//!
//! A click on a square selects the square and the piece on it. A second
//! click on a square tries to move the selected piece there, taking what
//! stands on the target, and clears the selection whether the move was
//! allowed or not. A click that lands on no square clears the selection.

use vstd::prelude::*;
use crate::board::{
    Board,
    PieceId,
    Square,
    first_on,
    lists_handles,
    live,
    live_pieces,
    live_pieces_belong_to_handles,
    occupancy_is_by_handles,
    one_piece_per_square,
    piece_of,
    removal_leaves_one_fewer,
    replacement_keeps_count,
    stands_on,
};
use crate::pieces::Piece;
use crate::rules::{move_valid, occupied, occupied_by};

verus! {

/// What is under the pointer.
#[derive(Clone, Copy, Debug, PartialEq, Eq)]
pub enum Hover {
    /// A square of the board.
    Square(Square),
    /// A piece.
    Piece(PieceId),
}

/// What the player has selected.
#[derive(Clone, Copy, Debug, PartialEq, Eq)]
pub struct Selection {
    pub selected_square: Option<Square>,
    pub selected_piece: Option<PieceId>,
}

/// The state of the engine between two clicks.
#[derive(Clone, Copy, Debug, PartialEq, Eq)]
pub enum EngineState {
    /// No piece is selected.
    Idle,
    /// The piece is selected; the next click on a square tries to move it.
    PieceSelected(PieceId),
}

/// What a click did.
#[derive(Debug, PartialEq, Eq)]
pub enum ClickOutcome {
    /// The click landed on no square: nothing is selected any more.
    Deselected,
    /// An empty square is now selected.
    SquareSelected,
    /// A square and the piece on it are now selected.
    PieceSelected(PieceId),
    /// The selected piece may not go to the clicked square. The board is as
    /// it was and nothing is selected any more.
    Rejected,
    /// The selected piece went to the clicked square and the pieces in
    /// `captured` left the board. Nothing is selected any more.
    Moved { piece: PieceId, captured: Vec<PieceId> },
}

impl Selection {
    /// Nothing is selected.
    pub open spec fn spec_new() -> Selection {
        Selection { selected_square: None, selected_piece: None }
    }

    /// Nothing is selected.
    #[verifier::when_used_as_spec(spec_new)]
    pub fn new() -> (selection: Selection)
        ensures
            selection == Selection::spec_new(),
    {
        Selection { selected_square: None, selected_piece: None }
    }

    /// The state that this selection puts the engine in.
    pub open spec fn spec_state(&self) -> EngineState {
        match self.selected_piece {
            Some(id) => EngineState::PieceSelected(id),
            None => EngineState::Idle,
        }
    }

    /// The state that this selection puts the engine in.
    #[verifier::when_used_as_spec(spec_state)]
    pub fn state(&self) -> (state: EngineState)
        ensures
            state == self.spec_state(),
    {
        match self.selected_piece {
            Some(id) => EngineState::PieceSelected(id),
            None => EngineState::Idle,
        }
    }
}

impl Default for Selection {
    fn default() -> (selection: Selection)
        ensures
            selection == Selection::spec_new(),
    {
        Selection::new()
    }
}

/// The handle `id` stands for a piece that may move to `target` on this
/// board.
pub open spec fn can_move(slots: Seq<Option<Piece>>, id: PieceId, target: (u8, u8)) -> bool {
    live(slots, id) && move_valid(piece_of(slots, id), target, live_pieces(slots))
}

/// The piece of `victim` is taken when the piece of `mover` goes to
/// `target`: it stands there and is of the other colour.
pub open spec fn captured_by(
    slots: Seq<Option<Piece>>,
    mover: PieceId,
    target: (u8, u8),
    victim: PieceId,
) -> bool {
    stands_on(slots, victim, target) && piece_of(slots, victim).color != piece_of(
        slots,
        mover,
    ).color
}

/// The board after the piece of `mover` went to `target`: every piece of the
/// other colour that stood there is gone, the mover stands there, and all
/// other slots are as they were.
pub open spec fn after_move(slots: Seq<Option<Piece>>, mover: PieceId, target: (u8, u8)) -> Seq<
    Option<Piece>,
> {
    Seq::new(
        slots.len(),
        |h: int|
            if h == mover.0 {
                Some(piece_of(slots, mover).moved_to(target))
            } else if captured_by(slots, mover, target, PieceId(h as usize)) {
                None
            } else {
                slots[h]
            },
    )
}

/// `captured` lists the handles of the pieces that are taken when the piece
/// of `mover` goes to `target`, each once, in rising order.
pub open spec fn lists_captured(
    slots: Seq<Option<Piece>>,
    mover: PieceId,
    target: (u8, u8),
    captured: Seq<PieceId>,
) -> bool {
    &&& forall|i: int|
        0 <= i < captured.len() ==> captured_by(slots, mover, target, #[trigger] captured[i])
    &&& forall|i: int, j: int|
        0 <= i < j < captured.len() ==> (#[trigger] captured[i]).0 < (#[trigger] captured[j]).0
    &&& forall|victim: PieceId|
        captured_by(slots, mover, target, victim) ==> captured.contains(victim)
}

/// The handle below which the first `k` entries of `handles` have dealt with
/// every piece: the handle at place `k`, or the number of slots when the
/// list ends there.
spec fn done_below(slots: Seq<Option<Piece>>, handles: Seq<PieceId>, k: int) -> int {
    if 0 <= k < handles.len() {
        handles[k].0 as int
    } else {
        slots.len() as int
    }
}

/// Moves the piece of `id` to `target` if the movement rule allows it, and
/// takes every piece of the other colour that stands there off the board.
///
/// Returns the handles of the pieces taken, or `None` when the move is not
/// allowed or `id` stands for no piece; the board is then as it was.
pub fn try_move(board: &mut Board, id: PieceId, target: (u8, u8)) -> (captured: Option<
    Vec<PieceId>,
>)
    ensures
        match captured {
            Some(list) => {
                &&& can_move(old(board)@, id, target)
                &&& final(board)@ == after_move(old(board)@, id, target)
                &&& lists_captured(old(board)@, id, target, list@)
            },
            None => !can_move(old(board)@, id, target) && final(board)@ == old(board)@,
        },
{
    let ghost before = board@;
    proof {
        board.slots_are_countable();
    }
    let piece = match board.piece(id) {
        Ok(piece) => piece,
        Err(_) => {
            return None;
        },
    };
    let snapshot = board.all_pieces();
    if !piece.is_move_valid(target, &snapshot) {
        return None;
    }
    let handles = board.all_pieces_mut();
    let mut captured: Vec<PieceId> = Vec::new();
    let mut k: usize = 0;
    while k < handles.len()
        invariant
            k <= handles.len(),
            lists_handles(before, handles@),
            live(before, id),
            piece == piece_of(before, id),
            piece.pos() != target,
            before.len() <= usize::MAX,
            board@.len() == before.len(),
            forall|h: int|
                0 <= h < before.len() ==> #[trigger] board@[h] == (if h < done_below(
                    before,
                    handles@,
                    k as int,
                ) && captured_by(before, id, target, PieceId(h as usize)) {
                    None
                } else {
                    before[h]
                }),
            forall|i: int|
                0 <= i < captured@.len() ==> captured_by(before, id, target, #[trigger] captured@[i])
                    && captured@[i].0 < done_below(before, handles@, k as int),
            forall|i: int, j: int|
                0 <= i < j < captured@.len() ==> (#[trigger] captured@[i]).0 < (
                #[trigger] captured@[j]).0,
            forall|victim: PieceId|
                captured_by(before, id, target, victim) && victim.0 < done_below(
                    before,
                    handles@,
                    k as int,
                ) ==> captured@.contains(victim),
        decreases handles.len() - k,
    {
        let other_id = handles[k];
        proof {
            assert(live(before, handles@[k as int]));
            assert forall|skipped: PieceId|
                other_id.0 < skipped.0 < done_below(before, handles@, k + 1) implies !live(
                before,
                skipped,
            ) by {
                if live(before, skipped) {
                    let i = choose|i: int| 0 <= i < handles@.len() && handles@[i] == skipped;
                    if i < k {
                        assert(handles@[i].0 < handles@[k as int].0);
                    } else if i > k + 1 {
                        assert(handles@[k + 1].0 < handles@[i].0);
                    }
                }
            }
        }
        let ghost earlier = captured@;
        match board.piece(other_id) {
            Ok(other) => {
                if other.x == target.0 && other.y == target.1 && other.color != piece.color {
                    let _ = board.remove_piece(other_id);
                    captured.push(other_id);
                    proof {
                        assert(captured@[earlier.len() as int] == other_id);
                        assert forall|victim: PieceId|
                            captured_by(before, id, target, victim) && victim.0 < done_below(
                                before,
                                handles@,
                                k + 1,
                            ) implies captured@.contains(victim) by {
                            if victim.0 < other_id.0 {
                                assert(earlier.contains(victim));
                                let i = earlier.index_of(victim);
                                assert(captured@[i] == victim);
                            } else {
                                assert(victim == other_id);
                            }
                        }
                    }
                }
            },
            Err(_) => {},
        }
        k += 1;
    }
    let _ = board.move_piece(id, target.0, target.1);
    assert(board@ =~= after_move(before, id, target));
    Some(captured)
}

/// What holds after a click, of the board, the selection and the outcome.
///
/// - The click landed on a square and no piece was selected: the square is
///   selected, together with the piece that stands on it, if any. The board
///   is as it was.
/// - The click landed on a square and a piece was selected: if that piece
///   may move there it has moved and taken what stood there; if not, the
///   board is as it was. Either way nothing is selected any more.
/// - The click landed on no square: nothing is selected any more and the
///   board is as it was.
pub open spec fn click_result(
    before: Seq<Option<Piece>>,
    selected: Selection,
    hovered: Option<Hover>,
    after: Seq<Option<Piece>>,
    selection: Selection,
    outcome: ClickOutcome,
) -> bool {
    match hovered {
        Some(Hover::Square(square)) => match selected.selected_piece {
            None => {
                &&& after == before
                &&& selection.selected_square == Some(square)
                &&& first_on(before, square.pos(), selection.selected_piece)
                &&& outcome == match selection.selected_piece {
                    Some(id) => ClickOutcome::PieceSelected(id),
                    None => ClickOutcome::SquareSelected,
                }
            },
            Some(id) => {
                &&& selection == Selection::new()
                &&& if can_move(before, id, square.pos()) {
                    &&& after == after_move(before, id, square.pos())
                    &&& outcome matches ClickOutcome::Moved { piece, captured }
                    &&& piece == id
                    &&& lists_captured(before, id, square.pos(), captured@)
                } else {
                    &&& after == before
                    &&& outcome == ClickOutcome::Rejected
                }
            },
        },
        _ => {
            &&& after == before
            &&& selection == Selection::new()
            &&& outcome == ClickOutcome::Deselected
        },
    }
}

/// Handles one click of the primary button. `hovered` is what was under the
/// pointer, if anything.
pub fn select_square(board: &mut Board, selection: &mut Selection, hovered: Option<Hover>) -> (outcome:
    ClickOutcome)
    ensures
        click_result(
            old(board)@,
            *old(selection),
            hovered,
            final(board)@,
            *final(selection),
            outcome,
        ),
        (hovered matches Some(Hover::Square(square)) && old(selection).selected_piece matches Some(
            id,
        ) && !can_move(old(board)@, id, square.pos())) ==> {
            &&& final(board)@ == old(board)@
            &&& final(selection).state() == EngineState::Idle
            &&& *final(selection) == Selection::new()
            &&& outcome == ClickOutcome::Rejected
        },
        final(selection).state() != EngineState::Idle ==> old(selection).state()
            == EngineState::Idle,
        final(board)@ != old(board)@ ==> outcome is Moved,
{
    match hovered {
        Some(Hover::Square(square)) => {
            match selection.selected_piece {
                Some(id) => {
                    let moved = try_move(board, id, (square.x, square.y));
                    selection.selected_square = None;
                    selection.selected_piece = None;
                    match moved {
                        Some(captured) => ClickOutcome::Moved { piece: id, captured },
                        None => ClickOutcome::Rejected,
                    }
                },
                None => {
                    let found = board.piece_at(square.x, square.y);
                    selection.selected_square = Some(square);
                    selection.selected_piece = found;
                    match found {
                        Some(id) => ClickOutcome::PieceSelected(id),
                        None => ClickOutcome::SquareSelected,
                    }
                },
            }
        },
        _ => {
            selection.selected_square = None;
            selection.selected_piece = None;
            ClickOutcome::Deselected
        },
    }
}

/// After a legal move the mover, and nothing else, stands on the target.
/// Every piece that stood there before is off the board and no longer among
/// the board's pieces; every piece that stood elsewhere is untouched.
pub proof fn move_leaves_only_the_mover(slots: Seq<Option<Piece>>, id: PieceId, target: (u8, u8))
    requires
        slots.len() <= usize::MAX,
        can_move(slots, id, target),
    ensures
        ({
            let after = after_move(slots, id, target);
            &&& after.len() == slots.len()
            &&& live(after, id)
            &&& piece_of(after, id) == piece_of(slots, id).moved_to(target)
            &&& forall|other: PieceId| #[trigger] stands_on(after, other, target) <==> other == id
            &&& forall|victim: PieceId| #[trigger]
                stands_on(slots, victim, target) ==> !live(after, victim) && !live_pieces(
                    after,
                ).contains(piece_of(slots, victim))
            &&& forall|other: PieceId|
                other != id && !(#[trigger] stands_on(slots, other, target)) && other.0
                    < slots.len() ==> after[other.0 as int] == slots[other.0 as int]
        }),
{
    let after = after_move(slots, id, target);
    let mover = piece_of(slots, id);
    occupancy_is_by_handles(slots, target);
    assert forall|victim: PieceId| #[trigger] stands_on(slots, victim, target) implies captured_by(
        slots,
        id,
        target,
        victim,
    ) by {
        if piece_of(slots, victim).color == mover.color {
            assert(occupied_by(live_pieces(slots), target, mover.color));
        }
    }
    assert forall|other: PieceId| #[trigger] stands_on(after, other, target) implies other
        == id by {
        if other != id {
            assert(after[other.0 as int] == slots[other.0 as int]);
            assert(stands_on(slots, other, target));
        }
    }
    live_pieces_belong_to_handles(after);
    assert forall|victim: PieceId| #[trigger] stands_on(slots, victim, target) implies !live(
        after,
        victim,
    ) && !live_pieces(after).contains(piece_of(slots, victim)) by {
        assert(captured_by(slots, id, target, victim));
        let taken = piece_of(slots, victim);
        if live_pieces(after).contains(taken) {
            let i = live_pieces(after).index_of(taken);
            let holder = choose|holder: PieceId|
                live(after, holder) && piece_of(after, holder) == live_pieces(after)[i];
            assert(stands_on(after, holder, target));
        }
    }
}

/// A legal move keeps the pieces apart: when no two pieces shared a square
/// before it, none do after it.
pub proof fn move_keeps_one_piece_per_square(
    slots: Seq<Option<Piece>>,
    id: PieceId,
    target: (u8, u8),
)
    requires
        slots.len() <= usize::MAX,
        one_piece_per_square(slots),
        can_move(slots, id, target),
    ensures
        one_piece_per_square(after_move(slots, id, target)),
{
    let after = after_move(slots, id, target);
    move_leaves_only_the_mover(slots, id, target);
    assert forall|a: PieceId, b: PieceId| live(after, a) && live(after, b) && a != b implies piece_of(
        after,
        a,
    ).pos() != piece_of(after, b).pos() by {
        if a == id {
            assert(!stands_on(after, b, target));
        } else if b == id {
            assert(!stands_on(after, a, target));
        } else {
            assert(live(slots, a) && live(slots, b));
        }
    }
}

/// On a board where no two pieces share a square, a legal move onto an
/// occupied square takes exactly one piece off the board, and a legal move
/// onto an empty square takes none.
pub proof fn move_takes_what_stood_on_target(
    slots: Seq<Option<Piece>>,
    id: PieceId,
    target: (u8, u8),
)
    requires
        slots.len() <= usize::MAX,
        one_piece_per_square(slots),
        can_move(slots, id, target),
    ensures
        live_pieces(after_move(slots, id, target)).len() == live_pieces(slots).len() - (if occupied(
            live_pieces(slots),
            target,
        ) {
            1int
        } else {
            0int
        }),
{
    let after = after_move(slots, id, target);
    let moved = Some(piece_of(slots, id).moved_to(target));
    occupancy_is_by_handles(slots, target);
    move_leaves_only_the_mover(slots, id, target);
    if occupied(live_pieces(slots), target) {
        let victim = choose|victim: PieceId| stands_on(slots, victim, target);
        let without = slots.update(victim.0 as int, None);
        removal_leaves_one_fewer(slots, victim);
        replacement_keeps_count(without, id, piece_of(slots, id).moved_to(target));
        assert forall|h: int| 0 <= h < slots.len() implies after[h] == without.update(
            id.0 as int,
            moved,
        )[h] by {
            let other = PieceId(h as usize);
            if h != id.0 && h != victim.0 {
                if captured_by(slots, id, target, other) {
                    assert(live(slots, other) && live(slots, victim) && other != victim);
                }
            }
        }
        assert(after =~= without.update(id.0 as int, moved));
    } else {
        replacement_keeps_count(slots, id, piece_of(slots, id).moved_to(target));
        assert forall|h: int| 0 <= h < slots.len() implies after[h] == slots.update(
            id.0 as int,
            moved,
        )[h] by {
            let other = PieceId(h as usize);
            if captured_by(slots, id, target, other) {
                assert(stands_on(slots, other, target));
            }
        }
        assert(after =~= slots.update(id.0 as int, moved));
    }
}

/// A click keeps the pieces apart: when no two pieces shared a square
/// before it, none do after it, whatever was clicked and whatever was
/// selected.
pub proof fn click_keeps_one_piece_per_square(
    before: Seq<Option<Piece>>,
    selected: Selection,
    hovered: Option<Hover>,
    after: Seq<Option<Piece>>,
    selection: Selection,
    outcome: ClickOutcome,
)
    requires
        before.len() <= usize::MAX,
        one_piece_per_square(before),
        click_result(before, selected, hovered, after, selection, outcome),
    ensures
        one_piece_per_square(after),
{
    if let Some(Hover::Square(square)) = hovered {
        if let Some(id) = selected.selected_piece {
            if can_move(before, id, square.pos()) {
                move_keeps_one_piece_per_square(before, id, square.pos());
            }
        }
    }
}

/// A click never selects a piece that is not on the board, and the engine
/// leaves the idle state only for a piece that stands on the clicked
/// square.
pub proof fn click_selects_what_was_clicked(
    before: Seq<Option<Piece>>,
    selected: Selection,
    hovered: Option<Hover>,
    after: Seq<Option<Piece>>,
    selection: Selection,
    outcome: ClickOutcome,
)
    requires
        click_result(before, selected, hovered, after, selection, outcome),
    ensures
        selection.selected_piece matches Some(id) ==> {
            &&& hovered matches Some(Hover::Square(square))
            &&& selected.selected_piece is None
            &&& selection.selected_square == Some(square)
            &&& stands_on(after, id, square.pos())
        },
{
}

} // verus!
