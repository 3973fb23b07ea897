//! The board: its 64 squares and the registry of the pieces that stand on
//! them.
//!
//! The registry hands out a handle for every piece it takes in. A handle
//! stays with its piece while the piece moves, and is never given to
//! another piece after its own was removed.

use vstd::prelude::*;
use crate::pieces::{Piece, PieceColor, PieceKind};
use crate::rules::{occupied, occupied_by};

verus! {

/// One of the 64 squares of the board: row `x`, column `y`.
#[derive(Clone, Copy, Debug, PartialEq, Eq, Structural, Hash)]
pub struct Square {
    pub x: u8,
    pub y: u8,
}

impl Square {
    /// The coordinates of the square.
    pub open spec fn pos(self) -> (u8, u8) {
        (self.x, self.y)
    }

    /// The square is one of the light squares of the checkerboard.
    pub open spec fn spec_is_white(&self) -> bool {
        (self.x + self.y + 1) % 2 == 0
    }

    /// Whether the square is one of the light squares of the checkerboard.
    #[verifier::when_used_as_spec(spec_is_white)]
    pub fn is_white(&self) -> (white: bool)
        ensures
            white == self.spec_is_white(),
    {
        self.x % 2 != self.y % 2
    }
}

/// The square at place `i` of the board when its squares are counted row by
/// row.
pub open spec fn board_square(i: int) -> Square {
    Square { x: (i / 8) as u8, y: (i % 8) as u8 }
}

/// The 64 squares of the board, row by row.
pub fn create_board() -> (squares: Vec<Square>)
    ensures
        squares@.len() == 64,
        forall|i: int| 0 <= i < 64 ==> squares@[i] == board_square(i),
        forall|x: u8, y: u8|
            x < 8 && y < 8 ==> squares@[8 * x + y] == (Square { x, y }),
{
    let mut squares: Vec<Square> = Vec::new();
    let mut x: u8 = 0;
    while x < 8
        invariant
            x <= 8,
            squares@.len() == 8 * x,
            forall|i: int| 0 <= i < squares@.len() ==> squares@[i] == board_square(i),
        decreases 8 - x,
    {
        let mut y: u8 = 0;
        while y < 8
            invariant
                x < 8,
                y <= 8,
                squares@.len() == 8 * x + y,
                forall|i: int| 0 <= i < squares@.len() ==> squares@[i] == board_square(i),
            decreases 8 - y,
        {
            squares.push(Square { x, y });
            y += 1;
        }
        x += 1;
    }
    assert forall|x: u8, y: u8| x < 8 && y < 8 implies squares@[8 * x + y] == (Square { x, y }) by {
        assert(squares@[8 * x + y] == board_square(8 * x + y));
    }
    squares
}

/// The handle of a piece in a [`Board`].
#[derive(Clone, Copy, Debug, PartialEq, Eq, Structural, Hash)]
pub struct PieceId(pub usize);

/// Why the registry refused a request.
#[derive(Clone, Copy, Debug, PartialEq, Eq, Structural, Hash)]
pub enum RegistryError {
    /// The handle does not stand for a piece that is on the board.
    InvalidReference,
}

/// The handle `id` stands for a piece that is on the board.
pub open spec fn live(slots: Seq<Option<Piece>>, id: PieceId) -> bool {
    id.0 < slots.len() && slots[id.0 as int] is Some
}

/// The piece that the live handle `id` stands for.
pub open spec fn piece_of(slots: Seq<Option<Piece>>, id: PieceId) -> Piece {
    slots[id.0 as int]->0
}

/// The handle `id` stands for a piece that is on the board, on square `pos`.
pub open spec fn stands_on(slots: Seq<Option<Piece>>, id: PieceId, pos: (u8, u8)) -> bool {
    live(slots, id) && piece_of(slots, id).pos() == pos
}

/// `found` is the answer to "which piece stands on `pos`?": the smallest
/// handle of a piece that stands there, or nothing when the square is empty.
pub open spec fn first_on(slots: Seq<Option<Piece>>, pos: (u8, u8), found: Option<PieceId>) -> bool {
    match found {
        Some(id) => stands_on(slots, id, pos) && forall|other: PieceId|
            other.0 < id.0 ==> !stands_on(slots, other, pos),
        None => forall|other: PieceId| !stands_on(slots, other, pos),
    }
}

/// The pieces on the board, in the order of their handles.
pub open spec fn live_pieces(slots: Seq<Option<Piece>>) -> Seq<Piece>
    decreases slots.len(),
{
    if slots.len() == 0 {
        Seq::empty()
    } else {
        let before = live_pieces(slots.drop_last());
        match slots.last() {
            Some(piece) => before.push(piece),
            None => before,
        }
    }
}

/// `handles` lists the handles of the pieces on the board, each once, in
/// rising order.
pub open spec fn lists_handles(slots: Seq<Option<Piece>>, handles: Seq<PieceId>) -> bool {
    &&& forall|i: int| 0 <= i < handles.len() ==> live(slots, #[trigger] handles[i])
    &&& forall|i: int, j: int|
        0 <= i < j < handles.len() ==> (#[trigger] handles[i]).0 < (#[trigger] handles[j]).0
    &&& forall|id: PieceId| live(slots, id) ==> handles.contains(id)
}

/// No two pieces stand on the same square.
pub open spec fn one_piece_per_square(slots: Seq<Option<Piece>>) -> bool {
    forall|a: PieceId, b: PieceId|
        live(slots, a) && live(slots, b) && a != b ==> piece_of(slots, a).pos() != piece_of(
            slots,
            b,
        ).pos()
}

/// The registry of the pieces on the board.
///
/// Its view is the sequence of its slots: slot `i` holds the piece with
/// handle `PieceId(i)`, or nothing once that piece was removed.
pub struct Board {
    slots: Vec<Option<Piece>>,
}

impl View for Board {
    type V = Seq<Option<Piece>>;

    closed spec fn view(&self) -> Seq<Option<Piece>> {
        self.slots@
    }
}

impl Board {
    /// A board never has more slots than a `usize` can count.
    pub proof fn slots_are_countable(&self)
        ensures
            self@.len() <= usize::MAX,
    {
        assert(self.slots.len() == self.slots@.len());
    }

    /// A board without pieces.
    pub fn new() -> (board: Board)
        ensures
            board@ == Seq::<Option<Piece>>::empty(),
    {
        Board { slots: Vec::new() }
    }

    /// Puts `piece` on the board and returns its handle, which no piece had
    /// before.
    pub fn spawn(&mut self, piece: Piece) -> (id: PieceId)
        ensures
            final(self)@ == old(self)@.push(Some(piece)),
            id.0 == old(self)@.len(),
    {
        let id = PieceId(self.slots.len());
        self.slots.push(Some(piece));
        id
    }

    /// The piece that `id` stands for.
    pub fn piece(&self, id: PieceId) -> (found: Result<Piece, RegistryError>)
        ensures
            match found {
                Ok(piece) => live(self@, id) && piece == piece_of(self@, id),
                Err(error) => !live(self@, id) && error == RegistryError::InvalidReference,
            },
    {
        if id.0 < self.slots.len() {
            match self.slots[id.0] {
                Some(piece) => Ok(piece),
                None => Err(RegistryError::InvalidReference),
            }
        } else {
            Err(RegistryError::InvalidReference)
        }
    }

    /// The piece that stands on row `x`, column `y`: the one with the
    /// smallest handle, should there be several.
    pub fn piece_at(&self, x: u8, y: u8) -> (found: Option<PieceId>)
        ensures
            first_on(self@, (x, y), found),
    {
        let mut i: usize = 0;
        while i < self.slots.len()
            invariant
                i <= self.slots.len(),
                forall|other: PieceId| other.0 < i ==> !stands_on(self@, other, (x, y)),
            decreases self.slots.len() - i,
        {
            match self.slots[i] {
                Some(piece) => {
                    if piece.x == x && piece.y == y {
                        return Some(PieceId(i));
                    }
                },
                None => {},
            }
            i += 1;
        }
        None
    }

    /// The pieces on the board, by value, in the order of their handles.
    pub fn all_pieces(&self) -> (pieces: Vec<Piece>)
        ensures
            pieces@ == live_pieces(self@),
    {
        let mut pieces: Vec<Piece> = Vec::new();
        let mut i: usize = 0;
        while i < self.slots.len()
            invariant
                i <= self.slots.len(),
                pieces@ == live_pieces(self@.take(i as int)),
            decreases self.slots.len() - i,
        {
            assert(self@.take(i + 1).drop_last() == self@.take(i as int));
            match self.slots[i] {
                Some(piece) => {
                    pieces.push(piece);
                },
                None => {},
            }
            i += 1;
        }
        assert(self@.take(i as int) == self@);
        pieces
    }

    /// The handles of the pieces on the board, in rising order: what a
    /// caller needs to change or remove each of them.
    pub fn all_pieces_mut(&self) -> (handles: Vec<PieceId>)
        ensures
            lists_handles(self@, handles@),
    {
        let mut handles: Vec<PieceId> = Vec::new();
        let mut i: usize = 0;
        while i < self.slots.len()
            invariant
                i <= self.slots.len(),
                forall|k: int| 0 <= k < handles@.len() ==> live(self@, #[trigger] handles@[k]),
                forall|k: int| 0 <= k < handles@.len() ==> (#[trigger] handles@[k]).0 < i,
                forall|k: int, l: int|
                    0 <= k < l < handles@.len() ==> (#[trigger] handles@[k]).0 < (
                    #[trigger] handles@[l]).0,
                forall|id: PieceId| live(self@, id) && id.0 < i ==> handles@.contains(id),
            decreases self.slots.len() - i,
        {
            if self.slots[i].is_some() {
                let ghost before = handles@;
                handles.push(PieceId(i));
                proof {
                    assert(handles@[before.len() as int] == PieceId(i));
                    assert forall|id: PieceId| live(self@, id) && id.0 < i + 1 implies handles@.contains(
                        id,
                    ) by {
                        if id.0 < i {
                            let k = choose|k: int| 0 <= k < before.len() && before[k] == id;
                            assert(handles@[k] == id);
                        }
                    }
                }
            }
            i += 1;
        }
        handles
    }

    /// Puts the piece that `id` stands for on row `x`, column `y`, whatever
    /// stands there and however the piece travels. Without a piece for `id`
    /// nothing changes.
    pub fn move_piece(&mut self, id: PieceId, x: u8, y: u8) -> (done: Result<(), RegistryError>)
        ensures
            match done {
                Ok(_) => live(old(self)@, id) && final(self)@ == old(self)@.update(
                    id.0 as int,
                    Some(piece_of(old(self)@, id).moved_to((x, y))),
                ),
                Err(error) => !live(old(self)@, id) && final(self)@ == old(self)@ && error
                    == RegistryError::InvalidReference,
            },
    {
        match self.piece(id) {
            Ok(piece) => {
                self.slots.set(id.0, Some(piece.moved_to((x, y))));
                Ok(())
            },
            Err(error) => Err(error),
        }
    }

    /// Takes the piece that `id` stands for off the board. Without a piece
    /// for `id` nothing changes.
    pub fn remove_piece(&mut self, id: PieceId) -> (done: Result<(), RegistryError>)
        ensures
            match done {
                Ok(_) => live(old(self)@, id) && final(self)@ == old(self)@.update(
                    id.0 as int,
                    None,
                ),
                Err(error) => !live(old(self)@, id) && final(self)@ == old(self)@ && error
                    == RegistryError::InvalidReference,
            },
    {
        match self.piece(id) {
            Ok(_) => {
                self.slots.set(id.0, None);
                Ok(())
            },
            Err(error) => Err(error),
        }
    }
}

/// The officer that starts in column `y` of its side's back row: rook,
/// knight, bishop, queen, king, bishop, knight, rook.
pub open spec fn spec_officer(y: u8) -> PieceKind {
    if y == 0 || y == 7 {
        PieceKind::Rook
    } else if y == 1 || y == 6 {
        PieceKind::Knight
    } else if y == 2 || y == 5 {
        PieceKind::Bishop
    } else if y == 3 {
        PieceKind::Queen
    } else {
        PieceKind::King
    }
}

/// The officer that starts in column `y` of its side's back row.
#[verifier::when_used_as_spec(spec_officer)]
pub fn officer(y: u8) -> (kind: PieceKind)
    ensures
        kind == spec_officer(y),
{
    if y == 0 || y == 7 {
        PieceKind::Rook
    } else if y == 1 || y == 6 {
        PieceKind::Knight
    } else if y == 2 || y == 5 {
        PieceKind::Bishop
    } else if y == 3 {
        PieceKind::Queen
    } else {
        PieceKind::King
    }
}

/// The piece with handle `i` at the start of a game. White's officers come
/// first, on row 0, then White's pawns on row 1, Black's officers on row 7
/// and Black's pawns on row 6, each row from column 0 to column 7.
pub open spec fn starting_piece(i: int) -> Piece {
    if i < 8 {
        Piece { color: PieceColor::White, kind: officer(i as u8), x: 0, y: i as u8 }
    } else if i < 16 {
        Piece { color: PieceColor::White, kind: PieceKind::Pawn, x: 1, y: (i - 8) as u8 }
    } else if i < 24 {
        Piece { color: PieceColor::Black, kind: officer((i - 16) as u8), x: 7, y: (i - 16) as u8 }
    } else {
        Piece { color: PieceColor::Black, kind: PieceKind::Pawn, x: 6, y: (i - 24) as u8 }
    }
}

/// The slots of a board at the start of a game: 32 pieces.
pub open spec fn starting_slots() -> Seq<Option<Piece>> {
    Seq::new(32, |i: int| Some(starting_piece(i)))
}

/// Puts the eight officers of `color` on row `x`.
fn place_officers(board: &mut Board, color: PieceColor, x: u8)
    ensures
        final(board)@ == old(board)@ + Seq::new(
            8,
            |y: int| Some(Piece { color, kind: officer(y as u8), x, y: y as u8 }),
        ),
{
    let mut y: u8 = 0;
    while y < 8
        invariant
            y <= 8,
            board@ == old(board)@ + Seq::new(
                y as nat,
                |y: int| Some(Piece { color, kind: officer(y as u8), x, y: y as u8 }),
            ),
        decreases 8 - y,
    {
        board.spawn(Piece { color, kind: officer(y), x, y });
        y += 1;
    }
}

/// Puts the eight pawns of `color` on row `x`.
fn place_pawns(board: &mut Board, color: PieceColor, x: u8)
    ensures
        final(board)@ == old(board)@ + Seq::new(
            8,
            |y: int| Some(Piece { color, kind: PieceKind::Pawn, x, y: y as u8 }),
        ),
{
    let mut y: u8 = 0;
    while y < 8
        invariant
            y <= 8,
            board@ == old(board)@ + Seq::new(
                y as nat,
                |y: int| Some(Piece { color, kind: PieceKind::Pawn, x, y: y as u8 }),
            ),
        decreases 8 - y,
    {
        board.spawn(Piece { color, kind: PieceKind::Pawn, x, y });
        y += 1;
    }
}

/// The board at the start of a game: the 32 pieces of both sides on their
/// starting squares, no two on one square.
pub fn create_pieces() -> (board: Board)
    ensures
        board@ == starting_slots(),
        one_piece_per_square(board@),
{
    let mut board = Board::new();
    place_officers(&mut board, PieceColor::White, 0);
    place_pawns(&mut board, PieceColor::White, 1);
    place_officers(&mut board, PieceColor::Black, 7);
    place_pawns(&mut board, PieceColor::Black, 6);
    assert(board@ =~= starting_slots());
    board
}

/// The pieces on the board are the pieces that the live handles stand for:
/// every entry of `live_pieces` belongs to a live handle, and every live
/// handle's piece is an entry.
pub proof fn live_pieces_belong_to_handles(slots: Seq<Option<Piece>>)
    requires
        slots.len() <= usize::MAX,
    ensures
        forall|i: int|
            0 <= i < live_pieces(slots).len() ==> exists|id: PieceId|
                live(slots, id) && piece_of(slots, id) == #[trigger] live_pieces(slots)[i],
        forall|id: PieceId|
            #[trigger] live(slots, id) ==> live_pieces(slots).contains(piece_of(slots, id)),
    decreases slots.len(),
{
    if slots.len() > 0 {
        let shorter = slots.drop_last();
        let last = PieceId((slots.len() - 1) as usize);
        live_pieces_belong_to_handles(shorter);
        assert forall|i: int| 0 <= i < live_pieces(slots).len() implies exists|id: PieceId|
            live(slots, id) && piece_of(slots, id) == #[trigger] live_pieces(slots)[i] by {
            if i < live_pieces(shorter).len() {
                assert(live_pieces(slots)[i] == live_pieces(shorter)[i]);
                let id = choose|id: PieceId|
                    live(shorter, id) && piece_of(shorter, id) == live_pieces(shorter)[i];
                assert(live(slots, id) && piece_of(slots, id) == live_pieces(slots)[i]);
            } else {
                assert(live(slots, last) && piece_of(slots, last) == live_pieces(slots)[i]);
            }
        }
        assert forall|id: PieceId| #[trigger] live(slots, id) implies live_pieces(slots).contains(
            piece_of(slots, id),
        ) by {
            if id.0 < shorter.len() {
                assert(live(shorter, id));
                let i = choose|i: int|
                    0 <= i < live_pieces(shorter).len() && live_pieces(shorter)[i] == piece_of(
                        shorter,
                        id,
                    );
                assert(live_pieces(slots)[i] == piece_of(slots, id));
            } else {
                assert(id == last);
                assert(live_pieces(slots)[live_pieces(slots).len() - 1] == piece_of(slots, id));
            }
        }
    }
}

/// A square is occupied in the list of the board's pieces exactly when a
/// live handle stands on it, and occupied by a colour exactly when a live
/// handle of that colour does.
pub proof fn occupancy_is_by_handles(slots: Seq<Option<Piece>>, pos: (u8, u8))
    requires
        slots.len() <= usize::MAX,
    ensures
        occupied(live_pieces(slots), pos) <==> exists|id: PieceId| stands_on(slots, id, pos),
        forall|color: PieceColor| #[trigger]
            occupied_by(live_pieces(slots), pos, color) <==> exists|id: PieceId|
                stands_on(slots, id, pos) && piece_of(slots, id).color == color,
{
    let pieces = live_pieces(slots);
    live_pieces_belong_to_handles(slots);
    if occupied(pieces, pos) {
        let i = choose|i: int| 0 <= i < pieces.len() && (#[trigger] pieces[i]).pos() == pos;
        let id = choose|id: PieceId| live(slots, id) && piece_of(slots, id) == pieces[i];
        assert(stands_on(slots, id, pos));
    }
    if exists|id: PieceId| stands_on(slots, id, pos) {
        let id = choose|id: PieceId| stands_on(slots, id, pos);
        assert(live(slots, id));
        let i = choose|i: int| 0 <= i < pieces.len() && pieces[i] == piece_of(slots, id);
        assert(pieces[i].pos() == pos);
    }
    assert forall|color: PieceColor| #[trigger]
        occupied_by(pieces, pos, color) <==> exists|id: PieceId|
            stands_on(slots, id, pos) && piece_of(slots, id).color == color by {
        if occupied_by(pieces, pos, color) {
            let i = choose|i: int|
                0 <= i < pieces.len() && (#[trigger] pieces[i]).pos() == pos && pieces[i].color
                    == color;
            let id = choose|id: PieceId| live(slots, id) && piece_of(slots, id) == pieces[i];
            assert(stands_on(slots, id, pos) && piece_of(slots, id).color == color);
        }
        if exists|id: PieceId| stands_on(slots, id, pos) && piece_of(slots, id).color == color {
            let id = choose|id: PieceId|
                stands_on(slots, id, pos) && piece_of(slots, id).color == color;
            assert(live(slots, id));
            let i = choose|i: int| 0 <= i < pieces.len() && pieces[i] == piece_of(slots, id);
            assert(pieces[i].pos() == pos && pieces[i].color == color);
        }
    }
}

/// Looking a square up finds a piece exactly when the square is occupied
/// in the list of the board's pieces.
pub proof fn lookup_finds_what_occupies(
    slots: Seq<Option<Piece>>,
    pos: (u8, u8),
    found: Option<PieceId>,
)
    requires
        slots.len() <= usize::MAX,
        first_on(slots, pos, found),
    ensures
        found is Some <==> occupied(live_pieces(slots), pos),
{
    occupancy_is_by_handles(slots, pos);
    if let Some(id) = found {
        assert(stands_on(slots, id, pos));
    }
}

/// Taking a piece off the board leaves one piece fewer.
pub proof fn removal_leaves_one_fewer(slots: Seq<Option<Piece>>, id: PieceId)
    requires
        live(slots, id),
    ensures
        live_pieces(slots.update(id.0 as int, None)).len() == live_pieces(slots).len() - 1,
    decreases slots.len(),
{
    let changed = slots.update(id.0 as int, None);
    if id.0 == slots.len() - 1 {
        assert(changed.drop_last() == slots.drop_last());
    } else {
        removal_leaves_one_fewer(slots.drop_last(), id);
        assert(changed.drop_last() == slots.drop_last().update(id.0 as int, None));
    }
}

/// Putting another piece in the place of a live one leaves as many pieces
/// as before.
pub proof fn replacement_keeps_count(slots: Seq<Option<Piece>>, id: PieceId, piece: Piece)
    requires
        live(slots, id),
    ensures
        live_pieces(slots.update(id.0 as int, Some(piece))).len() == live_pieces(slots).len(),
    decreases slots.len(),
{
    let changed = slots.update(id.0 as int, Some(piece));
    if id.0 == slots.len() - 1 {
        assert(changed.drop_last() == slots.drop_last());
    } else {
        replacement_keeps_count(slots.drop_last(), id, piece);
        assert(changed.drop_last() == slots.drop_last().update(id.0 as int, Some(piece)));
    }
}

} // verus!
