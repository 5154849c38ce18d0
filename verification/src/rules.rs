//! The boundary to the shogi rules library: colours, moves in SFEN notation
//! and the board position that the arbiter owns.
//!
//! The position itself lives inside the rules library. This module gives it
//! a mathematical face (side to move, ply, last move, SFEN text) and wraps
//! each call that the match core makes. The library reads how the pieces
//! move from tables that are to be filled first: every position is made by
//! a function that fills them.

use vstd::prelude::*;
use vstd::string::StringSliceAdditionalSpecFns;
use crate::number::is_digit;
use crate::text::{copy, same, tokens, views};

verus! {

/// One of the two sides. Black moves first.
#[derive(Debug, Clone, Copy, PartialEq, Eq, Structural)]
pub enum Color {
    Black,
    White,
}

impl Color {
    /// The other side.
    pub open spec fn opponent(self) -> Color {
        match self {
            Color::Black => Color::White,
            Color::White => Color::Black,
        }
    }

    /// Returns the other side.
    pub fn flip(self) -> (r: Color)
        ensures
            r == self.opponent(),
    {
        match self {
            Color::Black => Color::White,
            Color::White => Color::Black,
        }
    }
}

/// Why a text is not a usable SFEN position.
#[derive(Debug, Clone, Copy, PartialEq, Eq, Structural)]
pub enum SfenError {
    MissingDataFields,
    IllegalPieceType,
    IllegalSideToMove,
    IllegalMoveCount,
    IllegalMove,
    IllegalBoardState,
    /// The text describes more material or more plies than a game can hold.
    OutOfRange,
}

// ---------------------------------------------------------------------------
// Move notation
// ---------------------------------------------------------------------------
/// A file digit `1`..`9` followed by a rank letter `a`..`i`.
pub open spec fn is_square(file: u8, rank: u8) -> bool {
    49 <= file <= 57 && 97 <= rank <= 105
}

/// The letters of the pieces that the notation lets a player drop.
pub open spec fn is_piece_letter(b: u8) -> bool {
    b == 75 || b == 82 || b == 66 || b == 71 || b == 83 || b == 78 || b == 76 || b == 80
}

/// A text of ASCII characters only.
pub open spec fn is_ascii_text(s: Seq<u8>) -> bool {
    forall|i: int| 0 <= i < s.len() ==> #[trigger] s[i] < 128
}

/// The move that a text denotes, in its canonical notation: `7g7f`, `7g7f+`
/// for a board move, `P*5e` for a drop. A `+` behind a drop is accepted and
/// not kept.
pub open spec fn move_text(s: Seq<u8>) -> Option<Seq<u8>> {
    if s.len() == 4 || (s.len() == 5 && s[4] == 43) {
        if is_digit(s[0]) {
            if is_square(s[0], s[1]) && is_square(s[2], s[3]) {
                Some(s)
            } else {
                None
            }
        } else if is_piece_letter(s[0]) && s[1] == 42 && is_square(s[2], s[3]) {
            Some(s.take(4))
        } else {
            None
        }
    } else {
        None
    }
}

/// A canonical move notation: one that denotes itself.
pub open spec fn is_move(s: Seq<u8>) -> bool {
    move_text(s) == Some(s)
}

/// The notation that a text denotes is canonical, ASCII and one word.
pub proof fn lemma_move_text_canonical(s: Seq<u8>)
    ensures
        move_text(s) matches Some(m) ==> is_move(m) && is_ascii_text(m) && crate::text::is_word(m),
{
    if let Some(m) = move_text(s) {
        if is_digit(s[0]) {
            assert(m == s);
        } else {
            assert(m =~= s.take(4));
            assert(m.take(4) =~= m);
        }
    }
}

/// A move, held in its canonical SFEN notation.
#[derive(Debug)]
pub struct Move {
    sfen: Vec<u8>,
}

impl View for Move {
    type V = Seq<u8>;

    closed spec fn view(&self) -> Seq<u8> {
        self.sfen@
    }
}

impl Move {
    /// Every move holds a canonical notation.
    #[verifier::type_invariant]
    closed spec fn well_formed(&self) -> bool {
        is_move(self.sfen@)
    }

    /// Reads a move from its SFEN notation. `None` where the text denotes no
    /// move.
    pub fn from_sfen(text: &[u8]) -> (r: Option<Move>)
        ensures
            match r {
                Some(m) => move_text(text@) == Some(m@),
                None => move_text(text@).is_none(),
            },
    {
        if !all_ascii(text) {
            proof {
                if move_text(text@).is_some() {
                    let i = choose|i: int| 0 <= i < text@.len() && text@[i] >= 128;
                    assert(text@[i] >= 128);
                }
            }
            return None;
        }
        match rules_parse_move(text) {
            Some(sfen) => {
                proof {
                    lemma_move_text_canonical(text@);
                }
                Some(Move { sfen })
            },
            None => None,
        }
    }

    /// The SFEN notation of the move.
    pub fn to_sfen(&self) -> (r: Vec<u8>)
        ensures
            r@ == self@,
    {
        copy(self.sfen.as_slice())
    }

    /// The SFEN notation of the move, borrowed. It is always canonical.
    pub fn as_bytes(&self) -> (r: &[u8])
        ensures
            r@ == self@,
            is_move(self@),
    {
        proof {
            use_type_invariant(self);
        }
        self.sfen.as_slice()
    }

    /// A copy of the move.
    pub fn copy(&self) -> (r: Move)
        ensures
            r@ == self@,
    {
        proof {
            use_type_invariant(self);
        }
        Move { sfen: copy(self.sfen.as_slice()) }
    }

    /// Whether two moves are the same move.
    pub fn same_as(&self, other: &Move) -> (r: bool)
        ensures
            r == (self@ == other@),
    {
        same(self.sfen.as_slice(), other.sfen.as_slice())
    }
}

/// Whether every byte is an ASCII character.
pub fn all_ascii(s: &[u8]) -> (r: bool)
    ensures
        r == is_ascii_text(s@),
{
    let mut i: usize = 0;
    while i < s.len()
        invariant
            i <= s.len(),
            forall|j: int| 0 <= j < i ==> #[trigger] s@[j] < 128,
        decreases s.len() - i,
    {
        if s[i] >= 128 {
            return false;
        }
        i += 1;
    }
    true
}

/// `shogi::Move::from_sfen`, then the move's `Display`: the canonical
/// notation of the move that `text` denotes, as `move_text` states it, or
/// `None` where it denotes none. The library slices the text by bytes, so
/// the text must be ASCII.
#[verifier::external_body]
fn rules_parse_move(text: &[u8]) -> (r: Option<Vec<u8>>)
    requires
        is_ascii_text(text@),
    ensures
        match r {
            Some(sfen) => move_text(text@) == Some(sfen@),
            None => move_text(text@).is_none(),
        },
{
    let parsed = std::str::from_utf8(text).ok().and_then(shogi::Move::from_sfen);
    parsed.map(|m| m.to_string().into_bytes())
}

// ---------------------------------------------------------------------------
// Positions
// ---------------------------------------------------------------------------
/// The largest number of pieces that a position may hold: a full shogi set.
pub const MAX_PIECES: u64 = 40;

/// An ASCII letter.
pub open spec fn is_letter(b: u8) -> bool {
    (65 <= b <= 90) || (97 <= b <= 122)
}

/// The number of letters in a text. In the board field of an SFEN text every
/// piece is written with one letter.
pub open spec fn letters(s: Seq<u8>) -> nat
    decreases s.len(),
{
    if s.len() == 0 {
        0
    } else {
        letters(s.drop_last()) + if is_letter(s.last()) {
            1nat
        } else {
            0nat
        }
    }
}

/// The number of pieces that the hand field of an SFEN text announces, read
/// from the left with `pending` the count written so far: a letter stands
/// for the count in front of it, or for one piece; counts that no letter
/// follows are added as they are.
pub open spec fn hand_weight(s: Seq<u8>, pending: nat) -> nat
    decreases s.len(),
{
    if s.len() == 0 {
        pending
    } else if is_digit(s[0]) {
        hand_weight(s.skip(1), pending * 10 + (s[0] - 48) as nat)
    } else if is_letter(s[0]) && pending == 0 {
        1 + hand_weight(s.skip(1), 0)
    } else {
        pending + hand_weight(s.skip(1), 0)
    }
}

/// The pieces that the fields of an SFEN text announce, on the board and in
/// hand.
pub open spec fn sfen_material(fields: Seq<Seq<u8>>) -> nat {
    (if fields.len() >= 1 {
        letters(fields[0])
    } else {
        0
    }) + (if fields.len() >= 3 {
        hand_weight(fields[2], 0)
    } else {
        0
    })
}

/// Whether the ply counter can take the moves that follow the position in
/// an SFEN text.
pub open spec fn sfen_plies_fit(fields: Seq<Seq<u8>>) -> bool {
    fields.len() > 5 ==> match crate::number::unsigned_of(fields[3]) {
        Some(p) => p + (fields.len() - 5) <= u16::MAX,
        None => false,
    }
}

/// The SFEN texts that the rules library is asked to read: ASCII, with no
/// more than a full set of pieces, and with room in the ply counter for the
/// moves they list.
pub open spec fn sfen_in_range(s: Seq<u8>) -> bool {
    is_ascii_text(s) && sfen_material(tokens(s)) <= MAX_PIECES && sfen_plies_fit(tokens(s))
}

/// Counts the letters of `s`, up to `cap`.
fn count_letters(s: &[u8], cap: u64) -> (n: u64)
    ensures
        n <= cap,
        letters(s@) <= cap ==> n == letters(s@),
        letters(s@) > cap ==> n == cap,
{
    let mut n: u64 = 0;
    let mut i: usize = 0;
    proof {
        assert(s@.take(0) =~= Seq::<u8>::empty());
    }
    while i < s.len()
        invariant
            i <= s.len(),
            n <= cap,
            letters(s@.take(i as int)) <= cap ==> n == letters(s@.take(i as int)),
            letters(s@.take(i as int)) > cap ==> n == cap,
        decreases s.len() - i,
    {
        let b = s[i];
        proof {
            assert(s@.take(i + 1).drop_last() =~= s@.take(i as int));
            assert(s@.take(i + 1).last() == b);
        }
        if ((65 <= b && b <= 90) || (97 <= b && b <= 122)) && n < cap {
            n += 1;
        }
        i += 1;
    }
    proof {
        assert(s@.take(s.len() as int) =~= s@);
    }
    n
}

/// A count that is written counts at least for itself.
proof fn lemma_hand_weight_grows(s: Seq<u8>, pending: nat)
    ensures
        hand_weight(s, pending) >= pending,
    decreases s.len(),
{
    if s.len() == 0 {
    } else if is_digit(s[0]) {
        lemma_hand_weight_grows(s.skip(1), pending * 10 + (s[0] - 48) as nat);
    } else {
        lemma_hand_weight_grows(s.skip(1), 0);
    }
}

/// Weighs the hand field `s`, up to `cap`.
fn weigh_hand(s: &[u8], cap: u64) -> (n: u64)
    requires
        cap < 1000,
    ensures
        n <= cap + 1,
        hand_weight(s@, 0) <= cap ==> n == hand_weight(s@, 0),
        hand_weight(s@, 0) > cap ==> n == cap + 1,
{
    let mut done: u64 = 0;
    let mut pending: u64 = 0;
    let mut i: usize = 0;
    proof {
        assert(s@.skip(0) =~= s@);
    }
    while i < s.len()
        invariant
            i <= s.len(),
            cap < 1000,
            done <= cap,
            pending <= cap,
            hand_weight(s@, 0) == done + hand_weight(s@.skip(i as int), pending as nat),
        decreases s.len() - i,
    {
        let b = s[i];
        let ghost rest = s@.skip(i as int);
        proof {
            assert(rest[0] == b);
            assert(rest.skip(1) =~= s@.skip(i + 1));
        }
        if 48 <= b && b <= 57 {
            pending = pending * 10 + (b - 48) as u64;
            proof {
                lemma_hand_weight_grows(s@.skip(i + 1), pending as nat);
            }
            if pending > cap {
                return cap + 1;
            }
        } else {
            let add: u64 = if ((65 <= b && b <= 90) || (97 <= b && b <= 122)) && pending == 0 {
                1
            } else {
                pending
            };
            done = done + add;
            pending = 0;
            if done > cap {
                return cap + 1;
            }
        }
        i += 1;
    }
    proof {
        assert(s@.skip(s.len() as int) =~= Seq::<u8>::empty());
    }
    if done + pending > cap {
        cap + 1
    } else {
        done + pending
    }
}

/// Whether an SFEN text is one that the rules library is asked to read.
pub fn in_range(text: &[u8]) -> (r: bool)
    ensures
        r == sfen_in_range(text@),
{
    if !all_ascii(text) {
        return false;
    }
    let fields = crate::text::split(text);
    let ghost t = tokens(text@);
    let on_board: u64 = if fields.len() >= 1 {
        proof {
            assert(views(fields@)[0] == fields@[0]@);
        }
        count_letters(fields[0].as_slice(), MAX_PIECES + 1)
    } else {
        0
    };
    let in_hand: u64 = if fields.len() >= 3 {
        proof {
            assert(views(fields@)[2] == fields@[2]@);
        }
        weigh_hand(fields[2].as_slice(), MAX_PIECES)
    } else {
        0
    };
    if on_board + in_hand > MAX_PIECES {
        return false;
    }
    if fields.len() > 5 {
        proof {
            assert(views(fields@)[3] == fields@[3]@);
        }
        match crate::number::read_unsigned(fields[3].as_slice()) {
            Some(p) => p <= 65535 && fields.len() - 5 <= 65535 - p as usize,
            None => false,
        }
    } else {
        true
    }
}

/// The position type of the rules library. The match core sees a position
/// only through the functions below.
#[verifier::external_type_specification]
#[verifier::external_body]
pub struct ExRulesPosition(shogi::Position);

/// What `shogi::Position::side_to_move` returns for a position.
pub uninterp spec fn board_side(b: shogi::Position) -> Color;

/// What `shogi::Position::ply` returns for a position.
pub uninterp spec fn board_ply(b: shogi::Position) -> u16;

/// The SFEN notation of the last entry of `shogi::Position::move_history`.
pub uninterp spec fn board_last_move(b: shogi::Position) -> Option<Seq<u8>>;

/// What `shogi::Position::to_sfen` returns for a position.
pub uninterp spec fn board_sfen(b: shogi::Position) -> Seq<u8>;

/// The error with which the rules library refuses a text that it reads into
/// a fresh position with its tables filled (`shogi::Position::set_sfen`),
/// `None` where it accepts the text.
pub uninterp spec fn sfen_verdict(text: Seq<u8>) -> Option<SfenError>;

/// The side to move in the position that the rules library makes of an
/// accepted text.
pub uninterp spec fn sfen_side(text: Seq<u8>) -> Color;

/// The ply counter of the position that the rules library makes of an
/// accepted text.
pub uninterp spec fn sfen_ply(text: Seq<u8>) -> u16;

/// The last move of the position that the rules library makes of an
/// accepted text: the last of the moves that the text lists and the rules
/// accept.
pub uninterp spec fn sfen_last_move(text: Seq<u8>) -> Option<Seq<u8>>;

/// The SFEN text that the rules library writes for the position that it
/// makes of an accepted text.
pub uninterp spec fn sfen_rewritten(text: Seq<u8>) -> Seq<u8>;

/// Whether `shogi::Position::make_move` accepts the move `m` on a position.
pub uninterp spec fn board_accepts(b: shogi::Position, m: Seq<u8>) -> bool;

/// Whether `shogi::Position::try_declare_winning` upholds a declaration of
/// `c` on a position.
pub uninterp spec fn board_upholds(b: shogi::Position, c: Color) -> bool;

/// `shogi::bitboard::Factory::init`, then `shogi::Position::new`: an empty
/// board with Black to move, at ply 1, with no move made. The tables from
/// which the library reads how the pieces move are filled first, as they
/// are before every position that the match core comes to hold.
#[verifier::external_body]
fn rules_new_position() -> (b: shogi::Position)
    ensures
        board_side(b) == Color::Black,
        board_ply(b) == 1,
        board_last_move(b).is_none(),
{
    shogi::bitboard::Factory::init();
    shogi::Position::new()
}

/// `shogi::bitboard::Factory::init`, `shogi::Position::new` and
/// `shogi::Position::set_sfen`: the position that the library makes of a
/// text, read into a fresh position with the tables filled, or the error
/// with which it refuses the text. With the tables filled and the position
/// fresh, verdict and position rest on the text alone. Texts out of range
/// are kept away because the library counts pieces and plies in small
/// integers and slices move notations by bytes.
#[verifier::external_body]
fn rules_read_sfen(text: &str) -> (r: Result<shogi::Position, SfenError>)
    requires
        sfen_in_range(text.spec_bytes()),
    ensures
        match r {
            Ok(b) => {
                &&& sfen_verdict(text.spec_bytes()).is_none()
                &&& board_side(b) == sfen_side(text.spec_bytes())
                &&& board_ply(b) == sfen_ply(text.spec_bytes())
                &&& board_last_move(b) == sfen_last_move(text.spec_bytes())
                &&& board_sfen(b) == sfen_rewritten(text.spec_bytes())
            },
            Err(e) => sfen_verdict(text.spec_bytes()) == Some(e) && e != SfenError::OutOfRange,
        },
{
    shogi::bitboard::Factory::init();
    let mut board = shogi::Position::new();
    match board.set_sfen(text) {
        Ok(()) => Ok(board),
        Err(shogi::SfenError::MissingDataFields) => Err(SfenError::MissingDataFields),
        Err(shogi::SfenError::IllegalPieceType) => Err(SfenError::IllegalPieceType),
        Err(shogi::SfenError::IllegalSideToMove) => Err(SfenError::IllegalSideToMove),
        Err(shogi::SfenError::IllegalMoveCount(_)) => Err(SfenError::IllegalMoveCount),
        Err(shogi::SfenError::IllegalMove) => Err(SfenError::IllegalMove),
        Err(shogi::SfenError::IllegalBoardState) => Err(SfenError::IllegalBoardState),
    }
}

/// `shogi::Position::side_to_move`.
#[verifier::external_body]
fn rules_side_to_move(board: &shogi::Position) -> (c: Color)
    ensures
        c == board_side(*board),
{
    match board.side_to_move() {
        shogi::Color::Black => Color::Black,
        shogi::Color::White => Color::White,
    }
}

/// `shogi::Position::ply`.
#[verifier::external_body]
fn rules_ply(board: &shogi::Position) -> (n: u16)
    ensures
        n == board_ply(*board),
{
    board.ply()
}

/// The last entry of `shogi::Position::move_history`, in SFEN notation
/// (`shogi::MoveRecord::to_sfen`).
#[verifier::external_body]
fn rules_last_move(board: &shogi::Position) -> (m: Option<Vec<u8>>)
    ensures
        match m {
            Some(text) => board_last_move(*board) == Some(text@),
            None => board_last_move(*board).is_none(),
        },
{
    board.move_history().last().map(|record| record.to_sfen().into_bytes())
}

/// `shogi::Position::to_sfen`.
#[verifier::external_body]
fn rules_to_sfen(board: &shogi::Position) -> (text: Vec<u8>)
    ensures
        text@ == board_sfen(*board),
{
    board.to_sfen().into_bytes()
}

/// `shogi::Position::make_move` on the move that `m` denotes. Every
/// position that the match core holds was made with the tables filled, so
/// whether the library accepts the move rests on the position and the move
/// alone. Where it accepts the move, the turn passes to the other side, the
/// ply counter goes up by one and the move becomes the last of the history.
/// Nothing is said of a position after a refused move. The ply counter is
/// sixteen bits wide, so a position at the last ply takes no move.
#[verifier::external_body]
fn rules_make_move(board: &mut shogi::Position, m: &[u8]) -> (accepted: bool)
    requires
        is_move(m@),
        board_ply(*old(board)) < u16::MAX,
    ensures
        accepted == board_accepts(*old(board), m@),
        accepted ==> {
            &&& board_side(*final(board)) == board_side(*old(board)).opponent()
            &&& board_ply(*final(board)) == board_ply(*old(board)) + 1
            &&& board_last_move(*final(board)) == Some(m@)
        },
{
    match std::str::from_utf8(m).ok().and_then(shogi::Move::from_sfen) {
        Some(mv) => board.make_move(mv).is_ok(),
        None => false,
    }
}

/// `shogi::Position::try_declare_winning`. With the tables filled the
/// verdict rests on the position and the side alone. The library upholds
/// no declaration of the side that is not to move: it returns `false` at
/// once where `c` is not the side to move.
#[verifier::external_body]
fn rules_try_declare_winning(board: &shogi::Position, c: Color) -> (won: bool)
    ensures
        won == board_upholds(*board, c),
        won ==> board_side(*board) == c,
{
    board.try_declare_winning(match c {
        Color::Black => shogi::Color::Black,
        Color::White => shogi::Color::White,
    })
}

/// The authoritative board state of a game.
#[derive(Debug)]
pub struct Board {
    board: shogi::Position,
}

impl Board {
    /// The side that moves next.
    pub closed spec fn spec_side_to_move(&self) -> Color {
        board_side(self.board)
    }

    /// The number of the ply about to be played.
    pub closed spec fn spec_ply(&self) -> u16 {
        board_ply(self.board)
    }

    /// The last move made, in SFEN notation.
    pub closed spec fn last_move_text(&self) -> Option<Seq<u8>> {
        board_last_move(self.board)
    }

    /// The position with the moves that led to it, as an SFEN text.
    pub closed spec fn sfen_text(&self) -> Seq<u8> {
        board_sfen(self.board)
    }

    /// An empty board with Black to move, at its first ply.
    pub fn new() -> (p: Board)
        ensures
            p.side_to_move() == Color::Black,
            p.ply() == 1,
            p.last_move_text().is_none(),
    {
        Board { board: rules_new_position() }
    }

    /// The side that moves next.
    #[verifier::when_used_as_spec(spec_side_to_move)]
    pub fn side_to_move(&self) -> (c: Color)
        ensures
            c == self.side_to_move(),
    {
        rules_side_to_move(&self.board)
    }

    /// The number of the ply about to be played.
    #[verifier::when_used_as_spec(spec_ply)]
    pub fn ply(&self) -> (n: u16)
        ensures
            n == self.ply(),
    {
        rules_ply(&self.board)
    }

    /// The last move made, in SFEN notation; `None` before the first move.
    pub fn last_move(&self) -> (m: Option<Vec<u8>>)
        ensures
            m.is_some() == self.last_move_text().is_some(),
            m matches Some(text) ==> self.last_move_text() == Some(text@),
    {
        rules_last_move(&self.board)
    }

    /// The position with the moves that led to it, as an SFEN text.
    pub fn to_sfen(&self) -> (text: Vec<u8>)
        ensures
            text@ == self.sfen_text(),
    {
        rules_to_sfen(&self.board)
    }

    /// Whether the rules accept the move `m` in this position.
    pub closed spec fn accepts(&self, m: Seq<u8>) -> bool {
        board_accepts(self.board, m)
    }

    /// Whether the rules uphold a declaration of `c` in this position.
    pub closed spec fn upholds(&self, c: Color) -> bool {
        board_upholds(self.board, c)
    }

    /// Whether this is the position that the rules library makes of `text`.
    pub open spec fn is_position_of(&self, text: Seq<u8>) -> bool {
        &&& self.side_to_move() == sfen_side(text)
        &&& self.ply() == sfen_ply(text)
        &&& self.last_move_text() == sfen_last_move(text)
        &&& self.sfen_text() == sfen_rewritten(text)
    }

    /// What reading `text` gives: the refusal of a text out of range, the
    /// verdict of the rules library on any other text, and for an accepted
    /// text the position that the library makes of it.
    pub open spec fn is_read_from(r: Result<Board, SfenError>, text: Seq<u8>) -> bool {
        if !sfen_in_range(text) {
            r == Err::<Board, SfenError>(SfenError::OutOfRange)
        } else {
            match sfen_verdict(text) {
                Some(e) => r == Err::<Board, SfenError>(e),
                None => r matches Ok(board) && board.is_position_of(text),
            }
        }
    }

    /// Reads the position that `text` describes. A text out of range is
    /// refused as such; any other text gets the verdict of the rules
    /// library.
    pub fn from_sfen(text: &str) -> (r: Result<Board, SfenError>)
        ensures
            Board::is_read_from(r, text.spec_bytes()),
    {
        if !in_range(text.as_bytes()) {
            return Err(SfenError::OutOfRange);
        }
        match rules_read_sfen(text) {
            Ok(board) => Ok(Board { board }),
            Err(e) => Err(e),
        }
    }

    /// Replaces the position by the one that `text` describes. A text out of
    /// range is refused as such; any other text gets the verdict of the
    /// rules library. A refused text leaves the position as it was.
    pub fn set_sfen(&mut self, text: &str) -> (r: Result<(), SfenError>)
        ensures
            r == (if !sfen_in_range(text.spec_bytes()) {
                Err::<(), SfenError>(SfenError::OutOfRange)
            } else {
                match sfen_verdict(text.spec_bytes()) {
                    Some(e) => Err(e),
                    None => Ok(()),
                }
            }),
            r.is_err() ==> *final(self) == *old(self),
            r.is_ok() ==> final(self).is_position_of(text.spec_bytes()),
    {
        match Board::from_sfen(text) {
            Ok(board) => {
                *self = board;
                Ok(())
            },
            Err(e) => Err(e),
        }
    }

    /// Plays `m`, if the rules accept it. Where they do, the turn passes,
    /// the ply counter goes up by one and `m` is the last move.
    pub fn make_move(&mut self, m: &Move) -> (accepted: bool)
        requires
            old(self).ply() < u16::MAX,
        ensures
            accepted == old(self).accepts(m@),
            accepted ==> {
                &&& final(self).side_to_move() == old(self).side_to_move().opponent()
                &&& final(self).ply() == old(self).ply() + 1
                &&& final(self).last_move_text() == Some(m@)
            },
    {
        rules_make_move(&mut self.board, m.as_bytes())
    }

    /// Whether the rules uphold a declaration of `c` in this position. They
    /// uphold none of the side that is not to move.
    pub fn try_declare_winning(&self, c: Color) -> (won: bool)
        ensures
            won == self.upholds(c),
            won ==> self.side_to_move() == c,
    {
        rules_try_declare_winning(&self.board, c)
    }
}

} // verus!
