//! The five game moves and the dominance relation between them.

use vstd::prelude::*;

verus! {

/// One of the five playable moves.
#[derive(Clone, Copy, Debug, PartialEq, Eq, PartialOrd, Ord, Structural)]
pub enum Move {
    Rock,
    Paper,
    Scissors,
    Lizard,
    Spock,
}

/// The dominance relation: `a` defeats `b`.
///
/// Rock crushes Scissors and Lizard; Paper covers Rock and disproves Spock;
/// Scissors cut Paper and decapitate Lizard; Lizard eats Paper and poisons
/// Spock; Spock vaporizes Rock and smashes Scissors.
pub open spec fn beats(a: Move, b: Move) -> bool {
    match a {
        Move::Rock => b == Move::Scissors || b == Move::Lizard,
        Move::Paper => b == Move::Rock || b == Move::Spock,
        Move::Scissors => b == Move::Paper || b == Move::Lizard,
        Move::Lizard => b == Move::Paper || b == Move::Spock,
        Move::Spock => b == Move::Rock || b == Move::Scissors,
    }
}

/// A character is a valid wire encoding of a move.
pub open spec fn char_is_move(c: char) -> bool {
    c == '0' || c == '1' || c == '2' || c == '3' || c == '4'
}

/// The move encoded by a character, for characters accepted by
/// [`char_is_move`].
pub open spec fn spec_move_of_char(c: char) -> Move {
    if c == '0' {
        Move::Rock
    } else if c == '1' {
        Move::Paper
    } else if c == '2' {
        Move::Scissors
    } else if c == '3' {
        Move::Lizard
    } else {
        Move::Spock
    }
}

/// The move encoded by a single byte of a reveal string, if any.  The wire
/// format is UTF-8, so the first byte of a valid move character equals the
/// character itself.
pub open spec fn spec_move_of_byte(b: u8) -> Option<Move> {
    if b == 0x30 {
        Some(Move::Rock)
    } else if b == 0x31 {
        Some(Move::Paper)
    } else if b == 0x32 {
        Some(Move::Scissors)
    } else if b == 0x33 {
        Some(Move::Lizard)
    } else if b == 0x34 {
        Some(Move::Spock)
    } else {
        None
    }
}

impl Move {
    /// The character under which this move travels on the wire.
    pub open spec fn spec_number(self) -> char {
        match self {
            Move::Rock => '0',
            Move::Paper => '1',
            Move::Scissors => '2',
            Move::Lizard => '3',
            Move::Spock => '4',
        }
    }

    /// The character under which this move travels on the wire.
    pub fn number(&self) -> (c: char)
        ensures
            c == self.spec_number(),
            char_is_move(c),
    {
        match self {
            Move::Rock => '0',
            Move::Paper => '1',
            Move::Scissors => '2',
            Move::Lizard => '3',
            Move::Spock => '4',
        }
    }

    /// Decodes a move from its wire character.
    pub fn new(number: char) -> (m: Move)
        requires
            char_is_move(number),
        ensures
            m == spec_move_of_char(number),
    {
        if number == '0' {
            Move::Rock
        } else if number == '1' {
            Move::Paper
        } else if number == '2' {
            Move::Scissors
        } else if number == '3' {
            Move::Lizard
        } else {
            Move::Spock
        }
    }

    /// Decodes a move from the first byte of a reveal string.
    pub fn from_byte(b: u8) -> (m: Option<Move>)
        ensures
            m == spec_move_of_byte(b),
    {
        if b == 0x30 {
            Some(Move::Rock)
        } else if b == 0x31 {
            Some(Move::Paper)
        } else if b == 0x32 {
            Some(Move::Scissors)
        } else if b == 0x33 {
            Some(Move::Lizard)
        } else if b == 0x34 {
            Some(Move::Spock)
        } else {
            None
        }
    }

    /// Whether this move defeats `other`.
    pub fn wins(&self, other: &Move) -> (r: bool)
        ensures
            r == beats(*self, *other),
    {
        match self {
            Move::Rock => match other {
                Move::Rock | Move::Paper | Move::Spock => false,
                Move::Scissors | Move::Lizard => true,
            },
            Move::Paper => match other {
                Move::Paper | Move::Scissors | Move::Lizard => false,
                Move::Rock | Move::Spock => true,
            },
            Move::Scissors => match other {
                Move::Rock | Move::Scissors | Move::Spock => false,
                Move::Paper | Move::Lizard => true,
            },
            Move::Lizard => match other {
                Move::Rock | Move::Scissors | Move::Lizard => false,
                Move::Paper | Move::Spock => true,
            },
            Move::Spock => match other {
                Move::Paper | Move::Lizard | Move::Spock => false,
                Move::Rock | Move::Scissors => true,
            },
        }
    }
}

/// Between two distinct moves exactly one side wins: the relation is total
/// and antisymmetric, and no move defeats itself.
pub proof fn lemma_dominance_tournament(a: Move, b: Move)
    ensures
        a != b ==> (beats(a, b) <==> !beats(b, a)),
        !beats(a, a),
{
}

} // verus!
