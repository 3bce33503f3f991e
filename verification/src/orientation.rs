//! Compass orientation of a rover: the four facing directions, their
//! rotations, and the single-character text codec.

use vstd::prelude::*;

verus! {

/// Error returned when a token is not one of the four orientation codes.
#[derive(Debug)]
pub struct ParseOrientationError {}

/// One of the four compass-aligned facing directions.
#[derive(Clone, Copy, Debug, PartialEq, Eq, Structural)]
pub enum Orientation {
    North,
    East,
    South,
    West,
}

impl Orientation {
    /// The orientation one quarter turn counter-clockwise from `self`.
    pub open spec fn spec_turn_left(self) -> Orientation {
        match self {
            Orientation::North => Orientation::West,
            Orientation::West => Orientation::South,
            Orientation::South => Orientation::East,
            Orientation::East => Orientation::North,
        }
    }

    /// The orientation one quarter turn clockwise from `self`.
    pub open spec fn spec_turn_right(self) -> Orientation {
        match self {
            Orientation::North => Orientation::East,
            Orientation::East => Orientation::South,
            Orientation::South => Orientation::West,
            Orientation::West => Orientation::North,
        }
    }

    /// The single-character code that serializes `self`.
    pub open spec fn spec_code(self) -> char {
        match self {
            Orientation::North => 'N',
            Orientation::East => 'E',
            Orientation::South => 'S',
            Orientation::West => 'W',
        }
    }

    pub fn turn_left(&self) -> (r: Orientation)
        ensures
            r == self.spec_turn_left(),
    {
        match self {
            Orientation::North => Orientation::West,
            Orientation::West => Orientation::South,
            Orientation::South => Orientation::East,
            Orientation::East => Orientation::North,
        }
    }

    pub fn turn_right(&self) -> (r: Orientation)
        ensures
            r == self.spec_turn_right(),
    {
        match self {
            Orientation::North => Orientation::East,
            Orientation::East => Orientation::South,
            Orientation::South => Orientation::West,
            Orientation::West => Orientation::North,
        }
    }

    /// Parses a whole token: it must be exactly one of the four codes.
    pub fn parse(s: &str) -> (r: Result<Orientation, ParseOrientationError>)
        ensures
            match r {
                Ok(o) => spec_parse_orientation(s@) == Some(o),
                Err(_) => spec_parse_orientation(s@) is None,
            },
    {
        if s.unicode_len() != 1 {
            return Err(ParseOrientationError {});
        }
        match s.get_char(0) {
            'N' => Ok(Orientation::North),
            'S' => Ok(Orientation::South),
            'E' => Ok(Orientation::East),
            'W' => Ok(Orientation::West),
            _ => Err(ParseOrientationError {}),
        }
    }

    /// The serialized form of `self`, as a one-character string slice.
    pub fn code_str(&self) -> (r: &'static str)
        ensures
            r@ == seq![self.spec_code()],
    {
        let r: &'static str = match self {
            Orientation::North => "N",
            Orientation::East => "E",
            Orientation::South => "S",
            Orientation::West => "W",
        };
        proof {
            reveal_strlit("N");
            reveal_strlit("E");
            reveal_strlit("S");
            reveal_strlit("W");
            assert(r@ =~= seq![self.spec_code()]);
        }
        r
    }
}

/// The orientation denoted by a token, if any: exactly the four
/// one-character codes are accepted.
pub open spec fn spec_parse_orientation(s: Seq<char>) -> Option<Orientation> {
    if s.len() == 1 {
        if s[0] == 'N' {
            Some(Orientation::North)
        } else if s[0] == 'E' {
            Some(Orientation::East)
        } else if s[0] == 'S' {
            Some(Orientation::South)
        } else if s[0] == 'W' {
            Some(Orientation::West)
        } else {
            None
        }
    } else {
        None
    }
}

/// Serializing an orientation and parsing the code back yields the same
/// orientation.
pub proof fn lemma_code_then_parse(o: Orientation)
    ensures
        spec_parse_orientation(seq![o.spec_code()]) == Some(o),
{
}

/// Parsing a one-character orientation code and serializing the result
/// yields the same code: the codec round-trips.
pub proof fn lemma_parse_then_code(s: Seq<char>)
    requires
        spec_parse_orientation(s) is Some,
    ensures
        seq![spec_parse_orientation(s)->Some_0.spec_code()] =~= s,
{
}

/// Any token other than the four one-character codes is rejected.
pub proof fn lemma_unknown_code_rejected(s: Seq<char>)
    requires
        s.len() != 1 || (s[0] != 'N' && s[0] != 'E' && s[0] != 'S' && s[0] != 'W'),
    ensures
        spec_parse_orientation(s) is None,
{
}

/// A quarter turn right followed by a quarter turn left (or the other way
/// round) restores the orientation, and four successive turns in the same
/// direction restore it as well: the rotations form two four-cycles.
pub proof fn lemma_rotation_group(o: Orientation)
    ensures
        o.spec_turn_right().spec_turn_left() == o,
        o.spec_turn_left().spec_turn_right() == o,
        o.spec_turn_right().spec_turn_right().spec_turn_right().spec_turn_right() == o,
        o.spec_turn_left().spec_turn_left().spec_turn_left().spec_turn_left() == o,
{
}

} // verus!
