//! The bounded grid and owner of the rover collection: parsing of the
//! full multi-rover text block and serialization of the current rover
//! states.

use vstd::prelude::*;

use crate::rover::Rover;
use crate::rover::RoverV;
use crate::rover::rover_views;
use crate::rover::spec_parse_rover_lines;
use crate::rover::spec_rover_text;
use crate::text::parse_u32;
use crate::text::spec_join;
use crate::text::spec_parse_u32;
use crate::text::spec_split;
use crate::text::split_str;
use crate::text::str_views;
use crate::text::lemma_split_len;
use crate::text::lemma_join_push;

verus! {

/// Error returned when the full input text is malformed.
#[derive(Debug, PartialEq)]
pub struct ParsePlateauError {}

/// The mathematical state of a plateau: its inclusive coordinate bounds
/// and its rovers in parse order.
pub ghost struct PlateauV {
    pub h_size: int,
    pub v_size: int,
    pub rovers: Seq<RoverV>,
}

/// The bounded grid: coordinates range over `[0, h_size] x [0, v_size]`,
/// both bounds inclusive, with the origin at `(0, 0)`.  Owns its rovers
/// in parse order.
#[derive(Debug, PartialEq)]
pub struct Plateau {
    pub h_size: u32,
    pub v_size: u32,
    pub rovers: Vec<Rover>,
}

impl View for Plateau {
    type V = PlateauV;

    open spec fn view(&self) -> PlateauV {
        PlateauV {
            h_size: self.h_size as int,
            v_size: self.v_size as int,
            rovers: rover_views(self.rovers@),
        }
    }
}

/// The rovers denoted by the lines after the header, if any: the lines
/// are consumed two at a time, one rover per pair, so their number must
/// be even; no lines at all is a valid empty collection.
pub open spec fn spec_parse_rovers(lines: Seq<Seq<char>>) -> Option<Seq<RoverV>> {
    if lines.len() % 2 == 0 && (forall|i: int|
        0 <= i < lines.len() / 2 ==> (#[trigger] spec_parse_rover_lines(
            lines[2 * i],
            lines[2 * i + 1],
        )) is Some) {
        Some(
            Seq::new(
                lines.len() / 2,
                |i: int| spec_parse_rover_lines(lines[2 * i], lines[2 * i + 1])->Some_0,
            ),
        )
    } else {
        None
    }
}

/// The plateau denoted by the whole input text, if any.  The first line
/// must carry at least two space-separated decimal tokens, the declared
/// bounds; tokens past the second are ignored.  Every later line belongs
/// to a rover pair.
pub open spec fn spec_parse_plateau(s: Seq<char>) -> Option<PlateauV> {
    let lines = spec_split(s, '\n');
    let toks = spec_split(lines[0], ' ');
    if toks.len() >= 2 {
        match (spec_parse_u32(toks[0]), spec_parse_u32(toks[1]), spec_parse_rovers(lines.skip(1))) {
            (Some(h), Some(v), Some(rovers)) => Some(
                PlateauV { h_size: h as int, v_size: v as int, rovers },
            ),
            _ => None,
        }
    } else {
        None
    }
}

/// The serialized form of a rover collection: each rover's one-line text
/// form, joined with a single newline, in order.
pub open spec fn spec_rovers_text(rovers: Seq<RoverV>) -> Seq<char> {
    spec_join(rovers.map_values(|r: RoverV| spec_rover_text(r)), '\n')
}

/// Serializes a rover collection, one line per rover, in order.
pub(crate) fn rovers_text(rovers: &Vec<Rover>) -> (r: String)
    ensures
        r@ == spec_rovers_text(rover_views(rovers@)),
{
    let ghost texts = rover_views(rovers@).map_values(|rv: RoverV| spec_rover_text(rv));
    let mut out = String::new();
    let mut i: usize = 0;
    proof {
        reveal_strlit("\n");
        assert(rover_views(rovers@.subrange(0, 0)).map_values(|rv: RoverV| spec_rover_text(rv))
            =~= Seq::<Seq<char>>::empty());
    }
    while i < rovers.len()
        invariant
            i <= rovers@.len(),
            "\n"@ == seq!['\n'],
            out@ == spec_join(
                rover_views(rovers@.subrange(0, i as int)).map_values(
                    |rv: RoverV| spec_rover_text(rv),
                ),
                '\n',
            ),
        decreases rovers@.len() - i,
    {
        let ghost done = rover_views(rovers@.subrange(0, i as int)).map_values(
            |rv: RoverV| spec_rover_text(rv),
        );
        if i > 0 {
            out.append("\n");
        }
        let line = rovers[i].to_text();
        out.append(line.as_str());
        proof {
            let done_next = rover_views(rovers@.subrange(0, i as int + 1)).map_values(
                |rv: RoverV| spec_rover_text(rv),
            );
            assert(done_next =~= done.push(spec_rover_text(rovers@[i as int]@)));
            if i > 0 {
                lemma_join_push(done, spec_rover_text(rovers@[i as int]@), '\n');
            } else {
                assert(spec_join(done_next, '\n') == done_next[0]);
            }
        }
        i = i + 1;
    }
    proof {
        assert(rovers@.subrange(0, rovers@.len() as int) =~= rovers@);
    }
    out
}

impl Plateau {
    /// Parses the whole input text into a plateau.
    pub fn parse(s: &str) -> (r: Result<Plateau, ParsePlateauError>)
        ensures
            match r {
                Ok(p) => spec_parse_plateau(s@) == Some(p@),
                Err(_) => spec_parse_plateau(s@) is None,
            },
    {
        let lines = split_str(s, '\n');
        proof {
            lemma_split_len(s@, '\n');
            assert(forall|k: int|
                0 <= k < lines@.len() ==> str_views(lines@)[k] == #[trigger] lines@[k]@);
        }
        let header = lines[0];
        let toks = split_str(header, ' ');
        proof {
            assert(forall|k: int|
                0 <= k < toks@.len() ==> str_views(toks@)[k] == #[trigger] toks@[k]@);
        }
        if toks.len() < 2 {
            return Err(ParsePlateauError {});
        }
        let h_size: u32 = match parse_u32(toks[0]) {
            Some(h) => h,
            None => {
                return Err(ParsePlateauError {});
            },
        };
        let v_size: u32 = match parse_u32(toks[1]) {
            Some(v) => v,
            None => {
                return Err(ParsePlateauError {});
            },
        };
        let ghost rl = spec_split(s@, '\n').skip(1);
        let n: usize = lines.len();
        let mut rovers: Vec<Rover> = Vec::new();
        let mut i: usize = 1;
        while i < n - 1
            invariant
                n == lines@.len(),
                n >= 1,
                rl == str_views(lines@).skip(1),
                rl == spec_split(s@, '\n').skip(1),
                rl.len() == n - 1,
                forall|k: int| 0 <= k < n ==> str_views(lines@)[k] == #[trigger] lines@[k]@,
                1 <= i <= n,
                i == 1 + 2 * rovers@.len(),
                forall|j: int|
                    0 <= j < rovers@.len() ==> #[trigger] spec_parse_rover_lines(
                        rl[2 * j],
                        rl[2 * j + 1],
                    ) == Some(rovers@[j]@),
            decreases n - i,
        {
            let ghost k = rovers@.len() as int;
            proof {
                assert(rl[2 * k] == lines@[i as int]@);
                assert(rl[2 * k + 1] == lines@[i as int + 1]@);
            }
            match Rover::parse_lines(lines[i], lines[i + 1]) {
                Ok(rover) => {
                    rovers.push(rover);
                },
                Err(_) => {
                    proof {
                        assert(spec_parse_rover_lines(rl[2 * k], rl[2 * k + 1]) is None);
                        assert(spec_parse_rovers(rl) is None);
                    }
                    return Err(ParsePlateauError {});
                },
            }
            i = i + 2;
        }
        if i < n {
            // A lone first line of a rover pair: the count of rover lines
            // is odd, so the block is rejected.
            assert(rl.len() % 2 == 1);
            assert(spec_parse_rovers(rl) is None);
            return Err(ParsePlateauError {});
        }
        proof {
            assert(i == n);
            assert(rl.len() % 2 == 0);
            assert(rover_views(rovers@) =~= Seq::new(
                rl.len() / 2,
                |j: int| spec_parse_rover_lines(rl[2 * j], rl[2 * j + 1])->Some_0,
            ));
        }
        Ok(Plateau { h_size, v_size, rovers })
    }

    /// The rover collection, as independent copies in parse order:
    /// changes to the returned rovers do not propagate back.
    pub fn rovers(&self) -> (r: Vec<Rover>)
        ensures
            rover_views(r@) == self@.rovers,
    {
        let mut r: Vec<Rover> = Vec::new();
        let mut i: usize = 0;
        while i < self.rovers.len()
            invariant
                i <= self.rovers@.len(),
                r@.len() == i,
                forall|j: int| 0 <= j < i ==> (#[trigger] r@[j])@ == self.rovers@[j]@,
            decreases self.rovers@.len() - i,
        {
            r.push(self.rovers[i].duplicate());
            i = i + 1;
        }
        proof {
            assert(rover_views(r@) =~= rover_views(self.rovers@));
        }
        r
    }

    /// Serializes the current state of every rover, one line each, in
    /// parse order, joined with a single newline.
    pub fn to_text(&self) -> (r: String)
        ensures
            r@ == spec_rovers_text(self@.rovers),
    {
        rovers_text(&self.rovers)
    }
}

/// A rover block whose pair is incomplete is rejected: when the lines
/// after the header are odd in number, no plateau is parsed.
pub proof fn lemma_odd_lines_rejected(s: Seq<char>)
    requires
        (spec_split(s, '\n').len() - 1) % 2 == 1,
    ensures
        spec_parse_plateau(s) is None,
{
    lemma_split_len(s, '\n');
    assert(spec_split(s, '\n').skip(1).len() % 2 == 1);
}

} // verus!
