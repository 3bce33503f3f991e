//! A positioned, oriented agent with a fixed instruction program: parsing
//! of its two-line text block, the pure state-transition semantics of its
//! instructions with fail-fast boundary checking, and serialization of a
//! state back to text.

use vstd::prelude::*;

use crate::instruction::Instruction;
use crate::instruction::ParseInstructionError;
use crate::instruction::spec_parse_instruction;
use crate::orientation::Orientation;
use crate::orientation::spec_parse_orientation;
use crate::text::dec_string;
use crate::text::parse_u32;
use crate::text::spec_dec;
use crate::text::spec_parse_u32;
use crate::text::spec_split;
use crate::text::split_str;
use crate::text::str_views;

verus! {

/// Error returned when a two-line rover block is malformed.
#[derive(Debug)]
pub struct ParseRoverError {}

/// Error returned when a Move would leave the plateau.
#[derive(Debug)]
pub struct OutOfBoundsError {}

/// The mathematical state of a rover: its coordinates, facing direction
/// and remaining program.
pub ghost struct RoverV {
    pub x: int,
    pub y: int,
    pub orientation: Orientation,
    pub instructions: Seq<Instruction>,
}

/// A rover on the plateau.  The coordinates are only held to the plateau
/// bounds while instructions execute, not at parse time.
#[derive(Clone, Debug, PartialEq)]
pub struct Rover {
    pub x: u32,
    pub y: u32,
    pub orientation: Orientation,
    pub instructions: Vec<Instruction>,
}

impl View for Rover {
    type V = RoverV;

    open spec fn view(&self) -> RoverV {
        RoverV {
            x: self.x as int,
            y: self.y as int,
            orientation: self.orientation,
            instructions: self.instructions@,
        }
    }
}

/// The tentative coordinates one unit forward in facing direction `o`.
pub open spec fn spec_step(o: Orientation, x: int, y: int) -> (int, int) {
    match o {
        Orientation::North => (x, y + 1),
        Orientation::South => (x, y - 1),
        Orientation::East => (x + 1, y),
        Orientation::West => (x - 1, y),
    }
}

/// The state after one instruction, or `None` when a Move would leave
/// the inclusive bounds `[0, x_max] x [0, y_max]`.  Turns always succeed;
/// a Move commits only a tentative position that is in bounds on both
/// axes.
pub open spec fn spec_apply(v: RoverV, ins: Instruction, x_max: int, y_max: int) -> Option<
    RoverV,
> {
    match ins {
        Instruction::Left => Some(RoverV { orientation: v.orientation.spec_turn_left(), ..v }),
        Instruction::Right => Some(RoverV { orientation: v.orientation.spec_turn_right(), ..v }),
        Instruction::Move => {
            let (nx, ny) = spec_step(v.orientation, v.x, v.y);
            if 0 <= nx <= x_max && 0 <= ny <= y_max {
                Some(RoverV { x: nx, y: ny, ..v })
            } else {
                None
            }
        },
    }
}

/// The state after folding `rest` over `v` strictly in sequence, or
/// `None` as soon as one instruction fails: later instructions are never
/// applied.
pub open spec fn spec_run_from(v: RoverV, rest: Seq<Instruction>, x_max: int, y_max: int) -> Option<
    RoverV,
>
    decreases rest.len(),
{
    if rest.len() == 0 {
        Some(v)
    } else {
        match spec_apply(v, rest[0], x_max, y_max) {
            Some(w) => spec_run_from(w, rest.skip(1), x_max, y_max),
            None => None,
        }
    }
}

/// The final state of a rover after its whole program, or `None` when
/// some instruction goes out of bounds.
pub open spec fn spec_run(v: RoverV, x_max: int, y_max: int) -> Option<RoverV> {
    spec_run_from(v, v.instructions, x_max, y_max)
}

/// The program denoted by an instruction line, if any: every character
/// must be a command code; an empty line is the empty program.
pub open spec fn spec_parse_program(s: Seq<char>) -> Option<Seq<Instruction>> {
    if forall|i: int| 0 <= i < s.len() ==> spec_parse_instruction(s[i]) is Some {
        Some(Seq::new(s.len(), |i: int| spec_parse_instruction(s[i])->Some_0))
    } else {
        None
    }
}

/// The rover denoted by a position line and an instruction line, if any.
/// The position line must carry at least three space-separated tokens:
/// two decimal coordinates and an orientation code; tokens past the
/// third are ignored.
pub open spec fn spec_parse_rover_lines(l1: Seq<char>, l2: Seq<char>) -> Option<RoverV> {
    let toks = spec_split(l1, ' ');
    if toks.len() >= 3 {
        match (spec_parse_u32(toks[0]), spec_parse_u32(toks[1])) {
            (Some(x), Some(y)) => match (spec_parse_orientation(toks[2]), spec_parse_program(
                l2,
            )) {
                (Some(o), Some(prog)) => Some(
                    RoverV { x: x as int, y: y as int, orientation: o, instructions: prog },
                ),
                _ => None,
            },
            _ => None,
        }
    } else {
        None
    }
}

/// The rover denoted by a whole text block, if any: the block must split
/// into exactly two lines.
pub open spec fn spec_parse_rover(s: Seq<char>) -> Option<RoverV> {
    let lines = spec_split(s, '\n');
    if lines.len() == 2 {
        spec_parse_rover_lines(lines[0], lines[1])
    } else {
        None
    }
}

/// The serialized form of a rover state: the two coordinates in decimal
/// and the orientation code, space-separated.
pub open spec fn spec_rover_text(v: RoverV) -> Seq<char> {
    spec_dec(v.x) + seq![' '] + spec_dec(v.y) + seq![' '] + seq![v.orientation.spec_code()]
}

/// The views of a sequence of rovers.
pub open spec fn rover_views(rs: Seq<Rover>) -> Seq<RoverV> {
    rs.map_values(|r: Rover| r@)
}

/// Duplicates an instruction program element by element.
fn copy_program(v: &Vec<Instruction>) -> (r: Vec<Instruction>)
    ensures
        r@ == v@,
{
    let mut r: Vec<Instruction> = Vec::new();
    let mut i: usize = 0;
    while i < v.len()
        invariant
            i <= v.len(),
            r@ == v@.subrange(0, i as int),
        decreases v.len() - i,
    {
        let ins: Instruction = v[i];
        r.push(ins);
        proof {
            assert(r@ =~= v@.subrange(0, i as int + 1));
        }
        i = i + 1;
    }
    proof {
        assert(r@ =~= v@);
    }
    r
}

/// Parses an instruction line into a program.
fn parse_program(s: &str) -> (r: Result<Vec<Instruction>, ParseInstructionError>)
    ensures
        match r {
            Ok(v) => spec_parse_program(s@) == Some(v@),
            Err(_) => spec_parse_program(s@) is None,
        },
{
    let n: usize = s.unicode_len();
    let mut out: Vec<Instruction> = Vec::new();
    let mut i: usize = 0;
    while i < n
        invariant
            n == s@.len(),
            i <= n,
            out@.len() == i,
            forall|j: int| 0 <= j < i ==> spec_parse_instruction(s@[j]) is Some,
            forall|j: int| 0 <= j < i ==> out@[j] == spec_parse_instruction(s@[j])->Some_0,
        decreases n - i,
    {
        let c = s.get_char(i);
        match Instruction::parse(c) {
            Ok(ins) => {
                out.push(ins);
            },
            Err(e) => {
                assert(spec_parse_instruction(s@[i as int]) is None);
                return Err(e);
            },
        }
        i = i + 1;
    }
    proof {
        assert(out@ =~= Seq::new(s@.len(), |j: int| spec_parse_instruction(s@[j])->Some_0));
    }
    Ok(out)
}

impl Rover {
    /// Parses a position line and an instruction line into a rover.
    pub(crate) fn parse_lines(l1: &str, l2: &str) -> (r: Result<Rover, ParseRoverError>)
        ensures
            match r {
                Ok(rv) => spec_parse_rover_lines(l1@, l2@) == Some(rv@),
                Err(_) => spec_parse_rover_lines(l1@, l2@) is None,
            },
    {
        let toks = split_str(l1, ' ');
        proof {
            assert(forall|k: int|
                0 <= k < toks@.len() ==> str_views(toks@)[k] == #[trigger] toks@[k]@);
        }
        if toks.len() < 3 {
            return Err(ParseRoverError {});
        }
        let x: u32 = match parse_u32(toks[0]) {
            Some(x) => x,
            None => {
                return Err(ParseRoverError {});
            },
        };
        let y: u32 = match parse_u32(toks[1]) {
            Some(y) => y,
            None => {
                return Err(ParseRoverError {});
            },
        };
        let orientation = match Orientation::parse(toks[2]) {
            Ok(o) => o,
            Err(_) => {
                return Err(ParseRoverError {});
            },
        };
        let instructions = match parse_program(l2) {
            Ok(p) => p,
            Err(_) => {
                return Err(ParseRoverError {});
            },
        };
        Ok(Rover { x, y, orientation, instructions })
    }

    /// Parses a two-line text block into a rover.
    pub fn parse(s: &str) -> (r: Result<Rover, ParseRoverError>)
        ensures
            match r {
                Ok(rv) => spec_parse_rover(s@) == Some(rv@),
                Err(_) => spec_parse_rover(s@) is None,
            },
    {
        let lines = split_str(s, '\n');
        proof {
            assert(forall|k: int|
                0 <= k < lines@.len() ==> str_views(lines@)[k] == #[trigger] lines@[k]@);
        }
        if lines.len() != 2 {
            return Err(ParseRoverError {});
        }
        Self::parse_lines(lines[0], lines[1])
    }

    /// An independent copy of this rover in the same state.
    pub(crate) fn duplicate(&self) -> (r: Rover)
        ensures
            r@ == self@,
    {
        Rover {
            x: self.x,
            y: self.y,
            orientation: self.orientation,
            instructions: copy_program(&self.instructions),
        }
    }

    /// A copy of this rover turned a quarter left; position and program
    /// are unchanged.
    pub fn turn_left(&self) -> (r: Rover)
        ensures
            r@ == (RoverV { orientation: self@.orientation.spec_turn_left(), ..self@ }),
    {
        Rover {
            x: self.x,
            y: self.y,
            orientation: self.orientation.turn_left(),
            instructions: copy_program(&self.instructions),
        }
    }

    /// A copy of this rover turned a quarter right; position and program
    /// are unchanged.
    pub fn turn_right(&self) -> (r: Rover)
        ensures
            r@ == (RoverV { orientation: self@.orientation.spec_turn_right(), ..self@ }),
    {
        Rover {
            x: self.x,
            y: self.y,
            orientation: self.orientation.turn_right(),
            instructions: copy_program(&self.instructions),
        }
    }

    /// A copy of this rover moved one unit forward, when the tentative
    /// position stays within the inclusive bounds on both axes; the
    /// out-of-bounds error otherwise.
    pub fn try_move(&self, x_max: u32, y_max: u32) -> (r: Result<Rover, OutOfBoundsError>)
        ensures
            match r {
                Ok(rv) => spec_apply(self@, Instruction::Move, x_max as int, y_max as int) == Some(
                    rv@,
                ),
                Err(_) => spec_apply(self@, Instruction::Move, x_max as int, y_max as int) is None,
            },
    {
        match self.orientation {
            Orientation::North => {
                if self.x <= x_max && self.y < y_max {
                    Ok(
                        Rover {
                            x: self.x,
                            y: self.y + 1,
                            orientation: self.orientation,
                            instructions: copy_program(&self.instructions),
                        },
                    )
                } else {
                    Err(OutOfBoundsError {})
                }
            },
            Orientation::South => {
                if self.y >= 1 && self.x <= x_max && self.y - 1 <= y_max {
                    Ok(
                        Rover {
                            x: self.x,
                            y: self.y - 1,
                            orientation: self.orientation,
                            instructions: copy_program(&self.instructions),
                        },
                    )
                } else {
                    Err(OutOfBoundsError {})
                }
            },
            Orientation::East => {
                if self.x < x_max && self.y <= y_max {
                    Ok(
                        Rover {
                            x: self.x + 1,
                            y: self.y,
                            orientation: self.orientation,
                            instructions: copy_program(&self.instructions),
                        },
                    )
                } else {
                    Err(OutOfBoundsError {})
                }
            },
            Orientation::West => {
                if self.x >= 1 && self.x - 1 <= x_max && self.y <= y_max {
                    Ok(
                        Rover {
                            x: self.x - 1,
                            y: self.y,
                            orientation: self.orientation,
                            instructions: copy_program(&self.instructions),
                        },
                    )
                } else {
                    Err(OutOfBoundsError {})
                }
            },
        }
    }

    /// Applies one instruction: turns always succeed, a Move is bounded.
    pub fn perform_instruction(&self, instruction: &Instruction, x_max: u32, y_max: u32) -> (r:
        Result<Rover, OutOfBoundsError>)
        ensures
            match r {
                Ok(rv) => spec_apply(self@, *instruction, x_max as int, y_max as int) == Some(rv@),
                Err(_) => spec_apply(self@, *instruction, x_max as int, y_max as int) is None,
            },
    {
        match instruction {
            Instruction::Left => Ok(self.turn_left()),
            Instruction::Right => Ok(self.turn_right()),
            Instruction::Move => self.try_move(x_max, y_max),
        }
    }

    /// Folds the whole program over the starting state, strictly in
    /// sequence, stopping at the first out-of-bounds Move: no partial
    /// state is returned, and later instructions are never applied.
    pub fn perform_instructions(&self, x_max: u32, y_max: u32) -> (r: Result<
        Rover,
        OutOfBoundsError,
    >)
        ensures
            match r {
                Ok(rv) => spec_run(self@, x_max as int, y_max as int) == Some(rv@),
                Err(_) => spec_run(self@, x_max as int, y_max as int) is None,
            },
    {
        let mut cur = Rover {
            x: self.x,
            y: self.y,
            orientation: self.orientation,
            instructions: copy_program(&self.instructions),
        };
        let n: usize = self.instructions.len();
        let mut i: usize = 0;
        proof {
            assert(self@.instructions.skip(0) =~= self@.instructions);
        }
        while i < n
            invariant
                n == self@.instructions.len(),
                i <= n,
                spec_run(self@, x_max as int, y_max as int) == spec_run_from(
                    cur@,
                    self@.instructions.skip(i as int),
                    x_max as int,
                    y_max as int,
                ),
            decreases n - i,
        {
            let ins: Instruction = self.instructions[i];
            proof {
                assert(self@.instructions.skip(i as int)[0] == ins);
                assert(self@.instructions.skip(i as int).skip(1) =~= self@.instructions.skip(
                    i as int + 1,
                ));
            }
            cur = match cur.perform_instruction(&ins, x_max, y_max) {
                Ok(next) => next,
                Err(e) => {
                    return Err(e);
                },
            };
            i = i + 1;
        }
        proof {
            assert(self@.instructions.skip(n as int) =~= Seq::<Instruction>::empty());
        }
        Ok(cur)
    }

    /// Serializes the current state as its one-line text form.
    pub fn to_text(&self) -> (r: String)
        ensures
            r@ == spec_rover_text(self@),
    {
        proof {
            reveal_strlit(" ");
        }
        let mut r = dec_string(self.x);
        r.append(" ");
        let ys = dec_string(self.y);
        r.append(ys.as_str());
        r.append(" ");
        r.append(self.orientation.code_str());
        proof {
            assert(" "@ =~= seq![' ']);
            assert(r@ =~= spec_rover_text(self@));
        }
        r
    }
}

/// Every way a rover block can be malformed is rejected: a block that is
/// not exactly two lines, a position line with fewer than three tokens, a
/// coordinate token that is not a number, an orientation token that is
/// not a code, or any bad character on the instruction line.
pub proof fn lemma_rover_block_rejection(s: Seq<char>, l1: Seq<char>, l2: Seq<char>)
    ensures
        spec_split(s, '\n').len() != 2 ==> spec_parse_rover(s) is None,
        spec_split(l1, ' ').len() < 3 ==> spec_parse_rover_lines(l1, l2) is None,
        spec_parse_u32(spec_split(l1, ' ')[0]) is None ==> spec_parse_rover_lines(l1, l2) is None,
        spec_parse_u32(spec_split(l1, ' ')[1]) is None ==> spec_parse_rover_lines(l1, l2) is None,
        spec_parse_orientation(spec_split(l1, ' ')[2]) is None ==> spec_parse_rover_lines(
            l1,
            l2,
        ) is None,
        (exists|i: int| 0 <= i < l2.len() && spec_parse_instruction(l2[i]) is None)
            ==> spec_parse_rover_lines(l1, l2) is None,
{
}

/// A Move changes exactly one coordinate, by exactly one unit in the
/// facing direction, and leaves the orientation and the program
/// unchanged.
pub proof fn lemma_move_determinism(v: RoverV, x_max: int, y_max: int)
    requires
        spec_apply(v, Instruction::Move, x_max, y_max) is Some,
    ensures
        spec_apply(v, Instruction::Move, x_max, y_max)->Some_0.orientation == v.orientation,
        spec_apply(v, Instruction::Move, x_max, y_max)->Some_0.instructions == v.instructions,
        v.orientation is North ==> spec_apply(v, Instruction::Move, x_max, y_max)->Some_0 == (RoverV {
            y: v.y + 1,
            ..v
        }),
        v.orientation is South ==> spec_apply(v, Instruction::Move, x_max, y_max)->Some_0 == (RoverV {
            y: v.y - 1,
            ..v
        }),
        v.orientation is East ==> spec_apply(v, Instruction::Move, x_max, y_max)->Some_0 == (RoverV {
            x: v.x + 1,
            ..v
        }),
        v.orientation is West ==> spec_apply(v, Instruction::Move, x_max, y_max)->Some_0 == (RoverV {
            x: v.x - 1,
            ..v
        }),
{
}

/// A Move from the plateau's rim, facing outward, is rejected: below
/// zero when facing West at `x = 0` or South at `y = 0`, and past the
/// declared maximum when facing East at `x = x_max` or North at
/// `y = y_max`.
pub proof fn lemma_boundary_rejection(v: RoverV, x_max: int, y_max: int)
    ensures
        v.orientation is West && v.x == 0 ==> spec_apply(v, Instruction::Move, x_max, y_max) is None,
        v.orientation is South && v.y == 0 ==> spec_apply(
            v,
            Instruction::Move,
            x_max,
            y_max,
        ) is None,
        v.orientation is East && v.x == x_max ==> spec_apply(
            v,
            Instruction::Move,
            x_max,
            y_max,
        ) is None,
        v.orientation is North && v.y == y_max ==> spec_apply(
            v,
            Instruction::Move,
            x_max,
            y_max,
        ) is None,
{
}

/// Failure is fail-fast: once a program fails, appending any further
/// instructions cannot change the outcome.
pub proof fn lemma_fail_fast(
    v: RoverV,
    instrs: Seq<Instruction>,
    ext: Seq<Instruction>,
    x_max: int,
    y_max: int,
)
    requires
        spec_run_from(v, instrs, x_max, y_max) is None,
    ensures
        spec_run_from(v, instrs + ext, x_max, y_max) is None,
    decreases instrs.len(),
{
    assert(instrs.len() > 0);
    assert((instrs + ext)[0] == instrs[0]);
    match spec_apply(v, instrs[0], x_max, y_max) {
        Some(w) => {
            assert((instrs + ext).skip(1) =~= instrs.skip(1) + ext);
            lemma_fail_fast(w, instrs.skip(1), ext, x_max, y_max);
        },
        None => {
        },
    }
}

} // verus!
