//! Simulation of directional rovers on a bounded rectangular plateau.
//!
//! A textual program describes the plateau size, each rover's starting
//! position and orientation, and its instruction sequence.  Parsing,
//! execution (rotation and bounded translation with fail-fast boundary
//! checking) and serialization of the final states are all verified.

use vstd::prelude::*;

pub mod instruction;
pub mod orientation;
pub mod plateau;
pub mod rover;
pub mod text;

pub use instruction::Instruction;
pub use instruction::ParseInstructionError;
pub use orientation::Orientation;
pub use orientation::ParseOrientationError;
pub use plateau::ParsePlateauError;
pub use plateau::Plateau;
pub use rover::OutOfBoundsError;
pub use rover::ParseRoverError;
pub use rover::Rover;

use plateau::rovers_text;
use plateau::spec_parse_plateau;
use plateau::spec_rovers_text;
use rover::RoverV;
use rover::rover_views;
use rover::spec_run;

verus! {

/// The final states of a batch of rovers, each run independently against
/// the same bounds, or `None` when any rover's program goes out of
/// bounds: one violation aborts the whole batch and no partial result is
/// kept.
pub open spec fn spec_run_all(rovers: Seq<RoverV>, x_max: int, y_max: int) -> Option<Seq<RoverV>> {
    if forall|i: int|
        0 <= i < rovers.len() ==> (#[trigger] spec_run(rovers[i], x_max, y_max)) is Some {
        Some(Seq::new(rovers.len(), |i: int| spec_run(rovers[i], x_max, y_max)->Some_0))
    } else {
        None
    }
}

/// What the whole pipeline denotes: parse the plateau, run every rover's
/// program against the plateau bounds, and serialize the final states,
/// one line per rover in parse order; `None` when parsing fails or any
/// rover goes out of bounds.
pub open spec fn spec_execute(s: Seq<char>) -> Option<Seq<char>> {
    match spec_parse_plateau(s) {
        Some(p) => match spec_run_all(p.rovers, p.h_size, p.v_size) {
            Some(finals) => Some(spec_rovers_text(finals)),
            None => None,
        },
        None => None,
    }
}

/// Runs the whole pipeline on one input text.  Every failure, of parsing
/// or of bounds checking, is reported as the same single error kind.
pub fn execute(input: &str) -> (r: Result<String, ParsePlateauError>)
    ensures
        match r {
            Ok(out) => spec_execute(input@) == Some(out@),
            Err(_) => spec_execute(input@) is None,
        },
{
    let plateau = match Plateau::parse(input) {
        Ok(p) => p,
        Err(_) => {
            return Err(ParsePlateauError {});
        },
    };
    let mut finals: Vec<Rover> = Vec::new();
    let mut i: usize = 0;
    while i < plateau.rovers.len()
        invariant
            spec_parse_plateau(input@) == Some(plateau@),
            i <= plateau.rovers@.len(),
            finals@.len() == i,
            forall|j: int|
                0 <= j < i ==> spec_run(plateau@.rovers[j], plateau@.h_size, plateau@.v_size)
                    == Some((#[trigger] finals@[j])@),
        decreases plateau.rovers@.len() - i,
    {
        proof {
            assert(plateau@.rovers[i as int] == plateau.rovers@[i as int]@);
        }
        match plateau.rovers[i].perform_instructions(plateau.h_size, plateau.v_size) {
            Ok(done) => {
                finals.push(done);
            },
            Err(_) => {
                proof {
                    assert(spec_run(
                        plateau@.rovers[i as int],
                        plateau@.h_size,
                        plateau@.v_size,
                    ) is None);
                    assert(spec_run_all(plateau@.rovers, plateau@.h_size, plateau@.v_size) is None);
                }
                return Err(ParsePlateauError {});
            },
        }
        i = i + 1;
    }
    proof {
        assert forall|j: int| 0 <= j < plateau@.rovers.len() implies (#[trigger] spec_run(
            plateau@.rovers[j],
            plateau@.h_size,
            plateau@.v_size,
        )) is Some by {
            assert(spec_run(plateau@.rovers[j], plateau@.h_size, plateau@.v_size) == Some(
                finals@[j]@,
            ));
        }
        assert(rover_views(finals@) =~= Seq::new(
            plateau@.rovers.len(),
            |j: int| spec_run(plateau@.rovers[j], plateau@.h_size, plateau@.v_size)->Some_0,
        ));
        assert(spec_run_all(plateau@.rovers, plateau@.h_size, plateau@.v_size) == Some(
            rover_views(finals@),
        ));
    }
    Ok(rovers_text(&finals))
}

/// The batch is all-or-nothing: as soon as one rover's program goes out
/// of bounds, the whole batch reports failure, with no output for the
/// rovers that succeeded.
pub proof fn lemma_batch_all_or_nothing(rovers: Seq<RoverV>, i: int, x_max: int, y_max: int)
    requires
        0 <= i < rovers.len(),
        spec_run(rovers[i], x_max, y_max) is None,
    ensures
        spec_run_all(rovers, x_max, y_max) is None,
{
}

} // verus!
