use vstd::prelude::*;

verus! {

/// The direction in which the pet is walking.
#[derive(Clone, Copy, Debug, PartialEq, Eq, Structural)]
pub enum Direction {
    Right,
    Up,
    Left,
    Down,
}

/// The direction taken at a corner: clockwise the pet goes
/// Right, Down, Left, Up; counter-clockwise Right, Up, Left, Down.
pub open spec fn spec_turn(dir: Direction, cw: bool) -> Direction {
    match dir {
        Direction::Right => if cw { Direction::Down } else { Direction::Up },
        Direction::Up => if cw { Direction::Right } else { Direction::Left },
        Direction::Left => if cw { Direction::Up } else { Direction::Down },
        Direction::Down => if cw { Direction::Left } else { Direction::Right },
    }
}

/// The direction that follows `dir` at a corner of the walk.
pub fn turn(dir: Direction, cw: bool) -> (next: Direction)
    ensures
        next == spec_turn(dir, cw),
{
    match dir {
        Direction::Right => if cw { Direction::Down } else { Direction::Up },
        Direction::Up => if cw { Direction::Right } else { Direction::Left },
        Direction::Left => if cw { Direction::Up } else { Direction::Down },
        Direction::Down => if cw { Direction::Left } else { Direction::Right },
    }
}

/// Four turns in the same sense bring the pet back to its first direction.
pub proof fn lemma_four_turns_return(dir: Direction, cw: bool)
    ensures
        spec_turn(spec_turn(spec_turn(spec_turn(dir, cw), cw), cw), cw) == dir,
{
}

/// A clockwise turn followed by a counter-clockwise turn (or the reverse)
/// undoes itself.
pub proof fn lemma_turns_cancel(dir: Direction, cw: bool)
    ensures
        spec_turn(spec_turn(dir, cw), !cw) == dir,
{
}

/// The four turns in one sense visit four different directions.
pub proof fn lemma_turns_visit_all(dir: Direction, cw: bool)
    ensures
        spec_turn(dir, cw) != dir,
        spec_turn(spec_turn(dir, cw), cw) != dir,
        spec_turn(spec_turn(spec_turn(dir, cw), cw), cw) != dir,
        spec_turn(spec_turn(dir, cw), cw) != spec_turn(dir, cw),
{
}

} // verus!
