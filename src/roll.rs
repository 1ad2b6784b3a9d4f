use vstd::prelude::*;

verus! {

/// What a frame expects after a roll was recorded.
#[derive(PartialEq, Eq, Debug, Structural)]
pub enum NextAction {
    /// The frame awaits another roll.
    NextDraw,
    /// The frame is complete: the game moves on to a new frame.
    NextFrame,
    /// The last frame is complete: the game is over.
    Finish,
}

/// The result of a scoring query.
#[derive(PartialEq, Eq, Debug, Structural)]
pub enum Pins {
    /// No later roll can change this number.
    FinalPins(u32),
    /// A lower bound that pending bonus rolls may still raise.
    InprogressPins(u32),
}

/// The outcome of one delivery.
#[derive(PartialEq, Eq, Debug, Clone, Copy, Structural)]
pub enum Draw {
    /// Some pins knocked down, fewer than ten.
    Open(u32),
    /// Like `Open`, with the remaining pins split apart; scored the same way.
    Split(u32),
    /// The rest of the pins after a first roll that left some standing.
    Spare,
    /// All ten pins on a frame's first roll.
    Strike,
    /// A fouled delivery: counts as no pins.
    Fool,
}

impl Pins {
    /// The number carried, final or not.
    pub open spec fn total(self) -> int {
        match self {
            Pins::FinalPins(x) => x as int,
            Pins::InprogressPins(x) => x as int,
        }
    }

    /// Whether the number can no longer change.
    pub open spec fn is_final(self) -> bool {
        self is FinalPins
    }

    /// Builds the result from a total and whether rolls are still owed.
    pub fn from_parts(total: u32, in_progress: bool) -> (r: Pins)
        ensures
            r.total() == total as int,
            r.is_final() == !in_progress,
    {
        if in_progress {
            Pins::InprogressPins(total)
        } else {
            Pins::FinalPins(total)
        }
    }

    /// The number carried, final or not.
    pub fn value(&self) -> (r: u32)
        ensures
            r as int == self.total(),
    {
        match self {
            Pins::FinalPins(x) => *x,
            Pins::InprogressPins(x) => *x,
        }
    }
}

/// Pins a roll knocks down on its own: ten for a strike or a spare.
pub open spec fn draw_pins(d: Draw) -> u32 {
    match d {
        Draw::Strike => 10,
        Draw::Spare => 10,
        Draw::Open(x) => x,
        Draw::Split(x) => x,
        Draw::Fool => 0,
    }
}

impl From<Draw> for u32 {
    fn from(draw: Draw) -> (r: u32)
        ensures
            r == draw_pins(draw),
    {
        match draw {
            Draw::Strike | Draw::Spare => 10,
            Draw::Open(x) | Draw::Split(x) => x,
            Draw::Fool => 0,
        }
    }
}

impl vstd::std_specs::convert::FromSpecImpl<Draw> for u32 {
    open spec fn obeys_from_spec() -> bool {
        true
    }

    open spec fn from_spec(draw: Draw) -> u32 {
        draw_pins(draw)
    }
}

/// `X`: a strike.
pub const STRIKE_MARK: u8 = 88;
/// `/`: a spare.
pub const SPARE_MARK: u8 = 47;
/// `0`: the lowest digit.
pub const DIGIT_ZERO: u8 = 48;
/// `9`: the highest digit.
pub const DIGIT_NINE: u8 = 57;

/// The roll that a line of console input names: a line of exactly two bytes
/// whose first is `X` (strike), `/` (spare) or a digit (that many pins).
pub open spec fn draw_of_line(line: Seq<u8>) -> Option<Draw> {
    if line.len() != 2 {
        None
    } else if line[0] == STRIKE_MARK {
        Some(Draw::Strike)
    } else if line[0] == SPARE_MARK {
        Some(Draw::Spare)
    } else if DIGIT_ZERO <= line[0] <= DIGIT_NINE {
        Some(Draw::Open((line[0] - DIGIT_ZERO) as u32))
    } else {
        None
    }
}

/// Reads the roll that a line of console input names, if any.
pub fn parse_draw(line: &[u8]) -> (r: Option<Draw>)
    ensures
        r == draw_of_line(line@),
{
    if line.len() != 2 {
        return None;
    }
    let c = line[0];
    if c == STRIKE_MARK {
        Some(Draw::Strike)
    } else if c == SPARE_MARK {
        Some(Draw::Spare)
    } else if DIGIT_ZERO <= c && c <= DIGIT_NINE {
        Some(Draw::Open((c - DIGIT_ZERO) as u32))
    } else {
        None
    }
}

} // verus!
