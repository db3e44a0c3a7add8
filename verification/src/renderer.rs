//! What a targeting level hands back for one frame, and the interface that
//! both levels share.
use vstd::prelude::*;
use crate::geometry::{Point, Size};
use crate::input::Input;

verus! {

/// One of the eight directions in which the pointer can be nudged.
#[derive(Clone, Copy, PartialEq, Eq, Structural, Debug)]
pub enum Direction {
    Up,
    Down,
    Left,
    Right,
    UpLeft,
    UpRight,
    DownLeft,
    DownRight,
}

/// How far one nudge moves the pointer.
#[derive(Clone, Copy, PartialEq, Eq, Structural, Debug)]
pub enum Speed {
    Normal,
    Fast,
}

/// Units moved per frame at normal speed.
pub const DEFAULT_MOUSE_SPEED: i32 = 1;

/// Units moved per frame at fast speed.
pub const FAST_MOUSE_SPEED: i32 = 10;

/// The command that one frame yields.
#[derive(Clone, Copy, PartialEq, Eq, Structural, Debug)]
pub enum KeyResult {
    /// Nothing to do in this frame.
    Await,
    /// A coarse cell was chosen: refine within the cell centered on `origin`.
    EnterFine { origin: Point, cell_size: Size },
    /// Put the pointer at `position`.
    WarpPointer { position: Point },
    /// Put the pointer at `position` and click there; the session is over.
    MoveAndClick { position: Point },
    /// Move the pointer by one step in `direction`.
    Move { direction: Direction, speed: Speed },
    /// Click where the pointer is; the session is over.
    Click,
    /// The session was cancelled.
    Terminate,
}

impl Speed {
    /// Units moved per frame at this speed.
    pub open spec fn spec_magnitude(self) -> int {
        match self {
            Speed::Normal => DEFAULT_MOUSE_SPEED as int,
            Speed::Fast => FAST_MOUSE_SPEED as int,
        }
    }

    /// Units moved per frame at this speed.
    pub fn magnitude(&self) -> (units: i32)
        ensures
            units == self.spec_magnitude(),
    {
        match self {
            Speed::Normal => DEFAULT_MOUSE_SPEED,
            Speed::Fast => FAST_MOUSE_SPEED,
        }
    }
}

impl Direction {
    /// Horizontal component: -1 toward the left, 1 toward the right.
    pub open spec fn dx(self) -> int {
        match self {
            Direction::Left | Direction::UpLeft | Direction::DownLeft => -1,
            Direction::Right | Direction::UpRight | Direction::DownRight => 1,
            Direction::Up | Direction::Down => 0,
        }
    }

    /// Vertical component: -1 upward, 1 downward.
    pub open spec fn dy(self) -> int {
        match self {
            Direction::Up | Direction::UpLeft | Direction::UpRight => -1,
            Direction::Down | Direction::DownLeft | Direction::DownRight => 1,
            Direction::Left | Direction::Right => 0,
        }
    }

    /// The direction with the given components, if they are not both zero.
    pub open spec fn from_components(dx: int, dy: int) -> Option<Direction> {
        if dx < 0 {
            if dy < 0 {
                Some(Direction::UpLeft)
            } else if dy > 0 {
                Some(Direction::DownLeft)
            } else {
                Some(Direction::Left)
            }
        } else if dx > 0 {
            if dy < 0 {
                Some(Direction::UpRight)
            } else if dy > 0 {
                Some(Direction::DownRight)
            } else {
                Some(Direction::Right)
            }
        } else {
            if dy < 0 {
                Some(Direction::Up)
            } else if dy > 0 {
                Some(Direction::Down)
            } else {
                None
            }
        }
    }

    /// The relative pointer movement, horizontal then vertical, of one step
    /// in this direction at `speed`.
    pub fn displacement(&self, speed: Speed) -> (delta: (i32, i32))
        ensures
            delta.0 == self.dx() * speed.spec_magnitude(),
            delta.1 == self.dy() * speed.spec_magnitude(),
    {
        let units: i32 = speed.magnitude();
        match self {
            Direction::Up => (0, -units),
            Direction::Down => (0, units),
            Direction::Left => (-units, 0),
            Direction::Right => (units, 0),
            Direction::UpLeft => (-units, -units),
            Direction::UpRight => (units, -units),
            Direction::DownLeft => (-units, units),
            Direction::DownRight => (units, units),
        }
    }
}

/// A level of targeting: it lays its labels out, answers where a label lies,
/// and turns a frame of input into a command.
pub trait Renderer {
    /// The positions of the labels as last laid out.
    spec fn labels(&self) -> Map<Seq<char>, Point>;

    /// The positions of the labels after laying out over the given area.
    spec fn labels_over(&self, origin: Point, available: Size) -> Map<Seq<char>, Point>;

    /// The command that a frame of input yields.
    spec fn key_result(&self, input: Input) -> KeyResult;

    /// Lays the labels out afresh over the area of `available` size whose top
    /// left corner is `origin`.
    fn render(&mut self, origin: Point, available: Size)
        ensures
            final(self).labels() == old(self).labels_over(origin, available),
    ;

    /// Where `label` lies, if it is one of the labels laid out.
    fn get_label_position(&self, label: &str) -> (position: Option<Point>)
        ensures
            position == (if self.labels().contains_key(label@) {
                Some(self.labels()[label@])
            } else {
                None
            }),
    ;

    /// Interprets one frame of input. The labels stay as they are.
    fn await_key(&mut self, input: &Input) -> (result: KeyResult)
        ensures
            result == old(self).key_result(*input),
            final(self).labels() == old(self).labels(),
    ;
}

/// At fast speed a step in any direction is ten times the step at normal
/// speed.
pub proof fn lemma_fast_scales_normal(direction: Direction)
    ensures
        Speed::Normal.spec_magnitude() == 1,
        Speed::Fast.spec_magnitude() == 10 * Speed::Normal.spec_magnitude(),
        direction.dx() * Speed::Fast.spec_magnitude() == 10 * (direction.dx()
            * Speed::Normal.spec_magnitude()),
        direction.dy() * Speed::Fast.spec_magnitude() == 10 * (direction.dy()
            * Speed::Normal.spec_magnitude()),
{
}

/// A direction is found again from its two components, and one of them is
/// not zero.
pub proof fn lemma_direction_components(direction: Direction)
    ensures
        Direction::from_components(direction.dx(), direction.dy()) == Some(direction),
        direction.dx() != 0 || direction.dy() != 0,
{
}

} // verus!
