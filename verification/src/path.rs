//! The path model: drawing commands, paths, and their well-formedness.

use vstd::prelude::*;

use crate::point::lerp_pt;
use crate::point::lerp_point;
use crate::point::Fraction;
use crate::point::Point;

verus! {

/// One drawing instruction of a path.
///
/// `Start` opens a contour, `End` closes or finishes it, and the segment
/// commands each carry both of their endpoints, so every command stands on
/// its own: adjacent commands of a well-formed path repeat the shared
/// point.
#[derive(Clone, Copy, Debug, PartialEq, Eq, Structural)]
pub enum PathCommand {
    Start { at: Point },
    Line { from: Point, to: Point },
    Quadratic { from: Point, control: Point, to: Point },
    Cubic { from: Point, control1: Point, control2: Point, to: Point },
    End { last: Point, first: Point, closed: bool },
}

/// How much geometric information a command carries: cubic curves the
/// most, then quadratic curves, then straight segments (`Line` and `End`
/// both describe one), then the bare `Start`.  When two differently
/// shaped commands are interpolated, the result keeps the richer shape.
pub open spec fn cmd_rank(c: PathCommand) -> int {
    match c {
        PathCommand::Start { .. } => 0,
        PathCommand::Line { .. } => 1,
        PathCommand::End { .. } => 1,
        PathCommand::Quadratic { .. } => 2,
        PathCommand::Cubic { .. } => 3,
    }
}

/// The point where the command begins (for `End`, the end of the last
/// segment it closes off).
pub open spec fn cmd_entry(c: PathCommand) -> Point {
    match c {
        PathCommand::Start { at } => at,
        PathCommand::Line { from, .. } => from,
        PathCommand::Quadratic { from, .. } => from,
        PathCommand::Cubic { from, .. } => from,
        PathCommand::End { last, .. } => last,
    }
}

/// The point where the command ends (for `End`, the first point of the
/// contour it closes back to).
pub open spec fn cmd_exit(c: PathCommand) -> Point {
    match c {
        PathCommand::Start { at } => at,
        PathCommand::Line { to, .. } => to,
        PathCommand::Quadratic { to, .. } => to,
        PathCommand::Cubic { to, .. } => to,
        PathCommand::End { first, .. } => first,
    }
}

/// The first control point a command can offer: a command without one is
/// degraded to the midpoint of its endpoints, so that commands of
/// different shapes can still be interpolated point by point.
pub open spec fn cmd_ctrl1(c: PathCommand) -> Point {
    match c {
        PathCommand::Start { at } => at,
        PathCommand::Line { from, to } => lerp_pt(from, to, 1, 2),
        PathCommand::Quadratic { control, .. } => control,
        PathCommand::Cubic { control1, .. } => control1,
        PathCommand::End { last, first, .. } => lerp_pt(last, first, 1, 2),
    }
}

/// The second control point, degraded in the same way.
pub open spec fn cmd_ctrl2(c: PathCommand) -> Point {
    match c {
        PathCommand::Start { at } => at,
        PathCommand::Line { from, to } => lerp_pt(from, to, 1, 2),
        PathCommand::Quadratic { control, .. } => control,
        PathCommand::Cubic { control2, .. } => control2,
        PathCommand::End { last, first, .. } => lerp_pt(last, first, 1, 2),
    }
}

impl PathCommand {
    /// Executable rank; see [`cmd_rank`].
    pub fn rank(&self) -> (r: u8)
        ensures
            r as int == cmd_rank(*self),
    {
        match self {
            PathCommand::Start { .. } => 0,
            PathCommand::Line { .. } => 1,
            PathCommand::End { .. } => 1,
            PathCommand::Quadratic { .. } => 2,
            PathCommand::Cubic { .. } => 3,
        }
    }

    /// Executable entry point; see [`cmd_entry`].
    pub fn entry(&self) -> (r: Point)
        ensures
            r == cmd_entry(*self),
    {
        match *self {
            PathCommand::Start { at } => at,
            PathCommand::Line { from, .. } => from,
            PathCommand::Quadratic { from, .. } => from,
            PathCommand::Cubic { from, .. } => from,
            PathCommand::End { last, .. } => last,
        }
    }

    /// Executable exit point; see [`cmd_exit`].
    pub fn exit(&self) -> (r: Point)
        ensures
            r == cmd_exit(*self),
    {
        match *self {
            PathCommand::Start { at } => at,
            PathCommand::Line { to, .. } => to,
            PathCommand::Quadratic { to, .. } => to,
            PathCommand::Cubic { to, .. } => to,
            PathCommand::End { first, .. } => first,
        }
    }

    /// Executable first control point; see [`cmd_ctrl1`].
    pub fn ctrl1(&self) -> (r: Point)
        ensures
            r == cmd_ctrl1(*self),
    {
        match *self {
            PathCommand::Start { at } => at,
            PathCommand::Line { from, to } => lerp_point(from, to, Fraction { num: 1, den: 2 }),
            PathCommand::Quadratic { control, .. } => control,
            PathCommand::Cubic { control1, .. } => control1,
            PathCommand::End { last, first, .. } => lerp_point(
                last,
                first,
                Fraction { num: 1, den: 2 },
            ),
        }
    }

    /// Executable second control point; see [`cmd_ctrl2`].
    pub fn ctrl2(&self) -> (r: Point)
        ensures
            r == cmd_ctrl2(*self),
    {
        match *self {
            PathCommand::Start { at } => at,
            PathCommand::Line { from, to } => lerp_point(from, to, Fraction { num: 1, den: 2 }),
            PathCommand::Quadratic { control, .. } => control,
            PathCommand::Cubic { control2, .. } => control2,
            PathCommand::End { last, first, .. } => lerp_point(
                last,
                first,
                Fraction { num: 1, den: 2 },
            ),
        }
    }
}

/// Why a command sequence is not a well-formed path.
#[derive(Clone, Copy, Debug, PartialEq, Eq, Structural)]
pub enum MalformedPathError {
    /// Fewer than two commands, so it cannot hold both `Start` and `End`.
    TooShort,
    /// The first command is not `Start`.
    MissingStart,
    /// The last command is not `End`.
    MissingEnd,
    /// A `Start` or `End` stands between the first and last command.
    InteriorStartOrEnd,
    /// Two adjacent commands do not share their endpoint.
    Discontiguous,
    /// The closing command does not name the contour's first point.
    WrongFirstPoint,
}

/// A well-formed path: one contour that begins with exactly one `Start`,
/// ends with exactly one `End`, runs through segment commands that each
/// pick up where the previous one left off, and whose `End` names the
/// contour's first point.
pub open spec fn wf_path(s: Seq<PathCommand>) -> bool {
    &&& s.len() >= 2
    &&& s[0] is Start
    &&& s[s.len() - 1] is End
    &&& forall|i: int| 1 <= i < s.len() - 1 ==> !(#[trigger] s[i] is Start) && !(s[i] is End)
    &&& forall|i: int|
        0 <= i < s.len() - 1 ==> #[trigger] cmd_exit(s[i]) == cmd_entry(s[i + 1])
    &&& cmd_exit(s[s.len() - 1]) == cmd_entry(s[0])
}

/// An ordered sequence of drawing commands.  A tick of the morphing
/// engine consumes two paths and produces a brand-new one; paths are
/// never mutated in place.
#[derive(Clone, Debug, PartialEq)]
pub struct Path {
    pub commands: Vec<PathCommand>,
}

impl View for Path {
    type V = Seq<PathCommand>;

    open spec fn view(&self) -> Seq<PathCommand> {
        self.commands@
    }
}

impl Path {
    /// Builds a path after checking the well-formedness invariant, naming
    /// the first violation in command order otherwise.
    pub fn new(commands: Vec<PathCommand>) -> (r: Result<Path, MalformedPathError>)
        ensures
            r is Ok <==> wf_path(commands@),
            r is Ok ==> r->Ok_0@ == commands@,
            r is Err ==> r->Err_0 == path_error(commands@),
    {
        if commands.len() < 2 {
            return Err(MalformedPathError::TooShort);
        }
        let first_ok = match commands[0] {
            PathCommand::Start { .. } => true,
            _ => false,
        };
        if !first_ok {
            return Err(MalformedPathError::MissingStart);
        }
        let last_ok = match commands[commands.len() - 1] {
            PathCommand::End { .. } => true,
            _ => false,
        };
        if !last_ok {
            return Err(MalformedPathError::MissingEnd);
        }
        let mut i: usize = 1;
        while i < commands.len() - 1
            invariant
                1 <= i <= commands@.len() - 1,
                commands@.len() >= 2,
                commands@[0] is Start,
                commands@[commands@.len() - 1] is End,
                forall|j: int|
                    1 <= j < i ==> !(#[trigger] commands@[j] is Start) && !(commands@[j] is End),
            decreases commands@.len() - 1 - i,
        {
            let interior_bad = match commands[i] {
                PathCommand::Start { .. } => true,
                PathCommand::End { .. } => true,
                _ => false,
            };
            if interior_bad {
                proof {
                    assert(1 <= i && (i as int) < commands@.len() - 1 && (commands@[i as int]
                        is Start || commands@[i as int] is End));
                }
                return Err(MalformedPathError::InteriorStartOrEnd);
            }
            i = i + 1;
        }
        let mut i: usize = 0;
        while i < commands.len() - 1
            invariant
                0 <= i <= commands@.len() - 1,
                commands@.len() >= 2,
                commands@[0] is Start,
                commands@[commands@.len() - 1] is End,
                forall|j: int|
                    1 <= j < commands@.len() - 1 ==> !(#[trigger] commands@[j] is Start) && !(
                    commands@[j] is End),
                forall|j: int|
                    0 <= j < i ==> #[trigger] cmd_exit(commands@[j]) == cmd_entry(commands@[j + 1]),
            decreases commands@.len() - 1 - i,
        {
            let here = commands[i].exit();
            let next = commands[i + 1].entry();
            if !(here.x == next.x && here.y == next.y) {
                proof {
                    assert(0 <= i && (i as int) < commands@.len() - 1 && cmd_exit(
                        commands@[i as int],
                    ) != cmd_entry(commands@[i as int + 1]));
                }
                return Err(MalformedPathError::Discontiguous);
            }
            i = i + 1;
        }
        let closing = commands[commands.len() - 1].exit();
        let opening = commands[0].entry();
        if !(closing.x == opening.x && closing.y == opening.y) {
            return Err(MalformedPathError::WrongFirstPoint);
        }
        Ok(Path { commands })
    }

    /// Wraps commands without checking well-formedness; the morphing
    /// engine accepts any non-empty path, so transient shapes (such as a
    /// padded path mid-morph) can be represented too.
    pub fn from_commands(commands: Vec<PathCommand>) -> (r: Path)
        ensures
            r@ == commands@,
    {
        Path { commands }
    }

    /// How many commands the path holds.
    pub fn command_count(&self) -> (r: usize)
        ensures
            r == self@.len(),
    {
        self.commands.len()
    }

    /// The command at an index.
    pub fn command_at(&self, i: usize) -> (r: PathCommand)
        requires
            i < self@.len(),
        ensures
            r == self@[i as int],
    {
        self.commands[i]
    }

    /// A command-for-command copy.
    pub fn duplicate(&self) -> (r: Path)
        ensures
            r@ == self@,
    {
        let mut commands: Vec<PathCommand> = Vec::new();
        let mut i: usize = 0;
        while i < self.commands.len()
            invariant
                0 <= i <= self@.len(),
                commands@ == self@.subrange(0, i as int),
            decreases self@.len() - i,
        {
            commands.push(self.commands[i]);
            proof {
                assert(commands@ =~= self@.subrange(0, i + 1));
            }
            i = i + 1;
        }
        proof {
            assert(commands@ =~= self@);
        }
        Path { commands }
    }
}

/// The error `Path::new` reports: the first violation in the order the
/// invariant is stated.
pub open spec fn path_error(s: Seq<PathCommand>) -> MalformedPathError {
    if s.len() < 2 {
        MalformedPathError::TooShort
    } else if !(s[0] is Start) {
        MalformedPathError::MissingStart
    } else if !(s[s.len() - 1] is End) {
        MalformedPathError::MissingEnd
    } else if exists|i: int| 1 <= i < s.len() - 1 && ((#[trigger] s[i]) is Start || s[i] is End) {
        MalformedPathError::InteriorStartOrEnd
    } else if exists|i: int|
        0 <= i < s.len() - 1 && #[trigger] cmd_exit(s[i]) != cmd_entry(s[i + 1]) {
        MalformedPathError::Discontiguous
    } else {
        MalformedPathError::WrongFirstPoint
    }
}

} // verus!
