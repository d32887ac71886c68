//! The path-morphing engine: pointwise interpolation of two paths,
//! reconciliation of unequal command counts, and the convergence signal.

use vstd::prelude::*;

use crate::path::cmd_ctrl1;
use crate::path::cmd_ctrl2;
use crate::path::cmd_entry;
use crate::path::cmd_exit;
use crate::path::cmd_rank;
use crate::path::Path;
use crate::path::PathCommand;
use crate::point::checked_lerp_pt;
use crate::point::point_snaps;
use crate::point::Fraction;
use crate::point::lerp_point_checked;

verus! {

/// The richer of the two commands' ranks; the interpolated command takes
/// this shape, so no curvature information is discarded prematurely.
pub open spec fn rank_max(a: PathCommand, b: PathCommand) -> int {
    if cmd_rank(a) >= cmd_rank(b) {
        cmd_rank(a)
    } else {
        cmd_rank(b)
    }
}

/// Whether one interpolation step lands every point the produced command
/// will use within `margin` of its target: the entry point always, the
/// exit point for segment shapes, and the control points for curves.
pub open spec fn cmd_snaps(a: PathCommand, b: PathCommand, num: int, den: int, margin: int) -> bool {
    &&& point_snaps(cmd_entry(a), cmd_entry(b), num, den, margin)
    &&& (rank_max(a, b) >= 1 ==> point_snaps(cmd_exit(a), cmd_exit(b), num, den, margin))
    &&& (rank_max(a, b) >= 2 ==> point_snaps(cmd_ctrl1(a), cmd_ctrl1(b), num, den, margin))
    &&& (rank_max(a, b) >= 3 ==> point_snaps(cmd_ctrl2(a), cmd_ctrl2(b), num, den, margin))
}

/// The `closed` mark of an `End` command; `false` for every other shape.
pub open spec fn end_closed(c: PathCommand) -> bool {
    match c {
        PathCommand::End { closed, .. } => closed,
        _ => false,
    }
}

/// The interpolated command while it has not yet converged: every point
/// is checked-lerped on its own (a point that has arrived snaps to its
/// target even when the command as a whole has not), and the result
/// takes the richer shape of the pair; on equal rank the target's shape
/// wins.
pub open spec fn blend_cmd(a: PathCommand, b: PathCommand, num: int, den: int, margin: int) -> PathCommand {
    let e = checked_lerp_pt(cmd_entry(a), cmd_entry(b), num, den, margin);
    let x = checked_lerp_pt(cmd_exit(a), cmd_exit(b), num, den, margin);
    let c1 = checked_lerp_pt(cmd_ctrl1(a), cmd_ctrl1(b), num, den, margin);
    let c2 = checked_lerp_pt(cmd_ctrl2(a), cmd_ctrl2(b), num, den, margin);
    if rank_max(a, b) == 0 {
        PathCommand::Start { at: e }
    } else if rank_max(a, b) == 1 {
        if cmd_rank(b) == 1 {
            if b is End {
                PathCommand::End { last: e, first: x, closed: end_closed(b) }
            } else {
                PathCommand::Line { from: e, to: x }
            }
        } else {
            if a is End {
                PathCommand::End { last: e, first: x, closed: end_closed(a) }
            } else {
                PathCommand::Line { from: e, to: x }
            }
        }
    } else if rank_max(a, b) == 2 {
        PathCommand::Quadratic { from: e, control: c1, to: x }
    } else {
        PathCommand::Cubic { from: e, control1: c1, control2: c2, to: x }
    }
}

/// The interpolated command: exactly the target once every point it uses
/// has arrived, the blend otherwise.
pub open spec fn lerp_cmd(a: PathCommand, b: PathCommand, num: int, den: int, margin: int) -> PathCommand {
    if cmd_snaps(a, b, num, den, margin) {
        b
    } else {
        blend_cmd(a, b, num, den, margin)
    }
}

/// Pointwise interpolation of two equally long command sequences.
pub open spec fn lerp_seq(
    a: Seq<PathCommand>,
    b: Seq<PathCommand>,
    num: int,
    den: int,
    margin: int,
) -> Seq<PathCommand> {
    Seq::new(a.len(), |i: int| lerp_cmd(a[i], b[i], num, den, margin))
}

/// Whether every command pair of two equally long sequences snaps.
pub open spec fn seq_snaps(
    a: Seq<PathCommand>,
    b: Seq<PathCommand>,
    num: int,
    den: int,
    margin: int,
) -> bool {
    forall|i: int| 0 <= i < a.len() ==> #[trigger] cmd_snaps(a[i], b[i], num, den, margin)
}

/// `n` copies of one command.
pub open spec fn repeat_cmd(c: PathCommand, n: int) -> Seq<PathCommand> {
    Seq::new(n as nat, |i: int| c)
}

/// Inserts `n` copies of `c` at the split index `s.len() / 2`.
pub open spec fn pad_with(s: Seq<PathCommand>, c: PathCommand, n: int) -> Seq<PathCommand> {
    s.subrange(0, s.len() as int / 2) + repeat_cmd(c, n) + s.subrange(
        s.len() as int / 2,
        s.len() as int,
    )
}

/// The stand-in segment padded into the shorter source: a zero-length
/// line sitting on the entry point of the command at the split index, so
/// the padded path still traces the same contour.
pub open spec fn source_filler(s: Seq<PathCommand>) -> PathCommand {
    PathCommand::Line {
        from: cmd_entry(s[s.len() as int / 2]),
        to: cmd_entry(s[s.len() as int / 2]),
    }
}

/// The command repeated when the target is the shorter path: the one at
/// its split index.
pub open spec fn target_filler(s: Seq<PathCommand>) -> PathCommand {
    s[s.len() as int / 2]
}

/// The convergence signal of a whole morph tick: after reconciling the
/// command counts by padding the shorter side, every command pair snaps.
pub open spec fn lerp_path_snaps(
    a: Seq<PathCommand>,
    b: Seq<PathCommand>,
    num: int,
    den: int,
    margin: int,
) -> bool {
    if a.len() == b.len() {
        seq_snaps(a, b, num, den, margin)
    } else if a.len() < b.len() {
        seq_snaps(pad_with(a, source_filler(a), b.len() - a.len()), b, num, den, margin)
    } else {
        seq_snaps(a, pad_with(b, target_filler(b), a.len() - b.len()), num, den, margin)
    }
}

/// The path a whole morph tick produces.  While a longer source still
/// morphs toward a shorter target the padded length is kept, so the
/// extra vertices keep interpolating into place; once converged the
/// result is exactly the target, its command count included.
pub open spec fn lerp_path_spec(
    a: Seq<PathCommand>,
    b: Seq<PathCommand>,
    num: int,
    den: int,
    margin: int,
) -> Seq<PathCommand> {
    if a.len() == b.len() {
        lerp_seq(a, b, num, den, margin)
    } else if a.len() < b.len() {
        lerp_seq(pad_with(a, source_filler(a), b.len() - a.len()), b, num, den, margin)
    } else if lerp_path_snaps(a, b, num, den, margin) {
        b
    } else {
        lerp_seq(a, pad_with(b, target_filler(b), a.len() - b.len()), num, den, margin)
    }
}

/// When every command pair of two equally long sequences snaps, the
/// pointwise interpolation is exactly the target sequence.
pub proof fn lemma_snapped_seq_is_target(
    a: Seq<PathCommand>,
    b: Seq<PathCommand>,
    num: int,
    den: int,
    margin: int,
)
    requires
        a.len() == b.len(),
        seq_snaps(a, b, num, den, margin),
    ensures
        lerp_seq(a, b, num, den, margin) == b,
{
    assert(lerp_seq(a, b, num, den, margin) =~= b);
}

/// Interpolates one pair of commands point by point, reconciling
/// commands of different shapes by degrading the richer one's missing
/// control points to segment midpoints.  The flag is the conjunction of
/// the per-point flags; when it is set the result is exactly `to`.
pub fn lerp_command(from: &PathCommand, to: &PathCommand, t: Fraction, margin: u32) -> (r: (
    PathCommand,
    bool,
))
    requires
        t.valid(),
    ensures
        r.0 == lerp_cmd(*from, *to, t.num as int, t.den as int, margin as int),
        r.1 == cmd_snaps(*from, *to, t.num as int, t.den as int, margin as int),
        r.1 ==> r.0 == *to,
{
    let (e, se) = lerp_point_checked(from.entry(), to.entry(), t, margin);
    let (x, sx) = lerp_point_checked(from.exit(), to.exit(), t, margin);
    let (c1, s1) = lerp_point_checked(from.ctrl1(), to.ctrl1(), t, margin);
    let (c2, s2) = lerp_point_checked(from.ctrl2(), to.ctrl2(), t, margin);
    let ra = from.rank();
    let rb = to.rank();
    let rmax = if ra >= rb {
        ra
    } else {
        rb
    };
    let snapped = se && (rmax < 1 || sx) && (rmax < 2 || s1) && (rmax < 3 || s2);
    if snapped {
        (*to, true)
    } else if rmax == 0 {
        (PathCommand::Start { at: e }, false)
    } else if rmax == 1 {
        if rb == 1 {
            match *to {
                PathCommand::End { closed, .. } => (
                    PathCommand::End { last: e, first: x, closed },
                    false,
                ),
                _ => (PathCommand::Line { from: e, to: x }, false),
            }
        } else {
            match *from {
                PathCommand::End { closed, .. } => (
                    PathCommand::End { last: e, first: x, closed },
                    false,
                ),
                _ => (PathCommand::Line { from: e, to: x }, false),
            }
        }
    } else if rmax == 2 {
        (PathCommand::Quadratic { from: e, control: c1, to: x }, false)
    } else {
        (PathCommand::Cubic { from: e, control1: c1, control2: c2, to: x }, false)
    }
}

/// Pointwise interpolation of two paths with the same command count; the
/// flag ANDs every per-command convergence flag, and once it is set the
/// produced path is exactly `to`.
pub fn lerp_equal_sides(from: &Path, to: &Path, t: Fraction, margin: u32) -> (r: (Path, bool))
    requires
        t.valid(),
        from@.len() == to@.len(),
    ensures
        r.0@ == lerp_seq(from@, to@, t.num as int, t.den as int, margin as int),
        r.1 == seq_snaps(from@, to@, t.num as int, t.den as int, margin as int),
        r.1 ==> r.0@ == to@,
{
    let ghost num = t.num as int;
    let ghost den = t.den as int;
    let ghost m = margin as int;
    let n = from.command_count();
    let mut commands: Vec<PathCommand> = Vec::new();
    let mut all = true;
    let mut i: usize = 0;
    while i < n
        invariant
            t.valid(),
            num == t.num as int,
            den == t.den as int,
            m == margin as int,
            from@.len() == to@.len(),
            n == from@.len(),
            0 <= i <= n,
            commands@.len() == i,
            forall|j: int|
                0 <= j < i ==> commands@[j] == lerp_cmd(from@[j], to@[j], num, den, m),
            all == (forall|j: int| 0 <= j < i ==> #[trigger] cmd_snaps(from@[j], to@[j], num, den, m)),
        decreases n - i,
    {
        let fc = from.command_at(i);
        let tc = to.command_at(i);
        let (c, s) = lerp_command(&fc, &tc, t, margin);
        commands.push(c);
        all = all && s;
        i = i + 1;
    }
    let result = Path { commands };
    proof {
        assert(result@ =~= lerp_seq(from@, to@, num, den, m));
        if all {
            lemma_snapped_seq_is_target(from@, to@, num, den, m);
        }
    }
    (result, all)
}

/// Copies `commands`, inserting `extra` copies of `filler` at the split
/// index `len / 2`.
fn insert_filler(commands: &Vec<PathCommand>, filler: PathCommand, extra: usize) -> (r: Vec<
    PathCommand,
>)
    requires
        commands@.len() + extra <= usize::MAX,
    ensures
        r@ == pad_with(commands@, filler, extra as int),
{
    let len = commands.len();
    let mid = len / 2;
    let mut out: Vec<PathCommand> = Vec::new();
    let mut i: usize = 0;
    while i < mid
        invariant
            0 <= i <= mid,
            mid == commands@.len() / 2,
            out@ == commands@.subrange(0, i as int),
        decreases mid - i,
    {
        out.push(commands[i]);
        proof {
            assert(out@ =~= commands@.subrange(0, i + 1));
        }
        i = i + 1;
    }
    let mut j: usize = 0;
    while j < extra
        invariant
            0 <= j <= extra,
            mid == commands@.len() / 2,
            mid <= commands@.len(),
            out@ == commands@.subrange(0, mid as int) + repeat_cmd(filler, j as int),
        decreases extra - j,
    {
        out.push(filler);
        proof {
            assert(out@ =~= commands@.subrange(0, mid as int) + repeat_cmd(filler, j + 1));
        }
        j = j + 1;
    }
    let mut k: usize = mid;
    while k < len
        invariant
            mid <= k <= len,
            len == commands@.len(),
            mid == commands@.len() / 2,
            out@ == commands@.subrange(0, mid as int) + repeat_cmd(filler, extra as int)
                + commands@.subrange(mid as int, k as int),
        decreases len - k,
    {
        out.push(commands[k]);
        proof {
            assert(out@ =~= commands@.subrange(0, mid as int) + repeat_cmd(filler, extra as int)
                + commands@.subrange(mid as int, k + 1));
        }
        k = k + 1;
    }
    proof {
        assert(out@ =~= pad_with(commands@, filler, extra as int));
    }
    out
}

/// The executable source filler; see [`source_filler`].
fn source_filler_cmd(p: &Path) -> (r: PathCommand)
    requires
        1 <= p@.len(),
    ensures
        r == source_filler(p@),
{
    let c = p.command_at(p.command_count() / 2);
    let e = c.entry();
    PathCommand::Line { from: e, to: e }
}

/// The executable target filler; see [`target_filler`].
fn target_filler_cmd(p: &Path) -> (r: PathCommand)
    requires
        1 <= p@.len(),
    ensures
        r == target_filler(p@),
{
    p.command_at(p.command_count() / 2)
}

/// Reconciliation when the source has fewer commands: the source is
/// padded with zero-length stand-in segments at its split index, and the
/// padded pair is interpolated pointwise, so the result already has the
/// target's command count.
pub fn lerp_less_sides(from: &Path, to: &Path, t: Fraction, margin: u32) -> (r: (Path, bool))
    requires
        t.valid(),
        1 <= from@.len(),
        from@.len() < to@.len(),
    ensures
        r.0@ == lerp_seq(
            pad_with(from@, source_filler(from@), to@.len() - from@.len()),
            to@,
            t.num as int,
            t.den as int,
            margin as int,
        ),
        r.1 == seq_snaps(
            pad_with(from@, source_filler(from@), to@.len() - from@.len()),
            to@,
            t.num as int,
            t.den as int,
            margin as int,
        ),
        r.0@.len() == to@.len(),
        r.1 ==> r.0@ == to@,
{
    let extra = to.command_count() - from.command_count();
    let filler = source_filler_cmd(from);
    let padded = Path { commands: insert_filler(&from.commands, filler, extra) };
    lerp_equal_sides(&padded, to, t, margin)
}

/// Reconciliation when the target has fewer commands: the target is
/// padded with repeats of the command at its split index and the pair is
/// interpolated at the source's length.  Only once everything has
/// converged does the result shrink — to exactly the true target — so no
/// geometric information is discarded before it has interpolated into
/// place.
pub fn lerp_greater_sides(from: &Path, to: &Path, t: Fraction, margin: u32) -> (r: (Path, bool))
    requires
        t.valid(),
        1 <= to@.len(),
        to@.len() < from@.len(),
    ensures
        r.1 == seq_snaps(
            from@,
            pad_with(to@, target_filler(to@), from@.len() - to@.len()),
            t.num as int,
            t.den as int,
            margin as int,
        ),
        r.1 ==> r.0@ == to@,
        !r.1 ==> r.0@ == lerp_seq(
            from@,
            pad_with(to@, target_filler(to@), from@.len() - to@.len()),
            t.num as int,
            t.den as int,
            margin as int,
        ),
        r.0@.len() == (if r.1 {
            to@.len()
        } else {
            from@.len()
        }),
{
    let extra = from.command_count() - to.command_count();
    let filler = target_filler_cmd(to);
    let padded = Path { commands: insert_filler(&to.commands, filler, extra) };
    let (result, all) = lerp_equal_sides(from, &padded, t, margin);
    if all {
        (to.duplicate(), true)
    } else {
        (result, false)
    }
}

/// One morph tick: interpolates `from` toward `to` by the factor `t`,
/// reconciling unequal command counts, and reports whether every point
/// of the result lies within `margin` of its target.  Once the flag is
/// set the result is exactly `to` — command count included — so the
/// caller knows to advance to a new target shape.
pub fn lerp_path(from: &Path, to: &Path, t: Fraction, margin: u32) -> (r: (Path, bool))
    requires
        t.valid(),
        1 <= from@.len(),
        1 <= to@.len(),
    ensures
        r.0@ == lerp_path_spec(from@, to@, t.num as int, t.den as int, margin as int),
        r.1 == lerp_path_snaps(from@, to@, t.num as int, t.den as int, margin as int),
        r.1 ==> r.0@ == to@,
        r.0@.len() == (if r.1 || from@.len() <= to@.len() {
            to@.len()
        } else {
            from@.len()
        }),
{
    let fc = from.command_count();
    let tc = to.command_count();
    if fc == tc {
        lerp_equal_sides(from, to, t, margin)
    } else if fc < tc {
        lerp_less_sides(from, to, t, margin)
    } else {
        lerp_greater_sides(from, to, t, margin)
    }
}

impl Path {
    /// The morph tick as a method on the current path, flag first.
    pub fn lerped(&self, to: &Path, t: Fraction, margin: u32) -> (r: (bool, Path))
        requires
            t.valid(),
            1 <= self@.len(),
            1 <= to@.len(),
        ensures
            r.1@ == lerp_path_spec(self@, to@, t.num as int, t.den as int, margin as int),
            r.0 == lerp_path_snaps(self@, to@, t.num as int, t.den as int, margin as int),
            r.0 ==> r.1@ == to@,
    {
        let (path, converged) = lerp_path(self, to, t, margin);
        (converged, path)
    }
}

} // verus!
