//! The engine's laws: convergence is a fixed point that lands exactly on
//! the target, the endpoints of the factor range reproduce the target and
//! the source, and widening the margin never loses convergence.

use vstd::prelude::*;

use crate::lerp::blend_cmd;
use crate::lerp::cmd_snaps;
use crate::lerp::lerp_cmd;
use crate::lerp::lerp_path_snaps;
use crate::lerp::lerp_path_spec;
use crate::lerp::lerp_seq;
use crate::lerp::lemma_snapped_seq_is_target;
use crate::lerp::pad_with;
use crate::lerp::rank_max;
use crate::lerp::seq_snaps;
use crate::lerp::source_filler;
use crate::lerp::target_filler;
use crate::path::cmd_ctrl1;
use crate::path::cmd_ctrl2;
use crate::path::cmd_entry;
use crate::path::cmd_exit;
use crate::path::wf_path;
use crate::path::PathCommand;
use crate::point::checked_lerp_pt;
use crate::point::point_snaps;
use crate::point::lemma_point_at_zero;
use crate::point::lemma_point_snaps_at_one;
use crate::point::lemma_point_snaps_monotone;
use crate::point::lemma_point_snaps_self;
use crate::point::within_margin;

verus! {

/// A command pair snaps against itself: every point pair is at distance
/// zero, whatever the factor and margin.
pub proof fn lemma_cmd_snaps_self(c: PathCommand, num: int, den: int, margin: int)
    requires
        1 <= den,
        0 <= num <= den,
        0 <= margin,
    ensures
        cmd_snaps(c, c, num, den, margin),
        lerp_cmd(c, c, num, den, margin) == c,
{
    lemma_point_snaps_self(cmd_entry(c), num, den, margin);
    lemma_point_snaps_self(cmd_exit(c), num, den, margin);
    lemma_point_snaps_self(cmd_ctrl1(c), num, den, margin);
    lemma_point_snaps_self(cmd_ctrl2(c), num, den, margin);
}

/// At factor 1 every point pair lands exactly on its target, so every
/// command pair snaps.
pub proof fn lemma_cmd_snaps_at_one(a: PathCommand, b: PathCommand, den: int, margin: int)
    requires
        1 <= den,
        0 <= margin,
    ensures
        cmd_snaps(a, b, den, den, margin),
        lerp_cmd(a, b, den, den, margin) == b,
{
    lemma_point_snaps_at_one(cmd_entry(a), cmd_entry(b), den, margin);
    lemma_point_snaps_at_one(cmd_exit(a), cmd_exit(b), den, margin);
    lemma_point_snaps_at_one(cmd_ctrl1(a), cmd_ctrl1(b), den, margin);
    lemma_point_snaps_at_one(cmd_ctrl2(a), cmd_ctrl2(b), den, margin);
}

/// The same drawing shape: the same variant, and for `End` the same
/// closed mark.
pub open spec fn same_shape(a: PathCommand, b: PathCommand) -> bool {
    match (a, b) {
        (PathCommand::Start { .. }, PathCommand::Start { .. }) => true,
        (PathCommand::Line { .. }, PathCommand::Line { .. }) => true,
        (PathCommand::Quadratic { .. }, PathCommand::Quadratic { .. }) => true,
        (PathCommand::Cubic { .. }, PathCommand::Cubic { .. }) => true,
        (
            PathCommand::End { closed: ca, .. },
            PathCommand::End { closed: cb, .. },
        ) => ca == cb,
        _ => false,
    }
}

/// Every point the interpolated command will use still lies beyond the
/// margin of its target.
pub open spec fn cmd_apart(a: PathCommand, b: PathCommand, margin: int) -> bool {
    &&& !within_margin(cmd_entry(a), cmd_entry(b), margin)
    &&& (rank_max(a, b) >= 1 ==> !within_margin(cmd_exit(a), cmd_exit(b), margin))
    &&& (rank_max(a, b) >= 2 ==> !within_margin(cmd_ctrl1(a), cmd_ctrl1(b), margin))
    &&& (rank_max(a, b) >= 3 ==> !within_margin(cmd_ctrl2(a), cmd_ctrl2(b), margin))
}

/// At factor 0 a command pair of the same shape whose points are all
/// beyond the margin reproduces the source command exactly.
pub proof fn lemma_cmd_at_zero(a: PathCommand, b: PathCommand, den: int, margin: int)
    requires
        1 <= den,
        0 <= margin,
        same_shape(a, b),
        cmd_apart(a, b, margin),
    ensures
        !cmd_snaps(a, b, 0, den, margin),
        lerp_cmd(a, b, 0, den, margin) == a,
{
    lemma_point_at_zero(cmd_entry(a), cmd_entry(b), den, margin);
    lemma_point_at_zero(cmd_exit(a), cmd_exit(b), den, margin);
    lemma_point_at_zero(cmd_ctrl1(a), cmd_ctrl1(b), den, margin);
    lemma_point_at_zero(cmd_ctrl2(a), cmd_ctrl2(b), den, margin);
    assert(blend_cmd(a, b, 0, den, margin) == a);
}

/// Widening the margin never loses the snap of a command pair.
pub proof fn lemma_cmd_snaps_monotone(
    a: PathCommand,
    b: PathCommand,
    num: int,
    den: int,
    m1: int,
    m2: int,
)
    requires
        0 <= m1 <= m2,
        cmd_snaps(a, b, num, den, m1),
    ensures
        cmd_snaps(a, b, num, den, m2),
{
    lemma_point_snaps_monotone(cmd_entry(a), cmd_entry(b), num, den, m1, m2);
    if rank_max(a, b) >= 1 {
        lemma_point_snaps_monotone(cmd_exit(a), cmd_exit(b), num, den, m1, m2);
    }
    if rank_max(a, b) >= 2 {
        lemma_point_snaps_monotone(cmd_ctrl1(a), cmd_ctrl1(b), num, den, m1, m2);
    }
    if rank_max(a, b) >= 3 {
        lemma_point_snaps_monotone(cmd_ctrl2(a), cmd_ctrl2(b), num, den, m1, m2);
    }
}

/// Convergence idempotence: once a morph tick of `a` toward `b` reports
/// convergence, its result is exactly `b`; feeding that result back as
/// the source with the same target, factor and margin converges again
/// and leaves the path unchanged.  The converged state is a fixed point.
pub proof fn lemma_convergence_idempotent(
    a: Seq<PathCommand>,
    b: Seq<PathCommand>,
    num: int,
    den: int,
    margin: int,
)
    requires
        1 <= den,
        0 <= num <= den,
        0 <= margin,
        1 <= a.len(),
        1 <= b.len(),
        lerp_path_snaps(a, b, num, den, margin),
    ensures
        lerp_path_spec(a, b, num, den, margin) == b,
        lerp_path_snaps(b, b, num, den, margin),
        lerp_path_spec(b, b, num, den, margin) == b,
{
    if a.len() == b.len() {
        lemma_snapped_seq_is_target(a, b, num, den, margin);
    } else if a.len() < b.len() {
        lemma_snapped_seq_is_target(
            pad_with(a, source_filler(a), b.len() - a.len()),
            b,
            num,
            den,
            margin,
        );
    }
    assert forall|i: int| 0 <= i < b.len() implies #[trigger] cmd_snaps(
        b[i],
        b[i],
        num,
        den,
        margin,
    ) by {
        lemma_cmd_snaps_self(b[i], num, den, margin);
    }
    lemma_snapped_seq_is_target(b, b, num, den, margin);
}

/// At factor 1 the equal-length merge reproduces the target exactly and
/// reports convergence.
pub proof fn lemma_equal_lerp_at_one(
    a: Seq<PathCommand>,
    b: Seq<PathCommand>,
    den: int,
    margin: int,
)
    requires
        a.len() == b.len(),
        1 <= den,
        0 <= margin,
    ensures
        seq_snaps(a, b, den, den, margin),
        lerp_seq(a, b, den, den, margin) == b,
{
    assert forall|i: int| 0 <= i < a.len() implies #[trigger] cmd_snaps(
        a[i],
        b[i],
        den,
        den,
        margin,
    ) by {
        lemma_cmd_snaps_at_one(a[i], b[i], den, margin);
    }
    lemma_snapped_seq_is_target(a, b, den, den, margin);
}

/// At factor 0 the equal-length merge reproduces the source exactly,
/// provided the pairs share their shapes and no point pair is already
/// within the margin (a pair within the margin snaps onto the target
/// instead, by design).
pub proof fn lemma_equal_lerp_at_zero(
    a: Seq<PathCommand>,
    b: Seq<PathCommand>,
    den: int,
    margin: int,
)
    requires
        a.len() == b.len(),
        1 <= den,
        0 <= margin,
        forall|i: int|
            0 <= i < a.len() ==> #[trigger] same_shape(a[i], b[i]) && cmd_apart(
                a[i],
                b[i],
                margin,
            ),
    ensures
        lerp_seq(a, b, 0, den, margin) == a,
{
    assert forall|i: int| 0 <= i < a.len() implies #[trigger] lerp_cmd(a[i], b[i], 0, den, margin)
        == a[i] by {
        lemma_cmd_at_zero(a[i], b[i], den, margin);
    }
    assert(lerp_seq(a, b, 0, den, margin) =~= a);
}

/// A full step converges at once: at factor 1 a single morph tick lands
/// exactly on the target, whatever the two command counts.  With the
/// fixed point of [`lemma_convergence_idempotent`] this witnesses that
/// repeated ticks reach the target's command count.
pub proof fn lemma_full_step_converges(
    a: Seq<PathCommand>,
    b: Seq<PathCommand>,
    den: int,
    margin: int,
)
    requires
        1 <= den,
        0 <= margin,
        1 <= a.len(),
        1 <= b.len(),
    ensures
        lerp_path_snaps(a, b, den, den, margin),
        lerp_path_spec(a, b, den, den, margin) == b,
{
    if a.len() == b.len() {
        lemma_equal_lerp_at_one(a, b, den, margin);
    } else if a.len() < b.len() {
        lemma_equal_lerp_at_one(pad_with(a, source_filler(a), b.len() - a.len()), b, den, margin);
    } else {
        let bp = pad_with(b, target_filler(b), a.len() - b.len());
        assert forall|i: int| 0 <= i < a.len() implies #[trigger] cmd_snaps(
            a[i],
            bp[i],
            den,
            den,
            margin,
        ) by {
            lemma_cmd_snaps_at_one(a[i], bp[i], den, margin);
        }
    }
}

/// A blended command begins at the checked lerp of the pair's entry
/// points and ends at the checked lerp of its exit points; a pair of
/// rank 0 is two `Start` commands, whose entry and exit coincide.
proof fn lemma_blend_entry_exit(a: PathCommand, b: PathCommand, num: int, den: int, margin: int)
    ensures
        cmd_entry(blend_cmd(a, b, num, den, margin)) == checked_lerp_pt(
            cmd_entry(a),
            cmd_entry(b),
            num,
            den,
            margin,
        ),
        rank_max(a, b) >= 1 ==> cmd_exit(blend_cmd(a, b, num, den, margin)) == checked_lerp_pt(
            cmd_exit(a),
            cmd_exit(b),
            num,
            den,
            margin,
        ),
        rank_max(a, b) == 0 ==> a is Start && b is Start,
{
}

/// Adjacent command pairs that share their endpoints on both the source
/// and the target side interpolate to commands that share theirs: the
/// shared point pair is lerped once, whether or not either command
/// snapped as a whole.
proof fn lemma_cmd_joint(
    a1: PathCommand,
    b1: PathCommand,
    a2: PathCommand,
    b2: PathCommand,
    num: int,
    den: int,
    margin: int,
)
    requires
        cmd_exit(a1) == cmd_entry(a2),
        cmd_exit(b1) == cmd_entry(b2),
    ensures
        cmd_exit(lerp_cmd(a1, b1, num, den, margin)) == cmd_entry(
            lerp_cmd(a2, b2, num, den, margin),
        ),
{
    lemma_blend_entry_exit(a1, b1, num, den, margin);
    lemma_blend_entry_exit(a2, b2, num, den, margin);
    if cmd_snaps(a1, b1, num, den, margin) {
        // the first result is its target; the shared point pair snapped,
        // so a blended neighbour's entry is that same target point
        assert(point_snaps(cmd_exit(a1), cmd_exit(b1), num, den, margin));
    }
    if cmd_snaps(a2, b2, num, den, margin) {
        // the second result is its target; the shared point pair
        // snapped, so a blended neighbour's exit is that target point
        assert(point_snaps(cmd_entry(a2), cmd_entry(b2), num, den, margin));
    }
}

/// The interpolated command keeps the structural place of its pair: a
/// pair of `Start`s yields a `Start`, a pair of `End`s an `End`, and a
/// pair of segment commands never yields either.
proof fn lemma_lerp_cmd_shape(a: PathCommand, b: PathCommand, num: int, den: int, margin: int)
    ensures
        a is Start && b is Start ==> lerp_cmd(a, b, num, den, margin) is Start,
        a is End && b is End ==> lerp_cmd(a, b, num, den, margin) is End,
        !(a is Start) && !(a is End) && !(b is Start) && !(b is End) ==> !(lerp_cmd(
            a,
            b,
            num,
            den,
            margin,
        ) is Start) && !(lerp_cmd(a, b, num, den, margin) is End),
{
}

/// The equal-length merge of two well-formed paths is well-formed: it
/// begins with one `Start`, ends with one `End`, and traces a single
/// connected contour closing back on its first point.
pub proof fn lemma_lerp_equal_preserves_wf(
    a: Seq<PathCommand>,
    b: Seq<PathCommand>,
    num: int,
    den: int,
    margin: int,
)
    requires
        wf_path(a),
        wf_path(b),
        a.len() == b.len(),
    ensures
        wf_path(lerp_seq(a, b, num, den, margin)),
{
    let r = lerp_seq(a, b, num, den, margin);
    lemma_lerp_cmd_shape(a[0], b[0], num, den, margin);
    lemma_lerp_cmd_shape(a[a.len() - 1], b[b.len() - 1], num, den, margin);
    assert forall|i: int| 1 <= i < r.len() - 1 implies !(#[trigger] r[i] is Start) && !(r[i]
        is End) by {
        lemma_lerp_cmd_shape(a[i], b[i], num, den, margin);
    }
    assert forall|i: int| 0 <= i < r.len() - 1 implies #[trigger] cmd_exit(r[i]) == cmd_entry(
        r[i + 1],
    ) by {
        lemma_cmd_joint(a[i], b[i], a[i + 1], b[i + 1], num, den, margin);
    }
    lemma_cmd_joint(a[a.len() - 1], b[b.len() - 1], a[0], b[0], num, den, margin);
}

/// Padding a well-formed source at its split index keeps it well-formed:
/// the zero-length stand-in segments sit exactly on the shared point of
/// the split, so the contour is unchanged.
pub proof fn lemma_pad_source_preserves_wf(s: Seq<PathCommand>, n: int)
    requires
        wf_path(s),
        0 <= n,
    ensures
        pad_with(s, source_filler(s), n).len() == s.len() + n,
        wf_path(pad_with(s, source_filler(s), n)),
{
    let mid = s.len() as int / 2;
    let f = source_filler(s);
    let p = pad_with(s, f, n);
    assert forall|i: int| 0 <= i < mid implies #[trigger] p[i] == s[i] by {}
    assert forall|i: int| mid <= i < mid + n implies #[trigger] p[i] == f by {}
    assert forall|i: int| mid + n <= i < p.len() implies #[trigger] p[i] == s[i - n] by {}
    assert(p[0] == s[0]);
    assert(p[p.len() - 1] == s[s.len() - 1]);
    assert forall|i: int| 1 <= i < p.len() - 1 implies !(#[trigger] p[i] is Start) && !(p[i]
        is End) by {
        if i < mid {
            assert(p[i] == s[i]);
        } else if i < mid + n {
            assert(p[i] == f);
        } else {
            assert(p[i] == s[i - n]);
        }
    }
    assert forall|i: int| 0 <= i < p.len() - 1 implies #[trigger] cmd_exit(p[i]) == cmd_entry(
        p[i + 1],
    ) by {
        if i + 1 < mid {
            assert(p[i] == s[i] && p[i + 1] == s[i + 1]);
        } else if i + 1 == mid {
            assert(p[i] == s[i] && cmd_exit(s[mid - 1]) == cmd_entry(s[mid]));
            if n > 0 {
                assert(p[i + 1] == f);
            } else {
                assert(p[i + 1] == s[mid]);
            }
        } else if i + 1 < mid + n {
            assert(p[i] == f && p[i + 1] == f);
        } else if i + 1 == mid + n {
            assert(p[i + 1] == s[mid]);
            if n > 0 {
                assert(p[i] == f);
            } else {
                assert(p[i] == s[mid - 1] && cmd_exit(s[mid - 1]) == cmd_entry(s[mid]));
            }
        } else {
            assert(p[i] == s[i - n] && p[i + 1] == s[i + 1 - n]);
        }
    }
    assert(cmd_exit(p[p.len() - 1]) == cmd_entry(p[0]));
}

/// A morph tick between two well-formed paths yields a well-formed path
/// whenever the source does not outnumber the target.  (While a longer
/// source shrinks toward a shorter target the transient result may pass
/// through looser shapes; on convergence it is the well-formed target
/// itself, which the disjunct covers.)
pub proof fn lemma_lerp_path_wf(
    a: Seq<PathCommand>,
    b: Seq<PathCommand>,
    num: int,
    den: int,
    margin: int,
)
    requires
        wf_path(a),
        wf_path(b),
        a.len() <= b.len() || lerp_path_snaps(a, b, num, den, margin),
    ensures
        wf_path(lerp_path_spec(a, b, num, den, margin)),
{
    if a.len() == b.len() {
        lemma_lerp_equal_preserves_wf(a, b, num, den, margin);
    } else if a.len() < b.len() {
        lemma_pad_source_preserves_wf(a, b.len() - a.len());
        lemma_lerp_equal_preserves_wf(
            pad_with(a, source_filler(a), b.len() - a.len()),
            b,
            num,
            den,
            margin,
        );
    }
}

/// Monotone margin relaxation: widening the margin for a fixed source,
/// target and factor can only turn the convergence signal on, never off.
pub proof fn lemma_margin_monotone(
    a: Seq<PathCommand>,
    b: Seq<PathCommand>,
    num: int,
    den: int,
    m1: int,
    m2: int,
)
    requires
        0 <= m1 <= m2,
        lerp_path_snaps(a, b, num, den, m1),
    ensures
        lerp_path_snaps(a, b, num, den, m2),
{
    if a.len() == b.len() {
        assert forall|i: int| 0 <= i < a.len() implies #[trigger] cmd_snaps(
            a[i],
            b[i],
            num,
            den,
            m2,
        ) by {
            lemma_cmd_snaps_monotone(a[i], b[i], num, den, m1, m2);
        }
    } else if a.len() < b.len() {
        let ap = pad_with(a, source_filler(a), b.len() - a.len());
        assert forall|i: int| 0 <= i < ap.len() implies #[trigger] cmd_snaps(
            ap[i],
            b[i],
            num,
            den,
            m2,
        ) by {
            lemma_cmd_snaps_monotone(ap[i], b[i], num, den, m1, m2);
        }
    } else {
        let bp = pad_with(b, target_filler(b), a.len() - b.len());
        assert forall|i: int| 0 <= i < a.len() implies #[trigger] cmd_snaps(
            a[i],
            bp[i],
            num,
            den,
            m2,
        ) by {
            lemma_cmd_snaps_monotone(a[i], bp[i], num, den, m1, m2);
        }
    }
}

} // verus!
