use path_morph::lerp::{
    lerp_command, lerp_equal_sides, lerp_greater_sides, lerp_less_sides, lerp_path,
};
use path_morph::path::{Path, PathCommand};
use path_morph::point::{Fraction, Point};

/// One drawing unit in fixed-point sub-units.
const SCALE: f64 = 1024.0;

fn pt(x: i32, y: i32) -> Point {
    Point { x, y }
}

fn fixed(v: f64) -> i32 {
    (v * SCALE).round() as i32
}

/// A regular polygon of the given side count and radius (in drawing
/// units), centered at the origin, first vertex on top; built as the
/// demo's shape source would build it.
fn regular_polygon(sides: usize, radius: f64) -> Path {
    assert!(sides >= 3);
    let mut vertices: Vec<Point> = Vec::new();
    for k in 0..sides {
        let angle = std::f64::consts::FRAC_PI_2
            + 2.0 * std::f64::consts::PI * (k as f64) / (sides as f64);
        vertices.push(Point { x: fixed(radius * angle.cos()), y: fixed(radius * angle.sin()) });
    }
    let mut commands: Vec<PathCommand> = Vec::new();
    commands.push(PathCommand::Start { at: vertices[0] });
    for k in 0..sides - 1 {
        commands.push(PathCommand::Line { from: vertices[k], to: vertices[k + 1] });
    }
    commands.push(PathCommand::End {
        last: vertices[sides - 1],
        first: vertices[0],
        closed: true,
    });
    Path::new(commands).unwrap()
}

fn shifted(path: &Path, dx: i32, dy: i32) -> Path {
    let move_pt = |p: Point| Point { x: p.x + dx, y: p.y + dy };
    let commands = path
        .commands
        .iter()
        .map(|c| match *c {
            PathCommand::Start { at } => PathCommand::Start { at: move_pt(at) },
            PathCommand::Line { from, to } => {
                PathCommand::Line { from: move_pt(from), to: move_pt(to) }
            }
            PathCommand::Quadratic { from, control, to } => PathCommand::Quadratic {
                from: move_pt(from),
                control: move_pt(control),
                to: move_pt(to),
            },
            PathCommand::Cubic { from, control1, control2, to } => PathCommand::Cubic {
                from: move_pt(from),
                control1: move_pt(control1),
                control2: move_pt(control2),
                to: move_pt(to),
            },
            PathCommand::End { last, first, closed } => {
                PathCommand::End { last: move_pt(last), first: move_pt(first), closed }
            }
        })
        .collect();
    Path { commands }
}

#[test]
fn equal_lengths_move_pointwise() {
    // a unit square morphing toward the same square 1000 to the right,
    // by a tenth: every point moves exactly 100
    let square = Path::new(vec![
        PathCommand::Start { at: pt(0, 0) },
        PathCommand::Line { from: pt(0, 0), to: pt(100, 0) },
        PathCommand::Line { from: pt(100, 0), to: pt(100, 100) },
        PathCommand::Line { from: pt(100, 100), to: pt(0, 100) },
        PathCommand::End { last: pt(0, 100), first: pt(0, 0), closed: true },
    ])
    .unwrap();
    let target = shifted(&square, 1000, 0);
    let t = Fraction::new(1, 10).unwrap();
    let (result, converged) = lerp_equal_sides(&square, &target, t, 10);
    assert!(!converged);
    assert_eq!(result.commands, shifted(&square, 100, 0).commands);
}

#[test]
fn factor_one_reproduces_target_exactly() {
    let from = regular_polygon(4, 150.0);
    let to = shifted(&regular_polygon(4, 150.0), 12345, -777);
    let t = Fraction::new(1, 1).unwrap();
    let (result, converged) = lerp_equal_sides(&from, &to, t, 0);
    assert!(converged);
    assert_eq!(result.commands, to.commands);
}

#[test]
fn factor_zero_reproduces_source_beyond_margin() {
    let from = regular_polygon(4, 150.0);
    let to = shifted(&from, 100000, 100000);
    let t = Fraction::new(0, 1).unwrap();
    let (result, converged) = lerp_equal_sides(&from, &to, t, 10);
    assert!(!converged);
    assert_eq!(result.commands, from.commands);
}

#[test]
fn mismatched_commands_keep_the_richer_shape() {
    // a line paired against a quadratic: the line's missing control
    // point is its midpoint, and the result is a quadratic
    let a = PathCommand::Line { from: pt(0, 0), to: pt(10, 0) };
    let b = PathCommand::Quadratic { from: pt(0, 0), control: pt(100, 100), to: pt(10, 0) };
    let t = Fraction::new(1, 2).unwrap();
    let (r, converged) = lerp_command(&a, &b, t, 0);
    assert!(!converged);
    assert_eq!(
        r,
        PathCommand::Quadratic { from: pt(0, 0), control: pt(52, 50), to: pt(10, 0) }
    );
}

#[test]
fn snapped_command_is_the_target_itself() {
    let a = PathCommand::Line { from: pt(0, 0), to: pt(10, 0) };
    let b = PathCommand::Line { from: pt(2, 0), to: pt(12, 0) };
    let t = Fraction::new(1, 2).unwrap();
    let (r, converged) = lerp_command(&a, &b, t, 5);
    assert!(converged);
    assert_eq!(r, b);
}

#[test]
fn growing_shape_takes_target_count_at_once() {
    let from = regular_polygon(3, 200.0);
    let to = regular_polygon(5, 200.0);
    let t = Fraction::new(1, 10).unwrap();
    let (result, converged) = lerp_less_sides(&from, &to, t, fixed(1.0) as u32);
    assert!(!converged);
    assert_eq!(result.command_count(), to.command_count());
}

#[test]
fn shrinking_shape_keeps_padded_count_until_converged() {
    let from = regular_polygon(5, 200.0);
    let to = regular_polygon(3, 200.0);
    let t = Fraction::new(1, 10).unwrap();
    let (result, converged) = lerp_greater_sides(&from, &to, t, fixed(1.0) as u32);
    assert!(!converged);
    assert_eq!(result.command_count(), from.command_count());
}

#[test]
fn shrinking_shape_converges_to_true_target_count() {
    let from = regular_polygon(5, 200.0);
    let to = regular_polygon(3, 200.0);
    let t = Fraction::new(1, 10).unwrap();
    let margin = fixed(1.0) as u32;
    let mut current = from;
    let mut converged = false;
    for _ in 0..500 {
        let (next, done) = lerp_path(&current, &to, t, margin);
        current = next;
        if done {
            converged = true;
            break;
        }
    }
    assert!(converged);
    assert_eq!(current.commands, to.commands);
}

#[test]
fn triangle_to_pentagon_scenario() {
    // triangle and pentagon of radius 200 drawing units, factor 1/10,
    // margin one unit: the first tick already has the pentagon's command
    // count but is not converged; repeated ticks converge onto the
    // pentagon exactly
    let from = regular_polygon(3, 200.0);
    let to = regular_polygon(5, 200.0);
    let t = Fraction::new(1, 10).unwrap();
    let margin = fixed(1.0) as u32;

    let (first, converged) = lerp_path(&from, &to, t, margin);
    assert_eq!(first.command_count(), to.command_count());
    assert!(!converged);

    let mut current = first;
    let mut ticks = 0;
    loop {
        let (next, done) = lerp_path(&current, &to, t, margin);
        current = next;
        if done {
            break;
        }
        ticks += 1;
        assert!(ticks < 500, "the morph failed to converge");
    }
    assert_eq!(current.commands, to.commands);
}

#[test]
fn convergence_is_idempotent() {
    // once converged, lerping the result toward the same target with
    // the same factor and margin converges again and changes nothing
    let from = regular_polygon(3, 200.0);
    let to = regular_polygon(5, 200.0);
    let t = Fraction::new(1, 10).unwrap();
    let margin = fixed(1.0) as u32;
    let mut current = from;
    loop {
        let (next, done) = lerp_path(&current, &to, t, margin);
        current = next;
        if done {
            break;
        }
    }
    let (again, still_converged) = lerp_path(&current, &to, t, margin);
    assert!(still_converged);
    assert_eq!(again.commands, current.commands);
}

#[test]
fn widening_margin_can_only_turn_convergence_on() {
    let from = regular_polygon(4, 200.0);
    let to = shifted(&regular_polygon(4, 200.0), fixed(3.0), 0);
    let t = Fraction::new(1, 2).unwrap();
    // after a half step the points sit 1.5 units from their targets
    let (_, narrow) = lerp_path(&from, &to, t, fixed(1.0) as u32);
    let (_, wide) = lerp_path(&from, &to, t, fixed(2.0) as u32);
    assert!(!narrow);
    assert!(wide);
}

#[test]
fn degenerate_single_command_path_morphs() {
    let from = Path::from_commands(vec![PathCommand::Start { at: pt(0, 0) }]);
    let to = regular_polygon(3, 200.0);
    let t = Fraction::new(1, 10).unwrap();
    let margin = fixed(1.0) as u32;
    let (first, converged) = lerp_path(&from, &to, t, margin);
    assert!(!converged);
    assert_eq!(first.command_count(), to.command_count());
    let mut current = first;
    let mut done = false;
    for _ in 0..500 {
        let (next, now) = lerp_path(&current, &to, t, margin);
        current = next;
        if now {
            done = true;
            break;
        }
    }
    assert!(done);
    assert_eq!(current.commands, to.commands);
}

#[test]
fn full_step_converges_in_one_tick() {
    // at factor 1 a single tick lands exactly on the target, even with
    // a zero margin and across different side counts, in both directions
    let triangle = regular_polygon(3, 200.0);
    let heptagon = regular_polygon(7, 200.0);
    let t = Fraction::new(1, 1).unwrap();
    let (grown, up) = lerp_path(&triangle, &heptagon, t, 0);
    assert!(up);
    assert_eq!(grown.commands, heptagon.commands);
    let (shrunk, down) = lerp_path(&heptagon, &triangle, t, 0);
    assert!(down);
    assert_eq!(shrunk.commands, triangle.commands);
}

#[test]
fn growing_morph_results_stay_well_formed() {
    // between well-formed paths of weakly growing command count every
    // tick's result is itself a well-formed path
    let from = regular_polygon(3, 200.0);
    let to = regular_polygon(5, 200.0);
    let t = Fraction::new(1, 10).unwrap();
    let margin = fixed(1.0) as u32;
    let mut current = from;
    for _ in 0..100 {
        let (next, done) = lerp_path(&current, &to, t, margin);
        assert!(Path::new(next.commands.clone()).is_ok());
        current = next;
        if done {
            break;
        }
    }
}

#[test]
fn lerped_method_reports_flag_first() {
    let from = regular_polygon(3, 200.0);
    let to = regular_polygon(5, 200.0);
    let t = Fraction::new(1, 10).unwrap();
    let (converged, path) = from.lerped(&to, t, fixed(1.0) as u32);
    assert!(!converged);
    assert_eq!(path.command_count(), to.command_count());
}
