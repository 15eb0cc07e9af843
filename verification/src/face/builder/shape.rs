//! The basic shapes of panel lines.
//!
//! A shape is a row of points. The first coordinate of a point runs from one side to the other,
//! the second is a share of the line's height. Both are kept as fractions, so that the shapes
//! are exact; only the ring lies on a circle.

use vstd::prelude::*;

verus! {

/// A basic shape.
#[derive(Debug, Clone, Copy, PartialEq, Eq, Structural)]
pub enum Curve {
    /// Nothing is drawn.
    Nothing,
    /// A gentle arc.
    Arc,
    /// A wave with this many crests.
    Wave(u8),
    /// A slanted stroke: up to the right, or up to the left if the number is negative.
    Sweep(i8),
    /// A bend of three points.
    Vee,
    /// A hook, mirrored if the number is negative.
    Hook(i8),
    /// A closed ring.
    Ring,
    /// A stroke so short that it looks like a point.
    Dot,
    /// A closed plate; the lower side is this many thousandths of the upper one.
    Plate { taper: u32 },
    /// Three sides of a frame, open below or above.
    Bracket { down: bool },
    /// An upright stroke.
    Stroke,
    /// A rectangular wave with this many teeth.
    Teeth(u8),
}

/// A fraction.
#[derive(Debug, Clone, Copy, PartialEq, Eq, Structural)]
pub struct Ratio {
    pub num: i64,
    pub den: i64,
}

/// A point of a shape.
#[derive(Debug, Clone, Copy, PartialEq, Eq, Structural)]
pub enum CurvePoint {
    /// Across from -1 to 1, and a share of the line's height.
    At { t: Ratio, lift: Ratio },
    /// On a circle, so many of so many equal steps round.
    OnCircle { step: u32, steps: u32 },
}

/// A point given by its two fractions.
pub open spec fn at(t_num: int, t_den: int, lift_num: int, lift_den: int) -> CurvePoint {
    CurvePoint::At {
        t: Ratio { num: t_num as i64, den: t_den as i64 },
        lift: Ratio { num: lift_num as i64, den: lift_den as i64 },
    }
}

/// The sign of a direction.
pub open spec fn direction(d: i8) -> int {
    if d < 0 {
        -1
    } else {
        1
    }
}

/// At least one.
pub open spec fn at_least_one(n: u8) -> int {
    if n == 0 {
        1
    } else {
        n as int
    }
}

/// The point `i` of an arc: one parabola, `1 - t * t`.
pub open spec fn arc_point(i: int) -> CurvePoint {
    at(2 * i - 6, 6, 36 - (2 * i - 6) * (2 * i - 6), 36)
}

/// The point `i` of a wave with `n` crests: crests and troughs in turn, the crests lower
/// towards the sides, `1 - 0.45 * t * t`.
pub open spec fn wave_point(n: int, i: int) -> CurvePoint {
    at(
        i - n,
        n,
        if i % 2 == 1 {
            100 * n * n - 45 * (i - n) * (i - n)
        } else {
            0
        },
        100 * n * n,
    )
}

/// The point `i` of a slanted stroke: `0.9 * t + 0.25 * (1 - t * t)`.
pub open spec fn sweep_point(d: int, i: int) -> CurvePoint {
    at(
        2 * i - 4,
        4,
        d * (360 * (2 * i - 4) + 25 * (16 - (2 * i - 4) * (2 * i - 4))),
        1600,
    )
}

/// The four points of tooth `i` of `n`.
pub open spec fn tooth(n: int, i: int) -> Seq<CurvePoint> {
    seq![
        at(2 * i - n, n, 0, 1),
        at(2 * i - n, n, 1, 1),
        at(2 * (i + 1) - n, n, 1, 1),
        at(2 * (i + 1) - n, n, 0, 1),
    ]
}

/// The first `k` teeth of `n`.
pub open spec fn teeth(n: int, k: nat) -> Seq<CurvePoint>
    decreases k,
{
    if k == 0 {
        Seq::empty()
    } else {
        teeth(n, (k - 1) as nat) + tooth(n, k - 1)
    }
}

/// The points of a shape.
pub open spec fn shape_points(curve: Curve) -> Seq<CurvePoint> {
    match curve {
        Curve::Nothing => Seq::empty(),
        Curve::Arc => Seq::new(7, |i: int| arc_point(i)),
        Curve::Wave(n) => Seq::new(
            (2 * at_least_one(n) + 1) as nat,
            |i: int| wave_point(at_least_one(n), i),
        ),
        Curve::Sweep(d) => Seq::new(5, |i: int| sweep_point(direction(d), i)),
        Curve::Vee => seq![at(-1, 1, 0, 1), at(0, 1, -1, 1), at(1, 1, 0, 1)],
        Curve::Hook(d) => seq![
            at(direction(d) * 35, 100, 1, 1),
            at(direction(d) * 35, 100, 0, 1),
            at(-direction(d), 1, 18, 100),
        ],
        Curve::Ring => Seq::new(
            10,
            |i: int| CurvePoint::OnCircle { step: (i % 9) as u32, steps: 9 },
        ),
        Curve::Dot => seq![at(-1, 1, 0, 1), at(1, 1, 0, 1)],
        Curve::Plate { taper } => {
            let k = if taper > 1000 {
                1000
            } else {
                taper as int
            };
            seq![
                at(-1, 1, 1, 1),
                at(1, 1, 1, 1),
                at(k, 1000, -1, 1),
                at(-k, 1000, -1, 1),
                at(-1, 1, 1, 1),
            ]
        },
        Curve::Bracket { down } => {
            let d = if down {
                1int
            } else {
                -1int
            };
            seq![at(-1, 1, -d, 1), at(-1, 1, d, 1), at(1, 1, d, 1), at(1, 1, -d, 1)]
        },
        Curve::Stroke => seq![at(0, 1, 1, 1), at(0, 1, -1, 1)],
        Curve::Teeth(n) => teeth(at_least_one(n), at_least_one(n) as nat),
    }
}

fn point(t_num: i64, t_den: i64, lift_num: i64, lift_den: i64) -> (r: CurvePoint)
    ensures
        r == at(t_num as int, t_den as int, lift_num as int, lift_den as int),
{
    CurvePoint::At {
        t: Ratio { num: t_num, den: t_den },
        lift: Ratio { num: lift_num, den: lift_den },
    }
}

fn arc() -> (r: Vec<CurvePoint>)
    ensures
        r@ == shape_points(Curve::Arc),
{
    let mut out: Vec<CurvePoint> = Vec::new();
    let mut i: i64 = 0;
    while i < 7
        invariant
            0 <= i <= 7,
            out@.len() == i,
            forall|k: int| 0 <= k < i ==> #[trigger] out@[k] == arc_point(k),
        decreases 7 - i,
    {
        let k: i64 = 2 * i - 6;
        assert(0 <= k * k <= 36) by (nonlinear_arith)
            requires
                -6 <= k <= 6,
        ;
        out.push(point(k, 6, 36 - k * k, 36));
        i += 1;
    }
    assert(out@ =~= shape_points(Curve::Arc));
    out
}

fn wave(lobes: u8) -> (r: Vec<CurvePoint>)
    ensures
        r@ == shape_points(Curve::Wave(lobes)),
{
    let n: i64 = if lobes == 0 {
        1
    } else {
        lobes as i64
    };
    let mut out: Vec<CurvePoint> = Vec::new();
    let mut i: i64 = 0;
    while i < 2 * n + 1
        invariant
            n == at_least_one(lobes),
            1 <= n <= 255,
            0 <= i <= 2 * n + 1,
            out@.len() == i,
            forall|k: int| 0 <= k < i ==> #[trigger] out@[k] == wave_point(n as int, k),
        decreases 2 * n + 1 - i,
    {
        let k: i64 = i - n;
        assert(0 <= k * k <= 65025 && 0 <= n * n <= 65025) by (nonlinear_arith)
            requires
                -255 <= k <= 255,
                0 <= n <= 255,
        ;
        assert(100 * n * n == 100 * (n * n) && 45 * k * k == 45 * (k * k)) by (nonlinear_arith);
        let full: i64 = 100 * (n * n);
        let lift: i64 = if i % 2 == 1 {
            full - 45 * (k * k)
        } else {
            0
        };
        out.push(point(k, n, lift, full));
        i += 1;
    }
    assert(out@ =~= shape_points(Curve::Wave(lobes)));
    out
}

fn sweep(dir: i8) -> (r: Vec<CurvePoint>)
    ensures
        r@ == shape_points(Curve::Sweep(dir)),
{
    let d: i64 = if dir < 0 {
        -1
    } else {
        1
    };
    let mut out: Vec<CurvePoint> = Vec::new();
    let mut i: i64 = 0;
    while i < 5
        invariant
            d == direction(dir),
            d == 1 || d == -1,
            0 <= i <= 5,
            out@.len() == i,
            forall|k: int| 0 <= k < i ==> #[trigger] out@[k] == sweep_point(d as int, k),
        decreases 5 - i,
    {
        let k: i64 = 2 * i - 4;
        assert(0 <= k * k <= 16) by (nonlinear_arith)
            requires
                -4 <= k <= 4,
        ;
        let up: i64 = 360 * k + 25 * (16 - k * k);
        let lift: i64 = if d == 1 {
            up
        } else {
            -up
        };
        assert(lift == d * up) by (nonlinear_arith)
            requires
                d == 1 && lift == up || d == -1 && lift == -up,
        ;
        out.push(point(k, 4, lift, 1600));
        i += 1;
    }
    assert(out@ =~= shape_points(Curve::Sweep(dir)));
    out
}

fn ring() -> (r: Vec<CurvePoint>)
    ensures
        r@ == shape_points(Curve::Ring),
{
    let mut out: Vec<CurvePoint> = Vec::new();
    let mut i: u32 = 0;
    while i < 10
        invariant
            i <= 10,
            out@.len() == i,
            forall|k: int|
                0 <= k < i ==> #[trigger] out@[k] == (CurvePoint::OnCircle {
                    step: (k % 9) as u32,
                    steps: 9,
                }),
        decreases 10 - i,
    {
        out.push(CurvePoint::OnCircle { step: i % 9, steps: 9 });
        i += 1;
    }
    assert(out@ =~= shape_points(Curve::Ring));
    out
}

fn toothed(count: u8) -> (r: Vec<CurvePoint>)
    ensures
        r@ == shape_points(Curve::Teeth(count)),
{
    let n: i64 = if count == 0 {
        1
    } else {
        count as i64
    };
    let mut out: Vec<CurvePoint> = Vec::new();
    let mut i: i64 = 0;
    while i < n
        invariant
            n == at_least_one(count),
            1 <= n <= 255,
            0 <= i <= n,
            out@ == teeth(n as int, i as nat),
        decreases n - i,
    {
        let a: i64 = 2 * i - n;
        let b: i64 = 2 * (i + 1) - n;
        let ghost before = out@;
        out.push(point(a, n, 0, 1));
        out.push(point(a, n, 1, 1));
        out.push(point(b, n, 1, 1));
        out.push(point(b, n, 0, 1));
        assert(out@ =~= before + tooth(n as int, i as int));
        i += 1;
    }
    out
}

/// The points of a shape.
pub fn curve_points(curve: Curve) -> (r: Vec<CurvePoint>)
    ensures
        r@ == shape_points(curve),
{
    let mut out: Vec<CurvePoint> = Vec::new();
    match curve {
        Curve::Nothing => {},
        Curve::Arc => {
            return arc();
        },
        Curve::Wave(lobes) => {
            return wave(lobes);
        },
        Curve::Sweep(dir) => {
            return sweep(dir);
        },
        Curve::Vee => {
            out.push(point(-1, 1, 0, 1));
            out.push(point(0, 1, -1, 1));
            out.push(point(1, 1, 0, 1));
        },
        Curve::Hook(dir) => {
            if dir < 0 {
                out.push(point(-35, 100, 1, 1));
                out.push(point(-35, 100, 0, 1));
                out.push(point(1, 1, 18, 100));
            } else {
                out.push(point(35, 100, 1, 1));
                out.push(point(35, 100, 0, 1));
                out.push(point(-1, 1, 18, 100));
            }
        },
        Curve::Ring => {
            return ring();
        },
        Curve::Dot => {
            out.push(point(-1, 1, 0, 1));
            out.push(point(1, 1, 0, 1));
        },
        Curve::Plate { taper } => {
            let k: i64 = if taper > 1000 {
                1000
            } else {
                taper as i64
            };
            out.push(point(-1, 1, 1, 1));
            out.push(point(1, 1, 1, 1));
            out.push(point(k, 1000, -1, 1));
            out.push(point(-k, 1000, -1, 1));
            out.push(point(-1, 1, 1, 1));
        },
        Curve::Bracket { down } => {
            let d: i64 = if down {
                1
            } else {
                -1
            };
            out.push(point(-1, 1, -d, 1));
            out.push(point(-1, 1, d, 1));
            out.push(point(1, 1, d, 1));
            out.push(point(1, 1, -d, 1));
        },
        Curve::Stroke => {
            out.push(point(0, 1, 1, 1));
            out.push(point(0, 1, -1, 1));
        },
        Curve::Teeth(count) => {
            return toothed(count);
        },
    }
    assert(out@ =~= shape_points(curve));
    out
}

// ---- laws -----------------------------------------------------------------------------------

proof fn lemma_teeth(n: int, k: nat)
    requires
        1 <= n <= 255,
        k <= n,
    ensures
        teeth(n, k).len() == 4 * k,
        forall|i: int|
            0 <= i < teeth(n, k).len() ==> within_sides(#[trigger] teeth(n, k)[i]),
    decreases k,
{
    if k > 0 {
        lemma_teeth(n, (k - 1) as nat);
        let before = teeth(n, (k - 1) as nat);
        let all = teeth(n, k);
        assert forall|i: int| 0 <= i < all.len() implies within_sides(#[trigger] all[i]) by {
            if i < before.len() {
                assert(all[i] == before[i]);
            } else {
                assert(all[i] == tooth(n, k - 1)[i - before.len()]);
            }
        }
    }
}

/// Every shape that is drawn has at least two points.
pub proof fn law_every_shape_has_two_points(curve: Curve)
    requires
        curve != Curve::Nothing,
    ensures
        shape_points(curve).len() >= 2,
{
    if let Curve::Teeth(n) = curve {
        lemma_teeth(at_least_one(n), at_least_one(n) as nat);
    }
}

/// Whether a point stays between the sides.
pub open spec fn within_sides(p: CurvePoint) -> bool {
    match p {
        CurvePoint::At { t, lift } => 0 < t.den && -t.den <= t.num <= t.den && 0 < lift.den,
        CurvePoint::OnCircle { step, steps } => step < steps,
    }
}

/// No shape reaches beyond the sides.
pub proof fn law_shapes_stay_between_the_sides(curve: Curve, i: int)
    requires
        0 <= i < shape_points(curve).len(),
    ensures
        within_sides(shape_points(curve)[i]),
{
    match curve {
        Curve::Teeth(n) => {
            lemma_teeth(at_least_one(n), at_least_one(n) as nat);
        },
        Curve::Wave(n) => {
            let k = at_least_one(n);
            assert(0 < 100 * k * k <= 6502500) by (nonlinear_arith)
                requires
                    1 <= k <= 255,
            ;
        },
        _ => {},
    }
}

/// A closed shape ends where it began.
pub proof fn law_closed_shapes_are_closed(taper: u32)
    ensures
        shape_points(Curve::Ring).last() == shape_points(Curve::Ring)[0],
        shape_points(Curve::Plate { taper }).last() == shape_points(Curve::Plate { taper })[0],
{
}

/// An arc rises from one side to its top in the middle and falls to the other; of seven points
/// those as far from the middle are as high.
pub proof fn law_how_an_arc_runs(i: int)
    requires
        0 <= i < 7,
    ensures
        shape_points(Curve::Arc).len() == 7,
        shape_points(Curve::Arc)[0] == at(-6, 6, 0, 36),
        shape_points(Curve::Arc)[3] == at(0, 6, 36, 36),
        shape_points(Curve::Arc)[6] == at(6, 6, 0, 36),
        shape_points(Curve::Arc)[i] matches CurvePoint::At { t, lift } && lift.den == t.den * t.den
            && lift.num + t.num * t.num == lift.den,
{
    let k = 2 * i - 6;
    assert(0 <= k * k <= 36) by (nonlinear_arith)
        requires
            -6 <= k <= 6,
    ;
}

/// A wave has its troughs at the line and its crests between them, the highest in the middle.
pub proof fn law_how_a_wave_runs(n: u8, i: int)
    requires
        n > 0,
        0 <= i < 2 * n + 1,
    ensures
        shape_points(Curve::Wave(n)).len() == 2 * n + 1,
        i % 2 == 0 ==> (shape_points(Curve::Wave(n))[i] matches CurvePoint::At { t, lift }
            && lift.num == 0),
        i % 2 == 1 ==> (shape_points(Curve::Wave(n))[i] matches CurvePoint::At { t, lift }
            && lift.den == 100 * t.den * t.den && lift.num + 45 * t.num * t.num == lift.den
            && t.num == i - n && t.den == n),
        shape_points(Curve::Wave(0)) == shape_points(Curve::Wave(1)),
{
    let m = n as int;
    let k = i - m;
    assert(0 <= k * k <= 65025 && 0 <= m * m <= 65025) by (nonlinear_arith)
        requires
            -255 <= k <= 255,
            0 <= m <= 255,
    ;
    assert(100 * m * m == 100 * (m * m) && 45 * k * k == 45 * (k * k)) by (nonlinear_arith);
    assert(shape_points(Curve::Wave(0)) =~= shape_points(Curve::Wave(1)));
}

/// A slanted stroke rises to the right, and one to the left is the same turned over.
pub proof fn law_how_a_stroke_is_slanted(d: i8, i: int)
    requires
        0 <= i < 5,
    ensures
        shape_points(Curve::Sweep(d)).len() == 5,
        shape_points(Curve::Sweep(d))[i] matches CurvePoint::At { t, lift } && t.num == 2 * i - 4
            && t.den == 4 && lift.den == 1600,
        shape_points(Curve::Sweep(1))[0] == at(-4, 4, -1440, 1600),
        shape_points(Curve::Sweep(1))[2] == at(0, 4, 400, 1600),
        shape_points(Curve::Sweep(1))[4] == at(4, 4, 1440, 1600),
        d >= 0 ==> shape_points(Curve::Sweep(d)) == shape_points(Curve::Sweep(1)),
        d < 0 ==> (shape_points(Curve::Sweep(d))[i] matches CurvePoint::At { t, lift }
            && shape_points(Curve::Sweep(1))[i] matches CurvePoint::At { t: u, lift: up }
            && lift.num == -up.num),
{
    let k = 2 * i - 4;
    assert(0 <= k * k <= 16) by (nonlinear_arith)
        requires
            -4 <= k <= 4,
    ;
    let up = 360 * k + 25 * (16 - k * k);
    assert(-1 * up == -up && 1 * up == up) by (nonlinear_arith);
    assert(sweep_point(1, 0) == at(-4, 4, -1440, 1600)) by (nonlinear_arith);
    assert(sweep_point(1, 2) == at(0, 4, 400, 1600)) by (nonlinear_arith);
    assert(sweep_point(1, 4) == at(4, 4, 1440, 1600)) by (nonlinear_arith);
    if d >= 0 {
        assert(shape_points(Curve::Sweep(d)) =~= shape_points(Curve::Sweep(1)));
    }
}

/// How the shapes of few points run: a bend dips in the middle, a hook comes down and turns to a
/// side, a dot is a short stroke across, an upright stroke falls in the middle, a frame is open
/// below or above, and a plate goes round from its upper side to its lower one.
pub proof fn law_how_the_other_shapes_run(taper: u32)
    ensures
        shape_points(Curve::Nothing).len() == 0,
        shape_points(Curve::Vee) == seq![at(-1, 1, 0, 1), at(0, 1, -1, 1), at(1, 1, 0, 1)],
        shape_points(Curve::Dot) == seq![at(-1, 1, 0, 1), at(1, 1, 0, 1)],
        shape_points(Curve::Stroke) == seq![at(0, 1, 1, 1), at(0, 1, -1, 1)],
        shape_points(Curve::Hook(1i8)) == seq![
            at(35, 100, 1, 1),
            at(35, 100, 0, 1),
            at(-1, 1, 18, 100),
        ],
        shape_points(Curve::Hook(-1i8)) == seq![
            at(-35, 100, 1, 1),
            at(-35, 100, 0, 1),
            at(1, 1, 18, 100),
        ],
        shape_points(Curve::Bracket { down: true }) == seq![
            at(-1, 1, -1, 1),
            at(-1, 1, 1, 1),
            at(1, 1, 1, 1),
            at(1, 1, -1, 1),
        ],
        shape_points(Curve::Bracket { down: false }) == seq![
            at(-1, 1, 1, 1),
            at(-1, 1, -1, 1),
            at(1, 1, -1, 1),
            at(1, 1, 1, 1),
        ],
        taper <= 1000 ==> shape_points(Curve::Plate { taper }) == seq![
            at(-1, 1, 1, 1),
            at(1, 1, 1, 1),
            at(taper as int, 1000, -1, 1),
            at(-(taper as int), 1000, -1, 1),
            at(-1, 1, 1, 1),
        ],
        taper > 1000 ==> shape_points(Curve::Plate { taper }) == shape_points(
            Curve::Plate { taper: 1000 },
        ),
        shape_points(Curve::Ring).len() == 10,
        forall|i: int|
            0 <= i < 10 ==> #[trigger] shape_points(Curve::Ring)[i] == (CurvePoint::OnCircle {
                step: (i % 9) as u32,
                steps: 9,
            }),
{
}

/// A rectangular wave has four corners to a tooth, side by side: up, across, down, and on.
pub proof fn law_how_teeth_run(n: u8, i: int)
    requires
        n > 0,
        0 <= i < n,
    ensures
        shape_points(Curve::Teeth(n)).len() == 4 * n,
        shape_points(Curve::Teeth(n))[4 * i] == at(2 * i - n, n as int, 0, 1),
        shape_points(Curve::Teeth(n))[4 * i + 1] == at(2 * i - n, n as int, 1, 1),
        shape_points(Curve::Teeth(n))[4 * i + 2] == at(2 * (i + 1) - n, n as int, 1, 1),
        shape_points(Curve::Teeth(n))[4 * i + 3] == at(2 * (i + 1) - n, n as int, 0, 1),
{
    lemma_tooth_at(n as int, n as nat, i);
    let one = tooth(n as int, i);
    assert(shape_points(Curve::Teeth(n))[4 * i + 0] == one[0]);
    assert(shape_points(Curve::Teeth(n))[4 * i + 1] == one[1]);
    assert(shape_points(Curve::Teeth(n))[4 * i + 2] == one[2]);
    assert(shape_points(Curve::Teeth(n))[4 * i + 3] == one[3]);
}

proof fn lemma_tooth_at(n: int, k: nat, i: int)
    requires
        0 <= i < k,
    ensures
        teeth(n, k).len() == 4 * k,
        forall|j: int| 0 <= j < 4 ==> teeth(n, k)[4 * i + j] == #[trigger] tooth(n, i)[j],
    decreases k,
{
    let before = teeth(n, (k - 1) as nat);
    lemma_teeth_len(n, (k - 1) as nat);
    if i < k - 1 {
        lemma_tooth_at(n, (k - 1) as nat, i);
        assert forall|j: int| 0 <= j < 4 implies teeth(n, k)[4 * i + j] == #[trigger] tooth(n, i)[
            j
        ] by {
            assert(teeth(n, k)[4 * i + j] == before[4 * i + j]);
        }
    }
}

proof fn lemma_teeth_len(n: int, k: nat)
    ensures
        teeth(n, k).len() == 4 * k,
    decreases k,
{
    if k > 0 {
        lemma_teeth_len(n, (k - 1) as nat);
    }
}

} // verus!
