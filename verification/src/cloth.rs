//! The cloth: a row-major grid of points joined by horizontal and
//! vertical sticks, advanced one frame at a time.
//!
//! A frame has three phases, each specified as a fold over the state:
//! phase 1 integrates every point in order (applying gravity, pointer
//! drag and tearing), phase 2 applies every stick's distance correction
//! in list order (marking overstretched sticks broken), and phase 3
//! sweeps broken sticks out of the list, renumbering the points' slot
//! references so that none dangles.

use vstd::prelude::*;
use crate::math::{
    Vector2, clamp_spec, tdiv, in_box, dist_sq_spec, isqrt_spec, isqrt, clamp_coord, tdiv128,
};
use crate::point::{Point, integrate_spec, GRAVITY_Y, MAX_DT};
use crate::stick::{Stick, wf_stick, ELASTICITY_MAX};

verus! {

/// Selection radius around the pointer, in ticks (10 length units).
pub const CURSOR_RADIUS: i64 = 10_000;

/// Velocity damping, in per-mille of velocity lost per frame.
pub const DRAG_PER_MILLE: i64 = 50;

/// The host input for one frame, as the specification sees it.
pub struct Env {
    /// Frame time-delta, in ticks of a second.
    pub dt: int,
    /// Pointer position this frame.
    pub pointer: Vector2,
    /// Left button held.
    pub left: bool,
    /// Right button held.
    pub right: bool,
    /// Pointer position the previous frame.
    pub prev_pointer: Vector2,
    /// The cloth's shared stretch tolerance.
    pub elasticity: int,
}

/// The frame input built from the arguments of `Cloth::update`.
pub open spec fn env_spec(
    dt: i64,
    pointer: Vector2,
    left: bool,
    right: bool,
    prev_pointer: Vector2,
    elasticity: i64,
) -> Env {
    Env {
        dt: dt as int,
        pointer,
        left,
        right,
        prev_pointer,
        elasticity: elasticity as int,
    }
}

/// A deformable cloth: the point grid, the stick list, and the shared
/// physics parameters.
pub struct Cloth {
    /// The mass nodes, row-major.
    pub points: Vec<Point>,
    /// The distance constraints, in creation order.
    pub sticks: Vec<Stick>,
    /// Velocity damping in per-mille; always `DRAG_PER_MILLE`.
    pub drag: i64,
    /// Stretch tolerance shared by every stick of this cloth.
    pub elasticity: i64,
}

/// A point is well formed for a cloth of `n_sticks` sticks.
pub open spec fn wf_point(p: Point, n_sticks: int) -> bool {
    &&& in_box(p.position)
    &&& in_box(p.prev_position)
    &&& in_box(p.initial_position)
    &&& match p.stick_h {
        Some(j) => j < n_sticks,
        None => true,
    }
    &&& match p.stick_v {
        Some(j) => j < n_sticks,
        None => true,
    }
}

/// Every point and stick of the state is well formed.
pub open spec fn wf_state(points: Seq<Point>, sticks: Seq<Stick>, elasticity: int) -> bool {
    &&& forall|i: int|
        0 <= i < points.len() ==> wf_point(#[trigger] points[i], sticks.len() as int)
    &&& forall|i: int|
        0 <= i < sticks.len() ==> wf_stick(#[trigger] sticks[i], points.len() as int, elasticity)
}

/// The cloth's invariant: every method of `Cloth` preserves it.
pub open spec fn wf(c: Cloth) -> bool {
    &&& c.drag == DRAG_PER_MILLE
    &&& 0 <= c.elasticity <= ELASTICITY_MAX
    &&& wf_state(c.points@, c.sticks@, c.elasticity as int)
}

/// The point lies within the selection radius of the pointer.
pub open spec fn selected_spec(p: Point, pointer: Vector2) -> bool {
    dist_sq_spec(p.position, pointer) <= CURSOR_RADIUS * CURSOR_RADIUS
}

/// Clamp a scalar into `[-lim, lim]`.
pub open spec fn clamp_to(v: int, lim: int) -> int {
    if v < -lim {
        -lim
    } else if v > lim {
        lim
    } else {
        v
    }
}

/// Horizontal force on a point: dragging only, no horizontal gravity.
pub open spec fn force_x_spec(sel: bool, env: Env) -> int {
    if sel && env.left {
        clamp_to(env.pointer.x - env.prev_pointer.x, env.elasticity) * 10000
    } else {
        0
    }
}

/// Vertical force on a point: gravity, plus dragging when selected.
pub open spec fn force_y_spec(sel: bool, env: Env) -> int {
    GRAVITY_Y + if sel && env.left {
        clamp_to(env.pointer.y - env.prev_pointer.y, env.elasticity) * 10000
    } else {
        0
    }
}

/// Mark the stick a slot refers to as broken.
pub open spec fn break_one(sticks: Seq<Stick>, slot: Option<usize>) -> Seq<Stick> {
    match slot {
        Some(j) => if j < sticks.len() {
            sticks.update(j as int, Stick { broken: true, ..sticks[j as int] })
        } else {
            sticks
        },
        None => sticks,
    }
}

/// Tearing at point `i`: both sticks the point's own slots refer to are
/// marked broken and exactly those two slots are cleared. The other
/// endpoints' slots are untouched.
pub open spec fn tear_spec(points: Seq<Point>, sticks: Seq<Stick>, i: int) -> (
    Seq<Point>,
    Seq<Stick>,
) {
    let p = points[i];
    let s1 = break_one(sticks, p.stick_h);
    let s2 = break_one(s1, p.stick_v);
    (points.update(i, Point { stick_h: None, stick_v: None, ..p }), s2)
}

/// Set the highlight flag of the stick a slot refers to.
pub open spec fn light_one(sticks: Seq<Stick>, slot: Option<usize>, sel: bool) -> Seq<Stick> {
    match slot {
        Some(j) => if j < sticks.len() {
            sticks.update(j as int, Stick { selected: sel, ..sticks[j as int] })
        } else {
            sticks
        },
        None => sticks,
    }
}

/// Propagate a point's selection state onto both of its registered
/// sticks; this happens even for pinned points.
pub open spec fn highlight_spec(sticks: Seq<Stick>, p: Point, sel: bool) -> Seq<Stick> {
    light_one(light_one(sticks, p.stick_h, sel), p.stick_v, sel)
}

/// Phase 1 at point `i`: selection test, tearing on a right-click,
/// highlight propagation, then Verlet integration under gravity and the
/// pointer drag force. Only point `i` and its registered sticks change.
pub open spec fn point_step(points: Seq<Point>, sticks: Seq<Stick>, i: int, env: Env) -> (
    Seq<Point>,
    Seq<Stick>,
) {
    let p0 = points[i];
    let sel = selected_spec(p0, env.pointer);
    let torn = sel && !env.left && env.right;
    let pts1 = if torn {
        tear_spec(points, sticks, i).0
    } else {
        points
    };
    let st1 = if torn {
        tear_spec(points, sticks, i).1
    } else {
        sticks
    };
    let p1 = pts1[i];
    let st2 = highlight_spec(st1, p1, sel);
    let p2 = integrate_spec(p1, force_x_spec(sel, env), force_y_spec(sel, env), env.dt);
    (pts1.update(i, p2), st2)
}

/// Phase 1 applied to the first `n` points, in order.
pub open spec fn phase1_to(points: Seq<Point>, sticks: Seq<Stick>, env: Env, n: int) -> (
    Seq<Point>,
    Seq<Stick>,
)
    decreases n,
{
    if n <= 0 {
        (points, sticks)
    } else {
        let prev = phase1_to(points, sticks, env, n - 1);
        point_step(prev.0, prev.1, n - 1, env)
    }
}

/// Phase 2 at stick `i`: the stick breaks if its endpoints are further
/// apart than `length·(1 + elasticity)`, and both endpoints are pulled
/// half the gap toward the rest length. Coincident endpoints (distance
/// zero) get no correction: that is this library's stated policy for the
/// degenerate geometry, where the quotient is undefined.
pub open spec fn stick_step(points: Seq<Point>, sticks: Seq<Stick>, i: int) -> (
    Seq<Point>,
    Seq<Stick>,
) {
    let s = sticks[i];
    let a = points[s.p1 as int].position;
    let b = points[s.p2 as int].position;
    let dsq = dist_sq_spec(a, b);
    let dist = isqrt_spec(dsq);
    let st1 = sticks.update(
        i,
        Stick { broken: s.broken || dist * 1000 > s.length * (1000 + s.elasticity), ..s },
    );
    if dsq == 0 {
        (points, st1)
    } else {
        let offx = tdiv((a.x - b.x) * (s.length - dist), 2 * dist);
        let offy = tdiv((a.y - b.y) * (s.length - dist), 2 * dist);
        let anew = Vector2 { x: clamp_spec(a.x + offx) as i64, y: clamp_spec(a.y + offy) as i64 };
        let bnew = Vector2 { x: clamp_spec(b.x - offx) as i64, y: clamp_spec(b.y - offy) as i64 };
        let pts1 = points.update(s.p1 as int, Point { position: anew, ..points[s.p1 as int] });
        let pts2 = pts1.update(s.p2 as int, Point { position: bnew, ..pts1[s.p2 as int] });
        (pts2, st1)
    }
}

/// Phase 2 applied to the first `n` sticks, in list order.
pub open spec fn phase2_to(points: Seq<Point>, sticks: Seq<Stick>, n: int) -> (
    Seq<Point>,
    Seq<Stick>,
)
    decreases n,
{
    if n <= 0 {
        (points, sticks)
    } else {
        let prev = phase2_to(points, sticks, n - 1);
        stick_step(prev.0, prev.1, n - 1)
    }
}

/// How many sticks of the list are marked broken.
pub open spec fn count_broken(sticks: Seq<Stick>) -> int
    decreases sticks.len(),
{
    if sticks.len() == 0 {
        0
    } else {
        count_broken(sticks.drop_last()) + if sticks.last().broken {
            1int
        } else {
            0int
        }
    }
}

/// The sticks that survive the sweep: the unbroken ones, in their
/// original order.
pub open spec fn surviving(sticks: Seq<Stick>) -> Seq<Stick>
    decreases sticks.len(),
{
    if sticks.len() == 0 {
        Seq::empty()
    } else {
        let rest = surviving(sticks.drop_last());
        if sticks.last().broken {
            rest
        } else {
            rest.push(sticks.last())
        }
    }
}

/// Where stick `j` lands after the sweep: the number of unbroken sticks
/// before it.
pub open spec fn new_index(sticks: Seq<Stick>, j: int) -> int {
    surviving(sticks.subrange(0, j)).len() as int
}

/// A slot after the sweep: cleared if its stick was removed, renumbered
/// otherwise.
pub open spec fn remap_slot(sticks: Seq<Stick>, slot: Option<usize>) -> Option<usize> {
    match slot {
        Some(j) => if j < sticks.len() && !sticks[j as int].broken {
            Some(new_index(sticks, j as int) as usize)
        } else {
            None
        },
        None => None,
    }
}

/// Phase 3 on the points: every slot cleared or renumbered.
pub open spec fn sweep_points(points: Seq<Point>, sticks: Seq<Stick>) -> Seq<Point> {
    points.map_values(
        |p: Point|
            Point {
                stick_h: remap_slot(sticks, p.stick_h),
                stick_v: remap_slot(sticks, p.stick_v),
                ..p
            },
    )
}

/// One whole frame: integrate the points, correct the sticks, sweep the
/// broken sticks out.
pub open spec fn update_spec(points: Seq<Point>, sticks: Seq<Stick>, env: Env) -> (
    Seq<Point>,
    Seq<Stick>,
) {
    let r1 = phase1_to(points, sticks, env, points.len() as int);
    let r2 = phase2_to(r1.0, r1.1, r1.1.len() as int);
    (sweep_points(r2.0, r2.1), surviving(r2.1))
}

/// Where point `i` of a `w`-wide grid lies, in ticks: column `i % w`,
/// row `i / w`, spaced `sp` length units from the `(sx, sy)` anchor.
pub open spec fn grid_pos(i: int, w: int, sp: int, sx: int, sy: int) -> Vector2 {
    Vector2 { x: ((sx + (i % w) * sp) * 1000) as i64, y: ((sy + (i / w) * sp) * 1000) as i64 }
}

/// Construction at point `i`: create the point; link it to its left
/// neighbor (registered in slot 0 of both) unless it starts a row; link
/// it to the point directly above (slot 1 of both) unless it is in the
/// top row; pin it if it is in the top row at an even column.
pub open spec fn build_step(
    pts: Seq<Point>,
    sts: Seq<Stick>,
    i: int,
    w: int,
    sp: int,
    sx: int,
    sy: int,
    e: int,
) -> (Seq<Point>, Seq<Stick>) {
    let x = i % w;
    let y = i / w;
    let pos = grid_pos(i, w, sp, sx, sy);
    let p0 = Point {
        position: pos,
        prev_position: pos,
        initial_position: pos,
        stick_h: None,
        stick_v: None,
        pinned: false,
    };
    let h = sts.len() as int;
    let pts1 = if x != 0 {
        pts.update(i - 1, Point { stick_h: Some(h as usize), ..pts[i - 1] })
    } else {
        pts
    };
    let p1 = if x != 0 {
        Point { stick_h: Some(h as usize), ..p0 }
    } else {
        p0
    };
    let sts1 = if x != 0 {
        sts.push(
            Stick {
                p1: i as usize,
                p2: (i - 1) as usize,
                length: (sp * 1000) as i64,
                elasticity: e as i64,
                selected: false,
                broken: false,
            },
        )
    } else {
        sts
    };
    let v = sts1.len() as int;
    let up = i - w;
    let pts2 = if y != 0 {
        pts1.update(up, Point { stick_v: Some(v as usize), ..pts1[up] })
    } else {
        pts1
    };
    let p2 = if y != 0 {
        Point { stick_v: Some(v as usize), ..p1 }
    } else {
        p1
    };
    let sts2 = if y != 0 {
        sts1.push(
            Stick {
                p1: i as usize,
                p2: up as usize,
                length: (sp * 1000) as i64,
                elasticity: e as i64,
                selected: false,
                broken: false,
            },
        )
    } else {
        sts1
    };
    let p3 = if y == 0 && x % 2 == 0 {
        Point { pinned: true, ..p2 }
    } else {
        p2
    };
    (pts2.push(p3), sts2)
}

/// The first `i` points of the grid, with their sticks, in creation
/// order.
pub open spec fn build_to(i: int, w: int, sp: int, sx: int, sy: int, e: int) -> (
    Seq<Point>,
    Seq<Stick>,
)
    decreases i,
{
    if i <= 0 {
        (Seq::empty(), Seq::empty())
    } else {
        let prev = build_to(i - 1, w, sp, sx, sy, e);
        build_step(prev.0, prev.1, i - 1, w, sp, sx, sy, e)
    }
}

/// What the host draws for one stick: its endpoints' positions and its
/// highlight and broken flags.
#[derive(Clone, Copy, PartialEq, Eq, Debug)]
pub struct Segment {
    /// Position of the stick's first endpoint.
    pub a: Vector2,
    /// Position of the stick's second endpoint.
    pub b: Vector2,
    /// The stick is highlighted by the pointer.
    pub selected: bool,
    /// The stick broke this frame and has not been swept yet.
    pub broken: bool,
}

/// The segment a stick contributes to the render data.
pub open spec fn segment_of(points: Seq<Point>, s: Stick) -> Segment {
    Segment {
        a: points[s.p1 as int].position,
        b: points[s.p2 as int].position,
        selected: s.selected,
        broken: s.broken,
    }
}

impl Cloth {
    /// Tear at point `i`: mark the sticks in both of its slots broken
    /// and clear the slots. The complementary endpoints keep their
    /// references; the end-of-frame sweep renumbers or clears them.
    pub fn break_sticks(&mut self, i: usize)
        requires
            wf(*old(self)),
            i < old(self).points@.len(),
        ensures
            final(self).points@ == tear_spec(old(self).points@, old(self).sticks@, i as int).0,
            final(self).sticks@ == tear_spec(old(self).points@, old(self).sticks@, i as int).1,
            final(self).drag == old(self).drag,
            final(self).elasticity == old(self).elasticity,
            wf(*final(self)),
    {
        let p = self.points[i];
        if let Some(j) = p.stick_h {
            let mut s = self.sticks[j];
            s.broken = true;
            self.sticks[j] = s;
        }
        if let Some(j) = p.stick_v {
            let mut s = self.sticks[j];
            s.broken = true;
            self.sticks[j] = s;
        }
        let mut cleared = self.points[i];
        cleared.stick_h = None;
        cleared.stick_v = None;
        self.points[i] = cleared;
        proof {
            assert(self.points@ =~= tear_spec(old(self).points@, old(self).sticks@, i as int).0);
            assert(self.sticks@ =~= tear_spec(old(self).points@, old(self).sticks@, i as int).1);
        }
    }

    /// Apply stick `i`'s breakage test and distance correction.
    fn apply_constraint(&mut self, i: usize)
        requires
            wf(*old(self)),
            i < old(self).sticks@.len(),
        ensures
            final(self).points@ == stick_step(old(self).points@, old(self).sticks@, i as int).0,
            final(self).sticks@ == stick_step(old(self).points@, old(self).sticks@, i as int).1,
            final(self).drag == old(self).drag,
            final(self).elasticity == old(self).elasticity,
            wf(*final(self)),
    {
        let s = self.sticks[i];
        let a = self.points[s.p1].position;
        let b = self.points[s.p2].position;
        let dxx: i64 = a.x - b.x;
        let dyy: i64 = a.y - b.y;
        let dx128: i128 = dxx as i128;
        let dy128: i128 = dyy as i128;
        proof {
            assert(0 <= (dx128 as int) * (dx128 as int) <= 4_000_000_000_000_000_000
                && 0 <= (dy128 as int) * (dy128 as int) <= 4_000_000_000_000_000_000)
                by (nonlinear_arith)
                requires
                    -2_000_000_000 <= dx128 <= 2_000_000_000,
                    -2_000_000_000 <= dy128 <= 2_000_000_000,
            ;
        }
        let dsq128: i128 = dx128 * dx128 + dy128 * dy128;
        let dsq: u64 = dsq128 as u64;
        let dist: u64 = isqrt(dsq);
        proof {
            assert((dist as int) <= 3_000_000_000) by (nonlinear_arith)
                requires
                    0 <= dist,
                    (dist as int) * (dist as int) <= 8_000_000_000_000_000_000,
            ;
            assert(0 <= (s.length as int) * (1000 + s.elasticity as int)
                <= 2_000_000_000_000_000_000) by (nonlinear_arith)
                requires
                    0 <= s.length <= 1_000_000_000,
                    0 <= s.elasticity <= 1_000_000,
            ;
        }
        let lhs: i128 = (dist as i128) * 1000;
        let rhs: i128 = (s.length as i128) * (1000 + (s.elasticity as i128));
        if lhs > rhs {
            let mut sm = self.sticks[i];
            sm.broken = true;
            self.sticks[i] = sm;
        }
        if dsq != 0 {
            proof {
                assert(dist >= 1) by {
                    if dist == 0 {
                        assert((dsq as int) < (0 + 1) * (0 + 1));
                    }
                }
            }
            let ld: i128 = (s.length as i128) - (dist as i128);
            let den: i128 = 2 * (dist as i128);
            proof {
                assert(-16_000_000_000_000_000_000
                    <= (dx128 as int) * (ld as int)
                    <= 16_000_000_000_000_000_000
                    && -16_000_000_000_000_000_000
                    <= (dy128 as int) * (ld as int)
                    <= 16_000_000_000_000_000_000) by (nonlinear_arith)
                    requires
                        -2_000_000_000 <= dx128 <= 2_000_000_000,
                        -2_000_000_000 <= dy128 <= 2_000_000_000,
                        -4_000_000_000 <= ld <= 4_000_000_000,
                ;
            }
            let offx: i128 = tdiv128(dx128 * ld, den);
            let offy: i128 = tdiv128(dy128 * ld, den);
            let mut pa = self.points[s.p1];
            pa.position = Vector2 {
                x: clamp_coord((a.x as i128) + offx),
                y: clamp_coord((a.y as i128) + offy),
            };
            self.points[s.p1] = pa;
            let mut pb = self.points[s.p2];
            pb.position = Vector2 {
                x: clamp_coord((b.x as i128) - offx),
                y: clamp_coord((b.y as i128) - offy),
            };
            self.points[s.p2] = pb;
        }
        proof {
            assert(self.points@ =~= stick_step(old(self).points@, old(self).sticks@, i as int).0);
            assert(self.sticks@ =~= stick_step(old(self).points@, old(self).sticks@, i as int).1);
        }
    }

    /// Sweep every broken stick out of the list, keeping the remainder
    /// in order, and renumber or clear every point's slot references so
    /// that none refers to a removed stick.
    fn remove_sticks(&mut self)
        requires
            wf(*old(self)),
        ensures
            final(self).points@ == sweep_points(old(self).points@, old(self).sticks@),
            final(self).sticks@ == surviving(old(self).sticks@),
            final(self).drag == old(self).drag,
            final(self).elasticity == old(self).elasticity,
            wf(*final(self)),
    {
        let ghost sts0 = self.sticks@;
        let ghost pts0 = self.points@;
        let m = self.sticks.len();
        let mut kept: Vec<Stick> = Vec::new();
        let mut remap: Vec<Option<usize>> = Vec::new();
        let mut j: usize = 0;
        while j < m
            invariant
                m == sts0.len(),
                self.sticks@ == sts0,
                self.points@ == pts0,
                self.drag == old(self).drag,
                self.elasticity == old(self).elasticity,
                wf(*self),
                j <= m,
                kept@ == surviving(sts0.subrange(0, j as int)),
                remap@.len() == j,
                forall|k: int|
                    0 <= k < j ==> #[trigger] remap@[k] == (if !sts0[k].broken {
                        Some(new_index(sts0, k) as usize)
                    } else {
                        None::<usize>
                    }),
                forall|k: int|
                    0 <= k < j ==> (#[trigger] remap@[k] matches Some(v) ==> v < kept@.len()),
                forall|k: int|
                    0 <= k < kept@.len() ==> wf_stick(
                        #[trigger] kept@[k],
                        pts0.len() as int,
                        old(self).elasticity as int,
                    ),
            decreases m - j,
        {
            proof {
                assert(sts0.subrange(0, j + 1).drop_last() =~= sts0.subrange(0, j as int));
                assert(sts0.subrange(0, j + 1).last() == sts0[j as int]);
            }
            if !self.sticks[j].broken {
                remap.push(Some(kept.len()));
                kept.push(self.sticks[j]);
            } else {
                remap.push(None);
            }
            j += 1;
        }
        proof {
            assert(sts0.subrange(0, m as int) =~= sts0);
        }
        self.sticks = kept;
        let np = self.points.len();
        let mut i: usize = 0;
        while i < np
            invariant
                np == pts0.len(),
                self.points@.len() == np,
                m == sts0.len(),
                self.sticks@ == surviving(sts0),
                self.drag == old(self).drag,
                self.elasticity == old(self).elasticity,
                remap@.len() == m,
                forall|k: int|
                    0 <= k < m ==> #[trigger] remap@[k] == (if !sts0[k].broken {
                        Some(new_index(sts0, k) as usize)
                    } else {
                        None::<usize>
                    }),
                forall|k: int|
                    0 <= k < m ==> (#[trigger] remap@[k] matches Some(v)
                        ==> v < self.sticks@.len()),
                forall|k: int|
                    0 <= k < self.sticks@.len() ==> wf_stick(
                        #[trigger] self.sticks@[k],
                        np as int,
                        old(self).elasticity as int,
                    ),
                i <= np,
                forall|k: int|
                    0 <= k < i ==> #[trigger] self.points@[k] == sweep_points(pts0, sts0)[k],
                forall|k: int|
                    0 <= k < i ==> wf_point(#[trigger] self.points@[k], self.sticks@.len() as int),
                forall|k: int| i <= k < np ==> #[trigger] self.points@[k] == pts0[k],
                forall|k: int|
                    i <= k < np ==> wf_point(#[trigger] self.points@[k], m as int),
            decreases np - i,
        {
            let mut p = self.points[i];
            p.stick_h = match p.stick_h {
                Some(jj) => remap[jj],
                None => None,
            };
            p.stick_v = match p.stick_v {
                Some(jj) => remap[jj],
                None => None,
            };
            self.points[i] = p;
            proof {
                assert(self.points@[i as int] == sweep_points(pts0, sts0)[i as int]);
            }
            i += 1;
        }
        proof {
            assert(self.points@ =~= sweep_points(pts0, sts0));
        }
    }

    /// Phase 1 at point `i`.
    #[verifier::rlimit(100)]
    fn pass_point(
        &mut self,
        i: usize,
        dt: i64,
        pointer: Vector2,
        left_down: bool,
        right_down: bool,
        prev_pointer: Vector2,
    )
        requires
            wf(*old(self)),
            i < old(self).points@.len(),
            0 <= dt <= MAX_DT,
            in_box(pointer),
            in_box(prev_pointer),
        ensures
            final(self).points@ == point_step(
                old(self).points@,
                old(self).sticks@,
                i as int,
                env_spec(dt, pointer, left_down, right_down, prev_pointer, old(self).elasticity),
            ).0,
            final(self).sticks@ == point_step(
                old(self).points@,
                old(self).sticks@,
                i as int,
                env_spec(dt, pointer, left_down, right_down, prev_pointer, old(self).elasticity),
            ).1,
            final(self).drag == old(self).drag,
            final(self).elasticity == old(self).elasticity,
            wf(*final(self)),
    {
        let ghost env = env_spec(dt, pointer, left_down, right_down, prev_pointer, self.elasticity);
        let ghost pts_a = self.points@;
        let ghost sts_a = self.sticks@;
        let p0 = self.points[i];
        let sdx: i64 = p0.position.x - pointer.x;
        let sdy: i64 = p0.position.y - pointer.y;
        let sx128: i128 = sdx as i128;
        let sy128: i128 = sdy as i128;
        proof {
            assert(0 <= (sx128 as int) * (sx128 as int) <= 4_000_000_000_000_000_000
                && 0 <= (sy128 as int) * (sy128 as int) <= 4_000_000_000_000_000_000)
                by (nonlinear_arith)
                requires
                    -2_000_000_000 <= sx128 <= 2_000_000_000,
                    -2_000_000_000 <= sy128 <= 2_000_000_000,
            ;
        }
        let dsq: i128 = sx128 * sx128 + sy128 * sy128;
        let sel = dsq <= 100_000_000i128;
        proof {
            assert(100_000_000i128 as int == CURSOR_RADIUS * CURSOR_RADIUS);
        }
        proof {
            assert(sel == selected_spec(p0, env.pointer));
        }
        if sel && !left_down && right_down {
            self.break_sticks(i);
        }
        let mut fx: i64 = 0;
        let mut fy: i64 = GRAVITY_Y;
        if sel && left_down {
            let ddx: i64 = pointer.x - prev_pointer.x;
            let ddy: i64 = pointer.y - prev_pointer.y;
            let e = self.elasticity;
            let cx: i64 = if ddx < -e {
                -e
            } else if ddx > e {
                e
            } else {
                ddx
            };
            let cy: i64 = if ddy < -e {
                -e
            } else if ddy > e {
                e
            } else {
                ddy
            };
            fx = cx * 10000;
            fy = GRAVITY_Y + cy * 10000;
        }
        proof {
            assert(fx == force_x_spec(sel, env));
            assert(fy == force_y_spec(sel, env));
        }
        let p1 = self.points[i];
        if let Some(j) = p1.stick_h {
            let mut sm = self.sticks[j];
            sm.selected = sel;
            self.sticks[j] = sm;
        }
        if let Some(j) = p1.stick_v {
            let mut sm = self.sticks[j];
            sm.selected = sel;
            self.sticks[j] = sm;
        }
        let mut pm = p1;
        pm.update(dt, fx, fy);
        self.points[i] = pm;
        proof {
            assert(self.points@ =~= point_step(pts_a, sts_a, i as int, env).0);
            assert(self.sticks@ =~= point_step(pts_a, sts_a, i as int, env).1);
        }
    }

    /// Advance the cloth one frame: integrate every point under gravity
    /// and the pointer (dragging when the left button is down, tearing
    /// when the right button is down), apply every stick's distance
    /// correction in list order, then sweep the broken sticks out.
    pub fn update(
        &mut self,
        dt: i64,
        pointer: Vector2,
        left_down: bool,
        right_down: bool,
        prev_pointer: Vector2,
    )
        requires
            wf(*old(self)),
            0 <= dt <= MAX_DT,
            in_box(pointer),
            in_box(prev_pointer),
        ensures
            final(self).points@ == update_spec(
                old(self).points@,
                old(self).sticks@,
                env_spec(dt, pointer, left_down, right_down, prev_pointer, old(self).elasticity),
            ).0,
            final(self).sticks@ == update_spec(
                old(self).points@,
                old(self).sticks@,
                env_spec(dt, pointer, left_down, right_down, prev_pointer, old(self).elasticity),
            ).1,
            final(self).drag == old(self).drag,
            final(self).elasticity == old(self).elasticity,
            wf(*final(self)),
    {
        let ghost env = env_spec(dt, pointer, left_down, right_down, prev_pointer, self.elasticity);
        let ghost pts0 = self.points@;
        let ghost sts0 = self.sticks@;
        let n = self.points.len();
        let mut i: usize = 0;
        while i < n
            invariant
                wf(*self),
                self.drag == old(self).drag,
                self.elasticity == old(self).elasticity,
                0 <= dt <= MAX_DT,
                in_box(pointer),
                in_box(prev_pointer),
                env == env_spec(dt, pointer, left_down, right_down, prev_pointer, self.elasticity),
                n == pts0.len(),
                self.points@.len() == n,
                i <= n,
                self.points@ == phase1_to(pts0, sts0, env, i as int).0,
                self.sticks@ == phase1_to(pts0, sts0, env, i as int).1,
            decreases n - i,
        {
            self.pass_point(i, dt, pointer, left_down, right_down, prev_pointer);
            i += 1;
        }
        let m = self.sticks.len();
        let ghost pts_b = self.points@;
        let ghost sts_b = self.sticks@;
        let mut k: usize = 0;
        while k < m
            invariant
                wf(*self),
                self.drag == old(self).drag,
                self.elasticity == old(self).elasticity,
                m == sts_b.len(),
                self.sticks@.len() == m,
                k <= m,
                self.points@ == phase2_to(pts_b, sts_b, k as int).0,
                self.sticks@ == phase2_to(pts_b, sts_b, k as int).1,
            decreases m - k,
        {
            self.apply_constraint(k);
            k += 1;
        }
        self.remove_sticks();
        proof {
            assert(pts_b == phase1_to(pts0, sts0, env, pts0.len() as int).0);
            assert(sts_b == phase1_to(pts0, sts0, env, pts0.len() as int).1);
        }
    }

    /// Build a `width x height` grid of points at integer-spaced
    /// coordinates, row-major, linked by horizontal and vertical sticks
    /// of rest length `spacing`, with every even-column point of the top
    /// row pinned. `width`, `height`, `spacing`, `start_x` and `start_y`
    /// are in length units; `elasticity` is in ticks of the rest-length
    /// fraction and is shared by every stick.
    pub fn new(
        width: i64,
        height: i64,
        spacing: i64,
        start_x: i64,
        start_y: i64,
        elasticity: i64,
    ) -> (r: Cloth)
        requires
            0 <= width <= 1_000_000,
            0 <= height <= 1_000_000,
            width * height <= 1_000_000,
            0 <= spacing,
            -1_000_000 <= start_x,
            start_x + width * spacing <= 1_000_000,
            -1_000_000 <= start_y,
            start_y + height * spacing <= 1_000_000,
            0 <= elasticity <= ELASTICITY_MAX,
        ensures
            wf(r),
            r.drag == DRAG_PER_MILLE,
            r.elasticity == elasticity,
            r.points@.len() == width * height,
            r.points@ == build_to(
                width * height,
                width as int,
                spacing as int,
                start_x as int,
                start_y as int,
                elasticity as int,
            ).0,
            r.sticks@ == build_to(
                width * height,
                width as int,
                spacing as int,
                start_x as int,
                start_y as int,
                elasticity as int,
            ).1,
    {
        let n: usize = (width * height) as usize;
        let w: usize = width as usize;
        let mut points: Vec<Point> = Vec::new();
        let mut sticks: Vec<Stick> = Vec::new();
        let mut i: usize = 0;
        while i < n
            invariant
                n == width * height,
                w == width,
                0 <= width <= 1_000_000,
                0 <= height <= 1_000_000,
                0 <= spacing,
                -1_000_000 <= start_x,
                start_x + width * spacing <= 1_000_000,
                -1_000_000 <= start_y,
                start_y + height * spacing <= 1_000_000,
                0 <= elasticity <= ELASTICITY_MAX,
                i <= n,
                points@.len() == i,
                points@ == build_to(
                    i as int,
                    width as int,
                    spacing as int,
                    start_x as int,
                    start_y as int,
                    elasticity as int,
                ).0,
                sticks@ == build_to(
                    i as int,
                    width as int,
                    spacing as int,
                    start_x as int,
                    start_y as int,
                    elasticity as int,
                ).1,
                sticks@.len() <= 2 * i,
                forall|k: int|
                    0 <= k < points@.len() ==> wf_point(#[trigger] points@[k], sticks@.len() as int),
                forall|k: int|
                    0 <= k < sticks@.len() ==> wf_stick(
                        #[trigger] sticks@[k],
                        points@.len() as int,
                        elasticity as int,
                    ),
            decreases n - i,
        {
            let ghost pts_a = points@;
            let ghost sts_a = sticks@;
            proof {
                assert(width >= 1 && height >= 1) by (nonlinear_arith)
                    requires
                        0 <= width,
                        0 <= height,
                        i < width * height,
                        0 <= i,
                ;
            }
            let x: usize = i % w;
            let y: usize = i / w;
            proof {
                vstd::arithmetic::div_mod::lemma_multiply_divide_lt(
                    i as int,
                    width as int,
                    height as int,
                );
                assert((i as int) / (width as int) < height);
                assert(0 <= (x as int) * (spacing as int) <= (width as int) * (spacing as int)
                    && 0 <= (y as int) * (spacing as int) <= (height as int) * (spacing as int))
                    by (nonlinear_arith)
                    requires
                        0 <= x < width,
                        0 <= y < height,
                        0 <= spacing,
                ;
            }
            let px: i64 = (start_x + (x as i64) * spacing) * 1000;
            let py: i64 = (start_y + (y as i64) * spacing) * 1000;
            let mut p = Point::new(Vector2 { x: px, y: py });
            if x != 0 {
                proof {
                    vstd::arithmetic::div_mod::lemma_small_mod(0nat, w as nat);
                    assert(i >= 1);
                    assert(spacing <= 1_000_000) by (nonlinear_arith)
                        requires
                            2 <= width,
                            0 <= spacing,
                            (width as int) * (spacing as int) <= 2_000_000,
                    ;
                }
                let sidx = sticks.len();
                let st = Stick::new(i, i - 1, spacing * 1000, elasticity);
                let mut lp = points[i - 1];
                lp.add_stick(sidx, 0);
                points[i - 1] = lp;
                p.add_stick(sidx, 0);
                sticks.push(st);
            }
            if y != 0 {
                proof {
                    if i < w {
                        vstd::arithmetic::div_mod::lemma_basic_div(i as int, w as int);
                    }
                    assert(i >= w);
                    assert(spacing <= 1_000_000) by (nonlinear_arith)
                        requires
                            2 <= height,
                            0 <= spacing,
                            (height as int) * (spacing as int) <= 2_000_000,
                    ;
                }
                let sidx = sticks.len();
                let up = i - w;
                let st = Stick::new(i, up, spacing * 1000, elasticity);
                let mut up_p = points[up];
                up_p.add_stick(sidx, 1);
                points[up] = up_p;
                p.add_stick(sidx, 1);
                sticks.push(st);
            }
            if y == 0 && x % 2 == 0 {
                p.pin();
            }
            points.push(p);
            proof {
                assert(points@ =~= build_step(
                    pts_a,
                    sts_a,
                    i as int,
                    width as int,
                    spacing as int,
                    start_x as int,
                    start_y as int,
                    elasticity as int,
                ).0);
                assert(sticks@ =~= build_step(
                    pts_a,
                    sts_a,
                    i as int,
                    width as int,
                    spacing as int,
                    start_x as int,
                    start_y as int,
                    elasticity as int,
                ).1);
            }
            i += 1;
        }
        Cloth { points, sticks, drag: DRAG_PER_MILLE, elasticity }
    }

    /// The render data: one segment per remaining stick, in list order.
    /// Broken sticks are swept at the end of each frame, so a caller
    /// that queries between frames sees `broken == false` throughout;
    /// the flag is still reported for callers that query mid-frame.
    pub fn draw(&self) -> (r: Vec<Segment>)
        requires
            wf(*self),
        ensures
            r@.len() == self.sticks@.len(),
            forall|i: int|
                0 <= i < r@.len() ==> #[trigger] r@[i] == segment_of(
                    self.points@,
                    self.sticks@[i],
                ),
    {
        let m = self.sticks.len();
        let mut out: Vec<Segment> = Vec::new();
        let mut i: usize = 0;
        while i < m
            invariant
                wf(*self),
                m == self.sticks@.len(),
                i <= m,
                out@.len() == i,
                forall|k: int|
                    0 <= k < i ==> #[trigger] out@[k] == segment_of(
                        self.points@,
                        self.sticks@[k],
                    ),
            decreases m - i,
        {
            let s = self.sticks[i];
            out.push(
                Segment {
                    a: self.points[s.p1].position,
                    b: self.points[s.p2].position,
                    selected: s.selected,
                    broken: s.broken,
                },
            );
            i += 1;
        }
        out
    }
}

} // verus!
