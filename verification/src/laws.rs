//! The laws of the simulation: properties that hold of every frame,
//! proved against the frame specification in `cloth`.

use vstd::prelude::*;
use crate::math::{tdiv, dist_sq_spec, isqrt_spec, lemma_isqrt_of_square, in_box};
use crate::point::{Point, integrate_spec, verlet_coord, GRAVITY_Y};
use crate::stick::Stick;
use crate::cloth::{
    Env, point_step, phase1_to, stick_step, phase2_to, count_broken, surviving, new_index,
    tear_spec, break_one, update_spec, selected_spec,
};

verus! {

/// Every stick's endpoints are indices into the point list.
pub open spec fn endpoints_ok(points: Seq<Point>, sticks: Seq<Stick>) -> bool {
    forall|j: int|
        0 <= j < sticks.len() ==> (((#[trigger] sticks[j].p1) as int) < points.len() && ((
        sticks[j].p2) as int) < points.len())
}

/// Phase 1 never changes how many points or sticks there are.
pub proof fn lemma_phase1_len(points: Seq<Point>, sticks: Seq<Stick>, env: Env, n: int)
    requires
        0 <= n <= points.len(),
    ensures
        phase1_to(points, sticks, env, n).0.len() == points.len(),
        phase1_to(points, sticks, env, n).1.len() == sticks.len(),
    decreases n,
{
    if n > 0 {
        lemma_phase1_len(points, sticks, env, n - 1);
    }
}

/// Phase 1 at point `i` leaves every other point as it was.
pub proof fn lemma_point_step_frame(
    points: Seq<Point>,
    sticks: Seq<Stick>,
    i: int,
    env: Env,
    k: int,
)
    requires
        0 <= k < points.len(),
        0 <= i < points.len(),
        k != i,
    ensures
        point_step(points, sticks, i, env).0[k] == points[k],
{
}

/// What phase 1 does to each single point: nothing before its turn;
/// at its turn, a pinned point snaps to its anchor, and an unselected
/// free point takes one exact Verlet step under gravity alone. The
/// anchor and the pin flag never change.
pub proof fn lemma_phase1_point(points: Seq<Point>, sticks: Seq<Stick>, env: Env, n: int, k: int)
    requires
        0 <= k < points.len(),
        0 <= n <= points.len(),
    ensures
        k >= n ==> phase1_to(points, sticks, env, n).0[k] == points[k],
        phase1_to(points, sticks, env, n).0[k].initial_position == points[k].initial_position,
        phase1_to(points, sticks, env, n).0[k].pinned == points[k].pinned,
        k < n && points[k].pinned ==> phase1_to(points, sticks, env, n).0[k].position
            == points[k].initial_position,
        k < n && !points[k].pinned && !selected_spec(points[k], env.pointer) ==> phase1_to(
            points,
            sticks,
            env,
            n,
        ).0[k] == integrate_spec(points[k], 0, GRAVITY_Y as int, env.dt),
    decreases n,
{
    lemma_phase1_len(points, sticks, env, n);
    if n > 0 {
        lemma_phase1_point(points, sticks, env, n - 1, k);
        lemma_phase1_len(points, sticks, env, n - 1);
        let prev = phase1_to(points, sticks, env, n - 1);
        if k == n - 1 {
            assert(prev.0[k] == points[k]);
        } else {
            lemma_point_step_frame(prev.0, prev.1, n - 1, env, k);
        }
    }
}

/// Marking a slot's stick broken changes no stick's endpoints, rest
/// length, tolerance or highlight.
pub proof fn lemma_break_one_id(sticks: Seq<Stick>, slot: Option<usize>, j: int)
    requires
        0 <= j < sticks.len(),
    ensures
        break_one(sticks, slot).len() == sticks.len(),
        break_one(sticks, slot)[j].p1 == sticks[j].p1,
        break_one(sticks, slot)[j].p2 == sticks[j].p2,
        break_one(sticks, slot)[j].length == sticks[j].length,
        break_one(sticks, slot)[j].elasticity == sticks[j].elasticity,
        break_one(sticks, slot)[j].selected == sticks[j].selected,
        sticks[j].broken ==> break_one(sticks, slot)[j].broken,
{
}

/// Phase 1 changes no stick's endpoints, rest length or tolerance, and
/// never clears a broken flag.
pub proof fn lemma_phase1_stick_id(points: Seq<Point>, sticks: Seq<Stick>, env: Env, n: int, j: int)
    requires
        0 <= j < sticks.len(),
        0 <= n <= points.len(),
    ensures
        phase1_to(points, sticks, env, n).1[j].p1 == sticks[j].p1,
        phase1_to(points, sticks, env, n).1[j].p2 == sticks[j].p2,
        phase1_to(points, sticks, env, n).1[j].length == sticks[j].length,
        phase1_to(points, sticks, env, n).1[j].elasticity == sticks[j].elasticity,
        sticks[j].broken ==> phase1_to(points, sticks, env, n).1[j].broken,
    decreases n,
{
    lemma_phase1_len(points, sticks, env, n);
    if n > 0 {
        lemma_phase1_stick_id(points, sticks, env, n - 1, j);
        lemma_phase1_len(points, sticks, env, n - 1);
        let prev = phase1_to(points, sticks, env, n - 1);
        let p0 = prev.0[n - 1];
        let sel = selected_spec(p0, env.pointer);
        let torn = sel && !env.left && env.right;
        if torn {
            lemma_break_one_id(prev.1, p0.stick_h, j);
            lemma_break_one_id(break_one(prev.1, p0.stick_h), p0.stick_v, j);
        }
    }
}

/// Phase 2 never changes how many points or sticks there are, and
/// changes nothing of a stick but its broken flag, which it never
/// clears; sticks not yet visited are untouched.
pub proof fn lemma_phase2_id(points: Seq<Point>, sticks: Seq<Stick>, n: int)
    requires
        0 <= n <= sticks.len(),
        endpoints_ok(points, sticks),
    ensures
        phase2_to(points, sticks, n).0.len() == points.len(),
        phase2_to(points, sticks, n).1.len() == sticks.len(),
        forall|j: int|
            0 <= j < sticks.len() ==> {
                let s2 = #[trigger] phase2_to(points, sticks, n).1[j];
                &&& s2.p1 == sticks[j].p1
                &&& s2.p2 == sticks[j].p2
                &&& s2.length == sticks[j].length
                &&& s2.elasticity == sticks[j].elasticity
                &&& s2.selected == sticks[j].selected
                &&& (sticks[j].broken ==> s2.broken)
                &&& (j >= n ==> s2 == sticks[j])
            },
    decreases n,
{
    if n > 0 {
        lemma_phase2_id(points, sticks, n - 1);
    }
}

/// Phase 2 leaves a point alone if no stick has it as an endpoint.
pub proof fn lemma_phase2_frame(points: Seq<Point>, sticks: Seq<Stick>, n: int, k: int)
    requires
        0 <= k < points.len(),
        0 <= n <= sticks.len(),
        endpoints_ok(points, sticks),
        forall|j: int|
            0 <= j < sticks.len() ==> (#[trigger] sticks[j].p1) as int != k && (sticks[j].p2)
                as int != k,
    ensures
        phase2_to(points, sticks, n).0[k] == points[k],
    decreases n,
{
    lemma_phase2_id(points, sticks, n);
    if n > 0 {
        lemma_phase2_frame(points, sticks, n - 1, k);
        lemma_phase2_id(points, sticks, n - 1);
    }
}

/// LAW (pinning). A pinned point that no stick holds as an endpoint
/// ends every frame exactly at its anchor. The restriction to points
/// without an incident stick is necessary: the constraint pass corrects
/// both endpoints of a stick without consulting the pin flag, so a
/// pinned endpoint of a stick away from rest length is displaced within
/// the frame and returns to its anchor at the start of the next one.
pub proof fn law_pinned_point_anchored(points: Seq<Point>, sticks: Seq<Stick>, env: Env, k: int)
    requires
        0 <= k < points.len(),
        points[k].pinned,
        endpoints_ok(points, sticks),
        forall|j: int|
            0 <= j < sticks.len() ==> (#[trigger] sticks[j].p1) as int != k && (sticks[j].p2)
                as int != k,
    ensures
        update_spec(points, sticks, env).0[k].position == points[k].initial_position,
{
    let n = points.len() as int;
    lemma_phase1_point(points, sticks, env, n, k);
    lemma_phase1_len(points, sticks, env, n);
    let r1 = phase1_to(points, sticks, env, n);
    assert forall|j: int| 0 <= j < r1.1.len() implies (#[trigger] r1.1[j].p1) as int != k
        && (r1.1[j].p2) as int != k && (((r1.1[j].p1) as int) < r1.0.len()) && (((r1.1[j].p2)
        as int) < r1.0.len()) by {
        lemma_phase1_stick_id(points, sticks, env, n, j);
    }
    lemma_phase2_frame(r1.0, r1.1, r1.1.len() as int, k);
    lemma_phase2_id(r1.0, r1.1, r1.1.len() as int);
}

/// LAW (free fall). An unpinned point outside the selection radius,
/// with no stick holding it as an endpoint, takes exactly one Verlet
/// step under gravity alone: the new position is the damped
/// extrapolation of its two last positions plus the gravity term, and
/// the previous position becomes the old position.
pub proof fn law_free_point_verlet(points: Seq<Point>, sticks: Seq<Stick>, env: Env, k: int)
    requires
        0 <= k < points.len(),
        !points[k].pinned,
        !selected_spec(points[k], env.pointer),
        endpoints_ok(points, sticks),
        forall|j: int|
            0 <= j < sticks.len() ==> (#[trigger] sticks[j].p1) as int != k && (sticks[j].p2)
                as int != k,
    ensures
        update_spec(points, sticks, env).0[k].position.x == verlet_coord(
            points[k].position.x as int,
            points[k].prev_position.x as int,
            0,
            env.dt,
        ) as i64,
        update_spec(points, sticks, env).0[k].position.y == verlet_coord(
            points[k].position.y as int,
            points[k].prev_position.y as int,
            GRAVITY_Y as int,
            env.dt,
        ) as i64,
        update_spec(points, sticks, env).0[k].prev_position == points[k].position,
{
    let n = points.len() as int;
    lemma_phase1_point(points, sticks, env, n, k);
    lemma_phase1_len(points, sticks, env, n);
    let r1 = phase1_to(points, sticks, env, n);
    assert forall|j: int| 0 <= j < r1.1.len() implies (#[trigger] r1.1[j].p1) as int != k
        && (r1.1[j].p2) as int != k && (((r1.1[j].p1) as int) < r1.0.len()) && (((r1.1[j].p2)
        as int) < r1.0.len()) by {
        lemma_phase1_stick_id(points, sticks, env, n, j);
    }
    lemma_phase2_frame(r1.0, r1.1, r1.1.len() as int, k);
    lemma_phase2_id(r1.0, r1.1, r1.1.len() as int);
}

/// LAW (overstretch marks). In the constraint pass, stick `j` comes out
/// broken exactly when it went into the frame broken or, at its own
/// visit, its endpoints were further apart than
/// `length·(1 + elasticity)` — where "at its own visit" is the state
/// after the sticks before it have already applied their corrections.
pub proof fn law_overstretch_marks(points: Seq<Point>, sticks: Seq<Stick>, j: int, m: int)
    requires
        0 <= j < m <= sticks.len(),
        endpoints_ok(points, sticks),
    ensures
        phase2_to(points, sticks, m).1[j].broken == (sticks[j].broken || {
            let at = phase2_to(points, sticks, j);
            stick_step(at.0, at.1, j).1[j].broken
        }),
    decreases m,
{
    lemma_phase2_id(points, sticks, m);
    lemma_phase2_id(points, sticks, j);
    if m == j + 1 {
    } else {
        law_overstretch_marks(points, sticks, j, m - 1);
        lemma_phase2_id(points, sticks, m - 1);
    }
}

/// LAW (sweep counts). The sweep removes exactly the broken sticks:
/// what remains is `len - count_broken` sticks, none of them broken.
pub proof fn law_sweep_count(sticks: Seq<Stick>)
    ensures
        surviving(sticks).len() + count_broken(sticks) == sticks.len(),
        forall|k: int| 0 <= k < surviving(sticks).len() ==> !(#[trigger] surviving(sticks)[k]).broken,
    decreases sticks.len(),
{
    if sticks.len() > 0 {
        law_sweep_count(sticks.drop_last());
    }
}

/// Monotone prefix counts: a longer prefix never has fewer survivors.
pub proof fn lemma_surviving_prefix_len(sticks: Seq<Stick>, a: int, b: int)
    requires
        0 <= a <= b <= sticks.len(),
    ensures
        surviving(sticks.subrange(0, a)).len() <= surviving(sticks.subrange(0, b)).len(),
    decreases b - a,
{
    if a < b {
        lemma_surviving_prefix_len(sticks, a, b - 1);
        assert(sticks.subrange(0, b).drop_last() =~= sticks.subrange(0, b - 1));
    }
}

/// LAW (sweep order). Each unbroken stick survives the sweep at its new
/// index — the count of unbroken sticks before it — unchanged; and the
/// new indices are strictly increasing, so the survivors keep their
/// relative order.
pub proof fn law_sweep_order(sticks: Seq<Stick>, j: int)
    requires
        0 <= j < sticks.len(),
        !sticks[j].broken,
    ensures
        0 <= new_index(sticks, j) < surviving(sticks).len(),
        surviving(sticks)[new_index(sticks, j)] == sticks[j],
        forall|j2: int|
            j < j2 < sticks.len() && !(#[trigger] sticks[j2]).broken ==> new_index(sticks, j)
                < new_index(sticks, j2),
    decreases sticks.len(),
{
    let dl = sticks.drop_last();
    if j == sticks.len() - 1 {
        assert(sticks.subrange(0, j) =~= dl);
        assert(surviving(sticks) == surviving(dl).push(sticks.last()));
    } else {
        law_sweep_order(dl, j);
        assert(sticks.subrange(0, j) =~= dl.subrange(0, j));
        assert forall|j2: int|
            j < j2 < sticks.len() && !(#[trigger] sticks[j2]).broken implies new_index(sticks, j)
            < new_index(sticks, j2) by {
            assert(sticks.subrange(0, j2).subrange(0, j + 1) =~= sticks.subrange(0, j + 1));
            lemma_surviving_prefix_len(sticks, j + 1, j2);
            assert(sticks.subrange(0, j + 1).drop_last() =~= sticks.subrange(0, j));
            assert(new_index(sticks, j) < surviving(sticks.subrange(0, j + 1)).len());
        }
    }
}

/// LAW (tearing is local). Tearing at point `i` clears exactly that
/// point's two slots and marks exactly the sticks those slots referred
/// to broken: every other point, every other field of point `i`, and
/// every other field of the affected sticks are unchanged — in
/// particular the complementary endpoints' slots still hold their
/// references until the sweep clears them.
pub proof fn law_tear_local(points: Seq<Point>, sticks: Seq<Stick>, i: int)
    requires
        0 <= i < points.len(),
    ensures
        tear_spec(points, sticks, i).0.len() == points.len(),
        tear_spec(points, sticks, i).1.len() == sticks.len(),
        tear_spec(points, sticks, i).0[i].stick_h is None,
        tear_spec(points, sticks, i).0[i].stick_v is None,
        tear_spec(points, sticks, i).0[i] == (Point {
            stick_h: None,
            stick_v: None,
            ..points[i]
        }),
        forall|k: int| 0 <= k < points.len() && k != i ==> tear_spec(points, sticks, i).0[k]
            == points[k],
        forall|j: int|
            0 <= j < sticks.len() ==> #[trigger] tear_spec(points, sticks, i).1[j] == (
            if (points[i].stick_h matches Some(h) && h as int == j) || (points[i].stick_v
                matches Some(v) && v as int == j) {
                Stick { broken: true, ..sticks[j] }
            } else {
                sticks[j]
            }),
{
    assert forall|j: int| 0 <= j < sticks.len() implies #[trigger] tear_spec(points, sticks, i).1[j]
        == (if (points[i].stick_h matches Some(h) && h as int == j) || (points[i].stick_v
            matches Some(v) && v as int == j) {
            Stick { broken: true, ..sticks[j] }
        } else {
            sticks[j]
        }) by {
        lemma_break_one_id(sticks, points[i].stick_h, j);
    }
}

/// LAW (end-of-frame sweep). The stick list a frame leaves behind is
/// exactly the sticks that ended the constraint pass unbroken, in their
/// order: it is shorter by exactly the number of broken sticks at sweep
/// time, and no broken stick survives into the next frame.
pub proof fn law_frame_sweep(points: Seq<Point>, sticks: Seq<Stick>, env: Env)
    ensures
        ({
            let r1 = phase1_to(points, sticks, env, points.len() as int);
            let r2 = phase2_to(r1.0, r1.1, r1.1.len() as int);
            let fin = update_spec(points, sticks, env).1;
            &&& fin == surviving(r2.1)
            &&& fin.len() + count_broken(r2.1) == r2.1.len()
            &&& forall|k: int| 0 <= k < fin.len() ==> !(#[trigger] fin[k]).broken
        }),
{
    let r1 = phase1_to(points, sticks, env, points.len() as int);
    let r2 = phase2_to(r1.0, r1.1, r1.1.len() as int);
    law_sweep_count(r2.1);
}

/// Magnitude of an integer.
pub open spec fn absi(x: int) -> int {
    if x < 0 {
        -x
    } else {
        x
    }
}

/// One collinear correction, on the gap itself: with a horizontal gap
/// `dx != 0` of magnitude `d` and rest length `len`, the corrected gap
/// `dx + 2*tdiv(dx*(len - d), 2*d)` has magnitude `len` or one tick
/// beside it, on the old gap's side of `len`.
pub proof fn lemma_collinear_correction(dx: int, len: int)
    requires
        dx != 0,
        0 <= len,
    ensures
        ({
            let d = absi(dx);
            let off = tdiv(dx * (len - d), 2 * d);
            let nd = absi(dx + 2 * off);
            &&& absi(nd - len) <= 1
            &&& absi(nd - len) <= absi(d - len)
            &&& absi(2 * off) <= d + len + 1
        }),
{
    let d = absi(dx);
    let m = len - d;
    let off = tdiv(dx * m, 2 * d);
    if m == 0 {
        assert(dx * m == 0) by (nonlinear_arith)
            requires
                m == 0,
        ;
        vstd::arithmetic::div_mod::lemma_div_of0(2 * d);
        assert(off == 0);
    } else if m > 0 {
        assert(d * m >= 0) by (nonlinear_arith)
            requires
                d >= 0,
                m >= 0,
        ;
        vstd::arithmetic::div_mod::lemma_div_denominator(d * m, d, 2);
        vstd::arithmetic::div_mod::lemma_div_multiples_vanish(m, d);
        assert((d * m) / (d * 2) == m / 2);
        assert(d * 2 == 2 * d);
        vstd::arithmetic::div_mod::lemma_fundamental_div_mod(m, 2);
        vstd::arithmetic::div_mod::lemma_mod_division_less_than_divisor(m, 2);
        if dx > 0 {
            assert(dx * m == d * m);
            assert(off == m / 2);
            assert(dx + 2 * off == len - m % 2);
        } else {
            assert(dx * m == -(d * m)) by (nonlinear_arith)
                requires
                    dx == -d,
            ;
            assert(off == -((d * m) / (2 * d)));
            assert(dx + 2 * off == -(len - m % 2));
        }
        assert(len - m % 2 >= 0);
    } else {
        let u = -m;
        assert(d * u >= 0) by (nonlinear_arith)
            requires
                d >= 0,
                u >= 0,
        ;
        vstd::arithmetic::div_mod::lemma_div_denominator(d * u, d, 2);
        vstd::arithmetic::div_mod::lemma_div_multiples_vanish(u, d);
        assert((d * u) / (d * 2) == u / 2);
        assert(d * 2 == 2 * d);
        vstd::arithmetic::div_mod::lemma_fundamental_div_mod(u, 2);
        vstd::arithmetic::div_mod::lemma_mod_division_less_than_divisor(u, 2);
        if dx > 0 {
            assert(dx * m == -(d * u)) by (nonlinear_arith)
                requires
                    dx == d,
                    m == -u,
            ;
            assert(off == -((d * u) / (2 * d)));
            assert(dx + 2 * off == len + u % 2);
        } else {
            assert(dx * m == d * u) by (nonlinear_arith)
                requires
                    dx == -d,
                    m == -u,
            ;
            assert(off == (d * u) / (2 * d));
            assert(dx + 2 * off == -(len + u % 2));
        }
    }
}

/// LAW (correction convergence, collinear case). When a stick's
/// endpoints lie on one horizontal line, its phase-2 correction moves
/// their distance weakly closer to the rest length, and in fact lands
/// it within one tick of the rest length. (The one-tick slack is the
/// rounding of the half-gap offset; with an even gap the distance
/// lands exactly on the rest length.) The bounds on the coordinates
/// keep the corrected positions inside the world box, where the
/// saturation does not bite.
pub proof fn law_correction_approaches_rest(points: Seq<Point>, sticks: Seq<Stick>, i: int)
    requires
        0 <= i < sticks.len(),
        ((sticks[i].p1 as int) < points.len()),
        ((sticks[i].p2 as int) < points.len()),
        sticks[i].p1 != sticks[i].p2,
        0 <= sticks[i].length <= 250_000_000,
        ({
            let a = points[sticks[i].p1 as int].position;
            let b = points[sticks[i].p2 as int].position;
            &&& a.y == b.y
            &&& a.x != b.x
            &&& -250_000_000 <= a.x <= 250_000_000
            &&& -250_000_000 <= b.x <= 250_000_000
            &&& in_box(a)
            &&& in_box(b)
        }),
    ensures
        ({
            let s = sticks[i];
            let a = points[s.p1 as int].position;
            let b = points[s.p2 as int].position;
            let d = isqrt_spec(dist_sq_spec(a, b));
            let r = stick_step(points, sticks, i);
            let a2 = r.0[s.p1 as int].position;
            let b2 = r.0[s.p2 as int].position;
            let d2 = isqrt_spec(dist_sq_spec(a2, b2));
            &&& absi(d2 - s.length) <= absi(d - s.length)
            &&& absi(d2 - s.length) <= 1
        }),
{
    let s = sticks[i];
    let a = points[s.p1 as int].position;
    let b = points[s.p2 as int].position;
    let dx = a.x - b.x;
    assert(dist_sq_spec(a, b) == dx * dx) by (nonlinear_arith)
        requires
            a.y == b.y,
            dx == a.x - b.x,
            dist_sq_spec(a, b) == (a.x - b.x) * (a.x - b.x) + (a.y - b.y) * (a.y - b.y),
    ;
    lemma_isqrt_of_square(dx);
    let d = absi(dx);
    assert(isqrt_spec(dist_sq_spec(a, b)) == d);
    let off = tdiv(dx * (s.length - d), 2 * d);
    lemma_collinear_correction(dx, s.length as int);
    assert(s.length - d == s.length - isqrt_spec(dist_sq_spec(a, b)));
    // The vertical offset is zero: the gap is purely horizontal.
    assert((a.y - b.y) * (s.length - isqrt_spec(dist_sq_spec(a, b))) == 0) by (nonlinear_arith)
        requires
            a.y == b.y,
    ;
    vstd::arithmetic::div_mod::lemma_div_of0(2 * d);
    let r = stick_step(points, sticks, i);
    let a2 = r.0[s.p1 as int].position;
    let b2 = r.0[s.p2 as int].position;
    assert(a2.x == a.x + off && b2.x == b.x - off && a2.y == a.y && b2.y == b.y);
    let dx2 = a2.x as int - b2.x;
    assert(dx2 == dx + 2 * off);
    assert(dist_sq_spec(a2, b2) == dx2 * dx2) by (nonlinear_arith)
        requires
            a2.y == b2.y,
            dx2 == a2.x - b2.x,
            dist_sq_spec(a2, b2) == (a2.x - b2.x) * (a2.x - b2.x) + (a2.y - b2.y) * (a2.y - b2.y),
    ;
    lemma_isqrt_of_square(dx2);
}

} // verus!
