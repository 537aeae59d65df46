use cloth_sim::cloth::Cloth;
use cloth_sim::math::Vector2;
use cloth_sim::point::Point;

// A pointer position far outside every selection radius used below.
fn far_pointer() -> Vector2 {
    Vector2::new(900_000_000, 900_000_000)
}

fn free_point_cloth(x: i64, y: i64) -> Cloth {
    Cloth {
        points: vec![Point::new(Vector2::new(x, y))],
        sticks: vec![],
        drag: 50,
        elasticity: 10_000,
    }
}

#[test]
fn pinned_point_stays_at_anchor() {
    // A 1x1 cloth: the single point is in the top row at an even column,
    // so it is pinned, and it has no sticks.
    let mut c = Cloth::new(1, 1, 10, 3, 4, 10_000);
    assert_eq!(c.points.len(), 1);
    assert!(c.points[0].pinned);
    assert_eq!(c.points[0].position, Vector2::new(3_000, 4_000));
    for _ in 0..3 {
        c.update(100, far_pointer(), false, false, far_pointer());
        assert_eq!(c.points[0].position, c.points[0].initial_position);
    }
}

#[test]
fn free_fall_two_steps_match_verlet() {
    // Hand-computed semi-implicit Verlet under damping 0.95:
    // dt = 0.1 s, gravity 981 units/s^2.
    // Step 1: y = 0 + 0 + trunc(981000*950*100*100 / 10^9) = 9319.
    // Step 2: y = 9319 + trunc(9319*950/1000) + 9319 = 27491.
    let mut c = free_point_cloth(0, 0);
    c.update(100, far_pointer(), false, false, far_pointer());
    assert_eq!(c.points[0].position, Vector2::new(0, 9_319));
    assert_eq!(c.points[0].prev_position, Vector2::new(0, 0));
    c.update(100, far_pointer(), false, false, far_pointer());
    assert_eq!(c.points[0].position, Vector2::new(0, 27_491));
    assert_eq!(c.points[0].prev_position, Vector2::new(0, 9_319));
}

#[test]
fn drag_force_moves_selected_point() {
    // Pointer 5 units right of the point, left button held, pointer
    // moved 5 units since last frame: horizontal force
    // clamp(5000, 10000)*10000 = 50_000_000 ticks/s^2, so
    // x = trunc(50_000_000*950*100*100 / 10^9) = 475_000.
    let mut c = free_point_cloth(0, 0);
    c.update(100, Vector2::new(5_000, 0), true, false, Vector2::new(0, 0));
    assert_eq!(c.points[0].position, Vector2::new(475_000, 9_319));
}

#[test]
fn two_point_cloth_one_frame() {
    // width=2, height=1, spacing=10, elasticity 10.0: point 0 pinned,
    // point 1 free, one stick of rest length 10_000 ticks.
    let mut c = Cloth::new(2, 1, 10, 0, 0, 10_000);
    assert_eq!(c.points.len(), 2);
    assert_eq!(c.sticks.len(), 1);
    assert!(c.points[0].pinned);
    assert!(!c.points[1].pinned);
    assert_eq!(c.sticks[0].p1, 1);
    assert_eq!(c.sticks[0].p2, 0);
    assert_eq!(c.sticks[0].length, 10_000);

    let before = c.points[1].position.distance(&c.points[0].position);
    assert_eq!(before, 10_000);

    c.update(100, far_pointer(), false, false, far_pointer());

    // Point 1 fell to (10_000, 9319) in phase 1; the stick then pulled
    // both endpoints half the gap together (the correction does not
    // consult the pin flag; point 0 returns to its anchor next frame).
    assert_eq!(c.points[1].position, Vector2::new(8_658, 8_069));
    assert_eq!(c.points[0].position, Vector2::new(1_342, 1_250));
    assert!(c.points[1].position.y > 0);
    assert_eq!(c.sticks.len(), 1);
    assert!(!c.sticks[0].broken);

    // The correction brought the distance from 13669 to within one tick
    // of the rest length.
    let after = c.points[1].position.distance(&c.points[0].position);
    assert_eq!(after, 10_001);
    assert!((after as i64 - 10_000).abs() < (13_669i64 - 10_000).abs());
}

#[test]
fn stretch_below_tolerance_does_not_break() {
    // length*(1+elasticity) = 10*(1+10) = 110 units = 110_000 ticks.
    let mut c = Cloth::new(2, 1, 10, 0, 0, 10_000);
    c.points[1].position = Vector2::new(25_000, 0);
    c.points[1].prev_position = Vector2::new(25_000, 0);
    c.update(0, far_pointer(), false, false, far_pointer());
    assert_eq!(c.sticks.len(), 1);
    assert!(!c.sticks[0].broken);
    // The correction still pulled both endpoints half the gap together.
    assert_eq!(c.points[1].position, Vector2::new(17_500, 0));
    assert_eq!(c.points[0].position, Vector2::new(7_500, 0));
}

#[test]
fn stretch_past_tolerance_breaks_and_is_swept() {
    let mut c = Cloth::new(2, 1, 10, 0, 0, 10_000);
    c.points[1].position = Vector2::new(120_000, 0);
    c.points[1].prev_position = Vector2::new(120_000, 0);
    c.update(0, far_pointer(), false, false, far_pointer());
    // 120_000 > 110_000: marked broken that frame and swept from the
    // list before the frame ends; the slots that referred to it are
    // cleared.
    assert_eq!(c.sticks.len(), 0);
    assert_eq!(c.points[0].stick_h, None);
    assert_eq!(c.points[1].stick_h, None);
}

fn two_by_two() -> Cloth {
    // Construction order for width=2, height=2, spacing=10:
    //   stick 0: p1=1, p2=0 (horizontal, top row)
    //   stick 1: p1=2, p2=0 (vertical, left column)
    //   stick 2: p1=3, p2=2 (horizontal, bottom row)
    //   stick 3: p1=3, p2=1 (vertical, right column)
    Cloth::new(2, 2, 10, 0, 0, 10_000)
}

#[test]
fn grid_construction_layout() {
    let c = two_by_two();
    assert_eq!(c.points.len(), 4);
    assert_eq!(c.sticks.len(), 4);
    assert_eq!(c.points[0].position, Vector2::new(0, 0));
    assert_eq!(c.points[1].position, Vector2::new(10_000, 0));
    assert_eq!(c.points[2].position, Vector2::new(0, 10_000));
    assert_eq!(c.points[3].position, Vector2::new(10_000, 10_000));
    // Top row, even columns pinned.
    assert!(c.points[0].pinned);
    assert!(!c.points[1].pinned);
    assert!(!c.points[2].pinned);
    assert!(!c.points[3].pinned);
    // Slot registration: the later neighbor overwrites a shared slot.
    assert_eq!((c.points[0].stick_h, c.points[0].stick_v), (Some(0), Some(1)));
    assert_eq!((c.points[1].stick_h, c.points[1].stick_v), (Some(0), Some(3)));
    assert_eq!((c.points[2].stick_h, c.points[2].stick_v), (Some(2), Some(1)));
    assert_eq!((c.points[3].stick_h, c.points[3].stick_v), (Some(2), Some(3)));
    for s in &c.sticks {
        assert_eq!(s.length, 10_000);
        assert_eq!(s.elasticity, 10_000);
        assert!(!s.broken);
        assert!(!s.selected);
    }
    assert_eq!((c.sticks[0].p1, c.sticks[0].p2), (1, 0));
    assert_eq!((c.sticks[1].p1, c.sticks[1].p2), (2, 0));
    assert_eq!((c.sticks[2].p1, c.sticks[2].p2), (3, 2));
    assert_eq!((c.sticks[3].p1, c.sticks[3].p2), (3, 1));
}

#[test]
fn wider_grid_positions_and_counts() {
    let c = Cloth::new(3, 2, 10, 5, 7, 0);
    assert_eq!(c.points.len(), 6);
    // 2 horizontal sticks per row over 2 rows, plus 3 vertical sticks.
    assert_eq!(c.sticks.len(), 7);
    assert_eq!(c.points[4].position, Vector2::new(15_000, 17_000));
    assert!(c.points[0].pinned);
    assert!(!c.points[1].pinned);
    assert!(c.points[2].pinned);
    assert!(!c.points[4].pinned);
}

#[test]
fn tear_clears_own_slots_only() {
    let mut c = two_by_two();
    c.break_sticks(3);
    // Point 3's own slots are cleared and exactly its two sticks are
    // marked broken.
    assert_eq!(c.points[3].stick_h, None);
    assert_eq!(c.points[3].stick_v, None);
    assert!(c.sticks[2].broken);
    assert!(c.sticks[3].broken);
    assert!(!c.sticks[0].broken);
    assert!(!c.sticks[1].broken);
    // The complementary endpoints' slots are untouched by the call.
    assert_eq!((c.points[2].stick_h, c.points[2].stick_v), (Some(2), Some(1)));
    assert_eq!((c.points[1].stick_h, c.points[1].stick_v), (Some(0), Some(3)));
    // Positions are untouched.
    assert_eq!(c.points[3].position, Vector2::new(10_000, 10_000));
}

#[test]
fn sweep_removes_broken_keeps_order_and_renumbers() {
    let mut c = two_by_two();
    c.break_sticks(3);
    c.update(0, far_pointer(), false, false, far_pointer());
    // Two of four sticks were broken: the list shrank by exactly that
    // count and the survivors kept their relative order.
    assert_eq!(c.sticks.len(), 2);
    assert_eq!((c.sticks[0].p1, c.sticks[0].p2), (1, 0));
    assert_eq!((c.sticks[1].p1, c.sticks[1].p2), (2, 0));
    assert!(!c.sticks[0].broken);
    assert!(!c.sticks[1].broken);
    // Slots were renumbered where the stick survived and cleared where
    // it did not.
    assert_eq!((c.points[0].stick_h, c.points[0].stick_v), (Some(0), Some(1)));
    assert_eq!((c.points[1].stick_h, c.points[1].stick_v), (Some(0), None));
    assert_eq!((c.points[2].stick_h, c.points[2].stick_v), (None, Some(1)));
    assert_eq!((c.points[3].stick_h, c.points[3].stick_v), (None, None));
}

#[test]
fn right_click_tears_selected_point() {
    let mut c = two_by_two();
    // Pointer within 10 units of point 3 only.
    let pointer = Vector2::new(10_500, 10_500);
    c.update(0, pointer, false, true, pointer);
    assert_eq!(c.sticks.len(), 2);
    assert_eq!((c.sticks[0].p1, c.sticks[0].p2), (1, 0));
    assert_eq!((c.sticks[1].p1, c.sticks[1].p2), (2, 0));
    assert_eq!((c.points[3].stick_h, c.points[3].stick_v), (None, None));
}

#[test]
fn left_button_takes_precedence_over_right() {
    let mut c = two_by_two();
    let pointer = Vector2::new(10_500, 10_500);
    // With both buttons down the drag wins and nothing tears.
    c.update(0, pointer, true, true, pointer);
    assert_eq!(c.sticks.len(), 4);
}

#[test]
fn selection_highlights_registered_sticks() {
    let mut c = two_by_two();
    let pointer = Vector2::new(10_500, 10_500);
    c.update(0, pointer, false, false, pointer);
    // Point 3's registered sticks (2 and 3) are highlighted; the others
    // are not.
    assert!(c.sticks[2].selected);
    assert!(c.sticks[3].selected);
    assert!(!c.sticks[0].selected);
    assert!(!c.sticks[1].selected);
}

#[test]
fn draw_exports_one_segment_per_stick() {
    let c = Cloth::new(2, 1, 10, 0, 0, 10_000);
    let segs = c.draw();
    assert_eq!(segs.len(), 1);
    assert_eq!(segs[0].a, Vector2::new(10_000, 0));
    assert_eq!(segs[0].b, Vector2::new(0, 0));
    assert!(!segs[0].selected);
    assert!(!segs[0].broken);
}

#[test]
fn empty_cloth_is_fine() {
    let mut c = Cloth::new(0, 0, 10, 0, 0, 0);
    assert_eq!(c.points.len(), 0);
    assert_eq!(c.sticks.len(), 0);
    c.update(100, far_pointer(), true, true, far_pointer());
    assert_eq!(c.draw().len(), 0);
}

#[test]
fn coincident_endpoints_get_no_correction() {
    // Two points at the same place: the distance is zero, so the
    // correction is skipped (the stated policy for the degenerate
    // geometry) and nothing moves or breaks with dt = 0.
    let mut c = Cloth::new(2, 1, 10, 0, 0, 10_000);
    c.points[0].pinned = false;
    c.points[1].position = Vector2::new(0, 0);
    c.points[1].prev_position = Vector2::new(0, 0);
    c.update(0, far_pointer(), false, false, far_pointer());
    assert_eq!(c.points[0].position, Vector2::new(0, 0));
    assert_eq!(c.points[1].position, Vector2::new(0, 0));
    assert_eq!(c.sticks.len(), 1);
}

#[test]
fn stretch_exactly_at_tolerance_does_not_break() {
    // The breakage test is strict: dist must exceed length*(1+elasticity).
    let mut c = Cloth::new(2, 1, 10, 0, 0, 10_000);
    c.points[1].position = Vector2::new(110_000, 0);
    c.points[1].prev_position = Vector2::new(110_000, 0);
    c.update(0, far_pointer(), false, false, far_pointer());
    assert_eq!(c.sticks.len(), 1);
    assert!(!c.sticks[0].broken);
}

#[test]
fn selection_radius_is_inclusive() {
    // A point exactly 10 units from the pointer is selected.
    let mut c = two_by_two();
    let pointer = Vector2::new(10_000, 20_000);
    c.update(0, pointer, false, false, pointer);
    // Point 3 at (10_000, 10_000) is exactly 10 units above the pointer:
    // its registered sticks are highlighted.
    assert!(c.sticks[2].selected);
    assert!(c.sticks[3].selected);
}
