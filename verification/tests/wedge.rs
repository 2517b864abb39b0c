use lichtgeschwindigkeit::wedge::{decide_wedge_restriction, stitch_vision_wedge, StitchPoint, WedgeOutcome};

// Angle keys are any order-preserving integers; small numbers do.

#[test]
fn wall_fully_outside_wedge_is_dropped() {
    let r = decide_wedge_restriction(1, 5, 10, 20, true, true);
    assert_eq!(r, WedgeOutcome::Outside);
    let r = decide_wedge_restriction(25, 30, 10, 20, true, true);
    assert_eq!(r, WedgeOutcome::Outside);
}

#[test]
fn wall_fully_inside_wedge_is_untouched() {
    let r = decide_wedge_restriction(12, 18, 10, 20, true, true);
    assert_eq!(r, WedgeOutcome::Untouched);
}

#[test]
fn wall_reaching_past_the_start_boundary_is_shortened() {
    let r = decide_wedge_restriction(5, 15, 10, 20, true, true);
    assert_eq!(
        r,
        WedgeOutcome::Shorten {
            at_start: true,
            at_end: false
        }
    );
}

#[test]
fn rejection_tests_endpoints_only() {
    // Both endpoints lie outside the seam-free wedge, so the wall is
    // dropped even though its angular range spans the whole wedge.
    let r = decide_wedge_restriction(5, 25, 10, 20, true, true);
    assert_eq!(r, WedgeOutcome::Outside);
}

#[test]
fn straddling_wedge_shortens_at_both_boundaries() {
    // The wedge straddles the seam; a seam-crossing wall pokes out past
    // both boundaries and is clipped on each side.
    let r = decide_wedge_restriction(15, 12, 20, 10, true, true);
    assert_eq!(
        r,
        WedgeOutcome::Shorten {
            at_start: true,
            at_end: true
        }
    );
}

#[test]
fn shorten_needs_the_ray_to_hit() {
    // Same geometry as a shortened wall, but the start ray misses the
    // wall's line, so nothing can be clipped there.
    let r = decide_wedge_restriction(5, 15, 10, 20, false, true);
    assert_eq!(r, WedgeOutcome::Untouched);
}

#[test]
fn seam_wall_against_seam_free_wedge_splits() {
    // The wall crosses the seam (start key above end key); only its lower
    // piece reaches into the wedge.
    let r = decide_wedge_restriction(18, 5, 10, 20, true, true);
    assert_eq!(
        r,
        WedgeOutcome::Split {
            first: false,
            second: true
        }
    );
}

#[test]
fn straddling_wedge_with_wall_over_the_invisible_arc_splits_both() {
    // The wedge straddles the seam (start key above end key); the wall's
    // range strictly contains the invisible arc, so both pieces survive.
    let r = decide_wedge_restriction(5, 25, 20, 10, true, true);
    assert_eq!(
        r,
        WedgeOutcome::Split {
            first: true,
            second: true
        }
    );
}

#[test]
fn straddling_wedge_keeps_wall_in_the_visible_arc() {
    // Wall between the wedge's end and start boundaries on the seam side.
    let r = decide_wedge_restriction(25, 5, 20, 10, true, true);
    assert_eq!(r, WedgeOutcome::Untouched);
}

fn sp(key: i64, gap: bool) -> StitchPoint {
    StitchPoint {
        x: (key as u64) * 100,
        y: (key as u64) * 100 + 1,
        angle_bits: key as u64,
        key,
        gap,
    }
}

fn origin_at(angle_bits: u64, key: i64, gap: bool) -> StitchPoint {
    StitchPoint {
        x: 7,
        y: 9,
        angle_bits,
        key,
        gap,
    }
}

#[test]
fn stitch_seam_free_wedge_wraps_the_kept_vertices() {
    let los = vec![sp(12, false), sp(18, true)];
    let mut start_gap = true;
    let r = stitch_vision_wedge(los.clone(), 7, 9, 1000, 10, 2000, 20, &mut start_gap);
    // Entry at the wedge start (a gap: no vertex sits exactly there), the
    // vertices, then the exit at the wedge end.
    assert_eq!(
        r,
        vec![origin_at(1000, 10, true), sp(12, false), sp(18, true), origin_at(2000, 20, false)]
    );
    assert!(!start_gap);
}

#[test]
fn stitch_vertices_on_the_boundaries_close_the_polygon() {
    let los = vec![sp(10, false), sp(20, true)];
    let mut start_gap = true;
    let r = stitch_vision_wedge(los, 7, 9, 1000, 10, 2000, 20, &mut start_gap);
    // A vertex exactly at the start boundary makes the entry gap-free; one
    // exactly at the end boundary loses its gap flag before the exit.
    assert_eq!(
        r,
        vec![origin_at(1000, 10, false), sp(10, false), sp(20, false), origin_at(2000, 20, false)]
    );
    assert!(!start_gap);
}

#[test]
fn stitch_straddling_wedge_drops_the_invisible_arc() {
    let los = vec![
        sp(2, false), sp(5, true), sp(8, false), sp(10, false), sp(12, true), sp(15, false),
        sp(18, false),
    ];
    let mut start_gap = true;
    let r = stitch_vision_wedge(los, 7, 9, 1400, 14, 600, 6, &mut start_gap);
    // Keys 8, 10 and 12 lie in the invisible arc between the wedge's end
    // and start boundaries; exit and entry origin vertices bridge it.
    assert_eq!(
        r,
        vec![
            sp(2, false),
            sp(5, true),
            origin_at(600, 6, false),
            origin_at(1400, 14, true),
            sp(15, false),
            sp(18, false),
        ]
    );
    // A straddling wedge leaves the initial gap flag alone.
    assert!(start_gap);
}

#[test]
fn stitch_straddling_wedge_demotes_the_boundary_vertex() {
    let los = vec![sp(2, false), sp(6, true), sp(8, false)];
    let mut start_gap = false;
    let r = stitch_vision_wedge(los, 7, 9, 1400, 14, 600, 6, &mut start_gap);
    // The last kept vertex sits exactly on the end boundary: its gap flag
    // is cleared and it stays just before the exit vertex.
    assert_eq!(
        r,
        vec![sp(2, false), sp(6, false), origin_at(600, 6, false), origin_at(1400, 14, true)]
    );
    assert!(!start_gap);
}

#[test]
fn stitch_of_empty_sweep_is_the_two_origin_vertices() {
    let mut start_gap = true;
    let r = stitch_vision_wedge(Vec::new(), 7, 9, 1000, 10, 2000, 20, &mut start_gap);
    assert_eq!(r, vec![origin_at(1000, 10, true), origin_at(2000, 20, false)]);
    assert!(!start_gap);
}
