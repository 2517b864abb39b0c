//! Vision-wedge clipping: which of the clipping outcomes applies to a wall.
//!
//! The discrimination between dropping a wall, keeping it, shortening it
//! against a wedge ray and splitting it across the seam depends only on the
//! *order* of four angles — the wall's two endpoint angles and the wedge's
//! boundary angles — and on whether each wedge ray meets the wall's line at
//! all.  Angles enter as integer keys under any strictly order-preserving
//! mapping of the host's angles, so the whole decision is exact and proved
//! here; only the ray intersections themselves stay with the caller.

use vstd::prelude::*;

verus! {

/// What wedge clipping does to one wall.
#[derive(Debug, Copy, Clone, PartialEq, Eq, Structural)]
pub enum WedgeOutcome {
    /// The wall lies entirely outside the wedge: discard it.
    Outside,
    /// The wall is kept exactly as it is.
    Untouched,
    /// The wall is shortened: where `at_start`, its start endpoint moves to
    /// the start ray's intersection; where `at_end`, its end endpoint moves
    /// to the end ray's intersection.
    Shorten { at_start: bool, at_end: bool },
    /// The wall is replaced by up to two sub-segments, one per flag; both
    /// flags off means nothing of the wall survives.
    Split { first: bool, second: bool },
}

/// The clipping outcome for a wall with endpoint angle keys `start` and
/// `end` against a wedge with boundary keys `ws` and `we`.
///
/// `ws < we` means the wedge does not straddle the seam at plus/minus pi;
/// `start > end` marks a wall that does.  `start_ray_hits` and
/// `end_ray_hits` say whether the wedge rays meet the wall's infinite line;
/// a shorten step can only happen where its ray actually hits.
///
/// For a seam-free wedge, `Split` slot `first` runs from the start ray to
/// the wall's end and slot `second` from the wall's start to the end ray.
/// For a seam-straddling wedge it is the mirror image: slot `first` runs
/// from the wall's start to the end ray, slot `second` from the start ray
/// to the wall's end.
pub open spec fn spec_wedge_outcome(
    start: i64,
    end: i64,
    ws: i64,
    we: i64,
    start_ray_hits: bool,
    end_ray_hits: bool,
) -> WedgeOutcome {
    if ws < we {
        if !(ws <= start <= we) && !(ws <= end <= we) {
            WedgeOutcome::Outside
        } else {
            let at_start = if start >= end {
                (start < ws || end > we) && start_ray_hits
            } else {
                end > ws && start < ws && start_ray_hits
            };
            let at_end = if start >= end {
                (start < ws || end > we) && end_ray_hits
            } else {
                start < we && end > we && end_ray_hits
            };
            if at_start || at_end {
                WedgeOutcome::Shorten { at_start, at_end }
            } else if end < start {
                let first = end > ws;
                let second = start < we;
                if !first && !second && !(ws < start < we) && !(ws < end < we) {
                    WedgeOutcome::Untouched
                } else {
                    WedgeOutcome::Split { first, second }
                }
            } else {
                WedgeOutcome::Untouched
            }
        }
    } else {
        if start > end {
            let at_start = start < ws && start_ray_hits;
            let at_end = end > we && end_ray_hits;
            if at_start || at_end {
                WedgeOutcome::Shorten { at_start, at_end }
            } else {
                WedgeOutcome::Untouched
            }
        } else {
            let first = start < we && we < end;
            let second = start < ws && ws < end;
            if !first && !second && !(we < start < ws) && !(we < end < ws) {
                WedgeOutcome::Untouched
            } else {
                WedgeOutcome::Split { first, second }
            }
        }
    }
}

pub fn decide_wedge_restriction(
    start: i64,
    end: i64,
    ws: i64,
    we: i64,
    start_ray_hits: bool,
    end_ray_hits: bool,
) -> (r: WedgeOutcome)
    ensures
        r == spec_wedge_outcome(start, end, ws, we, start_ray_hits, end_ray_hits),
{
    if ws < we {
        if !(ws <= start && start <= we) && !(ws <= end && end <= we) {
            return WedgeOutcome::Outside;
        }
        let at_start: bool = if start >= end {
            (start < ws || end > we) && start_ray_hits
        } else {
            end > ws && start < ws && start_ray_hits
        };
        let at_end: bool = if start >= end {
            (start < ws || end > we) && end_ray_hits
        } else {
            start < we && end > we && end_ray_hits
        };
        if at_start || at_end {
            WedgeOutcome::Shorten { at_start, at_end }
        } else if end < start {
            let first: bool = end > ws;
            let second: bool = start < we;
            if !first && !second && !(ws < start && start < we) && !(ws < end && end < we) {
                WedgeOutcome::Untouched
            } else {
                WedgeOutcome::Split { first, second }
            }
        } else {
            WedgeOutcome::Untouched
        }
    } else {
        if start > end {
            let at_start: bool = start < ws && start_ray_hits;
            let at_end: bool = end > we && end_ray_hits;
            if at_start || at_end {
                WedgeOutcome::Shorten { at_start, at_end }
            } else {
                WedgeOutcome::Untouched
            }
        } else {
            let first: bool = start < we && we < end;
            let second: bool = start < ws && ws < end;
            if !first && !second && !(we < start && start < ws) && !(we < end && end < ws) {
                WedgeOutcome::Untouched
            } else {
                WedgeOutcome::Split { first, second }
            }
        }
    }
}

// ---------------------------------------------------------------------------
// Vision-wedge stitching
//
// After the sweep, an active wedge keeps only the vertices inside it and
// closes the polygon across the invisible arc with two origin vertices.
// Every decision is an order or equality test on angles, and every output
// vertex is a copied input vertex or an origin vertex carrying a given
// angle verbatim, so the whole stitching is exact over angle keys.
// ---------------------------------------------------------------------------

/// A polygon vertex as the stitching sees it: position and angle as the
/// host's bit patterns, the angle once more as an order-preserving key,
/// and the gap flag.
#[derive(Debug, Copy, Clone, PartialEq, Eq, Structural)]
pub struct StitchPoint {
    pub x: u64,
    pub y: u64,
    pub angle_bits: u64,
    pub key: i64,
    pub gap: bool,
}

/// The same vertex with its gap flag off.
pub open spec fn spec_clear_gap(p: StitchPoint) -> StitchPoint {
    StitchPoint { gap: false, ..p }
}

/// An origin vertex at the given angle.
pub open spec fn spec_origin_vertex(ox: u64, oy: u64, angle_bits: u64, key: i64, gap: bool) -> StitchPoint {
    StitchPoint { x: ox, y: oy, angle_bits, key, gap }
}

/// First position at or after `i` whose vertex angle lies past the wedge's
/// end boundary.
pub open spec fn spec_scan_past_end(los: Seq<StitchPoint>, we: i64, i: int) -> int
    decreases los.len() - i,
{
    if 0 <= i < los.len() && los[i].key <= we {
        spec_scan_past_end(los, we, i + 1)
    } else {
        i
    }
}

/// First position at or after `i` whose vertex angle has reached the
/// wedge's start boundary.
pub open spec fn spec_scan_to_start(los: Seq<StitchPoint>, ws: i64, i: int) -> int
    decreases los.len() - i,
{
    if 0 <= i < los.len() && los[i].key < ws {
        spec_scan_to_start(los, ws, i + 1)
    } else {
        i
    }
}

/// The stitched polygon for a wedge from `ws` to `we` around an origin.
///
/// For a seam-free wedge (`ws_key < we_key`) every swept vertex is kept: an
/// entry origin vertex at the wedge start opens the polygon — a gap unless
/// a kept vertex sits at exactly that angle — and an exit origin vertex at
/// the wedge end closes it, demoting a final vertex that sits exactly on
/// the end boundary to a gap-free vertex just before it.
///
/// For a seam-straddling wedge the vertex list splits at the wedge's two
/// boundaries; the slice beyond the end boundary and before the start
/// boundary is dropped, and the exit and entry origin vertices stand
/// between the two kept slices, in sweep order.
pub open spec fn spec_stitch(
    los: Seq<StitchPoint>,
    ox: u64,
    oy: u64,
    ws_bits: u64,
    ws_key: i64,
    we_bits: u64,
    we_key: i64,
) -> Seq<StitchPoint> {
    if ws_key < we_key {
        let entry = spec_origin_vertex(ox, oy, ws_bits, ws_key,
            !(los.len() > 0 && los[0].key == ws_key));
        let exit = spec_origin_vertex(ox, oy, we_bits, we_key, false);
        if los.len() > 0 && los.last().key == we_key {
            seq![entry] + los.drop_last() + seq![spec_clear_gap(los.last()), exit]
        } else {
            seq![entry] + los + seq![exit]
        }
    } else {
        let e = spec_scan_past_end(los, we_key, 0);
        let st = spec_scan_to_start(los, ws_key, e);
        let to_end = los.take(e);
        let from_start0 = los.skip(st);
        let from_start = if st < los.len() && st == e && los[e].key == we_key {
            from_start0.update(0, spec_clear_gap(from_start0[0]))
        } else {
            from_start0
        };
        let entry = spec_origin_vertex(ox, oy, ws_bits, ws_key,
            !(st < los.len() && los[st].key == ws_key));
        let exit = spec_origin_vertex(ox, oy, we_bits, we_key, false);
        if to_end.len() > 0 && to_end.last().key == we_key {
            to_end.drop_last() + seq![spec_clear_gap(to_end.last()), exit, entry] + from_start
        } else {
            to_end + seq![exit, entry] + from_start
        }
    }
}

/// Appends the vertices `src[from..to]` to `out`.
fn push_range(out: &mut Vec<StitchPoint>, src: &Vec<StitchPoint>, from: usize, to: usize)
    requires
        from <= to <= src@.len(),
    ensures
        final(out)@ == old(out)@ + src@.subrange(from as int, to as int),
{
    let ghost base = out@;
    let mut i: usize = from;
    while i < to
        invariant
            from <= i <= to <= src@.len(),
            out@ == base + src@.subrange(from as int, i as int),
        decreases to - i,
    {
        out.push(src[i]);
        proof {
            assert((base + src@.subrange(from as int, i as int)).push(src@[i as int])
                =~= base + src@.subrange(from as int, i + 1));
        }
        i = i + 1;
    }
}

/// Stitches the wedge into the swept vertex list, exactly as `spec_stitch`
/// states; a seam-free wedge additionally settles the caller's initial
/// field-of-view gap flag.
#[verifier::rlimit(100)]
pub fn stitch_vision_wedge(
    los: Vec<StitchPoint>,
    origin_x: u64,
    origin_y: u64,
    ws_bits: u64,
    ws_key: i64,
    we_bits: u64,
    we_key: i64,
    start_gap_fov: &mut bool,
) -> (r: Vec<StitchPoint>)
    ensures
        r@ == spec_stitch(los@, origin_x, origin_y, ws_bits, ws_key, we_bits, we_key),
        ws_key < we_key ==> !*final(start_gap_fov),
        ws_key >= we_key ==> *final(start_gap_fov) == *old(start_gap_fov),
{
    let n = los.len();
    let mut out: Vec<StitchPoint> = Vec::new();
    if ws_key < we_key {
        *start_gap_fov = false;
        let entry_gap: bool = !(n > 0 && los[0].key == ws_key);
        out.push(StitchPoint { x: origin_x, y: origin_y, angle_bits: ws_bits, key: ws_key, gap: entry_gap });
        if n > 0 && los[n - 1].key == we_key {
            push_range(&mut out, &los, 0, n - 1);
            let mut last = los[n - 1];
            last.gap = false;
            out.push(last);
        } else {
            push_range(&mut out, &los, 0, n);
        }
        out.push(StitchPoint { x: origin_x, y: origin_y, angle_bits: we_bits, key: we_key, gap: false });
        proof {
            assert(los@.subrange(0, n as int) =~= los@);
            if n > 0 && los@[n - 1].key == we_key {
                assert(los@.subrange(0, n - 1) =~= los@.drop_last());
            }
            assert(out@ =~= spec_stitch(los@, origin_x, origin_y, ws_bits, ws_key, we_bits, we_key));
        }
    } else {
        let mut e: usize = 0;
        while e < n && los[e].key <= we_key
            invariant
                e <= n,
                n == los@.len(),
                spec_scan_past_end(los@, we_key, 0) == spec_scan_past_end(los@, we_key, e as int),
            decreases n - e,
        {
            e = e + 1;
        }
        proof {
            assert(spec_scan_past_end(los@, we_key, 0) == e as int);
        }
        let mut st: usize = e;
        while st < n && los[st].key < ws_key
            invariant
                e <= st <= n,
                n == los@.len(),
                spec_scan_to_start(los@, ws_key, e as int) == spec_scan_to_start(los@, ws_key, st as int),
            decreases n - st,
        {
            st = st + 1;
        }
        proof {
            assert(spec_scan_to_start(los@, ws_key, e as int) == st as int);
        }
        if e > 0 && los[e - 1].key == we_key {
            push_range(&mut out, &los, 0, e - 1);
            let mut last = los[e - 1];
            last.gap = false;
            out.push(last);
        } else {
            push_range(&mut out, &los, 0, e);
        }
        out.push(StitchPoint { x: origin_x, y: origin_y, angle_bits: we_bits, key: we_key, gap: false });
        let entry_gap: bool = !(st < n && los[st].key == ws_key);
        out.push(StitchPoint { x: origin_x, y: origin_y, angle_bits: ws_bits, key: ws_key, gap: entry_gap });
        if st < n && st == e && los[st].key == we_key {
            let mut first = los[st];
            first.gap = false;
            out.push(first);
            push_range(&mut out, &los, st + 1, n);
        } else {
            push_range(&mut out, &los, st, n);
        }
        proof {
            let tail = los@.skip(st as int);
            if st < n && st as int == e as int && los@[st as int].key == we_key {
                assert(los@.subrange(st + 1, n as int) =~= tail.update(0, spec_clear_gap(tail[0])).skip(1));
            }
            if e > 0 && los@[e - 1].key == we_key {
                assert(los@.subrange(0, e - 1) =~= los@.take(e as int).drop_last());
            }
            assert(out@ =~= spec_stitch(los@, origin_x, origin_y, ws_bits, ws_key, we_bits, we_key));
        }
    }
    out
}

/// A wall entirely outside a seam-free wedge — both endpoint angles on the
/// same side of it or beyond it — is discarded, never clipped.
pub proof fn lemma_wall_outside_wedge_dropped(
    start: i64, end: i64, ws: i64, we: i64, start_ray_hits: bool, end_ray_hits: bool,
)
    requires
        ws < we,
        start < ws || start > we,
        end < ws || end > we,
    ensures
        spec_wedge_outcome(start, end, ws, we, start_ray_hits, end_ray_hits)
            == WedgeOutcome::Outside,
{
}

/// A wall whose angular range lies inside a seam-free wedge, on the same
/// side of the seam as the wedge, is kept untouched: clipping only ever
/// shortens walls that reach past a wedge boundary.
pub proof fn lemma_wall_inside_wedge_untouched(
    start: i64, end: i64, ws: i64, we: i64, start_ray_hits: bool, end_ray_hits: bool,
)
    requires
        ws < we,
        ws <= start <= end <= we,
    ensures
        spec_wedge_outcome(start, end, ws, we, start_ray_hits, end_ray_hits)
            == WedgeOutcome::Untouched,
{
}

/// When the wedge straddles the seam and a wall's angular range strictly
/// contains the whole invisible arc, both wedge rays cut the wall and both
/// sub-segments survive.
pub proof fn lemma_straddling_wedge_splits_both(
    start: i64, end: i64, ws: i64, we: i64, start_ray_hits: bool, end_ray_hits: bool,
)
    requires
        we < ws,
        start < we,
        ws < end,
    ensures
        spec_wedge_outcome(start, end, ws, we, start_ray_hits, end_ray_hits)
            == (WedgeOutcome::Split { first: true, second: true }),
{
}

} // verus!
