//! Tessellation of polylines: segment quads, merged, mitred and bevelled
//! joins, and flat ends.

use vstd::prelude::*;
use crate::math::{
    abs, clamp_spec, dist_sq, intersect_spec, limit_dist, limit_dist_spec, line_line_intersect,
    tdiv, unit_of, Mat3, Vec2, BOUND, ONE,
};
use crate::render::{
    add_spec, in_range, vertex_spec, Colour, DrawCall, LineJoinStyle, LinePoint, Vertex2d, MAX_VERTS,
};

verus! {

/// Component-wise difference, clamped to the coordinate range.
pub open spec fn sub_spec(a: Vec2, b: Vec2) -> Vec2 {
    Vec2 { x: clamp_spec(a.x - b.x) as i64, y: clamp_spec(a.y - b.y) as i64 }
}

/// The offset from the centre line to one edge of the segment from `p1` to
/// `p2` of width `w`: the segment's direction turned clockwise, of length
/// `w / 2`. A segment of length zero has offset zero.
pub open spec fn seg_normal(p1: Vec2, p2: Vec2, w: i64) -> Vec2 {
    let d = sub_spec(p2, p1);
    let u = if d.len_sq() == 0 { Vec2 { x: 0, y: 0 } } else { unit_of(d) };
    Vec2 {
        x: clamp_spec(tdiv(u.y * w, 2 * ONE)) as i64,
        y: clamp_spec(tdiv(-u.x * w, 2 * ONE)) as i64,
    }
}

/// The offset from a segment's centre line to one of its edges.
pub fn seg_normal_exec(p1: Vec2, p2: Vec2, w: i64) -> (r: Vec2)
    requires
        p1.wf(),
        p2.wf(),
        in_range(w),
    ensures
        r == seg_normal(p1, p2, w),
        r.wf(),
{
    let d = p2.sub(p1);
    let u = d.normalize_or(Vec2 { x: 0, y: 0 });
    let tg = u.tangent();
    tg.scaled(w, 2 * ONE)
}

/// A segment of length zero has offset zero, so its vertices sit on its
/// point: degenerate lines give finite, well-defined geometry.
pub proof fn lemma_degenerate_segment(p: Vec2, w: i64)
    requires
        p.wf(),
    ensures
        seg_normal(p, p, w) == (Vec2 { x: 0, y: 0 }),
        add_spec(p, seg_normal(p, p, w)) == p,
        sub_spec(p, seg_normal(p, p, w)) == p,
{
    let d = sub_spec(p, p);
    assert(d.x == 0 && d.y == 0);
    assert(d.len_sq() == 0) by (nonlinear_arith)
        requires d.x == 0, d.y == 0, d.len_sq() == d.x * d.x + d.y * d.y;
    assert(tdiv(0 * w, 2 * ONE) == 0);
}

/// A vertex of a line: flat colour, no texture, no rounding.
pub open spec fn line_vertex(t: Mat3, p: Vec2, colour: Colour) -> Vertex2d {
    vertex_spec(t, p, Vec2 { x: 0, y: 0 }, colour, Vec2 { x: 0, y: 0 }, Vec2 { x: ONE, y: ONE }, [0u8, 0u8, 0u8, 0u8], 0)
}

fn push_line_vertex(cdc: &mut DrawCall, t: &Mat3, p: Vec2, colour: Colour, Ghost(max): Ghost<nat>) -> (n: u32)
    requires
        old(cdc).valid(max),
        old(cdc).vertices@.len() + 1 <= MAX_VERTS,
        t.wf(),
        p.wf(),
    ensures
        final(cdc).valid(max),
        final(cdc).vertices@ == old(cdc).vertices@.push(line_vertex(*t, p, colour)),
        final(cdc).indices@ == old(cdc).indices@,
        final(cdc).textures@ == old(cdc).textures@,
        n == old(cdc).vertices@.len(),
{
    let n = cdc.vertices.len() as u32;
    let zero = Vec2 { x: 0, y: 0 };
    cdc.vertices.push(
        crate::render::Vertex2d {
            pos: t.apply(p),
            uv: zero,
            colour,
            rounding_pos: zero,
            rounding_size: Vec2 { x: ONE, y: ONE },
            rounding: [0u8, 0u8, 0u8, 0u8],
            tex: 0,
        },
    );
    n
}

fn push_index_tri(cdc: &mut DrawCall, a: u32, b: u32, c: u32, Ghost(max): Ghost<nat>)
    requires
        old(cdc).valid(max),
        a < old(cdc).vertices@.len(),
        b < old(cdc).vertices@.len(),
        c < old(cdc).vertices@.len(),
    ensures
        final(cdc).valid(max),
        final(cdc).indices@ == old(cdc).indices@ + seq![a, b, c],
        final(cdc).vertices@ == old(cdc).vertices@,
        final(cdc).textures@ == old(cdc).textures@,
{
    cdc.indices.push(a);
    cdc.indices.push(b);
    cdc.indices.push(c);
    assert(cdc.indices@ =~= old(cdc).indices@ + seq![a, b, c]);
}

/// Pushes the two edge vertices of the segment from `p1` toward `p2` at `p1`.
fn push_segment_verts(cdc: &mut DrawCall, t: &Mat3, colour: Colour, p1: Vec2, p2: Vec2, w: i64, Ghost(max): Ghost<nat>) -> (n: u32)
    requires
        old(cdc).valid(max),
        old(cdc).vertices@.len() + 2 <= MAX_VERTS,
        t.wf(),
        p1.wf(),
        p2.wf(),
        in_range(w),
    ensures
        final(cdc).valid(max),
        final(cdc).vertices@ == old(cdc).vertices@
            .push(line_vertex(*t, add_spec(p1, seg_normal(p1, p2, w)), colour))
            .push(line_vertex(*t, sub_spec(p1, seg_normal(p1, p2, w)), colour)),
        final(cdc).indices@ == old(cdc).indices@,
        final(cdc).textures@ == old(cdc).textures@,
        n == old(cdc).vertices@.len(),
{
    let norm = seg_normal_exec(p1, p2, w);
    let n = push_line_vertex(cdc, t, p1.add(norm), colour, Ghost(max));
    push_line_vertex(cdc, t, p1.sub(norm), colour, Ghost(max));
    n
}

/// The offset at the middle point of a merged join: the mean of both
/// segments' offsets.
pub open spec fn merge_normal(p1: Vec2, p2: Vec2, p3: Vec2, w: i64) -> Vec2 {
    let n1 = seg_normal(p1, p2, w);
    let n2 = seg_normal(p2, p3, w);
    Vec2 { x: tdiv(n1.x + n2.x, 2) as i64, y: tdiv(n1.y + n2.y, 2) as i64 }
}

fn push_merge_verts(cdc: &mut DrawCall, t: &Mat3, colour: Colour, p1: Vec2, p2: Vec2, p3: Vec2, w: i64, Ghost(max): Ghost<nat>) -> (n: u32)
    requires
        old(cdc).valid(max),
        old(cdc).vertices@.len() + 2 <= MAX_VERTS,
        t.wf(),
        p1.wf(),
        p2.wf(),
        p3.wf(),
        in_range(w),
    ensures
        final(cdc).valid(max),
        final(cdc).vertices@ == old(cdc).vertices@
            .push(line_vertex(*t, add_spec(p2, merge_normal(p1, p2, p3, w)), colour))
            .push(line_vertex(*t, sub_spec(p2, merge_normal(p1, p2, p3, w)), colour)),
        final(cdc).indices@ == old(cdc).indices@,
        final(cdc).textures@ == old(cdc).textures@,
        n == old(cdc).vertices@.len(),
{
    let n1 = seg_normal_exec(p1, p2, w);
    let n2 = seg_normal_exec(p2, p3, w);
    let norm = Vec2 {
        x: crate::math::div_trunc(n1.x as i128 + n2.x as i128, 2) as i64,
        y: crate::math::div_trunc(n1.y as i128 + n2.y as i128, 2) as i64,
    };
    let n = push_line_vertex(cdc, t, p2.add(norm), colour, Ghost(max));
    push_line_vertex(cdc, t, p2.sub(norm), colour, Ghost(max));
    n
}

/// The largest distance of a miter point from its join point: twice the
/// line's width there.
pub open spec fn miter_max(w: i64) -> int {
    if 2 * abs(w as int) > BOUND {
        BOUND as int
    } else {
        2 * abs(w as int)
    }
}

/// The outer point of one side of a miter join: where the edge through `q1`
/// (along the first segment) meets the edge through `q2` (along the second),
/// or the join point `p2` where they are parallel; for `Miter`, clamped to
/// `miter_max(w)` from `p2`.
pub open spec fn miter_point(p2: Vec2, q1: Vec2, n1: Vec2, q2: Vec2, n2: Vec2, w: i64, style: LineJoinStyle) -> Vec2 {
    let raw = match intersect_spec(
        (q1, sub_spec(q1, Vec2 { x: n1.y, y: (-n1.x) as i64 })),
        (q2, sub_spec(q2, Vec2 { x: n2.y, y: (-n2.x) as i64 })),
    ) {
        Some(p) => p,
        None => p2,
    };
    if style == LineJoinStyle::Miter {
        limit_dist_spec(p2, raw, miter_max(w))
    } else {
        raw
    }
}

/// A `Miter` join point never lies further than twice the line's width from
/// the point it joins at.
pub proof fn lemma_miter_clamp(p2: Vec2, q1: Vec2, n1: Vec2, q2: Vec2, n2: Vec2, w: i64)
    requires
        p2.wf(),
        q1.wf(),
        n1.wf(),
        q2.wf(),
        n2.wf(),
    ensures
        dist_sq(miter_point(p2, q1, n1, q2, n2, w, LineJoinStyle::Miter), p2) <= (2 * w) * (2 * w),
{
    let raw = match intersect_spec(
        (q1, sub_spec(q1, Vec2 { x: n1.y, y: (-n1.x) as i64 })),
        (q2, sub_spec(q2, Vec2 { x: n2.y, y: (-n2.x) as i64 })),
    ) {
        Some(p) => p,
        None => p2,
    };
    assert(raw.wf());
    crate::math::lemma_limit_dist_bound(p2, raw, miter_max(w));
    let m = miter_max(w);
    assert(abs(w as int) * abs(w as int) == w * w) by (nonlinear_arith);
    assert(m * m <= (2 * w) * (2 * w)) by (nonlinear_arith)
        requires 0 <= m <= 2 * abs(w as int), abs(w as int) * abs(w as int) == w * w;
}

fn miter_point_exec(p2: Vec2, q1: Vec2, n1: Vec2, q2: Vec2, n2: Vec2, w: i64, style: LineJoinStyle) -> (r: Vec2)
    requires
        p2.wf(),
        q1.wf(),
        n1.wf(),
        q2.wf(),
        n2.wf(),
        in_range(w),
    ensures
        r == miter_point(p2, q1, n1, q2, n2, w, style),
        r.wf(),
{
    let raw = match line_line_intersect((q1, q1.sub(n1.tangent())), (q2, q2.sub(n2.tangent()))) {
        Some(p) => p,
        None => p2,
    };
    if style == LineJoinStyle::Miter {
        let aw: i64 = if w < 0 { -w } else { w };
        let m: i64 = if aw > BOUND / 2 { BOUND } else { 2 * aw };
        limit_dist(p2, raw, m)
    } else {
        proof {
            if style != LineJoinStyle::Miter {
                assert(raw.wf());
            }
        }
        raw
    }
}

/// The two edges meeting at `p2`: offset points of the incoming segment
/// (`p1` to `p2`) and of the outgoing one (`p2` to `p3`), with their offsets.
pub open spec fn join_edges(p1: Vec2, p2: Vec2, p3: Vec2, w: i64) -> (Vec2, Vec2, Vec2, Vec2, Vec2, Vec2) {
    let norm1 = seg_normal(p2, p1, w);
    let norm2 = seg_normal(p2, p3, w);
    (sub_spec(p2, norm1), add_spec(p2, norm1), norm1, add_spec(p2, norm2), sub_spec(p2, norm2), norm2)
}

/// The vertices a join adds at `p2`, before the transform.
pub open spec fn join_points(p1: Vec2, p2: Vec2, p3: Vec2, w: i64, style: LineJoinStyle) -> Seq<Vec2> {
    let e = join_edges(p1, p2, p3, w);
    match style {
        LineJoinStyle::Miter | LineJoinStyle::MiterUnlimited => seq![
            p2,
            miter_point(p2, e.0, e.2, e.3, e.5, w, style),
            miter_point(p2, e.1, e.2, e.4, e.5, w, style),
        ],
        LineJoinStyle::Bevel => seq![p2],
        _ => Seq::empty(),
    }
}

/// The indices a join adds, given the first new vertex `n` and the edge
/// vertex pairs of the incoming (`a`) and outgoing (`b`) segment.
pub open spec fn join_indices(style: LineJoinStyle, n: u32, a: (u32, u32), b: (u32, u32)) -> Seq<u32> {
    match style {
        LineJoinStyle::Miter | LineJoinStyle::MiterUnlimited => seq![
            n, a.0, b.0, (n + 1) as u32, b.0, a.0,
            n, a.1, b.1, (n + 2) as u32, b.1, a.1,
        ],
        LineJoinStyle::Bevel => seq![n, a.0, b.0, n, b.1, a.1],
        _ => Seq::empty(),
    }
}

/// The indices of a join, as whole numbers: `n` is its first vertex, `a`
/// and `b` the edge pairs of the incoming and outgoing segment.
pub open spec fn join_idx(style: LineJoinStyle, n: int, a: (int, int), b: (int, int)) -> Seq<int> {
    match style {
        LineJoinStyle::Miter | LineJoinStyle::MiterUnlimited => seq![
            n, a.0, b.0, n + 1, b.0, a.0,
            n, a.1, b.1, n + 2, b.1, a.1,
        ],
        LineJoinStyle::Bevel => seq![n, a.0, b.0, n, b.1, a.1],
        _ => Seq::empty(),
    }
}

/// How many vertices a join adds.
pub open spec fn join_len(style: LineJoinStyle) -> int {
    match style {
        LineJoinStyle::Miter | LineJoinStyle::MiterUnlimited => 3,
        LineJoinStyle::Bevel => 1,
        _ => 0,
    }
}

/// How many vertices a window adds at a middle point of join style `join`.
pub open spec fn window_len(join: LineJoinStyle) -> int {
    if join == LineJoinStyle::Merge {
        2
    } else {
        4 + join_len(join)
    }
}

/// The indices of a window whose middle point has join style `join`,
/// given the incoming edge pair `n` and the window's first vertex `base`,
/// with the edge pair that the next segment starts from.
pub open spec fn window_idx(join: LineJoinStyle, n: (int, int), base: int) -> (Seq<int>, (int, int)) {
    let stitch = seq![n.0, n.1, base, base, n.1, base + 1];
    if join == LineJoinStyle::Merge {
        (stitch, (base, base + 1))
    } else {
        (stitch + join_idx(join, base + 4, (base, base + 1), (base + 2, base + 3)), (base + 2, base + 3))
    }
}

/// Indices as `u32`, each moved up by `base`.
pub open spec fn abs_idx(s: Seq<int>, base: int) -> Seq<u32> {
    s.map_values(|x: int| (x + base) as u32)
}

/// Adds the geometry that joins two segments at `p2`.
pub fn do_line_join(
    cdc: &mut DrawCall,
    t: &Mat3,
    colour: Colour,
    p1: Vec2,
    p2: Vec2,
    p3: Vec2,
    w: i64,
    style: LineJoinStyle,
    a: (u32, u32),
    b: (u32, u32),
    Ghost(max): Ghost<nat>,
)
    requires
        old(cdc).valid(max),
        old(cdc).vertices@.len() + 3 <= MAX_VERTS,
        t.wf(),
        p1.wf(),
        p2.wf(),
        p3.wf(),
        in_range(w),
        a.0 < old(cdc).vertices@.len(),
        a.1 < old(cdc).vertices@.len(),
        b.0 < old(cdc).vertices@.len(),
        b.1 < old(cdc).vertices@.len(),
    ensures
        final(cdc).valid(max),
        final(cdc).vertices@ == old(cdc).vertices@
            + join_points(p1, p2, p3, w, style).map_values(|p: Vec2| line_vertex(*t, p, colour)),
        final(cdc).indices@ == old(cdc).indices@ + join_indices(style, old(cdc).vertices@.len() as u32, a, b),
        final(cdc).textures@ == old(cdc).textures@,
{
    let ghost pts = join_points(p1, p2, p3, w, style);
    let norm1 = seg_normal_exec(p2, p1, w);
    let q1a = p2.sub(norm1);
    let q1b = p2.add(norm1);
    let norm2 = seg_normal_exec(p2, p3, w);
    let q2a = p2.add(norm2);
    let q2b = p2.sub(norm2);
    match style {
        LineJoinStyle::Miter | LineJoinStyle::MiterUnlimited => {
            let pa = miter_point_exec(p2, q1a, norm1, q2a, norm2, w, style);
            let pb = miter_point_exec(p2, q1b, norm1, q2b, norm2, w, style);
            let n = push_line_vertex(cdc, t, p2, colour, Ghost(max));
            push_line_vertex(cdc, t, pa, colour, Ghost(max));
            push_line_vertex(cdc, t, pb, colour, Ghost(max));
            push_index_tri(cdc, n, a.0, b.0, Ghost(max));
            push_index_tri(cdc, n + 1, b.0, a.0, Ghost(max));
            push_index_tri(cdc, n, a.1, b.1, Ghost(max));
            push_index_tri(cdc, n + 2, b.1, a.1, Ghost(max));
            assert(cdc.vertices@ =~= old(cdc).vertices@ + pts.map_values(|p: Vec2| line_vertex(*t, p, colour)));
            assert(cdc.indices@ =~= old(cdc).indices@ + join_indices(style, n, a, b));
        },
        LineJoinStyle::Bevel => {
            let n = push_line_vertex(cdc, t, p2, colour, Ghost(max));
            push_index_tri(cdc, n, a.0, b.0, Ghost(max));
            push_index_tri(cdc, n, b.1, a.1, Ghost(max));
            assert(cdc.vertices@ =~= old(cdc).vertices@ + pts.map_values(|p: Vec2| line_vertex(*t, p, colour)));
            assert(cdc.indices@ =~= old(cdc).indices@ + join_indices(style, n, a, b));
        },
        _ => {
            assert(cdc.vertices@ =~= old(cdc).vertices@ + pts.map_values(|p: Vec2| line_vertex(*t, p, colour)));
            assert(cdc.indices@ =~= old(cdc).indices@ + join_indices(style, old(cdc).vertices@.len() as u32, a, b));
        },
    }
}

/// The two edge vertices at `p1` of the segment from `p1` toward `p2`.
pub open spec fn seg_pair(t: Mat3, colour: Colour, p1: Vec2, p2: Vec2, w: i64) -> Seq<Vertex2d> {
    seq![
        line_vertex(t, add_spec(p1, seg_normal(p1, p2, w)), colour),
        line_vertex(t, sub_spec(p1, seg_normal(p1, p2, w)), colour),
    ]
}

/// The vertices added at the middle point `b` of the window `a`, `b`, `c`:
/// one merged pair for `Merge`; otherwise the end of the incoming segment,
/// the start of the outgoing one, and the join between them.
pub open spec fn window_verts(t: Mat3, colour: Colour, a: LinePoint, b: LinePoint, c: LinePoint) -> Seq<Vertex2d> {
    if b.join == LineJoinStyle::Merge {
        seq![
            line_vertex(t, add_spec(b.pos, merge_normal(a.pos, b.pos, c.pos, b.width)), colour),
            line_vertex(t, sub_spec(b.pos, merge_normal(a.pos, b.pos, c.pos, b.width)), colour),
        ]
    } else {
        seg_pair(t, colour, b.pos, a.pos, (-b.width) as i64) + seg_pair(t, colour, b.pos, c.pos, b.width)
            + join_points(a.pos, b.pos, c.pos, b.width, b.join).map_values(|p: Vec2| line_vertex(t, p, colour))
    }
}

/// How many vertices the first `n` windows of `pts` add.
pub open spec fn windows_len(pts: Seq<LinePoint>, n: int) -> int
    decreases n,
{
    if n <= 0 {
        0
    } else {
        windows_len(pts, n - 1) + window_len(pts[n].join)
    }
}

/// The indices of the first `n` windows of `pts`, counting the line's first
/// vertex as 0, with the edge pair the next segment starts from.
pub open spec fn windows_idx(pts: Seq<LinePoint>, n: int) -> (Seq<int>, (int, int))
    decreases n,
{
    if n <= 0 {
        (Seq::empty(), (0, 1))
    } else {
        let p = windows_idx(pts, n - 1);
        let w = window_idx(pts[n].join, p.1, 2 + windows_len(pts, n - 1));
        (p.0 + w.0, w.1)
    }
}

/// The indices of a line through `pts`, counting its first vertex as 0.
pub open spec fn line_idx(pts: Seq<LinePoint>) -> Seq<int> {
    let k = pts.len() as int;
    let w = windows_idx(pts, k - 2);
    let m = 2 + windows_len(pts, k - 2);
    w.0 + seq![w.1.0, w.1.1, m, m, w.1.1, m + 1]
}

/// The indices of the first `n` windows name vertices before the ones the
/// windows end at, and the edge pair they hand on is among them.
pub proof fn lemma_windows_idx_bounds(pts: Seq<LinePoint>, n: int)
    ensures
        windows_len(pts, n) >= 0,
        forall|j: int| 0 <= j < windows_idx(pts, n).0.len() ==>
            0 <= #[trigger] windows_idx(pts, n).0[j] < 2 + windows_len(pts, n),
        0 <= windows_idx(pts, n).1.0,
        windows_idx(pts, n).1.1 == windows_idx(pts, n).1.0 + 1,
        windows_idx(pts, n).1.1 < 2 + windows_len(pts, n),
    decreases n,
{
    if n > 0 {
        lemma_windows_idx_bounds(pts, n - 1);
        let p = windows_idx(pts, n - 1);
        let base = 2 + windows_len(pts, n - 1);
        let w = window_idx(pts[n].join, p.1, base);
        let all = windows_idx(pts, n).0;
        assert(all == p.0 + w.0);
        assert forall|j: int| 0 <= j < all.len() implies 0 <= #[trigger] all[j] < 2 + windows_len(pts, n) by {
            if j >= p.0.len() {
                let x = w.0[j - p.0.len()];
                assert(all[j] == x);
            }
        }
    }
}

/// A line's indices come in whole triangles.
pub proof fn lemma_line_idx_triangles(pts: Seq<LinePoint>)
    ensures
        line_idx(pts).len() % 3 == 0,
{
    lemma_windows_idx_triangles(pts, pts.len() - 2);
}

proof fn lemma_windows_idx_triangles(pts: Seq<LinePoint>, n: int)
    ensures
        windows_idx(pts, n).0.len() % 3 == 0,
    decreases n,
{
    if n > 0 {
        lemma_windows_idx_triangles(pts, n - 1);
        let p = windows_idx(pts, n - 1);
        let w = window_idx(pts[n].join, p.1, 2 + windows_len(pts, n - 1));
        assert(w.0.len() % 3 == 0);
        assert((p.0 + w.0).len() == p.0.len() + w.0.len());
    }
}

/// The indices of a line name its own vertices only.
pub proof fn lemma_line_idx_bounds(pts: Seq<LinePoint>)
    requires
        pts.len() >= 2,
    ensures
        forall|j: int| 0 <= j < line_idx(pts).len() ==>
            0 <= #[trigger] line_idx(pts)[j] < 4 + windows_len(pts, pts.len() - 2),
        windows_len(pts, pts.len() - 2) >= 0,
{
    lemma_windows_idx_bounds(pts, pts.len() - 2);
    let w = windows_idx(pts, pts.len() - 2);
    let l = line_idx(pts);
    assert forall|j: int| 0 <= j < l.len() implies 0 <= #[trigger] l[j] < 4 + windows_len(pts, pts.len() - 2) by {
        if j < w.0.len() {
            assert(l[j] == w.0[j]);
        }
    }
}

/// The vertices of the first `n` windows of `pts`.
pub open spec fn windows_verts(t: Mat3, colour: Colour, pts: Seq<LinePoint>, n: int) -> Seq<Vertex2d>
    decreases n,
{
    if n <= 0 {
        Seq::empty()
    } else {
        windows_verts(t, colour, pts, n - 1) + window_verts(t, colour, pts[n - 1], pts[n], pts[n + 1])
    }
}

/// The vertices of a line through `pts` (at least two points): the start
/// of the first segment, every window, and the end of the last segment.
pub open spec fn line_spec(t: Mat3, colour: Colour, pts: Seq<LinePoint>) -> Seq<Vertex2d> {
    let k = pts.len() as int;
    seg_pair(t, colour, pts[0].pos, pts[1].pos, pts[0].width) + windows_verts(t, colour, pts, k - 2)
        + seg_pair(t, colour, pts[k - 1].pos, pts[k - 2].pos, (-pts[k - 1].width) as i64)
}

/// Adds the vertices and triangles of one window `a`, `b`, `c`, joining to
/// the edge pair `n` of the incoming segment; returns the edge pair that the
/// next segment starts from.
#[verifier::rlimit(80)]
fn tess_window(
    cdc: &mut DrawCall,
    t: &Mat3,
    colour: Colour,
    a: LinePoint,
    b: LinePoint,
    c: LinePoint,
    n: (u32, u32),
    Ghost(max): Ghost<nat>,
) -> (r: (u32, u32))
    requires
        old(cdc).valid(max),
        old(cdc).vertices@.len() + 7 <= MAX_VERTS,
        t.wf(),
        a.pos.wf(),
        b.pos.wf(),
        c.pos.wf(),
        in_range(b.width),
        n.1 == n.0 + 1,
        n.1 < old(cdc).vertices@.len(),
    ensures
        final(cdc).valid(max),
        final(cdc).textures@ == old(cdc).textures@,
        final(cdc).vertices@ == old(cdc).vertices@ + window_verts(*t, colour, a, b, c),
        final(cdc).vertices@.len() == old(cdc).vertices@.len() + window_len(b.join),
        final(cdc).indices@ == old(cdc).indices@
            + abs_idx(window_idx(b.join, (n.0 as int, n.1 as int), old(cdc).vertices@.len() as int).0, 0),
        r.0 == window_idx(b.join, (n.0 as int, n.1 as int), old(cdc).vertices@.len() as int).1.0,
        r.1 == window_idx(b.join, (n.0 as int, n.1 as int), old(cdc).vertices@.len() as int).1.1,
        r.1 == r.0 + 1,
        r.1 < final(cdc).vertices@.len(),
{
    let ghost v0 = cdc.vertices@;
    let ghost i0 = cdc.indices@;
    let ghost w = window_idx(b.join, (n.0 as int, n.1 as int), v0.len() as int);
    if b.join == LineJoinStyle::Merge {
        let m = push_merge_verts(cdc, t, colour, a.pos, b.pos, c.pos, b.width, Ghost(max));
        push_index_tri(cdc, n.0, n.1, m, Ghost(max));
        push_index_tri(cdc, m, n.1, m + 1, Ghost(max));
        assert(cdc.vertices@ =~= v0 + window_verts(*t, colour, a, b, c));
        assert(cdc.indices@ =~= i0 + abs_idx(w.0, 0));
        (m, m + 1)
    } else {
        let ghost s1 = seg_pair(*t, colour, b.pos, a.pos, (-b.width) as i64);
        let ghost s2 = seg_pair(*t, colour, b.pos, c.pos, b.width);
        let ghost js = join_points(a.pos, b.pos, c.pos, b.width, b.join).map_values(|p: Vec2| line_vertex(*t, p, colour));
        let m = push_segment_verts(cdc, t, colour, b.pos, a.pos, -b.width, Ghost(max));
        assert(cdc.vertices@ =~= v0 + s1);
        push_index_tri(cdc, n.0, n.1, m, Ghost(max));
        push_index_tri(cdc, m, n.1, m + 1, Ghost(max));
        let q = push_segment_verts(cdc, t, colour, b.pos, c.pos, b.width, Ghost(max));
        assert(cdc.vertices@ =~= v0 + s1 + s2);
        let ghost v2 = cdc.vertices@;
        do_line_join(cdc, t, colour, a.pos, b.pos, c.pos, b.width, b.join, (m, m + 1), (q, q + 1), Ghost(max));
        assert(cdc.vertices@ == v2 + js);
        assert(js.len() <= 3);
        assert(window_verts(*t, colour, a, b, c) == s1 + s2 + js);
        assert(cdc.vertices@ =~= v0 + (s1 + s2 + js));
        assert(cdc.indices@ =~= i0 + abs_idx(w.0, 0));
        (q, q + 1)
    }
}

proof fn lemma_window_verts_step(t: Mat3, colour: Colour, pts: Seq<LinePoint>, i: int, head: Seq<Vertex2d>, v0: Seq<Vertex2d>, v1: Seq<Vertex2d>)
    requires
        0 <= i,
        v0 == head + windows_verts(t, colour, pts, i),
        v1 == v0 + window_verts(t, colour, pts[i], pts[i + 1], pts[i + 2]),
    ensures
        v1 == head + windows_verts(t, colour, pts, i + 1),
{
    assert(windows_verts(t, colour, pts, i + 1) == windows_verts(t, colour, pts, i) + window_verts(t, colour, pts[i], pts[i + 1], pts[i + 2]));
    assert(v1 =~= head + windows_verts(t, colour, pts, i + 1));
}

proof fn lemma_window_idx_step(pts: Seq<LinePoint>, i: int, start: int, old_idx: Seq<u32>, i0: Seq<u32>, n0: (int, int), base: int, i1: Seq<u32>)
    requires
        0 <= i,
        base == start + 2 + windows_len(pts, i),
        i0 == old_idx + abs_idx(windows_idx(pts, i).0, start),
        n0.0 == windows_idx(pts, i).1.0 + start,
        n0.1 == windows_idx(pts, i).1.1 + start,
        i1 == i0 + abs_idx(window_idx(pts[i + 1].join, n0, base).0, 0),
    ensures
        base + window_len(pts[i + 1].join) == start + 2 + windows_len(pts, i + 1),
        i1 == old_idx + abs_idx(windows_idx(pts, i + 1).0, start),
        window_idx(pts[i + 1].join, n0, base).1.0 == windows_idx(pts, i + 1).1.0 + start,
        window_idx(pts[i + 1].join, n0, base).1.1 == windows_idx(pts, i + 1).1.1 + start,
{
    let p = windows_idx(pts, i);
    let wr = window_idx(pts[i + 1].join, p.1, 2 + windows_len(pts, i));
    let wa = window_idx(pts[i + 1].join, n0, base);
    assert(windows_idx(pts, i + 1) == (p.0 + wr.0, wr.1));
    assert(abs_idx(wa.0, 0) =~= abs_idx(wr.0, start));
    assert(abs_idx(p.0 + wr.0, start) =~= abs_idx(p.0, start) + abs_idx(wr.0, start));
    assert(i1 =~= old_idx + abs_idx(windows_idx(pts, i + 1).0, start));
}

/// Every point of the line lies in the coordinate range, as does its width.
pub open spec fn points_wf(points: Seq<LinePoint>) -> bool {
    forall|i: int| 0 <= i < points.len() ==> #[trigger] points[i].pos.wf() && in_range(points[i].width)
}

/// Tessellates a polyline: a quad per segment, stitched at each inner point
/// by the join style of that point; both ends are flat.
#[verifier::rlimit(50)]
pub fn tess_line(cdc: &mut DrawCall, t: &Mat3, colour: Colour, points: &Vec<LinePoint>, Ghost(max): Ghost<nat>)
    requires
        old(cdc).valid(max),
        points@.len() >= 2,
        old(cdc).vertices@.len() + 7 * points@.len() <= MAX_VERTS,
        t.wf(),
        points_wf(points@),
    ensures
        final(cdc).valid(max),
        final(cdc).textures@ == old(cdc).textures@,
        final(cdc).vertices@.len() <= old(cdc).vertices@.len() + 7 * points@.len(),
        final(cdc).vertices@ == old(cdc).vertices@ + line_spec(*t, colour, points@),
        final(cdc).indices@ == old(cdc).indices@ + abs_idx(line_idx(points@), old(cdc).vertices@.len() as int),
        final(cdc).vertices@.len() == old(cdc).vertices@.len() + 4 + windows_len(points@, points@.len() - 2),
{
    let ghost start = cdc.vertices@.len();
    let ghost istart = cdc.indices@.len();
    let k = points.len();
    assert(points@[0].pos.wf() && in_range(points@[0].width) && points@[1].pos.wf());
    let first = push_segment_verts(cdc, t, colour, points[0].pos, points[1].pos, points[0].width, Ghost(max));
    let mut n: (u32, u32) = (first, first + 1);
    let mut i: usize = 0;
    while i + 2 < k
        invariant
            k == points@.len(),
            k >= 2,
            t.wf(),
            points_wf(points@),
            start + 7 * k <= MAX_VERTS,
            i + 2 <= k,
            cdc.valid(max),
            cdc.textures@ == old(cdc).textures@,
            cdc.vertices@.len() <= start + 2 + 7 * i,
            cdc.vertices@.len() == start + 2 + windows_len(points@, i as int),
            n.1 == n.0 + 1,
            n.1 < cdc.vertices@.len(),
            n.0 == windows_idx(points@, i as int).1.0 + start,
            n.1 == windows_idx(points@, i as int).1.1 + start,
            cdc.indices@ == old(cdc).indices@ + abs_idx(windows_idx(points@, i as int).0, start as int),
            cdc.vertices@ == old(cdc).vertices@ + seg_pair(*t, colour, points@[0].pos, points@[1].pos, points@[0].width)
                + windows_verts(*t, colour, points@, i as int),
            start == old(cdc).vertices@.len(),
            istart == old(cdc).indices@.len(),
        decreases k - i,
    {
        let a = points[i];
        let b = points[i + 1];
        let c = points[i + 2];
        assert(points@[i as int].pos.wf() && points@[i + 1].pos.wf() && points@[i + 2].pos.wf());
        assert(in_range(points@[i + 1].width));
        let ghost v0 = cdc.vertices@;
        let ghost i0 = cdc.indices@;
        let ghost n0 = n;
        n = tess_window(cdc, t, colour, a, b, c, n, Ghost(max));
        proof {
            lemma_window_verts_step(
                *t,
                colour,
                points@,
                i as int,
                old(cdc).vertices@ + seg_pair(*t, colour, points@[0].pos, points@[1].pos, points@[0].width),
                v0,
                cdc.vertices@,
            );
            lemma_window_idx_step(points@, i as int, start as int, old(cdc).indices@, i0, (n0.0 as int, n0.1 as int), v0.len() as int, cdc.indices@);
        }
        i = i + 1;
    }
    assert(points@[k - 1].pos.wf() && points@[k - 2].pos.wf());
    assert(in_range(points@[k - 1].width));
    let ghost v0 = cdc.vertices@;
    let ghost i0 = cdc.indices@;
    let m = push_segment_verts(cdc, t, colour, points[k - 1].pos, points[k - 2].pos, -points[k - 1].width, Ghost(max));
    push_index_tri(cdc, n.0, n.1, m, Ghost(max));
    push_index_tri(cdc, m, n.1, m + 1, Ghost(max));
    assert(cdc.vertices@ =~= old(cdc).vertices@ + line_spec(*t, colour, points@));
    proof {
        let w = windows_idx(points@, k - 2);
        let mr = 2 + windows_len(points@, k - 2);
        assert(m == mr + start);
        assert(abs_idx(line_idx(points@), start as int) =~= abs_idx(w.0, start as int)
            + abs_idx(seq![w.1.0, w.1.1, mr, mr, w.1.1, mr + 1], start as int));
        assert(cdc.indices@ =~= old(cdc).indices@ + abs_idx(line_idx(points@), start as int));
    }
}

} // verus!
