//! The draw-command model, the vertex layout, the texture-slot batching
//! policy, and the tessellation of each filled shape.

use vstd::prelude::*;
use crate::math::{
    ceil_len, clamp_spec, clamp_wide, mul_frac, mat2_apply_spec, mat3_apply_spec, rotated_spec, sdiv, tdiv, unit_of,
    Mat2, Mat3, Rotation, Vec2, BOUND, ONE, SUB,
};
use crate::texture::Texture;

verus! {

/// How two segments of a line are joined.
#[derive(Clone, Copy, Debug, PartialEq, Eq, Structural)]
pub enum LineJoinStyle {
    /// Disconnected.
    Disjoint,
    /// The offset points of both segments are averaged.
    Merge,
    /// Both sides meet where they logically would, limited at sharp angles.
    Miter,
    /// Both sides meet where they logically would, without a limit.
    MiterUnlimited,
    /// The gap is filled with a flat edge.
    Bevel,
    /// A curve (drawn as `Disjoint` for now).
    Rounded,
}

/// How lines end (every style is drawn flat for now).
#[derive(Clone, Copy, Debug, PartialEq, Eq, Structural)]
pub enum LineEndStyle {
    Flat,
    Point,
    Rounded,
}

/// An RGBA colour, 8 bits per channel.
#[derive(Clone, Copy, Debug, PartialEq, Eq, Structural)]
pub struct Colour {
    pub r: u8,
    pub g: u8,
    pub b: u8,
    pub a: u8,
}

impl Colour {
    pub open spec fn is_white(self) -> bool {
        self == Colour { r: 255, g: 255, b: 255, a: 255 }
    }

    /// Opaque white.
    pub fn white() -> (c: Colour)
        ensures
            c.is_white(),
    {
        Colour { r: 255, g: 255, b: 255, a: 255 }
    }
}

/// The largest number of vertices that one draw call can index.
pub const MAX_VERTS: u64 = 4294967295;

/// One rendered point, in the layout the shader reads: position in
/// sub-pixel units (the shader divides by the screen size), UV and rounding
/// box in `ONE` units, corner rounding 0..255, and a texture slot where 0
/// means no texture and `k` the `k`-th texture of the draw call.
#[derive(Clone, Copy, Debug, PartialEq, Eq)]
pub struct Vertex2d {
    pub pos: Vec2,
    pub uv: Vec2,
    pub colour: Colour,
    pub rounding_pos: Vec2,
    pub rounding_size: Vec2,
    pub rounding: [u8; 4],
    pub tex: u32,
}

/// One GPU submission: vertices, indices into them, and the textures bound.
#[derive(Debug)]
pub struct DrawCall {
    pub vertices: Vec<Vertex2d>,
    pub indices: Vec<u32>,
    pub textures: Vec<Texture>,
}

/// The ids of a sequence of textures.
pub open spec fn ids(ts: Seq<Texture>) -> Seq<u64> {
    ts.map_values(|t: Texture| t.id)
}

impl DrawCall {
    /// Every index names a vertex of this call, no more than `max` distinct
    /// textures are bound, and every vertex's slot names one of them (or none).
    pub open spec fn valid(&self, max: nat) -> bool {
        &&& forall|i: int| 0 <= i < self.indices@.len() ==> self.indices@[i] < self.vertices@.len()
        &&& self.textures@.len() <= max
        &&& forall|i: int| 0 <= i < self.vertices@.len() ==> self.vertices@[i].tex <= self.textures@.len()
        &&& ids(self.textures@).no_duplicates()
        &&& self.vertices@.len() <= MAX_VERTS
    }

    pub open spec fn is_empty_call(&self) -> bool {
        self.vertices@.len() == 0 && self.indices@.len() == 0 && self.textures@.len() == 0
    }

    /// A draw call with nothing in it.
    pub fn empty() -> (r: DrawCall)
        ensures
            r.is_empty_call(),
    {
        DrawCall { vertices: Vec::new(), indices: Vec::new(), textures: Vec::new() }
    }
}

/// One step of the texture-slot policy: a texture already bound is reused,
/// a new one is bound while the current call has room, and otherwise the
/// current call is closed and a new one begins with it.
pub open spec fn batch_step(b: Seq<Seq<u64>>, t: u64, max: nat) -> Seq<Seq<u64>> {
    let last = b.last();
    if last.contains(t) {
        b
    } else if last.len() < max {
        b.update(b.len() - 1, last.push(t))
    } else {
        b.push(seq![t])
    }
}

/// The texture lists of the draw calls made for the texture uses `uses`.
pub open spec fn batch_model(uses: Seq<u64>, max: nat) -> Seq<Seq<u64>>
    decreases uses.len(),
{
    if uses.len() == 0 {
        seq![Seq::empty()]
    } else {
        batch_step(batch_model(uses.drop_last(), max), uses.last(), max)
    }
}

/// The texture lists of closed calls `calls` followed by the current call `cdc`.
pub open spec fn batches(calls: Seq<DrawCall>, cdc: DrawCall) -> Seq<Seq<u64>> {
    calls.map_values(|c: DrawCall| ids(c.textures@)).push(ids(cdc.textures@))
}

/// The number of texture slots taken over all batches.
pub open spec fn total_len(b: Seq<Seq<u64>>) -> int
    decreases b.len(),
{
    if b.len() == 0 {
        0
    } else {
        total_len(b.drop_last()) + b.last().len()
    }
}

/// Every batch of the model binds between one (but for the first) and
/// `max` textures, each of them one that was used.
pub proof fn lemma_batches_bounded(uses: Seq<u64>, max: nat)
    requires
        max >= 1,
    ensures
        batch_model(uses, max).len() >= 1,
        forall|i: int| 0 <= i < batch_model(uses, max).len() ==> (#[trigger] batch_model(uses, max)[i]).len() <= max,
        forall|i: int, x: u64|
            0 <= i < batch_model(uses, max).len() && #[trigger] batch_model(uses, max)[i].contains(x) ==> uses.contains(x),
    decreases uses.len(),
{
    if uses.len() > 0 {
        let u = uses.drop_last();
        let t = uses.last();
        lemma_batches_bounded(u, max);
        let b = batch_model(u, max);
        let r = batch_model(uses, max);
        assert(r == batch_step(b, t, max));
        assert forall|i: int, x: u64| 0 <= i < r.len() && #[trigger] r[i].contains(x) implies uses.contains(x) by {
            if x == t {
                assert(uses[uses.len() - 1] == x);
            } else if i < b.len() {
                if !b.last().contains(t) && b.last().len() < max && i == b.len() - 1 {
                    let k = choose|k: int| 0 <= k < r[i].len() && r[i][k] == x;
                    assert(b[i][k] == x);
                }
                assert(b[i].contains(x));
                let k = choose|k: int| 0 <= k < u.len() && u[k] == x;
                assert(uses[k] == x);
            } else {
                let k = choose|k: int| 0 <= k < r[i].len() && r[i][k] == x;
                assert(r[i] == seq![t]);
            }
        }
    }
}

/// Where no texture is used twice, every use takes a slot of its own: the
/// batches hold exactly `uses.len()` slots, every batch but the last is
/// full, and so there are exactly `uses.len() / max` (rounded up) of them
/// (one, empty, where nothing is used).
pub proof fn lemma_distinct_textures_calls(uses: Seq<u64>, max: nat)
    requires
        max >= 1,
        uses.no_duplicates(),
    ensures
        total_len(batch_model(uses, max)) == uses.len(),
        batch_model(uses, max).len() * max >= uses.len(),
        forall|i: int| 0 <= i < batch_model(uses, max).len() ==> (#[trigger] batch_model(uses, max)[i]).len() <= max,
        forall|i: int| 0 <= i < batch_model(uses, max).len() - 1 ==> (#[trigger] batch_model(uses, max)[i]).len() == max,
        uses.len() > 0 ==> batch_model(uses, max).last().len() >= 1,
        uses.len() == 0 ==> batch_model(uses, max).len() == 1,
        uses.len() > 0 ==> batch_model(uses, max).len() == (uses.len() + max - 1) / max as int,
    decreases uses.len(),
{
    lemma_batches_bounded(uses, max);
    if uses.len() == 0 {
        let b = batch_model(uses, max);
        assert(b.drop_last() =~= Seq::<Seq<u64>>::empty());
        assert(total_len(b.drop_last()) == 0);
        assert(b.last().len() == 0);
        assert(total_len(b) == 0);
    } else {
        let u = uses.drop_last();
        let t = uses.last();
        assert(u.no_duplicates());
        lemma_distinct_textures_calls(u, max);
        lemma_batches_bounded(u, max);
        let b = batch_model(u, max);
        assert(!b.last().contains(t)) by {
            if b.last().contains(t) {
                assert(b[b.len() - 1].contains(t));
                let k = choose|k: int| 0 <= k < u.len() && u[k] == t;
                assert(uses[k] == uses[uses.len() - 1]);
            }
        }
        let r = batch_model(uses, max);
        if b.last().len() < max {
            assert(r.drop_last() =~= b.drop_last());
            assert forall|i: int| 0 <= i < r.len() - 1 implies (#[trigger] r[i]).len() == max by {
                assert(r[i] == b[i]);
            }
        } else {
            assert(r.drop_last() =~= b);
            assert forall|i: int| 0 <= i < r.len() - 1 implies (#[trigger] r[i]).len() == max by {
                assert(r[i] == b[i]);
            }
        }
        lemma_total_full(r, max);
        let l = r.len() as int;
        let m = max as int;
        let last = r.last().len() as int;
        assert(uses.len() + m - 1 == l * m + (last - 1)) by (nonlinear_arith)
            requires uses.len() == (l - 1) * m + last;
        vstd::arithmetic::div_mod::lemma_fundamental_div_mod_converse(uses.len() + m - 1, m, l, last - 1);
    }
    lemma_total_le(batch_model(uses, max), max);
}

/// Where every batch but the last is full, the batches hold `max` slots
/// for each of those and the last batch's besides.
proof fn lemma_total_full(b: Seq<Seq<u64>>, max: nat)
    requires
        b.len() >= 1,
        forall|i: int| 0 <= i < b.len() - 1 ==> (#[trigger] b[i]).len() == max,
    ensures
        total_len(b) == (b.len() - 1) * max + b.last().len(),
    decreases b.len(),
{
    if b.len() == 1 {
        assert(b.drop_last() =~= Seq::<Seq<u64>>::empty());
        assert(total_len(b.drop_last()) == 0);
        assert(total_len(b) == total_len(b.drop_last()) + b.last().len());
    } else {
        let d = b.drop_last();
        assert forall|i: int| 0 <= i < d.len() - 1 implies (#[trigger] d[i]).len() == max by {
            assert(d[i] == b[i]);
        }
        lemma_total_full(d, max);
        assert(d.last() == b[b.len() - 2]);
        assert((b.len() - 2) * max + max == (b.len() - 1) * max) by (nonlinear_arith);
        assert(total_len(b) == total_len(d) + b.last().len());
    }
}

proof fn lemma_total_le(b: Seq<Seq<u64>>, max: nat)
    requires
        forall|i: int| 0 <= i < b.len() ==> (#[trigger] b[i]).len() <= max,
    ensures
        total_len(b) <= b.len() * max,
    decreases b.len(),
{
    if b.len() > 0 {
        assert forall|i: int| 0 <= i < b.drop_last().len() implies (#[trigger] b.drop_last()[i]).len() <= max by {
            assert(b.drop_last()[i] == b[i]);
        }
        lemma_total_le(b.drop_last(), max);
        assert(b.last() == b[b.len() - 1]);
        assert((b.len() - 1) * max + max == b.len() * max) by (nonlinear_arith);
    }
}

/// Using one texture twice in a row takes one slot of one draw call.
pub proof fn lemma_same_texture_twice(t: u64, max: nat)
    requires
        max >= 1,
    ensures
        batch_model(seq![t, t], max) == seq![seq![t]],
{
    assert(seq![t, t].drop_last() =~= seq![t]);
    assert(seq![t].drop_last() =~= Seq::<u64>::empty());
    let b0 = batch_model(Seq::<u64>::empty(), max);
    assert(b0 == seq![Seq::<u64>::empty()]);
    let b1 = batch_model(seq![t], max);
    assert(b1 =~= seq![seq![t]]) by {
        assert(b0.update(0, Seq::<u64>::empty().push(t)) =~= seq![seq![t]]);
    }
    assert(b1.last().contains(t)) by {
        assert(b1.last()[0] == t);
    }
}

/// A texture that the current call already binds is reused: binding it
/// again changes no batch.
pub proof fn lemma_reuse_keeps_batches(b: Seq<Seq<u64>>, t: u64, max: nat)
    requires
        b.len() >= 1,
        b.last().contains(t),
    ensures
        batch_step(b, t, max) == b,
{
}

/// Binds `tex` in the current draw call and returns its slot (1-based),
/// closing the current call into `calls` first where it is full.
pub fn use_tex(calls: &mut Vec<DrawCall>, cdc: &mut DrawCall, tex: Texture, max: usize) -> (slot: u32)
    requires
        old(cdc).valid(max as nat),
        max >= 1,
        max <= u32::MAX,
    ensures
        final(cdc).valid(max as nat),
        batches(final(calls)@, *final(cdc)) == batch_step(batches(old(calls)@, *old(cdc)), tex.id, max as nat),
        (final(calls)@ != old(calls)@) == (!ids(old(cdc).textures@).contains(tex.id) && old(cdc).textures@.len() >= max),
        1 <= slot <= final(cdc).textures@.len(),
        final(cdc).textures@[slot - 1].id == tex.id,
        ids(old(cdc).textures@).contains(tex.id) ==> *final(cdc) == *old(cdc) && final(calls)@ == old(calls)@,
        ids(old(cdc).textures@).contains(tex.id) ==> ids(old(cdc).textures@).index_of(tex.id) == slot - 1,
        final(calls)@ == old(calls)@ ==> final(cdc).vertices@ == old(cdc).vertices@ && final(cdc).indices@ == old(cdc).indices@,
        final(calls)@ != old(calls)@ ==> final(calls)@ == old(calls)@.push(*old(cdc)) && final(cdc).vertices@.len() == 0 && final(cdc).indices@.len() == 0,
{
    let ghost old_ids = ids(cdc.textures@);
    let mut i: usize = 0;
    while i < cdc.textures.len()
        invariant
            0 <= i <= cdc.textures@.len(),
            cdc.textures@.len() <= max,
            forall|j: int| 0 <= j < i ==> cdc.textures@[j].id != tex.id,
            old_ids == ids(cdc.textures@),
            *cdc == *old(cdc),
            calls@ == old(calls)@,
            cdc.valid(max as nat),
            max <= u32::MAX,
        decreases cdc.textures@.len() - i,
    {
        if cdc.textures[i].id == tex.id {
            proof {
                assert(old_ids[i as int] == tex.id);
                assert(old_ids.contains(tex.id));
                old_ids.index_of_first_ensures(tex.id);
                assert(old_ids.no_duplicates());
                let k = old_ids.index_of(tex.id);
                assert(old_ids[k] == tex.id);
                assert(k == i);
            }
            return (i + 1) as u32;
        }
        i = i + 1;
    }
    proof {
        assert(!old_ids.contains(tex.id)) by {
            if old_ids.contains(tex.id) {
                let k = choose|k: int| 0 <= k < old_ids.len() && old_ids[k] == tex.id;
                assert(cdc.textures@[k].id == tex.id);
            }
        }
    }
    let ghost b = batches(calls@, *cdc);
    if cdc.textures.len() < max {
        cdc.textures.push(tex);
        proof {
            assert(ids(cdc.textures@) =~= old_ids.push(tex.id));
            assert(batches(calls@, *cdc) =~= b.update(b.len() - 1, old_ids.push(tex.id)));
        }
        cdc.textures.len() as u32
    } else {
        let mut fresh = DrawCall::empty();
        std::mem::swap(&mut fresh, cdc);
        calls.push(fresh);
        cdc.textures.push(tex);
        proof {
            assert(ids(cdc.textures@) =~= seq![tex.id]);
            assert(calls@.map_values(|c: DrawCall| ids(c.textures@)) =~= b.drop_last().push(old_ids));
            assert(b.drop_last().push(old_ids) =~= b);
            assert(batches(calls@, *cdc) =~= b.push(seq![tex.id]));
            assert(calls@ != old(calls)@) by {
                assert(calls@.len() != old(calls)@.len());
            }
        }
        1
    }
}

/// One point of a polyline: its position, the line's width there, and how
/// the segments meeting there are joined.
#[derive(Clone, Copy, Debug, PartialEq, Eq)]
pub struct LinePoint {
    pub pos: Vec2,
    pub width: i64,
    pub join: LineJoinStyle,
}

/// Where the font cache placed a glyph: its rectangle in the atlas (in `ONE`
/// units) and on screen (in sub-pixel units).
#[derive(Clone, Copy, Debug, PartialEq, Eq)]
pub struct GlyphPlacement {
    pub uv_min: Vec2,
    pub uv_max: Vec2,
    pub pos_min: Vec2,
    pub pos_max: Vec2,
}

impl GlyphPlacement {
    pub open spec fn wf(self) -> bool {
        self.uv_min.wf() && self.uv_max.wf() && self.pos_min.wf() && self.pos_max.wf()
    }
}

/// The shape of one drawing request. Positions and sizes are in sub-pixel
/// units, scales and ellipseness in `ONE` units, texture source rectangles in
/// texels.
#[derive(Debug)]
pub enum DrawCommandData {
    Rect { pos: Vec2, size: Vec2, rotation: Rotation, corner_radii: [u8; 4] },
    Texture {
        texture: Texture,
        pos: Vec2,
        scale: Vec2,
        source_pos: Vec2,
        source_size: Vec2,
        rotation: Rotation,
        corner_radii: [u8; 4],
    },
    /// A glyph, by its index in the frame's table of glyph placements.
    TextChar { font: u32, glyph: usize },
    Triangle { verts: [Vec2; 3], tex_uvs: Option<(Texture, [Vec2; 3])> },
    Circle { center: Vec2, radius: i64, elipseness: Vec2 },
    Line { points: Vec<LinePoint>, ends: (LineEndStyle, LineEndStyle) },
}

/// A drawing request with the transform and colour that were current when it
/// was issued.
#[derive(Debug)]
pub struct DrawCommand {
    pub transform: Mat3,
    pub colour: Colour,
    pub data: DrawCommandData,
}

/// A coordinate in range.
pub open spec fn in_range(v: i64) -> bool {
    -BOUND <= v <= BOUND
}

impl DrawCommandData {
    pub open spec fn wf(&self) -> bool {
        match self {
            DrawCommandData::Rect { pos, size, rotation, .. } => pos.wf() && size.wf() && rotation.wf(),
            DrawCommandData::Texture { pos, scale, source_pos, source_size, rotation, .. } => pos.wf()
                && scale.wf() && source_pos.wf() && source_size.wf() && rotation.wf(),
            DrawCommandData::TextChar { .. } => true,
            DrawCommandData::Triangle { verts, tex_uvs } => verts@[0].wf() && verts@[1].wf()
                && verts@[2].wf() && match tex_uvs {
                Some((_, uvs)) => uvs@[0].wf() && uvs@[1].wf() && uvs@[2].wf(),
                None => true,
            },
            DrawCommandData::Circle { center, radius, elipseness } => center.wf() && in_range(*radius)
                && elipseness.wf(),
            DrawCommandData::Line { points, .. } => crate::line::points_wf(points@),
        }
    }
}

impl DrawCommand {
    pub open spec fn wf(&self) -> bool {
        self.transform.wf() && self.data.wf()
    }
}

/// Most vertices that a command can add to a draw call.
pub open spec fn cmd_cost(c: DrawCommand) -> int {
    match c.data {
        DrawCommandData::Triangle { .. } => 3,
        DrawCommandData::Circle { .. } => 3,
        DrawCommandData::Line { points, .. } => 7 * points@.len() as int,
        _ => 4,
    }
}

/// Most vertices that a sequence of commands can add.
pub open spec fn frame_cost(cs: Seq<DrawCommand>) -> int
    decreases cs.len(),
{
    if cs.len() == 0 {
        0
    } else {
        frame_cost(cs.drop_last()) + cmd_cost(cs.last())
    }
}

/// The textures a command binds, in order.
pub open spec fn cmd_uses(c: DrawCommand, font_texture: u64) -> Seq<u64> {
    match c.data {
        DrawCommandData::Texture { texture, .. } => seq![texture.id],
        DrawCommandData::TextChar { .. } => seq![font_texture],
        DrawCommandData::Triangle { tex_uvs, .. } => match tex_uvs {
            Some((t, _)) => seq![t.id],
            None => Seq::empty(),
        },
        _ => Seq::empty(),
    }
}

/// The textures a sequence of commands binds, in order.
pub open spec fn texture_uses(cs: Seq<DrawCommand>, font_texture: u64) -> Seq<u64>
    decreases cs.len(),
{
    if cs.len() == 0 {
        Seq::empty()
    } else {
        texture_uses(cs.drop_last(), font_texture) + cmd_uses(cs.last(), font_texture)
    }
}

/// The six indices of the two triangles of a quad whose first vertex is `n`.
pub open spec fn quad_indices(n: int) -> Seq<u32> {
    seq![n as u32, (n + 1) as u32, (n + 2) as u32, (n + 2) as u32, (n + 1) as u32, (n + 3) as u32]
}

/// A vertex at `p` (before the transform `t`).
pub open spec fn vertex_spec(
    t: Mat3,
    p: Vec2,
    uv: Vec2,
    colour: Colour,
    rb_pos: Vec2,
    rb_size: Vec2,
    rounding: [u8; 4],
    tex: u32,
) -> Vertex2d {
    Vertex2d {
        pos: mat3_apply_spec(t, p),
        uv,
        colour,
        rounding_pos: rb_pos,
        rounding_size: rb_size,
        rounding,
        tex,
    }
}

fn make_vertex(
    t: &Mat3,
    p: Vec2,
    uv: Vec2,
    colour: Colour,
    rb_pos: Vec2,
    rb_size: Vec2,
    rounding: [u8; 4],
    tex: u32,
) -> (r: Vertex2d)
    requires
        t.wf(),
        p.wf(),
    ensures
        r == vertex_spec(*t, p, uv, colour, rb_pos, rb_size, rounding, tex),
        r.pos.wf(),
{
    Vertex2d { pos: t.apply(p), uv, colour, rounding_pos: rb_pos, rounding_size: rb_size, rounding, tex }
}

pub open spec fn add_spec(a: Vec2, b: Vec2) -> Vec2 {
    Vec2 { x: clamp_spec(a.x + b.x) as i64, y: clamp_spec(a.y + b.y) as i64 }
}

/// The four corners of an axis-aligned box: top-left, top-right,
/// bottom-left, bottom-right.
pub open spec fn corners(pos: Vec2, size: Vec2) -> Seq<Vec2> {
    seq![
        pos,
        add_spec(pos, Vec2 { x: size.x, y: 0 }),
        add_spec(pos, Vec2 { x: 0, y: size.y }),
        add_spec(pos, size),
    ]
}

fn corners_exec(pos: Vec2, size: Vec2) -> (r: [Vec2; 4])
    requires
        pos.wf(),
        size.wf(),
    ensures
        r@ == corners(pos, size),
        forall|i: int| 0 <= i < 4 ==> #[trigger] r@[i].wf(),
{
    let r = [
        pos,
        pos.add(Vec2 { x: size.x, y: 0 }),
        pos.add(Vec2 { x: 0, y: size.y }),
        pos.add(size),
    ];
    assert(r@ =~= corners(pos, size));
    r
}

/// `n / d` in `ONE` units, or 0 where `d` is 0.
pub open spec fn ratio(n: int, d: int) -> int {
    if d == 0 {
        0
    } else {
        clamp_spec(sdiv(n * ONE, d))
    }
}

fn ratio_exec(n: i64, d: i64) -> (r: i64)
    requires
        in_range(n),
        in_range(d),
    ensures
        r == ratio(n as int, d as int),
        in_range(r),
{
    if d == 0 {
        0
    } else {
        proof {
            crate::math::lemma_product_bound(n as int, ONE as int);
        }
        let a = n as i128 * ONE as i128;
        let q = if d > 0 {
            crate::math::div_trunc(a, d as i128)
        } else {
            crate::math::div_trunc(-a, -(d as i128))
        };
        clamp_wide(q)
    }
}

/// The UV extent of a rectangle: the longer side spans 0..`ONE`, the shorter
/// one proportionally less.
pub open spec fn rect_uv(size: Vec2) -> Vec2 {
    if size.x > size.y {
        Vec2 { x: ONE, y: ratio(size.y as int, size.x as int) as i64 }
    } else {
        Vec2 { x: ratio(size.x as int, size.y as int) as i64, y: ONE }
    }
}

/// The four vertices of a quad: `ps` are the corners (before the transform),
/// `uv0`, `uv1` the UVs of the first and last corner.
pub open spec fn quad_spec(
    t: Mat3,
    ps: Seq<Vec2>,
    uv0: Vec2,
    uv1: Vec2,
    colour: Colour,
    rb_pos: Vec2,
    rb_size: Vec2,
    rounding: [u8; 4],
    tex: u32,
) -> Seq<Vertex2d> {
    seq![
        vertex_spec(t, ps[0], uv0, colour, rb_pos, rb_size, rounding, tex),
        vertex_spec(t, ps[1], Vec2 { x: uv1.x, y: uv0.y }, colour, rb_pos, rb_size, rounding, tex),
        vertex_spec(t, ps[2], Vec2 { x: uv0.x, y: uv1.y }, colour, rb_pos, rb_size, rounding, tex),
        vertex_spec(t, ps[3], uv1, colour, rb_pos, rb_size, rounding, tex),
    ]
}

/// The vertices of a rectangle command.
pub open spec fn rect_spec(t: Mat3, colour: Colour, pos: Vec2, size: Vec2, rot: Rotation, radii: [u8; 4]) -> Seq<Vertex2d> {
    let cs = corners(pos, size);
    let uv = rect_uv(size);
    quad_spec(
        t,
        cs.map_values(|c: Vec2| rotated_spec(c, rot)),
        Vec2 { x: 0, y: 0 },
        uv,
        colour,
        Vec2 { x: 0, y: 0 },
        uv,
        radii,
        0,
    )
}

/// Appends the four vertices `vs` and the two triangles of a quad.
fn push_quad(cdc: &mut DrawCall, vs: [Vertex2d; 4], Ghost(max): Ghost<nat>)
    requires
        old(cdc).valid(max),
        old(cdc).vertices@.len() + 4 <= MAX_VERTS,
        forall|i: int| 0 <= i < 4 ==> #[trigger] vs@[i].tex <= old(cdc).textures@.len(),
    ensures
        final(cdc).valid(max),
        final(cdc).vertices@ == old(cdc).vertices@ + vs@,
        final(cdc).indices@ == old(cdc).indices@ + quad_indices(old(cdc).vertices@.len() as int),
        final(cdc).textures@ == old(cdc).textures@,
{
    let n = cdc.vertices.len() as u32;
    cdc.vertices.push(vs[0]);
    cdc.vertices.push(vs[1]);
    cdc.vertices.push(vs[2]);
    cdc.vertices.push(vs[3]);
    cdc.indices.push(n);
    cdc.indices.push(n + 1);
    cdc.indices.push(n + 2);
    cdc.indices.push(n + 2);
    cdc.indices.push(n + 1);
    cdc.indices.push(n + 3);
    assert(cdc.vertices@ =~= old(cdc).vertices@ + vs@);
    assert(cdc.indices@ =~= old(cdc).indices@ + quad_indices(n as int));
}

fn quad_exec(
    t: &Mat3,
    ps: [Vec2; 4],
    uv0: Vec2,
    uv1: Vec2,
    colour: Colour,
    rb_pos: Vec2,
    rb_size: Vec2,
    rounding: [u8; 4],
    tex: u32,
) -> (r: [Vertex2d; 4])
    requires
        t.wf(),
        forall|i: int| 0 <= i < 4 ==> #[trigger] ps@[i].wf(),
    ensures
        r@ == quad_spec(*t, ps@, uv0, uv1, colour, rb_pos, rb_size, rounding, tex),
        forall|i: int| 0 <= i < 4 ==> #[trigger] r@[i].tex == tex,
{
    let r = [
        make_vertex(t, ps[0], uv0, colour, rb_pos, rb_size, rounding, tex),
        make_vertex(t, ps[1], Vec2 { x: uv1.x, y: uv0.y }, colour, rb_pos, rb_size, rounding, tex),
        make_vertex(t, ps[2], Vec2 { x: uv0.x, y: uv1.y }, colour, rb_pos, rb_size, rounding, tex),
        make_vertex(t, ps[3], uv1, colour, rb_pos, rb_size, rounding, tex),
    ];
    assert(r@ =~= quad_spec(*t, ps@, uv0, uv1, colour, rb_pos, rb_size, rounding, tex));
    r
}

/// Tessellates a rectangle: four vertices and two triangles, no texture.
pub fn tess_rect(
    cdc: &mut DrawCall,
    t: &Mat3,
    colour: Colour,
    pos: Vec2,
    size: Vec2,
    rot: Rotation,
    radii: [u8; 4],
    Ghost(max): Ghost<nat>,
)
    requires
        old(cdc).valid(max),
        old(cdc).vertices@.len() + 4 <= MAX_VERTS,
        t.wf(),
        pos.wf(),
        size.wf(),
        rot.wf(),
    ensures
        final(cdc).valid(max),
        final(cdc).vertices@ == old(cdc).vertices@ + rect_spec(*t, colour, pos, size, rot, radii),
        final(cdc).indices@ == old(cdc).indices@ + quad_indices(old(cdc).vertices@.len() as int),
        final(cdc).textures@ == old(cdc).textures@,
{
    let cs = corners_exec(pos, size);
    let ps = [cs[0].rotated(rot), cs[1].rotated(rot), cs[2].rotated(rot), cs[3].rotated(rot)];
    assert(ps@ =~= corners(pos, size).map_values(|c: Vec2| rotated_spec(c, rot)));
    let uv = if size.x > size.y {
        Vec2 { x: ONE, y: ratio_exec(size.y, size.x) }
    } else {
        Vec2 { x: ratio_exec(size.x, size.y), y: ONE }
    };
    let zero = Vec2 { x: 0, y: 0 };
    let vs = quad_exec(t, ps, zero, uv, colour, zero, uv, radii, 0);
    push_quad(cdc, vs, Ghost(max));
}

/// The draw size of a texture at `scale`, in sub-pixel units.
pub open spec fn texture_draw_size(texture: Texture, scale: Vec2) -> Vec2 {
    Vec2 {
        x: clamp_spec(tdiv(texture.width * SUB * scale.x, ONE as int)) as i64,
        y: clamp_spec(tdiv(texture.height * SUB * scale.y, ONE as int)) as i64,
    }
}

/// A texel position as a UV in `ONE` units of the texture's size.
pub open spec fn texel_uv(v: Vec2, texture: Texture) -> Vec2 {
    Vec2 { x: ratio(v.x as int, texture.width as int) as i64, y: ratio(v.y as int, texture.height as int) as i64 }
}

/// The vertices of a texture command whose texture is bound at `slot`.
pub open spec fn texture_spec(
    t: Mat3,
    colour: Colour,
    texture: Texture,
    pos: Vec2,
    scale: Vec2,
    source_pos: Vec2,
    source_size: Vec2,
    rot: Rotation,
    radii: [u8; 4],
    slot: u32,
) -> Seq<Vertex2d> {
    let cs = corners(pos, texture_draw_size(texture, scale));
    let base = texel_uv(source_pos, texture);
    let extent = texel_uv(source_size, texture);
    quad_spec(
        t,
        cs.map_values(|c: Vec2| rotated_spec(c, rot)),
        base,
        add_spec(base, extent),
        colour,
        base,
        extent,
        radii,
        slot,
    )
}

/// What remains of the current call's vertices after a texture is bound:
/// all of them, or none where the call was closed.
pub open spec fn kept(old_calls: Seq<DrawCall>, new_calls: Seq<DrawCall>, old_vs: Seq<Vertex2d>) -> Seq<Vertex2d> {
    if new_calls == old_calls {
        old_vs
    } else {
        Seq::empty()
    }
}

fn texel_uv_exec(v: Vec2, texture: Texture) -> (r: Vec2)
    requires
        v.wf(),
    ensures
        r == texel_uv(v, texture),
        r.wf(),
{
    Vec2 { x: ratio_exec(v.x, texture.width as i64), y: ratio_exec(v.y, texture.height as i64) }
}

/// Tessellates a textured quad, binding its texture first.
pub fn tess_texture(
    calls: &mut Vec<DrawCall>,
    cdc: &mut DrawCall,
    t: &Mat3,
    colour: Colour,
    texture: Texture,
    pos: Vec2,
    scale: Vec2,
    source_pos: Vec2,
    source_size: Vec2,
    rot: Rotation,
    radii: [u8; 4],
    max: usize,
) -> (slot: u32)
    requires
        old(cdc).valid(max as nat),
        old(cdc).vertices@.len() + 4 <= MAX_VERTS,
        1 <= max <= u32::MAX,
        t.wf(),
        pos.wf(),
        scale.wf(),
        source_pos.wf(),
        source_size.wf(),
        rot.wf(),
    ensures
        final(cdc).valid(max as nat),
        batches(final(calls)@, *final(cdc)) == batch_step(batches(old(calls)@, *old(cdc)), texture.id, max as nat),
        (final(calls)@ != old(calls)@) == (!ids(old(cdc).textures@).contains(texture.id) && old(cdc).textures@.len() >= max),
        final(calls)@ != old(calls)@ ==> final(calls)@ == old(calls)@.push(*old(cdc)),
        1 <= slot <= final(cdc).textures@.len(),
        final(cdc).textures@[slot - 1].id == texture.id,
        final(cdc).vertices@ == kept(old(calls)@, final(calls)@, old(cdc).vertices@)
            + texture_spec(*t, colour, texture, pos, scale, source_pos, source_size, rot, radii, slot),
        final(cdc).indices@ == (if final(calls)@ == old(calls)@ { old(cdc).indices@ } else { Seq::empty() })
            + quad_indices(kept(old(calls)@, final(calls)@, old(cdc).vertices@).len() as int),
{
    let slot = use_tex(calls, cdc, texture, max);
    let size = Vec2 {
        x: mul_frac(texture.width as i64 * SUB, scale.x, ONE),
        y: mul_frac(texture.height as i64 * SUB, scale.y, ONE),
    };
    let cs = corners_exec(pos, size);
    let ps = [cs[0].rotated(rot), cs[1].rotated(rot), cs[2].rotated(rot), cs[3].rotated(rot)];
    assert(ps@ =~= corners(pos, size).map_values(|c: Vec2| rotated_spec(c, rot)));
    let base = texel_uv_exec(source_pos, texture);
    let extent = texel_uv_exec(source_size, texture);
    let vs = quad_exec(t, ps, base, base.add(extent), colour, base, extent, radii, slot);
    push_quad(cdc, vs, Ghost(max as nat));
    slot
}

pub open spec fn glyph_corners(g: GlyphPlacement) -> Seq<Vec2> {
    seq![
        g.pos_min,
        Vec2 { x: g.pos_max.x, y: g.pos_min.y },
        Vec2 { x: g.pos_min.x, y: g.pos_max.y },
        g.pos_max,
    ]
}

/// The vertices of a placed glyph whose atlas is bound at `slot`.
pub open spec fn glyph_spec(t: Mat3, colour: Colour, g: GlyphPlacement, slot: u32) -> Seq<Vertex2d> {
    quad_spec(
        t,
        glyph_corners(g),
        g.uv_min,
        g.uv_max,
        colour,
        Vec2 { x: 0, y: 0 },
        Vec2 { x: ONE, y: ONE },
        [0u8, 0u8, 0u8, 0u8],
        slot,
    )
}

/// Tessellates a glyph: binds the font atlas, then draws the glyph's quad
/// where the font cache has placed it, and nothing where it has not.
pub fn tess_glyph(
    calls: &mut Vec<DrawCall>,
    cdc: &mut DrawCall,
    t: &Mat3,
    colour: Colour,
    atlas: Texture,
    placement: Option<GlyphPlacement>,
    max: usize,
) -> (slot: u32)
    requires
        old(cdc).valid(max as nat),
        old(cdc).vertices@.len() + 4 <= MAX_VERTS,
        1 <= max <= u32::MAX,
        t.wf(),
        placement matches Some(g) ==> g.wf(),
    ensures
        final(cdc).valid(max as nat),
        batches(final(calls)@, *final(cdc)) == batch_step(batches(old(calls)@, *old(cdc)), atlas.id, max as nat),
        (final(calls)@ != old(calls)@) == (!ids(old(cdc).textures@).contains(atlas.id) && old(cdc).textures@.len() >= max),
        final(calls)@ != old(calls)@ ==> final(calls)@ == old(calls)@.push(*old(cdc)),
        1 <= slot <= final(cdc).textures@.len(),
        final(cdc).textures@[slot - 1].id == atlas.id,
        placement matches Some(g) ==> final(cdc).vertices@ == kept(old(calls)@, final(calls)@, old(cdc).vertices@)
            + glyph_spec(*t, colour, g, slot),
        placement matches Some(g) ==> final(cdc).indices@ == (if final(calls)@ == old(calls)@ { old(cdc).indices@ } else { Seq::empty() })
            + quad_indices(kept(old(calls)@, final(calls)@, old(cdc).vertices@).len() as int),
        placement is None ==> final(cdc).vertices@ == kept(old(calls)@, final(calls)@, old(cdc).vertices@),
        placement is None ==> final(cdc).indices@ == (if final(calls)@ == old(calls)@ { old(cdc).indices@ } else { Seq::empty() }),
{
    let slot = use_tex(calls, cdc, atlas, max);
    match placement {
        Some(g) => {
            let ps = [
                g.pos_min,
                Vec2 { x: g.pos_max.x, y: g.pos_min.y },
                Vec2 { x: g.pos_min.x, y: g.pos_max.y },
                g.pos_max,
            ];
            assert(ps@ =~= glyph_corners(g));
            let vs = quad_exec(t, ps, g.uv_min, g.uv_max, colour, Vec2 { x: 0, y: 0 }, Vec2 { x: ONE, y: ONE }, [0u8, 0u8, 0u8, 0u8], slot);
            push_quad(cdc, vs, Ghost(max as nat));
        },
        None => {},
    }
    slot
}

/// The vertices of a triangle with UVs `uvs` and texture slot `slot`.
pub open spec fn triangle_spec(t: Mat3, colour: Colour, verts: Seq<Vec2>, uvs: Seq<Vec2>, slot: u32) -> Seq<Vertex2d> {
    seq![
        vertex_spec(t, verts[0], uvs[0], colour, Vec2 { x: 0, y: 0 }, Vec2 { x: ONE, y: ONE }, [0u8, 0u8, 0u8, 0u8], slot),
        vertex_spec(t, verts[1], uvs[1], colour, Vec2 { x: 0, y: 0 }, Vec2 { x: ONE, y: ONE }, [0u8, 0u8, 0u8, 0u8], slot),
        vertex_spec(t, verts[2], uvs[2], colour, Vec2 { x: 0, y: 0 }, Vec2 { x: ONE, y: ONE }, [0u8, 0u8, 0u8, 0u8], slot),
    ]
}

pub open spec fn tri_indices(n: int) -> Seq<u32> {
    seq![n as u32, (n + 1) as u32, (n + 2) as u32]
}

/// Appends three vertices at `verts` (before the transform) and their triangle.
fn push_triangle(
    cdc: &mut DrawCall,
    t: &Mat3,
    colour: Colour,
    verts: [Vec2; 3],
    uvs: [Vec2; 3],
    rounding: [u8; 4],
    slot: u32,
    Ghost(max): Ghost<nat>,
)
    requires
        old(cdc).valid(max),
        old(cdc).vertices@.len() + 3 <= MAX_VERTS,
        slot <= old(cdc).textures@.len(),
        t.wf(),
        verts@[0].wf(),
        verts@[1].wf(),
        verts@[2].wf(),
    ensures
        final(cdc).valid(max),
        final(cdc).vertices@ == old(cdc).vertices@ + seq![
            vertex_spec(*t, verts@[0], uvs@[0], colour, Vec2 { x: 0, y: 0 }, Vec2 { x: ONE, y: ONE }, rounding, slot),
            vertex_spec(*t, verts@[1], uvs@[1], colour, Vec2 { x: 0, y: 0 }, Vec2 { x: ONE, y: ONE }, rounding, slot),
            vertex_spec(*t, verts@[2], uvs@[2], colour, Vec2 { x: 0, y: 0 }, Vec2 { x: ONE, y: ONE }, rounding, slot),
        ],
        final(cdc).indices@ == old(cdc).indices@ + tri_indices(old(cdc).vertices@.len() as int),
        final(cdc).textures@ == old(cdc).textures@,
{
    let n = cdc.vertices.len() as u32;
    let zero = Vec2 { x: 0, y: 0 };
    let unit = Vec2 { x: ONE, y: ONE };
    let v0 = make_vertex(t, verts[0], uvs[0], colour, zero, unit, rounding, slot);
    let v1 = make_vertex(t, verts[1], uvs[1], colour, zero, unit, rounding, slot);
    let v2 = make_vertex(t, verts[2], uvs[2], colour, zero, unit, rounding, slot);
    cdc.vertices.push(v0);
    cdc.vertices.push(v1);
    cdc.vertices.push(v2);
    cdc.indices.push(n);
    cdc.indices.push(n + 1);
    cdc.indices.push(n + 2);
    assert(cdc.vertices@ =~= old(cdc).vertices@ + seq![v0, v1, v2]);
    assert(cdc.indices@ =~= old(cdc).indices@ + tri_indices(n as int));
}

/// The UV given to each corner of an untextured triangle.
pub const HALF: i64 = 32768;

/// Tessellates a triangle, flat or textured.
pub fn tess_triangle(
    calls: &mut Vec<DrawCall>,
    cdc: &mut DrawCall,
    t: &Mat3,
    colour: Colour,
    verts: [Vec2; 3],
    tex_uvs: Option<(Texture, [Vec2; 3])>,
    max: usize,
) -> (slot: u32)
    requires
        old(cdc).valid(max as nat),
        old(cdc).vertices@.len() + 3 <= MAX_VERTS,
        1 <= max <= u32::MAX,
        t.wf(),
        verts@[0].wf(),
        verts@[1].wf(),
        verts@[2].wf(),
    ensures
        final(cdc).valid(max as nat),
        tex_uvs is None ==> slot == 0 && final(calls)@ == old(calls)@ && final(cdc).textures@ == old(cdc).textures@,
        tex_uvs is None ==> final(cdc).vertices@ == old(cdc).vertices@
            + triangle_spec(*t, colour, verts@, seq![Vec2 { x: HALF, y: HALF }, Vec2 { x: HALF, y: HALF }, Vec2 { x: HALF, y: HALF }], 0),
        tex_uvs matches Some((tx, uvs)) ==> batches(final(calls)@, *final(cdc)) == batch_step(batches(old(calls)@, *old(cdc)), tx.id, max as nat)
            && (final(calls)@ != old(calls)@) == (!ids(old(cdc).textures@).contains(tx.id) && old(cdc).textures@.len() >= max)
            && 1 <= slot <= final(cdc).textures@.len()
            && final(cdc).textures@[slot - 1].id == tx.id
            && final(cdc).vertices@ == kept(old(calls)@, final(calls)@, old(cdc).vertices@) + triangle_spec(*t, colour, verts@, uvs@, slot),
        final(calls)@ != old(calls)@ ==> final(calls)@ == old(calls)@.push(*old(cdc)),
        final(cdc).indices@ == (if final(calls)@ == old(calls)@ { old(cdc).indices@ } else { Seq::empty() })
            + tri_indices(kept(old(calls)@, final(calls)@, old(cdc).vertices@).len() as int),
{
    let (slot, uvs) = match tex_uvs {
        Some((tx, uvs)) => (use_tex(calls, cdc, tx, max), uvs),
        None => {
            let h = Vec2 { x: HALF, y: HALF };
            (0, [h, h, h])
        },
    };
    proof {
        if tex_uvs is None {
            assert(uvs@ =~= seq![Vec2 { x: HALF, y: HALF }, Vec2 { x: HALF, y: HALF }, Vec2 { x: HALF, y: HALF }]);
        }
    }
    push_triangle(cdc, t, colour, verts, uvs, [0u8, 0u8, 0u8, 0u8], slot, Ghost(max as nat));
    slot
}

/// The square root of three in `ONE` units.
pub const SQRT3: i64 = 113512;

/// UV of the left corner of the triangle that circumscribes a circle.
pub const CIRCLE_LEFT_U: i64 = -23988;

/// UV of the right corner of the triangle that circumscribes a circle.
pub const CIRCLE_RIGHT_U: i64 = 89524;

/// UV of the top corner of the triangle that circumscribes a circle.
pub const CIRCLE_TOP_V: i64 = 98304;

/// The matrix that stretches a circle into an ellipse along `e`, by the
/// length of `e` (in `ONE` units) plus one.
pub open spec fn ellipse_matrix(e: Vec2) -> Mat2 {
    let dir = if e.len_sq() == 0 { Vec2 { x: ONE, y: 0 } } else { unit_of(e) };
    let len = clamp_spec(ceil_len(e) + ONE);
    Mat2 {
        m11: clamp_spec(tdiv(dir.x * len, ONE as int)) as i64,
        m12: (-dir.y) as i64,
        m21: clamp_spec(tdiv(dir.y * len, ONE as int)) as i64,
        m22: dir.x,
    }
}

/// The corners (left, top, right) of the triangle that circumscribes an
/// ellipse; its UVs place the inscribed circle at UV 0..1.
pub open spec fn circle_corners(center: Vec2, radius: i64, e: Vec2) -> Seq<Vec2> {
    let m = ellipse_matrix(e);
    let sr = clamp_spec(tdiv(SQRT3 * radius, ONE as int)) as i64;
    seq![
        add_spec(center, mat2_apply_spec(m, Vec2 { x: (-sr) as i64, y: (-radius) as i64 })),
        add_spec(center, mat2_apply_spec(m, Vec2 { x: 0, y: clamp_spec(2 * radius) as i64 })),
        add_spec(center, mat2_apply_spec(m, Vec2 { x: sr, y: (-radius) as i64 })),
    ]
}

pub open spec fn circle_uvs() -> Seq<Vec2> {
    seq![Vec2 { x: CIRCLE_LEFT_U, y: 0 }, Vec2 { x: HALF, y: CIRCLE_TOP_V }, Vec2 { x: CIRCLE_RIGHT_U, y: 0 }]
}

/// The vertices of a circle or ellipse command.
pub open spec fn circle_spec(t: Mat3, colour: Colour, center: Vec2, radius: i64, e: Vec2) -> Seq<Vertex2d> {
    let cs = circle_corners(center, radius, e);
    let uvs = circle_uvs();
    seq![
        vertex_spec(t, cs[0], uvs[0], colour, Vec2 { x: 0, y: 0 }, Vec2 { x: ONE, y: ONE }, [255u8, 255u8, 255u8, 255u8], 0),
        vertex_spec(t, cs[1], uvs[1], colour, Vec2 { x: 0, y: 0 }, Vec2 { x: ONE, y: ONE }, [255u8, 255u8, 255u8, 255u8], 0),
        vertex_spec(t, cs[2], uvs[2], colour, Vec2 { x: 0, y: 0 }, Vec2 { x: ONE, y: ONE }, [255u8, 255u8, 255u8, 255u8], 0),
    ]
}

fn ellipse_matrix_exec(e: Vec2) -> (m: Mat2)
    requires
        e.wf(),
    ensures
        m == ellipse_matrix(e),
        m.wf(),
{
    let dir = e.normalize_or(Vec2 { x: ONE, y: 0 });
    let l = e.length();
    proof {
        crate::math::lemma_ceil_len(e, l as int);
    }
    let len = clamp_wide(l as i128 + ONE as i128);
    Mat2 { m11: mul_frac(dir.x, len, ONE), m12: -dir.y, m21: mul_frac(dir.y, len, ONE), m22: dir.x }
}

/// Tessellates a circle or ellipse as one triangle that circumscribes it.
pub fn tess_circle(
    cdc: &mut DrawCall,
    t: &Mat3,
    colour: Colour,
    center: Vec2,
    radius: i64,
    e: Vec2,
    Ghost(max): Ghost<nat>,
)
    requires
        old(cdc).valid(max),
        old(cdc).vertices@.len() + 3 <= MAX_VERTS,
        t.wf(),
        center.wf(),
        in_range(radius),
        e.wf(),
    ensures
        final(cdc).valid(max),
        final(cdc).vertices@ == old(cdc).vertices@ + circle_spec(*t, colour, center, radius, e),
        final(cdc).indices@ == old(cdc).indices@ + tri_indices(old(cdc).vertices@.len() as int),
        final(cdc).textures@ == old(cdc).textures@,
{
    let m = ellipse_matrix_exec(e);
    let sr = mul_frac(SQRT3, radius, ONE);
    let left = center.add(m.apply(Vec2 { x: (-sr) as i64, y: (-radius) as i64 }));
    let top = center.add(m.apply(Vec2 { x: 0, y: clamp_wide(2 * radius as i128) }));
    let right = center.add(m.apply(Vec2 { x: sr, y: -radius }));
    let uvs = [Vec2 { x: CIRCLE_LEFT_U, y: 0 }, Vec2 { x: HALF, y: CIRCLE_TOP_V }, Vec2 { x: CIRCLE_RIGHT_U, y: 0 }];
    push_triangle(cdc, t, colour, [left, top, right], uvs, [255u8, 255u8, 255u8, 255u8], 0, Ghost(max));
}

} // verus!
