//! The drawing primitives: each appends one command that captures the
//! current transform and colour. Positions, sizes and widths are in pixels.

use vstd::prelude::*;
use crate::line::points_wf;
use crate::math::{clamp_spec, clamp_wide, rotated_spec, tdiv, Mat3, Rotation, Vec2, ONE, SUB};
use crate::render::{
    frame_cost, in_range, Colour, DrawCall, DrawCommand, DrawCommandData, GlyphPlacement,
    LineEndStyle, LineJoinStyle, LinePoint, MAX_VERTS,
};
use crate::state::{placements_wf, CareRenderState};
use crate::texture::Texture;

verus! {

/// Largest magnitude of a coordinate given in pixels.
pub const PX_MAX: i64 = 4294967296;

/// A pixel coordinate in range.
pub open spec fn px_in(v: i64) -> bool {
    -PX_MAX <= v <= PX_MAX
}

/// Both components are pixel coordinates in range.
pub open spec fn px_ok(v: Vec2) -> bool {
    px_in(v.x) && px_in(v.y)
}

/// A pixel position in sub-pixel units.
pub open spec fn to_sub(v: Vec2) -> Vec2 {
    Vec2 { x: (v.x * SUB) as i64, y: (v.y * SUB) as i64 }
}

/// A pixel position in sub-pixel units.
pub fn to_sub_exec(v: Vec2) -> (r: Vec2)
    requires
        px_ok(v),
    ensures
        r == to_sub(v),
        r.wf(),
{
    Vec2 { x: v.x * SUB, y: v.y * SUB }
}

/// `n` holds one more command than `o`, issued with the transform and
/// colour that were current in `o`; nothing else changed.
pub open spec fn issued(o: &CareRenderState, n: &CareRenderState) -> bool {
    &&& n.commands@.len() == o.commands@.len() + 1
    &&& forall|i: int| 0 <= i < o.commands@.len() ==> n.commands@[i] == o.commands@[i]
    &&& n.same_settings(o)
    &&& n.commands@.last().transform == o.current_transform
    &&& n.commands@.last().colour == o.current_colour
    &&& n.wf()
}

/// Appends a command with the current transform and colour.
fn issue(render: &mut CareRenderState, data: DrawCommandData)
    requires
        old(render).wf(),
        data.wf(),
    ensures
        issued(old(render), final(render)),
        final(render).commands@.last().data == data,
{
    let command = DrawCommand { transform: render.current_transform, colour: render.current_colour, data };
    render.commands.push(command);
}

/// A command keeps the colour and transform that were current when it was
/// issued: changes made afterwards (which leave the issued commands as they
/// are) do not reach it.
pub proof fn lemma_capture_by_value(before: CareRenderState, issued_state: CareRenderState, later: CareRenderState)
    requires
        issued(&before, &issued_state),
        later.commands@ == issued_state.commands@,
    ensures
        later.commands@[before.commands@.len() as int].colour == before.current_colour,
        later.commands@[before.commands@.len() as int].transform == before.current_transform,
{
}

/// After a frame is presented the next one starts afresh: the first command
/// it issues has the identity transform and opaque white.
pub proof fn lemma_frame_starts_fresh(presented: CareRenderState, next: CareRenderState)
    requires
        presented.current_transform.is_ident(),
        presented.current_colour.is_white(),
        presented.commands@.len() == 0,
        issued(&presented, &next),
    ensures
        next.commands@.len() == 1,
        next.commands@[0].transform.is_ident(),
        next.commands@[0].colour.is_white(),
{
}

/// A render state for a device that can bind `max_textures` textures in one
/// draw call, with `font_texture` as the glyph atlas.
pub fn init(max_textures: usize, font_texture: Texture) -> (r: CareRenderState)
    requires
        1 <= max_textures <= u32::MAX,
    ensures
        r.wf(),
        r.commands@.len() == 0,
        r.current_transform.is_ident(),
        r.current_colour.is_white(),
        r.max_textures == max_textures,
        r.font_texture == font_texture,
        r.default_font == crate::state::DEFAULT_FONT_ID,
        r.next_font_id == crate::state::DEFAULT_FONT_ID + 1,
{
    CareRenderState::new(max_textures, font_texture)
}

/// How many textures one draw call can bind on a device with these limits:
/// each texture takes a view binding and a sampler binding.
pub fn max_textures_for_limits(bindings_per_group: u32, sampled_per_stage: u32, samplers_per_stage: u32) -> (r: u32)
    ensures
        r <= bindings_per_group / 2,
        r <= sampled_per_stage,
        r <= samplers_per_stage,
        r == bindings_per_group / 2 || r == sampled_per_stage || r == samplers_per_stage,
{
    let a = bindings_per_group / 2;
    let b = if a < sampled_per_stage { a } else { sampled_per_stage };
    if b < samplers_per_stage { b } else { samplers_per_stage }
}

/// Sets the colour of the commands issued from now on.
pub fn set_colour(render: &mut CareRenderState, colour: Colour)
    ensures
        final(render).current_colour == colour,
        final(render).commands@ == old(render).commands@,
        final(render).current_transform == old(render).current_transform,
        final(render).transform_stack@ == old(render).transform_stack@,
        final(render).max_textures == old(render).max_textures,
        final(render).font_texture == old(render).font_texture,
        final(render).line_join_style == old(render).line_join_style,
        final(render).line_end_style == old(render).line_end_style,
        final(render).next_font_id == old(render).next_font_id,
        final(render).default_font == old(render).default_font,
        old(render).wf() ==> final(render).wf(),
{
    render.current_colour = colour;
}

/// Sets the transform of the commands issued from now on.
pub fn set_transform(render: &mut CareRenderState, transform: Mat3)
    requires
        transform.wf(),
    ensures
        final(render).current_transform == transform,
        final(render).commands@ == old(render).commands@,
        final(render).current_colour == old(render).current_colour,
        final(render).transform_stack@ == old(render).transform_stack@,
        final(render).max_textures == old(render).max_textures,
        final(render).font_texture == old(render).font_texture,
        final(render).line_join_style == old(render).line_join_style,
        final(render).line_end_style == old(render).line_end_style,
        final(render).next_font_id == old(render).next_font_id,
        final(render).default_font == old(render).default_font,
        old(render).wf() ==> final(render).wf(),
{
    render.current_transform = transform;
}

/// Saves the current transform on the transform stack.
pub fn push_transform(render: &mut CareRenderState)
    ensures
        final(render).transform_stack@ == old(render).transform_stack@.push(old(render).current_transform),
        final(render).current_transform == old(render).current_transform,
        final(render).commands@ == old(render).commands@,
        final(render).current_colour == old(render).current_colour,
        final(render).max_textures == old(render).max_textures,
        final(render).next_font_id == old(render).next_font_id,
        final(render).default_font == old(render).default_font,
        final(render).font_texture == old(render).font_texture,
        final(render).line_join_style == old(render).line_join_style,
        final(render).line_end_style == old(render).line_end_style,
        old(render).wf() ==> final(render).wf(),
{
    let t = render.current_transform;
    render.transform_stack.push(t);
}

/// Restores the transform saved last, if any; returns whether there was one.
pub fn pop_transform(render: &mut CareRenderState) -> (popped: bool)
    ensures
        popped == (old(render).transform_stack@.len() > 0),
        popped ==> final(render).current_transform == old(render).transform_stack@.last()
            && final(render).transform_stack@ == old(render).transform_stack@.drop_last(),
        !popped ==> final(render).current_transform == old(render).current_transform
            && final(render).transform_stack@ == old(render).transform_stack@,
        final(render).commands@ == old(render).commands@,
        final(render).current_colour == old(render).current_colour,
        final(render).max_textures == old(render).max_textures,
        final(render).next_font_id == old(render).next_font_id,
        final(render).default_font == old(render).default_font,
        final(render).font_texture == old(render).font_texture,
        final(render).line_join_style == old(render).line_join_style,
        final(render).line_end_style == old(render).line_end_style,
        old(render).wf() ==> final(render).wf(),
{
    match render.transform_stack.pop() {
        Some(t) => {
            render.current_transform = t;
            true
        },
        None => false,
    }
}

/// Sets the join and end style of the lines drawn from now on.
pub fn set_line_style(render: &mut CareRenderState, join_style: LineJoinStyle, end_style: LineEndStyle)
    ensures
        final(render).line_join_style == join_style,
        final(render).line_end_style == end_style,
        final(render).commands@ == old(render).commands@,
        final(render).current_colour == old(render).current_colour,
        final(render).current_transform == old(render).current_transform,
        final(render).transform_stack@ == old(render).transform_stack@,
        final(render).max_textures == old(render).max_textures,
        final(render).font_texture == old(render).font_texture,
        final(render).next_font_id == old(render).next_font_id,
        final(render).default_font == old(render).default_font,
        old(render).wf() ==> final(render).wf(),
{
    render.line_join_style = join_style;
    render.line_end_style = end_style;
}

/// Draws a run of glyphs of font `font`, each by its index in the frame's
/// table of glyph placements.
pub fn text(render: &mut CareRenderState, font: u32, glyphs: &Vec<usize>)
    requires
        old(render).wf(),
    ensures
        final(render).wf(),
        final(render).same_settings(old(render)),
        final(render).commands@.len() == old(render).commands@.len() + glyphs@.len(),
        forall|i: int| 0 <= i < old(render).commands@.len() ==> final(render).commands@[i] == old(render).commands@[i],
        forall|i: int| 0 <= i < glyphs@.len() ==> {
            let c = #[trigger] final(render).commands@[old(render).commands@.len() + i];
            c.transform == old(render).current_transform && c.colour == old(render).current_colour
                && c.data == (DrawCommandData::TextChar { font, glyph: glyphs@[i] })
        },
{
    let ghost start = render.commands@.len();
    let mut i: usize = 0;
    while i < glyphs.len()
        invariant
            render.wf(),
            render.same_settings(old(render)),
            start == old(render).commands@.len(),
            0 <= i <= glyphs@.len(),
            render.commands@.len() == start + i,
            forall|k: int| 0 <= k < start ==> render.commands@[k] == old(render).commands@[k],
            forall|k: int| 0 <= k < i ==> {
                let c = #[trigger] render.commands@[start + k];
                c.transform == old(render).current_transform && c.colour == old(render).current_colour
                    && c.data == (DrawCommandData::TextChar { font, glyph: glyphs@[k] })
            },
        decreases glyphs@.len() - i,
    {
        let ghost before = *render;
        issue(render, DrawCommandData::TextChar { font, glyph: glyphs[i] });
        proof {
            assert forall|k: int| 0 <= k < i + 1 implies {
                let c = #[trigger] render.commands@[start + k];
                c.transform == old(render).current_transform && c.colour == old(render).current_colour
                    && c.data == (DrawCommandData::TextChar { font, glyph: glyphs@[k] })
            } by {
                if k < i {
                    assert(render.commands@[start + k] == before.commands@[start + k]);
                }
            }
        }
        i = i + 1;
    }
}

/// Draws a texture at `pos` (pixels), at its own size.
pub fn texture(render: &mut CareRenderState, tex: &Texture, pos: Vec2)
    requires
        old(render).wf(),
        px_ok(pos),
    ensures
        issued(old(render), final(render)),
        final(render).commands@.last().data == (DrawCommandData::Texture {
            texture: *tex,
            pos: to_sub(pos),
            scale: Vec2 { x: ONE, y: ONE },
            source_pos: Vec2 { x: 0, y: 0 },
            source_size: Vec2 { x: tex.width as i64, y: tex.height as i64 },
            rotation: Rotation { cos: ONE, sin: 0 },
            corner_radii: [0u8, 0u8, 0u8, 0u8],
        }),
{
    texture_scale(render, tex, pos, Vec2 { x: ONE, y: ONE })
}

/// Draws a texture at `pos` (pixels), scaled by `scale` (`ONE` units).
pub fn texture_scale(render: &mut CareRenderState, tex: &Texture, pos: Vec2, scale: Vec2)
    requires
        old(render).wf(),
        px_ok(pos),
        scale.wf(),
    ensures
        issued(old(render), final(render)),
        final(render).commands@.last().data == (DrawCommandData::Texture {
            texture: *tex,
            pos: to_sub(pos),
            scale,
            source_pos: Vec2 { x: 0, y: 0 },
            source_size: Vec2 { x: tex.width as i64, y: tex.height as i64 },
            rotation: Rotation { cos: ONE, sin: 0 },
            corner_radii: [0u8, 0u8, 0u8, 0u8],
        }),
{
    let (w, h) = tex.size();
    texture_source(render, tex, pos, scale, Vec2 { x: 0, y: 0 }, Vec2 { x: w as i64, y: h as i64 })
}

/// Draws the region of a texture at `source_pos` of size `source_size`
/// (texels).
pub fn texture_source(
    render: &mut CareRenderState,
    tex: &Texture,
    pos: Vec2,
    scale: Vec2,
    source_pos: Vec2,
    source_size: Vec2,
)
    requires
        old(render).wf(),
        px_ok(pos),
        scale.wf(),
        source_pos.wf(),
        source_size.wf(),
    ensures
        issued(old(render), final(render)),
        final(render).commands@.last().data == (DrawCommandData::Texture {
            texture: *tex,
            pos: to_sub(pos),
            scale,
            source_pos,
            source_size,
            rotation: Rotation { cos: ONE, sin: 0 },
            corner_radii: [0u8, 0u8, 0u8, 0u8],
        }),
{
    texture_rot(render, tex, pos, scale, source_pos, source_size, Rotation::none())
}

/// Draws a region of a texture, rotated about the origin.
pub fn texture_rot(
    render: &mut CareRenderState,
    tex: &Texture,
    pos: Vec2,
    scale: Vec2,
    source_pos: Vec2,
    source_size: Vec2,
    rotation: Rotation,
)
    requires
        old(render).wf(),
        px_ok(pos),
        scale.wf(),
        source_pos.wf(),
        source_size.wf(),
        rotation.wf(),
    ensures
        issued(old(render), final(render)),
        final(render).commands@.last().data == (DrawCommandData::Texture {
            texture: *tex,
            pos: to_sub(pos),
            scale,
            source_pos,
            source_size,
            rotation,
            corner_radii: [0u8, 0u8, 0u8, 0u8],
        }),
{
    texture_rounded(render, tex, pos, scale, source_pos, source_size, rotation, [0u8, 0u8, 0u8, 0u8])
}

/// Draws a region of a texture with every setting: rotation and the
/// rounding of each corner (0..255 of the shorter side).
pub fn texture_rounded(
    render: &mut CareRenderState,
    tex: &Texture,
    pos: Vec2,
    scale: Vec2,
    source_pos: Vec2,
    source_size: Vec2,
    rotation: Rotation,
    corner_radii: [u8; 4],
)
    requires
        old(render).wf(),
        px_ok(pos),
        scale.wf(),
        source_pos.wf(),
        source_size.wf(),
        rotation.wf(),
    ensures
        issued(old(render), final(render)),
        final(render).commands@.last().data == (DrawCommandData::Texture {
            texture: *tex,
            pos: to_sub(pos),
            scale,
            source_pos,
            source_size,
            rotation,
            corner_radii,
        }),
{
    let p = to_sub_exec(pos);
    issue(
        render,
        DrawCommandData::Texture { texture: *tex, pos: p, scale, source_pos, source_size, rotation, corner_radii },
    );
}

/// Draws a filled rectangle at `pos` of size `size` (pixels).
pub fn rectangle(render: &mut CareRenderState, pos: Vec2, size: Vec2)
    requires
        old(render).wf(),
        px_ok(pos),
        px_ok(size),
    ensures
        issued(old(render), final(render)),
        final(render).commands@.last().data == (DrawCommandData::Rect {
            pos: to_sub(pos),
            size: to_sub(size),
            rotation: Rotation { cos: ONE, sin: 0 },
            corner_radii: [0u8, 0u8, 0u8, 0u8],
        }),
{
    rectangle_rot(render, pos, size, Rotation::none())
}

/// Draws a filled rectangle rotated about the origin.
pub fn rectangle_rot(render: &mut CareRenderState, pos: Vec2, size: Vec2, rotation: Rotation)
    requires
        old(render).wf(),
        px_ok(pos),
        px_ok(size),
        rotation.wf(),
    ensures
        issued(old(render), final(render)),
        final(render).commands@.last().data == (DrawCommandData::Rect {
            pos: to_sub(pos),
            size: to_sub(size),
            rotation,
            corner_radii: [0u8, 0u8, 0u8, 0u8],
        }),
{
    rectangle_rounded(render, pos, size, rotation, [0u8, 0u8, 0u8, 0u8])
}

/// Draws a filled rectangle with rotation and rounded corners (0..255 of
/// the shorter side).
pub fn rectangle_rounded(render: &mut CareRenderState, pos: Vec2, size: Vec2, rotation: Rotation, corner_radii: [u8; 4])
    requires
        old(render).wf(),
        px_ok(pos),
        px_ok(size),
        rotation.wf(),
    ensures
        issued(old(render), final(render)),
        final(render).commands@.last().data == (DrawCommandData::Rect {
            pos: to_sub(pos),
            size: to_sub(size),
            rotation,
            corner_radii,
        }),
{
    let p = to_sub_exec(pos);
    let s = to_sub_exec(size);
    issue(render, DrawCommandData::Rect { pos: p, size: s, rotation, corner_radii });
}

/// Draws a solid triangle.
pub fn triangle(render: &mut CareRenderState, points: (Vec2, Vec2, Vec2))
    requires
        old(render).wf(),
        px_ok(points.0),
        px_ok(points.1),
        px_ok(points.2),
    ensures
        issued(old(render), final(render)),
        final(render).commands@.last().data == (DrawCommandData::Triangle {
            verts: [to_sub(points.0), to_sub(points.1), to_sub(points.2)],
            tex_uvs: None,
        }),
{
    let verts = [to_sub_exec(points.0), to_sub_exec(points.1), to_sub_exec(points.2)];
    issue(render, DrawCommandData::Triangle { verts, tex_uvs: None });
}

/// Draws a textured triangle; `uvs` are in `ONE` units of the texture.
pub fn triangle_textured(render: &mut CareRenderState, points: (Vec2, Vec2, Vec2), tex: &Texture, uvs: (Vec2, Vec2, Vec2))
    requires
        old(render).wf(),
        px_ok(points.0),
        px_ok(points.1),
        px_ok(points.2),
        uvs.0.wf(),
        uvs.1.wf(),
        uvs.2.wf(),
    ensures
        issued(old(render), final(render)),
        final(render).commands@.last().data == (DrawCommandData::Triangle {
            verts: [to_sub(points.0), to_sub(points.1), to_sub(points.2)],
            tex_uvs: Some((*tex, [uvs.0, uvs.1, uvs.2])),
        }),
{
    let verts = [to_sub_exec(points.0), to_sub_exec(points.1), to_sub_exec(points.2)];
    issue(render, DrawCommandData::Triangle { verts, tex_uvs: Some((*tex, [uvs.0, uvs.1, uvs.2])) });
}

/// Draws a filled circle.
pub fn circle(render: &mut CareRenderState, center: Vec2, radius: i64)
    requires
        old(render).wf(),
        px_ok(center),
        px_in(radius),
    ensures
        issued(old(render), final(render)),
        final(render).commands@.last().data == (DrawCommandData::Circle {
            center: to_sub(center),
            radius: (radius * SUB) as i64,
            elipseness: Vec2 { x: 0, y: 0 },
        }),
{
    ellipse(render, center, radius, Vec2 { x: 0, y: 0 })
}

/// Draws a filled ellipse: a circle stretched along `elipseness` by its
/// length (`ONE` units) plus one.
pub fn ellipse(render: &mut CareRenderState, center: Vec2, radius: i64, elipseness: Vec2)
    requires
        old(render).wf(),
        px_ok(center),
        px_in(radius),
        elipseness.wf(),
    ensures
        issued(old(render), final(render)),
        final(render).commands@.last().data == (DrawCommandData::Circle {
            center: to_sub(center),
            radius: (radius * SUB) as i64,
            elipseness,
        }),
{
    let c = to_sub_exec(center);
    issue(render, DrawCommandData::Circle { center: c, radius: radius * SUB, elipseness });
}

/// The command data is a line through `pts` with end styles `ends`.
pub open spec fn line_data(d: DrawCommandData, pts: Seq<LinePoint>, ends: (LineEndStyle, LineEndStyle)) -> bool {
    match d {
        DrawCommandData::Line { points, ends: e } => points@ == pts && e == ends,
        _ => false,
    }
}

/// Points given in pixels, with widths in pixels, as line points.
pub open spec fn as_line_points(ps: Seq<(Vec2, i64, LineJoinStyle)>) -> Seq<LinePoint> {
    ps.map_values(|p: (Vec2, i64, LineJoinStyle)| LinePoint { pos: to_sub(p.0), width: (p.1 * SUB) as i64, join: p.2 })
}

/// Every point and width is a pixel value in range.
pub open spec fn styled_ok(ps: Seq<(Vec2, i64, LineJoinStyle)>) -> bool {
    forall|i: int| 0 <= i < ps.len() ==> px_ok(#[trigger] ps[i].0) && px_in(ps[i].1)
}

/// Every point is a pixel position in range.
pub open spec fn all_px_ok(ps: Seq<Vec2>) -> bool {
    forall|i: int| 0 <= i < ps.len() ==> px_ok(#[trigger] ps[i])
}

/// Draws a line whose width and join style vary from point to point.
pub fn line_varying_styles(
    render: &mut CareRenderState,
    points: &Vec<(Vec2, i64, LineJoinStyle)>,
    ends: (LineEndStyle, LineEndStyle),
)
    requires
        old(render).wf(),
        styled_ok(points@),
    ensures
        issued(old(render), final(render)),
        line_data(final(render).commands@.last().data, as_line_points(points@), ends),
{
    let mut pts: Vec<LinePoint> = Vec::new();
    let mut i: usize = 0;
    while i < points.len()
        invariant
            0 <= i <= points@.len(),
            styled_ok(points@),
            pts@ == as_line_points(points@.take(i as int)),
        decreases points@.len() - i,
    {
        let (p, w, j) = points[i];
        assert(px_ok(points@[i as int].0) && px_in(points@[i as int].1));
        pts.push(LinePoint { pos: to_sub_exec(p), width: w * SUB, join: j });
        assert(points@.take(i as int + 1) =~= points@.take(i as int).push(points@[i as int]));
        assert(pts@ =~= as_line_points(points@.take(i as int + 1)));
        i = i + 1;
    }
    assert(points@.take(points@.len() as int) =~= points@);
    assert(points_wf(pts@)) by {
        assert forall|k: int| 0 <= k < pts@.len() implies #[trigger] pts@[k].pos.wf() && in_range(pts@[k].width) by {
            assert(px_ok(points@[k].0) && px_in(points@[k].1));
        }
    }
    issue(render, DrawCommandData::Line { points: pts, ends });
}

/// The line points of a line of one width and join style.
pub open spec fn uniform_points(ps: Seq<Vec2>, width: i64, join: LineJoinStyle) -> Seq<(Vec2, i64, LineJoinStyle)> {
    ps.map_values(|p: Vec2| (p, width, join))
}

/// Draws a line of one width through `points` (pixels), with the current
/// join and end styles.
pub fn line(render: &mut CareRenderState, points: &Vec<Vec2>, width: i64)
    requires
        old(render).wf(),
        all_px_ok(points@),
        px_in(width),
    ensures
        issued(old(render), final(render)),
        line_data(
            final(render).commands@.last().data,
            as_line_points(uniform_points(points@, width, old(render).line_join_style)),
            (old(render).line_end_style, old(render).line_end_style),
        ),
{
    let join = render.line_join_style;
    let end = render.line_end_style;
    let mut styled: Vec<(Vec2, i64, LineJoinStyle)> = Vec::new();
    let mut i: usize = 0;
    while i < points.len()
        invariant
            0 <= i <= points@.len(),
            styled@ == uniform_points(points@.take(i as int), width, join),
        decreases points@.len() - i,
    {
        styled.push((points[i], width, join));
        assert(styled@ =~= uniform_points(points@.take(i as int + 1), width, join));
        i = i + 1;
    }
    assert(points@.take(points@.len() as int) =~= points@);
    assert(styled_ok(styled@)) by {
        assert forall|k: int| 0 <= k < styled@.len() implies px_ok(#[trigger] styled@[k].0) && px_in(styled@[k].1) by {
            assert(px_ok(points@[k]));
        }
    }
    line_varying_styles(render, &styled, (end, end));
}

/// Draws one line segment.
pub fn line_segment(render: &mut CareRenderState, point1: Vec2, point2: Vec2, width: i64)
    requires
        old(render).wf(),
        px_ok(point1),
        px_ok(point2),
        px_in(width),
    ensures
        issued(old(render), final(render)),
        line_data(
            final(render).commands@.last().data,
            as_line_points(uniform_points(seq![point1, point2], width, old(render).line_join_style)),
            (old(render).line_end_style, old(render).line_end_style),
        ),
{
    let points = vec![point1, point2];
    assert(points@ =~= seq![point1, point2]);
    line(render, &points, width)
}

/// The points of a closed polyline through `ps` (sub-pixel units): the
/// first two points (the origin where missing), the rest, then the first
/// point again and a point 1/256 of the way along the first segment, so
/// that the shape closes with a join.
pub open spec fn closed_points(ps: Seq<Vec2>) -> Seq<Vec2> {
    let s0 = if ps.len() > 0 { ps[0] } else { Vec2 { x: 0, y: 0 } };
    let s1 = if ps.len() > 1 { ps[1] } else { Vec2 { x: 0, y: 0 } };
    let rest = if ps.len() > 2 { ps.subrange(2, ps.len() as int) } else { Seq::empty() };
    let mid = Vec2 {
        x: clamp_spec(s0.x + tdiv(s1.x - s0.x, 256)) as i64,
        y: clamp_spec(s0.y + tdiv(s1.y - s0.y, 256)) as i64,
    };
    seq![s0, s1] + rest + seq![s0, mid]
}

/// Points (sub-pixel units) with one width and join style.
pub open spec fn with_style(ps: Seq<Vec2>, width: i64, join: LineJoinStyle) -> Seq<LinePoint> {
    ps.map_values(|p: Vec2| LinePoint { pos: p, width, join })
}

/// Issues a closed polyline through `ps` (sub-pixel units).
fn polyline_sub(render: &mut CareRenderState, ps: &Vec<Vec2>, width: i64)
    requires
        old(render).wf(),
        forall|i: int| 0 <= i < ps@.len() ==> (#[trigger] ps@[i]).wf(),
        in_range(width),
    ensures
        issued(old(render), final(render)),
        line_data(
            final(render).commands@.last().data,
            with_style(closed_points(ps@), width, old(render).line_join_style),
            (LineEndStyle::Flat, LineEndStyle::Flat),
        ),
{
    let join = render.line_join_style;
    let zero = Vec2 { x: 0, y: 0 };
    let s0 = if ps.len() > 0 { ps[0] } else { zero };
    let s1 = if ps.len() > 1 { ps[1] } else { zero };
    let mut all: Vec<Vec2> = Vec::new();
    all.push(s0);
    all.push(s1);
    let mut i: usize = 2;
    while i < ps.len()
        invariant
            2 <= i,
            i <= ps@.len() || ps@.len() < 2,
            ps@.len() < 2 ==> all@ == seq![s0, s1],
            ps@.len() >= 2 ==> all@ == seq![s0, s1] + ps@.subrange(2, i as int),
        decreases ps@.len() - i,
    {
        all.push(ps[i]);
        assert(all@ =~= seq![s0, s1] + ps@.subrange(2, i as int + 1));
        i = i + 1;
    }
    let mid = Vec2 {
        x: clamp_wide(s0.x as i128 + crate::math::div_trunc(s1.x as i128 - s0.x as i128, 256)),
        y: clamp_wide(s0.y as i128 + crate::math::div_trunc(s1.y as i128 - s0.y as i128, 256)),
    };
    all.push(s0);
    all.push(mid);
    proof {
        if ps@.len() > 2 {
            assert(i == ps@.len());
        } else {
            assert(all@ =~= seq![s0, s1] + Seq::<Vec2>::empty() + seq![s0, mid]);
        }
        assert(all@ =~= closed_points(ps@));
    }
    let mut pts: Vec<LinePoint> = Vec::new();
    let mut k: usize = 0;
    while k < all.len()
        invariant
            0 <= k <= all@.len(),
            all@ == closed_points(ps@),
            pts@ == with_style(all@.take(k as int), width, join),
        decreases all@.len() - k,
    {
        pts.push(LinePoint { pos: all[k], width, join });
        assert(pts@ =~= with_style(all@.take(k as int + 1), width, join));
        k = k + 1;
    }
    assert(all@.take(all@.len() as int) =~= all@);
    assert(points_wf(pts@)) by {
        assert forall|j: int| 0 <= j < pts@.len() implies #[trigger] pts@[j].pos.wf() && in_range(pts@[j].width) by {
            let cp = closed_points(ps@);
            assert(pts@[j].pos == cp[j]);
            if 2 <= j < cp.len() - 2 {
                assert(cp[j] == ps@[j]);
            }
        }
    }
    issue(render, DrawCommandData::Line { points: pts, ends: (LineEndStyle::Flat, LineEndStyle::Flat) });
}

/// Draws a closed outline through `points` (pixels), with the current join
/// style and flat ends.
pub fn polyline(render: &mut CareRenderState, points: &Vec<Vec2>, width: i64)
    requires
        old(render).wf(),
        all_px_ok(points@),
        px_in(width),
    ensures
        issued(old(render), final(render)),
        line_data(
            final(render).commands@.last().data,
            with_style(closed_points(points@.map_values(|p: Vec2| to_sub(p))), (width * SUB) as i64, old(render).line_join_style),
            (LineEndStyle::Flat, LineEndStyle::Flat),
        ),
{
    let mut subs: Vec<Vec2> = Vec::new();
    let mut i: usize = 0;
    while i < points.len()
        invariant
            0 <= i <= points@.len(),
            all_px_ok(points@),
            subs@ == points@.take(i as int).map_values(|p: Vec2| to_sub(p)),
        decreases points@.len() - i,
    {
        assert(px_ok(points@[i as int]));
        subs.push(to_sub_exec(points[i]));
        assert(subs@ =~= points@.take(i as int + 1).map_values(|p: Vec2| to_sub(p)));
        i = i + 1;
    }
    assert(points@.take(points@.len() as int) =~= points@);
    proof {
        assert forall|k: int| 0 <= k < subs@.len() implies (#[trigger] subs@[k]).wf() by {
            assert(px_ok(points@[k]));
        }
    }
    polyline_sub(render, &subs, width * SUB);
}

/// The corners of a rectangle outline (sub-pixel units), rotated about `pos`.
pub open spec fn outline_corners(pos: Vec2, size: Vec2, rot: Rotation) -> Seq<Vec2> {
    let p = to_sub(pos);
    let s = to_sub(size);
    seq![
        p,
        crate::render::add_spec(p, rotated_spec(Vec2 { x: s.x, y: 0 }, rot)),
        crate::render::add_spec(p, rotated_spec(s, rot)),
        crate::render::add_spec(p, rotated_spec(Vec2 { x: 0, y: s.y }, rot)),
    ]
}

/// Draws the outline of a rectangle.
pub fn rectangle_line(render: &mut CareRenderState, pos: Vec2, size: Vec2, width: i64)
    requires
        old(render).wf(),
        px_ok(pos),
        px_ok(size),
        px_in(width),
    ensures
        issued(old(render), final(render)),
        line_data(
            final(render).commands@.last().data,
            with_style(closed_points(outline_corners(pos, size, Rotation { cos: ONE, sin: 0 })), (width * SUB) as i64, old(render).line_join_style),
            (LineEndStyle::Flat, LineEndStyle::Flat),
        ),
{
    rectangle_line_rot(render, pos, size, width, Rotation::none())
}

/// Draws the outline of a rectangle, rotated about its first corner.
pub fn rectangle_line_rot(render: &mut CareRenderState, pos: Vec2, size: Vec2, width: i64, rotation: Rotation)
    requires
        old(render).wf(),
        px_ok(pos),
        px_ok(size),
        px_in(width),
        rotation.wf(),
    ensures
        issued(old(render), final(render)),
        line_data(
            final(render).commands@.last().data,
            with_style(closed_points(outline_corners(pos, size, rotation)), (width * SUB) as i64, old(render).line_join_style),
            (LineEndStyle::Flat, LineEndStyle::Flat),
        ),
{
    let p = to_sub_exec(pos);
    let s = to_sub_exec(size);
    let corners = vec![
        p,
        p.add(Vec2 { x: s.x, y: 0 }.rotated(rotation)),
        p.add(s.rotated(rotation)),
        p.add(Vec2 { x: 0, y: s.y }.rotated(rotation)),
    ];
    assert(corners@ =~= outline_corners(pos, size, rotation));
    polyline_sub(render, &corners, width * SUB);
}

/// Whether the pending commands fit in one frame's vertex budget, which
/// `present` requires.
pub fn fits_in_frame(render: &CareRenderState) -> (r: bool)
    ensures
        r == (frame_cost(render.commands@) <= MAX_VERTS),
{
    let ghost cmds = render.commands@;
    let mut total: u64 = 0;
    let mut i: usize = 0;
    while i < render.commands.len()
        invariant
            cmds == render.commands@,
            0 <= i <= cmds.len(),
            total == frame_cost(cmds.take(i as int)),
            total <= MAX_VERTS,
        decreases cmds.len() - i,
    {
        proof {
            assert(cmds.take(i as int + 1).drop_last() =~= cmds.take(i as int));
        }
        let cost: u64 = match &render.commands[i].data {
            DrawCommandData::Triangle { .. } => 3,
            DrawCommandData::Circle { .. } => 3,
            DrawCommandData::Line { points, .. } => {
                if points.len() as u64 > MAX_VERTS / 7 {
                    proof {
                        crate::state::lemma_cost_prefix(cmds, i as int + 1);
                    }
                    return false;
                }
                7 * points.len() as u64
            },
            _ => 4,
        };
        if total + cost > MAX_VERTS {
            proof {
                crate::state::lemma_cost_prefix(cmds, i as int + 1);
            }
            return false;
        }
        total = total + cost;
        i = i + 1;
    }
    proof {
        assert(cmds.take(cmds.len() as int) =~= cmds);
    }
    true
}

/// Ends the frame: compiles the pending commands into draw calls (see
/// `CareRenderState::render`) and resets the per-frame state, so the next
/// frame starts with no commands, the identity transform and opaque white.
pub fn present(render: &mut CareRenderState, glyphs: &Vec<Option<GlyphPlacement>>) -> (calls: Vec<DrawCall>)
    requires
        old(render).wf(),
        frame_cost(old(render).commands@) <= MAX_VERTS,
        placements_wf(glyphs@),
    ensures
        final(render).wf(),
        final(render).commands@.len() == 0,
        final(render).transform_stack@.len() == 0,
        final(render).current_transform.is_ident(),
        final(render).current_colour.is_white(),
        final(render).max_textures == old(render).max_textures,
        final(render).font_texture == old(render).font_texture,
        final(render).line_join_style == old(render).line_join_style,
        final(render).line_end_style == old(render).line_end_style,
        final(render).next_font_id == old(render).next_font_id,
        final(render).default_font == old(render).default_font,
        calls@.len() >= 1,
        forall|i: int| 0 <= i < calls@.len() ==> (#[trigger] calls@[i]).valid(old(render).max_textures as nat),
        calls@.map_values(|c: DrawCall| crate::render::ids(c.textures@))
            == crate::render::batch_model(
                crate::render::texture_uses(old(render).commands@, old(render).font_texture.id),
                old(render).max_textures as nat,
            ),
        old(render).commands@.len() == 0 ==> calls@.len() == 1 && calls@[0].is_empty_call(),
        crate::state::flat_vertices(calls@) == crate::state::frame_vertices(
            old(render).commands@,
            old(render).font_texture.id,
            old(render).max_textures as nat,
            glyphs@,
        ),
        crate::state::flat_indices(calls@) == crate::state::frame_indices(
            old(render).commands@,
            old(render).font_texture.id,
            old(render).max_textures as nat,
            glyphs@,
        ),
        crate::state::call_contents(calls@) == crate::state::frame_calls(
            old(render).commands@,
            old(render).font_texture.id,
            old(render).max_textures as nat,
            glyphs@,
        ),
        forall|k: int| 0 <= k < calls@.len() ==> (#[trigger] calls@[k]).indices@.len() % 3 == 0,
{
    let calls = render.render(glyphs);
    render.reset();
    calls
}

} // verus!
