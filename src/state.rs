//! The per-frame render state and the compilation of its commands into
//! draw calls.

use vstd::prelude::*;
use crate::line::{abs_idx, lemma_line_idx_bounds, lemma_line_idx_triangles, line_idx, line_spec, tess_line};
use crate::math::{Mat3, Vec2};
use crate::render::{
    batch_model, batch_step, batches, circle_spec, cmd_cost, cmd_uses, frame_cost, glyph_spec, ids,
    rect_spec, tess_circle, tess_glyph, tess_rect, tess_texture, tess_triangle, texture_spec,
    texture_uses, triangle_spec, Colour, DrawCall, DrawCommand, DrawCommandData, GlyphPlacement,
    LineEndStyle, LineJoinStyle, Vertex2d, HALF, MAX_VERTS,
};
use crate::texture::Texture;

verus! {

/// The id of the font text is drawn in unless another is given; ids of
/// loaded fonts are handed out after it.
pub const DEFAULT_FONT_ID: u32 = 1;

/// The state of one frame of 2D drawing: the transform and colour that new
/// commands capture, the commands issued so far, and the texture-slot limit
/// of the hardware.
#[derive(Debug)]
pub struct CareRenderState {
    pub transform_stack: Vec<Mat3>,
    pub current_transform: Mat3,
    pub current_colour: Colour,
    pub commands: Vec<DrawCommand>,
    pub max_textures: usize,
    pub font_texture: Texture,
    pub default_font: u32,
    pub next_font_id: u32,
    pub line_end_style: LineEndStyle,
    pub line_join_style: LineJoinStyle,
}

impl CareRenderState {
    pub open spec fn wf(&self) -> bool {
        &&& 1 <= self.max_textures <= u32::MAX
        &&& self.current_transform.wf()
        &&& forall|i: int| 0 <= i < self.transform_stack@.len() ==> (#[trigger] self.transform_stack@[i]).wf()
        &&& forall|i: int| 0 <= i < self.commands@.len() ==> (#[trigger] self.commands@[i]).wf()
    }

    /// Everything but the pending commands is as in `o`.
    pub open spec fn same_settings(&self, o: &CareRenderState) -> bool {
        &&& self.transform_stack@ == o.transform_stack@
        &&& self.current_transform == o.current_transform
        &&& self.current_colour == o.current_colour
        &&& self.max_textures == o.max_textures
        &&& self.font_texture == o.font_texture
        &&& self.default_font == o.default_font
        &&& self.next_font_id == o.next_font_id
        &&& self.line_end_style == o.line_end_style
        &&& self.line_join_style == o.line_join_style
    }

    /// A state with no commands, the identity transform, opaque white and
    /// rounded line joins and ends; text is drawn in the default font, and
    /// loaded fonts get the ids after it.
    pub fn new(max_textures: usize, font_texture: Texture) -> (r: CareRenderState)
        requires
            1 <= max_textures <= u32::MAX,
        ensures
            r.wf(),
            r.commands@.len() == 0,
            r.transform_stack@.len() == 0,
            r.current_transform.is_ident(),
            r.current_colour.is_white(),
            r.max_textures == max_textures,
            r.font_texture == font_texture,
            r.default_font == DEFAULT_FONT_ID,
            r.next_font_id == DEFAULT_FONT_ID + 1,
            r.line_join_style == LineJoinStyle::Rounded,
            r.line_end_style == LineEndStyle::Rounded,
    {
        CareRenderState {
            transform_stack: Vec::new(),
            current_transform: Mat3::ident(),
            current_colour: Colour::white(),
            commands: Vec::new(),
            max_textures,
            font_texture,
            default_font: DEFAULT_FONT_ID,
            next_font_id: DEFAULT_FONT_ID + 1,
            line_end_style: LineEndStyle::Rounded,
            line_join_style: LineJoinStyle::Rounded,
        }
    }

    /// Clears what belongs to one frame: the pending commands, the transform
    /// stack, and the current transform and colour.
    pub fn reset(&mut self)
        ensures
            final(self).commands@.len() == 0,
            final(self).transform_stack@.len() == 0,
            final(self).current_transform.is_ident(),
            final(self).current_colour.is_white(),
            final(self).max_textures == old(self).max_textures,
            final(self).font_texture == old(self).font_texture,
            final(self).next_font_id == old(self).next_font_id,
            final(self).default_font == old(self).default_font,
            final(self).line_end_style == old(self).line_end_style,
            final(self).line_join_style == old(self).line_join_style,
            old(self).wf() ==> final(self).wf(),
    {
        self.transform_stack.clear();
        self.current_transform = Mat3::ident();
        self.current_colour = Colour::white();
        self.commands.clear();
    }

    /// Hands out the id of the next font to be loaded.
    pub fn next_font_id(&mut self) -> (id: u32)
        requires
            old(self).next_font_id < u32::MAX,
        ensures
            id == old(self).next_font_id,
            final(self).next_font_id == old(self).next_font_id + 1,
            final(self).commands@ == old(self).commands@,
            final(self).current_colour == old(self).current_colour,
            final(self).current_transform == old(self).current_transform,
            final(self).max_textures == old(self).max_textures,
            final(self).transform_stack@ == old(self).transform_stack@,
            final(self).font_texture == old(self).font_texture,
            final(self).default_font == old(self).default_font,
            final(self).line_join_style == old(self).line_join_style,
            final(self).line_end_style == old(self).line_end_style,
    {
        let id = self.next_font_id;
        self.next_font_id = id + 1;
        id
    }

    /// Compiles the pending commands, in issue order, into draw calls and
    /// clears them. `glyphs` is the font cache's placement of each glyph that
    /// a text command names (`None`: not packed yet, the glyph is skipped).
    pub fn render(&mut self, glyphs: &Vec<Option<GlyphPlacement>>) -> (calls: Vec<DrawCall>)
        requires
            old(self).wf(),
            frame_cost(old(self).commands@) <= MAX_VERTS,
            placements_wf(glyphs@),
        ensures
            final(self).wf(),
            final(self).commands@.len() == 0,
            final(self).same_settings(old(self)),
            calls@.len() >= 1,
            forall|i: int| 0 <= i < calls@.len() ==> (#[trigger] calls@[i]).valid(old(self).max_textures as nat),
            calls@.map_values(|c: DrawCall| ids(c.textures@))
                == batch_model(texture_uses(old(self).commands@, old(self).font_texture.id), old(self).max_textures as nat),
            old(self).commands@.len() == 0 ==> calls@.len() == 1 && calls@[0].is_empty_call(),
            flat_vertices(calls@) == frame_vertices(old(self).commands@, old(self).font_texture.id, old(self).max_textures as nat, glyphs@),
            flat_indices(calls@) == frame_indices(old(self).commands@, old(self).font_texture.id, old(self).max_textures as nat, glyphs@),
            call_contents(calls@) == frame_calls(old(self).commands@, old(self).font_texture.id, old(self).max_textures as nat, glyphs@),
            forall|k: int| 0 <= k < calls@.len() ==> (#[trigger] calls@[k]).indices@.len() % 3 == 0,
    {
        let max = self.max_textures;
        let ghost cmds = self.commands@;
        let ghost font = self.font_texture.id;
        let mut calls: Vec<DrawCall> = Vec::new();
        let mut cdc = DrawCall::empty();
        proof {
            assert(batches(calls@, cdc) =~= batch_model(texture_uses(cmds.take(0), font), max as nat)) by {
                assert(cmds.take(0) =~= Seq::<DrawCommand>::empty());
                assert(ids(cdc.textures@) =~= Seq::<u64>::empty());
            }
            assert(cmds.take(0) =~= Seq::<DrawCommand>::empty());
            assert(cdc.vertices@ =~= Seq::<Vertex2d>::empty());
            assert(cdc.indices@ =~= Seq::<u32>::empty());
            assert(call_contents(calls@) =~= Seq::<(Seq<Vertex2d>, Seq<u32>)>::empty());
            assert(call_contents(calls@).push((cdc.vertices@, cdc.indices@))
                =~= frame_calls(cmds.take(0), font, max as nat, glyphs@));
        }
        let mut i: usize = 0;
        while i < self.commands.len()
            invariant
                self.wf(),
                self.commands@ == cmds,
                max == self.max_textures,
                font == self.font_texture.id,
                frame_cost(cmds) <= MAX_VERTS,
                placements_wf(glyphs@),
                0 <= i <= cmds.len(),
                cdc.valid(max as nat),
                forall|j: int| 0 <= j < calls@.len() ==> (#[trigger] calls@[j]).valid(max as nat),
                batches(calls@, cdc) == batch_model(texture_uses(cmds.take(i as int), font), max as nat),
                cdc.vertices@.len() <= frame_cost(cmds.take(i as int)),
                i == 0 ==> calls@.len() == 0 && cdc.is_empty_call(),
                flat_vertices(calls@) + cdc.vertices@ == frame_vertices(cmds.take(i as int), font, max as nat, glyphs@),
                flat_indices(calls@) + shifted(cdc.indices@, flat_vertices(calls@).len() as int)
                    == frame_indices(cmds.take(i as int), font, max as nat, glyphs@),
                call_contents(calls@).push((cdc.vertices@, cdc.indices@)) == frame_calls(cmds.take(i as int), font, max as nat, glyphs@),
            decreases cmds.len() - i,
        {
            proof {
                lemma_prefix_step(cmds, i as int, font);
                lemma_cost_prefix(cmds, i as int + 1);
                assert(cmds[i as int].wf());
            }
            let ghost calls0 = calls@;
            let ghost cdc0 = cdc;
            let slot = tess_command(&mut calls, &mut cdc, &self.commands[i], self.font_texture, glyphs, max);
            proof {
                let u = texture_uses(cmds.take(i as int), font);
                let c = cmd_uses(cmds[i as int], font);
                assert(texture_uses(cmds.take(i as int + 1), font) == u + c);
                lemma_model_append(u, c, max as nat);
                let cmds1 = cmds.take(i as int + 1);
                assert(cmds1.drop_last() =~= cmds.take(i as int));
                assert(cmds1.last() == cmds[i as int]);
                assert(texture_uses(cmds1, font) == u + c);
                assert(batches(calls@, cdc) == batch_model(u + c, max as nat));
                assert(cmd_uses(cmds1.last(), font) == c);
                assert(last_slot(cmds1, font, max as nat) == slot);
                assert(frame_vertices(cmds1, font, max as nat, glyphs@)
                    == frame_vertices(cmds.take(i as int), font, max as nat, glyphs@) + cmd_vertices(cmds[i as int], slot, glyphs@));
                assert(frame_indices(cmds1, font, max as nat, glyphs@) == frame_indices(cmds.take(i as int), font, max as nat, glyphs@)
                    + cmd_indices(cmds[i as int], frame_vertices(cmds.take(i as int), font, max as nat, glyphs@).len() as int, glyphs@));
                let flush = calls@ != calls0;
                let kv = if !flush { cdc0.vertices@ } else { Seq::<Vertex2d>::empty() };
                lemma_contents_step(
                    calls0,
                    cdc0,
                    calls@,
                    cdc,
                    flush,
                    cmd_vertices(cmds[i as int], slot, glyphs@),
                    to_u32s(cmd_indices(cmds[i as int], kv.len() as int, glyphs@)),
                );
                assert(frame_calls(cmds1, font, max as nat, glyphs@) == {
                    let prev = frame_calls(cmds.take(i as int), font, max as nat, glyphs@);
                    let open = if flush { prev.push((Seq::empty(), Seq::empty())) } else { prev };
                    let cur = open.last();
                    open.update(
                        open.len() - 1,
                        (
                            cur.0 + cmd_vertices(cmds[i as int], slot, glyphs@),
                            cur.1 + to_u32s(cmd_indices(cmds[i as int], cur.0.len() as int, glyphs@)),
                        ),
                    )
                });
            }
            i = i + 1;
        }
        proof {
            assert(cmds.take(cmds.len() as int) =~= cmds);
        }
        let ghost calls_before = calls@;
        let ghost last = cdc;
        calls.push(cdc);
        proof {
            assert(calls@.drop_last() =~= calls_before);
            assert(call_contents(calls@) =~= call_contents(calls_before).push((last.vertices@, last.indices@)));
            lemma_frame_calls_triangles(cmds, font, max as nat, glyphs@);
            assert forall|k: int| 0 <= k < calls@.len() implies (#[trigger] calls@[k]).indices@.len() % 3 == 0 by {
                assert(call_contents(calls@)[k] == frame_calls(cmds, font, max as nat, glyphs@)[k]);
            }
            assert(flat_indices(calls@) == flat_indices(calls_before) + shifted(last.indices@, flat_vertices(calls_before).len() as int));
            assert(calls@.map_values(|c: DrawCall| ids(c.textures@)) =~= batches(calls@.drop_last(), cdc));
        }
        self.commands.clear();
        calls
    }
}

/// The vertices of command `c` whose texture, if it binds one, has slot
/// `slot`; `glyphs` is the frame's table of glyph placements.
pub open spec fn cmd_vertices(c: DrawCommand, slot: u32, glyphs: Seq<Option<GlyphPlacement>>) -> Seq<Vertex2d> {
    let t = c.transform;
    let colour = c.colour;
    match c.data {
        DrawCommandData::Rect { pos, size, rotation, corner_radii } => rect_spec(t, colour, pos, size, rotation, corner_radii),
        DrawCommandData::Texture { texture, pos, scale, source_pos, source_size, rotation, corner_radii } => texture_spec(
            t,
            colour,
            texture,
            pos,
            scale,
            source_pos,
            source_size,
            rotation,
            corner_radii,
            slot,
        ),
        DrawCommandData::TextChar { glyph, .. } => if glyph < glyphs.len() {
            match glyphs[glyph as int] {
                Some(g) => glyph_spec(t, colour, g, slot),
                None => Seq::empty(),
            }
        } else {
            Seq::empty()
        },
        DrawCommandData::Triangle { verts, tex_uvs } => match tex_uvs {
            Some((_, uvs)) => triangle_spec(t, colour, verts@, uvs@, slot),
            None => triangle_spec(
                t,
                colour,
                verts@,
                seq![Vec2 { x: HALF, y: HALF }, Vec2 { x: HALF, y: HALF }, Vec2 { x: HALF, y: HALF }],
                0,
            ),
        },
        DrawCommandData::Circle { center, radius, elipseness } => circle_spec(t, colour, center, radius, elipseness),
        DrawCommandData::Line { points, .. } => if points@.len() >= 2 {
            line_spec(t, colour, points@)
        } else {
            Seq::empty()
        },
    }
}

/// The slot (1-based) of the texture that the last of `cmds` binds, or 0.
pub open spec fn last_slot(cmds: Seq<DrawCommand>, font: u64, max: nat) -> u32 {
    let u = cmd_uses(cmds.last(), font);
    if u.len() == 0 {
        0
    } else {
        (batch_model(texture_uses(cmds, font), max).last().index_of(u[0]) + 1) as u32
    }
}

/// The vertices of `cmds`, in issue order.
pub open spec fn frame_vertices(cmds: Seq<DrawCommand>, font: u64, max: nat, glyphs: Seq<Option<GlyphPlacement>>) -> Seq<Vertex2d>
    decreases cmds.len(),
{
    if cmds.len() == 0 {
        Seq::empty()
    } else {
        frame_vertices(cmds.drop_last(), font, max, glyphs) + cmd_vertices(cmds.last(), last_slot(cmds, font, max), glyphs)
    }
}

/// The vertices of `calls`, one call after the other.
pub open spec fn flat_vertices(calls: Seq<DrawCall>) -> Seq<Vertex2d>
    decreases calls.len(),
{
    if calls.len() == 0 {
        Seq::empty()
    } else {
        flat_vertices(calls.drop_last()) + calls.last().vertices@
    }
}

pub open spec fn quad_int(n: int) -> Seq<int> {
    seq![n, n + 1, n + 2, n + 2, n + 1, n + 3]
}

pub open spec fn tri_int(n: int) -> Seq<int> {
    seq![n, n + 1, n + 2]
}

/// The indices of command `c` whose first vertex is vertex `base` of the
/// frame.
pub open spec fn cmd_indices(c: DrawCommand, base: int, glyphs: Seq<Option<GlyphPlacement>>) -> Seq<int> {
    match c.data {
        DrawCommandData::Rect { .. } => quad_int(base),
        DrawCommandData::Texture { .. } => quad_int(base),
        DrawCommandData::TextChar { glyph, .. } => if glyph < glyphs.len() && glyphs[glyph as int] is Some {
            quad_int(base)
        } else {
            Seq::empty()
        },
        DrawCommandData::Triangle { .. } => tri_int(base),
        DrawCommandData::Circle { .. } => tri_int(base),
        DrawCommandData::Line { points, .. } => if points@.len() >= 2 {
            line_idx(points@).map_values(|x: int| x + base)
        } else {
            Seq::empty()
        },
    }
}

/// The indices of `cmds` into the frame's vertices, in issue order.
pub open spec fn frame_indices(cmds: Seq<DrawCommand>, font: u64, max: nat, glyphs: Seq<Option<GlyphPlacement>>) -> Seq<int>
    decreases cmds.len(),
{
    if cmds.len() == 0 {
        Seq::empty()
    } else {
        frame_indices(cmds.drop_last(), font, max, glyphs)
            + cmd_indices(cmds.last(), frame_vertices(cmds.drop_last(), font, max, glyphs).len() as int, glyphs)
    }
}

/// Whole-number indices as `u32`.
pub open spec fn to_u32s(s: Seq<int>) -> Seq<u32> {
    s.map_values(|x: int| x as u32)
}

/// Binding the textures `u` (none or one) to the last batch of `b` closes
/// the current draw call: the texture is new to it and it is full.
pub open spec fn flushes(b: Seq<Seq<u64>>, u: Seq<u64>, max: nat) -> bool {
    u.len() == 1 && !b.last().contains(u[0]) && b.last().len() >= max
}

/// The vertices and indices of each draw call made for `cmds`: each command
/// goes into the current call, which is closed first where the command's
/// texture does not fit; indices count from the call's first vertex.
pub open spec fn frame_calls(cmds: Seq<DrawCommand>, font: u64, max: nat, glyphs: Seq<Option<GlyphPlacement>>) -> Seq<(Seq<Vertex2d>, Seq<u32>)>
    decreases cmds.len(),
{
    if cmds.len() == 0 {
        seq![(Seq::empty(), Seq::empty())]
    } else {
        let pre = cmds.drop_last();
        let prev = frame_calls(pre, font, max, glyphs);
        let c = cmds.last();
        let open = if flushes(batch_model(texture_uses(pre, font), max), cmd_uses(c, font), max) {
            prev.push((Seq::empty(), Seq::empty()))
        } else {
            prev
        };
        let cur = open.last();
        open.update(
            open.len() - 1,
            (
                cur.0 + cmd_vertices(c, last_slot(cmds, font, max), glyphs),
                cur.1 + to_u32s(cmd_indices(c, cur.0.len() as int, glyphs)),
            ),
        )
    }
}

/// The vertices and indices of each call.
pub open spec fn call_contents(calls: Seq<DrawCall>) -> Seq<(Seq<Vertex2d>, Seq<u32>)> {
    calls.map_values(|c: DrawCall| (c.vertices@, c.indices@))
}

/// Every draw call's indices come in whole triangles.
pub proof fn lemma_frame_calls_triangles(cmds: Seq<DrawCommand>, font: u64, max: nat, glyphs: Seq<Option<GlyphPlacement>>)
    ensures
        forall|k: int| 0 <= k < frame_calls(cmds, font, max, glyphs).len()
            ==> (#[trigger] frame_calls(cmds, font, max, glyphs)[k]).1.len() % 3 == 0,
        frame_calls(cmds, font, max, glyphs).len() >= 1,
    decreases cmds.len(),
{
    if cmds.len() > 0 {
        let pre = cmds.drop_last();
        lemma_frame_calls_triangles(pre, font, max, glyphs);
        let prev = frame_calls(pre, font, max, glyphs);
        let c = cmds.last();
        let open = if flushes(batch_model(texture_uses(pre, font), max), cmd_uses(c, font), max) {
            prev.push((Seq::empty(), Seq::empty()))
        } else {
            prev
        };
        let cur = open.last();
        let ci = cmd_indices(c, cur.0.len() as int, glyphs);
        match c.data {
            DrawCommandData::Line { points, .. } => {
                lemma_line_idx_triangles(points@);
            },
            _ => {},
        }
        assert(ci.len() % 3 == 0);
        assert(forall|k: int| 0 <= k < open.len() ==> (#[trigger] open[k]).1.len() % 3 == 0);
        assert((cur.1 + to_u32s(ci)).len() == cur.1.len() + ci.len());
    }
}

proof fn lemma_contents_step(
    calls0: Seq<DrawCall>,
    cdc0: DrawCall,
    calls1: Seq<DrawCall>,
    cdc1: DrawCall,
    flush: bool,
    av: Seq<Vertex2d>,
    ai: Seq<u32>,
)
    requires
        flush == (calls1 != calls0),
        flush ==> calls1 == calls0.push(cdc0) && cdc1.vertices@ == av && cdc1.indices@ == ai,
        !flush ==> cdc1.vertices@ == cdc0.vertices@ + av && cdc1.indices@ == cdc0.indices@ + ai,
    ensures
        ({
            let st = call_contents(calls0).push((cdc0.vertices@, cdc0.indices@));
            let open = if flush { st.push((Seq::empty(), Seq::empty())) } else { st };
            let cur = open.last();
            call_contents(calls1).push((cdc1.vertices@, cdc1.indices@))
                == open.update(open.len() - 1, (cur.0 + av, cur.1 + ai))
        }),
{
    let st = call_contents(calls0).push((cdc0.vertices@, cdc0.indices@));
    let open = if flush { st.push((Seq::empty(), Seq::empty())) } else { st };
    let cur = open.last();
    if flush {
        assert(cur.0 + av =~= av);
        assert(cur.1 + ai =~= ai);
    }
    assert(call_contents(calls1).push((cdc1.vertices@, cdc1.indices@)) =~= open.update(open.len() - 1, (cur.0 + av, cur.1 + ai)));
}

/// Indices moved up by `off`.
pub open spec fn shifted(s: Seq<u32>, off: int) -> Seq<int> {
    s.map_values(|x: u32| x as int + off)
}

/// The indices of `calls` into their vertices taken one call after the
/// other.
pub open spec fn flat_indices(calls: Seq<DrawCall>) -> Seq<int>
    decreases calls.len(),
{
    if calls.len() == 0 {
        Seq::empty()
    } else {
        flat_indices(calls.drop_last()) + shifted(calls.last().indices@, flat_vertices(calls.drop_last()).len() as int)
    }
}

proof fn lemma_slot(calls: Seq<DrawCall>, cdc: DrawCall, t: u64, s: u32, max: nat)
    requires
        cdc.valid(max),
        1 <= s <= cdc.textures@.len(),
        cdc.textures@[s - 1].id == t,
    ensures
        batches(calls, cdc).last().index_of(t) + 1 == s,
{
    let l = batches(calls, cdc).last();
    assert(l == ids(cdc.textures@));
    assert(l[s - 1] == t);
    let k = l.index_of(t);
    assert(0 <= k < l.len() && l[k] == t);
}

pub open spec fn placement_ok(p: Option<GlyphPlacement>) -> bool {
    match p {
        Some(g) => g.wf(),
        None => true,
    }
}

/// Every placement lies in the coordinate range.
pub open spec fn placements_wf(glyphs: Seq<Option<GlyphPlacement>>) -> bool {
    forall|i: int| 0 <= i < glyphs.len() ==> placement_ok(#[trigger] glyphs[i])
}

proof fn lemma_flat_step(calls0: Seq<DrawCall>, cdc0: DrawCall, calls1: Seq<DrawCall>, cdc1: DrawCall, added: Seq<Vertex2d>)
    requires
        calls1 == calls0 ==> cdc1.vertices@ == cdc0.vertices@ + added,
        calls1 != calls0 ==> calls1 == calls0.push(cdc0) && cdc1.vertices@ == added,
    ensures
        flat_vertices(calls1) + cdc1.vertices@ == flat_vertices(calls0) + cdc0.vertices@ + added,
{
    if calls1 == calls0 {
        assert(flat_vertices(calls1) + cdc1.vertices@ =~= flat_vertices(calls0) + cdc0.vertices@ + added);
    } else {
        assert(calls1.drop_last() =~= calls0);
        assert(flat_vertices(calls1) + cdc1.vertices@ =~= flat_vertices(calls0) + cdc0.vertices@ + added);
    }
}

/// Where the commands of a frame bind pairwise different textures (`n > 0`
/// of them), `render` makes exactly `n / max` (rounded up) draw calls, every
/// one but the last binding `max` textures: the draw calls' texture lists
/// are the batches of the model.
pub proof fn lemma_distinct_texture_commands(cmds: Seq<DrawCommand>, font: u64, max: nat)
    requires
        max >= 1,
        texture_uses(cmds, font).no_duplicates(),
    ensures
        batch_model(texture_uses(cmds, font), max).len() * max >= texture_uses(cmds, font).len(),
        forall|i: int| 0 <= i < batch_model(texture_uses(cmds, font), max).len()
            ==> (#[trigger] batch_model(texture_uses(cmds, font), max)[i]).len() <= max,
        forall|i: int| 0 <= i < batch_model(texture_uses(cmds, font), max).len() - 1
            ==> (#[trigger] batch_model(texture_uses(cmds, font), max)[i]).len() == max,
        texture_uses(cmds, font).len() > 0 ==> batch_model(texture_uses(cmds, font), max).len()
            == (texture_uses(cmds, font).len() + max - 1) / max as int,
{
    crate::render::lemma_distinct_textures_calls(texture_uses(cmds, font), max);
}

/// The texture lists after binding the textures `c` (none or one).
pub open spec fn after_uses(b: Seq<Seq<u64>>, c: Seq<u64>, max: nat) -> Seq<Seq<u64>> {
    if c.len() == 0 {
        b
    } else {
        batch_step(b, c[0], max)
    }
}

/// Tessellates one command into the current draw call, closing it first
/// where the command's texture does not fit; returns the texture's slot.
#[verifier::rlimit(60)]
fn tess_command(
    calls: &mut Vec<DrawCall>,
    cdc: &mut DrawCall,
    cmd: &DrawCommand,
    font_texture: Texture,
    glyphs: &Vec<Option<GlyphPlacement>>,
    max: usize,
) -> (slot: u32)
    requires
        old(cdc).valid(max as nat),
        forall|j: int| 0 <= j < old(calls)@.len() ==> (#[trigger] old(calls)@[j]).valid(max as nat),
        old(cdc).vertices@.len() + cmd_cost(*cmd) <= MAX_VERTS,
        1 <= max <= u32::MAX,
        cmd.wf(),
        placements_wf(glyphs@),
    ensures
        final(cdc).valid(max as nat),
        forall|j: int| 0 <= j < final(calls)@.len() ==> (#[trigger] final(calls)@[j]).valid(max as nat),
        batches(final(calls)@, *final(cdc)) == after_uses(batches(old(calls)@, *old(cdc)), cmd_uses(*cmd, font_texture.id), max as nat),
        cmd_uses(*cmd, font_texture.id).len() == 0 ==> slot == 0,
        cmd_uses(*cmd, font_texture.id).len() == 1 ==> batches(final(calls)@, *final(cdc)).last().index_of(cmd_uses(*cmd, font_texture.id)[0]) + 1 == slot,
        flat_vertices(final(calls)@) + final(cdc).vertices@ == flat_vertices(old(calls)@) + old(cdc).vertices@ + cmd_vertices(*cmd, slot, glyphs@),
        final(cdc).vertices@.len() <= old(cdc).vertices@.len() + cmd_cost(*cmd),
        final(calls)@ == old(calls)@ || final(calls)@ == old(calls)@.push(*old(cdc)),
        (final(calls)@ != old(calls)@) == flushes(batches(old(calls)@, *old(cdc)), cmd_uses(*cmd, font_texture.id), max as nat),
        ({
            let kv = if final(calls)@ == old(calls)@ { old(cdc).vertices@ } else { Seq::empty() };
            let ki = if final(calls)@ == old(calls)@ { old(cdc).indices@ } else { Seq::empty() };
            &&& final(cdc).vertices@ == kv + cmd_vertices(*cmd, slot, glyphs@)
            &&& final(cdc).indices@ == ki + to_u32s(cmd_indices(*cmd, kv.len() as int, glyphs@))
        }),
        flat_indices(final(calls)@) + shifted(final(cdc).indices@, flat_vertices(final(calls)@).len() as int)
            == flat_indices(old(calls)@) + shifted(old(cdc).indices@, flat_vertices(old(calls)@).len() as int)
                + cmd_indices(*cmd, (flat_vertices(old(calls)@) + old(cdc).vertices@).len() as int, glyphs@),
{
    let ghost calls0 = calls@;
    let ghost cdc0 = *cdc;
    let t = &cmd.transform;
    let colour = cmd.colour;
    let mut slot: u32 = 0;
    match &cmd.data {
        DrawCommandData::Rect { pos, size, rotation, corner_radii } => {
            tess_rect(cdc, t, colour, *pos, *size, *rotation, *corner_radii, Ghost(max as nat));
            proof {
                lemma_shape_idx(calls0, cdc0, calls@, *cdc, true);
            }
        },
        DrawCommandData::Texture { texture, pos, scale, source_pos, source_size, rotation, corner_radii } => {
            slot = tess_texture(calls, cdc, t, colour, *texture, *pos, *scale, *source_pos, *source_size, *rotation, *corner_radii, max);
            proof {
                lemma_shape_idx(calls0, cdc0, calls@, *cdc, true);
            }
        },
        DrawCommandData::TextChar { font: _, glyph } => {
            let placement = if *glyph < glyphs.len() { glyphs[*glyph] } else { None };
            proof {
                if *glyph < glyphs@.len() {
                    assert(placement_ok(glyphs@[*glyph as int]));
                }
            }
            slot = tess_glyph(calls, cdc, t, colour, font_texture, placement, max);
            proof {
                if placement is Some {
                    lemma_shape_idx(calls0, cdc0, calls@, *cdc, true);
                } else {
                    let f = flat_vertices(calls0).len() as int;
                    if calls@ == calls0 {
                        assert(shifted(cdc.indices@, f) =~= shifted(cdc0.indices@, f) + Seq::<int>::empty());
                    } else {
                        assert(calls@.drop_last() =~= calls0);
                        assert(shifted(cdc.indices@, flat_vertices(calls@).len() as int) =~= Seq::<int>::empty());
                    }
                    lemma_idx_step(calls0, cdc0, calls@, *cdc, Seq::<int>::empty());
                }
            }
        },
        DrawCommandData::Triangle { verts, tex_uvs } => {
            slot = tess_triangle(calls, cdc, t, colour, *verts, *tex_uvs, max);
            proof {
                lemma_shape_idx(calls0, cdc0, calls@, *cdc, false);
            }
        },
        DrawCommandData::Circle { center, radius, elipseness } => {
            tess_circle(cdc, t, colour, *center, *radius, *elipseness, Ghost(max as nat));
            proof {
                lemma_shape_idx(calls0, cdc0, calls@, *cdc, false);
            }
        },
        DrawCommandData::Line { points, ends: _ } => {
            if points.len() >= 2 {
                tess_line(cdc, t, colour, points, Ghost(max as nat));
                proof {
                    lemma_line_idx_bounds(points@);
                    let n = cdc0.vertices@.len() as int;
                    let l = line_idx(points@);
                    let f = flat_vertices(calls0).len() as int;
                    assert(shifted(abs_idx(l, n), f) =~= l.map_values(|x: int| x + (flat_vertices(calls0) + cdc0.vertices@).len()));
                    assert(shifted(cdc.indices@, f) =~= shifted(cdc0.indices@, f) + shifted(abs_idx(l, n), f));
                    lemma_idx_step(calls0, cdc0, calls@, *cdc, cmd_indices(*cmd, (flat_vertices(calls0) + cdc0.vertices@).len() as int, glyphs@));
                }
            } else {
                proof {
                    assert(cdc.indices@ == cdc0.indices@);
                    let f = flat_vertices(calls0).len() as int;
                    assert(shifted(cdc.indices@, f) =~= shifted(cdc0.indices@, f) + Seq::<int>::empty());
                    lemma_idx_step(calls0, cdc0, calls@, *cdc, Seq::<int>::empty());
                }
            }
        },
    }
    proof {
        let c = cmd_uses(*cmd, font_texture.id);
        if c.len() == 1 {
            lemma_slot(calls@, *cdc, c[0], slot, max as nat);
        }
        if calls@ != calls0 {
            assert(calls@.last() == cdc0);
        }
        lemma_flat_step(calls0, cdc0, calls@, *cdc, cmd_vertices(*cmd, slot, glyphs@));
    }
    slot
}

/// The indices of a quad (`quad`) or triangle appended to the current call,
/// or to a fresh one after closing it, in frame terms.
proof fn lemma_shape_idx(calls0: Seq<DrawCall>, cdc0: DrawCall, calls1: Seq<DrawCall>, cdc1: DrawCall, quad: bool)
    requires
        cdc0.vertices@.len() + 3 <= MAX_VERTS,
        calls1 == calls0 || calls1 == calls0.push(cdc0),
        calls1 == calls0 ==> cdc1.indices@ == cdc0.indices@ + (if quad {
            crate::render::quad_indices(cdc0.vertices@.len() as int)
        } else {
            crate::render::tri_indices(cdc0.vertices@.len() as int)
        }),
        calls1 != calls0 ==> cdc1.indices@ == Seq::<u32>::empty() + (if quad {
            crate::render::quad_indices(0)
        } else {
            crate::render::tri_indices(0)
        }),
    ensures
        flat_indices(calls1) + shifted(cdc1.indices@, flat_vertices(calls1).len() as int)
            == flat_indices(calls0) + shifted(cdc0.indices@, flat_vertices(calls0).len() as int)
                + (if quad {
                quad_int((flat_vertices(calls0) + cdc0.vertices@).len() as int)
            } else {
                tri_int((flat_vertices(calls0) + cdc0.vertices@).len() as int)
            }),
{
    let f = flat_vertices(calls0).len() as int;
    let base = (flat_vertices(calls0) + cdc0.vertices@).len() as int;
    let added = if quad { quad_int(base) } else { tri_int(base) };
    if calls1 == calls0 {
        let n = cdc0.vertices@.len() as int;
        let pat = if quad { crate::render::quad_indices(n) } else { crate::render::tri_indices(n) };
        assert(shifted(pat, f) =~= added);
        assert(shifted(cdc1.indices@, f) =~= shifted(cdc0.indices@, f) + added);
    } else {
        assert(calls1.drop_last() =~= calls0);
        assert(flat_vertices(calls1).len() == base);
        let pat = if quad { crate::render::quad_indices(0) } else { crate::render::tri_indices(0) };
        assert(shifted(pat, base) =~= added);
        assert(shifted(cdc1.indices@, base) =~= added);
    }
    lemma_idx_step(calls0, cdc0, calls1, cdc1, added);
}

proof fn lemma_idx_step(calls0: Seq<DrawCall>, cdc0: DrawCall, calls1: Seq<DrawCall>, cdc1: DrawCall, added: Seq<int>)
    requires
        calls1 == calls0 ==> shifted(cdc1.indices@, flat_vertices(calls0).len() as int)
            == shifted(cdc0.indices@, flat_vertices(calls0).len() as int) + added,
        calls1 != calls0 ==> calls1 == calls0.push(cdc0)
            && shifted(cdc1.indices@, flat_vertices(calls1).len() as int) == added,
    ensures
        flat_indices(calls1) + shifted(cdc1.indices@, flat_vertices(calls1).len() as int)
            == flat_indices(calls0) + shifted(cdc0.indices@, flat_vertices(calls0).len() as int) + added,
{
    if calls1 == calls0 {
        assert(flat_indices(calls1) + shifted(cdc1.indices@, flat_vertices(calls1).len() as int)
            =~= flat_indices(calls0) + shifted(cdc0.indices@, flat_vertices(calls0).len() as int) + added);
    } else {
        assert(calls1.drop_last() =~= calls0);
        assert(flat_indices(calls1) + shifted(cdc1.indices@, flat_vertices(calls1).len() as int)
            =~= flat_indices(calls0) + shifted(cdc0.indices@, flat_vertices(calls0).len() as int) + added);
    }
}

/// The textures of one more command extend the model by one step per use.
proof fn lemma_model_append(u: Seq<u64>, c: Seq<u64>, max: nat)
    requires
        c.len() <= 1,
    ensures
        c.len() == 0 ==> batch_model(u + c, max) == batch_model(u, max),
        c.len() == 1 ==> batch_model(u + c, max) == batch_step(batch_model(u, max), c[0], max),
{
    if c.len() == 0 {
        assert(u + c =~= u);
    } else {
        assert((u + c).drop_last() =~= u);
    }
}

proof fn lemma_prefix_step(cmds: Seq<DrawCommand>, i: int, font: u64)
    requires
        0 <= i < cmds.len(),
    ensures
        texture_uses(cmds.take(i + 1), font) == texture_uses(cmds.take(i), font) + cmd_uses(cmds[i], font),
        frame_cost(cmds.take(i + 1)) == frame_cost(cmds.take(i)) + cmd_cost(cmds[i]),
{
    assert(cmds.take(i + 1).drop_last() =~= cmds.take(i));
    assert(cmds.take(i + 1).last() == cmds[i]);
}

/// The vertex budget of a prefix of the commands is at most that of all.
pub proof fn lemma_cost_prefix(cs: Seq<DrawCommand>, i: int)
    requires
        0 <= i <= cs.len(),
    ensures
        frame_cost(cs.take(i)) <= frame_cost(cs),
    decreases cs.len(),
{
    if i == cs.len() {
        assert(cs.take(i) =~= cs);
    } else {
        lemma_cost_prefix(cs.drop_last(), i);
        assert(cs.drop_last().take(i) =~= cs.take(i));
        assert(cmd_cost(cs.last()) >= 0);
    }
}

} // verus!
