use care2d::api::{
    circle, fits_in_frame, init, line_segment, line_varying_styles, max_textures_for_limits,
    polyline, present, rectangle, rectangle_line, rectangle_rounded, set_colour, set_line_style,
    set_transform, text, texture, triangle, triangle_textured,
};
use care2d::math::{Mat3, Rotation, Vec2, ONE, SUB};
use care2d::render::{Colour, DrawCall, GlyphPlacement, LineEndStyle, LineJoinStyle};
use care2d::state::CareRenderState;
use care2d::texture::Texture;

fn v(x: i64, y: i64) -> Vec2 {
    Vec2::new(x, y)
}

fn state(max: usize) -> CareRenderState {
    init(max, Texture::new(1000, 1024, 1024))
}

fn red() -> Colour {
    Colour { r: 255, g: 0, b: 0, a: 255 }
}

fn blue() -> Colour {
    Colour { r: 0, g: 0, b: 255, a: 255 }
}

fn indices_valid(calls: &[DrawCall]) -> bool {
    calls.iter().all(|c| c.indices.iter().all(|&i| (i as usize) < c.vertices.len()))
}

fn dist_sq(a: Vec2, b: Vec2) -> i128 {
    let dx = (a.x - b.x) as i128;
    let dy = (a.y - b.y) as i128;
    dx * dx + dy * dy
}

#[test]
fn rectangle_scenario() {
    let mut r = state(4);
    rectangle(&mut r, v(10, 10), v(20, 20));
    let calls = present(&mut r, &vec![]);
    assert_eq!(calls.len(), 1);
    let c = &calls[0];
    assert_eq!(c.vertices.len(), 4);
    assert_eq!(c.indices, vec![0, 1, 2, 2, 1, 3]);
    let expected = [(10, 10), (30, 10), (10, 30), (30, 30)];
    for (vert, (x, y)) in c.vertices.iter().zip(expected.iter()) {
        assert_eq!(vert.pos, v(x * SUB, y * SUB));
        // Normalised by the screen size 800 x 600.
        let nx = vert.pos.x as f64 / (SUB as f64 * 800.0);
        let ny = vert.pos.y as f64 / (SUB as f64 * 600.0);
        assert!((nx - *x as f64 / 800.0).abs() < 1e-12);
        assert!((ny - *y as f64 / 600.0).abs() < 1e-12);
        assert_eq!(vert.tex, 0);
        assert_eq!(vert.rounding, [0, 0, 0, 0]);
    }
    assert_eq!(c.vertices[0].uv, v(0, 0));
    assert_eq!(c.vertices[1].uv, v(ONE, 0));
    assert_eq!(c.vertices[2].uv, v(0, ONE));
    assert_eq!(c.vertices[3].uv, v(ONE, ONE));
    assert!(c.textures.is_empty());
}

#[test]
fn rectangle_uv_follows_aspect() {
    let mut r = state(4);
    rectangle_rounded(&mut r, v(0, 0), v(40, 10), Rotation::none(), [10, 20, 30, 40]);
    let calls = present(&mut r, &vec![]);
    let c = &calls[0];
    assert_eq!(c.vertices[3].uv, v(ONE, ONE / 4));
    assert_eq!(c.vertices[0].rounding_size, v(ONE, ONE / 4));
    assert_eq!(c.vertices[2].rounding, [10, 20, 30, 40]);
}

#[test]
fn rotated_rectangle_quarter_turn() {
    let mut r = state(4);
    care2d::api::rectangle_rot(&mut r, v(0, 0), v(10, 0), Rotation { cos: 0, sin: ONE });
    let calls = present(&mut r, &vec![]);
    // (x, y) turns to (y, -x).
    assert_eq!(calls[0].vertices[1].pos, v(0, -10 * SUB));
}

#[test]
fn commands_capture_colour_at_issue() {
    let mut r = state(4);
    set_colour(&mut r, red());
    rectangle(&mut r, v(0, 0), v(5, 5));
    set_colour(&mut r, blue());
    rectangle(&mut r, v(10, 0), v(5, 5));
    assert_eq!(r.commands[0].colour, red());
    assert_eq!(r.commands[1].colour, blue());
    let calls = present(&mut r, &vec![]);
    let vs = &calls[0].vertices;
    assert_eq!(vs.len(), 8);
    assert!(vs[..4].iter().all(|x| x.colour == red()));
    assert!(vs[4..].iter().all(|x| x.colour == blue()));
}

#[test]
fn commands_capture_transform_at_issue() {
    let mut r = state(4);
    let shift = Mat3 { xx: ONE, xy: 0, yx: 0, yy: ONE, tx: 100, ty: 50 };
    set_transform(&mut r, shift);
    rectangle(&mut r, v(0, 0), v(1, 1));
    set_transform(&mut r, Mat3::ident());
    rectangle(&mut r, v(0, 0), v(1, 1));
    let calls = present(&mut r, &vec![]);
    assert_eq!(calls[0].vertices[0].pos, v(100, 50));
    assert_eq!(calls[0].vertices[4].pos, v(0, 0));
}

#[test]
fn distinct_textures_split_into_batches() {
    let mut r = state(2);
    for id in 1..=5u64 {
        texture(&mut r, &Texture::new(id, 8, 8), v(0, 0));
    }
    let calls = present(&mut r, &vec![]);
    assert_eq!(calls.len(), 3);
    assert!(calls.len() >= (5 + 2 - 1) / 2);
    let ids: Vec<Vec<u64>> = calls.iter().map(|c| c.textures.iter().map(|t| t.id).collect()).collect();
    assert_eq!(ids, vec![vec![1, 2], vec![3, 4], vec![5]]);
    for c in &calls {
        assert!(c.textures.len() <= 2);
        assert_eq!(c.indices, vec![0, 1, 2, 2, 1, 3, 4, 5, 6, 6, 5, 7][..c.indices.len()].to_vec());
    }
    assert_eq!(calls[2].vertices.len(), 4);
    assert!(calls[1].vertices.iter().skip(4).all(|x| x.tex == 2));
}

#[test]
fn same_texture_reuses_slot() {
    let mut r = state(4);
    let t = Texture::new(9, 16, 16);
    let other = Texture::new(10, 16, 16);
    texture(&mut r, &t, v(0, 0));
    texture(&mut r, &other, v(0, 0));
    texture(&mut r, &t, v(5, 5));
    let calls = present(&mut r, &vec![]);
    assert_eq!(calls.len(), 1);
    assert_eq!(calls[0].textures.len(), 2);
    let slots: Vec<u32> = calls[0].vertices.iter().map(|x| x.tex).collect();
    assert_eq!(slots, vec![1, 1, 1, 1, 2, 2, 2, 2, 1, 1, 1, 1]);
}

#[test]
fn same_pixels_other_handle_is_other_texture() {
    let mut r = state(4);
    texture(&mut r, &Texture::new(1, 16, 16), v(0, 0));
    texture(&mut r, &Texture::new(2, 16, 16), v(0, 0));
    let calls = present(&mut r, &vec![]);
    assert_eq!(calls[0].textures.len(), 2);
}

#[test]
fn texture_quad_geometry() {
    let mut r = state(4);
    texture(&mut r, &Texture::new(7, 64, 32), v(10, 20));
    let calls = present(&mut r, &vec![]);
    let vs = &calls[0].vertices;
    assert_eq!(vs[0].pos, v(2560, 5120));
    assert_eq!(vs[1].pos, v(2560 + 64 * SUB, 5120));
    assert_eq!(vs[2].pos, v(2560, 5120 + 32 * SUB));
    assert_eq!(vs[3].uv, v(ONE, ONE));
    assert!(vs.iter().all(|x| x.tex == 1));
}

#[test]
fn texture_source_region_uv() {
    let mut r = state(4);
    let t = Texture::new(3, 100, 50);
    care2d::api::texture_source(&mut r, &t, v(0, 0), v(ONE / 2, ONE), v(50, 25), v(25, 25));
    let calls = present(&mut r, &vec![]);
    let vs = &calls[0].vertices;
    assert_eq!(vs[0].uv, v(ONE / 2, ONE / 2));
    assert_eq!(vs[3].uv, v(ONE / 2 + ONE / 4, ONE));
    assert_eq!(vs[3].pos, v(50 * SUB, 50 * SUB));
}

#[test]
fn present_on_empty_frame() {
    let mut r = state(4);
    let calls = present(&mut r, &vec![]);
    assert_eq!(calls.len(), 1);
    assert!(calls[0].vertices.is_empty() && calls[0].indices.is_empty());
}

#[test]
fn present_resets_colour_and_transform() {
    let mut r = state(4);
    set_colour(&mut r, red());
    set_transform(&mut r, Mat3 { xx: ONE, xy: 0, yx: 0, yy: ONE, tx: 7, ty: 7 });
    rectangle(&mut r, v(0, 0), v(1, 1));
    let _ = present(&mut r, &vec![]);
    assert!(r.commands.is_empty());
    rectangle(&mut r, v(0, 0), v(1, 1));
    assert_eq!(r.commands[0].colour, Colour { r: 255, g: 255, b: 255, a: 255 });
    assert_eq!(r.commands[0].transform, Mat3::ident());
}

#[test]
fn every_shape_indexes_its_own_vertices() {
    let mut r = state(2);
    let atlas = Texture::new(1000, 1024, 1024);
    rectangle(&mut r, v(0, 0), v(5, 5));
    texture(&mut r, &Texture::new(1, 4, 4), v(0, 0));
    triangle(&mut r, (v(0, 0), v(10, 0), v(0, 10)));
    triangle_textured(&mut r, (v(0, 0), v(10, 0), v(0, 10)), &Texture::new(2, 4, 4), (v(0, 0), v(ONE, 0), v(0, ONE)));
    circle(&mut r, v(50, 50), 10);
    for join in [
        LineJoinStyle::Disjoint,
        LineJoinStyle::Merge,
        LineJoinStyle::Miter,
        LineJoinStyle::MiterUnlimited,
        LineJoinStyle::Bevel,
        LineJoinStyle::Rounded,
    ] {
        set_line_style(&mut r, join, LineEndStyle::Flat);
        polyline(&mut r, &vec![v(0, 0), v(30, 0), v(30, 30), v(0, 30)], 4);
    }
    rectangle_line(&mut r, v(5, 5), v(20, 10), 2);
    text(&mut r, 1, &vec![0, 1]);
    let placement = GlyphPlacement { uv_min: v(0, 0), uv_max: v(100, 100), pos_min: v(0, 0), pos_max: v(2048, 2048) };
    assert!(fits_in_frame(&r));
    let calls = present(&mut r, &vec![Some(placement), None]);
    assert!(indices_valid(&calls));
    for c in &calls {
        assert!(c.textures.len() <= 2);
        assert!(c.vertices.iter().all(|x| (x.tex as usize) <= c.textures.len()));
    }
    assert!(calls.last().unwrap().textures.iter().any(|t| t.id == atlas.id));
}

#[test]
fn circle_is_one_triangle() {
    let mut r = state(4);
    circle(&mut r, v(0, 0), 10);
    let calls = present(&mut r, &vec![]);
    let vs = &calls[0].vertices;
    assert_eq!(vs.len(), 3);
    assert_eq!(calls[0].indices, vec![0, 1, 2]);
    assert_eq!(vs[0].pos, v(-4434, -2560));
    assert_eq!(vs[1].pos, v(0, 5120));
    assert_eq!(vs[2].pos, v(4434, -2560));
    assert_eq!(vs[0].uv, v(-23988, 0));
    assert_eq!(vs[1].uv, v(32768, 98304));
    assert_eq!(vs[2].uv, v(89524, 0));
    assert!(vs.iter().all(|x| x.rounding == [255, 255, 255, 255]));
}

#[test]
fn ellipse_is_stretched() {
    let mut r = state(4);
    care2d::api::ellipse(&mut r, v(0, 0), 10, v(ONE, 0));
    let calls = present(&mut r, &vec![]);
    // Stretched by a factor of two along x.
    assert_eq!(calls[0].vertices[0].pos, v(-2 * 4434, -2560));
    assert_eq!(calls[0].vertices[1].pos, v(0, 5120));
}

#[test]
fn solid_triangle_vertices() {
    let mut r = state(4);
    triangle(&mut r, (v(0, 0), v(10, 0), v(0, 10)));
    let calls = present(&mut r, &vec![]);
    let vs = &calls[0].vertices;
    assert_eq!(vs[1].pos, v(10 * SUB, 0));
    assert!(vs.iter().all(|x| x.tex == 0 && x.uv == v(32768, 32768)));
}

#[test]
fn glyphs_not_packed_are_skipped() {
    let mut r = state(4);
    text(&mut r, 1, &vec![0, 1, 5]);
    let placement = GlyphPlacement { uv_min: v(0, 0), uv_max: v(ONE, ONE), pos_min: v(0, 0), pos_max: v(512, 768) };
    let calls = present(&mut r, &vec![Some(placement), None]);
    assert_eq!(calls[0].vertices.len(), 4);
    assert_eq!(calls[0].vertices[3].pos, v(512, 768));
    assert_eq!(calls[0].vertices[1].uv, v(ONE, 0));
    assert_eq!(calls[0].textures.len(), 1);
    assert_eq!(calls[0].textures[0].id, 1000);
}

fn miter_join(join: LineJoinStyle) -> (Vec2, Vec2, Vec2) {
    let mut r = state(4);
    set_line_style(&mut r, join, LineEndStyle::Flat);
    line_varying_styles(&mut r, &vec![(v(0, 0), 10, join), (v(100, 0), 10, join), (v(0, 10), 10, join)], (LineEndStyle::Flat, LineEndStyle::Flat));
    let calls = present(&mut r, &vec![]);
    let vs = &calls[0].vertices;
    assert_eq!(vs.len(), 11);
    assert!(indices_valid(&calls));
    (vs[6].pos, vs[7].pos, vs[8].pos)
}

#[test]
fn miter_is_clamped_to_twice_the_width() {
    let (centre, a, b) = miter_join(LineJoinStyle::Miter);
    assert_eq!(centre, v(100 * SUB, 0));
    let limit = (2 * 10 * SUB) as i128;
    assert!(dist_sq(a, centre) <= limit * limit);
    assert!(dist_sq(b, centre) <= limit * limit);
}

#[test]
fn unlimited_miter_goes_further() {
    let (centre, a, b) = miter_join(LineJoinStyle::MiterUnlimited);
    let limit = (2 * 10 * SUB) as i128;
    assert!(dist_sq(a, centre) > limit * limit || dist_sq(b, centre) > limit * limit);
}

#[test]
fn bevel_adds_centre_vertex() {
    let mut r = state(4);
    line_varying_styles(
        &mut r,
        &vec![(v(0, 0), 2, LineJoinStyle::Bevel), (v(10, 0), 2, LineJoinStyle::Bevel), (v(10, 10), 2, LineJoinStyle::Bevel)],
        (LineEndStyle::Flat, LineEndStyle::Flat),
    );
    let calls = present(&mut r, &vec![]);
    assert_eq!(calls[0].vertices.len(), 9);
    assert_eq!(calls[0].vertices[6].pos, v(10 * SUB, 0));
    assert_eq!(calls[0].indices.len(), 6 + 6 + 6);
}

#[test]
fn merge_join_averages_offsets() {
    let mut r = state(4);
    line_varying_styles(
        &mut r,
        &vec![(v(0, 0), 2, LineJoinStyle::Merge), (v(10, 0), 2, LineJoinStyle::Merge), (v(20, 0), 2, LineJoinStyle::Merge)],
        (LineEndStyle::Flat, LineEndStyle::Flat),
    );
    let calls = present(&mut r, &vec![]);
    let vs = &calls[0].vertices;
    assert_eq!(vs.len(), 6);
    // Width 2 px: offsets of one pixel, turned clockwise from +x.
    assert_eq!(vs[0].pos, v(0, -SUB));
    assert_eq!(vs[1].pos, v(0, SUB));
    assert_eq!(vs[2].pos, v(10 * SUB, -SUB));
    assert_eq!(vs[3].pos, v(10 * SUB, SUB));
}

#[test]
fn zero_length_segment_is_finite() {
    let mut r = state(4);
    line_segment(&mut r, v(5, 5), v(5, 5), 3);
    let calls = present(&mut r, &vec![]);
    let vs = &calls[0].vertices;
    assert_eq!(vs.len(), 4);
    assert!(vs.iter().all(|x| x.pos == v(5 * SUB, 5 * SUB)));
    assert!(indices_valid(&calls));
}

#[test]
fn line_with_one_point_draws_nothing() {
    let mut r = state(4);
    care2d::api::line(&mut r, &vec![v(1, 1)], 3);
    let calls = present(&mut r, &vec![]);
    assert!(calls[0].vertices.is_empty());
}

#[test]
fn polyline_closes_the_shape() {
    let mut r = state(4);
    polyline(&mut r, &vec![v(0, 0), v(10, 0), v(10, 10)], 2);
    match &r.commands[0].data {
        care2d::render::DrawCommandData::Line { points, ends } => {
            let ps: Vec<Vec2> = points.iter().map(|p| p.pos).collect();
            assert_eq!(ps, vec![v(0, 0), v(2560, 0), v(2560, 2560), v(0, 0), v(10, 0)]);
            assert!(points.iter().all(|p| p.width == 2 * SUB));
            assert_eq!(*ends, (LineEndStyle::Flat, LineEndStyle::Flat));
        },
        _ => panic!("not a line"),
    }
}

#[test]
fn max_textures_from_device_limits() {
    assert_eq!(max_textures_for_limits(8, 16, 16), 4);
    assert_eq!(max_textures_for_limits(1000, 16, 12), 12);
    assert_eq!(max_textures_for_limits(1000, 10, 12), 10);
}

#[test]
fn next_font_ids_increase() {
    let mut r = state(4);
    let a = r.next_font_id();
    let b = r.next_font_id();
    assert_eq!(b, a + 1);
}

#[test]
fn transform_stack_round_trip() {
    let mut r = state(4);
    let shift = Mat3 { xx: ONE, xy: 0, yx: 0, yy: ONE, tx: 3, ty: 4 };
    care2d::api::push_transform(&mut r);
    set_transform(&mut r, shift);
    assert!(care2d::api::pop_transform(&mut r));
    assert_eq!(r.current_transform, Mat3::ident());
    assert!(!care2d::api::pop_transform(&mut r));
}

#[test]
fn default_line_styles_are_rounded() {
    let r = state(4);
    assert_eq!(r.line_join_style, LineJoinStyle::Rounded);
    assert_eq!(r.line_end_style, LineEndStyle::Rounded);
    assert_eq!(r.next_font_id, 2);
    assert_eq!(r.max_textures, 4);
}

#[test]
fn line_takes_current_styles() {
    let mut r = state(4);
    set_line_style(&mut r, LineJoinStyle::Bevel, LineEndStyle::Point);
    care2d::api::line(&mut r, &vec![v(0, 0), v(4, 0), v(4, 4)], 1);
    match &r.commands[0].data {
        care2d::render::DrawCommandData::Line { points, ends } => {
            assert!(points.iter().all(|p| p.join == LineJoinStyle::Bevel && p.width == SUB));
            assert_eq!(*ends, (LineEndStyle::Point, LineEndStyle::Point));
        },
        _ => panic!("not a line"),
    }
}

#[test]
fn miter_bound_holds_over_many_angles() {
    for (x, y) in [(0, 1), (0, 5), (10, 3), (50, 1), (90, 40), (-30, 80), (99, 1), (0, -7), (70, -70), (200, 2)] {
        for width in [1, 3, 10] {
            let mut r = state(4);
            let pts = vec![(v(0, 0), width, LineJoinStyle::Miter), (v(100, 0), width, LineJoinStyle::Miter), (v(x, y), width, LineJoinStyle::Miter)];
            line_varying_styles(&mut r, &pts, (LineEndStyle::Flat, LineEndStyle::Flat));
            let calls = present(&mut r, &vec![]);
            let vs = &calls[0].vertices;
            let limit = (2 * width * SUB) as i128;
            assert!(dist_sq(vs[7].pos, vs[6].pos) <= limit * limit);
            assert!(dist_sq(vs[8].pos, vs[6].pos) <= limit * limit);
            assert!(indices_valid(&calls));
        }
    }
}

#[test]
fn tall_rectangle_uv_maps_longer_side() {
    let mut r = state(4);
    rectangle(&mut r, v(0, 0), v(10, 20));
    let calls = present(&mut r, &vec![]);
    let c = &calls[0];
    assert_eq!(c.vertices[1].uv, v(ONE / 2, 0));
    assert_eq!(c.vertices[2].uv, v(0, ONE));
    assert_eq!(c.vertices[3].uv, v(ONE / 2, ONE));
    assert_eq!(c.vertices[0].rounding_size, v(ONE / 2, ONE));
}

#[test]
fn distinct_textures_land_in_their_batches_call() {
    let mut r = state(3);
    for id in 1..=7u64 {
        texture(&mut r, &Texture::new(id, 8, 8), v(0, 0));
    }
    let calls = present(&mut r, &vec![]);
    assert_eq!(calls.len(), (7 + 3 - 1) / 3);
    for (i, id) in (1..=7u64).enumerate() {
        let call = &calls[i / 3];
        assert_eq!(call.textures[i % 3].id, id);
        let quad = &call.vertices[(i % 3) * 4..(i % 3) * 4 + 4];
        assert!(quad.iter().all(|x| x.tex == (i % 3 + 1) as u32));
    }
    assert!(calls.iter().all(|c| c.indices.len() % 3 == 0));
}

#[test]
fn state_changes_keep_font_ids() {
    let mut r = state(4);
    set_colour(&mut r, red());
    set_line_style(&mut r, LineJoinStyle::Miter, LineEndStyle::Flat);
    care2d::api::push_transform(&mut r);
    care2d::api::pop_transform(&mut r);
    assert_eq!(r.default_font, care2d::state::DEFAULT_FONT_ID);
    assert_eq!(r.next_font_id, care2d::state::DEFAULT_FONT_ID + 1);
}
