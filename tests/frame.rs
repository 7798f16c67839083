use care2d::api::{init, present, rectangle, texture};
use care2d::frame::{bind_slots, draw_ranges, grown_buffer_size, next_power_of_two, DrawRange};
use care2d::math::Vec2;
use care2d::render::DrawCall;
use care2d::texture::Texture;

#[test]
fn ranges_skip_empty_calls() {
    let mut r = init(1, Texture::new(100, 8, 8));
    rectangle(&mut r, Vec2::new(0, 0), Vec2::new(1, 1));
    texture(&mut r, &Texture::new(1, 2, 2), Vec2::new(0, 0));
    texture(&mut r, &Texture::new(2, 2, 2), Vec2::new(0, 0));
    let mut calls = present(&mut r, &vec![]);
    calls.insert(1, DrawCall::empty());
    let ranges = draw_ranges(&calls);
    assert_eq!(
        ranges,
        vec![
            DrawRange { call: 0, first_vertex: 0, vertex_count: 8, first_index: 0, index_count: 12 },
            DrawRange { call: 2, first_vertex: 8, vertex_count: 4, first_index: 12, index_count: 6 },
        ]
    );
}

#[test]
fn slots_pad_with_placeholder() {
    let mut r = init(3, Texture::new(100, 8, 8));
    texture(&mut r, &Texture::new(5, 2, 2), Vec2::new(0, 0));
    let calls = present(&mut r, &vec![]);
    let slots = bind_slots(&calls[0], 3);
    assert_eq!(slots.len(), 3);
    assert_eq!(slots[0].map(|t| t.id), Some(5));
    assert!(slots[1].is_none() && slots[2].is_none());
}

#[test]
fn buffer_growth() {
    assert_eq!(next_power_of_two(1000), 1024);
    assert_eq!(next_power_of_two(1025), 2048);
    assert_eq!(next_power_of_two(1), 1);
    assert_eq!(next_power_of_two(0), 1);
    assert_eq!(grown_buffer_size(100, 0), Some(1024));
    assert_eq!(grown_buffer_size(5000, 1024), Some(8192));
    assert_eq!(grown_buffer_size(10, 100), None);
}
