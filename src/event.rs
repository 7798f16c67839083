//! Input events, and the context one frame works on.

use vstd::prelude::*;
use crate::api::present;
use crate::keyboard::{self, Key, KeyboardState};
use crate::math::Vec2;
use crate::mouse::{self, MouseState};
use crate::render::{batch_model, frame_cost, ids, texture_uses, DrawCall, GlyphPlacement, MAX_VERTS};
use crate::state::{placements_wf, CareRenderState};
use crate::texture::Texture;

verus! {

/// What happened, usually user input.
#[derive(Debug)]
pub enum EventData {
    /// A key went down (`pressed`) or came up.
    KeyEvent { key: Key, pressed: bool },
    /// A key repeats while held (for text input).
    KeyRepeat { key: Key },
    /// Text was typed; may come with a key event.
    TextEvent { text: String },
    /// The mouse moved to `position` (pixels).
    MouseMoved { position: Vec2 },
    /// A mouse button went down (`pressed`) or came up.
    MouseClick { button: i32, pressed: bool },
    /// The window gained or lost focus.
    FocusChange { focused: bool },
}

/// An event and when it happened (microseconds since the program started).
#[derive(Debug)]
pub struct Event {
    pub timestamp: u64,
    pub data: EventData,
}

/// Everything a frame works on: the render state and the input state.
#[derive(Debug)]
pub struct Care {
    pub render: CareRenderState,
    pub keyboard: KeyboardState,
    pub mouse: MouseState,
}

impl Care {
    pub open spec fn wf(&self) -> bool {
        self.render.wf() && self.keyboard.wf() && self.mouse.wf()
    }
}

/// A fresh context: an empty frame and no input.
pub fn init(max_textures: usize, font_texture: Texture) -> (c: Care)
    requires
        1 <= max_textures <= u32::MAX,
    ensures
        c.wf(),
        c.render.commands@.len() == 0,
        c.render.current_transform.is_ident(),
        c.render.current_colour.is_white(),
        c.render.max_textures == max_textures,
        c.render.font_texture == font_texture,
        c.keyboard.held_set() == Set::<Key>::empty(),
        c.keyboard.pressed_set() == Set::<Key>::empty(),
        c.keyboard.released_set() == Set::<Key>::empty(),
        c.mouse.held_set() == Set::<i32>::empty(),
        c.mouse.pressed_set() == Set::<i32>::empty(),
        c.mouse.released_set() == Set::<i32>::empty(),
        c.mouse.position == (Vec2 { x: 0, y: 0 }),
{
    Care {
        render: crate::api::init(max_textures, font_texture),
        keyboard: KeyboardState::empty(),
        mouse: MouseState::empty(),
    }
}

/// Ends the frame: compiles and clears the frame's commands (see
/// `present`) and starts a new input frame for keyboard and mouse.
pub fn end_frame(care: &mut Care, glyphs: &Vec<Option<GlyphPlacement>>) -> (calls: Vec<DrawCall>)
    requires
        old(care).wf(),
        frame_cost(old(care).render.commands@) <= MAX_VERTS,
        placements_wf(glyphs@),
    ensures
        final(care).wf(),
        final(care).render.commands@.len() == 0,
        final(care).render.current_transform.is_ident(),
        final(care).render.current_colour.is_white(),
        final(care).render.max_textures == old(care).render.max_textures,
        calls@.len() >= 1,
        forall|i: int| 0 <= i < calls@.len() ==> (#[trigger] calls@[i]).valid(old(care).render.max_textures as nat),
        calls@.map_values(|c: DrawCall| ids(c.textures@))
            == batch_model(texture_uses(old(care).render.commands@, old(care).render.font_texture.id), old(care).render.max_textures as nat),
        crate::state::flat_vertices(calls@) == crate::state::frame_vertices(
            old(care).render.commands@,
            old(care).render.font_texture.id,
            old(care).render.max_textures as nat,
            glyphs@,
        ),
        crate::state::flat_indices(calls@) == crate::state::frame_indices(
            old(care).render.commands@,
            old(care).render.font_texture.id,
            old(care).render.max_textures as nat,
            glyphs@,
        ),
        crate::state::call_contents(calls@) == crate::state::frame_calls(
            old(care).render.commands@,
            old(care).render.font_texture.id,
            old(care).render.max_textures as nat,
            glyphs@,
        ),
        forall|k: int| 0 <= k < calls@.len() ==> (#[trigger] calls@[k]).indices@.len() % 3 == 0,
        final(care).keyboard.pressed_set() == Set::<Key>::empty(),
        final(care).keyboard.released_set() == Set::<Key>::empty(),
        final(care).keyboard.held_set() == old(care).keyboard.held_set(),
        final(care).mouse.pressed_set() == Set::<i32>::empty(),
        final(care).mouse.released_set() == Set::<i32>::empty(),
        final(care).mouse.held_set() == old(care).mouse.held_set(),
        final(care).mouse.position == old(care).mouse.position,
{
    let calls = present(&mut care.render, glyphs);
    keyboard::reset(&mut care.keyboard);
    mouse::reset(&mut care.mouse);
    calls
}

/// Applies an input event to the keyboard and mouse state. Events that
/// carry text, repeats and focus changes leave it as it is.
pub fn handle_event(care: &mut Care, ev: &Event)
    requires
        old(care).wf(),
    ensures
        final(care).wf(),
        final(care).render == old(care).render,
        match ev.data {
            EventData::KeyEvent { key, pressed } => {
                &&& final(care).mouse == old(care).mouse
                &&& pressed ==> final(care).keyboard.held_set() == old(care).keyboard.held_set().insert(key)
                    && final(care).keyboard.pressed_set() == old(care).keyboard.pressed_set().insert(key)
                    && final(care).keyboard.released_set() == old(care).keyboard.released_set()
                &&& !pressed ==> final(care).keyboard.held_set() == old(care).keyboard.held_set().remove(key)
                    && final(care).keyboard.released_set() == old(care).keyboard.released_set().insert(key)
                    && final(care).keyboard.pressed_set() == old(care).keyboard.pressed_set()
            },
            EventData::MouseMoved { position } => {
                &&& final(care).keyboard == old(care).keyboard
                &&& final(care).mouse.position == position
                &&& final(care).mouse.held@ == old(care).mouse.held@
                &&& final(care).mouse.pressed@ == old(care).mouse.pressed@
                &&& final(care).mouse.released@ == old(care).mouse.released@
            },
            EventData::MouseClick { button, pressed } => {
                &&& final(care).keyboard == old(care).keyboard
                &&& final(care).mouse.position == old(care).mouse.position
                &&& pressed ==> final(care).mouse.held_set() == old(care).mouse.held_set().insert(button)
                    && final(care).mouse.pressed_set() == old(care).mouse.pressed_set().insert(button)
                    && final(care).mouse.released_set() == old(care).mouse.released_set()
                &&& !pressed ==> final(care).mouse.held_set() == old(care).mouse.held_set().remove(button)
                    && final(care).mouse.released_set() == old(care).mouse.released_set().insert(button)
                    && final(care).mouse.pressed_set() == old(care).mouse.pressed_set()
            },
            _ => final(care).keyboard == old(care).keyboard && final(care).mouse == old(care).mouse,
        },
{
    match &ev.data {
        EventData::KeyEvent { key, pressed } => keyboard::process_key_event(&mut care.keyboard, *key, *pressed),
        EventData::MouseMoved { position } => mouse::process_mouse_moved_event(&mut care.mouse, *position),
        EventData::MouseClick { button, pressed } => mouse::process_mouse_click_event(&mut care.mouse, *button, *pressed),
        EventData::TextEvent { .. } => {},
        EventData::FocusChange { .. } => {},
        EventData::KeyRepeat { .. } => {},
    }
}

} // verus!
