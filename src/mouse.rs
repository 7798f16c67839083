//! Mouse state: position, buttons pressed and released this frame, and
//! buttons held.

use vstd::prelude::*;
use crate::math::Vec2;

verus! {

/// A mouse button as the windowing system names it.
#[derive(Clone, Copy, Debug, PartialEq, Eq, Structural)]
pub enum MouseButton {
    Left,
    Right,
    Middle,
    Back,
    Forward,
    Other(u16),
}

/// The number a button is known by: 1 to 5 for the named buttons, 6 and up
/// for the others.
pub open spec fn button_code_spec(b: MouseButton) -> int {
    match b {
        MouseButton::Left => 1,
        MouseButton::Right => 2,
        MouseButton::Middle => 3,
        MouseButton::Back => 4,
        MouseButton::Forward => 5,
        MouseButton::Other(n) => n + 6,
    }
}

/// The number a button is known by in click events.
pub fn button_code(b: MouseButton) -> (r: i32)
    ensures
        r == button_code_spec(b),
{
    match b {
        MouseButton::Left => 1,
        MouseButton::Right => 2,
        MouseButton::Middle => 3,
        MouseButton::Back => 4,
        MouseButton::Forward => 5,
        MouseButton::Other(n) => n as i32 + 6,
    }
}

/// The buttons in `v`.
pub open spec fn button_set(v: Seq<i32>) -> Set<i32> {
    Set::new(|b: i32| v.contains(b))
}

/// The mouse's position, and which buttons went down and came up this frame
/// and which are held. Buttons are numbered from 1: left, right, middle,
/// back, forward, then others.
#[derive(Debug)]
pub struct MouseState {
    pub position: Vec2,
    pub pressed: Vec<i32>,
    pub released: Vec<i32>,
    pub held: Vec<i32>,
}

impl MouseState {
    pub open spec fn wf(&self) -> bool {
        self.pressed@.no_duplicates() && self.released@.no_duplicates() && self.held@.no_duplicates()
    }

    pub open spec fn pressed_set(&self) -> Set<i32> {
        button_set(self.pressed@)
    }

    pub open spec fn released_set(&self) -> Set<i32> {
        button_set(self.released@)
    }

    pub open spec fn held_set(&self) -> Set<i32> {
        button_set(self.held@)
    }

    /// At the origin, no button pressed, released or held.
    pub fn empty() -> (r: MouseState)
        ensures
            r.wf(),
            r.position == (Vec2 { x: 0, y: 0 }),
            r.pressed_set() == Set::<i32>::empty(),
            r.released_set() == Set::<i32>::empty(),
            r.held_set() == Set::<i32>::empty(),
    {
        let r = MouseState { position: Vec2 { x: 0, y: 0 }, pressed: Vec::new(), released: Vec::new(), held: Vec::new() };
        assert(r.pressed_set() =~= Set::<i32>::empty());
        assert(r.released_set() =~= Set::<i32>::empty());
        assert(r.held_set() =~= Set::<i32>::empty());
        r
    }
}

fn has_button(v: &Vec<i32>, button: i32) -> (r: bool)
    ensures
        r == v@.contains(button),
{
    let mut i: usize = 0;
    while i < v.len()
        invariant
            0 <= i <= v@.len(),
            forall|j: int| 0 <= j < i ==> v@[j] != button,
        decreases v@.len() - i,
    {
        if v[i] == button {
            return true;
        }
        i = i + 1;
    }
    false
}

fn add_button(v: &mut Vec<i32>, button: i32)
    requires
        old(v)@.no_duplicates(),
    ensures
        final(v)@.no_duplicates(),
        button_set(final(v)@) == button_set(old(v)@).insert(button),
{
    if !has_button(v, button) {
        v.push(button);
        proof {
            assert forall|a: int, b: int| 0 <= a < b < v@.len() implies v@[a] != v@[b] by {
                if b == v@.len() - 1 {
                    assert(old(v)@[a] == v@[a]);
                }
            }
        }
    }
    assert(button_set(v@) =~= button_set(old(v)@).insert(button)) by {
        assert forall|k: i32| #[trigger] v@.contains(k) == (old(v)@.contains(k) || k == button) by {
            if old(v)@.contains(k) {
                let j = choose|j: int| 0 <= j < old(v)@.len() && old(v)@[j] == k;
                assert(v@[j] == k);
            }
            if k == button {
                if !old(v)@.contains(button) {
                    assert(v@[v@.len() - 1] == button);
                }
            }
        }
    }
}

fn remove_button(v: &mut Vec<i32>, button: i32)
    requires
        old(v)@.no_duplicates(),
    ensures
        final(v)@.no_duplicates(),
        button_set(final(v)@) == button_set(old(v)@).remove(button),
{
    let mut i: usize = 0;
    while i < v.len()
        invariant
            0 <= i <= v@.len(),
            v@ == old(v)@,
            old(v)@.no_duplicates(),
            forall|j: int| 0 <= j < i ==> v@[j] != button,
        decreases v@.len() - i,
    {
        if v[i] == button {
            v.remove(i);
            proof {
                assert(v@ =~= old(v)@.remove(i as int));
                assert forall|a: int, b: int| 0 <= a < b < v@.len() implies v@[a] != v@[b] by {
                    let oa = if a < i { a } else { a + 1 };
                    let ob = if b < i { b } else { b + 1 };
                    assert(v@[a] == old(v)@[oa]);
                    assert(v@[b] == old(v)@[ob]);
                }
                assert(button_set(v@) =~= button_set(old(v)@).remove(button)) by {
                    assert forall|k: i32| #[trigger] v@.contains(k) == (old(v)@.contains(k) && k != button) by {
                        if v@.contains(k) {
                            let j = choose|j: int| 0 <= j < v@.len() && v@[j] == k;
                            let oj = if j < i { j } else { j + 1 };
                            assert(old(v)@[oj] == k);
                            assert(oj != i);
                        }
                        if old(v)@.contains(k) && k != button {
                            let j = choose|j: int| 0 <= j < old(v)@.len() && old(v)@[j] == k;
                            assert(j != i);
                            let nj = if j < i { j } else { j - 1 };
                            assert(v@[nj] == k);
                        }
                    }
                }
            }
            return;
        }
        i = i + 1;
    }
    assert(button_set(v@) =~= button_set(old(v)@).remove(button));
}

/// The mouse's position, in pixels.
pub fn get_position(state: &MouseState) -> (r: Vec2)
    ensures
        r == state.position,
{
    state.position
}

/// Whether `button` is held down.
pub fn is_down(state: &MouseState, button: i32) -> (r: bool)
    ensures
        r == state.held_set().contains(button),
{
    has_button(&state.held, button)
}

/// Whether `button` went down this frame.
pub fn is_pressed(state: &MouseState, button: i32) -> (r: bool)
    ensures
        r == state.pressed_set().contains(button),
{
    has_button(&state.pressed, button)
}

/// Whether `button` came up this frame.
pub fn is_released(state: &MouseState, button: i32) -> (r: bool)
    ensures
        r == state.released_set().contains(button),
{
    has_button(&state.released, button)
}

/// Records that the mouse moved to `position`.
pub fn process_mouse_moved_event(state: &mut MouseState, position: Vec2)
    ensures
        final(state).position == position,
        final(state).pressed@ == old(state).pressed@,
        final(state).released@ == old(state).released@,
        final(state).held@ == old(state).held@,
{
    state.position = position;
}

/// Records that `button` went down (`pressed`) or came up.
pub fn process_mouse_click_event(state: &mut MouseState, button: i32, pressed: bool)
    requires
        old(state).wf(),
    ensures
        final(state).wf(),
        final(state).position == old(state).position,
        pressed ==> final(state).held_set() == old(state).held_set().insert(button)
            && final(state).pressed_set() == old(state).pressed_set().insert(button)
            && final(state).released_set() == old(state).released_set(),
        !pressed ==> final(state).held_set() == old(state).held_set().remove(button)
            && final(state).released_set() == old(state).released_set().insert(button)
            && final(state).pressed_set() == old(state).pressed_set(),
{
    if pressed {
        add_button(&mut state.held, button);
        add_button(&mut state.pressed, button);
    } else {
        remove_button(&mut state.held, button);
        add_button(&mut state.released, button);
    }
}

/// Starts a new frame: no button counts as just pressed or released; held
/// buttons stay held.
pub fn reset(state: &mut MouseState)
    requires
        old(state).wf(),
    ensures
        final(state).wf(),
        final(state).position == old(state).position,
        final(state).pressed_set() == Set::<i32>::empty(),
        final(state).released_set() == Set::<i32>::empty(),
        final(state).held_set() == old(state).held_set(),
{
    state.pressed.clear();
    state.released.clear();
    assert(state.pressed_set() =~= Set::<i32>::empty());
    assert(state.released_set() =~= Set::<i32>::empty());
}

} // verus!
