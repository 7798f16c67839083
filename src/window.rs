//! Requests for windows to be opened.

use vstd::prelude::*;
use crate::math::Vec2;

verus! {

/// How to open a window: title, size and position in pixels, and whether
/// the user may resize it.
#[derive(Debug)]
pub struct WindowSettings {
    pub name: String,
    pub size: Option<Vec2>,
    pub resizable: bool,
    pub pos: Option<Vec2>,
}

impl Default for WindowSettings {
    /// An 800 by 600 window that cannot be resized, placed by the system,
    /// titled after the engine.
    fn default() -> (r: WindowSettings)
        ensures
            r.size == Some(Vec2 { x: 800, y: 600 }),
            !r.resizable,
            r.pos is None,
            r.name@ == "CARE game"@,
    {
        WindowSettings { name: "CARE game".to_owned(), size: Some(Vec2 { x: 800, y: 600 }), resizable: false, pos: None }
    }
}

/// Asks for a window to be opened with `settings`; windows are created in
/// the order they were asked for.
pub fn open_with_settings(pending: &mut Vec<WindowSettings>, settings: WindowSettings)
    ensures
        final(pending)@ == old(pending)@.push(settings),
{
    pending.push(settings);
}

/// Asks for a window titled `name`, with the default settings otherwise.
pub fn open(pending: &mut Vec<WindowSettings>, name: &str)
    ensures
        final(pending)@.len() == old(pending)@.len() + 1,
        forall|i: int| 0 <= i < old(pending)@.len() ==> final(pending)@[i] == old(pending)@[i],
        final(pending)@.last().name@ == name@,
        final(pending)@.last().size == Some(Vec2 { x: 800, y: 600 }),
        !final(pending)@.last().resizable,
        final(pending)@.last().pos is None,
{
    let mut settings = WindowSettings::default();
    settings.name = name.to_owned();
    open_with_settings(pending, settings);
}

} // verus!
