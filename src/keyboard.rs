//! Keyboard state: keys pressed and released this frame, and keys held.

use vstd::prelude::*;

verus! {

/// Keyboard keys.
#[derive(Clone, Copy, Debug, PartialEq, Eq, PartialOrd, Ord, Hash, Structural)]
pub enum Key {
    /// A text character.
    Char(char),
    Up,
    Down,
    Left,
    Right,
    Space,
    Enter,
    Escape,
    Backspace,
    Delete,
    Shift,
    Control,
    Alt,
    /// The "windows", "command" or "open apple" key.
    Meta,
    /// An unknown or unrecognized key.
    Unknown,
}

/// The lowercase form of a character (its first character, or the
/// character itself where that form is empty), as std's Unicode tables give it.
pub uninterp spec fn lower_char(c: char) -> char;

/// The lowercase form of a string, as std's Unicode tables give it.
pub uninterp spec fn lower_str(s: Seq<char>) -> Seq<char>;

/// Relies on `char::to_lowercase`: the first character of the lowercase
/// mapping of `c` (or `c` where the mapping is empty), which depends on `c`
/// alone.
#[verifier::external_body]
fn first_lowercase(c: char) -> (r: char)
    ensures
        r == lower_char(c),
{
    c.to_lowercase().next().unwrap_or(c)
}

/// Relies on `str::to_lowercase`: the lowercase mapping of `s`, which
/// depends on the characters of `s` alone.
#[verifier::external_body]
fn lowercase(s: &str) -> (r: String)
    ensures
        r@ == lower_str(s@),
{
    s.to_lowercase()
}

/// The key a character names, given its lowercase form `lower`: a space
/// is `Space`, any other character the key of its lowercase form.
pub open spec fn key_of_char(c: char, lower: char) -> Key {
    if c == ' ' {
        Key::Space
    } else {
        Key::Char(lower)
    }
}

/// The key a lowercase name stands for.
pub open spec fn key_of_name(n: Seq<char>) -> Key {
    if n == "up"@ {
        Key::Up
    } else if n == "down"@ {
        Key::Down
    } else if n == "left"@ {
        Key::Left
    } else if n == "right"@ {
        Key::Right
    } else if n == "space"@ {
        Key::Space
    } else if n == "enter"@ {
        Key::Enter
    } else if n == "escape"@ {
        Key::Escape
    } else if n == "backspace"@ {
        Key::Backspace
    } else if n == "delete"@ {
        Key::Delete
    } else if n == "shift"@ {
        Key::Shift
    } else if n == "control"@ {
        Key::Control
    } else if n == "alt"@ {
        Key::Alt
    } else if n == "meta"@ {
        Key::Meta
    } else {
        Key::Unknown
    }
}

/// Whether two strings hold the same characters.
fn str_eq(a: &str, b: &str) -> (r: bool)
    ensures
        r == (a@ == b@),
{
    let n = a.unicode_len();
    if n != b.unicode_len() {
        return false;
    }
    let mut i: usize = 0;
    while i < n
        invariant
            n == a@.len(),
            n == b@.len(),
            0 <= i <= n,
            forall|j: int| 0 <= j < i ==> a@[j] == b@[j],
        decreases n - i,
    {
        if a.get_char(i) != b.get_char(i) {
            return false;
        }
        i = i + 1;
    }
    assert(a@ =~= b@);
    true
}

impl Key {
    /// The key of character `c` whose lowercase form is `lower`.
    pub fn from_char_lowered(c: char, lower: char) -> (r: Key)
        ensures
            r == key_of_char(c, lower),
    {
        if c == ' ' {
            Key::Space
        } else {
            Key::Char(lower)
        }
    }

    /// The key a character names: a space is `Space`, any other character
    /// the key of its lowercase form.
    pub fn from_char(c: char) -> (r: Key)
        ensures
            r == key_of_char(c, lower_char(c)),
    {
        Key::from_char_lowered(c, first_lowercase(c))
    }

    /// The key a lowercase name stands for (`"up"`, `"enter"`, ...), or
    /// `Unknown`.
    pub fn from_lowered_name(n: &str) -> (r: Key)
        ensures
            r == key_of_name(n@),
    {
        if str_eq(n, "up") {
            Key::Up
        } else if str_eq(n, "down") {
            Key::Down
        } else if str_eq(n, "left") {
            Key::Left
        } else if str_eq(n, "right") {
            Key::Right
        } else if str_eq(n, "space") {
            Key::Space
        } else if str_eq(n, "enter") {
            Key::Enter
        } else if str_eq(n, "escape") {
            Key::Escape
        } else if str_eq(n, "backspace") {
            Key::Backspace
        } else if str_eq(n, "delete") {
            Key::Delete
        } else if str_eq(n, "shift") {
            Key::Shift
        } else if str_eq(n, "control") {
            Key::Control
        } else if str_eq(n, "alt") {
            Key::Alt
        } else if str_eq(n, "meta") {
            Key::Meta
        } else {
            Key::Unknown
        }
    }

    /// The key a string names: a single character names its key, anything
    /// longer is a key name in any case (`"Up"`, `"ENTER"`, ...).
    pub fn from_name(s: &str) -> (r: Key)
        ensures
            s@.len() == 1 ==> r == key_of_char(s@[0], lower_char(s@[0])),
            s@.len() != 1 ==> r == key_of_name(lower_str(s@)),
    {
        if s.unicode_len() == 1 {
            Key::from_char(s.get_char(0))
        } else {
            let l = lowercase(s);
            Key::from_lowered_name(l.as_str())
        }
    }
}

impl From<char> for Key {
    fn from(c: char) -> (r: Key) {
        Key::from_char(c)
    }
}

impl vstd::std_specs::convert::FromSpecImpl<char> for Key {
    open spec fn obeys_from_spec() -> bool {
        true
    }

    open spec fn from_spec(c: char) -> Key {
        key_of_char(c, lower_char(c))
    }
}

impl From<&str> for Key {
    fn from(s: &str) -> (r: Key) {
        Key::from_name(s)
    }
}

impl vstd::std_specs::convert::FromSpecImpl<&str> for Key {
    open spec fn obeys_from_spec() -> bool {
        true
    }

    open spec fn from_spec(s: &str) -> Key {
        if s@.len() == 1 {
            key_of_char(s@[0], lower_char(s@[0]))
        } else {
            key_of_name(lower_str(s@))
        }
    }
}

/// The keys in `v`.
pub open spec fn key_set(v: Seq<Key>) -> Set<Key> {
    Set::new(|k: Key| v.contains(k))
}

/// Which keys went down and came up this frame, and which are held.
#[derive(Debug)]
pub struct KeyboardState {
    pub pressed: Vec<Key>,
    pub released: Vec<Key>,
    pub held: Vec<Key>,
}

impl KeyboardState {
    pub open spec fn wf(&self) -> bool {
        self.pressed@.no_duplicates() && self.released@.no_duplicates() && self.held@.no_duplicates()
    }

    pub open spec fn pressed_set(&self) -> Set<Key> {
        key_set(self.pressed@)
    }

    pub open spec fn released_set(&self) -> Set<Key> {
        key_set(self.released@)
    }

    pub open spec fn held_set(&self) -> Set<Key> {
        key_set(self.held@)
    }

    /// No key pressed, released or held.
    pub fn empty() -> (r: KeyboardState)
        ensures
            r.wf(),
            r.pressed_set() == Set::<Key>::empty(),
            r.released_set() == Set::<Key>::empty(),
            r.held_set() == Set::<Key>::empty(),
    {
        let r = KeyboardState { pressed: Vec::new(), released: Vec::new(), held: Vec::new() };
        assert(r.pressed_set() =~= Set::<Key>::empty());
        assert(r.released_set() =~= Set::<Key>::empty());
        assert(r.held_set() =~= Set::<Key>::empty());
        r
    }
}

fn has_key(v: &Vec<Key>, key: Key) -> (r: bool)
    ensures
        r == v@.contains(key),
{
    let mut i: usize = 0;
    while i < v.len()
        invariant
            0 <= i <= v@.len(),
            forall|j: int| 0 <= j < i ==> v@[j] != key,
        decreases v@.len() - i,
    {
        if v[i] == key {
            return true;
        }
        i = i + 1;
    }
    false
}

fn add_key(v: &mut Vec<Key>, key: Key)
    requires
        old(v)@.no_duplicates(),
    ensures
        final(v)@.no_duplicates(),
        key_set(final(v)@) == key_set(old(v)@).insert(key),
{
    if !has_key(v, key) {
        v.push(key);
        proof {
            assert forall|a: int, b: int| 0 <= a < b < v@.len() implies v@[a] != v@[b] by {
                if b == v@.len() - 1 {
                    assert(old(v)@[a] == v@[a]);
                }
            }
        }
    }
    assert(key_set(v@) =~= key_set(old(v)@).insert(key)) by {
        assert forall|k: Key| #[trigger] v@.contains(k) == (old(v)@.contains(k) || k == key) by {
            if old(v)@.contains(k) {
                let j = choose|j: int| 0 <= j < old(v)@.len() && old(v)@[j] == k;
                assert(v@[j] == k);
            }
            if k == key {
                if !old(v)@.contains(key) {
                    assert(v@[v@.len() - 1] == key);
                }
            }
        }
    }
}

fn remove_key(v: &mut Vec<Key>, key: Key)
    requires
        old(v)@.no_duplicates(),
    ensures
        final(v)@.no_duplicates(),
        key_set(final(v)@) == key_set(old(v)@).remove(key),
{
    let mut i: usize = 0;
    while i < v.len()
        invariant
            0 <= i <= v@.len(),
            v@ == old(v)@,
            old(v)@.no_duplicates(),
            forall|j: int| 0 <= j < i ==> v@[j] != key,
        decreases v@.len() - i,
    {
        if v[i] == key {
            v.remove(i);
            proof {
                assert(v@ =~= old(v)@.remove(i as int));
                assert forall|a: int, b: int| 0 <= a < b < v@.len() implies v@[a] != v@[b] by {
                    let oa = if a < i { a } else { a + 1 };
                    let ob = if b < i { b } else { b + 1 };
                    assert(v@[a] == old(v)@[oa]);
                    assert(v@[b] == old(v)@[ob]);
                }
                assert(key_set(v@) =~= key_set(old(v)@).remove(key)) by {
                    assert forall|k: Key| #[trigger] v@.contains(k) == (old(v)@.contains(k) && k != key) by {
                        if v@.contains(k) {
                            let j = choose|j: int| 0 <= j < v@.len() && v@[j] == k;
                            let oj = if j < i { j } else { j + 1 };
                            assert(old(v)@[oj] == k);
                            assert(oj != i);
                        }
                        if old(v)@.contains(k) && k != key {
                            let j = choose|j: int| 0 <= j < old(v)@.len() && old(v)@[j] == k;
                            assert(j != i);
                            let nj = if j < i { j } else { j - 1 };
                            assert(v@[nj] == k);
                        }
                    }
                }
            }
            return;
        }
        i = i + 1;
    }
    assert(key_set(v@) =~= key_set(old(v)@).remove(key));
}

/// Whether `key` is held down.
pub fn is_down(state: &KeyboardState, key: Key) -> (r: bool)
    ensures
        r == state.held_set().contains(key),
{
    has_key(&state.held, key)
}

/// Whether `key` went down this frame.
pub fn is_pressed(state: &KeyboardState, key: Key) -> (r: bool)
    ensures
        r == state.pressed_set().contains(key),
{
    has_key(&state.pressed, key)
}

/// Whether `key` came up this frame.
pub fn is_released(state: &KeyboardState, key: Key) -> (r: bool)
    ensures
        r == state.released_set().contains(key),
{
    has_key(&state.released, key)
}

/// Records that `key` went down (`pressed`) or came up.
pub fn process_key_event(state: &mut KeyboardState, key: Key, pressed: bool)
    requires
        old(state).wf(),
    ensures
        final(state).wf(),
        pressed ==> final(state).held_set() == old(state).held_set().insert(key)
            && final(state).pressed_set() == old(state).pressed_set().insert(key)
            && final(state).released_set() == old(state).released_set(),
        !pressed ==> final(state).held_set() == old(state).held_set().remove(key)
            && final(state).released_set() == old(state).released_set().insert(key)
            && final(state).pressed_set() == old(state).pressed_set(),
{
    if pressed {
        add_key(&mut state.held, key);
        add_key(&mut state.pressed, key);
    } else {
        remove_key(&mut state.held, key);
        add_key(&mut state.released, key);
    }
}

/// Starts a new frame: no key counts as just pressed or released; held
/// keys stay held.
pub fn reset(state: &mut KeyboardState)
    requires
        old(state).wf(),
    ensures
        final(state).wf(),
        final(state).pressed_set() == Set::<Key>::empty(),
        final(state).released_set() == Set::<Key>::empty(),
        final(state).held_set() == old(state).held_set(),
{
    state.pressed.clear();
    state.released.clear();
    assert(state.pressed_set() =~= Set::<Key>::empty());
    assert(state.released_set() =~= Set::<Key>::empty());
}

} // verus!
