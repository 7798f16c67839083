//! Planning the submission of a frame's draw calls: buffer ranges,
//! texture binding slots and buffer sizes.

use vstd::prelude::*;
use crate::render::DrawCall;
use crate::texture::Texture;

verus! {

/// Where one draw call's data lies in the frame's concatenated vertex and
/// index buffers (in elements).
#[derive(Clone, Copy, Debug, PartialEq, Eq)]
pub struct DrawRange {
    pub call: usize,
    pub first_vertex: u64,
    pub vertex_count: u64,
    pub first_index: u64,
    pub index_count: u64,
}

/// The vertex and index counts of each call.
pub open spec fn sizes(calls: Seq<DrawCall>) -> Seq<(int, int)> {
    calls.map_values(|c: DrawCall| (c.vertices@.len() as int, c.indices@.len() as int))
}

/// The vertices of all calls in `s`.
pub open spec fn total_vertices(s: Seq<(int, int)>) -> int
    decreases s.len(),
{
    if s.len() == 0 { 0 } else { total_vertices(s.drop_last()) + s.last().0 }
}

/// The indices of all calls in `s`.
pub open spec fn total_indices(s: Seq<(int, int)>) -> int
    decreases s.len(),
{
    if s.len() == 0 { 0 } else { total_indices(s.drop_last()) + s.last().1 }
}

/// The ranges of the calls among the first `s.len()` that have vertices and
/// indices, in order; the others are skipped but their data still counts
/// toward the offsets.
pub open spec fn ranges_spec(s: Seq<(int, int)>) -> Seq<DrawRange>
    decreases s.len(),
{
    if s.len() == 0 {
        Seq::empty()
    } else {
        let pre = s.drop_last();
        let (v, i) = s.last();
        if v == 0 || i == 0 {
            ranges_spec(pre)
        } else {
            ranges_spec(pre).push(
                DrawRange {
                    call: (s.len() - 1) as usize,
                    first_vertex: total_vertices(pre) as u64,
                    vertex_count: v as u64,
                    first_index: total_indices(pre) as u64,
                    index_count: i as u64,
                },
            )
        }
    }
}

proof fn lemma_totals_mono(s: Seq<(int, int)>, k: int)
    requires
        0 <= k <= s.len(),
        forall|j: int| 0 <= j < s.len() ==> (#[trigger] s[j]).0 >= 0 && s[j].1 >= 0,
    ensures
        total_vertices(s.take(k)) <= total_vertices(s),
        total_indices(s.take(k)) <= total_indices(s),
    decreases s.len(),
{
    if k == s.len() {
        assert(s.take(k) =~= s);
    } else {
        assert(s.drop_last().take(k) =~= s.take(k));
        lemma_totals_mono(s.drop_last(), k);
    }
}

/// The range of each call with something to draw, for drawing the calls in
/// order from buffers that hold all calls' vertices and indices one after
/// the other.
pub fn draw_ranges(calls: &Vec<DrawCall>) -> (r: Vec<DrawRange>)
    requires
        total_vertices(sizes(calls@)) <= u64::MAX,
        total_indices(sizes(calls@)) <= u64::MAX,
    ensures
        r@ == ranges_spec(sizes(calls@)),
{
    let ghost s = sizes(calls@);
    let mut out: Vec<DrawRange> = Vec::new();
    let mut vstart: u64 = 0;
    let mut istart: u64 = 0;
    let mut k: usize = 0;
    while k < calls.len()
        invariant
            s == sizes(calls@),
            0 <= k <= calls@.len(),
            total_vertices(s) <= u64::MAX,
            total_indices(s) <= u64::MAX,
            vstart == total_vertices(s.take(k as int)),
            istart == total_indices(s.take(k as int)),
            out@ == ranges_spec(s.take(k as int)),
        decreases calls@.len() - k,
    {
        proof {
            assert(s.take(k as int + 1).drop_last() =~= s.take(k as int));
            lemma_totals_mono(s, k as int + 1);
        }
        let v = calls[k].vertices.len() as u64;
        let i = calls[k].indices.len() as u64;
        if v != 0 && i != 0 {
            out.push(DrawRange { call: k, first_vertex: vstart, vertex_count: v, first_index: istart, index_count: i });
        }
        vstart = vstart + v;
        istart = istart + i;
        k = k + 1;
    }
    proof {
        assert(s.take(calls@.len() as int) =~= s);
    }
    out
}

/// The texture for each of the `max` binding slots of a call: its own
/// textures in order, then `None` (a placeholder) for the unused slots.
pub fn bind_slots(call: &DrawCall, max: usize) -> (r: Vec<Option<Texture>>)
    ensures
        r@.len() == max,
        forall|i: int| 0 <= i < max ==> #[trigger] r@[i] == if i < call.textures@.len() {
            Some(call.textures@[i])
        } else {
            None
        },
{
    let mut r: Vec<Option<Texture>> = Vec::new();
    let mut i: usize = 0;
    while i < max
        invariant
            0 <= i <= max,
            r@.len() == i,
            forall|j: int| 0 <= j < i ==> #[trigger] r@[j] == if j < call.textures@.len() {
                Some(call.textures@[j])
            } else {
                None
            },
        decreases max - i,
    {
        if i < call.textures.len() {
            r.push(Some(call.textures[i]));
        } else {
            r.push(None);
        }
        i = i + 1;
    }
    r
}

/// `p` is a power of two.
pub open spec fn is_pow2(p: int) -> bool
    decreases p,
{
    if p <= 0 {
        false
    } else if p == 1 {
        true
    } else {
        p % 2 == 0 && is_pow2(p / 2)
    }
}

/// The smallest buffer size a GPU buffer is given.
pub const MIN_BUFFER: u64 = 1024;

/// The smallest power of two at or above `n`.
pub fn next_power_of_two(n: u64) -> (p: u64)
    requires
        n <= 4611686018427387904u64,
    ensures
        is_pow2(p as int),
        p >= n,
        p == 1 || p / 2 < n,
{
    let mut p: u64 = 1;
    while p < n
        invariant
            is_pow2(p as int),
            1 <= p,
            p == 1 || p / 2 < n,
            n <= 4611686018427387904u64,
        decreases 2 * n - p,
    {
        proof {
            assert((2 * p) / 2 == p);
            assert((2 * p) % 2 == 0);
        }
        p = p * 2;
    }
    p
}

/// The new size of a buffer of `current` bytes that must hold `needed`
/// bytes: `None` where it already fits; otherwise the next power of two,
/// at least `MIN_BUFFER`.
pub fn grown_buffer_size(needed: u64, current: u64) -> (r: Option<u64>)
    requires
        needed <= 4611686018427387904u64,
    ensures
        needed <= current ==> r is None,
        needed > current ==> (r matches Some(s) && s >= needed && s >= MIN_BUFFER
            && (s == MIN_BUFFER || (is_pow2(s as int) && s / 2 < needed))),
{
    if needed <= current {
        None
    } else {
        let p = next_power_of_two(needed);
        if p < MIN_BUFFER { Some(MIN_BUFFER) } else { Some(p) }
    }
}

} // verus!
