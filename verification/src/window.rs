//! Placing the floater and the popup so that they stay on a monitor.
use vstd::prelude::*;

verus! {

/// A point in physical pixels.
#[derive(Debug, Clone, Copy, PartialEq, Eq, Structural)]
pub struct Position {
    pub x: i32,
    pub y: i32,
}

/// A width and a height in physical pixels.
#[derive(Debug, Clone, Copy, PartialEq, Eq, Structural)]
pub struct Size {
    pub width: u32,
    pub height: u32,
}

/// A rectangle on screen (a monitor or a window): its top-left corner and its size.
#[derive(Debug, Clone, Copy, PartialEq, Eq, Structural)]
pub struct Rect {
    pub position: Position,
    pub size: Size,
}

impl Position {
    pub fn new(x: i32, y: i32) -> (p: Self)
        ensures
            p.x == x,
            p.y == y,
    {
        Position { x, y }
    }
}

impl Size {
    pub fn new(width: u32, height: u32) -> (s: Self)
        ensures
            s.width == width,
            s.height == height,
    {
        Size { width, height }
    }
}

impl Rect {
    pub fn new(position: Position, size: Size) -> (m: Self)
        ensures
            m.position == position,
            m.size == size,
    {
        Rect { position, size }
    }
}

/// A pixel length as a signed 32-bit value, as `as i32` reads a `u32`:
/// lengths above `i32::MAX` wrap around to negative values.
pub open spec fn signed_len(v: u32) -> int {
    if v <= i32::MAX {
        v as int
    } else {
        v - 0x1_0000_0000
    }
}

/// The signed length, computed.
pub fn signed_len_of(v: u32) -> (r: i64)
    ensures
        r == signed_len(v),
{
    if v <= 0x7fff_ffff {
        v as i64
    } else {
        v as i64 - 0x1_0000_0000
    }
}

/// The value `v`, brought into `[lo, hi]` (which `hi >= lo` makes non-empty).
pub open spec fn clamp_int(v: int, lo: int, hi: int) -> int {
    if v < lo {
        lo
    } else if v > hi {
        hi
    } else {
        v
    }
}

/// The largest left (or top) edge at which a window of signed length `len`
/// still ends inside a monitor that starts at `start` and has signed length
/// `mon_len`; where the window is longer than the monitor, the monitor's
/// start.
pub open spec fn max_edge(start: int, mon_len: int, len: int) -> int {
    if start + mon_len - len >= start {
        start + mon_len - len
    } else {
        start
    }
}

/// The arithmetic of placing a window of size `size` on the monitor stays
/// within `i32` on both axes.
pub open spec fn fits_arith(size: Size, mon_pos: Position, mon_size: Size) -> bool {
    &&& i32::MIN <= mon_pos.x + signed_len(mon_size.width) <= i32::MAX
    &&& i32::MIN <= mon_pos.x + signed_len(mon_size.width) - signed_len(size.width) <= i32::MAX
    &&& i32::MIN <= mon_pos.y + signed_len(mon_size.height) <= i32::MAX
    &&& i32::MIN <= mon_pos.y + signed_len(mon_size.height) - signed_len(size.height) <= i32::MAX
}

/// Where a window of size `size` anchored at `anchor` lands once pulled
/// inside the monitor: each coordinate clamped between the monitor's
/// edge and the last position at which the window still fits, with the
/// left (top) edge preferred when the window is larger than the monitor.
pub open spec fn clamped(anchor: Position, size: Size, mon_pos: Position, mon_size: Size) -> (int, int) {
    (
        clamp_int(anchor.x as int, mon_pos.x as int, max_edge(mon_pos.x as int, signed_len(mon_size.width), signed_len(size.width))),
        clamp_int(anchor.y as int, mon_pos.y as int, max_edge(mon_pos.y as int, signed_len(mon_size.height), signed_len(size.height))),
    )
}

fn clamp_axis(v: i32, start: i32, mon_len: u32, len: u32) -> (r: i32)
    requires
        i32::MIN <= start + signed_len(mon_len) <= i32::MAX,
        i32::MIN <= start + signed_len(mon_len) - signed_len(len) <= i32::MAX,
    ensures
        r == clamp_int(v as int, start as int, max_edge(start as int, signed_len(mon_len), signed_len(len))),
{
    let hi_candidate: i64 = start as i64 + signed_len_of(mon_len) - signed_len_of(len);
    let hi: i64 = if hi_candidate >= start as i64 { hi_candidate } else { start as i64 };
    let lo: i64 = start as i64;
    let r: i64 = if (v as i64) < lo {
        lo
    } else if (v as i64) > hi {
        hi
    } else {
        v as i64
    };
    r as i32
}

/// Clamp a `size`-sized window anchored at `anchor` so it fits inside the
/// monitor at `mon_pos` of size `mon_size` (see `clamped`).
pub fn clamp_rect(anchor: Position, size: Size, mon_pos: &Position, mon_size: &Size) -> (p: Position)
    requires
        fits_arith(size, *mon_pos, *mon_size),
    ensures
        (p.x as int, p.y as int) == clamped(anchor, size, *mon_pos, *mon_size),
{
    let x = clamp_axis(anchor.x, mon_pos.x, mon_size.width, size.width);
    let y = clamp_axis(anchor.y, mon_pos.y, mon_size.height, size.height);
    Position { x, y }
}

/// Whether the rectangle holds `p` (right and bottom edges excluded).
pub open spec fn rect_contains(m: Rect, p: Position) -> bool {
    &&& m.position.x <= p.x < m.position.x + signed_len(m.size.width)
    &&& m.position.y <= p.y < m.position.y + signed_len(m.size.height)
}

/// The right and bottom edges of the rectangle lie within `i32`.
pub open spec fn rect_arith_ok(m: Rect) -> bool {
    &&& i32::MIN <= m.position.x + signed_len(m.size.width) <= i32::MAX
    &&& i32::MIN <= m.position.y + signed_len(m.size.height) <= i32::MAX
}

/// Whether the rectangle holds `p`.
pub fn contains(m: &Rect, p: Position) -> (b: bool)
    requires
        rect_arith_ok(*m),
    ensures
        b == rect_contains(*m, p),
{
    let x1: i64 = m.position.x as i64 + signed_len_of(m.size.width);
    let y1: i64 = m.position.y as i64 + signed_len_of(m.size.height);
    p.x >= m.position.x && (p.x as i64) < x1 && p.y >= m.position.y && (p.y as i64) < y1
}

/// The first monitor of the list that holds `p`.
pub open spec fn first_containing(ms: Seq<Rect>, p: Position) -> Option<Rect>
    decreases ms.len(),
{
    if ms.len() == 0 {
        None
    } else if rect_contains(ms[0], p) {
        Some(ms[0])
    } else {
        first_containing(ms.drop_first(), p)
    }
}

/// The monitor picked for a point is the first of the list whose
/// rectangle holds the point (left and top edges included, right and
/// bottom edges excluded, on both axes); there is none exactly when no
/// monitor of the list holds it.
pub proof fn lemma_first_containing_is_first_holder(ms: Seq<Rect>, p: Position)
    ensures
        first_containing(ms, p) matches Some(m) ==> exists|i: int|
            0 <= i < ms.len() && #[trigger] ms[i] == m
            && m.position.x <= p.x < m.position.x + signed_len(m.size.width)
            && m.position.y <= p.y < m.position.y + signed_len(m.size.height)
            && forall|j: int| 0 <= j < i ==> !((#[trigger] ms[j]).position.x <= p.x < ms[j].position.x + signed_len(ms[j].size.width)
                && ms[j].position.y <= p.y < ms[j].position.y + signed_len(ms[j].size.height)),
        first_containing(ms, p) is None <==> forall|j: int| 0 <= j < ms.len() ==> !((#[trigger] ms[j]).position.x <= p.x
            < ms[j].position.x + signed_len(ms[j].size.width) && ms[j].position.y <= p.y < ms[j].position.y
            + signed_len(ms[j].size.height)),
    decreases ms.len(),
{
    if ms.len() > 0 {
        lemma_first_containing_is_first_holder(ms.drop_first(), p);
        let d = ms.drop_first();
        assert forall|j: int| 0 <= j < d.len() implies #[trigger] d[j] == ms[j + 1] by {}
        if rect_contains(ms[0], p) {
            assert(ms[0] == ms[0]);
        } else if let Some(m) = first_containing(d, p) {
            let i = choose|i: int|
                0 <= i < d.len() && #[trigger] d[i] == m
                && m.position.x <= p.x < m.position.x + signed_len(m.size.width)
                && m.position.y <= p.y < m.position.y + signed_len(m.size.height)
                && forall|j: int| 0 <= j < i ==> !((#[trigger] d[j]).position.x <= p.x < d[j].position.x + signed_len(d[j].size.width)
                    && d[j].position.y <= p.y < d[j].position.y + signed_len(d[j].size.height));
            assert(ms[i + 1] == m);
            assert forall|j: int| 0 <= j < i + 1 implies !((#[trigger] ms[j]).position.x <= p.x < ms[j].position.x + signed_len(ms[j].size.width)
                && ms[j].position.y <= p.y < ms[j].position.y + signed_len(ms[j].size.height)) by {
                if j > 0 {
                    assert(ms[j] == d[j - 1]);
                }
            }
        } else {
            assert forall|j: int| 0 <= j < ms.len() implies !((#[trigger] ms[j]).position.x <= p.x < ms[j].position.x
                + signed_len(ms[j].size.width) && ms[j].position.y <= p.y < ms[j].position.y + signed_len(ms[j].size.height)) by {
                if j > 0 {
                    assert(ms[j] == d[j - 1]);
                }
            }
        }
    }
}

/// The monitor that a window anchored at `p` belongs to: the first one
/// that holds `p`, else the primary monitor, if there is one.
pub open spec fn chosen_monitor(ms: Seq<Rect>, primary: Option<Rect>, p: Position) -> Option<Rect> {
    match first_containing(ms, p) {
        Some(m) => Some(m),
        None => primary,
    }
}

/// The rectangles examined while looking for the first one that holds `p`
/// (all of them up to and including that one) have their edges within `i32`.
#[verifier::opaque]
pub open spec fn scan_arith_ok(ms: Seq<Rect>, p: Position) -> bool {
    forall|i: int|
        #![trigger ms[i]]
        0 <= i < ms.len() && (forall|j: int| 0 <= j < i ==> !rect_contains(#[trigger] ms[j], p))
            ==> rect_arith_ok(ms[i])
}

proof fn lemma_scan_at(ms: Seq<Rect>, p: Position, i: int)
    requires
        scan_arith_ok(ms, p),
        0 <= i < ms.len(),
        forall|j: int| 0 <= j < i ==> !rect_contains(#[trigger] ms[j], p),
    ensures
        rect_arith_ok(ms[i]),
{
    reveal(scan_arith_ok);
}

/// Picks the monitor for a window anchored at `anchor` (see `chosen_monitor`).
pub fn pick_monitor(monitors: &Vec<Rect>, primary: Option<Rect>, anchor: Position) -> (m: Option<Rect>)
    requires
        scan_arith_ok(monitors@, anchor),
    ensures
        m == chosen_monitor(monitors@, primary, anchor),
{
    let n = monitors.len();
    let mut i: usize = 0;
    assert(monitors@.subrange(0, n as int) =~= monitors@);
    while i < n
        invariant
            n == monitors.len(),
            i <= n,
            scan_arith_ok(monitors@, anchor),
            forall|k: int| 0 <= k < i ==> !rect_contains(#[trigger] monitors@[k], anchor),
            first_containing(monitors@, anchor) == first_containing(monitors@.subrange(i as int, n as int), anchor),
        decreases n - i,
    {
        assert(monitors@.subrange(i as int, n as int).drop_first() =~= monitors@.subrange(i + 1, n as int));
        proof {
            lemma_scan_at(monitors@, anchor, i as int);
        }
        if contains(&monitors[i], anchor) {
            return Some(monitors[i]);
        }
        i = i + 1;
    }
    primary
}

/// Where a `size`-sized window anchored at `anchor` is placed: clamped to
/// the chosen monitor, or left at the anchor when there is no monitor.
pub open spec fn placed(monitors: Seq<Rect>, primary: Option<Rect>, anchor: Position, size: Size) -> (int, int) {
    match chosen_monitor(monitors, primary, anchor) {
        Some(m) => clamped(anchor, size, m.position, m.size),
        None => (anchor.x as int, anchor.y as int),
    }
}

/// The placement arithmetic stays within `i32`: for the monitors examined
/// while picking, and for the one chosen.
pub open spec fn placement_arith_ok(monitors: Seq<Rect>, primary: Option<Rect>, anchor: Position, size: Size) -> bool {
    &&& scan_arith_ok(monitors, anchor)
    &&& (chosen_monitor(monitors, primary, anchor) matches Some(m) ==> fits_arith(size, m.position, m.size))
}

/// Clamp a `size`-sized window anchored at `anchor` so it fits inside the
/// monitor whose rect contains the anchor. Falls back to the primary
/// monitor, then to the anchor unchanged.
pub fn clamp_to_monitor(monitors: &Vec<Rect>, primary: Option<Rect>, anchor: Position, size: Size) -> (p: Position)
    requires
        placement_arith_ok(monitors@, primary, anchor, size),
    ensures
        (p.x as int, p.y as int) == placed(monitors@, primary, anchor, size),
{
    let monitor = pick_monitor(monitors, primary, anchor);
    match monitor {
        None => anchor,
        Some(m) => clamp_rect(anchor, size, &m.position, &m.size),
    }
}

/// Clamping keeps a window that already fits where it is: an anchor
/// between the monitor's edge and the last fitting position is returned
/// unchanged.
pub proof fn lemma_clamp_keeps_fitting_anchor(anchor: Position, size: Size, mon_pos: Position, mon_size: Size)
    requires
        mon_pos.x <= anchor.x <= max_edge(mon_pos.x as int, signed_len(mon_size.width), signed_len(size.width)),
        mon_pos.y <= anchor.y <= max_edge(mon_pos.y as int, signed_len(mon_size.height), signed_len(size.height)),
    ensures
        clamped(anchor, size, mon_pos, mon_size) == (anchor.x as int, anchor.y as int),
{
}

/// A window no larger than the monitor ends up wholly on it; a window
/// larger than the monitor is put at the monitor's left (top) edge.
pub proof fn lemma_clamped_window_on_monitor(anchor: Position, size: Size, mon_pos: Position, mon_size: Size)
    ensures
        ({
            let (x, y) = clamped(anchor, size, mon_pos, mon_size);
            &&& mon_pos.x <= x
            &&& mon_pos.y <= y
            &&& (0 <= signed_len(size.width) <= signed_len(mon_size.width) ==> x + signed_len(size.width)
                <= mon_pos.x + signed_len(mon_size.width))
            &&& (0 <= signed_len(size.height) <= signed_len(mon_size.height) ==> y + signed_len(size.height)
                <= mon_pos.y + signed_len(mon_size.height))
            &&& (signed_len(size.width) > signed_len(mon_size.width) ==> x == mon_pos.x)
            &&& (signed_len(size.height) > signed_len(mon_size.height) ==> y == mon_pos.y)
        }),
{
}

/// Clamping is idempotent: a position that clamping produced is left alone
/// by clamping it again.
pub proof fn lemma_clamp_idempotent(anchor: Position, size: Size, mon_pos: Position, mon_size: Size, p: Position)
    requires
        (p.x as int, p.y as int) == clamped(anchor, size, mon_pos, mon_size),
    ensures
        clamped(p, size, mon_pos, mon_size) == (p.x as int, p.y as int),
{
}

} // verus!
