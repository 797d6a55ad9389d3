//! Placing the launcher window on X11: recognising our freshly created window
//! among the root's children, and centring it on the primary monitor. The X
//! server round trips are the caller's.
use vstd::prelude::*;

verus! {

/// How many times the lookup of our window is tried before giving up.
pub const FIND_WINDOW_ATTEMPTS: u32 = 12;

/// Milliseconds between lookup attempts.
pub const FIND_WINDOW_RETRY_MS: u64 = 3;

/// How far (in device pixels) a window's size may be off the wanted size and
/// still count as ours, tolerating fractional-scale rounding.
pub const SIZE_TOLERANCE: i32 = 2;

/// `|a - b| <= SIZE_TOLERANCE`.
pub open spec fn within_tolerance(actual: int, wanted: int) -> bool {
    -2 <= actual - wanted <= 2
}

/// Whether a root child with this geometry and `_NET_WM_PID` is the launcher
/// window we created: its size matches the wanted device size (within the
/// tolerance) and it carries our pid.
pub fn is_launcher_window(
    width: u16,
    height: u16,
    pid: Option<u32>,
    our_pid: u32,
    want_w: i32,
    want_h: i32,
) -> (ours: bool)
    requires
        i32::MIN < width - want_w <= i32::MAX,
        i32::MIN < height - want_h <= i32::MAX,
    ensures
        ours == (within_tolerance(width as int, want_w as int) && within_tolerance(
            height as int,
            want_h as int,
        ) && pid == Some(our_pid)),
{
    let dw: i32 = width as i32 - want_w;
    let dh: i32 = height as i32 - want_h;
    if dw < -SIZE_TOLERANCE || dw > SIZE_TOLERANCE || dh < -SIZE_TOLERANCE || dh > SIZE_TOLERANCE {
        return false;
    }
    match pid {
        Some(p) => p == our_pid,
        None => false,
    }
}

/// Half of `n`, rounded toward zero (integer `/ 2`).
pub open spec fn half_toward_zero(n: int) -> int {
    if n >= 0 {
        n / 2
    } else {
        -((-n) / 2)
    }
}

/// A monitor rectangle: origin and size in device pixels.
pub struct MonitorRect {
    pub x: i32,
    pub y: i32,
    pub width: i32,
    pub height: i32,
}

/// The area to centre on: the primary RandR monitor if there is one, else the
/// whole screen.
pub open spec fn placement_area(primary: Option<MonitorRect>, screen_w: u16, screen_h: u16) -> (int, int, int, int) {
    match primary {
        Some(m) => (m.x as int, m.y as int, m.width as int, m.height as int),
        None => (0, 0, screen_w as int, screen_h as int),
    }
}

/// Where a window of the wanted device size goes to sit centred in the area.
pub open spec fn centred_origin(area: (int, int, int, int), want_w: int, want_h: int) -> (int, int) {
    (area.0 + half_toward_zero(area.2 - want_w), area.1 + half_toward_zero(area.3 - want_h))
}

fn half_i64(n: i64) -> (h: i64)
    ensures
        h == half_toward_zero(n as int),
{
    if n >= 0 {
        n / 2
    } else {
        -((-(n as i128)) / 2) as i64
    }
}

/// The position that centres a `want_w` x `want_h` window on the primary
/// monitor (or the whole screen when RandR reports none).
pub fn centered_position(
    primary: Option<MonitorRect>,
    screen_w: u16,
    screen_h: u16,
    want_w: i32,
    want_h: i32,
) -> (pos: (i32, i32))
    requires
        i32::MIN <= placement_area(primary, screen_w, screen_h).2 - want_w <= i32::MAX,
        i32::MIN <= placement_area(primary, screen_w, screen_h).3 - want_h <= i32::MAX,
        i32::MIN <= centred_origin(placement_area(primary, screen_w, screen_h), want_w as int, want_h as int).0 <= i32::MAX,
        i32::MIN <= centred_origin(placement_area(primary, screen_w, screen_h), want_w as int, want_h as int).1 <= i32::MAX,
    ensures
        (pos.0 as int, pos.1 as int) == centred_origin(
            placement_area(primary, screen_w, screen_h),
            want_w as int,
            want_h as int,
        ),
{
    let (mx, my, mw, mh): (i64, i64, i64, i64) = match primary {
        Some(m) => (m.x as i64, m.y as i64, m.width as i64, m.height as i64),
        None => (0, 0, screen_w as i64, screen_h as i64),
    };
    let x = mx + half_i64(mw - want_w as i64);
    let y = my + half_i64(mh - want_h as i64);
    (x as i32, y as i32)
}

} // verus!

verus! {

/// A centred window really is centred: on each axis its midpoint lies within
/// half a device pixel of the area's midpoint (exactly on it when the spare
/// room is even).
pub proof fn lemma_centred_origin_is_centred(area: (int, int, int, int), want_w: int, want_h: int)
    ensures
        -1 <= 2 * (centred_origin(area, want_w, want_h).0 - area.0) + want_w - area.2 <= 1,
        -1 <= 2 * (centred_origin(area, want_w, want_h).1 - area.1) + want_h - area.3 <= 1,
        (area.2 - want_w) % 2 == 0 ==> 2 * (centred_origin(area, want_w, want_h).0 - area.0) + want_w == area.2,
        (area.3 - want_h) % 2 == 0 ==> 2 * (centred_origin(area, want_w, want_h).1 - area.1) + want_h == area.3,
{
}

} // verus!
