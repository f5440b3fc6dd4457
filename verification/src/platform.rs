//! Desktop integration computed from plain values: the identity of an application instance,
//! wide-string encoding for Win32 calls, and fitting a saved window into a work area.
use vstd::prelude::*;

use crate::text::join2;
use vstd::string::StringSliceAdditionalSpecFns;

verus! {

/// The offset basis of 64-bit FNV-1a.
pub const FNV_OFFSET: u64 = 0xcbf29ce484222325;

/// The prime of 64-bit FNV-1a.
pub const FNV_PRIME: u64 = 0x100000001b3;

/// ASCII upper-case letters become lower case; every other byte stays.
pub open spec fn ascii_lower(b: u8) -> u8 {
    if 65 <= b <= 90 {
        (b + 32) as u8
    } else {
        b
    }
}

/// 64-bit FNV-1a of `bytes`.
pub open spec fn fnv1a(bytes: Seq<u8>) -> u64
    decreases bytes.len(),
{
    if bytes.len() == 0 {
        FNV_OFFSET
    } else {
        (fnv1a(bytes.drop_last()) ^ (bytes.last() as u64)).wrapping_mul(FNV_PRIME)
    }
}

/// The key that identifies the application instance for a data directory: 64-bit FNV-1a of
/// the UTF-8 bytes of its path with ASCII letters in lower case, so that paths that differ
/// only in the case of ASCII letters share one key.
pub fn stable_path_key(path: &str) -> (key: u64)
    ensures
        key == fnv1a(path.spec_bytes().map_values(|b: u8| ascii_lower(b))),
{
    let bytes = path.as_bytes();
    let n = bytes.len();
    let ghost lowered = bytes@.map_values(|b: u8| ascii_lower(b));
    let mut hash: u64 = FNV_OFFSET;
    let mut i: usize = 0;
    while i < n
        invariant
            n == bytes@.len(),
            lowered == bytes@.map_values(|b: u8| ascii_lower(b)),
            i <= n,
            hash == fnv1a(lowered.take(i as int)),
        decreases n - i,
    {
        let b = bytes[i];
        let lower: u8 = if 65 <= b && b <= 90 {
            b + 32
        } else {
            b
        };
        proof {
            assert(lowered.take(i + 1).drop_last() =~= lowered.take(i as int));
            assert(lowered.take(i + 1).last() == lower);
        }
        hash = (hash ^ (lower as u64)).wrapping_mul(FNV_PRIME);
        i = i + 1;
    }
    assert(lowered.take(n as int) =~= lowered);
    hash
}

/// Two paths whose bytes differ only in the case of ASCII letters have the same key.
pub proof fn lemma_key_ignores_ascii_case(a: Seq<u8>, b: Seq<u8>)
    requires
        a.len() == b.len(),
        forall|i: int| 0 <= i < a.len() ==> ascii_lower(#[trigger] a[i]) == ascii_lower(b[i]),
    ensures
        fnv1a(a.map_values(|x: u8| ascii_lower(x))) == fnv1a(b.map_values(|x: u8| ascii_lower(x))),
{
    assert(a.map_values(|x: u8| ascii_lower(x)) =~= b.map_values(|x: u8| ascii_lower(x)));
}

/// The UTF-16 code units of one character.
pub open spec fn utf16_units(c: char) -> Seq<u16> {
    let v = c as u32;
    if v < 0x10000 {
        seq![v as u16]
    } else {
        let u = (v - 0x10000) as u32;
        seq![(0xD800 + u / 1024) as u16, (0xDC00 + u % 1024) as u16]
    }
}

/// The UTF-16 encoding of `s`.
pub open spec fn utf16(s: Seq<char>) -> Seq<u16>
    decreases s.len(),
{
    if s.len() == 0 {
        Seq::<u16>::empty()
    } else {
        utf16(s.drop_last()) + utf16_units(s.last())
    }
}

/// `value` as a NUL-terminated UTF-16 string for Win32 calls.
pub fn wide_null(value: &str) -> (r: Vec<u16>)
    ensures
        r@ == utf16(value@).push(0u16),
{
    let n = value.unicode_len();
    let mut out: Vec<u16> = Vec::new();
    let mut i: usize = 0;
    while i < n
        invariant
            n == value@.len(),
            i <= n,
            out@ == utf16(value@.take(i as int)),
        decreases n - i,
    {
        let c = value.get_char(i);
        let v = c as u32;
        proof {
            assert(value@.take(i + 1).drop_last() =~= value@.take(i as int));
            assert(value@.take(i + 1).last() == c);
        }
        if v < 0x10000 {
            out.push(v as u16);
        } else {
            let u = v - 0x10000;
            assert(u < 0x100000);
            out.push((0xD800 + u / 1024) as u16);
            out.push((0xDC00 + u % 1024) as u16);
        }
        i = i + 1;
        assert(out@ =~= utf16(value@.take(i as int)));
    }
    assert(value@.take(n as int) =~= value@);
    out.push(0);
    out
}

/// Lower-case hexadecimal digit.
pub open spec fn hex_char(d: u64) -> char {
    if d < 10 {
        (48 + d) as char
    } else {
        (87 + d) as char
    }
}

/// `key` as 16 lower-case hexadecimal digits (`{key:016x}`).
pub open spec fn hex16(key: u64) -> Seq<char> {
    Seq::new(16, |i: int| hex_char(((key as int / pow16(15 - i)) % 16) as u64))
}

pub open spec fn pow16(e: int) -> int
    decreases e,
{
    if e <= 0 {
        1
    } else {
        16 * pow16(e - 1)
    }
}

fn hex_digit_char(d: u64) -> (c: char)
    requires
        d < 16,
    ensures
        c == hex_char(d),
{
    if d < 10 {
        ((48 + d) as u8) as char
    } else {
        ((87 + d) as u8) as char
    }
}

/// Formats `key` as 16 lower-case hexadecimal digits.
pub fn hex16_text(key: u64) -> (r: String)
    ensures
        r@ == hex16(key),
{
    let mut s = String::new();
    let mut i: usize = 0;
    let mut divisor: u64 = 0x1000_0000_0000_0000;
    proof {
        reveal_with_fuel(pow16, 16);
        assert(pow16(15) == 0x1000_0000_0000_0000);
    }
    while i < 16
        invariant
            i <= 16,
            divisor as int == pow16(15 - i),
            s@.len() == i,
            forall|k: int| 0 <= k < i ==> s@[k] == hex16(key)[k],
        decreases 16 - i,
    {
        proof {
            lemma_pow16_positive(15 - i as int);
        }
        let d = (key / divisor) % 16;
        crate::text::push_char(&mut s, hex_digit_char(d));
        proof {
            assert(hex16(key)[i as int] == hex_char(((key as int / pow16(15 - i)) % 16) as u64));
        }
        if i < 15 {
            proof {
                assert(pow16(15 - i) == 16 * pow16(14 - i));
            }
            divisor = divisor / 16;
        }
        i = i + 1;
    }
    assert(s@ =~= hex16(key));
    s
}

proof fn lemma_pow16_positive(e: int)
    ensures
        pow16(e) >= 1,
    decreases e,
{
    if e > 0 {
        lemma_pow16_positive(e - 1);
    }
}

/// The name of the mutex that marks a running instance for a data directory key.
pub fn instance_mutex_name(key: u64) -> (r: String)
    ensures
        r@ == "Local\\CodexAir.Instance."@ + hex16(key),
{
    let digits = hex16_text(key);
    join2("Local\\CodexAir.Instance.", digits.as_str())
}

/// The name of the window property that marks the instance's window.
pub fn window_property_name(key: u64) -> (r: String)
    ensures
        r@ == "CodexAir.Window."@ + hex16(key),
{
    let digits = hex16_text(key);
    join2("CodexAir.Window.", digits.as_str())
}

/// A rectangle in screen or work-area pixels.
#[derive(Clone, Copy, Debug, PartialEq, Eq, Structural)]
pub struct Rect {
    pub left: i32,
    pub top: i32,
    pub right: i32,
    pub bottom: i32,
}

/// `v` is a value of `i32`.
pub open spec fn in_i32(v: int) -> bool {
    i32::MIN <= v <= i32::MAX
}

pub open spec fn min_int(a: int, b: int) -> int {
    if a <= b {
        a
    } else {
        b
    }
}

pub open spec fn clamp_int(v: int, lo: int, hi: int) -> int {
    if v < lo {
        lo
    } else if v > hi {
        hi
    } else {
        v
    }
}

/// The edges, as integers, of a window of the given size with its top-left corner at
/// `(left, top)` once placed on a monitor: its size is cut to the work area, it is moved
/// inside the work area, and the result is expressed relative to the work area's origin
/// within the monitor, which is what a window's normal placement uses.
pub open spec fn fitted_edges(left: int, top: int, width: int, height: int, work: Rect, monitor: Rect) -> (int, int, int, int) {
    let w = min_int(width, work.right - work.left);
    let h = min_int(height, work.bottom - work.top);
    let l = clamp_int(left, work.left as int, work.right - w);
    let t = clamp_int(top, work.top as int, work.bottom - h);
    let dx = work.left - monitor.left;
    let dy = work.top - monitor.top;
    (l - dx, t - dy, l + w - dx, t + h - dy)
}

/// The placed window's edges are values of `i32`.
pub open spec fn fits_i32(e: (int, int, int, int)) -> bool {
    in_i32(e.0) && in_i32(e.1) && in_i32(e.2) && in_i32(e.3)
}

/// The placed window, where its edges are values of `i32`.
pub open spec fn fitted(left: int, top: int, width: int, height: int, work: Rect, monitor: Rect) -> Rect {
    let e = fitted_edges(left, top, width, height, work, monitor);
    Rect { left: e.0 as i32, top: e.1 as i32, right: e.2 as i32, bottom: e.3 as i32 }
}

fn fitted_wide(left: i32, top: i32, width: i32, height: i32, work: Rect, monitor: Rect) -> (r: (i64, i64, i64, i64))
    ensures
        r.0 == fitted_edges(left as int, top as int, width as int, height as int, work, monitor).0,
        r.1 == fitted_edges(left as int, top as int, width as int, height as int, work, monitor).1,
        r.2 == fitted_edges(left as int, top as int, width as int, height as int, work, monitor).2,
        r.3 == fitted_edges(left as int, top as int, width as int, height as int, work, monitor).3,
{
    let work_width = work.right as i64 - work.left as i64;
    let work_height = work.bottom as i64 - work.top as i64;
    let w = if (width as i64) <= work_width {
        width as i64
    } else {
        work_width
    };
    let h = if (height as i64) <= work_height {
        height as i64
    } else {
        work_height
    };
    let max_left = work.right as i64 - w;
    let max_top = work.bottom as i64 - h;
    let l = if (left as i64) < work.left as i64 {
        work.left as i64
    } else if left as i64 > max_left {
        max_left
    } else {
        left as i64
    };
    let t = if (top as i64) < work.top as i64 {
        work.top as i64
    } else if top as i64 > max_top {
        max_top
    } else {
        top as i64
    };
    let dx = work.left as i64 - monitor.left as i64;
    let dy = work.top as i64 - monitor.top as i64;
    (l - dx, t - dy, l + w - dx, t + h - dy)
}

/// Whether a saved window placed on a monitor keeps its edges within `i32`, which is what
/// `fit_to_work_area` needs.
pub fn fits_work_area(left: i32, top: i32, width: i32, height: i32, work: Rect, monitor: Rect) -> (r: bool)
    ensures
        r == fits_i32(fitted_edges(left as int, top as int, width as int, height as int, work, monitor)),
{
    let e = fitted_wide(left, top, width, height, work, monitor);
    let lo = i32::MIN as i64;
    let hi = i32::MAX as i64;
    lo <= e.0 && e.0 <= hi && lo <= e.1 && e.1 <= hi && lo <= e.2 && e.2 <= hi && lo <= e.3 && e.3 <= hi
}

/// Fits a saved window into the work area of the monitor it is nearest to.
pub fn fit_to_work_area(left: i32, top: i32, width: i32, height: i32, work: Rect, monitor: Rect) -> (r: Rect)
    requires
        fits_i32(fitted_edges(left as int, top as int, width as int, height as int, work, monitor)),
    ensures
        r == fitted(left as int, top as int, width as int, height as int, work, monitor),
        r.left == fitted_edges(left as int, top as int, width as int, height as int, work, monitor).0,
        r.top == fitted_edges(left as int, top as int, width as int, height as int, work, monitor).1,
        r.right == fitted_edges(left as int, top as int, width as int, height as int, work, monitor).2,
        r.bottom == fitted_edges(left as int, top as int, width as int, height as int, work, monitor).3,
{
    let e = fitted_wide(left, top, width, height, work, monitor);
    Rect { left: e.0 as i32, top: e.1 as i32, right: e.2 as i32, bottom: e.3 as i32 }
}

/// The edges of a normal placement, relative to the work area, in screen coordinates of
/// the monitor.
pub open spec fn screen_edges(normal: Rect, work: Rect, monitor: Rect) -> (int, int, int, int) {
    let dx = work.left - monitor.left;
    let dy = work.top - monitor.top;
    (normal.left + dx, normal.top + dy, normal.right + dx, normal.bottom + dy)
}

fn screen_wide(normal: Rect, work: Rect, monitor: Rect) -> (r: (i64, i64, i64, i64))
    ensures
        r.0 == screen_edges(normal, work, monitor).0,
        r.1 == screen_edges(normal, work, monitor).1,
        r.2 == screen_edges(normal, work, monitor).2,
        r.3 == screen_edges(normal, work, monitor).3,
{
    let dx = work.left as i64 - monitor.left as i64;
    let dy = work.top as i64 - monitor.top as i64;
    (normal.left as i64 + dx, normal.top as i64 + dy, normal.right as i64 + dx, normal.bottom as i64 + dy)
}

/// Whether a normal placement in screen coordinates keeps its edges within `i32`, which
/// is what `to_screen` needs.
pub fn fits_screen(normal: Rect, work: Rect, monitor: Rect) -> (r: bool)
    ensures
        r == fits_i32(screen_edges(normal, work, monitor)),
{
    let e = screen_wide(normal, work, monitor);
    let lo = i32::MIN as i64;
    let hi = i32::MAX as i64;
    lo <= e.0 && e.0 <= hi && lo <= e.1 && e.1 <= hi && lo <= e.2 && e.2 <= hi && lo <= e.3 && e.3 <= hi
}

/// A normal placement, relative to the work area, in screen coordinates of the monitor.
pub fn to_screen(normal: Rect, work: Rect, monitor: Rect) -> (r: Rect)
    requires
        fits_i32(screen_edges(normal, work, monitor)),
    ensures
        r.left == normal.left + (work.left - monitor.left),
        r.right == normal.right + (work.left - monitor.left),
        r.top == normal.top + (work.top - monitor.top),
        r.bottom == normal.bottom + (work.top - monitor.top),
{
    let e = screen_wide(normal, work, monitor);
    Rect { left: e.0 as i32, top: e.1 as i32, right: e.2 as i32, bottom: e.3 as i32 }
}

/// A window restored from a placement lies inside the work area, with its saved size cut
/// to the work area's.
pub proof fn lemma_fitted_inside_work_area(left: int, top: int, width: int, height: int, work: Rect, monitor: Rect)
    requires
        0 <= width,
        0 <= height,
        work.left <= work.right,
        work.top <= work.bottom,
    ensures
        ({
            let e = fitted_edges(left, top, width, height, work, monitor);
            let dx = work.left - monitor.left;
            let dy = work.top - monitor.top;
            &&& work.left <= e.0 + dx
            &&& e.2 + dx <= work.right
            &&& work.top <= e.1 + dy
            &&& e.3 + dy <= work.bottom
            &&& e.2 - e.0 == min_int(width, work.right - work.left)
            &&& e.3 - e.1 == min_int(height, work.bottom - work.top)
        }),
{
}

/// Saving a window's placement and restoring it gives the same normal placement when the
/// window lay inside the work area.
pub proof fn lemma_placement_round_trip(normal: Rect, work: Rect, monitor: Rect)
    requires
        normal.left <= normal.right,
        normal.top <= normal.bottom,
        work.left <= normal.left + (work.left - monitor.left),
        normal.right + (work.left - monitor.left) <= work.right,
        work.top <= normal.top + (work.top - monitor.top),
        normal.bottom + (work.top - monitor.top) <= work.bottom,
    ensures
        ({
            let s = screen_edges(normal, work, monitor);
            &&& fits_i32(s)
            &&& fitted_edges(s.0, s.1, s.2 - s.0, s.3 - s.1, work, monitor)
                == (normal.left as int, normal.top as int, normal.right as int, normal.bottom as int)
        }),
{
}

/// `SW_SHOWMAXIMIZED`.
pub const SHOW_MAXIMIZED: u32 = 3;

/// `WPF_RESTORETOMAXIMIZED`.
pub const RESTORE_TO_MAXIMIZED: u32 = 2;

/// A window counts as maximized when it is shown maximized or restores to maximized.
pub fn is_maximized(show_cmd: u32, flags: u32) -> (r: bool)
    ensures
        r == (show_cmd == SHOW_MAXIMIZED || flags & RESTORE_TO_MAXIMIZED != 0),
{
    show_cmd == SHOW_MAXIMIZED || flags & RESTORE_TO_MAXIMIZED != 0
}

// ---------------------------------------------------------------------------------------
// The data directory
// ---------------------------------------------------------------------------------------
/// One component of a path, as `std::path::Path::components` gives it.
#[derive(Clone, Debug)]
pub enum PathPart {
    /// A drive or UNC prefix, as text.
    Prefix(String),
    /// The root separator.
    Root,
    /// `.`
    CurDir,
    /// `..`
    ParentDir,
    /// A name.
    Normal(String),
}

/// `acc` after taking `part`: `.` is dropped, `..` removes a preceding name (and is dropped
/// when there is none), anything else is kept.
pub open spec fn take_part(acc: Seq<PathPart>, part: PathPart) -> Seq<PathPart> {
    match part {
        PathPart::CurDir => acc,
        PathPart::ParentDir => if acc.len() > 0 && acc.last() is Normal {
            acc.drop_last()
        } else {
            acc
        },
        _ => acc.push(part),
    }
}

/// The first `n` parts of `parts`, with `.` and `..` resolved.
pub open spec fn resolved(parts: Seq<PathPart>, n: int) -> Seq<PathPart>
    decreases n,
{
    if n <= 0 {
        Seq::empty()
    } else {
        take_part(resolved(parts, n - 1), parts[n - 1])
    }
}

/// No part is `.` or `..`.
pub open spec fn plain(parts: Seq<PathPart>) -> bool {
    forall|i: int| 0 <= i < parts.len() ==> !(#[trigger] parts[i] is CurDir) && !(parts[i] is ParentDir)
}

/// Resolves `.` and `..` in the components of an absolute data directory, without asking
/// the file system, so that one directory always gives one key.
pub fn resolve_parts(parts: &Vec<PathPart>) -> (r: Vec<PathPart>)
    ensures
        r@ == resolved(parts@, parts@.len() as int),
{
    let n = parts.len();
    let mut out: Vec<PathPart> = Vec::new();
    let mut k: usize = 0;
    while k < n
        invariant
            n == parts@.len(),
            k <= n,
            out@ == resolved(parts@, k as int),
        decreases n - k,
    {
        match &parts[k] {
            PathPart::CurDir => {},
            PathPart::ParentDir => {
                let last_is_name = out.len() > 0 && match &out[out.len() - 1] {
                    PathPart::Normal(_) => true,
                    _ => false,
                };
                if last_is_name {
                    out.pop();
                }
            },
            PathPart::Prefix(p) => out.push(PathPart::Prefix(p.clone())),
            PathPart::Root => out.push(PathPart::Root),
            PathPart::Normal(name) => out.push(PathPart::Normal(name.clone())),
        }
        proof {
            assert(resolved(parts@, k + 1) == take_part(resolved(parts@, k as int), parts@[k as int]));
        }
        k = k + 1;
    }
    out
}

/// Resolving leaves no `.` or `..`.
pub proof fn lemma_resolved_plain(parts: Seq<PathPart>, n: int)
    requires
        0 <= n <= parts.len(),
    ensures
        plain(resolved(parts, n)),
    decreases n,
{
    if n > 0 {
        lemma_resolved_plain(parts, n - 1);
        let acc = resolved(parts, n - 1);
        let r = resolved(parts, n);
        assert forall|i: int| 0 <= i < r.len() implies !(#[trigger] r[i] is CurDir) && !(r[i] is ParentDir) by {
            if i < acc.len() {
                assert(r[i] == acc[i]);
            }
        }
    }
}

/// Parts without `.` or `..` resolve to themselves.
pub proof fn lemma_plain_resolves_to_itself(parts: Seq<PathPart>, n: int)
    requires
        0 <= n <= parts.len(),
        plain(parts),
    ensures
        resolved(parts, n) == parts.subrange(0, n),
    decreases n,
{
    if n > 0 {
        lemma_plain_resolves_to_itself(parts, n - 1);
        assert(parts[n - 1] !is CurDir);
        assert(resolved(parts, n) =~= parts.subrange(0, n));
    } else {
        assert(parts.subrange(0, 0) =~= Seq::<PathPart>::empty());
    }
}

/// Resolving twice gives what resolving once gives.
pub proof fn lemma_resolve_idempotent(parts: Seq<PathPart>)
    ensures
        ({
            let once = resolved(parts, parts.len() as int);
            resolved(once, once.len() as int) == once
        }),
{
    let once = resolved(parts, parts.len() as int);
    lemma_resolved_plain(parts, parts.len() as int);
    lemma_plain_resolves_to_itself(once, once.len() as int);
    assert(once.subrange(0, once.len() as int) =~= once);
}

} // verus!
