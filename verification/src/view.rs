//! How the played frame is placed in the video area: zoom and pan.
//!
//! Lengths on screen are whole numbers of a unit far below a pixel, which the
//! caller chooses; zoom is in millionths.

use vstd::prelude::*;

use crate::clock;
use crate::grid_view;

verus! {

/// The zoom that shows the whole frame.
pub const ZOOM_ONE: i64 = 1_000_000;

/// How far playback may be zoomed in.
pub const ZOOM_MAX: i64 = 8_000_000;

/// What one press of a zoom key multiplies the zoom by: five over four.
pub const ZOOM_KEY_NUM: i64 = 5;

/// See [`ZOOM_KEY_NUM`].
pub const ZOOM_KEY_DEN: i64 = 4;

/// The largest coordinate on screen.
pub const COORD_LIMIT: i64 = 1_000_000_000_000;

/// A point on screen.
#[derive(Clone, Copy, Debug, PartialEq, Eq, Structural)]
pub struct Point {
    pub x: i64,
    pub y: i64,
}

/// A rectangle on screen.
#[derive(Clone, Copy, Debug, PartialEq, Eq, Structural)]
pub struct Area {
    pub min: Point,
    pub max: Point,
}

impl Area {
    /// A rectangle on screen whose sides are not negative.
    pub open spec fn valid(self) -> bool {
        &&& -COORD_LIMIT <= self.min.x <= self.max.x <= COORD_LIMIT
        &&& -COORD_LIMIT <= self.min.y <= self.max.y <= COORD_LIMIT
    }

    /// Its width.
    pub open spec fn w(self) -> int {
        self.max.x - self.min.x
    }

    /// Its height.
    pub open spec fn h(self) -> int {
        self.max.y - self.min.y
    }
}

/// The middle between two coordinates.
pub open spec fn middle(a: int, b: int) -> int {
    (a + b) / 2
}

/// The size of the largest image with the aspect of `fw` by `fh` that fits into
/// `w` by `h`; all of it for an image without an extent.
pub open spec fn fit_size(w: int, h: int, fw: int, fh: int) -> (int, int) {
    if fw <= 0 || fh <= 0 {
        (w, h)
    } else if w * fh <= h * fw {
        (w, w * fh / fw)
    } else {
        (h * fw / fh, h)
    }
}

/// A length of `size` around the middle of `a` to `b`, shifted by `offset`.
pub open spec fn around(a: int, b: int, offset: int, size: int) -> (int, int) {
    let low = middle(a, b) + offset - size / 2;
    (low, low + size)
}

/// How far a length of `size` may be shifted in a room of `room`: to its own
/// edge where it overflows the room, and not at all where it does not fill it.
pub open spec fn slack(size: int, room: int) -> int {
    if size <= room {
        0
    } else {
        (size - room) / 2
    }
}

/// The largest rectangle with the aspect of `fw` by `fh` that fits centered into
/// `c`.
pub open spec fn centered(c: Area, fw: int, fh: int) -> ((int, int), (int, int)) {
    let (w, h) = fit_size(c.w(), c.h(), fw, fh);
    (around(c.min.x as int, c.max.x as int, 0, w), around(c.min.y as int, c.max.y as int, 0, h))
}

/// Zoom and pan of the played frame.
#[derive(Clone, Copy, Debug, PartialEq, Eq, Structural)]
pub struct View {
    /// Multiple of the scale that fits the whole frame, in millionths.
    pub zoom: i64,
    /// Shift from centered.
    pub offset: Point,
}

/// The offset once it has been held to the slack of the zoomed frame.
pub open spec fn held_offset(v: View, c: Area, fw: int, fh: int) -> (int, int) {
    let (w, h) = zoomed_size(v, c, fw, fh);
    let sx = slack(w, c.w());
    let sy = slack(h, c.h());
    (
        grid_view::clamped(v.offset.x as int, -sx, sx),
        grid_view::clamped(v.offset.y as int, -sy, sy),
    )
}

/// The size of the zoomed frame.
pub open spec fn zoomed_size(v: View, c: Area, fw: int, fh: int) -> (int, int) {
    let (w, h) = fit_size(c.w(), c.h(), fw, fh);
    (w * v.zoom / (ZOOM_ONE as int), h * v.zoom / (ZOOM_ONE as int))
}

/// Whether `t` is where the frame lands: zoomed about the middle of `c` and
/// shifted by `offset`.
pub open spec fn lands(t: Area, v: View, c: Area, fw: int, fh: int, offset: (int, int)) -> bool {
    let (w, h) = zoomed_size(v, c, fw, fh);
    &&& (t.min.x as int, t.max.x as int) == around(c.min.x as int, c.max.x as int, offset.0, w)
    &&& (t.min.y as int, t.max.y as int) == around(c.min.y as int, c.max.y as int, offset.1, h)
}

/// The zoom once it has been multiplied by `num / den`.
pub open spec fn zoom_after(zoom: int, num: int, den: int) -> int {
    grid_view::clamped(zoom * num / den, ZOOM_ONE as int, ZOOM_MAX as int)
}

/// An offset once the zoom has gone from `before` to `after` about `anchor`.
pub open spec fn offset_after(
    offset: int,
    anchor: int,
    mid: int,
    before: int,
    after: int,
) -> int {
    clock::saturated((mid + offset - anchor) * after / before + anchor - mid)
}

/// The view once its zoom has been multiplied by `num / den` about `anchor`.
pub open spec fn zoomed_view(v: View, num: int, den: int, anchor: Point, c: Area) -> View {
    let zoom = zoom_after(v.zoom as int, num, den);
    View {
        zoom: zoom as i64,
        offset: Point {
            x: offset_after(
                v.offset.x as int,
                anchor.x as int,
                middle(c.min.x as int, c.max.x as int),
                v.zoom as int,
                zoom,
            ) as i64,
            y: offset_after(
                v.offset.y as int,
                anchor.y as int,
                middle(c.min.y as int, c.max.y as int),
                v.zoom as int,
                zoom,
            ) as i64,
        },
    }
}

/// The middle of an area.
pub open spec fn middle_of(c: Area) -> Point {
    Point {
        x: middle(c.min.x as int, c.max.x as int) as i64,
        y: middle(c.min.y as int, c.max.y as int) as i64,
    }
}

/// The view after the zoom keys: back to the whole frame first, then in, then
/// out, each about the middle.
pub open spec fn after_keys(v: View, reset: bool, zoom_in: bool, zoom_out: bool, c: Area) -> View {
    let a = if reset {
        View { zoom: ZOOM_ONE, offset: Point { x: 0, y: 0 } }
    } else {
        v
    };
    let b = if zoom_in {
        zoomed_view(a, ZOOM_KEY_NUM as int, ZOOM_KEY_DEN as int, middle_of(c), c)
    } else {
        a
    };
    if zoom_out {
        zoomed_view(b, ZOOM_KEY_DEN as int, ZOOM_KEY_NUM as int, middle_of(c), c)
    } else {
        b
    }
}

fn half_way(a: i64, b: i64) -> (m: i64)
    requires
        -COORD_LIMIT <= a <= COORD_LIMIT,
        -COORD_LIMIT <= b <= COORD_LIMIT,
    ensures
        m == middle(a as int, b as int),
        -COORD_LIMIT <= m <= COORD_LIMIT,
{
    clock::floor_div(a as i128 + b as i128, 2) as i64
}

/// The size of the largest image with the aspect of `fw` by `fh` that fits.
fn fit(w: i64, h: i64, fw: u32, fh: u32) -> (size: (i64, i64))
    requires
        0 <= w <= 2 * COORD_LIMIT,
        0 <= h <= 2 * COORD_LIMIT,
    ensures
        (size.0 as int, size.1 as int) == fit_size(w as int, h as int, fw as int, fh as int),
        0 <= size.0 <= w,
        0 <= size.1 <= h,
{
    if fw == 0 || fh == 0 {
        return (w, h);
    }
    let (x, y): (i128, i128) = (fw as i128, fh as i128);
    let (p, q): (i128, i128) = (w as i128, h as i128);
    assert(0 <= p * y <= 2_000_000_000_000 * 0xffff_ffff) by (nonlinear_arith)
        requires
            0 <= p <= 2_000_000_000_000,
            0 <= y <= 0xffff_ffff,
    ;
    assert(0 <= q * x <= 2_000_000_000_000 * 0xffff_ffff) by (nonlinear_arith)
        requires
            0 <= q <= 2_000_000_000_000,
            0 <= x <= 0xffff_ffff,
    ;
    if p * y <= q * x {
        assert(0 <= p * y / (x as int) <= q) by (nonlinear_arith)
            requires
                0 <= p * y <= q * x,
                x > 0,
        ;
        (w, (p * y / x) as i64)
    } else {
        assert(0 <= q * x / (y as int) <= p) by (nonlinear_arith)
            requires
                0 <= q * x <= p * y,
                y > 0,
        ;
        ((q * x / y) as i64, h)
    }
}

/// One side of a frame at a zoom.
fn zoomed(side: i64, zoom: i64) -> (z: i64)
    requires
        0 <= side <= 2 * COORD_LIMIT,
        ZOOM_ONE <= zoom <= ZOOM_MAX,
    ensures
        z == side * zoom / (ZOOM_ONE as int),
        0 <= z <= 16 * COORD_LIMIT,
{
    assert(0 <= side * zoom <= side * 8_000_000) by (nonlinear_arith)
        requires
            0 <= zoom <= 8_000_000,
            0 <= side,
    ;
    (side as i128 * zoom as i128 / ZOOM_ONE as i128) as i64
}

/// Hold an offset to its slack and say where the length lands.
fn place_axis(a: i64, b: i64, size: i64, offset: i64) -> (r: (i64, i64, i64))
    requires
        -COORD_LIMIT <= a <= b <= COORD_LIMIT,
        0 <= size <= 16 * COORD_LIMIT,
    ensures
        r.0 == grid_view::clamped(
            offset as int,
            -slack(size as int, b - a),
            slack(size as int, b - a),
        ),
        (r.1 as int, r.2 as int) == around(a as int, b as int, r.0 as int, size as int),
{
    let room: i64 = b - a;
    let s: i64 = if size <= room {
        0
    } else {
        (size - room) / 2
    };
    let off: i64 = if offset < -s {
        -s
    } else if offset > s {
        s
    } else {
        offset
    };
    let low: i64 = half_way(a, b) + off - size / 2;
    (off, low, low + size)
}

/// Largest rectangle with the aspect of `fw` by `fh` that fits centered inside
/// `c`.
pub fn fit_centered(c: Area, fw: u32, fh: u32) -> (t: Area)
    requires
        c.valid(),
    ensures
        ((t.min.x as int, t.max.x as int), (t.min.y as int, t.max.y as int)) == centered(
            c,
            fw as int,
            fh as int,
        ),
{
    let (w, h): (i64, i64) = fit(c.max.x - c.min.x, c.max.y - c.min.y, fw, fh);
    let x = place_axis(c.min.x, c.max.x, w, 0);
    let y = place_axis(c.min.y, c.max.y, h, 0);
    Area { min: Point { x: x.1, y: y.1 }, max: Point { x: x.2, y: y.2 } }
}

impl View {
    /// A zoom between the whole frame and the cap.
    pub open spec fn valid(self) -> bool {
        ZOOM_ONE <= self.zoom <= ZOOM_MAX
    }

    /// The whole frame, centered.
    pub fn new() -> (v: View)
        ensures
            v == (View { zoom: ZOOM_ONE, offset: Point { x: 0, y: 0 } }),
            v.valid(),
    {
        View { zoom: ZOOM_ONE, offset: Point { x: 0, y: 0 } }
    }

    /// Where the frame lands inside `c`. The offset is held on the way, which is
    /// what stops a drag from throwing the frame off into the black, whatever
    /// moved it.
    pub fn place(&mut self, c: Area, fw: u32, fh: u32) -> (t: Area)
        requires
            old(self).valid(),
            c.valid(),
        ensures
            final(self).valid(),
            final(self).zoom == old(self).zoom,
            (final(self).offset.x as int, final(self).offset.y as int) == held_offset(
                *old(self),
                c,
                fw as int,
                fh as int,
            ),
            lands(
                t,
                *old(self),
                c,
                fw as int,
                fh as int,
                held_offset(*old(self), c, fw as int, fh as int),
            ),
    {
        let (w, h): (i64, i64) = fit(c.max.x - c.min.x, c.max.y - c.min.y, fw, fh);
        let x = place_axis(c.min.x, c.max.x, zoomed(w, self.zoom), self.offset.x);
        let y = place_axis(c.min.y, c.max.y, zoomed(h, self.zoom), self.offset.y);
        self.offset = Point { x: x.0, y: y.0 };
        Area { min: Point { x: x.1, y: y.1 }, max: Point { x: x.2, y: y.2 } }
    }

    /// Multiply the zoom by `num / den`, keeping what sits under `anchor` there.
    pub fn zoom_by(&mut self, num: i64, den: i64, anchor: Point, c: Area)
        requires
            old(self).valid(),
            c.valid(),
            0 <= num,
            0 < den,
        ensures
            final(self).valid(),
            *final(self) == zoomed_view(*old(self), num as int, den as int, anchor, c),
    {
        let before: i64 = self.zoom;
        assert(0 <= before * num <= 8_000_000 * 0x7fff_ffff_ffff_ffff) by (nonlinear_arith)
            requires
                0 <= before <= 8_000_000,
                0 <= num <= 0x7fff_ffff_ffff_ffff,
        ;
        let wanted: i128 = before as i128 * num as i128 / den as i128;
        let after: i64 = if wanted < ZOOM_ONE as i128 {
            ZOOM_ONE
        } else if wanted > ZOOM_MAX as i128 {
            ZOOM_MAX
        } else {
            wanted as i64
        };
        self.zoom = after;
        self.offset = Point {
            x: shifted(self.offset.x, anchor.x, half_way(c.min.x, c.max.x), before, after),
            y: shifted(self.offset.y, anchor.y, half_way(c.min.y, c.max.y), before, after),
        };
    }

    /// The zoom keys.
    pub fn zoom_keys(&mut self, reset: bool, zoom_in: bool, zoom_out: bool, c: Area)
        requires
            old(self).valid(),
            c.valid(),
        ensures
            final(self).valid(),
            *final(self) == after_keys(*old(self), reset, zoom_in, zoom_out, c),
    {
        let mid = Point { x: half_way(c.min.x, c.max.x), y: half_way(c.min.y, c.max.y) };
        if reset {
            *self = View::new();
        }
        if zoom_in {
            self.zoom_by(ZOOM_KEY_NUM, ZOOM_KEY_DEN, mid, c);
        }
        if zoom_out {
            self.zoom_by(ZOOM_KEY_DEN, ZOOM_KEY_NUM, mid, c);
        }
    }

    /// Move the frame with the cursor.
    pub fn pan(&mut self, dx: i64, dy: i64)
        ensures
            final(self).zoom == old(self).zoom,
            final(self).offset.x == clock::saturated(old(self).offset.x + dx),
            final(self).offset.y == clock::saturated(old(self).offset.y + dy),
    {
        self.offset = Point {
            x: clock::saturate(self.offset.x as i128 + dx as i128),
            y: clock::saturate(self.offset.y as i128 + dy as i128),
        };
    }
}

/// An offset once the zoom has changed about an anchor: the middle of the frame
/// is scaled about it.
fn shifted(offset: i64, anchor: i64, mid: i64, before: i64, after: i64) -> (r: i64)
    requires
        -COORD_LIMIT <= mid <= COORD_LIMIT,
        ZOOM_ONE <= before <= ZOOM_MAX,
        ZOOM_ONE <= after <= ZOOM_MAX,
    ensures
        r == offset_after(
            offset as int,
            anchor as int,
            mid as int,
            before as int,
            after as int,
        ),
{
    let from: i128 = mid as i128 + offset as i128 - anchor as i128;
    let far: i128 = 0x2_0000_0000_0000_0000;
    assert(-far * 8_000_000 <= from * after <= far * 8_000_000) by (nonlinear_arith)
        requires
            -far <= from <= far,
            0 <= after <= 8_000_000,
    ;
    let scaled: i128 = clock::floor_div(from * after as i128, before as i128);
    assert(-far * 8_000_000 <= scaled <= far * 8_000_000) by (nonlinear_arith)
        requires
            scaled == (from * after) / (before as int),
            -far * 8_000_000 <= from * after <= far * 8_000_000,
            before >= 1,
            far > 0,
    ;
    clock::saturate(scaled + anchor as i128 - mid as i128)
}

/// A frame that overflows the area in some direction covers it there from edge to
/// edge, however it was dragged; one that does not is centered there. So a drag
/// can never uncover more black than the fit shows.
pub proof fn panning_never_leaves_the_frame(v: View, c: Area, fw: int, fh: int, t: Area)
    requires
        v.valid(),
        c.valid(),
        0 <= fw,
        0 <= fh,
        lands(t, v, c, fw, fh, held_offset(v, c, fw, fh)),
    ensures
        zoomed_size(v, c, fw, fh).0 > c.w() ==> t.min.x <= c.min.x && c.max.x <= t.max.x,
        zoomed_size(v, c, fw, fh).0 <= c.w() ==> held_offset(v, c, fw, fh).0 == 0,
        zoomed_size(v, c, fw, fh).1 > c.h() ==> t.min.y <= c.min.y && c.max.y <= t.max.y,
        zoomed_size(v, c, fw, fh).1 <= c.h() ==> held_offset(v, c, fw, fh).1 == 0,
{
}

/// At the zoom that shows the whole frame, the frame is exactly fitted and
/// centered, and no drag can shift it.
pub proof fn an_unzoomed_frame_is_the_fit(v: View, c: Area, fw: int, fh: int, t: Area)
    requires
        v.zoom == ZOOM_ONE,
        c.valid(),
        0 <= fw,
        0 <= fh,
        lands(t, v, c, fw, fh, held_offset(v, c, fw, fh)),
    ensures
        held_offset(v, c, fw, fh) == (0int, 0int),
        ((t.min.x as int, t.max.x as int), (t.min.y as int, t.max.y as int)) == centered(
            c,
            fw,
            fh,
        ),
{
    lemma_fit_is_inside(c.w(), c.h(), fw, fh);
}

proof fn lemma_fit_is_inside(w: int, h: int, fw: int, fh: int)
    requires
        0 <= w,
        0 <= h,
        0 <= fw,
        0 <= fh,
    ensures
        0 <= fit_size(w, h, fw, fh).0 <= w,
        0 <= fit_size(w, h, fw, fh).1 <= h,
{
    if fw > 0 && fh > 0 {
        if w * fh <= h * fw {
            assert(0 <= w * fh / fw <= h) by (nonlinear_arith)
                requires
                    0 <= w,
                    0 < fh,
                    w * fh <= h * fw,
                    fw > 0,
            ;
        } else {
            assert(0 <= h * fw / fh <= w) by (nonlinear_arith)
                requires
                    0 <= h,
                    0 < fw,
                    h * fw <= w * fh,
                    fh > 0,
            ;
        }
    }
}

/// Zooming holds the anchored point: the distance of the frame's middle from it
/// grows with the zoom, to within one unit. A zoom that does not change leaves
/// the frame where it was.
pub proof fn zooming_holds_the_anchored_point(
    offset: i64,
    anchor: i64,
    mid: int,
    before: int,
    after: int,
)
    requires
        -COORD_LIMIT <= mid <= COORD_LIMIT,
        -COORD_LIMIT <= offset <= COORD_LIMIT,
        -COORD_LIMIT <= anchor <= COORD_LIMIT,
        ZOOM_ONE <= before <= ZOOM_MAX,
        ZOOM_ONE <= after <= ZOOM_MAX,
    ensures
        ({
            let d = mid + offset - anchor;
            let e = mid + offset_after(offset as int, anchor as int, mid, before, after) - anchor;
            0 <= d * after - e * before < before
        }),
        before == after ==> offset_after(offset as int, anchor as int, mid, before, after)
            == offset,
{
    let d = mid + offset - anchor;
    let q = d * after / before;
    let r = (d * after) % before;
    assert(d * after == before * q + r && 0 <= r < before) by (nonlinear_arith)
        requires
            q == d * after / before,
            r == (d * after) % before,
            before > 0,
    ;
    assert(-25_000_000_000_000 <= q <= 25_000_000_000_000) by (nonlinear_arith)
        requires
            d * after == before * q + r,
            0 <= r < before,
            -3_000_000_000_000 <= d <= 3_000_000_000_000,
            0 <= after <= 8 * before,
            before >= 1,
    ;
    assert(mid + offset_after(offset as int, anchor as int, mid, before, after) - anchor == q);
    assert(before * q == q * before) by (nonlinear_arith);
    if before == after {
        assert(q == d) by (nonlinear_arith)
            requires
                q == d * after / before,
                after == before,
                before > 0,
        ;
    }
}

/// Zooming out far enough always ends at the whole frame: each press of the key
/// takes a fifth off the zoom until it is reached.
pub proof fn zooming_out_ends_at_the_whole_frame(zoom: int)
    requires
        ZOOM_ONE <= zoom <= ZOOM_MAX,
    ensures
        zoom_after(zoom, ZOOM_KEY_DEN as int, ZOOM_KEY_NUM as int) < zoom || zoom == ZOOM_ONE,
        zoom_after(zoom, ZOOM_KEY_NUM as int, ZOOM_KEY_DEN as int) > zoom || zoom == ZOOM_MAX,
        ZOOM_ONE <= zoom_after(zoom, ZOOM_KEY_DEN as int, ZOOM_KEY_NUM as int) <= ZOOM_MAX,
        ZOOM_ONE <= zoom_after(zoom, ZOOM_KEY_NUM as int, ZOOM_KEY_DEN as int) <= ZOOM_MAX,
{
}

proof fn lemma_quotient(x: int, d: int)
    requires
        d > 0,
    ensures
        x == (x / d) * d + x % d,
        0 <= x % d < d,
{
    vstd::arithmetic::div_mod::lemma_fundamental_div_mod(x, d);
    vstd::arithmetic::mul::lemma_mul_is_commutative(x / d, d);
    vstd::arithmetic::div_mod::lemma_mod_bound(x, d);
}

/// A fitted image stays inside its room, fills it in one direction, and keeps
/// its aspect: its other side is the one that the aspect asks for, to within one
/// unit. An image without an extent takes all of the room.
pub proof fn a_fitted_image_keeps_its_aspect(w: int, h: int, fw: int, fh: int)
    requires
        0 <= w,
        0 <= h,
        0 <= fw,
        0 <= fh,
    ensures
        ({
            let (a, b) = fit_size(w, h, fw, fh);
            &&& 0 <= a <= w
            &&& 0 <= b <= h
            &&& a == w || b == h
            &&& fw > 0 && fh > 0 ==> {
                ||| a == w && 0 <= a * fh - b * fw < fw
                ||| b == h && 0 <= b * fw - a * fh < fh
            }
            &&& fw == 0 || fh == 0 ==> a == w && b == h
        }),
{
    lemma_fit_is_inside(w, h, fw, fh);
    if fw > 0 && fh > 0 {
        lemma_quotient(w * fh, fw);
        lemma_quotient(h * fw, fh);
    }
}

/// No image of exactly the aspect that fits is larger than the fitted one in
/// either direction.
pub proof fn a_fitted_image_is_the_largest(w: int, h: int, fw: int, fh: int, a: int, b: int)
    requires
        0 <= a <= w,
        0 <= b <= h,
        0 < fw,
        0 < fh,
        a * fh == b * fw,
    ensures
        a <= fit_size(w, h, fw, fh).0,
        b <= fit_size(w, h, fw, fh).1,
{
    lemma_quotient(w * fh, fw);
    lemma_quotient(h * fw, fh);
    if w * fh <= h * fw {
        let q = w * fh / fw;
        assert(b <= q) by (nonlinear_arith)
            requires
                a * fh == b * fw,
                a <= w,
                w * fh < q * fw + fw,
                fw > 0,
                fh > 0,
        {
            assert(b * fw <= w * fh);
            assert(q * fw + fw == (q + 1) * fw);
            assert(b * fw < (q + 1) * fw);
        }
    } else {
        let q = h * fw / fh;
        assert(a <= q) by (nonlinear_arith)
            requires
                a * fh == b * fw,
                b <= h,
                h * fw < q * fh + fh,
                fw > 0,
                fh > 0,
        {
            assert(a * fh <= h * fw);
            assert(q * fh + fh == (q + 1) * fh);
            assert(a * fh < (q + 1) * fh);
        }
    }
}

/// The fitted rectangle lies in its area with as much room on one side as on the
/// other, to within one unit, in both directions, and has the fitted size.
pub proof fn a_fitted_image_is_centered(c: Area, fw: int, fh: int, t: Area)
    requires
        c.valid(),
        0 <= fw,
        0 <= fh,
        ((t.min.x as int, t.max.x as int), (t.min.y as int, t.max.y as int)) == centered(
            c,
            fw,
            fh,
        ),
    ensures
        (t.max.x - t.min.x, t.max.y - t.min.y) == fit_size(
            c.max.x - c.min.x,
            c.max.y - c.min.y,
            fw,
            fh,
        ),
        c.min.x <= t.min.x <= t.max.x <= c.max.x,
        c.min.y <= t.min.y <= t.max.y <= c.max.y,
        -1 <= (c.max.x - t.max.x) - (t.min.x - c.min.x) <= 1,
        -1 <= (c.max.y - t.max.y) - (t.min.y - c.min.y) <= 1,
{
    lemma_fit_is_inside(c.w(), c.h(), fw, fh);
}

/// A placed frame is the fitted one scaled by the zoom, each side to within one
/// unit, and its middle is that of the area shifted by the offset.
pub proof fn a_placed_frame_is_the_fit_times_the_zoom(
    v: View,
    c: Area,
    fw: int,
    fh: int,
    offset: (int, int),
    t: Area,
)
    requires
        v.valid(),
        c.valid(),
        0 <= fw,
        0 <= fh,
        lands(t, v, c, fw, fh, offset),
    ensures
        ({
            let (a, b) = fit_size(c.max.x - c.min.x, c.max.y - c.min.y, fw, fh);
            &&& 0 <= a * v.zoom - (t.max.x - t.min.x) * 1_000_000 < 1_000_000
            &&& 0 <= b * v.zoom - (t.max.y - t.min.y) * 1_000_000 < 1_000_000
        }),
        -1 <= t.min.x + t.max.x - (c.min.x + c.max.x + 2 * offset.0) <= 1,
        -1 <= t.min.y + t.max.y - (c.min.y + c.max.y + 2 * offset.1) <= 1,
{
    let (a, b) = fit_size(c.w(), c.h(), fw, fh);
    lemma_quotient(a * v.zoom, 1_000_000);
    lemma_quotient(b * v.zoom, 1_000_000);
}

/// A drag moves the frame as far as it was dragged, as long as the frame still
/// covers the area; past that the frame stops with its edge at the area's.
pub proof fn a_drag_moves_the_frame_up_to_its_edge(v: View, c: Area, fw: int, fh: int, t: Area)
    requires
        v.valid(),
        c.valid(),
        0 <= fw,
        0 <= fh,
        lands(t, v, c, fw, fh, held_offset(v, c, fw, fh)),
    ensures
        ({
            let over = (t.max.x - t.min.x) - (c.max.x - c.min.x);
            let held = held_offset(v, c, fw, fh).0;
            &&& over <= 0 ==> held == 0
            &&& over > 0 && -over <= 2 * v.offset.x <= over ==> held == v.offset.x
            &&& over > 0 && 2 * v.offset.x > over ==> 0 <= c.min.x - t.min.x <= 1
            &&& over > 0 && 2 * v.offset.x < -over ==> 0 <= t.max.x - c.max.x <= 1
        }),
        ({
            let over = (t.max.y - t.min.y) - (c.max.y - c.min.y);
            let held = held_offset(v, c, fw, fh).1;
            &&& over <= 0 ==> held == 0
            &&& over > 0 && -over <= 2 * v.offset.y <= over ==> held == v.offset.y
            &&& over > 0 && 2 * v.offset.y > over ==> 0 <= c.min.y - t.min.y <= 1
            &&& over > 0 && 2 * v.offset.y < -over ==> 0 <= t.max.y - c.max.y <= 1
        }),
{
}

/// Zooming multiplies the zoom, to within a millionth, and stops at the whole
/// frame and at the cap.
pub proof fn zooming_multiplies_the_zoom(zoom: int, num: int, den: int)
    requires
        1_000_000 <= zoom <= 8_000_000,
        0 <= num,
        0 < den,
    ensures
        ({
            let after = zoom_after(zoom, num, den);
            &&& zoom * num < 1_000_000 * den ==> after == 1_000_000
            &&& zoom * num >= 8_000_000 * den ==> after == 8_000_000
            &&& 1_000_000 * den <= zoom * num < 8_000_000 * den ==> 0 <= zoom * num - after * den
                < den
        }),
{
    lemma_quotient(zoom * num, den);
    let q = zoom * num / den;
    if zoom * num < 1_000_000 * den {
        assert(q < 1_000_000) by (nonlinear_arith)
            requires
                q * den <= zoom * num,
                zoom * num < 1_000_000 * den,
                den > 0,
        ;
    } else {
        assert(q >= 1_000_000) by (nonlinear_arith)
            requires
                zoom * num < q * den + den,
                zoom * num >= 1_000_000 * den,
                den > 0,
        ;
    }
    if zoom * num >= 8_000_000 * den {
        assert(q >= 8_000_000) by (nonlinear_arith)
            requires
                zoom * num < q * den + den,
                zoom * num >= 8_000_000 * den,
                den > 0,
        ;
    } else {
        assert(q < 8_000_000) by (nonlinear_arith)
            requires
                q * den <= zoom * num,
                zoom * num < 8_000_000 * den,
                den > 0,
        ;
    }
}

/// What is under the anchor stays there in both directions: the distance of the
/// frame's middle from it grows with the zoom, to within one unit.
pub proof fn a_zoomed_view_holds_its_anchor(v: View, num: int, den: int, anchor: Point, c: Area)
    requires
        v.valid(),
        c.valid(),
        0 <= num,
        0 < den,
        -COORD_LIMIT <= v.offset.x <= COORD_LIMIT,
        -COORD_LIMIT <= v.offset.y <= COORD_LIMIT,
        -COORD_LIMIT <= anchor.x <= COORD_LIMIT,
        -COORD_LIMIT <= anchor.y <= COORD_LIMIT,
    ensures
        ({
            let u = zoomed_view(v, num, den, anchor, c);
            let mx = (c.min.x + c.max.x) / 2;
            let my = (c.min.y + c.max.y) / 2;
            &&& u.zoom == zoom_after(v.zoom as int, num, den)
            &&& 0 <= (mx + v.offset.x - anchor.x) * u.zoom - (mx + u.offset.x - anchor.x) * v.zoom
                < v.zoom
            &&& 0 <= (my + v.offset.y - anchor.y) * u.zoom - (my + u.offset.y - anchor.y) * v.zoom
                < v.zoom
        }),
{
    let z = zoom_after(v.zoom as int, num, den);
    let mx = middle(c.min.x as int, c.max.x as int);
    let my = middle(c.min.y as int, c.max.y as int);
    zooming_holds_the_anchored_point(v.offset.x, anchor.x, mx, v.zoom as int, z);
    zooming_holds_the_anchored_point(v.offset.y, anchor.y, my, v.zoom as int, z);
}

/// The zoom keys: nothing pressed changes nothing, the reset shows the whole
/// frame centered whatever was shown before, and in and out zoom by five quarters
/// and four fifths about the middle of the area.
pub proof fn each_zoom_key_does_its_part(v: View, w: View, c: Area)
    requires
        c.valid(),
    ensures
        after_keys(v, false, false, false, c) == v,
        after_keys(v, true, false, false, c).zoom == 1_000_000,
        after_keys(v, true, false, false, c).offset == (Point { x: 0, y: 0 }),
        after_keys(v, true, true, false, c) == after_keys(w, true, true, false, c),
        after_keys(v, true, true, true, c) == after_keys(w, true, true, true, c),
        ({
            let mid = Point {
                x: ((c.min.x + c.max.x) / 2) as i64,
                y: ((c.min.y + c.max.y) / 2) as i64,
            };
            &&& after_keys(v, false, true, false, c) == zoomed_view(v, 5, 4, mid, c)
            &&& after_keys(v, false, false, true, c) == zoomed_view(v, 4, 5, mid, c)
        }),
        after_keys(v, true, true, true, c) == after_keys(
            after_keys(after_keys(v, true, false, false, c), false, true, false, c),
            false,
            false,
            true,
            c,
        ),
        after_keys(v, false, true, true, c) == after_keys(
            after_keys(v, false, true, false, c),
            false,
            false,
            true,
            c,
        ),
{
}

/// However far the frame is off, zooming scales its distance from the anchor,
/// rounded down, and cuts off only what no coordinate can hold.
pub proof fn zooming_scales_any_distance(
    offset: int,
    anchor: int,
    mid: int,
    before: int,
    after: int,
    q: int,
)
    requires
        before > 0,
        0 <= (mid + offset - anchor) * after - q * before < before,
    ensures
        offset_after(offset, anchor, mid, before, after) == clock::saturated(q + anchor - mid),
{
    let x = (mid + offset - anchor) * after;
    vstd::arithmetic::div_mod::lemma_fundamental_div_mod_converse(x, before, q, x - q * before);
}

} // verus!
