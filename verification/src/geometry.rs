//! Sizes, rectangles and the fullscreen fit.

use vstd::prelude::*;

verus! {

#[derive(Debug, Clone, Copy, PartialEq, Eq, Structural)]
pub struct Size {
    pub w: i32,
    pub h: i32,
}

#[derive(Debug, Clone, Copy, PartialEq, Eq, Structural)]
pub struct Point {
    pub x: i32,
    pub y: i32,
}

#[derive(Debug, Clone, Copy, PartialEq, Eq, Structural)]
pub struct Rect {
    pub loc: Point,
    pub size: Size,
}

impl Size {
    pub open spec fn positive(self) -> bool {
        self.w > 0 && self.h > 0
    }

    /// Both sizes laid with a corner on the origin: what they have in common, if anything.
    pub open spec fn overlap(self, other: Size) -> Option<Size> {
        if self.positive() && other.positive() {
            Some(
                Size {
                    w: if self.w <= other.w { self.w } else { other.w },
                    h: if self.h <= other.h { self.h } else { other.h },
                },
            )
        } else {
            None
        }
    }

    /// `rect` lies inside this size laid with a corner on the origin. A far edge beyond the
    /// largest coordinate counts as lying on it.
    pub open spec fn covers(self, rect: Rect) -> bool {
        &&& rect.loc.x >= 0
        &&& rect.loc.y >= 0
        &&& rect.loc.x + rect.size.w <= self.w || self.w == i32::MAX
        &&& rect.loc.y + rect.size.h <= self.h || self.h == i32::MAX
    }

    pub fn is_positive(self) -> (b: bool)
        ensures
            b == self.positive(),
    {
        self.w > 0 && self.h > 0
    }

    /// The smaller of the two on each axis.
    pub fn min(self, other: Size) -> (m: Size)
        ensures
            m.w == (if self.w <= other.w { self.w } else { other.w }),
            m.h == (if self.h <= other.h { self.h } else { other.h }),
    {
        Size {
            w: if self.w <= other.w {
                self.w
            } else {
                other.w
            },
            h: if self.h <= other.h {
                self.h
            } else {
                other.h
            },
        }
    }

    pub fn intersection(self, other: Size) -> (common: Option<Size>)
        ensures
            common == self.overlap(other),
    {
        if self.is_positive() && other.is_positive() {
            Some(self.min(other))
        } else {
            None
        }
    }

    pub fn contains_rect(self, rect: Rect) -> (b: bool)
        ensures
            b == self.covers(rect),
    {
        let right: i64 = rect.loc.x as i64 + rect.size.w as i64;
        let bottom: i64 = rect.loc.y as i64 + rect.size.h as i64;
        rect.loc.x >= 0 && rect.loc.y >= 0 && (right <= self.w as i64 || self.w == i32::MAX) && (
        bottom <= self.h as i64 || self.h == i32::MAX)
    }
}

/// An aspect-preserving scale plus a centring offset, as exact fractions: the scale is
/// `num / den`, the offset `(offset_x / (2 * den), offset_y / (2 * den))`.
#[derive(Debug, Clone, Copy, PartialEq, Eq, Structural)]
pub struct Fit {
    pub num: i32,
    pub den: i32,
    pub offset_x: i64,
    pub offset_y: i64,
}

impl Fit {
    pub open spec fn is_identity(self) -> bool {
        self == (Fit { num: 1, den: 1, offset_x: 0, offset_y: 0 })
    }

    /// Where the coordinate `x / d` of the content lands on the horizontal axis, times
    /// `2 * den * d`.
    pub open spec fn place_x(self, x: int, d: int) -> int {
        2 * self.num * x + self.offset_x * d
    }

    /// Where the coordinate `y / d` of the content lands on the vertical axis, times
    /// `2 * den * d`.
    pub open spec fn place_y(self, y: int, d: int) -> int {
        2 * self.num * y + self.offset_y * d
    }

    /// The scale is the larger one that keeps content of size `surface` inside `configured`
    /// on both axes: nothing sticks out, and one axis is filled edge to edge.
    pub open spec fn fills(self, configured: Size, surface: Size) -> bool {
        &&& self.num > 0
        &&& self.den > 0
        &&& surface.w * self.num <= configured.w * self.den
        &&& surface.h * self.num <= configured.h * self.den
        &&& surface.w * self.num == configured.w * self.den || surface.h * self.num
            == configured.h * self.den
    }

    /// The room the scaled content leaves is split evenly between the two sides.
    pub open spec fn centres(self, configured: Size, surface: Size) -> bool {
        &&& self.offset_x == configured.w * self.den - surface.w * self.num
        &&& self.offset_y == configured.h * self.den - surface.h * self.num
    }

    pub fn identity() -> (fit: Fit)
        ensures
            fit.is_identity(),
    {
        Fit { num: 1, den: 1, offset_x: 0, offset_y: 0 }
    }
}

/// There is nothing to fit: a size is degenerate, or the content already has the size it was
/// told to have.
pub open spec fn needs_no_fit(configured: Size, surface: Size) -> bool {
    !configured.positive() || !surface.positive() || surface == configured
}

/// The one fit of `surface` into `configured`, in the terms of the axis that limits it.
pub open spec fn fit_of(configured: Size, surface: Size) -> Fit {
    if needs_no_fit(configured, surface) {
        Fit { num: 1, den: 1, offset_x: 0, offset_y: 0 }
    } else if configured.w * surface.h <= configured.h * surface.w {
        Fit {
            num: configured.w,
            den: surface.w,
            offset_x: 0,
            offset_y: (configured.h * surface.w - surface.h * configured.w) as i64,
        }
    } else {
        Fit {
            num: configured.h,
            den: surface.h,
            offset_x: (configured.w * surface.h - surface.w * configured.h) as i64,
            offset_y: 0,
        }
    }
}

/// The aspect-preserving scale plus centring offset that maps content of size `surface` into
/// the `configured` box it was told to fill.
///
/// Compositing scales a window by it and input maps pointer positions back through its
/// inverse, so there is this one definition for both. The fit is symmetric: content larger
/// than its box is scaled down by the same rule.
pub fn fullscreen_fit(configured: Size, surface: Size) -> (fit: Fit)
    ensures
        fit == fit_of(configured, surface),
        needs_no_fit(configured, surface) ==> fit.is_identity(),
        !needs_no_fit(configured, surface) ==> fit.fills(configured, surface) && fit.centres(
            configured,
            surface,
        ),
{
    if surface.w <= 0 || surface.h <= 0 || configured.w <= 0 || configured.h <= 0 || surface
        == configured {
        return Fit::identity();
    }
    proof {
        lemma_area_bounds(configured.w as int, surface.h as int);
        lemma_area_bounds(configured.h as int, surface.w as int);
        assert(surface.w * configured.h == configured.h * surface.w) by (nonlinear_arith);
        assert(surface.h * configured.w == configured.w * surface.h) by (nonlinear_arith);
        assert(surface.w * configured.w == configured.w * surface.w) by (nonlinear_arith);
        assert(surface.h * configured.h == configured.h * surface.h) by (nonlinear_arith);
    }
    let across: i64 = configured.w as i64 * surface.h as i64;
    let down: i64 = configured.h as i64 * surface.w as i64;
    if across <= down {
        Fit { num: configured.w, den: surface.w, offset_x: 0, offset_y: down - across }
    } else {
        Fit { num: configured.h, den: surface.h, offset_x: across - down, offset_y: 0 }
    }
}

/// The product of two positive dimensions fits in 64 bits.
proof fn lemma_area_bounds(a: int, b: int)
    requires
        0 < a <= i32::MAX,
        0 < b <= i32::MAX,
    ensures
        0 < a * b <= 0x3fff_ffff_ffff_ffff,
{
    assert(0 < a * b) by (nonlinear_arith)
        requires
            0 < a,
            0 < b,
    ;
    assert(a * b <= 0x7fff_ffff * 0x7fff_ffff) by (nonlinear_arith)
        requires
            0 < a <= 0x7fff_ffff,
            0 < b <= 0x7fff_ffff,
    ;
}

/// What the fit needs to know of a mapped window, read off its toplevel in place.
#[derive(Debug, Clone, Copy, PartialEq, Eq, Structural)]
pub struct FitFacts {
    /// The acknowledged state of the toplevel: whether it is fullscreen, and the size it was
    /// configured at. `None` for a window that is no toplevel or has no such state yet.
    pub current: Option<AckedState>,
    /// The size of the root surface as presented, after any viewport; `None` before the first
    /// buffer.
    pub surface_size: Option<Size>,
    /// The bounding box of the surface tree, subsurfaces included and popups excluded.
    pub bbox: Rect,
}

#[derive(Debug, Clone, Copy, PartialEq, Eq, Structural)]
pub struct AckedState {
    pub fullscreen: bool,
    pub size: Option<Size>,
}

impl FitFacts {
    /// Only a fullscreen toplevel whose visible content stays inside its root surface is
    /// fitted; anything else is drawn as it is.
    pub open spec fn fittable(self) -> bool {
        &&& self.current is Some
        &&& self.current->0.fullscreen
        &&& self.surface_size is Some
        &&& self.surface_size->0.covers(self.bbox)
    }

    /// The size the window was told to fill: its configure, or else the whole output.
    pub open spec fn target(self, output_logical: Size) -> Size {
        match self.current->0.size {
            Some(size) => size,
            None => output_logical,
        }
    }
}

/// The fit of a mapped window.
pub open spec fn window_fit(window: FitFacts, output_logical: Size) -> Fit {
    if window.fittable() {
        fit_of(window.target(output_logical), window.surface_size->0)
    } else {
        Fit { num: 1, den: 1, offset_x: 0, offset_y: 0 }
    }
}

/// The fullscreen fit of a mapped window. `output_logical` is the size to fill when the
/// acknowledged state carries none.
pub fn window_fullscreen_fit(window: FitFacts, output_logical: Size) -> (fit: Fit)
    ensures
        !window.fittable() ==> fit.is_identity(),
        window.fittable() ==> fit == fit_of(
            window.target(output_logical),
            window.surface_size->0,
        ),
        fit == window_fit(window, output_logical),
{
    let (fullscreen, configured) = match window.current {
        Some(state) => (state.fullscreen, state.size),
        None => {
            return Fit::identity();
        },
    };
    if !fullscreen {
        return Fit::identity();
    }
    let surface_size = match window.surface_size {
        Some(size) => size,
        None => {
            return Fit::identity();
        },
    };
    if !surface_size.contains_rect(window.bbox) {
        return Fit::identity();
    }
    let target = match configured {
        Some(size) => size,
        None => output_logical,
    };
    fullscreen_fit(target, surface_size)
}

/// Every point of the content, from its first edge to its last, lands inside the box it was
/// told to fill.
pub proof fn law_fit_keeps_content_inside(configured: Size, surface: Size, x: int, y: int, d: int)
    requires
        !needs_no_fit(configured, surface),
        d > 0,
        0 <= x <= surface.w * d,
        0 <= y <= surface.h * d,
    ensures
        ({
            let fit = fit_of(configured, surface);
            &&& 0 <= fit.place_x(x, d) <= configured.w * (2 * fit.den * d)
            &&& 0 <= fit.place_y(y, d) <= configured.h * (2 * fit.den * d)
        }),
{
    lemma_fit_of(configured, surface);
    let fit = fit_of(configured, surface);
    lemma_axis_inside(
        fit.num as int,
        fit.den as int,
        fit.offset_x as int,
        configured.w as int,
        surface.w as int,
        x,
        d,
    );
    lemma_axis_inside(
        fit.num as int,
        fit.den as int,
        fit.offset_y as int,
        configured.h as int,
        surface.h as int,
        y,
        d,
    );
}

/// Mapping a position on the screen back through the fit undoes the mapping of the content:
/// with `p / (2 * den * d)` the place of `x / d`, taking the offset off and dividing by the
/// scale gives `x / d` again.
pub proof fn law_fit_inverse_undoes_the_fit(fit: Fit, x: int, y: int, d: int)
    requires
        fit.num > 0,
        fit.den > 0,
        d > 0,
    ensures
        (fit.place_x(x, d) - fit.offset_x * d) * fit.den * d == x * fit.num * (2 * fit.den * d),
        (fit.place_y(y, d) - fit.offset_y * d) * fit.den * d == y * fit.num * (2 * fit.den * d),
{
    let n = fit.num as int;
    let e = fit.den as int;
    assert((2 * n * x) * e * d == x * n * (2 * e * d)) by (nonlinear_arith);
    assert((2 * n * y) * e * d == y * n * (2 * e * d)) by (nonlinear_arith);
}

/// Content that overshoots its box on some axis is scaled down; content that is smaller on
/// both is scaled up.
pub proof fn law_fit_is_symmetric(configured: Size, surface: Size)
    requires
        !needs_no_fit(configured, surface),
    ensures
        surface.w > configured.w || surface.h > configured.h ==> fit_of(configured, surface).num
            < fit_of(configured, surface).den,
        surface.w < configured.w && surface.h < configured.h ==> fit_of(configured, surface).num
            > fit_of(configured, surface).den,
{
    lemma_fit_of(configured, surface);
    let fit = fit_of(configured, surface);
    let (n, e) = (fit.num as int, fit.den as int);
    let (cw, ch, sw, sh) = (
        configured.w as int,
        configured.h as int,
        surface.w as int,
        surface.h as int,
    );
    if sw > cw {
        assert(n < e) by (nonlinear_arith)
            requires
                sw * n <= cw * e,
                sw > cw,
                cw > 0,
                n > 0,
                e > 0,
        ;
    }
    if sh > ch {
        assert(n < e) by (nonlinear_arith)
            requires
                sh * n <= ch * e,
                sh > ch,
                ch > 0,
                n > 0,
                e > 0,
        ;
    }
    if sw < cw && sh < ch {
        if sw * n == cw * e {
            assert(n > e) by (nonlinear_arith)
                requires
                    sw * n == cw * e,
                    sw < cw,
                    sw > 0,
                    n > 0,
                    e > 0,
            ;
        } else {
            assert(n > e) by (nonlinear_arith)
                requires
                    sh * n == ch * e,
                    sh < ch,
                    sh > 0,
                    n > 0,
                    e > 0,
            ;
        }
    }
}

/// The fit written out for the limiting axis is the largest scale that fits, centred.
proof fn lemma_fit_of(configured: Size, surface: Size)
    requires
        !needs_no_fit(configured, surface),
    ensures
        fit_of(configured, surface).fills(configured, surface),
        fit_of(configured, surface).centres(configured, surface),
{
    lemma_area_bounds(configured.w as int, surface.h as int);
    lemma_area_bounds(configured.h as int, surface.w as int);
    assert(surface.w * configured.h == configured.h * surface.w) by (nonlinear_arith);
    assert(surface.h * configured.w == configured.w * surface.h) by (nonlinear_arith);
    assert(surface.w * configured.w == configured.w * surface.w) by (nonlinear_arith);
    assert(surface.h * configured.h == configured.h * surface.h) by (nonlinear_arith);
}

proof fn lemma_axis_inside(n: int, e: int, offset: int, c: int, s: int, x: int, d: int)
    requires
        n > 0,
        e > 0,
        d > 0,
        s * n <= c * e,
        offset == c * e - s * n,
        0 <= x <= s * d,
    ensures
        0 <= 2 * n * x + offset * d <= c * (2 * e * d),
{
    assert(0 <= n * x <= n * (s * d)) by (nonlinear_arith)
        requires
            n > 0,
            0 <= x <= s * d,
    ;
    assert(0 <= offset * d) by (nonlinear_arith)
        requires
            offset >= 0,
            d > 0,
    ;
    assert(2 * n * x == 2 * (n * x)) by (nonlinear_arith);
    assert(offset * d == c * e * d - s * n * d) by (nonlinear_arith)
        requires
            offset == c * e - s * n,
    ;
    assert(n * (s * d) == s * n * d) by (nonlinear_arith);
    assert(s * n * d <= c * e * d) by (nonlinear_arith)
        requires
            s * n <= c * e,
            d > 0,
    ;
    assert(c * (2 * e * d) == 2 * (c * e * d)) by (nonlinear_arith);
}

/// Two sizes have something in common when both are real: the smaller of the two on each axis.
pub proof fn law_sizes_have_the_smaller_of_each_axis_in_common(a: Size, b: Size)
    ensures
        a.overlap(b) is Some <==> a.w > 0 && a.h > 0 && b.w > 0 && b.h > 0,
        a.overlap(b) is Some ==> {
            let c = a.overlap(b)->0;
            &&& c.w <= a.w && c.w <= b.w && (c.w == a.w || c.w == b.w)
            &&& c.h <= a.h && c.h <= b.h && (c.h == a.h || c.h == b.h)
        },
        a.overlap(b) == b.overlap(a),
        a.positive() <==> a.w > 0 && a.h > 0,
{
}

impl Rect {
    /// The pixel at `x`, `y` belongs to this rectangle.
    pub open spec fn has(self, x: int, y: int) -> bool {
        &&& self.loc.x <= x < self.loc.x + self.size.w
        &&& self.loc.y <= y < self.loc.y + self.size.h
    }
}

impl Size {
    /// The pixel at `x`, `y` belongs to this size laid with a corner on the origin.
    pub open spec fn has(self, x: int, y: int) -> bool {
        &&& 0 <= x < self.w
        &&& 0 <= y < self.h
    }
}

/// A rectangle with pixels in it lies inside a size exactly when all of its pixels do, as long
/// as the size ends short of the largest coordinate.
pub proof fn law_a_rectangle_lies_inside_with_all_its_pixels(size: Size, rect: Rect)
    requires
        rect.size.w > 0,
        rect.size.h > 0,
        size.w < i32::MAX,
        size.h < i32::MAX,
    ensures
        size.covers(rect) <==> forall|x: int, y: int| #[trigger]
            rect.has(x, y) ==> size.has(x, y),
{
    if forall|x: int, y: int| #[trigger] rect.has(x, y) ==> size.has(x, y) {
        assert(rect.has(rect.loc.x as int, rect.loc.y as int));
        assert(rect.has(rect.loc.x + rect.size.w - 1, rect.loc.y + rect.size.h - 1));
    }
}

/// A rectangle lies inside a size when it begins at no negative coordinate and ends no further
/// out than the size does; the largest coordinate counts as out of everyone's reach.
pub proof fn law_a_rectangle_lies_inside_between_its_edges(size: Size, rect: Rect)
    ensures
        size.covers(rect) <==> rect.loc.x >= 0 && rect.loc.y >= 0 && (rect.loc.x + rect.size.w
            <= size.w || size.w == i32::MAX) && (rect.loc.y + rect.size.h <= size.h || size.h
            == i32::MAX),
{
}

/// Content is left as it is when it fills its box already, or when a size is empty. Otherwise it
/// is scaled by one positive factor until it touches two opposite edges of the box and crosses
/// none, and is moved to the middle.
pub proof fn law_content_is_scaled_to_touch_and_centred(configured: Size, surface: Size)
    ensures
        ({
            let fit = fit_of(configured, surface);
            let as_is = configured.w <= 0 || configured.h <= 0 || surface.w <= 0 || surface.h <= 0
                || (configured.w == surface.w && configured.h == surface.h);
            &&& as_is ==> fit.num == 1 && fit.den == 1 && fit.offset_x == 0 && fit.offset_y == 0
            &&& !as_is ==> {
                &&& fit.num > 0
                &&& fit.den > 0
                &&& surface.w * fit.num <= configured.w * fit.den
                &&& surface.h * fit.num <= configured.h * fit.den
                &&& surface.w * fit.num == configured.w * fit.den || surface.h * fit.num
                    == configured.h * fit.den
                &&& fit.offset_x == configured.w * fit.den - surface.w * fit.num
                &&& fit.offset_y == configured.h * fit.den - surface.h * fit.num
            }
        }),
{
    if !needs_no_fit(configured, surface) {
        lemma_fit_of(configured, surface);
    }
}

/// A window is fitted only if it acknowledged being fullscreen, has a buffer, and shows nothing
/// outside of its root surface; all others are left as they are. It is fitted to the size it
/// acknowledged, or to the whole output if that state carries none.
pub proof fn law_a_fullscreen_window_is_fitted_to_its_configure(
    window: FitFacts,
    output_logical: Size,
)
    ensures
        ({
            let fit = window_fit(window, output_logical);
            let fitted = window.current is Some && window.current->0.fullscreen
                && window.surface_size is Some && window.surface_size->0.covers(window.bbox);
            &&& !fitted ==> fit.num == 1 && fit.den == 1 && fit.offset_x == 0 && fit.offset_y == 0
            &&& fitted && window.current->0.size is Some ==> fit == fit_of(
                window.current->0.size->0,
                window.surface_size->0,
            )
            &&& fitted && window.current->0.size is None ==> fit == fit_of(
                output_logical,
                window.surface_size->0,
            )
        }),
{
}

/// Where a point of the content lands: scaled, and moved by the offset of its own axis.
pub proof fn law_a_point_is_scaled_and_moved(fit: Fit, x: int, y: int, d: int)
    ensures
        fit.place_x(x, d) == 2 * fit.num * x + fit.offset_x * d,
        fit.place_y(y, d) == 2 * fit.num * y + fit.offset_y * d,
{
}

} // verus!
