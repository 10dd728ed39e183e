use vstd::prelude::*;

verus! {

/// An RGBA colour, one byte per channel.
#[derive(Clone, Copy, Debug, PartialEq, Eq, Structural)]
pub struct Color {
    pub red: u8,
    pub green: u8,
    pub blue: u8,
    pub alpha: u8,
}

/// An RGBA image from the image crate, held for painting the minimap.  The
/// image is private to this module: it is made, read, measured and written
/// only through the functions below that call the image crate.
#[verifier::external_body]
pub struct MinimapCanvas {
    image: image::RgbaImage,
}

/// The raw bytes of the canvas: four bytes, red, green, blue and alpha, per
/// pixel, row after row.
pub uninterp spec fn canvas_bytes(c: MinimapCanvas) -> Seq<u8>;

/// The `(width, height)` the canvas was made with.
pub uninterp spec fn canvas_size(c: MinimapCanvas) -> (u32, u32);

/// Offset of the first byte of pixel `(x, y)` in an image `width` pixels wide.
pub open spec fn pixel_base(width: int, x: int, y: int) -> int {
    4 * (y * width + x)
}

/// The colour of pixel `(x, y)`, read from the raw bytes.
pub open spec fn pixel_of(bytes: Seq<u8>, width: int, x: int, y: int) -> Color {
    let b = pixel_base(width, x, y);
    Color { red: bytes[b], green: bytes[b + 1], blue: bytes[b + 2], alpha: bytes[b + 3] }
}

/// The bytes hold at least every pixel of the canvas.
pub open spec fn canvas_wf(c: MinimapCanvas) -> bool {
    4 * canvas_size(c).0 * canvas_size(c).1 <= canvas_bytes(c).len()
}

/// Whether a `width` by `height` RGBA buffer fits in `len` bytes and in the
/// address space, as `ImageBuffer::from_raw` checks.
pub open spec fn rgba_fits(width: u32, height: u32, len: nat) -> bool {
    &&& 4 * width <= usize::MAX
    &&& 4 * width * height <= usize::MAX
    &&& 4 * width * height <= len
}

/// `ImageBuffer::from_raw` for RGBA bytes: an image of the given size over
/// exactly these bytes when they are enough for every pixel, else nothing.
#[verifier::external_body]
fn image_from_raw(width: u32, height: u32, bytes: Vec<u8>) -> (c: Option<MinimapCanvas>)
    ensures
        c is Some <==> rgba_fits(width, height, bytes@.len()),
        c matches Some(c) ==> canvas_size(c) == (width, height) && canvas_bytes(c) == bytes@,
{
    match image::RgbaImage::from_raw(width, height, bytes) {
        Some(image) => Some(MinimapCanvas { image }),
        None => None,
    }
}

/// `ImageBuffer::into_raw`: hands back the image's bytes.
#[verifier::external_body]
fn image_into_raw(c: MinimapCanvas) -> (bytes: Vec<u8>)
    ensures
        bytes@ == canvas_bytes(c),
{
    c.image.into_raw()
}

/// `ImageBuffer::dimensions`: the width and height of the image.
#[verifier::external_body]
fn image_dimensions(c: &MinimapCanvas) -> (d: (u32, u32))
    ensures
        d == canvas_size(*c),
{
    c.image.dimensions()
}

/// `ImageBuffer::put_pixel` on an RGBA image: writes the four channels of
/// the colour over the four bytes of pixel `(x, y)`, leaving the size and all
/// other bytes as they were.  It panics outside the image, which `requires`
/// rules out; every canvas holds all its pixels, as `from_raw` checks.
#[verifier::external_body]
fn image_put_pixel(c: &mut MinimapCanvas, x: u32, y: u32, color: Color)
    requires
        canvas_wf(*old(c)),
        x < canvas_size(*old(c)).0,
        y < canvas_size(*old(c)).1,
    ensures
        canvas_size(*final(c)) == canvas_size(*old(c)),
        canvas_bytes(*final(c)) == ({
            let b = pixel_base(canvas_size(*old(c)).0 as int, x as int, y as int);
            canvas_bytes(*old(c)).update(b, color.red).update(b + 1, color.green).update(b + 2, color.blue).update(
                b + 3,
                color.alpha,
            )
        }),
{
    c.image.put_pixel(x, y, image::Rgba([color.red, color.green, color.blue, color.alpha]))
}

/// Pixel `(x, y)` of a `width` by `height` image lies inside the pixel area.
proof fn lemma_pixel_in_area(width: int, height: int, x: int, y: int)
    requires
        0 <= x < width,
        0 <= y < height,
    ensures
        0 <= pixel_base(width, x, y),
        pixel_base(width, x, y) + 4 <= 4 * width * height,
{
    assert(0 <= y * width) by (nonlinear_arith)
        requires
            0 <= y,
            0 <= width,
    ;
    assert(y * width + x + 1 <= width * height) by (nonlinear_arith)
        requires
            0 <= x < width,
            0 <= y < height,
    ;
    assert(4 * width * height == 4 * (width * height)) by (nonlinear_arith);
}

/// Two different pixels of an image `width` wide own disjoint groups of bytes.
proof fn lemma_pixels_apart(width: int, x1: int, y1: int, x2: int, y2: int)
    requires
        0 <= x1 < width,
        0 <= x2 < width,
        0 <= y1,
        0 <= y2,
        x1 != x2 || y1 != y2,
    ensures
        pixel_base(width, x1, y1) + 4 <= pixel_base(width, x2, y2) || pixel_base(width, x2, y2) + 4
            <= pixel_base(width, x1, y1),
{
    if y1 < y2 {
        assert(y1 * width + x1 < y2 * width + x2) by (nonlinear_arith)
            requires
                y1 < y2,
                0 <= x1 < width,
                0 <= x2,
        ;
    } else if y2 < y1 {
        assert(y2 * width + x2 < y1 * width + x1) by (nonlinear_arith)
            requires
                y2 < y1,
                0 <= x2 < width,
                0 <= x1,
        ;
    }
}

impl MinimapCanvas {
    /// A canvas over the given RGBA bytes, `width` by `height` pixels; none
    /// when the bytes are too few for that many pixels.
    pub fn from_rgba(width: u32, height: u32, bytes: Vec<u8>) -> (c: Option<MinimapCanvas>)
        ensures
            c is Some <==> rgba_fits(width, height, bytes@.len()),
            c matches Some(c) ==> canvas_size(c) == (width, height) && canvas_bytes(c) == bytes@
                && canvas_wf(c),
    {
        let c = image_from_raw(width, height, bytes);
        proof {
            if c is Some {
                assert(4 * width * height <= bytes@.len());
            }
        }
        c
    }

    /// The canvas's bytes, four per pixel, row after row.
    pub fn into_rgba(self) -> (bytes: Vec<u8>)
        ensures
            bytes@ == canvas_bytes(self),
    {
        image_into_raw(self)
    }

    /// The canvas's width and height.
    pub fn size(&self) -> (d: (u32, u32))
        ensures
            d == canvas_size(*self),
    {
        image_dimensions(self)
    }
}

/// Writing one pixel changes that pixel alone: every other pixel, and every
/// byte past the pixel area, keeps its value.
proof fn lemma_put_effect(
    before: Seq<u8>,
    after: Seq<u8>,
    width: int,
    height: int,
    px: int,
    py: int,
    color: Color,
)
    requires
        0 <= px < width,
        0 <= py < height,
        4 * width * height <= before.len(),
        after == ({
            let b = pixel_base(width, px, py);
            before.update(b, color.red).update(b + 1, color.green).update(b + 2, color.blue).update(b + 3, color.alpha)
        }),
    ensures
        after.len() == before.len(),
        forall|x: int, y: int|
            0 <= x < width && 0 <= y < height ==> #[trigger] pixel_of(after, width, x, y) == (if x == px
                && y == py {
                color
            } else {
                pixel_of(before, width, x, y)
            }),
        forall|k: int| 4 * width * height <= k < before.len() ==> #[trigger] after[k] == before[k],
{
    lemma_pixel_in_area(width, height, px, py);
    assert forall|x: int, y: int| 0 <= x < width && 0 <= y < height implies #[trigger] pixel_of(
        after,
        width,
        x,
        y,
    ) == (if x == px && y == py {
        color
    } else {
        pixel_of(before, width, x, y)
    }) by {
        lemma_pixel_in_area(width, height, x, y);
        if x != px || y != py {
            lemma_pixels_apart(width, x, y, px, py);
        }
    }
}

/// Whether the stamp centred on `(cx, cy)` with reach `r` covers pixel
/// `(x, y)`: both offsets within `r`, for a round stamp also within the
/// circle of radius `r`, and the pixel inside the clip rectangle
/// `clip_w` by `clip_h` (taken as signed 32-bit numbers).
pub open spec fn stamp_covers(
    cx: i32,
    cy: i32,
    r: i32,
    round: bool,
    clip_w: u32,
    clip_h: u32,
    x: int,
    y: int,
) -> bool {
    let dx = x - cx;
    let dy = y - cy;
    &&& -r <= dx <= r
    &&& -r <= dy <= r
    &&& round ==> dx * dx + dy * dy <= r * r
    &&& 0 <= x < (#[verifier::truncate] (clip_w as i32))
    &&& 0 <= y < (#[verifier::truncate] (clip_h as i32))
}

/// The stamp can be computed in 32-bit arithmetic as the minimap does it:
/// no offset pixel and, for a round stamp, no squared distance overflows.
pub open spec fn stamp_in_range(cx: i32, cy: i32, r: i32, round: bool) -> bool {
    &&& i32::MIN < r
    &&& r >= 0 ==> {
        &&& i32::MIN <= cx - r
        &&& cx + r <= i32::MAX
        &&& i32::MIN <= cy - r
        &&& cy + r <= i32::MAX
        &&& round ==> 2 * r * r <= i32::MAX
    }
}

/// Every pixel the stamp covers lies on the canvas.
pub open spec fn stamp_on_canvas(
    cx: i32,
    cy: i32,
    r: i32,
    round: bool,
    clip_w: u32,
    clip_h: u32,
    size: (u32, u32),
) -> bool {
    forall|x: int, y: int|
        #[trigger] stamp_covers(cx, cy, r, round, clip_w, clip_h, x, y) ==> x < size.0 && y < size.1
}

/// The canvas after a stamp: the covered pixels carry `color`, every other
/// pixel and every byte past the pixel area are as before.
pub open spec fn stamped(
    before: MinimapCanvas,
    after: MinimapCanvas,
    cx: i32,
    cy: i32,
    r: i32,
    round: bool,
    clip_w: u32,
    clip_h: u32,
    color: Color,
) -> bool {
    let w = canvas_size(before).0 as int;
    let h = canvas_size(before).1 as int;
    &&& canvas_size(after) == canvas_size(before)
    &&& canvas_bytes(after).len() == canvas_bytes(before).len()
    &&& forall|x: int, y: int|
        0 <= x < w && 0 <= y < h ==> #[trigger] pixel_of(canvas_bytes(after), w, x, y) == (if stamp_covers(
            cx,
            cy,
            r,
            round,
            clip_w,
            clip_h,
            x,
            y,
        ) {
            color
        } else {
            pixel_of(canvas_bytes(before), w, x, y)
        })
    &&& forall|k: int|
        4 * w * h <= k < canvas_bytes(before).len() ==> #[trigger] canvas_bytes(after)[k]
            == canvas_bytes(before)[k]
}

/// Pixels of the stamp that the row-by-row scan has reached: rows above
/// `row`, and on row `row` the columns left of `col` (offsets from the centre).
pub open spec fn scanned(
    cx: i32,
    cy: i32,
    r: i32,
    round: bool,
    clip_w: u32,
    clip_h: u32,
    row: int,
    col: int,
    x: int,
    y: int,
) -> bool {
    &&& stamp_covers(cx, cy, r, round, clip_w, clip_h, x, y)
    &&& (y - cy < row || (y - cy == row && x - cx < col))
}

impl MinimapCanvas {
    /// Scans the square of offsets `-r..=r` around `(cx, cy)` row by row and
    /// paints every covered pixel with `color`.
    fn paint_stamp(
        &mut self,
        cx: i32,
        cy: i32,
        r: i32,
        round: bool,
        clip_w: u32,
        clip_h: u32,
        color: Color,
    )
        requires
            canvas_wf(*old(self)),
            stamp_in_range(cx, cy, r, round),
            stamp_on_canvas(cx, cy, r, round, clip_w, clip_h, canvas_size(*old(self))),
        ensures
            canvas_wf(*final(self)),
            stamped(*old(self), *final(self), cx, cy, r, round, clip_w, clip_h, color),
    {
        let ghost b0 = canvas_bytes(*self);
        let ghost size = canvas_size(*self);
        let ghost w = size.0 as int;
        let ghost h = size.1 as int;
        if r < 0 {
            assert forall|x: int, y: int| 0 <= x < w && 0 <= y < h implies #[trigger] pixel_of(
                canvas_bytes(*self),
                w,
                x,
                y,
            ) == (if stamp_covers(cx, cy, r, round, clip_w, clip_h, x, y) {
                color
            } else {
                pixel_of(b0, w, x, y)
            }) by {}
            return;
        }
        let cw = #[verifier::truncate] (clip_w as i32);
        let ch = #[verifier::truncate] (clip_h as i32);
        let reach = r as i64;
        let mut dy: i64 = -reach;
        while dy <= reach
            invariant
                0 <= r,
                stamp_in_range(cx, cy, r, round),
                stamp_on_canvas(cx, cy, r, round, clip_w, clip_h, size),
                cw == #[verifier::truncate] (clip_w as i32),
                ch == #[verifier::truncate] (clip_h as i32),
                reach == r,
                -r <= dy <= r + 1,
                w == size.0,
                h == size.1,
                canvas_size(*self) == size,
                canvas_bytes(*self).len() == b0.len(),
                4 * w * h <= b0.len(),
                forall|x: int, y: int|
                    0 <= x < w && 0 <= y < h ==> #[trigger] pixel_of(canvas_bytes(*self), w, x, y) == (
                    if scanned(cx, cy, r, round, clip_w, clip_h, dy as int, -r, x, y) {
                        color
                    } else {
                        pixel_of(b0, w, x, y)
                    }),
                forall|k: int| 4 * w * h <= k < b0.len() ==> #[trigger] canvas_bytes(*self)[k] == b0[k],
            decreases reach + 1 - dy,
        {
            let mut dx: i64 = -reach;
            while dx <= reach
                invariant
                    0 <= r,
                    stamp_in_range(cx, cy, r, round),
                    stamp_on_canvas(cx, cy, r, round, clip_w, clip_h, size),
                    cw == #[verifier::truncate] (clip_w as i32),
                    ch == #[verifier::truncate] (clip_h as i32),
                    reach == r,
                    -r <= dy <= r,
                    -r <= dx <= r + 1,
                    w == size.0,
                    h == size.1,
                    canvas_size(*self) == size,
                    canvas_bytes(*self).len() == b0.len(),
                    4 * w * h <= b0.len(),
                    forall|x: int, y: int|
                        0 <= x < w && 0 <= y < h ==> #[trigger] pixel_of(canvas_bytes(*self), w, x, y)
                            == (if scanned(cx, cy, r, round, clip_w, clip_h, dy as int, dx as int, x, y) {
                            color
                        } else {
                            pixel_of(b0, w, x, y)
                        }),
                    forall|k: int| 4 * w * h <= k < b0.len() ==> #[trigger] canvas_bytes(*self)[k] == b0[k],
                decreases reach + 1 - dx,
            {
                let hit = if round {
                    assert(0 <= dx * dx <= r * r && 0 <= dy * dy <= r * r && r * r <= 0x4000_0000) by (nonlinear_arith)
                        requires
                            -r <= dx <= r,
                            -r <= dy <= r,
                            2 * r * r <= i32::MAX,
                    ;
                    dx * dx + dy * dy <= reach * reach
                } else {
                    true
                };
                let px = cx as i64 + dx;
                let py = cy as i64 + dy;
                let ghost cur = canvas_bytes(*self);
                if hit && px >= 0 && px < cw as i64 && py >= 0 && py < ch as i64 {
                    assert(stamp_covers(cx, cy, r, round, clip_w, clip_h, px as int, py as int));
                    image_put_pixel(self, px as u32, py as u32, color);
                    proof {
                        lemma_put_effect(cur, canvas_bytes(*self), w, h, px as int, py as int, color);
                    }
                } else {
                    assert(!stamp_covers(cx, cy, r, round, clip_w, clip_h, px as int, py as int));
                }
                dx = dx + 1;
            }
            dy = dy + 1;
        }
    }

    /// Paints the filled disc of radius `r` around `(cx, cy)`, clipped to
    /// the `clip_w` by `clip_h` rectangle, in `color`.  A negative radius
    /// paints nothing.
    pub fn paint_disc(
        &mut self,
        cx: i32,
        cy: i32,
        r: i32,
        clip_w: u32,
        clip_h: u32,
        color: Color,
    )
        requires
            canvas_wf(*old(self)),
            stamp_in_range(cx, cy, r, true),
            stamp_on_canvas(cx, cy, r, true, clip_w, clip_h, canvas_size(*old(self))),
        ensures
            canvas_wf(*final(self)),
            stamped(*old(self), *final(self), cx, cy, r, true, clip_w, clip_h, color),
    {
        self.paint_stamp(cx, cy, r, true, clip_w, clip_h, color);
    }

    /// Paints the filled square of offsets `-half..=half` around `(cx, cy)`,
    /// clipped to the `clip_w` by `clip_h` rectangle, in `color`.
    pub fn paint_square(
        &mut self,
        cx: i32,
        cy: i32,
        half: i32,
        clip_w: u32,
        clip_h: u32,
        color: Color,
    )
        requires
            canvas_wf(*old(self)),
            stamp_in_range(cx, cy, half, false),
            stamp_on_canvas(cx, cy, half, false, clip_w, clip_h, canvas_size(*old(self))),
        ensures
            canvas_wf(*final(self)),
            stamped(*old(self), *final(self), cx, cy, half, false, clip_w, clip_h, color),
    {
        self.paint_stamp(cx, cy, half, false, clip_w, clip_h, color);
    }

    /// Paints the single pixel `(x, y)` in `color` if it lies inside the
    /// `clip_w` by `clip_h` rectangle.
    pub fn paint_dot(&mut self, x: i32, y: i32, clip_w: u32, clip_h: u32, color: Color)
        requires
            canvas_wf(*old(self)),
            stamp_on_canvas(x, y, 0, false, clip_w, clip_h, canvas_size(*old(self))),
        ensures
            canvas_wf(*final(self)),
            stamped(*old(self), *final(self), x, y, 0, false, clip_w, clip_h, color),
    {
        self.paint_stamp(x, y, 0, false, clip_w, clip_h, color);
    }
}

/// One mark on the minimap: a disc (`round`) or a square of reach `r`
/// around `(cx, cy)`, in `color`.
#[derive(Clone, Copy, Debug, PartialEq, Eq, Structural)]
pub struct Stamp {
    pub cx: i32,
    pub cy: i32,
    pub r: i32,
    pub round: bool,
    pub color: Color,
}

/// The colour the last of `stamps` that covers pixel `(x, y)` leaves there,
/// if any covers it.
pub open spec fn last_cover(stamps: Seq<Stamp>, clip_w: u32, clip_h: u32, x: int, y: int) -> Option<
    Color,
>
    decreases stamps.len(),
{
    if stamps.len() == 0 {
        None
    } else {
        let s = stamps.last();
        if stamp_covers(s.cx, s.cy, s.r, s.round, clip_w, clip_h, x, y) {
            Some(s.color)
        } else {
            last_cover(stamps.drop_last(), clip_w, clip_h, x, y)
        }
    }
}

/// Every stamp can be computed in 32-bit arithmetic and lands on a canvas of
/// the given size.
pub open spec fn stamps_paintable(stamps: Seq<Stamp>, clip_w: u32, clip_h: u32, size: (u32, u32)) -> bool {
    forall|i: int|
        0 <= i < stamps.len() ==> {
            &&& stamp_in_range(#[trigger] stamps[i].cx, stamps[i].cy, stamps[i].r, stamps[i].round)
            &&& stamp_on_canvas(stamps[i].cx, stamps[i].cy, stamps[i].r, stamps[i].round, clip_w, clip_h, size)
        }
}

/// A clip rectangle that fits on the canvas keeps every stamp on the canvas.
pub proof fn lemma_clip_inside_canvas(
    cx: i32,
    cy: i32,
    r: i32,
    round: bool,
    clip_w: u32,
    clip_h: u32,
    size: (u32, u32),
)
    requires
        clip_w <= size.0,
        clip_h <= size.1,
    ensures
        stamp_on_canvas(cx, cy, r, round, clip_w, clip_h, size),
{
    assert forall|x: int, y: int| #[trigger] stamp_covers(cx, cy, r, round, clip_w, clip_h, x, y) implies x
        < size.0 && y < size.1 by {
        assert((#[verifier::truncate] (clip_w as i32)) <= clip_w) by (bit_vector);
        assert((#[verifier::truncate] (clip_h as i32)) <= clip_h) by (bit_vector);
    }
}

/// Drawing one list of marks after another: a pixel shows the second list's
/// colour wherever the second list covers it, and the first list's elsewhere.
pub proof fn law_later_marks_on_top(
    first: Seq<Stamp>,
    second: Seq<Stamp>,
    clip_w: u32,
    clip_h: u32,
    x: int,
    y: int,
)
    ensures
        last_cover(first + second, clip_w, clip_h, x, y) == (match last_cover(second, clip_w, clip_h, x, y) {
            Some(c) => Some(c),
            None => last_cover(first, clip_w, clip_h, x, y),
        }),
    decreases second.len(),
{
    if second.len() == 0 {
        assert(first + second =~= first);
    } else {
        assert((first + second).drop_last() =~= first + second.drop_last());
        assert((first + second).last() == second.last());
        law_later_marks_on_top(first, second.drop_last(), clip_w, clip_h, x, y);
    }
}

impl MinimapCanvas {
    /// Paints the stamps one after another, so that where stamps overlap the
    /// later one shows.
    pub fn paint_all(&mut self, stamps: &Vec<Stamp>, clip_w: u32, clip_h: u32)
        requires
            canvas_wf(*old(self)),
            stamps_paintable(stamps@, clip_w, clip_h, canvas_size(*old(self))),
        ensures
            canvas_wf(*final(self)),
            canvas_size(*final(self)) == canvas_size(*old(self)),
            canvas_bytes(*final(self)).len() == canvas_bytes(*old(self)).len(),
            forall|x: int, y: int|
                0 <= x < canvas_size(*old(self)).0 && 0 <= y < canvas_size(*old(self)).1
                    ==> #[trigger] pixel_of(canvas_bytes(*final(self)), canvas_size(*old(self)).0 as int, x, y)
                    == (match last_cover(stamps@, clip_w, clip_h, x, y) {
                    Some(c) => c,
                    None => pixel_of(canvas_bytes(*old(self)), canvas_size(*old(self)).0 as int, x, y),
                }),
            forall|k: int|
                4 * canvas_size(*old(self)).0 * canvas_size(*old(self)).1 <= k < canvas_bytes(*old(self)).len()
                    ==> #[trigger] canvas_bytes(*final(self))[k] == canvas_bytes(*old(self))[k],
    {
        let ghost b0 = canvas_bytes(*self);
        let ghost size = canvas_size(*self);
        let ghost w = size.0 as int;
        let ghost h = size.1 as int;
        let n = stamps.len();
        let mut k: usize = 0;
        while k < n
            invariant
                n == stamps@.len(),
                k <= n,
                w == size.0,
                h == size.1,
                stamps_paintable(stamps@, clip_w, clip_h, size),
                canvas_wf(*self),
                canvas_size(*self) == size,
                canvas_bytes(*self).len() == b0.len(),
                forall|x: int, y: int|
                    0 <= x < w && 0 <= y < h ==> #[trigger] pixel_of(canvas_bytes(*self), w, x, y) == (
                    match last_cover(stamps@.take(k as int), clip_w, clip_h, x, y) {
                        Some(c) => c,
                        None => pixel_of(b0, w, x, y),
                    }),
                forall|k2: int| 4 * w * h <= k2 < b0.len() ==> #[trigger] canvas_bytes(*self)[k2] == b0[k2],
            decreases n - k,
        {
            let st = stamps[k];
            let ghost before = *self;
            assert(stamp_in_range(stamps@[k as int].cx, stamps@[k as int].cy, stamps@[k as int].r, stamps@[k as int].round));
            self.paint_stamp(st.cx, st.cy, st.r, st.round, clip_w, clip_h, st.color);
            proof {
                assert(stamps@.take(k as int + 1).drop_last() =~= stamps@.take(k as int));
                assert(stamps@.take(k as int + 1).last() == st);
                assert forall|x: int, y: int| 0 <= x < w && 0 <= y < h implies #[trigger] pixel_of(
                    canvas_bytes(*self),
                    w,
                    x,
                    y,
                ) == (match last_cover(stamps@.take(k as int + 1), clip_w, clip_h, x, y) {
                    Some(c) => c,
                    None => pixel_of(b0, w, x, y),
                }) by {
                    assert(pixel_of(canvas_bytes(*self), w, x, y) == (if stamp_covers(
                        st.cx,
                        st.cy,
                        st.r,
                        st.round,
                        clip_w,
                        clip_h,
                        x,
                        y,
                    ) {
                        st.color
                    } else {
                        pixel_of(canvas_bytes(before), w, x, y)
                    }));
                }
                assert forall|k2: int| 4 * w * h <= k2 < b0.len() implies #[trigger] canvas_bytes(*self)[k2] == b0[k2] by {
                    assert(canvas_bytes(*self)[k2] == canvas_bytes(before)[k2]);
                }
            }
            k = k + 1;
        }
        proof {
            assert(stamps@.take(n as int) =~= stamps@);
        }
    }
}

/// A planet as the minimap shows it: its centre and radius in minimap
/// pixels and its colour.
#[derive(Clone, Copy, Debug, PartialEq, Eq, Structural)]
pub struct PlanetMark {
    pub x: i32,
    pub y: i32,
    pub radius: i32,
    pub red: u8,
    pub green: u8,
    pub blue: u8,
}

/// Alpha of the planet discs.
pub const PLANET_ALPHA: u8 = 200;

/// Half-width of the player's square mark.
pub const PLAYER_MARK_HALF: i32 = 2;

/// Half-width of an enemy's square mark.
pub const ENEMY_MARK_HALF: i32 = 1;

/// The colour of the player's mark.
pub open spec fn player_mark_color() -> Color {
    Color { red: 80, green: 200, blue: 255, alpha: 255 }
}

/// The colour of an enemy's mark.
pub open spec fn enemy_mark_color() -> Color {
    Color { red: 255, green: 60, blue: 60, alpha: 255 }
}

/// The colour of a debris dot.
pub open spec fn debris_mark_color() -> Color {
    Color { red: 160, green: 150, blue: 140, alpha: 180 }
}

pub open spec fn planet_stamp(p: PlanetMark) -> Stamp {
    Stamp {
        cx: p.x,
        cy: p.y,
        r: p.radius,
        round: true,
        color: Color { red: p.red, green: p.green, blue: p.blue, alpha: PLANET_ALPHA },
    }
}

pub open spec fn player_stamp(at: (i32, i32)) -> Stamp {
    Stamp { cx: at.0, cy: at.1, r: PLAYER_MARK_HALF, round: false, color: player_mark_color() }
}

pub open spec fn enemy_stamp(at: (i32, i32)) -> Stamp {
    Stamp { cx: at.0, cy: at.1, r: ENEMY_MARK_HALF, round: false, color: enemy_mark_color() }
}

pub open spec fn debris_stamp(at: (i32, i32)) -> Stamp {
    Stamp { cx: at.0, cy: at.1, r: 0, round: false, color: debris_mark_color() }
}

/// The minimap's marks in drawing order: the planets' discs, the player's
/// square, the enemies' squares, then the debris dots.
pub open spec fn minimap_marks(
    planets: Seq<PlanetMark>,
    player: (i32, i32),
    enemies: Seq<(i32, i32)>,
    debris: Seq<(i32, i32)>,
) -> Seq<Stamp> {
    planets.map_values(|p: PlanetMark| planet_stamp(p)) + seq![player_stamp(player)] + enemies.map_values(
        |e: (i32, i32)| enemy_stamp(e),
    ) + debris.map_values(|d: (i32, i32)| debris_stamp(d))
}

fn make_color(red: u8, green: u8, blue: u8, alpha: u8) -> (c: Color)
    ensures
        c == (Color { red, green, blue, alpha }),
{
    Color { red, green, blue, alpha }
}

/// Lists the minimap's marks in drawing order.
pub fn build_minimap_marks(
    planets: &Vec<PlanetMark>,
    player: (i32, i32),
    enemies: &Vec<(i32, i32)>,
    debris: &Vec<(i32, i32)>,
) -> (marks: Vec<Stamp>)
    ensures
        marks@ == minimap_marks(planets@, player, enemies@, debris@),
{
    let ghost target = minimap_marks(planets@, player, enemies@, debris@);
    let mut marks: Vec<Stamp> = Vec::new();
    let mut i: usize = 0;
    while i < planets.len()
        invariant
            i <= planets@.len(),
            marks@ =~= planets@.take(i as int).map_values(|p: PlanetMark| planet_stamp(p)),
        decreases planets@.len() - i,
    {
        let p = planets[i];
        marks.push(Stamp {
            cx: p.x,
            cy: p.y,
            r: p.radius,
            round: true,
            color: make_color(p.red, p.green, p.blue, PLANET_ALPHA),
        });
        assert(planets@.take(i as int + 1) =~= planets@.take(i as int).push(p));
        i = i + 1;
    }
    assert(planets@.take(planets@.len() as int) =~= planets@);
    let ghost after_planets = marks@;
    marks.push(Stamp {
        cx: player.0,
        cy: player.1,
        r: PLAYER_MARK_HALF,
        round: false,
        color: make_color(80, 200, 255, 255),
    });
    let ghost after_player = marks@;
    let mut j: usize = 0;
    while j < enemies.len()
        invariant
            j <= enemies@.len(),
            marks@ =~= after_player + enemies@.take(j as int).map_values(|e: (i32, i32)| enemy_stamp(e)),
        decreases enemies@.len() - j,
    {
        let e = enemies[j];
        marks.push(Stamp { cx: e.0, cy: e.1, r: ENEMY_MARK_HALF, round: false, color: make_color(255, 60, 60, 255) });
        assert(enemies@.take(j as int + 1) =~= enemies@.take(j as int).push(e));
        j = j + 1;
    }
    assert(enemies@.take(enemies@.len() as int) =~= enemies@);
    let ghost after_enemies = marks@;
    let mut k: usize = 0;
    while k < debris.len()
        invariant
            k <= debris@.len(),
            marks@ =~= after_enemies + debris@.take(k as int).map_values(|d: (i32, i32)| debris_stamp(d)),
        decreases debris@.len() - k,
    {
        let d = debris[k];
        marks.push(Stamp { cx: d.0, cy: d.1, r: 0, round: false, color: make_color(160, 150, 140, 180) });
        assert(debris@.take(k as int + 1) =~= debris@.take(k as int).push(d));
        k = k + 1;
    }
    assert(debris@.take(debris@.len() as int) =~= debris@);
    assert(marks@ =~= target);
    marks
}

impl MinimapCanvas {
    /// Draws the minimap's marks, clipped to the `clip_w` by `clip_h`
    /// rectangle: where marks overlap, the later one in drawing order shows.
    pub fn draw_minimap(
        &mut self,
        planets: &Vec<PlanetMark>,
        player: (i32, i32),
        enemies: &Vec<(i32, i32)>,
        debris: &Vec<(i32, i32)>,
        clip_w: u32,
        clip_h: u32,
    )
        requires
            canvas_wf(*old(self)),
            stamps_paintable(
                minimap_marks(planets@, player, enemies@, debris@),
                clip_w,
                clip_h,
                canvas_size(*old(self)),
            ),
        ensures
            canvas_wf(*final(self)),
            canvas_size(*final(self)) == canvas_size(*old(self)),
            canvas_bytes(*final(self)).len() == canvas_bytes(*old(self)).len(),
            forall|x: int, y: int|
                0 <= x < canvas_size(*old(self)).0 && 0 <= y < canvas_size(*old(self)).1
                    ==> #[trigger] pixel_of(canvas_bytes(*final(self)), canvas_size(*old(self)).0 as int, x, y)
                    == (match last_cover(minimap_marks(planets@, player, enemies@, debris@), clip_w, clip_h, x, y) {
                    Some(c) => c,
                    None => pixel_of(canvas_bytes(*old(self)), canvas_size(*old(self)).0 as int, x, y),
                }),
            forall|k: int|
                4 * canvas_size(*old(self)).0 * canvas_size(*old(self)).1 <= k < canvas_bytes(*old(self)).len()
                    ==> #[trigger] canvas_bytes(*final(self))[k] == canvas_bytes(*old(self))[k],
    {
        let marks = build_minimap_marks(planets, player, enemies, debris);
        self.paint_all(&marks, clip_w, clip_h);
    }
}

/// Whether a stamp can be computed in 32-bit arithmetic.
pub fn stamp_computable(s: &Stamp) -> (ok: bool)
    ensures
        ok == stamp_in_range(s.cx, s.cy, s.r, s.round),
{
    if s.r == i32::MIN {
        return false;
    }
    if s.r < 0 {
        return true;
    }
    let r = s.r as i64;
    let cx = s.cx as i64;
    let cy = s.cy as i64;
    let lo = i32::MIN as i64;
    let hi = i32::MAX as i64;
    let square_ok = if s.round {
        assert(0 <= r * r <= 0x4000_0000_0000_0000) by (nonlinear_arith)
            requires
                0 <= r <= i32::MAX,
        ;
        assert((r * r <= hi / 2) == (2 * r * r <= hi)) by (nonlinear_arith)
            requires
                hi == i32::MAX,
        ;
        r * r <= hi / 2
    } else {
        true
    };
    lo <= cx - r && cx + r <= hi && lo <= cy - r && cy + r <= hi && square_ok
}

impl MinimapCanvas {
    /// Draws the minimap's marks as `draw_minimap` does when every mark can
    /// be computed in 32-bit arithmetic and every pixel a mark covers lies on
    /// the canvas, and reports `true`; otherwise leaves the canvas untouched
    /// and reports `false`.
    pub fn try_draw_minimap(
        &mut self,
        planets: &Vec<PlanetMark>,
        player: (i32, i32),
        enemies: &Vec<(i32, i32)>,
        debris: &Vec<(i32, i32)>,
        clip_w: u32,
        clip_h: u32,
    ) -> (drawn: bool)
        requires
            canvas_wf(*old(self)),
        ensures
            canvas_wf(*final(self)),
            drawn <==> stamps_paintable(
                minimap_marks(planets@, player, enemies@, debris@),
                clip_w,
                clip_h,
                canvas_size(*old(self)),
            ),
            !drawn ==> *final(self) == *old(self),
            canvas_size(*final(self)) == canvas_size(*old(self)),
            canvas_bytes(*final(self)).len() == canvas_bytes(*old(self)).len(),
            forall|x: int, y: int|
                0 <= x < canvas_size(*old(self)).0 && 0 <= y < canvas_size(*old(self)).1
                    ==> #[trigger] pixel_of(canvas_bytes(*final(self)), canvas_size(*old(self)).0 as int, x, y)
                    == (match (if drawn {
                        last_cover(minimap_marks(planets@, player, enemies@, debris@), clip_w, clip_h, x, y)
                    } else {
                        None
                    }) {
                    Some(c) => c,
                    None => pixel_of(canvas_bytes(*old(self)), canvas_size(*old(self)).0 as int, x, y),
                }),
            forall|k: int|
                4 * canvas_size(*old(self)).0 * canvas_size(*old(self)).1 <= k < canvas_bytes(*old(self)).len()
                    ==> #[trigger] canvas_bytes(*final(self))[k] == canvas_bytes(*old(self))[k],
    {
        let ghost orig = *self;
        let size = self.size();
        let marks = build_minimap_marks(planets, player, enemies, debris);
        let ghost ms = marks@;
        let n = marks.len();
        let mut i: usize = 0;
        while i < n
            invariant
                n == ms.len(),
                ms == marks@,
                *self == orig,
                orig == *old(self),
                canvas_wf(orig),
                size == canvas_size(orig),
                ms == minimap_marks(planets@, player, enemies@, debris@),
                i <= n,
                stamps_paintable(ms.take(i as int), clip_w, clip_h, size),
            decreases n - i,
        {
            assert(ms.take(i as int + 1) =~= ms.take(i as int).push(ms[i as int]));
            if !stamp_computable(&marks[i]) {
                assert(!stamps_paintable(ms, clip_w, clip_h, size));
                return false;
            }
            if !stamp_fits(&marks[i], clip_w, clip_h, size) {
                assert(!stamps_paintable(ms, clip_w, clip_h, size));
                return false;
            }
            i = i + 1;
        }
        assert(ms.take(n as int) =~= ms);
        self.paint_all(&marks, clip_w, clip_h);
        true
    }
}

/// Scans the stamp's square row by row and tells whether every pixel it
/// covers lies on a canvas of the given size.
pub fn stamp_fits(s: &Stamp, clip_w: u32, clip_h: u32, size: (u32, u32)) -> (ok: bool)
    requires
        stamp_in_range(s.cx, s.cy, s.r, s.round),
    ensures
        ok == stamp_on_canvas(s.cx, s.cy, s.r, s.round, clip_w, clip_h, size),
{
    let cx = s.cx;
    let cy = s.cy;
    let r = s.r;
    let round = s.round;
    if r < 0 {
        assert forall|x: int, y: int| #[trigger] stamp_covers(cx, cy, r, round, clip_w, clip_h, x, y) implies x
            < size.0 && y < size.1 by {}
        return true;
    }
    let cw = #[verifier::truncate] (clip_w as i32);
    let ch = #[verifier::truncate] (clip_h as i32);
    let reach = r as i64;
    let mut dy: i64 = -reach;
    while dy <= reach
        invariant
            0 <= r,
            cx == s.cx && cy == s.cy && r == s.r && round == s.round,
            stamp_in_range(cx, cy, r, round),
            cw == #[verifier::truncate] (clip_w as i32),
            ch == #[verifier::truncate] (clip_h as i32),
            reach == r,
            -r <= dy <= r + 1,
            forall|x: int, y: int|
                #[trigger] scanned(cx, cy, r, round, clip_w, clip_h, dy as int, -r, x, y) ==> x < size.0 && y
                    < size.1,
        decreases reach + 1 - dy,
    {
        let mut dx: i64 = -reach;
        while dx <= reach
            invariant
                0 <= r,
                cx == s.cx && cy == s.cy && r == s.r && round == s.round,
                stamp_in_range(cx, cy, r, round),
                cw == #[verifier::truncate] (clip_w as i32),
                ch == #[verifier::truncate] (clip_h as i32),
                reach == r,
                -r <= dy <= r,
                -r <= dx <= r + 1,
                forall|x: int, y: int|
                    #[trigger] scanned(cx, cy, r, round, clip_w, clip_h, dy as int, dx as int, x, y) ==> x < size.0
                        && y < size.1,
            decreases reach + 1 - dx,
        {
            let hit = if round {
                assert(0 <= dx * dx <= r * r && 0 <= dy * dy <= r * r && r * r <= 0x4000_0000) by (nonlinear_arith)
                    requires
                        -r <= dx <= r,
                        -r <= dy <= r,
                        2 * r * r <= i32::MAX,
                ;
                dx * dx + dy * dy <= reach * reach
            } else {
                true
            };
            let px = cx as i64 + dx;
            let py = cy as i64 + dy;
            if hit && px >= 0 && px < cw as i64 && py >= 0 && py < ch as i64 {
                assert(stamp_covers(cx, cy, r, round, clip_w, clip_h, px as int, py as int));
                if px >= size.0 as i64 || py >= size.1 as i64 {
                    assert(!stamp_on_canvas(cx, cy, r, round, clip_w, clip_h, size));
                    return false;
                }
            } else {
                assert(!stamp_covers(cx, cy, r, round, clip_w, clip_h, px as int, py as int));
            }
            assert forall|x: int, y: int|
                #[trigger] scanned(cx, cy, r, round, clip_w, clip_h, dy as int, dx + 1, x, y) implies x < size.0
                    && y < size.1 by {
                if !(x == px && y == py) {
                    assert(scanned(cx, cy, r, round, clip_w, clip_h, dy as int, dx as int, x, y));
                }
            }
            dx = dx + 1;
        }
        assert forall|x: int, y: int|
            #[trigger] scanned(cx, cy, r, round, clip_w, clip_h, dy + 1, -r, x, y) implies x < size.0 && y
                < size.1 by {
            assert(scanned(cx, cy, r, round, clip_w, clip_h, dy as int, r + 1, x, y));
        }
        dy = dy + 1;
    }
    assert forall|x: int, y: int| #[trigger] stamp_covers(cx, cy, r, round, clip_w, clip_h, x, y) implies x
        < size.0 && y < size.1 by {
        assert(scanned(cx, cy, r, round, clip_w, clip_h, r + 1, -r, x, y));
    }
    true
}

/// The minimap lists one mark per thing it shows, in drawing order: a disc
/// per planet in the planet's own colour at alpha 200, then the player's
/// light-blue 5x5 square, then a red 3x3 square per enemy, then a grey dot
/// per piece of debris, each centred where it was given.
pub proof fn law_minimap_marks_layout(
    planets: Seq<PlanetMark>,
    player: (i32, i32),
    enemies: Seq<(i32, i32)>,
    debris: Seq<(i32, i32)>,
)
    ensures
        ({
            let m = minimap_marks(planets, player, enemies, debris);
            let np = planets.len() as int;
            let ne = enemies.len() as int;
            &&& m.len() == planets.len() + 1 + enemies.len() + debris.len()
            &&& forall|i: int|
                0 <= i < np ==> #[trigger] m[i] == (Stamp {
                    cx: planets[i].x,
                    cy: planets[i].y,
                    r: planets[i].radius,
                    round: true,
                    color: Color { red: planets[i].red, green: planets[i].green, blue: planets[i].blue, alpha: 200 },
                })
            &&& m[np] == (Stamp {
                cx: player.0,
                cy: player.1,
                r: 2,
                round: false,
                color: Color { red: 80, green: 200, blue: 255, alpha: 255 },
            })
            &&& forall|i: int|
                0 <= i < ne ==> #[trigger] m[np + 1 + i] == (Stamp {
                    cx: enemies[i].0,
                    cy: enemies[i].1,
                    r: 1,
                    round: false,
                    color: Color { red: 255, green: 60, blue: 60, alpha: 255 },
                })
            &&& forall|i: int|
                0 <= i < debris.len() ==> #[trigger] m[np + 1 + ne + i] == (Stamp {
                    cx: debris[i].0,
                    cy: debris[i].1,
                    r: 0,
                    round: false,
                    color: Color { red: 160, green: 150, blue: 140, alpha: 180 },
                })
        }),
{
    let m = minimap_marks(planets, player, enemies, debris);
    let np = planets.len() as int;
    let ne = enemies.len() as int;
    assert forall|i: int| 0 <= i < ne implies #[trigger] m[np + 1 + i] == enemy_stamp(enemies[i]) by {}
    assert forall|i: int| 0 <= i < debris.len() implies #[trigger] m[np + 1 + ne + i] == debris_stamp(debris[i]) by {}
}

/// No stamp of the list covers the pixel: nothing is drawn there.
proof fn lemma_last_cover_none(stamps: Seq<Stamp>, clip_w: u32, clip_h: u32, x: int, y: int)
    requires
        forall|j: int|
            0 <= j < stamps.len() ==> !stamp_covers(
                (#[trigger] stamps[j]).cx,
                stamps[j].cy,
                stamps[j].r,
                stamps[j].round,
                clip_w,
                clip_h,
                x,
                y,
            ),
    ensures
        last_cover(stamps, clip_w, clip_h, x, y) is None,
    decreases stamps.len(),
{
    if stamps.len() > 0 {
        lemma_last_cover_none(stamps.drop_last(), clip_w, clip_h, x, y);
    }
}

/// Some stamp of the list covers the pixel and every stamp that covers it
/// has colour `c`: the pixel ends up in `c`.
proof fn lemma_last_cover_uniform(stamps: Seq<Stamp>, clip_w: u32, clip_h: u32, x: int, y: int, c: Color, k: int)
    requires
        0 <= k < stamps.len(),
        stamp_covers(stamps[k].cx, stamps[k].cy, stamps[k].r, stamps[k].round, clip_w, clip_h, x, y),
        forall|j: int|
            0 <= j < stamps.len() && stamp_covers(
                (#[trigger] stamps[j]).cx,
                stamps[j].cy,
                stamps[j].r,
                stamps[j].round,
                clip_w,
                clip_h,
                x,
                y,
            ) ==> stamps[j].color == c,
    ensures
        last_cover(stamps, clip_w, clip_h, x, y) == Some(c),
    decreases stamps.len(),
{
    let s = stamps.last();
    if !stamp_covers(s.cx, s.cy, s.r, s.round, clip_w, clip_h, x, y) {
        let rest = stamps.drop_last();
        assert(rest[k] == stamps[k]);
        assert forall|j: int|
            0 <= j < rest.len() && stamp_covers(
                (#[trigger] rest[j]).cx,
                rest[j].cy,
                rest[j].r,
                rest[j].round,
                clip_w,
                clip_h,
                x,
                y,
            ) implies rest[j].color == c by {
            assert(rest[j] == stamps[j]);
        }
        lemma_last_cover_uniform(rest, clip_w, clip_h, x, y, c, k);
    }
}

/// A clip size that fits in 32 signed bits is taken as it is.
proof fn lemma_clip_as_signed(clip: u32)
    requires
        clip <= i32::MAX,
    ensures
        (#[verifier::truncate] (clip as i32)) == clip,
{
    assert((#[verifier::truncate] (clip as i32)) == clip) by (bit_vector)
        requires
            clip <= 0x7fff_ffffu32,
    ;
}

/// Every enemy shows on the minimap: each pixel of the 3x3 square around an
/// enemy that lies inside the clip rectangle and carries no debris dot is
/// painted in the enemy red, whatever planets, player or other enemies lie
/// beneath it.
pub proof fn law_minimap_shows_every_enemy(
    planets: Seq<PlanetMark>,
    player: (i32, i32),
    enemies: Seq<(i32, i32)>,
    debris: Seq<(i32, i32)>,
    clip_w: u32,
    clip_h: u32,
    i: int,
    x: int,
    y: int,
)
    requires
        0 <= i < enemies.len(),
        enemies[i].0 - 1 <= x <= enemies[i].0 + 1,
        enemies[i].1 - 1 <= y <= enemies[i].1 + 1,
        clip_w <= i32::MAX,
        clip_h <= i32::MAX,
        0 <= x < clip_w,
        0 <= y < clip_h,
        forall|j: int| 0 <= j < debris.len() ==> (#[trigger] debris[j]).0 != x || debris[j].1 != y,
    ensures
        last_cover(minimap_marks(planets, player, enemies, debris), clip_w, clip_h, x, y) == Some(
            Color { red: 255, green: 60, blue: 60, alpha: 255 },
        ),
{
    lemma_clip_as_signed(clip_w);
    lemma_clip_as_signed(clip_h);
    let front = planets.map_values(|p: PlanetMark| planet_stamp(p)) + seq![player_stamp(player)];
    let es = enemies.map_values(|e: (i32, i32)| enemy_stamp(e));
    let ds = debris.map_values(|d: (i32, i32)| debris_stamp(d));
    assert(minimap_marks(planets, player, enemies, debris) == front + es + ds);
    assert forall|j: int| 0 <= j < ds.len() implies !stamp_covers(
        (#[trigger] ds[j]).cx,
        ds[j].cy,
        ds[j].r,
        ds[j].round,
        clip_w,
        clip_h,
        x,
        y,
    ) by {
        assert(ds[j] == debris_stamp(debris[j]));
    }
    lemma_last_cover_none(ds, clip_w, clip_h, x, y);
    law_later_marks_on_top(front + es, ds, clip_w, clip_h, x, y);
    assert(es[i] == enemy_stamp(enemies[i]));
    lemma_last_cover_uniform(es, clip_w, clip_h, x, y, enemy_mark_color(), i);
    law_later_marks_on_top(front, es, clip_w, clip_h, x, y);
}

/// Every piece of debris shows on the minimap, on top of everything else:
/// its pixel, inside the clip rectangle, is painted in the debris grey.
pub proof fn law_minimap_shows_every_debris_dot(
    planets: Seq<PlanetMark>,
    player: (i32, i32),
    enemies: Seq<(i32, i32)>,
    debris: Seq<(i32, i32)>,
    clip_w: u32,
    clip_h: u32,
    i: int,
)
    requires
        0 <= i < debris.len(),
        clip_w <= i32::MAX,
        clip_h <= i32::MAX,
        0 <= debris[i].0 < clip_w,
        0 <= debris[i].1 < clip_h,
    ensures
        last_cover(minimap_marks(planets, player, enemies, debris), clip_w, clip_h, debris[i].0 as int, debris[i].1 as int)
            == Some(Color { red: 160, green: 150, blue: 140, alpha: 180 }),
{
    lemma_clip_as_signed(clip_w);
    lemma_clip_as_signed(clip_h);
    let x = debris[i].0 as int;
    let y = debris[i].1 as int;
    let front = planets.map_values(|p: PlanetMark| planet_stamp(p)) + seq![player_stamp(player)] + enemies.map_values(
        |e: (i32, i32)| enemy_stamp(e),
    );
    let ds = debris.map_values(|d: (i32, i32)| debris_stamp(d));
    assert(minimap_marks(planets, player, enemies, debris) == front + ds);
    assert(ds[i] == debris_stamp(debris[i]));
    assert forall|j: int|
        0 <= j < ds.len() && stamp_covers(
            (#[trigger] ds[j]).cx,
            ds[j].cy,
            ds[j].r,
            ds[j].round,
            clip_w,
            clip_h,
            x,
            y,
        ) implies ds[j].color == debris_mark_color() by {
        assert(ds[j] == debris_stamp(debris[j]));
    }
    lemma_last_cover_uniform(ds, clip_w, clip_h, x, y, debris_mark_color(), i);
    law_later_marks_on_top(front, ds, clip_w, clip_h, x, y);
}

} // verus!
