//! Drawing into a window's pixels.
use vstd::prelude::*;

verus! {

/// The pixels of a window, row by row, as `0x00RRGGBB`.
pub struct Canvas {
    pub width: u32,
    pub height: u32,
    pub pixels: Vec<u32>,
}

/// One character, drawn: how much of each pixel it covers.
pub struct Glyph {
    pub width: u32,
    pub height: u32,
    pub coverage: Vec<u8>,
}

/// An image: red, green, blue and opacity of each pixel, row by row.
pub struct Picture {
    pub width: u32,
    pub height: u32,
    pub rgba: Vec<u8>,
}

/// What `image::load_from_memory` makes of a file: width, height and the four
/// components of each pixel.
pub uninterp spec fn decoded_image(file: Seq<u8>) -> Option<(u32, u32, Seq<u8>)>;

/// `image::load_from_memory` and `DynamicImage::to_rgba8`. The result depends on the
/// file alone; it has four components for each pixel.
#[verifier::external_body]
fn decode_image(file: &[u8]) -> (r: Option<Picture>)
    ensures
        match r {
            Some(picture) => decoded_image(file@) == Some(
                (picture.width, picture.height, picture.rgba@),
            ) && picture.rgba@.len() == 4 * (picture.width * picture.height),
            None => decoded_image(file@) is None,
        },
{
    let image = image::load_from_memory(file).ok()?.to_rgba8();
    Some(Picture { width: image.width(), height: image.height(), rgba: image.into_raw() })
}

/// A component of a color: red at 65536, green at 256, blue at 1.
pub open spec fn component(color: u32, unit: int) -> int {
    color as int / unit % 256
}

/// A component laid over another one.
pub open spec fn mixed(over: int, under: int, opacity: int) -> int {
    (over * opacity + under * (255 - opacity)) / 255
}

/// A color laid over another one. Nothing changes where it is fully transparent.
pub open spec fn laid_over(red: int, green: int, blue: int, opacity: int, under: u32) -> u32 {
    if opacity == 0 {
        under
    } else {
        (mixed(red, component(under, 65536), opacity) * 65536 + mixed(
            green,
            component(under, 256),
            opacity,
        ) * 256 + mixed(blue, component(under, 1), opacity)) as u32
    }
}

fn mix(over: u8, under: u8, opacity: u8) -> (r: u32)
    ensures
        r == mixed(over as int, under as int, opacity as int),
        r <= 255,
{
    let a: u32 = over as u32;
    let b: u32 = under as u32;
    let o: u32 = opacity as u32;
    assert(0 <= a * o <= 255 * o) by (nonlinear_arith)
        requires
            0 <= a <= 255,
            0 <= o <= 255,
    ;
    assert(0 <= b * (255 - o) <= 255 * (255 - o)) by (nonlinear_arith)
        requires
            0 <= b <= 255,
            0 <= o <= 255,
    ;
    (a * o + b * (255 - o)) / 255
}

/// Lays a color over another one.
pub fn lay_over(red: u8, green: u8, blue: u8, opacity: u8, under: u32) -> (r: u32)
    ensures
        r == laid_over(red as int, green as int, blue as int, opacity as int, under),
{
    if opacity == 0 {
        return under;
    }
    mix(red, (under / 65536 % 256) as u8, opacity) * 65536 + mix(
        green,
        (under / 256 % 256) as u8,
        opacity,
    ) * 256 + mix(blue, (under % 256) as u8, opacity)
}

/// A color that is fully opaque hides what it is laid over, and the result of laying
/// over is a color again.
pub proof fn law_opaque_color_hides(red: u8, green: u8, blue: u8, under: u32)
    ensures
        laid_over(red as int, green as int, blue as int, 255, under) == red * 65536 + green * 256
            + blue,
{
    assert(mixed(red as int, component(under, 65536), 255) == red) by {
        assert(component(under, 65536) * 0 == 0) by (nonlinear_arith);
    }
    assert(mixed(green as int, component(under, 256), 255) == green) by {
        assert(component(under, 256) * 0 == 0) by (nonlinear_arith);
    }
    assert(mixed(blue as int, component(under, 1), 255) == blue) by {
        assert(component(under, 1) * 0 == 0) by (nonlinear_arith);
    }
}

impl Glyph {
    pub open spec fn is_sound(self) -> bool {
        self.coverage@.len() == self.width * self.height
    }

    /// How much of a pixel is covered.
    pub open spec fn at(self, column: int, row: int) -> u8 {
        self.coverage@[row * self.width + column]
    }

    /// A drawn character; there must be one number for each of its pixels.
    pub fn new(width: u32, height: u32, coverage: Vec<u8>) -> (r: Option<Glyph>)
        ensures
            match r {
                Some(glyph) => glyph.is_sound() && glyph.width == width && glyph.height == height
                    && glyph.coverage == coverage,
                None => coverage@.len() != width * height,
            },
    {
        assert(0 <= width * height <= 0xffff_ffff * 0xffff_ffff) by (nonlinear_arith)
            requires
                0 <= width <= 0xffff_ffff,
                0 <= height <= 0xffff_ffff,
        ;
        if coverage.len() as u64 != width as u64 * height as u64 {
            return None;
        }
        Some(Glyph { width, height, coverage })
    }
}

impl Picture {
    pub open spec fn is_sound(self) -> bool {
        &&& self.width > 0
        &&& self.height > 0
        &&& self.rgba@.len() == 4 * (self.width * self.height)
    }

    /// A component of a pixel.
    pub open spec fn at(self, column: int, row: int, channel: int) -> int {
        self.rgba@[4 * (row * self.width + column) + channel] as int
    }

    /// The height of the picture when it is drawn with a width.
    pub open spec fn scaled_height(self, width: u32) -> int {
        width * self.height / self.width as int
    }
}

/// The image that a file holds. A picture without pixels counts as none.
pub fn load_picture(file: &[u8]) -> (r: Option<Picture>)
    ensures
        match r {
            Some(picture) => picture.is_sound() && decoded_image(file@) == Some(
                (picture.width, picture.height, picture.rgba@),
            ),
            None => decoded_image(file@) is None || (decoded_image(file@)->0).0 == 0 || (
            decoded_image(file@)->0).1 == 0,
        },
{
    match decode_image(file) {
        Some(picture) => if picture.width > 0 && picture.height > 0 {
            Some(picture)
        } else {
            None
        },
        None => None,
    }
}

/// Something to draw, and where.
pub enum Brush<'a> {
    Rectangle { left: u32, top: u32, width: u32, height: u32, color: u32 },
    /// The points around a center that are further than `inner` and nearer than
    /// `outer`.
    Ring { x: i32, y: i32, inner: u16, outer: u16, color: u32 },
    /// The square of points that are at most `radius` away in both directions.
    Dot { x: i32, y: i32, radius: u16, color: u32 },
    Character { x: i32, y: i32, glyph: &'a Glyph, color: u32 },
    /// The picture, scaled to a width.
    Image { left: u32, top: u32, width: u32, picture: &'a Picture },
}

/// A number squared.
pub open spec fn square(n: int) -> int {
    n * n
}

impl<'a> Brush<'a> {
    pub open spec fn is_sound(self) -> bool {
        match self {
            Brush::Character { glyph, .. } => glyph.is_sound(),
            Brush::Image { picture, .. } => picture.is_sound(),
            _ => true,
        }
    }

    /// The brush may change the pixel.
    pub open spec fn touches(self, x: int, y: int) -> bool {
        match self {
            Brush::Rectangle { left, top, width, height, .. } => left <= x < left + width && top <= y
                < top + height,
            Brush::Ring { x: cx, y: cy, inner, outer, .. } => cx - outer < x < cx + outer && cy
                - outer < y < cy + outer && square(inner as int) < square(x - cx) + square(y - cy)
                < square(outer as int),
            Brush::Dot { x: cx, y: cy, radius, .. } => cx - radius <= x <= cx + radius && cy - radius
                <= y <= cy + radius,
            Brush::Character { x: left, y: top, glyph, .. } => left <= x < left + glyph.width && top
                <= y < top + glyph.height,
            Brush::Image { left, top, width, picture } => left <= x < left + width && top <= y < top
                + picture.scaled_height(width),
        }
    }

    /// What becomes of a pixel.
    pub open spec fn painted(self, x: int, y: int, under: u32) -> u32 {
        if !self.touches(x, y) {
            under
        } else {
            match self {
                Brush::Rectangle { color, .. } => color,
                Brush::Ring { color, .. } => color,
                Brush::Dot { color, .. } => color,
                Brush::Character { x: left, y: top, glyph, color } => laid_over(
                    component(color, 65536),
                    component(color, 256),
                    component(color, 1),
                    glyph.at(x - left, y - top) as int,
                    under,
                ),
                Brush::Image { left, top, width, picture } => {
                    let column = (x - left) * picture.width / width as int;
                    let row = (y - top) * picture.height / picture.scaled_height(width);
                    laid_over(
                        picture.at(column, row, 0),
                        picture.at(column, row, 1),
                        picture.at(column, row, 2),
                        picture.at(column, row, 3),
                        under,
                    )
                },
            }
        }
    }
}

/// A place in a grid has a place of its own in the list of its rows.
proof fn lemma_grid_place(x: int, y: int, width: int, height: int)
    requires
        0 <= x < width,
        0 <= y < height,
    ensures
        0 <= y * width + x < width * height,
{
    assert(0 <= y * width) by (nonlinear_arith)
        requires
            0 <= y,
            0 <= width,
    ;
    assert(y * width + width <= width * height) by (nonlinear_arith)
        requires
            y + 1 <= height,
            0 <= width,
    ;
}

proof fn lemma_grid_places_differ(x: int, y: int, other_x: int, other_y: int, width: int)
    requires
        0 <= x < width,
        0 <= other_x < width,
        y * width + x == other_y * width + other_x,
    ensures
        x == other_x,
        y == other_y,
{
    if y < other_y {
        assert(y * width + width <= other_y * width) by (nonlinear_arith)
            requires
                y + 1 <= other_y,
                0 <= width,
        ;
    } else if other_y < y {
        assert(other_y * width + width <= y * width) by (nonlinear_arith)
            requires
                other_y + 1 <= y,
                0 <= width,
        ;
    }
}

/// Scaling keeps a place within the picture.
proof fn lemma_scaled_place(place: int, from: int, to: int)
    requires
        0 <= place < to,
        0 < from,
    ensures
        0 <= place * from / to < from,
{
    assert(0 <= place * from < to * from) by (nonlinear_arith)
        requires
            0 <= place < to,
            0 < from,
    ;
    assert(0 <= (place * from) / to < from) by (nonlinear_arith)
        requires
            0 <= place * from < to * from,
            0 < to,
            0 < from,
    ;
}

/// The place of a pixel in a list of `count` pixels.
fn grid_place(x: u32, y: u32, width: u32, height: u32, count: usize) -> (r: usize)
    requires
        x < width,
        y < height,
        count == width * height,
    ensures
        r == y * width + x,
        r < count,
{
    proof {
        lemma_grid_place(x as int, y as int, width as int, height as int);
        assert(0 <= y * width) by (nonlinear_arith)
            requires
                0 <= y,
                0 <= width,
        ;
    }
    y as usize * width as usize + x as usize
}

impl Glyph {
    fn get(&self, column: u32, row: u32) -> (r: u8)
        requires
            self.is_sound(),
            column < self.width,
            row < self.height,
        ensures
            r == self.at(column as int, row as int),
    {
        self.coverage[grid_place(column, row, self.width, self.height, self.coverage.len())]
    }
}

impl Picture {
    fn get(&self, column: u32, row: u32) -> (r: (u8, u8, u8, u8))
        requires
            self.is_sound(),
            column < self.width,
            row < self.height,
        ensures
            r.0 == self.at(column as int, row as int, 0),
            r.1 == self.at(column as int, row as int, 1),
            r.2 == self.at(column as int, row as int, 2),
            r.3 == self.at(column as int, row as int, 3),
    {
        let count: usize = self.rgba.len() / 4;
        let start: usize = 4 * grid_place(column, row, self.width, self.height, count);
        (self.rgba[start], self.rgba[start + 1], self.rgba[start + 2], self.rgba[start + 3])
    }

    /// The height of the picture when it is drawn with a width.
    pub fn height_at(&self, width: u32) -> (r: u64)
        requires
            self.is_sound(),
        ensures
            r == self.scaled_height(width),
    {
        assert(0 <= width * self.height <= 0xffff_ffff * 0xffff_ffff) by (nonlinear_arith)
            requires
                0 <= width <= 0xffff_ffff,
                0 <= self.height <= 0xffff_ffff,
        ;
        (width as u64 * self.height as u64) / self.width as u64
    }
}

/// A part of a window: from the first column and row up to, and without, the last.
#[derive(Clone, Copy)]
struct Region {
    left: u32,
    right: u32,
    top: u32,
    bottom: u32,
}

/// A number cut down to what a window can have.
fn cut(n: i64, limit: u32) -> (r: u32)
    ensures
        r == (if n < 0 {
            0
        } else if n > limit {
            limit as int
        } else {
            n as int
        }),
{
    if n < 0 {
        0
    } else if n > limit as i64 {
        limit
    } else {
        n as u32
    }
}

impl<'a> Brush<'a> {
    /// The part of a window that the brush may change.
    fn region(&self, width: u32, height: u32) -> (r: Region)
        requires
            self.is_sound(),
        ensures
            r.left <= r.right <= width || r.left > r.right,
            r.right <= width,
            r.bottom <= height,
            forall|x: int, y: int|
                0 <= x < width && 0 <= y < height && #[trigger] self.touches(x, y) ==> r.left <= x
                    < r.right && r.top <= y < r.bottom,
    {
        match self {
            Brush::Rectangle { left, top, width: w, height: h, .. } => Region {
                left: *left,
                right: cut(*left as i64 + *w as i64, width),
                top: *top,
                bottom: cut(*top as i64 + *h as i64, height),
            },
            Brush::Ring { x, y, outer, .. } => Region {
                left: cut(*x as i64 - *outer as i64, width),
                right: cut(*x as i64 + *outer as i64, width),
                top: cut(*y as i64 - *outer as i64, height),
                bottom: cut(*y as i64 + *outer as i64, height),
            },
            Brush::Dot { x, y, radius, .. } => Region {
                left: cut(*x as i64 - *radius as i64, width),
                right: cut(*x as i64 + *radius as i64 + 1, width),
                top: cut(*y as i64 - *radius as i64, height),
                bottom: cut(*y as i64 + *radius as i64 + 1, height),
            },
            Brush::Character { x: left, y: top, glyph, .. } => Region {
                left: cut(*left as i64, width),
                right: cut(*left as i64 + glyph.width as i64, width),
                top: cut(*top as i64, height),
                bottom: cut(*top as i64 + glyph.height as i64, height),
            },
            Brush::Image { left, top, width: w, picture } => {
                let tall = picture.height_at(*w);
                let bottom: u32 = if *top >= height || tall > (height - *top) as u64 {
                    height
                } else {
                    *top + tall as u32
                };
                Region { left: *left, right: cut(*left as i64 + *w as i64, width), top: *top, bottom }
            },
        }
    }

    fn touch(&self, x: u32, y: u32) -> (r: bool)
        requires
            self.is_sound(),
        ensures
            r == self.touches(x as int, y as int),
    {
        let px = x as i64;
        let py = y as i64;
        match self {
            Brush::Rectangle { left, top, width, height, .. } => *left as i64 <= px && px < *left as i64
                + *width as i64 && *top as i64 <= py && py < *top as i64 + *height as i64,
            Brush::Ring { x: cx, y: cy, inner, outer, .. } => {
                let far = *outer as i64;
                let near = *inner as i64;
                let dx = px - *cx as i64;
                let dy = py - *cy as i64;
                if !(-far < dx && dx < far && -far < dy && dy < far) {
                    return false;
                }
                assert(0 <= dx * dx <= 65535 * 65535) by (nonlinear_arith)
                    requires
                        -65535 <= dx <= 65535,
                ;
                assert(0 <= dy * dy <= 65535 * 65535) by (nonlinear_arith)
                    requires
                        -65535 <= dy <= 65535,
                ;
                assert(0 <= far * far <= 65535 * 65535) by (nonlinear_arith)
                    requires
                        0 <= far <= 65535,
                ;
                assert(0 <= near * near <= 65535 * 65535) by (nonlinear_arith)
                    requires
                        0 <= near <= 65535,
                ;
                let distance = dx * dx + dy * dy;
                near * near < distance && distance < far * far
            },
            Brush::Dot { x: cx, y: cy, radius, .. } => *cx as i64 - *radius as i64 <= px && px <= *cx as i64
                + *radius as i64 && *cy as i64 - *radius as i64 <= py && py <= *cy as i64
                + *radius as i64,
            Brush::Character { x: left, y: top, glyph, .. } => *left as i64 <= px && px < *left as i64
                + glyph.width as i64 && *top as i64 <= py && py < *top as i64 + glyph.height as i64,
            Brush::Image { left, top, width, picture } => *left as i64 <= px && px < *left as i64
                + *width as i64 && *top <= y && ((y - *top) as u64) < picture.height_at(*width),
        }
    }

    fn paint(&self, x: u32, y: u32, under: u32) -> (r: u32)
        requires
            self.is_sound(),
        ensures
            r == self.painted(x as int, y as int, under),
    {
        if !self.touch(x, y) {
            return under;
        }
        match self {
            Brush::Rectangle { color, .. } => *color,
            Brush::Ring { color, .. } => *color,
            Brush::Dot { color, .. } => *color,
            Brush::Character { x: left, y: top, glyph, color } => {
                let column = (x as i64 - *left as i64) as u32;
                let row = (y as i64 - *top as i64) as u32;
                lay_over(
                    (*color / 65536 % 256) as u8,
                    (*color / 256 % 256) as u8,
                    (*color % 256) as u8,
                    glyph.get(column, row),
                    under,
                )
            },
            Brush::Image { left, top, width, picture } => {
                let tall = picture.height_at(*width);
                let across: u32 = x - *left;
                let down: u32 = y - *top;
                proof {
                    lemma_scaled_place(across as int, picture.width as int, *width as int);
                    lemma_scaled_place(down as int, picture.height as int, tall as int);
                    assert(0 <= across * picture.width <= 0xffff_ffff * 0xffff_ffff) by (nonlinear_arith)
                        requires
                            0 <= across <= 0xffff_ffff,
                            0 <= picture.width <= 0xffff_ffff,
                    ;
                    assert(0 <= down * picture.height <= 0xffff_ffff * 0xffff_ffff) by (nonlinear_arith)
                        requires
                            0 <= down <= 0xffff_ffff,
                            0 <= picture.height <= 0xffff_ffff,
                    ;
                }
                let column = (across as u64 * picture.width as u64 / *width as u64) as u32;
                let row = (down as u64 * picture.height as u64 / tall) as u32;
                let pixel = picture.get(column, row);
                lay_over(pixel.0, pixel.1, pixel.2, pixel.3, under)
            },
        }
    }
}

impl Canvas {
    pub open spec fn is_sound(self) -> bool {
        self.pixels@.len() == self.width * self.height
    }

    /// The color of a pixel.
    pub open spec fn at(self, x: int, y: int) -> u32 {
        self.pixels@[y * self.width + x]
    }

    /// The pixel lies within the window.
    pub open spec fn has(self, x: int, y: int) -> bool {
        0 <= x < self.width && 0 <= y < self.height
    }

    /// A window of one color.
    pub fn new(width: u32, height: u32, color: u32) -> (r: Canvas)
        requires
            width * height <= usize::MAX,
        ensures
            r.is_sound(),
            r.width == width,
            r.height == height,
            forall|x: int, y: int| #[trigger] r.has(x, y) ==> r.at(x, y) == color,
    {
        let mut pixels: Vec<u32> = Vec::new();
        assert(0 <= width * height) by (nonlinear_arith)
            requires
                0 <= width,
                0 <= height,
        ;
        let count: usize = width as usize * height as usize;
        let mut i: usize = 0;
        while i < count
            invariant
                i <= count,
                pixels@.len() == i,
                forall|k: int| 0 <= k < i ==> pixels@[k] == color,
            decreases count - i,
        {
            pixels.push(color);
            i = i + 1;
        }
        let r = Canvas { width, height, pixels };
        assert forall|x: int, y: int| #[trigger] r.has(x, y) implies r.at(x, y) == color by {
            lemma_grid_place(x, y, width as int, height as int);
        }
        r
    }

    fn put(&mut self, x: u32, y: u32, color: u32)
        requires
            old(self).is_sound(),
            old(self).has(x as int, y as int),
        ensures
            final(self).is_sound(),
            final(self).width == old(self).width,
            final(self).height == old(self).height,
            forall|px: int, py: int| #[trigger]
                final(self).has(px, py) ==> final(self).at(px, py) == if px == x && py == y {
                    color
                } else {
                    old(self).at(px, py)
                },
    {
        let place = grid_place(x, y, self.width, self.height, self.pixels.len());
        self.pixels.set(place, color);
        assert forall|px: int, py: int| #[trigger] self.has(px, py) implies self.at(px, py) == if px
            == x && py == y {
            color
        } else {
            old(self).at(px, py)
        } by {
            lemma_grid_place(px, py, self.width as int, self.height as int);
            if py * self.width + px == place {
                lemma_grid_places_differ(px, py, x as int, y as int, self.width as int);
            }
        }
    }

    fn pixel(&self, x: u32, y: u32) -> (r: u32)
        requires
            self.is_sound(),
            self.has(x as int, y as int),
        ensures
            r == self.at(x as int, y as int),
    {
        self.pixels[grid_place(x, y, self.width, self.height, self.pixels.len())]
    }

    /// Draws something: every pixel of the window becomes what the brush makes of it,
    /// and what lies outside of the window is left out.
    pub fn draw(&mut self, brush: &Brush)
        requires
            old(self).is_sound(),
            brush.is_sound(),
        ensures
            final(self).is_sound(),
            final(self).width == old(self).width,
            final(self).height == old(self).height,
            forall|x: int, y: int| #[trigger]
                final(self).has(x, y) ==> final(self).at(x, y) == brush.painted(
                    x,
                    y,
                    old(self).at(x, y),
                ),
    {
        let ghost before = *self;
        let region = brush.region(self.width, self.height);
        let mut y: u32 = region.top;
        while y < region.bottom
            invariant
                brush.is_sound(),
                self.is_sound(),
                self.width == before.width,
                self.height == before.height,
                region.right <= self.width,
                region.bottom <= self.height,
                region.top <= y,
                y <= region.bottom || y == region.top,
                forall|px: int, py: int| #[trigger]
                    self.has(px, py) ==> self.at(px, py) == if py < y && region.top <= py
                        && region.left <= px < region.right {
                        brush.painted(px, py, before.at(px, py))
                    } else {
                        before.at(px, py)
                    },
            decreases region.bottom - y,
        {
            let mut x: u32 = region.left;
            while x < region.right
                invariant
                    brush.is_sound(),
                    self.is_sound(),
                    self.width == before.width,
                    self.height == before.height,
                    region.right <= self.width,
                    region.bottom <= self.height,
                    region.top <= y < region.bottom,
                    region.left <= x,
                    x <= region.right || x == region.left,
                    forall|px: int, py: int| #[trigger]
                        self.has(px, py) ==> self.at(px, py) == if region.top <= py
                            && region.left <= px < region.right && (py < y || (py == y && px < x)) {
                            brush.painted(px, py, before.at(px, py))
                        } else {
                            before.at(px, py)
                        },
                decreases region.right - x,
            {
                assert(self.has(x as int, y as int));
                let under = self.pixel(x, y);
                let color = brush.paint(x, y, under);
                let ghost prior = *self;
                self.put(x, y, color);
                assert forall|px: int, py: int| #[trigger] self.has(px, py) implies self.at(px, py)
                    == if region.top <= py && region.left <= px < region.right && (py < y || (py == y
                    && px < x + 1)) {
                    brush.painted(px, py, before.at(px, py))
                } else {
                    before.at(px, py)
                } by {
                    assert(prior.has(px, py));
                }
                x = x + 1;
            }
            y = y + 1;
        }
        assert forall|px: int, py: int| #[trigger] self.has(px, py) implies self.at(px, py)
            == brush.painted(px, py, before.at(px, py)) by {
            if brush.touches(px, py) {
                assert(region.left <= px < region.right);
            }
        }
    }
}

/// Drawing changes nothing that the brush does not touch.
pub proof fn law_drawing_stays_within_the_brush(brush: Brush, x: int, y: int, under: u32)
    requires
        !brush.touches(x, y),
    ensures
        brush.painted(x, y, under) == under,
{
}

} // verus!
