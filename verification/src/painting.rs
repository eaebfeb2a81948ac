//! Drawing a scene, as far as it is made of shapes; texts and moving lines are drawn by
//! whoever has a font and a clock.
use crate::graphics::{Brush, Canvas, Picture};
use crate::scenes::{centered_left, centered_start, Mark, Paint};
use vstd::prelude::*;

verus! {

/// The shape that a mark of a scene is, in a window of this size: the whole window, a
/// rectangle, a ring, or the logo, which is centered. The logo is left out when there
/// is none.
pub open spec fn shape_of<'a>(
    mark: Mark,
    width: u32,
    height: u32,
    logo: Option<&'a Picture>,
) -> Option<Brush<'a>> {
    match mark {
        Mark::Clear { color } => Some(Brush::Rectangle { left: 0, top: 0, width, height, color }),
        Mark::Rectangle { left, top, width, height, color } => Some(
            Brush::Rectangle { left, top, width, height, color },
        ),
        Mark::Logo { width: wide, top } => match logo {
            Some(picture) => Some(
                Brush::Image {
                    left: centered_start(0, width as int, wide as int) as u32,
                    top,
                    width: wide,
                    picture,
                },
            ),
            None => None,
        },
        Mark::Ring { x, y, inner, outer, color } => Some(Brush::Ring { x, y, inner, outer, color }),
        _ => None,
    }
}

/// The shape that a step of drawing a window is.
pub fn shape<'a>(paint: &Paint, width: u32, height: u32, logo: Option<&'a Picture>) -> (r: Option<
    Brush<'a>,
>)
    ensures
        r == shape_of(paint.mark(), width, height, logo),
{
    match paint {
        Paint::Clear { color } => Some(
            Brush::Rectangle { left: 0, top: 0, width, height, color: *color },
        ),
        Paint::Rectangle { left, top, width, height, color } => Some(
            Brush::Rectangle {
                left: *left,
                top: *top,
                width: *width,
                height: *height,
                color: *color,
            },
        ),
        Paint::Logo { width: wide, top } => match logo {
            Some(picture) => Some(
                Brush::Image {
                    left: centered_left(width, *wide),
                    top: *top,
                    width: *wide,
                    picture,
                },
            ),
            None => None,
        },
        Paint::Ring { x, y, inner, outer, color } => Some(
            Brush::Ring { x: *x, y: *y, inner: *inner, outer: *outer, color: *color },
        ),
        _ => None,
    }
}

/// What a mark makes of a pixel: only shapes make anything of it.
pub open spec fn shaded(
    mark: Mark,
    width: u32,
    height: u32,
    logo: Option<&Picture>,
    x: int,
    y: int,
    under: u32,
) -> u32 {
    match shape_of(mark, width, height, logo) {
        Some(brush) => brush.painted(x, y, under),
        None => under,
    }
}

/// Draws a step that is a shape; any other step changes nothing.
pub fn paint_shape(canvas: &mut Canvas, paint: &Paint, logo: Option<&Picture>)
    requires
        old(canvas).is_sound(),
        logo matches Some(picture) ==> picture.is_sound(),
    ensures
        final(canvas).is_sound(),
        final(canvas).width == old(canvas).width,
        final(canvas).height == old(canvas).height,
        forall|x: int, y: int| #[trigger]
            final(canvas).has(x, y) ==> final(canvas).at(x, y) == shaded(
                paint.mark(),
                old(canvas).width,
                old(canvas).height,
                logo,
                x,
                y,
                old(canvas).at(x, y),
            ),
{
    match shape(paint, canvas.width, canvas.height, logo) {
        Some(brush) => canvas.draw(&brush),
        None => {},
    }
}

/// A window that is cleared has one color.
pub proof fn law_cleared_window_has_one_color(
    color: u32,
    width: u32,
    height: u32,
    logo: Option<&Picture>,
    x: int,
    y: int,
    under: u32,
)
    requires
        0 <= x < width,
        0 <= y < height,
    ensures
        shaded(Mark::Clear { color }, width, height, logo, x, y, under) == color,
{
}

} // verus!
