//! What the windows show, and where the player can press.
use crate::graphics::{component, laid_over, mixed, square, Brush, Glyph, Picture};
use crate::painting::shape_of;
use crate::scenes::{
    button_color, centered_start, error_scene, glow_color, loading_scene, splash_scene,
    success_scene, welcome_scene, Mark, Size,
};
use crate::text::decimal_text;
use crate::windows::{SetupAction, SetupInput, SetupStage, SetupWindow};
use vstd::prelude::*;

verus! {

/// A color is made of its three components, each of which is less than 256.
pub proof fn law_colors_have_components(color: u32)
    requires
        color < 0x100_0000,
    ensures
        color == component(color, 65536) * 65536 + component(color, 256) * 256 + component(
            color,
            1,
        ),
        0 <= component(color, 65536) < 256,
        0 <= component(color, 256) < 256,
        0 <= component(color, 1) < 256,
{
}

proof fn lemma_mixed(over: int, under: int, opacity: int)
    requires
        0 <= over < 256,
        0 <= under < 256,
        0 <= opacity <= 255,
    ensures
        0 <= mixed(over, under, opacity) < 256,
        over <= under ==> over <= mixed(over, under, opacity) <= under,
        under <= over ==> under <= mixed(over, under, opacity) <= over,
{
    let sum = over * opacity + under * (255 - opacity);
    assert(over <= under ==> 255 * over <= sum <= 255 * under) by (nonlinear_arith)
        requires
            sum == over * opacity + under * (255 - opacity),
            0 <= opacity <= 255,
    ;
    assert(under <= over ==> 255 * under <= sum <= 255 * over) by (nonlinear_arith)
        requires
            sum == over * opacity + under * (255 - opacity),
            0 <= opacity <= 255,
    ;
}

/// Each component is mixed by itself, in the measure of the opacity, and lies between
/// the two that are mixed.
pub proof fn law_components_are_mixed(red: int, green: int, blue: int, opacity: int, under: u32)
    requires
        0 <= red < 256,
        0 <= green < 256,
        0 <= blue < 256,
        0 < opacity <= 255,
        under < 0x100_0000,
    ensures
        ({
            let color = laid_over(red, green, blue, opacity, under);
            &&& color < 0x100_0000
            &&& component(color, 65536) == (red * opacity + component(under, 65536) * (255
                - opacity)) / 255
            &&& component(color, 256) == (green * opacity + component(under, 256) * (255 - opacity))
                / 255
            &&& component(color, 1) == (blue * opacity + component(under, 1) * (255 - opacity))
                / 255
        }),
{
    law_colors_have_components(under);
    lemma_mixed(red, component(under, 65536), opacity);
    lemma_mixed(green, component(under, 256), opacity);
    lemma_mixed(blue, component(under, 1), opacity);
}

/// A color laid over itself stays, however opaque it is; a transparent one changes
/// nothing.
pub proof fn law_color_over_itself_stays(red: int, green: int, blue: int, opacity: int, color: u32)
    requires
        0 <= opacity <= 255,
        color < 0x100_0000,
    ensures
        laid_over(
            component(color, 65536),
            component(color, 256),
            component(color, 1),
            opacity,
            color,
        ) == color,
        laid_over(red, green, blue, 0, color) == color,
{
    law_colors_have_components(color);
    lemma_mixed(component(color, 65536), component(color, 65536), opacity);
    lemma_mixed(component(color, 256), component(color, 256), opacity);
    lemma_mixed(component(color, 1), component(color, 1), opacity);
}

/// What is centered has as much room on one side as on the other, but for one pixel; and
/// it starts at the edge when it does not fit.
pub proof fn law_centered_things_are_in_the_middle(from: int, to: int, size: int)
    ensures
        to - from >= size ==> 0 <= (to - (centered_start(from, to, size) + size)) - (centered_start(
            from,
            to,
            size,
        ) - from) <= 1,
        to - from < size ==> centered_start(from, to, size) == from,
{
}

/// A rectangle covers as many columns and rows as it is wide and high.
pub proof fn law_rectangles(
    left: u32,
    top: u32,
    width: u32,
    height: u32,
    color: u32,
    i: int,
    j: int,
    under: u32,
)
    ensures
        ({
            let brush = Brush::Rectangle { left, top, width, height, color };
            brush.painted(left + i, top + j, under) == (if 0 <= i < width && 0 <= j < height {
                color
            } else {
                under
            })
        }),
{
}

/// A ring is round: it covers the points whose distance from its center lies between its
/// two radii.
pub proof fn law_rings(
    x: i32,
    y: i32,
    inner: u16,
    outer: u16,
    color: u32,
    i: int,
    j: int,
    under: u32,
)
    ensures
        ({
            let brush = Brush::Ring { x, y, inner, outer, color };
            brush.painted(x + i, y + j, under) == (if inner * inner < i * i + j * j < outer * outer {
                color
            } else {
                under
            })
        }),
{
    if square(i) + square(j) < square(outer as int) {
        assert(-outer < i < outer && -outer < j < outer) by (nonlinear_arith)
            requires
                i * i + j * j < outer * outer,
        ;
    }
}

/// A dot covers the points that are at most its radius away in both directions.
pub proof fn law_dots(x: i32, y: i32, radius: u16, color: u32, i: int, j: int, under: u32)
    ensures
        ({
            let brush = Brush::Dot { x, y, radius, color };
            brush.painted(x + i, y + j, under) == (if -radius <= i <= radius && -radius <= j
                <= radius {
                color
            } else {
                under
            })
        }),
{
}

/// A picture that is drawn at its own width shows each of its pixels once, at its place.
pub proof fn law_pictures_keep_their_pixels(
    picture: &Picture,
    left: u32,
    top: u32,
    column: int,
    row: int,
    under: u32,
)
    requires
        picture.is_sound(),
        0 <= column < picture.width,
        0 <= row < picture.height,
    ensures
        ({
            let brush = Brush::Image { left, top, width: picture.width, picture };
            &&& picture.scaled_height(picture.width) == picture.height
            &&& brush.painted(left + column, top + row, under) == laid_over(
                picture.at(column, row, 0),
                picture.at(column, row, 1),
                picture.at(column, row, 2),
                picture.at(column, row, 3),
                under,
            )
        }),
{
    let width = picture.width as int;
    let height = picture.height as int;
    vstd::arithmetic::div_mod::lemma_div_multiples_vanish(height, width);
    vstd::arithmetic::div_mod::lemma_div_multiples_vanish(column, width);
    vstd::arithmetic::div_mod::lemma_div_multiples_vanish(row, height);
    vstd::arithmetic::mul::lemma_mul_is_commutative(column, width);
    vstd::arithmetic::mul::lemma_mul_is_commutative(row, height);
}

/// The button of a page.
pub open spec fn is_button(mark: Mark, hovering: bool) -> bool {
    mark matches Mark::Rectangle { color, height, .. } && height > 5 && color == button_color(
        hovering,
    )
}

/// The pointer is on the button of the first page exactly where it is drawn.
pub proof fn law_button_is_where_it_is_drawn(has_logo: bool, hovering: bool, x: i64, y: i64)
    ensures
        ({
            let scene = welcome_scene(has_logo, hovering);
            exists|k: int|
                0 <= k < scene.len() && is_button(#[trigger] scene[k], hovering) && shape_of(
                    scene[k],
                    760,
                    560,
                    None,
                ) is Some && (SetupStage::Welcome.is_hovered(Some((x, y))) <==> shape_of(
                    scene[k],
                    760,
                    560,
                    None,
                )->0.touches(x as int, y as int))
        }),
{
    let scene = welcome_scene(has_logo, hovering);
    assert(is_button(scene[8], hovering));
}

/// The pointer is on the button of the last page exactly where it is drawn once it is
/// there.
pub proof fn law_last_button_is_where_it_is_drawn(
    has_logo: bool,
    hovering: bool,
    started: u64,
    elapsed: u64,
    glow: u8,
    x: i64,
    y: i64,
)
    requires
        elapsed >= 749_999_968,
    ensures
        ({
            let scene = success_scene(has_logo, elapsed, hovering, glow);
            let button = scene[scene.len() - 2];
            &&& scene.len() >= 2
            &&& is_button(button, hovering)
            &&& shape_of(button, 760, 560, None) is Some
            &&& SetupStage::Success { started }.is_hovered(Some((x, y))) <==> shape_of(
                button,
                760,
                560,
                None,
            )->0.touches(x as int, y as int)
        }),
{
}

/// The last page comes up piece by piece: what was there stays, and the headline, the
/// texts and the button come when their time has come.
pub proof fn law_last_page_comes_up(
    has_logo: bool,
    earlier: u64,
    later: u64,
    hovering: bool,
    glow: u8,
)
    requires
        earlier <= later,
    ensures
        ({
            let before = success_scene(has_logo, earlier, hovering, glow);
            let after = success_scene(has_logo, later, hovering, glow);
            let base = success_scene(has_logo, 0, hovering, glow).len();
            &&& before.is_prefix_of(after)
            &&& after.len() == base + (if later >= 349_999_984 {
                1int
            } else {
                0
            }) + (if later >= 549_999_968 {
                2int
            } else {
                0
            }) + (if later >= 749_999_968 {
                2int
            } else {
                0
            })
            &&& later >= 349_999_984 ==> after[base as int] == (Mark::Centered {
                top: 306,
                text: "Setup complete"@,
                size: Size::Large,
                color: 0x00f2_f5f7,
            })
        }),
{
    let before = success_scene(has_logo, earlier, hovering, glow);
    let after = success_scene(has_logo, later, hovering, glow);
    assert(before =~= after.subrange(0, before.len() as int));
}

/// The first page says what to choose, from top to bottom, and what the keys do.
pub proof fn law_first_page_says_what_to_do(has_logo: bool, hovering: bool)
    ensures
        welcome_scene(has_logo, hovering).contains(
            Mark::Centered {
                top: 198,
                text: "Launcher setup"@,
                size: Size::Medium,
                color: 0x00c4_f66c,
            },
        ),
        welcome_scene(has_logo, hovering).contains(
            Mark::Centered {
                top: 244,
                text: "Choose your DivineKnockout.exe"@,
                size: Size::Medium,
                color: 0x00dc_e2e7,
            },
        ),
        welcome_scene(has_logo, hovering).contains(
            Mark::Centered {
                top: 284,
                text: "Select it from your Divine Knockout game folder."@,
                size: Size::Small,
                color: 0x00c4_f66c,
            },
        ),
        welcome_scene(has_logo, hovering).contains(
            Mark::Centered {
                top: 323,
                text: "We'll verify your game files and finish"@,
                size: Size::Small,
                color: 0x008f_9aa5,
            },
        ),
        welcome_scene(has_logo, hovering).contains(
            Mark::Centered {
                top: 342,
                text: "setting up the launcher for you."@,
                size: Size::Small,
                color: 0x008f_9aa5,
            },
        ),
        welcome_scene(has_logo, hovering).contains(
            Mark::Centered {
                top: 425,
                text: "Open"@,
                size: Size::Medium,
                color: 0x000b_0e08,
            },
        ),
        welcome_scene(has_logo, hovering).contains(
            Mark::Centered {
                top: 520,
                text: "Press Enter to continue"@,
                size: Size::Small,
                color: 0x005f_6974,
            },
        ),
        !has_logo ==> welcome_scene(has_logo, hovering).contains(
            Mark::Centered {
                top: 78,
                text: "Project Knockout"@,
                size: Size::Large,
                color: 0x00f2_f5f7,
            },
        ),
        welcome_scene(has_logo, hovering)[0] == (Mark::Clear { color: 0x0007_0b10 }),
        welcome_scene(has_logo, hovering)[1] == (Mark::Rectangle {
            left: 0,
            top: 0,
            width: 760,
            height: 5,
            color: 0x00c4_f66c,
        }),
        button_color(false) == 0x00c4_f66c && button_color(true) == 0x00d8_ff91,
{
    let scene = welcome_scene(has_logo, hovering);
    assert(scene[3] == (Mark::Centered {
        top: 198,
        text: "Launcher setup"@,
        size: Size::Medium,
        color: 0x00c4_f66c,
    }));
    assert(scene[4] == (Mark::Centered {
        top: 244,
        text: "Choose your DivineKnockout.exe"@,
        size: Size::Medium,
        color: 0x00dc_e2e7,
    }));
    assert(scene[5] == (Mark::Centered {
        top: 284,
        text: "Select it from your Divine Knockout game folder."@,
        size: Size::Small,
        color: 0x00c4_f66c,
    }));
    assert(scene[6] == (Mark::Centered {
        top: 323,
        text: "We'll verify your game files and finish"@,
        size: Size::Small,
        color: 0x008f_9aa5,
    }));
    assert(scene[7] == (Mark::Centered {
        top: 342,
        text: "setting up the launcher for you."@,
        size: Size::Small,
        color: 0x008f_9aa5,
    }));
    assert(scene[9] == (Mark::Centered {
        top: 425,
        text: "Open"@,
        size: Size::Medium,
        color: 0x000b_0e08,
    }));
    assert(scene[10] == (Mark::Centered {
        top: 520,
        text: "Press Enter to continue"@,
        size: Size::Small,
        color: 0x005f_6974,
    }));
    assert(!has_logo ==> scene[2] == (Mark::Centered {
        top: 78,
        text: "Project Knockout"@,
        size: Size::Large,
        color: 0x00f2_f5f7,
    }));
}

/// The last page draws the check mark in its ring from left to right, and says how to go
/// on once there was time to see it.
pub proof fn law_last_page_says_how_to_go_on(
    has_logo: bool,
    elapsed: u64,
    hovering: bool,
    glow: u8,
)
    requires
        elapsed >= 749_999_968,
    ensures
        ({
            let scene = success_scene(has_logo, elapsed, hovering, glow);
            let n = scene.len() as int;
            &&& n == 10 + (if has_logo {
                1int
            } else {
                0
            })
            &&& scene[n - 8] == (Mark::Ring {
                x: 380,
                y: 232,
                inner: 53,
                outer: 58,
                color: glow_color(glow) as u32,
            })
            &&& scene[n - 7] == (Mark::Stroke {
                from_x: 347,
                from_y: 232,
                to_x: 373,
                to_y: 257,
                delay: 0,
                duration: 550,
                thickness: 8,
                color: 0x00c4_f66c,
            })
            &&& scene[n - 6] == (Mark::Stroke {
                from_x: 373,
                from_y: 257,
                to_x: 417,
                to_y: 207,
                delay: 420,
                duration: 650,
                thickness: 8,
                color: 0x00c4_f66c,
            })
            &&& scene[n - 4] == (Mark::Centered {
                top: 354,
                text: "Project Knockout is ready to launch."@,
                size: Size::Medium,
                color: 0x00c4_f66c,
            })
            &&& scene[n - 3] == (Mark::Centered {
                top: 394,
                text: "Return to the website and choose Launch game."@,
                size: Size::Small,
                color: 0x008f_9aa5,
            })
            &&& scene[n - 1] == (Mark::Centered {
                top: 447,
                text: "Done"@,
                size: Size::Medium,
                color: 0x000b_0e08,
            })
            &&& has_logo ==> scene[2] == (Mark::Logo { width: 360, top: 38 })
        }),
{
}

/// The pages of the setup differ by the logo alone when there is one, and what is being
/// done is shown as it is.
pub proof fn law_loading_page_shows_the_message(has_logo: bool, message: Seq<char>)
    ensures
        loading_scene(has_logo, message).contains(
            Mark::Centered { top: 315, text: message, size: Size::Medium, color: 0x00dc_e2e7 },
        ),
        loading_scene(has_logo, message).contains(Mark::Spinner),
        loading_scene(has_logo, message).contains(Mark::Logo { width: 430, top: 48 }) <==> has_logo,
        welcome_scene(has_logo, false).contains(Mark::Logo { width: 430, top: 48 }) <==> has_logo,
{
    let scene = loading_scene(has_logo, message);
    assert(scene[4] == (Mark::Centered {
        top: 315,
        text: message,
        size: Size::Medium,
        color: 0x00dc_e2e7,
    }));
    assert(scene[3] == Mark::Spinner);
    let welcome = welcome_scene(has_logo, false);
    if has_logo {
        assert(scene[2] == (Mark::Logo { width: 430, top: 48 }));
        assert(welcome[2] == (Mark::Logo { width: 430, top: 48 }));
    }
}

/// The splash window shows what is being done, how far it is in percent, and a bar of
/// 500 pixels that is filled from the left.
pub proof fn law_splash_shows_the_progress(
    has_logo: bool,
    message: Seq<char>,
    percent: u32,
    filled: u32,
    x: int,
    y: int,
)
    ensures
        ({
            let scene = splash_scene(has_logo, message, percent, filled);
            let n = scene.len() as int;
            &&& n == 6 + (if has_logo {
                1int
            } else {
                0
            })
            &&& scene[n - 4] == (Mark::Centered {
                top: 237,
                text: message,
                size: Size::Small,
                color: 0x00dc_e2e7,
            })
            &&& scene[n - 3] matches Mark::Centered { text, .. } && text == decimal_text(
                percent as int,
            ) + seq!['%']
            &&& shape_of(scene[n - 2], 720, 360, None) is Some
            &&& shape_of(scene[n - 1], 720, 360, None) is Some
            &&& shape_of(scene[n - 2], 720, 360, None)->0.touches(x, y) <==> 110 <= x < 610 && 288
                <= y < 296
            &&& shape_of(scene[n - 1], 720, 360, None)->0.touches(x, y) <==> 110 <= x < 110 + filled
                && 288 <= y < 296
        }),
{
    assert(decimal_text(percent as int).push('%') =~= decimal_text(percent as int) + seq!['%']);
}

/// The lines of the error window stand below each other, in their order, between the
/// heading and the keys.
pub proof fn law_error_lines_stand_below_each_other(
    lines: Seq<Seq<char>>,
    offer_repair: bool,
    i: int,
)
    requires
        lines.len() <= 20,
        0 <= i < lines.len(),
    ensures
        ({
            let scene = error_scene(lines, offer_repair);
            &&& scene.len() == lines.len() + 3
            &&& scene[2 + i] == (Mark::Label {
                left: 24,
                top: (60 + 20 * i) as u32,
                text: lines[i],
                size: Size::Small,
                color: 0x00ff_ffff,
            })
            &&& 60 + 20 * i + 20 <= 460
            &&& scene.last() matches Mark::Label { top, text, .. } && top == 480 && text == (
            if offer_repair {
                "R: Repair     Esc: Close     Up/Down or scroll: More details"@
            } else {
                "Enter/Esc: Close     Up/Down or scroll: More details"@
            })
        }),
{
    let scene = error_scene(lines, offer_repair);
    assert(scene[2 + i] == (Mark::Label {
        left: 24,
        top: (60 + i * 20) as u32,
        text: lines[i],
        size: Size::Small,
        color: 0x00ff_ffff,
    }));
}

proof fn lemma_components(red: int, green: int, blue: int)
    requires
        0 <= red < 256,
        0 <= green < 256,
        0 <= blue < 256,
    ensures
        component((red * 65536 + green * 256 + blue) as u32, 65536) == red,
        component((red * 65536 + green * 256 + blue) as u32, 256) == green,
        component((red * 65536 + green * 256 + blue) as u32, 1) == blue,
{
}

/// The ring around the check mark is a shade of the accent: more green than red, and
/// more red than blue.
pub proof fn law_ring_is_greenish(glow: u8)
    requires
        0 < glow <= 204,
    ensures
        component(glow_color(glow) as u32, 65536) == glow,
        component(glow_color(glow) as u32, 256) == glow * 5 / 4,
        component(glow_color(glow) as u32, 1) == glow / 2,
{
    lemma_components(glow as int, glow * 5 / 4, glow as int / 2);
}

/// A page with a button says what it is pressed for, once for each press of the mouse on
/// it, and for the enter key wherever the pointer is.
pub proof fn law_button_is_pressed(window: SetupWindow, input: SetupInput)
    ensures
        ({
            let pressed = input.enter || (input.mouse_down && !window.mouse_was_down
                && window.stage.is_hovered(input.mouse));
            &&& window.action(input) == Some(SetupAction::Open) <==> window.stage is Welcome
                && pressed
            &&& window.action(input) == Some(SetupAction::Done) <==> window.stage is Success
                && pressed
            &&& window.action(input) is Some ==> window.action(input) != Some(
                SetupAction::Canceled,
            )
            &&& input.mouse is None ==> !window.stage.is_hovered(input.mouse)
        }),
{
}

/// A character covers the pixels that it is drawn on, each in the measure of its own
/// coverage, row by row.
pub proof fn law_characters_are_drawn(
    x: i32,
    y: i32,
    glyph: &Glyph,
    color: u32,
    column: int,
    row: int,
    under: u32,
)
    requires
        glyph.is_sound(),
        0 <= column < glyph.width,
        0 <= row < glyph.height,
        color < 0x100_0000,
        under < 0x100_0000,
    ensures
        ({
            let brush = Brush::Character { x, y, glyph, color };
            let coverage = glyph.coverage@[row * glyph.width + column];
            let drawn = brush.painted(x + column, y + row, under);
            &&& coverage == 255 ==> drawn == color
            &&& coverage == 0 ==> drawn == under
            &&& coverage > 0 ==> component(drawn, 65536) == (component(color, 65536) * coverage
                + component(under, 65536) * (255 - coverage)) / 255
            &&& brush.painted(x - 1, y + row, under) == under
            &&& brush.painted(x + column, y + glyph.height, under) == under
        }),
{
    let coverage = glyph.coverage@[row * glyph.width + column];
    let red = component(color, 65536);
    let green = component(color, 256);
    let blue = component(color, 1);
    law_colors_have_components(color);
    if coverage > 0 {
        law_components_are_mixed(red, green, blue, coverage as int, under);
    }
    if coverage == 255 {
        crate::graphics::law_opaque_color_hides(red as u8, green as u8, blue as u8, under);
    }
}

/// The logo stands in the middle of the window, at the height that the scene says, and
/// is left out where there is none.
pub proof fn law_logo_is_centered(width: u32, height: u32, wide: u32, top: u32, picture: &Picture)
    requires
        wide <= width,
    ensures
        shape_of(Mark::Logo { width: wide, top }, width, height, None) is None,
        shape_of(Mark::Logo { width: wide, top }, width, height, Some(picture)) == Some(
            Brush::Image { left: ((width - wide) / 2) as u32, top, width: wide, picture },
        ),
{
}

proof fn lemma_quotient(n: int, d: int, q: int)
    requires
        d > 0,
        q * d <= n < (q + 1) * d,
    ensures
        n / d == q,
{
    let rest = n - q * d;
    assert((q + 1) * d == q * d + d) by (nonlinear_arith);
    vstd::arithmetic::div_mod::lemma_fundamental_div_mod_converse(n, d, q, rest);
}

/// A picture that is drawn with another width keeps its proportions, and each pixel shows
/// the one of the picture that lies in the same proportion from the left and the top.
pub proof fn law_pictures_keep_their_proportions(
    picture: &Picture,
    left: u32,
    top: u32,
    width: u32,
    high: int,
    x: int,
    y: int,
    column: int,
    row: int,
    under: u32,
)
    requires
        picture.is_sound(),
        0 <= x < width,
        0 <= y < high,
        high * picture.width <= width * picture.height < (high + 1) * picture.width,
        column * width <= x * picture.width < (column + 1) * width,
        row * high <= y * picture.height < (row + 1) * high,
    ensures
        picture.scaled_height(width) == high,
        (Brush::Image { left, top, width, picture }).painted(left + x, top + y, under) == laid_over(
            picture.at(column, row, 0),
            picture.at(column, row, 1),
            picture.at(column, row, 2),
            picture.at(column, row, 3),
            under,
        ),
        (Brush::Image { left, top, width, picture }).painted(left + x, top + high, under) == under,
{
    lemma_quotient(width * picture.height, picture.width as int, high);
    lemma_quotient(x * picture.width, width as int, column);
    lemma_quotient(y * picture.height, high, row);
}

} // verus!
