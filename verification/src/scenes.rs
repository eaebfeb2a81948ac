//! What the launcher's windows show.
use crate::text::{decimal_text, text_of, texts, write_decimal};
use vstd::prelude::*;

verus! {

pub const BACKGROUND: u32 = 0x0007_0b10;

pub const ACCENT: u32 = 0x00c4_f66c;

pub const HIGHLIGHT: u32 = 0x00d8_ff91;

pub const BRIGHT: u32 = 0x00f2_f5f7;

pub const PLAIN: u32 = 0x00dc_e2e7;

pub const DIM: u32 = 0x008f_9aa5;

pub const FAINT: u32 = 0x005f_6974;

pub const DARK: u32 = 0x000b_0e08;

pub const TROUGH: u32 = 0x0024_2c35;

pub const WHITE: u32 = 0x00ff_ffff;

/// The size of a text.
#[derive(Clone, Copy, Debug, PartialEq, Eq, Structural)]
pub enum Size {
    Small,
    Medium,
    Large,
}

/// One step of drawing a window, in the order in which the steps are taken.
pub enum Paint {
    /// The whole window in one color.
    Clear { color: u32 },
    Rectangle { left: u32, top: u32, width: u32, height: u32, color: u32 },
    /// The logo, scaled to a width and centered.
    Logo { width: u32, top: u32 },
    /// A text that is centered.
    Centered { top: u32, text: String, size: Size, color: u32 },
    /// A text that starts at a place.
    Label { left: u32, top: u32, text: String, size: Size, color: u32 },
    /// The turning wheel.
    Spinner,
    Ring { x: i32, y: i32, inner: u16, outer: u16, color: u32 },
    /// A line that grows from one point to another: it starts to grow `delay`
    /// milliseconds after the scene began, and takes `duration` milliseconds.
    Stroke {
        from_x: u32,
        from_y: u32,
        to_x: u32,
        to_y: u32,
        delay: u32,
        duration: u32,
        thickness: u32,
        color: u32,
    },
}

/// The content of a [`Paint`].
pub enum Mark {
    Clear { color: u32 },
    Rectangle { left: u32, top: u32, width: u32, height: u32, color: u32 },
    Logo { width: u32, top: u32 },
    Centered { top: u32, text: Seq<char>, size: Size, color: u32 },
    Label { left: u32, top: u32, text: Seq<char>, size: Size, color: u32 },
    Spinner,
    Ring { x: i32, y: i32, inner: u16, outer: u16, color: u32 },
    Stroke {
        from_x: u32,
        from_y: u32,
        to_x: u32,
        to_y: u32,
        delay: u32,
        duration: u32,
        thickness: u32,
        color: u32,
    },
}

impl Paint {
    pub open spec fn mark(self) -> Mark {
        match self {
            Paint::Clear { color } => Mark::Clear { color },
            Paint::Rectangle { left, top, width, height, color } => Mark::Rectangle {
                left,
                top,
                width,
                height,
                color,
            },
            Paint::Logo { width, top } => Mark::Logo { width, top },
            Paint::Centered { top, text, size, color } => Mark::Centered {
                top,
                text: text@,
                size,
                color,
            },
            Paint::Label { left, top, text, size, color } => Mark::Label {
                left,
                top,
                text: text@,
                size,
                color,
            },
            Paint::Spinner => Mark::Spinner,
            Paint::Ring { x, y, inner, outer, color } => Mark::Ring { x, y, inner, outer, color },
            Paint::Stroke { from_x, from_y, to_x, to_y, delay, duration, thickness, color } =>
                Mark::Stroke { from_x, from_y, to_x, to_y, delay, duration, thickness, color },
        }
    }
}

pub open spec fn marks(paints: Seq<Paint>) -> Seq<Mark> {
    Seq::new(paints.len(), |i: int| paints[i].mark())
}

/// A centered text.
pub open spec fn centered(top: u32, text: Seq<char>, size: Size, color: u32) -> Mark {
    Mark::Centered { top, text, size, color }
}

fn put(paints: &mut Vec<Paint>, paint: Paint)
    ensures
        marks(final(paints)@) == marks(old(paints)@).push(paint.mark()),
{
    let ghost before = marks(paints@);
    let ghost mark = paint.mark();
    paints.push(paint);
    assert(marks(paints@) =~= before.push(mark));
}

fn center(paints: &mut Vec<Paint>, top: u32, text: &str, size: Size, color: u32)
    ensures
        marks(final(paints)@) == marks(old(paints)@).push(centered(top, text@, size, color)),
{
    put(paints, Paint::Centered { top, text: text.to_owned(), size, color });
}

fn rectangle(paints: &mut Vec<Paint>, left: u32, top: u32, width: u32, height: u32, color: u32)
    ensures
        marks(final(paints)@) == marks(old(paints)@).push(
            Mark::Rectangle { left, top, width, height, color },
        ),
{
    put(paints, Paint::Rectangle { left, top, width, height, color });
}

/// The setup window: 760 by 560 pixels, with a bar along its upper edge.
pub open spec fn setup_frame() -> Seq<Mark> {
    seq![
        Mark::Clear { color: BACKGROUND },
        Mark::Rectangle { left: 0, top: 0, width: 760, height: 5, color: ACCENT },
    ]
}

fn start_setup_frame() -> (r: Vec<Paint>)
    ensures
        marks(r@) == setup_frame(),
{
    let mut paints: Vec<Paint> = Vec::new();
    put(&mut paints, Paint::Clear { color: BACKGROUND });
    put(&mut paints, Paint::Rectangle { left: 0, top: 0, width: 760, height: 5, color: ACCENT });
    assert(marks(paints@) =~= setup_frame());
    paints
}

/// The logo, or the name of the project where there is none.
pub open spec fn heading(has_logo: bool) -> Mark {
    if has_logo {
        Mark::Logo { width: 430, top: 48 }
    } else {
        centered(78, "Project Knockout"@, Size::Large, BRIGHT)
    }
}

fn draw_heading(paints: &mut Vec<Paint>, has_logo: bool)
    ensures
        marks(final(paints)@) == marks(old(paints)@).push(heading(has_logo)),
{
    if has_logo {
        put(paints, Paint::Logo { width: 430, top: 48 });
    } else {
        center(paints, 78, "Project Knockout", Size::Large, BRIGHT);
    }
}

/// A button changes its color under the pointer.
pub open spec fn button_color(hovering: bool) -> u32 {
    if hovering {
        HIGHLIGHT
    } else {
        ACCENT
    }
}

fn color_of_button(hovering: bool) -> (r: u32)
    ensures
        r == button_color(hovering),
{
    if hovering {
        HIGHLIGHT
    } else {
        ACCENT
    }
}

/// The first page of the setup.
pub open spec fn welcome_scene(has_logo: bool, hovering: bool) -> Seq<Mark> {
    setup_frame() + seq![
        heading(has_logo),
        centered(198, "Launcher setup"@, Size::Medium, ACCENT),
        centered(244, "Choose your DivineKnockout.exe"@, Size::Medium, PLAIN),
        centered(284, "Select it from your Divine Knockout game folder."@, Size::Small, ACCENT),
        centered(323, "We'll verify your game files and finish"@, Size::Small, DIM),
        centered(342, "setting up the launcher for you."@, Size::Small, DIM),
        Mark::Rectangle {
            left: 135,
            top: 406,
            width: 490,
            height: 64,
            color: button_color(hovering),
        },
        centered(425, "Open"@, Size::Medium, DARK),
        centered(520, "Press Enter to continue"@, Size::Small, FAINT),
    ]
}

/// The first page of the setup.
pub fn draw_setup_welcome(has_logo: bool, hovering: bool) -> (r: Vec<Paint>)
    ensures
        marks(r@) == welcome_scene(has_logo, hovering),
{
    let mut paints = start_setup_frame();
    draw_heading(&mut paints, has_logo);
    center(&mut paints, 198, "Launcher setup", Size::Medium, ACCENT);
    center(&mut paints, 244, "Choose your DivineKnockout.exe", Size::Medium, PLAIN);
    center(
        &mut paints,
        284,
        "Select it from your Divine Knockout game folder.",
        Size::Small,
        ACCENT,
    );
    center(&mut paints, 323, "We'll verify your game files and finish", Size::Small, DIM);
    center(&mut paints, 342, "setting up the launcher for you.", Size::Small, DIM);
    rectangle(&mut paints, 135, 406, 490, 64, color_of_button(hovering));
    center(&mut paints, 425, "Open", Size::Medium, DARK);
    center(&mut paints, 520, "Press Enter to continue", Size::Small, FAINT);
    assert(marks(paints@) =~= welcome_scene(has_logo, hovering));
    paints
}

/// The page that is shown while the setup works.
pub open spec fn loading_scene(has_logo: bool, message: Seq<char>) -> Seq<Mark> {
    setup_frame() + seq![
        heading(has_logo),
        Mark::Spinner,
        centered(315, message, Size::Medium, PLAIN),
        centered(363, "Please keep this window open."@, Size::Small, DIM),
    ]
}

/// The page that is shown while the setup works.
pub fn draw_setup_loading(has_logo: bool, message: &str) -> (r: Vec<Paint>)
    ensures
        marks(r@) == loading_scene(has_logo, message@),
{
    let mut paints = start_setup_frame();
    draw_heading(&mut paints, has_logo);
    put(&mut paints, Paint::Spinner);
    center(&mut paints, 315, message, Size::Medium, PLAIN);
    center(&mut paints, 363, "Please keep this window open.", Size::Small, DIM);
    assert(marks(paints@) =~= loading_scene(has_logo, message@));
    paints
}

/// The color of the ring around the check mark, for its brightness.
pub open spec fn glow_color(glow: u8) -> int {
    glow * 65536 + (glow * 5 / 4) * 256 + glow / 2
}

/// When the headline of the last page comes up, in nanoseconds: the first time that
/// counts as 0.35 seconds in single precision.
pub const HEADLINE_AT: u64 = 349_999_984;

/// When the texts of the last page come up: the first time that counts as 0.55 seconds
/// in single precision.
pub const TEXTS_AT: u64 = 549_999_968;

/// When the button of the last page comes up: the first time that counts as 0.75
/// seconds in single precision.
pub const BUTTON_AT: u64 = 749_999_968;

/// The last page of the setup, `elapsed` nanoseconds after it first appeared: the
/// check mark is drawn first, then the texts come up, then the button.
pub open spec fn success_scene(has_logo: bool, elapsed: u64, hovering: bool, glow: u8) -> Seq<Mark> {
    setup_frame() + (if has_logo {
        seq![Mark::Logo { width: 360, top: 38 }]
    } else {
        Seq::empty()
    }) + seq![
        Mark::Ring { x: 380, y: 232, inner: 53, outer: 58, color: glow_color(glow) as u32 },
        Mark::Stroke {
            from_x: 347,
            from_y: 232,
            to_x: 373,
            to_y: 257,
            delay: 0,
            duration: 550,
            thickness: 8,
            color: ACCENT,
        },
        Mark::Stroke {
            from_x: 373,
            from_y: 257,
            to_x: 417,
            to_y: 207,
            delay: 420,
            duration: 650,
            thickness: 8,
            color: ACCENT,
        },
    ] + (if elapsed >= HEADLINE_AT {
        seq![centered(306, "Setup complete"@, Size::Large, BRIGHT)]
    } else {
        Seq::empty()
    }) + (if elapsed >= TEXTS_AT {
        seq![
            centered(354, "Project Knockout is ready to launch."@, Size::Medium, ACCENT),
            centered(394, "Return to the website and choose Launch game."@, Size::Small, DIM),
        ]
    } else {
        Seq::empty()
    }) + (if elapsed >= BUTTON_AT {
        seq![
            Mark::Rectangle {
                left: 230,
                top: 430,
                width: 300,
                height: 58,
                color: button_color(hovering),
            },
            centered(447, "Done"@, Size::Medium, DARK),
        ]
    } else {
        Seq::empty()
    })
}

/// The last page of the setup.
pub fn draw_setup_success(has_logo: bool, elapsed: u64, hovering: bool, glow: u8) -> (r: Vec<Paint>)
    requires
        glow <= 204,
    ensures
        marks(r@) == success_scene(has_logo, elapsed, hovering, glow),
{
    let mut paints = start_setup_frame();
    if has_logo {
        put(&mut paints, Paint::Logo { width: 360, top: 38 });
    }
    let level: u32 = glow as u32;
    let color: u32 = level * 65536 + (level * 5 / 4) * 256 + level / 2;
    put(&mut paints, Paint::Ring { x: 380, y: 232, inner: 53, outer: 58, color });
    put(
        &mut paints,
        Paint::Stroke {
            from_x: 347,
            from_y: 232,
            to_x: 373,
            to_y: 257,
            delay: 0,
            duration: 550,
            thickness: 8,
            color: ACCENT,
        },
    );
    put(
        &mut paints,
        Paint::Stroke {
            from_x: 373,
            from_y: 257,
            to_x: 417,
            to_y: 207,
            delay: 420,
            duration: 650,
            thickness: 8,
            color: ACCENT,
        },
    );
    if elapsed >= HEADLINE_AT {
        center(&mut paints, 306, "Setup complete", Size::Large, BRIGHT);
    }
    if elapsed >= TEXTS_AT {
        center(&mut paints, 354, "Project Knockout is ready to launch.", Size::Medium, ACCENT);
        center(
            &mut paints,
            394,
            "Return to the website and choose Launch game.",
            Size::Small,
            DIM,
        );
    }
    if elapsed >= BUTTON_AT {
        rectangle(&mut paints, 230, 430, 300, 58, color_of_button(hovering));
        center(&mut paints, 447, "Done", Size::Medium, DARK);
    }
    assert(marks(paints@) =~= success_scene(has_logo, elapsed, hovering, glow));
    paints
}

/// The splash window, 720 by 360 pixels: the logo, what is being done, how far it is,
/// and a bar of 500 pixels, of which `filled` are full.
pub open spec fn splash_scene(has_logo: bool, message: Seq<char>, percent: u32, filled: u32) -> Seq<
    Mark,
> {
    seq![
        Mark::Clear { color: BACKGROUND },
        Mark::Rectangle { left: 0, top: 0, width: 720, height: 4, color: ACCENT },
    ] + (if has_logo {
        seq![Mark::Logo { width: 450, top: 54 }]
    } else {
        Seq::empty()
    }) + seq![
        centered(237, message, Size::Small, PLAIN),
        centered(261, decimal_text(percent as int).push('%'), Size::Small, DIM),
        Mark::Rectangle { left: 110, top: 288, width: 500, height: 8, color: TROUGH },
        Mark::Rectangle { left: 110, top: 288, width: filled, height: 8, color: ACCENT },
    ]
}

/// The splash window.
pub fn draw_splash(has_logo: bool, message: &str, percent: u32, filled: u32) -> (r: Vec<Paint>)
    ensures
        marks(r@) == splash_scene(has_logo, message@, percent, filled),
{
    let mut paints: Vec<Paint> = Vec::new();
    put(&mut paints, Paint::Clear { color: BACKGROUND });
    put(&mut paints, Paint::Rectangle { left: 0, top: 0, width: 720, height: 4, color: ACCENT });
    if has_logo {
        put(&mut paints, Paint::Logo { width: 450, top: 54 });
    }
    center(&mut paints, 237, message, Size::Small, PLAIN);
    let mut number = write_decimal(percent as u64);
    number.push('%');
    center(&mut paints, 261, text_of(number.as_slice()).as_str(), Size::Small, DIM);
    rectangle(&mut paints, 110, 288, 500, 8, TROUGH);
    rectangle(&mut paints, 110, 288, filled, 8, ACCENT);
    assert(marks(paints@) =~= splash_scene(has_logo, message@, percent, filled));
    paints
}

/// The built-in error window, 760 by 520 pixels: a heading, the lines that are in
/// view, and which keys do what.
pub open spec fn error_scene(lines: Seq<Seq<char>>, offer_repair: bool) -> Seq<Mark> {
    seq![
        Mark::Clear { color: BACKGROUND },
        Mark::Label {
            left: 24,
            top: 16,
            text: "Unable to launch Divine Knockout"@,
            size: Size::Medium,
            color: WHITE,
        },
    ] + Seq::new(
        lines.len(),
        |i: int|
            Mark::Label {
                left: 24,
                top: (60 + i * 20) as u32,
                text: lines[i],
                size: Size::Small,
                color: WHITE,
            },
    ) + seq![
        Mark::Label {
            left: 24,
            top: 480,
            text: if offer_repair {
                "R: Repair     Esc: Close     Up/Down or scroll: More details"@
            } else {
                "Enter/Esc: Close     Up/Down or scroll: More details"@
            },
            size: Size::Small,
            color: ACCENT,
        },
    ]
}

/// The built-in error window, for the lines that are in view.
pub fn draw_error(lines: &Vec<String>, offer_repair: bool) -> (r: Vec<Paint>)
    requires
        lines@.len() <= crate::dialog::ROWS,
    ensures
        marks(r@) == error_scene(texts(lines@), offer_repair),
{
    let mut paints: Vec<Paint> = Vec::new();
    put(&mut paints, Paint::Clear { color: BACKGROUND });
    put(
        &mut paints,
        Paint::Label {
            left: 24,
            top: 16,
            text: "Unable to launch Divine Knockout".to_owned(),
            size: Size::Medium,
            color: WHITE,
        },
    );
    let ghost all = error_scene(texts(lines@), offer_repair);
    let mut i: usize = 0;
    assert(marks(paints@) =~= all.take(2));
    while i < lines.len()
        invariant
            i <= lines@.len() <= 20,
            all == error_scene(texts(lines@), offer_repair),
            marks(paints@) == all.take(2 + i),
        decreases lines@.len() - i,
    {
        put(
            &mut paints,
            Paint::Label {
                left: 24,
                top: 60 + i as u32 * 20,
                text: lines[i].clone(),
                size: Size::Small,
                color: WHITE,
            },
        );
        assert(all.take(2 + i + 1) =~= all.take(2 + i).push(all[2 + i]));
        i = i + 1;
    }
    put(
        &mut paints,
        Paint::Label {
            left: 24,
            top: 480,
            text: (if offer_repair {
                "R: Repair     Esc: Close     Up/Down or scroll: More details"
            } else {
                "Enter/Esc: Close     Up/Down or scroll: More details"
            }).to_owned(),
            size: Size::Small,
            color: ACCENT,
        },
    );
    assert(marks(paints@) =~= all);
    paints
}

/// Where a window goes that is centered between two edges of the screen; it starts at
/// the first edge when it does not fit.
pub open spec fn centered_start(from: int, to: int, size: int) -> int {
    from + (if to - from > size {
        (to - from - size) / 2
    } else {
        0
    })
}

/// Where a window goes that is centered between two edges of the screen.
pub fn center_between(from: i32, to: i32, size: u32) -> (r: i64)
    ensures
        r == centered_start(from as int, to as int, size as int),
{
    let room: i64 = to as i64 - from as i64 - size as i64;
    if room > 0 {
        from as i64 + room / 2
    } else {
        from as i64
    }
}

/// How many pixels high a text is.
pub open spec fn text_height(size: Size) -> int {
    match size {
        Size::Small => 13,
        Size::Medium => 20,
        Size::Large => 28,
    }
}

/// How many pixels high a text is.
pub fn height_of_text(size: Size) -> (r: u32)
    ensures
        r == text_height(size),
{
    match size {
        Size::Small => 13,
        Size::Medium => 20,
        Size::Large => 28,
    }
}

/// Where something starts that is centered in a window; at the edge when it does not
/// fit.
pub fn centered_left(window: u32, width: u32) -> (r: u32)
    ensures
        r == centered_start(0, window as int, width as int),
{
    if window > width {
        (window - width) / 2
    } else {
        0
    }
}

} // verus!
