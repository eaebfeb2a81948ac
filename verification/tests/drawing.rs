use dko_launcher::graphics::{lay_over, load_picture, Brush, Canvas, Glyph, Picture};
use dko_launcher::painting::paint_shape;
use dko_launcher::scenes::{
    center_between, centered_left, draw_error, draw_setup_loading, draw_setup_success, draw_setup_welcome,
    draw_splash, height_of_text, Paint, Size,
};
use dko_launcher::windows::{
    cancellation, may_open, SetupAction, SetupEvent, SetupInput, SetupReaction, SetupStage, SetupWindow, Splash,
    SplashEvent, SplashStep, SPLASH_SHOW_DELAY,
};
use std::time::Duration;

fn blend(color: u32, background: u32, alpha: u32) -> u32 {
    let part = |shift: u32| {
        let foreground = (color >> shift) & 0xff;
        let back = (background >> shift) & 0xff;
        ((foreground * alpha + back * (255 - alpha)) / 255) << shift
    };
    part(16) | part(8) | part(0)
}

fn texts(paints: &[Paint]) -> Vec<(u32, String)> {
    paints
        .iter()
        .filter_map(|p| match p {
            Paint::Centered { top, text, .. } => Some((*top, text.clone())),
            Paint::Label { top, text, .. } => Some((*top, text.clone())),
            _ => None,
        })
        .collect()
}

#[test]
fn colors_are_laid_over_each_other() {
    for (color, under) in [(0x00c4f66c_u32, 0x00070b10_u32), (0x00ffffff, 0), (0x00010203, 0x00fefdfc)] {
        for alpha in 1..=255u8 {
            let r = lay_over((color >> 16) as u8, (color >> 8) as u8, color as u8, alpha, under);
            assert_eq!(r, blend(color, under, alpha as u32), "{color:x} over {under:x} at {alpha}");
        }
        assert_eq!(lay_over(1, 2, 3, 0, 0xff000000 | under), 0xff000000 | under);
        assert_eq!(lay_over((color >> 16) as u8, (color >> 8) as u8, color as u8, 255, under), color);
    }
}

#[test]
fn rectangles_are_clipped() {
    let mut canvas = Canvas::new(4, 3, 7);
    canvas.draw(&Brush::Rectangle { left: 2, top: 1, width: 10, height: 1, color: 9 });
    assert_eq!(canvas.pixels, [7, 7, 7, 7, 7, 7, 9, 9, 7, 7, 7, 7]);
    canvas.draw(&Brush::Rectangle { left: 9, top: 9, width: 1, height: 1, color: 1 });
    canvas.draw(&Brush::Rectangle { left: 0, top: 2, width: 1, height: 1, color: 5 });
    assert_eq!(canvas.pixels, [7, 7, 7, 7, 7, 7, 9, 9, 5, 7, 7, 7]);
}

#[test]
fn dots_and_rings() {
    let mut canvas = Canvas::new(5, 5, 0);
    canvas.draw(&Brush::Dot { x: 0, y: 0, radius: 1, color: 3 });
    let lit: Vec<usize> = (0..25).filter(|i| canvas.pixels[*i] == 3).collect();
    assert_eq!(lit, [0, 1, 5, 6]);
    let mut canvas = Canvas::new(760, 560, 0);
    canvas.draw(&Brush::Ring { x: 380, y: 232, inner: 53, outer: 58, color: 1 });
    for y in 0..560i64 {
        for x in 0..760i64 {
            let dx = x as f32 - 380.0;
            let dy = y as f32 - 232.0;
            let distance = (dx * dx + dy * dy).sqrt();
            let inside = distance < 58.0 && distance > 53.0;
            assert_eq!(canvas.pixels[(y * 760 + x) as usize] == 1, inside, "{x},{y}");
        }
    }
}

#[test]
fn characters_are_drawn() {
    let glyph = Glyph::new(2, 2, vec![255, 0, 128, 64]).unwrap();
    let mut canvas = Canvas::new(3, 3, 0x00102030);
    canvas.draw(&Brush::Character { x: 1, y: -1, glyph: &glyph, color: 0x00ffffff });
    let half = blend(0x00ffffff, 0x00102030, 128);
    let quarter = blend(0x00ffffff, 0x00102030, 64);
    assert_eq!(canvas.pixels[..3], [0x00102030, half, quarter]);
    assert!(canvas.pixels[3..].iter().all(|p| *p == 0x00102030));
    assert!(Glyph::new(2, 2, vec![0; 3]).is_none());
}

#[test]
fn pictures_are_scaled() {
    let picture = Picture { width: 2, height: 1, rgba: vec![255, 0, 0, 255, 0, 0, 255, 128] };
    assert_eq!(picture.height_at(4), 2);
    let mut canvas = Canvas::new(6, 3, 0);
    canvas.draw(&Brush::Image { left: 1, top: 1, width: 4, picture: &picture });
    let blue = blend(0x000000ff, 0, 128);
    assert_eq!(canvas.pixels[..6], [0; 6]);
    for row in [6, 12] {
        assert_eq!(canvas.pixels[row..row + 6], [0, 0xff0000, 0xff0000, blue, blue, 0]);
    }
}

#[test]
fn images_are_decoded() {
    let mut file: Vec<u8> = Vec::new();
    let pixels = image::RgbaImage::from_raw(2, 1, vec![1, 2, 3, 4, 5, 6, 7, 8]).unwrap();
    pixels.write_to(&mut std::io::Cursor::new(&mut file), image::ImageFormat::Png).unwrap();
    let picture = load_picture(&file).unwrap();
    assert_eq!((picture.width, picture.height), (2, 1));
    assert_eq!(picture.rgba, [1, 2, 3, 4, 5, 6, 7, 8]);
    assert!(load_picture(b"no image").is_none());
}

#[test]
fn the_welcome_page() {
    let paints = draw_setup_welcome(false, true);
    assert_eq!(
        texts(&paints).iter().map(|t| t.1.as_str()).collect::<Vec<_>>(),
        [
            "Project Knockout",
            "Launcher setup",
            "Choose your DivineKnockout.exe",
            "Select it from your Divine Knockout game folder.",
            "We'll verify your game files and finish",
            "setting up the launcher for you.",
            "Open",
            "Press Enter to continue",
        ]
    );
    assert!(matches!(paints[0], Paint::Clear { color: 0x00070b10 }));
    assert!(paints.iter().any(|p| matches!(p, Paint::Rectangle { left: 135, top: 406, width: 490, height: 64, color: 0x00d8ff91 })));
    let plain = draw_setup_welcome(true, false);
    assert!(matches!(plain[2], Paint::Logo { width: 430, top: 48 }));
    assert!(plain.iter().any(|p| matches!(p, Paint::Rectangle { left: 135, color: 0x00c4f66c, .. })));
}

#[test]
fn the_loading_page() {
    let paints = draw_setup_loading(true, "Working");
    assert!(matches!(paints[3], Paint::Spinner));
    assert_eq!(texts(&paints), [(315, "Working".to_owned()), (363, "Please keep this window open.".to_owned())]);
}

#[test]
fn the_success_page_comes_up_step_by_step() {
    let count = |elapsed| texts(&draw_setup_success(false, elapsed, false, 45)).len();
    for (seconds, texts) in [(0.35f32, 1), (0.55, 3), (0.75, 4)] {
        let mut first = (seconds * 1e9) as u64 - 200;
        while Duration::from_nanos(first).as_secs_f32() < seconds {
            first += 1;
        }
        assert_eq!((count(first - 1), count(first)), (texts - if texts == 3 { 2 } else { 1 }, texts), "{seconds}");
    }
    assert_eq!((count(0), count(349_000_000), count(350_000_000)), (0, 0, 1));
    let paints = draw_setup_success(true, 800_000_000, true, 45);
    let glow = (45 << 16) | ((45 * 5 / 4) << 8) | (45 / 2);
    assert!(paints.iter().any(|p| matches!(p, Paint::Ring { color, .. } if *color == glow)));
    assert!(paints.iter().any(|p| matches!(p, Paint::Rectangle { left: 230, top: 430, width: 300, height: 58, color: 0x00d8ff91 })));
    assert_eq!(paints.iter().filter(|p| matches!(p, Paint::Stroke { .. })).count(), 2);
}

#[test]
fn the_splash_and_the_error_page() {
    let paints = draw_splash(false, "Starting", 42, 210);
    assert_eq!(texts(&paints), [(237, "Starting".to_owned()), (261, "42%".to_owned())]);
    assert!(matches!(paints.last().unwrap(), Paint::Rectangle { left: 110, top: 288, width: 210, height: 8, color: 0x00c4f66c }));
    let lines: Vec<String> = vec!["a".to_owned(), "b".to_owned()];
    let shown = texts(&draw_error(&lines, true));
    assert_eq!(shown[0], (16, "Unable to launch Divine Knockout".to_owned()));
    assert_eq!(shown[1..3], [(60, "a".to_owned()), (80, "b".to_owned())]);
    assert_eq!(shown[3], (480, "R: Repair     Esc: Close     Up/Down or scroll: More details".to_owned()));
    let closed = texts(&draw_error(&lines, false));
    assert_eq!(closed[3].1, "Enter/Esc: Close     Up/Down or scroll: More details");
}

#[test]
fn centering() {
    assert_eq!(center_between(0, 1920, 720), 600);
    assert_eq!(center_between(100, 500, 720), 100);
    assert_eq!(center_between(-1920, 0, 721), -1321);
    assert_eq!(centered_left(760, 100), 330);
    assert_eq!(centered_left(760, 900), 0);
    assert_eq!([Size::Small, Size::Medium, Size::Large].map(height_of_text), [13, 20, 28]);
}

fn input(mouse: Option<(i64, i64)>, mouse_down: bool, enter: bool) -> SetupInput {
    SetupInput { mouse, mouse_down, enter }
}

#[test]
fn the_setup_window_opens_by_mouse_or_key() {
    let mut window = SetupWindow::new();
    assert!(window.frame(input(Some((135, 406)), false, false), 0).hovering);
    assert!(!window.frame(input(Some((625, 406)), false, false), 0).hovering);
    assert!(!window.frame(input(Some((135, 470)), false, false), 0).hovering);
    assert_eq!(window.frame(input(Some((1, 1)), true, false), 0).action, None);
    assert_eq!(window.frame(input(Some((200, 420)), true, false), 0).action, None);
    window.frame(input(None, false, false), 0);
    let frame = window.frame(input(Some((200, 420)), true, false), 5);
    assert_eq!(frame.action, Some(SetupAction::Open));
    assert!(!frame.closes);
    assert!(matches!(&window.stage, SetupStage::Loading { message, started: 5 } if message == "Opening your game folder"));
    let mut keyed = SetupWindow::new();
    assert_eq!(keyed.frame(input(None, false, true), 0).action, Some(SetupAction::Open));
}

#[test]
fn the_setup_window_is_silent_while_loading() {
    let mut window = SetupWindow::new();
    assert_eq!(window.take(SetupEvent::Progress { message: "Verifying".to_owned() }, 1), SetupReaction::Stay);
    let frame = window.frame(input(Some((200, 420)), true, true), 2);
    assert_eq!((frame.hovering, frame.action, frame.closes), (false, None, false));
    assert_eq!(texts(&window.draw(true, false, 3, 0))[0].1, "Verifying");
}

#[test]
fn the_setup_window_finishes() {
    let mut window = SetupWindow::new();
    assert_eq!(window.take(SetupEvent::Success, 1_000_000), SetupReaction::Finished);
    assert_eq!(texts(&window.draw(true, false, 351_000_000, 0)).len(), 1);
    let frame = window.frame(input(Some((230, 430)), true, false), 2);
    assert_eq!((frame.action, frame.closes), (Some(SetupAction::Done), true));
    assert_eq!(window.take(SetupEvent::Close, 3), SetupReaction::Close);
}

#[test]
fn giving_up_in_the_setup_window() {
    assert!(may_open(None));
    assert!(may_open(Some(SetupAction::Open)));
    assert!(!may_open(Some(SetupAction::Done)));
    assert!(!may_open(Some(SetupAction::Canceled)));
    assert_eq!(cancellation(), "DivineKnockout.exe selection was canceled");
}

#[test]
fn the_splash_waits_before_it_appears() {
    let mut splash = Splash::new(10);
    assert_eq!((splash.message.as_str(), splash.percent, splash.filled), ("Starting launcher", 3, 15));
    assert_eq!(splash.patience(10), Some(SPLASH_SHOW_DELAY));
    assert_eq!(splash.patience(10 + SPLASH_SHOW_DELAY), None);
    let progress = SplashEvent::Progress { message: "Half".to_owned(), percent: 50, filled: 250 };
    assert_eq!(splash.wait(progress), SplashStep::Listen);
    assert_eq!(splash.title(), "Project KNOCKOUT — Half");
    assert_eq!(splash.wait(SplashEvent::Quiet), SplashStep::Proceed);
    assert_eq!(splash.wait(SplashEvent::ShowNow), SplashStep::Proceed);
    assert_eq!(splash.wait(SplashEvent::Close), SplashStep::End);
    assert_eq!(splash.wait(SplashEvent::Lost), SplashStep::End);
}

#[test]
fn the_splash_listens_while_it_is_shown() {
    let mut splash = Splash::new(0);
    let progress = SplashEvent::Progress { message: "Done".to_owned(), percent: 100, filled: 500 };
    assert_eq!(splash.hear(progress), SplashStep::Listen);
    assert_eq!(splash.hear(SplashEvent::ShowNow), SplashStep::Listen);
    assert_eq!(splash.hear(SplashEvent::Quiet), SplashStep::Proceed);
    assert_eq!(texts(&splash.draw(true))[1].1, "100%");
    assert!(splash.announce());
    assert!(!splash.announce());
    assert_eq!(splash.hear(SplashEvent::Lost), SplashStep::End);
}

#[test]
fn shapes_of_a_scene_are_drawn() {
    let mut canvas = Canvas::new(8, 4, 7);
    paint_shape(&mut canvas, &Paint::Clear { color: 1 }, None);
    assert!(canvas.pixels.iter().all(|pixel| *pixel == 1));
    paint_shape(&mut canvas, &Paint::Rectangle { left: 1, top: 1, width: 2, height: 1, color: 2 }, None);
    assert_eq!(&canvas.pixels[8..16], &[1, 2, 2, 1, 1, 1, 1, 1]);
    let before = canvas.pixels.clone();
    paint_shape(&mut canvas, &Paint::Logo { width: 2, top: 0 }, None);
    paint_shape(&mut canvas, &Paint::Spinner, None);
    assert_eq!(canvas.pixels, before);
    let picture = Picture { width: 1, height: 1, rgba: vec![0, 0, 9, 255] };
    paint_shape(&mut canvas, &Paint::Logo { width: 2, top: 0 }, Some(&picture));
    assert_eq!(&canvas.pixels[0..8], &[1, 1, 1, 9, 9, 1, 1, 1]);
    paint_shape(&mut canvas, &Paint::Ring { x: 0, y: 3, inner: 0, outer: 2, color: 5 }, None);
    assert_eq!(&canvas.pixels[16..20], &[5, 5, 1, 1]);
    assert_eq!(&canvas.pixels[24..28], &[1, 5, 1, 1]);
}
