//! The behavior of the setup window and of the splash window.
//!
//! Times are nanoseconds of one clock. The pointer's position is given in whole
//! pixels, rounded down.
use crate::failure::is_cancellation;
use crate::scenes::{
    draw_setup_loading, draw_setup_success, draw_setup_welcome, draw_splash, loading_scene, marks,
    splash_scene, success_scene, welcome_scene, Mark, Paint,
};
use crate::text::{concat, occurs_at};
use vstd::prelude::*;

verus! {

/// What the setup shows.
pub enum SetupStage {
    Welcome,
    Loading { message: String, started: u64 },
    Success { started: u64 },
}

/// What the setup tells its window.
pub enum SetupEvent {
    Progress { message: String },
    Success,
    Close,
}

/// What the window tells the setup.
#[derive(Clone, Copy, Debug, PartialEq, Eq, Structural)]
pub enum SetupAction {
    Open,
    Done,
    Canceled,
}

/// The setup window.
pub struct SetupWindow {
    pub stage: SetupStage,
    pub mouse_was_down: bool,
}

/// What the player does during one frame.
#[derive(Clone, Copy, Debug, PartialEq, Eq)]
pub struct SetupInput {
    pub mouse: Option<(i64, i64)>,
    pub mouse_down: bool,
    pub enter: bool,
}

/// What one frame leads to.
#[derive(Clone, Copy, Debug, PartialEq, Eq, Structural)]
pub struct SetupFrame {
    pub hovering: bool,
    pub action: Option<SetupAction>,
    /// The window closes without drawing the frame.
    pub closes: bool,
}

/// What becomes of the window when it is told something.
#[derive(Clone, Copy, Debug, PartialEq, Eq, Structural)]
pub enum SetupReaction {
    Stay,
    /// The window gets the title of a finished setup.
    Finished,
    Close,
}

/// The pointer is on the button of a page.
pub open spec fn is_on(mouse: Option<(i64, i64)>, left: int, right: int, top: int, bottom: int) -> bool {
    mouse is Some && left <= (mouse->0).0 < right && top <= (mouse->0).1 < bottom
}

impl SetupStage {
    /// The pointer is on the button of the page.
    pub open spec fn is_hovered(self, mouse: Option<(i64, i64)>) -> bool {
        match self {
            SetupStage::Welcome => is_on(mouse, 135, 625, 406, 470),
            SetupStage::Success { .. } => is_on(mouse, 230, 530, 430, 488),
            SetupStage::Loading { .. } => false,
        }
    }
}

impl SetupWindow {
    /// The button is pressed: the mouse goes down on it, or the key does on a page
    /// that has one.
    pub open spec fn is_activated(self, input: SetupInput) -> bool {
        ||| self.stage.is_hovered(input.mouse) && input.mouse_down && !self.mouse_was_down
        ||| !(self.stage is Loading) && input.enter
    }

    /// What the window tells the setup.
    pub open spec fn action(self, input: SetupInput) -> Option<SetupAction> {
        if !self.is_activated(input) {
            None
        } else {
            match self.stage {
                SetupStage::Welcome => Some(SetupAction::Open),
                SetupStage::Success { .. } => Some(SetupAction::Done),
                SetupStage::Loading { .. } => None,
            }
        }
    }

    pub fn new() -> (r: SetupWindow)
        ensures
            r.stage is Welcome,
            !r.mouse_was_down,
    {
        SetupWindow { stage: SetupStage::Welcome, mouse_was_down: false }
    }

    /// The setup tells its window something.
    pub fn take(&mut self, event: SetupEvent, now: u64) -> (r: SetupReaction)
        ensures
            match event {
                SetupEvent::Progress { message } => r == SetupReaction::Stay && *final(self) == (
                SetupWindow { stage: SetupStage::Loading { message, started: now }, ..*old(self) }),
                SetupEvent::Success => r == SetupReaction::Finished && *final(self) == (
                SetupWindow { stage: SetupStage::Success { started: now }, ..*old(self) }),
                SetupEvent::Close => r == SetupReaction::Close && *final(self) == *old(self),
            },
    {
        match event {
            SetupEvent::Progress { message } => {
                self.stage = SetupStage::Loading { message, started: now };
                SetupReaction::Stay
            },
            SetupEvent::Success => {
                self.stage = SetupStage::Success { started: now };
                SetupReaction::Finished
            },
            SetupEvent::Close => SetupReaction::Close,
        }
    }

    fn hovers(&self, mouse: Option<(i64, i64)>) -> (r: bool)
        ensures
            r == self.stage.is_hovered(mouse),
    {
        match mouse {
            None => false,
            Some((x, y)) => match &self.stage {
                SetupStage::Welcome => 135 <= x && x < 625 && 406 <= y && y < 470,
                SetupStage::Success { .. } => 230 <= x && x < 530 && 430 <= y && y < 488,
                SetupStage::Loading { .. } => false,
            },
        }
    }

    /// One frame of the window.
    pub fn frame(&mut self, input: SetupInput, now: u64) -> (r: SetupFrame)
        ensures
            r.hovering == old(self).stage.is_hovered(input.mouse),
            r.action == old(self).action(input),
            r.closes == (r.action == Some(SetupAction::Done)),
            final(self).mouse_was_down == input.mouse_down,
            if r.action == Some(SetupAction::Open) {
                final(self).stage matches SetupStage::Loading { message, started } && message@
                    == "Opening your game folder"@ && started == now
            } else {
                final(self).stage == old(self).stage
            },
    {
        let hovering = self.hovers(input.mouse);
        let loading = match &self.stage {
            SetupStage::Loading { .. } => true,
            _ => false,
        };
        let activated = (hovering && input.mouse_down && !self.mouse_was_down) || (!loading
            && input.enter);
        self.mouse_was_down = input.mouse_down;
        let action: Option<SetupAction> = if !activated {
            None
        } else {
            match &self.stage {
                SetupStage::Welcome => Some(SetupAction::Open),
                SetupStage::Success { .. } => Some(SetupAction::Done),
                SetupStage::Loading { .. } => None,
            }
        };
        match action {
            Some(SetupAction::Open) => {
                self.stage = SetupStage::Loading {
                    message: "Opening your game folder".to_owned(),
                    started: now,
                };
                SetupFrame { hovering, action, closes: false }
            },
            Some(SetupAction::Done) => SetupFrame { hovering, action, closes: true },
            _ => SetupFrame { hovering, action, closes: false },
        }
    }

    /// What the window shows.
    pub open spec fn scene(self, has_logo: bool, hovering: bool, now: u64, glow: u8) -> Seq<Mark> {
        match self.stage {
            SetupStage::Welcome => welcome_scene(has_logo, hovering),
            SetupStage::Loading { message, .. } => loading_scene(has_logo, message@),
            SetupStage::Success { started } => success_scene(
                has_logo,
                (if now > started {
                    now - started
                } else {
                    0
                }) as u64,
                hovering,
                glow,
            ),
        }
    }

    /// What the window shows; `glow` is the brightness of the ring on the last page.
    pub fn draw(&self, has_logo: bool, hovering: bool, now: u64, glow: u8) -> (r: Vec<Paint>)
        requires
            glow <= 204,
        ensures
            marks(r@) == self.scene(has_logo, hovering, now, glow),
    {
        match &self.stage {
            SetupStage::Welcome => draw_setup_welcome(has_logo, hovering),
            SetupStage::Loading { message, .. } => draw_setup_loading(has_logo, message.as_str()),
            SetupStage::Success { started } => {
                let elapsed: u64 = if now > *started {
                    now - *started
                } else {
                    0
                };
                draw_setup_success(has_logo, elapsed, hovering, glow)
            },
        }
    }
}

/// What the setup fails with when the player gave up.
pub fn cancellation() -> (r: String)
    ensures
        r@ == "DivineKnockout.exe selection was canceled"@,
{
    "DivineKnockout.exe selection was canceled".to_owned()
}

/// Whether the setup may go on: the player opened the file window, or there is no
/// window to ask in. `None` stands for a window that is gone.
pub fn may_open(action: Option<SetupAction>) -> (r: bool)
    ensures
        r == (action is None || action == Some(SetupAction::Open)),
{
    match action {
        None => true,
        Some(SetupAction::Open) => true,
        _ => false,
    }
}

/// Giving up in the setup window is recognized as such, and not taken for an error,
/// whatever is said around it.
pub proof fn law_giving_up_is_no_error(before: Seq<char>, after: Seq<char>)
    ensures
        is_cancellation(before + "DivineKnockout.exe selection was canceled"@ + after),
{
    reveal_strlit("DivineKnockout.exe selection was canceled");
    reveal_strlit("selection was canceled");
    let s = before + "DivineKnockout.exe selection was canceled"@ + after;
    let needle = "selection was canceled"@;
    let start = before.len() + 19int;
    assert(s.subrange(start, start + needle.len()) =~= needle);
    assert(occurs_at(s, needle, start));
}

/// The window never tells the setup to go on twice in a row: while it shows a page
/// without a button, which it does from then on, nothing that the player does says
/// anything to the setup.
pub proof fn law_loading_page_is_silent(window: SetupWindow, input: SetupInput)
    requires
        window.stage is Loading,
    ensures
        window.action(input) is None,
{
}

/// What the splash window is told.
pub enum SplashEvent {
    /// What is being done; how far it is in percent, and in pixels of the bar.
    Progress { message: String, percent: u32, filled: u32 },
    ShowNow,
    Close,
    /// Nobody can tell the window anything any more.
    Lost,
    /// Nothing was said for the time being.
    Quiet,
}

/// The splash window.
pub struct Splash {
    pub message: String,
    pub percent: u32,
    pub filled: u32,
    /// When the window appears: short launches never show it.
    pub show_at: u64,
    /// It was announced that the window is there.
    pub announced: bool,
}

/// What the splash window does next.
#[derive(Clone, Copy, Debug, PartialEq, Eq, Structural)]
pub enum SplashStep {
    /// Listen again.
    Listen,
    /// Go on: show the window, or draw it.
    Proceed,
    End,
}

/// How long the splash window waits before it appears.
pub const SPLASH_SHOW_DELAY: u64 = 2_000_000_000;

impl Splash {
    /// The window has heard of progress.
    pub open spec fn told(self, event: SplashEvent, after: Splash) -> bool {
        match event {
            SplashEvent::Progress { message, percent, filled } => after == (Splash {
                message,
                percent,
                filled,
                ..self
            }),
            _ => after == self,
        }
    }

    /// A launch begins.
    pub fn new(now: u64) -> (r: Splash)
        ensures
            r.message@ == "Starting launcher"@,
            r.percent == 3,
            r.filled == 15,
            r.show_at == if now + SPLASH_SHOW_DELAY > u64::MAX {
                u64::MAX as int
            } else {
                now + SPLASH_SHOW_DELAY
            },
            !r.announced,
    {
        Splash {
            message: "Starting launcher".to_owned(),
            percent: 3,
            filled: 15,
            show_at: now.saturating_add(SPLASH_SHOW_DELAY),
            announced: false,
        }
    }

    /// How long to listen before the window appears; `None` when it is time.
    pub fn patience(&self, now: u64) -> (r: Option<u64>)
        ensures
            match r {
                Some(time) => now < self.show_at && time == self.show_at - now,
                None => now >= self.show_at,
            },
    {
        if now >= self.show_at {
            None
        } else {
            Some(self.show_at - now)
        }
    }

    fn note(&mut self, event: SplashEvent) -> (r: SplashEvent)
        ensures
            old(self).told(event, *final(self)),
            event is Progress ==> r is Quiet,
            !(event is Progress) ==> r == event,
    {
        match event {
            SplashEvent::Progress { message, percent, filled } => {
                self.message = message;
                self.percent = percent;
                self.filled = filled;
                SplashEvent::Quiet
            },
            other => other,
        }
    }

    /// The window is told something before it appears.
    pub fn wait(&mut self, event: SplashEvent) -> (r: SplashStep)
        ensures
            old(self).told(event, *final(self)),
            r == match event {
                SplashEvent::Progress { .. } => SplashStep::Listen,
                SplashEvent::ShowNow | SplashEvent::Quiet => SplashStep::Proceed,
                SplashEvent::Close | SplashEvent::Lost => SplashStep::End,
            },
    {
        let progress = match &event {
            SplashEvent::Progress { .. } => true,
            _ => false,
        };
        let rest = self.note(event);
        if progress {
            return SplashStep::Listen;
        }
        match rest {
            SplashEvent::Close | SplashEvent::Lost => SplashStep::End,
            _ => SplashStep::Proceed,
        }
    }

    /// The window is told something while it is shown. It listens until nothing more
    /// is said before it draws itself again.
    pub fn hear(&mut self, event: SplashEvent) -> (r: SplashStep)
        ensures
            old(self).told(event, *final(self)),
            r == match event {
                SplashEvent::Progress { .. } | SplashEvent::ShowNow => SplashStep::Listen,
                SplashEvent::Quiet => SplashStep::Proceed,
                SplashEvent::Close | SplashEvent::Lost => SplashStep::End,
            },
    {
        let progress = match &event {
            SplashEvent::Progress { .. } => true,
            _ => false,
        };
        let rest = self.note(event);
        if progress {
            return SplashStep::Listen;
        }
        match rest {
            SplashEvent::Close | SplashEvent::Lost => SplashStep::End,
            SplashEvent::ShowNow => SplashStep::Listen,
            _ => SplashStep::Proceed,
        }
    }

    /// The window was drawn, or it is gone. True when this is to be announced: it is
    /// announced once.
    pub fn announce(&mut self) -> (r: bool)
        ensures
            r == !old(self).announced,
            *final(self) == (Splash { announced: true, ..*old(self) }),
    {
        let first = !self.announced;
        self.announced = true;
        first
    }

    /// The title of the window.
    pub fn title(&self) -> (r: String)
        ensures
            r@ == "Project KNOCKOUT — "@ + self.message@,
    {
        concat("Project KNOCKOUT — ", self.message.as_str())
    }

    /// What the window shows.
    pub fn draw(&self, has_logo: bool) -> (r: Vec<Paint>)
        ensures
            marks(r@) == splash_scene(has_logo, self.message@, self.percent, self.filled),
    {
        draw_splash(has_logo, self.message.as_str(), self.percent, self.filled)
    }
}

} // verus!
