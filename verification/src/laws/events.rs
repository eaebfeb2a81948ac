//! What the windows do when something happens.
use crate::dialog::{
    dialog_program, judge_dialog, lossy_text, DialogExit, DialogInput, DialogStep, DialogVerdict,
    ErrorWindow,
};
use crate::laws::dialog::{
    display_faults, law_faults_are_recognized_anywhere, law_scrolling, law_window_is_closed,
};
use crate::process::game::{next_wait, WaitStep};
use crate::text::lowercase;
use crate::windows::{
    may_open, SetupAction, SetupEvent, SetupFrame, SetupInput, SetupReaction, SetupStage,
    SetupWindow, Splash, SplashEvent, SplashStep,
};
use vstd::prelude::*;

verus! {

/// The setup window starts with its first page.
pub proof fn law_opening_the_setup_window(r: SetupWindow)
    requires
        call_ensures(SetupWindow::new, (), r),
    ensures
        r.stage is Welcome,
        !r.mouse_was_down,
{
}

/// What the setup says is shown from then on, and the window closes when it is told to.
pub proof fn law_telling_the_setup_window(
    window: &mut SetupWindow,
    event: SetupEvent,
    now: u64,
    r: SetupReaction,
)
    requires
        call_ensures(SetupWindow::take, (window, event, now), r),
    ensures
        event is Progress ==> final(window).stage is Loading
            && final(window).stage->message == event->message && r == SetupReaction::Stay,
        event is Success ==> final(window).stage == (SetupStage::Success { started: now }) && r
            == SetupReaction::Finished,
        event is Close ==> final(window).stage == old(window).stage && r == SetupReaction::Close,
        final(window).mouse_was_down == old(window).mouse_was_down,
{
}

/// Pressing the button of the first page opens the file window, once: the page that
/// follows has no button. Pressing that of the last page closes the window. Holding the
/// mouse down presses nothing.
pub proof fn law_using_the_setup_window(
    window: &mut SetupWindow,
    input: SetupInput,
    now: u64,
    r: SetupFrame,
)
    requires
        call_ensures(SetupWindow::frame, (window, input, now), r),
    ensures
        ({
            let pressed = input.enter || (input.mouse_down && !old(window).mouse_was_down
                && r.hovering);
            &&& old(window).stage is Welcome && pressed ==> r.action == Some(SetupAction::Open)
                && final(window).stage is Loading && !r.closes
            &&& old(window).stage is Success && pressed ==> r.action == Some(SetupAction::Done)
                && r.closes
            &&& old(window).stage is Loading || !pressed ==> r.action is None && !r.closes
                && final(window).stage == old(window).stage
            &&& final(window).mouse_was_down == input.mouse_down
            &&& r.hovering == old(window).stage.is_hovered(input.mouse)
        }),
{
}

/// The setup goes on when the player wants it, or cannot be asked.
pub proof fn law_going_on(action: Option<SetupAction>, r: bool)
    requires
        call_ensures(may_open, (action,), r),
    ensures
        action is None || action == Some(SetupAction::Open) ==> r,
        action == Some(SetupAction::Done) || action == Some(SetupAction::Canceled) ==> !r,
{
}

/// The splash window appears two seconds after the launcher started, and not before.
pub proof fn law_waiting_for_the_splash_window(start: u64, now: u64, splash: Splash, r: Option<u64>)
    requires
        call_ensures(Splash::new, (start,), splash),
        call_ensures(Splash::patience, (&splash, now), r),
        start <= u64::MAX - 2_000_000_000,
    ensures
        now >= start + 2_000_000_000 ==> r is None,
        now < start + 2_000_000_000 ==> r == Some((start + 2_000_000_000 - now) as u64),
        splash.percent == 3 && splash.filled == 15 && splash.message@ == "Starting launcher"@,
        !splash.announced,
{
}

/// The splash window shows the last progress that it heard of. It comes up early when it
/// is told to, and ends when it is told to or nobody is left to tell it anything.
pub proof fn law_telling_the_splash_window(
    waiting: &mut Splash,
    open: &mut Splash,
    event: SplashEvent,
    first: SplashStep,
    then: SplashStep,
)
    requires
        call_ensures(Splash::wait, (waiting, event), first),
        call_ensures(Splash::hear, (open, event), then),
    ensures
        event is Progress ==> first == SplashStep::Listen && then == SplashStep::Listen
            && final(waiting).message == event->message && final(waiting).percent
            == event->percent && final(waiting).filled == event->filled && final(open).message
            == event->message && final(open).percent == event->percent && final(open).filled
            == event->filled,
        !(event is Progress) ==> *final(waiting) == *old(waiting) && *final(open) == *old(open),
        event is ShowNow ==> first == SplashStep::Proceed && then == SplashStep::Listen,
        event is Quiet ==> first == SplashStep::Proceed && then == SplashStep::Proceed,
        event is Close || event is Lost ==> first == SplashStep::End && then == SplashStep::End,
        final(waiting).show_at == old(waiting).show_at,
        final(open).announced == old(open).announced,
{
}

/// That the window is there is announced once.
pub proof fn law_announcing_the_splash_window(
    splash: &mut Splash,
    again: &mut Splash,
    first: bool,
    second: bool,
)
    requires
        call_ensures(Splash::announce, (splash,), first),
        call_ensures(Splash::announce, (again,), second),
        *old(again) == *final(splash),
        !old(splash).announced,
    ensures
        first,
        !second,
        final(splash).message == old(splash).message,
{
}

/// The error window scrolls while it is shown, never past its last page, and keeps its
/// lines.
pub proof fn law_using_the_error_window(
    window: &mut ErrorWindow,
    input: DialogInput,
    r: DialogStep,
)
    requires
        call_ensures(ErrorWindow::step, (window, input), r),
        old(window).is_sound(),
    ensures
        r == (DialogStep::Close { repair: true }) <==> input.open && !input.escape && old(
            window,
        ).offer_repair && input.repair,
        !input.open || input.escape ==> r == (DialogStep::Close { repair: false }),
        final(window).lines == old(window).lines,
        final(window).offer_repair == old(window).offer_repair,
        final(window).offset == 0 || final(window).offset + 20 <= old(window).lines@.len(),
        r == DialogStep::Show && input.down && !input.up && !input.wheel_down && !input.wheel_up
            && old(window).offset + 20 < old(window).lines@.len() ==> final(window).offset == old(
            window,
        ).offset + 1,
        r == DialogStep::Show && !input.down && !input.up && !input.wheel_down && !input.wheel_up
            ==> final(window).offset == old(window).offset,
{
    law_window_is_closed(old(window).offer_repair, input);
    law_scrolling(*old(window), input);
}

/// A dialog that could not be shown was not answered, and neither was one that did not
/// run; a repair needs an answer.
pub proof fn law_judging_a_dialog(
    exit: &Option<DialogExit>,
    offer_repair: bool,
    before: Seq<char>,
    fault: Seq<char>,
    after: Seq<char>,
    i: int,
    r: DialogVerdict,
)
    requires
        call_ensures(judge_dialog, (exit, offer_repair), r),
        0 <= i < 7,
        lowercase(fault) == display_faults()[i],
    ensures
        *exit is None ==> r == DialogVerdict::Unseen,
        *exit is Some && exit->0.success ==> r == (DialogVerdict::Answered {
            repair: offer_repair,
        }),
        *exit is Some && !exit->0.success && lossy_text(exit->0.stderr@) == before
            + fault + after ==> r == DialogVerdict::Unseen,
        *exit is Some && !exit->0.success && exit->0.code != Some(1i32) ==> r
            == DialogVerdict::Unseen,
{
    law_faults_are_recognized_anywhere(before, fault, after, i);
}

/// Two programs are tried, one after the other.
pub proof fn law_trying_dialogs(tried: usize, r: Option<&'static str>)
    requires
        call_ensures(dialog_program, (tried,), r),
    ensures
        tried == 0 ==> r is Some && r->0@ == "zenity"@,
        tried == 1 ==> r is Some && r->0@ == "kdialog"@,
        tried >= 2 ==> r is None,
{
    reveal_strlit("zenity");
    reveal_strlit("kdialog");
}

/// The game is waited for until it is there or the time is over.
pub proof fn law_waiting_for_the_game(now: u64, deadline: u64, found: Option<u32>, r: WaitStep)
    requires
        call_ensures(next_wait, (now, deadline, found), r),
    ensures
        now >= deadline ==> r == WaitStep::TimedOut,
        now < deadline && found is Some ==> r == (WaitStep::Found { pid: found->0 }),
        now < deadline && found is None ==> r == WaitStep::Wait,
{
}

} // verus!
