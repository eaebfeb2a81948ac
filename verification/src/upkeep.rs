//! Choosing another game, and checking that the launcher is ready.
use crate::text::{letters, maybe_text, spells};
use vstd::prelude::*;

verus! {

/// One step of choosing another game.
#[derive(Clone, Copy, Debug, PartialEq, Eq, Structural)]
pub enum SelectStep {
    /// Wait until the player wants to choose the game.
    WaitForPlayer,
    ChooseGame,
    VerifyGame,
    /// Save the selection.
    Remember,
    /// Show that the selection is complete.
    Finish,
    Done,
    Failed,
}

/// The step that follows.
pub open spec fn select_after(step: SelectStep, ok: bool) -> SelectStep {
    match step {
        SelectStep::Done => SelectStep::Done,
        SelectStep::Failed => SelectStep::Failed,
        _ => if !ok {
            SelectStep::Failed
        } else {
            match step {
                SelectStep::WaitForPlayer => SelectStep::ChooseGame,
                SelectStep::ChooseGame => SelectStep::VerifyGame,
                SelectStep::VerifyGame => SelectStep::Remember,
                SelectStep::Remember => SelectStep::Finish,
                _ => SelectStep::Done,
            }
        },
    }
}

/// The step that follows.
pub fn next_select_step(step: SelectStep, ok: bool) -> (r: SelectStep)
    ensures
        r == select_after(step, ok),
{
    match step {
        SelectStep::Done => SelectStep::Done,
        SelectStep::Failed => SelectStep::Failed,
        _ => if !ok {
            SelectStep::Failed
        } else {
            match step {
                SelectStep::WaitForPlayer => SelectStep::ChooseGame,
                SelectStep::ChooseGame => SelectStep::VerifyGame,
                SelectStep::VerifyGame => SelectStep::Remember,
                SelectStep::Remember => SelectStep::Finish,
                _ => SelectStep::Done,
            }
        },
    }
}

/// What the player reads at a step.
pub open spec fn select_message(step: SelectStep) -> Option<Seq<char>> {
    match step {
        SelectStep::ChooseGame => Some("Select the Divine Knockout executable"@),
        SelectStep::VerifyGame => Some("Verifying original game files"@),
        _ => None,
    }
}

/// What the player reads at a step.
pub fn message_of_select(step: SelectStep) -> (r: Option<&'static str>)
    ensures
        match r {
            Some(text) => select_message(step) == Some(text@),
            None => select_message(step) is None,
        },
{
    match step {
        SelectStep::ChooseGame => Some("Select the Divine Knockout executable"),
        SelectStep::VerifyGame => Some("Verifying original game files"),
        _ => None,
    }
}

/// Where a selection stands after its steps turned out as they did.
pub open spec fn select_run(results: Seq<bool>) -> SelectStep
    decreases results.len(),
{
    if results.len() == 0 {
        SelectStep::WaitForPlayer
    } else {
        select_after(select_run(results.drop_last()), results.last())
    }
}

/// How many steps were taken before a step.
pub open spec fn select_rank(step: SelectStep) -> int {
    match step {
        SelectStep::WaitForPlayer => 0,
        SelectStep::ChooseGame => 1,
        SelectStep::VerifyGame => 2,
        SelectStep::Remember => 3,
        SelectStep::Finish => 4,
        SelectStep::Done => 5,
        SelectStep::Failed => 6,
    }
}

/// The saved selection changes only after the player chose a game and it was verified.
pub proof fn law_selection_is_remembered_verified(results: Seq<bool>)
    ensures
        select_run(results) != SelectStep::Failed && select_run(results) != SelectStep::Done
            ==> select_rank(select_run(results)) == results.len() && forall|i: int|
            0 <= i < results.len() ==> #[trigger] results[i],
        select_run(results) == SelectStep::Remember ==> results.len() == 3 && results[0]
            && results[1] && results[2],
    decreases results.len(),
{
    if results.len() > 0 {
        let front = results.drop_last();
        law_selection_is_remembered_verified(front);
        assert forall|i: int|
            0 <= i < results.len() && select_run(results) != SelectStep::Failed && select_run(
                results,
            ) != SelectStep::Done implies #[trigger] results[i] by {
            if i < front.len() {
                assert(front[i] == results[i]);
            }
        }
    }
}

/// One step of checking that the launcher is ready.
#[derive(Clone, Copy, Debug, PartialEq, Eq, Structural)]
pub enum DoctorStep {
    ReadSettings,
    /// Is this launcher the program for the links?
    CheckHandler,
    /// Prepare a launch of the selected game.
    PreparePaths,
    /// Is the selected game there?
    FindGame,
    VerifyGame,
    /// Ask the configured server for the game manifest.
    FetchManifest,
    Done,
    Failed,
}

/// The step that follows.
pub open spec fn doctor_after(step: DoctorStep, ok: bool) -> DoctorStep {
    match step {
        DoctorStep::Done => DoctorStep::Done,
        DoctorStep::Failed => DoctorStep::Failed,
        _ => if !ok {
            DoctorStep::Failed
        } else {
            match step {
                DoctorStep::ReadSettings => DoctorStep::CheckHandler,
                DoctorStep::CheckHandler => DoctorStep::PreparePaths,
                DoctorStep::PreparePaths => DoctorStep::FindGame,
                DoctorStep::FindGame => DoctorStep::VerifyGame,
                DoctorStep::VerifyGame => DoctorStep::FetchManifest,
                _ => DoctorStep::Done,
            }
        },
    }
}

/// The step that follows.
pub fn next_doctor_step(step: DoctorStep, ok: bool) -> (r: DoctorStep)
    ensures
        r == doctor_after(step, ok),
{
    match step {
        DoctorStep::Done => DoctorStep::Done,
        DoctorStep::Failed => DoctorStep::Failed,
        _ => if !ok {
            DoctorStep::Failed
        } else {
            match step {
                DoctorStep::ReadSettings => DoctorStep::CheckHandler,
                DoctorStep::CheckHandler => DoctorStep::PreparePaths,
                DoctorStep::PreparePaths => DoctorStep::FindGame,
                DoctorStep::FindGame => DoctorStep::VerifyGame,
                DoctorStep::VerifyGame => DoctorStep::FetchManifest,
                _ => DoctorStep::Done,
            }
        },
    }
}

/// Where a check stands after its steps turned out as they did.
pub open spec fn doctor_run(results: Seq<bool>) -> DoctorStep
    decreases results.len(),
{
    if results.len() == 0 {
        DoctorStep::ReadSettings
    } else {
        doctor_after(doctor_run(results.drop_last()), results.last())
    }
}

/// How many steps were taken before a step.
pub open spec fn doctor_rank(step: DoctorStep) -> int {
    match step {
        DoctorStep::ReadSettings => 0,
        DoctorStep::CheckHandler => 1,
        DoctorStep::PreparePaths => 2,
        DoctorStep::FindGame => 3,
        DoctorStep::VerifyGame => 4,
        DoctorStep::FetchManifest => 5,
        DoctorStep::Done => 6,
        DoctorStep::Failed => 7,
    }
}

/// The launcher is called ready only when the handler, the game and the server were all
/// found to be in order.
pub proof fn law_ready_means_everything_was_checked(results: Seq<bool>)
    ensures
        doctor_run(results) != DoctorStep::Failed && doctor_run(results) != DoctorStep::Done
            ==> doctor_rank(doctor_run(results)) == results.len(),
        doctor_run(results) != DoctorStep::Failed ==> doctor_rank(doctor_run(results))
            <= results.len() && forall|i: int|
            0 <= i < doctor_rank(doctor_run(results)) ==> #[trigger] results[i],
    decreases results.len(),
{
    if results.len() > 0 {
        let front = results.drop_last();
        law_ready_means_everything_was_checked(front);
        assert forall|i: int|
            doctor_run(results) != DoctorStep::Failed && 0 <= i < doctor_rank(
                doctor_run(results),
            ) implies #[trigger] results[i] by {
            if i < front.len() {
                assert(front[i] == results[i]);
            }
        }
    }
}

/// Whether this launcher is the program for the links: `expected` is what the system
/// should hold about the program, `found` what it holds, and `is_file` says whether the
/// program is there.
pub fn handler_is_installed(found: &Option<String>, expected: &Option<String>, is_file: bool) -> (r:
    bool)
    ensures
        r == (is_file && *expected is Some && maybe_text(*found) == maybe_text(*expected)),
{
    match (found, expected) {
        (Some(found), Some(expected)) => is_file && spells(
            letters(found.as_str()).as_slice(),
            expected.as_str(),
        ),
        _ => false,
    }
}

/// What is said when another program, or none, is the program for the links.
pub fn handler_missing() -> (r: &'static str)
    ensures
        r@ == "the project-knockout protocol handler is not installed; run setup again"@,
{
    "the project-knockout protocol handler is not installed; run setup again"
}

} // verus!
