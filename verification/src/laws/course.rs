//! The order in which things are done.
use crate::desktop::{settings_after, FileResult, SettingsStep};
use crate::launch::{
    launch_after, launch_message, launch_report, launch_run, setup_after, setup_message, setup_run,
    update_after, update_message, update_run, Answer, LaunchStep, SetupStep, UpdateStep,
};
use crate::upkeep::{
    doctor_after, doctor_run, select_after, select_message, select_run, DoctorStep, SelectStep,
};
use vstd::prelude::*;

verus! {

/// One more answer takes a launch one step further.
proof fn lemma_next_launch_step(answers: Seq<Answer>, i: int)
    requires
        0 <= i < answers.len(),
    ensures
        launch_run(answers.take(i + 1)) == launch_after(launch_run(answers.take(i)), answers[i]),
{
    assert(answers.take(i + 1).drop_last() =~= answers.take(i));
}

/// What a launch without a repair or an update goes through. The reports to the server
/// and the player need no answer.
pub open spec fn steps_of_a_launch() -> Seq<LaunchStep> {
    seq![
        LaunchStep::CheckRepair,
        LaunchStep::ReadLink,
        LaunchStep::ReadSettings,
        LaunchStep::Acknowledge,
        LaunchStep::ReportUpdating,
        LaunchStep::Update,
        LaunchStep::SelectGame,
        LaunchStep::VerifyGame,
        LaunchStep::ReportVerified,
        LaunchStep::InstallGame,
        LaunchStep::PreparePaths,
        LaunchStep::CheckExecutable,
        LaunchStep::ReportStarting,
        LaunchStep::Start,
        LaunchStep::ReportStarted,
        LaunchStep::Done,
    ]
}

/// The way that leads on from a step of a launch.
pub open spec fn leads_on(step: LaunchStep, answer: Answer) -> bool {
    match step {
        LaunchStep::CheckRepair | LaunchStep::Update => answer == Answer::No,
        LaunchStep::ReportUpdating
        | LaunchStep::ReportVerified
        | LaunchStep::ReportStarting
        | LaunchStep::ReportStarted => true,
        _ => answer == Answer::Yes,
    }
}

/// A launch takes every step in its order as long as each turns out well, whether or not
/// its reports arrive, and then it is done.
pub proof fn law_launch_takes_its_course(answers: Seq<Answer>, n: int)
    requires
        0 <= n <= answers.len(),
        n <= 15,
        forall|i: int|
            0 <= i < n ==> leads_on(#[trigger] steps_of_a_launch()[i], answers[i]),
    ensures
        launch_run(answers.take(n)) == steps_of_a_launch()[n],
    decreases n,
{
    if n > 0 {
        law_launch_takes_its_course(answers, n - 1);
        lemma_next_launch_step(answers, n - 1);
        assert(leads_on(steps_of_a_launch()[n - 1], answers[n - 1]));
    } else {
        assert(answers.take(0) =~= Seq::empty());
    }
}

/// What goes wrong before the server is known ends the launch; what goes wrong later is
/// reported first. A launcher that was replaced has nothing more to do.
pub proof fn law_launch_that_fails(answers: Seq<Answer>, n: int)
    requires
        0 <= n < 15,
        n < answers.len(),
        forall|i: int|
            0 <= i < n ==> leads_on(#[trigger] steps_of_a_launch()[i], answers[i]),
        !leads_on(steps_of_a_launch()[n], answers[n]),
        !(n == 0 && answers[n] == Answer::Yes),
    ensures
        n <= 2 ==> launch_run(answers.take(n + 1)) == LaunchStep::Failed,
        n == 5 && answers[n] == Answer::Yes ==> launch_run(answers.take(n + 1))
            == LaunchStep::Done,
        n >= 3 && !(n == 5 && answers[n] == Answer::Yes) ==> launch_run(answers.take(n + 1))
            == LaunchStep::ReportFailure,
{
    law_launch_takes_its_course(answers, n);
    lemma_next_launch_step(answers, n);
}

/// A launch that asks for a repair is one: nothing else is done. A reported failure ends
/// the launch, whether or not the report arrives.
pub proof fn law_repair_is_all_that_is_done(answers: Seq<Answer>)
    requires
        answers.len() == 2,
        answers[0] == Answer::Yes,
    ensures
        launch_run(answers.take(1)) == LaunchStep::Repair,
        launch_run(answers) == (if answers[1] == Answer::Yes {
            LaunchStep::Done
        } else {
            LaunchStep::Failed
        }),
        launch_after(LaunchStep::ReportFailure, answers[1]) == LaunchStep::Failed,
{
    assert(answers.take(0) =~= Seq::empty());
    lemma_next_launch_step(answers, 0);
    lemma_next_launch_step(answers, 1);
    assert(answers.take(2) =~= answers);
}

/// What is over stays over.
pub proof fn law_the_end_is_the_end(answer: Answer, ok: bool, result: FileResult)
    ensures
        launch_after(LaunchStep::Done, answer) == LaunchStep::Done,
        launch_after(LaunchStep::Failed, answer) == LaunchStep::Failed,
        update_after(UpdateStep::Current, answer) == UpdateStep::Current,
        update_after(UpdateStep::Replaced, answer) == UpdateStep::Replaced,
        update_after(UpdateStep::Failed, answer) == UpdateStep::Failed,
        setup_after(SetupStep::Done, ok) == SetupStep::Done,
        setup_after(SetupStep::Failed, ok) == SetupStep::Failed,
        select_after(SelectStep::Done, ok) == SelectStep::Done,
        select_after(SelectStep::Failed, ok) == SelectStep::Failed,
        doctor_after(DoctorStep::Done, ok) == DoctorStep::Done,
        doctor_after(DoctorStep::Failed, ok) == DoctorStep::Failed,
        settings_after(SettingsStep::Done, result) == SettingsStep::Done,
        settings_after(SettingsStep::Invalid, result) == SettingsStep::Invalid,
{
}

proof fn lemma_next_update_step(answers: Seq<Answer>, i: int)
    requires
        0 <= i < answers.len(),
    ensures
        update_run(answers.take(i + 1)) == update_after(update_run(answers.take(i)), answers[i]),
{
    assert(answers.take(i + 1).drop_last() =~= answers.take(i));
}

proof fn lemma_update_starts(answers: Seq<Answer>)
    requires
        answers.len() >= 4,
        answers[0] == Answer::Yes,
        answers[1] == Answer::Yes,
    ensures
        update_run(answers.take(1)) == UpdateStep::PrepareDirectory,
        update_run(answers.take(2)) == UpdateStep::RemoveOld,
        update_run(answers.take(3)) == UpdateStep::CheckInstalled,
{
    assert(answers.take(0) =~= Seq::empty());
    lemma_next_update_step(answers, 0);
    lemma_next_update_step(answers, 1);
    lemma_next_update_step(answers, 2);
}

/// When the installed launcher is the published one, the running launcher goes on if it
/// is that too, and else hands over to it. What an earlier update left behind does not
/// stand in the way.
pub proof fn law_published_launcher_is_used(answers: Seq<Answer>)
    requires
        answers.len() == 6,
        answers[0] == Answer::Yes,
        answers[1] == Answer::Yes,
        answers[3] == Answer::Yes,
    ensures
        update_run(answers.take(4)) == UpdateStep::CheckRunning,
        answers[4] == Answer::Yes ==> update_run(answers) == UpdateStep::Current,
        answers[4] == Answer::No && answers[5] == Answer::Yes ==> update_run(answers)
            == UpdateStep::Replaced,
        answers[4] == Answer::No ==> update_run(answers.take(5)) == UpdateStep::HandOver,
        answers[4] == Answer::No && answers[5] != Answer::Yes ==> update_run(answers)
            == UpdateStep::Failed,
        answers[4] == Answer::Failed ==> update_run(answers) == UpdateStep::Failed,
{
    lemma_update_starts(answers);
    lemma_next_update_step(answers, 3);
    lemma_next_update_step(answers, 4);
    lemma_next_update_step(answers, 5);
    assert(answers.take(6) =~= answers);
}

/// Otherwise the published launcher is downloaded, put in place and started, and the
/// update fails where one of these fails.
pub proof fn law_other_launchers_are_replaced(answers: Seq<Answer>, n: int)
    requires
        answers.len() == 9,
        answers[0] == Answer::Yes,
        answers[1] == Answer::Yes,
        answers[3] != Answer::Yes,
        4 <= n <= 9,
        forall|i: int| 4 <= i < n ==> #[trigger] answers[i] == Answer::Yes,
    ensures
        update_run(answers.take(n)) == seq![
            UpdateStep::Download,
            UpdateStep::Stage,
            UpdateStep::Replace,
            UpdateStep::RemoveDownload,
            UpdateStep::Restart,
            UpdateStep::Replaced,
        ][n - 4],
        n < 9 && answers[n] != Answer::Yes ==> update_run(answers.take(n + 1))
            == UpdateStep::Failed,
    decreases n,
{
    lemma_update_starts(answers);
    lemma_next_update_step(answers, n - 1);
    if n > 4 {
        law_other_launchers_are_replaced(answers, n - 1);
        assert(answers[n - 1] == Answer::Yes);
    }
    if n < 9 {
        lemma_next_update_step(answers, n);
    }
}

/// Without the list of launchers and a directory to work in there is no update.
pub proof fn law_update_needs_the_list(answers: Seq<Answer>)
    requires
        answers.len() == 2,
        answers[0] != Answer::Yes || answers[1] != Answer::Yes,
    ensures
        update_run(answers) == UpdateStep::Failed,
{
    assert(answers.take(0) =~= Seq::empty());
    lemma_next_update_step(answers, 0);
    lemma_next_update_step(answers, 1);
    assert(answers.take(2) =~= answers);
}

/// A setup takes its steps in order and fails with the first of them that fails.
pub proof fn law_setup_takes_its_course(results: Seq<bool>)
    requires
        results.len() <= 9,
        forall|i: int| 0 <= i < results.len() - 1 ==> #[trigger] results[i],
    ensures
        setup_run(results) == (if results.len() > 0 && !results.last() {
            SetupStep::Failed
        } else {
            seq![
                SetupStep::CheckServer,
                SetupStep::WaitForPlayer,
                SetupStep::ChooseGame,
                SetupStep::VerifyGame,
                SetupStep::InstallLauncher,
                SetupStep::SaveSettings,
                SetupStep::Unregister,
                SetupStep::Register,
                SetupStep::Finish,
                SetupStep::Done,
            ][results.len() as int]
        }),
    decreases results.len(),
{
    if results.len() > 0 {
        let front = results.drop_last();
        assert forall|i: int| 0 <= i < front.len() implies #[trigger] front[i] by {
            assert(results[i]);
        }
        law_setup_takes_its_course(front);
    }
}

/// Choosing another game takes its steps in order and fails with the first of them that
/// fails.
pub proof fn law_selection_takes_its_course(results: Seq<bool>)
    requires
        results.len() <= 5,
        forall|i: int| 0 <= i < results.len() - 1 ==> #[trigger] results[i],
    ensures
        select_run(results) == (if results.len() > 0 && !results.last() {
            SelectStep::Failed
        } else {
            seq![
                SelectStep::WaitForPlayer,
                SelectStep::ChooseGame,
                SelectStep::VerifyGame,
                SelectStep::Remember,
                SelectStep::Finish,
                SelectStep::Done,
            ][results.len() as int]
        }),
    decreases results.len(),
{
    if results.len() > 0 {
        let front = results.drop_last();
        assert forall|i: int| 0 <= i < front.len() implies #[trigger] front[i] by {
            assert(results[i]);
        }
        law_selection_takes_its_course(front);
    }
}

/// The check of the launcher takes its steps in order and fails with the first of them
/// that fails.
pub proof fn law_check_takes_its_course(results: Seq<bool>)
    requires
        results.len() <= 6,
        forall|i: int| 0 <= i < results.len() - 1 ==> #[trigger] results[i],
    ensures
        doctor_run(results) == (if results.len() > 0 && !results.last() {
            DoctorStep::Failed
        } else {
            seq![
                DoctorStep::ReadSettings,
                DoctorStep::CheckHandler,
                DoctorStep::PreparePaths,
                DoctorStep::FindGame,
                DoctorStep::VerifyGame,
                DoctorStep::FetchManifest,
                DoctorStep::Done,
            ][results.len() as int]
        }),
    decreases results.len(),
{
    if results.len() > 0 {
        let front = results.drop_last();
        assert forall|i: int| 0 <= i < front.len() implies #[trigger] front[i] by {
            assert(results[i]);
        }
        law_check_takes_its_course(front);
    }
}

/// Where reading the settings stands after its steps turned out as they did.
pub open spec fn settings_run(results: Seq<FileResult>) -> SettingsStep
    decreases results.len(),
{
    if results.len() == 0 {
        SettingsStep::Read
    } else {
        settings_after(settings_run(results.drop_last()), results.last())
    }
}

/// Settings that are there are read, and nothing is looked for elsewhere.
pub proof fn law_settings_are_read(results: Seq<FileResult>)
    requires
        results.len() == 2,
        results[0] != FileResult::Missing,
    ensures
        results[0] == FileResult::Failed ==> settings_run(results) == SettingsStep::Unreadable,
        results[0] == FileResult::Good ==> settings_run(results) == (if results[1]
            == FileResult::Good {
            SettingsStep::Done
        } else {
            SettingsStep::Invalid
        }),
{
    let one = results.drop_last();
    assert(one.drop_last() =~= Seq::empty());
    assert(settings_run(one.drop_last()) == SettingsStep::Read);
    assert(settings_run(one) == settings_after(SettingsStep::Read, results[0]));
}

/// Missing settings are taken over from an earlier launcher, if they can be understood,
/// by way of a protected copy.
pub proof fn law_settings_are_taken_over(results: Seq<FileResult>)
    requires
        1 <= results.len() <= 8,
        results[0] == FileResult::Missing,
        forall|i: int| 0 < i < results.len() - 1 ==> #[trigger] results[i] == FileResult::Good,
    ensures
        settings_run(results) == (if results.len() > 1 && results.last() != FileResult::Good {
            seq![
                SettingsStep::Unreadable,
                SettingsStep::LegacyInvalid,
                SettingsStep::NotMigrated,
                SettingsStep::NotMigrated,
                SettingsStep::NotMigrated,
                SettingsStep::NotMigrated,
                SettingsStep::Invalid,
            ][results.len() - 2]
        } else {
            seq![
                SettingsStep::ReadLegacy,
                SettingsStep::CheckLegacy,
                SettingsStep::CreateDirectory,
                SettingsStep::WriteStaged,
                SettingsStep::ProtectStaged,
                SettingsStep::Promote,
                SettingsStep::Decode,
                SettingsStep::Done,
            ][results.len() - 1]
        }),
    decreases results.len(),
{
    let front = results.drop_last();
    if results.len() == 1 {
        assert(front =~= Seq::empty());
        assert(settings_run(front) == SettingsStep::Read);
    } else {
        assert forall|i: int| 0 < i < front.len() implies #[trigger] front[i]
            == FileResult::Good by {
            assert(results[i] == FileResult::Good);
        }
        law_settings_are_taken_over(front);
    }
}

/// The server hears of a launch in this order, and of nothing that did not come about:
/// what it is told speaks of the step that follows, or of the game that was started.
pub proof fn law_reports_of_a_launch(i: int)
    requires
        0 <= i < 16,
    ensures
        launch_report(steps_of_a_launch()[i]) == (if i == 4 {
            Some("launcher_updating"@)
        } else if i == 8 {
            Some("preflight_passed"@)
        } else if i == 12 {
            Some("process_starting"@)
        } else if i == 14 {
            Some("process_started"@)
        } else {
            None
        }),
        launch_report(LaunchStep::ReportFailure) == Some("failed"@),
        launch_report(LaunchStep::Repair) is None,
        launch_report(LaunchStep::Failed) is None,
{
}

/// How far a launch is when a message is shown, in thousandths.
pub open spec fn progress_at(message: Option<(Seq<char>, int)>) -> int {
    match message {
        Some((text, thousandths)) => thousandths,
        None => 0,
    }
}

/// The bar never goes back during a launch.
pub proof fn law_progress_never_goes_back(i: int, j: int)
    requires
        0 <= i < j < 16,
        launch_message(steps_of_a_launch()[i]) is Some,
        launch_message(steps_of_a_launch()[j]) is Some,
    ensures
        ({
            let before = progress_at(launch_message(steps_of_a_launch()[i]));
            let after = progress_at(launch_message(steps_of_a_launch()[j]));
            &&& 0 < before < after < 1000
            &&& i < 5 <= j ==> forall|step: UpdateStep|
                (#[trigger] update_message(step)) is Some ==> before < progress_at(
                    update_message(step),
                ) <= after
        }),
{
}

/// The player reads what is being done next, and how far the launch is.
pub proof fn law_what_the_player_reads()
    ensures
        launch_message(LaunchStep::ReadSettings) == Some(
            ("Starting Project KNOCKOUT launcher"@, 20int),
        ),
        launch_message(LaunchStep::Acknowledge) == Some(
            ("Authenticating this launch request"@, 40int),
        ),
        launch_message(LaunchStep::ReportUpdating) == Some(
            ("Launch request authenticated"@, 60int),
        ),
        update_message(UpdateStep::FetchManifest) == Some(
            ("Checking for a launcher update"@, 70int),
        ),
        update_message(UpdateStep::CheckInstalled) == Some(
            ("Verifying the installed launcher"@, 100int),
        ),
        update_message(UpdateStep::Current) == Some(("Launcher is up to date"@, 140int)),
        update_message(UpdateStep::HandOver) == Some(
            ("Switching to the current launcher"@, 220int),
        ),
        update_message(UpdateStep::Stage) == Some(
            ("Verifying and installing launcher update"@, 205int),
        ),
        launch_message(LaunchStep::InstallGame) == Some(
            ("Verified the selected Divine Knockout installation"@, 220int),
        ),
        launch_message(LaunchStep::ReportStarting) == Some(("Starting Divine Knockout"@, 940int)),
        setup_message(SetupStep::ChooseGame) == Some(
            "Choose DivineKnockout.exe in the file window"@,
        ),
        setup_message(SetupStep::VerifyGame) == Some("Verifying original game files"@),
        setup_message(SetupStep::InstallLauncher) == Some(
            "Installing Project Knockout launcher"@,
        ),
        select_message(SelectStep::ChooseGame) == Some("Select the Divine Knockout executable"@),
        select_message(SelectStep::VerifyGame) == setup_message(SetupStep::VerifyGame),
{
}

} // verus!
