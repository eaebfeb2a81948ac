//! What the launcher does, step by step: updating itself, starting the game, and setting
//! itself up.
//!
//! Whoever performs a step says how it turned out; what follows is decided here.
use crate::dialog::{decode_lossy, lossy_text};
use crate::digest::{format_download_size, size_text};
use crate::launcher_update::{LauncherArtifact, LauncherManifest};
use crate::settings::{Build, Setting};
use crate::text::{concat, letters, spells};
use crate::windows_setup::BindingError;
use vstd::prelude::*;

verus! {

/// How a step turned out.
#[derive(Clone, Copy, Debug, PartialEq, Eq, Structural)]
pub enum Answer {
    Yes,
    No,
    Failed,
}

/// The name of a platform in the list of launchers.
pub fn platform(windows: bool) -> (r: &'static str)
    ensures
        r@ == if windows {
            "windows-x86_64"@
        } else {
            "linux-x86_64"@
        },
{
    if windows {
        "windows-x86_64"
    } else {
        "linux-x86_64"
    }
}

/// The launcher that is published for a platform: the first one in the list.
pub fn published_launcher<'a>(manifest: &'a LauncherManifest, platform: &str) -> (r: Option<
    &'a LauncherArtifact,
>)
    ensures
        match r {
            Some(artifact) => exists|i: int|
                {
                    &&& 0 <= i < manifest.launchers@.len()
                    &&& #[trigger] manifest.launchers@[i] == *artifact
                    &&& artifact.platform@ == platform@
                    &&& forall|j: int|
                        0 <= j < i ==> (#[trigger] manifest.launchers@[j]).platform@ != platform@
                },
            None => forall|j: int|
                0 <= j < manifest.launchers@.len() ==> (
                #[trigger] manifest.launchers@[j]).platform@ != platform@,
        },
{
    let mut i: usize = 0;
    while i < manifest.launchers.len()
        invariant
            i <= manifest.launchers@.len(),
            forall|j: int|
                0 <= j < i ==> (#[trigger] manifest.launchers@[j]).platform@ != platform@,
        decreases manifest.launchers@.len() - i,
    {
        if spells(letters(manifest.launchers[i].platform.as_str()).as_slice(), platform) {
            return Some(&manifest.launchers[i]);
        }
        i = i + 1;
    }
    None
}

/// What is said when no launcher is published for a platform.
pub fn launcher_not_published(platform: &str) -> (r: String)
    ensures
        r@ == "server did not publish a launcher for "@ + platform@,
{
    concat("server did not publish a launcher for ", platform)
}

/// Where a published launcher is downloaded from.
pub fn launcher_download_path(build: &Build, artifact: &LauncherArtifact) -> (r: String)
    ensures
        r@ == build.value(Setting::LauncherFilesPrefix) + artifact.sha256@,
{
    concat(build.get(Setting::LauncherFilesPrefix), artifact.sha256.as_str())
}

/// Whether a file is the published launcher, going by its digest as far as it is known.
pub fn is_published(artifact: &LauncherArtifact, digest: &Option<String>) -> (r: bool)
    ensures
        r == (digest matches Some(text) && text@ == artifact.sha256@),
{
    match digest {
        Some(text) => spells(letters(text.as_str()).as_slice(), artifact.sha256.as_str()),
        None => false,
    }
}

/// What the player reads while the launcher is downloaded.
pub fn launcher_download_message(downloaded: u64, total: u64) -> (r: String)
    ensures
        r@ == "Downloading launcher update — "@ + size_text(downloaded as int) + " / "@ + size_text(
            total as int,
        ),
{
    let text = concat(
        "Downloading launcher update — ",
        format_download_size(downloaded).as_str(),
    );
    let text = concat(text.as_str(), " / ");
    concat(text.as_str(), format_download_size(total).as_str())
}

/// One step of keeping the launcher up to date.
#[derive(Clone, Copy, Debug, PartialEq, Eq, Structural)]
pub enum UpdateStep {
    /// Fetch the list of launchers and find the one for this platform.
    FetchManifest,
    PrepareDirectory,
    /// Remove what an earlier update left; it does not matter if that fails.
    RemoveOld,
    /// Is the installed launcher the published one?
    CheckInstalled,
    /// Is the running launcher the published one?
    CheckRunning,
    /// Hand the same link to the installed launcher.
    HandOver,
    Download,
    Stage,
    Replace,
    RemoveDownload,
    Restart,
    /// The running launcher is the published one and goes on.
    Current,
    /// The published launcher was started in place of this one.
    Replaced,
    Failed,
}

/// The step that follows.
pub open spec fn update_after(step: UpdateStep, answer: Answer) -> UpdateStep {
    match step {
        UpdateStep::RemoveOld => UpdateStep::CheckInstalled,
        UpdateStep::CheckInstalled => if answer == Answer::Yes {
            UpdateStep::CheckRunning
        } else {
            UpdateStep::Download
        },
        UpdateStep::CheckRunning => match answer {
            Answer::Yes => UpdateStep::Current,
            Answer::No => UpdateStep::HandOver,
            Answer::Failed => UpdateStep::Failed,
        },
        UpdateStep::Current => UpdateStep::Current,
        UpdateStep::Replaced => UpdateStep::Replaced,
        UpdateStep::Failed => UpdateStep::Failed,
        _ => if answer != Answer::Yes {
            UpdateStep::Failed
        } else {
            match step {
                UpdateStep::FetchManifest => UpdateStep::PrepareDirectory,
                UpdateStep::PrepareDirectory => UpdateStep::RemoveOld,
                UpdateStep::HandOver => UpdateStep::Replaced,
                UpdateStep::Download => UpdateStep::Stage,
                UpdateStep::Stage => UpdateStep::Replace,
                UpdateStep::Replace => UpdateStep::RemoveDownload,
                UpdateStep::RemoveDownload => UpdateStep::Restart,
                UpdateStep::Restart => UpdateStep::Replaced,
                _ => UpdateStep::Failed,
            }
        },
    }
}

/// The step that follows.
pub fn next_update_step(step: UpdateStep, answer: Answer) -> (r: UpdateStep)
    ensures
        r == update_after(step, answer),
{
    match step {
        UpdateStep::RemoveOld => UpdateStep::CheckInstalled,
        UpdateStep::CheckInstalled => if answer == Answer::Yes {
            UpdateStep::CheckRunning
        } else {
            UpdateStep::Download
        },
        UpdateStep::CheckRunning => match answer {
            Answer::Yes => UpdateStep::Current,
            Answer::No => UpdateStep::HandOver,
            Answer::Failed => UpdateStep::Failed,
        },
        UpdateStep::Current => UpdateStep::Current,
        UpdateStep::Replaced => UpdateStep::Replaced,
        UpdateStep::Failed => UpdateStep::Failed,
        _ => if answer != Answer::Yes {
            UpdateStep::Failed
        } else {
            match step {
                UpdateStep::FetchManifest => UpdateStep::PrepareDirectory,
                UpdateStep::PrepareDirectory => UpdateStep::RemoveOld,
                UpdateStep::HandOver => UpdateStep::Replaced,
                UpdateStep::Download => UpdateStep::Stage,
                UpdateStep::Stage => UpdateStep::Replace,
                UpdateStep::Replace => UpdateStep::RemoveDownload,
                UpdateStep::RemoveDownload => UpdateStep::Restart,
                UpdateStep::Restart => UpdateStep::Replaced,
                _ => UpdateStep::Failed,
            }
        },
    }
}

/// Where an update stands after its steps turned out as they did.
pub open spec fn update_run(answers: Seq<Answer>) -> UpdateStep
    decreases answers.len(),
{
    if answers.len() == 0 {
        UpdateStep::FetchManifest
    } else {
        update_after(update_run(answers.drop_last()), answers.last())
    }
}

/// At some point of a run, a step turned out in a way.
pub open spec fn update_saw(answers: Seq<Answer>, step: UpdateStep, answer: Answer) -> bool {
    exists|i: int|
        0 <= i < answers.len() && #[trigger] answers[i] == answer && update_run(answers.take(i)) == step
}

proof fn lemma_update_saw(answers: Seq<Answer>, step: UpdateStep, answer: Answer)
    requires
        answers.len() > 0,
    ensures
        update_saw(answers.drop_last(), step, answer) ==> update_saw(answers, step, answer),
        update_run(answers.drop_last()) == step && answers.last() == answer ==> update_saw(
            answers,
            step,
            answer,
        ),
{
    let front = answers.drop_last();
    if update_saw(front, step, answer) {
        let i = choose|i: int|
            0 <= i < front.len() && #[trigger] front[i] == answer && update_run(front.take(i)) == step;
        assert(answers[i] == front[i]);
        assert(answers.take(i) =~= front.take(i));
    }
    if update_run(front) == step && answers.last() == answer {
        let i = answers.len() - 1;
        assert(answers.take(i) =~= front);
        assert(answers[i] == answer);
    }
}

/// The launcher goes on only when both it and the installed one were found to be the
/// published one.
pub proof fn law_only_the_published_launcher_goes_on(answers: Seq<Answer>)
    ensures
        update_run(answers) == UpdateStep::CheckRunning ==> update_saw(
            answers,
            UpdateStep::CheckInstalled,
            Answer::Yes,
        ),
        update_run(answers) == UpdateStep::Current ==> update_saw(
            answers,
            UpdateStep::CheckInstalled,
            Answer::Yes,
        ) && update_saw(answers, UpdateStep::CheckRunning, Answer::Yes),
    decreases answers.len(),
{
    if answers.len() > 0 {
        law_only_the_published_launcher_goes_on(answers.drop_last());
        lemma_update_saw(answers, UpdateStep::CheckInstalled, Answer::Yes);
        lemma_update_saw(answers, UpdateStep::CheckRunning, Answer::Yes);
    }
}

/// What the player reads at a step, and how far the launch is, in thousandths.
pub open spec fn update_message(step: UpdateStep) -> Option<(Seq<char>, int)> {
    match step {
        UpdateStep::FetchManifest => Some(("Checking for a launcher update"@, 70)),
        UpdateStep::CheckInstalled => Some(("Verifying the installed launcher"@, 100)),
        UpdateStep::Current => Some(("Launcher is up to date"@, 140)),
        UpdateStep::HandOver => Some(("Switching to the current launcher"@, 220)),
        UpdateStep::Stage => Some(("Verifying and installing launcher update"@, 205)),
        UpdateStep::Restart => Some(("Launcher updated — restarting"@, 220)),
        _ => None,
    }
}

/// What the player reads at a step, and how far the launch is, in thousandths.
pub fn message_of_update(step: UpdateStep) -> (r: Option<(&'static str, u32)>)
    ensures
        match r {
            Some((text, progress)) => update_message(step) == Some((text@, progress as int)),
            None => update_message(step) is None,
        },
{
    match step {
        UpdateStep::FetchManifest => Some(("Checking for a launcher update", 70)),
        UpdateStep::CheckInstalled => Some(("Verifying the installed launcher", 100)),
        UpdateStep::Current => Some(("Launcher is up to date", 140)),
        UpdateStep::HandOver => Some(("Switching to the current launcher", 220)),
        UpdateStep::Stage => Some(("Verifying and installing launcher update", 205)),
        UpdateStep::Restart => Some(("Launcher updated — restarting", 220)),
        _ => None,
    }
}

/// One step of starting the game from a link.
#[derive(Clone, Copy, Debug, PartialEq, Eq, Structural)]
pub enum LaunchStep {
    /// Does the link ask for a repair?
    CheckRepair,
    Repair,
    ReadLink,
    ReadSettings,
    Acknowledge,
    ReportUpdating,
    /// Bring the launcher up to date. Was another one started in its place?
    Update,
    SelectGame,
    VerifyGame,
    ReportVerified,
    InstallGame,
    PreparePaths,
    /// Is the executable there?
    CheckExecutable,
    ReportStarting,
    Start,
    ReportStarted,
    Done,
    ReportFailure,
    Failed,
}

/// The step that follows. Updating is the first thing that is done once the launch is
/// acknowledged, so that no fault of an old launcher can keep it from being updated.
/// Reports are sent, but it does not matter whether they arrive.
pub open spec fn launch_after(step: LaunchStep, answer: Answer) -> LaunchStep {
    match step {
        LaunchStep::CheckRepair => match answer {
            Answer::Yes => LaunchStep::Repair,
            Answer::No => LaunchStep::ReadLink,
            Answer::Failed => LaunchStep::Failed,
        },
        LaunchStep::Repair => if answer == Answer::Yes {
            LaunchStep::Done
        } else {
            LaunchStep::Failed
        },
        LaunchStep::ReadLink => if answer == Answer::Yes {
            LaunchStep::ReadSettings
        } else {
            LaunchStep::Failed
        },
        LaunchStep::ReadSettings => if answer == Answer::Yes {
            LaunchStep::Acknowledge
        } else {
            LaunchStep::Failed
        },
        LaunchStep::ReportUpdating => LaunchStep::Update,
        LaunchStep::Update => match answer {
            Answer::Yes => LaunchStep::Done,
            Answer::No => LaunchStep::SelectGame,
            Answer::Failed => LaunchStep::ReportFailure,
        },
        LaunchStep::ReportVerified => LaunchStep::InstallGame,
        LaunchStep::ReportStarting => LaunchStep::Start,
        LaunchStep::ReportStarted => LaunchStep::Done,
        LaunchStep::ReportFailure => LaunchStep::Failed,
        LaunchStep::Done => LaunchStep::Done,
        LaunchStep::Failed => LaunchStep::Failed,
        _ => if answer != Answer::Yes {
            LaunchStep::ReportFailure
        } else {
            match step {
                LaunchStep::Acknowledge => LaunchStep::ReportUpdating,
                LaunchStep::SelectGame => LaunchStep::VerifyGame,
                LaunchStep::VerifyGame => LaunchStep::ReportVerified,
                LaunchStep::InstallGame => LaunchStep::PreparePaths,
                LaunchStep::PreparePaths => LaunchStep::CheckExecutable,
                LaunchStep::CheckExecutable => LaunchStep::ReportStarting,
                LaunchStep::Start => LaunchStep::ReportStarted,
                _ => LaunchStep::Failed,
            }
        },
    }
}

/// The step that follows.
pub fn next_launch_step(step: LaunchStep, answer: Answer) -> (r: LaunchStep)
    ensures
        r == launch_after(step, answer),
{
    match step {
        LaunchStep::CheckRepair => match answer {
            Answer::Yes => LaunchStep::Repair,
            Answer::No => LaunchStep::ReadLink,
            Answer::Failed => LaunchStep::Failed,
        },
        LaunchStep::Repair => if answer == Answer::Yes {
            LaunchStep::Done
        } else {
            LaunchStep::Failed
        },
        LaunchStep::ReadLink => if answer == Answer::Yes {
            LaunchStep::ReadSettings
        } else {
            LaunchStep::Failed
        },
        LaunchStep::ReadSettings => if answer == Answer::Yes {
            LaunchStep::Acknowledge
        } else {
            LaunchStep::Failed
        },
        LaunchStep::ReportUpdating => LaunchStep::Update,
        LaunchStep::Update => match answer {
            Answer::Yes => LaunchStep::Done,
            Answer::No => LaunchStep::SelectGame,
            Answer::Failed => LaunchStep::ReportFailure,
        },
        LaunchStep::ReportVerified => LaunchStep::InstallGame,
        LaunchStep::ReportStarting => LaunchStep::Start,
        LaunchStep::ReportStarted => LaunchStep::Done,
        LaunchStep::ReportFailure => LaunchStep::Failed,
        LaunchStep::Done => LaunchStep::Done,
        LaunchStep::Failed => LaunchStep::Failed,
        _ => if answer != Answer::Yes {
            LaunchStep::ReportFailure
        } else {
            match step {
                LaunchStep::Acknowledge => LaunchStep::ReportUpdating,
                LaunchStep::SelectGame => LaunchStep::VerifyGame,
                LaunchStep::VerifyGame => LaunchStep::ReportVerified,
                LaunchStep::InstallGame => LaunchStep::PreparePaths,
                LaunchStep::PreparePaths => LaunchStep::CheckExecutable,
                LaunchStep::CheckExecutable => LaunchStep::ReportStarting,
                LaunchStep::Start => LaunchStep::ReportStarted,
                _ => LaunchStep::Failed,
            }
        },
    }
}

/// Where a launch stands after its steps turned out as they did.
pub open spec fn launch_run(answers: Seq<Answer>) -> LaunchStep
    decreases answers.len(),
{
    if answers.len() == 0 {
        LaunchStep::CheckRepair
    } else {
        launch_after(launch_run(answers.drop_last()), answers.last())
    }
}

/// At some point of a launch, a step turned out in a way.
pub open spec fn launch_saw(answers: Seq<Answer>, step: LaunchStep, answer: Answer) -> bool {
    exists|i: int|
        0 <= i < answers.len() && #[trigger] answers[i] == answer && launch_run(answers.take(i)) == step
}

proof fn lemma_launch_saw(answers: Seq<Answer>, step: LaunchStep, answer: Answer)
    requires
        answers.len() > 0,
    ensures
        launch_saw(answers.drop_last(), step, answer) ==> launch_saw(answers, step, answer),
        launch_run(answers.drop_last()) == step && answers.last() == answer ==> launch_saw(
            answers,
            step,
            answer,
        ),
{
    let front = answers.drop_last();
    if launch_saw(front, step, answer) {
        let i = choose|i: int|
            0 <= i < front.len() && #[trigger] front[i] == answer && launch_run(front.take(i)) == step;
        assert(answers[i] == front[i]);
        assert(answers.take(i) =~= front.take(i));
    }
    if launch_run(front) == step && answers.last() == answer {
        let i = answers.len() - 1;
        assert(answers.take(i) =~= front);
        assert(answers[i] == answer);
    }
}

/// How far a launch has come.
pub open spec fn launch_rank(step: LaunchStep) -> int {
    match step {
        LaunchStep::CheckRepair => 0,
        LaunchStep::ReadLink => 1,
        LaunchStep::ReadSettings => 2,
        LaunchStep::Acknowledge => 3,
        LaunchStep::ReportUpdating => 4,
        LaunchStep::Update => 5,
        LaunchStep::SelectGame => 6,
        LaunchStep::VerifyGame => 7,
        LaunchStep::ReportVerified => 8,
        LaunchStep::InstallGame => 9,
        LaunchStep::PreparePaths => 10,
        LaunchStep::CheckExecutable => 11,
        LaunchStep::ReportStarting => 12,
        LaunchStep::Start => 13,
        LaunchStep::ReportStarted => 14,
        LaunchStep::Repair => 20,
        LaunchStep::ReportFailure => 21,
        LaunchStep::Done => 22,
        LaunchStep::Failed => 22,
    }
}

/// A launch has come past a step only if the step turned out in the one way that leads
/// past it.
proof fn lemma_gate_was_passed(answers: Seq<Answer>, gate: LaunchStep, way: Answer)
    requires
        launch_rank(gate) >= 1,
        forall|step: LaunchStep, answer: Answer|
            launch_rank(gate) < launch_rank(#[trigger] launch_after(step, answer)) < 20 ==> (
            launch_rank(gate) < launch_rank(step) < 20) || (step == gate && answer == way),
    ensures
        launch_rank(gate) < launch_rank(launch_run(answers)) < 20 ==> launch_saw(
            answers,
            gate,
            way,
        ),
    decreases answers.len(),
{
    if answers.len() > 0 {
        lemma_gate_was_passed(answers.drop_last(), gate, way);
        lemma_launch_saw(answers, gate, way);
        let before = launch_run(answers.drop_last());
        assert(launch_run(answers) == launch_after(before, answers.last()));
    }
}

/// The game is started only after the link was read, the server acknowledged the
/// launch, the launcher turned out to be up to date, the retail game was verified and
/// the runtime was installed. The same holds of every step on the way, as far as the
/// launch has come.
pub proof fn law_game_starts_verified(answers: Seq<Answer>)
    ensures
        ({
            let rank = launch_rank(launch_run(answers));
            &&& 1 < rank < 20 ==> launch_saw(answers, LaunchStep::ReadLink, Answer::Yes)
            &&& 3 < rank < 20 ==> launch_saw(answers, LaunchStep::Acknowledge, Answer::Yes)
            &&& 5 < rank < 20 ==> launch_saw(answers, LaunchStep::Update, Answer::No)
            &&& 7 < rank < 20 ==> launch_saw(answers, LaunchStep::VerifyGame, Answer::Yes)
            &&& 9 < rank < 20 ==> launch_saw(answers, LaunchStep::InstallGame, Answer::Yes)
            &&& 11 < rank < 20 ==> launch_saw(answers, LaunchStep::CheckExecutable, Answer::Yes)
        }),
{
    lemma_gate_was_passed(answers, LaunchStep::ReadLink, Answer::Yes);
    lemma_gate_was_passed(answers, LaunchStep::Acknowledge, Answer::Yes);
    lemma_gate_was_passed(answers, LaunchStep::Update, Answer::No);
    lemma_gate_was_passed(answers, LaunchStep::VerifyGame, Answer::Yes);
    lemma_gate_was_passed(answers, LaunchStep::InstallGame, Answer::Yes);
    lemma_gate_was_passed(answers, LaunchStep::CheckExecutable, Answer::Yes);
}

/// A launch comes to an end, however its steps turn out.
pub proof fn law_launch_ends(step: LaunchStep, answer: Answer)
    requires
        step != LaunchStep::Done,
        step != LaunchStep::Failed,
    ensures
        launch_rank(step) < launch_rank(launch_after(step, answer)),
{
}

/// A failure is reported to the server exactly when the launch was read and the server
/// is known.
pub proof fn law_failure_is_reported(step: LaunchStep, answer: Answer)
    requires
        launch_rank(LaunchStep::Acknowledge) <= launch_rank(step) < 20,
        launch_after(step, answer) == LaunchStep::Failed || launch_after(step, answer)
            == LaunchStep::ReportFailure,
    ensures
        launch_after(step, answer) == LaunchStep::ReportFailure,
{
}

/// What the player reads at a step, and how far the launch is, in thousandths.
pub open spec fn launch_message(step: LaunchStep) -> Option<(Seq<char>, int)> {
    match step {
        LaunchStep::ReadSettings => Some(("Starting Project KNOCKOUT launcher"@, 20)),
        LaunchStep::Acknowledge => Some(("Authenticating this launch request"@, 40)),
        LaunchStep::ReportUpdating => Some(("Launch request authenticated"@, 60)),
        LaunchStep::InstallGame => Some(
            ("Verified the selected Divine Knockout installation"@, 220),
        ),
        LaunchStep::ReportStarting => Some(("Starting Divine Knockout"@, 940)),
        _ => None,
    }
}

/// What the player reads at a step, and how far the launch is, in thousandths.
pub fn message_of_launch(step: LaunchStep) -> (r: Option<(&'static str, u32)>)
    ensures
        match r {
            Some((text, progress)) => launch_message(step) == Some((text@, progress as int)),
            None => launch_message(step) is None,
        },
{
    match step {
        LaunchStep::ReadSettings => Some(("Starting Project KNOCKOUT launcher", 20)),
        LaunchStep::Acknowledge => Some(("Authenticating this launch request", 40)),
        LaunchStep::ReportUpdating => Some(("Launch request authenticated", 60)),
        LaunchStep::InstallGame => Some(
            ("Verified the selected Divine Knockout installation", 220),
        ),
        LaunchStep::ReportStarting => Some(("Starting Divine Knockout", 940)),
        _ => None,
    }
}

/// What the server is told at a step.
pub open spec fn launch_report(step: LaunchStep) -> Option<Seq<char>> {
    match step {
        LaunchStep::ReportUpdating => Some("launcher_updating"@),
        LaunchStep::ReportVerified => Some("preflight_passed"@),
        LaunchStep::ReportStarting => Some("process_starting"@),
        LaunchStep::ReportStarted => Some("process_started"@),
        LaunchStep::ReportFailure => Some("failed"@),
        _ => None,
    }
}

/// What the server is told at a step.
pub fn report_of_launch(step: LaunchStep) -> (r: Option<&'static str>)
    ensures
        match r {
            Some(text) => launch_report(step) == Some(text@),
            None => launch_report(step) is None,
        },
{
    match step {
        LaunchStep::ReportUpdating => Some("launcher_updating"),
        LaunchStep::ReportVerified => Some("preflight_passed"),
        LaunchStep::ReportStarting => Some("process_starting"),
        LaunchStep::ReportStarted => Some("process_started"),
        LaunchStep::ReportFailure => Some("failed"),
        _ => None,
    }
}

/// What is said when the executable that is to be started is not there.
pub fn executable_missing(path: &[u8]) -> (r: String)
    ensures
        r@ == "DKO executable missing: "@ + lossy_text(path@),
{
    concat("DKO executable missing: ", decode_lossy(path).as_str())
}

/// What is said when the selected game is not there.
pub fn game_not_found(path: &[u8]) -> (r: String)
    ensures
        r@ == "Divine Knockout was not found at "@ + lossy_text(path@),
{
    concat("Divine Knockout was not found at ", decode_lossy(path).as_str())
}

/// One step of setting the launcher up.
#[derive(Clone, Copy, Debug, PartialEq, Eq, Structural)]
pub enum SetupStep {
    CheckServer,
    /// Wait until the player wants to choose the game.
    WaitForPlayer,
    ChooseGame,
    VerifyGame,
    /// Put the launcher in its place.
    InstallLauncher,
    /// Save the server and the selected game.
    SaveSettings,
    /// Take the links away from other programs.
    Unregister,
    /// Make this launcher the program for the links.
    Register,
    /// Show that the setup is complete.
    Finish,
    Done,
    Failed,
}

/// The step that follows.
pub open spec fn setup_after(step: SetupStep, ok: bool) -> SetupStep {
    match step {
        SetupStep::Done => SetupStep::Done,
        SetupStep::Failed => SetupStep::Failed,
        _ => if !ok {
            SetupStep::Failed
        } else {
            match step {
                SetupStep::CheckServer => SetupStep::WaitForPlayer,
                SetupStep::WaitForPlayer => SetupStep::ChooseGame,
                SetupStep::ChooseGame => SetupStep::VerifyGame,
                SetupStep::VerifyGame => SetupStep::InstallLauncher,
                SetupStep::InstallLauncher => SetupStep::SaveSettings,
                SetupStep::SaveSettings => SetupStep::Unregister,
                SetupStep::Unregister => SetupStep::Register,
                SetupStep::Register => SetupStep::Finish,
                _ => SetupStep::Done,
            }
        },
    }
}

/// The step that follows.
pub fn next_setup_step(step: SetupStep, ok: bool) -> (r: SetupStep)
    ensures
        r == setup_after(step, ok),
{
    match step {
        SetupStep::Done => SetupStep::Done,
        SetupStep::Failed => SetupStep::Failed,
        _ => if !ok {
            SetupStep::Failed
        } else {
            match step {
                SetupStep::CheckServer => SetupStep::WaitForPlayer,
                SetupStep::WaitForPlayer => SetupStep::ChooseGame,
                SetupStep::ChooseGame => SetupStep::VerifyGame,
                SetupStep::VerifyGame => SetupStep::InstallLauncher,
                SetupStep::InstallLauncher => SetupStep::SaveSettings,
                SetupStep::SaveSettings => SetupStep::Unregister,
                SetupStep::Unregister => SetupStep::Register,
                SetupStep::Register => SetupStep::Finish,
                _ => SetupStep::Done,
            }
        },
    }
}

/// Where a setup stands after its steps turned out as they did.
pub open spec fn setup_run(results: Seq<bool>) -> SetupStep
    decreases results.len(),
{
    if results.len() == 0 {
        SetupStep::CheckServer
    } else {
        setup_after(setup_run(results.drop_last()), results.last())
    }
}

/// The step changes what is saved or installed.
pub open spec fn changes_setup(step: SetupStep) -> bool {
    match step {
        SetupStep::InstallLauncher
        | SetupStep::SaveSettings
        | SetupStep::Unregister
        | SetupStep::Register => true,
        _ => false,
    }
}

/// How far a setup has come.
pub open spec fn setup_rank(step: SetupStep) -> int {
    match step {
        SetupStep::CheckServer => 0,
        SetupStep::WaitForPlayer => 1,
        SetupStep::ChooseGame => 2,
        SetupStep::VerifyGame => 3,
        SetupStep::InstallLauncher => 4,
        SetupStep::SaveSettings => 5,
        SetupStep::Unregister => 6,
        SetupStep::Register => 7,
        SetupStep::Finish => 8,
        SetupStep::Done => 9,
        SetupStep::Failed => 10,
    }
}

/// Giving up during a setup or a repair keeps the working one: nothing is changed
/// before the player chose a game and it was verified.
pub proof fn law_setup_changes_nothing_unverified(results: Seq<bool>)
    ensures
        setup_run(results) != SetupStep::Failed && setup_run(results) != SetupStep::Done
            ==> setup_rank(setup_run(results)) == results.len() && forall|i: int|
            0 <= i < results.len() ==> #[trigger] results[i],
        changes_setup(setup_run(results)) ==> results.len() >= 4 && results[0] && results[1]
            && results[2] && results[3],
    decreases results.len(),
{
    if results.len() > 0 {
        law_setup_changes_nothing_unverified(results.drop_last());
        let front = results.drop_last();
        assert forall|i: int|
            0 <= i < results.len() && setup_run(results) != SetupStep::Failed && setup_run(results)
                != SetupStep::Done implies #[trigger] results[i] by {
            if i < front.len() {
                assert(front[i] == results[i]);
            }
        }
    }
}

/// What the player reads at a step.
pub open spec fn setup_message(step: SetupStep) -> Option<Seq<char>> {
    match step {
        SetupStep::ChooseGame => Some("Choose DivineKnockout.exe in the file window"@),
        SetupStep::VerifyGame => Some("Verifying original game files"@),
        SetupStep::InstallLauncher => Some("Installing Project Knockout launcher"@),
        _ => None,
    }
}

/// What the player reads at a step.
pub fn message_of_setup(step: SetupStep) -> (r: Option<&'static str>)
    ensures
        match r {
            Some(text) => setup_message(step) == Some(text@),
            None => setup_message(step) is None,
        },
{
    match step {
        SetupStep::ChooseGame => Some("Choose DivineKnockout.exe in the file window"),
        SetupStep::VerifyGame => Some("Verifying original game files"),
        SetupStep::InstallLauncher => Some("Installing Project Knockout launcher"),
        _ => None,
    }
}

/// What a program that was started without arguments does.
pub enum SetupChoice {
    /// Set up the launcher for this server.
    Install { server: String },
    /// The launcher is installed already.
    AlreadyInstalled,
    Fail { error: BindingError },
}

/// What a program that was started without arguments does: `bound` is the server that
/// it is bound to, `installed` says whether a launcher is set up, on a system where
/// that is looked at.
pub fn choose_setup(bound: Result<String, BindingError>, installed: bool) -> (r: SetupChoice)
    ensures
        match bound {
            Ok(server) => r == (SetupChoice::Install { server }),
            Err(error) => if installed {
                r is AlreadyInstalled
            } else {
                r == (SetupChoice::Fail { error })
            },
        },
{
    match bound {
        Ok(server) => SetupChoice::Install { server },
        Err(error) => if installed {
            SetupChoice::AlreadyInstalled
        } else {
            SetupChoice::Fail { error }
        },
    }
}

/// The server that a repair is for: the one that is set up, or else the one that the
/// program is bound to. A link never names it.
pub fn repair_server(configured: Option<String>, bound: Option<String>) -> (r: Option<String>)
    ensures
        r == match configured {
            Some(server) => Some(server),
            None => bound,
        },
{
    match configured {
        Some(server) => Some(server),
        None => bound,
    }
}

/// The command that Windows starts for a link, and the icon that it shows.
pub fn registry_command(executable: &str) -> (r: String)
    ensures
        r@ == "\""@ + executable@ + "\" __protocol-launch \"%1\""@,
{
    let text = concat("\"", executable);
    concat(text.as_str(), "\" __protocol-launch \"%1\"")
}

/// The icon that Windows shows for a link.
pub fn registry_icon(executable: &str) -> (r: String)
    ensures
        r@ == "\""@ + executable@ + "\",0"@,
{
    let text = concat("\"", executable);
    concat(text.as_str(), "\",0")
}

} // verus!
