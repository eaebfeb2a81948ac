//! Replacing what is installed without ever being without it.
//!
//! The new generation is put together under another name. What is installed is then set
//! aside, the new generation takes its place, and what was set aside is brought back
//! when that fails. Every step is a single operation on the file system; whoever
//! performs it says whether it succeeded.
use vstd::prelude::*;

verus! {

/// What stands under a name.
pub enum Slot {
    Empty,
    Old,
    /// A new generation that is not complete.
    Partial,
    New,
}

/// What stands under the three names.
#[verifier::ext_equal]
pub struct Shelf {
    pub current: Slot,
    pub staged: Slot,
    pub previous: Slot,
}

/// One step of putting a new generation in place.
#[derive(Clone, Copy, Debug, PartialEq, Eq, Structural)]
pub enum SwapStep {
    /// Is something installed?
    Look,
    /// Rename what is installed to the name for the previous generation.
    SetAside,
    /// Rename the new generation to the name for what is installed.
    Activate,
    /// Is there a previous generation, and nothing installed?
    LookBack,
    /// Rename the previous generation to the name for what is installed.
    Restore,
    /// The new generation is installed.
    Finished,
    /// What was installed could not be set aside.
    NotSetAside,
    /// The new generation could not be put in place.
    NotActivated,
}

/// The step that follows; `ok` is the answer to a question, or whether an operation
/// succeeded.
pub open spec fn swap_after(step: SwapStep, ok: bool) -> SwapStep {
    match step {
        SwapStep::Look => if ok {
            SwapStep::SetAside
        } else {
            SwapStep::Activate
        },
        SwapStep::SetAside => if ok {
            SwapStep::Activate
        } else {
            SwapStep::NotSetAside
        },
        SwapStep::Activate => if ok {
            SwapStep::Finished
        } else {
            SwapStep::LookBack
        },
        SwapStep::LookBack => if ok {
            SwapStep::Restore
        } else {
            SwapStep::NotActivated
        },
        SwapStep::Restore => SwapStep::NotActivated,
        SwapStep::Finished => SwapStep::Finished,
        SwapStep::NotSetAside => SwapStep::NotSetAside,
        SwapStep::NotActivated => SwapStep::NotActivated,
    }
}

/// The step that follows.
pub fn next_swap_step(step: SwapStep, ok: bool) -> (r: SwapStep)
    ensures
        r == swap_after(step, ok),
{
    match step {
        SwapStep::Look => if ok {
            SwapStep::SetAside
        } else {
            SwapStep::Activate
        },
        SwapStep::SetAside => if ok {
            SwapStep::Activate
        } else {
            SwapStep::NotSetAside
        },
        SwapStep::Activate => if ok {
            SwapStep::Finished
        } else {
            SwapStep::LookBack
        },
        SwapStep::LookBack => if ok {
            SwapStep::Restore
        } else {
            SwapStep::NotActivated
        },
        SwapStep::Restore => SwapStep::NotActivated,
        SwapStep::Finished => SwapStep::Finished,
        SwapStep::NotSetAside => SwapStep::NotSetAside,
        SwapStep::NotActivated => SwapStep::NotActivated,
    }
}

/// What the three names stand for after a step. Answers are true, a rename either
/// happens or changes nothing.
pub open spec fn swap_effect(step: SwapStep, before: Shelf, ok: bool, after: Shelf) -> bool {
    match step {
        SwapStep::Look => after == before && ok == !(before.current is Empty),
        SwapStep::LookBack => after == before && ok == (!(before.previous is Empty)
            && before.current is Empty),
        SwapStep::SetAside => after == if ok {
            Shelf { current: Slot::Empty, previous: before.current, ..before }
        } else {
            before
        },
        SwapStep::Activate => after == if ok {
            Shelf { current: before.staged, staged: Slot::Empty, ..before }
        } else {
            before
        },
        SwapStep::Restore => after == if ok {
            Shelf { current: before.previous, previous: Slot::Empty, ..before }
        } else {
            before
        },
        _ => after == before,
    }
}

/// What the three names stand for at a step, when `old` was installed at the start.
pub open spec fn swap_state(step: SwapStep, shelf: Shelf, old: Slot) -> bool {
    match step {
        SwapStep::Look => shelf == (Shelf {
            current: old,
            staged: Slot::New,
            previous: Slot::Empty,
        }),
        SwapStep::SetAside => !(old is Empty) && shelf == (Shelf {
            current: old,
            staged: Slot::New,
            previous: Slot::Empty,
        }),
        SwapStep::Activate | SwapStep::LookBack => shelf == (Shelf {
            current: Slot::Empty,
            staged: Slot::New,
            previous: old,
        }),
        SwapStep::Restore => !(old is Empty) && shelf == (Shelf {
            current: Slot::Empty,
            staged: Slot::New,
            previous: old,
        }),
        SwapStep::Finished => shelf == (Shelf {
            current: Slot::New,
            staged: Slot::Empty,
            previous: old,
        }),
        SwapStep::NotSetAside => shelf == (Shelf {
            current: old,
            staged: Slot::New,
            previous: Slot::Empty,
        }),
        SwapStep::NotActivated => shelf.staged is New && {
            ||| shelf.current == old && shelf.previous is Empty
            ||| shelf.current is Empty && shelf.previous == old
        },
    }
}

/// However each step turns out, what was installed is never lost: at every moment it is
/// installed, or set aside and on its way back, or the new generation has taken its
/// place.
pub proof fn law_swap_loses_nothing(step: SwapStep, before: Shelf, ok: bool, after: Shelf, old: Slot)
    requires
        old is Empty || old is Old,
        swap_state(step, before, old),
        swap_effect(step, before, ok, after),
    ensures
        swap_state(swap_after(step, ok), after, old),
{
}

/// When a new generation cannot be put in place and what was installed can be brought
/// back, everything is as it was before.
pub proof fn law_failed_swap_is_undone(before: Shelf, after: Shelf, old: Slot)
    requires
        old is Old,
        swap_state(SwapStep::Restore, before, old),
        swap_effect(SwapStep::Restore, before, true, after),
    ensures
        after == (Shelf { current: old, staged: Slot::New, previous: Slot::Empty }),
{
}

/// One step of replacing the installed launcher.
#[derive(Clone, Copy, Debug, PartialEq, Eq, Structural)]
pub enum ReplaceStep {
    RemoveStaged,
    RemovePrevious,
    /// Copy the new launcher to the name for the new generation.
    Copy,
    Swap { step: SwapStep },
    RemoveOld,
    Done,
    Failed,
}

/// How a step turned out.
#[derive(Clone, Copy, Debug, PartialEq, Eq, Structural)]
pub struct StepResult {
    pub ok: bool,
    /// The system did not permit it.
    pub denied: bool,
}

/// The step that follows. `same` says that the new launcher is the installed one, in
/// which case there is nothing to replace; on Windows the old one may still be running
/// and then stays.
pub open spec fn replace_after(step: ReplaceStep, result: StepResult, same: bool, windows: bool) -> ReplaceStep {
    match step {
        ReplaceStep::RemoveStaged => if result.ok {
            ReplaceStep::RemovePrevious
        } else {
            ReplaceStep::Failed
        },
        ReplaceStep::RemovePrevious => if !result.ok {
            ReplaceStep::Failed
        } else if same {
            ReplaceStep::Done
        } else {
            ReplaceStep::Copy
        },
        ReplaceStep::Copy => if result.ok {
            ReplaceStep::Swap { step: SwapStep::Look }
        } else {
            ReplaceStep::Failed
        },
        ReplaceStep::Swap { step } => match swap_after(step, result.ok) {
            SwapStep::Finished => ReplaceStep::RemoveOld,
            SwapStep::NotSetAside | SwapStep::NotActivated => ReplaceStep::Failed,
            other => ReplaceStep::Swap { step: other },
        },
        ReplaceStep::RemoveOld => if result.ok || (windows && result.denied) {
            ReplaceStep::Done
        } else {
            ReplaceStep::Failed
        },
        ReplaceStep::Done => ReplaceStep::Done,
        ReplaceStep::Failed => ReplaceStep::Failed,
    }
}

/// The step that follows.
pub fn next_replace_step(step: ReplaceStep, result: StepResult, same: bool, windows: bool) -> (r:
    ReplaceStep)
    ensures
        r == replace_after(step, result, same, windows),
{
    match step {
        ReplaceStep::RemoveStaged => if result.ok {
            ReplaceStep::RemovePrevious
        } else {
            ReplaceStep::Failed
        },
        ReplaceStep::RemovePrevious => if !result.ok {
            ReplaceStep::Failed
        } else if same {
            ReplaceStep::Done
        } else {
            ReplaceStep::Copy
        },
        ReplaceStep::Copy => if result.ok {
            ReplaceStep::Swap { step: SwapStep::Look }
        } else {
            ReplaceStep::Failed
        },
        ReplaceStep::Swap { step } => match next_swap_step(step, result.ok) {
            SwapStep::Finished => ReplaceStep::RemoveOld,
            SwapStep::NotSetAside => ReplaceStep::Failed,
            SwapStep::NotActivated => ReplaceStep::Failed,
            other => ReplaceStep::Swap { step: other },
        },
        ReplaceStep::RemoveOld => if result.ok || (windows && result.denied) {
            ReplaceStep::Done
        } else {
            ReplaceStep::Failed
        },
        ReplaceStep::Done => ReplaceStep::Done,
        ReplaceStep::Failed => ReplaceStep::Failed,
    }
}

/// What the three names stand for after a step. A copy that fails may leave a part.
pub open spec fn replace_effect(step: ReplaceStep, before: Shelf, ok: bool, after: Shelf) -> bool {
    match step {
        ReplaceStep::RemoveStaged => after == if ok {
            Shelf { staged: Slot::Empty, ..before }
        } else {
            before
        },
        ReplaceStep::RemovePrevious | ReplaceStep::RemoveOld => after == if ok {
            Shelf { previous: Slot::Empty, ..before }
        } else {
            before
        },
        ReplaceStep::Copy => if ok {
            after == (Shelf { staged: Slot::New, ..before })
        } else {
            after == (Shelf { staged: after.staged, ..before })
        },
        ReplaceStep::Swap { step } => swap_effect(step, before, ok, after),
        ReplaceStep::Done | ReplaceStep::Failed => after == before,
    }
}

/// What is installed at the end of a replacement, or can be had back: never a part.
pub open spec fn is_safe(shelf: Shelf, old: Slot) -> bool {
    ||| shelf.current == old
    ||| shelf.current is New
    ||| shelf.current is Empty && shelf.previous == old
}

/// What the three names stand for at a step. When the launcher that runs is the
/// installed one (`same`), it stays. At the end nothing is left under the other two
/// names, but for a launcher that Windows keeps because it still runs.
pub open spec fn replace_state(
    step: ReplaceStep,
    shelf: Shelf,
    old: Slot,
    same: bool,
    windows: bool,
) -> bool {
    match step {
        ReplaceStep::RemoveStaged => shelf.current == old,
        ReplaceStep::RemovePrevious => shelf.current == old && shelf.staged is Empty,
        ReplaceStep::Copy => !same && shelf == (Shelf {
            current: old,
            staged: Slot::Empty,
            previous: Slot::Empty,
        }),
        ReplaceStep::Swap { step } => !same && swap_state(step, shelf, old),
        ReplaceStep::RemoveOld => !same && shelf == (Shelf {
            current: Slot::New,
            staged: Slot::Empty,
            previous: old,
        }),
        ReplaceStep::Done => {
            &&& shelf.current == if same {
                old
            } else {
                Slot::New
            }
            &&& shelf.staged is Empty
            &&& shelf.previous is Empty || (windows && !same && shelf.previous == old)
        },
        ReplaceStep::Failed => is_safe(shelf, old),
    }
}

/// However each step turns out: a replacement that succeeds has installed the new
/// launcher and left nothing else behind, and one that fails leaves the old one
/// installed, or set aside and intact.
pub proof fn law_launcher_is_never_lost(
    step: ReplaceStep,
    before: Shelf,
    result: StepResult,
    after: Shelf,
    old: Slot,
    same: bool,
    windows: bool,
)
    requires
        old is Empty || old is Old,
        replace_state(step, before, old, same, windows),
        replace_effect(step, before, result.ok, after),
    ensures
        replace_state(replace_after(step, result, same, windows), after, old, same, windows),
{
    if let ReplaceStep::Swap { step: inner } = step {
        law_swap_loses_nothing(inner, before, result.ok, after, old);
    }
}

/// Where a replacement stands after its steps turned out as they did.
pub open spec fn replace_run(results: Seq<StepResult>, same: bool, windows: bool) -> ReplaceStep
    decreases results.len(),
{
    if results.len() == 0 {
        ReplaceStep::RemoveStaged
    } else {
        replace_after(
            replace_run(results.drop_last(), same, windows),
            results.last(),
            same,
            windows,
        )
    }
}

/// What the three names stood for before, between and after the steps of a replacement.
pub open spec fn is_replacement(
    results: Seq<StepResult>,
    shelves: Seq<Shelf>,
    same: bool,
    windows: bool,
) -> bool {
    &&& shelves.len() == results.len() + 1
    &&& forall|i: int|
        0 <= i < results.len() ==> replace_effect(
            replace_run(results.take(i), same, windows),
            #[trigger] shelves[i],
            results[i].ok,
            shelves[i + 1],
        )
}

/// At the end of a whole replacement the new launcher is installed and nothing else is
/// left, but for an old one that Windows keeps while it runs; or the replacement failed
/// and the old launcher is installed, or set aside and intact.
pub proof fn law_replacement_is_safe(
    results: Seq<StepResult>,
    shelves: Seq<Shelf>,
    old: Slot,
    same: bool,
    windows: bool,
)
    requires
        old is Empty || old is Old,
        is_replacement(results, shelves, same, windows),
        shelves[0].current == old,
    ensures
        replace_state(replace_run(results, same, windows), shelves.last(), old, same, windows),
    decreases results.len(),
{
    if results.len() > 0 {
        let front = results.drop_last();
        let earlier = shelves.drop_last();
        let n = results.len() - 1;
        assert forall|i: int| 0 <= i < front.len() implies replace_effect(
            replace_run(front.take(i), same, windows),
            #[trigger] earlier[i],
            front[i].ok,
            earlier[i + 1],
        ) by {
            assert(front.take(i) =~= results.take(i));
            assert(earlier[i] == shelves[i]);
        }
        law_replacement_is_safe(front, earlier, old, same, windows);
        assert(results.take(n) =~= front);
        assert(earlier.last() == shelves[n]);
        assert(replace_effect(
            replace_run(results.take(n), same, windows),
            shelves[n],
            results[n].ok,
            shelves[n + 1],
        ));
        law_launcher_is_never_lost(
            replace_run(front, same, windows),
            shelves[n],
            results[n],
            shelves[n + 1],
            old,
            same,
            windows,
        );
    }
}

/// One step of installing the game's runtime.
#[derive(Clone, Copy, Debug, PartialEq, Eq, Structural)]
pub enum InstallStep {
    FetchManifest,
    VerifyRetail,
    /// Make sure that nobody else installs or removes the runtime.
    Lock,
    /// Remove what an interrupted update left with the launcher's data.
    ClearInactive,
    /// Is the runtime what the manifest says?
    Inspect,
    ClearStaged,
    ClearPrevious,
    CreateStaged,
    /// Link or copy the retail game into the new runtime.
    LinkRetail,
    Download { index: usize },
    /// Record what the runtime is made of.
    Record,
    Swap { step: SwapStep },
    DropPrevious,
    Done { updated: bool },
    Failed,
}

/// The step that follows, for a manifest of `files` files.
pub open spec fn install_after(step: InstallStep, ok: bool, files: nat) -> InstallStep {
    match step {
        InstallStep::Inspect => if ok {
            InstallStep::Done { updated: false }
        } else {
            InstallStep::ClearStaged
        },
        InstallStep::Swap { step } => match swap_after(step, ok) {
            SwapStep::Finished => InstallStep::DropPrevious,
            SwapStep::NotSetAside | SwapStep::NotActivated => InstallStep::Failed,
            other => InstallStep::Swap { step: other },
        },
        InstallStep::Done { updated } => InstallStep::Done { updated },
        InstallStep::Failed => InstallStep::Failed,
        _ => if !ok {
            InstallStep::Failed
        } else {
            match step {
                InstallStep::FetchManifest => InstallStep::VerifyRetail,
                InstallStep::VerifyRetail => InstallStep::Lock,
                InstallStep::Lock => InstallStep::ClearInactive,
                InstallStep::ClearInactive => InstallStep::Inspect,
                InstallStep::ClearStaged => InstallStep::ClearPrevious,
                InstallStep::ClearPrevious => InstallStep::CreateStaged,
                InstallStep::CreateStaged => InstallStep::LinkRetail,
                InstallStep::LinkRetail => if files > 0 {
                    InstallStep::Download { index: 0 }
                } else {
                    InstallStep::Record
                },
                InstallStep::Download { index } => if index + 1 < files {
                    InstallStep::Download { index: (index + 1) as usize }
                } else {
                    InstallStep::Record
                },
                InstallStep::Record => InstallStep::Swap { step: SwapStep::Look },
                InstallStep::DropPrevious => InstallStep::Done { updated: true },
                _ => InstallStep::Failed,
            }
        },
    }
}

/// The step that follows.
pub fn next_install_step(step: InstallStep, ok: bool, files: usize) -> (r: InstallStep)
    ensures
        r == install_after(step, ok, files as nat),
{
    match step {
        InstallStep::Inspect => if ok {
            InstallStep::Done { updated: false }
        } else {
            InstallStep::ClearStaged
        },
        InstallStep::Swap { step } => match next_swap_step(step, ok) {
            SwapStep::Finished => InstallStep::DropPrevious,
            SwapStep::NotSetAside => InstallStep::Failed,
            SwapStep::NotActivated => InstallStep::Failed,
            other => InstallStep::Swap { step: other },
        },
        InstallStep::Done { updated } => InstallStep::Done { updated },
        InstallStep::Failed => InstallStep::Failed,
        _ => if !ok {
            InstallStep::Failed
        } else {
            match step {
                InstallStep::FetchManifest => InstallStep::VerifyRetail,
                InstallStep::VerifyRetail => InstallStep::Lock,
                InstallStep::Lock => InstallStep::ClearInactive,
                InstallStep::ClearInactive => InstallStep::Inspect,
                InstallStep::ClearStaged => InstallStep::ClearPrevious,
                InstallStep::ClearPrevious => InstallStep::CreateStaged,
                InstallStep::CreateStaged => InstallStep::LinkRetail,
                InstallStep::LinkRetail => if files > 0 {
                    InstallStep::Download { index: 0 }
                } else {
                    InstallStep::Record
                },
                InstallStep::Download { index } => if index < files && files - index > 1 {
                    InstallStep::Download { index: index + 1 }
                } else {
                    InstallStep::Record
                },
                InstallStep::Record => InstallStep::Swap { step: SwapStep::Look },
                InstallStep::DropPrevious => InstallStep::Done { updated: true },
                _ => InstallStep::Failed,
            }
        },
    }
}

/// What the three names stand for after a step. Putting the new runtime together is a
/// matter of many files: when it fails, and until it is recorded, it is a part.
pub open spec fn install_effect(step: InstallStep, before: Shelf, ok: bool, after: Shelf) -> bool {
    match step {
        InstallStep::ClearStaged => if ok {
            after == (Shelf { staged: Slot::Empty, ..before })
        } else {
            after == (Shelf { staged: after.staged, ..before })
        },
        InstallStep::ClearPrevious | InstallStep::DropPrevious => if ok {
            after == (Shelf { previous: Slot::Empty, ..before })
        } else {
            after == (Shelf { previous: after.previous, ..before })
        },
        InstallStep::CreateStaged | InstallStep::LinkRetail | InstallStep::Download { .. } => after
            == (Shelf { staged: Slot::Partial, ..before }),
        InstallStep::Record => after == (Shelf {
            staged: if ok {
                Slot::New
            } else {
                Slot::Partial
            },
            ..before
        }),
        InstallStep::Swap { step } => swap_effect(step, before, ok, after),
        _ => after == before,
    }
}

/// What the three names stand for at a step.
pub open spec fn install_state(step: InstallStep, shelf: Shelf, old: Slot) -> bool {
    match step {
        InstallStep::CreateStaged
        | InstallStep::LinkRetail
        | InstallStep::Download { .. }
        | InstallStep::Record => shelf.current == old && shelf.previous is Empty,
        InstallStep::Swap { step } => swap_state(step, shelf, old),
        InstallStep::DropPrevious => shelf == (Shelf {
            current: Slot::New,
            staged: Slot::Empty,
            previous: old,
        }),
        InstallStep::Done { updated } => if updated {
            shelf == (Shelf { current: Slot::New, staged: Slot::Empty, previous: Slot::Empty })
        } else {
            shelf.current == old
        },
        InstallStep::Failed => is_safe(shelf, old),
        _ => shelf.current == old,
    }
}

/// However each step turns out: the runtime that the game is started from is the old
/// one or the complete new one, never a part; and an update that fails leaves the old
/// one installed, or set aside and intact.
pub proof fn law_runtime_is_never_partial(
    step: InstallStep,
    before: Shelf,
    ok: bool,
    after: Shelf,
    old: Slot,
    files: nat,
)
    requires
        old is Empty || old is Old,
        install_state(step, before, old),
        install_effect(step, before, ok, after),
    ensures
        install_state(install_after(step, ok, files), after, old),
        !(after.current is Partial),
{
    if let InstallStep::Swap { step: inner } = step {
        law_swap_loses_nothing(inner, before, ok, after, old);
    }
}

/// Where an installation stands after its steps turned out as they did.
pub open spec fn install_run(results: Seq<bool>, files: nat) -> InstallStep
    decreases results.len(),
{
    if results.len() == 0 {
        InstallStep::FetchManifest
    } else {
        install_after(install_run(results.drop_last(), files), results.last(), files)
    }
}

/// The `k`th step was the download of a file, and it succeeded.
pub open spec fn downloads_at(results: Seq<bool>, files: nat, index: int, k: int) -> bool {
    &&& 0 <= k < results.len()
    &&& install_run(results.take(k), files) == InstallStep::Download { index: index as usize }
    &&& results[k]
}

/// The file was downloaded.
pub open spec fn is_downloaded(results: Seq<bool>, files: nat, index: int) -> bool {
    exists|k: int| downloads_at(results, files, index, k)
}

/// The step comes after the downloads.
pub open spec fn follows_downloads(step: InstallStep) -> bool {
    match step {
        InstallStep::Record | InstallStep::Swap { .. } | InstallStep::DropPrevious => true,
        InstallStep::Done { updated } => updated,
        _ => false,
    }
}

/// The runtime is recorded and put in place only after every file of the manifest was
/// downloaded, in the order of the manifest.
pub proof fn law_everything_is_downloaded(results: Seq<bool>, files: nat)
    requires
        files <= usize::MAX,
    ensures
        follows_downloads(install_run(results, files)) ==> forall|j: int|
            0 <= j < files ==> #[trigger] is_downloaded(results, files, j),
        install_run(results, files) matches InstallStep::Download { index } ==> index < files
            && forall|j: int| 0 <= j < index ==> #[trigger] is_downloaded(results, files, j),
    decreases results.len(),
{
    if results.len() > 0 {
        let front = results.drop_last();
        let before = install_run(front, files);
        law_everything_is_downloaded(front, files);
        assert forall|j: int| #[trigger] is_downloaded(front, files, j) implies is_downloaded(
            results,
            files,
            j,
        ) by {
            let k = choose|k: int| downloads_at(front, files, j, k);
            assert(front.take(k) =~= results.take(k));
            assert(downloads_at(results, files, j, k));
        }
        if let InstallStep::Download { index } = before {
            if results.last() {
                let k = results.len() - 1;
                assert(results.take(k) =~= front);
                assert(downloads_at(results, files, index as int, k));
                assert(is_downloaded(results, files, index as int));
            }
        }
        assert forall|j: int|
            0 <= j < files && follows_downloads(
                install_run(results, files),
            ) implies #[trigger] is_downloaded(results, files, j) by {
            assert(is_downloaded(front, files, j) || is_downloaded(results, files, j));
        }
        if let InstallStep::Download { index } = install_run(results, files) {
            assert forall|j: int| 0 <= j < index implies #[trigger] is_downloaded(
                results,
                files,
                j,
            ) by {
                assert(is_downloaded(front, files, j) || is_downloaded(results, files, j));
            }
        }
    }
}

/// What the three names stood for before, between and after the steps of an
/// installation.
pub open spec fn is_installation(results: Seq<bool>, shelves: Seq<Shelf>, files: nat) -> bool {
    &&& shelves.len() == results.len() + 1
    &&& forall|i: int|
        0 <= i < results.len() ==> install_effect(
            install_run(results.take(i), files),
            #[trigger] shelves[i],
            results[i],
            shelves[i + 1],
        )
}

/// Through a whole installation the runtime is never a part. At its end the new runtime
/// is in place and nothing else is left, or the old one was current and stays, or the
/// installation failed and the old one is in place, or set aside and intact.
pub proof fn law_installation_is_safe(
    results: Seq<bool>,
    shelves: Seq<Shelf>,
    files: nat,
    old: Slot,
)
    requires
        old is Empty || old is Old,
        is_installation(results, shelves, files),
        shelves[0].current == old,
    ensures
        install_state(install_run(results, files), shelves.last(), old),
        forall|i: int| 0 <= i < shelves.len() ==> !((#[trigger] shelves[i]).current is Partial),
    decreases results.len(),
{
    if results.len() > 0 {
        let front = results.drop_last();
        let earlier = shelves.drop_last();
        let n = results.len() - 1;
        assert forall|i: int| 0 <= i < front.len() implies install_effect(
            install_run(front.take(i), files),
            #[trigger] earlier[i],
            front[i],
            earlier[i + 1],
        ) by {
            assert(front.take(i) =~= results.take(i));
            assert(earlier[i] == shelves[i]);
        }
        law_installation_is_safe(front, earlier, files, old);
        assert(results.take(n) =~= front);
        assert(earlier.last() == shelves[n]);
        assert(install_effect(install_run(results.take(n), files), shelves[n], results[n], shelves[n
            + 1]));
        law_runtime_is_never_partial(
            install_run(front, files),
            shelves[n],
            results[n],
            shelves[n + 1],
            old,
            files,
        );
        assert forall|i: int| 0 <= i < shelves.len() implies !((
        #[trigger] shelves[i]).current is Partial) by {
            if i < n + 1 {
                assert(earlier[i] == shelves[i]);
            }
        }
    }
}

/// How far an installation has come.
pub open spec fn install_rank(step: InstallStep, files: int) -> int {
    match step {
        InstallStep::FetchManifest => 0,
        InstallStep::VerifyRetail => 1,
        InstallStep::Lock => 2,
        InstallStep::ClearInactive => 3,
        InstallStep::Inspect => 4,
        InstallStep::ClearStaged => 5,
        InstallStep::ClearPrevious => 6,
        InstallStep::CreateStaged => 7,
        InstallStep::LinkRetail => 8,
        InstallStep::Download { index } => 9 + (if index < files {
            index as int
        } else {
            files
        }),
        InstallStep::Record => 10 + files,
        InstallStep::Swap { step } => 11 + files + swap_rank(step),
        InstallStep::DropPrevious => 30 + files,
        InstallStep::Done { .. } => 31 + files,
        InstallStep::Failed => 31 + files,
    }
}

pub open spec fn swap_rank(step: SwapStep) -> int {
    match step {
        SwapStep::Look => 0,
        SwapStep::SetAside => 1,
        SwapStep::Activate => 2,
        SwapStep::LookBack => 3,
        SwapStep::Restore => 4,
        SwapStep::Finished => 5,
        SwapStep::NotSetAside => 5,
        SwapStep::NotActivated => 5,
    }
}

/// An installation comes to an end, however its steps turn out: every step leads to a
/// later one.
pub proof fn law_installation_ends(step: InstallStep, ok: bool, files: nat)
    requires
        files <= usize::MAX,
        !(step is Done),
        !(step is Failed),
        step matches InstallStep::Swap { step: inner } ==> swap_rank(inner) < 5,
    ensures
        install_rank(step, files as int) < install_rank(install_after(step, ok, files), files as int),
{
}

/// What the player reads at a step, and how far the launch is, in thousandths.
pub open spec fn install_message(step: InstallStep) -> Option<(Seq<char>, int)> {
    match step {
        InstallStep::FetchManifest => Some(("Checking the game update manifest"@, 240)),
        InstallStep::VerifyRetail => Some(
            ("Verifying DivineKnockout.exe and the stock game PAK"@, 280),
        ),
        InstallStep::Inspect => Some(("Checking installed game update files"@, 360)),
        InstallStep::ClearStaged => Some(("Preparing the isolated game update"@, 420)),
        InstallStep::Record => Some(("Verifying downloaded game update files"@, 850)),
        InstallStep::Swap { step } => if step == SwapStep::Activate {
            Some(("Installing the verified game update"@, 880))
        } else {
            None
        },
        InstallStep::Done { updated } => if updated {
            Some(("Game update installed"@, 900))
        } else {
            Some(("Game update files are current"@, 900))
        },
        _ => None,
    }
}

/// What the player reads at a step, and how far the launch is, in thousandths.
pub fn message_of_install(step: InstallStep) -> (r: Option<(&'static str, u32)>)
    ensures
        match r {
            Some((text, progress)) => install_message(step) == Some((text@, progress as int)),
            None => install_message(step) is None,
        },
{
    match step {
        InstallStep::FetchManifest => Some(("Checking the game update manifest", 240)),
        InstallStep::VerifyRetail => Some(
            ("Verifying DivineKnockout.exe and the stock game PAK", 280),
        ),
        InstallStep::Inspect => Some(("Checking installed game update files", 360)),
        InstallStep::ClearStaged => Some(("Preparing the isolated game update", 420)),
        InstallStep::Record => Some(("Verifying downloaded game update files", 850)),
        InstallStep::Swap { step } => match step {
            SwapStep::Activate => Some(("Installing the verified game update", 880)),
            _ => None,
        },
        InstallStep::Done { updated } => if updated {
            Some(("Game update installed", 900))
        } else {
            Some(("Game update files are current", 900))
        },
        _ => None,
    }
}

} // verus!
