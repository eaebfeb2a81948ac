//! The order in which launchers and runtimes are replaced.
use crate::generations::{
    install_after, install_message, install_run, replace_after, replace_run, swap_after,
    InstallStep, ReplaceStep, StepResult, SwapStep,
};
use crate::laws::course::progress_at;
use vstd::prelude::*;

verus! {

/// Where putting a new generation in place stands after its steps turned out as they did.
pub open spec fn swap_run(results: Seq<bool>) -> SwapStep
    decreases results.len(),
{
    if results.len() == 0 {
        SwapStep::Look
    } else {
        swap_after(swap_run(results.drop_last()), results.last())
    }
}

proof fn lemma_next_swap_step(results: Seq<bool>, i: int)
    requires
        0 <= i < results.len(),
    ensures
        swap_run(results.take(i + 1)) == swap_after(swap_run(results.take(i)), results[i]),
{
    assert(results.take(i + 1).drop_last() =~= results.take(i));
}

/// What is installed is set aside before the new generation takes its place. When that
/// fails, what was set aside is brought back. When it cannot be set aside, nothing is
/// done.
pub proof fn law_installed_generation_is_replaced(results: Seq<bool>)
    requires
        results.len() == 5,
        results[0],
    ensures
        swap_run(results.take(1)) == SwapStep::SetAside,
        !results[1] ==> swap_run(results.take(2)) == SwapStep::NotSetAside,
        results[1] ==> swap_run(results.take(2)) == SwapStep::Activate,
        results[1] && results[2] ==> swap_run(results.take(3)) == SwapStep::Finished,
        results[1] && !results[2] ==> swap_run(results.take(3)) == SwapStep::LookBack,
        results[1] && !results[2] && results[3] ==> swap_run(results.take(4))
            == SwapStep::Restore,
        results[1] && !results[2] ==> swap_run(results) == SwapStep::NotActivated,
        results[1] && results[2] ==> swap_run(results) == SwapStep::Finished,
        !results[1] ==> swap_run(results) == SwapStep::NotSetAside,
{
    assert(results.take(0) =~= Seq::empty());
    lemma_next_swap_step(results, 0);
    lemma_next_swap_step(results, 1);
    lemma_next_swap_step(results, 2);
    lemma_next_swap_step(results, 3);
    lemma_next_swap_step(results, 4);
    assert(results.take(5) =~= results);
}

/// Where nothing is installed the new generation takes its place at once.
pub proof fn law_first_generation_is_installed(results: Seq<bool>)
    requires
        results.len() == 4,
        !results[0],
    ensures
        swap_run(results.take(1)) == SwapStep::Activate,
        results[1] ==> swap_run(results) == SwapStep::Finished,
        !results[1] ==> swap_run(results) == SwapStep::NotActivated,
        !results[1] && results[2] ==> swap_run(results.take(3)) == SwapStep::Restore,
{
    assert(results.take(0) =~= Seq::empty());
    lemma_next_swap_step(results, 0);
    lemma_next_swap_step(results, 1);
    lemma_next_swap_step(results, 2);
    lemma_next_swap_step(results, 3);
    assert(results.take(4) =~= results);
}

/// Replacing the launcher clears what an earlier replacement left, then copies, swaps
/// and removes the old one. A launcher that is to be replaced by itself stays. On
/// Windows an old launcher that may not be removed stays too.
pub proof fn law_launcher_is_replaced(
    first: StepResult,
    second: StepResult,
    third: StepResult,
    last: StepResult,
    same: bool,
    windows: bool,
)
    ensures
        replace_run(Seq::empty(), same, windows) == ReplaceStep::RemoveStaged,
        replace_after(ReplaceStep::RemoveStaged, first, same, windows) == (if first.ok {
            ReplaceStep::RemovePrevious
        } else {
            ReplaceStep::Failed
        }),
        first.ok && second.ok ==> replace_run(seq![first, second], same, windows) == (if same {
            ReplaceStep::Done
        } else {
            ReplaceStep::Copy
        }),
        first.ok && !second.ok ==> replace_run(seq![first, second], same, windows)
            == ReplaceStep::Failed,
        first.ok && second.ok && !same ==> replace_run(seq![first, second, third], same, windows)
            == (if third.ok {
            ReplaceStep::Swap { step: SwapStep::Look }
        } else {
            ReplaceStep::Failed
        }),
        replace_after(ReplaceStep::RemoveOld, last, same, windows) == ReplaceStep::Done
            <==> last.ok || (windows && last.denied),
        replace_after(ReplaceStep::RemoveOld, last, same, windows) == ReplaceStep::Failed
            <==> !last.ok && !(windows && last.denied),
{
    let three = seq![first, second, third];
    let two = seq![first, second];
    let one = seq![first];
    assert(three.drop_last() =~= two);
    assert(two.drop_last() =~= one);
    assert(one.drop_last() =~= Seq::empty());
    assert(replace_run(one.drop_last(), same, windows) == ReplaceStep::RemoveStaged);
    assert(replace_run(one, same, windows) == replace_after(
        ReplaceStep::RemoveStaged,
        first,
        same,
        windows,
    ));
}

/// The new generation is put in place in the same way for launchers and for runtimes,
/// and its failure is theirs.
pub proof fn law_swaps_are_alike(
    step: SwapStep,
    result: StepResult,
    same: bool,
    windows: bool,
    files: nat,
)
    ensures
        ({
            let next = swap_after(step, result.ok);
            let replaced = replace_after(ReplaceStep::Swap { step }, result, same, windows);
            let installed = install_after(InstallStep::Swap { step }, result.ok, files);
            &&& next == SwapStep::Finished ==> replaced == ReplaceStep::RemoveOld && installed
                == InstallStep::DropPrevious
            &&& next == SwapStep::NotSetAside || next == SwapStep::NotActivated ==> replaced
                == ReplaceStep::Failed && installed == InstallStep::Failed
            &&& next != SwapStep::Finished && next != SwapStep::NotSetAside && next
                != SwapStep::NotActivated ==> replaced == (ReplaceStep::Swap { step: next })
                && installed == (InstallStep::Swap { step: next })
        }),
{
}

/// The steps of an installation up to the swap.
pub open spec fn installation_step(k: int, files: nat) -> InstallStep {
    let start = seq![
        InstallStep::FetchManifest,
        InstallStep::VerifyRetail,
        InstallStep::Lock,
        InstallStep::ClearInactive,
        InstallStep::Inspect,
        InstallStep::ClearStaged,
        InstallStep::ClearPrevious,
        InstallStep::CreateStaged,
        InstallStep::LinkRetail,
    ];
    if k < 9 {
        start[k]
    } else if k < 9 + files {
        InstallStep::Download { index: (k - 9) as usize }
    } else if k == 9 + files {
        InstallStep::Record
    } else {
        InstallStep::Swap { step: SwapStep::Look }
    }
}

/// An installation takes its steps in order, with every file of the manifest in its
/// order, and puts the runtime in place when all of them are done. It fails with the
/// first of them that fails, and ends early when the runtime is current.
pub proof fn law_installation_takes_its_course(results: Seq<bool>, files: nat)
    requires
        files <= usize::MAX,
        results.len() <= 10 + files,
        forall|i: int| 0 <= i < results.len() - 1 ==> (#[trigger] results[i] <==> i != 4),
    ensures
        install_run(results, files) == (if results.len() == 5 && results[4] {
            InstallStep::Done { updated: false }
        } else if results.len() > 0 && results.len() != 5 && !results.last() {
            InstallStep::Failed
        } else {
            installation_step(results.len() as int, files)
        }),
    decreases results.len(),
{
    if results.len() > 0 {
        let front = results.drop_last();
        assert forall|i: int| 0 <= i < front.len() - 1 implies (#[trigger] front[i] <==> i
            != 4) by {
            assert(results[i] <==> i != 4);
        }
        law_installation_takes_its_course(front, files);
        if front.len() > 0 {
            assert(results[front.len() - 1] <==> front.len() - 1 != 4);
            assert(front.last() == results[front.len() - 1]);
        }
        if front.len() == 5 {
            assert(front[4] == results[4]);
        }
    }
}

/// What was replaced is removed at the end, and then the game is up to date.
pub proof fn law_end_of_an_installation(ok: bool, files: nat, updated: bool)
    ensures
        install_after(InstallStep::DropPrevious, ok, files) == (if ok {
            InstallStep::Done { updated: true }
        } else {
            InstallStep::Failed
        }),
        install_after(InstallStep::Done { updated }, ok, files) == (InstallStep::Done { updated }),
        install_after(InstallStep::Failed, ok, files) == InstallStep::Failed,
{
}

/// The bar never goes back during an installation.
pub proof fn law_installation_makes_progress(i: int, j: int, files: nat)
    requires
        0 <= i < j <= 9 + files,
        files <= usize::MAX,
        install_message(installation_step(i, files)) is Some,
        install_message(installation_step(j, files)) is Some,
    ensures
        220 < progress_at(install_message(installation_step(i, files))) < progress_at(
            install_message(installation_step(j, files)),
        ) < progress_at(install_message(InstallStep::Swap { step: SwapStep::Activate }))
            < progress_at(install_message(InstallStep::Done { updated: true })) < 940,
{
}

} // verus!
