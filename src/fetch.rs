//! Fetching one record: the order of its steps and the outcome each answer leads to.
//!
//! The caller performs the step that `next_step` names (an existence check, a
//! removal, the request, reading the body, creating the parent directory, creating
//! the file, writing it) and hands back whether it answered yes or succeeded.
use vstd::prelude::*;

verus! {

/// How a fetch that did its work ended.
#[derive(Clone, Copy, Debug, PartialEq, Eq)]
pub enum DownloadCompleted {
    /// The content was fetched and written.
    Success,
    /// The destination already existed and was left as it was.
    Skipped,
}

/// Why a fetch failed.
#[derive(Clone, Copy, Debug, PartialEq, Eq)]
pub enum DownloadError {
    /// The destination's parent directories could not be created.
    FailedToCreateParentDirectory,
    /// The destination could not be created, or the old one could not be removed.
    FailedToCreateFile,
    /// The fetched bytes could not be written to the destination.
    FailedToDownloadToFile,
    /// The response's body could not be read.
    FailedToConvertResponseToBytes,
    /// The request itself failed.
    FailedToGetUrl,
}

pub type DownloadResult = Result<DownloadCompleted, DownloadError>;

/// Where the fetch of one record stands.
#[derive(Clone, Copy, Debug, PartialEq, Eq)]
pub enum FetchStep {
    /// Ask whether the destination exists.
    CheckExists,
    /// Remove the existing destination.
    RemoveExisting,
    /// Send the request for the source.
    Get,
    /// Read the whole body of the response.
    ReadBody,
    /// Create the destination's missing parent directories.
    CreateParent,
    /// Create or truncate the destination file.
    CreateFile,
    /// Write the body into the destination file.
    WriteBody,
    /// The fetch is over, with this outcome.
    Done(DownloadResult),
}

/// The step after `step`, given the answer `ok` to it: whether the destination
/// exists for `CheckExists`, whether the step succeeded for the others.
pub open spec fn next_step_spec(step: FetchStep, ok: bool, force_redownload: bool) -> FetchStep {
    match step {
        FetchStep::CheckExists => if !ok {
            FetchStep::Get
        } else if force_redownload {
            FetchStep::RemoveExisting
        } else {
            FetchStep::Done(Ok(DownloadCompleted::Skipped))
        },
        FetchStep::RemoveExisting => if ok {
            FetchStep::Get
        } else {
            FetchStep::Done(Err(DownloadError::FailedToCreateFile))
        },
        FetchStep::Get => if ok {
            FetchStep::ReadBody
        } else {
            FetchStep::Done(Err(DownloadError::FailedToGetUrl))
        },
        FetchStep::ReadBody => if ok {
            FetchStep::CreateParent
        } else {
            FetchStep::Done(Err(DownloadError::FailedToConvertResponseToBytes))
        },
        FetchStep::CreateParent => if ok {
            FetchStep::CreateFile
        } else {
            FetchStep::Done(Err(DownloadError::FailedToCreateParentDirectory))
        },
        FetchStep::CreateFile => if ok {
            FetchStep::WriteBody
        } else {
            FetchStep::Done(Err(DownloadError::FailedToCreateFile))
        },
        FetchStep::WriteBody => if ok {
            FetchStep::Done(Ok(DownloadCompleted::Success))
        } else {
            FetchStep::Done(Err(DownloadError::FailedToDownloadToFile))
        },
        FetchStep::Done(r) => FetchStep::Done(r),
    }
}

/// The step that comes after `step` once it answered `ok`; a finished fetch stays finished.
pub fn next_step(step: FetchStep, ok: bool, force_redownload: bool) -> (r: FetchStep)
    ensures
        r == next_step_spec(step, ok, force_redownload),
{
    match step {
        FetchStep::CheckExists => if !ok {
            FetchStep::Get
        } else if force_redownload {
            FetchStep::RemoveExisting
        } else {
            FetchStep::Done(Ok(DownloadCompleted::Skipped))
        },
        FetchStep::RemoveExisting => if ok {
            FetchStep::Get
        } else {
            FetchStep::Done(Err(DownloadError::FailedToCreateFile))
        },
        FetchStep::Get => if ok {
            FetchStep::ReadBody
        } else {
            FetchStep::Done(Err(DownloadError::FailedToGetUrl))
        },
        FetchStep::ReadBody => if ok {
            FetchStep::CreateParent
        } else {
            FetchStep::Done(Err(DownloadError::FailedToConvertResponseToBytes))
        },
        FetchStep::CreateParent => if ok {
            FetchStep::CreateFile
        } else {
            FetchStep::Done(Err(DownloadError::FailedToCreateParentDirectory))
        },
        FetchStep::CreateFile => if ok {
            FetchStep::WriteBody
        } else {
            FetchStep::Done(Err(DownloadError::FailedToCreateFile))
        },
        FetchStep::WriteBody => if ok {
            FetchStep::Done(Ok(DownloadCompleted::Success))
        } else {
            FetchStep::Done(Err(DownloadError::FailedToDownloadToFile))
        },
        FetchStep::Done(r) => FetchStep::Done(r),
    }
}

/// The steps a fetch passes through from `step` when its steps answer `answers` in
/// turn, up to its end or to the last answer.
pub open spec fn walk(step: FetchStep, force_redownload: bool, answers: Seq<bool>) -> Seq<
    FetchStep,
>
    decreases answers.len(),
{
    if step is Done || answers.len() == 0 {
        seq![step]
    } else {
        seq![step] + walk(
            next_step_spec(step, answers[0], force_redownload),
            force_redownload,
            answers.drop_first(),
        )
    }
}

/// Whether a step changes the file system.
pub open spec fn is_mutating(step: FetchStep) -> bool {
    step is RemoveExisting || step is CreateParent || step is CreateFile || step is WriteBody
}

/// The outcome of a fetch whose steps answer `answers` in turn, or `None` where
/// the answers run out before the fetch ends; answers past its end are not read.
pub fn fetch_outcome(answers: &Vec<bool>, force_redownload: bool) -> (r: Option<DownloadResult>)
    ensures
        r == (match walk(FetchStep::CheckExists, force_redownload, answers@).last() {
            FetchStep::Done(o) => Some(o),
            _ => None,
        }),
{
    let mut step = FetchStep::CheckExists;
    let mut k: usize = 0;
    assert(answers@.skip(0) =~= answers@);
    while k < answers.len() && !matches!(step, FetchStep::Done(_))
        invariant
            k <= answers.len(),
            walk(FetchStep::CheckExists, force_redownload, answers@).last() == walk(
                step,
                force_redownload,
                answers@.skip(k as int),
            ).last(),
        decreases answers.len() - k,
    {
        assert(answers@.skip(k as int).drop_first() =~= answers@.skip(k + 1));
        let nxt = next_step(step, answers[k], force_redownload);
        proof {
            lemma_walk_nonempty(nxt, force_redownload, answers@.skip(k + 1));
        }
        step = nxt;
        k = k + 1;
    }
    if k == answers.len() {
        assert(answers@.skip(k as int) =~= Seq::<bool>::empty());
    }
    match step {
        FetchStep::Done(o) => Some(o),
        _ => None,
    }
}

/// A destination that exists is left alone when no redownload is forced: the fetch
/// ends as skipped right after the existence check, whatever else would answer,
/// and none of its steps changes the file system.
pub proof fn lemma_existing_destination_untouched(answers: Seq<bool>)
    requires
        answers.len() >= 1,
        answers[0],
    ensures
        walk(FetchStep::CheckExists, false, answers) == seq![
            FetchStep::CheckExists,
            FetchStep::Done(Ok(DownloadCompleted::Skipped)),
        ],
        forall|i: int|
            0 <= i < walk(FetchStep::CheckExists, false, answers).len() ==> !is_mutating(
                #[trigger] walk(FetchStep::CheckExists, false, answers)[i],
            ),
{
    let rest = answers.drop_first();
    assert(walk(FetchStep::Done(Ok(DownloadCompleted::Skipped)), false, rest) == seq![
        FetchStep::Done(Ok(DownloadCompleted::Skipped)),
    ]);
    assert(walk(FetchStep::CheckExists, false, answers) =~= seq![
        FetchStep::CheckExists,
        FetchStep::Done(Ok(DownloadCompleted::Skipped)),
    ]);
}

/// A walk starts at its first step.
proof fn lemma_walk_nonempty(step: FetchStep, force_redownload: bool, answers: Seq<bool>)
    ensures
        walk(step, force_redownload, answers).len() >= 1,
        walk(step, force_redownload, answers)[0] == step,
    decreases answers.len(),
{
    if !(step is Done || answers.len() == 0) {
        lemma_walk_nonempty(
            next_step_spec(step, answers[0], force_redownload),
            force_redownload,
            answers.drop_first(),
        );
    }
}

/// Whether the destination exists once the fetch has gone on from `step` through
/// `answers`, given whether it existed before: a removal that succeeds takes it
/// away, a file that is created puts it there.
pub open spec fn exists_after(
    exists: bool,
    step: FetchStep,
    force_redownload: bool,
    answers: Seq<bool>,
) -> bool
    decreases answers.len(),
{
    if step is Done || answers.len() == 0 {
        exists
    } else {
        let ok = answers[0];
        let now = match step {
            FetchStep::RemoveExisting => exists && !ok,
            FetchStep::CreateFile => exists || ok,
            _ => exists,
        };
        exists_after(
            now,
            next_step_spec(step, ok, force_redownload),
            force_redownload,
            answers.drop_first(),
        )
    }
}

/// Whether `step` comes after the existence check and before the file is created.
pub open spec fn precedes_create(step: FetchStep) -> bool {
    step is Get || step is ReadBody || step is CreateParent || step is CreateFile
}

/// A fetch that succeeds from a step before the file is created leaves the
/// destination in place.
proof fn lemma_success_leaves_destination(
    exists: bool,
    step: FetchStep,
    force_redownload: bool,
    answers: Seq<bool>,
)
    requires
        precedes_create(step),
        walk(step, force_redownload, answers).last() == FetchStep::Done(
            Ok(DownloadCompleted::Success),
        ),
    ensures
        exists_after(exists, step, force_redownload, answers),
    decreases answers.len(),
{
    if answers.len() == 0 {
        assert(walk(step, force_redownload, answers) == seq![step]);
    } else {
        let ok = answers[0];
        let rest = answers.drop_first();
        let nxt = next_step_spec(step, ok, force_redownload);
        let w2 = walk(nxt, force_redownload, rest);
        lemma_walk_nonempty(nxt, force_redownload, rest);
        assert(walk(step, force_redownload, answers) == seq![step] + w2);
        assert(walk(step, force_redownload, answers).last() == w2.last());
        if nxt is Done {
            assert(w2 == seq![nxt]);
        } else if step is CreateFile {
            assert(nxt == FetchStep::WriteBody && ok);
            if rest.len() == 0 {
                assert(w2 == seq![nxt]);
            } else {
                let last = next_step_spec(nxt, rest[0], force_redownload);
                assert(exists_after(exists, step, force_redownload, answers) == exists_after(
                    true,
                    nxt,
                    force_redownload,
                    rest,
                ));
                assert(exists_after(true, nxt, force_redownload, rest) == exists_after(
                    true,
                    last,
                    force_redownload,
                    rest.drop_first(),
                ));
                assert(exists_after(true, last, force_redownload, rest.drop_first()));
            }
        } else {
            lemma_success_leaves_destination(
                match step {
                    FetchStep::RemoveExisting => exists && !ok,
                    FetchStep::CreateFile => exists || ok,
                    _ => exists,
                },
                nxt,
                force_redownload,
                rest,
            );
        }
    }
}

/// A fetch that fails from a step before the file is created, other than by a
/// failed write, leaves an absent destination absent.
proof fn lemma_failure_leaves_absent(step: FetchStep, force_redownload: bool, answers: Seq<bool>)
    requires
        precedes_create(step),
        walk(step, force_redownload, answers).last() is Done,
        walk(step, force_redownload, answers).last()->Done_0 is Err,
        walk(step, force_redownload, answers).last() != FetchStep::Done(
            Err(DownloadError::FailedToDownloadToFile),
        ),
    ensures
        !exists_after(false, step, force_redownload, answers),
    decreases answers.len(),
{
    if answers.len() == 0 {
        assert(walk(step, force_redownload, answers) == seq![step]);
    } else {
        let ok = answers[0];
        let rest = answers.drop_first();
        let nxt = next_step_spec(step, ok, force_redownload);
        let w2 = walk(nxt, force_redownload, rest);
        lemma_walk_nonempty(nxt, force_redownload, rest);
        assert(walk(step, force_redownload, answers) == seq![step] + w2);
        assert(walk(step, force_redownload, answers).last() == w2.last());
        if nxt is Done {
            assert(w2 == seq![nxt]);
            assert(!ok);
            assert(exists_after(false, step, force_redownload, answers) == exists_after(
                false,
                nxt,
                force_redownload,
                rest,
            ));
        } else if step is CreateFile {
            assert(nxt == FetchStep::WriteBody);
            if rest.len() == 0 {
                assert(w2 == seq![nxt]);
            } else {
                let last = next_step_spec(nxt, rest[0], force_redownload);
                assert(w2 == seq![nxt] + walk(last, force_redownload, rest.drop_first()));
                assert(walk(last, force_redownload, rest.drop_first()) == seq![last]);
                assert(w2.last() == last);
            }
        } else {
            lemma_failure_leaves_absent(nxt, force_redownload, rest);
            assert(exists_after(false, step, force_redownload, answers) == exists_after(
                false,
                nxt,
                force_redownload,
                rest,
            ));
        }
    }
}

/// Running a record a second time without forcing, after a first run that ended
/// well (downloaded or skipped): the first run left the destination in place, so
/// the second run skips it right after the existence check, changes nothing on
/// disk, and leaves the destination as the first run left it.
pub proof fn lemma_rerun_is_idempotent(first: Seq<bool>, second: Seq<bool>)
    requires
        first.len() >= 1,
        walk(FetchStep::CheckExists, false, first).last() is Done,
        walk(FetchStep::CheckExists, false, first).last()->Done_0 is Ok,
        second.len() >= 1,
        second[0] == exists_after(first[0], FetchStep::CheckExists, false, first),
    ensures
        exists_after(first[0], FetchStep::CheckExists, false, first),
        walk(FetchStep::CheckExists, false, second) == seq![
            FetchStep::CheckExists,
            FetchStep::Done(Ok(DownloadCompleted::Skipped)),
        ],
        forall|i: int|
            0 <= i < walk(FetchStep::CheckExists, false, second).len() ==> !is_mutating(
                #[trigger] walk(FetchStep::CheckExists, false, second)[i],
            ),
        exists_after(second[0], FetchStep::CheckExists, false, second) == second[0],
{
    let rest = first.drop_first();
    let nxt = next_step_spec(FetchStep::CheckExists, first[0], false);
    let w2 = walk(nxt, false, rest);
    lemma_walk_nonempty(nxt, false, rest);
    assert(walk(FetchStep::CheckExists, false, first) == seq![FetchStep::CheckExists] + w2);
    assert(walk(FetchStep::CheckExists, false, first).last() == w2.last());
    if first[0] {
        assert(exists_after(true, nxt, false, rest));
    } else {
        assert(nxt == FetchStep::Get);
        lemma_never_skipped(nxt, false, rest);
        let o = w2.last()->Done_0->Ok_0;
        assert(o is Success);
        lemma_success_leaves_destination(false, nxt, false, rest);
    }
    lemma_existing_destination_untouched(second);
    assert(exists_after(
        true,
        FetchStep::Done(Ok(DownloadCompleted::Skipped)),
        false,
        second.drop_first(),
    ));
}

/// A forced redownload of an existing destination removes it before anything is
/// fetched, so the old content is not kept whatever happens afterwards: the fetch
/// never ends as skipped, a failed removal ends it before any request, and a
/// failure after the removal leaves the destination absent, unless the new file
/// was created and the write into it failed, which leaves it partial.
pub proof fn lemma_forced_redownload_removes_first(answers: Seq<bool>)
    requires
        answers.len() >= 2,
        answers[0],
    ensures
        walk(FetchStep::CheckExists, true, answers)[1] == FetchStep::RemoveExisting,
        answers[1] ==> walk(FetchStep::CheckExists, true, answers)[2] == FetchStep::Get,
        !answers[1] ==> walk(FetchStep::CheckExists, true, answers) == seq![
            FetchStep::CheckExists,
            FetchStep::RemoveExisting,
            FetchStep::Done(Err(DownloadError::FailedToCreateFile)),
        ],
        walk(FetchStep::CheckExists, true, answers).last() != FetchStep::Done(
            Ok(DownloadCompleted::Skipped),
        ),
        (answers[1] && walk(FetchStep::CheckExists, true, answers).last() is Done && walk(
            FetchStep::CheckExists,
            true,
            answers,
        ).last()->Done_0 is Err && walk(FetchStep::CheckExists, true, answers).last()
            != FetchStep::Done(Err(DownloadError::FailedToDownloadToFile))) ==> !exists_after(
            true,
            FetchStep::CheckExists,
            true,
            answers,
        ),
{
    let w = walk(FetchStep::CheckExists, true, answers);
    let r1 = answers.drop_first();
    let w1 = walk(FetchStep::RemoveExisting, true, r1);
    assert(w == seq![FetchStep::CheckExists] + w1);
    let nxt = next_step_spec(FetchStep::RemoveExisting, r1[0], true);
    let w2 = walk(nxt, true, r1.drop_first());
    assert(w1 == seq![FetchStep::RemoveExisting] + w2);
    lemma_walk_nonempty(nxt, true, r1.drop_first());
    lemma_never_skipped(nxt, true, r1.drop_first());
    assert(w.last() == w2.last());
    if !answers[1] {
        assert(w2 == seq![nxt]);
        assert(w =~= seq![
            FetchStep::CheckExists,
            FetchStep::RemoveExisting,
            FetchStep::Done(Err(DownloadError::FailedToCreateFile)),
        ]);
    } else {
        assert(w[2] == w2[0]);
        assert(nxt == FetchStep::Get);
        assert(exists_after(true, FetchStep::CheckExists, true, answers) == exists_after(
            true,
            FetchStep::RemoveExisting,
            true,
            r1,
        ));
        assert(exists_after(true, FetchStep::RemoveExisting, true, r1) == exists_after(
            false,
            nxt,
            true,
            r1.drop_first(),
        ));
        if w2.last() is Done && w2.last()->Done_0 is Err && w2.last() != FetchStep::Done(
            Err(DownloadError::FailedToDownloadToFile),
        ) {
            lemma_failure_leaves_absent(nxt, true, r1.drop_first());
        }
    }
}

/// Past the existence check no step leads to `Skipped`.
proof fn lemma_never_skipped(step: FetchStep, force_redownload: bool, answers: Seq<bool>)
    requires
        step !is CheckExists,
        step != FetchStep::Done(Ok(DownloadCompleted::Skipped)),
    ensures
        walk(step, force_redownload, answers).last() != FetchStep::Done(
            Ok(DownloadCompleted::Skipped),
        ),
    decreases answers.len(),
{
    if !(step is Done || answers.len() == 0) {
        let nxt = next_step_spec(step, answers[0], force_redownload);
        let w2 = walk(nxt, force_redownload, answers.drop_first());
        lemma_walk_nonempty(nxt, force_redownload, answers.drop_first());
        lemma_never_skipped(nxt, force_redownload, answers.drop_first());
        assert(walk(step, force_redownload, answers) == seq![step] + w2);
    }
}

} // verus!
