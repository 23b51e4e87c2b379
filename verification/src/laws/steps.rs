//! What each step of an upload does, and what an upload is answered in the end.

use crate::api::{Status, UploadFailure};
use crate::generation::{Generation, GenerationStatus};
use crate::ingest;
use crate::ingest::{
    ingest_generation_upload, UploadAction, UploadEvent, UploadGenerationResult, UploadRun,
    UploadState,
};
use crate::log::upload_log;
use crate::model::{ExpectedSlot, JobId, SlotPassword, ValidatedGeneration};
use vstd::prelude::*;

verus! {

// ---------------------------------------------------------------------------
// The steps
// ---------------------------------------------------------------------------

/// Whether the request is refused with this text and status.
pub open spec fn is_refusal(failure: UploadFailure, text: Seq<char>, status: Status) -> bool {
    failure matches UploadFailure::Refused(error) && error.error@ == text && error.status == status
}

/// Whether something failed with this message.
pub open spec fn is_breakage(failure: UploadFailure, message: Seq<char>) -> bool {
    failure matches UploadFailure::Broken(told) && told@ == message
}

/// Whether the upload ends with a refusal.
pub open spec fn ends_refused(
    r: (UploadState, UploadAction),
    text: Seq<char>,
    status: Status,
) -> bool {
    &&& r.0 is Finished
    &&& r.1 matches UploadAction::Reply(Err(failure)) && is_refusal(failure, text, status)
}

/// Each state takes what may come of what was asked for in it: the result, or, but for the form,
/// the log and the removal of directories, a failure.
pub proof fn law_states_take_what_comes(state: UploadState, event: UploadEvent)
    requires
        match state {
            UploadState::Received => event is FormArrived,
            UploadState::ReadingPasswords => event is PasswordsParsed || event is Failed,
            UploadState::LookingUpPrevious { .. } => event is PreviousFound || event is Failed,
            UploadState::ListingSlots { .. } => event is SlotsListed || event is Failed,
            UploadState::CreatingDirectory { .. } => event is DirectoryCreated || event is Failed,
            UploadState::Checking { .. } => event is UploadChecked || event is Failed,
            UploadState::WritingLog { .. } => event is LogWritten,
            UploadState::Publishing { .. } => event is Published || event is Failed,
            UploadState::RemovingReplaced { .. } => event is DirectoryRemoved,
            UploadState::Discarding { .. } => event is DirectoryRemoved,
            UploadState::Finished => false,
        },
    ensures
        call_requires(ingest_generation_upload, (state, event)),
{
}

/// A form without a zip is refused. With a zip, its passwords are read if there are any, and
/// otherwise the room's generation is looked up.
pub proof fn law_forms(seed_is_empty: bool, has_passwords: bool, r: (UploadState, UploadAction))
    requires
        call_ensures(
            ingest_generation_upload,
            (UploadState::Received, UploadEvent::FormArrived { seed_is_empty, has_passwords }),
            r,
        ),
    ensures
        seed_is_empty ==> ends_refused(r, "No seed zip was uploaded"@, Status::BadRequest),
        !seed_is_empty && has_passwords ==> r.0 is ReadingPasswords && r.1 is ReadPasswords,
        !seed_is_empty && !has_passwords ==> r.0 == (UploadState::LookingUpPrevious {
            passwords: None,
        }) && r.1 is LookUpPrevious,
{
}

/// Passwords that were read are kept, all of them. Where they are not understood, the request is
/// refused with the reason.
pub proof fn law_read_passwords(
    parsed: Result<Vec<SlotPassword>, String>,
    r: (UploadState, UploadAction),
)
    requires
        call_ensures(
            ingest_generation_upload,
            (UploadState::ReadingPasswords, UploadEvent::PasswordsParsed(parsed)),
            r,
        ),
    ensures
        parsed matches Ok(list) ==> r.0 == (UploadState::LookingUpPrevious {
            passwords: Some(list),
        }) && r.1 is LookUpPrevious,
        parsed matches Err(reason) ==> ends_refused(
            r,
            "Couldn't parse the slot passwords file: "@ + reason@,
            Status::BadRequest,
        ),
{
}

/// Where the room's generation is pending or running, the request is refused. Otherwise the job of
/// the room's generation is kept, if the room has one, and the slots are listed.
pub proof fn law_previous_generations(
    passwords: Option<Vec<SlotPassword>>,
    found: Option<Generation>,
    r: (UploadState, UploadAction),
)
    requires
        call_ensures(
            ingest_generation_upload,
            (UploadState::LookingUpPrevious { passwords }, UploadEvent::PreviousFound(found)),
            r,
        ),
    ensures
        found is None ==> r.0 == (UploadState::ListingSlots { passwords, previous: None })
            && r.1 is ListSlots,
        found matches Some(generation) ==> match generation.status {
            GenerationStatus::Pending => ends_refused(
                r,
                "A generation is in progress for this room, cancel it before uploading one"@,
                Status::Conflict,
            ),
            GenerationStatus::Running => ends_refused(
                r,
                "A generation is in progress for this room, cancel it before uploading one"@,
                Status::Conflict,
            ),
            GenerationStatus::Failed => r.0 == (UploadState::ListingSlots {
                passwords,
                previous: Some(generation.job_id),
            }) && r.1 is ListSlots,
            GenerationStatus::Done => r.0 == (UploadState::ListingSlots {
                passwords,
                previous: Some(generation.job_id),
            }) && r.1 is ListSlots,
        },
{
}

/// Whether the slots are the same, field by field.
pub open spec fn same_slots(a: Seq<ExpectedSlot>, b: Seq<ExpectedSlot>) -> bool {
    &&& a.len() == b.len()
    &&& forall|i: int|
        0 <= i < a.len() ==> (#[trigger] a[i]).slot == b[i].slot && a[i].yaml_id == b[i].yaml_id
            && a[i].name@ == b[i].name@ && a[i].game@ == b[i].game@
}

/// Once the slots are listed a directory is created, and once it is there the zip is checked
/// against the passwords and the slots that were found.
pub proof fn law_found_slots(
    passwords: Option<Vec<SlotPassword>>,
    previous: Option<JobId>,
    expected: Vec<ExpectedSlot>,
    job_id: JobId,
    job_name: String,
    r: (UploadState, UploadAction),
    s: (UploadState, UploadAction),
)
    requires
        call_ensures(
            ingest_generation_upload,
            (
                UploadState::ListingSlots { passwords, previous },
                UploadEvent::SlotsListed(expected),
            ),
            r,
        ),
        call_ensures(
            ingest_generation_upload,
            (r.0, UploadEvent::DirectoryCreated { job_id, job_name }),
            s,
        ),
    ensures
        r.0 == (UploadState::CreatingDirectory { passwords, previous, expected }),
        r.1 is CreateDirectory,
        s.0 == (UploadState::Checking { job_id, job_name, previous, expected }),
        s.1 matches UploadAction::CheckUpload { passwords: given, expected: slots } && given
            == passwords && same_slots(slots@, expected@),
{
    let slots = s.1->CheckUpload_expected;
    assert(slots.deep_view() == expected.deep_view());
    assert(slots@.len() == slots.deep_view().len());
    assert(expected@.len() == expected.deep_view().len());
    assert forall|i: int| 0 <= i < slots@.len() implies (#[trigger] slots@[i]).slot
        == expected@[i].slot && slots@[i].yaml_id == expected@[i].yaml_id && slots@[i].name@
        == expected@[i].name@ && slots@[i].game@ == expected@[i].game@ by {
        assert(slots.deep_view()[i] == slots@[i].deep_view());
        assert(expected.deep_view()[i] == expected@[i].deep_view());
    }
}

/// An upload that passed the check has its log written, and the log is the one for the room's
/// slots. One that did not pass is discarded for what the check found.
pub proof fn law_checked_uploads(
    job_id: JobId,
    job_name: String,
    previous: Option<JobId>,
    expected: Vec<ExpectedSlot>,
    slots: &[ExpectedSlot],
    checked: Result<ValidatedGeneration, UploadFailure>,
    logged: String,
    r: (UploadState, UploadAction),
)
    requires
        slots@ == expected@,
        checked matches Ok(validated) ==> call_ensures(upload_log, (&validated, slots), logged),
        call_ensures(
            ingest_generation_upload,
            (
                UploadState::Checking { job_id, job_name, previous, expected },
                UploadEvent::UploadChecked(checked),
            ),
            r,
        ),
    ensures
        checked matches Ok(validated) ==> r.0 == (UploadState::WritingLog {
            job_id,
            job_name,
            previous,
            validated,
        }) && (r.1 matches UploadAction::WriteLog { text } && text@ == logged@),
        checked matches Err(failure) ==> r.0 == (UploadState::Discarding { failure })
            && r.1 is RemoveDirectory,
{
    assert(slots.deep_view() =~= expected.deep_view());
}

/// Whether the answer tells of this upload: the name of its job, its seed and its warnings, how
/// many YAMLs have a patch, and how many passwords are set.
pub open spec fn tells_of(
    result: UploadGenerationResult,
    job_name: Seq<char>,
    validated: ValidatedGeneration,
) -> bool {
    &&& result.job_id@ == job_name
    &&& result.seed_name@ == validated.seed_name@
    &&& result.patches_associated == validated.patches@.dom().len()
    &&& validated.passwords is None ==> result.passwords_set == 0
    &&& validated.passwords matches Some(list) ==> result.passwords_set == list@.len()
    &&& result.warnings@.len() == validated.warnings@.len()
    &&& forall|i: int|
        0 <= i < validated.warnings@.len() ==> (#[trigger] result.warnings@[i])@
            == validated.warnings@[i]@
}

/// After the log, the upload is published: the patches and passwords that the check gave, for the
/// generation that was looked up. The answer that is kept tells of the upload.
pub proof fn law_logged_uploads(
    job_id: JobId,
    job_name: String,
    previous: Option<JobId>,
    validated: ValidatedGeneration,
    r: (UploadState, UploadAction),
)
    requires
        call_ensures(
            ingest_generation_upload,
            (
                UploadState::WritingLog { job_id, job_name, previous, validated },
                UploadEvent::LogWritten,
            ),
            r,
        ),
    ensures
        r.0 matches UploadState::Publishing { job_id: job, previous: seen, reply } && job == job_id
            && seen == previous && tells_of(reply, job_name@, validated),
        r.1 == (UploadAction::Publish {
            job_id,
            patches: validated.patches,
            passwords: validated.passwords,
            previous,
        }),
{
}

/// An upload that was published is answered as kept, after the directory of another job that it
/// replaced is removed. One that could not be published, as the room's generation is another by
/// now, is discarded.
pub proof fn law_published_uploads(
    job_id: JobId,
    previous: Option<JobId>,
    reply: UploadGenerationResult,
    published: bool,
    r: (UploadState, UploadAction),
)
    requires
        call_ensures(
            ingest_generation_upload,
            (
                UploadState::Publishing { job_id, previous, reply },
                UploadEvent::Published(published),
            ),
            r,
        ),
    ensures
        !published ==> r.1 is RemoveDirectory && (r.0 matches UploadState::Discarding { failure }
            && is_refusal(
            failure,
            "This room's generation changed while the upload was being processed, try again"@,
            Status::Conflict,
        )),
        published && (previous is None || previous == Some(job_id)) ==> r.0 is Finished && r.1
            == UploadAction::Reply(Ok(reply)),
        published ==> (previous matches Some(replaced) ==> replaced != job_id ==> r.0 == (
        UploadState::RemovingReplaced { reply }) && r.1 == (UploadAction::RemoveReplaced {
            job_id: replaced,
        })),
{
}

/// Once a directory is removed, the upload ends with the answer that was kept.
pub proof fn law_removed_directories(
    reply: UploadGenerationResult,
    failure: UploadFailure,
    r: (UploadState, UploadAction),
    s: (UploadState, UploadAction),
)
    requires
        call_ensures(
            ingest_generation_upload,
            (UploadState::RemovingReplaced { reply }, UploadEvent::DirectoryRemoved),
            r,
        ),
        call_ensures(
            ingest_generation_upload,
            (UploadState::Discarding { failure }, UploadEvent::DirectoryRemoved),
            s,
        ),
    ensures
        r.0 is Finished,
        r.1 == UploadAction::Reply(Ok(reply)),
        s.0 is Finished,
        s.1 == UploadAction::Reply(Err(failure)),
{
}

/// A failure is answered with its message; where there is a directory by then, it is removed
/// before.
pub proof fn law_failures(state: UploadState, message: String, r: (UploadState, UploadAction))
    requires
        call_ensures(ingest_generation_upload, (state, UploadEvent::Failed(message)), r),
    ensures
        state is Checking || state is Publishing ==> r.1 is RemoveDirectory && (
        r.0 matches UploadState::Discarding { failure } && is_breakage(failure, message@)),
        state is ReadingPasswords || state is LookingUpPrevious || state is ListingSlots
            || state is CreatingDirectory ==> r.0 is Finished && (r.1 matches UploadAction::Reply(
            Err(failure),
        ) && is_breakage(failure, message@)),
{
}

// ---------------------------------------------------------------------------
// Uploads from start to end
// ---------------------------------------------------------------------------

/// Whether the run starts with the form, and each of its steps is one that was taken.
pub open spec fn is_taken(run: UploadRun) -> bool {
    &&& run.states.len() == run.events.len() + 1
    &&& run.actions.len() == run.events.len()
    &&& run.states[0] is Received
    &&& forall|i: int|
        0 <= i < run.events.len() ==> call_ensures(
            ingest_generation_upload,
            (#[trigger] run.states[i], run.events[i]),
            (run.states[i + 1], run.actions[i]),
        )
}

/// The steps that were taken make up a run.
pub proof fn law_steps_make_up_runs(run: UploadRun)
    requires
        is_taken(run),
    ensures
        ingest::is_run(run),
{
    assert forall|i: int| 0 <= i < run.events.len() implies ingest::is_step(
        #[trigger] run.states[i],
        run.events[i],
        run.states[i + 1],
        run.actions[i],
    ) by {
        assert(call_ensures(
            ingest_generation_upload,
            (run.states[i], run.events[i]),
            (run.states[i + 1], run.actions[i]),
        ));
    }
}

/// How an upload came to be published.
proof fn lemma_published(run: UploadRun, i: int)
    requires
        is_taken(run),
        0 <= i < run.states.len(),
        run.states[i] is Publishing,
    ensures
        i >= 3,
        run.events[i - 2] is UploadChecked,
        run.events[i - 3] is DirectoryCreated,
        run.events[i - 2]->UploadChecked_0 matches Ok(validated) && tells_of(
            run.states[i]->Publishing_reply,
            run.events[i - 3]->DirectoryCreated_job_name@,
            validated,
        ),
{
    law_steps_make_up_runs(run);
    assert(ingest::is_step(
        run.states[i - 1],
        run.events[i - 1],
        run.states[i],
        run.actions[i - 1],
    ));
    assert(ingest::is_step(
        run.states[i - 2],
        run.events[i - 2],
        run.states[i - 1],
        run.actions[i - 2],
    ));
    assert(ingest::is_step(
        run.states[i - 3],
        run.events[i - 3],
        run.states[i - 2],
        run.actions[i - 3],
    ));
}

/// An upload is answered as taken in only after it passed the check, under a job for which there
/// is a directory. The answer tells of what the check gave, and of that job: its patches are as
/// many as the YAMLs that have one, its passwords as many as there are to set.
pub proof fn law_answers_tell_of_what_was_taken_in(
    run: UploadRun,
    i: int,
    result: UploadGenerationResult,
) -> (c: int)
    requires
        is_taken(run),
        0 <= i < run.actions.len(),
        run.actions[i] == UploadAction::Reply(Ok(result)),
    ensures
        0 < c < i,
        run.events[c - 1] matches UploadEvent::DirectoryCreated { job_name, .. }
            && run.events[c] matches UploadEvent::UploadChecked(Ok(validated)) && {
            &&& result.job_id@ == job_name@
            &&& result.seed_name@ == validated.seed_name@
            &&& result.patches_associated == validated.patches@.dom().len()
            &&& result.passwords_set == (match validated.passwords {
                Some(list) => list@.len(),
                None => 0,
            })
            &&& result.warnings@.len() == validated.warnings@.len()
            &&& forall|k: int|
                0 <= k < validated.warnings@.len() ==> (#[trigger] result.warnings@[k])@
                    == validated.warnings@[k]@
        },
{
    law_steps_make_up_runs(run);
    assert(ingest::is_step(run.states[i], run.events[i], run.states[i + 1], run.actions[i]));
    if run.states[i] is Publishing {
        lemma_published(run, i);
        i - 2
    } else {
        assert(ingest::is_step(
            run.states[i - 1],
            run.events[i - 1],
            run.states[i],
            run.actions[i - 1],
        ));
        lemma_published(run, i - 1);
        i - 3
    }
}

/// An upload is checked at most once, and gets its directory at most once: so an answer tells of
/// whatever check, and whatever directory, there was.
pub proof fn law_answers_tell_of_the_check(
    run: UploadRun,
    i: int,
    result: UploadGenerationResult,
    c: int,
    validated: ValidatedGeneration,
    d: int,
    job_id: JobId,
    job_name: String,
)
    requires
        is_taken(run),
        0 <= i < run.actions.len(),
        run.actions[i] == UploadAction::Reply(Ok(result)),
        0 <= c < run.events.len(),
        run.events[c] == UploadEvent::UploadChecked(Ok(validated)),
        0 <= d < run.events.len(),
        run.events[d] == (UploadEvent::DirectoryCreated { job_id, job_name }),
    ensures
        result.job_id@ == job_name@,
        result.seed_name@ == validated.seed_name@,
        result.patches_associated == validated.patches@.dom().len(),
        result.passwords_set == (match validated.passwords {
            Some(list) => list@.len(),
            None => 0,
        }),
        result.warnings@.len() == validated.warnings@.len(),
        forall|k: int|
            0 <= k < validated.warnings@.len() ==> (#[trigger] result.warnings@[k])@
                == validated.warnings@[k]@,
{
    law_steps_make_up_runs(run);
    let at = law_answers_tell_of_what_was_taken_in(run, i, result);
    lemma_same_step(run, c, at);
    lemma_same_step(run, d, at - 1);
}

/// Two steps that check the upload, or that get its directory, are one.
proof fn lemma_same_step(run: UploadRun, i: int, j: int)
    requires
        ingest::is_run(run),
        0 <= i < run.events.len(),
        0 <= j < run.events.len(),
        run.events[i] is UploadChecked && run.events[j] is UploadChecked
            || run.events[i] is DirectoryCreated && run.events[j] is DirectoryCreated,
    ensures
        i == j,
{
    assert(ingest::is_step(run.states[i], run.events[i], run.states[i + 1], run.actions[i]));
    assert(ingest::is_step(run.states[j], run.events[j], run.states[j + 1], run.actions[j]));
    if i <= j {
        ingest::lemma_steps_go_down(run, i, j);
    } else {
        ingest::lemma_steps_go_down(run, j, i);
    }
}

/// An upload whose check failed is never answered as taken in: its directory is removed, and the
/// answer is what the check found.
pub proof fn law_failed_checks_are_answered(
    run: UploadRun,
    c: int,
    failure: UploadFailure,
)
    requires
        is_taken(run),
        0 <= c < run.events.len(),
        run.events[c] == UploadEvent::UploadChecked(Err(failure)),
    ensures
        run.actions[c] is RemoveDirectory,
        c + 1 < run.events.len() ==> run.actions[c + 1] == UploadAction::Reply(Err(failure)),
        run.events.len() <= c + 2,
{
    law_steps_make_up_runs(run);
    ingest::law_uploads_end(run);
    assert(ingest::is_step(run.states[c], run.events[c], run.states[c + 1], run.actions[c]));
    if c + 1 < run.events.len() {
        assert(ingest::is_step(
            run.states[c + 1],
            run.events[c + 1],
            run.states[c + 2],
            run.actions[c + 1],
        ));
        assert(run.actions[c + 1] is Reply);
    }
}

} // verus!
