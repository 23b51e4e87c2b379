//! Taking in an uploaded generation, step by step.
//!
//! Storing files and reading the database are the caller's. The caller starts in
//! [`UploadState::Received`], does what each [`UploadAction`] asks for, and hands back as an
//! [`UploadEvent`] what came of it, until there is a reply.

use crate::api;
use crate::api::{bad_request, ApiError, Status, UploadFailure, UploadFailureView};
use crate::generation::{Generation, GenerationStatus};
use crate::log;
use crate::log::upload_log;
use crate::model::{ExpectedSlot, JobId, SlotPassword, ValidatedGeneration, YamlId};
use crate::slots::copy_slots;
use std::collections::HashMap;
use vstd::prelude::*;
use vstd::string::*;

verus! {

/// What is answered to an upload that was taken in.
#[derive(Debug)]
pub struct UploadGenerationResult {
    pub job_id: String,
    pub seed_name: String,
    pub patches_associated: usize,
    pub passwords_set: usize,
    pub warnings: Vec<String>,
}

/// How far an upload has come: what is being waited for, and what is needed after it.
#[derive(Debug)]
pub enum UploadState {
    /// The form.
    Received,
    /// The passwords next to the zip.
    ReadingPasswords,
    /// The generation that the room has.
    LookingUpPrevious { passwords: Option<Vec<SlotPassword>> },
    /// The slots of the room.
    ListingSlots { passwords: Option<Vec<SlotPassword>>, previous: Option<JobId> },
    /// A directory for the generation, under a new job.
    CreatingDirectory {
        passwords: Option<Vec<SlotPassword>>,
        previous: Option<JobId>,
        expected: Vec<ExpectedSlot>,
    },
    /// The zip, stored in the directory and checked.
    Checking {
        job_id: JobId,
        job_name: String,
        previous: Option<JobId>,
        expected: Vec<ExpectedSlot>,
    },
    /// The log in the directory.
    WritingLog {
        job_id: JobId,
        job_name: String,
        previous: Option<JobId>,
        validated: ValidatedGeneration,
    },
    /// The database.
    Publishing { job_id: JobId, previous: Option<JobId>, reply: UploadGenerationResult },
    /// The removal of the directory of the generation that was replaced.
    RemovingReplaced { reply: UploadGenerationResult },
    /// The removal of the directory of an upload that failed.
    Discarding { failure: UploadFailure },
    /// Nothing more.
    Finished,
}

/// What came of an action.
#[derive(Debug)]
pub enum UploadEvent {
    /// The form arrived.
    FormArrived { seed_is_empty: bool, has_passwords: bool },
    /// The passwords file was read, and parsed or not understood.
    PasswordsParsed(Result<Vec<SlotPassword>, String>),
    /// The room has this generation, or none.
    PreviousFound(Option<Generation>),
    /// The room has these slots.
    SlotsListed(Vec<ExpectedSlot>),
    /// There is a directory for a new job, which is written as `job_name`.
    DirectoryCreated { job_id: JobId, job_name: String },
    /// The zip was stored and checked.
    UploadChecked(Result<ValidatedGeneration, UploadFailure>),
    /// The log was written, or could not be.
    LogWritten,
    /// The generation was published, or was not as the room's generation had changed.
    Published(bool),
    /// The directory was removed, or could not be.
    DirectoryRemoved,
    /// What was asked for failed, with this message.
    Failed(String),
}

/// What to do next.
#[derive(Debug)]
pub enum UploadAction {
    /// Read and parse the passwords file of the form.
    ReadPasswords,
    /// Look up the generation that the room has.
    LookUpPrevious,
    /// List the slots of the room.
    ListSlots,
    /// Draw a new job, and create a directory for it.
    CreateDirectory,
    /// Store the zip in the directory, and check it against these passwords and slots.
    CheckUpload { passwords: Option<Vec<SlotPassword>>, expected: Vec<ExpectedSlot> },
    /// Write the log in the directory.
    WriteLog { text: String },
    /// Publish the generation, if the room's is still the previous one.
    Publish {
        job_id: JobId,
        patches: HashMap<YamlId, String>,
        passwords: Option<Vec<(YamlId, String)>>,
        previous: Option<JobId>,
    },
    /// Remove the directory of this job, which was replaced.
    RemoveReplaced { job_id: JobId },
    /// Remove the directory that was created for the upload.
    RemoveDirectory,
    /// Answer the request.
    Reply(Result<UploadGenerationResult, UploadFailure>),
}

/// Whether the generation that a room has is still being made.
pub open spec fn is_in_progress(generation: Option<Generation>) -> bool {
    generation matches Some(generation) && (generation.status == GenerationStatus::Pending
        || generation.status == GenerationStatus::Running)
}

/// The job of the generation that a room has.
pub open spec fn job_of(generation: Option<Generation>) -> Option<JobId> {
    match generation {
        Some(generation) => Some(generation.job_id),
        None => None,
    }
}

/// Whether the action answers the request with this failure.
pub open spec fn replies_failure(action: UploadAction, failure: UploadFailureView) -> bool {
    action matches UploadAction::Reply(Err(reply)) && reply.deep_view() == failure
}

/// Whether the upload is given up with this failure, and its directory removed.
pub open spec fn discards(
    next: UploadState,
    action: UploadAction,
    failure: UploadFailureView,
) -> bool {
    &&& next matches UploadState::Discarding { failure: kept } && kept.deep_view() == failure
    &&& action == UploadAction::RemoveDirectory
}

/// Whether this is the answer to an upload that was published.
pub open spec fn is_reply_for(
    reply: UploadGenerationResult,
    job_name: String,
    validated: ValidatedGeneration,
) -> bool {
    &&& reply.job_id@ == job_name@
    &&& reply.seed_name == validated.seed_name
    &&& reply.patches_associated == validated.patches@.len()
    &&& reply.passwords_set == (match validated.passwords {
        Some(passwords) => passwords@.len(),
        None => 0,
    })
    &&& reply.warnings == validated.warnings
}

/// Whether the event may come about in the state.
pub open spec fn expects(state: UploadState, event: UploadEvent) -> bool {
    match state {
        UploadState::Received => event is FormArrived,
        UploadState::ReadingPasswords => event is PasswordsParsed || event is Failed,
        UploadState::LookingUpPrevious { .. } => event is PreviousFound || event is Failed,
        UploadState::ListingSlots { .. } => event is SlotsListed || event is Failed,
        UploadState::CreatingDirectory { .. } => event is DirectoryCreated || event is Failed,
        UploadState::Checking { .. } => event is UploadChecked || event is Failed,
        UploadState::WritingLog { .. } => event is LogWritten,
        UploadState::Publishing { .. } => event is Published || event is Failed,
        UploadState::RemovingReplaced { .. } => event is DirectoryRemoved,
        UploadState::Discarding { .. } => event is DirectoryRemoved,
        UploadState::Finished => false,
    }
}

/// Whether the event, in the state, leads to the next state and the action.
pub open spec fn is_step(
    state: UploadState,
    event: UploadEvent,
    next: UploadState,
    action: UploadAction,
) -> bool {
    match (state, event) {
        (UploadState::Received, UploadEvent::FormArrived { seed_is_empty, has_passwords }) => {
            if seed_is_empty {
                next == UploadState::Finished && replies_failure(
                    action,
                    api::refused_as_bad("No seed zip was uploaded"@),
                )
            } else if has_passwords {
                next == UploadState::ReadingPasswords && action == UploadAction::ReadPasswords
            } else {
                next == (UploadState::LookingUpPrevious { passwords: None }) && action
                    == UploadAction::LookUpPrevious
            }
        },
        (UploadState::ReadingPasswords, UploadEvent::PasswordsParsed(parsed)) => {
            match parsed {
                Ok(passwords) => next == (UploadState::LookingUpPrevious {
                    passwords: Some(passwords),
                }) && action == UploadAction::LookUpPrevious,
                Err(error) => next == UploadState::Finished && replies_failure(
                    action,
                    api::refused_as_bad("Couldn't parse the slot passwords file: "@ + error@),
                ),
            }
        },
        (UploadState::LookingUpPrevious { passwords }, UploadEvent::PreviousFound(generation)) => {
            if is_in_progress(generation) {
                next == UploadState::Finished && replies_failure(
                    action,
                    api::refused_as_conflict(
                        "A generation is in progress for this room, cancel it before uploading one"@,
                    ),
                )
            } else {
                next == (UploadState::ListingSlots { passwords, previous: job_of(generation) })
                    && action == UploadAction::ListSlots
            }
        },
        (UploadState::ListingSlots { passwords, previous }, UploadEvent::SlotsListed(expected)) => {
            next == (UploadState::CreatingDirectory { passwords, previous, expected }) && action
                == UploadAction::CreateDirectory
        },
        (
            UploadState::CreatingDirectory { passwords, previous, expected },
            UploadEvent::DirectoryCreated { job_id, job_name },
        ) => {
            &&& next == (UploadState::Checking { job_id, job_name, previous, expected })
            &&& action matches UploadAction::CheckUpload { passwords: given, expected: slots }
                && given == passwords && slots.deep_view() == expected.deep_view()
        },
        (
            UploadState::Checking { job_id, job_name, previous, expected },
            UploadEvent::UploadChecked(checked),
        ) => {
            match checked {
                Ok(validated) => next == (UploadState::WritingLog {
                    job_id,
                    job_name,
                    previous,
                    validated,
                }) && (action matches UploadAction::WriteLog { text } && text@ == log::log_text(
                    validated.deep_view(),
                    expected.deep_view(),
                )),
                Err(failure) => next == (UploadState::Discarding { failure }) && action
                    == UploadAction::RemoveDirectory,
            }
        },
        (
            UploadState::WritingLog { job_id, job_name, previous, validated },
            UploadEvent::LogWritten,
        ) => {
            &&& next matches UploadState::Publishing {
                job_id: next_job,
                previous: next_previous,
                reply,
            } && next_job == job_id && next_previous == previous && is_reply_for(
                reply,
                job_name,
                validated,
            )
            &&& action == (UploadAction::Publish {
                job_id,
                patches: validated.patches,
                passwords: validated.passwords,
                previous,
            })
        },
        (
            UploadState::Publishing { job_id, previous, reply },
            UploadEvent::Published(published),
        ) => {
            if !published {
                discards(
                    next,
                    action,
                    api::refused_as_conflict(
                        "This room's generation changed while the upload was being processed, try again"@,
                    ),
                )
            } else if previous is Some && previous != Some(job_id) {
                next == (UploadState::RemovingReplaced { reply }) && action == (
                UploadAction::RemoveReplaced { job_id: previous->0 })
            } else {
                next == UploadState::Finished && action == UploadAction::Reply(Ok(reply))
            }
        },
        (UploadState::RemovingReplaced { reply }, UploadEvent::DirectoryRemoved) => {
            next == UploadState::Finished && action == UploadAction::Reply(Ok(reply))
        },
        (UploadState::Discarding { failure }, UploadEvent::DirectoryRemoved) => {
            next == UploadState::Finished && action == UploadAction::Reply(Err(failure))
        },
        (UploadState::Checking { .. }, UploadEvent::Failed(message)) => {
            discards(next, action, UploadFailureView::Broken(message@))
        },
        (UploadState::Publishing { .. }, UploadEvent::Failed(message)) => {
            discards(next, action, UploadFailureView::Broken(message@))
        },
        (_, UploadEvent::Failed(message)) => {
            expects(state, event) && next == UploadState::Finished && replies_failure(
                action,
                UploadFailureView::Broken(message@),
            )
        },
        _ => false,
    }
}

/// Answers the request with a failure.
fn fail(failure: UploadFailure) -> (r: (UploadState, UploadAction))
    ensures
        r.0 == UploadState::Finished,
        replies_failure(r.1, failure.deep_view()),
{
    (UploadState::Finished, UploadAction::Reply(Err(failure)))
}

/// Refuses the request for what the room is at.
fn conflict(message: &str) -> (r: UploadFailure)
    ensures
        r.deep_view() == api::refused_as_conflict(message@),
{
    UploadFailure::Refused(ApiError { error: message.to_string(), status: Status::Conflict })
}

/// Gives the upload up: its directory is removed before the request is answered.
fn discard(failure: UploadFailure) -> (r: (UploadState, UploadAction))
    ensures
        r.0 == (UploadState::Discarding { failure }),
        r.1 == UploadAction::RemoveDirectory,
{
    (UploadState::Discarding { failure }, UploadAction::RemoveDirectory)
}

/// Takes an upload one step further.
pub fn ingest_generation_upload(state: UploadState, event: UploadEvent) -> (r: (
    UploadState,
    UploadAction,
))
    requires
        expects(state, event),
    ensures
        is_step(state, event, r.0, r.1),
{
    match (state, event) {
        (UploadState::Received, UploadEvent::FormArrived { seed_is_empty, has_passwords }) => {
            if seed_is_empty {
                fail(UploadFailure::Refused(bad_request("No seed zip was uploaded".to_string())))
            } else if has_passwords {
                (UploadState::ReadingPasswords, UploadAction::ReadPasswords)
            } else {
                (
                    UploadState::LookingUpPrevious { passwords: None },
                    UploadAction::LookUpPrevious,
                )
            }
        },
        (UploadState::ReadingPasswords, UploadEvent::PasswordsParsed(parsed)) => {
            match parsed {
                Ok(passwords) => (
                    UploadState::LookingUpPrevious { passwords: Some(passwords) },
                    UploadAction::LookUpPrevious,
                ),
                Err(error) => {
                    let mut message = "Couldn't parse the slot passwords file: ".to_string();
                    message.append(error.as_str());
                    fail(UploadFailure::Refused(bad_request(message)))
                },
            }
        },
        (UploadState::LookingUpPrevious { passwords }, UploadEvent::PreviousFound(generation)) => {
            let (in_progress, previous) = match generation {
                Some(generation) => (
                    generation.status == GenerationStatus::Pending || generation.status
                        == GenerationStatus::Running,
                    Some(generation.job_id),
                ),
                None => (false, None),
            };
            if in_progress {
                fail(
                    conflict(
                        "A generation is in progress for this room, cancel it before uploading one",
                    ),
                )
            } else {
                (UploadState::ListingSlots { passwords, previous }, UploadAction::ListSlots)
            }
        },
        (UploadState::ListingSlots { passwords, previous }, UploadEvent::SlotsListed(expected)) => (
            UploadState::CreatingDirectory { passwords, previous, expected },
            UploadAction::CreateDirectory,
        ),
        (
            UploadState::CreatingDirectory { passwords, previous, expected },
            UploadEvent::DirectoryCreated { job_id, job_name },
        ) => {
            let slots = copy_slots(expected.as_slice());
            (
                UploadState::Checking { job_id, job_name, previous, expected },
                UploadAction::CheckUpload { passwords, expected: slots },
            )
        },
        (
            UploadState::Checking { job_id, job_name, previous, expected },
            UploadEvent::UploadChecked(checked),
        ) => {
            match checked {
                Ok(validated) => {
                    let text = upload_log(&validated, expected.as_slice());
                    (
                        UploadState::WritingLog { job_id, job_name, previous, validated },
                        UploadAction::WriteLog { text },
                    )
                },
                Err(failure) => discard(failure),
            }
        },
        (
            UploadState::WritingLog { job_id, job_name, previous, validated },
            UploadEvent::LogWritten,
        ) => {
            let reply = UploadGenerationResult {
                job_id: job_name,
                seed_name: validated.seed_name,
                patches_associated: validated.patches.len(),
                passwords_set: match &validated.passwords {
                    Some(passwords) => passwords.len(),
                    None => 0,
                },
                warnings: validated.warnings,
            };
            (
                UploadState::Publishing { job_id, previous, reply },
                UploadAction::Publish {
                    job_id,
                    patches: validated.patches,
                    passwords: validated.passwords,
                    previous,
                },
            )
        },
        (
            UploadState::Publishing { job_id, previous, reply },
            UploadEvent::Published(published),
        ) => {
            if !published {
                discard(
                    conflict(
                        "This room's generation changed while the upload was being processed, try again",
                    ),
                )
            } else {
                match previous {
                    Some(replaced) => {
                        if replaced != job_id {
                            (
                                UploadState::RemovingReplaced { reply },
                                UploadAction::RemoveReplaced { job_id: replaced },
                            )
                        } else {
                            (UploadState::Finished, UploadAction::Reply(Ok(reply)))
                        }
                    },
                    None => (UploadState::Finished, UploadAction::Reply(Ok(reply))),
                }
            }
        },
        (UploadState::RemovingReplaced { reply }, UploadEvent::DirectoryRemoved) => (
            UploadState::Finished,
            UploadAction::Reply(Ok(reply)),
        ),
        (UploadState::Discarding { failure }, UploadEvent::DirectoryRemoved) => (
            UploadState::Finished,
            UploadAction::Reply(Err(failure)),
        ),
        (UploadState::Checking { .. }, UploadEvent::Failed(message)) => discard(
            UploadFailure::Broken(message),
        ),
        (UploadState::Publishing { .. }, UploadEvent::Failed(message)) => discard(
            UploadFailure::Broken(message),
        ),
        (_, UploadEvent::Failed(message)) => fail(UploadFailure::Broken(message)),
        _ => vstd::pervasive::unreached(),
    }
}

// ---------------------------------------------------------------------------
// What holds of every upload
// ---------------------------------------------------------------------------

/// An upload from its start: the states it went through, what came about in each, and what was
/// done then.
pub struct UploadRun {
    pub states: Seq<UploadState>,
    pub events: Seq<UploadEvent>,
    pub actions: Seq<UploadAction>,
}

/// Whether each step of the run is one that an upload takes.
pub open spec fn is_run(run: UploadRun) -> bool {
    &&& run.states.len() == run.events.len() + 1
    &&& run.actions.len() == run.events.len()
    &&& run.states[0] == UploadState::Received
    &&& forall|i: int|
        0 <= i < run.events.len() ==> is_step(
            #[trigger] run.states[i],
            run.events[i],
            run.states[i + 1],
            run.actions[i],
        )
}

/// Whether a directory was created before step `i`.
pub open spec fn has_created(run: UploadRun, i: int) -> bool {
    exists|j: int| 0 <= j < i && #[trigger] run.events[j] is DirectoryCreated
}

/// Whether the directory was removed before step `i`.
pub open spec fn has_removed(run: UploadRun, i: int) -> bool {
    exists|j: int| 0 <= j < i && #[trigger] run.actions[j] is RemoveDirectory
}

/// Whether the generation was published before step `i`.
pub open spec fn has_published(run: UploadRun, i: int) -> bool {
    exists|j: int| 0 <= j < i && #[trigger] run.events[j] == UploadEvent::Published(true)
}

/// How many steps an upload can still take.
pub open spec fn steps_left(state: UploadState) -> nat {
    match state {
        UploadState::Received => 9,
        UploadState::ReadingPasswords => 8,
        UploadState::LookingUpPrevious { .. } => 7,
        UploadState::ListingSlots { .. } => 6,
        UploadState::CreatingDirectory { .. } => 5,
        UploadState::Checking { .. } => 4,
        UploadState::WritingLog { .. } => 3,
        UploadState::Publishing { .. } => 2,
        UploadState::RemovingReplaced { .. } => 1,
        UploadState::Discarding { .. } => 1,
        UploadState::Finished => 0,
    }
}

/// What is known of the past in each state.
spec fn is_past_known(run: UploadRun, i: int) -> bool {
    &&& i + steps_left(run.states[i]) <= 9
    &&& match run.states[i] {
        UploadState::Checking { .. } | UploadState::WritingLog { .. } => has_created(run, i)
            && !has_removed(run, i) && !has_published(run, i),
        UploadState::Publishing { .. } => has_created(run, i) && !has_removed(run, i)
            && !has_published(run, i),
        UploadState::RemovingReplaced { .. } => has_created(run, i) && !has_removed(run, i)
            && has_published(run, i),
        UploadState::Discarding { .. } => has_created(run, i) && has_removed(run, i)
            && !has_published(run, i),
        UploadState::Finished => {
            &&& i > 0
            &&& run.actions[i - 1] matches UploadAction::Reply(reply) && match reply {
                Ok(_) => has_created(run, i) && !has_removed(run, i) && has_published(run, i),
                Err(_) => has_created(run, i) == has_removed(run, i) && !has_published(run, i),
            }
        },
        _ => !has_created(run, i) && !has_removed(run, i) && !has_published(run, i),
    }
}

/// What one more step adds to the past.
proof fn lemma_past_grows(run: UploadRun, i: int)
    requires
        0 <= i < run.events.len(),
    ensures
        has_created(run, i + 1) == (has_created(run, i) || run.events[i] is DirectoryCreated),
        has_removed(run, i + 1) == (has_removed(run, i) || run.actions[i] is RemoveDirectory),
        has_published(run, i + 1) == (has_published(run, i) || run.events[i]
            == UploadEvent::Published(true)),
{
    if has_created(run, i) {
        let j = choose|j: int| 0 <= j < i && #[trigger] run.events[j] is DirectoryCreated;
        assert(run.events[j] is DirectoryCreated);
    }
    if has_removed(run, i) {
        let j = choose|j: int| 0 <= j < i && #[trigger] run.actions[j] is RemoveDirectory;
        assert(run.actions[j] is RemoveDirectory);
    }
    if has_published(run, i) {
        let j = choose|j: int|
            0 <= j < i && #[trigger] run.events[j] == UploadEvent::Published(true);
        assert(run.events[j] == UploadEvent::Published(true));
    }
}

/// What is known of the past holds in every state of a run.
proof fn lemma_past(run: UploadRun, i: int)
    requires
        is_run(run),
        0 <= i < run.states.len(),
    ensures
        is_past_known(run, i),
    decreases i,
{
    if i > 0 {
        lemma_past(run, i - 1);
        lemma_past_grows(run, i - 1);
        assert(is_step(run.states[i - 1], run.events[i - 1], run.states[i], run.actions[i - 1]));
    }
}

/// Where the next step of an upload is taken from a state, it is by an event that the state
/// expects.
pub proof fn law_steps_are_expected(
    state: UploadState,
    event: UploadEvent,
    next: UploadState,
    action: UploadAction,
)
    requires
        is_step(state, event, next, action),
    ensures
        expects(state, event),
{
}

/// Every upload ends after at most nine steps, with the reply, which is given exactly where
/// the upload ends.
pub proof fn law_uploads_end(run: UploadRun)
    requires
        is_run(run),
    ensures
        run.events.len() <= 9,
        forall|i: int|
            0 <= i < run.actions.len() ==> ((#[trigger] run.actions[i] is Reply) <==> run.states[i
                + 1] == UploadState::Finished),
        forall|i: int|
            0 <= i < run.actions.len() && #[trigger] run.actions[i] is Reply ==> i
                == run.actions.len() - 1,
{
    lemma_past(run, run.events.len() as int);
    assert forall|i: int| 0 <= i < run.actions.len() implies ((#[trigger] run.actions[i] is Reply)
        <==> run.states[i + 1] == UploadState::Finished) by {
        assert(is_step(run.states[i], run.events[i], run.states[i + 1], run.actions[i]));
    }
    assert forall|i: int| 0 <= i < run.actions.len() && #[trigger] run.actions[i] is Reply implies i
        == run.actions.len() - 1 by {
        assert(is_step(run.states[i], run.events[i], run.states[i + 1], run.actions[i]));
        if i + 1 < run.events.len() {
            assert(is_step(
                run.states[i + 1],
                run.events[i + 1],
                run.states[i + 2],
                run.actions[i + 1],
            ));
        }
    }
}

/// A failed upload leaves no directory behind: if one was created, it was removed before the
/// reply. An upload that was taken in keeps its directory.
pub proof fn law_failed_uploads_leave_no_directory(run: UploadRun, i: int)
    requires
        is_run(run),
        0 <= i < run.actions.len(),
    ensures
        run.actions[i] matches UploadAction::Reply(Err(_)) ==> has_created(run, i) == has_removed(
            run,
            i,
        ),
        run.actions[i] matches UploadAction::Reply(Ok(_)) ==> has_created(run, i) && !has_removed(
            run,
            i,
        ),
{
    lemma_past(run, i);
    lemma_past(run, i + 1);
    lemma_past_grows(run, i);
    assert(is_step(run.states[i], run.events[i], run.states[i + 1], run.actions[i]));
}

/// The reply says that the upload was taken in exactly where it was published.
pub proof fn law_reply_tells_whether_published(run: UploadRun, i: int)
    requires
        is_run(run),
        0 <= i < run.actions.len(),
        run.actions[i] is Reply,
    ensures
        run.actions[i] matches UploadAction::Reply(Ok(_)) <==> has_published(run, i + 1),
{
    lemma_past(run, i + 1);
    assert(is_step(run.states[i], run.events[i], run.states[i + 1], run.actions[i]));
}

/// What is published is what checking the upload gave.
pub proof fn law_only_checked_uploads_are_published(run: UploadRun, i: int)
    requires
        is_run(run),
        0 <= i < run.actions.len(),
        run.actions[i] is Publish,
    ensures
        i > 0,
        run.events[i - 1] matches UploadEvent::UploadChecked(Ok(validated)) && run.actions[i]
            matches UploadAction::Publish { patches, passwords, .. } && patches
            == validated.patches && passwords == validated.passwords,
{
    assert(is_step(run.states[i], run.events[i], run.states[i + 1], run.actions[i]));
    assert(run.states[i] is WritingLog);
    assert(is_step(run.states[i - 1], run.events[i - 1], run.states[i], run.actions[i - 1]));
}

/// An upload is checked against the room's slots and the passwords next to the zip, as they were
/// found, and published for the generation that was looked up before.
pub proof fn law_uploads_are_held_against_what_was_found(run: UploadRun, i: int)
    requires
        is_run(run),
        0 <= i < run.actions.len(),
    ensures
        run.actions[i] matches UploadAction::CheckUpload { passwords, expected } ==> {
            &&& i >= 3
            &&& run.events[i - 1] matches UploadEvent::SlotsListed(slots) && slots.deep_view()
                == expected.deep_view()
            &&& match run.events[i - 3] {
                UploadEvent::PasswordsParsed(parsed) => parsed matches Ok(list) && passwords
                    == Some(list),
                _ => run.events[i - 3] is FormArrived && passwords is None,
            }
        },
        run.actions[i] matches UploadAction::Publish { previous, .. } ==> {
            &&& i >= 4
            &&& run.events[i - 4] matches UploadEvent::PreviousFound(generation) && job_of(
                generation,
            ) == previous
        },
{
    assert(is_step(run.states[i], run.events[i], run.states[i + 1], run.actions[i]));
    if run.actions[i] is CheckUpload {
        lemma_slots_found(run, i);
    }
    if run.actions[i] is Publish {
        assert(is_step(run.states[i - 1], run.events[i - 1], run.states[i], run.actions[i - 1]));
        assert(is_step(
            run.states[i - 2],
            run.events[i - 2],
            run.states[i - 1],
            run.actions[i - 2],
        ));
        lemma_slots_found(run, i - 2);
    }
}

/// How an upload came to the creation of its directory.
proof fn lemma_slots_found(run: UploadRun, i: int)
    requires
        is_run(run),
        0 <= i < run.actions.len(),
        run.states[i] is CreatingDirectory,
    ensures
        i >= 3,
        run.states[i] matches UploadState::CreatingDirectory { passwords, previous, expected } && (
        run.events[i - 1] matches UploadEvent::SlotsListed(slots) && slots == expected) && (
        run.events[i - 2] matches UploadEvent::PreviousFound(generation) && job_of(generation)
            == previous) && match run.events[i - 3] {
            UploadEvent::PasswordsParsed(parsed) => parsed matches Ok(list) && passwords == Some(
                list,
            ),
            _ => run.events[i - 3] is FormArrived && passwords is None,
        },
{
    assert(is_step(run.states[i - 1], run.events[i - 1], run.states[i], run.actions[i - 1]));
    assert(is_step(run.states[i - 2], run.events[i - 2], run.states[i - 1], run.actions[i - 2]));
    assert(is_step(run.states[i - 3], run.events[i - 3], run.states[i - 2], run.actions[i - 3]));
}

/// The directory of the previous generation is removed only once the new one is published, and
/// only if the new one is under another job.
pub proof fn law_replaced_directory_is_removed_last(run: UploadRun, i: int)
    requires
        is_run(run),
        0 <= i < run.actions.len(),
    ensures
        run.actions[i] matches UploadAction::RemoveReplaced { job_id } ==> run.events[i]
            == UploadEvent::Published(true) && (run.states[i] matches UploadState::Publishing {
            job_id: new_job,
            previous,
            ..
        } && previous == Some(job_id) && job_id != new_job),
{
    assert(is_step(run.states[i], run.events[i], run.states[i + 1], run.actions[i]));
}

/// While a generation is in progress for the room, an upload is refused as a conflict, before
/// anything is stored.
pub proof fn law_running_generations_are_not_replaced(run: UploadRun, i: int)
    requires
        is_run(run),
        0 <= i < run.events.len(),
    ensures
        run.events[i] matches UploadEvent::PreviousFound(generation) && is_in_progress(generation)
            ==> {
            &&& run.actions[i] matches UploadAction::Reply(Err(UploadFailure::Refused(error)))
                && error.status == Status::Conflict
            &&& i == run.actions.len() - 1
            &&& forall|j: int|
                0 <= j < run.actions.len() ==> !(#[trigger] run.actions[j] is CreateDirectory)
                    && !(run.actions[j] is Publish)
        },
{
    if run.events[i] is PreviousFound && is_in_progress(run.events[i]->PreviousFound_0) {
        law_uploads_end(run);
        assert(is_step(run.states[i], run.events[i], run.states[i + 1], run.actions[i]));
        assert(run.actions[i] is Reply);
        assert forall|j: int| 0 <= j < run.actions.len() implies !(
        #[trigger] run.actions[j] is CreateDirectory) && !(run.actions[j] is Publish) by {
            lemma_steps_go_down(run, j, i);
            assert(is_step(run.states[j], run.events[j], run.states[j + 1], run.actions[j]));
        }
    }
}

/// Each step leaves fewer steps to take.
pub proof fn lemma_steps_go_down(run: UploadRun, j: int, i: int)
    requires
        is_run(run),
        0 <= j <= i < run.states.len(),
    ensures
        steps_left(run.states[j]) >= steps_left(run.states[i]) + (i - j),
    decreases i - j,
{
    if j < i {
        lemma_steps_go_down(run, j, i - 1);
        assert(is_step(run.states[i - 1], run.events[i - 1], run.states[i], run.actions[i - 1]));
    }
}

} // verus!
