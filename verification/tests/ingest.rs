//! Taking in uploads, step by step.

use std::collections::HashMap;

use gen_upload::api::{bad_request, Status, UploadFailure};
use gen_upload::generation::{Generation, GenerationStatus};
use gen_upload::ingest::{
    ingest_generation_upload, UploadAction, UploadEvent, UploadGenerationResult, UploadState,
};
use gen_upload::model::{ExpectedSlot, SlotPassword, ValidatedGeneration};

const NEW_JOB: u128 = 50;

fn form(seed_is_empty: bool, has_passwords: bool) -> UploadEvent {
    UploadEvent::FormArrived {
        seed_is_empty,
        has_passwords,
    }
}

fn generation(job_id: u128, status: GenerationStatus) -> Option<Generation> {
    Some(Generation {
        room_id: 1,
        job_id,
        status,
    })
}

fn slots() -> Vec<ExpectedSlot> {
    vec![ExpectedSlot {
        slot: 1,
        yaml_id: 10,
        name: "Alice".to_string(),
        game: "Game A".to_string(),
    }]
}

fn validated() -> ValidatedGeneration {
    let mut patches = HashMap::new();
    patches.insert(10, "AP_1_P1_Alice.ap".to_string());
    ValidatedGeneration {
        seed_name: "1".to_string(),
        patches,
        passwords: Some(vec![(10, "secret".to_string())]),
        warnings: vec!["odd".to_string()],
    }
}

fn created() -> UploadEvent {
    UploadEvent::DirectoryCreated {
        job_id: NEW_JOB,
        job_name: "job-50".to_string(),
    }
}

/// What is done for the events, one after the other.
fn actions_for(events: Vec<UploadEvent>) -> Vec<UploadAction> {
    let mut state = UploadState::Received;
    let mut actions = Vec::new();
    for event in events {
        let (next, action) = ingest_generation_upload(state, event);
        state = next;
        actions.push(action);
    }
    assert_eq!(
        matches!(state, UploadState::Finished),
        matches!(actions.last(), Some(UploadAction::Reply(_)))
    );
    actions
}

fn reply_of(actions: &[UploadAction]) -> &Result<UploadGenerationResult, UploadFailure> {
    match actions.last() {
        Some(UploadAction::Reply(reply)) => reply,
        other => panic!("no reply: {other:?}"),
    }
}

fn refusal(actions: &[UploadAction]) -> (Status, &str) {
    match reply_of(actions) {
        Err(UploadFailure::Refused(error)) => (error.status, error.error.as_str()),
        other => panic!("not refused: {other:?}"),
    }
}

fn failure(actions: &[UploadAction]) -> &str {
    match reply_of(actions) {
        Err(UploadFailure::Broken(message)) => message.as_str(),
        other => panic!("not broken: {other:?}"),
    }
}

fn up_to_check(previous: Option<Generation>) -> Vec<UploadEvent> {
    vec![
        form(false, false),
        UploadEvent::PreviousFound(previous),
        UploadEvent::SlotsListed(slots()),
        created(),
    ]
}

fn up_to_publish(previous: Option<Generation>) -> Vec<UploadEvent> {
    let mut events = up_to_check(previous);
    events.push(UploadEvent::UploadChecked(Ok(validated())));
    events.push(UploadEvent::LogWritten);
    events
}

#[test]
fn refuses_a_form_without_a_seed() {
    let actions = actions_for(vec![form(true, true)]);
    assert_eq!(
        refusal(&actions),
        (Status::BadRequest, "No seed zip was uploaded")
    );
}

#[test]
fn refuses_passwords_that_do_not_parse() {
    let actions = actions_for(vec![
        form(false, true),
        UploadEvent::PasswordsParsed(Err("bad json".to_string())),
    ]);
    assert!(matches!(actions[0], UploadAction::ReadPasswords));
    assert_eq!(
        refusal(&actions),
        (
            Status::BadRequest,
            "Couldn't parse the slot passwords file: bad json"
        )
    );
}

#[test]
fn refuses_uploads_while_a_generation_is_in_progress() {
    for status in [GenerationStatus::Pending, GenerationStatus::Running] {
        let actions = actions_for(vec![
            form(false, false),
            UploadEvent::PreviousFound(generation(4, status)),
        ]);
        assert_eq!(actions.len(), 2);
        assert!(matches!(actions[0], UploadAction::LookUpPrevious));
        assert_eq!(
            refusal(&actions),
            (
                Status::Conflict,
                "A generation is in progress for this room, cancel it before uploading one"
            )
        );
    }
}

#[test]
fn takes_in_a_first_upload() {
    let mut events = up_to_publish(None);
    events.push(UploadEvent::Published(true));
    let actions = actions_for(events);
    assert_eq!(actions.len(), 7);
    assert!(matches!(actions[1], UploadAction::ListSlots));
    assert!(matches!(actions[2], UploadAction::CreateDirectory));
    match &actions[3] {
        UploadAction::CheckUpload {
            passwords,
            expected,
        } => {
            assert!(passwords.is_none());
            assert_eq!(*expected, slots());
        }
        other => panic!("{other:?}"),
    }
    match &actions[4] {
        UploadAction::WriteLog { text } => assert_eq!(
            text,
            "Uploaded generation for seed 1\n\nWarnings:\n  odd\n\n\
             Slot 1: Alice (Game A): AP_1_P1_Alice.ap, password set\n"
        ),
        other => panic!("{other:?}"),
    }
    match &actions[5] {
        UploadAction::Publish {
            job_id,
            patches,
            passwords,
            previous,
        } => {
            assert_eq!(*job_id, NEW_JOB);
            assert_eq!(patches[&10], "AP_1_P1_Alice.ap");
            assert_eq!(*passwords, Some(vec![(10, "secret".to_string())]));
            assert_eq!(*previous, None);
        }
        other => panic!("{other:?}"),
    }
    match reply_of(&actions) {
        Ok(result) => {
            assert_eq!(result.job_id, "job-50");
            assert_eq!(result.seed_name, "1");
            assert_eq!(result.patches_associated, 1);
            assert_eq!(result.passwords_set, 1);
            assert_eq!(result.warnings, vec!["odd"]);
        }
        other => panic!("{other:?}"),
    }
}

#[test]
fn no_passwords_count_as_none_set() {
    let mut events = up_to_check(None);
    events.push(UploadEvent::UploadChecked(Ok(ValidatedGeneration::default())));
    events.push(UploadEvent::LogWritten);
    events.push(UploadEvent::Published(true));
    let actions = actions_for(events);
    match reply_of(&actions) {
        Ok(result) => {
            assert_eq!(result.patches_associated, 0);
            assert_eq!(result.passwords_set, 0);
            assert!(result.warnings.is_empty());
        }
        other => panic!("{other:?}"),
    }
}

#[test]
fn hands_the_passwords_on_to_the_check() {
    let list = vec![SlotPassword {
        slot: 1,
        name: "Alice".to_string(),
        password: "secret".to_string(),
    }];
    let actions = actions_for(vec![
        form(false, true),
        UploadEvent::PasswordsParsed(Ok(list)),
        UploadEvent::PreviousFound(None),
        UploadEvent::SlotsListed(slots()),
        created(),
    ]);
    match &actions[4] {
        UploadAction::CheckUpload { passwords, .. } => {
            let passwords = passwords.as_ref().unwrap();
            assert_eq!(passwords.len(), 1);
            assert_eq!(passwords[0].password, "secret");
        }
        other => panic!("{other:?}"),
    }
}

#[test]
fn removes_the_directory_of_the_replaced_generation_last() {
    for status in [GenerationStatus::Done, GenerationStatus::Failed] {
        let mut events = up_to_publish(generation(4, status));
        events.push(UploadEvent::Published(true));
        events.push(UploadEvent::DirectoryRemoved);
        let actions = actions_for(events);
        assert!(
            matches!(&actions[5], UploadAction::Publish { previous, .. } if *previous == Some(4))
        );
        assert!(matches!(
            actions[6],
            UploadAction::RemoveReplaced { job_id: 4 }
        ));
        assert!(reply_of(&actions).is_ok());
    }
}

#[test]
fn keeps_the_directory_of_a_generation_under_the_same_job() {
    let mut events = up_to_publish(generation(NEW_JOB, GenerationStatus::Done));
    events.push(UploadEvent::Published(true));
    let actions = actions_for(events);
    assert!(reply_of(&actions).is_ok());
}

#[test]
fn discards_an_upload_that_does_not_check() {
    let mut events = up_to_check(None);
    events.push(UploadEvent::UploadChecked(Err(UploadFailure::Refused(
        bad_request("no match".to_string()),
    ))));
    events.push(UploadEvent::DirectoryRemoved);
    let actions = actions_for(events);
    assert!(matches!(actions[4], UploadAction::RemoveDirectory));
    assert_eq!(refusal(&actions), (Status::BadRequest, "no match"));
}

#[test]
fn discards_an_upload_where_the_generation_changed() {
    let mut events = up_to_publish(None);
    events.push(UploadEvent::Published(false));
    events.push(UploadEvent::DirectoryRemoved);
    let actions = actions_for(events);
    assert!(matches!(actions[6], UploadAction::RemoveDirectory));
    assert_eq!(
        refusal(&actions),
        (
            Status::Conflict,
            "This room's generation changed while the upload was being processed, try again"
        )
    );
}

#[test]
fn failures_before_the_directory_are_answered_at_once() {
    let down = || UploadEvent::Failed("down".to_string());
    let runs = vec![
        vec![form(false, true), down()],
        vec![form(false, false), down()],
        vec![form(false, false), UploadEvent::PreviousFound(None), down()],
        vec![
            form(false, false),
            UploadEvent::PreviousFound(None),
            UploadEvent::SlotsListed(slots()),
            down(),
        ],
    ];
    for events in runs {
        let actions = actions_for(events);
        assert!(!actions
            .iter()
            .any(|action| matches!(action, UploadAction::RemoveDirectory)));
        assert_eq!(failure(&actions), "down");
    }
}

#[test]
fn failures_after_the_directory_remove_it() {
    let mut checking = up_to_check(None);
    checking.push(UploadEvent::Failed("down".to_string()));
    checking.push(UploadEvent::DirectoryRemoved);
    let mut publishing = up_to_publish(None);
    publishing.push(UploadEvent::Failed("down".to_string()));
    publishing.push(UploadEvent::DirectoryRemoved);
    for events in [checking, publishing] {
        let actions = actions_for(events);
        let last = actions.len() - 1;
        assert!(matches!(actions[last - 1], UploadAction::RemoveDirectory));
        assert_eq!(failure(&actions), "down");
    }
}
