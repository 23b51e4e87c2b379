//! What is written to the database about generations.

use std::collections::{BTreeMap, HashMap};

use gen_upload::generation::{
    delete_generation_for_room, get_generation_for_room, insert_generation_for_room,
    publish_generation, publish_if_unchanged, update_generation_status_for_room, GenerationStatus,
    Write,
};

use gen_upload::model::{ExpectedSlot, GenerationFile, PatchManifest, SlotPassword};
use gen_upload::outputs::choose_outputs;
use gen_upload::validate::check_generation;

const ROOM: u128 = 1;
const OTHER_ROOM: u128 = 2;

/// A YAML: its room, its patch and its password.
type Yaml = (u128, Option<String>, Option<String>);

#[derive(Debug, Clone, PartialEq)]
struct Database {
    generations: BTreeMap<u128, (u128, String)>,
    yamls: BTreeMap<u128, Yaml>,
}

impl Database {
    fn run(&mut self, writes: Vec<Write>) {
        for write in writes {
            match write {
                Write::InsertGeneration(row) => {
                    let replaced = self
                        .generations
                        .insert(row.room_id, (row.job_id, row.status));
                    assert!(replaced.is_none());
                }
                Write::UpsertGeneration(row) => {
                    self.generations
                        .insert(row.room_id, (row.job_id, row.status));
                }
                Write::UpdateStatus { room_id, status } => {
                    if let Some(row) = self.generations.get_mut(&room_id) {
                        row.1 = status;
                    }
                }
                Write::DeleteGeneration { room_id } => {
                    self.generations.remove(&room_id);
                }
                Write::ClearPatches { room_id } => {
                    for yaml in self.yamls.values_mut() {
                        if yaml.0 == room_id {
                            yaml.1 = None;
                        }
                    }
                }
                Write::SetPatch { yaml_id, patch } => {
                    if let Some(yaml) = self.yamls.get_mut(&yaml_id) {
                        yaml.1 = Some(patch);
                    }
                }
                Write::SetPassword { yaml_id, password } => {
                    if let Some(yaml) = self.yamls.get_mut(&yaml_id) {
                        yaml.2 = Some(password);
                    }
                }
            }
        }
    }
}

fn text(s: &str) -> Option<String> {
    Some(s.to_string())
}

fn database() -> Database {
    let mut yamls = BTreeMap::new();
    yamls.insert(10, (ROOM, text("old 10"), text("p10")));
    yamls.insert(11, (ROOM, text("old 11"), None));
    yamls.insert(20, (OTHER_ROOM, text("old 20"), text("p20")));
    let mut generations = BTreeMap::new();
    generations.insert(OTHER_ROOM, (200, "Running".to_string()));
    Database { generations, yamls }
}

#[test]
fn statuses_are_read_back_as_they_are_written() {
    for (status, name) in [
        (GenerationStatus::Pending, "Pending"),
        (GenerationStatus::Running, "Running"),
        (GenerationStatus::Failed, "Failed"),
        (GenerationStatus::Done, "Done"),
    ] {
        assert_eq!(status.as_str(), name);
        assert_eq!(GenerationStatus::from_str(name).unwrap(), status);
    }
}

#[test]
fn other_texts_name_no_status() {
    for name in ["", "done", "Done ", "Cancelled"] {
        let unknown = GenerationStatus::from_str(name).unwrap_err();
        assert_eq!(
            unknown.message,
            format!("Unknown variant for GenerationStatus: {name}")
        );
    }
}

#[test]
fn rows_stand_for_generations() {
    assert!(get_generation_for_room(None).is_none());
    let generation = get_generation_for_room(Some((ROOM, 5, "Failed".to_string()))).unwrap();
    assert_eq!(generation.room_id, ROOM);
    assert_eq!(generation.job_id, 5);
    assert_eq!(generation.status, GenerationStatus::Failed);
}

#[test]
fn generations_start_pending_and_end_deleted() {
    let mut db = database();
    db.run(insert_generation_for_room(ROOM, 5));
    assert_eq!(db.generations[&ROOM], (5, "Pending".to_string()));
    db.run(update_generation_status_for_room(
        ROOM,
        GenerationStatus::Running,
    ));
    assert_eq!(db.generations[&ROOM], (5, "Running".to_string()));
    db.run(delete_generation_for_room(ROOM));
    assert_eq!(db.generations, database().generations);
    assert_eq!(db.yamls[&10], (ROOM, None, text("p10")));
    assert_eq!(db.yamls[&11], (ROOM, None, None));
    assert_eq!(db.yamls[&20], (OTHER_ROOM, text("old 20"), text("p20")));
}

#[test]
fn deleting_again_changes_nothing() {
    let mut db = database();
    db.run(insert_generation_for_room(ROOM, 5));
    db.run(delete_generation_for_room(ROOM));
    let once = db.clone();
    db.run(delete_generation_for_room(ROOM));
    assert_eq!(db, once);

    let writes = delete_generation_for_room(ROOM);
    assert_eq!(writes.len(), 2);
    assert!(matches!(writes[0], Write::DeleteGeneration { room_id: ROOM }));
    assert!(matches!(writes[1], Write::ClearPatches { room_id: ROOM }));
}

#[test]
fn a_status_is_given_to_no_generation_where_there_is_none() {
    let mut db = database();
    db.run(update_generation_status_for_room(
        ROOM,
        GenerationStatus::Done,
    ));
    assert_eq!(db, database());
}

#[test]
fn publishing_points_the_room_at_the_generation() {
    let mut db = database();
    let mut patches = HashMap::new();
    patches.insert(10, "new 10".to_string());
    let passwords = vec![(11, "p11".to_string())];
    db.run(publish_generation(ROOM, 9, patches, passwords));
    assert_eq!(db.generations[&ROOM], (9, "Done".to_string()));
    assert_eq!(db.generations[&OTHER_ROOM], (200, "Running".to_string()));
    assert_eq!(db.yamls[&10], (ROOM, text("new 10"), text("p10")));
    assert_eq!(db.yamls[&11], (ROOM, None, text("p11")));
    assert_eq!(db.yamls[&20], (OTHER_ROOM, text("old 20"), text("p20")));
}

#[test]
fn publishing_replaces_the_generation_of_the_room() {
    let mut db = database();
    db.run(publish_generation(OTHER_ROOM, 9, HashMap::new(), vec![]));
    assert_eq!(db.generations[&OTHER_ROOM], (9, "Done".to_string()));
    assert_eq!(db.yamls[&20], (OTHER_ROOM, None, text("p20")));
}

#[test]
fn publishing_writes_the_row_first_then_patches_then_passwords() {
    let mut patches = HashMap::new();
    for id in 0..20 {
        patches.insert(id, format!("patch {id}"));
    }
    let passwords = vec![(3, "a".to_string()), (3, "b".to_string())];
    let writes = publish_generation(ROOM, 9, patches, passwords);
    assert_eq!(writes.len(), 24);
    assert!(matches!(&writes[0], Write::UpsertGeneration(row)
        if row.room_id == ROOM && row.job_id == 9 && row.status == "Done"));
    assert!(matches!(&writes[1], Write::ClearPatches { room_id } if *room_id == ROOM));
    let mut patched: Vec<u128> = Vec::new();
    for write in &writes[2..22] {
        match write {
            Write::SetPatch { yaml_id, patch } => {
                assert_eq!(*patch, format!("patch {yaml_id}"));
                patched.push(*yaml_id);
            }
            other => panic!("{other:?}"),
        }
    }
    patched.sort();
    assert_eq!(patched, (0..20).collect::<Vec<u128>>());
    assert!(matches!(&writes[22], Write::SetPassword { password, .. } if password == "a"));
    assert!(matches!(&writes[23], Write::SetPassword { password, .. } if password == "b"));
}

#[test]
fn publishes_only_over_the_generation_that_was_seen() {
    let publish = |previous: Option<u128>, current: Option<u128>| {
        publish_if_unchanged(ROOM, 9, HashMap::new(), None, previous, current)
    };
    assert!(publish(None, None).is_some());
    assert!(publish(Some(4), Some(4)).is_some());
    assert!(publish(None, Some(4)).is_none());
    assert!(publish(Some(4), None).is_none());
    assert!(publish(Some(4), Some(5)).is_none());
}

#[test]
fn publishing_without_passwords_leaves_them() {
    let mut db = database();
    let mut patches = HashMap::new();
    patches.insert(11, "new 11".to_string());
    db.run(publish_if_unchanged(ROOM, 9, patches, None, None, None).unwrap());
    assert_eq!(db.yamls[&10], (ROOM, None, text("p10")));
    assert_eq!(db.yamls[&11], (ROOM, text("new 11"), None));

    let mut db = database();
    let passwords = Some(vec![(10, "changed".to_string())]);
    db.run(publish_if_unchanged(ROOM, 9, HashMap::new(), passwords, None, None).unwrap());
    assert_eq!(db.yamls[&10], (ROOM, None, text("changed")));
}

fn file(name: &str, is_container: bool) -> GenerationFile {
    let manifest = PatchManifest {
        player: None,
        player_name: None,
        game: None,
    };
    GenerationFile {
        name: name.to_string(),
        manifest: if is_container { Some(manifest) } else { None },
    }
}

fn slot(n: usize, yaml_id: u128, name: &str) -> ExpectedSlot {
    ExpectedSlot {
        slot: n,
        yaml_id,
        name: name.to_string(),
        game: "Game".to_string(),
    }
}

fn password(slot: usize, name: &str, password: &str) -> SlotPassword {
    SlotPassword {
        slot,
        name: name.to_string(),
        password: password.to_string(),
    }
}

#[test]
fn yamls_end_with_the_served_outputs_and_the_listed_passwords() {
    let files = vec![
        file("AP_1.archipelago", false),
        file("AP_1_P2_Bob.txt", false),
        file("AP_1_P2_Bob.ap", true),
    ];
    let expected = [slot(1, 10, "Alice"), slot(2, 11, "Bob")];
    let passwords = [password(2, "Bob", "b"), password(1, "Alice", "a")];
    let validated = check_generation(&files, Some(3), Some(&passwords), &expected).unwrap();
    let served = choose_outputs(&files);
    let mut db = database();
    db.run(
        publish_if_unchanged(ROOM, 9, validated.patches, validated.passwords, None, None).unwrap(),
    );
    for slot in &expected {
        assert_eq!(db.yamls[&slot.yaml_id].1, served.get(&slot.slot).cloned());
    }
    assert_eq!(db.yamls[&10], (ROOM, None, text("a")));
    assert_eq!(db.yamls[&11], (ROOM, text("AP_1_P2_Bob.ap"), text("b")));
}

#[test]
fn yamls_keep_their_passwords_without_a_passwords_file() {
    let files = vec![file("AP_1.archipelago", false)];
    let expected = [slot(1, 10, "Alice"), slot(2, 11, "Bob")];
    let validated = check_generation(&files, Some(3), None, &expected).unwrap();
    let mut db = database();
    db.run(
        publish_if_unchanged(ROOM, 9, validated.patches, validated.passwords, None, None).unwrap(),
    );
    assert_eq!(db.yamls[&10].2, text("p10"));
    assert_eq!(db.yamls[&11].2, None);
}
