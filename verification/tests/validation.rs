//! Checking generation zips against rooms.

use std::io::{Cursor, Write};

use gen_upload::model::{
    ExpectedSlot, GenerationFile, GenerationMismatch, PatchManifest, SlotPassword,
    ValidatedGeneration, YamlId,
};
use gen_upload::outputs::{choose_outputs, should_replace_patch};
use gen_upload::reading::{
    read_generation, read_patch_manifest, slot_outputs, validate_generation,
};
use gen_upload::validate::{check_generation, find_multidata, MULTIDATA_MAX_FORMAT_VERSION};
use zip::write::SimpleFileOptions;
use zip::ZipArchive;

fn new_id() -> YamlId {
    uuid::Uuid::new_v4().as_u128()
}

fn slot(n: usize, name: &str, game: &str) -> ExpectedSlot {
    ExpectedSlot {
        slot: n,
        yaml_id: new_id(),
        name: name.to_string(),
        game: game.to_string(),
    }
}

fn text_field(
    object: &serde_json::Map<String, serde_json::Value>,
    key: &str,
) -> Option<Option<String>> {
    match object.get(key) {
        None | Some(serde_json::Value::Null) => Some(None),
        Some(serde_json::Value::String(text)) => Some(Some(text.clone())),
        Some(_) => None,
    }
}

fn parse_manifest(text: String) -> Option<PatchManifest> {
    let value: serde_json::Value = serde_json::from_str(&text).ok()?;
    let object = value.as_object()?;
    let player = match object.get("player") {
        None | Some(serde_json::Value::Null) => None,
        Some(number) => Some(number.as_u64()? as usize),
    };
    Some(PatchManifest {
        player,
        player_name: text_field(object, "player_name")?,
        game: text_field(object, "game")?,
    })
}

fn manifest_json(player: usize, player_name: &str, game: &str) -> String {
    let mut object = serde_json::Map::new();
    object.insert("compatible_version".to_string(), serde_json::Value::from(5));
    object.insert("version".to_string(), serde_json::Value::from(7));
    object.insert("server".to_string(), serde_json::Value::from(""));
    object.insert("player".to_string(), serde_json::Value::from(player));
    object.insert("player_name".to_string(), serde_json::Value::from(player_name));
    object.insert("game".to_string(), serde_json::Value::from(game));
    object.insert("patch_file_ending".to_string(), serde_json::Value::from(".aptest"));
    serde_json::Value::Object(object).to_string()
}

fn container_with(manifest: &str) -> Vec<u8> {
    let mut zip = zip::ZipWriter::new(Cursor::new(Vec::new()));
    zip.start_file("archipelago.json", SimpleFileOptions::default())
        .unwrap();
    zip.write_all(manifest.as_bytes()).unwrap();
    zip.start_file("patch.aptest", SimpleFileOptions::default())
        .unwrap();
    zip.write_all(b"payload").unwrap();
    zip.finish().unwrap().into_inner()
}

fn container(player: usize, player_name: &str, game: &str) -> Vec<u8> {
    container_with(&manifest_json(player, player_name, game))
}

fn seed_zip(entries: &[(&str, &[u8])]) -> ZipArchive<Cursor<Vec<u8>>> {
    let mut zip = zip::ZipWriter::new(Cursor::new(Vec::new()));
    for (name, content) in entries {
        zip.start_file(*name, SimpleFileOptions::default()).unwrap();
        zip.write_all(content).unwrap();
    }
    ZipArchive::new(zip.finish().unwrap()).unwrap()
}

const MULTIDATA: &[u8] = &[3, 0x78, 0x9c];

fn good_seed() -> ZipArchive<Cursor<Vec<u8>>> {
    seed_zip(&[
        ("AP_123.archipelago", MULTIDATA),
        ("AP_123_Spoiler.txt", b"spoiler"),
        ("AP_123_P1_Alice.aptest", &container(1, "Alice", "Game A")),
        ("AP_123_P2_Bob.aptest", &container(2, "Bob", "Game B")),
    ])
}

fn room() -> Vec<ExpectedSlot> {
    vec![slot(1, "Alice", "Game A"), slot(2, "Bob", "Game B")]
}

fn errors_of<T>(result: Result<T, GenerationMismatch>) -> Vec<String> {
    match result {
        Ok(_) => panic!("expected a mismatch"),
        Err(e) => e.0,
    }
}

fn password(slot: usize, name: &str, password: &str) -> SlotPassword {
    SlotPassword {
        slot,
        name: name.into(),
        password: password.into(),
    }
}

#[test]
fn accepts_matching_generation() {
    let expected = room();
    let passwords = [
        SlotPassword {
            slot: 1,
            name: "Alice".into(),
            password: "aaaa".into(),
        },
        SlotPassword {
            slot: 2,
            name: "Bob".into(),
            password: "bbbb".into(),
        },
    ];
    let validated =
        validate_generation(&mut good_seed(), &parse_manifest, Some(&passwords), &expected)
            .unwrap();

    assert_eq!(validated.seed_name, "123");
    assert_eq!(validated.patches.len(), 2);
    assert_eq!(
        validated.patches[&expected[0].yaml_id],
        "AP_123_P1_Alice.aptest"
    );
    assert_eq!(
        validated.patches[&expected[1].yaml_id],
        "AP_123_P2_Bob.aptest"
    );
    assert_eq!(
        validated.passwords,
        Some(vec![
            (expected[0].yaml_id, "aaaa".to_string()),
            (expected[1].yaml_id, "bbbb".to_string())
        ])
    );
}

#[test]
fn accepts_generation_without_passwords_or_patches_for_every_slot() {
    let expected = vec![
        slot(1, "Alice", "Game A"),
        slot(2, "Bob", "Game B"),
        slot(3, "Carol", "Game C"),
    ];
    let validated =
        validate_generation(&mut good_seed(), &parse_manifest, None, &expected).unwrap();
    assert_eq!(validated.patches.len(), 2);
    assert!(validated.passwords.is_none());
}

#[test]
fn rejects_missing_multidata() {
    let mut zip = seed_zip(&[("AP_123_P1_Alice.aptest", &container(1, "Alice", "Game A"))]);
    let errors = errors_of(validate_generation(&mut zip, &parse_manifest, None, &room()));
    assert!(
        errors.iter().any(|e| e.contains(".archipelago")),
        "{errors:?}"
    );
}

#[test]
fn rejects_unsupported_multidata_version() {
    let mut zip = seed_zip(&[
        ("AP_123.archipelago", &[9, 0, 0]),
        ("AP_123_P1_Alice.aptest", &container(1, "Alice", "Game A")),
    ]);
    let errors = errors_of(validate_generation(&mut zip, &parse_manifest, None, &room()));
    assert!(
        errors.iter().any(|e| e.contains("format version 9")),
        "{errors:?}"
    );
}

#[test]
fn warns_about_wrong_player_names() {
    let expected = vec![slot(1, "Alice", "Game A"), slot(2, "Robert", "Game B")];
    let validated =
        validate_generation(&mut good_seed(), &parse_manifest, None, &expected).unwrap();
    assert_eq!(validated.patches.len(), 2);
    assert_eq!(validated.warnings.len(), 1, "{:?}", validated.warnings);
    assert!(
        validated.warnings[0].contains("\"Bob\"") && validated.warnings[0].contains("\"Robert\""),
        "{:?}",
        validated.warnings
    );
}

#[test]
fn rejects_wrong_games_but_allows_random_yamls() {
    let expected = vec![slot(1, "Alice", "Game X"), slot(2, "Bob", "Random (3)")];
    let errors = errors_of(validate_generation(
        &mut good_seed(),
        &parse_manifest,
        None,
        &expected,
    ));
    assert_eq!(errors.len(), 1, "{errors:?}");
    assert!(errors[0].contains("AP_123_P1_Alice.aptest"), "{errors:?}");
}

#[test]
fn rejects_more_slots_than_the_room_has() {
    let expected = vec![slot(1, "Alice", "Game A")];
    let errors = errors_of(validate_generation(
        &mut good_seed(),
        &parse_manifest,
        None,
        &expected,
    ));
    assert!(
        errors
            .iter()
            .any(|e| e.contains("slot 2") && e.contains("only has 1 slots")),
        "{errors:?}"
    );
}

#[test]
fn rejects_patches_from_another_seed() {
    let mut zip = seed_zip(&[
        ("AP_123.archipelago", MULTIDATA),
        ("AP_123_P1_Alice.aptest", &container(1, "Alice", "Game A")),
        ("AP_999_P2_Bob.aptest", &container(2, "Bob", "Game B")),
    ]);
    let errors = errors_of(validate_generation(&mut zip, &parse_manifest, None, &room()));
    assert!(errors.iter().any(|e| e.contains("seed 999")), "{errors:?}");
}

#[test]
fn rejects_passwords_that_dont_match_the_room() {
    let passwords = [
        SlotPassword {
            slot: 1,
            name: "Alice".into(),
            password: "aaaa".into(),
        },
        SlotPassword {
            slot: 2,
            name: "Eve".into(),
            password: "eeee".into(),
        },
        SlotPassword {
            slot: 3,
            name: "Mallory".into(),
            password: "mmmm".into(),
        },
    ];
    let errors = errors_of(validate_generation(
        &mut good_seed(),
        &parse_manifest,
        Some(&passwords),
        &room(),
    ));
    assert!(errors.iter().any(|e| e.contains("slot 3")), "{errors:?}");
    assert_eq!(errors.len(), 1, "{errors:?}");
}

#[test]
fn warns_about_password_names_but_still_sets_them() {
    let passwords = [
        SlotPassword {
            slot: 1,
            name: "Alice".into(),
            password: "aaaa".into(),
        },
        SlotPassword {
            slot: 2,
            name: "Eve".into(),
            password: "eeee".into(),
        },
    ];
    let expected = room();
    let validated =
        validate_generation(&mut good_seed(), &parse_manifest, Some(&passwords), &expected)
            .unwrap();
    assert_eq!(validated.warnings.len(), 1, "{:?}", validated.warnings);
    assert!(
        validated.warnings[0].contains("\"Eve\"") && validated.warnings[0].contains("\"Bob\""),
        "{:?}",
        validated.warnings
    );
    assert_eq!(
        validated.passwords,
        Some(vec![
            (expected[0].yaml_id, "aaaa".to_string()),
            (expected[1].yaml_id, "eeee".to_string())
        ])
    );
}

#[test]
fn rejects_passwords_that_miss_a_slot() {
    let passwords = [SlotPassword {
        slot: 1,
        name: "Alice".into(),
        password: "aaaa".into(),
    }];
    let errors = errors_of(validate_generation(
        &mut good_seed(),
        &parse_manifest,
        Some(&passwords),
        &room(),
    ));
    assert_eq!(errors.len(), 1, "{errors:?}");
    assert!(
        errors[0].contains("no password for slot(s) 2 (Bob)"),
        "{errors:?}"
    );
}

#[test]
fn falls_back_to_file_name_for_non_container_outputs() {
    let mut zip = seed_zip(&[
        ("AP_123.archipelago", MULTIDATA),
        ("AP_123_P1_Alice.bin", b"raw"),
        ("AP_123_P2_Bob.bin", b"raw"),
    ]);
    let expected = vec![slot(1, "Alice", "Game A"), slot(2, "Robert", "Game B")];
    let validated = validate_generation(&mut zip, &parse_manifest, None, &expected).unwrap();
    assert_eq!(validated.patches.len(), 2);
    assert_eq!(validated.warnings.len(), 1, "{:?}", validated.warnings);
    assert!(
        validated.warnings[0].contains("AP_123_P2_Bob.bin"),
        "{:?}",
        validated.warnings
    );
}

#[test]
fn prefers_the_container_when_a_slot_has_several_outputs() {
    let mut zip = seed_zip(&[
        ("AP_123.archipelago", MULTIDATA),
        ("AP_123_P1_Alice.txt", b"notes"),
        ("AP_123_P1_Alice.aptest", &container(1, "Alice", "Game A")),
        ("AP_123_P1_Alice.bin", b"raw"),
    ]);
    let expected = vec![slot(1, "Alice", "Game A")];
    let validated = validate_generation(&mut zip, &parse_manifest, None, &expected).unwrap();
    assert_eq!(
        validated.patches[&expected[0].yaml_id],
        "AP_123_P1_Alice.aptest"
    );
}

#[test]
fn accepts_generation_whose_games_emit_no_output_files() {
    let mut zip = seed_zip(&[
        ("AP_123.archipelago", MULTIDATA),
        ("AP_123_Spoiler.txt", b""),
    ]);
    let validated = validate_generation(&mut zip, &parse_manifest, None, &room()).unwrap();
    assert_eq!(validated.seed_name, "123");
    assert!(validated.patches.is_empty());
    assert!(validated.passwords.is_none());
}

#[test]
fn ignores_directory_entries() {
    let mut zip = seed_zip(&[
        ("AP_123.archipelago", MULTIDATA),
        ("AP_123_P1_Alice.x/", b""),
        ("AP_123_P2_Bob.aptest", &container(2, "Bob", "Game B")),
    ]);
    let expected = room();
    let validated = validate_generation(&mut zip, &parse_manifest, None, &expected).unwrap();
    assert_eq!(validated.patches.len(), 1);
    assert!(!validated.patches.contains_key(&expected[0].yaml_id));
    assert_eq!(slot_outputs(&mut zip, &parse_manifest).len(), 1);
}

#[test]
fn slot_outputs_prefers_containers_like_validation() {
    let mut zip = seed_zip(&[
        ("AP_123.archipelago", MULTIDATA),
        ("AP_123_P1_Alice.txt", b"notes"),
        ("AP_123_P1_Alice.aptest", &container(1, "Alice", "Game A")),
        ("AP_123_P1_Alice.bin", b"raw"),
        ("AP_123_P2_Bob.bin", b"raw"),
        ("AP_123_P0_Nobody.bin", b"raw"),
    ]);
    let outputs = slot_outputs(&mut zip, &parse_manifest);
    assert_eq!(outputs[&1], "AP_123_P1_Alice.aptest");
    assert_eq!(outputs[&2], "AP_123_P2_Bob.bin");
    assert_eq!(outputs.len(), 3);
}

// ---------------------------------------------------------------------------
// The messages
// ---------------------------------------------------------------------------

fn file(name: &str) -> GenerationFile {
    GenerationFile {
        name: name.to_string(),
        manifest: None,
    }
}

fn file_with(
    name: &str,
    player: Option<usize>,
    player_name: Option<&str>,
    game: Option<&str>,
) -> GenerationFile {
    GenerationFile {
        name: name.to_string(),
        manifest: Some(PatchManifest {
            player,
            player_name: player_name.map(str::to_string),
            game: game.map(str::to_string),
        }),
    }
}

#[test]
fn says_that_there_is_no_multidata() {
    let errors = errors_of(check_generation(&vec![], None, None, &room()));
    assert_eq!(
        errors,
        vec!["The zip doesn't contain a .archipelago multidata file"]
    );
}

#[test]
fn says_that_there_are_several_multidata_files() {
    let files = vec![file("AP_1.archipelago"), file("AP_2.archipelago")];
    let errors = errors_of(check_generation(&files, None, None, &room()));
    assert_eq!(
        errors,
        vec!["The zip contains more than one .archipelago multidata file"]
    );
}

#[test]
fn says_that_the_multidata_is_misnamed() {
    let files = vec![file("seed \"1\".archipelago")];
    let errors = errors_of(check_generation(&files, Some(1), None, &room()));
    assert_eq!(
        errors,
        vec![
            "Unexpected multidata file name \"seed \\\"1\\\".archipelago\", expected AP_<seed>.archipelago"
        ]
    );
}

#[test]
fn says_that_the_multidata_cannot_be_read() {
    let files = vec![file("AP_1.archipelago")];
    let errors = errors_of(check_generation(&files, None, None, &room()));
    assert_eq!(
        errors,
        vec!["Couldn't read the multidata file \"AP_1.archipelago\""]
    );
}

#[test]
fn an_empty_multidata_file_cannot_be_read() {
    let mut zip = seed_zip(&[("AP_123.archipelago", b"")]);
    let errors = errors_of(validate_generation(&mut zip, &parse_manifest, None, &room()));
    assert_eq!(
        errors,
        vec!["Couldn't read the multidata file \"AP_123.archipelago\""]
    );
}

#[test]
fn both_name_and_version_of_the_multidata_are_checked() {
    let files = vec![file("other.archipelago")];
    let errors = errors_of(check_generation(&files, Some(255), None, &room()));
    assert_eq!(
        errors,
        vec![
            "Unexpected multidata file name \"other.archipelago\", expected AP_<seed>.archipelago",
            "Unsupported multidata format version 255",
        ]
    );
}

#[test]
fn supports_versions_up_to_the_newest() {
    assert_eq!(MULTIDATA_MAX_FORMAT_VERSION, 3);
    let files = vec![file("AP_1.archipelago")];
    for version in 0..=3u8 {
        let validated = check_generation(&files, Some(version), None, &room()).unwrap();
        assert_eq!(validated.seed_name, "1");
    }
    let errors = errors_of(check_generation(&files, Some(4), None, &room()));
    assert_eq!(errors, vec!["Unsupported multidata format version 4"]);
}

#[test]
fn the_multidata_may_be_named_after_an_empty_seed() {
    let validated =
        check_generation(&vec![file("AP_.archipelago")], Some(0), None, &room()).unwrap();
    assert_eq!(validated.seed_name, "");
}

#[test]
fn finds_multidata_by_its_ending() {
    let files = vec![
        file("AP_1.archipelago"),
        file("AP_1.archipelago.txt"),
        file("nested/x.archipelago"),
    ];
    assert_eq!(
        find_multidata(&files),
        vec!["AP_1.archipelago", "nested/x.archipelago"]
    );
}

#[test]
fn says_that_a_file_is_of_another_seed() {
    let files = vec![file("AP_1.archipelago"), file("AP_2_P1_Alice.bin")];
    let errors = errors_of(check_generation(&files, Some(3), None, &room()));
    assert_eq!(
        errors,
        vec!["AP_2_P1_Alice.bin belongs to seed 2 but the multidata is for seed 1"]
    );
}

#[test]
fn without_a_known_seed_files_of_any_seed_are_checked() {
    let files = vec![file("AP_1_P1_Alice.bin"), file("AP_2_P9_Bob.bin")];
    let errors = errors_of(check_generation(&files, None, None, &room()));
    assert_eq!(
        errors,
        vec![
            "The zip doesn't contain a .archipelago multidata file",
            "AP_2_P9_Bob.bin is for slot 9 but this room only has 2 slots",
        ]
    );
}

#[test]
fn slots_that_no_room_has_are_refused() {
    let files = vec![
        file("AP_1.archipelago"),
        file("AP_1_P0_Alice.bin"),
        file("AP_1_P99999999999999999999999_Alice.bin"),
    ];
    let errors = errors_of(check_generation(&files, Some(3), None, &room()));
    assert_eq!(
        errors,
        vec![
            "AP_1_P0_Alice.bin is for slot 0 but this room only has 2 slots",
            "AP_1_P99999999999999999999999_Alice.bin is for slot 0 but this room only has 2 slots",
        ]
    );
}

#[test]
fn says_what_is_wrong_with_a_manifest() {
    let files = vec![
        file("AP_1.archipelago"),
        file_with("AP_1_P1_Alice.ap", Some(2), Some("Al"), Some("Game Z")),
    ];
    let errors = errors_of(check_generation(&files, Some(3), None, &room()));
    assert_eq!(
        errors,
        vec![
            "AP_1_P1_Alice.ap is named for slot 1 but its manifest says it's for slot 2",
            "AP_1_P1_Alice.ap is a \"Game Z\" output but slot 1 (Alice) in this room plays \"Game A\"",
        ]
    );
}

#[test]
fn says_what_looks_odd() {
    let files = vec![
        file("AP_1.archipelago"),
        file_with("AP_1_P1_Alice.ap", Some(1), Some("Al"), Some("Game A")),
        file("AP_1_P2_Eve.bin"),
    ];
    let validated = check_generation(&files, Some(3), None, &room()).unwrap();
    assert_eq!(
        validated.warnings,
        vec![
            "AP_1_P1_Alice.ap is for player \"Al\" but slot 1 in this room is \"Alice\"",
            "AP_1_P2_Eve.bin doesn't look like an output for slot 2 (Bob) in this room",
        ]
    );
}

#[test]
fn an_empty_manifest_says_nothing() {
    let files = vec![
        file("AP_1.archipelago"),
        file_with("AP_1_P1_Someone.ap", None, None, None),
    ];
    let expected = room();
    let validated = check_generation(&files, Some(3), None, &expected).unwrap();
    assert!(validated.warnings.is_empty());
    assert_eq!(
        validated.patches[&expected[0].yaml_id],
        "AP_1_P1_Someone.ap"
    );
}

#[test]
fn file_names_are_held_against_the_file_safe_name() {
    let expected = vec![slot(1, "A/l: ice?", "Game A")];
    let files = vec![file("AP_1.archipelago"), file("AP_1_P1_Al_ice_extra.bin")];
    let validated = check_generation(&files, Some(3), None, &expected).unwrap();
    assert!(validated.warnings.is_empty(), "{:?}", validated.warnings);
}

#[test]
fn says_what_is_wrong_with_the_passwords() {
    let files = vec![file("AP_1.archipelago")];
    let passwords = [
        password(1, "Alice", "a"),
        password(1, "Alice", "b"),
        password(0, "No\tone", "c"),
    ];
    let errors = errors_of(check_generation(&files, Some(3), Some(&passwords), &room()));
    assert_eq!(
        errors,
        vec![
            "The passwords file lists slot 1 more than once",
            "The passwords file lists slot 0 (\"No\\tone\") but this room only has 2 slots",
            "The passwords file has no password for slot(s) 2 (Bob)",
        ]
    );
}

#[test]
fn lists_all_slots_without_a_password() {
    let files = vec![file("AP_1.archipelago")];
    let expected = vec![
        slot(1, "Alice", "A"),
        slot(2, "Bob", "B"),
        slot(3, "Carol", "C"),
    ];
    let passwords = [password(2, "Bob", "b")];
    let errors = errors_of(check_generation(&files, Some(3), Some(&passwords), &expected));
    assert_eq!(
        errors,
        vec!["The passwords file has no password for slot(s) 1 (Alice), 3 (Carol)"]
    );
}

#[test]
fn says_that_a_password_is_for_another_name() {
    let files = vec![file("AP_1.archipelago")];
    let passwords = [password(2, "Eve", "e"), password(1, "Alice", "a")];
    let expected = room();
    let validated = check_generation(&files, Some(3), Some(&passwords), &expected).unwrap();
    assert_eq!(
        validated.warnings,
        vec!["The passwords file says slot 2 is \"Eve\" but slot 2 in this room is \"Bob\""]
    );
    assert_eq!(
        validated.passwords,
        Some(vec![
            (expected[1].yaml_id, "e".to_string()),
            (expected[0].yaml_id, "a".to_string()),
        ])
    );
}

#[test]
fn an_empty_passwords_file_is_one() {
    let files = vec![file("AP_1.archipelago")];
    let validated = check_generation(&files, Some(3), Some(&[]), &[]).unwrap();
    assert_eq!(validated.passwords, Some(vec![]));
    let errors = errors_of(check_generation(&files, Some(3), Some(&[]), &room()));
    assert_eq!(
        errors,
        vec!["The passwords file has no password for slot(s) 1 (Alice), 2 (Bob)"]
    );
}

#[test]
fn mismatches_are_told_one_per_line() {
    let mismatch = GenerationMismatch(vec!["first".to_string(), "second".to_string()]);
    assert_eq!(mismatch.to_text(), "first\nsecond");
    assert_eq!(GenerationMismatch(vec![]).to_text(), "");
}

#[test]
fn nothing_is_validated_by_default() {
    let validated = ValidatedGeneration::default();
    assert_eq!(validated.seed_name, "");
    assert!(validated.patches.is_empty());
    assert!(validated.passwords.is_none());
    assert!(validated.warnings.is_empty());
}

// ---------------------------------------------------------------------------
// The laws on given values
// ---------------------------------------------------------------------------

#[test]
fn player_names_never_block() {
    let ids = room();
    let passwords = [password(1, "Alice", "a"), password(2, "Bob", "b")];
    for (first, second) in [("Alice", "Bob"), ("X", ""), ("Bob", "Alice")] {
        let mut expected = ids.clone();
        expected[0].name = first.to_string();
        expected[1].name = second.to_string();
        let validated =
            validate_generation(&mut good_seed(), &parse_manifest, Some(&passwords), &expected)
                .unwrap();
        assert_eq!(validated.seed_name, "123");
        assert_eq!(
            validated.patches[&ids[0].yaml_id],
            "AP_123_P1_Alice.aptest"
        );
        assert_eq!(
            validated.passwords,
            Some(vec![
                (ids[0].yaml_id, "a".to_string()),
                (ids[1].yaml_id, "b".to_string())
            ])
        );
    }
}

#[test]
fn served_outputs_are_the_validated_patches() {
    let mut zip = seed_zip(&[
        ("AP_123.archipelago", MULTIDATA),
        ("AP_123_P2_Bob.txt", b"notes"),
        ("AP_123_P1_Alice.txt", b"notes"),
        ("AP_123_P2_Bob.aptest", &container(2, "Bob", "Game B")),
        ("AP_123_P2_Bob.second", &container(2, "Bob", "Game B")),
    ]);
    let expected = room();
    let validated = validate_generation(&mut zip, &parse_manifest, None, &expected).unwrap();
    let outputs = slot_outputs(&mut zip, &parse_manifest);
    assert_eq!(outputs.len(), validated.patches.len());
    for slot in &expected {
        assert_eq!(outputs[&slot.slot], validated.patches[&slot.yaml_id]);
    }
    assert_eq!(outputs[&1], "AP_123_P1_Alice.txt");
    assert_eq!(outputs[&2], "AP_123_P2_Bob.aptest");
}

#[test]
fn outputs_are_chosen_by_container_and_order() {
    assert!(should_replace_patch(None, false));
    assert!(should_replace_patch(None, true));
    assert!(should_replace_patch(Some(false), true));
    assert!(!should_replace_patch(Some(false), false));
    assert!(!should_replace_patch(Some(true), true));
    assert!(!should_replace_patch(Some(true), false));

    let files = vec![
        file("AP_1_P4_a.x"),
        file("AP_1_P4_b.x"),
        file("AP_2_P5_c.x"),
        file_with("AP_1_P5_d.x", None, None, None),
        file_with("AP_1_P5_e.x", None, None, None),
        file("AP_1_P99999999999999999999999_f.x"),
        file("notes.txt"),
    ];
    let outputs = choose_outputs(&files);
    assert_eq!(outputs.len(), 2);
    assert_eq!(outputs[&4], "AP_1_P4_a.x");
    assert_eq!(outputs[&5], "AP_1_P5_d.x");
}

// ---------------------------------------------------------------------------
// Reading zips
// ---------------------------------------------------------------------------

#[test]
fn reads_the_manifest_of_a_container() {
    let mut zip = good_seed();
    let manifest = read_patch_manifest(&mut zip, "AP_123_P2_Bob.aptest", &parse_manifest).unwrap();
    assert_eq!(manifest.player, Some(2));
    assert_eq!(manifest.player_name.as_deref(), Some("Bob"));
    assert_eq!(manifest.game.as_deref(), Some("Game B"));
}

#[test]
fn hands_the_text_of_the_manifest_to_the_parser() {
    let text = "{\"player\": 1, \"x\": \"\u{e4}\"}";
    let container = container_with(text);
    let mut zip = seed_zip(&[("AP_1_P1_A.ap", &container)]);
    let echo = |given: String| {
        assert_eq!(given, text);
        Some(PatchManifest {
            player: None,
            player_name: Some(given),
            game: None,
        })
    };
    let manifest = read_patch_manifest(&mut zip, "AP_1_P1_A.ap", &echo).unwrap();
    assert_eq!(manifest.player_name.as_deref(), Some(text));
}

#[test]
fn what_is_no_container_has_no_manifest() {
    let mut empty = zip::ZipWriter::new(Cursor::new(Vec::new()));
    empty
        .start_file("other.json", SimpleFileOptions::default())
        .unwrap();
    let other = empty.finish().unwrap().into_inner();
    let garbled = container_with("not json");
    let mut zip = seed_zip(&[
        ("raw", b"raw"),
        ("other", &other),
        ("garbled", &garbled),
    ]);
    assert!(read_patch_manifest(&mut zip, "raw", &parse_manifest).is_none());
    assert!(read_patch_manifest(&mut zip, "other", &parse_manifest).is_none());
    assert!(read_patch_manifest(&mut zip, "garbled", &parse_manifest).is_none());
    assert!(read_patch_manifest(&mut zip, "missing", &parse_manifest).is_none());
}

#[test]
fn reads_files_in_order_and_only_the_manifests_of_outputs() {
    let container = container(1, "Alice", "Game A");
    let mut zip = seed_zip(&[
        ("z.ap", &container),
        ("dir/", b""),
        ("AP_1_P1_Alice.ap", &container),
        ("AP_1_P1_Alice.txt", b"notes"),
    ]);
    let files = read_generation(&mut zip, &parse_manifest);
    let names: Vec<&str> = files.iter().map(|file| file.name.as_str()).collect();
    assert_eq!(names, vec!["z.ap", "AP_1_P1_Alice.ap", "AP_1_P1_Alice.txt"]);
    assert!(files[0].manifest.is_none());
    assert_eq!(files[1].manifest.as_ref().unwrap().player, Some(1));
    assert!(files[2].manifest.is_none());
}

#[test]
fn a_zip_reads_the_same_again() {
    let mut zip = good_seed();
    let expected = room();
    let first = validate_generation(&mut zip, &parse_manifest, None, &expected).unwrap();
    let second = validate_generation(&mut zip, &parse_manifest, None, &expected).unwrap();
    assert_eq!(first.patches, second.patches);
    assert_eq!(first.warnings, second.warnings);
}

/// A zip of stored entries, marked as compressed by another method.
fn zip_marked(method: u16, entries: &[(&str, &[u8])]) -> Vec<u8> {
    let options =
        SimpleFileOptions::default().compression_method(zip::CompressionMethod::Stored);
    let mut zip = zip::ZipWriter::new(Cursor::new(Vec::new()));
    for (name, content) in entries {
        zip.start_file(*name, options).unwrap();
        zip.write_all(content).unwrap();
    }
    let mut bytes = zip.finish().unwrap().into_inner();
    for at in 0..bytes.len() - 4 {
        let field = match &bytes[at..at + 4] {
            b"PK\x03\x04" => at + 8,
            b"PK\x01\x02" => at + 10,
            _ => continue,
        };
        bytes[field..field + 2].copy_from_slice(&method.to_le_bytes());
    }
    bytes
}

#[test]
fn stored_entries_are_read() {
    let bytes = zip_marked(0, &[("AP_1.archipelago", MULTIDATA)]);
    let mut zip = ZipArchive::new(Cursor::new(bytes)).unwrap();
    let validated = validate_generation(&mut zip, &parse_manifest, None, &room()).unwrap();
    assert_eq!(validated.seed_name, "1");
}

#[test]
fn entries_by_other_methods_cannot_be_read() {
    let manifest = manifest_json(1, "Alice", "Game A");
    for method in [9, 12, 14, 93, 95] {
        let bytes = zip_marked(method, &[("AP_1.archipelago", MULTIDATA)]);
        let mut zip = ZipArchive::new(Cursor::new(bytes)).unwrap();
        let errors = errors_of(validate_generation(&mut zip, &parse_manifest, None, &room()));
        assert_eq!(
            errors,
            vec!["Couldn't read the multidata file \"AP_1.archipelago\""]
        );

        let inner = zip_marked(method, &[("archipelago.json", manifest.as_bytes())]);
        let mut zip = seed_zip(&[("AP_1_P1_Alice.ap", &inner)]);
        assert!(read_patch_manifest(&mut zip, "AP_1_P1_Alice.ap", &parse_manifest).is_none());
    }
}

#[test]
fn damaged_entries_cannot_be_read() {
    let mut bytes = zip_marked(0, &[("AP_1_P1_Alice.ap", &container(1, "Alice", "Game A"))]);
    bytes[60] ^= 0xff;
    let mut zip = ZipArchive::new(Cursor::new(bytes)).unwrap();
    assert!(read_patch_manifest(&mut zip, "AP_1_P1_Alice.ap", &parse_manifest).is_none());

    let garbled = zip_marked(8, &[("AP_1.archipelago", &[0xff; 32])]);
    let mut zip = ZipArchive::new(Cursor::new(garbled)).unwrap();
    let errors = errors_of(validate_generation(&mut zip, &parse_manifest, None, &room()));
    assert_eq!(
        errors,
        vec!["Couldn't read the multidata file \"AP_1.archipelago\""]
    );
}
