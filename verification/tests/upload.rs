//! Checking uploaded files.

use std::io::{Cursor, Write};

use gen_upload::api::{bad_request, Status, UploadFailure};
use gen_upload::model::{ExpectedSlot, PatchManifest, SlotPassword, ValidatedGeneration};
use gen_upload::upload::{bundled_passwords, check_upload};
use zip::write::SimpleFileOptions;
use zip::ZipArchive;

fn zip_bytes(entries: &[(&str, &[u8])]) -> Vec<u8> {
    let mut zip = zip::ZipWriter::new(Cursor::new(Vec::new()));
    for (name, content) in entries {
        zip.start_file(*name, SimpleFileOptions::default()).unwrap();
        zip.write_all(content).unwrap();
    }
    zip.finish().unwrap().into_inner()
}

fn open(entries: &[(&str, &[u8])]) -> ZipArchive<Cursor<Vec<u8>>> {
    ZipArchive::new(Cursor::new(zip_bytes(entries))).unwrap()
}

fn no_manifest(_text: String) -> Option<PatchManifest> {
    None
}

fn parse_passwords(text: String) -> Result<Vec<SlotPassword>, String> {
    let value: serde_json::Value = serde_json::from_str(&text).map_err(|e| e.to_string())?;
    let list = value.as_array().ok_or("not a list")?;
    let mut passwords = Vec::new();
    for entry in list {
        passwords.push(SlotPassword {
            slot: entry["slot"].as_u64().ok_or("no slot")? as usize,
            name: entry["name"].as_str().ok_or("no name")?.to_string(),
            password: entry["password"].as_str().ok_or("no password")?.to_string(),
        });
    }
    Ok(passwords)
}

fn room() -> Vec<ExpectedSlot> {
    vec![ExpectedSlot {
        slot: 1,
        yaml_id: 7,
        name: "Alice".to_string(),
        game: "Game A".to_string(),
    }]
}

const LIST: &[u8] = b"[{\"slot\": 1, \"name\": \"Alice\", \"password\": \"bundled\"}]";

fn check(
    zip: Vec<u8>,
    passwords: Option<Vec<SlotPassword>>,
) -> Result<ValidatedGeneration, UploadFailure> {
    check_upload(zip, passwords, &room(), &no_manifest, &parse_passwords)
}

fn refusal(result: Result<ValidatedGeneration, UploadFailure>) -> (Status, String) {
    match result {
        Err(UploadFailure::Refused(error)) => (error.status, error.error),
        other => panic!("expected a refusal, got {other:?}"),
    }
}

#[test]
fn bad_requests_are_refused_as_such() {
    let error = bad_request("no".to_string());
    assert_eq!(error.error, "no");
    assert_eq!(error.status, Status::BadRequest);
}

#[test]
fn finds_bundled_passwords() {
    let mut zip = open(&[
        ("AP_1.archipelago", b"\x03"),
        ("AP_1_slot_passwords.json", LIST),
        ("AP_2_slot_passwords.json", b"broken"),
    ]);
    let passwords = bundled_passwords(&mut zip, &parse_passwords).unwrap().unwrap();
    assert_eq!(passwords.len(), 1);
    assert_eq!(passwords[0].slot, 1);
    assert_eq!(passwords[0].name, "Alice");
    assert_eq!(passwords[0].password, "bundled");
}

#[test]
fn a_zip_need_not_bundle_passwords() {
    let mut zip = open(&[("AP_1.archipelago", b"\x03"), ("passwords.json", LIST)]);
    assert!(bundled_passwords(&mut zip, &parse_passwords).unwrap().is_none());
}

#[test]
fn bundled_passwords_have_to_parse() {
    let mut zip = open(&[("AP_1_slot_passwords.json", b"{}")]);
    match bundled_passwords(&mut zip, &parse_passwords) {
        Err(UploadFailure::Refused(error)) => {
            assert_eq!(error.status, Status::BadRequest);
            assert_eq!(
                error.error,
                "Couldn't parse AP_1_slot_passwords.json from the zip: not a list"
            );
        }
        other => panic!("{other:?}"),
    }
}

#[test]
fn bundled_passwords_have_to_be_text() {
    let mut zip = open(&[("AP_1_slot_passwords.json", b"\xff\xfe")]);
    match bundled_passwords(&mut zip, &parse_passwords) {
        Err(UploadFailure::Broken(message)) => {
            assert_eq!(message, "stream did not contain valid UTF-8");
        }
        other => panic!("{other:?}"),
    }
}

#[test]
fn an_upload_has_to_be_a_zip() {
    let reason = ZipArchive::new(Cursor::new(b"no zip".to_vec()))
        .err()
        .unwrap()
        .to_string();
    let (status, message) = refusal(check(b"no zip".to_vec(), None));
    assert_eq!(status, Status::BadRequest);
    assert_eq!(message, format!("Uploaded file is not a valid zip: {reason}"));
}

#[test]
fn an_upload_has_to_match_the_room() {
    let zip = zip_bytes(&[("AP_1.archipelago", b"\x09"), ("AP_1_P2_Bob.ap", b"raw")]);
    let (status, message) = refusal(check(zip, None));
    assert_eq!(status, Status::BadRequest);
    assert_eq!(
        message,
        "This generation doesn't match the room:\n\
         Unsupported multidata format version 9\n\
         AP_1_P2_Bob.ap is for slot 2 but this room only has 1 slots"
    );
}

#[test]
fn takes_bundled_passwords_where_none_are_given() {
    let zip = zip_bytes(&[
        ("AP_1.archipelago", b"\x03"),
        ("AP_1_P1_Alice.ap", b"raw"),
        ("AP_1_slot_passwords.json", LIST),
    ]);
    let validated = check(zip.clone(), None).unwrap();
    assert_eq!(validated.seed_name, "1");
    assert_eq!(validated.patches[&7], "AP_1_P1_Alice.ap");
    assert_eq!(validated.passwords, Some(vec![(7, "bundled".to_string())]));

    let given = vec![SlotPassword {
        slot: 1,
        name: "Alice".to_string(),
        password: "given".to_string(),
    }];
    let validated = check(zip, Some(given)).unwrap();
    assert_eq!(validated.passwords, Some(vec![(7, "given".to_string())]));
}

#[test]
fn given_passwords_hide_broken_bundled_ones() {
    let zip = zip_bytes(&[
        ("AP_1.archipelago", b"\x03"),
        ("AP_1_slot_passwords.json", b"broken"),
    ]);
    let given = vec![SlotPassword {
        slot: 1,
        name: "Alice".to_string(),
        password: "given".to_string(),
    }];
    assert!(check(zip.clone(), Some(given)).is_ok());
    let (status, message) = refusal(check(zip, None));
    assert_eq!(status, Status::BadRequest);
    assert!(
        message.starts_with("Couldn't parse AP_1_slot_passwords.json from the zip: "),
        "{message}"
    );
}

#[test]
fn an_upload_without_passwords_leaves_them() {
    let zip = zip_bytes(&[("AP_1.archipelago", b"\x00")]);
    assert!(check(zip, None).unwrap().passwords.is_none());
}
