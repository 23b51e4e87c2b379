//! The slots of rooms, and the log that is shown for them.

use std::collections::HashMap;

use counter::Counter;
use gen_upload::log::upload_log;
use gen_upload::model::{ExpectedSlot, ValidatedGeneration, YamlId};
use gen_upload::slots::{
    connect_names, copy_slots, expected_slots, slot_players, slots_with_names, YamlWithoutContent,
};

fn yaml(name: &str, game: &str) -> YamlWithoutContent {
    YamlWithoutContent {
        id: uuid::Uuid::new_v4().as_u128(),
        player_name: name.to_string(),
        game: game.to_string(),
    }
}

/// The YAMLs by their players' names, without regard to case.
fn slot_order(yamls: &[YamlWithoutContent]) -> Vec<YamlId> {
    let mut sorted: Vec<&YamlWithoutContent> = yamls.iter().collect();
    sorted.sort_by_key(|yaml| yaml.player_name.to_lowercase());
    sorted.iter().map(|yaml| yaml.id).collect()
}

/// The name with its number filled in, cut to sixteen characters.
fn connect_name(name: &str, counter: &mut Counter<String>) -> String {
    counter[&name.to_string()] += 1;
    let number = counter[&name.to_string()];
    name.replace("{number}", &number.to_string())
        .chars()
        .take(16)
        .collect()
}

fn derive(player: String, mut counter: Counter<String>) -> (String, Counter<String>) {
    let name = connect_name(&player, &mut counter);
    (name, counter)
}

fn slots_of(yamls: &[YamlWithoutContent]) -> Vec<ExpectedSlot> {
    expected_slots(yamls, &slot_order(yamls), &derive)
}

#[test]
fn expected_slots_follow_ap_ordering_and_naming() {
    let yamls = vec![
        yaml("zed", "Game Z"),
        yaml("Player{number}", "Game A"),
        yaml("Player{number}", "Game B"),
        yaml("A very long player name indeed", "Game L"),
    ];

    let slots = slots_of(&yamls);
    let summary: Vec<(usize, &str, &str)> = slots
        .iter()
        .map(|s| (s.slot, s.name.as_str(), s.game.as_str()))
        .collect();
    assert_eq!(
        summary,
        vec![
            (1, "A very long play", "Game L"),
            (2, "Player1", "Game A"),
            (3, "Player2", "Game B"),
            (4, "zed", "Game Z"),
        ]
    );
    assert_eq!(slots[3].yaml_id, yamls[0].id);
}

#[test]
fn a_room_without_yamls_has_no_slots() {
    assert!(slots_of(&[]).is_empty());
}

#[test]
fn slots_take_the_given_order_and_names() {
    let yamls = [yaml("a", "Game A"), yaml("b", "Game B")];
    let order = [yamls[1].id, yamls[0].id];
    assert_eq!(slot_players(&yamls, &order), vec!["b", "a"]);
    let names = ["second".to_string(), "first".to_string()];
    let slots = slots_with_names(&yamls, &order, &names);
    assert_eq!(
        slots,
        vec![
            ExpectedSlot {
                slot: 1,
                yaml_id: yamls[1].id,
                name: "second".to_string(),
                game: "Game B".to_string(),
            },
            ExpectedSlot {
                slot: 2,
                yaml_id: yamls[0].id,
                name: "first".to_string(),
                game: "Game A".to_string(),
            },
        ]
    );
    assert_eq!(copy_slots(&slots), slots);
}

#[test]
fn the_last_of_several_yamls_with_one_id_counts() {
    let mut yamls = vec![yaml("a", "Game A"), yaml("b", "Game B")];
    yamls[1].id = yamls[0].id;
    let order = [yamls[0].id];
    assert_eq!(slot_players(&yamls, &order), vec!["b"]);
    let slots = slots_with_names(&yamls, &order, &["n".to_string()]);
    assert_eq!(slots[0].game, "Game B");
}

#[test]
fn players_are_named_in_order_with_one_counter() {
    let players: Vec<String> = ["a", "b", "a", "c"].iter().map(|s| s.to_string()).collect();
    let numbered = |player: String, mut counter: Counter<String>| {
        let seen: usize = counter.values().sum();
        let name = format!("{player}{}-{seen}", counter[&player]);
        counter[&player] += 1;
        (name, counter)
    };
    assert_eq!(
        connect_names(&players, &numbered),
        vec!["a0-0", "b0-1", "a1-2", "c0-3"]
    );
    assert!(connect_names(&vec![], &numbered).is_empty());
}

#[test]
fn each_room_is_named_with_a_counter_of_its_own() {
    let yamls = [yaml("Player{number}", "Game A")];
    for _ in 0..2 {
        assert_eq!(slots_of(&yamls)[0].name, "Player1");
    }
}

fn slot(n: usize, id: YamlId, name: &str, game: &str) -> ExpectedSlot {
    ExpectedSlot {
        slot: n,
        yaml_id: id,
        name: name.to_string(),
        game: game.to_string(),
    }
}

#[test]
fn the_log_tells_of_warnings_patches_and_passwords() {
    let mut patches = HashMap::new();
    patches.insert(10, "AP_1_P1_Alice.ap".to_string());
    let validated = ValidatedGeneration {
        seed_name: "123".to_string(),
        patches,
        passwords: Some(vec![(20, "secret".to_string())]),
        warnings: vec!["odd".to_string(), "odder".to_string()],
    };
    let expected = [slot(1, 10, "Alice", "Game A"), slot(2, 20, "Bob", "Game B")];
    assert_eq!(
        upload_log(&validated, &expected),
        "Uploaded generation for seed 123\n\n\
         Warnings:\n  odd\n  odder\n\n\
         Slot 1: Alice (Game A): AP_1_P1_Alice.ap, no password\n\
         Slot 2: Bob (Game B): no output file, password set\n"
    );
}

#[test]
fn the_log_tells_that_passwords_were_left() {
    let validated = ValidatedGeneration {
        seed_name: "9".to_string(),
        patches: HashMap::new(),
        passwords: None,
        warnings: vec![],
    };
    let expected = [slot(12, 10, "Alice", "Game A")];
    assert_eq!(
        upload_log(&validated, &expected),
        "Uploaded generation for seed 9\n\n\
         Slot 12: Alice (Game A): no output file\n\
         \nNo passwords file uploaded, existing slot passwords were left unchanged\n"
    );
}
