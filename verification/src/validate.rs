//! Checking that a generation was made from a room's YAMLs.

use crate::matching;
use crate::matching::{file_safe_name, game_matches};
use crate::messages;
use crate::model;
use crate::model::{
    ExpectedSlot, ExpectedSlotView, GenerationFile, GenerationFileView, GenerationMismatch,
    PatchManifest, PatchManifestView, SlotPassword, SlotPasswordView, ValidatedGeneration,
    ValidatedGenerationView, YamlId,
};
use crate::outputs;
use crate::outputs::{should_replace_patch, Candidate};
use crate::patch_name;
use crate::patch_name::{parse_patch_name, PatchNameView};
use crate::text;
use crate::text::note;
use std::collections::{HashMap, HashSet};
use vstd::prelude::*;
use vstd::string::*;

verus! {

/// The newest multidata format that is understood.
pub const MULTIDATA_MAX_FORMAT_VERSION: u8 = 3;

// ---------------------------------------------------------------------------
// The multidata file
// ---------------------------------------------------------------------------

/// Whether a file of this name is a multidata file.
pub open spec fn is_multidata(name: Seq<char>) -> bool {
    ".archipelago"@.is_suffix_of(name)
}

/// The names of the multidata files among the files.
pub open spec fn multidata_names(files: Seq<GenerationFileView>) -> Seq<Seq<char>> {
    files.map_values(|file: GenerationFileView| file.name).filter(
        |name: Seq<char>| is_multidata(name),
    )
}

/// The seed that a multidata file is named after.
pub open spec fn seed_in_name(name: Seq<char>) -> Option<Seq<char>> {
    match text::without_prefix(name, "AP_"@) {
        Some(rest) => text::without_suffix(rest, ".archipelago"@),
        None => None,
    }
}

/// The seed of a generation with these multidata files.
pub open spec fn seed_of(multidata: Seq<Seq<char>>) -> Option<Seq<char>> {
    if multidata.len() == 1 {
        seed_in_name(multidata[0])
    } else {
        None
    }
}

/// What is wrong with the multidata files: there has to be one, named after a seed.
pub open spec fn multidata_errors(multidata: Seq<Seq<char>>) -> Seq<Seq<char>> {
    if multidata.len() == 0 {
        seq![messages::no_multidata()]
    } else if multidata.len() > 1 {
        seq![messages::several_multidata()]
    } else if seed_of(multidata) is None {
        seq![messages::unexpected_multidata_name(multidata[0])]
    } else {
        seq![]
    }
}

/// What is wrong with the format version that a single multidata file starts with, where
/// `None` stands for a file that cannot be read.
pub open spec fn version_errors(multidata: Seq<Seq<char>>, version: Option<u8>) -> Seq<Seq<char>> {
    if multidata.len() != 1 {
        seq![]
    } else {
        match version {
            Some(version) => if version <= MULTIDATA_MAX_FORMAT_VERSION {
                seq![]
            } else {
                seq![messages::unsupported_version(version as nat)]
            },
            None => seq![messages::unreadable_multidata(multidata[0])],
        }
    }
}

/// The names of the multidata files among the files.
pub fn find_multidata(files: &Vec<GenerationFile>) -> (r: Vec<String>)
    ensures
        r.deep_view() == multidata_names(files.deep_view()),
{
    let mut r: Vec<String> = Vec::new();
    let mut i: usize = 0;
    let ghost names = files.deep_view().map_values(|file: GenerationFileView| file.name);
    let ghost wanted = |name: Seq<char>| is_multidata(name);
    proof {
        reveal(Seq::filter);
        assert(r.deep_view() =~= names.take(0).filter(wanted));
    }
    while i < files.len()
        invariant
            i <= files@.len(),
            names == files.deep_view().map_values(|file: GenerationFileView| file.name),
            wanted == |name: Seq<char>| is_multidata(name),
            r.deep_view() == names.take(i as int).filter(wanted),
        decreases files@.len() - i,
    {
        proof {
            reveal(Seq::filter);
            let next = names.take(i + 1);
            assert(next.drop_last() =~= names.take(i as int));
            assert(next.last() == files@[i as int].name@);
        }
        if text::ends_with(files[i].name.as_str(), ".archipelago") {
            note(&mut r, files[i].name.clone());
        }
        i = i + 1;
    }
    assert(names.take(files@.len() as int) =~= names);
    r
}

/// Notes what is wrong with the multidata files, and gives the seed they are for.
fn check_multidata(multidata: &Vec<String>, errors: &mut Vec<String>) -> (seed: Option<String>)
    ensures
        final(errors).deep_view() == old(errors).deep_view() + multidata_errors(
            multidata.deep_view(),
        ),
        seed.deep_view() == seed_of(multidata.deep_view()),
{
    let ghost view = multidata.deep_view();
    let ghost noted = errors.deep_view();
    if multidata.len() == 0 {
        note(errors, messages::write_no_multidata());
        assert(errors.deep_view() =~= noted + multidata_errors(view));
        None
    } else if multidata.len() > 1 {
        note(errors, messages::write_several_multidata());
        assert(errors.deep_view() =~= noted + multidata_errors(view));
        None
    } else {
        let name = multidata[0].as_str();
        assert(view[0] == name@);
        let seed = match text::strip_prefix(name, "AP_") {
            Some(rest) => match text::strip_suffix(rest, ".archipelago") {
                Some(seed) => Some(seed.to_string()),
                None => None,
            },
            None => None,
        };
        if seed.is_none() {
            note(errors, messages::write_unexpected_multidata_name(name));
        }
        assert(errors.deep_view() =~= noted + multidata_errors(view));
        seed
    }
}

/// Notes what is wrong with the version of the multidata file.
fn check_version(multidata: &Vec<String>, version: Option<u8>, errors: &mut Vec<String>)
    ensures
        final(errors).deep_view() == old(errors).deep_view() + version_errors(
            multidata.deep_view(),
            version,
        ),
{
    let ghost noted = errors.deep_view();
    if multidata.len() == 1 {
        match version {
            Some(version) => {
                if version > MULTIDATA_MAX_FORMAT_VERSION {
                    note(errors, messages::write_unsupported_version(version as usize));
                }
            },
            None => {
                assert(multidata.deep_view()[0] == multidata@[0]@);
                note(errors, messages::write_unreadable_multidata(multidata[0].as_str()));
            },
        }
    }
    assert(errors.deep_view() =~= noted + version_errors(multidata.deep_view(), version));
}

// ---------------------------------------------------------------------------
// The output files
// ---------------------------------------------------------------------------

/// The slot of the room with this number, counting from one.
pub open spec fn room_slot(expected: Seq<ExpectedSlotView>, slot: nat) -> Option<ExpectedSlotView> {
    if 1 <= slot <= expected.len() {
        Some(expected[slot - 1])
    } else {
        None
    }
}

/// The slot number that an output file name gives; a number beyond all slots counts as zero,
/// which no room has.
pub open spec fn slot_number(parts: PatchNameView) -> usize {
    if text::digits_value(parts.slot) <= usize::MAX {
        text::digits_value(parts.slot) as usize
    } else {
        0
    }
}

/// Whether an output file is of another seed than the multidata, as far as that one is known.
pub open spec fn is_other_seed(parts: PatchNameView, seed: Option<Seq<char>>) -> bool {
    seed is Some && parts.seed != seed->0
}

/// The slot of the room that a file is an output for.
pub open spec fn accepted_slot(
    file: GenerationFileView,
    seed: Option<Seq<char>>,
    expected: Seq<ExpectedSlotView>,
) -> Option<usize> {
    match patch_name::patch_name(file.name) {
        Some(parts) => if !is_other_seed(parts, seed) && room_slot(
            expected,
            slot_number(parts) as nat,
        ) is Some {
            Some(slot_number(parts))
        } else {
            None
        },
        None => None,
    }
}

/// What is wrong with the manifest of an output file for a slot.
pub open spec fn manifest_errors(
    name: Seq<char>,
    manifest: PatchManifestView,
    slot: usize,
    room: ExpectedSlotView,
) -> Seq<Seq<char>> {
    (if manifest.player is Some && manifest.player->0 != slot {
        seq![messages::other_player(name, slot as nat, manifest.player->0 as nat)]
    } else {
        seq![]
    }) + (if manifest.game is Some && !matching::is_game_expected(room.game, manifest.game->0) {
        seq![messages::other_game(name, manifest.game->0, slot as nat, room.name, room.game)]
    } else {
        seq![]
    })
}

/// What is wrong with a file. A file that is not named as an output file has nothing wrong.
pub open spec fn file_errors(
    file: GenerationFileView,
    seed: Option<Seq<char>>,
    expected: Seq<ExpectedSlotView>,
) -> Seq<Seq<char>> {
    match patch_name::patch_name(file.name) {
        None => seq![],
        Some(parts) => {
            let slot = slot_number(parts);
            if is_other_seed(parts, seed) {
                seq![messages::other_seed(file.name, parts.seed, seed->0)]
            } else if room_slot(expected, slot as nat) is None {
                seq![messages::no_such_slot(file.name, slot as nat, expected.len())]
            } else {
                match file.manifest {
                    Some(manifest) => manifest_errors(
                        file.name,
                        manifest,
                        slot,
                        room_slot(expected, slot as nat)->0,
                    ),
                    None => seq![],
                }
            }
        },
    }
}

/// What looks odd about a file that is an output for a slot of the room: the player that its
/// manifest names, or, where it has none, its file name.
pub open spec fn file_warnings(
    file: GenerationFileView,
    seed: Option<Seq<char>>,
    expected: Seq<ExpectedSlotView>,
) -> Seq<Seq<char>> {
    match accepted_slot(file, seed, expected) {
        None => seq![],
        Some(slot) => {
            let room = room_slot(expected, slot as nat)->0;
            match file.manifest {
                Some(manifest) => if manifest.player_name is Some && manifest.player_name->0
                    != room.name {
                    seq![
                        messages::other_player_name(
                            file.name,
                            manifest.player_name->0,
                            slot as nat,
                            room.name,
                        ),
                    ]
                } else {
                    seq![]
                },
                None => if !matching::file_safe(room.name).is_prefix_of(
                    patch_name::patch_name(file.name)->0.player,
                ) {
                    seq![messages::unlikely_output(file.name, slot as nat, room.name)]
                } else {
                    seq![]
                },
            }
        },
    }
}

/// What is wrong with the files, in their order.
pub open spec fn files_errors(
    files: Seq<GenerationFileView>,
    seed: Option<Seq<char>>,
    expected: Seq<ExpectedSlotView>,
) -> Seq<Seq<char>>
    decreases files.len(),
{
    if files.len() == 0 {
        seq![]
    } else {
        files_errors(files.drop_last(), seed, expected) + file_errors(files.last(), seed, expected)
    }
}

/// What looks odd about the files, in their order.
pub open spec fn files_warnings(
    files: Seq<GenerationFileView>,
    seed: Option<Seq<char>>,
    expected: Seq<ExpectedSlotView>,
) -> Seq<Seq<char>>
    decreases files.len(),
{
    if files.len() == 0 {
        seq![]
    } else {
        files_warnings(files.drop_last(), seed, expected) + file_warnings(
            files.last(),
            seed,
            expected,
        )
    }
}

/// The files as candidates for the slots of the room that they are outputs for.
pub open spec fn accepted_candidates(
    files: Seq<GenerationFileView>,
    seed: Option<Seq<char>>,
    expected: Seq<ExpectedSlotView>,
) -> Seq<Candidate> {
    files.map_values(
        |file: GenerationFileView|
            Candidate {
                slot: accepted_slot(file, seed, expected),
                name: file.name,
                container: file.manifest is Some,
            },
    )
}

/// The file to serve for each YAML: each file that takes over the place of its slot is put
/// down for the slot's YAML.
pub open spec fn patches_of(
    candidates: Seq<Candidate>,
    expected: Seq<ExpectedSlotView>,
) -> Map<YamlId, Seq<char>>
    decreases candidates.len(),
{
    if candidates.len() == 0 {
        Map::empty()
    } else {
        let before = patches_of(candidates.drop_last(), expected);
        let next = candidates.last();
        if outputs::takes_over(candidates.drop_last(), next) {
            before.insert(room_slot(expected, next.slot->0 as nat)->0.yaml_id, next.name)
        } else {
            before
        }
    }
}

/// The slot of the room with this number, counting from one.
fn find_slot<'a>(expected: &'a [ExpectedSlot], slot: usize) -> (r: Option<&'a ExpectedSlot>)
    ensures
        r.deep_view() == room_slot(expected.deep_view(), slot as nat),
{
    if slot >= 1 && slot <= expected.len() {
        Some(&expected[slot - 1])
    } else {
        None
    }
}

/// Notes what is wrong with the manifest of an output file for a slot.
fn check_manifest(
    name: &str,
    manifest: &PatchManifest,
    slot: usize,
    room: &ExpectedSlot,
    errors: &mut Vec<String>,
)
    ensures
        final(errors).deep_view() == old(errors).deep_view() + manifest_errors(
            name@,
            manifest.deep_view(),
            slot,
            room.deep_view(),
        ),
{
    let ghost noted = errors.deep_view();
    if let Some(player) = manifest.player {
        if player != slot {
            note(errors, messages::write_other_player(name, slot, player));
        }
    }
    if let Some(game) = &manifest.game {
        if !game_matches(room.game.as_str(), game.as_str()) {
            note(
                errors,
                messages::write_other_game(
                    name,
                    game.as_str(),
                    slot,
                    room.name.as_str(),
                    room.game.as_str(),
                ),
            );
        }
    }
    assert(errors.deep_view() =~= noted + manifest_errors(
        name@,
        manifest.deep_view(),
        slot,
        room.deep_view(),
    ));
}

/// Notes what is wrong or looks odd about a file, and gives the slot of the room that it is
/// an output for.
fn check_file(
    file: &GenerationFile,
    seed: &Option<String>,
    expected: &[ExpectedSlot],
    errors: &mut Vec<String>,
    warnings: &mut Vec<String>,
) -> (accepted: Option<usize>)
    ensures
        final(errors).deep_view() == old(errors).deep_view() + file_errors(
            file.deep_view(),
            seed.deep_view(),
            expected.deep_view(),
        ),
        final(warnings).deep_view() == old(warnings).deep_view() + file_warnings(
            file.deep_view(),
            seed.deep_view(),
            expected.deep_view(),
        ),
        accepted == accepted_slot(file.deep_view(), seed.deep_view(), expected.deep_view()),
{
    let ghost errors_before = errors.deep_view();
    let ghost warnings_before = warnings.deep_view();
    let name = file.name.as_str();
    let accepted = match parse_patch_name(name) {
        None => None,
        Some(parts) => {
            proof {
                patch_name::law_parts_are_digits(name@);
            }
            let slot: usize = match text::parse_digits(parts.slot.as_str()) {
                Some(slot) => slot,
                None => 0,
            };
            let other_seed = match seed {
                Some(seed) => parts.seed != *seed,
                None => false,
            };
            if other_seed {
                if let Some(seed) = seed {
                    note(
                        errors,
                        messages::write_other_seed(name, parts.seed.as_str(), seed.as_str()),
                    );
                }
                None
            } else {
                match find_slot(expected, slot) {
                    None => {
                        note(errors, messages::write_no_such_slot(name, slot, expected.len()));
                        None
                    },
                    Some(room) => {
                        if let Some(manifest) = &file.manifest {
                            check_manifest(name, manifest, slot, room, errors);
                            if let Some(player_name) = &manifest.player_name {
                                if *player_name != room.name {
                                    note(
                                        warnings,
                                        messages::write_other_player_name(
                                            name,
                                            player_name.as_str(),
                                            slot,
                                            room.name.as_str(),
                                        ),
                                    );
                                }
                            }
                        } else if !text::starts_with(
                            parts.player.as_str(),
                            file_safe_name(room.name.as_str()).as_str(),
                        ) {
                            note(
                                warnings,
                                messages::write_unlikely_output(name, slot, room.name.as_str()),
                            );
                        }
                        Some(slot)
                    },
                }
            }
        },
    };
    assert(errors.deep_view() =~= errors_before + file_errors(
        file.deep_view(),
        seed.deep_view(),
        expected.deep_view(),
    ));
    assert(warnings.deep_view() =~= warnings_before + file_warnings(
        file.deep_view(),
        seed.deep_view(),
        expected.deep_view(),
    ));
    accepted
}

/// Notes what is wrong or looks odd about the files, and gives the file to serve for each YAML.
fn check_files(
    files: &Vec<GenerationFile>,
    seed: &Option<String>,
    expected: &[ExpectedSlot],
    errors: &mut Vec<String>,
    warnings: &mut Vec<String>,
) -> (patches: HashMap<YamlId, String>)
    ensures
        final(errors).deep_view() == old(errors).deep_view() + files_errors(
            files.deep_view(),
            seed.deep_view(),
            expected.deep_view(),
        ),
        final(warnings).deep_view() == old(warnings).deep_view() + files_warnings(
            files.deep_view(),
            seed.deep_view(),
            expected.deep_view(),
        ),
        model::texts(patches@) == patches_of(
            accepted_candidates(files.deep_view(), seed.deep_view(), expected.deep_view()),
            expected.deep_view(),
        ),
{
    let mut patches: HashMap<YamlId, String> = HashMap::new();
    let mut containers: HashMap<usize, bool> = HashMap::new();
    let mut i: usize = 0;
    let ghost errors_before = errors.deep_view();
    let ghost warnings_before = warnings.deep_view();
    let ghost views = files.deep_view();
    let ghost room = expected.deep_view();
    let ghost all = accepted_candidates(views, seed.deep_view(), room);
    proof {
        assert(errors_before =~= errors_before + files_errors(
            views.take(0),
            seed.deep_view(),
            room,
        ));
        assert(warnings_before =~= warnings_before + files_warnings(
            views.take(0),
            seed.deep_view(),
            room,
        ));
        assert(model::texts(patches@) =~= patches_of(all.take(0), room));
    }
    while i < files.len()
        invariant
            i <= files@.len(),
            views == files.deep_view(),
            room == expected.deep_view(),
            all == accepted_candidates(views, seed.deep_view(), room),
            errors.deep_view() == errors_before + files_errors(
                views.take(i as int),
                seed.deep_view(),
                room,
            ),
            warnings.deep_view() == warnings_before + files_warnings(
                views.take(i as int),
                seed.deep_view(),
                room,
            ),
            model::texts(patches@) == patches_of(all.take(i as int), room),
            forall|slot: usize| #[trigger]
                containers@.contains_key(slot) <==> outputs::has_output(all.take(i as int), slot),
            forall|slot: usize| #[trigger]
                containers@.contains_key(slot) ==> containers@[slot] == outputs::has_container(
                    all.take(i as int),
                    slot,
                ),
        decreases files@.len() - i,
    {
        let file = &files[i];
        let ghost before = all.take(i as int);
        let ghost next = all[i as int];
        proof {
            assert(views.take(i + 1).drop_last() =~= views.take(i as int));
            assert(views.take(i + 1).last() == file.deep_view());
            assert(all.take(i + 1) =~= before.push(next));
            assert(all.take(i + 1).drop_last() =~= before);
            assert forall|slot: usize| #[trigger]
                outputs::has_output(all.take(i + 1), slot) == (outputs::has_output(before, slot)
                    || next.slot == Some(slot)) by {
                outputs::lemma_next_candidate(before, next, slot);
            }
            assert forall|slot: usize| #[trigger]
                outputs::has_container(all.take(i + 1), slot) == (outputs::has_container(
                    before,
                    slot,
                ) || (next.slot == Some(slot) && next.container)) by {
                outputs::lemma_next_candidate(before, next, slot);
            }
        }
        let accepted = check_file(file, seed, expected, errors, warnings);
        proof {
            assert(errors.deep_view() =~= errors_before + files_errors(
                views.take(i + 1),
                seed.deep_view(),
                room,
            ));
            assert(warnings.deep_view() =~= warnings_before + files_warnings(
                views.take(i + 1),
                seed.deep_view(),
                room,
            ));
        }
        if let Some(slot) = accepted {
            let is_container = file.manifest.is_some();
            let current = match containers.get(&slot) {
                Some(container) => Some(*container),
                None => None,
            };
            assert(current == outputs::place(before, slot));
            if should_replace_patch(current, is_container) {
                let ghost patches_before = patches@;
                containers.insert(slot, is_container);
                patches.insert(expected[slot - 1].yaml_id, file.name.clone());
                assert(model::texts(patches@) =~= model::texts(patches_before).insert(
                    room[slot - 1].yaml_id,
                    file.name@,
                ));
            }
        }
        i = i + 1;
    }
    proof {
        assert(views.take(files@.len() as int) =~= views);
        assert(all.take(files@.len() as int) =~= all);
    }
    patches
}

// ---------------------------------------------------------------------------
// The passwords
// ---------------------------------------------------------------------------

/// Whether one of the entries is for `slot`.
pub open spec fn lists_slot(entries: Seq<SlotPasswordView>, slot: nat) -> bool {
    exists|i: int| 0 <= i < entries.len() && #[trigger] entries[i].slot == slot
}

/// What is wrong with an entry of the passwords file that follows the entries `before`.
pub open spec fn entry_errors(
    before: Seq<SlotPasswordView>,
    entry: SlotPasswordView,
    expected: Seq<ExpectedSlotView>,
) -> Seq<Seq<char>> {
    if room_slot(expected, entry.slot) is None {
        seq![messages::password_for_no_slot(entry.slot, entry.name, expected.len())]
    } else if lists_slot(before, entry.slot) {
        seq![messages::password_repeated(entry.slot)]
    } else {
        seq![]
    }
}

/// What looks odd about an entry of the passwords file that follows the entries `before`.
pub open spec fn entry_warnings(
    before: Seq<SlotPasswordView>,
    entry: SlotPasswordView,
    expected: Seq<ExpectedSlotView>,
) -> Seq<Seq<char>> {
    match room_slot(expected, entry.slot) {
        Some(room) => if !lists_slot(before, entry.slot) && entry.name != room.name {
            seq![
                messages::password_for_other_name(entry.slot, entry.name, room.slot, room.name),
            ]
        } else {
            seq![]
        },
        None => seq![],
    }
}

/// The password that an entry of the passwords file sets which follows the entries `before`.
pub open spec fn entry_updates(
    before: Seq<SlotPasswordView>,
    entry: SlotPasswordView,
    expected: Seq<ExpectedSlotView>,
) -> Seq<(YamlId, Seq<char>)> {
    match room_slot(expected, entry.slot) {
        Some(room) => if !lists_slot(before, entry.slot) {
            seq![(room.yaml_id, entry.password)]
        } else {
            seq![]
        },
        None => seq![],
    }
}

/// What is wrong with the entries of the passwords file, in their order.
pub open spec fn entries_errors(
    entries: Seq<SlotPasswordView>,
    expected: Seq<ExpectedSlotView>,
) -> Seq<Seq<char>>
    decreases entries.len(),
{
    if entries.len() == 0 {
        seq![]
    } else {
        entries_errors(entries.drop_last(), expected) + entry_errors(
            entries.drop_last(),
            entries.last(),
            expected,
        )
    }
}

/// What looks odd about the entries of the passwords file, in their order.
pub open spec fn entries_warnings(
    entries: Seq<SlotPasswordView>,
    expected: Seq<ExpectedSlotView>,
) -> Seq<Seq<char>>
    decreases entries.len(),
{
    if entries.len() == 0 {
        seq![]
    } else {
        entries_warnings(entries.drop_last(), expected) + entry_warnings(
            entries.drop_last(),
            entries.last(),
            expected,
        )
    }
}

/// The passwords that the passwords file sets, in its order.
pub open spec fn password_updates(
    entries: Seq<SlotPasswordView>,
    expected: Seq<ExpectedSlotView>,
) -> Seq<(YamlId, Seq<char>)>
    decreases entries.len(),
{
    if entries.len() == 0 {
        seq![]
    } else {
        password_updates(entries.drop_last(), expected) + entry_updates(
            entries.drop_last(),
            entries.last(),
            expected,
        )
    }
}

/// Whether the passwords file has an entry that the room has a slot for, with this number.
pub open spec fn is_slot_covered(
    entries: Seq<SlotPasswordView>,
    expected: Seq<ExpectedSlotView>,
    slot: nat,
) -> bool {
    lists_slot(entries, slot) && room_slot(expected, slot) is Some
}

/// The slots of the room that the passwords file has no password for, as they are listed.
pub open spec fn slots_without_password(
    entries: Seq<SlotPasswordView>,
    expected: Seq<ExpectedSlotView>,
) -> Seq<Seq<char>> {
    expected.filter(
        |room: ExpectedSlotView| !is_slot_covered(entries, expected, room.slot),
    ).map_values(|room: ExpectedSlotView| messages::slot_and_name(room.slot, room.name))
}

/// What is wrong with the passwords file as a whole: each slot needs a password.
pub open spec fn missing_errors(
    entries: Seq<SlotPasswordView>,
    expected: Seq<ExpectedSlotView>,
) -> Seq<Seq<char>> {
    let missing = slots_without_password(entries, expected);
    if missing.len() == 0 {
        seq![]
    } else {
        seq![messages::passwords_missing(text::joined(missing, ", "@))]
    }
}

/// Notes what is wrong or looks odd about the entries of the passwords file, and gives the
/// passwords it sets and the slots it covers.
fn check_entries(
    entries: &[SlotPassword],
    expected: &[ExpectedSlot],
    errors: &mut Vec<String>,
    warnings: &mut Vec<String>,
) -> (r: (Vec<(YamlId, String)>, HashSet<usize>))
    ensures
        final(errors).deep_view() == old(errors).deep_view() + entries_errors(
            entries.deep_view(),
            expected.deep_view(),
        ),
        final(warnings).deep_view() == old(warnings).deep_view() + entries_warnings(
            entries.deep_view(),
            expected.deep_view(),
        ),
        r.0.deep_view() == password_updates(entries.deep_view(), expected.deep_view()),
        forall|slot: usize| #[trigger]
            r.1@.contains(slot) <==> is_slot_covered(
                entries.deep_view(),
                expected.deep_view(),
                slot as nat,
            ),
{
    let mut updates: Vec<(YamlId, String)> = Vec::new();
    let mut seen: HashSet<usize> = HashSet::new();
    let mut i: usize = 0;
    let ghost errors_before = errors.deep_view();
    let ghost warnings_before = warnings.deep_view();
    let ghost views = entries.deep_view();
    let ghost room = expected.deep_view();
    proof {
        assert(errors_before =~= errors_before + entries_errors(views.take(0), room));
        assert(warnings_before =~= warnings_before + entries_warnings(views.take(0), room));
        assert(updates.deep_view() =~= password_updates(views.take(0), room));
    }
    while i < entries.len()
        invariant
            i <= entries@.len(),
            views == entries.deep_view(),
            room == expected.deep_view(),
            errors.deep_view() == errors_before + entries_errors(views.take(i as int), room),
            warnings.deep_view() == warnings_before + entries_warnings(views.take(i as int), room),
            updates.deep_view() == password_updates(views.take(i as int), room),
            forall|slot: usize| #[trigger]
                seen@.contains(slot) <==> is_slot_covered(views.take(i as int), room, slot as nat),
        decreases entries@.len() - i,
    {
        let entry = &entries[i];
        let ghost before = views.take(i as int);
        let ghost after = views.take(i + 1);
        let ghost errors_so_far = errors.deep_view();
        let ghost warnings_so_far = warnings.deep_view();
        let ghost updates_so_far = updates.deep_view();
        proof {
            assert(after.drop_last() =~= before);
            assert(after.last() == entry.deep_view());
            assert forall|slot: nat| #[trigger]
                lists_slot(after, slot) == (lists_slot(before, slot) || entry.slot == slot) by {
                if lists_slot(before, slot) {
                    let k = choose|k: int|
                        0 <= k < before.len() && #[trigger] before[k].slot == slot;
                    assert(after[k].slot == slot);
                }
                if lists_slot(after, slot) {
                    let k = choose|k: int| 0 <= k < after.len() && #[trigger] after[k].slot == slot;
                    if k < i {
                        assert(before[k].slot == slot);
                    }
                }
                assert(after[i as int].slot == entry.slot);
            }
        }
        match find_slot(expected, entry.slot) {
            None => {
                note(
                    errors,
                    messages::write_password_for_no_slot(
                        entry.slot,
                        entry.name.as_str(),
                        expected.len(),
                    ),
                );
            },
            Some(slot) => {
                if !seen.insert(entry.slot) {
                    note(errors, messages::write_password_repeated(entry.slot));
                } else {
                    if entry.name != slot.name {
                        note(
                            warnings,
                            messages::write_password_for_other_name(
                                entry.slot,
                                entry.name.as_str(),
                                slot.slot,
                                slot.name.as_str(),
                            ),
                        );
                    }
                    updates.push((slot.yaml_id, entry.password.clone()));
                }
            },
        }
        proof {
            assert(errors.deep_view() =~= errors_so_far + entry_errors(
                before,
                entry.deep_view(),
                room,
            ));
            assert(errors.deep_view() =~= errors_before + entries_errors(after, room));
            assert(warnings.deep_view() =~= warnings_so_far + entry_warnings(
                before,
                entry.deep_view(),
                room,
            ));
            assert(warnings.deep_view() =~= warnings_before + entries_warnings(after, room));
            assert(updates.deep_view() =~= updates_so_far + entry_updates(
                before,
                entry.deep_view(),
                room,
            ));
        }
        i = i + 1;
    }
    assert(views.take(entries@.len() as int) =~= views);
    (updates, seen)
}

/// Notes the slots of the room that the passwords file has no password for.
fn check_missing(
    entries: &[SlotPassword],
    expected: &[ExpectedSlot],
    seen: &HashSet<usize>,
    errors: &mut Vec<String>,
)
    requires
        forall|slot: usize| #[trigger]
            seen@.contains(slot) <==> is_slot_covered(
                entries.deep_view(),
                expected.deep_view(),
                slot as nat,
            ),
    ensures
        final(errors).deep_view() == old(errors).deep_view() + missing_errors(
            entries.deep_view(),
            expected.deep_view(),
        ),
{
    let ghost errors_before = errors.deep_view();
    let ghost room = expected.deep_view();
    let ghost uncovered = |slot: ExpectedSlotView|
        !is_slot_covered(entries.deep_view(), room, slot.slot);
    let ghost listed = |slot: ExpectedSlotView| messages::slot_and_name(slot.slot, slot.name);
    let mut missing: Vec<String> = Vec::new();
    let mut i: usize = 0;
    proof {
        reveal(Seq::filter);
        assert(missing.deep_view() =~= room.take(0).filter(uncovered).map_values(listed));
    }
    while i < expected.len()
        invariant
            i <= expected@.len(),
            room == expected.deep_view(),
            uncovered == |slot: ExpectedSlotView|
                !is_slot_covered(entries.deep_view(), room, slot.slot),
            listed == |slot: ExpectedSlotView| messages::slot_and_name(slot.slot, slot.name),
            missing.deep_view() == room.take(i as int).filter(uncovered).map_values(listed),
            forall|slot: usize| #[trigger]
                seen@.contains(slot) <==> is_slot_covered(entries.deep_view(), room, slot as nat),
        decreases expected@.len() - i,
    {
        let slot = &expected[i];
        let ghost so_far = room.take(i as int).filter(uncovered);
        proof {
            reveal(Seq::filter);
            let after = room.take(i + 1);
            assert(after.drop_last() =~= room.take(i as int));
            assert(after.last() == slot.deep_view());
            assert(so_far.push(slot.deep_view()).map_values(listed) =~= so_far.map_values(
                listed,
            ).push(listed(slot.deep_view())));
        }
        if !seen.contains(&slot.slot) {
            note(&mut missing, messages::write_slot_and_name(slot.slot, slot.name.as_str()));
        }
        i = i + 1;
    }
    assert(room.take(expected@.len() as int) =~= room);
    if !missing.is_empty() {
        note(
            errors,
            messages::write_passwords_missing(text::join(&missing, ", ").as_str()),
        );
    }
    assert(errors.deep_view() =~= errors_before + missing_errors(entries.deep_view(), room));
}

// ---------------------------------------------------------------------------
// The generation
// ---------------------------------------------------------------------------

/// All that is wrong with a generation.
pub open spec fn generation_errors(
    files: Seq<GenerationFileView>,
    version: Option<u8>,
    passwords: Option<Seq<SlotPasswordView>>,
    expected: Seq<ExpectedSlotView>,
) -> Seq<Seq<char>> {
    let multidata = multidata_names(files);
    multidata_errors(multidata) + version_errors(multidata, version) + files_errors(
        files,
        seed_of(multidata),
        expected,
    ) + (match passwords {
        Some(entries) => entries_errors(entries, expected) + missing_errors(entries, expected),
        None => seq![],
    })
}

/// All that looks odd about a generation.
pub open spec fn generation_warnings(
    files: Seq<GenerationFileView>,
    passwords: Option<Seq<SlotPasswordView>>,
    expected: Seq<ExpectedSlotView>,
) -> Seq<Seq<char>> {
    files_warnings(files, seed_of(multidata_names(files)), expected) + (match passwords {
        Some(entries) => entries_warnings(entries, expected),
        None => seq![],
    })
}

/// What checking a generation against a room gives: what to associate with each YAML where
/// nothing is wrong, else all that is wrong.
pub open spec fn verdict(
    files: Seq<GenerationFileView>,
    version: Option<u8>,
    passwords: Option<Seq<SlotPasswordView>>,
    expected: Seq<ExpectedSlotView>,
) -> Result<ValidatedGenerationView, Seq<Seq<char>>> {
    let errors = generation_errors(files, version, passwords, expected);
    let seed = seed_of(multidata_names(files));
    if errors.len() > 0 {
        Err(errors)
    } else {
        Ok(
            ValidatedGenerationView {
                seed_name: seed->0,
                patches: patches_of(accepted_candidates(files, seed, expected), expected),
                passwords: match passwords {
                    Some(entries) => Some(password_updates(entries, expected)),
                    None => None,
                },
                warnings: generation_warnings(files, passwords, expected),
            },
        )
    }
}

/// Checks the files of a generation (and its optional slot passwords) against the slots of a
/// room. `version` is the byte that a single multidata file starts with, `None` where that
/// file cannot be read.
pub fn check_generation(
    files: &Vec<GenerationFile>,
    version: Option<u8>,
    passwords: Option<&[SlotPassword]>,
    expected: &[ExpectedSlot],
) -> (r: Result<ValidatedGeneration, GenerationMismatch>)
    ensures
        match r {
            Ok(validated) => verdict(
                files.deep_view(),
                version,
                passwords.deep_view(),
                expected.deep_view(),
            ) == Ok::<ValidatedGenerationView, Seq<Seq<char>>>(validated.deep_view()),
            Err(mismatch) => verdict(
                files.deep_view(),
                version,
                passwords.deep_view(),
                expected.deep_view(),
            ) == Err::<ValidatedGenerationView, Seq<Seq<char>>>(mismatch.0.deep_view()),
        },
{
    let mut errors: Vec<String> = Vec::new();
    let mut warnings: Vec<String> = Vec::new();
    let multidata = find_multidata(files);
    let ghost names = multidata_names(files.deep_view());
    let ghost seed_view = seed_of(names);
    assert(errors.deep_view() =~= Seq::empty());
    assert(warnings.deep_view() =~= Seq::empty());
    let seed = check_multidata(&multidata, &mut errors);
    check_version(&multidata, version, &mut errors);
    let patches = check_files(files, &seed, expected, &mut errors, &mut warnings);
    let updates = match passwords {
        None => None,
        Some(entries) => {
            let (updates, seen) = check_entries(entries, expected, &mut errors, &mut warnings);
            check_missing(entries, expected, &seen, &mut errors);
            Some(updates)
        },
    };
    proof {
        assert(errors.deep_view() =~= generation_errors(
            files.deep_view(),
            version,
            passwords.deep_view(),
            expected.deep_view(),
        ));
        assert(warnings.deep_view() =~= generation_warnings(
            files.deep_view(),
            passwords.deep_view(),
            expected.deep_view(),
        ));
    }
    if !errors.is_empty() {
        return Err(GenerationMismatch(errors));
    }
    let seed_name = match seed {
        Some(seed) => seed,
        None => String::new(),
    };
    proof {
        assert(errors.deep_view().len() == 0);
        assert(multidata_errors(names).len() == 0);
    }
    Ok(ValidatedGeneration { seed_name, patches, passwords: updates, warnings })
}

} // verus!
