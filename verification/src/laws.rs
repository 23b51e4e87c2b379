//! What holds of checking a generation as a whole.

pub mod checks;
pub mod names;
pub mod rooms;
pub mod served;
pub mod steps;
pub mod told;
pub mod uploads;
pub mod writes;

use crate::archive;
use crate::generation;
use crate::generation::{Tables, WriteView};
use crate::matching;
use crate::model::{
    ExpectedSlotView, GenerationFileView, JobId, PatchManifest, RoomId, SlotPasswordView, YamlId,
};
use crate::outputs;
use crate::outputs::Candidate;
use crate::patch_name;
use crate::reading;
use crate::slots;
use crate::text;
use crate::validate;
use vstd::prelude::*;

verus! {

// ---------------------------------------------------------------------------
// When a generation is accepted
// ---------------------------------------------------------------------------

/// Whether a file is no output file, or one of this seed for a slot of the room, with a
/// manifest, if it has one, for that slot and for the game that the slot plays.
pub open spec fn is_output_matching(
    file: GenerationFileView,
    seed: Seq<char>,
    expected: Seq<ExpectedSlotView>,
) -> bool {
    patch_name::patch_name(file.name) matches Some(parts) ==> {
        let slot = text::digits_value(parts.slot);
        &&& parts.seed == seed
        &&& 1 <= slot <= expected.len() && slot <= usize::MAX
        &&& file.manifest matches Some(manifest) ==> {
            &&& manifest.player matches Some(player) ==> player == slot
            &&& manifest.game matches Some(game) ==> expected[slot - 1].game == game
                || "Random ("@.is_prefix_of(expected[slot - 1].game)
        }
    }
}

/// Whether the passwords file lists slots of the room only, none twice, and every one.
pub open spec fn are_passwords_matching(
    entries: Seq<SlotPasswordView>,
    expected: Seq<ExpectedSlotView>,
) -> bool {
    &&& forall|i: int|
        0 <= i < entries.len() ==> 1 <= (#[trigger] entries[i]).slot <= expected.len()
    &&& forall|i: int, j: int|
        0 <= i < j < entries.len() ==> (#[trigger] entries[i]).slot != (#[trigger] entries[j]).slot
    &&& forall|k: int|
        0 <= k < expected.len() ==> validate::lists_slot(entries, (#[trigger] expected[k]).slot)
            && 1 <= expected[k].slot <= expected.len()
}

/// Whether a generation matches a room: there is one multidata file, named after a seed and in
/// a format that is understood, all output files match, and so do the passwords, if any.
pub open spec fn is_matching(
    files: Seq<GenerationFileView>,
    version: Option<u8>,
    passwords: Option<Seq<SlotPasswordView>>,
    expected: Seq<ExpectedSlotView>,
) -> bool {
    let multidata = validate::multidata_names(files);
    &&& multidata.len() == 1
    &&& validate::seed_in_name(multidata[0]) is Some
    &&& version matches Some(version) && version <= 3
    &&& forall|i: int|
        0 <= i < files.len() ==> is_output_matching(
            #[trigger] files[i],
            validate::seed_in_name(multidata[0])->0,
            expected,
        )
    &&& passwords matches Some(entries) ==> are_passwords_matching(entries, expected)
}

/// A file has nothing wrong exactly where it matches.
proof fn lemma_file(file: GenerationFileView, seed: Seq<char>, expected: Seq<ExpectedSlotView>)
    ensures
        validate::file_errors(file, Some(seed), expected).len() == 0 <==> is_output_matching(
            file,
            seed,
            expected,
        ),
{
}

/// Files have nothing wrong exactly where all match.
proof fn lemma_files(
    files: Seq<GenerationFileView>,
    seed: Seq<char>,
    expected: Seq<ExpectedSlotView>,
)
    ensures
        validate::files_errors(files, Some(seed), expected).len() == 0 <==> forall|i: int|
            0 <= i < files.len() ==> is_output_matching(#[trigger] files[i], seed, expected),
    decreases files.len(),
{
    if files.len() > 0 {
        let rest = files.drop_last();
        lemma_files(rest, seed, expected);
        lemma_file(files.last(), seed, expected);
        assert forall|i: int| 0 <= i < rest.len() implies rest[i] == #[trigger] files[i] by {}
        if validate::files_errors(files, Some(seed), expected).len() == 0 {
            assert forall|i: int| 0 <= i < files.len() implies is_output_matching(
                #[trigger] files[i],
                seed,
                expected,
            ) by {
                if i < rest.len() {
                    assert(is_output_matching(rest[i], seed, expected));
                }
            }
        } else if forall|i: int|
            0 <= i < files.len() ==> is_output_matching(#[trigger] files[i], seed, expected) {
            assert(files[files.len() - 1] == files.last());
            assert(forall|i: int|
                0 <= i < rest.len() ==> is_output_matching(#[trigger] rest[i], seed, expected));
        }
    }
}

/// Entries have nothing wrong exactly where they are for slots of the room, none twice.
proof fn lemma_entries(entries: Seq<SlotPasswordView>, expected: Seq<ExpectedSlotView>)
    ensures
        validate::entries_errors(entries, expected).len() == 0 <==> (forall|i: int|
            0 <= i < entries.len() ==> 1 <= (#[trigger] entries[i]).slot <= expected.len()) && (
        forall|i: int, j: int|
            0 <= i < j < entries.len() ==> (#[trigger] entries[i]).slot != (
            #[trigger] entries[j]).slot),
    decreases entries.len(),
{
    if entries.len() > 0 {
        let rest = entries.drop_last();
        let last = entries.last();
        let n = rest.len() as int;
        lemma_entries(rest, expected);
        assert(entries[n] == last);
        assert forall|i: int| 0 <= i < n implies rest[i] == #[trigger] entries[i] by {}
        if validate::lists_slot(rest, last.slot) {
            let i = choose|i: int| 0 <= i < rest.len() && #[trigger] rest[i].slot == last.slot;
            assert(entries[i].slot == entries[n].slot);
        }
        if validate::entries_errors(entries, expected).len() == 0 {
            assert forall|i: int| 0 <= i < entries.len() implies 1 <= (
            #[trigger] entries[i]).slot <= expected.len() by {
                if i < n {
                    assert(1 <= rest[i].slot <= expected.len());
                }
            }
            assert forall|i: int, j: int| 0 <= i < j < entries.len() implies (
            #[trigger] entries[i]).slot != (#[trigger] entries[j]).slot by {
                if j < n {
                    assert(rest[i].slot != rest[j].slot);
                } else {
                    assert(rest[i].slot == entries[i].slot);
                }
            }
        } else if (forall|i: int|
            0 <= i < entries.len() ==> 1 <= (#[trigger] entries[i]).slot <= expected.len()) && (
        forall|i: int, j: int|
            0 <= i < j < entries.len() ==> (#[trigger] entries[i]).slot != (
            #[trigger] entries[j]).slot) {
            assert forall|i: int| 0 <= i < n implies 1 <= (#[trigger] rest[i]).slot
                <= expected.len() by {
                assert(rest[i] == entries[i]);
            }
            assert forall|i: int, j: int| 0 <= i < j < n implies (#[trigger] rest[i]).slot != (
            #[trigger] rest[j]).slot by {
                assert(entries[i].slot != entries[j].slot);
            }
            assert(1 <= entries[n].slot <= expected.len());
        }
    }
}

/// A filter leaves nothing exactly where it keeps no item.
proof fn lemma_filter_empty<A>(items: Seq<A>, keep: spec_fn(A) -> bool)
    ensures
        items.filter(keep).len() == 0 <==> forall|i: int|
            0 <= i < items.len() ==> !keep(#[trigger] items[i]),
{
    broadcast use vstd::seq_lib::group_filter_ensures;

    let kept = items.filter(keep);
    if kept.len() > 0 {
        assert(kept.contains(kept[0]));
        items.lemma_filter_contains_rev(keep, kept[0]);
    } else {
        assert forall|i: int| 0 <= i < items.len() implies !keep(#[trigger] items[i]) by {
            assert(!kept.contains(items[i]));
        }
    }
}

/// The passwords have nothing wrong exactly where they match.
proof fn lemma_passwords(entries: Seq<SlotPasswordView>, expected: Seq<ExpectedSlotView>)
    ensures
        validate::entries_errors(entries, expected).len() == 0 && validate::missing_errors(
            entries,
            expected,
        ).len() == 0 <==> are_passwords_matching(entries, expected),
{
    let uncovered = |room: ExpectedSlotView|
        !validate::is_slot_covered(entries, expected, room.slot);
    lemma_entries(entries, expected);
    lemma_filter_empty(expected, uncovered);
    if validate::missing_errors(entries, expected).len() == 0 {
        assert forall|k: int| 0 <= k < expected.len() implies validate::lists_slot(
            entries,
            (#[trigger] expected[k]).slot,
        ) && 1 <= expected[k].slot <= expected.len() by {
            assert(!uncovered(expected[k]));
        }
    } else if are_passwords_matching(entries, expected) {
        assert forall|k: int| 0 <= k < expected.len() implies !uncovered(
            #[trigger] expected[k],
        ) by {}
    }
}

/// A generation is accepted exactly where it matches the room.
pub proof fn law_matching_generations_are_accepted(
    files: Seq<GenerationFileView>,
    version: Option<u8>,
    passwords: Option<Seq<SlotPasswordView>>,
    expected: Seq<ExpectedSlotView>,
)
    ensures
        validate::verdict(files, version, passwords, expected) is Ok <==> is_matching(
            files,
            version,
            passwords,
            expected,
        ),
{
    let multidata = validate::multidata_names(files);
    if multidata.len() == 1 && validate::seed_in_name(multidata[0]) is Some {
        lemma_files(files, validate::seed_in_name(multidata[0])->0, expected);
        if let Some(entries) = passwords {
            lemma_passwords(entries, expected);
        }
    }
}

/// A refusal names at least one mismatch.
pub proof fn law_refusals_say_why(
    files: Seq<GenerationFileView>,
    version: Option<u8>,
    passwords: Option<Seq<SlotPasswordView>>,
    expected: Seq<ExpectedSlotView>,
)
    requires
        validate::verdict(files, version, passwords, expected) is Err,
    ensures
        validate::verdict(files, version, passwords, expected)->Err_0.len() > 0,
{
}

/// Whether two rooms have the same slots, but for the names of their players.
pub open spec fn is_same_room_but_names(
    a: Seq<ExpectedSlotView>,
    b: Seq<ExpectedSlotView>,
) -> bool {
    &&& a.len() == b.len()
    &&& forall|i: int|
        #![trigger a[i]]
        #![trigger b[i]]
        0 <= i < a.len() ==> a[i].slot == b[i].slot && a[i].yaml_id == b[i].yaml_id && a[i].game
            == b[i].game
}

/// Whether two lists of files are the same, but for the player names in their manifests.
pub open spec fn are_same_files_but_names(
    a: Seq<GenerationFileView>,
    b: Seq<GenerationFileView>,
) -> bool {
    &&& a.len() == b.len()
    &&& forall|i: int|
        #![trigger a[i]]
        #![trigger b[i]]
        0 <= i < a.len() ==> a[i].name == b[i].name && match (a[i].manifest, b[i].manifest) {
            (Some(x), Some(y)) => x.player == y.player && x.game == y.game,
            (None, None) => true,
            _ => false,
        }
}

/// Whether two passwords files are the same, but for the names in them.
pub open spec fn are_same_entries_but_names(
    a: Seq<SlotPasswordView>,
    b: Seq<SlotPasswordView>,
) -> bool {
    &&& a.len() == b.len()
    &&& forall|i: int|
        #![trigger a[i]]
        #![trigger b[i]]
        0 <= i < a.len() ==> a[i].slot == b[i].slot && a[i].password == b[i].password
}

/// Whether two uploads have the same passwords or none, but for the names.
pub open spec fn are_same_passwords_but_names(
    a: Option<Seq<SlotPasswordView>>,
    b: Option<Seq<SlotPasswordView>>,
) -> bool {
    match (a, b) {
        (Some(x), Some(y)) => are_same_entries_but_names(x, y),
        (None, None) => true,
        _ => false,
    }
}

/// Player names never block an upload: whatever the players are called in the room, in the
/// manifests and in the passwords file, a generation that is accepted stays accepted, and what
/// is associated with the YAMLs is the same.
pub proof fn law_player_names_never_block(
    files: (Seq<GenerationFileView>, Seq<GenerationFileView>),
    version: Option<u8>,
    passwords: (Option<Seq<SlotPasswordView>>, Option<Seq<SlotPasswordView>>),
    expected: (Seq<ExpectedSlotView>, Seq<ExpectedSlotView>),
)
    requires
        are_same_files_but_names(files.0, files.1),
        are_same_passwords_but_names(passwords.0, passwords.1),
        is_same_room_but_names(expected.0, expected.1),
        validate::verdict(files.0, version, passwords.0, expected.0) is Ok,
    ensures
        validate::verdict(files.1, version, passwords.1, expected.1) is Ok,
        ({
            let a = validate::verdict(files.0, version, passwords.0, expected.0)->Ok_0;
            let b = validate::verdict(files.1, version, passwords.1, expected.1)->Ok_0;
            &&& a.seed_name == b.seed_name
            &&& a.patches == b.patches
            &&& a.passwords == b.passwords
        }),
{
    let name_of = |file: GenerationFileView| file.name;
    assert(files.0.map_values(name_of) =~= files.1.map_values(name_of));
    let multidata = validate::multidata_names(files.0);
    assert(validate::multidata_names(files.1) == multidata);
    let seed = validate::seed_of(multidata);
    law_matching_generations_are_accepted(files.0, version, passwords.0, expected.0);
    law_matching_generations_are_accepted(files.1, version, passwords.1, expected.1);
    assert forall|i: int| 0 <= i < files.1.len() implies is_output_matching(
        #[trigger] files.1[i],
        seed->0,
        expected.1,
    ) by {
        assert(is_output_matching(files.0[i], seed->0, expected.0));
    }
    if let (Some(x), Some(y)) = passwords {
        lemma_same_listing(x, y);
        assert forall|k: int| 0 <= k < expected.1.len() implies validate::lists_slot(
            y,
            (#[trigger] expected.1[k]).slot,
        ) && 1 <= expected.1[k].slot <= expected.1.len() by {
            assert(validate::lists_slot(x, expected.0[k].slot));
        }
        assert(are_passwords_matching(y, expected.1));
        lemma_same_updates(x, y, expected.0, expected.1);
    }
    let candidates = validate::accepted_candidates(files.0, seed, expected.0);
    assert(candidates =~= validate::accepted_candidates(files.1, seed, expected.1));
    lemma_same_patches(candidates, expected.0, expected.1);
}

/// Entries that differ in names list the same slots.
proof fn lemma_same_listing(a: Seq<SlotPasswordView>, b: Seq<SlotPasswordView>)
    requires
        are_same_entries_but_names(a, b),
    ensures
        forall|slot: nat| #[trigger] validate::lists_slot(a, slot) == validate::lists_slot(b, slot),
{
    assert forall|slot: nat| #[trigger] validate::lists_slot(a, slot) == validate::lists_slot(
        b,
        slot,
    ) by {
        if validate::lists_slot(a, slot) {
            let i = choose|i: int| 0 <= i < a.len() && #[trigger] a[i].slot == slot;
            assert(b[i].slot == slot);
        }
        if validate::lists_slot(b, slot) {
            let i = choose|i: int| 0 <= i < b.len() && #[trigger] b[i].slot == slot;
            assert(a[i].slot == slot);
        }
    }
}

/// Entries that differ in names set the same passwords.
proof fn lemma_same_updates(
    x: Seq<SlotPasswordView>,
    y: Seq<SlotPasswordView>,
    a: Seq<ExpectedSlotView>,
    b: Seq<ExpectedSlotView>,
)
    requires
        are_same_entries_but_names(x, y),
        is_same_room_but_names(a, b),
    ensures
        validate::password_updates(x, a) == validate::password_updates(y, b),
    decreases x.len(),
{
    if x.len() > 0 {
        assert forall|i: int| 0 <= i < x.len() - 1 implies x.drop_last()[i].slot
            == y.drop_last()[i].slot && x.drop_last()[i].password == y.drop_last()[i].password by {
            assert(x[i].slot == y[i].slot);
        }
        lemma_same_updates(x.drop_last(), y.drop_last(), a, b);
        lemma_same_listing(x.drop_last(), y.drop_last());
        let last = x.len() - 1;
        assert(x[last].slot == y[last].slot);
        let slot = x[last].slot;
        if 1 <= slot <= a.len() {
            assert(a[slot - 1].yaml_id == b[slot - 1].yaml_id);
        }
    }
}

/// Whether the candidates are for slots of the room, where they are for any.
pub open spec fn are_slots_of(
    candidates: Seq<Candidate>,
    expected: Seq<ExpectedSlotView>,
) -> bool {
    forall|i: int|
        0 <= i < candidates.len() ==> ((#[trigger] candidates[i]).slot matches Some(slot) ==> 1
            <= slot <= expected.len())
}

pub proof fn lemma_slots_of_rest(candidates: Seq<Candidate>, expected: Seq<ExpectedSlotView>)
    requires
        candidates.len() > 0,
        are_slots_of(candidates, expected),
    ensures
        are_slots_of(candidates.drop_last(), expected),
        candidates.last().slot matches Some(slot) ==> 1 <= slot <= expected.len(),
{
    let rest = candidates.drop_last();
    assert(candidates[candidates.len() - 1] == candidates.last());
    assert forall|i: int| 0 <= i < rest.len() implies ((#[trigger] rest[i]).slot matches Some(
        slot,
    ) ==> 1 <= slot <= expected.len()) by {
        assert(rest[i] == candidates[i]);
    }
}

proof fn lemma_same_patches(
    candidates: Seq<Candidate>,
    a: Seq<ExpectedSlotView>,
    b: Seq<ExpectedSlotView>,
)
    requires
        is_same_room_but_names(a, b),
        are_slots_of(candidates, a),
    ensures
        validate::patches_of(candidates, a) == validate::patches_of(candidates, b),
    decreases candidates.len(),
{
    if candidates.len() > 0 {
        lemma_slots_of_rest(candidates, a);
        lemma_same_patches(candidates.drop_last(), a, b);
        if let Some(slot) = candidates.last().slot {
            assert(a[slot - 1].yaml_id == b[slot - 1].yaml_id);
        }
    }
}

/// A YAML that picks its game at random accepts every game.
pub proof fn law_random_yamls_accept_every_game(pick: Seq<char>, game: Seq<char>)
    ensures
        matching::is_game_expected("Random ("@ + pick, game),
{
    let expected = "Random ("@ + pick;
    assert(expected.subrange(0, "Random ("@.len() as int) =~= "Random ("@);
}

// ---------------------------------------------------------------------------
// What is associated with the YAMLs
// ---------------------------------------------------------------------------

/// Every patch is put down for the YAML of a slot.
proof fn lemma_patches_are_of_the_room(
    candidates: Seq<Candidate>,
    expected: Seq<ExpectedSlotView>,
    yaml_id: YamlId,
)
    requires
        are_slots_of(candidates, expected),
        validate::patches_of(candidates, expected).contains_key(yaml_id),
    ensures
        exists|k: int| 0 <= k < expected.len() && (#[trigger] expected[k]).yaml_id == yaml_id,
    decreases candidates.len(),
{
    if candidates.len() > 0 {
        let rest = candidates.drop_last();
        let next = candidates.last();
        lemma_slots_of_rest(candidates, expected);
        if outputs::takes_over(rest, next) && expected[next.slot->0 - 1].yaml_id == yaml_id {
            assert(expected[next.slot->0 - 1].yaml_id == yaml_id);
        } else {
            lemma_patches_are_of_the_room(rest, expected, yaml_id);
        }
    }
}

/// The patch put down for the YAML of a slot is the one to serve for the slot, where each slot
/// has a YAML of its own.
proof fn lemma_patch_of_slot(
    candidates: Seq<Candidate>,
    expected: Seq<ExpectedSlotView>,
    slot: usize,
)
    requires
        slots::has_distinct_yamls(expected),
        are_slots_of(candidates, expected),
        1 <= slot <= expected.len(),
    ensures
        ({
            let patches = validate::patches_of(candidates, expected);
            let served = outputs::preferred_names(candidates);
            let yaml_id = expected[slot - 1].yaml_id;
            &&& patches.contains_key(yaml_id) <==> served.contains_key(slot)
            &&& served.contains_key(slot) ==> patches[yaml_id] == served[slot]
        }),
    decreases candidates.len(),
{
    if candidates.len() > 0 {
        let rest = candidates.drop_last();
        let next = candidates.last();
        assert(rest.push(next) =~= candidates);
        lemma_slots_of_rest(candidates, expected);
        lemma_patch_of_slot(rest, expected, slot);
        outputs::lemma_next_preferred_names(rest, next);
        if outputs::takes_over(rest, next) && next.slot != Some(slot) {
            let taken = next.slot->0;
            if slot < taken {
                assert(expected[slot - 1].yaml_id != expected[taken - 1].yaml_id);
            } else {
                assert(expected[taken - 1].yaml_id != expected[slot - 1].yaml_id);
            }
        }
    }
}

/// Of an accepted generation, the output files for the slots that their names give are those
/// for the slots of the room.
pub proof fn lemma_same_candidates(
    files: Seq<GenerationFileView>,
    seed: Seq<char>,
    expected: Seq<ExpectedSlotView>,
)
    requires
        forall|i: int|
            0 <= i < files.len() ==> is_output_matching(#[trigger] files[i], seed, expected),
    ensures
        outputs::named_candidates(files) == validate::accepted_candidates(
            files,
            Some(seed),
            expected,
        ),
        are_slots_of(outputs::named_candidates(files), expected),
{
    let named = outputs::named_candidates(files);
    let accepted = validate::accepted_candidates(files, Some(seed), expected);
    assert forall|i: int| 0 <= i < files.len() implies #[trigger] named[i] == accepted[i] && (
    named[i].slot matches Some(slot) ==> 1 <= slot <= expected.len()) by {
        assert(is_output_matching(files[i], seed, expected));
    }
    assert(named =~= accepted);
}

/// Validation and serving agree: of an accepted generation, the patch that is associated with
/// the YAML of a slot is the output file that is served for that slot, and there is one for
/// the YAML exactly where there is one for the slot. No other slot has an output file, and no
/// other YAML a patch.
pub proof fn law_patches_are_the_served_outputs(
    files: Seq<GenerationFileView>,
    version: Option<u8>,
    passwords: Option<Seq<SlotPasswordView>>,
    expected: Seq<ExpectedSlotView>,
)
    requires
        validate::verdict(files, version, passwords, expected) is Ok,
        slots::has_distinct_yamls(expected),
    ensures
        ({
            let patches = validate::verdict(files, version, passwords, expected)->Ok_0.patches;
            let served = outputs::preferred_names(outputs::named_candidates(files));
            &&& forall|slot: usize| #[trigger]
                served.contains_key(slot) ==> 1 <= slot <= expected.len() && patches.contains_key(
                    expected[slot - 1].yaml_id,
                ) && patches[expected[slot - 1].yaml_id] == served[slot]
            &&& forall|yaml_id: YamlId| #[trigger]
                patches.contains_key(yaml_id) ==> exists|k: int|
                    0 <= k < expected.len() && (#[trigger] expected[k]).yaml_id == yaml_id
            &&& forall|slot: usize|
                1 <= slot <= expected.len() && #[trigger] patches.contains_key(
                    expected[slot - 1].yaml_id,
                ) ==> served.contains_key(slot)
        }),
{
    let multidata = validate::multidata_names(files);
    law_matching_generations_are_accepted(files, version, passwords, expected);
    let seed = validate::seed_in_name(multidata[0])->0;
    lemma_same_candidates(files, seed, expected);
    let candidates = outputs::named_candidates(files);
    let served = outputs::preferred_names(candidates);
    let patches = validate::patches_of(candidates, expected);
    assert forall|slot: usize| #[trigger] served.contains_key(slot) implies 1 <= slot
        <= expected.len() && patches.contains_key(expected[slot - 1].yaml_id)
        && patches[expected[slot - 1].yaml_id] == served[slot] by {
        let i = choose|i: int|
            0 <= i < candidates.len() && #[trigger] candidates[i].slot == Some(slot);
        assert(candidates[i].slot == Some(slot));
        lemma_patch_of_slot(candidates, expected, slot);
    }
    assert forall|yaml_id: YamlId| #[trigger] patches.contains_key(yaml_id) implies exists|k: int|
        0 <= k < expected.len() && (#[trigger] expected[k]).yaml_id == yaml_id by {
        lemma_patches_are_of_the_room(candidates, expected, yaml_id);
    }
    assert forall|slot: usize|
        1 <= slot <= expected.len() && #[trigger] patches.contains_key(
            expected[slot - 1].yaml_id,
        ) implies served.contains_key(slot) by {
        lemma_patch_of_slot(candidates, expected, slot);
    }
}

/// An accepted passwords file sets one password for each of its entries, that of the entry, for
/// the YAML of the entry's slot. No two entries are for one slot, and each slot has an entry:
/// where the room is numbered from one, each number has one.
pub proof fn law_passwords_cover_the_room(
    files: Seq<GenerationFileView>,
    version: Option<u8>,
    entries: Seq<SlotPasswordView>,
    expected: Seq<ExpectedSlotView>,
)
    requires
        validate::verdict(files, version, Some(entries), expected) is Ok,
    ensures
        ({
            let updates = validate::verdict(
                files,
                version,
                Some(entries),
                expected,
            )->Ok_0.passwords->0;
            &&& updates.len() == entries.len()
            &&& forall|i: int|
                0 <= i < entries.len() ==> 1 <= (#[trigger] entries[i]).slot <= expected.len()
                    && updates[i] == (expected[entries[i].slot - 1].yaml_id, entries[i].password)
            &&& forall|i: int, j: int|
                0 <= i < j < entries.len() ==> (#[trigger] entries[i]).slot != (
                #[trigger] entries[j]).slot
            &&& forall|k: int|
                0 <= k < expected.len() ==> validate::lists_slot(
                    entries,
                    (#[trigger] expected[k]).slot,
                )
            &&& slots::is_numbered(expected) ==> forall|slot: nat|
                1 <= slot <= expected.len() ==> #[trigger] validate::lists_slot(entries, slot)
        }),
{
    law_matching_generations_are_accepted(files, version, Some(entries), expected);
    lemma_all_updates(entries, expected);
    if slots::is_numbered(expected) {
        assert forall|slot: nat| 1 <= slot <= expected.len() implies #[trigger]
            validate::lists_slot(entries, slot) by {
            assert(expected[slot - 1].slot == slot);
        }
    }
}

proof fn lemma_all_updates(entries: Seq<SlotPasswordView>, expected: Seq<ExpectedSlotView>)
    requires
        forall|i: int|
            0 <= i < entries.len() ==> 1 <= (#[trigger] entries[i]).slot <= expected.len(),
        forall|i: int, j: int|
            0 <= i < j < entries.len() ==> (#[trigger] entries[i]).slot != (
            #[trigger] entries[j]).slot,
    ensures
        validate::password_updates(entries, expected).len() == entries.len(),
        forall|i: int|
            0 <= i < entries.len() ==> validate::password_updates(entries, expected)[i] == (
                expected[(#[trigger] entries[i]).slot - 1].yaml_id,
                entries[i].password,
            ),
    decreases entries.len(),
{
    if entries.len() > 0 {
        let rest = entries.drop_last();
        let n = rest.len() as int;
        assert(entries[n] == entries.last());
        assert forall|i: int| 0 <= i < n implies 1 <= (#[trigger] rest[i]).slot
            <= expected.len() by {
            assert(rest[i] == entries[i]);
        }
        assert forall|i: int, j: int| 0 <= i < j < n implies (#[trigger] rest[i]).slot != (
        #[trigger] rest[j]).slot by {
            assert(entries[i].slot != entries[j].slot);
        }
        lemma_all_updates(rest, expected);
        if validate::lists_slot(rest, entries[n].slot) {
            let i = choose|i: int| 0 <= i < rest.len() && #[trigger] rest[i].slot
                == entries[n].slot;
            assert(entries[i].slot == entries[n].slot);
        }
        assert forall|i: int| 0 <= i < entries.len() implies validate::password_updates(
            entries,
            expected,
        )[i] == (
            expected[(#[trigger] entries[i]).slot - 1].yaml_id,
            entries[i].password,
        ) by {
            if i < n {
                assert(rest[i] == entries[i]);
            }
        }
    }
}

// ---------------------------------------------------------------------------
// What publishing comes to
// ---------------------------------------------------------------------------

/// Once an accepted generation is published, the YAML of each slot has the output file that is
/// served for the slot as its patch, or none where there is no such file.
pub proof fn law_published_patches_are_the_served_outputs(
    files: Seq<GenerationFileView>,
    version: Option<u8>,
    passwords: Option<Seq<SlotPasswordView>>,
    expected: Seq<ExpectedSlotView>,
    tables: Tables,
    writes: Seq<WriteView>,
    room_id: RoomId,
    job_id: JobId,
    updates: Seq<(YamlId, Seq<char>)>,
    slot: usize,
)
    requires
        validate::verdict(files, version, passwords, expected) is Ok,
        slots::has_distinct_yamls(expected),
        generation::is_publishing(
            writes,
            room_id,
            job_id,
            validate::verdict(files, version, passwords, expected)->Ok_0.patches,
            updates,
        ),
        1 <= slot <= expected.len(),
        tables.yamls.contains_key(expected[slot - 1].yaml_id),
        tables.yamls[expected[slot - 1].yaml_id].room_id == room_id,
    ensures
        ({
            let served = outputs::preferred_names(outputs::named_candidates(files));
            let after = generation::apply_all(tables, writes);
            after.yamls[expected[slot - 1].yaml_id].patch == (if served.contains_key(slot) {
                Some(served[slot])
            } else {
                None
            })
        }),
{
    let patches = validate::verdict(files, version, passwords, expected)->Ok_0.patches;
    law_patches_are_the_served_outputs(files, version, passwords, expected);
    generation::law_publishing(tables, writes, room_id, job_id, patches, updates);
    assert(tables.yamls.contains_key(expected[slot - 1].yaml_id));
}

/// Once a generation that was accepted with a passwords file is published, the YAML of each
/// slot has the password that the file lists for the slot.
pub proof fn law_published_passwords_are_the_listed_ones(
    files: Seq<GenerationFileView>,
    version: Option<u8>,
    entries: Seq<SlotPasswordView>,
    expected: Seq<ExpectedSlotView>,
    tables: Tables,
    writes: Seq<WriteView>,
    room_id: RoomId,
    job_id: JobId,
    patches: Map<YamlId, Seq<char>>,
    i: int,
)
    requires
        validate::verdict(files, version, Some(entries), expected) is Ok,
        slots::has_distinct_yamls(expected),
        generation::is_publishing(
            writes,
            room_id,
            job_id,
            patches,
            validate::verdict(files, version, Some(entries), expected)->Ok_0.passwords->0,
        ),
        0 <= i < entries.len(),
        tables.yamls.contains_key(expected[entries[i].slot - 1].yaml_id),
    ensures
        generation::apply_all(tables, writes).yamls[expected[entries[i].slot - 1].yaml_id].password
            == Some(entries[i].password),
{
    let updates = validate::verdict(files, version, Some(entries), expected)->Ok_0.passwords->0;
    law_passwords_cover_the_room(files, version, entries, expected);
    assert forall|j: int, k: int| 0 <= j < k < updates.len() implies (#[trigger] updates[j]).0 != (
    #[trigger] updates[k]).0 by {
        let a = entries[j].slot - 1;
        let b = entries[k].slot - 1;
        assert(entries[j].slot != entries[k].slot);
        if a < b {
            assert(expected[a].yaml_id != expected[b].yaml_id);
        } else {
            assert(expected[b].yaml_id != expected[a].yaml_id);
        }
    }
    assert(updates[i] == (expected[entries[i].slot - 1].yaml_id, entries[i].password));
    lemma_only_entry(updates, i);
    generation::law_publishing(tables, writes, room_id, job_id, patches, updates);
    assert(tables.yamls.contains_key(expected[entries[i].slot - 1].yaml_id));
}

/// The last entry for a YAML is the only one, where no two entries are for the same.
proof fn lemma_only_entry(entries: Seq<(YamlId, Seq<char>)>, i: int)
    requires
        0 <= i < entries.len(),
        forall|j: int, k: int|
            0 <= j < k < entries.len() ==> (#[trigger] entries[j]).0 != (#[trigger] entries[k]).0,
    ensures
        generation::last_entry(entries, entries[i].0) == Some(entries[i].1),
    decreases entries.len(),
{
    let last = entries.len() - 1;
    if i < last {
        assert(entries[i].0 != entries[last].0);
        assert(entries.drop_last()[i] == entries[i]);
        lemma_only_entry(entries.drop_last(), i);
    }
}

/// Where no passwords file was supplied, publishing leaves every password as it is.
pub proof fn law_passwords_stay_without_a_passwords_file(
    files: Seq<GenerationFileView>,
    version: Option<u8>,
    expected: Seq<ExpectedSlotView>,
    tables: Tables,
    writes: Seq<WriteView>,
    room_id: RoomId,
    job_id: JobId,
    patches: Map<YamlId, Seq<char>>,
    yaml_id: YamlId,
)
    requires
        validate::verdict(files, version, None, expected) is Ok,
        generation::is_publishing(
            writes,
            room_id,
            job_id,
            patches,
            match validate::verdict(files, version, None, expected)->Ok_0.passwords {
                Some(updates) => updates,
                None => Seq::empty(),
            },
        ),
        tables.yamls.contains_key(yaml_id),
    ensures
        generation::apply_all(tables, writes).yamls[yaml_id].password
            == tables.yamls[yaml_id].password,
{
    generation::law_publishing_without_passwords(tables, writes, room_id, job_id, patches);
    assert(tables.yamls.contains_key(yaml_id));
}

// ---------------------------------------------------------------------------
// Reading a zip
// ---------------------------------------------------------------------------

/// The files of a generation are the entries of its zip that are not directories, and no
/// others.
pub proof fn law_directories_are_left_out<F: Fn(String) -> Option<PatchManifest>>(
    parse: F,
    source: Seq<u8>,
    files: Seq<GenerationFileView>,
    name: Seq<char>,
)
    requires
        reading::is_generation_read(parse, source, files),
    ensures
        (exists|i: int| 0 <= i < files.len() && (#[trigger] files[i]).name == name) <==> (
        archive::zip_names(source).contains(name) && reading::is_file(name)),
{
    broadcast use vstd::seq_lib::group_filter_ensures;

    let entries = archive::zip_names(source);
    let wanted = |name: Seq<char>| reading::is_file(name);
    let names = files.map_values(|file: GenerationFileView| file.name);
    if names.contains(name) {
        let i = choose|i: int| 0 <= i < names.len() && names[i] == name;
        assert(files[i].name == name);
        entries.lemma_filter_contains_rev(wanted, name);
        assert(wanted(names[i]));
    }
    if exists|i: int| 0 <= i < files.len() && (#[trigger] files[i]).name == name {
        let i = choose|i: int| 0 <= i < files.len() && (#[trigger] files[i]).name == name;
        assert(names[i] == name);
    }
    if entries.contains(name) && reading::is_file(name) {
        let i = choose|i: int| 0 <= i < entries.len() && entries[i] == name;
        assert(wanted(entries[i]));
        assert(names.contains(name));
    }
}

/// Whether `parse` finds the same whenever it is given the same text.
pub open spec fn is_repeatable<F: Fn(String) -> Option<PatchManifest>>(parse: F) -> bool {
    forall|text: Seq<char>, a: Option<PatchManifest>, b: Option<PatchManifest>|
        #[trigger] reading::may_give(parse, text, a) && #[trigger] reading::may_give(parse, text, b)
            ==> a.deep_view() == b.deep_view()
}

/// Where manifests are parsed in a repeatable way, reading a zip twice gives the same files.
pub proof fn law_zips_read_the_same<F: Fn(String) -> Option<PatchManifest>>(
    parse: F,
    source: Seq<u8>,
    a: Seq<GenerationFileView>,
    b: Seq<GenerationFileView>,
)
    requires
        is_repeatable(parse),
        reading::is_generation_read(parse, source, a),
        reading::is_generation_read(parse, source, b),
    ensures
        a == b,
{
    let name_of = |file: GenerationFileView| file.name;
    assert(a.map_values(name_of).len() == b.map_values(name_of).len());
    assert forall|i: int| 0 <= i < a.len() implies a[i] == b[i] by {
        assert(a.map_values(name_of)[i] == b.map_values(name_of)[i]);
        assert(reading::is_file_read(parse, source, a[i]));
        assert(reading::is_file_read(parse, source, b[i]));
    }
    assert(a =~= b);
}

/// What is served for the slots of a zip agrees with what validating the zip associates with
/// their YAMLs, where manifests are parsed in a repeatable way and the zip is accepted.
pub proof fn law_validation_and_serving_agree<F: Fn(String) -> Option<PatchManifest>>(
    parse: F,
    source: Seq<u8>,
    validated: Seq<GenerationFileView>,
    served: Seq<GenerationFileView>,
    passwords: Option<Seq<SlotPasswordView>>,
    expected: Seq<ExpectedSlotView>,
    slot: usize,
)
    requires
        is_repeatable(parse),
        reading::is_generation_read(parse, source, validated),
        reading::is_generation_read(parse, source, served),
        reading::archive_verdict(source, validated, passwords, expected) is Ok,
        slots::has_distinct_yamls(expected),
    ensures
        ({
            let patches = reading::archive_verdict(
                source,
                validated,
                passwords,
                expected,
            )->Ok_0.patches;
            let outputs = outputs::preferred_names(outputs::named_candidates(served));
            if 1 <= slot <= expected.len() {
                let yaml_id = expected[slot - 1].yaml_id;
                &&& patches.contains_key(yaml_id) <==> outputs.contains_key(slot)
                &&& outputs.contains_key(slot) ==> patches[yaml_id] == outputs[slot]
            } else {
                !outputs.contains_key(slot)
            }
        }),
{
    law_zips_read_the_same(parse, source, validated, served);
    let version = reading::version_read(source, validate::multidata_names(validated));
    law_patches_are_the_served_outputs(validated, version, passwords, expected);
}

} // verus!
