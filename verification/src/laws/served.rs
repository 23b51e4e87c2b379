//! Which output files are served, and which passwords are set.

use crate::laws;
use crate::laws::checks;
use crate::model;
use crate::model::{
    ExpectedSlot, ExpectedSlotView, GenerationFile, GenerationFileView, GenerationMismatch,
    SlotPassword, ValidatedGeneration, YamlId,
};
use crate::outputs;
use crate::outputs::{choose_outputs, should_replace_patch, Candidate};
use crate::patch_name;
use crate::patch_name::PatchNameView;
use crate::text;
use crate::validate;
use crate::validate::check_generation;
use std::collections::HashMap;
use vstd::prelude::*;

verus! {

/// Whether the digits in a file's name give this slot.
pub open spec fn is_for(file: GenerationFileView, slot: int) -> bool {
    patch_name::patch_name(file.name) matches Some(parts) && text::digits_value(parts.slot) == slot
}

/// Whether the file at `k` is to be served for the slot: it is the first AP container for the
/// slot, or there is no container and it is the first file for it.
pub open spec fn is_served(files: Seq<GenerationFileView>, slot: int, k: int) -> bool {
    &&& 0 <= k < files.len()
    &&& is_for(files[k], slot)
    &&& if files[k].manifest is Some {
        forall|j: int|
            0 <= j < k && is_for(#[trigger] files[j], slot) ==> files[j].manifest is None
    } else {
        forall|j: int|
            0 <= j < files.len() && is_for(#[trigger] files[j], slot) ==> j >= k
                && files[j].manifest is None
    }
}

/// A file takes the place of nothing, or of one that is no container where it is one.
pub proof fn law_containers_take_the_place_of_others(
    current: Option<bool>,
    is_container: bool,
    r: bool,
)
    requires
        call_ensures(should_replace_patch, (current, is_container), r),
    ensures
        current is None ==> r,
        current == Some(true) ==> !r,
        current == Some(false) ==> r == is_container,
{
}

/// The preferred candidate is the one to serve.
proof fn lemma_preferred(
    files: Seq<GenerationFileView>,
    candidates: Seq<Candidate>,
    slot: usize,
    k: int,
)
    requires
        candidates.len() == files.len(),
        forall|i: int|
            0 <= i < files.len() ==> (#[trigger] candidates[i]).container == (
            files[i].manifest is Some),
        forall|i: int|
            0 <= i < files.len() ==> ((#[trigger] candidates[i]).slot == Some(slot) <==> is_for(
                files[i],
                slot as int,
            )),
    ensures
        outputs::is_preferred(candidates, slot, k) <==> is_served(files, slot as int, k),
        outputs::has_output(candidates, slot) <==> exists|i: int|
            0 <= i < files.len() && is_for(#[trigger] files[i], slot as int),
{
    assert forall|i: int| 0 <= i < files.len() implies ((#[trigger] files[i]).manifest is Some
        <==> candidates[i].container) && (is_for(files[i], slot as int) <==> candidates[i].slot
        == Some(slot)) by {
        assert(candidates[i] == candidates[i]);
    }
    if outputs::has_output(candidates, slot) {
        let i = choose|i: int|
            0 <= i < candidates.len() && #[trigger] candidates[i].slot == Some(slot);
        assert(is_for(files[i], slot as int));
    }
    if exists|i: int| 0 <= i < files.len() && is_for(#[trigger] files[i], slot as int) {
        let i = choose|i: int| 0 <= i < files.len() && is_for(#[trigger] files[i], slot as int);
        assert(candidates[i].slot == Some(slot));
    }
    if outputs::is_preferred(candidates, slot, k) {
        if candidates[k].container {
            assert(outputs::has_container(candidates, slot));
            assert forall|j: int|
                0 <= j < k && is_for(
                    #[trigger] files[j],
                    slot as int,
                ) implies files[j].manifest is None by {
                if files[j].manifest is Some {
                    assert(candidates.take(k)[j].slot == Some(slot));
                }
            }
        } else {
            assert forall|j: int|
                0 <= j < files.len() && is_for(#[trigger] files[j], slot as int) implies j >= k
                && files[j].manifest is None by {
                assert(candidates[j].slot == Some(slot));
                if j < k {
                    assert(candidates.take(k)[j].slot == Some(slot));
                }
            }
        }
    }
    if is_served(files, slot as int, k) {
        assert(candidates[k].slot == Some(slot));
        if outputs::has_container(candidates, slot) {
            let i = choose|i: int|
                0 <= i < candidates.len() && #[trigger] candidates[i].slot == Some(slot)
                    && candidates[i].container;
            assert(is_for(files[i], slot as int));
            assert(files[k].manifest is Some);
            if outputs::has_container(candidates.take(k), slot) {
                let j = choose|j: int|
                    0 <= j < k && #[trigger] candidates.take(k)[j].slot == Some(slot)
                        && candidates.take(k)[j].container;
                assert(candidates[j] == candidates.take(k)[j]);
                assert(is_for(files[j], slot as int));
            }
        } else {
            if outputs::has_output(candidates.take(k), slot) {
                let j = choose|j: int|
                    0 <= j < k && #[trigger] candidates.take(k)[j].slot == Some(slot);
                assert(candidates[j] == candidates.take(k)[j]);
                assert(is_for(files[j], slot as int));
            }
        }
    }
}

/// What is served for a slot of these files.
pub proof fn lemma_served(files: Seq<GenerationFileView>, slot: usize)
    ensures
        ({
            let served = outputs::preferred_names(outputs::named_candidates(files));
            &&& served.contains_key(slot) <==> exists|i: int|
                0 <= i < files.len() && is_for(#[trigger] files[i], slot as int)
            &&& served.contains_key(slot) ==> exists|k: int| #[trigger]
                is_served(files, slot as int, k) && served[slot] == files[k].name
        }),
{
    let candidates = outputs::named_candidates(files);
    lemma_preferred(files, candidates, slot, 0);
    outputs::law_one_file_is_served(candidates, slot);
    if outputs::has_output(candidates, slot) {
        let k = choose|k: int| outputs::is_preferred(candidates, slot, k);
        lemma_preferred(files, candidates, slot, k);
        outputs::lemma_preferred_name(candidates, slot, k);
        assert(candidates[k].name == files[k].name);
    }
}

/// An output is served for a slot exactly where the name of some file gives that slot, be it
/// whichever, and the one that is served is the first AP container for the slot, or the first
/// file where there is no container.
pub proof fn law_each_named_slot_has_its_output(
    files: &Vec<GenerationFile>,
    r: HashMap<usize, String>,
    slot: usize,
)
    requires
        call_ensures(choose_outputs, (files,), r),
    ensures
        r@.contains_key(slot) <==> exists|i: int|
            0 <= i < files@.len() && is_for(#[trigger] files.deep_view()[i], slot as int),
        r@.contains_key(slot) ==> exists|k: int| #[trigger]
            is_served(files.deep_view(), slot as int, k) && r@[slot]@ == files@[k].name@,
{
    let views = files.deep_view();
    lemma_served(views, slot);
    let served = outputs::preferred_names(outputs::named_candidates(views));
    assert(model::texts(r@) == served);
    assert(served.contains_key(slot) <==> r@.contains_key(slot));
    if r@.contains_key(slot) {
        assert(served[slot] == r@[slot]@);
        let k = choose|k: int| #[trigger]
            is_served(views, slot as int, k) && served[slot] == views[k].name;
        assert(views[k].name == files@[k].name@);
    }
}

/// A file that is named as an output for a slot, however large the slot's number and whatever
/// else is in the name, has an output served for that slot.
pub proof fn law_written_names_have_their_outputs_served(
    files: &Vec<GenerationFile>,
    r: HashMap<usize, String>,
    i: int,
    slot: usize,
    seed: Seq<char>,
    player: Seq<char>,
    extension: Seq<char>,
)
    requires
        call_ensures(choose_outputs, (files,), r),
        0 <= i < files@.len(),
        files@[i].name@ == seq!['A', 'P', '_'] + seed + seq!['_', 'P'] + text::decimal(slot as nat)
            + seq!['_'] + player + seq!['.'] + extension,
        seed.len() > 0 && forall|j: int| 0 <= j < seed.len() ==> '0' <= #[trigger] seed[j] <= '9',
        forall|j: int| 0 <= j < player.len() ==> #[trigger] player[j] != '\n',
        forall|j: int| 0 <= j < extension.len() ==> #[trigger] extension[j] != '.',
    ensures
        r@.contains_key(slot),
{
    text::law_decimal_reads_back(slot as nat);
    patch_name::law_written_name_reads_back(
        PatchNameView { seed, slot: text::decimal(slot as nat), player },
        ('_', '_', '_'),
        extension,
    );
    law_each_named_slot_has_its_output(files, r, slot);
    assert(is_for(files.deep_view()[i], slot as int));
}

// ---------------------------------------------------------------------------
// Patches
// ---------------------------------------------------------------------------

/// Preferred candidates stay so, but where the next one takes over.
proof fn lemma_preferred_stays(rest: Seq<Candidate>, next: Candidate, slot: usize, k: int)
    requires
        !(outputs::takes_over(rest, next) && next.slot == Some(slot)),
    ensures
        outputs::is_preferred(rest.push(next), slot, k) <==> outputs::is_preferred(rest, slot, k),
{
    let all = rest.push(next);
    outputs::lemma_next_candidate(rest, next, slot);
    outputs::law_one_file_is_served(rest, slot);
    outputs::law_one_file_is_served(all, slot);
    if outputs::is_preferred(all, slot, k) {
        assert(outputs::has_output(all, slot)) by {
            assert(all[k].slot == Some(slot));
        }
        assert(outputs::has_output(rest, slot));
        let j = choose|j: int| outputs::is_preferred(rest, slot, j);
        assert(outputs::is_preferred(all, slot, j));
        outputs::lemma_preferred_is_one(all, slot, j, k);
    }
}

/// The patch of a YAML is the preferred file of one of its slots, the last of these.
proof fn lemma_patch(
    candidates: Seq<Candidate>,
    expected: Seq<ExpectedSlotView>,
    yaml_id: YamlId,
)
    requires
        laws::are_slots_of(candidates, expected),
    ensures
        ({
            let patches = validate::patches_of(candidates, expected);
            &&& patches.contains_key(yaml_id) <==> exists|i: int|
                0 <= i < candidates.len() && (#[trigger] candidates[i]).slot is Some
                    && expected[candidates[i].slot->0 - 1].yaml_id == yaml_id
            &&& patches.contains_key(yaml_id) ==> exists|slot: usize, i: int| #[trigger]
                outputs::is_preferred(candidates, slot, i) && expected[slot - 1].yaml_id == yaml_id
                    && patches[yaml_id] == candidates[i].name && forall|other: usize, j: int|
                    #[trigger] outputs::is_preferred(candidates, other, j) && expected[other
                        - 1].yaml_id == yaml_id ==> j <= i
        }),
    decreases candidates.len(),
{
    if candidates.len() > 0 {
        let rest = candidates.drop_last();
        let next = candidates.last();
        let last = candidates.len() - 1;
        assert(rest.push(next) =~= candidates);
        assert(candidates[last] == next);
        laws::lemma_slots_of_rest(candidates, expected);
        lemma_patch(rest, expected, yaml_id);
        let patches = validate::patches_of(candidates, expected);
        let before = validate::patches_of(rest, expected);
        assert forall|i: int| 0 <= i < last implies rest[i] == #[trigger] candidates[i] by {}
        if exists|i: int|
            0 <= i < candidates.len() && (#[trigger] candidates[i]).slot is Some
                && expected[candidates[i].slot->0 - 1].yaml_id == yaml_id {
            let i = choose|i: int|
                0 <= i < candidates.len() && (#[trigger] candidates[i]).slot is Some
                    && expected[candidates[i].slot->0 - 1].yaml_id == yaml_id;
            if i < last {
                assert(rest[i].slot is Some);
            } else if !outputs::takes_over(rest, next) {
                assert(outputs::has_output(rest, next.slot->0));
                let j = choose|j: int|
                    0 <= j < rest.len() && #[trigger] rest[j].slot == Some(next.slot->0);
                assert(rest[j].slot is Some);
            }
        }
        if before.contains_key(yaml_id) {
            let i = choose|i: int|
                0 <= i < rest.len() && (#[trigger] rest[i]).slot is Some && expected[rest[i].slot->0
                    - 1].yaml_id == yaml_id;
            assert(candidates[i].slot is Some);
        }
        if outputs::takes_over(rest, next) && expected[next.slot->0 - 1].yaml_id == yaml_id {
            let slot = next.slot->0;
            outputs::lemma_next_candidate(rest, next, slot);
            assert(outputs::is_preferred(candidates, slot, last));
            assert(patches[yaml_id] == candidates[last].name);
        } else if patches.contains_key(yaml_id) {
            assert(before.contains_key(yaml_id) && before[yaml_id] == patches[yaml_id]);
            let (slot, i) = choose|slot: usize, i: int| #[trigger]
                outputs::is_preferred(rest, slot, i) && expected[slot - 1].yaml_id == yaml_id
                    && before[yaml_id] == rest[i].name && forall|other: usize, j: int|
                    #[trigger] outputs::is_preferred(rest, other, j) && expected[other - 1].yaml_id
                        == yaml_id ==> j <= i;
            lemma_preferred_stays(rest, next, slot, i);
            assert(candidates[i] == rest[i]);
            assert forall|other: usize, j: int| #[trigger]
                outputs::is_preferred(candidates, other, j) && expected[other - 1].yaml_id
                    == yaml_id implies j <= i by {
                lemma_preferred_stays(rest, next, other, j);
            }
        }
    }
}

/// Of an accepted generation, a YAML has a patch exactly where the name of some file gives one of
/// the YAML's slots. The patch is the file that is to be served for the slot; should the YAML
/// have several slots, the one of these files that comes last.
pub proof fn law_yamls_have_the_outputs_of_their_slots(
    files: &Vec<GenerationFile>,
    version: Option<u8>,
    passwords: Option<&[SlotPassword]>,
    expected: &[ExpectedSlot],
    validated: ValidatedGeneration,
    yaml_id: YamlId,
)
    requires
        call_ensures(
            check_generation,
            (files, version, passwords, expected),
            Ok::<ValidatedGeneration, GenerationMismatch>(validated),
        ),
    ensures
        validated.patches@.contains_key(yaml_id) <==> exists|k: int, i: int|
            0 <= k < expected@.len() && 0 <= i < files@.len() && (#[trigger] expected@[k]).yaml_id
                == yaml_id && is_for(#[trigger] files.deep_view()[i], k + 1),
        validated.patches@.contains_key(yaml_id) ==> exists|slot: int, i: int| #[trigger]
            is_served(files.deep_view(), slot, i) && 1 <= slot <= expected@.len() && expected@[slot
                - 1].yaml_id == yaml_id && validated.patches@[yaml_id]@ == files@[i].name@
                && forall|other: int, j: int| #[trigger]
                is_served(files.deep_view(), other, j) && 1 <= other <= expected@.len()
                    && expected@[other - 1].yaml_id == yaml_id ==> j <= i,
{
    let (views, room) = (files.deep_view(), expected.deep_view());
    let names = validate::multidata_names(views);
    let seed = validate::seed_of(names);
    laws::law_matching_generations_are_accepted(views, version, passwords.deep_view(), room);
    let candidates = validate::accepted_candidates(views, seed, room);
    laws::lemma_same_candidates(views, seed->0, room);
    checks::law_checking_gives_the_verdict(files, version, passwords, expected, Ok(validated));
    assert(expected.len() == expected@.len());
    let patches = validate::patches_of(candidates, room);
    assert(validated.patches@.contains_key(yaml_id) <==> patches.contains_key(yaml_id));
    assert forall|k: int| 0 <= k < expected@.len() implies room[k].yaml_id == (
    #[trigger] expected@[k]).yaml_id by {}
    lemma_patch(candidates, room, yaml_id);
    assert forall|i: int| 0 <= i < views.len() implies (#[trigger] candidates[i]).container == (
    views[i].manifest is Some) && candidates[i].name == views[i].name by {}
    assert forall|i: int, slot: usize| 0 <= i < views.len() implies (
    #[trigger] candidates[i].slot == Some(slot) <==> #[trigger] is_for(
        views[i],
        slot as int,
    )) by {
        assert(laws::is_output_matching(views[i], seed->0, room));
    }
    if patches.contains_key(yaml_id) {
        let i = choose|i: int|
            0 <= i < candidates.len() && (#[trigger] candidates[i]).slot is Some
                && room[candidates[i].slot->0 - 1].yaml_id == yaml_id;
        let slot = candidates[i].slot->0;
        assert(is_for(views[i], slot as int));
        assert(expected@[slot - 1].yaml_id == yaml_id);
        assert(is_for(files.deep_view()[i], (slot - 1) + 1));
        let (slot, i) = choose|slot: usize, i: int| #[trigger]
            outputs::is_preferred(candidates, slot, i) && room[slot - 1].yaml_id == yaml_id
                && patches[yaml_id] == candidates[i].name && forall|other: usize, j: int| #[trigger]
                outputs::is_preferred(candidates, other, j) && room[other - 1].yaml_id == yaml_id
                    ==> j <= i;
        lemma_preferred(views, candidates, slot, i);
        assert(is_served(views, slot as int, i));
        assert(candidates[i].slot == Some(slot));
        assert(expected@[slot - 1].yaml_id == yaml_id);
        assert(validated.patches@[yaml_id]@ == files@[i].name@);
        assert forall|other: int, j: int| #[trigger]
            is_served(views, other, j) && 1 <= other <= expected@.len() && expected@[other
                - 1].yaml_id == yaml_id implies j <= i by {
            lemma_preferred(views, candidates, other as usize, j);
            assert(room[other - 1].yaml_id == yaml_id);
            assert(outputs::is_preferred(candidates, other as usize, j));
        }
    }
    if exists|k: int, i: int|
        0 <= k < expected@.len() && 0 <= i < files@.len() && (#[trigger] expected@[k]).yaml_id
            == yaml_id && is_for(#[trigger] files.deep_view()[i], k + 1) {
        let (k, i) = choose|k: int, i: int|
            0 <= k < expected@.len() && 0 <= i < files@.len() && (#[trigger] expected@[k]).yaml_id
                == yaml_id && is_for(#[trigger] files.deep_view()[i], k + 1);
        let slot = (k + 1) as usize;
        assert(is_for(views[i], slot as int));
        assert(candidates[i].slot == Some(slot));
        assert(room[slot - 1].yaml_id == yaml_id);
    }
}

// ---------------------------------------------------------------------------
// Passwords
// ---------------------------------------------------------------------------

/// Of an accepted generation, each entry of the passwords file sets its password, as it is, for
/// the YAML of the slot that it is for, in the order of the file. Without a passwords file none
/// is set, nor does the check say that one was there.
pub proof fn law_each_entry_sets_its_password(
    files: &Vec<GenerationFile>,
    version: Option<u8>,
    passwords: Option<&[SlotPassword]>,
    expected: &[ExpectedSlot],
    validated: ValidatedGeneration,
)
    requires
        call_ensures(
            check_generation,
            (files, version, passwords, expected),
            Ok::<ValidatedGeneration, GenerationMismatch>(validated),
        ),
    ensures
        match (passwords, validated.passwords) {
            (Some(entries), Some(updates)) => updates@.len() == entries@.len() && forall|i: int|
                0 <= i < entries@.len() ==> {
                    let entry = #[trigger] entries@[i];
                    &&& 1 <= entry.slot <= expected@.len()
                    &&& updates@[i].0 == expected@[entry.slot - 1].yaml_id
                    &&& updates@[i].1@ == entry.password@
                },
            (None, None) => true,
            _ => false,
        },
{
    checks::law_checking_gives_the_verdict(files, version, passwords, expected, Ok(validated));
    if let Some(entries) = passwords {
        laws::law_passwords_cover_the_room(
            files.deep_view(),
            version,
            entries.deep_view(),
            expected.deep_view(),
        );
        assert forall|i: int| 0 <= i < entries@.len() implies {
            let entry = #[trigger] entries@[i];
            &&& 1 <= entry.slot <= expected@.len()
            &&& validated.passwords->0@[i].0 == expected@[entry.slot - 1].yaml_id
            &&& validated.passwords->0@[i].1@ == entry.password@
        } by {
            let view = entries.deep_view()[i];
            assert(view == entries@[i].deep_view());
            assert(expected.deep_view()[view.slot - 1] == expected@[view.slot - 1].deep_view());
        }
    }
}

} // verus!
