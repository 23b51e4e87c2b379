//! What checking a generation against a room gives, told by what is in the generation, the
//! passwords file and the room.

use crate::laws;
use crate::model::{
    ExpectedSlot, GenerationFile, GenerationFileView, GenerationMismatch, PatchManifest,
    SlotPassword, ValidatedGeneration, ValidatedGenerationView, YamlId,
};
use crate::patch_name;
use crate::slots;
use crate::text;
use crate::validate;
use crate::validate::{check_generation, find_multidata};
use vstd::prelude::*;

verus! {

// ---------------------------------------------------------------------------
// What the contracts speak of
// ---------------------------------------------------------------------------

/// What the contracts say of a slot, an entry, a manifest or a file is said of its fields, each
/// as it is.
pub proof fn law_views_show_the_fields(
    slot: ExpectedSlot,
    entry: SlotPassword,
    manifest: PatchManifest,
    file: GenerationFile,
)
    ensures
        slot.deep_view().slot == slot.slot,
        slot.deep_view().yaml_id == slot.yaml_id,
        slot.deep_view().name == slot.name@,
        slot.deep_view().game == slot.game@,
        entry.deep_view().slot == entry.slot,
        entry.deep_view().name == entry.name@,
        entry.deep_view().password == entry.password@,
        manifest.deep_view().player == manifest.player,
        manifest.player_name matches Some(name) ==> manifest.deep_view().player_name == Some(name@),
        manifest.player_name is None ==> manifest.deep_view().player_name is None,
        manifest.game matches Some(game) ==> manifest.deep_view().game == Some(game@),
        manifest.game is None ==> manifest.deep_view().game is None,
        file.deep_view().name == file.name@,
        file.manifest matches Some(m) ==> file.deep_view().manifest == Some(m.deep_view()),
        file.manifest is None ==> file.deep_view().manifest is None,
{
}

/// Whether a result of a check has in each field what the verdict says.
pub open spec fn shows(given: ValidatedGeneration, verdict: ValidatedGenerationView) -> bool {
    &&& given.seed_name@ == verdict.seed_name
    &&& forall|yaml_id: YamlId| #[trigger]
        given.patches@.contains_key(yaml_id) <==> verdict.patches.contains_key(yaml_id)
    &&& forall|yaml_id: YamlId| #[trigger]
        given.patches@.contains_key(yaml_id) ==> given.patches@[yaml_id]@
            == verdict.patches[yaml_id]
    &&& match (given.passwords, verdict.passwords) {
        (Some(updates), Some(set)) => updates@.len() == set.len() && forall|i: int|
            0 <= i < set.len() ==> (#[trigger] updates@[i]).0 == set[i].0 && updates@[i].1@
                == set[i].1,
        (None, None) => true,
        _ => false,
    }
    &&& given.warnings@.len() == verdict.warnings.len()
    &&& forall|i: int|
        0 <= i < verdict.warnings.len() ==> (#[trigger] given.warnings@[i])@ == verdict.warnings[i]
}

/// What the contracts say of a result of a check is said of its fields, each as it is.
pub proof fn law_results_show_their_fields(given: ValidatedGeneration)
    ensures
        shows(given, given.deep_view()),
{
    let verdict = given.deep_view();
    if let Some(updates) = given.passwords {
        let set = verdict.passwords->0;
        assert forall|i: int| 0 <= i < set.len() implies (#[trigger] updates@[i]).0 == set[i].0
            && updates@[i].1@ == set[i].1 by {
            assert(set[i] == updates@[i].deep_view());
        }
    }
    assert forall|i: int| 0 <= i < verdict.warnings.len() implies (#[trigger] given.warnings@[i])@
        == verdict.warnings[i] by {
        assert(verdict.warnings[i] == given.warnings@[i].deep_view());
    }
}

/// Checking a generation gives what the verdict on it says, in each field.
pub proof fn law_checking_gives_the_verdict(
    files: &Vec<GenerationFile>,
    version: Option<u8>,
    passwords: Option<&[SlotPassword]>,
    expected: &[ExpectedSlot],
    r: Result<ValidatedGeneration, GenerationMismatch>,
)
    requires
        call_ensures(check_generation, (files, version, passwords, expected), r),
    ensures
        match (
            r,
            validate::verdict(
                files.deep_view(),
                version,
                passwords.deep_view(),
                expected.deep_view(),
            ),
        ) {
            (Ok(given), Ok(verdict)) => shows(given, verdict),
            (Err(given), Err(errors)) => {
                &&& given.0@.len() == errors.len()
                &&& forall|i: int|
                    0 <= i < errors.len() ==> (#[trigger] given.0@[i])@ == errors[i]
            },
            _ => false,
        },
{
    if let Ok(given) = r {
        law_results_show_their_fields(given);
    }
    if let Err(given) = r {
        assert forall|i: int| 0 <= i < given.0@.len() implies (#[trigger] given.0@[i])@
            == given.0.deep_view()[i] by {}
    }
}

// ---------------------------------------------------------------------------
// The multidata file and the seed
// ---------------------------------------------------------------------------

/// Whether the file at `m` is the only one whose name ends as that of a multidata file.
pub open spec fn is_only_multidata(files: Seq<GenerationFileView>, m: int) -> bool {
    &&& 0 <= m < files.len()
    &&& ".archipelago"@.is_suffix_of(files[m].name)
    &&& forall|i: int|
        0 <= i < files.len() && i != m ==> !".archipelago"@.is_suffix_of(
            (#[trigger] files[i]).name,
        )
}

/// Whether the generation is of this seed: its only multidata file is named after it.
pub open spec fn is_seed(files: Seq<GenerationFileView>, seed: Seq<char>) -> bool {
    exists|m: int| #[trigger]
        is_only_multidata(files, m) && files[m].name == "AP_"@ + seed + ".archipelago"@
}

/// A multidata file is named after a seed exactly where the name is `AP_`, the seed and
/// `.archipelago`, one after the other.
pub proof fn law_seed_in_name(name: Seq<char>, seed: Seq<char>)
    ensures
        validate::seed_in_name(name) == Some(seed) <==> name == "AP_"@ + seed + ".archipelago"@,
{
    let (start, end) = ("AP_"@, ".archipelago"@);
    if name == start + seed + end {
        assert(name.subrange(0, start.len() as int) =~= start);
        assert(name.skip(start.len() as int) =~= seed + end);
        let rest = name.skip(start.len() as int);
        assert(rest.subrange(rest.len() - end.len(), rest.len() as int) =~= end);
        assert(rest.take(rest.len() - end.len()) =~= seed);
    }
    if validate::seed_in_name(name) == Some(seed) {
        let rest = name.skip(start.len() as int);
        assert(name =~= start + rest);
        assert(rest =~= seed + end);
        assert(name =~= start + seed + end);
    }
}

/// How many multidata files there are.
pub proof fn lemma_multidata(files: Seq<GenerationFileView>)
    ensures
        ({
            let names = validate::multidata_names(files);
            &&& names.len() == 0 ==> forall|i: int|
                0 <= i < files.len() ==> !".archipelago"@.is_suffix_of((#[trigger] files[i]).name)
            &&& names.len() == 1 ==> exists|m: int| #[trigger]
                is_only_multidata(files, m) && names[0] == files[m].name
            &&& names.len() > 1 ==> exists|i: int, j: int|
                0 <= i < j < files.len() && ".archipelago"@.is_suffix_of((#[trigger] files[i]).name)
                    && ".archipelago"@.is_suffix_of((#[trigger] files[j]).name)
        }),
    decreases files.len(),
{
    let all = files.map_values(|file: GenerationFileView| file.name);
    let wanted = |name: Seq<char>| validate::is_multidata(name);
    reveal(Seq::filter);
    if files.len() > 0 {
        let rest = files.drop_last();
        let last = files.len() - 1;
        lemma_multidata(rest);
        assert(all.drop_last() =~= rest.map_values(|file: GenerationFileView| file.name));
        let before = validate::multidata_names(rest);
        let names = validate::multidata_names(files);
        assert(names == (if wanted(all.last()) {
            before.push(all.last())
        } else {
            before
        }));
        assert forall|i: int| 0 <= i < last implies rest[i] == #[trigger] files[i] by {}
        if before.len() == 1 {
            let m = choose|m: int| #[trigger]
                is_only_multidata(rest, m) && before[0] == rest[m].name;
            assert(files[m] == rest[m]);
            if wanted(all.last()) {
                assert(".archipelago"@.is_suffix_of(files[m].name));
                assert(".archipelago"@.is_suffix_of(files[last].name));
            } else {
                assert forall|i: int| 0 <= i < files.len() && i != m implies
                    !".archipelago"@.is_suffix_of((#[trigger] files[i]).name) by {
                    if i < last {
                        assert(rest[i] == files[i]);
                    }
                }
                assert(is_only_multidata(files, m));
            }
        } else if before.len() == 0 {
            if wanted(all.last()) {
                assert forall|i: int| 0 <= i < files.len() && i != last implies
                    !".archipelago"@.is_suffix_of((#[trigger] files[i]).name) by {
                    assert(rest[i] == files[i]);
                }
                assert(is_only_multidata(files, last));
            } else {
                assert forall|i: int| 0 <= i < files.len() implies
                    !".archipelago"@.is_suffix_of((#[trigger] files[i]).name) by {
                    if i < last {
                        assert(rest[i] == files[i]);
                    }
                }
            }
        } else {
            let (i, j) = choose|i: int, j: int|
                0 <= i < j < rest.len() && ".archipelago"@.is_suffix_of((#[trigger] rest[i]).name)
                    && ".archipelago"@.is_suffix_of((#[trigger] rest[j]).name);
            assert(files[i] == rest[i] && files[j] == rest[j]);
        }
    }
}

/// The multidata files that are looked for are those whose names end in `.archipelago`: there is
/// none, one or more of them exactly where this many are found, and a single one is found under
/// its name.
pub proof fn law_multidata_is_found_by_its_ending(files: &Vec<GenerationFile>, r: Vec<String>)
    requires
        call_ensures(find_multidata, (files,), r),
    ensures
        r@.len() == 0 <==> forall|i: int|
            0 <= i < files@.len() ==> !".archipelago"@.is_suffix_of((#[trigger] files@[i]).name@),
        r@.len() == 1 <==> exists|m: int| #[trigger] is_only_multidata(files.deep_view(), m),
        forall|m: int| #[trigger]
            is_only_multidata(files.deep_view(), m) ==> r@.len() == 1 && r@[0]@
                == files@[m].name@,
{
    let views = files.deep_view();
    lemma_multidata(views);
    assert(r.deep_view() == validate::multidata_names(views));
    assert forall|i: int| 0 <= i < files@.len() implies (#[trigger] files@[i]).name@
        == views[i].name by {}
    if r@.len() == 1 {
        assert(r.deep_view()[0] == r@[0]@);
    }
    lemma_counted(views);
    if forall|i: int|
        0 <= i < files@.len() ==> !".archipelago"@.is_suffix_of((#[trigger] files@[i]).name@) {
        assert forall|i: int| 0 <= i < views.len() implies !".archipelago"@.is_suffix_of(
            (#[trigger] views[i]).name,
        ) by {
            assert(views[i].name == files@[i].name@);
        }
    }
    if r@.len() == 0 {
        assert forall|i: int| 0 <= i < files@.len() implies !".archipelago"@.is_suffix_of(
            (#[trigger] files@[i]).name@,
        ) by {
            assert(views[i].name == files@[i].name@);
        }
    }
    assert forall|m: int| #[trigger] is_only_multidata(views, m) implies r@.len() == 1 && r@[0]@
        == files@[m].name@ by {
        let k = choose|k: int| #[trigger]
            is_only_multidata(views, k) && validate::multidata_names(views)[0] == views[k].name;
        if k != m {
            assert(!".archipelago"@.is_suffix_of(views[k].name));
        }
    }
}

/// What there is of multidata files decides how many are found.
pub proof fn lemma_counted(files: Seq<GenerationFileView>)
    ensures
        ({
            let names = validate::multidata_names(files);
            &&& (forall|i: int|
                0 <= i < files.len() ==> !".archipelago"@.is_suffix_of((#[trigger] files[i]).name))
                ==> names.len() == 0
            &&& forall|m: int| #[trigger]
                is_only_multidata(files, m) ==> names.len() == 1 && names[0] == files[m].name
        }),
{
    let names = validate::multidata_names(files);
    lemma_multidata(files);
    assert forall|m: int| #[trigger] is_only_multidata(files, m) implies names.len() == 1
        && names[0] == files[m].name by {
        assert(".archipelago"@.is_suffix_of(files[m].name));
        if names.len() == 1 {
            let k = choose|k: int| #[trigger]
                is_only_multidata(files, k) && names[0] == files[k].name;
            if k != m {
                assert(!".archipelago"@.is_suffix_of(files[k].name));
            }
        }
        if names.len() > 1 {
            let (i, j) = choose|i: int, j: int|
                0 <= i < j < files.len() && ".archipelago"@.is_suffix_of((#[trigger] files[i]).name)
                    && ".archipelago"@.is_suffix_of((#[trigger] files[j]).name);
            assert(i != m || j != m);
            assert(".archipelago"@.is_suffix_of(files[i].name));
            assert(".archipelago"@.is_suffix_of(files[j].name));
        }
    }
    if (forall|i: int|
        0 <= i < files.len() ==> !".archipelago"@.is_suffix_of((#[trigger] files[i]).name))
        && names.len() > 0 {
        if names.len() == 1 {
            let k = choose|k: int| #[trigger]
                is_only_multidata(files, k) && names[0] == files[k].name;
            assert(!".archipelago"@.is_suffix_of(files[k].name));
        } else {
            let (i, j) = choose|i: int, j: int|
                0 <= i < j < files.len() && ".archipelago"@.is_suffix_of((#[trigger] files[i]).name)
                    && ".archipelago"@.is_suffix_of((#[trigger] files[j]).name);
            assert(!".archipelago"@.is_suffix_of(files[i].name));
        }
    }
}

/// The seed that files are held against is the seed of the generation.
pub proof fn lemma_seed(files: Seq<GenerationFileView>, seed: Seq<char>)
    ensures
        validate::seed_of(validate::multidata_names(files)) == Some(seed) <==> is_seed(files, seed),
{
    let names = validate::multidata_names(files);
    lemma_multidata(files);
    lemma_counted(files);
    if names.len() == 1 {
        law_seed_in_name(names[0], seed);
    }
}

// ---------------------------------------------------------------------------
// When a generation is accepted
// ---------------------------------------------------------------------------

/// A generation is accepted exactly where all of this holds. A single file is named
/// `AP_<seed>.archipelago`, and no other ends so; it starts with a byte of at most three. Every
/// output file is of that seed and for a slot of the room, and its manifest, where it has one
/// and says so, is for that slot and for the slot's game, in full, unless the slot's YAML picks
/// its game at random. The passwords file, where there is one, has entries for slots of the room
/// only, no two for one slot, and one for each slot. It gives the seed.
pub proof fn law_accepted_exactly_where_all_matches(
    files: &Vec<GenerationFile>,
    version: Option<u8>,
    passwords: Option<&[SlotPassword]>,
    expected: &[ExpectedSlot],
    r: Result<ValidatedGeneration, GenerationMismatch>,
)
    requires
        call_ensures(check_generation, (files, version, passwords, expected), r),
    ensures
        r is Ok <==> {
            &&& exists|seed: Seq<char>| #[trigger]
                is_seed(files.deep_view(), seed) && forall|i: int|
                    0 <= i < files@.len() ==> {
                        let file = #[trigger] files@[i];
                        patch_name::patch_name(file.name@) matches Some(parts) ==> {
                            let slot = text::digits_value(parts.slot);
                            &&& parts.seed == seed
                            &&& 1 <= slot <= expected@.len()
                            &&& file.manifest matches Some(manifest) ==> {
                                &&& manifest.player matches Some(player) ==> player == slot
                                &&& manifest.game matches Some(game) ==> expected@[slot - 1].game@
                                    == game@ || "Random ("@.is_prefix_of(expected@[slot - 1].game@)
                            }
                        }
                    }
            &&& version is Some && version->0 <= 3
            &&& passwords matches Some(entries) ==> {
                &&& forall|i: int|
                    0 <= i < entries@.len() ==> 1 <= (#[trigger] entries@[i]).slot
                        <= expected@.len()
                &&& forall|i: int, j: int|
                    0 <= i < j < entries@.len() ==> (#[trigger] entries@[i]).slot != (
                    #[trigger] entries@[j]).slot
                &&& forall|k: int|
                    0 <= k < expected@.len() ==> 1 <= (#[trigger] expected@[k]).slot
                        <= expected@.len() && exists|i: int|
                        0 <= i < entries@.len() && (#[trigger] entries@[i]).slot
                            == expected@[k].slot
            }
        },
        r matches Ok(validated) ==> is_seed(files.deep_view(), validated.seed_name@),
{
    let (views, room) = (files.deep_view(), expected.deep_view());
    laws::law_matching_generations_are_accepted(views, version, passwords.deep_view(), room);
    lemma_multidata(views);
    lemma_counted(views);
    let names = validate::multidata_names(views);
    assert(expected.len() == expected@.len());
    assert forall|k: int| 0 <= k < expected@.len() implies room[k] == (
    #[trigger] expected@[k]).deep_view() by {}
    if let Ok(validated) = r {
        let seed = validate::seed_in_name(names[0])->0;
        lemma_seed(views, seed);
        assert forall|i: int| 0 <= i < files@.len() implies {
            let file = #[trigger] files@[i];
            patch_name::patch_name(file.name@) matches Some(parts) ==> {
                let slot = text::digits_value(parts.slot);
                &&& parts.seed == seed
                &&& 1 <= slot <= expected@.len()
                &&& file.manifest matches Some(manifest) ==> {
                    &&& manifest.player matches Some(player) ==> player == slot
                    &&& manifest.game matches Some(game) ==> expected@[slot - 1].game@ == game@
                        || "Random ("@.is_prefix_of(expected@[slot - 1].game@)
                }
            }
        } by {
            assert(laws::is_output_matching(views[i], seed, room));
        }
        if let Some(entries) = passwords {
            let list = entries.deep_view();
            assert forall|i: int| 0 <= i < entries@.len() implies (#[trigger] entries@[i]).slot
                == list[i].slot by {}
            assert forall|i: int| 0 <= i < entries@.len() implies 1 <= (#[trigger] entries@[i]).slot
                <= expected@.len() by {
                assert(1 <= list[i].slot <= room.len());
            }
            assert forall|i: int, j: int| 0 <= i < j < entries@.len() implies (
            #[trigger] entries@[i]).slot != (#[trigger] entries@[j]).slot by {
                assert(list[i].slot != list[j].slot);
            }
            assert forall|k: int| 0 <= k < expected@.len() implies 1 <= (
            #[trigger] expected@[k]).slot <= expected@.len() && exists|i: int|
                0 <= i < entries@.len() && (#[trigger] entries@[i]).slot == expected@[k].slot by {
                assert(validate::lists_slot(list, room[k].slot));
                let i = choose|i: int|
                    0 <= i < list.len() && #[trigger] list[i].slot == room[k].slot;
                assert(entries@[i].slot == expected@[k].slot);
            }
        }
        assert(is_seed(views, seed));
    } else {
        if (exists|seed: Seq<char>| #[trigger]
            is_seed(views, seed) && forall|i: int|
                0 <= i < files@.len() ==> {
                    let file = #[trigger] files@[i];
                    patch_name::patch_name(file.name@) matches Some(parts) ==> {
                        let slot = text::digits_value(parts.slot);
                        &&& parts.seed == seed
                        &&& 1 <= slot <= expected@.len()
                        &&& file.manifest matches Some(manifest) ==> {
                            &&& manifest.player matches Some(player) ==> player == slot
                            &&& manifest.game matches Some(game) ==> expected@[slot - 1].game@
                                == game@ || "Random ("@.is_prefix_of(expected@[slot - 1].game@)
                        }
                    }
                }) && version is Some && version->0 <= 3 {
            let seed = choose|seed: Seq<char>| #[trigger]
                is_seed(views, seed) && forall|i: int|
                    0 <= i < files@.len() ==> {
                        let file = #[trigger] files@[i];
                        patch_name::patch_name(file.name@) matches Some(parts) ==> {
                            let slot = text::digits_value(parts.slot);
                            &&& parts.seed == seed
                            &&& 1 <= slot <= expected@.len()
                            &&& file.manifest matches Some(manifest) ==> {
                                &&& manifest.player matches Some(player) ==> player == slot
                                &&& manifest.game matches Some(game) ==> expected@[slot - 1].game@
                                    == game@ || "Random ("@.is_prefix_of(expected@[slot - 1].game@)
                            }
                        }
                    };
            lemma_seed(views, seed);
            assert forall|i: int| 0 <= i < views.len() implies laws::is_output_matching(
                #[trigger] views[i],
                seed,
                room,
            ) by {
                let file = files@[i];
                assert(views[i] == file.deep_view());
            }
            if let Some(entries) = passwords {
                let list = entries.deep_view();
                assert forall|i: int| 0 <= i < entries@.len() implies (#[trigger] entries@[i]).slot
                    == list[i].slot by {}
                if (forall|i: int|
                    0 <= i < entries@.len() ==> 1 <= (#[trigger] entries@[i]).slot
                        <= expected@.len()) && (forall|i: int, j: int|
                    0 <= i < j < entries@.len() ==> (#[trigger] entries@[i]).slot != (
                    #[trigger] entries@[j]).slot) && (forall|k: int|
                    0 <= k < expected@.len() ==> 1 <= (#[trigger] expected@[k]).slot
                        <= expected@.len() && exists|i: int|
                        0 <= i < entries@.len() && (#[trigger] entries@[i]).slot
                            == expected@[k].slot) {
                    assert forall|i: int| 0 <= i < list.len() implies 1 <= (
                    #[trigger] list[i]).slot <= room.len() by {
                        assert(entries@[i].slot == list[i].slot);
                    }
                    assert forall|i: int, j: int| 0 <= i < j < list.len() implies (
                    #[trigger] list[i]).slot != (#[trigger] list[j]).slot by {
                        assert(entries@[i].slot != entries@[j].slot);
                    }
                    assert forall|k: int| 0 <= k < room.len() implies validate::lists_slot(
                        list,
                        (#[trigger] room[k]).slot,
                    ) && 1 <= room[k].slot <= room.len() by {
                        let i = choose|i: int|
                            0 <= i < entries@.len() && (#[trigger] entries@[i]).slot
                                == expected@[k].slot;
                        assert(list[i].slot == room[k].slot);
                    }
                    assert(laws::are_passwords_matching(list, room));
                }
            }
        }
    }
}

} // verus!
