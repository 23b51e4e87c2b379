//! What is told of a generation: what is wrong with one that is refused, and what looks odd
//! about one that is accepted.

use crate::laws::checks;
use crate::matching;
use crate::messages;
use crate::model::{
    ExpectedSlot, ExpectedSlotView, GenerationFile, GenerationFileView, GenerationMismatch,
    SlotPassword, SlotPasswordView, ValidatedGeneration,
};
use crate::patch_name;
use crate::text;
use crate::validate;
use crate::validate::check_generation;
use vstd::prelude::*;

verus! {

/// Two lists put together hold what either holds.
proof fn lemma_either_holds(a: Seq<Seq<char>>, b: Seq<Seq<char>>, told: Seq<char>)
    ensures
        (a + b).contains(told) <==> a.contains(told) || b.contains(told),
{
    if a.contains(told) {
        let i = choose|i: int| 0 <= i < a.len() && a[i] == told;
        assert((a + b)[i] == told);
    }
    if b.contains(told) {
        let i = choose|i: int| 0 <= i < b.len() && b[i] == told;
        assert((a + b)[a.len() + i] == told);
    }
}

/// The errors of files are the errors of each.
proof fn lemma_files_told(
    files: Seq<GenerationFileView>,
    seed: Option<Seq<char>>,
    expected: Seq<ExpectedSlotView>,
    told: Seq<char>,
)
    ensures
        validate::files_errors(files, seed, expected).contains(told) <==> exists|i: int|
            0 <= i < files.len() && validate::file_errors(
                #[trigger] files[i],
                seed,
                expected,
            ).contains(told),
        validate::files_warnings(files, seed, expected).contains(told) <==> exists|i: int|
            0 <= i < files.len() && validate::file_warnings(
                #[trigger] files[i],
                seed,
                expected,
            ).contains(told),
    decreases files.len(),
{
    if files.len() > 0 {
        let rest = files.drop_last();
        let last = files.len() - 1;
        lemma_files_told(rest, seed, expected, told);
        lemma_either_holds(
            validate::files_errors(rest, seed, expected),
            validate::file_errors(files.last(), seed, expected),
            told,
        );
        lemma_either_holds(
            validate::files_warnings(rest, seed, expected),
            validate::file_warnings(files.last(), seed, expected),
            told,
        );
        assert(files[last] == files.last());
        assert forall|i: int| 0 <= i < last implies rest[i] == #[trigger] files[i] by {}
        if validate::files_errors(rest, seed, expected).contains(told) {
            let i = choose|i: int|
                0 <= i < rest.len() && validate::file_errors(
                    #[trigger] rest[i],
                    seed,
                    expected,
                ).contains(told);
            assert(files[i] == rest[i]);
        }
        if validate::files_warnings(rest, seed, expected).contains(told) {
            let i = choose|i: int|
                0 <= i < rest.len() && validate::file_warnings(
                    #[trigger] rest[i],
                    seed,
                    expected,
                ).contains(told);
            assert(files[i] == rest[i]);
        }
        if exists|i: int|
            0 <= i < files.len() && validate::file_errors(
                #[trigger] files[i],
                seed,
                expected,
            ).contains(told) {
            let i = choose|i: int|
                0 <= i < files.len() && validate::file_errors(
                    #[trigger] files[i],
                    seed,
                    expected,
                ).contains(told);
            if i < last {
                assert(rest[i] == files[i]);
            }
        }
        if exists|i: int|
            0 <= i < files.len() && validate::file_warnings(
                #[trigger] files[i],
                seed,
                expected,
            ).contains(told) {
            let i = choose|i: int|
                0 <= i < files.len() && validate::file_warnings(
                    #[trigger] files[i],
                    seed,
                    expected,
                ).contains(told);
            if i < last {
                assert(rest[i] == files[i]);
            }
        }
    }
}

/// Whether `told` is among the errors of the entry at `i`.
spec fn has_errors(
    entries: Seq<SlotPasswordView>,
    i: int,
    expected: Seq<ExpectedSlotView>,
    told: Seq<char>,
) -> bool {
    validate::entry_errors(entries.take(i), entries[i], expected).contains(told)
}

/// Whether `told` is among the warnings of the entry at `i`.
spec fn has_warnings(
    entries: Seq<SlotPasswordView>,
    i: int,
    expected: Seq<ExpectedSlotView>,
    told: Seq<char>,
) -> bool {
    validate::entry_warnings(entries.take(i), entries[i], expected).contains(told)
}

/// The errors of entries are those of each, after the ones before it.
proof fn lemma_entries_errors(
    entries: Seq<SlotPasswordView>,
    expected: Seq<ExpectedSlotView>,
    told: Seq<char>,
)
    ensures
        validate::entries_errors(entries, expected).contains(told) <==> exists|i: int|
            0 <= i < entries.len() && #[trigger] has_errors(entries, i, expected, told),
    decreases entries.len(),
{
    if entries.len() > 0 {
        let rest = entries.drop_last();
        let last = entries.len() - 1;
        lemma_entries_errors(rest, expected, told);
        assert(rest =~= entries.take(last));
        lemma_either_holds(
            validate::entries_errors(rest, expected),
            validate::entry_errors(rest, entries.last(), expected),
            told,
        );
        assert(has_errors(entries, last, expected, told) <==> validate::entry_errors(
            rest,
            entries.last(),
            expected,
        ).contains(told));
        assert forall|i: int| 0 <= i < last implies #[trigger] has_errors(rest, i, expected, told)
            == has_errors(entries, i, expected, told) by {
            assert(rest.take(i) =~= entries.take(i));
        }
        if exists|i: int| 0 <= i < rest.len() && #[trigger] has_errors(rest, i, expected, told) {
            let i = choose|i: int|
                0 <= i < rest.len() && #[trigger] has_errors(rest, i, expected, told);
            assert(has_errors(entries, i, expected, told));
        }
        if exists|i: int|
            0 <= i < entries.len() && #[trigger] has_errors(entries, i, expected, told) {
            let i = choose|i: int|
                0 <= i < entries.len() && #[trigger] has_errors(entries, i, expected, told);
            if i < last {
                assert(has_errors(rest, i, expected, told));
            }
        }
    }
}

/// The warnings of entries are those of each, after the ones before it.
proof fn lemma_entries_warnings(
    entries: Seq<SlotPasswordView>,
    expected: Seq<ExpectedSlotView>,
    told: Seq<char>,
)
    ensures
        validate::entries_warnings(entries, expected).contains(told) <==> exists|i: int|
            0 <= i < entries.len() && #[trigger] has_warnings(entries, i, expected, told),
    decreases entries.len(),
{
    if entries.len() > 0 {
        let rest = entries.drop_last();
        let last = entries.len() - 1;
        lemma_entries_warnings(rest, expected, told);
        assert(rest =~= entries.take(last));
        lemma_either_holds(
            validate::entries_warnings(rest, expected),
            validate::entry_warnings(rest, entries.last(), expected),
            told,
        );
        assert(has_warnings(entries, last, expected, told) <==> validate::entry_warnings(
            rest,
            entries.last(),
            expected,
        ).contains(told));
        assert forall|i: int| 0 <= i < last implies #[trigger] has_warnings(rest, i, expected, told)
            == has_warnings(entries, i, expected, told) by {
            assert(rest.take(i) =~= entries.take(i));
        }
        if exists|i: int| 0 <= i < rest.len() && #[trigger] has_warnings(rest, i, expected, told) {
            let i = choose|i: int|
                0 <= i < rest.len() && #[trigger] has_warnings(rest, i, expected, told);
            assert(has_warnings(entries, i, expected, told));
        }
        if exists|i: int|
            0 <= i < entries.len() && #[trigger] has_warnings(entries, i, expected, told) {
            let i = choose|i: int|
                0 <= i < entries.len() && #[trigger] has_warnings(entries, i, expected, told);
            if i < last {
                assert(has_warnings(rest, i, expected, told));
            }
        }
    }
}

/// A list of one holds that one, and the empty list nothing.
proof fn lemma_one_holds(a: Seq<char>, told: Seq<char>)
    ensures
        seq![a].contains(told) <==> told == a,
        !Seq::<Seq<char>>::empty().contains(told),
{
    assert(seq![a][0] == a);
}

/// Whether `told` says that a file is of another seed, for no slot of the room, for another slot
/// than its manifest says, or for another game than the slot plays.
pub open spec fn is_told_of_file(
    files: Seq<GenerationFileView>,
    file: GenerationFileView,
    expected: Seq<ExpectedSlotView>,
    told: Seq<char>,
) -> bool {
    patch_name::patch_name(file.name) matches Some(parts) && {
        let slot = text::digits_value(parts.slot);
        let room = expected[slot - 1];
        if exists|seed: Seq<char>| #[trigger] checks::is_seed(files, seed) && seed != parts.seed {
            exists|seed: Seq<char>| #[trigger]
                checks::is_seed(files, seed) && told == file.name + " belongs to seed "@
                    + parts.seed + " but the multidata is for seed "@ + seed
        } else if !(1 <= slot <= expected.len() && slot <= usize::MAX) {
            told == file.name + " is for slot "@ + text::decimal(
                if slot <= usize::MAX {
                    slot
                } else {
                    0
                },
            ) + " but this room only has "@ + text::decimal(expected.len()) + " slots"@
        } else {
            file.manifest matches Some(manifest) && {
                ||| manifest.player is Some && manifest.player->0 != slot && told == file.name
                    + " is named for slot "@ + text::decimal(slot)
                    + " but its manifest says it's for slot "@ + text::decimal(
                    manifest.player->0 as nat,
                )
                ||| manifest.game is Some && manifest.game->0 != room.game
                    && !"Random ("@.is_prefix_of(room.game) && told == file.name + " is a "@
                    + text::quoted(manifest.game->0) + " output but slot "@ + text::decimal(slot)
                    + " ("@ + room.name + ") in this room plays "@ + text::quoted(room.game)
            }
        }
    }
}

/// What is told of a file is what is wrong with it.
proof fn lemma_file_told(
    files: Seq<GenerationFileView>,
    file: GenerationFileView,
    expected: Seq<ExpectedSlotView>,
    told: Seq<char>,
)
    ensures
        validate::file_errors(
            file,
            validate::seed_of(validate::multidata_names(files)),
            expected,
        ).contains(told) <==> is_told_of_file(files, file, expected, told),
{
    let seed = validate::seed_of(validate::multidata_names(files));
    assert forall|s: Seq<char>| #[trigger] checks::is_seed(files, s) <==> seed == Some(s) by {
        checks::lemma_seed(files, s);
    }
    if seed is Some {
        assert(checks::is_seed(files, seed->0));
    }
    if let Some(parts) = patch_name::patch_name(file.name) {
        let slot = validate::slot_number(parts);
        lemma_one_holds(messages::other_seed(file.name, parts.seed, seed->0), told);
        lemma_one_holds(messages::no_such_slot(file.name, slot as nat, expected.len()), told);
        if let Some(room) = validate::room_slot(expected, slot as nat) {
            if let Some(m) = file.manifest {
                let player = messages::other_player(file.name, slot as nat, m.player->0 as nat);
                let game = messages::other_game(
                    file.name,
                    m.game->0,
                    slot as nat,
                    room.name,
                    room.game,
                );
                lemma_one_holds(player, told);
                lemma_one_holds(game, told);
                let first = if m.player is Some && m.player->0 != slot {
                    seq![player]
                } else {
                    seq![]
                };
                let second = if m.game is Some && !matching::is_game_expected(
                    room.game,
                    m.game->0,
                ) {
                    seq![game]
                } else {
                    seq![]
                };
                lemma_either_holds(first, second, told);
                assert(validate::manifest_errors(file.name, m, slot, room) == first + second);
            }
        }
    }
    lemma_one_holds(told, told);
}

/// Whether `told` says that an entry of the passwords file is for no slot of the room, or for one
/// that an entry before it is for.
pub open spec fn is_told_of_entry(
    entries: Seq<SlotPasswordView>,
    i: int,
    expected: Seq<ExpectedSlotView>,
    told: Seq<char>,
) -> bool {
    if !(1 <= entries[i].slot <= expected.len()) {
        told == "The passwords file lists slot "@ + text::decimal(entries[i].slot) + " ("@
            + text::quoted(entries[i].name) + ") but this room only has "@ + text::decimal(
            expected.len(),
        ) + " slots"@
    } else {
        (exists|j: int| 0 <= j < i && (#[trigger] entries[j]).slot == entries[i].slot) && told
            == "The passwords file lists slot "@ + text::decimal(entries[i].slot)
            + " more than once"@
    }
}

proof fn lemma_listed_before(entries: Seq<SlotPasswordView>, i: int)
    requires
        0 <= i < entries.len(),
    ensures
        validate::lists_slot(entries.take(i), entries[i].slot) <==> exists|j: int|
            0 <= j < i && (#[trigger] entries[j]).slot == entries[i].slot,
{
    if validate::lists_slot(entries.take(i), entries[i].slot) {
        let j = choose|j: int|
            0 <= j < i && #[trigger] entries.take(i)[j].slot == entries[i].slot;
        assert(entries[j].slot == entries[i].slot);
    }
    if exists|j: int| 0 <= j < i && (#[trigger] entries[j]).slot == entries[i].slot {
        let j = choose|j: int| 0 <= j < i && (#[trigger] entries[j]).slot == entries[i].slot;
        assert(entries.take(i)[j].slot == entries[i].slot);
    }
}

/// The slots without a password, each with its number and name, in order.
pub open spec fn left_out(
    entries: Seq<SlotPasswordView>,
    expected: Seq<ExpectedSlotView>,
) -> Seq<Seq<char>> {
    expected.filter(
        |room: ExpectedSlotView|
            !(1 <= room.slot <= expected.len() && exists|i: int|
                0 <= i < entries.len() && (#[trigger] entries[i]).slot == room.slot),
    ).map_values(
        |room: ExpectedSlotView| text::decimal(room.slot) + " ("@ + room.name + ")"@,
    )
}

proof fn lemma_left_out(entries: Seq<SlotPasswordView>, expected: Seq<ExpectedSlotView>)
    ensures
        validate::slots_without_password(entries, expected) == left_out(entries, expected),
{
    let a = |room: ExpectedSlotView| !validate::is_slot_covered(entries, expected, room.slot);
    let b = |room: ExpectedSlotView|
        !(1 <= room.slot <= expected.len() && exists|i: int|
            0 <= i < entries.len() && (#[trigger] entries[i]).slot == room.slot);
    assert forall|room: ExpectedSlotView| #[trigger] a(room) == b(room) by {
        if validate::lists_slot(entries, room.slot) {
            let i = choose|i: int|
                0 <= i < entries.len() && #[trigger] entries[i].slot == room.slot;
            assert(entries[i].slot == room.slot);
        }
    }
    assert(a =~= b);
    let c = |room: ExpectedSlotView| messages::slot_and_name(room.slot, room.name);
    let d = |room: ExpectedSlotView| text::decimal(room.slot) + " ("@ + room.name + ")"@;
    assert forall|room: ExpectedSlotView| #[trigger] c(room) == d(room) by {}
    assert(c =~= d);
}

/// Of a refused generation exactly these things are told: that no file, or more than one, ends
/// as multidata does; that the only one is not named after a seed, cannot be read, or is in a
/// format that is too new; what is wrong with each output file and each entry of the passwords
/// file; and, at once, which slots have no password.
pub proof fn law_all_that_is_wrong_is_told(
    files: &Vec<GenerationFile>,
    version: Option<u8>,
    passwords: Option<&[SlotPassword]>,
    expected: &[ExpectedSlot],
    mismatch: GenerationMismatch,
    told: Seq<char>,
)
    requires
        call_ensures(
            check_generation,
            (files, version, passwords, expected),
            Err::<ValidatedGeneration, GenerationMismatch>(mismatch),
        ),
    ensures
        mismatch.0.deep_view().contains(told) <==> {
            ||| (forall|i: int|
                0 <= i < files@.len() ==> !".archipelago"@.is_suffix_of(
                    (#[trigger] files@[i]).name@,
                )) && told == "The zip doesn't contain a .archipelago multidata file"@
            ||| (exists|i: int, j: int|
                0 <= i < j < files@.len() && ".archipelago"@.is_suffix_of(
                    (#[trigger] files@[i]).name@,
                ) && ".archipelago"@.is_suffix_of((#[trigger] files@[j]).name@)) && told
                == "The zip contains more than one .archipelago multidata file"@
            ||| exists|m: int| #[trigger]
                checks::is_only_multidata(files.deep_view(), m) && {
                    ||| (forall|seed: Seq<char>|
                        files@[m].name@ != #[trigger] ("AP_"@ + seed + ".archipelago"@)) && told
                        == "Unexpected multidata file name "@ + text::quoted(files@[m].name@)
                        + ", expected AP_<seed>.archipelago"@
                    ||| version is None && told == "Couldn't read the multidata file "@
                        + text::quoted(files@[m].name@)
                    ||| version is Some && version->0 > 3 && told
                        == "Unsupported multidata format version "@ + text::decimal(
                        version->0 as nat,
                    )
                }
            ||| exists|i: int|
                0 <= i < files@.len() && is_told_of_file(
                    files.deep_view(),
                    (#[trigger] files@[i]).deep_view(),
                    expected.deep_view(),
                    told,
                )
            ||| passwords matches Some(entries) && exists|i: int|
                0 <= i < entries@.len() && #[trigger] is_told_of_entry(
                    entries.deep_view(),
                    i,
                    expected.deep_view(),
                    told,
                )
            ||| passwords matches Some(entries) && left_out(
                entries.deep_view(),
                expected.deep_view(),
            ).len() > 0 && told == "The passwords file has no password for slot(s) "@
                + text::joined(left_out(entries.deep_view(), expected.deep_view()), ", "@)
        },
{
    let (views, room) = (files.deep_view(), expected.deep_view());
    let names = validate::multidata_names(views);
    let seed = validate::seed_of(names);
    let first = validate::multidata_errors(names);
    let second = validate::version_errors(names, version);
    let third = validate::files_errors(views, seed, room);
    let fourth = match passwords.deep_view() {
        Some(entries) => validate::entries_errors(entries, room) + validate::missing_errors(
            entries,
            room,
        ),
        None => seq![],
    };
    assert(mismatch.0.deep_view() == first + second + third + fourth);
    lemma_either_holds(first + second + third, fourth, told);
    lemma_either_holds(first + second, third, told);
    lemma_either_holds(first, second, told);
    // The multidata file.
    checks::lemma_multidata(views);
    checks::lemma_counted(views);
    assert forall|i: int| 0 <= i < files@.len() implies views[i] == (
    #[trigger] files@[i]).deep_view() by {}
    lemma_one_holds(messages::no_multidata(), told);
    lemma_one_holds(messages::several_multidata(), told);
    lemma_one_holds(messages::unexpected_multidata_name(names[0]), told);
    lemma_one_holds(messages::unreadable_multidata(names[0]), told);
    lemma_one_holds(messages::unsupported_version(version->0 as nat), told);
    if names.len() == 0 {
        assert forall|i: int| 0 <= i < files@.len() implies !".archipelago"@.is_suffix_of(
            (#[trigger] files@[i]).name@,
        ) by {
            assert(!".archipelago"@.is_suffix_of(views[i].name));
        }
    } else if names.len() > 1 {
        let (i, j) = choose|i: int, j: int|
            0 <= i < j < views.len() && ".archipelago"@.is_suffix_of((#[trigger] views[i]).name)
                && ".archipelago"@.is_suffix_of((#[trigger] views[j]).name);
        assert(".archipelago"@.is_suffix_of(files@[i].name@));
        assert(".archipelago"@.is_suffix_of(files@[j].name@));
    } else {
        let m = choose|m: int| #[trigger]
            checks::is_only_multidata(views, m) && names[0] == views[m].name;
        assert(".archipelago"@.is_suffix_of(files@[m].name@));
        assert(names[0] == files@[m].name@);
        assert forall|seed: Seq<char>|
            files@[m].name@ == #[trigger] ("AP_"@ + seed + ".archipelago"@) implies
            validate::seed_in_name(names[0]) == Some(seed) by {
            checks::law_seed_in_name(names[0], seed);
        }
        if let Some(s) = validate::seed_in_name(names[0]) {
            checks::law_seed_in_name(names[0], s);
        }
        assert forall|k: int| #[trigger] checks::is_only_multidata(views, k) implies k == m by {
            if k != m {
                assert(!".archipelago"@.is_suffix_of(views[k].name));
            }
        }
        assert forall|i: int, j: int|
            0 <= i < j < files@.len() && ".archipelago"@.is_suffix_of(
                (#[trigger] files@[i]).name@,
            ) implies !".archipelago"@.is_suffix_of((#[trigger] files@[j]).name@) by {
            assert(views[i].name == files@[i].name@ && views[j].name == files@[j].name@);
        }
    }
    assert(names.len() != 1 ==> forall|m: int| !checks::is_only_multidata(views, m));
    if names.len() > 1 {
        assert(!(forall|i: int|
            0 <= i < files@.len() ==> !".archipelago"@.is_suffix_of((#[trigger] files@[i]).name@)));
    }
    if names.len() == 0 {
        assert(!(exists|i: int, j: int|
            0 <= i < j < files@.len() && ".archipelago"@.is_suffix_of((#[trigger] files@[i]).name@)
                && ".archipelago"@.is_suffix_of((#[trigger] files@[j]).name@)));
    }
    // The output files.
    lemma_files_told(views, seed, room, told);
    if third.contains(told) {
        let i = choose|i: int|
            0 <= i < views.len() && validate::file_errors(#[trigger] views[i], seed, room).contains(
                told,
            );
        lemma_file_told(views, views[i], room, told);
        assert(is_told_of_file(views, files@[i].deep_view(), room, told));
    }
    assert forall|i: int|
        0 <= i < files@.len() && is_told_of_file(
            views,
            (#[trigger] files@[i]).deep_view(),
            room,
            told,
        ) implies third.contains(told) by {
        lemma_file_told(views, views[i], room, told);
    }
    // The passwords.
    if let Some(entries) = passwords {
        let list = entries.deep_view();
        let missing = validate::missing_errors(list, room);
        lemma_either_holds(validate::entries_errors(list, room), missing, told);
        lemma_entries_errors(list, room, told);
        lemma_left_out(list, room);
        lemma_one_holds(
            messages::passwords_missing(text::joined(left_out(list, room), ", "@)),
            told,
        );
        assert forall|i: int| 0 <= i < list.len() implies #[trigger] has_errors(list, i, room, told)
            == is_told_of_entry(list, i, room, told) by {
            lemma_listed_before(list, i);
            lemma_one_holds(
                messages::password_for_no_slot(list[i].slot, list[i].name, room.len()),
                told,
            );
            lemma_one_holds(messages::password_repeated(list[i].slot), told);
        }
        if validate::entries_errors(list, room).contains(told) {
            let i = choose|i: int|
                0 <= i < list.len() && #[trigger] has_errors(list, i, room, told);
            assert(is_told_of_entry(list, i, room, told));
        }
        assert forall|i: int|
            0 <= i < entries@.len() && #[trigger] is_told_of_entry(list, i, room, told) implies
            validate::entries_errors(list, room).contains(told) by {
            assert(has_errors(list, i, room, told));
        }
    }
}

/// Whether `told` says that an output file for a slot of the room names another player, in its
/// manifest or, where it has none, by its file name.
pub open spec fn is_odd_of_file(
    file: GenerationFileView,
    expected: Seq<ExpectedSlotView>,
    told: Seq<char>,
) -> bool {
    patch_name::patch_name(file.name) matches Some(parts) && {
        let slot = text::digits_value(parts.slot);
        let room = expected[slot - 1];
        match file.manifest {
            Some(manifest) => manifest.player_name is Some && manifest.player_name->0 != room.name
                && told == file.name + " is for player "@ + text::quoted(manifest.player_name->0)
                + " but slot "@ + text::decimal(slot) + " in this room is "@ + text::quoted(
                room.name,
            ),
            None => !matching::file_safe(room.name).is_prefix_of(parts.player) && told == file.name
                + " doesn't look like an output for slot "@ + text::decimal(slot) + " ("@
                + room.name + ") in this room"@,
        }
    }
}

/// Of an accepted generation exactly these things are told: which output files name another
/// player than the room does, and which entries of the passwords file.
pub proof fn law_all_that_is_odd_is_told(
    files: &Vec<GenerationFile>,
    version: Option<u8>,
    passwords: Option<&[SlotPassword]>,
    expected: &[ExpectedSlot],
    validated: ValidatedGeneration,
    told: Seq<char>,
)
    requires
        call_ensures(
            check_generation,
            (files, version, passwords, expected),
            Ok::<ValidatedGeneration, GenerationMismatch>(validated),
        ),
    ensures
        validated.warnings.deep_view().contains(told) <==> {
            ||| exists|i: int|
                0 <= i < files@.len() && is_odd_of_file(
                    (#[trigger] files@[i]).deep_view(),
                    expected.deep_view(),
                    told,
                )
            ||| passwords matches Some(entries) && exists|i: int|
                0 <= i < entries@.len() && {
                    let entry = #[trigger] entries@[i];
                    let room = expected@[entry.slot - 1];
                    entry.name@ != room.name@ && told == "The passwords file says slot "@
                        + text::decimal(entry.slot as nat) + " is "@ + text::quoted(entry.name@)
                        + " but slot "@ + text::decimal(room.slot as nat) + " in this room is "@
                        + text::quoted(room.name@)
                }
        },
{
    let (views, room) = (files.deep_view(), expected.deep_view());
    let names = validate::multidata_names(views);
    let seed = validate::seed_of(names);
    let first = validate::files_warnings(views, seed, room);
    let second = match passwords.deep_view() {
        Some(entries) => validate::entries_warnings(entries, room),
        None => seq![],
    };
    assert(validated.warnings.deep_view() == validated.deep_view().warnings);
    assert(validated.warnings.deep_view() == first + second);
    lemma_either_holds(first, second, told);
    crate::laws::law_matching_generations_are_accepted(
        views,
        version,
        passwords.deep_view(),
        room,
    );
    lemma_files_told(views, seed, room, told);
    assert forall|i: int| 0 <= i < files@.len() implies views[i] == (
    #[trigger] files@[i]).deep_view() && (validate::file_warnings(
        views[i],
        seed,
        room,
    ).contains(told) <==> is_odd_of_file(views[i], room, told)) by {
        let file = views[i];
        assert(crate::laws::is_output_matching(file, seed->0, room));
        if let Some(parts) = patch_name::patch_name(file.name) {
            let slot = validate::slot_number(parts);
            assert(validate::accepted_slot(file, seed, room) == Some(slot));
            let at = room[slot - 1];
            lemma_one_holds(
                messages::other_player_name(
                    file.name,
                    file.manifest->0.player_name->0,
                    slot as nat,
                    at.name,
                ),
                told,
            );
            lemma_one_holds(messages::unlikely_output(file.name, slot as nat, at.name), told);
        } else {
            lemma_one_holds(told, told);
        }
    }
    if first.contains(told) {
        let i = choose|i: int|
            0 <= i < views.len() && validate::file_warnings(
                #[trigger] views[i],
                seed,
                room,
            ).contains(told);
        assert(is_odd_of_file(files@[i].deep_view(), room, told));
    }
    if let Some(entries) = passwords {
        let list = entries.deep_view();
        lemma_entries_warnings(list, room, told);
        assert forall|i: int| 0 <= i < list.len() implies #[trigger] has_warnings(
            list,
            i,
            room,
            told,
        ) == {
            let entry = entries@[i];
            let at = expected@[entry.slot - 1];
            entry.name@ != at.name@ && told == "The passwords file says slot "@ + text::decimal(
                entry.slot as nat,
            ) + " is "@ + text::quoted(entry.name@) + " but slot "@ + text::decimal(at.slot as nat)
                + " in this room is "@ + text::quoted(at.name@)
        } by {
            lemma_listed_before(list, i);
            let entry = list[i];
            assert(entry == entries@[i].deep_view());
            assert(1 <= entry.slot <= room.len());
            let at = room[entry.slot - 1];
            assert(at == expected@[entry.slot - 1].deep_view());
            assert forall|j: int| 0 <= j < i implies (#[trigger] list[j]).slot != list[i].slot by {}
            lemma_one_holds(
                messages::password_for_other_name(entry.slot, entry.name, at.slot, at.name),
                told,
            );
        }
        if second.contains(told) {
            let i = choose|i: int|
                0 <= i < list.len() && #[trigger] has_warnings(list, i, room, told);
            let entry = entries@[i];
        }
        assert forall|i: int|
            0 <= i < entries@.len() && {
                let entry = #[trigger] entries@[i];
                let at = expected@[entry.slot - 1];
                entry.name@ != at.name@ && told == "The passwords file says slot "@ + text::decimal(
                    entry.slot as nat,
                ) + " is "@ + text::quoted(entry.name@) + " but slot "@ + text::decimal(
                    at.slot as nat,
                ) + " in this room is "@ + text::quoted(at.name@)
            } implies second.contains(told) by {
            assert(has_warnings(list, i, room, told));
        }
    }
}

// ---------------------------------------------------------------------------
// In which order
// ---------------------------------------------------------------------------

/// What is wrong is told in order, and each thing once: first of the multidata file, then of the
/// files as they come, then of the entries as they come, and last of the slots that were left
/// out. Of the multidata file at most its name and its format are told, in this order.
pub proof fn law_errors_come_in_order(
    files: Seq<GenerationFileView>,
    version: Option<u8>,
    passwords: Option<Seq<SlotPasswordView>>,
    expected: Seq<ExpectedSlotView>,
)
    requires
        validate::verdict(files, version, passwords, expected) is Err,
    ensures
        ({
            let errors = validate::verdict(files, version, passwords, expected)->Err_0;
            let seed = validate::seed_of(validate::multidata_names(files));
            let name_is_wrong = !exists|seed: Seq<char>| checks::is_seed(files, seed);
            let is_alone = exists|m: int| checks::is_only_multidata(files, m);
            let format_is_wrong = is_alone && (version is None || version->0 > 3);
            let head = (if name_is_wrong {
                1int
            } else {
                0
            }) + (if format_is_wrong {
                1int
            } else {
                0
            });
            let of_files = validate::files_errors(files, seed, expected);
            &&& errors.len() >= head + of_files.len()
            &&& errors.subrange(head, head + of_files.len()) == of_files
            &&& format_is_wrong ==> errors[head - 1] == (match version {
                None => "Couldn't read the multidata file "@ + text::quoted(
                    validate::multidata_names(files)[0],
                ),
                Some(version) => "Unsupported multidata format version "@ + text::decimal(
                    version as nat,
                ),
            })
            &&& match passwords {
                None => errors.len() == head + of_files.len(),
                Some(entries) => {
                    let of_entries = validate::entries_errors(entries, expected);
                    let left = left_out(entries, expected);
                    &&& errors.len() == head + of_files.len() + of_entries.len() + (if left.len()
                        > 0 {
                        1int
                    } else {
                        0
                    })
                    &&& errors.subrange(
                        head + of_files.len(),
                        head + of_files.len() + of_entries.len(),
                    ) == of_entries
                    &&& left.len() > 0 ==> errors.last()
                        == "The passwords file has no password for slot(s) "@ + text::joined(
                        left,
                        ", "@,
                    )
                },
            }
        }),
{
    let names = validate::multidata_names(files);
    checks::lemma_multidata(files);
    checks::lemma_counted(files);
    let seed = validate::seed_of(names);
    assert forall|s: Seq<char>| #[trigger] checks::is_seed(files, s) <==> seed == Some(s) by {
        checks::lemma_seed(files, s);
    }
    if seed is Some {
        assert(checks::is_seed(files, seed->0));
    }
    let first = validate::multidata_errors(names);
    let second = validate::version_errors(names, version);
    let third = validate::files_errors(files, seed, expected);
    let errors = validate::verdict(files, version, passwords, expected)->Err_0;
    let head = (first.len() + second.len()) as int;
    assert(errors.subrange(head, head + third.len()) =~= third);
    if let Some(entries) = passwords {
        lemma_left_out(entries, expected);
        let of_entries = validate::entries_errors(entries, expected);
        assert(errors.subrange(head + third.len(), head + third.len() + of_entries.len())
            =~= of_entries);
    }
}

/// One file more adds what is told of that file: nothing of a file that is no output; one thing
/// of one of another seed or for no slot of the room; of any other, what its manifest says of
/// the slot, and then what it says of the game.
pub proof fn law_one_file_more(
    files: Seq<GenerationFileView>,
    file: GenerationFileView,
    seed: Option<Seq<char>>,
    expected: Seq<ExpectedSlotView>,
)
    ensures
        ({
            let before = validate::files_errors(files, seed, expected);
            let after = validate::files_errors(files.push(file), seed, expected);
            let added = after.skip(before.len() as int);
            &&& files.len() == 0 ==> before.len() == 0
            &&& after.len() >= before.len() && after.take(before.len() as int) == before
            &&& match patch_name::patch_name(file.name) {
                None => added.len() == 0,
                Some(parts) => {
                    let slot = text::digits_value(parts.slot);
                    let is_other = seed is Some && seed->0 != parts.seed;
                    if is_other || !(1 <= slot <= expected.len() && slot <= usize::MAX) {
                        added.len() == 1
                    } else {
                        let slot_is_wrong = file.manifest is Some && file.manifest->0.player is Some
                            && file.manifest->0.player->0 != slot;
                        let game_is_wrong = file.manifest is Some && file.manifest->0.game is Some
                            && file.manifest->0.game->0 != expected[slot - 1].game
                            && !"Random ("@.is_prefix_of(expected[slot - 1].game);
                        &&& added.len() == (if slot_is_wrong {
                            1int
                        } else {
                            0
                        }) + (if game_is_wrong {
                            1int
                        } else {
                            0
                        })
                        &&& slot_is_wrong ==> added[0] == file.name + " is named for slot "@
                            + text::decimal(slot) + " but its manifest says it's for slot "@
                            + text::decimal(file.manifest->0.player->0 as nat)
                    }
                },
            }
        }),
{
    let before = validate::files_errors(files, seed, expected);
    let after = validate::files_errors(files.push(file), seed, expected);
    assert(files.push(file).drop_last() =~= files);
    assert(after == before + validate::file_errors(file, seed, expected));
    assert(after.take(before.len() as int) =~= before);
    assert(after.skip(before.len() as int) =~= validate::file_errors(file, seed, expected));
}

/// One entry more adds one error where it is for no slot of the room or for one that was listed
/// before, and none otherwise.
pub proof fn law_one_entry_more(
    entries: Seq<SlotPasswordView>,
    entry: SlotPasswordView,
    expected: Seq<ExpectedSlotView>,
)
    ensures
        ({
            let before = validate::entries_errors(entries, expected);
            let after = validate::entries_errors(entries.push(entry), expected);
            &&& entries.len() == 0 ==> before.len() == 0
            &&& after.len() >= before.len() && after.take(before.len() as int) == before
            &&& after.len() == before.len() + (if !(1 <= entry.slot <= expected.len()) || exists|
                i: int,
            | 0 <= i < entries.len() && (#[trigger] entries[i]).slot == entry.slot {
                1int
            } else {
                0
            })
        }),
{
    let before = validate::entries_errors(entries, expected);
    let after = validate::entries_errors(entries.push(entry), expected);
    assert(entries.push(entry).drop_last() =~= entries);
    assert(after.take(before.len() as int) =~= before);
    lemma_listed_before(entries.push(entry), entries.len() as int);
    assert(entries.push(entry).take(entries.len() as int) =~= entries);
    assert forall|i: int| 0 <= i < entries.len() implies entries.push(entry)[i]
        == #[trigger] entries[i] by {}
    if exists|i: int| 0 <= i < entries.len() && (#[trigger] entries[i]).slot == entry.slot {
        let i = choose|i: int| 0 <= i < entries.len() && (#[trigger] entries[i]).slot == entry.slot;
        assert(entries.push(entry)[i].slot == entry.slot);
    }
}

/// What looks odd is told in order, and each thing once: of the files as they come, then of the
/// entries as they come. A file or an entry more adds at most one warning, behind the others.
pub proof fn law_warnings_come_in_order(
    files: Seq<GenerationFileView>,
    file: GenerationFileView,
    entries: Seq<SlotPasswordView>,
    entry: SlotPasswordView,
    seed: Option<Seq<char>>,
    expected: Seq<ExpectedSlotView>,
)
    ensures
        ({
            let before = validate::files_warnings(files, seed, expected);
            let after = validate::files_warnings(files.push(file), seed, expected);
            &&& files.len() == 0 ==> before.len() == 0
            &&& before.len() <= after.len() <= before.len() + 1
            &&& after.take(before.len() as int) == before
        }),
        ({
            let before = validate::entries_warnings(entries, expected);
            let after = validate::entries_warnings(entries.push(entry), expected);
            &&& entries.len() == 0 ==> before.len() == 0
            &&& before.len() <= after.len() <= before.len() + 1
            &&& after.take(before.len() as int) == before
        }),
        seed == validate::seed_of(validate::multidata_names(files))
            ==> validate::generation_warnings(files, Some(entries), expected)
            == validate::files_warnings(files, seed, expected) + validate::entries_warnings(
            entries,
            expected,
        ),
        seed == validate::seed_of(validate::multidata_names(files))
            ==> validate::generation_warnings(files, None, expected) == validate::files_warnings(
            files,
            seed,
            expected,
        ),
{
    assert(files.push(file).drop_last() =~= files);
    assert(entries.push(entry).drop_last() =~= entries);
    let before = validate::files_warnings(files, seed, expected);
    let after = validate::files_warnings(files.push(file), seed, expected);
    assert(after.take(before.len() as int) =~= before);
    let before = validate::entries_warnings(entries, expected);
    let after = validate::entries_warnings(entries.push(entry), expected);
    assert(after.take(before.len() as int) =~= before);
    if seed == validate::seed_of(validate::multidata_names(files)) {
        assert(validate::generation_warnings(files, None, expected)
            =~= validate::files_warnings(files, seed, expected));
    }
}

} // verus!
