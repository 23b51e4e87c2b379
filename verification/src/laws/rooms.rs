//! What the slots of rooms are, and what is shown of them.

use crate::log;
use crate::log::upload_log;
use crate::model::{
    ExpectedSlot, ExpectedSlotView, ValidatedGeneration, ValidatedGenerationView, YamlId,
};
use crate::slots;
use crate::slots::{
    connect_names, copy_slots, expected_slots, slot_players, slots_with_names, YamlView,
    YamlWithoutContent,
};
use crate::text;
use counter::Counter;
use vstd::multiset::Multiset;
use vstd::prelude::*;

verus! {

// ---------------------------------------------------------------------------
// Slots
// ---------------------------------------------------------------------------

/// Whether the YAML at `j` is the one that the id stands for: the last, should several have it.
pub open spec fn is_yaml_of(yamls: Seq<YamlWithoutContent>, id: YamlId, j: int) -> bool {
    &&& 0 <= j < yamls.len()
    &&& yamls[j].id == id
    &&& forall|k: int| j < k < yamls.len() ==> (#[trigger] yamls[k]).id != id
}

/// Whether one of the YAMLs has the id.
pub open spec fn has_yaml(yamls: Seq<YamlWithoutContent>, id: YamlId) -> bool {
    exists|j: int| 0 <= j < yamls.len() && (#[trigger] yamls[j]).id == id
}

/// Whether the room has a YAML for each slot.
pub open spec fn has_yamls_for(yamls: Seq<YamlWithoutContent>, order: Seq<YamlId>) -> bool {
    forall|i: int| 0 <= i < order.len() ==> has_yaml(yamls, #[trigger] order[i])
}

/// Whether the game is the one that the YAML with the id gives.
pub open spec fn is_game_of(yamls: Seq<YamlWithoutContent>, id: YamlId, game: Seq<char>) -> bool {
    exists|j: int| #[trigger] is_yaml_of(yamls, id, j) && game == yamls[j].game@
}

/// Whether the name is the one that the YAML with the id gives its player.
pub open spec fn is_player_of(yamls: Seq<YamlWithoutContent>, id: YamlId, name: Seq<char>) -> bool {
    exists|j: int| #[trigger] is_yaml_of(yamls, id, j) && name == yamls[j].player_name@
}

/// Where a YAML has the id, one of them is the one that it stands for.
proof fn lemma_one_is_last(yamls: Seq<YamlWithoutContent>, id: YamlId) -> (j: int)
    requires
        has_yaml(yamls, id),
    ensures
        is_yaml_of(yamls, id, j),
    decreases yamls.len(),
{
    let some = choose|j: int| 0 <= j < yamls.len() && (#[trigger] yamls[j]).id == id;
    let last = yamls.len() - 1;
    if yamls[last].id == id {
        last
    } else {
        let rest = yamls.drop_last();
        assert(rest[some].id == id);
        let j = lemma_one_is_last(rest, id);
        assert forall|k: int| j < k < yamls.len() implies (#[trigger] yamls[k]).id != id by {
            if k < last {
                assert(rest[k] == yamls[k]);
            }
        }
        j
    }
}

/// The YAML that the contracts speak of is the one that the id stands for.
proof fn lemma_yaml(yamls: Seq<YamlWithoutContent>, views: Seq<YamlView>, id: YamlId, j: int)
    requires
        views.len() == yamls.len(),
        forall|i: int| 0 <= i < yamls.len() ==> #[trigger] views[i] == yamls[i].deep_view(),
        is_yaml_of(yamls, id, j),
    ensures
        slots::yamls_with_id(views, id).len() > 0,
        slots::yaml_with_id(views, id) == yamls[j].deep_view(),
    decreases yamls.len(),
{
    reveal(Seq::filter);
    let last = yamls.len() - 1;
    assert(views[last] == yamls[last].deep_view());
    assert(views[last] == views.last());
    if j < last {
        let rest = yamls.drop_last();
        assert forall|k: int| j < k < rest.len() implies (#[trigger] rest[k]).id != id by {
            assert(rest[k] == yamls[k]);
        }
        assert(rest[j] == yamls[j]);
        assert forall|i: int| 0 <= i < rest.len() implies #[trigger] views.drop_last()[i]
            == rest[i].deep_view() by {
            assert(views[i] == yamls[i].deep_view());
        }
        lemma_yaml(rest, views.drop_last(), id, j);
        assert(yamls[last].id != id);
    }
}

/// What the contracts say of a YAML is said of its fields, each as it is.
pub proof fn law_yamls_show_their_fields(yaml: YamlWithoutContent)
    ensures
        yaml.deep_view().id == yaml.id,
        yaml.deep_view().player_name == yaml.player_name@,
        yaml.deep_view().game == yaml.game@,
{
}

/// A room that has a YAML for each slot has its slots listed.
pub proof fn law_rooms_with_their_yamls_have_slots(
    room_yamls: &[YamlWithoutContent],
    order: &[YamlId],
    names: &[String],
)
    requires
        has_yamls_for(room_yamls@, order@),
        names@.len() == order@.len(),
    ensures
        call_requires(slot_players, (room_yamls, order)),
        call_requires(slots_with_names, (room_yamls, order, names)),
{
    let views = room_yamls.deep_view();
    assert forall|i: int| 0 <= i < order@.len() implies slots::yamls_with_id(
        views,
        #[trigger] order.deep_view()[i],
    ).len() > 0 by {
        assert(has_yaml(room_yamls@, order@[i]));
        let j = lemma_one_is_last(room_yamls@, order@[i]);
        lemma_yaml(room_yamls@, views, order@[i], j);
    }
    assert(slots::has_all_yamls(views, order.deep_view()));
}

/// The slots are those that are listed, numbered from one in the order of the list. Each has its
/// name from the list of names, and plays the game of its YAML, in full.
pub proof fn law_slots_play_the_games_of_their_yamls(
    room_yamls: &[YamlWithoutContent],
    order: &[YamlId],
    names: &[String],
    r: Vec<ExpectedSlot>,
)
    requires
        call_ensures(slots_with_names, (room_yamls, order, names), r),
        has_yamls_for(room_yamls@, order@),
        names@.len() == order@.len(),
    ensures
        r@.len() == order@.len(),
        forall|i: int|
            0 <= i < order@.len() ==> {
                let slot = #[trigger] r@[i];
                &&& slot.slot == i + 1
                &&& slot.yaml_id == order@[i]
                &&& slot.name@ == names@[i]@
                &&& is_game_of(room_yamls@, slot.yaml_id, slot.game@)
            },
{
    let views = room_yamls.deep_view();
    assert(r.deep_view() == slots::slots_of_room(views, order.deep_view(), names.deep_view()));
    assert forall|i: int| 0 <= i < order@.len() implies {
        let slot = #[trigger] r@[i];
        &&& slot.slot == i + 1
        &&& slot.yaml_id == order@[i]
        &&& slot.name@ == names@[i]@
        &&& is_game_of(room_yamls@, slot.yaml_id, slot.game@)
    } by {
        let slot = r@[i];
        assert(r.deep_view()[i] == slot.deep_view());
        assert(order.deep_view()[i] == order@[i]);
        assert(names.deep_view()[i] == names@[i]@);
        let j = lemma_one_is_last(room_yamls@, order@[i]);
        lemma_yaml(room_yamls@, views, order@[i], j);
        assert(is_yaml_of(room_yamls@, slot.yaml_id, j));
    }
}

/// The players are listed in the order of the slots, each with the name that its YAML gives.
pub proof fn law_players_have_the_names_of_their_yamls(
    room_yamls: &[YamlWithoutContent],
    order: &[YamlId],
    r: Vec<String>,
)
    requires
        call_ensures(slot_players, (room_yamls, order), r),
        has_yamls_for(room_yamls@, order@),
    ensures
        r@.len() == order@.len(),
        forall|i: int|
            0 <= i < order@.len() ==> is_player_of(room_yamls@, order@[i], (#[trigger] r@[i])@),
{
    let views = room_yamls.deep_view();
    let all = slots::names_by_slot(views, order.deep_view());
    assert(r.deep_view() == all);
    assert(r@.len() == r.deep_view().len());
    assert forall|i: int| 0 <= i < order@.len() implies is_player_of(
        room_yamls@,
        order@[i],
        (#[trigger] r@[i])@,
    ) by {
        assert(r.deep_view()[i] == r@[i]@);
        assert(order.deep_view()[i] == order@[i]);
        let j = lemma_one_is_last(room_yamls@, order@[i]);
        lemma_yaml(room_yamls@, views, order@[i], j);
        assert(is_yaml_of(room_yamls@, order@[i], j));
    }
}

/// Whether `derive` may give a player the name, when it is handed the player's own name and the one
/// counter, and hands back the other.
pub open spec fn gives_name<F: Fn(String, Counter<String>) -> (String, Counter<String>)>(
    derive: F,
    player: Seq<char>,
    before: Counter<String>,
    name: Seq<char>,
    after: Counter<String>,
) -> bool {
    exists|argument: String, result: String|
        argument@ == player && result@ == name && #[trigger] call_ensures(
            derive,
            (argument, before),
            (result, after),
        )
}

/// Whether `derive` is given each player's name together with the counter that it left for the
/// player before, starting from a counter that has counted nothing, and gave the names.
pub open spec fn are_named_in_turn<
    F: Fn(String, Counter<String>) -> (String, Counter<String>),
>(
    derive: F,
    players: Seq<Seq<char>>,
    names: Seq<Seq<char>>,
    counters: Seq<Counter<String>>,
) -> bool {
    &&& names.len() == players.len()
    &&& counters.len() == players.len() + 1
    &&& slots::counted(counters[0]) == Multiset::<Seq<char>>::empty()
    &&& forall|i: int|
        0 <= i < players.len() ==> gives_name(
            derive,
            #[trigger] players[i],
            counters[i],
            names[i],
            counters[i + 1],
        )
}

proof fn lemma_named_in_turn<F: Fn(String, Counter<String>) -> (String, Counter<String>)>(
    derive: F,
    players: Seq<Seq<char>>,
    names: Seq<Seq<char>>,
)
    requires
        slots::may_be_named(derive, players, names),
    ensures
        exists|counters: Seq<Counter<String>>| are_named_in_turn(derive, players, names, counters),
{
    let counters = choose|counters: Seq<Counter<String>>|
        slots::is_naming(derive, players, names, counters);
    assert forall|i: int| 0 <= i < players.len() implies gives_name(
        derive,
        #[trigger] players[i],
        counters[i],
        names[i],
        counters[i + 1],
    ) by {
        assert(slots::may_derive(derive, players[i], counters[i], names[i], counters[i + 1]));
    }
    assert(are_named_in_turn(derive, players, names, counters));
}

/// Players are named one after the other, with one counter.
pub proof fn law_players_are_named_in_turn<
    F: Fn(String, Counter<String>) -> (String, Counter<String>),
>(players: &Vec<String>, derive: &F, names: Vec<String>)
    requires
        call_ensures(connect_names::<F>, (players, derive), names),
    ensures
        names@.len() == players@.len(),
        exists|counters: Seq<Counter<String>>|
            are_named_in_turn(*derive, players.deep_view(), names.deep_view(), counters),
{
    lemma_named_in_turn(*derive, players.deep_view(), names.deep_view());
    let counters = choose|counters: Seq<Counter<String>>|
        are_named_in_turn(*derive, players.deep_view(), names.deep_view(), counters);
    assert(names.deep_view().len() == players.deep_view().len());
}

/// The slots of a room are those that are listed, numbered from one in the order of the list.
/// Each plays the game of its YAML, in full, and has the name that is derived from the name in
/// its YAML, one slot after the other.
pub proof fn law_rooms_have_the_slots_of_their_yamls<
    F: Fn(String, Counter<String>) -> (String, Counter<String>),
>(room_yamls: &[YamlWithoutContent], order: &[YamlId], derive: &F, r: Vec<ExpectedSlot>)
    requires
        call_ensures(expected_slots::<F>, (room_yamls, order, derive), r),
        has_yamls_for(room_yamls@, order@),
    ensures
        r@.len() == order@.len(),
        forall|i: int|
            0 <= i < order@.len() ==> {
                let slot = #[trigger] r@[i];
                &&& slot.slot == i + 1
                &&& slot.yaml_id == order@[i]
                &&& is_game_of(room_yamls@, slot.yaml_id, slot.game@)
            },
        exists|
            players: Seq<Seq<char>>,
            names: Seq<Seq<char>>,
            counters: Seq<Counter<String>>,
        |
            {
                &&& #[trigger] are_named_in_turn(*derive, players, names, counters)
                &&& players.len() == order@.len()
                &&& forall|i: int| 0 <= i < order@.len() ==> names[i] == (#[trigger] r@[i]).name@
                &&& forall|i: int, j: int|
                    0 <= i < order@.len() && #[trigger] is_yaml_of(room_yamls@, order@[i], j)
                        ==> players[i] == room_yamls@[j].player_name@
            },
{
    let views = room_yamls.deep_view();
    let ids = order.deep_view();
    let players = slots::names_by_slot(views, ids);
    let names = choose|names: Seq<Seq<char>>| #[trigger]
        slots::may_be_named(*derive, players, names) && r.deep_view() == slots::slots_of_room(
            views,
            ids,
            names,
        );
    lemma_named_in_turn(*derive, players, names);
    let counters = choose|counters: Seq<Counter<String>>|
        are_named_in_turn(*derive, players, names, counters);
    assert(r@.len() == r.deep_view().len());
    assert forall|i: int| 0 <= i < order@.len() implies {
        let slot = #[trigger] r@[i];
        &&& slot.slot == i + 1
        &&& slot.yaml_id == order@[i]
        &&& slot.name@ == names[i]
        &&& is_game_of(room_yamls@, slot.yaml_id, slot.game@)
    } by {
        let slot = r@[i];
        assert(r.deep_view()[i] == slot.deep_view());
        assert(ids[i] == order@[i]);
        let j = lemma_one_is_last(room_yamls@, order@[i]);
        lemma_yaml(room_yamls@, views, order@[i], j);
        assert(is_yaml_of(room_yamls@, slot.yaml_id, j));
    }
    assert forall|i: int, j: int|
        0 <= i < order@.len() && #[trigger] is_yaml_of(room_yamls@, order@[i], j) implies players[i]
        == room_yamls@[j].player_name@ by {
        assert(ids[i] == order@[i]);
        lemma_yaml(room_yamls@, views, order@[i], j);
    }
    assert(are_named_in_turn(*derive, players, names, counters));
}

/// A copy of slots has the same slots, each with the same fields.
pub proof fn law_copies_are_the_same(expected: &[ExpectedSlot], r: Vec<ExpectedSlot>)
    requires
        call_ensures(copy_slots, (expected,), r),
    ensures
        r@.len() == expected@.len(),
        forall|i: int|
            0 <= i < expected@.len() ==> {
                let (a, b) = (#[trigger] r@[i], expected@[i]);
                a.slot == b.slot && a.yaml_id == b.yaml_id && a.name@ == b.name@ && a.game@
                    == b.game@
            },
{
    assert(r@.len() == r.deep_view().len());
    assert(expected@.len() == expected.deep_view().len());
    assert forall|i: int| 0 <= i < expected@.len() implies {
        let (a, b) = (#[trigger] r@[i], expected@[i]);
        a.slot == b.slot && a.yaml_id == b.yaml_id && a.name@ == b.name@ && a.game@ == b.game@
    } by {
        assert(r.deep_view()[i] == r@[i].deep_view());
        assert(expected.deep_view()[i] == expected@[i].deep_view());
    }
}

// ---------------------------------------------------------------------------
// The log
// ---------------------------------------------------------------------------

/// The log starts with the seed. Then come the warnings, if there are any, the slots, and, where
/// no passwords were uploaded, that the passwords were left as they are.
pub proof fn law_logs_tell_of_everything(
    validated: &ValidatedGeneration,
    expected: &[ExpectedSlot],
    r: String,
)
    requires
        call_ensures(upload_log, (validated, expected), r),
    ensures
        r@ == "Uploaded generation for seed "@ + validated.seed_name@ + "\n\n"@ + (
        if validated.warnings@.len() == 0 {
            Seq::empty()
        } else {
            "Warnings:\n"@ + log::warning_lines(validated.warnings.deep_view()) + "\n"@
        }) + log::slot_lines(validated.deep_view(), expected.deep_view()) + (
        if validated.passwords is None {
            "\nNo passwords file uploaded, existing slot passwords were left unchanged\n"@
        } else {
            Seq::empty()
        }),
{
}

/// A warning more is a line more.
pub proof fn law_each_warning_has_a_line(warnings: Seq<Seq<char>>, warning: Seq<char>)
    ensures
        log::warning_lines(Seq::empty()) == Seq::<char>::empty(),
        log::warning_lines(warnings.push(warning)) == log::warning_lines(warnings) + "  "@ + warning
            + "\n"@,
{
    assert(warnings.push(warning).drop_last() =~= warnings);
}

/// A slot more is a line more, with its number, name and game, the patch of its YAML if it has
/// one, and, where passwords were uploaded, whether one is for its YAML.
pub proof fn law_each_slot_has_a_line(
    validated: ValidatedGenerationView,
    expected: Seq<ExpectedSlotView>,
    slot: ExpectedSlotView,
)
    ensures
        log::slot_lines(validated, Seq::empty()) == Seq::<char>::empty(),
        log::slot_lines(validated, expected.push(slot)) == log::slot_lines(validated, expected)
            + ("Slot "@ + text::decimal(slot.slot) + ": "@ + slot.name + " ("@ + slot.game + "): "@
            + (if validated.patches.contains_key(slot.yaml_id) {
            validated.patches[slot.yaml_id]
        } else {
            "no output file"@
        }) + (match validated.passwords {
            None => Seq::empty(),
            Some(passwords) => if exists|i: int|
                0 <= i < passwords.len() && (#[trigger] passwords[i]).0 == slot.yaml_id {
                ", password set"@
            } else {
                ", no password"@
            },
        }) + "\n"@),
{
    reveal_strlit("");
    assert(""@ =~= Seq::<char>::empty());
    assert(expected.push(slot).drop_last() =~= expected);
}

} // verus!
