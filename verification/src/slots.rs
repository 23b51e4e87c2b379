//! The slots that a room's YAMLs are expected to have.

use crate::model::{ExpectedSlot, ExpectedSlotView, YamlId};
use counter::Counter;
use std::collections::HashMap;
use vstd::multiset::Multiset;
use vstd::prelude::*;
use vstd::string::*;

verus! {

/// What is known of a YAML without its content, as far as slots go.
#[derive(Debug, Clone)]
pub struct YamlWithoutContent {
    pub id: YamlId,
    pub player_name: String,
    pub game: String,
}

/// The mathematical content of a [`YamlWithoutContent`].
#[verifier::ext_equal]
pub struct YamlView {
    pub id: YamlId,
    pub player_name: Seq<char>,
    pub game: Seq<char>,
}

impl DeepView for YamlWithoutContent {
    type V = YamlView;

    open spec fn deep_view(&self) -> YamlView {
        YamlView { id: self.id, player_name: self.player_name@, game: self.game@ }
    }
}

/// The YAMLs of a room that have this id.
pub open spec fn yamls_with_id(yamls: Seq<YamlView>, id: YamlId) -> Seq<YamlView> {
    yamls.filter(|yaml: YamlView| yaml.id == id)
}

/// The YAML of a room with this id; should there be several, the last.
pub open spec fn yaml_with_id(yamls: Seq<YamlView>, id: YamlId) -> YamlView {
    yamls_with_id(yamls, id).last()
}

/// Whether the room has a YAML for each slot.
pub open spec fn has_all_yamls(yamls: Seq<YamlView>, slots: Seq<YamlId>) -> bool {
    forall|i: int|
        0 <= i < slots.len() ==> yamls_with_id(yamls, #[trigger] slots[i]).len() > 0
}

/// The names that the YAMLs give their players, in the order of the slots.
pub open spec fn names_by_slot(
    yamls: Seq<YamlView>,
    slots: Seq<YamlId>,
) -> Seq<Seq<char>> {
    slots.map_values(|id: YamlId| yaml_with_id(yamls, id).player_name)
}

/// The slots of a room, numbered from one, with the YAML and the game of each and the name
/// that its player connects with.
pub open spec fn slots_of_room(
    yamls: Seq<YamlView>,
    slots: Seq<YamlId>,
    names: Seq<Seq<char>>,
) -> Seq<ExpectedSlotView> {
    Seq::new(
        slots.len(),
        |i: int|
            ExpectedSlotView {
                slot: (i + 1) as nat,
                yaml_id: slots[i],
                name: names[i],
                game: yaml_with_id(yamls, slots[i]).game,
            },
    )
}

/// Whether the slots are numbered from one, in order.
pub open spec fn is_numbered(expected: Seq<ExpectedSlotView>) -> bool {
    forall|i: int| 0 <= i < expected.len() ==> (#[trigger] expected[i]).slot == i + 1
}

/// Whether no two slots have the same YAML.
pub open spec fn has_distinct_yamls(expected: Seq<ExpectedSlotView>) -> bool {
    forall|i: int, j: int|
        0 <= i < j < expected.len() ==> (#[trigger] expected[i]).yaml_id != (
        #[trigger] expected[j]).yaml_id
}

/// The slots of a room are numbered from one, and have distinct YAMLs if each YAML was given
/// one slot.
pub proof fn law_slots_of_room(
    yamls: Seq<YamlView>,
    slots: Seq<YamlId>,
    names: Seq<Seq<char>>,
)
    ensures
        slots_of_room(yamls, slots, names).len() == slots.len(),
        is_numbered(slots_of_room(yamls, slots, names)),
        (forall|i: int, j: int|
            0 <= i < j < slots.len() ==> #[trigger] slots[i] != #[trigger] slots[j])
            ==> has_distinct_yamls(slots_of_room(yamls, slots, names)),
{
    let expected = slots_of_room(yamls, slots, names);
    if forall|i: int, j: int|
        0 <= i < j < slots.len() ==> #[trigger] slots[i] != #[trigger] slots[j] {
        assert forall|i: int, j: int| 0 <= i < j < expected.len() implies (
        #[trigger] expected[i]).yaml_id != (#[trigger] expected[j]).yaml_id by {
            assert(slots[i] != slots[j]);
        }
    }
}

/// Where in the room each YAML stands.
fn index_by_id(yamls: &[YamlWithoutContent]) -> (by_id: HashMap<YamlId, usize>)
    ensures
        forall|id: YamlId| #[trigger]
            by_id@.contains_key(id) <==> yamls_with_id(yamls.deep_view(), id).len() > 0,
        forall|id: YamlId| #[trigger]
            by_id@.contains_key(id) ==> by_id@[id] < yamls@.len()
                && yamls@[by_id@[id] as int].deep_view() == yaml_with_id(yamls.deep_view(), id),
{
    let mut by_id: HashMap<YamlId, usize> = HashMap::new();
    let mut i: usize = 0;
    let ghost all = yamls.deep_view();
    proof {
        reveal(Seq::filter);
        assert forall|id: YamlId| yamls_with_id(all.take(0), id).len() == 0 by {}
    }
    while i < yamls.len()
        invariant
            i <= yamls@.len(),
            all == yamls.deep_view(),
            forall|id: YamlId| #[trigger]
                by_id@.contains_key(id) <==> yamls_with_id(all.take(i as int), id).len() > 0,
            forall|id: YamlId| #[trigger]
                by_id@.contains_key(id) ==> by_id@[id] < yamls@.len()
                    && yamls@[by_id@[id] as int].deep_view() == yaml_with_id(
                    all.take(i as int),
                    id,
                ),
        decreases yamls@.len() - i,
    {
        let ghost before = all.take(i as int);
        let ghost after = all.take(i + 1);
        let ghost next = yamls@[i as int].deep_view();
        proof {
            assert(after.drop_last() =~= before);
            assert(after.last() == next);
            assert forall|id: YamlId| #[trigger]
                yamls_with_id(after, id) == (if next.id == id {
                    yamls_with_id(before, id).push(next)
                } else {
                    yamls_with_id(before, id)
                }) by {
                reveal(Seq::filter);
            }
        }
        by_id.insert(yamls[i].id, i);
        i = i + 1;
    }
    assert(all.take(yamls@.len() as int) =~= all);
    by_id
}

/// The names that the YAMLs give their players, in the order of the slots: what the names that
/// the players connect with are made from, one after the other.
pub fn slot_players(room_yamls: &[YamlWithoutContent], slots: &[YamlId]) -> (r: Vec<String>)
    requires
        has_all_yamls(room_yamls.deep_view(), slots.deep_view()),
    ensures
        r.deep_view() == names_by_slot(room_yamls.deep_view(), slots.deep_view()),
{
    let by_id = index_by_id(room_yamls);
    let mut r: Vec<String> = Vec::new();
    let mut i: usize = 0;
    let ghost yamls = room_yamls.deep_view();
    let ghost all = slots.deep_view();
    while i < slots.len()
        invariant
            i <= slots@.len(),
            yamls == room_yamls.deep_view(),
            all == slots.deep_view(),
            has_all_yamls(yamls, all),
            forall|id: YamlId| #[trigger]
                by_id@.contains_key(id) <==> yamls_with_id(yamls, id).len() > 0,
            forall|id: YamlId| #[trigger]
                by_id@.contains_key(id) ==> by_id@[id] < room_yamls@.len()
                    && room_yamls@[by_id@[id] as int].deep_view() == yaml_with_id(yamls, id),
            r@.len() == i,
            forall|j: int| 0 <= j < i ==> #[trigger] r@[j]@ == names_by_slot(yamls, all)[j],
        decreases slots@.len() - i,
    {
        assert(all[i as int] == slots@[i as int]);
        assert(by_id@.contains_key(slots@[i as int]));
        if let Some(at) = by_id.get(&slots[i]) {
            r.push(room_yamls[*at].player_name.clone());
        }
        i = i + 1;
    }
    assert(r.deep_view() =~= names_by_slot(yamls, all));
    r
}

// ---------------------------------------------------------------------------
// Naming
// ---------------------------------------------------------------------------

/// `counter::Counter`, which counts how often things occurred.
#[verifier::external_type_specification]
#[verifier::external_body]
#[verifier::reject_recursive_types(T)]
#[verifier::reject_recursive_types(N)]
#[verifier::reject_recursive_types(S)]
pub struct ExCounter<T, N, S>(Counter<T, N, S>);

/// The names that a counter has counted, each as often as it was.
pub uninterp spec fn counted(counter: Counter<String>) -> Multiset<Seq<char>>;

/// `counter::Counter::new`: a counter that has counted nothing.
#[verifier::external_body]
pub(crate) fn new_counter() -> (r: Counter<String>)
    ensures
        counted(r) == Multiset::<Seq<char>>::empty(),
{
    Counter::new()
}

/// Whether `derive` may give the name `name`, and leave the counter at `after`, for a player
/// whose YAML gives the name `player`, with the counter at `before`.
pub open spec fn may_derive<F: Fn(String, Counter<String>) -> (String, Counter<String>)>(
    derive: F,
    player: Seq<char>,
    before: Counter<String>,
    name: Seq<char>,
    after: Counter<String>,
) -> bool {
    exists|argument: String, result: String|
        argument@ == player && result@ == name && #[trigger] call_ensures(
            derive,
            (argument, before),
            (result, after),
        )
}

/// Whether the counter goes through `counters` while `derive` gives the players their names, one
/// after the other.
pub open spec fn is_naming<F: Fn(String, Counter<String>) -> (String, Counter<String>)>(
    derive: F,
    players: Seq<Seq<char>>,
    names: Seq<Seq<char>>,
    counters: Seq<Counter<String>>,
) -> bool {
    &&& names.len() == players.len()
    &&& counters.len() == players.len() + 1
    &&& counted(counters[0]) == Multiset::<Seq<char>>::empty()
    &&& forall|i: int|
        0 <= i < players.len() ==> may_derive(
            derive,
            #[trigger] players[i],
            counters[i],
            names[i],
            counters[i + 1],
        )
}

/// Whether the players may be given these names: by `derive`, one after the other, with one
/// counter that starts with nothing counted.
pub open spec fn may_be_named<F: Fn(String, Counter<String>) -> (String, Counter<String>)>(
    derive: F,
    players: Seq<Seq<char>>,
    names: Seq<Seq<char>>,
) -> bool {
    exists|counters: Seq<Counter<String>>| is_naming(derive, players, names, counters)
}

/// The names that the players connect with, which `derive` makes from the names that their
/// YAMLs give: it is handed each player with the counter that it left for the one before.
pub fn connect_names<F: Fn(String, Counter<String>) -> (String, Counter<String>)>(
    players: &Vec<String>,
    derive: &F,
) -> (names: Vec<String>)
    requires
        forall|player: String, counter: Counter<String>|
            call_requires(*derive, (player, counter)),
    ensures
        may_be_named(*derive, players.deep_view(), names.deep_view()),
{
    let mut names: Vec<String> = Vec::new();
    let mut counter = new_counter();
    let mut i: usize = 0;
    let ghost all = players.deep_view();
    let ghost mut counters: Seq<Counter<String>> = seq![counter];
    while i < players.len()
        invariant
            i <= players@.len(),
            all == players.deep_view(),
            forall|player: String, counter: Counter<String>|
                call_requires(*derive, (player, counter)),
            names@.len() == i,
            counters.len() == i + 1,
            counters.last() == counter,
            counted(counters[0]) == Multiset::<Seq<char>>::empty(),
            forall|j: int|
                0 <= j < i ==> may_derive(
                    *derive,
                    #[trigger] all[j],
                    counters[j],
                    names.deep_view()[j],
                    counters[j + 1],
                ),
        decreases players@.len() - i,
    {
        let player = players[i].clone();
        let ghost argument = player;
        let ghost before = counter;
        let ghost names_before = names.deep_view();
        let ghost counters_before = counters;
        let (name, next) = derive(player, counter);
        counter = next;
        let ghost result = name;
        names.push(name);
        proof {
            counters = counters.push(counter);
            assert(names.deep_view() =~= names_before.push(result@));
            assert(call_ensures(*derive, (argument, before), (result, counter)));
            assert(may_derive(*derive, all[i as int], before, result@, counter));
            assert forall|j: int| 0 <= j < i + 1 implies may_derive(
                *derive,
                #[trigger] all[j],
                counters[j],
                names.deep_view()[j],
                counters[j + 1],
            ) by {
                if j < i {
                    assert(counters[j] == counters_before[j]);
                    assert(counters[j + 1] == counters_before[j + 1]);
                    assert(names.deep_view()[j] == names_before[j]);
                }
            }
        }
        i = i + 1;
    }
    assert(is_naming(*derive, all, names.deep_view(), counters));
    names
}

// ---------------------------------------------------------------------------
// The slots
// ---------------------------------------------------------------------------

/// The slots of a room: `slots` are the room's YAMLs in the order of the slots, and `names` the
/// names that their players connect with, in that order.
pub fn slots_with_names(
    room_yamls: &[YamlWithoutContent],
    slots: &[YamlId],
    names: &[String],
) -> (r: Vec<ExpectedSlot>)
    requires
        has_all_yamls(room_yamls.deep_view(), slots.deep_view()),
        names@.len() == slots@.len(),
    ensures
        r.deep_view() == slots_of_room(
            room_yamls.deep_view(),
            slots.deep_view(),
            names.deep_view(),
        ),
{
    let by_id = index_by_id(room_yamls);
    let mut r: Vec<ExpectedSlot> = Vec::new();
    let mut i: usize = 0;
    let ghost yamls = room_yamls.deep_view();
    let ghost all = slots.deep_view();
    let ghost expected = slots_of_room(yamls, all, names.deep_view());
    while i < slots.len()
        invariant
            i <= slots@.len(),
            names@.len() == slots@.len(),
            yamls == room_yamls.deep_view(),
            all == slots.deep_view(),
            expected == slots_of_room(yamls, all, names.deep_view()),
            has_all_yamls(yamls, all),
            forall|id: YamlId| #[trigger]
                by_id@.contains_key(id) <==> yamls_with_id(yamls, id).len() > 0,
            forall|id: YamlId| #[trigger]
                by_id@.contains_key(id) ==> by_id@[id] < room_yamls@.len()
                    && room_yamls@[by_id@[id] as int].deep_view() == yaml_with_id(yamls, id),
            r@.len() == i,
            forall|j: int| 0 <= j < i ==> (#[trigger] r@[j]).deep_view() == expected[j],
        decreases slots@.len() - i,
    {
        let yaml_id = slots[i];
        assert(all[i as int] == yaml_id);
        assert(by_id@.contains_key(yaml_id));
        if let Some(at) = by_id.get(&yaml_id) {
            let yaml = &room_yamls[*at];
            let slot = ExpectedSlot {
                slot: i + 1,
                yaml_id,
                name: names[i].clone(),
                game: yaml.game.clone(),
            };
            assert(slot.deep_view() =~= expected[i as int]);
            r.push(slot);
        }
        i = i + 1;
    }
    assert(r.deep_view() =~= expected);
    r
}

/// The slots AP would assign to this room's YAMLs, with the connect name AP derives from each
/// YAML's `name`: `slots` are the room's YAMLs in AP slot order, and `derive` is what makes a
/// connect name.
pub fn expected_slots<F: Fn(String, Counter<String>) -> (String, Counter<String>)>(
    room_yamls: &[YamlWithoutContent],
    slots: &[YamlId],
    derive: &F,
) -> (r: Vec<ExpectedSlot>)
    requires
        has_all_yamls(room_yamls.deep_view(), slots.deep_view()),
        forall|player: String, counter: Counter<String>|
            call_requires(*derive, (player, counter)),
    ensures
        exists|names: Seq<Seq<char>>| #[trigger]
            may_be_named(
                *derive,
                names_by_slot(room_yamls.deep_view(), slots.deep_view()),
                names,
            ) && r.deep_view() == slots_of_room(room_yamls.deep_view(), slots.deep_view(), names),
{
    let players = slot_players(room_yamls, slots);
    let names = connect_names(&players, derive);
    assert(names@.len() == slots@.len()) by {
        assert(names.deep_view().len() == players.deep_view().len());
    }
    let list = names.as_slice();
    assert(list.deep_view() =~= names.deep_view());
    slots_with_names(room_yamls, slots, list)
}

/// The same slots once more.
pub fn copy_slots(expected: &[ExpectedSlot]) -> (r: Vec<ExpectedSlot>)
    ensures
        r.deep_view() == expected.deep_view(),
{
    let mut r: Vec<ExpectedSlot> = Vec::new();
    let mut i: usize = 0;
    while i < expected.len()
        invariant
            i <= expected@.len(),
            r@.len() == i,
            forall|j: int|
                0 <= j < i ==> (#[trigger] r@[j]).deep_view() == expected@[j].deep_view(),
        decreases expected@.len() - i,
    {
        let slot = &expected[i];
        r.push(
            ExpectedSlot {
                slot: slot.slot,
                yaml_id: slot.yaml_id,
                name: slot.name.clone(),
                game: slot.game.clone(),
            },
        );
        i = i + 1;
    }
    assert(r.deep_view() =~= expected.deep_view());
    r
}

} // verus!
