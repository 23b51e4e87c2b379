//! Which output file of a generation is served for each slot.
//!
//! A world can emit several files for one slot; the one served as the slot's patch is the
//! first AP container, or failing that the first file.

use crate::model::{GenerationFile, GenerationFileView};
use crate::patch_name;
use crate::patch_name::parse_patch_name;
use crate::text;
use crate::text::parse_digits;
use std::collections::HashMap;
use vstd::prelude::*;
use vstd::string::*;

verus! {

/// A file that may be served for a slot, if it is for one.
#[verifier::ext_equal]
pub struct Candidate {
    pub slot: Option<usize>,
    pub name: Seq<char>,
    pub container: bool,
}

/// Whether one of the candidates is for `slot`.
pub open spec fn has_output(candidates: Seq<Candidate>, slot: usize) -> bool {
    exists|i: int| 0 <= i < candidates.len() && #[trigger] candidates[i].slot == Some(slot)
}

/// Whether one of the candidates is an AP container for `slot`.
pub open spec fn has_container(candidates: Seq<Candidate>, slot: usize) -> bool {
    exists|i: int|
        0 <= i < candidates.len() && #[trigger] candidates[i].slot == Some(slot)
            && candidates[i].container
}

/// Whether the candidate at `k` is the one to serve for `slot`: the first AP container, or
/// the first file where there is no container.
pub open spec fn is_preferred(candidates: Seq<Candidate>, slot: usize, k: int) -> bool {
    &&& 0 <= k < candidates.len()
    &&& candidates[k].slot == Some(slot)
    &&& if has_container(candidates, slot) {
        candidates[k].container && !has_container(candidates.take(k), slot)
    } else {
        !has_output(candidates.take(k), slot)
    }
}

/// The name of the file to serve for `slot`.
pub open spec fn preferred_name(candidates: Seq<Candidate>, slot: usize) -> Seq<char> {
    candidates[choose|k: int| is_preferred(candidates, slot, k)].name
}

/// The file to serve for each slot that has one.
pub open spec fn preferred_names(candidates: Seq<Candidate>) -> Map<usize, Seq<char>> {
    Map::new(
        |slot: usize| has_output(candidates, slot),
        |slot: usize| preferred_name(candidates, slot),
    )
}

/// What is known of the files for `slot`: nothing where there is none, else whether one of
/// them is an AP container.
pub open spec fn place(candidates: Seq<Candidate>, slot: usize) -> Option<bool> {
    if has_output(candidates, slot) {
        Some(has_container(candidates, slot))
    } else {
        None
    }
}

/// Whether `next` is to be served for its slot in place of the files before it.
pub open spec fn takes_over(before: Seq<Candidate>, next: Candidate) -> bool {
    match next.slot {
        None => false,
        Some(slot) => replaces(place(before, slot), next.container),
    }
}

/// Whether a file replaces what is served for its slot so far.
pub open spec fn replaces(current_is_container: Option<bool>, new_is_container: bool) -> bool {
    match current_is_container {
        None => true,
        Some(container) => !container && new_is_container,
    }
}

/// Whether a file replaces what is served for its slot so far.
pub fn should_replace_patch(current_is_container: Option<bool>, new_is_container: bool) -> (r: bool)
    ensures
        r == replaces(current_is_container, new_is_container),
{
    match current_is_container {
        None => true,
        Some(true) => false,
        Some(false) => new_is_container,
    }
}

/// One more candidate: what holds of each slot then.
pub proof fn lemma_next_candidate(before: Seq<Candidate>, next: Candidate, slot: usize)
    ensures
        has_output(before.push(next), slot) == (has_output(before, slot) || next.slot == Some(
            slot,
        )),
        has_container(before.push(next), slot) == (has_container(before, slot) || (next.slot
            == Some(slot) && next.container)),
        takes_over(before, next) && next.slot == Some(slot) ==> is_preferred(
            before.push(next),
            slot,
            before.len() as int,
        ),
        !(takes_over(before, next) && next.slot == Some(slot)) ==> forall|k: int|
            #[trigger] is_preferred(before, slot, k) ==> is_preferred(before.push(next), slot, k),
{
    let after = before.push(next);
    assert forall|i: int| 0 <= i < before.len() implies after[i] == #[trigger] before[i] by {}
    if has_output(before, slot) {
        let i = choose|i: int| 0 <= i < before.len() && #[trigger] before[i].slot == Some(slot);
        assert(after[i].slot == Some(slot));
    }
    if has_container(before, slot) {
        let i = choose|i: int|
            0 <= i < before.len() && #[trigger] before[i].slot == Some(slot) && before[i].container;
        assert(after[i].slot == Some(slot));
    }
    assert(after[before.len() as int] == next);
    assert(after.take(before.len() as int) =~= before);
    assert forall|k: int|
        #[trigger] is_preferred(before, slot, k) && !(takes_over(before, next) && next.slot == Some(
            slot,
        )) implies is_preferred(after, slot, k) by {
        assert(after.take(k) =~= before.take(k));
        assert(before[k].slot == Some(slot));
        assert(has_output(before, slot));
        if has_container(after, slot) && !has_container(before, slot) {
            assert(takes_over(before, next));
        }
    }
}

/// At most one candidate is the one to serve for a slot.
pub proof fn lemma_preferred_is_one(candidates: Seq<Candidate>, slot: usize, j: int, k: int)
    requires
        is_preferred(candidates, slot, j),
        is_preferred(candidates, slot, k),
    ensures
        j == k,
{
    if j < k {
        assert(candidates.take(k)[j].slot == Some(slot));
    }
    if k < j {
        assert(candidates.take(j)[k].slot == Some(slot));
    }
}

/// The name to serve is that of the preferred candidate.
pub proof fn lemma_preferred_name(candidates: Seq<Candidate>, slot: usize, k: int)
    requires
        is_preferred(candidates, slot, k),
    ensures
        preferred_name(candidates, slot) == candidates[k].name,
{
    let j = choose|j: int| is_preferred(candidates, slot, j);
    lemma_preferred_is_one(candidates, slot, j, k);
}

/// For each slot that has an output file, there is exactly one to serve.
pub proof fn law_one_file_is_served(candidates: Seq<Candidate>, slot: usize)
    ensures
        has_output(candidates, slot) <==> exists|k: int| is_preferred(candidates, slot, k),
        forall|j: int, k: int|
            is_preferred(candidates, slot, j) && is_preferred(candidates, slot, k) ==> j == k,
    decreases candidates.len(),
{
    assert forall|j: int, k: int|
        is_preferred(candidates, slot, j) && is_preferred(candidates, slot, k) implies j == k by {
        lemma_preferred_is_one(candidates, slot, j, k);
    }
    if candidates.len() > 0 {
        let before = candidates.drop_last();
        let next = candidates.last();
        assert(before.push(next) =~= candidates);
        law_one_file_is_served(before, slot);
        lemma_next_candidate(before, next, slot);
        if has_output(candidates, slot) {
            if takes_over(before, next) && next.slot == Some(slot) {
                assert(is_preferred(candidates, slot, before.len() as int));
            } else {
                assert(has_output(before, slot));
                let k = choose|k: int| is_preferred(before, slot, k);
                assert(is_preferred(candidates, slot, k));
            }
        }
    }
}

/// One more candidate: what is served for each slot then.
pub proof fn lemma_next_preferred_names(before: Seq<Candidate>, next: Candidate)
    ensures
        preferred_names(before.push(next)) == (if takes_over(before, next) {
            preferred_names(before).insert(next.slot->0, next.name)
        } else {
            preferred_names(before)
        }),
{
    let after = before.push(next);
    assert(after[before.len() as int] == next);
    assert forall|slot: usize| has_output(before, slot) && !(takes_over(before, next) && next.slot
        == Some(slot)) implies #[trigger] preferred_name(after, slot) == preferred_name(
        before,
        slot,
    ) by {
        law_one_file_is_served(before, slot);
        let k = choose|k: int| is_preferred(before, slot, k);
        lemma_next_candidate(before, next, slot);
        lemma_preferred_name(after, slot, k);
        assert(after[k] == before[k]);
    }
    assert forall|slot: usize| #[trigger] has_output(after, slot) == (has_output(before, slot)
        || next.slot == Some(slot)) by {
        lemma_next_candidate(before, next, slot);
    }
    if takes_over(before, next) {
        let slot = next.slot->0;
        lemma_next_candidate(before, next, slot);
        lemma_preferred_name(after, slot, before.len() as int);
        assert(preferred_names(after) =~= preferred_names(before).insert(slot, next.name));
    } else {
        assert(preferred_names(after) =~= preferred_names(before));
    }
}

/// The slot that a file name gives, where a `usize` can hold it.
pub open spec fn named_slot(name: Seq<char>) -> Option<usize> {
    match patch_name::patch_name(name) {
        Some(parts) => if text::digits_value(parts.slot) <= usize::MAX {
            Some(text::digits_value(parts.slot) as usize)
        } else {
            None
        },
        None => None,
    }
}

/// The files as candidates for the slots that their names give.
pub open spec fn named_candidates(files: Seq<GenerationFileView>) -> Seq<Candidate> {
    files.map_values(
        |file: GenerationFileView|
            Candidate {
                slot: named_slot(file.name),
                name: file.name,
                container: file.manifest is Some,
            },
    )
}

/// The slot that a file name gives, where a `usize` can hold it.
fn slot_in_name(name: &str) -> (r: Option<usize>)
    ensures
        r == named_slot(name@),
{
    match parse_patch_name(name) {
        None => None,
        Some(parts) => {
            proof {
                patch_name::law_parts_are_digits(name@);
            }
            parse_digits(parts.slot.as_str())
        },
    }
}

/// The file to serve for each slot that the files have outputs for.
pub fn choose_outputs(files: &Vec<GenerationFile>) -> (r: HashMap<usize, String>)
    ensures
        crate::model::texts(r@) == preferred_names(named_candidates(files.deep_view())),
{
    let mut served: HashMap<usize, String> = HashMap::new();
    let mut containers: HashMap<usize, bool> = HashMap::new();
    let mut i: usize = 0;
    let ghost all = named_candidates(files.deep_view());
    assert(crate::model::texts(served@) =~= preferred_names(all.take(0)));
    while i < files.len()
        invariant
            i <= files@.len(),
            all == named_candidates(files.deep_view()),
            crate::model::texts(served@) == preferred_names(all.take(i as int)),
            forall|slot: usize| #[trigger]
                containers@.contains_key(slot) <==> has_output(all.take(i as int), slot),
            forall|slot: usize| #[trigger]
                containers@.contains_key(slot) ==> containers@[slot] == has_container(
                    all.take(i as int),
                    slot,
                ),
        decreases files@.len() - i,
    {
        let name = &files[i].name;
        let ghost before = all.take(i as int);
        let ghost next = all[i as int];
        proof {
            assert(next == Candidate {
                slot: named_slot(name@),
                name: name@,
                container: files@[i as int].manifest is Some,
            });
            assert(all.take(i + 1) =~= before.push(next));
            lemma_next_preferred_names(before, next);
            assert forall|slot: usize| #[trigger]
                has_output(all.take(i + 1), slot) == (has_output(before, slot) || next.slot == Some(
                    slot,
                )) by {
                lemma_next_candidate(before, next, slot);
            }
            assert forall|slot: usize| #[trigger]
                has_container(all.take(i + 1), slot) == (has_container(before, slot) || (next.slot
                    == Some(slot) && next.container)) by {
                lemma_next_candidate(before, next, slot);
            }
        }
        if let Some(slot) = slot_in_name(name.as_str()) {
            let is_container = files[i].manifest.is_some();
            let current = match containers.get(&slot) {
                Some(container) => Some(*container),
                None => None,
            };
            assert(current == place(before, slot));
            if should_replace_patch(current, is_container) {
                let ghost served_before = served@;
                containers.insert(slot, is_container);
                served.insert(slot, name.clone());
                assert(crate::model::texts(served@) =~= crate::model::texts(served_before).insert(
                    slot,
                    name@,
                ));
            }
        }
        i = i + 1;
    }
    assert(all.take(files@.len() as int) =~= all);
    served
}

} // verus!
