//! What is read from and written to the database.

use crate::generation;
use crate::generation::{
    delete_generation_for_room, get_generation_for_room, insert_generation_for_room,
    publish_generation, publish_if_unchanged, update_generation_status_for_room, Generation,
    GenerationStatus, UnknownStatus, Write,
};
use crate::model;
use crate::model::{JobId, RoomId, YamlId};
use std::collections::HashMap;
use vstd::prelude::*;

verus! {

// ---------------------------------------------------------------------------
// The status
// ---------------------------------------------------------------------------

/// A status is written as its name.
pub proof fn law_statuses_are_written_as_their_names(status: GenerationStatus, r: &str)
    requires
        call_ensures(GenerationStatus::as_str, (&status,), r),
    ensures
        status == GenerationStatus::Pending ==> r@ == "Pending"@,
        status == GenerationStatus::Running ==> r@ == "Running"@,
        status == GenerationStatus::Failed ==> r@ == "Failed"@,
        status == GenerationStatus::Done ==> r@ == "Done"@,
{
}

/// What was written for a status is read as that status, and no other text as any.
pub proof fn law_statuses_are_read_back(
    status: GenerationStatus,
    written: &str,
    other: &str,
    r: Result<GenerationStatus, UnknownStatus>,
    s: Result<GenerationStatus, UnknownStatus>,
)
    requires
        call_ensures(GenerationStatus::as_str, (&status,), written),
        call_ensures(GenerationStatus::from_str, (written,), r),
        call_ensures(GenerationStatus::from_str, (other,), s),
    ensures
        r == Ok::<GenerationStatus, UnknownStatus>(status),
        s is Ok <==> other@ == "Pending"@ || other@ == "Running"@ || other@ == "Failed"@ || other@
            == "Done"@,
        s matches Err(unknown) ==> unknown.message@ == "Unknown variant for GenerationStatus: "@
            + other@,
{
    assert(generation::status_name(status) == written@);
    if let Ok(read) = r {
        generation::law_status_names_differ(read, status);
    }
    assert(generation::status_name(GenerationStatus::Pending) == "Pending"@);
    assert(generation::status_name(GenerationStatus::Running) == "Running"@);
    assert(generation::status_name(GenerationStatus::Failed) == "Failed"@);
    assert(generation::status_name(GenerationStatus::Done) == "Done"@);
}

/// A row stands for a generation with the row's room and job, and the status that is written in
/// the row; no row for none.
pub proof fn law_rows_are_read(
    row: Option<(RoomId, JobId, String)>,
    status: GenerationStatus,
    written: &str,
    r: Option<Generation>,
)
    requires
        call_ensures(get_generation_for_room, (row,), r),
        call_ensures(GenerationStatus::as_str, (&status,), written),
        row matches Some((_, _, text)) ==> text@ == written@,
    ensures
        row is None ==> r is None,
        row matches Some((room_id, job_id, _)) ==> (r matches Some(generation) && generation.room_id
            == room_id && generation.job_id == job_id && generation.status == status),
{
    if row is Some {
        assert(generation::status_name(status) == written@);
        generation::law_status_names_differ(r->0.status, status);
    }
}

// ---------------------------------------------------------------------------
// The writes
// ---------------------------------------------------------------------------

/// Starting a generation inserts it for the room, pending.
pub proof fn law_starting_inserts(room_id: RoomId, job_id: JobId, r: Vec<Write>)
    requires
        call_ensures(insert_generation_for_room, (room_id, job_id), r),
    ensures
        r@.len() == 1,
        r@[0] matches Write::InsertGeneration(row) && row.room_id == room_id && row.job_id == job_id
            && row.status@ == "Pending"@,
{
    assert(r@.len() == r.deep_view().len());
    assert(r.deep_view()[0] == r@[0].deep_view());
}

/// A new status is written for the room, as its name.
pub proof fn law_updating_writes_the_status(
    room_id: RoomId,
    status: GenerationStatus,
    name: &str,
    r: Vec<Write>,
)
    requires
        call_ensures(update_generation_status_for_room, (room_id, status), r),
        call_ensures(GenerationStatus::as_str, (&status,), name),
    ensures
        r@.len() == 1,
        r@[0] matches Write::UpdateStatus { room_id: room, status: text } && room == room_id
            && text@ == name@,
{
    assert(r@.len() == r.deep_view().len());
    assert(r.deep_view()[0] == r@[0].deep_view());
}

/// Deleting takes the room's generation, then the patches of the room.
pub proof fn law_deleting_deletes(room_id: RoomId, r: Vec<Write>)
    requires
        call_ensures(delete_generation_for_room, (room_id,), r),
    ensures
        r@.len() == 2,
        r@[0] matches Write::DeleteGeneration { room_id: room } && room == room_id,
        r@[1] matches Write::ClearPatches { room_id: room } && room == room_id,
{
    assert(r@.len() == r.deep_view().len());
    assert(r.deep_view()[0] == r@[0].deep_view());
    assert(r.deep_view()[1] == r@[1].deep_view());
}

/// Whether the write gives the YAML of the entry the password of the entry.
pub open spec fn sets_password(write: Write, entry: (YamlId, String)) -> bool {
    write matches Write::SetPassword { yaml_id, password } && yaml_id == entry.0 && password@
        == entry.1@
}

/// Whether the writes publish a generation: the room gets it, done; then all patches of the room
/// are taken; then each patch is set, once, for the YAML it is associated with; and then each
/// password, in order, for the YAML it is for.
pub open spec fn publishes(
    writes: Seq<Write>,
    room_id: RoomId,
    job_id: JobId,
    patches: Map<YamlId, String>,
    passwords: Seq<(YamlId, String)>,
) -> bool {
    let end = writes.len() - passwords.len();
    &&& end >= 2
    &&& writes[0] matches Write::UpsertGeneration(row) && row.room_id == room_id && row.job_id
        == job_id && row.status@ == "Done"@
    &&& writes[1] matches Write::ClearPatches { room_id: room } && room == room_id
    &&& forall|i: int|
        2 <= i < end ==> (#[trigger] writes[i] matches Write::SetPatch { yaml_id, patch }
            && patches.contains_key(yaml_id) && patches[yaml_id]@ == patch@)
    &&& forall|i: int, j: int|
        2 <= i < j < end ==> (#[trigger] writes[i])->SetPatch_yaml_id != (
        #[trigger] writes[j])->SetPatch_yaml_id
    &&& forall|yaml_id: YamlId| #[trigger]
        patches.contains_key(yaml_id) ==> exists|i: int|
            2 <= i < end && (#[trigger] writes[i])->SetPatch_yaml_id == yaml_id
    &&& forall|i: int|
        0 <= i < passwords.len() ==> sets_password(writes[end + i], #[trigger] passwords[i])
}

proof fn lemma_publishes(
    writes: Vec<Write>,
    room_id: RoomId,
    job_id: JobId,
    patches: Map<YamlId, String>,
    passwords: Seq<(YamlId, String)>,
    views: Seq<(YamlId, Seq<char>)>,
)
    requires
        views.len() == passwords.len(),
        forall|i: int|
            0 <= i < passwords.len() ==> #[trigger] views[i] == (passwords[i].0, passwords[i].1@),
        generation::is_publishing(
            writes.deep_view(),
            room_id,
            job_id,
            model::texts(patches),
            views,
        ),
    ensures
        publishes(writes@, room_id, job_id, patches, passwords),
{
    let texts = model::texts(patches);
    let order = choose|order: Seq<(YamlId, Seq<char>)>| #[trigger]
        generation::is_listing(order, texts) && writes.deep_view() == generation::publish_writes(
            room_id,
            job_id,
            order,
            views,
        );
    let all = writes.deep_view();
    let end = writes@.len() - passwords.len();
    assert(writes@.len() == all.len());
    assert(end == 2 + order.len());
    assert(all[0] == writes@[0].deep_view());
    assert(all[1] == writes@[1].deep_view());
    assert forall|i: int| 2 <= i < end implies (#[trigger] writes@[i] matches Write::SetPatch {
        yaml_id,
        patch,
    } && yaml_id == order[i - 2].0 && patches.contains_key(yaml_id) && patches[yaml_id]@
        == patch@) by {
        assert(all[i] == writes@[i].deep_view());
        assert(all[i] == generation::patch_writes(order)[i - 2]);
        assert(texts.contains_key(order[i - 2].0));
    }
    assert forall|i: int, j: int| 2 <= i < j < end implies (
    #[trigger] writes@[i])->SetPatch_yaml_id != (#[trigger] writes@[j])->SetPatch_yaml_id by {
        assert(order[i - 2].0 != order[j - 2].0);
    }
    assert forall|yaml_id: YamlId| #[trigger] patches.contains_key(yaml_id) implies exists|i: int|
        2 <= i < end && (#[trigger] writes@[i])->SetPatch_yaml_id == yaml_id by {
        assert(texts.contains_key(yaml_id));
        let i = choose|i: int| 0 <= i < order.len() && (#[trigger] order[i]).0 == yaml_id;
        assert(writes@[i + 2]->SetPatch_yaml_id == yaml_id);
    }
    assert forall|i: int| 0 <= i < passwords.len() implies sets_password(
        writes@[end + i],
        #[trigger] passwords[i],
    ) by {
        assert(all[end + i] == writes@[end + i].deep_view());
        assert(all[end + i] == generation::password_writes(views)[i]);
        assert(views[i] == (passwords[i].0, passwords[i].1@));
    }
}

/// Publishing writes the generation, its patches and the given passwords.
pub proof fn law_publishing_writes_everything(
    room_id: RoomId,
    job_id: JobId,
    patches: HashMap<YamlId, String>,
    passwords: Vec<(YamlId, String)>,
    r: Vec<Write>,
)
    requires
        call_ensures(publish_generation, (room_id, job_id, patches, passwords), r),
    ensures
        publishes(r@, room_id, job_id, patches@, passwords@),
{
    assert forall|i: int| 0 <= i < passwords@.len() implies #[trigger] passwords.deep_view()[i] == (
        passwords@[i].0,
        passwords@[i].1@,
    ) by {}
    lemma_publishes(r, room_id, job_id, patches@, passwords@, passwords.deep_view());
}

/// A generation is published exactly where the room's is still the one that was seen. It is
/// published with the passwords that are to be set; with none to set, no password is written.
pub proof fn law_only_what_was_seen_is_replaced(
    room_id: RoomId,
    job_id: JobId,
    patches: HashMap<YamlId, String>,
    passwords: Option<Vec<(YamlId, String)>>,
    previous: Option<JobId>,
    current: Option<JobId>,
    r: Option<Vec<Write>>,
)
    requires
        call_ensures(
            publish_if_unchanged,
            (room_id, job_id, patches, passwords, previous, current),
            r,
        ),
    ensures
        r is Some <==> current == previous,
        r matches Some(writes) ==> match passwords {
            Some(updates) => publishes(writes@, room_id, job_id, patches@, updates@),
            None => publishes(writes@, room_id, job_id, patches@, Seq::empty()),
        },
{
    if let Some(writes) = r {
        match passwords {
            Some(updates) => {
                assert forall|i: int|
                    0 <= i < updates@.len() implies #[trigger] updates.deep_view()[i] == (
                    updates@[i].0,
                    updates@[i].1@,
                ) by {}
                lemma_publishes(writes, room_id, job_id, patches@, updates@, updates.deep_view());
            },
            None => {
                lemma_publishes(
                    writes,
                    room_id,
                    job_id,
                    patches@,
                    Seq::<(YamlId, String)>::empty(),
                    Seq::<(YamlId, Seq<char>)>::empty(),
                );
            },
        }
    }
}

} // verus!
