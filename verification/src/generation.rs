//! The generation that a room has, and what is written to the database about it.
//!
//! What the database is to do is given as a list of [`Write`]s, to be carried out in order and
//! in one transaction. [`apply`] says what each does to the tables.

use crate::model;
use crate::model::{JobId, RoomId, YamlId};
use crate::text::same_text;
use std::collections::HashMap;
use vstd::prelude::*;
use vstd::string::*;

verus! {

// ---------------------------------------------------------------------------
// The status of a generation
// ---------------------------------------------------------------------------

/// How far a generation has come.
#[derive(Debug, Clone, Copy, PartialEq, Eq, Structural)]
pub enum GenerationStatus {
    Pending,
    Running,
    Failed,
    Done,
}

/// A text that names no status.
#[derive(Debug)]
pub struct UnknownStatus {
    pub message: String,
}

/// How a status is written in the database.
pub open spec fn status_name(status: GenerationStatus) -> Seq<char> {
    match status {
        GenerationStatus::Pending => "Pending"@,
        GenerationStatus::Running => "Running"@,
        GenerationStatus::Failed => "Failed"@,
        GenerationStatus::Done => "Done"@,
    }
}

/// Whether the text names a status.
pub open spec fn is_status_name(text: Seq<char>) -> bool {
    exists|status: GenerationStatus| #[trigger] status_name(status) == text
}

/// No two statuses are written alike.
pub proof fn law_status_names_differ(a: GenerationStatus, b: GenerationStatus)
    requires
        status_name(a) == status_name(b),
    ensures
        a == b,
{
    reveal_strlit("Pending");
    reveal_strlit("Running");
    reveal_strlit("Failed");
    reveal_strlit("Done");
    assert("Pending"@[0] == 'P');
    assert("Running"@[0] == 'R');
    assert("Failed"@[0] == 'F');
    assert("Done"@[0] == 'D');
}

impl GenerationStatus {
    /// The status that the text names.
    pub fn from_str(s: &str) -> (r: Result<Self, UnknownStatus>)
        ensures
            match r {
                Ok(status) => status_name(status) == s@,
                Err(unknown) => !is_status_name(s@) && unknown.message@
                    == "Unknown variant for GenerationStatus: "@ + s@,
            },
    {
        if same_text(s, "Pending") {
            Ok(GenerationStatus::Pending)
        } else if same_text(s, "Running") {
            Ok(GenerationStatus::Running)
        } else if same_text(s, "Failed") {
            Ok(GenerationStatus::Failed)
        } else if same_text(s, "Done") {
            Ok(GenerationStatus::Done)
        } else {
            let mut message = "Unknown variant for GenerationStatus: ".to_string();
            message.append(s);
            Err(UnknownStatus { message })
        }
    }

    /// How the status is written in the database.
    pub fn as_str(&self) -> (r: &str)
        ensures
            r@ == status_name(*self),
    {
        match self {
            GenerationStatus::Pending => "Pending",
            GenerationStatus::Running => "Running",
            GenerationStatus::Failed => "Failed",
            GenerationStatus::Done => "Done",
        }
    }
}

// ---------------------------------------------------------------------------
// The tables
// ---------------------------------------------------------------------------

/// The generation of a room.
#[derive(Debug)]
pub struct Generation {
    pub room_id: RoomId,
    pub job_id: JobId,
    pub status: GenerationStatus,
}

/// A row for the table of generations.
#[derive(Debug)]
pub struct NewGeneration {
    pub room_id: RoomId,
    pub job_id: JobId,
    pub status: String,
}

/// Something to write to the database.
#[derive(Debug)]
pub enum Write {
    /// Inserts a generation; refused for a room that has one.
    InsertGeneration(NewGeneration),
    /// Inserts a generation, or gives the room's generation this job and status.
    UpsertGeneration(NewGeneration),
    /// Gives the generation of a room, if it has one, this status.
    UpdateStatus { room_id: RoomId, status: String },
    /// Deletes the generation of a room, if it has one.
    DeleteGeneration { room_id: RoomId },
    /// Takes the patch from every YAML of a room.
    ClearPatches { room_id: RoomId },
    /// Gives a YAML, if there is one of this id, this patch.
    SetPatch { yaml_id: YamlId, patch: String },
    /// Gives a YAML, if there is one of this id, this password.
    SetPassword { yaml_id: YamlId, password: String },
}

/// The mathematical content of a [`Write`].
#[verifier::ext_equal]
pub enum WriteView {
    InsertGeneration { room_id: RoomId, job_id: JobId, status: Seq<char> },
    UpsertGeneration { room_id: RoomId, job_id: JobId, status: Seq<char> },
    UpdateStatus { room_id: RoomId, status: Seq<char> },
    DeleteGeneration { room_id: RoomId },
    ClearPatches { room_id: RoomId },
    SetPatch { yaml_id: YamlId, patch: Seq<char> },
    SetPassword { yaml_id: YamlId, password: Seq<char> },
}

impl DeepView for Write {
    type V = WriteView;

    open spec fn deep_view(&self) -> WriteView {
        match *self {
            Write::InsertGeneration(row) => WriteView::InsertGeneration {
                room_id: row.room_id,
                job_id: row.job_id,
                status: row.status@,
            },
            Write::UpsertGeneration(row) => WriteView::UpsertGeneration {
                room_id: row.room_id,
                job_id: row.job_id,
                status: row.status@,
            },
            Write::UpdateStatus { room_id, status } => WriteView::UpdateStatus {
                room_id,
                status: status@,
            },
            Write::DeleteGeneration { room_id } => WriteView::DeleteGeneration { room_id },
            Write::ClearPatches { room_id } => WriteView::ClearPatches { room_id },
            Write::SetPatch { yaml_id, patch } => WriteView::SetPatch { yaml_id, patch: patch@ },
            Write::SetPassword { yaml_id, password } => WriteView::SetPassword {
                yaml_id,
                password: password@,
            },
        }
    }
}

/// What the table of generations says of a room.
#[verifier::ext_equal]
pub struct GenerationRow {
    pub job_id: JobId,
    pub status: Seq<char>,
}

/// What the table of YAMLs says of one.
#[verifier::ext_equal]
pub struct YamlRow {
    pub room_id: RoomId,
    pub patch: Option<Seq<char>>,
    pub password: Option<Seq<char>>,
}

/// The tables that the writes concern.
#[verifier::ext_equal]
pub struct Tables {
    pub generations: Map<RoomId, GenerationRow>,
    pub yamls: Map<YamlId, YamlRow>,
}

/// Whether a room has a generation.
pub open spec fn has_generation(tables: Tables, room_id: RoomId) -> bool {
    tables.generations.contains_key(room_id)
}

/// The tables with the row of a YAML, if there is one, replaced.
pub open spec fn with_yaml(tables: Tables, yaml_id: YamlId, row: YamlRow) -> Tables {
    if tables.yamls.contains_key(yaml_id) {
        Tables { yamls: tables.yamls.insert(yaml_id, row), ..tables }
    } else {
        tables
    }
}

/// What a write makes of the tables.
pub open spec fn apply(tables: Tables, write: WriteView) -> Tables {
    match write {
        WriteView::InsertGeneration { room_id, job_id, status } => if has_generation(
            tables,
            room_id,
        ) {
            tables
        } else {
            Tables {
                generations: tables.generations.insert(room_id, GenerationRow { job_id, status }),
                ..tables
            }
        },
        WriteView::UpsertGeneration { room_id, job_id, status } => Tables {
            generations: tables.generations.insert(room_id, GenerationRow { job_id, status }),
            ..tables
        },
        WriteView::UpdateStatus { room_id, status } => if has_generation(tables, room_id) {
            Tables {
                generations: tables.generations.insert(
                    room_id,
                    GenerationRow { status, ..tables.generations[room_id] },
                ),
                ..tables
            }
        } else {
            tables
        },
        WriteView::DeleteGeneration { room_id } => Tables {
            generations: tables.generations.remove(room_id),
            ..tables
        },
        WriteView::ClearPatches { room_id } => Tables {
            yamls: tables.yamls.map_values(
                |row: YamlRow|
                    if row.room_id == room_id {
                        YamlRow { patch: None, ..row }
                    } else {
                        row
                    },
            ),
            ..tables
        },
        WriteView::SetPatch { yaml_id, patch } => with_yaml(
            tables,
            yaml_id,
            YamlRow { patch: Some(patch), ..tables.yamls[yaml_id] },
        ),
        WriteView::SetPassword { yaml_id, password } => with_yaml(
            tables,
            yaml_id,
            YamlRow { password: Some(password), ..tables.yamls[yaml_id] },
        ),
    }
}

/// What writes, one after the other, make of the tables.
pub open spec fn apply_all(tables: Tables, writes: Seq<WriteView>) -> Tables
    decreases writes.len(),
{
    if writes.len() == 0 {
        tables
    } else {
        apply(apply_all(tables, writes.drop_last()), writes.last())
    }
}

/// Whether the database refuses a write: it takes no second generation for a room.
pub open spec fn is_refused(tables: Tables, write: WriteView) -> bool {
    write matches WriteView::InsertGeneration { room_id, .. } && has_generation(tables, room_id)
}

/// What writes in one transaction make of the tables; `None` where one of them is refused, and
/// with it all.
pub open spec fn transact(tables: Tables, writes: Seq<WriteView>) -> Option<Tables>
    decreases writes.len(),
{
    if writes.len() == 0 {
        Some(tables)
    } else {
        match transact(tables, writes.drop_last()) {
            None => None,
            Some(before) => if is_refused(before, writes.last()) {
                None
            } else {
                Some(apply(before, writes.last()))
            },
        }
    }
}

// ---------------------------------------------------------------------------
// What is read and written
// ---------------------------------------------------------------------------

/// The generation that a row of the table of generations stands for. The status in a row has
/// to be one that is written there.
pub fn get_generation_for_room(row: Option<(RoomId, JobId, String)>) -> (r: Option<Generation>)
    requires
        row matches Some((_, _, status)) ==> is_status_name(status@),
    ensures
        match row {
            None => r is None,
            Some((room_id, job_id, status)) => r matches Some(generation) && generation.room_id
                == room_id && generation.job_id == job_id && status_name(generation.status)
                == status@,
        },
{
    match row {
        None => None,
        Some((room_id, job_id, status)) => match GenerationStatus::from_str(status.as_str()) {
            Ok(status) => Some(Generation { room_id, job_id, status }),
            Err(_) => None,
        },
    }
}

/// Records that a generation was started for a room.
pub fn insert_generation_for_room(room_id: RoomId, job_id: JobId) -> (writes: Vec<Write>)
    ensures
        writes.deep_view() == seq![
            WriteView::InsertGeneration {
                room_id,
                job_id,
                status: status_name(GenerationStatus::Pending),
            },
        ],
{
    let mut writes: Vec<Write> = Vec::new();
    writes.push(
        Write::InsertGeneration(
            NewGeneration {
                room_id,
                job_id,
                status: GenerationStatus::Pending.as_str().to_string(),
            },
        ),
    );
    assert(writes.deep_view() =~= seq![
        WriteView::InsertGeneration {
            room_id,
            job_id,
            status: status_name(GenerationStatus::Pending),
        },
    ]);
    writes
}

/// Whether `order` lists the entries of a map, each once.
pub open spec fn is_listing(order: Seq<(YamlId, Seq<char>)>, map: Map<YamlId, Seq<char>>) -> bool {
    &&& forall|i: int|
        0 <= i < order.len() ==> map.contains_key((#[trigger] order[i]).0) && map[order[i].0]
            == order[i].1
    &&& forall|i: int, j: int|
        0 <= i < j < order.len() ==> (#[trigger] order[i]).0 != (#[trigger] order[j]).0
    &&& forall|yaml_id: YamlId| #[trigger]
        map.contains_key(yaml_id) ==> exists|i: int|
            0 <= i < order.len() && (#[trigger] order[i]).0 == yaml_id
}

/// The writes that give YAMLs their patches.
pub open spec fn patch_writes(patches: Seq<(YamlId, Seq<char>)>) -> Seq<WriteView> {
    patches.map_values(
        |entry: (YamlId, Seq<char>)| WriteView::SetPatch { yaml_id: entry.0, patch: entry.1 },
    )
}

/// The writes that give YAMLs their passwords.
pub open spec fn password_writes(passwords: Seq<(YamlId, Seq<char>)>) -> Seq<WriteView> {
    passwords.map_values(
        |entry: (YamlId, Seq<char>)| WriteView::SetPassword { yaml_id: entry.0, password: entry.1 },
    )
}

/// The writes that publish a generation, when its patches are gone through in this order.
pub open spec fn publish_writes(
    room_id: RoomId,
    job_id: JobId,
    patches: Seq<(YamlId, Seq<char>)>,
    passwords: Seq<(YamlId, Seq<char>)>,
) -> Seq<WriteView> {
    seq![
        WriteView::UpsertGeneration {
            room_id,
            job_id,
            status: status_name(GenerationStatus::Done),
        },
        WriteView::ClearPatches { room_id },
    ] + patch_writes(patches) + password_writes(passwords)
}

/// Whether the writes publish a generation, in some order of its patches.
pub open spec fn is_publishing(
    writes: Seq<WriteView>,
    room_id: RoomId,
    job_id: JobId,
    patches: Map<YamlId, Seq<char>>,
    passwords: Seq<(YamlId, Seq<char>)>,
) -> bool {
    exists|order: Seq<(YamlId, Seq<char>)>| #[trigger]
        is_listing(order, patches) && writes == publish_writes(room_id, job_id, order, passwords)
}

/// Points a room at an uploaded generation: upserts its generation row, replaces all patch
/// associations, and sets the given slot passwords.
pub fn publish_generation(
    room_id: RoomId,
    job_id: JobId,
    patch_associations: HashMap<YamlId, String>,
    password_updates: Vec<(YamlId, String)>,
) -> (writes: Vec<Write>)
    ensures
        is_publishing(
            writes.deep_view(),
            room_id,
            job_id,
            model::texts(patch_associations@),
            password_updates.deep_view(),
        ),
{
    let mut writes: Vec<Write> = Vec::new();
    writes.push(
        Write::UpsertGeneration(
            NewGeneration {
                room_id,
                job_id,
                status: GenerationStatus::Done.as_str().to_string(),
            },
        ),
    );
    writes.push(Write::ClearPatches { room_id });
    let ghost start = publish_writes(room_id, job_id, seq![], seq![]);
    let ghost mut order: Seq<(YamlId, Seq<char>)> = seq![];
    let ghost patches = model::texts(patch_associations@);
    assert(writes.deep_view() =~= start + patch_writes(order));
    let entries = patch_associations.iter();
    let ghost all = vstd::std_specs::iter::IteratorSpec::remaining(&entries);
    for entry in it: entries
        invariant
            it.seq() == all,
            writes.deep_view() == start + patch_writes(order),
            order.len() == it.index(),
            forall|i: int| 0 <= i < order.len() ==> order[i] == (*all[i].0, (*all[i].1)@),
    {
        let ghost before = writes.deep_view();
        let ghost next = (*entry.0, (*entry.1)@);
        writes.push(Write::SetPatch { yaml_id: *entry.0, patch: entry.1.clone() });
        proof {
            assert(writes.deep_view() =~= before.push(
                WriteView::SetPatch { yaml_id: next.0, patch: next.1 },
            ));
            assert(patch_writes(order.push(next)) =~= patch_writes(order).push(
                WriteView::SetPatch { yaml_id: next.0, patch: next.1 },
            ));
            order = order.push(next);
            assert(writes.deep_view() =~= start + patch_writes(order));
        }
    }
    let mut i: usize = 0;
    let ghost with_patches = writes.deep_view();
    let ghost passwords = password_updates.deep_view();
    assert(with_patches =~= with_patches + password_writes(passwords.take(0)));
    while i < password_updates.len()
        invariant
            i <= password_updates@.len(),
            passwords == password_updates.deep_view(),
            writes.deep_view() == with_patches + password_writes(passwords.take(i as int)),
        decreases password_updates@.len() - i,
    {
        let ghost before = writes.deep_view();
        let (yaml_id, password) = &password_updates[i];
        writes.push(Write::SetPassword { yaml_id: *yaml_id, password: password.clone() });
        proof {
            assert(passwords[i as int] == (*yaml_id, password@));
            assert(writes.deep_view() =~= before.push(
                WriteView::SetPassword { yaml_id: *yaml_id, password: password@ },
            ));
            assert(writes.deep_view() =~= with_patches + password_writes(passwords.take(i + 1)));
        }
        i = i + 1;
    }
    proof {
        assert(passwords.take(password_updates@.len() as int) =~= passwords);
        assert(writes.deep_view() =~= publish_writes(room_id, job_id, order, passwords));
        assert forall|i: int| 0 <= i < order.len() implies patches.contains_key(
            (#[trigger] order[i]).0,
        ) && patches[order[i].0] == order[i].1 by {
            assert(patch_associations@.contains_key(*all[i].0));
        }
        assert forall|i: int, j: int| 0 <= i < j < order.len() implies (#[trigger] order[i]).0 != (
        #[trigger] order[j]).0 by {
            if order[i].0 == order[j].0 {
                assert(patch_associations@[*all[i].0] == *all[i].1);
                assert(patch_associations@[*all[j].0] == *all[j].1);
                assert(all[i] == all[j]);
            }
        }
        assert forall|yaml_id: YamlId| #[trigger]
            patches.contains_key(yaml_id) implies exists|i: int|
            0 <= i < order.len() && (#[trigger] order[i]).0 == yaml_id by {
            assert(patch_associations@.contains_key(yaml_id));
            let i = choose|i: int|
                0 <= i < all.len() && all[i] == (&yaml_id, &patch_associations@[yaml_id]);
            assert(order[i].0 == yaml_id);
        }
        assert(is_listing(order, patches));
    }
    writes
}

/// Points a room at an uploaded generation if the room's generation is still the one that was
/// seen before the upload was processed; `None` where it changed in the meantime. Without
/// passwords to set, the ones that the YAMLs have are left as they are.
pub fn publish_if_unchanged(
    room_id: RoomId,
    job_id: JobId,
    patch_associations: HashMap<YamlId, String>,
    password_updates: Option<Vec<(YamlId, String)>>,
    previous: Option<JobId>,
    current: Option<JobId>,
) -> (r: Option<Vec<Write>>)
    ensures
        r is Some <==> current == previous,
        r matches Some(writes) ==> is_publishing(
            writes.deep_view(),
            room_id,
            job_id,
            model::texts(patch_associations@),
            match password_updates {
                Some(updates) => updates.deep_view(),
                None => Seq::empty(),
            },
        ),
{
    let unchanged = match (previous, current) {
        (Some(previous), Some(current)) => previous == current,
        (None, None) => true,
        _ => false,
    };
    if !unchanged {
        return None;
    }
    let updates = match password_updates {
        Some(updates) => updates,
        None => Vec::new(),
    };
    assert(password_updates is None ==> updates.deep_view() =~= Seq::empty());
    Some(publish_generation(room_id, job_id, patch_associations, updates))
}

/// The writes that delete a room's generation.
pub open spec fn delete_writes(room_id: RoomId) -> Seq<WriteView> {
    seq![WriteView::DeleteGeneration { room_id }, WriteView::ClearPatches { room_id }]
}

/// Takes the generation from a room, and the patches from its YAMLs.
pub fn delete_generation_for_room(room_id: RoomId) -> (writes: Vec<Write>)
    ensures
        writes.deep_view() == delete_writes(room_id),
{
    let mut writes: Vec<Write> = Vec::new();
    writes.push(Write::DeleteGeneration { room_id });
    writes.push(Write::ClearPatches { room_id });
    assert(writes.deep_view() =~= delete_writes(room_id));
    writes
}

/// Gives the generation of a room another status.
pub fn update_generation_status_for_room(
    room_id: RoomId,
    new_status: GenerationStatus,
) -> (writes: Vec<Write>)
    ensures
        writes.deep_view() == seq![
            WriteView::UpdateStatus { room_id, status: status_name(new_status) },
        ],
{
    let mut writes: Vec<Write> = Vec::new();
    writes.push(Write::UpdateStatus { room_id, status: new_status.as_str().to_string() });
    assert(writes.deep_view() =~= seq![
        WriteView::UpdateStatus { room_id, status: status_name(new_status) },
    ]);
    writes
}

// ---------------------------------------------------------------------------
// What the writes come to
// ---------------------------------------------------------------------------

/// Writes in two parts are the first part's, then the second's.
proof fn lemma_apply_in_parts(tables: Tables, first: Seq<WriteView>, second: Seq<WriteView>)
    ensures
        apply_all(tables, first + second) == apply_all(apply_all(tables, first), second),
    decreases second.len(),
{
    if second.len() == 0 {
        assert(first + second =~= first);
    } else {
        assert((first + second).drop_last() =~= first + second.drop_last());
        lemma_apply_in_parts(tables, first, second.drop_last());
    }
}

/// The last of the entries for a YAML.
pub open spec fn last_entry(
    entries: Seq<(YamlId, Seq<char>)>,
    yaml_id: YamlId,
) -> Option<Seq<char>>
    decreases entries.len(),
{
    if entries.len() == 0 {
        None
    } else if entries.last().0 == yaml_id {
        Some(entries.last().1)
    } else {
        last_entry(entries.drop_last(), yaml_id)
    }
}

/// The tables with the row of each YAML that has an entry changed by its last.
pub open spec fn with_entries(
    tables: Tables,
    entries: Seq<(YamlId, Seq<char>)>,
    set: spec_fn(YamlRow, Seq<char>) -> YamlRow,
) -> Tables {
    Tables {
        yamls: Map::new(
            |yaml_id: YamlId| tables.yamls.contains_key(yaml_id),
            |yaml_id: YamlId|
                match last_entry(entries, yaml_id) {
                    Some(text) => set(tables.yamls[yaml_id], text),
                    None => tables.yamls[yaml_id],
                },
        ),
        ..tables
    }
}

/// Writes that each change the row of a YAML, one for each entry, come to the last entries.
proof fn lemma_entry_writes(
    tables: Tables,
    entries: Seq<(YamlId, Seq<char>)>,
    writes: Seq<WriteView>,
    set: spec_fn(YamlRow, Seq<char>) -> YamlRow,
)
    requires
        writes.len() == entries.len(),
        forall|t: Tables, i: int|
            0 <= i < entries.len() ==> #[trigger] apply(t, writes[i]) == with_yaml(
                t,
                entries[i].0,
                set(t.yamls[entries[i].0], entries[i].1),
            ),
        forall|row: YamlRow, first: Seq<char>, second: Seq<char>| #[trigger]
            set(set(row, first), second) == set(row, second),
    ensures
        apply_all(tables, writes) == with_entries(tables, entries, set),
    decreases entries.len(),
{
    if entries.len() > 0 {
        let last = entries.len() - 1;
        assert forall|t: Tables, i: int| 0 <= i < last implies #[trigger] apply(
            t,
            writes.drop_last()[i],
        ) == with_yaml(
            t,
            entries.drop_last()[i].0,
            set(t.yamls[entries.drop_last()[i].0], entries.drop_last()[i].1),
        ) by {
            assert(writes.drop_last()[i] == writes[i]);
            assert(entries.drop_last()[i] == entries[i]);
        }
        lemma_entry_writes(tables, entries.drop_last(), writes.drop_last(), set);
        let before = apply_all(tables, writes.drop_last());
        assert(apply(before, writes[last]) == with_yaml(
            before,
            entries[last].0,
            set(before.yamls[entries[last].0], entries[last].1),
        ));
    }
    assert(apply_all(tables, writes).yamls =~= with_entries(tables, entries, set).yamls);
}

/// A listing has the entry of the map as its last, and only, entry for each YAML.
proof fn lemma_last_of_listing(
    order: Seq<(YamlId, Seq<char>)>,
    map: Map<YamlId, Seq<char>>,
    yaml_id: YamlId,
)
    requires
        is_listing(order, map),
    ensures
        last_entry(order, yaml_id) == (if map.contains_key(yaml_id) {
            Some(map[yaml_id])
        } else {
            None
        }),
    decreases order.len(),
{
    if order.len() == 0 {
        if map.contains_key(yaml_id) {
            let i = choose|i: int| 0 <= i < order.len() && (#[trigger] order[i]).0 == yaml_id;
        }
    } else {
        let last = order.last();
        assert(order[order.len() - 1] == last);
        if last.0 != yaml_id {
            let rest = order.drop_last();
            let map_rest = map.remove(last.0);
            assert forall|id: YamlId| #[trigger] map_rest.contains_key(id) implies exists|i: int|
                0 <= i < rest.len() && (#[trigger] rest[i]).0 == id by {
                assert(map.contains_key(id));
                let i = choose|i: int| 0 <= i < order.len() && (#[trigger] order[i]).0 == id;
                assert(rest[i].0 == id);
            }
            lemma_last_of_listing(rest, map_rest, yaml_id);
        }
    }
}

/// Publishing a generation is never refused. It gives the room that generation, done, and leaves every other room's
/// as it is. A YAML has the patch that is associated with it; one of the room that has none
/// associated loses the patch it had. A YAML has the password that was set for it, else the
/// one it had.
pub proof fn law_publishing(
    tables: Tables,
    writes: Seq<WriteView>,
    room_id: RoomId,
    job_id: JobId,
    patches: Map<YamlId, Seq<char>>,
    passwords: Seq<(YamlId, Seq<char>)>,
)
    requires
        is_publishing(writes, room_id, job_id, patches, passwords),
    ensures
        transact(tables, writes) == Some(apply_all(tables, writes)),
        apply_all(tables, writes).generations == tables.generations.insert(
            room_id,
            GenerationRow { job_id, status: status_name(GenerationStatus::Done) },
        ),
        apply_all(tables, writes).yamls.dom() == tables.yamls.dom(),
        forall|yaml_id: YamlId| #[trigger]
            tables.yamls.contains_key(yaml_id) ==> apply_all(tables, writes).yamls[yaml_id] == (
            YamlRow {
                room_id: tables.yamls[yaml_id].room_id,
                patch: if patches.contains_key(yaml_id) {
                    Some(patches[yaml_id])
                } else if tables.yamls[yaml_id].room_id == room_id {
                    None
                } else {
                    tables.yamls[yaml_id].patch
                },
                password: match last_entry(passwords, yaml_id) {
                    Some(password) => Some(password),
                    None => tables.yamls[yaml_id].password,
                },
            }),
{
    let order = choose|order: Seq<(YamlId, Seq<char>)>| #[trigger]
        is_listing(order, patches) && writes == publish_writes(room_id, job_id, order, passwords);
    let upsert = WriteView::UpsertGeneration {
        room_id,
        job_id,
        status: status_name(GenerationStatus::Done),
    };
    let clear = WriteView::ClearPatches { room_id };
    let head = seq![upsert, clear];
    let cleared = apply_all(tables, head);
    assert(cleared == apply(apply(tables, upsert), clear)) by {
        assert(head.drop_last() =~= seq![upsert]);
        assert(seq![upsert].drop_last() =~= seq![]);
        reveal_with_fuel(apply_all, 3);
    }
    lemma_apply_in_parts(tables, head, patch_writes(order));
    lemma_apply_in_parts(tables, head + patch_writes(order), password_writes(passwords));
    lemma_entry_writes(
        cleared,
        order,
        patch_writes(order),
        |row: YamlRow, patch: Seq<char>| YamlRow { patch: Some(patch), ..row },
    );
    lemma_entry_writes(
        apply_all(cleared, patch_writes(order)),
        passwords,
        password_writes(passwords),
        |row: YamlRow, password: Seq<char>| YamlRow { password: Some(password), ..row },
    );
    law_only_inserts_are_refused(tables, writes);
    let after = apply_all(tables, writes);
    assert(after.yamls.dom() =~= tables.yamls.dom());
    assert forall|yaml_id: YamlId| #[trigger]
        tables.yamls.contains_key(yaml_id) implies after.yamls[yaml_id] == (YamlRow {
        room_id: tables.yamls[yaml_id].room_id,
        patch: if patches.contains_key(yaml_id) {
            Some(patches[yaml_id])
        } else if tables.yamls[yaml_id].room_id == room_id {
            None
        } else {
            tables.yamls[yaml_id].patch
        },
        password: match last_entry(passwords, yaml_id) {
            Some(password) => Some(password),
            None => tables.yamls[yaml_id].password,
        },
    }) by {
        lemma_last_of_listing(order, patches, yaml_id);
        assert(cleared.yamls.contains_key(yaml_id));
    }
}

/// Publishing without passwords to set leaves every password as it is.
pub proof fn law_publishing_without_passwords(
    tables: Tables,
    writes: Seq<WriteView>,
    room_id: RoomId,
    job_id: JobId,
    patches: Map<YamlId, Seq<char>>,
)
    requires
        is_publishing(writes, room_id, job_id, patches, Seq::empty()),
    ensures
        forall|yaml_id: YamlId| #[trigger]
            tables.yamls.contains_key(yaml_id) ==> apply_all(tables, writes).yamls[yaml_id].password
                == tables.yamls[yaml_id].password,
{
    law_publishing(tables, writes, room_id, job_id, patches, Seq::empty());
}

/// Deleting a room's generation leaves the room without one and its YAMLs without patches, and
/// nothing else changed.
pub proof fn law_deleting(tables: Tables, room_id: RoomId)
    ensures
        ({
            let after = apply_all(tables, delete_writes(room_id));
            &&& after.generations == tables.generations.remove(room_id)
            &&& after.yamls.dom() == tables.yamls.dom()
            &&& forall|yaml_id: YamlId| #[trigger]
                tables.yamls.contains_key(yaml_id) ==> after.yamls[yaml_id] == (YamlRow {
                    patch: if tables.yamls[yaml_id].room_id == room_id {
                        None
                    } else {
                        tables.yamls[yaml_id].patch
                    },
                    ..tables.yamls[yaml_id]
                })
        }),
{
    let delete = WriteView::DeleteGeneration { room_id };
    let clear = WriteView::ClearPatches { room_id };
    let writes = seq![delete, clear];
    assert(writes.drop_last() =~= seq![delete]);
    assert(seq![delete].drop_last() =~= seq![]);
    reveal_with_fuel(apply_all, 3);
    let after = apply_all(tables, writes);
    assert(after.yamls.dom() =~= tables.yamls.dom());
}

/// Writes that insert no generation are never refused, whether or not the rows are there that
/// they speak of.
pub proof fn law_only_inserts_are_refused(tables: Tables, writes: Seq<WriteView>)
    requires
        forall|i: int| 0 <= i < writes.len() ==> !(#[trigger] writes[i] is InsertGeneration),
    ensures
        transact(tables, writes) == Some(apply_all(tables, writes)),
    decreases writes.len(),
{
    if writes.len() > 0 {
        assert(writes[writes.len() - 1] == writes.last());
        assert forall|i: int| 0 <= i < writes.drop_last().len() implies !(
        #[trigger] writes.drop_last()[i] is InsertGeneration) by {
            assert(writes.drop_last()[i] == writes[i]);
        }
        law_only_inserts_are_refused(tables, writes.drop_last());
    }
}

/// Starting a generation is refused exactly where the room has one.
pub proof fn law_starting_is_refused_where_there_is_one(
    tables: Tables,
    room_id: RoomId,
    job_id: JobId,
    status: Seq<char>,
)
    ensures
        ({
            let insert = WriteView::InsertGeneration { room_id, job_id, status };
            transact(tables, seq![insert]) == (if has_generation(tables, room_id) {
                None
            } else {
                Some(apply(tables, insert))
            })
        }),
{
    let insert = WriteView::InsertGeneration { room_id, job_id, status };
    assert(seq![insert].drop_last() =~= seq![]);
    reveal_with_fuel(transact, 2);
}

/// Deleting a room's generation is never refused, be there one or not. Once it was deleted,
/// deleting it again changes nothing, and neither does deleting where the room has no generation
/// and its YAMLs no patches.
pub proof fn law_deleting_again_changes_nothing(tables: Tables, room_id: RoomId)
    ensures
        transact(tables, delete_writes(room_id)) is Some,
        ({
            let once = transact(tables, delete_writes(room_id))->0;
            transact(once, delete_writes(room_id)) == Some(once)
        }),
        !has_generation(tables, room_id) && (forall|yaml_id: YamlId|
            tables.yamls.contains_key(yaml_id) && (#[trigger] tables.yamls[yaml_id]).room_id
                == room_id ==> tables.yamls[yaml_id].patch is None) ==> transact(
            tables,
            delete_writes(room_id),
        ) == Some(tables),
{
    law_only_inserts_are_refused(tables, delete_writes(room_id));
    law_deleting(tables, room_id);
    let once = apply_all(tables, delete_writes(room_id));
    law_only_inserts_are_refused(once, delete_writes(room_id));
    law_deleting(once, room_id);
    let twice = apply_all(once, delete_writes(room_id));
    assert(twice.generations =~= once.generations);
    assert forall|yaml_id: YamlId| #[trigger] once.yamls.contains_key(yaml_id) implies
        twice.yamls[yaml_id] == once.yamls[yaml_id] by {
        assert(tables.yamls.contains_key(yaml_id));
    }
    assert(twice.yamls =~= once.yamls);
    if !has_generation(tables, room_id) && (forall|yaml_id: YamlId|
        tables.yamls.contains_key(yaml_id) && (#[trigger] tables.yamls[yaml_id]).room_id == room_id
            ==> tables.yamls[yaml_id].patch is None) {
        assert(once.generations =~= tables.generations);
        assert forall|yaml_id: YamlId| #[trigger] tables.yamls.contains_key(yaml_id) implies
            once.yamls[yaml_id] == tables.yamls[yaml_id] by {}
        assert(once.yamls =~= tables.yamls);
    }
}

/// A generation that was started is pending; once it has another status, that is its status;
/// and once it is deleted the room has none, as before.
pub proof fn law_generation_life(
    tables: Tables,
    room_id: RoomId,
    job_id: JobId,
    status: GenerationStatus,
)
    requires
        !has_generation(tables, room_id),
    ensures
        ({
            let started = apply(
                tables,
                WriteView::InsertGeneration {
                    room_id,
                    job_id,
                    status: status_name(GenerationStatus::Pending),
                },
            );
            let updated = apply(
                started,
                WriteView::UpdateStatus { room_id, status: status_name(status) },
            );
            let deleted = apply(updated, WriteView::DeleteGeneration { room_id });
            &&& started.generations[room_id] == (GenerationRow {
                job_id,
                status: status_name(GenerationStatus::Pending),
            })
            &&& updated.generations[room_id] == (GenerationRow {
                job_id,
                status: status_name(status),
            })
            &&& deleted == tables
        }),
{
    let started = apply(
        tables,
        WriteView::InsertGeneration {
            room_id,
            job_id,
            status: status_name(GenerationStatus::Pending),
        },
    );
    let updated = apply(
        started,
        WriteView::UpdateStatus { room_id, status: status_name(status) },
    );
    let deleted = apply(updated, WriteView::DeleteGeneration { room_id });
    assert(deleted.generations =~= tables.generations);
}

} // verus!
