//! What reading zips and checking uploads gives.

use crate::api::{bad_request, ApiError, Status, UploadFailure};
use crate::archive;
use crate::archive::Archive;
use crate::laws::checks;
use crate::laws::served;
use crate::model;
use crate::model::{
    ExpectedSlot, ExpectedSlotView, GenerationFile, GenerationFileView, GenerationMismatch,
    PatchManifest, SlotPassword, SlotPasswordView, ValidatedGeneration, ValidatedGenerationView,
};
use crate::outputs;
use crate::patch_name;
use crate::reading;
use crate::reading::{read_generation, read_patch_manifest, slot_outputs, validate_generation};
use crate::text;
use crate::upload;
use crate::upload::{bundled_passwords, check_upload};
use crate::validate;
use std::collections::HashMap;
use vstd::prelude::*;

verus! {

// ---------------------------------------------------------------------------
// Refusals
// ---------------------------------------------------------------------------

/// A bad request is refused as such, with the message it is given.
pub proof fn law_bad_requests(message: String, r: ApiError)
    requires
        call_ensures(bad_request, (message,), r),
    ensures
        r.error@ == message@,
        r.status == Status::BadRequest,
{
}

/// Mismatches are told one per line: one more stands on a line of its own, behind the others.
pub proof fn law_mismatches_stand_on_lines(
    before: GenerationMismatch,
    after: GenerationMismatch,
    shorter: String,
    longer: String,
)
    requires
        call_ensures(GenerationMismatch::to_text, (&before,), shorter),
        call_ensures(GenerationMismatch::to_text, (&after,), longer),
        after.0@.len() == before.0@.len() + 1,
        forall|i: int| 0 <= i < before.0@.len() ==> after.0@[i]@ == #[trigger] before.0@[i]@,
    ensures
        before.0@.len() == 0 ==> shorter@ == Seq::<char>::empty() && longer@ == after.0@[0]@,
        before.0@.len() > 0 ==> longer@ == shorter@ + "\n"@ + after.0@[before.0@.len() as int]@,
{
    assert(after.0.deep_view().drop_last() =~= before.0.deep_view());
    assert(after.0.deep_view().last() == after.0@[before.0@.len() as int]@);
}

/// Whether an upload is refused as a bad request, with this message.
pub open spec fn is_bad_request(failure: UploadFailure, message: Seq<char>) -> bool {
    failure matches UploadFailure::Refused(error) && error.status == Status::BadRequest
        && error.error@ == message
}

// ---------------------------------------------------------------------------
// Reading
// ---------------------------------------------------------------------------

/// Whether `manifest` is what `parse` may find in the entry of this name: the entry is a zip, and
/// the text of its `archipelago.json` is what `parse` is given. There is no manifest where one
/// of these cannot be read.
pub open spec fn is_manifest_of<F: Fn(String) -> Option<PatchManifest>>(
    parse: F,
    source: Seq<u8>,
    name: Seq<char>,
    manifest: Option<PatchManifest>,
) -> bool {
    let container = archive::zip_bytes(source, name);
    if container is Some && archive::zip_failure(container->0) is None && archive::zip_text(
        container->0,
        "archipelago.json"@,
    ) is Ok {
        exists|argument: String|
            argument@ == archive::zip_text(container->0, "archipelago.json"@)->Ok_0
                && #[trigger] call_ensures(parse, (argument,), manifest)
    } else {
        manifest is None
    }
}

/// The manifest of an entry is what is found in the zip that the entry is. Reading it leaves the
/// archive as it was.
pub proof fn law_manifests_are_read<F: Fn(String) -> Option<PatchManifest>>(
    archive: &mut Archive,
    name: &str,
    parse: &F,
    r: Option<PatchManifest>,
)
    requires
        call_ensures(read_patch_manifest::<F>, (archive, name, parse), r),
    ensures
        is_manifest_of(*parse, archive::archive_source(*old(archive)), name@, r),
        archive::archive_source(*final(archive)) == archive::archive_source(*old(archive)),
{
    lemma_manifest(*parse, archive::archive_source(*archive), name@, r);
}

proof fn lemma_manifest<F: Fn(String) -> Option<PatchManifest>>(
    parse: F,
    source: Seq<u8>,
    name: Seq<char>,
    manifest: Option<PatchManifest>,
)
    ensures
        reading::is_manifest_read(parse, source, name, manifest) <==> is_manifest_of(
            parse,
            source,
            name,
            manifest,
        ),
{
    if let Some(text) = reading::manifest_text(source, name) {
        if reading::may_give(parse, text, manifest) {
            let argument = choose|argument: String|
                argument@ == text && #[trigger] call_ensures(parse, (argument,), manifest);
            assert(call_ensures(parse, (argument,), manifest));
        }
        if is_manifest_of(parse, source, name, manifest) {
            let argument = choose|argument: String|
                argument@ == text && #[trigger] call_ensures(parse, (argument,), manifest);
            assert(call_ensures(parse, (argument,), manifest));
        }
    }
}

/// The names in a zip that do not end as directories do.
pub open spec fn names_of_files(source: Seq<u8>) -> Seq<Seq<char>> {
    archive::zip_names(source).filter(|name: Seq<char>| !(name.len() > 0 && name.last() == '/'))
}

proof fn lemma_names_of_files(source: Seq<u8>)
    ensures
        reading::file_names(source) == names_of_files(source),
{
    let a = |name: Seq<char>| reading::is_file(name);
    let b = |name: Seq<char>| !(name.len() > 0 && name.last() == '/');
    reveal_strlit("/");
    assert forall|name: Seq<char>| #[trigger] a(name) == b(name) by {
        if name.len() > 0 {
            let end = name.subrange(name.len() - 1, name.len() as int);
            assert(end[0] == name.last());
            assert("/"@[0] == '/');
            if name.last() == '/' {
                assert(end =~= "/"@);
            }
        }
    }
    assert(a =~= b);
}

/// Whether `files` is what may be read of a zip: each entry that is no directory, in order, under
/// its name, and with its manifest where the name is that of an output file.
pub open spec fn is_read_from<F: Fn(String) -> Option<PatchManifest>>(
    parse: F,
    source: Seq<u8>,
    files: Seq<GenerationFileView>,
) -> bool {
    &&& files.len() == names_of_files(source).len()
    &&& forall|i: int|
        0 <= i < files.len() ==> (#[trigger] files[i]).name == names_of_files(source)[i]
    &&& forall|i: int|
        0 <= i < files.len() ==> if patch_name::patch_name((#[trigger] files[i]).name) is None {
            files[i].manifest is None
        } else {
            exists|manifest: Option<PatchManifest>|
                manifest.deep_view() == files[i].manifest && #[trigger] is_manifest_of(
                    parse,
                    source,
                    files[i].name,
                    manifest,
                )
        }
}

proof fn lemma_read<F: Fn(String) -> Option<PatchManifest>>(
    parse: F,
    source: Seq<u8>,
    files: Seq<GenerationFileView>,
)
    requires
        reading::is_generation_read(parse, source, files),
    ensures
        is_read_from(parse, source, files),
{
    lemma_names_of_files(source);
    let name_of = |file: GenerationFileView| file.name;
    assert(files.map_values(name_of).len() == files.len());
    assert forall|i: int| 0 <= i < files.len() implies (#[trigger] files[i]).name
        == names_of_files(source)[i] by {
        assert(files.map_values(name_of)[i] == files[i].name);
    }
    assert forall|i: int| 0 <= i < files.len() implies if patch_name::patch_name(
        (#[trigger] files[i]).name,
    ) is None {
        files[i].manifest is None
    } else {
        exists|manifest: Option<PatchManifest>|
            manifest.deep_view() == files[i].manifest && #[trigger] is_manifest_of(
                parse,
                source,
                files[i].name,
                manifest,
            )
    } by {
        assert(reading::is_file_read(parse, source, files[i]));
        if patch_name::patch_name(files[i].name) is Some {
            let manifest = choose|manifest: Option<PatchManifest>|
                manifest.deep_view() == files[i].manifest && #[trigger] reading::is_manifest_read(
                    parse,
                    source,
                    files[i].name,
                    manifest,
                );
            lemma_manifest(parse, source, files[i].name, manifest);
            assert(is_manifest_of(parse, source, files[i].name, manifest));
        }
    }
}

/// What is read of a zip are its entries that are no directories.
pub proof fn law_zips_are_read<F: Fn(String) -> Option<PatchManifest>>(
    archive: &mut Archive,
    parse: &F,
    files: Vec<GenerationFile>,
)
    requires
        call_ensures(read_generation::<F>, (archive, parse), files),
    ensures
        is_read_from(*parse, archive::archive_source(*old(archive)), files.deep_view()),
        archive::archive_source(*final(archive)) == archive::archive_source(*old(archive)),
{
    lemma_read(*parse, archive::archive_source(*archive), files.deep_view());
}

/// Whether `verdict` is the verdict on what was read of a zip, with these passwords: the format
/// version is the byte that the only multidata file starts with.
pub open spec fn is_verdict_on(
    source: Seq<u8>,
    files: Seq<GenerationFileView>,
    passwords: Option<Seq<SlotPasswordView>>,
    expected: Seq<ExpectedSlotView>,
    verdict: Result<ValidatedGenerationView, Seq<Seq<char>>>,
) -> bool {
    exists|version: Option<u8>| #[trigger]
        validate::verdict(files, version, passwords, expected) == verdict && forall|m: int|
            #[trigger] checks::is_only_multidata(files, m) ==> version == archive::zip_first_byte(
            source,
            files[m].name,
        )
}

proof fn lemma_verdict_on(
    source: Seq<u8>,
    files: Seq<GenerationFileView>,
    passwords: Option<Seq<SlotPasswordView>>,
    expected: Seq<ExpectedSlotView>,
)
    ensures
        is_verdict_on(
            source,
            files,
            passwords,
            expected,
            reading::archive_verdict(source, files, passwords, expected),
        ),
{
    checks::lemma_counted(files);
    let version = reading::version_read(source, validate::multidata_names(files));
    let verdict = validate::verdict(files, version, passwords, expected);
    assert(validate::verdict(files, version, passwords, expected) == verdict);
}

/// Validating a zip gives the verdict on what is read of it, with the given passwords, and leaves
/// the archive as it was.
pub proof fn law_zips_are_validated<F: Fn(String) -> Option<PatchManifest>>(
    archive: &mut Archive,
    parse: &F,
    passwords: Option<&[SlotPassword]>,
    expected: &[ExpectedSlot],
    r: Result<ValidatedGeneration, GenerationMismatch>,
)
    requires
        call_ensures(validate_generation::<F>, (archive, parse, passwords, expected), r),
    ensures
        archive::archive_source(*final(archive)) == archive::archive_source(*old(archive)),
        exists|
            files: Seq<GenerationFileView>,
            verdict: Result<ValidatedGenerationView, Seq<Seq<char>>>,
        |
            is_read_from(*parse, archive::archive_source(*old(archive)), files)
                && #[trigger] is_verdict_on(
                archive::archive_source(*old(archive)),
                files,
                passwords.deep_view(),
                expected.deep_view(),
                verdict,
            ) && match (r, verdict) {
                (Ok(given), Ok(verdict)) => checks::shows(given, verdict),
                (Err(given), Err(errors)) => given.0.deep_view() == errors,
                _ => false,
            },
{
    let source = archive::archive_source(*archive);
    let files = choose|files: Seq<GenerationFileView>| #[trigger]
        reading::is_generation_read(*parse, source, files) && match r {
            Ok(validated) => reading::archive_verdict(
                source,
                files,
                passwords.deep_view(),
                expected.deep_view(),
            ) == Ok::<ValidatedGenerationView, Seq<Seq<char>>>(validated.deep_view()),
            Err(mismatch) => reading::archive_verdict(
                source,
                files,
                passwords.deep_view(),
                expected.deep_view(),
            ) == Err::<ValidatedGenerationView, Seq<Seq<char>>>(mismatch.0.deep_view()),
        };
    lemma_read(*parse, source, files);
    lemma_verdict_on(source, files, passwords.deep_view(), expected.deep_view());
    let verdict = reading::archive_verdict(
        source,
        files,
        passwords.deep_view(),
        expected.deep_view(),
    );
    if let Ok(given) = r {
        checks::law_results_show_their_fields(given);
    }
    assert(is_verdict_on(source, files, passwords.deep_view(), expected.deep_view(), verdict));
}

/// The outputs of a zip: a slot has one exactly where an entry that is no directory is named as
/// an output for it, and it is the first AP container for the slot, or the first file where there
/// is no container. The archive is left as it was.
pub proof fn law_zips_have_their_outputs_served<F: Fn(String) -> Option<PatchManifest>>(
    archive: &mut Archive,
    parse: &F,
    r: HashMap<usize, String>,
    slot: usize,
)
    requires
        call_ensures(slot_outputs::<F>, (archive, parse), r),
    ensures
        archive::archive_source(*final(archive)) == archive::archive_source(*old(archive)),
        r@.contains_key(slot) <==> exists|i: int|
            0 <= i < names_of_files(archive::archive_source(*old(archive))).len() && (
            patch_name::patch_name(
                #[trigger] names_of_files(archive::archive_source(*old(archive)))[i],
            ) matches Some(parts) && text::digits_value(parts.slot) == slot),
        r@.contains_key(slot) ==> exists|files: Seq<GenerationFileView>, k: int|
            is_read_from(*parse, archive::archive_source(*old(archive)), files)
                && #[trigger] served::is_served(files, slot as int, k) && r@[slot]@
                == files[k].name,
{
    let source = archive::archive_source(*archive);
    let files = choose|files: Seq<GenerationFileView>| #[trigger]
        reading::is_generation_read(*parse, source, files) && model::texts(r@)
            == outputs::preferred_names(outputs::named_candidates(files));
    lemma_read(*parse, source, files);
    served::lemma_served(files, slot);
    let served = outputs::preferred_names(outputs::named_candidates(files));
    assert(served.contains_key(slot) <==> r@.contains_key(slot));
    if r@.contains_key(slot) {
        assert(served[slot] == r@[slot]@);
        let i = choose|i: int|
            0 <= i < files.len() && served::is_for(#[trigger] files[i], slot as int);
        assert(names_of_files(source)[i] == files[i].name);
    }
    if exists|i: int|
        0 <= i < names_of_files(source).len() && (patch_name::patch_name(
            #[trigger] names_of_files(source)[i],
        ) matches Some(parts) && text::digits_value(parts.slot) == slot) {
        let i = choose|i: int|
            0 <= i < names_of_files(source).len() && (patch_name::patch_name(
                #[trigger] names_of_files(source)[i],
            ) matches Some(parts) && text::digits_value(parts.slot) == slot);
        assert(files[i].name == names_of_files(source)[i]);
        assert(served::is_for(files[i], slot as int));
    }
}

// ---------------------------------------------------------------------------
// Passwords in the zip
// ---------------------------------------------------------------------------

/// Whether the entry at `i` is the first in the zip that is named as a passwords file.
pub open spec fn is_first_passwords_file(source: Seq<u8>, i: int) -> bool {
    &&& 0 <= i < archive::zip_names(source).len()
    &&& "_slot_passwords.json"@.is_suffix_of(archive::zip_names(source)[i])
    &&& forall|j: int|
        0 <= j < i ==> !"_slot_passwords.json"@.is_suffix_of(
            #[trigger] archive::zip_names(source)[j],
        )
}

proof fn lemma_first_passwords_file(names: Seq<Seq<char>>)
    ensures
        ({
            let found = upload::passwords_files(names);
            &&& found.len() == 0 <==> forall|i: int|
                0 <= i < names.len() ==> !"_slot_passwords.json"@.is_suffix_of(#[trigger] names[i])
            &&& forall|i: int|
                0 <= i < names.len() && "_slot_passwords.json"@.is_suffix_of(#[trigger] names[i])
                    && (forall|j: int|
                    0 <= j < i ==> !"_slot_passwords.json"@.is_suffix_of(#[trigger] names[j]))
                    ==> found.len() > 0 && found[0] == names[i]
            &&& found.len() > 0 ==> exists|i: int|
                0 <= i < names.len() && "_slot_passwords.json"@.is_suffix_of(#[trigger] names[i])
                    && (forall|j: int|
                    0 <= j < i ==> !"_slot_passwords.json"@.is_suffix_of(#[trigger] names[j]))
        }),
    decreases names.len(),
{
    reveal(Seq::filter);
    let wanted = |name: Seq<char>| "_slot_passwords.json"@.is_suffix_of(name);
    if names.len() > 0 {
        let rest = names.drop_last();
        let last = names.len() - 1;
        lemma_first_passwords_file(rest);
        let before = upload::passwords_files(rest);
        let found = upload::passwords_files(names);
        assert(found == (if wanted(names.last()) {
            before.push(names.last())
        } else {
            before
        }));
        assert forall|i: int| 0 <= i < last implies rest[i] == #[trigger] names[i] by {}
        if before.len() > 0 {
            let i = choose|i: int|
                0 <= i < rest.len() && "_slot_passwords.json"@.is_suffix_of(#[trigger] rest[i])
                    && (forall|j: int|
                    0 <= j < i ==> !"_slot_passwords.json"@.is_suffix_of(#[trigger] rest[j]));
            assert(names[i] == rest[i]);
            assert forall|j: int| 0 <= j < i implies !"_slot_passwords.json"@.is_suffix_of(
                #[trigger] names[j],
            ) by {
                assert(rest[j] == names[j]);
            }
            assert(found[0] == before[0]);
            assert(before[0] == rest[i]);
            assert forall|k: int|
                0 <= k < names.len() && "_slot_passwords.json"@.is_suffix_of(#[trigger] names[k])
                    && (forall|j: int|
                    0 <= j < k ==> !"_slot_passwords.json"@.is_suffix_of(#[trigger] names[j]))
                    implies found[0] == names[k] by {
                if i < k {
                    assert("_slot_passwords.json"@.is_suffix_of(names[i]));
                }
                if k < i {
                    assert(!"_slot_passwords.json"@.is_suffix_of(names[k]));
                }
            }
        } else {
            assert forall|i: int| 0 <= i < last implies !"_slot_passwords.json"@.is_suffix_of(
                #[trigger] names[i],
            ) by {
                assert(rest[i] == names[i]);
            }
            assert(names[last] == names.last());
        }
    }
}

/// The passwords in a zip are those in the first entry that is named as a passwords file,
/// whichever number it has: none where no entry is; refused where they cannot be parsed, with
/// the name of the entry; and a failure where the entry cannot be read. The archive is left as
/// it was.
pub proof fn law_bundled_passwords_are_found<
    G: Fn(String) -> Result<Vec<SlotPassword>, String>,
>(
    archive: &mut Archive,
    parse: &G,
    r: Result<Option<Vec<SlotPassword>>, UploadFailure>,
)
    requires
        call_ensures(bundled_passwords::<G>, (archive, parse), r),
    ensures
        archive::archive_source(*final(archive)) == archive::archive_source(*old(archive)),
        is_found_in(*parse, archive::archive_source(*old(archive)), r),
{
    let source = archive::archive_source(*archive);
    lemma_found_in(*parse, source, upload::passwords_view(r));
    let view = upload::passwords_view(r);
    let names = archive::zip_names(source);
    if exists|i: int| is_first_passwords_file(source, i) {
        let i = choose|i: int| is_first_passwords_file(source, i);
        if let Ok(contents) = archive::zip_text(source, names[i]) {
            let parsed = choose|parsed: Result<Vec<SlotPassword>, String>| #[trigger]
                reading::may_give(*parse, contents, parsed) && view == upload::bundled_outcome(
                    names[i],
                    parsed,
                );
            let argument = choose|argument: String|
                argument@ == contents && #[trigger] call_ensures(*parse, (argument,), parsed);
            assert(call_ensures(*parse, (argument,), parsed));
        }
    }
}

/// Whether `r` is what may come of looking for passwords in a zip.
pub open spec fn is_found_in<G: Fn(String) -> Result<Vec<SlotPassword>, String>>(
    parse: G,
    source: Seq<u8>,
    r: Result<Option<Vec<SlotPassword>>, UploadFailure>,
) -> bool {
    &&& (forall|i: int|
        0 <= i < archive::zip_names(source).len() ==> !"_slot_passwords.json"@.is_suffix_of(
            #[trigger] archive::zip_names(source)[i],
        )) ==> (r matches Ok(none) && none is None)
    &&& forall|i: int| #[trigger]
        is_first_passwords_file(source, i) ==> {
            let name = archive::zip_names(source)[i];
            match archive::zip_text(source, name) {
                Err(message) => r matches Err(UploadFailure::Broken(broken)) && broken@ == message,
                Ok(contents) => exists|argument: String, parsed: Result<Vec<SlotPassword>, String>|
                    argument@ == contents && #[trigger] call_ensures(parse, (argument,), parsed)
                        && match (parsed, r) {
                        (Ok(list), Ok(Some(given))) => given.deep_view() == list.deep_view(),
                        (Err(error), Err(failure)) => is_bad_request(
                            failure,
                            "Couldn't parse "@ + name + " from the zip: "@ + error@,
                        ),
                        _ => false,
                    },
            }
        }
}

proof fn lemma_found_in<G: Fn(String) -> Result<Vec<SlotPassword>, String>>(
    parse: G,
    source: Seq<u8>,
    view: Result<Option<Seq<SlotPasswordView>>, crate::api::UploadFailureView>,
)
    requires
        upload::is_bundled_read(parse, source, view),
    ensures
        (forall|i: int|
            0 <= i < archive::zip_names(source).len() ==> !"_slot_passwords.json"@.is_suffix_of(
                #[trigger] archive::zip_names(source)[i],
            )) ==> view == Ok::<
            Option<Seq<SlotPasswordView>>,
            crate::api::UploadFailureView,
        >(None),
        forall|i: int| #[trigger]
            is_first_passwords_file(source, i) ==> upload::bundled_name(source) == Some(
                archive::zip_names(source)[i],
            ),
{
    lemma_first_passwords_file(archive::zip_names(source));
}

// ---------------------------------------------------------------------------
// Uploads
// ---------------------------------------------------------------------------

/// Whether `r` is what comes of an upload that the verdict is on: what it says where it accepts,
/// and where it does not, a refusal with all that is wrong, one thing per line.
pub open spec fn comes_of(
    verdict: Result<ValidatedGenerationView, Seq<Seq<char>>>,
    r: Result<ValidatedGeneration, UploadFailure>,
) -> bool {
    match (verdict, r) {
        (Ok(verdict), Ok(given)) => checks::shows(given, verdict),
        (Err(errors), Err(failure)) => is_bad_request(
            failure,
            "This generation doesn't match the room:\n"@ + text::joined(errors, "\n"@),
        ),
        _ => false,
    }
}

proof fn lemma_comes_of(
    verdict: Result<ValidatedGenerationView, Seq<Seq<char>>>,
    r: Result<ValidatedGeneration, UploadFailure>,
)
    requires
        upload::checked_view(r) == upload::checked_outcome(verdict),
    ensures
        comes_of(verdict, r),
{
    if let Ok(given) = r {
        checks::law_results_show_their_fields(given);
    }
}

/// What cannot be opened as a zip is refused as a bad request that says why.
pub proof fn law_only_zips_are_checked<
    F: Fn(String) -> Option<PatchManifest>,
    G: Fn(String) -> Result<Vec<SlotPassword>, String>,
>(
    zip: Vec<u8>,
    passwords: Option<Vec<SlotPassword>>,
    expected: &[ExpectedSlot],
    parse_manifest: &F,
    parse_passwords: &G,
    r: Result<ValidatedGeneration, UploadFailure>,
)
    requires
        call_ensures(
            check_upload::<F, G>,
            (zip, passwords, expected, parse_manifest, parse_passwords),
            r,
        ),
        archive::zip_failure(zip@) is Some,
    ensures
        r matches Err(failure) && is_bad_request(
            failure,
            "Uploaded file is not a valid zip: "@ + archive::zip_failure(zip@)->0,
        ),
{
}

/// Passwords that are given next to a zip are the ones that count, whatever the room and whatever
/// the zip bundles: what comes of the upload is the verdict on the zip with exactly these. Where
/// it is accepted, one password is set for each given entry: the entry's, for the YAML of the
/// entry's slot.
pub proof fn law_given_passwords_are_the_ones_that_count<
    F: Fn(String) -> Option<PatchManifest>,
    G: Fn(String) -> Result<Vec<SlotPassword>, String>,
>(
    zip: Vec<u8>,
    given: Vec<SlotPassword>,
    expected: &[ExpectedSlot],
    parse_manifest: &F,
    parse_passwords: &G,
    r: Result<ValidatedGeneration, UploadFailure>,
)
    requires
        call_ensures(
            check_upload::<F, G>,
            (zip, Some(given), expected, parse_manifest, parse_passwords),
            r,
        ),
        archive::zip_failure(zip@) is None,
    ensures
        exists|
            files: Seq<GenerationFileView>,
            verdict: Result<ValidatedGenerationView, Seq<Seq<char>>>,
        |
            is_read_from(*parse_manifest, zip@, files) && #[trigger] is_verdict_on(
                zip@,
                files,
                Some(given.deep_view()),
                expected.deep_view(),
                verdict,
            ) && comes_of(verdict, r),
        r matches Ok(validated) ==> validated.passwords is Some && validated.passwords->0@.len()
            == given@.len() && forall|i: int|
            0 <= i < given@.len() ==> {
                let entry = #[trigger] given@[i];
                &&& 1 <= entry.slot <= expected@.len()
                &&& validated.passwords->0@[i].0 == expected@[entry.slot - 1].yaml_id
                &&& validated.passwords->0@[i].1@ == entry.password@
            },
{
    let list = Some(given).deep_view();
    assert(list == Some(given.deep_view()));
    let found = choose|found: Result<Option<Seq<SlotPasswordView>>, crate::api::UploadFailureView>|
        (if list is Some {
            found == Ok::<Option<Seq<SlotPasswordView>>, crate::api::UploadFailureView>(list)
        } else {
            upload::is_bundled_read(*parse_passwords, zip@, found)
        }) && #[trigger] upload::is_found_checked(
            *parse_manifest,
            zip@,
            found,
            expected.deep_view(),
            upload::checked_view(r),
        );
    let files = lemma_checked(*parse_manifest, zip@, list, expected.deep_view(), r);
    let verdict = reading::archive_verdict(zip@, files, list, expected.deep_view());
    if let Ok(validated) = r {
        let version = reading::version_read(zip@, validate::multidata_names(files));
        crate::laws::law_passwords_cover_the_room(
            files,
            version,
            given.deep_view(),
            expected.deep_view(),
        );
        assert forall|i: int| 0 <= i < given@.len() implies {
            let entry = #[trigger] given@[i];
            &&& 1 <= entry.slot <= expected@.len()
            &&& validated.passwords->0@[i].0 == expected@[entry.slot - 1].yaml_id
            &&& validated.passwords->0@[i].1@ == entry.password@
        } by {
            let view = given.deep_view()[i];
            assert(view == given@[i].deep_view());
            assert(expected.deep_view()[view.slot - 1] == expected@[view.slot - 1].deep_view());
        }
    }
}

/// The files on which an upload was judged.
proof fn lemma_checked<F: Fn(String) -> Option<PatchManifest>>(
    parse: F,
    source: Seq<u8>,
    passwords: Option<Seq<SlotPasswordView>>,
    expected: Seq<ExpectedSlotView>,
    r: Result<ValidatedGeneration, UploadFailure>,
) -> (files: Seq<GenerationFileView>)
    requires
        upload::is_found_checked(parse, source, Ok(passwords), expected, upload::checked_view(r)),
    ensures
        is_read_from(parse, source, files),
        is_verdict_on(
            source,
            files,
            passwords,
            expected,
            reading::archive_verdict(source, files, passwords, expected),
        ),
        comes_of(reading::archive_verdict(source, files, passwords, expected), r),
{
    let files = choose|files: Seq<GenerationFileView>| #[trigger]
        reading::is_generation_read(parse, source, files) && upload::checked_view(r)
            == upload::checked_outcome(
            reading::archive_verdict(source, files, passwords, expected),
        );
    lemma_read(parse, source, files);
    lemma_verdict_on(source, files, passwords, expected);
    lemma_comes_of(reading::archive_verdict(source, files, passwords, expected), r);
    files
}

/// Where no passwords are given, those in the zip count: with none in it, what comes of the
/// upload is the verdict on the zip without passwords, and none is set; with some, it is the
/// verdict with the ones that were parsed, or a refusal where they could not be, or a failure
/// where they could not be read.
pub proof fn law_bundled_passwords_count_where_none_are_given<
    F: Fn(String) -> Option<PatchManifest>,
    G: Fn(String) -> Result<Vec<SlotPassword>, String>,
>(
    zip: Vec<u8>,
    expected: &[ExpectedSlot],
    parse_manifest: &F,
    parse_passwords: &G,
    r: Result<ValidatedGeneration, UploadFailure>,
)
    requires
        call_ensures(
            check_upload::<F, G>,
            (
                zip,
                None::<Vec<SlotPassword>>,
                expected,
                parse_manifest,
                parse_passwords,
            ),
            r,
        ),
        archive::zip_failure(zip@) is None,
    ensures
        (forall|i: int|
            0 <= i < archive::zip_names(zip@).len() ==> !"_slot_passwords.json"@.is_suffix_of(
                #[trigger] archive::zip_names(zip@)[i],
            )) ==> {
            &&& exists|
                files: Seq<GenerationFileView>,
                verdict: Result<ValidatedGenerationView, Seq<Seq<char>>>,
            |
                is_read_from(*parse_manifest, zip@, files) && #[trigger] is_verdict_on(
                    zip@,
                    files,
                    None,
                    expected.deep_view(),
                    verdict,
                ) && comes_of(verdict, r)
            &&& r matches Ok(validated) ==> validated.passwords is None
        },
        forall|i: int| #[trigger]
            is_first_passwords_file(zip@, i) ==> {
                let name = archive::zip_names(zip@)[i];
                match archive::zip_text(zip@, name) {
                    Err(message) => r matches Err(UploadFailure::Broken(broken)) && broken@
                        == message,
                    Ok(contents) => exists|
                        argument: String,
                        parsed: Result<Vec<SlotPassword>, String>,
                    |
                        argument@ == contents && #[trigger] call_ensures(
                            *parse_passwords,
                            (argument,),
                            parsed,
                        ) && match parsed {
                            Err(error) => r matches Err(failure) && is_bad_request(
                                failure,
                                "Couldn't parse "@ + name + " from the zip: "@ + error@,
                            ),
                            Ok(list) => exists|
                                files: Seq<GenerationFileView>,
                                verdict: Result<ValidatedGenerationView, Seq<Seq<char>>>,
                            |
                                is_read_from(*parse_manifest, zip@, files)
                                    && #[trigger] is_verdict_on(
                                    zip@,
                                    files,
                                    Some(list.deep_view()),
                                    expected.deep_view(),
                                    verdict,
                                ) && comes_of(verdict, r),
                        },
                }
            },
{
    let room = expected.deep_view();
    let given = None::<Vec<SlotPassword>>.deep_view();
    assert(given is None);
    let found = choose|found: Result<Option<Seq<SlotPasswordView>>, crate::api::UploadFailureView>|
        (if given is Some {
            found == Ok::<Option<Seq<SlotPasswordView>>, crate::api::UploadFailureView>(given)
        } else {
            upload::is_bundled_read(*parse_passwords, zip@, found)
        }) && #[trigger] upload::is_found_checked(
            *parse_manifest,
            zip@,
            found,
            room,
            upload::checked_view(r),
        );
    lemma_found_in(*parse_passwords, zip@, found);
    if forall|i: int|
        0 <= i < archive::zip_names(zip@).len() ==> !"_slot_passwords.json"@.is_suffix_of(
            #[trigger] archive::zip_names(zip@)[i],
        ) {
        let files = lemma_checked(*parse_manifest, zip@, None, room, r);
        let verdict = reading::archive_verdict(zip@, files, None, room);
        assert(is_verdict_on(zip@, files, None, room, verdict));
    }
    assert forall|i: int| #[trigger] is_first_passwords_file(zip@, i) implies {
        let name = archive::zip_names(zip@)[i];
        match archive::zip_text(zip@, name) {
            Err(message) => r matches Err(UploadFailure::Broken(broken)) && broken@ == message,
            Ok(contents) => exists|argument: String, parsed: Result<Vec<SlotPassword>, String>|
                argument@ == contents && #[trigger] call_ensures(
                    *parse_passwords,
                    (argument,),
                    parsed,
                ) && match parsed {
                    Err(error) => r matches Err(failure) && is_bad_request(
                        failure,
                        "Couldn't parse "@ + name + " from the zip: "@ + error@,
                    ),
                    Ok(list) => exists|
                        files: Seq<GenerationFileView>,
                        verdict: Result<ValidatedGenerationView, Seq<Seq<char>>>,
                    |
                        is_read_from(*parse_manifest, zip@, files) && #[trigger] is_verdict_on(
                            zip@,
                            files,
                            Some(list.deep_view()),
                            expected.deep_view(),
                            verdict,
                        ) && comes_of(verdict, r),
                },
        }
    } by {
        let name = archive::zip_names(zip@)[i];
        if let Ok(contents) = archive::zip_text(zip@, name) {
            let parsed = choose|parsed: Result<Vec<SlotPassword>, String>| #[trigger]
                reading::may_give(*parse_passwords, contents, parsed) && found
                    == upload::bundled_outcome(name, parsed);
            let argument = choose|argument: String|
                argument@ == contents && #[trigger] call_ensures(
                    *parse_passwords,
                    (argument,),
                    parsed,
                );
            assert(call_ensures(*parse_passwords, (argument,), parsed));
            if let Ok(list) = parsed {
                let passwords = Some(list.deep_view());
                let files = lemma_checked(*parse_manifest, zip@, passwords, room, r);
                let verdict = reading::archive_verdict(zip@, files, passwords, room);
                assert(is_verdict_on(zip@, files, passwords, room, verdict));
            }
        }
    }
}

} // verus!
