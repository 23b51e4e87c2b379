//! Checking an uploaded file.

use crate::api;
use crate::api::{bad_request, UploadFailure, UploadFailureView};
use crate::archive;
use crate::archive::{entry_names, open_zip, read_text, Archive};
use crate::model::{
    ExpectedSlot, ExpectedSlotView, GenerationFileView, PatchManifest, SlotPassword,
    SlotPasswordView, ValidatedGeneration, ValidatedGenerationView,
};
use crate::reading;
use crate::reading::validate_generation;
use crate::text;
use crate::text::ends_with;
use vstd::prelude::*;
use vstd::string::*;

verus! {

/// The names of the passwords files among the names.
pub open spec fn passwords_files(names: Seq<Seq<char>>) -> Seq<Seq<char>> {
    names.filter(|name: Seq<char>| "_slot_passwords.json"@.is_suffix_of(name))
}

/// The passwords file in a zip: the first, if there is one.
pub open spec fn bundled_name(source: Seq<u8>) -> Option<Seq<char>> {
    let found = passwords_files(archive::zip_names(source));
    if found.len() == 0 {
        None
    } else {
        Some(found[0])
    }
}

/// What is said when the passwords file in a zip is not understood.
pub open spec fn bundled_not_understood(name: Seq<char>, error: Seq<char>) -> Seq<char> {
    "Couldn't parse "@ + name + " from the zip: "@ + error
}

/// What comes of the passwords file in a zip that was parsed with this result.
pub open spec fn bundled_outcome(
    name: Seq<char>,
    parsed: Result<Vec<SlotPassword>, String>,
) -> Result<Option<Seq<SlotPasswordView>>, UploadFailureView> {
    match parsed {
        Ok(passwords) => Ok(Some(passwords.deep_view())),
        Err(error) => Err(api::refused_as_bad(bundled_not_understood(name, error@))),
    }
}

/// Whether `outcome` may be what comes of a passwords file in a zip with these contents.
pub open spec fn is_list_read<G: Fn(String) -> Result<Vec<SlotPassword>, String>>(
    parse: G,
    name: Seq<char>,
    contents: Seq<char>,
    outcome: Result<Option<Seq<SlotPasswordView>>, UploadFailureView>,
) -> bool {
    exists|parsed: Result<Vec<SlotPassword>, String>| #[trigger]
        reading::may_give(parse, contents, parsed) && outcome == bundled_outcome(name, parsed)
}

/// Whether `outcome` may be what comes of looking for passwords in a zip.
pub open spec fn is_bundled_read<G: Fn(String) -> Result<Vec<SlotPassword>, String>>(
    parse: G,
    source: Seq<u8>,
    outcome: Result<Option<Seq<SlotPasswordView>>, UploadFailureView>,
) -> bool {
    match bundled_name(source) {
        None => outcome == Ok::<Option<Seq<SlotPasswordView>>, UploadFailureView>(None),
        Some(name) => match archive::zip_text(source, name) {
            Err(message) => outcome == Err::<Option<Seq<SlotPasswordView>>, UploadFailureView>(
                UploadFailureView::Broken(message),
            ),
            Ok(contents) => is_list_read(parse, name, contents, outcome),
        },
    }
}

/// A result of looking for passwords, by its mathematical content.
pub open spec fn passwords_view(
    r: Result<Option<Vec<SlotPassword>>, UploadFailure>,
) -> Result<Option<Seq<SlotPasswordView>>, UploadFailureView> {
    match r {
        Ok(passwords) => Ok(passwords.deep_view()),
        Err(failure) => Err(failure.deep_view()),
    }
}

/// The first name of a passwords file.
fn find_passwords_file(names: &Vec<String>) -> (r: Option<String>)
    ensures
        match r {
            None => passwords_files(names.deep_view()).len() == 0,
            Some(name) => passwords_files(names.deep_view()).len() > 0 && passwords_files(
                names.deep_view(),
            )[0] == name@,
        },
{
    let ghost all = names.deep_view();
    let ghost wanted = |name: Seq<char>| "_slot_passwords.json"@.is_suffix_of(name);
    let mut i: usize = 0;
    proof {
        reveal(Seq::filter);
        assert(all.take(0).filter(wanted).len() == 0);
    }
    while i < names.len()
        invariant
            i <= names@.len(),
            all == names.deep_view(),
            wanted == |name: Seq<char>| "_slot_passwords.json"@.is_suffix_of(name),
            all.take(i as int).filter(wanted).len() == 0,
        decreases names@.len() - i,
    {
        proof {
            reveal(Seq::filter);
            assert(all.take(i + 1).drop_last() =~= all.take(i as int));
            assert(all.take(i + 1).last() == names@[i as int]@);
        }
        if ends_with(names[i].as_str(), "_slot_passwords.json") {
            proof {
                assert(all =~= all.take(i + 1) + all.skip(i + 1));
                Seq::filter_distributes_over_add(all.take(i + 1), all.skip(i + 1), wanted);
            }
            return Some(names[i].clone());
        }
        i = i + 1;
    }
    assert(all.take(names@.len() as int) =~= all);
    None
}

/// Older generators wrote the slot passwords inside the zip rather than next to it. `parse` is
/// what reads their JSON.
pub fn bundled_passwords<G: Fn(String) -> Result<Vec<SlotPassword>, String>>(
    archive: &mut Archive,
    parse: &G,
) -> (r: Result<Option<Vec<SlotPassword>>, UploadFailure>)
    requires
        forall|text: String| call_requires(*parse, (text,)),
    ensures
        archive::archive_source(*final(archive)) == archive::archive_source(*old(archive)),
        is_bundled_read(*parse, archive::archive_source(*old(archive)), passwords_view(r)),
{
    let names = entry_names(archive);
    let name = match find_passwords_file(&names) {
        None => {
            return Ok(None);
        },
        Some(name) => name,
    };
    let contents = match read_text(archive, name.as_str()) {
        Ok(contents) => contents,
        Err(message) => {
            return Err(UploadFailure::Broken(message));
        },
    };
    let ghost argument = contents;
    let parsed = parse(contents);
    assert(call_ensures(*parse, (argument,), parsed));
    assert(reading::may_give(*parse, argument@, parsed));
    let ghost given = parsed;
    let r = match parsed {
        Ok(passwords) => Ok(Some(passwords)),
        Err(error) => {
            let mut message = "Couldn't parse ".to_string();
            message.append(name.as_str());
            message.append(" from the zip: ");
            message.append(error.as_str());
            Err(UploadFailure::Refused(bad_request(message)))
        },
    };
    assert(passwords_view(r) == bundled_outcome(name@, given));
    assert(is_list_read(*parse, name@, argument@, passwords_view(r)));
    r
}

/// What is said when the upload is not a zip.
pub open spec fn not_a_zip(error: Seq<char>) -> Seq<char> {
    "Uploaded file is not a valid zip: "@ + error
}

/// What is said when the generation does not match the room.
pub open spec fn not_matching(mismatches: Seq<Seq<char>>) -> Seq<char> {
    "This generation doesn't match the room:\n"@ + text::joined(mismatches, "\n"@)
}

/// What comes of a generation that was checked with this verdict.
pub open spec fn checked_outcome(
    verdict: Result<ValidatedGenerationView, Seq<Seq<char>>>,
) -> Result<ValidatedGenerationView, UploadFailureView> {
    match verdict {
        Ok(validated) => Ok(validated),
        Err(mismatches) => Err(api::refused_as_bad(not_matching(mismatches))),
    }
}

/// Whether `outcome` may be what comes of an upload, with the passwords `given` next to it: the
/// ones in the zip count only where there are none.
pub open spec fn is_upload_checked<
    F: Fn(String) -> Option<PatchManifest>,
    G: Fn(String) -> Result<Vec<SlotPassword>, String>,
>(
    parse_manifest: F,
    parse_passwords: G,
    source: Seq<u8>,
    given: Option<Seq<SlotPasswordView>>,
    expected: Seq<ExpectedSlotView>,
    outcome: Result<ValidatedGenerationView, UploadFailureView>,
) -> bool {
    if archive::zip_failure(source) is Some {
        outcome == Err::<ValidatedGenerationView, UploadFailureView>(
            api::refused_as_bad(not_a_zip(archive::zip_failure(source)->0)),
        )
    } else {
        exists|found: Result<Option<Seq<SlotPasswordView>>, UploadFailureView>|
            (if given is Some {
                found == Ok::<Option<Seq<SlotPasswordView>>, UploadFailureView>(given)
            } else {
                is_bundled_read(parse_passwords, source, found)
            }) && #[trigger] is_found_checked(parse_manifest, source, found, expected, outcome)
    }
}

/// Whether `outcome` may be what comes of a generation zip, once it is known what was found of
/// passwords.
pub open spec fn is_found_checked<F: Fn(String) -> Option<PatchManifest>>(
    parse_manifest: F,
    source: Seq<u8>,
    found: Result<Option<Seq<SlotPasswordView>>, UploadFailureView>,
    expected: Seq<ExpectedSlotView>,
    outcome: Result<ValidatedGenerationView, UploadFailureView>,
) -> bool {
    match found {
        Err(failure) => outcome == Err::<ValidatedGenerationView, UploadFailureView>(failure),
        Ok(passwords) => exists|files: Seq<GenerationFileView>| #[trigger]
            reading::is_generation_read(parse_manifest, source, files) && outcome
                == checked_outcome(reading::archive_verdict(source, files, passwords, expected)),
    }
}

/// A result of checking an upload, by its mathematical content.
pub open spec fn checked_view(
    r: Result<ValidatedGeneration, UploadFailure>,
) -> Result<ValidatedGenerationView, UploadFailureView> {
    match r {
        Ok(validated) => Ok(validated.deep_view()),
        Err(failure) => Err(failure.deep_view()),
    }
}

/// Checks an uploaded generation zip against the slots of a room.
pub fn check_upload<
    F: Fn(String) -> Option<PatchManifest>,
    G: Fn(String) -> Result<Vec<SlotPassword>, String>,
>(
    zip: Vec<u8>,
    passwords: Option<Vec<SlotPassword>>,
    expected: &[ExpectedSlot],
    parse_manifest: &F,
    parse_passwords: &G,
) -> (r: Result<ValidatedGeneration, UploadFailure>)
    requires
        forall|text: String| call_requires(*parse_manifest, (text,)),
        forall|text: String| call_requires(*parse_passwords, (text,)),
    ensures
        is_upload_checked(
            *parse_manifest,
            *parse_passwords,
            zip@,
            passwords.deep_view(),
            expected.deep_view(),
            checked_view(r),
        ),
{
    let ghost source = zip@;
    let mut archive = match open_zip(zip) {
        Ok(archive) => archive,
        Err(error) => {
            let mut message = "Uploaded file is not a valid zip: ".to_string();
            message.append(error.as_str());
            return Err(UploadFailure::Refused(bad_request(message)));
        },
    };
    let ghost given = passwords.deep_view();
    let found = match passwords {
        Some(passwords) => Ok(Some(passwords)),
        None => bundled_passwords(&mut archive, parse_passwords),
    };
    let ghost found_view = passwords_view(found);
    let passwords = match found {
        Ok(passwords) => passwords,
        Err(failure) => {
            assert(is_found_checked(
                *parse_manifest,
                source,
                found_view,
                expected.deep_view(),
                Err(failure.deep_view()),
            ));
            return Err(failure);
        },
    };
    let slice = match &passwords {
        Some(passwords) => Some(passwords.as_slice()),
        None => None,
    };
    assert(slice.deep_view() == passwords.deep_view()) by {
        if let Some(list) = passwords {
            assert(slice->0.deep_view() =~= list.deep_view());
        }
    }
    let r = match validate_generation(&mut archive, parse_manifest, slice, expected) {
        Ok(validated) => Ok(validated),
        Err(mismatch) => {
            let mut message = "This generation doesn't match the room:\n".to_string();
            message.append(mismatch.to_text().as_str());
            Err(UploadFailure::Refused(bad_request(message)))
        },
    };
    assert(is_found_checked(
        *parse_manifest,
        source,
        found_view,
        expected.deep_view(),
        checked_view(r),
    ));
    r
}

} // verus!
