//! Reading a generation out of its zip.
//!
//! Manifests are JSON, which the caller parses: the functions here take what does it as an
//! argument, and hand it the text of each manifest.

use crate::archive;
use crate::archive::{entry_names, open_zip, read_bytes, read_first_byte, read_text, Archive};
use crate::model;
use crate::model::{
    ExpectedSlot, ExpectedSlotView, GenerationFile, GenerationFileView, GenerationMismatch,
    PatchManifest, SlotPassword, SlotPasswordView, ValidatedGeneration, ValidatedGenerationView,
};
use crate::outputs;
use crate::outputs::choose_outputs;
use crate::patch_name;
use crate::patch_name::parse_patch_name;
use crate::text;
use crate::text::ends_with;
use crate::validate;
use crate::validate::check_generation;
use std::collections::HashMap;
use vstd::prelude::*;
use vstd::string::*;

verus! {

/// Whether `parse` may give `result` for the text.
pub open spec fn may_give<F: Fn(String) -> T, T>(parse: F, text: Seq<char>, result: T) -> bool {
    exists|argument: String|
        argument@ == text && #[trigger] call_ensures(parse, (argument,), result)
}

/// The text of the manifest of an output file: that of the `archipelago.json` in the zip that
/// the file is, if it is one.
pub open spec fn manifest_text(source: Seq<u8>, name: Seq<char>) -> Option<Seq<char>> {
    match archive::zip_bytes(source, name) {
        None => None,
        Some(container) => if archive::zip_failure(container) is Some {
            None
        } else {
            match archive::zip_text(container, "archipelago.json"@) {
                Ok(text) => Some(text),
                Err(_) => None,
            }
        },
    }
}

/// Whether `manifest` may be what `parse` finds in an output file.
pub open spec fn is_manifest_read<F: Fn(String) -> Option<PatchManifest>>(
    parse: F,
    source: Seq<u8>,
    name: Seq<char>,
    manifest: Option<PatchManifest>,
) -> bool {
    match manifest_text(source, name) {
        None => manifest is None,
        Some(text) => may_give(parse, text, manifest),
    }
}

/// Reads the manifest of an output file, with `parse` for its JSON; `None` where the file is
/// no AP container.
pub fn read_patch_manifest<F: Fn(String) -> Option<PatchManifest>>(
    archive: &mut Archive,
    name: &str,
    parse: &F,
) -> (r: Option<PatchManifest>)
    requires
        forall|text: String| call_requires(*parse, (text,)),
    ensures
        archive::archive_source(*final(archive)) == archive::archive_source(*old(archive)),
        is_manifest_read(*parse, archive::archive_source(*old(archive)), name@, r),
{
    let bytes = match read_bytes(archive, name) {
        Some(bytes) => bytes,
        None => {
            return None;
        },
    };
    let mut container = match open_zip(bytes) {
        Ok(container) => container,
        Err(_) => {
            return None;
        },
    };
    match read_text(&mut container, "archipelago.json") {
        Ok(text) => {
            let ghost argument = text;
            let manifest = parse(text);
            assert(call_ensures(*parse, (argument,), manifest));
            manifest
        },
        Err(_) => None,
    }
}

/// Whether a zip entry of this name is a file, not a directory.
pub open spec fn is_file(name: Seq<char>) -> bool {
    !"/"@.is_suffix_of(name)
}

/// The names of the files in a zip.
pub open spec fn file_names(source: Seq<u8>) -> Seq<Seq<char>> {
    archive::zip_names(source).filter(|name: Seq<char>| is_file(name))
}

/// Whether `file` may be what is read of a file: only output files have their manifest read.
pub open spec fn is_file_read<F: Fn(String) -> Option<PatchManifest>>(
    parse: F,
    source: Seq<u8>,
    file: GenerationFileView,
) -> bool {
    if patch_name::patch_name(file.name) is None {
        file.manifest is None
    } else {
        exists|manifest: Option<PatchManifest>|
            manifest.deep_view() == file.manifest && #[trigger] is_manifest_read(
                parse,
                source,
                file.name,
                manifest,
            )
    }
}

/// Whether `files` may be what is read of a generation zip: its files in order, each with the
/// manifest that `parse` finds in it.
pub open spec fn is_generation_read<F: Fn(String) -> Option<PatchManifest>>(
    parse: F,
    source: Seq<u8>,
    files: Seq<GenerationFileView>,
) -> bool {
    &&& files.map_values(|file: GenerationFileView| file.name) == file_names(source)
    &&& forall|i: int| 0 <= i < files.len() ==> is_file_read(parse, source, #[trigger] files[i])
}

/// The names of the files in a zip.
fn list_files(archive: &Archive) -> (r: Vec<String>)
    ensures
        r.deep_view() == file_names(archive::archive_source(*archive)),
{
    let names = entry_names(archive);
    let mut r: Vec<String> = Vec::new();
    let mut i: usize = 0;
    let ghost all = names.deep_view();
    let ghost wanted = |name: Seq<char>| is_file(name);
    proof {
        reveal(Seq::filter);
        assert(r.deep_view() =~= all.take(0).filter(wanted));
    }
    while i < names.len()
        invariant
            i <= names@.len(),
            all == names.deep_view(),
            wanted == |name: Seq<char>| is_file(name),
            r.deep_view() == all.take(i as int).filter(wanted),
        decreases names@.len() - i,
    {
        proof {
            reveal(Seq::filter);
            let next = all.take(i + 1);
            assert(next.drop_last() =~= all.take(i as int));
            assert(next.last() == names@[i as int]@);
        }
        if !ends_with(names[i].as_str(), "/") {
            text::note(&mut r, names[i].clone());
        }
        i = i + 1;
    }
    assert(all.take(names@.len() as int) =~= all);
    r
}

/// Reads the files of a generation zip, with `parse` for the JSON of their manifests.
pub fn read_generation<F: Fn(String) -> Option<PatchManifest>>(
    archive: &mut Archive,
    parse: &F,
) -> (files: Vec<GenerationFile>)
    requires
        forall|text: String| call_requires(*parse, (text,)),
    ensures
        archive::archive_source(*final(archive)) == archive::archive_source(*old(archive)),
        is_generation_read(
            *parse,
            archive::archive_source(*old(archive)),
            files.deep_view(),
        ),
{
    let names = list_files(archive);
    let mut files: Vec<GenerationFile> = Vec::new();
    let mut i: usize = 0;
    let ghost source = archive::archive_source(*archive);
    let ghost name_of = |file: GenerationFileView| file.name;
    while i < names.len()
        invariant
            i <= names@.len(),
            archive::archive_source(*archive) == source,
            forall|text: String| call_requires(*parse, (text,)),
            files@.len() == i,
            forall|j: int|
                0 <= j < i ==> (#[trigger] files.deep_view()[j]).name == names.deep_view()[j],
            forall|j: int|
                0 <= j < i ==> is_file_read(*parse, source, #[trigger] files.deep_view()[j]),
        decreases names@.len() - i,
    {
        let name = names[i].as_str();
        let manifest = if parse_patch_name(name).is_some() {
            read_patch_manifest(archive, name, parse)
        } else {
            None
        };
        let ghost before = files.deep_view();
        let file = GenerationFile { name: names[i].clone(), manifest };
        assert(is_file_read(*parse, source, file.deep_view()));
        files.push(file);
        assert(files.deep_view() =~= before.push(file.deep_view()));
        i = i + 1;
    }
    assert(files.deep_view().map_values(name_of) =~= names.deep_view());
    files
}

/// The byte that the multidata file of a generation starts with, if there is a single one that
/// can be read.
pub open spec fn version_read(source: Seq<u8>, multidata: Seq<Seq<char>>) -> Option<u8> {
    if multidata.len() == 1 {
        archive::zip_first_byte(source, multidata[0])
    } else {
        None
    }
}

/// What is found wrong with a generation zip, or what to associate with each YAML, when
/// `files` is what was read of it.
pub open spec fn archive_verdict(
    source: Seq<u8>,
    files: Seq<GenerationFileView>,
    passwords: Option<Seq<SlotPasswordView>>,
    expected: Seq<ExpectedSlotView>,
) -> Result<ValidatedGenerationView, Seq<Seq<char>>> {
    validate::verdict(
        files,
        version_read(source, validate::multidata_names(files)),
        passwords,
        expected,
    )
}

/// Checks that a generation output zip (and its optional slot passwords) was generated from
/// this room's YAMLs, and returns what to associate with each YAML. `parse` is what reads the
/// JSON of the manifests.
pub fn validate_generation<F: Fn(String) -> Option<PatchManifest>>(
    archive: &mut Archive,
    parse: &F,
    passwords: Option<&[SlotPassword]>,
    expected: &[ExpectedSlot],
) -> (r: Result<ValidatedGeneration, GenerationMismatch>)
    requires
        forall|text: String| call_requires(*parse, (text,)),
    ensures
        archive::archive_source(*final(archive)) == archive::archive_source(*old(archive)),
        exists|files: Seq<GenerationFileView>| #[trigger]
            is_generation_read(*parse, archive::archive_source(*old(archive)), files) && match r {
                Ok(validated) => archive_verdict(
                    archive::archive_source(*old(archive)),
                    files,
                    passwords.deep_view(),
                    expected.deep_view(),
                ) == Ok::<ValidatedGenerationView, Seq<Seq<char>>>(validated.deep_view()),
                Err(mismatch) => archive_verdict(
                    archive::archive_source(*old(archive)),
                    files,
                    passwords.deep_view(),
                    expected.deep_view(),
                ) == Err::<ValidatedGenerationView, Seq<Seq<char>>>(mismatch.0.deep_view()),
            },
{
    let files = read_generation(archive, parse);
    let multidata = validate::find_multidata(&files);
    let version = if multidata.len() == 1 {
        assert(multidata.deep_view()[0] == multidata@[0]@);
        read_first_byte(archive, multidata[0].as_str())
    } else {
        None
    };
    check_generation(&files, version, passwords, expected)
}

/// Per-slot output files of a generation zip, keyed by slot number, using the same file naming
/// and preference rules as [`validate_generation`].
pub fn slot_outputs<F: Fn(String) -> Option<PatchManifest>>(
    archive: &mut Archive,
    parse: &F,
) -> (r: HashMap<usize, String>)
    requires
        forall|text: String| call_requires(*parse, (text,)),
    ensures
        archive::archive_source(*final(archive)) == archive::archive_source(*old(archive)),
        exists|files: Seq<GenerationFileView>| #[trigger]
            is_generation_read(*parse, archive::archive_source(*old(archive)), files)
                && model::texts(r@) == outputs::preferred_names(outputs::named_candidates(files)),
{
    let files = read_generation(archive, parse);
    choose_outputs(&files)
}

} // verus!
