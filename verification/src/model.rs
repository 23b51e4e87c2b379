//! The data that a generation upload is checked against, and what checking it gives.

use std::collections::HashMap;
use vstd::prelude::*;

verus! {

/// Identifies a YAML, as the 128 bits of its UUID.
pub type YamlId = u128;

/// Identifies a room, as the 128 bits of its UUID.
pub type RoomId = u128;

/// Identifies a generation job, as the 128 bits of its UUID.
pub type JobId = u128;

/// One entry of the `AP_<seed>_slot_passwords.json` written next to the seed zip.
#[derive(Debug, Clone)]
pub struct SlotPassword {
    pub slot: usize,
    pub name: String,
    pub password: String,
}

/// The mathematical content of a [`SlotPassword`].
#[verifier::ext_equal]
pub struct SlotPasswordView {
    pub slot: nat,
    pub name: Seq<char>,
    pub password: Seq<char>,
}

impl DeepView for SlotPassword {
    type V = SlotPasswordView;

    open spec fn deep_view(&self) -> SlotPasswordView {
        SlotPasswordView {
            slot: self.slot as nat,
            name: self.name@,
            password: self.password@,
        }
    }
}

/// A slot that the generation is expected to have.
#[derive(Debug, Clone, PartialEq)]
pub struct ExpectedSlot {
    pub slot: usize,
    pub yaml_id: YamlId,
    pub name: String,
    pub game: String,
}

/// The mathematical content of an [`ExpectedSlot`].
#[verifier::ext_equal]
pub struct ExpectedSlotView {
    pub slot: nat,
    pub yaml_id: YamlId,
    pub name: Seq<char>,
    pub game: Seq<char>,
}

impl DeepView for ExpectedSlot {
    type V = ExpectedSlotView;

    open spec fn deep_view(&self) -> ExpectedSlotView {
        ExpectedSlotView {
            slot: self.slot as nat,
            yaml_id: self.yaml_id,
            name: self.name@,
            game: self.game@,
        }
    }
}

/// What an output file that is an AP container says of itself.
#[derive(Debug, Clone)]
pub struct PatchManifest {
    pub player: Option<usize>,
    pub player_name: Option<String>,
    pub game: Option<String>,
}

/// The mathematical content of a [`PatchManifest`].
#[verifier::ext_equal]
pub struct PatchManifestView {
    pub player: Option<usize>,
    pub player_name: Option<Seq<char>>,
    pub game: Option<Seq<char>>,
}

impl DeepView for PatchManifest {
    type V = PatchManifestView;

    open spec fn deep_view(&self) -> PatchManifestView {
        PatchManifestView {
            player: self.player,
            player_name: self.player_name.deep_view(),
            game: self.game.deep_view(),
        }
    }
}

/// A file of a generation zip, with its manifest if it is an AP container.
#[derive(Debug, Clone)]
pub struct GenerationFile {
    pub name: String,
    pub manifest: Option<PatchManifest>,
}

/// The mathematical content of a [`GenerationFile`].
#[verifier::ext_equal]
pub struct GenerationFileView {
    pub name: Seq<char>,
    pub manifest: Option<PatchManifestView>,
}

impl DeepView for GenerationFile {
    type V = GenerationFileView;

    open spec fn deep_view(&self) -> GenerationFileView {
        GenerationFileView { name: self.name@, manifest: self.manifest.deep_view() }
    }
}

/// What to associate with each YAML of a room after a generation was found to match it.
#[derive(Debug)]
pub struct ValidatedGeneration {
    pub seed_name: String,
    pub patches: HashMap<YamlId, String>,
    /// `None` when no passwords file was supplied: existing passwords are left untouched.
    pub passwords: Option<Vec<(YamlId, String)>>,
    /// Mismatches that don't block the upload, e.g. a player whose YAML
    /// triggers rename them at generation time.
    pub warnings: Vec<String>,
}

/// The mathematical content of a [`ValidatedGeneration`].
#[verifier::ext_equal]
pub struct ValidatedGenerationView {
    pub seed_name: Seq<char>,
    pub patches: Map<YamlId, Seq<char>>,
    pub passwords: Option<Seq<(YamlId, Seq<char>)>>,
    pub warnings: Seq<Seq<char>>,
}

/// The texts of a map, each under its key.
pub open spec fn texts<K>(map: Map<K, String>) -> Map<K, Seq<char>> {
    map.map_values(|text: String| text@)
}

impl DeepView for ValidatedGeneration {
    type V = ValidatedGenerationView;

    open spec fn deep_view(&self) -> ValidatedGenerationView {
        ValidatedGenerationView {
            seed_name: self.seed_name@,
            patches: texts(self.patches@),
            passwords: self.passwords.deep_view(),
            warnings: self.warnings.deep_view(),
        }
    }
}

impl Default for ValidatedGeneration {
    fn default() -> (r: Self)
        ensures
            r.deep_view() == (ValidatedGenerationView {
                seed_name: Seq::empty(),
                patches: Map::empty(),
                passwords: None,
                warnings: Seq::empty(),
            }),
    {
        let r = ValidatedGeneration {
            seed_name: String::new(),
            patches: HashMap::new(),
            passwords: None,
            warnings: Vec::new(),
        };
        assert(texts(r.patches@) =~= Map::empty());
        assert(r.warnings.deep_view() =~= Seq::empty());
        r
    }
}

/// Why a generation does not match a room, one line per mismatch.
#[derive(Debug)]
pub struct GenerationMismatch(pub Vec<String>);

} // verus!
