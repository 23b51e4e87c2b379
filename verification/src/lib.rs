//! Taking in generations that were made elsewhere.
//!
//! A room's owner uploads the zip that Archipelago (AP) wrote for the room's YAMLs. The library
//! reads the zip ([`reading`]), checks that it was generated from those YAMLs ([`validate`]),
//! says which output file and password goes to which YAML, and what to write to the database
//! about it ([`generation`]). [`ingest`] puts the steps of an upload in order; the caller does
//! the storing and querying that they ask for.
//!
//! What holds of all of this together stands in [`laws`]. What is trusted without proof stands
//! in [`archive`], at the top of [`text`], and where [`slots`] names the players.

pub mod api;
pub mod archive;
pub mod generation;
pub mod ingest;
pub mod laws;
pub mod log;
pub mod matching;
pub mod messages;
pub mod model;
pub mod outputs;
pub mod patch_name;
pub mod reading;
pub mod slots;
pub mod text;
pub mod upload;
pub mod validate;
