//! What a room's owner is told about a generation that does not match the room.
//!
//! Each message has two forms: what its text is, and the function that writes it.

use crate::text;
use vstd::prelude::*;
use vstd::string::*;

verus! {

/// The multidata file is not named after a seed.
pub open spec fn unexpected_multidata_name(name: Seq<char>) -> Seq<char> {
    "Unexpected multidata file name "@ + text::quoted(name)
        + ", expected AP_<seed>.archipelago"@
}

pub(crate) fn write_unexpected_multidata_name(name: &str) -> (r: String)
    ensures
        r@ == unexpected_multidata_name(name@),
{
    let mut r = "Unexpected multidata file name ".to_string();
    r.append(text::quote(name).as_str());
    r.append(", expected AP_<seed>.archipelago");
    r
}

/// There is no multidata file.
pub open spec fn no_multidata() -> Seq<char> {
    "The zip doesn't contain a .archipelago multidata file"@
}

pub(crate) fn write_no_multidata() -> (r: String)
    ensures
        r@ == no_multidata(),
{
    "The zip doesn't contain a .archipelago multidata file".to_string()
}

/// There are several multidata files.
pub open spec fn several_multidata() -> Seq<char> {
    "The zip contains more than one .archipelago multidata file"@
}

pub(crate) fn write_several_multidata() -> (r: String)
    ensures
        r@ == several_multidata(),
{
    "The zip contains more than one .archipelago multidata file".to_string()
}

/// The multidata has a format version that is not supported.
pub open spec fn unsupported_version(version: nat) -> Seq<char> {
    "Unsupported multidata format version "@ + text::decimal(version)
}

pub(crate) fn write_unsupported_version(version: usize) -> (r: String)
    ensures
        r@ == unsupported_version(version as nat),
{
    let mut r = "Unsupported multidata format version ".to_string();
    r.append(text::decimal_text(version).as_str());
    r
}

/// The multidata file cannot be read.
pub open spec fn unreadable_multidata(name: Seq<char>) -> Seq<char> {
    "Couldn't read the multidata file "@ + text::quoted(name)
}

pub(crate) fn write_unreadable_multidata(name: &str) -> (r: String)
    ensures
        r@ == unreadable_multidata(name@),
{
    let mut r = "Couldn't read the multidata file ".to_string();
    r.append(text::quote(name).as_str());
    r
}

/// An output file is of another seed than the multidata.
pub open spec fn other_seed(name: Seq<char>, file_seed: Seq<char>, seed: Seq<char>) -> Seq<char> {
    name + " belongs to seed "@ + file_seed + " but the multidata is for seed "@ + seed
}

pub(crate) fn write_other_seed(name: &str, file_seed: &str, seed: &str) -> (r: String)
    ensures
        r@ == other_seed(name@, file_seed@, seed@),
{
    let mut r = name.to_string();
    r.append(" belongs to seed ");
    r.append(file_seed);
    r.append(" but the multidata is for seed ");
    r.append(seed);
    r
}

/// An output file is for a slot that the room does not have.
pub open spec fn no_such_slot(name: Seq<char>, slot: nat, slot_count: nat) -> Seq<char> {
    name + " is for slot "@ + text::decimal(slot) + " but this room only has "@
        + text::decimal(slot_count) + " slots"@
}

pub(crate) fn write_no_such_slot(name: &str, slot: usize, slot_count: usize) -> (r: String)
    ensures
        r@ == no_such_slot(name@, slot as nat, slot_count as nat),
{
    let mut r = name.to_string();
    r.append(" is for slot ");
    r.append(text::decimal_text(slot).as_str());
    r.append(" but this room only has ");
    r.append(text::decimal_text(slot_count).as_str());
    r.append(" slots");
    r
}

/// An output file is named for another slot than its manifest says.
pub open spec fn other_player(name: Seq<char>, slot: nat, player: nat) -> Seq<char> {
    name + " is named for slot "@ + text::decimal(slot)
        + " but its manifest says it's for slot "@ + text::decimal(player)
}

pub(crate) fn write_other_player(name: &str, slot: usize, player: usize) -> (r: String)
    ensures
        r@ == other_player(name@, slot as nat, player as nat),
{
    let mut r = name.to_string();
    r.append(" is named for slot ");
    r.append(text::decimal_text(slot).as_str());
    r.append(" but its manifest says it's for slot ");
    r.append(text::decimal_text(player).as_str());
    r
}

/// An output file's manifest names another player than the room's slot does.
pub open spec fn other_player_name(
    name: Seq<char>,
    player_name: Seq<char>,
    slot: nat,
    slot_name: Seq<char>,
) -> Seq<char> {
    name + " is for player "@ + text::quoted(player_name) + " but slot "@ + text::decimal(slot)
        + " in this room is "@ + text::quoted(slot_name)
}

pub(crate) fn write_other_player_name(
    name: &str,
    player_name: &str,
    slot: usize,
    slot_name: &str,
) -> (r: String)
    ensures
        r@ == other_player_name(name@, player_name@, slot as nat, slot_name@),
{
    let mut r = name.to_string();
    r.append(" is for player ");
    r.append(text::quote(player_name).as_str());
    r.append(" but slot ");
    r.append(text::decimal_text(slot).as_str());
    r.append(" in this room is ");
    r.append(text::quote(slot_name).as_str());
    r
}

/// An output file is for another game than the room's slot plays.
pub open spec fn other_game(
    name: Seq<char>,
    game: Seq<char>,
    slot: nat,
    slot_name: Seq<char>,
    slot_game: Seq<char>,
) -> Seq<char> {
    name + " is a "@ + text::quoted(game) + " output but slot "@ + text::decimal(slot) + " ("@
        + slot_name + ") in this room plays "@ + text::quoted(slot_game)
}

pub(crate) fn write_other_game(
    name: &str,
    game: &str,
    slot: usize,
    slot_name: &str,
    slot_game: &str,
) -> (r: String)
    ensures
        r@ == other_game(name@, game@, slot as nat, slot_name@, slot_game@),
{
    let mut r = name.to_string();
    r.append(" is a ");
    r.append(text::quote(game).as_str());
    r.append(" output but slot ");
    r.append(text::decimal_text(slot).as_str());
    r.append(" (");
    r.append(slot_name);
    r.append(") in this room plays ");
    r.append(text::quote(slot_game).as_str());
    r
}

/// An output file without a manifest is not named for the slot's player.
pub open spec fn unlikely_output(name: Seq<char>, slot: nat, slot_name: Seq<char>) -> Seq<char> {
    name + " doesn't look like an output for slot "@ + text::decimal(slot) + " ("@ + slot_name
        + ") in this room"@
}

pub(crate) fn write_unlikely_output(name: &str, slot: usize, slot_name: &str) -> (r: String)
    ensures
        r@ == unlikely_output(name@, slot as nat, slot_name@),
{
    let mut r = name.to_string();
    r.append(" doesn't look like an output for slot ");
    r.append(text::decimal_text(slot).as_str());
    r.append(" (");
    r.append(slot_name);
    r.append(") in this room");
    r
}

/// The passwords file lists a slot that the room does not have.
pub open spec fn password_for_no_slot(slot: nat, name: Seq<char>, slot_count: nat) -> Seq<char> {
    "The passwords file lists slot "@ + text::decimal(slot) + " ("@ + text::quoted(name)
        + ") but this room only has "@ + text::decimal(slot_count) + " slots"@
}

pub(crate) fn write_password_for_no_slot(slot: usize, name: &str, slot_count: usize) -> (r: String)
    ensures
        r@ == password_for_no_slot(slot as nat, name@, slot_count as nat),
{
    let mut r = "The passwords file lists slot ".to_string();
    r.append(text::decimal_text(slot).as_str());
    r.append(" (");
    r.append(text::quote(name).as_str());
    r.append(") but this room only has ");
    r.append(text::decimal_text(slot_count).as_str());
    r.append(" slots");
    r
}

/// The passwords file lists a slot that it listed before.
pub open spec fn password_repeated(slot: nat) -> Seq<char> {
    "The passwords file lists slot "@ + text::decimal(slot) + " more than once"@
}

pub(crate) fn write_password_repeated(slot: usize) -> (r: String)
    ensures
        r@ == password_repeated(slot as nat),
{
    let mut r = "The passwords file lists slot ".to_string();
    r.append(text::decimal_text(slot).as_str());
    r.append(" more than once");
    r
}

/// The passwords file names another player than the room's slot does.
pub open spec fn password_for_other_name(
    slot: nat,
    name: Seq<char>,
    room_slot: nat,
    slot_name: Seq<char>,
) -> Seq<char> {
    "The passwords file says slot "@ + text::decimal(slot) + " is "@ + text::quoted(name)
        + " but slot "@ + text::decimal(room_slot) + " in this room is "@
        + text::quoted(slot_name)
}

pub(crate) fn write_password_for_other_name(
    slot: usize,
    name: &str,
    room_slot: usize,
    slot_name: &str,
) -> (r: String)
    ensures
        r@ == password_for_other_name(slot as nat, name@, room_slot as nat, slot_name@),
{
    let mut r = "The passwords file says slot ".to_string();
    r.append(text::decimal_text(slot).as_str());
    r.append(" is ");
    r.append(text::quote(name).as_str());
    r.append(" but slot ");
    r.append(text::decimal_text(room_slot).as_str());
    r.append(" in this room is ");
    r.append(text::quote(slot_name).as_str());
    r
}

/// How a slot without a password is listed.
pub open spec fn slot_and_name(slot: nat, slot_name: Seq<char>) -> Seq<char> {
    text::decimal(slot) + " ("@ + slot_name + ")"@
}

pub(crate) fn write_slot_and_name(slot: usize, slot_name: &str) -> (r: String)
    ensures
        r@ == slot_and_name(slot as nat, slot_name@),
{
    let mut r = text::decimal_text(slot);
    r.append(" (");
    r.append(slot_name);
    r.append(")");
    r
}

/// The passwords file has no password for some slots of the room.
pub open spec fn passwords_missing(slots: Seq<char>) -> Seq<char> {
    "The passwords file has no password for slot(s) "@ + slots
}

pub(crate) fn write_passwords_missing(slots: &str) -> (r: String)
    ensures
        r@ == passwords_missing(slots@),
{
    let mut r = "The passwords file has no password for slot(s) ".to_string();
    r.append(slots);
    r
}

} // verus!
