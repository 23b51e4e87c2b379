//! What the generation page shows of an uploaded generation.

use crate::model::{
    ExpectedSlot, ExpectedSlotView, ValidatedGeneration, ValidatedGenerationView, YamlId,
};
use crate::text;
use vstd::prelude::*;
use vstd::string::*;

verus! {

/// The lines for warnings.
pub open spec fn warning_lines(warnings: Seq<Seq<char>>) -> Seq<char>
    decreases warnings.len(),
{
    if warnings.len() == 0 {
        Seq::empty()
    } else {
        warning_lines(warnings.drop_last()) + "  "@ + warnings.last() + "\n"@
    }
}

/// The part on warnings, if there are any.
pub open spec fn warnings_part(warnings: Seq<Seq<char>>) -> Seq<char> {
    if warnings.len() == 0 {
        Seq::empty()
    } else {
        "Warnings:\n"@ + warning_lines(warnings) + "\n"@
    }
}

/// Whether one of the passwords is for the YAML.
pub open spec fn has_password(passwords: Seq<(YamlId, Seq<char>)>, yaml_id: YamlId) -> bool {
    exists|i: int| 0 <= i < passwords.len() && (#[trigger] passwords[i]).0 == yaml_id
}

/// What is said of the patch of a YAML.
pub open spec fn patch_note(validated: ValidatedGenerationView, yaml_id: YamlId) -> Seq<char> {
    if validated.patches.contains_key(yaml_id) {
        validated.patches[yaml_id]
    } else {
        "no output file"@
    }
}

/// What is said of the password of a YAML.
pub open spec fn password_note(validated: ValidatedGenerationView, yaml_id: YamlId) -> Seq<char> {
    match validated.passwords {
        Some(passwords) => if has_password(passwords, yaml_id) {
            ", password set"@
        } else {
            ", no password"@
        },
        None => ""@,
    }
}

/// The line for a slot.
pub open spec fn slot_line(
    validated: ValidatedGenerationView,
    expected: ExpectedSlotView,
) -> Seq<char> {
    "Slot "@ + text::decimal(expected.slot) + ": "@ + expected.name + " ("@ + expected.game
        + "): "@ + patch_note(validated, expected.yaml_id) + password_note(
        validated,
        expected.yaml_id,
    ) + "\n"@
}

/// The lines for slots.
pub open spec fn slot_lines(
    validated: ValidatedGenerationView,
    expected: Seq<ExpectedSlotView>,
) -> Seq<char>
    decreases expected.len(),
{
    if expected.len() == 0 {
        Seq::empty()
    } else {
        slot_lines(validated, expected.drop_last()) + slot_line(validated, expected.last())
    }
}

/// The part on passwords, if none were uploaded.
pub open spec fn passwords_part(passwords: Option<Seq<(YamlId, Seq<char>)>>) -> Seq<char> {
    if passwords is None {
        "\nNo passwords file uploaded, existing slot passwords were left unchanged\n"@
    } else {
        Seq::empty()
    }
}

/// The log of an uploaded generation.
pub open spec fn log_text(
    validated: ValidatedGenerationView,
    expected: Seq<ExpectedSlotView>,
) -> Seq<char> {
    "Uploaded generation for seed "@ + validated.seed_name + "\n\n"@ + warnings_part(
        validated.warnings,
    ) + slot_lines(validated, expected) + passwords_part(validated.passwords)
}

/// Whether one of the passwords is for the YAML.
fn finds_password(passwords: &Vec<(YamlId, String)>, yaml_id: YamlId) -> (r: bool)
    ensures
        r == has_password(passwords.deep_view(), yaml_id),
{
    let ghost all = passwords.deep_view();
    let mut i: usize = 0;
    while i < passwords.len()
        invariant
            i <= passwords@.len(),
            all == passwords.deep_view(),
            forall|j: int| 0 <= j < i ==> (#[trigger] all[j]).0 != yaml_id,
        decreases passwords@.len() - i,
    {
        assert(all[i as int].0 == passwords@[i as int].0);
        if passwords[i].0 == yaml_id {
            return true;
        }
        i = i + 1;
    }
    false
}

/// Writes the part on warnings.
fn write_warnings(log: &mut String, warnings: &Vec<String>)
    ensures
        final(log)@ == old(log)@ + warnings_part(warnings.deep_view()),
{
    let ghost start = log@;
    let ghost all = warnings.deep_view();
    if warnings.is_empty() {
        assert(log@ =~= start + warnings_part(all));
        return;
    }
    log.append("Warnings:\n");
    let mut i: usize = 0;
    assert(log@ =~= start + "Warnings:\n"@ + warning_lines(all.take(0)));
    while i < warnings.len()
        invariant
            i <= warnings@.len(),
            all == warnings.deep_view(),
            log@ == start + "Warnings:\n"@ + warning_lines(all.take(i as int)),
        decreases warnings@.len() - i,
    {
        proof {
            assert(all.take(i + 1).drop_last() =~= all.take(i as int));
            assert(all.take(i + 1).last() == warnings@[i as int]@);
        }
        log.append("  ");
        log.append(warnings[i].as_str());
        log.append("\n");
        assert(log@ =~= start + "Warnings:\n"@ + warning_lines(all.take(i + 1)));
        i = i + 1;
    }
    log.append("\n");
    assert(all.take(warnings@.len() as int) =~= all);
    assert(log@ =~= start + warnings_part(all));
}

/// Writes the line for a slot.
fn write_slot(log: &mut String, validated: &ValidatedGeneration, expected: &ExpectedSlot)
    ensures
        final(log)@ == old(log)@ + slot_line(validated.deep_view(), expected.deep_view()),
{
    let ghost start = log@;
    log.append("Slot ");
    log.append(text::decimal_text(expected.slot).as_str());
    log.append(": ");
    log.append(expected.name.as_str());
    log.append(" (");
    log.append(expected.game.as_str());
    log.append("): ");
    match validated.patches.get(&expected.yaml_id) {
        Some(patch) => {
            log.append(patch.as_str());
        },
        None => {
            log.append("no output file");
        },
    }
    match &validated.passwords {
        Some(passwords) => {
            if finds_password(passwords, expected.yaml_id) {
                log.append(", password set");
            } else {
                log.append(", no password");
            }
        },
        None => {
            log.append("");
        },
    }
    log.append("\n");
    assert(log@ =~= start + slot_line(validated.deep_view(), expected.deep_view()));
}

/// What the generation page shows in place of a worker's log.
pub fn upload_log(validated: &ValidatedGeneration, expected: &[ExpectedSlot]) -> (log: String)
    ensures
        log@ == log_text(validated.deep_view(), expected.deep_view()),
{
    let mut log = "Uploaded generation for seed ".to_string();
    log.append(validated.seed_name.as_str());
    log.append("\n\n");
    write_warnings(&mut log, &validated.warnings);
    let ghost start = log@;
    let ghost view = validated.deep_view();
    let ghost all = expected.deep_view();
    let mut i: usize = 0;
    assert(log@ =~= start + slot_lines(view, all.take(0)));
    while i < expected.len()
        invariant
            i <= expected@.len(),
            view == validated.deep_view(),
            all == expected.deep_view(),
            log@ == start + slot_lines(view, all.take(i as int)),
        decreases expected@.len() - i,
    {
        proof {
            assert(all.take(i + 1).drop_last() =~= all.take(i as int));
            assert(all.take(i + 1).last() == expected@[i as int].deep_view());
        }
        write_slot(&mut log, validated, &expected[i]);
        assert(log@ =~= start + slot_lines(view, all.take(i + 1)));
        i = i + 1;
    }
    assert(all.take(expected@.len() as int) =~= all);
    if validated.passwords.is_none() {
        log.append("\nNo passwords file uploaded, existing slot passwords were left unchanged\n");
    }
    assert(log@ =~= log_text(view, all));
    log
}

} // verus!
