//! What the functions on texts, numbers and names give.

use crate::matching;
use crate::matching::{file_safe_name, game_matches};
use crate::patch_name;
use crate::patch_name::{parse_patch_name, PatchName};
use crate::text;
use crate::text::{
    chars_of, decimal_text, ends_with, join, parse_digits, same_text, starts_with, strip_prefix,
    strip_suffix,
};
use vstd::prelude::*;

verus! {

// ---------------------------------------------------------------------------
// Texts
// ---------------------------------------------------------------------------

/// A text starts with what it can be cut behind, and stripping that leaves the rest.
pub proof fn law_prefixes(whole: &str, prefix: &str, starts: bool, rest: Option<&str>)
    requires
        call_ensures(starts_with, (whole, prefix), starts),
        call_ensures(strip_prefix, (whole, prefix), rest),
    ensures
        forall|end: Seq<char>| whole@ == #[trigger] (prefix@ + end) ==> starts && rest is Some
            && rest->0@ == end,
        starts ==> rest is Some && whole@ == prefix@ + rest->0@,
        !starts ==> rest is None,
{
    assert forall|end: Seq<char>| whole@ == #[trigger] (prefix@ + end) implies starts
        && rest is Some && rest->0@ == end by {
        assert(whole@.subrange(0, prefix@.len() as int) =~= prefix@);
        assert(whole@.skip(prefix@.len() as int) =~= end);
    }
    if starts {
        assert(whole@ =~= prefix@ + whole@.skip(prefix@.len() as int));
    }
}

/// A text ends with what it can be cut before, and stripping that leaves the rest.
pub proof fn law_suffixes(whole: &str, suffix: &str, ends: bool, rest: Option<&str>)
    requires
        call_ensures(ends_with, (whole, suffix), ends),
        call_ensures(strip_suffix, (whole, suffix), rest),
    ensures
        forall|start: Seq<char>| whole@ == #[trigger] (start + suffix@) ==> ends && rest is Some
            && rest->0@ == start,
        ends ==> rest is Some && whole@ == rest->0@ + suffix@,
        !ends ==> rest is None,
{
    let cut = whole@.len() - suffix@.len();
    assert forall|start: Seq<char>| whole@ == #[trigger] (start + suffix@) implies ends
        && rest is Some && rest->0@ == start by {
        assert(whole@.subrange(cut, whole@.len() as int) =~= suffix@);
        assert(whole@.take(cut) =~= start);
    }
    if ends {
        assert(whole@ =~= whole@.take(cut) + suffix@);
    }
}

/// Texts are the same where they have the same characters, which are the characters listed.
pub proof fn law_same_characters(a: &str, b: &str, same: bool, x: Vec<char>, y: Vec<char>)
    requires
        call_ensures(same_text, (a, b), same),
        call_ensures(chars_of, (a,), x),
        call_ensures(chars_of, (b,), y),
    ensures
        x@ == a@,
        same <==> x@ == y@,
{
}

/// Joining one text more puts the separator and the text behind the others.
pub proof fn law_joining(
    before: Vec<String>,
    after: Vec<String>,
    sep: &str,
    shorter: String,
    longer: String,
)
    requires
        call_ensures(join, (&before, sep), shorter),
        call_ensures(join, (&after, sep), longer),
        after@.len() == before@.len() + 1,
        forall|i: int| 0 <= i < before@.len() ==> after@[i]@ == #[trigger] before@[i]@,
    ensures
        before@.len() == 0 ==> shorter@ == Seq::<char>::empty() && longer@ == after@[0]@,
        before@.len() > 0 ==> longer@ == shorter@ + sep@ + after@[before@.len() as int]@,
{
    assert(after.deep_view().drop_last() =~= before.deep_view());
    assert(after.deep_view().last() == after@[before@.len() as int]@);
}

/// Joined texts grow by the separator and the next text.
pub proof fn law_joined(texts: Seq<Seq<char>>, next: Seq<char>, sep: Seq<char>)
    ensures
        text::joined(Seq::empty(), sep) == Seq::<char>::empty(),
        text::joined(seq![next], sep) == next,
        texts.len() > 0 ==> text::joined(texts.push(next), sep) == text::joined(texts, sep) + sep
            + next,
{
    assert(texts.push(next).drop_last() =~= texts);
}

// ---------------------------------------------------------------------------
// Numbers
// ---------------------------------------------------------------------------

/// A number below ten is written as its digit; any other as what it is without its last digit,
/// and then that digit.
pub proof fn law_numbers_are_written_digit_by_digit(
    n: usize,
    tenth: usize,
    whole: String,
    start: String,
)
    requires
        call_ensures(decimal_text, (n,), whole),
        call_ensures(decimal_text, (tenth,), start),
        tenth == n / 10,
    ensures
        n < 10 ==> whole@ == seq![(48 + n) as char],
        n >= 10 ==> whole@ == start@.push((48 + n % 10) as char),
{
}

/// The same of the decimal form of any number.
pub proof fn law_decimal_form(n: nat)
    ensures
        n < 10 ==> text::decimal(n) == seq![(48 + n) as char],
        n >= 10 ==> text::decimal(n) == text::decimal(n / 10).push((48 + n % 10) as char),
{
}

/// A digit more makes a number ten times what it was, and adds the digit. What a `usize` cannot
/// hold is not read, and neither is anything longer.
pub proof fn law_numbers_are_read_digit_by_digit(
    start: &str,
    whole: &str,
    digit: char,
    before: Option<usize>,
    after: Option<usize>,
)
    requires
        call_ensures(parse_digits, (start,), before),
        call_ensures(parse_digits, (whole,), after),
        whole@ == start@.push(digit),
        '0' <= digit <= '9',
    ensures
        start@.len() == 0 ==> before == Some(0usize),
        match before {
            Some(n) => {
                let next = n * 10 + (digit as int - '0' as int);
                if next <= usize::MAX {
                    after == Some(next as usize)
                } else {
                    after is None
                }
            },
            None => after is None,
        },
{
    assert(whole@.drop_last() =~= start@);
}

/// The same of the value of any digits.
pub proof fn law_value_of_digits(start: Seq<char>, digit: char)
    requires
        '0' <= digit <= '9',
    ensures
        text::digits_value(Seq::empty()) == 0,
        text::digits_value(start.push(digit)) == text::digits_value(start) * 10 + (digit as int
            - '0' as int),
{
    assert(start.push(digit).drop_last() =~= start);
}

// ---------------------------------------------------------------------------
// File names
// ---------------------------------------------------------------------------

/// A text put together as an output file name is one: `AP`, the seed, `P` and the slot, the
/// player and the extension, whatever they are. It is taken apart into what it was put together
/// from.
pub proof fn law_output_names_are_taken_apart(
    name: &str,
    seed: Seq<char>,
    slot: Seq<char>,
    player: Seq<char>,
    extension: Seq<char>,
    separators: (char, char, char),
    r: Option<PatchName>,
)
    requires
        call_ensures(parse_patch_name, (name,), r),
        name@ == seq!['A', 'P', separators.0] + seed + seq![separators.1, 'P'] + slot
            + seq![separators.2] + player + seq!['.'] + extension,
        separators.0 == '_' || separators.0 == '-',
        separators.1 == '_' || separators.1 == '-',
        separators.2 == '_' || separators.2 == '-',
        seed.len() > 0 && forall|i: int| 0 <= i < seed.len() ==> '0' <= #[trigger] seed[i] <= '9',
        slot.len() > 0 && forall|i: int| 0 <= i < slot.len() ==> '0' <= #[trigger] slot[i] <= '9',
        forall|i: int| 0 <= i < player.len() ==> #[trigger] player[i] != '\n',
        forall|i: int| 0 <= i < extension.len() ==> #[trigger] extension[i] != '.',
    ensures
        r is Some && r->0.seed@ == seed && r->0.slot@ == slot && r->0.player@ == player,
{
    let parts = patch_name::PatchNameView { seed, slot, player };
    patch_name::law_written_name_reads_back(parts, separators, extension);
    assert(r->0@ == parts);
}

/// A name that is taken for that of an output file can be put together again from what it was
/// taken apart into.
pub proof fn law_output_names_are_put_together_again(name: &str, r: Option<PatchName>)
    requires
        call_ensures(parse_patch_name, (name,), r),
        r is Some,
    ensures
        ({
            let seed = r->0.seed@;
            let slot = r->0.slot@;
            let player = r->0.player@;
            let a = name@[2];
            let b = name@[(3 + seed.len()) as int];
            let c = name@[(5 + seed.len() + slot.len()) as int];
            let extension = name@.skip((7 + seed.len() + slot.len() + player.len()) as int);
            &&& name@ == seq!['A', 'P', a] + seed + seq![b, 'P'] + slot + seq![c] + player
                + seq!['.'] + extension
            &&& (a == '_' || a == '-') && (b == '_' || b == '-') && (c == '_' || c == '-')
            &&& seed.len() > 0 && forall|i: int|
                0 <= i < seed.len() ==> '0' <= #[trigger] seed[i] <= '9'
            &&& slot.len() > 0 && forall|i: int|
                0 <= i < slot.len() ==> '0' <= #[trigger] slot[i] <= '9'
            &&& forall|i: int| 0 <= i < player.len() ==> #[trigger] player[i] != '\n'
            &&& forall|i: int| 0 <= i < extension.len() ==> #[trigger] extension[i] != '.'
        }),
{
    let (a, b, d) = choose|a: int, b: int, d: int| patch_name::is_cut_at(name@, a, b, d);
    patch_name::law_one_reading(name@, a, b, d);
    let p = r->0;
    assert(p@ == patch_name::parts_at(name@, a, b, d));
    let extension = name@.skip(7 + (p.seed@.len() + p.slot@.len() + p.player@.len()) as int);
    assert(extension =~= name@.skip(d + 1));
    assert(name@ =~= seq!['A', 'P', name@[2]] + p.seed@ + seq![name@[a], 'P'] + p.slot@
        + seq![name@[b]] + p.player@ + seq!['.'] + extension);
    assert forall|i: int| 0 <= i < p.seed@.len() implies '0' <= #[trigger] p.seed@[i] <= '9' by {
        assert(text::is_digit(name@[i + 3]));
    }
    assert forall|i: int| 0 <= i < p.slot@.len() implies '0' <= #[trigger] p.slot@[i] <= '9' by {
        assert(text::is_digit(name@[i + a + 2]));
    }
    assert forall|i: int| 0 <= i < p.player@.len() implies #[trigger] p.player@[i] != '\n' by {
        assert(name@[i + b + 1] != '\n');
    }
}

/// The reading of a name that the contracts speak of is what taking the name apart gives.
pub proof fn law_reading_of_names(name: &str, r: Option<PatchName>)
    requires
        call_ensures(parse_patch_name, (name,), r),
    ensures
        match (patch_name::patch_name(name@), r) {
            (Some(parts), Some(p)) => parts.seed == p.seed@ && parts.slot == p.slot@ && parts.player
                == p.player@,
            (None, None) => true,
            _ => false,
        },
{
}

/// A name is made file safe one character after the other, whatever surrounds it: nine
/// characters are left out, a space becomes an underscore, and any other stays.
pub proof fn law_names_are_made_safe_by_characters(
    name: &str,
    before: &str,
    c: char,
    safe: String,
    safe_before: String,
)
    requires
        call_ensures(file_safe_name, (name,), safe),
        call_ensures(file_safe_name, (before,), safe_before),
        name@ == before@.push(c),
    ensures
        before@.len() == 0 ==> safe_before@.len() == 0,
        safe@ == (if c == '<' || c == '>' || c == ':' || c == '"' || c == '/' || c == '\\' || c
            == '|' || c == '?' || c == '*' {
            safe_before@
        } else if c == ' ' {
            safe_before@.push('_')
        } else {
            safe_before@.push(c)
        }),
{
    matching::lemma_file_safe_next(name@);
    assert(name@.drop_last() =~= before@);
    if before@.len() == 0 {
        reveal(Seq::filter);
    }
}

/// The same of the file safe form of any name.
pub proof fn law_file_safe_form(before: Seq<char>, c: char)
    ensures
        matching::file_safe(Seq::empty()).len() == 0,
        matching::file_safe(before.push(c)) == (if c == '<' || c == '>' || c == ':' || c == '"' || c
            == '/' || c == '\\' || c == '|' || c == '?' || c == '*' {
            matching::file_safe(before)
        } else if c == ' ' {
            matching::file_safe(before).push('_')
        } else {
            matching::file_safe(before).push(c)
        }),
{
    matching::lemma_file_safe_next(before.push(c));
    assert(before.push(c).drop_last() =~= before);
    reveal(Seq::filter);
}

// ---------------------------------------------------------------------------
// Games
// ---------------------------------------------------------------------------

/// A game matches exactly where it has the expected name, in full, or where the YAML picks its
/// game at random.
pub proof fn law_games_match_by_their_names(expected: &str, actual: &str, r: bool)
    requires
        call_ensures(game_matches, (expected, actual), r),
    ensures
        r <==> expected@ == actual@ || "Random ("@.is_prefix_of(expected@),
        r && !"Random ("@.is_prefix_of(expected@) ==> expected@ == actual@,
{
}

/// The same of what is called an expected game.
pub proof fn law_expected_games(expected: Seq<char>, actual: Seq<char>)
    ensures
        matching::is_game_expected(expected, actual) <==> expected == actual
            || "Random ("@.is_prefix_of(expected),
{
}

} // verus!
