//! The names that output files of a generation carry:
//! `AP_<seed>_P<slot>_<file safe player name>.<ext>`, where each `_` may also be a `-`.

use crate::text;
use vstd::prelude::*;
use vstd::string::*;

verus! {

/// What an output file name says of the file.
pub struct PatchName {
    /// The digits of the seed.
    pub seed: String,
    /// The digits of the slot number.
    pub slot: String,
    /// What stands for the player's name, up to the last dot.
    pub player: String,
}

/// The mathematical content of a [`PatchName`].
#[verifier::ext_equal]
pub struct PatchNameView {
    pub seed: Seq<char>,
    pub slot: Seq<char>,
    pub player: Seq<char>,
}

impl View for PatchName {
    type V = PatchNameView;

    open spec fn view(&self) -> PatchNameView {
        PatchNameView { seed: self.seed@, slot: self.slot@, player: self.player@ }
    }
}

/// Whether `c` may separate two parts of an output file name.
pub open spec fn is_separator(c: char) -> bool {
    c == '_' || c == '-'
}

/// Whether `name` is `AP`, a separator, the seed's digits up to `a`, a separator at `a`, a `P`,
/// the slot's digits up to `b`, a separator at `b`, the player's name (on one line) up to `d`,
/// the dot at `d`, and an extension without a dot.
pub open spec fn is_cut_at(name: Seq<char>, a: int, b: int, d: int) -> bool {
    &&& 3 < a && a + 2 < b && b < d && d < name.len()
    &&& name[0] == 'A' && name[1] == 'P' && is_separator(name[2])
    &&& forall|i: int| 3 <= i < a ==> text::is_digit(#[trigger] name[i])
    &&& is_separator(name[a]) && name[a + 1] == 'P'
    &&& forall|i: int| a + 2 <= i < b ==> text::is_digit(#[trigger] name[i])
    &&& is_separator(name[b])
    &&& forall|i: int| b < i < d ==> #[trigger] name[i] != '\n'
    &&& name[d] == '.'
    &&& forall|i: int| d < i < name.len() ==> #[trigger] name[i] != '.'
}

/// The parts of a name that is cut at the given positions.
pub open spec fn parts_at(name: Seq<char>, a: int, b: int, d: int) -> PatchNameView {
    PatchNameView {
        seed: name.subrange(3, a),
        slot: name.subrange(a + 2, b),
        player: name.subrange(b + 1, d),
    }
}

/// Whether `name` has the form of an output file name.
pub open spec fn is_patch_name(name: Seq<char>) -> bool {
    exists|a: int, b: int, d: int| is_cut_at(name, a, b, d)
}

/// What `name` says of the file, if it has the form of an output file name.
pub open spec fn patch_name(name: Seq<char>) -> Option<PatchNameView> {
    if is_patch_name(name) {
        let (a, b, d) = choose|a: int, b: int, d: int| is_cut_at(name, a, b, d);
        Some(parts_at(name, a, b, d))
    } else {
        None
    }
}

/// An output file name can be cut in one way only.
pub proof fn law_one_reading(name: Seq<char>, a: int, b: int, d: int)
    requires
        is_cut_at(name, a, b, d),
    ensures
        patch_name(name) == Some(parts_at(name, a, b, d)),
        forall|p: int, q: int, r: int| is_cut_at(name, p, q, r) ==> p == a && q == b && r == d,
{
    assert forall|p: int, q: int, r: int| is_cut_at(name, p, q, r) implies p == a && q == b && r
        == d by {
        if p < a {
            assert(text::is_digit(name[p]));
        }
        if a < p {
            assert(text::is_digit(name[a]));
        }
        if q < b {
            assert(text::is_digit(name[q]));
        }
        if b < q {
            assert(text::is_digit(name[b]));
        }
        if r < d {
            assert(name[d] != '.');
        }
        if d < r {
            assert(name[r] != '.');
        }
    }
}

/// The seed and the slot of an output file name are digits, at least one each.
pub proof fn law_parts_are_digits(name: Seq<char>)
    requires
        patch_name(name) is Some,
    ensures
        patch_name(name)->0.seed.len() > 0,
        text::all_digits(patch_name(name)->0.seed),
        patch_name(name)->0.slot.len() > 0,
        text::all_digits(patch_name(name)->0.slot),
{
    let (a, b, d) = choose|a: int, b: int, d: int| is_cut_at(name, a, b, d);
    law_one_reading(name, a, b, d);
}

/// A name written in the format is read back: whatever the digits of the seed and the slot,
/// the player's name on one line, the separators and the extension without a dot.
pub proof fn law_written_name_reads_back(
    parts: PatchNameView,
    separators: (char, char, char),
    extension: Seq<char>,
)
    requires
        parts.seed.len() > 0 && text::all_digits(parts.seed),
        parts.slot.len() > 0 && text::all_digits(parts.slot),
        !parts.player.contains('\n'),
        is_separator(separators.0) && is_separator(separators.1) && is_separator(separators.2),
        !extension.contains('.'),
    ensures
        patch_name(
            seq!['A', 'P', separators.0] + parts.seed + seq![separators.1, 'P'] + parts.slot
                + seq![separators.2] + parts.player + seq!['.'] + extension,
        ) == Some(parts),
{
    let name = seq!['A', 'P', separators.0] + parts.seed + seq![separators.1, 'P'] + parts.slot
        + seq![separators.2] + parts.player + seq!['.'] + extension;
    let a = 3 + parts.seed.len() as int;
    let b = a + 2 + parts.slot.len() as int;
    let d = b + 1 + parts.player.len() as int;
    assert(name.subrange(3, a) =~= parts.seed);
    assert(name.subrange(a + 2, b) =~= parts.slot);
    assert(name.subrange(b + 1, d) =~= parts.player);
    assert forall|i: int| 3 <= i < a implies text::is_digit(#[trigger] name[i]) by {
        assert(name[i] == parts.seed[i - 3]);
    }
    assert forall|i: int| a + 2 <= i < b implies text::is_digit(#[trigger] name[i]) by {
        assert(name[i] == parts.slot[i - a - 2]);
    }
    assert forall|i: int| b < i < d implies #[trigger] name[i] != '\n' by {
        assert(name[i] == parts.player[i - b - 1]);
    }
    assert forall|i: int| d < i < name.len() implies #[trigger] name[i] != '.' by {
        assert(name[i] == extension[i - d - 1]);
    }
    assert(is_cut_at(name, a, b, d));
    law_one_reading(name, a, b, d);
}

/// Where the digits that start at `from` end.
fn digits_end(x: &Vec<char>, from: usize) -> (end: usize)
    requires
        from <= x@.len(),
    ensures
        from <= end <= x@.len(),
        forall|i: int| from <= i < end ==> text::is_digit(#[trigger] x@[i]),
        end < x@.len() ==> !text::is_digit(x@[end as int]),
{
    let mut end: usize = from;
    while end < x.len() && '0' <= x[end] && x[end] <= '9'
        invariant
            from <= end <= x@.len(),
            forall|i: int| from <= i < end ==> text::is_digit(#[trigger] x@[i]),
        decreases x@.len() - end,
    {
        end = end + 1;
    }
    end
}

/// The position of the last dot.
fn last_dot(x: &Vec<char>) -> (at: Option<usize>)
    ensures
        at matches Some(d) ==> d < x@.len() && x@[d as int] == '.' && forall|i: int|
            d < i < x@.len() ==> #[trigger] x@[i] != '.',
        at is None ==> forall|i: int| 0 <= i < x@.len() ==> #[trigger] x@[i] != '.',
{
    let mut i: usize = x.len();
    while i > 0
        invariant
            i <= x@.len(),
            forall|j: int| i <= j < x@.len() ==> #[trigger] x@[j] != '.',
        decreases i,
    {
        i = i - 1;
        if x[i] == '.' {
            return Some(i);
        }
    }
    None
}

/// Whether the characters from `from` up to `to` stand on one line.
fn on_one_line(x: &Vec<char>, from: usize, to: usize) -> (r: bool)
    requires
        from <= to <= x@.len(),
    ensures
        r == forall|i: int| from <= i < to ==> #[trigger] x@[i] != '\n',
{
    let mut i: usize = from;
    while i < to
        invariant
            from <= i <= to <= x@.len(),
            forall|j: int| from <= j < i ==> #[trigger] x@[j] != '\n',
        decreases to - i,
    {
        if x[i] == '\n' {
            return false;
        }
        i = i + 1;
    }
    true
}

fn separates(c: char) -> (r: bool)
    ensures
        r == is_separator(c),
{
    c == '_' || c == '-'
}

/// Where an output file name is to be cut.
fn find_cuts(x: &Vec<char>) -> (r: Option<(usize, usize, usize)>)
    ensures
        match r {
            Some((a, b, d)) => is_cut_at(x@, a as int, b as int, d as int),
            None => !is_patch_name(x@),
        },
{
    let n: usize = x.len();
    if n < 3 || x[0] != 'A' || x[1] != 'P' || !separates(x[2]) {
        return None;
    }
    let a: usize = digits_end(x, 3);
    proof {
        assert forall|p: int, q: int, r: int| is_cut_at(x@, p, q, r) implies p == a by {
            if p < a {
                assert(text::is_digit(x@[p]));
            }
            if a < p {
                assert(text::is_digit(x@[a as int]));
            }
        }
    }
    if a == 3 || a == n || !separates(x[a]) || n - a < 2 || x[a + 1] != 'P' {
        return None;
    }
    let b: usize = digits_end(x, a + 2);
    proof {
        assert forall|p: int, q: int, r: int| is_cut_at(x@, p, q, r) implies q == b by {
            if q < b {
                assert(text::is_digit(x@[q]));
            }
            if b < q {
                assert(text::is_digit(x@[b as int]));
            }
        }
    }
    if b == a + 2 || b == n || !separates(x[b]) {
        return None;
    }
    let dot = last_dot(x);
    proof {
        assert forall|p: int, q: int, r: int| is_cut_at(x@, p, q, r) implies dot == Some(
            r as usize,
        ) by {
            assert(x@[r] == '.');
            if let Some(d) = dot {
                if d < r {
                    assert(x@[r] != '.');
                }
                if r < d {
                    assert(x@[d as int] != '.');
                }
            }
        }
    }
    match dot {
        None => None,
        Some(d) => {
            if d <= b || !on_one_line(x, b + 1, d) {
                None
            } else {
                Some((a, b, d))
            }
        },
    }
}

/// Reads an output file name.
pub fn parse_patch_name(name: &str) -> (r: Option<PatchName>)
    ensures
        match r {
            Some(p) => patch_name(name@) == Some(p@),
            None => patch_name(name@) is None,
        },
{
    let x = text::chars_of(name);
    match find_cuts(&x) {
        None => None,
        Some((a, b, d)) => {
            let p = PatchName {
                seed: name.substring_char(3, a).to_string(),
                slot: name.substring_char(a + 2, b).to_string(),
                player: name.substring_char(b + 1, d).to_string(),
            };
            proof {
                law_one_reading(name@, a as int, b as int, d as int);
            }
            Some(p)
        },
    }
}

} // verus!
