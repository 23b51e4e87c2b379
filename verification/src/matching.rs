//! How a generation's games and file names are held against those of a room.

use crate::text::{chars_of, same_text, starts_with};
use vstd::prelude::*;
use vstd::string::*;

verus! {

/// Whether AP leaves `c` out of file names.
pub open spec fn is_left_out(c: char) -> bool {
    c == '<' || c == '>' || c == ':' || c == '"' || c == '/' || c == '\\' || c == '|' || c == '?'
        || c == '*'
}

/// How AP writes `c` in file names.
pub open spec fn file_safe_char(c: char) -> char {
    if c == ' ' {
        '_'
    } else {
        c
    }
}

/// How AP writes a player's name in file names.
pub open spec fn file_safe(name: Seq<char>) -> Seq<char> {
    name.filter(|c: char| !is_left_out(c)).map_values(|c: char| file_safe_char(c))
}

/// One more character of the name.
pub proof fn lemma_file_safe_next(name: Seq<char>)
    requires
        name.len() > 0,
    ensures
        file_safe(name) == (if is_left_out(name.last()) {
            file_safe(name.drop_last())
        } else {
            file_safe(name.drop_last()).push(file_safe_char(name.last()))
        }),
{
    reveal(Seq::filter);
    let keep = |c: char| !is_left_out(c);
    let write = |c: char| file_safe_char(c);
    if keep(name.last()) {
        assert(name.filter(keep).map_values(write) =~= name.drop_last().filter(keep).map_values(
            write,
        ).push(write(name.last())));
    }
}

/// A file safe name has no spaces and none of the characters that are left out.
pub proof fn law_file_safe_names_are_safe(name: Seq<char>)
    ensures
        forall|i: int|
            0 <= i < file_safe(name).len() ==> !is_left_out(#[trigger] file_safe(name)[i])
                && file_safe(name)[i] != ' ',
    decreases name.len(),
{
    if name.len() == 0 {
        reveal(Seq::filter);
    } else {
        law_file_safe_names_are_safe(name.drop_last());
        lemma_file_safe_next(name);
    }
}

/// A name without spaces and without the characters that are left out is kept as it is.
pub proof fn law_safe_names_are_kept(name: Seq<char>)
    requires
        forall|i: int| 0 <= i < name.len() ==> !is_left_out(#[trigger] name[i]) && name[i] != ' ',
    ensures
        file_safe(name) == name,
    decreases name.len(),
{
    if name.len() == 0 {
        reveal(Seq::filter);
        assert(file_safe(name) =~= name);
    } else {
        law_safe_names_are_kept(name.drop_last());
        lemma_file_safe_next(name);
        assert(name.drop_last().push(name.last()) =~= name);
    }
}

/// How AP writes a player's name in file names.
pub fn file_safe_name(name: &str) -> (r: String)
    ensures
        r@ == file_safe(name@),
{
    let x = chars_of(name);
    let mut r = String::new();
    let mut i: usize = 0;
    proof {
        reveal(Seq::filter);
        assert(r@ =~= file_safe(x@.take(0)));
    }
    while i < x.len()
        invariant
            i <= x@.len(),
            r@ == file_safe(x@.take(i as int)),
        decreases x@.len() - i,
    {
        let c = x[i];
        proof {
            let next = x@.take(i + 1);
            assert(next.drop_last() =~= x@.take(i as int));
            lemma_file_safe_next(next);
        }
        if !(c == '<' || c == '>' || c == ':' || c == '"' || c == '/' || c == '\\' || c == '|' || c
            == '?' || c == '*') {
            if c == ' ' {
                r.push('_');
            } else {
                r.push(c);
            }
        }
        i = i + 1;
    }
    assert(x@.take(x@.len() as int) =~= x@);
    r
}

/// Whether a generated game is what the room expects: a YAML that picks its game at random
/// may become any.
pub open spec fn is_game_expected(expected: Seq<char>, actual: Seq<char>) -> bool {
    expected == actual || "Random ("@.is_prefix_of(expected)
}

/// Whether a generated game is what the room expects.
pub fn game_matches(expected: &str, actual: &str) -> (r: bool)
    ensures
        r == is_game_expected(expected@, actual@),
{
    same_text(expected, actual) || starts_with(expected, "Random (")
}

} // verus!
