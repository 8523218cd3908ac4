//! File name patterns.
//!
//! In a pattern `*` stands for any text and `?` for any one character. Every other character
//! stands for itself.

use crate::text::chars_of;
use vstd::prelude::*;

verus! {

/// Whether a pattern describes a name.
pub open spec fn matches_glob(pattern: Seq<char>, name: Seq<char>) -> bool
    decreases pattern.len() + name.len(),
{
    if pattern.len() == 0 {
        name.len() == 0
    } else if pattern[0] == '*' {
        ||| matches_glob(pattern.drop_first(), name)
        ||| name.len() > 0 && matches_glob(pattern, name.drop_first())
    } else {
        &&& name.len() > 0
        &&& pattern[0] == '?' || pattern[0] == name[0]
        &&& matches_glob(pattern.drop_first(), name.drop_first())
    }
}

/// The ends of a name, from the whole name to nothing, that the end of a pattern describes.
spec fn is_row(row: Seq<bool>, pattern: Seq<char>, name: Seq<char>) -> bool {
    &&& row.len() == name.len() + 1
    &&& forall|j: int|
        0 <= j <= name.len() ==> #[trigger] row[j] == matches_glob(pattern, name.skip(j))
}

/// The row of a pattern, given the row of the pattern without its first character.
fn next_row(pattern: Ghost<Seq<char>>, first: char, name: &Vec<char>, below: &Vec<bool>) -> (r: Vec<
    bool,
>)
    requires
        pattern@.len() > 0,
        pattern@[0] == first,
        is_row(below@, pattern@.drop_first(), name@),
    ensures
        is_row(r@, pattern@, name@),
{
    let n: usize = name.len();
    let mut row: Vec<bool> = Vec::new();
    let mut k: usize = 0;
    while k < below.len()
        invariant
            k <= below@.len(),
            row@.len() == k,
        decreases below@.len() - k,
    {
        row.push(false);
        k += 1;
    }
    let mut j: usize = n;
    proof {
        assert(name@.skip(n as int) =~= Seq::empty());
        assert(below@[n as int] == matches_glob(pattern@.drop_first(), name@.skip(n as int)));
    }
    row.set(n, first == '*' && below[n]);
    while j > 0
        invariant
            j <= n,
            n == name@.len(),
            row@.len() == n + 1,
            pattern@.len() > 0,
            pattern@[0] == first,
            is_row(below@, pattern@.drop_first(), name@),
            forall|i: int|
                j <= i <= n ==> #[trigger] row@[i] == matches_glob(pattern@, name@.skip(i)),
        decreases j,
    {
        j -= 1;
        proof {
            assert(name@.skip(j as int).drop_first() =~= name@.skip(j + 1));
            assert(name@.skip(j as int)[0] == name@[j as int]);
            assert(below@[j as int] == matches_glob(
                pattern@.drop_first(),
                name@.skip(j as int),
            ));
            assert(below@[j + 1] == matches_glob(pattern@.drop_first(), name@.skip(j + 1)));
            assert(row@[j + 1] == matches_glob(pattern@, name@.skip(j + 1)));
        }
        let here: bool = if first == '*' {
            below[j] || row[j + 1]
        } else {
            (first == '?' || first == name[j]) && below[j + 1]
        };
        row.set(j, here);
    }
    row
}

/// Whether a pattern describes a name.
pub fn glob_matches(pattern: &str, name: &str) -> (r: bool)
    ensures
        r == matches_glob(pattern@, name@),
{
    let pattern_chars = chars_of(pattern);
    let name_chars = chars_of(name);
    let mut row: Vec<bool> = Vec::new();
    let mut k: usize = 0;
    while k < name_chars.len()
        invariant
            k <= name_chars@.len(),
            row@.len() == k,
            forall|j: int| 0 <= j < k ==> #[trigger] row@[j] == false,
        decreases name_chars@.len() - k,
    {
        row.push(false);
        k += 1;
    }
    row.push(true);
    let mut i: usize = pattern_chars.len();
    while i > 0
        invariant
            i <= pattern_chars@.len(),
            is_row(row@, pattern_chars@.skip(i as int), name_chars@),
        decreases i,
    {
        i -= 1;
        let ghost rest = pattern_chars@.skip(i as int);
        proof {
            assert(rest.drop_first() =~= pattern_chars@.skip(i + 1));
        }
        row = next_row(Ghost(rest), pattern_chars[i], &name_chars, &row);
    }
    proof {
        assert(pattern_chars@.skip(0) =~= pattern@);
        assert(name_chars@.skip(0) =~= name@);
    }
    row[0]
}

/// Whether a pattern has no character that stands for others.
pub open spec fn is_plain(pattern: Seq<char>) -> bool {
    forall|i: int| 0 <= i < pattern.len() ==> #[trigger] pattern[i] != '*' && pattern[i] != '?'
}

/// A pattern of plain characters describes itself and no other name.
pub proof fn law_plain_pattern_is_a_name(pattern: Seq<char>, name: Seq<char>)
    requires
        is_plain(pattern),
    ensures
        matches_glob(pattern, name) <==> pattern == name,
    decreases pattern.len(),
{
    if pattern.len() > 0 {
        assert(pattern[0] != '*' && pattern[0] != '?');
        if name.len() > 0 {
            assert forall|i: int| 0 <= i < pattern.drop_first().len() implies #[trigger]
                pattern.drop_first()[i] != '*' && pattern.drop_first()[i] != '?' by {
                assert(pattern.drop_first()[i] == pattern[i + 1]);
            }
            law_plain_pattern_is_a_name(pattern.drop_first(), name.drop_first());
            if pattern[0] == name[0] && pattern.drop_first() == name.drop_first() {
                assert(pattern =~= seq![pattern[0]] + pattern.drop_first());
                assert(name =~= seq![name[0]] + name.drop_first());
            }
        }
    } else if name.len() == 0 {
        assert(pattern =~= name);
    }
}

/// A star in front of plain characters describes the names that end with them.
pub proof fn law_star_describes_endings(ending: Seq<char>, name: Seq<char>)
    requires
        is_plain(ending),
    ensures
        matches_glob(seq!['*'] + ending, name) <==> ending.is_suffix_of(name),
    decreases name.len(),
{
    let pattern = seq!['*'] + ending;
    assert(pattern.drop_first() =~= ending);
    law_plain_pattern_is_a_name(ending, name);
    if name.len() > 0 {
        let rest = name.drop_first();
        law_star_describes_endings(ending, rest);
        if ending.is_suffix_of(rest) {
            assert(ending =~= name.subrange(name.len() - ending.len(), name.len() as int));
        }
        if ending.is_suffix_of(name) && ending.len() < name.len() {
            assert(ending =~= rest.subrange(rest.len() - ending.len(), rest.len() as int));
        }
        if ending.is_suffix_of(name) && ending.len() == name.len() {
            assert(ending =~= name);
        }
    }
}

/// A star stands for any text: what is behind it has to describe some end of the name.
pub proof fn law_star_stands_for_any_text(rest: Seq<char>, name: Seq<char>)
    ensures
        matches_glob(seq!['*'] + rest, name) <==> exists|k: int|
            0 <= k <= name.len() && matches_glob(rest, #[trigger] name.skip(k)),
    decreases name.len(),
{
    let pattern = seq!['*'] + rest;
    assert(pattern.drop_first() =~= rest);
    assert(name.skip(0) =~= name);
    if name.len() > 0 {
        let tail = name.drop_first();
        law_star_stands_for_any_text(rest, tail);
        if matches_glob(pattern, tail) {
            let k = choose|k: int|
                0 <= k <= tail.len() && matches_glob(rest, #[trigger] tail.skip(k));
            assert(tail.skip(k) =~= name.skip(k + 1));
        }
        if exists|k: int| 0 <= k <= name.len() && matches_glob(rest, #[trigger] name.skip(k)) {
            let k = choose|k: int|
                0 <= k <= name.len() && matches_glob(rest, #[trigger] name.skip(k));
            if k > 0 {
                assert(tail.skip(k - 1) =~= name.skip(k));
            }
        }
    } else if exists|k: int|
        0 <= k <= name.len() && matches_glob(rest, #[trigger] name.skip(k)) {
        let k = choose|k: int|
            0 <= k <= name.len() && matches_glob(rest, #[trigger] name.skip(k));
        assert(name.skip(k) =~= name);
    }
}

/// A question mark stands for any one character, and every other character but the star for
/// itself. An empty pattern describes the empty name only.
pub proof fn law_characters_are_matched_one_by_one(c: char, rest: Seq<char>, name: Seq<char>)
    requires
        c != '*',
    ensures
        matches_glob(seq!['?'] + rest, name) <==> name.len() > 0 && matches_glob(
            rest,
            name.drop_first(),
        ),
        c != '?' ==> (matches_glob(seq![c] + rest, name) <==> name.len() > 0 && name[0] == c
            && matches_glob(rest, name.drop_first())),
        matches_glob(Seq::empty(), name) <==> name.len() == 0,
{
    assert((seq!['?'] + rest).drop_first() =~= rest);
    assert((seq![c] + rest).drop_first() =~= rest);
}

} // verus!
