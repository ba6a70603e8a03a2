//! Unique display names: a name that is already taken gets the suffix `_1`,
//! `_2`, ... with the smallest number that is still free.

use vstd::prelude::*;
use vstd::set_lib::{lemma_int_range, lemma_len_subset, set_int_range};
use crate::selection::{position_of_name, texts};

verus! {

/// The character of a decimal digit.
pub open spec fn digit(value: nat) -> char {
    if value == 0 {
        '0'
    } else if value == 1 {
        '1'
    } else if value == 2 {
        '2'
    } else if value == 3 {
        '3'
    } else if value == 4 {
        '4'
    } else if value == 5 {
        '5'
    } else if value == 6 {
        '6'
    } else if value == 7 {
        '7'
    } else if value == 8 {
        '8'
    } else {
        '9'
    }
}

/// The value of a decimal digit; 0 for any other character.
pub open spec fn digit_value(c: char) -> nat {
    if c == '1' {
        1
    } else if c == '2' {
        2
    } else if c == '3' {
        3
    } else if c == '4' {
        4
    } else if c == '5' {
        5
    } else if c == '6' {
        6
    } else if c == '7' {
        7
    } else if c == '8' {
        8
    } else if c == '9' {
        9
    } else {
        0
    }
}

/// A number in decimal, without sign or leading zeros.
pub open spec fn decimal(value: nat) -> Seq<char>
    decreases value,
{
    if value < 10 {
        seq![digit(value)]
    } else {
        decimal(value / 10).push(digit(value % 10))
    }
}

/// The number that a row of decimal digits stands for.
pub open spec fn decimal_value(digits: Seq<char>) -> nat
    decreases digits.len(),
{
    if digits.len() == 0 {
        0
    } else {
        decimal_value(digits.drop_last()) * 10 + digit_value(digits.last())
    }
}

/// The name probed at a depth: the name itself at depth 0, and the name
/// with `_` and the depth in decimal after it.
pub open spec fn candidate(name: Seq<char>, depth: nat) -> Seq<char> {
    if depth == 0 {
        name
    } else {
        name + seq!['_'] + decimal(depth)
    }
}

/// `depth` is the first depth whose candidate is not among `taken`.
pub open spec fn is_alias_depth(name: Seq<char>, taken: Seq<Seq<char>>, depth: nat) -> bool {
    &&& !taken.contains(candidate(name, depth))
    &&& forall|earlier: nat| earlier < depth ==> taken.contains(#[trigger] candidate(name, earlier))
}

/// The display name of a column called `name` beside the names `taken`.
pub open spec fn alias_of(name: Seq<char>, taken: Seq<Seq<char>>) -> Seq<char> {
    candidate(name, choose|depth: nat| is_alias_depth(name, taken, depth))
}

/// Reading back the decimal form of a number gives the number.
pub proof fn lemma_decimal_value(value: nat)
    ensures
        decimal_value(decimal(value)) == value,
        decimal(value).len() >= 1,
    decreases value,
{
    if value < 10 {
        assert(decimal(value).drop_last() =~= Seq::<char>::empty());
        assert(decimal_value(decimal(value).drop_last()) == 0);
        assert(decimal(value).last() == digit(value));
    } else {
        lemma_decimal_value(value / 10);
        assert(decimal(value).drop_last() =~= decimal(value / 10));
        assert(decimal(value).last() == digit(value % 10));
    }
}

/// Different depths probe different names.
pub proof fn lemma_candidates_differ(name: Seq<char>, first: nat, second: nat)
    requires
        first != second,
    ensures
        candidate(name, first) != candidate(name, second),
{
    lemma_decimal_value(first);
    lemma_decimal_value(second);
    if first != 0 && second != 0 {
        let a = candidate(name, first);
        let b = candidate(name, second);
        let from = name.len() + 1;
        assert(a.subrange(from as int, a.len() as int) =~= decimal(first));
        assert(b.subrange(from as int, b.len() as int) =~= decimal(second));
    }
}

/// There is exactly one first free depth: two depths that both qualify are
/// the same.
pub proof fn lemma_alias_depth_unique(
    name: Seq<char>,
    taken: Seq<Seq<char>>,
    first: nat,
    second: nat,
)
    requires
        is_alias_depth(name, taken, first),
        is_alias_depth(name, taken, second),
    ensures
        first == second,
{
    if first < second {
        assert(taken.contains(candidate(name, first)));
    }
    if second < first {
        assert(taken.contains(candidate(name, second)));
    }
}

/// Distinct positions of a list of `bound` entries are at most `bound` many.
pub proof fn lemma_distinct_positions(positions: Seq<int>, bound: int)
    requires
        0 <= bound,
        positions.no_duplicates(),
        forall|i: int| 0 <= i < positions.len() ==> 0 <= #[trigger] positions[i] < bound,
    ensures
        positions.len() <= bound,
{
    positions.unique_seq_to_set();
    lemma_int_range(0, bound);
    assert(positions.to_set().subset_of(set_int_range(0, bound)));
    lemma_len_subset(positions.to_set(), set_int_range(0, bound));
}

/// From any depth that the probing can reach, a free depth is found before
/// the names run out.
pub proof fn lemma_free_depth_from(
    name: Seq<char>,
    taken: Seq<Seq<char>>,
    depth: nat,
    hits: Seq<int>,
) -> (found: nat)
    requires
        hits.len() == depth,
        forall|k: int|
            0 <= k < depth ==> 0 <= #[trigger] hits[k] < taken.len() && taken[hits[k]]
                == candidate(name, k as nat),
    ensures
        is_alias_depth(name, taken, found),
        found <= taken.len(),
    decreases taken.len() - depth,
{
    assert forall|i: int, j: int|
        0 <= i < hits.len() && 0 <= j < hits.len() && i != j implies hits[i] != hits[j] by {
        lemma_candidates_differ(name, i as nat, j as nat);
    }
    lemma_distinct_positions(hits, taken.len() as int);
    if taken.contains(candidate(name, depth)) {
        let at = choose|at: int| 0 <= at < taken.len() && taken[at] == candidate(name, depth);
        let longer = hits.push(at);
        assert forall|i: int, j: int|
            0 <= i < longer.len() && 0 <= j < longer.len() && i != j implies longer[i]
            != longer[j] by {
            lemma_candidates_differ(name, i as nat, j as nat);
        }
        lemma_distinct_positions(longer, taken.len() as int);
        lemma_free_depth_from(name, taken, depth + 1, longer)
    } else {
        assert forall|earlier: nat| earlier < depth implies taken.contains(
            #[trigger] candidate(name, earlier),
        ) by {
            assert(taken[hits[earlier as int]] == candidate(name, earlier));
        }
        depth
    }
}

/// Every name has an alias, and no taken name is that alias.
pub proof fn lemma_alias_is_free(name: Seq<char>, taken: Seq<Seq<char>>)
    ensures
        !taken.contains(alias_of(name, taken)),
        exists|depth: nat|
            depth <= taken.len() && is_alias_depth(name, taken, depth) && alias_of(name, taken)
                == candidate(name, depth),
{
    let found = lemma_free_depth_from(name, taken, 0, Seq::empty());
    let chosen = choose|depth: nat| is_alias_depth(name, taken, depth);
    lemma_alias_depth_unique(name, taken, found, chosen);
}

/// `format!("{name}_{depth}")`. Trusted: that the result is the name, an
/// underscore, and the depth as std prints an unsigned integer, in decimal
/// without sign or leading zeros.
#[verifier::external_body]
pub(crate) fn suffixed_name(name: &str, depth: usize) -> (alias: String)
    ensures
        alias@ == name@ + seq!['_'] + decimal(depth as nat),
{
    format!("{name}_{depth}")
}

/// Gives a column a display name that none of `existing_names` has: `name`
/// itself where it is free, and otherwise `name_1`, `name_2`, ... with the
/// smallest number that is free.
pub fn alias_for_name(name: &str, existing_names: &[String]) -> (alias: String)
    ensures
        alias@ == alias_of(name@, texts(existing_names@)),
        exists|depth: nat|
            is_alias_depth(name@, texts(existing_names@), depth) && depth <= existing_names.len()
                && alias@ == candidate(name@, depth),
        !texts(existing_names@).contains(alias@),
{
    let ghost taken = texts(existing_names@);
    let ghost mut hits: Seq<int> = Seq::empty();
    let mut depth: usize = 0;
    loop
        invariant
            taken == texts(existing_names@),
            depth <= existing_names.len(),
            hits.len() == depth,
            forall|k: int|
                0 <= k < depth ==> 0 <= #[trigger] hits[k] < taken.len() && taken[hits[k]]
                    == candidate(name@, k as nat),
        decreases existing_names.len() - depth,
    {
        let probe = if depth == 0 {
            name.to_owned()
        } else {
            suffixed_name(name, depth)
        };
        assert(probe@ == candidate(name@, depth as nat));
        match position_of_name(existing_names, probe.as_str()) {
            None => {
                proof {
                    let found = depth as nat;
                    assert forall|earlier: nat| earlier < found implies taken.contains(
                        #[trigger] candidate(name@, earlier),
                    ) by {
                        assert(taken[hits[earlier as int]] == candidate(name@, earlier));
                    }
                    assert(is_alias_depth(name@, taken, found));
                    let chosen = choose|d: nat| is_alias_depth(name@, taken, d);
                    lemma_alias_depth_unique(name@, taken, found, chosen);
                }
                return probe;
            },
            Some(at) => {
                proof {
                    assert(taken[at as int] == existing_names[at as int]@);
                    hits = hits.push(at as int);
                    assert forall|i: int, j: int|
                        0 <= i < hits.len() && 0 <= j < hits.len() && i != j implies hits[i]
                        != hits[j] by {
                        lemma_candidates_differ(name@, i as nat, j as nat);
                    }
                    lemma_distinct_positions(hits, taken.len() as int);
                }
                depth += 1;
            },
        }
    }
}

} // verus!
