//! Named settings: pairs of a name and a value, such as the variables of a
//! process's environment.

use crate::text::{decimal, law_numbers_are_read_back, number_in, parse_number, same_text};
use vstd::prelude::*;
use vstd::string::*;

verus! {

/// The values by name. Of two pairs with one name the later counts.
pub open spec fn pairs_view(pairs: Seq<(String, String)>) -> Map<Seq<char>, Seq<char>>
    decreases pairs.len(),
{
    if pairs.len() == 0 {
        Map::empty()
    } else {
        pairs_view(pairs.drop_last()).insert(pairs.last().0@, pairs.last().1@)
    }
}

/// The value under a name, where there is one.
pub open spec fn setting_of(pairs: Seq<(String, String)>, name: Seq<char>) -> Option<Seq<char>> {
    if pairs_view(pairs).contains_key(name) {
        Some(pairs_view(pairs)[name])
    } else {
        None
    }
}

/// The value under a name or, where there is none, the default.
pub open spec fn setting_or(
    pairs: Seq<(String, String)>,
    name: Seq<char>,
    default: Seq<char>,
) -> Seq<char> {
    match setting_of(pairs, name) {
        Some(v) => v,
        None => default,
    }
}

/// The number under a name; the default where there is none, or where the
/// value is no number up to the limit.
pub open spec fn number_setting(
    pairs: Seq<(String, String)>,
    name: Seq<char>,
    limit: nat,
    default: nat,
) -> nat {
    match setting_of(pairs, name) {
        Some(v) => match number_in(v, limit) {
            Some(n) => n,
            None => default,
        },
        None => default,
    }
}

proof fn lemma_last_pair_decides(pairs: Seq<(String, String)>, i: int, name: Seq<char>)
    requires
        0 <= i < pairs.len(),
        pairs[i].0@ == name,
        forall|j: int| i < j < pairs.len() ==> pairs[j].0@ != name,
    ensures
        setting_of(pairs, name) == Some(pairs[i].1@),
    decreases pairs.len(),
{
    if i < pairs.len() - 1 {
        lemma_last_pair_decides(pairs.drop_last(), i, name);
    }
}

proof fn lemma_absent_pair(pairs: Seq<(String, String)>, name: Seq<char>)
    requires
        forall|j: int| 0 <= j < pairs.len() ==> pairs[j].0@ != name,
    ensures
        setting_of(pairs, name) is None,
    decreases pairs.len(),
{
    if pairs.len() > 0 {
        lemma_absent_pair(pairs.drop_last(), name);
    }
}

/// Looks up the value under a name.
pub fn setting<'a>(pairs: &'a Vec<(String, String)>, name: &str) -> (r: Option<&'a str>)
    ensures
        match r {
            Some(v) => setting_of(pairs@, name@) == Some(v@),
            None => setting_of(pairs@, name@) is None,
        },
{
    let mut i: usize = pairs.len();
    while i > 0
        invariant
            i <= pairs@.len(),
            forall|j: int| i <= j < pairs@.len() ==> pairs@[j].0@ != name@,
        decreases i,
    {
        i -= 1;
        if same_text(pairs[i].0.as_str(), name) {
            proof {
                lemma_last_pair_decides(pairs@, i as int, name@);
            }
            return Some(pairs[i].1.as_str());
        }
    }
    proof {
        lemma_absent_pair(pairs@, name@);
    }
    None
}

/// Looks up the value under a name, with a default.
pub fn setting_with_default<'a>(
    pairs: &'a Vec<(String, String)>,
    name: &str,
    default: &'a str,
) -> (r: &'a str)
    ensures
        r@ == setting_or(pairs@, name@, default@),
{
    match setting(pairs, name) {
        Some(v) => v,
        None => default,
    }
}

/// Looks up the number under a name, with a limit and a default.
pub fn number_with_default(
    pairs: &Vec<(String, String)>,
    name: &str,
    limit: u64,
    default: u64,
) -> (r: u64)
    ensures
        r as nat == number_setting(pairs@, name@, limit as nat, default as nat),
{
    match setting(pairs, name) {
        Some(v) => match parse_number(v, limit) {
            Some(n) => n,
            None => default,
        },
        None => default,
    }
}

/// Of the pairs with one name the last counts, and a name that no pair has is
/// not set.
pub proof fn law_the_last_pair_counts(pairs: Seq<(String, String)>, i: int, name: Seq<char>)
    ensures
        0 <= i < pairs.len() && pairs[i].0@ == name && (forall|j: int|
            i < j < pairs.len() ==> (#[trigger] pairs[j]).0@ != name) ==> setting_of(pairs, name)
            == Some(pairs[i].1@),
        (forall|j: int| 0 <= j < pairs.len() ==> (#[trigger] pairs[j]).0@ != name) ==> setting_of(
            pairs,
            name,
        ) is None,
        setting_of(pairs, name) is None <==> !pairs_view(pairs).contains_key(name),
        pairs_view(pairs).contains_key(name) ==> setting_of(pairs, name) == Some(
            pairs_view(pairs)[name],
        ),
{
    if 0 <= i < pairs.len() && pairs[i].0@ == name && (forall|j: int|
        i < j < pairs.len() ==> (#[trigger] pairs[j]).0@ != name) {
        lemma_last_pair_decides(pairs, i, name);
    }
    if forall|j: int| 0 <= j < pairs.len() ==> (#[trigger] pairs[j]).0@ != name {
        lemma_absent_pair(pairs, name);
    }
}

/// The default stands in for what is not set and for a number that cannot be
/// read or is over the limit, and for nothing else.
pub proof fn law_defaults_stand_in(
    pairs: Seq<(String, String)>,
    name: Seq<char>,
    text: Seq<char>,
    limit: nat,
    number: nat,
    n: nat,
)
    ensures
        setting_of(pairs, name) is None ==> setting_or(pairs, name, text) == text
            && number_setting(pairs, name, limit, number) == number,
        setting_of(pairs, name) matches Some(v) ==> setting_or(pairs, name, text) == v,
        setting_of(pairs, name) == Some(decimal(n)) && n <= limit ==> number_setting(
            pairs,
            name,
            limit,
            number,
        ) == n,
        setting_of(pairs, name) == Some(decimal(n)) && n > limit ==> number_setting(
            pairs,
            name,
            limit,
            number,
        ) == number,
        setting_of(pairs, name) == Some(Seq::<char>::empty()) ==> number_setting(
            pairs,
            name,
            limit,
            number,
        ) == number,
{
    law_numbers_are_read_back(n, limit, 0);
}

} // verus!
