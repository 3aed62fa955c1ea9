//! What holds of probing and of the instructions that are computed from its result.

use vstd::prelude::*;
use crate::enabled::distinct_names;
use crate::engine::{
    all_recognized, categorized, decided_without_compiler, distinct_in_order, emitted_lines,
    feature_lines, first_unrecognized, outcome_allowed, probe_multiple_result, rejected,
    ReleaseChannel,
};
use crate::helpers::plain_feature_line;
use crate::recognized::{
    all_categories, definition, lemma_definition_sorted, lemma_lookup_finds_each, lookup,
    only_comp, recognized, Feature, FeatureCategory, FeatureEnabled, Probe,
};

verus! {

/// Two lines that set an option are the same only where they set the option of the same
/// category for the same name.
pub proof fn lemma_line_names_one_option(
    a: FeatureCategory,
    m: Seq<char>,
    b: FeatureCategory,
    n: Seq<char>,
)
    requires
        plain_feature_line(a.token(), m) == plain_feature_line(b.token(), n),
    ensures
        a == b,
        m == n,
{
    reveal_strlit("instruction:");
    reveal_strlit("rustc-cfg");
    reveal_strlit("=");
    reveal_strlit("rust_");
    reveal_strlit("_feature=");
    reveal_strlit("comp");
    reveal_strlit("lang");
    reveal_strlit("lib");
    let la = plain_feature_line(a.token(), m);
    let lb = plain_feature_line(b.token(), n);
    assert(la[27] == a.token()[0]);
    assert(lb[27] == b.token()[0]);
    assert(la[28] == a.token()[1]);
    assert(lb[28] == b.token()[1]);
    assert(a == b);
    let offset = 27 + a.token().len() + 10;
    assert(la.len() == offset + m.len() + 1);
    assert(lb.len() == offset + n.len() + 1);
    assert forall|j: int| 0 <= j < m.len() implies m[j] == n[j] by {
        assert(la[offset + j] == m[j]);
        assert(lb[offset + j] == n[j]);
    }
    assert(m =~= n);
}

/// For an enabled feature there is exactly one line for each of its categories and no other
/// line; for a feature that is not enabled there is none.
pub proof fn lemma_one_line_per_category(name: Seq<char>, enabled: FeatureEnabled)
    ensures
        enabled is None ==> feature_lines(name, enabled).len() == 0,
        enabled matches Some(categories) ==> {
            &&& feature_lines(name, enabled).no_duplicates()
            &&& forall|c: FeatureCategory|
                categories@.contains(c) <==> feature_lines(name, enabled).contains(
                    #[trigger] plain_feature_line(c.token(), name),
                )
            &&& feature_lines(name, enabled).len() == categories.ordered().len()
            &&& forall|k: int|
                0 <= k < categories.ordered().len() ==> categories@.contains(
                    categories.ordered()[k],
                ) && #[trigger] feature_lines(name, enabled)[k] == plain_feature_line(
                    categories.ordered()[k].token(),
                    name,
                )
        },
{
    if let Some(categories) = enabled {
        let list = categories.ordered();
        let lines = feature_lines(name, enabled);
        categories.lemma_ordered_is_the_set();
        assert forall|j: int, k: int| 0 <= j < lines.len() && 0 <= k < lines.len() && j != k implies lines[j] != lines[k] by {
            if lines[j] == lines[k] {
                lemma_line_names_one_option(list[j], name, list[k], name);
            }
        }
        assert forall|c: FeatureCategory|
            categories@.contains(c) <==> lines.contains(
                #[trigger] plain_feature_line(c.token(), name),
            ) by {
            if categories@.contains(c) {
                assert(list.contains(c));
                let k = choose|k: int| 0 <= k < list.len() && list[k] == c;
                assert(lines[k] == plain_feature_line(c.token(), name));
            }
            if lines.contains(plain_feature_line(c.token(), name)) {
                let k = choose|k: int|
                    0 <= k < lines.len() && lines[k] == plain_feature_line(c.token(), name);
                lemma_line_names_one_option(list[k], name, c, name);
                assert(list.contains(c));
            }
        }
        assert forall|k: int| 0 <= k < list.len() implies categories@.contains(list[k])
            && #[trigger] lines[k] == plain_feature_line(list[k].token(), name) by {
            assert(list.contains(list[k]));
        }
    }
}

/// Whether `line` sets the option of `category` for the feature of the entry at `i`, and that
/// entry holds an enabled feature of that category.
pub open spec fn is_line_of(
    entries: Seq<(Seq<char>, FeatureEnabled)>,
    i: int,
    category: FeatureCategory,
    line: Seq<char>,
) -> bool {
    &&& 0 <= i < entries.len()
    &&& entries[i].1 is Some
    &&& entries[i].1.unwrap()@.contains(category)
    &&& line == plain_feature_line(category.token(), entries[i].0)
}

/// Whether `line` sets an option for an enabled feature of the entries, of one of its
/// categories.
pub open spec fn is_line_of_some(entries: Seq<(Seq<char>, FeatureEnabled)>, line: Seq<char>) -> bool {
    exists|i: int, category: FeatureCategory| is_line_of(entries, i, category, line)
}

/// The lines for a list of entries are the lines that set an option for an enabled feature of
/// the entries, of one of its categories: there is a line for each of these, and no line for
/// anything else, so none for a feature that is not enabled.
pub proof fn lemma_emitted_lines_are_of_entries(entries: Seq<(Seq<char>, FeatureEnabled)>)
    ensures
        forall|line: Seq<char>| #[trigger]
            emitted_lines(entries).contains(line) <==> is_line_of_some(entries, line),
    decreases entries.len(),
{
    let all = emitted_lines(entries);
    if entries.len() == 0 {
        assert forall|line: Seq<char>| #[trigger] all.contains(line) <==> is_line_of_some(
            entries,
            line,
        ) by {}
    } else {
        let before = entries.drop_last();
        let last = entries.len() - 1;
        let name = entries[last].0;
        let enabled = entries[last].1;
        let earlier = emitted_lines(before);
        let own = feature_lines(name, enabled);
        lemma_emitted_lines_are_of_entries(before);
        lemma_one_line_per_category(name, enabled);
        assert(all == earlier + own);
        assert forall|line: Seq<char>| #[trigger] all.contains(line) <==> is_line_of_some(
            entries,
            line,
        ) by {
            if all.contains(line) {
                let k = choose|k: int| 0 <= k < all.len() && all[k] == line;
                if k < earlier.len() {
                    assert(earlier[k] == line);
                    assert(earlier.contains(line));
                    assert(is_line_of_some(before, line));
                    let (i, c) = choose|i: int, c: FeatureCategory| is_line_of(before, i, c, line);
                    assert(is_line_of(entries, i, c, line));
                } else {
                    let j = k - earlier.len();
                    assert(own[j] == line);
                    let c = enabled.unwrap().ordered()[j];
                    assert(is_line_of(entries, last, c, line));
                }
            }
            if is_line_of_some(entries, line) {
                let (i, c) = choose|i: int, c: FeatureCategory| is_line_of(entries, i, c, line);
                if i < last {
                    assert(is_line_of(before, i, c, line));
                    assert(is_line_of_some(before, line));
                    assert(earlier.contains(line));
                    let k = choose|k: int| 0 <= k < earlier.len() && earlier[k] == line;
                    assert(all[k] == line);
                } else {
                    assert(own.contains(plain_feature_line(c.token(), name)));
                    let k = choose|k: int| 0 <= k < own.len() && own[k] == line;
                    assert(all[earlier.len() + k] == line);
                }
            }
        }
    }
}

/// Where no two entries share a name, no line occurs twice in the lines for the entries: for
/// each enabled feature there is exactly one line for each of its categories.
pub proof fn lemma_emitted_lines_differ(entries: Seq<(Seq<char>, FeatureEnabled)>)
    requires
        distinct_names(entries),
    ensures
        emitted_lines(entries).no_duplicates(),
    decreases entries.len(),
{
    let all = emitted_lines(entries);
    if entries.len() > 0 {
        let before = entries.drop_last();
        let last = entries.len() - 1;
        let name = entries[last].0;
        let enabled = entries[last].1;
        let earlier = emitted_lines(before);
        let own = feature_lines(name, enabled);
        assert forall|i: int, j: int| 0 <= i < j < before.len() implies (#[trigger] before[i]).0 != (
        #[trigger] before[j]).0 by {
            assert(before[i] == entries[i] && before[j] == entries[j]);
        }
        lemma_emitted_lines_differ(before);
        lemma_emitted_lines_are_of_entries(before);
        lemma_one_line_per_category(name, enabled);
        assert(all == earlier + own);
        assert forall|j: int, k: int| 0 <= j < all.len() && 0 <= k < all.len() && j != k implies all[j]
            != all[k] by {
            let (low, high) = if j < k {
                (j, k)
            } else {
                (k, j)
            };
            if high < earlier.len() {
                assert(earlier[low] != earlier[high]);
            } else if low >= earlier.len() {
                assert(own[low - earlier.len()] != own[high - earlier.len()]);
            } else {
                let line = all[low];
                assert(earlier[low] == line);
                assert(earlier.contains(line));
                assert(is_line_of_some(before, line));
                let (i, c) = choose|i: int, c: FeatureCategory| is_line_of(before, i, c, line);
                let at = high - earlier.len();
                let d = enabled.unwrap().ordered()[at];
                assert(own[at] == plain_feature_line(d.token(), name));
                if all[high] == line {
                    lemma_line_names_one_option(c, before[i].0, d, name);
                    assert(entries[i].0 == entries[last].0);
                }
            }
        }
    }
}

/// A feature whose probe is always enabled is found with all the categories of its descriptor,
/// on every toolchain.  So is `rust1`, with the three categories.
pub proof fn lemma_always_enabled(feature: Feature, unstable: bool, found: FeatureEnabled)
    requires
        feature.probe is AlwaysEnabled,
        outcome_allowed(feature, unstable, found),
    ensures
        found == Some(feature.categories),
        lookup("rust1"@) == Some(definition()[6]),
        feature == definition()[6] ==> found == Some(all_categories()),
{
    lemma_definition_sorted();
    lemma_lookup_finds_each(6);
}

/// The feature `unstable_features` is found, with the compiler category, exactly on the
/// channels `dev` and `nightly`.
pub proof fn lemma_unstable_features_follow_channel(channel: ReleaseChannel, found: FeatureEnabled)
    requires
        outcome_allowed(lookup("unstable_features"@).unwrap(), channel.allows_unstable(), found),
    ensures
        lookup("unstable_features"@) == Some(definition()[8]),
        found == if channel is Dev || channel is Nightly {
            Some(only_comp())
        } else {
            None
        },
{
    lemma_definition_sorted();
    lemma_lookup_finds_each(8);
}

/// What probing `feature` finds on a channel that allows unstable features exactly if
/// `unstable`, where the compiler accepts the feature's snippet exactly if `accepted`.
pub open spec fn found_by(feature: Feature, unstable: bool, accepted: bool) -> FeatureEnabled {
    match feature.probe {
        Probe::AlwaysEnabled => categorized(feature, true),
        Probe::UnstableFeatures => categorized(feature, unstable),
        _ => categorized(feature, accepted),
    }
}

/// Whether `result` is what probing a list of names gives where the compiler accepts the
/// snippets of exactly the names in `accepted`.
pub open spec fn probe_multiple_result_with(
    unstable: bool,
    accepted: Set<Seq<char>>,
    names: Seq<Seq<char>>,
    result: Result<Map<Seq<char>, FeatureEnabled>, Seq<char>>,
) -> bool {
    match result {
        Ok(found) => {
            &&& all_recognized(names)
            &&& forall|n: Seq<char>| found.contains_key(n) <==> names.contains(n)
            &&& forall|n: Seq<char>| #[trigger]
                found.contains_key(n) ==> found[n] == found_by(
                    lookup(n).unwrap(),
                    unstable,
                    accepted.contains(n),
                )
        },
        Err(name) => rejected(names, name),
    }
}

/// Every result of probing a list of names is the result for some answers of the compiler,
/// and the result for given answers is a result of probing.
pub proof fn lemma_probe_multiple_follows_answers(
    unstable: bool,
    names: Seq<Seq<char>>,
    result: Result<Map<Seq<char>, FeatureEnabled>, Seq<char>>,
)
    ensures
        probe_multiple_result(unstable, names, result) <==> exists|accepted: Set<Seq<char>>|
            probe_multiple_result_with(unstable, accepted, names, result),
{
    if probe_multiple_result(unstable, names, result) {
        let accepted = Set::new(
            |n: Seq<char>| result matches Ok(found) && found.contains_key(n) && found[n] is Some,
        );
        if let Ok(found) = result {
            assert forall|n: Seq<char>| #[trigger] found.contains_key(n) implies found[n] == found_by(
                lookup(n).unwrap(),
                unstable,
                accepted.contains(n),
            ) by {
                assert(names.contains(n));
                let k = choose|k: int| 0 <= k < names.len() && names[k] == n;
                assert(recognized(names[k]));
            }
        }
        assert(probe_multiple_result_with(unstable, accepted, names, result));
    }
    if exists|accepted: Set<Seq<char>>|
        probe_multiple_result_with(unstable, accepted, names, result) {
        let accepted = choose|accepted: Set<Seq<char>>|
            probe_multiple_result_with(unstable, accepted, names, result);
        if let Ok(found) = result {
            assert forall|n: Seq<char>| #[trigger] found.contains_key(n) implies recognized(n)
                && outcome_allowed(lookup(n).unwrap(), unstable, found[n]) by {
                assert(names.contains(n));
                let k = choose|k: int| 0 <= k < names.len() && names[k] == n;
                assert(recognized(names[k]));
            }
        }
    }
}

/// Probing the same names twice on the same toolchain, with a compiler that answers alike both
/// times, gives the same result: the same error where a name is not recognized, else the same
/// entries.
pub proof fn lemma_probe_multiple_repeatable(
    unstable: bool,
    accepted: Set<Seq<char>>,
    names: Seq<Seq<char>>,
    first: Result<Map<Seq<char>, FeatureEnabled>, Seq<char>>,
    second: Result<Map<Seq<char>, FeatureEnabled>, Seq<char>>,
)
    requires
        probe_multiple_result_with(unstable, accepted, names, first),
        probe_multiple_result_with(unstable, accepted, names, second),
    ensures
        first == second,
{
    match (first, second) {
        (Ok(a), Ok(b)) => {
            assert forall|n: Seq<char>| a.contains_key(n) <==> b.contains_key(n) by {
                assert(a.contains_key(n) <==> names.contains(n));
                assert(b.contains_key(n) <==> names.contains(n));
            }
            assert forall|n: Seq<char>| a.contains_key(n) implies a[n] == b[n] by {
                assert(b.contains_key(n));
            }
            assert(a =~= b);
        },
        (Err(a), Err(b)) => {
            let i = choose|i: int| first_unrecognized(names, i) && names[i] == a;
            let j = choose|j: int| first_unrecognized(names, j) && names[j] == b;
            assert(i == j);
        },
        (Ok(a), Err(b)) => {
            let j = choose|j: int| first_unrecognized(names, j) && names[j] == b;
            assert(recognized(names[j]));
        },
        (Err(a), Ok(b)) => {
            let i = choose|i: int| first_unrecognized(names, i) && names[i] == a;
            assert(recognized(names[i]));
        },
    }
}

/// Where no name asks the compiler, probing a list of names has one result only: the error
/// where a name is not recognized, else the entries that the descriptors and the channel decide.
pub proof fn lemma_probe_multiple_decided(
    unstable: bool,
    names: Seq<Seq<char>>,
    first: Result<Map<Seq<char>, FeatureEnabled>, Seq<char>>,
    second: Result<Map<Seq<char>, FeatureEnabled>, Seq<char>>,
)
    requires
        probe_multiple_result(unstable, names, first),
        probe_multiple_result(unstable, names, second),
        forall|i: int|
            0 <= i < names.len() && recognized(#[trigger] names[i]) ==> decided_without_compiler(
                lookup(names[i]).unwrap().probe,
            ),
    ensures
        first == second,
{
    match (first, second) {
        (Ok(a), Ok(b)) => {
            assert forall|n: Seq<char>| a.contains_key(n) implies a[n] == b[n] by {
                assert(names.contains(n));
                assert(b.contains_key(n));
                let k = choose|k: int| 0 <= k < names.len() && names[k] == n;
                assert(decided_without_compiler(lookup(names[k]).unwrap().probe));
            }
            assert forall|n: Seq<char>| a.contains_key(n) <==> b.contains_key(n) by {
                assert(a.contains_key(n) <==> names.contains(n));
                assert(b.contains_key(n) <==> names.contains(n));
            }
            assert(a =~= b);
        },
        (Err(a), Err(b)) => {
            let i = choose|i: int| first_unrecognized(names, i) && names[i] == a;
            let j = choose|j: int| first_unrecognized(names, j) && names[j] == b;
            assert(i == j);
        },
        (Ok(a), Err(b)) => {
            let j = choose|j: int| first_unrecognized(names, j) && names[j] == b;
            assert(recognized(names[j]));
        },
        (Err(a), Ok(b)) => {
            let i = choose|i: int| first_unrecognized(names, i) && names[i] == a;
            assert(recognized(names[i]));
        },
    }
}

/// The names without repetition are the names of the list, each once.
pub proof fn lemma_distinct_in_order(names: Seq<Seq<char>>)
    ensures
        distinct_in_order(names).no_duplicates(),
        forall|n: Seq<char>| distinct_in_order(names).contains(n) <==> names.contains(n),
    decreases names.len(),
{
    let all = distinct_in_order(names);
    if names.len() == 0 {
        assert forall|n: Seq<char>| all.contains(n) <==> names.contains(n) by {}
    } else {
        let shorter = names.drop_last();
        let before = distinct_in_order(shorter);
        lemma_distinct_in_order(shorter);
        assert forall|n: Seq<char>| all.contains(n) <==> names.contains(n) by {
            if all.contains(n) {
                let k = choose|k: int| 0 <= k < all.len() && all[k] == n;
                if k < before.len() {
                    assert(before[k] == n);
                    assert(before.contains(n));
                    assert(shorter.contains(n));
                    let j = choose|j: int| 0 <= j < shorter.len() && shorter[j] == n;
                    assert(names[j] == n);
                } else {
                    assert(names[names.len() - 1] == n);
                }
            }
            if names.contains(n) {
                let j = choose|j: int| 0 <= j < names.len() && names[j] == n;
                if j < shorter.len() {
                    assert(shorter[j] == n);
                    assert(shorter.contains(n));
                    assert(before.contains(n));
                    let k = choose|k: int| 0 <= k < before.len() && before[k] == n;
                    assert(all[k] == n);
                } else if before.contains(n) {
                    let k = choose|k: int| 0 <= k < before.len() && before[k] == n;
                    assert(all[k] == n);
                } else {
                    assert(all[before.len() as int] == n);
                }
            }
        }
    }
}

} // verus!
