//! The definition of which features are recognized, and the lookup of a feature by name.

use vstd::prelude::*;
use crate::names::{
    is_plain, lemma_name_lt_irreflexive, lemma_name_lt_total, lemma_name_lt_transitive, name_lt,
    order, precedes_at, NameOrder,
};

verus! {

/// What a feature pertains to: the compiler, the language, or the standard library.
#[derive(Clone, Copy, Debug, PartialEq, Eq, Hash, Structural)]
pub enum FeatureCategory {
    Comp,
    Lang,
    Lib,
}

impl FeatureCategory {
    /// The token that stands for the category in a configuration option's identifier.
    pub open spec fn token(self) -> Seq<char> {
        match self {
            FeatureCategory::Comp => "comp"@,
            FeatureCategory::Lang => "lang"@,
            FeatureCategory::Lib => "lib"@,
        }
    }

    /// The category's token: `"comp"`, `"lang"` or `"lib"`.
    pub fn as_str(&self) -> (s: &'static str)
        ensures
            s@ == self.token(),
    {
        match self {
            FeatureCategory::Comp => "comp",
            FeatureCategory::Lang => "lang",
            FeatureCategory::Lib => "lib",
        }
    }
}

/// Whether `token` is the token of one of the categories.
pub open spec fn is_category_token(token: Seq<char>) -> bool {
    exists|c: FeatureCategory| c.token() == token
}

/// Set of feature categories that a feature belongs to.
#[derive(Clone, Copy, Debug, PartialEq, Eq, Hash, Structural)]
pub struct FeatureCategories {
    pub comp: bool,
    pub lang: bool,
    pub lib: bool,
}

impl View for FeatureCategories {
    type V = Set<FeatureCategory>;

    open spec fn view(&self) -> Set<FeatureCategory> {
        Set::new(|c: FeatureCategory| self.holds(c))
    }
}

impl FeatureCategories {
    /// Whether the set holds `category`.
    pub open spec fn holds(&self, category: FeatureCategory) -> bool {
        match category {
            FeatureCategory::Comp => self.comp,
            FeatureCategory::Lang => self.lang,
            FeatureCategory::Lib => self.lib,
        }
    }

    /// The categories of the set, each once, in the order compiler, language, library.
    pub open spec fn ordered(&self) -> Seq<FeatureCategory> {
        let comp = if self.comp { seq![FeatureCategory::Comp] } else { Seq::empty() };
        let lang = if self.lang { seq![FeatureCategory::Lang] } else { Seq::empty() };
        let lib = if self.lib { seq![FeatureCategory::Lib] } else { Seq::empty() };
        comp + lang + lib
    }

    /// Whether the set holds `category`.
    pub fn contains(&self, category: FeatureCategory) -> (b: bool)
        ensures
            b == self@.contains(category),
    {
        match category {
            FeatureCategory::Comp => self.comp,
            FeatureCategory::Lang => self.lang,
            FeatureCategory::Lib => self.lib,
        }
    }

    /// Whether the set holds no category.
    pub fn is_empty(&self) -> (b: bool)
        ensures
            b == (self@ =~= Set::<FeatureCategory>::empty()),
    {
        proof {
            if self.comp {
                assert(self@.contains(FeatureCategory::Comp));
            }
            if self.lang {
                assert(self@.contains(FeatureCategory::Lang));
            }
            if self.lib {
                assert(self@.contains(FeatureCategory::Lib));
            }
        }
        !self.comp && !self.lang && !self.lib
    }

    /// The categories of the set as a list, in the order compiler, language, library.
    pub fn to_vec(&self) -> (v: Vec<FeatureCategory>)
        ensures
            v@ == self.ordered(),
    {
        let mut v: Vec<FeatureCategory> = Vec::new();
        if self.comp {
            v.push(FeatureCategory::Comp);
        }
        if self.lang {
            v.push(FeatureCategory::Lang);
        }
        if self.lib {
            v.push(FeatureCategory::Lib);
        }
        assert(v@ =~= self.ordered());
        v
    }

    /// The list of a set's categories holds exactly the categories of the set, each once.
    pub proof fn lemma_ordered_is_the_set(&self)
        ensures
            self.ordered().no_duplicates(),
            forall|c: FeatureCategory| self.ordered().contains(c) <==> self@.contains(c),
            self.ordered().len() <= 3,
    {
        let s = self.ordered();
        assert forall|c: FeatureCategory| self@.contains(c) implies s.contains(c) by {
            let before_lang: int = if self.comp { 1 } else { 0 };
            let before_lib: int = before_lang + if self.lang { 1int } else { 0int };
            match c {
                FeatureCategory::Comp => {
                    assert(s[0] == c);
                },
                FeatureCategory::Lang => {
                    assert(s[before_lang] == c);
                },
                FeatureCategory::Lib => {
                    assert(s[before_lib] == c);
                },
            }
        }
    }
}

/// Whether a feature is enabled and its categories if so.
pub type FeatureEnabled = Option<FeatureCategories>;

/// How to test whether a `rustc` version provides a feature.
#[derive(Clone, Copy, Debug, PartialEq, Eq)]
pub enum Probe {
    /// The expression compiles.
    Expr(&'static str),
    /// The type resolves.
    Type(&'static str),
    /// The path resolves.
    Path(&'static str),
    /// Present in every version of Rust.
    AlwaysEnabled,
    /// The compiler's channel allows unstable features.
    UnstableFeatures,
}

/// Descriptor of a recognized feature.
#[derive(Clone, Copy, Debug, PartialEq, Eq)]
pub struct Feature {
    pub name: &'static str,
    pub categories: FeatureCategories,
    pub probe: Probe,
}

/// The set that holds only the compiler category.
pub open spec fn only_comp() -> FeatureCategories {
    FeatureCategories { comp: true, lang: false, lib: false }
}

/// The set that holds only the language category.
pub open spec fn only_lang() -> FeatureCategories {
    FeatureCategories { comp: false, lang: true, lib: false }
}

/// The set that holds only the library category.
pub open spec fn only_lib() -> FeatureCategories {
    FeatureCategories { comp: false, lang: false, lib: true }
}

/// The set of all three categories.
pub open spec fn all_categories() -> FeatureCategories {
    FeatureCategories { comp: true, lang: true, lib: true }
}

/// The definition of which features are recognized, sorted by name.
pub open spec fn definition() -> Seq<Feature> {
    seq![
        Feature {
            name: "cfg_version",
            categories: only_lang(),
            probe: Probe::Expr("{ #[cfg(version(\"1.0\"))] struct X; X }"),
        },
        Feature {
            name: "destructuring_assignment",
            categories: only_lang(),
            probe: Probe::Expr("{ let (_a, _b); (_a, _b) = (1, 2); }"),
        },
        Feature {
            name: "inner_deref",
            categories: only_lib(),
            probe: Probe::Expr("Ok::<_, ()>(vec![1]).as_deref()"),
        },
        Feature { name: "iter_zip", categories: only_lib(), probe: Probe::Path("std::iter::zip") },
        Feature { name: "never_type", categories: only_lang(), probe: Probe::Type("!") },
        Feature {
            name: "question_mark",
            categories: only_lang(),
            probe: Probe::Expr("|| -> Result<(), ()> { Err(())? }"),
        },
        Feature { name: "rust1", categories: all_categories(), probe: Probe::AlwaysEnabled },
        Feature {
            name: "step_trait",
            categories: only_lib(),
            probe: Probe::Path("std::iter::Step"),
        },
        Feature {
            name: "unstable_features",
            categories: only_comp(),
            probe: Probe::UnstableFeatures,
        },
        Feature {
            name: "unwrap_infallible",
            categories: only_lib(),
            probe: Probe::Expr("Ok::<(), core::convert::Infallible>(()).into_ok()"),
        },
    ]
}

/// How many features are recognized.
pub const DEFINITION_LEN: usize = 10;

/// The descriptor at `index` of the definition.
pub fn definition_entry(index: usize) -> (feature: Feature)
    requires
        index < DEFINITION_LEN,
    ensures
        feature == definition()[index as int],
{
    let lang = FeatureCategories { comp: false, lang: true, lib: false };
    let lib = FeatureCategories { comp: false, lang: false, lib: true };
    if index == 0 {
        Feature {
            name: "cfg_version",
            categories: lang,
            probe: Probe::Expr("{ #[cfg(version(\"1.0\"))] struct X; X }"),
        }
    } else if index == 1 {
        Feature {
            name: "destructuring_assignment",
            categories: lang,
            probe: Probe::Expr("{ let (_a, _b); (_a, _b) = (1, 2); }"),
        }
    } else if index == 2 {
        Feature {
            name: "inner_deref",
            categories: lib,
            probe: Probe::Expr("Ok::<_, ()>(vec![1]).as_deref()"),
        }
    } else if index == 3 {
        Feature { name: "iter_zip", categories: lib, probe: Probe::Path("std::iter::zip") }
    } else if index == 4 {
        Feature { name: "never_type", categories: lang, probe: Probe::Type("!") }
    } else if index == 5 {
        Feature {
            name: "question_mark",
            categories: lang,
            probe: Probe::Expr("|| -> Result<(), ()> { Err(())? }"),
        }
    } else if index == 6 {
        Feature {
            name: "rust1",
            categories: FeatureCategories { comp: true, lang: true, lib: true },
            probe: Probe::AlwaysEnabled,
        }
    } else if index == 7 {
        Feature { name: "step_trait", categories: lib, probe: Probe::Path("std::iter::Step") }
    } else if index == 8 {
        Feature {
            name: "unstable_features",
            categories: FeatureCategories { comp: true, lang: false, lib: false },
            probe: Probe::UnstableFeatures,
        }
    } else {
        Feature {
            name: "unwrap_infallible",
            categories: lib,
            probe: Probe::Expr("Ok::<(), core::convert::Infallible>(()).into_ok()"),
        }
    }
}

/// Whether every descriptor of `table` comes before all that follow it, in the strict order of
/// names.
pub open spec fn sorted_by_name(table: Seq<Feature>) -> bool {
    forall|i: int, j: int|
        0 <= i < j < table.len() ==> name_lt(
            (#[trigger] table[i]).name@,
            (#[trigger] table[j]).name@,
        )
}

/// The descriptor of the definition whose name is `name`, if there is one.
pub open spec fn lookup(name: Seq<char>) -> Option<Feature> {
    if exists|i: int| 0 <= i < definition().len() && (#[trigger] definition()[i]).name@ == name {
        let i = choose|i: int|
            0 <= i < definition().len() && (#[trigger] definition()[i]).name@ == name;
        Some(definition()[i])
    } else {
        None
    }
}

/// Whether `name` is the name of a recognized feature.
pub open spec fn recognized(name: Seq<char>) -> bool {
    lookup(name) is Some
}

/// Each descriptor's name comes strictly before the next one's.
proof fn lemma_definition_adjacent()
    ensures
        definition().len() == DEFINITION_LEN,
        forall|i: int|
            0 <= i < definition().len() - 1 ==> name_lt(
                (#[trigger] definition()[i]).name@,
                definition()[i + 1].name@,
            ),
{
    reveal_strlit("cfg_version");
    reveal_strlit("destructuring_assignment");
    reveal_strlit("inner_deref");
    reveal_strlit("iter_zip");
    reveal_strlit("never_type");
    reveal_strlit("question_mark");
    reveal_strlit("rust1");
    reveal_strlit("step_trait");
    reveal_strlit("unstable_features");
    reveal_strlit("unwrap_infallible");
    let d = definition();
    assert(precedes_at(d[0].name@, d[1].name@, 0));
    assert(precedes_at(d[1].name@, d[2].name@, 0));
    assert(precedes_at(d[2].name@, d[3].name@, 1));
    assert(precedes_at(d[3].name@, d[4].name@, 0));
    assert(precedes_at(d[4].name@, d[5].name@, 0));
    assert(precedes_at(d[5].name@, d[6].name@, 0));
    assert(precedes_at(d[6].name@, d[7].name@, 0));
    assert(precedes_at(d[7].name@, d[8].name@, 0));
    assert(precedes_at(d[8].name@, d[9].name@, 2));
}

/// A descriptor's name comes strictly before that of every later descriptor.
proof fn lemma_definition_chain(i: int, j: int)
    requires
        0 <= i < j < definition().len(),
    ensures
        name_lt(definition()[i].name@, definition()[j].name@),
    decreases j - i,
{
    lemma_definition_adjacent();
    if j > i + 1 {
        lemma_definition_chain(i, j - 1);
        lemma_name_lt_transitive(
            definition()[i].name@,
            definition()[j - 1].name@,
            definition()[j].name@,
        );
    }
}

/// The definition is sorted by name in the strict order of names, so that no two descriptors
/// share a name, and every descriptor belongs to at least one category.
pub proof fn lemma_definition_sorted()
    ensures
        definition().len() == DEFINITION_LEN,
        sorted_by_name(definition()),
        forall|i: int, j: int|
            0 <= i < definition().len() && 0 <= j < definition().len() && i != j ==> (
            #[trigger] definition()[i]).name@ != (#[trigger] definition()[j]).name@,
        forall|i: int|
            0 <= i < definition().len() ==> !((#[trigger] definition()[i]).categories@
                =~= Set::<FeatureCategory>::empty()),
{
    lemma_definition_adjacent();
    assert forall|i: int, j: int| 0 <= i < j < definition().len() implies name_lt(
        (#[trigger] definition()[i]).name@,
        (#[trigger] definition()[j]).name@,
    ) by {
        lemma_definition_chain(i, j);
    }
    assert forall|i: int, j: int|
        0 <= i < definition().len() && 0 <= j < definition().len() && i != j implies (
        #[trigger] definition()[i]).name@ != (#[trigger] definition()[j]).name@ by {
        if i < j {
            lemma_definition_chain(i, j);
        } else {
            lemma_definition_chain(j, i);
        }
        lemma_name_lt_irreflexive(definition()[i].name@);
    }
    assert forall|i: int| 0 <= i < definition().len() implies !((
    #[trigger] definition()[i]).categories@ =~= Set::<FeatureCategory>::empty()) by {
        let c = definition()[i].categories;
        if c.comp {
            assert(c@.contains(FeatureCategory::Comp));
        } else if c.lang {
            assert(c@.contains(FeatureCategory::Lang));
        } else {
            assert(c.lib);
            assert(c@.contains(FeatureCategory::Lib));
        }
    }
}

/// The name of every descriptor is made of ASCII letters, digits and underscores.
pub proof fn lemma_definition_names_plain()
    ensures
        forall|i: int| 0 <= i < definition().len() ==> is_plain((#[trigger] definition()[i]).name@),
{
    reveal_strlit("cfg_version");
    reveal_strlit("destructuring_assignment");
    reveal_strlit("inner_deref");
    reveal_strlit("iter_zip");
    reveal_strlit("never_type");
    reveal_strlit("question_mark");
    reveal_strlit("rust1");
    reveal_strlit("step_trait");
    reveal_strlit("unstable_features");
    reveal_strlit("unwrap_infallible");
    let d = definition();
    assert(is_plain(d[0].name@));
    assert(is_plain(d[1].name@));
    assert(is_plain(d[2].name@));
    assert(is_plain(d[3].name@));
    assert(is_plain(d[4].name@));
    assert(is_plain(d[5].name@));
    assert(is_plain(d[6].name@));
    assert(is_plain(d[7].name@));
    assert(is_plain(d[8].name@));
    assert(is_plain(d[9].name@));
}

/// A recognized name is made of ASCII letters, digits and underscores.
pub proof fn lemma_recognized_is_plain(name: Seq<char>)
    requires
        recognized(name),
    ensures
        is_plain(name),
{
    lemma_definition_names_plain();
}

/// Looking up the name of a descriptor of the definition finds that very descriptor.
pub proof fn lemma_lookup_finds_each(i: int)
    requires
        0 <= i < definition().len(),
    ensures
        lookup(definition()[i].name@) == Some(definition()[i]),
{
    lemma_definition_sorted();
}

/// Lookup a feature descriptor by name, by binary search in the definition.  Return `None` if
/// not recognized.
pub fn get(feature_name: &str) -> (found: Option<Feature>)
    ensures
        found == lookup(feature_name@),
{
    proof {
        lemma_definition_sorted();
    }
    let mut low: usize = 0;
    let mut high: usize = DEFINITION_LEN;
    while low < high
        invariant
            low <= high <= DEFINITION_LEN,
            definition().len() == DEFINITION_LEN,
            sorted_by_name(definition()),
            forall|i: int| 0 <= i < low ==> name_lt(definition()[i].name@, feature_name@),
            forall|i: int|
                high <= i < definition().len() ==> name_lt(feature_name@, definition()[i].name@),
        decreases high - low,
    {
        let middle: usize = low + (high - low) / 2;
        let element = definition_entry(middle);
        match order(element.name, feature_name) {
            NameOrder::Same => {
                return Some(element);
            },
            NameOrder::Before => {
                proof {
                    assert forall|i: int| 0 <= i < middle + 1 implies name_lt(
                        definition()[i].name@,
                        feature_name@,
                    ) by {
                        if i < middle {
                            lemma_name_lt_transitive(
                                definition()[i].name@,
                                definition()[middle as int].name@,
                                feature_name@,
                            );
                        }
                    }
                }
                low = middle + 1;
            },
            NameOrder::After => {
                proof {
                    lemma_name_lt_total(element.name@, feature_name@);
                    assert forall|i: int| middle <= i < definition().len() implies name_lt(
                        feature_name@,
                        definition()[i].name@,
                    ) by {
                        if middle < i {
                            lemma_name_lt_transitive(
                                feature_name@,
                                definition()[middle as int].name@,
                                definition()[i].name@,
                            );
                        }
                    }
                }
                high = middle;
            },
        }
    }
    proof {
        assert forall|i: int| 0 <= i < definition().len() implies (
        #[trigger] definition()[i]).name@ != feature_name@ by {
            lemma_name_lt_irreflexive(feature_name@);
        }
    }
    None
}

} // verus!
