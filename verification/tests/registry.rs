use cfg_rust_features::{
    definition_entry, get, order, Feature, FeatureCategories, FeatureCategory, NameOrder, Probe,
    DEFINITION_LEN,
};

fn definition() -> Vec<Feature> {
    (0..DEFINITION_LEN).map(definition_entry).collect()
}

fn sorted() -> Vec<Feature> {
    let mut v = definition();
    v.sort_by(|a, b| a.name.cmp(b.name));
    v
}

#[test]
fn no_duplicates() {
    let mut deduped = sorted();
    deduped.dedup();
    assert_eq!(definition(), deduped);
}

#[test]
fn is_sorted() {
    assert_eq!(definition(), sorted());
}

#[test]
fn adjacent_names_strictly_increase() {
    let d = definition();
    assert_eq!(d.len(), 10);
    for pair in d.windows(2) {
        assert!(pair[0].name < pair[1].name);
        assert_eq!(order(pair[0].name, pair[1].name), NameOrder::Before);
        assert_eq!(order(pair[1].name, pair[0].name), NameOrder::After);
    }
}

#[test]
fn lookup_finds_every_descriptor() {
    for descriptor in definition() {
        assert_eq!(get(descriptor.name), Some(descriptor));
    }
}

#[test]
fn lookup_of_unknown_names_finds_nothing() {
    assert_eq!(get("not-a-real-feature"), None);
    assert_eq!(get(""), None);
    assert_eq!(get("rust"), None);
    assert_eq!(get("rust11"), None);
    assert_eq!(get("Rust1"), None);
    assert_eq!(get("RUST1"), None);
    assert_eq!(get(" rust1"), None);
    assert_eq!(get("aaa"), None);
    assert_eq!(get("zzz"), None);
    assert_eq!(get("it\u{e9}r_zip"), None);
}

#[test]
fn names_of_the_definition() {
    let names: Vec<&str> = definition().iter().map(|f| f.name).collect();
    assert_eq!(
        names,
        vec![
            "cfg_version",
            "destructuring_assignment",
            "inner_deref",
            "iter_zip",
            "never_type",
            "question_mark",
            "rust1",
            "step_trait",
            "unstable_features",
            "unwrap_infallible",
        ]
    );
}

#[test]
fn descriptors_of_the_definition() {
    let lang = FeatureCategories { comp: false, lang: true, lib: false };
    let lib = FeatureCategories { comp: false, lang: false, lib: true };
    assert_eq!(
        get("rust1"),
        Some(Feature {
            name: "rust1",
            categories: FeatureCategories { comp: true, lang: true, lib: true },
            probe: Probe::AlwaysEnabled,
        })
    );
    assert_eq!(
        get("unstable_features"),
        Some(Feature {
            name: "unstable_features",
            categories: FeatureCategories { comp: true, lang: false, lib: false },
            probe: Probe::UnstableFeatures,
        })
    );
    assert_eq!(
        get("cfg_version"),
        Some(Feature {
            name: "cfg_version",
            categories: lang,
            probe: Probe::Expr(r#"{ #[cfg(version("1.0"))] struct X; X }"#),
        })
    );
    assert_eq!(
        get("iter_zip"),
        Some(Feature { name: "iter_zip", categories: lib, probe: Probe::Path("std::iter::zip") })
    );
    assert_eq!(
        get("never_type"),
        Some(Feature { name: "never_type", categories: lang, probe: Probe::Type("!") })
    );
    assert_eq!(get("step_trait").unwrap().probe, Probe::Path("std::iter::Step"));
    assert_eq!(
        get("question_mark").unwrap().probe,
        Probe::Expr("|| -> Result<(), ()> { Err(())? }")
    );
    assert_eq!(
        get("destructuring_assignment").unwrap().probe,
        Probe::Expr("{ let (_a, _b); (_a, _b) = (1, 2); }")
    );
    assert_eq!(get("inner_deref").unwrap().probe, Probe::Expr("Ok::<_, ()>(vec![1]).as_deref()"));
    assert_eq!(
        get("unwrap_infallible").unwrap().probe,
        Probe::Expr("Ok::<(), core::convert::Infallible>(()).into_ok()")
    );
}

#[test]
fn every_descriptor_has_a_category() {
    for descriptor in definition() {
        assert!(!descriptor.categories.is_empty());
        assert!(!descriptor.categories.to_vec().is_empty());
    }
}

#[test]
fn order_of_names_is_that_of_strings() {
    let samples = [
        "", "a", "ab", "abc", "b", "B", "_", "rust1", "rust", "rust11", "iter_zip", "it\u{e9}r",
        "\u{e9}", "\u{10348}", "z", "\u{7f}", "\u{80}", "zz\u{10348}", "zz\u{e9}",
    ];
    for a in samples.iter() {
        for b in samples.iter() {
            let expected = if a < b {
                NameOrder::Before
            } else if a == b {
                NameOrder::Same
            } else {
                NameOrder::After
            };
            assert_eq!(order(a, b), expected);
        }
    }
}

#[test]
fn category_tokens() {
    assert_eq!(FeatureCategory::Comp.as_str(), "comp");
    assert_eq!(FeatureCategory::Lang.as_str(), "lang");
    assert_eq!(FeatureCategory::Lib.as_str(), "lib");
}

#[test]
fn categories_as_a_list() {
    let all = FeatureCategories { comp: true, lang: true, lib: true };
    assert_eq!(
        all.to_vec(),
        vec![FeatureCategory::Comp, FeatureCategory::Lang, FeatureCategory::Lib]
    );
    let two = FeatureCategories { comp: true, lang: false, lib: true };
    assert_eq!(two.to_vec(), vec![FeatureCategory::Comp, FeatureCategory::Lib]);
    assert!(two.contains(FeatureCategory::Comp));
    assert!(!two.contains(FeatureCategory::Lang));
    assert!(two.contains(FeatureCategory::Lib));
    assert!(!two.is_empty());
    let none = FeatureCategories { comp: false, lang: false, lib: false };
    assert!(none.is_empty());
    assert_eq!(none.to_vec(), vec![]);
}
