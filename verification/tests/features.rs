//! What a build script gets for each feature name, with the compiler that is installed.
//!
//! A configuration option `rust_<category>_feature = "<name>"` is set exactly by the line
//! `instruction:rustc-cfg=rust_<category>_feature="<name>"`.

use cfg_rust_features::{get, CfgRustFeatures, FeatureCategories, FeatureCategory};

/// What is found of `name`, and the lines that are emitted for it.
fn emitted_for(name: &'static str) -> (Option<FeatureCategories>, Vec<String>) {
    let ac = autocfg::AutoCfg::with_dir("/tmp").unwrap();
    let engine = CfgRustFeatures::with_autocfg(ac).unwrap();
    let mut out: Vec<String> = Vec::new();
    let found = engine.emit_multiple(vec![name], &mut out).unwrap();
    assert_eq!(found.len(), 1);
    (found.get(name).unwrap(), out)
}

/// The line that sets the option of `category` for `name`.
fn line(category: &str, name: &str) -> String {
    format!("instruction:rustc-cfg=rust_{}_feature=\"{}\"", category, name)
}

/// Checks that the option of `category` for `name` is set exactly if the feature is enabled,
/// and that no other option is set.  Returns whether it is set.
fn option_is_set(category: FeatureCategory, name: &'static str) -> bool {
    let descriptor = get(name).unwrap();
    assert!(descriptor.categories.contains(category));
    let (found, out) = emitted_for(name);
    match found {
        Some(categories) => {
            assert_eq!(categories, descriptor.categories);
            let expected: Vec<String> =
                categories.to_vec().iter().map(|c| line(c.as_str(), name)).collect();
            assert_eq!(out, expected);
            assert!(out.contains(&line(category.as_str(), name)));
            true
        }
        None => {
            assert!(out.is_empty());
            false
        }
    }
}

/// Checks that a request for `name` fails and names it, and sets no option.
fn never_set(name: &'static str) {
    assert_eq!(get(name), None);
    let ac = autocfg::AutoCfg::with_dir("/tmp").unwrap();
    let engine = CfgRustFeatures::with_autocfg(ac).unwrap();
    let mut out: Vec<String> = Vec::new();
    let e = engine.emit_multiple(vec![name], &mut out).unwrap_err();
    assert_eq!(e.feature_name(), name);
    assert!(out.is_empty());
}

#[test]
fn arbitrary_self_types() {
    never_set("arbitrary_self_types");
}

#[test]
fn cfg_version() {
    let _ = option_is_set(FeatureCategory::Lang, "cfg_version");
}

#[test]
fn destructuring_assignment() {
    let _ = option_is_set(FeatureCategory::Lang, "destructuring_assignment");
    let (a, b);
    (a, b) = (true, false);
    assert_ne!(a, b);
}

#[test]
fn error_in_core() {
    never_set("error_in_core");
    let e: &dyn core::error::Error = &std::fmt::Error;
    assert!(e.is::<std::fmt::Error>());
}

#[test]
fn inner_deref() {
    let _ = option_is_set(FeatureCategory::Lib, "inner_deref");
    assert_eq!(Ok(&1), Ok::<_, ()>(Box::new(1)).as_deref());
}

#[test]
fn iter_zip() {
    let _ = option_is_set(FeatureCategory::Lib, "iter_zip");
    assert_eq!(vec![(1, 2)], std::iter::zip([1], [2]).collect::<Vec<_>>());
}

#[test]
fn never_type() {
    let _ = option_is_set(FeatureCategory::Lang, "never_type");
}

#[test]
fn question_mark() {
    fn f() -> Result<(), ()> {
        Err(())?
    }
    let _ = option_is_set(FeatureCategory::Lang, "question_mark");
    assert_eq!(Err(()), f());
}

#[test]
fn rust1_comp() {
    assert!(option_is_set(FeatureCategory::Comp, "rust1"));
}

#[test]
fn rust1_lang() {
    assert!(option_is_set(FeatureCategory::Lang, "rust1"));
}

#[test]
fn rust1_lib() {
    assert!(option_is_set(FeatureCategory::Lib, "rust1"));
}

#[test]
fn step_trait() {
    let _ = option_is_set(FeatureCategory::Lib, "step_trait");
}

#[test]
fn unstable_features() {
    let ac = autocfg::AutoCfg::with_dir("/tmp").unwrap();
    let engine = CfgRustFeatures::with_autocfg(ac).unwrap();
    let set = option_is_set(FeatureCategory::Comp, "unstable_features");
    assert_eq!(set, engine.release_channel().supports_features());
}

#[test]
fn unwrap_infallible() {
    let _ = option_is_set(FeatureCategory::Lib, "unwrap_infallible");
}

#[allow(non_snake_case)]
#[test]
fn SubGenius_Bogusness() {
    never_set("SubGenius_Bogusness");
}
