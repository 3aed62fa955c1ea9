use std::borrow::Cow;
use std::rc::Rc;
use std::sync::Arc;

use cfg_rust_features::{
    categorize, get, CfgRustFeatures, EnabledFeatures, FeatureCategories, FeatureCategory,
    GatherError, Kind, ReleaseChannel,
};

/// An engine for the compiler that is installed, with `/tmp` as its scratch directory.
fn for_test() -> Result<CfgRustFeatures, GatherError> {
    match autocfg::AutoCfg::with_dir("/tmp") {
        Ok(ac) => CfgRustFeatures::with_autocfg(ac),
        Err(e) => Err(GatherError::from(e)),
    }
}

/// The channel that a version string tells.
fn channel_of(version: &str) -> ReleaseChannel {
    let channel = version_check::Channel::parse(version).unwrap();
    if channel.is_dev() {
        ReleaseChannel::Dev
    } else if channel.is_nightly() {
        ReleaseChannel::Nightly
    } else if channel.is_beta() {
        ReleaseChannel::Beta
    } else {
        assert!(channel.is_stable());
        ReleaseChannel::Stable
    }
}

/// An engine for a compiler of the given version string, which also tells its channel.
fn for_version(version: &str) -> CfgRustFeatures {
    let ac = autocfg::AutoCfg::with_dir("/tmp").unwrap();
    CfgRustFeatures::with_toolchain(
        ac,
        version_check::Version::parse(version).unwrap(),
        channel_of(version),
        version_check::Date::parse("2022-10-23").unwrap(),
    )
}

fn all_three() -> FeatureCategories {
    FeatureCategories { comp: true, lang: true, lib: true }
}

#[test]
fn new() {
    assert!(for_test().is_ok());
}

#[test]
fn error() {
    let features_names = vec!["rust1", "bogusness", "dummy"];
    let cfg_rust_features = for_test().unwrap();
    let mut out: Vec<String> = Vec::new();
    let result = cfg_rust_features.emit_multiple(features_names, &mut out);

    assert!(result.is_err());
    assert_eq!(
        result.unwrap_err().description(),
        "To request support for feature \"bogusness\", open an issue at: \
         https://github.com/DerickEddington/cfg_rust_features"
    );
    assert!(out.is_empty());
}

#[test]
fn generic() {
    let cfg_rust_features = for_test().unwrap();
    {
        let features_names = vec![String::from("rust1")];
        let mut out: Vec<String> = Vec::new();
        let _enabled_features: EnabledFeatures<String> =
            cfg_rust_features.emit_multiple(features_names, &mut out).unwrap();
    }
    {
        let features_names = std::collections::BTreeSet::from_iter(vec![Cow::from("rust1")]);
        let mut out: Vec<String> = Vec::new();
        let _enabled_features = cfg_rust_features
            .emit_multiple(features_names.into_iter().collect(), &mut out)
            .unwrap();
    }
}

#[test]
fn fail_fast_on_unknown_name() {
    let engine = for_version("1.66.0");
    let result = engine.probe_multiple(vec!["iter_zip", "bogus_feature"]);
    let e = result.unwrap_err();
    assert_eq!(e.feature_name(), "bogus_feature");
}

#[test]
fn first_unknown_name_is_reported() {
    let engine = for_version("1.66.0");
    let e = engine.probe_multiple(vec!["rust1", "zzz", "aaa"]).unwrap_err();
    assert_eq!(e.feature_name(), "zzz");
}

#[test]
fn end_to_end_on_stable_channel() {
    let engine = for_version("1.66.0");
    assert_eq!(engine.release_channel(), ReleaseChannel::Stable);
    assert!(!engine.release_channel().supports_features());

    let mut out: Vec<String> = Vec::new();
    let failed = engine.emit_multiple(vec!["rust1", "unstable_features", "bogus"], &mut out);
    assert_eq!(failed.unwrap_err().feature_name(), "bogus");
    assert!(out.is_empty());

    let found = engine.emit_multiple(vec!["rust1", "unstable_features"], &mut out).unwrap();
    assert_eq!(found.len(), 2);
    assert_eq!(found.get("rust1"), Some(Some(all_three())));
    assert_eq!(found.get("unstable_features"), Some(None));
    assert_eq!(found.get("bogus"), None);
    assert_eq!(
        out,
        vec![
            "instruction:rustc-cfg=rust_comp_feature=\"rust1\"".to_string(),
            "instruction:rustc-cfg=rust_lang_feature=\"rust1\"".to_string(),
            "instruction:rustc-cfg=rust_lib_feature=\"rust1\"".to_string(),
        ]
    );
}

#[test]
fn unstable_features_on_nightly_channel() {
    let engine = for_version("1.61.0-nightly");
    assert_eq!(engine.release_channel(), ReleaseChannel::Nightly);
    assert!(engine.release_channel().supports_features());
    let mut out: Vec<String> = Vec::new();
    let found = engine.emit_multiple(vec!["unstable_features"], &mut out).unwrap();
    let only_comp = FeatureCategories { comp: true, lang: false, lib: false };
    assert_eq!(found.get("unstable_features"), Some(Some(only_comp)));
    assert!(only_comp.contains(FeatureCategory::Comp));
    assert!(!only_comp.contains(FeatureCategory::Lib));
    assert_eq!(out, vec!["instruction:rustc-cfg=rust_comp_feature=\"unstable_features\"".to_string()]);
}

#[test]
fn gather_error_of_version_check() {
    let e = GatherError::from(cfg_rust_features::VersionCheckError);
    assert!(matches!(e.0, Kind::VersionCheck));
    assert_eq!(e.message(), "version_check error");
    assert_eq!(e.unsupported_feature(), None);
}

#[test]
fn always_enabled_on_every_channel() {
    for version in ["1.0.0", "1.66.0", "1.70.0-beta", "1.61.0-nightly", "1.3.0-dev"] {
        let engine = for_version(version);
        assert_eq!(engine.probe_single("rust1").unwrap(), Some(all_three()));
        assert!(engine.probe(&get("rust1").unwrap()));
        let found = engine.probe_multiple(vec!["rust1"]).unwrap();
        assert_eq!(found.get("rust1"), Some(Some(all_three())));
    }
}

#[test]
fn channel_decides_unstable_features() {
    let only_comp = FeatureCategories { comp: true, lang: false, lib: false };
    for (version, allowed) in [
        ("1.0.0", false),
        ("1.70.0-beta", false),
        ("1.61.0-nightly", true),
        ("1.3.0-dev", true),
    ] {
        let engine = for_version(version);
        assert_eq!(engine.release_channel().supports_features(), allowed);
        assert_eq!(
            version_check::Channel::parse(version).unwrap().supports_features(),
            allowed
        );
        assert_eq!(engine.probe(&get("unstable_features").unwrap()), allowed);
        let expected = if allowed { Some(only_comp) } else { None };
        assert_eq!(engine.probe_single("unstable_features").unwrap(), expected);
    }
}

#[test]
fn probe_single_of_unknown_name() {
    let engine = for_version("1.66.0");
    let e = engine.probe_single("not-a-real-feature").unwrap_err();
    assert_eq!(e.feature_name(), "not-a-real-feature");
}

#[test]
fn probing_twice_gives_the_same() {
    let engine = for_test().unwrap();
    let names = vec!["rust1", "unstable_features", "iter_zip", "never_type", "rust1"];
    let first = engine.probe_multiple(names.clone()).unwrap();
    let second = engine.probe_multiple(names.clone()).unwrap();
    assert_eq!(first.len(), 4);
    assert_eq!(second.len(), 4);
    for i in 0..4 {
        assert_eq!(first.name_at(i), second.name_at(i));
        assert_eq!(first.enabled_at(i), second.enabled_at(i));
    }
    for name in names {
        assert!(first.contains_key(name));
        assert_eq!(first.get(name), second.get(name));
    }
    let wrong = vec!["rust1", "nope", "iter_zip", "neither"];
    let first = engine.probe_multiple(wrong.clone()).unwrap_err();
    let second = engine.probe_multiple(wrong).unwrap_err();
    assert_eq!(first.feature_name(), "nope");
    assert_eq!(second.feature_name(), "nope");
}

#[test]
fn one_entry_for_each_name_in_the_order_first_given() {
    let engine = for_version("1.61.0-nightly");
    let names = vec!["unstable_features", "rust1", "unstable_features", "rust1", "rust1"];
    let mut out: Vec<String> = Vec::new();
    let found = engine.emit_multiple(names, &mut out).unwrap();
    assert_eq!(found.len(), 2);
    assert_eq!(found.name_at(0), "unstable_features");
    assert_eq!(found.name_at(1), "rust1");
    assert_eq!(
        out,
        vec![
            "instruction:rustc-cfg=rust_comp_feature=\"unstable_features\"".to_string(),
            "instruction:rustc-cfg=rust_comp_feature=\"rust1\"".to_string(),
            "instruction:rustc-cfg=rust_lang_feature=\"rust1\"".to_string(),
            "instruction:rustc-cfg=rust_lib_feature=\"rust1\"".to_string(),
        ]
    );
}

#[test]
fn one_line_for_each_category_of_an_enabled_feature() {
    let engine = for_test().unwrap();
    let names = vec![
        "cfg_version",
        "destructuring_assignment",
        "inner_deref",
        "iter_zip",
        "never_type",
        "question_mark",
        "rust1",
        "step_trait",
        "unstable_features",
        "unwrap_infallible",
    ];
    let mut out: Vec<String> = vec!["instruction:rerun-if-changed=build.rs".to_string()];
    let found = engine.emit_multiple(names.clone(), &mut out).unwrap();
    assert_eq!(found.len(), names.len());
    assert_eq!(out[0], "instruction:rerun-if-changed=build.rs");
    let mut expected: Vec<String> = Vec::new();
    for i in 0..found.len() {
        let name = found.name_at(i);
        assert_eq!(name, names[i]);
        let own: Vec<&String> =
            out.iter().filter(|l| l.ends_with(&format!("_feature=\"{}\"", name))).collect();
        match found.enabled_at(i) {
            Some(categories) => {
                assert_eq!(categories, get(name).unwrap().categories);
                assert_eq!(own.len(), categories.to_vec().len());
                for c in categories.to_vec() {
                    let line = format!("instruction:rustc-cfg=rust_{}_feature=\"{}\"", c.as_str(), name);
                    assert_eq!(out.iter().filter(|l| **l == line).count(), 1);
                    expected.push(line);
                }
            }
            None => assert!(own.is_empty()),
        }
    }
    assert_eq!(out[1..].to_vec(), expected);
}

#[test]
fn stable_compiler_features_are_found() {
    let engine = for_test().unwrap();
    let found = engine
        .probe_multiple(vec!["question_mark", "iter_zip", "inner_deref", "destructuring_assignment"])
        .unwrap();
    let lang = FeatureCategories { comp: false, lang: true, lib: false };
    let lib = FeatureCategories { comp: false, lang: false, lib: true };
    assert_eq!(found.get("question_mark"), Some(Some(lang)));
    assert_eq!(found.get("iter_zip"), Some(Some(lib)));
    assert_eq!(found.get("inner_deref"), Some(Some(lib)));
    assert_eq!(found.get("destructuring_assignment"), Some(Some(lang)));
}

#[test]
fn categorize_gives_all_categories_or_nothing() {
    let descriptor = get("rust1").unwrap();
    assert_eq!(categorize(&descriptor, true), Some(all_three()));
    assert_eq!(categorize(&descriptor, false), None);
    let descriptor = get("iter_zip").unwrap();
    assert_eq!(
        categorize(&descriptor, true),
        Some(FeatureCategories { comp: false, lang: false, lib: true })
    );
    assert_eq!(categorize(&descriptor, false), None);
}

#[test]
fn emit_on_a_temporary_instance_fails_without_output() {
    let mut out: Vec<String> = Vec::new();
    let failed = CfgRustFeatures::emit(vec!["rust1", "bogus"], &mut out);
    let e = failed.unwrap_err();
    assert!(matches!(e.0, Kind::AutoCfg(_)) || e.unsupported_feature() == Some("bogus"));
    assert!(out.is_empty());
}

#[test]
fn empty_request() {
    let engine = for_version("1.66.0");
    let mut out: Vec<String> = Vec::new();
    let names: Vec<&str> = Vec::new();
    let found = engine.emit_multiple(names, &mut out).unwrap();
    assert!(found.is_empty());
    assert!(out.is_empty());
}

#[test]
fn channel_of_the_installed_compiler() {
    let engine = for_test().unwrap();
    let read = version_check::Channel::read().unwrap();
    let expected = if read.is_dev() {
        ReleaseChannel::Dev
    } else if read.is_nightly() {
        ReleaseChannel::Nightly
    } else if read.is_beta() {
        ReleaseChannel::Beta
    } else {
        ReleaseChannel::Stable
    };
    assert_eq!(engine.release_channel(), expected);
    assert_eq!(engine.release_channel().supports_features(), read.supports_features());
}

#[test]
fn channels_that_allow_unstable_features() {
    assert!(ReleaseChannel::Dev.supports_features());
    assert!(ReleaseChannel::Nightly.supports_features());
    assert!(!ReleaseChannel::Beta.supports_features());
    assert!(!ReleaseChannel::Stable.supports_features());
}

#[test]
fn nothing_read_of_the_compiler_is_a_version_check_error() {
    let ac = autocfg::AutoCfg::with_dir("/tmp").unwrap();
    let e = CfgRustFeatures::with_triple(ac, None).unwrap_err();
    assert!(matches!(e.0, Kind::VersionCheck));
    assert_eq!(e.message(), "version_check error");
}

#[test]
fn what_was_read_of_the_compiler_makes_an_instance() {
    for (version, expected) in [
        ("1.66.0", ReleaseChannel::Stable),
        ("1.70.0-beta", ReleaseChannel::Beta),
        ("1.61.0-nightly", ReleaseChannel::Nightly),
        ("1.3.0-dev", ReleaseChannel::Dev),
    ] {
        let ac = autocfg::AutoCfg::with_dir("/tmp").unwrap();
        let read = Some((
            version_check::Version::parse(version).unwrap(),
            version_check::Channel::parse(version).unwrap(),
            version_check::Date::parse("2022-10-23").unwrap(),
        ));
        let engine = CfgRustFeatures::with_triple(ac, read).unwrap();
        assert_eq!(engine.release_channel(), expected);
    }
}

#[test]
fn failure_of_the_prober_is_handed_on() {
    let cause = autocfg::AutoCfg::with_dir("/this/directory/does/not/exist").unwrap_err();
    let text = cause.to_string();
    let e = CfgRustFeatures::with_gathered(Err(cause)).unwrap_err();
    assert!(matches!(e.0, Kind::AutoCfg(_)));
    assert_eq!(e.message(), text);
}

#[test]
fn a_prober_that_was_made_gives_an_instance() {
    let made = CfgRustFeatures::with_gathered(autocfg::AutoCfg::with_dir("/tmp"));
    let engine = made.unwrap();
    assert_eq!(engine.probe_single("rust1").unwrap(), Some(all_three()));
}

#[test]
fn names_of_several_string_types() {
    let engine = for_version("1.66.0");
    let owned = String::from("rust1");

    let found = engine.probe_multiple(vec![Cow::Borrowed("rust1")]).unwrap();
    assert_eq!(found.key_at(0), &Cow::Borrowed("rust1"));
    assert_eq!(found.get("rust1"), Some(Some(all_three())));

    let found = engine.probe_multiple(vec![Cow::<str>::Owned(owned.clone())]).unwrap();
    assert_eq!(found.get("rust1"), Some(Some(all_three())));

    let found = engine.probe_multiple(vec![&owned]).unwrap();
    assert_eq!(found.name_at(0), "rust1");
    assert_eq!(found.get("rust1"), Some(Some(all_three())));

    let found = engine.probe_multiple(vec![Box::new(owned.clone())]).unwrap();
    assert_eq!(found.get("rust1"), Some(Some(all_three())));

    let found = engine.probe_multiple(vec![Rc::new("rust1")]).unwrap();
    assert_eq!(found.get("rust1"), Some(Some(all_three())));

    let found = engine.probe_multiple(vec![Arc::new(owned.clone())]).unwrap();
    assert_eq!(found.get("rust1"), Some(Some(all_three())));

    let e = engine.probe_multiple(vec![Cow::Borrowed("rust1"), Cow::Borrowed("a-b")]).unwrap_err();
    assert_eq!(e.feature_name(), "a-b");
}
