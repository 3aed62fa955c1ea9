//! A build-script helper to set `cfg` options according to probing which features of your
//! choice are enabled in the Rust compiler, language, and library, without reference to
//! versions of Rust.
//!
//! The `cfg` options that are set are key-value forms like `rust_lib_feature = "iter_zip"`,
//! `rust_lang_feature = "never_type"`, etc.
//!
//! The set of recognized features is a fixed table, sorted by name.  Each requested name is
//! looked up in it; a name that is not recognized fails the whole request.  A recognized
//! feature is probed against the toolchain and recorded with its categories when enabled.  The
//! build instructions are computed as lines of text, which a build script writes to
//! `stdout`.

pub mod enabled;
pub mod engine;
pub mod errors;
pub mod helpers;
pub mod laws;
pub mod names;
pub mod recognized;
pub mod toolchain;

pub use enabled::EnabledFeatures;
pub use engine::{categorize, CfgRustFeatures, ReleaseChannel};
pub use errors::{
    unsupported_feature_todo_error, GatherError, Kind, UnsupportedFeatureTodoError,
    VersionCheckError,
};
pub use helpers::{
    emit_cargo_instruction, emit_rerun_if_changed_file, emit_rust_feature, emit_warning,
};
pub use names::{order, FeatureName, NameOrder};
pub use recognized::{
    definition_entry, get, Feature, FeatureCategories, FeatureCategory, FeatureEnabled, Probe,
    DEFINITION_LEN,
};
