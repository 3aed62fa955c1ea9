//! What the library takes on trust from the crates that inspect the toolchain.
//!
//! `autocfg` runs the compiler on small snippets, and `version_check` reads the compiler's
//! version.  Their types are opaque here, and nothing is promised of what their functions
//! return: it depends on the compiler that is installed.

use vstd::prelude::*;

verus! {

/// The prober of `autocfg`, carried through unread.
#[verifier::external_type_specification]
#[verifier::external_body]
pub struct ExAutoCfg(autocfg::AutoCfg);

/// The error of `autocfg`, carried through unread.
#[verifier::external_type_specification]
#[verifier::external_body]
pub struct ExAutoCfgError(autocfg::Error);

/// The compiler version of `version_check`, carried through unread.
#[verifier::external_type_specification]
#[verifier::external_body]
pub struct ExVersion(version_check::Version);

/// The release channel of `version_check`, carried through unread.
#[verifier::external_type_specification]
#[verifier::external_body]
pub struct ExChannel(version_check::Channel);

/// The release date of `version_check`, carried through unread.
#[verifier::external_type_specification]
#[verifier::external_body]
pub struct ExDate(version_check::Date);

/// `autocfg::AutoCfg::new` runs the compiler and looks at the `OUT_DIR` environment variable.
/// Whether it succeeds is up to the environment.
pub assume_specification[ autocfg::AutoCfg::new ]() -> (made: Result<
    autocfg::AutoCfg,
    autocfg::Error,
>)
;

/// `autocfg::AutoCfg::probe_expression` tells whether the compiler accepts the expression.
/// The answer is the compiler's.
pub assume_specification[ autocfg::AutoCfg::probe_expression ](
    prober: &autocfg::AutoCfg,
    expr: &str,
) -> (accepted: bool)
;

/// `autocfg::AutoCfg::probe_type` tells whether the compiler resolves the type.  The answer is
/// the compiler's.
pub assume_specification[ autocfg::AutoCfg::probe_type ](
    prober: &autocfg::AutoCfg,
    name: &str,
) -> (accepted: bool)
;

/// `autocfg::AutoCfg::probe_path` tells whether the compiler resolves the path.  The answer is
/// the compiler's.
pub assume_specification[ autocfg::AutoCfg::probe_path ](
    prober: &autocfg::AutoCfg,
    path: &str,
) -> (accepted: bool)
;

/// `version_check::triple` reads version, channel and date of the installed compiler, or
/// nothing where one of them cannot be determined.
pub assume_specification[ version_check::triple ]() -> (read: Option<
    (version_check::Version, version_check::Channel, version_check::Date),
>)
;

} // verus!
