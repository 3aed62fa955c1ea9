//! The errors of the library.

use vstd::prelude::*;
use vstd::string::*;
use crate::helpers::{debug_quote, debug_quoted, in_quotes};
use crate::names::is_plain;

verus! {

/// `autocfg::Error` formats itself with `{}`.  Nothing is said here of the text.
#[verifier::external_body]
fn autocfg_error_text(e: &autocfg::Error) -> (text: String) {
    format!("{}", e)
}

/// The message that names a feature by `quoted`, its name with its quotes, and says where
/// support for it can be requested.
pub open spec fn message_naming(quoted: Seq<char>) -> Seq<char> {
    "To request support for feature "@ + quoted + ", open an issue at: "@
        + "https://github.com/DerickEddington/cfg_rust_features"@
}

/// What an `UnsupportedFeatureTodoError` for the feature `name` says.
pub open spec fn unsupported_message(name: Seq<char>) -> Seq<char> {
    message_naming(debug_quoted(name))
}

/// Error that occurs when a feature name is unsupported by this crate currently.
///
/// It holds the name that was not recognized.
#[derive(Debug)]
pub struct UnsupportedFeatureTodoError(String);

impl View for UnsupportedFeatureTodoError {
    type V = Seq<char>;

    /// The name of the feature that was not recognized.
    closed spec fn view(&self) -> Seq<char> {
        self.0@
    }
}

impl UnsupportedFeatureTodoError {
    /// The error for the feature `feature_name`.
    pub fn new(feature_name: &str) -> (e: Self)
        ensures
            e@ == feature_name@,
    {
        UnsupportedFeatureTodoError(String::from_str(feature_name))
    }

    /// The name of the feature that was not recognized.
    pub fn feature_name(&self) -> (name: &str)
        ensures
            name@ == self@,
    {
        self.0.as_str()
    }

    /// The message, which names the feature and says where support for it can be requested.
    pub fn description(&self) -> (message: String)
        ensures
            message@ == unsupported_message(self@),
            is_plain(self@) ==> message@ == message_naming(in_quotes(self@)),
    {
        let quoted = debug_quote(self.0.as_str());
        let mut message = String::from_str("To request support for feature ");
        message.append(quoted.as_str());
        message.append(", open an issue at: ");
        message.append("https://github.com/DerickEddington/cfg_rust_features");
        message
    }
}

/// Create a new [`UnsupportedFeatureTodoError`].
pub fn unsupported_feature_todo_error(feature_name: &str) -> (e: UnsupportedFeatureTodoError)
    ensures
        e@ == feature_name@,
{
    UnsupportedFeatureTodoError::new(feature_name)
}

/// Error that occurs when `version_check` fails.
///
/// `version_check` does not provide its own error type, so we provide this.
#[derive(Debug)]
pub struct VersionCheckError;

impl VersionCheckError {
    /// The message: `"version_check error"`.
    pub fn description(&self) -> (message: &'static str)
        ensures
            message@ == "version_check error"@,
    {
        "version_check error"
    }
}

/// What went wrong.
#[derive(Debug)]
pub enum Kind {
    /// The prober could not be set up.
    AutoCfg(autocfg::Error),
    /// The compiler's version could not be read.
    VersionCheck,
    /// A feature name is not recognized.
    UnsupportedFeatureTodo(UnsupportedFeatureTodoError),
}

/// Error type that might occur when trying to gather information about the Rust compiler, or
/// when a requested feature is not recognized.
#[derive(Debug)]
pub struct GatherError(pub Kind);

impl From<autocfg::Error> for GatherError {
    fn from(e: autocfg::Error) -> (made: Self) {
        GatherError(Kind::AutoCfg(e))
    }
}

impl vstd::std_specs::convert::FromSpecImpl<autocfg::Error> for GatherError {
    open spec fn obeys_from_spec() -> bool {
        true
    }

    open spec fn from_spec(e: autocfg::Error) -> Self {
        GatherError(Kind::AutoCfg(e))
    }
}

impl From<VersionCheckError> for GatherError {
    fn from(e: VersionCheckError) -> (made: Self) {
        GatherError(Kind::VersionCheck)
    }
}

impl vstd::std_specs::convert::FromSpecImpl<VersionCheckError> for GatherError {
    open spec fn obeys_from_spec() -> bool {
        true
    }

    open spec fn from_spec(e: VersionCheckError) -> Self {
        GatherError(Kind::VersionCheck)
    }
}

impl From<UnsupportedFeatureTodoError> for GatherError {
    fn from(e: UnsupportedFeatureTodoError) -> (made: Self) {
        GatherError(Kind::UnsupportedFeatureTodo(e))
    }
}

impl vstd::std_specs::convert::FromSpecImpl<UnsupportedFeatureTodoError> for GatherError {
    open spec fn obeys_from_spec() -> bool {
        true
    }

    open spec fn from_spec(e: UnsupportedFeatureTodoError) -> Self {
        GatherError(Kind::UnsupportedFeatureTodo(e))
    }
}

impl GatherError {
    /// The name of the feature that was not recognized, where that is what went wrong.
    pub open spec fn unsupported(&self) -> Option<Seq<char>> {
        match self.0 {
            Kind::UnsupportedFeatureTodo(e) => Some(e@),
            _ => None,
        }
    }

    /// The name of the feature that was not recognized, where that is what went wrong.
    pub fn unsupported_feature(&self) -> (name: Option<&str>)
        ensures
            match name {
                Some(n) => self.unsupported() == Some(n@),
                None => self.unsupported() is None,
            },
    {
        match &self.0 {
            Kind::UnsupportedFeatureTodo(e) => Some(e.feature_name()),
            _ => None,
        }
    }

    /// The message.  For a failure of the prober it is the prober's own text.
    pub fn message(&self) -> (text: String)
        ensures
            self.0 is VersionCheck ==> text@ == "version_check error"@,
            self.0 matches Kind::UnsupportedFeatureTodo(e) ==> text@ == unsupported_message(e@),
    {
        match &self.0 {
            Kind::AutoCfg(e) => autocfg_error_text(e),
            Kind::VersionCheck => String::from_str(VersionCheckError.description()),
            Kind::UnsupportedFeatureTodo(e) => e.description(),
        }
    }
}

} // verus!
