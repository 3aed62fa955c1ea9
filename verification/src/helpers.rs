//! The build instructions, as lines of text appended to a list.
//!
//! Nothing is printed here: whoever holds the list writes its lines to `stdout`, one line each,
//! in the order in which they were appended.

use vstd::prelude::*;
use vstd::string::*;
use crate::names::is_plain;
use crate::recognized::is_category_token;

verus! {

/// The text that `{:?}` formats a string to: the string in double quotes, with the escapes of a
/// Rust string literal.
pub uninterp spec fn debug_quoted(s: Seq<char>) -> Seq<char>;

/// `s` between two double quotes.
pub open spec fn in_quotes(s: Seq<char>) -> Seq<char> {
    seq!['"'] + s + seq!['"']
}

/// Formats `s` with `{:?}` by `format!`.  The result is a function of the string alone.  Letters,
/// digits and underscores of ASCII are never escaped, so a string made of them comes back between
/// two double quotes and otherwise unchanged.
#[verifier::external_body]
pub(crate) fn debug_quote(s: &str) -> (quoted: String)
    ensures
        quoted@ == debug_quoted(s@),
        is_plain(s@) ==> quoted@ == in_quotes(s@),
{
    format!("{:?}", s)
}

/// The lines of text that a list of instructions holds.
pub open spec fn lines_of(out: Seq<String>) -> Seq<Seq<char>> {
    Seq::new(out.len(), |i: int| out[i]@)
}

/// The view of an optional string.
pub open spec fn arg_view(arg: Option<&str>) -> Option<Seq<char>> {
    match arg {
        Some(a) => Some(a@),
        None => None,
    }
}

/// The line that gives the build `instruction`: the prefix `instruction:`, the instruction, and
/// `=` with the argument behind it where there is one.
pub open spec fn instruction_line(instruction: Seq<char>, arg: Option<Seq<char>>) -> Seq<char> {
    "instruction:"@ + instruction + match arg {
        Some(a) => "="@ + a,
        None => Seq::empty(),
    }
}

/// The line that tells the build to display `message` as a warning.
pub open spec fn warning_line(message: Seq<char>) -> Seq<char> {
    instruction_line("warning"@, Some(message))
}

/// The line that tells the build to rerun the build script only when `filename` changes.
pub open spec fn rerun_if_changed_line(filename: Seq<char>) -> Seq<char> {
    instruction_line("rerun-if-changed"@, Some(filename))
}

/// The key-value configuration option of the category with token `category`, for a feature
/// whose name, with its quotes, is `quoted`.
pub open spec fn feature_option_naming(category: Seq<char>, quoted: Seq<char>) -> Seq<char> {
    "rust_"@ + category + "_feature="@ + quoted
}

/// The line that tells the build to set the configuration option of the category with token
/// `category`, for a feature whose name, with its quotes, is `quoted`.
pub open spec fn feature_line_naming(category: Seq<char>, quoted: Seq<char>) -> Seq<char> {
    instruction_line("rustc-cfg"@, Some(feature_option_naming(category, quoted)))
}

/// The line that tells the build to set the configuration option for a feature `name` of the
/// category with token `category`.
pub open spec fn rust_feature_line(category: Seq<char>, name: Seq<char>) -> Seq<char> {
    feature_line_naming(category, debug_quoted(name))
}

/// The line for a feature whose name needs no escape: the name stands between two double
/// quotes.
pub open spec fn plain_feature_line(category: Seq<char>, name: Seq<char>) -> Seq<char> {
    feature_line_naming(category, in_quotes(name))
}

/// Append to `out` a build instruction.
///
/// Neither argument may be an empty string.
pub fn emit_cargo_instruction(instruction: &str, arg: Option<&str>, out: &mut Vec<String>)
    requires
        instruction@.len() > 0,
        arg matches Some(a) ==> a@.len() > 0,
    ensures
        lines_of(final(out)@) == lines_of(old(out)@).push(
            instruction_line(instruction@, arg_view(arg)),
        ),
{
    let mut line = String::from_str("instruction:");
    line.append(instruction);
    match arg {
        Some(a) => {
            line.append("=");
            line.append(a);
            assert(line@ =~= instruction_line(instruction@, arg_view(arg)));
        },
        None => {
            assert(line@ =~= instruction_line(instruction@, arg_view(arg)));
        },
    }
    out.push(line);
    assert(lines_of(out@) =~= lines_of(old(out)@).push(
        instruction_line(instruction@, arg_view(arg)),
    ));
}

/// Tell the build to display the given warning message after a build script has finished running.
///
/// The message may not be empty.
pub fn emit_warning(message: &str, out: &mut Vec<String>)
    requires
        message@.len() > 0,
    ensures
        lines_of(final(out)@) == lines_of(old(out)@).push(warning_line(message@)),
{
    proof {
        reveal_strlit("warning");
    }
    emit_cargo_instruction("warning", Some(message), out);
}

/// Tell the build to not default to scanning the entire package directory for changes, but to check
/// only given files, when deciding if a build script needs to be rerun.
///
/// The file's name may not be empty.
pub fn emit_rerun_if_changed_file(filename: &str, out: &mut Vec<String>)
    requires
        filename@.len() > 0,
    ensures
        lines_of(final(out)@) == lines_of(old(out)@).push(rerun_if_changed_line(filename@)),
{
    proof {
        reveal_strlit("rerun-if-changed");
    }
    emit_cargo_instruction("rerun-if-changed", Some(filename), out);
}

/// Tell the build to pass a key-value configuration option to the compiler to be set for conditional
/// compilation, for features of the Rust compiler, language, or standard library.
///
/// `category`: one of `"comp"`, `"lang"`, or `"lib"`.
///
/// `name`: the feature name.
///
/// Doing `emit_rust_feature("lib", "step_trait", out)` in a package's build script enables the
/// package's source code to use `#[cfg(rust_lib_feature = "step_trait")]`.
pub fn emit_rust_feature(category: &str, name: &str, out: &mut Vec<String>)
    requires
        is_category_token(category@),
    ensures
        lines_of(final(out)@) == lines_of(old(out)@).push(rust_feature_line(category@, name@)),
        is_plain(name@) ==> debug_quoted(name@) == in_quotes(name@),
        is_plain(name@) ==> rust_feature_line(category@, name@) == plain_feature_line(
            category@,
            name@,
        ),
{
    let quoted = debug_quote(name);
    let mut option = String::from_str("rust_");
    option.append(category);
    option.append("_feature=");
    option.append(quoted.as_str());
    proof {
        reveal_strlit("rust_");
        reveal_strlit("rustc-cfg");
        assert(option@ =~= feature_option_naming(category@, debug_quoted(name@)));
    }
    emit_cargo_instruction("rustc-cfg", Some(option.as_str()), out);
}

} // verus!
