//! The engine: it looks each requested name up in the definition, probes the feature against
//! the toolchain, collects what it found, and computes the build instructions.

use vstd::prelude::*;
use crate::enabled::{
    entry_names, has_name, index_of, inserted, lemma_index_of, EnabledFeatures,
};
use crate::errors::{
    unsupported_feature_todo_error, GatherError, Kind, UnsupportedFeatureTodoError,
    VersionCheckError,
};
use crate::helpers::{
    debug_quoted, emit_rust_feature, in_quotes, lines_of, plain_feature_line, rust_feature_line,
};
use crate::names::{is_plain, FeatureName};
use crate::recognized::{
    get, lemma_recognized_is_plain, lookup, recognized, Feature, FeatureCategory, FeatureEnabled,
    Probe,
};

verus! {

/// The categories of `feature` where it is enabled, nothing where it is not.
pub open spec fn categorized(feature: Feature, enabled: bool) -> FeatureEnabled {
    if enabled {
        Some(feature.categories)
    } else {
        None
    }
}

/// Whether the probe is decided without asking the compiler.
pub open spec fn decided_without_compiler(probe: Probe) -> bool {
    probe is AlwaysEnabled || probe is UnstableFeatures
}

/// Whether `found` can be what probing `feature` gives, on a toolchain whose channel allows
/// unstable features exactly if `unstable`.  A feature that is always enabled is found with all
/// its categories; the feature of unstable features is found exactly if the channel allows
/// them; any other is found or not as the compiler answers, with all its categories if found.
pub open spec fn outcome_allowed(feature: Feature, unstable: bool, found: FeatureEnabled) -> bool {
    match feature.probe {
        Probe::AlwaysEnabled => found == categorized(feature, true),
        Probe::UnstableFeatures => found == categorized(feature, unstable),
        _ => found == categorized(feature, true) || found == categorized(feature, false),
    }
}

/// The texts of a list of names.
pub open spec fn texts<F: FeatureName>(names: Seq<F>) -> Seq<Seq<char>> {
    Seq::new(names.len(), |i: int| names[i].text())
}

/// Whether the name at `i` is not recognized while all before it are.
pub open spec fn first_unrecognized(names: Seq<Seq<char>>, i: int) -> bool {
    &&& 0 <= i < names.len()
    &&& !recognized(names[i])
    &&& forall|j: int| 0 <= j < i ==> recognized(#[trigger] names[j])
}

/// Whether every name of the list is recognized.
pub open spec fn all_recognized(names: Seq<Seq<char>>) -> bool {
    forall|i: int| 0 <= i < names.len() ==> recognized(#[trigger] names[i])
}

/// Whether `found` has an entry for exactly the names of the list, each with a value that
/// probing its feature can give.
pub open spec fn probed(
    unstable: bool,
    names: Seq<Seq<char>>,
    found: Map<Seq<char>, FeatureEnabled>,
) -> bool {
    &&& forall|n: Seq<char>| found.contains_key(n) <==> names.contains(n)
    &&& forall|n: Seq<char>| #[trigger]
        found.contains_key(n) ==> recognized(n) && outcome_allowed(
            lookup(n).unwrap(),
            unstable,
            found[n],
        )
}

/// Whether `name` is the first name of the list that is not recognized.
pub open spec fn rejected(names: Seq<Seq<char>>, name: Seq<char>) -> bool {
    exists|i: int| first_unrecognized(names, i) && names[i] == name
}

/// What probing a list of names gives: where a name is not recognized, the first such name and
/// nothing else; where all are recognized, an entry for each.
pub open spec fn probe_multiple_result(
    unstable: bool,
    names: Seq<Seq<char>>,
    result: Result<Map<Seq<char>, FeatureEnabled>, Seq<char>>,
) -> bool {
    match result {
        Ok(found) => all_recognized(names) && probed(unstable, names, found),
        Err(name) => rejected(names, name),
    }
}

/// The view of a result of probing a list of names.
pub open spec fn result_view<F: FeatureName>(
    result: Result<EnabledFeatures<F>, UnsupportedFeatureTodoError>,
) -> Result<Map<Seq<char>, FeatureEnabled>, Seq<char>> {
    match result {
        Ok(found) => Ok(found@),
        Err(e) => Err(e@),
    }
}

/// The names of the list without repetition: each where it first occurs.
pub open spec fn distinct_in_order(names: Seq<Seq<char>>) -> Seq<Seq<char>>
    decreases names.len(),
{
    if names.len() == 0 {
        Seq::empty()
    } else {
        let before = distinct_in_order(names.drop_last());
        if before.contains(names.last()) {
            before
        } else {
            before.push(names.last())
        }
    }
}

/// The lines for a feature `name`, one for each category of the list, in the list's order.
pub open spec fn category_lines(name: Seq<char>, categories: Seq<FeatureCategory>) -> Seq<
    Seq<char>,
> {
    Seq::new(categories.len(), |k: int| plain_feature_line(categories[k].token(), name))
}

/// The lines for one entry: one for each category of an enabled feature, none for a feature
/// that is not enabled.
pub open spec fn feature_lines(name: Seq<char>, enabled: FeatureEnabled) -> Seq<Seq<char>> {
    match enabled {
        Some(categories) => category_lines(name, categories.ordered()),
        None => Seq::empty(),
    }
}

/// The lines for a feature `name` that may need escapes, one for each category of the list, in
/// the list's order.
pub open spec fn quoted_category_lines(name: Seq<char>, categories: Seq<FeatureCategory>) -> Seq<
    Seq<char>,
> {
    Seq::new(categories.len(), |k: int| rust_feature_line(categories[k].token(), name))
}

/// The lines for one entry whose name may need escapes: one for each category of an enabled
/// feature, none for a feature that is not enabled.
pub open spec fn quoted_feature_lines(name: Seq<char>, enabled: FeatureEnabled) -> Seq<Seq<char>> {
    match enabled {
        Some(categories) => quoted_category_lines(name, categories.ordered()),
        None => Seq::empty(),
    }
}

/// The lines for a list of entries: those of each entry, in the order of the entries.
pub open spec fn emitted_lines(entries: Seq<(Seq<char>, FeatureEnabled)>) -> Seq<Seq<char>>
    decreases entries.len(),
{
    if entries.len() == 0 {
        Seq::empty()
    } else {
        emitted_lines(entries.drop_last()) + feature_lines(entries.last().0, entries.last().1)
    }
}

/// The categories of `feature` where it is enabled, nothing where it is not.
pub fn categorize(feature: &Feature, enabled: bool) -> (found: FeatureEnabled)
    ensures
        found == categorized(*feature, enabled),
{
    if enabled {
        Some(feature.categories)
    } else {
        None
    }
}

/// The release channel of a compiler.
#[derive(Clone, Copy, Debug, PartialEq, Eq, Structural)]
pub enum ReleaseChannel {
    Dev,
    Nightly,
    Beta,
    Stable,
}

impl ReleaseChannel {
    /// Whether the channel allows unstable features: the channels `dev` and `nightly` do.
    pub open spec fn allows_unstable(self) -> bool {
        self is Dev || self is Nightly
    }

    /// Whether the channel allows unstable features: the channels `dev` and `nightly` do.
    pub fn supports_features(&self) -> (allowed: bool)
        ensures
            allowed == self.allows_unstable(),
    {
        match self {
            ReleaseChannel::Dev => true,
            ReleaseChannel::Nightly => true,
            ReleaseChannel::Beta => false,
            ReleaseChannel::Stable => false,
        }
    }
}

/// Tells which of its four channels a `version_check::Channel` is, by its methods `is_dev`,
/// `is_nightly` and `is_beta`.  The value is opaque here, so nothing is said of the result.
#[verifier::external_body]
fn release_channel_of(read: &version_check::Channel) -> (channel: ReleaseChannel) {
    if read.is_dev() {
        ReleaseChannel::Dev
    } else if read.is_nightly() {
        ReleaseChannel::Nightly
    } else if read.is_beta() {
        ReleaseChannel::Beta
    } else {
        ReleaseChannel::Stable
    }
}

/// What `version_check` read of the compiler.
#[derive(Debug)]
struct VersionCheck {
    version: version_check::Version,
    channel: ReleaseChannel,
    date: version_check::Date,
}

/// Information about the current Rust compiler.
///
/// Gathered when a new instance is created.  Used to compute the build instructions that
/// set configuration options for conditional compilation.
///
/// Intended to be used from a package's build script.
#[derive(Debug)]
pub struct CfgRustFeatures {
    /// Result of a run of the `autocfg` crate's information gathering.
    autocfg: autocfg::AutoCfg,
    /// Result of a run of the `version_check` crate's information gathering.
    version_check: VersionCheck,
}

impl CfgRustFeatures {
    /// The compiler's release channel.
    pub closed spec fn channel(&self) -> ReleaseChannel {
        self.version_check.channel
    }

    /// Whether the compiler's channel allows unstable features.
    pub open spec fn unstable(&self) -> bool {
        self.channel().allows_unstable()
    }

    /// Gather the information about the current Rust compiler, and return a new instance that
    /// can perform the operations with it.
    ///
    /// Intended to be called from a package's build script.
    ///
    /// # Errors
    /// If the information gathering fails.  (E.g., if the `OUT_DIR` environment variable is not
    /// set, or if `rustc` could not be run.)
    pub fn new() -> (made: Result<Self, GatherError>)
        ensures
            made matches Err(e) ==> e.0 is AutoCfg || e.0 is VersionCheck,
    {
        Self::with_gathered(autocfg::AutoCfg::new())
    }

    /// Read the compiler's version, channel and date, and return a new instance that probes
    /// with `autocfg`.
    ///
    /// # Errors
    /// If the version cannot be read.
    pub fn with_autocfg(autocfg: autocfg::AutoCfg) -> (made: Result<Self, GatherError>)
        ensures
            made matches Ok(gathered) ==> gathered.prober() == autocfg,
            made matches Err(e) ==> e.0 is VersionCheck,
    {
        Self::with_triple(autocfg, version_check::triple())
    }

    /// The prober that the instance probes with.
    pub closed spec fn prober(&self) -> autocfg::AutoCfg {
        self.autocfg
    }

    /// The compiler's version.
    pub closed spec fn version(&self) -> version_check::Version {
        self.version_check.version
    }

    /// The compiler's release date.
    pub closed spec fn date(&self) -> version_check::Date {
        self.version_check.date
    }

    /// What [`Self::new`] returns for what setting up the prober gave: the prober's error where
    /// it failed, and what [`Self::with_autocfg`] returns for the prober where it was made.
    pub fn with_gathered(gathered: Result<autocfg::AutoCfg, autocfg::Error>) -> (made: Result<
        Self,
        GatherError,
    >)
        ensures
            match gathered {
                Ok(autocfg) => match made {
                    Ok(instance) => instance.prober() == autocfg,
                    Err(e) => e.0 is VersionCheck,
                },
                Err(cause) => made matches Err(e) && e.0 == Kind::AutoCfg(cause),
            },
    {
        match gathered {
            Ok(autocfg) => Self::with_autocfg(autocfg),
            Err(e) => Err(GatherError::from(e)),
        }
    }

    /// What [`Self::with_autocfg`] returns for what was read of the compiler: the error of
    /// `version_check` where nothing was read, else an instance that probes with `autocfg` and
    /// holds the version and the date that were read, with the channel that was read.
    pub fn with_triple(
        autocfg: autocfg::AutoCfg,
        read: Option<(version_check::Version, version_check::Channel, version_check::Date)>,
    ) -> (made: Result<Self, GatherError>)
        ensures
            match read {
                Some(triple) => {
                    &&& made matches Ok(instance)
                    &&& instance.prober() == autocfg
                    &&& instance.version() == triple.0
                    &&& instance.date() == triple.2
                },
                None => made matches Err(e) && e.0 is VersionCheck,
            },
    {
        match read {
            Some((version, channel, date)) => Ok(
                Self::with_toolchain(autocfg, version, release_channel_of(&channel), date),
            ),
            None => Err(GatherError::from(VersionCheckError)),
        }
    }

    /// A new instance that probes with `autocfg`, for a compiler of the given version, channel
    /// and date.
    pub fn with_toolchain(
        autocfg: autocfg::AutoCfg,
        version: version_check::Version,
        channel: ReleaseChannel,
        date: version_check::Date,
    ) -> (made: Self)
        ensures
            made.prober() == autocfg,
            made.version() == version,
            made.channel() == channel,
            made.date() == date,
    {
        CfgRustFeatures {
            autocfg: autocfg,
            version_check: VersionCheck { version: version, channel: channel, date: date },
        }
    }

    /// The compiler's release channel.
    pub fn release_channel(&self) -> (channel: ReleaseChannel)
        ensures
            channel == self.channel(),
    {
        self.version_check.channel
    }

    /// Tests whether the current `rustc` provides the feature, in the way that the descriptor
    /// names.
    pub fn probe(&self, feature: &Feature) -> (enabled: bool)
        ensures
            feature.probe is AlwaysEnabled ==> enabled,
            feature.probe is UnstableFeatures ==> enabled == self.unstable(),
    {
        match feature.probe {
            Probe::Expr(e) => self.autocfg.probe_expression(e),
            Probe::Type(t) => self.autocfg.probe_type(t),
            Probe::Path(p) => self.autocfg.probe_path(p),
            Probe::AlwaysEnabled => true,
            Probe::UnstableFeatures => self.version_check.channel.supports_features(),
        }
    }

    /// Tests whether the current `rustc` provides the given compiler/language/library feature
    /// as stable (i.e. without needing the `#![feature(...)]` of nightly).
    ///
    /// # Returns
    /// The categories of the feature if the feature is enabled, or else `None`.
    ///
    /// # Errors
    /// If the feature name is unsupported by this crate currently.
    pub fn probe_single(&self, feature_name: &str) -> (found: Result<
        FeatureEnabled,
        UnsupportedFeatureTodoError,
    >)
        ensures
            match found {
                Ok(enabled) => recognized(feature_name@) && outcome_allowed(
                    lookup(feature_name@).unwrap(),
                    self.unstable(),
                    enabled,
                ),
                Err(e) => !recognized(feature_name@) && e@ == feature_name@,
            },
    {
        match get(feature_name) {
            Some(feature) => {
                let enabled = self.probe(&feature);
                Ok(categorize(&feature, enabled))
            },
            None => Err(unsupported_feature_todo_error(feature_name)),
        }
    }

    /// Append to `out`, for an enabled feature, the build instruction that sets its
    /// configuration option, once for each of its categories.
    fn emit_single(&self, feature_name: &str, enabled: &FeatureEnabled, out: &mut Vec<String>)
        ensures
            lines_of(final(out)@) == lines_of(old(out)@) + quoted_feature_lines(
                feature_name@,
                *enabled,
            ),
            is_plain(feature_name@) ==> quoted_feature_lines(feature_name@, *enabled)
                == feature_lines(feature_name@, *enabled),
    {
        match enabled {
            Some(categories) => {
                let list = categories.to_vec();
                let mut k: usize = 0;
                assert(lines_of(out@) =~= lines_of(old(out)@) + quoted_category_lines(
                    feature_name@,
                    list@.take(0),
                ));
                while k < list.len()
                    invariant
                        k <= list@.len(),
                        lines_of(out@) == lines_of(old(out)@) + quoted_category_lines(
                            feature_name@,
                            list@.take(k as int),
                        ),
                        is_plain(feature_name@) && k > 0 ==> debug_quoted(feature_name@)
                            == in_quotes(feature_name@),
                    decreases list@.len() - k,
                {
                    emit_rust_feature(list[k].as_str(), feature_name, out);
                    assert(lines_of(out@) =~= lines_of(old(out)@) + quoted_category_lines(
                        feature_name@,
                        list@.take(k + 1),
                    ));
                    k = k + 1;
                }
                assert(list@.take(k as int) =~= list@);
                assert(is_plain(feature_name@) ==> quoted_category_lines(feature_name@, list@)
                    =~= category_lines(feature_name@, list@));
            },
            None => {
                assert(lines_of(out@) =~= lines_of(old(out)@) + quoted_feature_lines(
                    feature_name@,
                    *enabled,
                ));
            },
        }
    }

    /// Like [`Self::emit_multiple`] but does not compute any instruction.  Use when only the
    /// return value is of interest.
    ///
    /// # Returns
    /// Same as [`Self::emit_multiple`].
    ///
    /// # Errors
    /// Same as [`Self::emit_multiple`].
    pub fn probe_multiple<F: FeatureName>(&self, features_names: Vec<F>) -> (found: Result<
        EnabledFeatures<F>,
        UnsupportedFeatureTodoError,
    >)
        ensures
            probe_multiple_result(self.unstable(), texts(features_names@), result_view(found)),
            found matches Ok(enabled_features) ==> enabled_features.well_formed() && entry_names(
                enabled_features.entries(),
            ) == distinct_in_order(texts(features_names@)),
    {
        let ghost names = texts(features_names@);
        let mut enabled_features = EnabledFeatures::new();
        assert(entry_names(enabled_features.entries()) =~= distinct_in_order(names.take(0)));
        for name in it: features_names.into_iter()
            invariant
                it.seq() == features_names@,
                names == texts(features_names@),
                enabled_features.well_formed(),
                entry_names(enabled_features.entries()) == distinct_in_order(
                    names.take(it.index()),
                ),
                forall|j: int| 0 <= j < it.index() ==> recognized(#[trigger] names[j]),
                probed(self.unstable(), names.take(it.index()), enabled_features@),
        {
            let ghost i = it.index();
            assert(name.text() == names[i]);
            match self.probe_single(name.as_name()) {
                Ok(enabled) => {
                    let ghost before = enabled_features@;
                    let ghost entries = enabled_features.entries();
                    let _ = enabled_features.insert(name, enabled);
                    proof {
                        lemma_probed_next(self.unstable(), names, i, before, enabled);
                        lemma_entry_names_next(names, i, entries, enabled);
                    }
                },
                Err(e) => {
                    assert(first_unrecognized(names, i));
                    return Err(e);
                },
            }
        }
        assert(names.take(names.len() as int) =~= names);
        Ok(enabled_features)
    }

    /// Append to `out` the build instructions that set configuration options which indicate
    /// whether the currently-used version of Rust (compiler, language, and library) has enabled
    /// the given sequence of features.
    ///
    /// Intended to be called from a package's build script, which writes the lines of `out` to
    /// `stdout`.
    ///
    /// Each feature's configuration-option identifier has a naming scheme that categorizes the
    /// feature according to whether it pertains to the compiler (`rust_comp_feature`), the
    /// language (`rust_lang_feature`), or the standard library (`rust_lib_feature`).
    ///
    /// # Returns
    ///
    /// Whether each of the given features was found to be enabled and its categories if so.
    ///
    /// # Errors
    ///
    /// If a feature name is unsupported by the current version of this crate.  Nothing is
    /// appended to `out` then.
    pub fn emit_multiple<F: FeatureName>(
        &self,
        features_names: Vec<F>,
        out: &mut Vec<String>,
    ) -> (found: Result<EnabledFeatures<F>, UnsupportedFeatureTodoError>)
        ensures
            probe_multiple_result(self.unstable(), texts(features_names@), result_view(found)),
            match found {
                Ok(enabled_features) => {
                    &&& enabled_features.well_formed()
                    &&& entry_names(enabled_features.entries()) == distinct_in_order(
                        texts(features_names@),
                    )
                    &&& lines_of(final(out)@) == lines_of(old(out)@) + emitted_lines(
                        enabled_features.entries(),
                    )
                },
                Err(_) => *final(out) == *old(out),
            },
    {
        let enabled_features = match self.probe_multiple(features_names) {
            Ok(enabled_features) => enabled_features,
            Err(e) => {
                return Err(e);
            },
        };
        let mut i: usize = 0;
        assert(lines_of(out@) =~= lines_of(old(out)@) + emitted_lines(
            enabled_features.entries().take(0),
        ));
        while i < enabled_features.len()
            invariant
                i <= enabled_features.entries().len(),
                probed(self.unstable(), texts(features_names@), enabled_features@),
                lines_of(out@) == lines_of(old(out)@) + emitted_lines(
                    enabled_features.entries().take(i as int),
                ),
            decreases enabled_features.entries().len() - i,
        {
            let name = enabled_features.name_at(i);
            let enabled = enabled_features.enabled_at(i);
            proof {
                assert(has_name(enabled_features.entries(), name@));
                assert(enabled_features@.contains_key(name@));
                lemma_recognized_is_plain(name@);
            }
            self.emit_single(name, &enabled, out);
            proof {
                lemma_lines_of_entry(enabled_features.entries(), i as int);
                assert(lines_of(out@) =~= lines_of(old(out)@) + emitted_lines(
                    enabled_features.entries().take(i + 1),
                ));
            }
            i = i + 1;
        }
        assert(enabled_features.entries().take(i as int) =~= enabled_features.entries());
        Ok(enabled_features)
    }

    /// Convenience that calls [`Self::emit_multiple`] on a temporary instance.
    pub fn emit<F: FeatureName>(features_names: Vec<F>, out: &mut Vec<String>) -> (found: Result<
        EnabledFeatures<F>,
        GatherError,
    >)
        ensures
            match found {
                Ok(enabled_features) => {
                    &&& all_recognized(texts(features_names@))
                    &&& (probed(true, texts(features_names@), enabled_features@) || probed(
                        false,
                        texts(features_names@),
                        enabled_features@,
                    ))
                    &&& enabled_features.well_formed()
                    &&& entry_names(enabled_features.entries()) == distinct_in_order(
                        texts(features_names@),
                    )
                    &&& lines_of(final(out)@) == lines_of(old(out)@) + emitted_lines(
                        enabled_features.entries(),
                    )
                },
                Err(e) => {
                    &&& *final(out) == *old(out)
                    &&& e.unsupported() matches Some(name) ==> rejected(
                        texts(features_names@),
                        name,
                    )
                },
            },
    {
        match CfgRustFeatures::new() {
            Ok(gathered) => match gathered.emit_multiple(features_names, out) {
                Ok(enabled_features) => {
                    assert(probed(gathered.unstable(), texts(features_names@), enabled_features@));
                    Ok(enabled_features)
                },
                Err(e) => Err(GatherError::from(e)),
            },
            Err(e) => Err(e),
        }
    }
}

/// In the lines for a list of entries, the lines of each entry stand together, behind the lines
/// of the entries before it.
pub proof fn lemma_lines_of_entry(entries: Seq<(Seq<char>, FeatureEnabled)>, i: int)
    requires
        0 <= i < entries.len(),
    ensures
        emitted_lines(entries.take(i + 1)) == emitted_lines(entries.take(i)) + feature_lines(
            entries[i].0,
            entries[i].1,
        ),
        emitted_lines(entries.take(i + 1)).is_prefix_of(emitted_lines(entries)),
    decreases entries.len() - i,
{
    assert(entries.take(i + 1).drop_last() =~= entries.take(i));
    if i + 1 < entries.len() {
        lemma_lines_of_entry(entries, i + 1);
        assert(emitted_lines(entries.take(i + 1)).is_prefix_of(emitted_lines(entries.take(i + 2))));
    } else {
        assert(entries.take(i + 1) =~= entries);
    }
}

/// Giving the next name of the list a value keeps the entries in the order in which the names
/// first occur.
proof fn lemma_entry_names_next(
    names: Seq<Seq<char>>,
    i: int,
    entries: Seq<(Seq<char>, FeatureEnabled)>,
    enabled: FeatureEnabled,
)
    requires
        0 <= i < names.len(),
        entry_names(entries) == distinct_in_order(names.take(i)),
    ensures
        entry_names(inserted(entries, names[i], enabled)) == distinct_in_order(names.take(i + 1)),
{
    let n = names[i];
    let known = distinct_in_order(names.take(i));
    let after = inserted(entries, n, enabled);
    assert(names.take(i + 1).drop_last() =~= names.take(i));
    assert(names.take(i + 1).last() == n);
    if has_name(entries, n) {
        lemma_index_of(entries, n);
        let at = index_of(entries, n);
        assert(known[at] == n);
        assert(entry_names(after) =~= known);
    } else {
        if known.contains(n) {
            let k = choose|k: int| 0 <= k < known.len() && known[k] == n;
            assert(entries[k].0 == n);
        }
        assert(entry_names(after) =~= known.push(n));
    }
}

/// Probing one more name of the list gives a result for the longer list.
proof fn lemma_probed_next(
    unstable: bool,
    names: Seq<Seq<char>>,
    i: int,
    before: Map<Seq<char>, FeatureEnabled>,
    enabled: FeatureEnabled,
)
    requires
        0 <= i < names.len(),
        probed(unstable, names.take(i), before),
        recognized(names[i]),
        outcome_allowed(lookup(names[i]).unwrap(), unstable, enabled),
    ensures
        probed(unstable, names.take(i + 1), before.insert(names[i], enabled)),
{
    let after = before.insert(names[i], enabled);
    let shorter = names.take(i);
    let longer = names.take(i + 1);
    assert forall|n: Seq<char>| after.contains_key(n) <==> longer.contains(n) by {
        if longer.contains(n) {
            let k = choose|k: int| 0 <= k < longer.len() && longer[k] == n;
            if k < i {
                assert(shorter[k] == n);
                assert(shorter.contains(n));
                assert(before.contains_key(n));
            }
        }
        if before.contains_key(n) {
            assert(shorter.contains(n));
            let k = choose|k: int| 0 <= k < shorter.len() && shorter[k] == n;
            assert(longer[k] == n);
        }
        if n == names[i] {
            assert(longer[i] == n);
        }
    }
}

} // verus!
