//! The `config layers` and `config warnings` diagnostics: which layers use
//! deprecated keys, the summary of warnings, and the lines of the text
//! reports.

use vstd::prelude::*;

use crate::config_warnings::{
    deprecated_key_name, document_uses, document_uses_key, is_enabled, stack_uses,
    unknown_feature_keys, unknown_features_of_stack, ConfigLayer, ConfigLayerStack, DeprecatedKey,
};
use crate::sorted_keys::{string_views, strictly_increasing};
use vstd::string::StringExecFns;

verus! {

/// The pieces of `items` with `sep` between each two.
pub open spec fn join(items: Seq<Seq<char>>, sep: Seq<char>) -> Seq<char>
    decreases items.len(),
{
    if items.len() == 0 {
        Seq::empty()
    } else if items.len() == 1 {
        items[0]
    } else {
        join(items.drop_last(), sep) + sep + items.last()
    }
}

/// `a` followed by `b`, as a new `String`.
pub fn concat(a: &str, b: &str) -> (res: String)
    ensures
        res@ == a@ + b@,
{
    let mut res = String::new();
    res.append(a);
    res.append(b);
    assert(res@ =~= a@ + b@);
    res
}

/// The strings of `items` joined with `sep`.
pub fn join_strings(items: &Vec<String>, sep: &str) -> (res: String)
    ensures
        res@ == join(string_views(items@), sep@),
{
    let mut res = String::new();
    let ghost views = string_views(items@);
    assert(views.take(0) =~= Seq::<Seq<char>>::empty());
    for i in 0..items.len()
        invariant
            views == string_views(items@),
            res@ == join(views.take(i as int), sep@),
    {
        if i != 0 {
            res.append(sep);
        }
        res.append(items[i].as_str());
        assert(views.take(i + 1).drop_last() =~= views.take(i as int));
        assert(res@ =~= join(views.take(i + 1), sep@));
    }
    assert(views.take(items.len() as int) =~= views);
    res
}

/// The sources named in a warning, separated by commas.
pub fn format_sources(sources: &Vec<String>) -> (res: String)
    ensures
        res@ == join(string_views(sources@), ", "@),
{
    join_strings(sources, ", ")
}

/// The sources of the enabled layers among `layers` that use the deprecated
/// key, in the order of the layers.
pub open spec fn sources_using(layers: Seq<ConfigLayer>, key: DeprecatedKey) -> Seq<Seq<char>>
    decreases layers.len(),
{
    if layers.len() == 0 {
        Seq::empty()
    } else {
        let rest = sources_using(layers.drop_last(), key);
        if is_enabled(layers.last()) && document_uses(layers.last().config, key) {
            rest.push(layers.last().source@)
        } else {
            rest
        }
    }
}

/// The layer is enabled and its document uses the deprecated key.
pub open spec fn layer_uses(layer: ConfigLayer, key: DeprecatedKey) -> bool {
    is_enabled(layer) && document_uses(layer.config, key)
}

/// How many layers are enabled and use the deprecated key.
pub open spec fn count_using(layers: Seq<ConfigLayer>, key: DeprecatedKey) -> nat
    decreases layers.len(),
{
    if layers.len() == 0 {
        0
    } else {
        count_using(layers.drop_last(), key) + if layer_uses(layers.last(), key) {
            1nat
        } else {
            0nat
        }
    }
}

proof fn lemma_count_using_step(layers: Seq<ConfigLayer>, key: DeprecatedKey, i: int)
    requires
        0 <= i < layers.len(),
    ensures
        count_using(layers.take(i + 1), key) == count_using(layers.take(i), key) + if layer_uses(
            layers[i],
            key,
        ) {
            1nat
        } else {
            0nat
        },
{
    assert(layers.take(i + 1).drop_last() =~= layers.take(i));
}

proof fn lemma_count_using_monotone(layers: Seq<ConfigLayer>, key: DeprecatedKey, i: int, j: int)
    requires
        0 <= i <= j <= layers.len(),
    ensures
        count_using(layers.take(i), key) <= count_using(layers.take(j), key),
    decreases j - i,
{
    if i < j {
        lemma_count_using_monotone(layers, key, i, j - 1);
        lemma_count_using_step(layers, key, j - 1);
    }
}

/// Every enabled layer that uses a deprecated key is named among its
/// sources, in the order of the layers, and nothing else is: there are as
/// many sources as such layers, and the source of each comes after exactly
/// the sources of the using layers before it.
pub proof fn law_every_using_layer_is_named(layers: Seq<ConfigLayer>, key: DeprecatedKey)
    ensures
        sources_using(layers, key).len() == count_using(layers, key),
        forall|i: int|
            0 <= i < layers.len() && layer_uses(#[trigger] layers[i], key) ==> sources_using(
                layers,
                key,
            )[count_using(layers.take(i), key) as int] == layers[i].source@,
        forall|i: int|
            0 <= i < layers.len() && is_enabled(#[trigger] layers[i]) && document_uses(
                layers[i].config,
                key,
            ) ==> sources_using(layers, key).contains(layers[i].source@),
    decreases layers.len(),
{
    if layers.len() > 0 {
        let n = layers.len() - 1;
        let front = layers.drop_last();
        law_every_using_layer_is_named(front, key);
        assert(layers.take(n as int) =~= front);
        assert(layers.take(n as int + 1) =~= layers);
        assert forall|i: int| 0 <= i < layers.len() && layer_uses(#[trigger] layers[i], key) implies sources_using(
            layers,
            key,
        )[count_using(layers.take(i), key) as int] == layers[i].source@ by {
            if i < n {
                assert(front.take(i) =~= layers.take(i));
                assert(front[i] == layers[i]);
                lemma_count_using_step(front, key, i);
                lemma_count_using_monotone(front, key, i + 1, n);
                assert(front.take(n as int) =~= front);
            }
        }
        assert forall|i: int|
            0 <= i < layers.len() && is_enabled(#[trigger] layers[i]) && document_uses(
                layers[i].config,
                key,
            ) implies sources_using(layers, key).contains(layers[i].source@) by {
            assert(layer_uses(layers[i], key));
            lemma_count_using_step(layers, key, i);
            lemma_count_using_monotone(layers, key, i + 1, layers.len() as int);
            let k = count_using(layers.take(i), key) as int;
            assert(sources_using(layers, key)[k] == layers[i].source@);
        }
    }
}

/// The sources of the enabled layers that use the deprecated key, highest
/// precedence first.
pub fn deprecated_key_sources(config_layer_stack: &ConfigLayerStack, key: DeprecatedKey) -> (res:
    Vec<String>)
    ensures
        string_views(res@) == sources_using(config_layer_stack.layers@, key),
{
    let layers = &config_layer_stack.layers;
    let mut res: Vec<String> = Vec::new();
    assert(layers@.take(0) =~= Seq::<ConfigLayer>::empty());
    for i in 0..layers.len()
        invariant
            layers@ == config_layer_stack.layers@,
            string_views(res@) == sources_using(layers@.take(i as int), key),
    {
        assert(layers@.take(i + 1).drop_last() =~= layers@.take(i as int));
        if layers[i].disabled_reason.is_none() && document_uses_key(&layers[i].config, key) {
            res.push(layers[i].source.clone());
        }
        assert(string_views(res@) =~= sources_using(layers@.take(i + 1), key));
    }
    assert(layers@.take(layers.len() as int) =~= layers@);
    res
}

/// The sources of the enabled layers that set `experimental_instructions_file`.
pub fn deprecated_instructions_file_sources(config_layer_stack: &ConfigLayerStack) -> (res: Vec<
    String,
>)
    ensures
        string_views(res@) == sources_using(
            config_layer_stack.layers@,
            DeprecatedKey::InstructionsFile,
        ),
{
    deprecated_key_sources(config_layer_stack, DeprecatedKey::InstructionsFile)
}

/// The sources of the enabled layers that set `[tools].web_search`.
pub fn deprecated_tools_web_search_sources(config_layer_stack: &ConfigLayerStack) -> (res: Vec<
    String,
>)
    ensures
        string_views(res@) == sources_using(
            config_layer_stack.layers@,
            DeprecatedKey::ToolsWebSearch,
        ),
{
    deprecated_key_sources(config_layer_stack, DeprecatedKey::ToolsWebSearch)
}

/// The sources of the enabled layers that set `[features].web_search`.
pub fn deprecated_features_web_search_sources(config_layer_stack: &ConfigLayerStack) -> (res: Vec<
    String,
>)
    ensures
        string_views(res@) == sources_using(
            config_layer_stack.layers@,
            DeprecatedKey::FeaturesWebSearch,
        ),
{
    deprecated_key_sources(config_layer_stack, DeprecatedKey::FeaturesWebSearch)
}

proof fn lemma_sources_using_nonempty(layers: Seq<ConfigLayer>, key: DeprecatedKey)
    ensures
        sources_using(layers, key).len() > 0 <==> exists|i: int|
            0 <= i < layers.len() && is_enabled(#[trigger] layers[i]) && document_uses(
                layers[i].config,
                key,
            ),
    decreases layers.len(),
{
    if layers.len() > 0 {
        let init = layers.drop_last();
        lemma_sources_using_nonempty(init, key);
        if exists|i: int|
            0 <= i < init.len() && is_enabled(#[trigger] init[i]) && document_uses(
                init[i].config,
                key,
            ) {
            let i = choose|i: int|
                0 <= i < init.len() && is_enabled(#[trigger] init[i]) && document_uses(
                    init[i].config,
                    key,
                );
            assert(layers[i] == init[i]);
        }
        if exists|i: int|
            0 <= i < layers.len() && is_enabled(#[trigger] layers[i]) && document_uses(
                layers[i].config,
                key,
            ) {
            let i = choose|i: int|
                0 <= i < layers.len() && is_enabled(#[trigger] layers[i]) && document_uses(
                    layers[i].config,
                    key,
                );
            if i < layers.len() - 1 {
                assert(init[i] == layers[i]);
            }
        }
    }
}

/// A deprecated key is reported with at least one source exactly when some
/// enabled layer uses it.
pub proof fn law_sources_present_iff_used(stack: ConfigLayerStack, key: DeprecatedKey)
    ensures
        sources_using(stack.layers@, key).len() > 0 <==> stack_uses(stack, key),
{
    lemma_sources_using_nonempty(stack.layers@, key);
}

/// The first line of the warnings report.
pub const WARNINGS_HEADER: &'static str = "Config warnings:";

/// The first line of the layers report.
pub const LAYERS_HEADER: &'static str = "Config layers (high → low precedence):";

/// The last line of a warnings report that found nothing.
pub const NO_WARNINGS: &'static str = "No configuration warnings found.";

/// The line of a layers report that found no layer.
pub const NO_LAYERS: &'static str = "No configuration layers found.";

/// The advice on `experimental_instructions_file`.
pub const INSTRUCTIONS_FILE_ADVICE: &'static str = "  Move the setting to model_instructions_file in config.toml (or under a profile) to load instructions from a file.";

/// The advice on `[tools].web_search`.
pub const TOOLS_WEB_SEARCH_ADVICE: &'static str = "  Use web_search = \"live\" | \"cached\" | \"disabled\" instead.";

/// The second advice on `[tools].web_search`.
pub const TOOLS_WEB_SEARCH_TOGGLE_ADVICE: &'static str = "  If you only need the raw tool toggle, set [features].web_search_request = true.";

/// The advice on `[features].web_search`.
pub const FEATURES_WEB_SEARCH_ADVICE: &'static str = "  Use [features].web_search_request instead.";

/// The second advice on `[features].web_search`.
pub const FEATURES_WEB_SEARCH_TOOL_ADVICE: &'static str = "  To enable the built-in web search tool, set web_search = \"live\" | \"cached\" | \"disabled\".";

/// The advice that follows the list of unknown feature keys.
pub const UNKNOWN_FEATURES_ADVICE: &'static str = "  See docs/config.md for supported feature flags.";

/// The line that names the active profile.
pub open spec fn profile_line(profile: Option<Seq<char>>) -> Seq<char> {
    match profile {
        Some(p) => "Profile: "@ + p,
        None => "Profile: (default)"@,
    }
}

/// The lines that name the profile and the working directory.
pub open spec fn context_lines(profile: Option<Seq<char>>, cwd: Seq<char>) -> Seq<Seq<char>> {
    seq![profile_line(profile), "CWD: "@ + cwd]
}

/// The advice printed for a deprecated key.
pub open spec fn deprecation_advice(key: DeprecatedKey) -> Seq<Seq<char>> {
    match key {
        DeprecatedKey::InstructionsFile => seq![INSTRUCTIONS_FILE_ADVICE@],
        DeprecatedKey::ToolsWebSearch => seq![
            TOOLS_WEB_SEARCH_ADVICE@,
            TOOLS_WEB_SEARCH_TOGGLE_ADVICE@,
        ],
        DeprecatedKey::FeaturesWebSearch => seq![
            FEATURES_WEB_SEARCH_ADVICE@,
            FEATURES_WEB_SEARCH_TOOL_ADVICE@,
        ],
    }
}

/// The lines on a deprecated key: none when no layer uses it.
pub open spec fn deprecation_lines(key: DeprecatedKey, sources: Seq<Seq<char>>) -> Seq<Seq<char>> {
    if sources.len() == 0 {
        Seq::empty()
    } else {
        seq!["Deprecated: "@ + deprecated_key_name(key), "  Detected in: "@ + join(sources, ", "@)]
            + deprecation_advice(key)
    }
}

/// The lines on unknown feature keys: none when there are none.
pub open spec fn unknown_feature_lines(unknown: Seq<Seq<char>>) -> Seq<Seq<char>> {
    if unknown.len() == 0 {
        Seq::empty()
    } else {
        seq!["Unknown [features] keys ignored: "@ + join(unknown, ", "@), UNKNOWN_FEATURES_ADVICE@]
    }
}

/// The warnings found in a configuration.
pub struct WarningsSummary {
    /// The sources of the layers that set `experimental_instructions_file`.
    pub instructions_file_sources: Vec<String>,
    /// The sources of the layers that set `[tools].web_search`.
    pub tools_web_search_sources: Vec<String>,
    /// The sources of the layers that set `[features].web_search`.
    pub features_web_search_sources: Vec<String>,
    /// The unknown `[features]` keys, sorted.
    pub unknown_features: Vec<String>,
}

impl WarningsSummary {
    /// The sources recorded for a deprecated key.
    pub open spec fn sources(&self, key: DeprecatedKey) -> Seq<Seq<char>> {
        match key {
            DeprecatedKey::InstructionsFile => string_views(self.instructions_file_sources@),
            DeprecatedKey::ToolsWebSearch => string_views(self.tools_web_search_sources@),
            DeprecatedKey::FeaturesWebSearch => string_views(self.features_web_search_sources@),
        }
    }

    /// The number of deprecated keys that some layer uses.
    pub open spec fn spec_deprecated_count(&self) -> nat {
        (if self.instructions_file_sources@.len() > 0 { 1nat } else { 0nat }) + (if self.tools_web_search_sources@.len() > 0 { 1nat } else { 0nat }) + (if self.features_web_search_sources@.len() > 0 { 1nat } else { 0nat })
    }

    /// The number of warnings in the report: one per deprecated key in use,
    /// and one for all unknown feature keys.
    pub open spec fn spec_warnings_count(&self) -> nat {
        self.spec_deprecated_count() + if self.unknown_features@.len() > 0 { 1nat } else { 0nat }
    }

    /// The lines of the warnings report.
    pub open spec fn report(&self, profile: Option<Seq<char>>, cwd: Seq<char>) -> Seq<Seq<char>> {
        let found = deprecation_lines(DeprecatedKey::InstructionsFile, self.sources(DeprecatedKey::InstructionsFile))
            + deprecation_lines(DeprecatedKey::ToolsWebSearch, self.sources(DeprecatedKey::ToolsWebSearch))
            + deprecation_lines(DeprecatedKey::FeaturesWebSearch, self.sources(DeprecatedKey::FeaturesWebSearch))
            + unknown_feature_lines(string_views(self.unknown_features@));
        seq![WARNINGS_HEADER@] + context_lines(profile, cwd) + found + if self.spec_warnings_count() == 0 {
            seq![NO_WARNINGS@]
        } else {
            Seq::empty()
        }
    }

    /// The summary holds the warnings of the enabled layers of `stack`.
    pub open spec fn matches_stack(&self, stack: ConfigLayerStack, known_features: Seq<String>) -> bool {
        &&& self.sources(DeprecatedKey::InstructionsFile) == sources_using(
            stack.layers@,
            DeprecatedKey::InstructionsFile,
        )
        &&& self.sources(DeprecatedKey::ToolsWebSearch) == sources_using(
            stack.layers@,
            DeprecatedKey::ToolsWebSearch,
        )
        &&& self.sources(DeprecatedKey::FeaturesWebSearch) == sources_using(
            stack.layers@,
            DeprecatedKey::FeaturesWebSearch,
        )
        &&& strictly_increasing(string_views(self.unknown_features@))
        &&& string_views(self.unknown_features@).to_set() == unknown_features_of_stack(
            stack,
            known_features,
        )
    }

    /// Collects the warnings of the enabled layers of `config_layer_stack`;
    /// `known_features` are the feature keys that the program supports.
    pub fn new(config_layer_stack: &ConfigLayerStack, known_features: &Vec<String>) -> (res: Self)
        ensures
            res.matches_stack(*config_layer_stack, known_features@),
    {
        WarningsSummary {
            instructions_file_sources: deprecated_instructions_file_sources(config_layer_stack),
            tools_web_search_sources: deprecated_tools_web_search_sources(config_layer_stack),
            features_web_search_sources: deprecated_features_web_search_sources(config_layer_stack),
            unknown_features: unknown_feature_keys(config_layer_stack, known_features),
        }
    }

    /// The number of deprecated keys that some layer uses.
    pub fn deprecated_count(&self) -> (res: usize)
        ensures
            res == self.spec_deprecated_count(),
    {
        let mut count: usize = 0;
        if self.instructions_file_sources.len() > 0 {
            count = count + 1;
        }
        if self.tools_web_search_sources.len() > 0 {
            count = count + 1;
        }
        if self.features_web_search_sources.len() > 0 {
            count = count + 1;
        }
        count
    }

    /// The number of warnings in the report.
    pub fn warnings_count(&self) -> (res: usize)
        ensures
            res == self.spec_warnings_count(),
    {
        let count = self.deprecated_count();
        if self.unknown_features.len() > 0 {
            count + 1
        } else {
            count
        }
    }

    /// Whether the configuration has anything to warn about.
    pub fn has_warnings(&self) -> (res: bool)
        ensures
            res == (self.spec_warnings_count() > 0),
    {
        self.warnings_count() > 0
    }

    /// The lines of the warnings report for the given profile and working
    /// directory.
    pub fn report_lines(&self, profile: Option<&str>, cwd: &str) -> (res: Vec<String>)
        ensures
            string_views(res@) == self.report(
                match profile {
                    Some(p) => Some(p@),
                    None => None,
                },
                cwd@,
            ),
    {
        let ghost profile_view = match profile {
            Some(p) => Some(p@),
            None => None,
        };
        let mut lines: Vec<String> = Vec::new();
        lines.push(WARNINGS_HEADER.to_owned());
        assert(string_views(lines@) =~= seq![WARNINGS_HEADER@]);
        push_context_lines(&mut lines, profile, cwd);
        let ghost head = string_views(lines@);
        push_deprecation_lines(&mut lines, DeprecatedKey::InstructionsFile, &self.instructions_file_sources);
        push_deprecation_lines(&mut lines, DeprecatedKey::ToolsWebSearch, &self.tools_web_search_sources);
        push_deprecation_lines(&mut lines, DeprecatedKey::FeaturesWebSearch, &self.features_web_search_sources);
        let ghost before_unknown = string_views(lines@);
        if self.unknown_features.len() > 0 {
            lines.push(concat("Unknown [features] keys ignored: ", join_strings(&self.unknown_features, ", ").as_str()));
            lines.push(UNKNOWN_FEATURES_ADVICE.to_owned());
        }
        assert(string_views(lines@) =~= before_unknown + unknown_feature_lines(string_views(self.unknown_features@)));
        let ghost before_end = string_views(lines@);
        if !self.has_warnings() {
            lines.push(NO_WARNINGS.to_owned());
            assert(string_views(lines@) =~= before_end + seq![NO_WARNINGS@]);
        } else {
            assert(string_views(lines@) =~= before_end + Seq::<Seq<char>>::empty());
        }
        assert(string_views(lines@) =~= self.report(profile_view, cwd@));
        lines
    }
}

/// Appends the lines that name the profile and the working directory.
fn push_context_lines(lines: &mut Vec<String>, profile: Option<&str>, cwd: &str)
    ensures
        string_views(final(lines)@) == string_views(old(lines)@) + context_lines(
            match profile {
                Some(p) => Some(p@),
                None => None,
            },
            cwd@,
        ),
{
    match profile {
        Some(p) => lines.push(concat("Profile: ", p)),
        None => lines.push("Profile: (default)".to_owned()),
    }
    lines.push(concat("CWD: ", cwd));
    assert(string_views(lines@) =~= string_views(old(lines)@) + context_lines(
        match profile {
            Some(p) => Some(p@),
            None => None,
        },
        cwd@,
    ));
}

/// The name under which a deprecated key is reported.
pub fn deprecated_key_label(key: DeprecatedKey) -> (res: &'static str)
    ensures
        res@ == deprecated_key_name(key),
{
    match key {
        DeprecatedKey::InstructionsFile => "experimental_instructions_file",
        DeprecatedKey::ToolsWebSearch => "tools.web_search",
        DeprecatedKey::FeaturesWebSearch => "features.web_search",
    }
}

/// Appends the lines on a deprecated key, if any layer uses it.
fn push_deprecation_lines(lines: &mut Vec<String>, key: DeprecatedKey, sources: &Vec<String>)
    ensures
        string_views(final(lines)@) == string_views(old(lines)@) + deprecation_lines(
            key,
            string_views(sources@),
        ),
{
    if sources.len() == 0 {
        assert(string_views(lines@) =~= string_views(old(lines)@) + deprecation_lines(
            key,
            string_views(sources@),
        ));
        return;
    }
    lines.push(concat("Deprecated: ", deprecated_key_label(key)));
    lines.push(concat("  Detected in: ", format_sources(sources).as_str()));
    match key {
        DeprecatedKey::InstructionsFile => {
            lines.push(INSTRUCTIONS_FILE_ADVICE.to_owned());
        },
        DeprecatedKey::ToolsWebSearch => {
            lines.push(TOOLS_WEB_SEARCH_ADVICE.to_owned());
            lines.push(TOOLS_WEB_SEARCH_TOGGLE_ADVICE.to_owned());
        },
        DeprecatedKey::FeaturesWebSearch => {
            lines.push(FEATURES_WEB_SEARCH_ADVICE.to_owned());
            lines.push(FEATURES_WEB_SEARCH_TOOL_ADVICE.to_owned());
        },
    }
    assert(string_views(lines@) =~= string_views(old(lines)@) + deprecation_lines(
        key,
        string_views(sources@),
    ));
}

/// The view of an optional string.
pub open spec fn opt_view(s: Option<String>) -> Option<Seq<char>> {
    match s {
        Some(t) => Some(t@),
        None => None,
    }
}

/// A copy of an optional string.
fn clone_opt(s: &Option<String>) -> (res: Option<String>)
    ensures
        opt_view(res) == opt_view(*s),
{
    match s {
        Some(t) => Some(t.clone()),
        None => None,
    }
}

/// The deprecated keys reported for a layer with the given source: those
/// whose list of sources names it.
pub open spec fn keys_of_source(layers: Seq<ConfigLayer>, source: Seq<char>) -> Seq<DeprecatedKey> {
    (if sources_using(layers, DeprecatedKey::InstructionsFile).contains(source) {
        seq![DeprecatedKey::InstructionsFile]
    } else {
        Seq::empty()
    }) + (if sources_using(layers, DeprecatedKey::ToolsWebSearch).contains(source) {
        seq![DeprecatedKey::ToolsWebSearch]
    } else {
        Seq::empty()
    }) + (if sources_using(layers, DeprecatedKey::FeaturesWebSearch).contains(source) {
        seq![DeprecatedKey::FeaturesWebSearch]
    } else {
        Seq::empty()
    })
}

/// The details shown for a layer: its version, why it is disabled, and the
/// deprecated keys it uses.
pub open spec fn layer_details(
    version: Seq<char>,
    disabled_reason: Option<Seq<char>>,
    keys: Seq<DeprecatedKey>,
) -> Seq<Seq<char>> {
    seq!["version="@ + version] + (match disabled_reason {
        Some(r) => seq!["disabled="@ + r],
        None => Seq::empty(),
    }) + (if keys.len() > 0 {
        seq!["deprecated="@ + join(keys.map_values(|k: DeprecatedKey| deprecated_key_name(k)), ", "@)]
    } else {
        Seq::empty()
    })
}

/// The line of the layers report for one layer.
pub open spec fn layer_line(
    source: Seq<char>,
    version: Seq<char>,
    disabled_reason: Option<Seq<char>>,
    keys: Seq<DeprecatedKey>,
) -> Seq<char> {
    "- "@ + source + " ("@ + join(layer_details(version, disabled_reason, keys), "; "@) + ")"@
}

/// What the layers report says about one layer.
pub struct LayerReport {
    /// The description of the layer's source.
    pub source: String,
    /// The kind of the layer's source.
    pub source_kind: String,
    /// The file or folder the layer was read from, if it has one.
    pub source_path: Option<String>,
    /// The managed-preferences domain the layer was read from, if any.
    pub source_domain: Option<String>,
    /// The managed-preferences key the layer was read from, if any.
    pub source_key: Option<String>,
    /// The version of the layer's contents.
    pub version: String,
    /// Why the layer is disabled; `None` for an enabled layer.
    pub disabled_reason: Option<String>,
    /// The rank of the layer, 0 for the highest precedence.
    pub precedence: usize,
    /// The deprecated keys that the layer uses.
    pub deprecated_keys: Vec<DeprecatedKey>,
}

impl LayerReport {
    /// The report describes layer `i` of `layers`.
    pub open spec fn describes(&self, layers: Seq<ConfigLayer>, i: int) -> bool {
        &&& self.source@ == layers[i].source@
        &&& self.source_kind@ == layers[i].source_kind@
        &&& opt_view(self.source_path) == opt_view(layers[i].source_path)
        &&& opt_view(self.source_domain) == opt_view(layers[i].source_domain)
        &&& opt_view(self.source_key) == opt_view(layers[i].source_key)
        &&& self.version@ == layers[i].version@
        &&& opt_view(self.disabled_reason) == opt_view(layers[i].disabled_reason)
        &&& self.precedence == i
        &&& self.deprecated_keys@ == keys_of_source(layers, layers[i].source@)
    }

    /// Whether the layer takes part in the configuration.
    pub fn enabled(&self) -> (res: bool)
        ensures
            res == (self.disabled_reason is None),
    {
        self.disabled_reason.is_none()
    }

    /// The line of the layers report for this layer.
    pub fn line(&self) -> (res: String)
        ensures
            res@ == layer_line(
                self.source@,
                self.version@,
                opt_view(self.disabled_reason),
                self.deprecated_keys@,
            ),
    {
        let mut details: Vec<String> = Vec::new();
        details.push(concat("version=", self.version.as_str()));
        if let Some(reason) = &self.disabled_reason {
            details.push(concat("disabled=", reason.as_str()));
        }
        if self.deprecated_keys.len() > 0 {
            let mut names: Vec<String> = Vec::new();
            for k in 0..self.deprecated_keys.len()
                invariant
                    string_views(names@) == self.deprecated_keys@.take(k as int).map_values(
                        |d: DeprecatedKey| deprecated_key_name(d),
                    ),
            {
                let name = deprecated_key_label(self.deprecated_keys[k]).to_owned();
                assert(name@ == deprecated_key_name(self.deprecated_keys@[k as int]));
                let ghost prev = string_views(names@);
                names.push(name);
                assert(string_views(names@) =~= prev.push(name@));
                assert(string_views(names@) =~= self.deprecated_keys@.take(k + 1).map_values(
                    |d: DeprecatedKey| deprecated_key_name(d),
                ));
            }
            assert(self.deprecated_keys@.take(self.deprecated_keys@.len() as int)
                =~= self.deprecated_keys@);
            details.push(concat("deprecated=", join_strings(&names, ", ").as_str()));
        }
        assert(string_views(details@) =~= layer_details(
            self.version@,
            opt_view(self.disabled_reason),
            self.deprecated_keys@,
        ));
        let mut line = concat("- ", self.source.as_str());
        line.append(" (");
        line.append(join_strings(&details, "; ").as_str());
        line.append(")");
        line
    }
}

/// Whether `list` holds the string `s`.
fn list_contains(list: &Vec<String>, s: &String) -> (res: bool)
    ensures
        res == string_views(list@).contains(s@),
{
    for i in 0..list.len()
        invariant
            forall|j: int| 0 <= j < i ==> (#[trigger] list@[j])@ != s@,
    {
        if list[i] == *s {
            assert(string_views(list@)[i as int] == s@);
            return true;
        }
    }
    false
}

/// What the layers report says about each layer, highest precedence first.
pub fn layer_reports(config_layer_stack: &ConfigLayerStack) -> (res: Vec<LayerReport>)
    ensures
        res@.len() == config_layer_stack.layers@.len(),
        forall|i: int|
            0 <= i < res@.len() ==> (#[trigger] res@[i]).describes(config_layer_stack.layers@, i),
{
    let layers = &config_layer_stack.layers;
    let instructions = deprecated_instructions_file_sources(config_layer_stack);
    let tools = deprecated_tools_web_search_sources(config_layer_stack);
    let features = deprecated_features_web_search_sources(config_layer_stack);
    let mut res: Vec<LayerReport> = Vec::new();
    for i in 0..layers.len()
        invariant
            layers@ == config_layer_stack.layers@,
            string_views(instructions@) == sources_using(layers@, DeprecatedKey::InstructionsFile),
            string_views(tools@) == sources_using(layers@, DeprecatedKey::ToolsWebSearch),
            string_views(features@) == sources_using(layers@, DeprecatedKey::FeaturesWebSearch),
            res@.len() == i,
            forall|j: int| 0 <= j < i ==> (#[trigger] res@[j]).describes(layers@, j),
    {
        let layer = &layers[i];
        let mut keys: Vec<DeprecatedKey> = Vec::new();
        if list_contains(&instructions, &layer.source) {
            keys.push(DeprecatedKey::InstructionsFile);
        }
        if list_contains(&tools, &layer.source) {
            keys.push(DeprecatedKey::ToolsWebSearch);
        }
        if list_contains(&features, &layer.source) {
            keys.push(DeprecatedKey::FeaturesWebSearch);
        }
        assert(keys@ =~= keys_of_source(layers@, layer.source@));
        res.push(
            LayerReport {
                source: layer.source.clone(),
                source_kind: layer.source_kind.clone(),
                source_path: clone_opt(&layer.source_path),
                source_domain: clone_opt(&layer.source_domain),
                source_key: clone_opt(&layer.source_key),
                version: layer.version.clone(),
                disabled_reason: clone_opt(&layer.disabled_reason),
                precedence: i,
                deprecated_keys: keys,
            },
        );
    }
    res
}

/// The lines of the layers report.
pub open spec fn layers_report(
    layers: Seq<ConfigLayer>,
    profile: Option<Seq<char>>,
    cwd: Seq<char>,
) -> Seq<Seq<char>> {
    seq![LAYERS_HEADER@] + context_lines(profile, cwd) + if layers.len() == 0 {
        seq![NO_LAYERS@]
    } else {
        Seq::new(
            layers.len(),
            |i: int|
                layer_line(
                    layers[i].source@,
                    layers[i].version@,
                    opt_view(layers[i].disabled_reason),
                    keys_of_source(layers, layers[i].source@),
                ),
        )
    }
}

/// The lines of the layers report for the given profile and working
/// directory: every layer, disabled ones included, highest precedence first.
pub fn layers_report_lines(config_layer_stack: &ConfigLayerStack, profile: Option<&str>, cwd: &str) -> (res:
    Vec<String>)
    ensures
        string_views(res@) == layers_report(
            config_layer_stack.layers@,
            match profile {
                Some(p) => Some(p@),
                None => None,
            },
            cwd@,
        ),
{
    let ghost profile_view = match profile {
        Some(p) => Some(p@),
        None => None,
    };
    let ghost layers = config_layer_stack.layers@;
    let mut lines: Vec<String> = Vec::new();
    lines.push(LAYERS_HEADER.to_owned());
    assert(string_views(lines@) =~= seq![LAYERS_HEADER@]);
    push_context_lines(&mut lines, profile, cwd);
    let ghost head = string_views(lines@);
    let reports = layer_reports(config_layer_stack);
    if reports.len() == 0 {
        lines.push(NO_LAYERS.to_owned());
        assert(string_views(lines@) =~= layers_report(layers, profile_view, cwd@));
        return lines;
    }
    for i in 0..reports.len()
        invariant
            reports@.len() == layers.len(),
            forall|j: int| 0 <= j < reports@.len() ==> (#[trigger] reports@[j]).describes(layers, j),
            string_views(lines@) == head + Seq::new(
                i as nat,
                |j: int|
                    layer_line(
                        layers[j].source@,
                        layers[j].version@,
                        opt_view(layers[j].disabled_reason),
                        keys_of_source(layers, layers[j].source@),
                    ),
            ),
    {
        let line = reports[i].line();
        let ghost prev = string_views(lines@);
        proof {
            assert(reports@[i as int].describes(layers, i as int));
            assert(line@ == layer_line(
                layers[i as int].source@,
                layers[i as int].version@,
                opt_view(layers[i as int].disabled_reason),
                keys_of_source(layers, layers[i as int].source@),
            ));
        }
        lines.push(line);
        assert(string_views(lines@) =~= prev.push(line@));
        assert(string_views(lines@) =~= head + Seq::new(
            (i + 1) as nat,
            |j: int|
                layer_line(
                    layers[j].source@,
                    layers[j].version@,
                    opt_view(layers[j].disabled_reason),
                    keys_of_source(layers, layers[j].source@),
                ),
        ));
    }
    assert(string_views(lines@) =~= layers_report(layers, profile_view, cwd@));
    lines
}

proof fn lemma_concat_contains(a: Seq<Seq<char>>, b: Seq<Seq<char>>, x: Seq<char>)
    ensures
        (a + b).contains(x) <==> a.contains(x) || b.contains(x),
{
    if (a + b).contains(x) {
        let i = choose|i: int| 0 <= i < (a + b).len() && (a + b)[i] == x;
        if i < a.len() {
            assert(a[i] == x);
        } else {
            assert(b[i - a.len()] == x);
        }
    }
    if a.contains(x) {
        let i = choose|i: int| 0 <= i < a.len() && a[i] == x;
        assert((a + b)[i] == x);
    }
    if b.contains(x) {
        let i = choose|i: int| 0 <= i < b.len() && b[i] == x;
        assert((a + b)[i + a.len()] == x);
    }
}

proof fn lemma_first_char_differs(a: Seq<char>, b: Seq<char>, rest: Seq<char>)
    requires
        a.len() > 0,
        b.len() > 0,
        a[0] != b[0],
    ensures
        a + rest != b,
{
    assert((a + rest)[0] == a[0]);
}

/// The report ends by saying that no warnings were found exactly when there
/// is nothing to warn about, and says so on no other line.
pub proof fn law_no_warnings_line_iff_clean(
    summary: WarningsSummary,
    profile: Option<Seq<char>>,
    cwd: Seq<char>,
)
    ensures
        summary.report(profile, cwd).contains(NO_WARNINGS@) <==> summary.spec_warnings_count()
            == 0,
{
    reveal_strlit("No configuration warnings found.");
    reveal_strlit("Config warnings:");
    reveal_strlit("Profile: ");
    reveal_strlit("Profile: (default)");
    reveal_strlit("CWD: ");
    reveal_strlit("Deprecated: ");
    reveal_strlit("  Detected in: ");
    reveal_strlit("Unknown [features] keys ignored: ");
    reveal_strlit("  Move the setting to model_instructions_file in config.toml (or under a profile) to load instructions from a file.");
    reveal_strlit("  Use web_search = \"live\" | \"cached\" | \"disabled\" instead.");
    reveal_strlit("  If you only need the raw tool toggle, set [features].web_search_request = true.");
    reveal_strlit("  Use [features].web_search_request instead.");
    reveal_strlit("  To enable the built-in web search tool, set web_search = \"live\" | \"cached\" | \"disabled\".");
    reveal_strlit("  See docs/config.md for supported feature flags.");
    let no = NO_WARNINGS@;
    lemma_first_char_differs("Profile: "@, no, Seq::empty());
    lemma_first_char_differs("CWD: "@, no, cwd);
    if let Some(p) = profile {
        lemma_first_char_differs("Profile: "@, no, p);
    }
    assert("Profile: (default)"@ != no);
    assert forall|k: DeprecatedKey| !(#[trigger] deprecation_lines(k, summary.sources(k))).contains(
        no,
    ) by {
        let srcs = summary.sources(k);
        if srcs.len() > 0 {
            lemma_first_char_differs("Deprecated: "@, no, deprecated_key_name(k));
            lemma_first_char_differs("  Detected in: "@, no, join(srcs, ", "@));
            let lines = deprecation_lines(k, srcs);
            assert forall|i: int| 0 <= i < lines.len() implies lines[i] != no by {
                if i >= 2 {
                    assert(lines[i][0] == ' ');
                }
            }
        }
    }
    let unknown = string_views(summary.unknown_features@);
    if unknown.len() > 0 {
        lemma_first_char_differs(
            "Unknown [features] keys ignored: "@,
            no,
            join(unknown, ", "@),
        );
    }
    assert(!unknown_feature_lines(unknown).contains(no));
    assert(!seq![WARNINGS_HEADER@].contains(no));
    assert(!context_lines(profile, cwd).contains(no));
    let d1 = deprecation_lines(DeprecatedKey::InstructionsFile, summary.sources(DeprecatedKey::InstructionsFile));
    let d2 = deprecation_lines(DeprecatedKey::ToolsWebSearch, summary.sources(DeprecatedKey::ToolsWebSearch));
    let d3 = deprecation_lines(DeprecatedKey::FeaturesWebSearch, summary.sources(DeprecatedKey::FeaturesWebSearch));
    let u = unknown_feature_lines(unknown);
    lemma_concat_contains(d1, d2, no);
    lemma_concat_contains(d1 + d2, d3, no);
    lemma_concat_contains(d1 + d2 + d3, u, no);
    let found = d1 + d2 + d3 + u;
    lemma_concat_contains(seq![WARNINGS_HEADER@], context_lines(profile, cwd), no);
    let head = seq![WARNINGS_HEADER@] + context_lines(profile, cwd);
    lemma_concat_contains(head, found, no);
    let tail = if summary.spec_warnings_count() == 0 {
        seq![NO_WARNINGS@]
    } else {
        Seq::<Seq<char>>::empty()
    };
    lemma_concat_contains(head + found, tail, no);
    assert(summary.report(profile, cwd) == head + found + tail);
    if summary.spec_warnings_count() == 0 {
        assert(tail[0] == no);
    }
}

} // verus!
