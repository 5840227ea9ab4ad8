//! Detection of deprecated and unknown keys in the layers of a
//! configuration.
//!
//! A layer's configuration is a TOML document. The diagnostics read only tables
//! and their keys, so a layer holds it as a [`ConfigValue`]: a table with its
//! entries, or some other value.

use vstd::prelude::*;

use crate::sorted_keys::{insert_sorted, string_views, strictly_increasing};
use crate::text::str_eq;

verus! {

/// A TOML value as the diagnostics see it.
pub enum ConfigValue {
    /// A table, with its entries in order.
    Table(Vec<(String, ConfigValue)>),
    /// Any value that is not a table.
    Other,
}

/// One layer of the configuration.
pub struct ConfigLayer {
    /// The description of where the layer comes from, such as
    /// `user:/home/me/.codex/config.toml`.
    pub source: String,
    /// The kind of the layer's source, such as `user` or `session-flags`.
    pub source_kind: String,
    /// The file or folder the layer was read from, if it has one.
    pub source_path: Option<String>,
    /// The managed-preferences domain the layer was read from, if any.
    pub source_domain: Option<String>,
    /// The managed-preferences key the layer was read from, if any.
    pub source_key: Option<String>,
    /// The version of the layer's contents.
    pub version: String,
    /// Why the layer is disabled; `None` for an enabled layer.
    pub disabled_reason: Option<String>,
    /// The layer's configuration.
    pub config: ConfigValue,
}

/// The layers of a configuration, highest precedence first.
pub struct ConfigLayerStack {
    pub layers: Vec<ConfigLayer>,
}

/// A deprecated configuration key.
#[derive(Debug, Clone, Copy, PartialEq, Eq, Structural)]
pub enum DeprecatedKey {
    /// `experimental_instructions_file`, at the top level or in a profile.
    InstructionsFile,
    /// `[tools].web_search`, at the top level or in a profile.
    ToolsWebSearch,
    /// `[features].web_search`, at the top level or in a profile.
    FeaturesWebSearch,
}

/// The entries of a table value.
pub open spec fn as_table(value: ConfigValue) -> Option<Seq<(String, ConfigValue)>> {
    match value {
        ConfigValue::Table(entries) => Some(entries@),
        ConfigValue::Other => None,
    }
}

/// The table has an entry under `key`.
pub open spec fn has_key(table: Seq<(String, ConfigValue)>, key: Seq<char>) -> bool {
    exists|i: int| 0 <= i < table.len() && (#[trigger] table[i]).0@ == key
}

/// The value of the entry under `key`.
pub open spec fn get(table: Seq<(String, ConfigValue)>, key: Seq<char>) -> Option<ConfigValue>
    decreases table.len(),
{
    if table.len() == 0 {
        None
    } else if table[0].0@ == key {
        Some(table[0].1)
    } else {
        get(table.drop_first(), key)
    }
}

/// `value` is a table with an entry under `key`.
pub open spec fn is_table_with_key(value: Option<ConfigValue>, key: Seq<char>) -> bool {
    match value {
        Some(v) => match as_table(v) {
            Some(t) => has_key(t, key),
            None => false,
        },
        None => false,
    }
}

/// The name under which a deprecated key is reported.
pub open spec fn deprecated_key_name(key: DeprecatedKey) -> Seq<char> {
    match key {
        DeprecatedKey::InstructionsFile => "experimental_instructions_file"@,
        DeprecatedKey::ToolsWebSearch => "tools.web_search"@,
        DeprecatedKey::FeaturesWebSearch => "features.web_search"@,
    }
}

/// The table (the document itself, or one profile) sets the deprecated key.
pub open spec fn table_sets(table: Seq<(String, ConfigValue)>, key: DeprecatedKey) -> bool {
    match key {
        DeprecatedKey::InstructionsFile => has_key(table, "experimental_instructions_file"@),
        DeprecatedKey::ToolsWebSearch => is_table_with_key(get(table, "tools"@), "web_search"@),
        DeprecatedKey::FeaturesWebSearch => is_table_with_key(
            get(table, "features"@),
            "web_search"@,
        ),
    }
}

/// The profile tables of a document: the entries of its `profiles` table.
pub open spec fn profiles(table: Seq<(String, ConfigValue)>) -> Seq<(String, ConfigValue)> {
    match get(table, "profiles"@) {
        Some(v) => match as_table(v) {
            Some(p) => p,
            None => Seq::empty(),
        },
        None => Seq::empty(),
    }
}

/// The document uses the deprecated key, at its top level or in one of its
/// profiles.
pub open spec fn document_uses(value: ConfigValue, key: DeprecatedKey) -> bool {
    match as_table(value) {
        Some(table) => document_table_uses(table, key),
        None => false,
    }
}

/// The document's table sets the deprecated key, at its top level or in one
/// of its profiles.
pub open spec fn document_table_uses(table: Seq<(String, ConfigValue)>, key: DeprecatedKey) -> bool {
    table_sets(table, key) || exists|i: int|
        0 <= i < profiles(table).len() && match as_table((#[trigger] profiles(table)[i]).1) {
            Some(p) => table_sets(p, key),
            None => false,
        }
}

/// The layer takes part in the configuration.
pub open spec fn is_enabled(layer: ConfigLayer) -> bool {
    layer.disabled_reason is None
}

/// Some enabled layer uses the deprecated key.
pub open spec fn stack_uses(stack: ConfigLayerStack, key: DeprecatedKey) -> bool {
    exists|i: int|
        0 <= i < stack.layers@.len() && is_enabled(#[trigger] stack.layers@[i]) && document_uses(
            stack.layers@[i].config,
            key,
        )
}

/// A feature key that is neither deprecated (`web_search`) nor known.
pub open spec fn is_unknown_feature(key: Seq<char>, known: Seq<String>) -> bool {
    key != "web_search"@ && !(exists|i: int| 0 <= i < known.len() && (#[trigger] known[i])@ == key)
}

/// The unknown keys of the `features` table of `table`.
pub open spec fn unknown_features_of_table(table: Seq<(String, ConfigValue)>, known: Seq<String>) -> Set<
    Seq<char>,
> {
    match get(table, "features"@) {
        Some(v) => match as_table(v) {
            Some(features) => Set::new(
                |k: Seq<char>| has_key(features, k) && is_unknown_feature(k, known),
            ),
            None => Set::empty(),
        },
        None => Set::empty(),
    }
}

/// The unknown feature keys of a document, at its top level and in its
/// profiles.
pub open spec fn unknown_features_of_document(value: ConfigValue, known: Seq<String>) -> Set<
    Seq<char>,
> {
    match as_table(value) {
        Some(table) => Set::new(
            |k: Seq<char>|
                unknown_features_of_table(table, known).contains(k) || exists|i: int|
                    0 <= i < profiles(table).len() && match as_table(
                        (#[trigger] profiles(table)[i]).1,
                    ) {
                        Some(p) => unknown_features_of_table(p, known).contains(k),
                        None => false,
                    },
        ),
        None => Set::empty(),
    }
}

/// The unknown feature keys of all enabled layers.
pub open spec fn unknown_features_of_stack(stack: ConfigLayerStack, known: Seq<String>) -> Set<
    Seq<char>,
> {
    Set::new(
        |k: Seq<char>|
            exists|i: int|
                0 <= i < stack.layers@.len() && is_enabled(#[trigger] stack.layers@[i])
                    && unknown_features_of_document(stack.layers@[i].config, known).contains(k),
    )
}

/// The value of the entry under `key`.
fn table_get<'a>(table: &'a Vec<(String, ConfigValue)>, key: &str) -> (res: Option<
    &'a ConfigValue,
>)
    ensures
        match res {
            Some(v) => get(table@, key@) == Some(*v),
            None => get(table@, key@) is None,
        },
{
    let n = table.len();
    assert(table@.skip(0) =~= table@);
    for i in 0..n
        invariant
            n == table.len(),
            get(table@, key@) == get(table@.skip(i as int), key@),
    {
        assert(table@.skip(i as int).drop_first() =~= table@.skip(i + 1));
        if str_eq(table[i].0.as_str(), key) {
            return Some(&table[i].1);
        }
    }
    None
}

/// Whether the table has an entry under `key`.
fn table_contains_key(table: &Vec<(String, ConfigValue)>, key: &str) -> (res: bool)
    ensures
        res == has_key(table@, key@),
{
    let n = table.len();
    for i in 0..n
        invariant
            n == table.len(),
            forall|j: int| 0 <= j < i ==> (#[trigger] table@[j]).0@ != key@,
    {
        if str_eq(table[i].0.as_str(), key) {
            return true;
        }
    }
    false
}

/// Whether `value` is a table with an entry under `key`.
fn value_is_table_with_key(value: Option<&ConfigValue>, key: &str) -> (res: bool)
    ensures
        res == is_table_with_key(
            match value {
                Some(v) => Some(*v),
                None => None,
            },
            key@,
        ),
{
    match value {
        Some(ConfigValue::Table(t)) => table_contains_key(t, key),
        _ => false,
    }
}

/// Whether a `tools` value is a table with a `web_search` entry.
fn tools_table_has_web_search(value: Option<&ConfigValue>) -> (res: bool)
    ensures
        res == is_table_with_key(
            match value {
                Some(v) => Some(*v),
                None => None,
            },
            "web_search"@,
        ),
{
    value_is_table_with_key(value, "web_search")
}

/// Whether a `features` value is a table with a `web_search` entry.
fn features_table_has_web_search(value: Option<&ConfigValue>) -> (res: bool)
    ensures
        res == is_table_with_key(
            match value {
                Some(v) => Some(*v),
                None => None,
            },
            "web_search"@,
        ),
{
    value_is_table_with_key(value, "web_search")
}

/// Whether the table (a document or a profile) sets the deprecated key.
fn table_sets_key(table: &Vec<(String, ConfigValue)>, key: DeprecatedKey) -> (res: bool)
    ensures
        res == table_sets(table@, key),
{
    match key {
        DeprecatedKey::InstructionsFile => table_contains_key(
            table,
            "experimental_instructions_file",
        ),
        DeprecatedKey::ToolsWebSearch => tools_table_has_web_search(table_get(table, "tools")),
        DeprecatedKey::FeaturesWebSearch => features_table_has_web_search(
            table_get(table, "features"),
        ),
    }
}

/// The profile tables of a document.
fn profile_entries(table: &Vec<(String, ConfigValue)>) -> (res: Option<&Vec<(String, ConfigValue)>>)
    ensures
        match res {
            Some(p) => profiles(table@) == p@,
            None => profiles(table@) == Seq::<(String, ConfigValue)>::empty(),
        },
{
    match table_get(table, "profiles") {
        Some(ConfigValue::Table(p)) => Some(p),
        _ => None,
    }
}

/// Whether the document's table uses the deprecated key, at its top level or
/// in one of its profiles.
fn document_table_uses_key(table: &Vec<(String, ConfigValue)>, key: DeprecatedKey) -> (res: bool)
    ensures
        res == document_table_uses(table@, key),
{
    if table_sets_key(table, key) {
        return true;
    }
    let profile_list = match profile_entries(table) {
        Some(p) => p,
        None => {
            return false;
        },
    };
    let n = profile_list.len();
    for i in 0..n
        invariant
            n == profile_list.len(),
            profiles(table@) == profile_list@,
            !table_sets(table@, key),
            forall|j: int|
                0 <= j < i ==> match as_table((#[trigger] profile_list@[j]).1) {
                    Some(p) => !table_sets(p, key),
                    None => true,
                },
    {
        if let ConfigValue::Table(p) = &profile_list[i].1 {
            if table_sets_key(p, key) {
                assert(profiles(table@)[i as int] == profile_list@[i as int]);
                return true;
            }
        }
    }
    false
}

/// Whether the document uses the deprecated key, at its top level or in one
/// of its profiles.
pub fn document_uses_key(value: &ConfigValue, key: DeprecatedKey) -> (res: bool)
    ensures
        res == document_uses(*value, key),
{
    match value {
        ConfigValue::Table(table) => document_table_uses_key(table, key),
        ConfigValue::Other => false,
    }
}

/// Whether the document sets `experimental_instructions_file`, at its top
/// level or in a profile.
pub fn toml_uses_deprecated_instructions_file(value: &ConfigValue) -> (res: bool)
    ensures
        res == document_uses(*value, DeprecatedKey::InstructionsFile),
{
    document_uses_key(value, DeprecatedKey::InstructionsFile)
}

/// Whether the document sets `[tools].web_search`, at its top level or in a
/// profile.
pub fn toml_uses_deprecated_tools_web_search(value: &ConfigValue) -> (res: bool)
    ensures
        res == document_uses(*value, DeprecatedKey::ToolsWebSearch),
{
    document_uses_key(value, DeprecatedKey::ToolsWebSearch)
}

/// Whether the document sets `[features].web_search`, at its top level or in
/// a profile.
pub fn toml_uses_deprecated_features_web_search(value: &ConfigValue) -> (res: bool)
    ensures
        res == document_uses(*value, DeprecatedKey::FeaturesWebSearch),
{
    document_uses_key(value, DeprecatedKey::FeaturesWebSearch)
}

/// Whether some enabled layer uses the deprecated key.
pub fn stack_uses_key(config_layer_stack: &ConfigLayerStack, key: DeprecatedKey) -> (res: bool)
    ensures
        res == stack_uses(*config_layer_stack, key),
{
    let layers = &config_layer_stack.layers;
    let n = layers.len();
    for i in 0..n
        invariant
            n == layers.len(),
            layers@ == config_layer_stack.layers@,
            forall|j: int|
                0 <= j < i ==> !(is_enabled(#[trigger] layers@[j]) && document_uses(
                    layers@[j].config,
                    key,
                )),
    {
        if layers[i].disabled_reason.is_none() && document_uses_key(&layers[i].config, key) {
            return true;
        }
    }
    false
}

/// Whether an enabled layer sets `experimental_instructions_file`.
pub fn uses_deprecated_instructions_file(config_layer_stack: &ConfigLayerStack) -> (res: bool)
    ensures
        res == stack_uses(*config_layer_stack, DeprecatedKey::InstructionsFile),
{
    stack_uses_key(config_layer_stack, DeprecatedKey::InstructionsFile)
}

/// Whether an enabled layer sets `[tools].web_search`.
pub fn uses_deprecated_tools_web_search(config_layer_stack: &ConfigLayerStack) -> (res: bool)
    ensures
        res == stack_uses(*config_layer_stack, DeprecatedKey::ToolsWebSearch),
{
    stack_uses_key(config_layer_stack, DeprecatedKey::ToolsWebSearch)
}

/// Whether an enabled layer sets `[features].web_search`.
pub fn uses_deprecated_features_web_search(config_layer_stack: &ConfigLayerStack) -> (res: bool)
    ensures
        res == stack_uses(*config_layer_stack, DeprecatedKey::FeaturesWebSearch),
{
    stack_uses_key(config_layer_stack, DeprecatedKey::FeaturesWebSearch)
}

/// A document uses a deprecated key exactly when its top level or one of
/// its profiles, whichever it is, sets the key; a value that is not a table
/// uses none.
pub proof fn law_every_profile_is_checked(value: ConfigValue, key: DeprecatedKey)
    ensures
        as_table(value) is None ==> !document_uses(value, key),
        as_table(value) is Some ==> {
            let table = as_table(value)->0;
            &&& table_sets(table, key) ==> document_uses(value, key)
            &&& forall|i: int, p: Seq<(String, ConfigValue)>|
                0 <= i < profiles(table).len() && as_table(#[trigger] profiles(table)[i].1) == Some(
                    p,
                ) && #[trigger] table_sets(p, key) ==> document_uses(value, key)
            &&& document_uses(value, key) ==> table_sets(table, key) || exists|i: int|
                0 <= i < profiles(table).len() && match as_table((#[trigger] profiles(table)[i]).1) {
                    Some(p) => table_sets(p, key),
                    None => false,
                }
        },
{
    if let Some(table) = as_table(value) {
        assert forall|i: int, p: Seq<(String, ConfigValue)>|
            0 <= i < profiles(table).len() && as_table(#[trigger] profiles(table)[i].1) == Some(p)
                && #[trigger] table_sets(p, key) implies document_uses(value, key) by {
            assert(match as_table(profiles(table)[i].1) {
                Some(q) => table_sets(q, key),
                None => false,
            });
        }
    }
}

/// The union of the sets `part(j)` for `0 <= j < n`.
pub open spec fn union_upto(part: spec_fn(int) -> Set<Seq<char>>, n: int) -> Set<Seq<char>> {
    Set::new(|k: Seq<char>| exists|j: int| 0 <= j < n && #[trigger] part(j).contains(k))
}

/// Taking one more part into the union adds that part.
proof fn lemma_union_upto_step(part: spec_fn(int) -> Set<Seq<char>>, n: int)
    requires
        0 <= n,
    ensures
        union_upto(part, n + 1) == union_upto(part, n).union(part(n)),
{
    assert forall|k: Seq<char>| #[trigger]
        union_upto(part, n + 1).contains(k) implies union_upto(part, n).union(part(n)).contains(
        k,
    ) by {
        let j = choose|j: int| 0 <= j < n + 1 && #[trigger] part(j).contains(k);
        if j < n {
            assert(union_upto(part, n).contains(k));
        }
    }
    assert forall|k: Seq<char>| #[trigger]
        union_upto(part, n).union(part(n)).contains(k) implies union_upto(part, n + 1).contains(
        k,
    ) by {
        if union_upto(part, n).contains(k) {
            let j = choose|j: int| 0 <= j < n && #[trigger] part(j).contains(k);
            assert(0 <= j < n + 1 && part(j).contains(k));
        } else {
            assert(0 <= n < n + 1 && part(n).contains(k));
        }
    }
    assert(union_upto(part, n + 1) =~= union_upto(part, n).union(part(n)));
}

/// The key of a `features` entry, if it is unknown.
pub open spec fn unknown_entry_key(entry: (String, ConfigValue), known: Seq<String>) -> Set<
    Seq<char>,
> {
    if is_unknown_feature(entry.0@, known) {
        set![entry.0@]
    } else {
        Set::empty()
    }
}

/// The unknown keys of each entry of a `features` table, by index.
pub open spec fn entry_parts(features: Seq<(String, ConfigValue)>, known: Seq<String>) -> spec_fn(
    int,
) -> Set<Seq<char>> {
    |j: int| unknown_entry_key(features[j], known)
}

/// The unknown feature keys of a profile value.
pub open spec fn unknown_in_profile(profile: ConfigValue, known: Seq<String>) -> Set<Seq<char>> {
    match as_table(profile) {
        Some(p) => unknown_features_of_table(p, known),
        None => Set::empty(),
    }
}

/// The unknown feature keys of each profile, by index.
pub open spec fn profile_parts(profile_list: Seq<(String, ConfigValue)>, known: Seq<String>) -> spec_fn(
    int,
) -> Set<Seq<char>> {
    |j: int| unknown_in_profile(profile_list[j].1, known)
}

/// The unknown feature keys of a layer, if it is enabled.
pub open spec fn unknown_in_layer(layer: ConfigLayer, known: Seq<String>) -> Set<Seq<char>> {
    if is_enabled(layer) {
        unknown_features_of_document(layer.config, known)
    } else {
        Set::empty()
    }
}

/// The unknown feature keys of each layer, by index.
pub open spec fn layer_parts(layers: Seq<ConfigLayer>, known: Seq<String>) -> spec_fn(int) -> Set<
    Seq<char>,
> {
    |j: int| unknown_in_layer(layers[j], known)
}

/// Whether `key` is one of the `known` feature keys.
fn is_known_feature_key(key: &String, known: &Vec<String>) -> (res: bool)
    ensures
        res == exists|i: int| 0 <= i < known@.len() && (#[trigger] known@[i])@ == key@,
{
    let n = known.len();
    for i in 0..n
        invariant
            n == known.len(),
            forall|j: int| 0 <= j < i ==> (#[trigger] known@[j])@ != key@,
    {
        if str_eq(known[i].as_str(), key.as_str()) {
            return true;
        }
    }
    false
}

/// Adds the unknown keys of the `features` table of `table` to `keys`.
fn collect_unknown_in_table(
    table: &Vec<(String, ConfigValue)>,
    known: &Vec<String>,
    keys: &mut Vec<String>,
)
    requires
        strictly_increasing(string_views(old(keys)@)),
    ensures
        strictly_increasing(string_views(final(keys)@)),
        string_views(final(keys)@).to_set() == string_views(old(keys)@).to_set().union(
            unknown_features_of_table(table@, known@),
        ),
{
    let features = match table_get(table, "features") {
        Some(ConfigValue::Table(f)) => f,
        _ => {
            assert(string_views(keys@).to_set().union(unknown_features_of_table(table@, known@))
                =~= string_views(keys@).to_set());
            return;
        },
    };
    let ghost start = string_views(keys@).to_set();
    let ghost parts = entry_parts(features@, known@);
    assert(start.union(union_upto(parts, 0)) =~= start);
    let n = features.len();
    for i in 0..n
        invariant
            n == features.len(),
            parts == entry_parts(features@, known@),
            strictly_increasing(string_views(keys@)),
            string_views(keys@).to_set() == start.union(union_upto(parts, i as int)),
    {
        let key = &features[i].0;
        let ghost before = string_views(keys@).to_set();
        proof {
            lemma_union_upto_step(parts, i as int);
        }
        if !str_eq(key.as_str(), "web_search") && !is_known_feature_key(key, known) {
            insert_sorted(keys, key.clone());
            assert(parts(i as int) == set![key@]);
        } else {
            assert(parts(i as int) =~= Set::<Seq<char>>::empty());
        }
        assert(string_views(keys@).to_set() =~= start.union(union_upto(parts, i + 1)));
    }
    assert(union_upto(parts, n as int) =~= unknown_features_of_table(table@, known@)) by {
        assert forall|k: Seq<char>|
            #![auto]
            unknown_features_of_table(table@, known@).contains(k) implies union_upto(
            parts,
            n as int,
        ).contains(k) by {
            let j = choose|j: int| 0 <= j < features@.len() && (#[trigger] features@[j]).0@ == k;
            assert(parts(j).contains(k));
        }
    }
}

/// Adds the unknown feature keys of a document, at its top level and in its
/// profiles, to `keys`.
pub fn collect_unknown_feature_keys(value: &ConfigValue, known: &Vec<String>, keys: &mut Vec<String>)
    requires
        strictly_increasing(string_views(old(keys)@)),
    ensures
        strictly_increasing(string_views(final(keys)@)),
        string_views(final(keys)@).to_set() == string_views(old(keys)@).to_set().union(
            unknown_features_of_document(*value, known@),
        ),
{
    let table = match value {
        ConfigValue::Table(t) => t,
        ConfigValue::Other => {
            assert(string_views(keys@).to_set().union(unknown_features_of_document(*value, known@))
                =~= string_views(keys@).to_set());
            return;
        },
    };
    let ghost start = string_views(keys@).to_set();
    collect_unknown_in_table(table, known, keys);
    let ghost top = unknown_features_of_table(table@, known@);
    let profile_list = match profile_entries(table) {
        Some(p) => p,
        None => {
            assert(string_views(keys@).to_set() =~= start.union(
                unknown_features_of_document(*value, known@),
            ));
            return;
        },
    };
    let ghost parts = profile_parts(profile_list@, known@);
    assert(start.union(top).union(union_upto(parts, 0)) =~= start.union(top));
    let n = profile_list.len();
    for i in 0..n
        invariant
            n == profile_list.len(),
            parts == profile_parts(profile_list@, known@),
            strictly_increasing(string_views(keys@)),
            string_views(keys@).to_set() == start.union(top).union(union_upto(parts, i as int)),
    {
        proof {
            lemma_union_upto_step(parts, i as int);
        }
        if let ConfigValue::Table(p) = &profile_list[i].1 {
            collect_unknown_in_table(p, known, keys);
        } else {
            assert(parts(i as int) =~= Set::<Seq<char>>::empty());
        }
        assert(string_views(keys@).to_set() =~= start.union(top).union(union_upto(parts, i + 1)));
    }
    assert(start.union(top).union(union_upto(parts, n as int)) =~= start.union(
        unknown_features_of_document(*value, known@),
    )) by {
        assert forall|k: Seq<char>|
            #![auto]
            union_upto(parts, n as int).contains(k) implies unknown_features_of_document(
            *value,
            known@,
        ).contains(k) by {
            let j = choose|j: int| 0 <= j < n && #[trigger] parts(j).contains(k);
            assert(profiles(table@)[j] == profile_list@[j]);
        }
        assert forall|k: Seq<char>|
            #![auto]
            unknown_features_of_document(*value, known@).contains(k) && !top.contains(
                k,
            ) implies union_upto(parts, n as int).contains(k) by {
            let j = choose|j: int|
                0 <= j < profiles(table@).len() && match as_table(
                    (#[trigger] profiles(table@)[j]).1,
                ) {
                    Some(p) => unknown_features_of_table(p, known@).contains(k),
                    None => false,
                };
            assert(parts(j).contains(k));
        }
    }
}

/// The unknown `[features]` keys of the enabled layers, at the top level or
/// in a profile: keys that are neither known nor the deprecated
/// `web_search`. The keys come sorted, each once.
pub fn unknown_feature_keys(config_layer_stack: &ConfigLayerStack, known_features: &Vec<String>) -> (res: Vec<
    String,
>)
    ensures
        strictly_increasing(string_views(res@)),
        string_views(res@).to_set() == unknown_features_of_stack(
            *config_layer_stack,
            known_features@,
        ),
{
    let mut keys: Vec<String> = Vec::new();
    let layers = &config_layer_stack.layers;
    let ghost parts = layer_parts(layers@, known_features@);
    let n = layers.len();
    assert(string_views(keys@).to_set() =~= union_upto(parts, 0));
    for i in 0..n
        invariant
            n == layers.len(),
            layers@ == config_layer_stack.layers@,
            parts == layer_parts(layers@, known_features@),
            strictly_increasing(string_views(keys@)),
            string_views(keys@).to_set() == union_upto(parts, i as int),
    {
        proof {
            lemma_union_upto_step(parts, i as int);
        }
        if layers[i].disabled_reason.is_none() {
            collect_unknown_feature_keys(&layers[i].config, known_features, &mut keys);
        } else {
            assert(parts(i as int) =~= Set::<Seq<char>>::empty());
        }
        assert(string_views(keys@).to_set() =~= union_upto(parts, i + 1));
    }
    assert(union_upto(parts, n as int) =~= unknown_features_of_stack(
        *config_layer_stack,
        known_features@,
    )) by {
        assert forall|k: Seq<char>|
            #![auto]
            unknown_features_of_stack(*config_layer_stack, known_features@).contains(
                k,
            ) implies union_upto(parts, n as int).contains(k) by {
            let j = choose|j: int|
                0 <= j < layers@.len() && is_enabled(#[trigger] layers@[j])
                    && unknown_features_of_document(layers@[j].config, known_features@).contains(k);
            assert(parts(j).contains(k));
        }
    }
    keys
}

/// `web_search` under `[features]` is reported as deprecated, never as
/// unknown, and no known feature key is reported as unknown.
pub proof fn law_unknown_keys_exclude_known_keys(stack: ConfigLayerStack, known: Seq<String>)
    ensures
        !unknown_features_of_stack(stack, known).contains("web_search"@),
        forall|i: int|
            0 <= i < known.len() ==> !unknown_features_of_stack(stack, known).contains(
                (#[trigger] known[i])@,
            ),
{
    assert forall|k: Seq<char>| #[trigger]
        unknown_features_of_stack(stack, known).contains(k) implies is_unknown_feature(
        k,
        known,
    ) by {
        let j = choose|j: int|
            0 <= j < stack.layers@.len() && is_enabled(#[trigger] stack.layers@[j])
                && unknown_features_of_document(stack.layers@[j].config, known).contains(k);
        let doc = stack.layers@[j].config;
        let table = as_table(doc)->0;
        if !unknown_features_of_table(table, known).contains(k) {
            let p = choose|p: int|
                0 <= p < profiles(table).len() && match as_table((#[trigger] profiles(table)[p]).1) {
                    Some(t) => unknown_features_of_table(t, known).contains(k),
                    None => false,
                };
        }
    }
}

} // verus!
