//! Rules from a YAML configuration file.
//!
//! The text is parsed by `yaml_rust`. Its first document must hold, under
//! the key `forwarders`, a list of mappings; each mapping gives the raw
//! fields of one rule under the keys `local`, `remote`, `enable_tcp`,
//! `enable_udp`, `conn_bufsize`, `allow_nets` and `max_connections`.
//!
//! A parsed node is opaque to the verifier. `YamlModel` says what such a
//! node holds, and the contracts of this module are stated over it.
//!
//! The parser works its way into nested collections by recursion, one call
//! inside another for each level, and so does everything that later walks
//! the nodes it built. A text that nests deeply enough exhausts the stack
//! and ends the process. Such texts never reach the parser: `refusal_of`
//! says which texts are turned away, and why the rest cannot nest deeply.

use crate::forward_config::{
    validated, ConfigError, Entry, ForwardSessionConfig, RawRule, RawRuleModel, RuleModel,
};
use crate::text::{chars_of, count_char, count_of, has_char, has_short_lines, lines_within, texts};
use linked_hash_map::LinkedHashMap;
use vstd::prelude::*;
use yaml_rust::{ScanError, Yaml, YamlLoader};

verus! {

/// A parsed YAML node.
#[verifier::external_type_specification]
#[verifier::external_body]
pub struct ExYaml(yaml_rust::Yaml);

/// Why a text is not YAML.
#[verifier::external_type_specification]
#[verifier::external_body]
pub struct ExScanError(yaml_rust::ScanError);

/// The map that a YAML mapping keeps its pairs in.
#[verifier::external_type_specification]
#[verifier::external_body]
#[verifier::reject_recursive_types(K)]
#[verifier::reject_recursive_types(V)]
#[verifier::reject_recursive_types(S)]
pub struct ExLinkedHashMap<K, V, S>(linked_hash_map::LinkedHashMap<K, V, S>);

/// The mathematical content of a parsed YAML node, variant for variant.
pub enum YamlModel {
    /// A floating-point scalar, kept as its text (`Yaml::Real`).
    Real(Seq<char>),
    /// An integer scalar (`Yaml::Integer`).
    Integer(i64),
    /// A string scalar (`Yaml::String`).
    Text(Seq<char>),
    /// A boolean scalar (`Yaml::Boolean`).
    Flag(bool),
    /// A sequence of nodes (`Yaml::Array`).
    List(Seq<YamlModel>),
    /// A mapping, as its pairs of key and value (`Yaml::Hash`).
    Table(Seq<(YamlModel, YamlModel)>),
    /// An alias (`Yaml::Alias`).
    Alias(usize),
    /// The null scalar (`Yaml::Null`).
    Null,
    /// What stands for a node that is not there (`Yaml::BadValue`).
    Bad,
}

/// The longest line of a text that is handed to the parser.
pub const MAX_LINE_LENGTH: usize = 100;

/// The most `[` and `{` in a text that is handed to the parser.
pub const MAX_FLOW_OPENERS: usize = 30;

/// Why a text is not handed to the parser, if it is not.
///
/// Collections open inside one another in three ways only. A block
/// collection opens at a column to the right of the one around it, and the
/// parser counts columns from the last line feed, so there are no more of
/// them inside one another than a line has columns, each with at most one
/// sequence written at the column of its key. A flow collection
/// opens at a `[` or a `{`, each with at most one mapping written without
/// braces inside it. And an alias, which starts with `*`, puts a copy of
/// what was written elsewhere where it stands. A text within the limits
/// below therefore holds nothing nested deeper than
/// `2 * MAX_LINE_LENGTH + 2 * MAX_FLOW_OPENERS` levels.
pub open spec fn refusal_of(text: Seq<char>) -> Option<LoadError> {
    if !lines_within(text, MAX_LINE_LENGTH as int) {
        Some(LoadError::LineTooLong)
    } else if count_of(text, '[') + count_of(text, '{') > MAX_FLOW_OPENERS {
        Some(LoadError::TooManyFlowCollections)
    } else if text.contains('*') {
        Some(LoadError::AliasFound)
    } else {
        None
    }
}

/// What a parsed node holds.
pub uninterp spec fn yaml_value(node: Yaml) -> YamlModel;

/// The pairs of key and value that the map of a mapping holds, in the
/// map's order.
pub uninterp spec fn yaml_pairs(pairs: LinkedHashMap<Yaml, Yaml>) -> Seq<(YamlModel, YamlModel)>;

/// What the documents hold that the parser reads from `text`; `None` where
/// it reports a scan error.
pub uninterp spec fn yaml_documents(text: Seq<char>) -> Option<Seq<YamlModel>>;

/// What each of the nodes holds.
pub open spec fn yaml_values(nodes: Seq<Yaml>) -> Seq<YamlModel> {
    nodes.map_values(|n: Yaml| yaml_value(n))
}

/// The value that the pairs give to `key`; the bad value if there is none.
pub open spec fn entry_of(entries: Seq<(YamlModel, YamlModel)>, key: YamlModel) -> YamlModel
    decreases entries.len(),
{
    if entries.len() == 0 {
        YamlModel::Bad
    } else if entries[0].0 == key {
        entries[0].1
    } else {
        entry_of(entries.drop_first(), key)
    }
}

/// The node under the string key `key` of a mapping; the bad value where
/// `node` is no mapping or has no such key.
pub open spec fn member_of(node: YamlModel, key: Seq<char>) -> YamlModel {
    match node {
        YamlModel::Table(entries) => entry_of(entries, YamlModel::Text(key)),
        _ => YamlModel::Bad,
    }
}

/// Whether one of the pairs has the string `key` for its key.
pub open spec fn has_entry(entries: Seq<(YamlModel, YamlModel)>, key: Seq<char>) -> bool {
    exists|i: int| 0 <= i < entries.len() && (#[trigger] entries[i]).0 == YamlModel::Text(key)
}

/// Whether `node` is a mapping with a pair for the string key `key`.
pub open spec fn has_key(node: YamlModel, key: Seq<char>) -> bool {
    node matches YamlModel::Table(entries) && has_entry(entries, key)
}

/// Calls `YamlLoader::load_from_str`. The contract claims that the outcome
/// depends on the text alone: the documents on success, a scan error
/// otherwise.
///
/// The call recurses once for each level of nesting (the parser's
/// `load_node`, then `clone` and `drop` of the nodes), and a text that
/// nests some hundreds of levels deep overflows a stack of two mebibytes.
/// The precondition leaves out every text that could nest deeper than 260
/// levels, by the reasons given at `refusal_of`; it is claimed for threads
/// with a stack of that size or more.
#[verifier::external_body]
fn load_documents(text: &str) -> (r: Result<Vec<Yaml>, ScanError>)
    requires
        refusal_of(text@) is None,
    ensures
        match r {
            Ok(docs) => yaml_documents(text@) == Some(yaml_values(docs@)),
            Err(_) => yaml_documents(text@) is None,
        },
{
    YamlLoader::load_from_str(text)
}

/// Indexes a node by a string key (`Index<&str>` of `Yaml`): the value
/// under that key where the node is a mapping that has it, and the bad-value
/// node otherwise. It never fails.
#[verifier::external_body]
fn member<'a>(node: &'a Yaml, key: &str) -> (r: &'a Yaml)
    ensures
        yaml_value(*r) == member_of(yaml_value(*node), key@),
{
    &node[key]
}

/// Calls `Yaml::as_hash`: the map of a mapping node, `None` for any other.
#[verifier::external_body]
fn as_pairs<'a>(node: &'a Yaml) -> (r: Option<&'a LinkedHashMap<Yaml, Yaml>>)
    ensures
        match r {
            Some(pairs) => yaml_value(*node) == YamlModel::Table(yaml_pairs(*pairs)),
            None => !(yaml_value(*node) is Table),
        },
{
    node.as_hash()
}

/// Calls `LinkedHashMap::contains_key` with the key as a string node:
/// whether the map has a pair whose key is that string.
#[verifier::external_body]
fn has_pair(pairs: &LinkedHashMap<Yaml, Yaml>, key: &str) -> (b: bool)
    ensures
        b == has_entry(yaml_pairs(*pairs), key@),
{
    pairs.contains_key(&Yaml::String(key.to_owned()))
}

/// Calls `Yaml::as_str`: the text of a string node, `None` for any other.
#[verifier::external_body]
fn as_text<'a>(node: &'a Yaml) -> (r: Option<&'a str>)
    ensures
        match r {
            Some(s) => yaml_value(*node) == YamlModel::Text(s@),
            None => !(yaml_value(*node) is Text),
        },
{
    node.as_str()
}

/// Calls `Yaml::as_bool`: the value of a boolean node, `None` for any other.
#[verifier::external_body]
fn as_flag(node: &Yaml) -> (r: Option<bool>)
    ensures
        match r {
            Some(b) => yaml_value(*node) == YamlModel::Flag(b),
            None => !(yaml_value(*node) is Flag),
        },
{
    node.as_bool()
}

/// Calls `Yaml::as_i64`: the value of an integer node, `None` for any other.
#[verifier::external_body]
fn as_integer(node: &Yaml) -> (r: Option<i64>)
    ensures
        match r {
            Some(n) => yaml_value(*node) == YamlModel::Integer(n),
            None => !(yaml_value(*node) is Integer),
        },
{
    node.as_i64()
}

/// Calls `Yaml::as_vec`: the items of a sequence node, `None` for any other.
#[verifier::external_body]
fn as_items<'a>(node: &'a Yaml) -> (r: Option<&'a Vec<Yaml>>)
    ensures
        match r {
            Some(v) => yaml_value(*node) == YamlModel::List(yaml_values(v@)),
            None => !(yaml_value(*node) is List),
        },
{
    node.as_vec()
}

/// Why a configuration text yields no rules.
#[derive(Clone, Copy, Debug, PartialEq, Eq, Structural)]
pub enum LoadError {
    /// A line of the text has more than `MAX_LINE_LENGTH` characters.
    LineTooLong,
    /// The text has more than `MAX_FLOW_OPENERS` of `[` and `{`.
    TooManyFlowCollections,
    /// The text has a `*` in it, which may start an alias.
    AliasFound,
    /// The text is not YAML.
    NotYaml,
    /// The first document has no list under `forwarders`.
    ForwardersNotList,
    /// The entry at `index` of the list does not make a rule.
    Rule { index: usize, fault: ConfigError },
}

/// A text field as raw rule field: missing where the mapping has no such
/// key, present where the value is a string, malformed otherwise.
pub open spec fn text_entry_of(node: YamlModel, key: Seq<char>) -> Entry<Seq<char>> {
    if !has_key(node, key) {
        Entry::Missing
    } else {
        match member_of(node, key) {
            YamlModel::Text(s) => Entry::Present(s),
            _ => Entry::Malformed,
        }
    }
}

/// A boolean field as raw rule field.
pub open spec fn flag_entry_of(node: YamlModel, key: Seq<char>) -> Entry<bool> {
    if !has_key(node, key) {
        Entry::Missing
    } else {
        match member_of(node, key) {
            YamlModel::Flag(b) => Entry::Present(b),
            _ => Entry::Malformed,
        }
    }
}

/// An integer field as raw rule field.
pub open spec fn integer_entry_of(node: YamlModel, key: Seq<char>) -> Entry<i64> {
    if !has_key(node, key) {
        Entry::Missing
    } else {
        match member_of(node, key) {
            YamlModel::Integer(n) => Entry::Present(n),
            _ => Entry::Malformed,
        }
    }
}

/// Whether every item is a string.
pub open spec fn all_text(items: Seq<YamlModel>) -> bool {
    forall|i: int| 0 <= i < items.len() ==> #[trigger] items[i] is Text
}

/// A list-of-texts field as raw rule field: present where the value is a
/// sequence of strings.
pub open spec fn text_list_entry_of(node: YamlModel, key: Seq<char>) -> Entry<Seq<Seq<char>>> {
    if !has_key(node, key) {
        Entry::Missing
    } else {
        match member_of(node, key) {
            YamlModel::List(items) => if all_text(items) {
                Entry::Present(items.map_values(|item: YamlModel| item->Text_0))
            } else {
                Entry::Malformed
            },
            _ => Entry::Malformed,
        }
    }
}

/// The raw rule fields that a node holds.
pub open spec fn raw_rule_of(node: YamlModel) -> RawRuleModel {
    RawRuleModel {
        local: text_entry_of(node, "local"@),
        remote: text_entry_of(node, "remote"@),
        enable_tcp: flag_entry_of(node, "enable_tcp"@),
        enable_udp: flag_entry_of(node, "enable_udp"@),
        conn_bufsize: integer_entry_of(node, "conn_bufsize"@),
        allow_nets: text_list_entry_of(node, "allow_nets"@),
        max_connections: integer_entry_of(node, "max_connections"@),
    }
}

/// The rules of a list of validation outcomes: all of them in order if
/// every outcome is a rule, and otherwise the first fault with its position.
pub open spec fn collected(outcomes: Seq<Result<RuleModel, ConfigError>>) -> Result<
    Seq<RuleModel>,
    LoadError,
>
    decreases outcomes.len(),
{
    if outcomes.len() == 0 {
        Ok(Seq::empty())
    } else {
        match collected(outcomes.drop_last()) {
            Err(e) => Err(e),
            Ok(rules) => match outcomes.last() {
                Err(fault) => Err(LoadError::Rule { index: (outcomes.len() - 1) as usize, fault }),
                Ok(rule) => Ok(rules.push(rule)),
            },
        }
    }
}

/// The rules that a list of raw entries makes: each entry validated in
/// order, and the first that has a fault reported with its position.
pub open spec fn validated_all(raws: Seq<RawRuleModel>) -> Result<Seq<RuleModel>, LoadError> {
    collected(raws.map_values(|raw: RawRuleModel| validated(raw)))
}

/// What parsed documents hold: `Ok(None)` where there is no document at
/// all, else the rules of the first document's `forwarders` list.
pub open spec fn configured(docs: Seq<YamlModel>) -> Result<Option<Seq<RuleModel>>, LoadError> {
    if docs.len() == 0 {
        Ok(None)
    } else {
        match member_of(docs[0], "forwarders"@) {
            YamlModel::List(items) => match validated_all(
                items.map_values(|n: YamlModel| raw_rule_of(n)),
            ) {
                Ok(rules) => Ok(Some(rules)),
                Err(e) => Err(e),
            },
            _ => Err(LoadError::ForwardersNotList),
        }
    }
}

/// The documents of a text: none for a text that is not handed to the
/// parser or that the parser takes for no YAML.
pub open spec fn parsed_of(text: Seq<char>) -> Result<Seq<YamlModel>, LoadError> {
    match refusal_of(text) {
        Some(e) => Err(e),
        None => match yaml_documents(text) {
            Some(docs) => Ok(docs),
            None => Err(LoadError::NotYaml),
        },
    }
}

/// What a configuration text holds.
pub open spec fn loaded_of(text: Seq<char>) -> Result<Option<Seq<RuleModel>>, LoadError> {
    match parsed_of(text) {
        Err(e) => Err(e),
        Ok(docs) => configured(docs),
    }
}

/// The contents of a vector of rules.
pub open spec fn rule_models(rules: Seq<ForwardSessionConfig>) -> Seq<RuleModel> {
    rules.map_values(|r: ForwardSessionConfig| r@)
}

/// The contents of a vector of raw rules.
pub open spec fn raw_models(raws: Seq<RawRule>) -> Seq<RawRuleModel> {
    raws.map_values(|r: RawRule| r@)
}

/// The contents of a loading result.
pub open spec fn loaded_model(r: Result<Option<Vec<ForwardSessionConfig>>, LoadError>) -> Result<
    Option<Seq<RuleModel>>,
    LoadError,
> {
    match r {
        Ok(Some(rules)) => Ok(Some(rule_models(rules@))),
        Ok(None) => Ok(None),
        Err(e) => Err(e),
    }
}

/// Tests whether a node is a mapping with a pair for a string key.
fn has_member(node: &Yaml, key: &str) -> (b: bool)
    ensures
        b == has_key(yaml_value(*node), key@),
{
    match as_pairs(node) {
        Some(pairs) => has_pair(pairs, key),
        None => false,
    }
}

fn text_entry(node: &Yaml, key: &str) -> (r: Entry<String>)
    ensures
        match r {
            Entry::Missing => text_entry_of(yaml_value(*node), key@) is Missing,
            Entry::Present(s) => text_entry_of(yaml_value(*node), key@) == Entry::Present(s@),
            Entry::Malformed => text_entry_of(yaml_value(*node), key@) is Malformed,
        },
{
    if !has_member(node, key) {
        Entry::Missing
    } else {
        match as_text(member(node, key)) {
            Some(s) => Entry::Present(s.to_owned()),
            None => Entry::Malformed,
        }
    }
}

fn flag_entry(node: &Yaml, key: &str) -> (r: Entry<bool>)
    ensures
        r == flag_entry_of(yaml_value(*node), key@),
{
    if !has_member(node, key) {
        Entry::Missing
    } else {
        match as_flag(member(node, key)) {
            Some(b) => Entry::Present(b),
            None => Entry::Malformed,
        }
    }
}

fn integer_entry(node: &Yaml, key: &str) -> (r: Entry<i64>)
    ensures
        r == integer_entry_of(yaml_value(*node), key@),
{
    if !has_member(node, key) {
        Entry::Missing
    } else {
        match as_integer(member(node, key)) {
            Some(n) => Entry::Present(n),
            None => Entry::Malformed,
        }
    }
}

fn text_list_entry(node: &Yaml, key: &str) -> (r: Entry<Vec<String>>)
    ensures
        match r {
            Entry::Missing => text_list_entry_of(yaml_value(*node), key@) is Missing,
            Entry::Present(v) => text_list_entry_of(yaml_value(*node), key@) == Entry::Present(
                texts(v@),
            ),
            Entry::Malformed => text_list_entry_of(yaml_value(*node), key@) is Malformed,
        },
{
    if !has_member(node, key) {
        return Entry::Missing;
    }
    let value = member(node, key);
    let items = match as_items(value) {
        Some(items) => items,
        None => return Entry::Malformed,
    };
    let n: usize = items.len();
    let mut out: Vec<String> = Vec::new();
    let mut i: usize = 0;
    while i < n
        invariant
            n == items.len(),
            0 <= i <= n,
            out@.len() == i,
            has_key(yaml_value(*node), key@),
            member_of(yaml_value(*node), key@) == YamlModel::List(yaml_values(items@)),
            forall|j: int|
                0 <= j < i ==> #[trigger] yaml_values(items@)[j] == YamlModel::Text(out@[j]@),
        decreases n - i,
    {
        match as_text(&items[i]) {
            Some(s) => {
                out.push(s.to_owned());
            },
            None => {
                assert(!(yaml_values(items@)[i as int] is Text));
                return Entry::Malformed;
            },
        }
        i = i + 1;
    }
    assert(texts(out@) =~= yaml_values(items@).map_values(|item: YamlModel| item->Text_0));
    Entry::Present(out)
}

/// Reads the raw fields of one rule from a node.
pub fn raw_rule(node: &Yaml) -> (r: RawRule)
    ensures
        r@ == raw_rule_of(yaml_value(*node)),
{
    RawRule {
        local: text_entry(node, "local"),
        remote: text_entry(node, "remote"),
        enable_tcp: flag_entry(node, "enable_tcp"),
        enable_udp: flag_entry(node, "enable_udp"),
        conn_bufsize: integer_entry(node, "conn_bufsize"),
        allow_nets: text_list_entry(node, "allow_nets"),
        max_connections: integer_entry(node, "max_connections"),
    }
}

/// Validates raw entries in order and stops at the first that has a fault.
pub fn rules_from(raws: &Vec<RawRule>) -> (r: Result<Vec<ForwardSessionConfig>, LoadError>)
    ensures
        match r {
            Ok(rules) => validated_all(raw_models(raws@)) == Ok::<Seq<RuleModel>, LoadError>(
                rule_models(rules@),
            ),
            Err(e) => validated_all(raw_models(raws@)) == Err::<Seq<RuleModel>, LoadError>(e),
        },
        r matches Ok(rules) ==> forall|i: int| 0 <= i < rules.len() ==> (#[trigger] rules[i]).wf(),
{
    let n: usize = raws.len();
    let mut rules: Vec<ForwardSessionConfig> = Vec::new();
    let mut i: usize = 0;
    let ghost outcomes = raw_models(raws@).map_values(|raw: RawRuleModel| validated(raw));
    assert(outcomes.take(0) =~= Seq::empty());
    assert(rule_models(rules@) =~= Seq::empty());
    while i < n
        invariant
            n == raws.len(),
            0 <= i <= n,
            outcomes == raw_models(raws@).map_values(|raw: RawRuleModel| validated(raw)),
            collected(outcomes.take(i as int)) == Ok::<Seq<RuleModel>, LoadError>(
                rule_models(rules@),
            ),
            forall|j: int| 0 <= j < rules.len() ==> (#[trigger] rules[j]).wf(),
        decreases n - i,
    {
        proof {
            assert(outcomes.take(i + 1).drop_last() =~= outcomes.take(i as int));
            assert(outcomes.take(i + 1).last() == validated(raws@[i as int]@));
        }
        match ForwardSessionConfig::from_fields(&raws[i]) {
            Ok(rule) => {
                proof {
                    assert(rule_models(rules@.push(rule)) =~= rule_models(rules@).push(rule@));
                }
                rules.push(rule);
            },
            Err(fault) => {
                proof {
                    lemma_collected_stops(outcomes, i as int);
                }
                return Err(LoadError::Rule { index: i, fault });
            },
        }
        i = i + 1;
    }
    assert(outcomes.take(n as int) =~= outcomes);
    Ok(rules)
}

/// A fault among the first outcomes is the fault of the whole list.
pub proof fn lemma_collected_stops(outcomes: Seq<Result<RuleModel, ConfigError>>, k: int)
    requires
        0 <= k < outcomes.len(),
        collected(outcomes.take(k + 1)) is Err,
    ensures
        collected(outcomes) == collected(outcomes.take(k + 1)),
    decreases outcomes.len() - k,
{
    if k + 1 == outcomes.len() {
        assert(outcomes.take(k + 1) =~= outcomes);
    } else {
        assert(outcomes.take(k + 2).drop_last() =~= outcomes.take(k + 1));
        lemma_collected_stops(outcomes, k + 1);
    }
}

/// Whether `rules` are what the outcomes hold, one for one.
pub open spec fn all_rules(outcomes: Seq<Result<RuleModel, ConfigError>>, rules: Seq<RuleModel>) -> bool {
    &&& rules.len() == outcomes.len()
    &&& forall|i: int|
        0 <= i < outcomes.len() ==> #[trigger] outcomes[i] == Ok::<RuleModel, ConfigError>(
            rules[i],
        )
}

/// Whether the outcome at `index` is the first that is a fault, and `fault`
/// that fault.
pub open spec fn first_fault_at(
    outcomes: Seq<Result<RuleModel, ConfigError>>,
    index: int,
    fault: ConfigError,
) -> bool {
    &&& 0 <= index < outcomes.len()
    &&& outcomes[index] == Err::<RuleModel, ConfigError>(fault)
    &&& forall|i: int| 0 <= i < index ==> #[trigger] outcomes[i] is Ok
}

/// Collecting keeps the order and stops at the first fault: the result is
/// every rule, one for each outcome and in their order, if every outcome is
/// a rule, and otherwise the first outcome that is a fault, with its
/// position.
pub proof fn law_every_rule_or_first_fault(outcomes: Seq<Result<RuleModel, ConfigError>>)
    requires
        outcomes.len() <= usize::MAX,
    ensures
        match collected(outcomes) {
            Ok(rules) => all_rules(outcomes, rules),
            Err(LoadError::Rule { index, fault }) => first_fault_at(outcomes, index as int, fault),
            Err(_) => false,
        },
    decreases outcomes.len(),
{
    if outcomes.len() > 0 {
        let front = outcomes.drop_last();
        let last = outcomes.last();
        law_every_rule_or_first_fault(front);
        match collected(front) {
            Ok(rules) => {
                match last {
                    Err(fault) => {
                        let index = outcomes.len() - 1;
                        assert forall|i: int| 0 <= i < index implies #[trigger] outcomes[i]
                            is Ok by {
                            assert(front[i] == outcomes[i]);
                        }
                    },
                    Ok(rule) => {
                        let all = rules.push(rule);
                        assert forall|i: int| 0 <= i < outcomes.len() implies #[trigger] outcomes[i]
                            == Ok::<RuleModel, ConfigError>(all[i]) by {
                            if i < front.len() {
                                assert(front[i] == outcomes[i]);
                            }
                        }
                    },
                }
            },
            Err(LoadError::Rule { index, fault }) => {
                assert(front[index as int] == outcomes[index as int]);
                assert forall|i: int| 0 <= i < index implies #[trigger] outcomes[i] is Ok by {
                    assert(front[i] == outcomes[i]);
                }
            },
            Err(_) => {},
        }
    }
}

/// One fault is enough for the whole list to be refused.
pub proof fn lemma_fault_fails(outcomes: Seq<Result<RuleModel, ConfigError>>, i: int)
    requires
        0 <= i < outcomes.len(),
        outcomes[i] is Err,
    ensures
        collected(outcomes) is Err,
    decreases outcomes.len(),
{
    let front = outcomes.drop_last();
    if i < front.len() {
        assert(front[i] == outcomes[i]);
        lemma_fault_fails(front, i);
    }
}

/// An entry of the `forwarders` list that has no text under `local`, none
/// under `remote`, or something under `enable_tcp` that is no boolean, has a
/// fault.
pub proof fn law_invalid_entry_has_a_fault(node: YamlModel)
    requires
        !(has_key(node, "local"@) && member_of(node, "local"@) is Text) || !(has_key(
            node,
            "remote"@,
        ) && member_of(node, "remote"@) is Text) || (has_key(node, "enable_tcp"@) && !(member_of(
            node,
            "enable_tcp"@,
        ) is Flag)),
    ensures
        validated(raw_rule_of(node)) is Err,
{
}

/// Documents with an entry that has a fault yield no rules at all: reading
/// them ends in an error.
pub proof fn law_invalid_configuration_is_rejected(docs: Seq<YamlModel>, i: int)
    requires
        docs.len() > 0,
        member_of(docs[0], "forwarders"@) matches YamlModel::List(items) && 0 <= i < items.len()
            && validated(raw_rule_of(items[i])) is Err,
    ensures
        configured(docs) is Err,
{
    let items = member_of(docs[0], "forwarders"@)->List_0;
    let raws = items.map_values(|n: YamlModel| raw_rule_of(n));
    let outcomes = raws.map_values(|raw: RawRuleModel| validated(raw));
    assert(outcomes[i] == validated(raw_rule_of(items[i])));
    lemma_fault_fails(outcomes, i);
}

impl ForwardSessionConfig {
    /// Builds a rule from one entry of the `forwarders` list.
    pub fn from(yaml: &Yaml) -> (r: Result<ForwardSessionConfig, ConfigError>)
        ensures
            match r {
                Ok(rule) => validated(raw_rule_of(yaml_value(*yaml))) == Ok::<
                    RuleModel,
                    ConfigError,
                >(rule@) && rule.wf(),
                Err(e) => validated(raw_rule_of(yaml_value(*yaml))) == Err::<
                    RuleModel,
                    ConfigError,
                >(e),
            },
    {
        let raw = raw_rule(yaml);
        ForwardSessionConfig::from_fields(&raw)
    }
}

/// Reads the rules that parsed documents hold.
pub fn rules_of_documents(docs: &Vec<Yaml>) -> (r: Result<
    Option<Vec<ForwardSessionConfig>>,
    LoadError,
>)
    ensures
        loaded_model(r) == configured(yaml_values(docs@)),
        r matches Ok(Some(rules)) ==> forall|i: int|
            0 <= i < rules.len() ==> (#[trigger] rules[i]).wf(),
{
    if docs.len() == 0 {
        return Ok(None);
    }
    let items = match as_items(member(&docs[0], "forwarders")) {
        Some(items) => items,
        None => return Err(LoadError::ForwardersNotList),
    };
    let n: usize = items.len();
    let mut raws: Vec<RawRule> = Vec::new();
    let mut i: usize = 0;
    while i < n
        invariant
            n == items.len(),
            0 <= i <= n,
            raws@.len() == i,
            forall|j: int|
                0 <= j < i ==> (#[trigger] raws@[j])@ == raw_rule_of(yaml_values(items@)[j]),
        decreases n - i,
    {
        raws.push(raw_rule(&items[i]));
        i = i + 1;
    }
    assert(raw_models(raws@) =~= yaml_values(items@).map_values(|n: YamlModel| raw_rule_of(n)));
    match rules_from(&raws) {
        Ok(rules) => Ok(Some(rules)),
        Err(e) => Err(e),
    }
}

/// Says why a text is not handed to the parser, if it is not.
pub fn refusal(text: &str) -> (r: Option<LoadError>)
    ensures
        r == refusal_of(text@),
{
    let chars = chars_of(text);
    if !has_short_lines(&chars, MAX_LINE_LENGTH) {
        return Some(LoadError::LineTooLong);
    }
    let brackets = count_char(&chars, '[');
    let braces = count_char(&chars, '{');
    if brackets > MAX_FLOW_OPENERS || braces > MAX_FLOW_OPENERS - brackets {
        return Some(LoadError::TooManyFlowCollections);
    }
    if has_char(&chars, '*') {
        return Some(LoadError::AliasFound);
    }
    None
}

/// Parses a configuration text into its documents, unless the text is one
/// that is not handed to the parser.
pub fn parse_documents(text: &str) -> (r: Result<Vec<Yaml>, LoadError>)
    ensures
        match r {
            Ok(docs) => parsed_of(text@) == Ok::<Seq<YamlModel>, LoadError>(yaml_values(docs@)),
            Err(e) => parsed_of(text@) == Err::<Seq<YamlModel>, LoadError>(e),
        },
{
    match refusal(text) {
        Some(e) => Err(e),
        None => match load_documents(text) {
            Ok(docs) => Ok(docs),
            Err(_) => Err(LoadError::NotYaml),
        },
    }
}

/// Reads the rules of a configuration text.
pub fn load_rules(text: &str) -> (r: Result<Option<Vec<ForwardSessionConfig>>, LoadError>)
    ensures
        loaded_model(r) == loaded_of(text@),
        r matches Ok(Some(rules)) ==> forall|i: int|
            0 <= i < rules.len() ==> (#[trigger] rules[i]).wf(),
{
    match parse_documents(text) {
        Ok(docs) => rules_of_documents(&docs),
        Err(e) => Err(e),
    }
}

} // verus!
