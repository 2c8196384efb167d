//! Project settings: where they are looked for, and what a settings file
//! may hold.
//!
//! The settings file is a TOML document of two optional tables:
//!
//! ```toml
//! [verilog]
//! include_paths = ["inc"]
//! defines = ["WIDTH=8", "DEBUG"]
//!
//! [option]
//! linter = true
//! ```
//!
//! A key that is left out has its default: no paths, no definitions, rule
//! checking switched on. A key that is not listed here, or a value of
//! another type, makes the whole file malformed.

use crate::document::{
    as_flag, as_list, as_text, document_of, member, parse_document, parsed_document, table_keys,
    Document,
};
use crate::paths::{ancestor_paths, join_path, joined_path, path_ancestors};
use crate::rules::{
    all_rules, enable_all_rules, empty_rule_settings, lemma_every_rule, new_linter,
    parse_rule_settings, rule_settings_of, rules_of,
};
use crate::text::str_equal;
use vstd::prelude::*;

verus! {

/// The `[verilog]` table: what the preprocessor is given.
#[derive(Debug, PartialEq, Eq)]
pub struct ConfigVerilog {
    /// Directories searched for included files, relative to the project
    /// root.
    pub include_paths: Vec<String>,
    /// Macro definitions, each `NAME` or `NAME=VALUE`.
    pub defines: Vec<String>,
}

/// The `[option]` table.
#[derive(Debug, PartialEq, Eq)]
pub struct ConfigOption {
    /// Whether the rules are checked.
    pub linter: bool,
}

/// The settings of a project.
#[derive(Debug, PartialEq, Eq)]
pub struct ServerConfig {
    pub verilog: ConfigVerilog,
    pub option: ConfigOption,
}

/// Mathematical value of a [`ServerConfig`].
pub struct ServerConfigView {
    pub include_paths: Seq<Seq<char>>,
    pub defines: Seq<Seq<char>>,
    pub linter: bool,
}

impl View for ServerConfig {
    type V = ServerConfigView;

    open spec fn view(&self) -> ServerConfigView {
        ServerConfigView {
            include_paths: self.verilog.include_paths.deep_view(),
            defines: self.verilog.defines.deep_view(),
            linter: self.option.linter,
        }
    }
}

/// The settings of a project without a settings file.
pub open spec fn default_config() -> ServerConfigView {
    ServerConfigView { include_paths: Seq::empty(), defines: Seq::empty(), linter: true }
}

impl Default for ServerConfig {
    fn default() -> (c: ServerConfig)
        ensures
            c@ == default_config(),
    {
        let c = ServerConfig {
            verilog: ConfigVerilog { include_paths: Vec::new(), defines: Vec::new() },
            option: ConfigOption { linter: true },
        };
        assert(c@.include_paths =~= Seq::empty());
        assert(c@.defines =~= Seq::empty());
        c
    }
}

/// Why settings could not be loaded.
#[derive(Debug, PartialEq, Eq)]
pub enum ConfigError {
    /// The file at this path could not be read.
    Read(String),
    /// The file at this path is malformed.
    Parse(String),
    /// There is no rule settings file.
    Missing,
}

/// Mathematical value of a [`ConfigError`].
pub enum ConfigErrorView {
    Read(Seq<char>),
    Parse(Seq<char>),
    Missing,
}

impl View for ConfigError {
    type V = ConfigErrorView;

    open spec fn view(&self) -> ConfigErrorView {
        match self {
            ConfigError::Read(path) => ConfigErrorView::Read(path@),
            ConfigError::Parse(path) => ConfigErrorView::Parse(path@),
            ConfigError::Missing => ConfigErrorView::Missing,
        }
    }
}

/// The warning that tells a user of `error`.
pub open spec fn message_of(error: ConfigErrorView) -> Seq<char> {
    match error {
        ConfigErrorView::Read(path) => "Failed to read "@ + path + ". Enable all lint rules."@,
        ConfigErrorView::Parse(path) => "Failed to parse "@ + path + ". Enable all lint rules."@,
        ConfigErrorView::Missing => ".svlint.toml is not found. Enable all lint rules."@,
    }
}

impl ConfigError {
    /// The warning shown to the user.
    pub fn message(&self) -> (r: String)
        ensures
            r@ == message_of(self@),
    {
        match self {
            ConfigError::Read(path) => {
                let mut text = "Failed to read ".to_owned();
                text.append(path.as_str());
                text.append(". Enable all lint rules.");
                text
            },
            ConfigError::Parse(path) => {
                let mut text = "Failed to parse ".to_owned();
                text.append(path.as_str());
                text.append(". Enable all lint rules.");
                text
            },
            ConfigError::Missing => ".svlint.toml is not found. Enable all lint rules.".to_owned(),
        }
    }
}

/// A settings file that was found: its path, and its text if it could be
/// read.
#[derive(Debug, PartialEq, Eq)]
pub struct SettingsFile {
    pub path: String,
    pub content: Option<String>,
}

/// Mathematical value of a [`SettingsFile`].
pub struct SettingsFileView {
    pub path: Seq<char>,
    pub content: Option<Seq<char>>,
}

impl View for SettingsFile {
    type V = SettingsFileView;

    open spec fn view(&self) -> SettingsFileView {
        SettingsFileView { path: self.path@, content: self.content.deep_view() }
    }
}

impl DeepView for SettingsFile {
    type V = SettingsFileView;

    open spec fn deep_view(&self) -> SettingsFileView {
        self@
    }
}

/// A place where a settings file may lie, and whether one lies there.
#[derive(Debug, PartialEq, Eq)]
pub struct Candidate {
    pub path: String,
    pub exists: bool,
}

/// The places where the file `config` is looked for from the directory
/// `current`: in `current` itself, then in each directory above it.
pub open spec fn candidates_of(current: Seq<char>, config: Seq<char>) -> Seq<Seq<char>> {
    ancestor_paths(current).map_values(|dir: Seq<char>| joined_path(dir, config))
}

/// Lists the places where `config` is looked for, nearest first.
pub fn config_candidates(current: &str, config: &str) -> (r: Vec<String>)
    ensures
        r.deep_view() == candidates_of(current@, config@),
        r@.len() >= 1,
        r@[0]@ == joined_path(current@, config@),
{
    let dirs = path_ancestors(current);
    let mut out: Vec<String> = Vec::new();
    let mut i: usize = 0;
    while i < dirs.len()
        invariant
            i <= dirs@.len(),
            out@.len() == i,
            forall|j: int| 0 <= j < i ==> out@[j]@ == joined_path(dirs@[j]@, config@),
        decreases dirs@.len() - i,
    {
        out.push(join_path(dirs[i].as_str(), config));
        i += 1;
    }
    assert(dirs.deep_view()[0] == dirs@[0]@);
    assert(out.deep_view() =~= candidates_of(current@, config@));
    out
}

/// Picks the settings file: the first candidate that exists, which is the
/// one nearest to the directory the search started in. `None` where the
/// file exists at no candidate.
pub fn search_config(candidates: &Vec<Candidate>) -> (r: Option<String>)
    ensures
        match r {
            Some(path) => exists|i: int|
                0 <= i < candidates@.len() && candidates@[i].exists && path@
                    == candidates@[i].path@ && forall|j: int| 0 <= j < i ==> !candidates@[j].exists,
            None => forall|i: int| 0 <= i < candidates@.len() ==> !candidates@[i].exists,
        },
{
    let mut i: usize = 0;
    while i < candidates.len()
        invariant
            i <= candidates@.len(),
            forall|j: int| 0 <= j < i ==> !candidates@[j].exists,
        decreases candidates@.len() - i,
    {
        if candidates[i].exists {
            return Some(candidates[i].path.clone());
        }
        i += 1;
    }
    None
}

/// Whether `doc` is a table with no key but `a` and `b`.
pub open spec fn table_of_keys(doc: Document, a: Seq<char>, b: Seq<char>) -> bool {
    doc matches Document::Table(entries) && forall|k: Seq<char>|
        entries.contains_key(k) ==> k == a || k == b
}

/// The entry of table `doc` under `key`, if it has one.
pub open spec fn entry(doc: Document, key: Seq<char>) -> Option<Document> {
    match doc {
        Document::Table(entries) => if entries.contains_key(key) {
            Some(entries[key])
        } else {
            None
        },
        _ => None,
    }
}

/// The strings of `doc`, where it is an array of strings.
pub open spec fn text_list(doc: Document) -> Option<Seq<Seq<char>>> {
    match doc {
        Document::List(items) => if forall|i: int| 0 <= i < items.len() ==> items[i] is Text {
            Some(items.map_values(|item: Document| item->Text_0))
        } else {
            None
        },
        _ => None,
    }
}

/// The string array under `key` of table `doc`: empty where the key is
/// left out, `None` where it holds anything but an array of strings.
pub open spec fn text_list_entry(doc: Document, key: Seq<char>) -> Option<Seq<Seq<char>>> {
    match entry(doc, key) {
        Some(value) => text_list(value),
        None => Some(Seq::empty()),
    }
}

/// What the `[verilog]` table `doc` holds: its include paths and its
/// definitions.
pub open spec fn verilog_of(doc: Document) -> Option<(Seq<Seq<char>>, Seq<Seq<char>>)> {
    if table_of_keys(doc, "include_paths"@, "defines"@) {
        match (text_list_entry(doc, "include_paths"@), text_list_entry(doc, "defines"@)) {
            (Some(include_paths), Some(defines)) => Some((include_paths, defines)),
            _ => None,
        }
    } else {
        None
    }
}

/// What the `[option]` table `doc` holds: whether the rules are checked.
pub open spec fn option_of(doc: Document) -> Option<bool> {
    if table_of_keys(doc, "linter"@, "linter"@) {
        match entry(doc, "linter"@) {
            Some(Document::Flag(linter)) => Some(linter),
            Some(_) => None,
            None => Some(true),
        }
    } else {
        None
    }
}

/// The settings that the document `doc` declares; `None` where it is
/// malformed.
pub open spec fn config_of(doc: Document) -> Option<ServerConfigView> {
    if table_of_keys(doc, "verilog"@, "option"@) {
        let verilog = match entry(doc, "verilog"@) {
            Some(table) => verilog_of(table),
            None => Some((Seq::empty(), Seq::empty())),
        };
        let option = match entry(doc, "option"@) {
            Some(table) => option_of(table),
            None => Some(true),
        };
        match (verilog, option) {
            (Some((include_paths, defines)), Some(linter)) => Some(
                ServerConfigView { include_paths, defines, linter },
            ),
            _ => None,
        }
    } else {
        None
    }
}

/// The document that states the settings `config` in full: both tables,
/// with every key.
pub open spec fn document_for(config: ServerConfigView) -> Document {
    Document::Table(
        map![
            "verilog"@ => Document::Table(
                map![
                    "include_paths"@ => Document::List(
                        config.include_paths.map_values(|p: Seq<char>| Document::Text(p)),
                    ),
                    "defines"@ => Document::List(
                        config.defines.map_values(|d: Seq<char>| Document::Text(d)),
                    ),
                ],
            ),
            "option"@ => Document::Table(map!["linter"@ => Document::Flag(config.linter)]),
        ],
    )
}

/// Settings that are written down in full are read back as they were.
pub proof fn lemma_config_round_trip(config: ServerConfigView)
    ensures
        config_of(document_for(config)) == Some(config),
{
    reveal_strlit("verilog");
    reveal_strlit("option");
    reveal_strlit("include_paths");
    reveal_strlit("defines");
    reveal_strlit("linter");
    assert("verilog"@ != "option"@) by {
        assert("verilog"@.len() != "option"@.len());
    }
    assert("include_paths"@ != "defines"@) by {
        assert("include_paths"@.len() != "defines"@.len());
    }
    let doc = document_for(config);
    let verilog = doc->Table_0["verilog"@];
    let option = doc->Table_0["option"@];
    assert(entry(doc, "verilog"@) == Some(verilog));
    assert(entry(doc, "option"@) == Some(option));
    let paths = verilog->Table_0["include_paths"@];
    let defines = verilog->Table_0["defines"@];
    assert(entry(verilog, "include_paths"@) == Some(paths));
    assert(entry(verilog, "defines"@) == Some(defines));
    assert(text_list(paths) is Some);
    assert(text_list(paths)->0 =~= config.include_paths);
    assert(text_list(defines) is Some);
    assert(text_list(defines)->0 =~= config.defines);
    assert(verilog_of(verilog) == Some((config.include_paths, config.defines)));
    assert(option_of(option) == Some(config.linter));
}

/// A document without any key declares the default settings, and so does
/// one whose two tables are empty.
pub proof fn lemma_config_defaults()
    ensures
        config_of(Document::Table(Map::empty())) == Some(default_config()),
        config_of(
            Document::Table(
                map![
                    "verilog"@ => Document::Table(Map::empty()),
                    "option"@ => Document::Table(Map::empty()),
                ],
            ),
        ) == Some(default_config()),
{
    reveal_strlit("verilog");
    reveal_strlit("option");
    let empty = Document::Table(Map::empty());
    assert(verilog_of(empty) == Some((Seq::<Seq<char>>::empty(), Seq::<Seq<char>>::empty())));
    assert(option_of(empty) == Some(true));
}

/// A key that the settings do not know makes the whole document
/// malformed, at the top as in either table; so does a document that is no
/// table.
pub proof fn lemma_config_unknown_key(entries: Map<Seq<char>, Document>, key: Seq<char>)
    requires
        entries.contains_key(key),
    ensures
        key != "verilog"@ && key != "option"@ ==> config_of(Document::Table(entries)) is None,
        key != "include_paths"@ && key != "defines"@ ==> verilog_of(Document::Table(entries))
            is None,
        key != "linter"@ ==> option_of(Document::Table(entries)) is None,
        config_of(Document::Other) is None,
{
}

/// A table that is malformed makes the whole document malformed.
pub proof fn lemma_config_malformed_table(entries: Map<Seq<char>, Document>)
    ensures
        entries.contains_key("verilog"@) && verilog_of(entries["verilog"@]) is None ==> config_of(
            Document::Table(entries),
        ) is None,
        entries.contains_key("option"@) && option_of(entries["option"@]) is None ==> config_of(
            Document::Table(entries),
        ) is None,
{
}

/// Whether `value` is a table with no key but `a` and `b`.
fn has_only_keys(value: &toml::Value, a: &str, b: &str) -> (r: bool)
    ensures
        r == table_of_keys(document_of(*value), a@, b@),
{
    match table_keys(value) {
        None => false,
        Some(keys) => {
            let mut i: usize = 0;
            while i < keys.len()
                invariant
                    i <= keys@.len(),
                    document_of(*value) matches Document::Table(entries) && forall|k: Seq<char>|
                        entries.contains_key(k) <==> keys.deep_view().contains(k),
                    forall|j: int| 0 <= j < i ==> keys@[j]@ == a@ || keys@[j]@ == b@,
                decreases keys@.len() - i,
            {
                let key = keys[i].as_str();
                if !str_equal(key, a) && !str_equal(key, b) {
                    proof {
                        assert(keys.deep_view()[i as int] == keys@[i as int]@);
                        assert(keys.deep_view().contains(key@));
                    }
                    return false;
                }
                i += 1;
            }
            proof {
                let entries = document_of(*value)->Table_0;
                assert forall|k: Seq<char>| entries.contains_key(k) implies k == a@ || k == b@ by {
                    assert(keys.deep_view().contains(k));
                    let j = choose|j: int| 0 <= j < keys.deep_view().len() && keys.deep_view()[j] == k;
                    assert(keys.deep_view()[j] == keys@[j]@);
                }
            }
            true
        },
    }
}

/// Reads an array of strings.
fn read_text_list(value: &toml::Value) -> (r: Option<Vec<String>>)
    ensures
        r.deep_view() == text_list(document_of(*value)),
{
    match as_list(value) {
        None => None,
        Some(items) => {
            let ghost model = items@.map_values(|v: toml::Value| document_of(v));
            let mut out: Vec<String> = Vec::new();
            let mut i: usize = 0;
            while i < items.len()
                invariant
                    i <= items@.len(),
                    out@.len() == i,
                    document_of(*value) == Document::List(model),
                    model == items@.map_values(|v: toml::Value| document_of(v)),
                    forall|j: int| 0 <= j < i ==> model[j] == Document::Text(out@[j]@),
                decreases items@.len() - i,
            {
                match as_text(&items[i]) {
                    None => {
                        assert(!(model[i as int] is Text));
                        return None;
                    },
                    Some(text) => {
                        out.push(text.to_owned());
                    },
                }
                i += 1;
            }
            assert(out.deep_view() =~= model.map_values(|item: Document| item->Text_0));
            Some(out)
        },
    }
}

/// Reads the string array under `key` of a table.
fn read_text_list_entry(table: &toml::Value, key: &str) -> (r: Option<Vec<String>>)
    ensures
        r.deep_view() == text_list_entry(document_of(*table), key@),
{
    match member(table, key) {
        Some(value) => read_text_list(value),
        None => {
            let out: Vec<String> = Vec::new();
            assert(out.deep_view() =~= Seq::<Seq<char>>::empty());
            Some(out)
        },
    }
}

/// Reads the `[verilog]` table.
fn read_verilog(table: &toml::Value) -> (r: Option<ConfigVerilog>)
    ensures
        match r {
            Some(v) => verilog_of(document_of(*table)) == Some(
                (v.include_paths.deep_view(), v.defines.deep_view()),
            ),
            None => verilog_of(document_of(*table)) is None,
        },
{
    if !has_only_keys(table, "include_paths", "defines") {
        return None;
    }
    let include_paths = read_text_list_entry(table, "include_paths");
    let defines = read_text_list_entry(table, "defines");
    match (include_paths, defines) {
        (Some(include_paths), Some(defines)) => Some(ConfigVerilog { include_paths, defines }),
        _ => None,
    }
}

/// Reads the `[option]` table.
fn read_option(table: &toml::Value) -> (r: Option<ConfigOption>)
    ensures
        match r {
            Some(o) => option_of(document_of(*table)) == Some(o.linter),
            None => option_of(document_of(*table)) is None,
        },
{
    if !has_only_keys(table, "linter", "linter") {
        return None;
    }
    match member(table, "linter") {
        Some(value) => match as_flag(value) {
            Some(linter) => Some(ConfigOption { linter }),
            None => None,
        },
        None => Some(ConfigOption { linter: true }),
    }
}

/// Reads the settings that a parsed document declares.
pub fn read_config(doc: &toml::Value) -> (r: Option<ServerConfig>)
    ensures
        match r {
            Some(c) => config_of(document_of(*doc)) == Some(c@),
            None => config_of(document_of(*doc)) is None,
        },
{
    if !has_only_keys(doc, "verilog", "option") {
        return None;
    }
    let verilog = match member(doc, "verilog") {
        Some(table) => read_verilog(table),
        None => {
            let v = ConfigVerilog { include_paths: Vec::new(), defines: Vec::new() };
            assert(v.include_paths.deep_view() =~= Seq::<Seq<char>>::empty());
            assert(v.defines.deep_view() =~= Seq::<Seq<char>>::empty());
            Some(v)
        },
    };
    let option = match member(doc, "option") {
        Some(table) => read_option(table),
        None => Some(ConfigOption { linter: true }),
    };
    match (verilog, option) {
        (Some(verilog), Some(option)) => Some(ServerConfig { verilog, option }),
        _ => None,
    }
}

/// The settings that a settings file with the text `text` declares.
pub open spec fn config_of_text(text: Seq<char>) -> Option<ServerConfigView> {
    match parsed_document(text) {
        Some(doc) => config_of(doc),
        None => None,
    }
}

/// What loading the project settings gives: the default without a file,
/// `Read` for a file that could not be read, `Parse` for a malformed one,
/// else what the file declares.
pub open spec fn loaded_config(source: Option<SettingsFileView>) -> Result<
    ServerConfigView,
    ConfigErrorView,
> {
    match source {
        None => Ok(default_config()),
        Some(file) => match file.content {
            None => Err(ConfigErrorView::Read(file.path)),
            Some(text) => match config_of_text(text) {
                Some(config) => Ok(config),
                None => Err(ConfigErrorView::Parse(file.path)),
            },
        },
    }
}

/// Loads the project settings from the settings file, if one was found.
pub fn generate_config(source: Option<SettingsFile>) -> (r: Result<ServerConfig, ConfigError>)
    ensures
        match r {
            Ok(config) => loaded_config(source.deep_view()) == Ok::<ServerConfigView, ConfigErrorView>(
                config@,
            ),
            Err(error) => loaded_config(source.deep_view()) == Err::<ServerConfigView, ConfigErrorView>(
                error@,
            ),
        },
{
    match source {
        None => Ok(ServerConfig::default()),
        Some(file) => match file.content {
            None => Err(ConfigError::Read(file.path)),
            Some(text) => match parse_document(text.as_str()) {
                None => Err(ConfigError::Parse(file.path)),
                Some(doc) => match read_config(&doc) {
                    Some(config) => Ok(config),
                    None => Err(ConfigError::Parse(file.path)),
                },
            },
        },
    }
}

/// What loading the rule settings gives: the rules that the file switches
/// on, for a file that the linter accepts; `Missing` without a file, `Read`
/// for a file that could not be read, `Parse` for one that the linter
/// refuses.
pub open spec fn loaded_rules(source: Option<SettingsFileView>) -> Result<
    Set<Seq<char>>,
    ConfigErrorView,
> {
    match source {
        None => Err(ConfigErrorView::Missing),
        Some(file) => match file.content {
            None => Err(ConfigErrorView::Read(file.path)),
            Some(text) => match rule_settings_of(text) {
                Some(rules) => Ok(rules),
                None => Err(ConfigErrorView::Parse(file.path)),
            },
        },
    }
}

/// Makes the linter that the rule settings file asks for: it holds the
/// rules that the file switches on.
pub fn generate_linter(source: Option<SettingsFile>) -> (r: Result<
    svlint::linter::Linter,
    ConfigError,
>)
    ensures
        match r {
            Ok(linter) => loaded_rules(source.deep_view()) == Ok::<
                Set<Seq<char>>,
                ConfigErrorView,
            >(rules_of(linter)),
            Err(error) => loaded_rules(source.deep_view()) == Err::<
                Set<Seq<char>>,
                ConfigErrorView,
            >(error@),
        },
{
    match source {
        None => Err(ConfigError::Missing),
        Some(file) => match file.content {
            None => Err(ConfigError::Read(file.path)),
            Some(text) => match parse_rule_settings(text.as_str()) {
                Some(settings) => Ok(new_linter(settings)),
                None => Err(ConfigError::Parse(file.path)),
            },
        },
    }
}

/// Makes the linter with every rule switched on.
pub(crate) fn default_linter() -> (r: svlint::linter::Linter)
    ensures
        rules_of(r) == all_rules(),
{
    let settings = enable_all_rules(empty_rule_settings());
    proof {
        lemma_every_rule(settings);
    }
    new_linter(settings)
}

} // verus!
