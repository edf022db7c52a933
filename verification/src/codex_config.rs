//! The layered configuration of Codex, as far as the screen shows it.
//!
//! Layers are applied from the system's file to the user's, then from the
//! project root to the working directory, then come the settings that were given
//! for this run.

use vstd::prelude::*;

use crate::codex_system_paths::Platform;
use crate::files::{FileText, FileTextV};
use crate::history_cell::opt_str;
use crate::paths::{join, joined};
use crate::reasoning_status::opt_text;
use crate::skills_discovery::{
    default_markers, default_project_root_markers, repo_dirs_between_project_root_and_cwd,
    root_position,
};
use crate::text;
use crate::toml_doc::{
    array_strings, copy_inline_value, doc_entries, document_text, duplicate_document,
    empty_document, entry_of, inline_keys, is_plain, item_value, keys_of, lemma_entry_at,
    lemma_nested_alike, lemma_without_entry,
    lemma_with_entry, lemma_with_entry_twice, lemma_with_new_entry, nested_entry,
    parse_toml, reads_alike, set_empty_table, set_table_text, strings_of, table_entries,
    remove_key, table_keys, toml_parse, with_entry, without_entry, TomlV,
};
use crate::width::{is_control, is_printable_ascii};

verus! {

/// How much the model reasons.
#[derive(Clone, Copy, PartialEq, Eq, Structural, Debug)]
pub enum ReasoningEffort {
    Off,
    Minimal,
    Low,
    Medium,
    High,
    XHigh,
}

/// How requests are served.
#[derive(Clone, Copy, PartialEq, Eq, Structural, Debug)]
pub enum CodexServiceTier {
    Fast,
    Flex,
}

/// What kind of error it is.
#[derive(Clone, Copy, PartialEq, Eq, Structural, Debug)]
pub enum ErrorKind {
    InvalidData,
    InvalidInput,
    NotFound,
    /// What the system gave when it failed.
    System,
}

/// Why a configuration cannot be used.
#[derive(Debug)]
pub struct ConfigError {
    pub kind: ErrorKind,
    pub message: String,
}

/// What a [`ConfigError`] is.
#[verifier::ext_equal]
pub struct ErrorV {
    pub kind: ErrorKind,
    pub message: Seq<char>,
}

impl View for ConfigError {
    type V = ErrorV;

    open spec fn view(&self) -> ErrorV {
        ErrorV { kind: self.kind, message: self.message@ }
    }
}

/// What a configuration says about the model.
#[derive(Debug)]
pub struct CodexModelSettings {
    pub model: Option<String>,
    pub reasoning_effort: Option<ReasoningEffort>,
    pub service_tier: Option<CodexServiceTier>,
    pub fast_mode_enabled: Option<bool>,
}

/// What a [`CodexModelSettings`] is.
#[verifier::ext_equal]
pub struct SettingsV {
    pub model: Option<Seq<char>>,
    pub reasoning_effort: Option<ReasoningEffort>,
    pub service_tier: Option<CodexServiceTier>,
    pub fast_mode_enabled: Option<bool>,
}

impl SettingsV {
    /// Settings that say nothing.
    pub open spec fn none() -> SettingsV {
        SettingsV {
            model: None,
            reasoning_effort: None,
            service_tier: None,
            fast_mode_enabled: None,
        }
    }
}

impl View for CodexModelSettings {
    type V = SettingsV;

    open spec fn view(&self) -> SettingsV {
        SettingsV {
            model: opt_text(self.model),
            reasoning_effort: self.reasoning_effort,
            service_tier: self.service_tier,
            fast_mode_enabled: self.fast_mode_enabled,
        }
    }
}

impl CodexModelSettings {
    /// Settings that say nothing.
    pub fn new() -> (r: Self)
        ensures
            r@ == SettingsV::none(),
    {
        CodexModelSettings {
            model: None,
            reasoning_effort: None,
            service_tier: None,
            fast_mode_enabled: None,
        }
    }

    fn duplicate(&self) -> (r: Self)
        ensures
            r@ == self@,
    {
        CodexModelSettings {
            model: match &self.model {
                Some(m) => Some(m.clone()),
                None => None,
            },
            reasoning_effort: self.reasoning_effort,
            service_tier: self.service_tier,
            fast_mode_enabled: self.fast_mode_enabled,
        }
    }
}

/// A profile of a configuration.
#[derive(Debug)]
pub struct CodexProfile {
    pub name: String,
    pub settings: CodexModelSettings,
}

/// The profiles of a configuration, by name.
pub open spec fn profiles_view(profiles: Seq<CodexProfile>) -> Seq<(Seq<char>, SettingsV)> {
    profiles.map_values(|p: CodexProfile| (p.name@, p.settings@))
}

/// The settings of the profile `name`.
pub open spec fn profile_of(profiles: Seq<(Seq<char>, SettingsV)>, name: Seq<char>) -> Option<
    SettingsV,
>
    decreases profiles.len(),
{
    if profiles.len() == 0 {
        None
    } else if profiles[0].0 == name {
        Some(profiles[0].1)
    } else {
        profile_of(profiles.drop_first(), name)
    }
}

/// `profiles` with `settings` for the profile `name`.
pub open spec fn with_profile(
    profiles: Seq<(Seq<char>, SettingsV)>,
    name: Seq<char>,
    settings: SettingsV,
) -> Seq<(Seq<char>, SettingsV)>
    decreases profiles.len(),
{
    if profiles.len() == 0 {
        seq![(name, settings)]
    } else if profiles[0].0 == name {
        seq![(name, settings)] + profiles.drop_first()
    } else {
        seq![profiles[0]] + with_profile(profiles.drop_first(), name, settings)
    }
}

/// Setting a profile changes that profile and no other.
pub proof fn lemma_with_profile(
    profiles: Seq<(Seq<char>, SettingsV)>,
    name: Seq<char>,
    settings: SettingsV,
    other: Seq<char>,
)
    ensures
        profile_of(with_profile(profiles, name, settings), other) == if other == name {
            Some(settings)
        } else {
            profile_of(profiles, other)
        },
    decreases profiles.len(),
{
    let all = with_profile(profiles, name, settings);
    if profiles.len() == 0 {
        assert(all.drop_first() =~= profiles);
    } else if profiles[0].0 == name {
        assert(all.drop_first() =~= profiles.drop_first());
    } else {
        lemma_with_profile(profiles.drop_first(), name, settings, other);
        assert(all.drop_first() =~= with_profile(profiles.drop_first(), name, settings));
    }
}

/// What the layers of a configuration say.
#[derive(Debug)]
pub struct CodexConfig {
    pub settings: CodexModelSettings,
    pub profile: Option<String>,
    pub profiles: Vec<CodexProfile>,
    pub project_root_markers: Option<Vec<String>>,
    pub tui_theme: Option<String>,
}

/// What a [`CodexConfig`] is.
#[verifier::ext_equal]
pub struct ConfigV {
    pub settings: SettingsV,
    pub profile: Option<Seq<char>>,
    pub profiles: Seq<(Seq<char>, SettingsV)>,
    pub project_root_markers: Option<Seq<Seq<char>>>,
    pub tui_theme: Option<Seq<char>>,
}

impl ConfigV {
    /// A configuration that says nothing.
    pub open spec fn none() -> ConfigV {
        ConfigV {
            settings: SettingsV::none(),
            profile: None,
            profiles: seq![],
            project_root_markers: None,
            tui_theme: None,
        }
    }
}

/// What a list of texts is, where there is one.
pub open spec fn opt_texts(v: Option<Vec<String>>) -> Option<Seq<Seq<char>>> {
    match v {
        Some(list) => Some(text::texts(list@)),
        None => None,
    }
}

impl View for CodexConfig {
    type V = ConfigV;

    open spec fn view(&self) -> ConfigV {
        ConfigV {
            settings: self.settings@,
            profile: opt_text(self.profile),
            profiles: profiles_view(self.profiles@),
            project_root_markers: opt_texts(self.project_root_markers),
            tui_theme: opt_text(self.tui_theme),
        }
    }
}

/// What a setting of the wrong type is answered with.
pub open spec fn must_be(field: Seq<char>, what: Seq<char>) -> Seq<char> {
    "config field `"@ + field + "` must be "@ + what
}

/// What a setting with an unknown value is answered with.
pub open spec fn has_invalid_value(field: Seq<char>, raw: Seq<char>) -> Seq<char> {
    "config field `"@ + field + "` has invalid value `"@ + raw + "`"@
}

fn must_be_error(field: &str, what: &str) -> (r: String)
    ensures
        r@ == must_be(field@, what@),
{
    let mut r = text::concat3("config field `", field, "` must be ");
    r.append(what);
    r
}

fn invalid_value_error(field: &str, raw: &str) -> (r: String)
    ensures
        r@ == has_invalid_value(field@, raw@),
{
    let mut r = text::concat3("config field `", field, "` has invalid value `");
    r.append(raw);
    r.append("`");
    r
}

/// The text under `key`: nothing where there is none, an error where something
/// else stands there.
pub open spec fn text_field(
    entries: Seq<(Seq<char>, TomlV)>,
    key: Seq<char>,
    field: Seq<char>,
) -> Result<Option<Seq<char>>, Seq<char>> {
    match entry_of(entries, key) {
        None => Ok(None),
        Some(TomlV::Text(s)) => Ok(Some(s)),
        Some(_) => Err(must_be(field, "a string"@)),
    }
}

/// The reasoning effort that `raw` names.
pub open spec fn effort_named(raw: Seq<char>) -> Option<ReasoningEffort> {
    if raw == "none"@ {
        Some(ReasoningEffort::Off)
    } else if raw == "minimal"@ {
        Some(ReasoningEffort::Minimal)
    } else if raw == "low"@ {
        Some(ReasoningEffort::Low)
    } else if raw == "medium"@ {
        Some(ReasoningEffort::Medium)
    } else if raw == "high"@ {
        Some(ReasoningEffort::High)
    } else if raw == "xhigh"@ {
        Some(ReasoningEffort::XHigh)
    } else {
        None
    }
}

/// The service tier that `raw` names.
pub open spec fn tier_named(raw: Seq<char>) -> Option<CodexServiceTier> {
    if raw == "fast"@ {
        Some(CodexServiceTier::Fast)
    } else if raw == "flex"@ {
        Some(CodexServiceTier::Flex)
    } else {
        None
    }
}

/// The reasoning effort that `value` names.
pub fn parse_reasoning_effort(value: &str) -> (r: Option<ReasoningEffort>)
    ensures
        r == effort_named(value@),
{
    if text::same(value, "none") {
        Some(ReasoningEffort::Off)
    } else if text::same(value, "minimal") {
        Some(ReasoningEffort::Minimal)
    } else if text::same(value, "low") {
        Some(ReasoningEffort::Low)
    } else if text::same(value, "medium") {
        Some(ReasoningEffort::Medium)
    } else if text::same(value, "high") {
        Some(ReasoningEffort::High)
    } else if text::same(value, "xhigh") {
        Some(ReasoningEffort::XHigh)
    } else {
        None
    }
}

/// The service tier that `value` names.
pub fn parse_service_tier(value: &str) -> (r: Option<CodexServiceTier>)
    ensures
        r == tier_named(value@),
{
    if text::same(value, "fast") {
        Some(CodexServiceTier::Fast)
    } else if text::same(value, "flex") {
        Some(CodexServiceTier::Flex)
    } else {
        None
    }
}

/// The reasoning effort under `key`.
pub open spec fn effort_field(
    entries: Seq<(Seq<char>, TomlV)>,
    key: Seq<char>,
    field: Seq<char>,
) -> Result<Option<ReasoningEffort>, Seq<char>> {
    match text_field(entries, key, field) {
        Err(e) => Err(e),
        Ok(None) => Ok(None),
        Ok(Some(raw)) => match effort_named(raw) {
            Some(effort) => Ok(Some(effort)),
            None => Err(has_invalid_value(field, raw)),
        },
    }
}

/// The service tier under `key`.
pub open spec fn tier_field(
    entries: Seq<(Seq<char>, TomlV)>,
    key: Seq<char>,
    field: Seq<char>,
) -> Result<Option<CodexServiceTier>, Seq<char>> {
    match text_field(entries, key, field) {
        Err(e) => Err(e),
        Ok(None) => Ok(None),
        Ok(Some(raw)) => match tier_named(raw) {
            Some(tier) => Ok(Some(tier)),
            None => Err(has_invalid_value(field, raw)),
        },
    }
}

/// The flag `fast_mode` in the table `features`.
pub open spec fn fast_mode_field(
    entries: Seq<(Seq<char>, TomlV)>,
    prefix: Seq<char>,
) -> Result<Option<bool>, Seq<char>> {
    match entry_of(entries, "features"@) {
        None => Ok(None),
        Some(TomlV::Table(features)) => match entry_of(features, "fast_mode"@) {
            None => Ok(None),
            Some(TomlV::Flag(b)) => Ok(Some(b)),
            Some(_) => Err(must_be(prefix + "features.fast_mode"@, "a boolean"@)),
        },
        Some(_) => Err(must_be(prefix + "features"@, "a table"@)),
    }
}

/// The texts of the array under `key`.
pub open spec fn texts_field(
    entries: Seq<(Seq<char>, TomlV)>,
    key: Seq<char>,
    field: Seq<char>,
) -> Result<Option<Seq<Seq<char>>>, Seq<char>> {
    match entry_of(entries, key) {
        None => Ok(None),
        Some(TomlV::Array(values)) => match strings_of(values) {
            Some(list) => Ok(Some(list)),
            None => Err(must_be(field, "an array of strings"@)),
        },
        Some(_) => Err(must_be(field, "an array of strings"@)),
    }
}

/// The text `theme` in the table `tui`.
pub open spec fn theme_field(entries: Seq<(Seq<char>, TomlV)>) -> Result<
    Option<Seq<char>>,
    Seq<char>,
> {
    match entry_of(entries, "tui"@) {
        None => Ok(None),
        Some(TomlV::Table(tui)) => text_field(tui, "theme"@, "tui.theme"@),
        Some(_) => Err(must_be("tui"@, "a table"@)),
    }
}

/// A newer setting, or the one before where there is none.
pub open spec fn newer<T>(newer: Option<T>, before: Option<T>) -> Option<T> {
    match newer {
        Some(x) => Some(x),
        None => before,
    }
}

/// `before` with the model settings of `entries`, whose fields are named behind
/// `prefix`. The first setting that is wrong is the error.
pub open spec fn with_settings(
    before: SettingsV,
    entries: Seq<(Seq<char>, TomlV)>,
    prefix: Seq<char>,
) -> Result<SettingsV, Seq<char>> {
    match text_field(entries, "model"@, prefix + "model"@) {
        Err(e) => Err(e),
        Ok(model) => match effort_field(
            entries,
            "model_reasoning_effort"@,
            prefix + "model_reasoning_effort"@,
        ) {
            Err(e) => Err(e),
            Ok(effort) => match tier_field(
                entries,
                "service_tier"@,
                prefix + "service_tier"@,
            ) {
                Err(e) => Err(e),
                Ok(tier) => match fast_mode_field(entries, prefix) {
                    Err(e) => Err(e),
                    Ok(fast) => Ok(
                        SettingsV {
                            model: newer(model, before.model),
                            reasoning_effort: newer(effort, before.reasoning_effort),
                            service_tier: newer(tier, before.service_tier),
                            fast_mode_enabled: newer(fast, before.fast_mode_enabled),
                        },
                    ),
                },
            },
        },
    }
}

fn read_text(table: &toml_edit::Table, key: &str, field: &str) -> (r: Result<Option<String>, String>)
    ensures
        match r {
            Ok(v) => text_field(table_entries(*table), key@, field@) == Ok::<
                Option<Seq<char>>,
                Seq<char>,
            >(opt_text(v)),
            Err(e) => text_field(table_entries(*table), key@, field@) == Err::<
                Option<Seq<char>>,
                Seq<char>,
            >(e@),
        },
{
    match table.get(key) {
        None => Ok(None),
        Some(item) => {
            if let Some(value) = item.as_value() {
                if let Some(s) = value.as_str() {
                    return Ok(Some(s.to_string()));
                }
            }
            Err(must_be_error(field, "a string"))
        },
    }
}

fn read_reasoning_effort(table: &toml_edit::Table, key: &str, field: &str) -> (r: Result<
    Option<ReasoningEffort>,
    String,
>)
    ensures
        match r {
            Ok(v) => effort_field(table_entries(*table), key@, field@) == Ok::<
                Option<ReasoningEffort>,
                Seq<char>,
            >(v),
            Err(e) => effort_field(table_entries(*table), key@, field@) == Err::<
                Option<ReasoningEffort>,
                Seq<char>,
            >(e@),
        },
{
    match read_text(table, key, field) {
        Err(e) => Err(e),
        Ok(None) => Ok(None),
        Ok(Some(raw)) => match parse_reasoning_effort(raw.as_str()) {
            Some(effort) => Ok(Some(effort)),
            None => Err(invalid_value_error(field, raw.as_str())),
        },
    }
}

fn read_service_tier(table: &toml_edit::Table, key: &str, field: &str) -> (r: Result<
    Option<CodexServiceTier>,
    String,
>)
    ensures
        match r {
            Ok(v) => tier_field(table_entries(*table), key@, field@) == Ok::<
                Option<CodexServiceTier>,
                Seq<char>,
            >(v),
            Err(e) => tier_field(table_entries(*table), key@, field@) == Err::<
                Option<CodexServiceTier>,
                Seq<char>,
            >(e@),
        },
{
    match read_text(table, key, field) {
        Err(e) => Err(e),
        Ok(None) => Ok(None),
        Ok(Some(raw)) => match parse_service_tier(raw.as_str()) {
            Some(tier) => Ok(Some(tier)),
            None => Err(invalid_value_error(field, raw.as_str())),
        },
    }
}

fn read_fast_mode(table: &toml_edit::Table, prefix: &str) -> (r: Result<Option<bool>, String>)
    ensures
        match r {
            Ok(v) => fast_mode_field(table_entries(*table), prefix@) == Ok::<
                Option<bool>,
                Seq<char>,
            >(v),
            Err(e) => fast_mode_field(table_entries(*table), prefix@) == Err::<
                Option<bool>,
                Seq<char>,
            >(e@),
        },
{
    match table.get("features") {
        None => Ok(None),
        Some(item) => match item.as_table() {
            None => Err(
                must_be_error(text::concat(prefix, "features").as_str(), "a table"),
            ),
            Some(features) => match features.get("fast_mode") {
                None => Ok(None),
                Some(flag) => {
                    if let Some(value) = flag.as_value() {
                        if let Some(b) = value.as_bool() {
                            return Ok(Some(b));
                        }
                    }
                    Err(
                        must_be_error(
                            text::concat(prefix, "features.fast_mode").as_str(),
                            "a boolean",
                        ),
                    )
                },
            },
        },
    }
}

fn read_string_array(table: &toml_edit::Table, key: &str, field: &str) -> (r: Result<
    Option<Vec<String>>,
    String,
>)
    ensures
        match r {
            Ok(v) => texts_field(table_entries(*table), key@, field@) == Ok::<
                Option<Seq<Seq<char>>>,
                Seq<char>,
            >(opt_texts(v)),
            Err(e) => texts_field(table_entries(*table), key@, field@) == Err::<
                Option<Seq<Seq<char>>>,
                Seq<char>,
            >(e@),
        },
{
    match table.get(key) {
        None => Ok(None),
        Some(item) => {
            if let Some(array) = item.as_array() {
                if let Some(list) = array_strings(array) {
                    return Ok(Some(list));
                }
            }
            Err(must_be_error(field, "an array of strings"))
        },
    }
}

fn read_theme(table: &toml_edit::Table) -> (r: Result<Option<String>, String>)
    ensures
        match r {
            Ok(v) => theme_field(table_entries(*table)) == Ok::<Option<Seq<char>>, Seq<char>>(
                opt_text(v),
            ),
            Err(e) => theme_field(table_entries(*table)) == Err::<Option<Seq<char>>, Seq<char>>(e@),
        },
{
    match table.get("tui") {
        None => Ok(None),
        Some(item) => match item.as_table() {
            Some(tui) => read_text(tui, "theme", "tui.theme"),
            None => Err(must_be_error("tui", "a table")),
        },
    }
}

/// Takes over the model settings of `table`.
fn apply_settings(before: CodexModelSettings, table: &toml_edit::Table, prefix: &str) -> (r: Result<
    CodexModelSettings,
    String,
>)
    ensures
        match r {
            Ok(v) => with_settings(before@, table_entries(*table), prefix@) == Ok::<
                SettingsV,
                Seq<char>,
            >(v@),
            Err(e) => with_settings(before@, table_entries(*table), prefix@) == Err::<
                SettingsV,
                Seq<char>,
            >(e@),
        },
{
    let mut settings = before;
    match read_text(table, "model", text::concat(prefix, "model").as_str()) {
        Err(e) => return Err(e),
        Ok(None) => {},
        Ok(Some(model)) => {
            settings.model = Some(model);
        },
    }
    match read_reasoning_effort(
        table,
        "model_reasoning_effort",
        text::concat(prefix, "model_reasoning_effort").as_str(),
    ) {
        Err(e) => return Err(e),
        Ok(None) => {},
        Ok(Some(effort)) => {
            settings.reasoning_effort = Some(effort);
        },
    }
    match read_service_tier(
        table,
        "service_tier",
        text::concat(prefix, "service_tier").as_str(),
    ) {
        Err(e) => return Err(e),
        Ok(None) => {},
        Ok(Some(tier)) => {
            settings.service_tier = Some(tier);
        },
    }
    match read_fast_mode(table, prefix) {
        Err(e) => return Err(e),
        Ok(None) => {},
        Ok(Some(fast)) => {
            settings.fast_mode_enabled = Some(fast);
        },
    }
    Ok(settings)
}

/// The settings of the profile `name` that `item` changes.
pub open spec fn with_profile_item(
    profiles: Seq<(Seq<char>, SettingsV)>,
    name: Seq<char>,
    item: TomlV,
) -> Result<Seq<(Seq<char>, SettingsV)>, Seq<char>> {
    match item {
        TomlV::Table(entries) => {
            let before = match profile_of(profiles, name) {
                Some(settings) => settings,
                None => SettingsV::none(),
            };
            match with_settings(before, entries, "profiles."@ + name + "."@) {
                Ok(settings) => Ok(with_profile(profiles, name, settings)),
                Err(e) => Err(e),
            }
        },
        _ => Err(must_be("profiles."@ + name, "a table"@)),
    }
}

/// `before` with the profiles of `entries`, one after the other.
pub open spec fn with_profiles(
    before: Seq<(Seq<char>, SettingsV)>,
    entries: Seq<(Seq<char>, TomlV)>,
) -> Result<Seq<(Seq<char>, SettingsV)>, Seq<char>>
    decreases entries.len(),
{
    if entries.len() == 0 {
        Ok(before)
    } else {
        match with_profiles(before, entries.drop_last()) {
            Ok(profiles) => with_profile_item(profiles, entries.last().0, entries.last().1),
            Err(e) => Err(e),
        }
    }
}

/// `before` with the profiles of a layer.
pub open spec fn with_layer_profiles(
    before: Seq<(Seq<char>, SettingsV)>,
    entries: Seq<(Seq<char>, TomlV)>,
) -> Result<Seq<(Seq<char>, SettingsV)>, Seq<char>> {
    match entry_of(entries, "profiles"@) {
        None => Ok(before),
        Some(TomlV::Table(profiles)) => with_profiles(before, profiles),
        Some(_) => Err(must_be("profiles"@, "a table"@)),
    }
}

/// `before` with everything that a layer says. The first setting that is wrong
/// is the error.
pub open spec fn with_layer(before: ConfigV, entries: Seq<(Seq<char>, TomlV)>) -> Result<
    ConfigV,
    Seq<char>,
> {
    match with_settings(before.settings, entries, ""@) {
        Err(e) => Err(e),
        Ok(settings) => match text_field(entries, "profile"@, "profile"@) {
            Err(e) => Err(e),
            Ok(profile) => match texts_field(
                entries,
                "project_root_markers"@,
                "project_root_markers"@,
            ) {
                Err(e) => Err(e),
                Ok(markers) => match theme_field(entries) {
                    Err(e) => Err(e),
                    Ok(theme) => match with_layer_profiles(before.profiles, entries) {
                        Err(e) => Err(e),
                        Ok(profiles) => Ok(
                            ConfigV {
                                settings,
                                profile: newer(profile, before.profile),
                                profiles,
                                project_root_markers: newer(markers, before.project_root_markers),
                                tui_theme: newer(theme, before.tui_theme),
                            },
                        ),
                    },
                },
            },
        },
    }
}

/// What a layer says wins over every layer before it: whatever those said, the
/// outcome is the same.
pub proof fn law_later_layer_wins(
    before: ConfigV,
    other: ConfigV,
    entries: Seq<(Seq<char>, TomlV)>,
)
    requires
        with_layer(before, entries) is Ok,
        with_layer(other, entries) is Ok,
    ensures
        entry_of(entries, "model"@) is Some ==> with_layer(before, entries)->Ok_0.settings.model
            == with_layer(other, entries)->Ok_0.settings.model,
        entry_of(entries, "model_reasoning_effort"@) is Some ==> with_layer(
            before,
            entries,
        )->Ok_0.settings.reasoning_effort == with_layer(
            other,
            entries,
        )->Ok_0.settings.reasoning_effort,
        entry_of(entries, "service_tier"@) is Some ==> with_layer(
            before,
            entries,
        )->Ok_0.settings.service_tier == with_layer(other, entries)->Ok_0.settings.service_tier,
        entry_of(entries, "profile"@) is Some ==> with_layer(before, entries)->Ok_0.profile
            == with_layer(other, entries)->Ok_0.profile,
        entry_of(entries, "project_root_markers"@) is Some ==> with_layer(
            before,
            entries,
        )->Ok_0.project_root_markers == with_layer(other, entries)->Ok_0.project_root_markers,
        nested_entry(entries, "tui"@, "theme"@) is Some ==> with_layer(
            before,
            entries,
        )->Ok_0.tui_theme == with_layer(other, entries)->Ok_0.tui_theme,
{
}

/// A layer without entries changes nothing.
pub proof fn law_empty_layer_changes_nothing(before: ConfigV)
    ensures
        with_layer(before, seq![]) == Ok::<ConfigV, Seq<char>>(before),
{
    assert(with_layer(before, seq![])->Ok_0 =~= before);
}

fn profile_position(profiles: &Vec<CodexProfile>, name: &str) -> (r: Option<usize>)
    ensures
        match r {
            Some(i) => {
                &&& i < profiles@.len()
                &&& profiles@[i as int].name@ == name@
                &&& forall|k: int| 0 <= k < i ==> (#[trigger] profiles@[k]).name@ != name@
            },
            None => forall|k: int|
                0 <= k < profiles@.len() ==> (#[trigger] profiles@[k]).name@ != name@,
        },
{
    let mut i: usize = 0;
    while i < profiles.len()
        invariant
            i <= profiles@.len(),
            forall|k: int| 0 <= k < i ==> (#[trigger] profiles@[k]).name@ != name@,
        decreases profiles@.len() - i,
    {
        if text::same(profiles[i].name.as_str(), name) {
            return Some(i);
        }
        i += 1;
    }
    None
}

proof fn lemma_profile_at(profiles: Seq<(Seq<char>, SettingsV)>, name: Seq<char>, i: int)
    requires
        0 <= i < profiles.len(),
        profiles[i].0 == name,
        forall|k: int| 0 <= k < i ==> (#[trigger] profiles[k]).0 != name,
    ensures
        profile_of(profiles, name) == Some(profiles[i].1),
        forall|s: SettingsV| #[trigger]
            with_profile(profiles, name, s) == profiles.update(i, (name, s)),
    decreases profiles.len(),
{
    let rest = profiles.drop_first();
    if i > 0 {
        assert forall|k: int| 0 <= k < i - 1 implies (#[trigger] rest[k]).0 != name by {
            assert(profiles[k + 1].0 != name);
        }
        assert(profiles[0].0 != name);
        lemma_profile_at(rest, name, i - 1);
    }
    assert forall|s: SettingsV| #[trigger]
        with_profile(profiles, name, s) == profiles.update(i, (name, s)) by {
        if i > 0 {
            assert(with_profile(rest, name, s) == rest.update(i - 1, (name, s)));
        }
        assert(with_profile(profiles, name, s) =~= profiles.update(i, (name, s)));
    }
}

proof fn lemma_no_profile(profiles: Seq<(Seq<char>, SettingsV)>, name: Seq<char>)
    requires
        forall|k: int| 0 <= k < profiles.len() ==> (#[trigger] profiles[k]).0 != name,
    ensures
        profile_of(profiles, name) is None,
        forall|s: SettingsV| #[trigger]
            with_profile(profiles, name, s) == profiles.push((name, s)),
    decreases profiles.len(),
{
    let rest = profiles.drop_first();
    if profiles.len() > 0 {
        assert forall|k: int| 0 <= k < rest.len() implies (#[trigger] rest[k]).0 != name by {
            assert(profiles[k + 1].0 != name);
        }
        assert(profiles[0].0 != name);
        lemma_no_profile(rest, name);
    }
    assert forall|s: SettingsV| #[trigger]
        with_profile(profiles, name, s) == profiles.push((name, s)) by {
        if profiles.len() > 0 {
            assert(with_profile(rest, name, s) == rest.push((name, s)));
        }
        assert(with_profile(profiles, name, s) =~= profiles.push((name, s)));
    }
}

fn apply_profile(profiles: Vec<CodexProfile>, name: &str, item: &toml_edit::Item) -> (r: Result<
    Vec<CodexProfile>,
    String,
>)
    ensures
        match r {
            Ok(v) => with_profile_item(profiles_view(profiles@), name@, item_value(*item)) == Ok::<
                Seq<(Seq<char>, SettingsV)>,
                Seq<char>,
            >(profiles_view(v@)),
            Err(e) => with_profile_item(profiles_view(profiles@), name@, item_value(*item))
                == Err::<Seq<(Seq<char>, SettingsV)>, Seq<char>>(e@),
        },
{
    let ghost before = profiles_view(profiles@);
    let mut profiles = profiles;
    let field = text::concat("profiles.", name);
    let table = match item.as_table() {
        Some(table) => table,
        None => return Err(must_be_error(field.as_str(), "a table")),
    };
    let prefix = text::concat(field.as_str(), ".");
    match profile_position(&profiles, name) {
        Some(i) => {
            proof {
                assert(before[i as int] == (profiles@[i as int].name@, profiles@[i as int].settings@));
                assert forall|k: int| 0 <= k < i implies (#[trigger] before[k]).0 != name@ by {
                    assert(profiles@[k].name@ != name@);
                }
                lemma_profile_at(before, name@, i as int);
            }
            let settings = profiles[i].settings.duplicate();
            match apply_settings(settings, table, prefix.as_str()) {
                Ok(settings) => {
                    let ghost s = settings@;
                    profiles.set(i, CodexProfile { name: name.to_string(), settings });
                    assert(profiles_view(profiles@) =~= before.update(i as int, (name@, s)));
                    Ok(profiles)
                },
                Err(e) => Err(e),
            }
        },
        None => {
            proof {
                assert forall|k: int| 0 <= k < before.len() implies (#[trigger] before[k]).0
                    != name@ by {
                    assert(profiles@[k].name@ != name@);
                }
                lemma_no_profile(before, name@);
            }
            match apply_settings(CodexModelSettings::new(), table, prefix.as_str()) {
                Ok(settings) => {
                    let ghost s = settings@;
                    profiles.push(CodexProfile { name: name.to_string(), settings });
                    assert(profiles_view(profiles@) =~= before.push((name@, s)));
                    Ok(profiles)
                },
                Err(e) => Err(e),
            }
        },
    }
}

fn apply_profiles(profiles: Vec<CodexProfile>, table: &toml_edit::Table) -> (r: Result<
    Vec<CodexProfile>,
    String,
>)
    ensures
        match r {
            Ok(v) => with_layer_profiles(profiles_view(profiles@), table_entries(*table)) == Ok::<
                Seq<(Seq<char>, SettingsV)>,
                Seq<char>,
            >(profiles_view(v@)),
            Err(e) => with_layer_profiles(profiles_view(profiles@), table_entries(*table))
                == Err::<Seq<(Seq<char>, SettingsV)>, Seq<char>>(e@),
        },
{
    let ghost before = profiles_view(profiles@);
    let inner = match table.get("profiles") {
        None => return Ok(profiles),
        Some(item) => match item.as_table() {
            Some(inner) => inner,
            None => return Err(must_be_error("profiles", "a table")),
        },
    };
    let keys = table_keys(inner);
    let ghost entries = table_entries(*inner);
    let mut current = profiles;
    let mut i: usize = 0;
    assert(entries.take(0) =~= seq![]);
    assert(keys@.len() == text::texts(keys@).len());
    while i < keys.len()
        invariant
            i <= keys@.len(),
            before == profiles_view(profiles@),
            keys@.len() == entries.len(),
            entries == table_entries(*inner),
            text::texts(keys@) == keys_of(entries),
            keys_of(entries).no_duplicates(),
            with_layer_profiles(before, table_entries(*table)) == with_profiles(before, entries),
            with_profiles(before, entries.take(i as int)) == Ok::<
                Seq<(Seq<char>, SettingsV)>,
                Seq<char>,
            >(profiles_view(current@)),
        decreases keys@.len() - i,
    {
        proof {
            lemma_entry_at(entries, i as int);
            assert(text::texts(keys@)[i as int] == keys_of(entries)[i as int]);
            assert(entries.take(i + 1).drop_last() =~= entries.take(i as int));
        }
        if let Some(item) = inner.get(keys[i].as_str()) {
            match apply_profile(current, keys[i].as_str(), item) {
                Ok(v) => {
                    current = v;
                },
                Err(e) => {
                    proof {
                        lemma_profiles_error(before, entries, i as int);
                    }
                    return Err(e);
                },
            }
        }
        i += 1;
    }
    assert(entries.take(i as int) =~= entries);
    Ok(current)
}

proof fn lemma_profiles_error(
    before: Seq<(Seq<char>, SettingsV)>,
    entries: Seq<(Seq<char>, TomlV)>,
    i: int,
)
    requires
        0 <= i < entries.len(),
        with_profiles(before, entries.take(i + 1)) is Err,
    ensures
        with_profiles(before, entries) == with_profiles(before, entries.take(i + 1)),
    decreases entries.len(),
{
    if i + 1 == entries.len() {
        assert(entries.take(i + 1) =~= entries);
    } else {
        assert(entries.drop_last().take(i + 1) =~= entries.take(i + 1));
        lemma_profiles_error(before, entries.drop_last(), i);
    }
}

fn invalid_data(message: String) -> (r: ConfigError)
    ensures
        r@ == (ErrorV { kind: ErrorKind::InvalidData, message: message@ }),
{
    ConfigError { kind: ErrorKind::InvalidData, message }
}

/// What an error that speaks of the contents is.
pub open spec fn invalid_data_v(message: Seq<char>) -> ErrorV {
    ErrorV { kind: ErrorKind::InvalidData, message }
}

/// The result of a step that fails with a message about the contents.
pub open spec fn or_invalid(r: Result<ConfigV, Seq<char>>) -> Result<ConfigV, ErrorV> {
    match r {
        Ok(config) => Ok(config),
        Err(message) => Err(invalid_data_v(message)),
    }
}

/// What the result of a step is.
pub open spec fn result_view(r: Result<CodexConfig, ConfigError>) -> Result<ConfigV, ErrorV> {
    match r {
        Ok(config) => Ok(config@),
        Err(e) => Err(e@),
    }
}

/// Takes over everything that a layer says.
fn apply_config_layer_from_doc(config: CodexConfig, doc: &toml_edit::DocumentMut) -> (r: Result<
    CodexConfig,
    ConfigError,
>)
    ensures
        result_view(r) == or_invalid(with_layer(config@, doc_entries(*doc))),
{
    let table = doc.as_table();
    let mut config = config;
    let prefix = "";
    let settings = match apply_settings(config.settings, table, prefix) {
        Ok(settings) => settings,
        Err(e) => return Err(invalid_data(e)),
    };
    match read_text(table, "profile", "profile") {
        Err(e) => return Err(invalid_data(e)),
        Ok(None) => {},
        Ok(Some(profile)) => {
            config.profile = Some(profile);
        },
    }
    match read_string_array(table, "project_root_markers", "project_root_markers") {
        Err(e) => return Err(invalid_data(e)),
        Ok(None) => {},
        Ok(Some(markers)) => {
            config.project_root_markers = Some(markers);
        },
    }
    match read_theme(table) {
        Err(e) => return Err(invalid_data(e)),
        Ok(None) => {},
        Ok(Some(theme)) => {
            config.tui_theme = Some(theme);
        },
    }
    let profiles = match apply_profiles(config.profiles, table) {
        Ok(profiles) => profiles,
        Err(e) => return Err(invalid_data(e)),
    };
    Ok(
        CodexConfig {
            settings,
            profile: config.profile,
            profiles,
            project_root_markers: config.project_root_markers,
            tui_theme: config.tui_theme,
        },
    )
}

/// A configuration file and its path.
#[derive(Debug)]
pub struct ConfigFile {
    /// The path; a system without such a file has an empty one.
    pub path: String,
    pub file: FileText,
}

/// What a [`ConfigFile`] is.
#[verifier::ext_equal]
pub struct ConfigFileV {
    pub path: Seq<char>,
    pub file: FileTextV,
}

impl View for ConfigFile {
    type V = ConfigFileV;

    open spec fn view(&self) -> ConfigFileV {
        ConfigFileV { path: self.path@, file: self.file@ }
    }
}

/// What the files of a list are.
pub open spec fn files_view(files: Seq<ConfigFile>) -> Seq<ConfigFileV> {
    files.map_values(|f: ConfigFile| f@)
}

/// `before` with what a file says.
pub open spec fn with_file(before: ConfigV, file: ConfigFileV) -> Result<ConfigV, ErrorV> {
    if file.path.len() == 0 {
        Ok(before)
    } else {
        match file.file {
            FileTextV::Missing => Ok(before),
            FileTextV::Failed(e) => Err(
                ErrorV {
                    kind: ErrorKind::System,
                    message: "Failed to read config file "@ + file.path + ": "@ + e,
                },
            ),
            FileTextV::Contents(contents) => match toml_parse(contents) {
                Err(e) => Err(
                    invalid_data_v("Error parsing config file "@ + file.path + ": "@ + e),
                ),
                Ok(entries) => or_invalid(with_layer(before, entries)),
            },
        }
    }
}

fn about_file(what: &str, path: &str, reason: &str) -> (r: String)
    ensures
        r@ == what@ + path@ + ": "@ + reason@,
{
    let mut r = text::concat3(what, path, ": ");
    r.append(reason);
    r
}

/// Takes over what a configuration file says.
pub fn apply_config_layer_from_file(config: CodexConfig, file: &ConfigFile) -> (r: Result<
    CodexConfig,
    ConfigError,
>)
    ensures
        result_view(r) == with_file(config@, file@),
{
    if file.path.as_str().is_empty() {
        assert(file.path@.len() == 0);
        return Ok(config);
    }
    match &file.file {
        FileText::Missing => Ok(config),
        FileText::Failed(e) => Err(
            ConfigError {
                kind: ErrorKind::System,
                message: about_file(
                    "Failed to read config file ",
                    file.path.as_str(),
                    e.as_str(),
                ),
            },
        ),
        FileText::Contents(contents) => match parse_toml(contents.as_str()) {
            Err(e) => Err(
                invalid_data(
                    about_file("Error parsing config file ", file.path.as_str(), e.as_str()),
                ),
            ),
            Ok(doc) => apply_config_layer_from_doc(config, &doc),
        },
    }
}

/// `before` with what the files of a list say, one after the other.
pub open spec fn with_files(before: ConfigV, files: Seq<ConfigFileV>) -> Result<ConfigV, ErrorV>
    decreases files.len(),
{
    if files.len() == 0 {
        Ok(before)
    } else {
        match with_files(before, files.drop_last()) {
            Ok(config) => with_file(config, files.last()),
            Err(e) => Err(e),
        }
    }
}

proof fn lemma_files_error(before: ConfigV, files: Seq<ConfigFileV>, i: int)
    requires
        0 <= i <= files.len(),
        with_files(before, files.take(i)) is Err,
    ensures
        with_files(before, files) == with_files(before, files.take(i)),
    decreases files.len(),
{
    if i == files.len() {
        assert(files.take(i) =~= files);
    } else {
        assert(files.drop_last().take(i) =~= files.take(i));
        lemma_files_error(before, files.drop_last(), i);
    }
}

fn apply_files(config: CodexConfig, files: &Vec<ConfigFile>) -> (r: Result<
    CodexConfig,
    ConfigError,
>)
    ensures
        result_view(r) == with_files(config@, files_view(files@)),
{
    let ghost before = config@;
    let ghost all = files_view(files@);
    let mut current = config;
    let mut i: usize = 0;
    assert(all.take(0) =~= seq![]);
    while i < files.len()
        invariant
            i <= files@.len(),
            before == config@,
            all == files_view(files@),
            with_files(before, all.take(i as int)) == Ok::<ConfigV, ErrorV>(current@),
        decreases files@.len() - i,
    {
        assert(all.take(i + 1).drop_last() =~= all.take(i as int));
        match apply_config_layer_from_file(current, &files[i]) {
            Ok(next) => {
                current = next;
            },
            Err(e) => {
                proof {
                    lemma_files_error(before, all, i + 1);
                }
                return Err(e);
            },
        }
        i += 1;
    }
    assert(all.take(i as int) =~= all);
    Ok(current)
}

/// The hexadecimal digit `d`.
pub open spec fn hex_digit(d: int) -> char {
    if d < 10 {
        text::digit(d as nat)
    } else if d == 10 {
        'A'
    } else if d == 11 {
        'B'
    } else if d == 12 {
        'C'
    } else if d == 13 {
        'D'
    } else if d == 14 {
        'E'
    } else {
        'F'
    }
}

/// How a character stands between the quotes of a TOML text.
pub open spec fn escaped(c: char) -> Seq<char> {
    if c == '\\' {
        seq!['\\', '\\']
    } else if c == '"' {
        seq!['\\', '"']
    } else if c == '\u{08}' {
        seq!['\\', 'b']
    } else if c == '\n' {
        seq!['\\', 'n']
    } else if c == '\u{0c}' {
        seq!['\\', 'f']
    } else if c == '\r' {
        seq!['\\', 'r']
    } else if c == '\t' {
        seq!['\\', 't']
    } else if is_control(c) {
        seq!['\\', 'u', '0', '0', hex_digit(c as int / 16), hex_digit(c as int % 16)]
    } else {
        seq![c]
    }
}

/// The characters of `s` as they stand between the quotes of a TOML text.
pub open spec fn escaped_text(s: Seq<char>) -> Seq<char>
    decreases s.len(),
{
    if s.len() == 0 {
        seq![]
    } else {
        escaped_text(s.drop_last()) + escaped(s.last())
    }
}

/// `s` as a TOML text.
pub open spec fn toml_literal(s: Seq<char>) -> Seq<char> {
    seq!['"'] + escaped_text(s) + seq!['"']
}

fn hex_char(d: u32) -> (c: char)
    requires
        d < 16,
    ensures
        c == hex_digit(d as int),
{
    if d < 10 {
        text::digit_char(d as u64)
    } else if d == 10 {
        'A'
    } else if d == 11 {
        'B'
    } else if d == 12 {
        'C'
    } else if d == 13 {
        'D'
    } else if d == 14 {
        'E'
    } else {
        'F'
    }
}

fn push_escaped(out: &mut String, c: char)
    ensures
        final(out)@ == old(out)@ + escaped(c),
{
    let ghost before = out@;
    let n: u32 = c as u32;
    if c == '\\' || c == '"' {
        out.push('\\');
        out.push(c);
    } else if c == '\u{08}' {
        out.push('\\');
        out.push('b');
    } else if c == '\n' {
        out.push('\\');
        out.push('n');
    } else if c == '\u{0c}' {
        out.push('\\');
        out.push('f');
    } else if c == '\r' {
        out.push('\\');
        out.push('r');
    } else if c == '\t' {
        out.push('\\');
        out.push('t');
    } else if n < 0x20 || (0x7f <= n && n < 0xa0) {
        out.push('\\');
        out.push('u');
        out.push('0');
        out.push('0');
        out.push(hex_char(n / 16));
        out.push(hex_char(n % 16));
    } else {
        out.push(c);
    }
    assert(out@ =~= before + escaped(c));
}

/// `input` as a TOML text.
pub fn toml_string_literal(input: &str) -> (r: String)
    ensures
        r@ == toml_literal(input@),
{
    let chars = text::chars_of(input);
    let mut out = String::new();
    out.push('"');
    let mut i: usize = 0;
    assert(chars@.take(0) =~= seq![]);
    assert(out@ =~= seq!['"'] + escaped_text(chars@.take(0)));
    while i < chars.len()
        invariant
            i <= chars@.len(),
            out@ == seq!['"'] + escaped_text(chars@.take(i as int)),
        decreases chars@.len() - i,
    {
        let ghost upto = chars@.take(i + 1);
        assert(upto.drop_last() =~= chars@.take(i as int));
        push_escaped(&mut out, chars[i]);
        assert(out@ =~= seq!['"'] + escaped_text(upto));
        i += 1;
    }
    assert(chars@.take(i as int) =~= input@);
    out.push('"');
    assert(out@ =~= toml_literal(input@));
    out
}

/// The message about the setting `kv` that was given for this run.
pub open spec fn override_error(kv: Seq<char>, what: Seq<char>) -> Seq<char> {
    "config override `"@ + kv + what
}

/// What a setting that was given for this run says: `key=value`, where the value
/// is TOML or else a text without quotes.
pub open spec fn override_entries(kv: Seq<char>) -> Result<Seq<(Seq<char>, TomlV)>, Seq<char>> {
    let n = text::first_index_of(kv, '=') as int;
    let key = text::trim(kv.take(n));
    let raw = text::trim(kv.skip(n + 1));
    if n >= kv.len() {
        Err(override_error(kv, "` must be in key=value form"@))
    } else if key.len() == 0 {
        Err(override_error(kv, "` must have a non-empty key"@))
    } else {
        match toml_parse(key + " = "@ + raw) {
            Ok(entries) => Ok(entries),
            Err(_) => match toml_parse(key + " = "@ + toml_literal(raw)) {
                Ok(entries) => Ok(entries),
                Err(e) => Err(override_error(kv, "` is invalid: "@ + e)),
            },
        }
    }
}

fn override_message(kv: &str, what: &str) -> (r: String)
    ensures
        r@ == override_error(kv@, what@),
{
    text::concat3("config override `", kv, what)
}

/// Reads a setting that was given for this run.
fn parse_runtime_config_override(override_kv: &str) -> (r: Result<toml_edit::DocumentMut, String>)
    ensures
        match r {
            Ok(doc) => override_entries(override_kv@) == Ok::<
                Seq<(Seq<char>, TomlV)>,
                Seq<char>,
            >(doc_entries(doc)),
            Err(e) => override_entries(override_kv@) == Err::<
                Seq<(Seq<char>, TomlV)>,
                Seq<char>,
            >(e@),
        },
{
    let chars = text::chars_of(override_kv);
    assert(chars@.skip(0) =~= chars@);
    let n: usize = text::find_char(&chars, '=', 0);
    proof {
        text::lemma_first_index_of(override_kv@, '=');
    }
    if n >= chars.len() {
        return Err(override_message(override_kv, "` must be in key=value form"));
    }
    let head = text::string_of_range(&chars, 0, n);
    let tail = text::string_of_range(&chars, n + 1, chars.len());
    assert(head@ =~= override_kv@.take(n as int));
    assert(tail@ =~= override_kv@.skip(n + 1));
    let key = head.as_str().trim();
    if key.is_empty() {
        assert(key@.len() == 0);
        return Err(override_message(override_kv, "` must have a non-empty key"));
    }
    let raw = tail.as_str().trim();
    if let Ok(doc) = parse_toml(text::concat3(key, " = ", raw).as_str()) {
        return Ok(doc);
    }
    let literal = toml_string_literal(raw);
    match parse_toml(text::concat3(key, " = ", literal.as_str()).as_str()) {
        Ok(doc) => Ok(doc),
        Err(e) => Err(
            override_message(override_kv, text::concat("` is invalid: ", e.as_str()).as_str()),
        ),
    }
}

/// `before` with a setting that was given for this run.
pub open spec fn with_override(before: ConfigV, kv: Seq<char>) -> Result<ConfigV, ErrorV> {
    match override_entries(kv) {
        Err(e) => Err(invalid_data_v(e)),
        Ok(entries) => or_invalid(with_layer(before, entries)),
    }
}

/// `before` with the settings that were given for this run, one after the other.
pub open spec fn with_overrides(before: ConfigV, kvs: Seq<Seq<char>>) -> Result<ConfigV, ErrorV>
    decreases kvs.len(),
{
    if kvs.len() == 0 {
        Ok(before)
    } else {
        match with_overrides(before, kvs.drop_last()) {
            Ok(config) => with_override(config, kvs.last()),
            Err(e) => Err(e),
        }
    }
}

proof fn lemma_overrides_error(before: ConfigV, kvs: Seq<Seq<char>>, i: int)
    requires
        0 <= i <= kvs.len(),
        with_overrides(before, kvs.take(i)) is Err,
    ensures
        with_overrides(before, kvs) == with_overrides(before, kvs.take(i)),
    decreases kvs.len(),
{
    if i == kvs.len() {
        assert(kvs.take(i) =~= kvs);
    } else {
        assert(kvs.drop_last().take(i) =~= kvs.take(i));
        lemma_overrides_error(before, kvs.drop_last(), i);
    }
}

/// Takes over the settings that were given for this run.
pub fn apply_runtime_config_overrides(config: CodexConfig, overrides: &Vec<String>) -> (r: Result<
    CodexConfig,
    ConfigError,
>)
    ensures
        result_view(r) == with_overrides(config@, text::texts(overrides@)),
{
    let ghost before = config@;
    let ghost all = text::texts(overrides@);
    let mut current = config;
    let mut i: usize = 0;
    assert(all.take(0) =~= seq![]);
    while i < overrides.len()
        invariant
            i <= overrides@.len(),
            before == config@,
            all == text::texts(overrides@),
            with_overrides(before, all.take(i as int)) == Ok::<ConfigV, ErrorV>(current@),
        decreases overrides@.len() - i,
    {
        assert(all.take(i + 1).drop_last() =~= all.take(i as int));
        let next = match parse_runtime_config_override(overrides[i].as_str()) {
            Ok(doc) => apply_config_layer_from_doc(current, &doc),
            Err(e) => Err(invalid_data(e)),
        };
        match next {
            Ok(config) => {
                current = config;
            },
            Err(e) => {
                proof {
                    lemma_overrides_error(before, all, i + 1);
                }
                return Err(e);
            },
        }
        i += 1;
    }
    assert(all.take(i as int) =~= all);
    Ok(current)
}

impl CodexConfig {
    /// A configuration that says nothing.
    pub fn new() -> (r: Self)
        ensures
            r@ == ConfigV::none(),
    {
        let r = CodexConfig {
            settings: CodexModelSettings::new(),
            profile: None,
            profiles: Vec::new(),
            project_root_markers: None,
            tui_theme: None,
        };
        assert(r@ =~= ConfigV::none());
        r
    }

    fn duplicate(&self) -> (r: Self)
        ensures
            r@ == self@,
    {
        let mut profiles: Vec<CodexProfile> = Vec::new();
        let mut i: usize = 0;
        while i < self.profiles.len()
            invariant
                i <= self.profiles@.len(),
                profiles_view(profiles@) =~= profiles_view(self.profiles@).take(i as int),
            decreases self.profiles@.len() - i,
        {
            let name = self.profiles[i].name.clone();
            let settings = self.profiles[i].settings.duplicate();
            let ghost before = profiles_view(profiles@);
            profiles.push(CodexProfile { name, settings });
            assert(profiles_view(profiles@) =~= before.push(
                profiles_view(self.profiles@)[i as int],
            ));
            i += 1;
        }
        let project_root_markers = match &self.project_root_markers {
            Some(markers) => Some(duplicate_texts(markers)),
            None => None,
        };
        let r = CodexConfig {
            settings: self.settings.duplicate(),
            profile: match &self.profile {
                Some(name) => Some(name.clone()),
                None => None,
            },
            profiles,
            project_root_markers,
            tui_theme: match &self.tui_theme {
                Some(theme) => Some(theme.clone()),
                None => None,
            },
        };
        assert(r@ =~= self@);
        r
    }
}

fn duplicate_texts(list: &Vec<String>) -> (r: Vec<String>)
    ensures
        text::texts(r@) == text::texts(list@),
{
    let mut r: Vec<String> = Vec::new();
    let mut i: usize = 0;
    while i < list.len()
        invariant
            i <= list@.len(),
            text::texts(r@) =~= text::texts(list@).take(i as int),
        decreases list@.len() - i,
    {
        let ghost before = text::texts(r@);
        r.push(list[i].clone());
        assert(text::texts(r@) =~= before.push(list@[i as int]@));
        i += 1;
    }
    r
}

/// The configuration of the system and the user.
pub open spec fn base_config_v(system: ConfigFileV, user: ConfigFileV) -> Result<ConfigV, ErrorV> {
    match with_file(ConfigV::none(), system) {
        Ok(config) => with_file(config, user),
        Err(e) => Err(e),
    }
}

/// The configuration of the system and the user.
pub fn base_config(system: &ConfigFile, user: &ConfigFile) -> (r: Result<CodexConfig, ConfigError>)
    ensures
        result_view(r) == base_config_v(system@, user@),
{
    match apply_config_layer_from_file(CodexConfig::new(), system) {
        Ok(config) => apply_config_layer_from_file(config, user),
        Err(e) => Err(e),
    }
}

/// The markers of a project root: they come from the system, the user and the
/// settings that were given for this run, since the files of the project are
/// only known once its root is.
pub open spec fn discovery_markers_v(base: ConfigV, overrides: Seq<Seq<char>>) -> Result<
    Seq<Seq<char>>,
    ErrorV,
> {
    match with_overrides(base, overrides) {
        Ok(config) => match config.project_root_markers {
            Some(markers) => Ok(markers),
            None => Ok(default_markers()),
        },
        Err(e) => Err(e),
    }
}

/// The markers of a project root.
pub fn discovery_markers(base: &CodexConfig, overrides: &Vec<String>) -> (r: Result<
    Vec<String>,
    ConfigError,
>)
    ensures
        match r {
            Ok(markers) => discovery_markers_v(base@, text::texts(overrides@)) == Ok::<
                Seq<Seq<char>>,
                ErrorV,
            >(text::texts(markers@)),
            Err(e) => discovery_markers_v(base@, text::texts(overrides@)) == Err::<
                Seq<Seq<char>>,
                ErrorV,
            >(e@),
        },
{
    match apply_runtime_config_overrides(base.duplicate(), overrides) {
        Ok(config) => match config.project_root_markers {
            Some(markers) => Ok(markers),
            None => Ok(default_project_root_markers()),
        },
        Err(e) => Err(e),
    }
}

/// The files that make up a configuration.
#[derive(Debug)]
pub struct ConfigFiles {
    pub system: ConfigFile,
    pub user: ConfigFile,
    /// The files of the project, from its root to the working directory.
    pub project: Vec<ConfigFile>,
}

/// The configuration that holds.
pub open spec fn loaded(
    system: ConfigFileV,
    user: ConfigFileV,
    project: Seq<ConfigFileV>,
    overrides: Seq<Seq<char>>,
) -> Result<ConfigV, ErrorV> {
    match base_config_v(system, user) {
        Err(e) => Err(e),
        Ok(base) => match discovery_markers_v(base, overrides) {
            Err(e) => Err(e),
            Ok(_) => match with_files(base, project) {
                Err(e) => Err(e),
                Ok(config) => with_overrides(config, overrides),
            },
        },
    }
}

/// The configuration that holds.
pub fn load_codex_config(files: &ConfigFiles, overrides: &Vec<String>) -> (r: Result<
    CodexConfig,
    ConfigError,
>)
    ensures
        result_view(r) == loaded(
            files.system@,
            files.user@,
            files_view(files.project@),
            text::texts(overrides@),
        ),
{
    let base = match base_config(&files.system, &files.user) {
        Ok(base) => base,
        Err(e) => return Err(e),
    };
    match discovery_markers(&base, overrides) {
        Ok(_) => {},
        Err(e) => return Err(e),
    }
    match apply_files(base, &files.project) {
        Ok(config) => apply_runtime_config_overrides(config, overrides),
        Err(e) => Err(e),
    }
}

/// What the start screen shows of the model.
#[derive(Debug)]
pub struct ResolvedCodexModelConfig {
    /// The model that is used.
    pub model: String,
    /// How much it reasons, where that is configured.
    pub reasoning_effort: Option<ReasoningEffort>,
    /// Whether it is served fast.
    pub is_fast: bool,
}

/// What a [`ResolvedCodexModelConfig`] is.
#[verifier::ext_equal]
pub struct ResolvedV {
    pub model: Seq<char>,
    pub reasoning_effort: Option<ReasoningEffort>,
    pub is_fast: bool,
}

impl View for ResolvedCodexModelConfig {
    type V = ResolvedV;

    open spec fn view(&self) -> ResolvedV {
        ResolvedV {
            model: self.model@,
            reasoning_effort: self.reasoning_effort,
            is_fast: self.is_fast,
        }
    }
}

/// The model that is used where nothing names one.
pub const DEFAULT_FALLBACK_MODEL: &'static str = "gpt-5.2-codex";

/// The settings of the profile that is selected; none where no profile is, and
/// nothing at all where there is no such profile.
pub open spec fn selected_settings(config: ConfigV) -> Option<SettingsV> {
    match config.profile {
        None => Some(SettingsV::none()),
        Some(name) => profile_of(config.profiles, name),
    }
}

/// What a configuration comes to. The profile that is selected wins over the
/// settings outside of profiles, and what was given for this run wins over both.
pub open spec fn resolved(
    config: ConfigV,
    model_override: Option<Seq<char>>,
    fast_mode_override: Option<bool>,
) -> Result<ResolvedV, ErrorV> {
    match selected_settings(config) {
        None => Err(
            ErrorV {
                kind: ErrorKind::NotFound,
                message: "config profile `"@ + config.profile->0 + "` not found"@,
            },
        ),
        Some(profile) => {
            let model = newer(model_override, newer(profile.model, config.settings.model));
            let tier = newer(profile.service_tier, config.settings.service_tier);
            let fast = newer(
                fast_mode_override,
                newer(profile.fast_mode_enabled, config.settings.fast_mode_enabled),
            );
            Ok(
                ResolvedV {
                    model: match model {
                        Some(m) => m,
                        None => DEFAULT_FALLBACK_MODEL@,
                    },
                    reasoning_effort: newer(
                        profile.reasoning_effort,
                        config.settings.reasoning_effort,
                    ),
                    is_fast: fast != Some(false) && tier == Some(CodexServiceTier::Fast),
                },
            )
        },
    }
}

fn selected_profile(config: &CodexConfig) -> (r: Result<CodexModelSettings, ConfigError>)
    ensures
        match config.profile {
            None => r matches Ok(s) && s@ == SettingsV::none(),
            Some(name) => match profile_of(profiles_view(config.profiles@), name@) {
                Some(settings) => r matches Ok(s) && s@ == settings,
                None => r matches Err(e) && e@ == (ErrorV {
                    kind: ErrorKind::NotFound,
                    message: "config profile `"@ + name@ + "` not found"@,
                }),
            },
        },
{
    let name = match &config.profile {
        None => return Ok(CodexModelSettings::new()),
        Some(name) => name,
    };
    let ghost all = profiles_view(config.profiles@);
    match profile_position(&config.profiles, name.as_str()) {
        Some(i) => {
            proof {
                assert(all[i as int].0 == name@);
                assert forall|k: int| 0 <= k < i implies (#[trigger] all[k]).0 != name@ by {
                    assert(config.profiles@[k].name@ != name@);
                }
                lemma_profile_at(all, name@, i as int);
            }
            Ok(config.profiles[i].settings.duplicate())
        },
        None => {
            proof {
                assert forall|k: int| 0 <= k < all.len() implies (#[trigger] all[k]).0 != name@ by {
                    assert(config.profiles@[k].name@ != name@);
                }
                lemma_no_profile(all, name@);
            }
            Err(
                ConfigError {
                    kind: ErrorKind::NotFound,
                    message: text::concat3("config profile `", name.as_str(), "` not found"),
                },
            )
        },
    }
}

/// What `config` comes to.
pub fn resolve_config(
    config: CodexConfig,
    model_override: Option<&str>,
    fast_mode_override: Option<bool>,
) -> (r: Result<ResolvedCodexModelConfig, ConfigError>)
    ensures
        match r {
            Ok(v) => resolved(config@, opt_str(model_override), fast_mode_override) == Ok::<
                ResolvedV,
                ErrorV,
            >(v@),
            Err(e) => resolved(config@, opt_str(model_override), fast_mode_override) == Err::<
                ResolvedV,
                ErrorV,
            >(e@),
        },
{
    let profile = match selected_profile(&config) {
        Ok(profile) => profile,
        Err(e) => return Err(e),
    };
    let model = match model_override {
        Some(m) => m.to_string(),
        None => match profile.model {
            Some(m) => m,
            None => match config.settings.model {
                Some(m) => m,
                None => DEFAULT_FALLBACK_MODEL.to_string(),
            },
        },
    };
    let reasoning_effort = match profile.reasoning_effort {
        Some(effort) => Some(effort),
        None => config.settings.reasoning_effort,
    };
    let service_tier = match profile.service_tier {
        Some(tier) => Some(tier),
        None => config.settings.service_tier,
    };
    let fast_mode_enabled = match fast_mode_override {
        Some(b) => b,
        None => match profile.fast_mode_enabled {
            Some(b) => b,
            None => match config.settings.fast_mode_enabled {
                Some(b) => b,
                None => true,
            },
        },
    };
    let is_fast = fast_mode_enabled && match service_tier {
        Some(CodexServiceTier::Fast) => true,
        _ => false,
    };
    Ok(ResolvedCodexModelConfig { model, reasoning_effort, is_fast })
}

/// Resolves what the start screen shows of the model, with the settings that
/// were given for this run.
pub fn resolve_codex_model_config_with_runtime_overrides(
    files: &ConfigFiles,
    model_override: Option<&str>,
    runtime_config_overrides: &Vec<String>,
    fast_mode_override: Option<bool>,
) -> (r: Result<ResolvedCodexModelConfig, ConfigError>)
    ensures
        match loaded(
            files.system@,
            files.user@,
            files_view(files.project@),
            text::texts(runtime_config_overrides@),
        ) {
            Err(error) => r matches Err(e) && e@ == error,
            Ok(config) => match resolved(config, opt_str(model_override), fast_mode_override) {
                Err(error) => r matches Err(e) && e@ == error,
                Ok(value) => r matches Ok(v) && v@ == value,
            },
        },
{
    match load_codex_config(files, runtime_config_overrides) {
        Ok(config) => resolve_config(config, model_override, fast_mode_override),
        Err(e) => Err(e),
    }
}

/// Resolves what the start screen shows of the model.
pub fn resolve_codex_model_config(files: &ConfigFiles) -> (r: Result<
    ResolvedCodexModelConfig,
    ConfigError,
>)
    ensures
        match loaded(files.system@, files.user@, files_view(files.project@), seq![]) {
            Err(error) => r matches Err(e) && e@ == error,
            Ok(config) => match resolved(config, None, None) {
                Err(error) => r matches Err(e) && e@ == error,
                Ok(value) => r matches Ok(v) && v@ == value,
            },
        },
{
    let nothing: Vec<String> = Vec::new();
    assert(text::texts(nothing@) =~= seq![]);
    resolve_codex_model_config_with_runtime_overrides(files, None, &nothing, None)
}

/// Resolves the theme of the screen.
pub fn resolve_codex_tui_theme(files: &ConfigFiles) -> (r: Result<Option<String>, ConfigError>)
    ensures
        match loaded(files.system@, files.user@, files_view(files.project@), seq![]) {
            Err(error) => r matches Err(e) && e@ == error,
            Ok(config) => r matches Ok(v) && opt_text(v) == config.tui_theme,
        },
{
    let nothing: Vec<String> = Vec::new();
    assert(text::texts(nothing@) =~= seq![]);
    match load_codex_config(files, &nothing) {
        Ok(config) => Ok(config.tui_theme),
        Err(e) => Err(e),
    }
}

/// What was given for this run wins over the profile, and the profile over the
/// settings outside of profiles; only the profile that is selected counts.
pub proof fn law_order_of_precedence(
    config: ConfigV,
    model_override: Option<Seq<char>>,
    fast: Option<bool>,
)
    requires
        resolved(config, model_override, fast) is Ok,
    ensures
        ({
            let r = resolved(config, model_override, fast)->Ok_0;
            let profile = selected_settings(config)->0;
            let root = config.settings;
            &&& model_override matches Some(m) ==> r.model == m
            &&& model_override is None ==> (profile.model matches Some(m) ==> r.model == m)
            &&& model_override is None && profile.model is None ==> (root.model matches Some(m)
                ==> r.model == m)
            &&& profile.reasoning_effort is Some ==> r.reasoning_effort == profile.reasoning_effort
            &&& profile.reasoning_effort is None ==> r.reasoning_effort == root.reasoning_effort
            &&& fast == Some(false) ==> !r.is_fast
            &&& fast == Some(true) ==> r.is_fast == (newer(
                profile.service_tier,
                root.service_tier,
            ) == Some(CodexServiceTier::Fast))
            &&& fast is None && profile.fast_mode_enabled == Some(false) ==> !r.is_fast
        }),
{
}

/// The entries of a configuration after the theme `name` was chosen. A table in
/// braces gives way to one with a header, which holds the same.
pub open spec fn with_theme(entries: Seq<(Seq<char>, TomlV)>, name: Seq<char>) -> Option<
    Seq<(Seq<char>, TomlV)>,
> {
    match entry_of(entries, "tui"@) {
        None => Some(
            with_entry(
                entries,
                "tui"@,
                TomlV::Table(with_entry(seq![], "theme"@, TomlV::Text(name))),
            ),
        ),
        Some(TomlV::Table(tui)) => Some(
            with_entry(
                entries,
                "tui"@,
                TomlV::Table(with_entry(tui, "theme"@, TomlV::Text(name))),
            ),
        ),
        Some(TomlV::Inline(tui)) => Some(
            with_entry(
                without_entry(entries, "tui"@),
                "tui"@,
                TomlV::Table(with_entry(tui, "theme"@, TomlV::Text(name))),
            ),
        ),
        Some(_) => None,
    }
}

/// Makes the entry `key` of the document a table, keeping what it holds.
fn ensure_table_for_write(doc: &mut toml_edit::DocumentMut, key: &str) -> (r: bool)
    requires
        is_plain(*old(doc)),
    ensures
        is_plain(*final(doc)),
        match entry_of(doc_entries(*old(doc)), key@) {
            None => r && doc_entries(*final(doc)) == with_entry(
                doc_entries(*old(doc)),
                key@,
                TomlV::Table(seq![]),
            ),
            Some(TomlV::Table(_)) => r && doc_entries(*final(doc)) == doc_entries(*old(doc)),
            Some(TomlV::Inline(inner)) => r && doc_entries(*final(doc)) == with_entry(
                without_entry(doc_entries(*old(doc)), key@),
                key@,
                TomlV::Table(inner),
            ),
            Some(_) => !r && doc_entries(*final(doc)) == doc_entries(*old(doc)),
        },
{
    match doc.as_table().get(key) {
        None => {
            set_empty_table(doc, key);
            return true;
        },
        Some(item) => {
            if item.as_table().is_some() {
                return true;
            }
        },
    }
    let keys = match inline_keys(doc, key) {
        Some(keys) => keys,
        None => return false,
    };
    let from = duplicate_document(doc);
    let ghost before = doc_entries(*doc);
    let ghost inner = entry_of(before, key@)->0->Inline_0;
    assert(text::texts(keys@).len() == keys@.len());
    assert(keys_of(inner).len() == inner.len());
    remove_key(doc, key);
    let ghost others = doc_entries(*doc);
    proof {
        lemma_without_entry(before, key@, key@);
    }
    set_empty_table(doc, key);
    let mut i: usize = 0;
    assert(inner.take(0) =~= seq![]);
    while i < keys.len()
        invariant
            i <= keys@.len(),
            keys@.len() == inner.len(),
            is_plain(*doc),
            is_plain(from),
            doc_entries(from) == before,
            entry_of(before, key@) == Some(TomlV::Inline(inner)),
            text::texts(keys@) == keys_of(inner),
            keys_of(inner).no_duplicates(),
            doc_entries(*doc) == with_entry(others, key@, TomlV::Table(inner.take(i as int))),
        decreases keys@.len() - i,
    {
        let ghost done = inner.take(i as int);
        proof {
            lemma_with_entry(others, key@, TomlV::Table(done), key@);
            lemma_entry_at(inner, i as int);
            assert(text::texts(keys@)[i as int] == keys_of(inner)[i as int]);
            assert forall|k: int| 0 <= k < done.len() implies keys_of(done)[k] != inner[i as int].0 by {
                assert(keys_of(done)[k] == keys_of(inner)[k]);
                assert(keys_of(inner)[k] != keys_of(inner)[i as int]);
            }
            lemma_with_new_entry(done, inner[i as int].0, inner[i as int].1);
            assert(inner.take(i + 1) =~= done.push(inner[i as int]));
            lemma_with_entry_twice(
                others,
                key@,
                TomlV::Table(done),
                TomlV::Table(inner.take(i + 1)),
            );
        }
        copy_inline_value(doc, &from, key, keys[i].as_str());
        i += 1;
    }
    assert(inner.take(i as int) =~= inner);
    true
}

/// The text of the configuration file at `config_path` after the theme `name` was
/// chosen, given what it held before. What is printed is read as the entries
/// before with the theme set.
pub fn persist_codex_tui_theme(config_path: &str, serialized: &str, name: &str) -> (r: Result<
    String,
    ConfigError,
>)
    ensures
        ({
            let before = if serialized@.len() == 0 {
                Ok::<Seq<(Seq<char>, TomlV)>, Seq<char>>(seq![])
            } else {
                toml_parse(serialized@)
            };
            match before {
                Err(error) => r matches Err(e) && e@ == invalid_data_v(
                    "Error parsing config file "@ + config_path@ + ": "@ + error,
                ),
                Ok(entries) => match with_theme(entries, name@) {
                    None => r matches Err(e) && e@ == invalid_data_v(must_be("tui"@, "a table"@)),
                    Some(after) => r matches Ok(printed) && match toml_parse(printed@) {
                        Ok(read) => reads_alike(after, read),
                        Err(_) => false,
                    },
                },
            }
        }),
{
    let mut doc = if serialized.is_empty() {
        assert(serialized@.len() == 0);
        empty_document()
    } else {
        match parse_toml(serialized) {
            Ok(doc) => doc,
            Err(e) => return Err(
                invalid_data(about_file("Error parsing config file ", config_path, e.as_str())),
            ),
        }
    };
    let ghost entries = doc_entries(doc);
    if !ensure_table_for_write(&mut doc, "tui") {
        return Err(invalid_data(must_be_error("tui", "a table")));
    }
    let ghost made = doc_entries(doc);
    proof {
        let (others, tui) = match entry_of(entries, "tui"@) {
            Some(TomlV::Table(tui)) => (entries, tui),
            Some(TomlV::Inline(tui)) => (without_entry(entries, "tui"@), tui),
            _ => (entries, Seq::<(Seq<char>, TomlV)>::empty()),
        };
        lemma_with_entry(others, "tui"@, TomlV::Table(tui), "tui"@);
        lemma_with_entry_twice(
            others,
            "tui"@,
            TomlV::Table(tui),
            TomlV::Table(with_entry(tui, "theme"@, TomlV::Text(name@))),
        );
    }
    set_table_text(&mut doc, "tui", "theme", name);
    Ok(document_text(&doc))
}

/// A theme that was chosen is the theme that is read afterwards.
pub proof fn law_chosen_theme_is_read_back(
    entries: Seq<(Seq<char>, TomlV)>,
    read: Seq<(Seq<char>, TomlV)>,
    name: Seq<char>,
)
    requires
        with_theme(entries, name) matches Some(after) && reads_alike(after, read),
    ensures
        theme_field(read) == Ok::<Option<Seq<char>>, Seq<char>>(Some(name)),
{
    let after = with_theme(entries, name)->0;
    let (others, tui) = match entry_of(entries, "tui"@) {
        Some(TomlV::Table(tui)) => (entries, tui),
        Some(TomlV::Inline(tui)) => (without_entry(entries, "tui"@), tui),
        _ => (entries, Seq::<(Seq<char>, TomlV)>::empty()),
    };
    let set = TomlV::Table(with_entry(tui, "theme"@, TomlV::Text(name)));
    lemma_with_entry(others, "tui"@, set, "tui"@);
    lemma_with_entry(tui, "theme"@, TomlV::Text(name), "theme"@);
    assert(nested_entry(after, "tui"@, "theme"@) == Some(TomlV::Text(name)));
    lemma_nested_alike(after, read, "tui"@, "theme"@);
}

/// How `std` writes a string for debugging: between quotes, with escapes.
pub uninterp spec fn debug_form(s: Seq<char>) -> Seq<char>;

/// Formats a `str` with its `Debug`. The result depends on the string alone.
/// Printable ASCII characters other than the double quote and the backslash
/// stand for themselves between two quotes.
#[verifier::external_body]
fn debug_text(s: &str) -> (r: String)
    ensures
        r@ == debug_form(s@),
        s@.all(|c: char| is_printable_ascii(c) && c != '"' && c != '\\') ==> r@ == seq!['"'] + s@
            + seq!['"'],
{
    format!("{s:?}")
}

/// The configuration file for the whole machine: there is one on Unix, and an empty
/// path stands for none.
pub fn default_system_config_path(platform: Platform) -> (r: String)
    ensures
        r@ == if platform == Platform::Unix {
            "/etc/codex/config.toml"@
        } else {
            seq![]
        },
{
    match platform {
        Platform::Unix => "/etc/codex/config.toml".to_string(),
        _ => {
            let r = String::new();
            assert(r@ =~= seq![]);
            r
        },
    }
}

/// What looking for a directory gave.
#[derive(Debug)]
pub enum HomeLookup {
    Missing,
    /// It could not be looked at; what the system says about it.
    Unreadable(String),
    NotADirectory,
    /// It could not be resolved; what the system says about it.
    Unresolved(String),
    Resolved(String),
}

/// A directory that the environment names, and what looking for it gave.
#[derive(Debug)]
pub struct NamedHome {
    pub value: String,
    pub lookup: HomeLookup,
}

/// Where Codex keeps its files. A directory that the environment names must be
/// there; without one it is `.codex` in the home directory of the user.
pub open spec fn codex_home_v(named: Option<NamedHome>, home_dir: Option<Seq<char>>) -> Result<
    Seq<char>,
    ErrorV,
> {
    match named {
        Some(home) if home.value@.len() > 0 => {
            let shown = debug_form(home.value@);
            match home.lookup {
                HomeLookup::Missing => Err(
                    ErrorV {
                        kind: ErrorKind::NotFound,
                        message: "CODEX_HOME points to "@ + shown
                            + ", but that path does not exist"@,
                    },
                ),
                HomeLookup::Unreadable(e) => Err(
                    ErrorV {
                        kind: ErrorKind::System,
                        message: "failed to read CODEX_HOME "@ + shown + ": "@ + e@,
                    },
                ),
                HomeLookup::NotADirectory => Err(
                    ErrorV {
                        kind: ErrorKind::InvalidInput,
                        message: "CODEX_HOME points to "@ + shown
                            + ", but that path is not a directory"@,
                    },
                ),
                HomeLookup::Unresolved(e) => Err(
                    ErrorV {
                        kind: ErrorKind::System,
                        message: "failed to canonicalize CODEX_HOME "@ + shown + ": "@ + e@,
                    },
                ),
                HomeLookup::Resolved(path) => Ok(path@),
            }
        },
        _ => match home_dir {
            Some(home) => Ok(joined(home, ".codex"@)),
            None => Err(
                ErrorV {
                    kind: ErrorKind::NotFound,
                    message: "Could not find home directory"@,
                },
            ),
        },
    }
}

/// Where Codex keeps its files.
pub fn find_codex_home(named: Option<NamedHome>, home_dir: Option<&str>) -> (r: Result<
    String,
    ConfigError,
>)
    ensures
        match r {
            Ok(path) => codex_home_v(named, opt_str(home_dir)) == Ok::<Seq<char>, ErrorV>(path@),
            Err(e) => codex_home_v(named, opt_str(home_dir)) == Err::<Seq<char>, ErrorV>(e@),
        },
{
    if let Some(home) = named {
        if !home.value.as_str().is_empty() {
            let shown = debug_text(home.value.as_str());
            let (kind, message) = match home.lookup {
                HomeLookup::Missing => (
                    ErrorKind::NotFound,
                    text::concat3(
                        "CODEX_HOME points to ",
                        shown.as_str(),
                        ", but that path does not exist",
                    ),
                ),
                HomeLookup::Unreadable(e) => (
                    ErrorKind::System,
                    about_file("failed to read CODEX_HOME ", shown.as_str(), e.as_str()),
                ),
                HomeLookup::NotADirectory => (
                    ErrorKind::InvalidInput,
                    text::concat3(
                        "CODEX_HOME points to ",
                        shown.as_str(),
                        ", but that path is not a directory",
                    ),
                ),
                HomeLookup::Unresolved(e) => (
                    ErrorKind::System,
                    about_file("failed to canonicalize CODEX_HOME ", shown.as_str(), e.as_str()),
                ),
                HomeLookup::Resolved(path) => return Ok(path),
            };
            return Err(ConfigError { kind, message });
        }
        assert(home.value@.len() == 0);
    }
    match home_dir {
        Some(home) => Ok(join(home, ".codex")),
        None => Err(
            ConfigError {
                kind: ErrorKind::NotFound,
                message: "Could not find home directory".to_string(),
            },
        ),
    }
}

/// The directories of a project whose configuration counts, from its root to the
/// working directory. `ancestors` are the working directory and what it lies in;
/// `has_marker` says which of them hold a marker.
pub fn project_dirs_between(
    ancestors: &Vec<String>,
    has_marker: &Vec<bool>,
    markers_empty: bool,
) -> (r: Vec<String>)
    requires
        ancestors@.len() == has_marker@.len(),
        ancestors@.len() > 0,
    ensures
        text::texts(r@) == text::texts(ancestors@).take(
            root_position(has_marker@, markers_empty) + 1,
        ).reverse(),
{
    let dirs = repo_dirs_between_project_root_and_cwd(ancestors, has_marker, markers_empty);
    let ghost all = text::texts(dirs@);
    let mut out: Vec<String> = Vec::new();
    let mut left: usize = dirs.len();
    assert(all.len() == dirs@.len());
    while left > 0
        invariant
            left <= dirs@.len(),
            all == text::texts(dirs@),
            all.len() == dirs@.len(),
            out@.len() == dirs@.len() - left,
            forall|k: int| 0 <= k < out@.len() ==> (#[trigger] out@[k])@ == all[all.len() - 1 - k],
        decreases left,
    {
        left -= 1;
        out.push(dirs[left].clone());
    }
    assert(text::texts(out@) =~= all.reverse());
    out
}

/// The configuration file of a project in `dir`.
pub fn project_config_path(dir: &str) -> (r: String)
    ensures
        r@ == joined(joined(dir@, ".codex"@), "config.toml"@),
{
    join(join(dir, ".codex").as_str(), "config.toml")
}

/// The name under which an effort stands in a configuration.
pub open spec fn effort_name(effort: ReasoningEffort) -> Seq<char> {
    match effort {
        ReasoningEffort::Off => "none"@,
        ReasoningEffort::Minimal => "minimal"@,
        ReasoningEffort::Low => "low"@,
        ReasoningEffort::Medium => "medium"@,
        ReasoningEffort::High => "high"@,
        ReasoningEffort::XHigh => "xhigh"@,
    }
}

/// The name under which a tier stands in a configuration.
pub open spec fn tier_name(tier: CodexServiceTier) -> Seq<char> {
    match tier {
        CodexServiceTier::Fast => "fast"@,
        CodexServiceTier::Flex => "flex"@,
    }
}

/// Reading an effort is the inverse of naming it: every effort is read from its
/// name, no two efforts share a name, and nothing but a name is read.
pub proof fn law_effort_is_read_by_its_name(raw: Seq<char>, effort: ReasoningEffort)
    ensures
        effort_named(effort_name(effort)) == Some(effort),
        (effort_named(raw) == Some(effort)) == (raw == effort_name(effort)),
        effort_named(raw) is None <==> forall|e: ReasoningEffort| raw != #[trigger] effort_name(e),
        forall|e: ReasoningEffort|
            #[trigger] effort_name(e) == effort_name(effort) ==> e == effort,
{
    reveal_strlit("none");
    reveal_strlit("minimal");
    reveal_strlit("low");
    reveal_strlit("medium");
    reveal_strlit("high");
    reveal_strlit("xhigh");
    assert("none"@[0] == 'n' && "low"@[0] == 'l' && "high"@[0] == 'h' && "xhigh"@[0] == 'x');
    assert("minimal"@.len() == 7 && "medium"@.len() == 6);
    assert("minimal"@[0] == 'm' && "medium"@[0] == 'm');
    if effort_named(raw) is None {
        assert forall|e: ReasoningEffort| raw != #[trigger] effort_name(e) by {}
    } else {
        assert(raw == effort_name(effort_named(raw)->0));
    }
}

/// Reading a service tier is the inverse of naming it: every tier is read from its
/// name, and nothing but a name is read.
pub proof fn law_tier_is_read_by_its_name(raw: Seq<char>, tier: CodexServiceTier)
    ensures
        tier_named(tier_name(tier)) == Some(tier),
        (tier_named(raw) == Some(tier)) == (raw == tier_name(tier)),
        tier_named(raw) is None <==> raw != "fast"@ && raw != "flex"@,
{
    reveal_strlit("fast");
    reveal_strlit("flex");
    assert("fast"@[1] == 'a' && "flex"@[1] == 'l');
}

/// What the settings outside of profiles are after a layer was read: a setting
/// that the layer gives is the new one, read from its text, and a setting that it
/// does not give stays.
pub proof fn law_layer_gives_its_settings(
    before: ConfigV,
    entries: Seq<(Seq<char>, TomlV)>,
    text: Seq<char>,
    effort: ReasoningEffort,
    tier: CodexServiceTier,
    flag: bool,
)
    requires
        with_layer(before, entries) is Ok,
    ensures
        ({
            let after = with_layer(before, entries)->Ok_0;
            let model = entry_of(entries, "model"@);
            let reasoning = entry_of(entries, "model_reasoning_effort"@);
            let service = entry_of(entries, "service_tier"@);
            let fast = nested_entry(entries, "features"@, "fast_mode"@);
            let profile = entry_of(entries, "profile"@);
            let theme = nested_entry(entries, "tui"@, "theme"@);
            &&& model is None ==> after.settings.model == before.settings.model
            &&& model == Some(TomlV::Text(text)) ==> after.settings.model == Some(text)
            &&& model is Some ==> model->0 is Text
            &&& reasoning is None ==> after.settings.reasoning_effort
                == before.settings.reasoning_effort
            &&& reasoning == Some(TomlV::Text(effort_name(effort)))
                ==> after.settings.reasoning_effort == Some(effort)
            &&& reasoning is Some ==> exists|e: ReasoningEffort|
                reasoning == Some(TomlV::Text(#[trigger] effort_name(e)))
            &&& service is None ==> after.settings.service_tier == before.settings.service_tier
            &&& service == Some(TomlV::Text(tier_name(tier))) ==> after.settings.service_tier
                == Some(tier)
            &&& service is Some ==> exists|t: CodexServiceTier|
                service == Some(TomlV::Text(#[trigger] tier_name(t)))
            &&& fast is None ==> after.settings.fast_mode_enabled
                == before.settings.fast_mode_enabled
            &&& fast == Some(TomlV::Flag(flag)) ==> after.settings.fast_mode_enabled == Some(flag)
            &&& fast is Some ==> fast->0 is Flag
            &&& profile is None ==> after.profile == before.profile
            &&& profile == Some(TomlV::Text(text)) ==> after.profile == Some(text)
            &&& profile is Some ==> profile->0 is Text
            &&& theme is None ==> after.tui_theme == before.tui_theme
            &&& theme == Some(TomlV::Text(text)) ==> after.tui_theme == Some(text)
            &&& theme is Some ==> theme->0 is Text
            &&& entry_of(entries, "project_root_markers"@) is None ==> after.project_root_markers
                == before.project_root_markers
            &&& entry_of(entries, "profiles"@) is None ==> after.profiles == before.profiles
        }),
{
    law_effort_is_read_by_its_name(effort_name(effort), effort);
    law_tier_is_read_by_its_name(tier_name(tier), tier);
    if let Some(TomlV::Text(raw)) = entry_of(entries, "model_reasoning_effort"@) {
        let e = effort_named(raw)->0;
        law_effort_is_read_by_its_name(raw, e);
        assert(raw == effort_name(e));
    }
    if let Some(TomlV::Text(raw)) = entry_of(entries, "service_tier"@) {
        let t = tier_named(raw)->0;
        law_tier_is_read_by_its_name(raw, t);
        assert(raw == tier_name(t));
    }
}

/// Markers of a project root that a layer gives as a list of texts are the new
/// ones, in their order.
pub proof fn law_layer_gives_its_markers(
    before: ConfigV,
    entries: Seq<(Seq<char>, TomlV)>,
    values: Seq<TomlV>,
    list: Seq<Seq<char>>,
)
    requires
        with_layer(before, entries) is Ok,
        entry_of(entries, "project_root_markers"@) == Some(TomlV::Array(values)),
        values == list.map_values(|t: Seq<char>| TomlV::Text(t)),
    ensures
        with_layer(before, entries)->Ok_0.project_root_markers == Some(list),
{
    lemma_texts_of_values(values, list);
}

proof fn lemma_texts_of_values(values: Seq<TomlV>, list: Seq<Seq<char>>)
    requires
        values == list.map_values(|t: Seq<char>| TomlV::Text(t)),
    ensures
        strings_of(values) == Some(list),
{
    assert(values.all(|v: TomlV| v is Text));
    assert(values.map_values(|v: TomlV| v->Text_0) =~= list);
}

/// A configuration file that is there and can be read and understood.
pub open spec fn reads_as(file: ConfigFileV, entries: Seq<(Seq<char>, TomlV)>) -> bool {
    &&& file.path.len() > 0
    &&& file.file matches FileTextV::Contents(contents) && toml_parse(contents) == Ok::<
        Seq<(Seq<char>, TomlV)>,
        Seq<char>,
    >(entries)
}

/// What the file of the user says of the model is what holds, where no profile is
/// selected and neither the project nor this run says anything: the effort that it
/// names, the model that it names and the tier that it names. Where it names no
/// effort, the file of the system is asked.
pub proof fn law_user_file_is_resolved(
    system: ConfigFileV,
    user: ConfigFileV,
    entries: Seq<(Seq<char>, TomlV)>,
    effort: ReasoningEffort,
    model: Seq<char>,
    tier: CodexServiceTier,
)
    requires
        with_file(ConfigV::none(), system) is Ok,
        reads_as(user, entries),
        with_layer(with_file(ConfigV::none(), system)->Ok_0, entries) is Ok,
        with_layer(with_file(ConfigV::none(), system)->Ok_0, entries)->Ok_0.profile is None,
    ensures
        ({
            let base = with_file(ConfigV::none(), system)->Ok_0;
            let config = loaded(system, user, seq![], seq![]);
            let r = resolved(config->Ok_0, None, None);
            let named = entry_of(entries, "model_reasoning_effort"@);
            &&& config is Ok
            &&& r is Ok
            &&& named == Some(TomlV::Text(effort_name(effort))) ==> r->Ok_0.reasoning_effort
                == Some(effort)
            &&& named is None ==> r->Ok_0.reasoning_effort == base.settings.reasoning_effort
            &&& entry_of(entries, "model"@) == Some(TomlV::Text(model)) ==> r->Ok_0.model == model
            &&& entry_of(entries, "model"@) is None && base.settings.model is None
                ==> r->Ok_0.model == "gpt-5.2-codex"@
            &&& entry_of(entries, "service_tier"@) == Some(TomlV::Text(tier_name(tier)))
                && nested_entry(entries, "features"@, "fast_mode"@) is None
                && base.settings.fast_mode_enabled is None ==> (r->Ok_0.is_fast <==> tier
                == CodexServiceTier::Fast)
            &&& nested_entry(entries, "features"@, "fast_mode"@) == Some(TomlV::Flag(false))
                ==> !r->Ok_0.is_fast
        }),
{
    let base = with_file(ConfigV::none(), system)->Ok_0;
    law_layer_gives_its_settings(base, entries, model, effort, tier, false);
    assert(with_files(with_layer(base, entries)->Ok_0, seq![]) is Ok);
    assert(with_overrides(with_layer(base, entries)->Ok_0, seq![]) is Ok);
}

/// The last file of a project is the last word of the files, and the last setting
/// given for this run is the last word of all: what it says holds, whatever the
/// system, the user, the other files of the project and the earlier settings say.
pub proof fn law_last_word_holds(
    system: ConfigFileV,
    user: ConfigFileV,
    project: Seq<ConfigFileV>,
    overrides: Seq<Seq<char>>,
    last: ConfigFileV,
    kv: Seq<char>,
    entries: Seq<(Seq<char>, TomlV)>,
    model: Seq<char>,
    effort: ReasoningEffort,
)
    ensures
        ({
            let config = loaded(system, user, project.push(last), seq![]);
            config is Ok && reads_as(last, entries) ==> {
                &&& entry_of(entries, "model"@) == Some(TomlV::Text(model))
                    ==> config->Ok_0.settings.model == Some(model)
                &&& entry_of(entries, "model_reasoning_effort"@) == Some(
                    TomlV::Text(effort_name(effort)),
                ) ==> config->Ok_0.settings.reasoning_effort == Some(effort)
            }
        }),
        ({
            let config = loaded(system, user, project, overrides.push(kv));
            config is Ok && override_entries(kv) == Ok::<Seq<(Seq<char>, TomlV)>, Seq<char>>(
                entries,
            ) ==> {
                &&& entry_of(entries, "model"@) == Some(TomlV::Text(model))
                    ==> config->Ok_0.settings.model == Some(model)
                &&& entry_of(entries, "model_reasoning_effort"@) == Some(
                    TomlV::Text(effort_name(effort)),
                ) ==> config->Ok_0.settings.reasoning_effort == Some(effort)
            }
        }),
{
    let tier = CodexServiceTier::Fast;
    if let Ok(base) = base_config_v(system, user) {
        assert(project.push(last).drop_last() =~= project);
        assert(overrides.push(kv).drop_last() =~= overrides);
        if let Ok(before) = with_files(base, project) {
            if with_layer(before, entries) is Ok {
                law_layer_gives_its_settings(before, entries, model, effort, tier, false);
            }
            if let Ok(earlier) = with_overrides(before, overrides) {
                if with_layer(earlier, entries) is Ok {
                    law_layer_gives_its_settings(earlier, entries, model, effort, tier, false);
                }
            }
        }
        assert(with_overrides(with_files(base, project.push(last))->Ok_0, seq![])
            == with_files(base, project.push(last)) || with_files(base, project.push(last)) is Err);
    }
}

/// A file that is not there, and one without a path, says nothing; one that cannot
/// be read, or not understood, is an error that names its path.
pub proof fn law_file_is_read_or_told(before: ConfigV, file: ConfigFileV)
    ensures
        file.path.len() == 0 || file.file is Missing ==> with_file(before, file) == Ok::<
            ConfigV,
            ErrorV,
        >(before),
        file.path.len() > 0 && file.file is Failed ==> with_file(before, file) is Err && with_file(
            before,
            file,
        )->Err_0.kind == ErrorKind::System,
        file.path.len() > 0 && (file.file matches FileTextV::Contents(contents)
            && toml_parse(contents) is Err) ==> with_file(before, file) is Err && with_file(
            before,
            file,
        )->Err_0.kind == ErrorKind::InvalidData,
{
}

/// A profile that a layer describes last has the settings described there, and
/// what was known of it before where the description is silent; the other profiles
/// stay.
pub proof fn law_profile_is_described(
    before: Seq<(Seq<char>, SettingsV)>,
    others: Seq<(Seq<char>, TomlV)>,
    name: Seq<char>,
    fields: Seq<(Seq<char>, TomlV)>,
    other: Seq<char>,
    model: Seq<char>,
    effort: ReasoningEffort,
)
    requires
        with_profiles(before, others.push((name, TomlV::Table(fields)))) is Ok,
        other != name,
    ensures
        ({
            let earlier = with_profiles(before, others)->Ok_0;
            let after = with_profiles(before, others.push((name, TomlV::Table(fields))))->Ok_0;
            &&& with_profiles(before, others) is Ok
            &&& profile_of(after, other) == profile_of(earlier, other)
            &&& profile_of(after, name) is Some
            &&& entry_of(fields, "model"@) == Some(TomlV::Text(model)) ==> profile_of(
                after,
                name,
            )->0.model == Some(model)
            &&& entry_of(fields, "model"@) is None ==> profile_of(after, name)->0.model == (
            match profile_of(earlier, name) {
                Some(known) => known.model,
                None => None,
            })
            &&& entry_of(fields, "model_reasoning_effort"@) == Some(
                TomlV::Text(effort_name(effort)),
            ) ==> profile_of(after, name)->0.reasoning_effort == Some(effort)
        }),
{
    let all = others.push((name, TomlV::Table(fields)));
    assert(all.drop_last() =~= others);
    law_effort_is_read_by_its_name(effort_name(effort), effort);
    if let Ok(earlier) = with_profiles(before, others) {
        let known = match profile_of(earlier, name) {
            Some(settings) => settings,
            None => SettingsV::none(),
        };
        if let Ok(settings) = with_settings(known, fields, "profiles."@ + name + "."@) {
            lemma_with_profile(earlier, name, settings, name);
            lemma_with_profile(earlier, name, settings, other);
        }
    }
}

/// A selected profile that nothing describes is an error; without a selected
/// profile only the settings outside of profiles count, and without a model there
/// the fallback is used. Requests are served fast only for the fast tier, and only
/// where nothing turns that off.
pub proof fn law_resolution(
    config: ConfigV,
    model_override: Option<Seq<char>>,
    fast: Option<bool>,
)
    ensures
        resolved(config, model_override, fast) is Err <==> (config.profile is Some && profile_of(
            config.profiles,
            config.profile->0,
        ) is None),
        resolved(config, model_override, fast) matches Err(e) ==> e.kind == ErrorKind::NotFound,
        config.profile is None ==> ({
            let r = resolved(config, model_override, fast)->Ok_0;
            &&& r.reasoning_effort == config.settings.reasoning_effort
            &&& model_override is None && config.settings.model is None ==> r.model
                == "gpt-5.2-codex"@
            &&& r.is_fast <==> config.settings.service_tier == Some(CodexServiceTier::Fast) && (
            fast == Some(true) || (fast is None && config.settings.fast_mode_enabled != Some(
                false,
            )))
        }),
        config.profile is Some && resolved(config, model_override, fast) is Ok ==> ({
            let r = resolved(config, model_override, fast)->Ok_0;
            let p = profile_of(config.profiles, config.profile->0)->0;
            &&& p.service_tier == Some(CodexServiceTier::Flex) ==> !r.is_fast
            &&& p.service_tier == Some(CodexServiceTier::Fast) && fast == Some(true) ==> r.is_fast
            &&& p.fast_mode_enabled == Some(false) && fast is None ==> !r.is_fast
            &&& p.service_tier == Some(CodexServiceTier::Fast) && p.fast_mode_enabled == Some(true)
                && fast is None ==> r.is_fast
            &&& p.model is None && model_override is None && config.settings.model is None
                ==> r.model == "gpt-5.2-codex"@
        }),
{
}

/// A setting for this run is split at its first equals sign, and whitespace round
/// its parts does not count: the value is read as TOML where it is, and as a text
/// where it is not.
pub proof fn law_override_is_split_at_the_first_equals(key: Seq<char>, value: Seq<char>)
    requires
        !key.contains('='),
    ensures
        ({
            let r = override_entries(key + seq!['='] + value);
            let k = text::trim(key);
            let plain = toml_parse(k + " = "@ + text::trim(value));
            let quoted = toml_parse(k + " = "@ + toml_literal(text::trim(value)));
            &&& k.len() == 0 ==> r is Err
            &&& k.len() > 0 && plain is Ok ==> r == Ok::<Seq<(Seq<char>, TomlV)>, Seq<char>>(
                plain->Ok_0,
            )
            &&& k.len() > 0 && plain is Err && quoted is Ok ==> r == Ok::<
                Seq<(Seq<char>, TomlV)>,
                Seq<char>,
            >(quoted->Ok_0)
            &&& k.len() > 0 && plain is Err && quoted is Err ==> r is Err
        }),
        override_entries(key) is Err,
{
    let kv = key + seq!['='] + value;
    let n = text::first_index_of(kv, '=') as int;
    text::lemma_first_index_of(kv, '=');
    text::lemma_first_index_of(key, '=');
    assert(kv[key.len() as int] == '=');
    assert(forall|i: int| 0 <= i < key.len() ==> #[trigger] kv[i] == key[i]);
    assert forall|i: int| 0 <= i < key.len() implies #[trigger] kv[i] != '=' by {
        assert(key.contains(key[i]));
    }
    assert(n == key.len());
    assert(kv.take(n) =~= key);
    assert(kv.skip(n + 1) =~= value);
}

/// The home of Codex is the directory that the environment names, resolved, where
/// it is there and is a directory; otherwise that is an error. Where the
/// environment names none, it is `.codex` in the home directory.
pub proof fn law_codex_home(named: NamedHome, home: Seq<char>)
    ensures
        codex_home_v(None, Some(home)) == Ok::<Seq<char>, ErrorV>(joined(home, ".codex"@)),
        codex_home_v(None, None) is Err,
        named.value@.len() == 0 ==> codex_home_v(Some(named), Some(home)) == Ok::<
            Seq<char>,
            ErrorV,
        >(joined(home, ".codex"@)),
        named.value@.len() > 0 ==> {
            let r = codex_home_v(Some(named), Some(home));
            &&& r is Ok <==> named.lookup is Resolved
            &&& named.lookup matches HomeLookup::Resolved(path) ==> r->Ok_0 == path@
            &&& named.lookup is Missing ==> r->Err_0.kind == ErrorKind::NotFound
            &&& named.lookup is NotADirectory ==> r->Err_0.kind == ErrorKind::InvalidInput
            &&& named.lookup is Unreadable || named.lookup is Unresolved ==> r->Err_0.kind
                == ErrorKind::System
        },
{
}

/// The character that stands between the quotes of a TOML text as `s`, by the escapes that
/// TOML has.
pub open spec fn unescaped(s: Seq<char>) -> Option<char> {
    if s.len() == 1 && s[0] != '\\' && s[0] != '"' && !is_control(s[0]) {
        Some(s[0])
    } else if s.len() == 2 && s[0] == '\\' {
        match s[1] {
            'b' => Some('\u{08}'),
            't' => Some('\t'),
            'n' => Some('\n'),
            'f' => Some('\u{0c}'),
            'r' => Some('\r'),
            '"' => Some('"'),
            '\\' => Some('\\'),
            _ => None,
        }
    } else {
        None
    }
}

/// Every character stands in a TOML text in a form that reads back as itself: as it is, or
/// behind a backslash, or by its number in hexadecimal digits.
pub proof fn law_escape_reads_back(c: char)
    ensures
        unescaped(escaped(c)) == Some(c) || (is_control(c) && escaped(c).len() == 6
            && escaped(c).take(4) == seq!['\\', 'u', '0', '0'] && crate::ui_colors::hex_pair(
            escaped(c)[4],
            escaped(c)[5],
        ) == Some(c as int)),
{
    if is_control(c) && escaped(c).len() == 6 {
        assert(escaped(c).take(4) =~= seq!['\\', 'u', '0', '0']);
        lemma_hex_digit(c as int / 16);
        lemma_hex_digit(c as int % 16);
    }
}

proof fn lemma_hex_digit(d: int)
    requires
        0 <= d < 16,
    ensures
        crate::ui_colors::hex_value(hex_digit(d)) == Some(d),
{
}

/// A TOML text stands in quotes, and its characters follow each other in between.
pub proof fn law_literal_stands_in_quotes(s: Seq<char>, c: char)
    ensures
        toml_literal(seq![]) == seq!['"', '"'],
        toml_literal(s.push(c)) == seq!['"'] + (escaped_text(s) + escaped(c)) + seq!['"'],
        toml_literal(s) == seq!['"'] + escaped_text(s) + seq!['"'],
{
    assert(toml_literal(seq![]) =~= seq!['"', '"']);
    assert(s.push(c).drop_last() =~= s);
}

} // verus!
