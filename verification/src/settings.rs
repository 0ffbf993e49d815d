//! The settings file: reading a TOML document into validated settings, and writing it back.
use vstd::prelude::*;

use std::path::{Path, PathBuf};

use crate::domain::{
    domain_error_text, layout_check, printer_target_check, AppSettings, DomainErrorView,
    NetworkPrinterTarget, PrintSettings, TextImageLayout, UiLanguage, UiSettings, UiTheme,
    print_settings_check,
    DEFAULT_FONT_FACE_NAME, DEFAULT_FONT_SIZE_PX, DEFAULT_MARGIN_PX, DEFAULT_PAPER_WIDTH_PX,
    DEFAULT_PRINTER_IP, DEFAULT_PRINTER_PORT,
};
use crate::host::{is_decimal_octet, is_ipv4_literal, is_valid_printer_host};
use crate::text::{
    digits_value, split_on, trim_end, trim_start, decimal_digits, decimal_string, ascii_lowercase, ascii_lowercase_chars, chars_of, string_from_chars, str_equal, text_equals,
    trim, trim_chars, trimmed_string,
};

verus! {

pub const CONFIG_PRINTER_SECTION: &'static str = "printer";

pub const CONFIG_LAYOUT_SECTION: &'static str = "layout";

pub const CONFIG_UI_SECTION: &'static str = "ui";

pub const CONFIG_PRINTER_IP_KEY: &'static str = "ip";

pub const CONFIG_PRINTER_PORT_KEY: &'static str = "port";

pub const CONFIG_FONT_SIZE_KEY: &'static str = "font_size_px";

pub const CONFIG_PAPER_WIDTH_KEY: &'static str = "paper_width_px";

pub const CONFIG_MARGIN_KEY: &'static str = "margin_px";

pub const CONFIG_FONT_FACE_KEY: &'static str = "font_face_name";

pub const CONFIG_LEGACY_FONT_FILE_KEY: &'static str = "font_file_name";

pub const CONFIG_UI_THEME_KEY: &'static str = "theme";

pub const CONFIG_UI_LANGUAGE_KEY: &'static str = "language";

pub const CONFIG_UI_THEME_LIGHT: &'static str = "light";

pub const CONFIG_UI_THEME_DARK: &'static str = "dark";

pub const CONFIG_UI_LANGUAGE_ENGLISH: &'static str = "english";

pub const CONFIG_UI_LANGUAGE_KOREAN: &'static str = "korean";

#[verifier::external_type_specification]
#[verifier::external_body]
pub struct ExPath(Path);

#[verifier::external_type_specification]
#[verifier::external_body]
pub struct ExPathBuf(PathBuf);

/// `Clone for PathBuf`: a copy of the path, the same path.
pub assume_specification[ <PathBuf as Clone>::clone ](p: &PathBuf) -> (res: PathBuf)
    ensures
        res == *p,
;

/// The owned path `Path::to_path_buf` gives for `path`.
pub uninterp spec fn path_buf_of(path: &Path) -> PathBuf;

/// `Path::to_path_buf`: an owned copy of `path`, named `path_buf_of(path)`.
#[verifier::external_body]
fn owned_path(path: &Path) -> (r: PathBuf)
    ensures
        r == path_buf_of(path),
{
    path.to_path_buf()
}

/// The directory `Path::parent` gives for `path`, owned; `None` for a path without one.
pub uninterp spec fn path_parent(path: &Path) -> Option<PathBuf>;

/// `Path::parent`, its result copied into a `PathBuf` (named `path_parent(path)`).
#[verifier::external_body]
pub(crate) fn parent_path(path: &Path) -> (r: Option<PathBuf>)
    ensures
        r == path_parent(path),
{
    path.parent().map(|directory| directory.to_path_buf())
}

/// Whether `Path::as_os_str` of `path` is empty.
pub uninterp spec fn path_is_empty(path: PathBuf) -> bool;

/// `OsStr::is_empty` of `path.as_os_str()` (named `path_is_empty(path)`).
#[verifier::external_body]
pub(crate) fn empty_path(path: &PathBuf) -> (r: bool)
    ensures
        r == path_is_empty(*path),
{
    path.as_os_str().is_empty()
}

/// The file stem `Path::file_stem` gives for `path`, as a path of its own; `None` for a path
/// without a file name.
pub uninterp spec fn path_file_stem(path: &Path) -> Option<PathBuf>;

/// `Path::file_stem`, its result turned into a `PathBuf` (named `path_file_stem(path)`).
#[verifier::external_body]
fn file_stem_path(path: &Path) -> (r: Option<PathBuf>)
    ensures
        r == path_file_stem(path),
{
    path.file_stem().map(PathBuf::from)
}

/// The path whose text is that of `path` followed by `suffix`.
pub uninterp spec fn path_with_suffix(path: PathBuf, suffix: Seq<char>) -> PathBuf;

/// `OsString::push` of `suffix` onto the text of `path` (named `path_with_suffix`).
#[verifier::external_body]
fn suffixed_path(path: PathBuf, suffix: &str) -> (r: PathBuf)
    ensures
        r == path_with_suffix(path, suffix@),
{
    let mut text = path.into_os_string();
    text.push(suffix);
    PathBuf::from(text)
}

/// The path `Path::join` gives for `name` under `directory`.
pub uninterp spec fn path_joined(directory: PathBuf, name: PathBuf) -> PathBuf;

/// `Path::join` (named `path_joined`).
#[verifier::external_body]
fn joined_path(directory: &PathBuf, name: &PathBuf) -> (r: PathBuf)
    ensures
        r == path_joined(*directory, *name),
{
    directory.join(name)
}

/// The path `Path::join` gives for the file name `name` under `directory`.
pub uninterp spec fn path_joined_name(directory: PathBuf, name: Seq<char>) -> PathBuf;

/// `Path::join` with a file name given as text (named `path_joined_name`).
#[verifier::external_body]
pub(crate) fn joined_name(directory: &PathBuf, name: &str) -> (r: PathBuf)
    ensures
        r == path_joined_name(*directory, name@),
{
    directory.join(name)
}

/// The extension the settings file gets in place of the executable's.
pub const SETTINGS_FILE_SUFFIX: &'static str = ".toml";

/// The settings file for the executable at `executable_path`: named after the executable's file
/// stem with `.toml` added, in the executable's directory.
pub fn settings_file_path_for_executable(executable_path: &Path) -> (r: Result<
    PathBuf,
    SettingsFileError,
>)
    ensures
        match path_parent(executable_path) {
            None => r == Err::<PathBuf, SettingsFileError>(
                SettingsFileError::ExecutableDirectoryUnavailable {
                    executable_path: path_buf_of(executable_path),
                },
            ),
            Some(directory) => match path_file_stem(executable_path) {
                None => r == Err::<PathBuf, SettingsFileError>(
                    SettingsFileError::ExecutableFileNameUnavailable {
                        executable_path: path_buf_of(executable_path),
                    },
                ),
                Some(stem) => r == Ok::<PathBuf, SettingsFileError>(
                    path_joined(directory, path_with_suffix(stem, SETTINGS_FILE_SUFFIX@)),
                ),
            },
        },
{
    let directory = match parent_path(executable_path) {
        Some(directory) => directory,
        None => {
            return Err(
                SettingsFileError::ExecutableDirectoryUnavailable {
                    executable_path: owned_path(executable_path),
                },
            );
        },
    };
    let stem = match file_stem_path(executable_path) {
        Some(stem) => stem,
        None => {
            return Err(
                SettingsFileError::ExecutableFileNameUnavailable {
                    executable_path: owned_path(executable_path),
                },
            );
        },
    };
    let file_name = suffixed_path(stem, SETTINGS_FILE_SUFFIX);
    Ok(joined_path(&directory, &file_name))
}

/// A string or integer value of the settings file.
#[derive(Debug, Clone, PartialEq, Eq)]
pub enum ConfigScalar {
    Text(String),
    Integer(i64),
}

/// A `ConfigScalar` with its text as a character sequence.
pub enum ConfigScalarView {
    Text(Seq<char>),
    Integer(i64),
}

impl View for ConfigScalar {
    type V = ConfigScalarView;

    open spec fn view(&self) -> ConfigScalarView {
        match self {
            ConfigScalar::Text(text) => ConfigScalarView::Text(text@),
            ConfigScalar::Integer(number) => ConfigScalarView::Integer(*number),
        }
    }
}

/// A value as the settings reader sees it: a string or integer, or `None` for any other kind.
pub open spec fn scalar_option_view(v: Option<ConfigScalar>) -> Option<ConfigScalarView> {
    match v {
        Some(scalar) => Some(scalar@),
        None => None,
    }
}

/// The keys and values of a table.
pub open spec fn entries_view(v: Seq<(String, Option<ConfigScalar>)>) -> Seq<
    (Seq<char>, Option<ConfigScalarView>),
> {
    v.map_values(|e: (String, Option<ConfigScalar>)| (e.0@, scalar_option_view(e.1)))
}

/// A top-level item of the settings document: a table of values, or a value.
#[derive(Debug, Clone, PartialEq, Eq)]
pub enum ConfigItem {
    Value(Option<ConfigScalar>),
    Table(Vec<(String, Option<ConfigScalar>)>),
}

/// A `ConfigItem` with its texts as character sequences.
pub enum ConfigItemView {
    Value(Option<ConfigScalarView>),
    Table(Seq<(Seq<char>, Option<ConfigScalarView>)>),
}

impl View for ConfigItem {
    type V = ConfigItemView;

    open spec fn view(&self) -> ConfigItemView {
        match self {
            ConfigItem::Value(v) => ConfigItemView::Value(scalar_option_view(*v)),
            ConfigItem::Table(entries) => ConfigItemView::Table(entries_view(entries@)),
        }
    }
}

/// A parsed settings document: its top-level keys and items, as the settings reader sees them
/// (nested tables and values other than strings and integers are kept only as "some other
/// value").
#[derive(Debug, Clone, PartialEq, Eq)]
pub struct ConfigDocument {
    pub items: Vec<(String, ConfigItem)>,
}

impl View for ConfigDocument {
    type V = Seq<(Seq<char>, ConfigItemView)>;

    open spec fn view(&self) -> Seq<(Seq<char>, ConfigItemView)> {
        self.items@.map_values(|e: (String, ConfigItem)| (e.0@, e.1@))
    }
}

/// The document that the `toml` crate parses from `contents`, in the settings reader's model,
/// or the text of its parse error.
pub uninterp spec fn toml_document(contents: Seq<char>) -> Result<
    Seq<(Seq<char>, ConfigItemView)>,
    Seq<char>,
>;

/// `str::parse::<toml::Table>` on `contents`, then each top-level entry converted: a table to its
/// entries, strings and integers kept, any other value as `None`. On a parse error, the error's
/// text. The contract names the outcome (`toml_document`) and says nothing more of it.
#[verifier::external_body]
fn parse_toml_document(contents: &str) -> (r: Result<ConfigDocument, String>)
    ensures
        match r {
            Ok(document) => toml_document(contents@) == Ok::<
                Seq<(Seq<char>, ConfigItemView)>,
                Seq<char>,
            >(document@),
            Err(details) => toml_document(contents@) == Err::<
                Seq<(Seq<char>, ConfigItemView)>,
                Seq<char>,
            >(details@),
        },
{
    let scalar = |value: toml::Value| match value {
        toml::Value::String(text) => Some(ConfigScalar::Text(text)),
        toml::Value::Integer(number) => Some(ConfigScalar::Integer(number)),
        _ => None,
    };
    let item = |value: toml::Value| match value {
        toml::Value::Table(t) => ConfigItem::Table(t.into_iter().map(|(k, v)| (k, scalar(v))).collect()),
        other => ConfigItem::Value(scalar(other)),
    };
    match contents.parse::<toml::Table>() {
        Ok(table) => Ok(ConfigDocument { items: table.into_iter().map(|(k, v)| (k, item(v))).collect() }),
        Err(error) => Err(error.to_string()),
    }
}

/// The text the `toml` crate writes for a document of the given tables, or its error's text.
pub uninterp spec fn toml_text(sections: Seq<(Seq<char>, Seq<(Seq<char>, ConfigScalarView)>)>) -> Result<
    Seq<char>,
    Seq<char>,
>;

/// The tables of a document to be written.
pub open spec fn sections_view(v: Seq<(String, Vec<(String, ConfigScalar)>)>) -> Seq<
    (Seq<char>, Seq<(Seq<char>, ConfigScalarView)>),
> {
    v.map_values(
        |section: (String, Vec<(String, ConfigScalar)>)|
            (
                section.0@,
                section.1@.map_values(|e: (String, ConfigScalar)| (e.0@, e.1@)),
            ),
    )
}

/// The value a written section holds under `key`: that of its first entry with the key.
pub open spec fn written_entry(entries: Seq<(Seq<char>, ConfigScalarView)>, key: Seq<char>) -> Option<
    Option<ConfigScalarView>,
>
    decreases entries.len(),
{
    if entries.len() == 0 {
        None
    } else if entries[0].0 == key {
        Some(Some(entries[0].1))
    } else {
        written_entry(entries.drop_first(), key)
    }
}

/// The entries of the first written section named `name`.
pub open spec fn written_section(
    sections: Seq<(Seq<char>, Seq<(Seq<char>, ConfigScalarView)>)>,
    name: Seq<char>,
) -> Option<Seq<(Seq<char>, ConfigScalarView)>>
    decreases sections.len(),
{
    if sections.len() == 0 {
        None
    } else if sections[0].0 == name {
        Some(sections[0].1)
    } else {
        written_section(sections.drop_first(), name)
    }
}

/// Whether no two elements of `s` carry the same name.
pub open spec fn distinct_names<V>(s: Seq<(Seq<char>, V)>) -> bool {
    forall|i: int, j: int| 0 <= i < j < s.len() ==> s[i].0 != s[j].0
}

/// Whether the sections have distinct names and each has distinct keys.
pub open spec fn well_keyed(sections: Seq<(Seq<char>, Seq<(Seq<char>, ConfigScalarView)>)>) -> bool {
    &&& distinct_names(sections)
    &&& forall|i: int| 0 <= i < sections.len() ==> distinct_names(#[trigger] sections[i].1)
}

/// Whether an item found in a parsed document is the section that was written under its name:
/// absent when none was, else a table with the same value under every key.
pub open spec fn section_read_back(
    found: Option<ConfigItemView>,
    written: Option<Seq<(Seq<char>, ConfigScalarView)>>,
) -> bool {
    match written {
        None => found is None,
        Some(entries) => match found {
            Some(ConfigItemView::Table(t)) => forall|key: Seq<char>|
                #[trigger] find_entry(t, key) == written_entry(entries, key),
            _ => false,
        },
    }
}

/// Whether looking up any table, and any key in it, in `doc` finds what `sections` wrote.
pub open spec fn reads_as_sections(
    doc: Seq<(Seq<char>, ConfigItemView)>,
    sections: Seq<(Seq<char>, Seq<(Seq<char>, ConfigScalarView)>)>,
) -> bool {
    forall|name: Seq<char>|
        #[trigger] section_read_back(find_item(doc, name), written_section(sections, name))
}

/// `toml::to_string` on a `toml::Table` holding each section as a table of its entries. The
/// contract names the outcome (`toml_text`). Of a success it states what TOML promises of a
/// document of string and integer tables: parsing the text (with or without one more newline at
/// its end) gives back each table and each value written, under its name and key. That is
/// stated for distinct section names and distinct keys only, where no entry replaces another.
#[verifier::external_body]
fn toml_string_of_sections(sections: &Vec<(String, Vec<(String, ConfigScalar)>)>) -> (r: Result<
    String,
    String,
>)
    requires
        well_keyed(sections_view(sections@)),
    ensures
        r matches Ok(text) ==> (toml_document(text@) matches Ok(doc) && reads_as_sections(
            doc,
            sections_view(sections@),
        )),
        r matches Ok(text) ==> (toml_document(text@.push('\n')) matches Ok(doc)
            && reads_as_sections(doc, sections_view(sections@))),
        match r {
            Ok(text) => toml_text(sections_view(sections@)) == Ok::<Seq<char>, Seq<char>>(text@),
            Err(details) => toml_text(sections_view(sections@)) == Err::<Seq<char>, Seq<char>>(
                details@,
            ),
        },
{
    let value = |v: &ConfigScalar| match v {
        ConfigScalar::Text(text) => toml::Value::String(text.clone()),
        ConfigScalar::Integer(number) => toml::Value::Integer(*number),
    };
    let table: toml::Table = sections.iter().map(|(name, entries)| (name.clone(), toml::Value::Table(
        entries.iter().map(|(k, v)| (k.clone(), value(v))).collect()))).collect();
    toml::to_string(&table).map_err(|error| error.to_string())
}

/// Why the settings file could not be located, read, written or understood.
#[derive(Debug, Clone, PartialEq, Eq)]
pub enum SettingsFileError {
    CurrentExecutablePath { details: String },
    ExecutableDirectoryUnavailable { executable_path: PathBuf },
    ExecutableFileNameUnavailable { executable_path: PathBuf },
    Read { path: PathBuf, details: String },
    Write { path: PathBuf, details: String },
    Serialize { path: PathBuf, details: String },
    Parse { path: PathBuf, details: String },
    InvalidValue { path: PathBuf, field: String },
    InvalidSettings { path: PathBuf, details: String },
}

/// A `SettingsFileError` without its path, texts as character sequences.
pub enum SettingsFileErrorView {
    CurrentExecutablePath { details: Seq<char> },
    ExecutableDirectoryUnavailable,
    ExecutableFileNameUnavailable,
    Read { details: Seq<char> },
    Write { details: Seq<char> },
    Serialize { details: Seq<char> },
    Parse { details: Seq<char> },
    InvalidValue { field: Seq<char> },
    InvalidSettings { details: Seq<char> },
}

impl View for SettingsFileError {
    type V = SettingsFileErrorView;

    open spec fn view(&self) -> SettingsFileErrorView {
        match self {
            SettingsFileError::CurrentExecutablePath { details } =>
                SettingsFileErrorView::CurrentExecutablePath { details: details@ },
            SettingsFileError::ExecutableDirectoryUnavailable { .. } =>
                SettingsFileErrorView::ExecutableDirectoryUnavailable,
            SettingsFileError::ExecutableFileNameUnavailable { .. } =>
                SettingsFileErrorView::ExecutableFileNameUnavailable,
            SettingsFileError::Read { details, .. } => SettingsFileErrorView::Read {
                details: details@,
            },
            SettingsFileError::Write { details, .. } => SettingsFileErrorView::Write {
                details: details@,
            },
            SettingsFileError::Serialize { details, .. } => SettingsFileErrorView::Serialize {
                details: details@,
            },
            SettingsFileError::Parse { details, .. } => SettingsFileErrorView::Parse {
                details: details@,
            },
            SettingsFileError::InvalidValue { field, .. } => SettingsFileErrorView::InvalidValue {
                field: field@,
            },
            SettingsFileError::InvalidSettings { details, .. } =>
                SettingsFileErrorView::InvalidSettings { details: details@ },
        }
    }
}

/// The settings values as plain data.
pub struct AppSettingsModel {
    pub ip: Seq<char>,
    pub port: u16,
    pub font_size_px: u32,
    pub paper_width_px: u32,
    pub margin_px: u32,
    pub font_face_name: Seq<char>,
    pub theme: UiTheme,
    pub language: UiLanguage,
}

impl AppSettings {
    /// These settings as plain data.
    pub open spec fn model(&self) -> AppSettingsModel {
        AppSettingsModel {
            ip: self.print.printer.ip@,
            port: self.print.printer.port,
            font_size_px: self.print.layout.font_size_px,
            paper_width_px: self.print.layout.paper_width_px,
            margin_px: self.print.layout.margin_px,
            font_face_name: self.print.layout.font_face_name@,
            theme: self.ui.theme,
            language: self.ui.language,
        }
    }
}

/// The validation rule on settings given as plain data.
pub open spec fn model_check(m: AppSettingsModel) -> Result<(), DomainErrorView> {
    match printer_target_check(m.ip, m.port) {
        Err(e) => Err(e),
        Ok(()) => layout_check(m.font_size_px, m.paper_width_px, m.margin_px, m.font_face_name),
    }
}

/// The item under `key`, looking from the first entry.
pub open spec fn find_item(items: Seq<(Seq<char>, ConfigItemView)>, key: Seq<char>) -> Option<
    ConfigItemView,
>
    decreases items.len(),
{
    if items.len() == 0 {
        None
    } else if items[0].0 == key {
        Some(items[0].1)
    } else {
        find_item(items.drop_first(), key)
    }
}

/// The value under `key` in a table, looking from the first entry.
pub open spec fn find_entry(entries: Seq<(Seq<char>, Option<ConfigScalarView>)>, key: Seq<char>) -> Option<
    Option<ConfigScalarView>,
>
    decreases entries.len(),
{
    if entries.len() == 0 {
        None
    } else if entries[0].0 == key {
        Some(entries[0].1)
    } else {
        find_entry(entries.drop_first(), key)
    }
}

/// `section.key`, as a field is named in errors.
pub open spec fn field_name_text(section: Seq<char>, key: Seq<char>) -> Seq<char> {
    section + "."@ + key
}

/// The table `name`, if present; the name as the bad field if it is present but not a table.
pub open spec fn section_of(doc: Seq<(Seq<char>, ConfigItemView)>, name: Seq<char>) -> Result<
    Option<Seq<(Seq<char>, Option<ConfigScalarView>)>>,
    Seq<char>,
> {
    match find_item(doc, name) {
        None => Ok(None),
        Some(ConfigItemView::Table(entries)) => Ok(Some(entries)),
        Some(ConfigItemView::Value(_)) => Err(name),
    }
}

/// The string under `key`, if present; the field name if it is present but not a string.
pub open spec fn string_field(
    section: Option<Seq<(Seq<char>, Option<ConfigScalarView>)>>,
    section_name: Seq<char>,
    key: Seq<char>,
) -> Result<Option<Seq<char>>, Seq<char>> {
    match section {
        None => Ok(None),
        Some(entries) => match find_entry(entries, key) {
            None => Ok(None),
            Some(Some(ConfigScalarView::Text(text))) => Ok(Some(text)),
            Some(_) => Err(field_name_text(section_name, key)),
        },
    }
}

/// The integer under `key`, if present and in `0..=max`; the field name if it is present but
/// not such an integer.
pub open spec fn bounded_field(
    section: Option<Seq<(Seq<char>, Option<ConfigScalarView>)>>,
    section_name: Seq<char>,
    key: Seq<char>,
    max: int,
) -> Result<Option<int>, Seq<char>> {
    match section {
        None => Ok(None),
        Some(entries) => match find_entry(entries, key) {
            None => Ok(None),
            Some(Some(ConfigScalarView::Integer(v))) => if 0 <= v <= max {
                Ok(Some(v as int))
            } else {
                Err(field_name_text(section_name, key))
            },
            Some(_) => Err(field_name_text(section_name, key)),
        },
    }
}

/// Whether `c` separates path components (on Windows, where the program runs, `/` and `\`).
pub open spec fn is_path_separator(c: char) -> bool {
    c == '/' || c == '\\'
}

/// `v` without trailing separators.
pub open spec fn strip_trailing_separators(v: Seq<char>) -> Seq<char>
    decreases v.len(),
{
    if v.len() > 0 && is_path_separator(v.last()) {
        strip_trailing_separators(v.drop_last())
    } else {
        v
    }
}

/// The characters after the last separator of `v`.
pub open spec fn final_component(v: Seq<char>) -> Seq<char>
    decreases v.len(),
{
    if v.len() == 0 || is_path_separator(v.last()) {
        Seq::empty()
    } else {
        final_component(v.drop_last()).push(v.last())
    }
}

/// Stripping trailing separators shortens a path, and leaves none at its end.
pub proof fn lemma_strip_trailing_separators(v: Seq<char>)
    ensures
        strip_trailing_separators(v).len() <= v.len(),
        strip_trailing_separators(v).len() > 0 ==> !is_path_separator(
            strip_trailing_separators(v).last(),
        ),
    decreases v.len(),
{
    if v.len() > 0 && is_path_separator(v.last()) {
        lemma_strip_trailing_separators(v.drop_last());
    }
}

/// The file name of the path `v`, as `Path::file_name` gives it: its last component, where a
/// `.` component after another is skipped, and a path that ends in `..`, in a lone `.`, or in
/// no component has none.
pub open spec fn file_name_of(v: Seq<char>) -> Option<Seq<char>>
    decreases v.len(),
{
    let s = strip_trailing_separators(v);
    let c = final_component(s);
    if s.len() > 0 && c == seq!['.'] && 1 < s.len() {
        proof {
            lemma_strip_trailing_separators(v);
        }
        file_name_of(s.drop_last())
    } else if s.len() == 0 || c == seq!['.'] || c == seq!['.', '.'] {
        None
    } else {
        Some(c)
    }
}

/// The index of the last `.` of `v`.
pub open spec fn last_dot(v: Seq<char>) -> Option<int>
    decreases v.len(),
{
    if v.len() == 0 {
        None
    } else if v.last() == '.' {
        Some(v.len() - 1)
    } else {
        last_dot(v.drop_last())
    }
}

/// The extension of a file name, as `Path::extension` defines it: the part after the final `.`,
/// unless there is no `.`, the only `.` starts the name, or the name is `..`.
pub open spec fn extension_of(name: Seq<char>) -> Option<Seq<char>> {
    if name == seq!['.', '.'] {
        None
    } else {
        match last_dot(name) {
            None => None,
            Some(k) => if k == 0 {
                None
            } else {
                Some(name.skip(k + 1))
            },
        }
    }
}

/// Whether a legacy `font_file_name` value names a font file (`.ttf`, `.otf` or `.ttc`, in any
/// ASCII case) rather than a font face.
pub open spec fn looks_like_font_file_name(value: Seq<char>) -> bool {
    match file_name_of(value) {
        Some(name) => match extension_of(name) {
            Some(e) => {
                let lower = ascii_lowercase(e);
                lower == "ttf"@ || lower == "otf"@ || lower == "ttc"@
            },
            None => false,
        },
        None => false,
    }
}

/// The font face from the layout table: `font_face_name`, else a legacy `font_file_name` that
/// is not a font file name (trimmed).
pub open spec fn font_face_field(layout: Option<Seq<(Seq<char>, Option<ConfigScalarView>)>>) -> Result<
    Option<Seq<char>>,
    Seq<char>,
> {
    match string_field(layout, "layout"@, "font_face_name"@) {
        Err(f) => Err(f),
        Ok(Some(face)) => Ok(Some(face)),
        Ok(None) => match string_field(layout, "layout"@, "font_file_name"@) {
            Err(f) => Err(f),
            Ok(None) => Ok(None),
            Ok(Some(value)) => if looks_like_font_file_name(trim(value)) {
                Ok(None)
            } else {
                Ok(Some(trim(value)))
            },
        },
    }
}

/// The theme a settings value names, ignoring surrounding white space and ASCII case.
pub open spec fn theme_from_config_value(value: Seq<char>) -> Option<UiTheme> {
    let v = ascii_lowercase(trim(value));
    if v == "light"@ {
        Some(UiTheme::Light)
    } else if v == "dark"@ {
        Some(UiTheme::Dark)
    } else {
        None
    }
}

/// The language a settings value names, ignoring surrounding white space and ASCII case.
pub open spec fn language_from_config_value(value: Seq<char>) -> Option<UiLanguage> {
    let v = ascii_lowercase(trim(value));
    if v == "english"@ || v == "en"@ {
        Some(UiLanguage::English)
    } else if v == "korean"@ || v == "ko"@ {
        Some(UiLanguage::Korean)
    } else {
        None
    }
}

/// The theme under `[ui]`, the default if absent; the field name if it names no theme.
pub open spec fn theme_field(ui: Option<Seq<(Seq<char>, Option<ConfigScalarView>)>>) -> Result<
    UiTheme,
    Seq<char>,
> {
    match string_field(ui, "ui"@, "theme"@) {
        Err(f) => Err(f),
        Ok(None) => Ok(UiTheme::Light),
        Ok(Some(v)) => match theme_from_config_value(v) {
            Some(theme) => Ok(theme),
            None => Err(field_name_text("ui"@, "theme"@)),
        },
    }
}

/// The language under `[ui]`, the default if absent; the field name if it names no language.
pub open spec fn language_field(ui: Option<Seq<(Seq<char>, Option<ConfigScalarView>)>>) -> Result<
    UiLanguage,
    Seq<char>,
> {
    match string_field(ui, "ui"@, "language"@) {
        Err(f) => Err(f),
        Ok(None) => Ok(UiLanguage::English),
        Ok(Some(v)) => match language_from_config_value(v) {
            Some(language) => Ok(language),
            None => Err(field_name_text("ui"@, "language"@)),
        },
    }
}

/// The settings a document holds: each field from its table or the default, read in the order
/// printer, layout, ui; strings trimmed; then validated.
pub open spec fn settings_from_document(doc: Seq<(Seq<char>, ConfigItemView)>) -> Result<
    AppSettingsModel,
    SettingsFileErrorView,
> {
    match section_of(doc, "printer"@) {
        Err(f) => Err(SettingsFileErrorView::InvalidValue { field: f }),
        Ok(printer) => match section_of(doc, "layout"@) {
            Err(f) => Err(SettingsFileErrorView::InvalidValue { field: f }),
            Ok(layout) => match section_of(doc, "ui"@) {
                Err(f) => Err(SettingsFileErrorView::InvalidValue { field: f }),
                Ok(ui) => settings_from_sections(printer, layout, ui),
            },
        },
    }
}

/// The settings the printer, layout and ui tables hold.
pub open spec fn settings_from_sections(
    printer: Option<Seq<(Seq<char>, Option<ConfigScalarView>)>>,
    layout: Option<Seq<(Seq<char>, Option<ConfigScalarView>)>>,
    ui: Option<Seq<(Seq<char>, Option<ConfigScalarView>)>>,
) -> Result<AppSettingsModel, SettingsFileErrorView> {
    match string_field(printer, "printer"@, "ip"@) {
        Err(f) => Err(SettingsFileErrorView::InvalidValue { field: f }),
        Ok(ip) => match bounded_field(printer, "printer"@, "port"@, u16::MAX as int) {
            Err(f) => Err(SettingsFileErrorView::InvalidValue { field: f }),
            Ok(port) => match bounded_field(layout, "layout"@, "font_size_px"@, u32::MAX as int) {
                Err(f) => Err(SettingsFileErrorView::InvalidValue { field: f }),
                Ok(font_size) => match bounded_field(
                    layout,
                    "layout"@,
                    "paper_width_px"@,
                    u32::MAX as int,
                ) {
                    Err(f) => Err(SettingsFileErrorView::InvalidValue { field: f }),
                    Ok(paper_width) => match bounded_field(
                        layout,
                        "layout"@,
                        "margin_px"@,
                        u32::MAX as int,
                    ) {
                        Err(f) => Err(SettingsFileErrorView::InvalidValue { field: f }),
                        Ok(margin) => match font_face_field(layout) {
                            Err(f) => Err(SettingsFileErrorView::InvalidValue { field: f }),
                            Ok(face) => match theme_field(ui) {
                                Err(f) => Err(SettingsFileErrorView::InvalidValue { field: f }),
                                Ok(theme) => match language_field(ui) {
                                    Err(f) => Err(SettingsFileErrorView::InvalidValue { field: f }),
                                    Ok(language) => {
                                        let m = AppSettingsModel {
                                            ip: match ip {
                                                Some(v) => trim(v),
                                                None => DEFAULT_PRINTER_IP@,
                                            },
                                            port: match port {
                                                Some(v) => v as u16,
                                                None => DEFAULT_PRINTER_PORT,
                                            },
                                            font_size_px: match font_size {
                                                Some(v) => v as u32,
                                                None => DEFAULT_FONT_SIZE_PX,
                                            },
                                            paper_width_px: match paper_width {
                                                Some(v) => v as u32,
                                                None => DEFAULT_PAPER_WIDTH_PX,
                                            },
                                            margin_px: match margin {
                                                Some(v) => v as u32,
                                                None => DEFAULT_MARGIN_PX,
                                            },
                                            font_face_name: match face {
                                                Some(v) => trim(v),
                                                None => DEFAULT_FONT_FACE_NAME@,
                                            },
                                            theme,
                                            language,
                                        };
                                        match model_check(m) {
                                            Err(e) => Err(
                                                SettingsFileErrorView::InvalidSettings {
                                                    details: domain_error_text(e),
                                                },
                                            ),
                                            Ok(()) => Ok(m),
                                        }
                                    },
                                },
                            },
                        },
                    },
                },
            },
        },
    }
}

/// What reading settings from file contents gives.
pub open spec fn app_settings_read(contents: Seq<char>) -> Result<
    AppSettingsModel,
    SettingsFileErrorView,
> {
    match toml_document(contents) {
        Err(details) => Err(SettingsFileErrorView::Parse { details }),
        Ok(doc) => settings_from_document(doc),
    }
}

/// A field lookup's error given as the bad field.
pub open spec fn as_field_error<T>(r: Result<T, Seq<char>>) -> Result<T, SettingsFileErrorView> {
    match r {
        Ok(v) => Ok(v),
        Err(f) => Err(SettingsFileErrorView::InvalidValue { field: f }),
    }
}

/// A table found in a document, taken by its entries.
pub open spec fn table_option_view(t: Option<&Vec<(String, Option<ConfigScalar>)>>) -> Option<
    Seq<(Seq<char>, Option<ConfigScalarView>)>,
> {
    match t {
        Some(entries) => Some(entries_view(entries@)),
        None => None,
    }
}

/// An optional text outcome, taken by its view.
pub open spec fn text_result_view(r: Result<Option<String>, SettingsFileError>) -> Result<
    Option<Seq<char>>,
    SettingsFileErrorView,
> {
    match r {
        Ok(Some(t)) => Ok(Some(t@)),
        Ok(None) => Ok(None),
        Err(e) => Err(e@),
    }
}

/// An optional integer outcome, taken as an integer.
pub open spec fn number_result_view(r: Result<Option<u32>, SettingsFileError>) -> Result<
    Option<int>,
    SettingsFileErrorView,
> {
    match r {
        Ok(Some(v)) => Ok(Some(v as int)),
        Ok(None) => Ok(None),
        Err(e) => Err(e@),
    }
}

/// A table lookup's outcome, taken by its entries.
pub open spec fn table_result_view(r: Result<Option<&Vec<(String, Option<ConfigScalar>)>>, SettingsFileError>) -> Result<
    Option<Seq<(Seq<char>, Option<ConfigScalarView>)>>,
    SettingsFileErrorView,
> {
    match r {
        Ok(t) => Ok(table_option_view(t)),
        Err(e) => Err(e@),
    }
}

/// `section.key`.
pub fn field_name(section: &str, key: &str) -> (r: String)
    ensures
        r@ == field_name_text(section@, key@),
{
    let mut r = section.to_owned();
    r.append(".");
    r.append(key);
    r
}

/// The error for a field holding a value of the wrong kind.
pub fn invalid_config_type(path: &Path, field: String) -> (r: SettingsFileError)
    ensures
        settings_error_path(r) == Some(path_buf_of(path)),
        r@ == (SettingsFileErrorView::InvalidValue { field: field@ }),
{
    SettingsFileError::InvalidValue { path: owned_path(path), field }
}

fn find_item_index(items: &Vec<(String, ConfigItem)>, key: &str) -> (r: Option<usize>)
    ensures
        match r {
            Some(i) => i < items.len() && find_item(
                items@.map_values(|e: (String, ConfigItem)| (e.0@, e.1@)),
                key@,
            ) == Some(items@[i as int].1@),
            None => find_item(items@.map_values(|e: (String, ConfigItem)| (e.0@, e.1@)), key@) is None,
        },
{
    let ghost all = items@.map_values(|e: (String, ConfigItem)| (e.0@, e.1@));
    let mut i: usize = 0;
    assert(all.skip(0) == all);
    while i < items.len()
        invariant
            i <= items.len(),
            all == items@.map_values(|e: (String, ConfigItem)| (e.0@, e.1@)),
            find_item(all, key@) == find_item(all.skip(i as int), key@),
        decreases items.len() - i,
    {
        assert(all.skip(i as int).drop_first() == all.skip(i as int + 1));
        if str_equal(items[i].0.as_str(), key) {
            return Some(i);
        }
        i += 1;
    }
    None
}

fn find_entry_index(entries: &Vec<(String, Option<ConfigScalar>)>, key: &str) -> (r: Option<usize>)
    ensures
        match r {
            Some(i) => i < entries.len() && find_entry(entries_view(entries@), key@) == Some(
                scalar_option_view(entries@[i as int].1),
            ),
            None => find_entry(entries_view(entries@), key@) is None,
        },
{
    let ghost all = entries_view(entries@);
    let mut i: usize = 0;
    assert(all.skip(0) == all);
    while i < entries.len()
        invariant
            i <= entries.len(),
            all == entries_view(entries@),
            find_entry(all, key@) == find_entry(all.skip(i as int), key@),
        decreases entries.len() - i,
    {
        assert(all.skip(i as int).drop_first() == all.skip(i as int + 1));
        if str_equal(entries[i].0.as_str(), key) {
            return Some(i);
        }
        i += 1;
    }
    None
}

/// The table `section` of `document`, if present.
pub fn optional_table<'a>(document: &'a ConfigDocument, section: &str, path: &Path) -> (r: Result<
    Option<&'a Vec<(String, Option<ConfigScalar>)>>,
    SettingsFileError,
>)
    ensures
        r matches Err(e) ==> settings_error_path(e) == Some(path_buf_of(path)),
        table_result_view(r) == as_field_error(section_of(document@, section@)),
{
    match find_item_index(&document.items, section) {
        None => Ok(None),
        Some(i) => match &document.items[i].1 {
            ConfigItem::Table(entries) => Ok(Some(entries)),
            ConfigItem::Value(_) => Err(invalid_config_type(path, section.to_owned())),
        },
    }
}

/// The string under `key` of a table, if present.
pub fn optional_string(
    table: Option<&Vec<(String, Option<ConfigScalar>)>>,
    section: &str,
    key: &str,
    path: &Path,
) -> (r: Result<Option<String>, SettingsFileError>)
    ensures
        r matches Err(e) ==> settings_error_path(e) == Some(path_buf_of(path)),
        text_result_view(r) == as_field_error(string_field(table_option_view(table), section@, key@)),
{
    let entries = match table {
        None => {
            return Ok(None);
        },
        Some(entries) => entries,
    };
    match find_entry_index(entries, key) {
        None => Ok(None),
        Some(i) => match &entries[i].1 {
            Some(ConfigScalar::Text(text)) => Ok(Some(text.clone())),
            _ => Err(invalid_config_type(path, field_name(section, key))),
        },
    }
}

/// The integer under `key` of a table, if present and at most `max`.
pub fn optional_bounded(
    table: Option<&Vec<(String, Option<ConfigScalar>)>>,
    section: &str,
    key: &str,
    max: u32,
    path: &Path,
) -> (r: Result<Option<u32>, SettingsFileError>)
    ensures
        r matches Err(e) ==> settings_error_path(e) == Some(path_buf_of(path)),
        number_result_view(r) == as_field_error(
            bounded_field(table_option_view(table), section@, key@, max as int),
        ),
{
    let entries = match table {
        None => {
            return Ok(None);
        },
        Some(entries) => entries,
    };
    match find_entry_index(entries, key) {
        None => Ok(None),
        Some(i) => match &entries[i].1 {
            Some(ConfigScalar::Integer(v)) => {
                if 0 <= *v && *v <= max as i64 {
                    Ok(Some(*v as u32))
                } else {
                    Err(invalid_config_type(path, field_name(section, key)))
                }
            },
            _ => Err(invalid_config_type(path, field_name(section, key))),
        },
    }
}

fn stripped_end(value: &Vec<char>, n: usize) -> (end: usize)
    requires
        n <= value.len(),
    ensures
        end <= n,
        strip_trailing_separators(value@.take(n as int)) == value@.take(end as int),
{
    let mut end = n;
    while end > 0 && (value[end - 1] == '/' || value[end - 1] == '\\')
        invariant
            end <= n <= value.len(),
            strip_trailing_separators(value@.take(n as int)) == strip_trailing_separators(
                value@.take(end as int),
            ),
        decreases end,
    {
        assert(value@.take(end as int).drop_last() == value@.take(end as int - 1));
        end -= 1;
    }
    end
}

fn component_start(value: &Vec<char>, end: usize) -> (start: usize)
    requires
        end <= value.len(),
    ensures
        start <= end,
        final_component(value@.take(end as int)) == value@.subrange(start as int, end as int),
{
    let ghost prefix = value@.take(end as int);
    let mut start = end;
    assert(prefix.subrange(end as int, end as int) == Seq::<char>::empty());
    assert(prefix.take(end as int) == prefix);
    while start > 0 && !(value[start - 1] == '/' || value[start - 1] == '\\')
        invariant
            start <= end <= value.len(),
            prefix == value@.take(end as int),
            final_component(prefix) == final_component(prefix.take(start as int))
                + prefix.subrange(start as int, end as int),
        decreases start,
    {
        assert(prefix.take(start as int).drop_last() == prefix.take(start as int - 1));
        assert(prefix.subrange(start as int - 1, end as int) == seq![value@[start - 1]]
            + prefix.subrange(start as int, end as int));
        start -= 1;
    }
    assert(final_component(prefix.take(start as int)) == Seq::<char>::empty());
    assert(prefix.subrange(start as int, end as int) == value@.subrange(start as int, end as int));
    start
}

proof fn lemma_last_dot(v: Seq<char>)
    ensures
        last_dot(v) matches Some(k) ==> 0 <= k < v.len() && v[k] == '.',
    decreases v.len(),
{
    if v.len() > 0 && v.last() != '.' {
        lemma_last_dot(v.drop_last());
    }
}

fn last_dot_index(value: &Vec<char>, start: usize, end: usize) -> (r: Option<usize>)
    requires
        start <= end <= value.len(),
    ensures
        match last_dot(value@.subrange(start as int, end as int)) {
            Some(k) => r == Some((start + k) as usize),
            None => r is None,
        },
        r matches Some(d) ==> start <= d < end,
{
    let ghost name = value@.subrange(start as int, end as int);
    let mut dot = end;
    assert(name.take(name.len() as int) == name);
    while dot > start && value[dot - 1] != '.'
        invariant
            start <= dot <= end <= value.len(),
            name == value@.subrange(start as int, end as int),
            last_dot(name) == last_dot(name.take(dot - start)),
        decreases dot,
    {
        assert(name.take(dot - start).drop_last() == name.take(dot - start - 1));
        dot -= 1;
    }
    if dot == start {
        assert(name.take(0) == Seq::<char>::empty());
        return None;
    }
    assert(name.take(dot - start).last() == '.');
    Some(dot - 1)
}

/// Whether a legacy `font_file_name` value names a font file.
pub fn looks_like_font_file_name_text(value: &Vec<char>) -> (r: bool)
    ensures
        r == looks_like_font_file_name(value@),
{
    let mut n = value.len();
    assert(value@.take(n as int) == value@);
    let mut end = stripped_end(value, n);
    let mut start = component_start(value, end);
    while start > 0 && end - start == 1 && value[start] == '.'
        invariant
            n <= value.len(),
            start <= end <= n,
            file_name_of(value@) == file_name_of(value@.take(n as int)),
            strip_trailing_separators(value@.take(n as int)) == value@.take(end as int),
            final_component(value@.take(end as int)) == value@.subrange(start as int, end as int),
        decreases n,
    {
        assert(value@.subrange(start as int, end as int) == seq!['.']);
        assert(value@.take(end as int).drop_last() == value@.take(end - 1));
        n = end - 1;
        end = stripped_end(value, n);
        start = component_start(value, end);
    }
    let ghost name = value@.subrange(start as int, end as int);
    assert(file_name_of(value@) == if end == 0 || name == seq!['.'] || name == seq!['.', '.'] {
        None::<Seq<char>>
    } else {
        Some(name)
    }) by {
        let whole = value@.take(n as int);
        assert(strip_trailing_separators(whole) == value@.take(end as int));
        assert(value@.take(end as int).len() == end);
        if name == seq!['.'] {
            assert(name.len() == 1);
            assert(name[0] == value@[start as int]);
            assert(start == 0);
        }
        assert(file_name_of(whole) == if end == 0 || name == seq!['.'] || name == seq!['.', '.'] {
            None::<Seq<char>>
        } else {
            Some(name)
        });
    }
    if end == 0 || (end - start == 1 && value[start] == '.') {
        assert(end == 0 || name == seq!['.']);
        return false;
    }
    assert(name != seq!['.']) by {
        if name == seq!['.'] {
            assert(name[0] == value@[start as int]);
        }
    }
    if end - start == 2 && value[start] == '.' && value[start + 1] == '.' {
        assert(name == seq!['.', '.']);
        return false;
    }
    assert(name != seq!['.', '.']) by {
        if name == seq!['.', '.'] {
            assert(name.len() == 2);
            assert(name[0] == value@[start as int]);
            assert(name[1] == value@[start + 1]);
        }
    }
    let dot = match last_dot_index(value, start, end) {
        None => {
            return false;
        },
        Some(dot) => dot,
    };
    proof {
        lemma_last_dot(name);
    }
    if dot == start {
        return false;
    }
    let extension = crate::text::copy_range(value, dot + 1, end);
    assert(extension@ == name.skip(dot - start + 1));
    let lower = ascii_lowercase_chars(&extension);
    text_equals(&lower, "ttf") || text_equals(&lower, "otf") || text_equals(&lower, "ttc")
}

/// The font face from the layout table, falling back to a legacy face name.
fn font_face_from_layout(layout: Option<&Vec<(String, Option<ConfigScalar>)>>, path: &Path) -> (r: Result<
    Option<String>,
    SettingsFileError,
>)
    ensures
        r matches Err(e) ==> settings_error_path(e) == Some(path_buf_of(path)),
        text_result_view(r) == as_field_error(font_face_field(table_option_view(layout))),
{
    match optional_string(layout, CONFIG_LAYOUT_SECTION, CONFIG_FONT_FACE_KEY, path)? {
        Some(face) => Ok(Some(face)),
        None => legacy_font_face_name(layout, path),
    }
}

/// A legacy `font_file_name` value that is a face name rather than a font file, trimmed.
pub fn legacy_font_face_name(layout: Option<&Vec<(String, Option<ConfigScalar>)>>, path: &Path) -> (r: Result<
    Option<String>,
    SettingsFileError,
>)
    ensures
        r matches Err(e) ==> settings_error_path(e) == Some(path_buf_of(path)),
        text_result_view(r) == as_field_error(
            match string_field(table_option_view(layout), "layout"@, "font_file_name"@) {
                Err(f) => Err(f),
                Ok(None) => Ok(None),
                Ok(Some(value)) => if looks_like_font_file_name(trim(value)) {
                    Ok(None)
                } else {
                    Ok(Some(trim(value)))
                },
            },
        ),
{
    let value = match optional_string(layout, CONFIG_LAYOUT_SECTION, CONFIG_LEGACY_FONT_FILE_KEY, path)? {
        None => {
            return Ok(None);
        },
        Some(value) => value,
    };
    let chars = chars_of(value.as_str());
    let trimmed = trim_chars(&chars);
    if looks_like_font_file_name_text(&trimmed) {
        Ok(None)
    } else {
        Ok(Some(string_from_chars(trimmed.as_slice())))
    }
}

/// The theme a settings value names.
pub fn ui_theme_from_config_value(value: &str) -> (r: Option<UiTheme>)
    ensures
        r == theme_from_config_value(value@),
{
    let chars = chars_of(value);
    let lower = ascii_lowercase_chars(&trim_chars(&chars));
    if text_equals(&lower, CONFIG_UI_THEME_LIGHT) {
        Some(UiTheme::Light)
    } else if text_equals(&lower, CONFIG_UI_THEME_DARK) {
        Some(UiTheme::Dark)
    } else {
        None
    }
}

/// The language a settings value names.
pub fn ui_language_from_config_value(value: &str) -> (r: Option<UiLanguage>)
    ensures
        r == language_from_config_value(value@),
{
    let chars = chars_of(value);
    let lower = ascii_lowercase_chars(&trim_chars(&chars));
    if text_equals(&lower, CONFIG_UI_LANGUAGE_ENGLISH) || text_equals(&lower, "en") {
        Some(UiLanguage::English)
    } else if text_equals(&lower, CONFIG_UI_LANGUAGE_KOREAN) || text_equals(&lower, "ko") {
        Some(UiLanguage::Korean)
    } else {
        None
    }
}

/// The settings value that names `theme`.
pub fn ui_theme_to_config_value(theme: UiTheme) -> (r: &'static str)
    ensures
        r@ == (match theme {
            UiTheme::Light => CONFIG_UI_THEME_LIGHT@,
            UiTheme::Dark => CONFIG_UI_THEME_DARK@,
        }),
{
    match theme {
        UiTheme::Light => CONFIG_UI_THEME_LIGHT,
        UiTheme::Dark => CONFIG_UI_THEME_DARK,
    }
}

/// The settings value that names `language`.
pub fn ui_language_to_config_value(language: UiLanguage) -> (r: &'static str)
    ensures
        r@ == (match language {
            UiLanguage::English => CONFIG_UI_LANGUAGE_ENGLISH@,
            UiLanguage::Korean => CONFIG_UI_LANGUAGE_KOREAN@,
        }),
{
    match language {
        UiLanguage::English => CONFIG_UI_LANGUAGE_ENGLISH,
        UiLanguage::Korean => CONFIG_UI_LANGUAGE_KOREAN,
    }
}

/// Reads settings from the text of a settings file: missing tables and fields take their
/// defaults, strings are trimmed, a value of the wrong kind is refused by its field name, and the
/// result is validated. `path` is only carried into errors.
pub fn parse_app_settings_toml(contents: &str, path: &Path) -> (r: Result<
    AppSettings,
    SettingsFileError,
>)
    ensures
        r matches Err(e) ==> settings_error_path(e) == Some(path_buf_of(path)),
        match r {
            Ok(settings) => app_settings_read(contents@) == Ok::<
                AppSettingsModel,
                SettingsFileErrorView,
            >(settings.model()),
            Err(e) => app_settings_read(contents@) == Err::<AppSettingsModel, SettingsFileErrorView>(
                e@,
            ),
        },
{
    let document = match parse_toml_document(contents) {
        Ok(document) => document,
        Err(details) => {
            return Err(SettingsFileError::Parse { path: owned_path(path), details });
        },
    };
    app_settings_from_document(&document, path)
}

/// The settings a parsed settings document holds: its `printer`, `layout` and `ui` tables read
/// as the settings file is read, or the first problem with them.
pub fn app_settings_from_document(document: &ConfigDocument, path: &Path) -> (r: Result<
    AppSettings,
    SettingsFileError,
>)
    ensures
        r matches Err(e) ==> settings_error_path(e) == Some(path_buf_of(path)),
        match r {
            Ok(settings) => settings_from_document(document@) == Ok::<
                AppSettingsModel,
                SettingsFileErrorView,
            >(settings.model()),
            Err(e) => settings_from_document(document@) == Err::<
                AppSettingsModel,
                SettingsFileErrorView,
            >(e@),
        },
{
    let printer_table = optional_table(document, CONFIG_PRINTER_SECTION, path)?;
    let layout_table = optional_table(document, CONFIG_LAYOUT_SECTION, path)?;
    let ui_table = optional_table(document, CONFIG_UI_SECTION, path)?;
    let settings = settings_from_tables(printer_table, layout_table, ui_table, path)?;
    Ok(settings)
}

fn settings_from_tables(
    printer_table: Option<&Vec<(String, Option<ConfigScalar>)>>,
    layout_table: Option<&Vec<(String, Option<ConfigScalar>)>>,
    ui_table: Option<&Vec<(String, Option<ConfigScalar>)>>,
    path: &Path,
) -> (r: Result<AppSettings, SettingsFileError>)
    ensures
        r matches Err(e) ==> settings_error_path(e) == Some(path_buf_of(path)),
        match r {
            Ok(settings) => settings_from_sections(
                table_option_view(printer_table),
                table_option_view(layout_table),
                table_option_view(ui_table),
            ) == Ok::<AppSettingsModel, SettingsFileErrorView>(settings.model()),
            Err(e) => settings_from_sections(
                table_option_view(printer_table),
                table_option_view(layout_table),
                table_option_view(ui_table),
            ) == Err::<AppSettingsModel, SettingsFileErrorView>(e@),
        },
{
    let ip = optional_string(printer_table, CONFIG_PRINTER_SECTION, CONFIG_PRINTER_IP_KEY, path)?;
    let port = optional_bounded(
        printer_table,
        CONFIG_PRINTER_SECTION,
        CONFIG_PRINTER_PORT_KEY,
        u16::MAX as u32,
        path,
    )?;
    let font_size = optional_bounded(
        layout_table,
        CONFIG_LAYOUT_SECTION,
        CONFIG_FONT_SIZE_KEY,
        u32::MAX,
        path,
    )?;
    let paper_width = optional_bounded(
        layout_table,
        CONFIG_LAYOUT_SECTION,
        CONFIG_PAPER_WIDTH_KEY,
        u32::MAX,
        path,
    )?;
    let margin = optional_bounded(
        layout_table,
        CONFIG_LAYOUT_SECTION,
        CONFIG_MARGIN_KEY,
        u32::MAX,
        path,
    )?;
    let face = font_face_from_layout(layout_table, path)?;
    let theme = match optional_string(ui_table, CONFIG_UI_SECTION, CONFIG_UI_THEME_KEY, path)? {
        Some(value) => match ui_theme_from_config_value(value.as_str()) {
            Some(theme) => theme,
            None => {
                return Err(
                    invalid_config_type(path, field_name(CONFIG_UI_SECTION, CONFIG_UI_THEME_KEY)),
                );
            },
        },
        None => UiTheme::Light,
    };
    let language = match optional_string(ui_table, CONFIG_UI_SECTION, CONFIG_UI_LANGUAGE_KEY, path)? {
        Some(value) => match ui_language_from_config_value(value.as_str()) {
            Some(language) => language,
            None => {
                return Err(
                    invalid_config_type(
                        path,
                        field_name(CONFIG_UI_SECTION, CONFIG_UI_LANGUAGE_KEY),
                    ),
                );
            },
        },
        None => UiLanguage::English,
    };
    let defaults = AppSettings::default();
    let settings = AppSettings {
        print: PrintSettings {
            printer: NetworkPrinterTarget {
                ip: match ip {
                    Some(ip) => trimmed_string(ip.as_str()),
                    None => defaults.print.printer.ip,
                },
                port: match port {
                    Some(port) => port as u16,
                    None => defaults.print.printer.port,
                },
            },
            layout: TextImageLayout {
                font_size_px: match font_size {
                    Some(v) => v,
                    None => defaults.print.layout.font_size_px,
                },
                paper_width_px: match paper_width {
                    Some(v) => v,
                    None => defaults.print.layout.paper_width_px,
                },
                margin_px: match margin {
                    Some(v) => v,
                    None => defaults.print.layout.margin_px,
                },
                font_face_name: match face {
                    Some(face) => trimmed_string(face.as_str()),
                    None => defaults.print.layout.font_face_name,
                },
            },
        },
        ui: UiSettings { theme, language },
    };
    match settings.validate() {
        Ok(()) => Ok(settings),
        Err(error) => Err(
            SettingsFileError::InvalidSettings { path: owned_path(path), details: error.message() },
        ),
    }
}

/// Reads print settings from the text of a settings file.
pub fn parse_print_settings_toml(contents: &str, path: &Path) -> (r: Result<
    PrintSettings,
    SettingsFileError,
>)
    ensures
        r matches Err(e) ==> settings_error_path(e) == Some(path_buf_of(path)),
        match r {
            Ok(print) => app_settings_read(contents@) is Ok && print_model_matches(
                print,
                app_settings_read(contents@)->Ok_0,
            ),
            Err(e) => app_settings_read(contents@) == Err::<AppSettingsModel, SettingsFileErrorView>(
                e@,
            ),
        },
{
    Ok(parse_app_settings_toml(contents, path)?.print)
}

/// Whether `print` holds the print part of `m`.
pub open spec fn print_model_matches(print: PrintSettings, m: AppSettingsModel) -> bool {
    &&& print.printer.ip@ == m.ip
    &&& print.printer.port == m.port
    &&& print.layout.font_size_px == m.font_size_px
    &&& print.layout.paper_width_px == m.paper_width_px
    &&& print.layout.margin_px == m.margin_px
    &&& print.layout.font_face_name@ == m.font_face_name
}

/// The `[printer]` and `[layout]` tables written for print settings.
pub open spec fn print_sections_of(p: PrintSettings) -> Seq<
    (Seq<char>, Seq<(Seq<char>, ConfigScalarView)>),
> {
    seq![
        ("printer"@, seq![
            ("ip"@, ConfigScalarView::Text(p.printer.ip@)),
            ("port"@, ConfigScalarView::Integer(p.printer.port as i64)),
        ]),
        ("layout"@, seq![
            ("font_size_px"@, ConfigScalarView::Integer(p.layout.font_size_px as i64)),
            ("paper_width_px"@, ConfigScalarView::Integer(p.layout.paper_width_px as i64)),
            ("margin_px"@, ConfigScalarView::Integer(p.layout.margin_px as i64)),
            ("font_face_name"@, ConfigScalarView::Text(p.layout.font_face_name@)),
        ]),
    ]
}

/// The tables written for all settings: printer, layout, then `[ui]`.
pub open spec fn app_sections_of(s: AppSettings) -> Seq<
    (Seq<char>, Seq<(Seq<char>, ConfigScalarView)>),
> {
    print_sections_of(s.print) + seq![
        ("ui"@, seq![
            ("theme"@, ConfigScalarView::Text(match s.ui.theme {
                UiTheme::Light => "light"@,
                UiTheme::Dark => "dark"@,
            })),
            ("language"@, ConfigScalarView::Text(match s.ui.language {
                UiLanguage::English => "english"@,
                UiLanguage::Korean => "korean"@,
            })),
        ]),
    ]
}

/// `text`, ending with a newline.
pub open spec fn with_trailing_newline(text: Seq<char>) -> Seq<char> {
    if text.len() > 0 && text.last() == '\n' {
        text
    } else {
        text.push('\n')
    }
}

/// What writing `sections` as TOML gives, with a final newline.
pub open spec fn settings_text(sections: Seq<(Seq<char>, Seq<(Seq<char>, ConfigScalarView)>)>) -> Result<
    Seq<char>,
    Seq<char>,
> {
    match toml_text(sections) {
        Ok(text) => Ok(with_trailing_newline(text)),
        Err(details) => Err(details),
    }
}

/// A text outcome taken by its view.
pub open spec fn string_result_view(r: Result<String, String>) -> Result<Seq<char>, Seq<char>> {
    match r {
        Ok(t) => Ok(t@),
        Err(e) => Err(e@),
    }
}

fn print_sections(settings: &PrintSettings) -> (r: Vec<(String, Vec<(String, ConfigScalar)>)>)
    ensures
        sections_view(r@) == print_sections_of(*settings),
{
    let mut printer: Vec<(String, ConfigScalar)> = Vec::new();
    printer.push((CONFIG_PRINTER_IP_KEY.to_owned(), ConfigScalar::Text(settings.printer.ip.clone())));
    printer.push(
        (CONFIG_PRINTER_PORT_KEY.to_owned(), ConfigScalar::Integer(settings.printer.port as i64)),
    );
    let mut layout: Vec<(String, ConfigScalar)> = Vec::new();
    layout.push(
        (CONFIG_FONT_SIZE_KEY.to_owned(), ConfigScalar::Integer(settings.layout.font_size_px as i64)),
    );
    layout.push(
        (
            CONFIG_PAPER_WIDTH_KEY.to_owned(),
            ConfigScalar::Integer(settings.layout.paper_width_px as i64),
        ),
    );
    layout.push(
        (CONFIG_MARGIN_KEY.to_owned(), ConfigScalar::Integer(settings.layout.margin_px as i64)),
    );
    layout.push(
        (
            CONFIG_FONT_FACE_KEY.to_owned(),
            ConfigScalar::Text(settings.layout.font_face_name.clone()),
        ),
    );
    let mut sections: Vec<(String, Vec<(String, ConfigScalar)>)> = Vec::new();
    sections.push((CONFIG_PRINTER_SECTION.to_owned(), printer));
    sections.push((CONFIG_LAYOUT_SECTION.to_owned(), layout));
    assert(sections_view(sections@) =~~= print_sections_of(*settings));
    sections
}

/// The names under which print settings are written.
proof fn lemma_print_names()
    ensures
        "printer"@ != "layout"@,
        "printer"@ != "ui"@,
        "layout"@ != "ui"@,
        "ip"@ != "port"@,
        "font_size_px"@ != "paper_width_px"@,
        "font_size_px"@ != "margin_px"@,
        "font_size_px"@ != "font_face_name"@,
        "paper_width_px"@ != "margin_px"@,
        "paper_width_px"@ != "font_face_name"@,
        "margin_px"@ != "font_face_name"@,
        "theme"@ != "language"@,
{
    reveal_strlit("printer");
    reveal_strlit("layout");
    reveal_strlit("ui");
    reveal_strlit("ip");
    reveal_strlit("port");
    reveal_strlit("font_size_px");
    reveal_strlit("paper_width_px");
    reveal_strlit("margin_px");
    reveal_strlit("font_face_name");
    reveal_strlit("theme");
    reveal_strlit("language");
    assert("paper_width_px"@[0] != "font_face_name"@[0]);
    assert("font_size_px"@[5] != "font_face_name"@[5]);
    assert("printer"@.len() != "layout"@.len());
    assert("printer"@.len() != "ui"@.len());
    assert("layout"@.len() != "ui"@.len());
    assert("ip"@.len() != "port"@.len());
    assert("font_size_px"@.len() != "paper_width_px"@.len());
    assert("font_size_px"@.len() != "margin_px"@.len());
    assert("font_size_px"@.len() != "font_face_name"@.len());
    assert("paper_width_px"@.len() != "margin_px"@.len());
    assert("margin_px"@.len() != "font_face_name"@.len());
    assert("theme"@.len() != "language"@.len());
}

/// The tables written for print settings have distinct names and keys.
proof fn lemma_print_sections_well_keyed(p: PrintSettings)
    ensures
        well_keyed(print_sections_of(p)),
{
    lemma_print_names();
}

/// The tables written for all settings have distinct names and keys.
proof fn lemma_app_sections_well_keyed(s: AppSettings)
    ensures
        well_keyed(app_sections_of(s)),
{
    lemma_print_names();
    let all = app_sections_of(s);
    assert(all[0].0 == "printer"@);
    assert(all[1].0 == "layout"@);
    assert(all[2].0 == "ui"@);
    assert(distinct_names(all[2].1));
}

/// How the settings written as `[ui]` read back.
proof fn lemma_ui_values_read_back()
    ensures
        theme_from_config_value("light"@) == Some(UiTheme::Light),
        theme_from_config_value("dark"@) == Some(UiTheme::Dark),
        language_from_config_value("english"@) == Some(UiLanguage::English),
        language_from_config_value("korean"@) == Some(UiLanguage::Korean),
{
    reveal_strlit("light");
    reveal_strlit("dark");
    reveal_strlit("english");
    reveal_strlit("korean");
    reveal_strlit("en");
    reveal_strlit("ko");
    assert("korean"@.len() != "english"@.len() && "korean"@.len() != "en"@.len());
    assert("english"@.len() != "korean"@.len() && "english"@.len() != "ko"@.len());
    assert("light"@.len() != "dark"@.len());
    lemma_plain_word("light"@);
    lemma_plain_word("dark"@);
    lemma_plain_word("english"@);
    lemma_plain_word("korean"@);
}

/// The settings value written for a theme or language reads back as that theme or language.
pub proof fn lemma_ui_config_values_round_trip(theme: UiTheme, language: UiLanguage)
    ensures
        theme_from_config_value(
            match theme {
                UiTheme::Light => CONFIG_UI_THEME_LIGHT@,
                UiTheme::Dark => CONFIG_UI_THEME_DARK@,
            },
        ) == Some(theme),
        language_from_config_value(
            match language {
                UiLanguage::English => CONFIG_UI_LANGUAGE_ENGLISH@,
                UiLanguage::Korean => CONFIG_UI_LANGUAGE_KOREAN@,
            },
        ) == Some(language),
{
    lemma_ui_values_read_back();
}

/// A non-empty word of lower-case ASCII letters is its own trimmed, lower-cased form.
proof fn lemma_plain_word(w: Seq<char>)
    requires
        w.len() > 0,
        forall|i: int| 0 <= i < w.len() ==> 97 <= #[trigger] (w[i] as u32) <= 122,
    ensures
        ascii_lowercase(trim(w)) == w,
{
    assert(!crate::text::is_white_space(w[0]));
    assert(trim_start(w) == w);
    assert(!crate::text::is_white_space(w.last()));
    assert(trim_end(w) == w);
    assert(ascii_lowercase(w) =~= w);
}

/// What reading gives for a document that holds the printer and layout tables of `p`: its
/// values, given that they pass validation and need no trimming, with the `[ui]` table of
/// `ui_doc_theme` and `ui_doc_language` or the defaults.
proof fn lemma_print_tables_read_back(
    doc: Seq<(Seq<char>, ConfigItemView)>,
    sections: Seq<(Seq<char>, Seq<(Seq<char>, ConfigScalarView)>)>,
    p: PrintSettings,
)
    requires
        reads_as_sections(doc, sections),
        written_section(sections, "printer"@) == Some(print_sections_of(p)[0].1),
        written_section(sections, "layout"@) == Some(print_sections_of(p)[1].1),
    ensures
        section_of(doc, "printer"@) matches Ok(Some(t)) && string_field(Some(t), "printer"@, "ip"@)
            == Ok::<Option<Seq<char>>, Seq<char>>(Some(p.printer.ip@)) && bounded_field(
            Some(t),
            "printer"@,
            "port"@,
            u16::MAX as int,
        ) == Ok::<Option<int>, Seq<char>>(Some(p.printer.port as int)),
        section_of(doc, "layout"@) matches Ok(Some(t)) && bounded_field(
            Some(t),
            "layout"@,
            "font_size_px"@,
            u32::MAX as int,
        ) == Ok::<Option<int>, Seq<char>>(Some(p.layout.font_size_px as int)) && bounded_field(
            Some(t),
            "layout"@,
            "paper_width_px"@,
            u32::MAX as int,
        ) == Ok::<Option<int>, Seq<char>>(Some(p.layout.paper_width_px as int)) && bounded_field(
            Some(t),
            "layout"@,
            "margin_px"@,
            u32::MAX as int,
        ) == Ok::<Option<int>, Seq<char>>(Some(p.layout.margin_px as int)) && font_face_field(
            Some(t),
        ) == Ok::<Option<Seq<char>>, Seq<char>>(Some(p.layout.font_face_name@)),
{
    lemma_print_names();
    let ps = print_sections_of(p);
    assert(section_read_back(find_item(doc, "printer"@), written_section(sections, "printer"@)));
    assert(section_read_back(find_item(doc, "layout"@), written_section(sections, "layout"@)));
    let printer = ps[0].1;
    let layout = ps[1].1;
    if let Some(ConfigItemView::Table(t)) = find_item(doc, "printer"@) {
        assert(find_entry(t, "ip"@) == written_entry(printer, "ip"@));
        assert(find_entry(t, "port"@) == written_entry(printer, "port"@));
        assert(printer.drop_first()[0].0 == "port"@);
        assert(written_entry(printer, "port"@) == written_entry(printer.drop_first(), "port"@));
        assert(find_entry(t, "ip"@) == Some(Some(ConfigScalarView::Text(p.printer.ip@))));
        assert(find_entry(t, "port"@) == Some(
            Some(ConfigScalarView::Integer(p.printer.port as i64)),
        ));
        assert(section_of(doc, "printer"@) == Ok::<
            Option<Seq<(Seq<char>, Option<ConfigScalarView>)>>,
            Seq<char>,
        >(Some(t)));
    } else {
        assert(false);
    }
    if let Some(ConfigItemView::Table(t)) = find_item(doc, "layout"@) {
        assert(find_entry(t, "font_size_px"@) == written_entry(layout, "font_size_px"@));
        assert(find_entry(t, "paper_width_px"@) == written_entry(layout, "paper_width_px"@));
        assert(find_entry(t, "margin_px"@) == written_entry(layout, "margin_px"@));
        assert(find_entry(t, "font_face_name"@) == written_entry(layout, "font_face_name"@));
        let l1 = layout.drop_first();
        let l2 = l1.drop_first();
        let l3 = l2.drop_first();
        assert(l1[0].0 == "paper_width_px"@);
        assert(l2[0].0 == "margin_px"@);
        assert(l3[0].0 == "font_face_name"@);
        assert(written_entry(layout, "paper_width_px"@) == written_entry(l1, "paper_width_px"@));
        assert(written_entry(layout, "margin_px"@) == written_entry(l1, "margin_px"@));
        assert(written_entry(l1, "margin_px"@) == written_entry(l2, "margin_px"@));
        assert(written_entry(layout, "font_face_name"@) == written_entry(l1, "font_face_name"@));
        assert(written_entry(l1, "font_face_name"@) == written_entry(l2, "font_face_name"@));
        assert(written_entry(l2, "font_face_name"@) == written_entry(l3, "font_face_name"@));
    }
}

/// Reading back the text written for print settings gives those settings with the default
/// window preferences, when they pass validation and their host and font face need no trimming.
proof fn lemma_print_settings_read_back(doc: Seq<(Seq<char>, ConfigItemView)>, p: PrintSettings)
    requires
        reads_as_sections(doc, print_sections_of(p)),
        print_settings_check(p) is Ok,
        trim(p.printer.ip@) == p.printer.ip@,
        trim(p.layout.font_face_name@) == p.layout.font_face_name@,
    ensures
        settings_from_document(doc) == Ok::<AppSettingsModel, SettingsFileErrorView>(
            (AppSettings { print: p, ui: UiSettings { theme: UiTheme::Light, language: UiLanguage::English } }).model(),
        ),
{
    lemma_print_names();
    let ps = print_sections_of(p);
    assert(written_section(ps, "printer"@) == Some(ps[0].1));
    assert(ps.drop_first()[0].0 == "layout"@);
    assert(written_section(ps, "layout"@) == written_section(ps.drop_first(), "layout"@));
    assert(written_section(ps, "layout"@) == Some(ps[1].1));
    assert(ps.drop_first().drop_first().len() == 0);
    assert(written_section(ps, "ui"@) == written_section(ps.drop_first(), "ui"@));
    assert(written_section(ps.drop_first(), "ui"@) == written_section(
        ps.drop_first().drop_first(),
        "ui"@,
    ));
    assert(written_section(ps, "ui"@) is None);
    assert(section_read_back(find_item(doc, "ui"@), written_section(ps, "ui"@)));
    lemma_print_tables_read_back(doc, ps, p);
}

/// Reading back the text written for all settings gives those settings, when they pass
/// validation and their host and font face need no trimming.
proof fn lemma_app_settings_read_back(doc: Seq<(Seq<char>, ConfigItemView)>, s: AppSettings)
    requires
        reads_as_sections(doc, app_sections_of(s)),
        model_check(s.model()) is Ok,
        trim(s.print.printer.ip@) == s.print.printer.ip@,
        trim(s.print.layout.font_face_name@) == s.print.layout.font_face_name@,
    ensures
        settings_from_document(doc) == Ok::<AppSettingsModel, SettingsFileErrorView>(s.model()),
{
    lemma_print_names();
    lemma_ui_values_read_back();
    let all = app_sections_of(s);
    let ps = print_sections_of(s.print);
    assert(all[0] == ps[0]);
    assert(all[1] == ps[1]);
    assert(written_section(all, "printer"@) == Some(ps[0].1));
    assert(all.drop_first()[0].0 == "layout"@);
    assert(written_section(all, "layout"@) == written_section(all.drop_first(), "layout"@));
    assert(written_section(all, "layout"@) == Some(ps[1].1));
    assert(all.drop_first().drop_first()[0].0 == "ui"@);
    assert(written_section(all, "ui"@) == written_section(all.drop_first(), "ui"@));
    assert(written_section(all.drop_first(), "ui"@) == written_section(
        all.drop_first().drop_first(),
        "ui"@,
    ));
    assert(written_section(all, "ui"@) == Some(all[2].1));
    lemma_print_tables_read_back(doc, all, s.print);
    let ui = all[2].1;
    assert(section_read_back(find_item(doc, "ui"@), written_section(all, "ui"@)));
    if let Some(ConfigItemView::Table(t)) = find_item(doc, "ui"@) {
        assert(find_entry(t, "theme"@) == written_entry(ui, "theme"@));
        assert(find_entry(t, "language"@) == written_entry(ui, "language"@));
        assert(ui.drop_first()[0].0 == "language"@);
        assert(written_entry(ui, "language"@) == written_entry(ui.drop_first(), "language"@));
        assert(theme_field(Some(t)) == Ok::<UiTheme, Seq<char>>(s.ui.theme));
        assert(language_field(Some(t)) == Ok::<UiLanguage, Seq<char>>(s.ui.language));
        assert(section_of(doc, "ui"@) == Ok::<
            Option<Seq<(Seq<char>, Option<ConfigScalarView>)>>,
            Seq<char>,
        >(Some(t)));
    } else {
        assert(false);
    }
}

fn serialize_toml(sections: &Vec<(String, Vec<(String, ConfigScalar)>)>) -> (r: Result<
    String,
    String,
>)
    requires
        well_keyed(sections_view(sections@)),
    ensures
        string_result_view(r) == settings_text(sections_view(sections@)),
        r matches Ok(text) ==> (toml_document(text@) matches Ok(doc) && reads_as_sections(
            doc,
            sections_view(sections@),
        )),
{
    let mut contents = match toml_string_of_sections(sections) {
        Ok(text) => text,
        Err(details) => return Err(details),
    };
    let ghost written = contents@;
    let chars = chars_of(contents.as_str());
    if !(chars.len() > 0 && chars[chars.len() - 1] == '\n') {
        proof {
            reveal_strlit("\n");
        }
        contents.append("\n");
        assert(contents@ == with_trailing_newline(written));
    } else {
        assert(contents@ == with_trailing_newline(written));
    }
    Ok(contents)
}

/// Print settings as the text of a settings file without a `[ui]` table.
pub fn print_settings_to_toml(settings: &PrintSettings) -> (r: Result<String, String>)
    ensures
        string_result_view(r) == settings_text(print_sections_of(*settings)),
        r matches Ok(text) ==> (print_settings_check(*settings) is Ok && trim(
            settings.printer.ip@,
        ) == settings.printer.ip@ && trim(settings.layout.font_face_name@)
            == settings.layout.font_face_name@ ==> app_settings_read(text@) == Ok::<
            AppSettingsModel,
            SettingsFileErrorView,
        >(
            (AppSettings {
                print: *settings,
                ui: UiSettings { theme: UiTheme::Light, language: UiLanguage::English },
            }).model(),
        )),
{
    let sections = print_sections(settings);
    proof {
        lemma_print_sections_well_keyed(*settings);
    }
    let r = serialize_toml(&sections);
    proof {
        if let Ok(text) = &r {
            if print_settings_check(*settings) is Ok && trim(settings.printer.ip@)
                == settings.printer.ip@ && trim(settings.layout.font_face_name@)
                == settings.layout.font_face_name@ {
                let doc = toml_document(text@)->Ok_0;
                lemma_print_settings_read_back(doc, *settings);
            }
        }
    }
    r
}

/// Settings as the text of a settings file.
pub fn app_settings_to_toml(settings: &AppSettings) -> (r: Result<String, String>)
    ensures
        string_result_view(r) == settings_text(app_sections_of(*settings)),
        r matches Ok(text) ==> (model_check(settings.model()) is Ok && trim(
            settings.print.printer.ip@,
        ) == settings.print.printer.ip@ && trim(settings.print.layout.font_face_name@)
            == settings.print.layout.font_face_name@ ==> app_settings_read(text@) == Ok::<
            AppSettingsModel,
            SettingsFileErrorView,
        >(settings.model())),
{
    let mut sections = print_sections(&settings.print);
    let mut ui: Vec<(String, ConfigScalar)> = Vec::new();
    ui.push(
        (
            CONFIG_UI_THEME_KEY.to_owned(),
            ConfigScalar::Text(ui_theme_to_config_value(settings.ui.theme).to_owned()),
        ),
    );
    ui.push(
        (
            CONFIG_UI_LANGUAGE_KEY.to_owned(),
            ConfigScalar::Text(ui_language_to_config_value(settings.ui.language).to_owned()),
        ),
    );
    let ghost before = sections_view(sections@);
    sections.push((CONFIG_UI_SECTION.to_owned(), ui));
    assert(sections_view(sections@) =~~= app_sections_of(*settings));
    proof {
        lemma_app_sections_well_keyed(*settings);
    }
    let r = serialize_toml(&sections);
    proof {
        if let Ok(text) = &r {
            if model_check(settings.model()) is Ok && trim(settings.print.printer.ip@)
                == settings.print.printer.ip@ && trim(settings.print.layout.font_face_name@)
                == settings.print.layout.font_face_name@ {
                let doc = toml_document(text@)->Ok_0;
                lemma_app_settings_read_back(doc, *settings);
            }
        }
    }
    r
}

/// What a settings file for `settings` holds: the settings must validate, then they are written
/// as TOML. `path` is only carried into errors.
pub fn app_settings_file_contents(path: &Path, settings: &AppSettings) -> (r: Result<
    String,
    SettingsFileError,
>)
    ensures
        r matches Err(e) ==> settings_error_path(e) == Some(path_buf_of(path)),
        r matches Ok(text) ==> (trim(settings.print.printer.ip@) == settings.print.printer.ip@
            && trim(settings.print.layout.font_face_name@) == settings.print.layout.font_face_name@
            ==> app_settings_read(text@) == Ok::<AppSettingsModel, SettingsFileErrorView>(
            settings.model(),
        )),
        match r {
            Ok(text) => model_check(settings.model()) is Ok && settings_text(
                app_sections_of(*settings),
            ) == Ok::<Seq<char>, Seq<char>>(text@),
            Err(e) => match model_check(settings.model()) {
                Err(d) => e@ == (SettingsFileErrorView::InvalidSettings {
                    details: domain_error_text(d),
                }),
                Ok(()) => settings_text(app_sections_of(*settings)) is Err && e@ == (
                SettingsFileErrorView::Serialize {
                    details: settings_text(app_sections_of(*settings))->Err_0,
                }),
            },
        },
{
    match settings.validate() {
        Ok(()) => {},
        Err(error) => {
            return Err(
                SettingsFileError::InvalidSettings {
                    path: owned_path(path),
                    details: error.message(),
                },
            );
        },
    }
    match app_settings_to_toml(settings) {
        Ok(contents) => Ok(contents),
        Err(details) => Err(SettingsFileError::Serialize { path: owned_path(path), details }),
    }
}

/// A copy of `settings`, field by field.
pub fn copy_print_settings(settings: &PrintSettings) -> (r: PrintSettings)
    ensures
        r.printer.ip@ == settings.printer.ip@,
        r.printer.port == settings.printer.port,
        r.layout.font_size_px == settings.layout.font_size_px,
        r.layout.paper_width_px == settings.layout.paper_width_px,
        r.layout.margin_px == settings.layout.margin_px,
        r.layout.font_face_name@ == settings.layout.font_face_name@,
{
    PrintSettings {
        printer: NetworkPrinterTarget {
            ip: settings.printer.ip.clone(),
            port: settings.printer.port,
        },
        layout: TextImageLayout {
            font_size_px: settings.layout.font_size_px,
            paper_width_px: settings.layout.paper_width_px,
            margin_px: settings.layout.margin_px,
            font_face_name: settings.layout.font_face_name.clone(),
        },
    }
}

/// The UI preferences of an existing settings file's contents, or the defaults when there is no
/// file or it does not read as valid settings.
pub fn existing_ui_settings_or_default(contents: Option<&str>, path: &Path) -> (r: UiSettings)
    ensures
        match contents {
            Some(text) => match app_settings_read(text@) {
                Ok(m) => r.theme == m.theme && r.language == m.language,
                Err(_) => r.theme == UiTheme::Light && r.language == UiLanguage::English,
            },
            None => r.theme == UiTheme::Light && r.language == UiLanguage::English,
        },
{
    match contents {
        Some(text) => match parse_app_settings_toml(text, path) {
            Ok(settings) => settings.ui,
            Err(_) => UiSettings::default(),
        },
        None => UiSettings::default(),
    }
}

/// What a settings file holds after saving `settings`, keeping the UI preferences of its
/// current contents (if they read as valid settings).
pub fn print_settings_file_contents(
    path: &Path,
    settings: &PrintSettings,
    existing_contents: Option<&str>,
) -> (r: Result<String, SettingsFileError>)
    ensures
        r matches Err(e) ==> settings_error_path(e) == Some(path_buf_of(path)),
        exists|ui: UiSettings|
            {
                &&& (match existing_contents {
                    Some(text) => match app_settings_read(text@) {
                        Ok(m) => ui.theme == m.theme && ui.language == m.language,
                        Err(_) => ui.theme == UiTheme::Light && ui.language == UiLanguage::English,
                    },
                    None => ui.theme == UiTheme::Light && ui.language == UiLanguage::English,
                })
                &&& settings_file_outcome(r, settings, ui)
            },
{
    let ui = existing_ui_settings_or_default(existing_contents, path);
    let app_settings = AppSettings { print: copy_print_settings(settings), ui };
    let r = app_settings_file_contents(path, &app_settings);
    assert(app_sections_of(app_settings) == app_sections_of(
        AppSettings { print: *settings, ui },
    ));
    assert(app_settings.model() == (AppSettings { print: *settings, ui }).model());
    assert(settings_file_outcome(r, settings, ui));
    r
}

/// What `app_settings_file_contents` owes for `settings` with preferences `ui`.
pub open spec fn settings_file_outcome(
    r: Result<String, SettingsFileError>,
    settings: &PrintSettings,
    ui: UiSettings,
) -> bool {
    let all = AppSettings { print: *settings, ui };
    match r {
        Ok(text) => model_check(all.model()) is Ok && settings_text(app_sections_of(all)) == Ok::<
            Seq<char>,
            Seq<char>,
        >(text@) && (trim(settings.printer.ip@) == settings.printer.ip@ && trim(
            settings.layout.font_face_name@,
        ) == settings.layout.font_face_name@ ==> app_settings_read(text@) == Ok::<
            AppSettingsModel,
            SettingsFileErrorView,
        >(all.model())),
        Err(e) => match model_check(all.model()) {
            Err(d) => e@ == (SettingsFileErrorView::InvalidSettings {
                details: domain_error_text(d),
            }),
            Ok(()) => settings_text(app_sections_of(all)) is Err && e@ == (
            SettingsFileErrorView::Serialize {
                details: settings_text(app_sections_of(all))->Err_0,
            }),
        },
    }
}


/// The text `Path::display` writes for `path`.
pub uninterp spec fn path_display(path: PathBuf) -> Seq<char>;

/// `Path::display`, written out as a `String`: the path as text, with any part that is not
/// Unicode replaced. The text is named `path_display(path)`.
#[verifier::external_body]
fn path_display_text(path: &PathBuf) -> (r: String)
    ensures
        r@ == path_display(*path),
{
    path.display().to_string()
}

/// The path a settings error carries, if it carries one.
pub open spec fn settings_error_path(e: SettingsFileError) -> Option<PathBuf> {
    match e {
        SettingsFileError::CurrentExecutablePath { .. } => None,
        SettingsFileError::ExecutableDirectoryUnavailable { executable_path } => Some(
            executable_path,
        ),
        SettingsFileError::ExecutableFileNameUnavailable { executable_path } => Some(
            executable_path,
        ),
        SettingsFileError::Read { path, .. } => Some(path),
        SettingsFileError::Write { path, .. } => Some(path),
        SettingsFileError::Serialize { path, .. } => Some(path),
        SettingsFileError::Parse { path, .. } => Some(path),
        SettingsFileError::InvalidValue { path, .. } => Some(path),
        SettingsFileError::InvalidSettings { path, .. } => Some(path),
    }
}

/// How the path of a settings error is written in its message: as `Path::display` writes it, or
/// nothing for an error without a path.
pub open spec fn settings_error_path_text(e: SettingsFileError) -> Seq<char> {
    match settings_error_path(e) {
        Some(path) => path_display(path),
        None => Seq::empty(),
    }
}

/// The text a settings error is shown with, where `path` is how its path is written.
pub open spec fn settings_error_text(e: SettingsFileErrorView, path: Seq<char>) -> Seq<char> {
    match e {
        SettingsFileErrorView::CurrentExecutablePath { details } =>
            "failed to resolve current executable path: "@ + details,
        SettingsFileErrorView::ExecutableDirectoryUnavailable =>
            "failed to resolve executable directory from "@ + path,
        SettingsFileErrorView::ExecutableFileNameUnavailable =>
            "failed to resolve executable file name from "@ + path,
        SettingsFileErrorView::Read { details } => "failed to read settings file "@ + path + ": "@
            + details,
        SettingsFileErrorView::Write { details } => "failed to write settings file "@ + path + ": "@
            + details,
        SettingsFileErrorView::Serialize { details } => "failed to serialize settings file "@ + path
            + ": "@ + details,
        SettingsFileErrorView::Parse { details } => "failed to parse settings file "@ + path + ": "@
            + details,
        SettingsFileErrorView::InvalidValue { field } => "settings file "@ + path
            + " has an invalid value for "@ + field,
        SettingsFileErrorView::InvalidSettings { details } => "settings file "@ + path
            + " contains invalid print settings: "@ + details,
    }
}

impl SettingsFileError {
    /// The text this error is shown with; its path is written as `Path::display` writes it.
    pub fn message(&self) -> (r: String)
        ensures
            r@ == settings_error_text(self@, settings_error_path_text(*self)),
    {
        match self {
            SettingsFileError::CurrentExecutablePath { details } => {
                let mut r = "failed to resolve current executable path: ".to_owned();
                r.append(details.as_str());
                assert(r@ == settings_error_text(self@, Seq::empty()));
                r
            },
            SettingsFileError::ExecutableDirectoryUnavailable { executable_path } => {
                let shown = path_display_text(executable_path);
                let mut r = "failed to resolve executable directory from ".to_owned();
                r.append(shown.as_str());
                assert(r@ == settings_error_text(self@, shown@));
                r
            },
            SettingsFileError::ExecutableFileNameUnavailable { executable_path } => {
                let shown = path_display_text(executable_path);
                let mut r = "failed to resolve executable file name from ".to_owned();
                r.append(shown.as_str());
                assert(r@ == settings_error_text(self@, shown@));
                r
            },
            SettingsFileError::Read { path, details } => {
                let shown = path_display_text(path);
                let mut r = "failed to read settings file ".to_owned();
                r.append(shown.as_str());
                r.append(": ");
                r.append(details.as_str());
                assert(r@ == settings_error_text(self@, shown@));
                r
            },
            SettingsFileError::Write { path, details } => {
                let shown = path_display_text(path);
                let mut r = "failed to write settings file ".to_owned();
                r.append(shown.as_str());
                r.append(": ");
                r.append(details.as_str());
                assert(r@ == settings_error_text(self@, shown@));
                r
            },
            SettingsFileError::Serialize { path, details } => {
                let shown = path_display_text(path);
                let mut r = "failed to serialize settings file ".to_owned();
                r.append(shown.as_str());
                r.append(": ");
                r.append(details.as_str());
                assert(r@ == settings_error_text(self@, shown@));
                r
            },
            SettingsFileError::Parse { path, details } => {
                let shown = path_display_text(path);
                let mut r = "failed to parse settings file ".to_owned();
                r.append(shown.as_str());
                r.append(": ");
                r.append(details.as_str());
                assert(r@ == settings_error_text(self@, shown@));
                r
            },
            SettingsFileError::InvalidValue { path, field } => {
                let shown = path_display_text(path);
                let mut r = "settings file ".to_owned();
                r.append(shown.as_str());
                r.append(" has an invalid value for ");
                r.append(field.as_str());
                assert(r@ == settings_error_text(self@, shown@));
                r
            },
            SettingsFileError::InvalidSettings { path, details } => {
                let shown = path_display_text(path);
                let mut r = "settings file ".to_owned();
                r.append(shown.as_str());
                r.append(" contains invalid print settings: ");
                r.append(details.as_str());
                assert(r@ == settings_error_text(self@, shown@));
                r
            },
        }
    }
}

/// A failed write of the settings file at `path`: the `operation` that failed and why.
pub fn settings_write_error(path: &Path, operation: &str, details: String) -> (r: SettingsFileError)
    ensures
        settings_error_path(r) == Some(path_buf_of(path)),
        r@ == (SettingsFileErrorView::Write { details: operation@ + ": "@ + details@ }),
{
    let mut text = operation.to_owned();
    text.append(": ");
    text.append(details.as_str());
    SettingsFileError::Write { path: owned_path(path), details: text }
}

pub const SETTINGS_SAVE_TEMP_FILE_SUFFIX: &'static str = ".new";

pub const SETTINGS_SAVE_TEMP_ATTEMPTS: usize = 16;

/// What is appended to the settings file's name to name a temporary file: the process id and a
/// counter, then `.new`.
pub fn temporary_file_name_suffix(process_id: u32, counter: u64) -> (r: String)
    ensures
        r@ == "."@ + decimal_digits(process_id as nat) + "."@ + decimal_digits(counter as nat)
            + SETTINGS_SAVE_TEMP_FILE_SUFFIX@,
{
    let mut r = ".".to_owned();
    r.append(decimal_string(process_id as u64).as_str());
    r.append(".");
    r.append(decimal_string(counter).as_str());
    r.append(SETTINGS_SAVE_TEMP_FILE_SUFFIX);
    r
}

/// How an attempt to create a fresh temporary file went.
#[derive(Debug, Clone, PartialEq, Eq)]
pub enum TempFileCreation {
    Created,
    AlreadyExists,
    Failed { details: String },
}

/// What follows an attempt to create a temporary file.
#[derive(Debug, PartialEq, Eq)]
pub enum TempFileStep {
    /// Write the contents to the file just created, then move it over the settings file.
    WriteContents,
    /// Try again under a new temporary name.
    TryAnotherName,
    /// Give up with this error.
    Stop(SettingsFileError),
}

/// The step after attempt number `attempt` (from 0) to create a temporary file next to the
/// settings file at `path`: a name that is taken is retried, up to 16 attempts in all.
pub fn temp_file_step(path: &Path, attempt: usize, creation: TempFileCreation) -> (r: TempFileStep)
    ensures
        r matches TempFileStep::Stop(e) ==> settings_error_path(e) == Some(path_buf_of(path)),
        match creation {
            TempFileCreation::Created => r is WriteContents,
            TempFileCreation::AlreadyExists => if attempt + 1 < SETTINGS_SAVE_TEMP_ATTEMPTS {
                r is TryAnotherName
            } else {
                r matches TempFileStep::Stop(e) && e@ == (SettingsFileErrorView::Write {
                    details: "failed to create a unique temporary settings file"@,
                })
            },
            TempFileCreation::Failed { details } => r matches TempFileStep::Stop(e) && e@ == (
            SettingsFileErrorView::Write {
                details: "create temporary settings file"@ + ": "@ + details@,
            }),
        },
{
    match creation {
        TempFileCreation::Created => TempFileStep::WriteContents,
        TempFileCreation::AlreadyExists => {
            if attempt < SETTINGS_SAVE_TEMP_ATTEMPTS - 1 {
                TempFileStep::TryAnotherName
            } else {
                TempFileStep::Stop(
                    SettingsFileError::Write {
                        path: owned_path(path),
                        details: "failed to create a unique temporary settings file".to_owned(),
                    },
                )
            }
        },
        TempFileCreation::Failed { details } => TempFileStep::Stop(
            settings_write_error(path, "create temporary settings file", details),
        ),
    }
}

/// How reading the settings file went.
#[derive(Debug, Clone, PartialEq, Eq)]
pub enum SettingsFileRead {
    Contents(String),
    Missing,
    Failed { details: String },
}

/// The settings a read gives: those in the file, or defaults still to be written as `contents`.
#[derive(Debug, Clone, PartialEq, Eq)]
pub enum LoadedSettings {
    Existing(AppSettings),
    Created { settings: AppSettings, contents: String },
}

/// Whether `s` are the default settings.
pub open spec fn is_default_app_settings(s: AppSettings) -> bool {
    &&& s.print.printer.ip@ == DEFAULT_PRINTER_IP@
    &&& s.print.printer.port == DEFAULT_PRINTER_PORT
    &&& s.print.layout.font_size_px == DEFAULT_FONT_SIZE_PX
    &&& s.print.layout.paper_width_px == DEFAULT_PAPER_WIDTH_PX
    &&& s.print.layout.margin_px == DEFAULT_MARGIN_PX
    &&& s.print.layout.font_face_name@ == DEFAULT_FONT_FACE_NAME@
    &&& s.ui.theme == UiTheme::Light
    &&& s.ui.language == UiLanguage::English
}

/// The settings after reading the file at `path`: its contents are parsed; a missing file gives
/// the defaults and the text to create it with; any other failure is a read error.
pub fn app_settings_after_read(path: &Path, read: SettingsFileRead) -> (r: Result<
    LoadedSettings,
    SettingsFileError,
>)
    ensures
        r matches Err(e) ==> settings_error_path(e) == Some(path_buf_of(path)),
        match read {
            SettingsFileRead::Contents(text) => match r {
                Ok(LoadedSettings::Existing(s)) => app_settings_read(text@) == Ok::<
                    AppSettingsModel,
                    SettingsFileErrorView,
                >(s.model()),
                Ok(LoadedSettings::Created { .. }) => false,
                Err(e) => app_settings_read(text@) == Err::<AppSettingsModel, SettingsFileErrorView>(
                    e@,
                ),
            },
            SettingsFileRead::Missing => match r {
                Ok(LoadedSettings::Created { settings, contents }) => is_default_app_settings(
                    settings,
                ) && model_check(settings.model()) is Ok && settings_text(
                    app_sections_of(settings),
                ) == Ok::<Seq<char>, Seq<char>>(contents@),
                Ok(LoadedSettings::Existing(_)) => false,
                Err(e) => exists|s: AppSettings|
                    {
                        &&& is_default_app_settings(s)
                        &&& settings_text(app_sections_of(s)) matches Err(d)
                        &&& e@ == (SettingsFileErrorView::Serialize { details: d })
                    },
            },
            SettingsFileRead::Failed { details } => r matches Err(e) && e@ == (
            SettingsFileErrorView::Read { details: details@ }),
        },
{
    match read {
        SettingsFileRead::Contents(text) => match parse_app_settings_toml(text.as_str(), path) {
            Ok(settings) => Ok(LoadedSettings::Existing(settings)),
            Err(e) => Err(e),
        },
        SettingsFileRead::Missing => {
            let settings = AppSettings::default();
            proof {
                lemma_default_settings_valid(settings);
            }
            match app_settings_file_contents(path, &settings) {
                Ok(contents) => Ok(LoadedSettings::Created { settings, contents }),
                Err(e) => {
                    assert(is_default_app_settings(settings));
                    Err(e)
                },
            }
        },
        SettingsFileRead::Failed { details } => Err(
            SettingsFileError::Read { path: owned_path(path), details },
        ),
    }
}


/// The default settings pass validation.
pub proof fn lemma_default_settings_valid(s: AppSettings)
    requires
        is_default_app_settings(s),
    ensures
        model_check(s.model()) is Ok,
{
    reveal_strlit("192.168.0.1");
    reveal_strlit("Malgun Gothic");
    let ip: Seq<char> = seq!['1', '9', '2', '.', '1', '6', '8', '.', '0', '.', '1'];
    assert(s.print.printer.ip@ =~= ip);
    lemma_default_host_valid(ip);
    let face = s.print.layout.font_face_name@;
    assert(face.len() == 13 && face[0] == 'M' && face[12] == 'c');
    assert(trim_start(face) == face);
    assert(trim_end(face) == face);
}

/// The default printer address is a valid IPv4 literal, with nothing to trim.
proof fn lemma_default_host_valid(ip: Seq<char>)
    requires
        ip == seq!['1', '9', '2', '.', '1', '6', '8', '.', '0', '.', '1'],
    ensures
        trim(ip) == ip,
        is_valid_printer_host(ip),
{
    assert(trim_start(ip) == ip);
    assert(trim_end(ip) == ip);
    let a: Seq<char> = seq!['1', '9', '2'];
    let b: Seq<char> = seq!['1', '6', '8'];
    let c: Seq<char> = seq!['0'];
    let d: Seq<char> = seq!['1'];
    reveal_with_fuel(split_on, 12);
    assert(ip.drop_last() =~= seq!['1', '9', '2', '.', '1', '6', '8', '.', '0', '.']);
    assert(split_on(seq!['1'], '.') =~= seq![seq!['1']]) by {
        assert(seq!['1'].drop_last() =~= Seq::<char>::empty());
    }
    lemma_split_prefixes(ip);
    assert(split_on(ip, '.') =~~= seq![a, b, c, d]);
    assert(digits_value(a) == 192) by {
        reveal_with_fuel(digits_value, 4);
        assert(a.drop_last() =~= seq!['1', '9']);
        assert(a.drop_last().drop_last() =~= seq!['1']);
        assert(a.drop_last().drop_last().drop_last() =~= Seq::<char>::empty());
    }
    assert(digits_value(b) == 168) by {
        reveal_with_fuel(digits_value, 4);
        assert(b.drop_last() =~= seq!['1', '6']);
        assert(b.drop_last().drop_last() =~= seq!['1']);
        assert(b.drop_last().drop_last().drop_last() =~= Seq::<char>::empty());
    }
    assert(digits_value(c) == 0) by {
        reveal_with_fuel(digits_value, 2);
        assert(c.drop_last() =~= Seq::<char>::empty());
    }
    assert(digits_value(d) == 1) by {
        reveal_with_fuel(digits_value, 2);
        assert(d.drop_last() =~= Seq::<char>::empty());
    }
    let parts = split_on(ip, '.');
    assert(is_decimal_octet(parts[0]));
    assert(is_decimal_octet(parts[1]));
    assert(is_decimal_octet(parts[2]));
    assert(is_decimal_octet(parts[3]));
    assert(is_ipv4_literal(ip));
}

/// The pieces of each prefix of the default printer address.
proof fn lemma_split_prefixes(ip: Seq<char>)
    requires
        ip == seq!['1', '9', '2', '.', '1', '6', '8', '.', '0', '.', '1'],
    ensures
        split_on(ip, '.') == seq![
            seq!['1', '9', '2'],
            seq!['1', '6', '8'],
            seq!['0'],
            seq!['1'],
        ],
{
    let mut k: int = 0;
    let e = Seq::<char>::empty();
    assert(split_on(ip.take(0), '.') =~~= seq![e]);
    assert(ip.take(1).drop_last() =~= ip.take(0));
    assert(split_on(ip.take(1), '.') =~~= seq![seq!['1']]);
    assert(ip.take(2).drop_last() =~= ip.take(1));
    assert(split_on(ip.take(2), '.') =~~= seq![seq!['1', '9']]);
    assert(ip.take(3).drop_last() =~= ip.take(2));
    assert(split_on(ip.take(3), '.') =~~= seq![seq!['1', '9', '2']]);
    assert(ip.take(4).drop_last() =~= ip.take(3));
    assert(split_on(ip.take(4), '.') =~~= seq![seq!['1', '9', '2'], e]);
    assert(ip.take(5).drop_last() =~= ip.take(4));
    assert(split_on(ip.take(5), '.') =~~= seq![seq!['1', '9', '2'], seq!['1']]);
    assert(ip.take(6).drop_last() =~= ip.take(5));
    assert(split_on(ip.take(6), '.') =~~= seq![seq!['1', '9', '2'], seq!['1', '6']]);
    assert(ip.take(7).drop_last() =~= ip.take(6));
    assert(split_on(ip.take(7), '.') =~~= seq![seq!['1', '9', '2'], seq!['1', '6', '8']]);
    assert(ip.take(8).drop_last() =~= ip.take(7));
    assert(split_on(ip.take(8), '.') =~~= seq![seq!['1', '9', '2'], seq!['1', '6', '8'], e]);
    assert(ip.take(9).drop_last() =~= ip.take(8));
    assert(split_on(ip.take(9), '.') =~~= seq![seq!['1', '9', '2'], seq!['1', '6', '8'], seq!['0']]);
    assert(ip.take(10).drop_last() =~= ip.take(9));
    assert(split_on(ip.take(10), '.') =~~= seq![
        seq!['1', '9', '2'],
        seq!['1', '6', '8'],
        seq!['0'],
        e,
    ]);
    assert(ip.take(11).drop_last() =~= ip.take(10));
    assert(ip.take(11) =~= ip);
}

} // verus!
