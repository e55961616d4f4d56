//! The settings that the user keeps between runs, and the TOML file that
//! holds them.

use crate::text::{push_text, texts};
use vstd::prelude::*;
use vstd::string::*;

verus! {

/// The stored settings; each may be absent.
#[derive(Debug, Clone, PartialEq, Eq)]
pub struct AppConfig {
    pub fps: Option<u32>,
    pub resolution: Option<String>,
    pub codec: Option<String>,
}

/// The stored settings as mathematical values.
pub struct ConfigSpec {
    pub fps: Option<u32>,
    pub resolution: Option<Seq<char>>,
    pub codec: Option<Seq<char>>,
}

/// A text that may be absent, as a mathematical value.
pub open spec fn text_view(s: Option<String>) -> Option<Seq<char>> {
    match s {
        Some(t) => Some(t@),
        None => None,
    }
}

impl View for AppConfig {
    type V = ConfigSpec;

    open spec fn view(&self) -> ConfigSpec {
        ConfigSpec {
            fps: self.fps,
            resolution: text_view(self.resolution),
            codec: text_view(self.codec),
        }
    }
}

/// Settings of which none is set.
pub open spec fn unset() -> ConfigSpec {
    ConfigSpec { fps: None, resolution: None, codec: None }
}

impl Default for AppConfig {
    /// Settings of which none is set.
    fn default() -> (r: AppConfig)
        ensures
            r@ == unset(),
    {
        AppConfig { fps: None, resolution: None, codec: None }
    }
}

/// Where the settings file lies below the user's configuration directory.
pub fn config_file_path() -> (r: Vec<String>)
    ensures
        texts(r@) == seq!["screenrec"@, "config.toml"@],
{
    let mut parts: Vec<String> = Vec::new();
    assert(texts(parts@) =~= seq![]);
    push_text(&mut parts, "screenrec");
    push_text(&mut parts, "config.toml");
    assert(texts(parts@) =~= seq!["screenrec"@, "config.toml"@]);
    parts
}

/// What a TOML text holds under a key of its top level.
#[derive(Debug, Clone, PartialEq, Eq)]
pub enum Entry {
    /// The text is no TOML document.
    Unreadable,
    /// The document has no such key.
    Absent,
    /// An integer.
    Integer(i64),
    /// A string.
    Text(String),
    /// A value of another kind: a float, a boolean, a date, an array or a
    /// table.
    Other,
}

/// An entry as a mathematical value.
pub enum EntrySpec {
    Unreadable,
    Absent,
    Integer(i64),
    Text(Seq<char>),
    Other,
}

impl View for Entry {
    type V = EntrySpec;

    open spec fn view(&self) -> EntrySpec {
        match *self {
            Entry::Unreadable => EntrySpec::Unreadable,
            Entry::Absent => EntrySpec::Absent,
            Entry::Integer(n) => EntrySpec::Integer(n),
            Entry::Text(s) => EntrySpec::Text(s@),
            Entry::Other => EntrySpec::Other,
        }
    }
}

/// What a TOML text holds under a key of its top level.
pub uninterp spec fn toml_entry(text: Seq<char>, key: Seq<char>) -> EntrySpec;

/// toml's `from_str` into a `Table`, and `Map::get` on it: parses the
/// text and hands out the kind and, for an integer or a string, the value
/// of what stands under the key.  The result depends on the two texts
/// alone.
#[verifier::external_body]
fn read_entry(text: &str, key: &str) -> (r: Entry)
    ensures
        r@ == toml_entry(text@, key@),
{
    match toml::from_str::<toml::Table>(text) {
        Err(_) => Entry::Unreadable,
        Ok(table) => match table.get(key) {
            None => Entry::Absent,
            Some(toml::Value::Integer(n)) => Entry::Integer(*n),
            Some(toml::Value::String(s)) => Entry::Text(s.clone()),
            Some(_) => Entry::Other,
        },
    }
}

/// The frame rate that an entry gives: none for an absent entry, the
/// number for an integer that fits 32 unsigned bits.  Any other entry is
/// not a frame rate, and the outer result is `None`.
pub open spec fn rate_setting(e: EntrySpec) -> Option<Option<u32>> {
    match e {
        EntrySpec::Absent => Some(None),
        EntrySpec::Integer(n) => if 0 <= n <= u32::MAX {
            Some(Some(n as u32))
        } else {
            None
        },
        _ => None,
    }
}

/// The text that an entry gives: none for an absent entry, the string for
/// a string.  Any other entry is not a text, and the outer result is
/// `None`.
pub open spec fn text_setting(e: EntrySpec) -> Option<Option<Seq<char>>> {
    match e {
        EntrySpec::Absent => Some(None),
        EntrySpec::Text(s) => Some(Some(s)),
        _ => None,
    }
}

/// The settings that three entries give, where each has the kind that its
/// setting asks for.
pub open spec fn settings_of(fps: EntrySpec, resolution: EntrySpec, codec: EntrySpec) -> Option<
    ConfigSpec,
> {
    if rate_setting(fps) is Some && text_setting(resolution) is Some && text_setting(codec)
        is Some {
        Some(
            ConfigSpec {
                fps: rate_setting(fps)->0,
                resolution: text_setting(resolution)->0,
                codec: text_setting(codec)->0,
            },
        )
    } else {
        None
    }
}

/// The text that an entry gives.
fn text_from(e: Entry) -> (r: Option<Option<String>>)
    ensures
        r is Some == text_setting(e@) is Some,
        r matches Some(t) ==> text_view(t) == text_setting(e@)->0,
{
    match e {
        Entry::Absent => Some(None),
        Entry::Text(s) => Some(Some(s)),
        _ => None,
    }
}

/// The settings that the entries under `fps`, `resolution` and `codec`
/// give.  An entry of the wrong kind, or a frame rate out of range, gives
/// none.
pub fn settings_from(fps: Entry, resolution: Entry, codec: Entry) -> (r: Option<AppConfig>)
    ensures
        r is Some == settings_of(fps@, resolution@, codec@) is Some,
        r matches Some(c) ==> c@ == settings_of(fps@, resolution@, codec@)->0,
{
    let rate: Option<u32> = match fps {
        Entry::Absent => None,
        Entry::Integer(n) => {
            if n < 0 || n > 0xFFFF_FFFF {
                return None;
            }
            Some(n as u32)
        },
        _ => {
            return None;
        },
    };
    let resolution = match text_from(resolution) {
        Some(t) => t,
        None => {
            return None;
        },
    };
    let codec = match text_from(codec) {
        Some(t) => t,
        None => {
            return None;
        },
    };
    Some(AppConfig { fps: rate, resolution, codec })
}

/// The settings that a TOML text holds.  Keys other than the three
/// settings are passed over.
pub open spec fn stored_settings(text: Seq<char>) -> Option<ConfigSpec> {
    settings_of(
        toml_entry(text, "fps"@),
        toml_entry(text, "resolution"@),
        toml_entry(text, "codec"@),
    )
}

/// Reads the settings from the text of a settings file.
pub fn parse_config(text: &str) -> (r: Option<AppConfig>)
    ensures
        r is Some == stored_settings(text@) is Some,
        r matches Some(c) ==> c@ == stored_settings(text@)->0,
{
    let fps = read_entry(text, "fps");
    let resolution = read_entry(text, "resolution");
    let codec = read_entry(text, "codec");
    settings_from(fps, resolution, codec)
}

/// What is reported of a settings file that cannot be read as settings.
pub open spec fn parse_failure(path: Seq<char>) -> Seq<char> {
    "Failed to parse config file: "@ + path
        + "\nThe file may be corrupted. You can delete it and run 'screenrec config' to recreate it."@
}

/// The settings to work with: those that the file holds, or, where no
/// settings file exists, settings of which none is set.  A file that does
/// not hold settings is an error that names the file.
pub fn load_config(path: &str, content: Option<&str>) -> (r: Result<AppConfig, String>)
    ensures
        content is None ==> (r matches Ok(c) && c@ == unset()),
        content matches Some(text) ==> match stored_settings(text@) {
            Some(settings) => r matches Ok(c) && c@ == settings,
            None => r matches Err(m) && m@ == parse_failure(path@),
        },
{
    match content {
        None => Ok(AppConfig { fps: None, resolution: None, codec: None }),
        Some(text) => match parse_config(text) {
            Some(c) => Ok(c),
            None => {
                let mut m = String::from_str("Failed to parse config file: ");
                m.append(path);
                m.append(
                    "\nThe file may be corrupted. You can delete it and run 'screenrec config' to recreate it.",
                );
                Err(m)
            },
        },
    }
}

/// The line that TOML writes for an integer under a key.
pub uninterp spec fn toml_integer_line(key: Seq<char>, value: i64) -> Option<Seq<char>>;

/// The line that TOML writes for a string under a key.
pub uninterp spec fn toml_text_line(key: Seq<char>, value: Seq<char>) -> Option<Seq<char>>;

/// toml's `to_string_pretty` on a table of one integer: the document that
/// holds the value under the key, or nothing where toml reports an error.
/// The result depends on the key and the number alone.
#[verifier::external_body]
fn integer_line(key: &str, value: i64) -> (r: Option<String>)
    ensures
        text_view(r) == toml_integer_line(key@, value),
{
    let mut table = toml::Table::new();
    table.insert(key.to_string(), toml::Value::Integer(value));
    toml::to_string_pretty(&table).ok()
}

/// toml's `to_string_pretty` on a table of one string: the document that
/// holds the value under the key, or nothing where toml reports an error.
/// The result depends on the two texts alone.
#[verifier::external_body]
fn text_line(key: &str, value: &str) -> (r: Option<String>)
    ensures
        text_view(r) == toml_text_line(key@, value@),
{
    let mut table = toml::Table::new();
    table.insert(key.to_string(), toml::Value::String(value.to_string()));
    toml::to_string_pretty(&table).ok()
}

/// The lines of a settings file one after the other, where each was
/// written.
pub open spec fn document_of(
    fps: Option<Seq<char>>,
    resolution: Option<Seq<char>>,
    codec: Option<Seq<char>>,
) -> Option<Seq<char>> {
    if fps is Some && resolution is Some && codec is Some {
        Some(fps->0 + resolution->0 + codec->0)
    } else {
        None
    }
}

/// Puts the lines of a settings file together: the frame rate, the
/// resolution, the codec.  A line that could not be written leaves no
/// document.
pub fn assemble_document(
    fps: Option<String>,
    resolution: Option<String>,
    codec: Option<String>,
) -> (r: Option<String>)
    ensures
        text_view(r) == document_of(text_view(fps), text_view(resolution), text_view(codec)),
{
    match (fps, resolution, codec) {
        (Some(a), Some(b), Some(c)) => {
            let mut out = a;
            out.append(b.as_str());
            out.append(c.as_str());
            Some(out)
        },
        _ => None,
    }
}

/// The line of the frame rate: empty where none is set.
pub open spec fn rate_line(fps: Option<u32>) -> Option<Seq<char>> {
    match fps {
        None => Some(seq![]),
        Some(n) => toml_integer_line("fps"@, n as i64),
    }
}

/// The line of a text setting: empty where none is set.
pub open spec fn setting_line(key: Seq<char>, value: Option<Seq<char>>) -> Option<Seq<char>> {
    match value {
        None => Some(seq![]),
        Some(t) => toml_text_line(key, t),
    }
}

/// The text of the settings file for the given settings: one line for
/// each setting that is set.
pub open spec fn settings_text(c: ConfigSpec) -> Option<Seq<char>> {
    document_of(
        rate_line(c.fps),
        setting_line("resolution"@, c.resolution),
        setting_line("codec"@, c.codec),
    )
}

/// The line of a setting that is not set.
fn empty_line() -> (r: String)
    ensures
        r@ == Seq::<char>::empty(),
{
    let empty = String::from_str("");
    proof {
        reveal_strlit("");
    }
    assert(empty@ =~= seq![]);
    empty
}

/// The line of a text setting.
fn write_setting(key: &str, value: &Option<String>) -> (r: Option<String>)
    ensures
        text_view(r) == setting_line(key@, text_view(*value)),
{
    match value {
        None => Some(empty_line()),
        Some(t) => text_line(key, t.as_str()),
    }
}

/// The text to write into the settings file, or what is reported where
/// the settings cannot be written as TOML.
pub fn save_config(cfg: &AppConfig) -> (r: Result<String, String>)
    ensures
        match settings_text(cfg@) {
            Some(text) => r matches Ok(t) && t@ == text,
            None => r matches Err(m) && m@ == "Failed to serialize configuration to TOML format"@,
        },
{
    let fps = match cfg.fps {
        None => Some(empty_line()),
        Some(n) => integer_line("fps", n as i64),
    };
    let resolution = write_setting("resolution", &cfg.resolution);
    let codec = write_setting("codec", &cfg.codec);
    match assemble_document(fps, resolution, codec) {
        Some(t) => Ok(t),
        None => Err(String::from_str("Failed to serialize configuration to TOML format")),
    }
}

} // verus!
