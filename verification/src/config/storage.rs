//! Reading a configuration file: from bytes to settings, and to the completed file.

use vstd::prelude::*;

use crate::config::bindings::{bindings_problem, clash, first_clash};
use crate::config::defaults::{default_config, default_text};
use crate::config::document::{
    blank, entries_of, has_value, ini_error, ini_sections, parse_ini, IniDocument, IniSyntaxError,
    SectionView,
};
use crate::config::encoding::{
    decode, decoded, encode, encoded, encoding_round_trip, DecodeError, IniEncoding,
};
use crate::config::hotkey::Hotkey;
use crate::config::merge::{
    completion_keeps_values, merge_missing, merge_result, source_of, template_of, MergeError,
};
use crate::config::schema::{
    first_rejected, hotkey_setting, hotkeys_setting, is_loaded, no_entry_in_blank,
    optional_hotkey_setting, Config, ConfigError,
};
use crate::config::stability::end_is_read;
use crate::config::template::{default_completion_is_stable, default_settings_explain_themselves};

verus! {

/// Largest configuration file.
pub const MAX_INI_BYTES: u64 = 1048576;

/// Why a file gives no configuration.
#[derive(Debug, PartialEq, Eq)]
pub enum LoadError {
    /// The file is larger than 1 MiB.
    Size,
    /// The bytes are no text.
    Decode(DecodeError),
    /// The text is no INI document.
    Syntax(IniSyntaxError),
    /// An existing file holds no value; it may be in the middle of being saved.
    Blank,
    /// A value is invalid.
    Config(ConfigError),
    /// The document cannot be completed.
    Merge(MergeError),
    /// A value of the completed document is invalid.
    Completed(ConfigError),
    /// The completed file would be larger than 1 MiB.
    CompletedSize,
}

/// A configuration with the contents of its file.
#[derive(Debug, PartialEq, Eq)]
pub struct LoadedConfig {
    pub config: Config,
    /// The bytes of the completed file.
    pub contents: Vec<u8>,
    /// Whether the file has to be written.
    pub migrated: bool,
}

/// Whether bytes are within the size limit.
pub fn check_size(bytes: &[u8]) -> (r: Result<(), LoadError>)
    ensures
        r is Ok <==> bytes@.len() <= MAX_INI_BYTES,
        r is Err ==> r->Err_0 == LoadError::Size,
{
    if bytes.len() as u64 > MAX_INI_BYTES {
        return Err(LoadError::Size);
    }
    Ok(())
}

/// Whether a result is that of reading the settings of a text.
pub open spec fn is_parsed(r: Result<Config, LoadError>, text: Seq<char>) -> bool {
    match ini_sections(text) {
        None => r matches Err(LoadError::Syntax(error)) && error@ == ini_error(text),
        Some(d) => match r {
            Ok(config) => is_loaded(Ok(config), d),
            Err(LoadError::Config(error)) => is_loaded(Err(error), d),
            Err(_) => false,
        },
    }
}

/// Reads the settings of a text.
pub fn parse_config(text: &str) -> (r: Result<Config, LoadError>)
    ensures
        is_parsed(r, text@),
{
    match parse_ini(text) {
        Err(error) => Err(LoadError::Syntax(error)),
        Ok(document) => load_document(&document),
    }
}

fn load_document(document: &IniDocument) -> (r: Result<Config, LoadError>)
    ensures
        match r {
            Ok(config) => is_loaded(Ok(config), document@),
            Err(LoadError::Config(error)) => is_loaded(Err(error), document@),
            Err(_) => false,
        },
{
    match Config::load(document) {
        Ok(config) => Ok(config),
        Err(error) => Err(LoadError::Config(error)),
    }
}

/// The bytes that are read: those of the file, or those of the template where there is none.
pub open spec fn source_bytes(original: Option<Seq<u8>>) -> Seq<u8> {
    match original {
        Some(bytes) => bytes,
        None => vstd::utf8::encode_utf8(default_text()),
    }
}

/// Whether a result is that of loading a file, or the template where there is no file. An
/// existing file without a value is refused, and invalid values are refused before anything is
/// written.
pub open spec fn is_load(r: Result<LoadedConfig, LoadError>, original: Option<Seq<u8>>) -> bool {
    if original is Some && original->0.len() > MAX_INI_BYTES {
        r matches Err(LoadError::Size)
    } else {
        match decoded(source_bytes(original)) {
            Err(error) => r matches Err(LoadError::Decode(e)) && e == error,
            Ok((text, encoding)) => match ini_sections(text) {
                None => r matches Err(LoadError::Syntax(error)) && error@ == ini_error(text),
                Some(d) => if original is Some && blank(d) {
                    r matches Err(LoadError::Blank)
                } else {
                    is_completion(r, original, text, encoding, d)
                },
            },
        }
    }
}

/// The part of loading that follows the parse of the text.
pub open spec fn is_completion(
    r: Result<LoadedConfig, LoadError>,
    original: Option<Seq<u8>>,
    text: Seq<char>,
    encoding: IniEncoding,
    d: Seq<SectionView>,
) -> bool {
    let merged = merge_result(text, template_of(default_text()));
    match r {
        Err(LoadError::Config(error)) => is_loaded(Err(error), d),
        Err(LoadError::Merge(error)) => loadable(d) && merged is Err && merged->Err_0 == error@,
        Err(LoadError::Completed(error)) => loadable(d) && merged is Ok && is_parsed(
            Err(LoadError::Config(error)),
            merged->Ok_0,
        ),
        Err(LoadError::CompletedSize) => loadable(d) && merged is Ok && encoded(
            merged->Ok_0,
            encoding,
        ).len() > MAX_INI_BYTES,
        Err(_) => false,
        Ok(loaded) => {
            &&& loadable(d)
            &&& merged is Ok
            &&& is_parsed(Ok(loaded.config), merged->Ok_0)
            &&& loaded.contents@ == encoded(merged->Ok_0, encoding)
            &&& loaded.contents@.len() <= MAX_INI_BYTES
            &&& loaded.migrated == (original != Some(loaded.contents@))
        },
    }
}

/// Whether a document has a configuration.
pub open spec fn loadable(d: Seq<SectionView>) -> bool {
    exists|config: Config| is_loaded(Ok(config), d)
}

/// Whether two byte sequences are equal.
pub fn same_bytes(a: &[u8], b: &[u8]) -> (r: bool)
    ensures
        r == (a@ == b@),
{
    if a.len() != b.len() {
        return false;
    }
    for i in 0..a.len()
        invariant
            a@.len() == b@.len(),
            forall|k: int| 0 <= k < i ==> a@[k] == b@[k],
    {
        if a[i] != b[i] {
            assert(a@[i as int] != b@[i as int]);
            return false;
        }
    }
    assert(a@ =~= b@);
    true
}

/// Loads a file, or the template where there is no file: the settings, and the bytes that the
/// file has to hold.
pub fn load_bytes(original: Option<&[u8]>) -> (r: Result<LoadedConfig, LoadError>)
    ensures
        is_load(
            r,
            match original {
                Some(bytes) => Some(bytes@),
                None => None,
            },
        ),
{
    let read = match original {
        Some(bytes) => {
            match check_size(bytes) {
                Err(error) => {
                    return Err(error);
                },
                Ok(()) => {},
            }
            decode(bytes)
        },
        None => {
            let template = default_config();
            decode(template.as_str().as_bytes())
        },
    };
    let (text, encoding) = match read {
        Err(error) => {
            return Err(LoadError::Decode(error));
        },
        Ok(pair) => pair,
    };
    let document = match parse_ini(text.as_str()) {
        Err(error) => {
            return Err(LoadError::Syntax(error));
        },
        Ok(document) => document,
    };
    if original.is_some() && document.is_blank() {
        return Err(LoadError::Blank);
    }
    // Invalid values of the user are refused before any file is written.
    match load_document(&document) {
        Err(error) => {
            return Err(error);
        },
        Ok(config) => {
            assert(is_loaded(Ok(config), document@));
        },
    }
    let merged = match merge_missing(text.as_str()) {
        Err(error) => {
            return Err(LoadError::Merge(error));
        },
        Ok(merged) => merged,
    };
    let config = match parse_config(merged.as_str()) {
        Err(LoadError::Config(error)) => {
            return Err(LoadError::Completed(error));
        },
        Err(error) => {
            proof {
                completion_keeps_values(text@, template_of(default_text()), seq![], seq![]);
            }
            return Err(error);
        },
        Ok(config) => config,
    };
    let contents = encode(merged.as_str(), encoding);
    if contents.len() as u64 > MAX_INI_BYTES {
        return Err(LoadError::CompletedSize);
    }
    let migrated = match original {
        Some(bytes) => !same_bytes(bytes, contents.as_slice()),
        None => true,
    };
    Ok(LoadedConfig { config, contents, migrated })
}

/// An existing file without a value is never taken for the defaults.
pub proof fn blank_file_is_refused(
    r: Result<LoadedConfig, LoadError>,
    bytes: Seq<u8>,
    text: Seq<char>,
    encoding: IniEncoding,
)
    requires
        is_load(r, Some(bytes)),
        bytes.len() <= MAX_INI_BYTES,
        decoded(bytes) == Ok::<_, DecodeError>((text, encoding)),
        ini_sections(text) is Some,
        blank(ini_sections(text)->0),
    ensures
        r matches Err(LoadError::Blank),
{
}

/// A loaded file keeps its encoding: its completed bytes decode to the completed text. The one
/// exception is a completed text that begins with U+FEFF and is written without a mark.
pub proof fn loading_keeps_the_encoding(
    r: Result<LoadedConfig, LoadError>,
    bytes: Seq<u8>,
    text: Seq<char>,
    encoding: IniEncoding,
)
    requires
        is_load(r, Some(bytes)),
        r is Ok,
        decoded(bytes) == Ok::<_, DecodeError>((text, encoding)),
        ({
            let merged = merge_result(text, template_of(default_text()))->Ok_0;
            encoding == IniEncoding::Utf8 ==> merged.len() == 0 || merged[0] != '\u{feff}'
        }),
    ensures
        decoded(r->Ok_0.contents@) == Ok::<_, DecodeError>(
            (merge_result(text, template_of(default_text()))->Ok_0, encoding),
        ),
{
    encoding_round_trip(
        merge_result(text, template_of(default_text()))->Ok_0,
        encoding,
    );
}

/// Whether two bindings have the same keys and belong to the same function.
spec fn same_keys(a: Hotkey, b: Hotkey) -> bool {
    a.id == b.id && a.modifier@[0] == b.modifier@[0] && a.code == b.code
}

spec fn same_bindings(a: Seq<Hotkey>, b: Seq<Hotkey>) -> bool {
    &&& a.len() == b.len()
    &&& forall|i: int| 0 <= i < a.len() ==> same_keys(#[trigger] a[i], #[trigger] b[i])
}

proof fn same_clash(a: Seq<Hotkey>, b: Seq<Hotkey>, i: int, j: int)
    requires
        same_bindings(a, b),
        0 <= j,
    ensures
        first_clash(a, i, j) == first_clash(b, i, j),
    decreases a.len() - i, a.len() - j,
{
    if 0 <= i < a.len() {
        if j >= a.len() {
            same_clash(a, b, i + 1, i + 2);
        } else {
            assert(same_keys(a[i], b[i]));
            assert(same_keys(a[j], b[j]));
            if !clash(a[i], a[j]) {
                same_clash(a, b, i, j + 1);
            }
        }
    }
}

/// Two configurations of one document have the same sizes and the same bindings.
proof fn document_decides_the_settings(a: Config, b: Config, d: Seq<SectionView>)
    requires
        a.reads(d),
        b.reads(d),
    ensures
        a.layout_options() == b.layout_options(),
        bindings_problem(a) is None <==> bindings_problem(b) is None,
{
    reveal(hotkeys_setting);
    reveal(hotkey_setting);
    reveal(optional_hotkey_setting);
    assert(same_bindings(a.switch_windows_hotkey@, b.switch_windows_hotkey@));
    assert(same_bindings(a.switch_apps_hotkey@, b.switch_apps_hotkey@));
    assert(same_keys(a.search_hotkey, b.search_hotkey));
    assert(same_keys(a.details_hotkey, b.details_hotkey));
    assert(a.pause_hotkey is Some == b.pause_hotkey is Some);
    assert(a.pause_hotkey is Some ==> same_keys(a.pause_hotkey->0, b.pause_hotkey->0));
    assert(same_bindings(a.enabled_hotkeys(), b.enabled_hotkeys()));
    same_clash(a.enabled_hotkeys(), b.enabled_hotkeys(), 0, 1);
}

/// Whether a document loads is decided by the document: no document has both a configuration and
/// an error.
pub proof fn document_decides_the_load(
    a: Result<Config, ConfigError>,
    b: Result<Config, ConfigError>,
    d: Seq<SectionView>,
)
    requires
        is_loaded(a, d),
        is_loaded(b, d),
    ensures
        a is Ok <==> b is Ok,
{
    if a is Ok && b is Err {
        loaded_is_not_refused(a->Ok_0, b->Err_0, d);
    } else if b is Ok && a is Err {
        loaded_is_not_refused(b->Ok_0, a->Err_0, d);
    }
}

proof fn loaded_is_not_refused(config: Config, error: ConfigError, d: Seq<SectionView>)
    requires
        is_loaded(Ok(config), d),
    ensures
        !is_loaded(Err(error), d),
{
    if is_loaded(Err(error), d) {
        match error {
            ConfigError::Layout(e) => {
                let other = choose|other: Config| #[trigger]
                    other.reads(d) && other.layout_options().conflict() == Some(e);
                document_decides_the_settings(config, other, d);
            },
            ConfigError::Bindings(problem) => {
                let other = choose|other: Config| #[trigger]
                    other.reads(d) && other.layout_options().conflict() is None
                        && bindings_problem(other) == Some(problem);
                document_decides_the_settings(config, other, d);
            },
            ConfigError::Invalid { .. } => {},
        }
    }
}

/// What loading a file gives is complete: loading it again gives the same bytes, and nothing has
/// to be written. This holds where what is added behind the file is not taken for the rest of its
/// last value, and where the completed text does not begin with U+FEFF without a mark before it.
pub proof fn loaded_file_is_complete(
    first: Result<LoadedConfig, LoadError>,
    again: Result<LoadedConfig, LoadError>,
    original: Option<Seq<u8>>,
    text: Seq<char>,
    encoding: IniEncoding,
)
    requires
        is_load(first, original),
        first is Ok,
        is_load(again, Some(first->Ok_0.contents@)),
        decoded(source_bytes(original)) == Ok::<_, DecodeError>((text, encoding)),
        ({
            let template = template_of(default_text());
            let merged = merge_result(text, template)->Ok_0;
            &&& end_is_read(source_of(text, entries_of(ini_sections(text)->0)), template)
            &&& encoding == IniEncoding::Utf8 ==> merged.len() == 0 || merged[0] != '\u{feff}'
        }),
    ensures
        again is Ok,
        again->Ok_0.contents@ == first->Ok_0.contents@,
        !again->Ok_0.migrated,
{
    let template = template_of(default_text());
    let merged = merge_result(text, template)->Ok_0;
    let d = ini_sections(merged)->0;
    let config = first->Ok_0.config;
    encoding_round_trip(merged, encoding);
    default_settings_explain_themselves();
    default_completion_is_stable(text);
    completion_keeps_values(text, template, seq![], seq![]);
    assert(has_value(entries_of(d), template[0].section, template[0].key));
    if blank(d) {
        no_entry_in_blank(d);
    }
    assert(is_loaded(Ok(config), d));
    if again is Err {
        match again->Err_0 {
            LoadError::Config(error) | LoadError::Completed(error) => {
                loaded_is_not_refused(config, error, d);
            },
            _ => {},
        }
    }
}

/// A file of up to a megabyte is read; a larger one is refused, whatever it holds.
pub proof fn large_files_are_refused(r: Result<LoadedConfig, LoadError>, bytes: Seq<u8>)
    requires
        is_load(r, Some(bytes)),
    ensures
        r == Err::<LoadedConfig, _>(LoadError::Size) <==> bytes.len() > 1024 * 1024,
        r is Ok ==> r->Ok_0.contents@.len() <= 1024 * 1024,
{
}

/// Where there is no file the template is read. What was loaded has to be written exactly where it
/// is not what the file held, and so always where there was no file.
pub proof fn loaded_files_are_written_when_they_changed(
    r: Result<LoadedConfig, LoadError>,
    original: Option<Seq<u8>>,
)
    requires
        is_load(r, original),
        r is Ok,
    ensures
        original is None ==> r->Ok_0.migrated,
        original is Some ==> (r->Ok_0.migrated <==> r->Ok_0.contents@ != original->0),
        original is None ==> {
            let read = decoded(vstd::utf8::encode_utf8(default_text()));
            &&& read is Ok
            &&& r->Ok_0.contents@ == encoded(
                merge_result((read->Ok_0).0, template_of(default_text()))->Ok_0,
                (read->Ok_0).1,
            )
        },
{
}

}
