//! The configuration file: where it is, whether it changed, and what it says.

use vstd::prelude::*;

use crate::config::bindings::{bindings_problem, validate, BindingProblem};
use crate::config::document::{ini_error, ini_sections, parse_ini, IniSyntaxError};
use crate::config::schema::Config;
use crate::config_diagnostics::{
    diagnostic_views, migrated, prepare_config, remarks, warn, ConfigDiagnostic,
    ConfigDiagnosticSeverity, DiagnosticView,
};
use crate::layout::{LayoutError, LayoutOptions};
use crate::text::{
    chars_of, decimal, decimal_text, equal_ignoring_case, lowered, part, push_text,
    same_ignoring_case, string_of,
};

verus! {

/// Name of the configuration file.
pub const CONFIG_FILE_NAME: &'static str = "window-switcher.ini";

/// Earlier name of the configuration file.
pub const LEGACY_CONFIG_FILE_NAME: &'static str = "windows-switcher.ini";

/// Directory of the configuration file below the user's data directory.
pub const CONFIG_DIRECTORY_NAME: &'static str = "WindowSwitcher";

/// Largest number of temporary files that are tried.
pub const TEMPORARY_ATTEMPTS: u32 = 16;

/// What identifies a state of a file: its existence, its time of modification in nanoseconds and
/// its length.
#[derive(Debug, Clone, Copy, PartialEq, Eq, Structural)]
pub struct ConfigFileStamp {
    pub exists: bool,
    pub modified: Option<i128>,
    pub length: u64,
}

impl ConfigFileStamp {
    /// The stamp of a file.
    pub fn present(modified: Option<i128>, length: u64) -> (r: Self)
        ensures
            r == (ConfigFileStamp { exists: true, modified, length }),
    {
        ConfigFileStamp { exists: true, modified, length }
    }

    /// The stamp of a file that is not there.
    pub fn absent() -> (r: Self)
        ensures
            r == (ConfigFileStamp { exists: false, modified: None, length: 0 }),
    {
        ConfigFileStamp { exists: false, modified: None, length: 0 }
    }
}

/// A file and its state.
#[derive(Debug, Clone, PartialEq, Eq)]
pub struct ConfigSource {
    pub path: String,
    pub stamp: ConfigFileStamp,
}

/// A configuration with the remarks on its file.
#[derive(Debug)]
pub struct ConfigLoadReport {
    pub config: Config,
    pub source: ConfigSource,
    pub diagnostics: Vec<ConfigDiagnostic>,
}

/// Number of warnings among remarks.
pub open spec fn warnings(list: Seq<ConfigDiagnostic>) -> nat
    decreases list.len(),
{
    if list.len() == 0 {
        0
    } else {
        warnings(list.drop_last()) + (if list.last().severity == ConfigDiagnosticSeverity::Warning {
            1nat
        } else {
            0nat
        })
    }
}

impl ConfigLoadReport {
    pub fn warning_count(&self) -> (r: usize)
        ensures
            r == warnings(self.diagnostics@),
    {
        let ghost all = self.diagnostics@;
        let mut count: usize = 0;
        assert(all.take(0) =~= Seq::<ConfigDiagnostic>::empty());
        for i in 0..self.diagnostics.len()
            invariant
                all == self.diagnostics@,
                count <= i,
                count == warnings(all.take(i as int)),
        {
            assert(all.take(i + 1).drop_last() =~= all.take(i as int));
            if self.diagnostics[i].is_warning() {
                count = count + 1;
            }
        }
        assert(all.take(all.len() as int) =~= all);
        count
    }
}

/// Why a file gives no report.
#[derive(Debug, Clone, PartialEq, Eq)]
pub enum ReportError {
    /// The file changed while it was read.
    Changed,
    /// The file is no INI document.
    Syntax(IniSyntaxError),
    /// The sizes of the panel conflict.
    Layout(LayoutError),
    /// The bindings conflict, or input is paused without a way to resume it.
    Bindings(BindingProblem),
}

/// The text without one leading byte order mark.
pub open spec fn without_mark(text: Seq<char>) -> Seq<char> {
    if text.len() > 0 && text[0] == '\u{feff}' {
        text.drop_first()
    } else {
        text
    }
}

/// The remark on the earlier file name.
pub open spec fn name_remarks(file_name: Option<Seq<char>>) -> Seq<DiagnosticView> {
    match file_name {
        Some(name) => if same_ignoring_case(name, LEGACY_CONFIG_FILE_NAME@) {
            seq![
                warn(
                    None,
                    "过时配置文件名 / deprecated file name "@ + LEGACY_CONFIG_FILE_NAME@ + "; use "@
                        + CONFIG_FILE_NAME@,
                ),
            ]
        } else {
            seq![]
        },
        None => seq![],
    }
}

/// Whether a result is the report on a file: its stamp before and after it was read, and its text.
/// A file that is not there gives the defaults. A single invalid value gives its setting the default
/// and a remark; sizes or bindings that conflict are refused.
pub open spec fn is_report(
    r: Result<ConfigLoadReport, ReportError>,
    path: Seq<char>,
    file_name: Option<Seq<char>>,
    before: ConfigFileStamp,
    text: Seq<char>,
    after: ConfigFileStamp,
) -> bool {
    if !before.exists {
        match r {
            Ok(report) => report.config.is_default() && report.source.path@ == path
                && report.source.stamp == before && report.diagnostics@.len() == 0,
            Err(_) => false,
        }
    } else if before != after {
        r matches Err(ReportError::Changed)
    } else {
        match ini_sections(without_mark(text)) {
            None => r matches Err(ReportError::Syntax(error)) && error@ == ini_error(
                without_mark(text),
            ),
            Some(d) => match r {
                Ok(report) => {
                    &&& report.config.reads(migrated(d))
                    &&& report.config.layout_options().conflict() is None
                    &&& bindings_problem(report.config) is None
                    &&& report.source.path@ == path
                    &&& report.source.stamp == after
                    &&& diagnostic_views(report.diagnostics@) == remarks(without_mark(text), d)
                        + name_remarks(file_name)
                },
                Err(ReportError::Layout(error)) => exists|config: Config| #[trigger]
                    config.reads(migrated(d)) && config.layout_options().conflict() == Some(error),
                Err(ReportError::Bindings(problem)) => exists|config: Config| #[trigger]
                    config.reads(migrated(d)) && config.layout_options().conflict() is None
                        && bindings_problem(config) == Some(problem),
                Err(_) => false,
            },
        }
    }
}

/// Reports on a file that was read.
pub fn load_config_report(
    path: &str,
    file_name: Option<&str>,
    before: ConfigFileStamp,
    text: &str,
    after: ConfigFileStamp,
) -> (r: Result<ConfigLoadReport, ReportError>)
    ensures
        is_report(
            r,
            path@,
            crate::config_schema::name_view(file_name),
            before,
            text@,
            after,
        ),
{
    if !before.exists {
        return Ok(
            ConfigLoadReport {
                config: Config::default(),
                source: ConfigSource { path: path.to_owned(), stamp: before },
                diagnostics: Vec::new(),
            },
        );
    }
    if before != after {
        return Err(ReportError::Changed);
    }
    let chars = chars_of(text);
    let source = if chars.len() > 0 && chars[0] == '\u{feff}' {
        let rest = part(chars.as_slice(), 1, chars.len());
        assert(rest@ =~= chars@.drop_first());
        string_of(rest.as_slice())
    } else {
        text.to_owned()
    };
    let mut document = match parse_ini(source.as_str()) {
        Err(error) => {
            return Err(ReportError::Syntax(error));
        },
        Ok(document) => document,
    };
    let mut diagnostics = prepare_config(source.as_str(), &mut document);
    let ghost first = diagnostic_views(diagnostics@);
    if let Some(name) = file_name {
        let name = chars_of(name);
        if equal_ignoring_case(name.as_slice(), LEGACY_CONFIG_FILE_NAME) {
            let mut message = "过时配置文件名 / deprecated file name ".to_owned();
            push_text(&mut message, LEGACY_CONFIG_FILE_NAME);
            push_text(&mut message, "; use ");
            push_text(&mut message, CONFIG_FILE_NAME);
            diagnostics.push(
                ConfigDiagnostic {
                    severity: ConfigDiagnosticSeverity::Warning,
                    line: None,
                    message,
                },
            );
        }
    }
    assert(diagnostic_views(diagnostics@) =~= first + name_remarks(
        crate::config_schema::name_view(file_name),
    ));
    let config = Config::read(&document);
    assert(config.reads(migrated(ini_sections(without_mark(text@))->0)));
    match LayoutOptions::from_config(&config).validate() {
        Err(error) => {
            return Err(ReportError::Layout(error));
        },
        Ok(()) => {},
    }
    match validate(&config) {
        Err(problem) => {
            return Err(ReportError::Bindings(problem));
        },
        Ok(()) => {},
    }
    Ok(
        ConfigLoadReport {
            config,
            source: ConfigSource { path: path.to_owned(), stamp: after },
            diagnostics,
        },
    )
}

/// Reads the settings of a file that was read.
pub fn load_config(
    path: &str,
    file_name: Option<&str>,
    before: ConfigFileStamp,
    text: &str,
    after: ConfigFileStamp,
) -> (r: Result<Config, ReportError>)
    ensures
        match r {
            Ok(config) => exists|report: ConfigLoadReport|
                report.config == config && #[trigger] is_report(
                    Ok(report),
                    path@,
                    crate::config_schema::name_view(file_name),
                    before,
                    text@,
                    after,
                ),
            Err(error) => is_report(
                Err(error),
                path@,
                crate::config_schema::name_view(file_name),
                before,
                text@,
                after,
            ),
        },
{
    match load_config_report(path, file_name, before, text, after) {
        Ok(report) => {
            assert(is_report(
                Ok(report),
                path@,
                crate::config_schema::name_view(file_name),
                before,
                text@,
                after,
            ));
            Ok(report.config)
        },
        Err(error) => Err(error),
    }
}

/// Where the configuration file is.
#[derive(Debug, Clone, Copy, PartialEq, Eq, Structural)]
pub enum ConfigLocation {
    /// Beside the program.
    Portable,
    /// Beside the program, under its earlier name.
    LegacyPortable,
    /// In the user's data directory.
    User,
}

/// The place of the configuration file, by what there is.
pub open spec fn location(portable: bool, legacy: bool, user_directory: bool) -> ConfigLocation {
    if portable {
        ConfigLocation::Portable
    } else if legacy {
        ConfigLocation::LegacyPortable
    } else if user_directory {
        ConfigLocation::User
    } else {
        ConfigLocation::Portable
    }
}

/// Chooses the configuration file: one beside the program comes first, then one of the earlier
/// name; without either it belongs into the user's data directory where there is one.
pub fn select_config_path(portable: bool, legacy: bool, user_directory: bool) -> (r: ConfigLocation)
    ensures
        r == (if portable {
            ConfigLocation::Portable
        } else if legacy {
            ConfigLocation::LegacyPortable
        } else if user_directory {
            ConfigLocation::User
        } else {
            ConfigLocation::Portable
        }),
        r == location(portable, legacy, user_directory),
{
    if portable {
        return ConfigLocation::Portable;
    }
    if legacy {
        return ConfigLocation::LegacyPortable;
    }
    if user_directory {
        ConfigLocation::User
    } else {
        ConfigLocation::Portable
    }
}

/// The name of a temporary file beside the configuration file.
pub fn temporary_config_name(file_name: Option<&str>, process: u32, attempt: u32) -> (r: String)
    ensures
        r@ == "."@ + (match file_name {
            Some(name) => name@,
            None => CONFIG_FILE_NAME@,
        }) + "."@ + decimal(process as nat) + "."@ + decimal(attempt as nat) + ".tmp"@,
{
    let mut r = ".".to_owned();
    match file_name {
        Some(name) => push_text(&mut r, name),
        None => push_text(&mut r, CONFIG_FILE_NAME),
    }
    push_text(&mut r, ".");
    push_text(&mut r, decimal_text(process as u64).as_str());
    push_text(&mut r, ".");
    push_text(&mut r, decimal_text(attempt as u64).as_str());
    push_text(&mut r, ".tmp");
    r
}

/// The attempt after one whose name was taken.
pub fn next_attempt(attempt: u32) -> (r: Option<u32>)
    ensures
        r == (if attempt + 1 < TEMPORARY_ATTEMPTS {
            Some((attempt + 1) as u32)
        } else {
            None
        }),
{
    if attempt < TEMPORARY_ATTEMPTS - 1 {
        Some(attempt + 1)
    } else {
        None
    }
}

/// A remark is counted where it is a warning.
pub proof fn warnings_are_counted(list: Seq<ConfigDiagnostic>, more: ConfigDiagnostic)
    ensures
        warnings(Seq::<ConfigDiagnostic>::empty()) == 0,
        more.severity == ConfigDiagnosticSeverity::Warning ==> warnings(list.push(more)) == warnings(
            list,
        ) + 1,
        more.severity != ConfigDiagnosticSeverity::Warning ==> warnings(list.push(more)) == warnings(
            list,
        ),
{
    assert(list.push(more).drop_last() =~= list);
}

/// One byte order mark at the beginning of a text is passed over, and only there.
pub proof fn leading_mark_is_passed_over(text: Seq<char>)
    ensures
        without_mark(seq!['\u{feff}'] + text) == text,
        text.len() > 0 && text[0] != '\u{feff}' ==> without_mark(text) == text,
        without_mark(Seq::<char>::empty()).len() == 0,
{
    assert((seq!['\u{feff}'] + text).drop_first() =~= text);
}

/// The earlier file name, in any case, gets one warning without a line, and no other name gets any.
pub proof fn earlier_file_name_gets_a_warning(name: Seq<char>)
    ensures
        name_remarks(None).len() == 0,
        name_remarks(Some(name)).len() == if lowered(name) == lowered("windows-switcher.ini"@) {
            1nat
        } else {
            0nat
        },
        name_remarks(Some(name)).len() == 1 ==> name_remarks(Some(name))[0] == warn(
            None,
            "过时配置文件名 / deprecated file name windows-switcher.ini; use window-switcher.ini"@,
        ),
{
    reveal_strlit("过时配置文件名 / deprecated file name ");
    reveal_strlit("windows-switcher.ini");
    reveal_strlit("; use ");
    reveal_strlit("window-switcher.ini");
    reveal_strlit(
        "过时配置文件名 / deprecated file name windows-switcher.ini; use window-switcher.ini",
    );
    assert("过时配置文件名 / deprecated file name "@ + "windows-switcher.ini"@ + "; use "@
        + "window-switcher.ini"@
        =~= "过时配置文件名 / deprecated file name windows-switcher.ini; use window-switcher.ini"@);
}

/// A file that is not there gives the defaults and no remark; one that changed while it was read
/// gives no report.
pub proof fn reports_on_missing_and_changing_files(
    r: Result<ConfigLoadReport, ReportError>,
    path: Seq<char>,
    file_name: Option<Seq<char>>,
    before: ConfigFileStamp,
    text: Seq<char>,
    after: ConfigFileStamp,
)
    requires
        is_report(r, path, file_name, before, text, after),
    ensures
        !before.exists ==> r is Ok && r->Ok_0.config.is_default() && r->Ok_0.diagnostics@.len() == 0,
        before.exists && before != after ==> r == Err::<ConfigLoadReport, _>(ReportError::Changed),
        r == Err::<ConfigLoadReport, _>(ReportError::Changed) ==> before != after,
        r is Ok ==> r->Ok_0.source.path@ == path && r->Ok_0.source.stamp == before,
{
}

/// A file beside the program comes first, whatever else there is, and one of the earlier name comes
/// next. The data directory of the user is chosen only without either, and where there is one.
pub proof fn files_beside_the_program_come_first(portable: bool, legacy: bool, user_directory: bool)
    ensures
        location(true, legacy, user_directory) == ConfigLocation::Portable,
        location(portable, legacy, user_directory) == ConfigLocation::LegacyPortable <==> legacy
            && !portable,
        location(portable, legacy, user_directory) == ConfigLocation::User <==> user_directory
            && !portable && !legacy,
        location(false, false, false) == ConfigLocation::Portable,
        TEMPORARY_ATTEMPTS == 16,
{
}

}
