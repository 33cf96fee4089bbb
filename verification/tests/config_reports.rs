use window_switcher::config::bindings::BindingProblem;
use window_switcher::config::document::parse_ini;
use window_switcher::config::types::Language;
use window_switcher::config_diagnostics::{
    prepare_config, ConfigDiagnostic, ConfigDiagnosticSeverity,
};
use window_switcher::config_file::{
    load_config, load_config_report, next_attempt, select_config_path, temporary_config_name,
    ConfigFileStamp, ConfigLocation, ReportError,
};
use window_switcher::config_schema::{is_known_section, validate_setting, SettingStatus};
use window_switcher::config_watcher::{FileWatch, WatchAction};
use window_switcher::layout::{LayoutAxis, LayoutError};

#[test]
fn diagnostics_include_lines_for_invalid_unknown_and_deprecated_settings() {
    let source = "trayicon = maybe\n[localization]\nlanguage = zh-CN\nunknown = 1\n[log]\nfile = old.log\n";
    let mut ini = parse_ini(source).unwrap();
    let diagnostics = prepare_config(source, &mut ini);

    assert!(diagnostics
        .iter()
        .any(|item| item.line == Some(1) && item.message.contains("trayicon")));
    assert!(diagnostics
        .iter()
        .any(|item| item.line == Some(4) && item.message.contains("unknown")));
    assert!(diagnostics
        .iter()
        .any(|item| item.line == Some(6) && item.message.contains("deprecated")));
    assert_eq!(
        ini.get_from(Some("log"), "path").as_deref(),
        Some("old.log")
    );
}

#[test]
fn legacy_utf8_configuration_is_migrated_without_rewriting_keys() {
    let source = "trayicon = yes\n[localization]\nlanguage = zh-CN\n";
    let mut ini = parse_ini(source).unwrap();
    let diagnostics = prepare_config(source, &mut ini);

    assert_eq!(
        ini.get_from(None, "config_version").as_deref(),
        Some("1")
    );
    assert!(diagnostics
        .iter()
        .any(|item| item.severity == ConfigDiagnosticSeverity::Info));
}

#[test]
fn duplicate_settings_report_the_duplicate_line_and_value() {
    let source = "trayicon = yes\ntrayicon = invalid\n";
    let mut ini = parse_ini(source).unwrap();
    let diagnostics = prepare_config(source, &mut ini);

    assert!(diagnostics.iter().any(|item| {
        item.line == Some(2)
            && item.message.contains("duplicate setting")
            && item.message.contains("trayicon")
    }));
    assert!(diagnostics.iter().any(|item| {
        item.line == Some(2)
            && item.message.contains("invalid value")
            && item.message.contains("trayicon")
    }));
}

#[test]
fn schema_validates_localization_and_performance_values() {
    assert_eq!(
        validate_setting(Some("localization"), "language", "zh-CN"),
        SettingStatus::Valid
    );
    assert!(matches!(
        validate_setting(Some("performance"), "icon_cache_limit", "8"),
        SettingStatus::Invalid(_)
    ));
    assert_eq!(
        validate_setting(Some("performance"), "render_scale", "4"),
        SettingStatus::Valid
    );
}

#[test]
fn schema_recognizes_deprecated_and_unknown_settings() {
    assert_eq!(
        validate_setting(Some("log"), "file", "switcher.log"),
        SettingStatus::DeprecatedKey("path")
    );
    assert_eq!(
        validate_setting(Some("appearance"), "backdrop_fallback", "none"),
        SettingStatus::DeprecatedValue("solid")
    );
    assert_eq!(
        validate_setting(Some("appearance"), "mystery", "1"),
        SettingStatus::Unknown
    );
}

#[test]
fn unknown_sections_have_unknown_settings() {
    assert!(is_known_section(None));
    assert!(is_known_section(Some("log")));
    assert!(!is_known_section(Some("nothing")));
    assert_eq!(
        validate_setting(Some("nothing"), "level", "info"),
        SettingStatus::Unknown
    );
}

#[test]
fn portable_and_earlier_files_come_before_the_user_directory() {
    assert_eq!(
        select_config_path(false, false, true),
        ConfigLocation::User
    );
    assert_eq!(
        select_config_path(false, true, true),
        ConfigLocation::LegacyPortable
    );
    assert_eq!(
        select_config_path(true, true, true),
        ConfigLocation::Portable
    );
    assert_eq!(
        select_config_path(false, false, false),
        ConfigLocation::Portable
    );
}

#[test]
fn a_report_keeps_its_language_and_line_numbers() {
    let text = "config_version = 1\ntrayicon = wrong\n[localization]\nlanguage = zh-CN\n";
    let stamp = ConfigFileStamp::present(Some(7), text.len() as u64);
    let report =
        load_config_report("window-switcher.ini", Some("window-switcher.ini"), stamp, text, stamp)
            .unwrap();
    assert_eq!(report.config.language, Language::Chinese);
    assert_eq!(report.warning_count(), 1);
    assert_eq!(report.diagnostics[0].line, Some(2));
    assert_eq!(report.source.path, "window-switcher.ini");
    let config =
        load_config("window-switcher.ini", Some("window-switcher.ini"), stamp, text, stamp)
            .unwrap();
    assert_eq!(config, report.config);
}

#[test]
fn a_file_that_changes_while_it_is_read_is_refused() {
    let before = ConfigFileStamp::present(Some(7), 3);
    let after = ConfigFileStamp::present(Some(8), 3);
    assert!(load_config_report("a.ini", Some("a.ini"), before, "trayicon=no\n", after).is_err());
    let same = ConfigFileStamp::present(Some(7), 3);
    assert!(load_config_report("a.ini", Some("a.ini"), same, "[broken", same).is_err());
}

#[test]
fn remarks_are_shown_with_their_line() {
    let remark = ConfigDiagnostic {
        severity: ConfigDiagnosticSeverity::Warning,
        line: Some(12),
        message: "bad".to_string(),
    };
    assert!(remark.is_warning());
    assert_eq!(remark.text(), "line 12: bad");
    let plain = ConfigDiagnostic {
        severity: ConfigDiagnosticSeverity::Info,
        line: None,
        message: "note".to_string(),
    };
    assert!(!plain.is_warning());
    assert_eq!(plain.text(), "note");
}

#[test]
fn values_in_remarks_are_quoted_and_escaped() {
    let source = "trayicon = a\"b\\c\n";
    let mut ini = parse_ini(source).unwrap();
    let diagnostics = prepare_config(source, &mut ini);
    assert!(diagnostics
        .iter()
        .any(|item| item.message.contains("\\\\c")));
}

#[test]
fn temporary_names_hold_the_process_and_the_attempt() {
    assert_eq!(
        temporary_config_name(Some("a.ini"), 12, 3),
        ".a.ini.12.3.tmp"
    );
    assert!(next_attempt(0).is_some());
    assert!(next_attempt(15).is_none());
}

#[test]
fn a_change_is_announced_after_it_settled() {
    let old = ConfigFileStamp::present(Some(1), 1);
    let new = ConfigFileStamp::present(Some(2), 2);
    let mut watch = FileWatch::new(old);
    assert_eq!(watch.look(Some(old), 0), WatchAction::Wait);
    assert_eq!(watch.look(Some(new), 10), WatchAction::Wait);
    assert_eq!(watch.look(Some(new), 11), WatchAction::Wait);
    assert_ne!(watch.look(Some(new), 100_000), WatchAction::Wait);
    watch.announced(new);
    assert_eq!(watch.look(Some(new), 200_000), WatchAction::Wait);
    assert_eq!(watch.look(None, 200_001), WatchAction::WarnInspection);
    assert_eq!(watch.look(None, 200_002), WatchAction::Wait);
}

#[test]
fn conflicting_sizes_and_bindings_are_refused() {
    let stamp = ConfigFileStamp::present(Some(7), 3);
    let report = |text: &str| load_config_report("a.ini", Some("a.ini"), stamp, text, stamp);
    assert!(matches!(
        report("[appearance]\npanel_width = 20\n"),
        Err(ReportError::Layout(LayoutError::Conflict {
            axis: LayoutAxis::PanelWidth,
            ..
        }))
    ));
    let clash = report(
        "[switch-windows]\nhotkey = alt+tab\n[switch-apps]\nenable = yes\nhotkey = alt+tab\n",
    );
    assert!(matches!(
        clash,
        Err(ReportError::Bindings(BindingProblem::Conflict { .. }))
    ));
}

#[test]
fn being_known_depends_on_the_name_and_white_space_decides_nothing() {
    for (section, key) in [
        (None, "trayicon"),
        (Some("switch-apps"), "hotkey"),
        (Some("switch-apps"), "override_icons"),
        (Some("appearance"), "icon_size"),
        (Some("log"), "level"),
        (Some("log"), "nothing"),
    ] {
        let unknown = validate_setting(section, key, "") == SettingStatus::Unknown;
        for value in ["yes", "alt+tab || ctrl+f1", "a.exe=b.ico , c.exe=d.ico", "64", "warn", "-"] {
            let status = validate_setting(section, key, value);
            assert_eq!(status == SettingStatus::Unknown, unknown);
            assert_eq!(validate_setting(section, key, &format!(" \t{value}\r\n ")), status);
        }
    }
}
