use window_switcher::config::defaults::{default_config, DEFAULT_SETTINGS};
use window_switcher::config::document::{parse_ini, IniDocument};
use window_switcher::config::encoding::{decode, encode, DecodeError, IniEncoding};
use window_switcher::config::hotkey::SWITCH_APPS_HOTKEY_ID;
use window_switcher::config::merge::merge_missing;
use window_switcher::config::reasons::{default_value, explain};
use window_switcher::config::schema::Config;
use window_switcher::config::settings::{
    save_input_paused, save_startup_enabled, set_value, SaveError, SavedSetting,
};
use window_switcher::config::storage::{load_bytes, LoadError, MAX_INI_BYTES};
use window_switcher::config::types::{BadgeShape, LogLevel, StartupEnabled};
use window_switcher::config::validation::{validate_values, ValueFault};
use window_switcher::layout::{LayoutOptions, LayoutSnapshot, MonitorSnapshot, PixelRect};

fn names(document: &IniDocument) -> Vec<(Option<String>, String)> {
    let mut names = Vec::new();
    for section in &document.sections {
        for property in &section.properties {
            names.push((section.name.clone(), property.0.clone()));
        }
    }
    names
}

fn assert_complete(text: &str) {
    let actual = parse_ini(text).unwrap();
    for (section, key) in names(&parse_ini(&default_config()).unwrap()) {
        assert!(
            actual.get_from(section.as_deref(), &key).is_some(),
            "missing {section:?}.{key}"
        );
    }
}

fn load(text: &str) -> Config {
    Config::load(&parse_ini(text).unwrap()).unwrap()
}

#[test]
fn defaults_and_chinese_template_agree() {
    assert_eq!(load(&default_config()), Config::default());
    assert_eq!(merge_missing(&default_config()).unwrap(), default_config());
    for (section, key) in names(&parse_ini(&default_config()).unwrap()) {
        let name = section.map_or_else(|| key.to_owned(), |section| format!("{section}.{key}"));
        let comment = format!("; 配置说明：{name}");
        assert!(default_config().lines().any(|line| line == comment));
    }
}

#[test]
fn old_config_gains_missing_keys_without_resetting_custom_values() {
    let original = "; 用户注释\r\ntrayicon = no\r\ncustom_global = 保留\r\n[switch-apps]\r\nenable  = yes\r\nbadge_max = 250\r\ncustom_key = 保留=等号\r\n[custom]\r\npath = \\\\server\\share\\目录";
    let merged = merge_missing(original).unwrap();
    let config = load(&merged);
    assert!(!config.trayicon);
    assert!(config.switch_apps_enable);
    assert_eq!(config.switch_apps_badge_max, 250);
    assert!(merged.contains("; 用户注释\r\n"));
    assert!(merged.contains("enable  = yes\r\n"));
    assert!(merged.contains("custom_key = 保留=等号\r\n"));
    assert!(merged.contains("[custom]\r\npath = \\\\server\\share\\目录"));
    assert!(!merged.ends_with('\n'));
    assert!(merged.contains("; 配置说明：switch-apps.enable\r\n"));
    assert_eq!(merge_missing(&merged).unwrap(), merged);
    assert_complete(&merged);
}

#[test]
fn duplicate_keys_and_sections_retain_original_precedence() {
    let original = "[switch-apps]\nenable = yes\nbadge_max = 42\nbadge_max = 73\n[switch-apps]\nenable = no\n[custom]\nx=1\nx=2\n";
    let merged = merge_missing(original).unwrap();
    assert_eq!(load(original), load(&merged));
    assert!(merged.contains("badge_max = 42\nbadge_max = 73\n"));
    assert!(merged.contains("[switch-apps]\nenable = no\n[custom]\nx=1\nx=2\n"));
    assert_eq!(
        merged.matches("; 配置说明：switch-apps.badge_max").count(),
        1
    );
    assert_eq!(merge_missing(&merged).unwrap(), merged);
}

#[test]
fn quoted_multiline_unknown_values_are_not_treated_as_sections_or_keys() {
    let original = "[custom]\nvalue = \"第一行\n[switch-apps]\nbadge_max = 3\n最后一行\"\n[switch-apps]\nenable = yes\n";
    let merged = merge_missing(original).unwrap();
    assert_eq!(
        parse_ini(original)
            .unwrap()
            .get_from(Some("custom"), "value"),
        parse_ini(&merged)
            .unwrap()
            .get_from(Some("custom"), "value")
    );
    let config = load(&merged);
    assert!(config.switch_apps_enable);
    assert_eq!(config.switch_apps_badge_max, 99);
    assert_complete(&merged);
}

#[test]
fn missing_sections_do_not_capture_keys_of_an_existing_final_section() {
    for original in [
        "[log]\nlevel = warn\n",
        "[log]\npath =\n[switch-windows]\nhotkey = ctrl+f2\n",
        "[custom]\nx = 1\n",
    ] {
        let merged = merge_missing(original).unwrap();
        assert_complete(&merged);
        assert_eq!(load(original), load(&merged));
        assert_eq!(merge_missing(&merged).unwrap(), merged);
    }
}

#[test]
fn encodings_and_newlines_survive_completion() {
    for encoding in [
        IniEncoding::Utf8,
        IniEncoding::Utf8Bom,
        IniEncoding::Utf16Le,
        IniEncoding::Utf16Be,
    ] {
        for newline in ["\n", "\r\n"] {
            let original = [
                "; 用户自己的说明",
                "[switch-apps]",
                "enable = yes",
                "badge_max = 123",
            ]
            .join(newline);
            let bytes = encode(&original, encoding);
            let loaded = load_bytes(Some(&bytes)).unwrap();
            assert!(loaded.migrated);
            assert!(loaded.config.switch_apps_enable);
            assert_eq!(loaded.config.switch_apps_badge_max, 123);
            let (text, detected) = decode(&loaded.contents).unwrap();
            assert_eq!(encode(&text, detected), loaded.contents);
            assert_eq!(encode(&text, encoding), loaded.contents);
            assert!(!text.ends_with('\n'));
            assert!(text.contains(&format!("; 用户自己的说明{newline}")));
            assert!(text.contains(&format!("; 配置说明：switch-apps.enable{newline}")));
            assert_complete(&text);
            let again = load_bytes(Some(&loaded.contents)).unwrap();
            assert!(!again.migrated);
            assert_eq!(again.contents, loaded.contents);
        }
    }
}

#[test]
fn an_absent_file_gives_the_defaults() {
    let loaded = load_bytes(None).unwrap();
    assert!(loaded.migrated);
    assert_eq!(loaded.config, Config::default());
    assert_eq!(loaded.contents, default_config().as_bytes());
    assert!(!load_bytes(Some(&loaded.contents)).unwrap().migrated);
}

#[test]
fn malformed_and_invalid_files_are_refused_with_their_reason() {
    assert!(matches!(
        load_bytes(Some(b"[broken")),
        Err(LoadError::Syntax(error)) if error.line == 1
    ));
    assert!(matches!(
        load_bytes(Some(b"[switch-apps]\nenable = maybe\n")),
        Err(LoadError::Config(_))
    ));
    assert!(matches!(
        load_bytes(Some(b"[switch-apps]\nbadge_max = 1\n")),
        Err(LoadError::Config(_))
    ));
    assert!(matches!(
        load_bytes(Some(b"[log]\nlevel = nonsense\n")),
        Err(LoadError::Config(_))
    ));
    assert!(matches!(
        load_bytes(Some(&[0xff, 0xfe, 0x01])),
        Err(LoadError::Decode(DecodeError::Length))
    ));
    assert!(matches!(
        load_bytes(Some(&[0x80, 0x90])),
        Err(LoadError::Decode(DecodeError::Utf8 {
            marked: false,
            valid: 0,
            wrong: Some(1)
        }))
    ));
    assert!(matches!(
        load_bytes(Some(&[0xff, 0xfe, 0x00, 0xd8])),
        Err(LoadError::Decode(DecodeError::Utf16))
    ));
}

#[test]
fn empty_and_comment_only_files_are_refused() {
    for text in ["", " \r\n", "; 保存中\n", "# 保留\n[switch-apps]\n"] {
        for encoding in [
            IniEncoding::Utf8,
            IniEncoding::Utf8Bom,
            IniEncoding::Utf16Le,
            IniEncoding::Utf16Be,
        ] {
            let original = encode(text, encoding);
            assert!(matches!(
                load_bytes(Some(&original)),
                Err(LoadError::Blank)
            ));
        }
    }
}

#[test]
fn input_and_completed_output_are_both_limited() {
    for encoding in [IniEncoding::Utf8, IniEncoding::Utf16Le] {
        let mut original = encode("[custom]\nx=1\n;", encoding);
        let unit = encode("a", encoding);
        let padding = if matches!(encoding, IniEncoding::Utf16Le) {
            unit[2..].to_vec()
        } else {
            unit
        };
        while original.len() + padding.len() <= MAX_INI_BYTES as usize - 32 {
            original.extend_from_slice(&padding);
        }
        assert!(matches!(
            load_bytes(Some(&original)),
            Err(LoadError::CompletedSize)
        ));
        let oversized = vec![b'a'; MAX_INI_BYTES as usize + 1];
        assert!(matches!(load_bytes(Some(&oversized)), Err(LoadError::Size)));
    }
}

#[test]
fn encoding_marks_are_told_apart_and_kept() {
    let text = "a=\u{1f600}ü\n";
    assert_eq!(encode(text, IniEncoding::Utf8), text.as_bytes());
    assert_eq!(encode("a", IniEncoding::Utf8Bom), [0xef, 0xbb, 0xbf, b'a']);
    assert_eq!(encode("a", IniEncoding::Utf16Le), [0xff, 0xfe, b'a', 0]);
    assert_eq!(encode("a", IniEncoding::Utf16Be), [0xfe, 0xff, 0, b'a']);
    for encoding in [
        IniEncoding::Utf8,
        IniEncoding::Utf8Bom,
        IniEncoding::Utf16Le,
        IniEncoding::Utf16Be,
    ] {
        let bytes = encode(text, encoding);
        assert_eq!(decode(&bytes), Ok((text.to_string(), encoding)));
    }
}

#[test]
fn saving_the_startup_setting_keeps_everything_else() {
    let original = "; 用户注释\r\n[switch-apps]\nenable=yes\r\nbadge_max=321\r\n[other]\nx=keep\r\n[startup]\nenabled = auto\r\nenabled = no\r\n";
    let file = encode(original, IniEncoding::Utf16Le);
    let expected = load(original);
    let bytes = save_startup_enabled(&file, &expected, true).unwrap();
    let (updated, kind) = decode(&bytes).unwrap();
    assert_eq!(kind, IniEncoding::Utf16Le);
    assert!(updated.contains("; 用户注释\r\n"));
    assert!(updated.contains("badge_max=321\r\n"));
    assert!(updated.contains("x=keep\r\n"));
    assert!(updated.contains("enabled = yes\r\nenabled = no\r\n"));
    let configured = load(&updated);
    assert!(configured.switch_apps_enable);
    assert_eq!(configured.startup_enabled, StartupEnabled::Yes);
    assert!(matches!(
        save_startup_enabled(&bytes, &expected, false),
        Err(SaveError::Stale(SavedSetting::StartupEnabled))
    ));
}

#[test]
fn pausing_and_going_on_restores_the_file() {
    let source = "; 用户注释\r\n[other]\r\nx = keep\n[input]\r\npaused = no\r\npaused = no\r\npause_hotkey = ctrl+f10\r\n";
    let source = merge_missing(source).unwrap();
    for kind in [
        IniEncoding::Utf8,
        IniEncoding::Utf8Bom,
        IniEncoding::Utf16Le,
        IniEncoding::Utf16Be,
    ] {
        let original = encode(&source, kind);
        let expected = load(&source);
        let saved = save_input_paused(&original, &expected, true).unwrap();
        let (text, saved_kind) = decode(&saved).unwrap();
        assert_eq!(saved_kind, kind);
        assert_eq!(text, source.replacen("paused = no", "paused = yes", 1));
        assert!(save_input_paused(&saved, &expected, false).is_err());
        let paused = load(&text);
        assert_eq!(save_input_paused(&saved, &paused, false).unwrap(), original);
    }
}

#[test]
fn a_changed_or_missing_way_back_refuses_the_pause() {
    let source = "trayicon=no\n[input]\npaused=no\npause_hotkey=ctrl+f10\n";
    let expected = load(source);
    let edited = source.replace("ctrl+f10", "ctrl+f9");
    assert!(matches!(
        save_input_paused(edited.as_bytes(), &expected, true),
        Err(SaveError::Stale(SavedSetting::InputPaused))
    ));
    let without = source.replace("ctrl+f10", "");
    let expected = load(&without);
    assert!(matches!(
        save_input_paused(without.as_bytes(), &expected, true),
        Err(SaveError::Config(_))
    ));
}

#[test]
fn saving_names_undecodable_and_malformed_files() {
    let expected = Config::default();
    assert!(matches!(
        save_input_paused(&[0x80], &expected, true),
        Err(SaveError::Decode(DecodeError::Utf8 { .. }))
    ));
    assert!(matches!(
        save_input_paused(b"[broken", &expected, true),
        Err(SaveError::Syntax(_))
    ));
    assert!(matches!(
        save_input_paused(b"trayicon=yes\n", &expected, true),
        Err(SaveError::Unplaced)
    ));
}

#[test]
fn a_single_value_is_replaced_in_its_line() {
    let text = "[a]\r\nkey = 1 \r\nother=2\r\n";
    assert_eq!(
        set_value(text, "a", "key", "9").as_deref().map(|text| text.contains("other=2\r\n")),
        Some(true)
    );
    assert!(set_value(text, "a", "absent", "9").is_none());
    assert!(set_value(text, "b", "key", "9").is_none());
}

#[test]
fn every_new_setting_is_read_and_range_checked() {
    let config = load("auto_restart = no\nrestart_delay_ms = 2500\n[switch-apps]\nbadge_color = #91a2B3\nbadge_text_color = 102030\nbadge_font_size = 10\nbadge_max = 987\n");
    assert!(!config.auto_restart);
    assert_eq!(config.restart_delay_ms, 2500);
    assert_eq!(config.switch_apps_badge_color, 0x91a2b3);
    assert_eq!(config.switch_apps_badge_text_color, 0x102030);
    assert_eq!(config.switch_apps_badge_font_size, 10);
    assert_eq!(config.switch_apps_badge_max, 987);

    for invalid in [
        "auto_restart = maybe\n",
        "restart_delay_ms = 199\n",
        "restart_delay_ms = 10001\n",
        "[switch-apps]\nbadge_font_size = 7\n",
        "[switch-apps]\nbadge_font_size = 25\n",
        "[switch-apps]\nbadge_color = #123\n",
        "[switch-apps]\nbadge_color = #GGFFFF\n",
        "[switch-apps]\nbadge_text_color = #FFFFFFFF\n",
        "[switch-apps]\nenable = invalid\n",
        "[switch-windows]\nonly_current_desktop = maybe\n",
        "[log]\nlevel = verbose\n",
        "[switch-apps]\noverride_icons = =icon.ico\n",
        "[switch-apps]\noverride_icons = app.exe=\n",
    ] {
        let document = parse_ini(invalid).unwrap();
        assert!(Config::load(&document).is_err(), "accepted {invalid}");
        assert!(validate_values(&document).is_err(), "accepted {invalid}");
    }
    let defaults = Config::default();
    let template = load(&default_config());
    assert_eq!(
        defaults.switch_apps_badge_color,
        template.switch_apps_badge_color
    );
    assert_eq!(
        defaults.switch_apps_badge_font_size,
        template.switch_apps_badge_font_size
    );
}

#[test]
fn badge_shape_and_size_preserve_defaults_and_reject_invalid_values() {
    let defaults = Config::default();
    let font_size = defaults.switch_apps_badge_font_size;
    assert_eq!(defaults.switch_apps_badge_shape, BadgeShape::Circle);
    assert_eq!(defaults.switch_apps_badge_size, None);
    for (shape, expected_shape) in [
        ("circle", BadgeShape::Circle),
        ("square", BadgeShape::Square),
    ] {
        for (size, expected_size) in [
            ("auto", None),
            ("16", Some(16)),
            ("24", Some(24)),
            ("48", Some(48)),
        ] {
            let ini = parse_ini(&format!(
                "[switch-apps]\nbadge_shape={shape}\nbadge_size={size}\n"
            ))
            .unwrap();
            let config = Config::load(&ini).unwrap();
            assert_eq!(config.switch_apps_badge_shape, expected_shape);
            assert_eq!(config.switch_apps_badge_size, expected_size);
            assert_eq!(config.switch_apps_badge_font_size, font_size);
        }
    }
    for (key, values) in [
        ("badge_shape", &["", "round", "ellipse", "rectangle"][..]),
        (
            "badge_size",
            &[
                "",
                "0",
                "15",
                "49",
                "-1",
                "16.5",
                "999999999999999999999",
                "large",
            ][..],
        ),
    ] {
        for value in values {
            let ini = parse_ini(&format!("[switch-apps]\n{key}={value}\n")).unwrap();
            let error = Config::load(&ini).unwrap_err();
            assert!(
                format!("{error:?}").contains(key),
                "missing key in diagnostic: {error:?}"
            );
        }
    }
}

#[test]
fn windows_and_unc_paths_remain_literal() {
    let ini = parse_ini("[log]\npath = \\\\server\\share\\logs\\switcher.log\n[switch-apps]\noverride_icons = app.exe=\\\\server\\share\\icon.png,other.exe=D:\\Icons\\other.ico\n").unwrap();
    let config = Config::load(&ini).unwrap();
    assert_eq!(
        config.log_file.unwrap(),
        r"\\server\share\logs\switcher.log"
    );
    assert_eq!(
        config.switch_apps_override_icons["app.exe"],
        r"\\server\share\icon.png"
    );
    assert_eq!(
        config.switch_apps_override_icons["other.exe"],
        r"D:\Icons\other.ico"
    );
}

#[test]
fn empty_blacklist_and_icon_entries_do_not_match_every_application() {
    let config =
        load("[switch-windows]\nblacklist = , ,\n[switch-apps]\noverride_icons = , ;\n");
    assert!(config.switch_windows_blacklist.is_empty());
    assert!(config.switch_apps_override_icons.is_empty());
}

#[test]
fn supported_aliases_and_empty_hotkeys_remain_compatible() {
    for (alias, enabled) in [
        ("yes", true),
        ("true", true),
        ("on", true),
        ("1", true),
        ("no", false),
        ("false", false),
        ("off", false),
        ("0", false),
    ] {
        let config = load(&format!(
            "trayicon = {alias}\n[switch-apps]\nhotkey =\nenable = {alias}\n"
        ));
        assert_eq!(config.trayicon, enabled);
        assert_eq!(config.switch_apps_enable, enabled);
        assert_eq!(
            config.switch_apps_hotkey,
            Config::default().switch_apps_hotkey
        );
    }
}

#[test]
fn every_setting_of_the_template_is_read_and_checked() {
    let mut cases = vec![
        ("", "trayicon", "no", "maybe"),
        ("", "auto_restart", "no", "maybe"),
        ("", "restart_delay_ms", "200", "199"),
        ("switch-windows", "enable", "no", "maybe"),
        ("switch-windows", "hotkey", "ctrl+f11", "shift+alt+tab"),
        ("switch-windows", "blacklist", "Game.EXE", "bad\0.exe"),
        ("switch-windows", "ignore_minimal", "yes", "maybe"),
        ("switch-windows", "only_current_desktop", "no", "maybe"),
        ("switch-apps", "enable", "yes", "maybe"),
        ("switch-apps", "hotkey", "ctrl+f12", "shift+tab"),
        ("switch-apps", "ignore_minimal", "yes", "maybe"),
        (
            "switch-apps",
            "override_icons",
            "app.exe=custom.ico",
            "missing-equals",
        ),
        ("switch-apps", "show_badge", "no", "maybe"),
        ("switch-apps", "badge_max", "250", "1"),
        ("switch-apps", "badge_color", "#123456", "#XYZXYZ"),
        ("switch-apps", "badge_text_color", "#654321", "#FFFFFFFF"),
        ("switch-apps", "badge_font_size", "18", "25"),
        ("switch-apps", "only_current_desktop", "no", "maybe"),
        ("startup", "enabled", "yes", "maybe"),
        ("startup", "run_level", "standard", "admin"),
        ("startup", "battery_policy", "stop", "auto"),
        ("startup", "command_timeout_ms", "500", "499"),
        ("config", "watch_mode", "poll", "none"),
        ("config", "poll_interval_ms", "100", "99"),
        ("config", "restart_timeout_ms", "1000", "999"),
        ("config", "retry_delay_ms", "200", "199"),
        ("config", "retry_limit", "0", "11"),
        ("localization", "language", "en-US", "unknown"),
        ("log", "level", "debug", "verbose"),
        ("log", "path", "test.log", "bad\0.log"),
        ("log", "max_file_mb", "1", "101"),
        ("log", "retained_files", "0", "21"),
        ("performance", "metrics_enabled", "yes", "maybe"),
        ("performance", "metrics_interval_s", "1", "3601"),
        ("switch-apps", "blacklist", "Game.EXE", "bad\0.exe"),
        ("input", "unknown_foreground", "handle", "ignore"),
        ("input", "injected_events", "passthrough", "ignore"),
        ("appearance", "monitor", "primary", "last"),
        ("appearance", "use_work_area", "no", "maybe"),
        ("appearance", "panel_width", "740", "32769"),
        ("appearance", "panel_height", "164", "32769"),
        ("appearance", "icon_size", "128", "23"),
        ("appearance", "icon_padding", "8", "65"),
        ("appearance", "item_gap", "10", "65"),
        ("appearance", "panel_padding", "20", "129"),
        ("appearance", "max_width", "1024", "32769"),
        ("appearance", "max_height", "512", "32769"),
        ("appearance", "max_columns", "10", "129"),
        ("performance", "icon_cache_limit", "16", "15"),
        ("performance", "icon_cache_mb", "4", "257"),
        ("performance", "icon_failure_ttl_ms", "100", "99"),
        ("performance", "metadata_cache_limit", "16", "15"),
        ("performance", "metadata_ttl_ms", "100", "99"),
        ("performance", "icon_query_timeout_ms", "10", "9"),
        ("performance", "snapshot_budget_ms", "5", "501"),
        ("performance", "render_scale", "2", "3"),
        ("performance", "render_budget_mb", "8", "257"),
        ("browser", "chrome_user_data_dir", "custom/chrome", ""),
        ("browser", "edge_user_data_dir", "custom/edge", "bad\0dir"),
    ];
    for section in ["switch-windows", "switch-apps"] {
        cases.extend([
            (section, "include_topmost", "yes", "maybe"),
            (section, "include_tool_windows", "yes", "maybe"),
            (section, "include_untitled", "yes", "maybe"),
            (section, "min_width", "0", "4097"),
            (section, "min_height", "0", "4097"),
            (section, "exclude_titles", "", "bad\0title"),
            (section, "exclude_processes", "app.exe", "bad\0.exe"),
        ]);
    }
    let template = parse_ini(&default_config()).unwrap();
    for (section, key, other, invalid) in cases {
        let name = if section.is_empty() {
            None
        } else {
            Some(section)
        };
        assert!(
            template.get_from(name, key).is_some(),
            "no default for {section}.{key}"
        );
        let parse = |value: &str| {
            let text = if section.is_empty() {
                format!("{key}={value}\n")
            } else {
                format!("[{section}]\n{key}={value}\n")
            };
            parse_ini(&text).map(|ini| Config::load(&ini))
        };
        assert_ne!(
            parse(other).unwrap().unwrap(),
            Config::default(),
            "unused {section}.{key}"
        );
        let refused = match parse(invalid) {
            Ok(result) => result.is_err(),
            Err(_) => true,
        };
        assert!(refused, "accepted invalid {section}.{key}");
    }
}

#[test]
fn nondefault_values_reach_the_bindings_and_the_badge() {
    let config = load("[switch-windows]\nenable=no\nonly_current_desktop=no\n[switch-apps]\nenable=yes\nhotkey=ctrl+f12\nonly_current_desktop=yes\nbadge_max=250\nbadge_color=#123456\nbadge_text_color=#654321\nbadge_font_size=18\n");
    let hotkeys = config.to_hotkeys();
    assert_eq!(hotkeys.len(), 1);
    assert_eq!(hotkeys[0].id, SWITCH_APPS_HOTKEY_ID);
    assert_eq!(hotkeys[0].modifier, [0x1d, 0x1d]);
    assert_eq!(config.switch_windows_only_current_desktop, Some(false));
    assert_eq!(config.switch_apps_only_current_desktop, Some(true));
    assert_eq!(
        (
            config.switch_apps_badge_color,
            config.switch_apps_badge_text_color,
            config.switch_apps_badge_font_size,
            config.switch_apps_badge_max
        ),
        (0x123456, 0x654321, 18, 250)
    );
}

#[test]
fn sizes_and_process_lists_reach_the_layout_and_the_filters() {
    let config = load("[appearance]\npanel_width=740\npanel_height=164\nicon_padding=6\npanel_padding=12\nitem_gap=8\nmax_columns=4\n[switch-apps]\nexclude_processes=EXCLUDED.EXE\n[switch-windows]\nexclude_processes=OTHER.EXE\n");
    let screen = PixelRect {
        left: -1000,
        top: 0,
        right: 0,
        bottom: 600,
    };
    let layout = LayoutSnapshot::calculate(
        &LayoutOptions::from_config(&config),
        MonitorSnapshot {
            identity: 1,
            screen,
            available: screen,
            dpi: 96,
        },
        9,
        8,
        0,
    )
    .unwrap();
    assert_eq!(
        (
            layout.bounds.width(),
            layout.bounds.height(),
            layout.icon_size
        ),
        (740, 164, 128)
    );
    assert_eq!(
        (layout.capacity, layout.page, layout.items.len()),
        (4, 2, 1)
    );
    let item = &layout.items[0];
    assert_eq!(item.icon.left - item.outer.left, 6);
    assert_eq!(item.outer.left, 78);
    assert_eq!(
        layout.hit_test(
            layout.bounds.left + item.outer.left,
            layout.bounds.top + item.outer.top
        ),
        Some(8)
    );
    assert_eq!(config.switch_apps_exclude_processes, ["EXCLUDED.EXE"]);
    assert_eq!(config.switch_windows_exclude_processes, ["OTHER.EXE"]);
}

#[test]
fn the_basic_check_names_the_first_refused_value() {
    let document = parse_ini("[switch-apps]\nbadge_max = 2\nbadge_max = 10000\n[log]\nlevel = loud\n").unwrap();
    let problem = validate_values(&document).unwrap_err();
    assert_eq!(problem.section, "switch-apps");
    assert_eq!(problem.key, "badge_max");
    assert_eq!(problem.fault, ValueFault::Range(2, 9999));
    for (text, fault) in [
        ("trayicon = x\n", ValueFault::Boolean),
        (
            "[switch-apps]\nonly_current_desktop = x\n",
            ValueFault::Automatic,
        ),
        ("restart_delay_ms = 1\n", ValueFault::Range(200, 10000)),
        ("[switch-apps]\nbadge_color = red\n", ValueFault::Color),
        ("[switch-windows]\nhotkey = tab\n", ValueFault::Hotkey),
        ("[switch-apps]\noverride_icons = a\n", ValueFault::IconForm),
        (
            "[switch-apps]\noverride_icons = a=\n",
            ValueFault::IconContent,
        ),
        ("[log]\nlevel = loud\n", ValueFault::Level),
    ] {
        let problem = validate_values(&parse_ini(text).unwrap()).unwrap_err();
        assert_eq!(problem.fault, fault, "{text}");
    }
    assert!(validate_values(&parse_ini("[custom]\nanything = x\n").unwrap()).is_ok());
    assert!(validate_values(&parse_ini("[switch-windows]\nhotkey =\n").unwrap()).is_ok());
}

#[test]
fn log_levels_are_read_without_regard_to_case() {
    assert_eq!(load("[log]\nlevel = WARN\n").log_level, LogLevel::Warn);
    assert_eq!(load("[log]\nlevel = trace\n").log_level, LogLevel::Trace);
}

#[test]
fn override_patterns_are_kept_in_lower_case_and_once() {
    let config = load("[switch-apps]\noverride_icons = App.EXE=a.ico, other=b.ico; APP.exe=c.ico\n");
    let entries: Vec<(&str, &str)> = config
        .switch_apps_override_icons
        .iter()
        .map(|(key, value)| (key.as_str(), value.as_str()))
        .collect();
    assert_eq!(entries, [("app.exe", "c.ico"), ("other", "b.ico")]);
}

#[test]
fn completing_twice_changes_nothing() {
    for original in [
        "# only a comment",
        "[other]\r\nkey = 1",
        "[other]\nkey = 1\n\n\n",
        "[other]\n[other]\nkey = \"a ; b\"",
    ] {
        let merged = merge_missing(original).unwrap();
        assert_ne!(merged, original);
        assert_eq!(merge_missing(&merged).unwrap(), merged);
    }
}

#[test]
fn every_setting_of_the_template_explains_itself() {
    let text = default_config();
    let mut section = String::new();
    let mut comments: Vec<&str> = Vec::new();
    let mut settings = 0;
    for line in text.lines().map(str::trim) {
        if line.starts_with('[') {
            section = line.trim_matches(|c| c == '[' || c == ']').to_string();
            comments.clear();
        } else if line.starts_with(';') || line.starts_with('#') {
            comments.push(line);
        } else if let Some((key, value)) = line.split_once('=') {
            let name = if section.is_empty() {
                key.trim().to_string()
            } else {
                format!("{section}.{}", key.trim())
            };
            let marker = format!("; 配置说明：{name}");
            assert!(comments.contains(&marker.as_str()), "{name}");
            assert!(!value.contains(['"', '\'', '\\']), "{name}");
            comments.clear();
            settings += 1;
        }
    }
    assert_eq!(settings, DEFAULT_SETTINGS.len());
}

#[test]
fn a_comment_behind_a_continued_line_is_added_again() {
    let merged = merge_missing("[browser]\nx=1\\\r").unwrap();
    assert!(merged.contains("[browser]\nx=1\\\r\n; 配置说明：browser.chrome_user_data_dir\n"));
    let again = merge_missing(&merged).unwrap();
    assert_ne!(again, merged);
    assert!(merge_missing("[browser]\nx = 1\\").is_err());
}

#[test]
fn a_loaded_file_is_complete() {
    for original in [None, Some(b"[other]\r\nkey = 1".as_slice())] {
        let first = load_bytes(original).unwrap();
        assert!(first.migrated);
        let again = load_bytes(Some(first.contents.as_slice())).unwrap();
        assert!(!again.migrated);
        assert_eq!(again.contents, first.contents);
        assert_eq!(again.config, first.config);
    }
}

#[test]
fn what_was_read_is_written_byte_for_byte() {
    for bytes in [
        &b"a = \xe4\xbd\xa0\r\n"[..],
        &b"\xef\xbb\xbfa = 1"[..],
        &b"\xef\xbb\xbf\xef\xbb\xbf"[..],
        &b"\xff\xfea\x00\x3d\xd8\x00\xde"[..],
        &b"\xfe\xff\x00a\xd8\x3d\xde\x00"[..],
        &b"\xff\xfe"[..],
        &b""[..],
    ] {
        let (text, encoding) = decode(bytes).unwrap();
        assert_eq!(encode(&text, encoding), bytes);
    }
}

#[test]
fn errors_have_texts_for_the_user() {
    assert_eq!(
        LoadError::Size.message(),
        "config stage=read: INI 超过 1 MiB，已停止读写；请缩小文件后重试"
    );
    assert_eq!(
        LoadError::CompletedSize.message(),
        "config stage=merged-size；原文件未修改: INI 超过 1 MiB，已停止读写；请缩小文件后重试"
    );
    let refused = |bytes: &[u8]| load_bytes(Some(bytes)).unwrap_err().message();
    assert_eq!(
        refused(&[0xff, 0xfe, 0x01]),
        "config stage=decode: UTF-16 INI 字节数无效；原文件未修改"
    );
    assert_eq!(
        refused(&[0xff, 0xfe, 0x00, 0xd8]),
        "config stage=decode: INI 包含无效 UTF-16 字符: invalid utf-16: lone surrogate found"
    );
    assert_eq!(
        refused(b"[switch-apps]\nbadge_max = 1\n"),
        "config stage=validate: [switch-apps] badge_max 无效；默认值 \"99\"，原值未修改: 可选整数 2-9999"
    );
    assert_eq!(
        refused(b"[appearance]\npanel_width = 20\n"),
        "config stage=validate: [appearance] panel_width 与内边距冲突；至少需要 52 DIP，原值未修改"
    );
    assert_eq!(
        refused(b"trayicon = no\n[input]\npaused = yes\n"),
        "config stage=validate: 暂停时必须保留托盘或 input.pause_hotkey 恢复入口；原值未修改"
    );
    assert!(refused(b"; nothing\n").starts_with("现有 INI 为空白"));
}

#[test]
fn undecodable_bytes_are_named_by_their_place() {
    for bytes in [
        &b"\x80\x90"[..],
        &b"key = \xe4\xbd"[..],
        &b"a\xe4\xbd\xa0\xff"[..],
        &b"a\xf0\x9f\x98b"[..],
    ] {
        let reason = std::str::from_utf8(bytes).unwrap_err().to_string();
        assert_eq!(
            decode(bytes).unwrap_err().message(),
            format!("INI 编码无效，请使用 UTF-8 或带 BOM 的 UTF-16 保存；原文件未修改: {reason}")
        );
        let marked = [&b"\xef\xbb\xbf"[..], bytes].concat();
        assert_eq!(decode(&marked).unwrap_err().message(), reason);
    }
    assert_eq!(
        decode(b"a\xe4\xbd\xa0\xff").unwrap_err(),
        DecodeError::Utf8 {
            marked: false,
            valid: 4,
            wrong: Some(1)
        }
    );
    assert_eq!(
        decode(b"key = \xe4\xbd").unwrap_err(),
        DecodeError::Utf8 {
            marked: false,
            valid: 6,
            wrong: None
        }
    );
}

#[test]
fn syntax_errors_say_where_and_why() {
    for text in ["[broken", "a = 1\n[broken", "a = 1\n= 2\n", "novalue"] {
        let expected = match ini::Ini::load_from_str(text) {
            Err(error) => error,
            Ok(_) => continue,
        };
        let error = parse_ini(text).err().unwrap();
        assert_eq!(error.place(), expected.to_string());
        assert_eq!(
            error.message(),
            format!("INI 语法无效；请检查节名、等号与引号，原文件未修改: {expected}")
        );
        assert_eq!(
            load_bytes(Some(text.as_bytes())).unwrap_err().message(),
            error.message()
        );
        assert_eq!(merge_missing(text).unwrap_err().message(), error.message());
    }
    assert_eq!(parse_ini("a = 1\n[broken").err().unwrap().line, 2);
}

#[test]
fn refused_values_are_answered_with_the_default_and_the_choices() {
    for (text, name, default, reason) in [
        (
            "trayicon = x\n",
            "[] trayicon",
            "yes",
            "可选 yes/no、true/false、on/off、1/0",
        ),
        (
            "[switch-windows]\nonly_current_desktop = x\n",
            "[switch-windows] only_current_desktop",
            "auto",
            "可选 yes/no、true/false、on/off、1/0",
        ),
        (
            "[switch-windows]\nhotkey = tab\n",
            "[switch-windows] hotkey",
            "alt+`",
            "请使用 alt/ctrl/win + 主键，多个组合用 || 分隔: Invalid switch windows hotkey",
        ),
        (
            "[search]\nhotkey = f\n",
            "[search] hotkey",
            "ctrl+space",
            "Invalid search hotkey",
        ),
        (
            "[switch-apps]\nbadge_size = 1\n",
            "[switch-apps] badge_size",
            "auto",
            "可选 auto 或整数 16-48: 可选整数 16-48",
        ),
        (
            "[switch-apps]\nbadge_shape = star\n",
            "[switch-apps] badge_shape",
            "circle",
            "可选值：circle square ",
        ),
        (
            "[switch-apps]\noverride_icons = a\n",
            "[switch-apps] override_icons",
            "",
            "请使用 app.exe=icon.ico，多个条目以英文逗号或分号分隔",
        ),
        (
            "[switch-apps]\noverride_icons = a=\n",
            "[switch-apps] override_icons",
            "",
            "匹配文本和图标路径不能为空或包含 NUL",
        ),
        (
            "[appearance]\nbackground_color = red\n",
            "[appearance] background_color",
            "auto",
            "请填写 auto 或 #RRGGBB 六位十六进制颜色",
        ),
        (
            "[appearance]\nbackground_color = '#12'\n",
            "[appearance] background_color",
            "auto",
            "请填写 #RRGGBB 六位十六进制颜色",
        ),
        (
            "[appearance]\npanel_corner_radius = 300\n",
            "[appearance] panel_corner_radius",
            "auto",
            "可选 auto 或整数 0-256: 可选整数 0-256",
        ),
        (
            "[appearance]\napp_name_font_weight = 150\n",
            "[appearance] app_name_font_weight",
            "400",
            "字重须为 100–900 之间的 100 的倍数",
        ),
        (
            "[appearance]\napp_name_font_weight = 1000\n",
            "[appearance] app_name_font_weight",
            "400",
            "可选整数 100-900",
        ),
        (
            "[localization]\nlanguage = de\n",
            "[localization] language",
            "zh-CN",
            "可选值：zh-CN en-US auto ",
        ),
        (
            "[log]\nlevel = loud\n",
            "[log] level",
            "info",
            "可选 off/error/warn/info/debug/trace: attempted to convert a string that doesn't match an existing log level",
        ),
    ] {
        let (section, key) = name[1..].split_once("] ").unwrap();
        let row = DEFAULT_SETTINGS
            .iter()
            .find(|row| row.0 == section && row.1 == key)
            .unwrap();
        assert_eq!(row.2, default, "{name}");
        let error = load_bytes(Some(text.as_bytes())).unwrap_err();
        let wanted = format!("{name} 无效；默认值 {default:?}，原值未修改: {reason}");
        assert_eq!(error.message(), format!("config stage=validate: {wanted}"));
        assert_eq!(error.snapshot_message(), wanted);
    }
}

#[test]
fn every_declared_setting_has_a_reason_to_refuse_a_value() {
    for (section, key, _) in DEFAULT_SETTINGS {
        for value in ["\u{1}", "=,=;=", "x\0y"] {
            assert!(!explain(section, key, value).is_empty(), "[{section}] {key}");
        }
        assert_eq!(default_value(section, key), default_of_setting(section, key));
    }
    assert_eq!(explain("other", "key", "x"), "");
    assert_eq!(default_value("other", "key"), "");
}

fn default_of_setting(section: &str, key: &str) -> String {
    DEFAULT_SETTINGS
        .iter()
        .find(|row| row.0 == section && row.1 == key)
        .unwrap()
        .2
        .to_owned()
}

#[test]
fn problems_of_single_values_have_texts() {
    for (text, message) in [
        (
            "trayicon = x\n",
            "[] trayicon 无效；可选 yes/no、true/false、on/off、1/0，原值未修改",
        ),
        (
            "[switch-apps]\nonly_current_desktop = x\n",
            "[switch-apps] only_current_desktop 无效；可选 auto、yes 或 no，原值未修改",
        ),
        (
            "restart_delay_ms = 1\n",
            "[] restart_delay_ms 无效；可选整数 200-10000，原值未修改",
        ),
        (
            "[switch-apps]\nbadge_color = red\n",
            "[switch-apps] badge_color 无效；请填写 #RRGGBB 六位十六进制颜色，原值未修改",
        ),
        (
            "[switch-windows]\nhotkey = tab\n",
            "[switch-windows] hotkey 无效；请使用 alt/ctrl/win + 主键，多个组合用 || 分隔: Invalid switch-windows hotkey",
        ),
        (
            "[switch-apps]\noverride_icons = a\n",
            "[switch-apps] override_icons 无效；请使用 app.exe=icon.ico，原值未修改",
        ),
        (
            "[switch-apps]\noverride_icons = a=\n",
            "[switch-apps] override_icons 的匹配文本或图标路径为空，原值未修改",
        ),
        (
            "[log]\nlevel = loud\n",
            "[log] level 无效；可选 off/error/warn/info/debug/trace，原值未修改",
        ),
    ] {
        let problem = validate_values(&parse_ini(text).unwrap()).unwrap_err();
        assert_eq!(problem.message(), message);
    }
}

#[test]
fn completion_keeps_every_line_in_order() {
    for text in [
        "; top\r\n[other]\r\nx = 1\r\n\r\n[switch-apps]\r\nenable = no",
        "[search]\nenable=yes\n\n; note\n[custom]\na = \"b\n c\"\nb=2\n",
        "trayicon=no",
        "[browser]\nx=1\n\n\n",
    ] {
        let merged = merge_missing(text).unwrap();
        let newline = if text.contains("\r\n") { "\r\n" } else { "\n" };
        let mut lines = merged.split_inclusive('\n');
        for line in text.split_inclusive('\n') {
            let ended = format!("{line}{newline}");
            assert!(
                lines.any(|other| other == line || !line.ends_with('\n') && other == ended),
                "{line:?}"
            );
        }
    }
}
