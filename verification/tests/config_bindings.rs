use window_switcher::config::bindings::{validate, validate_hotkeys, BindingProblem};
use window_switcher::config::hotkey::{
    parse_hotkeys, Hotkey, DETAILS_HOTKEY_ID, PAUSE_HOTKEY_ID, SEARCH_HOTKEY_ID,
    SWITCH_APPS_HOTKEY_ID,
};
use window_switcher::config::schema::Config;
use window_switcher::config::search::{SearchField, SearchFields};

#[test]
fn bindings_only_enabled_bindings_conflict_and_search_is_independent() {
    let mut config = Config {
        search_hotkey: Hotkey::create(SEARCH_HOTKEY_ID, "search", "alt+tab").unwrap(),
        switch_apps_enable: true,
        ..Default::default()
    };
    assert!(validate(&config).is_ok());
    config.search_enable = true;
    assert!(validate(&config).is_err());
    config.switch_apps_enable = false;
    assert!(validate(&config).is_ok());
    assert!(config
        .to_hotkeys()
        .iter()
        .any(|key| key.id == SEARCH_HOTKEY_ID));
}

#[test]
fn paused_configuration_keeps_an_independent_nonconflicting_recovery_path() {
    let mut config = Config {
        input_paused: true,
        trayicon: false,
        ..Default::default()
    };
    assert!(validate(&config).is_err());
    config.pause_hotkey = Some(Hotkey::create(PAUSE_HOTKEY_ID, "pause", "ctrl+f10").unwrap());
    assert!(validate(&config).is_ok());
    assert!(config
        .to_hotkeys()
        .iter()
        .any(|key| key.id == PAUSE_HOTKEY_ID));
    config.search_enable = true;
    config.search_hotkey = Hotkey::create(SEARCH_HOTKEY_ID, "search", "ctrl+f10").unwrap();
    assert!(validate(&config).is_err());
    config.pause_hotkey = None;
    config.trayicon = true;
    assert!(validate(&config).is_ok());
}

#[test]
fn details_only_registers_with_its_panel_and_conflicts_with_enabled_entries() {
    let mut config = Config {
        details_enable: true,
        details_hotkey: Hotkey::create(DETAILS_HOTKEY_ID, "details", "ctrl+space").unwrap(),
        search_enable: true,
        ..Default::default()
    };
    assert!(validate(&config).is_ok());
    config.switch_apps_enable = true;
    assert!(validate(&config).is_err());
    config.search_enable = false;
    assert!(validate(&config).is_ok());
}

#[test]
fn fields_are_a_nonempty_valid_subset() {
    for value in ["app", "title", "exe", "exe, app", "title,app,exe"] {
        assert!(SearchFields::parse(value).is_some());
    }
    for value in ["", "all", "app,", "app,name", "APP"] {
        assert!(SearchFields::parse(value).is_none());
    }
    let fields = SearchFields::parse("title,exe").unwrap();
    assert!(!fields.contains(SearchField::App));
    assert!(fields.contains(SearchField::Title) && fields.contains(SearchField::Exe));
}

#[test]
fn search_only_enabled_bindings_conflict_and_search_is_independent() {
    let mut config = Config {
        search_hotkey: Hotkey::create(SEARCH_HOTKEY_ID, "search", "alt+tab").unwrap(),
        switch_apps_enable: true,
        ..Default::default()
    };
    assert!(validate_hotkeys(&config).is_ok());
    config.search_enable = true;
    assert!(validate_hotkeys(&config).is_err());
    config.switch_apps_enable = false;
    assert!(validate_hotkeys(&config).is_ok());
    assert!(config
        .to_hotkeys()
        .iter()
        .any(|key| key.id == SEARCH_HOTKEY_ID));
}

#[test]
fn binding_texts_ignore_case_and_spaces() {
    let plain = Hotkey::create(SWITCH_APPS_HOTKEY_ID, "apps", "alt+tab").unwrap();
    let loose = Hotkey::create(SWITCH_APPS_HOTKEY_ID, "apps", " ALT + Tab ").unwrap();
    assert_eq!(plain, loose);
    assert_eq!(plain.modifier, [0x38, 0x38]);
    assert_eq!(plain.code, 0x0f);
    assert_eq!(plain.get_modifier(), 0x38);
}

#[test]
fn bindings_without_modifier_or_key_are_refused_with_their_name() {
    for text in ["", "tab", "alt", "alt+", "+tab", "alt+tab+tab", "alt+nokey"] {
        let error = Hotkey::create(SWITCH_APPS_HOTKEY_ID, "apps", text).unwrap_err();
        assert_eq!(error.name, "apps");
    }
}

#[test]
fn binding_lists_are_read_in_order() {
    let list = parse_hotkeys(SWITCH_APPS_HOTKEY_ID, "apps", "alt+tab || ctrl+f2").unwrap();
    assert_eq!(list.len(), 2);
    assert_eq!(list[0].code, 0x0f);
    assert_eq!(list[1].modifier, [0x1d, 0x1d]);
    assert!(parse_hotkeys(SWITCH_APPS_HOTKEY_ID, "apps", "alt+tab || nothing").is_err());
}

#[test]
fn a_paused_configuration_without_a_way_back_is_named() {
    let config = Config {
        input_paused: true,
        trayicon: false,
        ..Default::default()
    };
    let problem = validate(&config).unwrap_err();
    assert_ne!(
        std::mem::discriminant(&problem),
        std::mem::discriminant(&clash())
    );
}

fn clash() -> BindingProblem {
    let config = Config {
        search_hotkey: Hotkey::create(SEARCH_HOTKEY_ID, "search", "alt+tab").unwrap(),
        search_enable: true,
        switch_apps_enable: true,
        ..Default::default()
    };
    validate(&config).unwrap_err()
}
