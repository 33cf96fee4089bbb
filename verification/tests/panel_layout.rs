use window_switcher::config::schema::Config;
use window_switcher::config::types::{AppNameMode, MonitorFilter};
use window_switcher::layout::{
    LayoutError, LayoutOptions, LayoutSnapshot, MonitorSnapshot, PixelRect,
};
use window_switcher::monitor_scope::MonitorScope;
use window_switcher::painter::{can_reuse, plan_frame, FrameError, PaintStep, Panel};
use window_switcher::icon_cache::IconKey;
use window_switcher::window_identity::{ProcessIdentity, WindowIdentity};

fn monitor(dpi: u32) -> MonitorSnapshot {
    let scale = dpi as i32 / 48;
    let screen = PixelRect {
        left: -960 * scale,
        top: -100 * scale,
        right: 0,
        bottom: 440 * scale,
    };
    MonitorSnapshot {
        identity: 1,
        screen,
        available: PixelRect {
            bottom: screen.bottom - 20 * scale,
            ..screen
        },
        dpi,
    }
}

fn options() -> LayoutOptions {
    LayoutOptions::from_config(&Config::default())
}

#[test]
fn natural_single_axis_and_dual_axis_fit_obey_dip_contract() {
    for dpi in [96, 144, 192] {
        let scale = f64::from(dpi) / 96.0;
        for (width, height, expected_width, expected_height, icon) in [
            (0, 0, 380, 92, 64),
            (740, 0, 740, 164, 136),
            (740, 92, 740, 92, 64),
            (0, 164, 740, 164, 136),
        ] {
            let layout = LayoutSnapshot::calculate(
                &LayoutOptions {
                    panel_width: width,
                    panel_height: height,
                    ..options()
                },
                monitor(dpi),
                5,
                1,
                0,
            )
            .unwrap();
            assert_eq!(
                layout.bounds.width(),
                (f64::from(expected_width) * scale) as i32
            );
            assert_eq!(
                layout.bounds.height(),
                (f64::from(expected_height) * scale) as i32
            );
            assert_eq!(layout.icon_size, (f64::from(icon) * scale) as i32);
        }
    }
}

#[test]
fn pagination_preserves_last_page_geometry_and_screen_hit_rectangles() {
    for dpi in [96, 144, 192] {
        for count in [1, 5, 50, 250, 4096] {
            let first = LayoutSnapshot::calculate(&options(), monitor(dpi), count, 0, 0).unwrap();
            let last =
                LayoutSnapshot::calculate(&options(), monitor(dpi), count, count - 1, 0).unwrap();
            assert_eq!(first.bounds, last.bounds);
            assert_eq!(first.icon_size, last.icon_size);
            assert_eq!(first.capacity, last.capacity);
            assert!(last.items.len() <= last.capacity);
            assert!(last.bounds.top >= last.monitor.available.top);
            assert!(last.bounds.bottom <= last.monitor.available.bottom);
            for item in &last.items {
                assert_eq!(
                    last.hit_test(
                        last.bounds.left + item.outer.left,
                        last.bounds.top + item.outer.top
                    ),
                    Some(item.index)
                );
                assert!(item.icon.left >= item.outer.left && item.icon.right <= item.outer.right);
            }
            assert_eq!(last.hit_test(last.bounds.right, last.bounds.bottom), None);
        }
    }
}

#[test]
fn small_targets_page_instead_of_squeezing_icons_and_limits_do_not_rewrite_targets() {
    let mut settings = options();
    settings.panel_width = 740;
    settings.panel_height = 500;
    settings.max_width = 300;
    settings.max_height = 100;
    settings.max_columns = 4;
    let layout = LayoutSnapshot::calculate(&settings, monitor(96), 250, 249, 0).unwrap();
    assert_eq!(layout.bounds.width(), 300);
    assert_eq!(layout.bounds.height(), 100);
    assert_eq!(layout.capacity, 4);
    assert_eq!(layout.icon_size, 62);
    assert_eq!(settings.panel_width, 740);
    assert_eq!(settings.panel_height, 500);
    assert!(layout.footer.is_none());
}

#[test]
fn narrow_automatic_axes_shrink_to_the_minimum_before_rejecting() {
    for dpi in [96, 144, 192] {
        let mut narrow = monitor(dpi);
        narrow.available.right = narrow.available.left + (52 * dpi / 96) as i32;
        let layout = LayoutSnapshot::calculate(&options(), narrow, 50, 49, 0).unwrap();
        assert_eq!(layout.capacity, 1);
        assert_eq!(layout.icon_size, (24 * dpi / 96) as i32);
        assert_eq!(layout.bounds.width(), (52 * dpi / 96) as i32);
        narrow.available.right -= (dpi / 96) as i32;
        assert!(LayoutSnapshot::calculate(&options(), narrow, 1, 0, 0).is_err());
    }
}

#[test]
fn unusable_counts_work_areas_and_explicit_combinations_are_rejected() {
    for (count, selected) in [(0, 0), (4097, 0), (3, 3)] {
        assert!(LayoutSnapshot::calculate(&options(), monitor(96), count, selected, 0).is_err());
    }
    let mut settings = options();
    settings.panel_width = 51;
    assert!(settings.validate().is_err());
    settings.panel_width = 52;
    assert!(settings.validate().is_ok());
    let mut tiny = monitor(96);
    tiny.available.right = tiny.available.left + 20;
    assert!(LayoutSnapshot::calculate(&options(), tiny, 1, 0, 0).is_err());
    assert!(LayoutSnapshot::calculate(&options(), monitor(96), 1, 0, 2000).is_err());
}

#[test]
fn selected_name_reserves_fixed_readable_height_and_rejects_incompatible_targets() {
    let mut config = Config {
        app_name_mode: AppNameMode::Selected,
        app_name_font_size: 48,
        ..Default::default()
    };
    let options = LayoutOptions::from_config(&config);
    assert_eq!(options.name_height, 78);
    let named =
        LayoutSnapshot::calculate(&options, monitor(96), 5, 0, options.name_height).unwrap();
    let plain = LayoutSnapshot::calculate(&options, monitor(96), 5, 0, 0).unwrap();
    assert_eq!(named.bounds.height() - plain.bounds.height(), 78);
    assert_eq!(named.icon_size, plain.icon_size);
    assert_eq!(named.footer.unwrap().height(), 78);
    config.panel_height = 129;
    assert!(LayoutOptions::from_config(&config).validate().is_err());
    config.panel_height = 130;
    assert!(LayoutOptions::from_config(&config).validate().is_ok());
    config.app_name_mode = AppNameMode::Off;
    assert_eq!(LayoutOptions::from_config(&config).name_height, 0);
}

#[test]
fn monitors_are_captured_with_one_supported_resolution() {
    let screen = PixelRect {
        left: 0,
        top: 0,
        right: 100,
        bottom: 100,
    };
    let work = PixelRect {
        bottom: 90,
        ..screen
    };
    let whole = MonitorSnapshot::capture(3, screen, work, false, 96, 96).unwrap();
    assert_eq!(whole.available, screen);
    let part = MonitorSnapshot::capture(3, screen, work, true, 960, 960).unwrap();
    assert_eq!(part.available, work);
    assert!(MonitorSnapshot::capture(3, screen, work, true, 96, 97).is_none());
    assert!(MonitorSnapshot::capture(3, screen, work, true, 47, 47).is_none());
    assert!(MonitorSnapshot::capture(3, screen, work, true, 961, 961).is_none());
}

#[test]
fn layout_errors_are_told_apart() {
    let mut wrong = monitor(96);
    wrong.dpi = 47;
    assert_eq!(
        LayoutSnapshot::calculate(&options(), wrong, 1, 0, 0),
        Err(LayoutError::Dpi)
    );
    let mut empty = monitor(96);
    empty.available.right = empty.available.left;
    assert_eq!(
        LayoutSnapshot::calculate(&options(), empty, 1, 0, 0),
        Err(LayoutError::Monitor)
    );
    assert_eq!(
        LayoutSnapshot::calculate(&options(), monitor(96), 0, 0, 0),
        Err(LayoutError::Count)
    );
}

#[test]
fn range_is_fixed_and_panel_and_foreground_are_independent() {
    let scope = MonitorScope {
        panel: 1,
        foreground: 2,
    };
    assert!(scope.allows_monitor(MonitorFilter::All, 3));
    assert!(scope.allows_monitor(MonitorFilter::Panel, 1));
    assert!(!scope.allows_monitor(MonitorFilter::Panel, 2));
    assert!(scope.allows_monitor(MonitorFilter::Foreground, 2));
    assert!(!scope.allows_monitor(MonitorFilter::Foreground, 1));
    assert!(!MonitorScope::default().allows_monitor(MonitorFilter::Panel, 0));
    // Repeated queries cannot update the captured monitor.
    assert!(!scope.allows_monitor(MonitorFilter::Panel, 3));
    assert!(scope.allows_monitor(MonitorFilter::Panel, 1));
}

fn icon_key(window: u64) -> IconKey {
    IconKey {
        group: "app.exe".to_string(),
        identity: WindowIdentity {
            window,
            process: ProcessIdentity {
                pid: 1,
                created: 1,
            },
            epoch: 0,
            lifetime: 0,
        },
    }
}

#[test]
fn the_panel_is_shown_once_and_forgets_the_pointer_when_hidden() {
    let mut panel = Panel::new();
    assert_eq!(panel.drawn(true), PaintStep::Show);
    assert_eq!(panel.focused(true), PaintStep::Done);
    assert_eq!(panel.drawn(true), PaintStep::Done);
    assert!(panel.hover(Some(icon_key(1))));
    assert!(!panel.hover(Some(icon_key(1))));
    assert!(panel.hover(Some(icon_key(2))));
    panel.press(Some(icon_key(2)));
    assert_eq!(panel.release(), Some(icon_key(2)));
    assert_eq!(panel.release(), None);
    assert_eq!(panel.drawn(false), PaintStep::Hide);
    assert!(!panel.shown);
    assert!(panel.hovered.is_none());
    assert_eq!(panel.focused(false), PaintStep::Hide);
}

#[test]
fn clicks_count_only_on_a_shown_panel() {
    let layout = LayoutSnapshot::calculate(&options(), monitor(96), 5, 0, 0).unwrap();
    let x = layout.bounds.left + layout.items[2].outer.left;
    let y = layout.bounds.top + layout.items[2].outer.top;
    let mut panel = Panel::new();
    assert_eq!(panel.clicked(Some(&layout), x, y), None);
    panel.focused(true);
    assert_eq!(panel.clicked(Some(&layout), x, y), Some(2));
    assert_eq!(panel.clicked(None, x, y), None);
}

#[test]
fn a_layout_is_used_again_on_its_page_only() {
    let config = Config::default();
    let first = plan_frame(&config, None, monitor(96), 250, 0, 0).unwrap().unwrap();
    assert!(can_reuse(&first, 250, &monitor(96), 250, 1));
    assert!(!can_reuse(&first, 249, &monitor(96), 250, 1));
    assert!(!can_reuse(&first, 250, &monitor(144), 250, 1));
    assert_eq!(
        plan_frame(&config, Some((&first, 250)), monitor(96), 250, 1, 0),
        Ok(None)
    );
    let last = plan_frame(&config, Some((&first, 250)), monitor(96), 250, 249, 0)
        .unwrap()
        .unwrap();
    assert!(last.page > first.page);
    assert_eq!(
        plan_frame(&config, None, monitor(96), 0, 0, 0),
        Err(FrameError::Selection)
    );
    assert!(matches!(
        plan_frame(&config, None, monitor(96), 1, 0, 2000),
        Err(FrameError::Layout(_))
    ));
    assert!(Panel::check(&config, monitor(96), 0).is_ok());
    let enabled = Config {
        switch_apps_enable: true,
        ..Default::default()
    };
    assert!(Panel::check(&enabled, monitor(96), 2000).is_err());
}
