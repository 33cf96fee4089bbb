use window_switcher::config::schema::Config;
use window_switcher::config::types::Language;
use window_switcher::diagnostics::{sample_start, stage_elapsed, ticks, Diagnostics};
use window_switcher::localization::{message_box, FailureKind, StartupState, Text};
use window_switcher::metrics::{
    enabled, record_keyboard_elapsed, sample_line, MetricQueue, MetricSample, SampleFate,
    WriterAnswer, PENDING_QUEUE_CAPACITY,
};

#[test]
fn menu_language_and_pending_states_are_distinct() {
    let zh = Text::new(Language::Chinese, 0);
    assert_eq!(
        [
            zh.configure(),
            zh.startup(StartupState::Ready(true), false),
            zh.exit()
        ],
        ["编辑配置", "开机启动", "退出"]
    );
    let en = Text::new(Language::English, 0);
    assert_eq!(en.configure(), "Edit configuration");
    assert_ne!(
        zh.startup(StartupState::Pending, true),
        zh.startup(StartupState::Ready(false), false)
    );
    assert_ne!(
        en.startup(StartupState::Failed, false),
        en.startup(StartupState::Ready(false), false)
    );
}

#[test]
fn application_failures_use_the_selected_language_and_stable_codes() {
    for kind in [
        FailureKind::Configuration,
        FailureKind::Restart,
        FailureKind::RestartCleanup,
        FailureKind::Startup,
        FailureKind::Interface,
        FailureKind::Launch,
    ] {
        let english = Text::new(Language::English, 0).failure(kind, "底层错误 D:\\private");
        assert!(english.is_ascii());
        assert!(english.contains("[WS-"));
        assert!(!english.contains("private"));
        assert!(Text::new(Language::Chinese, 0)
            .failure(kind, "底层错误")
            .contains("底层错误"));
    }
}

#[test]
fn the_automatic_language_follows_the_system() {
    assert!(Text::new(Language::Auto, 0x0804).chinese);
    assert!(Text::new(Language::Auto, 0x0404).chinese);
    assert!(!Text::new(Language::Auto, 0x0409).chinese);
}

#[test]
fn counts_and_codes_are_written_out() {
    let en = Text::new(Language::English, 0);
    let zh = Text::new(Language::Chinese, 0);
    assert_eq!(en.window_count(1), "1 window");
    assert_eq!(en.window_count(12), "12 windows");
    assert_eq!(zh.window_count(1), "1 个窗口");
    assert_eq!(
        en.search_count(3, 10),
        "Showing 3 of 10 windows · Enter to switch · Escape to cancel"
    );
    assert_eq!(
        en.search_count(0, 0),
        "No matching windows. Change the search or press Escape to return."
    );
    assert!(zh.log_failure(-5).contains("系统代码 -5"));
    assert_eq!(en.pause(true, false), "Resume shortcuts");
    assert_eq!(en.pause(false, false), "Pause shortcuts");
    assert_eq!(en.pause(false, true), "Saving pause setting…");
}

#[test]
fn a_failed_start_is_shown_with_title_and_code() {
    let (title, body) = message_box(Text::new(Language::English, 0), "secret");
    assert_eq!(title, "Window Switcher error");
    assert!(body.ends_with("[WS-LAUNCH]"));
    assert!(!body.contains("secret"));
}

#[test]
fn disabled_metrics_have_no_sampling_or_periodic_output_work() {
    let mut diagnostics = Diagnostics::new(&Config::default(), 0, Some(5), 0);
    assert!(diagnostics.input_ready(10, 20).is_none());
    diagnostics.begin_restart(11);
    assert!(diagnostics.restart_ack(12).is_none());
    diagnostics.rollback();
    assert!(!diagnostics.tick(u64::MAX));
    assert!(diagnostics.process_created.is_none());
    assert!(diagnostics.restart_started.is_none());
    assert_eq!(diagnostics.restart_acks, 0);
    assert!(sample_start(false, 3).is_none());
    assert!(stage_elapsed(None, 3).is_none());
}

#[test]
fn enabled_metrics_report_times_once_and_by_interval() {
    let config = Config {
        metrics_enabled: true,
        metrics_interval_s: 2,
        ..Default::default()
    };
    let mut diagnostics = Diagnostics::new(&config, 100, Some(1000), 100);
    let ready = diagnostics.input_ready(350, 1500).unwrap();
    assert_eq!(ready.main_elapsed, 250);
    assert_eq!(ready.process_elapsed, Some(50));
    assert!(diagnostics.input_ready(400, 1600).is_none());
    assert_eq!(diagnostics.auxiliary_completed(500), Some(400));
    diagnostics.begin_restart(600);
    assert_eq!(diagnostics.restart_ack(650), Some(50));
    diagnostics.rollback();
    assert_eq!((diagnostics.restart_acks, diagnostics.rollbacks), (1, 1));
    assert!(!diagnostics.tick(2_000_099));
    assert!(diagnostics.tick(2_000_100));
    assert!(!diagnostics.tick(2_000_101));
    assert_eq!(stage_elapsed(sample_start(true, 7), 9), Some(2));
    assert_eq!(ticks(1, 2), 0x1_0000_0002);
}

#[test]
fn the_switch_for_timing_takes_four_words() {
    for value in ["1", "true", " YES ", "On"] {
        assert!(enabled(Some(value)));
    }
    for value in ["", "0", "no", "enabled"] {
        assert!(!enabled(Some(value)));
    }
    assert!(!enabled(None));
}

#[test]
fn samples_wait_for_the_log_and_losses_are_reported_once() {
    let sample = MetricSample {
        stage: "layout",
        elapsed_us: 12,
        sequence: None,
    };
    let mut queue = MetricQueue::new();
    for _ in 0..PENDING_QUEUE_CAPACITY {
        assert_eq!(queue.log_sample(sample), SampleFate::Queued);
    }
    assert_eq!(queue.log_sample(sample), SampleFate::DroppedFirst);
    assert_eq!(queue.log_sample(sample), SampleFate::Dropped);
    assert_eq!(queue.mark_logging_ready().len(), PENDING_QUEUE_CAPACITY);
    assert_eq!(queue.log_sample(sample), SampleFate::Write);
    assert_eq!(queue.write_sample(WriterAnswer::Taken), SampleFate::Queued);
    assert_eq!(queue.write_sample(WriterAnswer::Full), SampleFate::Dropped);
    assert_eq!(queue.dropped, 3);
    assert_eq!(
        sample_line(&sample, 3),
        "perf stage=layout elapsed_us=12 dropped_metrics=3"
    );
    let keyed = record_keyboard_elapsed(true, "hook", 9, 4).unwrap();
    assert_eq!(
        sample_line(&keyed, 0),
        "perf stage=hook sequence=9 elapsed_us=4 dropped_metrics=0"
    );
    assert!(record_keyboard_elapsed(true, "hook", 0, 4).is_none());
    assert!(record_keyboard_elapsed(false, "hook", 9, 4).is_none());
}

#[test]
fn every_text_has_two_languages() {
    let en = Text::new(Language::English, 0);
    let zh = Text::new(Language::Chinese, 0);
    assert_eq!(
        [
            en.exit(),
            en.switcher_name(),
            en.search_label(),
            en.search_results_label(),
            en.search_loading(),
            en.config_saved(),
            en.startup(StartupState::Saved(true), false),
            en.startup(StartupState::Ready(true), true),
        ],
        [
            "Exit",
            "Application switcher",
            "Search windows",
            "Window results",
            "Finding windows… Press Escape to cancel",
            "Settings saved",
            "Start at sign-in (restart required)",
            "Start at sign-in (saving)",
        ]
    );
    assert_eq!(
        [
            zh.switcher_name(),
            zh.search_label(),
            zh.search_results_label(),
            zh.search_loading(),
            zh.error_title(),
            zh.config_saved(),
        ],
        [
            "应用切换器",
            "搜索窗口",
            "窗口结果",
            "正在查找窗口… 按 Esc 取消",
            "Window Switcher 错误",
            "设置已保存",
        ]
    );
    assert!(en.search_failure().starts_with("Search failed."));
    assert!(zh.search_failure().starts_with("无法完成搜索。"));
    assert!(en.switcher_help().ends_with("click an application icon."));
    assert!(zh.switcher_help().ends_with("也可点击应用图标。"));
    assert!(en.restart_required().starts_with("Settings were saved"));
    assert!(zh.restart_required().starts_with("设置已写入 INI。"));
    assert_eq!(
        zh.search_count(3, 10),
        "显示 3 / 10 个窗口 · Enter 切换 · Esc 取消"
    );
}

#[test]
fn failures_have_different_codes() {
    let kinds = [
        (FailureKind::Configuration, "\n[WS-CONFIG]"),
        (FailureKind::Restart, "\n[WS-RESTART]"),
        (FailureKind::RestartCleanup, "\n[WS-RESTART-CLEANUP]"),
        (FailureKind::Startup, "\n[WS-STARTUP]"),
        (FailureKind::Interface, "\n[WS-UI]"),
        (FailureKind::Launch, "\n[WS-LAUNCH]"),
    ];
    for (kind, code) in kinds {
        assert!(Text { chinese: false }.failure(kind, "x").ends_with(code));
        assert!(Text { chinese: true }.failure(kind, "x").ends_with(&format!("{code}\nx")));
    }
}
