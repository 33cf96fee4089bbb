//! The texts of the user interface in Chinese and English.

use vstd::prelude::*;
use vstd::utf8::is_ascii_chars;

use crate::config::types::Language;
use crate::text::{
    begins_with, decimal, decimal_text, has_text, occurs_at, push_text, signed_decimal, signed_text,
};

verus! {

/// What failed.
#[derive(Debug, Clone, Copy, PartialEq, Eq, Structural)]
pub enum FailureKind {
    Configuration,
    Restart,
    RestartCleanup,
    Startup,
    Interface,
    Launch,
}

/// Whether the switcher starts with the session.
#[derive(Debug, Clone, Copy, PartialEq, Eq, Structural)]
pub enum StartupState {
    /// It is being found out.
    Pending,
    /// It could not be found out.
    Failed,
    /// It was changed and takes effect after a restart.
    Saved(bool),
    /// It is known.
    Ready(bool),
}

/// The language of the user interface.
#[derive(Debug, Clone, Copy, PartialEq, Eq, Structural)]
pub struct Text {
    pub chinese: bool,
}

/// Number of the primary language Chinese in a Windows language identifier.
pub const CHINESE_LANGUAGE: u16 = 4;

impl Text {
    /// Whether a language is shown in Chinese; `Auto` follows the language of the system.
    pub open spec fn is_chinese(language: Language, system_language: u16) -> bool {
        match language {
            Language::Chinese => true,
            Language::English => false,
            Language::Auto => system_language % 0x400 == CHINESE_LANGUAGE,
        }
    }

    pub fn new(language: Language, system_language: u16) -> (r: Self)
        ensures
            r.chinese == Text::is_chinese(language, system_language),
    {
        let chinese = match language {
            Language::Chinese => true,
            Language::English => false,
            Language::Auto => system_language % 0x400 == CHINESE_LANGUAGE,
        };
        Text { chinese }
    }

    /// The text of the language.
    pub open spec fn pick(self, chinese: Seq<char>, english: Seq<char>) -> Seq<char> {
        if self.chinese {
            chinese
        } else {
            english
        }
    }

    fn select(self, chinese: &'static str, english: &'static str) -> (r: &'static str)
        ensures
            r@ == self.pick(chinese@, english@),
    {
        if self.chinese {
            chinese
        } else {
            english
        }
    }

    /// The menu entry for the configuration.
    pub fn configure(self) -> (r: &'static str)
        ensures
            r@ == self.pick(
                "编辑配置"@,
                "Edit configuration"@,
            ),
    {
        self.select(
            "编辑配置",
            "Edit configuration",
        )
    }

    /// The menu entry for the exit.
    pub fn exit(self) -> (r: &'static str)
        ensures
            r@ == self.pick(
                "退出"@,
                "Exit"@,
            ),
    {
        self.select(
            "退出",
            "Exit",
        )
    }

    /// The name of the panel.
    pub fn switcher_name(self) -> (r: &'static str)
        ensures
            r@ == self.pick(
                "应用切换器"@,
                "Application switcher"@,
            ),
    {
        self.select(
            "应用切换器",
            "Application switcher",
        )
    }

    /// The label of the search field.
    pub fn search_label(self) -> (r: &'static str)
        ensures
            r@ == self.pick(
                "搜索窗口"@,
                "Search windows"@,
            ),
    {
        self.select(
            "搜索窗口",
            "Search windows",
        )
    }

    /// The label of the search results.
    pub fn search_results_label(self) -> (r: &'static str)
        ensures
            r@ == self.pick(
                "窗口结果"@,
                "Window results"@,
            ),
    {
        self.select(
            "窗口结果",
            "Window results",
        )
    }

    /// The text during a search.
    pub fn search_loading(self) -> (r: &'static str)
        ensures
            r@ == self.pick(
                "正在查找窗口… 按 Esc 取消"@,
                "Finding windows… Press Escape to cancel"@,
            ),
    {
        self.select(
            "正在查找窗口… 按 Esc 取消",
            "Finding windows… Press Escape to cancel",
        )
    }

    /// The text after a failed search.
    pub fn search_failure(self) -> (r: &'static str)
        ensures
            r@ == self.pick(
                "无法完成搜索。请按 Esc 返回，检查日志后重试或重启应用。"@,
                "Search failed. Press Escape, check the log, and retry or restart the application."@,
            ),
    {
        self.select(
            "无法完成搜索。请按 Esc 返回，检查日志后重试或重启应用。",
            "Search failed. Press Escape, check the log, and retry or restart the application.",
        )
    }

    /// The help text of the panel.
    pub fn switcher_help(self) -> (r: &'static str)
        ensures
            r@ == self.pick(
                "循环选择应用，松开快捷键修饰键激活。按 Esc 取消；也可点击应用图标。"@,
                "Cycle through applications and release the shortcut modifier to activate. Press Escape to cancel, or click an application icon."@,
            ),
    {
        self.select(
            "循环选择应用，松开快捷键修饰键激活。按 Esc 取消；也可点击应用图标。",
            "Cycle through applications and release the shortcut modifier to activate. Press Escape to cancel, or click an application icon.",
        )
    }

    /// The title of an error message.
    pub fn error_title(self) -> (r: &'static str)
        ensures
            r@ == self.pick(
                "Window Switcher 错误"@,
                "Window Switcher error"@,
            ),
    {
        self.select(
            "Window Switcher 错误",
            "Window Switcher error",
        )
    }

    /// The title after settings were saved.
    pub fn config_saved(self) -> (r: &'static str)
        ensures
            r@ == self.pick(
                "设置已保存"@,
                "Settings saved"@,
            ),
    {
        self.select(
            "设置已保存",
            "Settings saved",
        )
    }

    /// The text after settings were saved that need a restart.
    pub fn restart_required(self) -> (r: &'static str)
        ensures
            r@ == self.pick(
                "设置已写入 INI。自动重启已关闭，请退出并重新启动应用后生效。"@,
                "Settings were saved to the INI. Automatic restart is disabled; exit and restart the application to apply them."@,
            ),
    {
        self.select(
            "设置已写入 INI。自动重启已关闭，请退出并重新启动应用后生效。",
            "Settings were saved to the INI. Automatic restart is disabled; exit and restart the application to apply them.",
        )
    }

    /// The menu entry for the pause.
    pub fn pause(self, paused: bool, busy: bool) -> (r: &'static str)
        ensures
            r@ == (if busy {
                self.pick("正在保存暂停设置…"@, "Saving pause setting…"@)
            } else if paused {
                self.pick("恢复快捷键"@, "Resume shortcuts"@)
            } else {
                self.pick("暂停快捷键"@, "Pause shortcuts"@)
            }),
    {
        if busy {
            self.select("正在保存暂停设置…", "Saving pause setting…")
        } else if paused {
            self.select("恢复快捷键", "Resume shortcuts")
        } else {
            self.select("暂停快捷键", "Pause shortcuts")
        }
    }

    /// The number of search results.
    pub fn search_count(self, shown: usize, total: usize) -> (r: String)
        ensures
            r@ == (if total == 0 {
                self.pick(
                    "没有匹配窗口。请修改搜索内容，或按 Esc 返回。"@,
                    "No matching windows. Change the search or press Escape to return."@,
                )
            } else if self.chinese {
                "显示 "@ + decimal(shown as nat) + " / "@ + decimal(total as nat)
                    + " 个窗口 · Enter 切换 · Esc 取消"@
            } else {
                "Showing "@ + decimal(shown as nat) + " of "@ + decimal(total as nat)
                    + " windows · Enter to switch · Escape to cancel"@
            }),
    {
        if total == 0 {
            return self.select(
                "没有匹配窗口。请修改搜索内容，或按 Esc 返回。",
                "No matching windows. Change the search or press Escape to return.",
            ).to_owned();
        }
        let mut r = self.select("显示 ", "Showing ").to_owned();
        push_text(&mut r, decimal_text(shown as u64).as_str());
        push_text(&mut r, self.select(" / ", " of "));
        push_text(&mut r, decimal_text(total as u64).as_str());
        push_text(
            &mut r,
            self.select(
                " 个窗口 · Enter 切换 · Esc 取消",
                " windows · Enter to switch · Escape to cancel",
            ),
        );
        r
    }

    /// The number of windows of an application.
    pub fn window_count(self, count: usize) -> (r: String)
        ensures
            r@ == (if self.chinese {
                decimal(count as nat) + " 个窗口"@
            } else if count == 1 {
                "1 window"@
            } else {
                decimal(count as nat) + " windows"@
            }),
    {
        if !self.chinese && count == 1 {
            return "1 window".to_owned();
        }
        let mut r = decimal_text(count as u64);
        push_text(&mut r, self.select(" 个窗口", " windows"));
        r
    }

    /// The code under which support knows a failure.
    pub open spec fn failure_code(kind: FailureKind) -> Seq<char> {
        match kind {
            FailureKind::Configuration => "WS-CONFIG"@,
            FailureKind::Restart => "WS-RESTART"@,
            FailureKind::RestartCleanup => "WS-RESTART-CLEANUP"@,
            FailureKind::Startup => "WS-STARTUP"@,
            FailureKind::Interface => "WS-UI"@,
            FailureKind::Launch => "WS-LAUNCH"@,
        }
    }

    /// The Chinese advice on a failure.
    pub open spec fn chinese_advice(kind: FailureKind) -> Seq<char> {
        match kind {
            FailureKind::Configuration => "设置未能应用。请检查 INI 的格式、合法值和文件权限；原有配置不会被默认值覆盖。"@,
            FailureKind::Restart => "配置重启未完成。当前实例将恢复服务；请检查配置及日志目录，或稍后重试。"@,
            FailureKind::RestartCleanup => "候选进程停止状态尚未确认。输入交接保持暂停；请检查本应用进程状态后重新启动。"@,
            FailureKind::Startup => "开机启动状态未能确认或应用。INI 期望值已保留；请检查任务服务、权限及同名启动项。"@,
            FailureKind::Interface => "界面操作未完成。请关闭菜单后重试；问题持续时重新启动应用。"@,
            FailureKind::Launch => "应用未能启动。请确认没有运行中的实例，并检查 INI、日志目录和系统权限。"@,
        }
    }

    /// The English advice on a failure.
    pub open spec fn english_advice(kind: FailureKind) -> Seq<char> {
        match kind {
            FailureKind::Configuration => "Settings could not be applied. Check the INI syntax, allowed values, and file permissions. Existing values are not replaced with defaults."@,
            FailureKind::Restart => "The configuration restart did not complete. The current instance will resume service. Check the configuration and log directory, or retry later."@,
            FailureKind::RestartCleanup => "The replacement process could not be confirmed stopped. Input handoff remains paused. Check the application's process state before restarting it."@,
            FailureKind::Startup => "Start-at-sign-in status could not be verified or applied. Desired INI settings are retained. Check Task Scheduler, permissions, and conflicting startup entries."@,
            FailureKind::Interface => "The interface operation did not complete. Close the menu and retry; restart the application if the problem persists."@,
            FailureKind::Launch => "The application could not start. Check for an existing instance, then verify the INI, log directory, and system permissions."@,
        }
    }

    /// The message on a failure. The detail can hold texts of the system or paths of the user; it
    /// is shown in Chinese only, the English message has the advice and the code.
    pub open spec fn failure_text(self, kind: FailureKind, detail: Seq<char>) -> Seq<char> {
        if self.chinese {
            Text::chinese_advice(kind) + "\n["@ + Text::failure_code(kind) + "]\n"@ + detail
        } else {
            Text::english_advice(kind) + "\n["@ + Text::failure_code(kind) + "]"@
        }
    }

    /// The message on a failure.
    pub fn failure(self, kind: FailureKind, detail: &str) -> (r: String)
        ensures
            r@ == self.failure_text(kind, detail@),
    {
        let (code, chinese, english) = match kind {
            FailureKind::Configuration => (
                "WS-CONFIG",
                "设置未能应用。请检查 INI 的格式、合法值和文件权限；原有配置不会被默认值覆盖。",
                "Settings could not be applied. Check the INI syntax, allowed values, and file permissions. Existing values are not replaced with defaults.",
            ),
            FailureKind::Restart => (
                "WS-RESTART",
                "配置重启未完成。当前实例将恢复服务；请检查配置及日志目录，或稍后重试。",
                "The configuration restart did not complete. The current instance will resume service. Check the configuration and log directory, or retry later.",
            ),
            FailureKind::RestartCleanup => (
                "WS-RESTART-CLEANUP",
                "候选进程停止状态尚未确认。输入交接保持暂停；请检查本应用进程状态后重新启动。",
                "The replacement process could not be confirmed stopped. Input handoff remains paused. Check the application's process state before restarting it.",
            ),
            FailureKind::Startup => (
                "WS-STARTUP",
                "开机启动状态未能确认或应用。INI 期望值已保留；请检查任务服务、权限及同名启动项。",
                "Start-at-sign-in status could not be verified or applied. Desired INI settings are retained. Check Task Scheduler, permissions, and conflicting startup entries.",
            ),
            FailureKind::Interface => (
                "WS-UI",
                "界面操作未完成。请关闭菜单后重试；问题持续时重新启动应用。",
                "The interface operation did not complete. Close the menu and retry; restart the application if the problem persists.",
            ),
            FailureKind::Launch => (
                "WS-LAUNCH",
                "应用未能启动。请确认没有运行中的实例，并检查 INI、日志目录和系统权限。",
                "The application could not start. Check for an existing instance, then verify the INI, log directory, and system permissions.",
            ),
        };
        let mut r = self.select(chinese, english).to_owned();
        push_text(&mut r, "\n[");
        push_text(&mut r, code);
        if self.chinese {
            push_text(&mut r, "]\n");
            push_text(&mut r, detail);
        } else {
            push_text(&mut r, "]");
        }
        r
    }

    /// The message on log records that could not be written.
    pub fn log_failure(self, code: i32) -> (r: String)
        ensures
            r@ == (if self.chinese {
                "部分日志未能写入（系统代码 "@ + signed_decimal(code as int)
                    + "）。请检查日志目录权限和磁盘空间，并确认日志与 INI 是不同文件。"@
            } else {
                "Some log records could not be written (system code "@ + signed_decimal(code as int)
                    + "). Check directory permissions, free space, and that the log and INI are different files."@
            }),
    {
        let mut r = self.select(
            "部分日志未能写入（系统代码 ",
            "Some log records could not be written (system code ",
        ).to_owned();
        push_text(&mut r, signed_text(code).as_str());
        push_text(
            &mut r,
            self.select(
                "）。请检查日志目录权限和磁盘空间，并确认日志与 INI 是不同文件。",
                "). Check directory permissions, free space, and that the log and INI are different files.",
            ),
        );
        r
    }

    /// The menu entry for the start with the session.
    pub fn startup(self, state: StartupState, busy: bool) -> (r: &'static str)
        ensures
            r@ == (match state {
                StartupState::Pending => self.pick(
                    "开机启动（检测中）"@,
                    "Start at sign-in (checking)"@,
                ),
                StartupState::Failed => self.pick(
                    "开机启动（状态未知）"@,
                    "Start at sign-in (unknown)"@,
                ),
                StartupState::Saved(_) => self.pick(
                    "开机启动（重启后生效）"@,
                    "Start at sign-in (restart required)"@,
                ),
                StartupState::Ready(_) => if busy {
                    self.pick("开机启动（保存中）"@, "Start at sign-in (saving)"@)
                } else {
                    self.pick("开机启动"@, "Start at sign-in"@)
                },
            }),
    {
        match state {
            StartupState::Pending => self.select(
                "开机启动（检测中）",
                "Start at sign-in (checking)",
            ),
            StartupState::Failed => self.select(
                "开机启动（状态未知）",
                "Start at sign-in (unknown)",
            ),
            StartupState::Saved(_) => self.select(
                "开机启动（重启后生效）",
                "Start at sign-in (restart required)",
            ),
            StartupState::Ready(_) => if busy {
                self.select("开机启动（保存中）", "Start at sign-in (saving)")
            } else {
                self.select("开机启动", "Start at sign-in")
            },
        }
    }
}

/// The title and the text of the message box for a failed start.
pub fn message_box(language: Text, text: &str) -> (r: (String, String))
    ensures
        r.0@ == language.pick("Window Switcher 错误"@, "Window Switcher error"@),
        r.1@ == language.failure_text(FailureKind::Launch, text@),
{
    (language.error_title().to_owned(), language.failure(FailureKind::Launch, text))
}

/// An English failure message never holds the detail: it is the same for every detail.
pub proof fn english_failure_hides_the_detail(
    text: Text,
    kind: FailureKind,
    first: Seq<char>,
    second: Seq<char>,
)
    requires
        !text.chinese,
    ensures
        text.failure_text(kind, first) == text.failure_text(kind, second),
{
}

/// A Chinese failure message ends with the detail.
pub proof fn chinese_failure_shows_the_detail(text: Text, kind: FailureKind, detail: Seq<char>)
    requires
        text.chinese,
    ensures
        crate::text::finishes_with(text.failure_text(kind, detail), detail),
{
    let all = text.failure_text(kind, detail);
    assert(all.subrange(all.len() - detail.len(), all.len() as int) =~= detail);
}

/// The code of a failure in brackets, as it stands in every message on the failure.
pub open spec fn bracketed(kind: FailureKind) -> Seq<char> {
    "["@ + Text::failure_code(kind) + "]"@
}

proof fn code_is_found(advice: Seq<char>, code: Seq<char>, tail: Seq<char>)
    requires
        tail.len() > 0,
        tail[0] == ']',
    ensures
        has_text(advice + seq!['\n', '['] + code + tail, seq!['['] + code + seq![']']),
{
    let all = advice + seq!['\n', '['] + code + tail;
    let needle = seq!['['] + code + seq![']'];
    let at = advice.len() as int + 1;
    assert(all.subrange(at, at + needle.len()) =~= needle);
    assert(occurs_at(all, needle, at));
}

/// The message on a failure holds the code of the failure in brackets, in both languages.
pub proof fn failure_shows_its_code(text: Text, kind: FailureKind, detail: Seq<char>)
    ensures
        has_text(text.failure_text(kind, detail), bracketed(kind)),
{
    let code = Text::failure_code(kind);
    let advice = if text.chinese {
        Text::chinese_advice(kind)
    } else {
        Text::english_advice(kind)
    };
    let tail = if text.chinese {
        "]\n"@ + detail
    } else {
        "]"@
    };
    assert("["@ =~= seq!['['] && "]"@ =~= seq![']'] && "\n["@ =~= seq!['\n', '['] && tail.len() > 0
        && tail[0] == ']') by {
        reveal_strlit("[");
        reveal_strlit("\n[");
        reveal_strlit("]");
        reveal_strlit("]\n");
    }
    code_is_found(advice, code, tail);
    let head = advice + "\n["@ + code;
    assert(head + "]\n"@ + detail =~= head + ("]\n"@ + detail));
}

/// Every code begins with the mark of the program.
pub proof fn codes_begin_alike(kind: FailureKind)
    ensures
        begins_with(bracketed(kind), "[WS-"@),
{
    reveal_strlit("[");
    reveal_strlit("[WS-");
    reveal_strlit("WS-CONFIG");
    reveal_strlit("WS-RESTART");
    reveal_strlit("WS-RESTART-CLEANUP");
    reveal_strlit("WS-STARTUP");
    reveal_strlit("WS-UI");
    reveal_strlit("WS-LAUNCH");
    assert(bracketed(kind).subrange(0, 4) =~= "[WS-"@);
}

/// Different failures have different codes.
pub proof fn codes_differ(first: FailureKind, second: FailureKind)
    ensures
        Text::failure_code(first) == Text::failure_code(second) <==> first == second,
{
    reveal_strlit("WS-CONFIG");
    reveal_strlit("WS-RESTART");
    reveal_strlit("WS-RESTART-CLEANUP");
    reveal_strlit("WS-STARTUP");
    reveal_strlit("WS-UI");
    reveal_strlit("WS-LAUNCH");
    let a = Text::failure_code(first);
    let b = Text::failure_code(second);
    if a == b {
        assert(a.len() == b.len());
        assert(a[3] == b[3]);
        assert(a[4] == b[4]);
    }
}

proof fn advice_is_ascii(kind: FailureKind)
    ensures
        is_ascii_chars(Text::english_advice(kind)),
        is_ascii_chars(Text::failure_code(kind)),
{
    match kind {
        FailureKind::Configuration => {
            reveal_strlit("Settings could not be applied. Check the INI syntax, allowed values, and file permissions. Existing values are not replaced with defaults.");
            reveal_strlit("WS-CONFIG");
        },
        FailureKind::Restart => {
            reveal_strlit("The configuration restart did not complete. The current instance will resume service. Check the configuration and log directory, or retry later.");
            reveal_strlit("WS-RESTART");
        },
        FailureKind::RestartCleanup => {
            reveal_strlit("The replacement process could not be confirmed stopped. Input handoff remains paused. Check the application's process state before restarting it.");
            reveal_strlit("WS-RESTART-CLEANUP");
        },
        FailureKind::Startup => {
            reveal_strlit("Start-at-sign-in status could not be verified or applied. Desired INI settings are retained. Check Task Scheduler, permissions, and conflicting startup entries.");
            reveal_strlit("WS-STARTUP");
        },
        FailureKind::Interface => {
            reveal_strlit("The interface operation did not complete. Close the menu and retry; restart the application if the problem persists.");
            reveal_strlit("WS-UI");
        },
        FailureKind::Launch => {
            reveal_strlit("The application could not start. Check for an existing instance, then verify the INI, log directory, and system permissions.");
            reveal_strlit("WS-LAUNCH");
        },
    }
}

/// An English message on a failure is plain ASCII, whatever the detail.
pub proof fn english_failure_is_ascii(text: Text, kind: FailureKind, detail: Seq<char>)
    requires
        !text.chinese,
    ensures
        is_ascii_chars(text.failure_text(kind, detail)),
{
    reveal_strlit("\n[");
    reveal_strlit("]");
    advice_is_ascii(kind);
    let all = text.failure_text(kind, detail);
    let advice = Text::english_advice(kind);
    let code = Text::failure_code(kind);
    assert forall|i: int| 0 <= i < all.len() implies '\0' <= #[trigger] all[i] <= '\u{7f}' by {
        if i < advice.len() {
            assert(all[i] == advice[i]);
        } else if i >= advice.len() + 2 && i < advice.len() + 2 + code.len() {
            assert(all[i] == code[i - advice.len() - 2]);
        }
    }
}

/// The interface is in the language that is set. Without one it is in Chinese where the primary
/// language of the system is, whatever its region, and else in English.
pub proof fn language_of_the_interface(system: u16, region: u16)
    ensures
        Text::is_chinese(Language::Chinese, system),
        !Text::is_chinese(Language::English, system),
        region < 64 ==> Text::is_chinese(Language::Auto, (4 + 1024 * region) as u16),
        region < 64 && system < 1024 && system != 4 ==> !Text::is_chinese(
            Language::Auto,
            (system + 1024 * region) as u16,
        ),
{
}

/// A text is the Chinese one in a Chinese interface, and else the English one.
pub proof fn texts_follow_the_language(text: Text, chinese: Seq<char>, english: Seq<char>)
    ensures
        text.chinese ==> text.pick(chinese, english) == chinese,
        !text.chinese ==> text.pick(chinese, english) == english,
{
}

/// The message on a failure is its advice, and in a line of its own its code in brackets. In Chinese
/// the detail follows in another line.
pub proof fn parts_of_a_failure(text: Text, kind: FailureKind, detail: Seq<char>)
    ensures
        text.chinese ==> text.failure_text(kind, detail) == Text::chinese_advice(kind) + seq!['\n', '[']
            + Text::failure_code(kind) + seq![']', '\n'] + detail,
        !text.chinese ==> text.failure_text(kind, detail) == Text::english_advice(kind) + seq![
            '\n',
            '[',
        ] + Text::failure_code(kind) + seq![']'],
{
    reveal_strlit("\n[");
    reveal_strlit("]");
    reveal_strlit("]\n");
    assert("\n["@ =~= seq!['\n', '[']);
    assert("]"@ =~= seq![']']);
    assert("]\n"@ =~= seq![']', '\n']);
}

/// Each failure has its code and its advice in both languages.
pub proof fn advice_on_each_failure()
    ensures
        Text::failure_code(FailureKind::Configuration) == "WS-CONFIG"@,
        Text::chinese_advice(FailureKind::Configuration) == "设置未能应用。请检查 INI 的格式、合法值和文件权限；原有配置不会被默认值覆盖。"@,
        Text::english_advice(FailureKind::Configuration) == "Settings could not be applied. Check the INI syntax, allowed values, and file permissions. Existing values are not replaced with defaults."@,
        Text::failure_code(FailureKind::Restart) == "WS-RESTART"@,
        Text::chinese_advice(FailureKind::Restart) == "配置重启未完成。当前实例将恢复服务；请检查配置及日志目录，或稍后重试。"@,
        Text::english_advice(FailureKind::Restart) == "The configuration restart did not complete. The current instance will resume service. Check the configuration and log directory, or retry later."@,
        Text::failure_code(FailureKind::RestartCleanup) == "WS-RESTART-CLEANUP"@,
        Text::chinese_advice(FailureKind::RestartCleanup) == "候选进程停止状态尚未确认。输入交接保持暂停；请检查本应用进程状态后重新启动。"@,
        Text::english_advice(FailureKind::RestartCleanup) == "The replacement process could not be confirmed stopped. Input handoff remains paused. Check the application's process state before restarting it."@,
        Text::failure_code(FailureKind::Startup) == "WS-STARTUP"@,
        Text::chinese_advice(FailureKind::Startup) == "开机启动状态未能确认或应用。INI 期望值已保留；请检查任务服务、权限及同名启动项。"@,
        Text::english_advice(FailureKind::Startup) == "Start-at-sign-in status could not be verified or applied. Desired INI settings are retained. Check Task Scheduler, permissions, and conflicting startup entries."@,
        Text::failure_code(FailureKind::Interface) == "WS-UI"@,
        Text::chinese_advice(FailureKind::Interface) == "界面操作未完成。请关闭菜单后重试；问题持续时重新启动应用。"@,
        Text::english_advice(FailureKind::Interface) == "The interface operation did not complete. Close the menu and retry; restart the application if the problem persists."@,
        Text::failure_code(FailureKind::Launch) == "WS-LAUNCH"@,
        Text::chinese_advice(FailureKind::Launch) == "应用未能启动。请确认没有运行中的实例，并检查 INI、日志目录和系统权限。"@,
        Text::english_advice(FailureKind::Launch) == "The application could not start. Check for an existing instance, then verify the INI, log directory, and system permissions."@,
{
}

}
