//! The texts of errors for the user.

use vstd::prelude::*;

use crate::config::bindings::BindingProblem;
use crate::config::document::{IniSyntaxError, SyntaxView};
use crate::config::encoding::DecodeError;
use crate::config::merge::MergeError;
use crate::config::metadata::MetadataError;
use crate::config::reasons::{
    default_of, default_value, explain, explain_hotkey, explain_range, hotkey_reason, range_reason,
    reason, BOOL_REASON, COLOR_REASON,
};
use crate::config::schema::ConfigError;
use crate::config::settings::{SaveError, SavedSetting};
use crate::config::storage::LoadError;
use crate::config::validation::{ValueFault, ValueProblem};
use crate::config::watch::WatchMessage;
use crate::config_diagnostics::{quote, quoted};
use crate::layout::{LayoutAxis, LayoutError};
use crate::text::{decimal, decimal_text, push_text};

verus! {

/// The text of a file that is no INI document.
pub const SYNTAX_TEXT: &'static str = "INI 语法无效；请检查节名、等号与引号，原文件未修改";

/// A text with the name of a setting in it.
pub open spec fn named(
    before: Seq<char>,
    section: Seq<char>,
    key: Seq<char>,
    after: Seq<char>,
) -> Seq<char> {
    before + "["@ + section + "] "@ + key + after
}

fn name_setting(before: &str, section: &str, key: &str, after: &str) -> (r: String)
    ensures
        r@ == named(before@, section@, key@, after@),
{
    let mut r = before.to_owned();
    push_text(&mut r, "[");
    push_text(&mut r, section);
    push_text(&mut r, "] ");
    push_text(&mut r, key);
    push_text(&mut r, after);
    r
}

fn joined(stage: &str, text: &str) -> (r: String)
    ensures
        r@ == stage@ + text@,
{
    let mut r = stage.to_owned();
    push_text(&mut r, text);
    r
}

impl LayoutAxis {
    /// The setting that asks for the size.
    pub open spec fn setting_name(self) -> Seq<char> {
        match self {
            LayoutAxis::PanelWidth => "panel_width"@,
            LayoutAxis::PanelHeight => "panel_height"@,
            LayoutAxis::MaxWidth => "max_width"@,
            LayoutAxis::MaxHeight => "max_height"@,
        }
    }

    /// The setting that asks for the size.
    pub fn setting(self) -> (r: &'static str)
        ensures
            r@ == self.setting_name(),
    {
        match self {
            LayoutAxis::PanelWidth => "panel_width",
            LayoutAxis::PanelHeight => "panel_height",
            LayoutAxis::MaxWidth => "max_width",
            LayoutAxis::MaxHeight => "max_height",
        }
    }
}

impl LayoutError {
    pub open spec fn text(self) -> Seq<char> {
        match self {
            LayoutError::Conflict { axis, minimum } => named(
                ""@,
                "appearance"@,
                axis.setting_name(),
                " 与内边距冲突；至少需要 "@,
            ) + decimal(minimum as nat) + " DIP，原值未修改"@,
            LayoutError::Count => "layout stage=count invalid"@,
            LayoutError::Dpi => "layout stage=dpi invalid"@,
            LayoutError::Monitor => "layout stage=monitor unavailable"@,
            LayoutError::Height => "layout stage=height insufficient space"@,
            LayoutError::Width => "layout stage=width insufficient space"@,
            LayoutError::Fit => "layout stage=fit insufficient space"@,
        }
    }

    /// The text of the error.
    pub fn message(&self) -> (r: String)
        ensures
            r@ == self.text(),
    {
        match self {
            LayoutError::Conflict { axis, minimum } => {
                let mut r = name_setting(
                    "",
                    "appearance",
                    axis.setting(),
                    " 与内边距冲突；至少需要 ",
                );
                let number = decimal_text(*minimum);
                push_text(&mut r, number.as_str());
                push_text(&mut r, " DIP，原值未修改");
                r
            },
            LayoutError::Count => "layout stage=count invalid".to_owned(),
            LayoutError::Dpi => "layout stage=dpi invalid".to_owned(),
            LayoutError::Monitor => "layout stage=monitor unavailable".to_owned(),
            LayoutError::Height => "layout stage=height insufficient space".to_owned(),
            LayoutError::Width => "layout stage=width insufficient space".to_owned(),
            LayoutError::Fit => "layout stage=fit insufficient space".to_owned(),
        }
    }
}

impl BindingProblem {
    pub open spec fn text(self) -> Seq<char> {
        match self {
            BindingProblem::Conflict { first, second } => "启用的热键冲突："@ + first@ + " / "@
                + second@ + "；请为两个功能设置不同组合键，原值未修改"@,
            BindingProblem::NoRecovery =>
                "暂停时必须保留托盘或 input.pause_hotkey 恢复入口；原值未修改"@,
        }
    }

    /// The text of the problem.
    pub fn message(&self) -> (r: String)
        ensures
            r@ == self.text(),
    {
        match self {
            BindingProblem::Conflict { first, second } => {
                let mut r = "启用的热键冲突：".to_owned();
                push_text(&mut r, first.as_str());
                push_text(&mut r, " / ");
                push_text(&mut r, second.as_str());
                push_text(&mut r, "；请为两个功能设置不同组合键，原值未修改");
                r
            },
            BindingProblem::NoRecovery =>
                "暂停时必须保留托盘或 input.pause_hotkey 恢复入口；原值未修改".to_owned(),
        }
    }
}

impl ConfigError {
    pub open spec fn text(self) -> Seq<char> {
        match self {
            ConfigError::Invalid { section, key, value } => named(
                ""@,
                section@,
                key@,
                " 无效；默认值 "@,
            ) + quoted(default_of(section@, key@)) + "，原值未修改: "@ + reason(
                section@,
                key@,
                value@,
            ),
            ConfigError::Layout(error) => error.text(),
            ConfigError::Bindings(problem) => problem.text(),
        }
    }

    /// The text of the error.
    pub fn message(&self) -> (r: String)
        ensures
            r@ == self.text(),
    {
        match self {
            ConfigError::Invalid { section, key, value } => {
                let default = default_value(section.as_str(), key.as_str());
                let why = explain(section.as_str(), key.as_str(), value.as_str());
                let mut r = name_setting("", section.as_str(), key.as_str(), " 无效；默认值 ");
                push_text(&mut r, quote(default.as_str()).as_str());
                push_text(&mut r, "，原值未修改: ");
                push_text(&mut r, why.as_str());
                r
            },
            ConfigError::Layout(error) => error.message(),
            ConfigError::Bindings(problem) => problem.message(),
        }
    }
}

impl ValueProblem {
    pub open spec fn text(self) -> Seq<char> {
        let name = named(""@, self.section@, self.key@, ""@);
        match self.fault {
            ValueFault::Boolean => name + " 无效；"@ + BOOL_REASON@ + "，原值未修改"@,
            ValueFault::Automatic => name + " 无效；"@ + "可选 auto、yes 或 no"@ + "，原值未修改"@,
            ValueFault::Color => name + " 无效；"@ + COLOR_REASON@ + "，原值未修改"@,
            ValueFault::Level => name + " 无效；"@ + "可选 off/error/warn/info/debug/trace"@ + "，原值未修改"@,
            ValueFault::Range(minimum, maximum) => name + " 无效；"@ + range_reason(minimum, maximum)
                + "，原值未修改"@,
            ValueFault::Hotkey => name + " 无效；"@
                + "请使用 alt/ctrl/win + 主键，多个组合用 || 分隔: "@ + hotkey_reason(self.section@),
            ValueFault::IconForm => name + " 无效；"@ + "请使用 app.exe=icon.ico"@
                + "，原值未修改"@,
            ValueFault::IconContent => name + " 的匹配文本或图标路径为空，原值未修改"@,
        }
    }

    fn refused(&self, wanted: &str) -> (r: String)
        ensures
            r@ == named(""@, self.section@, self.key@, ""@) + " 无效；"@ + wanted@
                + "，原值未修改"@,
    {
        let mut r = name_setting("", self.section.as_str(), self.key.as_str(), "");
        push_text(&mut r, " 无效；");
        push_text(&mut r, wanted);
        push_text(&mut r, "，原值未修改");
        r
    }

    /// The text of the problem.
    pub fn message(&self) -> (r: String)
        ensures
            r@ == self.text(),
    {
        match self.fault {
            ValueFault::Boolean => self.refused(BOOL_REASON),
            ValueFault::Automatic => self.refused("可选 auto、yes 或 no"),
            ValueFault::Color => self.refused(COLOR_REASON),
            ValueFault::Level => self.refused("可选 off/error/warn/info/debug/trace"),
            ValueFault::Range(minimum, maximum) => {
                let range = explain_range(minimum, maximum);
                self.refused(range.as_str())
            },
            ValueFault::Hotkey => {
                let mut r = name_setting("", self.section.as_str(), self.key.as_str(), "");
                push_text(&mut r, " 无效；");
                push_text(&mut r, "请使用 alt/ctrl/win + 主键，多个组合用 || 分隔: ");
                push_text(&mut r, explain_hotkey(self.section.as_str()).as_str());
                r
            },
            ValueFault::IconForm => self.refused("请使用 app.exe=icon.ico"),
            ValueFault::IconContent => {
                let mut r = name_setting("", self.section.as_str(), self.key.as_str(), "");
                push_text(&mut r, " 的匹配文本或图标路径为空，原值未修改");
                r
            },
        }
    }
}

/// The place and the reason of a syntax error.
pub open spec fn syntax_place(error: SyntaxView) -> Seq<char> {
    decimal(error.0 as nat) + ":"@ + decimal(error.1 as nat) + " "@ + error.2
}

impl IniSyntaxError {
    /// The text of the error: what to look at, where, and why.
    pub open spec fn text(self) -> Seq<char> {
        SYNTAX_TEXT@ + ": "@ + syntax_place(self@)
    }

    /// The place and the reason of the error.
    pub fn place(&self) -> (r: String)
        ensures
            r@ == syntax_place(self@),
    {
        let mut r = decimal_text(self.line as u64);
        push_text(&mut r, ":");
        push_text(&mut r, decimal_text(self.column as u64).as_str());
        push_text(&mut r, " ");
        push_text(&mut r, self.reason.as_str());
        r
    }

    /// The text of the error.
    pub fn message(&self) -> (r: String)
        ensures
            r@ == self.text(),
    {
        let mut r = SYNTAX_TEXT.to_owned();
        push_text(&mut r, ": ");
        push_text(&mut r, self.place().as_str());
        r
    }
}

impl DecodeError {
    pub open spec fn text(self) -> Seq<char> {
        match self {
            DecodeError::Utf8 { marked, valid, wrong } => {
                let fault = match wrong {
                    Some(count) => "invalid utf-8 sequence of "@ + decimal(count as nat)
                        + " bytes from index "@ + decimal(valid as nat),
                    None => "incomplete utf-8 byte sequence from index "@ + decimal(valid as nat),
                };
                if marked {
                    fault
                } else {
                    "INI 编码无效，请使用 UTF-8 或带 BOM 的 UTF-16 保存；原文件未修改: "@ + fault
                }
            },
            DecodeError::Length => "UTF-16 INI 字节数无效；原文件未修改"@,
            DecodeError::Utf16 =>
                "INI 包含无效 UTF-16 字符: invalid utf-16: lone surrogate found"@,
        }
    }

    /// The text of the error.
    pub fn message(&self) -> (r: String)
        ensures
            r@ == self.text(),
    {
        match self {
            DecodeError::Utf8 { marked, valid, wrong } => {
                let mut fault = String::new();
                match wrong {
                    Some(count) => {
                        push_text(&mut fault, "invalid utf-8 sequence of ");
                        push_text(&mut fault, decimal_text(*count as u64).as_str());
                        push_text(&mut fault, " bytes from index ");
                        push_text(&mut fault, decimal_text(*valid as u64).as_str());
                    },
                    None => {
                        push_text(&mut fault, "incomplete utf-8 byte sequence from index ");
                        push_text(&mut fault, decimal_text(*valid as u64).as_str());
                    },
                }
                assert(fault@ == (DecodeError::Utf8 {
                    marked: true,
                    valid: *valid,
                    wrong: *wrong,
                }).text());
                if *marked {
                    fault
                } else {
                    joined(
                        "INI 编码无效，请使用 UTF-8 或带 BOM 的 UTF-16 保存；原文件未修改: ",
                        fault.as_str(),
                    )
                }
            },
            DecodeError::Length => "UTF-16 INI 字节数无效；原文件未修改".to_owned(),
            DecodeError::Utf16 =>
                "INI 包含无效 UTF-16 字符: invalid utf-16: lone surrogate found".to_owned(),
        }
    }
}

impl MergeError {
    pub open spec fn text(self) -> Seq<char> {
        match self {
            MergeError::Syntax(error) => error.text(),
            MergeError::Missing { section, key } => named(
                "INI 补全无法定位 "@,
                section@,
                key@,
                "；原文件未修改"@,
            ),
            MergeError::Changed { section, key } => named(
                "INI 补全会改变既有项 "@,
                section@,
                key@,
                "；已中止，原文件未修改"@,
            ),
        }
    }

    /// The text of the error.
    pub fn message(&self) -> (r: String)
        ensures
            r@ == self.text(),
    {
        match self {
            MergeError::Syntax(error) => error.message(),
            MergeError::Missing { section, key } => name_setting(
                "INI 补全无法定位 ",
                section.as_str(),
                key.as_str(),
                "；原文件未修改",
            ),
            MergeError::Changed { section, key } => name_setting(
                "INI 补全会改变既有项 ",
                section.as_str(),
                key.as_str(),
                "；已中止，原文件未修改",
            ),
        }
    }
}

impl MetadataError {
    pub open spec fn text(self) -> Seq<char> {
        match self {
            MetadataError::Attributes =>
                "INI 含只读、加密、压缩或其他特殊文件属性；无法无损补全，原文件未修改"@,
            MetadataError::Streams => "INI 含附加数据流；无法无损补全，原文件未修改"@,
            MetadataError::StreamType => "INI 数据流类型不受支持；原文件未修改"@,
            MetadataError::Security =>
                "INI 与候选文件的所有者、权限或完整性标签不一致；不降低文件权限，原文件未修改"@,
            MetadataError::Changed => "INI 元数据在补全期间变化；已取消保存，原文件未修改"@,
        }
    }

    /// The text of the error.
    pub fn message(&self) -> (r: &'static str)
        ensures
            r@ == self.text(),
    {
        match self {
            MetadataError::Attributes =>
                "INI 含只读、加密、压缩或其他特殊文件属性；无法无损补全，原文件未修改",
            MetadataError::Streams => "INI 含附加数据流；无法无损补全，原文件未修改",
            MetadataError::StreamType => "INI 数据流类型不受支持；原文件未修改",
            MetadataError::Security =>
                "INI 与候选文件的所有者、权限或完整性标签不一致；不降低文件权限，原文件未修改",
            MetadataError::Changed => "INI 元数据在补全期间变化；已取消保存，原文件未修改",
        }
    }
}

/// The text of a file that is too large.
pub const SIZE_TEXT: &'static str = "INI 超过 1 MiB，已停止读写；请缩小文件后重试";

impl LoadError {
    /// The text of the error where the program is started.
    pub open spec fn text(self) -> Seq<char> {
        match self {
            LoadError::Size => "config stage=read: "@ + SIZE_TEXT@,
            LoadError::Decode(error) => "config stage=decode: "@ + error.text(),
            LoadError::Syntax(error) => error.text(),
            LoadError::Blank =>
                "现有 INI 为空白、仅注释或无配置值；可能正在保存。已停止启动，原文件不会被默认值覆盖"@,
            LoadError::Config(error) => "config stage=validate: "@ + error.text(),
            LoadError::Merge(error) => "config stage=merge: "@ + error.text(),
            LoadError::Completed(error) => error.text(),
            LoadError::CompletedSize => "config stage=merged-size；原文件未修改: "@ + SIZE_TEXT@,
        }
    }

    /// The text of the error where the program is started.
    pub fn message(&self) -> (r: String)
        ensures
            r@ == self.text(),
    {
        match self {
            LoadError::Size => joined("config stage=read: ", SIZE_TEXT),
            LoadError::Decode(error) => {
                let text = error.message();
                joined("config stage=decode: ", text.as_str())
            },
            LoadError::Syntax(error) => error.message(),
            LoadError::Blank =>
                "现有 INI 为空白、仅注释或无配置值；可能正在保存。已停止启动，原文件不会被默认值覆盖".to_owned(),
            LoadError::Config(error) => {
                let text = error.message();
                joined("config stage=validate: ", text.as_str())
            },
            LoadError::Merge(error) => {
                let text = error.message();
                joined("config stage=merge: ", text.as_str())
            },
            LoadError::Completed(error) => error.message(),
            LoadError::CompletedSize => joined("config stage=merged-size；原文件未修改: ", SIZE_TEXT),
        }
    }

    /// The text of the error where a file is taken over while the program runs.
    pub open spec fn snapshot_text(self) -> Seq<char> {
        match self {
            LoadError::Size => SIZE_TEXT@,
            LoadError::Decode(error) => error.text(),
            LoadError::Syntax(error) => error.text(),
            LoadError::Blank => "INI 为空白或尚未保存完成；保留当前配置"@,
            LoadError::Config(error) => error.text(),
            LoadError::Merge(error) => error.text(),
            LoadError::Completed(error) => error.text(),
            LoadError::CompletedSize => SIZE_TEXT@,
        }
    }

    /// The text of the error where a file is taken over while the program runs.
    pub fn snapshot_message(&self) -> (r: String)
        ensures
            r@ == self.snapshot_text(),
    {
        match self {
            LoadError::Size => SIZE_TEXT.to_owned(),
            LoadError::Decode(error) => error.message(),
            LoadError::Syntax(error) => error.message(),
            LoadError::Blank => "INI 为空白或尚未保存完成；保留当前配置".to_owned(),
            LoadError::Config(error) => error.message(),
            LoadError::Merge(error) => error.message(),
            LoadError::Completed(error) => error.message(),
            LoadError::CompletedSize => SIZE_TEXT.to_owned(),
        }
    }
}

impl WatchMessage {
    pub open spec fn text(self) -> Seq<char> {
        match self {
            WatchMessage::NotifyUnavailable =>
                "INI 目录通知不可用；请修复目录权限，或将 [config] watch_mode 改为 auto/poll 后重新启动。"@,
            WatchMessage::NotifyLost => "INI 目录通知已失效；请重新启动应用或使用 auto/poll。"@,
            WatchMessage::Unreadable =>
                "INI 暂时无法读取；保留当前配置。请检查文件是否存在及读写权限，恢复后会继续检测。"@,
            WatchMessage::Invalid(error) => error.snapshot_text()
                + "；保留当前配置，修正并保存后重试"@,
        }
    }

    /// The text of the message.
    pub fn message(&self) -> (r: String)
        ensures
            r@ == self.text(),
    {
        match self {
            WatchMessage::NotifyUnavailable =>
                "INI 目录通知不可用；请修复目录权限，或将 [config] watch_mode 改为 auto/poll 后重新启动。".to_owned(),
            WatchMessage::NotifyLost =>
                "INI 目录通知已失效；请重新启动应用或使用 auto/poll。".to_owned(),
            WatchMessage::Unreadable =>
                "INI 暂时无法读取；保留当前配置。请检查文件是否存在及读写权限，恢复后会继续检测。".to_owned(),
            WatchMessage::Invalid(error) => {
                let text = error.snapshot_message();
                joined(text.as_str(), "；保留当前配置，修正并保存后重试")
            },
        }
    }
}

impl SaveError {
    pub open spec fn text(self) -> Seq<char> {
        match self {
            SaveError::Decode(error) => error.text(),
            SaveError::Syntax(error) => error.text(),
            SaveError::Config(error) => error.text(),
            SaveError::Stale(setting) => match setting {
                SavedSetting::StartupEnabled =>
                    "自启动配置已被外部修改；请等待最新配置生效后再操作"@,
                SavedSetting::InputPaused =>
                    "暂停或恢复入口配置已被外部修改；请等待最新配置生效后再操作"@,
            },
            SaveError::Unplaced => "INI 无法定位要保存的项；原文件未修改"@,
        }
    }

    /// The text of the error.
    pub fn message(&self) -> (r: String)
        ensures
            r@ == self.text(),
    {
        match self {
            SaveError::Decode(error) => error.message(),
            SaveError::Syntax(error) => error.message(),
            SaveError::Config(error) => error.message(),
            SaveError::Stale(setting) => match setting {
                SavedSetting::StartupEnabled =>
                    "自启动配置已被外部修改；请等待最新配置生效后再操作".to_owned(),
                SavedSetting::InputPaused =>
                    "暂停或恢复入口配置已被外部修改；请等待最新配置生效后再操作".to_owned(),
            },
            SaveError::Unplaced => "INI 无法定位要保存的项；原文件未修改".to_owned(),
        }
    }
}

}
