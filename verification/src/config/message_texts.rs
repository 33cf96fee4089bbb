//! The texts of errors: what they name, and how they are built.

use vstd::prelude::*;

use crate::config::bindings::BindingProblem;
use crate::config::document::IniSyntaxError;
use crate::config::encoding::DecodeError;
use crate::config::merge::MergeError;
use crate::config::messages::{named, syntax_place};
use crate::config::metadata::MetadataError;
use crate::config::reasons::{default_of, reason};
use crate::config::schema::ConfigError;
use crate::config::settings::{SaveError, SavedSetting};
use crate::config::storage::LoadError;
use crate::config::watch::WatchMessage;
use crate::config_diagnostics::quoted;
use crate::layout::{LayoutAxis, LayoutError};
use crate::text::decimal;

verus! {

/// Each error without a detail has its text.
pub proof fn texts_of_errors()
    ensures
        LayoutAxis::PanelWidth.setting_name() == "panel_width"@,
        LayoutAxis::PanelHeight.setting_name() == "panel_height"@,
        LayoutAxis::MaxWidth.setting_name() == "max_width"@,
        LayoutAxis::MaxHeight.setting_name() == "max_height"@,
        LayoutError::Count.text() == "layout stage=count invalid"@,
        LayoutError::Dpi.text() == "layout stage=dpi invalid"@,
        LayoutError::Monitor.text() == "layout stage=monitor unavailable"@,
        LayoutError::Height.text() == "layout stage=height insufficient space"@,
        LayoutError::Width.text() == "layout stage=width insufficient space"@,
        LayoutError::Fit.text() == "layout stage=fit insufficient space"@,
        BindingProblem::NoRecovery.text() == "暂停时必须保留托盘或 input.pause_hotkey 恢复入口；原值未修改"@,
        DecodeError::Length.text() == "UTF-16 INI 字节数无效；原文件未修改"@,
        DecodeError::Utf16.text() == "INI 包含无效 UTF-16 字符: invalid utf-16: lone surrogate found"@,
        MetadataError::Attributes.text() == "INI 含只读、加密、压缩或其他特殊文件属性；无法无损补全，原文件未修改"@,
        MetadataError::Streams.text() == "INI 含附加数据流；无法无损补全，原文件未修改"@,
        MetadataError::StreamType.text() == "INI 数据流类型不受支持；原文件未修改"@,
        MetadataError::Security.text() == "INI 与候选文件的所有者、权限或完整性标签不一致；不降低文件权限，原文件未修改"@,
        MetadataError::Changed.text() == "INI 元数据在补全期间变化；已取消保存，原文件未修改"@,
        LoadError::Blank.text() == "现有 INI 为空白、仅注释或无配置值；可能正在保存。已停止启动，原文件不会被默认值覆盖"@,
        LoadError::Blank.snapshot_text() == "INI 为空白或尚未保存完成；保留当前配置"@,
        WatchMessage::NotifyUnavailable.text() == "INI 目录通知不可用；请修复目录权限，或将 [config] watch_mode 改为 auto/poll 后重新启动。"@,
        WatchMessage::NotifyLost.text() == "INI 目录通知已失效；请重新启动应用或使用 auto/poll。"@,
        WatchMessage::Unreadable.text() == "INI 暂时无法读取；保留当前配置。请检查文件是否存在及读写权限，恢复后会继续检测。"@,
        SaveError::Unplaced.text() == "INI 无法定位要保存的项；原文件未修改"@,
        (SaveError::Stale(SavedSetting::StartupEnabled)).text() == "自启动配置已被外部修改；请等待最新配置生效后再操作"@,
        (SaveError::Stale(SavedSetting::InputPaused)).text() == "暂停或恢复入口配置已被外部修改；请等待最新配置生效后再操作"@,
{
}

/// A text about a setting names it with its section in brackets.
pub proof fn settings_are_named(before: Seq<char>, section: Seq<char>, key: Seq<char>, after: Seq<char>)
    ensures
        named(before, section, key, after) == before + seq!['['] + section + seq![']', ' '] + key
            + after,
{
    reveal_strlit("[");
    reveal_strlit("] ");
    assert("["@ =~= seq!['[']);
    assert("] "@ =~= seq![']', ' ']);
}

/// What is said of a file at the start is what is said of it later, behind the stage at which it
/// was refused. Only a blank file, where no stage is named, is spoken of in other words.
pub proof fn stages_are_named(error: LoadError)
    ensures
        error == LoadError::Size ==> error.snapshot_text() == "INI 超过 1 MiB，已停止读写；请缩小文件后重试"@,
        error == LoadError::CompletedSize ==> error.snapshot_text() == "INI 超过 1 MiB，已停止读写；请缩小文件后重试"@,
        error.text() == match error {
            LoadError::Size => "config stage=read: "@ + error.snapshot_text(),
            LoadError::Decode(_) => "config stage=decode: "@ + error.snapshot_text(),
            LoadError::Config(_) => "config stage=validate: "@ + error.snapshot_text(),
            LoadError::Merge(_) => "config stage=merge: "@ + error.snapshot_text(),
            LoadError::CompletedSize => "config stage=merged-size；原文件未修改: "@
                + error.snapshot_text(),
            LoadError::Blank => error.text(),
            LoadError::Syntax(_) | LoadError::Completed(_) => error.snapshot_text(),
        },
        (WatchMessage::Invalid(error)).text() == error.snapshot_text()
            + "；保留当前配置，修正并保存后重试"@,
{
}

/// An error that rests on another says what that one says.
pub proof fn errors_pass_on_their_cause(
    decode: DecodeError,
    syntax: IniSyntaxError,
    config: ConfigError,
    merge: MergeError,
    layout: LayoutError,
    problem: BindingProblem,
)
    ensures
        (LoadError::Decode(decode)).snapshot_text() == decode.text(),
        (LoadError::Syntax(syntax)).snapshot_text() == syntax.text(),
        (LoadError::Config(config)).snapshot_text() == config.text(),
        (LoadError::Completed(config)).snapshot_text() == config.text(),
        (LoadError::Merge(merge)).snapshot_text() == merge.text(),
        (MergeError::Syntax(syntax)).text() == syntax.text(),
        (SaveError::Decode(decode)).text() == decode.text(),
        (SaveError::Syntax(syntax)).text() == syntax.text(),
        (SaveError::Config(config)).text() == config.text(),
        (ConfigError::Layout(layout)).text() == layout.text(),
        (ConfigError::Bindings(problem)).text() == problem.text(),
        syntax.text() == "INI 语法无效；请检查节名、等号与引号，原文件未修改"@ + seq![':', ' '] + syntax_place(syntax@),
        syntax_place(syntax@) == decimal(syntax.line as nat) + seq![':'] + decimal(
            syntax.column as nat,
        ) + seq![' '] + syntax.reason@,
{
    reveal_strlit(":");
    reveal_strlit(" ");
    reveal_strlit(": ");
    assert(":"@ =~= seq![':']);
    assert(" "@ =~= seq![' ']);
    assert(": "@ =~= seq![':', ' ']);
}

/// A refused value is named with its setting, the default and the reason. Sizes that conflict are
/// named with the least size, and bindings that conflict with both of them.
pub proof fn refusals_say_what_is_wrong(
    section: String,
    key: String,
    value: String,
    axis: LayoutAxis,
    minimum: u64,
    first: String,
    second: String,
)
    ensures
        (ConfigError::Invalid { section, key, value }).text() == named(
            Seq::<char>::empty(),
            section@,
            key@,
            " 无效；默认值 "@,
        ) + quoted(default_of(section@, key@)) + "，原值未修改: "@ + reason(section@, key@, value@),
        (LayoutError::Conflict { axis, minimum }).text() == named(
            Seq::<char>::empty(),
            "appearance"@,
            axis.setting_name(),
            " 与内边距冲突；至少需要 "@,
        ) + decimal(minimum as nat) + " DIP，原值未修改"@,
        (BindingProblem::Conflict { first, second }).text() == "启用的热键冲突："@ + first@ + " / "@
            + second@ + "；请为两个功能设置不同组合键，原值未修改"@,
        (MergeError::Missing { section, key }).text() == named(
            "INI 补全无法定位 "@,
            section@,
            key@,
            "；原文件未修改"@,
        ),
        (MergeError::Changed { section, key }).text() == named(
            "INI 补全会改变既有项 "@,
            section@,
            key@,
            "；已中止，原文件未修改"@,
        ),
{
    reveal_strlit("");
    assert(""@ =~= Seq::<char>::empty());
}

/// Bytes that are no UTF-8 are named by the place up to which they are, and by how many of them are
/// wrong where the file goes on behind them.
pub proof fn faults_of_encodings(marked: bool, valid: usize, wrong: usize)
    ensures
        (DecodeError::Utf8 { marked: true, valid, wrong: Some(wrong) }).text()
            == "invalid utf-8 sequence of "@ + decimal(wrong as nat) + " bytes from index "@ + decimal(
            valid as nat,
        ),
        (DecodeError::Utf8 { marked: true, valid, wrong: None }).text()
            == "incomplete utf-8 byte sequence from index "@ + decimal(valid as nat),
        (DecodeError::Utf8 { marked: false, valid, wrong: Some(wrong) }).text()
            == "INI 编码无效，请使用 UTF-8 或带 BOM 的 UTF-16 保存；原文件未修改: "@ + (
        DecodeError::Utf8 { marked: true, valid, wrong: Some(wrong) }).text(),
        (DecodeError::Utf8 { marked: false, valid, wrong: None }).text()
            == "INI 编码无效，请使用 UTF-8 或带 BOM 的 UTF-16 保存；原文件未修改: "@ + (
        DecodeError::Utf8 { marked: true, valid, wrong: None }).text(),
{
}

}
