//! The user-facing wording of states, errors, changes and operations.
use vstd::prelude::*;

use crate::adapter::onedrive::parse::{file_change_view, is_complete_spec};
use crate::event::{
    BackendError, BackendErrorView, ChangeKind, ClientCheck, ConfirmationKind, FileChange,
    PreviewAction, PreviewChange, PreviewIntent, ProcPhase, Version,
};
use crate::operation::controls::ControlAction;
use crate::operation::model::{AccountOperation, OperationKind, OperationPhase};
use crate::profile::store::{Account, AccountStatus, AccountStatusView};
use crate::text::{concat, concat3, decimal, decimal_string, push_str, string_of, chars_of, trim, trim_chars, CharClass};

verus! {

pub open spec fn proc_phase_label_spec(phase: ProcPhase) -> Seq<char> {
    match phase {
        ProcPhase::Auth => "认证"@,
        ProcPhase::Preview => "预览"@,
        ProcPhase::Sync => "同步"@,
    }
}

pub fn proc_phase_label(phase: ProcPhase) -> (r: &'static str)
    ensures
        r@ == proc_phase_label_spec(phase),
{
    match phase {
        ProcPhase::Auth => "认证",
        ProcPhase::Preview => "预览",
        ProcPhase::Sync => "同步",
    }
}

/// The message shown for a backend error.
pub open spec fn backend_error_message_spec(e: BackendErrorView) -> Seq<char> {
    match e {
        BackendErrorView::AuthExpired => "认证已过期或缺少 refresh_token，请重新完成登录"@,
        BackendErrorView::AuthFailed => "认证失败，请重新完成该账户登录"@,
        BackendErrorView::Network => "网络连接失败，请检查网络或代理后重试"@,
        BackendErrorView::UnsupportedConfig => "配置文件包含 onedrive 不支持的选项，请编辑账户配置"@,
        BackendErrorView::PartialTransfer => "部分上传或下载失败，请查看传输列表和详情"@,
        BackendErrorView::CliCrashed => "同步工具异常退出，请升级同步工具或检查该账户配置"@,
        BackendErrorView::CliOutput(line) => if trim(line).len() == 0 {
            "onedrive 操作失败"@
        } else {
            line
        },
        BackendErrorView::SpawnFailed(d) => "无法启动认证: "@ + d,
        BackendErrorView::WaitFailed(phase, d) => "等待"@ + proc_phase_label_spec(phase)
            + "进程失败: "@ + d,
        BackendErrorView::MonitorInaccessible => "无法访问持续同步进程"@,
        BackendErrorView::MonitorPollFailed(d) => "轮询持续同步进程失败: "@ + d,
        BackendErrorView::ApplyFailed(d) => "应用失败："@ + d,
        BackendErrorView::ReconcileFailed(d) => "同步状态更新失败："@ + d,
        BackendErrorView::IdentityLookupFailed(d) => "无法读取 Microsoft 账号信息: "@ + d,
        BackendErrorView::DuplicateAccountName => "账户名称已存在"@,
        BackendErrorView::DuplicateSyncDir => "同步目录已存在"@,
        BackendErrorView::ProfileCreateFailed(d) => "写入账户文件失败: "@ + d,
    }
}

pub(crate) fn lit(s: &str) -> (r: String)
    ensures
        r@ == s@,
{
    string_of(&chars_of(s))
}

pub fn backend_error_message(error: &BackendError) -> (r: String)
    ensures
        r@ == backend_error_message_spec(error@),
{
    match error {
        BackendError::AuthExpired => lit("认证已过期或缺少 refresh_token，请重新完成登录"),
        BackendError::AuthFailed => lit("认证失败，请重新完成该账户登录"),
        BackendError::Network => lit("网络连接失败，请检查网络或代理后重试"),
        BackendError::UnsupportedConfig => lit("配置文件包含 onedrive 不支持的选项，请编辑账户配置"),
        BackendError::PartialTransfer => lit("部分上传或下载失败，请查看传输列表和详情"),
        BackendError::CliCrashed => lit("同步工具异常退出，请升级同步工具或检查该账户配置"),
        BackendError::CliOutput(line) => {
            let t = trim_chars(&chars_of(line.as_str()), CharClass::Whitespace);
            if t.len() == 0 {
                lit("onedrive 操作失败")
            } else {
                line.clone()
            }
        },
        BackendError::SpawnFailed(d) => concat("无法启动认证: ", d.as_str()),
        BackendError::WaitFailed(phase, d) => {
            let mut s = concat3("等待", proc_phase_label(*phase), "进程失败: ");
            push_str(&mut s, d.as_str());
            s
        },
        BackendError::MonitorInaccessible => lit("无法访问持续同步进程"),
        BackendError::MonitorPollFailed(d) => concat("轮询持续同步进程失败: ", d.as_str()),
        BackendError::ApplyFailed(d) => concat("应用失败：", d.as_str()),
        BackendError::ReconcileFailed(d) => concat("同步状态更新失败：", d.as_str()),
        BackendError::IdentityLookupFailed(d) => concat("无法读取 Microsoft 账号信息: ", d.as_str()),
        BackendError::DuplicateAccountName => lit("账户名称已存在"),
        BackendError::DuplicateSyncDir => lit("同步目录已存在"),
        BackendError::ProfileCreateFailed(d) => concat("写入账户文件失败: ", d.as_str()),
    }
}

pub open spec fn change_kind_icon_spec(kind: ChangeKind) -> Seq<char> {
    match kind {
        ChangeKind::Download => "go-down-symbolic"@,
        ChangeKind::UploadNew => "go-up-symbolic"@,
        ChangeKind::UploadModified => "document-save-symbolic"@,
        ChangeKind::DeleteLocal => "edit-delete-symbolic"@,
        ChangeKind::DeleteRemote => "edit-delete-symbolic"@,
        ChangeKind::Move => "go-jump-symbolic"@,
        ChangeKind::Rename => "document-edit-symbolic"@,
    }
}

pub fn change_kind_icon(kind: ChangeKind) -> (r: &'static str)
    ensures
        r@ == change_kind_icon_spec(kind),
{
    match kind {
        ChangeKind::Download => "go-down-symbolic",
        ChangeKind::UploadNew => "go-up-symbolic",
        ChangeKind::UploadModified => "document-save-symbolic",
        ChangeKind::DeleteLocal => "edit-delete-symbolic",
        ChangeKind::DeleteRemote => "edit-delete-symbolic",
        ChangeKind::Move => "go-jump-symbolic",
        ChangeKind::Rename => "document-edit-symbolic",
    }
}

pub open spec fn change_kind_label_spec(kind: ChangeKind) -> Seq<char> {
    match kind {
        ChangeKind::Download => "下载"@,
        ChangeKind::UploadNew => "上传"@,
        ChangeKind::UploadModified => "更新"@,
        ChangeKind::DeleteLocal => "删除"@,
        ChangeKind::DeleteRemote => "删除"@,
        ChangeKind::Move => "移动"@,
        ChangeKind::Rename => "重命名"@,
    }
}

pub fn change_kind_label(kind: ChangeKind) -> (r: &'static str)
    ensures
        r@ == change_kind_label_spec(kind),
{
    match kind {
        ChangeKind::Download => "下载",
        ChangeKind::UploadNew => "上传",
        ChangeKind::UploadModified => "更新",
        ChangeKind::DeleteLocal => "删除",
        ChangeKind::DeleteRemote => "删除",
        ChangeKind::Move => "移动",
        ChangeKind::Rename => "重命名",
    }
}

/// `<action>失败`, `<action>完成` or `正在<action>`.
pub fn file_display_state(file: &FileChange) -> (r: String)
    ensures
        r@ == (if file.failed {
            change_kind_label_spec(file.kind) + "失败"@
        } else if is_complete_spec(file_change_view(*file)) {
            change_kind_label_spec(file.kind) + "完成"@
        } else {
            "正在"@ + change_kind_label_spec(file.kind)
        }),
{
    let action = change_kind_label(file.kind);
    if file.failed {
        concat(action, "失败")
    } else if file.is_complete() {
        concat(action, "完成")
    } else {
        concat("正在", action)
    }
}

pub open spec fn intent_label_spec(intent: PreviewIntent) -> Seq<char> {
    match intent {
        PreviewIntent::LocalChangeToRemote => "本地新增或修改"@,
        PreviewIntent::RemoteChangeToLocal => "远端新增或更新"@,
        PreviewIntent::LocalDeleteToRemote => "本地删除"@,
        PreviewIntent::RemoteDeleteToLocal => "远端删除"@,
        PreviewIntent::RemoteMetadataChange => "远端元数据变更"@,
    }
}

pub open spec fn intent_detail_spec(intent: PreviewIntent) -> Seq<char> {
    match intent {
        PreviewIntent::LocalChangeToRemote => "本地内容会同步到 OneDrive，完成后会更新同步状态。"@,
        PreviewIntent::RemoteChangeToLocal => "OneDrive 内容会下载到本地，完成后会更新同步状态。"@,
        PreviewIntent::LocalDeleteToRemote => "本地已删除的项目也会从 OneDrive 删除，完成后会更新同步状态。"@,
        PreviewIntent::RemoteDeleteToLocal => "OneDrive 已删除的项目也会从本地删除，完成后会更新同步状态。"@,
        PreviewIntent::RemoteMetadataChange => "OneDrive 上的名称或位置变化会同步到本地，完成后会更新同步状态。"@,
    }
}

impl PreviewIntent {
    pub fn label(self) -> (r: &'static str)
        ensures
            r@ == intent_label_spec(self),
    {
        match self {
            PreviewIntent::LocalChangeToRemote => "本地新增或修改",
            PreviewIntent::RemoteChangeToLocal => "远端新增或更新",
            PreviewIntent::LocalDeleteToRemote => "本地删除",
            PreviewIntent::RemoteDeleteToLocal => "远端删除",
            PreviewIntent::RemoteMetadataChange => "远端元数据变更",
        }
    }

    pub fn detail(self) -> (r: &'static str)
        ensures
            r@ == intent_detail_spec(self),
    {
        match self {
            PreviewIntent::LocalChangeToRemote => "本地内容会同步到 OneDrive，完成后会更新同步状态。",
            PreviewIntent::RemoteChangeToLocal => "OneDrive 内容会下载到本地，完成后会更新同步状态。",
            PreviewIntent::LocalDeleteToRemote => "本地已删除的项目也会从 OneDrive 删除，完成后会更新同步状态。",
            PreviewIntent::RemoteDeleteToLocal => "OneDrive 已删除的项目也会从本地删除，完成后会更新同步状态。",
            PreviewIntent::RemoteMetadataChange => "OneDrive 上的名称或位置变化会同步到本地，完成后会更新同步状态。",
        }
    }
}

pub open spec fn preview_description_spec(apply: PreviewAction) -> Seq<char> {
    match apply {
        PreviewAction::UploadLocalToRemote => "将上传到 OneDrive"@,
        PreviewAction::DownloadRemoteToLocal => "将下载到本地"@,
        PreviewAction::DeleteRemote => "将从 OneDrive 删除"@,
        PreviewAction::DeleteLocal => "将从本地删除"@,
        PreviewAction::MoveRemoteItem => "将在 OneDrive 移动"@,
        PreviewAction::RenameRemoteItem => "将在 OneDrive 重命名"@,
    }
}

impl PreviewChange {
    /// What applying the change will do.
    pub fn description(&self) -> (r: &'static str)
        ensures
            r@ == preview_description_spec(self.apply),
    {
        match self.apply {
            PreviewAction::UploadLocalToRemote => "将上传到 OneDrive",
            PreviewAction::DownloadRemoteToLocal => "将下载到本地",
            PreviewAction::DeleteRemote => "将从 OneDrive 删除",
            PreviewAction::DeleteLocal => "将从本地删除",
            PreviewAction::MoveRemoteItem => "将在 OneDrive 移动",
            PreviewAction::RenameRemoteItem => "将在 OneDrive 重命名",
        }
    }
}

pub open spec fn version_text(v: Version) -> Seq<char> {
    decimal(v.major as nat) + "."@ + decimal(v.minor as nat) + "."@ + decimal(v.patch as nat)
}

fn version_string(v: Version) -> (r: String)
    ensures
        r@ == version_text(v),
{
    let mut s = decimal_string(v.major);
    push_str(&mut s, ".");
    let mi = decimal_string(v.minor);
    push_str(&mut s, mi.as_str());
    push_str(&mut s, ".");
    let pa = decimal_string(v.patch);
    push_str(&mut s, pa.as_str());
    s
}

pub open spec fn client_check_message_spec(c: ClientCheck) -> Seq<char> {
    match c {
        ClientCheck::Unknown => "正在检测同步工具"@,
        ClientCheck::Ready(v) => "同步工具 "@ + version_text(v) + " 可用"@,
        ClientCheck::Missing(e) => "未找到同步工具: "@ + e@,
        ClientCheck::Unsupported { found, minimum } => "同步工具版本过低: 当前 "@ + version_text(
            found,
        ) + ", 需要 >= "@ + version_text(minimum),
    }
}

/// The message the window shows for the CLI check.
pub fn client_check_message(check: &ClientCheck) -> (r: String)
    ensures
        r@ == client_check_message_spec(*check),
{
    match check {
        ClientCheck::Unknown => lit("正在检测同步工具"),
        ClientCheck::Ready(v) => {
            let vs = version_string(*v);
            concat3("同步工具 ", vs.as_str(), " 可用")
        },
        ClientCheck::Missing(e) => concat("未找到同步工具: ", e.as_str()),
        ClientCheck::Unsupported { found, minimum } => {
            let f = version_string(*found);
            let m = version_string(*minimum);
            let mut s = concat3("同步工具版本过低: 当前 ", f.as_str(), ", 需要 >= ");
            push_str(&mut s, m.as_str());
            s
        },
    }
}

/// The CLI check as a line naming the onedrive CLI itself.
pub open spec fn cli_check_text_spec(c: ClientCheck) -> Seq<char> {
    match c {
        ClientCheck::Unknown => "正在检测 onedrive CLI"@,
        ClientCheck::Ready(v) => "onedrive CLI "@ + version_text(v) + " 可用"@,
        ClientCheck::Missing(e) => "未找到 onedrive CLI: "@ + e@,
        ClientCheck::Unsupported { found, minimum } => "onedrive CLI 版本过低: 当前 "@ + version_text(
            found,
        ) + ", 需要 >= "@ + version_text(minimum),
    }
}

impl ClientCheck {
    /// The result of the CLI check, naming the onedrive CLI.
    pub fn message(&self) -> (r: String)
        ensures
            r@ == cli_check_text_spec(*self),
    {
        match self {
            ClientCheck::Unknown => lit("正在检测 onedrive CLI"),
            ClientCheck::Ready(v) => {
                let vs = version_string(*v);
                concat3("onedrive CLI ", vs.as_str(), " 可用")
            },
            ClientCheck::Missing(e) => concat("未找到 onedrive CLI: ", e.as_str()),
            ClientCheck::Unsupported { found, minimum } => {
                let f = version_string(*found);
                let m = version_string(*minimum);
                let mut s = concat3("onedrive CLI 版本过低: 当前 ", f.as_str(), ", 需要 >= ");
                push_str(&mut s, m.as_str());
                s
            },
        }
    }
}

pub open spec fn confirmation_message_spec(kind: ConfirmationKind) -> Seq<char> {
    match kind {
        ConfirmationKind::ResyncRequired => "onedrive 要求执行 --resync。请确认该账户的本地与远端状态后再手动处理。"@,
        ConfirmationKind::BigDelete => "onedrive 检测到大量删除，需要授权。请先检查删除列表后再继续。"@,
        ConfirmationKind::DownloadOnlyCleanup => "download-only 清理可能删除本地文件。请确认配置后再继续。"@,
        ConfirmationKind::UploadOnlyNoRemoteDelete => "upload-only 与 no-remote-delete 组合需要显式确认兼容性。"@,
    }
}

impl ConfirmationKind {
    /// What the user is asked to confirm.
    pub fn user_message(self) -> (r: &'static str)
        ensures
            r@ == confirmation_message_spec(self),
    {
        match self {
            ConfirmationKind::ResyncRequired => "onedrive 要求执行 --resync。请确认该账户的本地与远端状态后再手动处理。",
            ConfirmationKind::BigDelete => "onedrive 检测到大量删除，需要授权。请先检查删除列表后再继续。",
            ConfirmationKind::DownloadOnlyCleanup => "download-only 清理可能删除本地文件。请确认配置后再继续。",
            ConfirmationKind::UploadOnlyNoRemoteDelete => "upload-only 与 no-remote-delete 组合需要显式确认兼容性。",
        }
    }
}

pub open spec fn operation_label_spec(op: AccountOperation) -> Seq<char> {
    match op.phase {
        OperationPhase::Stopping => "停止"@,
        OperationPhase::Running => match op.kind {
            OperationKind::Authentication => "认证"@,
            OperationKind::OneTimeSync => "一次同步"@,
            OperationKind::Preview => "预览"@,
            OperationKind::Monitor => "持续同步"@,
        },
    }
}

pub fn operation_label(op: AccountOperation) -> (r: &'static str)
    ensures
        r@ == operation_label_spec(op),
{
    match op.phase {
        OperationPhase::Stopping => "停止",
        OperationPhase::Running => match op.kind {
            OperationKind::Authentication => "认证",
            OperationKind::OneTimeSync => "一次同步",
            OperationKind::Preview => "预览",
            OperationKind::Monitor => "持续同步",
        },
    }
}

pub fn status_title(status: &AccountStatus) -> (r: &'static str)
    ensures
        r@ == (match status {
            AccountStatus::NeedsAuth => "需要认证"@,
            AccountStatus::Authenticated => "已认证"@,
            AccountStatus::Error(_) => "需要处理"@,
        }),
{
    match status {
        AccountStatus::NeedsAuth => "需要认证",
        AccountStatus::Authenticated => "已认证",
        AccountStatus::Error(_) => "需要处理",
    }
}

/// The short status shown for a profile.
pub open spec fn status_label_spec(status: AccountStatusView) -> Seq<char> {
    match status {
        AccountStatusView::NeedsAuth => "未认证"@,
        AccountStatusView::Authenticated => "已认证"@,
        AccountStatusView::Error(m) => m,
    }
}

pub fn status_label(status: &AccountStatus) -> (r: &str)
    ensures
        r@ == status_label_spec(status@),
{
    match status {
        AccountStatus::NeedsAuth => "未认证",
        AccountStatus::Authenticated => "已认证",
        AccountStatus::Error(message) => message.as_str(),
    }
}

pub fn status_detail(account: &Account) -> (r: String)
    ensures
        r@ == (match account.status {
            AccountStatus::NeedsAuth => "配置目录: "@ + account.config_dir@,
            AccountStatus::Authenticated => "同步目录: "@ + account.sync_dir@,
            AccountStatus::Error(m) => "最近错误: "@ + m@,
        }),
{
    match &account.status {
        AccountStatus::NeedsAuth => concat("配置目录: ", account.config_dir.as_str()),
        AccountStatus::Authenticated => concat("同步目录: ", account.sync_dir.as_str()),
        AccountStatus::Error(message) => concat("最近错误: ", message.as_str()),
    }
}

/// The account's email, or its id when the email is blank.
pub fn account_label(account: &Account) -> (r: String)
    ensures
        r@ == (if trim(account.email@).len() == 0 {
            account.id@
        } else {
            account.email@
        }),
{
    let t = trim_chars(&chars_of(account.email.as_str()), CharClass::Whitespace);
    if t.len() == 0 {
        account.id.clone()
    } else {
        account.email.clone()
    }
}

/// The icon of a command button.
pub fn control_action_icon(action: ControlAction) -> (r: &'static str)
    ensures
        r@ == (match action {
            ControlAction::StartManualSync => "view-refresh-symbolic"@,
            ControlAction::StartMonitor => "media-playback-start-symbolic"@,
            ControlAction::StartPreview => "view-list-symbolic"@,
            ControlAction::Stop => "media-playback-stop-symbolic"@,
            ControlAction::Stopping => "process-stop-symbolic"@,
        }),
{
    match action {
        ControlAction::StartManualSync => "view-refresh-symbolic",
        ControlAction::StartMonitor => "media-playback-start-symbolic",
        ControlAction::StartPreview => "view-list-symbolic",
        ControlAction::Stop => "media-playback-stop-symbolic",
        ControlAction::Stopping => "process-stop-symbolic",
    }
}

/// The label of a command button.
pub fn control_action_label(action: ControlAction) -> (r: &'static str)
    ensures
        r@ == (match action {
            ControlAction::StartManualSync => "同步"@,
            ControlAction::StartMonitor => "自动同步"@,
            ControlAction::StartPreview => "预览"@,
            ControlAction::Stop => "停止"@,
            ControlAction::Stopping => "正在停止"@,
        }),
{
    match action {
        ControlAction::StartManualSync => "同步",
        ControlAction::StartMonitor => "自动同步",
        ControlAction::StartPreview => "预览",
        ControlAction::Stop => "停止",
        ControlAction::Stopping => "正在停止",
    }
}

} // verus!
