//! The sync and preview buttons, derived from the sync mode, the runtime state,
//! authentication and CLI availability.
use vstd::prelude::*;

use crate::operation::model::{AccountOperation, OperationKind, OperationPhase};
use crate::profile::settings::SyncMode;

verus! {

/// What the selected profile's command is doing.
#[derive(Debug, Clone, Copy, PartialEq, Eq, Structural)]
pub enum CommandRuntime {
    Idle,
    RunningManualSync,
    RunningPreview,
    RunningMonitor,
    StoppingManualSync,
    StoppingPreview,
    StoppingMonitor,
    Blocked,
}

/// What a command button does when pressed.
#[derive(Debug, Clone, Copy, PartialEq, Eq, Structural)]
pub enum ControlAction {
    StartManualSync,
    StartMonitor,
    StartPreview,
    Stop,
    Stopping,
}

#[derive(Debug, Clone, Copy, PartialEq, Eq, Structural)]
pub struct ControlInput {
    pub mode: SyncMode,
    pub runtime: CommandRuntime,
    pub authenticated: bool,
    pub client_ready: bool,
}

#[derive(Debug, Clone, PartialEq, Eq)]
pub struct CommandButtonModel {
    pub visible: bool,
    pub sensitive: bool,
    pub icon: &'static str,
    pub label: &'static str,
}

#[derive(Debug, Clone, PartialEq, Eq)]
pub struct ControlButtons {
    pub sync: CommandButtonModel,
    pub preview: CommandButtonModel,
}

pub struct ButtonView {
    pub visible: bool,
    pub sensitive: bool,
    pub icon: Seq<char>,
    pub label: Seq<char>,
}

pub open spec fn button_view(b: CommandButtonModel) -> ButtonView {
    ButtonView { visible: b.visible, sensitive: b.sensitive, icon: b.icon@, label: b.label@ }
}

pub open spec fn button(visible: bool, sensitive: bool, icon: Seq<char>, label: Seq<char>) -> ButtonView {
    ButtonView { visible, sensitive, icon, label }
}

/// A new command may start only for an authenticated profile, with a usable CLI,
/// while nothing runs.
pub open spec fn can_start(input: ControlInput) -> bool {
    input.authenticated && input.client_ready && input.runtime == CommandRuntime::Idle
}

pub open spec fn sync_button_spec(input: ControlInput) -> ButtonView {
    let start = can_start(input);
    match input.mode {
        SyncMode::Automatic => match input.runtime {
            CommandRuntime::RunningMonitor => button(
                true,
                true,
                "media-playback-stop-symbolic"@,
                "停止"@,
            ),
            CommandRuntime::StoppingMonitor => button(
                true,
                false,
                "process-stop-symbolic"@,
                "正在停止"@,
            ),
            _ => button(true, start, "media-playback-start-symbolic"@, "自动同步"@),
        },
        SyncMode::Manual => match input.runtime {
            CommandRuntime::RunningManualSync => button(
                true,
                true,
                "media-playback-stop-symbolic"@,
                "停止"@,
            ),
            CommandRuntime::StoppingManualSync => button(
                true,
                false,
                "process-stop-symbolic"@,
                "停止"@,
            ),
            _ => button(true, start, "view-refresh-symbolic"@, "同步"@),
        },
    }
}

pub open spec fn preview_button_spec(input: ControlInput) -> ButtonView {
    let start = can_start(input);
    match input.mode {
        SyncMode::Automatic => button(false, false, "view-list-symbolic"@, "预览"@),
        SyncMode::Manual => match input.runtime {
            CommandRuntime::RunningPreview => button(
                true,
                true,
                "media-playback-stop-symbolic"@,
                "停止"@,
            ),
            CommandRuntime::StoppingManualSync => button(
                true,
                false,
                "view-list-symbolic"@,
                "预览"@,
            ),
            CommandRuntime::StoppingPreview => button(
                true,
                false,
                "process-stop-symbolic"@,
                "停止"@,
            ),
            _ => button(true, start, "view-list-symbolic"@, "预览"@),
        },
    }
}

/// The runtime shown for a profile's operation: sign-in blocks every command.
pub open spec fn runtime_for_spec(op: Option<AccountOperation>) -> CommandRuntime {
    match op {
        Some(o) => match (o.kind, o.phase) {
            (OperationKind::OneTimeSync, OperationPhase::Running) => CommandRuntime::RunningManualSync,
            (OperationKind::OneTimeSync, OperationPhase::Stopping) => CommandRuntime::StoppingManualSync,
            (OperationKind::Preview, OperationPhase::Running) => CommandRuntime::RunningPreview,
            (OperationKind::Preview, OperationPhase::Stopping) => CommandRuntime::StoppingPreview,
            (OperationKind::Monitor, OperationPhase::Running) => CommandRuntime::RunningMonitor,
            (OperationKind::Monitor, OperationPhase::Stopping) => CommandRuntime::StoppingMonitor,
            (OperationKind::Authentication, _) => CommandRuntime::Blocked,
        },
        None => CommandRuntime::Idle,
    }
}

pub fn runtime_for(op: Option<AccountOperation>) -> (r: CommandRuntime)
    ensures
        r == runtime_for_spec(op),
{
    match op {
        Some(o) => match (o.kind, o.phase) {
            (OperationKind::OneTimeSync, OperationPhase::Running) => CommandRuntime::RunningManualSync,
            (OperationKind::OneTimeSync, OperationPhase::Stopping) => CommandRuntime::StoppingManualSync,
            (OperationKind::Preview, OperationPhase::Running) => CommandRuntime::RunningPreview,
            (OperationKind::Preview, OperationPhase::Stopping) => CommandRuntime::StoppingPreview,
            (OperationKind::Monitor, OperationPhase::Running) => CommandRuntime::RunningMonitor,
            (OperationKind::Monitor, OperationPhase::Stopping) => CommandRuntime::StoppingMonitor,
            (OperationKind::Authentication, _) => CommandRuntime::Blocked,
        },
        None => CommandRuntime::Idle,
    }
}

fn model(visible: bool, sensitive: bool, icon: &'static str, label: &'static str) -> (r: CommandButtonModel)
    ensures
        button_view(r) == button(visible, sensitive, icon@, label@),
{
    CommandButtonModel { visible, sensitive, icon, label }
}

fn automatic_controls(runtime: CommandRuntime, can_start: bool) -> (r: ControlButtons)
    ensures
        forall|input: ControlInput|
            input.mode == SyncMode::Automatic && input.runtime == runtime && crate::operation::controls::can_start(input) == can_start
                ==> button_view(r.sync) == sync_button_spec(input) && button_view(r.preview)
                == preview_button_spec(input),
{
    let sync = match runtime {
        CommandRuntime::RunningMonitor => model(true, true, "media-playback-stop-symbolic", "停止"),
        CommandRuntime::StoppingMonitor => model(true, false, "process-stop-symbolic", "正在停止"),
        _ => model(true, can_start, "media-playback-start-symbolic", "自动同步"),
    };
    ControlButtons { sync, preview: model(false, false, "view-list-symbolic", "预览") }
}

fn manual_controls(runtime: CommandRuntime, can_start: bool) -> (r: ControlButtons)
    ensures
        forall|input: ControlInput|
            input.mode == SyncMode::Manual && input.runtime == runtime && crate::operation::controls::can_start(input) == can_start
                ==> button_view(r.sync) == sync_button_spec(input) && button_view(r.preview)
                == preview_button_spec(input),
{
    let sync = match runtime {
        CommandRuntime::RunningManualSync => model(true, true, "media-playback-stop-symbolic", "停止"),
        CommandRuntime::StoppingManualSync => model(true, false, "process-stop-symbolic", "停止"),
        _ => model(true, can_start, "view-refresh-symbolic", "同步"),
    };
    let preview = match runtime {
        CommandRuntime::RunningPreview => model(true, true, "media-playback-stop-symbolic", "停止"),
        CommandRuntime::StoppingManualSync => model(true, false, "view-list-symbolic", "预览"),
        CommandRuntime::StoppingPreview => model(true, false, "process-stop-symbolic", "停止"),
        _ => model(true, can_start, "view-list-symbolic", "预览"),
    };
    ControlButtons { sync, preview }
}

/// The sync and preview buttons for a profile.
pub fn controls_for(input: ControlInput) -> (r: ControlButtons)
    ensures
        button_view(r.sync) == sync_button_spec(input),
        button_view(r.preview) == preview_button_spec(input),
{
    let start = input.authenticated && input.client_ready && match input.runtime {
        CommandRuntime::Idle => true,
        _ => false,
    };
    match input.mode {
        SyncMode::Automatic => automatic_controls(input.runtime, start),
        SyncMode::Manual => manual_controls(input.runtime, start),
    }
}

/// A button that can be pressed while a profile cannot start anything is a stop
/// button: no start is offered to an unauthenticated profile, without a usable CLI,
/// or while another command runs or stops.
pub proof fn law_no_start_unless_ready(input: ControlInput)
    requires
        !can_start(input),
    ensures
        sync_button_spec(input).sensitive ==> sync_button_spec(input).label == "停止"@,
        preview_button_spec(input).sensitive ==> preview_button_spec(input).label == "停止"@,
{
}

/// Automatic mode never shows a preview button.
pub proof fn law_automatic_has_no_preview(input: ControlInput)
    requires
        input.mode == SyncMode::Automatic,
    ensures
        !preview_button_spec(input).visible,
        !preview_button_spec(input).sensitive,
{
}

} // verus!
