use vstd::prelude::*;

use crate::config::AppConfig;
use crate::entity::{GachaAnalysisResult, Metadata};
use crate::notification::NotificationType;
use crate::task::TaskAction;

verus! {

/// A message to the single consumer loop.
pub enum Action {
    Quit,
    Route(RouteRequest),
    Account(AccountAction),
    Gacha(GachaAction),
    Import(ImportAction),
    Export(ExportAction),
    Metadata(MetadataAction),
    Setting(SettingAction),
    Task(TaskAction),
    Notify { message: String, notification_type: NotificationType },
}

/// Navigation requests.
#[derive(Debug, Clone, Copy, PartialEq, Eq, Structural)]
pub enum RouteRequest {
    Close,
    SwitchToHome,
    SwitchToSetting,
    SwitchToHelp,
    OpenAccountList,
    OpenAddAccount,
    OpenDeleteAccount,
    OpenUpdateGachaDataMenu,
    OpenImportExportMenu,
    OpenImportFileList,
    OpenSaveSettingConfirm,
    OpenAbout,
}

pub enum AccountAction {
    SelectNext,
    SelectPrev,
    Login,
    LoginSuccess(String),
    Add(String),
    AddSuccess(String),
    Delete,
    DeleteSuccess,
}

pub enum GachaAction {
    /// A sync; `true` asks for a full resync.
    Refresh(bool),
    RefreshSuccess(usize),
    AnalysisLoaded(GachaAnalysisResult),
}

pub enum MetadataAction {
    SyncSuccess,
    ReloadSuccess(Metadata),
}

pub enum SettingAction {
    SaveSuccess,
    Save(AppConfig),
}

pub enum ImportAction {
    SelectNext,
    SelectPrev,
    ScanFile,
    /// The paths of the importable files found.
    ScanFileSuccess(Vec<String>),
    Import,
    ImportSuccess(usize),
}

pub enum ExportAction {
    Export,
    ExportSuccess,
}

} // verus!
