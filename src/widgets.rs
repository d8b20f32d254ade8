use vstd::prelude::*;

use crate::config::{default_config, AppConfig, Lang, LogLevel};
use crate::task::TaskId;
use crate::types::GachaType;

verus! {

/// Focusable views, by nesting level: top views, their dialogs, and dialogs of those.
#[derive(Debug, Clone, Copy, PartialEq, Eq, Structural)]
pub enum FocusNode {
    Home,
    Setting,
    Help,
    AccountList,
    UpdateMenu,
    ImportExportMenu,
    SettingSaveConfirm,
    About,
    AddAccount,
    DeleteAccount,
    ImportFileList,
}

/// The chain of focused views, outermost first.
#[derive(Debug)]
pub struct FocusPath {
    pub inner: Vec<FocusNode>,
}

impl FocusPath {
    pub fn new() -> (r: Self)
        ensures
            r.inner@.len() == 0,
    {
        FocusPath { inner: Vec::new() }
    }

    /// The outermost focused view.
    pub fn root_path(&self) -> (r: Option<FocusNode>)
        ensures
            self.inner@.len() == 0 ==> r is None,
            self.inner@.len() > 0 ==> r == Some(self.inner@[0]),
    {
        if self.inner.len() == 0 {
            None
        } else {
            Some(self.inner[0])
        }
    }
}

/// What the home view shows.
#[derive(Debug, Clone, Copy, PartialEq, Eq, Structural)]
pub enum HomeMode {
    Welcome,
    Data,
}

/// A running task shown to the user.
#[derive(Debug)]
pub struct VisibleTask {
    pub id: TaskId,
    pub description: String,
}

/// Scroll state of the help text.
#[derive(Debug, Clone, Copy)]
pub struct HelpWidget {
    pub scroll_offset: u16,
    pub total_lines: u16,
    pub view_height: u16,
}

pub open spec fn max_scroll(total: u16, view: u16) -> int {
    if total >= view {
        total - view
    } else {
        0
    }
}

impl HelpWidget {
    pub fn new() -> (r: Self)
        ensures
            r.scroll_offset == 0 && r.total_lines == 0 && r.view_height == 0,
    {
        HelpWidget { scroll_offset: 0, total_lines: 0, view_height: 0 }
    }

    /// Scrolls five lines down, never past the last screenful.
    pub fn scroll_down(&mut self)
        ensures
            final(self).total_lines == old(self).total_lines,
            final(self).view_height == old(self).view_height,
            final(self).scroll_offset == if old(self).scroll_offset < max_scroll(old(self).total_lines, old(self).view_height) {
                if old(self).scroll_offset + 5 <= max_scroll(old(self).total_lines, old(self).view_height) {
                    old(self).scroll_offset + 5
                } else {
                    max_scroll(old(self).total_lines, old(self).view_height)
                }
            } else {
                old(self).scroll_offset as int
            },
    {
        let max = if self.total_lines >= self.view_height { self.total_lines - self.view_height } else { 0 };
        if self.scroll_offset < max {
            let next = self.scroll_offset as u32 + 5;
            self.scroll_offset = if next <= max as u32 { next as u16 } else { max };
        }
    }

    /// Scrolls five lines up, stopping at the top.
    pub fn scroll_up(&mut self)
        ensures
            final(self).total_lines == old(self).total_lines,
            final(self).view_height == old(self).view_height,
            final(self).scroll_offset == if old(self).scroll_offset >= 5 { old(self).scroll_offset - 5 } else { 0 },
    {
        self.scroll_offset = if self.scroll_offset >= 5 { self.scroll_offset - 5 } else { 0 };
    }
}

/// The number of pool tabs.
pub const GACHA_TAB_MAX_COUNT: usize = 6;

/// Tab and per-tab scroll state of the data view. Tabs follow `GachaType::as_array`.
#[derive(Debug, Clone, Copy)]
pub struct GachaDataWidget {
    pub tab_index: usize,
    pub scroll_row_offset: [usize; 6],
    pub max_scroll_offset: [usize; 6],
}

impl GachaDataWidget {
    pub open spec fn wf(&self) -> bool {
        self.tab_index < 6
    }

    pub fn new() -> (r: Self)
        ensures
            r.wf(),
            r.tab_index == 0,
            forall|k: int| 0 <= k < 6 ==> r.scroll_row_offset@[k] == 0 && r.max_scroll_offset@[k] == 0,
    {
        GachaDataWidget { tab_index: 0, scroll_row_offset: [0; 6], max_scroll_offset: [0; 6] }
    }

    /// Scrolls the current tab down, never past its last row.
    pub fn scroll_down(&mut self, lines: usize)
        requires
            old(self).wf(),
        ensures
            final(self).wf(),
            final(self).tab_index == old(self).tab_index,
            final(self).max_scroll_offset == old(self).max_scroll_offset,
            final(self).scroll_row_offset@ == old(self).scroll_row_offset@.update(
                old(self).tab_index as int,
                ({
                    let moved = old(self).scroll_row_offset@[old(self).tab_index as int] + lines;
                    let capped = if moved > usize::MAX { usize::MAX as int } else { moved };
                    let max = old(self).max_scroll_offset@[old(self).tab_index as int];
                    if capped < max { capped as usize } else { max }
                }),
            ),
    {
        let t = self.tab_index;
        let moved = self.scroll_row_offset[t].saturating_add(lines);
        let max = self.max_scroll_offset[t];
        self.scroll_row_offset[t] = if moved < max { moved } else { max };
    }

    /// Scrolls the current tab up, stopping at its top.
    pub fn scroll_up(&mut self, lines: usize)
        requires
            old(self).wf(),
        ensures
            final(self).wf(),
            final(self).tab_index == old(self).tab_index,
            final(self).max_scroll_offset == old(self).max_scroll_offset,
            final(self).scroll_row_offset@ == old(self).scroll_row_offset@.update(
                old(self).tab_index as int,
                (if old(self).scroll_row_offset@[old(self).tab_index as int] >= lines {
                    (old(self).scroll_row_offset@[old(self).tab_index as int] - lines) as usize
                } else {
                    0usize
                }),
            ),
    {
        let t = self.tab_index;
        let cur = self.scroll_row_offset[t];
        self.scroll_row_offset[t] = if cur >= lines { cur - lines } else { 0 };
    }

    pub fn next_tab(&mut self)
        requires
            old(self).wf(),
        ensures
            final(self).wf(),
            final(self).tab_index == (old(self).tab_index + 1) % 6,
            final(self).scroll_row_offset == old(self).scroll_row_offset,
    {
        self.tab_index = (self.tab_index + 1) % GACHA_TAB_MAX_COUNT;
    }

    pub fn prev_tab(&mut self)
        requires
            old(self).wf(),
        ensures
            final(self).wf(),
            final(self).tab_index == (old(self).tab_index + 5) % 6,
            final(self).scroll_row_offset == old(self).scroll_row_offset,
    {
        self.tab_index = (self.tab_index + GACHA_TAB_MAX_COUNT - 1) % GACHA_TAB_MAX_COUNT;
    }

    /// The pool shown by the current tab.
    pub fn current_pool(&self) -> (r: GachaType)
        requires
            self.wf(),
        ensures
            r == crate::types::pool_order()[self.tab_index as int],
    {
        let types = GachaType::as_array();
        types[self.tab_index]
    }
}

/// The settings being edited, and which one is selected.
#[derive(Debug, Clone, Copy)]
pub struct SettingWidget {
    pub selected_index: usize,
    pub temp_config: AppConfig,
    pub save_confirm_widget: SettingSaveConfirmWidget,
}

/// The level after `l` in the cycle DEBUG, INFO, WARN, ERROR.
pub open spec fn next_level(l: LogLevel) -> LogLevel {
    match l {
        LogLevel::Debug => LogLevel::Info,
        LogLevel::Info => LogLevel::Warn,
        LogLevel::Warn => LogLevel::Error,
        LogLevel::Error => LogLevel::Debug,
        LogLevel::Trace => LogLevel::Debug,
    }
}

/// The level before `l` in the cycle DEBUG, INFO, WARN, ERROR.
pub open spec fn prev_level(l: LogLevel) -> LogLevel {
    match l {
        LogLevel::Debug => LogLevel::Error,
        LogLevel::Info => LogLevel::Debug,
        LogLevel::Warn => LogLevel::Info,
        LogLevel::Error => LogLevel::Warn,
        LogLevel::Trace => LogLevel::Error,
    }
}

pub open spec fn other_lang(l: Lang) -> Lang {
    match l {
        Lang::ZhCn => Lang::EnUs,
        Lang::EnUs => Lang::ZhCn,
    }
}

impl SettingWidget {
    /// The number of settings.
    pub const SETTING_COUNT: usize = 3;

    pub fn new() -> (r: Self)
        ensures
            r.selected_index == 0,
            r.temp_config == default_config(),
            r.save_confirm_widget.config == default_config(),
    {
        SettingWidget { selected_index: 0, temp_config: AppConfig::default(), save_confirm_widget: SettingSaveConfirmWidget::new() }
    }

    pub fn load_config(&mut self, config: &AppConfig)
        ensures
            final(self).temp_config == *config,
            final(self).selected_index == old(self).selected_index,
    {
        self.temp_config = *config;
    }

    pub fn select_prev(&mut self)
        requires
            old(self).selected_index < 3,
        ensures
            final(self).selected_index == (old(self).selected_index + 2) % 3,
            final(self).temp_config == old(self).temp_config,
    {
        self.selected_index = (self.selected_index + Self::SETTING_COUNT - 1) % Self::SETTING_COUNT;
    }

    pub fn select_next(&mut self)
        requires
            old(self).selected_index < 3,
        ensures
            final(self).selected_index == (old(self).selected_index + 1) % 3,
            final(self).temp_config == old(self).temp_config,
    {
        self.selected_index = (self.selected_index + 1) % Self::SETTING_COUNT;
    }

    /// Moves the selected setting to its next value.
    pub fn increase_value(&mut self)
        ensures
            final(self).selected_index == old(self).selected_index,
            final(self).temp_config == match old(self).selected_index {
                0 => AppConfig { language: other_lang(old(self).temp_config.language), ..old(self).temp_config },
                1 => AppConfig { check_update: !old(self).temp_config.check_update, ..old(self).temp_config },
                2 => AppConfig { log_level: next_level(old(self).temp_config.log_level), ..old(self).temp_config },
                _ => old(self).temp_config,
            },
    {
        if self.selected_index == 0 {
            self.temp_config.language = match self.temp_config.language {
                Lang::ZhCn => Lang::EnUs,
                Lang::EnUs => Lang::ZhCn,
            };
        } else if self.selected_index == 1 {
            self.temp_config.check_update = !self.temp_config.check_update;
        } else if self.selected_index == 2 {
            self.temp_config.log_level = match self.temp_config.log_level {
                LogLevel::Debug => LogLevel::Info,
                LogLevel::Info => LogLevel::Warn,
                LogLevel::Warn => LogLevel::Error,
                LogLevel::Error => LogLevel::Debug,
                LogLevel::Trace => LogLevel::Debug,
            };
        }
    }

    /// Moves the selected setting to its previous value.
    pub fn decrease_value(&mut self)
        ensures
            final(self).selected_index == old(self).selected_index,
            final(self).temp_config == match old(self).selected_index {
                0 => AppConfig { language: other_lang(old(self).temp_config.language), ..old(self).temp_config },
                1 => AppConfig { check_update: !old(self).temp_config.check_update, ..old(self).temp_config },
                2 => AppConfig { log_level: prev_level(old(self).temp_config.log_level), ..old(self).temp_config },
                _ => old(self).temp_config,
            },
    {
        if self.selected_index == 0 {
            self.temp_config.language = match self.temp_config.language {
                Lang::ZhCn => Lang::EnUs,
                Lang::EnUs => Lang::ZhCn,
            };
        } else if self.selected_index == 1 {
            self.temp_config.check_update = !self.temp_config.check_update;
        } else if self.selected_index == 2 {
            self.temp_config.log_level = match self.temp_config.log_level {
                LogLevel::Debug => LogLevel::Error,
                LogLevel::Info => LogLevel::Debug,
                LogLevel::Warn => LogLevel::Info,
                LogLevel::Error => LogLevel::Warn,
                LogLevel::Trace => LogLevel::Error,
            };
        }
    }

    /// The name of the edited language, in that language.
    pub fn get_language_display(&self) -> (r: &'static str)
        ensures
            self.temp_config.language == Lang::ZhCn ==> r@ == "\u{4e2d}\u{6587}"@,
            self.temp_config.language == Lang::EnUs ==> r@ == "English"@,
    {
        match self.temp_config.language {
            Lang::ZhCn => "\u{4e2d}\u{6587}",
            Lang::EnUs => "English",
        }
    }

    /// Hands the edited settings to the confirmation dialog.
    pub fn request_save(&mut self)
        ensures
            final(self).save_confirm_widget.config == old(self).temp_config,
            final(self).temp_config == old(self).temp_config,
            final(self).selected_index == old(self).selected_index,
    {
        self.save_confirm_widget.set_config(self.temp_config);
    }
}

/// The dialog that confirms saving settings.
#[derive(Debug, Clone, Copy)]
pub struct SettingSaveConfirmWidget {
    pub config: AppConfig,
}

impl SettingSaveConfirmWidget {
    pub fn new() -> (r: Self)
        ensures
            r.config == default_config(),
    {
        SettingSaveConfirmWidget { config: AppConfig::default() }
    }

    pub fn set_config(&mut self, config: AppConfig)
        ensures
            final(self).config == config,
    {
        self.config = config;
    }
}

/// The text typed into the add-account dialog, at most nine characters.
#[derive(Debug)]
pub struct AddAccountWidget {
    pub input_value: String,
}

impl AddAccountWidget {
    pub const MAX_LEN: usize = 9;

    pub fn new() -> (r: Self)
        ensures
            r.input_value@.len() == 0,
    {
        AddAccountWidget { input_value: String::new() }
    }
}

} // verus!
