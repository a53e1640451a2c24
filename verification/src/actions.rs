//! The requests that a front end sends to the application, and the names
//! under which it shows its settings.

use vstd::prelude::*;

verus! {

/// Requests that concern files.
#[derive(Debug, Clone, Copy, PartialEq, Eq, Structural)]
pub enum FileAction {
    Open,
    Save,
    LoadTranslationLrc,
    LoadRomanizationLrc,
}

/// Requests that concern the media player.
#[derive(Debug, Clone, PartialEq, Eq)]
pub enum PlayerAction {
    /// Follow the media session with the given identifier.
    SelectSmtcSession(String),
    /// Shift the time line by the given number of milliseconds.
    SetSmtcTimeOffset(i64),
    /// Keep the current lyrics in the local cache.
    SaveToLocalCache,
    /// Replace the cover image.
    UpdateCover(Option<Vec<u8>>),
    /// Switch audio capture on or off.
    ToggleAudioCapture(bool),
}

/// The panels of the main window.
#[derive(Debug, Clone, Copy, PartialEq, Eq, Structural)]
pub enum PanelType {
    Settings,
    Metadata,
    Log,
    Markers,
    Translation,
    Romanization,
    AmllConnector,
}

/// Requests that concern the connection to the external player.
#[derive(Debug, Clone, Copy, PartialEq, Eq, Structural)]
pub enum AmllConnectorAction {
    Connect,
    Disconnect,
    Retry,
    CheckIndexUpdate,
    ReloadProviders,
}

/// The processors that can be run on a parsed document.
#[derive(Debug, Clone, Copy, PartialEq, Eq, Structural)]
pub enum ProcessorType {
    MetadataStripper,
    SyllableSmoother,
    AgentRecognizer,
}

/// The pages of the settings window.
#[derive(Debug, Clone, Copy, PartialEq, Eq, Structural)]
pub enum SettingsCategory {
    General,
    Interface,
    AutoSearch,
    Connector,
    Postprocessors,
}

impl Default for SettingsCategory {
    fn default() -> (r: Self)
        ensures
            r == SettingsCategory::General,
    {
        SettingsCategory::General
    }
}

impl SettingsCategory {
    /// The name under which the page is listed, as a text.
    pub open spec fn spec_display_name(&self) -> Seq<char> {
        match self {
            SettingsCategory::General => "通用"@,
            SettingsCategory::Interface => "界面"@,
            SettingsCategory::AutoSearch => "自动搜索"@,
            SettingsCategory::Connector => "AMLL Connector"@,
            SettingsCategory::Postprocessors => "后处理器"@,
        }
    }

    /// The name under which the page is listed.
    pub fn display_name(&self) -> (name: &'static str)
        ensures
            name@ == self.spec_display_name(),
    {
        match self {
            SettingsCategory::General => "通用",
            SettingsCategory::Interface => "界面",
            SettingsCategory::AutoSearch => "自动搜索",
            SettingsCategory::Connector => "AMLL Connector",
            SettingsCategory::Postprocessors => "后处理器",
        }
    }
}

} // verus!
