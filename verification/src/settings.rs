//! The editor's configuration: a read-only object loaded once at
//! startup. The library only consumes it; reading the configuration
//! file and environment is the surrounding application's job.

use vstd::prelude::*;

verus! {

/// Editing behaviour: indentation widths and line-number style.
pub struct EditorConfig {
    pub indent_size: u8,
    pub tab_size: u8,
    pub line_numbers: String,
}

/// Cosmetics: the highlighting theme, passed opaquely to the renderer.
pub struct AppearanceConfig {
    pub theme: String,
}

/// Diagnostics: whether to log, and how loudly.
pub struct GeneralConfig {
    pub debug: bool,
    pub log_level: String,
}

/// The whole configuration.
pub struct Settings {
    pub editor: EditorConfig,
    pub appearance: AppearanceConfig,
    pub general: GeneralConfig,
}

/// The mathematical content of a configuration.
pub struct SettingsView {
    pub indent_size: u8,
    pub tab_size: u8,
    pub line_numbers: Seq<char>,
    pub theme: Seq<char>,
    pub debug: bool,
    pub log_level: Seq<char>,
}

impl View for Settings {
    type V = SettingsView;

    open spec fn view(&self) -> SettingsView {
        SettingsView {
            indent_size: self.editor.indent_size,
            tab_size: self.editor.tab_size,
            line_numbers: self.editor.line_numbers@,
            theme: self.appearance.theme@,
            debug: self.general.debug,
            log_level: self.general.log_level@,
        }
    }
}

impl Default for Settings {
    /// The built-in configuration used when no file overrides it.
    fn default() -> (s: Self)
        ensures
            s@.indent_size == 4,
            s@.tab_size == 4,
            s@.line_numbers == "relative"@,
            s@.theme == "base16-ocean.dark"@,
            s@.debug == false,
            s@.log_level == "info"@,
    {
        Settings {
            editor: EditorConfig {
                indent_size: 4,
                tab_size: 4,
                line_numbers: "relative".to_owned(),
            },
            appearance: AppearanceConfig { theme: "base16-ocean.dark".to_owned() },
            general: GeneralConfig { debug: false, log_level: "info".to_owned() },
        }
    }
}

} // verus!
