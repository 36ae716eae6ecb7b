//! Editor configuration: plain settings with their documented defaults.
//! Reading and writing the configuration file is the shell's business;
//! the library holds the values.

use vstd::prelude::*;

verus! {

pub fn default_tab_size() -> (r: usize)
    ensures
        r == 4,
{
    4
}

pub fn default_true() -> (r: bool)
    ensures
        r,
{
    true
}

pub fn default_color_scheme() -> (r: String)
    ensures
        r@ == "default"@,
{
    "default".to_owned()
}

#[derive(Debug)]
pub struct EditorConfig {
    pub tab_size: usize,
    pub expand_tabs: bool,
    pub auto_indent: bool,
    pub line_numbers: bool,
}

impl Default for EditorConfig {
    fn default() -> (c: EditorConfig)
        ensures
            c.tab_size == 4,
            !c.expand_tabs,
            c.auto_indent,
            c.line_numbers,
    {
        EditorConfig {
            tab_size: default_tab_size(),
            expand_tabs: false,
            auto_indent: true,
            line_numbers: true,
        }
    }
}

#[derive(Debug)]
pub struct UiConfig {
    pub color_scheme: String,
    pub show_status_line: bool,
}

impl Default for UiConfig {
    fn default() -> (c: UiConfig)
        ensures
            c.color_scheme@ == "default"@,
            c.show_status_line,
    {
        UiConfig { color_scheme: default_color_scheme(), show_status_line: true }
    }
}

/// The whole configuration.  Key bindings are an association list from a
/// key name to a command name.
#[derive(Debug)]
pub struct Config {
    pub editor: EditorConfig,
    pub ui: UiConfig,
    pub keybindings: Vec<(String, String)>,
}

impl Default for Config {
    fn default() -> (c: Config)
        ensures
            c.editor.tab_size == 4,
            !c.editor.expand_tabs,
            c.editor.auto_indent,
            c.editor.line_numbers,
            c.ui.color_scheme@ == "default"@,
            c.ui.show_status_line,
            c.keybindings@.len() == 0,
    {
        Config {
            editor: EditorConfig::default(),
            ui: UiConfig::default(),
            keybindings: Vec::new(),
        }
    }
}

} // verus!
