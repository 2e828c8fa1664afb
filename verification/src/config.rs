//! Configuration data: colour palette and the bar/menu sections of the
//! panel's configuration. Loading these from disk and parsing CSS colour
//! strings into channel values are I/O concerns outside the library; the
//! library holds the parsed, plain values.

use vstd::prelude::*;

verus! {

/// One colour, as alpha/red/green/blue channel bytes.
#[derive(Clone, Copy, PartialEq, Eq, Structural, Debug)]
pub struct Color {
    pub a: u8,
    pub r: u8,
    pub g: u8,
    pub b: u8,
}

/// The resolved colour palette of a panel application.
#[derive(Clone, Copy, PartialEq, Eq, Structural, Debug)]
pub struct ColorConfig {
    pub text_color: Color,
    pub button_color: Color,
    pub button_hover_color: Color,
}

/// A bar button: its label and the shell command it runs when clicked.
#[derive(Clone)]
pub struct Button {
    pub text: String,
    pub command: String,
}

/// Mathematical model of [`Button`].
#[verifier::ext_equal]
pub ghost struct ButtonV {
    pub text: Seq<char>,
    pub command: Seq<char>,
}

impl View for Button {
    type V = ButtonV;

    open spec fn view(&self) -> ButtonV {
        ButtonV { text: self.text@, command: self.command@ }
    }
}

/// The bar section of the configuration.
#[derive(Clone)]
pub struct BarConfig {
    pub height: u32,
    pub font: String,
    pub buttons: Vec<Button>,
}

/// The menu (launcher) section of the configuration.
#[derive(Clone)]
pub struct LauncherConfig {
    pub prompt: Option<String>,
    pub line_height: u32,
    pub max_lines: u32,
    pub font: String,
}

/// The whole configuration: colour strings as read from the configuration
/// file, and the optional per-application sections.
#[derive(Clone)]
pub struct Config {
    pub button_color: String,
    pub button_hover_color: String,
    pub text_color: String,
    pub bar: Option<BarConfig>,
    pub launcher: Option<LauncherConfig>,
}

} // verus!
