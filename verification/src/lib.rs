//! The logic of a tray tool that shows the text selected in another window.
//!
//! On a global shortcut the tool asks the window with the keyboard focus for its
//! selected text, through the accessibility interface and never through the
//! clipboard, and shows it in a small window near the cursor. What the system has
//! to do is left to the program around this library: the library says what to do
//! next and takes the answer.
//!
//! - [`shortcut`]: what shortcuts are written like.
//! - [`config`], [`settings`]: the settings, and how a change of them takes effect
//!   or is undone.
//! - [`selection`]: reading the selected text.
//! - [`popup`], [`toast`], [`tray`], [`ui`]: what the windows show and when.
//! - [`files`]: saving a text.
//! - [`minimize`]: clearing the editor windows away.
//! - [`text`]: characters and strings.

pub mod config;
pub mod files;
pub mod minimize;
pub mod popup;
pub mod selection;
pub mod settings;
pub mod shortcut;
mod std_items;
pub mod text;
pub mod toast;
pub mod tray;
pub mod ui;
