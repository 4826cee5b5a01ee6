# text-snap

A tray tool for Windows that shows the text selected in any window. It asks the
window with the keyboard focus through UI Automation and never reads the
clipboard.

`src/` is the logic, verified with Verus: shortcuts, settings and their rollback,
the search for the selected text, the placing of windows, file names and file
contents, and the toggling of editor windows. The functions named `law_...` state
what holds of the library as a whole.

`app/` is the program around it: it talks to Windows and to the user interface,
does what the library asks for, and hands back the answers. Besides the crates in
`Cargo.toml` it is built with tauri 2 and its plugins for the clipboard, dialogs,
global shortcuts and single instances.

`tests/` run the library on concrete values.
