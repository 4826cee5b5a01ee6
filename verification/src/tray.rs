//! The icon in the tray and its menu.
use crate::text::same;
use vstd::prelude::*;

verus! {

/// A line of the menu.
#[derive(Clone, Copy, Debug)]
pub enum MenuEntry {
    Item { id: &'static str, label: &'static str },
    Separator,
}

/// What the user asks for.
#[derive(Clone, Copy, Debug, PartialEq, Eq, Structural)]
pub enum TrayAction {
    /// Read the selected text.
    Read,
    /// Open the settings.
    Settings,
    /// Open the directory of the saved texts.
    OpenDir,
    /// Minimize or restore the editors.
    ToggleEditors,
    /// Exit.
    Quit,
    /// Nothing.
    Ignore,
}

pub open spec fn entry(id: &'static str, label: &'static str) -> MenuEntry {
    MenuEntry::Item { id, label }
}

pub open spec fn menu() -> Seq<MenuEntry> {
    seq![
        entry("pick", "读取当前选中文本"),
        entry("settings", "设置…"),
        entry("open_dir", "打开保存目录"),
        MenuEntry::Separator,
        entry("clear_editors", "最小化/还原编辑器（截图前清场）"),
        entry("quit", "退出"),
    ]
}

/// The lines of the menu, from top to bottom.
pub fn build_tray() -> (r: Vec<MenuEntry>)
    ensures
        r@ == menu(),
{
    vec![
        MenuEntry::Item { id: "pick", label: "读取当前选中文本" },
        MenuEntry::Item { id: "settings", label: "设置…" },
        MenuEntry::Item { id: "open_dir", label: "打开保存目录" },
        MenuEntry::Separator,
        MenuEntry::Item { id: "clear_editors", label: "最小化/还原编辑器（截图前清场）" },
        MenuEntry::Item { id: "quit", label: "退出" },
    ]
}

/// What the line of the menu with that name stands for.
pub open spec fn menu_action(id: Seq<char>) -> TrayAction {
    if id == "pick"@ {
        TrayAction::Read
    } else if id == "settings"@ {
        TrayAction::Settings
    } else if id == "open_dir"@ {
        TrayAction::OpenDir
    } else if id == "clear_editors"@ {
        TrayAction::ToggleEditors
    } else if id == "quit"@ {
        TrayAction::Quit
    } else {
        TrayAction::Ignore
    }
}

/// What the user asks for by a line of the menu.
pub fn on_menu(id: &str) -> (r: TrayAction)
    ensures
        r == menu_action(id@),
{
    if same(id, "pick") {
        TrayAction::Read
    } else if same(id, "settings") {
        TrayAction::Settings
    } else if same(id, "open_dir") {
        TrayAction::OpenDir
    } else if same(id, "clear_editors") {
        TrayAction::ToggleEditors
    } else if same(id, "quit") {
        TrayAction::Quit
    } else {
        TrayAction::Ignore
    }
}

/// What the mouse does on the icon.
#[derive(Clone, Copy, Debug, PartialEq, Eq, Structural)]
pub enum IconEvent {
    /// The left button is released.
    LeftUp,
    /// Anything else.
    Other,
}

/// What the user asks for by the mouse on the icon.
pub fn on_tray_icon(event: IconEvent) -> (r: TrayAction)
    ensures
        r == match event {
            IconEvent::LeftUp => TrayAction::Read,
            IconEvent::Other => TrayAction::Ignore,
        },
{
    match event {
        IconEvent::LeftUp => TrayAction::Read,
        IconEvent::Other => TrayAction::Ignore,
    }
}

/// Every line of the menu does something, and no two do the same.
pub proof fn law_menu_is_complete(i: int, j: int)
    requires
        0 <= i < menu().len(),
        0 <= j < menu().len(),
        menu()[i] is Item,
        menu()[j] is Item,
    ensures
        menu_action(menu()[i]->id@) != TrayAction::Ignore,
        menu_action(menu()[i]->id@) == menu_action(menu()[j]->id@) ==> i == j,
{
    reveal_strlit("pick");
    reveal_strlit("settings");
    reveal_strlit("open_dir");
    reveal_strlit("clear_editors");
    reveal_strlit("quit");
    assert("pick"@[0] != "quit"@[0]);
    assert("settings"@[0] != "open_dir"@[0]);
}

/// Only what stands in the menu does anything: a name that no line has is ignored.
pub proof fn law_only_menu_lines_act(id: &str, r: TrayAction)
    requires
        call_ensures(on_menu, (id,), r),
    ensures
        r != TrayAction::Ignore ==> exists|i: int|
            0 <= i < menu().len() && #[trigger] menu()[i] is Item && menu()[i]->id@ == id@,
        r == TrayAction::Read <==> id@ == "pick"@,
        r == TrayAction::Settings <==> id@ == "settings"@,
        r == TrayAction::OpenDir <==> id@ == "open_dir"@,
        r == TrayAction::ToggleEditors <==> id@ == "clear_editors"@,
        r == TrayAction::Quit <==> id@ == "quit"@,
{
    reveal_strlit("pick");
    reveal_strlit("settings");
    reveal_strlit("open_dir");
    reveal_strlit("clear_editors");
    reveal_strlit("quit");
    assert("pick"@[0] != "quit"@[0]);
    assert("settings"@[0] != "open_dir"@[0]);
    assert(menu()[0]->id@ == "pick"@);
    assert(menu()[1]->id@ == "settings"@);
    assert(menu()[2]->id@ == "open_dir"@);
    assert(menu()[4]->id@ == "clear_editors"@);
    assert(menu()[5]->id@ == "quit"@);
}

/// A left click on the icon does what the first line of the menu does, and nothing
/// else on the icon does anything.
pub proof fn law_left_click_is_the_first_line(
    event: IconEvent,
    r: TrayAction,
    first: TrayAction,
)
    requires
        call_ensures(on_tray_icon, (event,), r),
        call_ensures(on_menu, ("pick",), first),
    ensures
        event == IconEvent::LeftUp ==> r == first,
        event != IconEvent::LeftUp ==> r == TrayAction::Ignore,
{
}

/// A line of the menu has that name and says that.
pub open spec fn says(line: MenuEntry, id: Seq<char>, label: Seq<char>) -> bool {
    line matches MenuEntry::Item { id: name, label: words } && name@ == id && words@ == label
}

/// The menu reads, from top to bottom: reading, the settings, the directory; then,
/// set apart, clearing the editors away, and the exit.
pub proof fn law_menu_reads_from_top_to_bottom(r: Vec<MenuEntry>)
    requires
        call_ensures(build_tray, (), r),
    ensures
        r@.len() == 6,
        says(r@[0], "pick"@, "读取当前选中文本"@),
        says(r@[1], "settings"@, "设置…"@),
        says(r@[2], "open_dir"@, "打开保存目录"@),
        r@[3] is Separator,
        says(r@[4], "clear_editors"@, "最小化/还原编辑器（截图前清场）"@),
        says(r@[5], "quit"@, "退出"@),
{
}

} // verus!
