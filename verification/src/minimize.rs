//! Clearing the editor windows away, and bringing them back.
//!
//! No state is kept: what to do follows from how the windows stand now.
use crate::text::{
    after_separator, decimal, file_name, law_name_follows_directory, lower, same, to_decimal,
    to_lower,
};
use vstd::prelude::*;

verus! {

/// What a toggle did.
#[derive(Clone, Copy, Debug, PartialEq, Eq, Structural)]
pub enum Action {
    /// The editors were minimized.
    Minimized,
    /// The editors were restored.
    Restored,
    /// There is no editor window.
    Nothing,
}

#[derive(Clone, Copy, Debug)]
pub struct ToggleResult {
    pub action: Action,
    /// How many windows took part.
    pub count: usize,
    /// How many of them did not end up as they should. The system refuses to
    /// move the windows of a program with higher rights, and does not say so.
    pub failed: usize,
}

// ── Which windows ──

/// A top-level window, as the system describes it.
#[derive(Debug)]
pub struct WindowInfo {
    pub handle: isize,
    pub visible: bool,
    pub title_len: i32,
    pub pid: u32,
    /// The path of the program that the window belongs to, where it can be told.
    pub image: Option<String>,
}

/// A window worth asking for its program: visible, with a title and an owner.
pub open spec fn candidate(visible: bool, title_len: i32, pid: u32) -> bool {
    visible && title_len > 0 && pid != 0
}

/// The program at that path is an editor.
pub open spec fn editor(image: Seq<char>) -> bool {
    let name = lower(after_separator(image));
    name == "code.exe"@ || name == "devenv.exe"@
}

/// A window that takes part: all conditions at once.
pub open spec fn target(window: WindowInfo) -> bool {
    &&& candidate(window.visible, window.title_len, window.pid)
    &&& window.image is Some
    &&& editor(window.image->0@)
}

/// Whether it is worth asking for the program of a window.
pub fn is_candidate(visible: bool, title_len: i32, pid: u32) -> (r: bool)
    ensures
        r == candidate(visible, title_len, pid),
{
    visible && title_len > 0 && pid != 0
}

/// Whether the program at that path, where it can be told, is an editor.
pub fn process_matches(image: Option<&str>) -> (r: bool)
    ensures
        r == (image is Some && editor(image->0@)),
{
    match image {
        None => false,
        Some(path) => {
            let name = to_lower(file_name(path));
            same(name.as_str(), "code.exe") || same(name.as_str(), "devenv.exe")
        },
    }
}

pub open spec fn targets(windows: Seq<WindowInfo>) -> Seq<isize> {
    windows.filter(|w: WindowInfo| target(w)).map_values(|w: WindowInfo| w.handle)
}

fn is_target(window: &WindowInfo) -> (r: bool)
    ensures
        r == target(*window),
{
    let matches = match &window.image {
        Some(path) => process_matches(Some(path.as_str())),
        None => false,
    };
    is_candidate(window.visible, window.title_len, window.pid) && matches
}

/// The windows that take part, in the order in which the system lists them.
pub fn target_windows(windows: &Vec<WindowInfo>) -> (r: Vec<isize>)
    ensures
        r@ == targets(windows@),
{
    let mut r: Vec<isize> = Vec::new();
    let mut i: usize = 0;
    reveal(Seq::filter);
    while i < windows.len()
        invariant
            i <= windows.len(),
            r@ == targets(windows@.take(i as int)),
        decreases windows.len() - i,
    {
        reveal(Seq::filter);
        let ghost before = windows@.take(i as int).filter(|w: WindowInfo| target(w));
        assert(windows@.take(i + 1).drop_last() == windows@.take(i as int));
        if is_target(&windows[i]) {
            r.push(windows[i].handle);
            assert(before.push(windows@[i as int]).map_values(|w: WindowInfo| w.handle)
                == before.map_values(|w: WindowInfo| w.handle).push(windows@[i as int].handle));
        }
        i = i + 1;
    }
    assert(windows@.take(windows@.len() as int) == windows@);
    r
}

// ── What to do ──

/// What to do with windows of which these are minimized: as long as one is
/// open, minimize; once all are minimized, restore.
pub open spec fn action_for(minimized: Seq<bool>) -> Action {
    if minimized.len() == 0 {
        Action::Nothing
    } else if exists|i: int| 0 <= i < minimized.len() && !#[trigger] minimized[i] {
        Action::Minimized
    } else {
        Action::Restored
    }
}

/// A window stands as the action wants it.
pub open spec fn reached(action: Action, minimized: bool) -> bool {
    match action {
        Action::Minimized => minimized,
        Action::Restored => !minimized,
        Action::Nothing => true,
    }
}

/// How many windows do not stand as the action wants them.
pub open spec fn missed(action: Action, minimized: Seq<bool>) -> nat {
    minimized.filter(|m: bool| !reached(action, m)).len()
}

/// Decides what to do, from which of the windows are minimized.
pub fn decide(minimized: &Vec<bool>) -> (r: Action)
    ensures
        r == action_for(minimized@),
{
    if minimized.len() == 0 {
        return Action::Nothing;
    }
    let mut i: usize = 0;
    while i < minimized.len()
        invariant
            i <= minimized.len(),
            forall|k: int| 0 <= k < i ==> #[trigger] minimized@[k],
        decreases minimized.len() - i,
    {
        if !minimized[i] {
            return Action::Minimized;
        }
        i = i + 1;
    }
    Action::Restored
}

/// What a window is told. Neither command activates it: the window in use stays
/// in front.
#[derive(Clone, Copy, Debug, PartialEq, Eq, Structural)]
pub enum WindowCommand {
    /// Minimize, without activating another window.
    MinimizeWithoutActivating,
    /// Return to how it was before it was minimized, without becoming active.
    ShowWithoutActivating,
}

/// What every window is told for an action.
pub fn command_for(action: Action) -> (r: Option<WindowCommand>)
    ensures
        r == match action {
            Action::Minimized => Some(WindowCommand::MinimizeWithoutActivating),
            Action::Restored => Some(WindowCommand::ShowWithoutActivating),
            Action::Nothing => None,
        },
{
    match action {
        Action::Minimized => Some(WindowCommand::MinimizeWithoutActivating),
        Action::Restored => Some(WindowCommand::ShowWithoutActivating),
        Action::Nothing => None,
    }
}

fn has_reached(action: Action, minimized: bool) -> (r: bool)
    ensures
        r == reached(action, minimized),
{
    match action {
        Action::Minimized => minimized,
        Action::Restored => !minimized,
        Action::Nothing => true,
    }
}

/// Sums up a toggle, from which of the windows were minimized before and which
/// are minimized now.
pub fn toggle(before: &Vec<bool>, after: &Vec<bool>) -> (r: ToggleResult)
    requires
        before.len() == after.len(),
    ensures
        r.action == action_for(before@),
        r.count == before.len(),
        r.failed == missed(r.action, after@),
{
    let action = decide(before);
    let mut failed: usize = 0;
    let mut i: usize = 0;
    reveal(Seq::filter);
    while i < after.len()
        invariant
            i <= after.len(),
            failed <= i,
            failed == missed(action, after@.take(i as int)),
        decreases after.len() - i,
    {
        reveal(Seq::filter);
        assert(after@.take(i + 1).drop_last() == after@.take(i as int));
        if !has_reached(action, after[i]) {
            failed = failed + 1;
        }
        i = i + 1;
    }
    assert(after@.take(after@.len() as int) == after@);
    ToggleResult { action, count: before.len(), failed }
}

// ── What to report ──

pub open spec fn report(result: ToggleResult) -> Seq<char> {
    let count = decimal(result.count as nat);
    let suffix = if result.failed > 0 {
        "（"@ + decimal(result.failed as nat) + "/"@ + count
            + " 个没成功：目标程序可能以管理员运行，本程序也需要管理员权限才能控制它）"@
    } else {
        Seq::empty()
    };
    match result.action {
        Action::Nothing => "没有检测到 VS Code / Visual Studio 窗口"@,
        Action::Minimized => "已最小化 "@ + count + " 个编辑器窗口"@ + suffix,
        Action::Restored => "已还原 "@ + count + " 个编辑器窗口"@ + suffix,
    }
}

/// The line that goes to the log after a toggle.
pub fn toggle_editors(result: &ToggleResult) -> (r: String)
    ensures
        r@ == report(*result),
{
    let mut r = match result.action {
        Action::Nothing => {
            return "没有检测到 VS Code / Visual Studio 窗口".to_owned();
        },
        Action::Minimized => "已最小化 ".to_owned(),
        Action::Restored => "已还原 ".to_owned(),
    };
    let count = to_decimal(result.count as u64);
    r.append(count.as_str());
    r.append(" 个编辑器窗口");
    if result.failed > 0 {
        r.append("（");
        r.append(to_decimal(result.failed as u64).as_str());
        r.append("/");
        r.append(count.as_str());
        r.append(" 个没成功：目标程序可能以管理员运行，本程序也需要管理员权限才能控制它）");
    }
    assert(r@ == report(*result));
    r
}

// ── Laws ──

/// A toggle reports at most as many failures as there are windows, and none
/// exactly when every window stands as it should.
pub proof fn law_failures_count_the_windows_left(action: Action, after: Seq<bool>)
    ensures
        missed(action, after) <= after.len(),
        missed(action, after) == 0 <==> forall|i: int|
            0 <= i < after.len() ==> reached(action, #[trigger] after[i]),
    decreases after.len(),
{
    reveal(Seq::filter);
    if after.len() > 0 {
        let rest = after.drop_last();
        law_failures_count_the_windows_left(action, rest);
        if missed(action, after) == 0 {
            assert forall|i: int| 0 <= i < after.len() implies reached(
                action,
                #[trigger] after[i],
            ) by {
                if i < rest.len() {
                    assert(rest[i] == after[i]);
                }
            }
        }
        if forall|i: int| 0 <= i < after.len() ==> reached(action, #[trigger] after[i]) {
            assert forall|i: int| 0 <= i < rest.len() implies reached(
                action,
                #[trigger] rest[i],
            ) by {
                assert(rest[i] == after[i]);
            }
            assert(reached(action, after[after.len() - 1]));
        }
    }
}

/// Where every window obeys, a toggle is followed by the opposite one: minimized
/// windows come back, restored windows go away.
pub proof fn law_toggles_alternate(before: Seq<bool>, after: Seq<bool>)
    requires
        before.len() == after.len(),
        missed(action_for(before), after) == 0,
    ensures
        action_for(after) == match action_for(before) {
            Action::Minimized => Action::Restored,
            Action::Restored => Action::Minimized,
            Action::Nothing => Action::Nothing,
        },
{
    law_failures_count_the_windows_left(action_for(before), after);
    if before.len() > 0 {
        assert(reached(action_for(before), after[0]));
    }
}

proof fn lemma_missed_by_either(after: Seq<bool>)
    ensures
        missed(Action::Minimized, after) + missed(Action::Restored, after) == after.len(),
    decreases after.len(),
{
    reveal(Seq::filter);
    if after.len() > 0 {
        lemma_missed_by_either(after.drop_last());
    }
}

/// What the next toggle does after windows that did not obey. If one could not be
/// minimized, it is tried again. After a restoring, those that came back are
/// minimized; only if none did, it is tried again.
pub proof fn law_toggle_after_failures(before: Seq<bool>, after: Seq<bool>)
    requires
        before.len() == after.len(),
    ensures
        ({
            let failed = missed(action_for(before), after);
            action_for(after) == match action_for(before) {
                Action::Minimized => if failed > 0 {
                    Action::Minimized
                } else {
                    Action::Restored
                },
                Action::Restored => if failed == after.len() {
                    Action::Restored
                } else {
                    Action::Minimized
                },
                Action::Nothing => Action::Nothing,
            }
        }),
{
    law_failures_count_the_windows_left(Action::Minimized, after);
    lemma_missed_by_either(after);
}

/// A window that is hidden, has no title, or belongs to another program never
/// takes part, and every editor window does.
pub proof fn law_only_editor_windows_take_part(windows: Seq<WindowInfo>, handle: isize)
    ensures
        targets(windows).contains(handle) <==> exists|i: int|
            0 <= i < windows.len() && target(#[trigger] windows[i]) && windows[i].handle == handle,
    decreases windows.len(),
{
    reveal(Seq::filter);
    let taken = |w: WindowInfo| target(w);
    let handles = |w: WindowInfo| w.handle;
    if windows.len() > 0 {
        let rest = windows.drop_last();
        law_only_editor_windows_take_part(rest, handle);
        let kept = rest.filter(taken);
        if target(windows.last()) {
            assert(targets(windows) == targets(rest).push(windows.last().handle));
            assert(targets(windows)[targets(rest).len() as int] == windows.last().handle);
        } else {
            assert(targets(windows) == targets(rest));
        }
        if targets(rest).contains(handle) {
            let k = targets(rest).index_of(handle);
            assert(targets(windows)[k] == handle);
            let i = choose|i: int|
                0 <= i < rest.len() && target(#[trigger] rest[i]) && rest[i].handle == handle;
            assert(target(windows[i]));
        }
        if exists|i: int|
            0 <= i < windows.len() && target(#[trigger] windows[i]) && windows[i].handle
                == handle {
            let i = choose|i: int|
                0 <= i < windows.len() && target(#[trigger] windows[i]) && windows[i].handle
                    == handle;
            if i < rest.len() {
                assert(rest[i] == windows[i]);
            }
        }
        if targets(windows).contains(handle) {
            let k = targets(windows).index_of(handle);
            if k < targets(rest).len() {
                assert(targets(rest)[k] == handle);
            } else {
                assert(target(windows[windows.len() - 1]));
            }
        }
    }
}

/// There is nothing to do exactly when there is no window; as long as a single one
/// is open the windows are minimized, and only once all are minimized do they come
/// back. This holds of one window as of many.
pub proof fn law_action_follows_from_the_windows(minimized: &Vec<bool>, r: Action)
    requires
        call_ensures(decide, (minimized,), r),
    ensures
        r == Action::Nothing <==> minimized@.len() == 0,
        r == Action::Minimized <==> minimized@.contains(false),
        r == Action::Restored <==> minimized@.len() > 0 && !minimized@.contains(false),
{
    if minimized@.contains(false) {
        let i = choose|i: int| 0 <= i < minimized@.len() && minimized@[i] == false;
        assert(!minimized@[i]);
    }
    if exists|i: int| 0 <= i < minimized@.len() && !#[trigger] minimized@[i] {
        let i = choose|i: int| 0 <= i < minimized@.len() && !#[trigger] minimized@[i];
        assert(minimized@[i] == false);
        assert(minimized@.contains(false));
    }
}

/// What a toggle reports: all its windows take part, and each that stands wrong
/// afterwards counts for one, open after a minimizing, minimized after a restoring.
pub proof fn law_toggle_counts_every_window(
    before: &Vec<bool>,
    after: &Vec<bool>,
    r: ToggleResult,
)
    requires
        call_ensures(toggle, (before, after), r),
    ensures
        r.count == before@.len(),
        r.action == Action::Nothing <==> before@.len() == 0,
        r.action == Action::Minimized <==> before@.contains(false),
        r.failed == match r.action {
            Action::Minimized => after@.to_multiset().count(false),
            Action::Restored => after@.to_multiset().count(true),
            Action::Nothing => 0,
        },
{
    lemma_missed_counts(r.action, after@);
    if before@.contains(false) {
        let i = choose|i: int| 0 <= i < before@.len() && before@[i] == false;
        assert(!before@[i]);
    }
    if exists|i: int| 0 <= i < before@.len() && !#[trigger] before@[i] {
        let i = choose|i: int| 0 <= i < before@.len() && !#[trigger] before@[i];
        assert(before@[i] == false);
        assert(before@.contains(false));
    }
}

proof fn lemma_missed_counts(action: Action, after: Seq<bool>)
    ensures
        missed(action, after) == match action {
            Action::Minimized => after.to_multiset().count(false),
            Action::Restored => after.to_multiset().count(true),
            Action::Nothing => 0,
        },
    decreases after.len(),
{
    broadcast use vstd::seq_lib::group_to_multiset_ensures;

    reveal(Seq::filter);
    if after.len() == 0 {
        assert(!after.contains(true) && !after.contains(false));
    } else {
        lemma_missed_counts(action, after.drop_last());
        assert(after == after.drop_last().push(after.last()));
        assert(after.to_multiset() == after.drop_last().to_multiset().insert(after.last()));
    }
}

/// Every window is told the same: to minimize, or to come back, in both cases
/// without becoming active; and without windows nothing is told.
pub proof fn law_command_fits_the_windows(
    minimized: &Vec<bool>,
    action: Action,
    r: Option<WindowCommand>,
)
    requires
        call_ensures(decide, (minimized,), action),
        call_ensures(command_for, (action,), r),
    ensures
        r == if minimized@.len() == 0 {
            None
        } else if minimized@.contains(false) {
            Some(WindowCommand::MinimizeWithoutActivating)
        } else {
            Some(WindowCommand::ShowWithoutActivating)
        },
{
    law_action_follows_from_the_windows(minimized, action);
}

/// The program at a path is an editor exactly when its file name is one of the two,
/// whatever the directory and the case of the letters.
pub proof fn law_editors_go_by_their_file_name(dir: Seq<char>, name: Seq<char>)
    requires
        dir.len() > 0 ==> dir.last() == '\\' || dir.last() == '/',
        !name.contains('\\'),
        !name.contains('/'),
    ensures
        editor(dir + name) <==> lower(name) == "code.exe"@ || lower(name) == "devenv.exe"@,
        forall|image: Option<&str>, r: bool| #[trigger]
            call_ensures(process_matches, (image,), r) ==> r == (image matches Some(path)
                && editor(path@)),
{
    law_name_follows_directory(dir, name);
}

/// Which windows take part: those that are visible, have a title and an owner, and
/// belong to an editor; none of the conditions can be missing.
pub proof fn law_all_conditions_at_once(window: WindowInfo)
    ensures
        target(window) <==> {
            &&& window.visible
            &&& window.title_len >= 1
            &&& window.pid >= 1
            &&& window.image matches Some(path) && editor(path@)
        },
        forall|visible: bool, title_len: i32, pid: u32, r: bool| #[trigger]
            call_ensures(is_candidate, (visible, title_len, pid), r) ==> r == (visible
                && title_len >= 1 && pid >= 1),
{
}

/// The windows that take part are listed in the order of the system: what comes of
/// two lists is what comes of the first, then what comes of the second, and a
/// single window is listed or not.
pub proof fn law_windows_are_listed_in_order(
    first: Seq<WindowInfo>,
    rest: Seq<WindowInfo>,
    window: WindowInfo,
)
    ensures
        targets(first + rest) == targets(first) + targets(rest),
        targets(seq![window]) == if target(window) {
            seq![window.handle]
        } else {
            Seq::empty()
        },
        forall|windows: &Vec<WindowInfo>, r: Vec<isize>| #[trigger]
            call_ensures(target_windows, (windows,), r) ==> r@ == targets(windows@),
{
    let takes_part = |w: WindowInfo| target(w);
    let handle = |w: WindowInfo| w.handle;
    Seq::filter_distributes_over_add(first, rest, takes_part);
    assert(targets(first + rest) =~= targets(first) + targets(rest));
    reveal_with_fuel(Seq::filter, 2);
    assert(seq![window].drop_last() == Seq::<WindowInfo>::empty());
    if target(window) {
        assert(seq![window].filter(takes_part) =~= seq![window]);
        assert(targets(seq![window]) =~= seq![window.handle]);
    } else {
        assert(seq![window].filter(takes_part) =~= Seq::<WindowInfo>::empty());
        assert(targets(seq![window]) =~= Seq::<isize>::empty());
    }
}

/// The report: where no window failed it tells what was done and to how many; a
/// failure, be it one, is added behind, with how many failed and of how many.
pub proof fn law_report_tells_the_failures(action: Action, count: usize, failed: usize)
    requires
        action != Action::Nothing,
    ensures
        ({
            let all_well = report(ToggleResult { action, count, failed: 0 });
            let lead = if action == Action::Minimized {
                "已最小化 "@
            } else {
                "已还原 "@
            };
            &&& all_well == lead + decimal(count as nat) + " 个编辑器窗口"@
            &&& failed > 0 ==> report(ToggleResult { action, count, failed }) == all_well + (
            "（"@ + decimal(failed as nat) + "/"@ + decimal(count as nat)
                + " 个没成功：目标程序可能以管理员运行，本程序也需要管理员权限才能控制它）"@)
        }),
        forall|result: &ToggleResult, r: String| #[trigger]
            call_ensures(toggle_editors, (result,), r) ==> r@ == report(*result),
        report(ToggleResult { action: Action::Nothing, count, failed })
            == "没有检测到 VS Code / Visual Studio 窗口"@,
{
    let all_well = report(ToggleResult { action, count, failed: 0 });
    let lead = if action == Action::Minimized {
        "已最小化 "@
    } else {
        "已还原 "@
    };
    let done = lead + decimal(count as nat) + " 个编辑器窗口"@;
    assert(done + Seq::<char>::empty() == done);
    assert(all_well == done);
}

} // verus!
