//! The notice that the program runs in the background.
use crate::config::{Config, ConfigView};
use crate::popup::{signed, to_signed, WorkArea};
use crate::text::error_view;
use vstd::prelude::*;

verus! {

/// The label of the window.
pub const TOAST_LABEL: &'static str = "toast";

/// How long the notice stays, in milliseconds.
pub const VISIBLE_MS: u64 = 5000;

/// How long the notice waits for its window to load, in milliseconds.
pub const STARTUP_DELAY_MS: u64 = 600;

/// The distance between the notice and the edges of the screen.
pub const MARGIN: i64 = 18;

/// What the notice says.
#[derive(Debug)]
pub struct ToastText {
    pub app_name: &'static str,
    pub title: &'static str,
    pub body: String,
}

/// What is done to show the notice.
#[derive(Clone, Copy, Debug, PartialEq, Eq, Structural)]
pub enum NoticeStep {
    /// Send the text to the window.
    Send,
    /// Put the window into the corner.
    Place,
    /// Make the window visible.
    Show,
    /// Write to the log that the notice is up.
    Report,
    /// Hide the window after so many milliseconds, without waiting for it here.
    HideAfter(u64),
}

/// The notice, and what to do, whether or not the steps before succeed.
#[derive(Debug)]
pub struct Notice {
    pub text: ToastText,
    pub steps: Vec<NoticeStep>,
}

/// The order in which the notice is shown: its text is sent and the window is in
/// its place before it comes up, so that nothing old is seen; and it goes away
/// again by itself.
pub open spec fn notice_order() -> Seq<NoticeStep> {
    seq![
        NoticeStep::Send,
        NoticeStep::Place,
        NoticeStep::Show,
        NoticeStep::Report,
        NoticeStep::HideAfter(VISIBLE_MS),
    ]
}

/// Prepares to show the notice, given the shortcut that reads the selected text.
pub fn show(hotkey: &str) -> (r: Notice)
    ensures
        r.text.app_name@ == "text-snap 划词助手"@,
        r.text.title@ == "已在后台运行"@,
        r.text.body@ == "按 "@ + hotkey@ + " 读取选中文本，右键托盘图标打开菜单。"@,
        r.steps@ == notice_order(),
{
    let text = ToastText {
        app_name: "text-snap 划词助手",
        title: "已在后台运行",
        body: "按 ".to_owned().concat(hotkey).concat(
            " 读取选中文本，右键托盘图标打开菜单。",
        ),
    };
    let steps = vec![
        NoticeStep::Send,
        NoticeStep::Place,
        NoticeStep::Show,
        NoticeStep::Report,
        NoticeStep::HideAfter(VISIBLE_MS),
    ];
    Notice { text, steps }
}

/// What becomes of the notice at startup.
#[derive(Debug)]
pub enum StartupToast {
    /// It is shown after so many milliseconds.
    Show { delay_ms: u64 },
    /// It is not wanted.
    Skip,
    /// Its window could not be made; what to log.
    Report(String),
}

pub enum StartupToastView {
    Show { delay_ms: u64 },
    Skip,
    Report(Seq<char>),
}

impl View for StartupToast {
    type V = StartupToastView;

    open spec fn view(&self) -> StartupToastView {
        match *self {
            StartupToast::Show { delay_ms } => StartupToastView::Show { delay_ms },
            StartupToast::Skip => StartupToastView::Skip,
            StartupToast::Report(line) => StartupToastView::Report(line@),
        }
    }
}

pub open spec fn startup(
    cfg: ConfigView,
    created: Result<(), Seq<char>>,
) -> StartupToastView {
    match created {
        Err(error) => StartupToastView::Report(
            "创建通知窗口失败："@ + error
                + "（本次运行不显示启动提示，其余功能不受影响）"@,
        ),
        Ok(_) => if cfg.show_startup_toast {
            StartupToastView::Show { delay_ms: STARTUP_DELAY_MS }
        } else {
            StartupToastView::Skip
        },
    }
}

/// Decides what becomes of the notice, once its window was made or not.
pub fn show_startup(cfg: &Config, created: Result<(), String>) -> (r: StartupToast)
    ensures
        r@ == startup(cfg@, error_view(created)),
{
    match created {
        Err(error) => StartupToast::Report(
            "创建通知窗口失败：".to_owned().concat(error.as_str()).concat(
                "（本次运行不显示启动提示，其余功能不受影响）",
            ),
        ),
        Ok(_) => if cfg.show_startup_toast {
            StartupToast::Show { delay_ms: STARTUP_DELAY_MS }
        } else {
            StartupToast::Skip
        },
    }
}

/// The lower right corner of a screen, for a window of that size.
pub open spec fn bottom_right(area: WorkArea, size: (int, int)) -> (int, int) {
    (area.right - size.0 - MARGIN, area.bottom - size.1 - MARGIN)
}

/// Where the notice goes: to the lower right corner of the screen, where both the
/// screen and the size of the notice are known.
pub fn position_bottom_right(
    area: Option<WorkArea>,
    size: Option<(u32, u32)>,
) -> (r: Option<(i64, i64)>)
    ensures
        match (area, size) {
            (Some(area), Some((width, height))) => r matches Some(at) && (
                at.0 as int,
                at.1 as int,
            ) == bottom_right(area, (signed(width), signed(height))),
            _ => r is None,
        },
{
    match (area, size) {
        (Some(area), Some((width, height))) => Some(
            (
                area.right as i64 - to_signed(width) - MARGIN,
                area.bottom as i64 - to_signed(height) - MARGIN,
            ),
        ),
        _ => None,
    }
}

/// The text is sent, and the window put into its place, before the notice comes
/// up; it is hidden once it has been up for its time, and is not shown again.
pub proof fn law_notice_shows_new_text_and_goes(
    steps: Seq<NoticeStep>,
    sent: int,
    placed: int,
    shown: int,
    hidden: int,
    ms: u64,
)
    requires
        steps == notice_order(),
        0 <= sent < steps.len() && steps[sent] == NoticeStep::Send,
        0 <= placed < steps.len() && steps[placed] == NoticeStep::Place,
        0 <= shown < steps.len() && steps[shown] == NoticeStep::Show,
        0 <= hidden < steps.len() && steps[hidden] == NoticeStep::HideAfter(ms),
    ensures
        sent < placed < shown < hidden,
        ms == VISIBLE_MS,
        hidden == steps.len() - 1,
{
}

/// On a screen with room for it, the whole notice is visible, at a distance from
/// the edges.
pub proof fn law_notice_is_on_screen(area: WorkArea, size: (int, int))
    requires
        0 <= size.0 <= area.right - area.left - 2 * MARGIN,
        0 <= size.1 <= area.bottom - area.top - 2 * MARGIN,
    ensures
        ({
            let (x, y) = bottom_right(area, size);
            &&& area.left + MARGIN <= x
            &&& area.top + MARGIN <= y
            &&& x + size.0 == area.right - MARGIN
            &&& y + size.1 == area.bottom - MARGIN
        }),
{
}

/// The notice tells the shortcut as it is written, and whatever it is, the notice
/// is sent, placed, shown, reported and hidden after five seconds, in this order.
pub proof fn law_notice_tells_the_shortcut(hotkey: &str, r: Notice)
    requires
        call_ensures(show, (hotkey,), r),
    ensures
        r.text.body@ == "按 "@ + hotkey@ + " 读取选中文本，右键托盘图标打开菜单。"@,
        r.steps@.len() == 5,
        r.steps@[0] == NoticeStep::Send,
        r.steps@[1] == NoticeStep::Place,
        r.steps@[2] == NoticeStep::Show,
        r.steps@[3] == NoticeStep::Report,
        r.steps@[4] == NoticeStep::HideAfter(5000),
{
}

/// The notice is shown at startup exactly when the user wants it and its window
/// could be made; that it could not is reported, wanted or not, with the reason.
pub proof fn law_notice_is_shown_if_wanted(
    cfg: &Config,
    created: Result<(), String>,
    r: StartupToast,
)
    requires
        call_ensures(show_startup, (cfg, created), r),
    ensures
        r is Show <==> created is Ok && cfg.show_startup_toast,
        r is Skip <==> created is Ok && !cfg.show_startup_toast,
        r matches StartupToast::Show { delay_ms } ==> delay_ms == 600,
        r matches StartupToast::Report(line) ==> created is Err && line@
            == "创建通知窗口失败："@ + created->Err_0@
            + "（本次运行不显示启动提示，其余功能不受影响）"@,
{
}

/// The notice ends 18 before the right and the lower edge of the screen, whatever
/// its size; without a screen or a size it stays where it is.
pub proof fn law_notice_is_in_the_corner(
    area: Option<WorkArea>,
    size: Option<(u32, u32)>,
    r: Option<(i64, i64)>,
)
    requires
        call_ensures(position_bottom_right, (area, size), r),
    ensures
        r is Some <==> area is Some && size is Some,
        match (area, size, r) {
            (Some(screen), Some((width, height)), Some((x, y))) => {
                &&& x + signed(width) + 18 == screen.right
                &&& y + signed(height) + 18 == screen.bottom
            },
            _ => true,
        },
{
}

} // verus!
