//! The small window that shows the text: where it goes, when it goes away, and
//! what it shows.
use crate::selection::{
    ascend, has_text, law_nearest_text_wins, outcome_view, probed, valid_phase, Failure,
    FailureView, PhaseView, SelectionView, Snapshot, SnapshotView, SubjectView, MAX_ANCESTORS,
};
use crate::text::{blank, same, text_view};
use vstd::prelude::*;

verus! {

/// The label of the window.
pub const WIN_LABEL: &'static str = "main";

/// For so many milliseconds after it came up, the window ignores that it lost
/// the focus.
pub const FOCUS_GRACE_MS: u64 = 300;

// ── Where it goes ──

/// The part of a screen that is free for windows, by its edges.
#[derive(Clone, Copy, Debug, PartialEq, Eq, Structural)]
pub struct WorkArea {
    pub left: i32,
    pub top: i32,
    pub right: i32,
    pub bottom: i32,
}

/// The distance between the window and the edges of the screen.
pub const GAP: i64 = 8;

/// How far below the cursor the window starts.
pub const OFFSET_Y: i64 = 18;

/// The size of the window where the system does not tell it.
pub const DEFAULT_WIDTH: i64 = 560;

pub const DEFAULT_HEIGHT: i64 = 440;

/// A number of 32 bits taken as signed.
pub open spec fn signed(n: u32) -> int {
    if n < 0x8000_0000 {
        n as int
    } else {
        n - 0x1_0000_0000
    }
}

/// Half of a number, rounded towards zero.
pub open spec fn half(n: int) -> int {
    if n >= 0 {
        n / 2
    } else {
        -((-n) / 2)
    }
}

/// The width and height to go by.
pub open spec fn size_or_default(size: Option<(u32, u32)>) -> (int, int) {
    match size {
        Some((width, height)) => if width > 0 && height > 0 {
            (signed(width), signed(height))
        } else {
            (DEFAULT_WIDTH as int, DEFAULT_HEIGHT as int)
        },
        None => (DEFAULT_WIDTH as int, DEFAULT_HEIGHT as int),
    }
}

/// Where a window of that size goes: centred below the cursor, moved in from the
/// sides of the screen, and above the cursor where there is no room below.
pub open spec fn near_cursor(
    cursor: (i32, i32),
    size: (int, int),
    area: Option<WorkArea>,
) -> (int, int) {
    let (width, height) = size;
    let x = cursor.0 - half(width);
    let y = cursor.1 + OFFSET_Y;
    match area {
        None => (x, y),
        Some(area) => {
            let x = if x < area.left + GAP {
                area.left + GAP
            } else {
                x
            };
            let x = if x + width > area.right - GAP {
                area.right - width - GAP
            } else {
                x
            };
            let y = if y + height > area.bottom - GAP {
                cursor.1 - height - GAP
            } else {
                y
            };
            let y = if y < area.top + GAP {
                area.top + GAP
            } else {
                y
            };
            (x, y)
        },
    }
}

pub(crate) fn to_signed(n: u32) -> (r: i64)
    ensures
        r == signed(n),
{
    if n < 0x8000_0000 {
        n as i64
    } else {
        n as i64 - 0x1_0000_0000
    }
}

fn to_half(n: i64) -> (r: i64)
    requires
        n > i64::MIN,
    ensures
        r == half(n as int),
{
    if n >= 0 {
        n / 2
    } else {
        -((-n) / 2)
    }
}

/// The left and upper edge of the window, near the cursor. `size` is what the
/// system tells of the window's size, `area` the free part of the screen that the
/// cursor is on, where there is one.
pub fn place_near_cursor(
    cursor_x: i32,
    cursor_y: i32,
    size: Option<(u32, u32)>,
    area: Option<WorkArea>,
) -> (r: (i64, i64))
    ensures
        (r.0 as int, r.1 as int) == near_cursor(
            (cursor_x, cursor_y),
            size_or_default(size),
            area,
        ),
{
    let (width, height): (i64, i64) = match size {
        Some((width, height)) => if width > 0 && height > 0 {
            (to_signed(width), to_signed(height))
        } else {
            (DEFAULT_WIDTH, DEFAULT_HEIGHT)
        },
        None => (DEFAULT_WIDTH, DEFAULT_HEIGHT),
    };
    let mut x: i64 = cursor_x as i64 - to_half(width);
    let mut y: i64 = cursor_y as i64 + OFFSET_Y;
    if let Some(area) = area {
        if x < area.left as i64 + GAP {
            x = area.left as i64 + GAP;
        }
        if x + width > area.right as i64 - GAP {
            x = area.right as i64 - width - GAP;
        }
        if y + height > area.bottom as i64 - GAP {
            y = cursor_y as i64 - height - GAP;
        }
        if y < area.top as i64 + GAP {
            y = area.top as i64 + GAP;
        }
    }
    (x, y)
}

// ── When it goes away ──

/// What happens to a window.
#[derive(Clone, Copy, Debug, PartialEq, Eq, Structural)]
pub enum WindowEvent {
    /// It got the focus, or lost it.
    Focused(bool),
    /// Anything else.
    Other,
}

/// The window came up a moment ago. `shown_at` is when, where it is known.
pub open spec fn just_shown(shown_at: Option<u64>, now: u64) -> bool {
    shown_at matches Some(at) && now - at < FOCUS_GRACE_MS
}

/// A window is to be hidden: only the window with the text, when it loses the
/// focus while it is visible, but not in the moment after it came up.
pub open spec fn hides(
    label: Seq<char>,
    event: WindowEvent,
    shown_at: Option<u64>,
    now: u64,
    visible: bool,
) -> bool {
    label == WIN_LABEL@ && event == WindowEvent::Focused(false) && !just_shown(shown_at, now)
        && visible
}

/// Whether a window is to be hidden: only the window with the text, when it loses
/// the focus while it is visible, but not in the moment after it came up.
pub fn on_window_event(
    label: &str,
    event: WindowEvent,
    shown_at: Option<u64>,
    now: u64,
    visible: bool,
) -> (r: bool)
    ensures
        r == hides(label@, event, shown_at, now, visible),
{
    if !same(label, WIN_LABEL) {
        return false;
    }
    match event {
        WindowEvent::Focused(false) => {
            let recent = match shown_at {
                Some(at) => now.saturating_sub(at) < FOCUS_GRACE_MS,
                None => false,
            };
            !recent && visible
        },
        _ => false,
    }
}

/// The time in milliseconds, from the time since the epoch, where the clock is
/// not before it.
pub fn now_ms(since_epoch: Option<u128>) -> (r: u64)
    ensures
        match since_epoch {
            Some(ms) => r == ms % 0x1_0000_0000_0000_0000,
            None => r == 0,
        },
{
    match since_epoch {
        Some(ms) => (ms % 0x1_0000_0000_0000_0000) as u64,
        None => 0,
    }
}

/// Whether to go on running when the system asks the program to exit. The program
/// goes on when its last window is closed; an exit with a code is meant.
pub fn prevents_exit(code: Option<i32>) -> (r: bool)
    ensures
        r == (code is None),
{
    code.is_none()
}

/// What to do when the user asks for the selected text.
#[derive(Clone, Copy, Debug, PartialEq, Eq, Structural)]
pub enum ReadAction {
    /// Nothing, for want of the window.
    Ignore,
    /// Hide the window.
    Hide,
    /// Read the text.
    Read,
}

/// Decides what to do when the user asks for the selected text. `visible` tells
/// whether the window is visible, where there is one.
pub fn on_read_request(visible: Option<bool>) -> (r: ReadAction)
    ensures
        r == match visible {
            None => ReadAction::Ignore,
            Some(true) => ReadAction::Hide,
            Some(false) => ReadAction::Read,
        },
{
    match visible {
        None => ReadAction::Ignore,
        Some(visible) => if visible {
            ReadAction::Hide
        } else {
            ReadAction::Read
        },
    }
}

// ── What it shows ──

/// What the window shows: how a reading ended, and whether the text was copied.
#[derive(Debug)]
pub struct Frame {
    pub outcome: Result<Snapshot, Failure>,
    pub auto_copied: bool,
}

#[verifier::ext_equal]
pub struct FrameView {
    pub outcome: Result<SnapshotView, FailureView>,
    pub auto_copied: bool,
}

impl View for Frame {
    type V = FrameView;

    open spec fn view(&self) -> FrameView {
        FrameView { outcome: outcome_view(self.outcome), auto_copied: self.auto_copied }
    }
}

impl FrameView {
    /// The name of the event that brings the frame to the window.
    pub open spec fn event(self) -> Seq<char> {
        match self.outcome {
            Ok(_) => "ready"@,
            Err(_) => "failed"@,
        }
    }
}

impl Frame {
    /// The name of the event that brings the frame to the window.
    pub fn event(&self) -> (r: &'static str)
        ensures
            r@ == self@.event(),
    {
        match &self.outcome {
            Ok(_) => "ready",
            Err(_) => "failed",
        }
    }
}

impl Clone for Frame {
    fn clone(&self) -> (r: Frame)
        ensures
            r@ == self@,
    {
        let outcome = match &self.outcome {
            Ok(snapshot) => Ok(snapshot.clone()),
            Err(failure) => Err(failure.clone()),
        };
        Frame { outcome, auto_copied: self.auto_copied }
    }
}

/// The last frame, for a window that was not loaded when it was sent.
#[derive(Debug)]
pub struct LastFrame {
    frame: Option<Frame>,
}

impl View for LastFrame {
    type V = Option<FrameView>;

    closed spec fn view(&self) -> Option<FrameView> {
        match self.frame {
            Some(frame) => Some(frame@),
            None => None,
        }
    }
}

impl LastFrame {
    /// No frame yet.
    pub fn new() -> (r: LastFrame)
        ensures
            r@ is None,
    {
        LastFrame { frame: None }
    }

    /// Keeps a frame in place of the one before.
    pub fn keep(&mut self, frame: Frame)
        ensures
            final(self)@ == Some(frame@),
    {
        self.frame = Some(frame);
    }

    /// The frame that was kept last.
    pub fn last_selection(&self) -> (r: Option<Frame>)
        ensures
            match r {
                Some(frame) => self@ == Some(frame@),
                None => self@ is None,
            },
    {
        match &self.frame {
            Some(frame) => Some(frame.clone()),
            None => None,
        }
    }
}

/// What is done to show a frame.
#[derive(Clone, Copy, Debug, PartialEq, Eq, Structural)]
pub enum Step {
    /// Keep the frame, for a window that is not loaded yet.
    Keep,
    /// Send the frame to the window.
    Send,
    /// Put the window near the cursor.
    Place,
    /// Make the window visible.
    Show,
    /// Note the time.
    Stamp,
    /// Give the window the focus.
    Focus,
}

/// The frame, what to complain about in the log, and what to do, whether or not
/// the steps before succeed.
#[derive(Debug)]
pub struct Showing {
    pub frame: Frame,
    pub complaint: Option<String>,
    pub steps: Vec<Step>,
}

/// The text to copy before the window comes up: what was read.
pub open spec fn text_to_copy(outcome: Result<SnapshotView, FailureView>) -> Option<Seq<char>> {
    match outcome {
        Ok(snapshot) => Some(snapshot.text),
        Err(_) => None,
    }
}

/// The text to copy before the window comes up.
pub fn clipboard_text(outcome: &Result<Snapshot, Failure>) -> (r: Option<String>)
    ensures
        text_view(r) == text_to_copy(outcome_view(*outcome)),
{
    match outcome {
        Ok(snapshot) => Some(snapshot.text.clone()),
        Err(_) => None,
    }
}

/// Whether there is anything to copy.
pub fn write_clipboard(content: &str) -> (r: Result<(), String>)
    ensures
        match r {
            Ok(_) => content@.len() > 0,
            Err(error) => content@.len() == 0 && error@ == "内容为空"@,
        },
{
    if content.is_empty() {
        Err("内容为空".to_owned())
    } else {
        Ok(())
    }
}

/// What is said when the system refuses the copy.
pub fn clipboard_error(error: &str) -> (r: String)
    ensures
        r@ == "写剪贴板失败："@ + error@,
{
    "写剪贴板失败：".to_owned().concat(error)
}

/// The order in which a frame is shown: it is kept before it is sent, and sent
/// before the window comes up, so that the window never shows the frame before.
pub open spec fn show_order() -> Seq<Step> {
    seq![Step::Keep, Step::Send, Step::Place, Step::Show, Step::Stamp, Step::Focus]
}

/// Prepares to show how a reading ended. `copied` is what became of copying the
/// text, where there was one to copy; that it failed does not stop the showing.
pub fn show_popup_with(
    outcome: Result<Snapshot, Failure>,
    copied: Option<Result<(), String>>,
) -> (r: Showing)
    ensures
        r.frame@.outcome == outcome_view(outcome),
        r.frame@.auto_copied == (copied matches Some(Ok(_))),
        text_view(r.complaint) == match copied {
            Some(Err(error)) => Some("自动复制失败："@ + error@),
            _ => None,
        },
        r.steps@ == show_order(),
{
    let (auto_copied, complaint) = match copied {
        Some(Ok(_)) => (true, None),
        Some(Err(error)) => (false, Some("自动复制失败：".to_owned().concat(error.as_str()))),
        None => (false, None),
    };
    let steps = vec![Step::Keep, Step::Send, Step::Place, Step::Show, Step::Stamp, Step::Focus];
    Showing { frame: Frame { outcome, auto_copied }, complaint, steps }
}

// ── Laws ──

/// On a screen with room for it, the whole window is visible, at a distance from
/// all four edges.
pub proof fn law_window_stays_on_screen(cursor: (i32, i32), size: (int, int), area: WorkArea)
    requires
        size.0 >= 0,
        size.1 >= 0,
        size.0 + 2 * GAP <= area.right - area.left,
        size.1 + 2 * GAP <= area.bottom - area.top,
        cursor.1 <= area.bottom,
    ensures
        ({
            let (x, y) = near_cursor(cursor, size, Some(area));
            &&& area.left + GAP <= x
            &&& x + size.0 <= area.right - GAP
            &&& area.top + GAP <= y
            &&& y + size.1 <= area.bottom - GAP
        }),
{
}

/// Where there is room below the cursor, the window goes below it; else, where
/// there is room above, it goes above. Either way it does not cover the cursor.
pub proof fn law_window_leaves_cursor_free(cursor: (i32, i32), size: (int, int), area: WorkArea)
    requires
        area.top <= cursor.1,
    ensures
        ({
            let (x, y) = near_cursor(cursor, size, Some(area));
            if cursor.1 + OFFSET_Y + size.1 <= area.bottom - GAP {
                y == cursor.1 + OFFSET_Y
            } else {
                area.top + GAP <= cursor.1 - size.1 - GAP ==> y + size.1 == cursor.1 - GAP
            }
        }),
{
}

/// No other window is hidden for losing the focus: one could not work in the
/// settings otherwise.
pub proof fn law_other_windows_stay(
    label: Seq<char>,
    event: WindowEvent,
    shown_at: Option<u64>,
    now: u64,
    visible: bool,
)
    requires
        label != WIN_LABEL@,
    ensures
        !hides(label, event, shown_at, now, visible),
{
}

/// From the moment it came up, the window outlives the loss of the focus for the
/// time of grace, and not longer.
pub proof fn law_grace_after_showing(shown_at: u64, now: u64)
    requires
        shown_at <= now,
    ensures
        hides(WIN_LABEL@, WindowEvent::Focused(false), Some(shown_at), now, true) <==> now
            >= shown_at + FOCUS_GRACE_MS,
{
}

/// A frame is kept before it is sent, and sent before the window comes up; the
/// time is noted only once it is up.
pub proof fn law_sent_before_shown(steps: Seq<Step>, kept: int, sent: int, shown: int, noted: int)
    requires
        steps == show_order(),
        0 <= kept < steps.len() && steps[kept] == Step::Keep,
        0 <= sent < steps.len() && steps[sent] == Step::Send,
        0 <= shown < steps.len() && steps[shown] == Step::Show,
        0 <= noted < steps.len() && steps[noted] == Step::Stamp,
    ensures
        kept < sent < shown < noted,
{
}

/// What is copied, and what the window shows, is what is selected: the text of the
/// nearest element that has selected text.
pub proof fn law_selected_text_is_copied_and_shown(
    subject: SubjectView,
    own_pid: u32,
    levels: Seq<SelectionView>,
    at: int,
    shown: Showing,
)
    requires
        0 <= at < levels.len(),
        at <= MAX_ANCESTORS,
        has_text(levels[at]),
        forall|i: int| 0 <= i < at ==> !has_text(#[trigger] levels[i]),
        PhaseView::Done(shown.frame@.outcome) == ascend(
            PhaseView::Look { subject, level: 0, saw: false },
            own_pid,
            levels,
        ),
    ensures
        shown.frame@.outcome is Ok,
        shown.frame@.outcome->Ok_0.text == probed(levels[at])->Text_0,
        text_to_copy(shown.frame@.outcome) == Some(probed(levels[at])->Text_0),
{
    law_nearest_text_wins(subject, own_pid, levels, at);
}

/// Whatever is read can be copied: it is never empty.
pub proof fn law_what_is_read_can_be_copied(phase: PhaseView)
    requires
        valid_phase(phase),
    ensures
        phase matches PhaseView::Done(outcome) ==> (text_to_copy(outcome) matches Some(text)
            ==> text.len() > 0),
{
    if let PhaseView::Done(Ok(snapshot)) = phase {
        assert(!blank(snapshot.text));
    }
}

proof fn lemma_half(n: int)
    ensures
        n >= 0 ==> 0 <= n - 2 * half(n) <= 1,
        n < 0 ==> -1 <= n - 2 * half(n) <= 0,
{
}

/// A size of 32 bits counts as a signed number: as itself in the lower half, and
/// 2^32 less in the upper half.
pub proof fn law_size_is_signed(n: u32)
    ensures
        -0x8000_0000 <= signed(n) < 0x8000_0000,
        (n - signed(n)) % 0x1_0000_0000 == 0,
{
}

/// A point that far from the beginning is the middle of that width, up to one pixel.
pub open spec fn middle(width: int, far: int) -> bool {
    &&& width >= 0 ==> 0 <= width - 2 * far <= 1
    &&& width < 0 ==> -1 <= width - 2 * far <= 0
}

/// Where the window goes, from side to side: its middle is at the cursor, unless
/// it would come nearer than 8 to an edge of the screen; then it stops there. A
/// window that is too wide keeps the distance on the right.
pub proof fn law_window_is_centred_on_the_cursor(
    x: i32,
    y: i32,
    size: (u32, u32),
    area: Option<WorkArea>,
    r: (i64, i64),
)
    requires
        call_ensures(place_near_cursor, (x, y, Some(size), area), r),
        size.0 > 0,
        size.1 > 0,
    ensures
        area is None ==> middle(signed(size.0), x - r.0),
        area matches Some(screen) ==> {
            let width = signed(size.0);
            let left_limit = screen.left + 8;
            let right_limit = screen.right - 8 - width;
            &&& right_limit < left_limit ==> r.0 == right_limit
            &&& left_limit <= right_limit ==> {
                &&& left_limit <= r.0 <= right_limit
                &&& {
                    ||| middle(width, x - r.0)
                    ||| r.0 == left_limit && width - 2 * (x - r.0) >= 1
                    ||| r.0 == right_limit && width - 2 * (x - r.0) <= -1
                }
            }
        },
{
    lemma_half(signed(size.0));
}

/// Where the window goes, up and down: 18 below the cursor, if it then keeps a
/// distance of 8 to the lower edge; else its lower edge is 8 above the cursor; and
/// in no case does it come nearer than 8 to the upper edge.
pub proof fn law_window_is_below_or_above_the_cursor(
    x: i32,
    y: i32,
    size: (u32, u32),
    area: Option<WorkArea>,
    r: (i64, i64),
)
    requires
        call_ensures(place_near_cursor, (x, y, Some(size), area), r),
        size.0 > 0,
        size.1 > 0,
    ensures
        area is None ==> r.1 == y + 18,
        area matches Some(screen) ==> {
            let height = signed(size.1);
            let wished = if y + 18 + height + 8 <= screen.bottom {
                y + 18
            } else {
                y - 8 - height
            };
            &&& r.1 >= wished
            &&& r.1 >= screen.top + 8
            &&& r.1 == wished || r.1 == screen.top + 8
        },
{
}

/// A size that is unknown or empty counts as 560 by 440.
pub proof fn law_unknown_size_has_a_default(
    x: i32,
    y: i32,
    size: Option<(u32, u32)>,
    area: Option<WorkArea>,
    r: (i64, i64),
    by_default: (i64, i64),
)
    requires
        call_ensures(place_near_cursor, (x, y, size, area), r),
        call_ensures(place_near_cursor, (x, y, Some((560u32, 440u32)), area), by_default),
        size matches Some(s) ==> s.0 == 0 || s.1 == 0,
    ensures
        r == by_default,
{
}

/// When the window goes away: it is the window with the text, it is visible, it
/// just lost the focus, and it has been up for 300 milliseconds, if it is known
/// since when.
pub proof fn law_window_goes_when_the_focus_goes(
    label: &str,
    event: WindowEvent,
    shown_at: Option<u64>,
    now: u64,
    visible: bool,
    r: bool,
)
    requires
        call_ensures(on_window_event, (label, event, shown_at, now, visible), r),
    ensures
        r <==> {
            &&& label@ == "main"@
            &&& event == WindowEvent::Focused(false)
            &&& visible
            &&& shown_at matches Some(at) ==> at + 300 <= now
        },
{
}

/// The clock: a time that fits is taken as it is, and one before the epoch as zero.
pub proof fn law_time_is_taken_as_it_is(since_epoch: Option<u128>, r: u64)
    requires
        call_ensures(now_ms, (since_epoch,), r),
    ensures
        since_epoch is None ==> r == 0,
        since_epoch matches Some(ms) ==> (ms <= u64::MAX ==> r == ms) && (ms - r)
            % 0x1_0000_0000_0000_0000 == 0,
{
}

/// The program ends only when it is told to, with whatever code.
pub proof fn law_only_a_code_ends_the_program(code: Option<i32>, r: bool)
    requires
        call_ensures(prevents_exit, (code,), r),
    ensures
        r <==> code is None,
{
}

/// Asking for the text while it is shown takes it away; asking while it is not
/// reads it.
pub proof fn law_asking_twice_hides(visible: Option<bool>, r: ReadAction)
    requires
        call_ensures(on_read_request, (visible,), r),
    ensures
        r == ReadAction::Hide <==> visible == Some(true),
        r == ReadAction::Read <==> visible == Some(false),
{
}

/// What is shown is what was read, with the copy told as done only if it was done;
/// a failed copy is complained of and stops nothing: every frame is kept, sent,
/// placed, shown, stamped and given the focus, once each and in this order.
pub proof fn law_every_outcome_is_shown(
    outcome: Result<Snapshot, Failure>,
    copied: Option<Result<(), String>>,
    r: Showing,
    to_copy: Option<String>,
)
    requires
        call_ensures(show_popup_with, (outcome, copied), r),
        call_ensures(clipboard_text, (&outcome,), to_copy),
    ensures
        match outcome {
            Ok(snapshot) => {
                &&& r.frame.outcome matches Ok(shown) && shown@ == snapshot@
                &&& to_copy is Some
                &&& to_copy->0@ == snapshot.text@
            },
            Err(failure) => {
                &&& r.frame.outcome matches Err(shown) && shown@ == failure@
                &&& to_copy is None
            },
        },
        r.frame.auto_copied <==> copied is Some && copied->0 is Ok,
        match copied {
            Some(Err(error)) => r.complaint is Some && r.complaint->0@ == "自动复制失败："@ + error@,
            _ => r.complaint is None,
        },
        r.steps@.len() == 6,
        r.steps@[0] == Step::Keep,
        r.steps@[1] == Step::Send,
        r.steps@[2] == Step::Place,
        r.steps@[3] == Step::Show,
        r.steps@[4] == Step::Stamp,
        r.steps@[5] == Step::Focus,
{
}

/// The window can tell a text from a failure by the name of the event.
pub proof fn law_event_tells_the_outcome(frame: &Frame, r: &'static str)
    requires
        call_ensures(Frame::event, (frame,), r),
    ensures
        frame.outcome is Ok ==> r@ == "ready"@,
        frame.outcome is Err ==> r@ == "failed"@,
{
}

/// Every text but the empty one can be copied, white space too; and what the
/// system says against it is told whole.
pub proof fn law_only_empty_text_is_not_copied(
    content: &str,
    r: Result<(), String>,
    error: &str,
    told: String,
)
    requires
        call_ensures(write_clipboard, (content,), r),
        call_ensures(clipboard_error, (error,), told),
    ensures
        r is Ok <==> content@.len() >= 1,
        r matches Err(reason) ==> reason@ == "内容为空"@,
        told@ == "写剪贴板失败："@ + error@,
{
}

/// The frame that was kept last is given back, as often as it is asked for, and no
/// other; before the first there is none.
pub proof fn law_latest_frame_is_given_back(frame: Frame)
    ensures
        forall|last: &mut LastFrame, given: Option<Frame>|
            #![trigger call_ensures(LastFrame::keep, (last, frame), ()), call_ensures(
                LastFrame::last_selection,
                (&*final(last),),
                given,
            )]
            call_ensures(LastFrame::keep, (last, frame), ()) && call_ensures(
                LastFrame::last_selection,
                (&*final(last),),
                given,
            ) ==> given is Some && given->0@ == frame@,
        forall|last: LastFrame, given: Option<Frame>|
            #![trigger call_ensures(LastFrame::new, (), last), call_ensures(
                LastFrame::last_selection,
                (&last,),
                given,
            )]
            call_ensures(LastFrame::new, (), last) && call_ensures(
                LastFrame::last_selection,
                (&last,),
                given,
            ) ==> given is None,
{
}

} // verus!
