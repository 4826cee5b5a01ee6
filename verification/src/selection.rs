//! Reading the text that is selected in the window with the keyboard focus.
//!
//! The system is asked through its accessibility interface. [`Reader`] says what
//! to ask next, takes the answer, and ends with the text or with the reason why
//! there is none. The selection may hang on an ancestor of the element with the
//! focus, so the reader climbs from one to the next.
use crate::text::{
    after_separator, blank, contains, error_view, file_name, holds, holds_at,
    law_holding_is_being_cut_out, law_name_follows_directory, lemma_trimmed_empty, slice_view,
    text_view, trim, trimmed,
};
use vstd::prelude::*;

verus! {

/// How many ancestors of the element with the focus are looked at, besides that
/// element itself.
pub const MAX_ANCESTORS: usize = 6;

/// The selected text, and where it was found.
#[derive(Debug)]
pub struct Snapshot {
    pub text: String,
    /// The file name of the program.
    pub process: String,
    /// The kind of element that has the focus.
    pub control: String,
    /// The class of the window that has the focus.
    pub class: String,
}

/// Why no text could be read, and where it was sought.
#[derive(Debug)]
pub struct Failure {
    pub message: String,
    pub process: String,
    pub control: String,
    pub class: String,
}

#[verifier::ext_equal]
pub struct SnapshotView {
    pub text: Seq<char>,
    pub process: Seq<char>,
    pub control: Seq<char>,
    pub class: Seq<char>,
}

#[verifier::ext_equal]
pub struct FailureView {
    pub message: Seq<char>,
    pub process: Seq<char>,
    pub control: Seq<char>,
    pub class: Seq<char>,
}

impl View for Snapshot {
    type V = SnapshotView;

    open spec fn view(&self) -> SnapshotView {
        SnapshotView {
            text: self.text@,
            process: self.process@,
            control: self.control@,
            class: self.class@,
        }
    }
}

impl View for Failure {
    type V = FailureView;

    open spec fn view(&self) -> FailureView {
        FailureView {
            message: self.message@,
            process: self.process@,
            control: self.control@,
            class: self.class@,
        }
    }
}

impl Clone for Snapshot {
    fn clone(&self) -> (r: Snapshot)
        ensures
            r@ == self@,
    {
        Snapshot {
            text: self.text.clone(),
            process: self.process.clone(),
            control: self.control.clone(),
            class: self.class.clone(),
        }
    }
}

impl Clone for Failure {
    fn clone(&self) -> (r: Failure)
        ensures
            r@ == self@,
    {
        Failure {
            message: self.message.clone(),
            process: self.process.clone(),
            control: self.control.clone(),
            class: self.class.clone(),
        }
    }
}

// ── One element ──

/// What an element says of its selection.
#[derive(Debug)]
pub enum Selection {
    /// It has no text interface.
    NoPattern,
    /// It has one, which does not tell the selection.
    NoRanges,
    /// The text of each selected range, where it can be told.
    Ranges(Vec<Option<String>>),
}

/// What an element is good for.
#[derive(Debug)]
pub enum Probe {
    /// It has selected text.
    Text(String),
    /// It has a text interface, but nothing is selected.
    Empty,
    /// It has no text interface.
    Missing,
}

#[verifier::ext_equal]
pub enum ProbeView {
    Text(Seq<char>),
    Empty,
    Missing,
}

pub enum SelectionView {
    NoPattern,
    NoRanges,
    Ranges(Seq<Option<Seq<char>>>),
}

pub open spec fn range_views(ranges: Seq<Option<String>>) -> Seq<Option<Seq<char>>> {
    ranges.map_values(|range: Option<String>| text_view(range))
}

impl View for Selection {
    type V = SelectionView;

    open spec fn view(&self) -> SelectionView {
        match *self {
            Selection::NoPattern => SelectionView::NoPattern,
            Selection::NoRanges => SelectionView::NoRanges,
            Selection::Ranges(ranges) => SelectionView::Ranges(range_views(ranges@)),
        }
    }
}

impl View for Probe {
    type V = ProbeView;

    open spec fn view(&self) -> ProbeView {
        match *self {
            Probe::Text(text) => ProbeView::Text(text@),
            Probe::Empty => ProbeView::Empty,
            Probe::Missing => ProbeView::Missing,
        }
    }
}

/// Two texts, the second on a new line.
pub open spec fn on_new_line(first: Seq<char>, second: Seq<char>) -> Seq<char> {
    if first.len() == 0 || first.last() == '\n' {
        first + second
    } else {
        first.push('\n') + second
    }
}

/// The ranges one after the other, each on a new line. Empty ranges and those
/// whose text cannot be told are left out.
pub open spec fn joined(ranges: Seq<Option<Seq<char>>>) -> Seq<char>
    decreases ranges.len(),
{
    if ranges.len() == 0 {
        Seq::empty()
    } else {
        let before = joined(ranges.drop_last());
        match ranges.last() {
            Some(text) => if text.len() == 0 {
                before
            } else {
                on_new_line(before, text)
            },
            None => before,
        }
    }
}

pub open spec fn probed(selection: SelectionView) -> ProbeView {
    match selection {
        SelectionView::NoPattern => ProbeView::Missing,
        SelectionView::NoRanges => ProbeView::Empty,
        SelectionView::Ranges(ranges) => if trimmed(joined(ranges)).len() == 0 {
            ProbeView::Empty
        } else {
            ProbeView::Text(joined(ranges))
        },
    }
}

fn ends_line(text: &str) -> (r: bool)
    ensures
        r == (text@.len() == 0 || text@.last() == '\n'),
{
    let len: usize = text.unicode_len();
    len == 0 || text.get_char(len - 1) == '\n'
}

fn join(ranges: &Vec<Option<String>>) -> (r: String)
    ensures
        r@ == joined(range_views(ranges@)),
{
    let mut r = String::new();
    let ghost all = range_views(ranges@);
    let mut i: usize = 0;
    while i < ranges.len()
        invariant
            all == range_views(ranges@),
            i <= ranges.len(),
            r@ == joined(all.take(i as int)),
        decreases ranges.len() - i,
    {
        assert(all.take(i + 1).drop_last() == all.take(i as int));
        if let Some(text) = &ranges[i] {
            if !text.as_str().is_empty() {
                if !ends_line(r.as_str()) {
                    r.push('\n');
                }
                r.append(text.as_str());
            }
        }
        i = i + 1;
    }
    assert(all.take(all.len() as int) == all);
    r
}

/// Judges an element by its selection. That nothing is selected is another thing
/// than that the element has no text at all: the user is told different things.
pub fn probe(selection: &Selection) -> (r: Probe)
    ensures
        r@ == probed(selection@),
{
    match selection {
        Selection::NoPattern => Probe::Missing,
        Selection::NoRanges => Probe::Empty,
        Selection::Ranges(ranges) => {
            let text = join(ranges);
            if trim(text.as_str()).is_empty() {
                Probe::Empty
            } else {
                Probe::Text(text)
            }
        },
    }
}

// ── What the user is told ──

/// The class of a window that belongs to the taskbar or the tray.
pub open spec fn shell_chrome(class: Seq<char>) -> bool {
    ||| holds(class, "SystemTray"@)
    ||| holds(class, "Shell_TrayWnd"@)
    ||| holds(class, "TrayNotifyWnd"@)
    ||| holds(class, "TaskListThumbnailWnd"@)
}

/// Whether a window class belongs to the taskbar or the tray.
pub fn is_shell_chrome(class: &str) -> (r: bool)
    ensures
        r == shell_chrome(class@),
{
    contains(class, "SystemTray") || contains(class, "Shell_TrayWnd") || contains(
        class,
        "TrayNotifyWnd",
    ) || contains(class, "TaskListThumbnailWnd")
}

pub open spec fn explanation(control: Seq<char>, class: Seq<char>, saw_text_pattern: bool) -> Seq<
    char,
> {
    let who = "控件类型 "@ + control + "，类名 "@ + class;
    if shell_chrome(class) {
        "焦点落在任务栏/托盘区域上了（"@ + who
            + "），那里没有可读的文本。\n用托盘图标触发读取时很容易这样。\n回到要划词的程序、重新选中一段文字，再按一次快捷键。"@
    } else if saw_text_pattern {
        "焦点元素支持 UI Automation 文本模式，但当前没有选中任何文本（"@ + who
            + "）。\n先选中一段文字，再按快捷键。"@
    } else {
        "这个控件没有暴露 UI Automation 文本模式（TextPattern），读不到选中文本（"@ + who
            + "）。\n常见原因：\n· 该程序未开启无障碍支持 —— VS Code 需要 editor.accessibilitySupport 生效\n· 目标程序以管理员身份运行，权限高于本程序（UIPI 拦截）\n· 焦点不在可编辑的文本区域上"@
    }
}

/// Says why there is no text, in words that tell the user what to do.
pub fn explain(control: &str, class: &str, saw_text_pattern: bool) -> (r: String)
    ensures
        r@ == explanation(control@, class@, saw_text_pattern),
{
    let who = "控件类型 ".to_owned().concat(control).concat("，类名 ").concat(class);
    if is_shell_chrome(class) {
        "焦点落在任务栏/托盘区域上了（".to_owned().concat(who.as_str()).concat(
            "），那里没有可读的文本。\n用托盘图标触发读取时很容易这样。\n回到要划词的程序、重新选中一段文字，再按一次快捷键。",
        )
    } else if saw_text_pattern {
        "焦点元素支持 UI Automation 文本模式，但当前没有选中任何文本（".to_owned().concat(
            who.as_str(),
        ).concat("）。\n先选中一段文字，再按快捷键。")
    } else {
        "这个控件没有暴露 UI Automation 文本模式（TextPattern），读不到选中文本（".to_owned().concat(
            who.as_str(),
        ).concat(
            "）。\n常见原因：\n· 该程序未开启无障碍支持 —— VS Code 需要 editor.accessibilitySupport 生效\n· 目标程序以管理员身份运行，权限高于本程序（UIPI 拦截）\n· 焦点不在可编辑的文本区域上",
        )
    }
}

/// The file name of a program, from its process and the path of its image, or
/// nothing where either is unknown.
pub open spec fn program_name(pid: u32, image: Option<Seq<char>>) -> Seq<char> {
    match image {
        Some(path) => if pid == 0 {
            Seq::empty()
        } else {
            after_separator(path)
        },
        None => Seq::empty(),
    }
}

/// Names the program of a process, from the path of its image.
pub fn exe_name(pid: u32, image: Option<&str>) -> (r: String)
    ensures
        r@ == program_name(pid, slice_view(image)),
{
    match image {
        Some(path) => if pid == 0 {
            String::new()
        } else {
            file_name(path).to_owned()
        },
        None => String::new(),
    }
}

// ── The reader ──

/// The element with the focus.
#[derive(Debug)]
pub struct Subject {
    pub process: String,
    pub control: String,
    pub class: String,
}

#[verifier::ext_equal]
pub struct SubjectView {
    pub process: Seq<char>,
    pub control: Seq<char>,
    pub class: Seq<char>,
}

impl View for Subject {
    type V = SubjectView;

    open spec fn view(&self) -> SubjectView {
        SubjectView { process: self.process@, control: self.control@, class: self.class@ }
    }
}

/// What the reader waits for.
#[derive(Debug)]
pub enum Phase {
    /// The accessibility client is to be made.
    Client,
    /// The element with the focus is to be found.
    Focus,
    /// The focus is on a window of this program, whose name is wanted.
    OwnWindow { pid: u32 },
    /// The element with the focus is to be described.
    Describe { pid: u32 },
    /// The selection of the current element is wanted. `level` elements were
    /// looked at before it; `saw` tells whether one of them had a text interface.
    Look { subject: Subject, level: usize, saw: bool },
    /// The parent of the current element is wanted.
    Climb { subject: Subject, level: usize, saw: bool },
    /// The reading is over.
    Done(Result<Snapshot, Failure>),
}

#[verifier::ext_equal]
pub enum PhaseView {
    Client,
    Focus,
    OwnWindow { pid: u32 },
    Describe { pid: u32 },
    Look { subject: SubjectView, level: nat, saw: bool },
    Climb { subject: SubjectView, level: nat, saw: bool },
    Done(Result<SnapshotView, FailureView>),
}

pub open spec fn outcome_view(outcome: Result<Snapshot, Failure>) -> Result<
    SnapshotView,
    FailureView,
> {
    match outcome {
        Ok(snapshot) => Ok(snapshot@),
        Err(failure) => Err(failure@),
    }
}

impl View for Phase {
    type V = PhaseView;

    open spec fn view(&self) -> PhaseView {
        match *self {
            Phase::Client => PhaseView::Client,
            Phase::Focus => PhaseView::Focus,
            Phase::OwnWindow { pid } => PhaseView::OwnWindow { pid },
            Phase::Describe { pid } => PhaseView::Describe { pid },
            Phase::Look { subject, level, saw } => PhaseView::Look {
                subject: subject@,
                level: level as nat,
                saw,
            },
            Phase::Climb { subject, level, saw } => PhaseView::Climb {
                subject: subject@,
                level: level as nat,
                saw,
            },
            Phase::Done(outcome) => PhaseView::Done(outcome_view(outcome)),
        }
    }
}

/// What the system answers.
#[derive(Debug)]
pub enum Reply {
    /// The client was made, or why not.
    Client(Result<(), String>),
    /// The process of the element with the focus, where it can be told, or why
    /// there is no such element.
    Focus(Result<Option<u32>, String>),
    /// The path of a program, where it can be told.
    Image(Option<String>),
    /// The path of the program, the kind of element and the window class, where
    /// they can be told.
    Description { image: Option<String>, control: Option<String>, class: Option<String> },
    /// The selection of the current element.
    Selection(Selection),
    /// Whether there was a parent to go to.
    Parent(bool),
}

pub enum ReplyView {
    Client(Result<(), Seq<char>>),
    Focus(Result<Option<u32>, Seq<char>>),
    Image(Option<Seq<char>>),
    Description {
        image: Option<Seq<char>>,
        control: Option<Seq<char>>,
        class: Option<Seq<char>>,
    },
    Selection(SelectionView),
    Parent(bool),
}

impl View for Reply {
    type V = ReplyView;

    open spec fn view(&self) -> ReplyView {
        match *self {
            Reply::Client(r) => ReplyView::Client(error_view(r)),
            Reply::Focus(r) => ReplyView::Focus(error_view(r)),
            Reply::Image(image) => ReplyView::Image(text_view(image)),
            Reply::Description { image, control, class } => ReplyView::Description {
                image: text_view(image),
                control: text_view(control),
                class: text_view(class),
            },
            Reply::Selection(selection) => ReplyView::Selection(selection@),
            Reply::Parent(found) => ReplyView::Parent(found),
        }
    }
}

pub open spec fn or_empty(text: Option<Seq<char>>) -> Seq<char> {
    match text {
        Some(text) => text,
        None => Seq::empty(),
    }
}

/// A failure before the element with the focus is known.
pub open spec fn early_failure(message: Seq<char>, process: Seq<char>) -> PhaseView {
    PhaseView::Done(
        Err(FailureView { message, process, control: Seq::empty(), class: Seq::empty() }),
    )
}

/// The end of a climb that found nothing.
pub open spec fn nothing_found(subject: SubjectView, saw: bool) -> PhaseView {
    PhaseView::Done(
        Err(
            FailureView {
                message: explanation(subject.control, subject.class, saw),
                process: subject.process,
                control: subject.control,
                class: subject.class,
            },
        ),
    )
}

pub open spec fn found(subject: SubjectView, text: Seq<char>) -> PhaseView {
    PhaseView::Done(
        Ok(
            SnapshotView {
                text,
                process: subject.process,
                control: subject.control,
                class: subject.class,
            },
        ),
    )
}

/// After an element without selected text: on to its parent, as long as there
/// are levels left.
pub open spec fn not_here(subject: SubjectView, level: nat, saw: bool) -> PhaseView {
    if level >= MAX_ANCESTORS {
        nothing_found(subject, saw)
    } else {
        PhaseView::Climb { subject, level: level + 1, saw }
    }
}

/// The reply that the phase waits for.
pub open spec fn answers(phase: PhaseView, reply: ReplyView) -> bool {
    match phase {
        PhaseView::Client => reply is Client,
        PhaseView::Focus => reply is Focus,
        PhaseView::OwnWindow { .. } => reply is Image,
        PhaseView::Describe { .. } => reply is Description,
        PhaseView::Look { .. } => reply is Selection,
        PhaseView::Climb { .. } => reply is Parent,
        PhaseView::Done(_) => false,
    }
}

/// What follows a reply, for a program whose own process is `own_pid`. A reply
/// that the phase does not wait for changes nothing.
pub open spec fn next_phase(phase: PhaseView, own_pid: u32, reply: ReplyView) -> PhaseView {
    match (phase, reply) {
        (PhaseView::Client, ReplyView::Client(Ok(_))) => PhaseView::Focus,
        (PhaseView::Client, ReplyView::Client(Err(error))) => early_failure(
            "初始化 UI Automation 客户端失败："@ + error,
            Seq::empty(),
        ),
        (PhaseView::Focus, ReplyView::Focus(Err(error))) => early_failure(
            "取不到当前焦点元素："@ + error,
            Seq::empty(),
        ),
        (PhaseView::Focus, ReplyView::Focus(Ok(process))) => {
            let pid = match process {
                Some(pid) => pid,
                None => 0u32,
            };
            if pid == own_pid {
                PhaseView::OwnWindow { pid }
            } else {
                PhaseView::Describe { pid }
            }
        },
        (PhaseView::OwnWindow { pid }, ReplyView::Image(image)) => early_failure(
            "焦点还在 text-snap 自己的窗口上。请先回到要划词的程序，再按一次快捷键。"@,
            program_name(pid, image),
        ),
        (PhaseView::Describe { pid }, ReplyView::Description { image, control, class }) =>
            PhaseView::Look {
            subject: SubjectView {
                process: program_name(pid, image),
                control: or_empty(control),
                class: or_empty(class),
            },
            level: 0,
            saw: false,
        },
        (PhaseView::Look { subject, level, saw }, ReplyView::Selection(selection)) => match probed(
            selection,
        ) {
            ProbeView::Text(text) => found(subject, text),
            ProbeView::Empty => not_here(subject, level, true),
            ProbeView::Missing => not_here(subject, level, saw),
        },
        (PhaseView::Climb { subject, level, saw }, ReplyView::Parent(true)) => PhaseView::Look {
            subject,
            level,
            saw,
        },
        (PhaseView::Climb { subject, level, saw }, ReplyView::Parent(false)) => nothing_found(
            subject,
            saw,
        ),
        _ => phase,
    }
}

pub open spec fn first_phase(ready: bool) -> PhaseView {
    if ready {
        PhaseView::Focus
    } else {
        PhaseView::Client
    }
}

/// Reads the selected text, one question to the system at a time.
#[derive(Debug)]
pub struct Reader {
    own_pid: u32,
    ready: bool,
    phase: Phase,
}

impl Reader {
    /// The process of this program.
    pub closed spec fn own_pid(self) -> u32 {
        self.own_pid
    }

    /// Whether the accessibility client was made.
    pub closed spec fn ready(self) -> bool {
        self.ready
    }

    pub closed spec fn phase(self) -> PhaseView {
        self.phase@
    }

    /// A reader for the program with that process. The client is made when it is
    /// first needed.
    pub fn new(own_pid: u32) -> (r: Reader)
        ensures
            r.own_pid() == own_pid,
            !r.ready(),
            r.phase() == PhaseView::Client,
    {
        Reader { own_pid, ready: false, phase: Phase::Client }
    }

    /// Starts to read. The client is made once and then kept.
    pub fn read(&mut self)
        ensures
            final(self).own_pid() == old(self).own_pid(),
            final(self).ready() == old(self).ready(),
            final(self).phase() == first_phase(old(self).ready()),
    {
        self.phase = if self.ready {
            Phase::Focus
        } else {
            Phase::Client
        };
    }

    /// What to ask the system next, or how the reading ended.
    pub fn waits_for(&self) -> (r: &Phase)
        ensures
            r@ == self.phase(),
    {
        &self.phase
    }

    fn fail(message: String, process: String) -> (r: Phase)
        ensures
            r@ == early_failure(message@, process@),
    {
        Phase::Done(Err(Failure { message, process, control: String::new(), class: String::new() }))
    }

    fn give_up(subject: Subject, saw: bool) -> (r: Phase)
        ensures
            r@ == nothing_found(subject@, saw),
    {
        let message = explain(subject.control.as_str(), subject.class.as_str(), saw);
        Phase::Done(
            Err(
                Failure {
                    message,
                    process: subject.process,
                    control: subject.control,
                    class: subject.class,
                },
            ),
        )
    }

    fn move_on(subject: Subject, level: usize, saw: bool) -> (r: Phase)
        ensures
            r@ == not_here(subject@, level as nat, saw),
    {
        if level >= MAX_ANCESTORS {
            Reader::give_up(subject, saw)
        } else {
            Phase::Climb { subject, level: level + 1, saw }
        }
    }

    fn text_or_empty(text: Option<String>) -> (r: String)
        ensures
            r@ == or_empty(text_view(text)),
    {
        match text {
            Some(text) => text,
            None => String::new(),
        }
    }

    fn name_of(pid: u32, image: &Option<String>) -> (r: String)
        ensures
            r@ == program_name(pid, text_view(*image)),
    {
        match image {
            Some(path) => exe_name(pid, Some(path.as_str())),
            None => exe_name(pid, None),
        }
    }

    fn next(phase: Phase, own_pid: u32, reply: Reply) -> (r: Phase)
        ensures
            r@ == next_phase(phase@, own_pid, reply@),
    {
        match (phase, reply) {
            (Phase::Client, Reply::Client(Ok(_))) => Phase::Focus,
            (Phase::Client, Reply::Client(Err(error))) => Reader::fail(
                "初始化 UI Automation 客户端失败：".to_owned().concat(error.as_str()),
                String::new(),
            ),
            (Phase::Focus, Reply::Focus(Err(error))) => Reader::fail(
                "取不到当前焦点元素：".to_owned().concat(error.as_str()),
                String::new(),
            ),
            (Phase::Focus, Reply::Focus(Ok(process))) => {
                let pid: u32 = match process {
                    Some(pid) => pid,
                    None => 0,
                };
                if pid == own_pid {
                    Phase::OwnWindow { pid }
                } else {
                    Phase::Describe { pid }
                }
            },
            (Phase::OwnWindow { pid }, Reply::Image(image)) => Reader::fail(
                "焦点还在 text-snap 自己的窗口上。请先回到要划词的程序，再按一次快捷键。".to_owned(),
                Reader::name_of(pid, &image),
            ),
            (Phase::Describe { pid }, Reply::Description { image, control, class }) => Phase::Look {
                subject: Subject {
                    process: Reader::name_of(pid, &image),
                    control: Reader::text_or_empty(control),
                    class: Reader::text_or_empty(class),
                },
                level: 0,
                saw: false,
            },
            (Phase::Look { subject, level, saw }, Reply::Selection(selection)) => match probe(
                &selection,
            ) {
                Probe::Text(text) => Phase::Done(
                    Ok(
                        Snapshot {
                            text,
                            process: subject.process,
                            control: subject.control,
                            class: subject.class,
                        },
                    ),
                ),
                Probe::Empty => Reader::move_on(subject, level, true),
                Probe::Missing => Reader::move_on(subject, level, saw),
            },
            (Phase::Climb { subject, level, saw }, Reply::Parent(true)) => Phase::Look {
                subject,
                level,
                saw,
            },
            (Phase::Climb { subject, level, saw }, Reply::Parent(false)) => Reader::give_up(
                subject,
                saw,
            ),
            (phase, _) => phase,
        }
    }

    /// Takes the system's answer.
    pub fn reply(&mut self, reply: Reply)
        ensures
            final(self).own_pid() == old(self).own_pid(),
            final(self).ready() == (old(self).ready() || (old(self).phase() == PhaseView::Client
                && reply@ == ReplyView::Client(Ok(())))),
            final(self).phase() == next_phase(old(self).phase(), old(self).own_pid(), reply@),
    {
        if let Phase::Client = &self.phase {
            if let Reply::Client(Ok(_)) = &reply {
                self.ready = true;
            }
        }
        let mut phase = Phase::Client;
        std::mem::swap(&mut phase, &mut self.phase);
        self.phase = Reader::next(phase, self.own_pid, reply);
    }

    /// How the reading ended, once it has. The reader is then ready to start
    /// again.
    pub fn outcome(&mut self) -> (r: Option<Result<Snapshot, Failure>>)
        ensures
            final(self).own_pid() == old(self).own_pid(),
            final(self).ready() == old(self).ready(),
            match old(self).phase() {
                PhaseView::Done(outcome) => {
                    &&& r is Some
                    &&& outcome_view(r->0) == outcome
                    &&& final(self).phase() == first_phase(old(self).ready())
                },
                _ => r is None && final(self).phase() == old(self).phase(),
            },
    {
        if let Phase::Done(_) = &self.phase {
        } else {
            return None;
        }
        let mut phase = if self.ready {
            Phase::Focus
        } else {
            Phase::Client
        };
        std::mem::swap(&mut phase, &mut self.phase);
        match phase {
            Phase::Done(outcome) => Some(outcome),
            _ => None,
        }
    }
}

// ── Laws ──

/// How many questions may still be asked.
pub open spec fn questions_left(phase: PhaseView) -> int {
    match phase {
        PhaseView::Client => 2 * MAX_ANCESTORS + 5,
        PhaseView::Focus => 2 * MAX_ANCESTORS + 4,
        PhaseView::OwnWindow { .. } => 1,
        PhaseView::Describe { .. } => 2 * MAX_ANCESTORS + 3,
        PhaseView::Look { level, .. } => 2 * (MAX_ANCESTORS - level) + 2,
        PhaseView::Climb { level, .. } => 2 * (MAX_ANCESTORS - level) + 3,
        PhaseView::Done(_) => 0,
    }
}

/// A phase that a reading can be in: the levels are not used up, and what was
/// read is not blank.
pub open spec fn valid_phase(phase: PhaseView) -> bool {
    match phase {
        PhaseView::Look { level, .. } => level <= MAX_ANCESTORS,
        PhaseView::Climb { level, .. } => 0 < level <= MAX_ANCESTORS,
        PhaseView::Done(Ok(snapshot)) => !blank(snapshot.text),
        _ => true,
    }
}

/// Every answer brings the reading nearer to its end, and no reply is taken
/// after it or out of turn: a reading asks a bounded number of questions.
pub proof fn law_reading_ends(phase: PhaseView, own_pid: u32, reply: ReplyView)
    requires
        valid_phase(phase),
    ensures
        valid_phase(next_phase(phase, own_pid, reply)),
        0 <= questions_left(phase) <= 2 * MAX_ANCESTORS + 5,
        questions_left(phase) == 0 <==> phase is Done,
        answers(phase, reply) ==> questions_left(next_phase(phase, own_pid, reply))
            < questions_left(phase),
        !answers(phase, reply) ==> next_phase(phase, own_pid, reply) == phase,
{
    if let ReplyView::Selection(selection) = reply {
        law_text_is_not_blank(selection);
    }
}

/// What becomes of a look at the current element and then at its ancestors,
/// whose selections are `levels`, the nearest first.
pub open spec fn ascend(phase: PhaseView, own_pid: u32, levels: Seq<SelectionView>) -> PhaseView
    decreases levels.len(),
{
    let looked = next_phase(phase, own_pid, ReplyView::Selection(levels[0]));
    if levels.len() <= 1 {
        next_phase(looked, own_pid, ReplyView::Parent(false))
    } else {
        ascend(next_phase(looked, own_pid, ReplyView::Parent(true)), own_pid, levels.skip(1))
    }
}

pub open spec fn has_text(selection: SelectionView) -> bool {
    probed(selection) is Text
}

proof fn lemma_ascend_done(
    outcome: Result<SnapshotView, FailureView>,
    own_pid: u32,
    levels: Seq<SelectionView>,
)
    ensures
        ascend(PhaseView::Done(outcome), own_pid, levels) == PhaseView::Done(outcome),
    decreases levels.len(),
{
    if levels.len() > 1 {
        lemma_ascend_done(outcome, own_pid, levels.skip(1));
    }
}

proof fn lemma_ascend(
    subject: SubjectView,
    level: nat,
    saw: bool,
    own_pid: u32,
    levels: Seq<SelectionView>,
    at: int,
)
    requires
        level <= MAX_ANCESTORS,
        levels.len() > 0,
        0 <= at <= levels.len(),
        at + level <= MAX_ANCESTORS + 1,
        forall|i: int| 0 <= i < at ==> !has_text(#[trigger] levels[i]),
        at < levels.len() && at + level <= MAX_ANCESTORS ==> has_text(levels[at]),
    ensures
        ascend(PhaseView::Look { subject, level, saw }, own_pid, levels) == if at < levels.len()
            && at + level <= MAX_ANCESTORS {
            found(subject, probed(levels[at])->Text_0)
        } else {
            nothing_found(
                subject,
                saw || exists|i: int| 0 <= i < at && probed(#[trigger] levels[i]) is Empty,
            )
        },
    decreases levels.len(),
{
    let here = PhaseView::Look { subject, level, saw };
    let looked = next_phase(here, own_pid, ReplyView::Selection(levels[0]));
    let up = next_phase(looked, own_pid, ReplyView::Parent(true));
    let rest = levels.skip(1);
    if at == 0 {
        if levels.len() > 1 {
            let outcome = looked->Done_0;
            lemma_ascend_done(outcome, own_pid, rest);
        }
    } else {
        assert(!has_text(levels[0]));
        let saw_now = saw || probed(levels[0]) is Empty;
        if level >= MAX_ANCESTORS {
            assert(at == 1);
            if levels.len() > 1 {
                lemma_ascend_done(looked->Done_0, own_pid, rest);
            }
        } else if levels.len() > 1 {
            assert forall|i: int| 0 <= i < at - 1 implies !has_text(#[trigger] rest[i]) by {
                assert(rest[i] == levels[i + 1]);
            }
            lemma_ascend(subject, level + 1, saw_now, own_pid, rest, at - 1);
            if exists|i: int| 0 <= i < at && probed(#[trigger] levels[i]) is Empty {
                let i = choose|i: int| 0 <= i < at && probed(#[trigger] levels[i]) is Empty;
                if i > 0 {
                    assert(probed(rest[i - 1]) is Empty);
                }
            }
            if exists|i: int| 0 <= i < at - 1 && probed(#[trigger] rest[i]) is Empty {
                let i = choose|i: int| 0 <= i < at - 1 && probed(#[trigger] rest[i]) is Empty;
                assert(probed(levels[i + 1]) is Empty);
            }
        }
        if probed(levels[0]) is Empty {
            assert(exists|i: int| 0 <= i < at && probed(#[trigger] levels[i]) is Empty);
        }
    }
}

/// The text comes from the nearest element that has selected text: the one with
/// the focus, or one of its nearest ancestors. `at` is how far up that is.
pub proof fn law_nearest_text_wins(
    subject: SubjectView,
    own_pid: u32,
    levels: Seq<SelectionView>,
    at: int,
)
    requires
        0 <= at < levels.len(),
        at <= MAX_ANCESTORS,
        has_text(levels[at]),
        forall|i: int| 0 <= i < at ==> !has_text(#[trigger] levels[i]),
    ensures
        ascend(PhaseView::Look { subject, level: 0, saw: false }, own_pid, levels) == found(
            subject,
            probed(levels[at])->Text_0,
        ),
{
    lemma_ascend(subject, 0, false, own_pid, levels, at);
}

/// Where none of the elements that are looked at has selected text, the reading
/// fails, and the reason depends on whether one of them had a text interface.
pub proof fn law_no_text_is_explained(
    subject: SubjectView,
    own_pid: u32,
    levels: Seq<SelectionView>,
    reach: int,
)
    requires
        levels.len() > 0,
        reach == if levels.len() <= MAX_ANCESTORS {
            levels.len() as int
        } else {
            MAX_ANCESTORS + 1
        },
        forall|i: int| 0 <= i < reach ==> !has_text(#[trigger] levels[i]),
    ensures
        ascend(PhaseView::Look { subject, level: 0, saw: false }, own_pid, levels)
            == nothing_found(
            subject,
            exists|i: int| 0 <= i < reach && probed(#[trigger] levels[i]) is Empty,
        ),
{
    lemma_ascend(subject, 0, false, own_pid, levels, reach);
}

/// A selection of one range is read as it is, character for character.
pub proof fn law_single_range_is_verbatim(text: Seq<char>)
    ensures
        probed(SelectionView::Ranges(seq![Some(text)])) == if blank(text) {
            ProbeView::Empty
        } else {
            ProbeView::Text(text)
        },
{
    let ranges = seq![Some(text)];
    assert(ranges.drop_last() == Seq::<Option<Seq<char>>>::empty());
    assert(joined(ranges.drop_last()) == Seq::<char>::empty());
    assert(Seq::<char>::empty() + text == text);
    assert(joined(ranges) == text);
    lemma_trimmed_empty(text);
}

/// Nothing that is selected gets lost: every range stands whole in the text.
pub proof fn law_ranges_are_kept(ranges: Seq<Option<Seq<char>>>, i: int)
    requires
        0 <= i < ranges.len(),
        ranges[i] is Some,
    ensures
        holds(joined(ranges), ranges[i]->0),
    decreases ranges.len(),
{
    let before = joined(ranges.drop_last());
    let text = ranges[i]->0;
    if i < ranges.len() - 1 {
        assert(ranges.drop_last()[i] == ranges[i]);
        law_ranges_are_kept(ranges.drop_last(), i);
        let at = choose|at: int| holds_at(before, text, at);
        assert(joined(ranges).subrange(at, at + text.len()) == before.subrange(
            at,
            at + text.len(),
        ));
        assert(holds_at(joined(ranges), text, at));
    } else if text.len() == 0 {
        assert(joined(ranges).subrange(0, 0) == text);
        assert(holds_at(joined(ranges), text, 0));
    } else {
        let at = joined(ranges).len() - text.len();
        assert(joined(ranges).subrange(at, at + text.len()) == text);
        assert(holds_at(joined(ranges), text, at));
    }
}

/// What is read is never blank.
pub proof fn law_text_is_not_blank(selection: SelectionView)
    ensures
        probed(selection) matches ProbeView::Text(text) ==> !blank(text),
{
    if let SelectionView::Ranges(ranges) = selection {
        lemma_trimmed_empty(joined(ranges));
    }
}

/// The ranges are joined from the first to the last: one whose text is empty or
/// unknown adds nothing, and any other is added behind, on a line of its own.
pub proof fn law_ranges_are_joined_line_by_line(
    ranges: Seq<Option<Seq<char>>>,
    text: Seq<char>,
)
    requires
        text.len() > 0,
    ensures
        joined(Seq::empty()) == Seq::<char>::empty(),
        joined(ranges.push(None)) == joined(ranges),
        joined(ranges.push(Some(Seq::empty()))) == joined(ranges),
        joined(ranges).len() == 0 ==> joined(ranges.push(Some(text))) == text,
        joined(ranges).len() > 0 && joined(ranges).last() == '\n' ==> joined(
            ranges.push(Some(text)),
        ) == joined(ranges) + text,
        joined(ranges).len() > 0 && joined(ranges).last() != '\n' ==> joined(
            ranges.push(Some(text)),
        ) == joined(ranges) + seq!['\n'] + text,
{
    assert(ranges.push(None).drop_last() == ranges);
    assert(ranges.push(Some(Seq::empty())).drop_last() == ranges);
    assert(ranges.push(Some(text)).drop_last() == ranges);
    assert(joined(ranges).push('\n') == joined(ranges) + seq!['\n']);
    if joined(ranges).len() == 0 {
        assert(joined(ranges) + text == text);
    }
}

/// An element whose ranges, taken together, are not blank.
pub open spec fn selects(selection: SelectionView, text: Seq<char>) -> bool {
    selection matches SelectionView::Ranges(ranges) && text == joined(ranges) && !blank(text)
}

/// An element is judged by what is selected there: text that is not blank is taken
/// whole, with the white space around it; an element with a text interface and
/// nothing but white space counts as empty, and one without such an interface as
/// missing.
pub proof fn law_element_is_judged_by_its_selection(selection: &Selection, r: Probe)
    requires
        call_ensures(probe, (selection,), r),
    ensures
        r is Missing <==> selection is NoPattern,
        r matches Probe::Text(text) ==> selects(selection@, text@),
        r is Empty ==> forall|text: Seq<char>| !#[trigger] selects(selection@, text),
{
    lemma_probed(selection@);
}

proof fn lemma_probed(selection: SelectionView)
    ensures
        probed(selection) is Missing <==> selection is NoPattern,
        forall|text: Seq<char>| #[trigger]
            selects(selection, text) <==> probed(selection) == ProbeView::Text(text),
{
    if let SelectionView::Ranges(ranges) = selection {
        lemma_trimmed_empty(joined(ranges));
    }
}

/// The process of the element with the focus, or zero where it is unknown.
pub open spec fn known_pid(process: Option<u32>) -> u32 {
    match process {
        Some(pid) => pid,
        None => 0,
    }
}

/// Only the program's own process is told to look elsewhere: with the focus in any
/// other process, whatever its number, the element there is described next.
pub proof fn law_only_the_own_process_is_turned_away(own_pid: u32, process: Option<u32>)
    ensures
        ({
            let next = next_phase(PhaseView::Focus, own_pid, ReplyView::Focus(Ok(process)));
            &&& known_pid(process) != own_pid ==> next == PhaseView::Describe {
                pid: known_pid(process),
            }
            &&& known_pid(process) == own_pid ==> next == PhaseView::OwnWindow {
                pid: known_pid(process),
            }
        }),
{
}

/// A whole reading, from the answer on the focus to its end: the element with the
/// focus is described, then it and its ancestors are looked at, the nearest first.
pub open spec fn reading(
    own_pid: u32,
    process: Option<u32>,
    description: ReplyView,
    levels: Seq<SelectionView>,
) -> PhaseView {
    let found = next_phase(PhaseView::Focus, own_pid, ReplyView::Focus(Ok(process)));
    ascend(next_phase(found, own_pid, description), own_pid, levels)
}

/// Text that is selected in another program is read: in whatever process the focus
/// is, the text of the nearest element that has some comes out, as long as that is
/// the element with the focus or one of its six nearest ancestors, together with
/// what is known of the element with the focus.
pub proof fn law_text_of_another_program_is_read(
    own_pid: u32,
    process: Option<u32>,
    image: Option<Seq<char>>,
    control: Option<Seq<char>>,
    class: Option<Seq<char>>,
    levels: Seq<SelectionView>,
    at: int,
    text: Seq<char>,
)
    requires
        known_pid(process) != own_pid,
        0 <= at < levels.len(),
        at <= 6,
        selects(levels[at], text),
        forall|i: int, other: Seq<char>| 0 <= i < at ==> !#[trigger] selects(levels[i], other),
    ensures
        reading(
            own_pid,
            process,
            ReplyView::Description { image, control, class },
            levels,
        ) == PhaseView::Done(
            Ok(
                SnapshotView {
                    text,
                    process: program_name(known_pid(process), image),
                    control: match control {
                        Some(kind) => kind,
                        None => Seq::empty(),
                    },
                    class: match class {
                        Some(name) => name,
                        None => Seq::empty(),
                    },
                },
            ),
        ),
{
    lemma_probed(levels[at]);
    assert forall|i: int| 0 <= i < at implies !has_text(#[trigger] levels[i]) by {
        lemma_probed(levels[i]);
        if let ProbeView::Text(other) = probed(levels[i]) {
            assert(selects(levels[i], other));
        }
    }
    let subject = SubjectView {
        process: program_name(known_pid(process), image),
        control: or_empty(control),
        class: or_empty(class),
    };
    law_nearest_text_wins(subject, own_pid, levels, at);
}

/// Where nothing is selected in the element with the focus nor in its six nearest
/// ancestors, as far as there are so many, the reading fails, and what the user is
/// told depends on whether one of them had a text interface at all.
pub proof fn law_nothing_selected_is_told(
    own_pid: u32,
    process: Option<u32>,
    image: Option<Seq<char>>,
    control: Seq<char>,
    class: Seq<char>,
    levels: Seq<SelectionView>,
    saw: bool,
)
    requires
        known_pid(process) != own_pid,
        levels.len() > 0,
        forall|i: int, text: Seq<char>|
            0 <= i < levels.len() && i <= 6 ==> !#[trigger] selects(levels[i], text),
        saw <==> exists|i: int|
            0 <= i < levels.len() && i <= 6 && #[trigger] levels[i] !is NoPattern,
    ensures
        reading(
            own_pid,
            process,
            ReplyView::Description { image, control: Some(control), class: Some(class) },
            levels,
        ) == PhaseView::Done(
            Err(
                FailureView {
                    message: explanation(control, class, saw),
                    process: program_name(known_pid(process), image),
                    control,
                    class,
                },
            ),
        ),
{
    let reach = if levels.len() <= 6 {
        levels.len() as int
    } else {
        7
    };
    assert forall|i: int| 0 <= i < reach implies !has_text(#[trigger] levels[i]) && (probed(
        levels[i],
    ) is Empty <==> levels[i] !is NoPattern) by {
        lemma_probed(levels[i]);
        if let ProbeView::Text(text) = probed(levels[i]) {
            assert(selects(levels[i], text));
        }
    }
    let subject = SubjectView {
        process: program_name(known_pid(process), image),
        control,
        class,
    };
    law_no_text_is_explained(subject, own_pid, levels, reach);
    if saw {
        let i = choose|i: int|
            0 <= i < levels.len() && i <= 6 && #[trigger] levels[i] !is NoPattern;
        assert(probed(levels[i]) is Empty);
    }
}

/// What goes wrong before there is an element to look at ends the reading at once,
/// with the system's own words behind what was being done; in its own window the
/// program names itself, and that is all it tells.
pub proof fn law_early_failures_are_told(
    own_pid: u32,
    error: Seq<char>,
    pid: u32,
    image: Option<Seq<char>>,
)
    ensures
        next_phase(PhaseView::Client, own_pid, ReplyView::Client(Err(error))) == PhaseView::Done(
            Err(
                FailureView {
                    message: "初始化 UI Automation 客户端失败："@ + error,
                    process: Seq::empty(),
                    control: Seq::empty(),
                    class: Seq::empty(),
                },
            ),
        ),
        next_phase(PhaseView::Focus, own_pid, ReplyView::Focus(Err(error))) == PhaseView::Done(
            Err(
                FailureView {
                    message: "取不到当前焦点元素："@ + error,
                    process: Seq::empty(),
                    control: Seq::empty(),
                    class: Seq::empty(),
                },
            ),
        ),
        next_phase(PhaseView::OwnWindow { pid }, own_pid, ReplyView::Image(image))
            == PhaseView::Done(
            Err(
                FailureView {
                    message: "焦点还在 text-snap 自己的窗口上。请先回到要划词的程序，再按一次快捷键。"@,
                    process: program_name(pid, image),
                    control: Seq::empty(),
                    class: Seq::empty(),
                },
            ),
        ),
        next_phase(PhaseView::Client, own_pid, ReplyView::Client(Ok(()))) == PhaseView::Focus,
{
}

/// A program goes by its file name, whatever the directory; without a process or a
/// path it has no name.
pub proof fn law_program_goes_by_its_file_name(pid: u32, dir: Seq<char>, name: Seq<char>)
    requires
        pid > 0,
        dir.len() > 0 ==> dir.last() == '\\' || dir.last() == '/',
        !name.contains('\\'),
        !name.contains('/'),
    ensures
        program_name(pid, Some(dir + name)) == name,
        program_name(pid, None).len() == 0,
        program_name(0, Some(dir + name)).len() == 0,
        program_name(0, None).len() == 0,
        forall|p: u32, path: Option<&str>, r: String| #[trigger]
            call_ensures(exe_name, (p, path), r) ==> r@ == program_name(p, slice_view(path)),
{
    law_name_follows_directory(dir, name);
}

/// The names of the taskbar and the tray, as they occur in window classes.
pub open spec fn shell_markers() -> Seq<Seq<char>> {
    seq!["SystemTray"@, "Shell_TrayWnd"@, "TrayNotifyWnd"@, "TaskListThumbnailWnd"@]
}

/// A window belongs to the taskbar or the tray exactly when one of the four names
/// can be cut out of its class.
pub proof fn law_taskbar_is_known_by_its_names(class: Seq<char>)
    ensures
        shell_chrome(class) <==> exists|i: int, before: Seq<char>, after: Seq<char>|
            0 <= i < 4 && class == #[trigger] (before + shell_markers()[i] + after),
        forall|name: &str, r: bool| #[trigger]
            call_ensures(is_shell_chrome, (name,), r) ==> r == shell_chrome(name@),
{
    let m = shell_markers();
    law_holding_is_being_cut_out(class, m[0]);
    law_holding_is_being_cut_out(class, m[1]);
    law_holding_is_being_cut_out(class, m[2]);
    law_holding_is_being_cut_out(class, m[3]);
    assert(m[0] == "SystemTray"@ && m[1] == "Shell_TrayWnd"@ && m[2] == "TrayNotifyWnd"@ && m[3]
        == "TaskListThumbnailWnd"@);
    if exists|i: int, before: Seq<char>, after: Seq<char>|
        0 <= i < 4 && class == #[trigger] (before + m[i] + after) {
        let (i, before, after) = choose|i: int, before: Seq<char>, after: Seq<char>|
            0 <= i < 4 && class == #[trigger] (before + m[i] + after);
        assert(class == before + m[i] + after);
        assert(holds(class, m[i]));
    }
    if shell_chrome(class) {
        let i: int = if holds(class, m[0]) {
            0
        } else if holds(class, m[1]) {
            1
        } else if holds(class, m[2]) {
            2
        } else {
            3
        };
        let (before, after) = choose|before: Seq<char>, after: Seq<char>|
            class == #[trigger] (before + m[i] + after);
        assert(0 <= i < 4 && class == before + m[i] + after);
    }
}

/// What the user is told where nothing was read names the element; the taskbar
/// comes first, and apart from that only the text interface counts.
pub proof fn law_explanation_fits_the_element(
    control: &str,
    class: &str,
    saw_text_pattern: bool,
    r: String,
)
    requires
        call_ensures(explain, (control, class, saw_text_pattern), r),
    ensures
        ({
            let who = "控件类型 "@ + control@ + "，类名 "@ + class@;
            r@ == if shell_chrome(class@) {
                "焦点落在任务栏/托盘区域上了（"@ + who
                    + "），那里没有可读的文本。\n用托盘图标触发读取时很容易这样。\n回到要划词的程序、重新选中一段文字，再按一次快捷键。"@
            } else if saw_text_pattern {
                "焦点元素支持 UI Automation 文本模式，但当前没有选中任何文本（"@ + who
                    + "）。\n先选中一段文字，再按快捷键。"@
            } else {
                "这个控件没有暴露 UI Automation 文本模式（TextPattern），读不到选中文本（"@ + who
                    + "）。\n常见原因：\n· 该程序未开启无障碍支持 —— VS Code 需要 editor.accessibilitySupport 生效\n· 目标程序以管理员身份运行，权限高于本程序（UIPI 拦截）\n· 焦点不在可编辑的文本区域上"@
            }
        }),
{
}

/// The reader, too, does what the laws say: an answer leads on as stated and never
/// changes whose reader it is; a client that was made is kept for every further
/// reading, which then starts with the focus; and an end is handed out once.
pub proof fn law_reader_follows_the_answers(reply: Reply, told: Option<Result<Snapshot, Failure>>)
    ensures
        forall|reader: &mut Reader| #[trigger]
            call_ensures(Reader::reply, (reader, reply), ()) ==> {
                &&& final(reader).phase() == next_phase(reader.phase(), reader.own_pid(), reply@)
                &&& final(reader).own_pid() == reader.own_pid()
                &&& final(reader).ready() <==> reader.ready() || {
                    &&& reader.phase() is Client
                    &&& final(reader).phase() is Focus
                }
            },
        forall|reader: &mut Reader| #[trigger]
            call_ensures(Reader::read, (reader,), ()) ==> {
                &&& final(reader).phase() == if reader.ready() {
                    PhaseView::Focus
                } else {
                    PhaseView::Client
                }
                &&& final(reader).ready() == reader.ready()
                &&& final(reader).own_pid() == reader.own_pid()
            },
        forall|reader: &mut Reader| #[trigger]
            call_ensures(Reader::outcome, (reader,), told) ==> {
                &&& told is Some <==> reader.phase() is Done
                &&& told is Some ==> reader.phase() == PhaseView::Done(outcome_view(told->0))
                    && final(reader).phase() !is Done
                &&& told is None ==> final(reader).phase() == reader.phase()
                &&& final(reader).ready() == reader.ready()
                &&& final(reader).own_pid() == reader.own_pid()
            },
        forall|own_pid: u32, reader: Reader| #[trigger]
            call_ensures(Reader::new, (own_pid,), reader) ==> {
                &&& reader.own_pid() == own_pid
                &&& reader.phase() is Client
                &&& !reader.ready()
            },
{
}

} // verus!
