//! Putting shortcuts into force, and changing the settings.
//!
//! Both talk to the system step by step: they say what to do next and take the
//! answer. A change of settings that fails on the way puts the previous
//! shortcuts back.
use crate::config::{fill, filled, filled_option, Config, ConfigView};
use crate::shortcut::{
    error_text, law_case_does_not_matter, parse_shortcut, shortcut_of, Shortcut, ShortcutErrorView,
};
use crate::text::{
    blank, error_view, lemma_trimmed_empty, lemma_trimmed_twice, lower, same_ignoring_case,
    text_view, trim, trimmed,
};
use crate::tray::{law_only_menu_lines_act, on_menu, TrayAction};
use vstd::prelude::*;

verus! {

/// What a shortcut is for.
#[derive(Clone, Copy, Debug, PartialEq, Eq, Structural)]
pub enum Slot {
    /// Reading the selected text.
    Read,
    /// Minimizing or restoring the editors.
    Minimize,
}

/// What the system is to do.
#[derive(Clone, Copy, Debug, PartialEq, Eq, Structural)]
pub enum Effect {
    /// Release all shortcuts of this program.
    UnregisterAll,
    /// Take a shortcut.
    Register { slot: Slot, shortcut: Shortcut },
    /// Write the new settings to their file.
    WriteConfig,
    /// Nothing: it is over.
    Finish,
}

// ── Registering ──

/// Why a shortcut is not in force.
#[derive(Debug)]
pub struct Refusal {
    /// The shortcut as it is written.
    pub text: String,
    /// What the user is told.
    pub message: String,
}

#[verifier::ext_equal]
pub struct RefusalView {
    pub text: Seq<char>,
    pub message: Seq<char>,
}

impl View for Refusal {
    type V = RefusalView;

    open spec fn view(&self) -> RefusalView {
        RefusalView { text: self.text@, message: self.message@ }
    }
}

pub open spec fn refusal_view(r: Result<(), Refusal>) -> Result<(), RefusalView> {
    match r {
        Ok(_) => Ok(()),
        Err(refusal) => Err(refusal@),
    }
}

/// How far the registration is.
#[derive(Debug)]
pub enum Stage {
    /// All shortcuts are to be released.
    Clear,
    /// A shortcut is to be taken.
    Bind { slot: Slot, shortcut: Shortcut },
    /// It is over.
    Done(Result<(), Refusal>),
}

/// The registration of the shortcuts in the settings.
#[derive(Debug)]
pub struct Registration {
    hotkey: String,
    minimize: Option<String>,
    stage: Stage,
}

/// The shortcuts to register, as they are written.
#[verifier::ext_equal]
pub struct Wishes {
    pub hotkey: Seq<char>,
    pub minimize: Option<Seq<char>>,
}

#[verifier::ext_equal]
pub enum StageView {
    Clear,
    Bind { slot: Slot, shortcut: Shortcut },
    Done(Result<(), RefusalView>),
}

impl View for Stage {
    type V = StageView;

    open spec fn view(&self) -> StageView {
        match *self {
            Stage::Clear => StageView::Clear,
            Stage::Bind { slot, shortcut } => StageView::Bind { slot, shortcut },
            Stage::Done(r) => StageView::Done(refusal_view(r)),
        }
    }
}

pub open spec fn wishes(cfg: ConfigView) -> Wishes {
    Wishes { hotkey: cfg.hotkey, minimize: filled_option(cfg.minimize_hotkey) }
}

/// The system refuses a shortcut.
pub open spec fn taken(text: Seq<char>, error: Seq<char>) -> RefusalView {
    RefusalView {
        text,
        message: "「"@ + text + "」注册失败，可能已被别的程序占用："@ + error,
    }
}

/// A shortcut cannot be understood.
pub open spec fn invalid(
    lead: Seq<char>,
    text: Seq<char>,
    error: ShortcutErrorView,
) -> RefusalView {
    RefusalView { text, message: lead + "「"@ + text + "」无效："@ + error_text(error) }
}

/// What is to do with a shortcut as it is written: take it, or complain.
pub open spec fn bind(slot: Slot, text: Seq<char>) -> StageView {
    match shortcut_of(text) {
        Ok(shortcut) => StageView::Bind { slot, shortcut },
        Err(error) => StageView::Done(
            Err(
                invalid(
                    match slot {
                        Slot::Read => "读取快捷键"@,
                        Slot::Minimize => "最小化/还原快捷键"@,
                    },
                    text,
                    error,
                ),
            ),
        ),
    }
}

/// What follows an answer. That shortcuts could not be released is no reason to
/// stop; any other failure is.
pub open spec fn next_stage(
    wishes: Wishes,
    stage: StageView,
    reply: Result<(), Seq<char>>,
) -> StageView {
    match stage {
        StageView::Clear => bind(Slot::Read, wishes.hotkey),
        StageView::Bind { slot: Slot::Read, shortcut } => match reply {
            Err(error) => StageView::Done(Err(taken(wishes.hotkey, error))),
            Ok(_) => match wishes.minimize {
                Some(text) => bind(Slot::Minimize, text),
                None => StageView::Done(Ok(())),
            },
        },
        StageView::Bind { slot: Slot::Minimize, shortcut } => match (reply, wishes.minimize) {
            (Err(error), Some(text)) => StageView::Done(Err(taken(text, error))),
            _ => StageView::Done(Ok(())),
        },
        StageView::Done(r) => stage,
    }
}

pub open spec fn stage_effect(stage: StageView) -> Effect {
    match stage {
        StageView::Clear => Effect::UnregisterAll,
        StageView::Bind { slot, shortcut } => Effect::Register { slot, shortcut },
        StageView::Done(_) => Effect::Finish,
    }
}

fn refuse(text: &str, error: &str) -> (r: Refusal)
    ensures
        r@ == taken(text@, error@),
{
    Refusal {
        text: text.to_owned(),
        message: "「".to_owned().concat(text).concat(
            "」注册失败，可能已被别的程序占用：",
        ).concat(error),
    }
}

fn begin_bind(slot: Slot, text: &str) -> (r: Stage)
    ensures
        r@ == bind(slot, text@),
{
    match parse_shortcut(text) {
        Ok(shortcut) => Stage::Bind { slot, shortcut },
        Err(error) => {
            let lead = match slot {
                Slot::Read => "读取快捷键",
                Slot::Minimize => "最小化/还原快捷键",
            };
            let message = lead.to_owned().concat("「").concat(text).concat("」无效：").concat(
                error.message().as_str(),
            );
            Stage::Done(Err(Refusal { text: text.to_owned(), message }))
        },
    }
}

/// Starts to register the shortcuts in the settings.
pub fn register_shortcuts(cfg: &Config) -> (r: Registration)
    ensures
        r.wishes() == wishes(cfg@),
        r.stage() == StageView::Clear,
{
    let minimize = match cfg.minimize_spec() {
        Some(text) => Some(text.to_owned()),
        None => None,
    };
    Registration { hotkey: cfg.hotkey.clone(), minimize, stage: Stage::Clear }
}

impl Registration {
    pub closed spec fn wishes(self) -> Wishes {
        Wishes { hotkey: self.hotkey@, minimize: text_view(self.minimize) }
    }

    pub closed spec fn stage(self) -> StageView {
        self.stage@
    }

    /// What the system is to do next.
    pub fn effect(&self) -> (r: Effect)
        ensures
            r == stage_effect(self.stage()),
    {
        match &self.stage {
            Stage::Clear => Effect::UnregisterAll,
            Stage::Bind { slot, shortcut } => Effect::Register { slot: *slot, shortcut: *shortcut },
            Stage::Done(_) => Effect::Finish,
        }
    }

    /// Takes the system's answer.
    pub fn reply(&mut self, reply: Result<(), String>)
        ensures
            final(self).wishes() == old(self).wishes(),
            final(self).stage() == next_stage(
                old(self).wishes(),
                old(self).stage(),
                error_view(reply),
            ),
    {
        let stage = match (&self.stage, reply) {
            (Stage::Clear, _) => begin_bind(Slot::Read, self.hotkey.as_str()),
            (Stage::Bind { slot: Slot::Read, .. }, Err(error)) => Stage::Done(
                Err(refuse(self.hotkey.as_str(), error.as_str())),
            ),
            (Stage::Bind { slot: Slot::Read, .. }, Ok(_)) => match &self.minimize {
                Some(text) => begin_bind(Slot::Minimize, text.as_str()),
                None => Stage::Done(Ok(())),
            },
            (Stage::Bind { slot: Slot::Minimize, .. }, Err(error)) => match &self.minimize {
                Some(text) => Stage::Done(Err(refuse(text.as_str(), error.as_str()))),
                None => Stage::Done(Ok(())),
            },
            (Stage::Bind { slot: Slot::Minimize, .. }, Ok(_)) => Stage::Done(Ok(())),
            (Stage::Done(_), _) => {
                return;
            },
        };
        self.stage = stage;
    }

    /// How it ended, once it has.
    pub fn result(self) -> (r: Option<Result<(), Refusal>>)
        ensures
            match self.stage() {
                StageView::Done(result) => r is Some && refusal_view(r->0) == result,
                _ => r is None,
            },
    {
        match self.stage {
            Stage::Done(result) => Some(result),
            _ => None,
        }
    }
}

/// What a shortcut does: only pressing it counts, and each does one thing.
pub fn on_shortcut(slot: Slot, pressed: bool) -> (r: TrayAction)
    ensures
        r == if !pressed {
            TrayAction::Ignore
        } else {
            match slot {
                Slot::Read => TrayAction::Read,
                Slot::Minimize => TrayAction::ToggleEditors,
            }
        },
{
    if !pressed {
        TrayAction::Ignore
    } else {
        match slot {
            Slot::Read => TrayAction::Read,
            Slot::Minimize => TrayAction::ToggleEditors,
        }
    }
}

// ── Changing the settings ──

/// How far a change of the settings is.
#[derive(Debug)]
pub enum Progress {
    /// The new shortcuts are being registered.
    Binding(Registration),
    /// The new settings are to be written.
    Saving,
    /// The change failed; the previous shortcuts are being put back.
    Undoing(Registration, String),
    /// It is over.
    Done(Result<(), String>),
}

#[verifier::ext_equal]
pub enum ProgressView {
    Binding(StageView),
    Saving,
    Undoing(StageView, Seq<char>),
    Done(Result<(), Seq<char>>),
}

/// A change of the settings.
#[derive(Debug)]
pub struct SettingsChange {
    previous: Config,
    next: Config,
    progress: Progress,
}

#[verifier::ext_equal]
pub struct ChangeView {
    pub previous: ConfigView,
    pub next: ConfigView,
    pub progress: ProgressView,
}

/// The settings that the texts in the settings window stand for.
pub open spec fn entered(
    hotkey: Seq<char>,
    minimize_hotkey: Seq<char>,
    save_dir: Seq<char>,
    show_startup_toast: bool,
) -> ConfigView {
    ConfigView {
        hotkey: trimmed(hotkey),
        minimize_hotkey: filled(minimize_hotkey),
        save_dir: filled(save_dir),
        show_startup_toast,
    }
}

/// Both shortcuts are written the same, but for the case of their letters.
pub open spec fn clashes(cfg: ConfigView) -> bool {
    filled_option(cfg.minimize_hotkey) matches Some(text) && lower(text) == lower(cfg.hotkey)
}

pub open spec fn first_change(previous: ConfigView, next: ConfigView) -> ChangeView {
    ChangeView {
        previous,
        next,
        progress: if clashes(next) {
            ProgressView::Done(
                Err("「读取选中文本」和「最小化/还原编辑器」不能使用同一个快捷键"@),
            )
        } else {
            ProgressView::Binding(StageView::Clear)
        },
    }
}

/// What follows an answer.
pub open spec fn next_progress(
    previous: ConfigView,
    next: ConfigView,
    progress: ProgressView,
    reply: Result<(), Seq<char>>,
) -> ProgressView {
    match progress {
        ProgressView::Binding(stage) => match next_stage(wishes(next), stage, reply) {
            StageView::Done(Ok(_)) => ProgressView::Saving,
            StageView::Done(Err(refusal)) => ProgressView::Undoing(
                StageView::Clear,
                refusal.message,
            ),
            stage => ProgressView::Binding(stage),
        },
        ProgressView::Saving => match reply {
            Ok(_) => ProgressView::Done(Ok(())),
            Err(error) => ProgressView::Undoing(
                StageView::Clear,
                "写配置文件失败："@ + error,
            ),
        },
        ProgressView::Undoing(stage, error) => match next_stage(wishes(previous), stage, reply) {
            StageView::Done(_) => ProgressView::Done(Err(error)),
            stage => ProgressView::Undoing(stage, error),
        },
        ProgressView::Done(_) => progress,
    }
}

impl ChangeView {
    pub open spec fn after(self, reply: Result<(), Seq<char>>) -> ChangeView {
        ChangeView {
            progress: next_progress(self.previous, self.next, self.progress, reply),
            ..self
        }
    }

    /// What the system is to do next.
    pub open spec fn effect(self) -> Effect {
        match self.progress {
            ProgressView::Binding(stage) => stage_effect(stage),
            ProgressView::Saving => Effect::WriteConfig,
            ProgressView::Undoing(stage, _) => stage_effect(stage),
            ProgressView::Done(_) => Effect::Finish,
        }
    }

    /// The settings in force: the new ones once the change has succeeded.
    pub open spec fn in_force(self) -> ConfigView {
        match self.progress {
            ProgressView::Done(Ok(_)) => self.next,
            _ => self.previous,
        }
    }

    /// A change that can come about: what is under way is not over.
    pub open spec fn valid(self) -> bool {
        match self.progress {
            ProgressView::Binding(stage) => stage !is Done,
            ProgressView::Undoing(stage, _) => stage !is Done,
            _ => true,
        }
    }
}

fn entered_text(text: &str) -> (r: Option<String>)
    ensures
        text_view(r) == filled(text@),
{
    match fill(text) {
        Some(inner) => Some(inner.to_owned()),
        None => None,
    }
}

/// The settings that the texts in the settings window stand for: white space
/// around them does not count, and an empty text stands for nothing.
pub fn enter(
    hotkey: &str,
    minimize_hotkey: &str,
    save_dir: &str,
    show_startup_toast: bool,
) -> (r: Config)
    ensures
        r@ == entered(hotkey@, minimize_hotkey@, save_dir@, show_startup_toast),
{
    Config {
        hotkey: trim(hotkey).to_owned(),
        minimize_hotkey: entered_text(minimize_hotkey),
        save_dir: entered_text(save_dir),
        show_startup_toast,
    }
}

/// Whether both shortcuts are written the same, but for the case of their letters.
pub fn is_clash(cfg: &Config) -> (r: bool)
    ensures
        r == clashes(cfg@),
{
    match cfg.minimize_spec() {
        Some(text) => same_ignoring_case(text, cfg.hotkey.as_str()),
        None => false,
    }
}

/// Starts to change the settings to what was entered.
pub fn apply_settings(
    previous: &Config,
    hotkey: &str,
    minimize_hotkey: &str,
    save_dir: &str,
    show_startup_toast: bool,
) -> (r: SettingsChange)
    ensures
        r@ == first_change(
            previous@,
            entered(hotkey@, minimize_hotkey@, save_dir@, show_startup_toast),
        ),
{
    let next = enter(hotkey, minimize_hotkey, save_dir, show_startup_toast);
    let progress = if is_clash(&next) {
        Progress::Done(
            Err("「读取选中文本」和「最小化/还原编辑器」不能使用同一个快捷键".to_owned()),
        )
    } else {
        Progress::Binding(register_shortcuts(&next))
    };
    SettingsChange { previous: previous.clone(), next, progress }
}

impl View for SettingsChange {
    type V = ChangeView;

    closed spec fn view(&self) -> ChangeView {
        ChangeView {
            previous: self.previous@,
            next: self.next@,
            progress: match self.progress {
                Progress::Binding(registration) => ProgressView::Binding(registration.stage()),
                Progress::Saving => ProgressView::Saving,
                Progress::Undoing(registration, error) => ProgressView::Undoing(
                    registration.stage(),
                    error@,
                ),
                Progress::Done(r) => ProgressView::Done(error_view(r)),
            },
        }
    }
}

impl SettingsChange {
    /// The registrations under way are those of the right settings.
    #[verifier::type_invariant]
    spec fn registers_the_right_settings(self) -> bool {
        match self.progress {
            Progress::Binding(registration) => {
                &&& registration.wishes() == wishes(self.next@)
                &&& registration.stage() !is Done
            },
            Progress::Undoing(registration, _) => {
                &&& registration.wishes() == wishes(self.previous@)
                &&& registration.stage() !is Done
            },
            _ => true,
        }
    }

    /// What the system is to do next.
    pub fn effect(&self) -> (r: Effect)
        ensures
            r == self@.effect(),
    {
        match &self.progress {
            Progress::Binding(registration) => registration.effect(),
            Progress::Saving => Effect::WriteConfig,
            Progress::Undoing(registration, _) => registration.effect(),
            Progress::Done(_) => Effect::Finish,
        }
    }

    /// Takes the system's answer.
    pub fn reply(self, reply: Result<(), String>) -> (r: SettingsChange)
        ensures
            r@ == self@.after(error_view(reply)),
    {
        proof {
            use_type_invariant(&self);
        }
        let SettingsChange { previous, next, progress } = self;
        let progress = match progress {
            Progress::Binding(mut registration) => {
                registration.reply(reply);
                if let Effect::Finish = registration.effect() {
                    match registration.result() {
                        Some(Err(refusal)) => Progress::Undoing(
                            register_shortcuts(&previous),
                            refusal.message,
                        ),
                        _ => Progress::Saving,
                    }
                } else {
                    Progress::Binding(registration)
                }
            },
            Progress::Saving => match reply {
                Ok(_) => Progress::Done(Ok(())),
                Err(error) => Progress::Undoing(
                    register_shortcuts(&previous),
                    "写配置文件失败：".to_owned().concat(error.as_str()),
                ),
            },
            Progress::Undoing(mut registration, error) => {
                registration.reply(reply);
                if let Effect::Finish = registration.effect() {
                    Progress::Done(Err(error))
                } else {
                    Progress::Undoing(registration, error)
                }
            },
            Progress::Done(result) => Progress::Done(result),
        };
        SettingsChange { previous, next, progress }
    }

    /// The settings that are to be written, and that are in force once the
    /// change has succeeded.
    pub fn next_config(&self) -> (r: &Config)
        ensures
            r@ == self@.next,
    {
        &self.next
    }

    /// The settings in force.
    pub fn in_force(&self) -> (r: &Config)
        ensures
            r@ == self@.in_force(),
    {
        if let Progress::Done(Ok(_)) = &self.progress {
            &self.next
        } else {
            &self.previous
        }
    }

    /// How it ended, once it has.
    pub fn result(&self) -> (r: Option<Result<(), String>>)
        ensures
            match self@.progress {
                ProgressView::Done(result) => r is Some && error_view(r->0) == result,
                _ => r is None,
            },
    {
        match &self.progress {
            Progress::Done(Ok(_)) => Some(Ok(())),
            Progress::Done(Err(error)) => Some(Err(error.clone())),
            _ => None,
        }
    }
}

// ── Laws ──

/// What the shortcuts and the file of the settings look like from outside, and
/// what went wrong on the way.
#[verifier::ext_equal]
pub struct World {
    /// The shortcuts that this program holds.
    pub read: Option<Shortcut>,
    pub minimize: Option<Shortcut>,
    /// The settings that the file holds, where that is known: a write that fails
    /// may leave anything there.
    pub on_file: Option<ConfigView>,
    /// Shortcuts could not be released.
    pub clear_failed: bool,
    /// The settings could not be written.
    pub write_failed: bool,
    /// Something failed while the previous shortcuts were being put back.
    pub undo_failed: bool,
}

/// The world after the system did, or failed to do, what it was asked for.
pub open spec fn world_after_effect(
    world: World,
    effect: Effect,
    next: ConfigView,
    reply: Result<(), Seq<char>>,
) -> World {
    match (effect, reply) {
        (Effect::UnregisterAll, Ok(_)) => World { read: None, minimize: None, ..world },
        (Effect::UnregisterAll, Err(_)) => World { clear_failed: true, ..world },
        (Effect::Register { slot: Slot::Read, shortcut }, Ok(_)) => World {
            read: Some(shortcut),
            ..world
        },
        (Effect::Register { slot: Slot::Minimize, shortcut }, Ok(_)) => World {
            minimize: Some(shortcut),
            ..world
        },
        (Effect::WriteConfig, Ok(_)) => World { on_file: Some(next), ..world },
        (Effect::WriteConfig, Err(_)) => World { on_file: None, write_failed: true, ..world },
        _ => world,
    }
}

/// The world after the system did, or failed to do, what the change asked for.
pub open spec fn world_after(
    world: World,
    change: ChangeView,
    reply: Result<(), Seq<char>>,
) -> World {
    World {
        undo_failed: world.undo_failed || (reply is Err && change.progress is Undoing),
        ..world_after_effect(world, change.effect(), change.next, reply)
    }
}

/// A change and the world after a number of answers.
pub open spec fn run(
    change: ChangeView,
    world: World,
    replies: Seq<Result<(), Seq<char>>>,
) -> (ChangeView, World)
    decreases replies.len(),
{
    if replies.len() == 0 {
        (change, world)
    } else {
        run(
            change.after(replies[0]),
            world_after(world, change, replies[0]),
            replies.skip(1),
        )
    }
}

/// A registration and the world after a number of answers.
pub open spec fn run_registration(
    cfg: ConfigView,
    stage: StageView,
    world: World,
    replies: Seq<Result<(), Seq<char>>>,
) -> (StageView, World)
    decreases replies.len(),
{
    if replies.len() == 0 {
        (stage, world)
    } else {
        run_registration(
            cfg,
            next_stage(wishes(cfg), stage, replies[0]),
            world_after_effect(world, stage_effect(stage), cfg, replies[0]),
            replies.skip(1),
        )
    }
}

pub open spec fn shortcut_or_none(text: Seq<char>) -> Option<Shortcut> {
    match shortcut_of(text) {
        Ok(shortcut) => Some(shortcut),
        Err(_) => None,
    }
}

/// The program holds exactly the shortcuts in these settings. One that cannot be
/// understood is not held, nor is any after it.
pub open spec fn holds_shortcuts_of(world: World, cfg: ConfigView) -> bool {
    &&& world.read == shortcut_or_none(cfg.hotkey)
    &&& world.minimize == match (world.read, filled_option(cfg.minimize_hotkey)) {
        (Some(_), Some(text)) => shortcut_or_none(text),
        _ => None,
    }
}

/// The shortcuts in these settings can be understood.
pub open spec fn usable(cfg: ConfigView) -> bool {
    &&& shortcut_of(cfg.hotkey) is Ok
    &&& filled_option(cfg.minimize_hotkey) matches Some(text) ==> shortcut_of(text) is Ok
}

/// While shortcuts are being registered: those of the stages behind are held, as
/// far as nothing went wrong.
spec fn holds_so_far(world: World, cfg: ConfigView, stage: StageView, trouble: bool) -> bool {
    match stage {
        StageView::Clear => true,
        StageView::Bind { slot: Slot::Read, shortcut } => {
            &&& shortcut_of(cfg.hotkey) == Ok::<Shortcut, ShortcutErrorView>(shortcut)
            &&& !trouble ==> world.read is None && world.minimize is None
        },
        StageView::Bind { slot: Slot::Minimize, shortcut } => {
            &&& shortcut_of(cfg.hotkey) is Ok
            &&& filled_option(cfg.minimize_hotkey) is Some
            &&& shortcut_of(filled_option(cfg.minimize_hotkey)->0) == Ok::<
                Shortcut,
                ShortcutErrorView,
            >(shortcut)
            &&& !trouble ==> world.read == shortcut_or_none(cfg.hotkey) && world.minimize is None
        },
        StageView::Done(_) => true,
    }
}

spec fn on_the_way(start: World, change: ChangeView, world: World) -> bool {
    let file_untouched = world.on_file == start.on_file && world.write_failed
        == start.write_failed;
    &&& change.valid()
    &&& match change.progress {
        ProgressView::Binding(stage) => {
            &&& !clashes(change.next)
            &&& file_untouched
            &&& holds_so_far(world, change.next, stage, world.clear_failed)
        },
        ProgressView::Saving => {
            &&& !clashes(change.next)
            &&& usable(change.next)
            &&& file_untouched
            &&& !world.clear_failed ==> holds_shortcuts_of(world, change.next)
        },
        ProgressView::Undoing(stage, _) => {
            &&& !clashes(change.next)
            &&& world.write_failed || file_untouched
            &&& holds_so_far(world, change.previous, stage, world.undo_failed)
        },
        ProgressView::Done(Ok(_)) => {
            &&& !clashes(change.next)
            &&& usable(change.next)
            &&& world.on_file == Some(change.next)
            &&& !world.clear_failed ==> holds_shortcuts_of(world, change.next)
        },
        ProgressView::Done(Err(_)) => {
            &&& world.write_failed || file_untouched
            &&& clashes(change.next) ==> world == start
            &&& !clashes(change.next) && !world.undo_failed ==> holds_shortcuts_of(
                world,
                change.previous,
            )
        },
    }
}

proof fn lemma_on_the_way(
    start: World,
    change: ChangeView,
    world: World,
    replies: Seq<Result<(), Seq<char>>>,
)
    requires
        on_the_way(start, change, world),
    ensures
        on_the_way(start, run(change, world, replies).0, run(change, world, replies).1),
        run(change, world, replies).0.previous == change.previous,
        run(change, world, replies).0.next == change.next,
    decreases replies.len(),
{
    if replies.len() > 0 {
        let after = change.after(replies[0]);
        let world_after = world_after(world, change, replies[0]);
        assert(on_the_way(start, after, world_after));
        lemma_on_the_way(start, after, world_after, replies.skip(1));
    }
}

proof fn lemma_registration_on_the_way(
    cfg: ConfigView,
    stage: StageView,
    world: World,
    replies: Seq<Result<(), Seq<char>>>,
)
    requires
        holds_so_far(world, cfg, stage, world.clear_failed),
        stage matches StageView::Done(Ok(_)) ==> usable(cfg) && (!world.clear_failed
            ==> holds_shortcuts_of(world, cfg)),
    ensures
        ({
            let (end, after) = run_registration(cfg, stage, world, replies);
            end matches StageView::Done(Ok(_)) ==> usable(cfg) && (!after.clear_failed
                ==> holds_shortcuts_of(after, cfg))
        }),
    decreases replies.len(),
{
    if replies.len() > 0 {
        lemma_registration_on_the_way(
            cfg,
            next_stage(wishes(cfg), stage, replies[0]),
            world_after_effect(world, stage_effect(stage), cfg, replies[0]),
            replies.skip(1),
        );
    }
}

/// However the system answers, and whatever shortcuts the program held before: a
/// registration that ends well leaves it with exactly the shortcuts in the
/// settings, unless the old ones could not be released.
pub proof fn law_registration_takes_effect(
    cfg: ConfigView,
    start: World,
    replies: Seq<Result<(), Seq<char>>>,
)
    ensures
        ({
            let (stage, world) = run_registration(cfg, StageView::Clear, start, replies);
            stage matches StageView::Done(Ok(_)) ==> {
                &&& usable(cfg)
                &&& !world.clear_failed ==> holds_shortcuts_of(world, cfg)
            }
        }),
{
    lemma_registration_on_the_way(cfg, StageView::Clear, start, replies);
}

/// However the system answers, and whatever shortcuts the program held before: a
/// change that ends well leaves it with exactly the new shortcuts, unless the old
/// ones could not be released, and with the new settings on file and in force.
pub proof fn law_change_takes_effect(
    previous: ConfigView,
    next: ConfigView,
    start: World,
    replies: Seq<Result<(), Seq<char>>>,
)
    ensures
        ({
            let (change, world) = run(first_change(previous, next), start, replies);
            change.progress matches ProgressView::Done(Ok(_)) ==> {
                &&& usable(next)
                &&& !clashes(next)
                &&& change.in_force() == next
                &&& world.on_file == Some(next)
                &&& !world.clear_failed ==> holds_shortcuts_of(world, next)
            }
        }),
{
    lemma_on_the_way(start, first_change(previous, next), start, replies);
}

/// However the system answers, and whatever shortcuts the program held before: a
/// change that fails leaves the previous settings in force. Where it is refused
/// because the two shortcuts clash, nothing is touched. Else the program ends up
/// with exactly the previous shortcuts, unless putting them back fails, and the
/// file is as it was, unless it was the writing that failed.
pub proof fn law_failed_change_is_undone(
    previous: ConfigView,
    next: ConfigView,
    start: World,
    replies: Seq<Result<(), Seq<char>>>,
)
    ensures
        ({
            let (change, world) = run(first_change(previous, next), start, replies);
            change.progress matches ProgressView::Done(Err(_)) ==> {
                &&& change.in_force() == previous
                &&& !world.write_failed ==> world.on_file == start.on_file
                &&& if clashes(next) {
                    world == start
                } else {
                    !world.undo_failed ==> holds_shortcuts_of(world, previous)
                }
            }
        }),
{
    lemma_on_the_way(start, first_change(previous, next), start, replies);
}

/// As long as no write fails, the file holds the settings in force, at every
/// moment of a change and however it ends.
pub proof fn law_file_holds_settings_in_force(
    previous: ConfigView,
    next: ConfigView,
    start: World,
    replies: Seq<Result<(), Seq<char>>>,
)
    requires
        start.on_file == Some(previous),
    ensures
        ({
            let (change, world) = run(first_change(previous, next), start, replies);
            !world.write_failed ==> world.on_file == Some(change.in_force())
        }),
{
    lemma_on_the_way(start, first_change(previous, next), start, replies);
}

proof fn lemma_run_after_end(
    change: ChangeView,
    world: World,
    replies: Seq<Result<(), Seq<char>>>,
)
    requires
        change.progress is Done,
    ensures
        run(change, world, replies).0 == change,
    decreases replies.len(),
{
    if replies.len() > 0 {
        assert(change.after(replies[0]) == change);
        lemma_run_after_end(change, world_after(world, change, replies[0]), replies.skip(1));
    }
}

/// A change to shortcuts that can be understood and do not clash succeeds where
/// the system does all that it is asked for.
pub proof fn law_undisturbed_change_succeeds(
    previous: ConfigView,
    next: ConfigView,
    start: World,
    replies: Seq<Result<(), Seq<char>>>,
)
    requires
        usable(next),
        !clashes(next),
        replies.len() >= 4,
        forall|i: int| 0 <= i < replies.len() ==> #[trigger] replies[i] is Ok,
    ensures
        run(first_change(previous, next), start, replies).0.progress == ProgressView::Done(Ok(())),
{
    let c0 = first_change(previous, next);
    let w1 = world_after(start, c0, replies[0]);
    let c1 = c0.after(replies[0]);
    let r1 = replies.skip(1);
    let w2 = world_after(w1, c1, r1[0]);
    let c2 = c1.after(r1[0]);
    let r2 = r1.skip(1);
    let w3 = world_after(w2, c2, r2[0]);
    let c3 = c2.after(r2[0]);
    let r3 = r2.skip(1);
    let w4 = world_after(w3, c3, r3[0]);
    let c4 = c3.after(r3[0]);
    assert(replies[0] is Ok && replies[1] is Ok && replies[2] is Ok && replies[3] is Ok);
    assert(r1[0] == replies[1] && r2[0] == replies[2] && r3[0] == replies[3]);
    assert(run(c0, start, replies) == run(c1, w1, r1));
    assert(run(c1, w1, r1) == run(c2, w2, r2));
    if c3.progress is Done {
        lemma_run_after_end(c3, w3, r3);
        assert(run(c2, w2, r2) == run(c3, w3, r3));
    } else {
        lemma_run_after_end(c4, w4, r3.skip(1));
        assert(run(c2, w2, r2) == run(c3, w3, r3));
        assert(run(c3, w3, r3) == run(c4, w4, r3.skip(1)));
    }
}

pub open spec fn stages_left(stage: StageView) -> nat {
    match stage {
        StageView::Clear => 3,
        StageView::Bind { slot: Slot::Read, .. } => 2,
        StageView::Bind { slot: Slot::Minimize, .. } => 1,
        StageView::Done(_) => 0,
    }
}

/// How many answers a change may still wait for.
pub open spec fn answers_left(change: ChangeView) -> nat {
    match change.progress {
        ProgressView::Binding(stage) => stages_left(stage) + 4,
        ProgressView::Saving => 4,
        ProgressView::Undoing(stage, _) => stages_left(stage),
        ProgressView::Done(_) => 0,
    }
}

/// Every answer brings a change nearer to its end: it never asks for more than
/// seven things.
pub proof fn law_change_ends(change: ChangeView, reply: Result<(), Seq<char>>)
    requires
        change.valid(),
    ensures
        change.after(reply).valid(),
        answers_left(change) <= 7,
        answers_left(change) == 0 <==> change.progress is Done,
        change.progress !is Done ==> answers_left(change.after(reply)) < answers_left(change),
        change.progress is Done ==> change.after(reply) == change,
{
}

/// The same text for both purposes is refused before anything is touched, whatever
/// the case of its letters and the space around it.
pub proof fn law_clash_is_refused(
    previous: ConfigView,
    hotkey: Seq<char>,
    minimize_hotkey: Seq<char>,
    save_dir: Seq<char>,
    show_startup_toast: bool,
)
    requires
        trimmed(hotkey).len() > 0,
        lower(trimmed(hotkey)) == lower(trimmed(minimize_hotkey)),
    ensures
        first_change(
            previous,
            entered(hotkey, minimize_hotkey, save_dir, show_startup_toast),
        ).progress == ProgressView::Done(
            Err("「读取选中文本」和「最小化/还原编辑器」不能使用同一个快捷键"@),
        ),
{
    assert(lower(trimmed(hotkey)).len() == trimmed(hotkey).len());
    assert(lower(trimmed(minimize_hotkey)).len() == trimmed(minimize_hotkey).len());
    lemma_trimmed_twice(minimize_hotkey);
}

/// What is entered counts without the white space around it, and a text of nothing
/// but white space counts as nothing.
pub proof fn law_space_around_entries_does_not_count(
    hotkey: &str,
    minimize_hotkey: &str,
    save_dir: &str,
    show_startup_toast: bool,
    r: Config,
)
    requires
        call_ensures(enter, (hotkey, minimize_hotkey, save_dir, show_startup_toast), r),
    ensures
        r.hotkey@ == trimmed(hotkey@),
        r.minimize_hotkey is None <==> blank(minimize_hotkey@),
        r.minimize_hotkey matches Some(text) ==> text@ == trimmed(minimize_hotkey@),
        r.save_dir is None <==> blank(save_dir@),
        r.save_dir matches Some(text) ==> text@ == trimmed(save_dir@),
        r.show_startup_toast == show_startup_toast,
        r@ == entered(hotkey@, minimize_hotkey@, save_dir@, show_startup_toast),
{
    lemma_trimmed_empty(minimize_hotkey@);
    lemma_trimmed_empty(save_dir@);
}

/// The two texts are written the same, but for case and the space around them.
pub open spec fn written_the_same(hotkey: Seq<char>, minimize_hotkey: Seq<char>) -> bool {
    !blank(minimize_hotkey) && lower(trimmed(hotkey)) == lower(trimmed(minimize_hotkey))
}

/// A change is refused at once if and only if both shortcuts are written the same;
/// any other change begins by releasing the shortcuts that are held. Either way it
/// is a change from the settings before to those that were entered.
pub proof fn law_only_texts_written_the_same_clash(
    previous: &Config,
    hotkey: &str,
    minimize_hotkey: &str,
    save_dir: &str,
    show_startup_toast: bool,
    r: SettingsChange,
)
    requires
        call_ensures(
            apply_settings,
            (previous, hotkey, minimize_hotkey, save_dir, show_startup_toast),
            r,
        ),
    ensures
        written_the_same(hotkey@, minimize_hotkey@) ==> r@.progress == ProgressView::Done(
            Err("「读取选中文本」和「最小化/还原编辑器」不能使用同一个快捷键"@),
        ),
        !written_the_same(hotkey@, minimize_hotkey@) ==> r@.progress == ProgressView::Binding(
            StageView::Clear,
        ) && r@.effect() == Effect::UnregisterAll,
        r@.previous == previous@,
        r@.next == entered(hotkey@, minimize_hotkey@, save_dir@, show_startup_toast),
        r@.in_force() == previous@,
{
    lemma_clash(hotkey@, minimize_hotkey@, save_dir@, show_startup_toast);
}

proof fn lemma_clash(
    hotkey: Seq<char>,
    minimize_hotkey: Seq<char>,
    save_dir: Seq<char>,
    show_startup_toast: bool,
)
    ensures
        clashes(entered(hotkey, minimize_hotkey, save_dir, show_startup_toast))
            <==> written_the_same(hotkey, minimize_hotkey),
{
    lemma_trimmed_empty(minimize_hotkey);
    lemma_trimmed_twice(minimize_hotkey);
}

/// Whether settings clash is decided by their two texts alone.
pub proof fn law_clash_is_about_the_texts(cfg: &Config, r: bool)
    requires
        call_ensures(is_clash, (cfg,), r),
    ensures
        r <==> {
            &&& cfg.minimize_hotkey matches Some(text)
            &&& !blank(text@)
            &&& lower(trimmed(text@)) == lower(cfg.hotkey@)
        },
{
    if let Some(text) = cfg.minimize_hotkey {
        lemma_trimmed_empty(text@);
    }
}

/// Two different shortcuts are never refused as the same, much as they may share.
pub proof fn law_different_shortcuts_do_not_clash(
    previous: ConfigView,
    hotkey: Seq<char>,
    minimize_hotkey: Seq<char>,
    save_dir: Seq<char>,
    show_startup_toast: bool,
)
    requires
        shortcut_of(trimmed(hotkey)) is Ok,
        shortcut_of(trimmed(hotkey)) != shortcut_of(trimmed(minimize_hotkey)),
    ensures
        first_change(
            previous,
            entered(hotkey, minimize_hotkey, save_dir, show_startup_toast),
        ).progress == ProgressView::Binding(StageView::Clear),
{
    lemma_clash(hotkey, minimize_hotkey, save_dir, show_startup_toast);
    if written_the_same(hotkey, minimize_hotkey) {
        law_case_does_not_matter(trimmed(hotkey), trimmed(minimize_hotkey));
    }
}

proof fn lemma_nothing_fails(
    change: ChangeView,
    world: World,
    replies: Seq<Result<(), Seq<char>>>,
)
    requires
        forall|i: int| 0 <= i < replies.len() ==> #[trigger] replies[i] is Ok,
    ensures
        run(change, world, replies).1.clear_failed == world.clear_failed,
        run(change, world, replies).1.write_failed == world.write_failed,
    decreases replies.len(),
{
    if replies.len() > 0 {
        assert(replies[0] is Ok);
        let rest = replies.skip(1);
        assert forall|i: int| 0 <= i < rest.len() implies #[trigger] rest[i] is Ok by {
            assert(replies[i + 1] is Ok);
        }
        lemma_nothing_fails(
            change.after(replies[0]),
            world_after(world, change, replies[0]),
            rest,
        );
    }
}

/// What is entered comes into force, where the system does all that it is asked
/// for: the first text has to be a shortcut, the second one too unless it is blank,
/// and the two must not be written the same. Then the program holds those two
/// shortcuts, or the one, and no other, and the file holds what was entered.
pub proof fn law_entered_settings_come_into_force(
    previous: ConfigView,
    hotkey: Seq<char>,
    minimize_hotkey: Seq<char>,
    save_dir: Seq<char>,
    show_startup_toast: bool,
    start: World,
    replies: Seq<Result<(), Seq<char>>>,
)
    requires
        shortcut_of(trimmed(hotkey)) is Ok,
        !blank(minimize_hotkey) ==> shortcut_of(trimmed(minimize_hotkey)) is Ok,
        !written_the_same(hotkey, minimize_hotkey),
        !start.clear_failed,
        replies.len() >= 4,
        forall|i: int| 0 <= i < replies.len() ==> #[trigger] replies[i] is Ok,
    ensures
        ({
            let next = entered(hotkey, minimize_hotkey, save_dir, show_startup_toast);
            let (change, world) = run(first_change(previous, next), start, replies);
            &&& change.progress == ProgressView::Done(Ok(()))
            &&& change.in_force() == next
            &&& world.on_file == Some(next)
            &&& world.read == Some(shortcut_of(trimmed(hotkey))->Ok_0)
            &&& world.minimize == if blank(minimize_hotkey) {
                None
            } else {
                Some(shortcut_of(trimmed(minimize_hotkey))->Ok_0)
            }
        }),
{
    let next = entered(hotkey, minimize_hotkey, save_dir, show_startup_toast);
    lemma_clash(hotkey, minimize_hotkey, save_dir, show_startup_toast);
    lemma_trimmed_empty(minimize_hotkey);
    lemma_trimmed_twice(minimize_hotkey);
    law_undisturbed_change_succeeds(previous, next, start, replies);
    law_change_takes_effect(previous, next, start, replies);
    lemma_nothing_fails(first_change(previous, next), start, replies);
}

/// A registration is for the shortcuts in the settings: the first as it is written,
/// the second without the white space around it unless it is blank; and it begins
/// by releasing what is held.
pub proof fn law_registration_is_for_the_settings(cfg: &Config, r: Registration)
    requires
        call_ensures(register_shortcuts, (cfg,), r),
    ensures
        r.wishes() == wishes(cfg@),
        r.wishes().hotkey == cfg.hotkey@,
        match cfg.minimize_hotkey {
            Some(text) if !blank(text@) => r.wishes().minimize == Some(trimmed(text@)),
            _ => r.wishes().minimize is None,
        },
        r.stage() == StageView::Clear,
{
    if let Some(text) = cfg.minimize_hotkey {
        lemma_trimmed_empty(text@);
    }
}

/// What a registration does about its first shortcut, whether or not the earlier
/// ones could be released: take it, or say why it cannot be understood.
pub proof fn law_release_may_fail(wishes: Wishes, reply: Result<(), Seq<char>>)
    ensures
        match shortcut_of(wishes.hotkey) {
            Ok(shortcut) => next_stage(wishes, StageView::Clear, reply) == (StageView::Bind {
                slot: Slot::Read,
                shortcut,
            }),
            Err(error) => next_stage(wishes, StageView::Clear, reply) == StageView::Done(
                Err(
                    RefusalView {
                        text: wishes.hotkey,
                        message: "读取快捷键"@ + "「"@ + wishes.hotkey + "」无效："@ + error_text(
                            error,
                        ),
                    },
                ),
            ),
        },
{
}

/// What follows the first shortcut: if the system refuses it, that is the end, with
/// the text and the reason; else the second one is taken, or complained of, and
/// where there is none that is the end, too.
pub proof fn law_second_shortcut_follows_the_first(
    wishes: Wishes,
    shortcut: Shortcut,
    error: Seq<char>,
)
    ensures
        ({
            let at_first = StageView::Bind { slot: Slot::Read, shortcut };
            let refused = next_stage(wishes, at_first, Err(error));
            let taken = next_stage(wishes, at_first, Ok(()));
            &&& refused == StageView::Done(
                Err(
                    RefusalView {
                        text: wishes.hotkey,
                        message: "「"@ + wishes.hotkey
                            + "」注册失败，可能已被别的程序占用："@ + error,
                    },
                ),
            )
            &&& match wishes.minimize {
                None => taken == StageView::Done(Ok(())),
                Some(text) => match shortcut_of(text) {
                    Ok(second) => taken == (StageView::Bind {
                        slot: Slot::Minimize,
                        shortcut: second,
                    }),
                    Err(fault) => taken == StageView::Done(
                        Err(
                            RefusalView {
                                text,
                                message: "最小化/还原快捷键"@ + "「"@ + text + "」无效："@
                                    + error_text(fault),
                            },
                        ),
                    ),
                },
            }
        }),
{
}

/// What follows the second shortcut: the end, good or bad as the system has it; and
/// the end stays.
pub proof fn law_second_shortcut_is_the_last(
    wishes: Wishes,
    text: Seq<char>,
    shortcut: Shortcut,
    error: Seq<char>,
    end: Result<(), RefusalView>,
    reply: Result<(), Seq<char>>,
)
    requires
        wishes.minimize == Some(text),
    ensures
        ({
            let at_second = StageView::Bind { slot: Slot::Minimize, shortcut };
            &&& next_stage(wishes, at_second, Ok(())) == StageView::Done(Ok(()))
            &&& next_stage(wishes, at_second, Err(error)) == StageView::Done(
                Err(
                    RefusalView {
                        text,
                        message: "「"@ + text + "」注册失败，可能已被别的程序占用："@ + error,
                    },
                ),
            )
            &&& next_stage(wishes, StageView::Done(end), reply) == StageView::Done(end)
        }),
{
}

/// A registration does what the laws on its stages say, and asks the system for
/// what its stage stands for.
pub proof fn law_registration_follows_the_answers(reply: Result<(), String>)
    ensures
        forall|it: &mut Registration| #[trigger]
            call_ensures(Registration::reply, (it, reply), ()) ==> {
                &&& final(it).wishes() == it.wishes()
                &&& final(it).stage() == next_stage(it.wishes(), it.stage(), error_view(reply))
            },
        forall|it: &Registration, r: Effect| #[trigger]
            call_ensures(Registration::effect, (it,), r) ==> match it.stage() {
                StageView::Clear => r == Effect::UnregisterAll,
                StageView::Bind { slot, shortcut } => r == (Effect::Register { slot, shortcut }),
                StageView::Done(_) => r == Effect::Finish,
            },
        forall|it: Registration, r: Option<Result<(), Refusal>>| #[trigger]
            call_ensures(Registration::result, (it,), r) ==> match it.stage() {
                StageView::Done(Ok(_)) => r matches Some(Ok(_)),
                StageView::Done(Err(refusal)) => r is Some && r->0 is Err && r->0->Err_0@
                    == refusal,
                _ => r is None,
            },
{
}

/// The first failure is the one that the user is told of: whatever happens while
/// the previous shortcuts are put back, the end tells that failure, and the end
/// comes even if they cannot be put back.
pub proof fn law_first_failure_is_told(
    previous: ConfigView,
    next: ConfigView,
    stage: StageView,
    message: Seq<char>,
    reply: Result<(), Seq<char>>,
)
    ensures
        ({
            let undone = next_stage(wishes(previous), stage, reply);
            let after = next_progress(
                previous,
                next,
                ProgressView::Undoing(stage, message),
                reply,
            );
            &&& undone is Done ==> after == ProgressView::Done(Err(message))
            &&& undone !is Done ==> after == ProgressView::Undoing(undone, message)
        }),
{
}

/// A change goes from registering to writing to its end; a failure on the way leads
/// to putting the previous shortcuts back, from the beginning, with what the user
/// is to be told.
pub proof fn law_change_registers_and_then_writes(
    previous: ConfigView,
    next: ConfigView,
    stage: StageView,
    error: Seq<char>,
    reply: Result<(), Seq<char>>,
)
    ensures
        next_progress(previous, next, ProgressView::Binding(stage), reply) == match next_stage(
            wishes(next),
            stage,
            reply,
        ) {
            StageView::Done(Ok(_)) => ProgressView::Saving,
            StageView::Done(Err(refusal)) => ProgressView::Undoing(
                StageView::Clear,
                refusal.message,
            ),
            further => ProgressView::Binding(further),
        },
        next_progress(previous, next, ProgressView::Saving, Ok(())) == ProgressView::Done(Ok(())),
        next_progress(previous, next, ProgressView::Saving, Err(error)) == ProgressView::Undoing(
            StageView::Clear,
            "写配置文件失败："@ + error,
        ),
{
}

/// The new settings are in force exactly when the change has ended well; until then,
/// and after a failure, it is the previous ones.
pub proof fn law_new_settings_wait_for_success(change: ChangeView)
    ensures
        change.progress matches ProgressView::Done(Ok(_)) ==> change.in_force() == change.next,
        !(change.progress matches ProgressView::Done(Ok(_))) ==> change.in_force()
            == change.previous,
{
}

/// A change does what the laws on its view say.
pub proof fn law_change_follows_the_answers(
    change: SettingsChange,
    reply: Result<(), String>,
    after: SettingsChange,
    effect: Effect,
    in_force: &Config,
    next: &Config,
    end: Option<Result<(), String>>,
)
    requires
        call_ensures(SettingsChange::reply, (change, reply), after),
        call_ensures(SettingsChange::effect, (&change,), effect),
        call_ensures(SettingsChange::in_force, (&change,), in_force),
        call_ensures(SettingsChange::next_config, (&change,), next),
        call_ensures(SettingsChange::result, (&change,), end),
    ensures
        after@.previous == change@.previous,
        after@.next == change@.next,
        after@.progress == next_progress(
            change@.previous,
            change@.next,
            change@.progress,
            error_view(reply),
        ),
        match change@.progress {
            ProgressView::Binding(stage) => effect == stage_effect(stage),
            ProgressView::Saving => effect == Effect::WriteConfig,
            ProgressView::Undoing(stage, _) => effect == stage_effect(stage),
            ProgressView::Done(_) => effect == Effect::Finish,
        },
        in_force@ == change@.in_force(),
        next@ == change@.next,
        match change@.progress {
            ProgressView::Done(Ok(_)) => end matches Some(Ok(_)),
            ProgressView::Done(Err(message)) => end is Some && end->0 is Err && end->0->Err_0@
                == message,
            _ => end is None,
        },
{
}

/// Pressing a shortcut does what the line of the tray menu for it does, and
/// releasing one does nothing.
pub proof fn law_shortcut_does_what_the_menu_does(
    slot: Slot,
    pressed: bool,
    r: TrayAction,
    reading: TrayAction,
    toggling: TrayAction,
)
    requires
        call_ensures(on_shortcut, (slot, pressed), r),
        call_ensures(on_menu, ("pick",), reading),
        call_ensures(on_menu, ("clear_editors",), toggling),
    ensures
        !pressed ==> r == TrayAction::Ignore,
        pressed && slot == Slot::Read ==> r == reading && r == TrayAction::Read,
        pressed && slot == Slot::Minimize ==> r == toggling && r == TrayAction::ToggleEditors,
{
    law_only_menu_lines_act("pick", reading);
    law_only_menu_lines_act("clear_editors", toggling);
}

} // verus!
