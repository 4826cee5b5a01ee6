//! What the windows of the program are told, and what the log is told.
use crate::config::{fill, filled_option, save_dir, Config, ConfigView, LocationView};
use crate::selection::{outcome_view, Failure, Snapshot};
use crate::settings::{entered, refusal_view, shortcut_or_none, Refusal, RefusalView};
use crate::shortcut::law_outer_space_does_not_matter;
use crate::text::{
    blank, decimal, lemma_trimmed_empty, lemma_trimmed_twice, to_decimal, trim, trimmed,
};
use vstd::prelude::*;

verus! {

/// What the windows show of the settings.
#[derive(Debug)]
pub struct UiInfo {
    pub hotkey: String,
    /// Empty where there is no such shortcut.
    pub minimize_hotkey: String,
    pub show_startup_toast: bool,
    /// The directory for saved texts that is in use.
    pub save_dir: String,
    /// The directory as it stands in the settings. Empty for the default: it must
    /// not turn into a written one by being shown.
    pub save_dir_raw: String,
    pub save_dir_custom: bool,
    pub save_dir_exists: bool,
}

#[verifier::ext_equal]
pub struct UiInfoView {
    pub hotkey: Seq<char>,
    pub minimize_hotkey: Seq<char>,
    pub show_startup_toast: bool,
    pub save_dir: Seq<char>,
    pub save_dir_raw: Seq<char>,
    pub save_dir_custom: bool,
    pub save_dir_exists: bool,
}

impl View for UiInfo {
    type V = UiInfoView;

    open spec fn view(&self) -> UiInfoView {
        UiInfoView {
            hotkey: self.hotkey@,
            minimize_hotkey: self.minimize_hotkey@,
            show_startup_toast: self.show_startup_toast,
            save_dir: self.save_dir@,
            save_dir_raw: self.save_dir_raw@,
            save_dir_custom: self.save_dir_custom,
            save_dir_exists: self.save_dir_exists,
        }
    }
}

pub open spec fn text_or(text: Option<Seq<char>>, default: Seq<char>) -> Seq<char> {
    match text {
        Some(text) => text,
        None => default,
    }
}

pub open spec fn shown(cfg: ConfigView, dir: Seq<char>, dir_exists: bool) -> UiInfoView {
    UiInfoView {
        hotkey: cfg.hotkey,
        minimize_hotkey: text_or(filled_option(cfg.minimize_hotkey), Seq::empty()),
        show_startup_toast: cfg.show_startup_toast,
        save_dir: dir,
        save_dir_raw: text_or(cfg.save_dir, Seq::empty()),
        save_dir_custom: filled_option(cfg.save_dir) is Some,
        save_dir_exists: dir_exists,
    }
}

impl UiInfo {
    /// What the windows show of the settings. `dir` is the directory for saved
    /// texts that is in use.
    pub fn build(cfg: &Config, dir: String, dir_exists: bool) -> (r: UiInfo)
        ensures
            r@ == shown(cfg@, dir@, dir_exists),
    {
        let (raw, custom) = match &cfg.save_dir {
            Some(text) => (text.clone(), fill(text.as_str()).is_some()),
            None => (String::new(), false),
        };
        UiInfo {
            hotkey: cfg.hotkey.clone(),
            minimize_hotkey: match cfg.minimize_spec() {
                Some(text) => text.to_owned(),
                None => String::new(),
            },
            show_startup_toast: cfg.show_startup_toast,
            save_dir: dir,
            save_dir_raw: raw,
            save_dir_custom: custom,
            save_dir_exists: dir_exists,
        }
    }
}

/// The directory that the user asks to open, without the white space around it.
pub fn open_dir(path: &str) -> (r: Result<&str, String>)
    ensures
        match r {
            Ok(dir) => dir@.len() > 0 && dir@ == trimmed(path@),
            Err(error) => trimmed(path@).len() == 0 && error@ == "路径为空"@,
        },
{
    let dir = trim(path);
    if dir.is_empty() {
        Err("路径为空".to_owned())
    } else {
        Ok(dir)
    }
}

// ── The log ──

/// The line that the program starts with.
pub fn startup_line(config_path: &str, cfg: &Config) -> (r: String)
    ensures
        r@ == "── 启动 ──  配置 "@ + config_path@ + "  快捷键 "@ + cfg@.hotkey,
{
    "── 启动 ──  配置 ".to_owned().concat(config_path).concat("  快捷键 ").concat(
        cfg.hotkey.as_str(),
    )
}

pub open spec fn registered(cfg: ConfigView, result: Result<(), RefusalView>) -> Seq<char> {
    match result {
        Ok(_) => "全局快捷键已注册：读取 ["@ + cfg.hotkey + "]，最小化/还原 ["@ + text_or(
            filled_option(cfg.minimize_hotkey),
            "未设置"@,
        ) + "]"@,
        Err(refusal) => "快捷键 ["@ + refusal.text + "] 注册失败："@ + refusal.message,
    }
}

/// The line on the registration of the shortcuts at startup.
pub fn registration_line(cfg: &Config, result: &Result<(), Refusal>) -> (r: String)
    ensures
        r@ == registered(cfg@, refusal_view(*result)),
{
    match result {
        Ok(_) => "全局快捷键已注册：读取 [".to_owned().concat(cfg.hotkey.as_str()).concat(
            "]，最小化/还原 [",
        ).concat(
            match cfg.minimize_spec() {
                Some(text) => text,
                None => "未设置",
            },
        ).concat("]"),
        Err(refusal) => "快捷键 [".to_owned().concat(refusal.text.as_str()).concat(
            "] 注册失败：",
        ).concat(refusal.message.as_str()),
    }
}

/// The line on a change of the settings.
pub fn settings_line(cfg: &Config) -> (r: String)
    ensures
        r@ == "设置已更新：读取 ["@ + cfg@.hotkey + "]，最小化/还原 ["@ + text_or(
            filled_option(cfg@.minimize_hotkey),
            "<未设置>"@,
        ) + "]，保存目录 ["@ + text_or(cfg@.save_dir, "<默认>"@) + "]，启动提示 ["@
            + if cfg@.show_startup_toast {
            "开"@
        } else {
            "关"@
        } + "]"@,
{
    let minimize = match cfg.minimize_spec() {
        Some(text) => text,
        None => "<未设置>",
    };
    let dir = match &cfg.save_dir {
        Some(text) => text.as_str(),
        None => "<默认>",
    };
    let toast = if cfg.show_startup_toast {
        "开"
    } else {
        "关"
    };
    "设置已更新：读取 [".to_owned().concat(cfg.hotkey.as_str()).concat(
        "]，最小化/还原 [",
    ).concat(minimize).concat("]，保存目录 [").concat(dir).concat("]，启动提示 [").concat(
        toast,
    ).concat("]")
}

/// The line on a reading: the program and the length of the text, or why there is
/// none.
pub fn reading_line(outcome: &Result<Snapshot, Failure>) -> (r: String)
    ensures
        r@ == match outcome_view(*outcome) {
            Ok(snapshot) => "读取成功："@ + snapshot.process + " / "@ + decimal(
                snapshot.text.len(),
            ) + " 字符"@,
            Err(failure) => "读取失败："@ + failure.message,
        },
{
    match outcome {
        Ok(snapshot) => {
            let len: usize = snapshot.text.as_str().unicode_len();
            "读取成功：".to_owned().concat(snapshot.process.as_str()).concat(" / ").concat(
                to_decimal(len as u64).as_str(),
            ).concat(" 字符")
        },
        Err(failure) => "读取失败：".to_owned().concat(failure.message.as_str()),
    }
}

/// A line of the log, with the time in front.
pub fn log_line(stamp: &str, message: &str) -> (r: String)
    ensures
        r@ == "["@ + stamp@ + "] "@ + message@ + "\n"@,
{
    "[".to_owned().concat(stamp).concat("] ").concat(message).concat("\n")
}

// ── Laws ──

/// Settings that went through the settings window stay as they are when they are
/// shown there and entered again: a default stays a default.
pub proof fn law_entering_what_is_shown_changes_nothing(
    hotkey: Seq<char>,
    minimize_hotkey: Seq<char>,
    save_dir: Seq<char>,
    show_startup_toast: bool,
    dir: Seq<char>,
    dir_exists: bool,
)
    ensures
        ({
            let cfg = entered(hotkey, minimize_hotkey, save_dir, show_startup_toast);
            let info = shown(cfg, dir, dir_exists);
            entered(
                info.hotkey,
                info.minimize_hotkey,
                info.save_dir_raw,
                info.show_startup_toast,
            ) == cfg
        }),
{
    lemma_trimmed_twice(hotkey);
    lemma_trimmed_twice(minimize_hotkey);
    lemma_trimmed_twice(save_dir);
    assert(trimmed(Seq::<char>::empty()) == Seq::<char>::empty());
}

/// Settings that were edited by hand mean the same once they are shown in the
/// settings window and entered there: the same shortcuts, the same directory.
pub proof fn law_edited_settings_can_be_entered(
    cfg: ConfigView,
    dir: Seq<char>,
    dir_exists: bool,
)
    ensures
        ({
            let info = shown(cfg, dir, dir_exists);
            let next = entered(
                info.hotkey,
                info.minimize_hotkey,
                info.save_dir_raw,
                info.show_startup_toast,
            );
            &&& shortcut_or_none(next.hotkey) == shortcut_or_none(cfg.hotkey)
            &&& filled_option(next.minimize_hotkey) == filled_option(cfg.minimize_hotkey)
            &&& filled_option(next.save_dir) == filled_option(cfg.save_dir)
            &&& next.show_startup_toast == cfg.show_startup_toast
        }),
{
    law_outer_space_does_not_matter(cfg.hotkey);
    if let Some(text) = cfg.minimize_hotkey {
        lemma_trimmed_twice(text);
        lemma_trimmed_twice(trimmed(text));
    }
    if let Some(text) = cfg.save_dir {
        lemma_trimmed_twice(text);
    }
    assert(trimmed(Seq::<char>::empty()) == Seq::<char>::empty());
}

/// The directory is shown as the user's own exactly when it is the one that is
/// used.
pub proof fn law_custom_directory_is_used<P>(
    cfg: ConfigView,
    document_dir: Option<P>,
    own_dir: LocationView<P>,
    dir: Seq<char>,
    dir_exists: bool,
)
    requires
        own_dir.base is System,
    ensures
        shown(cfg, dir, dir_exists).save_dir_custom <==> save_dir(
            cfg,
            document_dir,
            own_dir,
        ).base is Written,
{
}

/// What the windows show of the settings is what stands there: a shortcut without
/// the space around it, the directory in use beside the one that is written, and
/// nothing where nothing is set.
pub proof fn law_settings_are_shown_as_they_are(
    cfg: &Config,
    dir: String,
    dir_exists: bool,
    r: UiInfo,
)
    requires
        call_ensures(UiInfo::build, (cfg, dir, dir_exists), r),
    ensures
        r.hotkey@ == cfg.hotkey@,
        cfg.minimize_hotkey matches Some(text) ==> r.minimize_hotkey@ == trimmed(text@),
        cfg.minimize_hotkey is None ==> r.minimize_hotkey@.len() == 0,
        r.show_startup_toast == cfg.show_startup_toast,
        r.save_dir@ == dir@,
        r.save_dir_exists == dir_exists,
        cfg.save_dir matches Some(text) ==> r.save_dir_raw@ == text@ && (r.save_dir_custom
            <==> !blank(text@)),
        cfg.save_dir is None ==> r.save_dir_raw@.len() == 0 && !r.save_dir_custom,
{
    if let Some(text) = cfg.minimize_hotkey {
        assert(trimmed(text@).len() == 0 ==> trimmed(text@) == Seq::<char>::empty());
    }
    if let Some(text) = cfg.save_dir {
        lemma_trimmed_empty(text@);
    }
}

/// Any directory can be opened but one that is all white space, and it is opened
/// without the white space around it.
pub proof fn law_only_blank_path_is_refused(path: &str, r: Result<&str, String>)
    requires
        call_ensures(open_dir, (path,), r),
    ensures
        r is Err <==> blank(path@),
        r matches Ok(dir) ==> dir@ == trimmed(path@),
        r matches Err(error) ==> error@ == "路径为空"@,
{
    lemma_trimmed_empty(path@);
}

/// A line of the log tells the time and the message, whole, and ends there.
pub proof fn law_log_holds_the_message(stamp: &str, message: &str, r: String)
    requires
        call_ensures(log_line, (stamp, message), r),
    ensures
        r@.len() == stamp@.len() + message@.len() + 4,
        r@[0] == '[',
        r@.subrange(1, 1 + stamp@.len() as int) == stamp@,
        r@[1 + stamp@.len() as int] == ']',
        r@[2 + stamp@.len() as int] == ' ',
        r@.subrange(3 + stamp@.len() as int, r@.len() - 1) == message@,
        r@.last() == '\n',
{
    reveal_strlit("[");
    reveal_strlit("] ");
    reveal_strlit("\n");
    assert(r@.subrange(1, 1 + stamp@.len() as int) =~= stamp@);
    assert(r@.subrange(3 + stamp@.len() as int, r@.len() - 1) =~= message@);
}

/// The log tells of a reading the program and how many characters were read, or
/// the reason why none were; never the text itself.
pub proof fn law_log_tells_of_a_reading(outcome: &Result<Snapshot, Failure>, r: String)
    requires
        call_ensures(reading_line, (outcome,), r),
    ensures
        match *outcome {
            Ok(snapshot) => r@ == "读取成功："@ + snapshot.process@ + " / "@ + decimal(
                snapshot.text@.len(),
            ) + " 字符"@,
            Err(failure) => r@ == "读取失败："@ + failure.message@,
        },
{
}

/// The log tells of a registration both shortcuts, or the one that failed and why.
pub proof fn law_log_tells_of_a_registration(
    cfg: &Config,
    result: &Result<(), Refusal>,
    r: String,
)
    requires
        call_ensures(registration_line, (cfg, result), r),
    ensures
        match *result {
            Err(refusal) => r@ == "快捷键 ["@ + refusal.text@ + "] 注册失败："@
                + refusal.message@,
            Ok(_) => r@ == "全局快捷键已注册：读取 ["@ + cfg.hotkey@ + "]，最小化/还原 ["@ + (
            match cfg.minimize_hotkey {
                Some(text) if !blank(text@) => trimmed(text@),
                _ => "未设置"@,
            }) + "]"@,
        },
{
    if let Some(text) = cfg.minimize_hotkey {
        lemma_trimmed_empty(text@);
    }
}

/// The log tells of a change of the settings every setting, and of the start where
/// the settings are kept and which shortcut reads.
pub proof fn law_log_tells_of_the_settings(
    cfg: &Config,
    changed: String,
    config_path: &str,
    started: String,
)
    requires
        call_ensures(settings_line, (cfg,), changed),
        call_ensures(startup_line, (config_path, cfg), started),
    ensures
        changed@ == "设置已更新：读取 ["@ + cfg.hotkey@ + "]，最小化/还原 ["@ + (
        match cfg.minimize_hotkey {
            Some(text) if !blank(text@) => trimmed(text@),
            _ => "<未设置>"@,
        }) + "]，保存目录 ["@ + (match cfg.save_dir {
            Some(text) => text@,
            None => "<默认>"@,
        }) + "]，启动提示 ["@ + (if cfg.show_startup_toast {
            "开"@
        } else {
            "关"@
        }) + "]"@,
        started@ == "── 启动 ──  配置 "@ + config_path@ + "  快捷键 "@ + cfg.hotkey@,
{
    if let Some(text) = cfg.minimize_hotkey {
        lemma_trimmed_empty(text@);
    }
}

} // verus!
