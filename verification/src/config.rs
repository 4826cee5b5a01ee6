//! The settings, where they are kept, and where saved texts go.
use crate::text::{
    blank, lemma_trimmed_empty, lemma_trimmed_twice, same, slice_view, text_view, trim, trimmed, views,
};
use vstd::prelude::*;

verus! {

#[derive(Debug)]
pub struct Config {
    /// The global shortcut that reads the selected text.
    pub hotkey: String,
    /// The global shortcut that minimizes or restores the editors. Nothing, or
    /// nothing but white space: no shortcut.
    pub minimize_hotkey: Option<String>,
    /// The directory for saved texts. Nothing, or nothing but white space: the
    /// default directory.
    pub save_dir: Option<String>,
    /// Whether to tell at startup that the program runs in the background.
    pub show_startup_toast: bool,
}

#[verifier::ext_equal]
pub struct ConfigView {
    pub hotkey: Seq<char>,
    pub minimize_hotkey: Option<Seq<char>>,
    pub save_dir: Option<Seq<char>>,
    pub show_startup_toast: bool,
}

impl View for Config {
    type V = ConfigView;

    open spec fn view(&self) -> ConfigView {
        ConfigView {
            hotkey: self.hotkey@,
            minimize_hotkey: text_view(self.minimize_hotkey),
            save_dir: text_view(self.save_dir),
            show_startup_toast: self.show_startup_toast,
        }
    }
}

/// A text without the white space around it, unless nothing is left.
pub open spec fn filled(text: Seq<char>) -> Option<Seq<char>> {
    if trimmed(text).len() == 0 {
        None
    } else {
        Some(trimmed(text))
    }
}

pub open spec fn filled_option(text: Option<Seq<char>>) -> Option<Seq<char>> {
    match text {
        Some(text) => filled(text),
        None => None,
    }
}

/// The part of a text between the white space around it, unless nothing is
/// left.
pub fn fill<'a>(text: &'a str) -> (r: Option<&'a str>)
    ensures
        slice_view(r) == filled(text@),
{
    let inner = trim(text);
    if inner.is_empty() {
        None
    } else {
        Some(inner)
    }
}

impl Clone for Config {
    fn clone(&self) -> (r: Config)
        ensures
            r@ == self@,
    {
        Config {
            hotkey: self.hotkey.clone(),
            minimize_hotkey: self.minimize_hotkey.clone(),
            save_dir: self.save_dir.clone(),
            show_startup_toast: self.show_startup_toast,
        }
    }
}

pub open spec fn default_config() -> ConfigView {
    ConfigView {
        hotkey: "Ctrl+Shift+A"@,
        minimize_hotkey: Some("Ctrl+Shift+D"@),
        save_dir: None,
        show_startup_toast: true,
    }
}

impl Default for Config {
    fn default() -> (r: Config)
        ensures
            r@ == default_config(),
    {
        Config {
            hotkey: "Ctrl+Shift+A".to_owned(),
            minimize_hotkey: Some("Ctrl+Shift+D".to_owned()),
            save_dir: None,
            show_startup_toast: true,
        }
    }
}

impl Config {
    /// The shortcut that minimizes or restores the editors, without the white
    /// space around it, if there is one.
    pub fn minimize_spec(&self) -> (r: Option<&str>)
        ensures
            slice_view(r) == filled_option(self@.minimize_hotkey),
    {
        match &self.minimize_hotkey {
            Some(text) => fill(text.as_str()),
            None => None,
        }
    }
}

// ── Places ──

/// A directory that a path starts from.
#[derive(Debug)]
pub enum Base<P> {
    /// One that the system gave.
    System(P),
    /// One that the user wrote.
    Written(String),
}

/// A path: a directory, and the names to append to it one after the other.
#[derive(Debug)]
pub struct Location<P> {
    pub base: Base<P>,
    pub names: Vec<String>,
}

pub enum BaseView<P> {
    System(P),
    Written(Seq<char>),
}

#[verifier::ext_equal]
pub struct LocationView<P> {
    pub base: BaseView<P>,
    pub names: Seq<Seq<char>>,
}

impl<P> View for Location<P> {
    type V = LocationView<P>;

    open spec fn view(&self) -> LocationView<P> {
        LocationView {
            base: match self.base {
                Base::System(p) => BaseView::System(p),
                Base::Written(text) => BaseView::Written(text@),
            },
            names: views(self.names@),
        }
    }
}

impl<P> LocationView<P> {
    pub open spec fn below(self, name: Seq<char>) -> LocationView<P> {
        LocationView { base: self.base, names: self.names.push(name) }
    }

    pub open spec fn system(p: P) -> LocationView<P> {
        LocationView { base: BaseView::System(p), names: Seq::empty() }
    }

    pub open spec fn written(text: Seq<char>) -> LocationView<P> {
        LocationView { base: BaseView::Written(text), names: Seq::empty() }
    }
}

impl<P> Location<P> {
    /// The entry of that name in this directory.
    pub fn join(self, name: &str) -> (r: Location<P>)
        ensures
            r@ == self@.below(name@),
    {
        let mut names = self.names;
        names.push(name.to_owned());
        let r = Location { base: self.base, names };
        assert(r@.names == self@.below(name@).names);
        r
    }
}

/// The directory of the program's own files: `text-snap` in the application
/// data directory, or in the temporary directory where there is none.
pub fn dir<P>(app_data: Option<P>, temp: P) -> (r: Location<P>)
    ensures
        r@ == config_dir(app_data, temp),
{
    let base = match app_data {
        Some(p) => Base::System(p),
        None => Base::System(temp),
    };
    let r = Location { base, names: Vec::new() };
    assert(r@.names == Seq::<Seq<char>>::empty());
    r.join("text-snap")
}

pub open spec fn config_dir<P>(app_data: Option<P>, temp: P) -> LocationView<P> {
    LocationView::system(
        match app_data {
            Some(p) => p,
            None => temp,
        },
    ).below("text-snap"@)
}

/// The file that holds the settings.
pub fn path<P>(app_data: Option<P>, temp: P) -> (r: Location<P>)
    ensures
        r@ == config_dir(app_data, temp).below("config.json"@),
{
    dir(app_data, temp).join("config.json")
}

/// The directory for saved texts, given the one for documents, if there is one,
/// and the one for the program's own files.
pub open spec fn save_dir<P>(
    cfg: ConfigView,
    document_dir: Option<P>,
    own_dir: LocationView<P>,
) -> LocationView<P> {
    match filled_option(cfg.save_dir) {
        Some(custom) => LocationView::written(custom),
        None => match document_dir {
            Some(documents) => LocationView::system(documents).below("text-snap"@),
            None => own_dir.below("saved"@),
        },
    }
}

/// Finds the directory for saved texts: the one in the settings, else
/// `text-snap` among the documents, else `saved` beside the program's own files.
pub fn resolve_save_dir<P>(
    cfg: &Config,
    document_dir: Option<P>,
    own_dir: Location<P>,
) -> (r: Location<P>)
    ensures
        r@ == save_dir(cfg@, document_dir, own_dir@),
{
    if let Some(text) = &cfg.save_dir {
        if let Some(custom) = fill(text.as_str()) {
            let r = Location { base: Base::Written(custom.to_owned()), names: Vec::new() };
            assert(r@.names == Seq::<Seq<char>>::empty());
            return r;
        }
    }
    match document_dir {
        Some(documents) => {
            let r = Location { base: Base::System(documents), names: Vec::new() };
            assert(r@.names == Seq::<Seq<char>>::empty());
            r.join("text-snap")
        },
        None => own_dir.join("saved"),
    }
}

// ── Reading the settings ──

/// The settings to run with, and whether to write them to the file.
pub struct Loaded {
    pub config: Config,
    pub write: bool,
}

/// Chooses the settings to run with. `parsed` is what the file holds, or nothing
/// where there is no file or it cannot be understood: then the defaults are used,
/// and written out for the user to edit.
pub fn load(parsed: Option<Config>) -> (r: Loaded)
    ensures
        match parsed {
            Some(config) => r.config == config && !r.write,
            None => r.config@ == default_config() && r.write,
        },
{
    match parsed {
        Some(config) => Loaded { config, write: false },
        None => Loaded { config: Config::default(), write: true },
    }
}

/// The label of the settings window.
pub const SETTINGS_LABEL: &'static str = "settings";

/// The settings that a window is to show. For the settings window these are those
/// on file, which the user may have edited there, where they can be understood;
/// else, and for any other window, those in force.
pub fn settings_to_show(label: &str, on_file: Option<Config>, in_force: &Config) -> (r: Config)
    ensures
        if label@ == SETTINGS_LABEL@ && on_file is Some {
            r == on_file->0
        } else {
            r@ == in_force@
        },
{
    if same(label, SETTINGS_LABEL) {
        if let Some(config) = on_file {
            return config;
        }
    }
    in_force.clone()
}

// ── Laws ──

/// A text that is all white space stands for nothing; any other stands for what is
/// left without the white space around it, and that for itself.
pub proof fn law_blank_stands_for_nothing(text: Seq<char>)
    ensures
        filled(text) is None <==> blank(text),
        filled(text) matches Some(inner) ==> {
            &&& inner == trimmed(text)
            &&& inner.len() > 0
            &&& filled(inner) == Some(inner)
        },
        filled_option(Some(text)) == filled(text),
        filled_option(None) is None,
        forall|s: &str, r: Option<&str>| #[trigger]
            call_ensures(fill, (s,), r) ==> slice_view(r) == filled(s@),
        forall|cfg: &Config, r: Option<&str>| #[trigger]
            call_ensures(Config::minimize_spec, (cfg,), r) ==> slice_view(r) == filled_option(
                cfg@.minimize_hotkey,
            ),
{
    lemma_trimmed_empty(text);
    lemma_trimmed_twice(text);
}

/// The program's own files stand in one directory below the one for application
/// data, or below the temporary one if and only if there is no such directory; the
/// file of the settings stands in it.
pub proof fn law_own_files_stay_together<P>(
    app_data: Option<P>,
    temp: P,
    dir_found: Location<P>,
    file_found: Location<P>,
)
    requires
        call_ensures(dir::<P>, (app_data, temp), dir_found),
        call_ensures(path::<P>, (app_data, temp), file_found),
    ensures
        dir_found@.names == seq!["text-snap"@],
        file_found@.names == seq!["text-snap"@, "config.json"@],
        file_found@.base == dir_found@.base,
        app_data matches Some(p) ==> dir_found@.base == BaseView::System(p),
        app_data is None ==> dir_found@.base == BaseView::System(temp),
{
}

/// Saved texts go to the directory in the settings, as it is written there but for
/// the white space around it. Where there is none, or only white space, they go
/// among the documents, or if there is no such place beside the program's own files.
pub proof fn law_texts_go_where_the_settings_say<P>(
    cfg: &Config,
    document_dir: Option<P>,
    own_dir: Location<P>,
    r: Location<P>,
)
    requires
        call_ensures(resolve_save_dir::<P>, (cfg, document_dir, own_dir), r),
    ensures
        match (cfg.save_dir, document_dir) {
            (Some(text), _) if !blank(text@) => r@.base == BaseView::<P>::Written(trimmed(text@))
                && r@.names.len() == 0,
            (_, Some(documents)) => r@.base == BaseView::System(documents) && r@.names
                == seq!["text-snap"@],
            (_, None) => r@.base == own_dir@.base && r@.names == own_dir@.names.push("saved"@),
        },
{
    if let Some(text) = cfg.save_dir {
        lemma_trimmed_empty(text@);
    }
}

/// Settings that can be understood are used as they are, and never written over;
/// else the defaults are used, and written out.
pub proof fn law_file_is_not_written_over(parsed: Option<Config>, r: Loaded)
    requires
        call_ensures(load, (parsed,), r),
    ensures
        r.write <==> parsed is None,
        parsed matches Some(config) ==> r.config@ == config@,
        parsed is None ==> {
            &&& r.config.hotkey@ == "Ctrl+Shift+A"@
            &&& r.config.minimize_hotkey is Some
            &&& r.config.minimize_hotkey->0@ == "Ctrl+Shift+D"@
            &&& r.config.save_dir is None
            &&& r.config.show_startup_toast
        },
{
}

/// The settings window shows what is on file, where that can be understood; every
/// other window, and the settings window otherwise, shows what is in force.
pub proof fn law_only_the_settings_window_shows_the_file(
    label: &str,
    on_file: Option<Config>,
    in_force: &Config,
    r: Config,
)
    requires
        call_ensures(settings_to_show, (label, on_file, in_force), r),
    ensures
        label@ != "settings"@ || on_file is None ==> r@ == in_force@,
        label@ == "settings"@ ==> (on_file matches Some(config) ==> r@ == config@),
{
}

} // verus!
