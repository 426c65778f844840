//! The settings panel: its state, the messages it reacts to, and what each
//! message asks the application to do next.
use crate::paths::{path_components, paths_equal, same_path};
use vstd::prelude::*;

verus! {

broadcast use vstd::std_specs::vec::vec_clone_deep_view_proof;

/// The application settings the panel edits.
#[derive(Debug, Clone)]
pub struct Config {
    pub autosave_enabled: bool,
    pub startup_scan: bool,
    pub theme_name: String,
    pub vst3_paths: Vec<String>,
    pub clap_paths: Vec<String>,
    pub sample_paths: Vec<String>,
}

/// The settings as mathematical values.
pub struct ConfigModel {
    pub autosave_enabled: bool,
    pub startup_scan: bool,
    pub theme_name: Seq<char>,
    pub vst3_paths: Seq<Seq<char>>,
    pub clap_paths: Seq<Seq<char>>,
    pub sample_paths: Seq<Seq<char>>,
}

impl View for Config {
    type V = ConfigModel;

    open spec fn view(&self) -> ConfigModel {
        ConfigModel {
            autosave_enabled: self.autosave_enabled,
            startup_scan: self.startup_scan,
            theme_name: self.theme_name@,
            vst3_paths: self.vst3_paths.deep_view(),
            clap_paths: self.clap_paths.deep_view(),
            sample_paths: self.sample_paths.deep_view(),
        }
    }
}

/// Which of the three folder lists a message is about.
#[derive(Clone, Copy, Debug, PartialEq, Eq, Structural)]
pub enum PathList {
    Vst3,
    Clap,
    Sample,
}

/// What the panel reacts to.
#[derive(Debug, Clone)]
pub enum Message {
    NoOp,
    ToggleAutosave(bool),
    ToggleStartupScan(bool),
    ChangeTheme(String),
    BrowseVst3Path,
    AddVst3Path(String),
    BrowseClapPath,
    AddClapPath(String),
    BrowseSamplePath,
    AddSamplePath(String),
    Save,
    Close,
}

/// A message as a mathematical value.
pub enum MessageModel {
    NoOp,
    ToggleAutosave(bool),
    ToggleStartupScan(bool),
    ChangeTheme(Seq<char>),
    Browse(PathList),
    AddPath(PathList, Seq<char>),
    Save,
    Close,
}

impl View for Message {
    type V = MessageModel;

    open spec fn view(&self) -> MessageModel {
        match self {
            Message::NoOp => MessageModel::NoOp,
            Message::ToggleAutosave(b) => MessageModel::ToggleAutosave(*b),
            Message::ToggleStartupScan(b) => MessageModel::ToggleStartupScan(*b),
            Message::ChangeTheme(t) => MessageModel::ChangeTheme(t@),
            Message::BrowseVst3Path => MessageModel::Browse(PathList::Vst3),
            Message::AddVst3Path(p) => MessageModel::AddPath(PathList::Vst3, p@),
            Message::BrowseClapPath => MessageModel::Browse(PathList::Clap),
            Message::AddClapPath(p) => MessageModel::AddPath(PathList::Clap, p@),
            Message::BrowseSamplePath => MessageModel::Browse(PathList::Sample),
            Message::AddSamplePath(p) => MessageModel::AddPath(PathList::Sample, p@),
            Message::Save => MessageModel::Save,
            Message::Close => MessageModel::Close,
        }
    }
}

/// What the application must do after an update.
#[derive(Debug)]
pub enum ConfigTask {
    /// Hand this configuration back.
    Done(Config),
    /// Show a folder picker for the list; once it closes, hand back `config`
    /// (the configuration as it was when the picker was requested).
    PickFolder { list: PathList, config: Config },
    /// Write this configuration to disk (reporting, not propagating, a
    /// failure), then hand it back; `closing` tells whether the panel is
    /// being closed, which the failure report mentions.
    SaveThenDone { config: Config, closing: bool },
}

/// A task as a mathematical value.
pub enum TaskModel {
    Done(ConfigModel),
    PickFolder(PathList, ConfigModel),
    SaveThenDone(ConfigModel, bool),
}

impl View for ConfigTask {
    type V = TaskModel;

    open spec fn view(&self) -> TaskModel {
        match self {
            ConfigTask::Done(c) => TaskModel::Done(c@),
            ConfigTask::PickFolder { list, config } => TaskModel::PickFolder(*list, config@),
            ConfigTask::SaveThenDone { config, closing } => TaskModel::SaveThenDone(config@, *closing),
        }
    }
}

/// The state of the settings panel.
#[derive(Debug)]
pub struct ConfigView {
    autosave_enabled: bool,
    startup_scan: bool,
    theme_name: String,
    vst3_paths: Vec<String>,
    clap_paths: Vec<String>,
    sample_paths: Vec<String>,
}

impl View for ConfigView {
    type V = ConfigModel;

    closed spec fn view(&self) -> ConfigModel {
        ConfigModel {
            autosave_enabled: self.autosave_enabled,
            startup_scan: self.startup_scan,
            theme_name: self.theme_name@,
            vst3_paths: self.vst3_paths.deep_view(),
            clap_paths: self.clap_paths.deep_view(),
            sample_paths: self.sample_paths.deep_view(),
        }
    }
}

/// Whether the list names the folder `p`, comparing paths as `Path` does
/// (by components, so `/a/` and `/a` are the same folder).
pub open spec fn listed(list: Seq<Seq<char>>, p: Seq<char>) -> bool {
    exists|i: int| 0 <= i < list.len() && #[trigger] same_path(list[i], p)
}

/// A folder list with `p` added at the end unless it already names that
/// folder.
pub open spec fn add_unique(list: Seq<Seq<char>>, p: Seq<char>) -> Seq<Seq<char>> {
    if listed(list, p) {
        list
    } else {
        list.push(p)
    }
}

/// The settings with `p` added to the named folder list.
pub open spec fn add_path(m: ConfigModel, list: PathList, p: Seq<char>) -> ConfigModel {
    match list {
        PathList::Vst3 => ConfigModel { vst3_paths: add_unique(m.vst3_paths, p), ..m },
        PathList::Clap => ConfigModel { clap_paths: add_unique(m.clap_paths, p), ..m },
        PathList::Sample => ConfigModel { sample_paths: add_unique(m.sample_paths, p), ..m },
    }
}

/// The panel's state after a message.
pub open spec fn update_model(m: ConfigModel, msg: MessageModel) -> ConfigModel {
    match msg {
        MessageModel::ToggleAutosave(b) => ConfigModel { autosave_enabled: b, ..m },
        MessageModel::ToggleStartupScan(b) => ConfigModel { startup_scan: b, ..m },
        MessageModel::ChangeTheme(t) => ConfigModel { theme_name: t, ..m },
        MessageModel::AddPath(list, p) => add_path(m, list, p),
        _ => m,
    }
}

/// What the application is asked to do after a message.
pub open spec fn update_task(m: ConfigModel, msg: MessageModel) -> TaskModel {
    match msg {
        MessageModel::Browse(list) => TaskModel::PickFolder(list, m),
        MessageModel::Save => TaskModel::SaveThenDone(m, false),
        MessageModel::Close => TaskModel::SaveThenDone(m, true),
        _ => TaskModel::Done(update_model(m, msg)),
    }
}

fn clone_paths(paths: &Vec<String>) -> (out: Vec<String>)
    ensures
        out.deep_view() == paths.deep_view(),
{
    paths.clone()
}

/// Adds `p` to the list unless it already names the same folder.
fn push_unique(list: &mut Vec<String>, p: String)
    ensures
        final(list).deep_view() == add_unique(old(list).deep_view(), p@),
{
    let mut i: usize = 0;
    while i < list.len()
        invariant
            i <= list@.len(),
            forall|j: int| 0 <= j < i ==> !same_path(list.deep_view()[j], p@),
        decreases list@.len() - i,
    {
        if paths_equal(list[i].as_str(), p.as_str()) {
            assert(same_path(list.deep_view()[i as int], p@));
            assert(listed(list.deep_view(), p@));
            return;
        }
        i = i + 1;
    }
    let ghost before = list.deep_view();
    assert(!listed(before, p@));
    list.push(p);
    assert(list.deep_view() =~= before.push(p@));
}

/// The message a finished folder picker turns into: the chosen folder is
/// added to its list; a cancelled picker does nothing.
pub fn folder_picked(list: PathList, picked: Option<String>) -> (msg: Message)
    ensures
        msg@ == match picked {
            Some(p) => MessageModel::AddPath(list, p@),
            None => MessageModel::NoOp,
        },
{
    match picked {
        Some(p) => match list {
            PathList::Vst3 => Message::AddVst3Path(p),
            PathList::Clap => Message::AddClapPath(p),
            PathList::Sample => Message::AddSamplePath(p),
        },
        None => Message::NoOp,
    }
}

impl ConfigView {
    /// A panel showing the given settings.
    pub fn new(config: &Config) -> (view: Self)
        ensures
            view@ == config@,
    {
        ConfigView {
            autosave_enabled: config.autosave_enabled,
            startup_scan: config.startup_scan,
            theme_name: config.theme_name.clone(),
            vst3_paths: clone_paths(&config.vst3_paths),
            clap_paths: clone_paths(&config.clap_paths),
            sample_paths: clone_paths(&config.sample_paths),
        }
    }

    /// Rebuilds the settings from what the panel currently shows.
    pub fn current_config(&self) -> (config: Config)
        ensures
            config@ == self@,
    {
        Config {
            autosave_enabled: self.autosave_enabled,
            startup_scan: self.startup_scan,
            theme_name: self.theme_name.clone(),
            vst3_paths: clone_paths(&self.vst3_paths),
            clap_paths: clone_paths(&self.clap_paths),
            sample_paths: clone_paths(&self.sample_paths),
        }
    }

    /// Applies a message.  Toggles and the theme set their field; an added
    /// folder joins its list unless already listed; a browse request asks
    /// for a folder picker; save and close ask for the settings to be written.
    /// Every message hands back the resulting settings.
    pub fn update(&mut self, message: Message) -> (task: ConfigTask)
        ensures
            final(self)@ == update_model(old(self)@, message@),
            task@ == update_task(old(self)@, message@),
    {
        match message {
            Message::NoOp => ConfigTask::Done(self.current_config()),
            Message::ToggleAutosave(enabled) => {
                self.autosave_enabled = enabled;
                ConfigTask::Done(self.current_config())
            },
            Message::ToggleStartupScan(enabled) => {
                self.startup_scan = enabled;
                ConfigTask::Done(self.current_config())
            },
            Message::ChangeTheme(theme) => {
                self.theme_name = theme;
                ConfigTask::Done(self.current_config())
            },
            Message::BrowseVst3Path => ConfigTask::PickFolder {
                list: PathList::Vst3,
                config: self.current_config(),
            },
            Message::AddVst3Path(path) => {
                push_unique(&mut self.vst3_paths, path);
                ConfigTask::Done(self.current_config())
            },
            Message::BrowseClapPath => ConfigTask::PickFolder {
                list: PathList::Clap,
                config: self.current_config(),
            },
            Message::AddClapPath(path) => {
                push_unique(&mut self.clap_paths, path);
                ConfigTask::Done(self.current_config())
            },
            Message::BrowseSamplePath => ConfigTask::PickFolder {
                list: PathList::Sample,
                config: self.current_config(),
            },
            Message::AddSamplePath(path) => {
                push_unique(&mut self.sample_paths, path);
                ConfigTask::Done(self.current_config())
            },
            Message::Save => ConfigTask::SaveThenDone { config: self.current_config(), closing: false },
            Message::Close => ConfigTask::SaveThenDone { config: self.current_config(), closing: true },
        }
    }
}

/// No folder is listed twice: no two entries name the same folder.
pub open spec fn no_duplicates(list: Seq<Seq<char>>) -> bool {
    forall|i: int, j: int| 0 <= i < j < list.len() ==> !same_path(list[i], list[j])
}

/// All three folder lists are free of duplicates.
pub open spec fn lists_unique(m: ConfigModel) -> bool {
    &&& no_duplicates(m.vst3_paths)
    &&& no_duplicates(m.clap_paths)
    &&& no_duplicates(m.sample_paths)
}

proof fn lemma_add_unique_keeps(list: Seq<Seq<char>>, p: Seq<char>)
    ensures
        listed(add_unique(list, p), p),
        no_duplicates(list) ==> no_duplicates(add_unique(list, p)),
        list.is_prefix_of(add_unique(list, p)),
        add_unique(add_unique(list, p), p) == add_unique(list, p),
{
    let l2 = add_unique(list, p);
    if !listed(list, p) {
        assert(l2[list.len() as int] == p);
        assert(same_path(l2[list.len() as int], p));
        if no_duplicates(list) {
            assert forall|i: int, j: int| 0 <= i < j < l2.len() implies !same_path(l2[i], l2[j]) by {
                assert(l2[i] == list[i]);
                if j < list.len() {
                    assert(l2[j] == list[j]);
                } else {
                    assert(l2[j] == p);
                    if same_path(list[i], p) {
                        assert(listed(list, p));
                    }
                }
            }
        }
        assert forall|i: int| 0 <= i < list.len() implies list[i] == l2[i] by {}
    }
    assert(listed(l2, p));
}

/// Law: adding a folder twice is the same as adding it once.
pub proof fn lemma_add_path_idempotent(m: ConfigModel, list: PathList, p: Seq<char>)
    ensures
        update_model(update_model(m, MessageModel::AddPath(list, p)), MessageModel::AddPath(list, p))
            == update_model(m, MessageModel::AddPath(list, p)),
{
    lemma_add_unique_keeps(m.vst3_paths, p);
    lemma_add_unique_keeps(m.clap_paths, p);
    lemma_add_unique_keeps(m.sample_paths, p);
}

/// Law: adding a folder that is already listed (under any spelling of its
/// path) leaves the list as it was.
pub proof fn lemma_add_listed_folder(list: Seq<Seq<char>>, p: Seq<char>, i: int)
    requires
        0 <= i < list.len(),
        same_path(list[i], p),
    ensures
        add_unique(list, p) == list,
{
    assert(listed(list, p));
}

/// Law: after adding a folder it is listed, and lists without duplicate
/// folders stay without them, whatever message the panel receives.
pub proof fn lemma_update_keeps_lists_unique(m: ConfigModel, msg: MessageModel)
    requires
        lists_unique(m),
    ensures
        lists_unique(update_model(m, msg)),
        msg matches MessageModel::AddPath(list, p) ==> match list {
            PathList::Vst3 => listed(update_model(m, msg).vst3_paths, p),
            PathList::Clap => listed(update_model(m, msg).clap_paths, p),
            PathList::Sample => listed(update_model(m, msg).sample_paths, p),
        },
{
    if let MessageModel::AddPath(list, p) = msg {
        lemma_add_unique_keeps(m.vst3_paths, p);
        lemma_add_unique_keeps(m.clap_paths, p);
        lemma_add_unique_keeps(m.sample_paths, p);
    }
}

/// Law: no message removes or reorders a folder: each old list is a prefix
/// of the new one.
pub proof fn lemma_update_never_forgets(m: ConfigModel, msg: MessageModel)
    ensures
        m.vst3_paths.is_prefix_of(update_model(m, msg).vst3_paths),
        m.clap_paths.is_prefix_of(update_model(m, msg).clap_paths),
        m.sample_paths.is_prefix_of(update_model(m, msg).sample_paths),
{
    if let MessageModel::AddPath(list, p) = msg {
        lemma_add_unique_keeps(m.vst3_paths, p);
        lemma_add_unique_keeps(m.clap_paths, p);
        lemma_add_unique_keeps(m.sample_paths, p);
    }
}

/// Law: only toggles, the theme and added folders change the settings;
/// cancelling, browsing, saving and closing leave them as they were, and
/// saving or closing hands back exactly the settings on screen.
pub proof fn lemma_passive_messages(m: ConfigModel, msg: MessageModel)
    requires
        msg matches MessageModel::NoOp || msg matches MessageModel::Browse(_) || msg
            matches MessageModel::Save || msg matches MessageModel::Close,
    ensures
        update_model(m, msg) == m,
        msg matches MessageModel::Save ==> update_task(m, msg) == TaskModel::SaveThenDone(m, false),
        msg matches MessageModel::Close ==> update_task(m, msg) == TaskModel::SaveThenDone(m, true),
{
}

/// Law: each toggle and the theme change their own setting and nothing
/// else: the new settings are the old ones with that one field replaced, and
/// the panel hands those settings back.
pub proof fn lemma_settings_change_one_field(m: ConfigModel, b: bool, t: Seq<char>)
    ensures
        ({
            let n = update_model(m, MessageModel::ToggleAutosave(b));
            &&& n.autosave_enabled == b
            &&& n.startup_scan == m.startup_scan
            &&& n.theme_name == m.theme_name
            &&& n.vst3_paths == m.vst3_paths
            &&& n.clap_paths == m.clap_paths
            &&& n.sample_paths == m.sample_paths
            &&& update_task(m, MessageModel::ToggleAutosave(b)) == TaskModel::Done(n)
        }),
        ({
            let n = update_model(m, MessageModel::ToggleStartupScan(b));
            &&& n.autosave_enabled == m.autosave_enabled
            &&& n.startup_scan == b
            &&& n.theme_name == m.theme_name
            &&& n.vst3_paths == m.vst3_paths
            &&& n.clap_paths == m.clap_paths
            &&& n.sample_paths == m.sample_paths
            &&& update_task(m, MessageModel::ToggleStartupScan(b)) == TaskModel::Done(n)
        }),
        ({
            let n = update_model(m, MessageModel::ChangeTheme(t));
            &&& n.autosave_enabled == m.autosave_enabled
            &&& n.startup_scan == m.startup_scan
            &&& n.theme_name == t
            &&& n.vst3_paths == m.vst3_paths
            &&& n.clap_paths == m.clap_paths
            &&& n.sample_paths == m.sample_paths
            &&& update_task(m, MessageModel::ChangeTheme(t)) == TaskModel::Done(n)
        }),
{
}

/// Law: adding a folder touches only its own list, and the flags and theme
/// stay as they were.
pub proof fn lemma_add_path_touches_one_list(m: ConfigModel, list: PathList, p: Seq<char>)
    ensures
        ({
            let n = update_model(m, MessageModel::AddPath(list, p));
            &&& n.autosave_enabled == m.autosave_enabled
            &&& n.startup_scan == m.startup_scan
            &&& n.theme_name == m.theme_name
            &&& list != PathList::Vst3 ==> n.vst3_paths == m.vst3_paths
            &&& list != PathList::Clap ==> n.clap_paths == m.clap_paths
            &&& list != PathList::Sample ==> n.sample_paths == m.sample_paths
        }),
{
}

/// Law: a folder that no entry names (component for component) is added at
/// the end of its list; one that an entry names leaves the list unchanged.
pub proof fn lemma_add_path_appends_new_folder(list: Seq<Seq<char>>, p: Seq<char>)
    ensures
        (forall|i: int| 0 <= i < list.len() ==> path_components(#[trigger] list[i]) != path_components(p))
            ==> add_unique(list, p) == list.push(p),
        (exists|i: int| 0 <= i < list.len() && path_components(#[trigger] list[i]) == path_components(p))
            ==> add_unique(list, p) == list,
{
    crate::paths::lemma_same_path_is_component_equality_all();
    if exists|i: int| 0 <= i < list.len() && path_components(#[trigger] list[i]) == path_components(p) {
        let i = choose|i: int| 0 <= i < list.len() && path_components(#[trigger] list[i]) == path_components(p);
        assert(same_path(list[i], p));
        assert(listed(list, p));
    }
}

} // verus!
