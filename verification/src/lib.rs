//! A host for VST3 audio plugins and the pieces of the DAW around it:
//! scanning installed plugins, describing their classes, the host's own COM
//! objects, the settings panel and the audio graph's nodes.
use vstd::prelude::*;
use vstd::string::*;

pub mod com;
pub mod config_view;
pub mod error;
pub mod factory;
pub mod graph;
pub mod loading;
pub mod paths;
pub mod plugin;
pub mod plugin_descriptor;
pub mod sample;
pub mod scan;
pub mod shared;
pub mod stream;
pub mod text;
pub mod toolbar;

pub use plugin_descriptor::PluginDescriptor;
pub use scan::get_installed_plugins;

use paths::{join_path, path_join};

verus! {

/// Messages sent from plugin callbacks towards the host's main thread.
#[derive(Clone, Copy, Debug, PartialEq, Eq, Structural)]
pub enum MainThreadMessage {
    /// The plugin asked the host to re-read buses, latency or parameters
    /// according to the given restart flags.
    RestartComponent(i32),
}

/// The standard plugin search folders: on Unix `~/.vst` and `~/.vst3` (when
/// the home folder is known), then `/usr/lib/vst`, `/usr/lib/vst3` and
/// `/usr/local/lib/vst3`; on every system, then, the entries of
/// `VST3_PATH` in order.
pub open spec fn standard_vst_paths(
    home: Option<Seq<char>>,
    unix: bool,
    vst3_path: Seq<Seq<char>>,
) -> Seq<Seq<char>> {
    let home_paths = match home {
        Some(h) => if unix {
            seq![join_path(h, ".vst"@), join_path(h, ".vst3"@)]
        } else {
            seq![]
        },
        None => seq![],
    };
    let system_paths = if unix {
        seq!["/usr/lib/vst"@, "/usr/lib/vst3"@, "/usr/local/lib/vst3"@]
    } else {
        seq![]
    };
    home_paths + system_paths + vst3_path
}

/// How many standard folders come before the `VST3_PATH` entries: the two
/// home folders when the home is known, and the three system folders, on
/// Unix; none elsewhere.
pub open spec fn standard_folder_count(home: Option<Seq<char>>, unix: bool) -> nat {
    if unix {
        if home is Some {
            5
        } else {
            3
        }
    } else {
        0
    }
}

/// Law: the search folders are the standard folders, which do not depend on
/// `VST3_PATH`, followed by every `VST3_PATH` entry, all of them, in order.
pub proof fn lemma_vst3_path_entries_all_kept(
    home: Option<Seq<char>>,
    unix: bool,
    vst3_path: Seq<Seq<char>>,
)
    ensures
        standard_vst_paths(home, unix, vst3_path).len() == standard_folder_count(home, unix)
            + vst3_path.len(),
        standard_vst_paths(home, unix, vst3_path).skip(standard_folder_count(home, unix) as int)
            == vst3_path,
        standard_vst_paths(home, unix, vst3_path).take(standard_folder_count(home, unix) as int)
            == standard_vst_paths(home, unix, seq![]),
        standard_vst_paths(home, unix, seq![]).len() == standard_folder_count(home, unix),
{
    let all = standard_vst_paths(home, unix, vst3_path);
    let base = standard_vst_paths(home, unix, seq![]);
    let n = standard_folder_count(home, unix) as int;
    assert(base.len() == n);
    assert(all =~= base + vst3_path);
    assert(all.skip(n) =~= vst3_path);
    assert(all.take(n) =~= base);
}

/// Law: on Unix with a known home, the folders start with `~/.vst`,
/// `~/.vst3`, `/usr/lib/vst`, `/usr/lib/vst3` and `/usr/local/lib/vst3`, in
/// that order.
pub proof fn lemma_unix_standard_folders(h: Seq<char>, vst3_path: Seq<Seq<char>>)
    ensures
        ({
            let r = standard_vst_paths(Some(h), true, vst3_path);
            &&& r[0] == join_path(h, ".vst"@)
            &&& r[1] == join_path(h, ".vst3"@)
            &&& r[2] == "/usr/lib/vst"@
            &&& r[3] == "/usr/lib/vst3"@
            &&& r[4] == "/usr/local/lib/vst3"@
        }),
{
}

/// An optional text as an optional character sequence.
pub open spec fn text_option(o: Option<String>) -> Option<Seq<char>> {
    match o {
        Some(s) => Some(s@),
        None => None,
    }
}

/// The plugin search folders used to fill the settings on first start; the
/// user manages them afterwards.  `home` is the home folder, `unix` whether
/// the system is Unix-like, and `vst3_path` the entries of `VST3_PATH`
/// (empty when it is unset).
pub fn default_vst_paths(home: Option<String>, unix: bool, vst3_path: Vec<String>) -> (paths:
    Vec<String>)
    ensures
        paths.deep_view() == standard_vst_paths(text_option(home), unix, vst3_path.deep_view()),
        paths@.len() == standard_folder_count(text_option(home), unix) + vst3_path@.len(),
{
    let mut paths: Vec<String> = Vec::new();
    let ghost home_view = text_option(home);
    if unix {
        match &home {
            Some(h) => {
                paths.push(path_join(&h, ".vst"));
                paths.push(path_join(&h, ".vst3"));
            },
            None => {},
        }
        paths.push(String::from_str("/usr/lib/vst"));
        paths.push(String::from_str("/usr/lib/vst3"));
        paths.push(String::from_str("/usr/local/lib/vst3"));
    }
    let ghost before = paths.deep_view();
    let ghost extra = vst3_path.deep_view();
    let mut i: usize = 0;
    while i < vst3_path.len()
        invariant
            i <= vst3_path@.len(),
            extra == vst3_path.deep_view(),
            paths.deep_view() == before + extra.take(i as int),
        decreases vst3_path@.len() - i,
    {
        let entry = vst3_path[i].clone();
        assert(entry@ == extra[i as int]);
        let ghost prev = paths.deep_view();
        paths.push(entry);
        assert(paths.deep_view() =~= prev.push(extra[i as int]));
        assert(extra.take(i + 1) =~= extra.take(i as int).push(extra[i as int]));
        assert(paths.deep_view() =~= before + extra.take(i + 1));
        i = i + 1;
    }
    assert(extra.take(vst3_path@.len() as int) =~= extra);
    assert(before + extra =~= standard_vst_paths(home_view, unix, extra));
    proof {
        lemma_vst3_path_entries_all_kept(home_view, unix, extra);
    }
    paths
}

} // verus!
