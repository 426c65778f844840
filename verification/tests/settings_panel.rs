use vst3_host::config_view::{folder_picked, Config, ConfigTask, ConfigView, Message, PathList};

fn sample_config() -> Config {
    Config {
        autosave_enabled: false,
        startup_scan: true,
        theme_name: "Dark".to_string(),
        vst3_paths: vec!["/usr/lib/vst3".to_string()],
        clap_paths: vec![],
        sample_paths: vec!["/home/u/samples".to_string()],
    }
}

fn done(task: ConfigTask) -> Config {
    match task {
        ConfigTask::Done(c) => c,
        other => panic!("expected Done, got {:?}", other),
    }
}

fn same(a: &Config, b: &Config) -> bool {
    a.autosave_enabled == b.autosave_enabled
        && a.startup_scan == b.startup_scan
        && a.theme_name == b.theme_name
        && a.vst3_paths == b.vst3_paths
        && a.clap_paths == b.clap_paths
        && a.sample_paths == b.sample_paths
}

#[test]
fn panel_round_trips_its_config() {
    let c = sample_config();
    let view = ConfigView::new(&c);
    assert!(same(&view.current_config(), &c));
}

#[test]
fn toggles_and_theme_set_their_fields() {
    let mut view = ConfigView::new(&sample_config());
    let c = done(view.update(Message::ToggleAutosave(true)));
    assert!(c.autosave_enabled);
    let c = done(view.update(Message::ToggleStartupScan(false)));
    assert!(!c.startup_scan);
    assert!(c.autosave_enabled);
    let c = done(view.update(Message::ChangeTheme("Light".to_string())));
    assert_eq!(c.theme_name, "Light");
    assert_eq!(c.vst3_paths, vec!["/usr/lib/vst3".to_string()]);
}

#[test]
fn adding_a_folder_twice_lists_it_once() {
    let mut view = ConfigView::new(&sample_config());
    let once = done(view.update(Message::AddVst3Path("/opt/vst3".to_string())));
    assert_eq!(once.vst3_paths, vec!["/usr/lib/vst3".to_string(), "/opt/vst3".to_string()]);
    let twice = done(view.update(Message::AddVst3Path("/opt/vst3".to_string())));
    assert!(same(&once, &twice));
    let again = done(view.update(Message::AddVst3Path("/usr/lib/vst3".to_string())));
    assert_eq!(again.vst3_paths.len(), 2);
}

#[test]
fn each_add_message_touches_only_its_list() {
    let mut view = ConfigView::new(&sample_config());
    let c = done(view.update(Message::AddClapPath("/clap".to_string())));
    assert_eq!(c.clap_paths, vec!["/clap".to_string()]);
    assert_eq!(c.vst3_paths, vec!["/usr/lib/vst3".to_string()]);
    let c = done(view.update(Message::AddSamplePath("/s2".to_string())));
    assert_eq!(c.sample_paths, vec!["/home/u/samples".to_string(), "/s2".to_string()]);
    assert_eq!(c.clap_paths, vec!["/clap".to_string()]);
}

#[test]
fn noop_changes_nothing() {
    let c0 = sample_config();
    let mut view = ConfigView::new(&c0);
    let c = done(view.update(Message::NoOp));
    assert!(same(&c, &c0));
}

#[test]
fn browsing_asks_for_a_folder_picker() {
    let mut view = ConfigView::new(&sample_config());
    match view.update(Message::BrowseClapPath) {
        ConfigTask::PickFolder { list, config } => {
            assert_eq!(list, PathList::Clap);
            assert!(same(&config, &sample_config()));
        }
        other => panic!("unexpected {:?}", other),
    }
    assert!(matches!(view.update(Message::BrowseVst3Path), ConfigTask::PickFolder { list: PathList::Vst3, .. }));
    assert!(matches!(view.update(Message::BrowseSamplePath), ConfigTask::PickFolder { list: PathList::Sample, .. }));
}

#[test]
fn save_and_close_ask_to_write_the_current_settings() {
    let mut view = ConfigView::new(&sample_config());
    view.update(Message::ToggleAutosave(true));
    for (msg, expect_closing) in [(Message::Save, false), (Message::Close, true)] {
        match view.update(msg) {
            ConfigTask::SaveThenDone { config: c, closing } => {
                assert!(c.autosave_enabled);
                assert_eq!(c.theme_name, "Dark");
                assert_eq!(closing, expect_closing);
            }
            other => panic!("unexpected {:?}", other),
        }
    }
}

#[test]
fn picked_folder_becomes_an_add_message() {
    assert!(matches!(folder_picked(PathList::Vst3, Some("/x".to_string())), Message::AddVst3Path(p) if p == "/x"));
    assert!(matches!(folder_picked(PathList::Clap, Some("/y".to_string())), Message::AddClapPath(p) if p == "/y"));
    assert!(matches!(folder_picked(PathList::Sample, Some("/z".to_string())), Message::AddSamplePath(p) if p == "/z"));
    assert!(matches!(folder_picked(PathList::Sample, None), Message::NoOp));
}

#[test]
fn folders_are_compared_as_paths() {
    let mut c = sample_config();
    c.vst3_paths = vec!["/a/".to_string()];
    let mut view = ConfigView::new(&c);
    for spelling in ["/a", "/a//.", "//a/./", "/a/"] {
        let after = done(view.update(Message::AddVst3Path(spelling.to_string())));
        assert_eq!(after.vst3_paths, vec!["/a/".to_string()]);
    }
    let after = done(view.update(Message::AddVst3Path("/a/b".to_string())));
    assert_eq!(after.vst3_paths, vec!["/a/".to_string(), "/a/b".to_string()]);
    let after = done(view.update(Message::AddVst3Path("a".to_string())));
    assert_eq!(after.vst3_paths.len(), 3);
}
