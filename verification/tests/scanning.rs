use vst3_host::paths::{path_has_extension, path_join};
use vst3_host::scan::{
    find_linux_binary, find_vst3_bundles, gather_scan, get_installed_plugins, select_binary, select_bundles,
    WalkEntry,
};
use vst3_host::PluginDescriptor;

fn entry(path: &str, is_dir: bool, is_file: bool) -> Option<WalkEntry> {
    Some(WalkEntry { path: path.to_string(), is_dir, is_file })
}

#[test]
fn join_adds_one_separator() {
    assert_eq!(path_join(&"/usr/lib".to_string(), "vst3"), "/usr/lib/vst3");
    assert_eq!(path_join(&"/usr/lib/".to_string(), "vst3"), "/usr/lib/vst3");
    assert_eq!(path_join(&"".to_string(), "vst3"), "vst3");
    assert_eq!(path_join(&"/home/a".to_string(), "/abs"), "/abs");
}

#[test]
fn join_agrees_with_std() {
    for (base, part) in [("a/b", "c"), ("a/", "c"), ("", "c"), ("a", "/c"), ("/", "x"), ("a", "")] {
        let expected = std::path::Path::new(base).join(part);
        assert_eq!(path_join(&base.to_string(), part), expected.to_str().unwrap());
    }
}

#[test]
fn extensions_compare_ignoring_case() {
    assert!(path_has_extension(&"/x/Surge.vst3".to_string(), "vst3"));
    assert!(path_has_extension(&"/x/Surge.VST3".to_string(), "vst3"));
    assert!(path_has_extension(&"/x/Surge.vst3/".to_string(), "vst3"));
    assert!(!path_has_extension(&"/x/Surge".to_string(), "vst3"));
    assert!(!path_has_extension(&"/x/.vst3".to_string(), "vst3"));
    assert!(path_has_extension(&"lib.SO".to_string(), "so"));
}

#[test]
fn bundles_are_directories_named_vst3_in_walk_order() {
    let entries = vec![
        entry("/p", true, false),
        entry("/p/A.vst3", true, false),
        None,
        entry("/p/B.VST3", true, false),
        entry("/p/c.vst3", false, true),
        entry("/p/d.vst2", true, false),
        entry("/p/A.vst3/Contents", true, false),
    ];
    assert_eq!(select_bundles(&entries), vec!["/p/A.vst3".to_string(), "/p/B.VST3".to_string()]);
    assert!(select_bundles(&vec![]).is_empty());
}

#[test]
fn binary_is_first_so_file() {
    let entries = vec![
        entry("/b/Contents/x86_64-linux", true, false),
        None,
        entry("/b/Contents/x86_64-linux/readme.txt", false, true),
        entry("/b/Contents/x86_64-linux/dir.so", true, false),
        entry("/b/Contents/x86_64-linux/Real.SO", false, true),
        entry("/b/Contents/x86_64-linux/other.so", false, true),
    ];
    assert_eq!(select_binary(&entries), Some("/b/Contents/x86_64-linux/Real.SO".to_string()));
    assert_eq!(select_binary(&vec![entry("/b/x.txt", false, true)]), None);
}

#[test]
fn missing_roots_give_nothing() {
    let root = "/nonexistent/vst3/root/for/tests".to_string();
    assert!(find_vst3_bundles(&root).is_empty());
    assert_eq!(find_linux_binary(&root), None);
    let report = get_installed_plugins(&vec![root], |_p: &String| -> Result<Vec<PluginDescriptor>, String> {
        panic!("nothing to load")
    });
    assert!(report.found.is_empty());
    assert!(report.bundles_without_binary.is_empty());
}

#[test]
fn scanning_no_roots_finds_nothing() {
    let report = get_installed_plugins(&vec![], |_p: &String| -> Result<Vec<PluginDescriptor>, String> {
        panic!("nothing to load")
    });
    assert!(report.found.is_empty());
    assert!(report.bundles_without_binary.is_empty());
}

fn descriptor_from(path: &str, name: &str) -> PluginDescriptor {
    PluginDescriptor {
        class_id: [0; 16],
        name: name.to_string(),
        vendor: String::new(),
        category: "Audio Module Class".to_string(),
        version: String::new(),
        binary_path: path.to_string(),
    }
}

#[test]
fn gather_scan_loads_binaries_in_order_and_skips_broken_bundles() {
    let bundles = vec![
        vec!["/r1/A.vst3".to_string(), "/r1/B.vst3".to_string(), "/r1/C.vst3".to_string()],
        vec!["/r2/D.vst3".to_string()],
    ];
    let binaries = vec![
        vec![
            Some("/r1/A.vst3/Contents/x86_64-linux/a.so".to_string()),
            None,
            Some("/r1/C.vst3/Contents/x86_64-linux/c.so".to_string()),
        ],
        vec![Some("/r2/D.vst3/Contents/x86_64-linux/d.so".to_string())],
    ];
    let calls = std::cell::RefCell::new(Vec::new());
    let report = gather_scan(&bundles, &binaries, |p: &String| -> Result<Vec<PluginDescriptor>, String> {
        calls.borrow_mut().push(p.clone());
        if p.ends_with("c.so") {
            Err("broken".to_string())
        } else {
            Ok(vec![descriptor_from(p, "one"), descriptor_from(p, "two")])
        }
    });
    assert_eq!(
        calls.into_inner(),
        vec![
            "/r1/A.vst3/Contents/x86_64-linux/a.so".to_string(),
            "/r1/C.vst3/Contents/x86_64-linux/c.so".to_string(),
            "/r2/D.vst3/Contents/x86_64-linux/d.so".to_string(),
        ]
    );
    let found: Vec<(String, String)> =
        report.found.iter().map(|d| (d.binary_path.clone(), d.name.clone())).collect();
    assert_eq!(
        found,
        vec![
            ("/r1/A.vst3/Contents/x86_64-linux/a.so".to_string(), "one".to_string()),
            ("/r1/A.vst3/Contents/x86_64-linux/a.so".to_string(), "two".to_string()),
            ("/r2/D.vst3/Contents/x86_64-linux/d.so".to_string(), "one".to_string()),
            ("/r2/D.vst3/Contents/x86_64-linux/d.so".to_string(), "two".to_string()),
        ]
    );
    assert_eq!(report.bundles_without_binary, vec!["/r1/B.vst3".to_string()]);
}

#[test]
fn gather_scan_of_nothing_loads_nothing() {
    let report = gather_scan(&vec![], &vec![], |_p: &String| -> Result<Vec<PluginDescriptor>, String> {
        panic!("nothing to load")
    });
    assert!(report.found.is_empty());
    assert!(report.bundles_without_binary.is_empty());
}
