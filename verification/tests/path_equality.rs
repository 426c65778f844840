use vst3_host::paths::{components_of, path_extension, path_file_name, paths_equal};

#[test]
fn path_equality_agrees_with_std() {
    let samples = [
        "", "/", "//", "/a", "/a/", "/a//", "/a/.", "/a/./b", "/a/b", "a", "a/", "./a", ".", "./",
        "..", "../a", "/..", "a/..", "a/../b", ".a", "a/.b", "/./", "./.", "x/./", ".//a", "/a/b/",
    ];
    for a in samples {
        for b in samples {
            let expected = std::path::Path::new(a) == std::path::Path::new(b);
            assert_eq!(paths_equal(a, b), expected, "{a:?} vs {b:?}");
        }
    }
}

#[test]
fn components_match_std() {
    let samples = ["/usr//lib/./vst3/", "./x/y", "a/../b", ".", "/"];
    for s in samples {
        let expected: Vec<String> = std::path::Path::new(s)
            .components()
            .map(|c| c.as_os_str().to_str().unwrap().to_string())
            .collect();
        assert_eq!(components_of(s), expected);
    }
}

#[test]
fn file_names_and_extensions_match_std() {
    let samples = [
        "", "/", "/a", "/a/", "foo.txt", "foo.txt/.", "foo.txt/./", "/x/Surge.vst3", "/x/Surge.vst3/",
        ".bashrc", "a/.bashrc", "a.b.c", "foo.", "..x", "..", "a/..", ".", "./", "x/lib.SO", "/a//b.tar.gz",
    ];
    for s in samples {
        let p = std::path::Path::new(s);
        let name = p.file_name().map(|n| n.to_str().unwrap().to_string());
        let ext = p.extension().map(|e| e.to_str().unwrap().to_string());
        assert_eq!(path_file_name(&s.to_string()), name, "file name of {s:?}");
        assert_eq!(path_extension(&s.to_string()), ext, "extension of {s:?}");
    }
}
