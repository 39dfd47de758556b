use pathfinder_nav::paths::{is_source_file, is_workspace_file, paths_equal};

#[test]
fn source_files_by_extension() {
    for f in ["src/main.rs", "a.go", "x.ts", "x.tsx", "x.js", "x.jsx", "m.py", "App.vue"] {
        assert!(is_source_file(f), "{f}");
    }
    for f in ["README.md", "Cargo.toml", "data.json", "Makefile", ".rs", "dir.rs/", "x.RS", ""] {
        let expected = f == "dir.rs/";
        assert_eq!(is_source_file(f), expected, "{f}");
    }
}

#[test]
fn source_file_extension_taken_from_last_component() {
    assert!(is_source_file("src.d/lib.rs"));
    assert!(!is_source_file("src.rs/lib"));
    assert!(is_source_file("a/./b.py"));
    assert!(!is_source_file("a/.."));
}

#[test]
fn workspace_files_exclude_absolute_and_dependencies() {
    assert!(is_workspace_file("src/lib.rs"));
    assert!(!is_workspace_file("/usr/lib/rustlib/core.rs"));
    assert!(!is_workspace_file("\\windows\\x.rs"));
    assert!(!is_workspace_file("C:\\src\\x.rs"));
    assert!(!is_workspace_file("D:/src/x.rs"));
    assert!(!is_workspace_file("web/node_modules/react/index.js"));
    assert!(!is_workspace_file("third\\vendor\\lib.go"));
    assert!(!is_workspace_file("vendor/x.go"));
    assert!(is_workspace_file("vendors.rs"));
    assert!(is_workspace_file(""));
}

#[test]
fn paths_compare_by_components() {
    assert!(paths_equal("src/a.rs", "src/a.rs"));
    assert!(paths_equal("src//a.rs", "src/a.rs"));
    assert!(paths_equal("src/./a.rs", "src/a.rs"));
    assert!(paths_equal("src/a/", "src/a"));
    assert!(!paths_equal("./src/a.rs", "src/a.rs"));
    assert!(paths_equal("./src/a.rs", ".//src/a.rs"));
    assert!(!paths_equal("/src/a.rs", "src/a.rs"));
    assert!(paths_equal("//src/a.rs", "/src/a.rs"));
    assert!(!paths_equal("src/../a.rs", "a.rs"));
    assert!(!paths_equal("src/a.rs", "src/b.rs"));
    assert!(paths_equal("", ""));
}

#[test]
fn paths_equal_agrees_with_std() {
    let samples = [
        "", ".", "./", "a", "a/", "a//b", "a/./b", "./a", "/a", "//a", "a/b/..", "a/.b", "..", "../a",
        "a/b", "a/b/", "/", "./.",
    ];
    for x in samples {
        for y in samples {
            assert_eq!(
                paths_equal(x, y),
                std::path::Path::new(x) == std::path::Path::new(y),
                "{x:?} vs {y:?}"
            );
        }
    }
}
