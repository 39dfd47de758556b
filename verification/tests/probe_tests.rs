use pathfinder_nav::probe::{
    probe_candidates_of, probe_extensions_of, probe_max_depth_of, skips_directory, EntryKind,
    PathfinderServer, WorkspaceEntry, WorkspaceListing,
};

fn file(name: &str) -> WorkspaceEntry {
    WorkspaceEntry { name: name.to_string(), kind: EntryKind::File, children: Vec::new() }
}

fn dir(name: &str, children: Vec<WorkspaceEntry>) -> WorkspaceEntry {
    WorkspaceEntry { name: name.to_string(), kind: EntryKind::Dir, children }
}

fn server(root: Vec<WorkspaceEntry>, existing: &[&str]) -> PathfinderServer {
    PathfinderServer {
        workspace: WorkspaceListing {
            root,
            existing: existing.iter().map(|s| s.to_string()).collect(),
        },
    }
}

#[test]
fn health_test_test_find_probe_file() {
    let root = vec![dir("src", vec![file("index.ts")]), file("main.go")];
    let server = server(root, &["main.go", "src/index.ts"]);
    assert_eq!(server.find_probe_file("go"), Some("main.go".to_string()));
    assert_eq!(server.find_probe_file("typescript"), Some("src/index.ts".to_string()));
    assert_eq!(server.find_probe_file("rust"), None);
}

#[test]
fn health_test_test_find_probe_file_recursive_monorepo() {
    let root = vec![
        dir("node_modules", vec![dir("react", vec![file("index.ts")])]),
        dir("apps", vec![dir("backend", vec![dir("cmd", vec![dir("server", vec![file("main.go")])])])]),
        dir("tools", vec![dir("fath-factory", vec![dir("src", vec![file("__init__.py")])])]),
    ];
    let server = server(root, &[]);
    let probe = server.find_probe_file("go");
    assert_eq!(probe, Some("apps/backend/cmd/server/main.go".to_string()));
    assert!(probe.unwrap().contains("main.go"));
    assert_eq!(
        server.find_probe_file("python"),
        Some("tools/fath-factory/src/__init__.py".to_string())
    );
    assert_eq!(server.find_probe_file("typescript"), None);
}

#[test]
fn test_find_probe_file_java_application_candidate() {
    let root = vec![dir("src", vec![dir("main", vec![dir("java", vec![file("Application.java")])])])];
    let server = server(root, &["src/main/java/Application.java"]);
    assert_eq!(
        server.find_probe_file("java"),
        Some("src/main/java/Application.java".to_string())
    );
}

#[test]
fn test_find_probe_file_java_app_candidate() {
    let root = vec![dir("src", vec![dir("main", vec![dir("java", vec![file("App.java")])])])];
    let server = server(root, &["src/main/java/App.java"]);
    assert_eq!(server.find_probe_file("java"), Some("src/main/java/App.java".to_string()));
}

fn nested(names: &[&str], leaf: WorkspaceEntry) -> Vec<WorkspaceEntry> {
    let mut cur = vec![leaf];
    for n in names.iter().rev() {
        cur = vec![dir(n, cur)];
    }
    cur
}

#[test]
fn test_find_probe_file_java_deep_package_path() {
    let root = nested(
        &["src", "main", "java", "com", "example", "banking", "service"],
        file("AccountService.java"),
    );
    let server = server(root, &[]);
    let probe = server.find_probe_file("java").expect("java file at depth 7");
    assert!(probe.to_lowercase().ends_with(".java"));
    assert_eq!(probe, "src/main/java/com/example/banking/service/AccountService.java");
}

#[test]
fn scan_depth_limits_per_language() {
    // A Go file inside four directories is found; inside five it is not.
    let at4 = nested(&["a", "b", "c", "d"], file("x.go"));
    assert_eq!(server(at4, &[]).find_probe_file("go"), Some("a/b/c/d/x.go".to_string()));
    let at5 = nested(&["a", "b", "c", "d", "e"], file("x.go"));
    assert_eq!(server(at5, &[]).find_probe_file("go"), None);
    let java9 = nested(&["a", "b", "c", "d", "e", "f", "g", "h", "i"], file("X.java"));
    assert_eq!(server(java9, &[]).find_probe_file("java"), None);
    let java8 = nested(&["a", "b", "c", "d", "e", "f", "g", "h"], file("X.java"));
    assert!(server(java8, &[]).find_probe_file("java").is_some());
}

#[test]
fn scan_skips_hidden_and_build_directories_and_links() {
    let root = vec![
        dir(".hidden", vec![file("a.rs")]),
        dir("target", vec![file("b.rs")]),
        dir("build", vec![file("c.rs")]),
        WorkspaceEntry { name: "link.rs".to_string(), kind: EntryKind::Other, children: Vec::new() },
        dir("crates", vec![file("README.md"), file("lib.RS")]),
    ];
    assert_eq!(server(root, &[]).find_probe_file("rust"), Some("crates/lib.RS".to_string()));
}

#[test]
fn candidates_win_over_scan_in_their_order() {
    let root = vec![dir("lib", vec![file("other.rb")]), file("main.rb")];
    let s = server(root, &["main.rb", "lib/main.rb"]);
    assert_eq!(s.find_probe_file("ruby"), Some("lib/main.rb".to_string()));
}

#[test]
fn test_find_probe_file_unsupported_language() {
    let s = server(vec![file("main.rs")], &["src/main.rs"]);
    assert_eq!(s.find_probe_file("unsupported"), None);
}

#[test]
fn test_find_file_by_extension_recursive_unreadable_dir() {
    // A directory that cannot be listed has no entries.
    let s = server(Vec::new(), &[]);
    let extensions = vec!["rs".to_string()];
    let result = s.find_file_by_extension_recursive(&Vec::new(), &String::new(), &extensions, 0, 4);
    assert_eq!(result, None);
    let deep = vec![file("a.rs")];
    assert_eq!(s.find_file_by_extension_recursive(&deep, &String::new(), &extensions, 5, 4), None);
    assert_eq!(
        s.find_file_by_extension_recursive(&deep, &"x/".to_string(), &extensions, 4, 4),
        Some("x/a.rs".to_string())
    );
}

#[test]
fn probe_tables() {
    assert_eq!(probe_extensions_of("typescript"), Some(vec!["ts".to_string(), "tsx".to_string()]));
    assert_eq!(probe_extensions_of("cobol"), None);
    assert_eq!(probe_candidates_of("rust"), vec!["src/main.rs".to_string(), "src/lib.rs".to_string()]);
    assert!(probe_candidates_of("cobol").is_empty());
    assert_eq!(probe_max_depth_of("java"), 8);
    assert_eq!(probe_max_depth_of("go"), 4);
    assert!(skips_directory(".git"));
    assert!(skips_directory(".venv"));
    assert!(skips_directory("__pycache__"));
    assert!(skips_directory("node_modules"));
    assert!(!skips_directory("src"));
    assert!(!skips_directory("Target"));
}
