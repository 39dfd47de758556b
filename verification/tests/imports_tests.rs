use pathfinder_nav::imports::{extract_imports, import_style_of, ImportStyle};

#[test]
fn test_extract_file_imports_java() {
    let imports = extract_imports(
        "Foo.java",
        "package com.example;\nimport java.util.List;\nimport java.io.File;\npublic class Foo {}",
    );
    assert_eq!(imports.len(), 3);
    assert!(imports[0].contains("package com.example"));
    assert!(imports[1].contains("import java.util.List"));
}

#[test]
fn test_extract_file_imports_kotlin() {
    let imports = extract_imports("foo.go", "import \"fmt\"\nfunc main() {}");
    assert_eq!(imports.len(), 1);
    assert!(imports[0].contains("import \"fmt\""));
}

#[test]
fn test_extract_file_imports_go_multiline_block() {
    let content = "package main\n\nimport (\n\t\"fmt\"\n\t\"os\"\n)\n\nfunc main() {}";
    let imports = extract_imports("foo.go", content);
    assert_eq!(imports.len(), 4);
    assert!(imports[0].contains("import ("));
    assert!(imports[3].trim() == ")");
}

#[test]
fn test_extract_file_imports_swift() {
    let imports = extract_imports("Foo.swift", "import Foundation\nimport UIKit\nclass Foo {}");
    assert_eq!(imports.len(), 2);
    assert!(imports[0].contains("import Foundation"));
}

#[test]
fn test_extract_file_imports_ruby() {
    let imports = extract_imports("foo.rb", "require 'json'\nrequire_relative 'helper'\nclass Foo; end");
    assert_eq!(imports.len(), 2);
    assert!(imports[0].contains("require 'json'"));
    assert!(imports[1].contains("require_relative 'helper'"));
}

#[test]
fn test_extract_file_imports_unknown_ext() {
    let imports = extract_imports("foo.xyz", "import something\nrandom line\nimport another");
    assert_eq!(imports.len(), 2);
}

#[test]
fn test_extract_file_imports_max_cap() {
    let lines: Vec<String> = (0..210).map(|i| format!("import pkg_{i};")).collect();
    let content = lines.join("\n");
    let imports = extract_imports("Foo.java", &content);
    assert_eq!(imports.len(), 200);
    assert_eq!(imports[199], "import pkg_199;");
}

#[test]
fn imports_keep_lines_untrimmed_and_handle_crlf() {
    let imports = extract_imports("a.py", "  import os\r\nfrom x import y\r\nprint(1)\r\n");
    assert_eq!(imports, vec!["  import os".to_string(), "from x import y".to_string()]);
}

#[test]
fn script_rust_and_csharp_styles() {
    let js = extract_imports("a.mjs", "import{a} from 'b'\nconst x = require('y');\nlet z = 1;");
    assert_eq!(js.len(), 2);
    let rs = extract_imports("lib.rs", "use std::io;\nextern crate serde;\nfn use_it() {}\n    use inner::x;");
    assert_eq!(rs.len(), 3);
    let cs = extract_imports("P.cs", "using System;\nnamespace App;\nclass P {}");
    assert_eq!(cs.len(), 2);
    assert_eq!(import_style_of("x/y/Z.kt"), ImportStyle::Java);
    assert_eq!(import_style_of("x/.py"), ImportStyle::Other);
    assert_eq!(import_style_of("noext"), ImportStyle::Other);
}

#[test]
fn go_block_ends_at_closing_paren() {
    let imports = extract_imports("m.go", "import (\n\"a\"\n)\nvar x = 1\nimport \"b\"\n  import \"c\"");
    assert_eq!(imports.len(), 5);
    assert_eq!(imports[4], "  import \"c\"");
}
