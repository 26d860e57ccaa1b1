use grafy::fqn::{for_file, java, python, rust};
use grafy::language::Language;
use grafy::routes::{detect_framework, Framework};

#[test]
fn detect_fastapi() {
    let src = b"from fastapi import FastAPI\napp = FastAPI()";
    assert_eq!(detect_framework(Language::Python, "app.py", src), Some(Framework::FastApi));
}

#[test]
fn detect_gin() {
    let src = b"import \"github.com/gin-gonic/gin\"\nfunc main() { r := gin.Default() }";
    assert_eq!(detect_framework(Language::Go, "main.go", src), Some(Framework::Gin));
}

#[test]
fn detect_express_require() {
    let src = b"const express = require('express');\nconst app = express();";
    assert_eq!(detect_framework(Language::JavaScript, "app.js", src), Some(Framework::Express));
}

#[test]
fn detect_express_esm() {
    let src = b"import express from 'express';\nconst app = express();";
    assert_eq!(detect_framework(Language::TypeScript, "app.ts", src), Some(Framework::Express));
}

#[test]
fn detect_none_for_rust() {
    let src = b"fn main() {}";
    assert_eq!(detect_framework(Language::Rust, "main.rs", src), None);
}

#[test]
fn detect_none_for_plain_python() {
    let src = b"import os\ndef foo(): pass";
    assert_eq!(detect_framework(Language::Python, "util.py", src), None);
}

#[test]
fn init_collapses() {
    assert_eq!(python::fqn("/r", "/r/pkg/sub/__init__.py"), Some("pkg.sub".into()));
}

#[test]
fn mod_collapses() {
    assert_eq!(rust::fqn("/r", "/r/foo/bar/mod.rs"), Some("foo::bar".into()));
}

#[test]
fn regular_file() {
    assert_eq!(rust::fqn("/r", "/r/a/b.rs"), Some("a::b".into()));
}

#[test]
fn file_outside_root_has_no_module_name() {
    assert_eq!(rust::fqn("/r", "/elsewhere/a.rs"), None);
}

#[test]
fn per_language_rules() {
    assert_eq!(for_file(Language::JavaScript, "/r", "/r/web/index.js"), Some("web".into()));
    assert_eq!(for_file(Language::Tsx, "/r", "/r/ui/App.tsx"), Some("ui/App".into()));
    assert_eq!(for_file(Language::Go, "/r", "/r/cmd/tool/main.go"), Some("cmd/tool".into()));
    assert_eq!(for_file(Language::Cpp, "/r", "/r/lib/x.cpp"), Some("lib::x".into()));
    assert_eq!(for_file(Language::Java, "/r", "/r/src/main/java/com/acme/App.java"), Some("com.acme.App".into()));
    assert_eq!(for_file(Language::Scala, "/r", "/r/a/B.scala"), Some("a.B".into()));
}

#[test]
fn maven_prefix_is_trimmed_only_before_the_last_part() {
    let parts: Vec<String> = ["src", "main", "java", "App"].iter().map(|s| s.to_string()).collect();
    assert_eq!(java::trim_maven_prefix(&parts), vec!["App".to_string()]);
    let parts: Vec<String> = ["x", "src", "main", "java"].iter().map(|s| s.to_string()).collect();
    assert_eq!(java::trim_maven_prefix(&parts), parts);
}
