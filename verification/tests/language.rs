use grafy::language::Language;

#[test]
fn ext_routing_full() {
    for (ext, want) in [
        ("rs", Language::Rust),
        ("py", Language::Python),
        ("js", Language::JavaScript),
        ("ts", Language::TypeScript),
        ("tsx", Language::Tsx),
        ("go", Language::Go),
        ("java", Language::Java),
        ("cpp", Language::Cpp),
        ("cs", Language::CSharp),
        ("php", Language::Php),
        ("scala", Language::Scala),
        ("lua", Language::Lua),
    ] {
        assert_eq!(Language::from_extension(ext), Some(want), "ext={ext}");
    }
    assert_eq!(Language::from_extension("zig"), None);
}

#[test]
fn extension_aliases_route_to_their_language() {
    assert_eq!(Language::from_extension("pyi"), Some(Language::Python));
    assert_eq!(Language::from_extension("mjs"), Some(Language::JavaScript));
    assert_eq!(Language::from_extension("cjs"), Some(Language::JavaScript));
    assert_eq!(Language::from_extension("jsx"), Some(Language::JavaScript));
    assert_eq!(Language::from_extension("mts"), Some(Language::TypeScript));
    assert_eq!(Language::from_extension("cts"), Some(Language::TypeScript));
    assert_eq!(Language::from_extension("h++"), Some(Language::Cpp));
    assert_eq!(Language::from_extension("hpp"), Some(Language::Cpp));
    assert_eq!(Language::from_extension("phtml"), Some(Language::Php));
    assert_eq!(Language::from_extension("sc"), Some(Language::Scala));
    assert_eq!(Language::from_extension("RS"), None);
    assert_eq!(Language::from_extension(""), None);
}

#[test]
fn language_names_are_stable() {
    assert_eq!(Language::Rust.as_str(), "rust");
    assert_eq!(Language::CSharp.as_str(), "csharp");
    assert_eq!(Language::Tsx.as_str(), "tsx");
    assert_eq!(Language::Lua.as_str(), "lua");
}
