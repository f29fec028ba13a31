use rust_exe::{infer_dependencies, synthesize_manifest, SourceUnit, SyntaxNode, UseTree};

#[test]
fn source_unit_hashes_content_and_path() {
    let body = "fn main(){ println!(\"hello\"); }\n";
    let unit = SourceUnit::new("/home/user/hello.rs", body).unwrap();
    assert_eq!(unit.display_name, "hello");
    assert_eq!(unit.raw_bytes, body.as_bytes().to_vec());
    assert_eq!(unit.content_hash, "a8c1db5fa7c185f8f03171dd137ca8b1a9aa024e");
    assert_eq!(unit.path_hash, "490ae5577a8f6b4d1c17266d78fe1d8d1dfd22e4");
}

#[test]
fn source_identity_is_stable() {
    let body = "fn main(){ println!(\"hello\"); }\n";
    let a = SourceUnit::new("/home/user/hello.rs", body).unwrap();
    let b = SourceUnit::new("/home/user/hello.rs", body).unwrap();
    assert_eq!(a.content_hash, b.content_hash);
    assert_eq!(a.path_hash, b.path_hash);
}

#[test]
fn path_without_file_has_no_unit() {
    assert!(SourceUnit::new("/", "fn main() {}").is_none());
    assert!(SourceUnit::new("", "fn main() {}").is_none());
}

#[test]
fn manifest_names_and_version() {
    let unit = SourceUnit::new("/tmp/My Script.rs", "fn main(){ println!(\"hello\"); }\n").unwrap();
    let deps = infer_dependencies(&vec![SyntaxNode::Import {
        leading_colon: true,
        tree: UseTree::Path("eyre".to_string()),
    }]);
    let m = synthesize_manifest(&unit, &deps);
    assert_eq!(m.package_name, "my-script-285b903b");
    assert_eq!(m.version_tag, "0.0.0-a8c1db5f");
    assert_eq!(m.binary_name, "my_script");
    assert_eq!(m.entry_relative_path, "my_script.rs");
    assert_eq!(m.dependencies, vec!["eyre".to_string()]);
}

#[test]
fn manifest_is_the_same_for_the_same_source() {
    let body = "fn main(){ println!(\"hello\"); }\n";
    let deps = infer_dependencies(&Vec::new());
    let m1 = synthesize_manifest(&SourceUnit::new("/home/user/hello.rs", body).unwrap(), &deps);
    let m2 = synthesize_manifest(&SourceUnit::new("/home/user/hello.rs", body).unwrap(), &deps);
    assert_eq!(m1.package_name, "hello-490ae557");
    assert_eq!(m1.package_name, m2.package_name);
    assert_eq!(m1.version_tag, m2.version_tag);
    assert!(m1.dependencies.is_empty());
}

#[test]
fn stem_and_case_conversions_come_from_the_path() {
    let unit = SourceUnit::new("/tmp/My Script.rs", "").unwrap();
    assert_eq!(unit.display_name, "My Script");
    assert_eq!(unit.content_hash, "e69de29bb2d1d6434b8b29ae775ad8c2e48c5391");
}

#[test]
fn name_and_version_builders() {
    assert_eq!(rust_exe::package_name("hello", "490ae5577a8f6b4d1c17266d78fe1d8d1dfd22e4"), "hello-490ae557");
    assert_eq!(rust_exe::package_name("x", "abc"), "x-abc");
    assert_eq!(rust_exe::version_tag("a8c1db5fa7c185f8f03171dd137ca8b1a9aa024e"), "0.0.0-a8c1db5f");
    assert_eq!(rust_exe::first8("0123456789"), "01234567");
    assert_eq!(rust_exe::first8("0123"), "0123");
}

#[test]
fn inline_units_are_named_by_content() {
    let source = "fn main() { println!(\"{:#?}\", {2 + 2 * 3}); }";
    let unit = SourceUnit::inline(source);
    assert_eq!(unit.content_hash, "8eded71ac8b724455dc109c707172e07c6ff69a0");
    assert_eq!(unit.path_hash, unit.content_hash);
    assert_eq!(unit.display_name, "eval_8eded71a");
    assert_eq!(unit.raw_bytes, source.as_bytes().to_vec());
    let m = synthesize_manifest(&unit, &infer_dependencies(&Vec::new()));
    assert_eq!(m.package_name, "eval-8eded71a-8eded71a");
    assert_eq!(m.entry_relative_path, "eval_8eded71a.rs");
    let again = SourceUnit::inline(source);
    assert_eq!(again.path_hash, unit.path_hash);
}

#[test]
fn rendered_manifest_text() {
    let unit = SourceUnit::new("/tmp/My Script.rs", "fn main(){ println!(\"hello\"); }\n").unwrap();
    let deps = infer_dependencies(&vec![
        SyntaxNode::Import { leading_colon: true, tree: UseTree::Path("eyre".to_string()) },
        SyntaxNode::ExternCrate { ident: "rand".to_string() },
    ]);
    let m = synthesize_manifest(&unit, &deps);
    assert_eq!(
        rust_exe::render_manifest(&m),
        "[package]\nautobins = false\nedition = \"2021\"\nname = \"my-script-285b903b\"\nversion = \"0.0.0-a8c1db5f\"\n\n[[bin]]\nname = \"my_script\"\npath = \"my_script.rs\"\n\n[dependencies]\neyre = \"*\"\nrand = \"*\"\n"
    );
}
