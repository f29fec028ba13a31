use rust_exe::{Module, ModuleData};

#[test]
fn module_from_source_parses() {
    assert!(Module::try_from_source("fn main() { println!(\"hello\"); }").is_ok());
    assert!(ModuleData::from_str("use ::std::fmt;").is_ok());
}

#[test]
fn module_from_bad_source_fails() {
    assert!(Module::try_from_source("fn main( {").is_err());
    let e = ModuleData::from_str("2 +").err().unwrap();
    assert!(!e.diagnostic.to_string().is_empty());
}

#[test]
fn modules_by_path_and_name() {
    let _ = Module::from_path(std::path::PathBuf::from("a.rs"));
    let _ = Module::from_name("a".to_string());
    let _ = rust_exe::Input::new(std::path::PathBuf::from("."), std::path::PathBuf::from("a.rs"));
}
