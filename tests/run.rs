use rust_exe::{eval, exit_code};

#[test]
fn eval_wraps_the_expression() {
    let script = eval("2 + 2 * 3");
    assert_eq!(script.source, "fn main() { println!(\"{:#?}\", {2 + 2 * 3}); }");
    assert_eq!(script.file_name, "eval_8eded71a.rs");
}

#[test]
fn exit_code_is_forwarded() {
    assert_eq!(exit_code(Some(0)), 0);
    assert_eq!(exit_code(Some(3)), 3);
    assert_eq!(exit_code(None), 0xFF);
}

#[test]
fn script_file_name_takes_eight_digits() {
    assert_eq!(rust_exe::script_file_name("8eded71ac8b724455dc109c707172e07c6ff69a0"), "eval_8eded71a.rs");
}

#[test]
fn eval_words_are_joined_with_spaces() {
    let words = vec!["2 +".to_string(), "2".to_string(), "* 3".to_string()];
    assert_eq!(rust_exe::eval_body(&words), "2 + 2 * 3");
    assert_eq!(rust_exe::eval_body(&Vec::new()), "");
    assert_eq!(rust_exe::eval_body(&vec!["x".to_string()]), "x");
}
