use rust_exe::{is_argument_like, is_path_like, is_subcommand_like, ArgStream};

fn tokens(words: &[&str]) -> Vec<Vec<u8>> {
    words.iter().map(|w| w.as_bytes().to_vec()).collect()
}

#[test]
fn test_helpers() {
    let hello = b"hello";
    assert!(!is_argument_like(hello));
    assert!(is_subcommand_like(hello));
    assert!(!is_path_like(hello));

    let hello_world = b"hello world";
    assert!(!is_argument_like(hello_world));
    assert!(!is_subcommand_like(hello_world));
    assert!(!is_path_like(hello_world));

    let hello_slash_world = b"hello/world";
    assert!(!is_argument_like(hello_slash_world));
    assert!(!is_subcommand_like(hello_slash_world));
    assert!(is_path_like(hello_slash_world));

    let dash_vvvv = b"-vvvv";
    assert!(is_argument_like(dash_vvvv));
    assert!(!is_subcommand_like(dash_vvvv));
    assert!(!is_path_like(dash_vvvv));

    let dot_slash_dash_vvvv = b"./-vvvv";
    assert!(!is_argument_like(dot_slash_dash_vvvv));
    assert!(!is_subcommand_like(dot_slash_dash_vvvv));
    assert!(is_path_like(dot_slash_dash_vvvv));
}

#[test]
fn path_like_classification() {
    assert!(is_path_like(b"a/b"));
    assert!(is_path_like(b"./x"));
    assert!(is_path_like(b"a.rs"));
    assert!(is_path_like(b"a\\b"));
    assert!(!is_path_like(b"-v"));
    assert!(!is_path_like(b"ab"));
    assert!(!is_path_like(b""));
}

#[test]
fn subcommand_like_classification() {
    assert!(is_subcommand_like(b"run"));
    assert!(is_subcommand_like(b"eval-x"));
    assert!(is_subcommand_like(b"a_1"));
    assert!(!is_subcommand_like(b"-v"));
    assert!(!is_subcommand_like(b"a b"));
    assert!(!is_subcommand_like(b""));
    assert!(!is_subcommand_like(b"Run"));
}

#[test]
fn argument_like_classification() {
    assert!(is_argument_like(b"-"));
    assert!(is_argument_like(b"--verbose"));
    assert!(!is_argument_like(b""));
    assert!(!is_argument_like(b"a-"));
}

#[test]
fn push_front_with_slack_reuses_the_slot() {
    let mut s = ArgStream::new(tokens(&["a", "b", "c"]));
    assert_eq!(s.pop_front(), Some(b"a".to_vec()));
    assert_eq!(s.pop_front(), Some(b"b".to_vec()));
    s.push_front(b"x".to_vec());
    assert_eq!(s.as_slice(), tokens(&["x", "c"]).as_slice());
    s.push_front(b"y".to_vec());
    assert_eq!(s.as_slice(), tokens(&["y", "x", "c"]).as_slice());
    assert_eq!(s.len(), 3);
}

#[test]
fn push_front_without_slack_leaves_room_for_more() {
    let mut s = ArgStream::new(tokens(&["a", "b"]));
    s.push_front(b"run".to_vec());
    assert_eq!(s.as_slice(), tokens(&["run", "a", "b"]).as_slice());
    for i in 0..20u8 {
        s.push_front(vec![b'0' + i % 10]);
    }
    assert_eq!(s.len(), 23);
    assert_eq!(s.peek(), Some(&b"9"[..]));
    assert_eq!(s.pop_back(), Some(b"b".to_vec()));
}

#[test]
fn push_front_on_empty_stream() {
    let mut s = ArgStream::new(Vec::new());
    assert_eq!(s.peek(), None);
    s.push_front(b"run".to_vec());
    assert_eq!(s.len(), 1);
    assert_eq!(s.next(), Some(&b"run"[..]));
    assert_eq!(s.next(), None);
    assert_eq!(s.len(), 0);
}

#[test]
fn pops_from_both_ends() {
    let mut s = ArgStream::new(tokens(&["a", "b", "c"]));
    assert_eq!(s.pop_back(), Some(b"c".to_vec()));
    assert_eq!(s.pop_front(), Some(b"a".to_vec()));
    assert_eq!(s.pop_front(), Some(b"b".to_vec()));
    assert_eq!(s.pop_front(), None);
    assert_eq!(s.pop_back(), None);
    assert_eq!(s.len(), 0);
}

#[test]
fn extend_and_push_back_append() {
    let mut s = ArgStream::new(tokens(&["a"]));
    s.extend(tokens(&["b", "c"]));
    s.push_back(b"d".to_vec());
    assert_eq!(s.as_slice(), tokens(&["a", "b", "c", "d"]).as_slice());
}

#[test]
fn next_options_takes_the_leading_run() {
    let mut s = ArgStream::new(tokens(&["-v", "--quiet", "run", "-x"]));
    assert_eq!(s.next_options(), tokens(&["-v", "--quiet"]));
    assert_eq!(s.next_options(), Vec::<Vec<u8>>::new());
    assert_eq!(s.next_subcommand(), Some(b"run".to_vec()));
    assert_eq!(s.next_option(), Some(b"-x".to_vec()));
    assert_eq!(s.next_option(), None);
}

#[test]
fn typed_next_helpers() {
    let mut s = ArgStream::new(vec![b"./a.rs".to_vec(), b"42".to_vec(), vec![0xff, 0xfe], b"x".to_vec()]);
    assert_eq!(s.next_subcommand(), None);
    assert_eq!(s.peek_path(), Some(b"./a.rs".to_vec()));
    assert_eq!(s.next_path(), Some(b"./a.rs".to_vec()));
    assert_eq!(s.next_path(), None);
    assert_eq!(s.next_parse::<u32>(), Some(42));
    assert_eq!(s.next_string(), None);
    assert_eq!(s.next_parse::<u32>(), None);
    assert_eq!(s.pop_front(), Some(vec![0xff, 0xfe]));
    assert_eq!(s.next_parse::<u32>(), None);
    assert_eq!(s.next_string(), Some("x".to_string()));
}

#[test]
fn predicates_decide_next_if_and_peek_if() {
    let mut s = ArgStream::new(tokens(&["7", "8"]));
    assert_eq!(s.peek_if(|t: &[u8]| if t == b"7" { Some(7) } else { None }), Some(7));
    assert_eq!(s.len(), 2);
    assert_eq!(s.next_if(|t: &[u8]| if t == b"8" { Some(8) } else { None }), None);
    assert_eq!(s.next_if(|t: &[u8]| if t == b"7" { Some(7) } else { None }), Some(7));
    assert_eq!(s.as_slice(), tokens(&["8"]).as_slice());
}
