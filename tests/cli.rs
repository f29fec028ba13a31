use rust_exe::{log_level, CliEntry, CliErrorKind, Subcommand};

fn tokens(words: &[&str]) -> Vec<Vec<u8>> {
    words.iter().map(|w| w.as_bytes().to_vec()).collect()
}

#[test]
fn test_cli_entry() {
    let entry = CliEntry::try_new(tokens(&["./target/debug/hello", "--to", "world"])).unwrap();
    assert_eq!(entry.verbosity, None);
    match entry.subcommand {
        Subcommand::Run(args) => {
            assert_eq!(args.as_slice(), tokens(&["./target/debug/hello", "--to", "world"]).as_slice())
        }
        _ => panic!("expected run"),
    }

    let entry = CliEntry::try_new(tokens(&["--verbose", "run", "-qq", "./hello.rs", "--to", "world"])).unwrap();
    assert_eq!(entry.verbosity, Some(-1));
    match entry.subcommand {
        Subcommand::Run(args) => {
            assert_eq!(args.as_slice(), tokens(&["./hello.rs", "--to", "world"]).as_slice())
        }
        _ => panic!("expected run"),
    }
}

#[test]
fn no_subcommand_means_help() {
    let entry = CliEntry::try_new(Vec::new()).unwrap();
    assert_eq!(entry.verbosity, None);
    assert!(matches!(entry.subcommand, Subcommand::Help(ref a) if a.len() == 0));

    let entry = CliEntry::try_new(tokens(&["-vvvvvvvv"])).unwrap();
    assert_eq!(entry.verbosity, Some(8));
    assert!(matches!(entry.subcommand, Subcommand::Help(_)));
}

#[test]
fn eval_keeps_its_words() {
    let entry = CliEntry::try_new(tokens(&["eval", "2 +", "2", "* 3"])).unwrap();
    match entry.subcommand {
        Subcommand::Eval(args) => assert_eq!(args.as_slice(), tokens(&["2 +", "2", "* 3"]).as_slice()),
        _ => panic!("expected eval"),
    }
}

#[test]
fn refused_tokens() {
    let e = CliEntry::try_new(tokens(&["--loud", "run"])).unwrap_err();
    assert_eq!(e.kind, CliErrorKind::UnrecognizedLongArgument);
    assert_eq!(e.argument, b"--loud".to_vec());

    let e = CliEntry::try_new(tokens(&["-vx"])).unwrap_err();
    assert_eq!(e.kind, CliErrorKind::UnrecognizedShortArgument);
    assert_eq!(e.argument, b"-vx".to_vec());

    let e = CliEntry::try_new(tokens(&["build"])).unwrap_err();
    assert_eq!(e.kind, CliErrorKind::UnrecognizedSubcommand);
    assert_eq!(e.argument, b"build".to_vec());

    // options are judged before the subcommand
    let e = CliEntry::try_new(tokens(&["build", "--nope"])).unwrap_err();
    assert_eq!(e.kind, CliErrorKind::UnrecognizedLongArgument);
}

#[test]
fn log_level_from_verbosity_and_environment() {
    assert_eq!(log_level(None, ""), "info");
    assert_eq!(log_level(None, "debug,hyper=off"), "debug,hyper=off");
    assert_eq!(log_level(Some(0), "trace"), "info");
    assert_eq!(log_level(Some(-3), ""), "off");
    assert_eq!(log_level(Some(-2), ""), "error");
    assert_eq!(log_level(Some(-1), ""), "warn");
    assert_eq!(log_level(Some(1), ""), "debug");
    assert_eq!(log_level(Some(2), ""), "trace");
    assert_eq!(log_level(Some(i32::MAX), ""), "trace");
    assert_eq!(log_level(Some(i32::MIN), ""), "off");
}
