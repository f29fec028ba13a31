use vstd::prelude::*;
use vstd::slice::{slice_subrange, slice_to_vec};
use crate::arg_stream::{
    is_path_like, leading_options, spec_is_path_like, spec_is_subcommand_like, token_seqs,
    ArgStream,
};

verus! {

pub open spec fn run_word() -> Seq<u8> {
    seq![114u8, 117u8, 110u8]
}

pub open spec fn eval_word() -> Seq<u8> {
    seq![101u8, 118u8, 97u8, 108u8]
}

pub open spec fn help_word() -> Seq<u8> {
    seq![104u8, 101u8, 108u8, 112u8]
}

pub open spec fn verbose_word() -> Seq<u8> {
    seq![118u8, 101u8, 114u8, 98u8, 111u8, 115u8, 101u8]
}

pub open spec fn quiet_word() -> Seq<u8> {
    seq![113u8, 117u8, 105u8, 101u8, 116u8]
}

/// An integer held to the range of `i32`.
pub open spec fn clamp_i32(n: int) -> i32 {
    if n > i32::MAX {
        i32::MAX
    } else if n < i32::MIN {
        i32::MIN
    } else {
        n as i32
    }
}

/// The verbosity after one `v` (`up`) or `q` flag; an unset verbosity counts as 0.
pub open spec fn bump(v: Option<i32>, up: bool) -> Option<i32> {
    let base: int = match v {
        Some(x) => x as int,
        None => 0,
    };
    Some(clamp_i32(if up { base + 1 } else { base - 1 }))
}

/// The verbosity after a run of short flags, or `None` when one of them is
/// neither `v` nor `q`.
pub open spec fn apply_short_flags(flags: Seq<u8>, v: Option<i32>) -> Option<Option<i32>>
    decreases flags.len(),
{
    if flags.len() == 0 {
        Some(v)
    } else if flags[0] == 118u8 {
        apply_short_flags(flags.drop_first(), bump(v, true))
    } else if flags[0] == 113u8 {
        apply_short_flags(flags.drop_first(), bump(v, false))
    } else {
        None
    }
}

/// Which kind of command-line token was refused.
#[derive(Clone, Copy, Debug, PartialEq, Eq, Structural)]
pub enum CliErrorKind {
    UnrecognizedLongArgument,
    UnrecognizedShortArgument,
    UnrecognizedSubcommand,
}

/// A refused token, with its bytes.
#[derive(Clone, Debug)]
pub struct CliError {
    pub kind: CliErrorKind,
    pub argument: Vec<u8>,
}

/// The verbosity after one option token: `--verbose` and `--quiet` move it by
/// one, a short option by one for each `v` and `q` it holds.
pub open spec fn apply_option(option: Seq<u8>, v: Option<i32>) -> Result<Option<i32>, CliErrorKind> {
    if option.len() >= 2 && option[0] == 45u8 && option[1] == 45u8 {
        let name = option.skip(2);
        if name == verbose_word() {
            Ok(bump(v, true))
        } else if name == quiet_word() {
            Ok(bump(v, false))
        } else {
            Err(CliErrorKind::UnrecognizedLongArgument)
        }
    } else if option.len() >= 1 && option[0] == 45u8 {
        match apply_short_flags(option.skip(1), v) {
            Some(v2) => Ok(v2),
            None => Err(CliErrorKind::UnrecognizedShortArgument),
        }
    } else {
        Ok(v)
    }
}

/// The verbosity after the option tokens in order, or the first one refused.
pub open spec fn apply_options(options: Seq<Seq<u8>>, v: Option<i32>) -> Result<
    Option<i32>,
    (CliErrorKind, Seq<u8>),
>
    decreases options.len(),
{
    if options.len() == 0 {
        Ok(v)
    } else {
        match apply_option(options[0], v) {
            Ok(v2) => apply_options(options.drop_first(), v2),
            Err(kind) => Err((kind, options[0])),
        }
    }
}

/// The tokens once a leading path has been given the `run` subcommand.
pub open spec fn with_run_inserted(args: Seq<Seq<u8>>) -> Seq<Seq<u8>> {
    if args.len() > 0 && spec_is_path_like(args[0]) {
        seq![run_word()] + args
    } else {
        args
    }
}

/// The command line split into its options (those before the subcommand,
/// then those right after it), the subcommand (`help` where none is given),
/// and the tokens left for the subcommand.
pub open spec fn cli_parts(args: Seq<Seq<u8>>) -> (Seq<Seq<u8>>, Seq<u8>, Seq<Seq<u8>>) {
    let s1 = with_run_inserted(args);
    let n1 = leading_options(s1) as int;
    let r1 = s1.skip(n1);
    let has_sub = r1.len() > 0 && spec_is_subcommand_like(r1[0]);
    let sub = if has_sub {
        r1[0]
    } else {
        help_word()
    };
    let r2 = if has_sub {
        r1.drop_first()
    } else {
        r1
    };
    let n2 = leading_options(r2) as int;
    (s1.take(n1) + r2.take(n2), sub, r2.skip(n2))
}

/// What a command line amounts to: its verbosity, subcommand and remaining
/// tokens, or the first token refused. Options are judged before the
/// subcommand is.
pub open spec fn cli_outcome(args: Seq<Seq<u8>>) -> Result<
    (Option<i32>, Seq<u8>, Seq<Seq<u8>>),
    (CliErrorKind, Seq<u8>),
> {
    let (options, sub, rest) = cli_parts(args);
    match apply_options(options, None) {
        Err(e) => Err(e),
        Ok(v) => if sub == run_word() || sub == eval_word() || sub == help_word() {
            Ok((v, sub, rest))
        } else {
            Err((CliErrorKind::UnrecognizedSubcommand, sub))
        },
    }
}

/// The action the command line asks for, with the tokens left for it.
#[derive(Debug, Clone)]
pub enum Subcommand {
    Run(ArgStream),
    Eval(ArgStream),
    Help(ArgStream),
}

impl Subcommand {
    /// The word that names the subcommand.
    pub open spec fn word(&self) -> Seq<u8> {
        match self {
            Subcommand::Run(_) => run_word(),
            Subcommand::Eval(_) => eval_word(),
            Subcommand::Help(_) => help_word(),
        }
    }

    /// The tokens left for the subcommand.
    pub open spec fn stream(&self) -> ArgStream {
        match self {
            Subcommand::Run(s) => *s,
            Subcommand::Eval(s) => *s,
            Subcommand::Help(s) => *s,
        }
    }
}

/// A classified command line.
#[derive(Debug, Clone)]
pub struct CliEntry {
    pub verbosity: Option<i32>,
    pub subcommand: Subcommand,
}

/// Whether two byte strings are equal.
pub fn bytes_equal(a: &[u8], b: &[u8]) -> (r: bool)
    ensures
        r == (a@ == b@),
{
    if a.len() != b.len() {
        return false;
    }
    let mut i: usize = 0;
    while i < a.len()
        invariant
            i <= a@.len(),
            a@.len() == b@.len(),
            forall|j: int| 0 <= j < i ==> a@[j] == b@[j],
        decreases a@.len() - i,
    {
        if a[i] != b[i] {
            return false;
        }
        i += 1;
    }
    assert(a@ =~= b@);
    true
}

fn bump_verbosity(v: Option<i32>, up: bool) -> (r: Option<i32>)
    ensures
        r == bump(v, up),
{
    let base: i32 = match v {
        Some(x) => x,
        None => 0,
    };
    if up {
        if base == i32::MAX {
            Some(base)
        } else {
            Some(base + 1)
        }
    } else {
        if base == i32::MIN {
            Some(base)
        } else {
            Some(base - 1)
        }
    }
}

fn apply_option_exec(option: &[u8], v: Option<i32>) -> (r: Result<Option<i32>, CliErrorKind>)
    ensures
        r == apply_option(option@, v),
{
    if option.len() >= 2 && option[0] == 45u8 && option[1] == 45u8 {
        let name = slice_subrange(option, 2, option.len());
        let verbose: Vec<u8> = vec![118u8, 101u8, 114u8, 98u8, 111u8, 115u8, 101u8];
        let quiet: Vec<u8> = vec![113u8, 117u8, 105u8, 101u8, 116u8];
        proof {
            assert(verbose@ =~= verbose_word());
            assert(quiet@ =~= quiet_word());
            assert(name@ =~= option@.skip(2));
        }
        if bytes_equal(name, verbose.as_slice()) {
            Ok(bump_verbosity(v, true))
        } else if bytes_equal(name, quiet.as_slice()) {
            Ok(bump_verbosity(v, false))
        } else {
            Err(CliErrorKind::UnrecognizedLongArgument)
        }
    } else if option.len() >= 1 && option[0] == 45u8 {
        let mut current = v;
        let mut i: usize = 1;
        while i < option.len()
            invariant
                1 <= i <= option@.len(),
                option@[0] == 45u8,
                !(option@.len() >= 2 && option@[0] == 45u8 && option@[1] == 45u8),
                apply_short_flags(option@.skip(1), v) == apply_short_flags(option@.skip(i as int), current),
            decreases option@.len() - i,
        {
            let ghost rest = option@.skip(i as int);
            assert(rest.drop_first() =~= option@.skip(i + 1));
            let flag = option[i];
            assert(rest[0] == flag);
            if flag == 118u8 {
                current = bump_verbosity(current, true);
            } else if flag == 113u8 {
                current = bump_verbosity(current, false);
            } else {
                return Err(CliErrorKind::UnrecognizedShortArgument);
            }
            i += 1;
        }
        Ok(current)
    } else {
        Ok(v)
    }
}

/// Whether a classification result is the outcome the spec gives.
pub open spec fn outcome_matches(
    r: Result<CliEntry, CliError>,
    outcome: Result<(Option<i32>, Seq<u8>, Seq<Seq<u8>>), (CliErrorKind, Seq<u8>)>,
) -> bool {
    match outcome {
        Err((kind, bad)) => r is Err && r->Err_0.kind == kind && r->Err_0.argument@ == bad,
        Ok((verbosity, word, rest)) => {
            &&& r is Ok
            &&& r->Ok_0.verbosity == verbosity
            &&& r->Ok_0.subcommand.word() == word
            &&& r->Ok_0.subcommand.stream().wf()
            &&& r->Ok_0.subcommand.stream()@ == rest
        },
    }
}

impl CliEntry {
    /// Classifies a command line (without the program name).
    ///
    /// A leading path-like token stands for `run <path>`. Options may come
    /// before the subcommand and right after it; a missing subcommand means
    /// `help`. Options are checked in order before the subcommand is.
    pub fn try_new(args: Vec<Vec<u8>>) -> (r: Result<CliEntry, CliError>)
        ensures
            outcome_matches(r, cli_outcome(token_seqs(args@))),
    {
        let ghost tokens = token_seqs(args@);
        let mut stream = ArgStream::new(args);
        if stream.peek_path().is_some() {
            stream.push_front(vec![114u8, 117u8, 110u8]);
            assert(seq![114u8, 117u8, 110u8] =~= run_word());
        }
        assert(stream@ == with_run_inserted(tokens));
        let mut options = stream.next_options();
        let subcommand = match stream.next_subcommand() {
            Some(s) => s,
            None => {
                let help: Vec<u8> = vec![104u8, 101u8, 108u8, 112u8];
                assert(help@ =~= help_word());
                help
            },
        };
        let ghost first = token_seqs(options@);
        let mut after = stream.next_options();
        let ghost second = token_seqs(after@);
        options.append(&mut after);
        let ghost all = token_seqs(options@);
        proof {
            assert(all =~= first + second);
            assert(cli_parts(tokens).0 =~= all);
        }
        let mut verbosity: Option<i32> = None;
        let mut i: usize = 0;
        assert(all.skip(0) =~= all);
        while i < options.len()
            invariant
                i <= options@.len(),
                all == token_seqs(options@),
                cli_parts(tokens).0 == all,
                tokens == token_seqs(args@),
                apply_options(all, None) == apply_options(all.skip(i as int), verbosity),
            decreases options@.len() - i,
        {
            assert(all.skip(i as int).drop_first() =~= all.skip(i + 1));
            assert(all.skip(i as int)[0] == options@[i as int]@);
            match apply_option_exec(options[i].as_slice(), verbosity) {
                Ok(v) => {
                    verbosity = v;
                },
                Err(kind) => {
                    let argument = slice_to_vec(options[i].as_slice());
                    return Err(CliError { kind, argument });
                },
            }
            i += 1;
        }
        assert(all.skip(i as int) =~= Seq::<Seq<u8>>::empty());
        let run: Vec<u8> = vec![114u8, 117u8, 110u8];
        let eval: Vec<u8> = vec![101u8, 118u8, 97u8, 108u8];
        let help: Vec<u8> = vec![104u8, 101u8, 108u8, 112u8];
        proof {
            assert(run@ =~= run_word());
            assert(eval@ =~= eval_word());
            assert(help@ =~= help_word());
        }
        if bytes_equal(subcommand.as_slice(), run.as_slice()) {
            Ok(CliEntry { verbosity, subcommand: Subcommand::Run(stream) })
        } else if bytes_equal(subcommand.as_slice(), eval.as_slice()) {
            Ok(CliEntry { verbosity, subcommand: Subcommand::Eval(stream) })
        } else if bytes_equal(subcommand.as_slice(), help.as_slice()) {
            Ok(CliEntry { verbosity, subcommand: Subcommand::Help(stream) })
        } else {
            Err(CliError { kind: CliErrorKind::UnrecognizedSubcommand, argument: subcommand })
        }
    }
}

/// The verbosity the tool starts from: `info`.
pub const DEFAULT_VERBOSITY: i32 = 3;

/// The log filter for a run: the environment's filter when it is set and no
/// verbosity option was given, else the level that the default verbosity
/// moved by the options names.
pub open spec fn spec_log_level(verbosity: Option<i32>, log_env: Seq<char>) -> Seq<char> {
    if verbosity is None && log_env.len() > 0 {
        log_env
    } else {
        let level = DEFAULT_VERBOSITY + match verbosity {
            Some(v) => v as int,
            None => 0,
        };
        if level <= 0 {
            "off"@
        } else if level == 1 {
            "error"@
        } else if level == 2 {
            "warn"@
        } else if level == 3 {
            "info"@
        } else if level == 4 {
            "debug"@
        } else {
            "trace"@
        }
    }
}

/// Picks the log filter from the verbosity options and the log environment
/// variable's value (empty when unset).
pub fn log_level(verbosity: Option<i32>, log_env: &str) -> (r: String)
    ensures
        r@ == spec_log_level(verbosity, log_env@),
{
    if verbosity.is_none() && !log_env.is_empty() {
        return log_env.to_owned();
    }
    let shift: i64 = match verbosity {
        Some(v) => v as i64,
        None => 0,
    };
    let level: i64 = DEFAULT_VERBOSITY as i64 + shift;
    if level <= 0 {
        "off".to_owned()
    } else if level == 1 {
        "error".to_owned()
    } else if level == 2 {
        "warn".to_owned()
    } else if level == 3 {
        "info".to_owned()
    } else if level == 4 {
        "debug".to_owned()
    } else {
        "trace".to_owned()
    }
}

} // verus!
