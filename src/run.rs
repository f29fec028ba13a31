use vstd::prelude::*;
use vstd::string::StringSliceAdditionalSpecFns;
use vstd::utf8::encode_utf8;
use crate::deps::string_views;
use crate::hashing::{blob_hash_hex, git_blob_sha1_hex};
use crate::manifest::{first8, prefix8};

verus! {

/// The exit code the host reports when the program died without one.
pub const SIGNAL_EXIT_CODE: i32 = 0xFF;

/// The host's exit code for the program's: the same code, or
/// `SIGNAL_EXIT_CODE` when a signal ended it.
pub fn exit_code(code: Option<i32>) -> (r: i32)
    ensures
        r == match code {
            Some(c) => c,
            None => SIGNAL_EXIT_CODE,
        },
{
    match code {
        Some(c) => c,
        None => SIGNAL_EXIT_CODE,
    }
}

/// The words joined with single spaces.
pub open spec fn joined(words: Seq<Seq<char>>) -> Seq<char>
    decreases words.len(),
{
    if words.len() == 0 {
        Seq::empty()
    } else if words.len() == 1 {
        words[0]
    } else {
        joined(words.drop_last()) + seq![' '] + words.last()
    }
}

/// The expression an `eval` command line spells: its words joined with spaces.
pub fn eval_body(words: &Vec<String>) -> (r: String)
    ensures
        r@ == joined(string_views(words@)),
{
    let mut body = String::new();
    let mut i: usize = 0;
    while i < words.len()
        invariant
            i <= words@.len(),
            body@ == joined(string_views(words@).take(i as int)),
        decreases words@.len() - i,
    {
        if i > 0 {
            body.append(" ");
            proof {
                reveal_strlit(" ");
            }
        }
        body.append(words[i].as_str());
        proof {
            let views = string_views(words@);
            assert(views.take(i + 1).drop_last() =~= views.take(i as int));
            if i == 0 {
                assert(body@ =~= joined(views.take(1)));
            } else {
                assert(body@ =~= joined(views.take(i + 1)));
            }
        }
        i += 1;
    }
    assert(string_views(words@).take(i as int) =~= string_views(words@));
    body
}

/// A program made up from an inline expression.
#[derive(Debug, Clone)]
pub struct InlineScript {
    /// A `main` that pretty-prints the expression's value.
    pub source: String,
    /// `eval_<first eight digits of the source's hash>.rs`.
    pub file_name: String,
}

/// The program that prints the value of `body`.
pub open spec fn eval_source(body: Seq<char>) -> Seq<char> {
    "fn main() { println!(\"{:#?}\", {"@ + body + "}); }"@
}

/// The file an inline program is given, named after its hash.
pub open spec fn eval_file_name(source: Seq<char>) -> Seq<char> {
    script_file_name_of(blob_hash_hex(encode_utf8(source)))
}

/// `eval_<first eight digits of the hash>.rs`.
pub open spec fn script_file_name_of(hash: Seq<char>) -> Seq<char> {
    "eval_"@ + prefix8(hash) + ".rs"@
}

/// The file name for an inline program whose source has the given hash.
pub fn script_file_name(source_hash: &str) -> (r: String)
    ensures
        r@ == script_file_name_of(source_hash@),
{
    let hash8 = first8(source_hash);
    "eval_".to_owned().concat(hash8.as_str()).concat(".rs")
}

/// Turns an inline expression into a program that prints its value, and
/// names the file it is to be run from.
pub fn eval(body: &str) -> (r: InlineScript)
    ensures
        r.source@ == eval_source(body@),
        r.file_name@ == eval_file_name(eval_source(body@)),
{
    let source = "fn main() { println!(\"{:#?}\", {".to_owned().concat(body).concat("}); }");
    let hash = git_blob_sha1_hex(source.as_str().as_bytes());
    let file_name = script_file_name(hash.as_str());
    InlineScript { source, file_name }
}

} // verus!
