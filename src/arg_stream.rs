use vstd::prelude::*;
use vstd::slice::{slice_subrange, slice_to_vec};
use vstd::utf8::{decode_utf8, valid_utf8};

verus! {

/// A token asks for an option when it starts with `-`.
pub open spec fn spec_is_argument_like(s: Seq<u8>) -> bool {
    s.len() > 0 && s[0] == 45u8
}

/// The bytes that make a token read as a path: `/`, `\` and `.`.
pub open spec fn is_path_byte(b: u8) -> bool {
    b == 47u8 || b == 92u8 || b == 46u8
}

/// The bytes a subcommand is spelled with: `a`-`z`, `0`-`9`, `_` and `-`.
pub open spec fn is_subcommand_byte(b: u8) -> bool {
    (97u8 <= b && b <= 122u8) || (48u8 <= b && b <= 57u8) || b == 95u8 || b == 45u8
}

pub open spec fn spec_is_path_like(s: Seq<u8>) -> bool {
    s.len() > 0 && !spec_is_argument_like(s) && exists|i: int| 0 <= i < s.len() && is_path_byte(#[trigger] s[i])
}

pub open spec fn spec_is_subcommand_like(s: Seq<u8>) -> bool {
    s.len() > 0 && !spec_is_argument_like(s) && forall|i: int| 0 <= i < s.len() ==> is_subcommand_byte(#[trigger] s[i])
}

/// Whether the token is an option: it starts with `-`.
pub fn is_argument_like(s: &[u8]) -> (r: bool)
    ensures
        r == spec_is_argument_like(s@),
{
    s.len() > 0 && s[0] == 45u8
}

/// Whether the token reads as a path: non-empty, not an option, and holding
/// at least one of `/`, `\` or `.`.
pub fn is_path_like(s: &[u8]) -> (r: bool)
    ensures
        r == spec_is_path_like(s@),
{
    if s.len() == 0 || is_argument_like(s) {
        return false;
    }
    let mut i: usize = 0;
    while i < s.len()
        invariant
            0 <= i <= s@.len(),
            s@.len() > 0,
            !spec_is_argument_like(s@),
            forall|j: int| 0 <= j < i ==> !is_path_byte(#[trigger] s@[j]),
        decreases s@.len() - i,
    {
        let b = s[i];
        if b == 47u8 || b == 92u8 || b == 46u8 {
            assert(is_path_byte(s@[i as int]));
            return true;
        }
        i += 1;
    }
    false
}

/// Whether the token reads as a subcommand: non-empty, not an option, and
/// spelled only with lowercase ASCII letters, digits, `_` and `-`.
pub fn is_subcommand_like(s: &[u8]) -> (r: bool)
    ensures
        r == spec_is_subcommand_like(s@),
{
    if s.len() == 0 || is_argument_like(s) {
        return false;
    }
    let mut i: usize = 0;
    while i < s.len()
        invariant
            0 <= i <= s@.len(),
            s@.len() > 0,
            !spec_is_argument_like(s@),
            forall|j: int| 0 <= j < i ==> is_subcommand_byte(#[trigger] s@[j]),
        decreases s@.len() - i,
    {
        let b = s[i];
        if !((97u8 <= b && b <= 122u8) || (48u8 <= b && b <= 57u8) || b == 95u8 || b == 45u8) {
            return false;
        }
        i += 1;
    }
    true
}


/// The contents of a vector of owned tokens.
pub open spec fn token_seqs(v: Seq<Vec<u8>>) -> Seq<Seq<u8>> {
    v.map_values(|t: Vec<u8>| t@)
}

/// `n` empty tokens: the slack left before the cursor when the buffer is rebuilt.
pub open spec fn empty_tokens(n: nat) -> Seq<Seq<u8>> {
    Seq::new(n, |i: int| Seq::<u8>::empty())
}

/// Where the cursor is parked when a buffer of the given capacity is rebuilt:
/// `max(capacity, 8)` new leading slots, the new token in the last but one.
pub open spec fn slack_for(capacity: nat) -> nat {
    (if capacity > 8 {
        capacity
    } else {
        8
    } - 2) as nat
}

/// Relies on `Vec::capacity`: the room the vector has, never less than its length.
#[verifier::external_body]
fn vec_capacity(v: &Vec<Vec<u8>>) -> (r: usize)
    ensures
        r >= v@.len(),
{
    v.capacity()
}

/// How many tokens at the front of `s` are options, one after another.
pub open spec fn leading_options(s: Seq<Seq<u8>>) -> nat
    decreases s.len(),
{
    if s.len() > 0 && spec_is_argument_like(s[0]) {
        1 + leading_options(s.drop_first())
    } else {
        0
    }
}

/// Relies on `std::str::from_utf8`: it accepts exactly the well-formed UTF-8
/// byte sequences, and the text it yields is their decoding.
#[verifier::external_body]
fn utf8_text(bytes: &[u8]) -> (r: Option<String>)
    ensures
        r is Some <==> valid_utf8(bytes@),
        r matches Some(t) ==> t@ == decode_utf8(bytes@),
{
    std::str::from_utf8(bytes).ok().map(String::from)
}

/// Relies on `str::parse`: which texts parse, and to what, is up to the
/// `FromStr` impl of `Out`.
#[verifier::external_body]
fn parse_text<Out: std::str::FromStr>(text: &str) -> (r: Option<Out>) {
    text.parse().ok()
}

/// A cursor-based deque of command-line tokens.
///
/// The tokens live in one buffer; `offset` counts the leading slots that were
/// consumed (or left free as slack for cheap front insertion).
#[derive(Debug, Clone)]
pub struct ArgStream {
    args: Vec<Vec<u8>>,
    offset: usize,
}

impl ArgStream {
    /// The cursor never passes the end of the buffer.
    pub closed spec fn wf(&self) -> bool {
        self.offset <= self.args.len()
    }

    /// Every slot of the underlying buffer, consumed or not.
    pub closed spec fn buffer(&self) -> Seq<Seq<u8>> {
        token_seqs(self.args@)
    }

    /// The read cursor: how many leading slots of the buffer hold no live token.
    pub closed spec fn cursor(&self) -> nat {
        self.offset as nat
    }

    /// A stream over the given tokens, read from the first.
    pub fn new(args: Vec<Vec<u8>>) -> (r: ArgStream)
        ensures
            r@ == token_seqs(args@),
            r.buffer() == token_seqs(args@),
            r.cursor() == 0,
            r.wf(),
    {
        ArgStream { args, offset: 0 }
    }

    /// Appends the tokens at the back, in order.
    pub fn extend(&mut self, args: Vec<Vec<u8>>)
        requires
            old(self).wf(),
        ensures
            final(self).wf(),
            final(self)@ == old(self)@ + token_seqs(args@),
            final(self).buffer() == old(self).buffer() + token_seqs(args@),
            final(self).cursor() == old(self).cursor(),
    {
        let ghost added = args@;
        let mut args = args;
        self.args.append(&mut args);
        proof {
            assert(self.buffer().skip(self.cursor() as int) =~= old(self)@ + token_seqs(added));
        }
    }

    /// Appends one token at the back.
    pub fn push_back(&mut self, arg: Vec<u8>)
        requires
            old(self).wf(),
        ensures
            final(self).wf(),
            final(self)@ == old(self)@.push(arg@),
            final(self).buffer() == old(self).buffer().push(arg@),
            final(self).cursor() == old(self).cursor(),
    {
        let ghost added = arg@;
        self.args.push(arg);
        proof {
            assert(self.buffer() =~= old(self).buffer().push(added));
            assert(self.buffer().skip(self.cursor() as int) =~= old(self)@.push(added));
        }
    }

    /// The tokens not yet consumed.
    pub fn as_slice(&self) -> (r: &[Vec<u8>])
        requires
            self.wf(),
        ensures
            token_seqs(r@) == self@,
    {
        let r = slice_subrange(self.args.as_slice(), self.offset, self.args.len());
        proof {
            assert(token_seqs(r@) =~= self@);
        }
        r
    }

    /// The next token, left in place.
    pub fn peek(&self) -> (r: Option<&[u8]>)
        requires
            self.wf(),
        ensures
            self@.len() == 0 ==> r is None,
            self@.len() > 0 ==> r is Some && r.unwrap()@ == self@[0],
    {
        if self.offset < self.args.len() {
            Some(self.args[self.offset].as_slice())
        } else {
            None
        }
    }

    /// Puts a token in front of all others.
    ///
    /// With free slack before the cursor the slot just before it is reused and
    /// nothing moves. Without slack the buffer is rebuilt with
    /// `max(capacity, 8)` new leading slots, the token in the last but one of
    /// them, so the cursor keeps room for later front insertions.
    pub fn push_front(&mut self, arg: Vec<u8>)
        requires
            old(self).wf(),
        ensures
            final(self).wf(),
            final(self)@ == seq![arg@] + old(self)@,
            old(self).cursor() > 0 ==> final(self).cursor() == old(self).cursor() - 1
                && final(self).buffer() == old(self).buffer().update(
                old(self).cursor() - 1,
                arg@,
            ),
            old(self).cursor() > 0 ==> final(self).buffer().len() == old(self).buffer().len(),
            old(self).cursor() == 0 ==> final(self).cursor() >= 6,
            old(self).cursor() == 0 ==> exists|capacity: nat|
                capacity >= old(self).buffer().len() && final(self).cursor() == #[trigger] slack_for(
                    capacity,
                ),
            old(self).cursor() == 0 ==> final(self).buffer() == empty_tokens(final(self).cursor())
                + seq![arg@] + old(self).buffer(),
    {
        let ghost front = arg@;
        if self.offset > 0 {
            self.offset = self.offset - 1;
            let index = self.offset;
            self.args[index] = arg;
            proof {
                assert(self.buffer() =~= old(self).buffer().update(old(self).cursor() - 1, front));
                assert(self.buffer().skip(self.cursor() as int) =~= seq![front] + old(self)@);
            }
        } else {
            let old_capacity = vec_capacity(&self.args);
            let added_capacity = if old_capacity > 8 {
                old_capacity
            } else {
                8
            };
            let new_capacity = old_capacity.saturating_add(added_capacity);
            let slack = added_capacity - 2;
            let mut new_args: Vec<Vec<u8>> = Vec::with_capacity(new_capacity);
            let mut i: usize = 0;
            while i < slack
                invariant
                    i <= slack,
                    new_args@.len() == i,
                    token_seqs(new_args@) == empty_tokens(i as nat),
                decreases slack - i,
            {
                let empty: Vec<u8> = Vec::new();
                let ghost prev = new_args@;
                new_args.push(empty);
                proof {
                    assert forall|j: int| 0 <= j < i + 1 implies token_seqs(new_args@)[j] == empty_tokens(
                        (i + 1) as nat,
                    )[j] by {
                        if j < i {
                            assert(token_seqs(prev)[j] == empty_tokens(i as nat)[j]);
                        }
                    }
                    assert(token_seqs(new_args@) =~= empty_tokens((i + 1) as nat));
                }
                i += 1;
            }
            new_args.push(arg);
            let ghost filled = new_args@;
            let ghost before = self.args@;
            new_args.append(&mut self.args);
            self.args = new_args;
            self.offset = slack;
            proof {
                assert(self.args@ =~= filled + before);
                assert(self.buffer() =~= empty_tokens(slack as nat) + seq![front] + old(self).buffer());
                assert(self.cursor() == slack_for(old_capacity as nat));
                assert(self.buffer().skip(self.cursor() as int) =~= seq![front] + old(self)@);
            }
        }
    }

    /// Takes the next token out of the stream.
    pub fn pop_front(&mut self) -> (r: Option<Vec<u8>>)
        requires
            old(self).wf(),
        ensures
            final(self).wf(),
            final(self).buffer().len() == old(self).buffer().len(),
            old(self)@.len() == 0 ==> r is None && *final(self) == *old(self),
            old(self)@.len() > 0 ==> r is Some && r.unwrap()@ == old(self)@[0] && final(self)@
                == old(self)@.drop_first() && final(self).cursor() == old(self).cursor() + 1,
    {
        if self.offset >= self.args.len() {
            return None;
        }
        let index = self.offset;
        self.offset = self.offset + 1;
        let mut next: Vec<u8> = Vec::new();
        std::mem::swap(&mut self.args[index], &mut next);
        proof {
            assert(self.buffer().skip(self.cursor() as int) =~= old(self)@.drop_first());
        }
        Some(next)
    }

    /// Takes the last token out of the stream.
    pub fn pop_back(&mut self) -> (r: Option<Vec<u8>>)
        requires
            old(self).wf(),
        ensures
            final(self).wf(),
            final(self).cursor() == old(self).cursor(),
            old(self)@.len() == 0 ==> r is None && *final(self) == *old(self),
            old(self)@.len() > 0 ==> r is Some && r.unwrap()@ == old(self)@.last() && final(self)@
                == old(self)@.drop_last(),
    {
        if self.offset >= self.args.len() {
            return None;
        }
        let r = self.args.pop();
        proof {
            assert(self.buffer().skip(self.cursor() as int) =~= old(self)@.drop_last());
        }
        r
    }

    /// Moves past the next token and hands it out.
    pub fn next(&mut self) -> (r: Option<&[u8]>)
        requires
            old(self).wf(),
        ensures
            final(self).wf(),
            final(self).buffer() == old(self).buffer(),
            old(self)@.len() == 0 ==> r is None && *final(self) == *old(self),
            old(self)@.len() > 0 ==> r is Some && r.unwrap()@ == old(self)@[0] && final(self)@
                == old(self)@.drop_first() && final(self).cursor() == old(self).cursor() + 1,
    {
        if self.offset >= self.args.len() {
            return None;
        }
        let index = self.offset;
        self.offset = self.offset + 1;
        proof {
            assert(self.buffer().skip(self.cursor() as int) =~= old(self)@.drop_first());
        }
        Some(self.args[index].as_slice())
    }

    /// Moves past the next token when `predicate` accepts it, handing out what
    /// the predicate made of it.
    pub fn next_if<Out, F: FnOnce(&[u8]) -> Option<Out>>(&mut self, predicate: F) -> (r: Option<Out>)
        requires
            old(self).wf(),
            old(self)@.len() > 0 ==> forall|t: &[u8]| t@ == old(self)@[0] ==> #[trigger] predicate.requires((t,)),
        ensures
            final(self).wf(),
            final(self).buffer() == old(self).buffer(),
            old(self)@.len() == 0 ==> r is None,
            old(self)@.len() > 0 ==> exists|t: &[u8]| t@ == old(self)@[0] && #[trigger] predicate.ensures((t,), r),
            r is None ==> *final(self) == *old(self),
            r is Some ==> final(self)@ == old(self)@.drop_first() && final(self).cursor() == old(self).cursor() + 1,
    {
        if self.offset >= self.args.len() {
            return None;
        }
        let next = self.args[self.offset].as_slice();
        let out = predicate(next);
        if out.is_some() {
            self.offset = self.offset + 1;
            proof {
                assert(self.buffer().skip(self.cursor() as int) =~= old(self)@.drop_first());
            }
        }
        out
    }

    /// What `predicate` makes of the next token, which stays in place.
    pub fn peek_if<Out, F: FnOnce(&[u8]) -> Option<Out>>(&mut self, predicate: F) -> (r: Option<Out>)
        requires
            old(self).wf(),
            old(self)@.len() > 0 ==> forall|t: &[u8]| t@ == old(self)@[0] ==> #[trigger] predicate.requires((t,)),
        ensures
            *final(self) == *old(self),
            old(self)@.len() == 0 ==> r is None,
            old(self)@.len() > 0 ==> exists|t: &[u8]| t@ == old(self)@[0] && #[trigger] predicate.ensures((t,), r),
    {
        match self.peek() {
            Some(next) => predicate(next),
            None => None,
        }
    }

    /// Moves past the next token when it is well-formed UTF-8, handing out its text.
    pub fn next_string(&mut self) -> (r: Option<String>)
        requires
            old(self).wf(),
        ensures
            final(self).wf(),
            final(self).buffer() == old(self).buffer(),
            (old(self)@.len() > 0 && valid_utf8(old(self)@[0])) ==> r is Some && r.unwrap()@ == decode_utf8(
                old(self)@[0],
            ) && final(self)@ == old(self)@.drop_first() && final(self).cursor() == old(self).cursor() + 1,
            !(old(self)@.len() > 0 && valid_utf8(old(self)@[0])) ==> r is None && *final(self) == *old(self),
    {
        if self.offset >= self.args.len() {
            return None;
        }
        let text = utf8_text(self.args[self.offset].as_slice());
        if text.is_some() {
            self.offset = self.offset + 1;
            proof {
                assert(self.buffer().skip(self.cursor() as int) =~= old(self)@.drop_first());
            }
        }
        text
    }

    /// Moves past the next token when it is UTF-8 text that `Out` parses,
    /// handing out the parsed value.
    pub fn next_parse<Out: std::str::FromStr>(&mut self) -> (r: Option<Out>)
        requires
            old(self).wf(),
        ensures
            final(self).wf(),
            final(self).buffer() == old(self).buffer(),
            !(old(self)@.len() > 0 && valid_utf8(old(self)@[0])) ==> r is None,
            r is None ==> *final(self) == *old(self),
            r is Some ==> final(self)@ == old(self)@.drop_first() && final(self).cursor() == old(self).cursor() + 1,
    {
        if self.offset >= self.args.len() {
            return None;
        }
        let parsed: Option<Out> = match utf8_text(self.args[self.offset].as_slice()) {
            Some(text) => parse_text(text.as_str()),
            None => None,
        };
        if parsed.is_some() {
            self.offset = self.offset + 1;
            proof {
                assert(self.buffer().skip(self.cursor() as int) =~= old(self)@.drop_first());
            }
        }
        parsed
    }

    /// Takes the next token out when it is an option.
    pub fn next_option(&mut self) -> (r: Option<Vec<u8>>)
        requires
            old(self).wf(),
        ensures
            final(self).wf(),
            final(self).buffer().len() == old(self).buffer().len(),
            (old(self)@.len() > 0 && spec_is_argument_like(old(self)@[0])) ==> r is Some && r.unwrap()@
                == old(self)@[0] && final(self)@ == old(self)@.drop_first() && final(self).cursor()
                == old(self).cursor() + 1,
            !(old(self)@.len() > 0 && spec_is_argument_like(old(self)@[0])) ==> r is None && *final(self)
                == *old(self),
    {
        let wanted = match self.peek() {
            Some(next) => is_argument_like(next),
            None => false,
        };
        if wanted {
            self.pop_front()
        } else {
            None
        }
    }

    /// Takes out the run of options at the front of the stream.
    pub fn next_options(&mut self) -> (r: Vec<Vec<u8>>)
        requires
            old(self).wf(),
        ensures
            final(self).wf(),
            final(self).buffer().len() == old(self).buffer().len(),
            r@.len() == leading_options(old(self)@),
            r@.len() <= old(self)@.len(),
            token_seqs(r@) == old(self)@.take(r@.len() as int),
            final(self)@ == old(self)@.skip(r@.len() as int),
            final(self).cursor() == old(self).cursor() + r@.len(),
    {
        let mut options: Vec<Vec<u8>> = Vec::new();
        loop
            invariant
                self.wf(),
                self.buffer().len() == old(self).buffer().len(),
                options@.len() <= old(self)@.len(),
                token_seqs(options@) == old(self)@.take(options@.len() as int),
                self@ == old(self)@.skip(options@.len() as int),
                self.cursor() == old(self).cursor() + options@.len(),
                leading_options(old(self)@) == options@.len() + leading_options(self@),
            decreases self@.len(),
        {
            let ghost before = self@;
            let ghost taken = options@;
            match self.next_option() {
                Some(option) => {
                    options.push(option);
                    proof {
                        assert(token_seqs(options@) =~= token_seqs(taken).push(before[0]));
                        assert(token_seqs(options@) =~= old(self)@.take(options@.len() as int));
                        assert(self@ =~= old(self)@.skip(options@.len() as int));
                    }
                },
                None => {
                    return options;
                },
            }
        }
    }

    /// Takes the next token out when it reads as a subcommand.
    pub fn next_subcommand(&mut self) -> (r: Option<Vec<u8>>)
        requires
            old(self).wf(),
        ensures
            final(self).wf(),
            final(self).buffer().len() == old(self).buffer().len(),
            (old(self)@.len() > 0 && spec_is_subcommand_like(old(self)@[0])) ==> r is Some && r.unwrap()@
                == old(self)@[0] && final(self)@ == old(self)@.drop_first() && final(self).cursor()
                == old(self).cursor() + 1,
            !(old(self)@.len() > 0 && spec_is_subcommand_like(old(self)@[0])) ==> r is None && *final(self)
                == *old(self),
    {
        let wanted = match self.peek() {
            Some(next) => is_subcommand_like(next),
            None => false,
        };
        if wanted {
            self.pop_front()
        } else {
            None
        }
    }

    /// Takes the next token out when it reads as a path; the path is handed
    /// out as the token's bytes.
    pub fn next_path(&mut self) -> (r: Option<Vec<u8>>)
        requires
            old(self).wf(),
        ensures
            final(self).wf(),
            final(self).buffer().len() == old(self).buffer().len(),
            (old(self)@.len() > 0 && spec_is_path_like(old(self)@[0])) ==> r is Some && r.unwrap()@
                == old(self)@[0] && final(self)@ == old(self)@.drop_first() && final(self).cursor()
                == old(self).cursor() + 1,
            !(old(self)@.len() > 0 && spec_is_path_like(old(self)@[0])) ==> r is None && *final(self)
                == *old(self),
    {
        let wanted = match self.peek() {
            Some(next) => is_path_like(next),
            None => false,
        };
        if wanted {
            self.pop_front()
        } else {
            None
        }
    }

    /// A copy of the next token when it reads as a path; the stream is left as it is.
    pub fn peek_path(&mut self) -> (r: Option<Vec<u8>>)
        requires
            old(self).wf(),
        ensures
            *final(self) == *old(self),
            (old(self)@.len() > 0 && spec_is_path_like(old(self)@[0])) ==> r is Some && r.unwrap()@
                == old(self)@[0],
            !(old(self)@.len() > 0 && spec_is_path_like(old(self)@[0])) ==> r is None,
    {
        match self.peek() {
            Some(next) => {
                if is_path_like(next) {
                    Some(slice_to_vec(next))
                } else {
                    None
                }
            },
            None => None,
        }
    }

    /// The number of tokens not yet consumed.
    pub fn len(&self) -> (r: usize)
        requires
            self.wf(),
        ensures
            r == self@.len(),
    {
        self.args.len() - self.offset
    }
}

impl View for ArgStream {
    type V = Seq<Seq<u8>>;

    /// The tokens not yet consumed, front first.
    open spec fn view(&self) -> Seq<Seq<u8>> {
        self.buffer().skip(self.cursor() as int)
    }
}

} // verus!
