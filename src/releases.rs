use vstd::prelude::*;
use crate::hashing::push_char;

verus! {

/// The Unix time of the Rust 1.0.0 release, rounded to noon UTC:
/// 2015-05-15T12:00:00Z.
pub const RUST_EPOCH_SECONDS: u64 = 1_431_691_200;

/// The time between two Rust releases: 42 days, or 6 weeks.
pub const RUST_RELEASE_INTERVAL_SECONDS: u64 = 3_628_800;

/// The minor version of the latest Rust release at `timestamp`: `59` shortly
/// after 1.59.0. Times before 1.0.0 give `0`; earlier releases are not
/// supported.
pub fn last_release_at(timestamp: u64) -> (r: u64)
    ensures
        timestamp < RUST_EPOCH_SECONDS ==> r == 0,
        timestamp >= RUST_EPOCH_SECONDS ==> r == (timestamp - RUST_EPOCH_SECONDS) / (
        RUST_RELEASE_INTERVAL_SECONDS as int),
{
    if timestamp < RUST_EPOCH_SECONDS {
        return 0;
    }
    (timestamp - RUST_EPOCH_SECONDS) / RUST_RELEASE_INTERVAL_SECONDS
}

/// A toolchain release.
#[derive(Debug, Clone)]
pub struct Release {
    pub date: Date,
    pub channel: Channel,
}

/// A release channel.
#[derive(Debug, Clone)]
pub enum Channel {
    Stable(Version),
    Beta,
    Nightly,
}

/// A stable version number.
#[derive(Debug, Clone)]
pub struct Version {
    pub major: u64,
    pub minor: u64,
    pub patch: u64,
}

/// A calendar date.
#[derive(Debug, Clone)]
pub struct Date {
    pub year: u8,
    pub month: u8,
    pub day: u8,
}

/// The releases known without going online.
#[derive(Debug, Clone)]
pub struct ReleaseIndex {
    entries: Vec<Release>,
}

/// Why a line of the release listing was refused.
#[derive(Clone, Copy, Debug, PartialEq, Eq, Structural)]
pub enum ListingError {
    /// A distribution path that does not name a `.toml` manifest.
    NotToml,
    /// A manifest path with no `<date>/` directory.
    NoDate,
    /// A manifest that is not a `channel-rust-*` one.
    NotChannel,
}

pub open spec fn dist_prefix() -> Seq<char> {
    "static.rust-lang.org/dist/"@
}

pub open spec fn toml_suffix() -> Seq<char> {
    ".toml"@
}

pub open spec fn channel_prefix() -> Seq<char> {
    "channel-rust-"@
}

/// Whether `s` holds `lit` at position `at`.
pub open spec fn holds_at(s: Seq<char>, at: int, lit: Seq<char>) -> bool {
    0 <= at && at + lit.len() <= s.len() && s.subrange(at, at + lit.len()) == lit
}

/// The position of the first `/` in `s`, if any.
pub open spec fn first_slash(s: Seq<char>) -> Option<int>
    decreases s.len(),
{
    if s.len() == 0 {
        None
    } else if s.last() == '/' {
        match first_slash(s.drop_last()) {
            Some(k) => Some(k),
            None => Some(s.len() - 1),
        }
    } else {
        first_slash(s.drop_last())
    }
}

/// What one line of the release listing says: nothing for a line outside
/// `static.rust-lang.org/dist/`, else the release `<name>-<date>` of a
/// `<date>/channel-rust-<name>.toml` manifest, or why the line is refused.
pub open spec fn release_line(line: Seq<char>) -> Result<Option<Seq<char>>, ListingError> {
    if !holds_at(line, 0, dist_prefix()) {
        Ok(None)
    } else {
        let rest = line.skip(dist_prefix().len() as int);
        if !holds_at(rest, rest.len() - toml_suffix().len(), toml_suffix()) {
            Err(ListingError::NotToml)
        } else {
            let body = rest.take(rest.len() - toml_suffix().len());
            match first_slash(body) {
                None => Err(ListingError::NoDate),
                Some(k) => {
                    let name = body.skip(k + 1);
                    if holds_at(name, 0, channel_prefix()) {
                        Ok(Some(name.skip(channel_prefix().len() as int) + seq!['-'] + body.take(k)))
                    } else {
                        Err(ListingError::NotChannel)
                    }
                },
            }
        }
    }
}

fn chars_of(s: &str) -> (r: Vec<char>)
    ensures
        r@ == s@,
{
    let n = s.unicode_len();
    let mut r: Vec<char> = Vec::new();
    let mut i: usize = 0;
    while i < n
        invariant
            n == s@.len(),
            i <= n,
            r@ == s@.take(i as int),
        decreases n - i,
    {
        r.push(s.get_char(i));
        assert(r@ =~= s@.take(i + 1));
        i += 1;
    }
    assert(s@.take(n as int) =~= s@);
    r
}

fn holds_at_exec(s: &Vec<char>, at: usize, lit: &Vec<char>) -> (r: bool)
    ensures
        r == holds_at(s@, at as int, lit@),
{
    if lit.len() > s.len() || at > s.len() - lit.len() {
        return false;
    }
    let mut j: usize = 0;
    while j < lit.len()
        invariant
            j <= lit@.len(),
            at + lit@.len() <= s.len(),
            forall|k: int| 0 <= k < j ==> s@[at + k] == lit@[k],
        decreases lit@.len() - j,
    {
        if s[at + j] != lit[j] {
            assert(s@.subrange(at as int, at + lit@.len())[j as int] != lit@[j as int]);
            return false;
        }
        j += 1;
    }
    assert(s@.subrange(at as int, at + lit@.len()) =~= lit@);
    true
}

fn first_slash_exec(s: &Vec<char>, from: usize, end: usize) -> (r: Option<usize>)
    requires
        from <= end <= s@.len(),
    ensures
        match first_slash(s@.subrange(from as int, end as int)) {
            Some(k) => r == Some((from + k) as usize),
            None => r is None,
        },
{
    let mut i: usize = from;
    assert(s@.subrange(from as int, from as int) =~= Seq::<char>::empty());
    while i < end
        invariant
            from <= i <= end <= s@.len(),
            first_slash(s@.subrange(from as int, i as int)) is None,
        decreases end - i,
    {
        proof {
            assert(s@.subrange(from as int, i + 1).drop_last() =~= s@.subrange(from as int, i as int));
        }
        if s[i] == '/' {
            proof {
                let whole = s@.subrange(from as int, end as int);
                assert(whole.take(i + 1 - from) =~= s@.subrange(from as int, i + 1));
                assert(first_slash(whole.take(i + 1 - from)) == Some(i - from));
                lemma_first_slash_extends(whole, i - from);
            }
            return Some(i);
        }
        i += 1;
    }
    None
}

/// A `/` found is within the text.
proof fn lemma_first_slash_in_bounds(s: Seq<char>)
    ensures
        first_slash(s) matches Some(k) ==> 0 <= k < s.len(),
    decreases s.len(),
{
    if s.len() > 0 {
        lemma_first_slash_in_bounds(s.drop_last());
    }
}

/// Once a prefix of `s` holds a `/`, longer prefixes find the same one.
proof fn lemma_first_slash_extends(s: Seq<char>, k: int)
    requires
        0 <= k < s.len(),
        first_slash(s.take(k + 1)) == Some(k),
    ensures
        first_slash(s) == Some(k),
    decreases s.len(),
{
    if s.len() > k + 1 {
        assert(s.drop_last().take(k + 1) =~= s.take(k + 1));
        lemma_first_slash_extends(s.drop_last(), k);
    } else {
        assert(s.take(k + 1) =~= s);
    }
}

fn text_of(s: &Vec<char>, from: usize, to: usize) -> (r: String)
    requires
        from <= to <= s@.len(),
    ensures
        r@ == s@.subrange(from as int, to as int),
{
    let mut r = String::new();
    let mut i: usize = from;
    while i < to
        invariant
            from <= i <= to <= s@.len(),
            r@ == s@.subrange(from as int, i as int),
        decreases to - i,
    {
        push_char(&mut r, s[i]);
        assert(r@ =~= s@.subrange(from as int, i + 1));
        i += 1;
    }
    r
}

/// Reads one line of the release listing: `None` for a line outside the
/// distribution tree, else the release `<name>-<date>` that a
/// `static.rust-lang.org/dist/<date>/channel-rust-<name>.toml` line names.
pub fn release_identifier(line: &str) -> (r: Result<Option<String>, ListingError>)
    ensures
        match release_line(line@) {
            Ok(None) => r == Ok::<Option<String>, ListingError>(None),
            Ok(Some(id)) => r is Ok && r->Ok_0 is Some && r->Ok_0->Some_0@ == id,
            Err(e) => r == Err::<Option<String>, ListingError>(e),
        },
{
    let s = chars_of(line);
    let dist = chars_of("static.rust-lang.org/dist/");
    let toml = chars_of(".toml");
    let channel = chars_of("channel-rust-");
    if !holds_at_exec(&s, 0, &dist) {
        return Ok(None);
    }
    let start = dist.len();
    let ghost rest = s@.skip(start as int);
    let rest_len = s.len() - start;
    if toml.len() > rest_len || !holds_at_exec(&s, s.len() - toml.len(), &toml) {
        proof {
            if toml@.len() <= rest_len {
                assert(rest.subrange(rest.len() - toml@.len(), rest.len() as int) =~= s@.subrange(
                    s@.len() - toml@.len(),
                    s@.len() as int,
                ));
            }
        }
        return Err(ListingError::NotToml);
    }
    proof {
        assert(rest.subrange(rest.len() - toml@.len(), rest.len() as int) =~= s@.subrange(
            s@.len() - toml@.len(),
            s@.len() as int,
        ));
    }
    let end = s.len() - toml.len();
    let ghost body = rest.take(rest.len() - toml@.len());
    assert(body =~= s@.subrange(start as int, end as int));
    let k = match first_slash_exec(&s, start, end) {
        Some(k) => k,
        None => {
            return Err(ListingError::NoDate);
        },
    };
    proof {
        lemma_first_slash_in_bounds(body);
    }
    let name_start = k + 1;
    let ghost name = body.skip(k + 1 - start);
    assert(name =~= s@.subrange(name_start as int, end as int));
    if channel.len() > end - name_start || !holds_at_exec(&s, name_start, &channel) {
        proof {
            if channel@.len() <= end - name_start {
                assert(name.subrange(0, channel@.len() as int) =~= s@.subrange(
                    name_start as int,
                    name_start + channel@.len(),
                ));
            }
        }
        return Err(ListingError::NotChannel);
    }
    proof {
        assert(name.subrange(0, channel@.len() as int) =~= s@.subrange(
            name_start as int,
            name_start + channel@.len(),
        ));
    }
    let release = text_of(&s, name_start + channel.len(), end);
    let date = text_of(&s, start, k);
    let mut id = release;
    push_char(&mut id, '-');
    id.append(date.as_str());
    proof {
        assert(id@ =~= name.skip(channel_prefix().len() as int) + seq!['-'] + body.take(k - start));
    }
    Ok(Some(id))
}

} // verus!
