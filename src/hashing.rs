use vstd::prelude::*;
use vstd::slice::slice_to_vec;

verus! {

/// The SHA-1 digest of a message.
pub uninterp spec fn sha1_of(message: Seq<u8>) -> Seq<u8>;

/// Relies on sha1's `Sha1::digest` (the digest crate's `Digest` trait): the
/// SHA-1 digest of the message, whose output size is 20 bytes.
#[verifier::external_body]
fn sha1_digest(message: &[u8]) -> (r: Vec<u8>)
    ensures
        r@ == sha1_of(message@),
        r@.len() == 20,
{
    <sha1::Sha1 as sha1::Digest>::digest(message).to_vec()
}

/// Relies on `String::push`: the character is appended at the end.
#[verifier::external_body]
pub(crate) fn push_char(s: &mut String, c: char)
    ensures
        final(s)@ == old(s)@.push(c),
{
    s.push(c)
}

/// The ASCII decimal digits of `n`, most significant first, with no leading zero.
pub open spec fn decimal(n: nat) -> Seq<u8>
    decreases n,
{
    if n < 10 {
        seq![(48 + n) as u8]
    } else {
        decimal(n / 10).push((48 + n % 10) as u8)
    }
}

/// The header that git puts before a blob's content: `blob <length>\0`.
pub open spec fn blob_header(len: nat) -> Seq<u8> {
    seq![98u8, 108u8, 111u8, 98u8, 32u8] + decimal(len) + seq![0u8]
}

/// The message whose digest is a blob's identity: its header, then its content.
pub open spec fn blob_message(content: Seq<u8>) -> Seq<u8> {
    blob_header(content.len()) + content
}

/// The lowercase hexadecimal digits.
pub open spec fn hex_digits() -> Seq<char> {
    seq!['0', '1', '2', '3', '4', '5', '6', '7', '8', '9', 'a', 'b', 'c', 'd', 'e', 'f']
}

/// Bytes as lowercase hexadecimal, two digits each, high nibble first.
pub open spec fn hex_lower(bytes: Seq<u8>) -> Seq<char>
    decreases bytes.len(),
{
    if bytes.len() == 0 {
        Seq::empty()
    } else {
        let b = bytes.last();
        hex_lower(bytes.drop_last()) + seq![hex_digits()[(b / 16) as int], hex_digits()[(b % 16) as int]]
    }
}

/// The git blob id of the content, as 40 lowercase hex digits.
pub open spec fn blob_hash_hex(content: Seq<u8>) -> Seq<char> {
    hex_lower(sha1_of(blob_message(content)))
}

pub proof fn lemma_hex_lower_len(bytes: Seq<u8>)
    ensures
        hex_lower(bytes).len() == 2 * bytes.len(),
    decreases bytes.len(),
{
    if bytes.len() > 0 {
        lemma_hex_lower_len(bytes.drop_last());
    }
}

/// Appends the decimal digits of `n`.
fn push_decimal(n: usize, out: &mut Vec<u8>)
    ensures
        final(out)@ == old(out)@ + decimal(n as nat),
    decreases n,
{
    if n >= 10 {
        push_decimal(n / 10, out);
    }
    out.push((48 + n % 10) as u8);
    assert(final(out)@ =~= old(out)@ + decimal(n as nat));
}

fn hex_digit(d: u8) -> (c: char)
    requires
        d < 16,
    ensures
        c == hex_digits()[d as int],
{
    let digits: [char; 16] = ['0', '1', '2', '3', '4', '5', '6', '7', '8', '9', 'a', 'b', 'c', 'd', 'e', 'f'];
    assert(digits@ =~= hex_digits());
    digits[d as usize]
}

/// The bytes git hashes for a blob: `blob <length>\0`, then the content.
pub fn blob_message_bytes(content: &[u8]) -> (r: Vec<u8>)
    ensures
        r@ == blob_message(content@),
{
    let mut message: Vec<u8> = vec![98u8, 108u8, 111u8, 98u8, 32u8];
    push_decimal(content.len(), &mut message);
    message.push(0u8);
    let mut body = slice_to_vec(content);
    message.append(&mut body);
    assert(message@ =~= blob_message(content@));
    message
}

/// The bytes in lowercase hexadecimal, two digits each.
pub fn hex_encode(bytes: &[u8]) -> (r: String)
    ensures
        r@ == hex_lower(bytes@),
        r@.len() == 2 * bytes@.len(),
{
    let mut hex = String::new();
    let mut i: usize = 0;
    while i < bytes.len()
        invariant
            i <= bytes@.len(),
            hex@ == hex_lower(bytes@.take(i as int)),
        decreases bytes@.len() - i,
    {
        let b = bytes[i];
        push_char(&mut hex, hex_digit(b / 16));
        push_char(&mut hex, hex_digit(b % 16));
        proof {
            assert(bytes@.take(i + 1).drop_last() =~= bytes@.take(i as int));
            assert(hex@ =~= hex_lower(bytes@.take(i + 1)));
        }
        i += 1;
    }
    proof {
        assert(bytes@.take(i as int) =~= bytes@);
        lemma_hex_lower_len(bytes@);
    }
    hex
}

/// The id git gives the content as a blob: the SHA-1 digest of
/// `blob <length>\0` followed by the content, in lowercase hex.
pub fn git_blob_sha1_hex(content: &[u8]) -> (r: String)
    ensures
        r@ == blob_hash_hex(content@),
        r@.len() == 40,
{
    let message = blob_message_bytes(content);
    let digest = sha1_digest(message.as_slice());
    hex_encode(digest.as_slice())
}

} // verus!
