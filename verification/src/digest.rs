//! MD5 checksums of byte contents, written as lowercase hexadecimal.
use vstd::prelude::*;
use md5::{Digest, Md5};
use crate::text::push_char;

verus! {

/// The MD5 digest (RFC 1321) of `data`, as computed by the `md-5` crate.
pub uninterp spec fn md5_digest(data: Seq<u8>) -> Seq<u8>;

/// `md5::Md5::new`, `update` with `data`, then `finalize`: the digest of
/// `data`. Claimed: the result is the digest of exactly these bytes, and it is
/// 16 bytes long (the crate's `OutputSize` for MD5 is `U16`).
#[verifier::external_body]
fn md5_of(data: &[u8]) -> (out: Vec<u8>)
    ensures
        out@ == md5_digest(data@),
        out@.len() == 16,
{
    let mut hasher = Md5::new();
    hasher.update(data);
    hasher.finalize().to_vec()
}

/// The lowercase hexadecimal digit of `d` (`d < 16`).
pub open spec fn hex_digit(d: nat) -> char {
    if d < 10 {
        ((48 + d) as u8) as char
    } else {
        ((87 + d) as u8) as char
    }
}

/// Each byte as two lowercase hexadecimal digits, high nibble first.
pub open spec fn hex_lower(bytes: Seq<u8>) -> Seq<char>
    decreases bytes.len(),
{
    if bytes.len() == 0 {
        Seq::empty()
    } else {
        let last = bytes.last() as nat;
        hex_lower(bytes.drop_last()).push(hex_digit(last / 16)).push(hex_digit(last % 16))
    }
}

fn hex_char(d: u8) -> (c: char)
    requires
        d < 16,
    ensures
        c == hex_digit(d as nat),
{
    if d < 10 {
        (48u8 + d) as char
    } else {
        (87u8 + d) as char
    }
}

/// Writes `bytes` as lowercase hexadecimal, two digits per byte.
pub fn to_hex_lower(bytes: &[u8]) -> (s: String)
    ensures
        s@ == hex_lower(bytes@),
        s@.len() == 2 * bytes@.len(),
{
    let mut s = String::new();
    let mut i: usize = 0;
    while i < bytes.len()
        invariant
            i <= bytes@.len(),
            s@ == hex_lower(bytes@.take(i as int)),
            s@.len() == 2 * i,
        decreases bytes@.len() - i,
    {
        let b = bytes[i];
        push_char(&mut s, hex_char(b / 16));
        push_char(&mut s, hex_char(b % 16));
        proof {
            let t = bytes@.take(i as int + 1);
            assert(t.drop_last() =~= bytes@.take(i as int));
            assert(t.last() == b);
        }
        i = i + 1;
    }
    assert(bytes@.take(bytes@.len() as int) =~= bytes@);
    s
}

/// The MD5 checksum of `data`, as 32 lowercase hexadecimal digits.
pub fn md5_hex(data: &[u8]) -> (s: String)
    ensures
        s@ == hex_lower(md5_digest(data@)),
        s@.len() == 32,
{
    let digest = md5_of(data);
    to_hex_lower(digest.as_slice())
}

} // verus!
