use vstd::prelude::*;

verus! {

/// A 128-bit content digest, used only to tell whether two byte sequences
/// are the same.
#[derive(Debug, Clone, Copy, PartialEq, Eq, Structural, Hash)]
pub struct Digest {
    pub value: u128,
}

/// The MD5 digest of a byte sequence, read as a big-endian integer.
pub uninterp spec fn md5_of(bytes: Seq<u8>) -> u128;

/// The lowercase hexadecimal digit for `n < 16`.
pub open spec fn hex_digit(n: nat) -> char {
    seq!['0', '1', '2', '3', '4', '5', '6', '7', '8', '9', 'a', 'b', 'c', 'd', 'e', 'f'][n as int]
}

/// The last `digits` hexadecimal digits of `v`, most significant first.
pub open spec fn hex_text(v: nat, digits: nat) -> Seq<char>
    decreases digits,
{
    if digits == 0 {
        seq![]
    } else {
        hex_text(v / 16, (digits - 1) as nat).push(hex_digit(v % 16))
    }
}

impl Digest {
    /// The text a digest is shown as: 32 lowercase hexadecimal digits.
    pub open spec fn text(self) -> Seq<char> {
        hex_text(self.value as nat, 32)
    }
}

/// Relies on md5::compute: the MD5 digest of the bytes, whose sixteen bytes
/// are read here as one big-endian integer.
#[verifier::external_body]
pub(crate) fn compute_digest(bytes: &Vec<u8>) -> (d: Digest)
    ensures
        d.value == md5_of(bytes@),
{
    Digest { value: u128::from_be_bytes(md5::compute(bytes).0) }
}

/// Relies on md5::Digest's Debug format, which writes each of the sixteen
/// bytes in order as two lowercase hexadecimal digits.
#[verifier::external_body]
pub(crate) fn digest_text(d: Digest) -> (r: String)
    ensures
        r@ == d.text(),
{
    format!("{:?}", md5::Digest(d.value.to_be_bytes()))
}

} // verus!
