//! Fingerprints of configurations and files.

use vstd::prelude::*;

use sha2::Digest;

verus! {

/// The SHA-256 digest of bytes.
pub uninterp spec fn sha256_of(bytes: Seq<u8>) -> Seq<u8>;

/// `sha2::Sha256::digest`: the digest of the bytes, which is 32 bytes long.
#[verifier::external_body]
fn sha256(bytes: &Vec<u8>) -> (r: Vec<u8>)
    ensures
        r@ == sha256_of(bytes@),
        r@.len() == 32,
{
    sha2::Sha256::digest(bytes).to_vec()
}

/// A lower-case hexadecimal digit.
pub open spec fn hex_digit(d: u8) -> char {
    if d < 10 {
        (48 + d) as char
    } else {
        (87 + d) as char
    }
}

fn to_hex_digit(d: u8) -> (r: char)
    requires
        d < 16,
    ensures
        r == hex_digit(d),
{
    if d < 10 {
        (48 + d) as char
    } else {
        (87 + d) as char
    }
}

/// Bytes as hexadecimal digits.
pub open spec fn hex_of(bytes: Seq<u8>) -> Seq<char>
    decreases bytes.len(),
{
    if bytes.len() == 0 {
        Seq::empty()
    } else {
        hex_of(bytes.drop_last()).push(hex_digit(bytes.last() / 16)).push(
            hex_digit(bytes.last() % 16),
        )
    }
}

/// Bytes as hexadecimal digits.
pub fn to_hex(bytes: &Vec<u8>) -> (r: String)
    ensures
        r@ == hex_of(bytes@),
{
    let mut out: String = String::new();
    let mut i: usize = 0;
    assert(bytes@.take(0) == Seq::<u8>::empty());
    assert(out@ == Seq::<char>::empty());
    while i < bytes.len()
        invariant
            i <= bytes@.len(),
            out@ == hex_of(bytes@.take(i as int)),
        decreases bytes.len() - i,
    {
        let b: u8 = bytes[i];
        out.push(to_hex_digit(b / 16));
        out.push(to_hex_digit(b % 16));
        proof {
            let t = bytes@.take(i + 1);
            assert(t.drop_last() == bytes@.take(i as int));
            assert(t.last() == b);
        }
        i = i + 1;
    }
    assert(bytes@.take(i as int) == bytes@);
    out
}

/// The fingerprint of a file.
pub open spec fn file_fingerprint(bytes: Seq<u8>) -> Seq<char> {
    hex_of(sha256_of(bytes))
}

/// The fingerprint of a file.
pub fn fingerprint_bytes(bytes: &Vec<u8>) -> (r: String)
    ensures
        r@ == file_fingerprint(bytes@),
{
    to_hex(&sha256(bytes))
}

/// The fingerprint of an encoded configuration.
pub open spec fn configuration_fingerprint(encoded: Seq<u8>) -> Seq<char> {
    "sha256:"@ + file_fingerprint(encoded)
}

/// The fingerprint of an encoded configuration.
pub fn fingerprint_configuration(encoded: &Vec<u8>) -> (r: String)
    ensures
        r@ == configuration_fingerprint(encoded@),
{
    let mut r: String = "sha256:".to_owned();
    r.append(fingerprint_bytes(encoded).as_str());
    r
}

/// Different bytes have different hexadecimal digits.
pub proof fn hexadecimal_is_injective(a: Seq<u8>, b: Seq<u8>)
    requires
        hex_of(a) == hex_of(b),
    ensures
        a == b,
    decreases a.len(),
{
    lemma_hex_length(a);
    lemma_hex_length(b);
    if a.len() > 0 {
        let x = hex_of(a.drop_last());
        let y = hex_of(b.drop_last());
        let p = x.push(hex_digit(a.last() / 16)).push(hex_digit(a.last() % 16));
        let q = y.push(hex_digit(b.last() / 16)).push(hex_digit(b.last() % 16));
        assert(p == q);
        lemma_hex_length(a.drop_last());
        lemma_hex_length(b.drop_last());
        assert(p.drop_last().drop_last() == x);
        assert(q.drop_last().drop_last() == y);
        assert(p.last() == hex_digit(a.last() % 16));
        assert(q.last() == hex_digit(b.last() % 16));
        assert(p[p.len() - 2] == hex_digit(a.last() / 16));
        assert(q[q.len() - 2] == hex_digit(b.last() / 16));
        hexadecimal_is_injective(a.drop_last(), b.drop_last());
        assert(a == a.drop_last().push(a.last()));
        assert(b == b.drop_last().push(b.last()));
    } else {
        assert(a == b);
    }
}

proof fn lemma_hex_length(a: Seq<u8>)
    ensures
        hex_of(a).len() == 2 * a.len(),
    decreases a.len(),
{
    if a.len() > 0 {
        lemma_hex_length(a.drop_last());
    }
}

} // verus!
