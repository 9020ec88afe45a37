use vstd::prelude::*;

verus! {

/// The SHA-256 digest (32 bytes) of a byte string. The value is not
/// stated here: it is whatever the hash primitive computes, a function
/// of the input bytes alone.
pub uninterp spec fn sha256_of(b: Seq<u8>) -> Seq<u8>;

/// Relies on sha2's `Sha256`: the one-shot digest of the whole byte
/// string depends on the input bytes alone, and SHA-256 output is
/// 32 bytes.
#[verifier::external_body]
fn sha256_bytes(bytes: &Vec<u8>) -> (r: Vec<u8>)
    ensures
        r@ == sha256_of(bytes@),
        r@.len() == 32,
{
    <sha2::Sha256 as sha2::Digest>::digest(bytes.as_slice()).to_vec()
}

/// ASCII code of the lower-case hex digit for `n`, for `n < 16`:
/// `0`–`9` then `a`–`f`.
pub open spec fn hex_digit(n: u8) -> u8 {
    if n < 10 {
        (48 + n) as u8
    } else {
        (87 + n) as u8
    }
}

/// Lower-case hex encoding of a byte string: two digits per byte, high
/// nibble first.
pub open spec fn hex_of(b: Seq<u8>) -> Seq<u8> {
    Seq::new(
        2 * b.len(),
        |i: int|
            if i % 2 == 0 {
                hex_digit(b[i / 2] / 16)
            } else {
                hex_digit(b[i / 2] % 16)
            },
    )
}

/// The bytes of the algorithm tag `"sha256:"`.
pub open spec fn sha_prefix() -> Seq<u8> {
    seq![115u8, 104u8, 97u8, 50u8, 53u8, 54u8, 58u8]
}

/// The algorithm-tagged content-digest label of a byte string:
/// `"sha256:"` followed by the lower-case hex of its SHA-256 digest.
pub open spec fn digest_label(b: Seq<u8>) -> Seq<u8> {
    sha_prefix() + hex_of(sha256_of(b))
}

/// ASCII code of the lower-case hex digit for `n`.
fn hex_char(n: u8) -> (r: u8)
    requires
        n < 16,
    ensures
        r == hex_digit(n),
{
    if n < 10 {
        48 + n
    } else {
        87 + n
    }
}

/// Compute the content-digest label of `bytes`, the new identity of a
/// compiled artifact.
pub fn digest_of(bytes: &Vec<u8>) -> (r: Vec<u8>)
    ensures
        r@ == digest_label(bytes@),
{
    let h = sha256_bytes(bytes);
    let mut out: Vec<u8> = Vec::new();
    out.push(115);
    out.push(104);
    out.push(97);
    out.push(50);
    out.push(53);
    out.push(54);
    out.push(58);
    proof {
        assert(out@ =~= sha_prefix());
    }
    let n = h.len();
    let mut k: usize = 0;
    while k < n
        invariant
            h@ == sha256_of(bytes@),
            n == h@.len(),
            n == 32,
            k <= n,
            out@ == sha_prefix() + hex_of(h@).subrange(0, 2 * k as int),
        decreases n - k,
    {
        let byte = h[k];
        out.push(hex_char(byte / 16));
        out.push(hex_char(byte % 16));
        proof {
            assert(hex_of(h@)[2 * k as int] == hex_digit(h@[k as int] / 16));
            assert(hex_of(h@)[2 * k as int + 1] == hex_digit(h@[k as int] % 16));
            assert(out@ =~= sha_prefix() + hex_of(h@).subrange(0, 2 * (k + 1) as int));
        }
        k += 1;
    }
    proof {
        assert(hex_of(h@).subrange(0, 64int) =~= hex_of(h@));
        assert(out@ =~= digest_label(bytes@));
    }
    out
}

} // verus!
