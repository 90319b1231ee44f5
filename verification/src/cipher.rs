//! The byte cipher that obscures script files.
//!
//! A buffer of length `n` designates `n / 2` as the key index; the byte
//! stored there is the key. Decoding subtracts the key (wrapping) from every
//! byte except the key byte itself; encoding adds it back. Because the key
//! index is derived from the length of the buffer being transformed, the two
//! transforms are inverses only on buffers of equal length: editing the
//! decoded text to a different byte length shifts the key index and silently
//! breaks the round trip.

use vstd::prelude::*;

verus! {

/// Position of the key byte in a buffer of length `n`.
pub open spec fn key_index(n: nat) -> int {
    n as int / 2
}

/// Byte subtraction modulo 256, as `u8::wrapping_sub` computes it.
pub open spec fn byte_sub(a: u8, k: u8) -> u8 {
    if a - k < 0 {
        (a - k + 256) as u8
    } else {
        (a - k) as u8
    }
}

/// Byte addition modulo 256, as `u8::wrapping_add` computes it.
pub open spec fn byte_add(a: u8, k: u8) -> u8 {
    if a + k > 255 {
        (a + k - 256) as u8
    } else {
        (a + k) as u8
    }
}

/// Decoded form of a script buffer: every byte but the key byte has the key
/// subtracted from it.
pub open spec fn cipher_decode(b: Seq<u8>) -> Seq<u8>
    recommends
        b.len() > 0,
{
    let k = key_index(b.len());
    Seq::new(b.len(), |i: int| if i == k { b[i] } else { byte_sub(b[i], b[k]) })
}

/// Encoded form of a plain-text buffer: every byte but the key byte has the
/// key added to it.
pub open spec fn cipher_encode(b: Seq<u8>) -> Seq<u8>
    recommends
        b.len() > 0,
{
    let k = key_index(b.len());
    Seq::new(b.len(), |i: int| if i == k { b[i] } else { byte_add(b[i], b[k]) })
}

/// Decodes raw script bytes to plain text bytes.
pub fn tsc_decode(b: Vec<u8>) -> (r: Vec<u8>)
    requires
        b.len() > 0,
    ensures
        r@ == cipher_decode(b@),
{
    let n = b.len();
    let k = n / 2;
    let key = b[k];
    let mut out: Vec<u8> = Vec::new();
    let mut i: usize = 0;
    while i < n
        invariant
            n == b.len(),
            k == key_index(b@.len()),
            key == b@[k as int],
            i <= n,
            out@.len() == i,
            forall|j: int| 0 <= j < i ==> out@[j] == cipher_decode(b@)[j],
        decreases n - i,
    {
        if i == k {
            out.push(b[i]);
        } else {
            out.push(b[i].wrapping_sub(key));
        }
        i = i + 1;
    }
    assert(out@ =~= cipher_decode(b@));
    out
}

/// Encodes plain text bytes back to raw script bytes.
pub fn tsc_encode(b: Vec<u8>) -> (r: Vec<u8>)
    requires
        b.len() > 0,
    ensures
        r@ == cipher_encode(b@),
{
    let n = b.len();
    let k = n / 2;
    let key = b[k];
    let mut out: Vec<u8> = Vec::new();
    let mut i: usize = 0;
    while i < n
        invariant
            n == b.len(),
            k == key_index(b@.len()),
            key == b@[k as int],
            i <= n,
            out@.len() == i,
            forall|j: int| 0 <= j < i ==> out@[j] == cipher_encode(b@)[j],
        decreases n - i,
    {
        if i == k {
            out.push(b[i]);
        } else {
            out.push(b[i].wrapping_add(key));
        }
        i = i + 1;
    }
    assert(out@ =~= cipher_encode(b@));
    out
}

/// The cipher round trip: on any non-empty buffer, encoding undoes decoding
/// and decoding undoes encoding. Both transforms keep the length, so the key
/// index — and, since the key byte itself is never transformed, the key — is
/// the same in both directions.
pub proof fn lemma_cipher_round_trip(b: Seq<u8>)
    requires
        b.len() > 0,
    ensures
        cipher_encode(cipher_decode(b)) == b,
        cipher_decode(cipher_encode(b)) == b,
{
    let k = key_index(b.len());
    let d = cipher_decode(b);
    assert(d[k] == b[k]);
    assert forall|i: int| 0 <= i < b.len() implies cipher_encode(d)[i] == b[i] by {
        if i != k {
            assert(byte_add(byte_sub(b[i], b[k]), b[k]) == b[i]);
        }
    }
    assert(cipher_encode(cipher_decode(b)) =~= b);
    let e = cipher_encode(b);
    assert(e[k] == b[k]);
    assert forall|i: int| 0 <= i < b.len() implies cipher_decode(e)[i] == b[i] by {
        if i != k {
            assert(byte_sub(byte_add(b[i], b[k]), b[k]) == b[i]);
        }
    }
    assert(cipher_decode(cipher_encode(b)) =~= b);
}

} // verus!
