//! Little-endian bytes, and the packing of short texts into 128 bits.

use vstd::prelude::*;

verus! {

/// `n` in `len` bytes, least significant first; what `len` bytes do not hold
/// is cut off.
pub open spec fn le_bytes(n: nat, len: nat) -> Seq<u8>
    decreases len,
{
    if len == 0 {
        Seq::empty()
    } else {
        seq![(n % 256) as u8] + le_bytes(n / 256, (len - 1) as nat)
    }
}

/// The integer that `s` stands for, least significant byte first.
pub open spec fn le_value(s: Seq<u8>) -> nat
    decreases s.len(),
{
    if s.len() == 0 {
        0
    } else {
        s[0] as nat + 256 * le_value(s.drop_first())
    }
}

/// A 128-bit integer in its 16 bytes.
pub open spec fn u128_bytes(n: nat) -> Seq<u8> {
    le_bytes(n, 16)
}

/// The bytes of `s` that are not zero, in their order.
pub open spec fn nonzero_bytes(s: Seq<u8>) -> Seq<u8> {
    s.filter(|b: u8| b != 0)
}

/// The text packed into `v`: its nonzero bytes where they are UTF-8, nothing
/// where they are not.
pub open spec fn packed_text(v: nat) -> Seq<u8> {
    let s = nonzero_bytes(u128_bytes(v));
    if vstd::utf8::valid_utf8(s) {
        s
    } else {
        Seq::empty()
    }
}

/// The 16 bytes of a 128-bit integer.
pub fn u128_le_bytes(n: u128) -> (r: Vec<u8>)
    ensures
        r@ == u128_bytes(n as nat),
{
    let mut r: Vec<u8> = Vec::new();
    let mut left: u128 = n;
    let mut i: usize = 0;
    while i < 16
        invariant
            i <= 16,
            r@ + le_bytes(left as nat, (16 - i) as nat) == u128_bytes(n as nat),
        decreases 16 - i,
    {
        let ghost before = r@;
        let ghost rest = le_bytes((left / 256) as nat, (15 - i) as nat);
        let byte: u8 = (left % 256) as u8;
        r.push(byte);
        assert(r@ + rest =~= before + (seq![byte] + rest));
        left = left / 256;
        i = i + 1;
    }
    assert(r@ + Seq::<u8>::empty() =~= r@);
    r
}

/// `String::from_utf8`: the text that the bytes encode where they are UTF-8,
/// an error where they are not.
#[verifier::external_body]
fn string_from_utf8(bytes: Vec<u8>) -> (r: Option<String>)
    ensures
        r is Some <==> vstd::utf8::valid_utf8(bytes@),
        r matches Some(s) ==> s@ == vstd::utf8::decode_utf8(bytes@),
{
    String::from_utf8(bytes).ok()
}

/// The text packed into `v`, as token names are: little-endian bytes, zero
/// bytes dropped.
pub fn trim(v: u128) -> (r: String)
    ensures
        vstd::utf8::encode_utf8(r@) == packed_text(v as nat),
{
    let all = u128_le_bytes(v);
    let ghost keep = |b: u8| b != 0;
    let mut kept: Vec<u8> = Vec::new();
    let mut i: usize = 0;
    proof {
        reveal(Seq::filter);
        assert(all@.take(0) =~= Seq::<u8>::empty());
    }
    while i < all.len()
        invariant
            i <= all@.len(),
            kept@ == all@.take(i as int).filter(keep),
            keep == (|b: u8| b != 0),
        decreases all@.len() - i,
    {
        proof {
            reveal(Seq::filter);
            assert(all@.take(i + 1).drop_last() =~= all@.take(i as int));
        }
        if all[i] != 0 {
            kept.push(all[i]);
        }
        i = i + 1;
    }
    assert(all@.take(all@.len() as int) =~= all@);
    proof {
        if vstd::utf8::valid_utf8(kept@) {
            vstd::utf8::decode_utf8_encode_utf8(kept@);
        }
    }
    match string_from_utf8(kept) {
        Some(s) => s,
        None => String::new(),
    }
}

/// The bytes of a text.
pub fn text_bytes(s: &String) -> (r: Vec<u8>)
    ensures
        r@ == vstd::utf8::encode_utf8(s@),
{
    vstd::slice::slice_to_vec(s.as_str().as_bytes())
}

} // verus!
