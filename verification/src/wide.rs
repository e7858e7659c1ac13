//! 256-bit unsigned arithmetic on plain limbs, computed by `ruint`.
//!
//! A value is four 64-bit limbs, least significant first. The operators hand
//! the limbs to `ruint::Uint<256, 4>` and take the limbs of its result back.

use vstd::prelude::*;

verus! {

/// The number of values that 256 bits can take: 2^256.
pub open spec fn modulus() -> nat {
    0x1_0000000000000000_0000000000000000_0000000000000000_0000000000000000nat
}

/// A 256-bit unsigned integer.
#[derive(Clone, Copy, Debug)]
pub struct U256 {
    /// The limbs, least significant first.
    pub limbs: [u64; 4],
}

impl View for U256 {
    type V = nat;

    /// The integer that the limbs stand for.
    open spec fn view(&self) -> nat {
        (self.limbs@[0] + self.limbs@[1] * 0x1_0000000000000000nat + self.limbs@[2]
            * 0x1_0000000000000000_0000000000000000nat + self.limbs@[3]
            * 0x1_0000000000000000_0000000000000000_0000000000000000nat) as nat
    }
}

/// `ruint::Uint::<256, 4>::from` on a `u128`: the same integer, in 256 bits.
#[verifier::external_body]
pub(crate) fn from_u128(value: u128) -> (r: U256)
    ensures
        r@ == value,
{
    U256 { limbs: ruint::Uint::<256, 4>::from(value).into_limbs() }
}

/// `ruint`'s `*` on `Uint<256, 4>`: the product, wrapped at 2^256.
#[verifier::external_body]
pub(crate) fn product(a: U256, b: U256) -> (r: U256)
    ensures
        r@ == (a@ * b@) % modulus(),
{
    let x = ruint::Uint::<256, 4>::from_limbs(a.limbs);
    let y = ruint::Uint::<256, 4>::from_limbs(b.limbs);
    U256 { limbs: (x * y).into_limbs() }
}

/// `ruint`'s `+` on `Uint<256, 4>`: the sum, wrapped at 2^256.
#[verifier::external_body]
pub(crate) fn sum(a: U256, b: U256) -> (r: U256)
    ensures
        r@ == (a@ + b@) % modulus(),
{
    let x = ruint::Uint::<256, 4>::from_limbs(a.limbs);
    let y = ruint::Uint::<256, 4>::from_limbs(b.limbs);
    U256 { limbs: (x + y).into_limbs() }
}

/// `ruint`'s `-` on `Uint<256, 4>`: the difference, wrapped at 2^256.
#[verifier::external_body]
pub(crate) fn difference(a: U256, b: U256) -> (r: U256)
    ensures
        r@ == (a@ - b@) % (modulus() as int),
{
    let x = ruint::Uint::<256, 4>::from_limbs(a.limbs);
    let y = ruint::Uint::<256, 4>::from_limbs(b.limbs);
    U256 { limbs: (x - y).into_limbs() }
}

/// `ruint`'s `/` on `Uint<256, 4>`: the quotient, rounded down. It panics on a
/// zero divisor, which `requires` rules out.
#[verifier::external_body]
pub(crate) fn quotient(a: U256, b: U256) -> (r: U256)
    requires
        b@ != 0,
    ensures
        r@ == a@ / b@,
{
    let x = ruint::Uint::<256, 4>::from_limbs(a.limbs);
    let y = ruint::Uint::<256, 4>::from_limbs(b.limbs);
    U256 { limbs: (x / y).into_limbs() }
}

/// `u128::try_from` on a `ruint::Uint<256, 4>`: the same integer where 128
/// bits hold it, an error where they do not.
#[verifier::external_body]
pub(crate) fn to_u128(value: U256) -> (r: Option<u128>)
    ensures
        r == (if value@ <= u128::MAX {
            Some(value@ as u128)
        } else {
            None
        }),
{
    u128::try_from(ruint::Uint::<256, 4>::from_limbs(value.limbs)).ok()
}

/// Two 128-bit factors have a product that 256 bits hold, with room for a
/// 128-bit addend.
pub proof fn lemma_product_fits(a: u128, b: u128)
    ensures
        a * b + u128::MAX < modulus(),
{
    assert(a * b <= u128::MAX * u128::MAX) by (nonlinear_arith)
        requires
            a <= u128::MAX,
            b <= u128::MAX,
    ;
}

} // verus!
