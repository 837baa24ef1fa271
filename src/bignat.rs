//! Arbitrary-precision natural numbers held as little-endian bytes.
//!
//! The arithmetic itself is done by `ibig`: each operation below turns its
//! operands into `ibig::UBig`, makes one call, and turns the result back.
use ibig::UBig;
use vstd::arithmetic::power::pow;
use vstd::prelude::*;

verus! {

/// The number that a little-endian byte sequence stands for.
pub open spec fn le_value(s: Seq<u8>) -> nat
    decreases s.len(),
{
    if s.len() == 0 {
        0
    } else {
        s[0] as nat + 256 * le_value(s.drop_first())
    }
}

/// The decimal digit for `d < 10`.
pub open spec fn decimal_digit(d: nat) -> char {
    seq!['0', '1', '2', '3', '4', '5', '6', '7', '8', '9'][d as int]
}

/// The decimal notation of `n`, without sign or leading zeros.
pub open spec fn decimal(n: nat) -> Seq<char>
    decreases n,
{
    if n < 10 {
        seq![decimal_digit(n)]
    } else {
        decimal(n / 10).push(decimal_digit(n % 10))
    }
}

/// Appending a byte adds it at the weight of its position.
proof fn lemma_le_value_push(s: Seq<u8>, b: u8)
    ensures
        le_value(s.push(b)) == le_value(s) + b as nat * pow(256, s.len()),
    decreases s.len(),
{
    vstd::arithmetic::power::lemma_pow0(256);
    if s.len() > 0 {
        assert(s.push(b).drop_first() =~= s.drop_first().push(b));
        assert(s.push(b)[0] == s[0]);
        lemma_le_value_push(s.drop_first(), b);
        vstd::arithmetic::power::lemma_pow_adds(256, 1, (s.len() - 1) as nat);
        vstd::arithmetic::power::lemma_pow1(256);
        assert(256 * (b as nat * pow(256, (s.len() - 1) as nat)) == b as nat * pow(256, s.len()))
            by (nonlinear_arith)
            requires
                pow(256, s.len()) == 256 * pow(256, (s.len() - 1) as nat),
        ;
    } else {
        assert(s.push(b).drop_first() =~= Seq::<u8>::empty());
        assert(s.push(b)[0] == b);
        assert(le_value(s.push(b)) == b as nat + 256 * le_value(Seq::<u8>::empty()));
    }
}

/// A natural number of any size.
#[derive(Clone, Debug)]
pub struct BigNat {
    /// Little-endian bytes; trailing zero bytes are allowed.
    pub bytes: Vec<u8>,
}

impl BigNat {
    /// The number this value stands for.
    pub open spec fn value(&self) -> nat {
        le_value(self.bytes@)
    }

    /// The number `v`.
    pub fn from_u64(v: u64) -> (r: BigNat)
        ensures
            r.value() == v as nat,
    {
        let mut bytes: Vec<u8> = Vec::new();
        let mut rest: u64 = v;
        proof {
            vstd::arithmetic::power::lemma_pow0(256);
        }
        while rest > 0
            invariant
                le_value(bytes@) + pow(256, bytes@.len()) * rest == v as int,
            decreases rest,
        {
            let b: u8 = (rest % 256) as u8;
            let ghost prev = bytes@;
            let ghost r0 = rest as int;
            let ghost w = pow(256, prev.len());
            proof {
                lemma_le_value_push(prev, b);
                vstd::arithmetic::power::lemma_pow_adds(256, prev.len(), 1);
                vstd::arithmetic::power::lemma_pow1(256);
                assert(w * r0 == w * (r0 % 256) + (w * 256) * (r0 / 256)) by (nonlinear_arith);
            }
            bytes.push(b);
            rest = rest / 256;
            assert(bytes@ == prev.push(b));
            assert(b as int == r0 % 256);
            assert(rest as int == r0 / 256);
            assert(pow(256, bytes@.len()) == w * 256);
            assert(b as nat * w == w * (r0 % 256)) by (nonlinear_arith)
                requires
                    b as int == r0 % 256,
            ;
        }
        BigNat { bytes }
    }
}

impl PartialEq for BigNat {
    /// Equal numbers, whatever their byte length.
    fn eq(&self, other: &BigNat) -> (r: bool) {
        nat_eq(self, other)
    }
}

impl vstd::std_specs::cmp::PartialEqSpecImpl for BigNat {
    open spec fn obeys_eq_spec() -> bool {
        true
    }

    open spec fn eq_spec(&self, other: &BigNat) -> bool {
        self.value() == other.value()
    }
}

/// Relies on `&UBig + &UBig` (ibig): the exact sum.
#[verifier::external_body]
pub(crate) fn nat_add(a: &BigNat, b: &BigNat) -> (r: BigNat)
    ensures
        r.value() == a.value() + b.value(),
{
    BigNat { bytes: (UBig::from_le_bytes(&a.bytes) + UBig::from_le_bytes(&b.bytes)).to_le_bytes() }
}

/// Relies on `&UBig - &UBig` (ibig): the exact difference; it panics when
/// the result would be negative, which `requires` leaves out.
#[verifier::external_body]
pub(crate) fn nat_sub(a: &BigNat, b: &BigNat) -> (r: BigNat)
    requires
        b.value() <= a.value(),
    ensures
        r.value() == a.value() - b.value(),
{
    BigNat { bytes: (UBig::from_le_bytes(&a.bytes) - UBig::from_le_bytes(&b.bytes)).to_le_bytes() }
}

/// Relies on `&UBig * &UBig` (ibig): the exact product.
#[verifier::external_body]
pub(crate) fn nat_mul(a: &BigNat, b: &BigNat) -> (r: BigNat)
    ensures
        r.value() == a.value() * b.value(),
{
    BigNat { bytes: (UBig::from_le_bytes(&a.bytes) * UBig::from_le_bytes(&b.bytes)).to_le_bytes() }
}

/// Relies on `&UBig / &UBig` (ibig): the floor quotient; it panics on a zero
/// divisor, which `requires` leaves out.
#[verifier::external_body]
pub(crate) fn nat_div(a: &BigNat, b: &BigNat) -> (r: BigNat)
    requires
        b.value() > 0,
    ensures
        r.value() == a.value() / b.value(),
{
    BigNat { bytes: (UBig::from_le_bytes(&a.bytes) / UBig::from_le_bytes(&b.bytes)).to_le_bytes() }
}

/// Relies on `&UBig % &UBig` (ibig): the remainder of floor division; it
/// panics on a zero divisor, which `requires` leaves out.
#[verifier::external_body]
pub(crate) fn nat_rem(a: &BigNat, b: &BigNat) -> (r: BigNat)
    requires
        b.value() > 0,
    ensures
        r.value() == a.value() % b.value(),
{
    BigNat { bytes: (UBig::from_le_bytes(&a.bytes) % UBig::from_le_bytes(&b.bytes)).to_le_bytes() }
}

/// Relies on `UBig::pow` (ibig): `a` raised to the power `e`, with `0^0 == 1`.
#[verifier::external_body]
pub(crate) fn nat_pow(a: &BigNat, e: usize) -> (r: BigNat)
    ensures
        r.value() == pow(a.value() as int, e as nat),
{
    BigNat { bytes: UBig::from_le_bytes(&a.bytes).pow(e).to_le_bytes() }
}

/// Relies on `UBig < UBig` (ibig's `Ord`): numeric order.
#[verifier::external_body]
pub(crate) fn nat_lt(a: &BigNat, b: &BigNat) -> (r: bool)
    ensures
        r == (a.value() < b.value()),
{
    UBig::from_le_bytes(&a.bytes) < UBig::from_le_bytes(&b.bytes)
}

/// Relies on `UBig == UBig` (ibig's `PartialEq`): numeric equality.
#[verifier::external_body]
pub(crate) fn nat_eq(a: &BigNat, b: &BigNat) -> (r: bool)
    ensures
        r == (a.value() == b.value()),
{
    UBig::from_le_bytes(&a.bytes) == UBig::from_le_bytes(&b.bytes)
}

/// Relies on ibig's `Display` for `UBig`: plain decimal digits.
#[verifier::external_body]
pub(crate) fn nat_decimal(a: &BigNat) -> (r: String)
    ensures
        r@ == decimal(a.value()),
{
    UBig::from_le_bytes(&a.bytes).to_string()
}

} // verus!
