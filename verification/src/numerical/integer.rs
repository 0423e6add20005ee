//! Arbitrary-precision integers held as plain values (a sign and the base 2^64
//! digits of the magnitude), with the arithmetic done by `rug`.

use rug::integer::Order;
use rug::Integer;
use std::cmp::Ordering;
use vstd::arithmetic::power2::pow2;
use vstd::prelude::*;
use vstd::std_specs::cmp::PartialEqSpecImpl;

use crate::text::int_decimal;

verus! {

/// The value of base 2^64 digits, least significant digit first.
pub open spec fn digits_value(d: Seq<u64>) -> int
    decreases d.len(),
{
    if d.len() == 0 {
        0
    } else {
        d[0] + 0x1_0000_0000_0000_0000 * digits_value(d.drop_first())
    }
}

/// Bit `i` of the infinite two's complement representation of `x`: bit 0
/// is the parity of `x`, bit `i + 1` is bit `i` of `x / 2` rounded down.
pub open spec fn bit(x: int, i: nat) -> bool
    decreases i,
{
    if i == 0 {
        x % 2 == 1
    } else {
        bit(x / 2, (i - 1) as nat)
    }
}

/// Division rounding toward zero (`b != 0`).
pub open spec fn trunc_div(a: int, b: int) -> int {
    let q = abs(a) / abs(b);
    if (a < 0) != (b < 0) {
        -q
    } else {
        q
    }
}

/// The value of `x << k`: `x * 2^k` (`k >= 0`).
pub open spec fn shl_value(x: int, k: int) -> int {
    x * (pow2(k as nat) as int)
}

/// The value of `x >> k`: `x / 2^k` rounded toward negative infinity (`k >= 0`).
pub open spec fn shr_value(x: int, k: int) -> int {
    x / (pow2(k as nat) as int)
}

pub open spec fn abs(x: int) -> int {
    if x < 0 {
        -x
    } else {
        x
    }
}

/// An arbitrary-precision integer: a sign and the magnitude's base 2^64
/// digits, least significant first. Every such pair denotes an integer
/// (a negative zero is zero, high zero digits add nothing).
pub struct BigInt {
    pub negative: bool,
    pub magnitude: Vec<u64>,
}

impl View for BigInt {
    type V = int;

    open spec fn view(&self) -> int {
        if self.negative {
            -digits_value(self.magnitude@)
        } else {
            digits_value(self.magnitude@)
        }
    }
}

impl PartialEq for BigInt {
    fn eq(&self, other: &Self) -> (r: bool) {
        integer_eq(self, other)
    }
}

impl PartialEqSpecImpl for BigInt {
    open spec fn obeys_eq_spec() -> bool {
        true
    }

    open spec fn eq_spec(&self, other: &BigInt) -> bool {
        self@ == other@
    }
}

impl Eq for BigInt {
}

impl Clone for BigInt {
    fn clone(&self) -> (r: Self)
        ensures
            r.negative == self.negative,
            r.magnitude@ == self.magnitude@,
    {
        let m = self.magnitude.clone();
        assert(m@ =~= self.magnitude@);
        BigInt { negative: self.negative, magnitude: m }
    }
}

/// `rug::Integer::from(i128)`: the integer `n`.
#[verifier::external_body]
pub(crate) fn integer_from_i128(n: i128) -> (r: BigInt)
    ensures
        r@ == n,
{
    let z = Integer::from(n);
    BigInt { negative: z < 0, magnitude: z.to_digits(Order::Lsf) }
}

/// `rug::Integer::from(u128)`: the integer `n`.
#[verifier::external_body]
pub(crate) fn integer_from_u128(n: u128) -> (r: BigInt)
    ensures
        r@ == n,
{
    let z = Integer::from(n);
    BigInt { negative: z < 0, magnitude: z.to_digits(Order::Lsf) }
}

/// `Add` of `rug::Integer`: the exact sum.
#[verifier::external_body]
pub(crate) fn integer_add(a: &BigInt, b: &BigInt) -> (r: BigInt)
    ensures
        r@ == a@ + b@,
{
    let mut x = Integer::from_digits(&a.magnitude, Order::Lsf);
    if a.negative { x = -x; }
    let mut y = Integer::from_digits(&b.magnitude, Order::Lsf);
    if b.negative { y = -y; }
    let z = x + y;
    BigInt { negative: z < 0, magnitude: z.to_digits(Order::Lsf) }
}

/// `Sub` of `rug::Integer`: the exact difference.
#[verifier::external_body]
pub(crate) fn integer_sub(a: &BigInt, b: &BigInt) -> (r: BigInt)
    ensures
        r@ == a@ - b@,
{
    let mut x = Integer::from_digits(&a.magnitude, Order::Lsf);
    if a.negative { x = -x; }
    let mut y = Integer::from_digits(&b.magnitude, Order::Lsf);
    if b.negative { y = -y; }
    let z = x - y;
    BigInt { negative: z < 0, magnitude: z.to_digits(Order::Lsf) }
}

/// `Mul` of `rug::Integer`: the exact product.
#[verifier::external_body]
pub(crate) fn integer_mul(a: &BigInt, b: &BigInt) -> (r: BigInt)
    ensures
        r@ == a@ * b@,
{
    let mut x = Integer::from_digits(&a.magnitude, Order::Lsf);
    if a.negative { x = -x; }
    let mut y = Integer::from_digits(&b.magnitude, Order::Lsf);
    if b.negative { y = -y; }
    let z = x * y;
    BigInt { negative: z < 0, magnitude: z.to_digits(Order::Lsf) }
}

/// `Div` of `rug::Integer`: the quotient rounded toward zero; it panics on a zero divisor.
#[verifier::external_body]
pub(crate) fn integer_div(a: &BigInt, b: &BigInt) -> (r: BigInt)
    requires
        b@ != 0,
    ensures
        r@ == trunc_div(a@, b@),
{
    let mut x = Integer::from_digits(&a.magnitude, Order::Lsf);
    if a.negative { x = -x; }
    let mut y = Integer::from_digits(&b.magnitude, Order::Lsf);
    if b.negative { y = -y; }
    let z = x / y;
    BigInt { negative: z < 0, magnitude: z.to_digits(Order::Lsf) }
}

/// `BitAnd` of `rug::Integer`: each bit of the two's complement result is the
/// conjunction of the operands' bits.
#[verifier::external_body]
pub(crate) fn integer_and(a: &BigInt, b: &BigInt) -> (r: BigInt)
    ensures
        forall|i: nat| #[trigger] bit(r@, i) == (bit(a@, i) && bit(b@, i)),
{
    let mut x = Integer::from_digits(&a.magnitude, Order::Lsf);
    if a.negative { x = -x; }
    let mut y = Integer::from_digits(&b.magnitude, Order::Lsf);
    if b.negative { y = -y; }
    let z = x & y;
    BigInt { negative: z < 0, magnitude: z.to_digits(Order::Lsf) }
}

/// `BitOr` of `rug::Integer`: each bit of the two's complement result is the
/// disjunction of the operands' bits.
#[verifier::external_body]
pub(crate) fn integer_or(a: &BigInt, b: &BigInt) -> (r: BigInt)
    ensures
        forall|i: nat| #[trigger] bit(r@, i) == (bit(a@, i) || bit(b@, i)),
{
    let mut x = Integer::from_digits(&a.magnitude, Order::Lsf);
    if a.negative { x = -x; }
    let mut y = Integer::from_digits(&b.magnitude, Order::Lsf);
    if b.negative { y = -y; }
    let z = x | y;
    BigInt { negative: z < 0, magnitude: z.to_digits(Order::Lsf) }
}

/// `BitXor` of `rug::Integer`: each bit of the two's complement result is the
/// exclusive or of the operands' bits.
#[verifier::external_body]
pub(crate) fn integer_xor(a: &BigInt, b: &BigInt) -> (r: BigInt)
    ensures
        forall|i: nat| #[trigger] bit(r@, i) == (bit(a@, i) != bit(b@, i)),
{
    let mut x = Integer::from_digits(&a.magnitude, Order::Lsf);
    if a.negative { x = -x; }
    let mut y = Integer::from_digits(&b.magnitude, Order::Lsf);
    if b.negative { y = -y; }
    let z = x ^ y;
    BigInt { negative: z < 0, magnitude: z.to_digits(Order::Lsf) }
}

/// `Shl<u32>` of `rug::Integer`: multiplication by `2^k`.
#[verifier::external_body]
pub(crate) fn integer_shl(a: &BigInt, k: u32) -> (r: BigInt)
    ensures
        r@ == shl_value(a@, k as int),
{
    let mut x = Integer::from_digits(&a.magnitude, Order::Lsf);
    if a.negative { x = -x; }
    let z = x << k;
    BigInt { negative: z < 0, magnitude: z.to_digits(Order::Lsf) }
}

/// `Shr<u32>` of `rug::Integer`: division by `2^k` rounded toward negative
/// infinity.
#[verifier::external_body]
pub(crate) fn integer_shr(a: &BigInt, k: u32) -> (r: BigInt)
    ensures
        r@ == shr_value(a@, k as int),
{
    let mut x = Integer::from_digits(&a.magnitude, Order::Lsf);
    if a.negative { x = -x; }
    let z = x >> k;
    BigInt { negative: z < 0, magnitude: z.to_digits(Order::Lsf) }
}

/// `PartialEq` of `rug::Integer`: whether the two values are equal.
#[verifier::external_body]
pub(crate) fn integer_eq(a: &BigInt, b: &BigInt) -> (r: bool)
    ensures
        r == (a@ == b@),
{
    let mut x = Integer::from_digits(&a.magnitude, Order::Lsf);
    if a.negative { x = -x; }
    let mut y = Integer::from_digits(&b.magnitude, Order::Lsf);
    if b.negative { y = -y; }
    x == y
}

/// `PartialOrd<i32>::gt` of `rug::Integer`: whether the value exceeds `k`.
#[verifier::external_body]
pub(crate) fn integer_gt_i32(a: &BigInt, k: i32) -> (r: bool)
    ensures
        r == (a@ > k),
{
    let mut x = Integer::from_digits(&a.magnitude, Order::Lsf);
    if a.negative { x = -x; }
    x > k
}

/// `PartialOrd<i32>::lt` of `rug::Integer`: whether the value is below `k`.
#[verifier::external_body]
pub(crate) fn integer_lt_i32(a: &BigInt, k: i32) -> (r: bool)
    ensures
        r == (a@ < k),
{
    let mut x = Integer::from_digits(&a.magnitude, Order::Lsf);
    if a.negative { x = -x; }
    x < k
}

/// `rug::Integer::to_u32`: the value when it fits in a `u32`, else `None`.
#[verifier::external_body]
pub(crate) fn integer_to_u32(a: &BigInt) -> (r: Option<u32>)
    ensures
        r is Some <==> 0 <= a@ <= u32::MAX,
        r matches Some(v) ==> v == a@,
{
    let mut x = Integer::from_digits(&a.magnitude, Order::Lsf);
    if a.negative { x = -x; }
    x.to_u32()
}

/// `Ord::cmp` of `rug::Integer`: the order of the two values.
#[verifier::external_body]
pub(crate) fn integer_order(a: &BigInt, b: &BigInt) -> (r: Ordering)
    ensures
        a@ < b@ ==> r == Ordering::Less,
        a@ == b@ ==> r == Ordering::Equal,
        a@ > b@ ==> r == Ordering::Greater,
{
    let mut x = Integer::from_digits(&a.magnitude, Order::Lsf);
    if a.negative { x = -x; }
    let mut y = Integer::from_digits(&b.magnitude, Order::Lsf);
    if b.negative { y = -y; }
    x.cmp(&y)
}

/// `Display` of `rug::Integer`: the decimal rendering of the value.
#[verifier::external_body]
pub(crate) fn integer_to_string(a: &BigInt) -> (r: String)
    ensures
        r@ == int_decimal(a@),
{
    let mut x = Integer::from_digits(&a.magnitude, Order::Lsf);
    if a.negative { x = -x; }
    x.to_string()
}

} // verus!
