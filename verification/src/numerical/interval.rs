//! The interval abstract domain: bounds on the extended integer line and
//! intervals of them, with the arithmetic, comparison and bitwise transfer
//! functions of the domain.
//!
//! The result of each operator is stated on its method; the operator traits'
//! generic specifications are not used for these types (their `obeys_*_spec`
//! is `false`), except for equality, ordering and the boolean reading of an
//! interval, which are stated there exactly.

use std::cmp::Ordering;
use std::convert::TryFrom;
use std::ops::{Add, BitAnd, BitOr, BitXor, Div, Mul, Shl, Shr, Sub};
use vstd::prelude::*;
use vstd::std_specs::cmp::{PartialEqSpecImpl, PartialOrdSpecImpl};
use vstd::std_specs::convert::{FromSpecImpl, TryFromSpecImpl};
use vstd::std_specs::ops::{
    AddSpecImpl, BitAndSpecImpl, BitOrSpecImpl, BitXorSpecImpl, DivSpecImpl, MulSpecImpl,
    ShlSpecImpl, ShrSpecImpl, SubSpecImpl,
};

use super::integer::{
    bit, integer_add, integer_and, integer_div, integer_eq, integer_from_i128,
    integer_from_u128, integer_gt_i32, integer_lt_i32, integer_mul, integer_or, integer_order,
    integer_shl, integer_shr, integer_sub, integer_to_string, integer_to_u32, integer_xor,
    shl_value, shr_value, trunc_div, BigInt,
};
use crate::text::int_decimal;

verus! {

// ---------------------------------------------------------------------------
// The extended integer line
// ---------------------------------------------------------------------------

/// A point of the extended integer line: `∞`, an integer, or `-∞`.
pub enum Ext {
    PosInf,
    Fin(int),
    NegInf,
}

/// The strict order of the extended line: `-∞` below every integer, every
/// integer below `∞`.
pub open spec fn ext_lt(a: Ext, b: Ext) -> bool {
    match (a, b) {
        (Ext::Fin(x), Ext::Fin(y)) => x < y,
        (Ext::NegInf, Ext::NegInf) => false,
        (Ext::NegInf, _) => true,
        (Ext::PosInf, _) => false,
        (Ext::Fin(_), Ext::PosInf) => true,
        (Ext::Fin(_), Ext::NegInf) => false,
    }
}

pub open spec fn ext_le(a: Ext, b: Ext) -> bool {
    a == b || ext_lt(a, b)
}

/// Three-way comparison on the extended line.
pub open spec fn ext_order(a: Ext, b: Ext) -> Ordering {
    if ext_lt(a, b) {
        Ordering::Less
    } else if a == b {
        Ordering::Equal
    } else {
        Ordering::Greater
    }
}

/// The sign of a point: `1`, `-1` or `0`.
pub open spec fn ext_sign(a: Ext) -> int {
    match a {
        Ext::PosInf => 1,
        Ext::NegInf => -1,
        Ext::Fin(x) => if x > 0 {
            1
        } else if x < 0 {
            -1
        } else {
            0
        },
    }
}

/// An infinite point, or zero, of the given sign.
pub open spec fn ext_of_sign(s: int) -> Ext {
    if s > 0 {
        Ext::PosInf
    } else if s < 0 {
        Ext::NegInf
    } else {
        Ext::Fin(0)
    }
}

/// Sum of bounds; `∞` wins over `-∞`.
pub open spec fn ext_add(a: Ext, b: Ext) -> Ext {
    match (a, b) {
        (Ext::PosInf, _) | (_, Ext::PosInf) => Ext::PosInf,
        (Ext::NegInf, _) | (_, Ext::NegInf) => Ext::NegInf,
        (Ext::Fin(x), Ext::Fin(y)) => Ext::Fin(x + y),
    }
}

/// Difference of bounds; `∞ - x` and `x - (-∞)` are `∞` whatever `x` is.
pub open spec fn ext_sub(a: Ext, b: Ext) -> Ext {
    match (a, b) {
        (Ext::PosInf, _) | (_, Ext::NegInf) => Ext::PosInf,
        (Ext::NegInf, _) | (_, Ext::PosInf) => Ext::NegInf,
        (Ext::Fin(x), Ext::Fin(y)) => Ext::Fin(x - y),
    }
}

/// Product of bounds; a product with an infinite factor takes the sign of
/// the product of the signs, and is `0` when a factor is `0`.
pub open spec fn ext_mul(a: Ext, b: Ext) -> Ext {
    match (a, b) {
        (Ext::Fin(x), Ext::Fin(y)) => Ext::Fin(x * y),
        _ => ext_of_sign(ext_sign(a) * ext_sign(b)),
    }
}

/// Quotient of bounds (`b` not zero): an infinite dividend gives an infinite
/// quotient of the sign of the product of the signs, a finite one divided by
/// an infinite divisor gives `0`, and finite ones divide rounding toward zero.
pub open spec fn ext_div(a: Ext, b: Ext) -> Ext {
    match (a, b) {
        (Ext::PosInf, _) | (Ext::NegInf, _) => ext_of_sign(ext_sign(a) * ext_sign(b)),
        (_, Ext::PosInf) | (_, Ext::NegInf) => Ext::Fin(0),
        (Ext::Fin(x), Ext::Fin(y)) => Ext::Fin(trunc_div(x, y)),
    }
}

/// The smaller of two points; the first one on a tie.
pub open spec fn ext_min(a: Ext, b: Ext) -> Ext {
    if ext_lt(b, a) {
        b
    } else {
        a
    }
}

/// The larger of two points; the second one on a tie.
pub open spec fn ext_max(a: Ext, b: Ext) -> Ext {
    if ext_lt(b, a) {
        a
    } else {
        b
    }
}

pub open spec fn ext_min4(a: Ext, b: Ext, c: Ext, d: Ext) -> Ext {
    ext_min(ext_min(ext_min(a, b), c), d)
}

pub open spec fn ext_max4(a: Ext, b: Ext, c: Ext, d: Ext) -> Ext {
    ext_max(ext_max(ext_max(a, b), c), d)
}

// ---------------------------------------------------------------------------
// Bound
// ---------------------------------------------------------------------------

/// Either `∞`, `-∞`, or an arbitrary precision integer
pub enum Bound {
    Infinity,
    Int(BigInt),
    NegativeInfinity,
}

impl View for Bound {
    type V = Ext;

    open spec fn view(&self) -> Ext {
        match self {
            Bound::Infinity => Ext::PosInf,
            Bound::Int(n) => Ext::Fin(n@),
            Bound::NegativeInfinity => Ext::NegInf,
        }
    }
}

/// The sign of a bound, as multiplication and division classify it.
enum Sign {
    Positive,
    Negative,
    Zero,
}

spec fn sign_value(s: Sign) -> int {
    match s {
        Sign::Positive => 1,
        Sign::Negative => -1,
        Sign::Zero => 0,
    }
}

fn sign_of(b: &Bound) -> (s: Sign)
    ensures
        sign_value(s) == ext_sign(b@),
{
    match b {
        Bound::Infinity => Sign::Positive,
        Bound::NegativeInfinity => Sign::Negative,
        Bound::Int(n) => {
            if integer_gt_i32(n, 0) {
                Sign::Positive
            } else if integer_lt_i32(n, 0) {
                Sign::Negative
            } else {
                Sign::Zero
            }
        },
    }
}

impl Bound {
    pub fn is_finite(&self) -> (r: bool)
        ensures
            r == (self@ is Fin),
    {
        match self {
            Bound::Int(_) => true,
            _ => false,
        }
    }
}

impl Clone for Bound {
    fn clone(&self) -> (r: Self)
        ensures
            r@ == self@,
    {
        match self {
            Bound::Infinity => Bound::Infinity,
            Bound::Int(n) => Bound::Int(n.clone()),
            Bound::NegativeInfinity => Bound::NegativeInfinity,
        }
    }
}

impl PartialEq for Bound {
    fn eq(&self, other: &Self) -> (r: bool) {
        match (self, other) {
            (Bound::Infinity, Bound::Infinity) => true,
            (Bound::NegativeInfinity, Bound::NegativeInfinity) => true,
            (Bound::Int(a), Bound::Int(b)) => integer_eq(a, b),
            _ => false,
        }
    }
}

impl PartialEqSpecImpl for Bound {
    open spec fn obeys_eq_spec() -> bool {
        true
    }

    open spec fn eq_spec(&self, other: &Bound) -> bool {
        self@ == other@
    }
}

impl Eq for Bound {
}

impl Bound {
    /// The total order of bounds: `-∞` below every integer, every integer
    /// below `∞`, integers by value.
    pub fn cmp(&self, other: &Self) -> (r: Ordering)
        ensures
            r == ext_order(self@, other@),
    {
        if self == other {
            Ordering::Equal
        } else {
            match (self, other) {
                (Bound::Infinity, _) | (_, Bound::NegativeInfinity) => Ordering::Greater,
                (Bound::NegativeInfinity, _) | (_, Bound::Infinity) => Ordering::Less,
                (Bound::Int(a), Bound::Int(b)) => integer_order(a, b),
            }
        }
    }
}

impl PartialOrd for Bound {
    fn partial_cmp(&self, other: &Self) -> (r: Option<Ordering>) {
        Some(self.cmp(other))
    }
}

impl PartialOrdSpecImpl for Bound {
    open spec fn obeys_partial_cmp_spec() -> bool {
        true
    }

    open spec fn partial_cmp_spec(&self, other: &Bound) -> Option<Ordering> {
        Some(ext_order(self@, other@))
    }
}

impl From<BigInt> for Bound {
    fn from(n: BigInt) -> (r: Self)
        ensures
            r@ == Ext::Fin(n@),
    {
        Bound::Int(n)
    }
}

impl FromSpecImpl<BigInt> for Bound {
    open spec fn obeys_from_spec() -> bool {
        false
    }

    open spec fn from_spec(v: BigInt) -> Bound {
        Bound::Int(v)
    }
}

impl From<i128> for Bound {
    fn from(n: i128) -> (r: Self)
        ensures
            r@ == Ext::Fin(n as int),
    {
        Bound::Int(integer_from_i128(n))
    }
}

impl FromSpecImpl<i128> for Bound {
    open spec fn obeys_from_spec() -> bool {
        false
    }

    open spec fn from_spec(v: i128) -> Bound {
        arbitrary()
    }
}

impl From<u128> for Bound {
    fn from(n: u128) -> (r: Self)
        ensures
            r@ == Ext::Fin(n as int),
    {
        Bound::Int(integer_from_u128(n))
    }
}

impl FromSpecImpl<u128> for Bound {
    open spec fn obeys_from_spec() -> bool {
        false
    }

    open spec fn from_spec(v: u128) -> Bound {
        arbitrary()
    }
}

impl Add for Bound {
    type Output = Self;

    fn add(self, other: Self) -> (r: Self)
        ensures
            r@ == ext_add(self@, other@),
    {
        match (self, other) {
            (Bound::Infinity, _) | (_, Bound::Infinity) => Bound::Infinity,
            (Bound::NegativeInfinity, _) | (_, Bound::NegativeInfinity) => Bound::NegativeInfinity,
            (Bound::Int(a), Bound::Int(b)) => Bound::Int(integer_add(&a, &b)),
        }
    }
}

impl AddSpecImpl for Bound {
    open spec fn obeys_add_spec() -> bool {
        false
    }

    open spec fn add_req(self, rhs: Bound) -> bool {
        true
    }

    open spec fn add_spec(self, rhs: Bound) -> Bound {
        arbitrary()
    }
}

impl Sub for Bound {
    type Output = Self;

    fn sub(self, other: Self) -> (r: Self)
        ensures
            r@ == ext_sub(self@, other@),
    {
        match (self, other) {
            (Bound::Infinity, _) | (_, Bound::NegativeInfinity) => Bound::Infinity,
            (Bound::NegativeInfinity, _) | (_, Bound::Infinity) => Bound::NegativeInfinity,
            (Bound::Int(a), Bound::Int(b)) => Bound::Int(integer_sub(&a, &b)),
        }
    }
}

impl SubSpecImpl for Bound {
    open spec fn obeys_sub_spec() -> bool {
        false
    }

    open spec fn sub_req(self, rhs: Bound) -> bool {
        true
    }

    open spec fn sub_spec(self, rhs: Bound) -> Bound {
        arbitrary()
    }
}

impl Mul for Bound {
    type Output = Self;

    fn mul(self, rhs: Self) -> (r: Self)
        ensures
            r@ == ext_mul(self@, rhs@),
    {
        let sign_lhs = sign_of(&self);
        let sign_rhs = sign_of(&rhs);
        let sign = match (sign_lhs, sign_rhs) {
            (Sign::Zero, _) | (_, Sign::Zero) => Sign::Zero,
            (Sign::Positive, Sign::Positive) | (Sign::Negative, Sign::Negative) => Sign::Positive,
            (Sign::Positive, Sign::Negative) | (Sign::Negative, Sign::Positive) => Sign::Negative,
        };
        match (self, rhs) {
            (Bound::Int(a), Bound::Int(b)) => Bound::Int(integer_mul(&a, &b)),
            _ => match sign {
                Sign::Positive => Bound::Infinity,
                Sign::Negative => Bound::NegativeInfinity,
                Sign::Zero => Bound::Int(integer_from_i128(0)),
            },
        }
    }
}

impl MulSpecImpl for Bound {
    open spec fn obeys_mul_spec() -> bool {
        false
    }

    open spec fn mul_req(self, rhs: Bound) -> bool {
        true
    }

    open spec fn mul_spec(self, rhs: Bound) -> Bound {
        arbitrary()
    }
}

impl Div for Bound {
    type Output = Self;

    /// Division of bounds; the divisor must not be the integer zero.
    fn div(self, rhs: Self) -> (r: Self)
        ensures
            r@ == ext_div(self@, rhs@),
    {
        let sign_lhs = sign_of(&self);
        let sign_rhs = sign_of(&rhs);
        let sign = match (sign_lhs, sign_rhs) {
            (Sign::Zero, _) => Sign::Zero,
            (Sign::Positive, Sign::Positive) | (Sign::Negative, Sign::Negative) => Sign::Positive,
            (Sign::Positive, Sign::Negative) | (Sign::Negative, Sign::Positive) => Sign::Negative,
            (_, Sign::Zero) => {
                assert(false);
                Sign::Zero
            },
        };
        match (self, rhs) {
            (Bound::Infinity, _) | (Bound::NegativeInfinity, _) => match sign {
                Sign::Positive => Bound::Infinity,
                Sign::Negative => Bound::NegativeInfinity,
                Sign::Zero => Bound::Int(integer_from_i128(0)),
            },
            (_, Bound::Infinity) | (_, Bound::NegativeInfinity) => Bound::Int(integer_from_i128(0)),
            (Bound::Int(a), Bound::Int(b)) => Bound::Int(integer_div(&a, &b)),
        }
    }
}

impl DivSpecImpl for Bound {
    open spec fn obeys_div_spec() -> bool {
        false
    }

    open spec fn div_req(self, rhs: Bound) -> bool {
        rhs@ != Ext::Fin(0)
    }

    open spec fn div_spec(self, rhs: Bound) -> Bound {
        arbitrary()
    }
}

/// The text of a bound: `∞`, `-∞`, or the decimal digits of the integer.
pub open spec fn bound_text(b: Ext) -> Seq<char> {
    match b {
        Ext::PosInf => "∞"@,
        Ext::NegInf => "-∞"@,
        Ext::Fin(n) => int_decimal(n),
    }
}

impl Bound {
    /// The rendering that the debug formatter of a bound writes.
    pub fn to_debug_string(&self) -> (r: String)
        ensures
            r@ == bound_text(self@),
    {
        match self {
            Bound::Infinity => String::from_str("∞"),
            Bound::NegativeInfinity => String::from_str("-∞"),
            Bound::Int(n) => integer_to_string(n),
        }
    }
}


// ---------------------------------------------------------------------------
// Interval
// ---------------------------------------------------------------------------

/// Abstract value that represents an interval
/// When `low` <= `high`, it is a normal interval `[low, high]`
/// When `low` == `NINF` && `high` == `INF`, it is `[-∞, ∞]`
/// When `low` == `INF` && `high` == `NINF`, it is `⊥`
pub struct Interval {
    pub high: Bound,
    pub low: Bound,
}

/// The view of an interval: its low bound, then its high bound.
impl View for Interval {
    type V = (Ext, Ext);

    open spec fn view(&self) -> (Ext, Ext) {
        (self.low@, self.high@)
    }
}

pub open spec fn iv_top() -> (Ext, Ext) {
    (Ext::NegInf, Ext::PosInf)
}

pub open spec fn iv_bottom() -> (Ext, Ext) {
    (Ext::PosInf, Ext::NegInf)
}

/// The interval `[k, k]`.
pub open spec fn iv_const(k: int) -> (Ext, Ext) {
    (Ext::Fin(k), Ext::Fin(k))
}

pub open spec fn iv_is_top(v: (Ext, Ext)) -> bool {
    v.1 == Ext::PosInf && v.0 == Ext::NegInf
}

/// An interval is bottom when its high bound is below its low bound.
pub open spec fn iv_is_bottom(v: (Ext, Ext)) -> bool {
    ext_lt(v.1, v.0)
}

/// The integer `x` lies in the interval.
pub open spec fn iv_contains(v: (Ext, Ext), x: int) -> bool {
    ext_le(v.0, Ext::Fin(x)) && ext_le(Ext::Fin(x), v.1)
}

/// The integer of an interval whose two bounds are the same integer.
pub open spec fn iv_singleton(v: (Ext, Ext)) -> Option<int> {
    match v {
        (Ext::Fin(l), Ext::Fin(h)) => if l == h {
            Some(l)
        } else {
            None
        },
        _ => None,
    }
}

/// Neither bottom nor top: the comparisons answer only for such intervals.
pub open spec fn iv_comparable(a: (Ext, Ext), b: (Ext, Ext)) -> bool {
    !iv_is_bottom(a) && !iv_is_top(a) && !iv_is_bottom(b) && !iv_is_top(b)
}

pub open spec fn iv_less_than(a: (Ext, Ext), b: (Ext, Ext)) -> Option<bool> {
    if !iv_comparable(a, b) {
        None
    } else if ext_lt(a.1, b.0) {
        Some(true)
    } else if ext_le(b.1, a.0) {
        Some(false)
    } else {
        None
    }
}

pub open spec fn iv_less_equal(a: (Ext, Ext), b: (Ext, Ext)) -> Option<bool> {
    if !iv_comparable(a, b) {
        None
    } else if ext_le(a.1, b.0) {
        Some(true)
    } else if ext_lt(b.1, a.0) {
        Some(false)
    } else {
        None
    }
}

pub open spec fn iv_greater_equal(a: (Ext, Ext), b: (Ext, Ext)) -> Option<bool> {
    if !iv_comparable(a, b) {
        None
    } else if ext_le(b.1, a.0) {
        Some(true)
    } else if ext_lt(a.1, b.0) {
        Some(false)
    } else {
        None
    }
}

pub open spec fn iv_greater_than(a: (Ext, Ext), b: (Ext, Ext)) -> Option<bool> {
    if !iv_comparable(a, b) {
        None
    } else if ext_lt(b.1, a.0) {
        Some(true)
    } else if ext_le(a.1, b.0) {
        Some(false)
    } else {
        None
    }
}

/// Equality is decided only between two singleton intervals.
pub open spec fn iv_equal_to(a: (Ext, Ext), b: (Ext, Ext)) -> Option<bool> {
    match (iv_singleton(a), iv_singleton(b)) {
        (Some(x), Some(y)) => Some(x == y),
        _ => None,
    }
}

impl Interval {
    pub fn new(low: Bound, high: Bound) -> (r: Self)
        ensures
            r@ == (low@, high@),
    {
        Interval { high, low }
    }

    pub fn top() -> (r: Self)
        ensures
            r@ == iv_top(),
    {
        Interval { high: Bound::Infinity, low: Bound::NegativeInfinity }
    }

    pub fn bottom() -> (r: Self)
        ensures
            r@ == iv_bottom(),
    {
        Interval { high: Bound::NegativeInfinity, low: Bound::Infinity }
    }

    pub fn is_top(&self) -> (r: bool)
        ensures
            r == iv_is_top(self@),
    {
        self.high == Bound::Infinity && self.low == Bound::NegativeInfinity
    }

    pub fn is_bottom(&self) -> (r: bool)
        ensures
            r == iv_is_bottom(self@),
    {
        self.high < self.low
    }

    pub fn less_than(&self, other: &Interval) -> (r: Option<bool>)
        ensures
            r == iv_less_than(self@, other@),
    {
        if self.is_bottom() || self.is_top() || other.is_bottom() || other.is_top() {
            None
        } else if self.high < other.low {
            Some(true)
        } else if other.high <= self.low {
            Some(false)
        } else {
            None
        }
    }

    pub fn less_equal(&self, other: &Interval) -> (r: Option<bool>)
        ensures
            r == iv_less_equal(self@, other@),
    {
        if self.is_bottom() || self.is_top() || other.is_bottom() || other.is_top() {
            None
        } else if self.high <= other.low {
            Some(true)
        } else if other.high < self.low {
            Some(false)
        } else {
            None
        }
    }

    pub fn greater_equal(&self, other: &Interval) -> (r: Option<bool>)
        ensures
            r == iv_greater_equal(self@, other@),
    {
        if self.is_bottom() || self.is_top() || other.is_bottom() || other.is_top() {
            None
        } else if self.low >= other.high {
            Some(true)
        } else if other.low > self.high {
            Some(false)
        } else {
            None
        }
    }

    pub fn greater_than(&self, other: &Interval) -> (r: Option<bool>)
        ensures
            r == iv_greater_than(self@, other@),
    {
        if self.is_bottom() || self.is_top() || other.is_bottom() || other.is_top() {
            None
        } else if self.low > other.high {
            Some(true)
        } else if other.low >= self.high {
            Some(false)
        } else {
            None
        }
    }

    pub fn equal_to(&self, other: &Interval) -> (r: Option<bool>)
        ensures
            r == iv_equal_to(self@, other@),
    {
        if let (Ok(v1), Ok(v2)) = (BigInt::try_from(self), BigInt::try_from(other)) {
            if v1 == v2 {
                return Some(true);
            } else {
                return Some(false);
            }
        }
        None
    }

    pub fn not_equal_to(&self, other: &Interval) -> (r: Option<bool>)
        ensures
            r == match iv_equal_to(self@, other@) {
                Some(b) => Some(!b),
                None => None,
            },
    {
        if let Some(bool_value) = self.equal_to(other) {
            return Some(!bool_value);
        }
        None
    }

    fn is_zero(&self) -> (r: bool)
        ensures
            r == (self@ == iv_const(0)),
    {
        self.low == Bound::Int(integer_from_i128(0)) && self.high == Bound::Int(integer_from_i128(0))
    }

    fn all_ones(&self) -> (r: bool)
        ensures
            r == (self@ == iv_const(-1)),
    {
        self.low == Bound::Int(integer_from_i128(-1)) && self.high == Bound::Int(integer_from_i128(-1))
    }
}

impl Clone for Interval {
    fn clone(&self) -> (r: Self)
        ensures
            r@ == self@,
    {
        Interval { high: self.high.clone(), low: self.low.clone() }
    }
}

impl PartialEq for Interval {
    fn eq(&self, other: &Self) -> (r: bool) {
        self.high == other.high && self.low == other.low
    }
}

impl PartialEqSpecImpl for Interval {
    open spec fn obeys_eq_spec() -> bool {
        true
    }

    open spec fn eq_spec(&self, other: &Interval) -> bool {
        self@ == other@
    }
}

impl TryFrom<Interval> for BigInt {
    type Error = &'static str;

    fn try_from(value: Interval) -> (r: Result<Self, Self::Error>)
        ensures
            r is Ok <==> iv_singleton(value@) is Some,
            r matches Ok(n) ==> iv_singleton(value@) == Some(n@),
            r matches Err(e) ==> e@ == "interval is not a integer"@,
    {
        if let (Bound::Int(high), Bound::Int(low)) = (value.high, value.low) {
            if high == low {
                return Ok(high);
            }
        }
        Err("interval is not a integer")
    }
}

impl TryFromSpecImpl<Interval> for BigInt {
    open spec fn obeys_try_from_spec() -> bool {
        false
    }

    open spec fn try_from_spec(v: Interval) -> Result<Self, Self::Error> {
        arbitrary()
    }
}

impl<'a> TryFrom<&'a Interval> for BigInt {
    type Error = &'static str;

    fn try_from(value: &'a Interval) -> (r: Result<Self, Self::Error>)
        ensures
            r is Ok <==> iv_singleton(value@) is Some,
            r matches Ok(n) ==> iv_singleton(value@) == Some(n@),
            r matches Err(e) ==> e@ == "interval is not a integer"@,
    {
        if let (Bound::Int(high), Bound::Int(low)) = (value.high.clone(), value.low.clone()) {
            if high == low {
                return Ok(high);
            }
        }
        Err("interval is not a integer")
    }
}

impl<'a> TryFromSpecImpl<&'a Interval> for BigInt {
    open spec fn obeys_try_from_spec() -> bool {
        false
    }

    open spec fn try_from_spec(v: &'a Interval) -> Result<Self, Self::Error> {
        arbitrary()
    }
}

/// `[1, 1]` reads as `true`, `[0, 0]` as `false`, nothing else as a boolean.
pub open spec fn iv_to_bool(v: (Ext, Ext)) -> Result<bool, &'static str> {
    if v == iv_const(1) {
        Ok(true)
    } else if v == iv_const(0) {
        Ok(false)
    } else {
        Err("interval is not a bool")
    }
}

impl TryFrom<Interval> for bool {
    type Error = &'static str;

    fn try_from(value: Interval) -> (r: Result<Self, Self::Error>) {
        if value.high == Bound::Int(integer_from_i128(1)) && value.low == Bound::Int(
            integer_from_i128(1),
        ) {
            Ok(true)
        } else if value.high == Bound::Int(integer_from_i128(0)) && value.low == Bound::Int(
            integer_from_i128(0),
        ) {
            Ok(false)
        } else {
            Err("interval is not a bool")
        }
    }
}

impl TryFromSpecImpl<Interval> for bool {
    open spec fn obeys_try_from_spec() -> bool {
        true
    }

    open spec fn try_from_spec(v: Interval) -> Result<Self, Self::Error> {
        iv_to_bool(v@)
    }
}

/// `true` is the interval `[1, 1]`, `false` the interval `[0, 0]`.
pub open spec fn iv_of_bool(b: bool) -> (Ext, Ext) {
    if b {
        iv_const(1)
    } else {
        iv_const(0)
    }
}

impl From<bool> for Interval {
    fn from(b: bool) -> (r: Self)
        ensures
            r@ == iv_of_bool(b),
    {
        let v;
        if b {
            v = Bound::Int(integer_from_i128(1));
        } else {
            v = Bound::Int(integer_from_i128(0));
        }
        Interval { high: v.clone(), low: v }
    }
}

impl FromSpecImpl<bool> for Interval {
    open spec fn obeys_from_spec() -> bool {
        false
    }

    open spec fn from_spec(v: bool) -> Interval {
        arbitrary()
    }
}


/// The bits of `v` are those of `x` and `y` combined bit by bit with `f`.
pub open spec fn bitwise(x: int, y: int, v: int, f: spec_fn(bool, bool) -> bool) -> bool {
    forall|i: nat| #[trigger] bit(v, i) == f(bit(x, i), bit(y, i))
}

/// `r` is the singleton interval of an integer whose bits are those of `x`
/// and `y` combined bit by bit with `f`.
pub open spec fn iv_bitwise(x: int, y: int, r: (Ext, Ext), f: spec_fn(bool, bool) -> bool) -> bool {
    match iv_singleton(r) {
        Some(v) => bitwise(x, y, v, f),
        None => false,
    }
}

pub open spec fn and_fn() -> spec_fn(bool, bool) -> bool {
    |p: bool, q: bool| p && q
}

pub open spec fn or_fn() -> spec_fn(bool, bool) -> bool {
    |p: bool, q: bool| p || q
}

pub open spec fn xor_fn() -> spec_fn(bool, bool) -> bool {
    |p: bool, q: bool| p != q
}

/// The result of `a & b`: bottom absorbs, then top, then `[0, 0]`, then
/// `[-1, -1]` is neutral; two singletons give the singleton of their bitwise
/// and; anything else gives top.
pub open spec fn bitand_post(a: (Ext, Ext), b: (Ext, Ext), r: (Ext, Ext)) -> bool {
    if iv_is_bottom(a) || iv_is_bottom(b) {
        r == iv_bottom()
    } else if iv_is_top(a) || iv_is_top(b) {
        r == iv_top()
    } else if a == iv_const(0) || b == iv_const(0) {
        r == iv_const(0)
    } else if a == iv_const(-1) {
        r == b
    } else if b == iv_const(-1) {
        r == a
    } else {
        match (iv_singleton(a), iv_singleton(b)) {
            (Some(x), Some(y)) => iv_bitwise(x, y, r, and_fn()),
            _ => r == iv_top(),
        }
    }
}

/// The result of `a | b`: bottom absorbs, then top, then `[-1, -1]` absorbs,
/// then `[0, 0]` is neutral; two singletons give the singleton of their
/// bitwise or; anything else gives top.
pub open spec fn bitor_post(a: (Ext, Ext), b: (Ext, Ext), r: (Ext, Ext)) -> bool {
    if iv_is_bottom(a) || iv_is_bottom(b) {
        r == iv_bottom()
    } else if iv_is_top(a) || iv_is_top(b) {
        r == iv_top()
    } else if a == iv_const(-1) || b == iv_const(-1) {
        r == iv_const(-1)
    } else if a == iv_const(0) {
        r == b
    } else if b == iv_const(0) {
        r == a
    } else {
        match (iv_singleton(a), iv_singleton(b)) {
            (Some(x), Some(y)) => iv_bitwise(x, y, r, or_fn()),
            _ => r == iv_top(),
        }
    }
}

/// The result of `a ^ b`: bottom absorbs, then top, then `[0, 0]` is
/// neutral; two singletons give the singleton of their bitwise exclusive or;
/// anything else gives top.
pub open spec fn bitxor_post(a: (Ext, Ext), b: (Ext, Ext), r: (Ext, Ext)) -> bool {
    if iv_is_bottom(a) || iv_is_bottom(b) {
        r == iv_bottom()
    } else if iv_is_top(a) || iv_is_top(b) {
        r == iv_top()
    } else if a == iv_const(0) {
        r == b
    } else if b == iv_const(0) {
        r == a
    } else {
        match (iv_singleton(a), iv_singleton(b)) {
            (Some(x), Some(y)) => iv_bitwise(x, y, r, xor_fn()),
            _ => r == iv_top(),
        }
    }
}

/// The result of a shift: bottom absorbs, then top; two singletons whose
/// shift amount fits in a `u32` give the singleton of the shifted value;
/// anything else gives top.
pub open spec fn shift_post(
    a: (Ext, Ext),
    b: (Ext, Ext),
    r: (Ext, Ext),
    f: spec_fn(int, int) -> int,
) -> bool {
    if iv_is_bottom(a) || iv_is_bottom(b) {
        r == iv_bottom()
    } else if iv_is_top(a) || iv_is_top(b) {
        r == iv_top()
    } else {
        match (iv_singleton(a), iv_singleton(b)) {
            (Some(x), Some(k)) => if 0 <= k <= u32::MAX {
                r == iv_const(f(x, k))
            } else {
                r == iv_top()
            },
            _ => r == iv_top(),
        }
    }
}

pub open spec fn shl_post(a: (Ext, Ext), b: (Ext, Ext), r: (Ext, Ext)) -> bool {
    shift_post(a, b, r, |x: int, k: int| shl_value(x, k))
}

pub open spec fn shr_post(a: (Ext, Ext), b: (Ext, Ext), r: (Ext, Ext)) -> bool {
    shift_post(a, b, r, |x: int, k: int| shr_value(x, k))
}

/// The four products (or quotients) of the bounds of two intervals.
pub open spec fn corners(a: (Ext, Ext), b: (Ext, Ext), f: spec_fn(Ext, Ext) -> Ext) -> (
    Ext,
    Ext,
    Ext,
    Ext,
) {
    (f(a.0, b.0), f(a.0, b.1), f(a.1, b.0), f(a.1, b.1))
}

/// The interval from the least to the greatest of the four corner values.
pub open spec fn iv_hull(c: (Ext, Ext, Ext, Ext)) -> (Ext, Ext) {
    (ext_min4(c.0, c.1, c.2, c.3), ext_max4(c.0, c.1, c.2, c.3))
}

/// The sum of intervals: the sums of the low and of the high bounds.
pub open spec fn iv_add(a: (Ext, Ext), b: (Ext, Ext)) -> (Ext, Ext) {
    (ext_add(a.0, b.0), ext_add(a.1, b.1))
}

/// The difference of intervals: low minus high, and high minus low.
pub open spec fn iv_sub(a: (Ext, Ext), b: (Ext, Ext)) -> (Ext, Ext) {
    (ext_sub(a.0, b.1), ext_sub(a.1, b.0))
}

pub open spec fn iv_mul(a: (Ext, Ext), b: (Ext, Ext)) -> (Ext, Ext) {
    iv_hull(corners(a, b, |x: Ext, y: Ext| ext_mul(x, y)))
}

pub open spec fn iv_div(a: (Ext, Ext), b: (Ext, Ext)) -> (Ext, Ext) {
    iv_hull(corners(a, b, |x: Ext, y: Ext| ext_div(x, y)))
}

/// The smaller of two bounds, the first one on a tie.
fn min_bound(a: Bound, b: Bound) -> (r: Bound)
    ensures
        r@ == ext_min(a@, b@),
{
    if b < a {
        b
    } else {
        a
    }
}

/// The larger of two bounds, the second one on a tie.
fn max_bound(a: Bound, b: Bound) -> (r: Bound)
    ensures
        r@ == ext_max(a@, b@),
{
    if b < a {
        a
    } else {
        b
    }
}

impl Add for Interval {
    type Output = Interval;

    fn add(self, other: Interval) -> (r: Interval)
        ensures
            r@ == iv_add(self@, other@),
    {
        let low = self.low + other.low;
        let high = self.high + other.high;
        Interval::new(low, high)
    }
}

impl AddSpecImpl for Interval {
    open spec fn obeys_add_spec() -> bool {
        false
    }

    open spec fn add_req(self, rhs: Interval) -> bool {
        true
    }

    open spec fn add_spec(self, rhs: Interval) -> Interval {
        arbitrary()
    }
}

impl Sub for Interval {
    type Output = Interval;

    fn sub(self, other: Interval) -> (r: Interval)
        ensures
            r@ == iv_sub(self@, other@),
    {
        let low = self.low - other.high;
        let high = self.high - other.low;
        Interval::new(low, high)
    }
}

impl SubSpecImpl for Interval {
    open spec fn obeys_sub_spec() -> bool {
        false
    }

    open spec fn sub_req(self, rhs: Interval) -> bool {
        true
    }

    open spec fn sub_spec(self, rhs: Interval) -> Interval {
        arbitrary()
    }
}

impl Mul for Interval {
    type Output = Self;

    fn mul(self, rhs: Self) -> (r: Self)
        ensures
            r@ == iv_mul(self@, rhs@),
    {
        let a = self.low.clone() * rhs.low.clone();
        let b = self.low.clone() * rhs.high.clone();
        let c = self.high.clone() * rhs.low.clone();
        let d = self.high * rhs.high;
        let low = min_bound(min_bound(min_bound(a.clone(), b.clone()), c.clone()), d.clone());
        let high = max_bound(max_bound(max_bound(a, b), c), d);
        Interval::new(low, high)
    }
}

impl MulSpecImpl for Interval {
    open spec fn obeys_mul_spec() -> bool {
        false
    }

    open spec fn mul_req(self, rhs: Interval) -> bool {
        true
    }

    open spec fn mul_spec(self, rhs: Interval) -> Interval {
        arbitrary()
    }
}

impl Div for Interval {
    type Output = Self;

    /// Division of intervals; neither bound of the divisor may be the
    /// integer zero.
    fn div(self, rhs: Self) -> (r: Self)
        ensures
            r@ == iv_div(self@, rhs@),
    {
        let a = self.low.clone() / rhs.low.clone();
        let b = self.low.clone() / rhs.high.clone();
        let c = self.high.clone() / rhs.low.clone();
        let d = self.high / rhs.high;
        let low = min_bound(min_bound(min_bound(a.clone(), b.clone()), c.clone()), d.clone());
        let high = max_bound(max_bound(max_bound(a, b), c), d);
        Interval::new(low, high)
    }
}

impl DivSpecImpl for Interval {
    open spec fn obeys_div_spec() -> bool {
        false
    }

    open spec fn div_req(self, rhs: Interval) -> bool {
        rhs@.0 != Ext::Fin(0) && rhs@.1 != Ext::Fin(0)
    }

    open spec fn div_spec(self, rhs: Interval) -> Interval {
        arbitrary()
    }
}

impl BitAnd for Interval {
    type Output = Self;

    fn bitand(self, rhs: Self) -> (r: Self::Output)
        ensures
            bitand_post(self@, rhs@, r@),
    {
        if self.is_bottom() || rhs.is_bottom() {
            Self::bottom()
        } else if self.is_top() || rhs.is_top() {
            Self::top()
        } else if self.is_zero() || rhs.is_zero() {
            Self::new(Bound::from(0u128), Bound::from(0u128))
        } else if self.all_ones() {
            rhs
        } else if rhs.all_ones() {
            self
        } else if let (Ok(lval), Ok(rval)) = (BigInt::try_from(self), BigInt::try_from(rhs)) {
            let val = integer_and(&lval, &rval);
            Self::new(Bound::from(val.clone()), Bound::from(val))
        } else {
            Self::top()
        }
    }
}

impl BitAndSpecImpl for Interval {
    open spec fn obeys_bitand_spec() -> bool {
        false
    }

    open spec fn bitand_req(self, rhs: Interval) -> bool {
        true
    }

    open spec fn bitand_spec(self, rhs: Interval) -> Interval {
        arbitrary()
    }
}

impl BitOr for Interval {
    type Output = Self;

    fn bitor(self, rhs: Self) -> (r: Self::Output)
        ensures
            bitor_post(self@, rhs@, r@),
    {
        if self.is_bottom() || rhs.is_bottom() {
            Self::bottom()
        } else if self.is_top() || rhs.is_top() {
            Self::top()
        } else if self.all_ones() || rhs.all_ones() {
            Self::new(Bound::from(-1i128), Bound::from(-1i128))
        } else if self.is_zero() {
            rhs
        } else if rhs.is_zero() {
            self
        } else if let (Ok(lval), Ok(rval)) = (BigInt::try_from(self), BigInt::try_from(rhs)) {
            let val = integer_or(&lval, &rval);
            Self::new(Bound::from(val.clone()), Bound::from(val))
        } else {
            Self::top()
        }
    }
}

impl BitOrSpecImpl for Interval {
    open spec fn obeys_bitor_spec() -> bool {
        false
    }

    open spec fn bitor_req(self, rhs: Interval) -> bool {
        true
    }

    open spec fn bitor_spec(self, rhs: Interval) -> Interval {
        arbitrary()
    }
}

impl BitXor for Interval {
    type Output = Self;

    fn bitxor(self, rhs: Self) -> (r: Self::Output)
        ensures
            bitxor_post(self@, rhs@, r@),
    {
        if self.is_bottom() || rhs.is_bottom() {
            Self::bottom()
        } else if self.is_top() || rhs.is_top() {
            Self::top()
        } else if self.is_zero() {
            rhs
        } else if rhs.is_zero() {
            self
        } else if let (Ok(lval), Ok(rval)) = (BigInt::try_from(self), BigInt::try_from(rhs)) {
            let val = integer_xor(&lval, &rval);
            Self::new(Bound::from(val.clone()), Bound::from(val))
        } else {
            Self::top()
        }
    }
}

impl BitXorSpecImpl for Interval {
    open spec fn obeys_bitxor_spec() -> bool {
        false
    }

    open spec fn bitxor_req(self, rhs: Interval) -> bool {
        true
    }

    open spec fn bitxor_spec(self, rhs: Interval) -> Interval {
        arbitrary()
    }
}

impl Shl for Interval {
    type Output = Self;

    fn shl(self, rhs: Self) -> (r: Self::Output)
        ensures
            shl_post(self@, rhs@, r@),
    {
        if self.is_bottom() || rhs.is_bottom() {
            Self::bottom()
        } else if self.is_top() || rhs.is_top() {
            Self::top()
        } else if let (Ok(lval), Ok(rval)) = (BigInt::try_from(self), BigInt::try_from(rhs)) {
            if let Some(u32val) = integer_to_u32(&rval) {
                let val = integer_shl(&lval, u32val);
                Self::new(Bound::from(val.clone()), Bound::from(val))
            } else {
                Self::top()
            }
        } else {
            Self::top()
        }
    }
}

impl ShlSpecImpl for Interval {
    open spec fn obeys_shl_spec() -> bool {
        false
    }

    open spec fn shl_req(self, rhs: Interval) -> bool {
        true
    }

    open spec fn shl_spec(self, rhs: Interval) -> Interval {
        arbitrary()
    }
}

impl Shr for Interval {
    type Output = Self;

    fn shr(self, rhs: Self) -> (r: Self::Output)
        ensures
            shr_post(self@, rhs@, r@),
    {
        if self.is_bottom() || rhs.is_bottom() {
            Self::bottom()
        } else if self.is_top() || rhs.is_top() {
            Self::top()
        } else if let (Ok(lval), Ok(rval)) = (BigInt::try_from(self), BigInt::try_from(rhs)) {
            if let Some(u32val) = integer_to_u32(&rval) {
                let val = integer_shr(&lval, u32val);
                Self::new(Bound::from(val.clone()), Bound::from(val))
            } else {
                Self::top()
            }
        } else {
            Self::top()
        }
    }
}

impl ShrSpecImpl for Interval {
    open spec fn obeys_shr_spec() -> bool {
        false
    }

    open spec fn shr_req(self, rhs: Interval) -> bool {
        true
    }

    open spec fn shr_spec(self, rhs: Interval) -> Interval {
        arbitrary()
    }
}


/// The text of an interval: `⊥` for bottom, else `[low, high]`.
pub open spec fn interval_text(v: (Ext, Ext)) -> Seq<char> {
    if iv_is_bottom(v) {
        "⊥"@
    } else {
        "["@ + bound_text(v.0) + ", "@ + bound_text(v.1) + "]"@
    }
}

impl Interval {
    /// The rendering that the debug formatter of an interval writes.
    pub fn to_debug_string(&self) -> (r: String)
        ensures
            r@ == interval_text(self@),
    {
        if self.is_bottom() {
            String::from_str("⊥")
        } else {
            let mut s = String::from_str("[");
            let low = self.low.to_debug_string();
            let high = self.high.to_debug_string();
            s.append(low.as_str());
            s.append(", ");
            s.append(high.as_str());
            s.append("]");
            s
        }
    }
}

} // verus!
