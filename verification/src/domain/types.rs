//! Amounts of money as whole numbers of their smallest unit.

use crate::text::{decimal, decimal_text};
use vstd::prelude::*;

verus! {

/// An amount in Nigerian kobo; one naira is a hundred kobo.
#[derive(Debug, Clone, Copy, PartialEq, Eq, PartialOrd, Ord, Structural)]
pub struct Kobo(pub i64);

/// An amount in satoshis; one bitcoin is a hundred million satoshis.
#[derive(Debug, Clone, Copy, PartialEq, Eq, PartialOrd, Ord, Structural)]
pub struct Sats(pub i64);

/// The signed 64-bit integer with the bits of `value`.
pub open spec fn reinterpreted(value: u64) -> int {
    if value <= i64::MAX {
        value as int
    } else {
        value - 0x1_0000_0000_0000_0000
    }
}

/// `value` divided by `divisor`, rounded towards zero.
pub open spec fn truncated_quotient(value: int, divisor: int) -> int {
    if value >= 0 {
        value / divisor
    } else {
        -((-value) / divisor)
    }
}

/// The signed 64-bit integer with the bits of `value`.
pub fn reinterpret(value: u64) -> (r: i64)
    ensures
        r == reinterpreted(value),
{
    if value <= 0x7fff_ffff_ffff_ffffu64 {
        value as i64
    } else {
        let magnitude: u64 = (u64::MAX - value) + 1;
        if magnitude == 0x8000_0000_0000_0000u64 {
            i64::MIN
        } else {
            -(magnitude as i64)
        }
    }
}

/// `value` divided by the positive `divisor`, rounded towards zero.
pub fn divide_truncating(value: i64, divisor: i64) -> (r: i64)
    requires
        divisor > 0,
    ensures
        r == truncated_quotient(value as int, divisor as int),
{
    if value >= 0 {
        value / divisor
    } else if value == i64::MIN {
        let magnitude: u64 = 0x8000_0000_0000_0000u64;
        let q: u64 = magnitude / (divisor as u64);
        assert(q <= magnitude) by (nonlinear_arith)
            requires
                q == magnitude / (divisor as u64),
                divisor > 0,
        ;
        if q == magnitude {
            i64::MIN
        } else {
            -(q as i64)
        }
    } else {
        let q: i64 = (-value) / divisor;
        -q
    }
}

impl Kobo {
    /// No kobo.
    pub fn zero() -> (k: Kobo)
        ensures
            k.0 == 0,
    {
        Kobo(0)
    }

    /// The amount that a payment gateway reports as an unsigned number of
    /// kobo, taken over bit for bit.
    pub fn from_reported(amount: u64) -> (k: Kobo)
        ensures
            k.0 == reinterpreted(amount),
    {
        Kobo(reinterpret(amount))
    }

    /// The amount as text: the number, then ` Kobo`.
    pub fn to_text(&self) -> (s: String)
        ensures
            s@ == decimal_text(self.0) + " Kobo"@,
    {
        let mut s = decimal(self.0);
        s.append(" Kobo");
        s
    }
}

impl Sats {
    /// No satoshis.
    pub fn zero() -> (s: Sats)
        ensures
            s.0 == 0,
    {
        Sats(0)
    }

    /// The whole satoshis in an amount of millisatoshis, which is taken
    /// over bit for bit as a signed number and divided by a thousand
    /// towards zero.
    pub fn from_msat(amount_msat: u64) -> (s: Sats)
        ensures
            s.0 == truncated_quotient(reinterpreted(amount_msat), 1000),
    {
        Sats(divide_truncating(reinterpret(amount_msat), 1000))
    }

    /// The amount as text: the number, then ` Sats`.
    pub fn to_text(&self) -> (s: String)
        ensures
            s@ == decimal_text(self.0) + " Sats"@,
    {
        let mut s = decimal(self.0);
        s.append(" Sats");
        s
    }
}

} // verus!
