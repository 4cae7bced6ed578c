//! A span of time with nanosecond resolution.

use crate::text::{decimal, decimal_padded, push_decimal, push_decimal_padded};
use vstd::prelude::*;

verus! {

/// Nanoseconds in one second.
pub const NANOS_PER_SEC: u32 = 1_000_000_000;

/// Nanoseconds in one millisecond.
pub const NANOS_PER_MILLI: u32 = 1_000_000;

/// The largest number of nanoseconds a `Duration` can hold.
pub open spec fn max_duration_nanos() -> nat {
    (u64::MAX as nat) * (NANOS_PER_SEC as nat) + (NANOS_PER_SEC as nat - 1) as nat
}

/// `digits` without the zeros at its end.
pub open spec fn trim_trailing_zeros(digits: Seq<char>) -> Seq<char>
    decreases digits.len(),
{
    if digits.len() > 0 && digits.last() == '0' {
        trim_trailing_zeros(digits.drop_last())
    } else {
        digits
    }
}

/// `whole` in decimal, followed, unless `frac` is zero, by a point and the
/// `width` digits of `frac` without the zeros at their end.
pub open spec fn decimal_fraction(whole: nat, frac: nat, width: nat) -> Seq<char> {
    if frac == 0 {
        decimal(whole)
    } else {
        decimal(whole) + seq!['.'] + trim_trailing_zeros(decimal_padded(frac, width))
    }
}

/// A duration of `nanos` nanoseconds in the largest unit of `s`, `ms`,
/// `\u{b5}s` and `ns` that it fills at least once, with as many decimal
/// places as it needs: `1.5s`, `150ms`, `2.25\u{b5}s`, `100ns`.
pub open spec fn duration_text(nanos: nat) -> Seq<char> {
    if nanos >= 1_000_000_000 {
        decimal_fraction(nanos / 1_000_000_000, nanos % 1_000_000_000, 9) + "s"@
    } else if nanos >= 1_000_000 {
        decimal_fraction(nanos / 1_000_000, nanos % 1_000_000, 6) + "ms"@
    } else if nanos >= 1_000 {
        decimal_fraction(nanos / 1_000, nanos % 1_000, 3) + "\u{b5}s"@
    } else {
        decimal(nanos) + "ns"@
    }
}

/// Appends `whole`, and unless `frac` is zero a point and the `width`
/// digits of `frac` without the zeros at their end.
fn push_decimal_fraction(s: &mut String, whole: u128, frac: u128, width: usize)
    ensures
        final(s)@ == old(s)@ + decimal_fraction(whole as nat, frac as nat, width as nat),
{
    push_decimal(s, whole);
    if frac != 0 {
        s.push('.');
        let mut f: u128 = frac;
        let mut w: usize = width;
        while w > 0 && f % 10 == 0
            invariant
                trim_trailing_zeros(decimal_padded(frac as nat, width as nat))
                    == trim_trailing_zeros(decimal_padded(f as nat, w as nat)),
            decreases w,
        {
            assert(decimal_padded(f as nat, w as nat).drop_last() =~= decimal_padded(
                (f / 10) as nat,
                (w - 1) as nat,
            ));
            f = f / 10;
            w = w - 1;
        }
        assert(trim_trailing_zeros(decimal_padded(f as nat, w as nat)) == decimal_padded(
            f as nat,
            w as nat,
        )) by {
            if w > 0 {
                assert(decimal_padded(f as nat, w as nat).last() != '0');
            }
        }
        push_decimal_padded(s, f, w);
        assert(s@ =~= old(s)@ + decimal_fraction(whole as nat, frac as nat, width as nat));
    }
}

/// A span of time: whole seconds plus a sub-second part below one second.
///
/// The view of a duration is its length in nanoseconds.
#[derive(Clone, Copy, Debug, PartialEq, Eq, Structural)]
pub struct Duration {
    secs: u64,
    nanos: u32,
}

impl View for Duration {
    type V = nat;

    closed spec fn view(&self) -> nat {
        (self.secs as nat) * (NANOS_PER_SEC as nat) + (self.nanos as nat)
    }
}

impl Duration {
    #[verifier::type_invariant]
    spec fn well_formed(self) -> bool {
        self.nanos < NANOS_PER_SEC
    }

    /// A duration of `secs` seconds and `nanos` nanoseconds. Nanoseconds
    /// beyond one second carry over into the seconds.
    pub fn new(secs: u64, nanos: u32) -> (d: Duration)
        requires
            secs + nanos / NANOS_PER_SEC <= u64::MAX,
        ensures
            d@ == secs as nat * NANOS_PER_SEC as nat + nanos as nat,
    {
        let carry: u32 = nanos / NANOS_PER_SEC;
        let rest: u32 = nanos % NANOS_PER_SEC;
        let d = Duration { secs: secs + carry as u64, nanos: rest };
        assert(d@ == secs as nat * NANOS_PER_SEC as nat + nanos as nat) by (nonlinear_arith)
            requires
                d@ == (secs + carry) as nat * NANOS_PER_SEC as nat + rest as nat,
                carry == nanos / NANOS_PER_SEC,
                rest == nanos % NANOS_PER_SEC,
        ;
        d
    }

    /// The duration of `nanos` nanoseconds.
    pub fn from_nanos(nanos: u128) -> (d: Duration)
        requires
            nanos <= max_duration_nanos(),
        ensures
            d@ == nanos,
    {
        let secs: u128 = nanos / (NANOS_PER_SEC as u128);
        let rest: u128 = nanos % (NANOS_PER_SEC as u128);
        assert(secs <= u64::MAX) by (nonlinear_arith)
            requires
                secs == nanos / (NANOS_PER_SEC as u128),
                nanos <= (u64::MAX as nat) * (NANOS_PER_SEC as nat) + (NANOS_PER_SEC as nat - 1),
        ;
        let d = Duration { secs: secs as u64, nanos: rest as u32 };
        assert(d@ == nanos) by (nonlinear_arith)
            requires
                d@ == (secs as nat) * (NANOS_PER_SEC as nat) + (rest as nat),
                secs == nanos / (NANOS_PER_SEC as u128),
                rest == nanos % (NANOS_PER_SEC as u128),
        ;
        d
    }

    /// The whole length in nanoseconds.
    pub fn as_nanos(&self) -> (n: u128)
        ensures
            n == self@,
            n <= max_duration_nanos(),
    {
        proof {
            use_type_invariant(self);
        }
        assert((self.secs as nat) * (NANOS_PER_SEC as nat) <= (u64::MAX as nat) * (
        NANOS_PER_SEC as nat)) by (nonlinear_arith)
            requires
                self.secs <= u64::MAX,
        ;
        (self.secs as u128) * (NANOS_PER_SEC as u128) + (self.nanos as u128)
    }

    /// The whole seconds of the length.
    pub fn as_secs(&self) -> (secs: u64)
        ensures
            secs == self@ / (NANOS_PER_SEC as nat),
    {
        proof {
            use_type_invariant(self);
            assert(((self.secs as nat) * (NANOS_PER_SEC as nat) + (self.nanos as nat)) / (
            NANOS_PER_SEC as nat) == self.secs as nat) by (nonlinear_arith)
                requires
                    self.nanos < NANOS_PER_SEC,
            ;
        }
        self.secs
    }

    /// The whole length in milliseconds, rounded down.
    pub fn as_millis(&self) -> (n: u128)
        ensures
            n == self@ / (NANOS_PER_MILLI as nat),
    {
        let n = self.as_nanos();
        n / (NANOS_PER_MILLI as u128)
    }

    /// This duration in the largest unit that it fills at least once.
    pub fn to_text(&self) -> (s: String)
        ensures
            s@ == duration_text(self@),
    {
        let nanos = self.as_nanos();
        let mut s = String::new();
        if nanos >= 1_000_000_000 {
            push_decimal_fraction(&mut s, nanos / 1_000_000_000, nanos % 1_000_000_000, 9);
            s.push('s');
            proof {
                reveal_strlit("s");
            }
            assert(s@ =~= duration_text(self@));
        } else if nanos >= 1_000_000 {
            push_decimal_fraction(&mut s, nanos / 1_000_000, nanos % 1_000_000, 6);
            s.push('m');
            s.push('s');
            proof {
                reveal_strlit("ms");
            }
            assert(s@ =~= duration_text(self@));
        } else if nanos >= 1_000 {
            push_decimal_fraction(&mut s, nanos / 1_000, nanos % 1_000, 3);
            s.push('\u{b5}');
            s.push('s');
            proof {
                reveal_strlit("\u{b5}s");
            }
            assert(s@ =~= duration_text(self@));
        } else {
            push_decimal(&mut s, nanos);
            s.push('n');
            s.push('s');
            proof {
                reveal_strlit("ns");
            }
            assert(s@ =~= duration_text(self@));
        }
        s
    }

    /// The part below one second, in nanoseconds.
    pub fn subsec_nanos(&self) -> (n: u32)
        ensures
            n == self@ % (NANOS_PER_SEC as nat),
    {
        proof {
            use_type_invariant(self);
            assert(((self.secs as nat) * (NANOS_PER_SEC as nat) + (self.nanos as nat)) % (
            NANOS_PER_SEC as nat) == self.nanos as nat) by (nonlinear_arith)
                requires
                    self.nanos < NANOS_PER_SEC,
            ;
        }
        self.nanos
    }
}

} // verus!
