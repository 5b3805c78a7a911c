//! Human-readable byte counts, and a byte total that may be an underestimate.

use vstd::prelude::*;
use vstd::arithmetic::div_mod::{lemma_div_denominator, lemma_fundamental_div_mod};

use crate::text::{decimal, digit_char, push_decimal};

verus! {

/// `2^k`.
pub open spec fn power_of_two(k: nat) -> nat
    decreases k,
{
    if k == 0 {
        1
    } else {
        2 * power_of_two((k - 1) as nat)
    }
}

/// The smallest power of two above which an `f64` can no longer hold every
/// integer exactly (`2^53`).
pub open spec fn f64_exact_limit() -> nat {
    0x20_0000_0000_0000
}

/// How many low bits of `n` an `f64` cannot represent: `n` needs
/// `53 + float_shift(n)` bits when it is at least `2^53`.
pub open spec fn float_shift(n: nat) -> nat
    decreases n,
{
    if n < f64_exact_limit() {
        0
    } else {
        1 + float_shift(n / 2)
    }
}

/// `a / d` rounded to the nearest integer, ties to the even neighbour.
pub open spec fn round_half_even(a: nat, d: nat) -> nat
    recommends
        d > 0,
{
    let q = a / d;
    let r = a % d;
    if 2 * r > d || (2 * r == d && q % 2 == 1) {
        q + 1
    } else {
        q
    }
}

/// The value of `n as f64`: `n` rounded to 53 significant bits, ties to even.
pub open spec fn as_f64(n: nat) -> nat {
    let p = power_of_two(float_shift(n));
    round_half_even(n, p) * p
}

/// The unit index (1 = KB, 2 = MB, 3 = GB, 4 = TB) a value of at least 1024
/// bytes is shown in: the largest unit, up to TB, in which it is at least 1.
pub open spec fn unit_for(v: nat) -> nat {
    if v < 1024 * 1024 {
        1
    } else if v < 1024 * 1024 * 1024 {
        2
    } else if v < 1024 * 1024 * 1024 * 1024 {
        3
    } else {
        4
    }
}

/// The number of bytes in unit `u`.
pub open spec fn unit_bytes(u: nat) -> nat {
    if u == 1 {
        1024
    } else if u == 2 {
        1024 * 1024
    } else if u == 3 {
        1024 * 1024 * 1024
    } else {
        1024 * 1024 * 1024 * 1024
    }
}

/// The suffix naming unit `u`.
pub open spec fn unit_name(u: nat) -> Seq<char> {
    if u == 1 {
        seq![' ', 'K', 'B']
    } else if u == 2 {
        seq![' ', 'M', 'B']
    } else if u == 3 {
        seq![' ', 'G', 'B']
    } else {
        seq![' ', 'T', 'B']
    }
}

/// The text for `bytes`: whole bytes below 1 KB (`"512 B"`); otherwise the
/// count as a floating-point number of the largest unit up to TB, with one
/// decimal rounded half to even (`"1.5 KB"`, `"5.0 GB"`).
pub open spec fn size_text(bytes: nat) -> Seq<char> {
    if bytes < 1024 {
        decimal(bytes) + seq![' ', 'B']
    } else {
        let v = as_f64(bytes);
        let u = unit_for(v);
        let tenths = round_half_even(10 * v, unit_bytes(u));
        decimal(tenths / 10) + seq!['.', digit_char(tenths % 10)] + unit_name(u)
    }
}

/// `bytes as f64`, as an exact integer.
fn float_value(bytes: u64) -> (v: u128)
    requires
        bytes >= 1,
    ensures
        v == as_f64(bytes as nat),
        v <= 2 * (bytes as nat),
{
    let n: u128 = bytes as u128;
    let mut m: u128 = n;
    let mut p: u128 = 1;
    let ghost k: nat = 0;
    while m >= 0x20_0000_0000_0000
        invariant
            p == power_of_two(k),
            p > 0,
            m == n / p,
            p <= n,
            n < 0x1_0000_0000_0000_0000,
            float_shift(n as nat) == k + float_shift(m as nat),
        decreases m,
    {
        proof {
            lemma_div_denominator(n as int, p as int, 2);
            assert(float_shift(m as nat) == 1 + float_shift((m / 2) as nat));
            let ni = n as int;
            let pi = (p * 2) as int;
            assert(m / 2 >= 1);
            assert(ni / pi >= 1);
            if pi > ni {
                assert(ni / pi == 0) by (nonlinear_arith)
                    requires
                        pi > ni,
                        ni >= 0,
                ;
            }
        }
        m = m / 2;
        p = p * 2;
        proof {
            k = k + 1;
        }
    }
    let r = n % p;
    proof {
        lemma_fundamental_div_mod(n as int, p as int);
        assert(n == p * m + r);
    }
    let q = if 2 * r > p || (2 * r == p && m % 2 == 1) {
        m + 1
    } else {
        m
    };
    proof {
        assert(q * p <= 2 * n) by (nonlinear_arith)
            requires
                n == p * m + r,
                r < p,
                p <= n,
                q == m || q == m + 1,
        ;
    }
    q * p
}

/// Render a byte count as a short human-readable string: whole bytes below
/// 1 KB, one decimal place above (e.g. `"1.5 KB"`, `"124.0 MB"`).
pub fn format_size(bytes: u64) -> (r: String)
    ensures
        r@ == size_text(bytes as nat),
{
    let mut s = String::new();
    if bytes < 1024 {
        push_decimal(&mut s, bytes as u128);
        proof {
            reveal_strlit(" B");
        }
        s.append(" B");
        return s;
    }
    let v = float_value(bytes);
    let (u, d): (u8, u128) = if v < 1024 * 1024 {
        (1, 1024)
    } else if v < 1024 * 1024 * 1024 {
        (2, 1024 * 1024)
    } else if v < 1024 * 1024 * 1024 * 1024 {
        (3, 1024 * 1024 * 1024)
    } else {
        (4, 1024 * 1024 * 1024 * 1024)
    };
    let a = 10 * v;
    let q = a / d;
    let rem = a % d;
    let tenths = if 2 * rem > d || (2 * rem == d && q % 2 == 1) {
        q + 1
    } else {
        q
    };
    push_decimal(&mut s, tenths / 10);
    let digit = tenths % 10;
    let mut frac = String::new();
    push_decimal(&mut frac, digit);
    proof {
        reveal_strlit(".");
        assert(decimal(digit as nat) == seq![digit_char(digit as nat)]);
    }
    s.append(".");
    s.append(frac.as_str());
    if u == 1 {
        proof {
            reveal_strlit(" KB");
        }
        s.append(" KB");
    } else if u == 2 {
        proof {
            reveal_strlit(" MB");
        }
        s.append(" MB");
    } else if u == 3 {
        proof {
            reveal_strlit(" GB");
        }
        s.append(" GB");
    } else {
        proof {
            reveal_strlit(" TB");
        }
        s.append(" TB");
    }
    assert(s@ =~= size_text(bytes as nat));
    s
}

/// A byte total that may be an underestimate: sizes are computed in the
/// background, so a worktree can be acted on before its size is known. Such a
/// contributor is recorded in `partial` rather than silently counted as 0.
#[derive(Debug, Clone, Copy, PartialEq, Eq, Structural)]
pub struct Amount {
    known: u64,
    partial: bool,
}

impl Default for Amount {
    fn default() -> (r: Self)
        ensures
            r.known() == 0,
            !r.is_partial(),
    {
        Amount { known: 0, partial: false }
    }
}

impl Amount {
    /// The bytes counted so far.
    pub closed spec fn known(self) -> nat {
        self.known as nat
    }

    /// Whether some contributor's size was not known.
    pub closed spec fn is_partial(self) -> bool {
        self.partial
    }

    /// An amount of `known` bytes, flagged partial or not.
    pub fn new(known: u64, partial: bool) -> (r: Self)
        ensures
            r.known() == known,
            r.is_partial() == partial,
    {
        Amount { known, partial }
    }

    /// Add `bytes` to the total (saturating at `u64::MAX`), or, given `None`,
    /// mark the total as an underestimate.
    pub fn add(&mut self, bytes: Option<u64>)
        ensures
            match bytes {
                Some(b) => {
                    &&& final(self).known() == if old(self).known() + b > u64::MAX {
                        u64::MAX as nat
                    } else {
                        (old(self).known() + b) as nat
                    }
                    &&& final(self).is_partial() == old(self).is_partial()
                },
                None => {
                    &&& final(self).known() == old(self).known()
                    &&& final(self).is_partial()
                },
            },
    {
        match bytes {
            Some(b) => self.known = self.known.saturating_add(b),
            None => self.partial = true,
        }
    }

    /// The bytes counted so far.
    pub fn known_bytes(&self) -> (r: u64)
        ensures
            r == self.known(),
    {
        self.known
    }

    /// Whether some contributor's size was not known.
    pub fn partial(&self) -> (r: bool)
        ensures
            r == self.is_partial(),
    {
        self.partial
    }

    /// Human-readable total, prefixed `">= "` when partial; `None` when
    /// there is nothing to report (no bytes and nothing pending).
    pub fn label(self) -> (r: Option<String>)
        ensures
            (self.known() == 0 && !self.is_partial()) <==> r is None,
            r matches Some(t) ==> t@ == amount_text(self.known(), self.is_partial()),
    {
        if self.known == 0 && !self.partial {
            return None;
        }
        let mut s = String::new();
        if self.partial {
            proof {
                reveal_strlit(">= ");
            }
            s.append(">= ");
        }
        let size = format_size(self.known);
        s.append(size.as_str());
        proof {
            reveal_strlit(">= ");
        }
        assert(s@ =~= amount_text(self.known(), self.is_partial()));
        Some(s)
    }
}

/// The text for a total of `known` bytes, `">= "`-prefixed when partial.
pub open spec fn amount_text(known: nat, partial: bool) -> Seq<char> {
    if partial {
        seq!['>', '=', ' '] + size_text(known)
    } else {
        size_text(known)
    }
}

} // verus!
