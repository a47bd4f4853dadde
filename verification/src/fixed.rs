//! Exact fixed-point values for the 12-column numeric fields.
//!
//! Every fractional field of the wire format is written with exactly four
//! decimal places, so a value is represented losslessly by a sign and its
//! magnitude in ten-thousandths. The sign is kept even for a zero magnitude,
//! so that a `-0.0000` field survives a round trip unchanged.
use vstd::prelude::*;

use crate::text::dec_rep;
use crate::text::find_dot;
use crate::text::is_digit;
use crate::text::lemma_dec_rep_digits;
use crate::text::lemma_dec_rep_len;
use crate::text::lemma_dec_rep_val;
use crate::text::lemma_digit_chars;
use crate::text::lemma_find_dot_at;
use crate::text::lemma_find_dot_none;
use crate::text::lemma_pad_zero_val;
use crate::text::lemma_pow10_values;
use crate::text::lemma_uint_val_bound;
use crate::text::pad_zero;
use crate::text::pad_zero_str;
use crate::text::pow10;
use crate::text::uint_of;
use crate::text::uint_val;
use crate::text::dec_str;

verus! {

/// A signed decimal number with exactly four fractional digits: the value is
/// `scaled / 10000`, negated when `neg` is set.
#[derive(Clone, Copy, Debug, PartialEq, Eq, Structural)]
pub struct Fixed {
    /// Whether the field carries a leading minus sign.
    pub neg: bool,
    /// The magnitude in ten-thousandths.
    pub scaled: u64,
}

impl Fixed {
    /// A value from its sign and its magnitude in ten-thousandths.
    pub fn new(neg: bool, scaled: u64) -> (r: Fixed)
        ensures
            r == (Fixed { neg, scaled }),
    {
        Fixed { neg, scaled }
    }

    /// The digit text of the value: optional sign, integer part, dot, and
    /// exactly four fractional digits.
    pub open spec fn digits(self) -> Seq<char> {
        let sign: Seq<char> = if self.neg {
            seq!['-']
        } else {
            Seq::empty()
        };
        sign + dec_rep(self.scaled as int / 10000) + seq!['.'] + pad_zero(
            dec_rep(self.scaled as int % 10000),
            4,
        )
    }

    /// Whether the digit text fits a field of `w` characters.
    pub open spec fn fits(self, w: int) -> bool {
        self.digits().len() <= w
    }
}

/// The value of a trimmed numeric field text: an optional minus sign, one or
/// more integer digits, and optionally a dot followed by one to four
/// fractional digits. Defined exactly when the text has that shape.
pub open spec fn fixed_of(t: Seq<char>) -> Option<Fixed> {
    let neg = t.len() > 0 && t[0] == '-';
    let u = if neg {
        t.drop_first()
    } else {
        t
    };
    let dp = find_dot(u);
    let ip = u.subrange(0, dp);
    if dp == u.len() {
        match uint_of(ip) {
            Some(v) => if v * 10000 <= u64::MAX {
                Some(Fixed { neg, scaled: (v * 10000) as u64 })
            } else {
                None
            },
            None => None,
        }
    } else {
        let fp = u.subrange(dp + 1, u.len() as int);
        if 1 <= fp.len() <= 4 {
            match (uint_of(ip), uint_of(fp)) {
                (Some(v), Some(f)) => {
                    let sc = v * 10000 + f * pow10(4 - fp.len());
                    if sc <= u64::MAX {
                        Some(Fixed { neg, scaled: sc as u64 })
                    } else {
                        None
                    }
                },
                _ => None,
            }
        } else {
            None
        }
    }
}

/// The digit text of a value, as a string.
pub fn fixed_str(f: &Fixed) -> (r: String)
    ensures
        r@ == f.digits(),
{
    let mut out = String::new();
    if f.neg {
        out.append("-");
        proof {
            reveal_strlit("-");
        }
    }
    let ip = dec_str(f.scaled / 10000);
    out.append(ip.as_str());
    out.append(".");
    let fp = pad_zero_str(dec_str(f.scaled % 10000), 4);
    out.append(fp.as_str());
    proof {
        reveal_strlit(".");
        assert(out@ =~= f.digits());
    }
    out
}

/// Read a numeric field from trimmed text.
pub fn parse_fixed_str(t: &str) -> (r: Option<Fixed>)
    requires
        t@.len() <= 12,
    ensures
        r == fixed_of(t@),
{
    let n = t.unicode_len();
    let neg = n > 0 && t.get_char(0) == '-';
    let start: usize = if neg {
        1
    } else {
        0
    };
    let ghost u: Seq<char> = if neg {
        t@.drop_first()
    } else {
        t@
    };
    proof {
        if neg {
            assert(u =~= t@.subrange(1, n as int));
        } else {
            assert(u =~= t@.subrange(0, n as int));
        }
    }
    // Find the first dot of the unsigned text.
    let mut j: usize = 0;
    while start + j < n && t.get_char(start + j) != '.'
        invariant
            start <= 1,
            neg ==> start == 1,
            n == t@.len() <= 12,
            start + j <= n,
            u == t@.subrange(start as int, n as int),
            u.len() == n - start,
            forall|k: int| 0 <= k < j ==> u[k] != '.',
        decreases n - start - j,
    {
        proof {
            assert(u[j as int] == t@[start + j]);
        }
        j = j + 1;
    }
    let ulen = n - start;
    proof {
        if j < ulen {
            assert(u[j as int] == t@[start + j]);
            lemma_find_dot_at(u, j as int);
        } else {
            lemma_find_dot_none(u);
        }
    }
    let ipstr = t.substring_char(start, start + j);
    proof {
        assert(ipstr@ =~= u.subrange(0, j as int));
    }
    let iv = match crate::text::parse_uint_str(ipstr) {
        Some(v) => v,
        None => {
            return None;
        },
    };
    proof {
        lemma_uint_val_bound(ipstr@);
        crate::text::lemma_pow10_mono(ipstr@.len() as int, 12);
        lemma_pow10_values();
    }
    if j == ulen {
        // No dot: a whole number of units.
        let scaled = iv * 10000;
        Some(Fixed { neg, scaled })
    } else {
        let flen = ulen - j - 1;
        if flen < 1 || flen > 4 {
            return None;
        }
        let fpstr = t.substring_char(start + j + 1, n);
        proof {
            assert(fpstr@ =~= u.subrange(j + 1, ulen as int));
        }
        let fv = match crate::text::parse_uint_str(fpstr) {
            Some(v) => v,
            None => {
                return None;
            },
        };
        let mult: u64 = if flen == 1 {
            1000
        } else if flen == 2 {
            100
        } else if flen == 3 {
            10
        } else {
            1
        };
        proof {
            lemma_uint_val_bound(fpstr@);
            crate::text::lemma_pow10_prod(flen as int, 4 - flen as int);
            crate::text::lemma_pow10_pos(4 - flen as int);
            assert(mult == pow10(4 - flen as int));
            assert(uint_val(fpstr@) * pow10(4 - flen as int) < pow10(4)) by (nonlinear_arith)
                requires
                    uint_val(fpstr@) < pow10(flen as int),
                    pow10(flen as int) * pow10(4 - flen as int) == pow10(4),
                    pow10(4 - flen as int) >= 1,
                    uint_val(fpstr@) >= 0,
                    fpstr@.len() == flen as int,
            ;
        }
        let scaled = iv * 10000 + fv * mult;
        Some(Fixed { neg, scaled })
    }
}

/// The digit text of a value never carries spaces at either end, always has
/// a sign-or-digit first and a digit last, and is at least six characters.
pub proof fn lemma_fixed_digits_shape(f: Fixed)
    ensures
        f.digits().len() >= 6,
        !crate::text::is_space(f.digits()[0]),
        !crate::text::is_space(f.digits().last()),
        f.neg ==> f.digits()[0] == '-',
        !f.neg ==> is_digit(f.digits()[0]),
{
    let q = f.scaled as int / 10000;
    let m = f.scaled as int % 10000;
    lemma_dec_rep_digits(q);
    lemma_dec_rep_digits(m);
    lemma_pad_zero_val(dec_rep(m), 4);
    lemma_dec_rep_len(m, 4);
    lemma_pow10_values();
    let frac = pad_zero(dec_rep(m), 4);
    assert(frac.len() == 4);
    assert(is_digit(frac.last()));
    lemma_digit_chars(frac.last());
    if f.neg {
        assert(f.digits()[0] == '-');
    } else {
        assert(f.digits()[0] == dec_rep(q)[0]);
        lemma_digit_chars(dec_rep(q)[0]);
    }
    assert(f.digits().last() == frac.last());
}

/// Reading back the digit text of a value gives the value: the numeric
/// round-trip at the heart of the codec's round-trip law.
pub proof fn lemma_fixed_round_trip(f: Fixed)
    ensures
        fixed_of(f.digits()) == Some(f),
{
    let q = f.scaled as int / 10000;
    let m = f.scaled as int % 10000;
    lemma_dec_rep_digits(q);
    lemma_dec_rep_digits(m);
    lemma_dec_rep_val(q);
    lemma_dec_rep_val(m);
    lemma_pad_zero_val(dec_rep(m), 4);
    lemma_dec_rep_len(m, 4);
    lemma_pow10_values();
    let frac = pad_zero(dec_rep(m), 4);
    assert(frac.len() == 4);
    assert(uint_val(frac) == m);
    let t = f.digits();
    let u = dec_rep(q) + seq!['.'] + frac;
    if f.neg {
        assert(t[0] == '-');
        assert(t.drop_first() =~= u);
    } else {
        lemma_digit_chars(dec_rep(q)[0]);
        assert(t[0] != '-');
        assert(t =~= u);
    }
    // The first dot of the unsigned text is right after the integer part.
    let dlen = dec_rep(q).len() as int;
    assert forall|k: int| 0 <= k < dlen implies u[k] != '.' by {
        assert(u[k] == dec_rep(q)[k]);
        lemma_digit_chars(dec_rep(q)[k]);
    }
    assert(u[dlen] == '.');
    lemma_find_dot_at(u, dlen);
    assert(u.subrange(0, dlen) =~= dec_rep(q));
    assert(u.subrange(dlen + 1, u.len() as int) =~= frac);
    assert(uint_of(dec_rep(q)) == Some(q));
    assert(uint_of(frac) == Some(m));
    assert(q * 10000 + m * pow10(0) == f.scaled as int);
}

} // verus!
