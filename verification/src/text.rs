//! The mathematical model of fixed-width text fields.
//!
//! Field values travel as character sequences: a field is cut out of a line
//! at a fixed width, trimmed of surrounding spaces, and read as a decimal
//! digit string; formatting goes the other way, right-justifying a digit
//! string inside the field width. This module defines those operations on
//! `Seq<char>`, the executable functions that implement them on `String` and
//! `&str`, and the lemmas that make a formatted field parse back to the
//! value it came from.
use vstd::prelude::*;

verus! {

/// The only character that field padding and trimming treat as blank.
pub open spec fn is_space(c: char) -> bool {
    c == ' '
}

/// Decimal digit characters.
pub open spec fn is_digit(c: char) -> bool {
    '0' as u32 <= c as u32 && c as u32 <= '9' as u32
}

/// The numeric value of a digit character.
pub open spec fn digit_val(c: char) -> int {
    c as u32 - '0' as u32
}

/// The digit character for a value in `0..10`.
pub open spec fn char_of_digit(d: int) -> char {
    if d == 0 {
        '0'
    } else if d == 1 {
        '1'
    } else if d == 2 {
        '2'
    } else if d == 3 {
        '3'
    } else if d == 4 {
        '4'
    } else if d == 5 {
        '5'
    } else if d == 6 {
        '6'
    } else if d == 7 {
        '7'
    } else if d == 8 {
        '8'
    } else {
        '9'
    }
}

/// Every character of `s` is a decimal digit.
pub open spec fn all_digits(s: Seq<char>) -> bool {
    forall|i: int| 0 <= i < s.len() ==> is_digit(#[trigger] s[i])
}

/// The value of a digit string, most significant digit first.
pub open spec fn uint_val(s: Seq<char>) -> int
    decreases s.len(),
{
    if s.len() == 0 {
        0
    } else {
        uint_val(s.drop_last()) * 10 + digit_val(s.last())
    }
}

/// The value of a trimmed field text as an unsigned integer: defined exactly
/// when the text is one or more decimal digits.
pub open spec fn uint_of(s: Seq<char>) -> Option<int> {
    if s.len() > 0 && all_digits(s) {
        Some(uint_val(s))
    } else {
        None
    }
}

/// The decimal representation of a non-negative number, without sign or
/// leading zeros (`0` is written as one digit).
pub open spec fn dec_rep(n: int) -> Seq<char>
    decreases n,
{
    if n < 10 {
        seq![char_of_digit(n)]
    } else {
        dec_rep(n / 10).push(char_of_digit(n % 10))
    }
}

/// `k` copies of the character `c` (empty when `k` is negative).
pub open spec fn repeat_char(c: char, k: int) -> Seq<char> {
    Seq::new(if k >= 0 {
        k as nat
    } else {
        0
    }, |i: int| c)
}

/// Right-justify `s` in a field of `w` characters; text that is already as
/// wide as the field is kept as it is.
pub open spec fn pad_left(s: Seq<char>, w: int) -> Seq<char> {
    if s.len() >= w {
        s
    } else {
        repeat_char(' ', w - s.len()) + s
    }
}

/// Left-pad `s` with zero digits up to `w` characters.
pub open spec fn pad_zero(s: Seq<char>, w: int) -> Seq<char> {
    if s.len() >= w {
        s
    } else {
        repeat_char('0', w - s.len()) + s
    }
}

/// `s` without its leading spaces.
pub open spec fn trim_start(s: Seq<char>) -> Seq<char>
    decreases s.len(),
{
    if s.len() > 0 && is_space(s[0]) {
        trim_start(s.drop_first())
    } else {
        s
    }
}

/// `s` without its trailing spaces.
pub open spec fn trim_end(s: Seq<char>) -> Seq<char>
    decreases s.len(),
{
    if s.len() > 0 && is_space(s.last()) {
        trim_end(s.drop_last())
    } else {
        s
    }
}

/// `s` without leading and trailing spaces.
pub open spec fn spec_trim(s: Seq<char>) -> Seq<char> {
    trim_end(trim_start(s))
}

/// The index of the first dot in `s`, or its length when there is none.
pub open spec fn find_dot(s: Seq<char>) -> int
    decreases s.len(),
{
    if s.len() == 0 {
        0
    } else if s[0] == '.' {
        0
    } else {
        1 + find_dot(s.drop_first())
    }
}

/// Where the first dot is known, `find_dot` finds exactly it.
pub proof fn lemma_find_dot_at(s: Seq<char>, i: int)
    requires
        0 <= i < s.len(),
        s[i] == '.',
        forall|k: int| 0 <= k < i ==> s[k] != '.',
    ensures
        find_dot(s) == i,
    decreases i,
{
    if i > 0 {
        lemma_find_dot_at(s.drop_first(), i - 1);
    }
}

/// On dot-free text `find_dot` runs to the end.
pub proof fn lemma_find_dot_none(s: Seq<char>)
    requires
        forall|k: int| 0 <= k < s.len() ==> s[k] != '.',
    ensures
        find_dot(s) == s.len(),
    decreases s.len(),
{
    if s.len() > 0 {
        lemma_find_dot_none(s.drop_first());
    }
}

/// The first dot lies no further than the end of the text.
pub proof fn lemma_find_dot_le_len(s: Seq<char>)
    ensures
        0 <= find_dot(s) <= s.len(),
        find_dot(s) < s.len() ==> s[find_dot(s)] == '.',
        forall|k: int| 0 <= k < find_dot(s) ==> s[k] != '.',
    decreases s.len(),
{
    if s.len() > 0 && s[0] != '.' {
        lemma_find_dot_le_len(s.drop_first());
        assert forall|k: int| 0 <= k < find_dot(s) implies s[k] != '.' by {
            if k > 0 {
                assert(s[k] == s.drop_first()[k - 1]);
            }
        }
    }
}

/// Powers of ten.
pub open spec fn pow10(k: int) -> int
    decreases k,
{
    if k <= 0 {
        1
    } else {
        10 * pow10(k - 1)
    }
}

/// The powers of ten that bound the widest fields the codec reads.
pub proof fn lemma_pow10_values()
    ensures
        pow10(0) == 1,
        pow10(1) == 10,
        pow10(2) == 100,
        pow10(3) == 1000,
        pow10(4) == 10000,
        pow10(6) == 1000000,
        pow10(12) == 1000000000000,
        pow10(16) == 10000000000000000,
{
    reveal_with_fuel(pow10, 17);
}

/// Powers of ten multiply by adding exponents.
pub proof fn lemma_pow10_prod(a: int, b: int)
    requires
        a >= 0,
        b >= 0,
    ensures
        pow10(a) * pow10(b) == pow10(a + b),
    decreases a,
{
    if a == 0 {
    } else {
        lemma_pow10_prod(a - 1, b);
        assert(pow10(a) * pow10(b) == 10 * (pow10(a - 1) * pow10(b))) by (nonlinear_arith)
            requires
                pow10(a) == 10 * pow10(a - 1),
        ;
    }
}

pub proof fn lemma_pow10_pos(k: int)
    ensures
        pow10(k) >= 1,
    decreases k,
{
    if k > 0 {
        lemma_pow10_pos(k - 1);
    }
}

pub proof fn lemma_pow10_mono(i: int, j: int)
    requires
        i <= j,
    ensures
        pow10(i) <= pow10(j),
    decreases j - i,
{
    if i < j {
        lemma_pow10_mono(i, j - 1);
        lemma_pow10_pos(j - 1);
    }
}

/// Digits are not blanks nor any of the punctuation the codec cares about.
pub proof fn lemma_digit_chars(c: char)
    requires
        is_digit(c),
    ensures
        !is_space(c),
        c != '.',
        c != '-',
{
}

/// The decimal representation consists of digits only.
pub proof fn lemma_dec_rep_digits(n: int)
    requires
        n >= 0,
    ensures
        dec_rep(n).len() >= 1,
        all_digits(dec_rep(n)),
    decreases n,
{
    if n >= 10 {
        lemma_dec_rep_digits(n / 10);
    }
}

/// A digit string's value is bounded by a power of ten in its length.
pub proof fn lemma_uint_val_bound(s: Seq<char>)
    requires
        all_digits(s),
    ensures
        0 <= uint_val(s) < pow10(s.len() as int),
    decreases s.len(),
{
    if s.len() > 0 {
        lemma_uint_val_bound(s.drop_last());
    }
}

/// Reading back the decimal representation gives the number it came from.
pub proof fn lemma_dec_rep_val(n: int)
    requires
        n >= 0,
    ensures
        uint_val(dec_rep(n)) == n,
    decreases n,
{
    if n < 10 {
        assert(dec_rep(n).drop_last() =~= Seq::<char>::empty());
        assert(uint_val(Seq::<char>::empty()) == 0);
        assert(digit_val(char_of_digit(n)) == n);
    } else {
        lemma_dec_rep_val(n / 10);
        assert(dec_rep(n).drop_last() =~= dec_rep(n / 10));
        assert(digit_val(char_of_digit(n % 10)) == n % 10);
        assert(uint_val(dec_rep(n)) == (n / 10) * 10 + n % 10);
    }
}

/// The decimal representation fits in `k` digits exactly for numbers below
/// the `k`-th power of ten.
pub proof fn lemma_dec_rep_len(n: int, k: int)
    requires
        n >= 0,
        k >= 1,
    ensures
        n < pow10(k) <==> dec_rep(n).len() <= k,
    decreases n,
{
    lemma_pow10_pos(k - 1);
    if n < 10 {
        lemma_pow10_mono(1, k);
    } else if k == 1 {
        lemma_dec_rep_digits(n / 10);
    } else {
        lemma_dec_rep_len(n / 10, k - 1);
    }
}

/// Splicing digit strings multiplies the high part by a power of ten.
pub proof fn lemma_uint_val_concat(a: Seq<char>, b: Seq<char>)
    ensures
        uint_val(a + b) == uint_val(a) * pow10(b.len() as int) + uint_val(b),
    decreases b.len(),
{
    if b.len() == 0 {
        assert(a + b =~= a);
    } else {
        lemma_uint_val_concat(a, b.drop_last());
        assert((a + b).drop_last() =~= a + b.drop_last());
        assert(uint_val(a + b) == uint_val(a + b.drop_last()) * 10 + digit_val(b.last()));
        assert(uint_val(a) * pow10(b.len() - 1) * 10 == uint_val(a) * pow10(b.len() as int))
            by (nonlinear_arith)
            requires
                pow10((b.len() - 1) as int) * 10 == pow10(b.len() as int),
        ;
    }
}

/// A run of zero digits reads as zero.
pub proof fn lemma_zeros_val(k: int)
    requires
        k >= 0,
    ensures
        all_digits(repeat_char('0', k)),
        uint_val(repeat_char('0', k)) == 0,
    decreases k,
{
    if k > 0 {
        lemma_zeros_val(k - 1);
        assert(repeat_char('0', k).drop_last() =~= repeat_char('0', k - 1));
    }
}

/// Leading zero digits do not change the value of a digit string.
pub proof fn lemma_pad_zero_val(s: Seq<char>, w: int)
    requires
        all_digits(s),
    ensures
        all_digits(pad_zero(s, w)),
        uint_val(pad_zero(s, w)) == uint_val(s),
        pad_zero(s, w).len() == if s.len() >= w {
            s.len() as int
        } else {
            w
        },
    decreases w,
{
    if s.len() < w {
        lemma_zeros_val(w - s.len());
        lemma_uint_val_concat(repeat_char('0', w - s.len()), s);
        lemma_zeros_val(w - s.len());
        assert(uint_val(repeat_char('0', w - s.len())) == 0);
    }
}

/// Trimming ignores any run of leading spaces.
pub proof fn lemma_trim_start_spaces(s: Seq<char>, k: int)
    requires
        k >= 0,
    ensures
        trim_start(repeat_char(' ', k) + s) == trim_start(s),
    decreases k,
{
    if k == 0 {
        assert(repeat_char(' ', 0) + s =~= s);
    } else {
        let t = repeat_char(' ', k) + s;
        assert(t.len() > 0 && is_space(t[0]));
        assert(t.drop_first() =~= repeat_char(' ', k - 1) + s);
        lemma_trim_start_spaces(s, k - 1);
    }
}

/// A field text without surrounding spaces is left alone by trimming, and a
/// run of padding spaces in front of it is removed.
pub proof fn lemma_trim_padded(s: Seq<char>, k: int)
    requires
        k >= 0,
        s.len() > 0,
        !is_space(s[0]),
        !is_space(s.last()),
    ensures
        spec_trim(repeat_char(' ', k) + s) == s,
        spec_trim(s) == s,
        spec_trim(pad_left(s, k)) == s,
{
    lemma_trim_start_spaces(s, k);
    if s.len() < k {
        lemma_trim_start_spaces(s, k - s.len());
    }
    lemma_trim_start_spaces(s, 0);
    assert(repeat_char(' ', 0) + s =~= s);
}

/// Trimming never grows the text.
pub proof fn lemma_trim_len(s: Seq<char>)
    ensures
        trim_start(s).len() <= s.len(),
        trim_end(s).len() <= s.len(),
        spec_trim(s).len() <= s.len(),
{
    lemma_trim_start_len(s);
    lemma_trim_end_len(s);
    lemma_trim_end_len(trim_start(s));
}

proof fn lemma_trim_start_len(s: Seq<char>)
    ensures
        trim_start(s).len() <= s.len(),
    decreases s.len(),
{
    if s.len() > 0 && is_space(s[0]) {
        lemma_trim_start_len(s.drop_first());
    }
}

proof fn lemma_trim_end_len(s: Seq<char>)
    ensures
        trim_end(s).len() <= s.len(),
    decreases s.len(),
{
    if s.len() > 0 && is_space(s.last()) {
        lemma_trim_end_len(s.drop_last());
    }
}

/// The decimal digit string of a number, most significant digit first.
pub fn dec_str(n: u64) -> (r: String)
    ensures
        r@ == dec_rep(n as int),
    decreases n,
{
    let d = n % 10;
    let ds: &str = if d == 0 {
        "0"
    } else if d == 1 {
        "1"
    } else if d == 2 {
        "2"
    } else if d == 3 {
        "3"
    } else if d == 4 {
        "4"
    } else if d == 5 {
        "5"
    } else if d == 6 {
        "6"
    } else if d == 7 {
        "7"
    } else if d == 8 {
        "8"
    } else {
        "9"
    };
    proof {
        reveal_strlit("0");
        reveal_strlit("1");
        reveal_strlit("2");
        reveal_strlit("3");
        reveal_strlit("4");
        reveal_strlit("5");
        reveal_strlit("6");
        reveal_strlit("7");
        reveal_strlit("8");
        reveal_strlit("9");
        assert(ds@ =~= seq![char_of_digit(d as int)]);
    }
    if n < 10 {
        let mut out = String::new();
        out.append(ds);
        proof {
            assert(out@ =~= dec_rep(n as int));
        }
        out
    } else {
        let mut out = dec_str(n / 10);
        out.append(ds);
        proof {
            assert(out@ =~= dec_rep(n as int));
        }
        out
    }
}

/// Right-justify `s` in a field of `w` characters with spaces.
pub fn pad_left_str(s: String, w: usize) -> (r: String)
    ensures
        r@ == pad_left(s@, w as int),
{
    let n = s.as_str().unicode_len();
    if n >= w {
        return s;
    }
    let mut out = String::new();
    let mut i: usize = 0;
    proof {
        reveal_strlit(" ");
        assert(out@ =~= repeat_char(' ', 0));
    }
    while i < w - n
        invariant
            i <= w - n,
            n == s@.len(),
            n < w,
            out@ == repeat_char(' ', i as int),
        decreases w - n - i,
    {
        out.append(" ");
        proof {
            reveal_strlit(" ");
            assert(out@ =~= repeat_char(' ', i + 1));
        }
        i = i + 1;
    }
    out.append(s.as_str());
    proof {
        assert(out@ =~= pad_left(s@, w as int));
    }
    out
}

/// Left-pad `s` with zero digits up to `w` characters.
pub fn pad_zero_str(s: String, w: usize) -> (r: String)
    ensures
        r@ == pad_zero(s@, w as int),
{
    let n = s.as_str().unicode_len();
    if n >= w {
        return s;
    }
    let mut out = String::new();
    let mut i: usize = 0;
    proof {
        reveal_strlit("0");
        assert(out@ =~= repeat_char('0', 0));
    }
    while i < w - n
        invariant
            i <= w - n,
            n == s@.len(),
            n < w,
            out@ == repeat_char('0', i as int),
        decreases w - n - i,
    {
        out.append("0");
        proof {
            reveal_strlit("0");
            assert(out@ =~= repeat_char('0', i + 1));
        }
        i = i + 1;
    }
    out.append(s.as_str());
    proof {
        assert(out@ =~= pad_zero(s@, w as int));
    }
    out
}

/// The slice of `s` with surrounding spaces removed.
pub fn trim_spaces(s: &str) -> (r: &str)
    ensures
        r@ == spec_trim(s@),
{
    let n = s.unicode_len();
    let mut i: usize = 0;
    proof {
        assert(s@.subrange(0, n as int) =~= s@);
    }
    while i < n && s.get_char(i) == ' '
        invariant
            i <= n,
            n == s@.len(),
            trim_start(s@) == trim_start(s@.subrange(i as int, n as int)),
        decreases n - i,
    {
        proof {
            let t = s@.subrange(i as int, n as int);
            assert(t.drop_first() =~= s@.subrange(i + 1, n as int));
        }
        i = i + 1;
    }
    proof {
        let t = s@.subrange(i as int, n as int);
        if t.len() > 0 {
            assert(!is_space(t[0]));
        }
        assert(trim_start(s@) == t);
    }
    let mut j: usize = n;
    while j > i && s.get_char(j - 1) == ' '
        invariant
            i <= j <= n,
            n == s@.len(),
            trim_start(s@) == s@.subrange(i as int, n as int),
            trim_end(s@.subrange(i as int, n as int)) == trim_end(
                s@.subrange(i as int, j as int),
            ),
        decreases j,
    {
        proof {
            let t = s@.subrange(i as int, j as int);
            assert(t.drop_last() =~= s@.subrange(i as int, j - 1));
        }
        j = j - 1;
    }
    proof {
        let t = s@.subrange(i as int, j as int);
        if t.len() > 0 {
            assert(!is_space(t.last()));
        }
        assert(spec_trim(s@) == t);
    }
    s.substring_char(i, j)
}

/// Read an unsigned decimal integer from trimmed field text: defined exactly
/// when the text is one or more digit characters.
pub fn parse_uint_str(t: &str) -> (r: Option<u64>)
    requires
        t@.len() <= 16,
    ensures
        r is Some <==> uint_of(t@) is Some,
        r matches Some(v) ==> uint_of(t@) == Some(v as int),
{
    let n = t.unicode_len();
    if n == 0 {
        return None;
    }
    let mut acc: u64 = 0;
    let mut i: usize = 0;
    proof {
        assert(t@.subrange(0, 0) =~= Seq::<char>::empty());
        lemma_pow10_pos(0);
    }
    while i < n
        invariant
            i <= n,
            n == t@.len() <= 16,
            all_digits(t@.subrange(0, i as int)),
            acc == uint_val(t@.subrange(0, i as int)),
            acc < pow10(i as int),
        decreases n - i,
    {
        let c = t.get_char(i);
        let cv = c as u32;
        if cv < 48 || cv > 57 {
            proof {
                assert(!is_digit(t@[i as int]));
            }
            return None;
        }
        let d = (cv - 48) as u64;
        proof {
            lemma_pow10_mono(i as int, 15);
            lemma_pow10_values();
            lemma_pow10_mono(15, 16);
            let pre = t@.subrange(0, i as int);
            let s2 = t@.subrange(0, i + 1);
            assert(s2 =~= pre.push(t@[i as int]));
            assert(s2.drop_last() =~= pre);
            assert(s2.last() == t@[i as int]);
            assert(uint_val(s2) == uint_val(pre) * 10 + digit_val(t@[i as int]));
            assert(digit_val(t@[i as int]) == d);
        }
        acc = acc * 10 + d;
        i = i + 1;
    }
    proof {
        assert(t@.subrange(0, n as int) =~= t@);
    }
    Some(acc)
}

/// Character-for-character equality of two string slices.
pub fn str_eq(a: &str, b: &str) -> (r: bool)
    ensures
        r == (a@ == b@),
{
    let n = a.unicode_len();
    let m = b.unicode_len();
    if n != m {
        return false;
    }
    let mut i: usize = 0;
    while i < n
        invariant
            i <= n,
            n == a@.len() == b@.len(),
            forall|k: int| 0 <= k < i ==> a@[k] == b@[k],
        decreases n - i,
    {
        if a.get_char(i) != b.get_char(i) {
            return false;
        }
        i = i + 1;
    }
    proof {
        assert(a@ =~= b@);
    }
    true
}

} // verus!
