//! The field cursor: sequential extraction of fixed-width fields from one
//! line of text.
//!
//! A [`LineCursor`] keeps a character offset into a borrowed line. Typed
//! fields are consumed through [`Parsable`], whose specification function
//! `sparse` is the mathematical model of reading one field: every executable
//! read returns exactly what `sparse` says, so proofs about whole record
//! lines reduce to reasoning about `sparse` on character sequences.
//! [`Formattable`] is the inverse direction: appending the fixed-width text
//! of a value to an output line.
use vstd::prelude::*;

use crate::error::Error;
use crate::fixed::fixed_of;
use crate::fixed::lemma_fixed_digits_shape;
use crate::fixed::lemma_fixed_round_trip;
use crate::fixed::parse_fixed_str;
use crate::fixed::Fixed;
use crate::text::dec_rep;
use crate::text::dec_str;
use crate::text::lemma_dec_rep_digits;
use crate::text::lemma_dec_rep_val;
use crate::text::lemma_digit_chars;
use crate::text::lemma_pow10_mono;
use crate::text::lemma_pow10_values;
use crate::text::lemma_trim_len;
use crate::text::lemma_trim_padded;
use crate::text::lemma_uint_val_bound;
use crate::text::pad_left;
use crate::text::pad_left_str;
use crate::text::parse_uint_str;
use crate::text::spec_trim;
use crate::text::trim_spaces;
use crate::text::uint_of;

verus! {

/// The number of columns of an integer field.
pub const INT_WIDTH: usize = 6;

/// The number of columns of a numeric (fixed-point) field.
pub const FLOAT_WIDTH: usize = 12;

/// The exact text of a six-column integer field.
pub open spec fn uint_field(n: usize) -> Seq<char> {
    pad_left(dec_rep(n as int), 6)
}

/// The exact text of a twelve-column fixed-point field.
pub open spec fn fixed_field(f: Fixed) -> Seq<char> {
    pad_left(f.digits(), 12)
}

/// Whether a number fits a six-column integer field.
pub open spec fn fits6(n: usize) -> bool {
    dec_rep(n as int).len() <= 6
}

/// A cursor over one line of text, advancing left to right by fixed widths.
pub struct LineCursor<'a> {
    /// The line being read.
    pub line: &'a str,
    /// The current character offset.
    pub pos: usize,
}

impl<'a> LineCursor<'a> {
    /// A cursor at the start of `line`.
    pub fn new(line: &'a str) -> (r: LineCursor<'a>)
        ensures
            r.line@ == line@,
            r.pos == 0,
    {
        LineCursor { line, pos: 0 }
    }

    /// Consume the next `len` characters and return them trimmed of
    /// surrounding spaces.
    pub fn proceed(&mut self, len: usize) -> (r: &'a str)
        requires
            old(self).pos + len <= old(self).line@.len(),
            old(self).line@.len() <= usize::MAX,
        ensures
            final(self).line@ == old(self).line@,
            final(self).pos == old(self).pos + len,
            r@ == spec_trim(
                old(self).line@.subrange(
                    old(self).pos as int,
                    old(self).pos + len,
                ),
            ),
    {
        let start = self.pos;
        self.pos = self.pos + len;
        trim_spaces(self.line.substring_char(start, start + len))
    }

    /// Read one field of type `T` at the current offset.
    pub fn parse<T: Parsable>(&mut self) -> (r: Result<T, Error>)
        ensures
            final(self).line@ == old(self).line@,
            match T::sparse(old(self).line@, old(self).pos as int) {
                Ok(vp) => r == Ok::<T, Error>(vp.0) && final(self).pos == vp.1,
                Err(e) => r == Err::<T, Error>(e),
            },
    {
        T::parse_from(self)
    }

    /// Skip the single mandatory space column, then read one field.
    pub fn parse_with_space<T: Parsable>(&mut self) -> (r: Result<T, Error>)
        ensures
            final(self).line@ == old(self).line@,
            match T::sparse(old(self).line@, old(self).pos + 1) {
                Ok(vp) => r == Ok::<T, Error>(vp.0) && final(self).pos == vp.1,
                Err(e) => r == Err::<T, Error>(e),
            },
    {
        let n = self.line.unicode_len();
        if self.pos < n {
            self.pos = self.pos + 1;
            T::parse_from(self)
        } else {
            proof {
                T::sparse_oob(self.line@, self.pos + 1);
            }
            Err(Error::OutOfBounds)
        }
    }
}

/// A field type that can be read from a line at a fixed width.
pub trait Parsable: Sized {
    /// The mathematical reading of one field of this type at offset `pos` of
    /// `line`: the value and the offset after the field, or the exact error.
    spec fn sparse(line: Seq<char>, pos: int) -> Result<(Self, int), Error>;

    /// A read that starts past the end of the line is out of bounds,
    /// whatever the field type.
    proof fn sparse_oob(line: Seq<char>, pos: int)
        requires
            pos > line.len(),
        ensures
            Self::sparse(line, pos) == Err::<(Self, int), Error>(Error::OutOfBounds),
    ;

    /// Read one field at the cursor, exactly as `sparse` describes.
    fn parse_from(cursor: &mut LineCursor<'_>) -> (r: Result<Self, Error>)
        ensures
            final(cursor).line@ == old(cursor).line@,
            match Self::sparse(old(cursor).line@, old(cursor).pos as int) {
                Ok(vp) => r == Ok::<Self, Error>(vp.0) && final(cursor).pos == vp.1,
                Err(e) => r == Err::<Self, Error>(e),
            },
    ;
}

/// A field value that can be appended to a line at its fixed width.
pub trait Formattable {
    /// The exact text of the field: the value right-justified in its width.
    spec fn sfmt(&self) -> Seq<char>;

    /// Append the field text to `out`.
    fn format_onto(&self, out: &mut String)
        ensures
            final(out)@ == old(out)@ + self.sfmt(),
    ;
}

impl Parsable for usize {
    /// A six-column right-justified unsigned decimal integer.
    open spec fn sparse(line: Seq<char>, pos: int) -> Result<(usize, int), Error> {
        if pos + 6 > line.len() {
            Err(Error::OutOfBounds)
        } else {
            let t = spec_trim(line.subrange(pos, pos + 6));
            match uint_of(t) {
                Some(v) => if v <= usize::MAX {
                    Ok((v as usize, pos + 6))
                } else {
                    Err(Error::MalformedNumber)
                },
                None => Err(Error::MalformedNumber),
            }
        }
    }

    proof fn sparse_oob(line: Seq<char>, pos: int) {
    }

    fn parse_from(cursor: &mut LineCursor<'_>) -> (r: Result<usize, Error>) {
        let n = cursor.line.unicode_len();
        if cursor.pos > n || n - cursor.pos < INT_WIDTH {
            return Err(Error::OutOfBounds);
        }
        let ghost field = cursor.line@.subrange(cursor.pos as int, cursor.pos + 6);
        let t = cursor.proceed(INT_WIDTH);
        proof {
            lemma_trim_len(field);
        }
        match parse_uint_str(t) {
            Some(v) => {
                proof {
                    lemma_uint_val_bound(t@);
                    lemma_pow10_mono(t@.len() as int, 6);
                    lemma_pow10_values();
                }
                Ok(v as usize)
            },
            None => Err(Error::MalformedNumber),
        }
    }
}

impl Formattable for usize {
    /// A six-column right-justified unsigned decimal integer.
    open spec fn sfmt(&self) -> Seq<char> {
        uint_field(*self)
    }

    fn format_onto(&self, out: &mut String) {
        let s = pad_left_str(dec_str(*self as u64), INT_WIDTH);
        out.append(s.as_str());
    }
}

impl Parsable for Fixed {
    /// A twelve-column right-justified fixed-point number.
    open spec fn sparse(line: Seq<char>, pos: int) -> Result<(Fixed, int), Error> {
        if pos + 12 > line.len() {
            Err(Error::OutOfBounds)
        } else {
            let t = spec_trim(line.subrange(pos, pos + 12));
            match fixed_of(t) {
                Some(f) => Ok((f, pos + 12)),
                None => Err(Error::MalformedNumber),
            }
        }
    }

    proof fn sparse_oob(line: Seq<char>, pos: int) {
    }

    fn parse_from(cursor: &mut LineCursor<'_>) -> (r: Result<Fixed, Error>) {
        let n = cursor.line.unicode_len();
        if cursor.pos > n || n - cursor.pos < FLOAT_WIDTH {
            return Err(Error::OutOfBounds);
        }
        let ghost field = cursor.line@.subrange(cursor.pos as int, cursor.pos + 12);
        let t = cursor.proceed(FLOAT_WIDTH);
        proof {
            lemma_trim_len(field);
        }
        match parse_fixed_str(t) {
            Some(f) => Ok(f),
            None => Err(Error::MalformedNumber),
        }
    }
}

impl Formattable for Fixed {
    /// A twelve-column right-justified fixed-point number.
    open spec fn sfmt(&self) -> Seq<char> {
        fixed_field(*self)
    }

    fn format_onto(&self, out: &mut String) {
        let s = pad_left_str(crate::fixed::fixed_str(self), FLOAT_WIDTH);
        out.append(s.as_str());
    }
}

/// Append the field text of `value` to `out`.
pub fn write<T: Formattable>(out: &mut String, value: &T)
    ensures
        final(out)@ == old(out)@ + value.sfmt(),
{
    value.format_onto(out);
}

/// Append one space column and then the field text of `value` to `out`.
pub fn write_with_space<T: Formattable>(out: &mut String, value: &T)
    ensures
        final(out)@ == old(out)@ + seq![' '] + value.sfmt(),
{
    out.append(" ");
    proof {
        reveal_strlit(" ");
        assert(old(out)@ + " "@ =~= old(out)@ + seq![' ']);
    }
    value.format_onto(out);
}

/// A formatted integer field embedded in a line parses back to its value.
pub proof fn lemma_uint_field_at(line: Seq<char>, pos: int, n: usize)
    requires
        0 <= pos,
        pos + 6 <= line.len(),
        dec_rep(n as int).len() <= 6,
        line.subrange(pos, pos + 6) == pad_left(dec_rep(n as int), 6),
    ensures
        <usize as Parsable>::sparse(line, pos) == Ok::<(usize, int), Error>((n, pos + 6)),
{
    let d = dec_rep(n as int);
    lemma_dec_rep_digits(n as int);
    lemma_digit_chars(d[0]);
    lemma_digit_chars(d.last());
    lemma_trim_padded(d, 6);
    lemma_dec_rep_val(n as int);
}

/// A formatted fixed-point field embedded in a line parses back to its
/// value.
pub proof fn lemma_fixed_field_at(line: Seq<char>, pos: int, f: Fixed)
    requires
        0 <= pos,
        pos + 12 <= line.len(),
        f.fits(12),
        line.subrange(pos, pos + 12) == pad_left(f.digits(), 12),
    ensures
        <Fixed as Parsable>::sparse(line, pos) == Ok::<(Fixed, int), Error>((f, pos + 12)),
{
    lemma_fixed_digits_shape(f);
    lemma_trim_padded(f.digits(), 12);
    lemma_fixed_round_trip(f);
}

} // verus!
