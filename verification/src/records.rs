//! The six record kinds of the format and their codecs.
//!
//! Each kind has a fixed leading label, an index field, a particle group,
//! fixed-order numeric fields, and a short trailing type tag. Parsing and
//! formatting are exact inverses on well-formed data: the round-trip law is
//! proved for every kind (`lemma_*_round_trip`), stating that the formatted
//! text of a well-formed record parses back to the record, and therefore
//! that formatting a parsed line reproduces the line it came from.
use vstd::prelude::*;

use crate::error::Error;
use crate::fixed::Fixed;
use crate::group::lemma_pair_at;
use crate::group::lemma_pair_len;
use crate::group::lemma_quad_at;
use crate::group::lemma_quad_len;
use crate::group::lemma_triple_at;
use crate::group::lemma_triple_len;
use crate::group::Pair;
use crate::group::Quad;
use crate::group::Triple;
use crate::line::fits6;
use crate::line::fixed_field;
use crate::line::lemma_fixed_field_at;
use crate::line::lemma_uint_field_at;
use crate::line::uint_field;
use crate::line::write_with_space;
use crate::line::Formattable;
use crate::line::LineCursor;
use crate::line::Parsable;
use crate::text::lemma_trim_padded;
use crate::text::spec_trim;

verus! {

/// The mathematical reading of the type tag: `w` raw characters, trimmed.
pub open spec fn sparse_tag(line: Seq<char>, pos: int, w: int) -> Result<(Seq<char>, int), Error> {
    if pos + w > line.len() {
        Err(Error::OutOfBounds)
    } else {
        Ok((spec_trim(line.subrange(pos, pos + w)), pos + w))
    }
}

/// Read the trailing type tag: `w` raw characters, trimmed.
fn take_tag(cursor: &mut LineCursor<'_>, w: usize) -> (r: Result<String, Error>)
    ensures
        final(cursor).line@ == old(cursor).line@,
        match sparse_tag(old(cursor).line@, old(cursor).pos as int, w as int) {
            Ok(tp) => r matches Ok(s) && s@ == tp.0 && final(cursor).pos == tp.1,
            Err(e) => r == Err::<String, Error>(e),
        },
{
    let n = cursor.line.unicode_len();
    if cursor.pos > n || n - cursor.pos < w {
        return Err(Error::OutOfBounds);
    }
    let t = cursor.proceed(w);
    Ok(String::from_str(t))
}

/// A tag of `w` characters with no space at either end, written after one
/// space column, reads back unchanged.
proof fn lemma_tag_at(line: Seq<char>, pos: int, ty: Seq<char>)
    requires
        0 <= pos,
        ty.len() > 0,
        !crate::text::is_space(ty[0]),
        !crate::text::is_space(ty.last()),
        pos + 1 + ty.len() <= line.len(),
        line.subrange(pos, pos + 1 + ty.len() as int) == seq![' '] + ty,
    ensures
        sparse_tag(line, pos, 1 + ty.len() as int) == Ok::<(Seq<char>, int), Error>(
            (ty, pos + 1 + ty.len()),
        ),
{
    assert(seq![' '] + ty =~= crate::text::repeat_char(' ', 1) + ty);
    lemma_trim_padded(ty, 1);
}

/// The label of a bond record line.
pub open spec fn bond_label() -> Seq<char> {
    seq!['b', 'o', 'n', 'd']
}

/// A native bond length record: a pair of particles, the natural length,
/// and its force-field coefficients.
pub struct Bond {
    /// The 1-based sequence number within the block.
    pub index: usize,
    /// The two bonded particles.
    pub pair: Pair,
    /// The natural bond length.
    pub length: Fixed,
    /// The scaling factor.
    pub factor: Fixed,
    /// The multi-Go correction factor.
    pub correct_mgo: Fixed,
    /// The force coefficient.
    pub coefficient: Fixed,
    /// The short type tag.
    pub ty: String,
}

/// The mathematical value of a [`Bond`]: its view.
#[verifier::ext_equal]
pub ghost struct BondV {
    /// The 1-based sequence number within the block.
    pub index: usize,
    /// The two bonded particles.
    pub pair: Pair,
    /// The natural bond length.
    pub length: Fixed,
    /// The scaling factor.
    pub factor: Fixed,
    /// The multi-Go correction factor.
    pub correct_mgo: Fixed,
    /// The force coefficient.
    pub coefficient: Fixed,
    /// The short type tag.
    pub ty: Seq<char>,
}

impl View for Bond {
    type V = BondV;

    open spec fn view(&self) -> BondV {
        BondV {
            index: self.index,
            pair: self.pair,
            length: self.length,
            factor: self.factor,
            correct_mgo: self.correct_mgo,
            coefficient: self.coefficient,
            ty: self.ty@,
        }
    }
}

impl BondV {
    /// The exact text of the record line.
    pub open spec fn text(self) -> Seq<char> {
        bond_label() + seq![' '] + uint_field(self.index) + seq![' '] + self.pair.sfmt()
            + seq![' '] + fixed_field(self.length) + seq![' '] + fixed_field(self.factor)
            + seq![' '] + fixed_field(self.correct_mgo) + seq![' '] + fixed_field(self.coefficient)
            + seq![' '] + self.ty
    }

    /// Well-formedness for the round-trip law: every field fits its fixed
    /// width, the group is consistent, and the two-character tag has no
    /// space at either end.
    pub open spec fn wf(self) -> bool {
        &&& fits6(self.index)
        &&& self.pair.valid()
        &&& self.length.fits(12)
        &&& self.factor.fits(12)
        &&& self.correct_mgo.fits(12)
        &&& self.coefficient.fits(12)
        &&& self.ty.len() == 2
        &&& !crate::text::is_space(self.ty[0])
        &&& !crate::text::is_space(self.ty.last())
    }
}

impl Bond {
    /// The mathematical parse of one bond record line.
    pub open spec fn spec_parse(line: Seq<char>) -> Result<BondV, Error> {
        if line.len() < 4 {
            Err(Error::OutOfBounds)
        } else {
            let rest = line.subrange(4, line.len() as int);
            match <usize as Parsable>::sparse(rest, 1) {
                Err(e) => Err(e),
                Ok((index, p1)) => match <Pair as Parsable>::sparse(rest, p1 + 1) {
                    Err(e) => Err(e),
                    Ok((pair, p2)) => match <Fixed as Parsable>::sparse(rest, p2 + 1) {
                        Err(e) => Err(e),
                        Ok((length, p3)) => match <Fixed as Parsable>::sparse(rest, p3 + 1) {
                            Err(e) => Err(e),
                            Ok((factor, p4)) => match <Fixed as Parsable>::sparse(rest, p4 + 1) {
                                Err(e) => Err(e),
                                Ok((correct_mgo, p5)) => match <Fixed as Parsable>::sparse(
                                    rest,
                                    p5 + 1,
                                ) {
                                    Err(e) => Err(e),
                                    Ok((coefficient, p6)) => match sparse_tag(rest, p6, 3) {
                                        Err(e) => Err(e),
                                        Ok((ty, _p7)) => Ok(
                                            BondV {
                                                index,
                                                pair,
                                                length,
                                                factor,
                                                correct_mgo,
                                                coefficient,
                                                ty,
                                            },
                                        ),
                                    },
                                },
                            },
                        },
                    },
                },
            }
        }
    }

    /// Parse one bond record line, exactly as [`Bond::spec_parse`] says.
    pub fn from_str(line: &str) -> (r: Result<Bond, Error>)
        ensures
            r matches Ok(b) ==> Bond::spec_parse(line@) matches Ok(v) && b@ == v,
            r matches Err(e) ==> Bond::spec_parse(line@) matches Err(e2) && e == e2,
    {
        let n = line.unicode_len();
        if n < 4 {
            return Err(Error::OutOfBounds);
        }
        let rest = line.substring_char(4, n);
        proof {
            assert(rest@ =~= line@.subrange(4, n as int));
        }
        let mut cursor = LineCursor::new(rest);
        let index: usize = match cursor.parse_with_space() {
            Ok(v) => v,
            Err(e) => {
                return Err(e);
            },
        };
        let pair: Pair = match cursor.parse_with_space() {
            Ok(v) => v,
            Err(e) => {
                return Err(e);
            },
        };
        let length: Fixed = match cursor.parse_with_space() {
            Ok(v) => v,
            Err(e) => {
                return Err(e);
            },
        };
        let factor: Fixed = match cursor.parse_with_space() {
            Ok(v) => v,
            Err(e) => {
                return Err(e);
            },
        };
        let correct_mgo: Fixed = match cursor.parse_with_space() {
            Ok(v) => v,
            Err(e) => {
                return Err(e);
            },
        };
        let coefficient: Fixed = match cursor.parse_with_space() {
            Ok(v) => v,
            Err(e) => {
                return Err(e);
            },
        };
        let ty: String = match take_tag(&mut cursor, 3) {
            Ok(v) => v,
            Err(e) => {
                return Err(e);
            },
        };
        Ok(Bond { index, pair, length, factor, correct_mgo, coefficient, ty })
    }

    /// Format the record back into its exact line text.
    pub fn to_string(&self) -> (r: String)
        ensures
            r@ == self@.text(),
    {
        let mut out = String::new();
        out.append("bond");
        proof {
            reveal_strlit("bond");
            assert(out@ =~= bond_label());
        }
        write_with_space(&mut out, &self.index);
        write_with_space(&mut out, &self.pair);
        write_with_space(&mut out, &self.length);
        write_with_space(&mut out, &self.factor);
        write_with_space(&mut out, &self.correct_mgo);
        write_with_space(&mut out, &self.coefficient);
        out.append(" ");
        out.append(self.ty.as_str());
        proof {
            reveal_strlit(" ");
            assert(out@ =~= self@.text());
        }
        out
    }
}

/// The round-trip law for bond records: the text of a well-formed record
/// parses back to exactly that record, so formatting a parsed well-formed
/// line reproduces the line.
#[verifier::rlimit(100)]
pub proof fn lemma_bond_round_trip(v: BondV)
    requires
        v.wf(),
    ensures
        Bond::spec_parse(v.text()) == Ok::<BondV, Error>(v),
{
    let line = v.text();
    lemma_pair_len(v.pair);
    assert(line.len() == 108);
    let rest = line.subrange(4, line.len() as int);
    assert(rest.subrange(1, 7) =~= uint_field(v.index));
    lemma_uint_field_at(rest, 1, v.index);
    assert(rest.subrange(8, 49) =~= v.pair.sfmt());
    lemma_pair_at(rest, 8, v.pair);
    assert(rest.subrange(50, 62) =~= fixed_field(v.length));
    lemma_fixed_field_at(rest, 50, v.length);
    assert(rest.subrange(63, 75) =~= fixed_field(v.factor));
    lemma_fixed_field_at(rest, 63, v.factor);
    assert(rest.subrange(76, 88) =~= fixed_field(v.correct_mgo));
    lemma_fixed_field_at(rest, 76, v.correct_mgo);
    assert(rest.subrange(89, 101) =~= fixed_field(v.coefficient));
    lemma_fixed_field_at(rest, 89, v.coefficient);
    assert(rest.subrange(101, 104) =~= seq![' '] + v.ty);
    lemma_tag_at(rest, 101, v.ty);
    assert(Bond::spec_parse(line) matches Ok(w) && w =~= v);
}

/// The label of the record line.
pub open spec fn angle_label() -> Seq<char> {
    seq!['a', 'n', 'g', 'l']
}

/// A native bond angle record: a triple of particles, the natural angle,
/// and its force-field coefficients.
pub struct Angle {
    /// The 1-based sequence number within the block.
    pub index: usize,
    /// The three particles of the record.
    pub triple: Triple,
    /// The natural angle.
    pub angle: Fixed,
    /// The scaling factor.
    pub factor: Fixed,
    /// The multi-Go correction factor.
    pub correct_mgo: Fixed,
    /// The force coefficient.
    pub coefficient: Fixed,
    /// The short type tag.
    pub ty: String,
}

/// The mathematical value of an [`Angle`]: its view.
#[verifier::ext_equal]
pub ghost struct AngleV {
    /// The 1-based sequence number within the block.
    pub index: usize,
    /// The three particles of the record.
    pub triple: Triple,
    /// The natural angle.
    pub angle: Fixed,
    /// The scaling factor.
    pub factor: Fixed,
    /// The multi-Go correction factor.
    pub correct_mgo: Fixed,
    /// The force coefficient.
    pub coefficient: Fixed,
    /// The short type tag.
    pub ty: Seq<char>,
}

impl View for Angle {
    type V = AngleV;

    open spec fn view(&self) -> AngleV {
        AngleV {
            index: self.index,
            triple: self.triple,
            angle: self.angle,
            factor: self.factor,
            correct_mgo: self.correct_mgo,
            coefficient: self.coefficient,
            ty: self.ty@,
        }
    }
}

impl AngleV {
    /// The exact text of the record line.
    pub open spec fn text(self) -> Seq<char> {
        angle_label() + seq![' '] + uint_field(self.index) + seq![' '] + self.triple.sfmt() + seq![' '] + fixed_field(self.angle) + seq![' '] + fixed_field(self.factor) + seq![' '] + fixed_field(self.correct_mgo) + seq![' '] + fixed_field(self.coefficient) + seq![' '] + self.ty
    }

    /// Well-formedness for the round-trip law: every field fits its fixed
    /// width, the group is consistent, and the tag has no space at either
    /// end.
    pub open spec fn wf(self) -> bool {
        &&& fits6(self.index)
        &&& self.triple.valid()
        &&& self.angle.fits(12)
        &&& self.factor.fits(12)
        &&& self.correct_mgo.fits(12)
        &&& self.coefficient.fits(12)
        &&& self.ty.len() == 3
        &&& !crate::text::is_space(self.ty[0])
        &&& !crate::text::is_space(self.ty.last())
    }
}

impl Angle {
    /// The mathematical parse of one record line of this kind.
    pub open spec fn spec_parse(line: Seq<char>) -> Result<AngleV, Error> {
        if line.len() < 4 {
            Err(Error::OutOfBounds)
        } else {
            let rest = line.subrange(4, line.len() as int);
            match <usize as Parsable>::sparse(rest, 1) {
                Err(e) => Err(e),
                Ok((index, p1)) => {
                    match <Triple as Parsable>::sparse(rest, p1 + 1) {
                        Err(e) => Err(e),
                        Ok((triple, p2)) => {
                            match <Fixed as Parsable>::sparse(rest, p2 + 1) {
                                Err(e) => Err(e),
                                Ok((angle, p3)) => {
                                    match <Fixed as Parsable>::sparse(rest, p3 + 1) {
                                        Err(e) => Err(e),
                                        Ok((factor, p4)) => {
                                            match <Fixed as Parsable>::sparse(rest, p4 + 1) {
                                                Err(e) => Err(e),
                                                Ok((correct_mgo, p5)) => {
                                                    match <Fixed as Parsable>::sparse(rest, p5 + 1) {
                                                        Err(e) => Err(e),
                                                        Ok((coefficient, p6)) => {
                                                            match sparse_tag(rest, p6, 4) {
                                                                Err(e) => Err(e),
                                                                Ok((ty, _pend)) => Ok(
                                                                    AngleV {
                                                                        index,
                                                                        triple,
                                                                        angle,
                                                                        factor,
                                                                        correct_mgo,
                                                                        coefficient,
                                                                        ty,
                                                                    },
                                                                ),
                                                            }
                                                        },
                                                    }
                                                },
                                            }
                                        },
                                    }
                                },
                            }
                        },
                    }
                },
            }
        }
    }

    /// Parse one record line, exactly as [`Angle::spec_parse`] says.
    pub fn from_str(line: &str) -> (r: Result<Angle, Error>)
        ensures
            r matches Ok(b) ==> Angle::spec_parse(line@) matches Ok(v) && b@ == v,
            r matches Err(e) ==> Angle::spec_parse(line@) matches Err(e2) && e == e2,
    {
        let n = line.unicode_len();
        if n < 4 {
            return Err(Error::OutOfBounds);
        }
        let rest = line.substring_char(4, n);
        proof {
            assert(rest@ =~= line@.subrange(4, n as int));
        }
        let mut cursor = LineCursor::new(rest);
        let index: usize = match cursor.parse_with_space() {
            Ok(v) => v,
            Err(e) => {
                return Err(e);
            },
        };
        let triple: Triple = match cursor.parse_with_space() {
            Ok(v) => v,
            Err(e) => {
                return Err(e);
            },
        };
        let angle: Fixed = match cursor.parse_with_space() {
            Ok(v) => v,
            Err(e) => {
                return Err(e);
            },
        };
        let factor: Fixed = match cursor.parse_with_space() {
            Ok(v) => v,
            Err(e) => {
                return Err(e);
            },
        };
        let correct_mgo: Fixed = match cursor.parse_with_space() {
            Ok(v) => v,
            Err(e) => {
                return Err(e);
            },
        };
        let coefficient: Fixed = match cursor.parse_with_space() {
            Ok(v) => v,
            Err(e) => {
                return Err(e);
            },
        };
        let ty: String = match take_tag(&mut cursor, 4) {
            Ok(v) => v,
            Err(e) => {
                return Err(e);
            },
        };
        Ok(Angle { index, triple, angle, factor, correct_mgo, coefficient, ty })
    }

    /// Format the record back into its exact line text.
    pub fn to_string(&self) -> (r: String)
        ensures
            r@ == self@.text(),
    {
        let mut out = String::new();
        out.append("angl");
        proof {
            reveal_strlit("angl");
            assert(out@ =~= angle_label());
        }
        write_with_space(&mut out, &self.index);
        write_with_space(&mut out, &self.triple);
        write_with_space(&mut out, &self.angle);
        write_with_space(&mut out, &self.factor);
        write_with_space(&mut out, &self.correct_mgo);
        write_with_space(&mut out, &self.coefficient);
        out.append(" ");
        out.append(self.ty.as_str());
        proof {
            reveal_strlit(" ");
            assert(out@ =~= self@.text());
        }
        out
    }
}

/// The round-trip law for this record kind: the text of a well-formed
/// record parses back to exactly that record, so formatting a parsed
/// well-formed line reproduces the line.
#[verifier::rlimit(100)]
pub proof fn lemma_angle_round_trip(v: AngleV)
    requires
        v.wf(),
    ensures
        Angle::spec_parse(v.text()) == Ok::<AngleV, Error>(v),
{
    let line = v.text();
    lemma_triple_len(v.triple);
    assert(line.len() == 123);
    let rest = line.subrange(4, line.len() as int);
    assert(rest.subrange(1, 7) =~= uint_field(v.index));
    lemma_uint_field_at(rest, 1, v.index);
    assert(rest.subrange(8, 63) =~= v.triple.sfmt());
    lemma_triple_at(rest, 8, v.triple);
    assert(rest.subrange(64, 76) =~= fixed_field(v.angle));
    lemma_fixed_field_at(rest, 64, v.angle);
    assert(rest.subrange(77, 89) =~= fixed_field(v.factor));
    lemma_fixed_field_at(rest, 77, v.factor);
    assert(rest.subrange(90, 102) =~= fixed_field(v.correct_mgo));
    lemma_fixed_field_at(rest, 90, v.correct_mgo);
    assert(rest.subrange(103, 115) =~= fixed_field(v.coefficient));
    lemma_fixed_field_at(rest, 103, v.coefficient);
    assert(rest.subrange(115, 119) =~= seq![' '] + v.ty);
    lemma_tag_at(rest, 115, v.ty);
    assert(Angle::spec_parse(line) matches Ok(w) && w =~= v);
}

/// The label of the record line.
pub open spec fn dihedral_label() -> Seq<char> {
    seq!['d', 'i', 'h', 'd']
}

/// A native dihedral angle record: a quad of particles, the natural
/// angle, and its force-field coefficients.
pub struct DihedralAngle {
    /// The 1-based sequence number within the block.
    pub index: usize,
    /// The four particles of the record.
    pub quad: Quad,
    /// The natural dihedral angle.
    pub angle: Fixed,
    /// The scaling factor.
    pub factor: Fixed,
    /// The multi-Go correction factor.
    pub correct_mgo: Fixed,
    /// The first force coefficient.
    pub coefficient1: Fixed,
    /// The third-order force coefficient.
    pub coefficient3: Fixed,
    /// The short type tag.
    pub ty: String,
}

/// The mathematical value of a [`DihedralAngle`]: its view.
#[verifier::ext_equal]
pub ghost struct DihedralAngleV {
    /// The 1-based sequence number within the block.
    pub index: usize,
    /// The four particles of the record.
    pub quad: Quad,
    /// The natural dihedral angle.
    pub angle: Fixed,
    /// The scaling factor.
    pub factor: Fixed,
    /// The multi-Go correction factor.
    pub correct_mgo: Fixed,
    /// The first force coefficient.
    pub coefficient1: Fixed,
    /// The third-order force coefficient.
    pub coefficient3: Fixed,
    /// The short type tag.
    pub ty: Seq<char>,
}

impl View for DihedralAngle {
    type V = DihedralAngleV;

    open spec fn view(&self) -> DihedralAngleV {
        DihedralAngleV {
            index: self.index,
            quad: self.quad,
            angle: self.angle,
            factor: self.factor,
            correct_mgo: self.correct_mgo,
            coefficient1: self.coefficient1,
            coefficient3: self.coefficient3,
            ty: self.ty@,
        }
    }
}

impl DihedralAngleV {
    /// The exact text of the record line.
    pub open spec fn text(self) -> Seq<char> {
        dihedral_label() + seq![' '] + uint_field(self.index) + seq![' '] + self.quad.sfmt() + seq![' '] + fixed_field(self.angle) + seq![' '] + fixed_field(self.factor) + seq![' '] + fixed_field(self.correct_mgo) + seq![' '] + fixed_field(self.coefficient1) + seq![' '] + fixed_field(self.coefficient3) + seq![' '] + self.ty
    }

    /// Well-formedness for the round-trip law: every field fits its fixed
    /// width, the group is consistent, and the tag has no space at either
    /// end.
    pub open spec fn wf(self) -> bool {
        &&& fits6(self.index)
        &&& self.quad.valid()
        &&& self.angle.fits(12)
        &&& self.factor.fits(12)
        &&& self.correct_mgo.fits(12)
        &&& self.coefficient1.fits(12)
        &&& self.coefficient3.fits(12)
        &&& self.ty.len() == 4
        &&& !crate::text::is_space(self.ty[0])
        &&& !crate::text::is_space(self.ty.last())
    }
}

impl DihedralAngle {
    /// The mathematical parse of one record line of this kind.
    pub open spec fn spec_parse(line: Seq<char>) -> Result<DihedralAngleV, Error> {
        if line.len() < 4 {
            Err(Error::OutOfBounds)
        } else {
            let rest = line.subrange(4, line.len() as int);
            match <usize as Parsable>::sparse(rest, 1) {
                Err(e) => Err(e),
                Ok((index, p1)) => {
                    match <Quad as Parsable>::sparse(rest, p1 + 1) {
                        Err(e) => Err(e),
                        Ok((quad, p2)) => {
                            match <Fixed as Parsable>::sparse(rest, p2 + 1) {
                                Err(e) => Err(e),
                                Ok((angle, p3)) => {
                                    match <Fixed as Parsable>::sparse(rest, p3 + 1) {
                                        Err(e) => Err(e),
                                        Ok((factor, p4)) => {
                                            match <Fixed as Parsable>::sparse(rest, p4 + 1) {
                                                Err(e) => Err(e),
                                                Ok((correct_mgo, p5)) => {
                                                    match <Fixed as Parsable>::sparse(rest, p5 + 1) {
                                                        Err(e) => Err(e),
                                                        Ok((coefficient1, p6)) => {
                                                            match <Fixed as Parsable>::sparse(rest, p6 + 1) {
                                                                Err(e) => Err(e),
                                                                Ok((coefficient3, p7)) => {
                                                                    match sparse_tag(rest, p7, 5) {
                                                                        Err(e) => Err(e),
                                                                        Ok((ty, _pend)) => Ok(
                                                                            DihedralAngleV {
                                                                                index,
                                                                                quad,
                                                                                angle,
                                                                                factor,
                                                                                correct_mgo,
                                                                                coefficient1,
                                                                                coefficient3,
                                                                                ty,
                                                                            },
                                                                        ),
                                                                    }
                                                                },
                                                            }
                                                        },
                                                    }
                                                },
                                            }
                                        },
                                    }
                                },
                            }
                        },
                    }
                },
            }
        }
    }

    /// Parse one record line, exactly as [`DihedralAngle::spec_parse`] says.
    pub fn from_str(line: &str) -> (r: Result<DihedralAngle, Error>)
        ensures
            r matches Ok(b) ==> DihedralAngle::spec_parse(line@) matches Ok(v) && b@ == v,
            r matches Err(e) ==> DihedralAngle::spec_parse(line@) matches Err(e2) && e == e2,
    {
        let n = line.unicode_len();
        if n < 4 {
            return Err(Error::OutOfBounds);
        }
        let rest = line.substring_char(4, n);
        proof {
            assert(rest@ =~= line@.subrange(4, n as int));
        }
        let mut cursor = LineCursor::new(rest);
        let index: usize = match cursor.parse_with_space() {
            Ok(v) => v,
            Err(e) => {
                return Err(e);
            },
        };
        let quad: Quad = match cursor.parse_with_space() {
            Ok(v) => v,
            Err(e) => {
                return Err(e);
            },
        };
        let angle: Fixed = match cursor.parse_with_space() {
            Ok(v) => v,
            Err(e) => {
                return Err(e);
            },
        };
        let factor: Fixed = match cursor.parse_with_space() {
            Ok(v) => v,
            Err(e) => {
                return Err(e);
            },
        };
        let correct_mgo: Fixed = match cursor.parse_with_space() {
            Ok(v) => v,
            Err(e) => {
                return Err(e);
            },
        };
        let coefficient1: Fixed = match cursor.parse_with_space() {
            Ok(v) => v,
            Err(e) => {
                return Err(e);
            },
        };
        let coefficient3: Fixed = match cursor.parse_with_space() {
            Ok(v) => v,
            Err(e) => {
                return Err(e);
            },
        };
        let ty: String = match take_tag(&mut cursor, 5) {
            Ok(v) => v,
            Err(e) => {
                return Err(e);
            },
        };
        Ok(DihedralAngle { index, quad, angle, factor, correct_mgo, coefficient1, coefficient3, ty })
    }

    /// Format the record back into its exact line text.
    pub fn to_string(&self) -> (r: String)
        ensures
            r@ == self@.text(),
    {
        let mut out = String::new();
        out.append("dihd");
        proof {
            reveal_strlit("dihd");
            assert(out@ =~= dihedral_label());
        }
        write_with_space(&mut out, &self.index);
        write_with_space(&mut out, &self.quad);
        write_with_space(&mut out, &self.angle);
        write_with_space(&mut out, &self.factor);
        write_with_space(&mut out, &self.correct_mgo);
        write_with_space(&mut out, &self.coefficient1);
        write_with_space(&mut out, &self.coefficient3);
        out.append(" ");
        out.append(self.ty.as_str());
        proof {
            reveal_strlit(" ");
            assert(out@ =~= self@.text());
        }
        out
    }
}

#[verifier::rlimit(100)]
proof fn lemma_dihedral_angle_front(v: DihedralAngleV)
    requires
        v.wf(),
    ensures
        v.text().len() == 151,
        ({ let rest = v.text().subrange(4, v.text().len() as int);
        <usize as Parsable>::sparse(rest, 1) == Ok::<(usize, int), Error>((v.index, 7)) }),
        ({ let rest = v.text().subrange(4, v.text().len() as int);
        <Quad as Parsable>::sparse(rest, 8) == Ok::<(Quad, int), Error>((v.quad, 77)) }),
{
    let line = v.text();
    lemma_quad_len(v.quad);
    assert(line.len() == 151);
    let rest = line.subrange(4, line.len() as int);
    assert(rest.subrange(1, 7) =~= uint_field(v.index));
    lemma_uint_field_at(rest, 1, v.index);
    assert(rest.subrange(8, 77) =~= v.quad.sfmt());
    lemma_quad_at(rest, 8, v.quad);
}

#[verifier::rlimit(100)]
proof fn lemma_dihedral_angle_scalars(v: DihedralAngleV)
    requires
        v.wf(),
    ensures
        ({ let rest = v.text().subrange(4, v.text().len() as int);
        <Fixed as Parsable>::sparse(rest, 78) == Ok::<(Fixed, int), Error>((v.angle, 90)) }),
        ({ let rest = v.text().subrange(4, v.text().len() as int);
        <Fixed as Parsable>::sparse(rest, 91) == Ok::<(Fixed, int), Error>((v.factor, 103)) }),
        ({ let rest = v.text().subrange(4, v.text().len() as int);
        <Fixed as Parsable>::sparse(rest, 104) == Ok::<(Fixed, int), Error>((v.correct_mgo, 116)) }),
        ({ let rest = v.text().subrange(4, v.text().len() as int);
        <Fixed as Parsable>::sparse(rest, 117) == Ok::<(Fixed, int), Error>((v.coefficient1, 129)) }),
        ({ let rest = v.text().subrange(4, v.text().len() as int);
        <Fixed as Parsable>::sparse(rest, 130) == Ok::<(Fixed, int), Error>((v.coefficient3, 142)) }),
        ({ let rest = v.text().subrange(4, v.text().len() as int);
        sparse_tag(rest, 142, 5) == Ok::<(Seq<char>, int), Error>((v.ty, 147)) }),
{
    let line = v.text();
    lemma_quad_len(v.quad);
    assert(line.len() == 151);
    let rest = line.subrange(4, line.len() as int);
    assert(rest.subrange(78, 90) =~= fixed_field(v.angle));
    lemma_fixed_field_at(rest, 78, v.angle);
    assert(rest.subrange(91, 103) =~= fixed_field(v.factor));
    lemma_fixed_field_at(rest, 91, v.factor);
    assert(rest.subrange(104, 116) =~= fixed_field(v.correct_mgo));
    lemma_fixed_field_at(rest, 104, v.correct_mgo);
    assert(rest.subrange(117, 129) =~= fixed_field(v.coefficient1));
    lemma_fixed_field_at(rest, 117, v.coefficient1);
    assert(rest.subrange(130, 142) =~= fixed_field(v.coefficient3));
    lemma_fixed_field_at(rest, 130, v.coefficient3);
    assert(rest.subrange(142, 147) =~= seq![' '] + v.ty);
    lemma_tag_at(rest, 142, v.ty);
}

/// The round-trip law for this record kind: the text of a well-formed
/// record parses back to exactly that record, so formatting a parsed
/// well-formed line reproduces the line.
#[verifier::rlimit(100)]
pub proof fn lemma_dihedral_angle_round_trip(v: DihedralAngleV)
    requires
        v.wf(),
    ensures
        DihedralAngle::spec_parse(v.text()) == Ok::<DihedralAngleV, Error>(v),
{
    lemma_dihedral_angle_front(v);
    lemma_dihedral_angle_scalars(v);
    assert(DihedralAngle::spec_parse(v.text()) matches Ok(w) && w =~= v);
}

/// The label of the record line.
pub open spec fn contact_label() -> Seq<char> {
    seq!['c', 'o', 'n', 't', 'a', 'c', 't']
}

/// A native contact record: a pair of particles, the natural contact
/// length, and its force-field coefficients.
pub struct Contact {
    /// The 1-based sequence number within the block.
    pub index: usize,
    /// The two particles of the record.
    pub pair: Pair,
    /// The natural contact length.
    pub length: Fixed,
    /// The scaling factor.
    pub factor: Fixed,
    /// The placeholder integer column of the contact layout.
    pub dummy: usize,
    /// The force coefficient.
    pub coefficient: Fixed,
    /// The short type tag.
    pub ty: String,
}

/// The mathematical value of a [`Contact`]: its view.
#[verifier::ext_equal]
pub ghost struct ContactV {
    /// The 1-based sequence number within the block.
    pub index: usize,
    /// The two particles of the record.
    pub pair: Pair,
    /// The natural contact length.
    pub length: Fixed,
    /// The scaling factor.
    pub factor: Fixed,
    /// The placeholder integer column of the contact layout.
    pub dummy: usize,
    /// The force coefficient.
    pub coefficient: Fixed,
    /// The short type tag.
    pub ty: Seq<char>,
}

impl View for Contact {
    type V = ContactV;

    open spec fn view(&self) -> ContactV {
        ContactV {
            index: self.index,
            pair: self.pair,
            length: self.length,
            factor: self.factor,
            dummy: self.dummy,
            coefficient: self.coefficient,
            ty: self.ty@,
        }
    }
}

impl ContactV {
    /// The exact text of the record line.
    pub open spec fn text(self) -> Seq<char> {
        contact_label() + seq![' '] + uint_field(self.index) + seq![' '] + self.pair.sfmt() + fixed_field(self.length) + fixed_field(self.factor) + seq![' '] + uint_field(self.dummy) + fixed_field(self.coefficient) + seq![' '] + self.ty
    }

    /// Well-formedness for the round-trip law: every field fits its fixed
    /// width, the group is consistent, and the tag has no space at either
    /// end.
    pub open spec fn wf(self) -> bool {
        &&& fits6(self.index)
        &&& self.pair.valid()
        &&& self.length.fits(12)
        &&& self.factor.fits(12)
        &&& fits6(self.dummy)
        &&& self.coefficient.fits(12)
        &&& self.ty.len() == 3
        &&& !crate::text::is_space(self.ty[0])
        &&& !crate::text::is_space(self.ty.last())
    }
}

impl Contact {
    /// The mathematical parse of one record line of this kind.
    pub open spec fn spec_parse(line: Seq<char>) -> Result<ContactV, Error> {
        if line.len() < 7 {
            Err(Error::OutOfBounds)
        } else {
            let rest = line.subrange(7, line.len() as int);
            match <usize as Parsable>::sparse(rest, 1) {
                Err(e) => Err(e),
                Ok((index, p1)) => {
                    match <Pair as Parsable>::sparse(rest, p1 + 1) {
                        Err(e) => Err(e),
                        Ok((pair, p2)) => {
                            match <Fixed as Parsable>::sparse(rest, p2) {
                                Err(e) => Err(e),
                                Ok((length, p3)) => {
                                    match <Fixed as Parsable>::sparse(rest, p3) {
                                        Err(e) => Err(e),
                                        Ok((factor, p4)) => {
                                            match <usize as Parsable>::sparse(rest, p4 + 1) {
                                                Err(e) => Err(e),
                                                Ok((dummy, p5)) => {
                                                    match <Fixed as Parsable>::sparse(rest, p5) {
                                                        Err(e) => Err(e),
                                                        Ok((coefficient, p6)) => {
                                                            match sparse_tag(rest, p6, 4) {
                                                                Err(e) => Err(e),
                                                                Ok((ty, _pend)) => Ok(
                                                                    ContactV {
                                                                        index,
                                                                        pair,
                                                                        length,
                                                                        factor,
                                                                        dummy,
                                                                        coefficient,
                                                                        ty,
                                                                    },
                                                                ),
                                                            }
                                                        },
                                                    }
                                                },
                                            }
                                        },
                                    }
                                },
                            }
                        },
                    }
                },
            }
        }
    }

    /// Parse one record line, exactly as [`Contact::spec_parse`] says.
    pub fn from_str(line: &str) -> (r: Result<Contact, Error>)
        ensures
            r matches Ok(b) ==> Contact::spec_parse(line@) matches Ok(v) && b@ == v,
            r matches Err(e) ==> Contact::spec_parse(line@) matches Err(e2) && e == e2,
    {
        let n = line.unicode_len();
        if n < 7 {
            return Err(Error::OutOfBounds);
        }
        let rest = line.substring_char(7, n);
        proof {
            assert(rest@ =~= line@.subrange(7, n as int));
        }
        let mut cursor = LineCursor::new(rest);
        let index: usize = match cursor.parse_with_space() {
            Ok(v) => v,
            Err(e) => {
                return Err(e);
            },
        };
        let pair: Pair = match cursor.parse_with_space() {
            Ok(v) => v,
            Err(e) => {
                return Err(e);
            },
        };
        let length: Fixed = match cursor.parse() {
            Ok(v) => v,
            Err(e) => {
                return Err(e);
            },
        };
        let factor: Fixed = match cursor.parse() {
            Ok(v) => v,
            Err(e) => {
                return Err(e);
            },
        };
        let dummy: usize = match cursor.parse_with_space() {
            Ok(v) => v,
            Err(e) => {
                return Err(e);
            },
        };
        let coefficient: Fixed = match cursor.parse() {
            Ok(v) => v,
            Err(e) => {
                return Err(e);
            },
        };
        let ty: String = match take_tag(&mut cursor, 4) {
            Ok(v) => v,
            Err(e) => {
                return Err(e);
            },
        };
        Ok(Contact { index, pair, length, factor, dummy, coefficient, ty })
    }

    /// Format the record back into its exact line text.
    pub fn to_string(&self) -> (r: String)
        ensures
            r@ == self@.text(),
    {
        let mut out = String::new();
        out.append("contact");
        proof {
            reveal_strlit("contact");
            assert(out@ =~= contact_label());
        }
        write_with_space(&mut out, &self.index);
        write_with_space(&mut out, &self.pair);
        crate::line::write(&mut out, &self.length);
        crate::line::write(&mut out, &self.factor);
        write_with_space(&mut out, &self.dummy);
        crate::line::write(&mut out, &self.coefficient);
        out.append(" ");
        out.append(self.ty.as_str());
        proof {
            reveal_strlit(" ");
            assert(out@ =~= self@.text());
        }
        out
    }
}

/// The round-trip law for this record kind: the text of a well-formed
/// record parses back to exactly that record, so formatting a parsed
/// well-formed line reproduces the line.
#[verifier::rlimit(100)]
pub proof fn lemma_contact_round_trip(v: ContactV)
    requires
        v.wf(),
    ensures
        Contact::spec_parse(v.text()) == Ok::<ContactV, Error>(v),
{
    let line = v.text();
    lemma_pair_len(v.pair);
    assert(line.len() == 103);
    let rest = line.subrange(7, line.len() as int);
    assert(rest.subrange(1, 7) =~= uint_field(v.index));
    lemma_uint_field_at(rest, 1, v.index);
    assert(rest.subrange(8, 49) =~= v.pair.sfmt());
    lemma_pair_at(rest, 8, v.pair);
    assert(rest.subrange(49, 61) =~= fixed_field(v.length));
    lemma_fixed_field_at(rest, 49, v.length);
    assert(rest.subrange(61, 73) =~= fixed_field(v.factor));
    lemma_fixed_field_at(rest, 61, v.factor);
    assert(rest.subrange(74, 80) =~= uint_field(v.dummy));
    lemma_uint_field_at(rest, 74, v.dummy);
    assert(rest.subrange(80, 92) =~= fixed_field(v.coefficient));
    lemma_fixed_field_at(rest, 80, v.coefficient);
    assert(rest.subrange(92, 96) =~= seq![' '] + v.ty);
    lemma_tag_at(rest, 92, v.ty);
    assert(Contact::spec_parse(line) matches Ok(w) && w =~= v);
}

/// The label of the record line.
pub open spec fn aicg_angle_label() -> Seq<char> {
    seq!['a', 'i', 'c', 'g', '1', '3']
}

/// An AICG 1-3 contact record: a triple of particles, the measured
/// value, and its force-field coefficients.
pub struct AICGAngle {
    /// The 1-based sequence number within the block.
    pub index: usize,
    /// The three particles of the record.
    pub triple: Triple,
    /// The measured value.
    pub value: Fixed,
    /// The scaling factor.
    pub factor: Fixed,
    /// The multi-Go correction factor.
    pub correct_mgo: Fixed,
    /// The force coefficient.
    pub coefficient: Fixed,
    /// The Gaussian width.
    pub width: Fixed,
    /// The short type tag.
    pub ty: String,
}

/// The mathematical value of an [`AICGAngle`]: its view.
#[verifier::ext_equal]
pub ghost struct AICGAngleV {
    /// The 1-based sequence number within the block.
    pub index: usize,
    /// The three particles of the record.
    pub triple: Triple,
    /// The measured value.
    pub value: Fixed,
    /// The scaling factor.
    pub factor: Fixed,
    /// The multi-Go correction factor.
    pub correct_mgo: Fixed,
    /// The force coefficient.
    pub coefficient: Fixed,
    /// The Gaussian width.
    pub width: Fixed,
    /// The short type tag.
    pub ty: Seq<char>,
}

impl View for AICGAngle {
    type V = AICGAngleV;

    open spec fn view(&self) -> AICGAngleV {
        AICGAngleV {
            index: self.index,
            triple: self.triple,
            value: self.value,
            factor: self.factor,
            correct_mgo: self.correct_mgo,
            coefficient: self.coefficient,
            width: self.width,
            ty: self.ty@,
        }
    }
}

impl AICGAngleV {
    /// The exact text of the record line.
    pub open spec fn text(self) -> Seq<char> {
        aicg_angle_label() + seq![' '] + uint_field(self.index) + seq![' '] + self.triple.sfmt() + seq![' '] + fixed_field(self.value) + seq![' '] + fixed_field(self.factor) + seq![' '] + fixed_field(self.correct_mgo) + seq![' '] + fixed_field(self.coefficient) + seq![' '] + fixed_field(self.width) + seq![' '] + self.ty
    }

    /// Well-formedness for the round-trip law: every field fits its fixed
    /// width, the group is consistent, and the tag has no space at either
    /// end.
    pub open spec fn wf(self) -> bool {
        &&& fits6(self.index)
        &&& self.triple.valid()
        &&& self.value.fits(12)
        &&& self.factor.fits(12)
        &&& self.correct_mgo.fits(12)
        &&& self.coefficient.fits(12)
        &&& self.width.fits(12)
        &&& self.ty.len() == 3
        &&& !crate::text::is_space(self.ty[0])
        &&& !crate::text::is_space(self.ty.last())
    }
}

impl AICGAngle {
    /// The mathematical parse of one record line of this kind.
    pub open spec fn spec_parse(line: Seq<char>) -> Result<AICGAngleV, Error> {
        if line.len() < 6 {
            Err(Error::OutOfBounds)
        } else {
            let rest = line.subrange(6, line.len() as int);
            match <usize as Parsable>::sparse(rest, 1) {
                Err(e) => Err(e),
                Ok((index, p1)) => {
                    match <Triple as Parsable>::sparse(rest, p1 + 1) {
                        Err(e) => Err(e),
                        Ok((triple, p2)) => {
                            match <Fixed as Parsable>::sparse(rest, p2 + 1) {
                                Err(e) => Err(e),
                                Ok((value, p3)) => {
                                    match <Fixed as Parsable>::sparse(rest, p3 + 1) {
                                        Err(e) => Err(e),
                                        Ok((factor, p4)) => {
                                            match <Fixed as Parsable>::sparse(rest, p4 + 1) {
                                                Err(e) => Err(e),
                                                Ok((correct_mgo, p5)) => {
                                                    match <Fixed as Parsable>::sparse(rest, p5 + 1) {
                                                        Err(e) => Err(e),
                                                        Ok((coefficient, p6)) => {
                                                            match <Fixed as Parsable>::sparse(rest, p6 + 1) {
                                                                Err(e) => Err(e),
                                                                Ok((width, p7)) => {
                                                                    match sparse_tag(rest, p7, 4) {
                                                                        Err(e) => Err(e),
                                                                        Ok((ty, _pend)) => Ok(
                                                                            AICGAngleV {
                                                                                index,
                                                                                triple,
                                                                                value,
                                                                                factor,
                                                                                correct_mgo,
                                                                                coefficient,
                                                                                width,
                                                                                ty,
                                                                            },
                                                                        ),
                                                                    }
                                                                },
                                                            }
                                                        },
                                                    }
                                                },
                                            }
                                        },
                                    }
                                },
                            }
                        },
                    }
                },
            }
        }
    }

    /// Parse one record line, exactly as [`AICGAngle::spec_parse`] says.
    pub fn from_str(line: &str) -> (r: Result<AICGAngle, Error>)
        ensures
            r matches Ok(b) ==> AICGAngle::spec_parse(line@) matches Ok(v) && b@ == v,
            r matches Err(e) ==> AICGAngle::spec_parse(line@) matches Err(e2) && e == e2,
    {
        let n = line.unicode_len();
        if n < 6 {
            return Err(Error::OutOfBounds);
        }
        let rest = line.substring_char(6, n);
        proof {
            assert(rest@ =~= line@.subrange(6, n as int));
        }
        let mut cursor = LineCursor::new(rest);
        let index: usize = match cursor.parse_with_space() {
            Ok(v) => v,
            Err(e) => {
                return Err(e);
            },
        };
        let triple: Triple = match cursor.parse_with_space() {
            Ok(v) => v,
            Err(e) => {
                return Err(e);
            },
        };
        let value: Fixed = match cursor.parse_with_space() {
            Ok(v) => v,
            Err(e) => {
                return Err(e);
            },
        };
        let factor: Fixed = match cursor.parse_with_space() {
            Ok(v) => v,
            Err(e) => {
                return Err(e);
            },
        };
        let correct_mgo: Fixed = match cursor.parse_with_space() {
            Ok(v) => v,
            Err(e) => {
                return Err(e);
            },
        };
        let coefficient: Fixed = match cursor.parse_with_space() {
            Ok(v) => v,
            Err(e) => {
                return Err(e);
            },
        };
        let width: Fixed = match cursor.parse_with_space() {
            Ok(v) => v,
            Err(e) => {
                return Err(e);
            },
        };
        let ty: String = match take_tag(&mut cursor, 4) {
            Ok(v) => v,
            Err(e) => {
                return Err(e);
            },
        };
        Ok(AICGAngle { index, triple, value, factor, correct_mgo, coefficient, width, ty })
    }

    /// Format the record back into its exact line text.
    pub fn to_string(&self) -> (r: String)
        ensures
            r@ == self@.text(),
    {
        let mut out = String::new();
        out.append("aicg13");
        proof {
            reveal_strlit("aicg13");
            assert(out@ =~= aicg_angle_label());
        }
        write_with_space(&mut out, &self.index);
        write_with_space(&mut out, &self.triple);
        write_with_space(&mut out, &self.value);
        write_with_space(&mut out, &self.factor);
        write_with_space(&mut out, &self.correct_mgo);
        write_with_space(&mut out, &self.coefficient);
        write_with_space(&mut out, &self.width);
        out.append(" ");
        out.append(self.ty.as_str());
        proof {
            reveal_strlit(" ");
            assert(out@ =~= self@.text());
        }
        out
    }
}

/// The round-trip law for this record kind: the text of a well-formed
/// record parses back to exactly that record, so formatting a parsed
/// well-formed line reproduces the line.
#[verifier::rlimit(100)]
pub proof fn lemma_aicg_angle_round_trip(v: AICGAngleV)
    requires
        v.wf(),
    ensures
        AICGAngle::spec_parse(v.text()) == Ok::<AICGAngleV, Error>(v),
{
    let line = v.text();
    lemma_triple_len(v.triple);
    assert(line.len() == 138);
    let rest = line.subrange(6, line.len() as int);
    assert(rest.subrange(1, 7) =~= uint_field(v.index));
    lemma_uint_field_at(rest, 1, v.index);
    assert(rest.subrange(8, 63) =~= v.triple.sfmt());
    lemma_triple_at(rest, 8, v.triple);
    assert(rest.subrange(64, 76) =~= fixed_field(v.value));
    lemma_fixed_field_at(rest, 64, v.value);
    assert(rest.subrange(77, 89) =~= fixed_field(v.factor));
    lemma_fixed_field_at(rest, 77, v.factor);
    assert(rest.subrange(90, 102) =~= fixed_field(v.correct_mgo));
    lemma_fixed_field_at(rest, 90, v.correct_mgo);
    assert(rest.subrange(103, 115) =~= fixed_field(v.coefficient));
    lemma_fixed_field_at(rest, 103, v.coefficient);
    assert(rest.subrange(116, 128) =~= fixed_field(v.width));
    lemma_fixed_field_at(rest, 116, v.width);
    assert(rest.subrange(128, 132) =~= seq![' '] + v.ty);
    lemma_tag_at(rest, 128, v.ty);
    assert(AICGAngle::spec_parse(line) matches Ok(w) && w =~= v);
}

/// The label of the record line.
pub open spec fn aicg_dihedral_label() -> Seq<char> {
    seq!['a', 'i', 'c', 'g', 'd', 'i', 'h']
}

/// An AICG 1-4 contact record: a quad of particles, the measured value,
/// and its force-field coefficients.
pub struct AICGDihedralAngle {
    /// The 1-based sequence number within the block.
    pub index: usize,
    /// The four particles of the record.
    pub quad: Quad,
    /// The measured value.
    pub value: Fixed,
    /// The scaling factor.
    pub factor: Fixed,
    /// The multi-Go correction factor.
    pub correct_mgo: Fixed,
    /// The force coefficient.
    pub coefficient: Fixed,
    /// The Gaussian width.
    pub width: Fixed,
    /// The short type tag.
    pub ty: String,
}

/// The mathematical value of an [`AICGDihedralAngle`]: its view.
#[verifier::ext_equal]
pub ghost struct AICGDihedralAngleV {
    /// The 1-based sequence number within the block.
    pub index: usize,
    /// The four particles of the record.
    pub quad: Quad,
    /// The measured value.
    pub value: Fixed,
    /// The scaling factor.
    pub factor: Fixed,
    /// The multi-Go correction factor.
    pub correct_mgo: Fixed,
    /// The force coefficient.
    pub coefficient: Fixed,
    /// The Gaussian width.
    pub width: Fixed,
    /// The short type tag.
    pub ty: Seq<char>,
}

impl View for AICGDihedralAngle {
    type V = AICGDihedralAngleV;

    open spec fn view(&self) -> AICGDihedralAngleV {
        AICGDihedralAngleV {
            index: self.index,
            quad: self.quad,
            value: self.value,
            factor: self.factor,
            correct_mgo: self.correct_mgo,
            coefficient: self.coefficient,
            width: self.width,
            ty: self.ty@,
        }
    }
}

impl AICGDihedralAngleV {
    /// The exact text of the record line.
    pub open spec fn text(self) -> Seq<char> {
        aicg_dihedral_label() + seq![' '] + uint_field(self.index) + seq![' '] + self.quad.sfmt() + seq![' '] + fixed_field(self.value) + seq![' '] + fixed_field(self.factor) + seq![' '] + fixed_field(self.correct_mgo) + seq![' '] + fixed_field(self.coefficient) + seq![' '] + fixed_field(self.width) + seq![' '] + self.ty
    }

    /// Well-formedness for the round-trip law: every field fits its fixed
    /// width, the group is consistent, and the tag has no space at either
    /// end.
    pub open spec fn wf(self) -> bool {
        &&& fits6(self.index)
        &&& self.quad.valid()
        &&& self.value.fits(12)
        &&& self.factor.fits(12)
        &&& self.correct_mgo.fits(12)
        &&& self.coefficient.fits(12)
        &&& self.width.fits(12)
        &&& self.ty.len() == 4
        &&& !crate::text::is_space(self.ty[0])
        &&& !crate::text::is_space(self.ty.last())
    }
}

impl AICGDihedralAngle {
    /// The mathematical parse of one record line of this kind.
    pub open spec fn spec_parse(line: Seq<char>) -> Result<AICGDihedralAngleV, Error> {
        if line.len() < 7 {
            Err(Error::OutOfBounds)
        } else {
            let rest = line.subrange(7, line.len() as int);
            match <usize as Parsable>::sparse(rest, 1) {
                Err(e) => Err(e),
                Ok((index, p1)) => {
                    match <Quad as Parsable>::sparse(rest, p1 + 1) {
                        Err(e) => Err(e),
                        Ok((quad, p2)) => {
                            match <Fixed as Parsable>::sparse(rest, p2 + 1) {
                                Err(e) => Err(e),
                                Ok((value, p3)) => {
                                    match <Fixed as Parsable>::sparse(rest, p3 + 1) {
                                        Err(e) => Err(e),
                                        Ok((factor, p4)) => {
                                            match <Fixed as Parsable>::sparse(rest, p4 + 1) {
                                                Err(e) => Err(e),
                                                Ok((correct_mgo, p5)) => {
                                                    match <Fixed as Parsable>::sparse(rest, p5 + 1) {
                                                        Err(e) => Err(e),
                                                        Ok((coefficient, p6)) => {
                                                            match <Fixed as Parsable>::sparse(rest, p6 + 1) {
                                                                Err(e) => Err(e),
                                                                Ok((width, p7)) => {
                                                                    match sparse_tag(rest, p7, 5) {
                                                                        Err(e) => Err(e),
                                                                        Ok((ty, _pend)) => Ok(
                                                                            AICGDihedralAngleV {
                                                                                index,
                                                                                quad,
                                                                                value,
                                                                                factor,
                                                                                correct_mgo,
                                                                                coefficient,
                                                                                width,
                                                                                ty,
                                                                            },
                                                                        ),
                                                                    }
                                                                },
                                                            }
                                                        },
                                                    }
                                                },
                                            }
                                        },
                                    }
                                },
                            }
                        },
                    }
                },
            }
        }
    }

    /// Parse one record line, exactly as [`AICGDihedralAngle::spec_parse`] says.
    pub fn from_str(line: &str) -> (r: Result<AICGDihedralAngle, Error>)
        ensures
            r matches Ok(b) ==> AICGDihedralAngle::spec_parse(line@) matches Ok(v) && b@ == v,
            r matches Err(e) ==> AICGDihedralAngle::spec_parse(line@) matches Err(e2) && e == e2,
    {
        let n = line.unicode_len();
        if n < 7 {
            return Err(Error::OutOfBounds);
        }
        let rest = line.substring_char(7, n);
        proof {
            assert(rest@ =~= line@.subrange(7, n as int));
        }
        let mut cursor = LineCursor::new(rest);
        let index: usize = match cursor.parse_with_space() {
            Ok(v) => v,
            Err(e) => {
                return Err(e);
            },
        };
        let quad: Quad = match cursor.parse_with_space() {
            Ok(v) => v,
            Err(e) => {
                return Err(e);
            },
        };
        let value: Fixed = match cursor.parse_with_space() {
            Ok(v) => v,
            Err(e) => {
                return Err(e);
            },
        };
        let factor: Fixed = match cursor.parse_with_space() {
            Ok(v) => v,
            Err(e) => {
                return Err(e);
            },
        };
        let correct_mgo: Fixed = match cursor.parse_with_space() {
            Ok(v) => v,
            Err(e) => {
                return Err(e);
            },
        };
        let coefficient: Fixed = match cursor.parse_with_space() {
            Ok(v) => v,
            Err(e) => {
                return Err(e);
            },
        };
        let width: Fixed = match cursor.parse_with_space() {
            Ok(v) => v,
            Err(e) => {
                return Err(e);
            },
        };
        let ty: String = match take_tag(&mut cursor, 5) {
            Ok(v) => v,
            Err(e) => {
                return Err(e);
            },
        };
        Ok(AICGDihedralAngle { index, quad, value, factor, correct_mgo, coefficient, width, ty })
    }

    /// Format the record back into its exact line text.
    pub fn to_string(&self) -> (r: String)
        ensures
            r@ == self@.text(),
    {
        let mut out = String::new();
        out.append("aicgdih");
        proof {
            reveal_strlit("aicgdih");
            assert(out@ =~= aicg_dihedral_label());
        }
        write_with_space(&mut out, &self.index);
        write_with_space(&mut out, &self.quad);
        write_with_space(&mut out, &self.value);
        write_with_space(&mut out, &self.factor);
        write_with_space(&mut out, &self.correct_mgo);
        write_with_space(&mut out, &self.coefficient);
        write_with_space(&mut out, &self.width);
        out.append(" ");
        out.append(self.ty.as_str());
        proof {
            reveal_strlit(" ");
            assert(out@ =~= self@.text());
        }
        out
    }
}

#[verifier::rlimit(100)]
proof fn lemma_aicg_dihedral_angle_front(v: AICGDihedralAngleV)
    requires
        v.wf(),
    ensures
        v.text().len() == 154,
        ({ let rest = v.text().subrange(7, v.text().len() as int);
        <usize as Parsable>::sparse(rest, 1) == Ok::<(usize, int), Error>((v.index, 7)) }),
        ({ let rest = v.text().subrange(7, v.text().len() as int);
        <Quad as Parsable>::sparse(rest, 8) == Ok::<(Quad, int), Error>((v.quad, 77)) }),
{
    let line = v.text();
    lemma_quad_len(v.quad);
    assert(line.len() == 154);
    let rest = line.subrange(7, line.len() as int);
    assert(rest.subrange(1, 7) =~= uint_field(v.index));
    lemma_uint_field_at(rest, 1, v.index);
    assert(rest.subrange(8, 77) =~= v.quad.sfmt());
    lemma_quad_at(rest, 8, v.quad);
}

#[verifier::rlimit(100)]
proof fn lemma_aicg_dihedral_angle_scalars(v: AICGDihedralAngleV)
    requires
        v.wf(),
    ensures
        ({ let rest = v.text().subrange(7, v.text().len() as int);
        <Fixed as Parsable>::sparse(rest, 78) == Ok::<(Fixed, int), Error>((v.value, 90)) }),
        ({ let rest = v.text().subrange(7, v.text().len() as int);
        <Fixed as Parsable>::sparse(rest, 91) == Ok::<(Fixed, int), Error>((v.factor, 103)) }),
        ({ let rest = v.text().subrange(7, v.text().len() as int);
        <Fixed as Parsable>::sparse(rest, 104) == Ok::<(Fixed, int), Error>((v.correct_mgo, 116)) }),
        ({ let rest = v.text().subrange(7, v.text().len() as int);
        <Fixed as Parsable>::sparse(rest, 117) == Ok::<(Fixed, int), Error>((v.coefficient, 129)) }),
        ({ let rest = v.text().subrange(7, v.text().len() as int);
        <Fixed as Parsable>::sparse(rest, 130) == Ok::<(Fixed, int), Error>((v.width, 142)) }),
        ({ let rest = v.text().subrange(7, v.text().len() as int);
        sparse_tag(rest, 142, 5) == Ok::<(Seq<char>, int), Error>((v.ty, 147)) }),
{
    let line = v.text();
    lemma_quad_len(v.quad);
    assert(line.len() == 154);
    let rest = line.subrange(7, line.len() as int);
    assert(rest.subrange(78, 90) =~= fixed_field(v.value));
    lemma_fixed_field_at(rest, 78, v.value);
    assert(rest.subrange(91, 103) =~= fixed_field(v.factor));
    lemma_fixed_field_at(rest, 91, v.factor);
    assert(rest.subrange(104, 116) =~= fixed_field(v.correct_mgo));
    lemma_fixed_field_at(rest, 104, v.correct_mgo);
    assert(rest.subrange(117, 129) =~= fixed_field(v.coefficient));
    lemma_fixed_field_at(rest, 117, v.coefficient);
    assert(rest.subrange(130, 142) =~= fixed_field(v.width));
    lemma_fixed_field_at(rest, 130, v.width);
    assert(rest.subrange(142, 147) =~= seq![' '] + v.ty);
    lemma_tag_at(rest, 142, v.ty);
}

/// The round-trip law for this record kind: the text of a well-formed
/// record parses back to exactly that record, so formatting a parsed
/// well-formed line reproduces the line.
#[verifier::rlimit(100)]
pub proof fn lemma_aicg_dihedral_angle_round_trip(v: AICGDihedralAngleV)
    requires
        v.wf(),
    ensures
        AICGDihedralAngle::spec_parse(v.text()) == Ok::<AICGDihedralAngleV, Error>(v),
{
    lemma_aicg_dihedral_angle_front(v);
    lemma_aicg_dihedral_angle_scalars(v);
    assert(AICGDihedralAngle::spec_parse(v.text()) matches Ok(w) && w =~= v);
}


/// A record kind: a typed line with an exact fixed-width layout, readable
/// by the document assembler.
pub trait Record: View + Sized {
    /// The mathematical parse of one line as this kind.
    spec fn parse_spec(line: Seq<char>) -> Result<Self::V, Error>;

    /// The records obtained from a sequence of lines: each line parsed as
    /// this kind, keeping the successes in order.
    spec fn parsed(ls: Seq<Seq<char>>) -> Seq<Self::V>;

    /// How [`Record::parsed`] unfolds, one line at a time from the back.
    proof fn parsed_unfold(ls: Seq<Seq<char>>)
        ensures
            ls.len() == 0 ==> Self::parsed(ls) == Seq::<Self::V>::empty(),
            ls.len() > 0 ==> Self::parsed(ls) == Self::parsed(ls.drop_last()) + (
            match Self::parse_spec(ls.last()) {
                Ok(v) => seq![v],
                Err(_) => Seq::<Self::V>::empty(),
            }),
    ;

    /// Parse one line, exactly as [`Record::parse_spec`] says.
    fn parse_line(line: &str) -> (r: Result<Self, Error>)
        ensures
            r matches Ok(b) ==> Self::parse_spec(line@) matches Ok(v) && b@ == v,
            r matches Err(e) ==> Self::parse_spec(line@) matches Err(e2) && e == e2,
    ;
}

/// Parse every line of a block as records of kind `T`, keeping the
/// successes in order and silently dropping lines that fail to parse.
pub fn convert_all<T: Record>(lines: &Vec<String>) -> (r: Vec<T>)
    ensures
        r@.map_values(|t: T| t@) == T::parsed(crate::block::line_views(lines@)),
{
    let mut out: Vec<T> = Vec::new();
    let mut i: usize = 0;
    proof {
        T::parsed_unfold(crate::block::line_views(lines@.subrange(0, 0)));
        assert(lines@.subrange(0, 0) =~= Seq::<String>::empty());
        assert(crate::block::line_views(lines@.subrange(0, 0)) =~= Seq::<Seq<char>>::empty());
        assert(out@.map_values(|t: T| t@) =~= Seq::<T::V>::empty());
    }
    while i < lines.len()
        invariant
            i <= lines@.len(),
            out@.map_values(|t: T| t@) == T::parsed(
                crate::block::line_views(lines@.subrange(0, i as int)),
            ),
        decreases lines@.len() - i,
    {
        let ghost before = out@;
        let r = T::parse_line(lines[i].as_str());
        proof {
            let pre = crate::block::line_views(lines@.subrange(0, i as int));
            let cur = crate::block::line_views(lines@.subrange(0, i + 1));
            T::parsed_unfold(cur);
            assert(cur.drop_last() =~= pre);
            assert(cur.last() == lines@[i as int]@);
        }
        match r {
            Ok(rec) => {
                out.push(rec);
                proof {
                    assert(out@.map_values(|t: T| t@) =~= before.map_values(|t: T| t@).push(
                        out@.last()@,
                    ));
                    assert(before.map_values(|t: T| t@).push(out@.last()@) =~= before.map_values(
                        |t: T| t@,
                    ) + seq![out@.last()@]);
                }
            },
            Err(_) => {
                proof {
                    assert(before.map_values(|t: T| t@) + Seq::<T::V>::empty() =~= before.map_values(
                        |t: T| t@,
                    ));
                }
            },
        }
        i = i + 1;
    }
    proof {
        assert(lines@.subrange(0, lines@.len() as int) =~= lines@);
    }
    out
}


impl Record for Bond {
    open spec fn parse_spec(line: Seq<char>) -> Result<BondV, Error> {
        Bond::spec_parse(line)
    }

    open spec fn parsed(ls: Seq<Seq<char>>) -> Seq<BondV>
        decreases ls.len(),
    {
        if ls.len() == 0 {
            Seq::empty()
        } else {
            Self::parsed(ls.drop_last()) + (match Bond::spec_parse(ls.last()) {
                Ok(v) => seq![v],
                Err(_) => Seq::empty(),
            })
        }
    }

    proof fn parsed_unfold(ls: Seq<Seq<char>>) {
    }

    fn parse_line(line: &str) -> (r: Result<Bond, Error>) {
        Bond::from_str(line)
    }
}


impl Record for Angle {
    open spec fn parse_spec(line: Seq<char>) -> Result<AngleV, Error> {
        Angle::spec_parse(line)
    }

    open spec fn parsed(ls: Seq<Seq<char>>) -> Seq<AngleV>
        decreases ls.len(),
    {
        if ls.len() == 0 {
            Seq::empty()
        } else {
            Self::parsed(ls.drop_last()) + (match Angle::spec_parse(ls.last()) {
                Ok(v) => seq![v],
                Err(_) => Seq::empty(),
            })
        }
    }

    proof fn parsed_unfold(ls: Seq<Seq<char>>) {
    }

    fn parse_line(line: &str) -> (r: Result<Angle, Error>) {
        Angle::from_str(line)
    }
}


impl Record for DihedralAngle {
    open spec fn parse_spec(line: Seq<char>) -> Result<DihedralAngleV, Error> {
        DihedralAngle::spec_parse(line)
    }

    open spec fn parsed(ls: Seq<Seq<char>>) -> Seq<DihedralAngleV>
        decreases ls.len(),
    {
        if ls.len() == 0 {
            Seq::empty()
        } else {
            Self::parsed(ls.drop_last()) + (match DihedralAngle::spec_parse(ls.last()) {
                Ok(v) => seq![v],
                Err(_) => Seq::empty(),
            })
        }
    }

    proof fn parsed_unfold(ls: Seq<Seq<char>>) {
    }

    fn parse_line(line: &str) -> (r: Result<DihedralAngle, Error>) {
        DihedralAngle::from_str(line)
    }
}


impl Record for Contact {
    open spec fn parse_spec(line: Seq<char>) -> Result<ContactV, Error> {
        Contact::spec_parse(line)
    }

    open spec fn parsed(ls: Seq<Seq<char>>) -> Seq<ContactV>
        decreases ls.len(),
    {
        if ls.len() == 0 {
            Seq::empty()
        } else {
            Self::parsed(ls.drop_last()) + (match Contact::spec_parse(ls.last()) {
                Ok(v) => seq![v],
                Err(_) => Seq::empty(),
            })
        }
    }

    proof fn parsed_unfold(ls: Seq<Seq<char>>) {
    }

    fn parse_line(line: &str) -> (r: Result<Contact, Error>) {
        Contact::from_str(line)
    }
}


impl Record for AICGAngle {
    open spec fn parse_spec(line: Seq<char>) -> Result<AICGAngleV, Error> {
        AICGAngle::spec_parse(line)
    }

    open spec fn parsed(ls: Seq<Seq<char>>) -> Seq<AICGAngleV>
        decreases ls.len(),
    {
        if ls.len() == 0 {
            Seq::empty()
        } else {
            Self::parsed(ls.drop_last()) + (match AICGAngle::spec_parse(ls.last()) {
                Ok(v) => seq![v],
                Err(_) => Seq::empty(),
            })
        }
    }

    proof fn parsed_unfold(ls: Seq<Seq<char>>) {
    }

    fn parse_line(line: &str) -> (r: Result<AICGAngle, Error>) {
        AICGAngle::from_str(line)
    }
}


impl Record for AICGDihedralAngle {
    open spec fn parse_spec(line: Seq<char>) -> Result<AICGDihedralAngleV, Error> {
        AICGDihedralAngle::spec_parse(line)
    }

    open spec fn parsed(ls: Seq<Seq<char>>) -> Seq<AICGDihedralAngleV>
        decreases ls.len(),
    {
        if ls.len() == 0 {
            Seq::empty()
        } else {
            Self::parsed(ls.drop_last()) + (match AICGDihedralAngle::spec_parse(ls.last()) {
                Ok(v) => seq![v],
                Err(_) => Seq::empty(),
            })
        }
    }

    proof fn parsed_unfold(ls: Seq<Seq<char>>) {
    }

    fn parse_line(line: &str) -> (r: Result<AICGDihedralAngle, Error>) {
        AICGDihedralAngle::from_str(line)
    }
}


} // verus!
