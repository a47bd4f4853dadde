//! The particle-group sub-grammar shared by every record kind.
//!
//! After its index field, every record carries a group of two, three or four
//! particles, laid out as: a unit field, a repeated unit field, one index
//! field per particle, and one intra-unit index field per particle. The two
//! unit fields must agree; a mismatch is an [`Error::InconsistentUnit`]
//! parse failure, never silently corrected. Which of the two unit columns
//! each particle receives is fixed per arity, following the source format.
use vstd::prelude::*;

use crate::error::Error;
use crate::line::fits6;
use crate::line::lemma_uint_field_at;
use crate::line::uint_field;
use crate::line::write_with_space;
use crate::line::Formattable;
use crate::line::LineCursor;
use crate::line::Parsable;

verus! {

/// One atom or residue reference: its unit, its global index, and its index
/// within the unit.
#[derive(Clone, Copy, Debug, PartialEq, Eq, Structural)]
pub struct Particle {
    /// The unit (chain) the particle belongs to.
    pub unit: usize,
    /// The global particle index.
    pub index: usize,
    /// The particle index within its unit.
    pub intra_index: usize,
}

/// An ordered group of two particles.
#[derive(Clone, Copy, Debug, PartialEq, Eq, Structural)]
pub struct Pair(pub Particle, pub Particle);

/// An ordered group of three particles.
#[derive(Clone, Copy, Debug, PartialEq, Eq, Structural)]
pub struct Triple(pub Particle, pub Particle, pub Particle);

/// An ordered group of four particles.
#[derive(Clone, Copy, Debug, PartialEq, Eq, Structural)]
pub struct Quad(pub Particle, pub Particle, pub Particle, pub Particle);

impl Pair {
    /// Group well-formedness for the round-trip law: both particles carry
    /// the same unit and every number fits its six-column field.
    pub open spec fn valid(self) -> bool {
        &&& self.0.unit == self.1.unit
        &&& fits6(self.0.unit)
        &&& fits6(self.0.index)
        &&& fits6(self.1.index)
        &&& fits6(self.0.intra_index)
        &&& fits6(self.1.intra_index)
    }
}

impl Triple {
    /// Group well-formedness for the round-trip law.
    pub open spec fn valid(self) -> bool {
        &&& self.0.unit == self.1.unit
        &&& self.1.unit == self.2.unit
        &&& fits6(self.0.unit)
        &&& fits6(self.0.index)
        &&& fits6(self.1.index)
        &&& fits6(self.2.index)
        &&& fits6(self.0.intra_index)
        &&& fits6(self.1.intra_index)
        &&& fits6(self.2.intra_index)
    }
}

impl Quad {
    /// Group well-formedness for the round-trip law.
    pub open spec fn valid(self) -> bool {
        &&& self.0.unit == self.1.unit
        &&& self.1.unit == self.2.unit
        &&& self.2.unit == self.3.unit
        &&& fits6(self.0.unit)
        &&& fits6(self.0.index)
        &&& fits6(self.1.index)
        &&& fits6(self.2.index)
        &&& fits6(self.3.index)
        &&& fits6(self.0.intra_index)
        &&& fits6(self.1.intra_index)
        &&& fits6(self.2.intra_index)
        &&& fits6(self.3.intra_index)
    }
}

impl Parsable for Pair {
    /// Unit, repeated unit (validated), two indices, two intra-unit
    /// indices; the first particle takes the first unit column, the second
    /// the repeated one.
    open spec fn sparse(line: Seq<char>, pos: int) -> Result<(Pair, int), Error> {
        match <usize as Parsable>::sparse(line, pos) {
            Err(e) => Err(e),
            Ok((u0, p1)) => match <usize as Parsable>::sparse(line, p1 + 1) {
                Err(e) => Err(e),
                Ok((u1, p2)) => if u0 != u1 {
                    Err(Error::InconsistentUnit)
                } else {
                    match <usize as Parsable>::sparse(line, p2 + 1) {
                        Err(e) => Err(e),
                        Ok((i0, p3)) => match <usize as Parsable>::sparse(line, p3 + 1) {
                            Err(e) => Err(e),
                            Ok((i1, p4)) => match <usize as Parsable>::sparse(line, p4 + 1) {
                                Err(e) => Err(e),
                                Ok((a0, p5)) => match <usize as Parsable>::sparse(line, p5 + 1) {
                                    Err(e) => Err(e),
                                    Ok((a1, p6)) => Ok(
                                        (
                                            Pair(
                                                Particle { unit: u0, index: i0, intra_index: a0 },
                                                Particle { unit: u1, index: i1, intra_index: a1 },
                                            ),
                                            p6,
                                        ),
                                    ),
                                },
                            },
                        },
                    }
                },
            },
        }
    }

    proof fn sparse_oob(line: Seq<char>, pos: int) {
        <usize as Parsable>::sparse_oob(line, pos);
    }

    fn parse_from(cursor: &mut LineCursor<'_>) -> (r: Result<Pair, Error>) {
        let u0: usize = match cursor.parse() {
            Ok(v) => v,
            Err(e) => {
                return Err(e);
            },
        };
        let u1: usize = match cursor.parse_with_space() {
            Ok(v) => v,
            Err(e) => {
                return Err(e);
            },
        };
        if u0 != u1 {
            return Err(Error::InconsistentUnit);
        }
        let i0: usize = match cursor.parse_with_space() {
            Ok(v) => v,
            Err(e) => {
                return Err(e);
            },
        };
        let i1: usize = match cursor.parse_with_space() {
            Ok(v) => v,
            Err(e) => {
                return Err(e);
            },
        };
        let a0: usize = match cursor.parse_with_space() {
            Ok(v) => v,
            Err(e) => {
                return Err(e);
            },
        };
        let a1: usize = match cursor.parse_with_space() {
            Ok(v) => v,
            Err(e) => {
                return Err(e);
            },
        };
        Ok(
            Pair(
                Particle { unit: u0, index: i0, intra_index: a0 },
                Particle { unit: u1, index: i1, intra_index: a1 },
            ),
        )
    }
}

impl Formattable for Pair {
    /// Both unit columns, then the indices, then the intra-unit indices.
    open spec fn sfmt(&self) -> Seq<char> {
        uint_field(self.0.unit) + seq![' '] + uint_field(self.1.unit) + seq![' '] + uint_field(
            self.0.index,
        ) + seq![' '] + uint_field(self.1.index) + seq![' '] + uint_field(self.0.intra_index)
            + seq![' '] + uint_field(self.1.intra_index)
    }

    fn format_onto(&self, out: &mut String) {
        crate::line::write(out, &self.0.unit);
        write_with_space(out, &self.1.unit);
        write_with_space(out, &self.0.index);
        write_with_space(out, &self.1.index);
        write_with_space(out, &self.0.intra_index);
        write_with_space(out, &self.1.intra_index);
        proof {
            assert(out@ =~= old(out)@ + self.sfmt());
        }
    }
}

impl Parsable for Triple {
    /// Unit, repeated unit (validated), three indices, three intra-unit
    /// indices; the first particle takes the first unit column, the later
    /// two the repeated one.
    open spec fn sparse(line: Seq<char>, pos: int) -> Result<(Triple, int), Error> {
        match <usize as Parsable>::sparse(line, pos) {
            Err(e) => Err(e),
            Ok((u0, p1)) => match <usize as Parsable>::sparse(line, p1 + 1) {
                Err(e) => Err(e),
                Ok((u1, p2)) => if u0 != u1 {
                    Err(Error::InconsistentUnit)
                } else {
                    match <usize as Parsable>::sparse(line, p2 + 1) {
                        Err(e) => Err(e),
                        Ok((i0, p3)) => match <usize as Parsable>::sparse(line, p3 + 1) {
                            Err(e) => Err(e),
                            Ok((i1, p4)) => match <usize as Parsable>::sparse(line, p4 + 1) {
                                Err(e) => Err(e),
                                Ok((i2, p5)) => match <usize as Parsable>::sparse(line, p5 + 1) {
                                    Err(e) => Err(e),
                                    Ok((a0, p6)) => match <usize as Parsable>::sparse(
                                        line,
                                        p6 + 1,
                                    ) {
                                        Err(e) => Err(e),
                                        Ok((a1, p7)) => match <usize as Parsable>::sparse(
                                            line,
                                            p7 + 1,
                                        ) {
                                            Err(e) => Err(e),
                                            Ok((a2, p8)) => Ok(
                                                (
                                                    Triple(
                                                        Particle {
                                                            unit: u0,
                                                            index: i0,
                                                            intra_index: a0,
                                                        },
                                                        Particle {
                                                            unit: u1,
                                                            index: i1,
                                                            intra_index: a1,
                                                        },
                                                        Particle {
                                                            unit: u1,
                                                            index: i2,
                                                            intra_index: a2,
                                                        },
                                                    ),
                                                    p8,
                                                ),
                                            ),
                                        },
                                    },
                                },
                            },
                        },
                    }
                },
            },
        }
    }

    proof fn sparse_oob(line: Seq<char>, pos: int) {
        <usize as Parsable>::sparse_oob(line, pos);
    }

    fn parse_from(cursor: &mut LineCursor<'_>) -> (r: Result<Triple, Error>) {
        let u0: usize = match cursor.parse() {
            Ok(v) => v,
            Err(e) => {
                return Err(e);
            },
        };
        let u1: usize = match cursor.parse_with_space() {
            Ok(v) => v,
            Err(e) => {
                return Err(e);
            },
        };
        if u0 != u1 {
            return Err(Error::InconsistentUnit);
        }
        let i0: usize = match cursor.parse_with_space() {
            Ok(v) => v,
            Err(e) => {
                return Err(e);
            },
        };
        let i1: usize = match cursor.parse_with_space() {
            Ok(v) => v,
            Err(e) => {
                return Err(e);
            },
        };
        let i2: usize = match cursor.parse_with_space() {
            Ok(v) => v,
            Err(e) => {
                return Err(e);
            },
        };
        let a0: usize = match cursor.parse_with_space() {
            Ok(v) => v,
            Err(e) => {
                return Err(e);
            },
        };
        let a1: usize = match cursor.parse_with_space() {
            Ok(v) => v,
            Err(e) => {
                return Err(e);
            },
        };
        let a2: usize = match cursor.parse_with_space() {
            Ok(v) => v,
            Err(e) => {
                return Err(e);
            },
        };
        Ok(
            Triple(
                Particle { unit: u0, index: i0, intra_index: a0 },
                Particle { unit: u1, index: i1, intra_index: a1 },
                Particle { unit: u1, index: i2, intra_index: a2 },
            ),
        )
    }
}

impl Formattable for Triple {
    /// The first two particles' unit columns, then the indices, then the
    /// intra-unit indices.
    open spec fn sfmt(&self) -> Seq<char> {
        uint_field(self.0.unit) + seq![' '] + uint_field(self.1.unit) + seq![' '] + uint_field(
            self.0.index,
        ) + seq![' '] + uint_field(self.1.index) + seq![' '] + uint_field(self.2.index)
            + seq![' '] + uint_field(self.0.intra_index) + seq![' '] + uint_field(
            self.1.intra_index,
        ) + seq![' '] + uint_field(self.2.intra_index)
    }

    fn format_onto(&self, out: &mut String) {
        crate::line::write(out, &self.0.unit);
        write_with_space(out, &self.1.unit);
        write_with_space(out, &self.0.index);
        write_with_space(out, &self.1.index);
        write_with_space(out, &self.2.index);
        write_with_space(out, &self.0.intra_index);
        write_with_space(out, &self.1.intra_index);
        write_with_space(out, &self.2.intra_index);
        proof {
            assert(out@ =~= old(out)@ + self.sfmt());
        }
    }
}

impl Parsable for Quad {
    /// Unit, repeated unit (validated), four indices, four intra-unit
    /// indices; the first two particles take the first unit column, the
    /// last two the repeated one.
    open spec fn sparse(line: Seq<char>, pos: int) -> Result<(Quad, int), Error> {
        match <usize as Parsable>::sparse(line, pos) {
            Err(e) => Err(e),
            Ok((u0, p1)) => match <usize as Parsable>::sparse(line, p1 + 1) {
                Err(e) => Err(e),
                Ok((u1, p2)) => if u0 != u1 {
                    Err(Error::InconsistentUnit)
                } else {
                    match <usize as Parsable>::sparse(line, p2 + 1) {
                        Err(e) => Err(e),
                        Ok((i0, p3)) => match <usize as Parsable>::sparse(line, p3 + 1) {
                            Err(e) => Err(e),
                            Ok((i1, p4)) => match <usize as Parsable>::sparse(line, p4 + 1) {
                                Err(e) => Err(e),
                                Ok((i2, p5)) => match <usize as Parsable>::sparse(line, p5 + 1) {
                                    Err(e) => Err(e),
                                    Ok((i3, p6)) => match <usize as Parsable>::sparse(
                                        line,
                                        p6 + 1,
                                    ) {
                                        Err(e) => Err(e),
                                        Ok((a0, p7)) => match <usize as Parsable>::sparse(
                                            line,
                                            p7 + 1,
                                        ) {
                                            Err(e) => Err(e),
                                            Ok((a1, p8)) => match <usize as Parsable>::sparse(
                                                line,
                                                p8 + 1,
                                            ) {
                                                Err(e) => Err(e),
                                                Ok((a2, p9)) => match <usize as Parsable>::sparse(
                                                    line,
                                                    p9 + 1,
                                                ) {
                                                    Err(e) => Err(e),
                                                    Ok((a3, p10)) => Ok(
                                                        (
                                                            Quad(
                                                                Particle {
                                                                    unit: u0,
                                                                    index: i0,
                                                                    intra_index: a0,
                                                                },
                                                                Particle {
                                                                    unit: u0,
                                                                    index: i1,
                                                                    intra_index: a1,
                                                                },
                                                                Particle {
                                                                    unit: u1,
                                                                    index: i2,
                                                                    intra_index: a2,
                                                                },
                                                                Particle {
                                                                    unit: u1,
                                                                    index: i3,
                                                                    intra_index: a3,
                                                                },
                                                            ),
                                                            p10,
                                                        ),
                                                    ),
                                                },
                                            },
                                        },
                                    },
                                },
                            },
                        },
                    }
                },
            },
        }
    }

    proof fn sparse_oob(line: Seq<char>, pos: int) {
        <usize as Parsable>::sparse_oob(line, pos);
    }

    fn parse_from(cursor: &mut LineCursor<'_>) -> (r: Result<Quad, Error>) {
        let u0: usize = match cursor.parse() {
            Ok(v) => v,
            Err(e) => {
                return Err(e);
            },
        };
        let u1: usize = match cursor.parse_with_space() {
            Ok(v) => v,
            Err(e) => {
                return Err(e);
            },
        };
        if u0 != u1 {
            return Err(Error::InconsistentUnit);
        }
        let i0: usize = match cursor.parse_with_space() {
            Ok(v) => v,
            Err(e) => {
                return Err(e);
            },
        };
        let i1: usize = match cursor.parse_with_space() {
            Ok(v) => v,
            Err(e) => {
                return Err(e);
            },
        };
        let i2: usize = match cursor.parse_with_space() {
            Ok(v) => v,
            Err(e) => {
                return Err(e);
            },
        };
        let i3: usize = match cursor.parse_with_space() {
            Ok(v) => v,
            Err(e) => {
                return Err(e);
            },
        };
        let a0: usize = match cursor.parse_with_space() {
            Ok(v) => v,
            Err(e) => {
                return Err(e);
            },
        };
        let a1: usize = match cursor.parse_with_space() {
            Ok(v) => v,
            Err(e) => {
                return Err(e);
            },
        };
        let a2: usize = match cursor.parse_with_space() {
            Ok(v) => v,
            Err(e) => {
                return Err(e);
            },
        };
        let a3: usize = match cursor.parse_with_space() {
            Ok(v) => v,
            Err(e) => {
                return Err(e);
            },
        };
        Ok(
            Quad(
                Particle { unit: u0, index: i0, intra_index: a0 },
                Particle { unit: u0, index: i1, intra_index: a1 },
                Particle { unit: u1, index: i2, intra_index: a2 },
                Particle { unit: u1, index: i3, intra_index: a3 },
            ),
        )
    }
}

impl Formattable for Quad {
    /// The first and third particles' unit columns, then the indices, then
    /// the intra-unit indices.
    open spec fn sfmt(&self) -> Seq<char> {
        uint_field(self.0.unit) + seq![' '] + uint_field(self.2.unit) + seq![' '] + uint_field(
            self.0.index,
        ) + seq![' '] + uint_field(self.1.index) + seq![' '] + uint_field(self.2.index)
            + seq![' '] + uint_field(self.3.index) + seq![' '] + uint_field(self.0.intra_index)
            + seq![' '] + uint_field(self.1.intra_index) + seq![' '] + uint_field(
            self.2.intra_index,
        ) + seq![' '] + uint_field(self.3.intra_index)
    }

    #[verifier::rlimit(60)]
    fn format_onto(&self, out: &mut String) {
        crate::line::write(out, &self.0.unit);
        write_with_space(out, &self.2.unit);
        write_with_space(out, &self.0.index);
        write_with_space(out, &self.1.index);
        write_with_space(out, &self.2.index);
        write_with_space(out, &self.3.index);
        write_with_space(out, &self.0.intra_index);
        write_with_space(out, &self.1.intra_index);
        write_with_space(out, &self.2.intra_index);
        write_with_space(out, &self.3.intra_index);
        proof {
            assert(out@ =~= old(out)@ + self.sfmt());
        }
    }
}

/// An integer field that sits at local offset `o` of the formatted text `s`
/// embedded at `pos` in `line` parses back to its value.
proof fn lemma_group_field(line: Seq<char>, pos: int, s: Seq<char>, o: int, n: usize)
    requires
        0 <= pos,
        pos + s.len() <= line.len(),
        line.subrange(pos, pos + s.len() as int) == s,
        0 <= o,
        o + 6 <= s.len(),
        s.subrange(o, o + 6) == uint_field(n),
        fits6(n),
    ensures
        <usize as Parsable>::sparse(line, pos + o) == Ok::<(usize, int), Error>((n, pos + o + 6)),
{
    assert(line.subrange(pos + o, pos + o + 6) =~= uint_field(n)) by {
        assert forall|i: int| 0 <= i < 6 implies line.subrange(pos + o, pos + o + 6)[i]
            == uint_field(n)[i] by {
            assert(s[o + i] == line.subrange(pos, pos + s.len() as int)[o + i]);
            assert(s.subrange(o, o + 6)[i] == s[o + i]);
        }
    }
    lemma_uint_field_at(line, pos + o, n);
}

/// A well-formed pair group formats to exactly 41 characters.
pub proof fn lemma_pair_len(p: Pair)
    requires
        p.valid(),
    ensures
        p.sfmt().len() == 41,
{
}

/// A well-formed triple group formats to exactly 55 characters.
pub proof fn lemma_triple_len(t: Triple)
    requires
        t.valid(),
    ensures
        t.sfmt().len() == 55,
{
}

/// A well-formed quad group formats to exactly 69 characters.
pub proof fn lemma_quad_len(q: Quad)
    requires
        q.valid(),
    ensures
        q.sfmt().len() == 69,
{
}

/// A formatted pair group embedded in a line parses back to the group it
/// came from.
pub proof fn lemma_pair_at(line: Seq<char>, pos: int, p: Pair)
    requires
        0 <= pos,
        pos + 41 <= line.len(),
        p.valid(),
        line.subrange(pos, pos + 41) == p.sfmt(),
    ensures
        <Pair as Parsable>::sparse(line, pos) == Ok::<(Pair, int), Error>((p, pos + 41)),
{
    let s = p.sfmt();
    lemma_pair_len(p);
    assert(s.subrange(0, 6) =~= uint_field(p.0.unit));
    assert(s.subrange(7, 13) =~= uint_field(p.1.unit));
    assert(s.subrange(14, 20) =~= uint_field(p.0.index));
    assert(s.subrange(21, 27) =~= uint_field(p.1.index));
    assert(s.subrange(28, 34) =~= uint_field(p.0.intra_index));
    assert(s.subrange(35, 41) =~= uint_field(p.1.intra_index));
    lemma_group_field(line, pos, s, 0, p.0.unit);
    lemma_group_field(line, pos, s, 7, p.1.unit);
    lemma_group_field(line, pos, s, 14, p.0.index);
    lemma_group_field(line, pos, s, 21, p.1.index);
    lemma_group_field(line, pos, s, 28, p.0.intra_index);
    lemma_group_field(line, pos, s, 35, p.1.intra_index);
}

/// A formatted triple group embedded in a line parses back to the group it
/// came from.
pub proof fn lemma_triple_at(line: Seq<char>, pos: int, t: Triple)
    requires
        0 <= pos,
        pos + 55 <= line.len(),
        t.valid(),
        line.subrange(pos, pos + 55) == t.sfmt(),
    ensures
        <Triple as Parsable>::sparse(line, pos) == Ok::<(Triple, int), Error>((t, pos + 55)),
{
    let s = t.sfmt();
    lemma_triple_len(t);
    assert(s.subrange(0, 6) =~= uint_field(t.0.unit));
    assert(s.subrange(7, 13) =~= uint_field(t.1.unit));
    assert(s.subrange(14, 20) =~= uint_field(t.0.index));
    assert(s.subrange(21, 27) =~= uint_field(t.1.index));
    assert(s.subrange(28, 34) =~= uint_field(t.2.index));
    assert(s.subrange(35, 41) =~= uint_field(t.0.intra_index));
    assert(s.subrange(42, 48) =~= uint_field(t.1.intra_index));
    assert(s.subrange(49, 55) =~= uint_field(t.2.intra_index));
    lemma_group_field(line, pos, s, 0, t.0.unit);
    lemma_group_field(line, pos, s, 7, t.1.unit);
    lemma_group_field(line, pos, s, 14, t.0.index);
    lemma_group_field(line, pos, s, 21, t.1.index);
    lemma_group_field(line, pos, s, 28, t.2.index);
    lemma_group_field(line, pos, s, 35, t.0.intra_index);
    lemma_group_field(line, pos, s, 42, t.1.intra_index);
    lemma_group_field(line, pos, s, 49, t.2.intra_index);
}

/// A formatted quad group embedded in a line parses back to the group it
/// came from.
#[verifier::rlimit(60)]
pub proof fn lemma_quad_at(line: Seq<char>, pos: int, q: Quad)
    requires
        0 <= pos,
        pos + 69 <= line.len(),
        q.valid(),
        line.subrange(pos, pos + 69) == q.sfmt(),
    ensures
        <Quad as Parsable>::sparse(line, pos) == Ok::<(Quad, int), Error>((q, pos + 69)),
{
    let s = q.sfmt();
    lemma_quad_len(q);
    assert(s.subrange(0, 6) =~= uint_field(q.0.unit));
    assert(s.subrange(7, 13) =~= uint_field(q.2.unit));
    assert(s.subrange(14, 20) =~= uint_field(q.0.index));
    assert(s.subrange(21, 27) =~= uint_field(q.1.index));
    assert(s.subrange(28, 34) =~= uint_field(q.2.index));
    assert(s.subrange(35, 41) =~= uint_field(q.3.index));
    assert(s.subrange(42, 48) =~= uint_field(q.0.intra_index));
    assert(s.subrange(49, 55) =~= uint_field(q.1.intra_index));
    assert(s.subrange(56, 62) =~= uint_field(q.2.intra_index));
    assert(s.subrange(63, 69) =~= uint_field(q.3.intra_index));
    lemma_group_field(line, pos, s, 0, q.0.unit);
    lemma_group_field(line, pos, s, 7, q.2.unit);
    lemma_group_field(line, pos, s, 14, q.0.index);
    lemma_group_field(line, pos, s, 21, q.1.index);
    lemma_group_field(line, pos, s, 28, q.2.index);
    lemma_group_field(line, pos, s, 35, q.3.index);
    lemma_group_field(line, pos, s, 42, q.0.intra_index);
    lemma_group_field(line, pos, s, 49, q.1.intra_index);
    lemma_group_field(line, pos, s, 56, q.2.intra_index);
    lemma_group_field(line, pos, s, 63, q.3.intra_index);
}


/// Unit consistency: when the two unit columns of a group read as
/// different numbers, parsing the group of any arity fails with
/// [`Error::InconsistentUnit`] - the mismatch is never silently corrected.
pub proof fn lemma_inconsistent_unit(line: Seq<char>, pos: int, u0: usize, p1: int, u1: usize)
    requires
        <usize as Parsable>::sparse(line, pos) matches Ok(vp) && vp == (u0, p1),
        <usize as Parsable>::sparse(line, p1 + 1) matches Ok(vp) && vp.0 == u1,
        u0 != u1,
    ensures
        <Pair as Parsable>::sparse(line, pos) == Err::<(Pair, int), Error>(
            Error::InconsistentUnit,
        ),
        <Triple as Parsable>::sparse(line, pos) == Err::<(Triple, int), Error>(
            Error::InconsistentUnit,
        ),
        <Quad as Parsable>::sparse(line, pos) == Err::<(Quad, int), Error>(
            Error::InconsistentUnit,
        ),
{
}

} // verus!
