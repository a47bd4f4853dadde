//! The document assembler: whole native-info documents.
//!
//! Loading drives the block reader over a buffered line stream and
//! dispatches each block, by its exact label, to the record codec of the
//! matching kind. Lines that fail to parse are dropped silently and loading
//! goes on: this tolerance of foreign or partial files is deliberate and
//! part of the format's contract. Blocks with unrecognized labels are
//! ignored entirely. Only a stream that ends inside an open block aborts
//! the load.
//!
//! Serialisation reconstructs the contact block only - opening delimiter,
//! the fixed header comments, one line per contact record, closing
//! delimiter - and produces nothing at all for a document with no contacts.
use vstd::prelude::*;

use crate::block::line_views;
use crate::block::next_block_spec;
use crate::block::lemma_next_block_advances;
use crate::block::Block;
use crate::block::BlockV;
use crate::block::Blocks;
use crate::error::Error;
use crate::records::convert_all;
use crate::records::AICGAngle;
use crate::records::AICGAngleV;
use crate::records::AICGDihedralAngle;
use crate::records::AICGDihedralAngleV;
use crate::records::Angle;
use crate::records::AngleV;
use crate::records::Bond;
use crate::records::BondV;
use crate::records::Contact;
use crate::records::ContactV;
use crate::records::DihedralAngle;
use crate::records::DihedralAngleV;
use crate::records::Record;
use crate::text::dec_rep;
use crate::text::dec_str;
use crate::text::str_eq;

verus! {

/// A whole native-info document: one ordered collection per record kind.
pub struct NativeInfo {
    /// The native bond length records.
    pub bonds: Vec<Bond>,
    /// The native bond angle records.
    pub angles: Vec<Angle>,
    /// The native dihedral angle records.
    pub dihedral_angles: Vec<DihedralAngle>,
    /// The native contact records.
    pub contacts: Vec<Contact>,
    /// The AICG 1-3 contact records.
    pub aicg_angles: Vec<AICGAngle>,
    /// The AICG 1-4 contact records.
    pub aicg_dihedral_angles: Vec<AICGDihedralAngle>,
}

/// The mathematical value of a [`NativeInfo`]: its view.
#[verifier::ext_equal]
pub ghost struct NativeInfoV {
    /// The native bond length records.
    pub bonds: Seq<BondV>,
    /// The native bond angle records.
    pub angles: Seq<AngleV>,
    /// The native dihedral angle records.
    pub dihedral_angles: Seq<DihedralAngleV>,
    /// The native contact records.
    pub contacts: Seq<ContactV>,
    /// The AICG 1-3 contact records.
    pub aicg_angles: Seq<AICGAngleV>,
    /// The AICG 1-4 contact records.
    pub aicg_dihedral_angles: Seq<AICGDihedralAngleV>,
}

impl View for NativeInfo {
    type V = NativeInfoV;

    open spec fn view(&self) -> NativeInfoV {
        NativeInfoV {
            bonds: self.bonds@.map_values(|r: Bond| r@),
            angles: self.angles@.map_values(|r: Angle| r@),
            dihedral_angles: self.dihedral_angles@.map_values(|r: DihedralAngle| r@),
            contacts: self.contacts@.map_values(|r: Contact| r@),
            aicg_angles: self.aicg_angles@.map_values(|r: AICGAngle| r@),
            aicg_dihedral_angles: self.aicg_dihedral_angles@.map_values(
                |r: AICGDihedralAngle| r@,
            ),
        }
    }
}

/// The document with every collection empty.
pub open spec fn empty_doc() -> NativeInfoV {
    NativeInfoV {
        bonds: Seq::empty(),
        angles: Seq::empty(),
        dihedral_angles: Seq::empty(),
        contacts: Seq::empty(),
        aicg_angles: Seq::empty(),
        aicg_dihedral_angles: Seq::empty(),
    }
}

/// Whether a block label is one the assembler dispatches on. The last
/// recognized label literally embeds the opening-delimiter token: that is a
/// quirk of the format, preserved verbatim.
pub open spec fn recognized(label: Seq<char>) -> bool {
    ||| label == "native bond length"@
    ||| label == "native bond angles"@
    ||| label == "native dihedral angles"@
    ||| label == "native contact"@
    ||| label == "1-3 contacts with L_AICG2 or L_AICG2_PLUS"@
    ||| label == "<<<< 1-4 contacts with L_AICG2_PLUS"@
}

/// Dispatch one block on its exact label: parse its data lines as the
/// matching record kind and append the successes; a block with any other
/// label leaves the document unchanged.
pub open spec fn dispatch_block(doc: NativeInfoV, b: BlockV) -> NativeInfoV {
    if b.label == "native bond length"@ {
        NativeInfoV { bonds: doc.bonds + <Bond as Record>::parsed(b.lines), ..doc }
    } else if b.label == "native bond angles"@ {
        NativeInfoV { angles: doc.angles + <Angle as Record>::parsed(b.lines), ..doc }
    } else if b.label == "native dihedral angles"@ {
        NativeInfoV {
            dihedral_angles: doc.dihedral_angles + <DihedralAngle as Record>::parsed(b.lines),
            ..doc
        }
    } else if b.label == "native contact"@ {
        NativeInfoV { contacts: doc.contacts + <Contact as Record>::parsed(b.lines), ..doc }
    } else if b.label == "1-3 contacts with L_AICG2 or L_AICG2_PLUS"@ {
        NativeInfoV { aicg_angles: doc.aicg_angles + <AICGAngle as Record>::parsed(b.lines), ..doc }
    } else if b.label == "<<<< 1-4 contacts with L_AICG2_PLUS"@ {
        NativeInfoV {
            aicg_dihedral_angles: doc.aicg_dihedral_angles + <AICGDihedralAngle as Record>::parsed(
                b.lines,
            ),
            ..doc
        }
    } else {
        doc
    }
}

/// Loading from `pos` with the records of `doc` already collected: read
/// blocks until the stream ends, dispatching each. The position-guard on
/// the recursion always holds, since a read block moves the position
/// strictly forward ([`lemma_next_block_advances`]).
pub open spec fn load_from(lines: Seq<Seq<char>>, pos: int, doc: NativeInfoV) -> Result<
    NativeInfoV,
    Error,
>
    decreases lines.len() - pos,
{
    match next_block_spec(lines, pos) {
        Err(e) => Err(e),
        Ok(None) => Ok(doc),
        Ok(Some((b, p2))) => if pos < p2 <= lines.len() {
            load_from(lines, p2, dispatch_block(doc, b))
        } else {
            Ok(doc)
        },
    }
}

/// The mathematical load of a whole line stream.
pub open spec fn spec_load(lines: Seq<Seq<char>>) -> Result<NativeInfoV, Error> {
    load_from(lines, 0, empty_doc())
}

/// Parse the block's lines as bond records and append the successes.
fn add_bonds(doc: &mut NativeInfo, b: &Block)
    ensures
        final(doc)@ == (NativeInfoV {
            bonds: old(doc)@.bonds + <Bond as Record>::parsed(b@.lines),
            ..old(doc)@
        }),
{
    let ghost before = doc.bonds@;
    let mut recs = convert_all::<Bond>(&b.lines);
    doc.bonds.append(&mut recs);
    proof {
        assert(doc.bonds@.map_values(|r: Bond| r@) =~= before.map_values(|r: Bond| r@) + <
        Bond as Record>::parsed(b@.lines));
        assert(doc@ =~= (NativeInfoV {
            bonds: old(doc)@.bonds + <Bond as Record>::parsed(b@.lines),
            ..old(doc)@
        }));
    }
}

/// Parse the block's lines as angle records and append the successes.
fn add_angles(doc: &mut NativeInfo, b: &Block)
    ensures
        final(doc)@ == (NativeInfoV {
            angles: old(doc)@.angles + <Angle as Record>::parsed(b@.lines),
            ..old(doc)@
        }),
{
    let ghost before = doc.angles@;
    let mut recs = convert_all::<Angle>(&b.lines);
    doc.angles.append(&mut recs);
    proof {
        assert(doc.angles@.map_values(|r: Angle| r@) =~= before.map_values(|r: Angle| r@) + <
        Angle as Record>::parsed(b@.lines));
        assert(doc@ =~= (NativeInfoV {
            angles: old(doc)@.angles + <Angle as Record>::parsed(b@.lines),
            ..old(doc)@
        }));
    }
}

/// Parse the block's lines as dihedral angle records and append the
/// successes.
fn add_dihedral_angles(doc: &mut NativeInfo, b: &Block)
    ensures
        final(doc)@ == (NativeInfoV {
            dihedral_angles: old(doc)@.dihedral_angles + <DihedralAngle as Record>::parsed(
                b@.lines,
            ),
            ..old(doc)@
        }),
{
    let ghost before = doc.dihedral_angles@;
    let mut recs = convert_all::<DihedralAngle>(&b.lines);
    doc.dihedral_angles.append(&mut recs);
    proof {
        assert(doc.dihedral_angles@.map_values(|r: DihedralAngle| r@) =~= before.map_values(
            |r: DihedralAngle| r@,
        ) + <DihedralAngle as Record>::parsed(b@.lines));
        assert(doc@ =~= (NativeInfoV {
            dihedral_angles: old(doc)@.dihedral_angles + <DihedralAngle as Record>::parsed(
                b@.lines,
            ),
            ..old(doc)@
        }));
    }
}

/// Parse the block's lines as contact records and append the successes.
fn add_contacts(doc: &mut NativeInfo, b: &Block)
    ensures
        final(doc)@ == (NativeInfoV {
            contacts: old(doc)@.contacts + <Contact as Record>::parsed(b@.lines),
            ..old(doc)@
        }),
{
    let ghost before = doc.contacts@;
    let mut recs = convert_all::<Contact>(&b.lines);
    doc.contacts.append(&mut recs);
    proof {
        assert(doc.contacts@.map_values(|r: Contact| r@) =~= before.map_values(|r: Contact| r@)
            + <Contact as Record>::parsed(b@.lines));
        assert(doc@ =~= (NativeInfoV {
            contacts: old(doc)@.contacts + <Contact as Record>::parsed(b@.lines),
            ..old(doc)@
        }));
    }
}

/// Parse the block's lines as AICG 1-3 contact records and append the
/// successes.
fn add_aicg_angles(doc: &mut NativeInfo, b: &Block)
    ensures
        final(doc)@ == (NativeInfoV {
            aicg_angles: old(doc)@.aicg_angles + <AICGAngle as Record>::parsed(b@.lines),
            ..old(doc)@
        }),
{
    let ghost before = doc.aicg_angles@;
    let mut recs = convert_all::<AICGAngle>(&b.lines);
    doc.aicg_angles.append(&mut recs);
    proof {
        assert(doc.aicg_angles@.map_values(|r: AICGAngle| r@) =~= before.map_values(
            |r: AICGAngle| r@,
        ) + <AICGAngle as Record>::parsed(b@.lines));
        assert(doc@ =~= (NativeInfoV {
            aicg_angles: old(doc)@.aicg_angles + <AICGAngle as Record>::parsed(b@.lines),
            ..old(doc)@
        }));
    }
}

/// Parse the block's lines as AICG 1-4 contact records and append the
/// successes.
fn add_aicg_dihedral_angles(doc: &mut NativeInfo, b: &Block)
    ensures
        final(doc)@ == (NativeInfoV {
            aicg_dihedral_angles: old(doc)@.aicg_dihedral_angles + <
            AICGDihedralAngle as Record>::parsed(b@.lines),
            ..old(doc)@
        }),
{
    let ghost before = doc.aicg_dihedral_angles@;
    let mut recs = convert_all::<AICGDihedralAngle>(&b.lines);
    doc.aicg_dihedral_angles.append(&mut recs);
    proof {
        assert(doc.aicg_dihedral_angles@.map_values(|r: AICGDihedralAngle| r@)
            =~= before.map_values(|r: AICGDihedralAngle| r@) + <AICGDihedralAngle as Record>::parsed(
            b@.lines,
        ));
        assert(doc@ =~= (NativeInfoV {
            aicg_dihedral_angles: old(doc)@.aicg_dihedral_angles + <
            AICGDihedralAngle as Record>::parsed(b@.lines),
            ..old(doc)@
        }));
    }
}

impl NativeInfo {
    /// Load a document from a buffered line stream, exactly as
    /// [`spec_load`] says: every block dispatched on its label, every
    /// unparseable line dropped, every unrecognized block ignored, and an
    /// unclosed block aborting the whole load.
    #[verifier::rlimit(100)]
    #[verifier::loop_isolation(false)]
    pub fn load(lines: Vec<String>) -> (r: Result<NativeInfo, Error>)
        ensures
            r matches Ok(d) ==> spec_load(line_views(lines@)) matches Ok(dv) && d@ == dv,
            r matches Err(e) ==> spec_load(line_views(lines@)) matches Err(e2) && e == e2,
    {
        let ghost v = line_views(lines@);
        let mut blocks = Blocks::new(lines);
        let mut doc = NativeInfo {
            bonds: Vec::new(),
            angles: Vec::new(),
            dihedral_angles: Vec::new(),
            contacts: Vec::new(),
            aicg_angles: Vec::new(),
            aicg_dihedral_angles: Vec::new(),
        };
        proof {
            assert(doc@ =~= empty_doc());
        }
        loop
            invariant
                blocks.pos <= blocks.lines@.len(),
                v == line_views(blocks.lines@),
                spec_load(v) == load_from(v, blocks.pos as int, doc@),
            decreases blocks.lines@.len() - blocks.pos,
        {
            let ghost pos0 = blocks.pos as int;
            let ghost doc0 = doc@;
            let b = match blocks.next_block() {
                Ok(Some(b)) => b,
                Ok(None) => {
                    return Ok(doc);
                },
                Err(e) => {
                    return Err(e);
                },
            };
            proof {
                lemma_next_block_advances(v, pos0);
            }
            if str_eq(b.label.as_str(), "native bond length") {
                add_bonds(&mut doc, &b);
            } else if str_eq(b.label.as_str(), "native bond angles") {
                add_angles(&mut doc, &b);
            } else if str_eq(b.label.as_str(), "native dihedral angles") {
                add_dihedral_angles(&mut doc, &b);
            } else if str_eq(b.label.as_str(), "native contact") {
                add_contacts(&mut doc, &b);
            } else if str_eq(b.label.as_str(), "1-3 contacts with L_AICG2 or L_AICG2_PLUS") {
                add_aicg_angles(&mut doc, &b);
            } else if str_eq(b.label.as_str(), "<<<< 1-4 contacts with L_AICG2_PLUS") {
                add_aicg_dihedral_angles(&mut doc, &b);
            }
            proof {
                assert(doc@ =~= dispatch_block(doc0, b@));
            }
        }
    }

    /// Serialise the contact block, exactly as [`doc_text`] says: the
    /// opening delimiter, the fixed header comments, one line per contact
    /// record and the closing delimiter - or nothing at all when the
    /// document has no contacts.
    #[verifier::rlimit(100)]
    #[verifier::loop_isolation(false)]
    pub fn to_string(&self) -> (r: String)
        ensures
            r@ == doc_text(self@),
    {
        let mut out = String::new();
        if self.contacts.len() == 0 {
            proof {
                assert(out@ =~= doc_text(self@));
            }
            return out;
        }
        let count = dec_str(self.contacts.len() as u64);
        out.append("<<<< native contact");
        out.append("\n");
        out.append("** total_contact =   ");
        out.append(count.as_str());
        out.append("\n");
        out.append("** definition_of_contact =       6.50 A");
        out.append("\n");
        out.append("** coef_go(kcal/mol) = factor_go * icon_dummy_mgo * cgo1210 * energy_unit_protein");
        out.append("\n");
        out.append("\n");
        out.append("** contact between unit      1 and      1");
        out.append("\n");
        out.append("** total_contact_unit =   ");
        out.append(count.as_str());
        out.append("\n");
        out.append("**        icon iunit1-iunit2   imp1 - imp2 imp1un-imp2un      go_nat   factor_go  dummy     coef_go");
        out.append("\n");
        let ghost head = out@;
        let mut i: usize = 0;
        proof {
            assert(self@.contacts.subrange(0, 0) =~= Seq::<ContactV>::empty());
            assert(out@ =~= head + contact_lines_text(self@.contacts.subrange(0, 0)));
        }
        while i < self.contacts.len()
            invariant
                i <= self.contacts@.len(),
                out@ == head + contact_lines_text(self@.contacts.subrange(0, i as int)),
            decreases self.contacts@.len() - i,
        {
            let cline = self.contacts[i].to_string();
            out.append(cline.as_str());
            out.append("\n");
            proof {
                reveal_strlit("\n");
                let pre = self@.contacts.subrange(0, i as int);
                let cur = self@.contacts.subrange(0, i + 1);
                assert(cur.drop_last() =~= pre);
                assert(cur.last() == self@.contacts[i as int]);
                assert(out@ =~= head + contact_lines_text(cur));
            }
            i = i + 1;
        }
        out.append(">>>>");
        out.append("\n");
        proof {
            reveal_strlit("\n");
            assert(self@.contacts.subrange(0, self@.contacts.len() as int) =~= self@.contacts);
            assert(out@ =~= doc_text(self@));
        }
        out
    }
}

/// The text of the contact records, one line each, each ended by a
/// newline.
pub open spec fn contact_lines_text(cs: Seq<ContactV>) -> Seq<char>
    decreases cs.len(),
{
    if cs.len() == 0 {
        Seq::empty()
    } else {
        contact_lines_text(cs.drop_last()) + cs.last().text() + seq!['\n']
    }
}

/// The serialised form of a document: the reconstructed contact block, or
/// nothing at all when there are no contacts.
pub open spec fn doc_text(d: NativeInfoV) -> Seq<char> {
    if d.contacts.len() == 0 {
        Seq::empty()
    } else {
        "<<<< native contact"@ + seq!['\n'] + "** total_contact =   "@ + dec_rep(
            d.contacts.len() as int,
        ) + seq!['\n'] + "** definition_of_contact =       6.50 A"@ + seq!['\n']
            + "** coef_go(kcal/mol) = factor_go * icon_dummy_mgo * cgo1210 * energy_unit_protein"@
            + seq!['\n'] + seq!['\n'] + "** contact between unit      1 and      1"@ + seq!['\n']
            + "** total_contact_unit =   "@ + dec_rep(d.contacts.len() as int) + seq!['\n']
            + "**        icon iunit1-iunit2   imp1 - imp2 imp1un-imp2un      go_nat   factor_go  dummy     coef_go"@
            + seq!['\n'] + contact_lines_text(d.contacts) + ">>>>"@ + seq!['\n']
    }
}

/// Unknown-label tolerance: a block whose label is not in the recognized
/// set contributes nothing to the document and raises no error.
pub proof fn lemma_unknown_label_ignored(doc: NativeInfoV, b: BlockV)
    requires
        !recognized(b.label),
    ensures
        dispatch_block(doc, b) == doc,
{
}

/// Whether no block from `pos` on carries a recognized label.
pub open spec fn no_recognized_blocks(lines: Seq<Seq<char>>, pos: int) -> bool
    decreases lines.len() - pos,
{
    match next_block_spec(lines, pos) {
        Err(_) => true,
        Ok(None) => true,
        Ok(Some((b, p2))) => !recognized(b.label) && (if pos < p2 <= lines.len() {
            no_recognized_blocks(lines, p2)
        } else {
            true
        }),
    }
}

proof fn lemma_load_unrecognized(lines: Seq<Seq<char>>, pos: int, doc: NativeInfoV)
    requires
        0 <= pos,
        no_recognized_blocks(lines, pos),
    ensures
        load_from(lines, pos, doc) matches Ok(d) ==> d == doc,
    decreases lines.len() - pos,
{
    match next_block_spec(lines, pos) {
        Err(_) => {},
        Ok(None) => {},
        Ok(Some((b, p2))) => {
            lemma_unknown_label_ignored(doc, b);
            if pos < p2 <= lines.len() {
                lemma_load_unrecognized(lines, p2, doc);
            }
        },
    }
}

/// Empty document: a stream with no recognized blocks loads to a document
/// with all six collections empty, and serialising such a document
/// produces no text at all.
pub proof fn lemma_empty_document(lines: Seq<Seq<char>>)
    requires
        no_recognized_blocks(lines, 0),
    ensures
        spec_load(lines) matches Ok(d) ==> d == empty_doc() && doc_text(d)
            == Seq::<char>::empty(),
{
    lemma_load_unrecognized(lines, 0, empty_doc());
}

} // verus!
