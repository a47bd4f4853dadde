//! Document assembler and block reader tests: segmentation, tolerance
//! policies, and contact-block serialisation.
use cafetools::block::Blocks;
use cafetools::error::Error;
use cafetools::native_info::NativeInfo;
use cafetools::records::Bond;

fn lines(v: &[&str]) -> Vec<String> {
    v.iter().map(|s| s.to_string()).collect()
}

const CONTACT_LINE: &str = "contact      1      1      1      2     63      2     63      6.2398      1.0000      1      0.5986 p-p";

#[test]
fn block_segmentation() {
    let stream = lines(&[
        "* leading comment",
        "",
        "<<<< native contact",
        "* inner comment",
        CONTACT_LINE,
        "",
        "another data line",
        ">>>>",
        "* trailing comment",
        "",
    ]);
    let mut blocks = Blocks::new(stream);
    let b = blocks.next_block().unwrap().unwrap();
    assert_eq!(b.label, "native contact");
    assert_eq!(b.lines.len(), 2);
    assert_eq!(b.lines[0], CONTACT_LINE);
    assert_eq!(b.lines[1], "another data line");
    assert!(blocks.next_block().unwrap().is_none());
}

#[test]
fn unknown_label_tolerance() {
    let stream = lines(&[
        "<<<< some other section",
        CONTACT_LINE,
        ">>>>",
    ]);
    let doc = NativeInfo::load(stream).unwrap();
    assert!(doc.bonds.is_empty());
    assert!(doc.angles.is_empty());
    assert!(doc.dihedral_angles.is_empty());
    assert!(doc.contacts.is_empty());
    assert!(doc.aicg_angles.is_empty());
    assert!(doc.aicg_dihedral_angles.is_empty());
}

#[test]
fn partial_line_tolerance() {
    let stream = lines(&[
        "<<<< native contact",
        CONTACT_LINE,
        "contact      2      1",
        ">>>>",
    ]);
    let doc = NativeInfo::load(stream).unwrap();
    assert_eq!(doc.contacts.len(), 1);
    assert_eq!(doc.contacts[0].index, 1);
}

#[test]
fn inconsistent_unit_rejected() {
    let line = "bond      1      1      2      1      2      1      2       3.7629       1.0000       1.0000     110.4000 pp";
    assert!(matches!(Bond::from_str(line), Err(Error::InconsistentUnit)));

    let stream = lines(&["<<<< native bond length", line, ">>>>"]);
    let doc = NativeInfo::load(stream).unwrap();
    assert!(doc.bonds.is_empty());
}

#[test]
fn empty_document() {
    let stream = lines(&["* just a comment", ""]);
    let doc = NativeInfo::load(stream).unwrap();
    assert!(doc.bonds.is_empty());
    assert!(doc.angles.is_empty());
    assert!(doc.dihedral_angles.is_empty());
    assert!(doc.contacts.is_empty());
    assert!(doc.aicg_angles.is_empty());
    assert!(doc.aicg_dihedral_angles.is_empty());
    assert_eq!(doc.to_string(), "");
}

#[test]
fn unclosed_block_aborts_load() {
    let stream = lines(&["<<<< native contact", CONTACT_LINE]);
    assert!(matches!(NativeInfo::load(stream), Err(Error::UnclosedBlock)));
}

#[test]
fn load_dispatches_every_kind() {
    let stream = lines(&[
        "<<<< native bond length",
        "bond      1      1      1      1      2      1      2       3.7629       1.0000       1.0000     110.4000 pp",
        ">>>>",
        "<<<< native bond angles",
        "angl      1      1      1      2      3      4      2      3      4     148.8728       1.0000       1.0000      20.0000 ppp",
        ">>>>",
        "<<<< native dihedral angles",
        "dihd      1      1      1      2      3      4      5      2      3      4      5    -124.4044       1.0000       1.0000       1.0000       0.5000 pppp",
        ">>>>",
        "<<<< native contact",
        CONTACT_LINE,
        ">>>>",
        "<<<< 1-3 contacts with L_AICG2 or L_AICG2_PLUS",
        "aicg13      1      1      1      2      3      4      2      3      4       7.3690       1.0000       1.0000       1.1928       0.1500 ppp",
        ">>>>",
        "<<<< <<<< 1-4 contacts with L_AICG2_PLUS",
        "aicgdih      1      1      1      2      3      4      5      2      3      4      5    -124.4044       1.0000       1.0000       0.4350       0.1500 pppp",
        ">>>>",
    ]);
    let doc = NativeInfo::load(stream).unwrap();
    assert_eq!(doc.bonds.len(), 1);
    assert_eq!(doc.angles.len(), 1);
    assert_eq!(doc.dihedral_angles.len(), 1);
    assert_eq!(doc.contacts.len(), 1);
    assert_eq!(doc.aicg_angles.len(), 1);
    assert_eq!(doc.aicg_dihedral_angles.len(), 1);
    assert_eq!(doc.bonds[0].ty, "pp");
    assert_eq!(doc.aicg_dihedral_angles[0].ty, "pppp");
}

#[test]
fn contact_block_serialisation() {
    let stream = lines(&["<<<< native contact", CONTACT_LINE, ">>>>"]);
    let doc = NativeInfo::load(stream).unwrap();
    let expected = format!(
        "<<<< native contact\n\
         ** total_contact =   1\n\
         ** definition_of_contact =       6.50 A\n\
         ** coef_go(kcal/mol) = factor_go * icon_dummy_mgo * cgo1210 * energy_unit_protein\n\
         \n\
         ** contact between unit      1 and      1\n\
         ** total_contact_unit =   1\n\
         **        icon iunit1-iunit2   imp1 - imp2 imp1un-imp2un      go_nat   factor_go  dummy     coef_go\n\
         {}\n\
         >>>>\n",
        CONTACT_LINE
    );
    assert_eq!(doc.to_string(), expected);
}
