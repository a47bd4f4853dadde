//! Record codec tests: parsing each kind from a literal line and
//! formatting it back byte-for-byte.
use cafetools::fixed::Fixed;
use cafetools::records::AICGAngle;
use cafetools::records::AICGDihedralAngle;
use cafetools::records::Angle;
use cafetools::records::Bond;
use cafetools::records::Contact;
use cafetools::records::DihedralAngle;

#[test]
fn test_parse_bond() {
    let line = "bond      1      1      1      1      2      1      2       3.7629       1.0000       1.0000     110.4000 pp";
    let bond: Bond = Bond::from_str(line).unwrap();
    assert_eq!(bond.index, 1);

    assert_eq!(bond.pair.0.unit, 1);
    assert_eq!(bond.pair.0.index, 1);
    assert_eq!(bond.pair.0.intra_index, 1);

    assert_eq!(bond.pair.1.unit, 1);
    assert_eq!(bond.pair.1.index, 2);
    assert_eq!(bond.pair.1.intra_index, 2);

    assert_eq!(bond.length, Fixed::new(false, 37629));
    assert_eq!(bond.factor, Fixed::new(false, 10000));
    assert_eq!(bond.correct_mgo, Fixed::new(false, 10000));
    assert_eq!(bond.coefficient, Fixed::new(false, 1104000));
    assert_eq!(bond.ty, "pp");

    assert_eq!(&bond.to_string(), line);
}

#[test]
fn test_parse_angle() {
    let line = "angl      1      1      1      2      3      4      2      3      4     148.8728       1.0000       1.0000      20.0000 ppp";
    let angle: Angle = Angle::from_str(line).unwrap();
    assert_eq!(angle.index, 1);

    assert_eq!(angle.triple.0.unit, 1);
    assert_eq!(angle.triple.0.index, 2);
    assert_eq!(angle.triple.0.intra_index, 2);

    assert_eq!(angle.triple.1.unit, 1);
    assert_eq!(angle.triple.1.index, 3);
    assert_eq!(angle.triple.1.intra_index, 3);

    assert_eq!(angle.triple.2.unit, 1);
    assert_eq!(angle.triple.2.index, 4);
    assert_eq!(angle.triple.2.intra_index, 4);

    assert_eq!(angle.angle, Fixed::new(false, 1488728));
    assert_eq!(angle.factor, Fixed::new(false, 10000));
    assert_eq!(angle.correct_mgo, Fixed::new(false, 10000));
    assert_eq!(angle.coefficient, Fixed::new(false, 200000));
    assert_eq!(angle.ty, "ppp");

    assert_eq!(&angle.to_string(), line);
}

#[test]
fn test_parse_dihedral_angle() {
    let line = "dihd      1      1      1      2      3      4      5      2      3      4      5    -124.4044       1.0000       1.0000       1.0000       0.5000 pppp";
    let dihedral: DihedralAngle = DihedralAngle::from_str(line).unwrap();
    assert_eq!(dihedral.index, 1);

    assert_eq!(dihedral.quad.0.unit, 1);
    assert_eq!(dihedral.quad.0.index, 2);
    assert_eq!(dihedral.quad.0.intra_index, 2);

    assert_eq!(dihedral.quad.1.unit, 1);
    assert_eq!(dihedral.quad.1.index, 3);
    assert_eq!(dihedral.quad.1.intra_index, 3);

    assert_eq!(dihedral.quad.2.unit, 1);
    assert_eq!(dihedral.quad.2.index, 4);
    assert_eq!(dihedral.quad.2.intra_index, 4);

    assert_eq!(dihedral.quad.3.unit, 1);
    assert_eq!(dihedral.quad.3.index, 5);
    assert_eq!(dihedral.quad.3.intra_index, 5);

    assert_eq!(dihedral.angle, Fixed::new(true, 1244044));
    assert_eq!(dihedral.factor, Fixed::new(false, 10000));
    assert_eq!(dihedral.correct_mgo, Fixed::new(false, 10000));
    assert_eq!(dihedral.coefficient1, Fixed::new(false, 10000));
    assert_eq!(dihedral.coefficient3, Fixed::new(false, 5000));
    assert_eq!(dihedral.ty, "pppp");

    assert_eq!(&dihedral.to_string(), line);
}

#[test]
fn test_parse_contact() {
    let line = "contact      1      1      1      2     63      2     63      6.2398      1.0000      1      0.5986 p-p";
    let contact: Contact = Contact::from_str(line).unwrap();

    assert_eq!(contact.index, 1);

    assert_eq!(contact.pair.0.unit, 1);
    assert_eq!(contact.pair.0.index, 2);
    assert_eq!(contact.pair.0.intra_index, 2);

    assert_eq!(contact.pair.1.unit, 1);
    assert_eq!(contact.pair.1.index, 63);
    assert_eq!(contact.pair.1.intra_index, 63);

    assert_eq!(contact.length, Fixed::new(false, 62398));
    assert_eq!(contact.factor, Fixed::new(false, 10000));
    assert_eq!(contact.dummy, 1);
    assert_eq!(contact.coefficient, Fixed::new(false, 5986));
    assert_eq!(contact.ty, "p-p");

    assert_eq!(&contact.to_string(), line);
}

#[test]
fn test_parse_aicg_angle() {
    let line = "aicg13      1      1      1      2      3      4      2      3      4       7.3690       1.0000       1.0000       1.1928       0.1500 ppp";
    let angle: AICGAngle = AICGAngle::from_str(line).unwrap();

    assert_eq!(angle.index, 1);

    assert_eq!(angle.triple.0.unit, 1);
    assert_eq!(angle.triple.0.index, 2);
    assert_eq!(angle.triple.0.intra_index, 2);

    assert_eq!(angle.triple.1.unit, 1);
    assert_eq!(angle.triple.1.index, 3);
    assert_eq!(angle.triple.1.intra_index, 3);

    assert_eq!(angle.triple.2.unit, 1);
    assert_eq!(angle.triple.2.index, 4);
    assert_eq!(angle.triple.2.intra_index, 4);

    assert_eq!(angle.value, Fixed::new(false, 73690));
    assert_eq!(angle.factor, Fixed::new(false, 10000));
    assert_eq!(angle.correct_mgo, Fixed::new(false, 10000));
    assert_eq!(angle.coefficient, Fixed::new(false, 11928));
    assert_eq!(angle.width, Fixed::new(false, 1500));
    assert_eq!(angle.ty, "ppp");

    assert_eq!(&angle.to_string(), line);
}

#[test]
fn test_parse_aicg_dihedral_angle() {
    let line = "aicgdih      1      1      1      2      3      4      5      2      3      4      5    -124.4044       1.0000       1.0000       0.4350       0.1500 pppp";
    let angle: AICGDihedralAngle = AICGDihedralAngle::from_str(line).unwrap();

    assert_eq!(angle.index, 1);

    assert_eq!(angle.quad.0.unit, 1);
    assert_eq!(angle.quad.0.index, 2);
    assert_eq!(angle.quad.0.intra_index, 2);

    assert_eq!(angle.quad.1.unit, 1);
    assert_eq!(angle.quad.1.index, 3);
    assert_eq!(angle.quad.1.intra_index, 3);

    assert_eq!(angle.quad.2.unit, 1);
    assert_eq!(angle.quad.2.index, 4);
    assert_eq!(angle.quad.2.intra_index, 4);

    assert_eq!(angle.quad.3.unit, 1);
    assert_eq!(angle.quad.3.index, 5);
    assert_eq!(angle.quad.3.intra_index, 5);

    assert_eq!(angle.value, Fixed::new(true, 1244044));
    assert_eq!(angle.factor, Fixed::new(false, 10000));
    assert_eq!(angle.correct_mgo, Fixed::new(false, 10000));
    assert_eq!(angle.coefficient, Fixed::new(false, 4350));
    assert_eq!(angle.width, Fixed::new(false, 1500));
    assert_eq!(angle.ty, "pppp");

    assert_eq!(&angle.to_string(), line);
}
