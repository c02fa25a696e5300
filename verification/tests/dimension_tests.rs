use dragonfly::{Dimension, Scalar, Unit};

#[test]
fn dimension_unit_conversion_inch() {
    let d = Dimension::from_str("1in");
    assert_eq!(d.number, Scalar { num: 1, den: 1 });
    assert_eq!(d.unit, Unit::Absolute(Scalar { num: 96, den: 1 }));
}

#[test]
fn dimension_unit_conversion_millimetre() {
    let d = Dimension::from_str("10mm");
    assert_eq!(d.number, Scalar { num: 10, den: 1 });
    // 10 * 96 / 2.54 / 10 = 9600/254 = 37.795...
    assert_eq!(d.unit, Unit::Absolute(Scalar { num: 9600, den: 254 }));
    match d.unit {
        Unit::Absolute(s) => {
            let px = s.num as f64 / s.den as f64;
            assert!((px - 37.795275).abs() < 1e-3);
        }
        _ => unreachable!(),
    }
}

#[test]
fn dimension_unit_conversion_centimetre() {
    let d = Dimension::from_str("2.54cm");
    assert_eq!(d.number, Scalar { num: 254, den: 100 });
    // 2.54 * 96 / 2.54 = 96
    assert_eq!(d.unit, Unit::Absolute(Scalar { num: 254 * 9600, den: 100 * 254 }));
    match d.unit {
        Unit::Absolute(s) => {
            let px = s.num as f64 / s.den as f64;
            assert!((px - 96.0).abs() < 1e-9);
        }
        _ => unreachable!(),
    }
}

#[test]
fn dimension_pixels_and_fractions() {
    let d = Dimension::from_str(".7px");
    assert_eq!(d.number, Scalar { num: 7, den: 10 });
    assert_eq!(d.unit, Unit::Absolute(Scalar { num: 7, den: 10 }));
}

#[test]
fn dimension_relative_units() {
    assert_eq!(
        Dimension::from_str("1.5em").unit,
        Unit::RelativeToParentFontSize(Scalar { num: 15, den: 10 })
    );
    assert_eq!(
        Dimension::from_str("2ex").unit,
        Unit::RelativeToParentFontHeight(Scalar { num: 2, den: 1 })
    );
}

#[test]
fn dimension_unknown_unit_falls_back_to_absolute() {
    let d = Dimension::from_str("1.2rem");
    assert_eq!(d.number, Scalar { num: 12, den: 10 });
    assert_eq!(d.unit, Unit::Absolute(Scalar { num: 12, den: 10 }));
}

#[test]
fn dimension_unparseable_number_is_zero() {
    let d = Dimension::from_str("px");
    assert_eq!(d.number, Scalar { num: 0, den: 1 });
    assert_eq!(d.unit, Unit::Absolute(Scalar { num: 0, den: 1 }));

    // two dots do not parse; the unit is then read from the whole string
    let d = Dimension::from_str("1.2.3px");
    assert_eq!(d.number, Scalar { num: 0, den: 1 });
    assert_eq!(d.unit, Unit::Absolute(Scalar { num: 0, den: 1 }));
}

#[test]
fn unit_from_str_trims_and_lowercases() {
    let n = Scalar { num: 3, den: 1 };
    assert_eq!(Unit::from_str(" PX ", n), Unit::Absolute(n));
    assert_eq!(Unit::from_str("In", n), Unit::Absolute(Scalar { num: 288, den: 1 }));
}

#[test]
fn unit_default_is_zero_pixels() {
    assert_eq!(Unit::default(), Unit::Absolute(Scalar { num: 0, den: 1 }));
    let d = Dimension::default();
    assert_eq!(d.number, Scalar { num: 0, den: 1 });
}
