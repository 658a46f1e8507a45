use double_pendulum::decimal::is_real;
use double_pendulum::settings::{RealOption, VaryingType};

const REAL_OPTIONS: [RealOption; 10] = [
    RealOption::Separation,
    RealOption::Mass1,
    RealOption::Mass2,
    RealOption::Radius1,
    RealOption::Radius2,
    RealOption::Magnification,
    RealOption::Gravity,
    RealOption::Transparency,
    RealOption::Width,
    RealOption::Speed,
];

#[test]
fn every_real_option_has_its_default() {
    assert_eq!(RealOption::Separation.default_text(), "0.1");
    assert_eq!(RealOption::Mass1.default_text(), "10");
    assert_eq!(RealOption::Mass2.default_text(), "10");
    assert_eq!(RealOption::Radius1.default_text(), "125");
    assert_eq!(RealOption::Radius2.default_text(), "125");
    assert_eq!(RealOption::Magnification.default_text(), "2");
    assert_eq!(RealOption::Gravity.default_text(), "0.1");
    assert_eq!(RealOption::Transparency.default_text(), "0.05");
    assert_eq!(RealOption::Width.default_text(), "1.5");
    assert_eq!(RealOption::Speed.default_text(), "1");
}

#[test]
fn the_defaults_are_texts_of_real_numbers() {
    let values = [0.1, 10.0, 10.0, 125.0, 125.0, 2.0, 0.1, 0.05, 1.5, 1.0];
    for (option, value) in REAL_OPTIONS.iter().zip(values) {
        let text = option.default_text();
        assert!(is_real(text), "{:?}", option);
        assert_eq!(text.parse::<f64>(), Ok(value), "{:?}", option);
        assert_eq!(format!("{}", value), text, "{:?}", option);
    }
}

#[test]
fn each_varying_parameter_is_spread_by_one_option() {
    assert_eq!(VaryingType::Angle.span(), RealOption::Separation);
    assert_eq!(VaryingType::Length1.span(), RealOption::Mass1);
    assert_eq!(VaryingType::Length2.span(), RealOption::Mass2);
    assert_eq!(VaryingType::Mass1.span(), RealOption::Mass1);
    assert_eq!(VaryingType::Mass2.span(), RealOption::Mass2);
}
