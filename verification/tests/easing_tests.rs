use timeline_easing::easing::{EasingFunction, EasingType};

#[test]
fn function_selector_decodes_in_order() {
    let expected = [
        EasingFunction::Linear,
        EasingFunction::Sine,
        EasingFunction::Circular,
        EasingFunction::Quadratic,
        EasingFunction::Cubic,
        EasingFunction::Quartic,
        EasingFunction::Quintic,
        EasingFunction::Exponential,
        EasingFunction::Back,
        EasingFunction::Bounce,
        EasingFunction::Elastic,
    ];
    for (i, f) in expected.iter().enumerate() {
        assert_eq!(EasingFunction::from_index(i as u8), Some(*f));
        assert_eq!(f.as_index(), i as u8);
    }
    assert_eq!(EasingFunction::from_index(11), None);
    assert_eq!(EasingFunction::from_index(255), None);
}

#[test]
fn type_selector_decodes_in_order() {
    let expected = [EasingType::In, EasingType::Out, EasingType::InOut];
    for (i, t) in expected.iter().enumerate() {
        assert_eq!(EasingType::from_index(i as u8), Some(*t));
        assert_eq!(t.as_index(), i as u8);
    }
    assert_eq!(EasingType::from_index(3), None);
    assert_eq!(EasingType::from_index(255), None);
}

#[test]
fn default_selection_is_linear_in() {
    assert_eq!(EasingFunction::default(), EasingFunction::Linear);
    assert_eq!(EasingType::default(), EasingType::In);
}
