use raytracer::axis::{Axis, OutOfRange};

#[test]
fn numbers_up_to_two_name_a_component() {
    assert_eq!(Axis::from_index(0), Ok(Axis::X));
    assert_eq!(Axis::from_index(1), Ok(Axis::Y));
    assert_eq!(Axis::from_index(2), Ok(Axis::Z));
}

#[test]
fn numbers_above_two_are_out_of_range() {
    assert_eq!(Axis::from_index(3), Err(OutOfRange { index: 3 }));
    assert_eq!(Axis::from_index(usize::MAX), Err(OutOfRange { index: usize::MAX }));
}

#[test]
fn component_of_a_triple_by_number() {
    let triple = [6f32, 12f32, 18f32];
    let pick = |index: usize| match Axis::from_index(index) {
        Ok(Axis::X) => Some(triple[0]),
        Ok(Axis::Y) => Some(triple[1]),
        Ok(Axis::Z) => Some(triple[2]),
        Err(_) => None,
    };
    assert_eq!(pick(0), Some(6f32));
    assert_eq!(pick(1), Some(12f32));
    assert_eq!(pick(2), Some(18f32));
    assert_eq!(pick(3), None);
}
