use ray_tracer_lib::shape::Shape;
use ray_tracer_lib::texture::lattice_parity;

#[test]
fn origin_cell_is_even() {
    assert!(lattice_parity(0, 0, 0));
}

#[test]
fn one_step_flips_the_parity() {
    assert!(!lattice_parity(1, 0, 0));
    assert!(!lattice_parity(0, 1, 0));
    assert!(!lattice_parity(0, 0, 1));
    assert!(lattice_parity(1, 1, 0));
    assert!(lattice_parity(1, 0, 1));
    assert!(!lattice_parity(1, 1, 1));
    assert!(lattice_parity(2, 0, 0));
}

#[test]
fn parity_is_exact_for_huge_cells() {
    // The mathematical sum here is 2^64, which is even, even though it
    // overflows the machine word.
    assert!(lattice_parity(u64::MAX, 1, 0));
    assert!(!lattice_parity(u64::MAX, 0, 0));
    assert!(!lattice_parity(u64::MAX, u64::MAX, 1));
}

#[test]
fn shapes_are_distinguished() {
    assert_eq!(Shape::Quad, Shape::Quad);
    assert_ne!(Shape::Quad, Shape::Triangle);
    let copy = Shape::Triangle;
    assert_eq!(copy, Shape::Triangle.clone());
}
