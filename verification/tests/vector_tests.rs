use watertight::errors::MeshError;
use watertight::vector::Cvector;

fn bits3(x: f32, y: f32, z: f32) -> Cvector {
    Cvector::from_parts(x.to_bits(), y.to_bits(), z.to_bits())
}

#[test]
fn create_from_parts() {
    let origin = Cvector::from_parts(0.0f32.to_bits(), 0.0f32.to_bits(), 0.0f32.to_bits());
    assert_eq!(origin.x, 0.0f32.to_bits());
    assert_eq!(origin.y, 0.0f32.to_bits());
    assert_eq!(origin.z, 0.0f32.to_bits());

    let another = Cvector::from_parts(1.0f32.to_bits(), 2.0f32.to_bits(), 3.0f32.to_bits());
    assert_eq!(another.x, 1.0f32.to_bits());
    assert_eq!(another.y, 2.0f32.to_bits());
    assert_eq!(another.z, 3.0f32.to_bits());
}

#[test]
fn create_from_array() {
    let arr: [u32; 3] = [0.0f32.to_bits(); 3];
    let origin = Cvector::from_array(&arr);
    assert_eq!(origin.x, 0.0f32.to_bits());
    assert_eq!(origin.y, 0.0f32.to_bits());
    assert_eq!(origin.z, 0.0f32.to_bits());

    let arr: [u32; 3] = [1.0f32.to_bits(), 2.0f32.to_bits(), 3.0f32.to_bits()];
    let another = Cvector::from_array(&arr);
    assert_eq!(another.x, 1.0f32.to_bits());
    assert_eq!(another.y, 2.0f32.to_bits());
    assert_eq!(another.z, 3.0f32.to_bits());
}

#[test]
fn create_from_vec() {
    let v = vec![0.0f32.to_bits(); 3];
    let origin = Cvector::from_vec(&v).unwrap();
    assert_eq!(origin.x, 0.0f32.to_bits());
    assert_eq!(origin.y, 0.0f32.to_bits());
    assert_eq!(origin.z, 0.0f32.to_bits());

    let v = vec![1.0f32.to_bits(), 2.0f32.to_bits(), 3.0f32.to_bits()];
    let another = Cvector::from_vec(&v).unwrap();
    assert_eq!(another.x, 1.0f32.to_bits());
    assert_eq!(another.y, 2.0f32.to_bits());
    assert_eq!(another.z, 3.0f32.to_bits());
}

#[test]
fn from_vec_wrong_length_is_invalid() {
    let empty: Vec<u32> = vec![];
    assert_eq!(Cvector::from_vec(&empty), Err(MeshError::InvalidLength));

    let two = vec![1.0f32.to_bits(), 2.0f32.to_bits()];
    assert_eq!(Cvector::from_vec(&two), Err(MeshError::InvalidLength));

    let four = vec![1.0f32.to_bits(), 2.0f32.to_bits(), 3.0f32.to_bits(), 4.0f32.to_bits()];
    assert_eq!(Cvector::from_vec(&four), Err(MeshError::InvalidLength));
}

#[test]
fn exact_equality_is_bitwise() {
    let a = bits3(1.5, -2.0, 0.0);
    let b = bits3(1.5, -2.0, 0.0);
    assert_eq!(a, b);

    // Negative zero and positive zero have different bit patterns, so they
    // are different points for duplicate detection.
    let pz = bits3(0.0, 0.0, 0.0);
    let nz = bits3(-0.0, 0.0, 0.0);
    assert_ne!(pz, nz);

    assert_ne!(bits3(1.0, 2.0, 3.0), bits3(1.0, 2.0, 4.0));
}

#[test]
fn order_is_lexicographic_by_float_value() {
    // Primarily by x...
    assert!(bits3(-3.0, 100.0, 100.0).le(&bits3(2.0, -100.0, -100.0)));
    assert!(!bits3(2.0, -100.0, -100.0).le(&bits3(-3.0, 100.0, 100.0)));
    // ...then by y...
    assert!(bits3(1.0, -5.0, 9.0).le(&bits3(1.0, 4.0, -9.0)));
    assert!(!bits3(1.0, 4.0, -9.0).le(&bits3(1.0, -5.0, 9.0)));
    // ...then by z.
    assert!(bits3(1.0, 2.0, -7.5).le(&bits3(1.0, 2.0, 7.5)));
    assert!(!bits3(1.0, 2.0, 7.5).le(&bits3(1.0, 2.0, -7.5)));
    // Reflexive on equal vectors.
    assert!(bits3(1.0, 2.0, 3.0).le(&bits3(1.0, 2.0, 3.0)));
}

#[test]
fn order_agrees_with_float_comparison() {
    let samples: [f32; 8] = [-1000.5, -2.0, -1.0e-6, -0.0, 0.0, 1.0e-6, 3.25, 77.0];
    for &a in samples.iter() {
        for &b in samples.iter() {
            let va = bits3(a, 0.0, 0.0);
            let vb = bits3(b, 0.0, 0.0);
            if a < b {
                assert!(va.le(&vb));
                assert!(!vb.le(&va));
            }
            if a == b && a.to_bits() == b.to_bits() {
                assert!(va.le(&vb));
                assert!(vb.le(&va));
            }
        }
    }
    // The one refinement over the float comparison: negative zero sorts
    // strictly before positive zero.
    assert!(bits3(-0.0, 0.0, 0.0).le(&bits3(0.0, 0.0, 0.0)));
    assert!(!bits3(0.0, 0.0, 0.0).le(&bits3(-0.0, 0.0, 0.0)));
}

#[test]
fn order_extends_past_the_finite_range() {
    let raw = |x: u32| Cvector::from_parts(x, 0, 0);
    let pos_nan = f32::NAN.to_bits();
    let neg_nan = pos_nan | 0x8000_0000;
    let pos_inf = f32::INFINITY.to_bits();
    let neg_inf = f32::NEG_INFINITY.to_bits();
    // NaN coordinates break the input precondition, but the order is still
    // total on them: the patterns past either infinity sort at the extremes.
    assert!(raw(pos_inf).le(&raw(pos_nan)));
    assert!(!raw(pos_nan).le(&raw(pos_inf)));
    assert!(raw(neg_nan).le(&raw(neg_inf)));
    assert!(!raw(neg_inf).le(&raw(neg_nan)));
    assert!(raw(neg_inf).le(&raw(pos_inf)));
}
