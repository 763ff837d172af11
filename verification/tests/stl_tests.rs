use watertight::errors::StlError;
use watertight::stl::{parse_binary_stl, read_le_u32};
use watertight::vector::Cvector;

fn push_f32(data: &mut Vec<u8>, v: f32) {
    data.extend_from_slice(&v.to_bits().to_le_bytes());
}

fn push_triangle(data: &mut Vec<u8>, coords: [f32; 12], attr: u16) {
    for &c in coords.iter() {
        push_f32(data, c);
    }
    data.extend_from_slice(&attr.to_le_bytes());
}

fn bits3(x: f32, y: f32, z: f32) -> Cvector {
    Cvector::from_parts(x.to_bits(), y.to_bits(), z.to_bits())
}

#[test]
fn read_le_u32_reads_little_endian() {
    let data = vec![0x78u8, 0x56, 0x34, 0x12, 0xff];
    assert_eq!(read_le_u32(&data, 0), 0x1234_5678);
    assert_eq!(read_le_u32(&data, 1), 0xff12_3456);
}

#[test]
fn parse_decodes_header_count_and_records() {
    let mut data: Vec<u8> = Vec::new();
    let mut header = b"solid test header".to_vec();
    header.resize(80, 0);
    data.extend_from_slice(&header);
    data.extend_from_slice(&2u32.to_le_bytes());
    push_triangle(
        &mut data,
        [0.0, 0.0, 1.0, 0.0, 0.0, 0.0, 1.0, 0.0, 0.0, 0.0, 1.0, 0.0],
        7,
    );
    push_triangle(
        &mut data,
        [0.0, 0.0, -1.0, 1.0, 1.0, 5.0, -1.0, 0.25, 5.0, 0.0, -2.5, 5.0],
        0,
    );

    let mesh = parse_binary_stl(&data).unwrap();
    assert_eq!(mesh.header, header);
    assert_eq!(mesh.triangles.len(), 2);

    let t0 = mesh.triangles[0];
    assert_eq!(t0.unit_normal, bits3(0.0, 0.0, 1.0));
    assert_eq!(t0.v1, bits3(0.0, 0.0, 0.0));
    assert_eq!(t0.v2, bits3(1.0, 0.0, 0.0));
    assert_eq!(t0.v3, bits3(0.0, 1.0, 0.0));

    let t1 = mesh.triangles[1];
    assert_eq!(t1.unit_normal, bits3(0.0, 0.0, -1.0));
    assert_eq!(t1.v1, bits3(1.0, 1.0, 5.0));
    assert_eq!(t1.v2, bits3(-1.0, 0.25, 5.0));
    assert_eq!(t1.v3, bits3(0.0, -2.5, 5.0));
}

#[test]
fn parse_ignores_trailing_bytes() {
    let mut data = vec![0u8; 80];
    data.extend_from_slice(&1u32.to_le_bytes());
    push_triangle(
        &mut data,
        [0.0, 1.0, 0.0, 0.0, 0.0, 0.0, 1.0, 0.0, 0.0, 0.0, 0.0, 1.0],
        0,
    );
    data.extend_from_slice(b"junk after the last record");
    let mesh = parse_binary_stl(&data).unwrap();
    assert_eq!(mesh.triangles.len(), 1);
    assert_eq!(mesh.triangles[0].unit_normal, bits3(0.0, 1.0, 0.0));
}

#[test]
fn parse_rejects_streams_that_end_early() {
    // Too short for the header and count.
    assert_eq!(parse_binary_stl(&vec![]), Err(StlError::Truncated));
    assert_eq!(parse_binary_stl(&vec![0u8; 83]), Err(StlError::Truncated));

    // Count declares one record but no record follows.
    let mut data = vec![0u8; 80];
    data.extend_from_slice(&1u32.to_le_bytes());
    assert_eq!(parse_binary_stl(&data), Err(StlError::Truncated));

    // One byte of the declared record is missing.
    let mut data = vec![0u8; 80];
    data.extend_from_slice(&1u32.to_le_bytes());
    data.extend_from_slice(&[0u8; 49]);
    assert_eq!(parse_binary_stl(&data), Err(StlError::Truncated));

    // Exactly long enough succeeds.
    let mut data = vec![0u8; 80];
    data.extend_from_slice(&1u32.to_le_bytes());
    data.extend_from_slice(&[0u8; 50]);
    assert!(parse_binary_stl(&data).is_ok());
}
