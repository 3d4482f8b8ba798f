use ld19::{parse, Header, Packet, Payload, Point};

fn packet(start_angle: u16, end_angle: u16, samples: &[(u16, u8)]) -> Packet {
    Packet {
        header: Header { header: 0x54, ver_len: 0x20 | samples.len() as u8 },
        speed: 3600,
        start_angle,
        data: samples.iter().map(|&(distance, intensity)| Payload { distance, intensity }).collect(),
        end_angle,
        timestamp: 0,
        crc: 0,
    }
}

fn degrees(p: &Point) -> f64 {
    p.angle as f64 / p.angle_scale as f64
}

#[test]
fn angles_without_wraparound() {
    let points = parse(packet(0, 9000, &[(100, 1), (200, 2), (300, 3)]));
    let angles: Vec<f64> = points.iter().map(degrees).collect();
    assert_eq!(angles, vec![0.0, 30.0, 60.0]);
    assert_eq!(points[0].angle_scale, 300);
    assert_eq!(points[1].angle, 9000);
}

#[test]
fn angles_with_wraparound() {
    // (10.00 + 360 - 350.00) rem 360 = 20 degrees over four samples
    let points = parse(packet(35000, 1000, &[(1, 0), (2, 0), (3, 0), (4, 0)]));
    let angles: Vec<f64> = points.iter().map(degrees).collect();
    assert_eq!(angles, vec![350.0, 355.0, 360.0, 5.0]);
}

#[test]
fn angles_single_correction_only() {
    // a start angle beyond a full turn is corrected once, not normalised
    let points = parse(packet(50000, 1000, &[(1, 0), (2, 0)]));
    // span: 1000 + 36000 - 50000 = -13000 centidegrees
    let angles: Vec<f64> = points.iter().map(degrees).collect();
    assert_eq!(angles, vec![140.0, 75.0]);
}

#[test]
fn angles_fractional_step() {
    let points = parse(packet(0, 1000, &[(1, 0), (2, 0), (3, 0)]));
    assert_eq!(points[1].angle, 1000);
    assert_eq!(points[1].angle_scale, 300);
    assert!((degrees(&points[1]) - 10.0 / 3.0).abs() < 1e-9);
}

#[test]
fn points_keep_sample_order_and_values() {
    let points = parse(packet(100, 200, &[(65535, 9), (0, 200)]));
    assert_eq!(points.len(), 2);
    assert_eq!(points[0].distance, 65535);
    assert_eq!(points[0].confidence, 9);
    assert_eq!(points[1].distance, 0);
    assert_eq!(points[1].confidence, 200);
    assert_eq!(degrees(&points[0]), 1.0);
    assert_eq!(degrees(&points[1]), 1.5);
}

#[test]
fn no_samples_no_points() {
    assert!(parse(packet(0, 9000, &[])).is_empty());
}
