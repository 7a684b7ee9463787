use lidar_car::cabin::{decode_cabin, interpolate_angle};
use lidar_car::{FrameError, LidarEngine, LidarPoint, LidarScan};

fn build_frame(start_angle_q6: u16, cabins: &[u32; 32]) -> Vec<u8> {
    let mut b = vec![0u8; 132];
    b[2] = (start_angle_q6 & 0xFF) as u8;
    b[3] = (start_angle_q6 >> 8) as u8 & 0x7F;
    for (k, c) in cabins.iter().enumerate() {
        b[4 + 4 * k..8 + 4 * k].copy_from_slice(&c.to_le_bytes());
    }
    let mut x = 0u8;
    for v in &b[2..] {
        x ^= v;
    }
    b[0] = 0xA0 | (x & 0x0F);
    b[1] = 0x50 | (x >> 4);
    b
}

fn point(angle_q6: u16, distance_q0: u32, index: u8) -> LidarPoint {
    LidarPoint { angle_q6, distance_q0, index }
}

fn angles(scan: &LidarScan) -> Vec<u16> {
    scan.points.iter().map(|p| p.angle_q6).collect()
}

#[test]
fn scan_segmentation_on_wraparound() {
    let mut engine = LidarEngine::new();
    for a in [0u16, 10, 20, 5, 15] {
        engine.add_point(point(a, 100, 0));
    }
    assert_eq!(engine.scans.len(), 2);
    assert_eq!(angles(&engine.scans[0]), vec![0, 10, 20]);
    assert_eq!(angles(&engine.scans[1]), vec![5, 15]);
    assert_eq!(angles(engine.get_most_recent_scan().unwrap()), vec![0, 10, 20]);
}

#[test]
fn equal_angles_stay_in_one_scan() {
    let mut engine = LidarEngine::new();
    for a in [7u16, 7, 7] {
        engine.add_point(point(a, 1, 0));
    }
    assert_eq!(engine.scans.len(), 1);
    assert_eq!(angles(&engine.scans[0]), vec![7, 7, 7]);
    assert!(engine.get_most_recent_scan().is_none());
}

#[test]
fn empty_engine_has_no_scan() {
    let engine = LidarEngine::new();
    assert!(engine.get_most_recent_scan().is_none());
    assert!(engine.scans.is_empty());
}

fn end_to_end_cabins() -> [u32; 32] {
    let mut c = [0u32; 32];
    // major 1000, first predictor +5, second predictor -3
    c[0] = 1000 | (5 << 12) | ((-3i32 as u32 & 0x3FF) << 22);
    c[1] = 2000;
    // no major return, first predictor +1: borrows the next major
    c[2] = 1 << 12;
    c[3] = 600;
    // first predictor holds the "invalid" sentinel
    c[4] = 100 | (0x1FF << 12);
    c
}

#[test]
fn two_frames_end_to_end() {
    let mut engine = LidarEngine::new();
    let mut stream = build_frame(0, &end_to_end_cabins());
    stream.extend(build_frame(960, &[0; 32]));
    assert!(matches!(engine.poll(&mut stream), Ok(None)));
    assert!(engine.scans.is_empty());
    assert_eq!(stream.len(), 132);
    assert!(matches!(engine.poll(&mut stream), Ok(None)));
    assert!(stream.is_empty());
    assert_eq!(engine.scans.len(), 1);
    let expected = vec![
        point(0, 5952, 0),
        point(10, 5992, 1),
        point(20, 22944, 2),
        point(30, 23040, 0),
        point(40, 23040, 1),
        point(70, 2760, 1),
        point(80, 2752, 2),
        point(90, 2752, 0),
        point(100, 2752, 1),
        point(110, 400, 2),
        point(120, 400, 0),
    ];
    assert_eq!(engine.scans[0].points, expected);
}

#[test]
fn poll_waits_for_a_whole_frame() {
    let mut engine = LidarEngine::new();
    let mut stream = build_frame(0, &end_to_end_cabins());
    stream.truncate(131);
    assert!(matches!(engine.poll(&mut stream), Ok(None)));
    assert_eq!(stream.len(), 131);
    assert!(engine.scan_packets.is_empty());
}

#[test]
fn poll_resynchronizes_one_byte_at_a_time() {
    let mut engine = LidarEngine::new();
    let mut stream = vec![0x00u8, 0x11];
    stream.extend(build_frame(0, &end_to_end_cabins()));
    assert!(matches!(engine.poll(&mut stream), Err(FrameError::Desync)));
    assert_eq!(stream.len(), 133);
    assert!(matches!(engine.poll(&mut stream), Err(FrameError::Desync)));
    assert_eq!(stream.len(), 132);
    assert!(matches!(engine.poll(&mut stream), Ok(None)));
    assert_eq!(engine.scan_packets.len(), 1);
}

#[test]
fn poll_drops_a_frame_with_bad_checksum() {
    let mut engine = LidarEngine::new();
    let mut stream = build_frame(0, &end_to_end_cabins());
    stream[10] ^= 0x04;
    stream.extend(build_frame(64, &[0; 32]));
    assert!(matches!(engine.poll(&mut stream), Err(FrameError::ChecksumMismatch)));
    assert_eq!(stream.len(), 132);
    assert!(engine.scan_packets.is_empty());
}

#[test]
fn poll_reports_the_sealed_scan() {
    // one return per packet pair: slot 0's major, both predictors invalid
    let mut c = [0u32; 32];
    c[0] = 100 | (0x1FF << 12) | (0x1FF << 22);
    c[31] = (0x1FF << 12) | (0x1FF << 22);
    let mut engine = LidarEngine::new();
    let mut stream = build_frame(23000, &c);
    stream.extend(build_frame(0, &c));
    stream.extend(build_frame(20, &c));
    stream.extend(build_frame(40, &c));
    assert!(matches!(engine.poll(&mut stream), Ok(None)));
    // one point at 23000
    assert!(matches!(engine.poll(&mut stream), Ok(None)));
    assert_eq!(engine.scans.len(), 1);
    // a point at 0 wraps: the first scan is sealed and reported
    let reported = engine.poll(&mut stream).unwrap().unwrap().points.clone();
    assert_eq!(reported, vec![point(23000, 400, 0)]);
    assert_eq!(engine.scans.len(), 2);
    // a point at 20 joins the open scan: nothing new to report
    assert!(matches!(engine.poll(&mut stream), Ok(None)));
    assert_eq!(angles(&engine.scans[1]), vec![0, 20]);
    assert!(engine.scan_packets.len() <= 2);
}

#[test]
fn zero_distances_never_reach_a_scan() {
    let mut seed = 0x2545_F491u32;
    let mut engine = LidarEngine::new();
    for f in 0..40u32 {
        let mut c = [0u32; 32];
        for v in c.iter_mut() {
            seed ^= seed << 13;
            seed ^= seed >> 17;
            seed ^= seed << 5;
            *v = if seed % 3 == 0 { seed & 0xFFFF_F000 } else { seed };
        }
        let mut stream = build_frame(((f * 577) % 23040) as u16, &c);
        let _ = engine.poll(&mut stream);
    }
    assert!(!engine.scans.is_empty());
    for scan in &engine.scans {
        assert!(scan.points.iter().all(|p| p.distance_q0 != 0));
    }
}

#[test]
fn cabin_decoding() {
    let c0 = 1000 | (5 << 12) | ((-3i32 as u32 & 0x3FF) << 22);
    assert_eq!(decode_cabin(c0, 2000), (5952, 5992, 22944));
    // borrowing the next major when this one is empty
    assert_eq!(decode_cabin(1 << 12, 600), (0, 2760, 2752));
    // both sentinels
    assert_eq!(decode_cabin(100 | (0x1FF << 12) | (0x200 << 22), 0), (400, 0, 0));
    // a negative prediction below the base wraps as two's complement
    assert_eq!(decode_cabin(0x3FF << 12, 0), (0, (-4i32) as u32, 0));
}

#[test]
fn angle_interpolation_rounds_and_wraps() {
    assert_eq!(interpolate_angle(0, 960, 0, 1), 10);
    assert_eq!(interpolate_angle(0, 960, 31, 2), 950);
    // a0 + delta * 95/96 = 23000 + 63.33 wraps past a full turn
    assert_eq!(interpolate_angle(23000, 24, 31, 2), 23);
    // backward start angles are taken as the forward wraparound delta
    assert_eq!(interpolate_angle(100, 4, 0, 1), (100 + (23040 - 96 + 48) / 96) as u16);
    // 96 * 1.5 rounds up
    assert_eq!(interpolate_angle(0, 144, 0, 1), 2);
}

#[test]
fn scan_wire_encoding() {
    let scan = LidarScan { points: vec![point(0x1234, 0x0A0B0C0D, 2), point(1, 2, 0)] };
    assert_eq!(
        scan.encode(),
        vec![2, 0, 0, 0, 0x34, 0x12, 0x0D, 0x0C, 0x0B, 0x0A, 2, 1, 0, 2, 0, 0, 0, 0]
    );
    assert_eq!(LidarScan { points: vec![] }.encode(), vec![0, 0, 0, 0]);
}
