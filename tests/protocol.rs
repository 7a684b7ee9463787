use lidar_car::motor_control::parse_motor_position;
use lidar_car::{
    parse_client_packets, ClientToCar, LidarRequest, LidarResponse, MotorControlRequest,
    ProtocolError, ResponseError,
};

#[test]
fn client_packets_are_read_in_order() {
    let mut buffer = vec![0u8, 1, 2, 0xDC, 0x05, 3, 0x01, 0xFF];
    let packets = parse_client_packets(&mut buffer).unwrap();
    assert_eq!(
        packets,
        vec![
            ClientToCar::GetCurrentPose,
            ClientToCar::GetMostRecentLidarScan,
            ClientToCar::SetServoPosition { microseconds: 1500 },
            ClientToCar::SetMotorOutput(-255),
        ]
    );
    assert!(buffer.is_empty());
}

#[test]
fn incomplete_client_packet_waits() {
    let mut buffer = vec![1u8, 2, 0xDC];
    let packets = parse_client_packets(&mut buffer).unwrap();
    assert_eq!(packets, vec![ClientToCar::GetMostRecentLidarScan]);
    assert_eq!(buffer, vec![2, 0xDC]);
    buffer.push(0x05);
    let packets = parse_client_packets(&mut buffer).unwrap();
    assert_eq!(packets, vec![ClientToCar::SetServoPosition { microseconds: 1500 }]);
    assert!(buffer.is_empty());
}

#[test]
fn empty_client_buffer_gives_nothing() {
    let mut buffer: Vec<u8> = Vec::new();
    assert_eq!(parse_client_packets(&mut buffer).unwrap(), vec![]);
}

#[test]
fn unknown_client_tag_is_an_error() {
    let mut buffer = vec![0u8, 9, 1];
    assert_eq!(parse_client_packets(&mut buffer), Err(ProtocolError::InvalidPacketId(9)));
    assert_eq!(buffer, vec![9, 1]);
}

#[test]
fn motor_requests_encode() {
    assert_eq!(
        MotorControlRequest::SetMotorPosition { clicks: -2 }.encode(),
        vec![0x01, 0xFE, 0xFF, 0xFF, 0xFF]
    );
    assert_eq!(
        MotorControlRequest::SetServoPosition { microseconds: 1450 }.encode(),
        vec![0x02, 0xAA, 0x05]
    );
    assert_eq!(MotorControlRequest::SetMotorOutput(-255).encode(), vec![0x03, 0x01, 0xFF]);
}

#[test]
fn lidar_requests_encode() {
    assert_eq!(LidarRequest::Stop.encode(), vec![0xA5, 0x25]);
    assert_eq!(LidarRequest::Reset.encode(), vec![0xA5, 0x40]);
    assert_eq!(LidarRequest::GetDeviceInfo.encode(), vec![0xA5, 0x50]);
    assert_eq!(LidarRequest::GetDeviceHealth.encode(), vec![0xA5, 0x52]);
}

#[test]
fn express_scan_handshake_bytes() {
    assert_eq!(
        lidar_car::device::express_scan_request(),
        vec![0xA5, 0x82, 0x05, 0x03, 0x00, 0x00, 0x00, 0x00, 0x21]
    );
    assert!(lidar_car::device::is_express_scan_ack(&[0xA5, 0x5A, 0x84, 0x00, 0x00, 0x40, 0x84]));
    assert!(!lidar_car::device::is_express_scan_ack(&[0xA5, 0x5A, 0x84, 0x00, 0x00, 0x40, 0x85]));
}

#[test]
fn device_info_response() {
    let descriptor = [0xA5u8, 0x5A, 0x14, 0x00, 0x00, 0x00, 0x04];
    let mut payload = [0u8; 20];
    for (k, v) in payload.iter_mut().enumerate() {
        *v = k as u8 + 10;
    }
    match LidarResponse::from_bytes(&descriptor, &payload).unwrap() {
        LidarResponse::DeviceInfo { model, firmware_minor, firmware_major, hardware, serial } => {
            assert_eq!((model, firmware_minor, firmware_major, hardware), (10, 11, 12, 13));
            assert_eq!(serial, [14, 15, 16, 17, 18, 19, 20, 21, 22, 23, 24, 25, 26, 27, 28, 29]);
        }
    }
}

#[test]
fn bad_response_descriptor() {
    let descriptor = [0xA5u8, 0x00, 0x14, 0x00, 0x00, 0x00, 0x04];
    assert!(matches!(
        LidarResponse::from_bytes(&descriptor, &[0; 20]),
        Err(ResponseError::BadDescriptor)
    ));
}

#[test]
fn motor_position_reports() {
    assert_eq!(parse_motor_position(&[0xAA, 0x10, 0x27, 0x00, 0x00]), Some(10000));
    assert_eq!(parse_motor_position(&[0xAA, 0xFF, 0xFF, 0xFF, 0xFF]), Some(-1));
    assert_eq!(parse_motor_position(&[0x10, 0x27, 0x00, 0x00, 0xAA]), None);
}
