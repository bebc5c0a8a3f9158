use robokit::robot_sensor_wire::{RobotSensorWire, WireError};

#[test]
fn sensor_wire_new_is_zeroed() {
    let wire = RobotSensorWire::new();
    assert_eq!(wire.robot_id, 0);
    assert_eq!(wire.seq, 0);
    assert_eq!(wire.ball_angle, 0);
    assert_eq!(wire.ball_dist, 0);
    assert!(wire.lidar_dist.iter().all(|d| *d == 0));
    assert_eq!(wire.lidar_dist.len(), 450);
}

#[test]
fn sensor_wire_encoded_len() {
    assert_eq!(RobotSensorWire::ENCODED_LEN, 1813);
}

#[test]
fn roundtrips_fixed_size_sensor_wire() {
    let sensor = RobotSensorWire {
        robot_id: u8::MAX,
        seq: u32::MAX,
        lidar_dist: [u32::MAX; 450],
        ball_angle: i32::MAX,
        ball_dist: u32::MAX,
    };

    let encoded = sensor.encode();

    assert_eq!(encoded.len(), RobotSensorWire::ENCODED_LEN);
    assert_eq!(RobotSensorWire::decode(encoded), Ok(sensor));
}

#[test]
fn sensor_decode_rejects_trailing_bytes() {
    let sensor = RobotSensorWire {
        robot_id: 1,
        seq: 2,
        lidar_dist: [6; 450],
        ball_angle: 4,
        ball_dist: 5,
    };
    let mut encoded = sensor.encode();
    encoded[0] = 0;

    assert!(RobotSensorWire::decode(encoded).is_err());
}

#[test]
fn sensor_wire_byte_layout() {
    let mut sensor = RobotSensorWire::new();
    sensor.robot_id = 7;
    sensor.seq = 0x0403_0201;
    sensor.ball_angle = -2;
    sensor.ball_dist = 0x0c0b_0a09;
    sensor.lidar_dist[0] = 0x1110_0f0e;
    sensor.lidar_dist[449] = 0xdead_beef;
    let bytes = sensor.encode();
    assert_eq!(&bytes[..13], &[7, 1, 2, 3, 4, 0xfe, 0xff, 0xff, 0xff, 9, 10, 11, 12]);
    assert_eq!(&bytes[13..17], &[0x0e, 0x0f, 0x10, 0x11]);
    assert_eq!(&bytes[1809..], &[0xef, 0xbe, 0xad, 0xde]);
    assert!(bytes[17..1809].iter().all(|b| *b == 0));
    assert_eq!(RobotSensorWire::decode(bytes), Ok(sensor));
}

#[test]
fn sensor_wire_decodes_any_nonzero_id() {
    let mut bytes = [0u8; 1813];
    for (i, b) in bytes.iter_mut().enumerate() {
        *b = (i % 251) as u8 + 1;
    }
    let decoded = RobotSensorWire::decode(bytes).unwrap();
    assert_eq!(decoded.robot_id, 1);
    assert_eq!(decoded.seq, u32::from_le_bytes([2, 3, 4, 5]));
    assert_eq!(decoded.encode(), bytes);
}

#[test]
fn sensor_wire_rejects_zero_id() {
    assert_eq!(RobotSensorWire::decode(RobotSensorWire::new().encode()), Err(WireError::ZeroRobotId));
    assert_eq!(RobotSensorWire::decode([0u8; 1813]), Err(WireError::ZeroRobotId));
}
