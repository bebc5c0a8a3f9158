use vstd::prelude::*;

verus! {

broadcast use vstd::array::group_array_axioms;

/// Message containing all the onboard Sensor data:
///   - Lidar
///   - Vision
#[derive(Debug, Clone, PartialEq)]
pub struct RobotSensorWire {
    pub robot_id: u8,
    pub seq: u32,
    // Vision
    pub ball_angle: i32,
    pub ball_dist: u32,
    // Lidar
    /// 0 to 360 degrees, each degree one distance measurement in mm
    /// Resolution is 0.8 degrees => 450 Measurements
    pub lidar_dist: [u32; 450],
}

/// Byte `k` (0 to 3, least significant first) of `v`.
pub open spec fn le_byte(v: u32, k: int) -> u8 {
    if k == 0 {
        (v & 0xff) as u8
    } else if k == 1 {
        ((v >> 8u32) & 0xff) as u8
    } else if k == 2 {
        ((v >> 16u32) & 0xff) as u8
    } else {
        ((v >> 24u32) & 0xff) as u8
    }
}

/// The little-endian number of the four bytes `b0, b1, b2, b3`.
pub open spec fn le_value(b0: u8, b1: u8, b2: u8, b3: u8) -> u32 {
    (b0 as u32) | ((b1 as u32) << 8u32) | ((b2 as u32) << 16u32) | ((b3 as u32) << 24u32)
}

/// Byte `i` of the encoded message: the identifier, then the sequence
/// number, the ball angle, the ball distance and the 450 lidar distances,
/// each as four little-endian bytes.
pub open spec fn wire_byte(w: RobotSensorWire, i: int) -> u8 {
    if i == 0 {
        w.robot_id
    } else if i < 5 {
        le_byte(w.seq, i - 1)
    } else if i < 9 {
        le_byte(w.ball_angle as u32, i - 5)
    } else if i < 13 {
        le_byte(w.ball_dist, i - 9)
    } else {
        le_byte(w.lidar_dist[(i - 13) / 4], (i - 13) % 4)
    }
}

/// The encoded message: 1813 bytes.
pub open spec fn wire_encoding(w: RobotSensorWire) -> Seq<u8> {
    Seq::new(1813, |i: int| wire_byte(w, i))
}

/// Four little-endian bytes give back the number they were taken from, and
/// a number gives back the bytes it was built from.
pub proof fn lemma_le_roundtrip(v: u32, b0: u8, b1: u8, b2: u8, b3: u8)
    ensures
        le_value(le_byte(v, 0), le_byte(v, 1), le_byte(v, 2), le_byte(v, 3)) == v,
        le_byte(le_value(b0, b1, b2, b3), 0) == b0,
        le_byte(le_value(b0, b1, b2, b3), 1) == b1,
        le_byte(le_value(b0, b1, b2, b3), 2) == b2,
        le_byte(le_value(b0, b1, b2, b3), 3) == b3,
{
    assert(((v & 0xff) as u8 as u32) | ((((v >> 8u32) & 0xff) as u8 as u32) << 8u32) | ((((v
        >> 16u32) & 0xff) as u8 as u32) << 16u32) | ((((v >> 24u32) & 0xff) as u8 as u32)
        << 24u32) == v) by (bit_vector);
    let x = le_value(b0, b1, b2, b3);
    assert(x == (b0 as u32) | ((b1 as u32) << 8u32) | ((b2 as u32) << 16u32) | ((b3 as u32)
        << 24u32) ==> (x & 0xff) as u8 == b0 && ((x >> 8u32) & 0xff) as u8 == b1 && ((x
        >> 16u32) & 0xff) as u8 == b2 && ((x >> 24u32) & 0xff) as u8 == b3) by (bit_vector);
}

/// An `i32` passes through `u32` unchanged.
proof fn lemma_i32_bits(a: i32, v: u32)
    ensures
        (a as u32) as i32 == a,
        (v as i32) as u32 == v,
{
    assert((a as u32) as i32 == a) by (bit_vector);
    assert((v as i32) as u32 == v) by (bit_vector);
}

/// The place value `256^b` of byte `b` (0 to 3) of a 32-bit number.
pub open spec fn place(b: int) -> int {
    if b == 0 {
        1
    } else if b == 1 {
        0x100
    } else if b == 2 {
        0x1_0000
    } else {
        0x100_0000
    }
}

/// Byte `b` of `v`, least significant first, by arithmetic.
pub open spec fn digit(v: u32, b: int) -> int {
    (v as int / place(b)) % 256
}

/// The bytes that `le_byte` picks are the base-256 digits of the number.
proof fn lemma_le_byte_is_digit(v: u32, b: int)
    requires
        0 <= b < 4,
    ensures
        le_byte(v, b) as int == digit(v, b),
{
    assert((v & 0xff) == v % 256) by (bit_vector);
    assert(((v >> 8u32) & 0xff) == (v / 0x100) % 256) by (bit_vector);
    assert(((v >> 16u32) & 0xff) == (v / 0x1_0000) % 256) by (bit_vector);
    assert(((v >> 24u32) & 0xff) == (v / 0x100_0000) % 256) by (bit_vector);
}

/// The wire layout: 1813 bytes; byte 0 is the robot identifier; bytes
/// `1 + b`, `5 + b` and `9 + b` are digit `b` (least significant first) of
/// the sequence number, of the ball angle (two's complement) and of the ball
/// distance; and byte `13 + 4 k + b` is digit `b` of lidar distance `k`, so
/// the distances follow each other in index order.
pub proof fn lemma_wire_layout(w: RobotSensorWire)
    ensures
        wire_encoding(w).len() == 1813,
        wire_encoding(w)[0] == w.robot_id,
        forall|b: int| 0 <= b < 4 ==> #[trigger] wire_encoding(w)[1 + b] as int == digit(w.seq, b),
        forall|b: int|
            0 <= b < 4 ==> #[trigger] wire_encoding(w)[5 + b] as int == digit(w.ball_angle as u32, b),
        forall|b: int|
            0 <= b < 4 ==> #[trigger] wire_encoding(w)[9 + b] as int == digit(w.ball_dist, b),
        forall|k: int, b: int|
            0 <= k < 450 && 0 <= b < 4 ==> #[trigger] wire_encoding(w)[13 + 4 * k + b] as int
                == digit(w.lidar_dist[k], b),
{
    assert forall|b: int| 0 <= b < 4 implies #[trigger] wire_encoding(w)[1 + b] as int == digit(
        w.seq,
        b,
    ) by {
        lemma_le_byte_is_digit(w.seq, b);
    }
    assert forall|b: int| 0 <= b < 4 implies #[trigger] wire_encoding(w)[5 + b] as int == digit(
        w.ball_angle as u32,
        b,
    ) by {
        lemma_le_byte_is_digit(w.ball_angle as u32, b);
    }
    assert forall|b: int| 0 <= b < 4 implies #[trigger] wire_encoding(w)[9 + b] as int == digit(
        w.ball_dist,
        b,
    ) by {
        lemma_le_byte_is_digit(w.ball_dist, b);
    }
    assert forall|k: int, b: int| 0 <= k < 450 && 0 <= b < 4 implies #[trigger] wire_encoding(w)[13
        + 4 * k + b] as int == digit(w.lidar_dist[k], b) by {
        let i = 13 + 4 * k + b;
        assert((i - 13) / 4 == k && (i - 13) % 4 == b);
        lemma_le_byte_is_digit(w.lidar_dist[k], b);
    }
}

/// Two numbers with the same four little-endian bytes are equal.
proof fn lemma_same_bytes(u: u32, v: u32)
    requires
        forall|k: int| 0 <= k < 4 ==> le_byte(u, k) == le_byte(v, k),
    ensures
        u == v,
{
    assert(le_byte(u, 0) == le_byte(v, 0) && le_byte(u, 1) == le_byte(v, 1) && le_byte(u, 2)
        == le_byte(v, 2) && le_byte(u, 3) == le_byte(v, 3));
    lemma_le_roundtrip(u, 0, 0, 0, 0);
    lemma_le_roundtrip(v, 0, 0, 0, 0);
}

/// Messages with the same encoding are the same message: the encoding
/// loses nothing.
pub proof fn lemma_encoding_injective(a: RobotSensorWire, b: RobotSensorWire)
    requires
        wire_encoding(a) == wire_encoding(b),
    ensures
        a == b,
{
    let ea = wire_encoding(a);
    let eb = wire_encoding(b);
    assert forall|i: int| 0 <= i < 1813 implies #[trigger] wire_byte(a, i) == wire_byte(b, i) by {
        assert(ea[i] == wire_byte(a, i) && eb[i] == wire_byte(b, i));
    }
    assert(wire_byte(a, 0) == wire_byte(b, 0));
    assert forall|k: int| 0 <= k < 4 implies le_byte(a.seq, k) == le_byte(b.seq, k) by {
        assert(wire_byte(a, 1 + k) == wire_byte(b, 1 + k));
    }
    lemma_same_bytes(a.seq, b.seq);
    let (angle_a, angle_b) = (a.ball_angle as u32, b.ball_angle as u32);
    assert forall|k: int| 0 <= k < 4 implies #[trigger] le_byte(angle_a, k) == le_byte(
        angle_b,
        k,
    ) by {
        assert(wire_byte(a, 5 + k) == wire_byte(b, 5 + k));
    }
    lemma_same_bytes(angle_a, angle_b);
    lemma_i32_bits(a.ball_angle, 0);
    lemma_i32_bits(b.ball_angle, 0);
    assert forall|k: int| 0 <= k < 4 implies le_byte(a.ball_dist, k) == le_byte(b.ball_dist, k) by {
        assert(wire_byte(a, 9 + k) == wire_byte(b, 9 + k));
    }
    lemma_same_bytes(a.ball_dist, b.ball_dist);
    assert forall|n: int| 0 <= n < 450 implies a.lidar_dist[n] == b.lidar_dist[n] by {
        assert forall|k: int| 0 <= k < 4 implies le_byte(a.lidar_dist[n], k) == le_byte(
            b.lidar_dist[n],
            k,
        ) by {
            let i = 13 + 4 * n + k;
            assert((i - 13) / 4 == n && (i - 13) % 4 == k);
            assert(wire_byte(a, i) == wire_byte(b, i));
        }
        lemma_same_bytes(a.lidar_dist[n], b.lidar_dist[n]);
    }
    assert(a.lidar_dist =~= b.lidar_dist);
}

/// Why a message is not accepted.
#[derive(Debug, Clone, Copy, PartialEq, Eq)]
pub enum WireError {
    /// The robot identifier is zero, which no sending robot uses: it is the
    /// identifier of an unset (`new`) message.
    ZeroRobotId,
}

impl RobotSensorWire {
    /// The size of the encoded message: the identifier byte, three
    /// fixed-width 32-bit fields and 450 fixed-width 32-bit distances.
    pub const ENCODED_LEN: usize = 1 + 4 + 4 + 4 + (4 * 450);

    /// The message with every field zero.
    pub fn new() -> (r: Self)
        ensures
            r.robot_id == 0,
            r.seq == 0,
            r.ball_angle == 0,
            r.ball_dist == 0,
            forall|i: int| 0 <= i < 450 ==> r.lidar_dist[i] == 0,
    {
        Self { robot_id: 0, seq: 0, lidar_dist: [0; 450], ball_angle: 0, ball_dist: 0 }
    }

    /// The message in its fixed-size wire layout.
    pub fn encode(&self) -> (r: [u8; 1813])
        ensures
            r@ == wire_encoding(*self),
            r[0] == self.robot_id,
            forall|k: int, b: int|
                0 <= k < 450 && 0 <= b < 4 ==> #[trigger] r[13 + 4 * k + b] as int == digit(
                    self.lidar_dist[k],
                    b,
                ),
    {
        proof {
            lemma_wire_layout(*self);
        }
        let mut out = [0u8; 1813];
        write_le(&mut out, 1, self.seq);
        write_le(&mut out, 5, self.ball_angle as u32);
        write_le(&mut out, 9, self.ball_dist);
        out[0] = self.robot_id;
        let ghost w = *self;
        assert forall|i: int| 0 <= i < 13 implies #[trigger] out@[i] == wire_byte(w, i) by {}
        for k in 0..450
            invariant
                w == *self,
                forall|i: int| 0 <= i < 13 + 4 * k ==> #[trigger] out@[i] == wire_byte(w, i),
        {
            let base = 13 + 4 * k;
            write_le(&mut out, base, self.lidar_dist[k]);
            assert forall|i: int| 0 <= i < 13 + 4 * (k + 1) implies #[trigger] out@[i] == wire_byte(
                w,
                i,
            ) by {
                if i >= base {
                    assert((i - 13) / 4 == k as int);
                    assert((i - 13) % 4 == i - base);
                }
            }
        }
        assert(out@ =~= wire_encoding(*self));
        out
    }

    /// The message read back from its fixed-size wire layout, rejected when
    /// its robot identifier (the first byte) is zero.
    pub fn decode(message: [u8; 1813]) -> (r: Result<Self, WireError>)
        ensures
            match r {
                Ok(w) => message[0] != 0 && wire_encoding(w) == message@ && w.robot_id == message[0]
                    && forall|k: int, b: int|
                    0 <= k < 450 && 0 <= b < 4 ==> digit(w.lidar_dist[k], b) == #[trigger] message[13
                        + 4 * k + b] as int,
                Err(e) => message[0] == 0 && e == WireError::ZeroRobotId,
            },
    {
        if message[0] == 0 {
            return Err(WireError::ZeroRobotId);
        }
        let bytes = &message;
        let mut lidar_dist = [0u32; 450];
        for k in 0..450
            invariant
                forall|j: int| 0 <= j < k ==> #[trigger] lidar_dist[j] == le_value(
                    bytes[13 + 4 * j],
                    bytes[14 + 4 * j],
                    bytes[15 + 4 * j],
                    bytes[16 + 4 * j],
                ),
        {
            lidar_dist[k] = read_le(bytes, 13 + 4 * k);
        }
        let r = Self {
            robot_id: bytes[0],
            seq: read_le(bytes, 1),
            ball_angle: read_le(bytes, 5) as i32,
            ball_dist: read_le(bytes, 9),
            lidar_dist,
        };
        proof {
            lemma_i32_bits(0, le_value(bytes[5], bytes[6], bytes[7], bytes[8]));
            assert forall|i: int| 0 <= i < 1813 implies #[trigger] wire_byte(r, i) == bytes@[i] by {
                if 1 <= i < 5 {
                    lemma_le_roundtrip(0, bytes[1], bytes[2], bytes[3], bytes[4]);
                } else if 5 <= i < 9 {
                    lemma_le_roundtrip(0, bytes[5], bytes[6], bytes[7], bytes[8]);
                } else if 9 <= i < 13 {
                    lemma_le_roundtrip(0, bytes[9], bytes[10], bytes[11], bytes[12]);
                } else if i >= 13 {
                    let k = (i - 13) / 4;
                    let base = 13 + 4 * k;
                    assert(0 <= k < 450);
                    assert(lidar_dist[k] == le_value(
                        bytes[base],
                        bytes[base + 1],
                        bytes[base + 2],
                        bytes[base + 3],
                    ));
                    lemma_le_roundtrip(
                        0,
                        bytes[base],
                        bytes[base + 1],
                        bytes[base + 2],
                        bytes[base + 3],
                    );
                }
            }
            assert(wire_encoding(r) =~= bytes@);
            lemma_wire_layout(r);
        }
        Ok(r)
    }
}

/// Writes the four little-endian bytes of `v` at `at`.
fn write_le(out: &mut [u8; 1813], at: usize, v: u32)
    requires
        at + 4 <= 1813,
    ensures
        forall|i: int|
            0 <= i < 1813 ==> #[trigger] final(out)@[i] == (if at <= i < at + 4 {
                le_byte(v, i - at)
            } else {
                old(out)@[i]
            }),
{
    out[at] = (v & 0xff) as u8;
    out[at + 1] = ((v >> 8u32) & 0xff) as u8;
    out[at + 2] = ((v >> 16u32) & 0xff) as u8;
    out[at + 3] = ((v >> 24u32) & 0xff) as u8;
}

/// Reads the four little-endian bytes at `at`.
fn read_le(bytes: &[u8; 1813], at: usize) -> (r: u32)
    requires
        at + 4 <= 1813,
    ensures
        r == le_value(bytes[at as int], bytes[at + 1], bytes[at + 2], bytes[at + 3]),
{
    (bytes[at] as u32) | ((bytes[at + 1] as u32) << 8u32) | ((bytes[at + 2] as u32) << 16u32) | ((
    bytes[at + 3] as u32) << 24u32)
}

} // verus!
