use vstd::prelude::*;
use crate::bytes::{le16, le32, lemma_le32_of_bytes, push_le16, push_le32};

verus! {

/// Commands for the motor and steering controller.
#[derive(Debug, Clone, Copy, PartialEq, Eq, Structural)]
pub enum MotorControlRequest {
    SetMotorPosition { clicks: i32 },
    /// Values between 500 and 2500 are the servo's full range of motion, so 1500
    /// is center.
    SetServoPosition { microseconds: u16 },
    /// Values between -255 and 255: negative is reverse, positive is forward.
    SetMotorOutput(i16),
}

/// Wire form of a command: a tag byte (1, 2 or 3), then the argument in
/// little-endian two's complement.
pub open spec fn motor_request_bytes(r: MotorControlRequest) -> Seq<u8> {
    match r {
        MotorControlRequest::SetMotorPosition { clicks } => seq![0x01u8] + le32(clicks as u32),
        MotorControlRequest::SetServoPosition { microseconds } => seq![0x02u8] + le16(microseconds),
        MotorControlRequest::SetMotorOutput(output) => seq![0x03u8] + le16(output as u16),
    }
}

impl MotorControlRequest {
    /// The bytes sent to the controller for this command.
    pub fn encode(&self) -> (r: Vec<u8>)
        ensures
            r@ == motor_request_bytes(*self),
    {
        let mut out: Vec<u8> = Vec::new();
        match self {
            MotorControlRequest::SetMotorPosition { clicks } => {
                out.push(0x01);
                push_le32(&mut out, *clicks as u32);
            },
            MotorControlRequest::SetServoPosition { microseconds } => {
                out.push(0x02);
                push_le16(&mut out, *microseconds);
            },
            MotorControlRequest::SetMotorOutput(output) => {
                out.push(0x03);
                push_le16(&mut out, *output as u16);
            },
        }
        assert(out@ =~= motor_request_bytes(*self));
        out
    }
}

/// Flag byte that opens each position report of the controller.
pub const POSITION_FLAG: u8 = 0xAA;

/// Reads the controller's 5-byte position report: the flag `0xAA`, then the
/// motor position as a little-endian `i32`. Anything else means the reader is
/// out of step with the reports, and gives `None`.
pub fn parse_motor_position(buffer: &[u8; 5]) -> (r: Option<i32>)
    ensures
        r is Some <==> buffer@[0] == POSITION_FLAG,
        r matches Some(v) ==> le32(v as u32) == buffer@.subrange(1, 5),
{
    if buffer[0] != POSITION_FLAG {
        return None;
    }
    let raw: u32 = buffer[1] as u32 + buffer[2] as u32 * 0x100 + buffer[3] as u32 * 0x1_0000
        + buffer[4] as u32 * 0x100_0000;
    let v = raw as i32;
    assert(v as u32 == raw) by (bit_vector)
        requires
            v == raw as i32,
    ;
    proof {
        lemma_le32_of_bytes(raw, buffer@[1], buffer@[2], buffer@[3], buffer@[4]);
        assert(buffer@.subrange(1, 5) =~= seq![buffer@[1], buffer@[2], buffer@[3], buffer@[4]]);
    }
    Some(v)
}

} // verus!
