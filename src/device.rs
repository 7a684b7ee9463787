use vstd::prelude::*;

verus! {

/// Commands without payload that the LIDAR accepts.
#[derive(Debug, Clone, Copy, PartialEq, Eq, Structural)]
pub enum LidarRequest {
    Stop,
    Reset,
    GetDeviceInfo,
    GetDeviceHealth,
}

/// Command byte of a request.
pub open spec fn request_code(r: LidarRequest) -> u8 {
    match r {
        LidarRequest::Stop => 0x25,
        LidarRequest::Reset => 0x40,
        LidarRequest::GetDeviceInfo => 0x50,
        LidarRequest::GetDeviceHealth => 0x52,
    }
}

impl LidarRequest {
    /// The bytes sent for this request: the start flag `0xA5`, then the command.
    pub fn encode(&self) -> (r: Vec<u8>)
        ensures
            r@ == seq![0xA5u8, request_code(*self)],
    {
        let code: u8 = match self {
            LidarRequest::Stop => 0x25,
            LidarRequest::Reset => 0x40,
            LidarRequest::GetDeviceInfo => 0x50,
            LidarRequest::GetDeviceHealth => 0x52,
        };
        let r = vec![0xA5u8, code];
        assert(r@ =~= seq![0xA5u8, request_code(*self)]);
        r
    }
}

/// The express-scan request: start flag, command `0x82`, a 5-byte payload
/// selecting the dense mode, and its checksum.
pub open spec fn express_scan_bytes() -> Seq<u8> {
    seq![0xA5u8, 0x82, 0x05, 0x03, 0x00, 0x00, 0x00, 0x00, 0x21]
}

/// The descriptor with which the LIDAR acknowledges the express-scan request.
pub open spec fn express_scan_ack_bytes() -> Seq<u8> {
    seq![0xA5u8, 0x5A, 0x84, 0x00, 0x00, 0x40, 0x84]
}

/// The bytes that start express scanning.
pub fn express_scan_request() -> (r: Vec<u8>)
    ensures
        r@ == express_scan_bytes(),
{
    let r = vec![0xA5u8, 0x82, 0x05, 0x03, 0x00, 0x00, 0x00, 0x00, 0x21];
    assert(r@ =~= express_scan_bytes());
    r
}

/// Whether a 7-byte reply is the acknowledgement of the express-scan request.
pub fn is_express_scan_ack(reply: &[u8; 7]) -> (r: bool)
    ensures
        r <==> reply@ == express_scan_ack_bytes(),
{
    let r = reply[0] == 0xA5 && reply[1] == 0x5A && reply[2] == 0x84 && reply[3] == 0x00
        && reply[4] == 0x00 && reply[5] == 0x40 && reply[6] == 0x84;
    assert(r ==> reply@ =~= express_scan_ack_bytes());
    r
}

/// Why a response could not be read.
#[derive(Debug, Clone, Copy, PartialEq, Eq, Structural)]
pub enum ResponseError {
    /// The descriptor does not start with `0xA5 0x5A`.
    BadDescriptor,
}

/// A reply from the LIDAR.
#[derive(Debug)]
pub enum LidarResponse {
    DeviceInfo {
        model: u8,
        firmware_minor: u8,
        firmware_major: u8,
        hardware: u8,
        serial: [u8; 16],
    },
}

impl LidarResponse {
    /// Reads a device-information reply from its 7-byte descriptor and its
    /// 20-byte payload: model, firmware minor and major, hardware, then the
    /// 16-byte serial number.
    pub fn from_bytes(descriptor: &[u8; 7], payload: &[u8; 20]) -> (r: Result<LidarResponse, ResponseError>)
        ensures
            r is Err <==> !(descriptor@[0] == 0xA5 && descriptor@[1] == 0x5A),
            r matches Ok(LidarResponse::DeviceInfo { model, firmware_minor, firmware_major, hardware, serial }) ==> {
                &&& model == payload@[0]
                &&& firmware_minor == payload@[1]
                &&& firmware_major == payload@[2]
                &&& hardware == payload@[3]
                &&& serial@ == payload@.subrange(4, 20)
            },
    {
        if !(descriptor[0] == 0xA5 && descriptor[1] == 0x5A) {
            return Err(ResponseError::BadDescriptor);
        }
        let mut serial = [0u8; 16];
        let mut k: usize = 0;
        while k < 16
            invariant
                k <= 16,
                serial@.len() == 16,
                payload@.len() == 20,
                forall|m: int| 0 <= m < k ==> #[trigger] serial@[m] == payload@[m + 4],
            decreases 16 - k,
        {
            serial[k] = payload[k + 4];
            k = k + 1;
        }
        assert(serial@ =~= payload@.subrange(4, 20));
        Ok(
            LidarResponse::DeviceInfo {
                model: payload[0],
                firmware_minor: payload[1],
                firmware_major: payload[2],
                hardware: payload[3],
                serial,
            },
        )
    }
}

} // verus!
