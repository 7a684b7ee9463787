use vstd::prelude::*;

verus! {

/// Requests that a network client sends to the car.
#[derive(Debug, Clone, Copy, PartialEq, Eq, Structural)]
pub enum ClientToCar {
    GetCurrentPose,
    GetMostRecentLidarScan,
    SetServoPosition { microseconds: u16 },
    SetMotorOutput(i16),
}

/// Why the client's byte stream could not be read.
#[derive(Debug, Clone, Copy, PartialEq, Eq, Structural)]
pub enum ProtocolError {
    /// A packet starts with a tag that no request has.
    InvalidPacketId(u8),
}

/// Length in bytes of a packet, tag included, by its tag; 0 for an unknown tag.
pub open spec fn packet_len(id: u8) -> int {
    if id == 0 || id == 1 {
        1
    } else if id == 2 || id == 3 {
        3
    } else {
        0
    }
}

/// The request held by a complete packet at the front of `b`.
pub open spec fn packet_request(b: Seq<u8>) -> ClientToCar {
    if b[0] == 0 {
        ClientToCar::GetCurrentPose
    } else if b[0] == 1 {
        ClientToCar::GetMostRecentLidarScan
    } else if b[0] == 2 {
        ClientToCar::SetServoPosition { microseconds: (b[1] + b[2] * 0x100) as u16 }
    } else {
        ClientToCar::SetMotorOutput((b[1] + b[2] * 0x100) as i16)
    }
}

/// Reading `b` from the front: the complete packets, the number of bytes they
/// take, and whether reading stopped at an unknown tag (rather than at the end
/// of the bytes or at an incomplete packet).
pub open spec fn parse_spec(b: Seq<u8>) -> (Seq<ClientToCar>, int, bool)
    decreases b.len(),
{
    if b.len() == 0 {
        (seq![], 0, false)
    } else if packet_len(b[0]) == 0 {
        (seq![], 0, true)
    } else if b.len() < packet_len(b[0]) {
        (seq![], 0, false)
    } else {
        let l = packet_len(b[0]);
        let rest = parse_spec(b.subrange(l, b.len() as int));
        (seq![packet_request(b)] + rest.0, l + rest.1, rest.2)
    }
}

proof fn lemma_parse_consumed(b: Seq<u8>)
    ensures
        0 <= parse_spec(b).1 <= b.len(),
        parse_spec(b).2 ==> parse_spec(b).1 < b.len() && packet_len(b[parse_spec(b).1]) == 0,
    decreases b.len(),
{
    if b.len() > 0 && packet_len(b[0]) != 0 && b.len() >= packet_len(b[0]) {
        let l = packet_len(b[0]);
        let t = b.subrange(l, b.len() as int);
        lemma_parse_consumed(t);
        if parse_spec(t).2 {
            assert(b[l + parse_spec(t).1] == t[parse_spec(t).1]);
        }
    }
}

/// Takes every complete packet from the front of `buffer`.
///
/// Reading stops at the end of the bytes or at an incomplete packet, which
/// stays in `buffer` for later, and the packets read are returned. It also
/// stops at a packet with an unknown tag: the error names that tag, the packets
/// before it are dropped, and `buffer` keeps the bad packet at its front.
pub fn parse_client_packets(buffer: &mut Vec<u8>) -> (r: Result<Vec<ClientToCar>, ProtocolError>)
    ensures
        ({
            let (packets, used, bad) = parse_spec(old(buffer)@);
            &&& final(buffer)@ == old(buffer)@.subrange(used, old(buffer)@.len() as int)
            &&& !bad ==> (r matches Ok(v) && v@ == packets)
            &&& bad ==> r == Err::<Vec<ClientToCar>, ProtocolError>(
                ProtocolError::InvalidPacketId(old(buffer)@[used]),
            )
        }),
{
    let ghost b = buffer@;
    let mut packets: Vec<ClientToCar> = Vec::new();
    let mut pos: usize = 0;
    let len = buffer.len();
    proof {
        assert(b.subrange(0, b.len() as int) == b);
        lemma_parse_consumed(b);
    }
    let mut bad: Option<u8> = None;
    while pos < len
        invariant_except_break
            bad is None,
        invariant
            len == b.len(),
            buffer@ == b,
            pos <= len,
            ({
                let all = parse_spec(b);
                let rest = parse_spec(b.subrange(pos as int, len as int));
                &&& all.0 == packets@ + rest.0
                &&& all.1 == pos + rest.1
                &&& all.2 == rest.2
            }),
            bad matches Some(id) ==> parse_spec(b.subrange(pos as int, len as int)) == (
                Seq::<ClientToCar>::empty(),
                0int,
                true,
            ) && id == b[pos as int],
        ensures
            bad is None ==> parse_spec(b.subrange(pos as int, len as int)) == (
                Seq::<ClientToCar>::empty(),
                0int,
                false,
            ),
        decreases len - pos,
    {
        let ghost t = b.subrange(pos as int, len as int);
        let id = buffer[pos];
        let plen: usize = if id == 0 || id == 1 {
            1
        } else if id == 2 || id == 3 {
            3
        } else {
            0
        };
        if plen == 0 {
            bad = Some(id);
            break;
        }
        if len - pos < plen {
            break;
        }
        let request = if id == 0 {
            ClientToCar::GetCurrentPose
        } else if id == 1 {
            ClientToCar::GetMostRecentLidarScan
        } else if id == 2 {
            ClientToCar::SetServoPosition { microseconds: buffer[pos + 1] as u16 + buffer[pos + 2] as u16 * 0x100 }
        } else {
            let raw: u16 = buffer[pos + 1] as u16 + buffer[pos + 2] as u16 * 0x100;
            ClientToCar::SetMotorOutput(raw as i16)
        };
        proof {
            assert(t.subrange(plen as int, t.len() as int) == b.subrange(pos + plen, len as int));
            assert(request == packet_request(t));
            assert(packets@.push(request) + parse_spec(b.subrange(pos + plen, len as int)).0 == packets@
                + parse_spec(t).0);
        }
        packets.push(request);
        pos = pos + plen;
    }
    proof {
        assert(b.subrange(pos as int, len as int).len() == 0 ==> parse_spec(b.subrange(pos as int, len as int)).1 == 0);
        assert(packets@ + Seq::<ClientToCar>::empty() == packets@);
    }
    let rest = buffer.split_off(pos);
    *buffer = rest;
    match bad {
        Some(id) => Err(ProtocolError::InvalidPacketId(id)),
        None => Ok(packets),
    }
}

} // verus!
