use vstd::prelude::*;
use crate::cabin::{pair_points, unpack_packet_pair, lemma_pair_points_have_returns};
use crate::bytes::{le16, le32, push_le16, push_le32};
use crate::frame::{FrameError, ScanPacket, frame_checksum_ok, frame_sync_ok, FRAME_LEN};

verus! {

/// One measurement: angle in 1/64 degree, distance in 1/4 mm, and the point's
/// position (0, 1 or 2) within the triplet decoded from one cabin.
#[derive(Debug, Clone, Copy, PartialEq, Eq, Structural)]
pub struct LidarPoint {
    pub angle_q6: u16,
    pub distance_q0: u32,
    pub index: u8,
}

/// The points of one revolution, in the order they were measured.
#[derive(Debug, Clone)]
pub struct LidarScan {
    pub points: Vec<LidarPoint>,
}

/// A scan as the accumulator sees it: non-empty, every point carries a
/// return, and the angles never decrease.
pub open spec fn scan_ok(pts: Seq<LidarPoint>) -> bool {
    &&& pts.len() > 0
    &&& forall|k: int| 0 <= k < pts.len() ==> #[trigger] pts[k].distance_q0 != 0
    &&& forall|a: int, b: int|
        0 <= a <= b < pts.len() ==> #[trigger] pts[a].angle_q6 <= #[trigger] pts[b].angle_q6
}

/// Every scan of the list is well formed.
pub open spec fn scans_ok(scans: Seq<Seq<LidarPoint>>) -> bool {
    forall|i: int| 0 <= i < scans.len() ==> #[trigger] scan_ok(scans[i])
}

/// The scans after one more point: the first point opens the first scan; a
/// point whose angle is below that of the last point of the current scan seals
/// it and opens a new scan; any other point is appended to the current scan.
pub open spec fn accumulate(scans: Seq<Seq<LidarPoint>>, p: LidarPoint) -> Seq<Seq<LidarPoint>> {
    if scans.len() == 0 {
        seq![seq![p]]
    } else if scans.last().len() == 0 {
        scans.update(scans.len() - 1, seq![p])
    } else if p.angle_q6 < scans.last().last().angle_q6 {
        scans.push(seq![p])
    } else {
        scans.update(scans.len() - 1, scans.last().push(p))
    }
}

/// The scans after the points `pts`, taken in order.
pub open spec fn accumulate_all(scans: Seq<Seq<LidarPoint>>, pts: Seq<LidarPoint>) -> Seq<Seq<LidarPoint>>
    decreases pts.len(),
{
    if pts.len() == 0 {
        scans
    } else {
        accumulate(accumulate_all(scans, pts.drop_last()), pts.last())
    }
}

/// The packets kept after `p` arrives: the last two.
pub open spec fn keep_last_two(packets: Seq<ScanPacket>, p: ScanPacket) -> Seq<ScanPacket> {
    if packets.len() >= 2 {
        seq![packets.last(), p]
    } else {
        packets.push(p)
    }
}

proof fn lemma_accumulate_ok(scans: Seq<Seq<LidarPoint>>, p: LidarPoint)
    requires
        scans_ok(scans),
        p.distance_q0 != 0,
    ensures
        scans_ok(accumulate(scans, p)),
        accumulate(scans, p).len() >= scans.len(),
{
    let r = accumulate(scans, p);
    if scans.len() > 0 && !(p.angle_q6 < scans.last().last().angle_q6) {
        let last = scans.last().push(p);
        assert(scan_ok(scans[scans.len() - 1]));
        assert forall|a: int, b: int| 0 <= a <= b < last.len() implies #[trigger] last[a].angle_q6
            <= #[trigger] last[b].angle_q6 by {
            if b == last.len() - 1 && a < b {
                assert(scans.last()[a].angle_q6 <= scans.last().last().angle_q6);
            }
        }
        assert(scan_ok(last));
    }
    assert forall|i: int| 0 <= i < r.len() implies #[trigger] scan_ok(r[i]) by {
        if i < scans.len() - 1 || (scans.len() > 0 && r.len() > scans.len() && i < scans.len()) {
            assert(r[i] == scans[i]);
        }
    }
}

proof fn lemma_accumulate_all_ok(scans: Seq<Seq<LidarPoint>>, pts: Seq<LidarPoint>)
    requires
        scans_ok(scans),
        forall|k: int| 0 <= k < pts.len() ==> #[trigger] pts[k].distance_q0 != 0,
    ensures
        scans_ok(accumulate_all(scans, pts)),
        accumulate_all(scans, pts).len() >= scans.len(),
    decreases pts.len(),
{
    if pts.len() > 0 {
        let init = pts.drop_last();
        assert forall|k: int| 0 <= k < init.len() implies #[trigger] init[k].distance_q0 != 0 by {
            assert(init[k] == pts[k]);
        }
        lemma_accumulate_all_ok(scans, init);
        lemma_accumulate_ok(accumulate_all(scans, init), pts.last());
    }
}

/// Wire form of one point: angle (2 bytes), distance (4 bytes), index (1 byte),
/// little-endian.
pub open spec fn point_bytes(p: LidarPoint) -> Seq<u8> {
    le16(p.angle_q6) + le32(p.distance_q0) + seq![p.index]
}

/// Wire form of a run of points, one after another.
pub open spec fn points_bytes(pts: Seq<LidarPoint>) -> Seq<u8>
    decreases pts.len(),
{
    if pts.len() == 0 {
        seq![]
    } else {
        points_bytes(pts.drop_last()) + point_bytes(pts.last())
    }
}

impl LidarScan {
    /// Wire form of a scan: the point count as 4 little-endian bytes, then each point.
    pub fn encode(&self) -> (r: Vec<u8>)
        requires
            self.points@.len() <= u32::MAX,
        ensures
            r@ == le32(self.points@.len() as u32) + points_bytes(self.points@),
    {
        let mut out: Vec<u8> = Vec::new();
        push_le32(&mut out, self.points.len() as u32);
        let mut k: usize = 0;
        while k < self.points.len()
            invariant
                k <= self.points@.len(),
                out@ == le32(self.points@.len() as u32) + points_bytes(self.points@.subrange(0, k as int)),
            decreases self.points@.len() - k,
        {
            let p = self.points[k];
            assert(self.points@.subrange(0, k + 1).drop_last() == self.points@.subrange(0, k as int));
            push_le16(&mut out, p.angle_q6);
            push_le32(&mut out, p.distance_q0);
            out.push(p.index);
            assert(out@ =~= le32(self.points@.len() as u32) + points_bytes(self.points@.subrange(0, k + 1)));
            k = k + 1;
        }
        assert(self.points@.subrange(0, self.points@.len() as int) == self.points@);
        out
    }
}

/// The decoding state: the last two packets and every scan assembled so far,
/// the last of which is still being filled.
pub struct LidarEngine {
    pub scan_packets: Vec<ScanPacket>,
    pub scans: Vec<LidarScan>,
}

impl LidarEngine {
    /// The scans as sequences of points.
    pub open spec fn scans_view(&self) -> Seq<Seq<LidarPoint>> {
        self.scans@.map_values(|s: LidarScan| s.points@)
    }

    /// At most two packets are buffered, and every scan is well formed: in
    /// particular no scan ever holds a point with distance 0.
    pub open spec fn wf(&self) -> bool {
        &&& self.scan_packets@.len() <= 2
        &&& scans_ok(self.scans_view())
    }

    /// An engine that has seen no packet yet.
    pub fn new() -> (r: Self)
        ensures
            r.wf(),
            r.scan_packets@.len() == 0,
            r.scans@.len() == 0,
    {
        LidarEngine { scan_packets: Vec::new(), scans: Vec::new() }
    }

    /// Feeds one point to the scan accumulator.
    pub fn add_point(&mut self, point: LidarPoint)
        ensures
            final(self).scans_view() == accumulate(old(self).scans_view(), point),
            final(self).scan_packets == old(self).scan_packets,
    {
        let ghost before = self.scans_view();
        if self.scans.len() == 0 {
            self.scans.push(LidarScan { points: Vec::new() });
        }
        let ghost pushed = self.scans@;
        let mut current = self.scans.pop().unwrap();
        let ghost rest = self.scans@;
        let n = current.points.len();
        proof {
            assert(before.len() > 0 ==> before.last() == current.points@);
            assert(rest.map_values(|s: LidarScan| s.points@) =~= pushed.map_values(
                |s: LidarScan| s.points@,
            ).drop_last());
        }
        if n == 0 {
            current.points.push(point);
            self.scans.push(current);
        } else if point.angle_q6 < current.points[n - 1].angle_q6 {
            self.scans.push(current);
            self.scans.push(LidarScan { points: vec![point] });
        } else {
            current.points.push(point);
            self.scans.push(current);
        }
        assert(self.scans_view() =~~= accumulate(before, point));
    }

    fn add_points(&mut self, pts: &Vec<LidarPoint>)
        ensures
            final(self).scans_view() == accumulate_all(old(self).scans_view(), pts@),
            final(self).scan_packets == old(self).scan_packets,
    {
        let ghost start = self.scans_view();
        let mut k: usize = 0;
        while k < pts.len()
            invariant
                k <= pts@.len(),
                self.scans_view() == accumulate_all(start, pts@.subrange(0, k as int)),
                self.scan_packets == old(self).scan_packets,
            decreases pts@.len() - k,
        {
            assert(pts@.subrange(0, k + 1).drop_last() == pts@.subrange(0, k as int));
            self.add_point(pts[k]);
            k = k + 1;
        }
        assert(pts@.subrange(0, pts@.len() as int) == pts@);
    }

    /// Takes the next frame from the front of `stream`, once 132 bytes are there.
    ///
    /// A frame without the sync value costs one byte, so that the next call
    /// tries one byte later; a frame with a bad checksum is dropped whole. A
    /// valid frame is kept beside the one before it, and that earlier packet is
    /// unpacked into points, which go to the scan accumulator. The result is
    /// the second most recent scan when this frame has opened a new one.
    pub fn poll(&mut self, stream: &mut Vec<u8>) -> (r: Result<Option<&LidarScan>, FrameError>)
        requires
            old(self).wf(),
        ensures
            final(self).wf(),
            old(stream)@.len() < FRAME_LEN ==> {
                &&& r == Ok::<Option<&LidarScan>, FrameError>(None)
                &&& final(stream)@ == old(stream)@
                &&& final(self).scan_packets@ == old(self).scan_packets@
                &&& final(self).scans_view() == old(self).scans_view()
            },
            old(stream)@.len() >= FRAME_LEN ==> {
                let f = old(stream)@.subrange(0, FRAME_LEN as int);
                let len = old(stream)@.len() as int;
                &&& !frame_sync_ok(f) ==> {
                    &&& r == Err::<Option<&LidarScan>, FrameError>(FrameError::Desync)
                    &&& final(stream)@ == old(stream)@.subrange(1, len)
                    &&& final(self).scan_packets@ == old(self).scan_packets@
                    &&& final(self).scans_view() == old(self).scans_view()
                }
                &&& frame_sync_ok(f) && !frame_checksum_ok(f) ==> {
                    &&& r == Err::<Option<&LidarScan>, FrameError>(FrameError::ChecksumMismatch)
                    &&& final(stream)@ == old(stream)@.subrange(FRAME_LEN as int, len)
                    &&& final(self).scan_packets@ == old(self).scan_packets@
                    &&& final(self).scans_view() == old(self).scans_view()
                }
                &&& frame_sync_ok(f) && frame_checksum_ok(f) ==> {
                    let p = final(self).scan_packets@.last();
                    &&& r is Ok
                    &&& final(stream)@ == old(stream)@.subrange(FRAME_LEN as int, len)
                    &&& p.decodes_from(f)
                    &&& final(self).scan_packets@ == keep_last_two(old(self).scan_packets@, p)
                    &&& final(self).scans_view() == if old(self).scan_packets@.len() == 0 {
                        old(self).scans_view()
                    } else {
                        accumulate_all(
                            old(self).scans_view(),
                            pair_points(old(self).scan_packets@.last(), p, 32),
                        )
                    }
                    &&& (r matches Ok(Some(_))) <==> final(self).scans@.len() >= 2
                        && final(self).scans@.len() != old(self).scans@.len()
                    &&& r matches Ok(Some(s)) ==> *s == final(self).scans@[final(self).scans@.len() - 2]
                }
            },
    {
        if stream.len() < FRAME_LEN {
            return Ok(None);
        }
        let mut frame = [0u8; 132];
        let mut k: usize = 0;
        while k < FRAME_LEN
            invariant
                k <= FRAME_LEN,
                stream@.len() >= FRAME_LEN,
                frame@.len() == FRAME_LEN,
                forall|m: int| 0 <= m < k ==> #[trigger] frame@[m] == stream@[m],
            decreases FRAME_LEN - k,
        {
            frame[k] = stream[k];
            k = k + 1;
        }
        assert(frame@ == stream@.subrange(0, FRAME_LEN as int));
        match ScanPacket::from_buffer(&frame) {
            Err(FrameError::Desync) => {
                stream.remove(0);
                Err(FrameError::Desync)
            },
            Err(e) => {
                let rest = stream.split_off(FRAME_LEN);
                *stream = rest;
                Err(e)
            },
            Ok(packet) => {
                let rest = stream.split_off(FRAME_LEN);
                *stream = rest;
                let scan_count = self.scans.len();
                let ghost old_packets = self.scan_packets@;
                let ghost old_scans = self.scans_view();
                if self.scan_packets.len() >= 2 {
                    self.scan_packets.remove(0);
                }
                self.scan_packets.push(packet);
                let n = self.scan_packets.len();
                if n > 1 {
                    let pts = unpack_packet_pair(&self.scan_packets[n - 2], &self.scan_packets[n - 1]);
                    proof {
                        lemma_pair_points_have_returns(self.scan_packets@[n - 2], packet, 32);
                    }
                    self.add_points(&pts);
                    proof {
                        lemma_accumulate_all_ok(old_scans, pts@);
                    }
                }
                assert(self.scan_packets@ =~= keep_last_two(old_packets, packet));
                let len = self.scans.len();
                if len >= 2 && scan_count != len {
                    Ok(Some(&self.scans[len - 2]))
                } else {
                    Ok(None)
                }
            },
        }
    }

    /// The most recent sealed scan: the second to last one, once there are two.
    pub fn get_most_recent_scan(&self) -> (r: Option<&LidarScan>)
        ensures
            r is Some <==> self.scans@.len() >= 2,
            r matches Some(s) ==> *s == self.scans@[self.scans@.len() - 2],
    {
        let len = self.scans.len();
        if len >= 2 {
            Some(&self.scans[len - 2])
        } else {
            None
        }
    }
}

} // verus!
