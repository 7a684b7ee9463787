use vstd::prelude::*;
use vstd::arithmetic::power2::{pow2, lemma2_to64};
use vstd::arithmetic::div_mod::lemma_mod_multiples_vanish;
use crate::frame::ScanPacket;
use crate::lidar::LidarPoint;
use crate::varbitscale::{varbitscale_decode, vbs_spec};

verus! {

/// A full turn in 1/64 degree.
pub const FULL_TURN_Q6: u32 = 23040;

/// The major distance code: the low 12 bits of a cabin.
pub open spec fn cabin_major(c: u32) -> int {
    c as int % 0x1000
}

/// A 10-bit two's-complement value read as a signed integer.
pub open spec fn sign_extend10(v: int) -> int {
    if v >= 512 {
        v - 1024
    } else {
        v
    }
}

/// The first predictor: bits 12 to 21 of a cabin, sign-extended.
pub open spec fn cabin_predict1(c: u32) -> int {
    sign_extend10((c as int / 0x1000) % 0x400)
}

/// The second predictor: bits 22 to 31 of a cabin, sign-extended.
pub open spec fn cabin_predict2(c: u32) -> int {
    sign_extend10(c as int / 0x40_0000)
}

/// A predictor holding one of the two "no return" sentinels.
pub open spec fn predict_invalid(p: int) -> bool {
    p == 0x1FF || p == -512
}

/// Raw distance predicted from a base and a scale level, scaled up by 4 into the
/// 32-bit distance field (a negative prediction wraps as two's complement).
pub open spec fn predicted_q2(base: int, scale: int, p: int) -> u32 {
    if predict_invalid(p) {
        0
    } else {
        ((base + p * pow2(scale as nat)) * 4) as u32
    }
}

/// Distance of point `j` (0, 1 or 2) decoded from cabin `c`, whose successor
/// cabin is `c_next`.
pub open spec fn slot_distance(c: u32, c_next: u32, j: int) -> u32 {
    let (m1, s1) = vbs_spec(cabin_major(c));
    let (m2, s2) = vbs_spec(cabin_major(c_next));
    let borrow = m1 == 0 && m2 != 0;
    let base1 = if borrow { m2 } else { m1 };
    let scale1 = if borrow { s2 } else { s1 };
    if j == 0 {
        (m1 * 4) as u32
    } else if j == 1 {
        predicted_q2(base1, scale1, cabin_predict1(c))
    } else {
        predicted_q2(m2, s2, cabin_predict2(c))
    }
}

/// Forward angular distance from `a0` to `a1`, in [0, 360 * 64).
pub open spec fn angle_delta(a0: int, a1: int) -> int {
    (a1 - a0) % (FULL_TURN_Q6 as int)
}

/// Angle of point `j` of slot `i`: `a0 + delta * (i / 32 + j / 96)`, rounded to
/// the nearest unit, wrapped into [0, 360 * 64).
pub open spec fn point_angle(a0: int, a1: int, i: int, j: int) -> int {
    (a0 + (angle_delta(a0, a1) * (3 * i + j) + 48) / 96) % (FULL_TURN_Q6 as int)
}

/// The cabin after slot `i`: the next slot of `cur`, or slot 0 of `next` for the last slot.
pub open spec fn following_cabin(cur: ScanPacket, next: ScanPacket, i: int) -> u32 {
    if i == 31 {
        next.ultra_cabins@[0]
    } else {
        cur.ultra_cabins@[i + 1]
    }
}

/// Point `j` of slot `i` of the packet pair `(cur, next)`.
pub open spec fn slot_point(cur: ScanPacket, next: ScanPacket, i: int, j: int) -> LidarPoint {
    LidarPoint {
        angle_q6: point_angle(cur.start_angle_q6 as int, next.start_angle_q6 as int, i, j) as u16,
        distance_q0: slot_distance(cur.ultra_cabins@[i], following_cabin(cur, next, i), j),
        index: j as u8,
    }
}

/// The point itself if it carries a return, nothing if its distance is 0.
pub open spec fn emitted(p: LidarPoint) -> Seq<LidarPoint> {
    if p.distance_q0 != 0 {
        seq![p]
    } else {
        seq![]
    }
}

/// The points of slot `i` that carry a return, in index order.
pub open spec fn slot_points(cur: ScanPacket, next: ScanPacket, i: int) -> Seq<LidarPoint> {
    emitted(slot_point(cur, next, i, 0)) + emitted(slot_point(cur, next, i, 1)) + emitted(
        slot_point(cur, next, i, 2),
    )
}

/// The points of the first `n` slots of the packet pair, in emission order.
pub open spec fn pair_points(cur: ScanPacket, next: ScanPacket, n: int) -> Seq<LidarPoint>
    decreases n,
{
    if n <= 0 {
        seq![]
    } else {
        pair_points(cur, next, n - 1) + slot_points(cur, next, n - 1)
    }
}

fn scale_factor(s: u32) -> (f: i32)
    requires
        s <= 4,
    ensures
        f == pow2(s as nat),
        1 <= f <= 16,
{
    proof {
        lemma2_to64();
    }
    if s == 0 {
        1
    } else if s == 1 {
        2
    } else if s == 2 {
        4
    } else if s == 3 {
        8
    } else {
        16
    }
}

fn sign_extend_10(v: u32) -> (r: i32)
    requires
        v < 1024,
    ensures
        r == sign_extend10(v as int),
{
    if v >= 512 {
        v as i32 - 1024
    } else {
        v as i32
    }
}

fn predicted_distance(base: u32, scale: u32, p: i32) -> (d: u32)
    requires
        base <= 28656,
        scale <= 4,
        -512 <= p < 512,
    ensures
        d == predicted_q2(base as int, scale as int, p as int),
{
    if p == 0x1FF || p == -512 {
        0
    } else {
        let f = scale_factor(scale);
        assert(-8192 <= p * f <= 8176) by (nonlinear_arith)
            requires
                -512 < p < 511,
                1 <= f <= 16,
        ;
        let v: i32 = (base as i32 + p * f) * 4;
        // a negative prediction wraps into the unsigned distance field
        #[verifier::truncate]
        (v as u32)
    }
}

/// The three distances (1/4 mm) decoded from cabin `cabin` and its successor
/// `next_cabin`; 0 marks a point without a return.
pub fn decode_cabin(cabin: u32, next_cabin: u32) -> (r: (u32, u32, u32))
    ensures
        r.0 == slot_distance(cabin, next_cabin, 0),
        r.1 == slot_distance(cabin, next_cabin, 1),
        r.2 == slot_distance(cabin, next_cabin, 2),
{
    let mut scale1: u32 = 0;
    let mut scale2: u32 = 0;
    let major1 = varbitscale_decode(cabin % 0x1000, &mut scale1);
    let major2 = varbitscale_decode(next_cabin % 0x1000, &mut scale2);
    let predict1 = sign_extend_10(cabin / 0x1000 % 0x400);
    let predict2 = sign_extend_10(cabin / 0x40_0000);
    let (base1, level1) = if major1 == 0 && major2 != 0 {
        (major2, scale2)
    } else {
        (major1, scale1)
    };
    (major1 * 4, predicted_distance(base1, level1, predict1), predicted_distance(major2, scale2, predict2))
}

/// Angle (1/64 degree) of point `j` of slot `i` between start angles `a0` and `a1`.
pub fn interpolate_angle(a0: u16, a1: u16, i: u32, j: u32) -> (r: u16)
    requires
        i < 32,
        j < 3,
    ensures
        r == point_angle(a0 as int, a1 as int, i as int, j as int),
{
    let delta: u32 = (a1 as u32 + 3 * FULL_TURN_Q6 - a0 as u32) % FULL_TURN_Q6;
    proof {
        lemma_mod_multiples_vanish(3, a1 - a0, FULL_TURN_Q6 as int);
    }
    let k: u32 = 3 * i + j;
    assert(delta * k <= 23040 * 95) by (nonlinear_arith)
        requires
            delta < 23040,
            k <= 95,
    ;
    let offset: u32 = (delta * k + 48) / 96;
    ((a0 as u32 + offset) % FULL_TURN_Q6) as u16
}

fn push_if_return(out: &mut Vec<LidarPoint>, p: LidarPoint)
    ensures
        final(out)@ == old(out)@ + emitted(p),
{
    if p.distance_q0 != 0 {
        out.push(p);
    } else {
        assert(old(out)@ + emitted(p) == old(out)@);
    }
}

/// Unpacks the 32 cabins of `cur`, reading ahead into `next` for the last
/// slot, into the points that carry a return, in slot order and within a slot
/// in index order.
pub fn unpack_packet_pair(cur: &ScanPacket, next: &ScanPacket) -> (r: Vec<LidarPoint>)
    ensures
        r@ == pair_points(*cur, *next, 32),
{
    let mut out: Vec<LidarPoint> = Vec::new();
    let a0 = cur.start_angle_q6;
    let a1 = next.start_angle_q6;
    let mut i: usize = 0;
    while i < 32
        invariant
            i <= 32,
            out@ == pair_points(*cur, *next, i as int),
            a0 == cur.start_angle_q6,
            a1 == next.start_angle_q6,
        decreases 32 - i,
    {
        let cabin = cur.ultra_cabins[i];
        let following = if i == 31 {
            next.ultra_cabins[0]
        } else {
            cur.ultra_cabins[i + 1]
        };
        let (d0, d1, d2) = decode_cabin(cabin, following);
        let before = Ghost(out@);
        let p0 = LidarPoint { angle_q6: interpolate_angle(a0, a1, i as u32, 0), distance_q0: d0, index: 0 };
        push_if_return(&mut out, p0);
        let p1 = LidarPoint { angle_q6: interpolate_angle(a0, a1, i as u32, 1), distance_q0: d1, index: 1 };
        push_if_return(&mut out, p1);
        let p2 = LidarPoint { angle_q6: interpolate_angle(a0, a1, i as u32, 2), distance_q0: d2, index: 2 };
        push_if_return(&mut out, p2);
        proof {
            assert(p0 == slot_point(*cur, *next, i as int, 0));
            assert(p1 == slot_point(*cur, *next, i as int, 1));
            assert(p2 == slot_point(*cur, *next, i as int, 2));
            assert(out@ == before@ + slot_points(*cur, *next, i as int));
        }
        i = i + 1;
    }
    out
}

/// Every point that a packet pair emits carries a return.
pub proof fn lemma_pair_points_have_returns(cur: ScanPacket, next: ScanPacket, n: int)
    ensures
        forall|k: int|
            0 <= k < pair_points(cur, next, n).len() ==> #[trigger] pair_points(cur, next, n)[k].distance_q0 != 0,
    decreases n,
{
    if n > 0 {
        lemma_pair_points_have_returns(cur, next, n - 1);
        let a = pair_points(cur, next, n - 1);
        let e0 = emitted(slot_point(cur, next, n - 1, 0));
        let e1 = emitted(slot_point(cur, next, n - 1, 1));
        let e2 = emitted(slot_point(cur, next, n - 1, 2));
        assert(pair_points(cur, next, n) == a + e0 + e1 + e2);
        assert forall|k: int| 0 <= k < pair_points(cur, next, n).len() implies #[trigger] pair_points(cur, next, n)[k].distance_q0 != 0 by {
            let s = pair_points(cur, next, n);
            if k < a.len() {
                assert(s[k] == a[k]);
            } else if k < a.len() + e0.len() {
                assert(s[k] == e0[k - a.len()]);
            } else if k < a.len() + e0.len() + e1.len() {
                assert(s[k] == e1[k - a.len() - e0.len()]);
            } else {
                assert(s[k] == e2[k - a.len() - e0.len() - e1.len()]);
            }
        }
    }
}

} // verus!
