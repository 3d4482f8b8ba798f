//! Angle interpolation: the samples of a packet spread evenly over the arc
//! from its start angle to its end angle.
//!
//! Angles are exact fractions of a degree. With `N` samples, a point's angle
//! is `angle / angle_scale` degrees where `angle_scale` is `100 * N`, so the
//! angle of every sample is an integer in these units.
use vstd::prelude::*;

use crate::decoder::Packet;

verus! {

/// One measurement derived from one sample.
#[derive(Debug, Clone, Copy, PartialEq, Eq, Structural)]
pub struct Point {
    /// The angle, in units of `1 / angle_scale` degrees.
    pub angle: i128,
    /// Units of `angle` per degree.
    pub angle_scale: i128,
    /// The distance in millimetres.
    pub distance: u32,
    /// The sample's confidence (intensity).
    pub confidence: u8,
}

/// The arc from `start` to `end` (both in centidegrees), in centidegrees:
/// `(end + 36000 - start) rem 36000`, the remainder taking the sign of the
/// dividend.
pub open spec fn span_of(start: u16, end: u16) -> int {
    let d = end as int + 36000 - start as int;
    if d >= 0 {
        d % 36000
    } else {
        -((-d) % 36000)
    }
}

/// The angle of sample `i` of `n`, in units of `1 / (100 n)` degrees:
/// `start + span * i / n`, less one full turn where that exceeds a full turn.
pub open spec fn angle_at(start: u16, end: u16, n: nat, i: int) -> int {
    let raw = start as int * n + span_of(start, end) * i;
    if raw > 36000 * n {
        raw - 36000 * n
    } else {
        raw
    }
}

/// The points of a packet: one per sample and in sample order, each at its
/// interpolated angle, with the sample's distance and intensity.
pub fn parse(packet: Packet) -> (points: Vec<Point>)
    ensures
        points@.len() == packet.data@.len(),
        forall|i: int|
            #![trigger points@[i]]
            0 <= i < points@.len() ==> {
                &&& points@[i].angle == angle_at(
                    packet.start_angle,
                    packet.end_angle,
                    packet.data@.len(),
                    i,
                )
                &&& points@[i].angle_scale == 100 * packet.data@.len()
                &&& points@[i].distance == packet.data@[i].distance
                &&& points@[i].confidence == packet.data@[i].intensity
            },
{
    let n = packet.data.len();
    let mut points: Vec<Point> = Vec::new();
    let start = packet.start_angle as i128;
    let end = packet.end_angle as i128;
    let d: i128 = end + 36000 - start;
    let span: i128 = if d >= 0 {
        ((d as u32) % 36000) as i128
    } else {
        -(((-d) as u32 % 36000) as i128)
    };
    assert(span == span_of(packet.start_angle, packet.end_angle));
    let count = n as i128;
    assert(0 <= count <= usize::MAX);
    assert(0 <= start * count <= 65535 * count) by (nonlinear_arith)
        requires
            0 <= start <= 65535,
            0 <= count,
    ;
    let scale: i128 = 100 * count;
    let full: i128 = 36000 * count;
    let base: i128 = start * count;
    let mut i: usize = 0;
    while i < n
        invariant
            n == packet.data@.len(),
            count == n,
            0 <= n <= usize::MAX,
            base == packet.start_angle as int * n,
            0 <= base <= 65535 * n,
            span == span_of(packet.start_angle, packet.end_angle),
            -36000 < span < 36000,
            scale == 100 * n,
            full == 36000 * n,
            i <= n,
            points@.len() == i,
            forall|j: int|
                #![trigger points@[j]]
                0 <= j < i ==> {
                    &&& points@[j].angle == angle_at(
                        packet.start_angle,
                        packet.end_angle,
                        n as nat,
                        j,
                    )
                    &&& points@[j].angle_scale == 100 * n
                    &&& points@[j].distance == packet.data@[j].distance
                    &&& points@[j].confidence == packet.data@[j].intensity
                },
        decreases n - i,
    {
        let k = i as i128;
        assert(-36000 * k <= span * k <= 36000 * k) by (nonlinear_arith)
            requires
                -36000 < span < 36000,
                0 <= k,
        ;
        let raw: i128 = base + span * k;
        let angle: i128 = if raw > full {
            raw - full
        } else {
            raw
        };
        let sample = packet.data[i];
        points.push(
            Point {
                angle,
                angle_scale: scale,
                distance: sample.distance as u32,
                confidence: sample.intensity,
            },
        );
        i = i + 1;
    }
    points
}

} // verus!
