//! Images and camera information as ROS messages. Numbers that are floating point there are of a
//! type that the caller chooses.
use crate::capture::frame::CapturedFrameKind;
use vstd::prelude::*;
use vstd::slice::slice_to_vec;
use vstd::string::*;

verus! {

/// A point in time, as ROS has it.
#[derive(Debug, Clone, Copy, PartialEq, Eq, Structural)]
pub struct Stamp {
    pub sec: i32,
    pub nanosec: u32,
}

/// A point in time in nanoseconds; times before the epoch count as the epoch's second.
pub fn stamp_to_ns(stamp: Stamp) -> (r: u64)
    ensures
        r == (if stamp.sec > 0 {
            stamp.sec as int
        } else {
            0
        }) * 1_000_000_000 + stamp.nanosec,
{
    let sec: u64 = if stamp.sec > 0 {
        stamp.sec as u64
    } else {
        0
    };
    sec * 1_000_000_000 + stamp.nanosec as u64
}

/// Lets frames through at most once per period. A period of zero lets every frame through.
#[derive(Debug, Clone, Copy, PartialEq, Eq, Structural)]
pub struct PublishGate {
    pub period_ns: u64,
    pub last_publish_ns: u64,
}

impl PublishGate {
    /// Whether a frame at a moment is let through.
    pub open spec fn open_at(self, now_ns: u64) -> bool {
        self.period_ns == 0 || (now_ns >= self.last_publish_ns + self.period_ns || now_ns
            == u64::MAX)
    }

    /// Whether a frame is let through. If so, and frames are limited, the next period begins.
    pub fn try_pass(&mut self, now_ns: u64) -> (r: bool)
        ensures
            r == old(self).open_at(now_ns),
            final(self).period_ns == old(self).period_ns,
            final(self).last_publish_ns == (if r && old(self).period_ns > 0 {
                now_ns
            } else {
                old(self).last_publish_ns
            }),
    {
        if self.period_ns > 0 {
            if now_ns < self.last_publish_ns.saturating_add(self.period_ns) {
                return false;
            }
            self.last_publish_ns = now_ns;
        }
        true
    }
}

/// Two frames that a limited gate lets through one after the other lie a period apart.
pub proof fn law_published_frames_lie_a_period_apart(
    gate: PublishGate,
    first_ns: u64,
    second_ns: u64,
)
    requires
        gate.period_ns > 0,
        gate.open_at(first_ns),
        (PublishGate { last_publish_ns: first_ns, ..gate }).open_at(second_ns),
        second_ns < u64::MAX,
    ensures
        second_ns >= first_ns + gate.period_ns,
{
}

/// What of a captured frame is published, after its camera information.
#[derive(Debug, Clone, Copy, PartialEq, Eq, Structural)]
pub enum ImagePublication {
    Raw,
    Compressed,
}

/// How a captured frame is published: color frames only, raw or compressed but never both.
pub fn image_publication(kind: CapturedFrameKind, publish_compressed: bool) -> (r: Option<
    ImagePublication,
>)
    ensures
        r == (match kind {
            CapturedFrameKind::Rgb8 => Some(
                if publish_compressed {
                    ImagePublication::Compressed
                } else {
                    ImagePublication::Raw
                },
            ),
            _ => None,
        }),
{
    if kind != CapturedFrameKind::Rgb8 {
        return None;
    }
    if publish_compressed {
        Some(ImagePublication::Compressed)
    } else {
        Some(ImagePublication::Raw)
    }
}

/// An uncompressed image.
#[derive(Debug)]
pub struct RawImage {
    pub height: u32,
    pub width: u32,
    pub encoding: String,
    pub is_bigendian: u8,
    /// The bytes of a row.
    pub step: u32,
    pub data: Vec<u8>,
}

/// An RGB frame as an uncompressed image.
pub fn raw_image(width: u32, height: u32, data: &[u8]) -> (r: RawImage)
    requires
        width * 3 <= u32::MAX,
    ensures
        r.height == height,
        r.width == width,
        r.encoding@ == "rgb8"@,
        r.is_bigendian == 0,
        r.step == width * 3,
        r.data@ == data@,
{
    RawImage {
        height,
        width,
        encoding: "rgb8".to_owned(),
        is_bigendian: 0,
        step: width * 3,
        data: slice_to_vec(data),
    }
}

/// The matrices of a camera information message.
#[derive(Debug)]
pub struct CameraMatrices<T> {
    /// Distortion.
    pub d: Vec<T>,
    /// Intrinsics, three by three.
    pub k: Vec<T>,
    /// Rectification, three by three.
    pub r: Vec<T>,
    /// Projection, three by four.
    pub p: Vec<T>,
}

fn row_major_3<T: Copy>(a: [T; 3], b: [T; 3], c: [T; 3]) -> (r: Vec<T>)
    ensures
        r@ == a@ + b@ + c@,
{
    let mut out: Vec<T> = Vec::new();
    let mut i: usize = 0;
    while i < 9
        invariant
            i <= 9,
            out@ == (a@ + b@ + c@).take(i as int),
        decreases 9 - i,
    {
        let value: T = if i < 3 {
            a[i]
        } else if i < 6 {
            b[i - 3]
        } else {
            c[i - 6]
        };
        proof {
            let all = a@ + b@ + c@;
            assert(value == all[i as int]);
            assert(all.take(i + 1) =~= all.take(i as int).push(all[i as int]));
        }
        out.push(value);
        i = i + 1;
    }
    proof {
        assert((a@ + b@ + c@).take(9) =~= a@ + b@ + c@);
    }
    out
}

/// The matrices of an undistorted pinhole camera.
pub fn pinhole_matrices<T: Copy>(fx: T, fy: T, cx: T, cy: T, zero: T, one: T) -> (r: CameraMatrices<
    T,
>)
    ensures
        r.d@ == seq![zero, zero, zero, zero, zero],
        r.k@ == seq![fx, zero, cx] + seq![zero, fy, cy] + seq![zero, zero, one],
        r.r@ == seq![one, zero, zero] + seq![zero, one, zero] + seq![zero, zero, one],
        r.p@ == seq![fx, zero, cx, zero] + seq![zero, fy, cy, zero] + seq![zero, zero, one, zero],
{
    let mut d: Vec<T> = Vec::new();
    let mut i: usize = 0;
    while i < 5
        invariant
            i <= 5,
            d@.len() == i,
            forall|j: int| 0 <= j < i ==> #[trigger] d@[j] == zero,
        decreases 5 - i,
    {
        d.push(zero);
        i = i + 1;
    }
    let k: Vec<T> = row_major_3([fx, zero, cx], [zero, fy, cy], [zero, zero, one]);
    let r: Vec<T> = row_major_3([one, zero, zero], [zero, one, zero], [zero, zero, one]);
    let mut p: Vec<T> = Vec::new();
    p.push(fx);
    p.push(zero);
    p.push(cx);
    p.push(zero);
    p.push(zero);
    p.push(fy);
    p.push(cy);
    p.push(zero);
    p.push(zero);
    p.push(zero);
    p.push(one);
    p.push(zero);
    proof {
        assert(d@ =~= seq![zero, zero, zero, zero, zero]);
        assert(k@ =~= seq![fx, zero, cx] + seq![zero, fy, cy] + seq![zero, zero, one]);
        assert(r@ =~= seq![one, zero, zero] + seq![zero, one, zero] + seq![zero, zero, one]);
        assert(p@ =~= seq![fx, zero, cx, zero] + seq![zero, fy, cy, zero] + seq![
            zero,
            zero,
            one,
            zero,
        ]);
    }
    CameraMatrices { d, k, r, p }
}

/// The part of an image that a camera information message speaks of.
#[derive(Debug, Clone, Copy, PartialEq, Eq, Structural)]
pub struct RegionOfInterest {
    pub x_offset: u32,
    pub y_offset: u32,
    pub height: u32,
    pub width: u32,
    pub do_rectify: bool,
}

/// A camera information message without its header.
#[derive(Debug)]
pub struct CameraInfo<T> {
    pub height: u32,
    pub width: u32,
    pub distortion_model: String,
    pub matrices: CameraMatrices<T>,
    pub binning_x: u32,
    pub binning_y: u32,
    pub roi: RegionOfInterest,
}

/// The information on an undistorted pinhole camera: the whole image, not binned.
pub fn ros_camera_info<T: Copy>(
    width: u32,
    height: u32,
    fx: T,
    fy: T,
    cx: T,
    cy: T,
    zero: T,
    one: T,
) -> (r: CameraInfo<T>)
    ensures
        r.height == height,
        r.width == width,
        r.distortion_model@ == "plumb_bob"@,
        r.matrices.d@ == seq![zero, zero, zero, zero, zero],
        r.matrices.k@ == seq![fx, zero, cx] + seq![zero, fy, cy] + seq![zero, zero, one],
        r.matrices.r@ == seq![one, zero, zero] + seq![zero, one, zero] + seq![zero, zero, one],
        r.matrices.p@ == seq![fx, zero, cx, zero] + seq![zero, fy, cy, zero] + seq![
            zero,
            zero,
            one,
            zero,
        ],
        r.binning_x == 0,
        r.binning_y == 0,
        r.roi == (RegionOfInterest { x_offset: 0, y_offset: 0, height, width, do_rectify: true }),
{
    CameraInfo {
        height,
        width,
        distortion_model: "plumb_bob".to_owned(),
        matrices: pinhole_matrices(fx, fy, cx, cy, zero, one),
        binning_x: 0,
        binning_y: 0,
        roi: RegionOfInterest { x_offset: 0, y_offset: 0, height, width, do_rectify: true },
    }
}

/// A six by six matrix, row by row, with the given diagonal and `zero` elsewhere.
pub open spec fn diagonal_6x6<T>(diagonal: Seq<T>, zero: T) -> Seq<T> {
    Seq::new(
        36,
        |i: int|
            if i / 6 == i % 6 {
                diagonal[i / 6]
            } else {
                zero
            },
    )
}

/// A three by three matrix, row by row, with the given diagonal and `zero` elsewhere.
pub open spec fn diagonal_3x3<T>(diagonal: Seq<T>, zero: T) -> Seq<T> {
    Seq::new(
        9,
        |i: int|
            if i / 3 == i % 3 {
                diagonal[i / 3]
            } else {
                zero
            },
    )
}

/// The covariance of a planar robot: x, y, z and yaw on the diagonal of a six by six matrix. The
/// roll and pitch slots that such a robot never observes get `unused`, so that consumers treat them
/// as uninformative. Off the diagonal everything is zero: consumers invert this matrix.
pub fn planar_covariance<T: Copy>(xyz: T, yaw: T, unused: T, zero: T) -> (r: Vec<T>)
    ensures
        r@ == diagonal_6x6(seq![xyz, xyz, xyz, unused, unused, yaw], zero),
{
    let mut covariance: Vec<T> = Vec::new();
    let mut i: usize = 0;
    while i < 36
        invariant
            i <= 36,
            covariance@.len() == i,
            forall|j: int| 0 <= j < i ==> #[trigger] covariance@[j] == zero,
        decreases 36 - i,
    {
        covariance.push(zero);
        i = i + 1;
    }
    covariance[0] = xyz;
    covariance[7] = xyz;
    covariance[14] = xyz;
    covariance[21] = unused;
    covariance[28] = unused;
    covariance[35] = yaw;
    proof {
        assert(covariance@ =~= diagonal_6x6(
            seq![xyz, xyz, xyz, unused, unused, yaw],
            zero,
        ));
    }
    covariance
}

/// The covariance of a three-vector whose components vary alike and independently: a three by three
/// matrix, which the message has in fixed length.
pub fn diagonal_covariance_3x3<T: Copy>(value: T, zero: T) -> (r: Vec<T>)
    ensures
        r@ == diagonal_3x3(seq![value, value, value], zero),
{
    let covariance: Vec<T> = row_major_3(
        [value, zero, zero],
        [zero, value, zero],
        [zero, zero, value],
    );
    proof {
        assert(covariance@ =~= diagonal_3x3(seq![value, value, value], zero));
    }
    covariance
}

/// A diagonal matrix has its diagonal where row and column agree and zeros everywhere else.
pub proof fn law_diagonal_matrices<T>(
    six: Seq<T>,
    three: Seq<T>,
    zero: T,
    row: int,
    column: int,
)
    requires
        six.len() == 6,
        three.len() == 3,
        0 <= row < 6,
        0 <= column < 6,
    ensures
        diagonal_6x6(six, zero).len() == 36,
        diagonal_6x6(six, zero)[6 * row + column] == (if row == column {
            six[row]
        } else {
            zero
        }),
        diagonal_3x3(three, zero).len() == 9,
        row < 3 && column < 3 ==> diagonal_3x3(three, zero)[3 * row + column] == (if row
            == column {
            three[row]
        } else {
            zero
        }),
{
}

/// A gate without a period is always open. One with a period opens when that has passed since the
/// last frame that it let through, and stays open from then on.
pub proof fn law_a_gate_opens_after_its_period(gate: PublishGate, now_ns: u64, later_ns: u64)
    requires
        now_ns <= later_ns,
        gate.last_publish_ns + gate.period_ns <= u64::MAX,
    ensures
        gate.period_ns == 0 ==> gate.open_at(now_ns),
        now_ns >= gate.last_publish_ns + gate.period_ns ==> gate.open_at(now_ns),
        gate.period_ns > 0 && now_ns < gate.last_publish_ns + gate.period_ns && now_ns < u64::MAX
            ==> !gate.open_at(now_ns),
        gate.open_at(now_ns) ==> gate.open_at(later_ns),
{
}

} // verus!
