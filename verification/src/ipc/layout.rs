//! What the shared memory holds. Floating point fields are carried as their bit patterns.
use crate::ipc::triple_buffer::TripleBuffer;
use vstd::prelude::*;

verus! {

/// Marks a metadata region, "TALS" in ASCII.
pub const SHM_MAGIC: u32 = 0x5441_4C53;

pub const SHM_VERSION: u32 = 1;

pub const IMAGE_WIDTH: u32 = 1440;

pub const IMAGE_HEIGHT: u32 = 1080;

/// The bytes of one RGB image.
pub const IMAGE_SIZE: usize = 4_665_600;

/// The images that the pool holds.
pub const POOL_IMAGES: usize = 3;

pub const IMAGE_POOL_SIZE: usize = 13_996_800;

/// The poses of the region.
pub const POSE_COUNT: usize = 5;

#[derive(Debug, Clone, Copy, PartialEq, Eq, Structural)]
pub struct ShmHeader {
    pub magic: u32,
    pub version: u32,
    pub created_ns: u64,
    pub heartbeat_ns: u64,
    pub image_width: u32,
    pub image_height: u32,
}

/// What is known of the image in a pool buffer.
#[derive(Debug, Clone, Copy, PartialEq, Eq, Structural)]
pub struct ImageMeta {
    pub seq: u64,
    pub timestamp_ns: u64,
    pub width: u32,
    pub height: u32,
    pub buffer_id: u8,
    pub format: u8,
}

impl ImageMeta {
    /// All bytes zero.
    pub open spec fn is_zero(self) -> bool {
        self == (ImageMeta {
            seq: 0,
            timestamp_ns: 0,
            width: 0,
            height: 0,
            buffer_id: 0,
            format: 0,
        })
    }
}

/// A pose: position, quaternion and four auxiliary values.
#[derive(Debug, Clone, Copy)]
pub struct PoseSlot {
    pub frame_seq: u64,
    pub timestamp_ns: u64,
    pub position: [u32; 3],
    pub quaternion: [u32; 4],
    /// The auxiliary values, each in little endian byte order.
    pub aux: [u8; 16],
}

impl PoseSlot {
    /// All bytes zero.
    pub open spec fn is_zero(self) -> bool {
        &&& self.frame_seq == 0
        &&& self.timestamp_ns == 0
        &&& self.position@ == seq![0u32, 0u32, 0u32]
        &&& self.quaternion@ == seq![0u32, 0u32, 0u32, 0u32]
        &&& self.aux@ == Seq::new(16, |k: int| 0u8)
    }
}

/// The place of a pose. The first four belong to an image; the last one is the legacy channel of
/// the chassis observation.
#[derive(Debug, Clone, Copy, PartialEq, Eq, Structural)]
pub enum PoseIndex {
    Gimbal,
    Odom,
    Muzzle,
    Camera,
    Chassis,
}

impl PoseIndex {
    pub open spec fn index_spec(self) -> int {
        match self {
            PoseIndex::Gimbal => 0,
            PoseIndex::Odom => 1,
            PoseIndex::Muzzle => 2,
            PoseIndex::Camera => 3,
            PoseIndex::Chassis => 4,
        }
    }

    pub fn index(self) -> (r: usize)
        ensures
            r == self.index_spec(),
            r < POSE_COUNT,
    {
        match self {
            PoseIndex::Gimbal => 0,
            PoseIndex::Odom => 1,
            PoseIndex::Muzzle => 2,
            PoseIndex::Camera => 3,
            PoseIndex::Chassis => 4,
        }
    }
}

/// A gimbal command: by how much to turn, how far the target is, and whether to fire.
#[derive(Debug, Clone, Copy, PartialEq, Eq, Structural)]
pub struct GimbalCmd {
    pub timestamp_ns: u64,
    pub yaw_diff_deg: u32,
    pub pitch_diff_deg: u32,
    pub distance_m: u32,
    pub fire_advice: u8,
}

impl GimbalCmd {
    /// All bytes zero.
    pub open spec fn is_zero(self) -> bool {
        self == (GimbalCmd {
            timestamp_ns: 0,
            yaw_diff_deg: 0,
            pitch_diff_deg: 0,
            distance_m: 0,
            fire_advice: 0,
        })
    }
}

/// The camera's intrinsics. Focal lengths, principal point and distortion are double precision.
#[derive(Debug, Clone, Copy)]
pub struct CameraInfo {
    pub timestamp_ns: u64,
    pub fx: u64,
    pub fy: u64,
    pub cx: u64,
    pub cy: u64,
    pub distortion: [u64; 5],
    pub width: u32,
    pub height: u32,
}

impl CameraInfo {
    /// All bytes zero.
    pub open spec fn is_zero(self) -> bool {
        &&& self.timestamp_ns == 0
        &&& self.fx == 0
        &&& self.fy == 0
        &&& self.cx == 0
        &&& self.cy == 0
        &&& self.distortion@ == seq![0u64, 0u64, 0u64, 0u64, 0u64]
        &&& self.width == 0
        &&& self.height == 0
    }
}

/// Everything in the region but the pixels. What chassis observation, ground truth and runtime
/// state consist of is up to the simulator.
#[derive(Debug)]
pub struct ShmMetaRegion<O, G, R> {
    pub header: ShmHeader,
    pub image: TripleBuffer<ImageMeta>,
    pub poses: Vec<TripleBuffer<PoseSlot>>,
    pub gimbal_cmd: TripleBuffer<GimbalCmd>,
    pub camera_info: CameraInfo,
    pub chassis_observation: O,
    pub ground_truth: G,
    pub runtime_state: R,
}

impl<O, G, R> ShmMetaRegion<O, G, R> {
    pub open spec fn wf(self) -> bool {
        &&& self.image.wf()
        &&& self.gimbal_cmd.wf()
        &&& self.poses@.len() == POSE_COUNT
        &&& forall|i: int| 0 <= i < POSE_COUNT ==> (#[trigger] self.poses@[i]).wf()
    }

    /// The gimbal command that has arrived since the last one was taken.
    pub fn recv_gimbal_cmd(&mut self) -> (r: Option<GimbalCmd>)
        requires
            old(self).wf(),
        ensures
            final(self).wf(),
            r == (if old(self).gimbal_cmd.consumed_spec() {
                None
            } else {
                Some(old(self).gimbal_cmd.ready())
            }),
            old(self).gimbal_cmd.taken(final(self).gimbal_cmd),
            *final(self) == (ShmMetaRegion { gimbal_cmd: final(self).gimbal_cmd, ..*old(self) }),
    {
        if self.gimbal_cmd.take() {
            Some(self.gimbal_cmd.slots[self.gimbal_cmd.read_idx as usize])
        } else {
            None
        }
    }
}

/// The sizes of the region belong together: an image has three bytes for each of its pixels, and the
/// pool holds three images. The mark of a region spells its name.
pub proof fn law_sizes_of_the_region()
    ensures
        IMAGE_WIDTH == 1440,
        IMAGE_HEIGHT == 1080,
        IMAGE_SIZE == 3 * IMAGE_WIDTH * IMAGE_HEIGHT,
        IMAGE_POOL_SIZE == 3 * IMAGE_SIZE,
        POSE_COUNT == 5,
        SHM_VERSION == 1,
        SHM_MAGIC == 'T' as int * 16_777_216 + 'A' as int * 65_536 + 'L' as int * 256 + 'S' as int,
{
}

/// The places of the poses: those of an image come first, the chassis last, and no two share one.
pub proof fn law_places_of_the_poses(a: PoseIndex, b: PoseIndex)
    ensures
        PoseIndex::Gimbal.index_spec() == 0,
        PoseIndex::Odom.index_spec() == 1,
        PoseIndex::Muzzle.index_spec() == 2,
        PoseIndex::Camera.index_spec() == 3,
        PoseIndex::Chassis.index_spec() == 4,
        a.index_spec() == b.index_spec() ==> a == b,
{
}

/// What is zero is zero in all its parts.
pub proof fn law_zero_is_zero_throughout(
    image: ImageMeta,
    pose: PoseSlot,
    command: GimbalCmd,
    camera: CameraInfo,
    k: int,
)
    ensures
        image.is_zero() ==> image.seq == 0 && image.timestamp_ns == 0 && image.width == 0
            && image.height == 0 && image.buffer_id == 0 && image.format == 0,
        pose.is_zero() ==> pose.frame_seq == 0 && pose.timestamp_ns == 0,
        pose.is_zero() && 0 <= k < 3 ==> pose.position@[k] == 0,
        pose.is_zero() && 0 <= k < 4 ==> pose.quaternion@[k] == 0,
        pose.is_zero() && 0 <= k < 16 ==> pose.aux@[k] == 0,
        command.is_zero() ==> command.timestamp_ns == 0 && command.yaw_diff_deg == 0
            && command.pitch_diff_deg == 0 && command.distance_m == 0 && command.fire_advice == 0,
        camera.is_zero() ==> camera.timestamp_ns == 0 && camera.fx == 0 && camera.fy == 0
            && camera.cx == 0 && camera.cy == 0 && camera.width == 0 && camera.height == 0,
        camera.is_zero() && 0 <= k < 5 ==> camera.distortion@[k] == 0,
{
}

} // verus!
