//! The Talos mock server: a video played into the shared memory as if a simulator ran.
use crate::capture::frame::copy_bytes;
use crate::ipc::layout::{
    CameraInfo, GimbalCmd, PoseIndex, ShmHeader, IMAGE_HEIGHT, IMAGE_SIZE, IMAGE_WIDTH,
};
use crate::ipc::publisher::{PoseUpdate, ShmPublisher};
use crate::text::{chars_of, contains, joined, push_decimal, replace_all, text_of};
use vstd::prelude::*;
use vstd::string::*;

verus! {

/// The bytes of a row of an RGB image.
pub const ROW_BYTES: usize = 4320;

/// Why a decoded frame cannot be copied.
#[derive(Debug, Clone, Copy, PartialEq, Eq, Structural)]
pub enum CopyFrameError {
    DstSizeMismatch { expected: usize, got: usize },
    FrameTooSmall { src_end: usize, data_len: usize },
}

impl CopyFrameError {
    pub open spec fn message_spec(self) -> Seq<char> {
        match self {
            CopyFrameError::DstSizeMismatch { expected, got } => "rgb dst size mismatch: expect "@
                + crate::text::decimal(expected as nat) + ", got "@ + crate::text::decimal(
                got as nat,
            ),
            CopyFrameError::FrameTooSmall { src_end, data_len } =>
            "frame buffer too small: src_end="@ + crate::text::decimal(src_end as nat)
                + ", data_len="@ + crate::text::decimal(data_len as nat),
        }
    }

    pub fn message(self) -> (r: String)
        ensures
            r@ == self.message_spec(),
    {
        match self {
            CopyFrameError::DstSizeMismatch { expected, got } => {
                let mut text: String = "rgb dst size mismatch: expect ".to_owned();
                push_decimal(&mut text, expected as u64);
                text.append(", got ");
                push_decimal(&mut text, got as u64);
                text
            },
            CopyFrameError::FrameTooSmall { src_end, data_len } => {
                let mut text: String = "frame buffer too small: src_end=".to_owned();
                push_decimal(&mut text, src_end as u64);
                text.append(", data_len=");
                push_decimal(&mut text, data_len as u64);
                text
            },
        }
    }
}

/// Whether row `y` of a frame with the given stride ends inside its data.
pub open spec fn row_fits(data_len: int, stride: int, y: int) -> bool {
    y * stride + ROW_BYTES <= data_len
}

/// The image after its first `rows` rows were copied.
pub open spec fn rows_copied(data: Seq<u8>, stride: int, before: Seq<u8>, rows: int) -> Seq<u8> {
    Seq::new(
        before.len(),
        |k: int|
            if k / (ROW_BYTES as int) < rows {
                data[(k / (ROW_BYTES as int)) * stride + k % (ROW_BYTES as int)]
            } else {
                before[k]
            },
    )
}

/// Copies a decoded RGB frame, whose rows lie `stride` bytes apart, into a tight image. A frame that
/// ends too early is copied as far as whole rows go.
pub fn copy_frame_rgb24(data: &[u8], stride: usize, dst: &mut [u8]) -> (r: Result<
    (),
    CopyFrameError,
>)
    requires
        old(dst)@.len() == IMAGE_SIZE && ROW_BYTES <= data@.len() ==> stride + ROW_BYTES
            <= usize::MAX,
        stride + ROW_BYTES <= data@.len() ==> stride + data@.len() <= usize::MAX,
    ensures
        final(dst)@.len() == old(dst)@.len(),
        old(dst)@.len() != IMAGE_SIZE ==> {
            &&& r == Err::<(), CopyFrameError>(
                CopyFrameError::DstSizeMismatch {
                    expected: IMAGE_SIZE,
                    got: old(dst)@.len() as usize,
                },
            )
            &&& final(dst)@ == old(dst)@
        },
        old(dst)@.len() == IMAGE_SIZE ==> match r {
            Ok(()) => {
                &&& forall|y: int|
                    0 <= y < IMAGE_HEIGHT ==> #[trigger] row_fits(
                        data@.len() as int,
                        stride as int,
                        y,
                    )
                &&& final(dst)@ == rows_copied(
                    data@,
                    stride as int,
                    old(dst)@,
                    IMAGE_HEIGHT as int,
                )
            },
            Err(error) => exists|y: int|
                {
                    &&& 0 <= y < IMAGE_HEIGHT
                    &&& !#[trigger] row_fits(data@.len() as int, stride as int, y)
                    &&& forall|z: int|
                        0 <= z < y ==> #[trigger] row_fits(data@.len() as int, stride as int, z)
                    &&& error == CopyFrameError::FrameTooSmall {
                        src_end: (y * stride + ROW_BYTES) as usize,
                        data_len: data@.len() as usize,
                    }
                    &&& final(dst)@ == rows_copied(data@, stride as int, old(dst)@, y)
                },
        },
{
    if dst.len() != IMAGE_SIZE {
        return Err(CopyFrameError::DstSizeMismatch { expected: IMAGE_SIZE, got: dst.len() });
    }
    let ghost before = dst@;
    let height: usize = IMAGE_HEIGHT as usize;
    let mut y: usize = 0;
    let mut src_start: usize = 0;
    proof {
        assert(dst@ =~= rows_copied(data@, stride as int, before, 0));
    }
    while y < height
        invariant
            y <= height == 1080,
            before == old(dst)@,
            before.len() == dst@.len() == IMAGE_SIZE,
            ROW_BYTES <= data@.len() ==> stride + ROW_BYTES <= usize::MAX,
            stride + ROW_BYTES <= data@.len() ==> stride + data@.len() <= usize::MAX,
            y < height ==> src_start == y * stride,
            src_start + ROW_BYTES <= usize::MAX,
            dst@ == rows_copied(data@, stride as int, before, y as int),
            forall|z: int|
                0 <= z < y ==> #[trigger] row_fits(data@.len() as int, stride as int, z),
        decreases height - y,
    {
        proof {
            assert((y + 1) * stride == y * stride + stride) by (nonlinear_arith);
        }
        let src_end: usize = src_start + ROW_BYTES;
        if src_end > data.len() {
            proof {
                assert(!row_fits(data@.len() as int, stride as int, y as int));
            }
            return Err(CopyFrameError::FrameTooSmall { src_end, data_len: data.len() });
        }
        let ghost previous = dst@;
        copy_bytes(data, src_start, ROW_BYTES, dst, y * ROW_BYTES);
        proof {
            let next = rows_copied(data@, stride as int, before, y + 1);
            assert forall|k: int| 0 <= k < dst@.len() implies #[trigger] dst@[k] == next[k] by {
                assert(previous[k] == rows_copied(data@, stride as int, before, y as int)[k]);
            }
            assert(dst@ =~= next);
            assert(row_fits(data@.len() as int, stride as int, y as int));
            // Once the second row fits, a whole stride does.
            if y >= 1 {
                assert(row_fits(data@.len() as int, stride as int, 1));
            }
        }
        y = y + 1;
        if y < height {
            src_start = src_start + stride;
        }
    }
    Ok(())
}

/// The bit pattern of the single precision value one.
pub const F32_ONE: u32 = 0x3F80_0000;

/// The bit pattern of the single precision value nearest to a fifth.
pub const F32_ONE_FIFTH: u32 = 0x3E4C_CCCD;

/// Whether a pose stands at a height above the origin, not turned, without auxiliary values.
pub open spec fn is_mock_pose(update: PoseUpdate, index: PoseIndex, height: u32) -> bool {
    &&& update.index == index
    &&& update.position@ == seq![0u32, 0u32, height]
    &&& update.quaternion@ == seq![F32_ONE, 0u32, 0u32, 0u32]
    &&& update.aux@ == seq![0u32, 0u32, 0u32, 0u32]
}

/// The poses that the mock server publishes, in order: all at the origin, but the muzzle above it.
pub open spec fn are_mock_poses(updates: Seq<PoseUpdate>) -> bool {
    &&& updates.len() == 4
    &&& is_mock_pose(updates[0], PoseIndex::Odom, 0)
    &&& is_mock_pose(updates[1], PoseIndex::Gimbal, 0)
    &&& is_mock_pose(updates[2], PoseIndex::Muzzle, F32_ONE_FIFTH)
    &&& is_mock_pose(updates[3], PoseIndex::Camera, 0)
}

fn mock_pose(index: PoseIndex, height: u32) -> (r: PoseUpdate)
    ensures
        is_mock_pose(r, index, height),
{
    let position: [u32; 3] = [0, 0, height];
    let quaternion: [u32; 4] = [F32_ONE, 0, 0, 0];
    let aux: [u32; 4] = [0, 0, 0, 0];
    proof {
        assert(position@ =~= seq![0u32, 0u32, height]);
        assert(quaternion@ =~= seq![F32_ONE, 0u32, 0u32, 0u32]);
        assert(aux@ =~= seq![0u32, 0u32, 0u32, 0u32]);
    }
    PoseUpdate { index, position, quaternion, aux }
}

/// Publishes the poses of the mock server.
pub fn publish_mock_poses<O, G, R>(
    publisher: &mut ShmPublisher<O, G, R>,
    frame_seq: u64,
    timestamp_ns: u64,
)
    requires
        old(publisher).wf(),
    ensures
        final(publisher).wf(),
        exists|updates: Seq<PoseUpdate>|
            are_mock_poses(updates) && #[trigger] crate::ipc::publisher::poses_published(
                old(publisher).meta.poses@,
                updates,
                frame_seq,
                timestamp_ns,
                final(publisher).meta.poses@,
            ),
        final(publisher).meta.image == old(publisher).meta.image,
        final(publisher).image_pool == old(publisher).image_pool,
        final(publisher).current_buffer_id == old(publisher).current_buffer_id,
        final(publisher).last_synchronized_frame_seq == old(publisher).last_synchronized_frame_seq,
        final(publisher).same_besides_image_and_poses(*old(publisher)),
{
    let odom: PoseUpdate = mock_pose(PoseIndex::Odom, 0);
    let gimbal: PoseUpdate = mock_pose(PoseIndex::Gimbal, 0);
    let muzzle: PoseUpdate = mock_pose(PoseIndex::Muzzle, F32_ONE_FIFTH);
    let camera: PoseUpdate = mock_pose(PoseIndex::Camera, 0);
    let ghost s0 = publisher.meta.poses@;
    publisher.publish_pose_with_aux(
        odom.index,
        odom.position,
        odom.quaternion,
        odom.aux,
        frame_seq,
        timestamp_ns,
    );
    let ghost s1 = publisher.meta.poses@;
    publisher.publish_pose_with_aux(
        gimbal.index,
        gimbal.position,
        gimbal.quaternion,
        gimbal.aux,
        frame_seq,
        timestamp_ns,
    );
    let ghost s2 = publisher.meta.poses@;
    publisher.publish_pose_with_aux(
        muzzle.index,
        muzzle.position,
        muzzle.quaternion,
        muzzle.aux,
        frame_seq,
        timestamp_ns,
    );
    let ghost s3 = publisher.meta.poses@;
    publisher.publish_pose_with_aux(
        camera.index,
        camera.position,
        camera.quaternion,
        camera.aux,
        frame_seq,
        timestamp_ns,
    );
    proof {
        let updates = seq![odom, gimbal, muzzle, camera];
        let states = seq![s0, s1, s2, s3, publisher.meta.poses@];
        assert(are_mock_poses(updates));
        assert(crate::ipc::publisher::pose_steps(states, updates, frame_seq, timestamp_ns));
        assert(crate::ipc::publisher::poses_published(
            s0,
            updates,
            frame_seq,
            timestamp_ns,
            publisher.meta.poses@,
        ));
    }
}

/// Publishes one frame: the image, then its poses, then the sign of life. Then takes the gimbal
/// command that has arrived.
pub fn publish_frame<O, G, R>(
    publisher: &mut ShmPublisher<O, G, R>,
    rgb_frame: &[u8],
    frame_seq: u64,
    timestamp_ns: u64,
    heartbeat_ns: u64,
) -> (r: Option<GimbalCmd>)
    requires
        old(publisher).wf(),
        rgb_frame@.len() == IMAGE_SIZE,
    ensures
        final(publisher).wf(),
        final(publisher).image_pool@ == crate::ipc::publisher::pool_with(
            old(publisher).image_pool@,
            old(publisher).current_buffer_id as int,
            rgb_frame@,
        ),
        final(publisher).current_buffer_id == (old(publisher).current_buffer_id + 1) % 3,
        old(publisher).meta.image.published(
            crate::ipc::publisher::image_meta(
                frame_seq,
                timestamp_ns,
                old(publisher).current_buffer_id,
            ),
            final(publisher).meta.image,
        ),
        exists|updates: Seq<PoseUpdate>|
            are_mock_poses(updates) && #[trigger] crate::ipc::publisher::poses_published(
                old(publisher).meta.poses@,
                updates,
                frame_seq,
                timestamp_ns,
                final(publisher).meta.poses@,
            ),
        final(publisher).meta.header == (ShmHeader { heartbeat_ns, ..old(publisher).meta.header }),
        final(publisher).last_synchronized_frame_seq == old(publisher).last_synchronized_frame_seq,
        r == (if old(publisher).meta.gimbal_cmd.consumed_spec() {
            None
        } else {
            Some(old(publisher).meta.gimbal_cmd.ready())
        }),
        old(publisher).meta.gimbal_cmd.taken(final(publisher).meta.gimbal_cmd),
        final(publisher).meta.camera_info == old(publisher).meta.camera_info,
        final(publisher).meta.chassis_observation == old(publisher).meta.chassis_observation,
        final(publisher).meta.ground_truth == old(publisher).meta.ground_truth,
        final(publisher).meta.runtime_state == old(publisher).meta.runtime_state,
{
    publisher.publish_image(rgb_frame, frame_seq, timestamp_ns);
    let ghost before = publisher.meta.poses@;
    proof {
        assert(before == old(publisher).meta.poses@);
    }
    publish_mock_poses(publisher, frame_seq, timestamp_ns);
    let ghost after = publisher.meta.poses@;
    let ghost updates = choose|updates: Seq<PoseUpdate>|
        are_mock_poses(updates) && #[trigger] crate::ipc::publisher::poses_published(
            before,
            updates,
            frame_seq,
            timestamp_ns,
            after,
        );
    publisher.update_heartbeat(heartbeat_ns);
    proof {
        assert(crate::ipc::publisher::poses_published(
            old(publisher).meta.poses@,
            updates,
            frame_seq,
            timestamp_ns,
            publisher.meta.poses@,
        ));
    }
    publisher.meta.recv_gimbal_cmd()
}

/// The bit patterns of the double precision values 1440, 1080, 720 and 540.
pub const F64_1440: u64 = 0x4096_8000_0000_0000;

pub const F64_1080: u64 = 0x4090_E000_0000_0000;

pub const F64_720: u64 = 0x4086_8000_0000_0000;

pub const F64_540: u64 = 0x4080_E000_0000_0000;

/// The intrinsics of the mock camera: the image size as focal lengths, its middle as principal
/// point, no distortion.
pub fn default_camera_info(timestamp_ns: u64) -> (r: CameraInfo)
    ensures
        r.timestamp_ns == timestamp_ns,
        r.fx == F64_1440,
        r.fy == F64_1080,
        r.cx == F64_720,
        r.cy == F64_540,
        r.distortion@ == seq![0u64, 0u64, 0u64, 0u64, 0u64],
        r.width == IMAGE_WIDTH,
        r.height == IMAGE_HEIGHT,
{
    let distortion: [u64; 5] = [0, 0, 0, 0, 0];
    proof {
        assert(distortion@ =~= seq![0u64, 0u64, 0u64, 0u64, 0u64]);
    }
    CameraInfo {
        timestamp_ns,
        fx: F64_1440,
        fy: F64_1080,
        cx: F64_720,
        cy: F64_540,
        distortion,
        width: IMAGE_WIDTH,
        height: IMAGE_HEIGHT,
    }
}

/// What follows a published frame.
#[derive(Debug, Clone, Copy, PartialEq, Eq, Structural)]
pub enum Pace {
    /// Go on at once.
    Free,
    /// Sleep for that long.
    Sleep { wait_ns: u64 },
    /// The deadline has passed; it starts over from now.
    Late,
}

/// What is due after a published frame.
#[derive(Debug, Clone, Copy, PartialEq, Eq, Structural)]
pub struct AfterFrame {
    /// The progress is reported.
    pub logs: bool,
    pub pace: Pace,
}

/// The progress of one pass over the input.
#[derive(Debug, Clone, Copy, PartialEq, Eq, Structural)]
pub struct PublishPass {
    /// The number of the next frame, over all passes.
    pub frame_seq: u64,
    /// The frames of this pass.
    pub published: u64,
    pub next_deadline_ns: u64,
}

impl PublishPass {
    pub fn new(frame_seq: u64, now_ns: u64) -> (r: Self)
        ensures
            r == (PublishPass { frame_seq, published: 0, next_deadline_ns: now_ns }),
    {
        PublishPass { frame_seq, published: 0, next_deadline_ns: now_ns }
    }

    /// Counts a frame.
    pub fn count_frame(&mut self)
        requires
            old(self).frame_seq < u64::MAX,
            old(self).published < u64::MAX,
        ensures
            *final(self) == (PublishPass {
                frame_seq: (old(self).frame_seq + 1) as u64,
                published: (old(self).published + 1) as u64,
                ..*old(self)
            }),
    {
        self.frame_seq = self.frame_seq + 1;
        self.published = self.published + 1;
    }

    /// Whether the progress is reported after this frame: every `log_every` frames of the pass.
    pub fn logs(&self, log_every: u64) -> (r: bool)
        requires
            log_every > 0,
        ensures
            r == (self.published % log_every == 0),
    {
        self.published % log_every == 0
    }

    /// Moves the deadline on by the frame interval, where there is one, and says how to keep it.
    pub fn pace(&mut self, interval_ns: Option<u64>, now_ns: u64) -> (r: Pace)
        requires
            interval_ns matches Some(interval) ==> old(self).next_deadline_ns + interval
                <= u64::MAX,
        ensures
            final(self).frame_seq == old(self).frame_seq,
            final(self).published == old(self).published,
            match interval_ns {
                None => r is Free && final(self).next_deadline_ns == old(self).next_deadline_ns,
                Some(interval) => {
                    let deadline = old(self).next_deadline_ns + interval;
                    &&& final(self).next_deadline_ns == deadline
                    &&& if deadline >= now_ns {
                        r == (Pace::Sleep { wait_ns: (deadline - now_ns) as u64 })
                    } else {
                        r is Late
                    }
                },
            },
    {
        match interval_ns {
            None => Pace::Free,
            Some(interval) => {
                self.next_deadline_ns = self.next_deadline_ns + interval;
                if self.next_deadline_ns >= now_ns {
                    Pace::Sleep { wait_ns: self.next_deadline_ns - now_ns }
                } else {
                    Pace::Late
                }
            },
        }
    }

    /// Takes note of a published frame: counts it and, while packets come in, says whether to report
    /// the progress and how to keep the pace. The frames that a decoder still held back at the end
    /// of its input are only counted.
    pub fn frame_published(
        &mut self,
        at_the_end: bool,
        log_every: u64,
        interval_ns: Option<u64>,
        now_ns: u64,
    ) -> (r: AfterFrame)
        requires
            log_every > 0,
            old(self).frame_seq < u64::MAX,
            old(self).published < u64::MAX,
            interval_ns matches Some(interval) ==> old(self).next_deadline_ns + interval
                <= u64::MAX,
        ensures
            final(self).frame_seq == old(self).frame_seq + 1,
            final(self).published == old(self).published + 1,
            r.logs == (!at_the_end && (old(self).published + 1) % (log_every as int) == 0),
            match interval_ns {
                Some(interval) if !at_the_end => {
                    let deadline = old(self).next_deadline_ns + interval;
                    &&& final(self).next_deadline_ns == deadline
                    &&& r.pace == (if deadline >= now_ns {
                        Pace::Sleep { wait_ns: (deadline - now_ns) as u64 }
                    } else {
                        Pace::Late
                    })
                },
                _ => r.pace is Free && final(self).next_deadline_ns == old(
                    self,
                ).next_deadline_ns,
            },
    {
        self.count_frame();
        if at_the_end {
            return AfterFrame { logs: false, pace: Pace::Free };
        }
        let logs: bool = self.logs(log_every);
        let pace: Pace = self.pace(interval_ns, now_ns);
        AfterFrame { logs, pace }
    }

    /// Starts the deadline over.
    pub fn restart(&mut self, now_ns: u64)
        ensures
            *final(self) == (PublishPass { next_deadline_ns: now_ns, ..*old(self) }),
    {
        self.next_deadline_ns = now_ns;
    }
}

/// Whether the input is played again: it is to loop, and the last pass had a frame.
pub fn plays_again(looping: bool, published: u64) -> (r: bool)
    ensures
        r == (looping && published != 0),
{
    looping && published != 0
}

/// The narrow no-break space that file names of screen recordings have before the half of the day.
pub const NARROW_SPACE: char = '\u{202f}';

/// The input with escaped narrow spaces put in their place, first the braced escape, then the bare
/// one.
pub open spec fn decoded_input(input: Seq<char>) -> Seq<char> {
    crate::text::replaced(
        crate::text::replaced(input, "\\u{202f}"@, seq![NARROW_SPACE]),
        "\\u202f"@,
        seq![NARROW_SPACE],
    )
}

/// The input with the space before the half of the day made narrow.
pub open spec fn narrowed_input(input: Seq<char>) -> Seq<char> {
    crate::text::replaced(
        crate::text::replaced(input, " AM"@, seq![NARROW_SPACE, 'A', 'M']),
        " PM"@,
        seq![NARROW_SPACE, 'P', 'M'],
    )
}

/// What there is to find out about an input before it can be resolved.
#[derive(Debug)]
pub enum InputProbe {
    /// The input is an address, to be taken as it is.
    Address,
    /// The paths that the input may stand for, in order of preference.
    Paths { plain: String, decoded: String, narrowed: String },
}

/// Tells an address from a path, and lists the paths that a path may stand for.
pub fn input_candidates(input: &str) -> (r: InputProbe)
    ensures
        match r {
            InputProbe::Address => crate::text::contains_spec(input@, "://"@),
            InputProbe::Paths { plain, decoded, narrowed } => {
                &&& !crate::text::contains_spec(input@, "://"@)
                &&& plain@ == input@
                &&& decoded@ == decoded_input(input@)
                &&& narrowed@ == narrowed_input(input@)
            },
        },
{
    if contains(input, "://") {
        return InputProbe::Address;
    }
    proof {
        reveal_strlit("\\u{202f}");
        reveal_strlit("\\u202f");
        reveal_strlit(" AM");
        reveal_strlit(" PM");
    }
    let chars: Vec<char> = chars_of(input);
    let mut narrow: Vec<char> = Vec::new();
    narrow.push(NARROW_SPACE);
    let once: Vec<char> = replace_all(&chars, &chars_of("\\u{202f}"), &narrow);
    let decoded: Vec<char> = replace_all(&once, &chars_of("\\u202f"), &narrow);
    let mut narrow_am: Vec<char> = Vec::new();
    narrow_am.push(NARROW_SPACE);
    narrow_am.push('A');
    narrow_am.push('M');
    let mut narrow_pm: Vec<char> = Vec::new();
    narrow_pm.push(NARROW_SPACE);
    narrow_pm.push('P');
    narrow_pm.push('M');
    let morning: Vec<char> = replace_all(&chars, &chars_of(" AM"), &narrow_am);
    let narrowed: Vec<char> = replace_all(&morning, &chars_of(" PM"), &narrow_pm);
    proof {
        assert(narrow@ =~= seq![NARROW_SPACE]);
        assert(narrow_am@ =~= seq![NARROW_SPACE, 'A', 'M']);
        assert(narrow_pm@ =~= seq![NARROW_SPACE, 'P', 'M']);
    }
    InputProbe::Paths {
        plain: input.to_owned(),
        decoded: text_of(&decoded),
        narrowed: text_of(&narrowed),
    }
}

/// The complaint about an input that is not there.
pub open spec fn input_not_found(input: Seq<char>) -> Seq<char> {
    "input not found: "@ + input
        + "\nHint: macOS screen recording filenames often contain U+202F before AM/PM. Use tab completion or wildcard like: .../5.44.33*PM.mov"@
}

/// What an input stands for, given which of its spellings exist: an address stands for itself, a
/// path for the first spelling that is there. Where none is, there is a complaint.
pub open spec fn resolved_input(
    input: Seq<char>,
    plain_exists: bool,
    decoded_exists: bool,
    narrowed_exists: bool,
) -> Result<Seq<char>, Seq<char>> {
    if crate::text::contains_spec(input, "://"@) || plain_exists {
        Ok(input)
    } else if decoded_exists {
        Ok(decoded_input(input))
    } else if narrowed_exists {
        Ok(narrowed_input(input))
    } else {
        Err(input_not_found(input))
    }
}

/// Resolves an input: an address as it is, else the first of the paths of [`input_candidates`] that
/// exists.
pub fn resolve_input(
    input: &str,
    plain_exists: bool,
    decoded_exists: bool,
    narrowed_exists: bool,
) -> (r: Result<String, String>)
    ensures
        match resolved_input(input@, plain_exists, decoded_exists, narrowed_exists) {
            Ok(path) => r is Ok && r->Ok_0@ == path,
            Err(complaint) => r is Err && r->Err_0@ == complaint,
        },
{
    match input_candidates(input) {
        InputProbe::Address => Ok(input.to_owned()),
        InputProbe::Paths { plain, decoded, narrowed } => {
            if plain_exists {
                Ok(plain)
            } else if decoded_exists {
                Ok(decoded)
            } else if narrowed_exists {
                Ok(narrowed)
            } else {
                let mut text: String = joined("input not found: ", input);
                text.append(
                    "\nHint: macOS screen recording filenames often contain U+202F before AM/PM. Use tab completion or wildcard like: .../5.44.33*PM.mov",
                );
                Err(text)
            }
        },
    }
}

/// A row of the image that was copied holds the bytes of the row of the frame, which begins a stride
/// behind the one before; a row that was not copied is as it was.
pub proof fn law_rows_are_copied_one_by_one(
    data: Seq<u8>,
    stride: int,
    before: Seq<u8>,
    rows: int,
    y: int,
    column: int,
)
    requires
        before.len() == 4_665_600,
        0 <= y < 1080,
        0 <= column < 4320,
    ensures
        rows_copied(data, stride, before, rows).len() == before.len(),
        rows_copied(data, stride, before, rows)[4320 * y + column] == (if y < rows {
            data[y * stride + column]
        } else {
            before[4320 * y + column]
        }),
        row_fits(data.len() as int, stride, y) <==> y * stride + 4320 <= data.len(),
{
    let k = 4320 * y + column;
    vstd::arithmetic::div_mod::lemma_fundamental_div_mod_converse(k, 4320, y, column);
}

/// The complaints say what was expected and what was there.
pub proof fn law_what_the_complaints_say(a: usize, b: usize)
    ensures
        (CopyFrameError::DstSizeMismatch { expected: a, got: b }).message_spec()
            == "rgb dst size mismatch: expect "@ + crate::text::decimal(a as nat) + ", got "@
            + crate::text::decimal(b as nat),
        (CopyFrameError::FrameTooSmall { src_end: a, data_len: b }).message_spec()
            == "frame buffer too small: src_end="@ + crate::text::decimal(a as nat)
            + ", data_len="@ + crate::text::decimal(b as nat),
{
}

/// The mock robot stands at the origin, not turned, and its muzzle a fifth of a meter above it. All
/// four poses of an image are there, each once.
pub proof fn law_where_the_mock_robot_stands(updates: Seq<PoseUpdate>, i: int, k: int)
    requires
        are_mock_poses(updates),
        0 <= i < updates.len(),
        0 <= k < 4,
    ensures
        updates.len() == 4,
        updates[0].index is Odom,
        updates[1].index is Gimbal,
        updates[2].index is Muzzle,
        updates[3].index is Camera,
        updates[i].position@[0] == 0,
        updates[i].position@[1] == 0,
        updates[i].position@[2] == (if updates[i].index is Muzzle {
            0x3E4C_CCCDu32
        } else {
            0u32
        }),
        updates[i].quaternion@[k] == (if k == 0 {
            0x3F80_0000u32
        } else {
            0u32
        }),
        updates[i].aux@[k] == 0,
{
}

/// Nothing stands at a place where the text has another character than the pattern begins with.
proof fn lemma_first_char(text: Seq<char>, pattern: Seq<char>, at: int)
    requires
        pattern.len() > 0,
        0 <= at < text.len(),
        text[at] != pattern[0],
    ensures
        !crate::text::stands_at(text, pattern, at),
{
    if crate::text::stands_at(text, pattern, at) {
        assert(text.subrange(at, at + pattern.len())[0] == text[at]);
    }
}

/// A text without the first character of a pattern does not hold the pattern.
proof fn lemma_without_first_char(text: Seq<char>, pattern: Seq<char>)
    requires
        pattern.len() > 0,
        !text.contains(pattern[0]),
    ensures
        !crate::text::contains_spec(text, pattern),
{
    assert forall|at: int| !crate::text::stands_at(text, pattern, at) by {
        if 0 <= at < text.len() {
            assert(text.contains(text[at]));
            lemma_first_char(text, pattern, at);
        }
    }
}

/// Replacing the only occurrence of a pattern, where nothing before or behind it begins like one.
proof fn lemma_replace_once(
    head: Seq<char>,
    pattern: Seq<char>,
    tail: Seq<char>,
    with: Seq<char>,
)
    requires
        pattern.len() > 0,
        !head.contains(pattern[0]),
        !tail.contains(pattern[0]),
    ensures
        crate::text::replaced(head + pattern + tail, pattern, with) == head + with + tail,
{
    let text = head + pattern + tail;
    assert forall|k: int| 0 <= k < head.len() implies !#[trigger] crate::text::stands_at(
        text,
        pattern,
        k,
    ) by {
        assert(head.contains(head[k]));
        assert(text[k] == head[k]);
        lemma_first_char(text, pattern, k);
    }
    crate::text::law_replacing_goes_from_occurrence_to_occurrence(head, pattern, tail, with);
    lemma_without_first_char(tail, pattern);
    crate::text::law_nothing_to_replace(tail, pattern, with);
}

/// An escaped narrow space, in braces or bare, is put in its place, and an input without a backslash
/// stays as it is.
pub proof fn law_escapes_become_narrow_spaces(head: Seq<char>, tail: Seq<char>)
    requires
        !head.contains('\\'),
        !tail.contains('\\'),
    ensures
        decoded_input(head + "\\u{202f}"@ + tail) == head + seq!['\u{202f}'] + tail,
        decoded_input(head + "\\u202f"@ + tail) == head + seq!['\u{202f}'] + tail,
        decoded_input(head) == head,
{
    reveal_strlit("\\u{202f}");
    reveal_strlit("\\u202f");
    let braced = "\\u{202f}"@;
    let bare = "\\u202f"@;
    let narrow = seq![NARROW_SPACE];
    assert(braced[0] == '\\');
    assert(bare[0] == '\\');
    let decoded = head + narrow + tail;
    assert(!decoded.contains('\\')) by {
        if decoded.contains('\\') {
            let i = choose|i: int| 0 <= i < decoded.len() && decoded[i] == '\\';
            if i < head.len() {
                assert(head[i] == '\\');
            } else if i > head.len() {
                assert(tail[i - head.len() - 1] == '\\');
            }
        }
    }
    lemma_replace_once(head, braced, tail, narrow);
    lemma_without_first_char(decoded, bare);
    crate::text::law_nothing_to_replace(decoded, bare, narrow);
    let input = head + bare + tail;
    assert(!crate::text::contains_spec(input, braced)) by {
        assert forall|at: int| !crate::text::stands_at(input, braced, at) by {
            if 0 <= at < input.len() {
                if at == head.len() {
                    if crate::text::stands_at(input, braced, at) {
                        assert(input.subrange(at, at + braced.len())[2] == input[at + 2]);
                        assert(input[at + 2] == bare[2]);
                        assert(braced[2] == '{');
                        assert(bare[2] == '2');
                    }
                } else {
                    if at < head.len() {
                        assert(head.contains(head[at]));
                        assert(input[at] == head[at]);
                    } else if at < head.len() + bare.len() {
                        assert(input[at] == bare[at - head.len()]);
                    } else {
                        let k = at - head.len() - bare.len();
                        assert(tail.contains(tail[k]));
                        assert(input[at] == tail[k]);
                    }
                    lemma_first_char(input, braced, at);
                }
            }
        }
    }
    crate::text::law_nothing_to_replace(input, braced, narrow);
    lemma_replace_once(head, bare, tail, narrow);
    lemma_without_first_char(head, braced);
    lemma_without_first_char(head, bare);
    crate::text::law_nothing_to_replace(head, braced, narrow);
    crate::text::law_nothing_to_replace(head, bare, narrow);
}

/// The space before the half of the day becomes narrow, and an input without a space stays as it is.
pub proof fn law_the_half_of_the_day_is_set_off_narrowly(head: Seq<char>, tail: Seq<char>)
    requires
        !head.contains(' '),
        !tail.contains(' '),
    ensures
        narrowed_input(head + " AM"@ + tail) == head + seq!['\u{202f}', 'A', 'M'] + tail,
        narrowed_input(head + " PM"@ + tail) == head + seq!['\u{202f}', 'P', 'M'] + tail,
        narrowed_input(head) == head,
{
    reveal_strlit(" AM");
    reveal_strlit(" PM");
    let am = " AM"@;
    let pm = " PM"@;
    let narrow_am = seq![NARROW_SPACE, 'A', 'M'];
    let narrow_pm = seq![NARROW_SPACE, 'P', 'M'];
    assert(am[0] == ' ');
    assert(pm[0] == ' ');
    let morning = head + narrow_am + tail;
    assert(!morning.contains(' ')) by {
        if morning.contains(' ') {
            let i = choose|i: int| 0 <= i < morning.len() && morning[i] == ' ';
            if i < head.len() {
                assert(head[i] == ' ');
            } else if i >= head.len() + 3 {
                assert(tail[i - head.len() - 3] == ' ');
            }
        }
    }
    lemma_replace_once(head, am, tail, narrow_am);
    lemma_without_first_char(morning, pm);
    crate::text::law_nothing_to_replace(morning, pm, narrow_pm);
    let input = head + pm + tail;
    assert(!crate::text::contains_spec(input, am)) by {
        assert forall|at: int| !crate::text::stands_at(input, am, at) by {
            if 0 <= at < input.len() {
                if at == head.len() {
                    if crate::text::stands_at(input, am, at) {
                        assert(input.subrange(at, at + am.len())[1] == input[at + 1]);
                        assert(input[at + 1] == pm[1]);
                        assert(am[1] == 'A');
                        assert(pm[1] == 'P');
                    }
                } else {
                    if at < head.len() {
                        assert(head.contains(head[at]));
                        assert(input[at] == head[at]);
                    } else if at < head.len() + pm.len() {
                        assert(input[at] == pm[at - head.len()]);
                    } else {
                        let k = at - head.len() - pm.len();
                        assert(tail.contains(tail[k]));
                        assert(input[at] == tail[k]);
                    }
                    lemma_first_char(input, am, at);
                }
            }
        }
    }
    crate::text::law_nothing_to_replace(input, am, narrow_am);
    lemma_replace_once(head, pm, tail, narrow_pm);
    lemma_without_first_char(head, am);
    lemma_without_first_char(head, pm);
    crate::text::law_nothing_to_replace(head, am, narrow_am);
    crate::text::law_nothing_to_replace(head, pm, narrow_pm);
}

/// An address stands for itself whatever exists, and so does a path that exists as it is written. Of
/// the other spellings the decoded one comes first; where none exists, the complaint names the input.
pub proof fn law_which_spelling_is_used(
    input: Seq<char>,
    plain_exists: bool,
    decoded_exists: bool,
    narrowed_exists: bool,
)
    ensures
        ({
            let resolved = resolved_input(input, plain_exists, decoded_exists, narrowed_exists);
            let address = crate::text::contains_spec(input, "://"@);
            &&& address ==> resolved == Ok::<Seq<char>, Seq<char>>(input)
            &&& plain_exists ==> resolved == Ok::<Seq<char>, Seq<char>>(input)
            &&& !address && !plain_exists && decoded_exists ==> resolved == Ok::<
                Seq<char>,
                Seq<char>,
            >(decoded_input(input))
            &&& !address && !plain_exists && !decoded_exists && narrowed_exists ==> resolved
                == Ok::<Seq<char>, Seq<char>>(narrowed_input(input))
            &&& resolved is Err <==> !address && !plain_exists && !decoded_exists
                && !narrowed_exists
            &&& resolved matches Err(complaint) ==> complaint == "input not found: "@ + input
                + "\nHint: macOS screen recording filenames often contain U+202F before AM/PM. Use tab completion or wildcard like: .../5.44.33*PM.mov"@
        }),
{
}

/// The bit patterns stand for the numbers that they are named after: the significand of a double
/// precision number with the exponent of 1024 or 512, and of a single precision one.
pub proof fn law_bit_patterns_of_the_numbers()
    ensures
        F64_1440 == 0x409 * 0x10_0000_0000_0000 + 1440 * 0x400_0000_0000 - 0x10_0000_0000_0000,
        F64_1080 == 0x409 * 0x10_0000_0000_0000 + 1080 * 0x400_0000_0000 - 0x10_0000_0000_0000,
        F64_720 == 0x408 * 0x10_0000_0000_0000 + 720 * 0x800_0000_0000 - 0x10_0000_0000_0000,
        F64_540 == 0x408 * 0x10_0000_0000_0000 + 540 * 0x800_0000_0000 - 0x10_0000_0000_0000,
        F32_ONE == 127 * 0x80_0000,
        5 * (F32_ONE_FIFTH - 123 * 0x80_0000) == 0x400_0000 + 1,
        ROW_BYTES == 3 * IMAGE_WIDTH,
{
}

} // verus!
