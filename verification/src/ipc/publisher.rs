//! The writers of the shared memory: the simulator's and that of the vision peer.
use crate::capture::frame::copy_bytes;
use crate::ipc::layout::{
    CameraInfo, GimbalCmd, ImageMeta, PoseIndex, PoseSlot, ShmHeader, ShmMetaRegion, IMAGE_HEIGHT,
    IMAGE_POOL_SIZE, IMAGE_SIZE, IMAGE_WIDTH, POSE_COUNT, SHM_MAGIC, SHM_VERSION,
};
use crate::ipc::triple_buffer::TripleBuffer;
use vstd::prelude::*;

verus! {

/// Why a region cannot be used.
#[derive(Debug, Clone, Copy, PartialEq, Eq, Structural)]
pub enum ShmError {
    InvalidSize,
}

/// Byte `j` of a value in little endian order.
pub open spec fn le_byte(value: u32, j: int) -> u8 {
    if j == 0 {
        (value % 256) as u8
    } else if j == 1 {
        (value / 256 % 256) as u8
    } else if j == 2 {
        (value / 65_536 % 256) as u8
    } else {
        (value / 16_777_216) as u8
    }
}

/// The bytes of four single precision values, given as their bit patterns, one after the other and
/// each in little endian order.
pub fn aux_f32_to_bytes(aux: [u32; 4]) -> (r: [u8; 16])
    ensures
        forall|k: int| 0 <= k < 16 ==> #[trigger] r@[k] == le_byte(aux@[k / 4], k % 4),
{
    let mut bytes: [u8; 16] = [0, 0, 0, 0, 0, 0, 0, 0, 0, 0, 0, 0, 0, 0, 0, 0];
    let mut i: usize = 0;
    while i < 4
        invariant
            i <= 4,
            forall|k: int| 0 <= k < 4 * i ==> #[trigger] bytes@[k] == le_byte(aux@[k / 4], k % 4),
        decreases 4 - i,
    {
        let value: u32 = aux[i];
        bytes[4 * i] = (value % 256) as u8;
        bytes[4 * i + 1] = (value / 256 % 256) as u8;
        bytes[4 * i + 2] = (value / 65_536 % 256) as u8;
        bytes[4 * i + 3] = (value / 16_777_216) as u8;
        i = i + 1;
    }
    bytes
}

/// A pose to publish together with an image.
#[derive(Debug, Clone, Copy)]
pub struct PoseUpdate {
    pub index: PoseIndex,
    pub position: [u32; 3],
    pub quaternion: [u32; 4],
    pub aux: [u32; 4],
}

/// An image whose pixels are in the pool and whose metadata is not committed yet.
#[derive(Debug, Clone, Copy, PartialEq, Eq, Structural)]
pub struct StagedImage {
    pub buffer_id: u8,
}

/// The simulator's writer.
#[derive(Debug)]
pub struct ShmPublisher<O, G, R> {
    pub meta: ShmMetaRegion<O, G, R>,
    pub image_pool: Vec<u8>,
    pub current_buffer_id: u8,
    pub last_synchronized_frame_seq: Option<u64>,
}

/// Whether a slot holds the given pose.
pub open spec fn pose_matches(
    slot: PoseSlot,
    update: PoseUpdate,
    frame_seq: u64,
    timestamp_ns: u64,
) -> bool {
    &&& slot.frame_seq == frame_seq
    &&& slot.timestamp_ns == timestamp_ns
    &&& slot.position == update.position
    &&& slot.quaternion == update.quaternion
    &&& forall|k: int| 0 <= k < 16 ==> #[trigger] slot.aux@[k] == le_byte(update.aux@[k / 4], k % 4)
}

/// Whether publishing poses one after the other leads from one list of pose buffers to another.
pub open spec fn poses_published(
    before: Seq<TripleBuffer<PoseSlot>>,
    updates: Seq<PoseUpdate>,
    frame_seq: u64,
    timestamp_ns: u64,
    after: Seq<TripleBuffer<PoseSlot>>,
) -> bool {
    exists|states: Seq<Seq<TripleBuffer<PoseSlot>>>|
        {
            &&& #[trigger] pose_steps(states, updates, frame_seq, timestamp_ns)
            &&& states[0] == before
            &&& states[updates.len() as int] == after
        }
}

/// Whether each pose leads from one of the states to the next.
pub open spec fn pose_steps(
    states: Seq<Seq<TripleBuffer<PoseSlot>>>,
    updates: Seq<PoseUpdate>,
    frame_seq: u64,
    timestamp_ns: u64,
) -> bool {
    &&& states.len() == updates.len() + 1
    &&& forall|i: int|
        0 <= i < updates.len() ==> pose_published(
            states[i],
            #[trigger] updates[i],
            frame_seq,
            timestamp_ns,
            states[i + 1],
        )
}

/// Whether publishing one pose leads from one list of pose buffers to another: only its own buffer
/// changes, and that has the pose ready.
pub open spec fn pose_published(
    before: Seq<TripleBuffer<PoseSlot>>,
    update: PoseUpdate,
    frame_seq: u64,
    timestamp_ns: u64,
    after: Seq<TripleBuffer<PoseSlot>>,
) -> bool {
    let at = update.index.index_spec();
    &&& after == before.update(at, after[at])
    &&& before[at].published(after[at].ready(), after[at])
    &&& pose_matches(after[at].ready(), update, frame_seq, timestamp_ns)
}

/// The metadata of an image in a pool buffer.
pub open spec fn image_meta(seq: u64, timestamp_ns: u64, buffer_id: u8) -> ImageMeta {
    ImageMeta {
        seq,
        timestamp_ns,
        width: IMAGE_WIDTH,
        height: IMAGE_HEIGHT,
        buffer_id,
        format: 0,
    }
}

/// The pool with an image written into one of its buffers.
pub open spec fn pool_with(pool: Seq<u8>, buffer_id: int, data: Seq<u8>) -> Seq<u8> {
    Seq::new(
        pool.len(),
        |k: int|
            if buffer_id * IMAGE_SIZE <= k < (buffer_id + 1) * IMAGE_SIZE {
                data[k - buffer_id * IMAGE_SIZE]
            } else {
                pool[k]
            },
    )
}

impl<O, G, R> ShmPublisher<O, G, R> {
    pub open spec fn wf(self) -> bool {
        &&& self.meta.wf()
        &&& self.image_pool@.len() == IMAGE_POOL_SIZE
        &&& self.current_buffer_id < 3
    }

    /// Whether the consumer has taken the last image and the poses that belong to it.
    pub open spec fn consumed(self) -> bool {
        &&& self.meta.image.consumed_spec()
        &&& forall|i: int|
            0 <= i <= PoseIndex::Camera.index_spec() ==> (
            #[trigger] self.meta.poses@[i]).consumed_spec()
    }

    /// Whether a synchronized image with this number would be accepted.
    pub open spec fn accepts(self, seq: u64) -> bool {
        &&& self.consumed()
        &&& self.last_synchronized_frame_seq matches Some(last) ==> seq > last
    }

    /// Everything of the region but the image metadata and the poses is the same.
    pub open spec fn same_besides_image_and_poses(self, other: Self) -> bool {
        &&& self.meta.header == other.meta.header
        &&& self.meta.gimbal_cmd == other.meta.gimbal_cmd
        &&& self.meta.camera_info == other.meta.camera_info
        &&& self.meta.chassis_observation == other.meta.chassis_observation
        &&& self.meta.ground_truth == other.meta.ground_truth
        &&& self.meta.runtime_state == other.meta.runtime_state
    }

    /// Whether another state differs only in the pixels of an image, which lie in the next pool
    /// buffer. No metadata speaks of them yet.
    pub open spec fn staged(self, data: Seq<u8>, next: Self) -> bool {
        &&& next.image_pool@ == pool_with(self.image_pool@, self.current_buffer_id as int, data)
        &&& next.current_buffer_id == (self.current_buffer_id + 1) % 3
        &&& next.meta == self.meta
        &&& next.last_synchronized_frame_seq == self.last_synchronized_frame_seq
    }

    /// Whether another state differs only in the image metadata, which has been published, and in
    /// the number of the last bundle.
    pub open spec fn committed(self, image: ImageMeta, next: Self) -> bool {
        &&& self.meta.image.published(image, next.meta.image)
        &&& next.meta == (ShmMetaRegion { image: next.meta.image, ..self.meta })
        &&& next.image_pool == self.image_pool
        &&& next.current_buffer_id == self.current_buffer_id
    }

    /// Whether publishing an image with its poses leads from one state to the next.
    pub open spec fn image_published(
        self,
        data: Seq<u8>,
        seq: u64,
        timestamp_ns: u64,
        poses: Seq<PoseUpdate>,
        next: Self,
    ) -> bool {
        &&& next.image_pool@ == pool_with(self.image_pool@, self.current_buffer_id as int, data)
        &&& next.current_buffer_id == (self.current_buffer_id + 1) % 3
        &&& poses_published(
            self.meta.poses@,
            poses,
            seq,
            timestamp_ns,
            next.meta.poses@,
        )
        &&& self.meta.image.published(
            image_meta(seq, timestamp_ns, self.current_buffer_id),
            next.meta.image,
        )
        &&& next.same_besides_image_and_poses(self)
    }

    /// A region in its first state: nothing published, every triple buffer in its first state over
    /// zeroed slots, and no camera known.
    pub fn create(
        now_ns: u64,
        chassis_observation: O,
        ground_truth: G,
        runtime_state: R,
    ) -> (r: Self)
        ensures
            r.wf(),
            r.consumed(),
            r.current_buffer_id == 0,
            r.last_synchronized_frame_seq is None,
            forall|k: int| 0 <= k < IMAGE_POOL_SIZE ==> #[trigger] r.image_pool@[k] == 0,
            r.meta.header == (ShmHeader {
                magic: SHM_MAGIC,
                version: SHM_VERSION,
                created_ns: now_ns,
                heartbeat_ns: now_ns,
                image_width: IMAGE_WIDTH,
                image_height: IMAGE_HEIGHT,
            }),
            r.meta.image.first_state(),
            forall|k: int| 0 <= k < 3 ==> (#[trigger] r.meta.image.slots@[k]).is_zero(),
            forall|i: int| 0 <= i < POSE_COUNT ==> (#[trigger] r.meta.poses@[i]).first_state(),
            forall|i: int, k: int|
                0 <= i < POSE_COUNT && 0 <= k < 3 ==> (
                #[trigger] r.meta.poses@[i].slots@[k]).is_zero(),
            r.meta.gimbal_cmd.first_state(),
            forall|k: int| 0 <= k < 3 ==> (#[trigger] r.meta.gimbal_cmd.slots@[k]).is_zero(),
            r.meta.camera_info.is_zero(),
            r.meta.chassis_observation == chassis_observation,
            r.meta.ground_truth == ground_truth,
            r.meta.runtime_state == runtime_state,
    {
        let header: ShmHeader = ShmHeader {
            magic: SHM_MAGIC,
            version: SHM_VERSION,
            created_ns: now_ns,
            heartbeat_ns: now_ns,
            image_width: IMAGE_WIDTH,
            image_height: IMAGE_HEIGHT,
        };
        let no_image: ImageMeta = ImageMeta {
            seq: 0,
            timestamp_ns: 0,
            width: 0,
            height: 0,
            buffer_id: 0,
            format: 0,
        };
        let no_pose: PoseSlot = PoseSlot {
            frame_seq: 0,
            timestamp_ns: 0,
            position: [0, 0, 0],
            quaternion: [0, 0, 0, 0],
            aux: [0, 0, 0, 0, 0, 0, 0, 0, 0, 0, 0, 0, 0, 0, 0, 0],
        };
        let no_cmd: GimbalCmd = GimbalCmd {
            timestamp_ns: 0,
            yaw_diff_deg: 0,
            pitch_diff_deg: 0,
            distance_m: 0,
            fire_advice: 0,
        };
        let no_camera: CameraInfo = CameraInfo {
            timestamp_ns: 0,
            fx: 0,
            fy: 0,
            cx: 0,
            cy: 0,
            distortion: [0, 0, 0, 0, 0],
            width: 0,
            height: 0,
        };
        proof {
            assert(no_pose.position@ =~= seq![0u32, 0u32, 0u32]);
            assert(no_pose.quaternion@ =~= seq![0u32, 0u32, 0u32, 0u32]);
            assert(no_pose.aux@ =~= Seq::new(16, |k: int| 0u8));
            assert(no_camera.distortion@ =~= seq![0u64, 0u64, 0u64, 0u64, 0u64]);
        }
        let mut poses: Vec<TripleBuffer<PoseSlot>> = Vec::new();
        let mut i: usize = 0;
        while i < POSE_COUNT
            invariant
                i <= POSE_COUNT,
                poses@.len() == i,
                no_pose.is_zero(),
                forall|k: int|
                    0 <= k < i ==> {
                        &&& (#[trigger] poses@[k]).first_state()
                        &&& poses@[k].slots@ == seq![no_pose, no_pose, no_pose]
                    },
            decreases POSE_COUNT - i,
        {
            poses.push(TripleBuffer::new(no_pose));
            i = i + 1;
        }
        let mut image_pool: Vec<u8> = Vec::new();
        image_pool.resize(IMAGE_POOL_SIZE, 0);
        ShmPublisher {
            meta: ShmMetaRegion {
                header,
                image: TripleBuffer::new(no_image),
                poses,
                gimbal_cmd: TripleBuffer::new(no_cmd),
                camera_info: no_camera,
                chassis_observation,
                ground_truth,
                runtime_state,
            },
            image_pool,
            current_buffer_id: 0,
            last_synchronized_frame_seq: None,
        }
    }

    /// Copies the pixels into the next pool buffer. Nothing of the metadata changes, so no consumer
    /// looks at them yet.
    pub fn stage_image(&mut self, data: &[u8]) -> (r: StagedImage)
        requires
            old(self).wf(),
            data@.len() == IMAGE_SIZE,
        ensures
            final(self).wf(),
            r.buffer_id == old(self).current_buffer_id,
            old(self).staged(data@, *final(self)),
    {
        let buffer_id: u8 = self.current_buffer_id;
        self.current_buffer_id = (buffer_id + 1) % 3;
        let start: usize = buffer_id as usize * IMAGE_SIZE;
        let ghost before = self.image_pool@;
        copy_bytes(data, 0, IMAGE_SIZE, self.image_pool.as_mut_slice(), start);
        proof {
            assert(self.image_pool@ =~= pool_with(before, buffer_id as int, data@));
        }
        StagedImage { buffer_id }
    }

    /// Commits the metadata of a staged image: the marker that consumers look for.
    pub fn commit_image(&mut self, staged: StagedImage, seq: u64, timestamp_ns: u64)
        requires
            old(self).wf(),
        ensures
            final(self).wf(),
            old(self).committed(image_meta(seq, timestamp_ns, staged.buffer_id), *final(self)),
            !final(self).meta.image.consumed_spec(),
            final(self).meta.image.ready() == image_meta(seq, timestamp_ns, staged.buffer_id),
            final(self).last_synchronized_frame_seq == old(self).last_synchronized_frame_seq,
    {
        self.meta.image.publish(
            ImageMeta {
                seq,
                timestamp_ns,
                width: IMAGE_WIDTH,
                height: IMAGE_HEIGHT,
                buffer_id: staged.buffer_id,
                format: 0,
            },
        );
    }

    /// Publishes an image on its own.
    pub fn publish_image(&mut self, data: &[u8], seq: u64, timestamp_ns: u64)
        requires
            old(self).wf(),
            data@.len() == IMAGE_SIZE,
        ensures
            final(self).wf(),
            old(self).image_published(data@, seq, timestamp_ns, Seq::empty(), *final(self)),
            final(self).meta.image.ready() == image_meta(
                seq,
                timestamp_ns,
                old(self).current_buffer_id,
            ),
            final(self).last_synchronized_frame_seq == old(self).last_synchronized_frame_seq,
    {
        let before_commit = |at: &mut Self|
            ensures
                *final(at) == *old(at),
            {  };
        self.publish_image_with(data, seq, timestamp_ns, before_commit);
        proof {
            let poses = Seq::<PoseUpdate>::empty();
            let states = seq![self.meta.poses@];
            assert(pose_steps(states, poses, seq, timestamp_ns));
        }
    }

    /// Publishes an image and what belongs to it. `before_commit` runs once, after the expensive
    /// pixel copy and before the image metadata, which is the commit marker observed by consumers.
    pub fn publish_image_with<F: FnOnce(&mut Self)>(
        &mut self,
        data: &[u8],
        seq: u64,
        timestamp_ns: u64,
        before_commit: F,
    )
        requires
            old(self).wf(),
            data@.len() == IMAGE_SIZE,
            forall|at: &mut Self|
                old(self).staged(data@, *at) ==> #[trigger] call_requires(before_commit, (at,)),
            forall|at: &mut Self|
                old(self).staged(data@, *at) && #[trigger] call_ensures(before_commit, (at,), ())
                    ==> final(at).wf(),
        ensures
            final(self).wf(),
            exists|at: &mut Self|
                {
                    &&& old(self).staged(data@, *at)
                    &&& #[trigger] call_ensures(before_commit, (at,), ())
                    &&& final(at).committed(
                        image_meta(seq, timestamp_ns, old(self).current_buffer_id),
                        *final(self),
                    )
                    &&& final(at).last_synchronized_frame_seq
                        == final(self).last_synchronized_frame_seq
                },
            !final(self).meta.image.consumed_spec(),
            final(self).meta.image.ready() == image_meta(
                seq,
                timestamp_ns,
                old(self).current_buffer_id,
            ),
    {
        let staged: StagedImage = self.stage_image(data);
        before_commit(self);
        self.commit_image(staged, seq, timestamp_ns);
    }

    /// Publishes an image as one bundle with what `before_commit` publishes, unless it is older
    /// than the last bundle or the consumer has not taken that one whole. A refused bundle changes
    /// nothing, and `before_commit` does not run.
    pub fn try_publish_synchronized_image<F: FnOnce(&mut Self)>(
        &mut self,
        data: &[u8],
        seq: u64,
        timestamp_ns: u64,
        before_commit: F,
    ) -> (r: bool)
        requires
            old(self).wf(),
            data@.len() == IMAGE_SIZE,
            forall|at: &mut Self|
                old(self).accepts(seq) && old(self).staged(data@, *at)
                    ==> #[trigger] call_requires(before_commit, (at,)),
            forall|at: &mut Self|
                old(self).accepts(seq) && old(self).staged(data@, *at)
                    && #[trigger] call_ensures(before_commit, (at,), ()) ==> final(at).wf(),
        ensures
            final(self).wf(),
            r == old(self).accepts(seq),
            !r ==> *final(self) == *old(self),
            r ==> {
                &&& exists|at: &mut Self|
                    {
                        &&& old(self).staged(data@, *at)
                        &&& #[trigger] call_ensures(before_commit, (at,), ())
                        &&& final(at).committed(
                            image_meta(seq, timestamp_ns, old(self).current_buffer_id),
                            *final(self),
                        )
                    }
                &&& final(self).last_synchronized_frame_seq == Some(seq)
                &&& !final(self).consumed()
            },
    {
        let older: bool = match self.last_synchronized_frame_seq {
            Some(last) => seq <= last,
            None => false,
        };
        if older || !self.synchronized_frame_consumed() {
            return false;
        }
        self.publish_image_with(data, seq, timestamp_ns, before_commit);
        self.last_synchronized_frame_seq = Some(seq);
        true
    }

    /// Publishes poses one after the other.
    pub fn publish_poses(&mut self, poses: &Vec<PoseUpdate>, frame_seq: u64, timestamp_ns: u64)
        requires
            old(self).wf(),
        ensures
            final(self).wf(),
            poses_published(
                old(self).meta.poses@,
                poses@,
                frame_seq,
                timestamp_ns,
                final(self).meta.poses@,
            ),
            final(self).image_pool == old(self).image_pool,
            final(self).current_buffer_id == old(self).current_buffer_id,
            final(self).last_synchronized_frame_seq == old(self).last_synchronized_frame_seq,
            final(self).meta.image == old(self).meta.image,
            final(self).same_besides_image_and_poses(*old(self)),
    {
        let ghost begun = *self;
        let ghost mut states: Seq<Seq<TripleBuffer<PoseSlot>>> = seq![self.meta.poses@];
        let mut i: usize = 0;
        while i < poses.len()
            invariant
                i <= poses@.len(),
                self.wf(),
                pose_steps(states, poses@.take(i as int), frame_seq, timestamp_ns),
                states[0] == begun.meta.poses@,
                states[i as int] == self.meta.poses@,
                self.image_pool == begun.image_pool,
                self.current_buffer_id == begun.current_buffer_id,
                self.last_synchronized_frame_seq == begun.last_synchronized_frame_seq,
                self.meta.image == begun.meta.image,
                self.same_besides_image_and_poses(begun),
            decreases poses@.len() - i,
        {
            self.publish_pose_update(poses[i], frame_seq, timestamp_ns);
            proof {
                let earlier = poses@.take(i as int);
                let upto = poses@.take(i + 1);
                let longer = states.push(self.meta.poses@);
                assert forall|k: int| 0 <= k < upto.len() implies pose_published(
                    longer[k],
                    #[trigger] upto[k],
                    frame_seq,
                    timestamp_ns,
                    longer[k + 1],
                ) by {
                    if k < i {
                        assert(earlier[k] == upto[k]);
                    }
                }
                states = longer;
            }
            i = i + 1;
        }
        proof {
            assert(poses@.take(i as int) =~= poses@);
        }
    }

    /// Publishes an image and its poses as one bundle, unless it is older than the last bundle or
    /// the consumer has not taken that one whole. A refused bundle changes nothing.
    pub fn try_publish_synchronized_poses(
        &mut self,
        data: &[u8],
        seq: u64,
        timestamp_ns: u64,
        poses: &Vec<PoseUpdate>,
    ) -> (r: bool)
        requires
            old(self).wf(),
            data@.len() == IMAGE_SIZE,
        ensures
            final(self).wf(),
            r == old(self).accepts(seq),
            !r ==> *final(self) == *old(self),
            r ==> {
                &&& old(self).image_published(data@, seq, timestamp_ns, poses@, *final(self))
                &&& final(self).last_synchronized_frame_seq == Some(seq)
                &&& !final(self).consumed()
            },
    {
        let before_commit = |at: &mut Self|
            requires
                old(at).wf(),
            ensures
                final(at).wf(),
                poses_published(
                    old(at).meta.poses@,
                    poses@,
                    seq,
                    timestamp_ns,
                    final(at).meta.poses@,
                ),
                final(at).image_pool == old(at).image_pool,
                final(at).current_buffer_id == old(at).current_buffer_id,
                final(at).last_synchronized_frame_seq == old(at).last_synchronized_frame_seq,
                final(at).meta.image == old(at).meta.image,
                final(at).same_besides_image_and_poses(*old(at)),
            { at.publish_poses(poses, seq, timestamp_ns) };
        self.try_publish_synchronized_image(data, seq, timestamp_ns, before_commit)
    }

    /// Whether the consumer has taken the last image and the poses that belong to it.
    pub fn synchronized_frame_consumed(&self) -> (r: bool)
        requires
            self.wf(),
        ensures
            r == self.consumed(),
    {
        if !self.meta.image.consumed() {
            return false;
        }
        let last: usize = PoseIndex::Camera.index();
        let mut i: usize = 0;
        while i <= last
            invariant
                i <= last + 1,
                last == 3,
                self.wf(),
                forall|k: int| 0 <= k < i ==> (#[trigger] self.meta.poses@[k]).consumed_spec(),
            decreases last + 1 - i,
        {
            if !self.meta.poses[i].consumed() {
                assert(!self.meta.poses@[i as int].consumed_spec());
                return false;
            }
            i = i + 1;
        }
        true
    }

    fn publish_pose_update(&mut self, update: PoseUpdate, frame_seq: u64, timestamp_ns: u64)
        requires
            old(self).wf(),
        ensures
            final(self).wf(),
            pose_published(
                old(self).meta.poses@,
                update,
                frame_seq,
                timestamp_ns,
                final(self).meta.poses@,
            ),
            final(self).image_pool == old(self).image_pool,
            final(self).current_buffer_id == old(self).current_buffer_id,
            final(self).last_synchronized_frame_seq == old(self).last_synchronized_frame_seq,
            final(self).meta.image == old(self).meta.image,
            final(self).same_besides_image_and_poses(*old(self)),
    {
        let at: usize = update.index.index();
        let slot: PoseSlot = PoseSlot {
            frame_seq,
            timestamp_ns,
            position: update.position,
            quaternion: update.quaternion,
            aux: aux_f32_to_bytes(update.aux),
        };
        let ghost before = self.meta.poses@;
        self.meta.poses[at].publish(slot);
        proof {
            assert(self.meta.poses@ =~= before.update(at as int, self.meta.poses@[at as int]));
        }
    }

    /// Publishes a pose without auxiliary values.
    pub fn publish_pose(
        &mut self,
        index: PoseIndex,
        position: [u32; 3],
        quaternion: [u32; 4],
        frame_seq: u64,
        timestamp_ns: u64,
    )
        requires
            old(self).wf(),
        ensures
            final(self).wf(),
            exists|update: PoseUpdate|
                {
                    &&& update.index == index
                    &&& update.position == position
                    &&& update.quaternion == quaternion
                    &&& update.aux@ == seq![0u32, 0u32, 0u32, 0u32]
                    &&& #[trigger] pose_published(
                        old(self).meta.poses@,
                        update,
                        frame_seq,
                        timestamp_ns,
                        final(self).meta.poses@,
                    )
                },
            final(self).image_pool == old(self).image_pool,
            final(self).current_buffer_id == old(self).current_buffer_id,
            final(self).last_synchronized_frame_seq == old(self).last_synchronized_frame_seq,
            final(self).meta.image == old(self).meta.image,
            final(self).same_besides_image_and_poses(*old(self)),
    {
        let aux: [u32; 4] = [0, 0, 0, 0];
        let update: PoseUpdate = PoseUpdate { index, position, quaternion, aux };
        proof {
            assert(update.aux@ =~= seq![0u32, 0u32, 0u32, 0u32]);
        }
        self.publish_pose_update(update, frame_seq, timestamp_ns);
    }

    /// Publishes a pose with four auxiliary values.
    pub fn publish_pose_with_aux(
        &mut self,
        index: PoseIndex,
        position: [u32; 3],
        quaternion: [u32; 4],
        aux: [u32; 4],
        frame_seq: u64,
        timestamp_ns: u64,
    )
        requires
            old(self).wf(),
        ensures
            final(self).wf(),
            pose_published(
                old(self).meta.poses@,
                (PoseUpdate { index, position, quaternion, aux }),
                frame_seq,
                timestamp_ns,
                final(self).meta.poses@,
            ),
            final(self).image_pool == old(self).image_pool,
            final(self).current_buffer_id == old(self).current_buffer_id,
            final(self).last_synchronized_frame_seq == old(self).last_synchronized_frame_seq,
            final(self).meta.image == old(self).meta.image,
            final(self).same_besides_image_and_poses(*old(self)),
    {
        self.publish_pose_update(
            PoseUpdate { index, position, quaternion, aux },
            frame_seq,
            timestamp_ns,
        );
    }

    pub fn set_camera_info(&mut self, info: CameraInfo)
        ensures
            *final(self) == (ShmPublisher {
                meta: ShmMetaRegion { camera_info: info, ..old(self).meta },
                ..*old(self)
            }),
    {
        self.meta.camera_info = info;
    }

    pub fn publish_chassis_observation(&mut self, observation: O)
        ensures
            *final(self) == (ShmPublisher {
                meta: ShmMetaRegion { chassis_observation: observation, ..old(self).meta },
                ..*old(self)
            }),
    {
        self.meta.chassis_observation = observation;
    }

    pub fn publish_ground_truth(&mut self, batch: G)
        ensures
            *final(self) == (ShmPublisher {
                meta: ShmMetaRegion { ground_truth: batch, ..old(self).meta },
                ..*old(self)
            }),
    {
        self.meta.ground_truth = batch;
    }

    pub fn publish_runtime_state(&mut self, state: R)
        ensures
            *final(self) == (ShmPublisher {
                meta: ShmMetaRegion { runtime_state: state, ..old(self).meta },
                ..*old(self)
            }),
    {
        self.meta.runtime_state = state;
    }

    /// Notes that the simulator is alive.
    pub fn update_heartbeat(&mut self, now_ns: u64)
        ensures
            *final(self) == (ShmPublisher {
                meta: ShmMetaRegion {
                    header: ShmHeader { heartbeat_ns: now_ns, ..old(self).meta.header },
                    ..old(self).meta
                },
                ..*old(self)
            }),
    {
        self.meta.header.heartbeat_ns = now_ns;
    }
}

/// The pixels that a committed image refers to survive the next two images: the pool rotates
/// through its three buffers.
pub proof fn law_pixels_survive_two_more_images<O, G, R>(
    publisher: ShmPublisher<O, G, R>,
    first: ShmPublisher<O, G, R>,
    second: ShmPublisher<O, G, R>,
    third: ShmPublisher<O, G, R>,
    data: Seq<u8>,
    data_2: Seq<u8>,
    data_3: Seq<u8>,
    seq: u64,
    seq_2: u64,
    seq_3: u64,
    timestamp_ns: u64,
    timestamp_2_ns: u64,
    timestamp_3_ns: u64,
    poses: Seq<PoseUpdate>,
    poses_2: Seq<PoseUpdate>,
    poses_3: Seq<PoseUpdate>,
    k: int,
)
    requires
        publisher.wf(),
        data.len() == IMAGE_SIZE,
        data_2.len() == IMAGE_SIZE,
        data_3.len() == IMAGE_SIZE,
        publisher.image_published(data, seq, timestamp_ns, poses, first),
        first.image_published(data_2, seq_2, timestamp_2_ns, poses_2, second),
        second.image_published(data_3, seq_3, timestamp_3_ns, poses_3, third),
        0 <= k < IMAGE_SIZE,
    ensures
        ({
            let buffer_id = publisher.current_buffer_id as int;
            third.image_pool@[buffer_id * IMAGE_SIZE + k] == data[k]
        }),
        third.current_buffer_id == publisher.current_buffer_id,
{
}

/// Accepted bundles have strictly increasing numbers: once a number was accepted, neither it nor an
/// older one is accepted again, however the consumer behaves.
pub proof fn law_synchronized_numbers_increase<O, G, R>(
    publisher: ShmPublisher<O, G, R>,
    accepted: u64,
    later: u64,
)
    requires
        publisher.last_synchronized_frame_seq == Some(accepted),
        publisher.accepts(later),
    ensures
        later > accepted,
{
}

/// A bundle is not overwritten by halves: while the image or any of the four poses of the last one
/// has not been taken, every bundle is refused.
pub proof fn law_unconsumed_bundle_blocks_the_next<O, G, R>(
    publisher: ShmPublisher<O, G, R>,
    index: PoseIndex,
    seq: u64,
)
    requires
        publisher.wf(),
        index != PoseIndex::Chassis,
        !publisher.meta.image.consumed_spec()
            || !publisher.meta.poses@[index.index_spec()].consumed_spec(),
    ensures
        !publisher.accepts(seq),
{
}

/// Writes [`GimbalCmd`]s into the region created by the simulator.
///
/// Images flow from the simulator to the vision peer, gimbal commands the other way through the
/// same region. The triple buffer supports a single producer, so at most one such writer may be
/// attached to a region at a time.
#[derive(Debug)]
pub struct GimbalCmdPublisher<O, G, R> {
    pub meta: ShmMetaRegion<O, G, R>,
}

impl<O, G, R> GimbalCmdPublisher<O, G, R> {
    /// Attaches to a region that the simulator has created.
    pub fn connect(meta: ShmMetaRegion<O, G, R>) -> (r: Result<Self, ShmError>)
        ensures
            if meta.header.magic == SHM_MAGIC && meta.header.version == SHM_VERSION {
                r is Ok && r->Ok_0.meta == meta
            } else {
                r == Err::<Self, ShmError>(ShmError::InvalidSize)
            },
    {
        if meta.header.magic != SHM_MAGIC || meta.header.version != SHM_VERSION {
            return Err(ShmError::InvalidSize);
        }
        Ok(GimbalCmdPublisher { meta })
    }

    /// True once the simulator consumed the previous command.
    pub fn previous_consumed(&self) -> (r: bool)
        ensures
            r == self.meta.gimbal_cmd.consumed_spec(),
    {
        self.meta.gimbal_cmd.consumed()
    }

    /// Publishes a command, refusing to overwrite one the simulator has not consumed yet. Commands
    /// are angle deltas, so a dropped command is a permanently lost rotation step: on `false`,
    /// retry the *same* command instead of building a new one.
    pub fn try_publish(&mut self, cmd: GimbalCmd) -> (r: bool)
        requires
            old(self).meta.wf(),
        ensures
            final(self).meta.wf(),
            r == old(self).meta.gimbal_cmd.consumed_spec(),
            !r ==> *final(self) == *old(self),
            r ==> {
                &&& old(self).meta.gimbal_cmd.published(cmd, final(self).meta.gimbal_cmd)
                &&& final(self).meta.gimbal_cmd.ready() == cmd
                &&& *final(self) == (GimbalCmdPublisher {
                    meta: ShmMetaRegion {
                        gimbal_cmd: final(self).meta.gimbal_cmd,
                        ..old(self).meta
                    },
                })
            },
    {
        if !self.previous_consumed() {
            return false;
        }
        self.meta.gimbal_cmd.publish(cmd);
        true
    }
}

/// No command is lost: one that was accepted blocks every other until the simulator has taken it,
/// and what it takes then is that command.
pub proof fn law_accepted_command_is_taken_before_the_next(
    before: TripleBuffer<GimbalCmd>,
    cmd: GimbalCmd,
    published: TripleBuffer<GimbalCmd>,
    taken: TripleBuffer<GimbalCmd>,
)
    requires
        before.wf(),
        before.published(cmd, published),
        published.taken(taken),
    ensures
        !published.consumed_spec(),
        taken.consumed_spec(),
        taken.read() == cmd,
{
}

/// The bytes of a value read back as the value, the lowest first.
pub proof fn law_little_endian_bytes_read_back(value: u32)
    ensures
        le_byte(value, 0) + 256 * le_byte(value, 1) + 65_536 * le_byte(value, 2) + 16_777_216
            * le_byte(value, 3) == value,
{
    assert(value / 256 / 256 == value / 65_536);
    assert(value / 65_536 / 256 == value / 16_777_216);
}

/// The metadata of an image says its number, its time and where its pixels are, and the size and the
/// one format that all images have.
pub proof fn law_what_is_known_of_an_image(seq: u64, timestamp_ns: u64, buffer_id: u8)
    ensures
        ({
            let meta = image_meta(seq, timestamp_ns, buffer_id);
            &&& meta.seq == seq
            &&& meta.timestamp_ns == timestamp_ns
            &&& meta.buffer_id == buffer_id
            &&& meta.width == 1440
            &&& meta.height == 1080
            &&& meta.format == 0
        }),
{
}

/// Writing an image into a buffer of the pool puts its bytes there, in order, and leaves the other
/// buffers alone.
pub proof fn law_an_image_fills_its_buffer(
    pool: Seq<u8>,
    buffer_id: int,
    other: int,
    data: Seq<u8>,
    k: int,
)
    requires
        pool.len() == 13_996_800,
        data.len() == 4_665_600,
        0 <= buffer_id < 3,
        0 <= other < 3,
        0 <= k < 4_665_600,
    ensures
        pool_with(pool, buffer_id, data).len() == pool.len(),
        pool_with(pool, buffer_id, data)[buffer_id * 4_665_600 + k] == data[k],
        other != buffer_id ==> pool_with(pool, buffer_id, data)[other * 4_665_600 + k] == pool[other
            * 4_665_600 + k],
{
}

/// The image that lies ready after it was published has its pixels where its metadata says, bears its
/// number and time, and everything that does not belong to it is as it was.
pub proof fn law_metadata_points_to_the_pixels<O, G, R>(
    publisher: ShmPublisher<O, G, R>,
    data: Seq<u8>,
    seq: u64,
    timestamp_ns: u64,
    poses: Seq<PoseUpdate>,
    next: ShmPublisher<O, G, R>,
    k: int,
)
    requires
        publisher.wf(),
        data.len() == 4_665_600,
        publisher.image_published(data, seq, timestamp_ns, poses, next),
        0 <= k < 4_665_600,
    ensures
        ({
            let image = next.meta.image.ready();
            &&& !next.meta.image.consumed_spec()
            &&& image.seq == seq
            &&& image.timestamp_ns == timestamp_ns
            &&& image.buffer_id < 3
            &&& next.image_pool@[image.buffer_id * 4_665_600 + k] == data[k]
            &&& next.current_buffer_id != image.buffer_id
            &&& next.current_buffer_id < 3
            &&& next.meta.header == publisher.meta.header
            &&& next.meta.gimbal_cmd == publisher.meta.gimbal_cmd
            &&& next.meta.camera_info == publisher.meta.camera_info
            &&& next.meta.chassis_observation == publisher.meta.chassis_observation
            &&& next.meta.ground_truth == publisher.meta.ground_truth
            &&& next.meta.runtime_state == publisher.meta.runtime_state
        }),
{
    assert(pool_with(publisher.image_pool@, publisher.current_buffer_id as int, data)[
    publisher.current_buffer_id * 4_665_600 + k] == data[k]);
}

/// Staging writes pixels and nothing else, into the buffer whose turn it is; committing writes the
/// image metadata and nothing else.
pub proof fn law_staging_and_committing_write_one_thing_each<O, G, R>(
    publisher: ShmPublisher<O, G, R>,
    data: Seq<u8>,
    staged: ShmPublisher<O, G, R>,
    image: ImageMeta,
    committed: ShmPublisher<O, G, R>,
    k: int,
)
    requires
        publisher.wf(),
        data.len() == 4_665_600,
        publisher.staged(data, staged),
        staged.committed(image, committed),
        0 <= k < 4_665_600,
    ensures
        staged.image_pool@[publisher.current_buffer_id * 4_665_600 + k] == data[k],
        staged.meta == publisher.meta,
        staged.last_synchronized_frame_seq == publisher.last_synchronized_frame_seq,
        staged.current_buffer_id == (if publisher.current_buffer_id == 2 {
            0
        } else {
            publisher.current_buffer_id + 1
        }),
        committed.image_pool == staged.image_pool,
        committed.current_buffer_id == staged.current_buffer_id,
        committed.meta.image.ready() == image,
        !committed.meta.image.consumed_spec(),
        committed.meta.poses == publisher.meta.poses,
        committed.meta.header == publisher.meta.header,
        committed.meta.gimbal_cmd == publisher.meta.gimbal_cmd,
        committed.meta.camera_info == publisher.meta.camera_info,
        committed.meta.chassis_observation == publisher.meta.chassis_observation,
        committed.meta.ground_truth == publisher.meta.ground_truth,
        committed.meta.runtime_state == publisher.meta.runtime_state,
{
    assert(pool_with(publisher.image_pool@, publisher.current_buffer_id as int, data)[
    publisher.current_buffer_id * 4_665_600 + k] == data[k]);
}

/// A bundle is accepted exactly if the image and the four poses of the last one have been taken, and
/// its number is higher than that of the last. The pose of the chassis does not matter.
pub proof fn law_when_a_bundle_is_accepted<O, G, R>(publisher: ShmPublisher<O, G, R>, seq: u64)
    requires
        publisher.wf(),
    ensures
        publisher.accepts(seq) <==> {
            &&& publisher.meta.image.consumed_spec()
            &&& publisher.meta.poses@[0].consumed_spec()
            &&& publisher.meta.poses@[1].consumed_spec()
            &&& publisher.meta.poses@[2].consumed_spec()
            &&& publisher.meta.poses@[3].consumed_spec()
            &&& publisher.last_synchronized_frame_seq is None || seq
                > publisher.last_synchronized_frame_seq->0
        },
{
}

/// After poses were published, the buffer of each of them has the last pose that was published for it
/// ready, with its number and time, and the auxiliary values as their bytes.
pub proof fn law_poses_are_ready_in_their_places(
    before: Seq<TripleBuffer<PoseSlot>>,
    updates: Seq<PoseUpdate>,
    frame_seq: u64,
    timestamp_ns: u64,
    after: Seq<TripleBuffer<PoseSlot>>,
    i: int,
)
    requires
        before.len() == 5,
        forall|k: int| 0 <= k < 5 ==> (#[trigger] before[k]).wf(),
        poses_published(before, updates, frame_seq, timestamp_ns, after),
        0 <= i < updates.len(),
        forall|j: int|
            i < j < updates.len() ==> (#[trigger] updates[j]).index != updates[i].index,
    ensures
        ({
            let slot = after[updates[i].index.index_spec()].ready();
            &&& !after[updates[i].index.index_spec()].consumed_spec()
            &&& slot.frame_seq == frame_seq
            &&& slot.timestamp_ns == timestamp_ns
            &&& slot.position == updates[i].position
            &&& slot.quaternion == updates[i].quaternion
            &&& forall|k: int|
                0 <= k < 4 ==> (#[trigger] updates[i].aux@[k]) == slot.aux@[4 * k] + 256
                    * slot.aux@[4 * k + 1] + 65_536 * slot.aux@[4 * k + 2] + 16_777_216
                    * slot.aux@[4 * k + 3]
        }),
{
    let states = choose|states: Seq<Seq<TripleBuffer<PoseSlot>>>|
        {
            &&& #[trigger] pose_steps(states, updates, frame_seq, timestamp_ns)
            &&& states[0] == before
            &&& states[updates.len() as int] == after
        };
    lemma_pose_states_sound(states, updates, frame_seq, timestamp_ns, i);
    let at = updates[i].index.index_spec();
    assert forall|j: int| i + 1 <= j < updates.len() implies (
    #[trigger] updates[j]).index.index_spec() != at by {
        assert(updates[j].index != updates[i].index);
    }
    lemma_untouched_place(
        states,
        updates,
        frame_seq,
        timestamp_ns,
        i + 1,
        updates.len() as int,
        at,
    );
    assert(pose_published(states[i], updates[i], frame_seq, timestamp_ns, states[i + 1]));
    let slot = after[at].ready();
    assert(pose_matches(slot, updates[i], frame_seq, timestamp_ns));
    assert forall|k: int| 0 <= k < 4 implies (#[trigger] updates[i].aux@[k]) == slot.aux@[4 * k]
        + 256 * slot.aux@[4 * k + 1] + 65_536 * slot.aux@[4 * k + 2] + 16_777_216 * slot.aux@[4 * k
        + 3] by {
        law_little_endian_bytes_read_back(updates[i].aux@[k]);
        assert((4 * k) / 4 == k && (4 * k) % 4 == 0);
        assert((4 * k + 1) / 4 == k && (4 * k + 1) % 4 == 1);
        assert((4 * k + 2) / 4 == k && (4 * k + 2) % 4 == 2);
        assert((4 * k + 3) / 4 == k && (4 * k + 3) % 4 == 3);
    }
}

/// Publishing poses leaves the buffers of all other poses as they were.
pub proof fn law_other_poses_stay(
    before: Seq<TripleBuffer<PoseSlot>>,
    updates: Seq<PoseUpdate>,
    frame_seq: u64,
    timestamp_ns: u64,
    after: Seq<TripleBuffer<PoseSlot>>,
    place: int,
)
    requires
        before.len() == 5,
        forall|k: int| 0 <= k < 5 ==> (#[trigger] before[k]).wf(),
        poses_published(before, updates, frame_seq, timestamp_ns, after),
        0 <= place < 5,
        forall|j: int|
            0 <= j < updates.len() ==> (#[trigger] updates[j]).index.index_spec() != place,
    ensures
        after.len() == 5,
        after[place] == before[place],
{
    let states = choose|states: Seq<Seq<TripleBuffer<PoseSlot>>>|
        {
            &&& #[trigger] pose_steps(states, updates, frame_seq, timestamp_ns)
            &&& states[0] == before
            &&& states[updates.len() as int] == after
        };
    lemma_pose_states_sound(states, updates, frame_seq, timestamp_ns, updates.len() as int);
    lemma_untouched_place(states, updates, frame_seq, timestamp_ns, 0, updates.len() as int, place);
}

proof fn lemma_pose_states_sound(
    states: Seq<Seq<TripleBuffer<PoseSlot>>>,
    updates: Seq<PoseUpdate>,
    frame_seq: u64,
    timestamp_ns: u64,
    n: int,
)
    requires
        pose_steps(states, updates, frame_seq, timestamp_ns),
        states[0].len() == 5,
        forall|k: int| 0 <= k < 5 ==> (#[trigger] states[0][k]).wf(),
        0 <= n <= updates.len(),
    ensures
        states[n].len() == 5,
        forall|k: int| 0 <= k < 5 ==> (#[trigger] states[n][k]).wf(),
    decreases n,
{
    if n > 0 {
        lemma_pose_states_sound(states, updates, frame_seq, timestamp_ns, n - 1);
        assert(pose_published(
            states[n - 1],
            updates[n - 1],
            frame_seq,
            timestamp_ns,
            states[n - 1 + 1],
        ));
        let at = updates[n - 1].index.index_spec();
        assert forall|k: int| 0 <= k < 5 implies (#[trigger] states[n][k]).wf() by {
            if k != at {
                assert(states[n][k] == states[n - 1][k]);
            } else {
                assert(states[n - 1][at].wf());
            }
        }
    }
}

proof fn lemma_untouched_place(
    states: Seq<Seq<TripleBuffer<PoseSlot>>>,
    updates: Seq<PoseUpdate>,
    frame_seq: u64,
    timestamp_ns: u64,
    from: int,
    n: int,
    place: int,
)
    requires
        pose_steps(states, updates, frame_seq, timestamp_ns),
        states[0].len() == 5,
        forall|k: int| 0 <= k < 5 ==> (#[trigger] states[0][k]).wf(),
        0 <= from <= n <= updates.len(),
        0 <= place < 5,
        forall|j: int|
            from <= j < n ==> (#[trigger] updates[j]).index.index_spec() != place,
    ensures
        states[n][place] == states[from][place],
    decreases n - from,
{
    if from < n {
        lemma_untouched_place(states, updates, frame_seq, timestamp_ns, from, n - 1, place);
        lemma_pose_states_sound(states, updates, frame_seq, timestamp_ns, n - 1);
        assert(pose_published(
            states[n - 1],
            updates[n - 1],
            frame_seq,
            timestamp_ns,
            states[n - 1 + 1],
        ));
        assert(updates[n - 1].index.index_spec() != place);
    }
}

/// The pool buffers are used in turn, the first again after the last, however an image is written.
pub proof fn law_pool_buffers_take_turns<O, G, R>(
    publisher: ShmPublisher<O, G, R>,
    data: Seq<u8>,
    seq: u64,
    timestamp_ns: u64,
    poses: Seq<PoseUpdate>,
    next: ShmPublisher<O, G, R>,
)
    requires
        publisher.wf(),
        publisher.staged(data, next) || publisher.image_published(
            data,
            seq,
            timestamp_ns,
            poses,
            next,
        ),
    ensures
        publisher.current_buffer_id == 0 ==> next.current_buffer_id == 1,
        publisher.current_buffer_id == 1 ==> next.current_buffer_id == 2,
        publisher.current_buffer_id == 2 ==> next.current_buffer_id == 0,
{
}

} // verus!
