//! Which textures are copied in a frame, into which buffers, and what becomes of the readbacks.
use crate::capture::format::{
    align_copy_bytes_per_row, block_copy_size, block_dimensions, capture_texture_aspect,
    TextureAspect, TextureFormat,
};
use crate::capture::frame::{CapturedFrameKind, FrameLayout};
use crate::capture::submission::{
    CaptureChannels, CaptureFrameId, CaptureFrameSubmission, CaptureSubmission,
    CaptureSubmissionError,
};
use std::collections::VecDeque;
use vstd::prelude::*;

verus! {

/// A texture that a copier reads.
#[derive(Clone, Copy, Debug, PartialEq, Eq, Structural)]
pub struct SourceTexture {
    pub width: u32,
    pub height: u32,
    pub format: TextureFormat,
}

/// What one copier finds when the frame is recorded: its source texture, once that is on the GPU,
/// and the frame each of the snapshots belongs to that its handlers took.
#[derive(Debug)]
pub struct CopierFrame {
    pub kind: CapturedFrameKind,
    pub source: Option<SourceTexture>,
    pub snapshots: Vec<Option<CaptureFrameId>>,
}

/// One texture-to-buffer copy to record.
#[derive(Clone, Copy, Debug, PartialEq, Eq, Structural)]
pub struct CopyCommand {
    /// The copier that reads its source.
    pub copier: usize,
    pub source: SourceTexture,
    pub aspect: TextureAspect,
    pub bytes_per_row: u32,
    pub buffer_size: u64,
}

/// Why recording the copies of a frame has to stop.
#[derive(Clone, Copy, Debug, PartialEq, Eq, Structural)]
pub enum CaptureFault {
    SnapshotFrameMismatch { active: CaptureFrameId, snapshot: CaptureFrameId },
    ChannelSubmission(CaptureSubmissionError),
    IncompleteSubmission(CaptureSubmissionError),
}

impl SourceTexture {
    /// The bytes from one row of the copy to the next.
    pub open spec fn padded_row(self) -> int {
        crate::capture::format::aligned_row(self.width * self.format.copy_size_spec()->0)
    }

    /// Whether the texture can be copied as a whole, with sizes that the machine can hold.
    pub open spec fn copyable(self) -> bool {
        &&& self.format.copy_size_spec() is Some
        &&& self.width * self.format.copy_size_spec()->0 + 255 <= usize::MAX
        &&& self.padded_row() % 0x1_0000_0000 != 0
        &&& self.padded_row() * self.height <= u64::MAX
    }
}

/// The copy of `source` on behalf of the copier at place `copier`.
pub open spec fn copy_command_spec(copier: usize, source: SourceTexture) -> CopyCommand {
    CopyCommand {
        copier,
        source,
        aspect: if source.format.is_depth_spec() {
            TextureAspect::DepthOnly
        } else {
            TextureAspect::All
        },
        bytes_per_row: (source.padded_row() % 0x1_0000_0000) as u32,
        buffer_size: (source.padded_row() * source.height) as u64,
    }
}

/// Plans the copy of a texture: the aspect, the row pitch and the buffer it needs.
pub fn copy_command(copier: usize, source: SourceTexture) -> (r: CopyCommand)
    requires
        source.copyable(),
    ensures
        r == copy_command_spec(copier, source),
{
    let block: (u32, u32) = block_dimensions(source.format);
    let block_size: u32 = block_copy_size(source.format).unwrap();
    let blocks: usize = source.width as usize / block.0 as usize;
    proof {
        vstd::arithmetic::div_mod::lemma_div_basics(source.width as int);
    }
    let padded: usize = align_copy_bytes_per_row(blocks * block_size as usize);
    CopyCommand {
        copier,
        source,
        aspect: capture_texture_aspect(source.format),
        bytes_per_row: (padded as u64 % 0x1_0000_0000) as u32,
        buffer_size: padded as u64 * source.height as u64,
    }
}

/// The first snapshot of another frame than `id`.
pub open spec fn first_foreign(
    snapshots: Seq<Option<CaptureFrameId>>,
    id: CaptureFrameId,
) -> Option<CaptureFrameId>
    decreases snapshots.len(),
{
    if snapshots.len() == 0 {
        None
    } else if snapshots[0] is Some && snapshots[0]->0 != id {
        snapshots[0]
    } else {
        first_foreign(snapshots.drop_first(), id)
    }
}

/// What a copier with these snapshots does to the submission while frame `id` is being captured.
pub open spec fn claim_step(
    submission: CaptureFrameSubmission,
    id: CaptureFrameId,
    kind: CapturedFrameKind,
    snapshots: Seq<Option<CaptureFrameId>>,
) -> Result<CaptureFrameSubmission, CaptureFault> {
    match first_foreign(snapshots, id) {
        Some(snapshot) => Err(CaptureFault::SnapshotFrameMismatch { active: id, snapshot }),
        None => if snapshots.contains(Some(id)) {
            match crate::capture::submission::claim_error(submission.0, id, kind) {
                Some(error) => Err(CaptureFault::ChannelSubmission(error)),
                None => Ok(submission.claimed(kind)),
            }
        } else {
            Ok(submission)
        },
    }
}

/// Submission and copies after the first `n` copiers.
pub open spec fn copies_upto(
    submission: CaptureFrameSubmission,
    active: Option<CaptureFrameId>,
    copiers: Seq<CopierFrame>,
    n: int,
) -> Result<(CaptureFrameSubmission, Seq<CopyCommand>), CaptureFault>
    decreases n,
{
    if n <= 0 {
        Ok((submission, Seq::empty()))
    } else {
        match copies_upto(submission, active, copiers, n - 1) {
            Err(fault) => Err(fault),
            Ok((s, commands)) => {
                let copier = copiers[n - 1];
                match copier.source {
                    None => Ok((s, commands)),
                    Some(source) => {
                        let claimed = match active {
                            Some(id) => claim_step(s, id, copier.kind, copier.snapshots@),
                            None => Ok(s),
                        };
                        match claimed {
                            Err(fault) => Err(fault),
                            Ok(s) => if copier.snapshots@.len() == 0 {
                                Ok((s, commands))
                            } else {
                                Ok((s, commands.push(copy_command_spec((n - 1) as usize, source))))
                            },
                        }
                    },
                }
            },
        }
    }
}

/// The submission when recording the copies of `n` copiers stops: where one of them is at fault, it is
/// what the copiers before it left.
pub open spec fn submission_left(
    submission: CaptureFrameSubmission,
    active: Option<CaptureFrameId>,
    copiers: Seq<CopierFrame>,
    n: int,
) -> CaptureFrameSubmission
    decreases n,
{
    match copies_upto(submission, active, copiers, n) {
        Ok((s, _)) => s,
        Err(_) => if n <= 0 {
            submission
        } else {
            submission_left(submission, active, copiers, n - 1)
        },
    }
}

/// The frame that a submission is capturing.
pub open spec fn active_frame(submission: CaptureFrameSubmission) -> Option<CaptureFrameId> {
    match submission.0 {
        Some(active) => Some(active.id),
        None => None,
    }
}

/// A fault stays a fault, whatever copiers come after it.
proof fn lemma_fault_stays(
    submission: CaptureFrameSubmission,
    active: Option<CaptureFrameId>,
    copiers: Seq<CopierFrame>,
    i: int,
    n: int,
)
    requires
        i <= n,
        copies_upto(submission, active, copiers, i) is Err,
    ensures
        copies_upto(submission, active, copiers, n) == copies_upto(submission, active, copiers, i),
        submission_left(submission, active, copiers, n) == submission_left(
            submission,
            active,
            copiers,
            i,
        ),
    decreases n - i,
{
    if i < n {
        lemma_fault_stays(submission, active, copiers, i, n - 1);
    }
}

/// The copy by which the copier at place `i` delivers frames of `kind` for frame `id`.
pub open spec fn delivers(
    copiers: Seq<CopierFrame>,
    commands: Seq<CopyCommand>,
    id: CaptureFrameId,
    kind: CapturedFrameKind,
    i: int,
) -> bool {
    &&& 0 <= i < copiers.len()
    &&& copiers[i].kind == kind
    &&& copiers[i].source is Some
    &&& copiers[i].snapshots@.contains(Some(id))
    &&& commands.contains(copy_command_spec(i as usize, copiers[i].source->0))
}

/// A capture that could be finished has a recorded copy for every channel it required, made by a
/// copier with a snapshot of that very frame.
pub proof fn law_finished_capture_has_every_channel(
    id: CaptureFrameId,
    required: CaptureChannels,
    copiers: Seq<CopierFrame>,
    kind: CapturedFrameKind,
)
    requires
        ({
            let begun = CaptureFrameSubmission(
                Some(CaptureSubmission { id, required, submitted: CaptureChannels::none() }),
            );
            let end = copies_upto(begun, Some(id), copiers, copiers.len() as int);
            &&& end is Ok
            &&& crate::capture::submission::finish_error((end->Ok_0.0).0, id) is None
        }),
        required.has(kind),
    ensures
        ({
            let begun = CaptureFrameSubmission(
                Some(CaptureSubmission { id, required, submitted: CaptureChannels::none() }),
            );
            let end = copies_upto(begun, Some(id), copiers, copiers.len() as int);
            exists|i: int| delivers(copiers, (end->Ok_0).1, id, kind, i)
        }),
{
    let begun = CaptureFrameSubmission(
        Some(CaptureSubmission { id, required, submitted: CaptureChannels::none() }),
    );
    lemma_submitted_was_copied(begun, id, copiers, copiers.len() as int, kind);
}

proof fn lemma_submitted_was_copied(
    begun: CaptureFrameSubmission,
    id: CaptureFrameId,
    copiers: Seq<CopierFrame>,
    n: int,
    kind: CapturedFrameKind,
)
    requires
        begun.0 is Some,
        begun.0->0.id == id,
        !begun.0->0.submitted.has(kind),
        0 <= n <= copiers.len(),
        copies_upto(begun, Some(id), copiers, n) is Ok,
    ensures
        ({
            let (s, commands) = copies_upto(begun, Some(id), copiers, n)->Ok_0;
            &&& s.0 is Some
            &&& s.0->0.id == id
            &&& s.0->0.required == begun.0->0.required
            &&& s.0->0.submitted.has(kind) ==> exists|i: int|
                delivers(copiers, commands, id, kind, i)
        }),
    decreases n,
{
    if n > 0 {
        lemma_submitted_was_copied(begun, id, copiers, n - 1, kind);
        let (before, earlier) = copies_upto(begun, Some(id), copiers, n - 1)->Ok_0;
        let (s, commands) = copies_upto(begun, Some(id), copiers, n)->Ok_0;
        if s.0->0.submitted.has(kind) {
            if before.0->0.submitted.has(kind) {
                let i = choose|i: int| delivers(copiers, earlier, id, kind, i);
                let command = copy_command_spec(i as usize, copiers[i].source->0);
                let at = choose|at: int| 0 <= at < earlier.len() && earlier[at] == command;
                assert(commands[at] == command);
                assert(delivers(copiers, commands, id, kind, i));
            } else {
                assert(commands[commands.len() - 1] == copy_command_spec(
                    (n - 1) as usize,
                    copiers[n - 1].source->0,
                ));
                assert(delivers(copiers, commands, id, kind, n - 1));
            }
        }
    }
}

/// Applies one copier's snapshots to the submission. A fault leaves the submission as it was.
fn claim_snapshots(
    submission: &mut CaptureFrameSubmission,
    id: CaptureFrameId,
    kind: CapturedFrameKind,
    snapshots: &Vec<Option<CaptureFrameId>>,
) -> (r: Result<(), CaptureFault>)
    ensures
        match claim_step(*old(submission), id, kind, snapshots@) {
            Ok(s) => r == Ok::<(), CaptureFault>(()) && *final(submission) == s,
            Err(fault) => r == Err::<(), CaptureFault>(fault) && *final(submission) == *old(
                submission,
            ),
        },
{
    let mut claims: bool = false;
    let mut i: usize = 0;
    proof {
        assert(snapshots@.skip(0) =~= snapshots@);
    }
    while i < snapshots.len()
        invariant
            i <= snapshots.len(),
            first_foreign(snapshots@, id) == first_foreign(snapshots@.skip(i as int), id),
            claims <==> exists|k: int| 0 <= k < i && #[trigger] snapshots@[k] == Some(id),
        decreases snapshots.len() - i,
    {
        proof {
            assert(snapshots@.skip(i as int).drop_first() =~= snapshots@.skip(i + 1));
        }
        if let Some(snapshot) = snapshots[i] {
            if snapshot.0 != id.0 {
                return Err(CaptureFault::SnapshotFrameMismatch { active: id, snapshot });
            }
            claims = true;
        }
        i = i + 1;
    }
    if claims {
        match submission.claim(id, kind) {
            Ok(()) => Ok(()),
            Err(error) => Err(CaptureFault::ChannelSubmission(error)),
        }
    } else {
        Ok(())
    }
}

/// Records the copies of one frame: each copier whose texture is on the GPU and whose handlers took
/// a snapshot copies it, and while a frame is being captured each channel that a snapshot of that
/// frame asks for is claimed. At the end that capture is finished. A fault stops the recording, and
/// the capture stays where it was then.
pub fn image_copy_driver(
    submission: &mut CaptureFrameSubmission,
    copiers: &Vec<CopierFrame>,
) -> (r: Result<Vec<CopyCommand>, CaptureFault>)
    requires
        forall|i: int|
            0 <= i < copiers@.len() && (#[trigger] copiers@[i]).source is Some
                && copiers@[i].snapshots@.len() > 0 ==> copiers@[i].source->0.copyable(),
    ensures
        ({
            let active = active_frame(*old(submission));
            match copies_upto(*old(submission), active, copiers@, copiers@.len() as int) {
                Err(fault) => {
                    &&& r == Err::<Vec<CopyCommand>, CaptureFault>(fault)
                    &&& *final(submission) == submission_left(
                        *old(submission),
                        active,
                        copiers@,
                        copiers@.len() as int,
                    )
                },
                Ok((s, commands)) => match active {
                    None => r is Ok && r->Ok_0@ == commands && *final(submission) == s,
                    Some(id) => {
                        &&& *final(submission) == CaptureFrameSubmission(None)
                        &&& match crate::capture::submission::finish_error(s.0, id) {
                            Some(error) => r == Err::<Vec<CopyCommand>, CaptureFault>(
                                CaptureFault::IncompleteSubmission(error),
                            ),
                            None => r is Ok && r->Ok_0@ == commands,
                        }
                    },
                },
            }
        }),
{
    let active: Option<CaptureFrameId> = submission.active_id();
    let ghost begun = *submission;
    let mut commands: Vec<CopyCommand> = Vec::new();
    let mut i: usize = 0;
    while i < copiers.len()
        invariant
            i <= copiers.len(),
            forall|i: int|
                0 <= i < copiers@.len() && (#[trigger] copiers@[i]).source is Some
                    && copiers@[i].snapshots@.len() > 0 ==> copiers@[i].source->0.copyable(),
            begun == *old(submission),
            active == active_frame(begun),
            copies_upto(begun, active, copiers@, i as int) == Ok::<_, CaptureFault>(
                (*submission, commands@),
            ),
        decreases copiers.len() - i,
    {
        let copier: &CopierFrame = &copiers[i];
        if let Some(source) = copier.source {
            if let Some(id) = active {
                if let Err(fault) = claim_snapshots(submission, id, copier.kind, &copier.snapshots) {
                    proof {
                        lemma_fault_stays(begun, active, copiers@, i + 1, copiers@.len() as int);
                        assert(submission_left(begun, active, copiers@, i as int) == *submission);
                    }
                    return Err(fault);
                }
            }
            if copier.snapshots.len() > 0 {
                commands.push(copy_command(i, source));
            }
        }
        i = i + 1;
    }
    if let Some(id) = active {
        if let Err(error) = submission.finish(id) {
            return Err(CaptureFault::IncompleteSubmission(error));
        }
    }
    Ok(commands)
}

/// Takes a pooled output buffer, sized without ever re-zeroing a buffer that already fits.
pub fn acquire_frame_buffer(pool: &mut Vec<Vec<u8>>, len: usize) -> (r: Vec<u8>)
    ensures
        r@ == acquired_bytes(old(pool)@, len as int),
        final(pool)@ == (if old(pool)@.len() == 0 {
            old(pool)@
        } else {
            old(pool)@.drop_last()
        }),
{
    let mut buffer: Vec<u8> = match pool.pop() {
        Some(buffer) => buffer,
        None => Vec::new(),
    };
    if buffer.len() < len {
        buffer.resize(len, 0);
    } else {
        buffer.truncate(len);
    }
    proof {
        assert(buffer@ =~= acquired_bytes(old(pool)@, len as int));
    }
    buffer
}

/// What a buffer of `len` bytes taken from the pool holds: the bytes it had when it was given back
/// and zeros behind them.
pub open spec fn acquired_bytes(pool: Seq<Vec<u8>>, len: int) -> Seq<u8> {
    Seq::new(
        len as nat,
        |i: int|
            if pool.len() > 0 && i < pool.last()@.len() {
                pool.last()@[i]
            } else {
                0u8
            },
    )
}

/// Converts one mapped readback into a frame, in a buffer from the pool. `None` means that the
/// texture cannot produce frames of that kind.
pub fn receive_frame(
    pool: &mut Vec<Vec<u8>>,
    kind: CapturedFrameKind,
    source: SourceTexture,
    mapped: &[u8],
) -> (r: Option<Vec<u8>>)
    requires
        source.width > 0,
        source.format.copy_size_spec() is Some,
        source.width * source.format.copy_size_spec()->0 + 255 <= usize::MAX,
        crate::capture::frame::frame_layout(
            kind,
            source.format,
            source.width,
            source.height,
        ) matches Some(layout) ==> layout.output_row_bytes * source.height <= usize::MAX,
    ensures
        match crate::capture::frame::frame_layout(kind, source.format, source.width, source.height) {
            None => r is None && *final(pool) == *old(pool),
            Some(layout) => {
                let len = layout.output_row_bytes * source.height;
                &&& r is Some
                &&& r->0@ == Seq::new(
                    len as nat,
                    |k: int| layout.output_byte(mapped@, acquired_bytes(old(pool)@, len), k),
                )
                &&& final(pool)@ == (if old(pool)@.len() == 0 {
                    old(pool)@
                } else {
                    old(pool)@.drop_last()
                })
            },
        },
{
    let layout: FrameLayout = match FrameLayout::new(
        kind,
        source.format,
        source.width,
        source.height,
    ) {
        Some(layout) => layout,
        None => return None,
    };
    proof {
        let size = source.format.copy_size_spec()->0;
        assert(source.width * size >= source.width) by (nonlinear_arith)
            requires
                size >= 1,
        ;
    }
    let mut frame: Vec<u8> = acquire_frame_buffer(pool, layout.output_len());
    let ghost before = frame@;
    layout.write(mapped, frame.as_mut_slice());
    proof {
        assert(frame@ =~= Seq::new(
            before.len(),
            |k: int| layout.output_byte(mapped@, before, k),
        ));
    }
    Some(frame)
}

/// What a capture target is and what its frames hold.
#[derive(Clone, Copy, Debug, PartialEq, Eq, Structural)]
pub struct CaptureConfig {
    pub width: u32,
    pub height: u32,
    pub texture_format: TextureFormat,
    pub frame_kind: CapturedFrameKind,
}

/// A recorded copy whose buffer has not been read yet, with the snapshots that wait for it.
#[derive(Debug)]
pub struct PendingReadback<B, S> {
    pub buffer: B,
    pub snapshots: S,
    pub source: SourceTexture,
}

/// Copies one image to the CPU, frame after frame. Buffers and snapshots are the engine's.
#[derive(Debug)]
pub struct ImageCopier<B, S> {
    pub config: CaptureConfig,
    /// The handle of the image that is copied.
    pub src_image: u64,
    pub queue: VecDeque<PendingReadback<B, S>>,
    pub free_buffers: Vec<B>,
    /// Pool of frame-sized output buffers, so the per-frame conversion allocates nothing.
    pub free_frames: Vec<Vec<u8>>,
}

impl<B, S> ImageCopier<B, S> {
    pub fn new(config: CaptureConfig, src_image: u64) -> (r: Self)
        ensures
            r.config == config,
            r.src_image == src_image,
            r.queue@.len() == 0,
            r.free_buffers@.len() == 0,
            r.free_frames@.len() == 0,
    {
        ImageCopier {
            config,
            src_image,
            queue: VecDeque::new(),
            free_buffers: Vec::new(),
            free_frames: Vec::new(),
        }
    }

    /// A buffer that an earlier copy has given back, the last one first. `None` asks for a new one.
    pub fn acquire_buffer(&mut self) -> (r: Option<B>)
        ensures
            final(self).config == old(self).config,
            final(self).src_image == old(self).src_image,
            final(self).queue == old(self).queue,
            final(self).free_frames == old(self).free_frames,
            if old(self).free_buffers@.len() == 0 {
                r is None && final(self).free_buffers@ == old(self).free_buffers@
            } else {
                &&& r == Some(old(self).free_buffers@.last())
                &&& final(self).free_buffers@ == old(self).free_buffers@.drop_last()
            },
    {
        self.free_buffers.pop()
    }

    /// Queues a recorded copy behind those that wait already.
    pub fn push_readback(&mut self, readback: PendingReadback<B, S>)
        ensures
            final(self).config == old(self).config,
            final(self).src_image == old(self).src_image,
            final(self).free_buffers == old(self).free_buffers,
            final(self).free_frames == old(self).free_frames,
            final(self).queue@ == old(self).queue@.push(readback),
    {
        self.queue.push_back(readback);
    }

    /// Gives back a buffer that was read and a frame that was handed out.
    pub fn give_back(&mut self, buffer: B, frame: Vec<u8>)
        ensures
            final(self).config == old(self).config,
            final(self).src_image == old(self).src_image,
            final(self).queue == old(self).queue,
            final(self).free_buffers@ == old(self).free_buffers@.push(buffer),
            final(self).free_frames@ == old(self).free_frames@.push(frame),
    {
        self.free_buffers.push(buffer);
        self.free_frames.push(frame);
    }

    /// The copy that has waited longest.
    pub fn next_readback(&mut self) -> (r: Option<PendingReadback<B, S>>)
        ensures
            final(self).config == old(self).config,
            final(self).src_image == old(self).src_image,
            final(self).free_buffers == old(self).free_buffers,
            final(self).free_frames == old(self).free_frames,
            if old(self).queue@.len() == 0 {
                r is None && final(self).queue@ == old(self).queue@
            } else {
                r == Some(old(self).queue@[0]) && final(self).queue@
                    == old(self).queue@.drop_first()
            },
    {
        let r: Option<PendingReadback<B, S>> = self.queue.pop_front();
        proof {
            assert(old(self).queue@.len() > 0 ==> self.queue@ =~= old(self).queue@.drop_first());
        }
        r
    }
}

/// A capture of an image into frames of one kind.
#[derive(Clone, Copy, Debug, PartialEq, Eq, Structural)]
pub struct CameraCapturePlugin {
    pub config: CaptureConfig,
    /// The handle of the captured image.
    pub handle: u64,
    pub expose_config_resource: bool,
}

/// The copiers that are installed in the render world.
#[derive(Debug)]
pub struct ImageCopiers<B, S> {
    pub copiers: Vec<ImageCopier<B, S>>,
    pub driver_installed: bool,
}

impl<B, S> ImageCopiers<B, S> {
    pub fn new() -> (r: Self)
        ensures
            r.copiers@.len() == 0,
            !r.driver_installed,
    {
        ImageCopiers { copiers: Vec::new(), driver_installed: false }
    }

    /// Takes the copy that has waited longest from every copier that has one waiting, to be read
    /// back, with the place of its copier.
    pub fn receive_image_from_buffer(&mut self) -> (r: Vec<(usize, PendingReadback<B, S>)>)
        ensures
            r@ == received(old(self).copiers@, old(self).copiers@.len() as int),
            final(self).driver_installed == old(self).driver_installed,
            final(self).copiers@.len() == old(self).copiers@.len(),
            forall|i: int|
                0 <= i < old(self).copiers@.len() ==> without_longest_waiting(
                    #[trigger] old(self).copiers@[i],
                    final(self).copiers@[i],
                ),
    {
        let ghost before = self.copiers@;
        let mut out: Vec<(usize, PendingReadback<B, S>)> = Vec::new();
        let mut i: usize = 0;
        while i < self.copiers.len()
            invariant
                i <= self.copiers@.len() == before.len(),
                self.driver_installed == old(self).driver_installed,
                out@ == received(before, i as int),
                forall|k: int|
                    0 <= k < i ==> without_longest_waiting(
                        #[trigger] before[k],
                        self.copiers@[k],
                    ),
                forall|k: int| i <= k < before.len() ==> self.copiers@[k] == #[trigger] before[k],
            decreases self.copiers@.len() - i,
        {
            assert(self.copiers@[i as int] == before[i as int]);
            let next: Option<PendingReadback<B, S>> = self.copiers[i].next_readback();
            if let Some(readback) = next {
                out.push((i, readback));
            }
            i = i + 1;
        }
        out
    }
}

/// Whether taking the copy that has waited longest leads from one copier to another. Where none
/// waits, nothing changes.
pub open spec fn without_longest_waiting<B, S>(
    before: ImageCopier<B, S>,
    after: ImageCopier<B, S>,
) -> bool {
    &&& after.config == before.config
    &&& after.src_image == before.src_image
    &&& after.free_buffers == before.free_buffers
    &&& after.free_frames == before.free_frames
    &&& after.queue@ == (if before.queue@.len() == 0 {
        before.queue@
    } else {
        before.queue@.drop_first()
    })
}

/// The copies that are taken from the first `n` copiers to be read back.
pub open spec fn received<B, S>(copiers: Seq<ImageCopier<B, S>>, n: int) -> Seq<
    (usize, PendingReadback<B, S>),
>
    decreases n,
{
    if n <= 0 {
        Seq::empty()
    } else if copiers[n - 1].queue@.len() == 0 {
        received(copiers, n - 1)
    } else {
        received(copiers, n - 1).push(((n - 1) as usize, copiers[n - 1].queue@[0]))
    }
}

/// A copier's queue and what has been received from it.
pub ghost struct ReadbackHistory<B, S> {
    pub waiting: Seq<PendingReadback<B, S>>,
    pub received: Seq<PendingReadback<B, S>>,
}

/// What happens to a copier's queue over a list of steps, each of which records a copy or, where it
/// has none, receives one.
pub open spec fn readback_history<B, S>(steps: Seq<Option<PendingReadback<B, S>>>) -> ReadbackHistory<
    B,
    S,
>
    decreases steps.len(),
{
    if steps.len() == 0 {
        ReadbackHistory { waiting: Seq::empty(), received: Seq::empty() }
    } else {
        let before = readback_history(steps.drop_last());
        match steps.last() {
            Some(readback) => ReadbackHistory {
                waiting: before.waiting.push(readback),
                received: before.received,
            },
            None => if before.waiting.len() == 0 {
                before
            } else {
                ReadbackHistory {
                    waiting: before.waiting.drop_first(),
                    received: before.received.push(before.waiting[0]),
                }
            },
        }
    }
}

/// The copies that a list of steps records.
pub open spec fn recorded<B, S>(steps: Seq<Option<PendingReadback<B, S>>>) -> Seq<
    PendingReadback<B, S>,
>
    decreases steps.len(),
{
    if steps.len() == 0 {
        Seq::empty()
    } else {
        match steps.last() {
            Some(readback) => recorded(steps.drop_last()).push(readback),
            None => recorded(steps.drop_last()),
        }
    }
}

/// Copies come out in the order in which they were recorded, and none gets lost: what was received
/// and what still waits make up what was recorded.
pub proof fn law_copies_come_out_as_recorded<B, S>(steps: Seq<Option<PendingReadback<B, S>>>)
    ensures
        readback_history(steps).received + readback_history(steps).waiting == recorded(steps),
    decreases steps.len(),
{
    if steps.len() == 0 {
        assert(readback_history(steps).received + readback_history(steps).waiting =~= recorded(
            steps,
        ));
    } else {
        law_copies_come_out_as_recorded(steps.drop_last());
        let before = readback_history(steps.drop_last());
        let after = readback_history(steps);
        match steps.last() {
            Some(readback) => {
                assert(after.received + after.waiting =~= (before.received + before.waiting).push(
                    readback,
                ));
            },
            None => {
                assert(after.received + after.waiting =~= before.received + before.waiting);
            },
        }
    }
}

/// What building a capture plugin asks of the engine.
#[derive(Clone, Copy, Debug, PartialEq, Eq, Structural)]
pub struct CaptureInstall {
    /// The configuration becomes a resource of the main and of the render world.
    pub expose_config: bool,
    /// The systems that record copies and receive readbacks are added.
    pub install_driver: bool,
}

impl CameraCapturePlugin {
    /// Captures an image that was made for it, and exposes its configuration.
    pub fn new(config: CaptureConfig, handle: u64) -> (r: (Self, u64))
        ensures
            r.0 == (CameraCapturePlugin { config, handle, expose_config_resource: true }),
            r.1 == handle,
    {
        (CameraCapturePlugin { config, handle, expose_config_resource: true }, handle)
    }

    /// Captures an image that something else draws.
    pub fn from_existing_handle(config: CaptureConfig, handle: u64) -> (r: Self)
        ensures
            r == (CameraCapturePlugin { config, handle, expose_config_resource: false }),
    {
        CameraCapturePlugin { config, handle, expose_config_resource: false }
    }

    /// Installs the capture. The systems are added with the first one only. `None` means that the
    /// texture format cannot produce frames of the kind, and leaves everything as it was.
    pub fn build<B, S>(&self, render: &mut ImageCopiers<B, S>) -> (r: Option<CaptureInstall>)
        requires
            self.config.texture_format.copy_size_spec() is Some,
            self.config.width * self.config.texture_format.copy_size_spec()->0 + 255 <= usize::MAX,
        ensures
            r is None <==> self.config.frame_kind is Rgb8 && crate::capture::frame::color_order(
                self.config.texture_format,
            ) is None,
            r is None ==> *final(render) == *old(render),
            r matches Some(install) ==> {
                &&& install.expose_config == self.expose_config_resource
                &&& install.install_driver == !old(render).driver_installed
                &&& final(render).driver_installed
                &&& final(render).copiers@.len() == old(render).copiers@.len() + 1
                &&& final(render).copiers@.drop_last() == old(render).copiers@
                &&& final(render).copiers@.last().config == self.config
                &&& final(render).copiers@.last().src_image == self.handle
                &&& final(render).copiers@.last().queue@.len() == 0
                &&& final(render).copiers@.last().free_buffers@.len() == 0
                &&& final(render).copiers@.last().free_frames@.len() == 0
            },
    {
        let layout: Option<FrameLayout> = FrameLayout::new(
            self.config.frame_kind,
            self.config.texture_format,
            self.config.width,
            self.config.height,
        );
        if layout.is_none() {
            return None;
        }
        render.copiers.push(ImageCopier::new(self.config, self.handle));
        let install_driver: bool = !render.driver_installed;
        render.driver_installed = true;
        proof {
            assert(render.copiers@.drop_last() =~= old(render).copiers@);
        }
        Some(CaptureInstall { expose_config: self.expose_config_resource, install_driver })
    }
}

/// A part of a capture bundle.
#[derive(Clone, Copy, Debug, PartialEq, Eq, Structural)]
pub enum CapturePluginNode {
    Camera(CameraCapturePlugin),
    /// Copies the depth of the view of one camera into a texture.
    ViewCopy { width: u32, height: u32, camera_order: isize, target: u64 },
}

/// The captures that belong together, in the order in which they are built.
#[derive(Debug)]
pub struct CaptureBundle {
    pub plugins: Vec<CapturePluginNode>,
    pub color_target: Option<u64>,
    pub depth_target: Option<u64>,
}

impl CaptureBundle {
    /// The two parts that a depth capture adds. The copy is built before the capture that reads it.
    pub open spec fn depth_nodes(config: CaptureConfig, camera_order: isize, target: u64) -> Seq<
        CapturePluginNode,
    > {
        seq![
            CapturePluginNode::ViewCopy {
                width: config.width,
                height: config.height,
                camera_order,
                target,
            },
            CapturePluginNode::Camera(
                CameraCapturePlugin { config, handle: target, expose_config_resource: false },
            ),
        ]
    }

    /// The configuration of the depth capture that goes with a color capture.
    pub open spec fn depth_config(color: CaptureConfig) -> CaptureConfig {
        CaptureConfig {
            width: color.width,
            height: color.height,
            texture_format: TextureFormat::Depth32Float,
            frame_kind: CapturedFrameKind::Depth32F,
        }
    }

    /// A color capture into the image `color_target`.
    pub fn color(config: CaptureConfig, color_target: u64) -> (r: Self)
        ensures
            r.plugins@ == seq![
                CapturePluginNode::Camera(
                    CameraCapturePlugin {
                        config,
                        handle: color_target,
                        expose_config_resource: true,
                    },
                ),
            ],
            r.color_target == Some(color_target),
            r.depth_target is None,
    {
        let (plugin, target) = CameraCapturePlugin::new(config, color_target);
        let mut plugins: Vec<CapturePluginNode> = Vec::new();
        plugins.push(CapturePluginNode::Camera(plugin));
        CaptureBundle { plugins, color_target: Some(target), depth_target: None }
    }

    /// A color capture and the depth of the camera that draws it, in the same size.
    pub fn color_and_depth(
        color_config: CaptureConfig,
        color_target: u64,
        depth_target: u64,
    ) -> (r: Self)
        ensures
            r.plugins@ == seq![
                CapturePluginNode::Camera(
                    CameraCapturePlugin {
                        config: color_config,
                        handle: color_target,
                        expose_config_resource: true,
                    },
                ),
            ] + Self::depth_nodes(
                Self::depth_config(color_config),
                crate::capture::CAPTURE_CAMERA_ORDER,
                depth_target,
            ),
            r.color_target == Some(color_target),
            r.depth_target == Some(depth_target),
    {
        let depth: CaptureConfig = CaptureConfig {
            width: color_config.width,
            height: color_config.height,
            texture_format: TextureFormat::Depth32Float,
            frame_kind: CapturedFrameKind::Depth32F,
        };
        Self::color(color_config, color_target).with_depth_from_camera_order(
            depth,
            crate::capture::CAPTURE_CAMERA_ORDER,
            depth_target,
        )
    }

    /// The depth of the camera with the given order alone.
    pub fn depth_from_camera_order(
        config: CaptureConfig,
        camera_order: isize,
        depth_target: u64,
    ) -> (r: Self)
        ensures
            r.plugins@ == Self::depth_nodes(config, camera_order, depth_target),
            r.color_target is None,
            r.depth_target == Some(depth_target),
    {
        let mut bundle: CaptureBundle = CaptureBundle {
            plugins: Vec::new(),
            color_target: None,
            depth_target: None,
        };
        bundle.push_depth_from_camera_order(config, camera_order, depth_target);
        bundle
    }

    /// Adds a depth capture.
    pub fn with_depth_from_camera_order(
        self,
        config: CaptureConfig,
        camera_order: isize,
        depth_target: u64,
    ) -> (r: Self)
        ensures
            r.plugins@ == self.plugins@ + Self::depth_nodes(config, camera_order, depth_target),
            r.color_target == self.color_target,
            r.depth_target == Some(depth_target),
    {
        let mut bundle: CaptureBundle = self;
        bundle.push_depth_from_camera_order(config, camera_order, depth_target);
        bundle
    }

    pub fn color_target(&self) -> (r: Option<u64>)
        ensures
            r == self.color_target,
    {
        self.color_target
    }

    pub fn depth_target(&self) -> (r: Option<u64>)
        ensures
            r == self.depth_target,
    {
        self.depth_target
    }

    fn push_depth_from_camera_order(
        &mut self,
        config: CaptureConfig,
        camera_order: isize,
        depth_target: u64,
    )
        ensures
            final(self).plugins@ == old(self).plugins@ + Self::depth_nodes(
                config,
                camera_order,
                depth_target,
            ),
            final(self).color_target == old(self).color_target,
            final(self).depth_target == Some(depth_target),
    {
        self.plugins.push(
            CapturePluginNode::ViewCopy {
                width: config.width,
                height: config.height,
                camera_order,
                target: depth_target,
            },
        );
        self.plugins.push(
            CapturePluginNode::Camera(
                CameraCapturePlugin::from_existing_handle(config, depth_target),
            ),
        );
        self.depth_target = Some(depth_target);
    }
}

/// A copy takes what there is of depth where the texture holds depth and everything elsewhere. Its
/// rows are as long as those of the texture, rounded up to multiples of 256 bytes, and its buffer
/// holds them all.
pub proof fn law_copies_hold_the_whole_texture(copier: usize, source: SourceTexture, size: u32)
    requires
        source.copyable(),
        source.format.copy_size_spec() == Some(size),
        source.width * size + 255 < 0x1_0000_0000,
    ensures
        ({
            let command = copy_command_spec(copier, source);
            &&& command.copier == copier
            &&& command.source == source
            &&& command.aspect is DepthOnly <==> source.format is Depth16Unorm
                || source.format is Depth24Plus || source.format is Depth24PlusStencil8
                || source.format is Depth32Float || source.format is Depth32FloatStencil8
            &&& command.bytes_per_row % 256 == 0
            &&& source.width * size <= command.bytes_per_row < source.width * size + 256
            &&& command.buffer_size == command.bytes_per_row * source.height
        }),
{
    let row = source.width * size;
    assert(row >= 0) by (nonlinear_arith)
        requires
            row == source.width * size,
    ;
    assert(source.padded_row() == (row + 255) / 256 * 256);
    assert(source.padded_row() * source.height >= 0) by (nonlinear_arith)
        requires
            source.padded_row() >= 0,
            source.height >= 0,
    ;
}

/// The snapshot that gives a copier away is the first of another frame; without one there is none.
pub proof fn law_the_first_foreign_snapshot_is_named(
    snapshots: Seq<Option<CaptureFrameId>>,
    id: CaptureFrameId,
)
    ensures
        match first_foreign(snapshots, id) {
            Some(other) => other != id && exists|i: int|
                0 <= i < snapshots.len() && (#[trigger] snapshots[i]) == Some(other)
                    && forall|k: int|
                    0 <= k < i ==> (#[trigger] snapshots[k]) is None || snapshots[k] == Some(id),
            None => forall|k: int|
                0 <= k < snapshots.len() ==> (#[trigger] snapshots[k]) is None || snapshots[k]
                    == Some(id),
        },
    decreases snapshots.len(),
{
    if snapshots.len() > 0 {
        let rest = snapshots.drop_first();
        law_the_first_foreign_snapshot_is_named(rest, id);
        if snapshots[0] is None || snapshots[0]->0 == id {
            match first_foreign(rest, id) {
                Some(other) => {
                    let i = choose|i: int|
                        0 <= i < rest.len() && (#[trigger] rest[i]) == Some(other) && forall|k: int|
                            0 <= k < i ==> (#[trigger] rest[k]) is None || rest[k] == Some(id);
                    assert(snapshots[i + 1] == Some(other));
                    assert forall|k: int| 0 <= k < i + 1 implies (#[trigger] snapshots[k]) is None
                        || snapshots[k] == Some(id) by {
                        if k > 0 {
                            assert(rest[k - 1] == snapshots[k]);
                        }
                    }
                },
                None => {
                    assert forall|k: int| 0 <= k < snapshots.len() implies (
                    #[trigger] snapshots[k]) is None || snapshots[k] == Some(id) by {
                        if k > 0 {
                            assert(rest[k - 1] == snapshots[k]);
                        }
                    }
                },
            }
        } else {
            assert(snapshots[0] == first_foreign(snapshots, id));
        }
    }
}

/// Where recording succeeds, exactly those copiers copy whose texture is there and whose handlers took
/// a snapshot, each its own texture, in the order of the copiers.
pub proof fn law_which_copiers_copy(
    submission: CaptureFrameSubmission,
    active: Option<CaptureFrameId>,
    copiers: Seq<CopierFrame>,
    n: int,
    command: CopyCommand,
)
    requires
        0 <= n <= copiers.len() <= usize::MAX,
        copies_upto(submission, active, copiers, n) is Ok,
    ensures
        copies_upto(submission, active, copiers, n)->Ok_0.1.contains(command) <==> exists|i: int|
            0 <= i < n && (#[trigger] copiers[i]).source is Some && copiers[i].snapshots@.len() > 0
                && command == copy_command_spec(i as usize, copiers[i].source->0),
        forall|i: int, j: int|
            0 <= i < j < copies_upto(submission, active, copiers, n)->Ok_0.1.len()
                ==> #[trigger] copies_upto(submission, active, copiers, n)->Ok_0.1[i].copier
                < #[trigger] copies_upto(submission, active, copiers, n)->Ok_0.1[j].copier,
{
    lemma_which_copy(submission, active, copiers, n);
    let commands = copies_upto(submission, active, copiers, n)->Ok_0.1;
    assert(commands.contains(command) <==> copied(copiers, n, command));
}

/// Whether a command is the copy of one of the first `n` copiers.
pub open spec fn copied(copiers: Seq<CopierFrame>, n: int, command: CopyCommand) -> bool {
    exists|i: int|
        0 <= i < n && (#[trigger] copiers[i]).source is Some && copiers[i].snapshots@.len() > 0
            && command == copy_command_spec(i as usize, copiers[i].source->0)
}

proof fn lemma_which_copy(
    submission: CaptureFrameSubmission,
    active: Option<CaptureFrameId>,
    copiers: Seq<CopierFrame>,
    n: int,
)
    requires
        0 <= n <= copiers.len() <= usize::MAX,
        copies_upto(submission, active, copiers, n) is Ok,
    ensures
        ({
            let commands = copies_upto(submission, active, copiers, n)->Ok_0.1;
            &&& forall|command: CopyCommand| #[trigger]
                commands.contains(command) <==> copied(copiers, n, command)
            &&& forall|i: int| 0 <= i < commands.len() ==> (#[trigger] commands[i]).copier < n
            &&& forall|i: int, j: int|
                0 <= i < j < commands.len() ==> (#[trigger] commands[i]).copier < (
                #[trigger] commands[j]).copier
        }),
    decreases n,
{
    if n > 0 {
        lemma_which_copy(submission, active, copiers, n - 1);
        let before = copies_upto(submission, active, copiers, n - 1)->Ok_0.1;
        let all = copies_upto(submission, active, copiers, n)->Ok_0.1;
        assert forall|command: CopyCommand| #[trigger]
            all.contains(command) <==> copied(copiers, n, command) by {
            assert(before.contains(command) <==> copied(copiers, n - 1, command));
            if before.contains(command) {
                let k = choose|k: int| 0 <= k < before.len() && before[k] == command;
                assert(all[k] == command);
            }
            if copied(copiers, n - 1, command) {
                let i = choose|i: int|
                    0 <= i < n - 1 && (#[trigger] copiers[i]).source is Some
                        && copiers[i].snapshots@.len() > 0 && command == copy_command_spec(
                        i as usize,
                        copiers[i].source->0,
                    );
                assert(copiers[i].source is Some);
            }
            if copied(copiers, n, command) && !copied(copiers, n - 1, command) {
                let i = choose|i: int|
                    0 <= i < n && (#[trigger] copiers[i]).source is Some
                        && copiers[i].snapshots@.len() > 0 && command == copy_command_spec(
                        i as usize,
                        copiers[i].source->0,
                    );
                if i < n - 1 {
                    assert(copied(copiers, n - 1, command));
                }
                assert(all[before.len() as int] == command);
            }
            if all.contains(command) && !before.contains(command) {
                let k = choose|k: int| 0 <= k < all.len() && all[k] == command;
                if k < before.len() {
                    assert(before[k] == command);
                }
                assert(copiers[n - 1].source is Some);
            }
        }
        assert forall|i: int| 0 <= i < all.len() implies (#[trigger] all[i]).copier < n by {
            if i < before.len() {
                assert(all[i] == before[i]);
            }
        }
        assert forall|i: int, j: int| 0 <= i < j < all.len() implies (#[trigger] all[i]).copier < (
        #[trigger] all[j]).copier by {
            assert(all[i] == before[i]);
            if j < before.len() {
                assert(all[j] == before[j]);
            }
        }
    }
}

/// No copy is made for a capture with a snapshot of another frame among those of a texture that is
/// there: recording then fails.
pub proof fn law_foreign_snapshots_stop_the_recording(
    submission: CaptureFrameSubmission,
    id: CaptureFrameId,
    copiers: Seq<CopierFrame>,
    n: int,
    i: int,
    k: int,
)
    requires
        0 <= i < n <= copiers.len(),
        copiers[i].source is Some,
        0 <= k < copiers[i].snapshots@.len(),
        copiers[i].snapshots@[k] is Some,
        copiers[i].snapshots@[k] != Some(id),
    ensures
        copies_upto(submission, Some(id), copiers, n) is Err,
    decreases n,
{
    if i == n - 1 {
        law_the_first_foreign_snapshot_is_named(copiers[i].snapshots@, id);
    } else {
        law_foreign_snapshots_stop_the_recording(submission, id, copiers, n - 1, i, k);
    }
}

/// While nothing is captured, snapshots of whatever frame are copied without a fault, and nothing
/// begins.
pub proof fn law_nothing_is_claimed_without_a_capture(
    submission: CaptureFrameSubmission,
    copiers: Seq<CopierFrame>,
    n: int,
)
    requires
        0 <= n <= copiers.len(),
    ensures
        copies_upto(submission, None, copiers, n) is Ok,
        copies_upto(submission, None, copiers, n)->Ok_0.0 == submission,
        active_frame(CaptureFrameSubmission(None)) is None,
        submission.0 matches Some(active) ==> active_frame(submission) == Some(active.id),
    decreases n,
{
    if n > 0 {
        law_nothing_is_claimed_without_a_capture(submission, copiers, n - 1);
    }
}

/// What a successful recording has claimed for a capture is what it had before and the channel of
/// every copier whose texture is there and whose handlers took a snapshot of that frame.
pub proof fn law_which_channels_are_claimed(
    begun: CaptureFrameSubmission,
    id: CaptureFrameId,
    copiers: Seq<CopierFrame>,
    n: int,
    kind: CapturedFrameKind,
)
    requires
        begun.0 is Some,
        begun.0->0.id == id,
        0 <= n <= copiers.len(),
        copies_upto(begun, Some(id), copiers, n) is Ok,
    ensures
        ({
            let end = copies_upto(begun, Some(id), copiers, n)->Ok_0.0;
            &&& end.0 is Some
            &&& end.0->0.id == id
            &&& end.0->0.required == begun.0->0.required
            &&& end.0->0.submitted.has(kind) <==> begun.0->0.submitted.has(kind) || exists|i: int|
                0 <= i < n && (#[trigger] copiers[i]).source is Some && copiers[i].kind == kind
                    && copiers[i].snapshots@.contains(Some(id))
            &&& forall|i: int|
                0 <= i < n && (#[trigger] copiers[i]).source is Some
                    && copiers[i].snapshots@.contains(Some(id)) ==> begun.0->0.required.has(
                    copiers[i].kind,
                )
        }),
    decreases n,
{
    if n > 0 {
        law_which_channels_are_claimed(begun, id, copiers, n - 1, kind);
        let before = copies_upto(begun, Some(id), copiers, n - 1)->Ok_0.0;
        let last = copiers[n - 1];
        if exists|i: int|
            0 <= i < n - 1 && (#[trigger] copiers[i]).source is Some && copiers[i].kind == kind
                && copiers[i].snapshots@.contains(Some(id)) {
            let i = choose|i: int|
                0 <= i < n - 1 && (#[trigger] copiers[i]).source is Some && copiers[i].kind == kind
                    && copiers[i].snapshots@.contains(Some(id));
            assert(copiers[i].source is Some);
        }
    }
}

/// A fault leaves the capture as the copiers before the faulty one left it, and whatever copiers come
/// after it change nothing of that.
pub proof fn law_a_fault_leaves_what_came_before(
    submission: CaptureFrameSubmission,
    active: Option<CaptureFrameId>,
    copiers: Seq<CopierFrame>,
    k: int,
    n: int,
)
    requires
        0 <= k < n <= copiers.len(),
        copies_upto(submission, active, copiers, k) is Ok,
        copies_upto(submission, active, copiers, k + 1) is Err,
    ensures
        copies_upto(submission, active, copiers, n) == copies_upto(
            submission,
            active,
            copiers,
            k + 1,
        ),
        submission_left(submission, active, copiers, n) == copies_upto(
            submission,
            active,
            copiers,
            k,
        )->Ok_0.0,
{
    lemma_fault_stays(submission, active, copiers, k + 1, n);
    reveal_with_fuel(submission_left, 2);
}

/// A buffer from the pool keeps the bytes that it was given back with, and is zero behind them; a new
/// one is zero altogether.
pub proof fn law_pooled_buffers_keep_their_bytes(pool: Seq<Vec<u8>>, len: int, i: int)
    requires
        0 <= i < len,
    ensures
        acquired_bytes(pool, len).len() == len,
        pool.len() == 0 ==> acquired_bytes(pool, len)[i] == 0,
        pool.len() > 0 && i < pool[pool.len() - 1]@.len() ==> acquired_bytes(pool, len)[i]
            == pool[pool.len() - 1]@[i],
        pool.len() > 0 && i >= pool[pool.len() - 1]@.len() ==> acquired_bytes(pool, len)[i] == 0,
{
}

/// Every copier with a copy waiting hands out the one that has waited longest, and no other.
pub proof fn law_the_longest_waiting_copies_are_received<B, S>(
    copiers: Seq<ImageCopier<B, S>>,
    n: int,
    i: usize,
    readback: PendingReadback<B, S>,
)
    requires
        0 <= n <= copiers.len() <= usize::MAX,
    ensures
        received(copiers, n).contains((i, readback)) <==> i < n && copiers[i as int].queue@.len() > 0
            && readback == copiers[i as int].queue@[0],
    decreases n,
{
    if n > 0 {
        law_the_longest_waiting_copies_are_received(copiers, n - 1, i, readback);
        let before = received(copiers, n - 1);
        let all = received(copiers, n);
        let wanted = (i, readback);
        if before.contains(wanted) {
            let k = choose|k: int| 0 <= k < before.len() && before[k] == wanted;
            assert(all[k] == wanted);
        }
        if i == n - 1 && copiers[i as int].queue@.len() > 0 && readback
            == copiers[i as int].queue@[0] {
            assert(all[before.len() as int] == wanted);
        }
        if all.contains(wanted) {
            let k = choose|k: int| 0 <= k < all.len() && all[k] == wanted;
            if k < before.len() {
                assert(before[k] == wanted);
            }
        }
    }
}

/// The depth that goes with a color capture has its size and is captured as depth. It is copied from
/// the view of the camera before it is read, into the texture that is read, and it does not expose a
/// configuration of its own.
pub proof fn law_depth_goes_with_its_color(
    color: CaptureConfig,
    camera_order: isize,
    target: u64,
)
    ensures
        ({
            let depth = CaptureBundle::depth_config(color);
            let nodes = CaptureBundle::depth_nodes(depth, camera_order, target);
            &&& depth.width == color.width
            &&& depth.height == color.height
            &&& depth.texture_format is Depth32Float
            &&& depth.frame_kind is Depth32F
            &&& nodes.len() == 2
            &&& nodes[0] matches CapturePluginNode::ViewCopy { width, height, camera_order: order, target: into }
                && width == color.width && height == color.height && order == camera_order && into
                == target
            &&& nodes[1] matches CapturePluginNode::Camera(plugin) && plugin.handle == target
                && plugin.config == depth && !plugin.expose_config_resource
        }),
{
}

/// Receiving a copy only shortens the queue: every copy that waited behind it moves up by one, and the
/// copier keeps its image, its configuration and what it has to spare.
pub proof fn law_receiving_only_shortens_the_queue<B, S>(
    before: ImageCopier<B, S>,
    after: ImageCopier<B, S>,
    k: int,
)
    requires
        without_longest_waiting(before, after),
    ensures
        after.config == before.config,
        after.src_image == before.src_image,
        after.free_buffers == before.free_buffers,
        after.free_frames == before.free_frames,
        before.queue@.len() == 0 ==> after.queue@.len() == 0,
        before.queue@.len() > 0 ==> after.queue@.len() == before.queue@.len() - 1,
        0 <= k < after.queue@.len() ==> after.queue@[k] == before.queue@[k + 1],
{
}

} // verus!
