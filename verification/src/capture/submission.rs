//! The bookkeeping of one synchronized capture: every required channel is claimed exactly once.
use crate::capture::frame::CapturedFrameKind;
use vstd::prelude::*;

verus! {

/// The number of a captured frame.
#[derive(Clone, Copy, Debug, PartialEq, Eq, Hash, PartialOrd, Ord, Structural)]
pub struct CaptureFrameId(pub u64);

impl CaptureFrameId {
    pub fn new(value: u64) -> (r: Self)
        ensures
            r == CaptureFrameId(value),
    {
        CaptureFrameId(value)
    }

    pub fn get(self) -> (r: u64)
        ensures
            r == self.0,
    {
        self.0
    }
}

/// A set of capture channels.
#[derive(Clone, Copy, Debug, PartialEq, Eq, Structural)]
pub struct CaptureChannels {
    pub rgb: bool,
    pub depth: bool,
    pub r32_uint: bool,
}

impl Default for CaptureChannels {
    /// No channel.
    fn default() -> (r: Self)
        ensures
            forall|kind: CapturedFrameKind| !#[trigger] r.has(kind),
    {
        CaptureChannels { rgb: false, depth: false, r32_uint: false }
    }
}

impl CaptureChannels {
    /// The color channel.
    pub fn rgb() -> (r: Self)
        ensures
            r == (CaptureChannels { rgb: true, depth: false, r32_uint: false }),
    {
        CaptureChannels { rgb: true, depth: false, r32_uint: false }
    }

    /// The depth channel.
    pub fn depth() -> (r: Self)
        ensures
            r == (CaptureChannels { rgb: false, depth: true, r32_uint: false }),
    {
        CaptureChannels { rgb: false, depth: true, r32_uint: false }
    }

    /// The segmentation channel.
    pub fn r32_uint() -> (r: Self)
        ensures
            r == (CaptureChannels { rgb: false, depth: false, r32_uint: true }),
    {
        CaptureChannels { rgb: false, depth: false, r32_uint: true }
    }

    /// Every channel.
    pub fn all() -> (r: Self)
        ensures
            r == (CaptureChannels { rgb: true, depth: true, r32_uint: true }),
    {
        CaptureChannels { rgb: true, depth: true, r32_uint: true }
    }

    /// Whether the channel that carries frames of `kind` is in the set.
    pub open spec fn has(self, kind: CapturedFrameKind) -> bool {
        match kind {
            CapturedFrameKind::Rgb8 => self.rgb,
            CapturedFrameKind::Depth32F => self.depth,
            CapturedFrameKind::R32Uint => self.r32_uint,
        }
    }

    /// The empty set.
    pub open spec fn none() -> Self {
        CaptureChannels { rgb: false, depth: false, r32_uint: false }
    }

    /// The set with the channel of `kind` added.
    pub open spec fn with(self, kind: CapturedFrameKind) -> Self {
        CaptureChannels {
            rgb: self.rgb || kind is Rgb8,
            depth: self.depth || kind is Depth32F,
            r32_uint: self.r32_uint || kind is R32Uint,
        }
    }

    /// Whether every channel of `other` is in the set.
    pub open spec fn covers(self, other: Self) -> bool {
        forall|kind: CapturedFrameKind| #[trigger] other.has(kind) ==> self.has(kind)
    }

    /// The channel that carries frames of `kind`.
    pub fn for_kind(kind: CapturedFrameKind) -> (r: Self)
        ensures
            r == Self::none().with(kind),
    {
        match kind {
            CapturedFrameKind::Rgb8 => Self::rgb(),
            CapturedFrameKind::Depth32F => Self::depth(),
            CapturedFrameKind::R32Uint => Self::r32_uint(),
        }
    }

    /// Whether every channel of `other` is in the set.
    pub fn contains(self, other: Self) -> (r: bool)
        ensures
            r == self.covers(other),
    {
        proof {
            assert(other.has(CapturedFrameKind::Rgb8) == other.rgb);
            assert(other.has(CapturedFrameKind::Depth32F) == other.depth);
            assert(other.has(CapturedFrameKind::R32Uint) == other.r32_uint);
        }
        (!other.rgb || self.rgb) && (!other.depth || self.depth) && (!other.r32_uint
            || self.r32_uint)
    }

    /// Adds the channels of `other`.
    pub fn insert(&mut self, other: Self)
        ensures
            forall|kind: CapturedFrameKind| #[trigger]
                final(self).has(kind) == (old(self).has(kind) || other.has(kind)),
    {
        self.rgb = self.rgb || other.rgb;
        self.depth = self.depth || other.depth;
        self.r32_uint = self.r32_uint || other.r32_uint;
    }
}

/// A capture that has begun: what it needs and what it has got so far.
#[derive(Clone, Copy, Debug, PartialEq, Eq, Structural)]
pub struct CaptureSubmission {
    pub id: CaptureFrameId,
    pub required: CaptureChannels,
    pub submitted: CaptureChannels,
}

/// Why a step of a capture was refused.
#[derive(Clone, Copy, Debug, PartialEq, Eq, Structural)]
pub enum CaptureSubmissionError {
    AlreadyActive { active: CaptureFrameId, requested: CaptureFrameId },
    NoActiveSubmission,
    WrongFrame { active: CaptureFrameId, received: CaptureFrameId },
    UnexpectedChannel { id: CaptureFrameId, kind: CapturedFrameKind },
    DuplicateChannel { id: CaptureFrameId, kind: CapturedFrameKind },
    MissingChannels {
        id: CaptureFrameId,
        required: CaptureChannels,
        submitted: CaptureChannels,
    },
}

/// The capture in progress, if there is one.
#[derive(Clone, Copy, Debug, PartialEq, Eq, Structural)]
pub struct CaptureFrameSubmission(pub Option<CaptureSubmission>);

impl Default for CaptureFrameSubmission {
    /// Nothing in progress.
    fn default() -> (r: Self)
        ensures
            r == CaptureFrameSubmission(None),
    {
        CaptureFrameSubmission(None)
    }
}

/// Why a claim of the channel of `kind` for frame `id` is refused, if it is.
pub open spec fn claim_error(
    active: Option<CaptureSubmission>,
    id: CaptureFrameId,
    kind: CapturedFrameKind,
) -> Option<CaptureSubmissionError> {
    match active {
        None => Some(CaptureSubmissionError::NoActiveSubmission),
        Some(s) => if s.id != id {
            Some(CaptureSubmissionError::WrongFrame { active: s.id, received: id })
        } else if !s.required.has(kind) {
            Some(CaptureSubmissionError::UnexpectedChannel { id, kind })
        } else if s.submitted.has(kind) {
            Some(CaptureSubmissionError::DuplicateChannel { id, kind })
        } else {
            None
        },
    }
}

/// Why frame `id` cannot be finished, if it cannot.
pub open spec fn finish_error(
    active: Option<CaptureSubmission>,
    id: CaptureFrameId,
) -> Option<CaptureSubmissionError> {
    match active {
        None => Some(CaptureSubmissionError::NoActiveSubmission),
        Some(s) => if s.id != id {
            Some(CaptureSubmissionError::WrongFrame { active: s.id, received: id })
        } else if !s.submitted.covers(s.required) {
            Some(
                CaptureSubmissionError::MissingChannels {
                    id,
                    required: s.required,
                    submitted: s.submitted,
                },
            )
        } else {
            None
        },
    }
}

impl CaptureFrameSubmission {
    /// The capture with one more channel claimed.
    pub open spec fn claimed(self, kind: CapturedFrameKind) -> Self {
        CaptureFrameSubmission(
            Some(CaptureSubmission { submitted: self.0->0.submitted.with(kind), ..self.0->0 }),
        )
    }

    /// Starts a capture. A capture that is already in progress stays.
    pub fn begin(&mut self, id: CaptureFrameId, required: CaptureChannels) -> (r: Result<
        (),
        CaptureSubmissionError,
    >)
        ensures
            match old(self).0 {
                Some(active) => {
                    &&& r == Err::<(), CaptureSubmissionError>(
                        CaptureSubmissionError::AlreadyActive { active: active.id, requested: id },
                    )
                    &&& *final(self) == *old(self)
                },
                None => {
                    &&& r == Ok::<(), CaptureSubmissionError>(())
                    &&& final(self).0 == Some(
                        CaptureSubmission { id, required, submitted: CaptureChannels::none() },
                    )
                },
            },
    {
        if let Some(active) = self.0 {
            return Err(
                CaptureSubmissionError::AlreadyActive { active: active.id, requested: id },
            );
        }
        let submitted: CaptureChannels = CaptureChannels {
            rgb: false,
            depth: false,
            r32_uint: false,
        };
        self.0 = Some(CaptureSubmission { id, required, submitted });
        Ok(())
    }

    /// The frame that is being captured.
    pub fn active_id(&self) -> (r: Option<CaptureFrameId>)
        ensures
            r == (match self.0 {
                Some(active) => Some(active.id),
                None => None,
            }),
    {
        match self.0 {
            Some(active) => Some(active.id),
            None => None,
        }
    }

    /// Hands in the channel of `kind` for frame `id`. A refused claim changes nothing.
    pub fn claim(&mut self, id: CaptureFrameId, kind: CapturedFrameKind) -> (r: Result<
        (),
        CaptureSubmissionError,
    >)
        ensures
            match claim_error(old(self).0, id, kind) {
                Some(error) => r == Err::<(), CaptureSubmissionError>(error) && *final(self) == *old(
                    self,
                ),
                None => r == Ok::<(), CaptureSubmissionError>(()) && *final(self) == old(
                    self,
                ).claimed(kind),
            },
    {
        let mut active: CaptureSubmission = match self.0 {
            Some(active) => active,
            None => return Err(CaptureSubmissionError::NoActiveSubmission),
        };
        if active.id.0 != id.0 {
            return Err(CaptureSubmissionError::WrongFrame { active: active.id, received: id });
        }
        let channel: CaptureChannels = CaptureChannels::for_kind(kind);
        proof {
            assert(channel.has(kind));
            assert forall|other: CapturedFrameKind| #[trigger] channel.has(other) implies other
                == kind by {}
        }
        if !active.required.contains(channel) {
            return Err(CaptureSubmissionError::UnexpectedChannel { id, kind });
        }
        if active.submitted.contains(channel) {
            return Err(CaptureSubmissionError::DuplicateChannel { id, kind });
        }
        let ghost before = active.submitted;
        active.submitted.insert(channel);
        proof {
            let after = active.submitted;
            assert(after.has(CapturedFrameKind::Rgb8) == before.with(kind).rgb);
            assert(after.has(CapturedFrameKind::Depth32F) == before.with(kind).depth);
            assert(after.has(CapturedFrameKind::R32Uint) == before.with(kind).r32_uint);
        }
        self.0 = Some(active);
        Ok(())
    }

    /// Ends the capture. Whether or not it was the right one and complete, nothing is in progress
    /// afterwards.
    pub fn finish(&mut self, id: CaptureFrameId) -> (r: Result<(), CaptureSubmissionError>)
        ensures
            *final(self) == CaptureFrameSubmission(None),
            match finish_error(old(self).0, id) {
                Some(error) => r == Err::<(), CaptureSubmissionError>(error),
                None => r == Ok::<(), CaptureSubmissionError>(()),
            },
    {
        let active: CaptureSubmission = match self.0.take() {
            Some(active) => active,
            None => return Err(CaptureSubmissionError::NoActiveSubmission),
        };
        if active.id.0 != id.0 {
            return Err(CaptureSubmissionError::WrongFrame { active: active.id, received: id });
        }
        if !active.submitted.contains(active.required) {
            return Err(
                CaptureSubmissionError::MissingChannels {
                    id,
                    required: active.required,
                    submitted: active.submitted,
                },
            );
        }
        Ok(())
    }
}

/// The state after claiming `kinds` one after the other, or `None` once a claim was refused.
pub open spec fn claim_all(
    submission: CaptureFrameSubmission,
    id: CaptureFrameId,
    kinds: Seq<CapturedFrameKind>,
) -> Option<CaptureFrameSubmission>
    decreases kinds.len(),
{
    if kinds.len() == 0 {
        Some(submission)
    } else {
        match claim_all(submission, id, kinds.drop_last()) {
            Some(s) => if claim_error(s.0, id, kinds.last()) is None {
                Some(s.claimed(kinds.last()))
            } else {
                None
            },
            None => None,
        }
    }
}

/// A capture that has just begun accepts its channels in any order: claiming a list of kinds
/// succeeds exactly when each is required and none comes twice, and the capture can then be
/// finished exactly when every required channel is on the list.
pub proof fn law_channels_in_any_order(
    id: CaptureFrameId,
    required: CaptureChannels,
    kinds: Seq<CapturedFrameKind>,
)
    ensures
        ({
            let begun = CaptureFrameSubmission(
                Some(CaptureSubmission { id, required, submitted: CaptureChannels::none() }),
            );
            let claimed = claim_all(begun, id, kinds);
            &&& claimed is Some <==> kinds.no_duplicates() && forall|i: int|
                0 <= i < kinds.len() ==> required.has(#[trigger] kinds[i])
            &&& claimed is Some ==> (finish_error((claimed->0).0, id) is None <==> forall|
                kind: CapturedFrameKind,
            | #[trigger] required.has(kind) ==> kinds.contains(kind))
        }),
{
    lemma_claim_all(id, required, kinds);
}

proof fn lemma_claim_all(
    id: CaptureFrameId,
    required: CaptureChannels,
    kinds: Seq<CapturedFrameKind>,
)
    ensures
        ({
            let begun = CaptureFrameSubmission(
                Some(CaptureSubmission { id, required, submitted: CaptureChannels::none() }),
            );
            let claimed = claim_all(begun, id, kinds);
            &&& claimed is Some <==> kinds.no_duplicates() && forall|i: int|
                0 <= i < kinds.len() ==> required.has(#[trigger] kinds[i])
            &&& claimed is Some ==> {
                &&& (claimed->0).0 is Some
                &&& (claimed->0).0->0.id == id
                &&& (claimed->0).0->0.required == required
                &&& forall|kind: CapturedFrameKind| #[trigger]
                    (claimed->0).0->0.submitted.has(kind) <==> kinds.contains(kind)
            }
        }),
    decreases kinds.len(),
{
    let begun = CaptureFrameSubmission(
        Some(CaptureSubmission { id, required, submitted: CaptureChannels::none() }),
    );
    if kinds.len() > 0 {
        let rest = kinds.drop_last();
        let last = kinds.last();
        lemma_claim_all(id, required, rest);
        assert(kinds =~= rest.push(last));
        assert forall|kind: CapturedFrameKind| #[trigger] kinds.contains(kind) <==> rest.contains(
            kind,
        ) || kind == last by {
            if rest.contains(kind) {
                let i = choose|i: int| 0 <= i < rest.len() && rest[i] == kind;
                assert(kinds[i] == kind);
            }
            if kind == last {
                assert(kinds[kinds.len() - 1] == kind);
            }
            if kinds.contains(kind) && kind != last {
                let i = choose|i: int| 0 <= i < kinds.len() && kinds[i] == kind;
                assert(rest[i] == kind);
            }
        }
        if kinds.no_duplicates() {
            assert(rest.no_duplicates());
            assert(!rest.contains(last)) by {
                if rest.contains(last) {
                    let i = choose|i: int| 0 <= i < rest.len() && rest[i] == last;
                    assert(kinds[i] == kinds[kinds.len() - 1]);
                }
            }
        }
        if rest.no_duplicates() && !rest.contains(last) {
            assert(kinds.no_duplicates()) by {
                assert forall|i: int, j: int|
                    0 <= i < kinds.len() && 0 <= j < kinds.len() && i != j implies kinds[i]
                    != kinds[j] by {
                    if i < rest.len() && j < rest.len() {
                        assert(rest[i] != rest[j]);
                    } else if i < rest.len() {
                        assert(rest.contains(rest[i]));
                    } else {
                        assert(rest.contains(rest[j]));
                    }
                }
            }
        }
        if forall|i: int| 0 <= i < kinds.len() ==> required.has(#[trigger] kinds[i]) {
            assert forall|i: int| 0 <= i < rest.len() implies required.has(#[trigger] rest[i]) by {
                assert(kinds[i] == rest[i]);
            }
            assert(required.has(kinds[kinds.len() - 1]));
        }
        if required.has(last) && forall|i: int|
            0 <= i < rest.len() ==> required.has(#[trigger] rest[i]) {
            assert forall|i: int| 0 <= i < kinds.len() implies required.has(#[trigger] kinds[i]) by {
                if i < rest.len() {
                    assert(kinds[i] == rest[i]);
                }
            }
        }
        if claim_all(begun, id, rest) is Some {
            let before = (claim_all(begun, id, rest)->0).0->0.submitted;
            assert forall|kind: CapturedFrameKind| #[trigger]
                before.with(last).has(kind) <==> before.has(kind) || kind == last by {}
        }
    } else {
        assert(kinds.no_duplicates());
    }
}

/// Color, depth and segmentation have a channel each; adding one leaves the others as they were, and
/// a set covers another exactly if it has every channel of it.
pub proof fn law_channels_by_kind(
    channels: CaptureChannels,
    other: CaptureChannels,
    kind: CapturedFrameKind,
)
    ensures
        channels.has(CapturedFrameKind::Rgb8) == channels.rgb,
        channels.has(CapturedFrameKind::Depth32F) == channels.depth,
        channels.has(CapturedFrameKind::R32Uint) == channels.r32_uint,
        channels.with(CapturedFrameKind::Rgb8) == (CaptureChannels { rgb: true, ..channels }),
        channels.with(CapturedFrameKind::Depth32F) == (CaptureChannels { depth: true, ..channels }),
        channels.with(CapturedFrameKind::R32Uint) == (CaptureChannels {
            r32_uint: true,
            ..channels
        }),
        channels.covers(other) <==> (other.rgb ==> channels.rgb) && (other.depth ==> channels.depth)
            && (other.r32_uint ==> channels.r32_uint),
        CaptureChannels::none() == (CaptureChannels { rgb: false, depth: false, r32_uint: false }),
{
    if channels.covers(other) {
        assert(other.has(CapturedFrameKind::Rgb8) ==> channels.has(CapturedFrameKind::Rgb8));
        assert(other.has(CapturedFrameKind::Depth32F) ==> channels.has(
            CapturedFrameKind::Depth32F,
        ));
        assert(other.has(CapturedFrameKind::R32Uint) ==> channels.has(CapturedFrameKind::R32Uint));
    }
}

/// A claim is refused without a capture, for another frame than the one in progress, for a channel
/// that is not required, and for one that is there already, in that order. An accepted one adds its
/// channel and changes nothing else.
pub proof fn law_why_claims_are_refused(
    submission: CaptureFrameSubmission,
    id: CaptureFrameId,
    kind: CapturedFrameKind,
)
    ensures
        submission.0 is None ==> claim_error(submission.0, id, kind) == Some(
            CaptureSubmissionError::NoActiveSubmission,
        ),
        submission.0 matches Some(active) ==> {
            let refused = claim_error(submission.0, id, kind);
            &&& active.id != id ==> refused == Some(
                CaptureSubmissionError::WrongFrame { active: active.id, received: id },
            )
            &&& active.id == id && !active.required.has(kind) ==> refused == Some(
                CaptureSubmissionError::UnexpectedChannel { id, kind },
            )
            &&& active.id == id && active.required.has(kind) && active.submitted.has(kind)
                ==> refused == Some(CaptureSubmissionError::DuplicateChannel { id, kind })
            &&& active.id == id && active.required.has(kind) && !active.submitted.has(kind)
                ==> refused is None
            &&& submission.claimed(kind).0 is Some
            &&& submission.claimed(kind).0->0.id == active.id
            &&& submission.claimed(kind).0->0.required == active.required
            &&& forall|other: CapturedFrameKind| #[trigger]
                submission.claimed(kind).0->0.submitted.has(other) <==> active.submitted.has(other)
                    || other == kind
        },
{
}

/// A capture cannot be finished without one, for another frame, and while a required channel is
/// missing; what it then says of the channels is what it has.
pub proof fn law_why_captures_are_not_finished(
    submission: CaptureFrameSubmission,
    id: CaptureFrameId,
    kind: CapturedFrameKind,
)
    ensures
        submission.0 is None ==> finish_error(submission.0, id) == Some(
            CaptureSubmissionError::NoActiveSubmission,
        ),
        submission.0 matches Some(active) ==> {
            let refused = finish_error(submission.0, id);
            &&& active.id != id ==> refused == Some(
                CaptureSubmissionError::WrongFrame { active: active.id, received: id },
            )
            &&& active.id == id && active.required.has(kind) && !active.submitted.has(kind)
                ==> refused == Some(
                CaptureSubmissionError::MissingChannels {
                    id,
                    required: active.required,
                    submitted: active.submitted,
                },
            )
            &&& active.id == id && (forall|other: CapturedFrameKind| #[trigger]
                active.required.has(other) ==> active.submitted.has(other)) ==> refused is None
        },
{
}

} // verus!
