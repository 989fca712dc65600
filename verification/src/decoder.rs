//! The decode session of one file: which elementary track is being decoded,
//! what becomes of each packet, and the buffers that carry samples over
//! from one conversion step to the next.

use crate::pcm::{paired, planes_fit, PcmChunk, SourceAudio, CANONICAL_RATE};
use vstd::prelude::*;

verus! {

/// How many frames the rate converter is set up to take in one step.
pub const CONVERTER_CHUNK_FRAMES: usize = 1024;

/// Into how many parts the rate converter is asked to split a step.
pub const CONVERTER_SUB_CHUNKS: usize = 2;

/// How many channels the rate converter works on.
pub const CONVERTER_CHANNELS: usize = 2;

/// The samples waiting to be converted to the canonical rate: two channels
/// of equal length, oldest sample first.
pub struct RollingInput<F> {
    left: Vec<F>,
    right: Vec<F>,
}

impl<F> RollingInput<F> {
    #[verifier::type_invariant]
    spec fn well_formed(&self) -> bool {
        self.left@.len() == self.right@.len()
    }

    /// The waiting samples of the left channel.
    pub closed spec fn left_samples(&self) -> Seq<F> {
        self.left@
    }

    /// The waiting samples of the right channel.
    pub closed spec fn right_samples(&self) -> Seq<F> {
        self.right@
    }
}

impl<F: Copy> RollingInput<F> {
    /// Buffers in which nothing waits.
    pub fn new() -> (inputs: RollingInput<F>)
        ensures
            inputs.left_samples() == Seq::<F>::empty(),
            inputs.right_samples() == Seq::<F>::empty(),
    {
        RollingInput { left: Vec::new(), right: Vec::new() }
    }

    /// How many frames wait.
    pub fn frames(&self) -> (n: usize)
        ensures
            n == self.left_samples().len(),
            n == self.right_samples().len(),
    {
        proof {
            use_type_invariant(self);
        }
        self.left.len()
    }

    /// The waiting samples of the left channel.
    pub fn left(&self) -> (plane: &Vec<F>)
        ensures
            plane@ == self.left_samples(),
    {
        &self.left
    }

    /// The waiting samples of the right channel.
    pub fn right(&self) -> (plane: &Vec<F>)
        ensures
            plane@ == self.right_samples(),
    {
        &self.right
    }

    /// Puts the samples of `input` behind those that wait: its first
    /// channel on the left, and on the right its right channel, or the first
    /// again where the layout has none.
    pub fn extend(&mut self, input: &SourceAudio<F>)
        ensures
            final(self).left_samples() == old(self).left_samples() + input.left_source(),
            final(self).right_samples() == old(self).right_samples() + input.right_source(),
    {
        proof {
            use_type_invariant(&*self);
        }
        let mut taken: RollingInput<F> = RollingInput::new();
        core::mem::swap(self, &mut taken);
        let mut left = taken.left;
        let mut right = taken.right;
        let from_left = input.left();
        let from_right = input.right();
        let ghost left0 = left@;
        let ghost right0 = right@;
        let n = input.frames();
        let mut i: usize = 0;
        while i < n
            invariant
                i <= n,
                n == from_left@.len(),
                n == from_right@.len(),
                left@ == left0 + from_left@.take(i as int),
                right@ == right0 + from_right@.take(i as int),
            decreases n - i,
        {
            let l = from_left[i];
            let r = from_right[i];
            proof {
                assert(left0 + from_left@.take(i as int + 1) =~= (left0 + from_left@.take(
                    i as int,
                )).push(l));
                assert(right0 + from_right@.take(i as int + 1) =~= (right0 + from_right@.take(
                    i as int,
                )).push(r));
            }
            left.push(l);
            right.push(r);
            i += 1;
        }
        proof {
            assert(from_left@.take(n as int) =~= from_left@);
            assert(from_right@.take(n as int) =~= from_right@);
        }
        *self = RollingInput { left, right };
    }

    /// Drops the oldest `frames` frames, or all where fewer wait.
    pub fn drop_front(&mut self, frames: usize)
        ensures
            final(self).left_samples() == old(self).left_samples().skip(
                consumed_frames(frames, old(self).left_samples().len()),
            ),
            final(self).right_samples() == old(self).right_samples().skip(
                consumed_frames(frames, old(self).right_samples().len()),
            ),
    {
        proof {
            use_type_invariant(&*self);
        }
        let mut taken: RollingInput<F> = RollingInput::new();
        core::mem::swap(self, &mut taken);
        let mut left = taken.left;
        let mut right = taken.right;
        let ghost left0 = left@;
        let ghost right0 = right@;
        let at = if frames < left.len() {
            frames
        } else {
            left.len()
        };
        let rest_left = left.split_off(at);
        let rest_right = right.split_off(at);
        proof {
            assert(rest_left@ =~= left0.skip(at as int));
            assert(rest_right@ =~= right0.skip(at as int));
        }
        *self = RollingInput { left: rest_left, right: rest_right };
    }
}

/// How many of `waiting` frames leave when the converter reports `frames` as
/// consumed.
pub open spec fn consumed_frames(frames: usize, waiting: nat) -> int {
    if frames < waiting {
        frames as int
    } else {
        waiting as int
    }
}

/// The first `frames` samples of a plane, or all of it where it is shorter.
pub open spec fn first_frames(plane: Seq<i16>, frames: usize) -> Seq<i16> {
    if frames < plane.len() {
        plane.take(frames as int)
    } else {
        plane
    }
}

/// How the samples of one elementary track reach the canonical rate.
pub enum ResamplingCopy<F> {
    /// The track is at the canonical rate already: frames pass one for one.
    Matched,
    /// The track is at another rate: samples wait in `inputs` until a
    /// conversion step takes them.
    Resample { inputs: RollingInput<F> },
}

/// What a `ResamplingCopy` holds.
pub enum ResamplingView<F> {
    Matched,
    Resample { left: Seq<F>, right: Seq<F> },
}

impl<F> View for ResamplingCopy<F> {
    type V = ResamplingView<F>;

    open spec fn view(&self) -> ResamplingView<F> {
        match *self {
            ResamplingCopy::Matched => ResamplingView::Matched,
            ResamplingCopy::Resample { inputs } => ResamplingView::Resample {
                left: inputs.left_samples(),
                right: inputs.right_samples(),
            },
        }
    }
}

/// The state in which a track of the given rate starts, or nothing where no
/// converter exists for that rate.
pub open spec fn fresh_resampling<F>(rate: u32) -> Option<ResamplingView<F>> {
    if rate == CANONICAL_RATE {
        Some(ResamplingView::Matched)
    } else if rate == 0 {
        None
    } else {
        Some(ResamplingView::Resample { left: Seq::empty(), right: Seq::empty() })
    }
}

/// What `view` holds once the samples of `input` have been appended.
pub open spec fn appended<F>(view: ResamplingView<F>, input: SourceAudio<F>) -> ResamplingView<F> {
    match view {
        ResamplingView::Matched => ResamplingView::Matched,
        ResamplingView::Resample { left, right } => ResamplingView::Resample {
            left: left + input.left_source(),
            right: right + input.right_source(),
        },
    }
}

/// What `view` holds once a conversion step has consumed `frames` frames.
pub open spec fn consumed<F>(view: ResamplingView<F>, frames: usize) -> ResamplingView<F> {
    match view {
        ResamplingView::Matched => ResamplingView::Matched,
        ResamplingView::Resample { left, right } => ResamplingView::Resample {
            left: left.skip(consumed_frames(frames, left.len())),
            right: right.skip(consumed_frames(frames, right.len())),
        },
    }
}

impl<F: Copy> ResamplingCopy<F> {
    /// The state in which a track of the given rate starts. A track at the
    /// canonical rate needs no conversion. For a rate of zero no converter
    /// can be made, and there is no state.
    pub fn new(rate: u32) -> (state: Option<ResamplingCopy<F>>)
        ensures
            state is Some <==> fresh_resampling::<F>(rate) is Some,
            state matches Some(s) ==> Some(s@) == fresh_resampling::<F>(rate),
    {
        if rate == CANONICAL_RATE {
            Some(ResamplingCopy::Matched)
        } else if rate == 0 {
            None
        } else {
            Some(ResamplingCopy::Resample { inputs: RollingInput::new() })
        }
    }

    /// Whether frames pass without conversion.
    pub fn is_matched(&self) -> (matched: bool)
        ensures
            matched == (self@ is Matched),
    {
        match self {
            ResamplingCopy::Matched => true,
            ResamplingCopy::Resample { .. } => false,
        }
    }

    /// Puts the samples of a decoded buffer behind those that wait for
    /// conversion. Where frames pass without conversion nothing waits, and
    /// nothing changes.
    pub fn append(&mut self, input: &SourceAudio<F>)
        ensures
            final(self)@ == appended(old(self)@, *input),
    {
        match self {
            ResamplingCopy::Matched => {},
            ResamplingCopy::Resample { inputs } => {
                inputs.extend(input);
            },
        }
    }

    /// Drops the frames that a conversion step has consumed; what is left
    /// waits for the next step.
    pub fn consume(&mut self, frames: usize)
        ensures
            final(self)@ == consumed(old(self)@, frames),
    {
        match self {
            ResamplingCopy::Matched => {},
            ResamplingCopy::Resample { inputs } => {
                inputs.drop_front(frames);
            },
        }
    }

    /// Ends a conversion step that took `taken` frames in and wrote
    /// `written` frames to each of `left` and `right`: the frames taken in
    /// are dropped, and the frames written make the chunk.
    pub fn complete_step(
        &mut self,
        taken: usize,
        left: Vec<i16>,
        right: Vec<i16>,
        written: usize,
    ) -> (chunk: PcmChunk)
        ensures
            final(self)@ == consumed(old(self)@, taken),
            chunk@ == paired(first_frames(left@, written), first_frames(right@, written)),
    {
        self.consume(taken);
        let mut left = left;
        let mut right = right;
        if written < left.len() {
            left.truncate(written);
        }
        if written < right.len() {
            right.truncate(written);
        }
        PcmChunk::from_planes(left, right)
    }
}

/// A buffer without a right channel puts the same samples behind both
/// waiting channels: where the two held the same before, they hold the same
/// after.
pub proof fn lemma_mono_keeps_channels_equal<F>(
    left: Seq<F>,
    right: Seq<F>,
    input: SourceAudio<F>,
)
    requires
        planes_fit(input.planes(), input.has_right()),
        !input.has_right(),
        left == right,
    ensures
        appended(ResamplingView::Resample { left, right }, input) matches ResamplingView::Resample {
            left: l,
            right: r,
        } && l == r,
{
}

/// Appending and then consuming loses no frame and repeats none: what
/// waited and what came, without the consumed frames at the front, is what
/// waits now.
pub proof fn lemma_carry_over<F>(left: Seq<F>, right: Seq<F>, input: SourceAudio<F>, frames: usize)
    requires
        planes_fit(input.planes(), input.has_right()),
        left.len() == right.len(),
        frames <= left.len() + input.frame_count(),
    ensures
        consumed(appended(ResamplingView::Resample { left, right }, input), frames)
            matches ResamplingView::Resample { left: l, right: r } && (left
            + input.left_source()) == (left + input.left_source()).take(frames as int) + l && (right
            + input.right_source()) == (right + input.right_source()).take(frames as int) + r,
{
    let all_left = left + input.left_source();
    let all_right = right + input.right_source();
    if input.has_right() {
        assert(input.planes()[1].len() == input.planes()[0].len());
    }
    assert(all_left =~= all_left.take(frames as int) + all_left.skip(frames as int));
    assert(all_right =~= all_right.take(frames as int) + all_right.skip(frames as int));
}

/// One conversion step: the buffer that was appended before it, and how
/// many frames the converter reported as consumed.
pub struct ConversionStep<F> {
    pub input: SourceAudio<F>,
    pub taken: usize,
}

/// How many frames wait on each side of `view`.
pub open spec fn waiting_frames<F>(view: ResamplingView<F>) -> nat {
    match view {
        ResamplingView::Matched => 0,
        ResamplingView::Resample { left, right } => left.len(),
    }
}

/// What `view` holds after `steps` have been made in turn.
pub open spec fn after_steps<F>(view: ResamplingView<F>, steps: Seq<ConversionStep<F>>) -> ResamplingView<
    F,
>
    decreases steps.len(),
{
    if steps.len() == 0 {
        view
    } else {
        after_steps(consumed(appended(view, steps[0].input), steps[0].taken), steps.skip(1))
    }
}

/// How many frames the buffers of `steps` hold together.
pub open spec fn frames_appended<F>(steps: Seq<ConversionStep<F>>) -> nat
    decreases steps.len(),
{
    if steps.len() == 0 {
        0
    } else {
        steps[0].input.frame_count() + frames_appended(steps.skip(1))
    }
}

/// How many frames leave the waiting samples of `view` while `steps` are
/// made in turn.
pub open spec fn frames_consumed<F>(view: ResamplingView<F>, steps: Seq<ConversionStep<F>>) -> int
    decreases steps.len(),
{
    if steps.len() == 0 {
        0
    } else {
        consumed_frames(steps[0].taken, waiting_frames(appended(view, steps[0].input)))
            + frames_consumed(
            consumed(appended(view, steps[0].input), steps[0].taken),
            steps.skip(1),
        )
    }
}

/// Over any run of conversion steps every frame that came in is accounted
/// for: it has been handed to the converter, or it still waits. None is
/// lost and none is counted twice, and the two channels stay of one length.
pub proof fn lemma_every_frame_accounted_for<F>(
    left: Seq<F>,
    right: Seq<F>,
    steps: Seq<ConversionStep<F>>,
)
    requires
        left.len() == right.len(),
        forall|k: int|
            0 <= k < steps.len() ==> planes_fit(
                (#[trigger] steps[k]).input.planes(),
                steps[k].input.has_right(),
            ),
    ensures
        after_steps(ResamplingView::Resample { left, right }, steps) matches ResamplingView::Resample {
            left: l,
            right: r,
        } && l.len() == r.len() && l.len() + frames_consumed(
            ResamplingView::Resample { left, right },
            steps,
        ) == left.len() + frames_appended(steps),
    decreases steps.len(),
{
    if steps.len() > 0 {
        let input = steps[0].input;
        assert(planes_fit(input.planes(), input.has_right()));
        if input.has_right() {
            assert(input.planes()[1].len() == input.planes()[0].len());
        }
        let next = consumed(
            appended(ResamplingView::Resample { left, right }, input),
            steps[0].taken,
        );
        let rest = steps.skip(1);
        assert forall|k: int| 0 <= k < rest.len() implies planes_fit(
            (#[trigger] rest[k]).input.planes(),
            rest[k].input.has_right(),
        ) by {
            assert(rest[k] == steps[k + 1]);
        }
        match next {
            ResamplingView::Resample { left: l, right: r } => {
                lemma_every_frame_accounted_for(l, r, rest);
            },
            ResamplingView::Matched => {},
        }
    }
}

/// A track that only ever delivers buffers without a right channel hands
/// the converter the same samples on both sides: after any run of steps the
/// two waiting channels hold the same.
pub proof fn lemma_mono_track_keeps_channels_equal<F>(
    waiting: Seq<F>,
    steps: Seq<ConversionStep<F>>,
)
    requires
        forall|k: int|
            0 <= k < steps.len() ==> planes_fit(
                (#[trigger] steps[k]).input.planes(),
                steps[k].input.has_right(),
            ) && !steps[k].input.has_right(),
    ensures
        after_steps(ResamplingView::Resample { left: waiting, right: waiting }, steps)
            matches ResamplingView::Resample { left: l, right: r } && l == r,
    decreases steps.len(),
{
    if steps.len() > 0 {
        let input = steps[0].input;
        assert(planes_fit(input.planes(), input.has_right()) && !input.has_right());
        let rest = steps.skip(1);
        assert forall|k: int| 0 <= k < rest.len() implies planes_fit(
            (#[trigger] rest[k]).input.planes(),
            rest[k].input.has_right(),
        ) && !rest[k].input.has_right() by {
            assert(rest[k] == steps[k + 1]);
        }
        let joined = waiting + input.left_source();
        lemma_mono_track_keeps_channels_equal(
            joined.skip(consumed_frames(steps[0].taken, joined.len())),
            rest,
        );
    }
}

/// What the container says of one elementary track.
#[derive(Clone, Copy, Debug)]
pub struct TrackInfo {
    /// The number by which packets name the track.
    pub id: u32,
    /// The declared sample rate, where the container declares one.
    pub sample_rate: Option<u32>,
}

/// How opening and probing a file ended.
pub enum ProbeOutcome {
    /// The file could not be opened.
    Unreadable,
    /// No container format was recognised in it.
    Unrecognized,
    /// The container was read; these are its elementary tracks.
    Tracks(Vec<TrackInfo>),
}

/// How reading the next packet of the container ended.
#[derive(Clone, Copy, Debug)]
pub enum PacketEvent {
    /// A packet of the elementary track with this number.
    Packet(u32),
    /// The container has no more packets.
    EndOfStream,
    /// Reading failed in any other way.
    Failed,
}

/// What to do with the packet that was read.
#[derive(Clone, Copy, Debug, PartialEq, Eq)]
pub enum PacketAction {
    /// The sequence is over.
    Finish,
    /// Decode the packet with the decoder that is active.
    Decode,
    /// Discard the active decoder and converter, make new ones for this
    /// track and rate, then decode the packet.
    Open { track_id: u32, sample_rate: u32 },
}

/// How decoding a packet ended.
#[derive(Clone, Copy, Debug)]
pub enum DecodeEvent {
    /// The codec rejected the packet.
    Failed,
    /// The codec delivered a buffer of this many frames.
    Frames(usize),
}

/// What to do with the buffer that was decoded.
#[derive(Clone, Copy, Debug, PartialEq, Eq)]
pub enum FrameAction {
    /// The sequence is over.
    Finish,
    /// The buffer is empty: read the next packet.
    NextPacket,
    /// Pass the frames on one for one.
    Passthrough,
    /// Append the samples to the waiting ones and run a conversion step.
    Resample,
}

/// The decode session of one file.
pub enum DecodedStream<F> {
    /// Nothing is left to decode.
    Empty,
    /// A container is open. `tracks` are its elementary tracks that have not
    /// been decoded yet; `current_track` is the number of the track being
    /// decoded, with the state of its conversion.
    Song { tracks: Vec<TrackInfo>, current_track: Option<(u32, ResamplingCopy<F>)> },
}

/// What a `DecodedStream` holds.
pub enum SessionView<F> {
    Empty,
    Song { tracks: Seq<TrackInfo>, current_track: Option<(u32, ResamplingView<F>)> },
}

impl<F> View for DecodedStream<F> {
    type V = SessionView<F>;

    open spec fn view(&self) -> SessionView<F> {
        match *self {
            DecodedStream::Empty => SessionView::Empty,
            DecodedStream::Song { tracks, current_track } => SessionView::Song {
                tracks: tracks@,
                current_track: match current_track {
                    None => None,
                    Some((id, resampler)) => Some((id, resampler@)),
                },
            },
        }
    }
}

/// Whether `at` is the place of the first track of `tracks` whose number is
/// `id`.
pub open spec fn is_first_match(tracks: Seq<TrackInfo>, id: u32, at: int) -> bool {
    &&& 0 <= at < tracks.len()
    &&& tracks[at].id == id
    &&& forall|k: int| 0 <= k < at ==> (#[trigger] tracks[k]).id != id
}

/// Whether some track of `tracks` has the number `id`.
pub open spec fn has_track(tracks: Seq<TrackInfo>, id: u32) -> bool {
    exists|at: int| is_first_match(tracks, id, at)
}

/// The place of the first track of `tracks` whose number is `id`.
pub open spec fn locate(tracks: Seq<TrackInfo>, id: u32) -> int {
    choose|at: int| is_first_match(tracks, id, at)
}

/// The session of a file after probing: a container with at least one
/// elementary track is open, anything else leaves nothing to decode.
pub open spec fn session_of<F>(probe: ProbeOutcome) -> SessionView<F> {
    match probe {
        ProbeOutcome::Tracks(tracks) if tracks@.len() > 0 => SessionView::Song {
            tracks: tracks@,
            current_track: None,
        },
        _ => SessionView::Empty,
    }
}

/// The session that decodes `track_id` next, taken from the tracks not yet
/// decoded, and what to do to get there. Where no such track is left, where
/// it declares no sample rate, or where no converter exists for its rate, the
/// session is over.
pub open spec fn switch_step<F>(tracks: Seq<TrackInfo>, track_id: u32) -> (
    SessionView<F>,
    PacketAction,
) {
    if !has_track(tracks, track_id) {
        (SessionView::Empty, PacketAction::Finish)
    } else {
        let at = locate(tracks, track_id);
        match tracks[at].sample_rate {
            None => (SessionView::Empty, PacketAction::Finish),
            Some(rate) => match fresh_resampling::<F>(rate) {
                None => (SessionView::Empty, PacketAction::Finish),
                Some(resampling) => (
                    SessionView::Song {
                        tracks: tracks.remove(at),
                        current_track: Some((track_id, resampling)),
                    },
                    PacketAction::Open { track_id, sample_rate: rate },
                ),
            },
        }
    }
}

/// The session after a packet was read, and what to do with the packet.
pub open spec fn packet_step<F>(session: SessionView<F>, event: PacketEvent) -> (
    SessionView<F>,
    PacketAction,
) {
    match session {
        SessionView::Empty => (SessionView::Empty, PacketAction::Finish),
        SessionView::Song { tracks, current_track } => match event {
            PacketEvent::EndOfStream => (SessionView::Empty, PacketAction::Finish),
            PacketEvent::Failed => (SessionView::Empty, PacketAction::Finish),
            PacketEvent::Packet(track_id) => match current_track {
                Some((active, _)) if active == track_id => (session, PacketAction::Decode),
                _ => switch_step(tracks, track_id),
            },
        },
    }
}

/// The session after a packet was decoded, and what to do with the buffer.
pub open spec fn decode_step<F>(session: SessionView<F>, event: DecodeEvent) -> (
    SessionView<F>,
    FrameAction,
) {
    match session {
        SessionView::Song { tracks, current_track: Some((_, resampling)) } => match event {
            DecodeEvent::Failed => (SessionView::Empty, FrameAction::Finish),
            DecodeEvent::Frames(frames) => if frames == 0 {
                (session, FrameAction::NextPacket)
            } else if resampling is Matched {
                (session, FrameAction::Passthrough)
            } else {
                (session, FrameAction::Resample)
            },
        },
        _ => (SessionView::Empty, FrameAction::Finish),
    }
}

/// The conversion state of the track that is being decoded, if one is.
pub open spec fn active_resampling<F>(session: SessionView<F>) -> Option<ResamplingView<F>> {
    match session {
        SessionView::Song { tracks, current_track: Some((_, resampling)) } => Some(resampling),
        _ => None,
    }
}

/// The session once the samples of `input` have been appended to those
/// that wait for the track being decoded. Where no track is being decoded
/// nothing changes.
pub open spec fn session_appended<F>(session: SessionView<F>, input: SourceAudio<F>) -> SessionView<
    F,
> {
    match session {
        SessionView::Song { tracks, current_track: Some((id, resampling)) } => SessionView::Song {
            tracks,
            current_track: Some((id, appended(resampling, input))),
        },
        _ => session,
    }
}

/// The session once a conversion step has consumed `frames` frames of the
/// track being decoded. Where no track is being decoded nothing changes.
pub open spec fn session_consumed<F>(session: SessionView<F>, frames: usize) -> SessionView<F> {
    match session {
        SessionView::Song { tracks, current_track: Some((id, resampling)) } => SessionView::Song {
            tracks,
            current_track: Some((id, consumed(resampling, frames))),
        },
        _ => session,
    }
}

/// The index of the first track with the number `id`, if there is one.
fn find_track(tracks: &Vec<TrackInfo>, id: u32) -> (found: Option<usize>)
    ensures
        found is Some <==> has_track(tracks@, id),
        found matches Some(at) ==> at == locate(tracks@, id) && is_first_match(
            tracks@,
            id,
            at as int,
        ),
{
    let mut at: usize = 0;
    while at < tracks.len()
        invariant
            at <= tracks.len(),
            forall|k: int| 0 <= k < at ==> (#[trigger] tracks@[k]).id != id,
        decreases tracks.len() - at,
    {
        if tracks[at].id == id {
            proof {
                assert(is_first_match(tracks@, id, at as int));
                let chosen = locate(tracks@, id);
                assert(is_first_match(tracks@, id, chosen));
                if chosen < at {
                    assert(tracks@[chosen].id != id);
                }
                if at < chosen {
                    assert(tracks@[at as int].id != id);
                }
            }
            return Some(at);
        }
        at += 1;
    }
    proof {
        if has_track(tracks@, id) {
            let w = choose|w: int| is_first_match(tracks@, id, w);
            assert(tracks@[w].id != id);
        }
    }
    None
}

impl<F: Copy> DecodedStream<F> {
    /// The session of a file after opening and probing it.
    pub fn from(probe: ProbeOutcome) -> (stream: DecodedStream<F>)
        ensures
            stream@ == session_of::<F>(probe),
    {
        match probe {
            ProbeOutcome::Tracks(tracks) => {
                if tracks.len() > 0 {
                    DecodedStream::Song { tracks, current_track: None }
                } else {
                    DecodedStream::Empty
                }
            },
            _ => DecodedStream::Empty,
        }
    }

    /// Whether nothing is left to decode.
    pub fn is_finished(&self) -> (finished: bool)
        ensures
            finished == (self@ is Empty),
    {
        match self {
            DecodedStream::Empty => true,
            DecodedStream::Song { .. } => false,
        }
    }

    /// Whether the track that is being decoded needs a rate converter.
    pub fn converts(&self) -> (needed: bool)
        ensures
            needed == (active_resampling(self@) matches Some(ResamplingView::Resample { .. })),
    {
        match self {
            DecodedStream::Song { current_track: Some((_, resampler)), .. } => {
                !resampler.is_matched()
            },
            _ => false,
        }
    }

    /// The samples that wait for conversion, where the track that is being
    /// decoded needs a rate converter.
    pub fn waiting(&self) -> (inputs: Option<&RollingInput<F>>)
        ensures
            inputs is Some == (active_resampling(self@) matches Some(
                ResamplingView::Resample { .. },
            )),
            inputs matches Some(rolling) ==> active_resampling(self@) == Some(
                ResamplingView::Resample {
                    left: rolling.left_samples(),
                    right: rolling.right_samples(),
                },
            ),
    {
        match self {
            DecodedStream::Song {
                current_track: Some((_, ResamplingCopy::Resample { inputs })),
                ..
            } => Some(inputs),
            _ => None,
        }
    }

    /// Puts the samples of a decoded buffer behind those that wait for the
    /// track that is being decoded.
    pub fn append(&mut self, input: &SourceAudio<F>)
        ensures
            final(self)@ == session_appended(old(self)@, *input),
    {
        match self {
            DecodedStream::Song { current_track: Some((_, resampler)), .. } => {
                resampler.append(input);
            },
            _ => {},
        }
    }

    /// Ends a conversion step on the track that is being decoded: the
    /// `taken` frames that the step took in are dropped, and the first
    /// `written` frames of `left` and `right` make the chunk.
    pub fn complete_step(
        &mut self,
        taken: usize,
        left: Vec<i16>,
        right: Vec<i16>,
        written: usize,
    ) -> (chunk: PcmChunk)
        ensures
            final(self)@ == session_consumed(old(self)@, taken),
            chunk@ == paired(first_frames(left@, written), first_frames(right@, written)),
    {
        match self {
            DecodedStream::Song { current_track: Some((_, resampler)), .. } => {
                resampler.complete_step(taken, left, right, written)
            },
            _ => {
                let mut idle: ResamplingCopy<F> = ResamplingCopy::Matched;
                idle.complete_step(taken, left, right, written)
            },
        }
    }

    /// Ends the session: a decoder or a converter could not be made, or a
    /// conversion step failed.
    pub fn abort(&mut self)
        ensures
            final(self)@ == SessionView::<F>::Empty,
    {
        *self = DecodedStream::Empty;
    }

    /// Takes note of the packet that was read, and says what to do with it.
    pub fn on_packet(&mut self, event: PacketEvent) -> (action: PacketAction)
        ensures
            (final(self)@, action) == packet_step(old(self)@, event),
    {
        let mut session: DecodedStream<F> = DecodedStream::Empty;
        core::mem::swap(self, &mut session);
        match session {
            DecodedStream::Empty => PacketAction::Finish,
            DecodedStream::Song { tracks, current_track } => {
                match event {
                    PacketEvent::EndOfStream => PacketAction::Finish,
                    PacketEvent::Failed => PacketAction::Finish,
                    PacketEvent::Packet(track_id) => {
                        let active = match &current_track {
                            Some((id, _)) => *id == track_id,
                            None => false,
                        };
                        if active {
                            *self = DecodedStream::Song { tracks, current_track };
                            return PacketAction::Decode;
                        }
                        let mut tracks = tracks;
                        let Some(at) = find_track(&tracks, track_id) else {
                            return PacketAction::Finish;
                        };
                        let Some(rate) = tracks[at].sample_rate else {
                            return PacketAction::Finish;
                        };
                        let Some(resampler) = ResamplingCopy::<F>::new(rate) else {
                            return PacketAction::Finish;
                        };
                        let _ = tracks.remove(at);
                        *self = DecodedStream::Song {
                            tracks,
                            current_track: Some((track_id, resampler)),
                        };
                        PacketAction::Open { track_id, sample_rate: rate }
                    },
                }
            },
        }
    }

    /// Takes note of how decoding the packet ended, and says what to do
    /// with the buffer.
    pub fn on_decoded(&mut self, event: DecodeEvent) -> (action: FrameAction)
        ensures
            (final(self)@, action) == decode_step(old(self)@, event),
    {
        let matched = match &*self {
            DecodedStream::Song { current_track: Some((_, resampler)), .. } => resampler.is_matched(),
            _ => {
                *self = DecodedStream::Empty;
                return FrameAction::Finish;
            },
        };
        match event {
            DecodeEvent::Failed => {
                *self = DecodedStream::Empty;
                FrameAction::Finish
            },
            DecodeEvent::Frames(frames) => {
                if frames == 0 {
                    FrameAction::NextPacket
                } else if matched {
                    FrameAction::Passthrough
                } else {
                    FrameAction::Resample
                }
            },
        }
    }
}

/// One thing that happens to a session.
pub enum SessionEvent {
    /// A packet was read, or reading ended.
    Packet(PacketEvent),
    /// A packet was decoded, or decoding failed.
    Decoded(DecodeEvent),
    /// A decoder or converter could not be made, or a conversion failed.
    Abort,
}

/// The session after one event, and whether the event lets a chunk be made.
pub open spec fn session_step<F>(session: SessionView<F>, event: SessionEvent) -> (
    SessionView<F>,
    bool,
) {
    match event {
        SessionEvent::Packet(packet) => (packet_step(session, packet).0, false),
        SessionEvent::Decoded(decoded) => {
            let (next, action) = decode_step(session, decoded);
            (next, action is Passthrough || action is Resample)
        },
        SessionEvent::Abort => (SessionView::Empty, false),
    }
}

/// How many of `events`, happening in turn to `session`, let a chunk be made.
pub open spec fn chunk_steps<F>(session: SessionView<F>, events: Seq<SessionEvent>) -> nat
    decreases events.len(),
{
    if events.len() == 0 {
        0
    } else {
        let (next, chunk) = session_step(session, events[0]);
        (if chunk {
            1nat
        } else {
            0nat
        }) + chunk_steps(next, events.skip(1))
    }
}

/// A session that is over stays over, and makes no chunk whatever happens.
pub proof fn lemma_finished_session_yields_nothing<F>(events: Seq<SessionEvent>)
    ensures
        chunk_steps(SessionView::<F>::Empty, events) == 0,
    decreases events.len(),
{
    if events.len() > 0 {
        assert(session_step(SessionView::<F>::Empty, events[0]).0 == SessionView::<F>::Empty);
        lemma_finished_session_yields_nothing::<F>(events.skip(1));
    }
}

/// A file that cannot be opened, whose container is not recognised, or that
/// has no elementary track makes no chunk: its session is over from the
/// start.
pub proof fn lemma_unplayable_file_yields_nothing<F>(probe: ProbeOutcome, events: Seq<SessionEvent>)
    requires
        probe matches ProbeOutcome::Tracks(tracks) ==> tracks@.len() == 0,
    ensures
        session_of::<F>(probe) == SessionView::<F>::Empty,
        chunk_steps(session_of::<F>(probe), events) == 0,
{
    lemma_finished_session_yields_nothing::<F>(events);
}

/// A session never decodes with more than the track it switched to last:
/// after a switch the waiting samples of the earlier track are gone.
pub proof fn lemma_switch_starts_afresh<F>(tracks: Seq<TrackInfo>, track_id: u32)
    ensures
        switch_step::<F>(tracks, track_id).0 matches SessionView::Song {
            tracks: rest,
            current_track,
        } ==> {
            &&& current_track matches Some((id, resampling))
            &&& id == track_id
            &&& rest.len() + 1 == tracks.len()
            &&& resampling matches ResamplingView::Resample { left, right } ==> left.len() == 0
                && right.len() == 0
        },
{
    if has_track(tracks, track_id) {
        let at = locate(tracks, track_id);
        assert(is_first_match(tracks, track_id, at));
    }
}

} // verus!
