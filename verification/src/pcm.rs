//! The audio buffers that pass between the stages: what a codec hands over,
//! channel by channel, and the canonical chunk that every later stage reads.

use vstd::prelude::*;

verus! {

/// The frame rate of every canonical chunk, in frames per second.
pub const CANONICAL_RATE: u32 = 44_100;

/// The frames that two channels make when read side by side: as many as the
/// shorter channel holds.
pub open spec fn paired<T>(left: Seq<T>, right: Seq<T>) -> Seq<(T, T)> {
    Seq::new(
        if left.len() <= right.len() {
            left.len()
        } else {
            right.len()
        },
        |i: int| (left[i], right[i]),
    )
}

/// One decoded buffer as a codec delivers it: one plane of samples per
/// channel, all of one length, and whether the layout has a right channel.
pub struct SourceAudio<T> {
    planes: Vec<Vec<T>>,
    has_right: bool,
}

/// Whether planes of this shape make a buffer: there is a channel, every
/// channel has as many samples as the first, and a layout with a right
/// channel has a second plane.
pub open spec fn planes_fit<T>(planes: Seq<Seq<T>>, has_right: bool) -> bool {
    &&& planes.len() >= 1
    &&& has_right ==> planes.len() >= 2
    &&& forall|c: int| 0 <= c < planes.len() ==> (#[trigger] planes[c]).len() == planes[0].len()
}

/// The samples of each plane of `planes`.
pub open spec fn samples_of<T>(planes: Seq<Vec<T>>) -> Seq<Seq<T>> {
    planes.map_values(|p: Vec<T>| p@)
}

impl<T> SourceAudio<T> {
    #[verifier::type_invariant]
    spec fn well_formed(&self) -> bool {
        planes_fit(samples_of(self.planes@), self.has_right)
    }

    /// The samples of the buffer, plane by plane.
    pub closed spec fn planes(&self) -> Seq<Seq<T>> {
        samples_of(self.planes@)
    }

    /// Whether the layout has a right channel.
    pub closed spec fn has_right(&self) -> bool {
        self.has_right
    }

    /// How many frames the buffer holds.
    pub open spec fn frame_count(&self) -> nat {
        self.planes()[0].len()
    }

    /// The samples that go to the left output: those of the first channel.
    pub open spec fn left_source(&self) -> Seq<T> {
        self.planes()[0]
    }

    /// The samples that go to the right output: those of the second
    /// channel where the layout has a right channel, else those of the first.
    pub open spec fn right_source(&self) -> Seq<T> {
        if self.has_right() {
            self.planes()[1]
        } else {
            self.planes()[0]
        }
    }

    /// The buffer of the given planes, or nothing where they do not make
    /// one.
    pub fn new(planes: Vec<Vec<T>>, has_right: bool) -> (audio: Option<SourceAudio<T>>)
        ensures
            audio is Some <==> planes_fit(samples_of(planes@), has_right),
            audio matches Some(a) ==> a.planes() == samples_of(planes@) && a.has_right()
                == has_right && planes_fit(a.planes(), a.has_right()),
    {
        if planes.len() < 1 || (has_right && planes.len() < 2) {
            return None;
        }
        let frames = planes[0].len();
        let mut c: usize = 1;
        while c < planes.len()
            invariant
                1 <= c <= planes.len(),
                frames == planes@[0]@.len(),
                forall|k: int| 0 <= k < c ==> (#[trigger] samples_of(planes@)[k]).len() == frames,
            decreases planes.len() - c,
        {
            if planes[c].len() != frames {
                assert(samples_of(planes@)[c as int].len() != samples_of(planes@)[0].len());
                return None;
            }
            c += 1;
        }
        Some(SourceAudio { planes, has_right })
    }

    /// How many frames the buffer holds.
    pub fn frames(&self) -> (n: usize)
        ensures
            n == self.frame_count(),
            planes_fit(self.planes(), self.has_right()),
    {
        proof {
            use_type_invariant(self);
        }
        self.planes[0].len()
    }

    /// The plane whose samples go to the left output.
    pub fn left(&self) -> (plane: &Vec<T>)
        ensures
            plane@ == self.left_source(),
            plane@.len() == self.frame_count(),
    {
        proof {
            use_type_invariant(self);
        }
        &self.planes[0]
    }

    /// The plane whose samples go to the right output.
    pub fn right(&self) -> (plane: &Vec<T>)
        ensures
            plane@ == self.right_source(),
            plane@.len() == self.frame_count(),
    {
        proof {
            use_type_invariant(self);
        }
        if self.has_right {
            assert(samples_of(self.planes@)[1].len() == samples_of(self.planes@)[0].len());
            &self.planes[1]
        } else {
            &self.planes[0]
        }
    }
}

/// A canonical PCM chunk: frames of two 16-bit samples, left and right, at
/// 44,100 frames per second.
pub struct PcmChunk {
    left: Vec<i16>,
    right: Vec<i16>,
}

impl View for PcmChunk {
    type V = Seq<(i16, i16)>;

    closed spec fn view(&self) -> Seq<(i16, i16)> {
        paired(self.left@, self.right@)
    }
}

impl PcmChunk {
    #[verifier::type_invariant]
    spec fn well_formed(&self) -> bool {
        self.left@.len() == self.right@.len()
    }

    /// The chunk whose frames are the samples of the two planes side by
    /// side. Where one plane is longer, what it holds beyond the other is
    /// left out.
    pub fn from_planes(left: Vec<i16>, right: Vec<i16>) -> (chunk: PcmChunk)
        ensures
            chunk@ == paired(left@, right@),
    {
        let mut left = left;
        let mut right = right;
        let ghost l0 = left@;
        let ghost r0 = right@;
        if left.len() > right.len() {
            left.truncate(right.len());
        } else if right.len() > left.len() {
            right.truncate(left.len());
        }
        assert(paired(left@, right@) =~= paired(l0, r0));
        PcmChunk { left, right }
    }

    /// How many frames the chunk holds.
    pub fn frames(&self) -> (n: usize)
        ensures
            n == self@.len(),
    {
        proof {
            use_type_invariant(self);
        }
        self.left.len()
    }

    /// The left samples, one per frame.
    pub fn left(&self) -> (plane: &Vec<i16>)
        ensures
            plane@.len() == self@.len(),
            forall|i: int| 0 <= i < self@.len() ==> plane@[i] == self@[i].0,
    {
        proof {
            use_type_invariant(self);
        }
        &self.left
    }

    /// The right samples, one per frame.
    pub fn right(&self) -> (plane: &Vec<i16>)
        ensures
            plane@.len() == self@.len(),
            forall|i: int| 0 <= i < self@.len() ==> plane@[i] == self@[i].1,
    {
        proof {
            use_type_invariant(self);
        }
        &self.right
    }
}

/// Copies the samples of a plane.
pub fn copy_plane<T: Copy>(plane: &Vec<T>) -> (copy: Vec<T>)
    ensures
        copy@ == plane@,
{
    let mut copy: Vec<T> = Vec::new();
    let mut i: usize = 0;
    while i < plane.len()
        invariant
            i <= plane.len(),
            copy@ == plane@.take(i as int),
        decreases plane.len() - i,
    {
        let sample = plane[i];
        assert(plane@.take(i as int + 1) =~= plane@.take(i as int).push(sample));
        copy.push(sample);
        i += 1;
    }
    assert(plane@.take(i as int) =~= plane@);
    copy
}

/// The canonical chunk of a buffer that is already at the canonical rate
/// and in 16-bit samples: frame for frame the samples of the first channel
/// on the left, and on the right those of the right channel, or of the first
/// again where the layout has no right channel.
pub fn passthrough(input: &SourceAudio<i16>) -> (chunk: PcmChunk)
    ensures
        chunk@ == paired(input.left_source(), input.right_source()),
        chunk@.len() == input.frame_count(),
{
    let left = copy_plane(input.left());
    let right = copy_plane(input.right());
    PcmChunk::from_planes(left, right)
}

/// Passing a stereo buffer through changes no sample: every output frame
/// holds the input samples of the two channels at the same place.
pub proof fn lemma_passthrough_exact(input: SourceAudio<i16>, i: int)
    requires
        planes_fit(input.planes(), input.has_right()),
        input.has_right(),
        0 <= i < input.frame_count(),
    ensures
        paired(input.left_source(), input.right_source()).len() == input.frame_count(),
        paired(input.left_source(), input.right_source())[i] == (
            input.planes()[0][i],
            input.planes()[1][i],
        ),
{
    assert(input.planes()[1].len() == input.planes()[0].len());
}

/// Passing two buffers through one after the other loses no frame, repeats
/// none and keeps their order: the frames of the first followed by the
/// frames of the second are the frames of the two buffers joined, channel
/// by channel.
pub proof fn lemma_passthrough_keeps_order<T>(first: SourceAudio<T>, second: SourceAudio<T>)
    requires
        planes_fit(first.planes(), first.has_right()),
        planes_fit(second.planes(), second.has_right()),
    ensures
        paired(first.left_source(), first.right_source()) + paired(
            second.left_source(),
            second.right_source(),
        ) == paired(
            first.left_source() + second.left_source(),
            first.right_source() + second.right_source(),
        ),
{
    if first.has_right() {
        assert(first.planes()[1].len() == first.planes()[0].len());
    }
    if second.has_right() {
        assert(second.planes()[1].len() == second.planes()[0].len());
    }
    assert(paired(first.left_source(), first.right_source()) + paired(
        second.left_source(),
        second.right_source(),
    ) =~= paired(
        first.left_source() + second.left_source(),
        first.right_source() + second.right_source(),
    ));
}

/// A buffer without a right channel gives frames whose two samples are
/// equal, whatever the sample type.
pub proof fn lemma_mono_frames_equal<T>(input: SourceAudio<T>, i: int)
    requires
        planes_fit(input.planes(), input.has_right()),
        !input.has_right(),
        0 <= i < input.frame_count(),
    ensures
        paired(input.left_source(), input.right_source()).len() == input.frame_count(),
        paired(input.left_source(), input.right_source())[i].0 == paired(
            input.left_source(),
            input.right_source(),
        )[i].1,
{
}

} // verus!
