//! The encoder session of one listener: when the native codec is fed, when
//! it is flushed, and when it is released. The session spans any number of
//! tracks and is released exactly once.

use vstd::prelude::*;

verus! {

/// The number of channels the codec is set up for.
pub const ENCODER_CHANNELS: i32 = 2;

/// The input sample rate the codec is set up for.
pub const ENCODER_SAMPLE_RATE: i32 = 44_100;

/// The quality setting the codec is set up with.
pub const ENCODER_QUALITY: i32 = 2;

/// The room that the codec may need beyond what the input accounts for, and
/// the size of the buffer that a flush is given, in bytes.
pub const FLUSH_CAPACITY: usize = 7200;

/// How setting up the native codec ended.
#[derive(Clone, Copy, Debug, PartialEq, Eq, Structural)]
pub enum InitOutcome {
    /// The codec gave no handle.
    NoHandle,
    /// The codec gave a handle and answered the parameters with this
    /// status; a negative status is a rejection.
    Configured(i32),
}

/// Why no session was made.
#[derive(Clone, Copy, Debug, PartialEq, Eq, Structural)]
pub enum InitError {
    /// The codec gave no handle: there is nothing to release.
    NoHandle,
    /// The codec rejected the parameters: the handle it gave must be
    /// released by the caller.
    ParamsRejected,
}

/// Where a session stands.
#[derive(Clone, Copy, Debug, PartialEq, Eq, Structural)]
pub enum SessionState {
    /// The codec takes input.
    Open,
    /// The codec failed while encoding. It takes no more input, and is
    /// still to be released.
    Failed,
    /// The codec has been released.
    Closed,
}

/// What the stage before the encoder answered to a pull.
#[derive(Clone, Copy, Debug, PartialEq, Eq, Structural)]
pub enum Upstream {
    /// Nothing is ready yet.
    Pending,
    /// The sequence of chunks has ended.
    End,
    /// A chunk of this many frames.
    Chunk(usize),
}

/// What to do after a pull.
#[derive(Clone, Copy, Debug, PartialEq, Eq, Structural)]
pub enum EncoderAction {
    /// Nothing is ready: stay suspended.
    Wait,
    /// The output sequence is over.
    Finish,
    /// Encode the chunk of `frames` frames into a buffer of `capacity` bytes.
    Encode { frames: i32, capacity: i32 },
    /// Flush the codec into a buffer of `capacity` bytes, then release it.
    FlushAndClose { capacity: i32 },
}

/// What the encoder hands on after a call of the codec.
#[derive(Debug)]
pub enum EncoderOutput {
    /// These bytes, which are never none.
    Chunk(Vec<u8>),
    /// Nothing this time: pull again.
    Nothing,
    /// The output sequence is over.
    End,
}

/// What an `EncoderOutput` holds.
pub enum OutputView {
    Chunk(Seq<u8>),
    Nothing,
    End,
}

impl View for EncoderOutput {
    type V = OutputView;

    open spec fn view(&self) -> OutputView {
        match *self {
            EncoderOutput::Chunk(bytes) => OutputView::Chunk(bytes@),
            EncoderOutput::Nothing => OutputView::Nothing,
            EncoderOutput::End => OutputView::End,
        }
    }
}

/// The size of the buffer that encoding `frames` frames is given: the
/// frames, a third of them again, and the room of a flush.
pub open spec fn encode_capacity(frames: int) -> int {
    frames + frames / 3 + FLUSH_CAPACITY as int
}

/// The session that a set-up gives, or why it gives none.
pub open spec fn init_result(init: InitOutcome) -> Result<SessionState, InitError> {
    match init {
        InitOutcome::NoHandle => Err(InitError::NoHandle),
        InitOutcome::Configured(status) => if status < 0 {
            Err(InitError::ParamsRejected)
        } else {
            Ok(SessionState::Open)
        },
    }
}

/// The state after a pull, and what to do. An open session waits while
/// nothing is ready, encodes a chunk, and at the end of the input is flushed
/// and released. A chunk too large for the codec's interface fails the
/// session. A session that is not open ends the sequence.
pub open spec fn input_step(state: SessionState, input: Upstream) -> (SessionState, EncoderAction) {
    match state {
        SessionState::Open => match input {
            Upstream::Pending => (SessionState::Open, EncoderAction::Wait),
            Upstream::End => (
                SessionState::Closed,
                EncoderAction::FlushAndClose { capacity: FLUSH_CAPACITY as i32 },
            ),
            Upstream::Chunk(frames) => if encode_capacity(frames as int) <= i32::MAX {
                (
                    SessionState::Open,
                    EncoderAction::Encode {
                        frames: frames as i32,
                        capacity: encode_capacity(frames as int) as i32,
                    },
                )
            } else {
                (SessionState::Failed, EncoderAction::Finish)
            },
        },
        _ => (state, EncoderAction::Finish),
    }
}

/// The bytes that the codec wrote: the first `length` of the buffer, or
/// all of it where it is shorter.
pub open spec fn written(length: i32, buffer: Seq<u8>) -> Seq<u8> {
    if 0 <= length < buffer.len() {
        buffer.take(length as int)
    } else if length < 0 {
        Seq::empty()
    } else {
        buffer
    }
}

/// The state after the codec encoded a chunk and reported `length`, and
/// what is handed on. A negative length fails the session and ends the
/// sequence; bytes are handed on only where there are some.
pub open spec fn encoded_step(state: SessionState, length: i32, buffer: Seq<u8>) -> (
    SessionState,
    OutputView,
) {
    if state != SessionState::Open {
        (state, OutputView::End)
    } else if length < 0 {
        (SessionState::Failed, OutputView::End)
    } else if written(length, buffer).len() == 0 {
        (SessionState::Open, OutputView::Nothing)
    } else {
        (SessionState::Open, OutputView::Chunk(written(length, buffer)))
    }
}

/// What a flush that reported `length` hands on: the bytes it wrote, where
/// there are some.
pub open spec fn flushed_bytes(length: i32, buffer: Seq<u8>) -> Option<Seq<u8>> {
    if written(length, buffer).len() == 0 {
        None
    } else {
        Some(written(length, buffer))
    }
}

/// The state after teardown, and whether the codec is to be released now.
pub open spec fn teardown_step(state: SessionState) -> (SessionState, bool) {
    (SessionState::Closed, state != SessionState::Closed)
}

/// Cuts `buffer` down to the bytes that the codec wrote.
fn keep_written(length: i32, buffer: Vec<u8>) -> (bytes: Vec<u8>)
    ensures
        bytes@ == written(length, buffer@),
{
    let mut bytes = buffer;
    if length < 0 {
        bytes.truncate(0);
        assert(bytes@ =~= Seq::<u8>::empty());
    } else if (length as usize) < bytes.len() {
        bytes.truncate(length as usize);
    }
    bytes
}

/// The encoder session of one listener: the sequence of chunks that it
/// encodes, and where the session stands.
pub struct EncodedStream<I> {
    input: I,
    state: SessionState,
}

impl<I> View for EncodedStream<I> {
    type V = SessionState;

    closed spec fn view(&self) -> SessionState {
        self.state
    }
}

impl<I> EncodedStream<I> {
    /// The sequence of chunks that the session encodes.
    pub closed spec fn input(&self) -> I {
        self.input
    }

    /// The session that encodes `input` with a codec that was set up, or
    /// the reason why there is none.
    pub fn new(input: I, init: InitOutcome) -> (session: Result<EncodedStream<I>, InitError>)
        ensures
            session is Ok <==> init_result(init) is Ok,
            session matches Ok(s) ==> Ok::<SessionState, InitError>(s@) == init_result(init)
                && s.input() == input,
            session matches Err(e) ==> Err::<SessionState, InitError>(e) == init_result(init),
    {
        match init {
            InitOutcome::NoHandle => Err(InitError::NoHandle),
            InitOutcome::Configured(status) => {
                if status < 0 {
                    Err(InitError::ParamsRejected)
                } else {
                    Ok(EncodedStream { input, state: SessionState::Open })
                }
            },
        }
    }

    /// The sequence of chunks, to make a pull on.
    pub fn input_mut(&mut self) -> (input: &mut I)
        ensures
            *input == old(self).input(),
            final(self).input() == *final(input),
            final(self)@ == old(self)@,
    {
        &mut self.input
    }

    /// Where the session stands.
    pub fn state(&self) -> (state: SessionState)
        ensures
            state == self@,
    {
        self.state
    }

    /// Takes note of what the stage before answered, and says what to do.
    pub fn on_input(&mut self, input: Upstream) -> (action: EncoderAction)
        ensures
            (final(self)@, action) == input_step(old(self)@, input),
            final(self).input() == old(self).input(),
    {
        match self.state {
            SessionState::Open => match input {
                Upstream::Pending => EncoderAction::Wait,
                Upstream::End => {
                    self.state = SessionState::Closed;
                    EncoderAction::FlushAndClose { capacity: FLUSH_CAPACITY as i32 }
                },
                Upstream::Chunk(frames) => {
                    let wide = frames as u128;
                    let capacity = wide + wide / 3 + FLUSH_CAPACITY as u128;
                    if capacity <= i32::MAX as u128 {
                        EncoderAction::Encode { frames: frames as i32, capacity: capacity as i32 }
                    } else {
                        self.state = SessionState::Failed;
                        EncoderAction::Finish
                    }
                },
            },
            _ => EncoderAction::Finish,
        }
    }

    /// Takes note of what the codec reported after encoding into `buffer`,
    /// and says what to hand on.
    pub fn on_encoded(&mut self, length: i32, buffer: Vec<u8>) -> (output: EncoderOutput)
        ensures
            (final(self)@, output@) == encoded_step(old(self)@, length, buffer@),
            output matches EncoderOutput::Chunk(bytes) ==> bytes@.len() > 0,
            final(self).input() == old(self).input(),
    {
        if self.state != SessionState::Open {
            return EncoderOutput::End;
        }
        if length < 0 {
            self.state = SessionState::Failed;
            return EncoderOutput::End;
        }
        let bytes = keep_written(length, buffer);
        if bytes.len() == 0 {
            EncoderOutput::Nothing
        } else {
            EncoderOutput::Chunk(bytes)
        }
    }

    /// What to hand on after a flush into `buffer` that reported `length`:
    /// the bytes written, or nothing where none were.
    pub fn on_flushed(&self, length: i32, buffer: Vec<u8>) -> (last: Option<Vec<u8>>)
        ensures
            last is Some <==> flushed_bytes(length, buffer@) is Some,
            last matches Some(bytes) ==> Some(bytes@) == flushed_bytes(length, buffer@)
                && bytes@.len() > 0,
    {
        let bytes = keep_written(length, buffer);
        if bytes.len() == 0 {
            None
        } else {
            Some(bytes)
        }
    }

    /// Ends the session, on whatever path the listener leaves. Returns
    /// whether the codec is to be released now: it is unless it has been.
    pub fn teardown(&mut self) -> (release: bool)
        ensures
            (final(self)@, release) == teardown_step(old(self)@),
            final(self).input() == old(self).input(),
    {
        let release = self.state != SessionState::Closed;
        self.state = SessionState::Closed;
        release
    }
}

/// The buffer that encoding is given is at least as large as the codec can
/// need: five quarters of the frames and the room of a flush.
pub proof fn lemma_capacity_suffices(frames: nat)
    ensures
        encode_capacity(frames as int) >= (5 * frames) / 4 + FLUSH_CAPACITY,
{
}

/// No bytes are ever handed on that are none: neither after encoding nor
/// after a flush, whatever the codec reported.
pub proof fn lemma_no_empty_chunk(state: SessionState, length: i32, buffer: Seq<u8>)
    ensures
        encoded_step(state, length, buffer).1 matches OutputView::Chunk(bytes) ==> bytes.len() > 0,
        flushed_bytes(length, buffer) matches Some(bytes) ==> bytes.len() > 0,
        length == 0 ==> encoded_step(SessionState::Open, length, buffer).1 == OutputView::Nothing,
{
}

/// At the end of the input an open session is flushed and released, once;
/// a flush that wrote nothing hands on nothing.
pub proof fn lemma_empty_flush_hands_on_nothing(buffer: Seq<u8>)
    ensures
        input_step(SessionState::Open, Upstream::End) == (
            SessionState::Closed,
            EncoderAction::FlushAndClose { capacity: FLUSH_CAPACITY as i32 },
        ),
        flushed_bytes(0, buffer) is None,
{
}

/// A session that has been released is left alone: whatever the stage
/// before answers, the sequence is over, and neither a flush nor a release
/// is asked for again.
pub proof fn lemma_closed_session_is_left_alone(input: Upstream, length: i32, buffer: Seq<u8>)
    ensures
        input_step(SessionState::Closed, input) == (SessionState::Closed, EncoderAction::Finish),
        encoded_step(SessionState::Closed, length, buffer) == (
            SessionState::Closed,
            OutputView::End,
        ),
        teardown_step(SessionState::Closed) == (SessionState::Closed, false),
{
}

/// A negative length from the codec ends the sequence at once, and the
/// session takes no more input: every later pull ends the sequence too.
pub proof fn lemma_encode_error_is_final(length: i32, buffer: Seq<u8>, input: Upstream)
    requires
        length < 0,
    ensures
        encoded_step(SessionState::Open, length, buffer) == (SessionState::Failed, OutputView::End),
        input_step(SessionState::Failed, input) == (SessionState::Failed, EncoderAction::Finish),
        teardown_step(SessionState::Failed) == (SessionState::Closed, true),
{
}

/// One thing that happens to a session.
pub enum EncoderEvent {
    /// The stage before answered a pull.
    Input(Upstream),
    /// The codec encoded into a buffer and reported a length.
    Encoded(i32, Seq<u8>),
    /// The listener left.
    Teardown,
}

/// The state after one event, and whether the event releases the codec.
pub open spec fn encoder_step(state: SessionState, event: EncoderEvent) -> (SessionState, bool) {
    match event {
        EncoderEvent::Input(input) => {
            let (next, action) = input_step(state, input);
            (next, action is FlushAndClose)
        },
        EncoderEvent::Encoded(length, buffer) => (encoded_step(state, length, buffer).0, false),
        EncoderEvent::Teardown => teardown_step(state),
    }
}

/// The state after `events` have happened in turn.
pub open spec fn encoder_run(state: SessionState, events: Seq<EncoderEvent>) -> SessionState
    decreases events.len(),
{
    if events.len() == 0 {
        state
    } else {
        encoder_run(encoder_step(state, events[0]).0, events.skip(1))
    }
}

/// How many times `events`, happening in turn, release the codec.
pub open spec fn releases(state: SessionState, events: Seq<EncoderEvent>) -> nat
    decreases events.len(),
{
    if events.len() == 0 {
        0
    } else {
        let (next, release) = encoder_step(state, events[0]);
        (if release {
            1nat
        } else {
            0nat
        }) + releases(next, events.skip(1))
    }
}

/// Whatever happens, the codec is never released twice: it is released
/// once in all where the session ends up closed, and not at all where it
/// does not. A session that is closed already is not released again.
pub proof fn lemma_released_once(state: SessionState, events: Seq<EncoderEvent>)
    ensures
        state == SessionState::Closed ==> releases(state, events) == 0 && encoder_run(state, events)
            == SessionState::Closed,
        state != SessionState::Closed ==> releases(state, events) == (if encoder_run(state, events)
            == SessionState::Closed {
            1nat
        } else {
            0nat
        }),
    decreases events.len(),
{
    if events.len() > 0 {
        lemma_released_once(encoder_step(state, events[0]).0, events.skip(1));
    }
}

/// Teardown always leaves the session closed: once the listener has left,
/// the codec has been released exactly once, whatever happened before and
/// whatever is tried after.
pub proof fn lemma_teardown_releases(
    before: Seq<EncoderEvent>,
    after: Seq<EncoderEvent>,
)
    ensures
        encoder_run(SessionState::Open, before.push(EncoderEvent::Teardown) + after)
            == SessionState::Closed,
        releases(SessionState::Open, before.push(EncoderEvent::Teardown) + after) == 1,
{
    let events = before.push(EncoderEvent::Teardown) + after;
    lemma_run_ends_closed(SessionState::Open, before, after);
    lemma_released_once(SessionState::Open, events);
}

/// A run in which the listener leaves ends closed.
proof fn lemma_run_ends_closed(
    state: SessionState,
    before: Seq<EncoderEvent>,
    after: Seq<EncoderEvent>,
)
    ensures
        encoder_run(state, before.push(EncoderEvent::Teardown) + after) == SessionState::Closed,
    decreases before.len(),
{
    let events = before.push(EncoderEvent::Teardown) + after;
    if before.len() == 0 {
        assert(events[0] == EncoderEvent::Teardown);
        assert(events.skip(1) =~= after);
        lemma_released_once(SessionState::Closed, after);
    } else {
        assert(events[0] == before[0]);
        assert(events.skip(1) =~= before.skip(1).push(EncoderEvent::Teardown) + after);
        lemma_run_ends_closed(encoder_step(state, before[0]).0, before.skip(1), after);
    }
}

} // verus!
