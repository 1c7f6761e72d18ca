//! Delivery: handing rendered frames to a consumer, at once or in time.
//!
//! In bulk, every frame is rendered and the texts are returned together. In
//! a stream, frames go out one by one: a frame is read and rendered only when
//! it is about to be handed over, a pause of the frame's own delay follows,
//! and a closing signal ends the stream. A consumer that refuses a frame has
//! left; the stream then stops at once, and reads and renders nothing more.
//!
//! The stream is planned here and carried out elsewhere. [`Delivery::step`]
//! takes what happened last and says what to do next; whoever drives it does
//! the sending and the waiting. On the wire a frame is a line with the
//! number of characters of its text, followed by the text; the line `end`
//! closes the stream, and the line `error` with a message breaks it off.

use vstd::prelude::*;
use vstd::string::*;
use crate::animation::{
    decode,
    frames_view,
    spec_decode,
    AnimationFrame,
    FrameReader,
    FrameView,
    Pending,
};
use crate::error::RenderError;
use crate::glyph::LINE_BREAK;
use crate::pipeline::{render_frame, spec_rendering, RenderConfig};

verus! {

/// Milliseconds in one unit of frame delay.
pub const MILLIS_PER_UNIT: u64 = 10;

/// Number of rendered frames that may wait between producer and consumer. A
/// producer that is this far ahead is held back until the consumer catches up.
pub const CHANNEL_CAPACITY: usize = 2;

/// A frame delay in milliseconds.
pub open spec fn spec_delay_millis(delay: u16) -> int {
    delay * 10
}

/// Converts a frame delay from the container's unit to milliseconds.
pub fn delay_millis(delay: u16) -> (millis: u64)
    ensures
        millis == spec_delay_millis(delay),
{
    (delay as u64) * MILLIS_PER_UNIT
}

/// Whether a frame can be rendered at a width.
pub open spec fn spec_fits(frame: FrameView, width: u32, config: RenderConfig) -> bool {
    config.spec_accepts(frame.width, frame.height, width)
}

/// Whether `texts` are renderings of `frames`, one each and in order.
pub open spec fn spec_renderings(
    texts: Seq<String>,
    frames: Seq<FrameView>,
    width: u32,
    config: RenderConfig,
) -> bool {
    &&& texts.len() == frames.len()
    &&& forall|i: int|
        0 <= i < frames.len() ==> {
            &&& spec_fits(#[trigger] frames[i], width, config)
            &&& spec_rendering(
                texts[i]@,
                frames[i].pixels,
                frames[i].width,
                frames[i].height,
                width,
                config,
            )
        }
}

/// Renders every frame of a sequence, in order.
///
/// Fails with `MalformedFrame` exactly when some frame cannot be rendered at
/// this width.
pub fn render_all(frames: &Vec<AnimationFrame>, width: u32, config: &RenderConfig) -> (rendered:
    Result<Vec<String>, RenderError>)
    ensures
        match rendered {
            Ok(texts) => spec_renderings(texts@, frames_view(frames@), width, *config),
            Err(error) => {
                &&& error == RenderError::MalformedFrame
                &&& exists|i: int|
                    0 <= i < frames@.len() && !spec_fits(
                        #[trigger] frames_view(frames@)[i],
                        width,
                        *config,
                    )
            },
        },
{
    let mut texts: Vec<String> = Vec::new();
    let mut i: usize = 0;
    while i < frames.len()
        invariant
            i <= frames@.len(),
            texts@.len() == i,
            forall|k: int|
                0 <= k < i ==> {
                    &&& spec_fits(#[trigger] frames_view(frames@)[k], width, *config)
                    &&& spec_rendering(
                        texts@[k]@,
                        frames_view(frames@)[k].pixels,
                        frames_view(frames@)[k].width,
                        frames_view(frames@)[k].height,
                        width,
                        *config,
                    )
                },
        decreases frames@.len() - i,
    {
        match render_frame(&frames[i].buffer, width, config) {
            Ok(text) => {
                texts.push(text);
            },
            Err(error) => {
                proof {
                    assert(!spec_fits(frames_view(frames@)[i as int], width, *config));
                }
                return Err(error);
            },
        }
        i += 1;
    }
    Ok(texts)
}

/// Decodes data and renders every frame of it, in order. A still picture
/// gives one text.
///
/// The errors are those of decoding, and `MalformedFrame` where some frame
/// cannot be rendered at this width.
pub fn convert_gif(bytes: &[u8], width: u32, config: &RenderConfig) -> (converted: Result<
    Vec<String>,
    RenderError,
>)
    ensures
        match spec_decode(bytes@) {
            Ok(frames) => match converted {
                Ok(texts) => spec_renderings(texts@, frames, width, *config),
                Err(error) => {
                    &&& error == RenderError::MalformedFrame
                    &&& exists|i: int|
                        0 <= i < frames.len() && !spec_fits(#[trigger] frames[i], width, *config)
                },
            },
            Err(refusal) => converted == Err::<Vec<String>, RenderError>(refusal),
        },
        bytes@.len() == 0 ==> converted == Err::<Vec<String>, RenderError>(
            RenderError::EmptyInput,
        ),
{
    match decode(bytes) {
        Ok(frames) => {
            let rendered = render_all(&frames, width, config);
            proof {
                let views = frames_view(frames@);
                assert(spec_decode(bytes@) matches Ok(found) && found == views);
                if rendered is Err {
                    let i = choose|i: int|
                        0 <= i < frames@.len() && !spec_fits(#[trigger] views[i], width, *config);
                    assert(0 <= i < views.len() && !spec_fits(views[i], width, *config));
                }
            }
            rendered
        },
        Err(error) => Err(error),
    }
}

/// Where a stream stands.
#[derive(Clone, Copy, Debug, PartialEq, Eq, Structural)]
pub enum DeliveryPhase {
    /// About to hand over the next frame, or to close.
    Ready,
    /// A frame was handed over; the consumer has not answered yet.
    Offered,
    /// The consumer took the frame; its delay is running.
    Pausing,
    /// Nothing more will be sent.
    Done,
}

/// What happened since the last step.
#[derive(Clone, Copy, Debug, PartialEq, Eq, Structural)]
pub enum DeliveryEvent {
    /// The stream was opened.
    Started,
    /// The consumer took the frame that was handed over.
    Accepted,
    /// The consumer is gone: the frame could not be handed over.
    Refused,
    /// The pause is over.
    Elapsed,
}

/// What to do next.
#[derive(Debug, PartialEq, Eq)]
pub enum DeliveryAction {
    /// Hand this text, the rendering of the next frame, to the consumer.
    Deliver(String),
    /// Pause for this many milliseconds.
    Wait(u64),
    /// Send the signal that closes the stream; nothing follows it.
    Finish,
    /// Send nothing and end.
    Stop,
    /// End: the next frame cannot be read or rendered.
    Fail(RenderError),
}

/// A [`DeliveryAction`] without the text.
pub enum Move {
    Deliver,
    Wait(int),
    Finish,
    Stop,
    Fail(RenderError),
}

/// What a stream's next steps depend on.
pub struct DeliveryView {
    /// The frames that are still to be handed over.
    pub pending: Pending,
    /// The delay of the frame that was handed over last.
    pub delay: u16,
    /// Where the stream stands.
    pub phase: DeliveryPhase,
}

impl DeliveryAction {
    /// The action without its text.
    pub open spec fn spec_move(&self) -> Move {
        match *self {
            DeliveryAction::Deliver(text) => Move::Deliver,
            DeliveryAction::Wait(millis) => Move::Wait(millis as int),
            DeliveryAction::Finish => Move::Finish,
            DeliveryAction::Stop => Move::Stop,
            DeliveryAction::Fail(error) => Move::Fail(error),
        }
    }
}

/// How a stream ends when no frame is left: with the close after a proper
/// end, with a failure after a broken one.
pub open spec fn spec_ending(intact: bool) -> Move {
    if intact {
        Move::Finish
    } else {
        Move::Fail(RenderError::MalformedFrame)
    }
}

/// The step of a stream that is about to hand over its next frame.
///
/// The frame goes out if there is one and it can be rendered, and its delay
/// is kept for the pause. The stream ends when no frame is left, and fails
/// on a frame that cannot be rendered.
pub open spec fn spec_resume(stream: DeliveryView, width: u32, config: RenderConfig) -> (
    DeliveryView,
    Move,
) {
    if stream.pending.frames.len() == 0 {
        (DeliveryView { phase: DeliveryPhase::Done, ..stream }, spec_ending(stream.pending.intact))
    } else {
        let frame = stream.pending.frames[0];
        let rest = Pending { frames: stream.pending.frames.skip(1), ..stream.pending };
        if spec_fits(frame, width, config) {
            (
                DeliveryView { pending: rest, delay: frame.delay, phase: DeliveryPhase::Offered },
                Move::Deliver,
            )
        } else {
            (
                DeliveryView { pending: rest, phase: DeliveryPhase::Done, ..stream },
                Move::Fail(RenderError::MalformedFrame),
            )
        }
    }
}

/// One step of a stream: the state it moves to and what is to be done.
///
/// An accepted frame is followed by its pause, a pause by the next frame or
/// the end. A refusal ends the stream without another word, and so does any
/// event that the stream is not waiting for. A stream that is done stays done
/// and does nothing.
pub open spec fn spec_step(
    stream: DeliveryView,
    event: DeliveryEvent,
    width: u32,
    config: RenderConfig,
) -> (DeliveryView, Move) {
    match (stream.phase, event) {
        (DeliveryPhase::Ready, DeliveryEvent::Started) => spec_resume(stream, width, config),
        (DeliveryPhase::Offered, DeliveryEvent::Accepted) => (
            DeliveryView { phase: DeliveryPhase::Pausing, ..stream },
            Move::Wait(spec_delay_millis(stream.delay)),
        ),
        (DeliveryPhase::Pausing, DeliveryEvent::Elapsed) => spec_resume(stream, width, config),
        _ => (DeliveryView { phase: DeliveryPhase::Done, ..stream }, Move::Stop),
    }
}

/// A stream of rendered frames to one consumer.
pub struct Delivery<'a> {
    reader: FrameReader<'a>,
    width: u32,
    config: RenderConfig,
    delay: u16,
    phase: DeliveryPhase,
}

impl<'a> View for Delivery<'a> {
    type V = DeliveryView;

    closed spec fn view(&self) -> DeliveryView {
        DeliveryView { pending: self.reader.pending(), delay: self.delay, phase: self.phase }
    }
}

impl<'a> Delivery<'a> {
    /// The width at which the frames are rendered.
    pub closed spec fn spec_width(&self) -> u32 {
        self.width
    }

    /// The settings with which the frames are rendered.
    pub closed spec fn spec_config(&self) -> RenderConfig {
        self.config
    }

    /// Opens a stream of the frames of a reader, before its first step.
    pub fn new(reader: FrameReader<'a>, width: u32, config: RenderConfig) -> (stream: Delivery<'a>)
        ensures
            stream@.pending == reader.pending(),
            stream@.phase == DeliveryPhase::Ready,
            stream.spec_width() == width,
            stream.spec_config() == config,
    {
        Delivery { reader, width, config, delay: 0, phase: DeliveryPhase::Ready }
    }

    /// Whether nothing more will be sent.
    pub fn is_done(&self) -> (done: bool)
        ensures
            done == (self@.phase == DeliveryPhase::Done),
    {
        match self.phase {
            DeliveryPhase::Done => true,
            _ => false,
        }
    }

    /// Reads and renders the next frame, or ends the stream.
    fn resume(&mut self) -> (action: DeliveryAction)
        ensures
            final(self)@ == spec_resume(old(self)@, old(self).width, old(self).config).0,
            action.spec_move() == spec_resume(old(self)@, old(self).width, old(self).config).1,
            final(self).width == old(self).width,
            final(self).config == old(self).config,
            action matches DeliveryAction::Deliver(text) ==> {
                &&& old(self)@.pending.frames.len() > 0
                &&& spec_rendering(
                    text@,
                    old(self)@.pending.frames[0].pixels,
                    old(self)@.pending.frames[0].width,
                    old(self)@.pending.frames[0].height,
                    old(self).width,
                    old(self).config,
                )
            },
    {
        match self.reader.next_frame() {
            Ok(Some(frame)) => match render_frame(&frame.buffer, self.width, &self.config) {
                Ok(text) => {
                    self.delay = frame.delay;
                    self.phase = DeliveryPhase::Offered;
                    DeliveryAction::Deliver(text)
                },
                Err(error) => {
                    self.phase = DeliveryPhase::Done;
                    DeliveryAction::Fail(error)
                },
            },
            Ok(None) => {
                self.phase = DeliveryPhase::Done;
                DeliveryAction::Finish
            },
            Err(error) => {
                self.phase = DeliveryPhase::Done;
                DeliveryAction::Fail(error)
            },
        }
    }

    /// Takes what happened last and says what to do next.
    ///
    /// The width and the settings of the stream never change. A text that is
    /// handed out is a rendering of the first of the frames that were pending.
    pub fn step(&mut self, event: DeliveryEvent) -> (action: DeliveryAction)
        ensures
            final(self)@ == spec_step(
                old(self)@,
                event,
                old(self).spec_width(),
                old(self).spec_config(),
            ).0,
            action.spec_move() == spec_step(
                old(self)@,
                event,
                old(self).spec_width(),
                old(self).spec_config(),
            ).1,
            final(self).spec_width() == old(self).spec_width(),
            final(self).spec_config() == old(self).spec_config(),
            action matches DeliveryAction::Deliver(text) ==> {
                &&& old(self)@.pending.frames.len() > 0
                &&& spec_rendering(
                    text@,
                    old(self)@.pending.frames[0].pixels,
                    old(self)@.pending.frames[0].width,
                    old(self)@.pending.frames[0].height,
                    old(self).spec_width(),
                    old(self).spec_config(),
                )
            },
    {
        match (self.phase, event) {
            (DeliveryPhase::Ready, DeliveryEvent::Started) => self.resume(),
            (DeliveryPhase::Offered, DeliveryEvent::Accepted) => {
                self.phase = DeliveryPhase::Pausing;
                DeliveryAction::Wait(delay_millis(self.delay))
            },
            (DeliveryPhase::Pausing, DeliveryEvent::Elapsed) => self.resume(),
            _ => {
                self.phase = DeliveryPhase::Done;
                DeliveryAction::Stop
            },
        }
    }
}

/// The ten decimal digits.
pub const DIGITS: [char; 10] = ['0', '1', '2', '3', '4', '5', '6', '7', '8', '9'];

/// A number written in decimal digits, without leading zeros.
pub open spec fn spec_digits(value: nat) -> Seq<char>
    decreases value,
{
    if value < 10 {
        seq![DIGITS@[value as int]]
    } else {
        spec_digits(value / 10).push(DIGITS@[(value % 10) as int])
    }
}

/// A frame as an event on the wire: a line that holds the number of
/// characters of the text, then the text itself.
pub open spec fn spec_frame_event(text: Seq<char>) -> Seq<char> {
    spec_digits(text.len()) + seq![LINE_BREAK] + text
}

/// Appends a number in decimal digits.
fn push_decimal(out: &mut String, value: usize)
    ensures
        final(out)@ == old(out)@ + spec_digits(value as nat),
    decreases value,
{
    if value >= 10 {
        push_decimal(out, value / 10);
    }
    out.push(DIGITS[value % 10]);
    proof {
        assert(final(out)@ =~= old(out)@ + spec_digits(value as nat));
    }
}

/// Wraps the text of a frame for the wire.
///
/// The consumer reads the first line for the number of characters that
/// follow, so that a text may hold line breaks of its own.
pub fn frame_event(text: &str) -> (event: String)
    ensures
        event@ == spec_frame_event(text@),
{
    let mut event = String::new();
    push_decimal(&mut event, text.unicode_len());
    event.push(LINE_BREAK);
    event.append(text);
    event
}

/// The event that closes a stream: the line `end`.
pub fn closing_event() -> (event: String)
    ensures
        event@ == "end\n"@,
{
    String::from_str("end\n")
}

/// The event that reports why a stream broke off: the line `error`, then a
/// line with the message of the error.
pub fn failure_event(error: RenderError) -> (event: String)
    ensures
        event@ == "error\n"@ + error.spec_message() + seq![LINE_BREAK],
{
    let mut event = String::from_str("error\n");
    event.append(error.message());
    event.push(LINE_BREAK);
    event
}

/// No frame can be taken for the close or for a failure: the event of a
/// frame starts with a digit, and the two others with a letter.
pub proof fn lemma_events_differ(text: Seq<char>)
    ensures
        spec_frame_event(text).len() > 0,
        spec_frame_event(text)[0] != 'e',
        spec_digits(text.len()).len() > 0,
        forall|i: int|
            0 <= i < spec_digits(text.len()).len() ==> spec_frame_event(text)[i] != LINE_BREAK,
        spec_frame_event(text)[spec_digits(text.len()).len() as int] == LINE_BREAK,
{
    lemma_digits_are_digits(text.len());
    let digits = spec_digits(text.len());
    assert forall|i: int| 0 <= i < digits.len() implies spec_frame_event(text)[i]
        != LINE_BREAK by {
        assert(spec_frame_event(text)[i] == digits[i]);
    }
    assert(spec_frame_event(text)[0] == digits[0]);
}

/// A number in decimal digits has at least one digit and holds digits only.
pub proof fn lemma_digits_are_digits(value: nat)
    ensures
        spec_digits(value).len() > 0,
        forall|i: int|
            0 <= i < spec_digits(value).len() ==> '0' <= #[trigger] spec_digits(value)[i] <= '9',
    decreases value,
{
    if value >= 10 {
        lemma_digits_are_digits(value / 10);
    }
}

/// The moves of a stream over a run of events.
pub open spec fn spec_run(
    stream: DeliveryView,
    events: Seq<DeliveryEvent>,
    width: u32,
    config: RenderConfig,
) -> Seq<Move>
    decreases events.len(),
{
    if events.len() == 0 {
        Seq::empty()
    } else {
        seq![spec_step(stream, events[0], width, config).1] + spec_run(
            spec_step(stream, events[0], width, config).0,
            events.skip(1),
            width,
            config,
        )
    }
}

/// The events that a consumer causes who takes `frames` frames, each in its
/// time: every frame is accepted and every pause runs out.
pub open spec fn spec_patient(frames: nat) -> Seq<DeliveryEvent>
    decreases frames,
{
    if frames == 0 {
        Seq::empty()
    } else {
        seq![DeliveryEvent::Accepted, DeliveryEvent::Elapsed] + spec_patient((frames - 1) as nat)
    }
}

/// What follows the handing over of a frame of the given delay: its pause,
/// then each later frame with its pause, then the end.
pub open spec fn spec_schedule_after(delay: u16, later: Seq<FrameView>, intact: bool) -> Seq<Move>
    decreases later.len(),
{
    if later.len() == 0 {
        seq![Move::Wait(spec_delay_millis(delay)), spec_ending(intact)]
    } else {
        seq![Move::Wait(spec_delay_millis(delay)), Move::Deliver] + spec_schedule_after(
            later[0].delay,
            later.skip(1),
            intact,
        )
    }
}

/// The whole schedule of a stream: every frame in order, each followed by a
/// pause of its own delay, and the end after the last.
pub open spec fn spec_schedule(frames: Seq<FrameView>, intact: bool) -> Seq<Move> {
    if frames.len() == 0 {
        seq![spec_ending(intact)]
    } else {
        seq![Move::Deliver] + spec_schedule_after(frames[0].delay, frames.skip(1), intact)
    }
}

/// A stream that is done stays done, whatever happens, and does nothing.
pub proof fn lemma_done_is_final(
    stream: DeliveryView,
    event: DeliveryEvent,
    width: u32,
    config: RenderConfig,
)
    requires
        stream.phase == DeliveryPhase::Done,
    ensures
        spec_step(stream, event, width, config) == (stream, Move::Stop),
{
}

/// After the close, a refusal or a failure, the stream is done.
pub proof fn lemma_last_words(
    stream: DeliveryView,
    event: DeliveryEvent,
    width: u32,
    config: RenderConfig,
)
    ensures
        ({
            let (next, action) = spec_step(stream, event, width, config);
            action is Finish || action is Stop || action is Fail ==> next.phase
                == DeliveryPhase::Done
        }),
{
}

/// A consumer that refuses a frame ends the stream at once: nothing is sent,
/// no frame is read or rendered, and the stream is done.
pub proof fn lemma_refusal_stops(stream: DeliveryView, width: u32, config: RenderConfig)
    requires
        stream.phase == DeliveryPhase::Offered,
    ensures
        spec_step(stream, DeliveryEvent::Refused, width, config) == (
            DeliveryView { phase: DeliveryPhase::Done, ..stream },
            Move::Stop,
        ),
{
}

/// Frames go out in order: the frame that is handed over is always the first
/// of those pending, the frames after it stay pending in their order, and no
/// other step takes a frame away, but for the failure on a frame that cannot
/// be rendered.
pub proof fn lemma_frames_in_order(
    stream: DeliveryView,
    event: DeliveryEvent,
    width: u32,
    config: RenderConfig,
)
    ensures
        ({
            let (next, action) = spec_step(stream, event, width, config);
            &&& action is Deliver ==> {
                &&& stream.pending.frames.len() > 0
                &&& spec_fits(stream.pending.frames[0], width, config)
                &&& next.pending.frames == stream.pending.frames.skip(1)
                &&& next.delay == stream.pending.frames[0].delay
                &&& next.phase == DeliveryPhase::Offered
            }
            &&& !(action is Deliver) && !(action is Fail) ==> next.pending == stream.pending
            &&& next.pending.intact == stream.pending.intact
        }),
{
}

/// The pause after a frame is the frame's own delay, ten milliseconds to the
/// unit.
pub proof fn lemma_pause_is_frame_delay(stream: DeliveryView, width: u32, config: RenderConfig)
    requires
        stream.phase == DeliveryPhase::Ready || stream.phase == DeliveryPhase::Pausing,
        stream.pending.frames.len() > 0,
        spec_fits(stream.pending.frames[0], width, config),
    ensures
        ({
            let event = if stream.phase == DeliveryPhase::Ready {
                DeliveryEvent::Started
            } else {
                DeliveryEvent::Elapsed
            };
            let (offered, first) = spec_step(stream, event, width, config);
            let (paused, second) = spec_step(offered, DeliveryEvent::Accepted, width, config);
            &&& first == Move::Deliver
            &&& second == Move::Wait(10 * stream.pending.frames[0].delay)
            &&& paused.phase == DeliveryPhase::Pausing
        }),
{
}

/// With a patient consumer, what follows the handing over of a frame is the
/// rest of the schedule.
proof fn lemma_patient_tail(stream: DeliveryView, width: u32, config: RenderConfig)
    requires
        stream.phase == DeliveryPhase::Offered,
        forall|i: int|
            0 <= i < stream.pending.frames.len() ==> spec_fits(
                #[trigger] stream.pending.frames[i],
                width,
                config,
            ),
    ensures
        spec_run(stream, spec_patient(stream.pending.frames.len() + 1), width, config)
            == spec_schedule_after(stream.delay, stream.pending.frames, stream.pending.intact),
    decreases stream.pending.frames.len(),
{
    let left = stream.pending.frames.len();
    let events = spec_patient(left + 1);
    let (paused, first) = spec_step(stream, DeliveryEvent::Accepted, width, config);
    let (next, second) = spec_step(paused, DeliveryEvent::Elapsed, width, config);
    let rest = spec_patient(left);
    assert(events =~= seq![DeliveryEvent::Accepted, DeliveryEvent::Elapsed] + rest);
    assert(events[0] == DeliveryEvent::Accepted);
    assert(events.skip(1)[0] == DeliveryEvent::Elapsed);
    assert(events.skip(1).skip(1) =~= rest);
    reveal_with_fuel(spec_run, 3);
    assert(spec_run(stream, events, width, config) =~= seq![first, second] + spec_run(
        next,
        rest,
        width,
        config,
    ));
    if left == 0 {
        assert(rest =~= Seq::<DeliveryEvent>::empty());
        assert(spec_run(next, rest, width, config) =~= Seq::<Move>::empty());
        assert(spec_run(stream, events, width, config) =~= spec_schedule_after(
            stream.delay,
            stream.pending.frames,
            stream.pending.intact,
        ));
    } else {
        assert(spec_fits(stream.pending.frames[0], width, config));
        assert forall|i: int| 0 <= i < next.pending.frames.len() implies spec_fits(
            #[trigger] next.pending.frames[i],
            width,
            config,
        ) by {
            assert(next.pending.frames[i] == stream.pending.frames[i + 1]);
        }
        lemma_patient_tail(next, width, config);
        assert(spec_run(stream, events, width, config) =~= spec_schedule_after(
            stream.delay,
            stream.pending.frames,
            stream.pending.intact,
        ));
    }
}

/// With a consumer that takes every frame in its time, a stream whose frames
/// can all be rendered runs through its whole schedule: each frame in order,
/// each followed by a pause of its own delay, then the end, once.
pub proof fn lemma_patient_consumer_gets_all(stream: DeliveryView, width: u32, config: RenderConfig)
    requires
        stream.phase == DeliveryPhase::Ready,
        forall|i: int|
            0 <= i < stream.pending.frames.len() ==> spec_fits(
                #[trigger] stream.pending.frames[i],
                width,
                config,
            ),
    ensures
        spec_run(
            stream,
            seq![DeliveryEvent::Started] + spec_patient(stream.pending.frames.len()),
            width,
            config,
        ) == spec_schedule(stream.pending.frames, stream.pending.intact),
{
    let count = stream.pending.frames.len();
    let events = seq![DeliveryEvent::Started] + spec_patient(count);
    let (next, first) = spec_step(stream, DeliveryEvent::Started, width, config);
    assert(events[0] == DeliveryEvent::Started);
    assert(events.skip(1) =~= spec_patient(count));
    if count == 0 {
        assert(spec_run(next, events.skip(1), width, config) =~= Seq::<Move>::empty());
        assert(spec_run(stream, events, width, config) =~= spec_schedule(
            stream.pending.frames,
            stream.pending.intact,
        ));
    } else {
        assert(spec_fits(stream.pending.frames[0], width, config));
        assert forall|i: int| 0 <= i < next.pending.frames.len() implies spec_fits(
            #[trigger] next.pending.frames[i],
            width,
            config,
        ) by {
            assert(next.pending.frames[i] == stream.pending.frames[i + 1]);
        }
        lemma_patient_tail(next, width, config);
        assert(spec_run(stream, events, width, config) =~= spec_schedule(
            stream.pending.frames,
            stream.pending.intact,
        ));
    }
}

} // verus!
