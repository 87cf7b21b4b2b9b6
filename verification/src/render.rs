//! Turns the frames of a sequence into the samples of a video track, one
//! H.264 access unit for each attempt.
//!
//! The encoder is OpenH264's. Nothing is known here of the bytes it gives
//! back; what is fixed is what it is given, and what is made of its answer.

use vstd::prelude::*;
use crate::geometry::lemma_layout_bounds;
use crate::geometry::spec_canvas_width;
use crate::geometry::HEIGHT;
use crate::model::Sequence;
use crate::model::SequenceView;
use crate::sequencer::renderable;
use crate::sequencer::Sequencer;
use crate::text::decimal;
use crate::text::spec_decimal;

verus! {

/// OpenH264's encoder. Nothing is known of what it holds but the size of
/// the pictures it was set up for.
#[verifier::external_type_specification]
#[verifier::external_body]
pub struct ExEncoder(openh264::encoder::Encoder);

/// OpenH264's picture in YUV, as made from RGB pixels. Nothing is known of
/// what it holds but its size.
#[verifier::external_type_specification]
#[verifier::external_body]
pub struct ExConverter(openh264::formats::RBGYUVConverter);

/// OpenH264's error. Nothing is known of what it holds but what it says of
/// itself.
#[verifier::external_type_specification]
#[verifier::external_body]
pub struct ExEncoderError(openh264::Error);

/// Time units per second of the track: one frame lasts one unit.
pub const TIMESCALE: u32 = 60;

/// Number of the one track that the samples go to.
pub const TRACK_ID: u32 = 1;

/// Width and height, in pixels, of the pictures that an encoder was set up
/// for.
pub uninterp spec fn spec_encoder_size(encoder: openh264::encoder::Encoder) -> (int, int);

/// Width and height, in pixels, of the picture that a converter holds.
pub uninterp spec fn spec_picture_size(picture: openh264::formats::RBGYUVConverter) -> (int, int);

/// What an encoder's error says of itself.
pub uninterp spec fn spec_encoder_error_text(err: openh264::Error) -> Seq<char>;

/// Calls `Encoder::with_config` with the default configuration of
/// `EncoderConfig::new` for pictures of `width` by `height` pixels.
///
/// Believed of it: for a width and a height that a signed 32-bit number can
/// hold, an encoder that comes back is set up for that size.
#[verifier::external_body]
fn new_encoder(
    width: u32,
    height: u32,
) -> (made: Result<openh264::encoder::Encoder, openh264::Error>)
    requires
        width <= i32::MAX,
        height <= i32::MAX,
    ensures
        made matches Ok(encoder) ==> spec_encoder_size(encoder) == (width as int, height as int),
{
    openh264::encoder::Encoder::with_config(openh264::encoder::EncoderConfig::new(width, height))
}

/// Calls `RBGYUVConverter::new` and `RBGYUVConverter::convert` on a buffer
/// of `width` by `height` RGB pixels.
///
/// Believed of it: for a buffer of three bytes for each pixel, with an even
/// width and an even height, it returns a picture of that size.
#[verifier::external_body]
fn rgb_to_yuv(
    pixels: &Vec<u8>,
    width: u32,
    height: u32,
) -> (picture: openh264::formats::RBGYUVConverter)
    requires
        pixels@.len() == width * height * 3,
        width * height * 3 <= u32::MAX,
        width % 2 == 0,
        height % 2 == 0,
    ensures
        spec_picture_size(picture) == (width as int, height as int),
{
    let mut picture = openh264::formats::RBGYUVConverter::new(width as usize, height as usize);
    picture.convert(pixels);
    picture
}

/// Calls `Encoder::encode` on a picture, and `EncodedBitStream::write_vec`
/// on what it returns.
///
/// Believed of it: for a picture of the size that the encoder was set up
/// for, it returns, and the encoder stays set up for that size.
#[verifier::external_body]
fn encode(
    encoder: &mut openh264::encoder::Encoder,
    picture: &openh264::formats::RBGYUVConverter,
) -> (encoded: Result<Vec<u8>, openh264::Error>)
    requires
        spec_picture_size(*picture) == spec_encoder_size(*old(encoder)),
    ensures
        spec_encoder_size(*final(encoder)) == spec_encoder_size(*old(encoder)),
{
    let mut bytes = vec![];
    encoder.encode(picture)?.write_vec(&mut bytes);
    Ok(bytes)
}

/// Calls `to_string` on an encoder's error: its `Display`.
#[verifier::external_body]
fn encoder_error_text(err: &openh264::Error) -> (text: String)
    ensures
        text@ == spec_encoder_error_text(*err),
{
    err.to_string()
}

/// What went wrong while a frame was made into a sample.
#[derive(Debug)]
pub enum RenderErrorKind {
    /// The encoder could not be set up, or refused a picture.
    H264(openh264::Error),
}

/// Why rendering stopped, and at which frame, where that is known.
#[derive(Debug)]
pub struct RenderError {
    pub kind: RenderErrorKind,
    pub frame: Option<u32>,
}

/// One encoded frame, with what the track needs to know of it.
#[derive(Debug, Clone, PartialEq, Eq)]
pub struct Sample {
    /// When the frame is shown, in units of the track's timescale.
    pub start_time: u64,
    /// How long the frame is shown.
    pub duration: u32,
    /// Offset between decoding and showing the frame.
    pub rendering_offset: i32,
    /// Whether decoding can start at this frame.
    pub is_sync: bool,
    /// The encoded frame.
    pub bytes: Vec<u8>,
}

/// The frame number that an error at attempt `index` is tagged with: the
/// index, where a `u32` can hold it.
pub open spec fn spec_frame_tag(index: int) -> Option<u32> {
    if 0 <= index <= u32::MAX {
        Some(index as u32)
    } else {
        None
    }
}

/// The frame number that an error at attempt `index` is tagged with.
pub fn frame_tag(index: usize) -> (tag: Option<u32>)
    ensures
        tag == spec_frame_tag(index as int),
{
    if index <= u32::MAX as usize {
        Some(index as u32)
    } else {
        None
    }
}

/// The sample that the encoder's answer for attempt `index` makes: its
/// bytes, shown for one unit of time from `index` on; or the encoder's
/// error, tagged with the frame.
pub fn finish_sample(index: usize, encoded: Result<Vec<u8>, openh264::Error>) -> (sample: Result<
    Sample,
    RenderError,
>)
    ensures
        match encoded {
            Ok(bytes) => sample matches Ok(s) && s.start_time == index && s.duration == 1
                && s.rendering_offset == 0 && s.is_sync && s.bytes == bytes,
            Err(err) => sample matches Err(e) && e.kind == RenderErrorKind::H264(err) && e.frame
                == spec_frame_tag(index as int),
        },
{
    match encoded {
        Ok(bytes) => Ok(
            Sample {
                start_time: index as u64,
                duration: 1,
                rendering_offset: 0,
                is_sync: true,
                bytes,
            },
        ),
        Err(err) => Err(RenderError { kind: RenderErrorKind::H264(err), frame: frame_tag(index) }),
    }
}

/// A walk through a sequence that hands out encoded frames.
pub struct Renderer {
    sequencer: Sequencer,
    encoder: openh264::encoder::Encoder,
    width: u32,
}

impl Renderer {
    /// Index of the attempt that is encoded next.
    pub closed spec fn spec_position(&self) -> int {
        self.sequencer.spec_position()
    }

    /// The permanent buffer as it stands.
    pub closed spec fn spec_permanent(&self) -> Seq<u8> {
        self.sequencer.spec_permanent()
    }

    /// The state is one that rendering `seq` reaches.
    pub closed spec fn wf(&self, seq: SequenceView) -> bool {
        &&& self.sequencer.wf(seq)
        &&& self.width == spec_canvas_width(seq.nb_banks)
        &&& spec_encoder_size(self.encoder) == (self.width as int, 512int)
    }

    /// Sets up the canvas and the encoder for `sequence`. There is no
    /// renderer where the sequence cannot be drawn; an encoder that cannot
    /// be set up is an error that belongs to no frame.
    pub fn new(sequence: &Sequence) -> (made: Result<Option<Self>, RenderError>)
        requires
            sequence@.wf(),
        ensures
            made matches Ok(None) <==> !renderable(sequence@),
            made matches Ok(Some(renderer)) ==> renderer.wf(sequence@) && renderer.spec_position()
                == 0,
            made matches Err(err) ==> err.frame is None,
    {
        let sequencer: Sequencer = match Sequencer::new(sequence) {
            Some(sequencer) => sequencer,
            None => {
                return Ok(None);
            },
        };
        proof {
            sequencer.lemma_wf(sequence@);
            sequencer.lemma_canvas(sequence@);
            lemma_layout_bounds(sequence@.nb_banks);
        }
        let width: u32 = sequencer.canvas().width();
        match new_encoder(width, HEIGHT) {
            Ok(encoder) => Ok(Some(Renderer { sequencer, encoder, width })),
            Err(err) => Err(RenderError { kind: RenderErrorKind::H264(err), frame: None }),
        }
    }

    /// Width of the pictures, in pixels.
    pub fn width(&self) -> (width: u32)
        ensures
            width == self.spec_width(),
    {
        self.width
    }

    /// Width of the pictures, in pixels.
    pub closed spec fn spec_width(&self) -> int {
        self.width as int
    }

    /// Width and height of the pictures as a track header holds them.
    pub fn track_size(&self, sequence: &Sequence) -> (size: (u16, u16))
        requires
            self.wf(sequence@),
        ensures
            size.0 == self.spec_width(),
            size.1 == 512,
    {
        proof {
            self.lemma_wf(sequence@);
        }
        (self.width as u16, HEIGHT as u16)
    }

    /// Height of the pictures, in pixels.
    pub fn height(&self) -> (height: u32)
        ensures
            height == 512,
    {
        HEIGHT
    }

    /// What a well-formed state holds.
    pub proof fn lemma_wf(&self, seq: SequenceView)
        requires
            self.wf(seq),
        ensures
            renderable(seq),
            0 <= self.spec_position() <= seq.frames.len(),
            self.spec_permanent() == crate::sequencer::spec_permanent(seq, self.spec_position()),
            self.spec_width() == spec_canvas_width(seq.nb_banks),
            2 <= self.spec_width() <= 1022,
            self.spec_width() % 2 == 0,
    {
        self.sequencer.lemma_wf(seq);
        lemma_layout_bounds(seq.nb_banks);
    }

    /// Encodes `pixels`, the frame of attempt `index`, which the walk has
    /// just left behind, and makes a sample of the encoder's answer.
    pub fn encode_frame(
        &mut self,
        sequence: &Sequence,
        index: usize,
        pixels: &Vec<u8>,
    ) -> (sample: Result<Sample, RenderError>)
        requires
            old(self).wf(sequence@),
            index + 1 == old(self).spec_position(),
            pixels@ == crate::sequencer::spec_frame(sequence@, index as int),
        ensures
            final(self).wf(sequence@),
            final(self).spec_position() == old(self).spec_position(),
            final(self).spec_permanent() == old(self).spec_permanent(),
            sample matches Ok(s) ==> s.start_time == index && s.duration == 1 && s.rendering_offset
                == 0 && s.is_sync,
            sample matches Err(err) ==> err.frame == spec_frame_tag(index as int),
    {
        proof {
            self.sequencer.lemma_wf(sequence@);
            lemma_layout_bounds(sequence@.nb_banks);
            crate::sequencer::lemma_frame_len(sequence@, index as int);
        }
        let picture = rgb_to_yuv(pixels, self.width, HEIGHT);
        let encoded = encode(&mut self.encoder, &picture);
        finish_sample(index, encoded)
    }

    /// Encodes the frame of the next attempt, or returns `None` when every
    /// attempt has been encoded. Whatever the encoder answers, the walk
    /// moves on by one attempt, which is committed to the permanent buffer
    /// if the attempt after it is for another section.
    pub fn next_sample(
        &mut self,
        sequence: &Sequence,
    ) -> (sample: Result<Option<Sample>, RenderError>)
        requires
            old(self).wf(sequence@),
        ensures
            final(self).wf(sequence@),
            sample matches Ok(None) <==> old(self).spec_position() == sequence@.frames.len(),
            sample matches Ok(None) ==> final(self).spec_position() == old(self).spec_position(),
            !(sample matches Ok(None)) ==> final(self).spec_position() == old(self).spec_position()
                + 1,
            sample matches Ok(Some(s)) ==> s.start_time == old(self).spec_position() && s.duration
                == 1 && s.rendering_offset == 0 && s.is_sync,
            sample matches Err(err) ==> err.frame == spec_frame_tag(old(self).spec_position()),
            final(self).spec_permanent() == crate::sequencer::spec_permanent(
                sequence@,
                final(self).spec_position(),
            ),
    {
        let index: usize = self.sequencer.position();
        let pixels: Vec<u8> = match self.sequencer.next_frame(sequence) {
            Some(pixels) => pixels,
            None => {
                return Ok(None);
            },
        };
        proof {
            self.sequencer.lemma_wf(sequence@);
        }
        match self.encode_frame(sequence, index, &pixels) {
            Ok(sample) => Ok(Some(sample)),
            Err(err) => Err(err),
        }
    }
}

/// The headers of the samples of a sequence's first `n` attempts: each is
/// shown for one unit of time from its index on.
pub open spec fn samples_in_order(samples: Seq<Sample>, n: int) -> bool {
    &&& samples.len() == n
    &&& forall|i: int|
        0 <= i < n ==> {
            &&& (#[trigger] samples[i]).start_time == i
            &&& samples[i].duration == 1
            &&& samples[i].rendering_offset == 0
            &&& samples[i].is_sync
        }
}

/// Encodes every attempt of `sequence`, in order, and returns the samples.
/// There are none where the sequence cannot be drawn. The first error of
/// the encoder ends the run: it belongs to no frame if the encoder could
/// not be set up, and to the frame it refused otherwise.
pub fn render(sequence: &Sequence) -> (rendered: Result<Option<Vec<Sample>>, RenderError>)
    requires
        sequence@.wf(),
    ensures
        rendered matches Ok(None) <==> !renderable(sequence@),
        rendered matches Ok(Some(samples)) ==> samples_in_order(
            samples@,
            sequence@.frames.len() as int,
        ),
        rendered matches Err(err) ==> err.frame is None || exists|i: int|
            0 <= i < sequence@.frames.len() && err.frame == #[trigger] spec_frame_tag(i),
{
    let mut renderer: Renderer = match Renderer::new(sequence) {
        Ok(Some(renderer)) => renderer,
        Ok(None) => {
            return Ok(None);
        },
        Err(err) => {
            return Err(err);
        },
    };
    let mut samples: Vec<Sample> = Vec::new();
    loop
        invariant
            renderer.wf(sequence@),
            renderable(sequence@),
            samples_in_order(samples@, renderer.spec_position()),
        decreases sequence@.frames.len() - renderer.spec_position(),
    {
        let ghost index = renderer.spec_position();
        proof {
            renderer.lemma_wf(sequence@);
        }
        match renderer.next_sample(sequence) {
            Ok(Some(sample)) => {
                samples.push(sample);
            },
            Ok(None) => {
                return Ok(Some(samples));
            },
            Err(err) => {
                assert(err.frame == spec_frame_tag(index));
                return Err(err);
            },
        }
    }
}

impl RenderErrorKind {
    /// What the error stems from, in words.
    pub open spec fn spec_source(&self) -> Seq<char> {
        match self {
            RenderErrorKind::H264(_) => "H264 error"@,
        }
    }

    /// What the error itself says.
    pub open spec fn spec_detail(&self) -> Seq<char> {
        match self {
            RenderErrorKind::H264(err) => spec_encoder_error_text(*err),
        }
    }
}

impl RenderError {
    /// Where the error happened, in words: nothing where no frame is known.
    pub open spec fn spec_place(frame: Option<u32>) -> Seq<char> {
        match frame {
            Some(frame) => " (on frame "@ + spec_decimal(frame as nat) + ")"@,
            None => Seq::empty(),
        }
    }

    /// The error in words: its source, the frame where one is known, and
    /// what the error itself says.
    pub open spec fn spec_message(&self) -> Seq<char> {
        self.kind.spec_source() + Self::spec_place(self.frame) + ": "@ + self.kind.spec_detail()
    }

    /// The error in words.
    pub fn message(&self) -> (message: String)
        ensures
            message@ == self.spec_message(),
    {
        let mut message: String = match &self.kind {
            RenderErrorKind::H264(_) => String::from_str("H264 error"),
        };
        match self.frame {
            Some(frame) => {
                message.append(" (on frame ");
                message.append(decimal(frame as u64).as_str());
                message.append(")");
            },
            None => {
                assert(message@ + Seq::<char>::empty() =~= message@);
            },
        }
        message.append(": ");
        match &self.kind {
            RenderErrorKind::H264(err) => {
                message.append(encoder_error_text(err).as_str());
            },
        }
        assert(message@ =~= self.spec_message());
        message
    }
}

} // verus!
