//! Walks the attempts of a sequence in order and hands out one frame for
//! each: the placements committed so far, with the attempt itself in red.
//! An attempt is committed once the attempt after it is for another section.

use vstd::prelude::*;
use crate::canvas::is_blank;
use crate::canvas::is_committed;
use crate::canvas::lemma_settle_keeps_committed;
use crate::canvas::spec_background;
use crate::canvas::spec_buffer_len;
use crate::canvas::spec_filled_color;
use crate::canvas::spec_overlay_color;
use crate::canvas::spec_paint;
use crate::canvas::Canvas;
use crate::geometry::valid_bank_count;
use crate::geometry::MAX_BANKS;
use crate::model::Frame;
use crate::model::Section;
use crate::model::Sequence;
use crate::model::SequenceView;

verus! {

/// Whether attempt `i` can be drawn: its bank is on the canvas.
pub open spec fn placeable(seq: SequenceView, i: int) -> bool {
    seq.frames[i].location.bank < seq.nb_banks
}

/// Whether a canvas can be laid out for the sequence and every attempt drawn
/// on it.
pub open spec fn renderable(seq: SequenceView) -> bool {
    &&& seq.wf()
    &&& valid_bank_count(seq.nb_banks)
    &&& forall|i: int| 0 <= i < seq.frames.len() ==> #[trigger] placeable(seq, i)
}

/// Whether attempt `i` is committed once its frame is out: there is a next
/// attempt, and it is for another section.
pub open spec fn settles(seq: SequenceView, i: int) -> bool {
    &&& 0 <= i
    &&& i + 1 < seq.frames.len()
    &&& seq.frames[i + 1].section_id != seq.frames[i].section_id
}

/// The permanent buffer when attempt `i` is about to be shown: the
/// background, with every earlier attempt that was committed in green.
pub open spec fn spec_permanent(seq: SequenceView, i: int) -> Seq<u8>
    decreases i,
{
    if i <= 0 {
        spec_background(seq.nb_banks)
    } else if settles(seq, i - 1) {
        spec_paint(
            spec_permanent(seq, i - 1),
            seq.nb_banks,
            seq.frames[i - 1].location,
            seq.section_of(i - 1).size as int,
            spec_filled_color(),
        )
    } else {
        spec_permanent(seq, i - 1)
    }
}

/// The frame of attempt `i`: the permanent buffer at that point, with the
/// attempt itself in red.
pub open spec fn spec_frame(seq: SequenceView, i: int) -> Seq<u8> {
    spec_paint(
        spec_permanent(seq, i),
        seq.nb_banks,
        seq.frames[i].location,
        seq.section_of(i).size as int,
        spec_overlay_color(),
    )
}

/// The permanent buffer has the same size at every point.
pub proof fn lemma_permanent_len(seq: SequenceView, i: int)
    ensures
        spec_permanent(seq, i).len() == spec_background(seq.nb_banks).len(),
    decreases i,
{
    if i > 0 {
        lemma_permanent_len(seq, i - 1);
    }
}

/// Every frame has the size of the permanent buffer.
pub proof fn lemma_frame_len(seq: SequenceView, i: int)
    requires
        valid_bank_count(seq.nb_banks),
    ensures
        spec_frame(seq, i).len() == spec_buffer_len(seq.nb_banks),
{
    lemma_permanent_len(seq, i);
    crate::geometry::lemma_layout_bounds(seq.nb_banks);
}

/// Once a pixel of the permanent buffer has the committed colour, it has it
/// at every later point, and so is never white again.
pub proof fn lemma_permanent_keeps_committed(seq: SequenceView, i: int, j: int, p: int)
    requires
        i <= j,
        0 <= p,
        3 * p + 2 < spec_permanent(seq, i).len(),
        is_committed(spec_permanent(seq, i), p),
    ensures
        is_committed(spec_permanent(seq, j), p),
        !is_blank(spec_permanent(seq, j), p),
    decreases j - i,
{
    if i < j {
        lemma_permanent_keeps_committed(seq, i, j - 1, p);
        lemma_permanent_len(seq, i);
        lemma_permanent_len(seq, j - 1);
        if j > 0 && settles(seq, j - 1) {
            lemma_settle_keeps_committed(
                spec_permanent(seq, j - 1),
                seq.nb_banks,
                seq.frames[j - 1].location,
                seq.section_of(j - 1).size as int,
                p,
            );
        }
    }
}

/// The last attempt of a sequence is never committed, and of two attempts in
/// a row for one section the first is not.
pub proof fn lemma_settles_at_section_change(seq: SequenceView, i: int)
    requires
        0 <= i < seq.frames.len(),
    ensures
        i + 1 == seq.frames.len() ==> !settles(seq, i),
        i + 1 < seq.frames.len() ==> (settles(seq, i) <==> seq.frames[i + 1].section_id
            != seq.frames[i].section_id),
        !settles(seq, i) ==> spec_permanent(seq, i + 1) == spec_permanent(seq, i),
{
}

/// Whether a canvas can be laid out for the sequence and every attempt drawn
/// on it.
pub fn is_renderable(sequence: &Sequence) -> (ok: bool)
    requires
        sequence@.wf(),
    ensures
        ok == renderable(sequence@),
{
    let nb_banks: u64 = sequence.nb_banks();
    if nb_banks > MAX_BANKS as u64 {
        return false;
    }
    let frames: &Vec<Frame> = sequence.frames();
    let sections: &Vec<Section> = sequence.sections();
    let mut i: usize = 0;
    while i < frames.len()
        invariant
            sequence@.wf(),
            frames@ == sequence@.frames,
            sections@.len() == sequence@.sections.len(),
            forall|j: int|
                0 <= j < sections@.len() ==> (#[trigger] sections@[j])@ == sequence@.sections[j],
            nb_banks == sequence@.nb_banks,
            i <= frames.len(),
            forall|j: int| 0 <= j < i ==> #[trigger] placeable(sequence@, j),
        decreases frames.len() - i,
    {
        let frame: Frame = frames[i];
        assert(sequence@.attempt_in_rom(i as int));
        if frame.location.bank as u64 >= nb_banks {
            assert(!placeable(sequence@, i as int));
            return false;
        }
        i += 1;
    }
    true
}

/// Whether attempt `i` of the sequence is committed once its frame is out.
pub fn settles_after(sequence: &Sequence, i: usize) -> (settle: bool)
    ensures
        settle == settles(sequence@, i as int),
{
    let frames: &Vec<Frame> = sequence.frames();
    if i < frames.len() && i + 1 < frames.len() {
        frames[i + 1].section_id != frames[i].section_id
    } else {
        false
    }
}

/// Where the walk through a sequence stands: the next attempt to show, and
/// the permanent buffer at that point.
#[derive(Debug)]
pub struct Sequencer {
    canvas: Canvas,
    next: usize,
}

impl Sequencer {
    /// Index of the attempt that is shown next.
    pub closed spec fn spec_position(&self) -> int {
        self.next as int
    }

    /// The permanent buffer as it stands.
    pub closed spec fn spec_permanent(&self) -> Seq<u8> {
        self.canvas@
    }

    /// The state is one that a walk through `seq` reaches.
    pub closed spec fn wf(&self, seq: SequenceView) -> bool {
        &&& renderable(seq)
        &&& self.canvas.wf()
        &&& self.canvas.spec_nb_banks() == seq.nb_banks
        &&& self.next <= seq.frames.len()
        &&& self.canvas@ == spec_permanent(seq, self.next as int)
    }

    /// What a well-formed state holds.
    pub proof fn lemma_wf(&self, seq: SequenceView)
        requires
            self.wf(seq),
        ensures
            renderable(seq),
            0 <= self.spec_position() <= seq.frames.len(),
            self.spec_permanent() == spec_permanent(seq, self.spec_position()),
            self.spec_permanent().len() == spec_buffer_len(seq.nb_banks),
    {
        self.canvas.lemma_wf_len();
    }

    /// The canvas of a well-formed state is laid out for the sequence's banks.
    pub proof fn lemma_canvas(&self, seq: SequenceView)
        requires
            self.wf(seq),
        ensures
            self.spec_canvas().wf(),
            self.spec_canvas().spec_nb_banks() == seq.nb_banks,
    {
    }

    /// The canvas that holds the permanent buffer.
    pub closed spec fn spec_canvas(&self) -> Canvas {
        self.canvas
    }

    /// The start of a walk through `sequence`: a blank canvas, and the first
    /// attempt next. There is none where the sequence cannot be drawn.
    pub fn new(sequence: &Sequence) -> (start: Option<Self>)
        requires
            sequence@.wf(),
        ensures
            start is Some <==> renderable(sequence@),
            start matches Some(s) ==> s.wf(sequence@) && s.spec_position() == 0,
    {
        if !is_renderable(sequence) {
            return None;
        }
        let canvas = Canvas::new(sequence.nb_banks() as u32);
        Some(Sequencer { canvas, next: 0 })
    }

    /// The frame of the next attempt, or `None` when every attempt has been
    /// shown. The attempt is committed to the permanent buffer if the one
    /// after it is for another section.
    pub fn next_frame(&mut self, sequence: &Sequence) -> (frame: Option<Vec<u8>>)
        requires
            old(self).wf(sequence@),
        ensures
            final(self).wf(sequence@),
            frame is None <==> old(self).spec_position() == sequence@.frames.len(),
            frame is None ==> final(self).spec_position() == old(self).spec_position(),
            frame matches Some(pixels) ==> {
                &&& pixels@ == spec_frame(sequence@, old(self).spec_position())
                &&& final(self).spec_position() == old(self).spec_position() + 1
            },
            final(self).spec_permanent() == spec_permanent(sequence@, final(self).spec_position()),
    {
        let frames: &Vec<Frame> = sequence.frames();
        let sections: &Vec<Section> = sequence.sections();
        if self.next >= frames.len() {
            return None;
        }
        let frame: Frame = frames[self.next];
        assert(placeable(sequence@, self.next as int));
        assert(sequence@.attempt_in_rom(self.next as int));
        let section: &Section = &sections[frame.section_id];
        let pixels: Vec<u8> = self.canvas.overlay(section, &frame.location);
        // If the next attempt is for another section, this one stays.
        if settles_after(sequence, self.next) {
            self.canvas.settle(section, &frame.location);
        }
        self.next = self.next + 1;
        Some(pixels)
    }

    /// Index of the attempt that is shown next.
    pub fn position(&self) -> (position: usize)
        ensures
            position == self.spec_position(),
    {
        self.next
    }

    /// The canvas that holds the permanent buffer.
    pub fn canvas(&self) -> (canvas: &Canvas)
        ensures
            canvas@ == self.spec_permanent(),
            *canvas == self.spec_canvas(),
    {
        &self.canvas
    }
}

} // verus!
