//! The data that a placement log holds: locations, sections and attempts.

use vstd::prelude::*;

verus! {

/// Address that stands for "not yet fixed".
pub const FLOATING_ADDR: u16 = 0xFFFF;

/// Bank that stands for "not yet fixed".
pub const FLOATING_BANK: u32 = 0xFFFF_FFFF;

/// A byte position in banked memory.
#[derive(Debug, Clone, Copy, PartialEq, Eq, Structural)]
pub struct Location {
    pub bank: u32,
    pub addr: u16,
}

/// The memory regions a section can be placed in.
#[derive(Debug, Clone, Copy, PartialEq, Eq, Structural)]
pub enum MemType {
    Rom0,
    Romx,
    Vram,
    Sram,
    Wram0,
    Wramx,
    Oam,
    Hram,
}

/// A block of code or data that has to be placed somewhere in a region.
#[derive(Debug, Clone, PartialEq, Eq)]
pub struct Section {
    pub mem_type: MemType,
    pub location: Location,
    pub align_mask: u16,
    pub align_ofs: u16,
    pub size: u16,
    pub name: String,
}

/// What a section holds, as plain values.
pub struct SectionView {
    pub mem_type: MemType,
    pub location: Location,
    pub align_mask: u16,
    pub align_ofs: u16,
    pub size: u16,
    pub name: Seq<char>,
}

impl View for Section {
    type V = SectionView;

    open spec fn view(&self) -> SectionView {
        SectionView {
            mem_type: self.mem_type,
            location: self.location,
            align_mask: self.align_mask,
            align_ofs: self.align_ofs,
            size: self.size,
            name: self.name@,
        }
    }
}

/// One trial placement of a section.
#[derive(Debug, Clone, Copy, PartialEq, Eq, Structural)]
pub struct Frame {
    pub location: Location,
    pub section_id: usize,
}

impl Location {
    /// Whether the address is still to be fixed.
    pub open spec fn spec_is_floating(&self) -> bool {
        self.addr == 0xFFFF
    }

    /// Whether the bank is still to be fixed.
    pub open spec fn spec_is_floating_bank(&self) -> bool {
        self.bank == 0xFFFF_FFFF
    }

    /// Whether the address is still to be fixed.
    pub fn is_floating(&self) -> (floating: bool)
        ensures
            floating == self.spec_is_floating(),
    {
        self.addr == FLOATING_ADDR
    }

    /// Whether the bank is still to be fixed.
    pub fn is_floating_bank(&self) -> (floating: bool)
        ensures
            floating == self.spec_is_floating_bank(),
    {
        self.bank == FLOATING_BANK
    }
}

impl MemType {
    /// Whether sections of this region are placed in ROM, in the fixed bank
    /// or in a switchable one.
    pub open spec fn spec_is_rom(&self) -> bool {
        *self == MemType::Rom0 || *self == MemType::Romx
    }

    /// Whether sections of this region are placed in ROM.
    pub fn is_rom(&self) -> (rom: bool)
        ensures
            rom == self.spec_is_rom(),
    {
        match self {
            MemType::Rom0 => true,
            MemType::Romx => true,
            _ => false,
        }
    }
}

impl Section {
    /// Whether the section's address is still to be fixed.
    pub fn is_floating(&self) -> (floating: bool)
        ensures
            floating == self.location.spec_is_floating(),
    {
        self.location.is_floating()
    }

    /// Whether the section's bank is still to be fixed.
    pub fn is_floating_bank(&self) -> (floating: bool)
        ensures
            floating == self.location.spec_is_floating_bank(),
    {
        self.location.is_floating_bank()
    }
}

/// Bank count that every log starts from.
pub const INITIAL_BANKS: u64 = 2;

/// Whether `n` is a power of two.
pub open spec fn is_pow2(n: int) -> bool
    decreases n,
{
    n == 1 || (n > 1 && n % 2 == 0 && is_pow2(n / 2))
}

/// The smallest power of two that is at least `n`.
pub open spec fn spec_next_pow2(n: int) -> int
    decreases n,
{
    if n <= 1 {
        1
    } else {
        2 * spec_next_pow2((n + 1) / 2)
    }
}

/// `spec_next_pow2(n)` is a power of two, is at least `n`, and no smaller
/// power of two is.
pub proof fn lemma_next_pow2(n: int)
    ensures
        is_pow2(spec_next_pow2(n)),
        spec_next_pow2(n) >= n,
        spec_next_pow2(n) >= 1,
        n >= 2 ==> spec_next_pow2(n) < 2 * n,
    decreases n,
{
    if n > 1 {
        lemma_next_pow2((n + 1) / 2);
    }
}

/// No power of two lies between `n` and `spec_next_pow2(n)`.
pub proof fn lemma_next_pow2_smallest(n: int, p: int)
    requires
        is_pow2(p),
        p >= n,
    ensures
        spec_next_pow2(n) <= p,
    decreases n,
{
    if n > 1 {
        lemma_next_pow2_smallest((n + 1) / 2, p / 2);
    }
}

/// The smallest power of two that is at least `n`.
pub fn next_power_of_two(n: u32) -> (p: u64)
    ensures
        p == spec_next_pow2(n as int),
{
    let mut p: u64 = 1;
    proof {
        lemma_next_pow2(n as int);
        lemma_next_pow2_u32(n as int);
    }
    while p < n as u64
        invariant
            is_pow2(p as int),
            1 <= p <= spec_next_pow2(n as int) <= 0x1_0000_0000,
        decreases spec_next_pow2(n as int) - p,
    {
        proof {
            // Twice a power of two below `n` is a power of two again, and
            // none lies between the two.
            lemma_next_pow2(n as int);
            lemma_pow2_step(p as int, spec_next_pow2(n as int));
        }
        p = p * 2;
    }
    proof {
        lemma_next_pow2_smallest(n as int, p as int);
    }
    p
}

/// Of two powers of two, the smaller one doubled is no more than the greater.
proof fn lemma_pow2_step(p: int, q: int)
    requires
        is_pow2(p),
        is_pow2(q),
        p < q,
    ensures
        is_pow2(2 * p),
        2 * p <= q,
    decreases p,
{
    assert(is_pow2(2 * p)) by {
        lemma_pow2_positive(p);
        assert((2 * p) / 2 == p);
    }
    if p > 1 {
        lemma_pow2_step(p / 2, q / 2);
    }
}

/// The power of two that follows a 32-bit number has at most 33 bits.
pub proof fn lemma_next_pow2_u32(n: int)
    requires
        n <= 0xFFFF_FFFF,
    ensures
        spec_next_pow2(n) <= 0x1_0000_0000,
{
    assert(is_pow2(0x1_0000_0000)) by {
        reveal_with_fuel(is_pow2, 34);
    }
    lemma_next_pow2_smallest(n, 0x1_0000_0000);
}

/// A power of two is at least 1.
proof fn lemma_pow2_positive(p: int)
    requires
        is_pow2(p),
    ensures
        p >= 1,
{
}

/// What a sequence holds, as plain values.
pub struct SequenceView {
    /// Number of banks that the attempts ask for.
    pub nb_banks: int,
    /// The attempts that are shown, in the order in which they were made.
    pub frames: Seq<Frame>,
    /// The sections, in the order in which they were declared.
    pub sections: Seq<SectionView>,
}

impl SequenceView {
    /// The sequence of an empty log.
    pub open spec fn empty() -> SequenceView {
        SequenceView { nb_banks: 2, frames: Seq::empty(), sections: Seq::empty() }
    }

    /// The sequence after one more section was declared.
    pub open spec fn with_section(self, section: SectionView) -> SequenceView {
        SequenceView { sections: self.sections.push(section), ..self }
    }

    /// The bank count after an attempt at `location` for a section of
    /// `mem_type`: a switchable ROM bank at or beyond the count raises it to
    /// the next power of two.
    pub open spec fn raised_banks(self, mem_type: MemType, location: Location) -> int {
        if mem_type == MemType::Romx && location.bank >= self.nb_banks {
            spec_next_pow2(location.bank as int)
        } else {
            self.nb_banks
        }
    }

    /// The sequence after one more attempt, at `location`, for the section
    /// declared last. Attempts for sections outside ROM are left out.
    pub open spec fn with_attempt(self, location: Location) -> SequenceView {
        let section_id = self.sections.len() - 1;
        let mem_type = self.sections[section_id].mem_type;
        if mem_type.spec_is_rom() {
            SequenceView {
                nb_banks: self.raised_banks(mem_type, location),
                frames: self.frames.push(Frame { location, section_id: section_id as usize }),
                sections: self.sections,
            }
        } else {
            self
        }
    }

    /// Attempt `i` is for a declared section, and that section is in ROM.
    pub open spec fn attempt_in_rom(self, i: int) -> bool {
        &&& self.frames[i].section_id < self.sections.len()
        &&& self.section_of(i).mem_type.spec_is_rom()
    }

    /// The bank count is one that attempts can ask for, every section has
    /// at least one byte, and every attempt is for a declared section in ROM.
    pub open spec fn wf(self) -> bool {
        &&& 2 <= self.nb_banks <= 0x1_0000_0000
        &&& forall|j: int| 0 <= j < self.sections.len() ==> (#[trigger] self.sections[j]).size >= 1
        &&& forall|i: int| 0 <= i < self.frames.len() ==> #[trigger] self.attempt_in_rom(i)
    }

    /// The section that attempt `i` is for.
    pub open spec fn section_of(self, i: int) -> SectionView {
        self.sections[self.frames[i].section_id as int]
    }
}

/// The root of a placement log: its sections, the attempts to place those
/// that go to ROM, and the number of banks that these attempts ask for.
#[derive(Debug)]
pub struct Sequence {
    nb_banks: u64,
    frames: Vec<Frame>,
    sections: Vec<Section>,
}

impl View for Sequence {
    type V = SequenceView;

    closed spec fn view(&self) -> SequenceView {
        SequenceView {
            nb_banks: self.nb_banks as int,
            frames: self.frames@,
            sections: self.sections@.map_values(|section: Section| section@),
        }
    }
}

impl Sequence {
    /// The sequence of an empty log: no section, no attempt, two banks.
    pub fn new() -> (sequence: Self)
        ensures
            sequence@ == SequenceView::empty(),
            sequence@.wf(),
    {
        let sequence = Sequence {
            nb_banks: INITIAL_BANKS,
            frames: Vec::new(),
            sections: Vec::new(),
        };
        assert(sequence@.sections =~= SequenceView::empty().sections);
        sequence
    }

    /// Declares one more section. A section has at least one byte.
    pub fn add_section(&mut self, section: Section)
        requires
            old(self)@.wf(),
            section.size >= 1,
        ensures
            final(self)@ == old(self)@.with_section(section@),
            final(self)@.wf(),
    {
        let ghost pushed = section@;
        self.sections.push(section);
        proof {
            let before = old(self)@;
            let after = self@;
            assert(after.sections =~= before.sections.push(pushed));
            assert forall|j: int| 0 <= j < after.sections.len() implies (#[trigger] after.sections[j]).size
                >= 1 by {
                if j < before.sections.len() {
                    assert(before.sections[j].size >= 1);
                }
            }
            assert forall|i: int| 0 <= i < after.frames.len() implies #[trigger] after.attempt_in_rom(
                i,
            ) by {
                assert(before.attempt_in_rom(i));
            }
        }
    }

    /// Records one more attempt, at `location`, for the section declared
    /// last. An attempt for a section outside ROM is dropped; one for a
    /// switchable ROM bank at or beyond the bank count raises the count.
    pub fn add_attempt(&mut self, location: Location)
        requires
            old(self)@.wf(),
            old(self)@.sections.len() > 0,
        ensures
            final(self)@ == old(self)@.with_attempt(location),
            final(self)@.wf(),
    {
        let section_id: usize = self.sections.len() - 1;
        match self.sections[section_id].mem_type {
            MemType::Romx => {
                if location.bank as u64 >= self.nb_banks {
                    proof {
                        lemma_next_pow2(location.bank as int);
                        lemma_next_pow2_u32(location.bank as int);
                    }
                    self.nb_banks = next_power_of_two(location.bank);
                }
            },
            MemType::Rom0 => {},
            _ => {
                return ;
            },
        }
        self.frames.push(Frame { location, section_id });
        proof {
            let before = old(self)@;
            let after = self@;
            assert(after.sections =~= before.sections);
            assert(after.frames =~= before.with_attempt(location).frames);
            assert forall|i: int| 0 <= i < after.frames.len() implies #[trigger] after.attempt_in_rom(
                i,
            ) by {
                if i < before.frames.len() {
                    assert(before.attempt_in_rom(i));
                }
            }
        }
    }

    /// Number of banks that the attempts ask for.
    pub fn nb_banks(&self) -> (nb_banks: u64)
        ensures
            nb_banks == self@.nb_banks,
    {
        self.nb_banks
    }

    /// The attempts that are shown, in the order in which they were made.
    pub fn frames(&self) -> (frames: &Vec<Frame>)
        ensures
            frames@ == self@.frames,
    {
        &self.frames
    }

    /// The sections, in the order in which they were declared.
    pub fn sections(&self) -> (sections: &Vec<Section>)
        ensures
            sections@.len() == self@.sections.len(),
            forall|i: int|
                0 <= i < sections@.len() ==> (#[trigger] sections@[i])@ == self@.sections[i],
    {
        &self.sections
    }
}

} // verus!
