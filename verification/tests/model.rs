use bankviz::model::next_power_of_two;
use bankviz::Location;
use bankviz::MemType;
use bankviz::Section;
use bankviz::Sequence;

fn section(mem_type: MemType) -> Section {
    Section {
        mem_type,
        location: Location { bank: 0, addr: 0 },
        align_mask: 0,
        align_ofs: 0,
        size: 16,
        name: "data".to_string(),
    }
}

#[test]
fn floating_locations_are_recognised() {
    assert!(Location { bank: 0, addr: 0xFFFF }.is_floating());
    assert!(!Location { bank: 0xFFFF_FFFF, addr: 0xFFFE }.is_floating());
    assert!(Location { bank: 0xFFFF_FFFF, addr: 0 }.is_floating_bank());
    assert!(!Location { bank: 0xFFFF_FFFE, addr: 0xFFFF }.is_floating_bank());
}

#[test]
fn sections_float_with_their_location() {
    let mut floating = section(MemType::Rom0);
    floating.location = Location { bank: 0xFFFF_FFFF, addr: 0xFFFF };
    assert!(floating.is_floating());
    assert!(floating.is_floating_bank());
    let fixed = section(MemType::Rom0);
    assert!(!fixed.is_floating());
    assert!(!fixed.is_floating_bank());
}

#[test]
fn only_rom0_and_romx_are_rom() {
    assert!(MemType::Rom0.is_rom());
    assert!(MemType::Romx.is_rom());
    for mem_type in [
        MemType::Vram,
        MemType::Sram,
        MemType::Wram0,
        MemType::Wramx,
        MemType::Oam,
        MemType::Hram,
    ] {
        assert!(!mem_type.is_rom());
    }
}

#[test]
fn next_power_of_two_is_the_smallest_at_or_above() {
    assert_eq!(next_power_of_two(0), 1);
    assert_eq!(next_power_of_two(1), 1);
    assert_eq!(next_power_of_two(2), 2);
    assert_eq!(next_power_of_two(3), 4);
    assert_eq!(next_power_of_two(5), 8);
    assert_eq!(next_power_of_two(8), 8);
    assert_eq!(next_power_of_two(9), 16);
    assert_eq!(next_power_of_two(0x8000_0000), 0x8000_0000);
    assert_eq!(next_power_of_two(0x8000_0001), 0x1_0000_0000);
    assert_eq!(next_power_of_two(0xFFFF_FFFF), 0x1_0000_0000);
    for n in 0..2000u32 {
        assert_eq!(next_power_of_two(n), u64::from(n.next_power_of_two()));
    }
}

#[test]
fn empty_sequence_has_two_banks() {
    let sequence = Sequence::new();
    assert_eq!(sequence.nb_banks(), 2);
    assert!(sequence.frames().is_empty());
    assert!(sequence.sections().is_empty());
}

#[test]
fn romx_attempt_at_bank_5_raises_the_count_to_8() {
    let mut sequence = Sequence::new();
    sequence.add_section(section(MemType::Romx));
    sequence.add_attempt(Location { bank: 5, addr: 0x4000 });
    assert_eq!(sequence.nb_banks(), 8);
    assert_eq!(sequence.frames().len(), 1);
    assert_eq!(sequence.frames()[0].section_id, 0);
    assert_eq!(sequence.frames()[0].location, Location { bank: 5, addr: 0x4000 });
}

#[test]
fn romx_attempt_below_the_count_leaves_it() {
    let mut sequence = Sequence::new();
    sequence.add_section(section(MemType::Romx));
    sequence.add_attempt(Location { bank: 1, addr: 0x4000 });
    assert_eq!(sequence.nb_banks(), 2);
    sequence.add_attempt(Location { bank: 9, addr: 0x4000 });
    assert_eq!(sequence.nb_banks(), 16);
    sequence.add_attempt(Location { bank: 3, addr: 0x4000 });
    assert_eq!(sequence.nb_banks(), 16);
    assert_eq!(sequence.frames().len(), 3);
}

#[test]
fn romx_attempt_at_a_power_of_two_raises_the_count_to_it() {
    let mut sequence = Sequence::new();
    sequence.add_section(section(MemType::Romx));
    sequence.add_attempt(Location { bank: 4, addr: 0x4000 });
    assert_eq!(sequence.nb_banks(), 4);
    sequence.add_attempt(Location { bank: 0xFFFF_FFFF, addr: 0x4000 });
    assert_eq!(sequence.nb_banks(), 0x1_0000_0000);
}

#[test]
fn rom0_attempt_never_raises_the_count() {
    let mut sequence = Sequence::new();
    sequence.add_section(section(MemType::Rom0));
    sequence.add_attempt(Location { bank: 5, addr: 0x0000 });
    assert_eq!(sequence.nb_banks(), 2);
    assert_eq!(sequence.frames().len(), 1);
}

#[test]
fn attempts_outside_rom_are_left_out() {
    for mem_type in [
        MemType::Vram,
        MemType::Sram,
        MemType::Wram0,
        MemType::Wramx,
        MemType::Oam,
        MemType::Hram,
    ] {
        let mut sequence = Sequence::new();
        sequence.add_section(section(mem_type));
        sequence.add_attempt(Location { bank: 7, addr: 0xC000 });
        assert_eq!(sequence.nb_banks(), 2);
        assert!(sequence.frames().is_empty());
        assert_eq!(sequence.sections().len(), 1);
    }
}

#[test]
fn attempts_refer_to_the_section_declared_last() {
    let mut sequence = Sequence::new();
    sequence.add_section(section(MemType::Rom0));
    sequence.add_section(section(MemType::Vram));
    sequence.add_section(section(MemType::Romx));
    sequence.add_attempt(Location { bank: 1, addr: 0x4000 });
    sequence.add_attempt(Location { bank: 1, addr: 0x4010 });
    let ids: Vec<usize> = sequence.frames().iter().map(|frame| frame.section_id).collect();
    assert_eq!(ids, vec![2, 2]);
}
