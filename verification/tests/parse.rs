use bankviz::parse::parse_size;
use bankviz::parse::AttemptParseError;
use bankviz::parse_input;
use bankviz::text::NumberError;
use bankviz::Location;
use bankviz::LocationParseError;
use bankviz::MemType;
use bankviz::ParseError;
use bankviz::Section;
use bankviz::SectionParseError;
use bankviz::Sequence;

fn lines(text: &[&str]) -> Vec<String> {
    text.iter().map(|line| line.to_string()).collect()
}

#[test]
fn mem_types_are_named_in_capitals() {
    assert_eq!(MemType::from_str("ROM0"), Some(MemType::Rom0));
    assert_eq!(MemType::from_str("ROMX"), Some(MemType::Romx));
    assert_eq!(MemType::from_str("VRAM"), Some(MemType::Vram));
    assert_eq!(MemType::from_str("SRAM"), Some(MemType::Sram));
    assert_eq!(MemType::from_str("WRAM0"), Some(MemType::Wram0));
    assert_eq!(MemType::from_str("WRAMX"), Some(MemType::Wramx));
    assert_eq!(MemType::from_str("OAM"), Some(MemType::Oam));
    assert_eq!(MemType::from_str("HRAM"), Some(MemType::Hram));
    assert_eq!(MemType::from_str("rom0"), None);
    assert_eq!(MemType::from_str("Rom0"), None);
    assert_eq!(MemType::from_str("ROM"), None);
    assert_eq!(MemType::from_str("ROM00"), None);
    assert_eq!(MemType::from_str(""), None);
    assert_eq!(MemType::from_str(" ROM0"), None);
}

#[test]
fn location_is_bank_colon_addr_in_hexadecimal() {
    assert_eq!(Location::from_str("1:4000"), Ok(Location { bank: 1, addr: 0x4000 }));
    assert_eq!(Location::from_str("0:0"), Ok(Location { bank: 0, addr: 0 }));
    assert_eq!(Location::from_str("1f:AbCd"), Ok(Location { bank: 0x1F, addr: 0xABCD }));
    assert_eq!(
        Location::from_str("ffffffff:ffff"),
        Ok(Location { bank: 0xFFFF_FFFF, addr: 0xFFFF })
    );
    assert_eq!(Location::from_str("10:10"), Ok(Location { bank: 16, addr: 16 }));
    assert_eq!(Location::from_str("+a:+b"), Ok(Location { bank: 10, addr: 11 }));
    assert_eq!(Location::from_str("0000000000001:000000002"), Ok(Location { bank: 1, addr: 2 }));
}

#[test]
fn location_allows_white_space_around_its_parts() {
    assert_eq!(Location::from_str("  2 :\t4567 \r"), Ok(Location { bank: 2, addr: 0x4567 }));
    assert_eq!(Location::from_str("\u{3000}3\u{A0}:\n9\u{2003}"), Ok(Location { bank: 3, addr: 9 }));
    assert_eq!(
        Location::from_str("1 2:3"),
        Err(LocationParseError::BadBank(NumberError::InvalidDigit))
    );
}

#[test]
fn location_without_colon_is_refused() {
    assert_eq!(Location::from_str("14000"), Err(LocationParseError::MissingColon));
    assert_eq!(Location::from_str(""), Err(LocationParseError::MissingColon));
    assert_eq!(Location::from_str("zz"), Err(LocationParseError::MissingColon));
}

#[test]
fn location_with_a_bad_bank_is_refused() {
    assert_eq!(Location::from_str(":4000"), Err(LocationParseError::BadBank(NumberError::Empty)));
    assert_eq!(Location::from_str("  :4000"), Err(LocationParseError::BadBank(NumberError::Empty)));
    assert_eq!(
        Location::from_str("g:4000"),
        Err(LocationParseError::BadBank(NumberError::InvalidDigit))
    );
    assert_eq!(
        Location::from_str("-1:4000"),
        Err(LocationParseError::BadBank(NumberError::InvalidDigit))
    );
    assert_eq!(
        Location::from_str("0x1:4000"),
        Err(LocationParseError::BadBank(NumberError::InvalidDigit))
    );
    assert_eq!(
        Location::from_str("100000000:4000"),
        Err(LocationParseError::BadBank(NumberError::PosOverflow))
    );
    // The bank is looked at first.
    assert_eq!(
        Location::from_str("g:zzzz"),
        Err(LocationParseError::BadBank(NumberError::InvalidDigit))
    );
}

#[test]
fn location_with_a_bad_addr_is_refused() {
    assert_eq!(Location::from_str("1:"), Err(LocationParseError::BadAddr(NumberError::Empty)));
    assert_eq!(
        Location::from_str("1:40 00"),
        Err(LocationParseError::BadAddr(NumberError::InvalidDigit))
    );
    assert_eq!(
        Location::from_str("1:2:3"),
        Err(LocationParseError::BadAddr(NumberError::InvalidDigit))
    );
    assert_eq!(
        Location::from_str("1:10000"),
        Err(LocationParseError::BadAddr(NumberError::PosOverflow))
    );
}

#[test]
fn section_is_read_field_by_field() {
    let section = Section::from_str("ROMX @ 1:4000 & 000f + 0003 ] 1234 Main code").unwrap();
    assert_eq!(
        section,
        Section {
            mem_type: MemType::Romx,
            location: Location { bank: 1, addr: 0x4000 },
            align_mask: 0x000F,
            align_ofs: 0x0003,
            size: 1234,
            name: "Main code".to_string(),
        }
    );
}

#[test]
fn section_may_be_written_without_blanks() {
    let section = Section::from_str("ROM0@ffffffff:ffff&0+0]16 x").unwrap();
    assert_eq!(section.mem_type, MemType::Rom0);
    assert_eq!(section.location, Location { bank: 0xFFFF_FFFF, addr: 0xFFFF });
    assert!(section.is_floating());
    assert!(section.is_floating_bank());
    assert_eq!(section.size, 16);
    assert_eq!(section.name, "x");
}

#[test]
fn section_name_starts_after_one_blank() {
    let section = Section::from_str("HRAM \t@\t 0:ff80 \t& 0 +  0 ]\t 2\t  two  words ").unwrap();
    assert_eq!(section.mem_type, MemType::Hram);
    assert_eq!(section.size, 2);
    assert_eq!(section.name, "  two  words ");
    let unnamed = Section::from_str("OAM @ 0:fe00 & 0 + 0 ] 4 ").unwrap();
    assert_eq!(unnamed.name, "");
}

#[test]
fn section_size_is_decimal() {
    let section = Section::from_str("VRAM @ 0:8000 & 0 + 0 ] 10 tiles").unwrap();
    assert_eq!(section.size, 10);
    assert_eq!(
        Section::from_str("VRAM @ 0:8000 & 0 + 0 ] 1f tiles"),
        Err(SectionParseError::BadSize(NumberError::InvalidDigit))
    );
    assert_eq!(
        Section::from_str("VRAM @ 0:8000 & 0 + 0 ] 65536 tiles"),
        Err(SectionParseError::BadSize(NumberError::PosOverflow))
    );
}

#[test]
fn section_without_bytes_is_refused() {
    for text in [
        "VRAM @ 0:8000 & 0 + 0 ] 0 tiles",
        "ROM0 @ 0:0 & 0 + 0 ] 0 a",
        "ROM0 @ 0:0 & 0 + 0 ] 000 a",
        "ROM0 @ 0:0 & 0 + 0 ] +0 a",
    ] {
        assert_eq!(
            Section::from_str(text),
            Err(SectionParseError::BadSize(NumberError::Zero)),
            "{:?}",
            text
        );
    }
    assert_eq!(Section::from_str("ROM0 @ 0:0 & 0 + 0 ] 1 a").unwrap().size, 1);
    assert_eq!(Section::from_str("ROM0 @ 0:0 & 0 + 0 ] 65535 a").unwrap().size, 65535);
}

#[test]
fn sizes_are_decimal_and_at_least_one() {
    assert_eq!(parse_size("1"), Ok(1));
    assert_eq!(parse_size("+10"), Ok(10));
    assert_eq!(parse_size("65535"), Ok(65535));
    assert_eq!(parse_size("0"), Err(NumberError::Zero));
    assert_eq!(parse_size("00"), Err(NumberError::Zero));
    assert_eq!(parse_size(""), Err(NumberError::Empty));
    assert_eq!(parse_size("ff"), Err(NumberError::InvalidDigit));
    assert_eq!(parse_size("65536"), Err(NumberError::PosOverflow));
}

#[test]
fn a_log_with_a_section_without_bytes_gives_no_sequence() {
    let err = parse_input(&lines(&["[ROM0 @ 0:0 & 0 + 0 ] 0 a"])).unwrap_err();
    assert_eq!(
        err,
        ParseError::BadSection(
            SectionParseError::BadSize(NumberError::Zero),
            1,
            "[ROM0 @ 0:0 & 0 + 0 ] 0 a".to_string()
        )
    );
    assert_eq!(
        err.message(),
        "Bad section on line 1: Bad size: number would be zero for non-zero type ([ROM0 @ 0:0 & 0 + 0 ] 0 a)"
    );
    let sequence = parse_input(&lines(&[
        "[ROM0 @ 0:0 & 0 + 0 ] 1 a\n",
        "[WRAM0 @ 0:c000 & 0 + 0 ] 2 b\n",
    ]))
    .unwrap();
    assert!(sequence.sections().iter().all(|section| section.size >= 1));
}

#[test]
fn section_with_a_wrong_form_is_a_syntax_error() {
    let faulty = [
        "",
        "ROM0",
        "@ 0:0 & 0 + 0 ] 1 name",
        " ROM0 @ 0:0 & 0 + 0 ] 1 name",
        "ROM0 0:0 & 0 + 0 ] 1 name",
        "ROM0 @ & 0 + 0 ] 1 name",
        "ROM0 @ 0:0 0 + 0 ] 1 name",
        "ROM0 @ 0:0 & + 0 ] 1 name",
        "ROM0 @ 0:0 & 0 0 ] 1 name",
        "ROM0 @ 0:0 & 0 + ] 1 name",
        "ROM0 @ 0:0 & 0 + 0 1 name",
        "ROM0 @ 0:0 & 0 + 0 ] name",
        "ROM0 @ 0:0 & 0 + 0 ] 1",
        "ROM0 @ 0:0 & 0 + 0 ]  ",
        "ROM0 @ 0 :0 & 0 + 0 ] 1 name",
        "ROM0 @ 0:0 & 0 + 0 ] 1 na\nme",
        "ROM0 @ 0:0 & 0 + 0 ] 1\nname",
    ];
    for text in faulty {
        assert_eq!(Section::from_str(text), Err(SectionParseError::SyntaxError), "{:?}", text);
    }
}

#[test]
fn section_reports_its_first_faulty_field() {
    assert_eq!(
        Section::from_str("ROMY @ x & y + z ] w name"),
        Err(SectionParseError::BadType)
    );
    assert_eq!(
        Section::from_str("ROMX @ x & y + z ] w name"),
        Err(SectionParseError::BadLocation(LocationParseError::MissingColon))
    );
    assert_eq!(
        Section::from_str("ROMX @ x:0 & y + z ] w name"),
        Err(SectionParseError::BadLocation(LocationParseError::BadBank(
            NumberError::InvalidDigit
        )))
    );
    assert_eq!(
        Section::from_str("ROMX @ 0:10000 & y + z ] w name"),
        Err(SectionParseError::BadLocation(LocationParseError::BadAddr(
            NumberError::PosOverflow
        )))
    );
    assert_eq!(
        Section::from_str("ROMX @ 0:0 & y + z ] w name"),
        Err(SectionParseError::BadAlignMask(NumberError::InvalidDigit))
    );
    assert_eq!(
        Section::from_str("ROMX @ 0:0 & 10000 + z ] w name"),
        Err(SectionParseError::BadAlignMask(NumberError::PosOverflow))
    );
    assert_eq!(
        Section::from_str("ROMX @ 0:0 & 1 + z ] w name"),
        Err(SectionParseError::BadAlignOfs(NumberError::InvalidDigit))
    );
    assert_eq!(
        Section::from_str("ROMX @ 0:0 & 1 + 2 ] w name"),
        Err(SectionParseError::BadSize(NumberError::InvalidDigit))
    );
}

#[test]
fn section_words_end_at_blanks_and_their_separator_only() {
    // A line feed is no blank: it belongs to the word.
    assert_eq!(
        Section::from_str("ROM0\n@ 0:0 & 0 + 0 ] 1 name"),
        Err(SectionParseError::BadType)
    );
    assert_eq!(
        Section::from_str("ROM0 @ 0:0 & 0 + 0\u{A0}] 1 name"),
        Err(SectionParseError::BadAlignOfs(NumberError::InvalidDigit))
    );
}

#[test]
fn section_words_may_hold_other_separators() {
    // A word ends at a blank or at its own separator only.
    assert_eq!(
        Section::from_str("RO&M+X] @ 0:0 & 0 + 0 ] 1 name"),
        Err(SectionParseError::BadType)
    );
    assert_eq!(
        Section::from_str("ROMX @ 0:0@+] & 0 + 0 ] 1 name"),
        Err(SectionParseError::BadLocation(LocationParseError::BadAddr(
            NumberError::InvalidDigit
        )))
    );
    assert_eq!(
        Section::from_str("ROMX @ 0:0 & 0@&] + 0 ] 1 name"),
        Err(SectionParseError::BadAlignMask(NumberError::InvalidDigit))
    );
    assert_eq!(
        Section::from_str("ROMX @ 0:0 & 0 + 0@&+ ] 1 name"),
        Err(SectionParseError::BadAlignOfs(NumberError::InvalidDigit))
    );
    assert_eq!(
        Section::from_str("ROMX @ 0:0 & 0 + 0 ] 1@&+] name"),
        Err(SectionParseError::BadSize(NumberError::InvalidDigit))
    );
}

#[test]
fn section_split_agrees_with_the_pattern() {
    let pattern = regex::Regex::new(
        r"^([^[:blank:]@]+)[[:blank:]]*@[[:blank:]]*([^[:blank:]&]+)[[:blank:]]*&[[:blank:]]*([^[:blank:]+]+)[[:blank:]]*\+[[:blank:]]*([^[:blank:]\]]+)[[:blank:]]*\][[:blank:]]*([^[:blank:]]+)[[:blank:]](.*)$",
    )
    .unwrap();
    let pieces = [
        "", " ", "\t", "  ", "@", "&", "+", "]", "ROMX", "ROM0", "0:0", "1:4000", "f", "12", "name",
        "\n", "\r", "\u{A0}", "é",
    ];
    // Every text of up to three pieces, followed by a well-formed tail or not.
    let tails = ["", " @ 1:2 & 3 + 4 ] 5 n", "@1:2&3+4]5 n", " & 3 + 4 ] 5 n", " + 4 ] 5 n", " ] 5 n"];
    let mut seen = 0;
    let mut matches = 0;
    for a in pieces {
        for b in pieces {
            for c in pieces {
                for tail in tails {
                    // The pieces stand before the tail, or after it, in the name.
                    let text = if a == "name" {
                        format!("ROMX{}{}{}", tail, b, c)
                    } else {
                        format!("{}{}{}{}", a, b, c, tail)
                    };
                    let matched = pattern.captures(&text);
                    let parsed = Section::from_str(&text);
                    match matched {
                        None => assert_eq!(
                            parsed,
                            Err(SectionParseError::SyntaxError),
                            "{:?}",
                            text
                        ),
                        Some(captures) => {
                            matches += 1;
                            assert_ne!(
                                parsed,
                                Err(SectionParseError::SyntaxError),
                                "{:?}",
                                text
                            );
                            let by_hand = MemType::from_str(&captures[1])
                                .ok_or(SectionParseError::BadType)
                                .and_then(|mem_type| {
                                    let location = Location::from_str(&captures[2])
                                        .map_err(SectionParseError::BadLocation)?;
                                    let align_mask = u16::from_str_radix(&captures[3], 16)
                                        .map_err(|_| ())
                                        .ok();
                                    let align_ofs = u16::from_str_radix(&captures[4], 16)
                                        .map_err(|_| ())
                                        .ok();
                                    let size = captures[5].parse::<u16>().ok().filter(|&s| s != 0);
                                    Ok((mem_type, location, align_mask, align_ofs, size))
                                });
                            match (by_hand, parsed) {
                                (Err(expected), Err(got)) => assert_eq!(got, expected, "{:?}", text),
                                (Ok((_, _, None, _, _)), Err(got)) => {
                                    assert!(
                                        matches!(got, SectionParseError::BadAlignMask(_)),
                                        "{:?}",
                                        text
                                    )
                                }
                                (Ok((_, _, Some(_), None, _)), Err(got)) => {
                                    assert!(
                                        matches!(got, SectionParseError::BadAlignOfs(_)),
                                        "{:?}",
                                        text
                                    )
                                }
                                (Ok((_, _, Some(_), Some(_), None)), Err(got)) => {
                                    assert!(
                                        matches!(got, SectionParseError::BadSize(_)),
                                        "{:?}",
                                        text
                                    )
                                }
                                (
                                    Ok((mem_type, location, Some(mask), Some(ofs), Some(size))),
                                    Ok(section),
                                ) => {
                                    assert_eq!(section.mem_type, mem_type, "{:?}", text);
                                    assert_eq!(section.location, location, "{:?}", text);
                                    assert_eq!(section.align_mask, mask, "{:?}", text);
                                    assert_eq!(section.align_ofs, ofs, "{:?}", text);
                                    assert_eq!(section.size, size, "{:?}", text);
                                    assert_eq!(section.name, &captures[6], "{:?}", text);
                                    seen += 1;
                                }
                                (expected, got) => {
                                    panic!("{:?}: {:?} against {:?}", text, expected, got)
                                }
                            }
                        }
                    }
                }
            }
        }
    }
    assert!(matches > 1000, "{}", matches);
    assert!(seen >= 6, "{}", seen);
}

#[test]
fn empty_log_gives_the_empty_sequence() {
    let sequence = parse_input(&lines(&[])).unwrap();
    assert_eq!(sequence.nb_banks(), 2);
    assert!(sequence.sections().is_empty());
    assert!(sequence.frames().is_empty());
}

#[test]
fn blank_lines_and_leading_white_space_are_ignored() {
    let sequence = parse_input(&lines(&[
        "\n",
        "   \t \n",
        "\r\n",
        "  [ROM0 @ 0:0 & 0 + 0 ] 16 Header\r\n",
        "",
        "\t0:0150\n",
        "\u{3000}0:0160",
    ]))
    .unwrap();
    assert_eq!(sequence.sections().len(), 1);
    assert_eq!(sequence.sections()[0].name, "Header");
    assert_eq!(sequence.frames().len(), 2);
    assert_eq!(sequence.frames()[0].location, Location { bank: 0, addr: 0x150 });
    assert_eq!(sequence.frames()[1].location, Location { bank: 0, addr: 0x160 });
}

#[test]
fn trailing_white_space_belongs_to_the_name() {
    let sequence = parse_input(&lines(&["[ROM0 @ 0:0 & 0 + 0 ] 16 Header  \t\r\n"])).unwrap();
    assert_eq!(sequence.sections()[0].name, "Header  \t");
    let bare = parse_input(&lines(&["[ROM0 @ 0:0 & 0 + 0 ] 16 Header\r\r\n"])).unwrap();
    assert_eq!(bare.sections()[0].name, "Header\r");
}

#[test]
fn log_keeps_the_order_of_its_attempts() {
    let sequence = parse_input(&lines(&[
        "[ROMX @ ffffffff:ffff & 0 + 0 ] 64 first\n",
        "1:4000\n",
        "1:4100\n",
        "[WRAM0 @ 0:c000 & 0 + 0 ] 8 variables\n",
        "0:c000\n",
        "[ROM0 @ 0:0 & 0 + 0 ] 32 second\n",
        "0:0000\n",
    ]))
    .unwrap();
    assert_eq!(sequence.nb_banks(), 2);
    assert_eq!(sequence.sections().len(), 3);
    let attempts: Vec<(usize, u32, u16)> = sequence
        .frames()
        .iter()
        .map(|frame| (frame.section_id, frame.location.bank, frame.location.addr))
        .collect();
    assert_eq!(attempts, vec![(0, 1, 0x4000), (0, 1, 0x4100), (2, 0, 0)]);
}

#[test]
fn banked_rom_attempt_at_bank_5_gives_8_banks() {
    let sequence = parse_input(&lines(&["[ROMX @ 5:4000 & 0 + 0 ] 64 far\n", "5:4000\n"])).unwrap();
    assert_eq!(sequence.nb_banks(), 8);
    let fixed = parse_input(&lines(&["[ROM0 @ 0:0 & 0 + 0 ] 64 near\n", "5:0000\n"])).unwrap();
    assert_eq!(fixed.nb_banks(), 2);
    let ram = parse_input(&lines(&["[WRAMX @ 5:d000 & 0 + 0 ] 64 ram\n", "5:d000\n"])).unwrap();
    assert_eq!(ram.nb_banks(), 2);
    assert!(ram.frames().is_empty());
}

#[test]
fn attempt_before_any_section_is_refused() {
    let err = parse_input(&lines(&["\n", "  1:4000\n"])).unwrap_err();
    assert_eq!(err, ParseError::AttemptBeforeSection(2, "1:4000".to_string()));
    assert_eq!(
        err.message(),
        "Location attempt before any sections on line 2 (1:4000)"
    );
}

#[test]
fn a_bad_attempt_is_reported_before_the_missing_section() {
    let err = parse_input(&lines(&["hello\n"])).unwrap_err();
    assert_eq!(
        err,
        ParseError::BadAttempt(AttemptParseError::MissingColon, 1, "hello".to_string())
    );
    assert_eq!(
        err.message(),
        "Bad location attempt on line 1: Missing colon (hello)"
    );
}

#[test]
fn bad_attempt_names_its_line() {
    let err = parse_input(&lines(&[
        "[ROM0 @ 0:0 & 0 + 0 ] 16 Header\n",
        "0:0150\n",
        "\n",
        "0:zz\r\n",
        "this line is never read",
    ]))
    .unwrap_err();
    assert_eq!(
        err,
        ParseError::BadAttempt(
            LocationParseError::BadAddr(NumberError::InvalidDigit),
            4,
            "0:zz".to_string()
        )
    );
    assert_eq!(
        err.message(),
        "Bad location attempt on line 4: Bad addr: invalid digit found in string (0:zz)"
    );
}

#[test]
fn bad_section_names_its_line() {
    let err = parse_input(&lines(&["[ROM0 @ 0:0 & 0 + 0 ] 16 Header\n", " [ROM0 nothing\n"]))
        .unwrap_err();
    assert_eq!(
        err,
        ParseError::BadSection(SectionParseError::SyntaxError, 2, "[ROM0 nothing".to_string())
    );
    assert_eq!(err.message(), "Bad section on line 2: Syntax error ([ROM0 nothing)");
}

#[test]
fn error_messages_name_the_faulty_field() {
    assert_eq!(LocationParseError::MissingColon.message(), "Missing colon");
    assert_eq!(
        LocationParseError::BadBank(NumberError::Empty).message(),
        "Bad bank: cannot parse integer from empty string"
    );
    assert_eq!(
        LocationParseError::BadAddr(NumberError::PosOverflow).message(),
        "Bad addr: number too large to fit in target type"
    );
    assert_eq!(SectionParseError::SyntaxError.message(), "Syntax error");
    assert_eq!(SectionParseError::BadType.message(), "Bad type: parse failed.");
    assert_eq!(
        SectionParseError::BadLocation(LocationParseError::MissingColon).message(),
        "Bad location: Missing colon"
    );
    assert_eq!(
        SectionParseError::BadAlignMask(NumberError::InvalidDigit).message(),
        "Bad align mask: invalid digit found in string"
    );
    assert_eq!(
        SectionParseError::BadAlignOfs(NumberError::InvalidDigit).message(),
        "Bad align ofs: invalid digit found in string"
    );
    assert_eq!(
        SectionParseError::BadSize(NumberError::PosOverflow).message(),
        "Bad size: number too large to fit in target type"
    );
    let err = ParseError::BadSection(
        SectionParseError::BadLocation(LocationParseError::BadBank(NumberError::InvalidDigit)),
        18446744073709551615,
        "[ROMX @ g:0 & 0 + 0 ] 1 x".to_string(),
    );
    assert_eq!(
        err.message(),
        "Bad section on line 18446744073709551615: Bad location: Bad bank: invalid digit found in string ([ROMX @ g:0 & 0 + 0 ] 1 x)"
    );
}

#[test]
fn feeding_lines_one_by_one_gives_what_the_whole_log_gives() {
    let log = lines(&[
        "[ROMX @ 3:4000 & 0 + 0 ] 64 first\n",
        "3:4000\n",
        "[ROM0 @ 0:0 & 0 + 0 ] 32 second\n",
        "0:0000\n",
    ]);
    let whole = parse_input(&log).unwrap();
    let mut fed = Sequence::new();
    for (i, line) in log.iter().enumerate() {
        assert_eq!(fed.feed_line(i as u64 + 1, line), Ok(()));
    }
    assert_eq!(fed.nb_banks(), whole.nb_banks());
    assert_eq!(fed.frames(), whole.frames());
    assert_eq!(fed.sections(), whole.sections());
    assert_eq!(fed.nb_banks(), 4);
}

#[test]
fn a_faulty_line_leaves_the_sequence_as_it_was() {
    let mut sequence = Sequence::new();
    assert_eq!(sequence.feed_line(1, "[ROMX @ 1:4000 & 0 + 0 ] 64 first"), Ok(()));
    assert_eq!(sequence.feed_line(2, "1:4000"), Ok(()));
    assert_eq!(
        sequence.feed_line(3, "9:"),
        Err(ParseError::BadAttempt(
            LocationParseError::BadAddr(NumberError::Empty),
            3,
            "9:".to_string()
        ))
    );
    assert_eq!(
        sequence.feed_line(4, "[ROMX"),
        Err(ParseError::BadSection(SectionParseError::SyntaxError, 4, "[ROMX".to_string()))
    );
    assert_eq!(sequence.nb_banks(), 2);
    assert_eq!(sequence.frames().len(), 1);
    assert_eq!(sequence.sections().len(), 1);
}
