//! Reads a placement log, line by line.
//!
//! A line that starts with `[` declares a section:
//! `[type @ bank:addr & align_mask + align_ofs ] size name`. Any other line
//! that is not blank is an attempt to place the section declared last, at
//! `bank:addr`. All numbers are hexadecimal, but for the size, which is
//! decimal and at least one.

use vstd::prelude::*;
use crate::model::Location;
use crate::model::MemType;
use crate::model::Section;
use crate::model::SectionView;
use crate::model::Sequence;
use crate::model::SequenceView;
use crate::text::decimal;
use crate::text::find;
use crate::text::is_blank;
use crate::text::parse_u16;
use crate::text::parse_u32;
use crate::text::spec_decimal;
use crate::text::spec_find;
use crate::text::spec_is_blank;
use crate::text::spec_parse_u16;
use crate::text::spec_parse_u32;
use crate::text::spec_strip_suffix;
use crate::text::spec_trim;
use crate::text::spec_trim_start;
use crate::text::to_chars;
use crate::text::trim_end;
use crate::text::trim_start;
use crate::text::NumberError;

verus! {

/// Why a text is no location.
#[derive(Debug, Clone, Copy, PartialEq, Eq, Structural)]
pub enum LocationParseError {
    /// No `:` parts the bank from the address.
    MissingColon,
    /// What stands before the `:` is no bank.
    BadBank(NumberError),
    /// What stands after the `:` is no address.
    BadAddr(NumberError),
}

/// Why a text declares no section.
#[derive(Debug, Clone, Copy, PartialEq, Eq, Structural)]
pub enum SectionParseError {
    /// The text does not have the form of a declaration.
    SyntaxError,
    /// The type is none of the known regions.
    BadType,
    /// What stands after the `@` is no location.
    BadLocation(LocationParseError),
    /// What stands after the `&` is no alignment mask.
    BadAlignMask(NumberError),
    /// What stands after the `+` is no alignment offset.
    BadAlignOfs(NumberError),
    /// What stands after the `]` is no size.
    BadSize(NumberError),
}

/// Why a line is no attempt.
pub type AttemptParseError = LocationParseError;

/// Why a log was not read to its end: the reason, the number of the line and
/// the line itself.
#[derive(Debug, Clone, PartialEq, Eq)]
pub enum ParseError {
    /// An attempt stands before the first section.
    AttemptBeforeSection(u64, String),
    /// A line that starts a section does not declare one.
    BadSection(SectionParseError, u64, String),
    /// A line that should be an attempt is none.
    BadAttempt(AttemptParseError, u64, String),
}

/// What a `ParseError` holds, as plain values.
pub enum ParseErrorView {
    AttemptBeforeSection(u64, Seq<char>),
    BadSection(SectionParseError, u64, Seq<char>),
    BadAttempt(AttemptParseError, u64, Seq<char>),
}

impl View for ParseError {
    type V = ParseErrorView;

    open spec fn view(&self) -> ParseErrorView {
        match self {
            ParseError::AttemptBeforeSection(line_no, line) => ParseErrorView::AttemptBeforeSection(
                *line_no,
                line@,
            ),
            ParseError::BadSection(err, line_no, line) => ParseErrorView::BadSection(
                *err,
                *line_no,
                line@,
            ),
            ParseError::BadAttempt(err, line_no, line) => ParseErrorView::BadAttempt(
                *err,
                *line_no,
                line@,
            ),
        }
    }
}

/// The region that `s` names.
pub open spec fn spec_parse_mem_type(s: Seq<char>) -> Option<MemType> {
    if s == "ROM0"@ {
        Some(MemType::Rom0)
    } else if s == "ROMX"@ {
        Some(MemType::Romx)
    } else if s == "VRAM"@ {
        Some(MemType::Vram)
    } else if s == "SRAM"@ {
        Some(MemType::Sram)
    } else if s == "WRAM0"@ {
        Some(MemType::Wram0)
    } else if s == "WRAMX"@ {
        Some(MemType::Wramx)
    } else if s == "OAM"@ {
        Some(MemType::Oam)
    } else if s == "HRAM"@ {
        Some(MemType::Hram)
    } else {
        None
    }
}

/// The location that `s` gives: a bank and an address, both hexadecimal,
/// with a `:` between them and white space around each as it may be.
pub open spec fn spec_parse_location(s: Seq<char>) -> Result<Location, LocationParseError> {
    let colon = spec_find(s, ':');
    if colon >= s.len() {
        Err(LocationParseError::MissingColon)
    } else {
        match spec_parse_u32(spec_trim(s.take(colon)), 16) {
            Err(err) => Err(LocationParseError::BadBank(err)),
            Ok(bank) => match spec_parse_u16(spec_trim(s.skip(colon + 1)), 16) {
                Err(err) => Err(LocationParseError::BadAddr(err)),
                Ok(addr) => Ok(Location { bank, addr }),
            },
        }
    }
}

/// Index of the first character of `s`, from `i` on, that is no blank.
pub open spec fn spec_skip_blanks(s: Seq<char>, i: int) -> int
    decreases s.len() - i,
{
    if 0 <= i < s.len() && spec_is_blank(s[i]) {
        spec_skip_blanks(s, i + 1)
    } else {
        i
    }
}

/// Index of the first character of `s`, from `i` on, that is a blank or
/// `stop`.
pub open spec fn spec_token_end(s: Seq<char>, i: int, stop: char) -> int
    decreases s.len() - i,
{
    if 0 <= i < s.len() && !spec_is_blank(s[i]) && s[i] != stop {
        spec_token_end(s, i + 1, stop)
    } else {
        i
    }
}

/// The parts of a section's declaration, as they stand in the text.
pub struct SectionFields {
    pub mem_type: Seq<char>,
    pub location: Seq<char>,
    pub align_mask: Seq<char>,
    pub align_ofs: Seq<char>,
    pub size: Seq<char>,
    pub name: Seq<char>,
}

/// The parts of the declaration `s`, the text after the `[`: five words,
/// none of them empty, parted by `@`, `&`, `+` and `]`, with blanks around
/// these as they may be; then one blank, and the name, which runs to the end
/// and holds no line feed.
pub open spec fn spec_split_section(s: Seq<char>) -> Option<SectionFields> {
    let type_end = spec_token_end(s, 0, '@');
    let at = spec_skip_blanks(s, type_end);
    let location_start = spec_skip_blanks(s, at + 1);
    let location_end = spec_token_end(s, location_start, '&');
    let and = spec_skip_blanks(s, location_end);
    let mask_start = spec_skip_blanks(s, and + 1);
    let mask_end = spec_token_end(s, mask_start, '+');
    let plus = spec_skip_blanks(s, mask_end);
    let ofs_start = spec_skip_blanks(s, plus + 1);
    let ofs_end = spec_token_end(s, ofs_start, ']');
    let bracket = spec_skip_blanks(s, ofs_end);
    let size_start = spec_skip_blanks(s, bracket + 1);
    let size_end = spec_token_end(s, size_start, ' ');
    let name = s.skip(size_end + 1);
    if {
        &&& 0 < type_end
        &&& at < s.len() && s[at] == '@'
        &&& location_start < location_end
        &&& and < s.len() && s[and] == '&'
        &&& mask_start < mask_end
        &&& plus < s.len() && s[plus] == '+'
        &&& ofs_start < ofs_end
        &&& bracket < s.len() && s[bracket] == ']'
        &&& size_start < size_end
        &&& size_end < s.len() && spec_is_blank(s[size_end])
        &&& spec_find(name, '\n') >= name.len()
    } {
        Some(
            SectionFields {
                mem_type: s.subrange(0, type_end),
                location: s.subrange(location_start, location_end),
                align_mask: s.subrange(mask_start, mask_end),
                align_ofs: s.subrange(ofs_start, ofs_end),
                size: s.subrange(size_start, size_end),
                name,
            },
        )
    } else {
        None
    }
}

/// The size that `s` gives: a decimal number of bytes, and at least one.
pub open spec fn spec_parse_size(s: Seq<char>) -> Result<u16, NumberError> {
    match spec_parse_u16(s, 10) {
        Err(err) => Err(err),
        Ok(size) => if size == 0 {
            Err(NumberError::Zero)
        } else {
            Ok(size)
        },
    }
}

/// The section that `s`, the text after the `[`, declares. Of several
/// faults the one that stands first in the text is reported.
pub open spec fn spec_parse_section(s: Seq<char>) -> Result<SectionView, SectionParseError> {
    match spec_split_section(s) {
        None => Err(SectionParseError::SyntaxError),
        Some(fields) => match spec_parse_mem_type(fields.mem_type) {
            None => Err(SectionParseError::BadType),
            Some(mem_type) => match spec_parse_location(fields.location) {
                Err(err) => Err(SectionParseError::BadLocation(err)),
                Ok(location) => match spec_parse_u16(fields.align_mask, 16) {
                    Err(err) => Err(SectionParseError::BadAlignMask(err)),
                    Ok(align_mask) => match spec_parse_u16(fields.align_ofs, 16) {
                        Err(err) => Err(SectionParseError::BadAlignOfs(err)),
                        Ok(align_ofs) => match spec_parse_size(fields.size) {
                            Err(err) => Err(SectionParseError::BadSize(err)),
                            Ok(size) => Ok(
                                SectionView {
                                    mem_type,
                                    location,
                                    align_mask,
                                    align_ofs,
                                    size,
                                    name: fields.name,
                                },
                            ),
                        },
                    },
                },
            },
        },
    }
}

/// A line without the white space before it and the line end after it.
pub open spec fn spec_clean_line(line: Seq<char>) -> Seq<char> {
    spec_strip_suffix(spec_strip_suffix(spec_trim_start(line), '\n'), '\r')
}

/// The sequence after line number `line_no` of a log: a blank line changes
/// nothing, a line that starts with `[` declares a section, any other is an
/// attempt for the section declared last.
pub open spec fn spec_feed_line(seq: SequenceView, line_no: u64, line: Seq<char>) -> Result<
    SequenceView,
    ParseErrorView,
> {
    let clean = spec_clean_line(line);
    if clean.len() == 0 {
        Ok(seq)
    } else if clean[0] == '[' {
        match spec_parse_section(clean.skip(1)) {
            Err(err) => Err(ParseErrorView::BadSection(err, line_no, clean)),
            Ok(section) => Ok(seq.with_section(section)),
        }
    } else {
        match spec_parse_location(clean) {
            Err(err) => Err(ParseErrorView::BadAttempt(err, line_no, clean)),
            Ok(location) => if seq.sections.len() == 0 {
                Err(ParseErrorView::AttemptBeforeSection(line_no, clean))
            } else {
                Ok(seq.with_attempt(location))
            },
        }
    }
}

/// The sequence after the first `n` lines of a log, or the error that the
/// first faulty line among them gives. Lines are counted from 1.
pub open spec fn spec_parse_lines(lines: Seq<Seq<char>>, n: int) -> Result<
    SequenceView,
    ParseErrorView,
>
    decreases n,
{
    if n <= 0 {
        Ok(SequenceView::empty())
    } else {
        match spec_parse_lines(lines, n - 1) {
            Err(err) => Err(err),
            Ok(seq) => spec_feed_line(seq, n as u64, lines[n - 1]),
        }
    }
}

/// The outcome of parsing a section, as plain values.
pub open spec fn section_outcome(parsed: Result<Section, SectionParseError>) -> Result<
    SectionView,
    SectionParseError,
> {
    match parsed {
        Ok(section) => Ok(section@),
        Err(err) => Err(err),
    }
}

/// The outcome of feeding a line to a sequence that was left as `after`, as
/// plain values.
pub open spec fn feed_outcome(fed: Result<(), ParseError>, after: SequenceView) -> Result<
    SequenceView,
    ParseErrorView,
> {
    match fed {
        Ok(_) => Ok(after),
        Err(err) => Err(err@),
    }
}

/// The outcome of parsing a log, as plain values.
pub open spec fn input_outcome(parsed: Result<Sequence, ParseError>) -> Result<
    SequenceView,
    ParseErrorView,
> {
    match parsed {
        Ok(sequence) => Ok(sequence@),
        Err(err) => Err(err@),
    }
}

/// The lines of a log, as plain values.
pub open spec fn lines_view(lines: Seq<String>) -> Seq<Seq<char>> {
    lines.map_values(|line: String| line@)
}

/// Whether `chars` spell `word`.
fn is_word(chars: &Vec<char>, word: &str) -> (same: bool)
    ensures
        same == (chars@ == word@),
{
    let n: usize = word.unicode_len();
    if chars.len() != n {
        return false;
    }
    let mut i: usize = 0;
    while i < n
        invariant
            n == word@.len(),
            n == chars@.len(),
            i <= n,
            forall|j: int| 0 <= j < i ==> chars@[j] == word@[j],
        decreases n - i,
    {
        if chars[i] != word.get_char(i) {
            return false;
        }
        i += 1;
    }
    assert(chars@ =~= word@);
    true
}

/// Index of the first character of `chars`, from `from` on, that is no blank.
fn skip_blanks(chars: &Vec<char>, from: usize) -> (end: usize)
    requires
        from <= chars@.len(),
    ensures
        end == spec_skip_blanks(chars@, from as int),
        from <= end <= chars@.len(),
{
    let mut end: usize = from;
    while end < chars.len() && is_blank(chars[end])
        invariant
            from <= end <= chars@.len(),
            spec_skip_blanks(chars@, end as int) == spec_skip_blanks(chars@, from as int),
        decreases chars@.len() - end,
    {
        end += 1;
    }
    end
}

/// Index of the first character of `chars`, from `from` on, that is a blank
/// or `stop`.
fn token_end(chars: &Vec<char>, from: usize, stop: char) -> (end: usize)
    requires
        from <= chars@.len(),
    ensures
        end == spec_token_end(chars@, from as int, stop),
        from <= end <= chars@.len(),
{
    let mut end: usize = from;
    while end < chars.len() && !is_blank(chars[end]) && chars[end] != stop
        invariant
            from <= end <= chars@.len(),
            spec_token_end(chars@, end as int, stop) == spec_token_end(chars@, from as int, stop),
        decreases chars@.len() - end,
    {
        end += 1;
    }
    end
}

/// The size that `text` gives: a decimal number of bytes, and at least one.
pub fn parse_size(text: &str) -> (parsed: Result<u16, NumberError>)
    ensures
        parsed == spec_parse_size(text@),
{
    match parse_u16(text, 10) {
        Ok(size) => if size == 0 {
            Err(NumberError::Zero)
        } else {
            Ok(size)
        },
        Err(err) => Err(err),
    }
}

impl MemType {
    /// The region that `text` names, in capitals.
    pub fn from_str(text: &str) -> (parsed: Option<MemType>)
        ensures
            parsed == spec_parse_mem_type(text@),
    {
        let chars: Vec<char> = to_chars(text);
        if is_word(&chars, "ROM0") {
            Some(MemType::Rom0)
        } else if is_word(&chars, "ROMX") {
            Some(MemType::Romx)
        } else if is_word(&chars, "VRAM") {
            Some(MemType::Vram)
        } else if is_word(&chars, "SRAM") {
            Some(MemType::Sram)
        } else if is_word(&chars, "WRAM0") {
            Some(MemType::Wram0)
        } else if is_word(&chars, "WRAMX") {
            Some(MemType::Wramx)
        } else if is_word(&chars, "OAM") {
            Some(MemType::Oam)
        } else if is_word(&chars, "HRAM") {
            Some(MemType::Hram)
        } else {
            None
        }
    }
}

impl Location {
    /// The location that `line` gives, as `bank:addr`, both hexadecimal.
    pub fn from_str(line: &str) -> (parsed: Result<Location, LocationParseError>)
        ensures
            parsed == spec_parse_location(line@),
    {
        let chars: Vec<char> = to_chars(line);
        let n: usize = chars.len();
        let colon: usize = find(&chars, 0, n, ':');
        assert(chars@.subrange(0, n as int) =~= line@);
        if colon >= n {
            return Err(LocationParseError::MissingColon);
        }
        let bank_start: usize = trim_start(&chars, 0, colon);
        let bank_end: usize = trim_end(&chars, bank_start, colon);
        assert(chars@.subrange(0, colon as int) =~= line@.take(colon as int));
        let bank: u32 = match parse_u32(line.substring_char(bank_start, bank_end), 16) {
            Ok(bank) => bank,
            Err(err) => {
                return Err(LocationParseError::BadBank(err));
            },
        };
        let addr_start: usize = trim_start(&chars, colon + 1, n);
        let addr_end: usize = trim_end(&chars, addr_start, n);
        assert(chars@.subrange(colon + 1, n as int) =~= line@.skip(colon + 1));
        let addr: u16 = match parse_u16(line.substring_char(addr_start, addr_end), 16) {
            Ok(addr) => addr,
            Err(err) => {
                return Err(LocationParseError::BadAddr(err));
            },
        };
        Ok(Location { bank, addr })
    }
}

impl Section {
    /// The section that `rest` declares, the text of a line after its `[`.
    /// A section has at least one byte: a size of zero is a bad size.
    pub fn from_str(rest: &str) -> (parsed: Result<Section, SectionParseError>)
        ensures
            section_outcome(parsed) == spec_parse_section(rest@),
            parsed matches Ok(section) ==> section.size >= 1,
    {
        let chars: Vec<char> = to_chars(rest);
        let n: usize = chars.len();
        let type_end: usize = token_end(&chars, 0, '@');
        if type_end == 0 {
            return Err(SectionParseError::SyntaxError);
        }
        let at: usize = skip_blanks(&chars, type_end);
        if at >= n || chars[at] != '@' {
            return Err(SectionParseError::SyntaxError);
        }
        let location_start: usize = skip_blanks(&chars, at + 1);
        let location_end: usize = token_end(&chars, location_start, '&');
        if location_end == location_start {
            return Err(SectionParseError::SyntaxError);
        }
        let and: usize = skip_blanks(&chars, location_end);
        if and >= n || chars[and] != '&' {
            return Err(SectionParseError::SyntaxError);
        }
        let mask_start: usize = skip_blanks(&chars, and + 1);
        let mask_end: usize = token_end(&chars, mask_start, '+');
        if mask_end == mask_start {
            return Err(SectionParseError::SyntaxError);
        }
        let plus: usize = skip_blanks(&chars, mask_end);
        if plus >= n || chars[plus] != '+' {
            return Err(SectionParseError::SyntaxError);
        }
        let ofs_start: usize = skip_blanks(&chars, plus + 1);
        let ofs_end: usize = token_end(&chars, ofs_start, ']');
        if ofs_end == ofs_start {
            return Err(SectionParseError::SyntaxError);
        }
        let bracket: usize = skip_blanks(&chars, ofs_end);
        if bracket >= n || chars[bracket] != ']' {
            return Err(SectionParseError::SyntaxError);
        }
        let size_start: usize = skip_blanks(&chars, bracket + 1);
        let size_end: usize = token_end(&chars, size_start, ' ');
        if size_end == size_start || size_end >= n || !is_blank(chars[size_end]) {
            return Err(SectionParseError::SyntaxError);
        }
        // Only one blank stands before the name: any more belong to it.
        let name_start: usize = size_end + 1;
        assert(chars@.subrange(name_start as int, n as int) =~= rest@.skip(name_start as int));
        if find(&chars, name_start, n, '\n') < n - name_start {
            return Err(SectionParseError::SyntaxError);
        }
        assert(spec_split_section(rest@) is Some);

        let mem_type: MemType = match MemType::from_str(rest.substring_char(0, type_end)) {
            Some(mem_type) => mem_type,
            None => {
                return Err(SectionParseError::BadType);
            },
        };
        let location: Location = match Location::from_str(
            rest.substring_char(location_start, location_end),
        ) {
            Ok(location) => location,
            Err(err) => {
                return Err(SectionParseError::BadLocation(err));
            },
        };
        let align_mask: u16 = match parse_u16(rest.substring_char(mask_start, mask_end), 16) {
            Ok(align_mask) => align_mask,
            Err(err) => {
                return Err(SectionParseError::BadAlignMask(err));
            },
        };
        let align_ofs: u16 = match parse_u16(rest.substring_char(ofs_start, ofs_end), 16) {
            Ok(align_ofs) => align_ofs,
            Err(err) => {
                return Err(SectionParseError::BadAlignOfs(err));
            },
        };
        let size: u16 = match parse_size(rest.substring_char(size_start, size_end)) {
            Ok(size) => size,
            Err(err) => {
                return Err(SectionParseError::BadSize(err));
            },
        };
        let name: String = String::from_str(rest.substring_char(name_start, n));
        Ok(Section { mem_type, location, align_mask, align_ofs, size, name })
    }
}

/// Where a line starts and ends once the white space before it and the line
/// end after it are left out.
fn clean_range(chars: &Vec<char>) -> (range: (usize, usize))
    ensures
        range.0 <= range.1 <= chars@.len(),
        chars@.subrange(range.0 as int, range.1 as int) == spec_clean_line(chars@),
{
    let n: usize = chars.len();
    // Leading white space is dropped. Trailing white space is not, as it may
    // belong to a name.
    let start: usize = trim_start(chars, 0, n);
    assert(chars@.subrange(0, n as int) =~= chars@);
    let mut end: usize = n;
    if start < end && chars[end - 1] == '\n' {
        end = end - 1;
    }
    assert(chars@.subrange(start as int, end as int) =~= spec_strip_suffix(
        spec_trim_start(chars@),
        '\n',
    ));
    let ghost mid = end;
    if start < end && chars[end - 1] == '\r' {
        end = end - 1;
    }
    assert(chars@.subrange(start as int, end as int) =~= spec_strip_suffix(
        chars@.subrange(start as int, mid as int),
        '\r',
    ));
    (start, end)
}

impl LocationParseError {
    /// The error in words.
    pub open spec fn spec_message(&self) -> Seq<char> {
        match self {
            LocationParseError::MissingColon => "Missing colon"@,
            LocationParseError::BadBank(err) => "Bad bank: "@ + err.spec_message(),
            LocationParseError::BadAddr(err) => "Bad addr: "@ + err.spec_message(),
        }
    }

    /// The error in words.
    pub fn message(&self) -> (message: String)
        ensures
            message@ == self.spec_message(),
    {
        match self {
            LocationParseError::MissingColon => String::from_str("Missing colon"),
            LocationParseError::BadBank(err) => String::from_str("Bad bank: ").concat(
                err.message(),
            ),
            LocationParseError::BadAddr(err) => String::from_str("Bad addr: ").concat(
                err.message(),
            ),
        }
    }
}

impl SectionParseError {
    /// The error in words.
    pub open spec fn spec_message(&self) -> Seq<char> {
        match self {
            SectionParseError::SyntaxError => "Syntax error"@,
            SectionParseError::BadType => "Bad type: parse failed."@,
            SectionParseError::BadLocation(err) => "Bad location: "@ + err.spec_message(),
            SectionParseError::BadAlignMask(err) => "Bad align mask: "@ + err.spec_message(),
            SectionParseError::BadAlignOfs(err) => "Bad align ofs: "@ + err.spec_message(),
            SectionParseError::BadSize(err) => "Bad size: "@ + err.spec_message(),
        }
    }

    /// The error in words.
    pub fn message(&self) -> (message: String)
        ensures
            message@ == self.spec_message(),
    {
        match self {
            SectionParseError::SyntaxError => String::from_str("Syntax error"),
            SectionParseError::BadType => String::from_str("Bad type: parse failed."),
            SectionParseError::BadLocation(err) => String::from_str("Bad location: ").concat(
                err.message().as_str(),
            ),
            SectionParseError::BadAlignMask(err) => String::from_str("Bad align mask: ").concat(
                err.message(),
            ),
            SectionParseError::BadAlignOfs(err) => String::from_str("Bad align ofs: ").concat(
                err.message(),
            ),
            SectionParseError::BadSize(err) => String::from_str("Bad size: ").concat(
                err.message(),
            ),
        }
    }
}

impl ParseErrorView {
    /// The error in words: what is wrong, on which line, and the line.
    pub open spec fn spec_message(self) -> Seq<char> {
        match self {
            ParseErrorView::AttemptBeforeSection(line_no, line) => {
                "Location attempt before any sections on line "@ + spec_decimal(line_no as nat)
                    + " ("@ + line + ")"@
            },
            ParseErrorView::BadSection(err, line_no, line) => {
                "Bad section on line "@ + spec_decimal(line_no as nat) + ": "@ + err.spec_message()
                    + " ("@ + line + ")"@
            },
            ParseErrorView::BadAttempt(err, line_no, line) => {
                "Bad location attempt on line "@ + spec_decimal(line_no as nat) + ": "@
                    + err.spec_message() + " ("@ + line + ")"@
            },
        }
    }
}

impl ParseError {
    /// The error in words.
    pub fn message(&self) -> (message: String)
        ensures
            message@ == self@.spec_message(),
    {
        match self {
            ParseError::AttemptBeforeSection(line_no, line) => {
                let mut message: String = String::from_str(
                    "Location attempt before any sections on line ",
                );
                message.append(decimal(*line_no).as_str());
                message.append(" (");
                message.append(line.as_str());
                message.append(")");
                message
            },
            ParseError::BadSection(err, line_no, line) => {
                let mut message: String = String::from_str("Bad section on line ");
                message.append(decimal(*line_no).as_str());
                message.append(": ");
                message.append(err.message().as_str());
                message.append(" (");
                message.append(line.as_str());
                message.append(")");
                message
            },
            ParseError::BadAttempt(err, line_no, line) => {
                let mut message: String = String::from_str("Bad location attempt on line ");
                message.append(decimal(*line_no).as_str());
                message.append(": ");
                message.append(err.message().as_str());
                message.append(" (");
                message.append(line.as_str());
                message.append(")");
                message
            },
        }
    }
}

/// A log that is faulty up to some line is faulty, in the same way, up to
/// every later line: the first fault is the one that is reported.
pub proof fn lemma_first_error_stays(lines: Seq<Seq<char>>, n: int, m: int)
    requires
        n <= m,
        spec_parse_lines(lines, n) is Err,
    ensures
        spec_parse_lines(lines, m) == spec_parse_lines(lines, n),
    decreases m - n,
{
    if n < m {
        lemma_first_error_stays(lines, n, m - 1);
    }
}

impl Sequence {
    /// Takes in line number `line_no` of a log. A line that cannot be read
    /// leaves the sequence as it was.
    pub fn feed_line(&mut self, line_no: u64, line: &str) -> (fed: Result<(), ParseError>)
        requires
            old(self)@.wf(),
        ensures
            final(self)@.wf(),
            feed_outcome(fed, final(self)@) == spec_feed_line(old(self)@, line_no, line@),
            fed is Err ==> final(self)@ == old(self)@,
    {
        let chars: Vec<char> = to_chars(line);
        let (start, end) = clean_range(&chars);
        let clean: &str = line.substring_char(start, end);
        // Blank lines say nothing.
        if start == end {
            return Ok(());
        }
        if chars[start] == '[' {
            let rest: &str = line.substring_char(start + 1, end);
            assert(rest@ =~= clean@.skip(1));
            match Section::from_str(rest) {
                Ok(section) => {
                    self.add_section(section);
                    Ok(())
                },
                Err(err) => Err(ParseError::BadSection(err, line_no, String::from_str(clean))),
            }
        } else {
            match Location::from_str(clean) {
                Ok(location) => {
                    if self.sections().len() == 0 {
                        Err(ParseError::AttemptBeforeSection(line_no, String::from_str(clean)))
                    } else {
                        self.add_attempt(location);
                        Ok(())
                    }
                },
                Err(err) => Err(ParseError::BadAttempt(err, line_no, String::from_str(clean))),
            }
        }
    }
}

/// Reads a whole log, given as its lines in order.
pub fn parse_input(lines: &Vec<String>) -> (parsed: Result<Sequence, ParseError>)
    ensures
        input_outcome(parsed) == spec_parse_lines(lines_view(lines@), lines@.len() as int),
        parsed matches Ok(sequence) ==> sequence@.wf(),
{
    let mut sequence: Sequence = Sequence::new();
    let mut i: usize = 0;
    while i < lines.len()
        invariant
            i <= lines@.len(),
            sequence@.wf(),
            spec_parse_lines(lines_view(lines@), i as int) == Ok::<SequenceView, ParseErrorView>(
                sequence@,
            ),
        decreases lines@.len() - i,
    {
        let line_no: u64 = i as u64 + 1;
        match sequence.feed_line(line_no, lines[i].as_str()) {
            Ok(_) => {},
            Err(err) => {
                proof {
                    lemma_first_error_stays(lines_view(lines@), i + 1, lines@.len() as int);
                }
                return Err(err);
            },
        }
        i += 1;
    }
    Ok(sequence)
}

} // verus!
