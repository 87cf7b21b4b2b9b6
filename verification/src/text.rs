//! Characters, runs of characters, and the numbers written with them.

use vstd::prelude::*;

verus! {

/// Whether `c` is a space or a tab.
pub open spec fn spec_is_blank(c: char) -> bool {
    c == ' ' || c == '\t'
}

/// Whether `c` is white space as Unicode defines it (the property
/// `White_Space`).
pub open spec fn spec_is_whitespace(c: char) -> bool {
    let u = c as u32;
    ||| 0x09 <= u <= 0x0D
    ||| u == 0x20
    ||| u == 0x85
    ||| u == 0xA0
    ||| u == 0x1680
    ||| 0x2000 <= u <= 0x200A
    ||| u == 0x2028
    ||| u == 0x2029
    ||| u == 0x202F
    ||| u == 0x205F
    ||| u == 0x3000
}

/// Whether `c` is a space or a tab.
pub fn is_blank(c: char) -> (blank: bool)
    ensures
        blank == spec_is_blank(c),
{
    c == ' ' || c == '\t'
}

/// Whether `c` is white space as Unicode defines it.
pub fn is_whitespace(c: char) -> (white: bool)
    ensures
        white == spec_is_whitespace(c),
{
    let u: u32 = c as u32;
    (0x09 <= u && u <= 0x0D) || u == 0x20 || u == 0x85 || u == 0xA0 || u == 0x1680 || (0x2000 <= u
        && u <= 0x200A) || u == 0x2028 || u == 0x2029 || u == 0x202F || u == 0x205F || u == 0x3000
}

/// `s` without the white space it starts with.
pub open spec fn spec_trim_start(s: Seq<char>) -> Seq<char>
    decreases s.len(),
{
    if s.len() > 0 && spec_is_whitespace(s[0]) {
        spec_trim_start(s.skip(1))
    } else {
        s
    }
}

/// `s` without the white space it ends with.
pub open spec fn spec_trim_end(s: Seq<char>) -> Seq<char>
    decreases s.len(),
{
    if s.len() > 0 && spec_is_whitespace(s.last()) {
        spec_trim_end(s.drop_last())
    } else {
        s
    }
}

/// `s` without the white space at both ends.
pub open spec fn spec_trim(s: Seq<char>) -> Seq<char> {
    spec_trim_end(spec_trim_start(s))
}

/// `s` without its last character, if that is `c`.
pub open spec fn spec_strip_suffix(s: Seq<char>, c: char) -> Seq<char> {
    if s.len() > 0 && s.last() == c {
        s.drop_last()
    } else {
        s
    }
}

/// Index of the first `c` in `s`, or the length of `s` if there is none.
pub open spec fn spec_find(s: Seq<char>, c: char) -> int
    decreases s.len(),
{
    if s.len() == 0 || s[0] == c {
        0
    } else {
        1 + spec_find(s.skip(1), c)
    }
}

/// `spec_find` gives an index up to the length, with no `c` before it and,
/// below the length, `c` at it.
pub proof fn lemma_find(s: Seq<char>, c: char)
    ensures
        0 <= spec_find(s, c) <= s.len(),
        spec_find(s, c) < s.len() ==> s[spec_find(s, c)] == c,
        forall|i: int| 0 <= i < spec_find(s, c) ==> s[i] != c,
    decreases s.len(),
{
    if !(s.len() == 0 || s[0] == c) {
        lemma_find(s.skip(1), c);
        assert forall|i: int| 0 <= i < spec_find(s, c) implies s[i] != c by {
            if i > 0 {
                assert(s.skip(1)[i - 1] == s[i]);
            }
        }
    }
}

/// The characters of `text`, one by one.
pub fn to_chars(text: &str) -> (chars: Vec<char>)
    ensures
        chars@ == text@,
{
    broadcast use vstd::string::group_string_axioms;

    let mut chars: Vec<char> = Vec::new();
    for c in it: text.chars()
        invariant
            it.seq() == text@,
            chars@ == text@.take(it.index() as int),
    {
        assert(chars@.push(c) =~= text@.take(it.index() + 1));
        chars.push(c);
    }
    assert(text@.take(text@.len() as int) =~= text@);
    chars
}

/// Where `chars[from..to]` starts once the white space before it is left out.
pub fn trim_start(chars: &Vec<char>, from: usize, to: usize) -> (start: usize)
    requires
        from <= to <= chars@.len(),
    ensures
        from <= start <= to,
        chars@.subrange(start as int, to as int) == spec_trim_start(
            chars@.subrange(from as int, to as int),
        ),
{
    let mut start: usize = from;
    while start < to && is_whitespace(chars[start])
        invariant
            from <= start <= to <= chars@.len(),
            spec_trim_start(chars@.subrange(start as int, to as int)) == spec_trim_start(
                chars@.subrange(from as int, to as int),
            ),
        decreases to - start,
    {
        assert(chars@.subrange(start as int, to as int).skip(1) =~= chars@.subrange(
            start + 1,
            to as int,
        ));
        start += 1;
    }
    start
}

/// Where `chars[from..to]` ends once the white space after it is left out.
pub fn trim_end(chars: &Vec<char>, from: usize, to: usize) -> (end: usize)
    requires
        from <= to <= chars@.len(),
    ensures
        from <= end <= to,
        chars@.subrange(from as int, end as int) == spec_trim_end(
            chars@.subrange(from as int, to as int),
        ),
{
    let mut end: usize = to;
    while from < end && is_whitespace(chars[end - 1])
        invariant
            from <= end <= to <= chars@.len(),
            spec_trim_end(chars@.subrange(from as int, end as int)) == spec_trim_end(
                chars@.subrange(from as int, to as int),
            ),
        decreases end - from,
    {
        assert(chars@.subrange(from as int, end as int).drop_last() =~= chars@.subrange(
            from as int,
            end - 1,
        ));
        end -= 1;
    }
    end
}

/// Index of the first `c` in `chars[from..to]`, counted from `from`, or
/// `to - from` if there is none.
pub fn find(chars: &Vec<char>, from: usize, to: usize, c: char) -> (at: usize)
    requires
        from <= to <= chars@.len(),
    ensures
        at == spec_find(chars@.subrange(from as int, to as int), c),
        at <= to - from,
{
    let mut i: usize = from;
    while i < to && chars[i] != c
        invariant
            from <= i <= to <= chars@.len(),
            spec_find(chars@.subrange(from as int, to as int), c) == (i - from) + spec_find(
                chars@.subrange(i as int, to as int),
                c,
            ),
        decreases to - i,
    {
        assert(chars@.subrange(i as int, to as int).skip(1) =~= chars@.subrange(i + 1, to as int));
        i += 1;
    }
    i - from
}

/// Why a text is not a number of the type asked for.
#[derive(Debug, Clone, Copy, PartialEq, Eq, Structural)]
pub enum NumberError {
    /// There is nothing to parse.
    Empty,
    /// A character is no digit where one has to stand.
    InvalidDigit,
    /// The number is too large for the type.
    PosOverflow,
    /// The number is too small for the type.
    NegOverflow,
    /// The number is zero where zero is not allowed.
    Zero,
    /// A reason that this library has no name for.
    Other,
}

/// The value of `c` as a digit: `0` to `9`, then the letters, in either
/// case, from 10 on.
pub open spec fn spec_digit(c: char) -> Option<int> {
    if '0' <= c <= '9' {
        Some(c as int - '0' as int)
    } else if 'a' <= c <= 'z' {
        Some(c as int - 'a' as int + 10)
    } else if 'A' <= c <= 'Z' {
        Some(c as int - 'A' as int + 10)
    } else {
        None
    }
}

/// The value of a run of digits in base `radix`, the empty run counting as
/// zero; `None` where a character is no digit of that base.
pub open spec fn spec_digits_value(s: Seq<char>, radix: int) -> Option<int>
    decreases s.len(),
{
    if s.len() == 0 {
        Some(0)
    } else {
        match (spec_digits_value(s.drop_last(), radix), spec_digit(s.last())) {
            (Some(value), Some(digit)) => if digit < radix {
                Some(value * radix + digit)
            } else {
                None
            },
            _ => None,
        }
    }
}

/// The number that `s` is in base `radix`: one digit or more, after a `+`
/// or nothing. `None` where `s` is not of that form.
pub open spec fn spec_number_value(s: Seq<char>, radix: int) -> Option<int> {
    let digits = if s.len() > 0 && s[0] == '+' {
        s.skip(1)
    } else {
        s
    };
    if digits.len() == 0 {
        None
    } else {
        spec_digits_value(digits, radix)
    }
}

/// The kind of fault that an error of `u32::from_str_radix` or
/// `u16::from_str_radix` stands for.
pub uninterp spec fn spec_error_kind(err: core::num::ParseIntError) -> NumberError;

/// The kind of error that parsing `s` as a `u32` in base `radix` ends with,
/// where it ends with one.
pub uninterp spec fn spec_u32_error(s: Seq<char>, radix: int) -> NumberError;

/// The kind of error that parsing `s` as a `u16` in base `radix` ends with,
/// where it ends with one.
pub uninterp spec fn spec_u16_error(s: Seq<char>, radix: int) -> NumberError;

/// What parsing `s` as a `u32` in base `radix` gives.
pub open spec fn spec_parse_u32(s: Seq<char>, radix: int) -> Result<u32, NumberError> {
    match spec_number_value(s, radix) {
        Some(value) => if value <= u32::MAX {
            Ok(value as u32)
        } else {
            Err(spec_u32_error(s, radix))
        },
        None => Err(spec_u32_error(s, radix)),
    }
}

/// What parsing `s` as a `u16` in base `radix` gives.
pub open spec fn spec_parse_u16(s: Seq<char>, radix: int) -> Result<u16, NumberError> {
    match spec_number_value(s, radix) {
        Some(value) => if value <= u16::MAX {
            Ok(value as u16)
        } else {
            Err(spec_u16_error(s, radix))
        },
        None => Err(spec_u16_error(s, radix)),
    }
}

/// The error of std's integer parsing. Nothing is known of what it holds
/// but its kind.
#[verifier::external_type_specification]
#[verifier::external_body]
pub struct ExParseIntError(core::num::ParseIntError);

/// Calls `u32::from_str_radix`.
///
/// Believed of it: the text is accepted exactly when it is one digit of the
/// base or more, after a `+` or nothing, and the number fits in a `u32`; the
/// result is then that number. The same text in the same base always ends
/// with the same kind of error: the empty text with `Empty`, a well-formed
/// number that is too large with `PosOverflow`.
#[verifier::external_body]
fn u32_from_str_radix(text: &str, radix: u32) -> (parsed: Result<u32, core::num::ParseIntError>)
    requires
        2 <= radix <= 36,
    ensures
        parsed is Ok <==> spec_parse_u32(text@, radix as int) is Ok,
        parsed matches Ok(value) ==> spec_number_value(text@, radix as int) == Some(value as int),
        parsed matches Err(err) ==> spec_error_kind(err) == spec_u32_error(text@, radix as int),
        parsed matches Err(err) ==> (text@.len() == 0 ==> spec_error_kind(err)
            == NumberError::Empty),
        parsed matches Err(err) ==> (spec_number_value(text@, radix as int) is Some
            ==> spec_error_kind(err) == NumberError::PosOverflow),
{
    u32::from_str_radix(text, radix)
}

/// Calls `u16::from_str_radix`.
///
/// Believed of it: the text is accepted exactly when it is one digit of the
/// base or more, after a `+` or nothing, and the number fits in a `u16`; the
/// result is then that number. The same text in the same base always ends
/// with the same kind of error: the empty text with `Empty`, a well-formed
/// number that is too large with `PosOverflow`.
#[verifier::external_body]
fn u16_from_str_radix(text: &str, radix: u32) -> (parsed: Result<u16, core::num::ParseIntError>)
    requires
        2 <= radix <= 36,
    ensures
        parsed is Ok <==> spec_parse_u16(text@, radix as int) is Ok,
        parsed matches Ok(value) ==> spec_number_value(text@, radix as int) == Some(value as int),
        parsed matches Err(err) ==> spec_error_kind(err) == spec_u16_error(text@, radix as int),
        parsed matches Err(err) ==> (text@.len() == 0 ==> spec_error_kind(err)
            == NumberError::Empty),
        parsed matches Err(err) ==> (spec_number_value(text@, radix as int) is Some
            ==> spec_error_kind(err) == NumberError::PosOverflow),
{
    u16::from_str_radix(text, radix)
}

/// Calls `ParseIntError::kind`, and gives each kind its name in this
/// library; a kind that std may add later is `Other`.
#[verifier::external_body]
fn error_kind(err: &core::num::ParseIntError) -> (kind: NumberError)
    ensures
        kind == spec_error_kind(*err),
{
    match err.kind() {
        core::num::IntErrorKind::Empty => NumberError::Empty,
        core::num::IntErrorKind::InvalidDigit => NumberError::InvalidDigit,
        core::num::IntErrorKind::PosOverflow => NumberError::PosOverflow,
        core::num::IntErrorKind::NegOverflow => NumberError::NegOverflow,
        core::num::IntErrorKind::Zero => NumberError::Zero,
        _ => NumberError::Other,
    }
}

/// The `u32` that `text` is in base `radix`: one digit or more, after a `+`
/// or nothing.
pub fn parse_u32(text: &str, radix: u32) -> (parsed: Result<u32, NumberError>)
    requires
        2 <= radix <= 36,
    ensures
        parsed == spec_parse_u32(text@, radix as int),
        text@.len() == 0 ==> parsed == Err::<u32, NumberError>(NumberError::Empty),
        spec_number_value(text@, radix as int) is Some ==> parsed is Ok || parsed == Err::<
            u32,
            NumberError,
        >(NumberError::PosOverflow),
{
    match u32_from_str_radix(text, radix) {
        Ok(value) => Ok(value),
        Err(err) => Err(error_kind(&err)),
    }
}

/// The `u16` that `text` is in base `radix`: one digit or more, after a `+`
/// or nothing.
pub fn parse_u16(text: &str, radix: u32) -> (parsed: Result<u16, NumberError>)
    requires
        2 <= radix <= 36,
    ensures
        parsed == spec_parse_u16(text@, radix as int),
        text@.len() == 0 ==> parsed == Err::<u16, NumberError>(NumberError::Empty),
        spec_number_value(text@, radix as int) is Some ==> parsed is Ok || parsed == Err::<
            u16,
            NumberError,
        >(NumberError::PosOverflow),
{
    match u16_from_str_radix(text, radix) {
        Ok(value) => Ok(value),
        Err(err) => Err(error_kind(&err)),
    }
}

impl NumberError {
    /// The reason in words.
    pub open spec fn spec_message(self) -> Seq<char> {
        match self {
            NumberError::Empty => "cannot parse integer from empty string"@,
            NumberError::InvalidDigit => "invalid digit found in string"@,
            NumberError::PosOverflow => "number too large to fit in target type"@,
            NumberError::NegOverflow => "number too small to fit in target type"@,
            NumberError::Zero => "number would be zero for non-zero type"@,
            NumberError::Other => "number could not be parsed"@,
        }
    }

    /// The reason in words.
    pub fn message(&self) -> (message: &'static str)
        ensures
            message@ == self.spec_message(),
    {
        match self {
            NumberError::Empty => "cannot parse integer from empty string",
            NumberError::InvalidDigit => "invalid digit found in string",
            NumberError::PosOverflow => "number too large to fit in target type",
            NumberError::NegOverflow => "number too small to fit in target type",
            NumberError::Zero => "number would be zero for non-zero type",
            NumberError::Other => "number could not be parsed",
        }
    }
}

/// The character that stands for the digit `d`.
pub open spec fn spec_digit_char(d: int) -> char {
    if d == 0 {
        '0'
    } else if d == 1 {
        '1'
    } else if d == 2 {
        '2'
    } else if d == 3 {
        '3'
    } else if d == 4 {
        '4'
    } else if d == 5 {
        '5'
    } else if d == 6 {
        '6'
    } else if d == 7 {
        '7'
    } else if d == 8 {
        '8'
    } else {
        '9'
    }
}

/// `n` written in base ten, without leading zeros.
pub open spec fn spec_decimal(n: nat) -> Seq<char>
    decreases n,
{
    if n < 10 {
        seq![spec_digit_char(n as int)]
    } else {
        spec_decimal(n / 10).push(spec_digit_char((n % 10) as int))
    }
}

/// The digit `d` as a text.
fn digit_text(d: u64) -> (text: &'static str)
    requires
        d < 10,
    ensures
        text@ == seq![spec_digit_char(d as int)],
{
    proof {
        reveal_strlit("0");
        reveal_strlit("1");
        reveal_strlit("2");
        reveal_strlit("3");
        reveal_strlit("4");
        reveal_strlit("5");
        reveal_strlit("6");
        reveal_strlit("7");
        reveal_strlit("8");
        reveal_strlit("9");
    }
    let text: &'static str = if d == 0 {
        "0"
    } else if d == 1 {
        "1"
    } else if d == 2 {
        "2"
    } else if d == 3 {
        "3"
    } else if d == 4 {
        "4"
    } else if d == 5 {
        "5"
    } else if d == 6 {
        "6"
    } else if d == 7 {
        "7"
    } else if d == 8 {
        "8"
    } else {
        "9"
    };
    assert(text@ =~= seq![spec_digit_char(d as int)]);
    text
}

/// `n` written in base ten, without leading zeros.
pub fn decimal(n: u64) -> (text: String)
    ensures
        text@ == spec_decimal(n as nat),
    decreases n,
{
    if n < 10 {
        String::from_str(digit_text(n))
    } else {
        let mut text: String = decimal(n / 10);
        text.append(digit_text(n % 10));
        assert(text@ =~= spec_decimal(n as nat));
        text
    }
}

} // verus!
