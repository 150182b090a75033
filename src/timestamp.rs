//! Timestamps of the form `HH:MM:SS,mmm`: parsing, rendering and shifting on a
//! 24-hour clock face.
use vstd::prelude::*;
use vstd::arithmetic::div_mod::{
    lemma_div_denominator, lemma_fundamental_div_mod, lemma_fundamental_div_mod_converse,
};

verus! {

/// Milliseconds in one day: the period of the clock face.
pub const MS_PER_DAY: i64 = 86_400_000;

pub open spec fn day_ms() -> int {
    86_400_000
}

/// A time of day with millisecond precision. It has no date and is not a duration.
#[derive(Clone, Copy, Debug, PartialEq, Eq, Structural)]
pub struct TimeOfDay {
    pub hour: u32,
    pub minute: u32,
    pub second: u32,
    pub milli: u32,
}

/// Why a piece of text is not a timestamp. The checks are made in this order.
#[derive(Clone, Copy, Debug, PartialEq, Eq, Structural)]
pub enum ParseCause {
    /// The text is not exactly twelve characters long.
    WrongLength,
    /// The text lacks `:` at positions 2 and 5 or `,` at position 8.
    WrongSeparator,
    /// A field holds a character that is not an ASCII digit.
    NotADigit,
    HourOutOfRange,
    MinuteOutOfRange,
    SecondOutOfRange,
}

/// A timestamp that could not be read, with the text that was offered.
#[derive(Debug)]
pub struct ParseError {
    pub text: String,
    pub cause: ParseCause,
}

impl TimeOfDay {
    /// Every field is within its range on the clock face.
    pub open spec fn wf(self) -> bool {
        self.hour < 24 && self.minute < 60 && self.second < 60 && self.milli < 1000
    }

    /// Milliseconds since midnight.
    pub open spec fn ms_of_day(self) -> int {
        self.hour as int * 3_600_000 + self.minute as int * 60_000 + self.second as int * 1000
            + self.milli as int
    }
}

/// The time of day that lies `x` milliseconds after midnight.
pub open spec fn time_at(x: int) -> TimeOfDay {
    TimeOfDay {
        hour: (x / 3_600_000) as u32,
        minute: ((x / 60_000) % 60) as u32,
        second: ((x / 1000) % 60) as u32,
        milli: (x % 1000) as u32,
    }
}

/// `t` moved by `offset` milliseconds, wrapping modulo one day.
pub open spec fn shift_spec(t: TimeOfDay, offset: int) -> TimeOfDay {
    time_at((t.ms_of_day() + offset) % day_ms())
}

pub open spec fn is_digit(c: char) -> bool {
    '0' <= c && c <= '9'
}

pub open spec fn digit_value(c: char) -> int {
    c as int - '0' as int
}

pub open spec fn digit_char(d: int) -> char {
    (d + '0' as int) as char
}

/// The number written by the two digits at `i` and `i + 1`.
pub open spec fn pair_value(s: Seq<char>, i: int) -> int {
    10 * digit_value(s[i]) + digit_value(s[i + 1])
}

pub open spec fn is_separator_position(i: int) -> bool {
    i == 2 || i == 5 || i == 8
}

pub open spec fn separators_ok(s: Seq<char>) -> bool {
    s[2] == ':' && s[5] == ':' && s[8] == ','
}

pub open spec fn digits_ok(s: Seq<char>) -> bool {
    forall|i: int| 0 <= i < 12 && !is_separator_position(i) ==> is_digit(#[trigger] s[i])
}

/// What `HH:MM:SS,mmm` text denotes, or the first check that it fails.
pub open spec fn parse_spec(s: Seq<char>) -> Result<TimeOfDay, ParseCause> {
    if s.len() != 12 {
        Err(ParseCause::WrongLength)
    } else if !separators_ok(s) {
        Err(ParseCause::WrongSeparator)
    } else if !digits_ok(s) {
        Err(ParseCause::NotADigit)
    } else if pair_value(s, 0) >= 24 {
        Err(ParseCause::HourOutOfRange)
    } else if pair_value(s, 3) >= 60 {
        Err(ParseCause::MinuteOutOfRange)
    } else if pair_value(s, 6) >= 60 {
        Err(ParseCause::SecondOutOfRange)
    } else {
        Ok(
            TimeOfDay {
                hour: pair_value(s, 0) as u32,
                minute: pair_value(s, 3) as u32,
                second: pair_value(s, 6) as u32,
                milli: (100 * digit_value(s[9]) + 10 * digit_value(s[10]) + digit_value(
                    s[11],
                )) as u32,
            },
        )
    }
}

/// The zero-padded `HH:MM:SS,mmm` rendering of `t`.
pub open spec fn text_spec(t: TimeOfDay) -> Seq<char> {
    seq![
        digit_char(t.hour as int / 10),
        digit_char(t.hour as int % 10),
        ':',
        digit_char(t.minute as int / 10),
        digit_char(t.minute as int % 10),
        ':',
        digit_char(t.second as int / 10),
        digit_char(t.second as int % 10),
        ',',
        digit_char(t.milli as int / 100),
        digit_char(t.milli as int / 10 % 10),
        digit_char(t.milli as int % 10),
    ]
}

/// The text of a timestamp moved by `offset` milliseconds, or why it is no timestamp.
#[verifier::opaque]
pub open spec fn shift_text_spec(s: Seq<char>, offset: int) -> Result<Seq<char>, ParseCause> {
    match parse_spec(s) {
        Ok(t) => Ok(text_spec(shift_spec(t, offset))),
        Err(c) => Err(c),
    }
}

/// Relies on chrono's `NaiveTime + TimeDelta`, which wraps around midnight: for a time that
/// is not a leap second the result is the time plus the delta, modulo one day. The time is
/// built by `NaiveTime::from_num_seconds_from_midnight_opt`, which accepts every such
/// time, and the delta by `TimeDelta::milliseconds`, which accepts every count above
/// `i64::MIN`; the result is read back through `Timelike`.
#[verifier::external_body]
fn clock_add(secs: u32, nanos: u32, offset_ms: i64) -> (r: (u32, u32))
    requires
        secs < 86_400,
        nanos < 1_000_000_000,
        offset_ms > i64::MIN,
    ensures
        r.0 < 86_400,
        r.1 < 1_000_000_000,
        r.0 as int * 1_000_000_000 + r.1 as int == (secs as int * 1_000_000_000 + nanos as int
            + offset_ms as int * 1_000_000) % 86_400_000_000_000,
{
    let start = chrono::NaiveTime::from_num_seconds_from_midnight_opt(secs, nanos).unwrap();
    let end = start + chrono::TimeDelta::milliseconds(offset_ms);
    (chrono::Timelike::num_seconds_from_midnight(&end), chrono::Timelike::nanosecond(&end))
}

proof fn lemma_time_at_ms(t: TimeOfDay)
    requires
        t.wf(),
    ensures
        time_at(t.ms_of_day()) == t,
{
    let x = t.ms_of_day();
    let h = t.hour as int;
    let m = t.minute as int;
    let s = t.second as int;
    let ms = t.milli as int;
    lemma_fundamental_div_mod_converse(x, 3_600_000, h, m * 60_000 + s * 1000 + ms);
    lemma_fundamental_div_mod_converse(x, 60_000, h * 60 + m, s * 1000 + ms);
    lemma_fundamental_div_mod_converse(h * 60 + m, 60, h, m);
    lemma_fundamental_div_mod_converse(x, 1000, h * 3600 + m * 60 + s, ms);
    lemma_fundamental_div_mod_converse(h * 3600 + m * 60 + s, 60, h * 60 + m, s);
}

proof fn lemma_ms_time_at(x: int)
    requires
        0 <= x < day_ms(),
    ensures
        time_at(x).wf(),
        time_at(x).ms_of_day() == x,
{
    lemma_fundamental_div_mod(x, 1000);
    lemma_fundamental_div_mod(x / 1000, 60);
    lemma_div_denominator(x, 1000, 60);
    lemma_fundamental_div_mod(x / 60_000, 60);
    lemma_div_denominator(x, 60_000, 60);
    assert(x / 3_600_000 < 24) by (nonlinear_arith)
        requires
            0 <= x < 86_400_000,
    ;
    assert(x / 3_600_000 >= 0) by (nonlinear_arith)
        requires
            0 <= x,
    ;
}

/// `(a * k) % (n * k)` is `(a % n) * k`.
proof fn lemma_scaled_mod(a: int, n: int, k: int)
    requires
        n > 0,
        k > 0,
    ensures
        (a * k) % (n * k) == (a % n) * k,
        0 <= a % n < n,
{
    lemma_fundamental_div_mod(a, n);
    let q = a / n;
    let r = a % n;
    assert(a * k == q * (n * k) + r * k) by (nonlinear_arith)
        requires
            a == n * q + r,
    ;
    assert(0 <= r * k < n * k) by (nonlinear_arith)
        requires
            0 <= r < n,
            k > 0,
    ;
    lemma_fundamental_div_mod_converse(a * k, n * k, q, r * k);
}

/// Rendering the time that a well-formed timestamp denotes gives back the same text.
pub proof fn lemma_format_parse_round_trip(s: Seq<char>)
    requires
        parse_spec(s) is Ok,
    ensures
        text_spec(parse_spec(s)->Ok_0) == s,
{
    let t = parse_spec(s)->Ok_0;
    assert(is_digit(s[0]) && is_digit(s[1]) && is_digit(s[3]) && is_digit(s[4]));
    assert(is_digit(s[6]) && is_digit(s[7]) && is_digit(s[9]) && is_digit(s[10]));
    assert(is_digit(s[11]));
    let h1 = digit_value(s[0]);
    let h0 = digit_value(s[1]);
    let m1 = digit_value(s[3]);
    let m0 = digit_value(s[4]);
    let s1 = digit_value(s[6]);
    let s0 = digit_value(s[7]);
    let a = digit_value(s[9]);
    let b = digit_value(s[10]);
    let c = digit_value(s[11]);
    lemma_fundamental_div_mod_converse(10 * h1 + h0, 10, h1, h0);
    lemma_fundamental_div_mod_converse(10 * m1 + m0, 10, m1, m0);
    lemma_fundamental_div_mod_converse(10 * s1 + s0, 10, s1, s0);
    lemma_fundamental_div_mod_converse(100 * a + 10 * b + c, 100, a, 10 * b + c);
    lemma_fundamental_div_mod_converse(100 * a + 10 * b + c, 10, 10 * a + b, c);
    lemma_fundamental_div_mod_converse(10 * a + b, 10, a, b);
    assert(text_spec(t) =~= s);
}

/// Reading the rendering of a time gives back that time.
pub proof fn lemma_parse_format_round_trip(t: TimeOfDay)
    requires
        t.wf(),
    ensures
        parse_spec(text_spec(t)) == Ok::<TimeOfDay, ParseCause>(t),
{
    let s = text_spec(t);
    let h = t.hour as int;
    let m = t.minute as int;
    let sec = t.second as int;
    let ms = t.milli as int;
    lemma_fundamental_div_mod(h, 10);
    lemma_fundamental_div_mod(m, 10);
    lemma_fundamental_div_mod(sec, 10);
    lemma_fundamental_div_mod(ms, 10);
    lemma_fundamental_div_mod(ms / 10, 10);
    lemma_div_denominator(ms, 10, 10);
    assert(h / 10 < 3 && m / 10 < 6 && sec / 10 < 6 && ms / 100 < 10);
    assert(digits_ok(s));
}

/// Moving a time by zero milliseconds leaves it as it is.
pub proof fn lemma_shift_zero(t: TimeOfDay)
    requires
        t.wf(),
    ensures
        shift_spec(t, 0) == t,
{
    vstd::arithmetic::div_mod::lemma_small_mod(t.ms_of_day() as nat, day_ms() as nat);
    lemma_time_at_ms(t);
}

/// Moving a time by `d` and then by `-d` gives back the time, also where the first move
/// crosses midnight.
pub proof fn lemma_shift_symmetry(t: TimeOfDay, d: int)
    requires
        t.wf(),
    ensures
        shift_spec(t, d).wf(),
        shift_spec(shift_spec(t, d), -d) == t,
{
    let x = t.ms_of_day();
    lemma_fundamental_div_mod(x + d, day_ms());
    let y = (x + d) % day_ms();
    lemma_ms_time_at(y);
    lemma_fundamental_div_mod_converse(y - d, day_ms(), -((x + d) / day_ms()), x);
    lemma_time_at_ms(t);
}

impl TimeOfDay {
    /// Reads a timestamp written exactly as `HH:MM:SS,mmm`.
    pub fn parse(text: &str) -> (r: Result<TimeOfDay, ParseError>)
        ensures
            match r {
                Ok(t) => parse_spec(text@) == Ok::<TimeOfDay, ParseCause>(t),
                Err(e) => e.text@ == text@ && parse_spec(text@) == Err::<TimeOfDay, ParseCause>(
                    e.cause,
                ),
            },
    {
        match read_fields(text) {
            Ok(t) => Ok(t),
            Err(cause) => Err(ParseError { text: String::from_str(text), cause }),
        }
    }

    /// Renders the time as zero-padded `HH:MM:SS,mmm`.
    pub fn format(&self) -> (r: String)
        requires
            self.wf(),
        ensures
            r@ == text_spec(*self),
    {
        let mut out = String::new();
        out.append(digit_str(self.hour / 10));
        out.append(digit_str(self.hour % 10));
        out.append(":");
        out.append(digit_str(self.minute / 10));
        out.append(digit_str(self.minute % 10));
        out.append(":");
        out.append(digit_str(self.second / 10));
        out.append(digit_str(self.second % 10));
        out.append(",");
        out.append(digit_str(self.milli / 100));
        out.append(digit_str(self.milli / 10 % 10));
        out.append(digit_str(self.milli % 10));
        proof {
            reveal_strlit(":");
            reveal_strlit(",");
            assert(out@ =~= text_spec(*self));
        }
        out
    }

    /// The time `offset` milliseconds later (earlier when negative), wrapping around
    /// midnight in either direction.
    pub fn shifted(&self, offset: i64) -> (r: TimeOfDay)
        requires
            self.wf(),
        ensures
            r.wf(),
            r == shift_spec(*self, offset as int),
    {
        // A whole day changes nothing on the clock face; it keeps the delta above i64::MIN.
        let delta: i64 = if offset == i64::MIN {
            offset + MS_PER_DAY
        } else {
            offset
        };
        let secs: u32 = self.hour * 3600 + self.minute * 60 + self.second;
        let nanos: u32 = self.milli * 1_000_000;
        let (s, n) = clock_add(secs, nanos, delta);
        proof {
            let x = self.ms_of_day();
            let a = x + delta as int;
            assert((x + delta as int) % day_ms() == (x + offset as int) % day_ms()) by {
                if offset == i64::MIN {
                    lemma_fundamental_div_mod(x + offset as int, day_ms());
                    let q = (x + offset as int) / day_ms();
                    let r = (x + offset as int) % day_ms();
                    lemma_fundamental_div_mod_converse(x + delta as int, day_ms(), q + 1, r);
                }
            }
            assert(secs as int * 1_000_000_000 + nanos as int + delta as int * 1_000_000 == a
                * 1_000_000);
            lemma_scaled_mod(a, day_ms(), 1_000_000);
            let r = a % day_ms();
            lemma_fundamental_div_mod(r, 1000);
            lemma_fundamental_div_mod_converse(
                r * 1_000_000,
                1_000_000_000,
                r / 1000,
                (r % 1000) * 1_000_000,
            );
            lemma_fundamental_div_mod_converse(r * 1_000_000, 1_000_000_000, s as int, n as int);
            assert(n as int / 1_000_000 == r % 1000);
            lemma_div_denominator(r, 1000, 3600);
            lemma_div_denominator(r, 1000, 60);
            lemma_ms_time_at(r);
        }
        TimeOfDay { hour: s / 3600, minute: s / 60 % 60, second: s % 60, milli: n / 1_000_000 }
    }
}

/// The one-character text of the digit `d`.
fn digit_str(d: u32) -> (r: &'static str)
    requires
        d < 10,
    ensures
        r@ == seq![digit_char(d as int)],
{
    let digits = "0123456789";
    proof {
        reveal_strlit("0123456789");
    }
    digits.substring_char(d as usize, d as usize + 1)
}

fn is_digit_char(c: char) -> (r: bool)
    ensures
        r == is_digit(c),
{
    '0' <= c && c <= '9'
}

/// The number written by the two digits of `text` at `i` and `i + 1`.
fn read_pair(text: &str, i: usize) -> (r: u32)
    requires
        i < 11,
        i + 1 < text@.len(),
        is_digit(text@[i as int]),
        is_digit(text@[i + 1]),
    ensures
        r as int == pair_value(text@, i as int),
        r < 100,
{
    let hi = text.get_char(i) as u32 - '0' as u32;
    let lo = text.get_char(i + 1) as u32 - '0' as u32;
    10 * hi + lo
}

fn read_fields(text: &str) -> (r: Result<TimeOfDay, ParseCause>)
    ensures
        r == parse_spec(text@),
{
    if text.unicode_len() != 12 {
        return Err(ParseCause::WrongLength);
    }
    if text.get_char(2) != ':' || text.get_char(5) != ':' || text.get_char(8) != ',' {
        return Err(ParseCause::WrongSeparator);
    }
    let mut i: usize = 0;
    while i < 12
        invariant
            i <= 12,
            text@.len() == 12,
            separators_ok(text@),
            forall|j: int| 0 <= j < i && !is_separator_position(j) ==> is_digit(#[trigger] text@[j]),
        decreases 12 - i,
    {
        if i != 2 && i != 5 && i != 8 && !is_digit_char(text.get_char(i)) {
            assert(!digits_ok(text@));
            return Err(ParseCause::NotADigit);
        }
        i = i + 1;
    }
    assert(digits_ok(text@));
    let hour = read_pair(text, 0);
    if hour >= 24 {
        return Err(ParseCause::HourOutOfRange);
    }
    let minute = read_pair(text, 3);
    if minute >= 60 {
        return Err(ParseCause::MinuteOutOfRange);
    }
    let second = read_pair(text, 6);
    if second >= 60 {
        return Err(ParseCause::SecondOutOfRange);
    }
    let hundreds = text.get_char(9) as u32 - '0' as u32;
    let rest = read_pair(text, 10);
    Ok(TimeOfDay { hour, minute, second, milli: 100 * hundreds + rest })
}

/// Shifts the timestamp written in `input` by `offset` milliseconds and writes it back in
/// the same format.
pub fn apply_offset(input: &str, offset: i64) -> (r: Result<String, ParseError>)
    ensures
        match r {
            Ok(s) => shift_text_spec(input@, offset as int) == Ok::<Seq<char>, ParseCause>(s@),
            Err(e) => e.text@ == input@ && shift_text_spec(input@, offset as int) == Err::<
                Seq<char>,
                ParseCause,
            >(e.cause),
        },
{
    proof {
        reveal(shift_text_spec);
    }
    let t = TimeOfDay::parse(input)?;
    Ok(t.shifted(offset).format())
}

} // verus!
