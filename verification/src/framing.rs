use crate::text::{chars_of, decimal, decimal_digits, digit_char};
use vstd::prelude::*;
use vstd::string::StringSliceAdditionalSpecFns;
use vstd::utf8::{decode_utf8, encode_utf8, valid_utf8};

verus! {

/// Why a byte stream is not one well-formed message.
#[derive(Clone, Copy, Debug, PartialEq, Eq)]
pub enum FramingError {
    /// The stream is not UTF-8 text.
    InvalidUtf8,
    /// The first line is not a non-negative decimal number.
    InvalidCount,
    /// The stream ends before the announced number of newline-terminated lines.
    Truncated,
}

impl FramingError {
    /// A fixed description of the error.
    pub open spec fn text(self) -> Seq<char> {
        match self {
            FramingError::InvalidUtf8 => "framing error: stream is not valid UTF-8"@,
            FramingError::InvalidCount => "framing error: line count is not a non-negative integer"@,
            FramingError::Truncated => "framing error: stream ended before the announced lines"@,
        }
    }

    /// A fixed, human-readable description of the error.
    pub fn message(&self) -> (text: String)
        ensures
            text@ == self.text(),
    {
        match self {
            FramingError::InvalidUtf8 => "framing error: stream is not valid UTF-8".to_owned(),
            FramingError::InvalidCount => "framing error: line count is not a non-negative integer".to_owned(),
            FramingError::Truncated => "framing error: stream ended before the announced lines".to_owned(),
        }
    }
}

/// `core::str::Utf8Error`: why bytes are not UTF-8. Carried, never inspected.
#[verifier::external_type_specification]
#[verifier::external_body]
pub struct ExUtf8Error(core::str::Utf8Error);

/// `core::str::from_utf8` accepts exactly the well-formed UTF-8 byte sequences and
/// hands back the same bytes, seen as text.
pub assume_specification[ core::str::from_utf8 ](v: &[u8]) -> (r: Result<&str, core::str::Utf8Error>)
    ensures
        r is Ok <==> valid_utf8(v@),
        r matches Ok(s) ==> s.spec_bytes() == v@,
;

/// The number of newline characters among the first `to` characters of `s`.
pub open spec fn newlines_before(s: Seq<char>, to: int) -> nat
    decreases to,
{
    if to <= 0 {
        0
    } else {
        newlines_before(s, to - 1) + if s[to - 1] == '\n' {
            1nat
        } else {
            0nat
        }
    }
}

/// The number of lines that splitting `payload` at every newline gives: one more than it has
/// newlines, so the empty payload counts as one line.
pub open spec fn line_count(payload: Seq<char>) -> nat {
    newlines_before(payload, payload.len() as int) + 1
}

/// The framed text of `payload`: its line count in decimal, a newline, the payload as it is,
/// and a closing newline.
pub open spec fn frame(payload: Seq<char>) -> Seq<char> {
    decimal_digits(line_count(payload)) + seq!['\n'] + payload + seq!['\n']
}

/// The bytes that carry `payload` over a connection.
pub open spec fn encoded(payload: Seq<char>) -> Seq<u8> {
    encode_utf8(frame(payload))
}

/// White space as `char::is_whitespace` has it (the Unicode property `White_Space`).
pub open spec fn is_whitespace(c: char) -> bool {
    let u = c as u32;
    ||| 0x09 <= u <= 0x0D
    ||| u == 0x20
    ||| u == 0x85
    ||| u == 0xA0
    ||| u == 0x1680
    ||| 0x2000 <= u <= 0x200A
    ||| u == 0x2028
    ||| u == 0x2029
    ||| u == 0x202F
    ||| u == 0x205F
    ||| u == 0x3000
}

/// An ASCII decimal digit.
pub open spec fn is_digit(c: char) -> bool {
    48 <= c as u32 <= 57
}

/// The first position at or after `from` that holds no white space.
pub open spec fn skip_space(s: Seq<char>, from: int) -> int
    decreases s.len() - from,
{
    if 0 <= from < s.len() && is_whitespace(s[from]) {
        skip_space(s, from + 1)
    } else {
        from
    }
}

/// The end of `s[from..to]` once trailing white space is dropped.
pub open spec fn trim_end(s: Seq<char>, from: int, to: int) -> int
    decreases to,
{
    if 0 <= from < to <= s.len() && is_whitespace(s[to - 1]) {
        trim_end(s, from, to - 1)
    } else {
        to
    }
}

/// `s` without leading and trailing white space.
pub open spec fn trimmed(s: Seq<char>) -> Seq<char> {
    let a = skip_space(s, 0);
    s.subrange(a, trim_end(s, a, s.len() as int))
}

/// The number that the decimal digits `d` write.
pub open spec fn digits_value(d: Seq<char>) -> nat
    decreases d.len(),
{
    if d.len() == 0 {
        0
    } else {
        digits_value(d.drop_last()) * 10 + (d.last() as u32 - 48) as nat
    }
}

/// Every character of `d` is a decimal digit.
pub open spec fn all_digits(d: Seq<char>) -> bool {
    forall|i: int| 0 <= i < d.len() ==> is_digit(#[trigger] d[i])
}

/// The line count that `line` announces: white space around it is ignored, one leading `+` is
/// allowed, and at least one decimal digit must follow. `None` for anything else.
pub open spec fn parse_count(line: Seq<char>) -> Option<nat> {
    let t = trimmed(line);
    let d = if t.len() > 0 && t[0] == '+' {
        t.drop_first()
    } else {
        t
    };
    if d.len() > 0 && all_digits(d) {
        Some(digits_value(d))
    } else {
        None
    }
}

/// The position of the first newline at or after `from`, or the length of `s` if there is none.
pub open spec fn line_end(s: Seq<char>, from: int) -> int
    decreases s.len() - from,
{
    if 0 <= from < s.len() && s[from] != '\n' {
        line_end(s, from + 1)
    } else {
        from
    }
}

/// The position just behind `n` newline-terminated lines that start at `from`; `None` if `s`
/// ends before that.
pub open spec fn skip_lines(s: Seq<char>, from: int, n: nat) -> Option<int>
    decreases n,
{
    if n == 0 {
        Some(from)
    } else {
        let e = line_end(s, from);
        if e < s.len() {
            skip_lines(s, e + 1, (n - 1) as nat)
        } else {
            None
        }
    }
}

/// What a framed text carries. The first line announces a count `n`; the `n` newline-terminated
/// lines behind it, without the last newline, are the payload. Whatever follows them is not
/// looked at.
pub open spec fn decode_text(s: Seq<char>) -> Result<Seq<char>, FramingError> {
    let e = line_end(s, 0);
    match parse_count(s.subrange(0, e)) {
        None => Err(FramingError::InvalidCount),
        Some(n) => {
            let start = if e < s.len() {
                e + 1
            } else {
                e
            };
            match skip_lines(s, start, n) {
                None => Err(FramingError::Truncated),
                Some(end) => Ok(
                    if n == 0 {
                        Seq::empty()
                    } else {
                        s.subrange(start, end - 1)
                    },
                ),
            }
        },
    }
}

/// What a byte stream carries: it must be UTF-8, and then framed text.
pub open spec fn decoded(stream: Seq<u8>) -> Result<Seq<char>, FramingError> {
    if valid_utf8(stream) {
        decode_text(decode_utf8(stream))
    } else {
        Err(FramingError::InvalidUtf8)
    }
}

proof fn lemma_line_end_bounds(s: Seq<char>, from: int)
    requires
        0 <= from <= s.len(),
    ensures
        from <= line_end(s, from) <= s.len(),
        line_end(s, from) < s.len() ==> s[line_end(s, from)] == '\n',
        forall|i: int| from <= i < line_end(s, from) ==> s[i] != '\n',
    decreases s.len() - from,
{
    if from < s.len() && s[from] != '\n' {
        lemma_line_end_bounds(s, from + 1);
    }
}

proof fn lemma_skip_lines_bounds(s: Seq<char>, from: int, n: nat)
    requires
        0 <= from <= s.len(),
    ensures
        skip_lines(s, from, n) matches Some(end) ==> from + n <= end <= s.len(),
    decreases n,
{
    if n > 0 {
        lemma_line_end_bounds(s, from);
        let e = line_end(s, from);
        if e < s.len() {
            lemma_skip_lines_bounds(s, e + 1, (n - 1) as nat);
        }
    }
}

proof fn lemma_decimal_digits(n: nat)
    ensures
        decimal_digits(n).len() > 0,
        all_digits(decimal_digits(n)),
        digits_value(decimal_digits(n)) == n,
    decreases n,
{
    if n < 10 {
        let d = decimal_digits(n);
        assert(d.drop_last() =~= Seq::<char>::empty());
        assert(digits_value(d.drop_last()) == 0);
    } else {
        lemma_decimal_digits(n / 10);
        let d = decimal_digits(n);
        assert(d.drop_last() =~= decimal_digits(n / 10));
        assert(d.last() == digit_char(n % 10));
    }
}

proof fn lemma_line_end_at(s: Seq<char>, from: int, at: int)
    requires
        0 <= from <= at <= s.len(),
        forall|i: int| from <= i < at ==> s[i] != '\n',
        at < s.len() ==> s[at] == '\n',
    ensures
        line_end(s, from) == at,
    decreases at - from,
{
    if from < at {
        lemma_line_end_at(s, from + 1, at);
    }
}

proof fn lemma_no_newlines(s: Seq<char>, from: int, to: int)
    requires
        0 <= from <= to <= s.len(),
        forall|i: int| from <= i < to ==> s[i] != '\n',
    ensures
        newlines_before(s, to) == newlines_before(s, from),
    decreases to - from,
{
    if from < to {
        lemma_no_newlines(s, from, to - 1);
    }
}

proof fn lemma_newlines_monotone(s: Seq<char>, from: int, to: int)
    requires
        0 <= from <= to,
    ensures
        newlines_before(s, from) <= newlines_before(s, to),
    decreases to - from,
{
    if from < to {
        lemma_newlines_monotone(s, from, to - 1);
    }
}

/// A stretch of `s` that is empty or ends in a newline, and holds `n` newlines, is `n` lines.
proof fn lemma_skip_whole_lines(s: Seq<char>, from: int, to: int, n: nat)
    requires
        0 <= from <= to <= s.len(),
        from < to ==> s[to - 1] == '\n',
        newlines_before(s, to) == newlines_before(s, from) + n,
    ensures
        skip_lines(s, from, n) == Some(to),
    decreases n,
{
    if from == to {
    } else if n == 0 {
        lemma_newlines_monotone(s, from, to - 1);
    } else {
        lemma_line_end_bounds(s, from);
        let e = line_end(s, from);
        if e >= to {
            assert(s[to - 1] != '\n');
        }
        lemma_no_newlines(s, from, e);
        assert(newlines_before(s, e + 1) == newlines_before(s, from) + 1);
        if e + 1 < to {
        } else {
            lemma_newlines_monotone(s, e + 1, to);
        }
        lemma_skip_whole_lines(s, e + 1, to, (n - 1) as nat);
    }
}

proof fn lemma_newlines_shift(s: Seq<char>, offset: int, part: Seq<char>, to: int)
    requires
        0 <= offset,
        0 <= to <= part.len(),
        offset + part.len() <= s.len(),
        forall|i: int| 0 <= i < part.len() ==> s[offset + i] == part[i],
    ensures
        newlines_before(s, offset + to) == newlines_before(s, offset) + newlines_before(part, to),
    decreases to,
{
    if to > 0 {
        lemma_newlines_shift(s, offset, part, to - 1);
    }
}

/// Framed text gives its payload back.
pub proof fn lemma_decode_frame(payload: Seq<char>)
    ensures
        decode_text(frame(payload)) == Ok::<Seq<char>, FramingError>(payload),
{
    let n = line_count(payload);
    let d = decimal_digits(n);
    let f = frame(payload);
    lemma_decimal_digits(n);
    let e = d.len() as int;
    assert(f.len() == e + payload.len() + 2);
    assert forall|i: int| 0 <= i < e implies f[i] != '\n' by {
        assert(f[i] == d[i]);
        assert(is_digit(d[i]));
    }
    assert(f[e] == '\n');
    lemma_line_end_at(f, 0, e);
    assert(f.subrange(0, e) =~= d);
    assert(is_digit(d[0]));
    assert(is_digit(d[e - 1]));
    assert(skip_space(d, 0) == 0);
    assert(trim_end(d, 0, e) == e);
    assert(trimmed(d) =~= d);
    assert(parse_count(d) == Some(n));
    let start = e + 1;
    assert forall|i: int| 0 <= i < payload.len() implies f[start + i] == payload[i] by {}
    lemma_newlines_shift(f, start, payload, payload.len() as int);
    assert(f[f.len() - 1] == '\n');
    assert(newlines_before(f, f.len() as int) == newlines_before(f, start) + n);
    lemma_skip_whole_lines(f, start, f.len() as int, n);
    assert(f.subrange(start, f.len() - 1) =~= payload);
}

/// Round trip: the bytes that `encode` writes for a payload decode to that payload, whatever
/// text the payload is.
pub proof fn lemma_round_trip(payload: Seq<char>)
    ensures
        decoded(encoded(payload)) == Ok::<Seq<char>, FramingError>(payload),
{
    vstd::utf8::encode_utf8_valid_utf8(frame(payload));
    vstd::utf8::encode_utf8_decode_utf8(frame(payload));
    lemma_decode_frame(payload);
}

/// Whether `c` is white space.
fn whitespace(c: char) -> (yes: bool)
    ensures
        yes == is_whitespace(c),
{
    let u: u32 = c as u32;
    (0x09 <= u && u <= 0x0D) || u == 0x20 || u == 0x85 || u == 0xA0 || u == 0x1680 || (0x2000 <= u
        && u <= 0x200A) || u == 0x2028 || u == 0x2029 || u == 0x202F || u == 0x205F || u == 0x3000
}

/// The smaller of a number and the largest `usize`.
pub open spec fn saturated(n: nat) -> usize {
    if n <= usize::MAX {
        n as usize
    } else {
        usize::MAX
    }
}

/// Reads the count that `s[from..to]` announces, saturated at the largest `usize`.
fn parse_range(s: &Vec<char>, from: usize, to: usize) -> (count: Option<usize>)
    requires
        from <= to <= s@.len(),
    ensures
        count == match parse_count(s@.subrange(from as int, to as int)) {
            Some(n) => Some(saturated(n)),
            None => None,
        },
{
    let ghost line = s@.subrange(from as int, to as int);
    let mut a: usize = from;
    while a < to && whitespace(s[a])
        invariant
            from <= a <= to <= s@.len(),
            line == s@.subrange(from as int, to as int),
            skip_space(line, 0) == skip_space(line, a - from),
        decreases to - a,
    {
        a += 1;
    }
    let mut b: usize = to;
    while a < b && whitespace(s[b - 1])
        invariant
            from <= a <= b <= to <= s@.len(),
            line == s@.subrange(from as int, to as int),
            trim_end(line, a - from, line.len() as int) == trim_end(line, a - from, b - from),
        decreases b,
    {
        b -= 1;
    }
    proof {
        assert(skip_space(line, 0) == a - from);
        assert(trim_end(line, a - from, line.len() as int) == b - from);
        assert(trimmed(line) =~= s@.subrange(a as int, b as int));
    }
    let ghost t = s@.subrange(a as int, b as int);
    if a < b && s[a] == '+' {
        a += 1;
    }
    let ghost d = s@.subrange(a as int, b as int);
    proof {
        assert(t.len() > 0 && t[0] == '+' ==> d =~= t.drop_first());
    }
    if a == b {
        return None;
    }
    let mut k: usize = a;
    let mut value: usize = 0;
    while k < b
        invariant
            a <= k <= b <= s@.len(),
            from <= to <= s@.len(),
            d == s@.subrange(a as int, b as int),
            parse_count(s@.subrange(from as int, to as int)) == if all_digits(d) {
                Some(digits_value(d))
            } else {
                None
            },
            forall|i: int| 0 <= i < k - a ==> is_digit(#[trigger] d[i]),
            value == saturated(digits_value(d.take(k - a))),
        decreases b - k,
    {
        let u: u32 = s[k] as u32;
        if u < 48 || u > 57 {
            assert(!is_digit(d[k - a]));
            return None;
        }
        let digit: usize = (u - 48) as usize;
        proof {
            let next = d.take(k - a + 1);
            assert(next.drop_last() =~= d.take(k - a));
            assert(next.last() == s@[k as int]);
            assert(digits_value(next) == digits_value(d.take(k - a)) * 10 + digit);
        }
        if value > (usize::MAX - digit) / 10 {
            value = usize::MAX;
        } else {
            value = value * 10 + digit;
        }
        k += 1;
    }
    proof {
        assert(d.take(k - a) =~= d);
    }
    Some(value)
}

/// Reads the line count that the first line of a message announces. Larger counts than a
/// `usize` holds are reported as the largest `usize`.
pub fn parse_line_count(line: &str) -> (count: Result<usize, FramingError>)
    ensures
        count == match parse_count(line@) {
            Some(n) => Ok::<usize, FramingError>(saturated(n)),
            None => Err(FramingError::InvalidCount),
        },
{
    let chars = chars_of(line);
    assert(chars@.subrange(0, chars@.len() as int) =~= line@);
    match parse_range(&chars, 0, chars.len()) {
        Some(n) => Ok(n),
        None => Err(FramingError::InvalidCount),
    }
}

/// Finds the end of the line that starts at `from`.
fn find_line_end(s: &Vec<char>, from: usize) -> (end: usize)
    requires
        from <= s@.len(),
    ensures
        end == line_end(s@, from as int),
        from <= end <= s@.len(),
{
    let mut i: usize = from;
    while i < s.len() && s[i] != '\n'
        invariant
            from <= i <= s@.len(),
            line_end(s@, from as int) == line_end(s@, i as int),
        decreases s@.len() - i,
    {
        i += 1;
    }
    i
}

/// Takes the payload out of framed text.
pub fn decode_str(text: &str) -> (payload: Result<String, FramingError>)
    ensures
        match payload {
            Ok(p) => decode_text(text@) == Ok::<Seq<char>, FramingError>(p@),
            Err(e) => decode_text(text@) == Err::<Seq<char>, FramingError>(e),
        },
{
    let s = chars_of(text);
    let e = find_line_end(&s, 0);
    let count = match parse_range(&s, 0, e) {
        Some(n) => n,
        None => {
            return Err(FramingError::InvalidCount);
        },
    };
    let ghost n = parse_count(s@.subrange(0, e as int)).unwrap();
    let start: usize = if e < s.len() {
        e + 1
    } else {
        e
    };
    proof {
        lemma_skip_lines_bounds(s@, start as int, n);
    }
    if count > s.len() - start {
        return Err(FramingError::Truncated);
    }
    assert(count == n);
    if count == 0 {
        return Ok(String::new());
    }
    let mut pos: usize = start;
    let mut left: usize = count;
    while left > 0
        invariant
            start <= pos <= s@.len(),
            left <= count,
            n > 0,
            decode_text(text@) == match skip_lines(s@, start as int, n) {
                None => Err::<Seq<char>, FramingError>(FramingError::Truncated),
                Some(end) => Ok(s@.subrange(start as int, end - 1)),
            },
            skip_lines(s@, start as int, n) == skip_lines(s@, pos as int, left as nat),
        decreases left,
    {
        let end = find_line_end(&s, pos);
        if end >= s.len() {
            return Err(FramingError::Truncated);
        }
        pos = end + 1;
        left -= 1;
    }
    proof {
        assert(skip_lines(s@, start as int, n) == Some(pos as int));
        assert(start + n <= pos);
    }
    Ok(text.substring_char(start, pos - 1).to_owned())
}

/// Takes the payload out of the bytes read from a connection.
pub fn decode(stream: &[u8]) -> (payload: Result<String, FramingError>)
    ensures
        match payload {
            Ok(p) => decoded(stream@) == Ok::<Seq<char>, FramingError>(p@),
            Err(e) => decoded(stream@) == Err::<Seq<char>, FramingError>(e),
        },
{
    match core::str::from_utf8(stream) {
        Ok(text) => {
            proof {
                vstd::utf8::encode_utf8_decode_utf8(text@);
            }
            decode_str(text)
        },
        Err(_) => Err(FramingError::InvalidUtf8),
    }
}

/// Counts the newline characters of `s`.
fn count_newlines(s: &Vec<char>) -> (count: usize)
    ensures
        count == newlines_before(s@, s@.len() as int),
{
    let mut count: usize = 0;
    let mut i: usize = 0;
    while i < s.len()
        invariant
            i <= s@.len(),
            count <= i,
            count == newlines_before(s@, i as int),
        decreases s@.len() - i,
    {
        if s[i] == '\n' {
            count += 1;
        }
        i += 1;
    }
    count
}

/// The framed text of `payload`.
pub fn encode_str(payload: &str) -> (text: String)
    ensures
        text@ == frame(payload@),
{
    let chars = chars_of(payload);
    let count = count_newlines(&chars);
    let mut text = decimal(count as u128 + 1);
    proof {
        reveal_strlit("\n");
        assert("\n"@ =~= seq!['\n']);
    }
    text.append("\n");
    text.append(payload);
    text.append("\n");
    text
}

/// The bytes that carry `payload` over a connection.
pub fn encode(payload: &str) -> (bytes: Vec<u8>)
    ensures
        bytes@ == encoded(payload@),
{
    let text = encode_str(payload);
    text.as_str().as_bytes_vec()
}

} // verus!
