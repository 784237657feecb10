//! Decoding of hex-encoded quantities.
//!
//! A node reports quantities as base-16 text, usually with a `0x` prefix. A
//! quantity that was printed as a JSON string also carries its quote
//! characters. The decoders accept all of these forms: they remove the
//! quotes, then the prefix, and read what is left as base-16 digits.
//! [`hex_to_decimal`] gives the value where it fits in 64 bits;
//! [`hex_to_bigint`] gives it whatever its size.

use vstd::prelude::*;
use vstd::string::*;
use vstd::utf8::is_ascii_chars;

verus! {

/// Why a text could not be decoded as a hex quantity.
#[derive(Clone, Copy, Debug, PartialEq, Eq, Structural)]
pub enum HexError {
    /// Nothing is left once quotes and prefix are removed.
    Empty,
    /// A character that is not a base-16 digit is left once quotes and prefix
    /// are removed.
    InvalidDigit,
    /// The digits are valid, but their value does not fit in 64 bits.
    Overflow,
}

/// The quote character that may surround a quantity.
pub open spec fn quote_mark() -> char {
    '"'
}

/// Whether `c` is one of `0-9`, `a-f`, `A-F`.
pub open spec fn is_hex_digit(c: char) -> bool {
    ('0' <= c && c <= '9') || ('a' <= c && c <= 'f') || ('A' <= c && c <= 'F')
}

/// The value of a base-16 digit; 0 for any other character.
pub open spec fn digit_value(c: char) -> nat {
    if '0' <= c && c <= '9' {
        (c as u32 - '0' as u32) as nat
    } else if 'a' <= c && c <= 'f' {
        (c as u32 - 'a' as u32 + 10) as nat
    } else if 'A' <= c && c <= 'F' {
        (c as u32 - 'A' as u32 + 10) as nat
    } else {
        0
    }
}

/// Whether every character of `d` is a base-16 digit.
pub open spec fn all_hex_digits(d: Seq<char>) -> bool {
    forall|i: int| 0 <= i < d.len() ==> is_hex_digit(#[trigger] d[i])
}

/// The number that the digits `d` denote in base 16, most significant digit
/// first.
pub open spec fn hex_value(d: Seq<char>) -> nat
    decreases d.len(),
{
    if d.len() == 0 {
        0
    } else {
        16 * hex_value(d.drop_last()) + digit_value(d.last())
    }
}

/// `s` without the quote characters at its start.
pub open spec fn trim_leading_quotes(s: Seq<char>) -> Seq<char>
    decreases s.len(),
{
    if s.len() > 0 && s[0] == quote_mark() {
        trim_leading_quotes(s.drop_first())
    } else {
        s
    }
}

/// `s` without the quote characters at its end.
pub open spec fn trim_trailing_quotes(s: Seq<char>) -> Seq<char>
    decreases s.len(),
{
    if s.len() > 0 && s.last() == quote_mark() {
        trim_trailing_quotes(s.drop_last())
    } else {
        s
    }
}

/// `s` without the quote characters at either end.
pub open spec fn strip_quotes(s: Seq<char>) -> Seq<char> {
    trim_trailing_quotes(trim_leading_quotes(s))
}

/// `s` without the `0x` prefixes at its start.
pub open spec fn strip_prefix(s: Seq<char>) -> Seq<char>
    decreases s.len(),
{
    if s.len() >= 2 && s[0] == '0' && s[1] == 'x' {
        strip_prefix(s.skip(2))
    } else {
        s
    }
}

/// The digits of `s`: what is left once the quotes and then the prefix are
/// removed.
pub open spec fn digits_of(s: Seq<char>) -> Seq<char> {
    strip_prefix(strip_quotes(s))
}

/// What decoding the text `s` gives where nothing limits the value's size.
pub open spec fn decode_unbounded(s: Seq<char>) -> Result<nat, HexError> {
    let d = digits_of(s);
    if !all_hex_digits(d) {
        Err(HexError::InvalidDigit)
    } else if d.len() == 0 {
        Err(HexError::Empty)
    } else {
        Ok(hex_value(d))
    }
}

/// What decoding the text `s` gives where the value is to fit in 64 bits.
pub open spec fn decode(s: Seq<char>) -> Result<u64, HexError> {
    match decode_unbounded(s) {
        Err(e) => Err(e),
        Ok(value) => if value > u64::MAX {
            Err(HexError::Overflow)
        } else {
            Ok(value as u64)
        },
    }
}

/// `s` with a `0x` prefix in front if `prefixed`, and then a quote character
/// on each side if `quoted`.
pub open spec fn decorate(s: Seq<char>, prefixed: bool, quoted: bool) -> Seq<char> {
    let inner = if prefixed {
        seq!['0', 'x'] + s
    } else {
        s
    };
    if quoted {
        seq![quote_mark()] + inner + seq![quote_mark()]
    } else {
        inner
    }
}

/// The number that `bytes` denote in base 256, most significant byte first.
pub open spec fn be_value(bytes: Seq<u8>) -> nat
    decreases bytes.len(),
{
    if bytes.len() == 0 {
        0
    } else {
        256 * be_value(bytes.drop_last()) + bytes.last() as nat
    }
}

/// A quantity of any size.
#[derive(Clone, Debug, PartialEq, Eq)]
pub struct BigQuantity {
    /// The bytes of the quantity, most significant first.
    bytes: Vec<u8>,
}

impl View for BigQuantity {
    type V = Seq<u8>;

    /// The bytes of the quantity, most significant first.
    closed spec fn view(&self) -> Seq<u8> {
        self.bytes@
    }
}

impl BigQuantity {
    /// The quantity as a number.
    pub open spec fn value(&self) -> nat {
        be_value(self@)
    }

    /// Whether the quantity is held in as few bytes as can be: the first
    /// byte is not zero, and zero has no bytes at all.
    pub open spec fn is_canonical(&self) -> bool {
        self@.len() > 0 ==> self@[0] != 0
    }

    /// The bytes of the quantity, most significant first.
    pub fn as_be_bytes(&self) -> (bytes: &[u8])
        ensures
            bytes@ == self@,
    {
        self.bytes.as_slice()
    }

    /// The quantity as a 64-bit number, if it fits.
    pub fn to_u64(&self) -> (small: Option<u64>)
        ensures
            match small {
                Some(value) => value == self.value(),
                None => self.value() > u64::MAX,
            },
    {
        let mut value: u64 = 0;
        let mut i: usize = 0;
        assert(self@.take(0) =~= Seq::<u8>::empty());
        while i < self.bytes.len()
            invariant
                i <= self@.len(),
                self@ == self.bytes@,
                value == be_value(self@.take(i as int)),
            decreases self@.len() - i,
        {
            assert(self@.take(i + 1).drop_last() =~= self@.take(i as int));
            assert(self@.take(i + 1).last() == self@[i as int]);
            let next = match value.checked_mul(256) {
                Some(shifted) => shifted.checked_add(self.bytes[i] as u64),
                None => None,
            };
            match next {
                Some(grown) => {
                    value = grown;
                },
                None => {
                    proof {
                        lemma_be_value_monotonic(self@, i + 1);
                    }
                    return None;
                },
            }
            i = i + 1;
        }
        assert(self@.take(i as int) =~= self@);
        Some(value)
    }
}

/// A result with the quantity in it taken as a number.
pub open spec fn big_outcome(r: Result<BigQuantity, HexError>) -> Result<nat, HexError> {
    match r {
        Ok(quantity) => Ok(quantity.value()),
        Err(e) => Err(e),
    }
}

/// A number is no smaller than the number that its leading bytes denote.
proof fn lemma_be_value_monotonic(bytes: Seq<u8>, k: int)
    requires
        0 <= k <= bytes.len(),
    ensures
        be_value(bytes.take(k)) <= be_value(bytes),
    decreases bytes.len(),
{
    if k == bytes.len() {
        assert(bytes.take(k) =~= bytes);
    } else {
        lemma_be_value_monotonic(bytes.drop_last(), k);
        assert(bytes.drop_last().take(k) =~= bytes.take(k));
    }
}

/// ASCII code of the quote character.
const QUOTE: u8 = 0x22;

/// ASCII code of `0`.
const DIGIT_0: u8 = 0x30;

/// ASCII code of `9`.
const DIGIT_9: u8 = 0x39;

/// ASCII code of `A`.
const UPPER_A: u8 = 0x41;

/// ASCII code of `F`.
const UPPER_F: u8 = 0x46;

/// ASCII code of `a`.
const LOWER_A: u8 = 0x61;

/// ASCII code of `f`.
const LOWER_F: u8 = 0x66;

/// ASCII code of `x`.
const LOWER_X: u8 = 0x78;

/// Whether `bytes` is the ASCII text `s`, byte for character.
spec fn ascii_image(bytes: Seq<u8>, s: Seq<char>) -> bool {
    &&& bytes.len() == s.len()
    &&& forall|i: int|
        0 <= i < s.len() ==> '\0' <= (#[trigger] s[i]) <= '\u{7f}' && bytes[i] == s[i] as u8
}

/// In an ASCII text, a byte is the code of `c` exactly where the character
/// is `c`.
proof fn lemma_byte_is_char(bytes: Seq<u8>, s: Seq<char>, i: int, c: char)
    requires
        ascii_image(bytes, s),
        0 <= i < s.len(),
        c <= '\u{7f}',
    ensures
        (bytes[i] == c as u8) <==> (s[i] == c),
{
    assert('\0' <= s[i] <= '\u{7f}' && bytes[i] == s[i] as u8);
}

/// Trimming quotes at the start removes nothing but quotes.
proof fn lemma_leading_keeps(s: Seq<char>, c: char)
    requires
        s.contains(c),
        c != quote_mark(),
    ensures
        trim_leading_quotes(s).contains(c),
    decreases s.len(),
{
    if s.len() > 0 && s[0] == quote_mark() {
        let i = choose|i: int| 0 <= i < s.len() && s[i] == c;
        assert(s.drop_first()[i - 1] == c);
        lemma_leading_keeps(s.drop_first(), c);
    }
}

/// Trimming quotes at the end removes nothing but quotes.
proof fn lemma_trailing_keeps(s: Seq<char>, c: char)
    requires
        s.contains(c),
        c != quote_mark(),
    ensures
        trim_trailing_quotes(s).contains(c),
    decreases s.len(),
{
    if s.len() > 0 && s.last() == quote_mark() {
        let i = choose|i: int| 0 <= i < s.len() && s[i] == c;
        assert(s.drop_last()[i] == c);
        lemma_trailing_keeps(s.drop_last(), c);
    }
}

/// Removing prefixes removes nothing but `0` and `x`.
proof fn lemma_prefix_keeps(s: Seq<char>, c: char)
    requires
        s.contains(c),
        c != '0',
        c != 'x',
    ensures
        strip_prefix(s).contains(c),
    decreases s.len(),
{
    if s.len() >= 2 && s[0] == '0' && s[1] == 'x' {
        let i = choose|i: int| 0 <= i < s.len() && s[i] == c;
        assert(s.skip(2)[i - 2] == c);
        lemma_prefix_keeps(s.skip(2), c);
    }
}

/// The index at which the quotes at the start of the text end.
fn skip_leading_quotes(bytes: &[u8], Ghost(s): Ghost<Seq<char>>) -> (start: usize)
    requires
        ascii_image(bytes@, s),
    ensures
        start <= s.len(),
        trim_leading_quotes(s) == s.skip(start as int),
{
    let mut start: usize = 0;
    assert(s.skip(0) =~= s);
    while start < bytes.len() && bytes[start] == QUOTE
        invariant
            ascii_image(bytes@, s),
            start <= s.len(),
            trim_leading_quotes(s) == trim_leading_quotes(s.skip(start as int)),
        decreases s.len() - start,
    {
        proof {
            lemma_byte_is_char(bytes@, s, start as int, quote_mark());
        }
        assert(s.skip(start as int)[0] == quote_mark());
        assert(s.skip(start as int).drop_first() =~= s.skip(start as int + 1));
        start = start + 1;
    }
    proof {
        if start < s.len() {
            lemma_byte_is_char(bytes@, s, start as int, quote_mark());
            assert(s.skip(start as int)[0] == s[start as int]);
        }
    }
    start
}

/// The index at which the quotes at the end of the text begin, looking no
/// further back than `start`.
fn skip_trailing_quotes(bytes: &[u8], start: usize, Ghost(s): Ghost<Seq<char>>) -> (end: usize)
    requires
        ascii_image(bytes@, s),
        start <= s.len(),
    ensures
        start <= end <= s.len(),
        trim_trailing_quotes(s.skip(start as int)) == s.subrange(start as int, end as int),
{
    let mut end: usize = bytes.len();
    assert(s.skip(start as int) =~= s.subrange(start as int, end as int));
    while start < end && bytes[end - 1] == QUOTE
        invariant
            ascii_image(bytes@, s),
            start <= end <= s.len(),
            trim_trailing_quotes(s.skip(start as int)) == trim_trailing_quotes(
                s.subrange(start as int, end as int),
            ),
        decreases end,
    {
        proof {
            lemma_byte_is_char(bytes@, s, end as int - 1, quote_mark());
        }
        assert(s.subrange(start as int, end as int).last() == quote_mark());
        assert(s.subrange(start as int, end as int).drop_last() =~= s.subrange(
            start as int,
            end as int - 1,
        ));
        end = end - 1;
    }
    proof {
        if start < end {
            lemma_byte_is_char(bytes@, s, end as int - 1, quote_mark());
            assert(s.subrange(start as int, end as int).last() == s[end as int - 1]);
        }
    }
    end
}

/// The index at which the `0x` prefixes of the text between `start` and
/// `end` end.
fn skip_prefixes(bytes: &[u8], start: usize, end: usize, Ghost(s): Ghost<Seq<char>>) -> (first: usize)
    requires
        ascii_image(bytes@, s),
        start <= end <= s.len(),
    ensures
        start <= first <= end,
        strip_prefix(s.subrange(start as int, end as int)) == s.subrange(first as int, end as int),
{
    let mut first: usize = start;
    while end - first >= 2 && bytes[first] == DIGIT_0 && bytes[first + 1] == LOWER_X
        invariant
            ascii_image(bytes@, s),
            start <= first <= end <= s.len(),
            strip_prefix(s.subrange(start as int, end as int)) == strip_prefix(
                s.subrange(first as int, end as int),
            ),
        decreases end - first,
    {
        proof {
            lemma_byte_is_char(bytes@, s, first as int, '0');
            lemma_byte_is_char(bytes@, s, first as int + 1, 'x');
        }
        assert(s.subrange(first as int, end as int)[0] == '0');
        assert(s.subrange(first as int, end as int)[1] == 'x');
        assert(s.subrange(first as int, end as int).skip(2) =~= s.subrange(
            first as int + 2,
            end as int,
        ));
        first = first + 2;
    }
    proof {
        if end - first >= 2 {
            lemma_byte_is_char(bytes@, s, first as int, '0');
            lemma_byte_is_char(bytes@, s, first as int + 1, 'x');
            assert(s.subrange(first as int, end as int)[0] == s[first as int]);
            assert(s.subrange(first as int, end as int)[1] == s[first as int + 1]);
        }
    }
    first
}

/// The value of the base-16 digit `b`, if it is one.
fn digit_of_byte(b: u8, Ghost(c): Ghost<char>) -> (value: Option<u8>)
    requires
        c <= '\u{7f}',
        b == c as u8,
    ensures
        value is Some <==> is_hex_digit(c),
        value matches Some(v) ==> v == digit_value(c) && v < 16,
{
    if DIGIT_0 <= b && b <= DIGIT_9 {
        Some(b - DIGIT_0)
    } else if LOWER_A <= b && b <= LOWER_F {
        Some(b - LOWER_A + 10)
    } else if UPPER_A <= b && b <= UPPER_F {
        Some(b - UPPER_A + 10)
    } else {
        None
    }
}

/// Where the digits of the text begin and end.
fn digit_range(bytes: &[u8], Ghost(s): Ghost<Seq<char>>) -> (range: (usize, usize))
    requires
        ascii_image(bytes@, s),
    ensures
        range.0 <= range.1 <= s.len(),
        digits_of(s) == s.subrange(range.0 as int, range.1 as int),
{
    let after_quotes = skip_leading_quotes(bytes, Ghost(s));
    let end = skip_trailing_quotes(bytes, after_quotes, Ghost(s));
    let first = skip_prefixes(bytes, after_quotes, end, Ghost(s));
    (first, end)
}

/// Decodes a hex quantity that fits in 64 bits.
///
/// The text may carry quote characters at either end and, inside them, a
/// `0x` prefix; both are removed before the digits are read. Upper-case and
/// lower-case digits are accepted, and so are leading zeros. No sign is
/// accepted, and no digit is ever dropped: a value that needs more than 64
/// bits is an error.
pub fn hex_to_decimal(hex: &str) -> (decoded: Result<u64, HexError>)
    ensures
        decoded == decode(hex@),
{
    let ghost s = hex@;
    if !hex.is_ascii() {
        proof {
            let i = choose|i: int| 0 <= i < s.len() && !('\0' <= #[trigger] s[i] <= '\u{7f}');
            lemma_foreign_character_is_rejected(s, s[i]);
        }
        return Err(HexError::InvalidDigit);
    }
    let bytes = hex.as_bytes();
    proof {
        is_ascii_spec_bytes(hex);
        assert(ascii_image(bytes@, s));
    }
    let (first, end) = digit_range(bytes, Ghost(s));
    let ghost d = digits_of(s);

    let mut value: u64 = 0;
    let mut overflowed = false;
    let mut i: usize = first;
    assert(d.take(0) =~= Seq::<char>::empty());
    while i < end
        invariant
            ascii_image(bytes@, s),
            first <= i <= end <= s.len(),
            s == hex@,
            d == s.subrange(first as int, end as int),
            d == digits_of(s),
            all_hex_digits(d.take(i - first)),
            !overflowed ==> value == hex_value(d.take(i - first)),
            overflowed ==> hex_value(d.take(i - first)) > u64::MAX,
        decreases end - i,
    {
        let ghost k = i - first;
        let ghost c = s[i as int];
        assert(d[k] == c);
        assert(d.take(k + 1).drop_last() =~= d.take(k));
        assert(d.take(k + 1).last() == c);
        match digit_of_byte(bytes[i], Ghost(c)) {
            None => {
                assert(!is_hex_digit(d[k]));
                return Err(HexError::InvalidDigit);
            },
            Some(digit) => {
                if !overflowed {
                    let next = match value.checked_mul(16) {
                        Some(shifted) => shifted.checked_add(digit as u64),
                        None => None,
                    };
                    match next {
                        Some(grown) => {
                            value = grown;
                        },
                        None => {
                            overflowed = true;
                        },
                    }
                }
                assert forall|j: int| 0 <= j < d.take(k + 1).len() implies is_hex_digit(
                    #[trigger] d.take(k + 1)[j],
                ) by {
                    if j < k {
                        assert(d.take(k)[j] == d.take(k + 1)[j]);
                    }
                }
            },
        }
        i = i + 1;
    }
    assert(d.take(end - first) =~= d);
    if first == end {
        Err(HexError::Empty)
    } else if overflowed {
        Err(HexError::Overflow)
    } else {
        Ok(value)
    }
}

/// The values of the digits of the text, in their order, or `None` where
/// one of them is no base-16 digit.
fn digit_values(bytes: &[u8], first: usize, end: usize, Ghost(s): Ghost<Seq<char>>) -> (values:
    Option<Vec<u8>>)
    requires
        ascii_image(bytes@, s),
        first <= end <= s.len(),
    ensures
        values is Some <==> all_hex_digits(s.subrange(first as int, end as int)),
        values matches Some(v) ==> v.len() == end - first && forall|j: int|
            0 <= j < v.len() ==> (#[trigger] v[j]) == digit_value(s[first + j]) && v[j] < 16,
{
    let ghost d = s.subrange(first as int, end as int);
    let mut values: Vec<u8> = Vec::new();
    let mut i: usize = first;
    while i < end
        invariant
            ascii_image(bytes@, s),
            first <= i <= end <= s.len(),
            d == s.subrange(first as int, end as int),
            values.len() == i - first,
            forall|j: int| 0 <= j < i - first ==> is_hex_digit(#[trigger] d[j]),
            forall|j: int|
                0 <= j < values.len() ==> (#[trigger] values[j]) == digit_value(s[first + j])
                    && values[j] < 16,
        decreases end - i,
    {
        let ghost c = s[i as int];
        assert(d[i - first] == c);
        match digit_of_byte(bytes[i], Ghost(c)) {
            None => {
                return None;
            },
            Some(digit) => {
                values.push(digit);
            },
        }
        i = i + 1;
    }
    Some(values)
}

/// Decodes a hex quantity of any size.
///
/// The text is read as [`hex_to_decimal`] reads it, but for the limit on
/// the value: any run of digits is decoded. The quantity comes out in as few
/// bytes as can be.
pub fn hex_to_bigint(hex: &str) -> (decoded: Result<BigQuantity, HexError>)
    ensures
        big_outcome(decoded) == decode_unbounded(hex@),
        decoded matches Ok(quantity) ==> quantity.is_canonical(),
{
    let ghost s = hex@;
    if !hex.is_ascii() {
        proof {
            let i = choose|i: int| 0 <= i < s.len() && !('\0' <= #[trigger] s[i] <= '\u{7f}');
            lemma_foreign_character_is_rejected(s, s[i]);
        }
        return Err(HexError::InvalidDigit);
    }
    let bytes = hex.as_bytes();
    proof {
        is_ascii_spec_bytes(hex);
        assert(ascii_image(bytes@, s));
    }
    let (first, end) = digit_range(bytes, Ghost(s));
    let ghost d = digits_of(s);
    let values = match digit_values(bytes, first, end, Ghost(s)) {
        None => {
            return Err(HexError::InvalidDigit);
        },
        Some(values) => values,
    };
    if values.len() == 0 {
        return Err(HexError::Empty);
    }
    assert forall|j: int| 0 <= j < d.len() implies values[j] == digit_value(#[trigger] d[j]) by {
        assert(d[j] == s[first + j]);
    }

    // Leading zeros add nothing to the value.
    let mut i: usize = 0;
    assert(d.take(0) =~= Seq::<char>::empty());
    while i < values.len() && values[i] == 0
        invariant
            i <= values.len() == d.len(),
            all_hex_digits(d),
            forall|j: int| 0 <= j < d.len() ==> values[j] == digit_value(#[trigger] d[j]),
            hex_value(d.take(i as int)) == 0,
        decreases values.len() - i,
    {
        assert(d.take(i + 1).drop_last() =~= d.take(i as int));
        assert(d.take(i + 1).last() == d[i as int]);
        i = i + 1;
    }
    // A digit without a partner makes a byte of its own.
    let mut packed: Vec<u8> = Vec::new();
    assert(packed@ =~= Seq::<u8>::empty());
    assert(be_value(packed@) == 0);
    if (values.len() - i) % 2 == 1 {
        assert(d.take(i + 1).drop_last() =~= d.take(i as int));
        assert(d.take(i + 1).last() == d[i as int]);
        assert(hex_value(d.take(i + 1)) == values[i as int]);
        packed.push(values[i]);
        assert(packed@.drop_last() =~= Seq::<u8>::empty());
        assert(be_value(packed@) == 256 * be_value(packed@.drop_last()) + values[i as int]);
        i = i + 1;
    }
    while i < values.len()
        invariant
            i <= values.len() == d.len(),
            (values.len() - i) % 2 == 0,
            forall|j: int|
                0 <= j < d.len() ==> (#[trigger] values[j]) == digit_value(d[j]) && values[j] < 16,
            be_value(packed@) == hex_value(d.take(i as int)),
            packed.len() > 0 ==> packed[0] != 0,
            packed.len() == 0 && i < values.len() ==> values[i as int] != 0,
        decreases values.len() - i,
    {
        let ghost before = packed@;
        assert(d.take(i + 1).drop_last() =~= d.take(i as int));
        assert(d.take(i + 1).last() == d[i as int]);
        assert(hex_value(d.take(i + 1)) == 16 * hex_value(d.take(i as int)) + values[i as int]);
        assert(d.take(i + 2).drop_last() =~= d.take(i + 1));
        assert(d.take(i + 2).last() == d[i + 1]);
        assert(hex_value(d.take(i + 2)) == 16 * hex_value(d.take(i + 1)) + values[i + 1]);
        assert(values[i as int] < 16 && values[i + 1] < 16);
        let byte: u8 = values[i] * 16 + values[i + 1];
        packed.push(byte);
        assert(packed@.drop_last() =~= before);
        assert(be_value(packed@) == 256 * be_value(before) + byte);
        assert(packed@[0] != 0);
        i = i + 2;
    }
    assert(d.take(i as int) =~= d);
    Ok(BigQuantity { bytes: packed })
}

/// A text of nothing but quote characters is trimmed to nothing.
proof fn lemma_only_quotes(s: Seq<char>)
    requires
        forall|i: int| 0 <= i < s.len() ==> s[i] == quote_mark(),
    ensures
        trim_leading_quotes(s) == Seq::<char>::empty(),
    decreases s.len(),
{
    if s.len() > 0 {
        lemma_only_quotes(s.drop_first());
    } else {
        assert(s =~= Seq::<char>::empty());
    }
}

/// Where a text holds a character that is no quote, trimming the quotes at
/// its start leaves what follows the text alone.
proof fn lemma_leading_of_concat(s: Seq<char>, t: Seq<char>, i: int)
    requires
        0 <= i < s.len(),
        s[i] != quote_mark(),
    ensures
        trim_leading_quotes(s + t) == trim_leading_quotes(s) + t,
        trim_leading_quotes(s).len() > 0,
    decreases s.len(),
{
    assert((s + t)[0] == s[0]);
    if s[0] == quote_mark() {
        assert((s + t).drop_first() =~= s.drop_first() + t);
        lemma_leading_of_concat(s.drop_first(), t, i - 1);
    }
}

/// Quote characters around a text are ignored, whatever the text: it
/// decodes as it does without them.
pub proof fn lemma_quotes_are_ignored(s: Seq<char>)
    ensures
        strip_quotes(decorate(s, false, true)) == strip_quotes(s),
        decode(decorate(s, false, true)) == decode(s),
{
    let mark = seq![quote_mark()];
    let outer = mark + s + mark;
    let tail = s + mark;
    assert(outer[0] == quote_mark());
    assert(outer.drop_first() =~= tail);
    assert(trim_leading_quotes(outer) == trim_leading_quotes(tail));
    if exists|i: int| 0 <= i < s.len() && s[i] != quote_mark() {
        let i = choose|i: int| 0 <= i < s.len() && s[i] != quote_mark();
        lemma_leading_of_concat(s, mark, i);
        let kept = trim_leading_quotes(s);
        assert((kept + mark).last() == quote_mark());
        assert((kept + mark).drop_last() =~= kept);
        assert(trim_trailing_quotes(kept + mark) == trim_trailing_quotes(kept));
    } else {
        lemma_only_quotes(s);
        assert forall|i: int| 0 <= i < tail.len() implies tail[i] == quote_mark() by {
            if i < s.len() {
                assert(tail[i] == s[i]);
            }
        }
        lemma_only_quotes(tail);
    }
}

/// What surrounds the digits does not matter: a text of base-16 digits
/// decodes to the same result with or without a `0x` prefix, and with or
/// without quote characters around it. Where the digits are not empty and
/// their value fits in 64 bits, that result is their value in base 16.
pub proof fn lemma_decoration_is_ignored(d: Seq<char>, prefixed: bool, quoted: bool)
    requires
        all_hex_digits(d),
    ensures
        digits_of(decorate(d, prefixed, quoted)) == d,
        decode(decorate(d, prefixed, quoted)) == decode(d),
        d.len() > 0 && hex_value(d) <= u64::MAX ==> decode(decorate(d, prefixed, quoted)) == Ok::<
            u64,
            HexError,
        >(hex_value(d) as u64),
{
    let inner = if prefixed {
        seq!['0', 'x'] + d
    } else {
        d
    };
    if d.len() > 0 {
        assert(is_hex_digit(d[0]));
        assert(is_hex_digit(d.last()));
    }
    if d.len() > 1 {
        assert(is_hex_digit(d[1]));
    }
    // The digits alone are left untouched.
    assert(trim_leading_quotes(d) == d);
    assert(trim_trailing_quotes(d) == d);
    assert(strip_prefix(d) == d);
    // One prefix is removed, and what follows it is kept.
    assert(inner.len() > 0 ==> inner[0] != quote_mark() && inner.last() != quote_mark());
    assert(trim_leading_quotes(inner) == inner);
    assert(trim_trailing_quotes(inner) == inner);
    if prefixed {
        assert(inner.skip(2) =~= d);
    }
    assert(strip_prefix(inner) == d);
    if quoted {
        let tail = inner + seq![quote_mark()];
        let outer = seq![quote_mark()] + inner + seq![quote_mark()];
        assert(outer[0] == quote_mark());
        assert(outer.drop_first() =~= tail);
        assert(tail.last() == quote_mark());
        assert(tail.drop_last() =~= inner);
        if inner.len() > 0 {
            assert(tail[0] == inner[0]);
            assert(trim_leading_quotes(tail) == tail);
            assert(trim_trailing_quotes(tail) == inner);
        } else {
            assert(tail.drop_first() =~= inner);
            assert(trim_leading_quotes(tail) == inner);
        }
        assert(strip_quotes(outer) == inner);
    }
}

/// A malformed text is never decoded: where a character that is no base-16
/// digit is left among the digits, the result is an error, not a value.
pub proof fn lemma_malformed_is_rejected(s: Seq<char>, i: int)
    requires
        0 <= i < digits_of(s).len(),
        !is_hex_digit(digits_of(s)[i]),
    ensures
        decode(s) == Err::<u64, HexError>(HexError::InvalidDigit),
{
}

/// A character that is neither a base-16 digit, nor a quote, nor `x` is
/// never removed: a text that holds one, wherever it stands, is not decoded.
pub proof fn lemma_foreign_character_is_rejected(s: Seq<char>, c: char)
    requires
        s.contains(c),
        !is_hex_digit(c),
        c != quote_mark(),
        c != 'x',
    ensures
        decode(s) == Err::<u64, HexError>(HexError::InvalidDigit),
{
    lemma_leading_keeps(s, c);
    lemma_trailing_keeps(trim_leading_quotes(s), c);
    lemma_prefix_keeps(strip_quotes(s), c);
    let d = digits_of(s);
    let j = choose|j: int| 0 <= j < d.len() && d[j] == c;
    assert(!is_hex_digit(d[j]));
}

/// A decoded value is exact: decoding succeeds only on a non-empty run of
/// base-16 digits whose value fits in 64 bits, and then gives that value.
pub proof fn lemma_decoded_value_is_exact(s: Seq<char>)
    ensures
        decode(s) is Ok <==> (digits_of(s).len() > 0 && all_hex_digits(digits_of(s)) && hex_value(
            digits_of(s),
        ) <= u64::MAX),
        decode(s) matches Ok(v) ==> v == hex_value(digits_of(s)),
{
}

/// The two decoders agree: a text is decoded to 64 bits exactly where it is
/// decoded without limit to a value that fits, and then to that value; and
/// where it is not decoded without limit, the error is the same.
pub proof fn lemma_decoders_agree(s: Seq<char>)
    ensures
        decode(s) matches Ok(v) ==> decode_unbounded(s) == Ok::<nat, HexError>(v as nat),
        decode_unbounded(s) matches Ok(v) ==> (v <= u64::MAX ==> decode(s) == Ok::<u64, HexError>(
            v as u64,
        )),
        decode_unbounded(s) matches Ok(v) ==> (v > u64::MAX ==> decode(s) == Err::<u64, HexError>(
            HexError::Overflow,
        )),
        decode_unbounded(s) matches Err(e) ==> decode(s) == Err::<u64, HexError>(e),
        !(decode_unbounded(s) matches Err(HexError::Overflow)),
{
}

} // verus!
