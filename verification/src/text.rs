//! Character-level helpers shared by the codec, the extractor and the
//! dispatcher. Every text in a contract is a `Seq<char>`.

use vstd::prelude::*;
use vstd::string::*;
use vstd::utf8::*;

verus! {

/// Whether two string slices hold the same characters.
pub fn str_eq(a: &str, b: &str) -> (same: bool)
    ensures
        same == (a@ == b@),
{
    let x = a.as_bytes();
    let y = b.as_bytes();
    if x.len() != y.len() {
        return false;
    }
    let mut i: usize = 0;
    while i < x.len()
        invariant
            x@ == a.spec_bytes(),
            y@ == b.spec_bytes(),
            x@.len() == y@.len(),
            i <= x@.len(),
            forall|j: int| 0 <= j < i ==> x@[j] == y@[j],
        decreases x@.len() - i,
    {
        if x[i] != y[i] {
            return false;
        }
        i += 1;
    }
    proof {
        assert(x@ =~= y@);
        encode_utf8_decode_utf8(a@);
        encode_utf8_decode_utf8(b@);
    }
    true
}

/// The characters of a string slice, in order.
pub fn chars_of(text: &str) -> (chars: Vec<char>)
    ensures
        chars@ == text@,
{
    let mut chars: Vec<char> = Vec::new();
    for c in it: text.chars()
        invariant
            it.seq() == text@,
            chars@ == it.seq().take(it.index() as int),
    {
        chars.push(c);
    }
    chars
}

/// `String::push`: appends one character to the end of the string.
#[verifier::external_body]
pub(crate) fn push_char(text: &mut String, c: char)
    ensures
        final(text)@ == old(text)@.push(c),
{
    text.push(c);
}

/// The string made of the given characters, in order.
pub fn string_of(chars: &Vec<char>) -> (text: String)
    ensures
        text@ == chars@,
{
    let mut text = String::new();
    let mut i: usize = 0;
    while i < chars.len()
        invariant
            i <= chars@.len(),
            text@ == chars@.take(i as int),
        decreases chars@.len() - i,
    {
        push_char(&mut text, chars[i]);
        i += 1;
        assert(chars@.take(i as int) =~= chars@.take(i - 1).push(chars@[i - 1]));
    }
    assert(chars@.take(i as int) =~= chars@);
    text
}

/// What `str::to_lowercase` returns for a text: its Unicode lower-case form,
/// which may differ in length from the text.
pub uninterp spec fn lowercased(text: Seq<char>) -> Seq<char>;

/// `str::to_lowercase`: the lower-case form of the text as a new string.
#[verifier::external_body]
pub(crate) fn lowercase(text: &str) -> (lower: String)
    ensures
        lower@ == lowercased(text@),
{
    text.to_lowercase()
}

/// The text of an optional string.
pub open spec fn option_text(text: Option<String>) -> Option<Seq<char>> {
    match text {
        Some(t) => Some(t@),
        None => None,
    }
}

/// Whether a character is white space: one of the characters that have
/// the Unicode property White_Space.
pub open spec fn is_white_space(c: char) -> bool {
    let u = c as u32;
    ||| 0x09 <= u <= 0x0D
    ||| u == 0x20
    ||| u == 0x85
    ||| u == 0xA0
    ||| u == 0x1680
    ||| 0x2000 <= u <= 0x200A
    ||| u == 0x2028
    ||| u == 0x2029
    ||| u == 0x202F
    ||| u == 0x205F
    ||| u == 0x3000
}

/// Whether a character is white space.
pub fn white_space(c: char) -> (white: bool)
    ensures
        white == is_white_space(c),
{
    let u = c as u32;
    (0x09 <= u && u <= 0x0D) || u == 0x20 || u == 0x85 || u == 0xA0 || u == 0x1680 || (0x2000
        <= u && u <= 0x200A) || u == 0x2028 || u == 0x2029 || u == 0x202F || u == 0x205F || u
        == 0x3000
}

/// The number of characters that stand in a row from `from` on and are
/// all white space, or all none.
pub open spec fn run_from(text: Seq<char>, from: int, white: bool) -> nat
    decreases text.len() - from,
{
    if 0 <= from < text.len() && is_white_space(text[from]) == white {
        1 + run_from(text, from + 1, white)
    } else {
        0
    }
}

/// The number of white-space characters at the end of a text.
pub open spec fn trailing_white(text: Seq<char>) -> nat
    decreases text.len(),
{
    if text.len() > 0 && is_white_space(text.last()) {
        1 + trailing_white(text.drop_last())
    } else {
        0
    }
}

/// The first word of a text: its first run of characters that are no
/// white space; nothing where the text holds white space only.
pub open spec fn leading_word(text: Seq<char>) -> Option<Seq<char>> {
    let start = run_from(text, 0, true);
    if start >= text.len() {
        None
    } else {
        Some(text.subrange(start as int, (start + run_from(text, start as int, false)) as int))
    }
}

/// A text without the white space at its start and at its end.
pub open spec fn trimmed(text: Seq<char>) -> Seq<char> {
    let start = run_from(text, 0, true);
    if start >= text.len() {
        Seq::empty()
    } else {
        text.subrange(start as int, (text.len() - trailing_white(text)) as int)
    }
}

/// The number of characters that stand in a row from `from` on and are all
/// white space, or all none.
fn count_run(text: &Vec<char>, from: usize, white: bool) -> (count: usize)
    requires
        from <= text@.len(),
    ensures
        count == run_from(text@, from as int, white),
        from + count <= text@.len(),
        from + count < text@.len() ==> is_white_space(text@[from + count]) != white,
{
    let mut at: usize = from;
    while at < text.len() && white_space(text[at]) == white
        invariant
            from <= at <= text@.len(),
            run_from(text@, from as int, white) == (at - from) + run_from(
                text@,
                at as int,
                white,
            ),
        decreases text@.len() - at,
    {
        at += 1;
    }
    at - from
}

/// The first word of a text, copied into a new string.
pub fn first_word(text: &str) -> (word: Option<String>)
    ensures
        option_text(word) == leading_word(text@),
{
    let chars = chars_of(text);
    let start = count_run(&chars, 0, true);
    if start >= chars.len() {
        return None;
    }
    let length = count_run(&chars, start, false);
    let word = slice_chars(&chars, start, start + length);
    Some(string_of(&word))
}

/// A text without the white space at its start and at its end, copied
/// into a new string.
pub fn trim(text: &str) -> (inner: String)
    ensures
        inner@ == trimmed(text@),
{
    let chars = chars_of(text);
    let start = count_run(&chars, 0, true);
    if start >= chars.len() {
        return String::new();
    }
    let mut end: usize = chars.len();
    assert(chars@.take(end as int) =~= chars@);
    while end > 0 && white_space(chars[end - 1])
        invariant
            end <= chars@.len(),
            trailing_white(chars@) == (chars@.len() - end) + trailing_white(
                chars@.take(end as int),
            ),
        decreases end,
    {
        assert(chars@.take(end as int).drop_last() =~= chars@.take(end - 1));
        end -= 1;
    }
    proof {
        // A character that is no white space stands at `start`, so the
        // white space at the end begins behind it.
        lemma_trailing_white_stops(chars@, start as int);
        if end > 0 {
            assert(chars@.take(end as int).last() == chars@[end - 1]);
        }
    }
    let inner = slice_chars(&chars, start, end);
    string_of(&inner)
}

/// A text that neither begins nor ends with white space is kept as it is.
pub proof fn lemma_trimmed_keeps(text: Seq<char>)
    requires
        text.len() > 0,
        !is_white_space(text[0]),
        !is_white_space(text.last()),
    ensures
        trimmed(text) == text,
{
    assert(run_from(text, 0, true) == 0);
    assert(trailing_white(text) == 0);
    assert(text.subrange(0, text.len() as int) =~= text);
}

/// The white space at the end of a text begins behind every character
/// that is no white space.
pub proof fn lemma_trailing_white_stops(text: Seq<char>, at: int)
    requires
        0 <= at < text.len(),
        !is_white_space(text[at]),
    ensures
        at + trailing_white(text) < text.len(),
    decreases text.len(),
{
    if at < text.len() - 1 && is_white_space(text.last()) {
        lemma_trailing_white_stops(text.drop_last(), at);
    }
}

/// The decimal digit for a value below ten.
pub open spec fn digit(d: nat) -> char {
    if d == 0 {
        '0'
    } else if d == 1 {
        '1'
    } else if d == 2 {
        '2'
    } else if d == 3 {
        '3'
    } else if d == 4 {
        '4'
    } else if d == 5 {
        '5'
    } else if d == 6 {
        '6'
    } else if d == 7 {
        '7'
    } else if d == 8 {
        '8'
    } else {
        '9'
    }
}

/// The decimal digits of a natural number, most significant first, without
/// leading zeros.
pub open spec fn decimal_digits(n: nat) -> Seq<char>
    decreases n,
{
    if n < 10 {
        seq![digit(n)]
    } else {
        decimal_digits(n / 10).push(digit(n % 10))
    }
}

/// The decimal text of an integer: a minus sign for a negative one, then the
/// digits of its magnitude.
pub open spec fn decimal_text(i: int) -> Seq<char> {
    if i < 0 {
        seq!['-'] + decimal_digits((-i) as nat)
    } else {
        decimal_digits(i as nat)
    }
}

fn digit_of(d: u64) -> (c: char)
    requires
        d < 10,
    ensures
        c == digit(d as nat),
{
    if d == 0 {
        '0'
    } else if d == 1 {
        '1'
    } else if d == 2 {
        '2'
    } else if d == 3 {
        '3'
    } else if d == 4 {
        '4'
    } else if d == 5 {
        '5'
    } else if d == 6 {
        '6'
    } else if d == 7 {
        '7'
    } else if d == 8 {
        '8'
    } else {
        '9'
    }
}

/// Appends the decimal digits of `n` to `out`.
pub fn push_decimal(n: u64, out: &mut Vec<char>)
    ensures
        final(out)@ == old(out)@ + decimal_digits(n as nat),
    decreases n,
{
    if n >= 10 {
        push_decimal(n / 10, out);
    }
    out.push(digit_of(n % 10));
    assert(out@ =~= old(out)@ + decimal_digits(n as nat));
}

/// The decimal text of a signed integer.
pub fn format_i64(value: i64) -> (text: String)
    ensures
        text@ == decimal_text(value as int),
{
    let mut out: Vec<char> = Vec::new();
    if value < 0 {
        out.push('-');
        let magnitude: u64 = ((-(value + 1)) as u64) + 1;
        push_decimal(magnitude, &mut out);
    } else {
        push_decimal(value as u64, &mut out);
    }
    assert(out@ =~= decimal_text(value as int));
    string_of(&out)
}

/// The decimal text of an unsigned integer.
pub fn format_u64(value: u64) -> (text: String)
    ensures
        text@ == decimal_digits(value as nat),
{
    let mut out: Vec<char> = Vec::new();
    push_decimal(value, &mut out);
    assert(out@ =~= decimal_digits(value as nat));
    string_of(&out)
}

/// Whether a character is one of the ten decimal digits.
pub open spec fn is_digit(c: char) -> bool {
    '0' <= c && c <= '9'
}

/// The value of a decimal digit.
pub open spec fn digit_value(c: char) -> nat {
    (c as nat - '0' as nat) as nat
}

/// Whether a text is made of decimal digits only.
pub open spec fn all_digits(text: Seq<char>) -> bool {
    forall|i: int| 0 <= i < text.len() ==> is_digit(#[trigger] text[i])
}

/// The number that a sequence of decimal digits denotes.
pub open spec fn digits_value(text: Seq<char>) -> nat
    decreases text.len(),
{
    if text.len() == 0 {
        0
    } else {
        digits_value(text.drop_last()) * 10 + digit_value(text.last())
    }
}

/// The number that an unsigned decimal text denotes, if it is one and the
/// number is at most `limit`: a non-empty run of digits.
pub open spec fn magnitude_of(text: Seq<char>, limit: nat) -> Option<nat> {
    if text.len() > 0 && all_digits(text) && digits_value(text) <= limit {
        Some(digits_value(text))
    } else {
        None
    }
}

/// A longer run of digits denotes no smaller a number than any of its prefixes.
pub proof fn lemma_digits_value_grows(text: Seq<char>, k: int)
    requires
        0 <= k <= text.len(),
    ensures
        digits_value(text.take(k)) <= digits_value(text),
    decreases text.len(),
{
    if k < text.len() {
        lemma_digits_value_grows(text.drop_last(), k);
        assert(text.drop_last().take(k) =~= text.take(k));
    } else {
        assert(text.take(k) =~= text);
    }
}

/// Reads `text[from..]` as an unsigned decimal number no greater than `limit`.
pub fn parse_magnitude(text: &Vec<char>, from: usize, limit: u64) -> (value: Option<u64>)
    requires
        from <= text@.len(),
    ensures
        value matches Some(v) ==> magnitude_of(text@.skip(from as int), limit as nat) == Some(
            v as nat,
        ),
        value is None ==> magnitude_of(text@.skip(from as int), limit as nat) is None,
{
    let ghost body = text@.skip(from as int);
    if from == text.len() {
        return None;
    }
    let mut value: u64 = 0;
    let mut i: usize = from;
    while i < text.len()
        invariant
            from <= i <= text@.len(),
            body == text@.skip(from as int),
            all_digits(body.take(i - from)),
            value == digits_value(body.take(i - from)),
            value <= limit,
        decreases text@.len() - i,
    {
        let c = text[i];
        let ghost prefix = body.take(i - from);
        let ghost longer = body.take(i - from + 1);
        assert(longer.drop_last() =~= prefix);
        assert(longer.last() == c);
        if c < '0' || c > '9' {
            assert(!is_digit(body[i - from]));
            return None;
        }
        let d: u64 = (c as u64) - ('0' as u64);
        assert(d == digit_value(c));
        if d > limit || value > (limit - d) / 10 {
            proof {
                assert(digits_value(longer) > limit);
                if all_digits(body) {
                    lemma_digits_value_grows(body, i - from + 1);
                }
            }
            return None;
        }
        value = value * 10 + d;
        i += 1;
        assert forall|j: int| 0 <= j < longer.len() implies is_digit(#[trigger] longer[j]) by {
            if j < prefix.len() {
                assert(longer[j] == prefix[j]);
            }
        }
    }
    assert(body.take(i - from) =~= body);
    Some(value)
}

/// The digits of a number are digits, and they denote the number.
pub proof fn lemma_decimal_digits(n: nat)
    ensures
        decimal_digits(n).len() > 0,
        all_digits(decimal_digits(n)),
        digits_value(decimal_digits(n)) == n,
    decreases n,
{
    if n < 10 {
        let one = decimal_digits(n);
        assert(one.drop_last() =~= Seq::<char>::empty());
        assert(digits_value(one.drop_last()) == 0);
        assert(digit_value(digit(n)) == n);
    } else {
        lemma_decimal_digits(n / 10);
        let shorter = decimal_digits(n / 10);
        let all = decimal_digits(n);
        assert(all.drop_last() =~= shorter);
        assert(all.last() == digit(n % 10));
        assert(digit_value(digit(n % 10)) == n % 10);
        assert forall|i: int| 0 <= i < all.len() implies is_digit(#[trigger] all[i]) by {
            if i < shorter.len() {
                assert(all[i] == shorter[i]);
            }
        }
    }
}

/// Decimal law: the decimal text of a 32-bit integer reads back as that
/// integer.
pub proof fn lemma_decimal_text_reads_back(i: i32)
    ensures
        parsed_i32(decimal_text(i as int)) == Some(i),
{
    let text = decimal_text(i as int);
    if i < 0 {
        let digits = decimal_digits((-i) as nat);
        lemma_decimal_digits((-i) as nat);
        assert(text[0] == '-');
        assert(text.skip(1) =~= digits);
    } else {
        lemma_decimal_digits(i as nat);
        assert(is_digit(text[0]));
    }
}

/// What parsing a text as a 32-bit signed decimal integer gives: an optional
/// `+` or `-`, then a non-empty run of digits whose value fits.
pub open spec fn parsed_i32(text: Seq<char>) -> Option<i32> {
    if text.len() > 0 && text[0] == '-' {
        match magnitude_of(text.skip(1), 0x8000_0000) {
            Some(m) => Some((-m) as i32),
            None => None,
        }
    } else if text.len() > 0 && text[0] == '+' {
        match magnitude_of(text.skip(1), 0x7fff_ffff) {
            Some(m) => Some(m as i32),
            None => None,
        }
    } else {
        match magnitude_of(text, 0x7fff_ffff) {
            Some(m) => Some(m as i32),
            None => None,
        }
    }
}

/// Reads a text as a 32-bit signed decimal integer.
pub fn parse_i32(text: &Vec<char>) -> (value: Option<i32>)
    ensures
        value == parsed_i32(text@),
{
    assert(text@.skip(0) =~= text@);
    if text.len() > 0 && text[0] == '-' {
        match parse_magnitude(text, 1, 0x8000_0000) {
            Some(m) => {
                let v: i64 = -(m as i64);
                Some(v as i32)
            },
            None => None,
        }
    } else if text.len() > 0 && text[0] == '+' {
        match parse_magnitude(text, 1, 0x7fff_ffff) {
            Some(m) => Some(m as i32),
            None => None,
        }
    } else {
        match parse_magnitude(text, 0, 0x7fff_ffff) {
            Some(m) => Some(m as i32),
            None => None,
        }
    }
}

/// What parsing a text as an index gives: an optional `+`, then a non-empty
/// run of digits whose value fits a `usize`.
pub open spec fn parsed_index(text: Seq<char>) -> Option<usize> {
    let body = if text.len() > 0 && text[0] == '+' {
        text.skip(1)
    } else {
        text
    };
    match magnitude_of(body, usize::MAX as nat) {
        Some(m) => Some(m as usize),
        None => None,
    }
}

/// Reads a text as an index.
pub fn parse_index(text: &Vec<char>) -> (value: Option<usize>)
    ensures
        value == parsed_index(text@),
{
    assert(text@.skip(0) =~= text@);
    let from: usize = if text.len() > 0 && text[0] == '+' {
        1
    } else {
        0
    };
    match parse_magnitude(text, from, usize::MAX as u64) {
        Some(m) => Some(m as usize),
        None => None,
    }
}

/// Whether `needle` stands in `hay` at position `at`.
pub open spec fn occurs_at(hay: Seq<char>, needle: Seq<char>, at: int) -> bool {
    0 <= at && at + needle.len() <= hay.len() && hay.subrange(at, at + needle.len()) == needle
}

/// Whether `needle` is a contiguous part of `hay`. The empty text is part of
/// every text.
pub open spec fn has_substring(hay: Seq<char>, needle: Seq<char>) -> bool {
    exists|at: int| occurs_at(hay, needle, at)
}

fn matches_at(hay: &Vec<char>, needle: &Vec<char>, at: usize) -> (found: bool)
    requires
        at + needle@.len() <= hay@.len(),
    ensures
        found == occurs_at(hay@, needle@, at as int),
{
    let total: usize = hay.len();
    let mut j: usize = 0;
    while j < needle.len()
        invariant
            at + needle@.len() <= hay@.len(),
            hay@.len() == total,
            j <= needle@.len(),
            forall|k: int| 0 <= k < j ==> hay@[at + k] == needle@[k],
        decreases needle@.len() - j,
    {
        if hay[at + j] != needle[j] {
            assert(hay@.subrange(at as int, at + needle@.len())[j as int] != needle@[j as int]);
            return false;
        }
        j += 1;
    }
    assert(hay@.subrange(at as int, at + needle@.len()) =~= needle@);
    true
}

/// Whether `needle` is a contiguous part of `hay`.
pub fn contains(hay: &Vec<char>, needle: &Vec<char>) -> (found: bool)
    ensures
        found == has_substring(hay@, needle@),
{
    if needle.len() > hay.len() {
        return false;
    }
    let last: usize = hay.len() - needle.len();
    let mut at: usize = 0;
    loop
        invariant
            last + needle@.len() == hay@.len(),
            at <= last,
            forall|k: int| 0 <= k < at ==> !occurs_at(hay@, needle@, k),
        decreases last - at,
    {
        if matches_at(hay, needle, at) {
            return true;
        }
        if at == last {
            return false;
        }
        at += 1;
    }
}

/// Whether `text` begins with `prefix`.
pub fn starts_with(text: &Vec<char>, prefix: &Vec<char>) -> (found: bool)
    ensures
        found == occurs_at(text@, prefix@, 0),
{
    if prefix.len() > text.len() {
        return false;
    }
    matches_at(text, prefix, 0)
}

/// The position of the first occurrence of a character in a text, or the
/// length of the text where it does not occur.
pub open spec fn index_of(text: Seq<char>, c: char) -> int
    decreases text.len(),
{
    if text.len() == 0 {
        0
    } else if text[0] == c {
        0
    } else {
        1 + index_of(text.skip(1), c)
    }
}

/// Where the character stands at a position and nowhere before it, that
/// position is its first occurrence.
pub proof fn lemma_index_of_is(text: Seq<char>, c: char, at: int)
    requires
        0 <= at <= text.len(),
        forall|i: int| 0 <= i < at ==> text[i] != c,
        at < text.len() ==> text[at] == c,
    ensures
        index_of(text, c) == at,
    decreases text.len(),
{
    if text.len() > 0 && at > 0 {
        assert(text[0] != c);
        assert forall|i: int| 0 <= i < at - 1 implies text.skip(1)[i] != c by {
            assert(text.skip(1)[i] == text[i + 1]);
        }
        lemma_index_of_is(text.skip(1), c, at - 1);
    }
}

/// The first occurrence is within the text, and the character does not
/// occur before it.
pub proof fn lemma_index_of(text: Seq<char>, c: char)
    ensures
        0 <= index_of(text, c) <= text.len(),
        forall|i: int| 0 <= i < index_of(text, c) ==> text[i] != c,
        index_of(text, c) < text.len() ==> text[index_of(text, c)] == c,
    decreases text.len(),
{
    if text.len() > 0 && text[0] != c {
        lemma_index_of(text.skip(1), c);
        assert forall|i: int| 0 <= i < index_of(text, c) implies text[i] != c by {
            if i > 0 {
                assert(text[i] == text.skip(1)[i - 1]);
            }
        }
    }
}

/// The first occurrence in a text with something behind it: that in the
/// text where the character occurs in it, else that in what is behind.
pub proof fn lemma_index_of_joined(text: Seq<char>, behind: Seq<char>, c: char)
    ensures
        index_of(text + behind, c) == if index_of(text, c) < text.len() {
            index_of(text, c)
        } else {
            text.len() + index_of(behind, c)
        },
{
    lemma_index_of(text, c);
    lemma_index_of(behind, c);
    let whole = text + behind;
    let at = if index_of(text, c) < text.len() {
        index_of(text, c)
    } else {
        text.len() + index_of(behind, c)
    };
    assert forall|i: int| 0 <= i < at implies whole[i] != c by {
        if i < text.len() {
            assert(whole[i] == text[i]);
        } else {
            assert(whole[i] == behind[i - text.len()]);
        }
    }
    if at < whole.len() {
        if at < text.len() {
            assert(whole[at] == text[at]);
        } else {
            assert(whole[at] == behind[at - text.len()]);
        }
    }
    lemma_index_of_is(whole, c, at);
}

/// The position of the first occurrence of `c` at or after `from`, or the
/// length of the text where there is none.
pub fn find_char(text: &Vec<char>, from: usize, c: char) -> (at: usize)
    requires
        from <= text@.len(),
    ensures
        at == from + index_of(text@.skip(from as int), c),
        from <= at <= text@.len(),
{
    let mut at: usize = from;
    while at < text.len()
        invariant
            from <= at <= text@.len(),
            forall|i: int| 0 <= i < at - from ==> text@.skip(from as int)[i] != c,
        decreases text@.len() - at,
    {
        if text[at] == c {
            proof {
                lemma_index_of_is(text@.skip(from as int), c, at - from);
            }
            return at;
        }
        at += 1;
    }
    proof {
        lemma_index_of_is(text@.skip(from as int), c, at - from);
    }
    at
}

/// The characters from `from` up to `to`.
pub fn slice_chars(text: &Vec<char>, from: usize, to: usize) -> (part: Vec<char>)
    requires
        from <= to <= text@.len(),
    ensures
        part@ == text@.subrange(from as int, to as int),
{
    let mut part: Vec<char> = Vec::new();
    let mut i: usize = from;
    while i < to
        invariant
            from <= i <= to <= text@.len(),
            part@ == text@.subrange(from as int, i as int),
        decreases to - i,
    {
        part.push(text[i]);
        i += 1;
        assert(part@ =~= text@.subrange(from as int, i as int));
    }
    part
}

/// The order of texts in a dictionary: character by character, a text
/// before every text that it begins.
pub open spec fn lex_less(a: Seq<char>, b: Seq<char>) -> bool
    decreases a.len(),
{
    if b.len() == 0 {
        false
    } else if a.len() == 0 {
        true
    } else if a[0] != b[0] {
        (a[0] as int) < (b[0] as int)
    } else {
        lex_less(a.skip(1), b.skip(1))
    }
}

/// Of two texts, one comes before the other or they are the same.
pub proof fn lemma_lex_total(a: Seq<char>, b: Seq<char>)
    ensures
        lex_less(a, b) || a == b || lex_less(b, a),
    decreases a.len(),
{
    if a.len() == 0 || b.len() == 0 {
        if a.len() == 0 && b.len() == 0 {
            assert(a =~= b);
        }
    } else if a[0] == b[0] {
        lemma_lex_total(a.skip(1), b.skip(1));
        if a.skip(1) == b.skip(1) {
            assert forall|i: int| 0 <= i < a.len() implies a[i] == b[i] by {
                if i > 0 {
                    assert(a[i] == a.skip(1)[i - 1]);
                    assert(b[i] == b.skip(1)[i - 1]);
                }
            }
            assert(a.len() == a.skip(1).len() + 1);
            assert(b.len() == b.skip(1).len() + 1);
            assert(a =~= b);
        }
    }
}

/// No text comes before itself.
pub proof fn lemma_lex_irreflexive(a: Seq<char>)
    ensures
        !lex_less(a, a),
    decreases a.len(),
{
    if a.len() > 0 {
        lemma_lex_irreflexive(a.skip(1));
    }
}

/// The order of texts is transitive.
pub proof fn lemma_lex_transitive(a: Seq<char>, b: Seq<char>, c: Seq<char>)
    requires
        lex_less(a, b),
        lex_less(b, c),
    ensures
        lex_less(a, c),
    decreases a.len(),
{
    if a.len() > 0 && a[0] == b[0] && b[0] == c[0] {
        lemma_lex_transitive(a.skip(1), b.skip(1), c.skip(1));
    }
}

/// Whether `a` comes before `b` in the order of texts.
pub fn lex_lt(a: &Vec<char>, b: &Vec<char>) -> (before: bool)
    ensures
        before == lex_less(a@, b@),
{
    let mut i: usize = 0;
    assert(a@.skip(0) =~= a@);
    assert(b@.skip(0) =~= b@);
    loop
        invariant
            i <= a@.len(),
            i <= b@.len(),
            lex_less(a@.skip(i as int), b@.skip(i as int)) == lex_less(a@, b@),
        decreases a@.len() - i,
    {
        if i >= b.len() {
            return false;
        }
        if i >= a.len() {
            return true;
        }
        if a[i] != b[i] {
            return a[i] < b[i];
        }
        assert(a@.skip(i as int).skip(1) =~= a@.skip(i + 1));
        assert(b@.skip(i as int).skip(1) =~= b@.skip(i + 1));
        i += 1;
    }
}

/// The number of bytes that a character takes in UTF-8.
pub open spec fn char_width(c: char) -> nat {
    if (c as u32) < 0x80 {
        1
    } else if (c as u32) < 0x800 {
        2
    } else if (c as u32) < 0x10000 {
        3
    } else {
        4
    }
}

/// The number of bytes that a text takes in UTF-8.
pub open spec fn byte_length(text: Seq<char>) -> nat
    decreases text.len(),
{
    if text.len() == 0 {
        0
    } else {
        byte_length(text.drop_last()) + char_width(text.last())
    }
}

/// The number of leading characters of a text that fit into `limit` bytes
/// of UTF-8.
pub open spec fn fitting(text: Seq<char>, limit: nat) -> nat
    decreases text.len(),
{
    if text.len() == 0 {
        0
    } else if byte_length(text) <= limit {
        text.len()
    } else {
        fitting(text.drop_last(), limit)
    }
}

/// A text no longer than `max_len` bytes as it is; a longer one cut to the
/// characters that fit into `keep` bytes, with three dots behind them.
pub open spec fn shortened(text: Seq<char>, max_len: nat, keep: nat) -> Seq<char> {
    if byte_length(text) > max_len {
        text.take(fitting(text, keep) as int) + seq!['.', '.', '.']
    } else {
        text
    }
}

fn width_of(c: char) -> (width: usize)
    ensures
        width == char_width(c),
{
    let code = c as u32;
    if code < 0x80 {
        1
    } else if code < 0x800 {
        2
    } else if code < 0x10000 {
        3
    } else {
        4
    }
}

/// The byte length of a prefix is no greater than that of the text.
proof fn lemma_byte_length_grows(text: Seq<char>, k: int)
    requires
        0 <= k <= text.len(),
    ensures
        byte_length(text.take(k)) <= byte_length(text),
    decreases text.len(),
{
    if k < text.len() {
        lemma_byte_length_grows(text.drop_last(), k);
        assert(text.drop_last().take(k) =~= text.take(k));
    } else {
        assert(text.take(k) =~= text);
    }
}

/// Where the first `k` characters fit and one more would not, `k` is the
/// number that fits.
proof fn lemma_fitting_is(text: Seq<char>, limit: nat, k: int)
    requires
        0 <= k <= text.len(),
        byte_length(text.take(k)) <= limit,
        k < text.len() ==> byte_length(text.take(k + 1)) > limit,
    ensures
        fitting(text, limit) == k,
    decreases text.len(),
{
    if text.len() == 0 {
    } else if k == text.len() {
        assert(text.take(k) =~= text);
    } else {
        lemma_byte_length_grows(text, k + 1);
        assert(text.drop_last().take(k) =~= text.take(k));
        if k + 1 < text.len() {
            assert(text.drop_last().take(k + 1) =~= text.take(k + 1));
        } else {
            assert(text.take(k + 1) =~= text);
        }
        lemma_fitting_is(text.drop_last(), limit, k);
    }
}

/// Cuts a text that is longer than `max_len` bytes down to the characters
/// that fit into `keep` bytes and puts three dots behind them.
pub fn shorten(text: &str, max_len: usize, keep: usize) -> (short: String)
    ensures
        short@ == shortened(text@, max_len as nat, keep as nat),
{
    let chars = chars_of(text);
    // The number of characters that fit into `keep` bytes, and whether the
    // whole text fits into `max_len` bytes.
    let mut fit: usize = 0;
    let mut fit_done = false;
    let mut kept: usize = 0;
    let mut total: usize = 0;
    let mut over = false;
    let mut i: usize = 0;
    assert(chars@.take(0) =~= Seq::empty());
    while i < chars.len()
        invariant
            i <= chars@.len(),
            fit <= i,
            !over ==> total == byte_length(chars@.take(i as int)) && total <= max_len,
            over ==> byte_length(chars@.take(i as int)) > max_len,
            kept == byte_length(chars@.take(fit as int)),
            kept <= keep,
            !fit_done ==> fit == i,
            fit_done ==> fit < chars@.len() && byte_length(chars@.take(fit + 1)) > keep,
        decreases chars@.len() - i,
    {
        let width = width_of(chars[i]);
        proof {
            assert(chars@.take(i + 1).drop_last() =~= chars@.take(i as int));
            assert(chars@.take(i + 1).last() == chars@[i as int]);
        }
        if !over {
            if width > max_len - total {
                over = true;
            } else {
                total = total + width;
            }
        }
        if !fit_done {
            if width > keep - kept {
                fit_done = true;
            } else {
                kept = kept + width;
                fit = fit + 1;
            }
        }
        i += 1;
    }
    assert(chars@.take(i as int) =~= chars@);
    if over {
        proof {
            lemma_fitting_is(chars@, keep as nat, fit as int);
            reveal_strlit("...");
            assert("..."@ =~= seq!['.', '.', '.']);
        }
        let head = slice_chars(&chars, 0, fit);
        assert(head@ =~= chars@.take(fit as int));
        string_of(&head).concat("...")
    } else {
        string_of(&chars)
    }
}

/// The lower-case form of an ASCII capital letter; any other character as
/// it is.
pub open spec fn ascii_lower(c: char) -> char {
    if 'A' <= c && c <= 'Z' {
        ((c as u8) + 32) as char
    } else {
        c
    }
}

/// Whether the text from `from` on is the given word, whatever the case
/// of its ASCII letters.
pub open spec fn is_word(text: Seq<char>, from: int, word: Seq<char>) -> bool {
    &&& 0 <= from
    &&& text.len() == from + word.len()
    &&& forall|i: int| 0 <= i < word.len() ==> ascii_lower(#[trigger] text[from + i]) == word[i]
}

/// The number of digits that stand in a row from `from` on.
pub open spec fn digits_from(text: Seq<char>, from: int) -> nat
    decreases text.len() - from,
{
    if 0 <= from < text.len() && is_digit(text[from]) {
        1 + digits_from(text, from + 1)
    } else {
        0
    }
}

/// Whether a character is a sign.
pub open spec fn is_sign(c: char) -> bool {
    c == '+' || c == '-'
}

/// Whether the text from `from` on is empty or an exponent: `e` or `E`, an
/// optional sign and at least one digit, up to the end of the text.
pub open spec fn ends_in_exponent(text: Seq<char>, from: int) -> bool {
    if from == text.len() {
        true
    } else if 0 <= from < text.len() && (text[from] == 'e' || text[from] == 'E') {
        let digits = if from + 1 < text.len() && is_sign(text[from + 1]) {
            from + 2
        } else {
            from + 1
        };
        digits_from(text, digits) > 0 && digits + digits_from(text, digits) == text.len()
    } else {
        false
    }
}

/// Whether the text from `from` on is a number: digits with an optional
/// point among them, before it or behind it, and an optional exponent.
pub open spec fn is_number(text: Seq<char>, from: int) -> bool {
    let whole = digits_from(text, from);
    let point = from + whole;
    if 0 <= point < text.len() && text[point] == '.' {
        let fraction = digits_from(text, point + 1);
        whole + fraction > 0 && ends_in_exponent(text, point + 1 + fraction)
    } else {
        whole > 0 && ends_in_exponent(text, point)
    }
}

/// Whether a text reads as a floating-point number: an optional sign,
/// then a number, or one of the words `inf`, `infinity` and `nan` in any
/// case.
pub open spec fn is_float_text(text: Seq<char>) -> bool {
    let from: int = if text.len() > 0 && is_sign(text[0]) {
        1
    } else {
        0
    };
    is_word(text, from, seq!['i', 'n', 'f']) || is_word(
        text,
        from,
        seq!['i', 'n', 'f', 'i', 'n', 'i', 't', 'y'],
    ) || is_word(text, from, seq!['n', 'a', 'n']) || is_number(text, from)
}

fn lower_of(c: char) -> (lower: char)
    ensures
        lower == ascii_lower(c),
{
    if 'A' <= c && c <= 'Z' {
        ((c as u8) + 32) as char
    } else {
        c
    }
}

fn word_at(text: &Vec<char>, from: usize, word: &Vec<char>) -> (found: bool)
    requires
        from <= text@.len(),
    ensures
        found == is_word(text@, from as int, word@),
{
    let total: usize = text.len();
    if total - from != word.len() {
        return false;
    }
    let mut i: usize = 0;
    while i < word.len()
        invariant
            from + word@.len() == text@.len(),
            text@.len() == total,
            i <= word@.len(),
            forall|k: int| 0 <= k < i ==> ascii_lower(#[trigger] text@[from + k]) == word@[k],
        decreases word@.len() - i,
    {
        if lower_of(text[from + i]) != word[i] {
            return false;
        }
        i += 1;
    }
    true
}

/// The number of digits that stand in a row from `from` on.
fn count_digits(text: &Vec<char>, from: usize) -> (count: usize)
    requires
        from <= text@.len(),
    ensures
        count == digits_from(text@, from as int),
        from + count <= text@.len(),
{
    let mut at: usize = from;
    while at < text.len() && '0' <= text[at] && text[at] <= '9'
        invariant
            from <= at <= text@.len(),
            digits_from(text@, from as int) == (at - from) + digits_from(text@, at as int),
        decreases text@.len() - at,
    {
        at += 1;
    }
    at - from
}

fn exponent_at(text: &Vec<char>, from: usize) -> (found: bool)
    requires
        from <= text@.len(),
    ensures
        found == ends_in_exponent(text@, from as int),
{
    if from == text.len() {
        return true;
    }
    if text[from] != 'e' && text[from] != 'E' {
        return false;
    }
    let digits: usize = if from + 1 < text.len() && (text[from + 1] == '+' || text[from + 1]
        == '-') {
        from + 2
    } else {
        from + 1
    };
    let count = count_digits(text, digits);
    count > 0 && digits + count == text.len()
}

/// Whether a text reads as a floating-point number.
pub fn is_float(text: &Vec<char>) -> (numeric: bool)
    ensures
        numeric == is_float_text(text@),
{
    let from: usize = if text.len() > 0 && (text[0] == '+' || text[0] == '-') {
        1
    } else {
        0
    };
    let mut inf: Vec<char> = Vec::new();
    inf.push('i');
    inf.push('n');
    inf.push('f');
    assert(inf@ =~= seq!['i', 'n', 'f']);
    let mut nan: Vec<char> = Vec::new();
    nan.push('n');
    nan.push('a');
    nan.push('n');
    assert(nan@ =~= seq!['n', 'a', 'n']);
    let infinity = chars_of("infinity");
    proof {
        reveal_strlit("infinity");
        assert(infinity@ =~= seq!['i', 'n', 'f', 'i', 'n', 'i', 't', 'y']);
    }
    if word_at(text, from, &inf) || word_at(text, from, &infinity) || word_at(text, from, &nan) {
        return true;
    }
    let whole = count_digits(text, from);
    let point = from + whole;
    if point < text.len() && text[point] == '.' {
        let fraction = count_digits(text, point + 1);
        (whole > 0 || fraction > 0) && exponent_at(text, point + 1 + fraction)
    } else {
        whole > 0 && exponent_at(text, point)
    }
}

} // verus!
