//! Characters, lines and numbers: the text handling that the rest of the
//! library builds on. Strings are modelled by their sequence of characters.
use vstd::prelude::*;
use vstd::utf8::*;

verus! {

/// A character with the letters `A` to `Z` mapped to `a` to `z`.
pub open spec fn ascii_lower(c: char) -> char {
    if 'A' <= c && c <= 'Z' {
        ((c as u32 + 32) as u32) as char
    } else {
        c
    }
}

/// A text with `ascii_lower` applied to each character.
pub open spec fn ascii_lowercase(text: Seq<char>) -> Seq<char> {
    text.map_values(|c: char| ascii_lower(c))
}

/// Whether none of the letters `A` to `Z` stands in a text.
pub open spec fn no_capitals(text: Seq<char>) -> bool {
    forall|i: int| 0 <= i < text.len() ==> !('A' <= #[trigger] text[i] && text[i] <= 'Z')
}

/// The front of a text, up to its first character beyond ASCII.
pub open spec fn ascii_front(text: Seq<char>) -> Seq<char>
    decreases text.len(),
{
    if text.len() > 0 && text.first() <= '\u{7f}' {
        seq![text.first()] + ascii_front(text.drop_first())
    } else {
        Seq::empty()
    }
}

/// What the Unicode tables of the standard library make of a text from its first
/// character beyond ASCII on, in its lowercase form.
pub uninterp spec fn unicode_lowercase(text: Seq<char>) -> Seq<char>;

/// The lowercase form of a text: letter by letter as far as it is ASCII, and by the
/// Unicode tables behind that.
pub open spec fn lowercase(text: Seq<char>) -> Seq<char> {
    if is_ascii_chars(text) {
        ascii_lowercase(text)
    } else {
        ascii_lowercase(ascii_front(text)) + unicode_lowercase(text)
    }
}

/// `str::to_lowercase`: a text of ASCII characters has `A` to `Z` mapped to `a`
/// to `z` and nothing else changed. Any other text has that done to its front, up to
/// the first character beyond ASCII. What comes behind is a function of the text
/// alone. None of the letters `A` to `Z` is left anywhere. Nothing more is claimed.
#[verifier::external_body]
pub(crate) fn to_lowercase(text: &str) -> (r: String)
    ensures
        is_ascii_chars(text@) ==> r@ == ascii_lowercase(text@),
        !is_ascii_chars(text@) ==> r@ == ascii_lowercase(ascii_front(text@)) + unicode_lowercase(
            text@,
        ),
        no_capitals(r@),
{
    text.to_lowercase()
}

proof fn lemma_ascii_front(front: Seq<char>, rest: Seq<char>)
    requires
        is_ascii_chars(front),
    ensures
        front.is_prefix_of(ascii_front(front + rest)),
    decreases front.len(),
{
    let whole = front + rest;
    if front.len() > 0 {
        let less = front.drop_first();
        assert(front[0] <= '\u{7f}');
        assert(is_ascii_chars(less)) by {
            assert forall|i: int| 0 <= i < less.len() implies '\0' <= #[trigger] less[i]
                <= '\u{7f}' by {
                assert(less[i] == front[i + 1]);
            }
        }
        lemma_ascii_front(less, rest);
        assert(whole.drop_first() =~= less + rest);
        let found = ascii_front(less + rest);
        assert(less == found.subrange(0, less.len() as int));
        assert forall|i: int| 0 <= i < front.len() implies front[i] == ascii_front(whole)[i] by {
            if i > 0 {
                assert(front[i] == less[i - 1]);
                assert(less[i - 1] == found[i - 1]);
            }
        }
    }
    assert(front =~= ascii_front(whole).subrange(0, front.len() as int));
}

/// The lowercase form of a text begins with that of its front, letter by letter, if
/// the front is ASCII, whatever comes behind.
pub(crate) proof fn lemma_lowercase_front(front: Seq<char>, rest: Seq<char>)
    requires
        is_ascii_chars(front),
    ensures
        ascii_lowercase(front).is_prefix_of(lowercase(front + rest)),
{
    let whole = front + rest;
    let lowered = ascii_lowercase(front);
    let n = front.len() as int;
    if is_ascii_chars(whole) {
        assert(lowered =~= lowercase(whole).subrange(0, n));
    } else {
        lemma_ascii_front(front, rest);
        let found = ascii_front(whole);
        assert(front == found.subrange(0, n));
        assert forall|i: int| 0 <= i < n implies lowered[i] == #[trigger] lowercase(whole)[i] by {
            assert(front[i] == found[i]);
        }
        assert(lowered =~= lowercase(whole).subrange(0, n));
    }
}

/// No letter from `A` to `Z` is left in the lowercase form of a text in ASCII.
pub(crate) proof fn lemma_ascii_lowercase_has_no_capitals(text: Seq<char>)
    ensures
        no_capitals(ascii_lowercase(text)),
{
    let lowered = ascii_lowercase(text);
    assert forall|i: int| 0 <= i < lowered.len() implies !('A' <= #[trigger] lowered[i]
        && lowered[i] <= 'Z') by {
        assert(lowered[i] == ascii_lower(text[i]));
    }
}

/// Whether a character has the Unicode property `White_Space`.
pub open spec fn white_space(c: char) -> bool {
    ||| '\u{9}' <= c && c <= '\u{d}'
    ||| c == ' ' || c == '\u{85}' || c == '\u{a0}' || c == '\u{1680}'
    ||| '\u{2000}' <= c && c <= '\u{200a}'
    ||| c == '\u{2028}' || c == '\u{2029}' || c == '\u{202f}'
    ||| c == '\u{205f}' || c == '\u{3000}'
}

/// `char::is_whitespace` tells the characters with the property `White_Space`
/// from the others.
#[verifier::external_body]
pub(crate) fn is_whitespace(c: char) -> (r: bool)
    ensures
        r == white_space(c),
{
    c.is_whitespace()
}

/// The text that the front of bytes encodes, up to the first byte that is not part
/// of well-formed UTF-8.
pub open spec fn front_text(bytes: Seq<u8>) -> Seq<char>
    decreases bytes.len(),
{
    if bytes.len() > 0 && valid_first_scalar(bytes) {
        seq![decode_first_scalar(bytes) as char] + front_text(pop_first_scalar(bytes))
    } else {
        Seq::empty()
    }
}

/// The text that stands for malformed bytes from the first malformed sequence on,
/// with each of those replaced.
pub uninterp spec fn repaired_text(bytes: Seq<u8>) -> Seq<char>;

/// The text that bytes stand for: what they encode as far as they are well-formed
/// UTF-8, and the repaired text behind that.
pub open spec fn text_of(bytes: Seq<u8>) -> Seq<char> {
    if valid_utf8(bytes) {
        decode_utf8(bytes)
    } else {
        front_text(bytes) + repaired_text(bytes)
    }
}

/// `String::from_utf8_lossy`: well-formed bytes give the text that they encode.
/// Malformed bytes give the text that their well-formed front encodes, and behind
/// that a text that is a function of the bytes alone, of which nothing more is
/// claimed.
#[verifier::external_body]
pub(crate) fn from_utf8_lossy(bytes: &[u8]) -> (r: String)
    ensures
        valid_utf8(bytes@) ==> r@ == decode_utf8(bytes@),
        !valid_utf8(bytes@) ==> r@ == front_text(bytes@) + repaired_text(bytes@),
{
    String::from_utf8_lossy(bytes).into_owned()
}

/// The front of well-formed bytes is all of them.
proof fn lemma_front_of_valid(bytes: Seq<u8>)
    requires
        valid_utf8(bytes),
    ensures
        front_text(bytes) == decode_utf8(bytes),
    decreases bytes.len(),
{
    if bytes.len() > 0 {
        lemma_front_of_valid(pop_first_scalar(bytes));
    }
}

proof fn lemma_front_concat(front: Seq<u8>, tail: Seq<u8>)
    requires
        valid_utf8(front),
    ensures
        front_text(front + tail) == decode_utf8(front) + front_text(tail),
    decreases front.len(),
{
    if front.len() == 0 {
        assert(front + tail =~= tail);
        assert(decode_utf8(front) + front_text(tail) =~= front_text(tail));
    } else {
        let all = front + tail;
        let n = length_of_first_scalar(front);
        assert(forall|i: int| 0 <= i < n ==> all[i] == front[i]);
        assert(valid_first_scalar(all));
        assert(pop_first_scalar(all) =~= pop_first_scalar(front) + tail);
        lemma_front_concat(pop_first_scalar(front), tail);
        assert(front_text(all) =~= decode_utf8(front) + front_text(tail));
    }
}

/// A text in front of any bytes is kept.
pub(crate) proof fn lemma_front_is_kept(front: Seq<char>, tail: Seq<u8>)
    ensures
        front.is_prefix_of(text_of(encode_utf8(front) + tail)),
{
    let bytes = encode_utf8(front) + tail;
    encode_utf8_valid_utf8(front);
    encode_utf8_decode_utf8(front);
    lemma_front_concat(encode_utf8(front), tail);
    if valid_utf8(bytes) {
        lemma_front_of_valid(bytes);
    }
    let n = front.len() as int;
    assert(text_of(bytes).subrange(0, n) =~= front);
}

/// `String::push` puts the character behind the text.
pub assume_specification[ String::push ](s: &mut String, c: char)
    ensures
        final(s)@ == old(s)@.push(c),
;

/// A text that may be missing, by its characters.
pub open spec fn optional(s: Option<String>) -> Option<Seq<char>> {
    match s {
        Some(s) => Some(s@),
        None => None,
    }
}

/// The characters of a text, in order.
pub(crate) fn chars_of(text: &str) -> (r: Vec<char>)
    ensures
        r@ == text@,
{
    let mut r: Vec<char> = Vec::new();
    for c in it: text.chars()
        invariant
            it.seq() == text@,
            r@ == text@.take(it.index() as int),
    {
        r.push(c);
        assert(text@.take(it.index() as int + 1) =~= text@.take(it.index() as int).push(c));
    }
    assert(text@.take(text@.len() as int) =~= text@);
    r
}

/// The text of the characters from `from` up to `to`.
pub(crate) fn string_of(chars: &Vec<char>, from: usize, to: usize) -> (r: String)
    requires
        from <= to <= chars@.len(),
    ensures
        r@ == chars@.subrange(from as int, to as int),
{
    let mut r: String = String::new();
    let mut i: usize = from;
    while i < to
        invariant
            from <= i <= to <= chars@.len(),
            r@ == chars@.subrange(from as int, i as int),
        decreases to - i,
    {
        r.push(chars[i]);
        assert(chars@.subrange(from as int, i + 1) =~= chars@.subrange(from as int, i as int).push(
            chars@[i as int],
        ));
        i += 1;
    }
    r
}

/// A text without the first place at which `pattern` stands in it.
pub open spec fn remove_first(text: Seq<char>, pattern: Seq<char>) -> Seq<char>
    decreases text.len(),
{
    if pattern.is_prefix_of(text) {
        text.skip(pattern.len() as int)
    } else if text.len() == 0 {
        text
    } else {
        seq![text[0]] + remove_first(text.skip(1), pattern)
    }
}

/// Whether `pattern` stands in `text` at place `i`.
pub open spec fn occurs_at(text: Seq<char>, pattern: Seq<char>, i: int) -> bool {
    0 <= i <= text.len() && pattern.is_prefix_of(text.skip(i))
}

proof fn lemma_remove_first_at(text: Seq<char>, pattern: Seq<char>, i: int)
    requires
        occurs_at(text, pattern, i),
        forall|j: int| 0 <= j < i ==> !occurs_at(text, pattern, j),
    ensures
        remove_first(text, pattern) == text.take(i) + text.skip(i + pattern.len()),
    decreases i,
{
    assert(text.skip(0) =~= text);
    if i == 0 {
        assert(remove_first(text, pattern) =~= text.take(0) + text.skip(pattern.len() as int));
    } else {
        assert(!occurs_at(text, pattern, 0));
        let rest = text.skip(1);
        assert(rest.skip(i - 1) =~= text.skip(i));
        assert forall|j: int| 0 <= j < i - 1 implies !occurs_at(rest, pattern, j) by {
            assert(rest.skip(j) =~= text.skip(j + 1));
            assert(!occurs_at(text, pattern, j + 1));
        }
        lemma_remove_first_at(rest, pattern, i - 1);
        assert(text.take(i) + text.skip(i + pattern.len()) =~= seq![text[0]] + (rest.take(i - 1)
            + rest.skip(i - 1 + pattern.len())));
    }
}

proof fn lemma_remove_first_absent(text: Seq<char>, pattern: Seq<char>)
    requires
        forall|j: int| 0 <= j <= text.len() ==> !occurs_at(text, pattern, j),
    ensures
        remove_first(text, pattern) == text,
    decreases text.len(),
{
    assert(text.skip(0) =~= text);
    assert(!occurs_at(text, pattern, 0));
    if text.len() > 0 {
        let rest = text.skip(1);
        assert forall|j: int| 0 <= j <= rest.len() implies !occurs_at(rest, pattern, j) by {
            assert(rest.skip(j) =~= text.skip(j + 1));
            assert(!occurs_at(text, pattern, j + 1));
        }
        lemma_remove_first_absent(rest, pattern);
        assert(seq![text[0]] + rest =~= text);
    }
}

/// Whether the characters of `pattern` stand in `chars` from place `at` on.
pub(crate) fn matches_at(chars: &Vec<char>, pattern: &Vec<char>, at: usize) -> (r: bool)
    requires
        at <= chars@.len(),
    ensures
        r == occurs_at(chars@, pattern@, at as int),
{
    let n: usize = chars.len();
    if n - at < pattern.len() {
        return false;
    }
    let mut k: usize = 0;
    while k < pattern.len()
        invariant
            n == chars@.len(),
            at + pattern@.len() <= chars@.len(),
            0 <= k <= pattern@.len(),
            forall|j: int| 0 <= j < k ==> pattern@[j] == chars@[at + j],
        decreases pattern@.len() - k,
    {
        if chars[at + k] != pattern[k] {
            assert(chars@.skip(at as int)[k as int] == chars@[at + k]);
            return false;
        }
        k += 1;
    }
    assert(pattern@ =~= chars@.skip(at as int).take(pattern@.len() as int));
    true
}

/// The first place at which `pattern` stands, if there is one.
pub(crate) fn find_first(chars: &Vec<char>, pattern: &Vec<char>) -> (r: Option<usize>)
    ensures
        match r {
            Some(i) => occurs_at(chars@, pattern@, i as int) && forall|j: int|
                0 <= j < i ==> !occurs_at(chars@, pattern@, j),
            None => forall|j: int| !occurs_at(chars@, pattern@, j),
        },
{
    let mut i: usize = 0;
    while i < chars.len()
        invariant
            0 <= i <= chars@.len(),
            forall|j: int| 0 <= j < i ==> !occurs_at(chars@, pattern@, j),
        decreases chars@.len() - i,
    {
        if matches_at(chars, pattern, i) {
            return Some(i);
        }
        i += 1;
    }
    if matches_at(chars, pattern, i) {
        Some(i)
    } else {
        None
    }
}

/// Puts the characters from `from` up to `to` behind those of `into`.
pub(crate) fn push_range(into: &mut Vec<char>, chars: &Vec<char>, from: usize, to: usize)
    requires
        from <= to <= chars@.len(),
    ensures
        final(into)@ == old(into)@ + chars@.subrange(from as int, to as int),
{
    let mut i: usize = from;
    while i < to
        invariant
            from <= i <= to <= chars@.len(),
            into@ == old(into)@ + chars@.subrange(from as int, i as int),
        decreases to - i,
    {
        into.push(chars[i]);
        assert(chars@.subrange(from as int, i + 1) =~= chars@.subrange(from as int, i as int).push(
            chars@[i as int],
        ));
        i += 1;
    }
}

/// Removes the first place at which `pattern` stands, if there is one.
pub(crate) fn without_first(chars: &Vec<char>, pattern: &Vec<char>) -> (r: Vec<char>)
    ensures
        r@ == remove_first(chars@, pattern@),
{
    let mut r: Vec<char> = Vec::new();
    match find_first(chars, pattern) {
        Some(i) => {
            let n: usize = chars.len();
            push_range(&mut r, chars, 0, i);
            push_range(&mut r, chars, i + pattern.len(), n);
            proof {
                lemma_remove_first_at(chars@, pattern@, i as int);
                assert(chars@.subrange(0, i as int) =~= chars@.take(i as int));
                assert(chars@.subrange(i + pattern@.len(), chars@.len() as int) =~= chars@.skip(
                    i + pattern@.len(),
                ));
            }
        },
        None => {
            push_range(&mut r, chars, 0, chars.len());
            proof {
                lemma_remove_first_absent(chars@, pattern@);
                assert(chars@.subrange(0, chars@.len() as int) =~= chars@);
            }
        },
    }
    r
}

/// A text without its leading white space.
pub open spec fn trim_start(text: Seq<char>) -> Seq<char>
    decreases text.len(),
{
    if text.len() > 0 && white_space(text.first()) {
        trim_start(text.drop_first())
    } else {
        text
    }
}

/// A text without its trailing white space.
pub open spec fn trim_end(text: Seq<char>) -> Seq<char>
    decreases text.len(),
{
    if text.len() > 0 && white_space(text.last()) {
        trim_end(text.drop_last())
    } else {
        text
    }
}

/// A text without the white space around it.
pub open spec fn trim(text: Seq<char>) -> Seq<char> {
    trim_end(trim_start(text))
}

/// The bounds of what is left of `chars` without the white space around it.
pub(crate) fn trimmed(chars: &Vec<char>) -> (r: (usize, usize))
    ensures
        r.0 <= r.1 <= chars@.len(),
        chars@.subrange(r.0 as int, r.1 as int) == trim(chars@),
{
    let n: usize = chars.len();
    let mut lo: usize = 0;
    assert(chars@.subrange(0, n as int) =~= chars@);
    while lo < n && is_whitespace(chars[lo])
        invariant
            0 <= lo <= n,
            n == chars@.len(),
            trim_start(chars@) == trim_start(chars@.subrange(lo as int, n as int)),
        decreases n - lo,
    {
        assert(chars@.subrange(lo as int, n as int).drop_first() =~= chars@.subrange(
            lo + 1,
            n as int,
        ));
        lo += 1;
    }
    assert(trim_start(chars@) == chars@.subrange(lo as int, n as int));
    let mut hi: usize = n;
    while lo < hi && is_whitespace(chars[hi - 1])
        invariant
            0 <= lo <= hi <= n,
            n == chars@.len(),
            trim(chars@) == trim_end(chars@.subrange(lo as int, hi as int)),
        decreases hi,
    {
        assert(chars@.subrange(lo as int, hi as int).drop_last() =~= chars@.subrange(
            lo as int,
            hi - 1,
        ));
        hi -= 1;
    }
    (lo, hi)
}

/// What stands before the first `stop`, or all of the text if there is none.
pub open spec fn before(text: Seq<char>, stop: char) -> Seq<char>
    decreases text.len(),
{
    if text.len() == 0 || text.first() == stop {
        Seq::empty()
    } else {
        seq![text.first()] + before(text.drop_first(), stop)
    }
}

/// `before` is the part up to the first `stop`.
pub(crate) proof fn lemma_before(text: Seq<char>, stop: char, n: int)
    requires
        0 <= n <= text.len(),
        forall|j: int| 0 <= j < n ==> text[j] != stop,
        n == text.len() || text[n] == stop,
    ensures
        before(text, stop) == text.take(n),
    decreases n,
{
    if n == 0 {
        assert(before(text, stop) =~= text.take(0));
    } else {
        let rest = text.drop_first();
        assert forall|j: int| 0 <= j < n - 1 implies rest[j] != stop by {
            assert(rest[j] == text[j + 1]);
        }
        lemma_before(rest, stop, n - 1);
        assert(seq![text.first()] + rest.take(n - 1) =~= text.take(n));
    }
}

/// The place of the first `stop` from `from` on and before `to`, or `to`.
pub(crate) fn position(chars: &Vec<char>, stop: char, from: usize, to: usize) -> (r: usize)
    requires
        from <= to <= chars@.len(),
    ensures
        from <= r <= to,
        forall|j: int| from <= j < r ==> chars@[j] != stop,
        r == to || chars@[r as int] == stop,
        chars@.subrange(from as int, r as int) == before(
            chars@.subrange(from as int, to as int),
            stop,
        ),
{
    let mut i: usize = from;
    while i < to && chars[i] != stop
        invariant
            from <= i <= to <= chars@.len(),
            forall|j: int| from <= j < i ==> chars@[j] != stop,
        decreases to - i,
    {
        i += 1;
    }
    proof {
        let part = chars@.subrange(from as int, to as int);
        lemma_before(part, stop, i - from);
        assert(part.take(i - from) =~= chars@.subrange(from as int, i as int));
    }
    i
}

/// The decimal digit for a value below 10.
pub open spec fn digit_char(d: nat) -> char {
    (('0' as u32 + d) as u32) as char
}

/// A number in decimal digits, without leading zeros.
pub open spec fn decimal(n: nat) -> Seq<char>
    decreases n,
{
    if n < 10 {
        seq![digit_char(n)]
    } else {
        decimal(n / 10).push(digit_char(n % 10))
    }
}

/// A number in decimal digits.
pub(crate) fn decimal_string(n: u16) -> (r: String)
    ensures
        r@ == decimal(n as nat),
    decreases n,
{
    let mut r: String = if n < 10 {
        String::new()
    } else {
        decimal_string(n / 10)
    };
    r.push((48u8 + (n % 10) as u8) as char);
    assert(n < 10 ==> r@ =~= seq![digit_char(n as nat)]);
    r
}

/// Whether a character is a decimal digit.
pub open spec fn is_digit(c: char) -> bool {
    '0' <= c && c <= '9'
}

/// The value of decimal digits.
pub open spec fn decimal_value(digits: Seq<char>) -> nat
    decreases digits.len(),
{
    if digits.len() == 0 {
        0
    } else {
        (10 * decimal_value(digits.drop_last()) + (digits.last() as u32 - '0' as u32)) as nat
    }
}

/// The number that a text stands for: decimal digits, of which there is at least
/// one. `None` if the text is something else, or if the number is larger than a
/// `u16` can be.
pub open spec fn digits_u16(text: Seq<char>) -> Option<u16> {
    if text.len() > 0 && (forall|i: int| 0 <= i < text.len() ==> is_digit(#[trigger] text[i]))
        && decimal_value(text) <= u16::MAX {
        Some(decimal_value(text) as u16)
    } else {
        None
    }
}

/// The number that a text stands for, which may have a plus sign in front.
pub open spec fn parsed_u16(text: Seq<char>) -> Option<u16> {
    if text.len() > 0 && text.first() == '+' {
        digits_u16(text.drop_first())
    } else {
        digits_u16(text)
    }
}

/// More digits make no smaller number.
proof fn lemma_decimal_value_grows(digits: Seq<char>, n: int)
    requires
        0 <= n <= digits.len(),
        forall|i: int| 0 <= i < digits.len() ==> is_digit(#[trigger] digits[i]),
    ensures
        decimal_value(digits.take(n)) <= decimal_value(digits),
    decreases digits.len() - n,
{
    if n == digits.len() {
        assert(digits.take(n) =~= digits);
    } else {
        lemma_decimal_value_grows(digits, n + 1);
        assert(digits.take(n + 1).drop_last() =~= digits.take(n));
        assert(is_digit(digits[n]));
    }
}

/// The number that a text stands for, if it stands for one that fits.
pub(crate) fn parse_u16(text: &str) -> (r: Option<u16>)
    ensures
        r == parsed_u16(text@),
{
    let chars: Vec<char> = chars_of(text);
    let n: usize = chars.len();
    let from: usize = if n > 0 && chars[0] == '+' {
        1
    } else {
        0
    };
    let ghost digits = chars@.skip(from as int);
    assert(from == 0 ==> digits =~= chars@);
    assert(from == 1 ==> digits =~= chars@.drop_first());
    if from == n {
        return None;
    }
    let mut value: u32 = 0;
    let mut i: usize = from;
    while i < n
        invariant
            n == chars@.len(),
            from <= i <= n,
            digits == chars@.skip(from as int),
            digits.len() == n - from,
            value <= u16::MAX,
            value == decimal_value(digits.take(i - from)),
            forall|j: int| 0 <= j < i - from ==> is_digit(#[trigger] digits[j]),
            parsed_u16(text@) == digits_u16(digits),
        decreases n - i,
    {
        let c: char = chars[i];
        assert(digits[i - from] == c);
        if c < '0' || '9' < c {
            return None;
        }
        value = value * 10 + (c as u32 - '0' as u32);
        assert(digits.take(i - from + 1).drop_last() =~= digits.take(i - from));
        if value > u16::MAX as u32 {
            proof {
                if forall|i: int| 0 <= i < digits.len() ==> is_digit(#[trigger] digits[i]) {
                    lemma_decimal_value_grows(digits, i - from + 1);
                }
            }
            return None;
        }
        i += 1;
    }
    assert(digits.take(digits.len() as int) =~= digits);
    Some(value as u16)
}

proof fn lemma_decimal(n: nat)
    ensures
        decimal(n).len() > 0,
        forall|i: int| 0 <= i < decimal(n).len() ==> is_digit(#[trigger] decimal(n)[i]),
        decimal_value(decimal(n)) == n,
    decreases n,
{
    if n < 10 {
        assert(decimal(n).drop_last() =~= Seq::empty());
        assert(decimal_value(Seq::empty()) == 0);
    } else {
        lemma_decimal(n / 10);
        assert(decimal(n).drop_last() =~= decimal(n / 10));
    }
}

/// A number that is written in decimal digits is read as the same number.
pub proof fn law_decimal_is_read_back(n: u16)
    ensures
        parsed_u16(decimal(n as nat)) == Some(n),
{
    lemma_decimal(n as nat);
    assert(is_digit(decimal(n as nat)[0]));
}

/// A pattern is taken out of a text at the first place where it stands, and nothing
/// else is.
pub proof fn law_first_place_is_removed(front: Seq<char>, pattern: Seq<char>, back: Seq<char>)
    requires
        forall|j: int|
            0 <= j < front.len() ==> !pattern.is_prefix_of(
                #[trigger] (front + pattern + back).skip(j),
            ),
    ensures
        remove_first(front + pattern + back, pattern) == front + back,
{
    let whole = front + pattern + back;
    let n = front.len() as int;
    assert(pattern =~= whole.skip(n).take(pattern.len() as int));
    assert forall|j: int| 0 <= j < n implies !occurs_at(whole, pattern, j) by {
        assert(!pattern.is_prefix_of(whole.skip(j)));
    }
    lemma_remove_first_at(whole, pattern, n);
    assert(whole.take(n) =~= front);
    assert(whole.skip(n + pattern.len()) =~= back);
}

/// A text in which a pattern does not stand stays as it is.
pub proof fn law_missing_pattern_removes_nothing(text: Seq<char>, pattern: Seq<char>)
    requires
        forall|j: int|
            0 <= j <= text.len() ==> !pattern.is_prefix_of(#[trigger] text.skip(j)),
    ensures
        remove_first(text, pattern) == text,
{
    assert forall|j: int| 0 <= j <= text.len() implies !occurs_at(text, pattern, j) by {
        assert(!pattern.is_prefix_of(text.skip(j)));
    }
    lemma_remove_first_absent(text, pattern);
}

/// Whether a text is white space and nothing else.
pub open spec fn blank(text: Seq<char>) -> bool {
    forall|i: int| 0 <= i < text.len() ==> white_space(#[trigger] text[i])
}

proof fn lemma_trim_start_blank(gap: Seq<char>, rest: Seq<char>)
    requires
        blank(gap),
        rest.len() == 0 || !white_space(rest[0]),
    ensures
        trim_start(gap + rest) == rest,
    decreases gap.len(),
{
    if gap.len() == 0 {
        assert(gap + rest =~= rest);
    } else {
        let less = gap.drop_first();
        assert(white_space(gap[0]));
        assert((gap + rest).drop_first() =~= less + rest);
        assert forall|i: int| 0 <= i < less.len() implies white_space(#[trigger] less[i]) by {
            assert(less[i] == gap[i + 1]);
        }
        lemma_trim_start_blank(less, rest);
    }
}

proof fn lemma_trim_end_blank(rest: Seq<char>, gap: Seq<char>)
    requires
        blank(gap),
        rest.len() == 0 || !white_space(rest.last()),
    ensures
        trim_end(rest + gap) == rest,
    decreases gap.len(),
{
    if gap.len() == 0 {
        assert(rest + gap =~= rest);
    } else {
        let less = gap.drop_last();
        assert(white_space(gap[gap.len() - 1]));
        assert((rest + gap).last() == gap.last());
        assert((rest + gap).drop_last() =~= rest + less);
        assert forall|i: int| 0 <= i < less.len() implies white_space(#[trigger] less[i]) by {
            assert(less[i] == gap[i]);
        }
        lemma_trim_end_blank(rest, less);
    }
}

/// All the white space around a text is trimmed off, and none inside it. Nothing is
/// left of white space alone.
pub proof fn law_white_space_around_is_trimmed(front: Seq<char>, kept: Seq<char>, back: Seq<char>)
    requires
        blank(front),
        blank(back),
        kept.len() > 0 ==> !white_space(kept.first()) && !white_space(kept.last()),
    ensures
        trim(front + kept + back) == kept,
{
    let rest = kept + back;
    if kept.len() == 0 {
        let gap = front + back;
        assert(front + kept + back =~= gap + Seq::empty());
        assert forall|i: int| 0 <= i < gap.len() implies white_space(#[trigger] gap[i]) by {
            if i < front.len() {
                assert(gap[i] == front[i]);
            } else {
                assert(gap[i] == back[i - front.len()]);
            }
        }
        lemma_trim_start_blank(gap, Seq::empty());
        assert(kept =~= Seq::empty());
        assert(trim_end(Seq::<char>::empty()) =~= Seq::empty());
    } else {
        assert(front + kept + back =~= front + rest);
        assert(rest[0] == kept[0]);
        lemma_trim_start_blank(front, rest);
        lemma_trim_end_blank(kept, back);
    }
}

/// What stands before the first stop is all up to it, and all there is if there is no
/// stop.
pub proof fn law_text_is_cut_at_the_first_stop(front: Seq<char>, stop: char, back: Seq<char>)
    requires
        !front.contains(stop),
    ensures
        before(front + seq![stop] + back, stop) == front,
        before(front, stop) == front,
{
    let whole = front + seq![stop] + back;
    let n = front.len() as int;
    assert forall|j: int| 0 <= j < n implies whole[j] != stop && front[j] != stop by {
        assert(front.contains(front[j]));
    }
    assert(whole[n] == stop);
    lemma_before(whole, stop, n);
    lemma_before(front, stop, n);
    assert(whole.take(n) =~= front);
    assert(front.take(n) =~= front);
}

/// A number is written digit by digit: ten times a number and a digit is written as
/// the number and the digit behind it.
pub proof fn law_decimal_is_written_digit_by_digit(n: nat, d: nat)
    requires
        d < 10,
    ensures
        decimal(d) == seq!["0123456789"@[d as int]],
        n > 0 ==> decimal(10 * n + d) == decimal(n).push("0123456789"@[d as int]),
{
    reveal_strlit("0123456789");
    assert(digit_char(d) == "0123456789"@[d as int]);
    assert((10 * n + d) / 10 == n);
    assert((10 * n + d) % 10 == d);
}

/// A number is read digit by digit: one more digit makes ten times the number and
/// the digit, if that is no more than 65535. A plus sign in front changes nothing.
pub proof fn law_number_is_read_digit_by_digit(text: Seq<char>, n: u16, d: nat)
    requires
        d < 10,
    ensures
        parsed_u16(seq!["0123456789"@[d as int]]) == Some(d as u16),
        parsed_u16(text) == Some(n) ==> parsed_u16(text.push("0123456789"@[d as int])) == if 10 * n
            + d <= 65535 {
            Some((10 * n + d) as u16)
        } else {
            None
        },
        text.len() > 0 && text[0] != '+' ==> parsed_u16(seq!['+'] + text) == parsed_u16(text),
{
    reveal_strlit("0123456789");
    let c = "0123456789"@[d as int];
    assert(is_digit(c) && c as u32 - '0' as u32 == d);
    let one = seq![c];
    assert(one.drop_last() =~= Seq::empty());
    assert(decimal_value(Seq::empty()) == 0);
    assert(decimal_value(one) == d);
    assert(digits_u16(one) == Some(d as u16));
    if parsed_u16(text) == Some(n) {
        let more = text.push(c);
        assert(more.first() == text.first());
        let digits = if text.first() == '+' {
            text.drop_first()
        } else {
            text
        };
        if text.first() == '+' {
            assert(more.drop_first() =~= digits.push(c));
        }
        assert(digits.push(c).drop_last() =~= digits);
        assert(decimal_value(digits.push(c)) == 10 * n + d);
        assert forall|i: int| 0 <= i < digits.push(c).len() implies is_digit(
            #[trigger] digits.push(c)[i],
        ) by {
            if i < digits.len() {
                assert(is_digit(digits[i]));
            }
        }
    }
    assert((seq!['+'] + text).drop_first() =~= text);
}

/// What is no number is refused: nothing at all, a sign alone, any character that is
/// no digit but a plus sign in front, and whatever goes on from what is refused.
pub proof fn law_no_number_is_refused(text: Seq<char>, i: int, c: char)
    ensures
        parsed_u16(Seq::empty()) is None,
        parsed_u16(seq!['+']) is None,
        0 <= i < text.len() && !('0' <= text[i] && text[i] <= '9') && (i > 0 || text[0] != '+')
            ==> parsed_u16(text) is None,
        parsed_u16(text) is None && text.len() > 0 && text != seq!['+'] ==> parsed_u16(
            text.push(c),
        ) is None,
{
    assert(seq!['+'].drop_first() =~= Seq::<char>::empty());
    if 0 <= i < text.len() && !('0' <= text[i] && text[i] <= '9') && (i > 0 || text[0] != '+') {
        if text[0] == '+' {
            assert(text.drop_first()[i - 1] == text[i]);
            assert(!is_digit(text.drop_first()[i - 1]));
        } else {
            assert(!is_digit(text[i]));
        }
    }
    if parsed_u16(text) is None && text.len() > 0 && text != seq!['+'] {
        let more = text.push(c);
        let digits = if text.first() == '+' {
            text.drop_first()
        } else {
            text
        };
        if digits.len() == 0 {
            assert(text =~= seq!['+']);
        }
        if text.first() == '+' {
            assert(more.drop_first() =~= digits.push(c));
        }
        assert(more.first() == text.first());
        let all = digits.push(c);
        if digits_u16(all) is Some {
            assert forall|k: int| 0 <= k < digits.len() implies is_digit(#[trigger] digits[k]) by {
                assert(is_digit(all[k]));
            }
            lemma_decimal_value_grows(all, digits.len() as int);
            assert(all.take(digits.len() as int) =~= digits);
        }
    }
}

/// Malformed bytes give the text of their well-formed front and what the rest of them
/// is repaired to. Well-formed ones give the text that they encode.
pub proof fn law_bytes_give_their_text(bytes: Seq<u8>, chars: Seq<char>)
    ensures
        !valid_utf8(bytes) ==> text_of(bytes) == front_text(bytes) + repaired_text(bytes),
        text_of(encode_utf8(chars)) == chars,
{
    encode_utf8_valid_utf8(chars);
    encode_utf8_decode_utf8(chars);
}

/// A text that may be missing is seen as it is.
pub proof fn law_optional_text_is_seen_whole(s: String)
    ensures
        optional(Some(s)) == Some(s@),
        optional(None) is None,
{
}

} // verus!
