//! Text: building messages, decimal numbers, searching and cutting.

use vstd::prelude::*;

verus! {

/// The decimal digit of a number below ten.
pub open spec fn digit(d: nat) -> char {
    (('0' as u32) + d) as char
}

/// The decimal notation of a number, without leading zeros.
pub open spec fn decimal(n: nat) -> Seq<char>
    decreases n,
{
    if n < 10 {
        seq![digit(n)]
    } else {
        decimal(n / 10).push(digit(n % 10))
    }
}

fn digit_text(d: u64) -> (r: &'static str)
    requires
        d < 10,
    ensures
        r@ == seq![digit(d as nat)],
{
    proof {
        reveal_strlit("0");
        reveal_strlit("1");
        reveal_strlit("2");
        reveal_strlit("3");
        reveal_strlit("4");
        reveal_strlit("5");
        reveal_strlit("6");
        reveal_strlit("7");
        reveal_strlit("8");
        reveal_strlit("9");
    }
    if d == 0 {
        "0"
    } else if d == 1 {
        "1"
    } else if d == 2 {
        "2"
    } else if d == 3 {
        "3"
    } else if d == 4 {
        "4"
    } else if d == 5 {
        "5"
    } else if d == 6 {
        "6"
    } else if d == 7 {
        "7"
    } else if d == 8 {
        "8"
    } else {
        "9"
    }
}

/// The decimal notation of `n`.
pub fn decimal_text(n: u64) -> (r: String)
    ensures
        r@ == decimal(n as nat),
    decreases n,
{
    if n < 10 {
        digit_text(n).to_owned()
    } else {
        let mut text = decimal_text(n / 10);
        text.append(digit_text(n % 10));
        text
    }
}

/// `prefix` followed by `rest`.
pub fn join2(prefix: &str, rest: &str) -> (r: String)
    ensures
        r@ == prefix@ + rest@,
{
    let mut text = prefix.to_owned();
    text.append(rest);
    text
}

/// `a`, `b` and `c`, one after the other.
pub fn join3(a: &str, b: &str, c: &str) -> (r: String)
    ensures
        r@ == a@ + b@ + c@,
{
    let mut text = a.to_owned();
    text.append(b);
    text.append(c);
    text
}

/// The characters of `text`.
pub fn chars_of(text: &str) -> (r: Vec<char>)
    ensures
        r@ == text@,
{
    let mut chars: Vec<char> = Vec::new();
    for c in it: text.chars()
        invariant
            chars@ == it.seq().take(it.index()),
            it.seq() == text@,
    {
        chars.push(c);
    }
    chars
}

/// The number of bytes of a character in UTF-8.
pub open spec fn width(c: char) -> nat {
    if (c as u32) < 0x80 {
        1
    } else if (c as u32) < 0x800 {
        2
    } else if (c as u32) < 0x10000 {
        3
    } else {
        4
    }
}

/// The number of bytes of a text in UTF-8.
pub open spec fn byte_len(text: Seq<char>) -> nat
    decreases text.len(),
{
    if text.len() == 0 {
        0
    } else {
        width(text[0]) + byte_len(text.drop_first())
    }
}

/// The encoding of a text has as many bytes as its length in bytes says.
pub proof fn lemma_byte_len(text: Seq<char>)
    ensures
        byte_len(text) == vstd::utf8::encode_utf8(text).len(),
    decreases text.len(),
{
    if text.len() > 0 {
        vstd::utf8::char_is_scalar(text[0]);
        lemma_byte_len(text.drop_first());
    }
}

/// The number of bytes of `text`.
pub fn byte_count(text: &str) -> (r: usize)
    ensures
        r == byte_len(text@),
{
    proof {
        lemma_byte_len(text@);
    }
    text.as_bytes().len()
}

fn char_width(c: char) -> (r: usize)
    ensures
        r == width(c),
{
    let code = c as u32;
    if code < 0x80 {
        1
    } else if code < 0x800 {
        2
    } else if code < 0x10000 {
        3
    } else {
        4
    }
}

/// How many characters at the front of a text fit into `limit` bytes.
pub open spec fn fitting(text: Seq<char>, limit: nat) -> nat
    decreases text.len(),
{
    if text.len() == 0 || width(text[0]) > limit {
        0
    } else {
        1 + fitting(text.drop_first(), (limit - width(text[0])) as nat)
    }
}

/// A text cut to `limit` bytes between characters, with a mark where something
/// was cut off; a text that fits is left as it is.
pub open spec fn cut(text: Seq<char>, limit: nat, mark: Seq<char>) -> Seq<char> {
    if byte_len(text) <= limit {
        text
    } else {
        text.take(fitting(text, limit) as int) + mark
    }
}

/// A text of at most `limit` bytes, with a mark where something was cut off. A
/// text that fits is left as it is; the mark itself counts, and is left out if it
/// does not fit.
pub open spec fn capped(text: Seq<char>, limit: nat, mark: Seq<char>) -> Seq<char> {
    if byte_len(text) <= limit {
        text
    } else if byte_len(mark) <= limit {
        text.take(fitting(text, (limit - byte_len(mark)) as nat) as int) + mark
    } else {
        text.take(fitting(text, limit) as int)
    }
}

fn count_fitting(text: &str, limit: usize) -> (r: usize)
    ensures
        r == fitting(text@, limit as nat),
        r <= text@.len(),
{
    let chars = chars_of(text);
    let mut i: usize = 0;
    let mut left: usize = limit;
    assert(text@.skip(0) =~= text@);
    while i < chars.len() && char_width(chars[i]) <= left
        invariant
            chars@ == text@,
            i <= chars@.len(),
            fitting(text@, limit as nat) == i + fitting(text@.skip(i as int), left as nat),
        decreases chars@.len() - i,
    {
        assert(text@.skip(i as int).drop_first() =~= text@.skip(i + 1));
        left = left - char_width(chars[i]);
        i += 1;
    }
    i
}

/// Cuts `text` to `limit` bytes between characters and puts `mark` where
/// something was cut off.
pub fn cut_text(text: &str, limit: usize, mark: &str) -> (r: String)
    ensures
        r@ == cut(text@, limit as nat, mark@),
{
    if byte_count(text) <= limit {
        text.to_owned()
    } else {
        let count = count_fitting(text, limit);
        let kept = text.substring_char(0, count);
        assert(text@.subrange(0, count as int) =~= text@.take(count as int));
        join2(kept, mark)
    }
}

/// Cuts `text` to `limit` bytes between characters. `mark`, where it fits, stands
/// at the end of a text that was cut, and counts.
pub fn cap_text(text: &str, limit: usize, mark: &str) -> (r: String)
    ensures
        r@ == capped(text@, limit as nat, mark@),
        byte_len(r@) <= limit,
{
    proof {
        law_cap_holds(text@, limit as nat, mark@);
    }
    if byte_count(text) <= limit {
        return text.to_owned();
    }
    let marked = byte_count(mark) <= limit;
    let room = if marked {
        limit - byte_count(mark)
    } else {
        limit
    };
    let count = count_fitting(text, room);
    let kept = text.substring_char(0, count);
    assert(text@.subrange(0, count as int) =~= text@.take(count as int));
    if marked {
        join2(kept, mark)
    } else {
        kept.to_owned()
    }
}

/// Cuts a text to `max` bytes on a character boundary, appending `...` if
/// something was cut off.
pub fn truncate_display(text: &str, max: usize) -> (r: String)
    ensures
        r@ == cut(text@, max as nat, "..."@),
{
    cut_text(text, max, "...")
}

/// What is kept of a text that is too long fits into the limit, and one
/// character more would not.
pub proof fn law_cut_keeps_as_much_as_fits(text: Seq<char>, limit: nat)
    requires
        byte_len(text) > limit,
    ensures
        fitting(text, limit) < text.len(),
        byte_len(text.take(fitting(text, limit) as int)) <= limit,
        byte_len(text.take(fitting(text, limit) as int + 1)) > limit,
    decreases text.len(),
{
    let n = fitting(text, limit);
    if text.len() > 0 {
        let rest = text.drop_first();
        let w = width(text[0]);
        if w <= limit {
            let left = (limit - w) as nat;
            law_cut_keeps_as_much_as_fits(rest, left);
            let m = fitting(rest, left);
            assert(text.take(n as int).drop_first() =~= rest.take(m as int));
            assert(text.take(n as int + 1).drop_first() =~= rest.take(m as int + 1));
        } else {
            assert(text.take(1).drop_first() =~= Seq::empty());
            reveal_with_fuel(byte_len, 2);
        }
    }
}

/// The bytes of two texts add up.
pub proof fn lemma_byte_len_adds(a: Seq<char>, b: Seq<char>)
    ensures
        byte_len(a + b) == byte_len(a) + byte_len(b),
    decreases a.len(),
{
    if a.len() == 0 {
        assert(a + b =~= b);
    } else {
        assert((a + b).drop_first() =~= a.drop_first() + b);
        lemma_byte_len_adds(a.drop_first(), b);
    }
}

/// A capped text has no more bytes than its limit, whatever the mark.
pub proof fn law_cap_holds(text: Seq<char>, limit: nat, mark: Seq<char>)
    ensures
        byte_len(capped(text, limit, mark)) <= limit,
{
    if byte_len(text) > limit {
        if byte_len(mark) <= limit {
            let room = (limit - byte_len(mark)) as nat;
            law_cut_keeps_as_much_as_fits(text, room);
            lemma_byte_len_adds(text.take(fitting(text, room) as int), mark);
        } else {
            law_cut_keeps_as_much_as_fits(text, limit);
        }
    }
}

/// Whether `pattern` stands in `text` at character `i`.
pub open spec fn occurs_at(text: Seq<char>, pattern: Seq<char>, i: int) -> bool {
    0 <= i && i + pattern.len() <= text.len() && text.subrange(i, i + pattern.len()) == pattern
}

/// Whether `pattern` stands somewhere in `text`.
pub open spec fn is_within(text: Seq<char>, pattern: Seq<char>) -> bool {
    exists|i: int| #[trigger] occurs_at(text, pattern, i)
}

/// Whether `pattern` stands in `text` at character `i`.
pub fn stands_at(text: &Vec<char>, pattern: &Vec<char>, i: usize) -> (r: bool)
    ensures
        r == occurs_at(text@, pattern@, i as int),
{
    if i > text.len() || pattern.len() > text.len() - i {
        return false;
    }
    let mut j: usize = 0;
    while j < pattern.len()
        invariant
            i + pattern@.len() <= text.len(),
            j <= pattern@.len(),
            forall|k: int| 0 <= k < j ==> text@[i + k] == #[trigger] pattern@[k],
        decreases pattern@.len() - j,
    {
        if text[i + j] != pattern[j] {
            proof {
                if occurs_at(text@, pattern@, i as int) {
                    assert(text@.subrange(i as int, i + pattern@.len())[j as int]
                        == pattern@[j as int]);
                }
            }
            return false;
        }
        j += 1;
    }
    assert(text@.subrange(i as int, i + pattern@.len()) =~= pattern@);
    true
}

/// Whether `pattern` stands somewhere in `text`.
pub fn contains(text: &str, pattern: &str) -> (r: bool)
    ensures
        r == is_within(text@, pattern@),
{
    let chars = chars_of(text);
    let wanted = chars_of(pattern);
    let mut i: usize = 0;
    while i < chars.len()
        invariant
            chars@ == text@,
            wanted@ == pattern@,
            i <= chars@.len(),
            forall|j: int| 0 <= j < i ==> !#[trigger] occurs_at(text@, pattern@, j),
        decreases chars@.len() - i,
    {
        if stands_at(&chars, &wanted, i) {
            return true;
        }
        i += 1;
    }
    if stands_at(&chars, &wanted, i) {
        return true;
    }
    assert forall|j: int| !#[trigger] occurs_at(text@, pattern@, j) by {
        if j == i {
            assert(!occurs_at(text@, pattern@, i as int));
        }
    }
    false
}

/// Whether a character is white space in the sense of Unicode.
pub open spec fn is_white(c: char) -> bool {
    let code = c as u32;
    ||| 0x9 <= code <= 0xd
    ||| code == 0x20
    ||| code == 0x85
    ||| code == 0xa0
    ||| code == 0x1680
    ||| 0x2000 <= code <= 0x200a
    ||| code == 0x2028
    ||| code == 0x2029
    ||| code == 0x202f
    ||| code == 0x205f
    ||| code == 0x3000
}

/// Whether a text consists of white space alone.
pub open spec fn is_blank_text(text: Seq<char>) -> bool {
    forall|i: int| 0 <= i < text.len() ==> is_white(#[trigger] text[i])
}

fn white(c: char) -> (r: bool)
    ensures
        r == is_white(c),
{
    let code = c as u32;
    (0x9 <= code && code <= 0xd) || code == 0x20 || code == 0x85 || code == 0xa0 || code == 0x1680
        || (0x2000 <= code && code <= 0x200a) || code == 0x2028 || code == 0x2029 || code == 0x202f
        || code == 0x205f || code == 0x3000
}

/// Whether `text` consists of white space alone.
pub fn is_blank(text: &str) -> (r: bool)
    ensures
        r == is_blank_text(text@),
{
    let chars = chars_of(text);
    let mut i: usize = 0;
    while i < chars.len()
        invariant
            chars@ == text@,
            i <= chars@.len(),
            forall|j: int| 0 <= j < i ==> is_white(#[trigger] text@[j]),
        decreases chars@.len() - i,
    {
        if !white(chars[i]) {
            assert(!is_white(text@[i as int]));
            return false;
        }
        i += 1;
    }
    true
}

/// Whether every character is a decimal digit, and there is one.
pub open spec fn is_number(text: Seq<char>) -> bool {
    text.len() > 0 && forall|i: int| 0 <= i < text.len() ==> '0' <= #[trigger] text[i] <= '9'
}

/// The number that decimal digits stand for.
pub open spec fn number_of(digits: Seq<char>) -> nat
    decreases digits.len(),
{
    if digits.len() == 0 {
        0
    } else {
        10 * number_of(digits.drop_last()) + (digits.last() as u32 - '0' as u32) as nat
    }
}

/// A text without a plus sign at its front.
pub open spec fn without_plus(text: Seq<char>) -> Seq<char> {
    if text.len() > 0 && text[0] == '+' {
        text.drop_first()
    } else {
        text
    }
}

/// The 16-bit number that a text stands for: digits, with or without a plus
/// sign.
pub open spec fn parsed_u16(text: Seq<char>) -> Option<u16> {
    let digits = without_plus(text);
    if is_number(digits) && number_of(digits) <= u16::MAX {
        Some(number_of(digits) as u16)
    } else {
        None
    }
}

proof fn lemma_number_grows(digits: Seq<char>, i: int)
    requires
        0 <= i <= digits.len(),
        forall|j: int| 0 <= j < digits.len() ==> '0' <= #[trigger] digits[j] <= '9',
    ensures
        number_of(digits.take(i)) <= number_of(digits),
    decreases digits.len(),
{
    if i < digits.len() {
        lemma_number_grows(digits.drop_last(), i);
        assert(digits.drop_last().take(i) =~= digits.take(i));
    } else {
        assert(digits.take(i) =~= digits);
    }
}

/// Reads a 16-bit number.
pub fn parse_u16(text: &str) -> (r: Option<u16>)
    ensures
        r == parsed_u16(text@),
{
    let chars = chars_of(text);
    let start: usize = if chars.len() > 0 && chars[0] == '+' {
        1
    } else {
        0
    };
    let ghost digits = without_plus(text@);
    assert(digits =~= text@.skip(start as int));
    if start == chars.len() {
        return None;
    }
    let mut value: u32 = 0;
    let mut i: usize = start;
    assert(digits.take(0) =~= Seq::empty());
    while i < chars.len()
        invariant
            chars@ == text@,
            start <= i <= chars@.len(),
            start <= 1,
            digits == text@.skip(start as int),
            digits == without_plus(text@),
            forall|j: int| 0 <= j < i - start ==> '0' <= #[trigger] digits[j] <= '9',
            value <= u16::MAX,
            value == number_of(digits.take(i - start)),
        decreases chars@.len() - i,
    {
        let c = chars[i];
        assert(c == digits[i - start]);
        if c < '0' || c > '9' {
            return None;
        }
        value = value * 10 + (c as u32 - '0' as u32);
        proof {
            assert(digits.take(i - start + 1).drop_last() =~= digits.take(i - start));
            assert(digits.take(i - start + 1).last() == c);
        }
        if value > u16::MAX as u32 {
            proof {
                if is_number(digits) {
                    lemma_number_grows(digits, i - start + 1);
                }
            }
            return None;
        }
        i += 1;
    }
    assert(digits.take(i - start) =~= digits);
    Some(value as u16)
}

/// The order of texts: by the first character in which they differ; a text comes
/// after its own beginnings.
pub open spec fn comes_before(a: Seq<char>, b: Seq<char>) -> bool
    decreases a.len(),
{
    if b.len() == 0 {
        false
    } else if a.len() == 0 {
        true
    } else if a[0] == b[0] {
        comes_before(a.drop_first(), b.drop_first())
    } else {
        (a[0] as u32) < (b[0] as u32)
    }
}

/// Of two different texts one comes before the other.
pub proof fn lemma_order_total(a: Seq<char>, b: Seq<char>)
    requires
        a != b,
    ensures
        comes_before(a, b) || comes_before(b, a),
    decreases a.len(),
{
    if a.len() > 0 && b.len() > 0 && a[0] == b[0] {
        if a.drop_first() == b.drop_first() {
            assert(a =~= seq![a[0]] + a.drop_first());
            assert(b =~= seq![b[0]] + b.drop_first());
        }
        lemma_order_total(a.drop_first(), b.drop_first());
    } else if a.len() == 0 && b.len() == 0 {
        assert(a =~= b);
    } else if a.len() > 0 && b.len() > 0 {
        vstd::utf8::char_u32_cast(a[0], a[0] as u32);
        vstd::utf8::char_u32_cast(b[0], b[0] as u32);
    }
}

/// The order of texts is transitive.
pub proof fn lemma_order_transitive(a: Seq<char>, b: Seq<char>, c: Seq<char>)
    requires
        comes_before(a, b),
        comes_before(b, c),
    ensures
        comes_before(a, c),
    decreases a.len(),
{
    if a.len() > 0 && a[0] == b[0] && b[0] == c[0] {
        lemma_order_transitive(a.drop_first(), b.drop_first(), c.drop_first());
    }
}

/// No text comes before itself.
pub proof fn lemma_order_irreflexive(a: Seq<char>)
    ensures
        !comes_before(a, a),
    decreases a.len(),
{
    if a.len() > 0 {
        lemma_order_irreflexive(a.drop_first());
    }
}

/// Whether `a` comes before `b`.
pub fn is_before(a: &str, b: &str) -> (r: bool)
    ensures
        r == comes_before(a@, b@),
{
    let left = chars_of(a);
    let right = chars_of(b);
    let mut i: usize = 0;
    assert(a@.skip(0) =~= a@);
    assert(b@.skip(0) =~= b@);
    while i < left.len() && i < right.len()
        invariant
            left@ == a@,
            right@ == b@,
            i <= left@.len(),
            i <= right@.len(),
            comes_before(a@, b@) == comes_before(a@.skip(i as int), b@.skip(i as int)),
        decreases left@.len() - i,
    {
        if left[i] != right[i] {
            return (left[i] as u32) < (right[i] as u32);
        }
        assert(a@.skip(i as int).drop_first() =~= a@.skip(i + 1));
        assert(b@.skip(i as int).drop_first() =~= b@.skip(i + 1));
        i += 1;
    }
    i < right.len()
}

/// The decimal notation of a number reads back as the number, and a plus sign before
/// it changes nothing.
pub proof fn law_decimal_reads_back(n: nat)
    ensures
        is_number(decimal(n)),
        number_of(decimal(n)) == n,
        n <= u16::MAX ==> parsed_u16(decimal(n)) == Some(n as u16),
        n <= u16::MAX ==> parsed_u16(seq!['+'] + decimal(n)) == Some(n as u16),
        n > u16::MAX ==> parsed_u16(decimal(n)) is None,
    decreases n,
{
    let digits = decimal(n);
    assert(forall|d: nat| d < 10 ==> '0' <= #[trigger] digit(d) <= '9' && digit(d) as u32
        == '0' as u32 + d);
    if n < 10 {
        assert(digits.drop_last() =~= Seq::empty());
        assert(digits.last() == digit(n));
        assert(number_of(digits.drop_last()) == 0);
    } else {
        law_decimal_reads_back(n / 10);
        assert(digits.drop_last() =~= decimal(n / 10));
        assert(digits.last() == digit(n % 10));
        assert forall|i: int| 0 <= i < digits.len() implies '0' <= #[trigger] digits[i] <= '9' by {
            if i < digits.len() - 1 {
                assert(digits[i] == decimal(n / 10)[i]);
            }
        }
    }
    assert(digits[0] != '+');
    let signed = seq!['+'] + digits;
    assert(signed.drop_first() =~= digits);
}

/// A text that is cut is a beginning of it with the mark behind it. As much is kept
/// as fits: one character more would not. A text that fits is not changed.
pub proof fn law_cut_is_a_beginning_and_the_mark(text: Seq<char>, limit: nat, mark: Seq<char>)
    ensures
        byte_len(text) <= limit ==> cut(text, limit, mark) == text,
        byte_len(text) > limit ==> exists|k: int|
            0 <= k < text.len() && byte_len(#[trigger] text.take(k)) <= limit && byte_len(
                text.take(k + 1),
            ) > limit && cut(text, limit, mark) == text.take(k) + mark,
{
    if byte_len(text) > limit {
        law_cut_keeps_as_much_as_fits(text, limit);
        let k = fitting(text, limit) as int;
        assert(byte_len(text.take(k)) <= limit);
    }
}

/// A text that is capped is a beginning of it, with the mark behind it where the mark
/// fits. As much is kept as then fits: one character more would not. A text that fits
/// is not changed.
pub proof fn law_cap_keeps_the_beginning(text: Seq<char>, limit: nat, mark: Seq<char>)
    ensures
        byte_len(text) <= limit ==> capped(text, limit, mark) == text,
        byte_len(text) > limit && byte_len(mark) <= limit ==> exists|k: int|
            0 <= k < text.len() && byte_len(#[trigger] text.take(k)) + byte_len(mark) <= limit
                && byte_len(text.take(k + 1)) + byte_len(mark) > limit && capped(
                text,
                limit,
                mark,
            ) == text.take(k) + mark,
        byte_len(text) > limit && byte_len(mark) > limit ==> exists|k: int|
            0 <= k < text.len() && byte_len(#[trigger] text.take(k)) <= limit && byte_len(
                text.take(k + 1),
            ) > limit && capped(text, limit, mark) == text.take(k),
{
    if byte_len(text) > limit {
        if byte_len(mark) <= limit {
            let room = (limit - byte_len(mark)) as nat;
            law_cut_keeps_as_much_as_fits(text, room);
            let k = fitting(text, room) as int;
            assert(byte_len(text.take(k)) + byte_len(mark) <= limit);
        } else {
            law_cut_keeps_as_much_as_fits(text, limit);
            let k = fitting(text, limit) as int;
            assert(byte_len(text.take(k)) <= limit);
        }
    }
}

/// A pattern stands in a text if and only if the text is something before it, the
/// pattern, and something after it.
pub proof fn law_occurrences_split_the_text(
    before: Seq<char>,
    pattern: Seq<char>,
    after: Seq<char>,
    text: Seq<char>,
    i: int,
)
    ensures
        occurs_at(before + pattern + after, pattern, before.len() as int),
        is_within(before + pattern + after, pattern),
        occurs_at(text, pattern, i) ==> 0 <= i && i + pattern.len() <= text.len() && text
            == text.take(i) + pattern + text.skip(i + pattern.len()),
{
    let whole = before + pattern + after;
    assert(whole.subrange(before.len() as int, (before.len() + pattern.len()) as int) =~= pattern);
    assert(occurs_at(whole, pattern, before.len() as int));
    if occurs_at(text, pattern, i) {
        assert(text =~= text.take(i) + text.subrange(i, i + pattern.len()) + text.skip(
            i + pattern.len(),
        ));
    }
}

/// Texts are ordered by the first character in which they differ, and the shorter
/// comes first where one is a beginning of the other.
pub proof fn law_order_is_that_of_a_dictionary(a: Seq<char>, b: Seq<char>, i: int)
    requires
        0 <= i <= a.len(),
        i <= b.len(),
        a.take(i) == b.take(i),
    ensures
        i < a.len() && i < b.len() && (a[i] as u32) < (b[i] as u32) ==> comes_before(a, b)
            && !comes_before(b, a),
        i == a.len() && i < b.len() ==> comes_before(a, b) && !comes_before(b, a),
        i == a.len() && i == b.len() ==> !comes_before(a, b),
    decreases i,
{
    if i > 0 {
        assert(a[0] == a.take(i)[0]);
        assert(b[0] == b.take(i)[0]);
        assert(a.drop_first().take(i - 1) =~= a.take(i).drop_first());
        assert(b.drop_first().take(i - 1) =~= b.take(i).drop_first());
        law_order_is_that_of_a_dictionary(a.drop_first(), b.drop_first(), i - 1);
    }
}

/// White space is what a line is broken and words are parted with; whatever can be
/// seen of ASCII is not. A text is blank if and only if its parts are.
pub proof fn law_blank_texts_show_nothing(a: Seq<char>, b: Seq<char>, c: char)
    ensures
        c == ' ' || c == '\t' || c == '\n' || c == '\r' ==> is_white(c),
        0x21 <= c as u32 <= 0x7e ==> !is_white(c),
        is_blank_text(Seq::empty()),
        is_blank_text(a + b) <==> is_blank_text(a) && is_blank_text(b),
        is_blank_text(seq![c]) <==> is_white(c),
{
    if is_blank_text(a + b) {
        assert forall|i: int| 0 <= i < a.len() implies is_white(#[trigger] a[i]) by {
            assert((a + b)[i] == a[i]);
        }
        assert forall|i: int| 0 <= i < b.len() implies is_white(#[trigger] b[i]) by {
            assert((a + b)[a.len() + i] == b[i]);
        }
    }
    if is_white(c) {
        assert(is_blank_text(seq![c]));
    } else {
        assert(!is_white(seq![c][0]));
    }
}

} // verus!
