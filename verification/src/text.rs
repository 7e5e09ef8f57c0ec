//! Helpers on texts, stated over their characters.
use vstd::prelude::*;

use crate::decimal::{digit, digits};

verus! {

/// The characters of an optional text.
pub open spec fn text_of(value: Option<String>) -> Option<Seq<char>> {
    match value {
        Some(text) => Some(text@),
        None => None,
    }
}

/// The characters of each text of a list.
pub open spec fn texts_of(values: Seq<String>) -> Seq<Seq<char>> {
    values.map_values(|value: String| value@)
}

/// Whether two texts have the same characters.
pub fn same(left: &str, right: &str) -> (result: bool)
    ensures
        result == (left@ == right@),
{
    left.to_owned() == right.to_owned()
}

/// Whether two optional texts are both absent, or both present and the same.
pub fn same_option(left: &Option<String>, right: &Option<String>) -> (result: bool)
    ensures
        result == (text_of(*left) == text_of(*right)),
{
    match (left, right) {
        (Some(a), Some(b)) => same(a.as_str(), b.as_str()),
        (None, None) => true,
        _ => false,
    }
}

/// Whether `text` begins with `prefix`.
pub fn starts_with(text: &str, prefix: &str) -> (result: bool)
    ensures
        result == prefix@.is_prefix_of(text@),
{
    let width: usize = prefix.unicode_len();
    if text.unicode_len() < width {
        return false;
    }
    let mut i: usize = 0;
    while i < width
        invariant
            i <= width == prefix@.len() <= text@.len(),
            forall|j: int| 0 <= j < i ==> prefix@[j] == text@[j],
        decreases width - i,
    {
        if prefix.get_char(i) != text.get_char(i) {
            return false;
        }
        i = i + 1;
    }
    proof {
        assert(prefix@ =~= text@.subrange(0, prefix@.len() as int));
    }
    true
}

/// Whether `left` stands before `right` in the order of their characters from `start` on.
pub open spec fn precedes_from(left: Seq<char>, right: Seq<char>, start: int) -> bool
    decreases right.len() - start,
{
    if start >= right.len() {
        false
    } else if start >= left.len() {
        true
    } else if left[start] != right[start] {
        (left[start] as int) < (right[start] as int)
    } else {
        precedes_from(left, right, start + 1)
    }
}

/// Whether `left` stands before `right` in the order of their characters.
pub open spec fn precedes(left: Seq<char>, right: Seq<char>) -> bool {
    precedes_from(left, right, 0)
}

/// Whether `left` stands before `right` in the order of their characters.
pub fn is_before(left: &str, right: &str) -> (result: bool)
    ensures
        result == precedes(left@, right@),
{
    let left_width: usize = left.unicode_len();
    let right_width: usize = right.unicode_len();
    let mut i: usize = 0;
    while i < right_width && i < left_width
        invariant
            i <= left_width == left@.len(),
            i <= right_width == right@.len(),
            precedes(left@, right@) == precedes_from(left@, right@, i as int),
        decreases right_width - i,
    {
        let a: u32 = left.get_char(i) as u32;
        let b: u32 = right.get_char(i) as u32;
        if a != b {
            return a < b;
        }
        i = i + 1;
    }
    i < right_width
}

proof fn lemma_order(a: Seq<char>, b: Seq<char>, c: Seq<char>, start: int)
    requires
        0 <= start,
        !precedes_from(b, a, start),
        !precedes_from(c, b, start),
    ensures
        !precedes_from(c, a, start),
    decreases a.len() - start,
{
    if start < a.len() && start < b.len() && start < c.len() {
        if a[start] == b[start] && b[start] == c[start] {
            lemma_order(a, b, c, start + 1);
        }
    }
}

/// The order of texts is transitive, and of two texts at most one stands before the other.
pub proof fn text_order(a: Seq<char>, b: Seq<char>, c: Seq<char>)
    ensures
        !precedes(b, a) && !precedes(c, b) ==> !precedes(c, a),
        !(precedes(a, b) && precedes(b, a)),
{
    if !precedes(b, a) && !precedes(c, b) {
        lemma_order(a, b, c, 0);
    }
    lemma_one_way(a, b, 0);
}

/// Of two texts that differ, one stands before the other.
pub proof fn text_order_is_total(a: Seq<char>, b: Seq<char>)
    ensures
        precedes(a, b) || precedes(b, a) || a == b,
{
    if !precedes(a, b) && !precedes(b, a) {
        lemma_same_from(a, b, 0);
        assert(a =~= b);
    }
}

proof fn lemma_same_from(a: Seq<char>, b: Seq<char>, start: int)
    requires
        0 <= start,
        !precedes_from(a, b, start),
        !precedes_from(b, a, start),
        start <= a.len(),
        start <= b.len(),
    ensures
        a.len() == b.len(),
        forall|i: int| start <= i < a.len() ==> a[i] == b[i],
    decreases a.len() - start,
{
    if start < a.len() && start < b.len() {
        assert(a[start] == b[start]);
        lemma_same_from(a, b, start + 1);
    }
}

proof fn lemma_one_way(a: Seq<char>, b: Seq<char>, start: int)
    requires
        0 <= start,
    ensures
        !(precedes_from(a, b, start) && precedes_from(b, a, start)),
    decreases a.len() - start,
{
    if start < a.len() && start < b.len() && a[start] == b[start] {
        lemma_one_way(a, b, start + 1);
    }
}

/// Two texts that differ at most in the case of ASCII letters.
pub open spec fn same_ignoring_case(left: Seq<char>, right: Seq<char>) -> bool {
    left.len() == right.len() && forall|i: int|
        0 <= i < left.len() ==> lower_char(#[trigger] left[i]) == lower_char(right[i])
}

/// Whether two characters differ at most in the case of an ASCII letter.
fn chars_match(left: char, right: char) -> (result: bool)
    ensures
        result == (lower_char(left) == lower_char(right)),
{
    let a: u32 = left as u32;
    let b: u32 = right as u32;
    a == b || ('A' <= left && left <= 'Z' && a + 32 == b) || ('A' <= right && right <= 'Z' && b + 32
        == a)
}

/// Whether two texts differ at most in the case of ASCII letters.
pub fn eq_ignore_ascii_case(left: &str, right: &str) -> (result: bool)
    ensures
        result == same_ignoring_case(left@, right@),
{
    let width: usize = left.unicode_len();
    if right.unicode_len() != width {
        return false;
    }
    let mut i: usize = 0;
    while i < width
        invariant
            i <= width == left@.len() == right@.len(),
            forall|j: int| 0 <= j < i ==> lower_char(#[trigger] left@[j]) == lower_char(right@[j]),
        decreases width - i,
    {
        if !chars_match(left.get_char(i), right.get_char(i)) {
            return false;
        }
        i = i + 1;
    }
    true
}

/// The upper-case form of a text, as Unicode defines it.
pub uninterp spec fn upper_text(text: Seq<char>) -> Seq<char>;

pub open spec fn is_ascii_text(text: Seq<char>) -> bool {
    forall|i: int| 0 <= i < text.len() ==> (#[trigger] text[i] as nat) < 128
}

/// The upper-case form of an ASCII character.
pub open spec fn upper_char(c: char) -> char {
    if 'a' <= c <= 'z' {
        (c as nat - 32) as char
    } else {
        c
    }
}

/// The lower-case form of an ASCII character; other characters stay as they are.
pub open spec fn lower_char(c: char) -> char {
    if 'A' <= c <= 'Z' {
        (c as nat + 32) as char
    } else {
        c
    }
}

/// The upper-case form of a text.
///
/// Trusted: `str::to_uppercase`. It is claimed that the result depends on the text alone, and
/// that of an ASCII text it is that of each character. What it makes of other characters is
/// left unsaid.
#[verifier::external_body]
fn outer_uppercase(text: &str) -> (result: String)
    ensures
        result@ == upper_text(text@),
        is_ascii_text(text@) ==> result@ == text@.map_values(|c: char| upper_char(c)),
{
    text.to_uppercase()
}

/// The upper-case form of a text.
pub fn uppercase(text: &str) -> (result: String)
    ensures
        result@ == upper_text(text@),
        is_ascii_text(text@) ==> result@ == text@.map_values(|c: char| upper_char(c)),
{
    outer_uppercase(text)
}

/// A copy of an optional text.
pub fn copy_option(value: &Option<String>) -> (result: Option<String>)
    ensures
        result == *value,
{
    match value {
        Some(text) => Some(text.clone()),
        None => None,
    }
}

/// A copy of a list of texts.
pub fn copy_list(values: &Vec<String>) -> (result: Vec<String>)
    ensures
        result@ == values@,
{
    let mut result: Vec<String> = Vec::new();
    let mut i: usize = 0;
    while i < values.len()
        invariant
            i <= values@.len(),
            result@ == values@.take(i as int),
        decreases values@.len() - i,
    {
        result.push(values[i].clone());
        i = i + 1;
    }
    proof {
        assert(values@.take(i as int) =~= values@);
    }
    result
}

/// `value` in decimal notation.
pub open spec fn int_text(value: int) -> Seq<char> {
    if value < 0 {
        seq!['-'] + digits((-value) as nat)
    } else {
        digits(value as nat)
    }
}

/// One decimal digit.
fn digit_text(n: u64) -> (result: String)
    requires
        n < 10,
    ensures
        result@ == seq![digit(n as nat)],
{
    let all = "0123456789";
    proof {
        reveal_strlit("0123456789");
        assert(all@[n as int] == (48 + n) as char);
    }
    let place: usize = n as usize;
    let one = all.substring_char(place, place + 1);
    proof {
        assert(one@ =~= seq![digit(n as nat)]);
    }
    one.to_owned()
}

/// A number without a sign in decimal notation.
fn digits_text(n: u64) -> (result: String)
    ensures
        result@ == digits(n as nat),
    decreases n,
{
    if n < 10 {
        digit_text(n)
    } else {
        let last = digit_text(n % 10);
        let mut text = digits_text(n / 10);
        text.append(last.as_str());
        proof {
            assert(text@ =~= digits(n as nat / 10).push(digit(n as nat)));
        }
        text
    }
}

/// `value` in decimal notation.
pub fn integer_text(value: i64) -> (result: String)
    ensures
        result@ == int_text(value as int),
{
    if value < 0 {
        let size: u64 = (-(value as i128)) as u64;
        let text = "-".to_owned().concat(digits_text(size).as_str());
        proof {
            reveal_strlit("-");
            assert("-"@ =~= seq!['-']);
        }
        text
    } else {
        digits_text(value as u64)
    }
}

/// `prefix`, `left`, a slash between spaces, `right`.
pub open spec fn contrast(prefix: Seq<char>, left: Seq<char>, right: Seq<char>) -> Seq<char> {
    prefix + left + " / "@ + right
}

/// Two values that differ, behind a label.
pub fn contrast_text(prefix: &str, left: &str, right: &str) -> (result: String)
    ensures
        result@ == contrast(prefix@, left@, right@),
{
    prefix.to_owned().concat(left).concat(" / ").concat(right)
}

/// One note where something applies, nothing where it does not.
pub open spec fn note_if(applies: bool, note: Seq<char>) -> Seq<Seq<char>> {
    if applies {
        seq![note]
    } else {
        Seq::empty()
    }
}

/// Adds a note where something applies.
pub fn push_note(notes: &mut Vec<String>, applies: bool, note: &str)
    ensures
        texts_of(final(notes)@) == texts_of(old(notes)@) + note_if(applies, note@),
{
    if applies {
        notes.push(note.to_owned());
    }
    proof {
        assert(texts_of(notes@) =~= texts_of(old(notes)@) + note_if(applies, note@));
    }
}

/// An empty list of notes.
pub fn no_notes() -> (result: Vec<String>)
    ensures
        result@.len() == 0,
        texts_of(result@) == Seq::<Seq<char>>::empty(),
{
    let result: Vec<String> = Vec::new();
    proof {
        assert(texts_of(result@) =~= Seq::<Seq<char>>::empty());
    }
    result
}

/// Whether `pattern` occurs in `text` at `start`.
pub open spec fn occurs_at(text: Seq<char>, pattern: Seq<char>, start: int) -> bool {
    0 <= start && start + pattern.len() <= text.len() && text.subrange(
        start,
        start + pattern.len(),
    ) == pattern
}

/// Whether `pattern` occurs anywhere in `text`.
pub open spec fn occurs_in(text: Seq<char>, pattern: Seq<char>) -> bool {
    exists|start: int| occurs_at(text, pattern, start)
}

/// The characters of a text.
fn characters(text: &str) -> (result: Vec<char>)
    ensures
        result@ == text@,
{
    let width: usize = text.unicode_len();
    let mut result: Vec<char> = Vec::new();
    let mut i: usize = 0;
    while i < width
        invariant
            i <= width == text@.len(),
            result@ == text@.take(i as int),
        decreases width - i,
    {
        result.push(text.get_char(i));
        i = i + 1;
    }
    proof {
        assert(text@.take(i as int) =~= text@);
    }
    result
}

/// Whether `pattern` stands in a list of characters at `start`.
fn stands_at(text: &Vec<char>, pattern: &Vec<char>, start: usize) -> (result: bool)
    requires
        start + pattern@.len() <= text@.len(),
    ensures
        result == occurs_at(text@, pattern@, start as int),
{
    let width: usize = text.len();
    let mut i: usize = 0;
    while i < pattern.len()
        invariant
            i <= pattern@.len(),
            start + pattern@.len() <= text@.len() == width,
            forall|j: int| 0 <= j < i ==> text@[start + j] == pattern@[j],
        decreases pattern@.len() - i,
    {
        if text[start + i] != pattern[i] {
            proof {
                let there = text@.subrange(start as int, start + pattern@.len());
                assert(there[i as int] != pattern@[i as int]);
            }
            return false;
        }
        i = i + 1;
    }
    proof {
        assert(text@.subrange(start as int, start + pattern@.len()) =~= pattern@);
    }
    true
}

/// Whether `pattern` occurs anywhere in `text`.
pub fn contains(text: &str, pattern: &str) -> (result: bool)
    ensures
        result == occurs_in(text@, pattern@),
{
    let whole = characters(text);
    let part = characters(pattern);
    if whole.len() < part.len() {
        return false;
    }
    let last: usize = whole.len() - part.len();
    let mut start: usize = 0;
    while start <= last
        invariant
            whole@ == text@,
            part@ == pattern@,
            last + part@.len() == whole@.len(),
            start <= last + 1,
            forall|j: int| 0 <= j < start ==> !occurs_at(text@, pattern@, j),
        decreases last + 1 - start,
    {
        if stands_at(&whole, &part, start) {
            return true;
        }
        if start == last {
            return false;
        }
        start = start + 1;
    }
    false
}

/// The lower-case form of a text, ASCII letters only.
pub open spec fn ascii_lower(text: Seq<char>) -> Seq<char> {
    text.map_values(|c: char| lower_char(c))
}

/// The upper-case form of a text, ASCII letters only.
pub open spec fn ascii_upper(text: Seq<char>) -> Seq<char> {
    text.map_values(|c: char| upper_char(c))
}

/// The letter at a place of the alphabet.
fn letter_text(place: usize, upper: bool) -> (result: String)
    requires
        place < 26,
    ensures
        result@ == seq![
            if upper {
                (65 + place) as char
            } else {
                (97 + place) as char
            },
        ],
{
    let letters = if upper {
        "ABCDEFGHIJKLMNOPQRSTUVWXYZ"
    } else {
        "abcdefghijklmnopqrstuvwxyz"
    };
    proof {
        reveal_strlit("ABCDEFGHIJKLMNOPQRSTUVWXYZ");
        reveal_strlit("abcdefghijklmnopqrstuvwxyz");
    }
    let one = letters.substring_char(place, place + 1);
    proof {
        assert(one@ =~= seq![letters@[place as int]]);
    }
    one.to_owned()
}

/// The upper-case or lower-case form of a text, ASCII letters only.
fn in_case(text: &str, upper: bool) -> (result: String)
    ensures
        result@ == (if upper {
            ascii_upper(text@)
        } else {
            ascii_lower(text@)
        }),
{
    let width: usize = text.unicode_len();
    let mut result = String::new();
    let mut i: usize = 0;
    let ghost goal = if upper {
        ascii_upper(text@)
    } else {
        ascii_lower(text@)
    };
    while i < width
        invariant
            i <= width == text@.len(),
            goal == (if upper {
                ascii_upper(text@)
            } else {
                ascii_lower(text@)
            }),
            result@ == goal.take(i as int),
        decreases width - i,
    {
        let code: u32 = text.get_char(i) as u32;
        let first: u32 = if upper {
            97
        } else {
            65
        };
        if first <= code && code < first + 26 {
            let letter = letter_text((code - first) as usize, upper);
            result.append(letter.as_str());
        } else {
            result.append(text.substring_char(i, i + 1));
        }
        proof {
            assert(goal.take(i + 1) =~= goal.take(i as int).push(goal[i as int]));
            assert(result@ =~= goal.take(i as int).push(goal[i as int]));
        }
        i = i + 1;
    }
    proof {
        assert(goal.take(i as int) =~= goal);
    }
    result
}

/// The lower-case form of a text, ASCII letters only.
pub fn ascii_lowercase(text: &str) -> (result: String)
    ensures
        result@ == ascii_lower(text@),
{
    in_case(text, false)
}

/// The upper-case form of a text, ASCII letters only.
pub fn ascii_uppercase(text: &str) -> (result: String)
    ensures
        result@ == ascii_upper(text@),
{
    in_case(text, true)
}

/// A text without a suffix, where it ends in it.
pub open spec fn without_suffix(text: Seq<char>, suffix: Seq<char>) -> Seq<char> {
    let head = text.len() - suffix.len();
    if head >= 0 && text.subrange(head, text.len() as int) == suffix {
        text.subrange(0, head)
    } else {
        text
    }
}

/// A text without a suffix, where it ends in it.
pub fn strip_suffix(text: &str, suffix: &str) -> (result: String)
    ensures
        result@ == without_suffix(text@, suffix@),
{
    let width: usize = text.unicode_len();
    let tail: usize = suffix.unicode_len();
    if width < tail {
        return text.to_owned();
    }
    let head: usize = width - tail;
    if same(text.substring_char(head, width), suffix) {
        text.substring_char(0, head).to_owned()
    } else {
        text.to_owned()
    }
}

/// What follows the last `separator` of a text; the whole text where there is none.
pub open spec fn after_last(text: Seq<char>, separator: char) -> Seq<char>
    decreases text.len(),
{
    if text.len() == 0 || text.last() == separator {
        Seq::empty()
    } else {
        after_last(text.drop_last(), separator).push(text.last())
    }
}

proof fn lemma_after_last(text: Seq<char>, separator: char, start: int)
    requires
        0 <= start <= text.len(),
        start == 0 || text[start - 1] == separator,
        forall|i: int| start <= i < text.len() ==> text[i] != separator,
    ensures
        after_last(text, separator) == text.subrange(start, text.len() as int),
    decreases text.len(),
{
    if start == text.len() {
        assert(text.subrange(start, text.len() as int) =~= Seq::<char>::empty());
    } else {
        assert(text.last() == text[text.len() - 1]);
        lemma_after_last(text.drop_last(), separator, start);
        assert(text.drop_last().subrange(start, text.len() - 1).push(text.last())
            =~= text.subrange(start, text.len() as int));
    }
}

/// What follows the last `separator` of a text; the whole text where there is none.
pub fn tail_after(text: &str, separator: char) -> (result: String)
    ensures
        result@ == after_last(text@, separator),
{
    let width: usize = text.unicode_len();
    let mut start: usize = width;
    while start > 0 && text.get_char(start - 1) != separator
        invariant
            start <= width == text@.len(),
            forall|i: int| start <= i < width ==> text@[i] != separator,
        decreases start,
    {
        start = start - 1;
    }
    proof {
        lemma_after_last(text@, separator, start as int);
    }
    text.substring_char(start, width).to_owned()
}

pub open spec fn is_digit(c: char) -> bool {
    '0' <= c <= '9'
}

/// A nonempty run of decimal digits.
pub open spec fn all_digits(text: Seq<char>) -> bool {
    text.len() > 0 && forall|i: int| 0 <= i < text.len() ==> is_digit(#[trigger] text[i])
}

/// The number that a run of decimal digits stands for.
pub open spec fn digits_value(text: Seq<char>) -> int
    decreases text.len(),
{
    if text.len() == 0 {
        0
    } else {
        10 * digits_value(text.drop_last()) + (text.last() as int - '0' as int)
    }
}

/// The 64-bit number that a text stands for: an optional sign and at least one digit.
pub open spec fn parsed_integer(text: Seq<char>) -> Option<int> {
    let signed = text.len() > 0 && (text[0] == '-' || text[0] == '+');
    let body = if signed {
        text.drop_first()
    } else {
        text
    };
    let value = if signed && text[0] == '-' {
        -digits_value(body)
    } else {
        digits_value(body)
    };
    if all_digits(body) && i64::MIN <= value <= i64::MAX {
        Some(value)
    } else {
        None
    }
}

/// The view of an optional integer.
pub open spec fn integer_of(value: Option<i64>) -> Option<int> {
    match value {
        Some(number) => Some(number as int),
        None => None,
    }
}

proof fn lemma_digits_grow(text: Seq<char>, count: int)
    requires
        0 <= count <= text.len(),
        forall|i: int| 0 <= i < text.len() ==> is_digit(#[trigger] text[i]),
    ensures
        0 <= digits_value(text.take(count)) <= digits_value(text),
    decreases text.len(),
{
    if text.len() > 0 {
        let rest = text.drop_last();
        assert forall|i: int| 0 <= i < rest.len() implies is_digit(#[trigger] rest[i]) by {
            assert(rest[i] == text[i]);
        }
        assert(is_digit(text[text.len() - 1]));
        if count < text.len() {
            assert(rest.take(count) =~= text.take(count));
            lemma_digits_grow(rest, count);
        } else {
            assert(text.take(count) =~= text);
            lemma_digits_grow(rest, rest.len() as int);
            assert(rest.take(rest.len() as int) =~= rest);
        }
    } else {
        assert(text.take(count) =~= text);
    }
}

/// The number that the digits of a text from `start` on stand for, as far as it has 64 bits.
fn read_digits(text: &str, start: usize) -> (result: Option<u64>)
    requires
        start <= text@.len(),
    ensures
        unsigned_of(result) == ({
            let body = text@.skip(start as int);
            if all_digits(body) && digits_value(body) <= u64::MAX {
                Some(digits_value(body))
            } else {
                None
            }
        }),
{
    let ghost body = text@.skip(start as int);
    let width: usize = text.unicode_len();
    if start == width {
        return None;
    }
    let mut value: u64 = 0;
    let mut i: usize = start;
    proof {
        assert(body.take(0) =~= Seq::empty());
    }
    while i < width
        invariant
            start <= i <= width == text@.len(),
            start < width,
            body == text@.skip(start as int),
            forall|j: int| 0 <= j < i - start ==> is_digit(#[trigger] body[j]),
            value == digits_value(body.take(i - start)),
        decreases width - i,
    {
        let code: u32 = text.get_char(i) as u32;
        let ghost at = i - start;
        assert(body[at] == text@[i as int]);
        if code < 48 || code > 57 {
            proof {
                assert(!is_digit(body[at]));
            }
            return None;
        }
        let next: u128 = value as u128 * 10 + (code - 48) as u128;
        proof {
            assert(body.take(at + 1).drop_last() =~= body.take(at));
            assert(body.take(at + 1).last() == body[at]);
            assert(next == digits_value(body.take(at + 1)));
        }
        if next > u64::MAX as u128 {
            proof {
                if all_digits(body) {
                    lemma_digits_grow(body, at + 1);
                }
            }
            return None;
        }
        value = next as u64;
        i = i + 1;
    }
    proof {
        assert(body.take(width - start) =~= body);
    }
    Some(value)
}

/// Reads a 64-bit number.
pub fn parse_integer(text: &str) -> (result: Option<i64>)
    ensures
        integer_of(result) == parsed_integer(text@),
{
    let signed = text.unicode_len() > 0 && (text.get_char(0) == '-' || text.get_char(0) == '+');
    let negative = signed && text.get_char(0) == '-';
    proof {
        assert(text@.skip(0) =~= text@);
        assert(text@.len() > 0 ==> text@.skip(1) =~= text@.drop_first());
    }
    let size: u64 = read_digits(
        text,
        if signed {
            1
        } else {
            0
        },
    )?;
    if negative {
        if size > 9_223_372_036_854_775_808 {
            None
        } else {
            Some((-(size as i128)) as i64)
        }
    } else if size > 9_223_372_036_854_775_807 {
        None
    } else {
        Some(size as i64)
    }
}

/// The 64-bit number without a sign that a text stands for: an optional plus sign and at least
/// one digit.
pub open spec fn parsed_unsigned(text: Seq<char>) -> Option<int> {
    let body = if text.len() > 0 && text[0] == '+' {
        text.drop_first()
    } else {
        text
    };
    if all_digits(body) && digits_value(body) <= u64::MAX {
        Some(digits_value(body))
    } else {
        None
    }
}

/// The view of an optional number without a sign.
pub open spec fn unsigned_of(value: Option<u64>) -> Option<int> {
    match value {
        Some(number) => Some(number as int),
        None => None,
    }
}

/// Reads a 64-bit number without a sign.
pub fn parse_unsigned(text: &str) -> (result: Option<u64>)
    ensures
        unsigned_of(result) == parsed_unsigned(text@),
{
    let signed = text.unicode_len() > 0 && text.get_char(0) == '+';
    proof {
        assert(text@.skip(0) =~= text@);
        assert(text@.len() > 0 ==> text@.skip(1) =~= text@.drop_first());
    }
    read_digits(
        text,
        if signed {
            1
        } else {
            0
        },
    )
}

/// Texts one after the other, with a separator between them.
pub open spec fn joined(parts: Seq<Seq<char>>, separator: Seq<char>) -> Seq<char>
    decreases parts.len(),
{
    if parts.len() == 0 {
        Seq::empty()
    } else if parts.len() == 1 {
        parts[0]
    } else {
        joined(parts.drop_last(), separator) + separator + parts.last()
    }
}

/// Texts one after the other, with a separator between them.
pub fn join(parts: &Vec<String>, separator: &str) -> (result: String)
    ensures
        result@ == joined(texts_of(parts@), separator@),
{
    if parts.len() == 0 {
        return String::new();
    }
    let ghost texts = texts_of(parts@);
    let mut result = parts[0].clone();
    let mut i: usize = 1;
    proof {
        assert(texts.take(1).len() == 1);
        assert(result@ == joined(texts.take(1), separator@));
    }
    while i < parts.len()
        invariant
            texts == texts_of(parts@),
            1 <= i <= parts@.len(),
            result@ == joined(texts.take(i as int), separator@),
        decreases parts@.len() - i,
    {
        proof {
            assert(texts.take(i + 1).drop_last() =~= texts.take(i as int));
            assert(texts.take(i + 1).last() == parts@[i as int]@);
        }
        result = result.concat(separator).concat(parts[i].as_str());
        i = i + 1;
    }
    proof {
        assert(texts.take(i as int) =~= texts);
    }
    result
}

/// A list that holds a note where a condition holds, and nothing else, holds exactly that.
pub proof fn note_is_held(condition: bool, note: Seq<char>, text: Seq<char>)
    ensures
        note_if(condition, note).contains(text) <==> condition && text == note,
        note_if(condition, note).len() == if condition {
            1int
        } else {
            0int
        },
{
    if condition {
        assert(note_if(condition, note)[0] == note);
    }
}

/// Two lists one after the other hold what either holds.
pub proof fn lists_hold_together(first: Seq<Seq<char>>, second: Seq<Seq<char>>, text: Seq<char>)
    ensures
        (first + second).contains(text) <==> first.contains(text) || second.contains(text),
{
    let both = first + second;
    if first.contains(text) {
        let i = choose|i: int| 0 <= i < first.len() && first[i] == text;
        assert(both[i] == text);
    }
    if second.contains(text) {
        let i = choose|i: int| 0 <= i < second.len() && second[i] == text;
        assert(both[first.len() + i] == text);
    }
    if both.contains(text) {
        let i = choose|i: int| 0 <= i < both.len() && both[i] == text;
        if i < first.len() {
            assert(first[i] == text);
        } else {
            assert(second[i - first.len()] == text);
        }
    }
}

proof fn lemma_digits_read(n: nat)
    ensures
        digits_value(digits(n)) == n,
        all_digits(digits(n)),
        digits(n).len() > 0,
        digits(n)[0] != '-',
        digits(n)[0] != '+',
    decreases n,
{
    if n >= 10 {
        lemma_digits_read(n / 10);
        assert(digits(n).drop_last() =~= digits(n / 10));
        assert(digits(n).last() == digit(n % 10));
        assert(digits(n)[0] == digits(n / 10)[0]);
        assert(10 * (n / 10) + n % 10 == n);
        assert(digits(n).last() as int - '0' as int == n % 10);
    } else {
        assert(digits(n) =~= seq![digit(n)]);
        assert(digits(n).drop_last() =~= Seq::<char>::empty());
        assert(digits_value(digits(n).drop_last()) == 0);
        assert(digits(n).last() as int - '0' as int == n);
    }
}

/// A number that is written in decimal notation is read back as it was.
pub proof fn written_numbers_are_read_back(value: int)
    requires
        i64::MIN <= value <= i64::MAX,
    ensures
        parsed_integer(int_text(value)) == Some(value),
{
    if value < 0 {
        lemma_digits_read((-value) as nat);
        assert(int_text(value).drop_first() =~= digits((-value) as nat));
    } else {
        lemma_digits_read(value as nat);
    }
}

/// What follows a separator and holds none itself is what follows the last one.
pub proof fn numbers_hold_no_separator(head: Seq<char>, value: int)
    requires
        value >= 0,
        head.len() > 0,
        head.last() == '-',
    ensures
        after_last(head + int_text(value), '-') == int_text(value),
{
    let text = head + int_text(value);
    lemma_digits_read(value as nat);
    assert forall|i: int| head.len() <= i < text.len() implies text[i] != '-' by {
        assert(is_digit(digits(value as nat)[i - head.len()]));
    }
    lemma_after_last(text, '-', head.len() as int);
    assert(text.subrange(head.len() as int, text.len() as int) =~= int_text(value));
}

/// Joining one more text behind others puts the separator and then the text behind them.
pub proof fn joining_puts_the_separator_between(
    parts: Seq<Seq<char>>,
    part: Seq<char>,
    separator: Seq<char>,
)
    ensures
        joined(Seq::empty(), separator) == Seq::<char>::empty(),
        joined(seq![part], separator) == part,
        parts.len() > 0 ==> joined(parts.push(part), separator) == joined(parts, separator)
            + separator + part,
{
    assert(parts.push(part).drop_last() =~= parts);
}

/// Lower and upper case differ in ASCII letters only, undo each other, and make no difference
/// where case is ignored.
pub proof fn cases_differ_in_letters_only(text: Seq<char>)
    ensures
        ascii_lower(text).len() == text.len(),
        ascii_upper(text).len() == text.len(),
        same_ignoring_case(ascii_lower(text), text),
        same_ignoring_case(ascii_upper(text), text),
        ascii_lower(ascii_upper(text)) == ascii_lower(text),
        ascii_upper(ascii_lower(text)) == ascii_upper(text),
        forall|i: int|
            0 <= i < text.len() && !('A' <= text[i] <= 'Z') ==> #[trigger] ascii_lower(text)[i]
                == text[i],
        forall|i: int|
            0 <= i < text.len() && !('a' <= text[i] <= 'z') ==> #[trigger] ascii_upper(text)[i]
                == text[i],
        forall|i: int|
            0 <= i < text.len() && 'A' <= text[i] <= 'Z' ==> #[trigger] ascii_lower(text)[i] as int
                == text[i] as int + 32,
{
    assert forall|i: int| 0 <= i < text.len() implies lower_char(upper_char(#[trigger] text[i]))
        == lower_char(text[i]) && upper_char(lower_char(text[i])) == upper_char(text[i]) by {}
    assert(ascii_lower(ascii_upper(text)) =~= ascii_lower(text));
    assert(ascii_upper(ascii_lower(text)) =~= ascii_upper(text));
    assert forall|i: int| 0 <= i < text.len() implies lower_char(#[trigger] ascii_lower(text)[i])
        == lower_char(text[i]) by {}
    assert forall|i: int| 0 <= i < text.len() implies lower_char(#[trigger] ascii_upper(text)[i])
        == lower_char(text[i]) by {}
}

} // verus!
