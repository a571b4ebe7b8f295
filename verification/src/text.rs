use vstd::prelude::*;

verus! {

/// Whether `c` is white space: a character with Unicode's `White_Space`
/// property.
pub open spec fn is_space(c: char) -> bool {
    ||| '\u{0009}' <= c <= '\u{000D}'
    ||| c == ' '
    ||| c == '\u{0085}'
    ||| c == '\u{00A0}'
    ||| c == '\u{1680}'
    ||| '\u{2000}' <= c <= '\u{200A}'
    ||| c == '\u{2028}'
    ||| c == '\u{2029}'
    ||| c == '\u{202F}'
    ||| c == '\u{205F}'
    ||| c == '\u{3000}'
}

/// Whether `c` is white space.
pub fn is_whitespace(c: char) -> (b: bool)
    ensures
        b == is_space(c),
{
    ('\u{0009}' <= c && c <= '\u{000D}') || c == ' ' || c == '\u{0085}' || c == '\u{00A0}' || c
        == '\u{1680}' || ('\u{2000}' <= c && c <= '\u{200A}') || c == '\u{2028}' || c
        == '\u{2029}' || c == '\u{202F}' || c == '\u{205F}' || c == '\u{3000}'
}

/// The characters of `s`, in order.
pub fn chars_of(s: &str) -> (v: Vec<char>)
    ensures
        v@ == s@,
{
    let mut v: Vec<char> = Vec::new();
    for c in it: s.chars()
        invariant
            it.seq() == s@,
            v@ == s@.take(it.index() as int),
    {
        v.push(c);
    }
    v
}

/// The text at position `k` of `items`, where there is one.
pub open spec fn entry(items: Seq<Option<Seq<char>>>, k: int) -> Option<Seq<char>> {
    if 0 <= k < items.len() {
        items[k]
    } else {
        None
    }
}

/// The text at position `k` of `items`, where there is one.
pub fn entry_at(items: &Vec<Option<String>>, k: usize) -> (text: Option<&String>)
    ensures
        text.deep_view() == entry(items.deep_view(), k as int),
{
    if k < items.len() {
        items[k].as_ref()
    } else {
        None
    }
}

/// Whether the two texts are the same.
pub fn same_text(a: &str, b: &str) -> (same: bool)
    ensures
        same == (a@ == b@),
{
    a.to_owned() == b.to_owned()
}

/// Whether `needle` stands in `hay` at position `at`: the part of `hay`
/// that begins at `at` and is as long as `needle` is `needle`. A needle as
/// long as `hay` leaves no choice of a part, so it stands in `hay` exactly
/// where it is `hay`; that case is written out.
pub open spec fn occurs_at(hay: Seq<char>, needle: Seq<char>, at: int) -> bool {
    &&& 0 <= at
    &&& at + needle.len() <= hay.len()
    &&& if needle.len() == hay.len() {
        hay == needle
    } else {
        hay.subrange(at, at + needle.len()) == needle
    }
}

/// `needle` stands in `hay` at `at` exactly where the part of `hay` from
/// `at` on that is as long as `needle` is `needle`, whatever their lengths.
pub proof fn lemma_occurs_at_is_part(hay: Seq<char>, needle: Seq<char>, at: int)
    ensures
        occurs_at(hay, needle, at) <==> 0 <= at && at + needle.len() <= hay.len() && hay.subrange(
            at,
            at + needle.len(),
        ) == needle,
{
    if 0 <= at && at + needle.len() <= hay.len() && needle.len() == hay.len() {
        assert(hay.subrange(at, at + needle.len()) =~= hay);
    }
}

/// Whether `needle` stands somewhere in `hay`. The empty text stands in
/// every text.
pub open spec fn has_infix(hay: Seq<char>, needle: Seq<char>) -> bool {
    exists|at: int| occurs_at(hay, needle, at)
}

/// Whether `needle` stands in `hay` at position `at`.
pub fn found_at(hay: &[char], needle: &[char], at: usize) -> (found: bool)
    ensures
        found == occurs_at(hay@, needle@, at as int),
{
    if needle.len() > hay.len() || at > hay.len() - needle.len() {
        return false;
    }
    let mut k: usize = 0;
    while k < needle.len()
        invariant
            k <= needle.len(),
            at + needle.len() <= hay.len(),
            forall|j: int| 0 <= j < k ==> hay@[at + j] == needle@[j],
        decreases needle.len() - k,
    {
        if hay[at + k] != needle[k] {
            return false;
        }
        k += 1;
    }
    proof {
        if needle.len() == hay.len() {
            assert(hay@ =~= needle@);
        } else {
            assert(hay@.subrange(at as int, at + needle.len()) =~= needle@);
        }
    }
    true
}

/// Whether `needle` stands somewhere in `hay`.
pub fn contains(hay: &[char], needle: &[char]) -> (found: bool)
    ensures
        found == has_infix(hay@, needle@),
{
    if needle.len() > hay.len() {
        return false;
    }
    let last: usize = hay.len() - needle.len();
    let mut at: usize = 0;
    loop
        invariant
            last == hay.len() - needle.len(),
            at <= last,
            forall|j: int| 0 <= j < at ==> !occurs_at(hay@, needle@, j),
        decreases last - at,
    {
        if found_at(hay, needle, at) {
            return true;
        }
        if at == last {
            return false;
        }
        at += 1;
    }
}

/// Whether `needle` stands somewhere in `hay`.
pub fn str_contains(hay: &str, needle: &str) -> (found: bool)
    ensures
        found == has_infix(hay@, needle@),
{
    let h = chars_of(hay);
    let n = chars_of(needle);
    contains(h.as_slice(), n.as_slice())
}

/// Whether `word` stands in `hay` at position `at` as a word of its own: a
/// white-space character stands directly before it and another directly
/// after it.
pub open spec fn set_off_at(hay: Seq<char>, word: Seq<char>, at: int) -> bool {
    &&& 1 <= at
    &&& at + word.len() < hay.len()
    &&& is_space(hay[at - 1])
    &&& hay.subrange(at, at + word.len()) == word
    &&& is_space(hay[at + word.len()])
}

/// Whether `word` stands somewhere in `hay` as a word of its own, with
/// white space directly before it and directly after it. A word at the very
/// start or the very end of the text is not one.
pub open spec fn has_word(hay: Seq<char>, word: Seq<char>) -> bool {
    exists|at: int| set_off_at(hay, word, at)
}

/// A word that stands in a text between two blanks stands there as a word
/// of its own.
pub proof fn lemma_word_between_blanks(hay: Seq<char>, word: Seq<char>)
    requires
        has_infix(hay, seq![' '] + word + seq![' ']),
    ensures
        has_word(hay, word),
{
    let spaced = seq![' '] + word + seq![' '];
    let at = choose|at: int| occurs_at(hay, spaced, at);
    lemma_occurs_at_is_part(hay, spaced, at);
    let part = hay.subrange(at, at + spaced.len());
    assert(part[0] == ' ');
    assert(part[word.len() as int + 1] == ' ');
    assert(hay.subrange(at + 1, at + 1 + word.len()) =~= word) by {
        assert forall|k: int| 0 <= k < word.len() implies hay[at + 1 + k] == word[k] by {
            assert(part[k + 1] == spaced[k + 1]);
        }
    }
    assert(set_off_at(hay, word, at + 1));
}

/// Whether `word` stands in `hay` at position `at` as a word of its own.
pub fn word_at(hay: &[char], word: &[char], at: usize) -> (found: bool)
    ensures
        found == set_off_at(hay@, word@, at as int),
{
    if at < 1 || word.len() >= hay.len() || at >= hay.len() - word.len() {
        return false;
    }
    let after: usize = at + word.len();
    is_whitespace(hay[at - 1]) && found_at(hay, word, at) && is_whitespace(hay[after])
}

/// Whether `word` stands somewhere in `hay` as a word of its own.
pub fn holds_word(hay: &[char], word: &[char]) -> (found: bool)
    ensures
        found == has_word(hay@, word@),
{
    let mut at: usize = 1;
    while at < hay.len()
        invariant
            1 <= at,
            forall|j: int| j < at ==> !set_off_at(hay@, word@, j),
        decreases hay.len() - at,
    {
        if word_at(hay, word, at) {
            return true;
        }
        at += 1;
    }
    false
}

/// Whether `word` stands somewhere in `hay` as a word of its own.
pub fn str_holds_word(hay: &str, word: &str) -> (found: bool)
    ensures
        found == has_word(hay@, word@),
{
    let h = chars_of(hay);
    let w = chars_of(word);
    holds_word(h.as_slice(), w.as_slice())
}

/// The position of the first line feed in `s`, or the length of `s` where it
/// holds none.
pub open spec fn line_end(s: Seq<char>) -> nat
    decreases s.len(),
{
    if s.len() == 0 || s[0] == '\n' {
        0
    } else {
        1 + line_end(s.drop_first())
    }
}

/// `line` without one carriage return at its end.
pub open spec fn without_cr(line: Seq<char>) -> Seq<char> {
    if line.len() > 0 && line.last() == '\r' {
        line.drop_last()
    } else {
        line
    }
}

/// The lines of `s`. A line ends at a line feed, or at a carriage return
/// directly followed by one; neither belongs to the line. What follows the
/// last line feed is a line too unless it is empty, and keeps a carriage
/// return at its end.
pub open spec fn lines_of(s: Seq<char>) -> Seq<Seq<char>>
    decreases s.len(),
{
    if s.len() == 0 {
        Seq::empty()
    } else {
        let end = line_end(s) as int;
        if end >= s.len() {
            seq![s]
        } else {
            seq![without_cr(s.take(end))] + lines_of(s.skip(end + 1))
        }
    }
}

/// `line_end` is the position `end` where no line feed stands before `end`
/// and one stands at it, or the text ends there.
pub proof fn lemma_line_end(s: Seq<char>, end: int)
    requires
        0 <= end <= s.len(),
        forall|j: int| 0 <= j < end ==> s[j] != '\n',
        end < s.len() ==> s[end] == '\n',
    ensures
        line_end(s) == end,
    decreases end,
{
    if end > 0 {
        lemma_line_end(s.drop_first(), end - 1);
    }
}

/// The lines of `text`.
pub fn lines(text: &str) -> (out: Vec<String>)
    ensures
        out.deep_view() == lines_of(text@),
{
    let chars = chars_of(text);
    let n = chars.len();
    let mut out: Vec<String> = Vec::new();
    let mut start: usize = 0;
    let mut i: usize = 0;
    assert(out.deep_view() + lines_of(text@.skip(0)) =~= lines_of(text@)) by {
        assert(text@.skip(0) =~= text@);
    }
    while i < n
        invariant
            start <= i <= n,
            n == chars@.len(),
            chars@ == text@,
            forall|j: int| start <= j < i ==> chars@[j] != '\n',
            lines_of(text@) == out.deep_view() + lines_of(text@.skip(start as int)),
        decreases n - i,
    {
        if chars[i] == '\n' {
            let end = if i > start && chars[i - 1] == '\r' {
                i - 1
            } else {
                i
            };
            let line = text.substring_char(start, end).to_owned();
            proof {
                let rest = text@.skip(start as int);
                lemma_line_end(rest, i - start);
                assert(rest.skip(i - start + 1) =~= text@.skip(i + 1));
                assert(line@ =~= without_cr(rest.take(i - start)));
            }
            out.push(line);
            start = i + 1;
        }
        i += 1;
    }
    if start < n {
        let line = text.substring_char(start, n).to_owned();
        proof {
            let rest = text@.skip(start as int);
            lemma_line_end(rest, n - start);
        }
        out.push(line);
    }
    out
}

/// `s` without the white space at its start.
pub open spec fn trim_start(s: Seq<char>) -> Seq<char>
    decreases s.len(),
{
    if s.len() > 0 && is_space(s[0]) {
        trim_start(s.drop_first())
    } else {
        s
    }
}

/// `s` without the white space at its end.
pub open spec fn trim_end(s: Seq<char>) -> Seq<char>
    decreases s.len(),
{
    if s.len() > 0 && is_space(s.last()) {
        trim_end(s.drop_last())
    } else {
        s
    }
}

/// `s` without the white space at its start and at its end.
pub open spec fn trim(s: Seq<char>) -> Seq<char> {
    trim_end(trim_start(s))
}

/// The number of white-space characters at the start of `chars`.
pub fn leading_space(chars: &[char]) -> (count: usize)
    ensures
        count <= chars.len(),
        chars@.skip(count as int) == trim_start(chars@),
{
    let mut i: usize = 0;
    assert(chars@.skip(0) =~= chars@);
    while i < chars.len() && is_whitespace(chars[i])
        invariant
            i <= chars.len(),
            trim_start(chars@) == trim_start(chars@.skip(i as int)),
        decreases chars.len() - i,
    {
        assert(chars@.skip(i as int).drop_first() =~= chars@.skip(i + 1));
        i += 1;
    }
    i
}

/// Where `chars` begins and ends once the white space at both ends is left
/// out.
pub fn trim_bounds(chars: &[char]) -> (bounds: (usize, usize))
    ensures
        bounds.0 <= bounds.1 <= chars.len(),
        chars@.subrange(bounds.0 as int, bounds.1 as int) == trim(chars@),
{
    let start = leading_space(chars);
    let mut end: usize = chars.len();
    while end > start && is_whitespace(chars[end - 1])
        invariant
            start <= end <= chars.len(),
            trim(chars@) == trim_end(chars@.subrange(start as int, end as int)),
        decreases end,
    {
        assert(chars@.subrange(start as int, end as int).drop_last() =~= chars@.subrange(
            start as int,
            end - 1,
        ));
        end -= 1;
    }
    (start, end)
}

/// `chars` without the white space at its start and at its end.
pub fn trimmed(chars: &[char]) -> (inner: &[char])
    ensures
        inner@ == trim(chars@),
{
    let (start, end) = trim_bounds(chars);
    vstd::slice::slice_subrange(chars, start, end)
}

/// Whether `part` is all of `whole`.
pub fn same_chars(part: &[char], whole: &[char]) -> (same: bool)
    ensures
        same == (part@ == whole@),
{
    let same = part.len() == whole.len() && found_at(whole, part, 0);
    assert(whole@.subrange(0, whole@.len() as int) =~= whole@);
    same
}

/// Whether `c` is a decimal digit.
pub open spec fn is_digit(c: char) -> bool {
    '0' <= c <= '9'
}

/// The number that the decimal digits `digits` write.
pub open spec fn decimal(digits: Seq<char>) -> nat
    decreases digits.len(),
{
    if digits.len() == 0 {
        0
    } else {
        (10 * decimal(digits.drop_last()) + (digits.last() as int - '0' as int)) as nat
    }
}

/// Whether every character of `s` is a decimal digit.
pub open spec fn all_digits(s: Seq<char>) -> bool {
    forall|i: int| 0 <= i < s.len() ==> is_digit(#[trigger] s[i])
}

/// `s` without the plus sign that may stand at its start.
pub open spec fn unsigned(s: Seq<char>) -> Seq<char> {
    if s.len() > 0 && s[0] == '+' {
        s.drop_first()
    } else {
        s
    }
}

/// The number that `s` writes: decimal digits, at least one, after at most
/// one plus sign. Any other text writes no number.
pub open spec fn number_of(s: Seq<char>) -> Option<nat> {
    let digits = unsigned(s);
    if digits.len() > 0 && all_digits(digits) {
        Some(decimal(digits))
    } else {
        None
    }
}

/// The number that a text of digits writes is no less than the number that
/// a part from its start writes.
pub proof fn lemma_decimal_grows(digits: Seq<char>, upto: int)
    requires
        0 <= upto <= digits.len(),
        all_digits(digits),
    ensures
        decimal(digits.take(upto)) <= decimal(digits),
    decreases digits.len() - upto,
{
    if upto < digits.len() {
        lemma_decimal_grows(digits, upto + 1);
        assert(digits.take(upto + 1).drop_last() =~= digits.take(upto));
    } else {
        assert(digits.take(upto) =~= digits);
    }
}

/// The number that `chars` write, where they write one that fits.
pub fn parse_number(chars: &[char]) -> (number: Option<usize>)
    ensures
        (number == match number_of(chars@) {
            Some(n) => if n <= usize::MAX {
                Some(n as usize)
            } else {
                None
            },
            None => None,
        }),
{
    let first: usize = if chars.len() > 0 && chars[0] == '+' {
        1
    } else {
        0
    };
    if first == chars.len() {
        return None;
    }
    let ghost digits = chars@.skip(first as int);
    let mut value: usize = 0;
    let mut i: usize = first;
    while i < chars.len()
        invariant
            first <= i <= chars.len(),
            first < chars.len(),
            digits == chars@.skip(first as int),
            digits == unsigned(chars@),
            all_digits(digits.take(i - first)),
            value == decimal(digits.take(i - first)),
        decreases chars.len() - i,
    {
        let c = chars[i];
        assert(digits[i - first] == c);
        if c < '0' || c > '9' {
            return None;
        }
        let digit: usize = (c as u32 - '0' as u32) as usize;
        proof {
            assert(digits.take(i - first + 1).drop_last() =~= digits.take(i - first));
            if all_digits(digits) {
                lemma_decimal_grows(digits, i - first + 1);
            }
        }
        if value > (usize::MAX - digit) / 10 {
            return None;
        }
        value = value * 10 + digit;
        i += 1;
    }
    assert(digits.take(i - first) =~= digits);
    Some(value)
}

} // verus!
