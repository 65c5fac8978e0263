//! Text helpers on sequences of characters: decimal numbers, lines,
//! trimming and searching.

use vstd::prelude::*;
use vstd::string::{StrSliceExecFns, StringExecFns};

verus! {

/// The character of one decimal digit.
pub open spec fn digit_char(d: nat) -> char {
    (('0' as nat) + d) as char
}

/// Decimal digits of a natural number, most significant first, without
/// leading zeros; zero is the single digit `0`.
pub open spec fn decimal_digits(n: nat) -> Seq<char>
    decreases n,
{
    if n < 10 {
        seq![digit_char(n)]
    } else {
        decimal_digits(n / 10).push(digit_char(n % 10))
    }
}

/// Decimal text of an integer: a minus sign for negative values, then the
/// digits of the magnitude.
pub open spec fn decimal_text(v: int) -> Seq<char> {
    if v < 0 {
        seq!['-'] + decimal_digits((-v) as nat)
    } else {
        decimal_digits(v as nat)
    }
}

/// True for the characters that Unicode gives the property `White_Space`.
pub open spec fn is_whitespace(c: char) -> bool {
    let code = c as u32;
    ||| 0x09 <= code <= 0x0d
    ||| code == 0x20
    ||| code == 0x85
    ||| code == 0xa0
    ||| code == 0x1680
    ||| 0x2000 <= code <= 0x200a
    ||| code == 0x2028
    ||| code == 0x2029
    ||| code == 0x202f
    ||| code == 0x205f
    ||| code == 0x3000
}

/// `s` without its leading whitespace.
pub open spec fn trim_start(s: Seq<char>) -> Seq<char>
    decreases s.len(),
{
    if s.len() > 0 && is_whitespace(s.first()) {
        trim_start(s.drop_first())
    } else {
        s
    }
}

/// `s` without its trailing whitespace.
pub open spec fn trim_end(s: Seq<char>) -> Seq<char>
    decreases s.len(),
{
    if s.len() > 0 && is_whitespace(s.last()) {
        trim_end(s.drop_last())
    } else {
        s
    }
}

/// `s` without its leading and trailing whitespace.
pub open spec fn trim(s: Seq<char>) -> Seq<char> {
    trim_end(trim_start(s))
}

/// True when `pattern` begins at position `at` of `s`.
pub open spec fn occurs_at(s: Seq<char>, pattern: Seq<char>, at: int) -> bool {
    0 <= at && at + pattern.len() <= s.len() && s.subrange(at, at + pattern.len()) == pattern
}

/// True when `pattern` occurs somewhere in `s`.
pub open spec fn contains_text(s: Seq<char>, pattern: Seq<char>) -> bool {
    exists|at: int| occurs_at(s, pattern, at)
}

/// True when `s` begins with `pattern`.
pub open spec fn starts_with(s: Seq<char>, pattern: Seq<char>) -> bool {
    occurs_at(s, pattern, 0)
}

/// End of the line that holds position `from`: the position of the next line
/// feed, or the length of the text.
pub open spec fn line_end(text: Seq<char>, from: int) -> int
    decreases text.len() - from,
{
    if from >= text.len() || text[from] == '\n' {
        from
    } else {
        line_end(text, from + 1)
    }
}

/// The `(start, end)` positions of the lines of `text` from position `from`
/// on. A line feed ends a line and begins the next, so a text with `n` line
/// feeds has `n + 1` lines, of which any may be empty.
pub open spec fn line_ranges(text: Seq<char>, from: int) -> Seq<(int, int)>
    decreases text.len() - from,
{
    if from < 0 || from > text.len() {
        Seq::empty()
    } else if line_end(text, from) >= text.len() {
        seq![(from, text.len() as int)]
    } else {
        proof {
            lemma_line_end(text, from);
        }
        seq![(from, line_end(text, from))] + line_ranges(text, line_end(text, from) + 1)
    }
}

/// The lines of `text`, without their line feeds.
pub open spec fn split_lines(text: Seq<char>) -> Seq<Seq<char>> {
    Seq::new(
        line_ranges(text, 0).len(),
        |i: int| text.subrange(line_ranges(text, 0)[i].0, line_ranges(text, 0)[i].1),
    )
}

/// A line ends at or behind the position it is looked for from, inside the
/// text, on a line feed or at the end, and holds no line feed.
pub proof fn lemma_line_end(text: Seq<char>, from: int)
    requires
        0 <= from <= text.len(),
    ensures
        from <= line_end(text, from) <= text.len(),
        line_end(text, from) < text.len() ==> text[line_end(text, from)] == '\n',
        forall|k: int| from <= k < line_end(text, from) ==> text[k] != '\n',
    decreases text.len() - from,
{
    if from < text.len() && text[from] != '\n' {
        lemma_line_end(text, from + 1);
    }
}

/// Every line lies inside the text, and lines follow one another.
pub proof fn lemma_line_ranges(text: Seq<char>, from: int)
    requires
        0 <= from <= text.len(),
    ensures
        line_ranges(text, from).len() >= 1,
        forall|i: int|
            0 <= i < line_ranges(text, from).len() ==> from <= (#[trigger] line_ranges(
                text,
                from,
            )[i]).0 <= line_ranges(text, from)[i].1 <= text.len(),
    decreases text.len() - from,
{
    lemma_line_end(text, from);
    let end = line_end(text, from);
    if end < text.len() {
        lemma_line_ranges(text, end + 1);
        let rest = line_ranges(text, end + 1);
        let all = line_ranges(text, from);
        assert forall|i: int| 0 <= i < all.len() implies from <= (#[trigger] all[i]).0 <= all[i].1
            <= text.len() by {
            if i > 0 {
                assert(all[i] == rest[i - 1]);
            }
        }
    }
}

/// The text of one decimal digit.
fn digit_text(d: u64) -> (r: &'static str)
    requires
        d < 10,
    ensures
        r@ == seq![digit_char(d as nat)],
{
    proof {
        reveal_strlit("0");
        reveal_strlit("1");
        reveal_strlit("2");
        reveal_strlit("3");
        reveal_strlit("4");
        reveal_strlit("5");
        reveal_strlit("6");
        reveal_strlit("7");
        reveal_strlit("8");
        reveal_strlit("9");
    }
    let r = if d == 0 {
        "0"
    } else if d == 1 {
        "1"
    } else if d == 2 {
        "2"
    } else if d == 3 {
        "3"
    } else if d == 4 {
        "4"
    } else if d == 5 {
        "5"
    } else if d == 6 {
        "6"
    } else if d == 7 {
        "7"
    } else if d == 8 {
        "8"
    } else {
        "9"
    };
    assert(r@ =~= seq![digit_char(d as nat)]);
    r
}

/// Decimal text of an unsigned number.
pub fn decimal_string(n: u64) -> (r: String)
    ensures
        r@ == decimal_digits(n as nat),
    decreases n,
{
    if n < 10 {
        String::from_str(digit_text(n))
    } else {
        let front = decimal_string(n / 10);
        front.concat(digit_text(n % 10))
    }
}

/// Tells whether a character is whitespace.
pub fn char_is_whitespace(c: char) -> (r: bool)
    ensures
        r == is_whitespace(c),
{
    let code: u32 = c as u32;
    (0x09 <= code && code <= 0x0d) || code == 0x20 || code == 0x85 || code == 0xa0 || code
        == 0x1680 || (0x2000 <= code && code <= 0x200a) || code == 0x2028 || code == 0x2029
        || code == 0x202f || code == 0x205f || code == 0x3000
}

/// The characters of a text.
pub fn to_chars(text: &str) -> (r: Vec<char>)
    ensures
        r@ == text@,
{
    let len = text.unicode_len();
    let mut r: Vec<char> = Vec::new();
    let mut i: usize = 0;
    while i < len
        invariant
            len == text@.len(),
            i <= len,
            r@ == text@.subrange(0, i as int),
        decreases len - i,
    {
        r.push(text.get_char(i));
        i += 1;
        assert(r@ =~= text@.subrange(0, i as int));
    }
    assert(text@.subrange(0, len as int) =~= text@);
    r
}

/// The characters of `chars` from `from` up to `to`.
pub(crate) fn slice_chars(chars: &Vec<char>, from: usize, to: usize) -> (r: Vec<char>)
    requires
        from <= to <= chars@.len(),
    ensures
        r@ == chars@.subrange(from as int, to as int),
{
    let mut r: Vec<char> = Vec::new();
    let mut i: usize = from;
    while i < to
        invariant
            from <= i <= to <= chars@.len(),
            r@ == chars@.subrange(from as int, i as int),
        decreases to - i,
    {
        r.push(chars[i]);
        i += 1;
        assert(r@ =~= chars@.subrange(from as int, i as int));
    }
    r
}

/// The `(start, end)` positions of the lines of `chars`.
pub fn split_line_ranges(chars: &Vec<char>) -> (r: Vec<(usize, usize)>)
    ensures
        r@.len() == line_ranges(chars@, 0).len(),
        forall|i: int|
            0 <= i < r@.len() ==> (#[trigger] r@[i]).0 == line_ranges(chars@, 0)[i].0 && r@[i].1
                == line_ranges(chars@, 0)[i].1 && r@[i].0 <= r@[i].1 <= chars@.len(),
{
    let mut r: Vec<(usize, usize)> = Vec::new();
    let mut start: usize = 0;
    let ghost all = line_ranges(chars@, 0);
    proof {
        lemma_line_ranges(chars@, 0);
    }
    loop
        invariant_except_break
            all =~= Seq::new(r@.len(), |i: int| (r@[i].0 as int, r@[i].1 as int)) + line_ranges(
                chars@,
                start as int,
            ),
        invariant
            start <= chars@.len(),
            all == line_ranges(chars@, 0),
            forall|i: int| 0 <= i < r@.len() ==> (#[trigger] r@[i]).0 <= r@[i].1 <= chars@.len(),
        ensures
            all =~= Seq::new(r@.len(), |i: int| (r@[i].0 as int, r@[i].1 as int)),
            forall|i: int| 0 <= i < r@.len() ==> (#[trigger] r@[i]).0 <= r@[i].1 <= chars@.len(),
        decreases chars@.len() - start,
    {
        let mut end: usize = start;
        while end < chars.len() && chars[end] != '\n'
            invariant
                start <= end <= chars@.len(),
                line_end(chars@, start as int) == line_end(chars@, end as int),
            decreases chars@.len() - end,
        {
            end += 1;
        }
        let ghost before = Seq::new(r@.len(), |i: int| (r@[i].0 as int, r@[i].1 as int));
        r.push((start, end));
        let ghost after = Seq::new(r@.len(), |i: int| (r@[i].0 as int, r@[i].1 as int));
        assert(after =~= before.push((start as int, end as int)));
        if end >= chars.len() {
            assert(line_ranges(chars@, start as int) =~= seq![(start as int, end as int)]);
            break ;
        }
        assert(line_ranges(chars@, start as int) =~= seq![(start as int, end as int)]
            + line_ranges(chars@, end + 1));
        start = end + 1;
    }
    r
}

/// `s` without its leading and trailing whitespace.
pub fn trim_chars(s: &Vec<char>) -> (r: Vec<char>)
    ensures
        r@ == trim(s@),
{
    let mut from: usize = 0;
    assert(s@.subrange(0, s@.len() as int) =~= s@);
    while from < s.len() && char_is_whitespace(s[from])
        invariant
            from <= s@.len(),
            trim_start(s@) == trim_start(s@.subrange(from as int, s@.len() as int)),
        decreases s@.len() - from,
    {
        assert(s@.subrange(from as int, s@.len() as int).drop_first() =~= s@.subrange(
            from + 1,
            s@.len() as int,
        ));
        from += 1;
    }
    let ghost front = s@.subrange(from as int, s@.len() as int);
    assert(trim_start(s@) == front);
    let mut to: usize = s.len();
    while to > from && char_is_whitespace(s[to - 1])
        invariant
            from <= to <= s@.len(),
            front == s@.subrange(from as int, s@.len() as int),
            trim_end(front) == trim_end(s@.subrange(from as int, to as int)),
        decreases to,
    {
        assert(s@.subrange(from as int, to as int).drop_last() =~= s@.subrange(
            from as int,
            to - 1,
        ));
        to -= 1;
    }
    slice_chars(s, from, to)
}

/// Tells whether `pattern` begins at position `at` of `s`.
pub fn occurs_at_position(s: &Vec<char>, pattern: &Vec<char>, at: usize) -> (r: bool)
    ensures
        r == occurs_at(s@, pattern@, at as int),
{
    if pattern.len() > s.len() || at > s.len() - pattern.len() {
        return false;
    }
    let mut k: usize = 0;
    while k < pattern.len()
        invariant
            k <= pattern@.len(),
            at + pattern@.len() <= s@.len() <= usize::MAX,
            forall|j: int| 0 <= j < k ==> s@[at + j] == pattern@[j],
        decreases pattern@.len() - k,
    {
        if s[at + k] != pattern[k] {
            assert(s@.subrange(at as int, at + pattern@.len())[k as int] != pattern@[k as int]);
            return false;
        }
        k += 1;
    }
    assert(s@.subrange(at as int, at + pattern@.len()) =~= pattern@);
    true
}

/// Tells whether `s` begins with `pattern`.
pub fn chars_start_with(s: &Vec<char>, pattern: &Vec<char>) -> (r: bool)
    ensures
        r == starts_with(s@, pattern@),
{
    occurs_at_position(s, pattern, 0)
}

/// Tells whether `pattern` occurs somewhere in `s`.
pub fn chars_contain(s: &Vec<char>, pattern: &Vec<char>) -> (r: bool)
    ensures
        r == contains_text(s@, pattern@),
{
    if pattern.len() > s.len() {
        return false;
    }
    let last: usize = s.len() - pattern.len();
    let mut at: usize = 0;
    loop
        invariant
            last == s@.len() - pattern@.len(),
            at <= last,
            forall|j: int| 0 <= j < at ==> !occurs_at(s@, pattern@, j),
        decreases last - at,
    {
        if occurs_at_position(s, pattern, at) {
            return true;
        }
        if at == last {
            return false;
        }
        at += 1;
    }
}

/// Tells whether two texts are the same.
pub fn chars_equal(a: &Vec<char>, b: &Vec<char>) -> (r: bool)
    ensures
        r == (a@ == b@),
{
    if a.len() != b.len() {
        return false;
    }
    let r = occurs_at_position(a, b, 0);
    proof {
        assert(a@.subrange(0, a@.len() as int) =~= a@);
    }
    r
}

} // verus!
