//! Text operations on character sequences, each with an exact contract.

use vstd::prelude::*;

verus! {

/// `String::push` appends one character.
pub assume_specification[ String::push ](s: &mut String, c: char)
    ensures
        final(s)@ == old(s)@.push(c),
;

/// `str == str` holds exactly when both texts have the same characters.
pub assume_specification[ <str as PartialEq>::eq ](a: &str, b: &str) -> (r: bool)
    ensures
        r == (a@ == b@),
;

/// `text` begins with `prefix`.
pub open spec fn has_prefix(text: Seq<char>, prefix: Seq<char>) -> bool {
    prefix.len() <= text.len() && text.take(prefix.len() as int) == prefix
}

/// `text` ends with `suffix`.
pub open spec fn has_suffix(text: Seq<char>, suffix: Seq<char>) -> bool {
    suffix.len() <= text.len() && text.skip(text.len() - suffix.len()) == suffix
}

/// `text` with every leftmost, non-overlapping occurrence of `from` replaced by `to`.
/// An empty `from` matches before every character and at the end.
pub open spec fn replaced(text: Seq<char>, from: Seq<char>, to: Seq<char>) -> Seq<char>
    decreases text.len(),
{
    if text.len() == 0 {
        if from.len() == 0 {
            to
        } else {
            text
        }
    } else if from.len() == 0 {
        to + seq![text[0]] + replaced(text.skip(1), from, to)
    } else if has_prefix(text, from) {
        to + replaced(text.skip(from.len() as int), from, to)
    } else {
        seq![text[0]] + replaced(text.skip(1), from, to)
    }
}

/// The characters of `s`, in order.
pub fn chars_of(s: &str) -> (out: Vec<char>)
    ensures
        out@ == s@,
{
    let mut out: Vec<char> = Vec::new();
    for c in it: s.chars()
        invariant
            out@ == s@.take(it.index() as int),
            it.seq() == s@,
    {
        out.push(c);
    }
    out
}

/// Whether `pattern` occurs in `text` starting at position `at`.
pub fn matches_at(text: &Vec<char>, at: usize, pattern: &Vec<char>) -> (r: bool)
    requires
        at <= text.len(),
    ensures
        r == has_prefix(text@.skip(at as int), pattern@),
{
    if pattern.len() > text.len() - at {
        return false;
    }
    let mut k: usize = 0;
    while k < pattern.len()
        invariant
            at + pattern.len() <= text.len(),
            k <= pattern.len(),
            forall|j: int| 0 <= j < k ==> text@[at + j] == pattern@[j],
        decreases pattern.len() - k,
    {
        if text[at + k] != pattern[k] {
            proof {
                let rest = text@.skip(at as int);
                assert(rest.take(pattern.len() as int)[k as int] == text@[at + k]);
            }
            return false;
        }
        k += 1;
    }
    proof {
        assert(text@.skip(at as int).take(pattern.len() as int) =~= pattern@);
    }
    true
}

/// Whether `text` begins with `prefix`.
pub fn starts_with(text: &str, prefix: &str) -> (r: bool)
    ensures
        r == has_prefix(text@, prefix@),
{
    let t = chars_of(text);
    let p = chars_of(prefix);
    proof {
        assert(t@.skip(0) =~= t@);
    }
    matches_at(&t, 0, &p)
}

/// The characters of `text` from position `from` up to, not including, position `to`.
pub fn slice_text(text: &Vec<char>, from: usize, to: usize) -> (out: String)
    requires
        from <= to <= text.len(),
    ensures
        out@ == text@.subrange(from as int, to as int),
{
    let mut out = String::new();
    let mut i: usize = from;
    while i < to
        invariant
            from <= i <= to <= text.len(),
            out@ == text@.subrange(from as int, i as int),
        decreases to - i,
    {
        out.push(text[i]);
        proof {
            assert(text@.subrange(from as int, i as int).push(text@[i as int])
                =~= text@.subrange(from as int, i + 1));
        }
        i += 1;
    }
    out
}

/// Replaces every occurrence of `from` in `text` by `to`, scanning from the left.
pub fn replace_all(text: &str, from: &str, to: &str) -> (out: String)
    ensures
        out@ == replaced(text@, from@, to@),
{
    let t = chars_of(text);
    let f = chars_of(from);
    let mut out = String::new();
    let mut i: usize = 0;
    proof {
        assert(t@.skip(0) =~= t@);
        assert(out@ + replaced(t@, from@, to@) =~= replaced(t@, from@, to@));
    }
    while i < t.len()
        invariant
            i <= t.len(),
            t@ == text@,
            f@ == from@,
            out@ + replaced(t@.skip(i as int), from@, to@) == replaced(text@, from@, to@),
        decreases t.len() - i,
    {
        let ghost rest = t@.skip(i as int);
        let ghost before = out@;
        proof {
            assert(rest.len() > 0);
            assert(rest[0] == t@[i as int]);
        }
        if f.len() == 0 {
            out.append(to);
            out.push(t[i]);
            proof {
                assert(rest.skip(1) =~= t@.skip(i + 1));
                assert(out@ + replaced(t@.skip(i + 1), from@, to@) =~= before + replaced(
                    rest,
                    from@,
                    to@,
                ));
            }
            i += 1;
        } else if matches_at(&t, i, &f) {
            out.append(to);
            proof {
                assert(rest.skip(f.len() as int) =~= t@.skip(i + f.len()));
                assert(out@ + replaced(t@.skip(i + f.len()), from@, to@) =~= before + replaced(
                    rest,
                    from@,
                    to@,
                ));
            }
            i += f.len();
        } else {
            out.push(t[i]);
            proof {
                assert(rest.skip(1) =~= t@.skip(i + 1));
                assert(out@ + replaced(t@.skip(i + 1), from@, to@) =~= before + replaced(
                    rest,
                    from@,
                    to@,
                ));
            }
            i += 1;
        }
    }
    proof {
        assert(t@.skip(i as int).len() == 0);
    }
    if f.len() == 0 {
        out.append(to);
    }
    proof {
        if f.len() != 0 {
            assert(out@ + t@.skip(i as int) =~= out@);
        }
    }
    out
}

/// Position of the last occurrence of `c` in `text`, if there is one.
pub open spec fn last_index_of(text: Seq<char>, c: char) -> Option<int>
    decreases text.len(),
{
    if text.len() == 0 {
        None
    } else if text.last() == c {
        Some(text.len() - 1)
    } else {
        last_index_of(text.drop_last(), c)
    }
}

/// What `last_index_of` finds is an occurrence of `c`, and none follows it.
pub proof fn lemma_last_index_of(text: Seq<char>, c: char)
    ensures
        match last_index_of(text, c) {
            Some(i) => 0 <= i < text.len() && text[i] == c && forall|j: int|
                i < j < text.len() ==> text[j] != c,
            None => forall|j: int| 0 <= j < text.len() ==> text[j] != c,
        },
    decreases text.len(),
{
    if text.len() > 0 && text.last() != c {
        let shorter = text.drop_last();
        lemma_last_index_of(shorter, c);
        assert(forall|j: int| 0 <= j < shorter.len() ==> shorter[j] == text[j]);
    }
}

/// Finds the last occurrence of `c` in `text`.
pub fn find_last(text: &Vec<char>, c: char) -> (r: Option<usize>)
    ensures
        match r {
            Some(i) => last_index_of(text@, c) == Some(i as int) && i < text.len() && text[i as int]
                == c,
            None => last_index_of(text@, c) is None,
        },
{
    let mut i: usize = text.len();
    proof {
        assert(text@.take(i as int) =~= text@);
    }
    while i > 0
        invariant
            i <= text.len(),
            last_index_of(text@, c) == last_index_of(text@.take(i as int), c),
        decreases i,
    {
        if text[i - 1] == c {
            return Some(i - 1);
        }
        proof {
            assert(text@.take(i as int).drop_last() =~= text@.take(i - 1));
        }
        i -= 1;
    }
    None
}

/// The characters that count as white space: those with the Unicode property `White_Space`.
pub open spec fn is_space(c: char) -> bool {
    let n = c as u32;
    ||| 0x09 <= n <= 0x0D
    ||| n == 0x20
    ||| n == 0x85
    ||| n == 0xA0
    ||| n == 0x1680
    ||| 0x2000 <= n <= 0x200A
    ||| n == 0x2028
    ||| n == 0x2029
    ||| n == 0x202F
    ||| n == 0x205F
    ||| n == 0x3000
}

/// `text` without the white space at its start.
pub open spec fn trimmed_start(text: Seq<char>) -> Seq<char>
    decreases text.len(),
{
    if text.len() > 0 && is_space(text[0]) {
        trimmed_start(text.skip(1))
    } else {
        text
    }
}

/// `text` without the white space at its end.
pub open spec fn trimmed_end(text: Seq<char>) -> Seq<char>
    decreases text.len(),
{
    if text.len() > 0 && is_space(text.last()) {
        trimmed_end(text.drop_last())
    } else {
        text
    }
}

/// `text` without the white space at either end.
pub open spec fn trimmed(text: Seq<char>) -> Seq<char> {
    trimmed_end(trimmed_start(text))
}

/// Whether `c` is white space.
pub fn is_space_char(c: char) -> (r: bool)
    ensures
        r == is_space(c),
{
    let n: u32 = c as u32;
    (0x09 <= n && n <= 0x0D) || n == 0x20 || n == 0x85 || n == 0xA0 || n == 0x1680 || (0x2000 <= n
        && n <= 0x200A) || n == 0x2028 || n == 0x2029 || n == 0x202F || n == 0x205F || n == 0x3000
}

/// Removes the white space at both ends of `text`.
pub fn trim(text: &str) -> (out: String)
    ensures
        out@ == trimmed(text@),
{
    let t = chars_of(text);
    let mut start: usize = 0;
    proof {
        assert(t@.skip(0) =~= t@);
    }
    while start < t.len() && is_space_char(t[start])
        invariant
            start <= t.len(),
            trimmed_start(t@) == trimmed_start(t@.skip(start as int)),
        decreases t.len() - start,
    {
        proof {
            assert(t@.skip(start as int).skip(1) =~= t@.skip(start + 1));
        }
        start += 1;
    }
    let mut end: usize = t.len();
    proof {
        assert(t@.subrange(start as int, end as int) =~= t@.skip(start as int));
    }
    while end > start && is_space_char(t[end - 1])
        invariant
            start <= end <= t.len(),
            trimmed(t@) == trimmed_end(t@.subrange(start as int, end as int)),
        decreases end,
    {
        proof {
            assert(t@.subrange(start as int, end as int).drop_last() =~= t@.subrange(
                start as int,
                end - 1,
            ));
        }
        end -= 1;
    }
    slice_text(&t, start, end)
}

/// The decimal digit that stands for `d`.
pub open spec fn digit_char(d: nat) -> char {
    ((48 + d) as u8) as char
}

/// `n` written in decimal, without leading zeros.
pub open spec fn decimal_text(n: nat) -> Seq<char>
    decreases n,
{
    if n < 10 {
        seq![digit_char(n)]
    } else {
        decimal_text(n / 10).push(digit_char(n % 10))
    }
}

/// Writes `n` in decimal.
pub fn decimal(n: usize) -> (out: String)
    ensures
        out@ == decimal_text(n as nat),
    decreases n,
{
    if n < 10 {
        let mut out = String::new();
        out.push((48u8 + n as u8) as char);
        proof {
            assert(out@ =~= seq![digit_char(n as nat)]);
        }
        out
    } else {
        let mut out = decimal(n / 10);
        out.push((48u8 + (n % 10) as u8) as char);
        out
    }
}

/// `true` or `false`, written out.
pub open spec fn bool_text(b: bool) -> Seq<char> {
    if b {
        "true"@
    } else {
        "false"@
    }
}

/// Writes `b` as `true` or `false`.
pub fn bool_string(b: bool) -> (out: String)
    ensures
        out@ == bool_text(b),
{
    if b {
        String::from_str("true")
    } else {
        String::from_str("false")
    }
}

/// The texts `parts`, in order, with `sep` between each two neighbours.
pub open spec fn joined(parts: Seq<Seq<char>>, sep: Seq<char>) -> Seq<char>
    decreases parts.len(),
{
    if parts.len() == 0 {
        Seq::empty()
    } else if parts.len() == 1 {
        parts[0]
    } else {
        joined(parts.drop_last(), sep) + sep + parts.last()
    }
}

/// Joins `parts` with `sep` between each two neighbours.
pub fn join(parts: &Vec<String>, sep: &str) -> (out: String)
    ensures
        out@ == joined(parts.deep_view(), sep@),
{
    let mut out = String::new();
    let mut i: usize = 0;
    let ghost all = parts.deep_view();
    while i < parts.len()
        invariant
            i <= parts.len(),
            all == parts.deep_view(),
            out@ == joined(all.take(i as int), sep@),
        decreases parts.len() - i,
    {
        proof {
            assert(all.take(i + 1).drop_last() =~= all.take(i as int));
            assert(all.take(i + 1).last() == parts@[i as int]@);
        }
        if i > 0 {
            out.append(sep);
        }
        out.append(parts[i].as_str());
        proof {
            if i == 0 {
                assert(out@ =~= parts@[0]@);
            }
        }
        i += 1;
    }
    proof {
        assert(all.take(i as int) =~= all);
    }
    out
}

/// `text` without `prefix` at its start, where it starts with it.
pub open spec fn without_prefix(text: Seq<char>, prefix: Seq<char>) -> Option<Seq<char>> {
    if has_prefix(text, prefix) {
        Some(text.skip(prefix.len() as int))
    } else {
        None
    }
}

/// `text` without `suffix` at its end, where it ends with it.
pub open spec fn without_suffix(text: Seq<char>, suffix: Seq<char>) -> Option<Seq<char>> {
    if has_suffix(text, suffix) {
        Some(text.take(text.len() - suffix.len()))
    } else {
        None
    }
}

/// Removes `prefix` from the start of `text`, where `text` starts with it.
pub fn strip_prefix(text: &str, prefix: &str) -> (out: Option<String>)
    ensures
        out.deep_view() == without_prefix(text@, prefix@),
{
    let t = chars_of(text);
    let p = chars_of(prefix);
    proof {
        assert(t@.skip(0) =~= t@);
    }
    if matches_at(&t, 0, &p) {
        let rest = slice_text(&t, p.len(), t.len());
        proof {
            assert(t@.subrange(p.len() as int, t.len() as int) =~= t@.skip(p.len() as int));
        }
        Some(rest)
    } else {
        None
    }
}

/// Removes `suffix` from the end of `text`, where `text` ends with it.
pub fn strip_suffix(text: &str, suffix: &str) -> (out: Option<String>)
    ensures
        out.deep_view() == without_suffix(text@, suffix@),
{
    let t = chars_of(text);
    let s = chars_of(suffix);
    if s.len() > t.len() {
        return None;
    }
    let at = t.len() - s.len();
    proof {
        let rest = t@.skip(at as int);
        assert(rest.take(s.len() as int) =~= rest);
    }
    if matches_at(&t, at, &s) {
        let rest = slice_text(&t, 0, at);
        proof {
            assert(t@.subrange(0, at as int) =~= t@.take(at as int));
        }
        Some(rest)
    } else {
        None
    }
}

/// Position of the first occurrence of `c` in `text`, if there is one.
pub open spec fn first_index_of(text: Seq<char>, c: char) -> Option<int>
    decreases text.len(),
{
    if text.len() == 0 {
        None
    } else if text[0] == c {
        Some(0)
    } else {
        match first_index_of(text.skip(1), c) {
            Some(i) => Some(i + 1),
            None => None,
        }
    }
}

/// What `first_index_of` finds is an occurrence of `c`, and none comes before it.
pub proof fn lemma_first_index_of(text: Seq<char>, c: char)
    ensures
        match first_index_of(text, c) {
            Some(i) => 0 <= i < text.len() && text[i] == c && forall|j: int|
                0 <= j < i ==> text[j] != c,
            None => forall|j: int| 0 <= j < text.len() ==> text[j] != c,
        },
    decreases text.len(),
{
    if text.len() > 0 && text[0] != c {
        let rest = text.skip(1);
        lemma_first_index_of(rest, c);
        match first_index_of(rest, c) {
            Some(i) => {
                assert forall|j: int| 0 <= j < i + 1 implies text[j] != c by {
                    if j > 0 {
                        assert(rest[j - 1] == text[j]);
                    }
                }
            },
            None => {
                assert forall|j: int| 0 <= j < text.len() implies text[j] != c by {
                    if j > 0 {
                        assert(rest[j - 1] == text[j]);
                    }
                }
            },
        }
    }
}

/// A line without the carriage return that ends it, if one does.
pub open spec fn without_carriage_return(line: Seq<char>) -> Seq<char> {
    if line.len() > 0 && line.last() == '\r' {
        line.drop_last()
    } else {
        line
    }
}

/// The lines of `text`. A line ends with a line feed, or with a carriage return and a line
/// feed, neither of which belongs to the line; the last line may end with the text.
pub open spec fn lines_of(text: Seq<char>) -> Seq<Seq<char>>
    decreases text.len(),
{
    if text.len() == 0 {
        Seq::empty()
    } else {
        match first_index_of(text, '\n') {
            Some(end) => if 0 <= end < text.len() {
                seq![without_carriage_return(text.take(end))] + lines_of(text.skip(end + 1))
            } else {
                Seq::empty()
            },
            None => seq![text],
        }
    }
}

/// Splits `text` into its lines.
pub fn lines(text: &str) -> (out: Vec<String>)
    ensures
        out.deep_view() == lines_of(text@),
{
    let t = chars_of(text);
    let mut out: Vec<String> = Vec::new();
    let mut start: usize = 0;
    proof {
        assert(t@.skip(0) =~= t@);
        assert(out.deep_view() + lines_of(t@) =~= lines_of(t@));
    }
    while start < t.len()
        invariant
            start <= t.len(),
            t@ == text@,
            out.deep_view() + lines_of(t@.skip(start as int)) == lines_of(text@),
        decreases t.len() - start,
    {
        let ghost rest = t@.skip(start as int);
        let ghost before = out.deep_view();
        let mut end: usize = start;
        while end < t.len() && t[end] != '\n'
            invariant
                start <= end <= t.len(),
                forall|j: int| start <= j < end ==> t@[j] != '\n',
            decreases t.len() - end,
        {
            end += 1;
        }
        proof {
            lemma_first_index_of(rest, '\n');
            assert(forall|j: int| 0 <= j < rest.len() ==> rest[j] == t@[start + j]);
        }
        if end < t.len() {
            proof {
                assert(rest[end - start] == '\n');
                assert(first_index_of(rest, '\n') == Some(end - start));
                assert(rest.take(end - start) =~= t@.subrange(start as int, end as int));
                assert(rest.skip(end - start + 1) =~= t@.skip(end + 1));
            }
            let stop = if end > start && t[end - 1] == '\r' {
                end - 1
            } else {
                end
            };
            let line = slice_text(&t, start, stop);
            proof {
                let whole = t@.subrange(start as int, end as int);
                if end > start && t@[end - 1] == '\r' {
                    assert(whole.last() == '\r');
                    assert(whole.drop_last() =~= t@.subrange(start as int, end - 1));
                }
                assert(line@ == without_carriage_return(whole));
            }
            out.push(line);
            proof {
                assert(out.deep_view() =~= before.push(line@));
                assert(out.deep_view() + lines_of(t@.skip(end + 1)) =~= before + lines_of(rest));
            }
            start = end + 1;
        } else {
            proof {
                assert(first_index_of(rest, '\n') is None);
                assert(rest =~= t@.subrange(start as int, end as int));
                assert(t@.skip(end as int).len() == 0);
            }
            let line = slice_text(&t, start, end);
            out.push(line);
            proof {
                assert(out.deep_view() =~= before.push(line@));
                assert(out.deep_view() + lines_of(t@.skip(end as int)) =~= before + lines_of(
                    rest,
                ));
            }
            start = end;
        }
    }
    proof {
        assert(t@.skip(start as int).len() == 0);
        assert(out.deep_view() + lines_of(t@.skip(start as int)) =~= out.deep_view());
    }
    out
}

/// Whether `c` is a decimal digit.
pub open spec fn is_digit(c: char) -> bool {
    48 <= c as u32 <= 57
}

/// The number that digit `c` stands for.
pub open spec fn digit_value(c: char) -> nat {
    (c as u32 - 48) as nat
}

/// The number that the digits `digits` stand for in decimal.
pub open spec fn digits_value(digits: Seq<char>) -> nat
    decreases digits.len(),
{
    if digits.len() == 0 {
        0
    } else {
        digits_value(digits.drop_last()) * 10 + digit_value(digits.last())
    }
}

/// Every character of `digits` is a decimal digit.
pub open spec fn all_digits(digits: Seq<char>) -> bool {
    forall|i: int| 0 <= i < digits.len() ==> is_digit(#[trigger] digits[i])
}

/// The number that `text` stands for: one or more decimal digits, after an optional `+`,
/// whose value fits in 64 bits. Any other text stands for none.
pub open spec fn parsed_u64(text: Seq<char>) -> Option<u64> {
    let digits = if text.len() > 0 && text[0] == '+' {
        text.skip(1)
    } else {
        text
    };
    if digits.len() > 0 && all_digits(digits) && digits_value(digits) <= u64::MAX {
        Some(digits_value(digits) as u64)
    } else {
        None
    }
}

/// More digits never stand for less.
pub proof fn lemma_digits_value_grows(digits: Seq<char>, k: int)
    requires
        0 <= k <= digits.len(),
    ensures
        digits_value(digits.take(k)) <= digits_value(digits),
    decreases digits.len() - k,
{
    if k < digits.len() {
        lemma_digits_value_grows(digits, k + 1);
        assert(digits.take(k + 1).drop_last() =~= digits.take(k));
    } else {
        assert(digits.take(k) =~= digits);
    }
}

/// Reads a number written in decimal.
pub fn parse_u64(text: &str) -> (out: Option<u64>)
    ensures
        out == parsed_u64(text@),
{
    let t = chars_of(text);
    let first: usize = if t.len() > 0 && t[0] == '+' {
        1
    } else {
        0
    };
    let ghost digits = t@.skip(first as int);
    if first == t.len() {
        return None;
    }
    let mut value: u64 = 0;
    let mut i: usize = first;
    proof {
        assert(digits.take(0) =~= Seq::<char>::empty());
    }
    while i < t.len()
        invariant
            first <= i <= t.len(),
            first < t.len(),
            t@ == text@,
            first == (if t@.len() > 0 && t@[0] == '+' {
                1int
            } else {
                0int
            }),
            digits == t@.skip(first as int),
            all_digits(digits.take(i - first)),
            value == digits_value(digits.take(i - first)),
        decreases t.len() - i,
    {
        let code: u32 = t[i] as u32;
        proof {
            assert(digits[i - first] == t@[i as int]);
            assert(digits.take(i - first + 1).drop_last() =~= digits.take(i - first));
            assert(digits.take(i - first + 1).last() == t@[i as int]);
        }
        if code < 48 || code > 57 {
            proof {
                assert(t@.skip(0) =~= t@);
            }
            return None;
        }
        let digit: u64 = (code - 48) as u64;
        if value > (u64::MAX - digit) / 10 {
            proof {
                lemma_digits_value_grows(digits, i - first + 1);
                assert(t@.skip(0) =~= t@);
            }
            return None;
        }
        value = value * 10 + digit;
        proof {
            let longer = digits.take(i - first + 1);
            assert forall|j: int| 0 <= j < longer.len() implies is_digit(#[trigger] longer[j]) by {
                if j < i - first {
                    assert(longer[j] == digits.take(i - first)[j]);
                }
            }
        }
        i += 1;
    }
    proof {
        assert(digits.take(i - first) =~= digits);
        assert(t@.skip(0) =~= t@);
    }
    Some(value)
}

} // verus!
