//! Text handling on sequences of characters: white space, lines, words, fields and decimal
//! numbers.
//!
//! The specification functions work on `Seq<char>`, the view of `str` and `String`; the
//! executable functions work on slices of `char`, so that a position is an index.
use vstd::prelude::*;

verus! {

/// `String::push` appends one character to the string.
pub assume_specification[ String::push ](s: &mut String, c: char)
    ensures
        final(s)@ == old(s)@.push(c),
;

/// The characters with the Unicode property `White_Space`.
pub open spec fn is_white_space(c: char) -> bool {
    ||| '\u{9}' <= c <= '\u{d}'
    ||| c == ' '
    ||| c == '\u{85}'
    ||| c == '\u{a0}'
    ||| c == '\u{1680}'
    ||| '\u{2000}' <= c <= '\u{200a}'
    ||| c == '\u{2028}'
    ||| c == '\u{2029}'
    ||| c == '\u{202f}'
    ||| c == '\u{205f}'
    ||| c == '\u{3000}'
}

/// How many characters at the front of `s` are white space.
pub open spec fn leading_white(s: Seq<char>) -> nat
    decreases s.len(),
{
    if s.len() > 0 && is_white_space(s[0]) {
        1 + leading_white(s.drop_first())
    } else {
        0
    }
}

/// How many characters at the end of `s` are white space.
pub open spec fn trailing_white(s: Seq<char>) -> nat
    decreases s.len(),
{
    if s.len() > 0 && is_white_space(s.last()) {
        1 + trailing_white(s.drop_last())
    } else {
        0
    }
}

/// How many characters at the front of `s` are not white space.
pub open spec fn leading_word(s: Seq<char>) -> nat
    decreases s.len(),
{
    if s.len() > 0 && !is_white_space(s[0]) {
        1 + leading_word(s.drop_first())
    } else {
        0
    }
}

/// `s` without the white space at its two ends.
pub open spec fn trim(s: Seq<char>) -> Seq<char> {
    let front = s.skip(leading_white(s) as int);
    front.take(front.len() - trailing_white(front))
}

/// The first word of `s` and what follows it; `None` where `s` is blank.
pub open spec fn next_word(s: Seq<char>) -> Option<(Seq<char>, Seq<char>)> {
    let front = s.skip(leading_white(s) as int);
    if front.len() == 0 {
        None
    } else {
        Some((front.take(leading_word(front) as int), front.skip(leading_word(front) as int)))
    }
}

/// The position of the first `c` in `s`, or the length of `s` where there is none.
pub open spec fn find_char(s: Seq<char>, c: char) -> nat
    decreases s.len(),
{
    if s.len() == 0 || s[0] == c {
        0
    } else {
        1 + find_char(s.drop_first(), c)
    }
}

/// What stands before and behind the first `c` in `s`; `None` where there is no `c`.
pub open spec fn split_once(s: Seq<char>, c: char) -> Option<(Seq<char>, Seq<char>)> {
    let k = find_char(s, c) as int;
    if k < s.len() {
        Some((s.take(k), s.skip(k + 1)))
    } else {
        None
    }
}

/// `s` without one carriage return at its end.
pub open spec fn chomp(s: Seq<char>) -> Seq<char> {
    if s.len() > 0 && s.last() == '\r' {
        s.drop_last()
    } else {
        s
    }
}

/// The lines of `s`. A line ends with a line feed, or with a carriage return and a line feed;
/// the ending of the last line is optional.
pub open spec fn lines(s: Seq<char>) -> Seq<Seq<char>>
    decreases s.len(),
{
    if s.len() == 0 {
        Seq::empty()
    } else {
        let k = find_char(s, '\n') as int;
        if k < s.len() {
            seq![chomp(s.take(k))] + lines(s.skip(k + 1))
        } else {
            seq![s]
        }
    }
}

/// Lines joined by a carriage return and a line feed.
pub open spec fn join_lines(lines: Seq<Seq<char>>) -> Seq<char>
    decreases lines.len(),
{
    if lines.len() == 0 {
        Seq::empty()
    } else if lines.len() == 1 {
        lines[0]
    } else {
        lines[0] + "\r\n"@ + join_lines(lines.drop_first())
    }
}

/// Whether `line` has a character, and neither a carriage return nor a line feed in it.
pub open spec fn is_line(line: Seq<char>) -> bool {
    &&& line.len() > 0
    &&& forall|i: int| 0 <= i < line.len() ==> #[trigger] line[i] != '\r' && line[i] != '\n'
}

/// Lines that were joined are split again.
pub proof fn law_joined_lines_split(ls: Seq<Seq<char>>)
    requires
        ls.len() > 0,
        forall|i: int| 0 <= i < ls.len() ==> is_line(#[trigger] ls[i]),
    ensures
        lines(join_lines(ls)) == ls,
    decreases ls.len(),
{
    let joined = join_lines(ls);
    let line = ls[0];
    assert(is_line(line));
    if ls.len() == 1 {
        lemma_find_char_at(joined, '\n', joined.len() as int);
        assert(lines(joined) =~= ls);
    } else {
        reveal_strlit("\r\n");
        let rest = ls.drop_first();
        assert forall|i: int| 0 <= i < rest.len() implies is_line(#[trigger] rest[i]) by {
            assert(rest[i] == ls[i + 1]);
        }
        law_joined_lines_split(rest);
        let k = line.len() as int + 1;
        assert forall|i: int| 0 <= i < k implies #[trigger] joined[i] != '\n' by {
            if i < line.len() {
                assert(joined[i] == line[i]);
            }
        }
        lemma_find_char_at(joined, '\n', k);
        assert(joined.take(k).last() == '\r');
        assert(joined.take(k).drop_last() =~= line);
        assert(joined.skip(k + 1) =~= join_lines(rest));
        assert(seq![line] + rest =~= ls);
    }
}

/// `c` with an ASCII capital replaced by the small letter.
pub open spec fn ascii_lower(c: char) -> char {
    if 'A' <= c <= 'Z' {
        (c as u32 + 32) as char
    } else {
        c
    }
}

/// Whether `a` and `b` differ at most in the case of ASCII letters.
pub open spec fn eq_ignore_ascii_case(a: Seq<char>, b: Seq<char>) -> bool {
    &&& a.len() == b.len()
    &&& forall|i: int| 0 <= i < a.len() ==> ascii_lower(#[trigger] a[i]) == ascii_lower(b[i])
}

/// Whether every character of `s` is an ASCII digit.
pub open spec fn all_digits(s: Seq<char>) -> bool {
    forall|i: int| 0 <= i < s.len() ==> '0' <= #[trigger] s[i] <= '9'
}

/// The number that a sequence of digits writes in base ten.
pub open spec fn digits_value(s: Seq<char>) -> nat
    decreases s.len(),
{
    if s.len() == 0 {
        0
    } else {
        (digits_value(s.drop_last()) * 10 + (s.last() as u32 - '0' as u32)) as nat
    }
}

/// The number that `s` writes: an optional `+`, then one or more digits, of a value that fits
/// in `usize`.
pub open spec fn parse_usize(s: Seq<char>) -> Option<usize> {
    let digits = if s.len() > 0 && s[0] == '+' {
        s.skip(1)
    } else {
        s
    };
    if digits.len() > 0 && all_digits(digits) && digits_value(digits) <= usize::MAX {
        Some(digits_value(digits) as usize)
    } else {
        None
    }
}

/// The digit for `n`, which is below ten.
pub open spec fn digit(n: nat) -> char {
    ('0' as u32 + n) as char
}

/// `n` in base ten, without leading zeros.
pub open spec fn decimal(n: nat) -> Seq<char>
    decreases n,
{
    if n < 10 {
        seq![digit(n)]
    } else {
        decimal(n / 10).push(digit(n % 10))
    }
}

/// A number that was written in base ten is read back.
pub proof fn law_decimal_parses_back(n: nat)
    requires
        n <= usize::MAX,
    ensures
        parse_usize(decimal(n)) == Some(n as usize),
{
    lemma_decimal(n);
    assert(decimal(n)[0] != '+');
}

proof fn lemma_decimal(n: nat)
    ensures
        decimal(n).len() > 0,
        all_digits(decimal(n)),
        digits_value(decimal(n)) == n,
    decreases n,
{
    if n < 10 {
        assert(decimal(n).drop_last() =~= Seq::empty());
        reveal_with_fuel(digits_value, 2);
    } else {
        lemma_decimal(n / 10);
        assert(decimal(n).drop_last() =~= decimal(n / 10));
    }
}

/// A blank text has nothing but blanks to trim.
pub proof fn lemma_blank(s: Seq<char>)
    requires
        forall|i: int| 0 <= i < s.len() ==> is_white_space(#[trigger] s[i]),
    ensures
        leading_white(s) == s.len(),
        trim(s).len() == 0,
    decreases s.len(),
{
    if s.len() > 0 {
        assert forall|i: int| 0 <= i < s.drop_first().len() implies is_white_space(
            #[trigger] s.drop_first()[i],
        ) by {
            assert(s.drop_first()[i] == s[i + 1]);
        }
        lemma_blank(s.drop_first());
    }
    assert(s.skip(leading_white(s) as int).len() == 0);
}

proof fn lemma_leading_white(s: Seq<char>)
    ensures
        leading_white(s) <= s.len(),
        leading_white(s) < s.len() ==> !is_white_space(s[leading_white(s) as int]),
    decreases s.len(),
{
    if s.len() > 0 && is_white_space(s[0]) {
        lemma_leading_white(s.drop_first());
    }
}

proof fn lemma_trailing_white(s: Seq<char>)
    ensures
        trailing_white(s) <= s.len(),
        trailing_white(s) < s.len() ==> !is_white_space(s[s.len() - 1 - trailing_white(s)]),
    decreases s.len(),
{
    if s.len() > 0 && is_white_space(s.last()) {
        lemma_trailing_white(s.drop_last());
    }
}

/// Trimming twice is trimming once.
pub proof fn lemma_trim_twice(s: Seq<char>)
    ensures
        trim(trim(s)) == trim(s),
{
    let front = s.skip(leading_white(s) as int);
    let t = trim(s);
    lemma_leading_white(s);
    lemma_trailing_white(front);
    if t.len() > 0 {
        assert(t[0] == s[leading_white(s) as int]);
        assert(t.last() == front[front.len() - 1 - trailing_white(front)]);
        assert(leading_white(t) == 0 && t.skip(0) =~= t);
        assert(trailing_white(t) == 0 && t.take(t.len() as int) =~= t);
    } else {
        assert(trim(t) =~= t);
    }
}

/// A text with no white space at its two ends is trimmed.
pub proof fn lemma_trimmed(s: Seq<char>)
    requires
        s.len() > 0,
        !is_white_space(s[0]),
        !is_white_space(s.last()),
    ensures
        trim(s) == s,
{
    assert(s.skip(0) =~= s);
    assert(s.take(s.len() as int) =~= s);
}

/// `find_char` is the first position that holds the character.
pub proof fn lemma_find_char(s: Seq<char>, c: char)
    ensures
        find_char(s, c) <= s.len(),
        find_char(s, c) < s.len() ==> s[find_char(s, c) as int] == c,
        forall|i: int| 0 <= i < find_char(s, c) ==> s[i] != c,
    decreases s.len(),
{
    if s.len() > 0 && s[0] != c {
        lemma_find_char(s.drop_first(), c);
        assert forall|i: int| 0 <= i < find_char(s, c) implies s[i] != c by {
            if i > 0 {
                assert(s[i] == s.drop_first()[i - 1]);
            }
        }
    }
}

/// The first position of a character is the one with no such character before it.
pub proof fn lemma_find_char_at(s: Seq<char>, c: char, k: int)
    requires
        0 <= k <= s.len(),
        forall|i: int| 0 <= i < k ==> #[trigger] s[i] != c,
        k < s.len() ==> s[k] == c,
    ensures
        find_char(s, c) == k,
{
    lemma_find_char(s, c);
    let f = find_char(s, c) as int;
    if f < k {
        assert(s[f] == c);
    }
}

/// The length of a first word that starts at once.
pub proof fn lemma_leading_word_is(s: Seq<char>, k: int)
    requires
        0 <= k <= s.len(),
        forall|i: int| 0 <= i < k ==> !is_white_space(#[trigger] s[i]),
        k < s.len() ==> is_white_space(s[k]),
    ensures
        leading_word(s) == k,
    decreases s.len(),
{
    if s.len() > 0 && k > 0 {
        assert(!is_white_space(s[0]));
        let t = s.drop_first();
        assert forall|i: int| 0 <= i < k - 1 implies !is_white_space(#[trigger] t[i]) by {
            assert(t[i] == s[i + 1]);
        }
        lemma_leading_word_is(t, k - 1);
    }
}

/// The digits of a number: there is one at least, and each is a digit.
pub proof fn lemma_decimal_digits(n: nat)
    ensures
        decimal(n).len() > 0,
        all_digits(decimal(n)),
{
    lemma_decimal(n);
}

/// The encoding of two texts in a row.
pub proof fn lemma_encode_concat(a: Seq<char>, b: Seq<char>)
    ensures
        vstd::utf8::encode_utf8(a + b) == vstd::utf8::encode_utf8(a) + vstd::utf8::encode_utf8(b),
    decreases a.len(),
{
    if a.len() == 0 {
        assert(a + b =~= b);
        assert(vstd::utf8::encode_utf8(a) + vstd::utf8::encode_utf8(b)
            =~= vstd::utf8::encode_utf8(b));
    } else {
        lemma_encode_concat(a.drop_first(), b);
        assert((a + b).drop_first() =~= a.drop_first() + b);
        assert((a + b)[0] == a[0]);
        let first = vstd::utf8::encode_scalar(a[0] as u32);
        let rest = vstd::utf8::encode_utf8(a.drop_first());
        let tail = vstd::utf8::encode_utf8(b);
        assert(first + (rest + tail) =~= (first + rest) + tail);
    }
}

/// The encoding of a text without carriage returns has no carriage return in it.
pub proof fn lemma_encode_without_returns(s: Seq<char>)
    requires
        forall|i: int| 0 <= i < s.len() ==> #[trigger] s[i] != '\r',
    ensures
        s.len() > 0 ==> vstd::utf8::encode_utf8(s).len() > 0,
        forall|i: int|
            0 <= i < vstd::utf8::encode_utf8(s).len() ==> #[trigger] vstd::utf8::encode_utf8(s)[i]
                != 13,
    decreases s.len(),
{
    if s.len() > 0 {
        let t = s.drop_first();
        assert forall|i: int| 0 <= i < t.len() implies #[trigger] t[i] != '\r' by {
            assert(t[i] == s[i + 1]);
        }
        lemma_encode_without_returns(t);
        let c = s[0] as u32;
        assert(s[0] != '\r');
        vstd::utf8::char_is_scalar(s[0]);
        vstd::utf8::char_u32_cast(s[0], c);
        assert(c as char == s[0]);
        assert(c != 13);
        assert((c & 0x7f) as u8 != 13 || c > 0x7f) by (bit_vector)
            requires
                c != 13,
        ;
        let d = c >> 6;
        let e = c >> 12;
        let f = c >> 18;
        assert(0xC0u8 | ((d & 0x1F) as u8) != 13) by (bit_vector);
        assert(0xE0u8 | ((e & 0x0F) as u8) != 13) by (bit_vector);
        assert(0xF0u8 | ((f & 0x7) as u8) != 13) by (bit_vector);
        assert(0x80u8 | ((c & 0x3F) as u8) != 13) by (bit_vector);
        assert(0x80u8 | ((d & 0x3F) as u8) != 13) by (bit_vector);
        assert(0x80u8 | ((e & 0x3F) as u8) != 13) by (bit_vector);
        let first = vstd::utf8::encode_scalar(c);
        let rest = vstd::utf8::encode_utf8(t);
        let all = vstd::utf8::encode_utf8(s);
        assert(all == first + rest);
        assert forall|i: int| 0 <= i < all.len() implies #[trigger] all[i] != 13 by {
            if i >= first.len() {
                assert(all[i] == rest[i - first.len()]);
            }
        }
    }
}

/// The characters of a string.
pub fn chars_of(s: &str) -> (v: Vec<char>)
    ensures
        v@ == s@,
{
    let mut v: Vec<char> = Vec::new();
    for c in it: s.chars()
        invariant
            v@ == it.seq().take(it.index()),
            it.seq() == s@,
    {
        v.push(c);
    }
    v
}

/// The string made of the given characters.
pub fn string_of(v: &[char]) -> (s: String)
    ensures
        s@ == v@,
{
    let mut s = String::new();
    let mut i: usize = 0;
    while i < v.len()
        invariant
            i <= v.len(),
            s@ == v@.take(i as int),
        decreases v.len() - i,
    {
        s.push(v[i]);
        i += 1;
    }
    s
}

/// Whether two strings hold the same characters.
pub fn same_text(a: &str, b: &str) -> (same: bool)
    ensures
        same == (a@ == b@),
{
    let x = a.as_bytes();
    let y = b.as_bytes();
    proof {
        vstd::utf8::encode_utf8_decode_utf8(a@);
        vstd::utf8::encode_utf8_decode_utf8(b@);
    }
    if x.len() != y.len() {
        return false;
    }
    let mut i: usize = 0;
    while i < x.len()
        invariant
            i <= x.len(),
            x.len() == y.len(),
            x@ == vstd::utf8::encode_utf8(a@),
            y@ == vstd::utf8::encode_utf8(b@),
            forall|j: int| 0 <= j < i ==> x@[j] == y@[j],
        decreases x.len() - i,
    {
        if x[i] != y[i] {
            return false;
        }
        i += 1;
    }
    assert(x@ =~= y@);
    true
}

/// Whether the text begins with `prefix`.
pub fn starts_with(v: &[char], prefix: &str) -> (starts: bool)
    ensures
        starts == prefix@.is_prefix_of(v@),
{
    let p = chars_of(prefix);
    if p.len() > v.len() {
        return false;
    }
    let mut i: usize = 0;
    while i < p.len()
        invariant
            i <= p@.len() <= v@.len(),
            p@ == prefix@,
            forall|j: int| 0 <= j < i ==> p@[j] == v@[j],
        decreases p@.len() - i,
    {
        if p[i] != v[i] {
            assert(v@.subrange(0, p@.len() as int)[i as int] == v@[i as int]);
            return false;
        }
        i += 1;
    }
    assert(p@ =~= v@.subrange(0, p@.len() as int));
    true
}

/// Whether `c` has the Unicode property `White_Space`.
pub fn white_space(c: char) -> (white: bool)
    ensures
        white == is_white_space(c),
{
    ('\u{9}' <= c && c <= '\u{d}') || c == ' ' || c == '\u{85}' || c == '\u{a0}' || c
        == '\u{1680}' || ('\u{2000}' <= c && c <= '\u{200a}') || c == '\u{2028}' || c == '\u{2029}'
        || c == '\u{202f}' || c == '\u{205f}' || c == '\u{3000}'
}

/// The position in `v` of the first character at or behind `from` that is not white space.
fn skip_white(v: &[char], from: usize) -> (to: usize)
    requires
        from <= v@.len(),
    ensures
        from <= to <= v@.len(),
        to == from + leading_white(v@.skip(from as int)),
{
    let mut to: usize = from;
    while to < v.len() && white_space(v[to])
        invariant
            from <= to <= v@.len(),
            from + leading_white(v@.skip(from as int)) == to + leading_white(v@.skip(to as int)),
        decreases v@.len() - to,
    {
        assert(v@.skip(to as int).drop_first() =~= v@.skip(to + 1));
        to += 1;
    }
    to
}

/// The position in `v` of the first white space at or behind `from`.
fn skip_word(v: &[char], from: usize) -> (to: usize)
    requires
        from <= v@.len(),
    ensures
        from <= to <= v@.len(),
        to == from + leading_word(v@.skip(from as int)),
{
    let mut to: usize = from;
    while to < v.len() && !white_space(v[to])
        invariant
            from <= to <= v@.len(),
            from + leading_word(v@.skip(from as int)) == to + leading_word(v@.skip(to as int)),
        decreases v@.len() - to,
    {
        assert(v@.skip(to as int).drop_first() =~= v@.skip(to + 1));
        to += 1;
    }
    to
}

/// The position in `v` of the first `c` at or behind `from`, or the length of `v`.
fn skip_to(v: &[char], from: usize, c: char) -> (to: usize)
    requires
        from <= v@.len(),
    ensures
        from <= to <= v@.len(),
        to == from + find_char(v@.skip(from as int), c),
{
    let mut to: usize = from;
    while to < v.len() && v[to] != c
        invariant
            from <= to <= v@.len(),
            from + find_char(v@.skip(from as int), c) == to + find_char(v@.skip(to as int), c),
        decreases v@.len() - to,
    {
        assert(v@.skip(to as int).drop_first() =~= v@.skip(to + 1));
        to += 1;
    }
    to
}

/// The characters of `v` from `from` up to `to`.
pub fn copy_range(v: &[char], from: usize, to: usize) -> (part: Vec<char>)
    requires
        from <= to <= v@.len(),
    ensures
        part@ == v@.subrange(from as int, to as int),
{
    let mut part: Vec<char> = Vec::new();
    let mut i: usize = from;
    while i < to
        invariant
            from <= i <= to <= v@.len(),
            part@ == v@.subrange(from as int, i as int),
        decreases to - i,
    {
        part.push(v[i]);
        i += 1;
    }
    part
}

/// The text without the white space at its two ends.
pub fn trimmed(v: &[char]) -> (t: Vec<char>)
    ensures
        t@ == trim(v@),
{
    let from = skip_white(v, 0);
    let ghost front = v@.skip(from as int);
    assert(v@.skip(0) =~= v@);
    let mut to: usize = v.len();
    assert(front.take(front.len() as int) =~= front);
    while to > from && white_space(v[to - 1])
        invariant
            from <= to <= v@.len(),
            front == v@.skip(from as int),
            front.len() - trailing_white(front) == to - from - trailing_white(
                front.take(to - from),
            ),
        decreases to,
    {
        assert(front.take(to - from).drop_last() =~= front.take(to - 1 - from));
        assert(front.take(to - from).last() == v@[to - 1]);
        to -= 1;
    }
    proof {
        if to > from {
            assert(front.take(to - from).last() == v@[to - 1]);
        }
        assert(v@.subrange(from as int, to as int) =~= trim(v@));
    }
    copy_range(v, from, to)
}

/// The first word of the text, and the position behind it.
pub fn take_word(v: &[char], from: usize) -> (r: Option<(Vec<char>, usize)>)
    requires
        from <= v@.len(),
    ensures
        match next_word(v@.skip(from as int)) {
            None => r is None,
            Some((word, rest)) => {
                &&& r matches Some((w, to))
                &&& w@ == word
                &&& to <= v@.len()
                &&& v@.skip(to as int) == rest
            },
        },
{
    let start = skip_white(v, from);
    let ghost s = v@.skip(from as int);
    assert(s.skip(leading_white(s) as int) =~= v@.skip(start as int));
    if start >= v.len() {
        return None;
    }
    let end = skip_word(v, start);
    let ghost front = v@.skip(start as int);
    assert(front.take(leading_word(front) as int) =~= v@.subrange(start as int, end as int));
    assert(front.skip(leading_word(front) as int) =~= v@.skip(end as int));
    Some((copy_range(v, start, end), end))
}

/// What stands before and behind the first `c`.
pub fn split_at_char(v: &[char], c: char) -> (r: Option<(Vec<char>, Vec<char>)>)
    ensures
        match split_once(v@, c) {
            None => r is None,
            Some((before, after)) => {
                &&& r matches Some((b, a))
                &&& b@ == before
                &&& a@ == after
            },
        },
{
    let k = skip_to(v, 0, c);
    assert(v@.skip(0) =~= v@);
    if k >= v.len() {
        return None;
    }
    assert(v@.subrange(0, k as int) =~= v@.take(k as int));
    assert(v@.subrange(k + 1, v@.len() as int) =~= v@.skip(k + 1));
    Some((copy_range(v, 0, k), copy_range(v, k + 1, v.len())))
}

/// The lines as a sequence of sequences.
pub open spec fn lines_view(v: Seq<Vec<char>>) -> Seq<Seq<char>> {
    v.map_values(|line: Vec<char>| line@)
}

/// The lines of the text.
pub fn split_lines(v: &[char]) -> (r: Vec<Vec<char>>)
    ensures
        lines_view(r@) == lines(v@),
{
    let mut r: Vec<Vec<char>> = Vec::new();
    let mut i: usize = 0;
    assert(v@.skip(0) =~= v@);
    assert(lines_view(r@) + lines(v@) =~= lines(v@));
    while i < v.len()
        invariant
            i <= v@.len(),
            lines(v@) == lines_view(r@) + lines(v@.skip(i as int)),
        decreases v@.len() - i,
    {
        let k = skip_to(v, i, '\n');
        let ghost rest = v@.skip(i as int);
        let ghost seen = r@;
        let line: Vec<char>;
        if k < v.len() {
            assert(rest.take(k - i) =~= v@.subrange(i as int, k as int));
            if k > i && v[k - 1] == '\r' {
                line = copy_range(v, i, k - 1);
                assert(rest.take(k - i).drop_last() =~= v@.subrange(i as int, k - 1));
                assert(rest.take(k - i).last() == '\r');
            } else {
                line = copy_range(v, i, k);
            }
            assert(rest.skip(k - i + 1) =~= v@.skip(k + 1));
            assert(line@ == chomp(rest.take(k - i)));
            r.push(line);
            assert(lines_view(r@) =~= lines_view(seen) + seq![chomp(rest.take(k - i))]);
            i = k + 1;
        } else {
            assert(rest =~= v@.subrange(i as int, v@.len() as int));
            line = copy_range(v, i, v.len());
            r.push(line);
            assert(lines_view(r@) =~= lines_view(seen) + seq![rest]);
            i = v.len();
            assert(lines(v@.skip(i as int)) =~= Seq::empty());
        }
    }
    assert(lines(v@.skip(i as int)) =~= Seq::empty());
    r
}

/// `c` with an ASCII capital replaced by the small letter.
fn lower(c: char) -> (l: char)
    ensures
        l == ascii_lower(c),
{
    if 'A' <= c && c <= 'Z' {
        (c as u8 + 32) as char
    } else {
        c
    }
}

/// Whether the two texts differ at most in the case of ASCII letters.
pub fn same_ignoring_case(a: &[char], b: &[char]) -> (same: bool)
    ensures
        same == eq_ignore_ascii_case(a@, b@),
{
    if a.len() != b.len() {
        return false;
    }
    let mut i: usize = 0;
    while i < a.len()
        invariant
            i <= a@.len(),
            a@.len() == b@.len(),
            forall|j: int| 0 <= j < i ==> ascii_lower(#[trigger] a@[j]) == ascii_lower(b@[j]),
        decreases a@.len() - i,
    {
        if lower(a[i]) != lower(b[i]) {
            return false;
        }
        i += 1;
    }
    true
}

proof fn lemma_digits_value_monotonic(s: Seq<char>, k: int)
    requires
        0 <= k <= s.len(),
        all_digits(s),
    ensures
        digits_value(s.take(k)) <= digits_value(s),
    decreases s.len() - k,
{
    if k < s.len() {
        assert(s.take(k + 1).drop_last() =~= s.take(k));
        assert(s.take(k + 1).last() == s[k]);
        lemma_digits_value_monotonic(s, k + 1);
    } else {
        assert(s.take(k) =~= s);
    }
}

/// The number that the text writes, if it writes one.
pub fn read_usize(v: &[char]) -> (r: Option<usize>)
    ensures
        r == parse_usize(v@),
{
    let from: usize = if v.len() > 0 && v[0] == '+' {
        1
    } else {
        0
    };
    let ghost digits = v@.skip(from as int);
    assert(v@.skip(0) =~= v@);
    if from >= v.len() {
        return None;
    }
    let mut value: usize = 0;
    let mut i: usize = from;
    assert(digits.take(0) =~= Seq::empty());
    while i < v.len()
        invariant
            from <= i <= v@.len(),
            from <= 1,
            digits == v@.skip(from as int),
            parse_usize(v@) == (if digits.len() > 0 && all_digits(digits) && digits_value(digits)
                <= usize::MAX {
                Some(digits_value(digits) as usize)
            } else {
                None
            }),
            value == digits_value(digits.take(i - from)),
            forall|j: int| 0 <= j < i - from ==> '0' <= #[trigger] digits[j] <= '9',
        decreases v@.len() - i,
    {
        let c = v[i];
        assert(digits[i - from] == c);
        if c < '0' || c > '9' {
            return None;
        }
        let d: usize = (c as u8 - '0' as u8) as usize;
        proof {
            assert(digits.take(i + 1 - from).drop_last() =~= digits.take(i - from));
            assert(digits.take(i + 1 - from).last() == c);
            assert(digits_value(digits.take(i + 1 - from)) == value * 10 + d);
            if all_digits(digits) {
                lemma_digits_value_monotonic(digits, i + 1 - from);
            }
        }
        if value > (usize::MAX - d) / 10 {
            return None;
        }
        value = value * 10 + d;
        i += 1;
    }
    assert(digits.take(i - from) =~= digits);
    Some(value)
}

/// Appends `n` in base ten.
pub fn push_decimal(s: &mut String, n: u64)
    ensures
        final(s)@ == old(s)@ + decimal(n as nat),
    decreases n,
{
    if n >= 10 {
        push_decimal(s, n / 10);
    }
    let c = ('0' as u8 + (n % 10) as u8) as char;
    s.push(c);
    assert(c == digit(n as nat % 10));
}

/// Whether `s` has nothing but white space in it.
pub open spec fn is_blank(s: Seq<char>) -> bool {
    forall|i: int| 0 <= i < s.len() ==> is_white_space(#[trigger] s[i])
}

proof fn lemma_leading_white_is(s: Seq<char>, k: int)
    requires
        0 <= k <= s.len(),
        forall|i: int| 0 <= i < k ==> is_white_space(#[trigger] s[i]),
        k < s.len() ==> !is_white_space(s[k]),
    ensures
        leading_white(s) == k,
    decreases k,
{
    if k > 0 {
        assert(is_white_space(s[0]));
        assert forall|i: int| 0 <= i < k - 1 implies is_white_space(
            #[trigger] s.drop_first()[i],
        ) by {
            assert(s.drop_first()[i] == s[i + 1]);
        }
        lemma_leading_white_is(s.drop_first(), k - 1);
    }
}

proof fn lemma_trailing_white_is(s: Seq<char>, k: int)
    requires
        0 <= k <= s.len(),
        forall|i: int| k <= i < s.len() ==> is_white_space(#[trigger] s[i]),
        k > 0 ==> !is_white_space(s[k - 1]),
    ensures
        trailing_white(s) == s.len() - k,
    decreases s.len(),
{
    if k < s.len() {
        assert(is_white_space(s[s.len() - 1]));
        assert forall|i: int| k <= i < s.len() - 1 implies is_white_space(
            #[trigger] s.drop_last()[i],
        ) by {
            assert(s.drop_last()[i] == s[i]);
        }
        lemma_trailing_white_is(s.drop_last(), k);
    }
}

/// Trimming cuts the blanks at both ends, all of them and nothing else.
pub proof fn law_trim_cuts_the_blanks_at_both_ends(
    before: Seq<char>,
    kept: Seq<char>,
    behind: Seq<char>,
)
    requires
        is_blank(before),
        is_blank(behind),
        kept.len() > 0,
        !is_white_space(kept[0]),
        !is_white_space(kept.last()),
    ensures
        trim(before + kept + behind) == kept,
{
    let s = before + kept + behind;
    let k = before.len() as int;
    assert forall|i: int| 0 <= i < k implies is_white_space(#[trigger] s[i]) by {
        assert(s[i] == before[i]);
    }
    assert(s[k] == kept[0]);
    lemma_leading_white_is(s, k);
    let front = s.skip(k);
    assert(front =~= kept + behind);
    let n = kept.len() as int;
    assert forall|i: int| n <= i < front.len() implies is_white_space(#[trigger] front[i]) by {
        assert(front[i] == behind[i - n]);
    }
    assert(front[n - 1] == kept.last());
    lemma_trailing_white_is(front, n);
    assert(front.take(n) =~= kept);
}

/// The first word of a text is what stands between its blanks; what follows it is left.
pub proof fn law_first_word_stands_between_blanks(
    before: Seq<char>,
    word: Seq<char>,
    rest: Seq<char>,
)
    requires
        is_blank(before),
        word.len() > 0,
        forall|i: int| 0 <= i < word.len() ==> !is_white_space(#[trigger] word[i]),
        rest.len() > 0 ==> is_white_space(rest[0]),
    ensures
        next_word(before + word + rest) == Some((word, rest)),
{
    let s = before + word + rest;
    let k = before.len() as int;
    assert forall|i: int| 0 <= i < k implies is_white_space(#[trigger] s[i]) by {
        assert(s[i] == before[i]);
    }
    assert(s[k] == word[0]);
    lemma_leading_white_is(s, k);
    let front = s.skip(k);
    assert(front =~= word + rest);
    let n = word.len() as int;
    assert forall|i: int| 0 <= i < n implies !is_white_space(#[trigger] front[i]) by {
        assert(front[i] == word[i]);
    }
    if rest.len() > 0 {
        assert(front[n] == rest[0]);
    }
    lemma_leading_word_is(front, n);
    assert(front.take(n) =~= word);
    assert(front.skip(n) =~= rest);
}

/// A blank text has no word.
pub proof fn law_blank_text_has_no_word(s: Seq<char>)
    requires
        is_blank(s),
    ensures
        next_word(s) is None,
        trim(s).len() == 0,
{
    lemma_blank(s);
}

/// A text is split at the first occurrence of a character, and not where there is none.
pub proof fn law_text_is_split_at_the_first(before: Seq<char>, c: char, behind: Seq<char>)
    requires
        forall|i: int| 0 <= i < before.len() ==> #[trigger] before[i] != c,
    ensures
        split_once(before.push(c) + behind, c) == Some((before, behind)),
        split_once(before, c) is None,
{
    let s = before.push(c) + behind;
    let k = before.len() as int;
    assert forall|i: int| 0 <= i < k implies #[trigger] s[i] != c by {
        assert(s[i] == before[i]);
    }
    assert(s[k] == c);
    lemma_find_char_at(s, c, k);
    assert(s.take(k) =~= before);
    assert(s.skip(k + 1) =~= behind);
    lemma_find_char_at(before, c, k);
}

/// A line ends at the line feed, without one carriage return before it; what follows are the
/// further lines, and a text without a line feed is one line.
pub proof fn law_lines_end_at_line_feeds(line: Seq<char>, rest: Seq<char>)
    requires
        forall|i: int| 0 <= i < line.len() ==> #[trigger] line[i] != '\n',
    ensures
        lines(line.push('\r').push('\n') + rest) == seq![line] + lines(rest),
        (line.len() == 0 || line.last() != '\r') ==> lines(line.push('\n') + rest) == seq![line]
            + lines(rest),
        line.len() > 0 ==> lines(line) == seq![line],
        lines(Seq::empty()) == Seq::<Seq<char>>::empty(),
{
    let plain = line.push('\n') + rest;
    let k = line.len() as int;
    assert forall|i: int| 0 <= i < k implies #[trigger] plain[i] != '\n' by {
        assert(plain[i] == line[i]);
    }
    assert(plain[k] == '\n');
    lemma_find_char_at(plain, '\n', k);
    assert(plain.take(k) =~= line);
    assert(plain.skip(k + 1) =~= rest);
    let returned = line.push('\r').push('\n') + rest;
    assert forall|i: int| 0 <= i < k + 1 implies #[trigger] returned[i] != '\n' by {
        if i < k {
            assert(returned[i] == line[i]);
        }
    }
    assert(returned[k + 1] == '\n');
    lemma_find_char_at(returned, '\n', k + 1);
    assert(returned.take(k + 1) =~= line.push('\r'));
    assert(line.push('\r').drop_last() =~= line);
    assert(returned.skip(k + 2) =~= rest);
    lemma_find_char_at(line, '\n', k);
}

/// Numbers are read digit by digit in base ten.
pub proof fn law_number_is_read_digit_by_digit(s: Seq<char>, d: nat)
    requires
        d < 10,
    ensures
        parse_usize(seq![('0' as u32 + d) as char]) == Some(d as usize),
        parse_usize(s) matches Some(n) ==> parse_usize(s.push(('0' as u32 + d) as char)) == if n
            * 10 + d <= usize::MAX {
            Some((n * 10 + d) as usize)
        } else {
            None
        },
{
    let c = ('0' as u32 + d) as char;
    let one = seq![c];
    assert('0' <= c <= '9');
    assert(one.drop_last() =~= Seq::empty());
    reveal_with_fuel(digits_value, 2);
    assert(digits_value(one) == d);
    assert(all_digits(one));
    if parse_usize(s) is Some {
        let more = s.push(c);
        let digits = if s[0] == '+' {
            s.skip(1)
        } else {
            s
        };
        let further = digits.push(c);
        assert(more[0] == s[0]);
        if s[0] == '+' {
            assert(more.skip(1) =~= further);
        }
        assert(further.drop_last() =~= digits);
        assert(digits_value(further) == digits_value(digits) * 10 + d);
        assert forall|i: int| 0 <= i < further.len() implies '0' <= #[trigger] further[i] <= '9' by {
            if i < digits.len() {
                assert(further[i] == digits[i]);
            }
        }
    }
}

/// A sign of plus before a number makes no difference; what holds anything but digits behind it is
/// no number, and neither is what holds none.
pub proof fn law_only_digits_are_a_number(s: Seq<char>)
    ensures
        s.len() > 0 && s[0] != '+' ==> parse_usize(seq!['+'] + s) == parse_usize(s),
        parse_usize(s) is Some ==> {
            &&& s.len() > 0
            &&& s[0] == '+' ==> s.len() > 1
            &&& forall|i: int| 1 <= i < s.len() ==> '0' <= #[trigger] s[i] <= '9'
            &&& s[0] == '+' || '0' <= s[0] <= '9'
        },
{
    assert((seq!['+'] + s).skip(1) =~= s);
    if parse_usize(s) is Some && s[0] == '+' {
        assert forall|i: int| 1 <= i < s.len() implies '0' <= #[trigger] s[i] <= '9' by {
            assert(s.skip(1)[i - 1] == s[i]);
        }
    }
}

/// A number is written digit by digit in base ten, without a zero in front.
pub proof fn law_number_is_written_digit_by_digit(n: nat, d: nat)
    requires
        d < 10,
    ensures
        decimal(d) == seq![('0' as u32 + d) as char],
        n > 0 ==> decimal(n * 10 + d) == decimal(n).push(('0' as u32 + d) as char),
{
    assert((n * 10 + d) / 10 == n);
    assert((n * 10 + d) % 10 == d);
}

/// Texts that are the same but for case have the same characters, except that an ASCII letter may
/// stand as a capital in one and as a small letter in the other.
pub proof fn law_case_is_that_of_ascii_letters(a: Seq<char>, b: Seq<char>)
    ensures
        eq_ignore_ascii_case(a, b) <==> a.len() == b.len() && forall|i: int|
            0 <= i < a.len() ==> {
                ||| #[trigger] a[i] == b[i]
                ||| 'A' <= a[i] <= 'Z' && b[i] as u32 == a[i] as u32 + 32
                ||| 'A' <= b[i] <= 'Z' && a[i] as u32 == b[i] as u32 + 32
            },
{
    assert forall|x: char, y: char|
        (#[trigger] ascii_lower(x) == #[trigger] ascii_lower(y)) == {
            ||| x == y
            ||| 'A' <= x <= 'Z' && y as u32 == x as u32 + 32
            ||| 'A' <= y <= 'Z' && x as u32 == y as u32 + 32
        } by {
        lemma_lower(x);
        lemma_lower(y);
    }
}

proof fn lemma_lower(c: char)
    ensures
        'A' <= c <= 'Z' ==> ascii_lower(c) as u32 == c as u32 + 32,
        !('A' <= c <= 'Z') ==> ascii_lower(c) == c,
{
}

} // verus!
