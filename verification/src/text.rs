//! Text primitives over sequences of characters: substring search, affix
//! tests, whitespace trimming, line splitting and decimal rendering.
//!
//! Every executable function here works on a slice of `char` and is specified
//! against a function on `Seq<char>`.

use vstd::prelude::*;
use vstd::slice::slice_subrange;

verus! {

/// `needle` stands in `hay` at offset `at`.
pub open spec fn occurs_at(hay: Seq<char>, needle: Seq<char>, at: int) -> bool {
    &&& 0 <= at
    &&& at + needle.len() <= hay.len()
    &&& hay.subrange(at, at + needle.len()) == needle
}

/// `needle` stands somewhere in `hay`. The empty needle stands in every text.
pub open spec fn contains(hay: Seq<char>, needle: Seq<char>) -> bool {
    exists|at: int| occurs_at(hay, needle, at)
}

/// `s` begins with `prefix`.
pub open spec fn starts_with(s: Seq<char>, prefix: Seq<char>) -> bool {
    occurs_at(s, prefix, 0)
}

/// `s` ends with `suffix`.
pub open spec fn ends_with(s: Seq<char>, suffix: Seq<char>) -> bool {
    occurs_at(s, suffix, s.len() - suffix.len())
}

/// `c` occurs in `s`.
pub open spec fn has_char(s: Seq<char>, c: char) -> bool {
    exists|i: int| 0 <= i < s.len() && s[i] == c
}

/// The text of a string that may be absent.
pub open spec fn text_of(s: Option<String>) -> Option<Seq<char>> {
    match s {
        Some(text) => Some(text@),
        None => None,
    }
}

/// The characters of `s`, in order.
pub fn to_chars(s: &str) -> (out: Vec<char>)
    ensures
        out@ == s@,
{
    let mut out: Vec<char> = Vec::new();
    for c in it: s.chars()
        invariant
            out@ == it.seq().take(it.index() as int),
            it.seq() == s@,
    {
        out.push(c);
    }
    out
}

/// Whether `needle` stands in `hay` at offset `at`.
fn matches_at(hay: &[char], needle: &[char], at: usize) -> (found: bool)
    requires
        at + needle@.len() <= hay@.len(),
    ensures
        found == occurs_at(hay@, needle@, at as int),
{
    let hay_len: usize = hay.len();
    let mut k: usize = 0;
    while k < needle.len()
        invariant
            k <= needle@.len(),
            at + needle@.len() <= hay@.len(),
            hay@.len() == hay_len,
            forall|j: int| 0 <= j < k ==> hay@[at + j] == needle@[j],
        decreases needle@.len() - k,
    {
        if hay[at + k] != needle[k] {
            assert(hay@.subrange(at as int, at + needle@.len())[k as int] == hay@[at + k]);
            return false;
        }
        k += 1;
    }
    assert(hay@.subrange(at as int, at + needle@.len()) =~= needle@);
    true
}

/// Substring search: whether `needle` stands somewhere in `hay`.
pub fn contains_chars(hay: &[char], needle: &[char]) -> (found: bool)
    ensures
        found == contains(hay@, needle@),
{
    if needle.len() > hay.len() {
        return false;
    }
    let last: usize = hay.len() - needle.len();
    let mut at: usize = 0;
    loop
        invariant
            at <= last,
            last == hay@.len() - needle@.len(),
            forall|j: int| 0 <= j < at ==> !occurs_at(hay@, needle@, j),
        decreases last - at,
    {
        if matches_at(hay, needle, at) {
            return true;
        }
        if at == last {
            return false;
        }
        at += 1;
    }
}

/// Whether `s` begins with `prefix`.
pub fn starts_with_chars(s: &[char], prefix: &[char]) -> (found: bool)
    ensures
        found == starts_with(s@, prefix@),
{
    prefix.len() <= s.len() && matches_at(s, prefix, 0)
}

/// Whether `s` ends with `suffix`.
pub fn ends_with_chars(s: &[char], suffix: &[char]) -> (found: bool)
    ensures
        found == ends_with(s@, suffix@),
{
    suffix.len() <= s.len() && matches_at(s, suffix, s.len() - suffix.len())
}

/// Whether the character `c` occurs in `s`.
pub fn has_char_in(s: &[char], c: char) -> (found: bool)
    ensures
        found == has_char(s@, c),
{
    let mut i: usize = 0;
    while i < s.len()
        invariant
            i <= s@.len(),
            forall|j: int| 0 <= j < i ==> s@[j] != c,
        decreases s@.len() - i,
    {
        if s[i] == c {
            return true;
        }
        i += 1;
    }
    false
}

/// Whether two character slices hold the same text.
pub fn same_chars(a: &[char], b: &[char]) -> (same: bool)
    ensures
        same == (a@ == b@),
{
    if a.len() != b.len() {
        return false;
    }
    let same = matches_at(a, b, 0);
    assert(a@.subrange(0, a@.len() as int) =~= a@);
    same
}

/// White space as Unicode defines it (the property `White_Space`).
pub open spec fn is_space(c: char) -> bool {
    let u = c as u32;
    ||| 0x09 <= u <= 0x0D
    ||| u == 0x20
    ||| u == 0x85
    ||| u == 0xA0
    ||| u == 0x1680
    ||| 0x2000 <= u <= 0x200A
    ||| u == 0x2028
    ||| u == 0x2029
    ||| u == 0x202F
    ||| u == 0x205F
    ||| u == 0x3000
}

/// How many characters of white space `s` begins with.
pub open spec fn leading_spaces(s: Seq<char>) -> nat
    decreases s.len(),
{
    if s.len() > 0 && is_space(s.first()) {
        1 + leading_spaces(s.drop_first())
    } else {
        0
    }
}

/// How many characters of white space `s` ends with.
pub open spec fn trailing_spaces(s: Seq<char>) -> nat
    decreases s.len(),
{
    if s.len() > 0 && is_space(s.last()) {
        1 + trailing_spaces(s.drop_last())
    } else {
        0
    }
}

/// `s` without the white space it begins with.
pub open spec fn trim_start(s: Seq<char>) -> Seq<char> {
    s.skip(leading_spaces(s) as int)
}

/// `s` without the white space it ends with.
pub open spec fn trim_end(s: Seq<char>) -> Seq<char> {
    s.take(s.len() - trailing_spaces(s))
}

/// `s` without the white space at either end.
pub open spec fn trim(s: Seq<char>) -> Seq<char> {
    trim_end(trim_start(s))
}

/// A run of `n` white-space characters at the start of `s` counts in full.
pub proof fn lemma_leading_spaces(s: Seq<char>, n: int)
    requires
        0 <= n <= s.len(),
        forall|j: int| 0 <= j < n ==> is_space(s[j]),
    ensures
        leading_spaces(s) == n + leading_spaces(s.skip(n)),
    decreases n,
{
    if n == 0 {
        assert(s.skip(0) =~= s);
    } else {
        let rest = s.drop_first();
        assert forall|j: int| 0 <= j < n - 1 implies is_space(rest[j]) by {
            assert(rest[j] == s[j + 1]);
        }
        lemma_leading_spaces(rest, n - 1);
        assert(rest.skip(n - 1) =~= s.skip(n));
    }
}

/// A run of `n` white-space characters at the end of `s` counts in full.
pub proof fn lemma_trailing_spaces(s: Seq<char>, n: int)
    requires
        0 <= n <= s.len(),
        forall|j: int| s.len() - n <= j < s.len() ==> is_space(s[j]),
    ensures
        trailing_spaces(s) == n + trailing_spaces(s.take(s.len() - n)),
    decreases n,
{
    if n == 0 {
        assert(s.take(s.len() as int) =~= s);
    } else {
        let rest = s.drop_last();
        assert forall|j: int| rest.len() - (n - 1) <= j < rest.len() implies is_space(rest[j]) by {
            assert(rest[j] == s[j]);
        }
        lemma_trailing_spaces(rest, n - 1);
        assert(rest.take(rest.len() - (n - 1)) =~= s.take(s.len() - n));
    }
}

/// Whether `c` is white space.
pub fn is_space_char(c: char) -> (space: bool)
    ensures
        space == is_space(c),
{
    let u: u32 = c as u32;
    (0x09 <= u && u <= 0x0D) || u == 0x20 || u == 0x85 || u == 0xA0 || u == 0x1680 || (0x2000 <= u
        && u <= 0x200A) || u == 0x2028 || u == 0x2029 || u == 0x202F || u == 0x205F || u == 0x3000
}

/// The part of `s` between its leading and its trailing white space.
pub fn trim_chars(s: &[char]) -> (out: &[char])
    ensures
        out@ == trim(s@),
{
    let len: usize = s.len();
    let mut start: usize = 0;
    while start < len && is_space_char(s[start])
        invariant
            start <= len,
            len == s@.len(),
            forall|j: int| 0 <= j < start ==> is_space(s@[j]),
        decreases len - start,
    {
        start += 1;
    }
    let ghost rest = s@.skip(start as int);
    proof {
        lemma_leading_spaces(s@, start as int);
        assert(leading_spaces(rest) == 0);
        assert(rest == trim_start(s@));
    }
    let mut end: usize = len;
    while end > start && is_space_char(s[end - 1])
        invariant
            start <= end <= len,
            len == s@.len(),
            rest == s@.skip(start as int),
            forall|j: int| end <= j < len ==> is_space(s@[j]),
        decreases end - start,
    {
        end -= 1;
    }
    proof {
        assert forall|j: int| rest.len() - (len - end) <= j < rest.len() implies is_space(
            rest[j],
        ) by {
            assert(rest[j] == s@[j + start]);
        }
        lemma_trailing_spaces(rest, len - end);
        let kept = rest.take(rest.len() - (len - end));
        assert(kept =~= s@.subrange(start as int, end as int));
        assert(trailing_spaces(kept) == 0);
    }
    slice_subrange(s, start, end)
}

/// How many characters stand from offset `from` on before the next line feed,
/// or before the end of `s` where none follows.
pub open spec fn line_len(s: Seq<char>, from: int) -> nat
    decreases s.len() - from,
{
    if 0 <= from < s.len() && s[from] != '\n' {
        1 + line_len(s, from + 1)
    } else {
        0
    }
}

/// `line` without one carriage return at its end.
pub open spec fn strip_cr(line: Seq<char>) -> Seq<char> {
    if line.len() > 0 && line.last() == '\r' {
        line.drop_last()
    } else {
        line
    }
}

/// The lines of `s` that begin at offset `from` or later.
pub open spec fn lines_from(s: Seq<char>, from: int) -> Seq<Seq<char>>
    decreases s.len() - from,
{
    if 0 <= from < s.len() {
        let end = from + line_len(s, from);
        let body = s.subrange(from, end);
        if end < s.len() {
            seq![strip_cr(body)] + lines_from(s, end + 1)
        } else {
            seq![body]
        }
    } else {
        Seq::empty()
    }
}

/// The lines of `s`. A line ends at a line feed, or at the end of the text;
/// the line feed, and a carriage return directly before it, belong to no
/// line. A text that ends in a line feed has no empty line after it.
pub open spec fn lines(s: Seq<char>) -> Seq<Seq<char>> {
    lines_from(s, 0)
}

/// The texts that a sequence of slices holds.
pub open spec fn texts(parts: Seq<&[char]>) -> Seq<Seq<char>> {
    Seq::new(parts.len(), |i: int| parts[i]@)
}

/// No line holds a line feed.
pub proof fn lemma_line_len(s: Seq<char>, from: int)
    requires
        0 <= from <= s.len(),
    ensures
        from + line_len(s, from) <= s.len(),
        forall|j: int| from <= j < from + line_len(s, from) ==> s[j] != '\n',
        from + line_len(s, from) < s.len() ==> s[from + line_len(s, from)] == '\n',
    decreases s.len() - from,
{
    if from < s.len() && s[from] != '\n' {
        lemma_line_len(s, from + 1);
    }
}

/// A text has at most as many lines as characters.
pub proof fn lemma_lines_from_len(s: Seq<char>, from: int)
    requires
        0 <= from <= s.len(),
    ensures
        lines_from(s, from).len() <= s.len() - from,
    decreases s.len() - from,
{
    if from < s.len() {
        lemma_line_len(s, from);
        let end = from + line_len(s, from);
        if end < s.len() {
            lemma_lines_from_len(s, end + 1);
        }
    }
}

/// The lines of `s`, each a part of `s`.
pub fn split_lines<'a>(s: &'a [char]) -> (out: Vec<&'a [char]>)
    ensures
        texts(out@) == lines(s@),
{
    let len: usize = s.len();
    let mut out: Vec<&'a [char]> = Vec::new();
    let mut from: usize = 0;
    while from < len
        invariant
            from <= len,
            len == s@.len(),
            texts(out@) + lines_from(s@, from as int) == lines(s@),
        decreases len - from,
    {
        let mut end: usize = from;
        while end < len && s[end] != '\n'
            invariant
                from <= end <= len,
                len == s@.len(),
                line_len(s@, from as int) == (end - from) + line_len(s@, end as int),
            decreases len - end,
        {
            end += 1;
        }
        let ghost before = texts(out@);
        let ghost line = lines_from(s@, from as int)[0];
        if end < len {
            let body_end: usize = if end > from && s[end - 1] == '\r' {
                end - 1
            } else {
                end
            };
            let part = slice_subrange(s, from, body_end);
            assert(part@ == line);
            out.push(part);
            from = end + 1;
        } else {
            let part = slice_subrange(s, from, end);
            assert(part@ == line);
            out.push(part);
            from = len;
        }
        assert(texts(out@) =~= before.push(line));
        assert(before.push(line) + lines_from(s@, from as int) =~= before + (seq![line]
            + lines_from(s@, from as int)));
    }
    assert(texts(out@) + Seq::<Seq<char>>::empty() =~= texts(out@));
    out
}

/// `String::push` of std puts one character at the end of the string and
/// leaves the rest as it was.
pub assume_specification[ String::push ](s: &mut String, c: char)
    ensures
        final(s)@ == old(s)@.push(c),
;

/// Puts the characters of `chars` at the end of `out`.
pub fn push_chars(out: &mut String, chars: &[char])
    ensures
        final(out)@ == old(out)@ + chars@,
{
    let mut i: usize = 0;
    while i < chars.len()
        invariant
            i <= chars@.len(),
            out@ == old(out)@ + chars@.take(i as int),
        decreases chars@.len() - i,
    {
        out.push(chars[i]);
        assert(chars@.take(i + 1) =~= chars@.take(i as int).push(chars@[i as int]));
        i += 1;
    }
    assert(chars@.take(chars@.len() as int) =~= chars@);
}

/// A string of the characters of `chars`.
pub fn string_of(chars: &[char]) -> (out: String)
    ensures
        out@ == chars@,
{
    let mut out = String::new();
    push_chars(&mut out, chars);
    out
}

/// The decimal digit for `d`, which is below ten.
pub open spec fn digit(d: int) -> char {
    (0x30 + d) as char
}

/// `n` in decimal notation, without leading zeros.
pub open spec fn decimal(n: nat) -> Seq<char>
    decreases n,
{
    if n < 10 {
        seq![digit(n as int)]
    } else {
        decimal(n / 10).push(digit((n % 10) as int))
    }
}

/// Puts `n` in decimal notation at the end of `out`.
pub fn push_decimal(out: &mut String, n: usize)
    ensures
        final(out)@ == old(out)@ + decimal(n as nat),
    decreases n,
{
    if n >= 10 {
        push_decimal(out, n / 10);
    }
    let d: u8 = (n % 10) as u8;
    out.push((0x30u8 + d) as char);
    assert(out@ =~= old(out)@ + decimal(n as nat));
}

/// The texts that a sequence of character vectors holds.
pub open spec fn words(list: Seq<Vec<char>>) -> Seq<Seq<char>> {
    Seq::new(list.len(), |i: int| list[i]@)
}

/// Whether `s` is one of the texts of `list`.
pub fn is_one_of(s: &[char], list: &Vec<Vec<char>>) -> (found: bool)
    ensures
        found == words(list@).contains(s@),
{
    let mut i: usize = 0;
    while i < list.len()
        invariant
            i <= list.len(),
            forall|j: int| 0 <= j < i ==> words(list@)[j] != s@,
        decreases list.len() - i,
    {
        if same_chars(s, list[i].as_slice()) {
            assert(words(list@)[i as int] == s@);
            return true;
        }
        i += 1;
    }
    false
}

/// The white space that `s` begins with is white space, and what follows it
/// is not.
pub proof fn lemma_leading_bounds(s: Seq<char>)
    ensures
        leading_spaces(s) <= s.len(),
        forall|j: int| 0 <= j < leading_spaces(s) ==> is_space(s[j]),
        leading_spaces(s) < s.len() ==> !is_space(s[leading_spaces(s) as int]),
    decreases s.len(),
{
    if s.len() > 0 && is_space(s.first()) {
        let rest = s.drop_first();
        lemma_leading_bounds(rest);
        assert forall|j: int| 0 <= j < leading_spaces(s) implies is_space(s[j]) by {
            if j > 0 {
                assert(s[j] == rest[j - 1]);
            }
        }
        if leading_spaces(s) < s.len() {
            assert(s[leading_spaces(s) as int] == rest[leading_spaces(rest) as int]);
        }
    }
}

/// The white space that `s` ends with is white space, and what stands before
/// it is not.
pub proof fn lemma_trailing_bounds(s: Seq<char>)
    ensures
        trailing_spaces(s) <= s.len(),
        forall|j: int| s.len() - trailing_spaces(s) <= j < s.len() ==> is_space(s[j]),
        trailing_spaces(s) < s.len() ==> !is_space(s[s.len() - trailing_spaces(s) - 1]),
    decreases s.len(),
{
    if s.len() > 0 && is_space(s.last()) {
        let rest = s.drop_last();
        lemma_trailing_bounds(rest);
        assert forall|j: int| s.len() - trailing_spaces(s) <= j < s.len() implies is_space(
            s[j],
        ) by {
            if j < s.len() - 1 {
                assert(s[j] == rest[j]);
            }
        }
        if trailing_spaces(s) < s.len() {
            assert(s[s.len() - trailing_spaces(s) - 1] == rest[rest.len() - trailing_spaces(rest)
                - 1]);
        }
    }
}

/// Trimming cuts white space only, and all of it: `trim(s)` is a part of
/// `s`, what stands before and after that part is white space, and the part
/// neither begins nor ends with white space.
pub proof fn lemma_trim(s: Seq<char>)
    ensures
        leading_spaces(s) + trailing_spaces(trim_start(s)) <= s.len(),
        trim(s) == s.subrange(
            leading_spaces(s) as int,
            s.len() - trailing_spaces(trim_start(s)),
        ),
        forall|j: int| 0 <= j < leading_spaces(s) ==> is_space(s[j]),
        forall|j: int| s.len() - trailing_spaces(trim_start(s)) <= j < s.len() ==> is_space(s[j]),
        trim(s).len() > 0 ==> !is_space(trim(s).first()) && !is_space(trim(s).last()),
{
    let start = leading_spaces(s) as int;
    let rest = trim_start(s);
    let cut = trailing_spaces(rest) as int;
    lemma_leading_bounds(s);
    lemma_trailing_bounds(rest);
    assert(trim(s) =~= s.subrange(start, s.len() - cut));
    assert forall|j: int| s.len() - cut <= j < s.len() implies is_space(s[j]) by {
        assert(s[j] == rest[j - start]);
    }
    if trim(s).len() > 0 {
        assert(trim(s).first() == s[start]);
        assert(trim(s).last() == rest[rest.len() - cut - 1]);
    }
}

/// No line holds a line feed.
pub proof fn lemma_lines_hold_no_line_feed(s: Seq<char>, from: int)
    requires
        0 <= from <= s.len(),
    ensures
        forall|i: int|
            0 <= i < lines_from(s, from).len() ==> !has_char(#[trigger] lines_from(s, from)[i], '\n'),
    decreases s.len() - from,
{
    if from < s.len() {
        lemma_line_len(s, from);
        let end = from + line_len(s, from);
        let body = s.subrange(from, end);
        assert(!has_char(body, '\n')) by {
            assert forall|j: int| 0 <= j < body.len() implies body[j] != '\n' by {
                assert(body[j] == s[from + j]);
            }
        }
        assert(!has_char(strip_cr(body), '\n')) by {
            assert forall|j: int| 0 <= j < strip_cr(body).len() implies strip_cr(body)[j]
                != '\n' by {
                assert(strip_cr(body)[j] == body[j]);
            }
        }
        if end < s.len() {
            lemma_lines_hold_no_line_feed(s, end + 1);
            let rest = lines_from(s, end + 1);
            assert forall|i: int| 0 <= i < lines_from(s, from).len() implies !has_char(
                #[trigger] lines_from(s, from)[i],
                '\n',
            ) by {
                if i > 0 {
                    assert(lines_from(s, from)[i] == rest[i - 1]);
                }
            }
        }
    }
}

/// `c` is a decimal digit.
pub open spec fn is_digit(c: char) -> bool {
    0x30 <= c as u32 <= 0x39
}

/// The number that a sequence of decimal digits writes.
pub open spec fn number(digits: Seq<char>) -> nat
    decreases digits.len(),
{
    if digits.len() == 0 {
        0
    } else {
        (number(digits.drop_last()) * 10 + (digits.last() as u32 - 0x30)) as nat
    }
}

/// The decimal notation of `n` is made of digits, begins with a zero only
/// for zero, and writes `n`.
pub proof fn lemma_decimal(n: nat)
    ensures
        decimal(n).len() > 0,
        forall|i: int| 0 <= i < decimal(n).len() ==> is_digit(#[trigger] decimal(n)[i]),
        n > 0 ==> decimal(n)[0] != '0',
        number(decimal(n)) == n,
    decreases n,
{
    if n < 10 {
        assert(decimal(n).drop_last() =~= Seq::<char>::empty());
        assert(number(decimal(n).drop_last()) == 0);
    } else {
        let front = decimal(n / 10);
        lemma_decimal(n / 10);
        assert(decimal(n).drop_last() =~= front);
        assert(decimal(n)[0] == front[0]);
        assert forall|i: int| 0 <= i < decimal(n).len() implies is_digit(
            #[trigger] decimal(n)[i],
        ) by {
            if i < front.len() {
                assert(decimal(n)[i] == front[i]);
            }
        }
    }
}

} // verus!
