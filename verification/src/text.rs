//! Text as a sequence of characters: trimming, splitting, numbers.

use vstd::prelude::*;
use vstd::string::*;

verus! {

/// `String::push`: appends one character at the end of the string.
pub assume_specification[ String::push ](s: &mut String, c: char)
    ensures
        final(s)@ == old(s)@.push(c),
;

/// The views of a sequence of strings, in order.
pub open spec fn texts(v: Seq<String>) -> Seq<Seq<char>> {
    v.map_values(|s: String| s@)
}

/// What a map from texts to strings says.
pub open spec fn text_map(m: Map<Seq<char>, String>) -> Map<Seq<char>, Seq<char>> {
    m.map_values(|s: String| s@)
}

/// The characters of `s`, in order.
pub fn chars_of(s: &str) -> (chars: Vec<char>)
    ensures
        chars@ == s@,
{
    let mut chars: Vec<char> = Vec::new();
    for c in it: s.chars()
        invariant
            it.seq() == s@,
            chars@ == s@.take(it.index()),
    {
        chars.push(c);
    }
    assert(s@.take(s@.len() as int) == s@);
    chars
}

/// The string made of the characters `from..to` of `chars`.
pub fn text_of(chars: &Vec<char>, from: usize, to: usize) -> (s: String)
    requires
        from <= to <= chars@.len(),
    ensures
        s@ == chars@.subrange(from as int, to as int),
{
    let mut s = String::new();
    let mut i: usize = from;
    while i < to
        invariant
            from <= i <= to <= chars@.len(),
            s@ == chars@.subrange(from as int, i as int),
        decreases to - i,
    {
        s.push(chars[i]);
        i += 1;
    }
    s
}

/// Whether the two texts have the same characters.
pub fn same_text(a: &str, b: &str) -> (same: bool)
    ensures
        same == (a@ == b@),
{
    a.to_owned() == b.to_owned()
}

/// The characters with the Unicode property `White_Space`.
pub open spec fn is_white_space(c: char) -> bool {
    ||| 0x9 <= c as u32 <= 0xd
    ||| c as u32 == 0x20
    ||| c as u32 == 0x85
    ||| c as u32 == 0xa0
    ||| c as u32 == 0x1680
    ||| 0x2000 <= c as u32 <= 0x200a
    ||| c as u32 == 0x2028
    ||| c as u32 == 0x2029
    ||| c as u32 == 0x202f
    ||| c as u32 == 0x205f
    ||| c as u32 == 0x3000
}

/// Which characters are taken off the ends of a text.
#[derive(Debug, Clone, Copy, PartialEq, Eq, Structural)]
pub enum Strip {
    WhiteSpace,
    Quotes,
}

impl Strip {
    pub open spec fn takes(self, c: char) -> bool {
        match self {
            Strip::WhiteSpace => is_white_space(c),
            Strip::Quotes => c == '"',
        }
    }

    /// Whether the character is taken off.
    pub fn is_taken(&self, c: char) -> (taken: bool)
        ensures
            taken == self.takes(c),
    {
        match self {
            Strip::WhiteSpace => {
                let code: u32 = c as u32;
                (0x9 <= code && code <= 0xd) || code == 0x20 || code == 0x85 || code == 0xa0 || code
                    == 0x1680 || (0x2000 <= code && code <= 0x200a) || code == 0x2028 || code
                    == 0x2029 || code == 0x202f || code == 0x205f || code == 0x3000
            },
            Strip::Quotes => c == '"',
        }
    }
}

/// The text without such characters at its start.
pub open spec fn strip_start(s: Seq<char>, what: Strip) -> Seq<char>
    decreases s.len(),
{
    if s.len() > 0 && what.takes(s[0]) {
        strip_start(s.drop_first(), what)
    } else {
        s
    }
}

/// The text without such characters at its end.
pub open spec fn strip_end(s: Seq<char>, what: Strip) -> Seq<char>
    decreases s.len(),
{
    if s.len() > 0 && what.takes(s.last()) {
        strip_end(s.drop_last(), what)
    } else {
        s
    }
}

/// The text without white space at its ends.
pub open spec fn trimmed(s: Seq<char>) -> Seq<char> {
    strip_end(strip_start(s, Strip::WhiteSpace), Strip::WhiteSpace)
}

/// The text without white space at its ends, and then without quotes at its
/// ends.
pub open spec fn unquoted(s: Seq<char>) -> Seq<char> {
    strip_end(strip_start(trimmed(s), Strip::Quotes), Strip::Quotes)
}

fn strip<'a>(s: &'a str, what: Strip) -> (r: &'a str)
    ensures
        r@ == strip_end(strip_start(s@, what), what),
{
    let chars = chars_of(s);
    let mut from: usize = 0;
    assert(s@.skip(0) =~= s@);
    while from < chars.len() && what.is_taken(chars[from])
        invariant
            from <= chars@.len(),
            chars@ == s@,
            strip_start(s@, what) == strip_start(s@.skip(from as int), what),
        ensures
            from <= chars@.len(),
            strip_start(s@, what) == s@.skip(from as int),
        decreases chars@.len() - from,
    {
        assert(s@.skip(from as int).drop_first() =~= s@.skip(from + 1));
        from += 1;
    }
    let ghost rest = s@.skip(from as int);
    let mut to: usize = chars.len();
    assert(s@.subrange(from as int, to as int) =~= rest);
    while to > from && what.is_taken(chars[to - 1])
        invariant
            from <= to <= chars@.len(),
            chars@ == s@,
            rest == s@.skip(from as int),
            strip_end(rest, what) == strip_end(s@.subrange(from as int, to as int), what),
        ensures
            from <= to <= chars@.len(),
            strip_end(rest, what) == s@.subrange(from as int, to as int),
        decreases to,
    {
        assert(s@.subrange(from as int, to as int).drop_last() =~= s@.subrange(
            from as int,
            to - 1,
        ));
        to -= 1;
    }
    s.substring_char(from, to)
}

/// The text without white space at its ends.
pub fn trim<'a>(s: &'a str) -> (r: &'a str)
    ensures
        r@ == trimmed(s@),
{
    strip(s, Strip::WhiteSpace)
}

/// The text without white space at its ends, and then without quotes at its
/// ends.
pub fn trim_quotes<'a>(s: &'a str) -> (r: &'a str)
    ensures
        r@ == unquoted(s@),
{
    strip(trim(s), Strip::Quotes)
}

proof fn lemma_strip(s: Seq<char>, what: Strip)
    ensures
        ({
            let r = strip_end(strip_start(s, what), what);
            &&& r.len() > 0 ==> !what.takes(r[0]) && !what.takes(r.last())
            &&& exists|a: Seq<char>, b: Seq<char>| #[trigger] (a + r + b) == s && (forall|i: int|
                0 <= i < a.len() ==> what.takes(#[trigger] a[i])) && (forall|i: int|
                0 <= i < b.len() ==> what.takes(#[trigger] b[i]))
        }),
{
    let a = lemma_strip_start(s, what);
    let m = strip_start(s, what);
    let b = lemma_strip_end(m, what);
    let r = strip_end(m, what);
    assert(a + r + b =~= s);
}

proof fn lemma_strip_start(s: Seq<char>, what: Strip) -> (a: Seq<char>)
    ensures
        a + strip_start(s, what) == s,
        forall|i: int| 0 <= i < a.len() ==> what.takes(#[trigger] a[i]),
        strip_start(s, what).len() > 0 ==> !what.takes(strip_start(s, what)[0]),
    decreases s.len(),
{
    if s.len() > 0 && what.takes(s[0]) {
        let rest = lemma_strip_start(s.drop_first(), what);
        let a = seq![s[0]] + rest;
        assert(a + strip_start(s, what) =~= s) by {
            assert(s =~= seq![s[0]] + s.drop_first());
        }
        a
    } else {
        assert(Seq::<char>::empty() + s =~= s);
        Seq::empty()
    }
}

proof fn lemma_strip_end(s: Seq<char>, what: Strip) -> (b: Seq<char>)
    ensures
        strip_end(s, what) + b == s,
        forall|i: int| 0 <= i < b.len() ==> what.takes(#[trigger] b[i]),
        strip_end(s, what).len() > 0 ==> !what.takes(strip_end(s, what).last()) && strip_end(
            s,
            what,
        )[0] == s[0],
    decreases s.len(),
{
    if s.len() > 0 && what.takes(s.last()) {
        let rest = lemma_strip_end(s.drop_last(), what);
        let b = rest.push(s.last());
        assert(strip_end(s, what) + b =~= s) by {
            assert(s =~= s.drop_last().push(s.last()));
        }
        b
    } else {
        assert(s + Seq::<char>::empty() =~= s);
        Seq::empty()
    }
}

/// A trimmed text neither begins nor ends with white space, and only white space
/// was taken off.
pub proof fn law_trim(s: Seq<char>)
    ensures
        trimmed(s).len() > 0 ==> !is_white_space(trimmed(s)[0]) && !is_white_space(
            trimmed(s).last(),
        ),
        exists|a: Seq<char>, b: Seq<char>| #[trigger] (a + trimmed(s) + b) == s && (forall|i: int|
            0 <= i < a.len() ==> is_white_space(#[trigger] a[i])) && (forall|i: int|
            0 <= i < b.len() ==> is_white_space(#[trigger] b[i])),
{
    lemma_strip(s, Strip::WhiteSpace);
    let r = trimmed(s);
    let (a, b) = choose|a: Seq<char>, b: Seq<char>| #[trigger] (a + r + b) == s && (forall|i: int|
        0 <= i < a.len() ==> Strip::WhiteSpace.takes(#[trigger] a[i])) && (forall|i: int|
        0 <= i < b.len() ==> Strip::WhiteSpace.takes(#[trigger] b[i]));
    assert(a + r + b == s);
    assert forall|i: int| 0 <= i < a.len() implies is_white_space(#[trigger] a[i]) by {
        assert(Strip::WhiteSpace.takes(a[i]));
    }
    assert forall|i: int| 0 <= i < b.len() implies is_white_space(#[trigger] b[i]) by {
        assert(Strip::WhiteSpace.takes(b[i]));
    }
}

/// The parts of the text between the separators: one more than there are
/// separators, and empty where two of them meet.
pub open spec fn split(s: Seq<char>, c: char) -> Seq<Seq<char>>
    decreases s.len(),
{
    if s.len() == 0 {
        seq![Seq::empty()]
    } else {
        let before = split(s.drop_last(), c);
        if s.last() == c {
            before.push(Seq::empty())
        } else {
            before.drop_last().push(before.last().push(s.last()))
        }
    }
}

/// The texts one after another, with the separator between them.
pub open spec fn join(parts: Seq<Seq<char>>, c: char) -> Seq<char>
    decreases parts.len(),
{
    if parts.len() == 0 {
        Seq::empty()
    } else if parts.len() == 1 {
        parts[0]
    } else {
        join(parts.drop_last(), c).push(c) + parts.last()
    }
}

/// The parts of a text, put together again, are the text, and no part holds the
/// separator.
pub proof fn law_split(s: Seq<char>, c: char)
    ensures
        split(s, c).len() >= 1,
        join(split(s, c), c) == s,
        forall|i: int| 0 <= i < split(s, c).len() ==> !(#[trigger] split(s, c)[i]).contains(c),
    decreases s.len(),
{
    let parts = split(s, c);
    if s.len() == 0 {
        assert(!parts[0].contains(c));
    } else {
        law_split(s.drop_last(), c);
        let before = split(s.drop_last(), c);
        assert(s =~= s.drop_last().push(s.last()));
        if s.last() == c {
            assert(parts.drop_last() =~= before);
            assert(join(parts, c) =~= s);
            assert forall|i: int| 0 <= i < parts.len() implies !(#[trigger] parts[i]).contains(
                c,
            ) by {
                if i < before.len() {
                    assert(parts[i] == before[i]);
                }
            }
        } else {
            assert(parts.drop_last() =~= before.drop_last());
            assert(join(parts, c) =~= join(before, c).push(s.last()));
            assert forall|i: int| 0 <= i < parts.len() implies !(#[trigger] parts[i]).contains(
                c,
            ) by {
                if i < before.len() - 1 {
                    assert(parts[i] == before[i]);
                } else {
                    assert(!before.last().contains(c));
                    let last = before.last().push(s.last());
                    assert forall|k: int| 0 <= k < last.len() implies last[k] != c by {
                        if k < before.last().len() {
                            assert(before.last()[k] != c);
                        }
                    }
                }
            }
        }
    }
}

/// The parts of the text between the separators.
pub fn split_text(s: &str, c: char) -> (parts: Vec<String>)
    ensures
        texts(parts@) == split(s@, c),
{
    let chars = chars_of(s);
    let mut parts: Vec<String> = Vec::new();
    let mut part = String::new();
    let mut i: usize = 0;
    assert(s@.take(0) =~= Seq::<char>::empty());
    assert(texts(parts@).push(part@) =~= seq![Seq::<char>::empty()]);
    while i < chars.len()
        invariant
            i <= chars@.len(),
            chars@ == s@,
            texts(parts@).push(part@) == split(s@.take(i as int), c),
        decreases chars@.len() - i,
    {
        let ghost before = split(s@.take(i as int), c);
        let ghost done = parts@;
        assert(s@.take(i + 1).drop_last() =~= s@.take(i as int));
        assert(before.drop_last() =~= texts(parts@));
        assert(before.last() == part@);
        if chars[i] == c {
            let mut finished = String::new();
            std::mem::swap(&mut finished, &mut part);
            parts.push(finished);
            assert(texts(parts@) =~= texts(done).push(finished@));
        } else {
            part.push(chars[i]);
        }
        i += 1;
    }
    assert(s@.take(i as int) =~= s@);
    let ghost done = parts@;
    parts.push(part);
    assert(texts(parts@) =~= texts(done).push(part@));
    parts
}

/// A line without the carriage return at its end.
pub open spec fn without_return(line: Seq<char>) -> Seq<char> {
    if line.len() > 0 && line.last() == '\r' {
        line.drop_last()
    } else {
        line
    }
}

/// The lines of the text: each ends in a newline, or in a carriage return and a
/// newline, which do not belong to it; what follows the last newline is a line
/// where it is not empty.
pub open spec fn lines(s: Seq<char>) -> Seq<Seq<char>> {
    let parts = split(s, '\n');
    let ended = parts.drop_last().map_values(|line: Seq<char>| without_return(line));
    if parts.last().len() > 0 {
        ended.push(parts.last())
    } else {
        ended
    }
}

/// Whether the text begins with `prefix`.
pub open spec fn begins_with(s: Seq<char>, prefix: Seq<char>) -> bool {
    prefix.len() <= s.len() && s.take(prefix.len() as int) == prefix
}

/// Whether the text begins with `prefix`.
pub fn starts_with(s: &str, prefix: &str) -> (yes: bool)
    ensures
        yes == begins_with(s@, prefix@),
{
    let chars = chars_of(s);
    let start = chars_of(prefix);
    if start.len() > chars.len() {
        return false;
    }
    let mut i: usize = 0;
    while i < start.len()
        invariant
            i <= start@.len() <= chars@.len(),
            chars@ == s@,
            start@ == prefix@,
            forall|k: int| 0 <= k < i ==> s@[k] == prefix@[k],
        decreases start@.len() - i,
    {
        if chars[i] != start[i] {
            assert(s@.take(prefix@.len() as int)[i as int] != prefix@[i as int]);
            return false;
        }
        i += 1;
    }
    assert(s@.take(prefix@.len() as int) =~= prefix@);
    true
}

/// The lines of the text.
pub fn lines_of(s: &str) -> (r: Vec<String>)
    ensures
        texts(r@) == lines(s@),
{
    let parts = split_text(s, '\n');
    let ghost all = split(s@, '\n');
    proof {
        law_split(s@, '\n');
    }
    let mut r: Vec<String> = Vec::new();
    let count: usize = parts.len();
    assert(count == all.len());
    let ghost ended = all.drop_last().map_values(|line: Seq<char>| without_return(line));
    let mut i: usize = 0;
    assert(texts(r@) =~= ended.take(0));
    while i < count - 1
        invariant
            count == parts@.len(),
            count >= 1,
            i <= count - 1,
            texts(parts@) == all,
            ended == all.drop_last().map_values(|line: Seq<char>| without_return(line)),
            texts(r@) == ended.take(i as int),
        decreases count - i,
    {
        let ghost before = r@;
        let chars = chars_of(parts[i].as_str());
        assert(chars@ == all[i as int]);
        let n: usize = chars.len();
        let line = if n > 0 && chars[n - 1] == '\r' {
            text_of(&chars, 0, n - 1)
        } else {
            text_of(&chars, 0, n)
        };
        assert(line@ =~= without_return(all[i as int]));
        r.push(line);
        assert(texts(r@) =~= texts(before).push(line@));
        assert(ended.take(i + 1) =~= ended.take(i as int).push(ended[i as int]));
        i += 1;
    }
    assert(ended.take(i as int) =~= ended);
    assert(parts@[count - 1]@ == all.last());
    if !parts[count - 1].as_str().is_empty() {
        let ghost before = r@;
        let last = parts[count - 1].clone();
        r.push(last);
        assert(texts(r@) =~= texts(before).push(last@));
    }
    r
}

/// The character with ASCII capitals made small.
pub open spec fn ascii_lower(c: char) -> char {
    if 'A' <= c && c <= 'Z' {
        (c as u32 + 32) as char
    } else {
        c
    }
}

/// The text with ASCII capitals made small.
pub open spec fn lowercased(s: Seq<char>) -> Seq<char> {
    s.map_values(|c: char| ascii_lower(c))
}

/// The text with ASCII capitals made small.
pub fn to_ascii_lowercase(s: &str) -> (r: String)
    ensures
        r@ == lowercased(s@),
{
    let chars = chars_of(s);
    let mut r = String::new();
    let mut i: usize = 0;
    assert(r@ =~= lowercased(s@).take(0));
    while i < chars.len()
        invariant
            i <= chars@.len(),
            chars@ == s@,
            r@ == lowercased(s@).take(i as int),
        decreases chars@.len() - i,
    {
        let c = chars[i];
        let lower = if 'A' <= c && c <= 'Z' {
            (c as u8 + 32) as char
        } else {
            c
        };
        r.push(lower);
        assert(lowercased(s@).take(i + 1) =~= lowercased(s@).take(i as int).push(
            lowercased(s@)[i as int],
        ));
        i += 1;
    }
    assert(lowercased(s@).take(i as int) =~= lowercased(s@));
    r
}

pub open spec fn is_digit(c: char) -> bool {
    '0' <= c && c <= '9'
}

pub open spec fn all_digits(s: Seq<char>) -> bool {
    forall|i: int| 0 <= i < s.len() ==> is_digit(#[trigger] s[i])
}

/// The number that a run of digits stands for.
pub open spec fn number(s: Seq<char>) -> nat
    decreases s.len(),
{
    if s.len() == 0 {
        0
    } else {
        number(s.drop_last()) * 10 + (s.last() as u32 - '0' as u32) as nat
    }
}

/// The digits of a text after its sign.
pub open spec fn magnitude(s: Seq<char>) -> Seq<char> {
    if s.len() > 0 && (s[0] == '-' || s[0] == '+') {
        s.skip(1)
    } else {
        s
    }
}

/// The number that a text stands for: digits, at least one, after at most one
/// sign, within the range of `i32`.
pub open spec fn integer(s: Seq<char>) -> Option<int> {
    let digits = magnitude(s);
    let value = if s.len() > 0 && s[0] == '-' {
        -number(digits)
    } else {
        number(digits) as int
    };
    if digits.len() > 0 && all_digits(digits) && i32::MIN <= value <= i32::MAX {
        Some(value)
    } else {
        None
    }
}

proof fn lemma_number_grows(s: Seq<char>, n: int)
    requires
        0 <= n <= s.len(),
        all_digits(s),
    ensures
        number(s.take(n)) <= number(s),
    decreases s.len(),
{
    if n < s.len() {
        lemma_number_grows(s.drop_last(), n);
        assert(s.drop_last().take(n) =~= s.take(n));
    } else {
        assert(s.take(n) =~= s);
    }
}

/// Reads a number within the range of `i32`.
pub fn parse_i32(s: &str) -> (r: Option<i32>)
    ensures
        match r {
            Some(v) => integer(s@) == Some(v as int),
            None => integer(s@) is None,
        },
{
    let chars = chars_of(s);
    let negative = chars.len() > 0 && chars[0] == '-';
    let start: usize = if chars.len() > 0 && (chars[0] == '-' || chars[0] == '+') {
        1
    } else {
        0
    };
    let ghost digits = magnitude(s@);
    assert(digits =~= s@.skip(start as int));
    if start == chars.len() {
        return None;
    }
    let mut value: i64 = 0;
    let mut i: usize = start;
    assert(digits.take(0) =~= Seq::<char>::empty());
    while i < chars.len()
        invariant
            start <= i <= chars@.len(),
            chars@ == s@,
            digits == magnitude(s@),
            digits == s@.skip(start as int),
            start <= 1,
            value == number(digits.take(i - start)),
            0 <= value <= 0x8000_0000,
            forall|k: int| 0 <= k < i - start ==> is_digit(#[trigger] digits[k]),
        decreases chars@.len() - i,
    {
        let c = chars[i];
        assert(digits[i - start] == c);
        if !('0' <= c && c <= '9') {
            assert(!all_digits(digits));
            return None;
        }
        assert(digits.take(i - start + 1).drop_last() =~= digits.take(i - start));
        value = value * 10 + (c as u32 - '0' as u32) as i64;
        assert(value == number(digits.take(i - start + 1)));
        if value > 0x8000_0000 {
            proof {
                if all_digits(digits) {
                    lemma_number_grows(digits, i - start + 1);
                }
            }
            return None;
        }
        i += 1;
    }
    assert(digits.take(i - start) =~= digits);
    if negative {
        Some((0 - value) as i32)
    } else if value <= 0x7fff_ffff {
        Some(value as i32)
    } else {
        None
    }
}

/// The digits of a number, without leading zeros.
pub open spec fn decimal(n: nat) -> Seq<char>
    decreases n,
{
    if n < 10 {
        seq![('0' as u32 + n) as char]
    } else {
        decimal(n / 10).push(('0' as u32 + n % 10) as char)
    }
}

/// The digits of a number.
pub fn decimal_text(n: u64) -> (s: String)
    ensures
        s@ == decimal(n as nat),
    decreases n,
{
    let digit = (48u8 + (n % 10) as u8) as char;
    if n < 10 {
        let mut s = String::new();
        s.push(digit);
        assert(s@ =~= decimal(n as nat));
        s
    } else {
        let mut s = decimal_text(n / 10);
        s.push(digit);
        s
    }
}

/// A number is read back from its digits.
pub proof fn law_decimal_reads_back(n: nat)
    ensures
        all_digits(decimal(n)),
        decimal(n).len() > 0,
        number(decimal(n)) == n,
    decreases n,
{
    reveal_with_fuel(number, 2);
    if n < 10 {
        assert(decimal(n).drop_last() =~= Seq::<char>::empty());
    } else {
        law_decimal_reads_back(n / 10);
        assert(decimal(n).drop_last() =~= decimal(n / 10));
    }
}

/// What is taken off a trimmed text is quotes alone, and none are left at its
/// ends.
pub proof fn law_unquoted(s: Seq<char>)
    ensures
        unquoted(s).len() > 0 ==> unquoted(s)[0] != '"' && unquoted(s).last() != '"',
        exists|a: Seq<char>, b: Seq<char>| #[trigger] (a + unquoted(s) + b) == trimmed(s) && (forall|
            i: int,
        |
            0 <= i < a.len() ==> #[trigger] a[i] == '"') && (forall|i: int|
            0 <= i < b.len() ==> #[trigger] b[i] == '"'),
{
    lemma_strip(trimmed(s), Strip::Quotes);
    let r = unquoted(s);
    let (a, b) = choose|a: Seq<char>, b: Seq<char>| #[trigger] (a + r + b) == trimmed(s) && (forall|
        i: int,
    |
        0 <= i < a.len() ==> Strip::Quotes.takes(#[trigger] a[i])) && (forall|i: int|
        0 <= i < b.len() ==> Strip::Quotes.takes(#[trigger] b[i]));
    assert(a + r + b == trimmed(s));
    assert forall|i: int| 0 <= i < a.len() implies #[trigger] a[i] == '"' by {
        assert(Strip::Quotes.takes(a[i]));
    }
    assert forall|i: int| 0 <= i < b.len() implies #[trigger] b[i] == '"' by {
        assert(Strip::Quotes.takes(b[i]));
    }
}

proof fn lemma_split_whole(s: Seq<char>, c: char)
    requires
        !s.contains(c),
    ensures
        split(s, c) == seq![s],
    decreases s.len(),
{
    if s.len() > 0 {
        let before = s.drop_last();
        assert(s[s.len() - 1] != c);
        assert forall|i: int| 0 <= i < before.len() implies before[i] != c by {
            assert(before[i] == s[i]);
        }
        lemma_split_whole(before, c);
        assert(before.push(s.last()) =~= s);
        assert(split(s, c) =~= seq![s]);
    } else {
        assert(s =~= Seq::<char>::empty());
        assert(split(s, c) =~= seq![s]);
    }
}

proof fn lemma_split_parts(s: Seq<char>, c: char)
    ensures
        split(s, c).len() >= 1,
    decreases s.len(),
{
    if s.len() > 0 {
        lemma_split_parts(s.drop_last(), c);
    }
}

/// A text without the separator is its only part, and the parts of two texts
/// with the separator between them are those of the first and then those of the
/// second.
pub proof fn law_split_at_separator(a: Seq<char>, b: Seq<char>, c: char)
    ensures
        !a.contains(c) ==> split(a, c) == seq![a],
        split(a.push(c) + b, c) == split(a, c) + split(b, c),
    decreases b.len(),
{
    if !a.contains(c) {
        lemma_split_whole(a, c);
    }
    let all = a.push(c) + b;
    if b.len() == 0 {
        assert(all.drop_last() =~= a);
        assert(all.last() == c);
        assert(split(all, c) =~= split(a, c) + split(b, c));
    } else {
        law_split_at_separator(a, b.drop_last(), c);
        lemma_split_parts(b.drop_last(), c);
        assert(all.drop_last() =~= a.push(c) + b.drop_last());
        assert(all.last() == b.last());
        assert(split(all, c) =~= split(a, c) + split(b, c));
    }
}

/// The lines of a text whose first line is `first`: that line without a carriage
/// return at its end, and then the lines of the rest. A last line that no
/// newline ends is a line as it is, unless it is empty.
pub proof fn law_lines(first: Seq<char>, rest: Seq<char>)
    requires
        !first.contains('\n'),
    ensures
        lines(first) == if first.len() == 0 {
            Seq::<Seq<char>>::empty()
        } else {
            seq![first]
        },
        lines(first.push('\n') + rest) == seq![
            if first.len() > 0 && first.last() == '\r' {
                first.take(first.len() - 1)
            } else {
                first
            },
        ] + lines(rest),
{
    law_split_at_separator(first, rest, '\n');
    lemma_split_parts(rest, '\n');
    let parts = split(first.push('\n') + rest, '\n');
    let tail = split(rest, '\n');
    assert(parts =~= seq![first] + tail);
    assert(parts.last() == tail.last());
    assert(parts.drop_last() =~= seq![first] + tail.drop_last());
    assert(without_return(first) =~= if first.len() > 0 && first.last() == '\r' {
        first.take(first.len() - 1)
    } else {
        first
    });
    let ended = parts.drop_last().map_values(|line: Seq<char>| without_return(line));
    let tail_ended = tail.drop_last().map_values(|line: Seq<char>| without_return(line));
    assert(ended =~= seq![without_return(first)] + tail_ended);
    assert(lines(first) =~= if first.len() == 0 {
        Seq::<Seq<char>>::empty()
    } else {
        seq![first]
    });
    assert(lines(first.push('\n') + rest) =~= seq![without_return(first)] + lines(rest));
}

/// A text begins with a prefix exactly when it is that prefix and something
/// after it.
pub proof fn law_begins_with(prefix: Seq<char>, rest: Seq<char>, s: Seq<char>)
    ensures
        begins_with(prefix + rest, prefix),
        begins_with(s, prefix) ==> prefix + s.skip(prefix.len() as int) == s,
{
    assert((prefix + rest).take(prefix.len() as int) =~= prefix);
    if begins_with(s, prefix) {
        assert(prefix + s.skip(prefix.len() as int) =~= s);
    }
}

/// No ASCII capital is left, every capital became its small letter, and nothing
/// else changed.
pub proof fn law_lowercased(s: Seq<char>)
    ensures
        lowercased(s).len() == s.len(),
        forall|i: int|
            0 <= i < s.len() ==> {
                let c = #[trigger] lowercased(s)[i];
                &&& !('A' <= c && c <= 'Z')
                &&& c != s[i] ==> 'A' <= s[i] && s[i] <= 'Z' && c as u32 == s[i] as u32 + 32
            },
{
    assert forall|i: int| 0 <= i < s.len() implies ({
        let c = #[trigger] lowercased(s)[i];
        &&& !('A' <= c && c <= 'Z')
        &&& c != s[i] ==> 'A' <= s[i] && s[i] <= 'Z' && c as u32 == s[i] as u32 + 32
    }) by {
        let c = s[i];
        if 'A' <= c && c <= 'Z' {
            assert(ascii_lower(c) as u32 == c as u32 + 32);
        }
    }
}

/// A digit behind a run of digits is worth itself, and what stands before it ten
/// times as much.
pub proof fn law_digits(s: Seq<char>, d: char)
    requires
        '0' <= d,
        d <= '9',
    ensures
        number(Seq::empty()) == 0,
        number(s.push(d)) == 10 * number(s) + (d as u32 - '0' as u32),
{
    assert(s.push(d).drop_last() =~= s);
}

/// A number is written without a leading zero.
pub proof fn law_decimal_has_no_leading_zero(n: nat)
    ensures
        decimal(n).len() > 0,
        decimal(n)[0] == '0' <==> n == 0,
        decimal(n).len() == 1 <==> n < 10,
    decreases n,
{
    if n >= 10 {
        law_decimal_has_no_leading_zero(n / 10);
        assert(decimal(n)[0] == decimal(n / 10)[0]);
    }
}

/// A run of digits is read as the number that it stands for, with either sign,
/// where that number is in range.
pub proof fn law_integer(digits: Seq<char>)
    requires
        digits.len() > 0,
        forall|i: int| 0 <= i < digits.len() ==> '0' <= #[trigger] digits[i] && digits[i] <= '9',
    ensures
        integer(digits) == if number(digits) <= 0x7fff_ffff {
            Some(number(digits) as int)
        } else {
            None
        },
        integer(seq!['+'] + digits) == integer(digits),
        integer(seq!['-'] + digits) == if number(digits) <= 0x8000_0000 {
            Some(-number(digits))
        } else {
            None
        },
{
    assert(digits[0] != '-' && digits[0] != '+');
    assert((seq!['+'] + digits).skip(1) =~= digits);
    assert((seq!['-'] + digits).skip(1) =~= digits);
    assert((seq!['+'] + digits)[0] == '+');
    assert((seq!['-'] + digits)[0] == '-');
    assert(all_digits(digits)) by {
        assert forall|i: int| 0 <= i < digits.len() implies is_digit(#[trigger] digits[i]) by {}
    }
}

/// Nothing is read as a number but digits, at least one, after one sign at most.
pub proof fn law_only_digits_are_read(s: Seq<char>)
    requires
        integer(s) is Some,
    ensures
        s.len() > 0,
        forall|i: int| 1 <= i < s.len() ==> '0' <= #[trigger] s[i] && s[i] <= '9',
        ('0' <= s[0] && s[0] <= '9') || ((s[0] == '+' || s[0] == '-') && s.len() > 1),
{
    let digits = magnitude(s);
    if s[0] == '-' || s[0] == '+' {
        assert forall|i: int| 1 <= i < s.len() implies '0' <= #[trigger] s[i] && s[i] <= '9' by {
            assert(is_digit(digits[i - 1]));
        }
    } else {
        assert forall|i: int| 0 <= i < s.len() implies '0' <= #[trigger] s[i] && s[i] <= '9' by {
            assert(is_digit(digits[i]));
        }
        assert('0' <= s[0] && s[0] <= '9');
    }
}

/// A list of strings says what each of them holds, in order, and a map says it
/// of each of its keys.
pub proof fn law_texts_say_what_they_hold(
    v: Seq<String>,
    i: int,
    m: Map<Seq<char>, String>,
    key: Seq<char>,
)
    requires
        0 <= i < v.len(),
    ensures
        texts(v).len() == v.len(),
        texts(v)[i] == v[i]@,
        text_map(m).contains_key(key) <==> m.contains_key(key),
        m.contains_key(key) ==> text_map(m)[key] == m[key]@,
{
}

/// The characters that count as white space, one by one.
pub proof fn law_white_space(c: char)
    ensures
        is_white_space(c) <==> {
            ||| c == '\t' || c == '\n' || c == '\u{b}' || c == '\u{c}' || c == '\r' || c == ' '
            ||| c == '\u{85}' || c == '\u{a0}' || c == '\u{1680}'
            ||| c == '\u{2000}' || c == '\u{2001}' || c == '\u{2002}' || c == '\u{2003}'
            ||| c == '\u{2004}' || c == '\u{2005}' || c == '\u{2006}' || c == '\u{2007}'
            ||| c == '\u{2008}' || c == '\u{2009}' || c == '\u{200a}'
            ||| c == '\u{2028}' || c == '\u{2029}' || c == '\u{202f}' || c == '\u{205f}'
            ||| c == '\u{3000}'
        },
{
}

} // verus!
