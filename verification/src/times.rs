//! Points in time, and the two notations in which they come.

use vstd::prelude::*;
use vstd::string::*;
use crate::text;

verus! {

/// A point in time: seconds since the Unix epoch, and nanoseconds since the last
/// full second.
#[derive(Debug, Clone, Copy, PartialEq, Eq, Structural)]
pub struct Timestamp {
    pub secs: i64,
    pub nanos: u32,
}

/// The point in time, in seconds and nanoseconds, that
/// `chrono::DateTime::parse_from_rfc3339` reads from a text; none where it
/// returns an error.
pub uninterp spec fn rfc3339_instant(text: Seq<char>) -> Option<(i64, u32)>;

/// The point in time, in seconds and nanoseconds, that
/// `chrono::DateTime::parse_from_str` reads from a text in a format; none where
/// it returns an error.
pub uninterp spec fn formatted_instant(text: Seq<char>, format: Seq<char>) -> Option<(i64, u32)>;

/// `chrono::DateTime::parse_from_rfc3339`, and `timestamp` and
/// `timestamp_subsec_nanos` of what it returns, which count in UTC.
#[verifier::external_body]
fn read_rfc3339(text: &str) -> (r: Option<(i64, u32)>)
    ensures
        r == rfc3339_instant(text@),
{
    match chrono::DateTime::parse_from_rfc3339(text) {
        Ok(at) => Some((at.timestamp(), at.timestamp_subsec_nanos())),
        Err(_) => None,
    }
}

/// `chrono::DateTime::parse_from_str`, and `timestamp` and
/// `timestamp_subsec_nanos` of what it returns, which count in UTC.
#[verifier::external_body]
fn read_formatted(text: &str, format: &str) -> (r: Option<(i64, u32)>)
    ensures
        r == formatted_instant(text@, format@),
{
    match chrono::DateTime::parse_from_str(text, format) {
        Ok(at) => Some((at.timestamp(), at.timestamp_subsec_nanos())),
        Err(_) => None,
    }
}

/// A point in time from its seconds and nanoseconds.
pub open spec fn timestamp(at: Option<(i64, u32)>) -> Option<Timestamp> {
    match at {
        Some((secs, nanos)) => Some(Timestamp { secs, nanos }),
        None => None,
    }
}

/// The point in time with these seconds and nanoseconds.
pub fn timestamp_from(at: Option<(i64, u32)>) -> (r: Option<Timestamp>)
    ensures
        r == timestamp(at),
{
    match at {
        Some((secs, nanos)) => Some(Timestamp { secs, nanos }),
        None => None,
    }
}

/// Reads when a version was published.
pub fn parse_pubtime_rfc3339(raw: &str) -> (r: Option<Timestamp>)
    ensures
        r == timestamp(rfc3339_instant(raw@)),
        match rfc3339_instant(raw@) {
            Some((secs, nanos)) => r == Some(Timestamp { secs, nanos }),
            None => r is None,
        },
{
    timestamp_from(read_rfc3339(raw))
}

/// The text without the occurrences of `part`, which are looked for from left to
/// right and do not overlap.
pub open spec fn without(s: Seq<char>, part: Seq<char>) -> Seq<char>
    decreases s.len(),
{
    if part.len() == 0 || s.len() < part.len() {
        s
    } else if s.take(part.len() as int) == part {
        without(s.skip(part.len() as int), part)
    } else {
        seq![s[0]] + without(s.skip(1), part)
    }
}

/// What follows the last sign in the text.
pub open spec fn after_last_sign(s: Seq<char>) -> Option<Seq<char>>
    decreases s.len(),
{
    if s.len() == 0 {
        None
    } else if s.last() == '+' || s.last() == '-' {
        Some(Seq::empty())
    } else {
        match after_last_sign(s.drop_last()) {
            Some(rest) => Some(rest.push(s.last())),
            None => None,
        }
    }
}

/// The text with an offset of hours alone written out with its minutes.
pub open spec fn with_minutes(s: Seq<char>) -> Seq<char> {
    match after_last_sign(s) {
        Some(offset) => if offset.len() == 2 && text::all_digits(offset) {
            s + "00"@
        } else {
            s
        },
        None => s,
    }
}

/// The form in which a point in time of the crate list can be read: without
/// quotes, without the mark of missing fractions, and with a full offset. An
/// empty text has none.
pub open spec fn readable_datetime(raw: Seq<char>) -> Option<Seq<char>> {
    if text::unquoted(raw).len() == 0 {
        None
    } else {
        Some(with_minutes(without(text::unquoted(raw), ".-1f"@)))
    }
}

/// The point in time that a field of the crate list stands for.
pub open spec fn crates_datetime(raw: Seq<char>) -> Option<Timestamp> {
    match readable_datetime(raw) {
        Some(s) => timestamp(formatted_instant(s, "%d/%m/%Y %H:%M:%S%z"@)),
        None => None,
    }
}

/// The text without the occurrences of `part`.
pub fn remove_all(s: &str, part: &str) -> (r: String)
    ensures
        r@ == without(s@, part@),
{
    let chars = text::chars_of(s);
    let wanted = text::chars_of(part);
    let n: usize = wanted.len();
    if n == 0 {
        return s.to_owned();
    }
    let mut r = String::new();
    let mut i: usize = 0;
    assert(s@.skip(0) =~= s@);
    assert(r@ + without(s@, part@) =~= without(s@, part@));
    while i < chars.len() && chars.len() - i >= n
        invariant
            i <= chars@.len(),
            chars@ == s@,
            wanted@ == part@,
            n == wanted@.len(),
            n > 0,
            r@ + without(s@.skip(i as int), part@) == without(s@, part@),
        decreases chars@.len() - i,
    {
        let ghost rest = s@.skip(i as int);
        let mut same: bool = true;
        let mut k: usize = 0;
        while k < n && same
            invariant
                k <= n,
                i + n <= chars@.len(),
                chars@ == s@,
                wanted@ == part@,
                n == wanted@.len(),
                rest == s@.skip(i as int),
                same ==> forall|j: int| 0 <= j < k ==> rest[j] == part@[j],
                !same ==> exists|j: int| 0 <= j < n && rest[j] != part@[j],
            decreases n - k + (if same {
                1int
            } else {
                0
            }),
        {
            assert(i + k < chars.len());
            if chars[i + k] == wanted[k] {
                assert(rest[k as int] == part@[k as int]);
                k += 1;
            } else {
                assert(rest[k as int] != part@[k as int]);
                same = false;
            }
        }
        if same {
            assert(rest.take(n as int) =~= part@);
            assert(rest.skip(n as int) =~= s@.skip(i + n));
            i += n;
        } else {
            assert(rest.take(n as int) != part@) by {
                let j = choose|j: int| 0 <= j < n && rest[j] != part@[j];
                assert(rest.take(n as int)[j] == rest[j]);
            }
            let ghost before = r@;
            r.push(chars[i]);
            assert(rest.skip(1) =~= s@.skip(i + 1));
            assert(r@ + without(s@.skip(i + 1), part@) =~= before + (seq![rest[0]] + without(
                rest.skip(1),
                part@,
            )));
            i += 1;
        }
    }
    let rest = text::text_of(&chars, i, chars.len());
    assert(rest@ =~= s@.skip(i as int));
    r.append(rest.as_str());
    r
}

/// The position after the last sign in the text.
fn find_offset(chars: &Vec<char>) -> (r: Option<usize>)
    ensures
        match r {
            Some(i) => i <= chars@.len() && after_last_sign(chars@) == Some(
                chars@.subrange(i as int, chars@.len() as int),
            ),
            None => after_last_sign(chars@) is None,
        },
{
    let mut r: Option<usize> = None;
    let mut i: usize = 0;
    assert(chars@.take(0) =~= Seq::<char>::empty());
    while i < chars.len()
        invariant
            i <= chars@.len(),
            match r {
                Some(from) => from <= i && after_last_sign(chars@.take(i as int)) == Some(
                    chars@.subrange(from as int, i as int),
                ),
                None => after_last_sign(chars@.take(i as int)) is None,
            },
        decreases chars@.len() - i,
    {
        assert(chars@.take(i + 1).drop_last() =~= chars@.take(i as int));
        if chars[i] == '+' || chars[i] == '-' {
            r = Some(i + 1);
            assert(chars@.subrange(i + 1, i + 1) =~= Seq::<char>::empty());
        } else {
            proof {
                if let Some(from) = r {
                    assert(chars@.subrange(from as int, i + 1) =~= chars@.subrange(
                        from as int,
                        i as int,
                    ).push(chars@[i as int]));
                }
            }
        }
        i += 1;
    }
    assert(chars@.take(i as int) =~= chars@);
    r
}

/// Brings a point in time of the crate list into a form that can be read.
pub fn normalize_crates_datetime(raw: &str) -> (r: Option<String>)
    ensures
        match r {
            Some(s) => readable_datetime(raw@) == Some(s@),
            None => readable_datetime(raw@) is None,
        },
{
    let bare = text::trim_quotes(raw);
    if bare.is_empty() {
        return None;
    }
    let mut s = remove_all(bare, ".-1f");
    let chars = text::chars_of(s.as_str());
    if let Some(from) = find_offset(&chars) {
        let ghost offset = chars@.subrange(from as int, chars@.len() as int);
        if chars.len() - from == 2 {
            let first = chars[from];
            let second = chars[from + 1];
            assert(first == offset[0] && second == offset[1]);
            if '0' <= first && first <= '9' && '0' <= second && second <= '9' {
                assert(text::all_digits(offset)) by {
                    assert forall|i: int| 0 <= i < offset.len() implies text::is_digit(
                        #[trigger] offset[i],
                    ) by {
                        assert(i == 0 || i == 1);
                    }
                }
                s.append("00");
            } else {
                assert(!text::is_digit(offset[0]) || !text::is_digit(offset[1]));
            }
        }
    }
    Some(s)
}

/// Reads a point in time of the crate list, such as
/// `01/02/2020 10:11:12.-1f+00`.
pub fn parse_crates_datetime(raw: &str) -> (r: Option<Timestamp>)
    ensures
        r == crates_datetime(raw@),
{
    match normalize_crates_datetime(raw) {
        Some(s) => timestamp_from(read_formatted(s.as_str(), "%d/%m/%Y %H:%M:%S%z")),
        None => None,
    }
}

proof fn lemma_without_zeros(s: Seq<char>)
    ensures
        without(s + "00"@, ".-1f"@) == without(s, ".-1f"@) + "00"@,
    decreases s.len(),
{
    reveal_strlit("00");
    reveal_strlit(".-1f");
    let part = ".-1f"@;
    let zeros = "00"@;
    let all = s + zeros;
    if s.len() == 0 {
        assert(all =~= zeros);
        assert(without(s, part) + zeros =~= zeros);
    } else if s.len() >= 4 {
        assert(all.take(4) =~= s.take(4));
        if s.take(4) == part {
            lemma_without_zeros(s.skip(4));
            assert(all.skip(4) =~= s.skip(4) + zeros);
        } else {
            lemma_without_zeros(s.skip(1));
            assert(all.skip(1) =~= s.skip(1) + zeros);
            assert(seq![s[0]] + (without(s.skip(1), part) + zeros) =~= seq![s[0]] + without(
                s.skip(1),
                part,
            ) + zeros);
        }
    } else if all.len() >= 4 {
        assert(all.take(4)[s.len() as int] == '0');
        assert(all.take(4) != part);
        lemma_without_zeros(s.skip(1));
        assert(all.skip(1) =~= s.skip(1) + zeros);
        assert(seq![s[0]] + (s.skip(1) + zeros) =~= s + zeros);
    }
}

/// A point in time of the crate list whose offset has hours alone is read as the
/// same with the minutes of the offset written out as zeros.
pub proof fn law_hours_stand_for_full_offset(raw: Seq<char>, full: Seq<char>)
    requires
        text::unquoted(full) == text::unquoted(raw) + "00"@,
        ({
            let offset = after_last_sign(without(text::unquoted(raw), ".-1f"@));
            offset is Some && offset->0.len() == 2 && text::all_digits(offset->0)
        }),
    ensures
        readable_datetime(full) == readable_datetime(raw),
        crates_datetime(full) == crates_datetime(raw),
{
    let bare = text::unquoted(raw);
    let s = without(bare, ".-1f"@);
    lemma_without_zeros(bare);
    reveal_strlit("00");
    let zeros = "00"@;
    let longer = s + zeros;
    assert(longer.drop_last().drop_last() =~= s);
    assert(longer.last() == '0' && longer.drop_last().last() == '0');
    reveal_with_fuel(after_last_sign, 3);
    assert(after_last_sign(longer)->0.len() == 4);
    assert(with_minutes(longer) == longer);
    assert(with_minutes(s) == longer);
    assert(s.len() > 0);
    assert(bare.len() > 0);
}

/// A point in time is made of the seconds and nanoseconds that were read, and a
/// publication time is what RFC 3339 reads.
pub proof fn law_timestamp_is_what_was_read(at: Option<(i64, u32)>)
    ensures
        match at {
            Some((secs, nanos)) => timestamp(at) is Some && timestamp(at)->0.secs == secs
                && timestamp(at)->0.nanos == nanos,
            None => timestamp(at) is None,
        },
{
}

/// A time of the crate list is read day first, and in no other notation: it is
/// the very instant for which its readable form stands with the day before the
/// month, and where the readable form is none such, there is no time.
pub proof fn law_crate_times_are_day_first(raw: Seq<char>)
    ensures
        text::unquoted(raw).len() == 0 ==> crates_datetime(raw) is None,
        text::unquoted(raw).len() > 0 ==> readable_datetime(raw) is Some,
        readable_datetime(raw) matches Some(s) ==> match formatted_instant(
            s,
            "%d/%m/%Y %H:%M:%S%z"@,
        ) {
            Some((secs, nanos)) => crates_datetime(raw) == Some(Timestamp { secs, nanos }),
            None => crates_datetime(raw) is None,
        },
{
}

/// Whether `part` stands in `s` from `at` on.
pub open spec fn stands_at(s: Seq<char>, part: Seq<char>, at: int) -> bool {
    0 <= at && at + part.len() <= s.len() && s.subrange(at, at + part.len()) == part
}

proof fn lemma_stands_later(s: Seq<char>, part: Seq<char>, at: int)
    requires
        s.len() > 0,
        at >= 0,
    ensures
        stands_at(s.skip(1), part, at) == stands_at(s, part, at + 1),
{
    if at + part.len() <= s.len() - 1 {
        assert(s.skip(1).subrange(at, at + part.len()) =~= s.subrange(at + 1, at + 1 + part.len()));
    }
}

/// A text in which the part does not stand is kept as it is. Else the first
/// place where it stands is left out, and what follows is treated alike.
pub proof fn law_first_occurrence_is_left_out(a: Seq<char>, part: Seq<char>, b: Seq<char>)
    requires
        part.len() > 0,
    ensures
        (forall|i: int| !stands_at(a, part, i)) ==> without(a, part) == a,
        (forall|i: int| 0 <= i < a.len() ==> !stands_at(a + part + b, part, i)) ==> without(
            a + part + b,
            part,
        ) == a + without(b, part),
    decreases a.len(),
{
    let all = a + part + b;
    if a.len() == 0 {
        assert(all.take(part.len() as int) =~= part);
        assert(all.skip(part.len() as int) =~= b);
        assert(a + without(b, part) =~= without(b, part));
        assert(without(a, part) =~= a);
    } else {
        let rest = a.skip(1);
        law_first_occurrence_is_left_out(rest, part, b);
        assert(seq![a[0]] + rest =~= a);
        if forall|i: int| !stands_at(a, part, i) {
            assert forall|i: int| !stands_at(rest, part, i) by {
                if stands_at(rest, part, i) {
                    lemma_stands_later(a, part, i);
                    assert(stands_at(a, part, i + 1));
                }
            }
            if a.len() >= part.len() {
                assert(!stands_at(a, part, 0));
                assert(a.subrange(0, part.len() as int) =~= a.take(part.len() as int));
            }
        }
        if forall|i: int| 0 <= i < a.len() ==> !stands_at(all, part, i) {
            assert(all.skip(1) =~= rest + part + b);
            assert forall|i: int| 0 <= i < rest.len() implies !stands_at(
                rest + part + b,
                part,
                i,
            ) by {
                lemma_stands_later(all, part, i);
                assert(!stands_at(all, part, i + 1));
            }
            assert(!stands_at(all, part, 0));
            assert(all.subrange(0, part.len() as int) =~= all.take(part.len() as int));
            assert(all[0] == a[0]);
            assert(without(all, part) == seq![a[0]] + without(rest + part + b, part));
            assert(seq![a[0]] + (rest + without(b, part)) =~= a + without(b, part));
        }
    }
}

proof fn lemma_after_last_sign(a: Seq<char>, sign: char, offset: Seq<char>)
    requires
        sign == '+' || sign == '-',
        !offset.contains('+'),
        !offset.contains('-'),
    ensures
        after_last_sign(a.push(sign) + offset) == Some(offset),
    decreases offset.len(),
{
    let s = a.push(sign) + offset;
    if offset.len() == 0 {
        assert(s =~= a.push(sign));
        assert(offset =~= Seq::<char>::empty());
    } else {
        let shorter = offset.drop_last();
        assert(offset[offset.len() - 1] != '+' && offset[offset.len() - 1] != '-');
        assert forall|i: int| 0 <= i < shorter.len() implies shorter[i] != '+' && shorter[i]
            != '-' by {
            assert(offset[i] == shorter[i]);
            assert(offset.contains(offset[i]));
        }
        lemma_after_last_sign(a, sign, shorter);
        assert(s.drop_last() =~= a.push(sign) + shorter);
        assert(s.last() == offset.last());
        assert(shorter.push(offset.last()) =~= offset);
    }
}

proof fn lemma_no_sign(s: Seq<char>)
    requires
        !s.contains('+'),
        !s.contains('-'),
    ensures
        after_last_sign(s) is None,
    decreases s.len(),
{
    if s.len() > 0 {
        let shorter = s.drop_last();
        assert(s[s.len() - 1] != '+' && s[s.len() - 1] != '-');
        assert forall|i: int| 0 <= i < shorter.len() implies shorter[i] != '+' && shorter[i]
            != '-' by {
            assert(s[i] == shorter[i]);
            assert(s.contains(s[i]));
        }
        lemma_no_sign(shorter);
    }
}

/// The readable form of a field without the mark of missing fractions is the
/// field itself, with two zeros behind it exactly where two digits are all that
/// follows its last sign.
pub proof fn law_only_hours_are_completed(
    raw: Seq<char>,
    a: Seq<char>,
    sign: char,
    offset: Seq<char>,
)
    requires
        text::unquoted(raw).len() > 0,
        forall|i: int| !stands_at(text::unquoted(raw), ".-1f"@, i),
        sign == '+' || sign == '-',
        !offset.contains('+'),
        !offset.contains('-'),
    ensures
        text::unquoted(raw) == a.push(sign) + offset ==> readable_datetime(raw) == Some(
            if offset.len() == 2 && '0' <= offset[0] && offset[0] <= '9' && '0' <= offset[1]
                && offset[1] <= '9' {
                text::unquoted(raw).push('0').push('0')
            } else {
                text::unquoted(raw)
            },
        ),
        !text::unquoted(raw).contains('+') && !text::unquoted(raw).contains('-')
            ==> readable_datetime(raw) == Some(text::unquoted(raw)),
{
    let bare = text::unquoted(raw);
    reveal_strlit(".-1f");
    reveal_strlit("00");
    law_first_occurrence_is_left_out(bare, ".-1f"@, Seq::empty());
    assert(bare + "00"@ =~= bare.push('0').push('0'));
    if bare == a.push(sign) + offset {
        lemma_after_last_sign(a, sign, offset);
        if offset.len() == 2 {
            if text::is_digit(offset[0]) && text::is_digit(offset[1]) {
                assert(text::all_digits(offset));
            } else {
                assert(text::all_digits(offset) ==> text::is_digit(offset[0]) && text::is_digit(
                    offset[1],
                ));
            }
        }
    }
    if !bare.contains('+') && !bare.contains('-') {
        lemma_no_sign(bare);
    }
}

} // verus!
