//! The quiz corpus and the weighted challenge generator.
//!
//! A corpus entry ("banner") carries optional game/character labels and a
//! list of announce records.  Question builders are deterministic in the
//! random draws they are given; only `random_question` draws.

use vstd::prelude::*;
use crate::text::{dec_rep, is_digit, digit_char, u64_to_string};

verus! {

/// One announce record of a corpus entry.
#[derive(Debug, Clone)]
pub struct BannerAnnounce {
    /// Revision number, when the source gave one.
    pub revision: Option<u32>,
    /// Start time, `YYYY-MM-DD HH:MM:SS` or `YYYY-MM-DD`.
    pub start_time: String,
    /// How long the banner ran, free text such as `7天`.
    pub banner_life: Option<String>,
    /// How long the announce was up, free text.
    pub announce_life: Option<String>,
    /// The announce's text.
    pub content: String,
    /// Who published it.
    pub publisher: String,
}

/// One corpus entry.
#[derive(Debug, Clone)]
pub struct Banner {
    /// The entry's index; index 0 is reserved as a placeholder.
    pub index: u32,
    /// The game the entry belongs to, if known.
    pub game: Option<String>,
    /// The character the entry shows, if known.
    pub character: Option<String>,
    /// The announce records, oldest first.
    pub announces: Vec<BannerAnnounce>,
}

/// A challenge: a question and the answer it expects.
#[derive(Debug, Clone)]
pub struct BannerQuestion {
    /// The question text shown to the viewer.
    pub question: String,
    /// The expected answer, compared verbatim.
    pub answer: String,
}

// ===========================================================================
// Digit extraction (corpus indices arrive as text such as `外·337`)
// ===========================================================================

/// The decimal digits of `s`, in order.
pub open spec fn digits_of(s: Seq<char>) -> Seq<char> {
    s.filter(|c: char| is_digit(c))
}

/// The numeric value of a digit character.
pub open spec fn digit_val(c: char) -> int {
    (c as u32) as int - ('0' as u32) as int
}

/// The value of a sequence of decimal digits, most significant first.
pub open spec fn dec_value(ds: Seq<char>) -> int
    decreases ds.len(),
{
    if ds.len() == 0 {
        0
    } else {
        dec_value(ds.drop_last()) * 10 + digit_val(ds.last())
    }
}

proof fn lemma_dec_value_nonneg(ds: Seq<char>)
    requires
        forall|i: int| 0 <= i < ds.len() ==> is_digit(#[trigger] ds[i]),
    ensures
        dec_value(ds) >= 0,
    decreases ds.len(),
{
    if ds.len() > 0 {
        lemma_dec_value_nonneg(ds.drop_last());
        assert(is_digit(ds.last()));
    }
}

proof fn lemma_dec_value_extend(x: Seq<char>, y: Seq<char>)
    requires
        forall|i: int| 0 <= i < x.len() ==> is_digit(#[trigger] x[i]),
        forall|i: int| 0 <= i < y.len() ==> is_digit(#[trigger] y[i]),
    ensures
        dec_value(x + y) >= dec_value(x),
    decreases y.len(),
{
    if y.len() == 0 {
        assert(x + y =~= x);
    } else {
        let y0 = y.drop_last();
        lemma_dec_value_extend(x, y0);
        assert(x + y =~= (x + y0).push(y.last()));
        assert((x + y0).push(y.last()).drop_last() =~= x + y0);
        assert forall|i: int| 0 <= i < (x + y0).len() implies is_digit(#[trigger] (x + y0)[i]) by {
            if i < x.len() {
            } else {
                assert((x + y0)[i] == y0[i - x.len()]);
                assert(is_digit(y[i - x.len()]));
            }
        }
        lemma_dec_value_nonneg(x + y0);
        assert(is_digit(y.last()));
        assert(dec_value(x + y) == dec_value(x + y0) * 10 + digit_val(y.last()));
    }
}

proof fn lemma_digits_of_take_push(s: Seq<char>, i: int)
    requires
        0 <= i < s.len(),
    ensures
        digits_of(s.subrange(0, i + 1)) == if is_digit(s[i]) {
            digits_of(s.subrange(0, i)).push(s[i])
        } else {
            digits_of(s.subrange(0, i))
        },
{
    reveal(Seq::filter);
    let pre1 = s.subrange(0, i + 1);
    assert(pre1.drop_last() =~= s.subrange(0, i));
    assert(pre1.last() == s[i]);
}

proof fn lemma_digits_all_digits(s: Seq<char>)
    ensures
        forall|i: int| 0 <= i < digits_of(s).len() ==> is_digit(#[trigger] digits_of(s)[i]),
{
    assert forall|i: int|
        0 <= i < digits_of(s).len() implies is_digit(#[trigger] digits_of(s)[i]) by {
        s.lemma_filter_pred(|c: char| is_digit(c), i);
    }
}

/// Splitting a string splits its digits.
proof fn lemma_digits_of_split(s: Seq<char>, i: int)
    requires
        0 <= i <= s.len(),
    ensures
        digits_of(s) == digits_of(s.subrange(0, i)) + digits_of(s.subrange(i, s.len() as int)),
    decreases s.len() - i,
{
    if i == s.len() {
        assert(s.subrange(0, i) =~= s);
        assert(digits_of(s.subrange(i, s.len() as int)) =~= Seq::<char>::empty()) by {
            reveal(Seq::filter);
            assert(s.subrange(i, s.len() as int).len() == 0);
        }
        assert(digits_of(s) + Seq::<char>::empty() =~= digits_of(s));
    } else {
        lemma_digits_of_split(s, i + 1);
        lemma_digits_of_take_push(s, i);
        let mid = s.subrange(i, s.len() as int);
        let mid1 = s.subrange(i + 1, s.len() as int);
        // digits of the suffix starting at i, by its first character
        assert(digits_of(mid) == if is_digit(s[i]) {
            seq![s[i]] + digits_of(mid1)
        } else {
            digits_of(mid1)
        }) by {
            lemma_digits_head(mid);
            assert(mid[0] == s[i]);
            assert(mid.subrange(1, mid.len() as int) =~= mid1);
        }
        if is_digit(s[i]) {
            assert(digits_of(s.subrange(0, i)).push(s[i]) + digits_of(mid1) =~= digits_of(
                s.subrange(0, i),
            ) + (seq![s[i]] + digits_of(mid1)));
        }
    }
}

/// The digits of a non-empty string are its first character (when a
/// digit) followed by the digits of the rest.
proof fn lemma_digits_head(s: Seq<char>)
    requires
        s.len() > 0,
    ensures
        digits_of(s) == if is_digit(s[0]) {
            seq![s[0]] + digits_of(s.subrange(1, s.len() as int))
        } else {
            digits_of(s.subrange(1, s.len() as int))
        },
    decreases s.len(),
{
    reveal(Seq::filter);
    let tail = s.subrange(1, s.len() as int);
    if s.len() == 1 {
        assert(s.drop_last() =~= Seq::<char>::empty());
        assert(tail =~= Seq::<char>::empty());
        if is_digit(s[0]) {
            assert(digits_of(s) =~= seq![s[0]] + digits_of(tail));
        }
    } else {
        lemma_digits_head(s.drop_last());
        assert(s.drop_last()[0] == s[0]);
        assert(s.drop_last().subrange(1, s.drop_last().len() as int) =~= tail.drop_last());
        assert(s.last() == tail.last());
        if is_digit(s[0]) {
            assert(digits_of(s.drop_last()) == seq![s[0]] + digits_of(tail.drop_last()));
            if is_digit(s.last()) {
                assert((seq![s[0]] + digits_of(tail.drop_last())).push(s.last()) =~= seq![s[0]]
                    + digits_of(tail.drop_last()).push(tail.last()));
            }
        }
    }
}

/// Extracts the decimal digits of `s` and reads them as a number.
/// `None` when `s` has no digits or their value exceeds `u32::MAX`.
pub fn parse_index_digits(s: &str) -> (r: Option<u32>)
    ensures
        match r {
            Some(v) => digits_of(s@).len() > 0 && v as int == dec_value(digits_of(s@)),
            None => digits_of(s@).len() == 0 || dec_value(digits_of(s@)) > u32::MAX as int,
        },
{
    let n = s.unicode_len();
    let mut i: usize = 0;
    let mut acc: u32 = 0;
    let mut seen: bool = false;
    proof {
        assert(s@.subrange(0, 0) =~= Seq::<char>::empty());
        assert(digits_of(Seq::<char>::empty()) =~= Seq::<char>::empty()) by {
            reveal(Seq::filter);
        }
    }
    while i < n
        invariant
            n == s@.len(),
            i <= n,
            seen == (digits_of(s@.subrange(0, i as int)).len() > 0),
            acc as int == dec_value(digits_of(s@.subrange(0, i as int))),
        decreases n - i,
    {
        let c = s.get_char(i);
        proof {
            lemma_digits_of_take_push(s@, i as int);
        }
        if digit_char(c) {
            let d: u32 = (c as u32) - 48;
            proof {
                lemma_digits_all_digits(s@.subrange(0, i as int));
                lemma_dec_value_nonneg(digits_of(s@.subrange(0, i as int)));
                assert(digits_of(s@.subrange(0, i as int + 1)).drop_last() =~= digits_of(
                    s@.subrange(0, i as int),
                ));
            }
            if acc > (u32::MAX - d) / 10 {
                // the value read so far already overflows; more digits
                // can only make it larger
                proof {
                    let prefix_digits = digits_of(s@.subrange(0, i as int + 1));
                    lemma_digits_of_split(s@, i as int + 1);
                    lemma_digits_all_digits(s@.subrange(0, i as int + 1));
                    lemma_digits_all_digits(s@.subrange(i as int + 1, n as int));
                    lemma_dec_value_extend(
                        prefix_digits,
                        digits_of(s@.subrange(i as int + 1, n as int)),
                    );
                    assert(dec_value(prefix_digits) == acc as int * 10 + d);
                    assert(acc as int * 10 + d > u32::MAX as int) by (nonlinear_arith)
                        requires
                            acc > (u32::MAX - d) / 10,
                            d <= 9,
                            acc <= u32::MAX,
                    ;
                }
                return None;
            }
            proof {
                assert(acc as int * 10 + d <= u32::MAX as int) by (nonlinear_arith)
                    requires
                        acc <= (u32::MAX - d) / 10,
                        d <= 9,
                ;
            }
            acc = acc * 10 + d;
            seen = true;
        }
        i += 1;
    }
    proof {
        assert(s@.subrange(0, n as int) =~= s@);
    }
    if seen {
        Some(acc)
    } else {
        proof {
            lemma_digits_all_digits(s@);
            lemma_dec_value_nonneg(digits_of(s@));
        }
        None
    }
}

// ===========================================================================
// Start-time parsing: `YYYY-MM-DD` with an optional ` HH:MM:SS`
// ===========================================================================

/// `s[i]` and `s[i+1]` are decimal digits.
pub open spec fn two_digits(s: Seq<char>, i: int) -> bool {
    is_digit(s[i]) && is_digit(s[i + 1])
}

/// The value of the two digits at position `i`.
pub open spec fn val2(s: Seq<char>, i: int) -> int {
    digit_val(s[i]) * 10 + digit_val(s[i + 1])
}

/// The value of the four digits at position `i`.
pub open spec fn val4(s: Seq<char>, i: int) -> int {
    val2(s, i) * 100 + val2(s, i + 2)
}

/// Gregorian leap years.
pub open spec fn is_leap_year(y: int) -> bool {
    y % 4 == 0 && (y % 100 != 0 || y % 400 == 0)
}

/// Days in a month of the Gregorian calendar.
pub open spec fn days_in_month(y: int, m: int) -> int {
    if m == 2 {
        if is_leap_year(y) {
            29
        } else {
            28
        }
    } else if m == 4 || m == 6 || m == 9 || m == 11 {
        30
    } else {
        31
    }
}

/// `s` is a calendar date `YYYY-MM-DD`, optionally followed by a clock
/// time ` HH:MM:SS`, with every field in range.
pub open spec fn valid_start_time(s: Seq<char>) -> bool {
    &&& (s.len() == 10 || s.len() == 19)
    &&& two_digits(s, 0) && two_digits(s, 2)
    &&& s[4] == '-'
    &&& two_digits(s, 5)
    &&& s[7] == '-'
    &&& two_digits(s, 8)
    &&& 1 <= val2(s, 5) <= 12
    &&& 1 <= val2(s, 8) <= days_in_month(val4(s, 0), val2(s, 5))
    &&& (s.len() == 19 ==> {
        &&& s[10] == ' '
        &&& two_digits(s, 11) && s[13] == ':' && two_digits(s, 14) && s[16] == ':' && two_digits(
            s,
            17,
        )
        &&& val2(s, 11) < 24 && val2(s, 14) < 60 && val2(s, 17) < 60
    })
}

/// The field a date question asks for: year, month, day or hour.
pub open spec fn date_field_val(s: Seq<char>, fd: int) -> int {
    if fd == 0 {
        val4(s, 0)
    } else if fd == 1 {
        val2(s, 5)
    } else if fd == 2 {
        val2(s, 8)
    } else if s.len() == 19 {
        val2(s, 11)
    } else {
        0
    }
}

/// The calendar fields of a parsed start time.
#[derive(Debug, Clone, Copy, PartialEq, Eq, Structural)]
pub struct DateParts {
    /// Four-digit year.
    pub year: u32,
    /// Month, 1 to 12.
    pub month: u32,
    /// Day of the month, valid for the year and month.
    pub day: u32,
    /// Hour, 0 to 23; 0 when the start time carries no clock part.
    pub hour: u32,
}

/// Reads the two digits at position `i`.
fn read2(s: &str, i: usize) -> (r: Option<u32>)
    requires
        i + 2 <= s@.len(),
        s@.len() <= usize::MAX,
    ensures
        match r {
            Some(v) => two_digits(s@, i as int) && v as int == val2(s@, i as int) && v <= 99,
            None => !two_digits(s@, i as int),
        },
{
    let c0 = s.get_char(i);
    let c1 = s.get_char(i + 1);
    if digit_char(c0) && digit_char(c1) {
        Some(((c0 as u32) - 48) * 10 + ((c1 as u32) - 48))
    } else {
        None
    }
}

/// Days in a month of the Gregorian calendar.
pub fn days_in_month_of(year: u32, month: u32) -> (r: u32)
    ensures
        r as int == days_in_month(year as int, month as int),
{
    if month == 2 {
        if year % 4 == 0 && (year % 100 != 0 || year % 400 == 0) {
            29
        } else {
            28
        }
    } else if month == 4 || month == 6 || month == 9 || month == 11 {
        30
    } else {
        31
    }
}

/// Parses a start time of the shape `YYYY-MM-DD HH:MM:SS` or
/// `YYYY-MM-DD`, validating every field against the calendar.
pub fn parse_start_time(s: &str) -> (r: Option<DateParts>)
    ensures
        match r {
            Some(d) => {
                &&& valid_start_time(s@)
                &&& d.year as int == val4(s@, 0)
                &&& d.month as int == val2(s@, 5)
                &&& d.day as int == val2(s@, 8)
                &&& d.hour as int == date_field_val(s@, 3)
            },
            None => !valid_start_time(s@),
        },
{
    let n = s.unicode_len();
    if n != 10 && n != 19 {
        return None;
    }
    let y_hi = match read2(s, 0) {
        Some(v) => v,
        None => {
            return None;
        },
    };
    let y_lo = match read2(s, 2) {
        Some(v) => v,
        None => {
            return None;
        },
    };
    let year = y_hi * 100 + y_lo;
    if s.get_char(4) != '-' {
        return None;
    }
    let month = match read2(s, 5) {
        Some(v) => v,
        None => {
            return None;
        },
    };
    if s.get_char(7) != '-' {
        return None;
    }
    let day = match read2(s, 8) {
        Some(v) => v,
        None => {
            return None;
        },
    };
    if !(1 <= month && month <= 12) {
        return None;
    }
    if !(1 <= day && day <= days_in_month_of(year, month)) {
        return None;
    }
    let mut hour: u32 = 0;
    if n == 19 {
        if s.get_char(10) != ' ' {
            return None;
        }
        let h = match read2(s, 11) {
            Some(v) => v,
            None => {
                return None;
            },
        };
        if s.get_char(13) != ':' {
            return None;
        }
        let mi = match read2(s, 14) {
            Some(v) => v,
            None => {
                return None;
            },
        };
        if s.get_char(16) != ':' {
            return None;
        }
        let sec = match read2(s, 17) {
            Some(v) => v,
            None => {
                return None;
            },
        };
        if !(h < 24 && mi < 60 && sec < 60) {
            return None;
        }
        hour = h;
    }
    Some(DateParts { year, month, day, hour })
}

// ===========================================================================
// Chinese characters in announce content
// ===========================================================================

/// Whether `c` is a Chinese character for the purposes of content
/// questions: CJK ideographs and their extensions, CJK punctuation, and
/// fullwidth forms.
pub open spec fn is_chinese_char(c: char) -> bool {
    let u = c as u32;
    (0x4E00 <= u && u <= 0x9FFF) || (0x3400 <= u && u <= 0x4DBF) || (0x20000 <= u && u <= 0x2A6DF)
        || (0x2A700 <= u && u <= 0x2B73F) || (0x2B740 <= u && u <= 0x2B81F) || (0x2B820 <= u && u
        <= 0x2CEAF) || (0x2CEB0 <= u && u <= 0x2EBEF) || (0x3000 <= u && u <= 0x303F) || (0xFF00
        <= u && u <= 0xFFEF)
}

/// Executable test matching `is_chinese_char`.
pub fn is_chinese(c: char) -> (r: bool)
    ensures
        r == is_chinese_char(c),
{
    let u = c as u32;
    (0x4E00 <= u && u <= 0x9FFF) || (0x3400 <= u && u <= 0x4DBF) || (0x20000 <= u && u <= 0x2A6DF)
        || (0x2A700 <= u && u <= 0x2B73F) || (0x2B740 <= u && u <= 0x2B81F) || (0x2B820 <= u && u
        <= 0x2CEAF) || (0x2CEB0 <= u && u <= 0x2EBEF) || (0x3000 <= u && u <= 0x303F) || (0xFF00
        <= u && u <= 0xFFEF)
}

/// The Chinese characters of `s`, in order.
pub open spec fn chinese_of(s: Seq<char>) -> Seq<char> {
    s.filter(|c: char| is_chinese_char(c))
}

proof fn lemma_chinese_take_push(s: Seq<char>, i: int)
    requires
        0 <= i < s.len(),
    ensures
        chinese_of(s.subrange(0, i + 1)) == if is_chinese_char(s[i]) {
            chinese_of(s.subrange(0, i)).push(s[i])
        } else {
            chinese_of(s.subrange(0, i))
        },
{
    reveal(Seq::filter);
    let pre1 = s.subrange(0, i + 1);
    assert(pre1.drop_last() =~= s.subrange(0, i));
    assert(pre1.last() == s[i]);
}

/// The positions, in `s`, of each of its Chinese characters.
pub fn chinese_positions(s: &str) -> (r: Vec<usize>)
    ensures
        r@.len() == chinese_of(s@).len(),
        forall|k: int|
            0 <= k < r@.len() ==> #[trigger] r@[k] < s@.len() && s@[r@[k] as int] == chinese_of(
                s@,
            )[k],
{
    let n = s.unicode_len();
    let mut r: Vec<usize> = Vec::new();
    let mut i: usize = 0;
    proof {
        assert(s@.subrange(0, 0) =~= Seq::<char>::empty());
        assert(chinese_of(Seq::<char>::empty()) =~= Seq::<char>::empty()) by {
            reveal(Seq::filter);
        }
    }
    while i < n
        invariant
            n == s@.len(),
            i <= n,
            r@.len() == chinese_of(s@.subrange(0, i as int)).len(),
            forall|k: int|
                0 <= k < r@.len() ==> #[trigger] r@[k] < i && s@[r@[k] as int] == chinese_of(
                    s@.subrange(0, i as int),
                )[k],
        decreases n - i,
    {
        let c = s.get_char(i);
        proof {
            lemma_chinese_take_push(s@, i as int);
        }
        let ghost pre = chinese_of(s@.subrange(0, i as int));
        if is_chinese(c) {
            r.push(i);
            proof {
                assert forall|k: int|
                    0 <= k < r@.len() implies #[trigger] r@[k] < i + 1 && s@[r@[k] as int]
                    == chinese_of(s@.subrange(0, i as int + 1))[k] by {
                    if k < r@.len() - 1 {
                        assert(chinese_of(s@.subrange(0, i as int + 1))[k] == pre[k]);
                    } else {
                        assert(r@[k] == i);
                        assert(chinese_of(s@.subrange(0, i as int + 1))[k] == s@[i as int]);
                    }
                }
            }
        }
        i += 1;
    }
    proof {
        assert(s@.subrange(0, n as int) =~= s@);
    }
    r
}

// ===========================================================================
// Question texts
// ===========================================================================

/// Every question opens with the entry's index.
pub open spec fn q_prefix(index: u32) -> Seq<char> {
    dec_rep(index as int) + "期公告娘"@
}

/// The clause naming one announce of an entry.
pub open spec fn rev_suffix(rev: int) -> Seq<char> {
    "的第"@ + dec_rep(rev) + "篇公告"@
}

/// The revision an announce is referred to by; 1 when the source gave none.
pub open spec fn announce_rev(an: BannerAnnounce) -> int {
    match an.revision {
        Some(v) => v as int,
        None => 1,
    }
}

/// The closing clause of a date question, by drawn field.
pub open spec fn date_field_text(fd: int) -> Seq<char> {
    if fd == 0 {
        "是哪一年发布的?"@
    } else if fd == 1 {
        "是哪一月发布的?"@
    } else if fd == 2 {
        "是该月几号发布的?"@
    } else {
        "是当天几点发布的(精确到小时)?"@
    }
}

/// A date question over announce `ad` of `b`, asking for field `fd`.
pub open spec fn date_q(b: Banner, ad: int, fd: int) -> (Seq<char>, Seq<char>) {
    let an = b.announces@[ad];
    if valid_start_time(an.start_time@) {
        (
            q_prefix(b.index) + rev_suffix(announce_rev(an)) + date_field_text(fd),
            dec_rep(date_field_val(an.start_time@, fd)),
        )
    } else {
        (q_prefix(b.index) + "发布"@, "2024"@)
    }
}

/// A duration question: over the banner's own life when `sd` is 0 or the
/// entry has a single announce, else over announce `ad`'s life.
pub open spec fn life_q(b: Banner, sd: int, ad: int) -> (Seq<char>, Seq<char>) {
    let use_banner = b.announces@.len() == 1 || sd == 0;
    let life = if use_banner {
        match b.announces@[0].banner_life {
            Some(l) => l@,
            None => "7天"@,
        }
    } else {
        match b.announces@[ad].announce_life {
            Some(l) => l@,
            None => "7天"@,
        }
    };
    let suffix = if use_banner {
        Seq::<char>::empty()
    } else {
        rev_suffix(announce_rev(b.announces@[ad]))
    };
    let unit = if life.contains('天') {
        "天"@
    } else {
        "小时"@
    };
    (q_prefix(b.index) + suffix + "持续了几"@ + unit + "?"@, crate::text::leading_number(life))
}

/// An attribution question over announce `ad` of `b`.
pub open spec fn publisher_q(b: Banner, ad: int) -> (Seq<char>, Seq<char>) {
    if b.announces@.len() == 1 {
        (q_prefix(b.index) + "是谁上传的?"@, b.announces@[0].publisher@)
    } else {
        (
            q_prefix(b.index) + rev_suffix(announce_rev(b.announces@[ad])) + "是谁上传的?"@,
            b.announces@[ad].publisher@,
        )
    }
}

/// A subject-pairing question: asks for the character when `md` is 0 and
/// for the game when `md` is 1; falls back to attribution when the entry
/// lacks either label.
pub open spec fn character_game_q(b: Banner, md: int, ad: int) -> (Seq<char>, Seq<char>) {
    if b.game is Some && b.character is Some {
        if md == 0 {
            (
                q_prefix(b.index) + "是游戏"@ + b.game->Some_0@ + "里的哪个角色？"@,
                b.character->Some_0@,
            )
        } else {
            (
                q_prefix(b.index) + b.character->Some_0@ + "是哪个游戏里的角色？"@,
                b.game->Some_0@,
            )
        }
    } else {
        publisher_q(b, ad)
    }
}

/// A content question over announce `ad` of `b`: its first word when `md`
/// exceeds 1, else its `cp`-th Chinese character.
pub open spec fn content_q(b: Banner, ad: int, md: int, cp: int) -> (Seq<char>, Seq<char>) {
    let an = b.announces@[ad];
    let suffix = if b.announces@.len() > 1 {
        rev_suffix(announce_rev(an))
    } else {
        Seq::<char>::empty()
    };
    if md > 1 {
        (
            q_prefix(b.index) + suffix + "的内容的第一个换行或空格之前的内容是什么？"@,
            crate::text::first_token(an.content@),
        )
    } else if chinese_of(an.content@).len() == 0 {
        (q_prefix(b.index) + suffix + "的内容是什么？"@, an.content@)
    } else {
        (
            q_prefix(b.index) + suffix + "的内容的第"@ + dec_rep(cp + 1)
                + "个字是什么(不包含英文字符和半角标点符号)？"@,
            seq![chinese_of(an.content@)[cp]],
        )
    }
}

/// The draws each question category accepts over entry `b`.
pub open spec fn valid_draws(b: Banner, t: int, d1: int, d2: int, d3: int) -> bool {
    let alen = b.announces@.len() as int;
    &&& alen > 0
    &&& if t == 0 {
        0 <= d1 < alen && 0 <= d2 < 4
    } else if t == 1 {
        0 <= d1 < 2 && 0 <= d2 < alen
    } else if t == 2 {
        0 <= d1 < alen
    } else if t == 3 {
        0 <= d1 < alen && 0 <= d2 < 2
    } else if t == 4 {
        0 <= d1 < alen && 0 <= d2 < 10 && (d2 <= 1 && chinese_of(b.announces@[d1].content@).len()
            > 0 ==> 0 <= d3 < chinese_of(b.announces@[d1].content@).len())
    } else {
        false
    }
}

/// The question a category and its draws build over entry `b`.
pub open spec fn built_q(b: Banner, t: int, d1: int, d2: int, d3: int) -> (Seq<char>, Seq<char>) {
    if t == 0 {
        date_q(b, d1, d2)
    } else if t == 1 {
        life_q(b, d1, d2)
    } else if t == 2 {
        publisher_q(b, d1)
    } else if t == 3 {
        character_game_q(b, d2, d1)
    } else {
        content_q(b, d1, d2, d3)
    }
}

/// `(q, a)` is a question some category and draws build over some real
/// entry of the corpus (index 0 is the reserved placeholder).
pub open spec fn corpus_question(banners: Seq<Banner>, q: Seq<char>, a: Seq<char>) -> bool {
    exists|bi: int, t: int, d1: int, d2: int, d3: int|
        1 <= bi < banners.len() && valid_draws(banners[bi], t, d1, d2, d3) && (q, a) == #[trigger] built_q(
            banners[bi],
            t,
            d1,
            d2,
            d3,
        )
}

/// The pair handed out when the corpus cannot supply a question.
pub open spec fn placeholder_question(q: Seq<char>, a: Seq<char>) -> bool {
    q == "No questions available"@ && a == "N/A"@
}

/// The corpus cannot be relied on for a question: it has no real entry,
/// some real entry has no announces, or some admissible draw builds a
/// blank question or answer.
pub open spec fn degenerate_corpus(banners: Seq<Banner>) -> bool {
    ||| banners.len() <= 1
    ||| (exists|bi: int|
        1 <= bi < banners.len() && (#[trigger] banners[bi]).announces@.len() == 0)
    ||| (exists|bi: int, t: int, d1: int, d2: int, d3: int|
        1 <= bi < banners.len() && #[trigger] valid_draws(banners[bi], t, d1, d2, d3) && (built_q(
            banners[bi],
            t,
            d1,
            d2,
            d3,
        ).0.len() == 0 || built_q(banners[bi], t, d1, d2, d3).1.len() == 0))
}

// ===========================================================================
// The database
// ===========================================================================

/// The quiz corpus: read-only after construction.
pub struct BannerDatabase {
    /// The corpus entries; entry 0 is a reserved placeholder.
    pub banners: Vec<Banner>,
}

impl BannerDatabase {
    /// Wraps a loaded corpus.
    pub fn new(banners: Vec<Banner>) -> (r: Self)
        ensures
            r.banners@ == banners@,
    {
        Self { banners }
    }

    /// The placeholder challenge.
    fn placeholder(&self) -> (r: (String, String))
        ensures
            placeholder_question(r.0@, r.1@),
            r.0@.len() > 0,
            r.1@.len() > 0,
    {
        proof {
            reveal_strlit("No questions available");
            reveal_strlit("N/A");
        }
        (String::from_str("No questions available"), String::from_str("N/A"))
    }

    /// Builds a date question; deterministic in the draws.
    pub fn date_question(&self, idx: usize, announce_draw: usize, field_draw: usize) -> (r: (
        String,
        String,
    ))
        requires
            idx < self.banners@.len(),
            announce_draw < self.banners@[idx as int].announces@.len(),
            field_draw < 4,
        ensures
            r.0@ == date_q(self.banners@[idx as int], announce_draw as int, field_draw as int).0,
            r.1@ == date_q(self.banners@[idx as int], announce_draw as int, field_draw as int).1,
    {
        let b = &self.banners[idx];
        let an = &b.announces[announce_draw];
        let rev: u32 = match an.revision {
            Some(v) => v,
            None => 1,
        };
        match parse_start_time(an.start_time.as_str()) {
            Some(d) => {
                let v: u32 = if field_draw == 0 {
                    d.year
                } else if field_draw == 1 {
                    d.month
                } else if field_draw == 2 {
                    d.day
                } else {
                    d.hour
                };
                let ftext = if field_draw == 0 {
                    "是哪一年发布的?"
                } else if field_draw == 1 {
                    "是哪一月发布的?"
                } else if field_draw == 2 {
                    "是该月几号发布的?"
                } else {
                    "是当天几点发布的(精确到小时)?"
                };
                let mut q = u64_to_string(b.index as u64);
                q.append("期公告娘");
                q.append("的第");
                let revs = u64_to_string(rev as u64);
                q.append(revs.as_str());
                q.append("篇公告");
                q.append(ftext);
                proof {
                    assert(q@ =~= date_q(
                        self.banners@[idx as int],
                        announce_draw as int,
                        field_draw as int,
                    ).0);
                }
                (q, u64_to_string(v as u64))
            },
            None => {
                let mut q = u64_to_string(b.index as u64);
                q.append("期公告娘");
                q.append("发布");
                proof {
                    assert(q@ =~= date_q(
                        self.banners@[idx as int],
                        announce_draw as int,
                        field_draw as int,
                    ).0);
                }
                (q, String::from_str("2024"))
            },
        }
    }

    /// Builds a duration question; deterministic in the draws.
    pub fn life_question(&self, idx: usize, source_draw: usize, announce_draw: usize) -> (r: (
        String,
        String,
    ))
        requires
            idx < self.banners@.len(),
            announce_draw < self.banners@[idx as int].announces@.len(),
            self.banners@[idx as int].announces@.len() > 0,
            source_draw < 2,
        ensures
            r.0@ == life_q(self.banners@[idx as int], source_draw as int, announce_draw as int).0,
            r.1@ == life_q(self.banners@[idx as int], source_draw as int, announce_draw as int).1,
    {
        let b = &self.banners[idx];
        let use_banner = b.announces.len() == 1 || source_draw == 0;
        let seven = "7天";
        let life: &str = if use_banner {
            match &b.announces[0].banner_life {
                Some(l) => l.as_str(),
                None => seven,
            }
        } else {
            match &b.announces[announce_draw].announce_life {
                Some(l) => l.as_str(),
                None => seven,
            }
        };
        let unit = if crate::text::contains_char(life, '天') {
            "天"
        } else {
            "小时"
        };
        let numeric = crate::text::leading_number_str(life);
        let answer = String::from_str(numeric);
        let mut q = u64_to_string(b.index as u64);
        q.append("期公告娘");
        if !use_banner {
            let an = &b.announces[announce_draw];
            let rev: u32 = match an.revision {
                Some(v) => v,
                None => 1,
            };
            q.append("的第");
            let revs = u64_to_string(rev as u64);
            q.append(revs.as_str());
            q.append("篇公告");
        }
        q.append("持续了几");
        q.append(unit);
        q.append("?");
        proof {
            assert(q@ =~= life_q(
                self.banners@[idx as int],
                source_draw as int,
                announce_draw as int,
            ).0);
        }
        (q, answer)
    }

    /// Builds an attribution question; deterministic in the draw.
    pub fn publisher_question(&self, idx: usize, announce_draw: usize) -> (r: (String, String))
        requires
            idx < self.banners@.len(),
            announce_draw < self.banners@[idx as int].announces@.len(),
        ensures
            r.0@ == publisher_q(self.banners@[idx as int], announce_draw as int).0,
            r.1@ == publisher_q(self.banners@[idx as int], announce_draw as int).1,
    {
        let b = &self.banners[idx];
        let mut q = u64_to_string(b.index as u64);
        q.append("期公告娘");
        if b.announces.len() == 1 {
            q.append("是谁上传的?");
            proof {
                assert(q@ =~= publisher_q(self.banners@[idx as int], announce_draw as int).0);
            }
            (q, b.announces[0].publisher.clone())
        } else {
            let an = &b.announces[announce_draw];
            let rev: u32 = match an.revision {
                Some(v) => v,
                None => 1,
            };
            q.append("的第");
            let revs = u64_to_string(rev as u64);
            q.append(revs.as_str());
            q.append("篇公告");
            q.append("是谁上传的?");
            proof {
                assert(q@ =~= publisher_q(self.banners@[idx as int], announce_draw as int).0);
            }
            (q, an.publisher.clone())
        }
    }

    /// Builds a subject-pairing question; deterministic in the draws.
    pub fn character_game_question(&self, idx: usize, mode_draw: usize, announce_draw: usize) -> (r:
        (String, String))
        requires
            idx < self.banners@.len(),
            announce_draw < self.banners@[idx as int].announces@.len(),
            mode_draw < 2,
        ensures
            r.0@ == character_game_q(
                self.banners@[idx as int],
                mode_draw as int,
                announce_draw as int,
            ).0,
            r.1@ == character_game_q(
                self.banners@[idx as int],
                mode_draw as int,
                announce_draw as int,
            ).1,
    {
        let b = &self.banners[idx];
        match (&b.game, &b.character) {
            (Some(game), Some(character)) => {
                let mut q = u64_to_string(b.index as u64);
                q.append("期公告娘");
                if mode_draw == 0 {
                    q.append("是游戏");
                    q.append(game.as_str());
                    q.append("里的哪个角色？");
                    proof {
                        assert(q@ =~= character_game_q(
                            self.banners@[idx as int],
                            mode_draw as int,
                            announce_draw as int,
                        ).0);
                    }
                    (q, character.clone())
                } else {
                    q.append(character.as_str());
                    q.append("是哪个游戏里的角色？");
                    proof {
                        assert(q@ =~= character_game_q(
                            self.banners@[idx as int],
                            mode_draw as int,
                            announce_draw as int,
                        ).0);
                    }
                    (q, game.clone())
                }
            },
            _ => self.publisher_question(idx, announce_draw),
        }
    }

    /// Builds a content question; deterministic in the draws.
    pub fn content_question(&self, idx: usize, announce_draw: usize, mode_draw: usize, char_pick: usize) -> (r:
        (String, String))
        requires
            idx < self.banners@.len(),
            announce_draw < self.banners@[idx as int].announces@.len(),
            mode_draw < 10,
            mode_draw <= 1 && chinese_of(
                self.banners@[idx as int].announces@[announce_draw as int].content@,
            ).len() > 0 ==> char_pick < chinese_of(
                self.banners@[idx as int].announces@[announce_draw as int].content@,
            ).len(),
        ensures
            r.0@ == content_q(
                self.banners@[idx as int],
                announce_draw as int,
                mode_draw as int,
                char_pick as int,
            ).0,
            r.1@ == content_q(
                self.banners@[idx as int],
                announce_draw as int,
                mode_draw as int,
                char_pick as int,
            ).1,
    {
        let b = &self.banners[idx];
        let an = &b.announces[announce_draw];
        let mut q = u64_to_string(b.index as u64);
        q.append("期公告娘");
        if b.announces.len() > 1 {
            let rev: u32 = match an.revision {
                Some(v) => v,
                None => 1,
            };
            q.append("的第");
            let revs = u64_to_string(rev as u64);
            q.append(revs.as_str());
            q.append("篇公告");
        }
        if mode_draw > 1 {
            q.append("的内容的第一个换行或空格之前的内容是什么？");
            let tok = crate::text::first_token_str(an.content.as_str());
            proof {
                assert(q@ =~= content_q(
                    self.banners@[idx as int],
                    announce_draw as int,
                    mode_draw as int,
                    char_pick as int,
                ).0);
            }
            (q, String::from_str(tok))
        } else {
            let positions = chinese_positions(an.content.as_str());
            if positions.len() == 0 {
                q.append("的内容是什么？");
                proof {
                    assert(q@ =~= content_q(
                        self.banners@[idx as int],
                        announce_draw as int,
                        mode_draw as int,
                        char_pick as int,
                    ).0);
                }
                (q, an.content.clone())
            } else {
                let p = positions[char_pick];
                // binds the content length so the position is known to
                // fit the machine word
                let _clen = an.content.as_str().unicode_len();
                let ch = an.content.as_str().substring_char(p, p + 1);
                q.append("的内容的第");
                let picks = u64_to_string((char_pick as u64) + 1);
                q.append(picks.as_str());
                q.append("个字是什么(不包含英文字符和半角标点符号)？");
                proof {
                    assert(q@ =~= content_q(
                        self.banners@[idx as int],
                        announce_draw as int,
                        mode_draw as int,
                        char_pick as int,
                    ).0);
                    assert(ch@ =~= seq![chinese_of(an.content@)[char_pick as int]]);
                }
                (q, String::from_str(ch))
            }
        }
    }

    /// Draws a weighted random challenge: a date question 15% of the
    /// time, a duration question 15%, attribution 2%, subject pairing
    /// 58%, and a content question 10%.  The placeholder pair comes
    /// back only from a degenerate corpus: no real entries, an entry
    /// without announces, or a draw that builds a blank question or
    /// answer.
    pub fn random_question(&self) -> (r: (String, String))
        ensures
            r.0@.len() > 0,
            r.1@.len() > 0,
            corpus_question(self.banners@, r.0@, r.1@) || (placeholder_question(r.0@, r.1@)
                && degenerate_corpus(self.banners@)),
    {
        let len = self.banners.len();
        if len <= 1 {
            proof {
                assert(degenerate_corpus(self.banners@));
            }
            return self.placeholder();
        }
        let question_type = crate::rng::rand_below(100);
        let idx = (crate::rng::rand_below((len - 1) as u64) as usize) + 1;
        let alen = self.banners[idx].announces.len();
        if alen == 0 {
            proof {
                assert(1 <= idx < self.banners@.len() && self.banners@[idx as int].announces@.len()
                    == 0);
                assert(degenerate_corpus(self.banners@));
            }
            return self.placeholder();
        }
        let ghost b = self.banners@[idx as int];
        let ghost mut t: int = 0;
        let ghost mut d1: int = 0;
        let ghost mut d2: int = 0;
        let ghost mut d3: int = 0;
        let (q, a) = if question_type < 15 {
            let ad = crate::rng::rand_below(alen as u64) as usize;
            let fd = crate::rng::rand_below(4) as usize;
            proof {
                t = 0;
                d1 = ad as int;
                d2 = fd as int;
                d3 = 0;
            }
            self.date_question(idx, ad, fd)
        } else if question_type < 30 {
            let sd = crate::rng::rand_below(2) as usize;
            let ad = crate::rng::rand_below(alen as u64) as usize;
            proof {
                t = 1;
                d1 = sd as int;
                d2 = ad as int;
                d3 = 0;
            }
            self.life_question(idx, sd, ad)
        } else if question_type < 32 {
            let ad = crate::rng::rand_below(alen as u64) as usize;
            proof {
                t = 2;
                d1 = ad as int;
                d2 = 0;
                d3 = 0;
            }
            self.publisher_question(idx, ad)
        } else if question_type < 90 {
            let md = crate::rng::rand_below(2) as usize;
            let ad = crate::rng::rand_below(alen as u64) as usize;
            proof {
                t = 3;
                d1 = ad as int;
                d2 = md as int;
                d3 = 0;
            }
            self.character_game_question(idx, md, ad)
        } else {
            let ad = crate::rng::rand_below(alen as u64) as usize;
            let md = crate::rng::rand_below(10) as usize;
            let ccount = chinese_positions(self.banners[idx].announces[ad].content.as_str()).len();
            let cp = if ccount > 0 {
                crate::rng::rand_below(ccount as u64) as usize
            } else {
                0
            };
            proof {
                t = 4;
                d1 = ad as int;
                d2 = md as int;
                d3 = cp as int;
            }
            self.content_question(idx, ad, md, cp)
        };
        if q.as_str().is_empty() || a.as_str().is_empty() {
            proof {
                assert(1 <= idx < self.banners@.len() && valid_draws(b, t, d1, d2, d3) && (built_q(
                    b,
                    t,
                    d1,
                    d2,
                    d3,
                ).0.len() == 0 || built_q(b, t, d1, d2, d3).1.len() == 0));
                assert(degenerate_corpus(self.banners@));
            }
            self.placeholder()
        } else {
            proof {
                assert(1 <= idx < self.banners@.len() && valid_draws(b, t, d1, d2, d3) && (
                q@,
                a@,
                ) == built_q(b, t, d1, d2, d3));
                assert(corpus_question(self.banners@, q@, a@));
            }
            (q, a)
        }
    }
}

} // verus!
