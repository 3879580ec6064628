use vstd::prelude::*;
use vstd::string::StringSliceAdditionalSpecFns;
use crate::date::{
    date_at, days_before_month, days_in_month, lemma_month_within_year, local_date_ymd,
    CalendarDate, YEAR_LIMIT,
};
use crate::text::{decimal, decimal_string, signed_decimal, signed_decimal_string};

verus! {

/// The pieces of `s` between dots, as `str::split('.')` cuts them.
pub open spec fn split_dots(s: Seq<u8>) -> Seq<Seq<u8>>
    decreases s.len(),
{
    if s.len() == 0 {
        seq![Seq::empty()]
    } else {
        let rest = split_dots(s.drop_last());
        if s.last() == 46u8 {
            rest.push(Seq::empty())
        } else {
            rest.update(rest.len() - 1, rest.last().push(s.last()))
        }
    }
}

pub open spec fn is_digit(b: u8) -> bool {
    48 <= b <= 57
}

/// The value of a run of decimal digits.
pub open spec fn digits_value(d: Seq<u8>) -> int
    decreases d.len(),
{
    if d.len() == 0 {
        0
    } else {
        digits_value(d.drop_last()) * 10 + (d.last() - 48)
    }
}

/// A leading sign.
pub open spec fn is_signed(p: Seq<u8>) -> bool {
    p.len() > 0 && (p[0] == 45u8 || p[0] == 43u8)
}

/// What follows the sign, if any.
pub open spec fn unsigned_part(p: Seq<u8>) -> Seq<u8> {
    if is_signed(p) {
        p.drop_first()
    } else {
        p
    }
}

pub open spec fn all_digits(d: Seq<u8>) -> bool {
    forall|i: int| 0 <= i < d.len() ==> is_digit(#[trigger] d[i])
}

/// The `i64` that `str::parse` reads from `p`: an optional sign, then one
/// digit or more, within the range of `i64`.
pub open spec fn parse_int(p: Seq<u8>) -> Option<i64> {
    let d = unsigned_part(p);
    let v = if is_signed(p) && p[0] == 45u8 {
        -digits_value(d)
    } else {
        digits_value(d)
    };
    if d.len() > 0 && all_digits(d) && i64::MIN <= v <= i64::MAX {
        Some(v as i64)
    } else {
        None
    }
}

/// The numbers among `pieces`, in order; the pieces that are no number are left out.
pub open spec fn parsed_numbers(pieces: Seq<Seq<u8>>) -> Seq<i64>
    decreases pieces.len(),
{
    if pieces.len() == 0 {
        Seq::empty()
    } else {
        let rest = parsed_numbers(pieces.drop_last());
        match parse_int(pieces.last()) {
            Some(v) => rest.push(v),
            None => rest,
        }
    }
}

/// The date written as `day.month.year` in `s`: exactly three of the pieces
/// between dots are numbers, the day and month taken as `i8`, and they name a
/// date of a year within `YEAR_LIMIT` of year 0.
pub open spec fn date_from_text(s: Seq<u8>) -> Option<CalendarDate> {
    let numbers = parsed_numbers(split_dots(s));
    if numbers.len() == 3 {
        let day = numbers[0] as i8;
        let month = numbers[1] as i8;
        let year = numbers[2];
        if 1 <= month <= 12 && -YEAR_LIMIT <= year <= YEAR_LIMIT && 1 <= day <= days_in_month(
            year as int,
            month as int,
        ) {
            Some(date_at(year as int, days_before_month(year as int, month as int) + day))
        } else {
            None
        }
    } else {
        None
    }
}

proof fn lemma_split_nonempty(s: Seq<u8>)
    ensures
        split_dots(s).len() >= 1,
    decreases s.len(),
{
    if s.len() > 0 {
        lemma_split_nonempty(s.drop_last());
    }
}

proof fn lemma_digits_prefix(d: Seq<u8>, k: int)
    requires
        0 <= k <= d.len(),
        forall|i: int| 0 <= i < d.len() ==> is_digit(#[trigger] d[i]),
    ensures
        digits_value(d.subrange(0, k)) <= digits_value(d),
        0 <= digits_value(d),
    decreases d.len(),
{
    if d.len() > 0 {
        let p = d.drop_last();
        assert forall|i: int| 0 <= i < p.len() implies is_digit(#[trigger] p[i]) by {
            assert(p[i] == d[i]);
        }
        if k == d.len() {
            assert(d.subrange(0, k) =~= d);
            lemma_digits_prefix(p, 0);
        } else {
            lemma_digits_prefix(p, k);
            assert(p.subrange(0, k) =~= d.subrange(0, k));
        }
    }
}

/// The number written in `bytes[lo..hi]`, as `str::parse::<i64>` reads it.
fn parse_i64(bytes: &[u8], lo: usize, hi: usize) -> (r: Option<i64>)
    requires
        lo <= hi <= bytes@.len(),
    ensures
        r == parse_int(bytes@.subrange(lo as int, hi as int)),
{
    let ghost p = bytes@.subrange(lo as int, hi as int);
    let mut i = lo;
    let mut negative = false;
    if i < hi && (bytes[i] == 45u8 || bytes[i] == 43u8) {
        negative = bytes[i] == 45u8;
        i += 1;
    }
    let start = i;
    let ghost d = bytes@.subrange(start as int, hi as int);
    assert(d =~= unsigned_part(p));
    if i == hi {
        return None;
    }
    let mut acc: u64 = 0;
    while i < hi
        invariant
            lo <= start <= i <= hi <= bytes@.len(),
            d == bytes@.subrange(start as int, hi as int),
            p == bytes@.subrange(lo as int, hi as int),
            d == unsigned_part(p),
            start > lo <==> is_signed(p),
            negative <==> (start > lo && p[0] == 45u8),
            acc == digits_value(bytes@.subrange(start as int, i as int)),
            acc <= 9223372036854775809u64,
            forall|j: int| start <= j < i ==> is_digit(#[trigger] bytes@[j]),
        decreases hi - i,
    {
        let b = bytes[i];
        if b < 48u8 || b > 57u8 {
            assert(!is_digit(d[i - start]));
            assert(!all_digits(d));
            assert(parse_int(p) is None);
            return None;
        }
        assert(bytes@.subrange(start as int, i + 1).drop_last() =~= bytes@.subrange(
            start as int,
            i as int,
        ));
        if acc > 922337203685477580u64 {
            proof {
                if all_digits(d) {
                    lemma_digits_prefix(d, i + 1 - start);
                    assert(d.subrange(0, i + 1 - start) =~= bytes@.subrange(start as int, i + 1));
                    assert(digits_value(d) > i64::MAX + 1);
                }
                assert(parse_int(p) is None);
            }
            return None;
        }
        acc = acc * 10 + (b - 48u8) as u64;
        i += 1;
    }
    assert(bytes@.subrange(start as int, i as int) =~= d);
    if negative {
        if acc > 9223372036854775808u64 {
            return None;
        }
        if acc == 9223372036854775808u64 {
            return Some(i64::MIN);
        }
        Some(-(acc as i64))
    } else {
        if acc > 9223372036854775807u64 {
            return None;
        }
        Some(acc as i64)
    }
}

/// The date written as `day.month.year` in `date_str`; `None` where it names
/// no date (see `date_from_text`).
pub fn string_to_local_date(date_str: &str) -> (r: Option<CalendarDate>)
    ensures
        r == date_from_text(date_str.spec_bytes()),
        r matches Some(d) ==> d.wf(),
{
    let bytes = date_str.as_bytes();
    let ghost s = bytes@;
    let mut numbers: Vec<i64> = Vec::new();
    let mut start: usize = 0;
    let mut i: usize = 0;
    proof {
        assert(s.subrange(0, 0) =~= Seq::<u8>::empty());
    }
    while i < bytes.len()
        invariant
            s == bytes@,
            start <= i <= s.len(),
            split_dots(s.subrange(0, i as int)).len() >= 1,
            split_dots(s.subrange(0, i as int)).last() == s.subrange(start as int, i as int),
            numbers@ == parsed_numbers(split_dots(s.subrange(0, i as int)).drop_last()),
        decreases s.len() - i,
    {
        let ghost before = split_dots(s.subrange(0, i as int));
        assert(s.subrange(0, i + 1).drop_last() =~= s.subrange(0, i as int));
        if bytes[i] == 46u8 {
            let parsed = parse_i64(bytes, start, i);
            if let Some(v) = parsed {
                numbers.push(v);
            }
            start = i + 1;
            proof {
                let after = split_dots(s.subrange(0, i + 1));
                assert(after == before.push(Seq::empty()));
                assert(after.drop_last() =~= before);
                assert(before =~= before.drop_last().push(before.last()));
                assert(s.subrange(start as int, i + 1) =~= Seq::<u8>::empty());
            }
        } else {
            proof {
                let after = split_dots(s.subrange(0, i + 1));
                assert(after.drop_last() =~= before.drop_last());
                assert(s.subrange(start as int, i + 1) =~= s.subrange(start as int, i as int).push(
                    s[i as int],
                ));
            }
        }
        i += 1;
    }
    let parsed = parse_i64(bytes, start, bytes.len());
    if let Some(v) = parsed {
        numbers.push(v);
    }
    proof {
        let all = split_dots(s);
        assert(s.subrange(0, s.len() as int) =~= s);
        assert(all =~= all.drop_last().push(all.last()));
        assert(numbers@ == parsed_numbers(all));
    }
    if numbers.len() != 3 {
        return None;
    }
    let day = numbers[0] as i8;
    let month = numbers[1] as i8;
    let year = numbers[2];
    if month < 1 || month > 12 {
        return None;
    }
    if year < -YEAR_LIMIT || year > YEAR_LIMIT {
        return None;
    }
    proof {
        lemma_month_within_year(year as int, month as int);
    }
    match local_date_ymd(year, month, day) {
        Some((year, yearday, weekday)) => Some(CalendarDate::build(year, yearday, weekday)),
        None => None,
    }
}

/// The date as `year/month/day`, as in `2025/8/1`.
pub open spec fn slash_label(d: CalendarDate) -> Seq<char> {
    signed_decimal(d.year as int) + "/"@ + decimal(d.month as nat) + "/"@ + decimal(d.day as nat)
}

pub fn localdate_to_string(date: &CalendarDate) -> (r: String)
    ensures
        r@ == slash_label(*date),
{
    let year = signed_decimal_string(date.year);
    let month = decimal_string(date.month as u64);
    let day = decimal_string(date.day as u64);
    year.concat("/").concat(month.as_str()).concat("/").concat(day.as_str())
}

} // verus!
