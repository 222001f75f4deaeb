//! A device's dates as text.
use crate::text;
use crate::text::decimal_of;
use vstd::prelude::*;

verus! {

/// A date and time, to the minute.
#[derive(Clone, Copy, Debug, PartialEq, Eq, Structural)]
pub struct Moment {
    pub year: u16,
    pub month: u8,
    pub day: u8,
    pub hour: u8,
    pub minute: u8,
}

/// A number with zeros in front, at least `width` digits wide.
pub open spec fn padded(n: nat, width: nat) -> Seq<char> {
    let digits = text::decimal(n);
    if digits.len() < width {
        Seq::new((width - digits.len()) as nat, |i: int| '0') + digits
    } else {
        digits
    }
}

/// A date as text: year, month and day, then hour and minute. Two dashes stand for no date.
pub open spec fn date_view(date: Option<Moment>) -> Seq<char> {
    match date {
        Some(date) => padded(date.year as nat, 4) + "-"@ + padded(date.month as nat, 2) + "-"@
            + padded(date.day as nat, 2) + " "@ + padded(date.hour as nat, 2) + ":"@ + padded(
            date.minute as nat,
            2,
        ),
        None => "--"@,
    }
}

fn padded_of(n: u64, width: usize) -> (r: String)
    ensures
        r@ == padded(n as nat, width as nat),
{
    let digits = decimal_of(n);
    let len: usize = digits.as_str().unicode_len();
    let mut r = String::new();
    let mut i: usize = len;
    while i < width
        invariant
            len <= i,
            i <= width || r@.len() == 0,
            r@ == Seq::new((i - len) as nat, |k: int| '0'),
        decreases width - i,
    {
        r.push('0');
        i = i + 1;
        assert(r@ =~= Seq::new((i - len) as nat, |k: int| '0'));
    }
    r.append(digits.as_str());
    assert(r@ =~= padded(n as nat, width as nat));
    r
}

/// A date as text: see [`date_view`].
pub fn date_text(date: Option<Moment>) -> (r: String)
    ensures
        r@ == date_view(date),
{
    match date {
        Some(date) => {
            let mut r = padded_of(date.year as u64, 4);
            r.append("-");
            r.append(padded_of(date.month as u64, 2).as_str());
            r.append("-");
            r.append(padded_of(date.day as u64, 2).as_str());
            r.append(" ");
            r.append(padded_of(date.hour as u64, 2).as_str());
            r.append(":");
            r.append(padded_of(date.minute as u64, 2).as_str());
            r
        },
        None => "--".to_string(),
    }
}

/// A number that is padded ends in its own digits, with nothing but zeros before them, and has
/// the width that is asked for unless it is longer by itself.
pub proof fn law_padding_adds_zeros_only(n: nat, width: nat)
    ensures
        ({
            let shown = padded(n, width);
            let digits = text::decimal(n);
            &&& shown.len() >= width
            &&& shown.len() >= digits.len()
            &&& shown.len() == width || shown.len() == digits.len()
            &&& shown.skip(shown.len() - digits.len()) == digits
            &&& forall|i: int| 0 <= i < shown.len() - digits.len() ==> #[trigger] shown[i] == '0'
        }),
{
    let shown = padded(n, width);
    let digits = text::decimal(n);
    assert(shown.skip(shown.len() - digits.len()) =~= digits);
}

proof fn lemma_short_numerals(n: nat)
    ensures
        n < 100 ==> text::decimal(n).len() <= 2,
        n < 10000 ==> text::decimal(n).len() <= 4,
{
    reveal_with_fuel(text::numeral, 5);
}

/// A date is shown as year, month, day, hour and minute, in this order and each in its place,
/// and so two dates that look the same are the same.
pub proof fn law_dates_have_fixed_places(date: Moment, other: Moment)
    requires
        date.year < 10000,
        date.month < 100,
        date.day < 100,
        date.hour < 100,
        date.minute < 100,
        other.year < 10000,
        other.month < 100,
        other.day < 100,
        other.hour < 100,
        other.minute < 100,
    ensures
        ({
            let shown = date_view(Some(date));
            &&& shown.len() == 16
            &&& shown.subrange(0, 4) == padded(date.year as nat, 4)
            &&& shown[4] == '-'
            &&& shown.subrange(5, 7) == padded(date.month as nat, 2)
            &&& shown[7] == '-'
            &&& shown.subrange(8, 10) == padded(date.day as nat, 2)
            &&& shown[10] == ' '
            &&& shown.subrange(11, 13) == padded(date.hour as nat, 2)
            &&& shown[13] == ':'
            &&& shown.subrange(14, 16) == padded(date.minute as nat, 2)
        }),
        date_view(None) == "--"@,
        date_view(Some(date)) == date_view(Some(other)) ==> date == other,
{
    lemma_places(date);
    lemma_places(other);
    if date_view(Some(date)) == date_view(Some(other)) {
        lemma_padded_distinct(date.year as nat, other.year as nat, 4);
        lemma_padded_distinct(date.month as nat, other.month as nat, 2);
        lemma_padded_distinct(date.day as nat, other.day as nat, 2);
        lemma_padded_distinct(date.hour as nat, other.hour as nat, 2);
        lemma_padded_distinct(date.minute as nat, other.minute as nat, 2);
    }
}

proof fn lemma_places(date: Moment)
    requires
        date.year < 10000,
        date.month < 100,
        date.day < 100,
        date.hour < 100,
        date.minute < 100,
    ensures
        ({
            let shown = date_view(Some(date));
            &&& shown.len() == 16
            &&& shown.subrange(0, 4) == padded(date.year as nat, 4)
            &&& shown[4] == '-'
            &&& shown.subrange(5, 7) == padded(date.month as nat, 2)
            &&& shown[7] == '-'
            &&& shown.subrange(8, 10) == padded(date.day as nat, 2)
            &&& shown[10] == ' '
            &&& shown.subrange(11, 13) == padded(date.hour as nat, 2)
            &&& shown[13] == ':'
            &&& shown.subrange(14, 16) == padded(date.minute as nat, 2)
        }),
{
    reveal_strlit("-");
    reveal_strlit(" ");
    reveal_strlit(":");
    lemma_short_numerals(date.year as nat);
    lemma_short_numerals(date.month as nat);
    lemma_short_numerals(date.day as nat);
    lemma_short_numerals(date.hour as nat);
    lemma_short_numerals(date.minute as nat);
    let shown = date_view(Some(date));
    assert(padded(date.year as nat, 4).len() == 4);
    assert(padded(date.month as nat, 2).len() == 2);
    assert(padded(date.day as nat, 2).len() == 2);
    assert(padded(date.hour as nat, 2).len() == 2);
    assert(padded(date.minute as nat, 2).len() == 2);
    assert(shown.subrange(0, 4) =~= padded(date.year as nat, 4));
    assert(shown.subrange(5, 7) =~= padded(date.month as nat, 2));
    assert(shown.subrange(8, 10) =~= padded(date.day as nat, 2));
    assert(shown.subrange(11, 13) =~= padded(date.hour as nat, 2));
    assert(shown.subrange(14, 16) =~= padded(date.minute as nat, 2));
}

proof fn lemma_zeros_are_worth_nothing(zeros: nat, digits: Seq<char>)
    ensures
        text::digits_value(Seq::new(zeros, |i: int| '0') + digits) == text::digits_value(digits),
    decreases digits.len(), zeros,
{
    let front = Seq::new(zeros, |i: int| '0');
    let s = front + digits;
    if digits.len() > 0 {
        lemma_zeros_are_worth_nothing(zeros, digits.drop_last());
        assert(s.drop_last() =~= front + digits.drop_last());
    } else if zeros > 0 {
        lemma_zeros_are_worth_nothing((zeros - 1) as nat, digits);
        assert(s.drop_last() =~= Seq::new((zeros - 1) as nat, |i: int| '0') + digits);
        assert(s.last() == '0');
    } else {
        assert(s =~= digits);
    }
}

proof fn lemma_padded_distinct(a: nat, b: nat, width: nat)
    ensures
        text::digits_value(padded(a, width)) == a,
        padded(a, width) == padded(b, width) ==> a == b,
{
    text::law_decimal_reads_back(a);
    text::law_decimal_reads_back(b);
    let left = text::decimal(a);
    let right = text::decimal(b);
    if left.len() < width {
        lemma_zeros_are_worth_nothing((width - left.len()) as nat, left);
    }
    if right.len() < width {
        lemma_zeros_are_worth_nothing((width - right.len()) as nat, right);
    }
}

/// Every date is shown by its own year, month, day, hour and minute, whatever they are, and
/// each can be read back.
pub proof fn law_dates_are_made_of_their_parts(date: Moment)
    ensures
        date_view(Some(date)) == padded(date.year as nat, 4) + seq!['-'] + padded(
            date.month as nat,
            2,
        ) + seq!['-'] + padded(date.day as nat, 2) + seq![' '] + padded(date.hour as nat, 2)
            + seq![':'] + padded(date.minute as nat, 2),
        text::digits_value(padded(date.year as nat, 4)) == date.year,
        text::digits_value(padded(date.month as nat, 2)) == date.month,
        text::digits_value(padded(date.day as nat, 2)) == date.day,
        text::digits_value(padded(date.hour as nat, 2)) == date.hour,
        text::digits_value(padded(date.minute as nat, 2)) == date.minute,
{
    reveal_strlit("-");
    reveal_strlit(" ");
    reveal_strlit(":");
    assert("-"@ =~= seq!['-']);
    assert(" "@ =~= seq![' ']);
    assert(":"@ =~= seq![':']);
    lemma_padded_distinct(date.year as nat, date.year as nat, 4);
    lemma_padded_distinct(date.month as nat, date.month as nat, 2);
    lemma_padded_distinct(date.day as nat, date.day as nat, 2);
    lemma_padded_distinct(date.hour as nat, date.hour as nat, 2);
    lemma_padded_distinct(date.minute as nat, date.minute as nat, 2);
}

} // verus!
