//! Text building blocks: character sequences, decimal and hexadecimal numerals,
//! trimming and path segments.
use vstd::prelude::*;

verus! {

/// Specifies `String::push`: the character is appended to the end of the string.
pub assume_specification[ String::push ](s: &mut String, c: char)
    ensures
        final(s)@ == old(s)@.push(c),
;

/// Names the result of `str::to_lowercase`.
pub uninterp spec fn lowercase(s: Seq<char>) -> Seq<char>;

/// Calls `str::to_lowercase`: the lower-case equivalent of the string.
#[verifier::external_body]
pub(crate) fn to_lowercase(s: &str) -> (r: String)
    ensures
        r@ == lowercase(s@),
{
    s.to_lowercase()
}

/// Whether `part` stands somewhere in `s`.
pub open spec fn holds_text(s: Seq<char>, part: Seq<char>) -> bool {
    exists|i: int|
        0 <= i <= s.len() - part.len() && #[trigger] s.subrange(i, i + part.len()) == part
}

/// The characters of `s`, in order.
pub fn chars_of(s: &str) -> (r: Vec<char>)
    ensures
        r@ == s@,
{
    let mut r: Vec<char> = Vec::new();
    for c in it: s.chars()
        invariant
            r@ == it.seq().take(it.index() as int),
            it.seq() == s@,
    {
        r.push(c);
    }
    r
}

/// The string whose characters are `chars[from..to]`.
pub fn string_of(chars: &Vec<char>, from: usize, to: usize) -> (r: String)
    requires
        from <= to <= chars@.len(),
    ensures
        r@ == chars@.subrange(from as int, to as int),
{
    let mut r = String::new();
    for i in from..to
        invariant
            from <= i <= to <= chars@.len(),
            r@ == chars@.subrange(from as int, i as int),
    {
        r.push(chars[i]);
    }
    r
}

/// Whether two strings hold the same characters.
pub fn same_text(a: &str, b: &str) -> (r: bool)
    ensures
        r == (a@ == b@),
{
    let left = chars_of(a);
    let right = chars_of(b);
    if left.len() != right.len() {
        return false;
    }
    for i in 0..left.len()
        invariant
            left@ == a@,
            right@ == b@,
            left@.len() == right@.len(),
            forall|j: int| 0 <= j < i ==> left@[j] == right@[j],
    {
        if left[i] != right[i] {
            assert(a@[i as int] != b@[i as int]);
            return false;
        }
    }
    assert(a@ =~= b@);
    true
}

/// Whether `s` begins with `prefix`.
pub fn has_prefix(s: &str, prefix: &str) -> (r: bool)
    ensures
        r == prefix@.is_prefix_of(s@),
{
    let text = chars_of(s);
    let head = chars_of(prefix);
    if text.len() < head.len() {
        return false;
    }
    for i in 0..head.len()
        invariant
            text@ == s@,
            head@ == prefix@,
            head@.len() <= text@.len(),
            forall|j: int| 0 <= j < i ==> head@[j] == text@[j],
    {
        if head[i] != text[i] {
            assert(prefix@[i as int] != s@.subrange(0, prefix@.len() as int)[i as int]);
            return false;
        }
    }
    assert(prefix@ =~= s@.subrange(0, prefix@.len() as int));
    true
}

/// The character of the decimal or hexadecimal digit `d`.
pub open spec fn digit_char(d: nat) -> char {
    if d < 10 {
        ('0' as nat + d) as char
    } else {
        ('a' as nat + (d - 10)) as char
    }
}

fn digit(d: u8) -> (r: char)
    requires
        d < 16,
    ensures
        r == digit_char(d as nat),
{
    if d < 10 {
        (48 + d) as char
    } else {
        (87 + d) as char
    }
}

/// The numeral of `n` in base `base`, most significant digit first, without
/// leading zeros (zero itself is the single digit `0`).
pub open spec fn numeral(n: nat, base: nat) -> Seq<char>
    decreases n,
{
    if base < 2 || n < base {
        seq![digit_char(n)]
    } else {
        proof {
            assert(n / base < n) by (nonlinear_arith)
                requires
                    2 <= base <= n,
            ;
        }
        numeral(n / base, base).push(digit_char(n % base))
    }
}

/// The decimal numeral of `n`.
pub open spec fn decimal(n: nat) -> Seq<char> {
    numeral(n, 10)
}

fn numeral_of(n: u64, base: u8) -> (r: String)
    requires
        2 <= base <= 16,
    ensures
        r@ == numeral(n as nat, base as nat),
    decreases n,
{
    if n < base as u64 {
        let mut r = String::new();
        r.push(digit(n as u8));
        assert(r@ =~= seq![digit_char(n as nat)]);
        r
    } else {
        assert((n / (base as u64)) < n) by (nonlinear_arith)
            requires
                2 <= base <= 16,
                n >= base,
        ;
        let mut r = numeral_of(n / base as u64, base);
        let low: u64 = n % base as u64;
        r.push(digit(low as u8));
        r
    }
}

/// The decimal numeral of `n` as a string.
pub fn decimal_of(n: u64) -> (r: String)
    ensures
        r@ == decimal(n as nat),
{
    numeral_of(n, 10)
}

/// `n` in lower-case hexadecimal, padded with zeros on the left to at least `width` digits.
pub open spec fn padded_hex(n: nat, width: nat) -> Seq<char> {
    let digits = numeral(n, 16);
    if digits.len() < width {
        Seq::new((width - digits.len()) as nat, |i: int| '0') + digits
    } else {
        digits
    }
}

/// `n` in lower-case hexadecimal, at least eight digits wide.
pub fn hex8_of(n: u64) -> (r: String)
    ensures
        r@ == padded_hex(n as nat, 8),
{
    let digits = numeral_of(n, 16);
    let count = digits.as_str().unicode_len();
    let mut r = String::new();
    if count < 8 {
        for i in 0..8 - count
            invariant
                r@ == Seq::new(i as nat, |j: int| '0'),
        {
            r.push('0');
            assert(r@ =~= Seq::new((i + 1) as nat, |j: int| '0'));
        }
    } else {
        assert(r@ + digits@ =~= digits@);
    }
    r.append(digits.as_str());
    r
}

/// The characters that Unicode gives the `White_Space` property.
pub open spec fn white_space(c: char) -> bool {
    ||| 0x9 <= c as u32 <= 0xd
    ||| c as u32 == 0x20
    ||| c as u32 == 0x85
    ||| c as u32 == 0xa0
    ||| c as u32 == 0x1680
    ||| 0x2000 <= c as u32 <= 0x200a
    ||| c as u32 == 0x2028
    ||| c as u32 == 0x2029
    ||| c as u32 == 0x202f
    ||| c as u32 == 0x205f
    ||| c as u32 == 0x3000
}

/// Whether `c` is white space.
pub fn is_white_space(c: char) -> (r: bool)
    ensures
        r == white_space(c),
{
    let code: u32 = c as u32;
    (0x9 <= code && code <= 0xd) || code == 0x20 || code == 0x85 || code == 0xa0 || code == 0x1680
        || (0x2000 <= code && code <= 0x200a) || code == 0x2028 || code == 0x2029 || code == 0x202f
        || code == 0x205f || code == 0x3000
}

/// `s` without the white space at its two ends.
pub open spec fn trim(s: Seq<char>) -> Seq<char>
    decreases s.len(),
{
    if s.len() == 0 {
        s
    } else if white_space(s.first()) {
        trim(s.drop_first())
    } else if white_space(s.last()) {
        trim(s.drop_last())
    } else {
        s
    }
}

/// `s` without the white space at its two ends, as a string.
pub fn trim_of(s: &str) -> (r: String)
    ensures
        r@ == trim(s@),
{
    let chars = chars_of(s);
    let mut from: usize = 0;
    let mut to: usize = chars.len();
    assert(chars@.subrange(0, to as int) =~= s@);
    while from < to && is_white_space(chars[from])
        invariant
            chars@ == s@,
            from <= to == chars@.len(),
            trim(chars@.subrange(from as int, to as int)) == trim(s@),
        decreases to - from,
    {
        assert(chars@.subrange(from as int, to as int).drop_first() =~= chars@.subrange(
            from as int + 1,
            to as int,
        ));
        from = from + 1;
    }
    while from < to && is_white_space(chars[to - 1])
        invariant
            chars@ == s@,
            from <= to <= chars@.len(),
            from < to ==> !white_space(chars@[from as int]),
            trim(chars@.subrange(from as int, to as int)) == trim(s@),
        decreases to - from,
    {
        assert(chars@.subrange(from as int, to as int).drop_last() =~= chars@.subrange(
            from as int,
            to as int - 1,
        ));
        to = to - 1;
    }
    string_of(&chars, from, to)
}

/// Whether `c` is one of the ten decimal digits.
pub open spec fn is_digit(c: char) -> bool {
    '0' <= c <= '9'
}

/// The value of a run of decimal digits.
pub open spec fn digits_value(s: Seq<char>) -> nat
    decreases s.len(),
{
    if s.len() == 0 {
        0
    } else {
        digits_value(s.drop_last()) * 10 + (s.last() as nat - '0' as nat) as nat
    }
}

/// The digits of a numeral that may carry a leading plus sign.
pub open spec fn unsigned_part(s: Seq<char>) -> Seq<char> {
    if s.len() > 0 && s[0] == '+' {
        s.drop_first()
    } else {
        s
    }
}

/// The number that `s` denotes: an optional plus sign, then one or more decimal digits
/// and nothing else, with a value that a `usize` can hold.
pub open spec fn parsed_index(s: Seq<char>) -> Option<usize> {
    let digits = unsigned_part(s);
    if digits.len() > 0 && (forall|i: int| 0 <= i < digits.len() ==> is_digit(#[trigger] digits[i]))
        && digits_value(digits) <= usize::MAX {
        Some(digits_value(digits) as usize)
    } else {
        None
    }
}

proof fn lemma_digits_value_grows(s: Seq<char>, n: int)
    requires
        0 <= n <= s.len(),
    ensures
        digits_value(s.take(n)) <= digits_value(s),
    decreases s.len(),
{
    if n < s.len() {
        lemma_digits_value_grows(s.drop_last(), n);
        assert(s.drop_last().take(n) =~= s.take(n));
    } else {
        assert(s.take(n) =~= s);
    }
}

/// Parses an index: see [`parsed_index`].
pub fn parse_index(s: &str) -> (r: Option<usize>)
    ensures
        r == parsed_index(s@),
{
    let chars = chars_of(s);
    let mut at: usize = 0;
    if chars.len() > 0 && chars[0] == '+' {
        at = 1;
    }
    let ghost digits = unsigned_part(s@);
    let ghost start: int = at as int;
    assert(digits =~= s@.skip(start));
    if at == chars.len() {
        return None;
    }
    let mut value: usize = 0;
    while at < chars.len()
        invariant
            chars@ == s@,
            start <= at <= chars@.len(),
            digits == s@.skip(start),
            0 <= start <= s@.len(),
            digits == unsigned_part(s@),
            value == digits_value(digits.take(at - start)),
            forall|i: int| 0 <= i < at - start ==> is_digit(#[trigger] digits[i]),
        decreases chars@.len() - at,
    {
        let c: char = chars[at];
        assert(c == digits[at - start]);
        if !('0' <= c && c <= '9') {
            assert(!is_digit(digits[at - start]));
            return None;
        }
        let d: usize = (c as u32 - 48) as usize;
        let ghost next = digits.take(at - start + 1);
        proof {
            assert(next.drop_last() =~= digits.take(at - start));
            assert(next.last() == c);
            assert(digits_value(next) == value * 10 + d);
            lemma_digits_value_grows(digits, at - start + 1);
        }
        if value > (usize::MAX - d) / 10 {
            return None;
        }
        value = value * 10 + d;
        at = at + 1;
    }
    assert(digits.take(at - start) =~= digits);
    Some(value)
}

/// Every character of a decimal numeral is a digit, there is at least one, and the
/// numeral's value is the number it was made from.
pub proof fn law_decimal_reads_back(n: nat)
    ensures
        decimal(n).len() > 0,
        forall|i: int| 0 <= i < decimal(n).len() ==> is_digit(#[trigger] decimal(n)[i]),
        digits_value(decimal(n)) == n,
    decreases n,
{
    let s = decimal(n);
    if n >= 10 {
        law_decimal_reads_back(n / 10);
        assert(s.drop_last() =~= decimal(n / 10));
    } else {
        assert(s.drop_last() =~= Seq::<char>::empty());
    }
    assert(digits_value(s) == digits_value(s.drop_last()) * 10 + (s.last() as nat - '0' as nat));
}

/// Parsing the decimal numeral of an index gives that index back.
pub proof fn law_parse_reads_decimal(n: usize)
    ensures
        parsed_index(decimal(n as nat)) == Some(n),
{
    law_decimal_reads_back(n as nat);
    assert(is_digit(decimal(n as nat)[0]));
}

/// Different numbers have different decimal numerals.
pub proof fn law_decimal_distinct(a: nat, b: nat)
    requires
        decimal(a) == decimal(b),
    ensures
        a == b,
{
    law_decimal_reads_back(a);
    law_decimal_reads_back(b);
}

/// Trimming takes white space off the two ends and nothing else, and leaves none there.
pub proof fn law_trimming_takes_white_space_only(s: Seq<char>)
    ensures
        exists|from: int, to: int| #[trigger]
            is_trimmed(s, from, to) && trim(s) == s.subrange(from, to),
        trim(s).len() > 0 ==> !white_space(trim(s).first()) && !white_space(trim(s).last()),
        s.len() > 0 && !white_space(s.first()) && !white_space(s.last()) ==> trim(s) == s,
    decreases s.len(),
{
    if s.len() == 0 {
        assert(is_trimmed(s, 0, 0));
        assert(s.subrange(0, 0) =~= s);
    } else if white_space(s.first()) {
        let rest = s.drop_first();
        law_trimming_takes_white_space_only(rest);
        let (from, to) = choose|from: int, to: int| #[trigger]
            is_trimmed(rest, from, to) && trim(rest) == rest.subrange(from, to);
        assert forall|i: int| 0 <= i < from + 1 implies white_space(#[trigger] s[i]) by {
            if i > 0 {
                assert(rest[i - 1] == s[i]);
            }
        }
        assert forall|i: int| to + 1 <= i < s.len() implies white_space(#[trigger] s[i]) by {
            assert(rest[i - 1] == s[i]);
        }
        assert(is_trimmed(s, from + 1, to + 1));
        assert(s.subrange(from + 1, to + 1) =~= rest.subrange(from, to));
    } else if white_space(s.last()) {
        let rest = s.drop_last();
        law_trimming_takes_white_space_only(rest);
        let (from, to) = choose|from: int, to: int| #[trigger]
            is_trimmed(rest, from, to) && trim(rest) == rest.subrange(from, to);
        assert forall|i: int| 0 <= i < from implies white_space(#[trigger] s[i]) by {
            assert(rest[i] == s[i]);
        }
        assert forall|i: int| to <= i < s.len() implies white_space(#[trigger] s[i]) by {
            if i < rest.len() {
                assert(rest[i] == s[i]);
            }
        }
        assert(is_trimmed(s, from, to));
        assert(s.subrange(from, to) =~= rest.subrange(from, to));
    } else {
        assert(is_trimmed(s, 0, s.len() as int));
        assert(s.subrange(0, s.len() as int) =~= s);
    }
}

/// Whether everything outside of `from..to` is white space.
pub open spec fn is_trimmed(s: Seq<char>, from: int, to: int) -> bool {
    &&& 0 <= from <= to <= s.len()
    &&& forall|i: int| 0 <= i < from ==> white_space(#[trigger] s[i])
    &&& forall|i: int| to <= i < s.len() ==> white_space(#[trigger] s[i])
}

/// The value of a lower-case hexadecimal digit.
pub open spec fn hex_digit_value(c: char) -> nat {
    if '0' <= c <= '9' {
        (c as nat - '0' as nat) as nat
    } else {
        (c as nat - 'a' as nat + 10) as nat
    }
}

/// The value of a row of lower-case hexadecimal digits.
pub open spec fn hex_value(s: Seq<char>) -> nat
    decreases s.len(),
{
    if s.len() == 0 {
        0
    } else {
        hex_value(s.drop_last()) * 16 + hex_digit_value(s.last())
    }
}

proof fn lemma_zeros_add_nothing(zeros: nat, digits: Seq<char>)
    ensures
        hex_value(Seq::new(zeros, |i: int| '0') + digits) == hex_value(digits),
    decreases digits.len(), zeros,
{
    let front = Seq::new(zeros, |i: int| '0');
    let s = front + digits;
    if digits.len() > 0 {
        lemma_zeros_add_nothing(zeros, digits.drop_last());
        assert(s.drop_last() =~= front + digits.drop_last());
    } else if zeros > 0 {
        lemma_zeros_add_nothing((zeros - 1) as nat, digits);
        assert(s.drop_last() =~= Seq::new((zeros - 1) as nat, |i: int| '0') + digits);
        assert(s.last() == '0');
    } else {
        assert(s =~= digits);
    }
}

proof fn lemma_hex_reads_back(n: nat)
    ensures
        numeral(n, 16).len() > 0,
        hex_value(numeral(n, 16)) == n,
    decreases n,
{
    let s = numeral(n, 16);
    if n >= 16 {
        lemma_hex_reads_back(n / 16);
        assert(s.drop_last() =~= numeral(n / 16, 16));
    } else {
        assert(s.drop_last() =~= Seq::<char>::empty());
    }
    assert(hex_value(s) == hex_value(s.drop_last()) * 16 + hex_digit_value(s.last()));
}

/// A number in hexadecimal has the width that is asked for where it is short enough, and
/// reads back as the number.
pub proof fn law_hex_reads_back(n: nat, width: nat)
    ensures
        padded_hex(n, width).len() >= width,
        hex_value(padded_hex(n, width)) == n,
        padded_hex(n, width).len() > width ==> padded_hex(n, width)[0] != '0' || width == 0,
{
    lemma_hex_reads_back(n);
    let digits = numeral(n, 16);
    if digits.len() < width {
        lemma_zeros_add_nothing((width - digits.len()) as nat, digits);
    } else {
        lemma_no_leading_zero(n);
    }
}

proof fn lemma_no_leading_zero(n: nat)
    ensures
        numeral(n, 16).len() > 1 ==> numeral(n, 16)[0] != '0',
        n > 0 ==> numeral(n, 16)[0] != '0',
    decreases n,
{
    if n >= 16 {
        lemma_no_leading_zero(n / 16);
        lemma_hex_reads_back(n / 16);
    }
}

/// A decimal numeral has no leading zero, and grows by one digit where the number grows
/// tenfold.
pub proof fn law_decimals_have_no_leading_zero(n: nat)
    ensures
        n < 10 ==> decimal(n).len() == 1,
        n > 0 ==> decimal(n)[0] != '0',
        n >= 10 ==> decimal(n).len() == decimal(n / 10).len() + 1,
        n >= 10 ==> decimal(n).drop_last() == decimal(n / 10),
    decreases n,
{
    if n >= 10 {
        law_decimals_have_no_leading_zero(n / 10);
        assert(decimal(n).drop_last() =~= decimal(n / 10));
        assert(decimal(n)[0] == decimal(n / 10)[0]);
    }
}

/// An index is read from digits alone, which may follow one plus sign; each digit counts ten
/// times less than the one before it. Nothing else is an index, and neither is a number that
/// does not fit.
pub proof fn law_indices_are_read_from_digits(s: Seq<char>, c: char, at: int)
    ensures
        parsed_index(Seq::empty()) is None,
        parsed_index(seq!['+']) is None,
        0 < at < s.len() && !('0' <= s[at] <= '9') ==> parsed_index(s) is None,
        s.len() > 0 && s[0] != '+' && !('0' <= s[0] <= '9') ==> parsed_index(s) is None,
        '0' <= c <= '9' ==> parsed_index(seq![c]) == Some((c as int - '0' as int) as usize),
        '0' <= c <= '9' && parsed_index(s) is Some && parsed_index(s)->0 * 10 + (c as int
            - '0' as int) <= usize::MAX ==> parsed_index(s.push(c)) == Some(
            (parsed_index(s)->0 * 10 + (c as int - '0' as int)) as usize,
        ),
        '0' <= c <= '9' && parsed_index(s) is Some && parsed_index(s)->0 * 10 + (c as int
            - '0' as int) > usize::MAX ==> parsed_index(s.push(c)) is None,
        s.len() > 0 && '0' <= s[0] <= '9' ==> parsed_index(seq!['+'] + s) == parsed_index(s),
{
    let digits = unsigned_part(s);
    assert(seq!['+'].drop_first() =~= Seq::<char>::empty());
    if 0 < at < s.len() && !is_digit(s[at]) {
        let place = if s[0] == '+' {
            at - 1
        } else {
            at
        };
        assert(digits[place] == s[at]);
    }
    if s.len() > 0 && s[0] != '+' && !is_digit(s[0]) {
        assert(digits[0] == s[0]);
    }
    if is_digit(c) {
        let one = seq![c];
        assert(unsigned_part(one) == one);
        assert(one.drop_last() =~= Seq::<char>::empty());
        assert(digits_value(one.drop_last()) == 0);
        assert(digits_value(one) == c as nat - '0' as nat);
        assert(forall|i: int| 0 <= i < one.len() ==> is_digit(#[trigger] one[i]));
        if parsed_index(s) is Some {
            let longer = s.push(c);
            assert(s.len() > 0);
            assert(unsigned_part(longer) =~= digits.push(c));
            assert(digits.push(c).drop_last() =~= digits);
            assert(digits_value(digits.push(c)) == digits_value(digits) * 10 + (c as nat
                - '0' as nat));
            assert forall|i: int| 0 <= i < digits.push(c).len() implies is_digit(
                #[trigger] digits.push(c)[i],
            ) by {
                if i < digits.len() {
                    assert(is_digit(digits[i]));
                }
            }
        }
    }
    if s.len() > 0 && is_digit(s[0]) {
        assert((seq!['+'] + s).drop_first() =~= s);
        assert(unsigned_part(s) == s);
    }
}

/// White space is what Unicode calls so: the controls from tab to carriage return, the space,
/// the next line, the no-break space, and the spaces and separators above them. No letter,
/// digit or mark of ASCII is white space.
pub proof fn law_white_space_is_what_unicode_calls_so(c: char)
    ensures
        '!' <= c <= '~' ==> !white_space(c),
        c == ' ' || c == '\t' || c == '\n' || c == '\r' ==> white_space(c),
        white_space(c) <==> (0x9 <= c as u32 <= 0xd || c as u32 == 0x20 || c as u32 == 0x85
            || c as u32 == 0xa0 || c as u32 == 0x1680 || 0x2000 <= c as u32 <= 0x200a || 0x2028
            <= c as u32 <= 0x2029 || c as u32 == 0x202f || c as u32 == 0x205f || c as u32
            == 0x3000),
{
}

/// A text is found wherever it stands, and only where it stands.
pub proof fn law_texts_are_found_where_they_stand(
    before: Seq<char>,
    part: Seq<char>,
    after: Seq<char>,
)
    ensures
        holds_text(before + part + after, part),
        part.len() > before.len() ==> !holds_text(before, part),
{
    let whole = before + part + after;
    let start = before.len() as int;
    assert(whole.subrange(start, start + part.len()) =~= part);
}

} // verus!
