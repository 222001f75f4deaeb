//! What the user reads: sizes, file names and device errors.
use crate::phrases::{Language, Phrase};
use crate::text;
use crate::text::{chars_of, decimal_of};
use vstd::prelude::*;

verus! {

/// `n / d` rounded to the nearest integer, to the even one when both are equally near.
pub open spec fn round_half_even(n: nat, d: nat) -> nat {
    let q = n / d;
    let r = n % d;
    if 2 * r < d || (2 * r == d && q % 2 == 0) {
        q
    } else {
        q + 1
    }
}

/// The least power-of-two multiple `u` of `from` with `n < u * 2^53`: the distance between
/// neighbouring double-precision numbers around `n`, for `from == 1`.
pub open spec fn double_spacing(n: nat, from: nat) -> nat
    decreases n - from,
{
    if from == 0 || n < from * 0x20_0000_0000_0000 {
        from
    } else {
        double_spacing(n, 2 * from)
    }
}

/// The double-precision number nearest to `n`.
pub open spec fn nearest_double(n: nat) -> nat {
    let spacing = double_spacing(n, 1);
    round_half_even(n, spacing) * spacing
}

/// The place of a size's unit among B, KB, MB, GB and TB: the largest that it reaches.
pub open spec fn unit_rank(bytes: nat) -> nat {
    if bytes < 0x400 {
        0
    } else if bytes < 0x10_0000 {
        1
    } else if bytes < 0x4000_0000 {
        2
    } else if bytes < 0x100_0000_0000 {
        3
    } else {
        4
    }
}

/// How many bytes a unit stands for.
pub open spec fn unit_scale(rank: nat) -> nat {
    if rank == 0 {
        1
    } else if rank == 1 {
        0x400
    } else if rank == 2 {
        0x10_0000
    } else if rank == 3 {
        0x4000_0000
    } else {
        0x100_0000_0000
    }
}

/// The name of a unit.
pub open spec fn unit_name(rank: nat) -> Seq<char> {
    if rank == 0 {
        "B"@
    } else if rank == 1 {
        "KB"@
    } else if rank == 2 {
        "MB"@
    } else if rank == 3 {
        "GB"@
    } else {
        "TB"@
    }
}

/// The number that a size is shown with in its unit, in tenths. Sizes from 2^53 on are
/// first taken to the nearest double-precision number.
pub open spec fn shown_tenths(bytes: nat) -> nat {
    if unit_rank(bytes) == 0 {
        10 * bytes
    } else {
        round_half_even(10 * nearest_double(bytes), unit_scale(unit_rank(bytes)))
    }
}

/// A number of tenths as text: whole for bytes, with one decimal place for other units.
pub open spec fn number_text(rank: nat, tenths: nat) -> Seq<char> {
    if rank == 0 {
        text::decimal(tenths / 10)
    } else {
        text::decimal(tenths / 10) + "."@ + text::decimal(tenths % 10)
    }
}

/// The text of a size: whole bytes below 1024, otherwise the size in the largest unit
/// up to TB that it reaches, to one decimal place.
pub open spec fn bytes_text(bytes: nat) -> Seq<char> {
    number_text(unit_rank(bytes), shown_tenths(bytes)) + " "@ + unit_name(unit_rank(bytes))
}

proof fn lemma_rounding_keeps_order(n: nat, m: nat, d: nat)
    requires
        n <= m,
        d > 0,
    ensures
        round_half_even(n, d) <= round_half_even(m, d),
        n / d <= round_half_even(n, d) <= n / d + 1,
{
    vstd::arithmetic::div_mod::lemma_div_is_ordered(n as int, m as int, d as int);
    vstd::arithmetic::div_mod::lemma_fundamental_div_mod(n as int, d as int);
    vstd::arithmetic::div_mod::lemma_fundamental_div_mod(m as int, d as int);
}

proof fn lemma_spacing(a: nat, b: nat, from: nat)
    requires
        a <= b,
        from > 0,
    ensures
        ({
            let low = double_spacing(a, from);
            let high = double_spacing(b, from);
            &&& low >= from
            &&& a < low * 0x20_0000_0000_0000
            &&& low == high || 2 * low <= high
            &&& high == from || (high % 2 == 0 && b >= (high / 2) * 0x20_0000_0000_0000)
        }),
    decreases b - from,
{
    if b >= from * 0x20_0000_0000_0000 {
        if a >= from * 0x20_0000_0000_0000 {
            lemma_spacing(a, b, 2 * from);
        } else {
            lemma_spacing(b, b, 2 * from);
        }
    }
}

proof fn lemma_nearest_double_keeps_order(a: nat, b: nat)
    requires
        a <= b,
    ensures
        nearest_double(a) <= nearest_double(b),
{
    let low = double_spacing(a, 1);
    let high = double_spacing(b, 1);
    let limit: nat = 0x20_0000_0000_0000;
    lemma_spacing(a, b, 1);
    if low == high {
        lemma_rounding_keeps_order(a, b, low);
        assert(round_half_even(a, low) * low <= round_half_even(b, low) * low) by (nonlinear_arith)
            requires
                round_half_even(a, low) <= round_half_even(b, low),
        ;
    } else {
        let half: nat = 0x10_0000_0000_0000;
        lemma_rounding_keeps_order(a, low * limit, low);
        lemma_rounding_keeps_order(b, b, high);
        vstd::arithmetic::div_mod::lemma_div_multiples_vanish(limit as int, low as int);
        vstd::arithmetic::div_mod::lemma_mod_multiples_basic(limit as int, low as int);
        assert(low * limit == limit * low) by (nonlinear_arith);
        assert(round_half_even(low * limit, low) == limit);
        assert(b >= high * half);
        assert(high * half == half * high) by (nonlinear_arith);
        vstd::arithmetic::div_mod::lemma_div_multiples_vanish(half as int, high as int);
        vstd::arithmetic::div_mod::lemma_div_is_ordered(
            (high * half) as int,
            b as int,
            high as int,
        );
        assert(round_half_even(b, high) >= half);
        assert(round_half_even(a, low) * low <= limit * low) by (nonlinear_arith)
            requires
                round_half_even(a, low) <= limit,
        ;
        assert(half * high <= round_half_even(b, high) * high) by (nonlinear_arith)
            requires
                round_half_even(b, high) >= half,
        ;
    }
}

/// A larger size is never shown in a smaller unit, nor with a smaller number in the same
/// unit.
pub proof fn law_larger_sizes_show_larger(a: nat, b: nat)
    requires
        a <= b,
    ensures
        unit_rank(a) <= unit_rank(b),
        unit_rank(a) == unit_rank(b) ==> shown_tenths(a) <= shown_tenths(b),
        bytes_text(a) == number_text(unit_rank(a), shown_tenths(a)) + " "@ + unit_name(
            unit_rank(a),
        ),
        bytes_text(b) == number_text(unit_rank(b), shown_tenths(b)) + " "@ + unit_name(
            unit_rank(b),
        ),
{
    if unit_rank(a) == unit_rank(b) && unit_rank(a) > 0 {
        lemma_nearest_double_keeps_order(a, b);
        lemma_rounding_keeps_order(
            10 * nearest_double(a),
            10 * nearest_double(b),
            unit_scale(unit_rank(a)),
        );
    }
}

fn rounded_half_even(n: u128, d: u128) -> (r: u128)
    requires
        0 < d <= 0x100_0000_0000,
        n <= 0x100_0000_0000_0000_0000_0000,
    ensures
        r == round_half_even(n as nat, d as nat),
{
    let q: u128 = n / d;
    let r: u128 = n % d;
    assert(q <= n) by (nonlinear_arith)
        requires
            q == n / d,
            d > 0,
    ;
    if 2 * r < d || (2 * r == d && q % 2 == 0) {
        q
    } else {
        q + 1
    }
}

fn nearest_double_of(n: u64) -> (r: u128)
    ensures
        r == nearest_double(n as nat),
        r <= 0x2_0000_0000_0000_0000,
{
    let mut spacing: u128 = 1;
    while n as u128 >= spacing * 0x20_0000_0000_0000
        invariant
            1 <= spacing < 0x1000,
            double_spacing(n as nat, spacing as nat) == double_spacing(n as nat, 1),
        decreases 0x1000 - spacing,
    {
        assert(spacing < 0x800);
        spacing = spacing * 2;
    }
    let units: u128 = rounded_half_even(n as u128, spacing);
    assert(units <= n / spacing as u64 + 1);
    assert(units * spacing <= n + spacing) by (nonlinear_arith)
        requires
            units <= n / spacing as u64 + 1,
            1 <= spacing < 0x1000,
    ;
    units * spacing
}

/// Formats a size for display: see [`bytes_text`].
pub fn format_bytes(bytes: u64) -> (r: String)
    ensures
        r@ == bytes_text(bytes as nat),
{
    let scale: u128;
    let unit: &str;
    if bytes < 0x400 {
        let mut r = decimal_of(bytes);
        r.append(" ");
        r.append("B");
        return r;
    } else if bytes < 0x10_0000 {
        scale = 0x400;
        unit = "KB";
    } else if bytes < 0x4000_0000 {
        scale = 0x10_0000;
        unit = "MB";
    } else if bytes < 0x100_0000_0000 {
        scale = 0x4000_0000;
        unit = "GB";
    } else {
        scale = 0x100_0000_0000;
        unit = "TB";
    }
    let value: u128 = nearest_double_of(bytes);
    let tenths: u128 = rounded_half_even(10 * value, scale);
    assert(tenths <= (10 * value) as nat / scale as nat + 1);
    assert(tenths <= u64::MAX) by (nonlinear_arith)
        requires
            tenths <= (10 * value) as nat / scale as nat + 1,
            scale >= 0x400,
            value <= 0x2_0000_0000_0000_0000,
    ;
    let mut r = decimal_of((tenths / 10) as u64);
    r.append(".");
    r.append(decimal_of((tenths % 10) as u64).as_str());
    r.append(" ");
    r.append(unit);
    r
}

/// The character that stands for `c` in a file name.
pub open spec fn safe_char(c: char) -> char {
    if c == '/' || c == '\\' || c == ':' || c == '\0' {
        '_'
    } else {
        c
    }
}

/// A name with every character that a path cannot carry replaced, and never empty.
pub open spec fn sanitized(name: Seq<char>) -> Seq<char> {
    if name.len() == 0 {
        "preview.bin"@
    } else {
        name.map_values(|c: char| safe_char(c))
    }
}

/// Makes a device's object name usable as a file name: see [`sanitized`].
pub fn sanitize_filename(name: &str) -> (r: String)
    ensures
        r@ == sanitized(name@),
{
    let chars = chars_of(name);
    if chars.len() == 0 {
        return "preview.bin".to_string();
    }
    let mut cleaned = String::new();
    for i in 0..chars.len()
        invariant
            chars@ == name@,
            cleaned@ == name@.take(i as int).map_values(|c: char| safe_char(c)),
    {
        let c: char = chars[i];
        if c == '/' || c == '\\' || c == ':' || c == '\0' {
            cleaned.push('_');
        } else {
            cleaned.push(c);
        }
        assert(cleaned@ =~= name@.take(i + 1).map_values(|c: char| safe_char(c)));
    }
    assert(name@.take(name@.len() as int) =~= name@);
    cleaned
}

/// A sanitized name is never empty and holds no path separator, no colon and no NUL.
pub proof fn law_sanitized_is_safe(name: Seq<char>)
    ensures
        sanitized(name).len() > 0,
        !sanitized(name).contains('/'),
        !sanitized(name).contains('\\'),
        !sanitized(name).contains(':'),
        !sanitized(name).contains('\0'),
{
    reveal_strlit("preview.bin");
}

/// Sanitizing a sanitized name changes nothing.
pub proof fn law_sanitized_is_stable(name: Seq<char>)
    ensures
        sanitized(sanitized(name)) == sanitized(name),
{
    law_sanitized_is_safe(name);
    let once = sanitized(name);
    assert forall|i: int| 0 <= i < once.len() implies safe_char(#[trigger] once[i]) == once[i] by {
        assert(once.contains(once[i]));
    }
    assert(sanitized(once) =~= once);
}

/// An error of the MTP library.
#[verifier::external_type_specification]
#[verifier::external_body]
pub struct ExMtpError(mtp_rs::Error);

/// Whether `text` is a text that the error displays as. An error of the system's is worded by
/// the system, so that there may be more than one.
pub open spec fn displays_as(err: &mtp_rs::Error, text: String) -> bool {
    vstd::string::to_string_from_display_ensures::<mtp_rs::Error>(err, text)
}

/// Whether `shown` is the one text that the error displays as.
pub open spec fn displays_only_as(err: &mtp_rs::Error, shown: String) -> bool {
    &&& displays_as(err, shown)
    &&& forall|other: String| #[trigger] displays_as(err, other) ==> other@ == shown@
}

/// Whether what the system says of an error blames another process for holding the device.
pub open spec fn blames_another_process(said: Seq<char>) -> bool {
    let lower = text::lowercase(said);
    ||| text::holds_text(lower, "exclusive access"@)
    ||| text::holds_text(lower, "device or resource busy"@)
    ||| text::holds_text(lower, "access"@) && text::holds_text(lower, "denied"@)
}

/// Whether an error's text calls for the advice on exclusive access: it is an error of USB or
/// of input and output, and what the system says of it blames another process.
pub open spec fn calls_for_advice(shown: Seq<char>) -> bool {
    ||| "USB error: "@.is_prefix_of(shown) && blames_another_process(
        shown.skip("USB error: "@.len() as int),
    )
    ||| "I/O error: "@.is_prefix_of(shown) && blames_another_process(
        shown.skip("I/O error: "@.len() as int),
    )
}

/// Specifies `mtp_rs::Error::is_exclusive_access`: where the error displays as one text only,
/// the answer is whether that text calls for the advice. Where there may be more than one,
/// nothing is claimed: the function words the error anew.
pub assume_specification[ mtp_rs::Error::is_exclusive_access ](err: &mtp_rs::Error) -> (r: bool)
    ensures
        forall|shown: String| #[trigger]
            displays_only_as(err, shown) ==> r == calls_for_advice(shown@),
;

/// The advice that follows an error when another process holds the device.
pub open spec fn exclusive_access_advice(language: Language) -> Seq<char> {
    Phrase::ExclusiveAccessAdvice.say(language)
}

/// An error's text as the user reads it.
pub open spec fn error_report(
    message: Seq<char>,
    exclusive: bool,
    language: Language,
) -> Seq<char> {
    if exclusive {
        message + exclusive_access_advice(language)
    } else {
        message
    }
}

/// Adds the advice on exclusive access to an error's text where it applies.
pub fn describe_error(message: String, exclusive: bool, language: Language) -> (r: String)
    ensures
        r@ == error_report(message@, exclusive, language),
{
    if exclusive {
        let mut r = message;
        r.append(Phrase::ExclusiveAccessAdvice.text(language));
        r
    } else {
        message
    }
}

/// The text in which a device error is shown: what the error displays, with the advice on
/// exclusive access where `mtp_rs` sees another process in it. Where the error displays as one
/// text only, that text decides.
pub fn format_mtp_error(err: &mtp_rs::Error, language: Language) -> (r: String)
    ensures
        exists|message: String, exclusive: bool|
            displays_as(err, message) && call_ensures(
                mtp_rs::Error::is_exclusive_access,
                (err,),
                exclusive,
            ) && r@ == #[trigger] error_report(message@, exclusive, language),
        forall|shown: String| #[trigger]
            displays_only_as(err, shown) ==> r@ == error_report(
                shown@,
                calls_for_advice(shown@),
                language,
            ),
{
    let message = err.to_string();
    assert(displays_as(err, message));
    let exclusive: bool = err.is_exclusive_access();
    describe_error(message, exclusive, language)
}

/// A name keeps every character that a path can carry, in its place; each of the others
/// becomes an underscore. A name of characters that a path can carry stays as it is.
pub proof fn law_sanitized_keeps_the_rest(name: Seq<char>)
    ensures
        name.len() == 0 ==> sanitized(name) == "preview.bin"@,
        name.len() > 0 ==> sanitized(name).len() == name.len(),
        forall|i: int|
            0 <= i < name.len() && (name[i] == '/' || name[i] == '\\' || name[i] == ':' || name[i]
                == '\0') ==> #[trigger] sanitized(name)[i] == '_',
        forall|i: int|
            0 <= i < name.len() && !(name[i] == '/' || name[i] == '\\' || name[i] == ':' || name[i]
                == '\0') ==> #[trigger] sanitized(name)[i] == name[i],
        name.len() > 0 && !name.contains('/') && !name.contains('\\') && !name.contains(':')
            && !name.contains('\0') ==> sanitized(name) == name,
{
    if name.len() > 0 && !name.contains('/') && !name.contains('\\') && !name.contains(':')
        && !name.contains('\0') {
        assert forall|i: int| 0 <= i < name.len() implies safe_char(#[trigger] name[i])
            == name[i] by {
            assert(name.contains(name[i]));
        }
        assert(sanitized(name) =~= name);
    }
}

proof fn lemma_rounding_is_near(n: nat, d: nat)
    requires
        d > 0,
    ensures
        2 * (round_half_even(n, d) * d - n) <= d,
        2 * (n - round_half_even(n, d) * d) <= d,
        2 * (round_half_even(n, d) * d - n) == d || 2 * (n - round_half_even(n, d) * d) == d
            ==> round_half_even(n, d) % 2 == 0,
{
    let q = n / d;
    let r = n % d;
    vstd::arithmetic::div_mod::lemma_fundamental_div_mod(n as int, d as int);
    assert(q * d == d * q && (q + 1) * d == q * d + d) by (nonlinear_arith);
}

proof fn lemma_doubles_are_near(n: nat)
    ensures
        n < 0x20_0000_0000_0000 ==> nearest_double(n) == n,
        n <= u64::MAX ==> nearest_double(n) - n <= 0x800 && n - nearest_double(n) <= 0x800,
{
    let spacing = double_spacing(n, 1);
    lemma_spacing(n, n, 1);
    lemma_rounding_is_near(n, spacing);
    if n < 0x20_0000_0000_0000 {
        assert(spacing == 1);
    }
}

/// A size is shown in bytes below 1024, and else in the largest of the units KB, MB, GB and
/// TB that it reaches, each 1024 times the one before. The number shown is the size in that
/// unit to the nearest tenth, and to the even one of two that are as near. (From 2^53 bytes
/// on it is near by a few thousand bytes more.)
pub proof fn law_sizes_are_shown_to_the_nearest_tenth(bytes: nat)
    requires
        bytes <= u64::MAX,
    ensures
        ({
            let tenths = shown_tenths(bytes);
            let number = text::decimal(tenths / 10) + "."@ + text::decimal(tenths % 10);
            let scale: nat = if bytes < 0x10_0000 {
                1024
            } else if bytes < 0x4000_0000 {
                1024 * 1024
            } else if bytes < 0x100_0000_0000 {
                1024 * 1024 * 1024
            } else {
                1024 * 1024 * 1024 * 1024
            };
            let off = tenths * scale - 10 * bytes;
            &&& bytes < 1024 ==> bytes_text(bytes) == text::decimal(bytes) + " "@ + "B"@
            &&& 1024 <= bytes < 0x10_0000 ==> bytes_text(bytes) == number + " "@ + "KB"@
            &&& 0x10_0000 <= bytes < 0x4000_0000 ==> bytes_text(bytes) == number + " "@ + "MB"@
            &&& 0x4000_0000 <= bytes < 0x100_0000_0000 ==> bytes_text(bytes) == number + " "@
                + "GB"@
            &&& 0x100_0000_0000 <= bytes ==> bytes_text(bytes) == number + " "@ + "TB"@
            &&& 1024 <= bytes < 0x20_0000_0000_0000 ==> 2 * off <= scale && -2 * off <= scale
            &&& 1024 <= bytes < 0x20_0000_0000_0000 && (2 * off == scale || -2 * off == scale)
                ==> tenths % 2 == 0
            &&& 1024 <= bytes ==> 2 * off <= scale + 0xa000 && -2 * off <= scale + 0xa000
        }),
{
    lemma_doubles_are_near(bytes);
    lemma_rounding_is_near(10 * nearest_double(bytes), unit_scale(unit_rank(bytes)));
}

/// What the user reads of an error begins with the error's own text. The advice follows it
/// where another process holds the device, with the command that frees it, and nothing
/// follows where none does.
pub proof fn law_reports_begin_with_the_error(message: Seq<char>, language: Language)
    ensures
        error_report(message, false, language) == message,
        message.is_prefix_of(error_report(message, true, language)),
        error_report(message, true, language).skip(message.len() as int)
            == Phrase::ExclusiveAccessAdvice.say(language),
        text::holds_text(error_report(message, true, language), "pkill -9 ptpcamerad"@),
{
    let advice = Phrase::ExclusiveAccessAdvice.say(language);
    let report = error_report(message, true, language);
    assert(message =~= report.subrange(0, message.len() as int));
    assert(report.skip(message.len() as int) =~= advice);
    reveal_strlit("pkill -9 ptpcamerad");
    reveal_strlit(
        "\n\nptpcamerad of macOS or Android File Transfer may hold the device. Quit such programs, and if need be run: pkill -9 ptpcamerad",
    );
    reveal_strlit(
        "\n\nmacOS 的 ptpcamerad 或 Android File Transfer 可能占用了设备。请退出相关程序，必要时临时运行: pkill -9 ptpcamerad",
    );
    let start = report.len() - 19;
    assert(report.subrange(start, start + 19) =~= "pkill -9 ptpcamerad"@);
}

/// Whether the advice on exclusive access is called for goes by what follows the kind of the
/// error in its text: it has to be an error of USB or of input and output, and what the system
/// says, in lower case, has to speak of exclusive access, of a busy device or resource, or of
/// access that is denied.
pub proof fn law_advice_is_for_held_devices(said: Seq<char>, shown: Seq<char>)
    ensures
        ({
            let lower = text::lowercase(said);
            let usb = "USB error: "@ + said;
            let io = "I/O error: "@ + said;
            let held = text::holds_text(lower, "exclusive access"@) || text::holds_text(
                lower,
                "device or resource busy"@,
            ) || (text::holds_text(lower, "access"@) && text::holds_text(lower, "denied"@));
            &&& calls_for_advice(usb) == held
            &&& calls_for_advice(io) == held
            &&& calls_for_advice(usb) == calls_for_advice(io)
        }),
        !"USB error: "@.is_prefix_of(shown) && !"I/O error: "@.is_prefix_of(shown)
            ==> !calls_for_advice(shown),
{
    reveal_strlit("USB error: ");
    reveal_strlit("I/O error: ");
    let usb = "USB error: "@ + said;
    let io = "I/O error: "@ + said;
    assert(usb.skip(11) =~= said);
    assert(io.skip(11) =~= said);
    assert("USB error: "@ =~= usb.subrange(0, 11));
    assert("I/O error: "@ =~= io.subrange(0, 11));
    assert(usb.subrange(0, 11)[0] == 'U');
    assert(io.subrange(0, 11)[0] == 'I');
}

} // verus!
