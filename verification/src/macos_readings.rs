//! Reading the numbers that macOS commands print.
use vstd::prelude::*;

use crate::mac_availability::MemoryPressure;
use crate::scan;
use crate::text;

verus! {

/// Ten to the power of `n`.
pub open spec fn power_of_ten(n: nat) -> nat
    decreases n,
{
    if n == 0 {
        1
    } else {
        10 * power_of_ten((n - 1) as nat)
    }
}

/// An unsigned decimal number with at most six fractional digits, as numerator
/// and denominator that both fit in 128 bits.
pub open spec fn decimal_ratio(value: Seq<char>) -> Option<(nat, nat)> {
    let pieces = scan::split_on(value, '.');
    let whole = pieces[0];
    if pieces.len() > 2 || whole.len() == 0 || !text::all_digits(whole) || text::decimal_value(
        whole,
    ) > u128::MAX {
        None
    } else if pieces.len() < 2 {
        Some((text::decimal_value(whole), 1))
    } else {
        let fraction = pieces[1];
        let denominator = power_of_ten(fraction.len());
        let numerator = text::decimal_value(whole) * denominator + text::decimal_value(fraction);
        if 0 < fraction.len() <= 6 && text::all_digits(fraction) && numerator <= u128::MAX {
            Some((numerator, denominator))
        } else {
            None
        }
    }
}

proof fn lemma_six_digits(digits: Seq<char>)
    requires
        digits.len() <= 6,
        text::all_digits(digits),
    ensures
        text::decimal_value(digits) < power_of_ten(digits.len()),
        1 <= power_of_ten(digits.len()) <= 1_000_000,
    decreases digits.len(),
{
    reveal_with_fuel(power_of_ten, 7);
    if digits.len() > 0 {
        assert(text::is_decimal_digit(digits.last()));
        assert forall|i: int| 0 <= i < digits.len() - 1 implies text::is_decimal_digit(
            #[trigger] digits.drop_last()[i],
        ) by {
            assert(digits[i] == digits.drop_last()[i]);
        }
        lemma_six_digits(digits.drop_last());
    }
}

fn ten_to(n: usize) -> (value: u128)
    requires
        n <= 6,
    ensures
        value == power_of_ten(n as nat),
        value <= 1_000_000,
{
    proof {
        reveal_with_fuel(power_of_ten, 7);
    }
    if n == 0 {
        1
    } else if n == 1 {
        10
    } else if n == 2 {
        100
    } else if n == 3 {
        1_000
    } else if n == 4 {
        10_000
    } else if n == 5 {
        100_000
    } else {
        1_000_000
    }
}

/// Reads an unsigned decimal number as a ratio.
pub fn parse_decimal_ratio(value: &[char]) -> (ratio: Option<(u128, u128)>)
    ensures
        match ratio {
            Some(pair) => decimal_ratio(value@) == Some((pair.0 as nat, pair.1 as nat)) && 1
                <= pair.1 <= 1_000_000,
            None => decimal_ratio(value@) is None,
        },
{
    let pieces = scan::split(value, '.');
    assert(pieces@[0]@ == scan::split_on(value@, '.')[0]);
    if pieces.len() > 2 {
        return None;
    }
    let whole = match text::wide_digits_value(pieces[0].as_slice()) {
        Some(whole) => whole,
        None => {
            return None;
        },
    };
    if pieces.len() < 2 {
        return Some((whole, 1));
    }
    assert(pieces@[1]@ == scan::split_on(value@, '.')[1]);
    let length = pieces[1].len();
    if length > 6 {
        return None;
    }
    let fraction = match text::wide_digits_value(pieces[1].as_slice()) {
        Some(fraction) => fraction,
        None => {
            proof {
                if text::all_digits(pieces@[1]@) {
                    lemma_six_digits(pieces@[1]@);
                }
            }
            return None;
        },
    };
    let denominator = ten_to(length);
    proof {
        lemma_six_digits(pieces@[1]@);
    }
    let scaled = match whole.checked_mul(denominator) {
        Some(scaled) => scaled,
        None => {
            return None;
        },
    };
    match scaled.checked_add(fraction) {
        Some(numerator) => Some((numerator, denominator)),
        None => None,
    }
}

/// The bytes that one unit stands for.
pub open spec fn unit_bytes(suffix: char) -> Option<nat> {
    if suffix == 'B' || suffix == 'b' {
        Some(1)
    } else if suffix == 'K' || suffix == 'k' {
        Some(1024)
    } else if suffix == 'M' || suffix == 'm' {
        Some(1_048_576)
    } else if suffix == 'G' || suffix == 'g' {
        Some(1_073_741_824)
    } else if suffix == 'T' || suffix == 't' {
        Some(1_099_511_627_776)
    } else {
        None
    }
}

/// A quantity such as `1.5G` in bytes, rounded half up.
pub open spec fn rounded_bytes(value: Seq<char>) -> Option<u64> {
    if value.len() == 0 {
        None
    } else {
        match (unit_bytes(value.last()), decimal_ratio(value.drop_last())) {
            (Some(unit), Some(ratio)) => {
                let sum = ratio.0 * unit + ratio.1 / 2;
                if sum <= u128::MAX && sum / ratio.1 <= u64::MAX {
                    Some((sum / ratio.1) as u64)
                } else {
                    None
                }
            },
            _ => None,
        }
    }
}

fn unit_of(suffix: char) -> (unit: Option<u128>)
    ensures
        match unit {
            Some(bytes) => unit_bytes(suffix) == Some(bytes as nat),
            None => unit_bytes(suffix) is None,
        },
{
    if suffix == 'B' || suffix == 'b' {
        Some(1)
    } else if suffix == 'K' || suffix == 'k' {
        Some(1024)
    } else if suffix == 'M' || suffix == 'm' {
        Some(1_048_576)
    } else if suffix == 'G' || suffix == 'g' {
        Some(1_073_741_824)
    } else if suffix == 'T' || suffix == 't' {
        Some(1_099_511_627_776)
    } else {
        None
    }
}

/// Reads a quantity with a unit suffix.
pub fn rounded_bytes_of(value: &[char]) -> (bytes: Option<u64>)
    ensures
        bytes == rounded_bytes(value@),
{
    if value.len() == 0 {
        return None;
    }
    let numeric = vstd::slice::slice_subrange(value, 0, value.len() - 1);
    assert(numeric@ =~= value@.drop_last());
    let unit = match unit_of(value[value.len() - 1]) {
        Some(unit) => unit,
        None => {
            return None;
        },
    };
    let ratio = match parse_decimal_ratio(numeric) {
        Some(ratio) => ratio,
        None => {
            return None;
        },
    };
    let scaled = match ratio.0.checked_mul(unit) {
        Some(scaled) => scaled,
        None => {
            return None;
        },
    };
    match scaled.checked_add(ratio.1 / 2) {
        Some(sum) => {
            let rounded = sum / ratio.1;
            if rounded <= u64::MAX as u128 {
                Some(rounded as u64)
            } else {
                None
            }
        },
        None => None,
    }
}

/// Reads a quantity with a unit suffix.
pub fn parse_rounded_bytes(value: &str) -> (bytes: Option<u64>)
    ensures
        bytes == rounded_bytes(value@),
{
    let chars = text::chars_of(value);
    rounded_bytes_of(chars.as_slice())
}

/// A decimal number times `scale`, rounded down.
pub open spec fn decimal_scaled(value: Seq<char>, scale: nat) -> Option<u64> {
    match decimal_ratio(value) {
        Some(ratio) => if ratio.0 * scale <= u128::MAX && ratio.0 * scale / ratio.1 <= u64::MAX {
            Some((ratio.0 * scale / ratio.1) as u64)
        } else {
            None
        },
        None => None,
    }
}

/// Reads a decimal number times `scale`.
pub fn parse_decimal_scaled(value: &[char], scale: u64) -> (r: Option<u64>)
    ensures
        r == decimal_scaled(value@, scale as nat),
{
    match parse_decimal_ratio(value) {
        Some(ratio) => match ratio.0.checked_mul(scale as u128) {
            Some(product) => {
                let scaled = product / ratio.1;
                if scaled <= u64::MAX as u128 {
                    Some(scaled as u64)
                } else {
                    None
                }
            },
            None => None,
        },
        None => None,
    }
}

/// What follows the one occurrence of a marker.
pub open spec fn after_only(input: Seq<char>, marker: Seq<char>) -> Option<Seq<char>> {
    match scan::only_occurrence(input, marker) {
        Some(at) => Some(input.skip(at + marker.len())),
        None => None,
    }
}

/// The quantity that is printed once as `name = quantity`.
pub open spec fn named_quantity(input: Seq<char>, name: Seq<char>) -> Option<u64> {
    match after_only(input, name + " ="@) {
        Some(rest) => match scan::next_field(rest) {
            Some(field) => rounded_bytes(field.0),
            None => None,
        },
        None => None,
    }
}

/// Reads the quantity that is printed once as `name = quantity`.
pub fn parse_named_quantity(input: &[char], name: &str) -> (bytes: Option<u64>)
    ensures
        bytes == named_quantity(input@, name@),
{
    let marker = text::joined(name, " =");
    let length = text::chars_of(marker.as_str()).len();
    match scan::find_only(input, marker.as_str()) {
        Some(at) => {
            let end = input.len();
            assert(at + length <= end);
            let rest = vstd::slice::slice_subrange(input, at + length, end);
            assert(rest@ =~= input@.skip(at + marker@.len()));
            match scan::take_field(rest) {
                Some(field) => rounded_bytes_of(field.0),
                None => None,
            }
        },
        None => None,
    }
}

/// The longest run of decimal digits at the end of a text.
pub open spec fn trailing_digits(chars: Seq<char>) -> Seq<char>
    decreases chars.len(),
{
    if chars.len() > 0 && text::is_decimal_digit(chars.last()) {
        trailing_digits(chars.drop_last()).push(chars.last())
    } else {
        Seq::empty()
    }
}

/// The digits that a percent sign at `at` follows; empty where none stands
/// there.
pub open spec fn percent_digits(input: Seq<char>, at: int) -> Seq<char> {
    if 0 <= at < input.len() && input[at] == '%' {
        trailing_digits(input.take(at))
    } else {
        Seq::empty()
    }
}

/// Some percentage is printed, and every printed percentage is `percent`.
pub open spec fn is_only_percent(input: Seq<char>, percent: nat) -> bool {
    &&& percent <= 100
    &&& exists|at: int| #[trigger] percent_digits(input, at).len() > 0
    &&& forall|at: int| #[trigger]
        percent_digits(input, at).len() > 0 ==> text::decimal_value(percent_digits(input, at))
            == percent
}

/// The percentage that the text prints, if it prints one and no other.
pub open spec fn battery_percent(input: Seq<char>) -> Option<u8> {
    if exists|percent: u8| is_only_percent(input, percent as nat) {
        Some(choose|percent: u8| is_only_percent(input, percent as nat))
    } else {
        None
    }
}

proof fn lemma_trailing_digits(chars: Seq<char>)
    ensures
        text::all_digits(trailing_digits(chars)),
        trailing_digits(chars).len() <= chars.len(),
        trailing_digits(chars) == chars.skip(chars.len() - trailing_digits(chars).len()),
    decreases chars.len(),
{
    if chars.len() > 0 && text::is_decimal_digit(chars.last()) {
        lemma_trailing_digits(chars.drop_last());
        let run = trailing_digits(chars.drop_last());
        assert(run.push(chars.last()) =~= chars.skip(chars.len() - run.len() - 1));
    } else {
        assert(chars.skip(chars.len() as int) =~= Seq::empty());
    }
}

/// Where the run of digits that ends before `at` begins.
fn digits_start(input: &[char], at: usize) -> (start: usize)
    requires
        at <= input@.len(),
    ensures
        start <= at,
        trailing_digits(input@.take(at as int)) == input@.subrange(start as int, at as int),
{
    let mut start: usize = at;
    let ghost run = trailing_digits(input@.take(at as int));
    assert(run =~= trailing_digits(input@.take(start as int)) + input@.subrange(
        start as int,
        at as int,
    ));
    while start > 0 && ('0' <= input[start - 1] && input[start - 1] <= '9')
        invariant
            start <= at <= input@.len(),
            run == trailing_digits(input@.take(start as int)) + input@.subrange(
                start as int,
                at as int,
            ),
        decreases start,
    {
        let ghost here = input@.take(start as int);
        assert(here.drop_last() =~= input@.take(start - 1));
        assert(trailing_digits(here) == trailing_digits(here.drop_last()).push(here.last()));
        assert(trailing_digits(input@.take(start - 1)).push(input@[start - 1]) + input@.subrange(
            start as int,
            at as int,
        ) =~= trailing_digits(input@.take(start - 1)) + input@.subrange(start - 1, at as int));
        start -= 1;
    }
    assert(trailing_digits(input@.take(start as int)) =~= Seq::empty());
    assert(Seq::<char>::empty() + input@.subrange(start as int, at as int) =~= input@.subrange(
        start as int,
        at as int,
    ));
    start
}

/// Reads the percentage that the text prints, if it prints one and no other.
pub fn parse_unique_battery_percent(input: &[char]) -> (percent: Option<u8>)
    ensures
        percent == battery_percent(input@),
{
    let mut parsed: Option<u8> = None;
    let mut at: usize = 0;
    while at < input.len()
        invariant
            at <= input@.len(),
            match parsed {
                Some(value) => value <= 100 && (exists|k: int|
                    0 <= k < at && #[trigger] percent_digits(input@, k).len() > 0)
                    && forall|k: int|
                    0 <= k < at && #[trigger] percent_digits(input@, k).len() > 0
                        ==> text::decimal_value(percent_digits(input@, k)) == value,
                None => forall|k: int|
                    0 <= k < at ==> (#[trigger] percent_digits(input@, k)).len() == 0,
            },
        decreases input@.len() - at,
    {
        if input[at] == '%' {
            let start = digits_start(input, at);
            if start < at {
                let digits = vstd::slice::slice_subrange(input, start, at);
                assert(digits@ =~= input@.subrange(start as int, at as int));
                assert(percent_digits(input@, at as int) == digits@);
                proof {
                    lemma_trailing_digits(input@.take(at as int));
                }
                let value: u8 = match text::digits_value(digits) {
                    Some(value) => if value <= 100 {
                        value as u8
                    } else {
                        return None;
                    },
                    None => {
                        return None;
                    },
                };
                match parsed {
                    Some(existing) => {
                        if existing != value {
                            return None;
                        }
                    },
                    None => {
                        parsed = Some(value);
                    },
                }
            }
        }
        at += 1;
    }
    proof {
        assert forall|k: int| #[trigger] percent_digits(input@, k).len() > 0 implies 0 <= k
            < input@.len() by {}
        match parsed {
            Some(value) => {
                assert(is_only_percent(input@, value as nat));
                let other = choose|percent: u8| is_only_percent(input@, percent as nat);
                assert(is_only_percent(input@, other as nat));
            },
            None => {},
        }
    }
    parsed
}

/// The memory pressure level that the one nonblank line names.
pub open spec fn memory_pressure(input: Seq<char>) -> Option<MemoryPressure> {
    let lines = scan::nonblank_lines(input);
    if lines.len() != 1 {
        None
    } else if scan::trimmed(lines[0]) == "1"@ {
        Some(MemoryPressure::Normal)
    } else if scan::trimmed(lines[0]) == "2"@ {
        Some(MemoryPressure::Elevated)
    } else if scan::trimmed(lines[0]) == "4"@ {
        Some(MemoryPressure::Critical)
    } else {
        None
    }
}

/// Reads the memory pressure level.
pub fn parse_memory_pressure_output(input: &str) -> (level: Option<MemoryPressure>)
    ensures
        level == memory_pressure(input@),
{
    let chars = text::chars_of(input);
    let lines = scan::lines_of(chars.as_slice());
    if lines.len() != 1 {
        return None;
    }
    assert(lines@[0]@ == scan::nonblank_lines(input@)[0]);
    let line = scan::trim(lines[0].as_slice());
    if scan::is_text(line, "1") {
        Some(MemoryPressure::Normal)
    } else if scan::is_text(line, "2") {
        Some(MemoryPressure::Elevated)
    } else if scan::is_text(line, "4") {
        Some(MemoryPressure::Critical)
    } else {
        None
    }
}

/// An elapsed time printed as `minutes:seconds`, `hours:minutes:seconds`, or
/// either after `days-`, in seconds.
pub open spec fn elapsed_seconds(value: Seq<char>) -> Option<u64> {
    let dash = scan::first_position(value, '-');
    let dated = 0 <= dash < value.len();
    let days = if dated {
        text::parsed_number(value.take(dash), u64::MAX as nat)
    } else {
        Some(0nat)
    };
    let clock = scan::split_on(
        if dated {
            value.skip(dash + 1)
        } else {
            value
        },
        ':',
    );
    let timed = clock.len() == 3;
    let hours = if timed {
        text::parsed_number(clock[0], u64::MAX as nat)
    } else {
        Some(0nat)
    };
    let minutes = text::parsed_number(clock[clock.len() - 2], u64::MAX as nat);
    let seconds = text::parsed_number(clock[clock.len() - 1], u64::MAX as nat);
    if clock.len() != 2 && clock.len() != 3 {
        None
    } else {
        match (days, hours, minutes, seconds) {
            (Some(d), Some(h), Some(m), Some(s)) => {
                let total = d * 86_400 + h * 3_600 + m * 60 + s;
                if h < 24 && m < 60 && s < 60 && total <= u64::MAX {
                    Some(total as u64)
                } else {
                    None
                }
            },
            _ => None,
        }
    }
}

fn number(chars: &[char]) -> (value: Option<u64>)
    ensures
        match value {
            Some(v) => text::parsed_number(chars@, u64::MAX as nat) == Some(v as nat),
            None => text::parsed_number(chars@, u64::MAX as nat) is None,
        },
{
    text::parse_number(chars, u64::MAX)
}

/// Reads an elapsed time.
pub fn elapsed_of(value: &[char]) -> (seconds: Option<u64>)
    ensures
        seconds == elapsed_seconds(value@),
{
    let dash = scan::position_of(value, '-');
    let mut days: u64 = 0;
    let mut clock = value;
    if dash < value.len() {
        let head = vstd::slice::slice_subrange(value, 0, dash);
        assert(head@ =~= value@.take(dash as int));
        days = match number(head) {
            Some(days) => days,
            None => {
                return None;
            },
        };
        clock = vstd::slice::slice_subrange(value, dash + 1, value.len());
        assert(clock@ =~= value@.skip(dash + 1));
    }
    let parts = scan::split(clock, ':');
    let ghost pieces = scan::split_on(clock@, ':');
    assert(forall|i: int| 0 <= i < pieces.len() ==> parts@[i]@ == #[trigger] pieces[i]);
    let count = parts.len();
    if count != 2 && count != 3 {
        return None;
    }
    let hours: u64 = if count == 3 {
        match number(parts[0].as_slice()) {
            Some(hours) => hours,
            None => {
                return None;
            },
        }
    } else {
        0
    };
    let minutes: u64 = match number(parts[count - 2].as_slice()) {
        Some(minutes) => minutes,
        None => {
            return None;
        },
    };
    let seconds: u64 = match number(parts[count - 1].as_slice()) {
        Some(seconds) => seconds,
        None => {
            return None;
        },
    };
    if hours >= 24 || minutes >= 60 || seconds >= 60 {
        return None;
    }
    match days.checked_mul(86_400) {
        Some(whole) => whole.checked_add(hours * 3_600 + minutes * 60 + seconds),
        None => None,
    }
}

/// Reads an elapsed time.
pub fn parse_elapsed(value: &str) -> (seconds: Option<u64>)
    ensures
        seconds == elapsed_seconds(value@),
{
    let chars = text::chars_of(value);
    elapsed_of(chars.as_slice())
}

/// A decimal number is read as its exact ratio: a whole number over one, and
/// one with up to six decimals over the power of ten that they need.
pub proof fn law_decimals_are_read_exactly(whole: Seq<char>, fraction: Seq<char>)
    requires
        whole.len() > 0,
        text::all_digits(whole),
        text::all_digits(fraction),
        (text::decimal_value(whole) + 1) * power_of_ten(fraction.len()) <= u128::MAX,
        text::decimal_value(fraction) < power_of_ten(fraction.len()),
    ensures
        decimal_ratio(whole) == Some((text::decimal_value(whole), 1nat)),
        decimal_ratio(whole + seq!['.'] + fraction) == (if 1 <= fraction.len() <= 6 {
            Some(
                (
                    text::decimal_value(whole) * power_of_ten(fraction.len())
                        + text::decimal_value(fraction),
                    power_of_ten(fraction.len()),
                ),
            )
        } else {
            None
        }),
{
    let value = text::decimal_value(whole);
    let ten = power_of_ten(fraction.len());
    lemma_power_of_ten(fraction.len());
    assert(value <= (value + 1) * ten && value * ten + ten == (value + 1) * ten)
        by (nonlinear_arith)
        requires
            ten >= 1,
            value >= 0,
    ;
    assert(!whole.contains('.')) by {
        lemma_digits_hold_no(whole, '.');
    }
    assert(!fraction.contains('.')) by {
        lemma_digits_hold_no(fraction, '.');
    }
    let one = seq![whole];
    scan::law_joining_is_undone_by_splitting(one, '.');
    assert(scan::joined(one, '.') == whole);
    let two = seq![whole, fraction];
    scan::law_joining_is_undone_by_splitting(two, '.');
    assert(two.skip(1) =~= seq![fraction]);
    reveal_with_fuel(scan::joined, 2);
    assert(scan::joined(two, '.') =~= whole + seq!['.'] + fraction);
}

proof fn lemma_digits_hold_no(digits: Seq<char>, c: char)
    requires
        text::all_digits(digits),
        !('0' <= c <= '9'),
    ensures
        !digits.contains(c),
{
    if digits.contains(c) {
        let i = choose|i: int| 0 <= i < digits.len() && digits[i] == c;
        assert(text::is_decimal_digit(digits[i]));
    }
}

proof fn lemma_power_of_ten(n: nat)
    ensures
        power_of_ten(n) >= 1,
    decreases n,
{
    if n > 0 {
        lemma_power_of_ten((n - 1) as nat);
    }
}

/// The units are powers of 1024, in either case, and there are no others.
pub proof fn law_units_are_powers_of_1024(suffix: char)
    ensures
        unit_bytes('B') == Some(1nat),
        unit_bytes('K') == Some(1024nat),
        unit_bytes('M') == Some(1024nat * 1024),
        unit_bytes('G') == Some(1024nat * 1024 * 1024),
        unit_bytes('T') == Some(1024nat * 1024 * 1024 * 1024),
        unit_bytes(suffix) == unit_bytes(scan::lower_char(suffix)),
        unit_bytes(suffix) is Some ==> {
            let c = scan::lower_char(suffix);
            c == 'b' || c == 'k' || c == 'm' || c == 'g' || c == 't'
        },
{
}

/// A quantity is the nearest number of bytes to the number that is written
/// times its unit.
pub proof fn law_quantities_are_rounded_to_the_nearest_byte(value: Seq<char>)
    requires
        rounded_bytes(value) is Some,
    ensures
        value.len() > 0,
        unit_bytes(value.last()) is Some,
        decimal_ratio(value.drop_last()) is Some,
        ({
            let ratio = decimal_ratio(value.drop_last())->0;
            let exact = ratio.0 * unit_bytes(value.last())->0;
            let rounded = rounded_bytes(value)->0 * ratio.1;
            -ratio.1 <= 2 * (rounded - exact) <= ratio.1
        }),
{
    let ratio = decimal_ratio(value.drop_last())->0;
    let exact = ratio.0 * unit_bytes(value.last())->0;
    let d = ratio.1;
    lemma_ratio_denominator(value.drop_last());
    let sum = exact + d / 2;
    let q = sum / d;
    assert(q * d <= sum && sum < q * d + d) by (nonlinear_arith)
        requires
            d >= 1,
            q == sum / d,
            sum >= 0,
    ;
    assert(rounded_bytes(value)->0 == q);
}

proof fn lemma_ratio_denominator(value: Seq<char>)
    requires
        decimal_ratio(value) is Some,
    ensures
        (decimal_ratio(value)->0).1 >= 1,
{
    let pieces = scan::split_on(value, '.');
    if pieces.len() >= 2 {
        lemma_power_of_ten(pieces[1].len());
    }
}

/// A scaled number is rounded down.
pub proof fn law_scaled_numbers_are_rounded_down(value: Seq<char>, scale: nat)
    requires
        decimal_scaled(value, scale) is Some,
    ensures
        decimal_ratio(value) is Some,
        ({
            let ratio = decimal_ratio(value)->0;
            let scaled = decimal_scaled(value, scale)->0;
            scaled * ratio.1 <= ratio.0 * scale < (scaled + 1) * ratio.1
        }),
{
    let ratio = decimal_ratio(value)->0;
    let d = ratio.1;
    lemma_ratio_denominator(value);
    let x = ratio.0 * scale;
    let q = x / d;
    assert(q * d <= x && x < (q + 1) * d) by (nonlinear_arith)
        requires
            d >= 1,
            q == x / d,
            x >= 0,
    ;
}

/// A number is scaled or rounded whenever the result is a count that fits.
pub proof fn law_fitting_numbers_are_scaled(value: Seq<char>, suffix: char, scale: nat)
    requires
        decimal_ratio(value) is Some,
        unit_bytes(suffix) is Some,
        (decimal_ratio(value)->0).0 * scale < 0x1_0000_0000_0000_0000,
        (decimal_ratio(value)->0).0 * unit_bytes(suffix)->0 + (decimal_ratio(value)->0).1
            < 0x1_0000_0000_0000_0000,
    ensures
        decimal_scaled(value, scale) is Some,
        rounded_bytes(value.push(suffix)) is Some,
{
    let ratio = decimal_ratio(value)->0;
    lemma_ratio_denominator(value);
    let d = ratio.1;
    let x = ratio.0 * scale;
    let sum = ratio.0 * unit_bytes(suffix)->0 + d / 2;
    assert(x / d <= x) by (nonlinear_arith)
        requires
            d >= 1,
            x >= 0,
    ;
    assert(sum / d <= sum) by (nonlinear_arith)
        requires
            d >= 1,
            sum >= 0,
    ;
    assert(value.push(suffix).drop_last() =~= value);
}

/// An elapsed time is read as it is spelled, from minutes and seconds up to
/// days, and only with hours, minutes and seconds in their ranges.
pub proof fn law_elapsed_times_are_read(days: nat, hours: nat, minutes: nat, seconds: nat)
    requires
        days * 86_400 + hours * 3_600 + minutes * 60 + seconds <= u64::MAX,
        days <= u64::MAX,
        hours <= u64::MAX,
        minutes <= u64::MAX,
        seconds <= u64::MAX,
    ensures
        ({
            let short = text::decimal(minutes) + seq![':'] + text::decimal(seconds);
            let long = text::decimal(hours) + seq![':'] + short;
            let dated = text::decimal(days) + seq!['-'] + long;
            &&& elapsed_seconds(short) == (if minutes < 60 && seconds < 60 {
                Some((minutes * 60 + seconds) as u64)
            } else {
                None
            })
            &&& elapsed_seconds(long) == (if hours < 24 && minutes < 60 && seconds < 60 {
                Some((hours * 3_600 + minutes * 60 + seconds) as u64)
            } else {
                None
            })
            &&& elapsed_seconds(dated) == (if hours < 24 && minutes < 60 && seconds < 60 {
                Some((days * 86_400 + hours * 3_600 + minutes * 60 + seconds) as u64)
            } else {
                None
            })
        }),
{
    let d = text::decimal(days);
    let h = text::decimal(hours);
    let m = text::decimal(minutes);
    let s = text::decimal(seconds);
    lemma_spelled_number(days);
    lemma_spelled_number(hours);
    lemma_spelled_number(minutes);
    lemma_spelled_number(seconds);
    let short = m + seq![':'] + s;
    let long = h + seq![':'] + short;
    let dated = d + seq!['-'] + long;
    let two = seq![m, s];
    let three = seq![h, m, s];
    reveal_with_fuel(scan::joined, 3);
    assert(two.skip(1) =~= seq![s]);
    assert(three.skip(1) =~= two);
    assert(scan::joined(two, ':') =~= short);
    assert(scan::joined(three, ':') =~= long);
    scan::law_joining_is_undone_by_splitting(two, ':');
    scan::law_joining_is_undone_by_splitting(three, ':');
    lemma_holds_no_dash(two);
    lemma_holds_no_dash(three);
    assert forall|k: int| 0 <= k < d.len() implies dated[k] != '-' by {
        assert(d.contains(d[k]));
        assert(dated[k] == d[k]);
    }
    scan::lemma_first_position(short, '-', short.len() as int);
    scan::lemma_first_position(long, '-', long.len() as int);
    scan::lemma_first_position(dated, '-', d.len() as int);
    assert(dated.take(d.len() as int) =~= d);
    assert(dated.skip(d.len() as int + 1) =~= long);
    text::law_numbers_are_read_from_their_digits(days, u64::MAX as nat, d);
    text::law_numbers_are_read_from_their_digits(hours, u64::MAX as nat, h);
    text::law_numbers_are_read_from_their_digits(minutes, u64::MAX as nat, m);
    text::law_numbers_are_read_from_their_digits(seconds, u64::MAX as nat, s);
}

proof fn lemma_spelled_number(n: nat)
    ensures
        !text::decimal(n).contains(':'),
        !text::decimal(n).contains('-'),
{
    text::lemma_decimal_spells(n);
    lemma_digits_hold_no(text::decimal(n), ':');
    lemma_digits_hold_no(text::decimal(n), '-');
}

proof fn lemma_holds_no_dash(pieces: Seq<Seq<char>>)
    requires
        forall|k: int| 0 <= k < pieces.len() ==> !(#[trigger] pieces[k]).contains('-'),
    ensures
        forall|i: int|
            0 <= i < scan::joined(pieces, ':').len() ==> #[trigger] scan::joined(pieces, ':')[i]
                != '-',
    decreases pieces.len(),
{
    let all = scan::joined(pieces, ':');
    if pieces.len() == 1 {
        assert forall|i: int| 0 <= i < all.len() implies #[trigger] all[i] != '-' by {
            assert(pieces[0].contains(all[i]));
        }
    } else if pieces.len() > 1 {
        let tail = pieces.skip(1);
        assert forall|k: int| 0 <= k < tail.len() implies !(#[trigger] tail[k]).contains('-') by {
            assert(tail[k] == pieces[k + 1]);
        }
        lemma_holds_no_dash(tail);
        let first = pieces[0];
        assert forall|i: int| 0 <= i < all.len() implies #[trigger] all[i] != '-' by {
            if i < first.len() {
                assert(first.contains(all[i]));
            } else if i > first.len() {
                assert(all[i] == scan::joined(tail, ':')[i - first.len() - 1]);
            }
        }
    }
}

/// The pressure level is told by the one number that is printed: one is normal,
/// two elevated and four critical, and no other level is known.
pub proof fn law_pressure_levels_are_one_two_and_four(level: nat)
    ensures
        ({
            let printed = text::decimal(level).push('\n');
            &&& memory_pressure(printed) == Some(MemoryPressure::Normal) <==> level == 1
            &&& memory_pressure(printed) == Some(MemoryPressure::Elevated) <==> level == 2
            &&& memory_pressure(printed) == Some(MemoryPressure::Critical) <==> level == 4
            &&& memory_pressure(printed) != Some(MemoryPressure::Unknown)
            &&& memory_pressure(text::decimal(level)) == memory_pressure(printed)
        }),
        memory_pressure(Seq::empty()) is None,
{
    let digits = text::decimal(level);
    let printed = digits.push('\n');
    text::lemma_decimal_spells(level);
    assert(!digits.contains('\n')) by {
        lemma_digits_hold_no(digits, '\n');
    }
    assert forall|i: int| 0 <= i < digits.len() implies !scan::is_white_space(
        #[trigger] digits[i],
    ) by {
        assert(text::is_decimal_digit(digits[i]));
    }
    let none = Seq::<char>::empty();
    assert(none + digits + none =~= digits);
    scan::law_trimming_takes_the_blank_ends(none, digits, none);
    scan::law_trimming_takes_the_blank_ends(none, none, none);
    assert(none + none + none =~= none);
    let one = seq![digits];
    let two = seq![digits, none];
    scan::law_joining_is_undone_by_splitting(one, '\n');
    scan::law_joining_is_undone_by_splitting(two, '\n');
    scan::law_joining_is_undone_by_splitting(seq![none], '\n');
    reveal_with_fuel(scan::joined, 2);
    assert(two.skip(1) =~= seq![none]);
    assert(scan::joined(two, '\n') =~= printed);
    scan::law_nonblank_lines_are_kept(Seq::empty(), digits);
    scan::law_nonblank_lines_are_kept(one, none);
    scan::law_nonblank_lines_are_kept(Seq::empty(), none);
    assert(Seq::<Seq<char>>::empty().push(digits) =~= one);
    assert(one.push(none) =~= two);
    assert(Seq::<Seq<char>>::empty().push(none) =~= seq![none]);
    assert(scan::filled_lines(one) =~= one);
    assert(scan::nonblank_lines(printed) == one);
    assert(scan::nonblank_lines(digits) == one);
    assert(scan::nonblank_lines(none).len() == 0);
    reveal_strlit("1");
    reveal_strlit("2");
    reveal_strlit("4");
    lemma_single_digit(1, '1');
    lemma_single_digit(2, '2');
    lemma_single_digit(4, '4');
    assert("1"@ =~= seq!['1'] && "2"@ =~= seq!['2'] && "4"@ =~= seq!['4']);
    if digits == "1"@ || digits == "2"@ || digits == "4"@ {
        text::lemma_decimal_spells(1);
        text::lemma_decimal_spells(2);
        text::lemma_decimal_spells(4);
    }
}

proof fn lemma_single_digit(n: nat, c: char)
    requires
        n < 10,
        c as int == '0' as int + n,
    ensures
        text::decimal(n) == seq![c],
{
    assert(text::digit_char(n as int) == c);
}

/// A battery is at most full, and the percentage that is told is the only one
/// that the text tells.
pub proof fn law_battery_percentages_are_unambiguous(input: Seq<char>, at: int)
    requires
        battery_percent(input) is Some,
    ensures
        battery_percent(input)->0 <= 100,
        0 <= at < input.len() && input[at] == '%' && trailing_digits(input.take(at)).len() > 0
            ==> text::decimal_value(trailing_digits(input.take(at))) == battery_percent(input)->0,
{
    let percent = choose|percent: u8| is_only_percent(input, percent as nat);
    assert(is_only_percent(input, percent as nat));
    assert(percent_digits(input, at).len() > 0 ==> text::decimal_value(percent_digits(input, at))
        == percent);
}

/// A quantity is read behind the only place where its name stands with an
/// equals sign, and not at all where there are two.
pub proof fn law_quantities_are_read_behind_their_name(
    before: Seq<char>,
    name: Seq<char>,
    value: Seq<char>,
    after: Seq<char>,
)
    requires
        scan::is_solid(value),
        after.len() > 0 ==> scan::is_white_space(after[0]),
    ensures
        ({
            let marker = name + " ="@;
            let input = before + marker + (seq![' '] + value + after);
            &&& (forall|at: int|
                scan::occurs_at(input, marker, at) ==> at == before.len()) ==> named_quantity(
                input,
                name,
            ) == rounded_bytes(value)
            &&& (exists|at: int|
                scan::occurs_at(input, marker, at) && at != before.len()) ==> named_quantity(
                input,
                name,
            ) is None
        }),
{
    let marker = name + " ="@;
    let tail = seq![' '] + value + after;
    let input = before + marker + tail;
    let here = before.len() as int;
    scan::law_contained_texts_stand_inside(before, marker, tail);
    scan::law_only_occurrences_are_unambiguous(input, marker, here, here);
    assert(input.skip(here + marker.len()) =~= tail);
    scan::law_fields_stand_between_blanks(seq![' '], value, after);
    if exists|at: int| scan::occurs_at(input, marker, at) && at != before.len() {
        let other = choose|at: int| scan::occurs_at(input, marker, at) && at != before.len();
        scan::law_only_occurrences_are_unambiguous(input, marker, here, other);
    }
}

/// The one percentage in a text is read, if there can be so much of it.
pub proof fn law_percentages_are_read(before: Seq<char>, percent: nat, after: Seq<char>)
    requires
        !before.contains('%'),
        !after.contains('%'),
        before.len() > 0 ==> !('0' <= before.last() <= '9'),
    ensures
        battery_percent(before + text::decimal(percent) + seq!['%'] + after) == (if percent
            <= 100 {
            Some(percent as u8)
        } else {
            None
        }),
{
    let digits = text::decimal(percent);
    let input = before + digits + seq!['%'] + after;
    let at = (before.len() + digits.len()) as int;
    text::lemma_decimal_spells(percent);
    lemma_digits_hold_no(digits, '%');
    assert(input[at] == '%');
    assert(input.take(at) =~= before + digits);
    lemma_digits_trail(before, digits);
    assert(percent_digits(input, at) == digits);
    assert forall|other: int| #[trigger] percent_digits(input, other).len() > 0 implies other
        == at by {
        assert(input[other] == '%');
        if other < before.len() {
            assert(before.contains(input[other]));
        } else if other < at {
            assert(digits.contains(input[other]));
        } else if other > at {
            assert(input[other] == after[other - at - 1]);
            assert(after.contains(input[other]));
        }
    }
    if percent <= 100 {
        assert(is_only_percent(input, percent as u8 as nat));
    }
}

proof fn lemma_digits_trail(before: Seq<char>, digits: Seq<char>)
    requires
        before.len() > 0 ==> !('0' <= before.last() <= '9'),
        text::all_digits(digits),
    ensures
        trailing_digits(before + digits) == digits,
    decreases digits.len(),
{
    let all = before + digits;
    if digits.len() > 0 {
        assert(text::is_decimal_digit(digits[digits.len() - 1]));
        assert(all.drop_last() =~= before + digits.drop_last());
        assert(text::all_digits(digits.drop_last())) by {
            assert forall|i: int| 0 <= i < digits.drop_last().len() implies text::is_decimal_digit(
                #[trigger] digits.drop_last()[i],
            ) by {
                assert(text::is_decimal_digit(digits[i]));
            }
        }
        lemma_digits_trail(before, digits.drop_last());
        assert(digits.drop_last().push(digits.last()) =~= digits);
    } else {
        assert(all =~= before);
        assert(digits =~= Seq::empty());
    }
}

} // verus!
