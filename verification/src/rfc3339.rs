use vstd::prelude::*;
use vstd::string::*;

verus! {

/// Whether `c` is an ASCII decimal digit.
pub open spec fn is_digit(c: char) -> bool {
    48 <= c as u32 && c as u32 <= 57
}

/// The decimal value of an ASCII digit.
pub open spec fn digit_val(c: char) -> int {
    c as int - 48
}

/// The value of the two-digit group at position `i`.
pub open spec fn num2(s: Seq<char>, i: int) -> int {
    digit_val(s[i]) * 10 + digit_val(s[i + 1])
}

/// The value of the four-digit group at position `i`.
pub open spec fn num4(s: Seq<char>, i: int) -> int {
    digit_val(s[i]) * 1000 + digit_val(s[i + 1]) * 100 + digit_val(s[i + 2]) * 10 + digit_val(
        s[i + 3],
    )
}

/// The Gregorian leap-year rule.
pub open spec fn is_leap_year(y: int) -> bool {
    y % 4 == 0 && (y % 100 != 0 || y % 400 == 0)
}

/// The number of days of month `m` in year `y`.
pub open spec fn days_in_month(y: int, m: int) -> int {
    if m == 2 {
        if is_leap_year(y) {
            29
        } else {
            28
        }
    } else if m == 4 || m == 6 || m == 9 || m == 11 {
        30
    } else {
        31
    }
}

/// A full date `YYYY-MM-DD` stands at the head of `s`, with a real month
/// and a day that exists in that month and year.
pub open spec fn date_ok(s: Seq<char>) -> bool {
    &&& is_digit(s[0]) && is_digit(s[1]) && is_digit(s[2]) && is_digit(s[3])
    &&& s[4] == '-'
    &&& is_digit(s[5]) && is_digit(s[6])
    &&& s[7] == '-'
    &&& is_digit(s[8]) && is_digit(s[9])
    &&& 1 <= num2(s, 5) <= 12
    &&& 1 <= num2(s, 8) <= days_in_month(num4(s, 0), num2(s, 5))
}

/// A time of day `HH:MM:SS` stands at position `i`; second 60 is admitted
/// for a leap second.
pub open spec fn time_ok(s: Seq<char>, i: int) -> bool {
    &&& is_digit(s[i]) && is_digit(s[i + 1])
    &&& s[i + 2] == ':'
    &&& is_digit(s[i + 3]) && is_digit(s[i + 4])
    &&& s[i + 5] == ':'
    &&& is_digit(s[i + 6]) && is_digit(s[i + 7])
    &&& num2(s, i) <= 23
    &&& num2(s, i + 3) <= 59
    &&& num2(s, i + 6) <= 60
}

/// A numeric offset `+HH:MM`/`-HH:MM`, or `Z`, fills `s` from `i` to its
/// end.
pub open spec fn offset_ok(s: Seq<char>, i: int) -> bool {
    if s.len() == i + 1 {
        s[i] == 'Z' || s[i] == 'z'
    } else {
        &&& s.len() == i + 6
        &&& (s[i] == '+' || s[i] == '-')
        &&& is_digit(s[i + 1]) && is_digit(s[i + 2])
        &&& s[i + 3] == ':'
        &&& is_digit(s[i + 4]) && is_digit(s[i + 5])
        &&& num2(s, i + 1) <= 23
        &&& num2(s, i + 4) <= 59
    }
}

/// The position of the first character at or after `i` that is not an
/// ASCII digit, or the end of `s`.
pub open spec fn digits_end(s: Seq<char>, i: int) -> int
    decreases s.len() - i,
{
    if i < 0 || i >= s.len() {
        i
    } else if is_digit(s[i]) {
        digits_end(s, i + 1)
    } else {
        i
    }
}

/// The shape of an RFC 3339 timestamp: date, `T`, time, an optional
/// fraction of at least one digit, and an offset, with nothing after it.
pub open spec fn is_rfc3339(s: Seq<char>) -> bool {
    &&& s.len() >= 20
    &&& date_ok(s)
    &&& (s[10] == 'T' || s[10] == 't')
    &&& time_ok(s, 11)
    &&& {
        let j = if s[19] == '.' {
            digits_end(s, 20)
        } else {
            19
        };
        &&& (s[19] == '.' ==> j > 20)
        &&& offset_ok(s, j)
    }
}

fn digit_at(s: &str, i: usize) -> (r: bool)
    requires
        i < s@.len(),
    ensures
        r == is_digit(s@[i as int]),
{
    let n = s.get_char(i) as u32;
    48 <= n && n <= 57
}

fn num2_at(s: &str, i: usize) -> (v: u32)
    requires
        s@.len() <= usize::MAX,
        i + 1 < s@.len(),
        is_digit(s@[i as int]),
        is_digit(s@[i as int + 1]),
    ensures
        v == num2(s@, i as int),
{
    let a = s.get_char(i) as u32 - 48;
    let b = s.get_char(i + 1) as u32 - 48;
    a * 10 + b
}

fn num4_at(s: &str, i: usize) -> (v: u32)
    requires
        s@.len() <= usize::MAX,
        i + 3 < s@.len(),
        is_digit(s@[i as int]),
        is_digit(s@[i as int + 1]),
        is_digit(s@[i as int + 2]),
        is_digit(s@[i as int + 3]),
    ensures
        v == num4(s@, i as int),
{
    let a = s.get_char(i) as u32 - 48;
    let b = s.get_char(i + 1) as u32 - 48;
    let c = s.get_char(i + 2) as u32 - 48;
    let d = s.get_char(i + 3) as u32 - 48;
    a * 1000 + b * 100 + c * 10 + d
}

fn days_in_month_of(y: u32, m: u32) -> (r: u32)
    ensures
        r == days_in_month(y as int, m as int),
{
    if m == 2 {
        if y % 4 == 0 && (y % 100 != 0 || y % 400 == 0) {
            29
        } else {
            28
        }
    } else if m == 4 || m == 6 || m == 9 || m == 11 {
        30
    } else {
        31
    }
}

fn offset_at(s: &str, n: usize, i: usize) -> (r: bool)
    requires
        i < n,
        n == s@.len(),
    ensures
        r == offset_ok(s@, i as int),
{
    if n - i == 1 {
        let c = s.get_char(i);
        c == 'Z' || c == 'z'
    } else if n - i == 6 {
        let c = s.get_char(i);
        if !(c == '+' || c == '-') {
            return false;
        }
        if !(digit_at(s, i + 1) && digit_at(s, i + 2)) {
            return false;
        }
        if s.get_char(i + 3) != ':' {
            return false;
        }
        if !(digit_at(s, i + 4) && digit_at(s, i + 5)) {
            return false;
        }
        num2_at(s, i + 1) <= 23 && num2_at(s, i + 4) <= 59
    } else {
        false
    }
}

/// Whether `s` is an RFC 3339 timestamp: `YYYY-MM-DDTHH:MM:SS`, an
/// optional `.`-led fraction, and a `Z` or `+HH:MM`/`-HH:MM` offset, with
/// a calendar-valid date and time of day.
pub fn check_rfc3339(s: &str) -> (r: bool)
    ensures
        r == is_rfc3339(s@),
{
    let n = s.unicode_len();
    if n < 20 {
        return false;
    }
    if !(digit_at(s, 0) && digit_at(s, 1) && digit_at(s, 2) && digit_at(s, 3)) {
        return false;
    }
    if s.get_char(4) != '-' {
        return false;
    }
    if !(digit_at(s, 5) && digit_at(s, 6)) {
        return false;
    }
    if s.get_char(7) != '-' {
        return false;
    }
    if !(digit_at(s, 8) && digit_at(s, 9)) {
        return false;
    }
    let month = num2_at(s, 5);
    if !(1 <= month && month <= 12) {
        return false;
    }
    let year = num4_at(s, 0);
    let day = num2_at(s, 8);
    if !(1 <= day && day <= days_in_month_of(year, month)) {
        return false;
    }
    let sep = s.get_char(10);
    if !(sep == 'T' || sep == 't') {
        return false;
    }
    if !(digit_at(s, 11) && digit_at(s, 12)) {
        return false;
    }
    if s.get_char(13) != ':' {
        return false;
    }
    if !(digit_at(s, 14) && digit_at(s, 15)) {
        return false;
    }
    if s.get_char(16) != ':' {
        return false;
    }
    if !(digit_at(s, 17) && digit_at(s, 18)) {
        return false;
    }
    if !(num2_at(s, 11) <= 23 && num2_at(s, 14) <= 59 && num2_at(s, 17) <= 60) {
        return false;
    }
    let mut j: usize = 19;
    if s.get_char(19) == '.' {
        j = 20;
        while j < n && digit_at(s, j)
            invariant
                20 <= j <= n,
                n == s@.len(),
                digits_end(s@, 20) == digits_end(s@, j as int),
            decreases n - j,
        {
            j += 1;
        }
        proof {
            assert(digits_end(s@, j as int) == j as int);
        }
        if j == 20 {
            return false;
        }
    }
    if j >= n {
        return false;
    }
    offset_at(s, n, j)
}

} // verus!
