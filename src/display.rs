use vstd::prelude::*;

verus! {

pub open spec fn is_leap(y: int) -> bool {
    (y % 4 == 0 && y % 100 != 0) || y % 400 == 0
}

pub open spec fn month_len(y: int, m: int) -> int {
    if m == 2 {
        if is_leap(y) {
            29
        } else {
            28
        }
    } else if m == 4 || m == 6 || m == 9 || m == 11 {
        30
    } else {
        31
    }
}

/// Leap years from year 1 up to and including `y`.
pub open spec fn leaps_through(y: int) -> int {
    y / 4 - y / 100 + y / 400
}

/// Days from 1970-01-01 to the first day of year `y`.
pub open spec fn days_before_year(y: int) -> int {
    365 * (y - 1970) + leaps_through(y - 1) - leaps_through(1969)
}

/// Days from the first day of year `y` to the first day of month `m`.
pub open spec fn days_before_month(y: int, m: int) -> int
    decreases m,
{
    if m <= 1 {
        0
    } else {
        days_before_month(y, m - 1) + month_len(y, m - 1)
    }
}

/// `(y, m, d)` is a date of the Gregorian calendar from 1970 on, and lies
/// `days` days after 1970-01-01.
pub open spec fn is_date_of(days: int, y: int, m: int, d: int) -> bool {
    &&& y >= 1970
    &&& 1 <= m <= 12
    &&& 1 <= d <= month_len(y, m)
    &&& days == days_before_year(y) + days_before_month(y, m) + d - 1
}

proof fn lemma_year_step(y: int)
    requires
        y >= 1970,
    ensures
        days_before_year(y + 1) == days_before_year(y) + if is_leap(y) {
            366int
        } else {
            365int
        },
{
    assert(y / 4 - (y - 1) / 4 == if y % 4 == 0 { 1int } else { 0int });
    assert(y / 100 - (y - 1) / 100 == if y % 100 == 0 { 1int } else { 0int });
    assert(y / 400 - (y - 1) / 400 == if y % 400 == 0 { 1int } else { 0int });
}

proof fn lemma_eras(q: int)
    requires
        q >= 0,
    ensures
        days_before_year(1970 + 400 * q) == 146097 * q,
{
    assert((1969 + 400 * q) / 4 == 492 + 100 * q);
    assert((1969 + 400 * q) / 100 == 19 + 4 * q);
    assert((1969 + 400 * q) / 400 == 4 + q);
}

proof fn lemma_year_len(y: int)
    ensures
        days_before_month(y, 13) == if is_leap(y) {
            366int
        } else {
            365int
        },
{
    reveal_with_fuel(days_before_month, 13);
}

fn leap_year(y: u64) -> (r: bool)
    ensures
        r == is_leap(y as int),
{
    y % 4 == 0 && y % 100 != 0 || y % 400 == 0
}

fn days_in_year(y: u64) -> (r: u64)
    ensures
        r == if is_leap(y as int) {
            366int
        } else {
            365int
        },
{
    if leap_year(y) {
        366
    } else {
        365
    }
}

/// The calendar date `days` days after 1970-01-01, as year, month (1 to 12)
/// and day of the month.
pub fn days_to_ymd(days: u64) -> (r: (u64, u64, u64))
    ensures
        is_date_of(days as int, r.0 as int, r.1 as int, r.2 as int),
{
    let q = days / 146097;
    let mut rem: u64 = days % 146097;
    let mut y: u64 = 1970 + 400 * q;
    proof {
        lemma_eras(q as int);
    }
    while rem >= days_in_year(y)
        invariant
            y >= 1970,
            y <= 1970 + 400 * q + 400,
            q <= u64::MAX / 146097,
            days as int == days_before_year(y as int) + rem,
            rem as int + days_before_year(y as int) - days_before_year(1970 + 400 * q) < 146097,
        decreases rem,
    {
        proof {
            lemma_year_step(y as int);
        }
        rem = rem - days_in_year(y);
        y = y + 1;
    }
    let mut m: u64 = 1;
    proof {
        lemma_year_len(y as int);
    }
    loop
        invariant
            1 <= m <= 12,
            y >= 1970,
            rem as int + days_before_month(y as int, m as int) < days_before_month(y as int, 13),
            days as int == days_before_year(y as int) + days_before_month(y as int, m as int) + rem,
        decreases 12 - m,
    {
        let len: u64 = if m == 2 {
            if leap_year(y) {
                29
            } else {
                28
            }
        } else if m == 4 || m == 6 || m == 9 || m == 11 {
            30
        } else {
            31
        };
        assert(len as int == month_len(y as int, m as int));
        if rem < len {
            return (y, m, rem + 1);
        }
        rem = rem - len;
        assert(days_before_month(y as int, m + 1) == days_before_month(y as int, m as int) + len);
        if m == 12 {
            assert(false);
        }
        m = m + 1;
    }
}

pub open spec fn digit_char(d: int) -> char {
    if d == 0 {
        '0'
    } else if d == 1 {
        '1'
    } else if d == 2 {
        '2'
    } else if d == 3 {
        '3'
    } else if d == 4 {
        '4'
    } else if d == 5 {
        '5'
    } else if d == 6 {
        '6'
    } else if d == 7 {
        '7'
    } else if d == 8 {
        '8'
    } else {
        '9'
    }
}

/// The decimal digits of `n`, without leading zeros.
pub open spec fn decimal_text(n: nat) -> Seq<char>
    decreases n,
{
    if n < 10 {
        seq![digit_char(n as int)]
    } else {
        decimal_text(n / 10) + seq![digit_char((n % 10) as int)]
    }
}

/// At least two digits: a number under ten gets a leading zero.
pub open spec fn two_digit_text(n: nat) -> Seq<char> {
    if n < 10 {
        "0"@ + decimal_text(n)
    } else {
        decimal_text(n)
    }
}

pub open spec fn month_abbrev(m: int) -> Seq<char> {
    if m == 1 {
        "Jan"@
    } else if m == 2 {
        "Feb"@
    } else if m == 3 {
        "Mar"@
    } else if m == 4 {
        "Apr"@
    } else if m == 5 {
        "May"@
    } else if m == 6 {
        "Jun"@
    } else if m == 7 {
        "Jul"@
    } else if m == 8 {
        "Aug"@
    } else if m == 9 {
        "Sep"@
    } else if m == 10 {
        "Oct"@
    } else if m == 11 {
        "Nov"@
    } else {
        "Dec"@
    }
}

/// A date and time of day as `Mon D YYYY HH:MM`.
pub open spec fn date_time_text(y: nat, m: int, d: nat, secs_in_day: nat) -> Seq<char> {
    month_abbrev(m) + " "@ + decimal_text(d) + " "@ + decimal_text(y) + " "@ + two_digit_text(
        secs_in_day / 3600,
    ) + ":"@ + two_digit_text((secs_in_day % 3600) / 60)
}

/// How long ago `ts` was at `now`, both in seconds since 1970-01-01, where
/// that is under a week; `None` where it is longer ago.
pub open spec fn relative_text(ts: nat, now: nat) -> Option<Seq<char>> {
    if ts == 0 {
        Some("unknown"@)
    } else if ts > now {
        Some("just now"@)
    } else {
        let diff = (now - ts) as nat;
        if diff < 60 {
            Some(decimal_text(diff) + "s ago"@)
        } else if diff < 3600 {
            Some(decimal_text(diff / 60) + "m ago"@)
        } else if diff < 86400 {
            Some(decimal_text(diff / 3600) + "h ago"@)
        } else if diff < 604800 {
            Some(decimal_text(diff / 86400) + "d ago"@)
        } else {
            None
        }
    }
}

fn digit(d: u64) -> (r: &'static str)
    requires
        d < 10,
    ensures
        r@ == seq![digit_char(d as int)],
{
    proof {
        reveal_strlit("0");
        reveal_strlit("1");
        reveal_strlit("2");
        reveal_strlit("3");
        reveal_strlit("4");
        reveal_strlit("5");
        reveal_strlit("6");
        reveal_strlit("7");
        reveal_strlit("8");
        reveal_strlit("9");
    }
    let r = if d == 0 {
        "0"
    } else if d == 1 {
        "1"
    } else if d == 2 {
        "2"
    } else if d == 3 {
        "3"
    } else if d == 4 {
        "4"
    } else if d == 5 {
        "5"
    } else if d == 6 {
        "6"
    } else if d == 7 {
        "7"
    } else if d == 8 {
        "8"
    } else {
        "9"
    };
    assert(r@ =~= seq![digit_char(d as int)]);
    r
}

pub fn decimal(n: u64) -> (r: String)
    ensures
        r@ == decimal_text(n as nat),
    decreases n,
{
    if n < 10 {
        String::from_str(digit(n))
    } else {
        let mut r = decimal(n / 10);
        r.append(digit(n % 10));
        r
    }
}

fn two_digits(n: u64) -> (r: String)
    ensures
        r@ == two_digit_text(n as nat),
{
    if n < 10 {
        let mut r = String::from_str("0");
        r.append(decimal(n).as_str());
        r
    } else {
        decimal(n)
    }
}

fn month_name(m: u64) -> (r: &'static str)
    ensures
        r@ == month_abbrev(m as int),
{
    if m == 1 {
        "Jan"
    } else if m == 2 {
        "Feb"
    } else if m == 3 {
        "Mar"
    } else if m == 4 {
        "Apr"
    } else if m == 5 {
        "May"
    } else if m == 6 {
        "Jun"
    } else if m == 7 {
        "Jul"
    } else if m == 8 {
        "Aug"
    } else if m == 9 {
        "Sep"
    } else if m == 10 {
        "Oct"
    } else if m == 11 {
        "Nov"
    } else {
        "Dec"
    }
}

/// When `unix_ts` was, seen from `now`: `unknown` for a zero stamp, `just
/// now` for one in the future, seconds, minutes, hours or days ago within a
/// week, and else its date and time of day.
pub fn format_relative_time(unix_ts: u64, now: u64) -> (r: String)
    ensures
        relative_text(unix_ts as nat, now as nat) matches Some(t) ==> r@ == t,
        relative_text(unix_ts as nat, now as nat) is None ==> exists|y: int, m: int, d: int|
            #[trigger] is_date_of((unix_ts / 86400) as int, y, m, d) && r@ == date_time_text(
                y as nat,
                m,
                d as nat,
                (unix_ts % 86400) as nat,
            ),
{
    if unix_ts == 0 {
        return String::from_str("unknown");
    }
    if unix_ts > now {
        return String::from_str("just now");
    }
    let diff = now - unix_ts;
    if diff < 60 {
        let mut r = decimal(diff);
        r.append("s ago");
        return r;
    }
    if diff < 3600 {
        let mut r = decimal(diff / 60);
        r.append("m ago");
        return r;
    }
    if diff < 86400 {
        let mut r = decimal(diff / 3600);
        r.append("h ago");
        return r;
    }
    if diff < 604800 {
        let mut r = decimal(diff / 86400);
        r.append("d ago");
        return r;
    }
    let (year, month, day) = days_to_ymd(unix_ts / 86400);
    let secs_in_day = unix_ts % 86400;
    let mut r = String::from_str(month_name(month));
    r.append(" ");
    r.append(decimal(day).as_str());
    r.append(" ");
    r.append(decimal(year).as_str());
    r.append(" ");
    r.append(two_digits(secs_in_day / 3600).as_str());
    r.append(":");
    r.append(two_digits((secs_in_day % 3600) / 60).as_str());
    assert(r@ == date_time_text(year as nat, month as int, day as nat, secs_in_day as nat));
    r
}

/// `path` with the home directory at its start written as `~`.
pub open spec fn shortened(path: Seq<char>, home: Option<Seq<char>>) -> Seq<char> {
    match home {
        Some(h) => if h.is_prefix_of(path) {
            "~"@ + path.skip(h.len() as int)
        } else {
            path
        },
        None => path,
    }
}

fn starts_with(s: &str, prefix: &str) -> (r: bool)
    ensures
        r == prefix@.is_prefix_of(s@),
{
    let n = prefix.unicode_len();
    if n > s.unicode_len() {
        return false;
    }
    let mut i: usize = 0;
    while i < n
        invariant
            n == prefix@.len() <= s@.len(),
            i <= n,
            forall|j: int| 0 <= j < i ==> prefix@[j] == s@[j],
        decreases n - i,
    {
        if prefix.get_char(i) != s.get_char(i) {
            return false;
        }
        i = i + 1;
    }
    assert(prefix@ =~= s@.take(n as int));
    true
}

/// Writes a path under the home directory `home` (where one is known) with
/// `~` in place of the home directory.
pub fn shorten_path(path: &str, home: Option<String>) -> (r: String)
    ensures
        r@ == shortened(
            path@,
            match home {
                Some(h) => Some(h@),
                None => None,
            },
        ),
{
    match home {
        Some(h) => {
            if starts_with(path, h.as_str()) {
                let rest = path.substring_char(h.as_str().unicode_len(), path.unicode_len());
                let mut r = String::from_str("~");
                r.append(rest);
                r
            } else {
                String::from_str(path)
            }
        },
        None => String::from_str(path),
    }
}

} // verus!
