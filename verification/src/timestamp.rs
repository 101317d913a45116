//! The time of day on a day of the calendar, and the one layout in which the
//! shell prints it: `Mon Jun 28 13:22:05 2021`.

use crate::calendar::{days_in_month, month_length, weekday, weekday_of};
use crate::error::Error;
use crate::text::{
    blank_free, chars_of, digit_char, digit_of, digit_value, is_digit, lemma_digits,
    lemma_words_leading_space, lemma_words_single, lemma_words_word_then_space, matches_at,
    split_words, word_views, words,
};
use vstd::string::StringExecFns;
use vstd::prelude::*;

verus! {

/// A time of day on a day of the calendar, in UTC.
pub struct CivilTime {
    pub year: int,
    pub month: int,
    pub day: int,
    pub hour: int,
    pub minute: int,
    pub second: int,
}

impl CivilTime {
    /// Whether the day exists in a year from 0 to 9999 and the time on a clock of 24 hours.
    pub open spec fn is_valid(self) -> bool {
        &&& 0 <= self.year <= 9999
        &&& 1 <= self.month <= 12
        &&& 1 <= self.day <= month_length(self.year, self.month)
        &&& 0 <= self.hour < 24
        &&& 0 <= self.minute < 60
        &&& 0 <= self.second < 60
    }

    /// The day of the week, from 0 for Monday to 6 for Sunday.
    pub open spec fn weekday(self) -> int {
        weekday(self.year, self.month, self.day)
    }
}

/// The three letters that stand for a day of the week.
pub open spec fn weekday_name(weekday: int) -> Seq<char> {
    if weekday == 0 {
        seq!['M', 'o', 'n']
    } else if weekday == 1 {
        seq!['T', 'u', 'e']
    } else if weekday == 2 {
        seq!['W', 'e', 'd']
    } else if weekday == 3 {
        seq!['T', 'h', 'u']
    } else if weekday == 4 {
        seq!['F', 'r', 'i']
    } else if weekday == 5 {
        seq!['S', 'a', 't']
    } else {
        seq!['S', 'u', 'n']
    }
}

/// The three letters that stand for a month.
pub open spec fn month_name(month: int) -> Seq<char> {
    if month == 1 {
        seq!['J', 'a', 'n']
    } else if month == 2 {
        seq!['F', 'e', 'b']
    } else if month == 3 {
        seq!['M', 'a', 'r']
    } else if month == 4 {
        seq!['A', 'p', 'r']
    } else if month == 5 {
        seq!['M', 'a', 'y']
    } else if month == 6 {
        seq!['J', 'u', 'n']
    } else if month == 7 {
        seq!['J', 'u', 'l']
    } else if month == 8 {
        seq!['A', 'u', 'g']
    } else if month == 9 {
        seq!['S', 'e', 'p']
    } else if month == 10 {
        seq!['O', 'c', 't']
    } else if month == 11 {
        seq!['N', 'o', 'v']
    } else {
        seq!['D', 'e', 'c']
    }
}

/// A number below 100 in two digits.
pub open spec fn two_digits(n: int) -> Seq<char> {
    seq![digit_char(n / 10), digit_char(n % 10)]
}

/// The day of the month as it is written: in one digit below 10, else in two.
pub open spec fn day_text(day: int) -> Seq<char> {
    if day < 10 {
        seq![digit_char(day)]
    } else {
        two_digits(day)
    }
}

/// The time of day as it is written: `13:22:05`.
pub open spec fn clock_text(hour: int, minute: int, second: int) -> Seq<char> {
    seq![
        digit_char(hour / 10),
        digit_char(hour % 10),
        ':',
        digit_char(minute / 10),
        digit_char(minute % 10),
        ':',
        digit_char(second / 10),
        digit_char(second % 10),
    ]
}

/// The year in four digits.
pub open spec fn year_text(year: int) -> Seq<char> {
    seq![
        digit_char(year / 1000),
        digit_char((year / 100) % 10),
        digit_char((year / 10) % 10),
        digit_char(year % 10),
    ]
}

/// The five words in which a time is written: day of the week, month, day, time, year.
pub open spec fn fields(t: CivilTime) -> Seq<Seq<char>> {
    seq![
        weekday_name(t.weekday()),
        month_name(t.month),
        day_text(t.day),
        clock_text(t.hour, t.minute, t.second),
        year_text(t.year),
    ]
}

/// Whether a text is a time in the layout: its words are the five fields of a
/// time that exists. Blanks between the words, before and after do not count.
pub open spec fn matches_layout(s: Seq<char>, t: CivilTime) -> bool {
    t.is_valid() && words(s) == fields(t)
}

/// The day of the month in a column of two: a day below 10 has a space before it.
pub open spec fn day_column(day: int) -> Seq<char> {
    if day < 10 {
        seq![' '] + day_text(day)
    } else {
        day_text(day)
    }
}

/// A time as it is written, the fields one space apart: `Mon Jun 28 13:22:05 2021`.
pub open spec fn render(t: CivilTime) -> Seq<char> {
    weekday_name(t.weekday()) + (seq![' '] + (month_name(t.month) + (seq![' '] + (day_column(
        t.day,
    ) + (seq![' '] + (clock_text(t.hour, t.minute, t.second) + (seq![' '] + year_text(
        t.year,
    ))))))))
}

/// Two months with the same name are the same month.
pub proof fn lemma_month_name_injective(a: int, b: int)
    requires
        1 <= a <= 12,
        1 <= b <= 12,
        month_name(a) == month_name(b),
    ensures
        a == b,
{
    let x = month_name(a);
    let y = month_name(b);
    assert(x[0] == y[0] && x[1] == y[1] && x[2] == y[2]);
}

/// Two numbers below 100 that are written alike in two digits are the same number.
pub proof fn lemma_two_digits_injective(a: int, b: int)
    requires
        0 <= a < 100,
        0 <= b < 100,
        two_digits(a)[0] == two_digits(b)[0],
        two_digits(a)[1] == two_digits(b)[1],
    ensures
        a == b,
{
    lemma_digits('0', a / 10);
    lemma_digits('0', a % 10);
    lemma_digits('0', b / 10);
    lemma_digits('0', b % 10);
    assert(digit_value(digit_char(a / 10)) == digit_value(digit_char(b / 10)));
    assert(digit_value(digit_char(a % 10)) == digit_value(digit_char(b % 10)));
    assert(a / 10 == b / 10);
    assert(a % 10 == b % 10);
    assert(a == (a / 10) * 10 + a % 10);
    assert(b == (b / 10) * 10 + b % 10);
}

/// Two days of the month that are written alike are the same day.
pub proof fn lemma_day_text_injective(a: int, b: int)
    requires
        1 <= a <= 99,
        1 <= b <= 99,
        day_text(a) == day_text(b),
    ensures
        a == b,
{
    let x = day_text(a);
    let y = day_text(b);
    assert(x.len() == y.len());
    assert(x[0] == y[0]);
    if a >= 10 {
        assert(x.len() == 2);
        assert(b >= 10);
        assert(x[1] == y[1]);
        assert(x == two_digits(a) && y == two_digits(b));
        lemma_two_digits_injective(a, b);
    } else {
        assert(x.len() == 1);
        assert(b < 10);
        assert(x[0] == digit_char(a));
        assert(y[0] == digit_char(b));
        lemma_digits('0', a);
        lemma_digits('0', b);
        assert(digit_value(digit_char(a)) == digit_value(digit_char(b)));
    }
}

/// Two times of day that are written alike are the same time.
pub proof fn lemma_clock_text_injective(h1: int, m1: int, s1: int, h2: int, m2: int, s2: int)
    requires
        0 <= h1 < 100,
        0 <= m1 < 100,
        0 <= s1 < 100,
        0 <= h2 < 100,
        0 <= m2 < 100,
        0 <= s2 < 100,
        clock_text(h1, m1, s1) == clock_text(h2, m2, s2),
    ensures
        h1 == h2,
        m1 == m2,
        s1 == s2,
{
    let x = clock_text(h1, m1, s1);
    let y = clock_text(h2, m2, s2);
    assert(x[0] == y[0] && x[1] == y[1] && x[3] == y[3] && x[4] == y[4] && x[6] == y[6] && x[7]
        == y[7]);
    lemma_two_digits_injective(h1, h2);
    lemma_two_digits_injective(m1, m2);
    lemma_two_digits_injective(s1, s2);
}

/// A number below 10000 is the sum of its four digits, each times its power of ten.
pub proof fn lemma_decimal_split(y: int)
    requires
        0 <= y <= 9999,
    ensures
        0 <= y / 1000 <= 9,
        y == (y / 1000) * 1000 + ((y / 100) % 10) * 100 + ((y / 10) % 10) * 10 + y % 10,
{
    let tens = y / 10;
    let hundreds = y / 100;
    let thousands = y / 1000;
    assert(y == tens * 10 + y % 10);
    assert(tens / 10 == hundreds) by {
        assert(tens == (tens / 10) * 10 + tens % 10);
        assert(y == (tens / 10) * 100 + (tens % 10) * 10 + y % 10);
    }
    assert(tens == hundreds * 10 + tens % 10);
    assert(hundreds / 10 == thousands) by {
        assert(hundreds == (hundreds / 10) * 10 + hundreds % 10);
        assert(y == (hundreds / 10) * 1000 + (hundreds % 10) * 100 + (tens % 10) * 10 + y % 10);
    }
    assert(hundreds == thousands * 10 + hundreds % 10);
}

/// Two years that are written alike are the same year.
pub proof fn lemma_year_text_injective(a: int, b: int)
    requires
        0 <= a <= 9999,
        0 <= b <= 9999,
        year_text(a) == year_text(b),
    ensures
        a == b,
{
    let x = year_text(a);
    let y = year_text(b);
    assert(x[0] == y[0] && x[1] == y[1] && x[2] == y[2] && x[3] == y[3]);
    lemma_decimal_split(a);
    lemma_decimal_split(b);
    lemma_digits('0', a / 1000);
    lemma_digits('0', (a / 100) % 10);
    lemma_digits('0', (a / 10) % 10);
    lemma_digits('0', a % 10);
    lemma_digits('0', b / 1000);
    lemma_digits('0', (b / 100) % 10);
    lemma_digits('0', (b / 10) % 10);
    lemma_digits('0', b % 10);
    assert(a / 1000 == b / 1000);
    assert((a / 100) % 10 == (b / 100) % 10);
    assert((a / 10) % 10 == (b / 10) % 10);
    assert(a % 10 == b % 10);
}

/// A text is the layout of one time at most.
pub proof fn lemma_layout_names_one_time(s: Seq<char>, t: CivilTime, u: CivilTime)
    requires
        matches_layout(s, t),
        matches_layout(s, u),
    ensures
        t == u,
{
    let f = fields(t);
    let g = fields(u);
    assert(f[1] == g[1] && f[2] == g[2] && f[3] == g[3] && f[4] == g[4]);
    lemma_month_name_injective(t.month, u.month);
    lemma_day_text_injective(t.day, u.day);
    lemma_clock_text_injective(t.hour, t.minute, t.second, u.hour, u.minute, u.second);
    lemma_year_text_injective(t.year, u.year);
}

/// Whether two vectors hold the same characters.
fn same_chars(a: &Vec<char>, b: &Vec<char>) -> (r: bool)
    ensures
        r == (a@ == b@),
{
    if a.len() != b.len() {
        return false;
    }
    let r: bool = matches_at(a, b, 0);
    proof {
        assert(a@.subrange(0, a@.len() as int) == a@);
    }
    r
}

/// The month that three letters stand for.
fn month_from_name(word: &Vec<char>) -> (r: Option<u8>)
    ensures
        match r {
            Some(m) => 1 <= m <= 12 && month_name(m as int) == word@,
            None => forall|m: int| 1 <= m <= 12 ==> month_name(m) != word@,
        },
{
    if word.len() != 3 {
        return None;
    }
    let a: char = word[0];
    let b: char = word[1];
    let c: char = word[2];
    let m: u8 = if a == 'J' && b == 'a' && c == 'n' {
        1
    } else if a == 'F' && b == 'e' && c == 'b' {
        2
    } else if a == 'M' && b == 'a' && c == 'r' {
        3
    } else if a == 'A' && b == 'p' && c == 'r' {
        4
    } else if a == 'M' && b == 'a' && c == 'y' {
        5
    } else if a == 'J' && b == 'u' && c == 'n' {
        6
    } else if a == 'J' && b == 'u' && c == 'l' {
        7
    } else if a == 'A' && b == 'u' && c == 'g' {
        8
    } else if a == 'S' && b == 'e' && c == 'p' {
        9
    } else if a == 'O' && b == 'c' && c == 't' {
        10
    } else if a == 'N' && b == 'o' && c == 'v' {
        11
    } else if a == 'D' && b == 'e' && c == 'c' {
        12
    } else {
        0
    };
    if m == 0 {
        proof {
            assert forall|k: int| 1 <= k <= 12 implies month_name(k) != word@ by {
                let x = month_name(k);
                if x == word@ {
                    assert(x[0] == a && x[1] == b && x[2] == c);
                }
            }
        }
        None
    } else {
        proof {
            assert(month_name(m as int) =~= word@);
        }
        Some(m)
    }
}

/// The day of the month that one or two digits stand for, the first of them not 0.
fn day_from_word(word: &Vec<char>) -> (r: Option<u8>)
    ensures
        match r {
            Some(d) => 1 <= d <= 99 && day_text(d as int) == word@,
            None => forall|d: int| 1 <= d <= 99 ==> day_text(d) != word@,
        },
{
    proof {
        assert forall|d: int| 1 <= d <= 99 implies {
            let x = #[trigger] day_text(d);
            &&& (d < 10 ==> x.len() == 1 && is_digit(x[0]) && digit_value(x[0]) == d)
            &&& (d >= 10 ==> x.len() == 2 && is_digit(x[0]) && is_digit(x[1]) && digit_value(x[0])
                * 10 + digit_value(x[1]) == d)
        } by {
            lemma_digits('0', d);
            lemma_digits('0', d / 10);
            lemma_digits('0', d % 10);
        }
    }
    if word.len() == 1 {
        match digit_of(word[0]) {
            Some(d) => {
                if d >= 1 {
                    proof {
                        lemma_digits(word@[0], d as int);
                        assert(day_text(d as int) =~= word@);
                    }
                    Some(d)
                } else {
                    None
                }
            },
            None => None,
        }
    } else if word.len() == 2 {
        match (digit_of(word[0]), digit_of(word[1])) {
            (Some(tens), Some(ones)) => {
                if tens >= 1 {
                    let d: u8 = tens * 10 + ones;
                    proof {
                        lemma_digits(word@[0], tens as int);
                        lemma_digits(word@[1], ones as int);
                        assert(day_text(d as int) =~= word@);
                    }
                    Some(d)
                } else {
                    None
                }
            },
            _ => None,
        }
    } else {
        None
    }
}

/// The number below 100 that two digits stand for.
fn pair_from_digits(a: char, b: char) -> (r: Option<u8>)
    ensures
        match r {
            Some(n) => n < 100 && is_digit(a) && is_digit(b) && n == digit_value(a) * 10
                + digit_value(b) && two_digits(n as int) == seq![a, b],
            None => !(is_digit(a) && is_digit(b)),
        },
{
    match (digit_of(a), digit_of(b)) {
        (Some(tens), Some(ones)) => {
            let n: u8 = tens * 10 + ones;
            proof {
                lemma_digits(a, tens as int);
                lemma_digits(b, ones as int);
                assert(two_digits(n as int) =~= seq![a, b]);
            }
            Some(n)
        },
        _ => None,
    }
}

/// The time of day that `hh:mm:ss` stands for.
fn clock_from_word(word: &Vec<char>) -> (r: Option<(u8, u8, u8)>)
    ensures
        match r {
            Some((h, m, s)) => h < 24 && m < 60 && s < 60 && clock_text(
                h as int,
                m as int,
                s as int,
            ) == word@,
            None => forall|h: int, m: int, s: int|
                0 <= h < 24 && 0 <= m < 60 && 0 <= s < 60 ==> clock_text(h, m, s) != word@,
        },
{
    proof {
        assert forall|h: int, m: int, s: int|
            0 <= h < 24 && 0 <= m < 60 && 0 <= s < 60 implies {
            let x = #[trigger] clock_text(h, m, s);
            &&& x.len() == 8
            &&& x[2] == ':'
            &&& x[5] == ':'
            &&& is_digit(x[0]) && is_digit(x[1]) && digit_value(x[0]) * 10 + digit_value(x[1]) == h
            &&& is_digit(x[3]) && is_digit(x[4]) && digit_value(x[3]) * 10 + digit_value(x[4]) == m
            &&& is_digit(x[6]) && is_digit(x[7]) && digit_value(x[6]) * 10 + digit_value(x[7]) == s
        } by {
            lemma_digits('0', h / 10);
            lemma_digits('0', h % 10);
            lemma_digits('0', m / 10);
            lemma_digits('0', m % 10);
            lemma_digits('0', s / 10);
            lemma_digits('0', s % 10);
        }
    }
    if word.len() != 8 {
        return None;
    }
    if word[2] != ':' || word[5] != ':' {
        return None;
    }
    let hour = pair_from_digits(word[0], word[1]);
    let minute = pair_from_digits(word[3], word[4]);
    let second = pair_from_digits(word[6], word[7]);
    match (hour, minute, second) {
        (Some(h), Some(m), Some(s)) => {
            if h < 24 && m < 60 && s < 60 {
                proof {
                    let hs = two_digits(h as int);
                    let ms = two_digits(m as int);
                    let ss = two_digits(s as int);
                    assert(hs[0] == word@[0] && hs[1] == word@[1]);
                    assert(ms[0] == word@[3] && ms[1] == word@[4]);
                    assert(ss[0] == word@[6] && ss[1] == word@[7]);
                    assert(clock_text(h as int, m as int, s as int) =~= word@);
                }
                Some((h, m, s))
            } else {
                None
            }
        },
        _ => None,
    }
}

/// The four digits of a year below 10000 are its thousands, hundreds, tens and ones.
proof fn lemma_year_digits(a: int, b: int, c: int, d: int)
    requires
        0 <= a <= 9,
        0 <= b <= 9,
        0 <= c <= 9,
        0 <= d <= 9,
    ensures
        ({
            let y = a * 1000 + b * 100 + c * 10 + d;
            y / 1000 == a && (y / 100) % 10 == b && (y / 10) % 10 == c && y % 10 == d
        }),
{
    let y = a * 1000 + b * 100 + c * 10 + d;
    assert(y == (a * 100 + b * 10 + c) * 10 + d);
    assert(y / 10 == a * 100 + b * 10 + c && y % 10 == d);
    assert(y == (a * 10 + b) * 100 + (c * 10 + d));
    assert(y / 100 == a * 10 + b);
    assert(y / 1000 == a);
}

/// A year is written in four digits.
proof fn lemma_year_text_shape(y: int)
    requires
        0 <= y <= 9999,
    ensures
        ({
            let x = year_text(y);
            x.len() == 4 && is_digit(x[0]) && is_digit(x[1]) && is_digit(x[2]) && is_digit(x[3])
        }),
{
    lemma_digits('0', y / 1000);
    lemma_digits('0', (y / 100) % 10);
    lemma_digits('0', (y / 10) % 10);
    lemma_digits('0', y % 10);
}

/// The year that four digits stand for.
fn year_from_word(word: &Vec<char>) -> (r: Option<u16>)
    ensures
        match r {
            Some(y) => y <= 9999 && year_text(y as int) == word@,
            None => forall|y: int| 0 <= y <= 9999 ==> year_text(y) != word@,
        },
{
    proof {
        assert forall|y: int| 0 <= y <= 9999 implies {
            let x = #[trigger] year_text(y);
            x.len() == 4 && is_digit(x[0]) && is_digit(x[1]) && is_digit(x[2]) && is_digit(x[3])
        } by {
            lemma_year_text_shape(y);
        }
    }
    if word.len() != 4 {
        return None;
    }
    match (digit_of(word[0]), digit_of(word[1]), digit_of(word[2]), digit_of(word[3])) {
        (Some(a), Some(b), Some(c), Some(d)) => {
            let y: u16 = a as u16 * 1000 + b as u16 * 100 + c as u16 * 10 + d as u16;
            proof {
                lemma_year_digits(a as int, b as int, c as int, d as int);
                lemma_digits(word@[0], a as int);
                lemma_digits(word@[1], b as int);
                lemma_digits(word@[2], c as int);
                lemma_digits(word@[3], d as int);
                let x = year_text(y as int);
                assert(x[0] == word@[0] && x[1] == word@[1] && x[2] == word@[2] && x[3]
                    == word@[3]);
                assert(x =~= word@);
            }
            Some(y)
        },
        _ => None,
    }
}

/// A day of the week as a text of three letters.
fn weekday_str(weekday: u8) -> (r: &'static str)
    ensures
        r@ == weekday_name(weekday as int),
{
    proof {
        reveal_strlit("Mon");
        reveal_strlit("Tue");
        reveal_strlit("Wed");
        reveal_strlit("Thu");
        reveal_strlit("Fri");
        reveal_strlit("Sat");
        reveal_strlit("Sun");
    }
    let r: &'static str = if weekday == 0 {
        "Mon"
    } else if weekday == 1 {
        "Tue"
    } else if weekday == 2 {
        "Wed"
    } else if weekday == 3 {
        "Thu"
    } else if weekday == 4 {
        "Fri"
    } else if weekday == 5 {
        "Sat"
    } else {
        "Sun"
    };
    proof {
        assert(r@ =~= weekday_name(weekday as int));
    }
    r
}

/// A month as a text of three letters.
fn month_str(month: u8) -> (r: &'static str)
    ensures
        r@ == month_name(month as int),
{
    proof {
        reveal_strlit("Jan");
        reveal_strlit("Feb");
        reveal_strlit("Mar");
        reveal_strlit("Apr");
        reveal_strlit("May");
        reveal_strlit("Jun");
        reveal_strlit("Jul");
        reveal_strlit("Aug");
        reveal_strlit("Sep");
        reveal_strlit("Oct");
        reveal_strlit("Nov");
        reveal_strlit("Dec");
    }
    let r: &'static str = if month == 1 {
        "Jan"
    } else if month == 2 {
        "Feb"
    } else if month == 3 {
        "Mar"
    } else if month == 4 {
        "Apr"
    } else if month == 5 {
        "May"
    } else if month == 6 {
        "Jun"
    } else if month == 7 {
        "Jul"
    } else if month == 8 {
        "Aug"
    } else if month == 9 {
        "Sep"
    } else if month == 10 {
        "Oct"
    } else if month == 11 {
        "Nov"
    } else {
        "Dec"
    };
    proof {
        assert(r@ =~= month_name(month as int));
    }
    r
}

/// A number below ten as a text of one digit.
fn digit_str(digit: u8) -> (r: &'static str)
    ensures
        r@ == seq![digit_char(digit as int)],
{
    proof {
        reveal_strlit("0");
        reveal_strlit("1");
        reveal_strlit("2");
        reveal_strlit("3");
        reveal_strlit("4");
        reveal_strlit("5");
        reveal_strlit("6");
        reveal_strlit("7");
        reveal_strlit("8");
        reveal_strlit("9");
    }
    let r: &'static str = if digit == 0 {
        "0"
    } else if digit == 1 {
        "1"
    } else if digit == 2 {
        "2"
    } else if digit == 3 {
        "3"
    } else if digit == 4 {
        "4"
    } else if digit == 5 {
        "5"
    } else if digit == 6 {
        "6"
    } else if digit == 7 {
        "7"
    } else if digit == 8 {
        "8"
    } else {
        "9"
    };
    proof {
        assert(r@ =~= seq![digit_char(digit as int)]);
    }
    r
}

/// Adds a number below 100 to a text, in two digits.
fn append_two_digits(out: &mut String, n: u8)
    requires
        n < 100,
    ensures
        final(out)@ == old(out)@ + two_digits(n as int),
{
    out.append(digit_str(n / 10));
    out.append(digit_str(n % 10));
    proof {
        assert(out@ =~= old(out)@ + two_digits(n as int));
    }
}

/// Adds one space to a text.
fn append_space(out: &mut String)
    ensures
        final(out)@ == old(out)@ + seq![' '],
{
    proof {
        reveal_strlit(" ");
    }
    out.append(" ");
    proof {
        assert(" "@ =~= seq![' ']);
    }
}

/// The day as it is written: day of the week, month and day of the month.
pub open spec fn date_text(year: int, month: int, day: int) -> Seq<char> {
    weekday_name(weekday(year, month, day)) + seq![' '] + month_name(month) + seq![' ']
        + day_column(day)
}

/// Adds the day of the week, the month and the day of the month to a text.
fn append_date(out: &mut String, year: u16, month: u8, day: u8)
    requires
        1 <= month <= 12,
        1 <= day <= 31,
    ensures
        final(out)@ == old(out)@ + date_text(year as int, month as int, day as int),
{
    out.append(weekday_str(weekday_of(year, month, day)));
    append_space(out);
    out.append(month_str(month));
    append_space(out);
    let ghost before_day = out@;
    proof {
        assert(before_day =~= old(out)@ + (weekday_name(
            weekday(year as int, month as int, day as int),
        ) + seq![' '] + month_name(month as int) + seq![' ']));
    }
    if day < 10 {
        append_space(out);
        out.append(digit_str(day));
    } else {
        append_two_digits(out, day);
    }
    proof {
        assert(out@ =~= before_day + day_column(day as int));
        assert(out@ =~= old(out)@ + date_text(year as int, month as int, day as int));
    }
}

/// Adds a time of day to a text.
fn append_clock(out: &mut String, hour: u8, minute: u8, second: u8)
    requires
        hour < 24,
        minute < 60,
        second < 60,
    ensures
        final(out)@ == old(out)@ + clock_text(hour as int, minute as int, second as int),
{
    proof {
        reveal_strlit(":");
    }
    append_two_digits(out, hour);
    out.append(":");
    append_two_digits(out, minute);
    out.append(":");
    append_two_digits(out, second);
    proof {
        assert(":"@ =~= seq![':']);
        assert(out@ =~= old(out)@ + clock_text(hour as int, minute as int, second as int));
    }
}

/// Adds a year to a text, in four digits.
fn append_year(out: &mut String, year: u16)
    requires
        year <= 9999,
    ensures
        final(out)@ == old(out)@ + year_text(year as int),
{
    let century: u8 = (year / 100) as u8;
    let rest: u8 = (year % 100) as u8;
    append_two_digits(out, century);
    append_two_digits(out, rest);
    proof {
        let y = year as int;
        lemma_decimal_split(y);
        assert((y / 100) / 10 == y / 1000);
        assert((y % 100) / 10 == (y / 10) % 10);
        assert((y % 100) % 10 == y % 10);
        assert(two_digits(century as int) + two_digits(rest as int) =~= year_text(y));
        assert(out@ =~= old(out)@ + year_text(y));
    }
}

/// A time as it is written is its date, its time of day and its year, one space apart.
proof fn lemma_render_in_parts(t: CivilTime)
    ensures
        render(t) == date_text(t.year, t.month, t.day) + seq![' '] + clock_text(
            t.hour,
            t.minute,
            t.second,
        ) + seq![' '] + year_text(t.year),
{
    assert(render(t) =~= date_text(t.year, t.month, t.day) + seq![' '] + clock_text(
        t.hour,
        t.minute,
        t.second,
    ) + seq![' '] + year_text(t.year));
}

/// A time of day on a day of the calendar, in UTC: a day that exists, in a
/// year from 0 to 9999, and a time on a clock of 24 hours.
#[derive(Clone, Copy, Debug, PartialEq, Eq, Structural)]
pub struct Timestamp {
    year: u16,
    month: u8,
    day: u8,
    hour: u8,
    minute: u8,
    second: u8,
}

impl View for Timestamp {
    type V = CivilTime;

    closed spec fn view(&self) -> CivilTime {
        CivilTime {
            year: self.year as int,
            month: self.month as int,
            day: self.day as int,
            hour: self.hour as int,
            minute: self.minute as int,
            second: self.second as int,
        }
    }
}

impl Timestamp {
    #[verifier::type_invariant]
    spec fn well_formed(self) -> bool {
        self@.is_valid()
    }

    /// The time with the given fields, where there is one.
    pub fn new(year: u16, month: u8, day: u8, hour: u8, minute: u8, second: u8) -> (r: Option<
        Timestamp,
    >)
        ensures
            ({
                let t = CivilTime {
                    year: year as int,
                    month: month as int,
                    day: day as int,
                    hour: hour as int,
                    minute: minute as int,
                    second: second as int,
                };
                match r {
                    Some(made) => t.is_valid() && made@ == t,
                    None => !t.is_valid(),
                }
            }),
    {
        if year <= 9999 && 1 <= month && month <= 12 && 1 <= day && day <= days_in_month(
            year,
            month,
        ) && hour < 24 && minute < 60 && second < 60 {
            Some(Timestamp { year, month, day, hour, minute, second })
        } else {
            None
        }
    }

    pub fn year(&self) -> (r: u16)
        ensures
            r == self@.year,
            self@.is_valid(),
    {
        proof {
            use_type_invariant(self);
        }
        self.year
    }

    pub fn month(&self) -> (r: u8)
        ensures
            r == self@.month,
            self@.is_valid(),
    {
        proof {
            use_type_invariant(self);
        }
        self.month
    }

    pub fn day(&self) -> (r: u8)
        ensures
            r == self@.day,
            self@.is_valid(),
    {
        proof {
            use_type_invariant(self);
        }
        self.day
    }

    pub fn hour(&self) -> (r: u8)
        ensures
            r == self@.hour,
            self@.is_valid(),
    {
        proof {
            use_type_invariant(self);
        }
        self.hour
    }

    pub fn minute(&self) -> (r: u8)
        ensures
            r == self@.minute,
            self@.is_valid(),
    {
        proof {
            use_type_invariant(self);
        }
        self.minute
    }

    pub fn second(&self) -> (r: u8)
        ensures
            r == self@.second,
            self@.is_valid(),
    {
        proof {
            use_type_invariant(self);
        }
        self.second
    }

    /// The day of the week, from 0 for Monday to 6 for Sunday.
    pub fn weekday(&self) -> (r: u8)
        ensures
            r == self@.weekday(),
            r < 7,
    {
        proof {
            use_type_invariant(self);
        }
        weekday_of(self.year, self.month, self.day)
    }

    /// Writes the time in the layout `Mon Jun 28 13:22:05 2021`, a day below
    /// 10 with a space in place of its first digit.
    pub fn format(&self) -> (r: String)
        ensures
            r@ == render(self@),
            matches_layout(r@, self@),
    {
        proof {
            use_type_invariant(self);
            lemma_parse_inverts_render(self@);
        }
        let mut out = String::new();
        append_date(&mut out, self.year, self.month, self.day);
        append_space(&mut out);
        append_clock(&mut out, self.hour, self.minute, self.second);
        append_space(&mut out);
        append_year(&mut out, self.year);
        proof {
            lemma_render_in_parts(self@);
            assert(out@ =~= render(self@));
        }
        out
    }

    /// Reads a time in the layout `Mon Jun 28 13:22:05 2021`: the time whose
    /// five fields are the words of the text. A text that is the layout of
    /// no time is refused.
    pub fn parse(text: &str) -> (r: Result<Timestamp, Error>)
        ensures
            match r {
                Ok(t) => matches_layout(text@, t@),
                Err(e) => e == Error::Parse && forall|t: CivilTime| !matches_layout(text@, t),
            },
    {
        let chars = chars_of(text);
        Timestamp::from_chars(&chars)
    }

    /// Reads a time from the characters of a text, as `parse` does.
    pub fn from_chars(chars: &Vec<char>) -> (r: Result<Timestamp, Error>)
        ensures
            match r {
                Ok(t) => matches_layout(chars@, t@),
                Err(e) => e == Error::Parse && forall|t: CivilTime| !matches_layout(chars@, t),
            },
    {
        let parts = split_words(chars);
        let ghost found = words(chars@);
        proof {
            assert(found.len() == parts@.len());
            assert forall|k: int| 0 <= k < parts@.len() implies parts@[k]@ == found[k] by {
                assert(word_views(parts@)[k] == parts@[k]@);
            }
            assert forall|t: CivilTime| matches_layout(chars@, t) implies {
                let f = #[trigger] fields(t);
                &&& found.len() == 5
                &&& f[0] == found[0]
                &&& f[1] == found[1]
                &&& f[2] == found[2]
                &&& f[3] == found[3]
                &&& f[4] == found[4]
            } by {}
        }
        if parts.len() != 5 {
            return Err(Error::Parse);
        }
        let month: u8 = match month_from_name(&parts[1]) {
            Some(m) => m,
            None => {
                return Err(Error::Parse);
            },
        };
        let day: u8 = match day_from_word(&parts[2]) {
            Some(d) => d,
            None => {
                proof {
                    assert forall|t: CivilTime| !matches_layout(chars@, t) by {
                        if matches_layout(chars@, t) {
                            assert(fields(t)[2] == found[2]);
                            assert(1 <= t.day <= 99);
                        }
                    }
                }
                return Err(Error::Parse);
            },
        };
        let (hour, minute, second) = match clock_from_word(&parts[3]) {
            Some(c) => c,
            None => {
                proof {
                    assert forall|t: CivilTime| !matches_layout(chars@, t) by {
                        if matches_layout(chars@, t) {
                            assert(fields(t)[3] == found[3]);
                        }
                    }
                }
                return Err(Error::Parse);
            },
        };
        let year: u16 = match year_from_word(&parts[4]) {
            Some(y) => y,
            None => {
                proof {
                    assert forall|t: CivilTime| !matches_layout(chars@, t) by {
                        if matches_layout(chars@, t) {
                            assert(fields(t)[4] == found[4]);
                        }
                    }
                }
                return Err(Error::Parse);
            },
        };
        let ghost read = CivilTime {
            year: year as int,
            month: month as int,
            day: day as int,
            hour: hour as int,
            minute: minute as int,
            second: second as int,
        };
        proof {
            assert forall|t: CivilTime| matches_layout(chars@, t) implies t == read by {
                assert(fields(t)[1] == found[1]);
                assert(fields(t)[2] == found[2]);
                assert(fields(t)[3] == found[3]);
                assert(fields(t)[4] == found[4]);
                lemma_month_name_injective(t.month, read.month);
                lemma_day_text_injective(t.day, read.day);
                lemma_clock_text_injective(
                    t.hour,
                    t.minute,
                    t.second,
                    read.hour,
                    read.minute,
                    read.second,
                );
                lemma_year_text_injective(t.year, read.year);
            }
        }
        if day > days_in_month(year, month) {
            return Err(Error::Parse);
        }
        let expected = chars_of(weekday_str(weekday_of(year, month, day)));
        if !same_chars(&parts[0], &expected) {
            proof {
                assert forall|t: CivilTime| !matches_layout(chars@, t) by {
                    if matches_layout(chars@, t) {
                        assert(fields(t)[0] == found[0]);
                    }
                }
            }
            return Err(Error::Parse);
        }
        proof {
            assert(found =~= fields(read));
        }
        Ok(Timestamp { year, month, day, hour, minute, second })
    }
}

/// No field of a time holds a blank, and none is empty.
pub proof fn lemma_fields_are_words(t: CivilTime)
    ensures
        blank_free(weekday_name(t.weekday())) && weekday_name(t.weekday()).len() == 3,
        blank_free(month_name(t.month)) && month_name(t.month).len() == 3,
        blank_free(day_text(t.day)) && day_text(t.day).len() > 0,
        blank_free(clock_text(t.hour, t.minute, t.second)) && clock_text(
            t.hour,
            t.minute,
            t.second,
        ).len() == 8,
        blank_free(year_text(t.year)) && year_text(t.year).len() == 4,
{
    lemma_digits('0', t.day);
    lemma_digits('0', t.day / 10);
    lemma_digits('0', t.day % 10);
    lemma_digits('0', t.hour / 10);
    lemma_digits('0', t.hour % 10);
    lemma_digits('0', t.minute / 10);
    lemma_digits('0', t.minute % 10);
    lemma_digits('0', t.second / 10);
    lemma_digits('0', t.second % 10);
    lemma_digits('0', t.year / 1000);
    lemma_digits('0', (t.year / 100) % 10);
    lemma_digits('0', (t.year / 10) % 10);
    lemma_digits('0', t.year % 10);
}

/// The words of a time as it is written are its five fields.
pub proof fn lemma_words_of_render(t: CivilTime)
    ensures
        words(render(t)) == fields(t),
{
    lemma_fields_are_words(t);
    let wn = weekday_name(t.weekday());
    let mn = month_name(t.month);
    let dt = day_text(t.day);
    let ct = clock_text(t.hour, t.minute, t.second);
    let yt = year_text(t.year);
    let sp = seq![' '];
    let r4 = yt;
    let r3 = ct + (sp + r4);
    let r2 = dt + (sp + r3);
    let r2c = day_column(t.day) + (sp + r3);
    let r1 = mn + (sp + r2c);
    lemma_words_single(yt);
    lemma_words_word_then_space(ct, r4);
    lemma_words_word_then_space(dt, r3);
    if t.day < 10 {
        assert(r2c == sp + r2);
        lemma_words_leading_space(r2);
    } else {
        assert(r2c == r2);
    }
    lemma_words_word_then_space(mn, r2c);
    lemma_words_word_then_space(wn, r1);
    assert(words(render(t)) =~= fields(t));
}

/// Reading inverts writing: a time that exists, written out, is the layout of
/// that time and of no other.
pub proof fn lemma_parse_inverts_render(t: CivilTime)
    requires
        t.is_valid(),
    ensures
        matches_layout(render(t), t),
        forall|u: CivilTime| matches_layout(render(t), u) ==> u == t,
{
    lemma_words_of_render(t);
    assert forall|u: CivilTime| matches_layout(render(t), u) implies u == t by {
        lemma_layout_names_one_time(render(t), t, u);
    }
}

/// A text that is the layout of a time has exactly five words, and the time exists.
pub proof fn lemma_layout_is_strict(s: Seq<char>, t: CivilTime)
    requires
        matches_layout(s, t),
    ensures
        words(s).len() == 5,
        t.is_valid(),
        words(s) == words(render(t)),
{
    lemma_words_of_render(t);
}

} // verus!
