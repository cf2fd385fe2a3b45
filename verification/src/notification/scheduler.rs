//! The decisions of the daily reminder: reading the configured time of day,
//! how long to wait for it, how many of today's articles are unread, and what
//! the reminder says. The loop that waits and shows it belongs to the app.

use vstd::prelude::*;

use crate::clock::{local_day_bounds, local_time_of_day};
use crate::db::Database;
use crate::models::{Article, NotificationSettings};
use crate::text::{bytes_less, bytes_of, chars_of, push_char, text_lt};
use vstd::utf8::encode_utf8;

verus! {

/// `c` is a decimal digit.
pub open spec fn is_digit(c: char) -> bool {
    '0' <= c <= '9'
}

/// The value of the digit `c`.
pub open spec fn digit_value(c: char) -> int {
    c as int - '0' as int
}

/// The value of the decimal numeral `s`.
pub open spec fn digits_value(s: Seq<char>) -> int
    decreases s.len(),
{
    if s.len() == 0 {
        0
    } else {
        digits_value(s.drop_last()) * 10 + digit_value(s.last())
    }
}

/// Every character of `s` is a digit.
pub open spec fn all_digits(s: Seq<char>) -> bool {
    forall|i: int| 0 <= i < s.len() ==> is_digit(#[trigger] s[i])
}

/// `s` read as an unsigned 32-bit number, as `str::parse::<u32>` reads it: an
/// optional leading `+`, then at least one digit and nothing else, of a value
/// that fits.
pub open spec fn parsed_u32(s: Seq<char>) -> Option<u32> {
    let d = if s.len() > 0 && s[0] == '+' {
        s.drop_first()
    } else {
        s
    };
    if d.len() > 0 && all_digits(d) && digits_value(d) <= u32::MAX {
        Some(digits_value(d) as u32)
    } else {
        None
    }
}

/// `s` has exactly one `:`, at position `k`.
pub open spec fn single_colon_at(s: Seq<char>, k: int) -> bool {
    0 <= k < s.len() && s[k] == ':' && forall|j: int| 0 <= j < s.len() && j != k ==> s[j] != ':'
}

/// The hour and minute that the text `s` gives: the two parts around its one
/// `:`, each a number, the hour under 24 and the minute under 60.
pub open spec fn parsed_time(s: Seq<char>) -> Option<(u32, u32)> {
    if exists|k: int| single_colon_at(s, k) {
        let k = choose|k: int| single_colon_at(s, k);
        match (parsed_u32(s.take(k)), parsed_u32(s.skip(k + 1))) {
            (Some(h), Some(m)) => if h < 24 && m < 60 {
                Some((h, m))
            } else {
                None
            },
            _ => None,
        }
    } else {
        None
    }
}

/// A numeral of digits has a value of at least 0, and of at least that of any
/// of its prefixes.
pub proof fn lemma_digits_value_grows(s: Seq<char>, k: int)
    requires
        all_digits(s),
        0 <= k <= s.len(),
    ensures
        0 <= digits_value(s.take(k)) <= digits_value(s),
    decreases s.len(),
{
    if s.len() > 0 {
        if k == s.len() {
            assert(s.take(k) =~= s);
            lemma_digits_value_grows(s.drop_last(), k - 1);
            assert(s.drop_last().take(k - 1) =~= s.drop_last());
        } else {
            lemma_digits_value_grows(s.drop_last(), k);
            lemma_digits_value_grows(s.drop_last(), s.len() - 1);
            assert(s.drop_last().take(k) =~= s.take(k));
            assert(s.drop_last().take(s.len() - 1) =~= s.drop_last());
        }
    } else {
        assert(s.take(k) =~= s);
    }
}

/// The characters `s[lo..hi]` read as an unsigned 32-bit number.
pub fn parse_u32_chars(s: &Vec<char>, lo: usize, hi: usize) -> (r: Option<u32>)
    requires
        lo <= hi <= s.len(),
    ensures
        r == parsed_u32(s@.subrange(lo as int, hi as int)),
{
    let ghost t = s@.subrange(lo as int, hi as int);
    let mut start = lo;
    if lo < hi && s[lo] == '+' {
        start = lo + 1;
    }
    let ghost d = s@.subrange(start as int, hi as int);
    proof {
        if lo < hi && s@[lo as int] == '+' {
            assert(t.drop_first() =~= d);
        } else {
            assert(t =~= d);
        }
    }
    if start == hi {
        return None;
    }
    let mut acc: u64 = 0;
    let mut i = start;
    while i < hi
        invariant
            lo <= start <= i <= hi <= s.len(),
            d == s@.subrange(start as int, hi as int),
            t == s@.subrange(lo as int, hi as int),
            d == (if t.len() > 0 && t[0] == '+' {
                t.drop_first()
            } else {
                t
            }),
            all_digits(s@.subrange(start as int, i as int)),
            acc == digits_value(s@.subrange(start as int, i as int)),
            acc <= u32::MAX,
        decreases hi - i,
    {
        let c = s[i];
        proof {
            assert(s@.subrange(start as int, i + 1).drop_last() =~= s@.subrange(start as int, i as int));
        }
        if !('0' <= c && c <= '9') {
            proof {
                assert(d[i - start] == c);
                assert(!is_digit(d[i - start]));
            }
            return None;
        }
        let v = (c as u32 - '0' as u32) as u64;
        let next = acc * 10 + v;
        if next > 4_294_967_295 {
            proof {
                if all_digits(d) {
                    lemma_digits_value_grows(d, i + 1 - start);
                    assert(d.take(i + 1 - start) =~= s@.subrange(start as int, i + 1));
                    assert(digits_value(s@.subrange(start as int, i + 1)) == next);
                }
            }
            return None;
        }
        acc = next;
        i = i + 1;
    }
    Some(acc as u32)
}

/// The hour and minute of an "HH:MM" text, or `None` when it is not one.
pub fn parse_time(time_str: &str) -> (r: Option<(u32, u32)>)
    ensures
        r == parsed_time(time_str@),
{
    let s = chars_of(time_str);
    let mut colons: usize = 0;
    let mut at: usize = 0;
    let mut i: usize = 0;
    while i < s.len()
        invariant
            s@ == time_str@,
            i <= s.len(),
            colons <= i,
            colons == 0 ==> forall|j: int| 0 <= j < i ==> s@[j] != ':',
            colons == 1 ==> single_colon_at(s@.take(i as int), at as int),
            colons >= 2 ==> exists|a: int, b: int| 0 <= a < b < i && s@[a] == ':' && s@[b] == ':',
        decreases s.len() - i,
    {
        if s[i] == ':' {
            if colons == 0 {
                at = i;
            } else if colons == 1 {
                proof {
                    assert(s@.take(i as int)[at as int] == ':');
                }
            }
            if colons < 2 {
                colons = colons + 1;
            }
        }
        proof {
            if colons == 1 {
                assert forall|j: int| 0 <= j < i + 1 && j != at implies #[trigger] s@.take(i + 1)[j] != ':' by {
                    if j < i {
                        assert(s@.take(i as int)[j] == s@[j]);
                    }
                }
            }
        }
        i = i + 1;
    }
    proof {
        assert(s@.take(i as int) =~= s@);
    }
    if colons != 1 {
        proof {
            if colons >= 2 {
                assert forall|k: int| !single_colon_at(s@, k) by {
                    let (a, b) = choose|a: int, b: int| 0 <= a < b < i && s@[a] == ':' && s@[b] == ':';
                    if single_colon_at(s@, k) {
                        assert(a == k && b == k);
                    }
                }
            } else {
                assert forall|k: int| !single_colon_at(s@, k) by {}
            }
        }
        return None;
    }
    proof {
        assert(single_colon_at(s@, at as int));
        let k = choose|k: int| single_colon_at(s@, k);
        if k != at {
            assert(s@[k] == ':');
        }
        assert(s@.take(at as int) =~= s@.subrange(0, at as int));
        assert(s@.skip(at + 1) =~= s@.subrange(at + 1, s@.len() as int));
    }
    let hour = match parse_u32_chars(&s, 0, at) {
        Some(h) => h,
        None => return None,
    };
    let minute = match parse_u32_chars(&s, at + 1, s.len()) {
        Some(m) => m,
        None => return None,
    };
    if hour >= 24 || minute >= 60 {
        return None;
    }
    Some((hour, minute))
}

} // verus!

verus! {

/// What the reminder's loop does next with the settings it holds.
#[derive(Debug, Clone, Copy, PartialEq, Eq)]
pub enum SchedulerStep {
    /// Reminders are off or their time is unreadable: wait for new settings.
    AwaitSettings,
    /// Sleep until this time of day (or until the settings change).
    WaitUntil { hour: u32, minute: u32 },
}

/// The step that the settings call for.
pub open spec fn step_for(enabled: bool, time: Seq<char>) -> SchedulerStep {
    if !enabled {
        SchedulerStep::AwaitSettings
    } else {
        match parsed_time(time) {
            Some((h, m)) => SchedulerStep::WaitUntil { hour: h, minute: m },
            None => SchedulerStep::AwaitSettings,
        }
    }
}

/// What the reminder's loop does next with `settings`.
pub fn next_step(settings: &NotificationSettings) -> (r: SchedulerStep)
    ensures
        r == step_for(settings.enabled, settings.time@),
        r matches SchedulerStep::WaitUntil { hour, minute } ==> hour < 24 && minute < 60,
{
    if !settings.enabled {
        return SchedulerStep::AwaitSettings;
    }
    match parse_time(settings.time.as_str()) {
        Some((h, m)) => SchedulerStep::WaitUntil { hour: h, minute: m },
        None => SchedulerStep::AwaitSettings,
    }
}

/// Nanoseconds from the time of day `(s2, f2)` to `(s1, f1)`, each given as
/// whole seconds since midnight and nanoseconds within the second, as chrono's
/// `NaiveTime::signed_duration_since` counts them: a leap second (nanoseconds
/// of a second or more) between the two counts as one more second.
pub open spec fn time_since(s1: int, f1: int, s2: int, f2: int) -> int {
    let secs = s1 - s2 + if s1 > s2 && f2 >= 1_000_000_000 {
        1int
    } else if s1 < s2 && f1 >= 1_000_000_000 {
        -1int
    } else {
        0int
    };
    secs * 1_000_000_000 + (f1 - f2)
}

/// Nanoseconds to wait, at the time of day `(secs, nanos)`, for the next
/// `hour:minute`: today's if it is still ahead, else tomorrow's; a wait that
/// would be negative becomes one minute.
pub open spec fn wait_nanos(secs: int, nanos: int, hour: int, minute: int) -> int {
    let target = hour * 3600 + minute * 60;
    let d = if secs < target {
        time_since(target, 0, secs, nanos)
    } else {
        86_400 * 1_000_000_000 + time_since(target, 0, secs, nanos)
    };
    if d < 0 {
        60_000_000_000int
    } else {
        d
    }
}

/// Waiting from a time of day (not in a leap second) lands on the next
/// `hour:minute`: the wait is positive and at most a day, ends at the target
/// today where it is still ahead, and at tomorrow's otherwise.
pub proof fn lemma_wait_lands_on_target(secs: int, nanos: int, hour: int, minute: int)
    requires
        0 <= secs < 86_400,
        0 <= nanos < 1_000_000_000,
        0 <= hour < 24,
        0 <= minute < 60,
    ensures
        ({
            let w = wait_nanos(secs, nanos, hour, minute);
            let now = secs * 1_000_000_000 + nanos;
            let target = (hour * 3600 + minute * 60) * 1_000_000_000;
            &&& 0 < w <= 86_400 * 1_000_000_000
            &&& now < target ==> now + w == target
            &&& now >= target ==> now + w == target + 86_400 * 1_000_000_000
        }),
{
}

/// Nanoseconds to wait, at the time of day `(secs, nanos)`, for the next
/// `hour:minute`.
pub fn wait_for(secs: u32, nanos: u32, hour: u32, minute: u32) -> (r: u64)
    requires
        secs < 86_400,
        nanos < 2_000_000_000,
        hour < 24,
        minute < 60,
    ensures
        r == wait_nanos(secs as int, nanos as int, hour as int, minute as int),
{
    let target: i64 = hour as i64 * 3600 + minute as i64 * 60;
    let s: i64 = secs as i64;
    let f: i64 = nanos as i64;
    let mut whole: i64 = target - s;
    if target > s && f >= 1_000_000_000 {
        whole = whole + 1;
    }
    let mut d: i64 = whole * 1_000_000_000 - f;
    if !(s < target) {
        d = d + 86_400 * 1_000_000_000;
    }
    if d < 0 {
        60_000_000_000
    } else {
        d as u64
    }
}

/// Nanoseconds from now until the next `hour:minute` of local time.
pub fn duration_until(hour: u32, minute: u32) -> (r: u64)
    requires
        hour < 24,
        minute < 60,
    ensures
        exists|secs: int, nanos: int|
            0 <= secs < 86_400 && 0 <= nanos < 2_000_000_000 && r == wait_nanos(
                secs,
                nanos,
                hour as int,
                minute as int,
            ),
{
    let (secs, nanos) = local_time_of_day();
    wait_for(secs, nanos, hour, minute)
}

/// An article that is unread and was stored at or after `from` and before
/// `to`, times compared as text (byte-wise). The store writes times as chrono
/// writes a UTC instant in RFC 3339 (`2024-01-15T10:30:00.5+00:00`): a fixed
/// layout of zero-padded fields, the seconds followed by `+` or by a fraction
/// after `.` (`+` comes before `.` and the digits), so for years 0000 to 9999
/// such texts compare as the instants they stand for.
pub open spec fn unread_between(from: Seq<char>, to: Seq<char>, a: Article) -> bool {
    !a.is_read && !text_lt(a.created_at@, from) && text_lt(a.created_at@, to)
}

/// How many of `articles` are unread and were stored at or after `from` and
/// before `to`.
pub open spec fn unread_count(articles: Seq<Article>, from: Seq<char>, to: Seq<char>) -> nat {
    articles.filter(|a: Article| unread_between(from, to, a)).len()
}

/// How many articles are unread and were stored at or after `from` and before
/// `to`.
pub fn count_unread_between(db: &Database, from: &str, to: &str) -> (r: usize)
    ensures
        r == unread_count(db.articles@, from@, to@),
{
    let ghost pred = |a: Article| unread_between(from@, to@, a);
    let from_bytes = bytes_of(from);
    let to_bytes = bytes_of(to);
    let n = db.articles.len();
    let mut count: usize = 0;
    let mut k: usize = 0;
    while k < n
        invariant
            n == db.articles.len(),
            pred == (|a: Article| unread_between(from@, to@, a)),
            from_bytes@ == encode_utf8(from@),
            to_bytes@ == encode_utf8(to@),
            k <= n,
            count == db.articles@.take(k as int).filter(pred).len(),
            count <= k,
        decreases n - k,
    {
        let hit = if db.articles[k].is_read {
            false
        } else {
            let created = bytes_of(db.articles[k].created_at.as_str());
            !bytes_less(created.as_slice(), from_bytes.as_slice()) && bytes_less(
                created.as_slice(),
                to_bytes.as_slice(),
            )
        };
        proof {
            reveal(Seq::filter);
            let t1 = db.articles@.take(k + 1);
            assert(t1.drop_last() =~= db.articles@.take(k as int));
            assert(t1.last() == db.articles@[k as int]);
            assert(pred(db.articles@[k as int]) == hit);
        }
        if hit {
            count = count + 1;
        }
        k = k + 1;
    }
    proof {
        assert(db.articles@.take(n as int) =~= db.articles@);
    }
    count
}

/// How many articles are unread and were stored today, in the local time
/// zone: those stored from the local midnight that starts today up to the one
/// that starts tomorrow. `None` where the clock cannot give these bounds (a
/// clock change skips the midnight), or where their texts do not come in the
/// order of their instants (a year beyond 9999). Which day it is depends on
/// the clock, so the contract states the count for the bounds it was given,
/// the earlier first.
pub fn count_todays_unread(db: &Database) -> (r: Option<usize>)
    ensures
        r matches Some(n) ==> exists|from: Seq<char>, to: Seq<char>|
            text_lt(from, to) && crate::clock::is_utc_time_text(from) && crate::clock::is_utc_time_text(to)
                && n == #[trigger] unread_count(db.articles@, from, to),
{
    match local_day_bounds() {
        Some((from, to)) => {
            let from_bytes = bytes_of(from.as_str());
            let to_bytes = bytes_of(to.as_str());
            if bytes_less(from_bytes.as_slice(), to_bytes.as_slice()) {
                Some(count_unread_between(db, from.as_str(), to.as_str()))
            } else {
                None
            }
        },
        None => None,
    }
}

/// The decimal digit of value `d`.
pub open spec fn digit_char(d: int) -> char {
    ((48 + d) as u8) as char
}

/// The decimal numeral of `n`.
pub open spec fn decimal(n: nat) -> Seq<char>
    decreases n,
{
    if n < 10 {
        seq![digit_char(n as int)]
    } else {
        decimal(n / 10).push(digit_char((n % 10) as int))
    }
}

/// Appends the decimal numeral of `n` to `out`.
pub fn push_decimal(out: &mut String, n: u64)
    ensures
        final(out)@ == old(out)@ + decimal(n as nat),
    decreases n,
{
    if n >= 10 {
        push_decimal(out, n / 10);
    }
    let d = (n % 10) as u8;
    push_char(out, (48u8 + d) as char);
    proof {
        if n >= 10 {
            assert(final(out)@ =~= old(out)@ + decimal(n as nat)) by {
                assert(decimal(n as nat) == decimal((n / 10) as nat).push(digit_char((n % 10) as int)));
            }
        } else {
            assert(final(out)@ =~= old(out)@ + decimal(n as nat));
        }
    }
}

/// A reminder to show.
#[derive(Debug, Clone)]
pub struct Reminder {
    pub title: String,
    pub body: String,
}

/// The text of the reminder of `unread` unread articles.
pub open spec fn reminder_body(unread: nat) -> Seq<char> {
    "本日の未読記事が"@ + decimal(unread) + "件あります"@
}

/// The reminder for `unread` unread articles of today: none when there are none.
pub fn reminder_for(unread: u64) -> (r: Option<Reminder>)
    ensures
        unread == 0 <==> r is None,
        r matches Some(m) ==> m.title@ == "My RSS Feeder"@ && m.body@ == reminder_body(unread as nat),
{
    if unread == 0 {
        return None;
    }
    let mut body = "本日の未読記事が".to_string();
    push_decimal(&mut body, unread);
    let body = body.concat("件あります");
    Some(Reminder { title: "My RSS Feeder".to_string(), body })
}

} // verus!
