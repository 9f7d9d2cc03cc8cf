//! The countdown text: the target date, the whole seconds left and the
//! time left split into days, hours, minutes and seconds, or the message
//! that school has started.

use vstd::prelude::*;
use vstd::string::*;

use crate::decimal::{decimal, digit_char, lemma_digit_char, push_decimal, push_signed_zero_padded, push_zero_padded, signed_zero_padded, zero_padded};
use crate::time::{LocalDateTime, Timestamp, NANOS_PER_SEC};

verus! {

/// Seconds in a day.
pub const SECS_PER_DAY: u64 = 86400;

/// Seconds in an hour.
pub const SECS_PER_HOUR: u64 = 3600;

/// Seconds in a minute.
pub const SECS_PER_MINUTE: u64 = 60;

/// Whole seconds from `now` to a later `target`, the fraction dropped.
pub open spec fn whole_seconds_between(target: Timestamp, now: Timestamp) -> int {
    (target.total_nanos() - now.total_nanos()) / (NANOS_PER_SEC as int)
}

proof fn lemma_div_by_second(q: int, r: int)
    requires
        0 <= r < 1_000_000_000,
    ensures
        (q * 1_000_000_000 + r) / 1_000_000_000 == q,
{
    assert((q * 1_000_000_000 + r) / 1_000_000_000 == q) by (nonlinear_arith)
        requires
            0 <= r < 1_000_000_000,
    ;
}

/// Whole seconds left from `now` until a later `target`: the time between
/// them, truncated to whole seconds.
pub fn whole_seconds_until(target: &Timestamp, now: &Timestamp) -> (r: u64)
    requires
        target.wf(),
        now.wf(),
        !now.not_before(*target),
    ensures
        r as int == whole_seconds_between(*target, *now),
        r * 1_000_000_000 <= target.total_nanos() - now.total_nanos() < (r + 1) * 1_000_000_000,
{
    let diff: i128 = (target.secs as i128) - (now.secs as i128);
    proof {
        let dn: int = target.total_nanos() - now.total_nanos();
        assert(target.total_nanos() - now.total_nanos() == diff * 1_000_000_000 + (target.nanos - now.nanos)) by (nonlinear_arith)
            requires
                diff == target.secs - now.secs,
        ;
        if target.nanos >= now.nanos {
            lemma_div_by_second(diff as int, target.nanos - now.nanos);
        } else {
            assert(dn == (diff - 1) * 1_000_000_000 + (1_000_000_000 + target.nanos - now.nanos)) by (nonlinear_arith)
                requires
                    dn == diff * 1_000_000_000 + (target.nanos - now.nanos),
            ;
            lemma_div_by_second(diff - 1, 1_000_000_000 + target.nanos - now.nanos);
        }
        let q: int = if target.nanos >= now.nanos { diff as int } else { diff - 1 };
        assert(q * 1_000_000_000 <= dn < (q + 1) * 1_000_000_000) by (nonlinear_arith)
            requires
                target.nanos >= now.nanos ==> (q == diff && dn == q * 1_000_000_000 + (target.nanos - now.nanos)),
                target.nanos < now.nanos ==> (q == diff - 1 && dn == q * 1_000_000_000 + (1_000_000_000 + target.nanos - now.nanos)),
                0 <= target.nanos < 1_000_000_000,
                0 <= now.nanos < 1_000_000_000,
        ;
    }
    if target.nanos >= now.nanos {
        diff as u64
    } else {
        (diff - 1) as u64
    }
}

/// The whole seconds left never grow as time goes on: at a later `now` at
/// most as many remain.
pub proof fn lemma_seconds_left_shrink(target: Timestamp, earlier: Timestamp, later: Timestamp)
    requires
        earlier.total_nanos() <= later.total_nanos(),
    ensures
        whole_seconds_between(target, later) <= whole_seconds_between(target, earlier),
{
    vstd::arithmetic::div_mod::lemma_div_is_ordered(
        target.total_nanos() - later.total_nanos(),
        target.total_nanos() - earlier.total_nanos(),
        1_000_000_000,
    );
}

/// A span of whole seconds split as the countdown shows it.
#[derive(Clone, Copy, Debug, PartialEq, Eq)]
pub struct DurationParts {
    pub days: u64,
    pub hours: u64,
    pub minutes: u64,
    pub seconds: u64,
}

/// Splits `total` seconds into days, hours of the day, minutes of the hour
/// and seconds of the minute.
pub fn split_duration(total: u64) -> (p: DurationParts)
    ensures
        p.days == total / SECS_PER_DAY,
        p.hours == (total % SECS_PER_DAY) / SECS_PER_HOUR,
        p.minutes == (total % SECS_PER_HOUR) / SECS_PER_MINUTE,
        p.seconds == total % SECS_PER_MINUTE,
        p.hours < 24,
        p.minutes < 60,
        p.seconds < 60,
        p.days * 86400 + p.hours * 3600 + p.minutes * 60 + p.seconds == total,
{
    let p = DurationParts {
        days: total / SECS_PER_DAY,
        hours: (total % SECS_PER_DAY) / SECS_PER_HOUR,
        minutes: (total % SECS_PER_HOUR) / SECS_PER_MINUTE,
        seconds: total % SECS_PER_MINUTE,
    };
    proof {
        let t: int = total as int;
        assert(t == (t / 86400) * 86400 + t % 86400) by (nonlinear_arith);
        let r: int = t % 86400;
        assert(r == (r / 3600) * 3600 + r % 3600) by (nonlinear_arith);
        assert(t % 3600 == r % 3600) by (nonlinear_arith)
            requires
                t == (t / 86400) * 86400 + r,
                0 <= r < 86400,
                t >= 0,
        ;
        let m: int = t % 3600;
        assert(m == (m / 60) * 60 + m % 60) by (nonlinear_arith);
        assert(t % 60 == m % 60) by (nonlinear_arith)
            requires
                t == (t / 86400) * 86400 + (r / 3600) * 3600 + m,
                0 <= m < 3600,
                t >= 0,
        ;
        assert(r / 3600 < 24) by (nonlinear_arith)
            requires
                0 <= r < 86400,
        ;
        assert(m / 60 < 60) by (nonlinear_arith)
            requires
                0 <= m < 3600,
        ;
    }
    p
}

/// The time left in words, from the largest nonzero unit down: days,
/// hours, minutes, seconds.
pub open spec fn detailed_duration(total: nat) -> Seq<char> {
    let days: nat = total / 86400;
    let hours: nat = (total % 86400) / 3600;
    let minutes: nat = (total % 3600) / 60;
    let seconds: nat = total % 60;
    if days > 0 {
        decimal(days) + "天"@ + decimal(hours) + "小时"@ + decimal(minutes) + "分"@ + decimal(seconds)
            + "秒"@
    } else if hours > 0 {
        decimal(hours) + "小时"@ + decimal(minutes) + "分"@ + decimal(seconds) + "秒"@
    } else if minutes > 0 {
        decimal(minutes) + "分"@ + decimal(seconds) + "秒"@
    } else {
        decimal(seconds) + "秒"@
    }
}

/// What a reader of a time-left text has taken in so far: the seconds of
/// the finished units, the number being read, and whether every hour count
/// was below 24 and every minute and second count below 60.
pub struct Reading {
    pub sum: int,
    pub acc: int,
    pub ok: bool,
}

/// Reads one more character of a time-left text: a digit extends the
/// number; 天, 时, 分 and 秒 close it as days, hours, minutes or seconds;
/// anything else (the 小 of 小时) is passed over.
pub open spec fn read_char(st: Reading, c: char) -> Reading {
    if '0' <= c && c <= '9' {
        Reading { acc: st.acc * 10 + (c as int - 48), ..st }
    } else if c == '天' {
        Reading { sum: st.sum + st.acc * 86400, acc: 0, ok: st.ok }
    } else if c == '时' {
        Reading { sum: st.sum + st.acc * 3600, acc: 0, ok: st.ok && st.acc < 24 }
    } else if c == '分' {
        Reading { sum: st.sum + st.acc * 60, acc: 0, ok: st.ok && st.acc < 60 }
    } else if c == '秒' {
        Reading { sum: st.sum + st.acc, acc: 0, ok: st.ok && st.acc < 60 }
    } else {
        st
    }
}

/// Reads `t` from left to right, starting from `st`.
pub open spec fn read_from(st: Reading, t: Seq<char>) -> Reading
    decreases t.len(),
{
    if t.len() == 0 {
        st
    } else {
        read_char(read_from(st, t.drop_last()), t.last())
    }
}

/// What a time-left text says: the seconds it adds up to, and whether its
/// hours, minutes and seconds are in range.
pub open spec fn read_time_left(t: Seq<char>) -> Reading {
    read_from(Reading { sum: 0, acc: 0, ok: true }, t)
}

proof fn lemma_read_concat(st: Reading, a: Seq<char>, b: Seq<char>)
    ensures
        read_from(st, a + b) == read_from(read_from(st, a), b),
    decreases b.len(),
{
    if b.len() == 0 {
        assert(a + b =~= a);
    } else {
        lemma_read_concat(st, a, b.drop_last());
        assert((a + b).drop_last() =~= a + b.drop_last());
        assert((a + b).last() == b.last());
    }
}

proof fn lemma_read_decimal(st: Reading, n: nat)
    requires
        st.acc == 0,
    ensures
        read_from(st, decimal(n)) == (Reading { acc: n as int, ..st }),
    decreases n,
{
    let d = decimal(n);
    lemma_digit_char(n % 10);
    if n < 10 {
        assert(d.drop_last() =~= Seq::<char>::empty());
        assert(read_from(st, d.drop_last()) == st);
        assert(d.last() == digit_char(n));
        assert(read_from(st, d) == read_char(st, digit_char(n)));
    } else {
        lemma_read_decimal(st, n / 10);
        assert(d.drop_last() =~= decimal(n / 10));
        assert(d.last() == digit_char(n % 10));
        assert(read_from(st, d) == read_char(Reading { acc: (n / 10) as int, ..st }, digit_char(n % 10)));
        assert((n / 10) * 10 + n % 10 == n) by (nonlinear_arith);
    }
}

/// Reading a number and then a unit character.
proof fn lemma_read_number_unit(st: Reading, n: nat, unit: Seq<char>)
    requires
        st.acc == 0,
    ensures
        read_from(st, decimal(n) + unit) == read_from(Reading { acc: n as int, ..st }, unit),
{
    lemma_read_concat(st, decimal(n), unit);
    lemma_read_decimal(st, n);
}

proof fn lemma_read_single(st: Reading, c: char)
    ensures
        read_from(st, seq![c]) == read_char(st, c),
{
    assert(seq![c].drop_last() =~= Seq::<char>::empty());
    assert(read_from(st, seq![c].drop_last()) == st);
}

proof fn lemma_parts_recompose(total: nat)
    ensures
        (total / 86400) * 86400 + ((total % 86400) / 3600) * 3600 + ((total % 3600) / 60) * 60 + total % 60
            == total,
        (total % 86400) / 3600 < 24,
        (total % 3600) / 60 < 60,
{
    let t = total as int;
    assert(t == (t / 86400) * 86400 + t % 86400) by (nonlinear_arith);
    let r: int = t % 86400;
    assert(r == (r / 3600) * 3600 + r % 3600) by (nonlinear_arith);
    assert(t % 3600 == r % 3600) by (nonlinear_arith)
        requires
            t == (t / 86400) * 86400 + r,
            0 <= r < 86400,
            t >= 0,
    ;
    let m: int = t % 3600;
    assert(m == (m / 60) * 60 + m % 60) by (nonlinear_arith);
    assert(t % 60 == m % 60) by (nonlinear_arith)
        requires
            t == (t / 86400) * 86400 + (r / 3600) * 3600 + m,
            0 <= m < 3600,
            t >= 0,
    ;
    assert(r / 3600 < 24) by (nonlinear_arith)
        requires
            0 <= r < 86400,
    ;
    assert(m / 60 < 60) by (nonlinear_arith)
        requires
            0 <= m < 3600,
    ;
}

/// Read back, the time left in words adds up to the seconds it was made
/// from, with fewer than 24 hours, 60 minutes and 60 seconds: the numbers
/// before 天, 小时, 分 and 秒 are the days, hours, minutes and seconds of
/// `total`, and no unit is dropped that is needed.
pub proof fn lemma_time_left_reads_back(total: nat)
    ensures
        read_time_left(detailed_duration(total)) == (Reading { sum: total as int, acc: 0, ok: true }),
{
    reveal_strlit("天");
    reveal_strlit("小时");
    reveal_strlit("分");
    reveal_strlit("秒");
    lemma_parts_recompose(total);
    let d: nat = total / 86400;
    let h: nat = (total % 86400) / 3600;
    let m: nat = (total % 3600) / 60;
    let s: nat = total % 60;
    let init = Reading { sum: 0, acc: 0, ok: true };
    // The reading of the minutes and seconds, from any state with no
    // number pending.
    let tail = decimal(m) + "分"@ + decimal(s) + "秒"@;
    let secs_tail = decimal(s) + "秒"@;
    assert forall|st: Reading| st.acc == 0 implies read_from(st, secs_tail) == (Reading {
        sum: st.sum + s,
        acc: 0,
        ok: st.ok,
    }) by {
        lemma_read_number_unit(st, s, "秒"@);
        assert("秒"@ =~= seq!['秒']);
        lemma_read_single(Reading { acc: s as int, ..st }, '秒');
    }
    assert forall|st: Reading| st.acc == 0 implies read_from(st, tail) == (Reading {
        sum: st.sum + m * 60 + s,
        acc: 0,
        ok: st.ok,
    }) by {
        let a = decimal(m) + "分"@;
        assert(tail =~= a + secs_tail);
        lemma_read_concat(st, a, secs_tail);
        lemma_read_number_unit(st, m, "分"@);
        assert("分"@ =~= seq!['分']);
        lemma_read_single(Reading { acc: m as int, ..st }, '分');
    }
    let hours_tail = decimal(h) + "小时"@ + tail;
    assert forall|st: Reading| st.acc == 0 implies read_from(st, hours_tail) == (Reading {
        sum: st.sum + h * 3600 + m * 60 + s,
        acc: 0,
        ok: st.ok,
    }) by {
        let a = decimal(h) + "小时"@;
        assert(hours_tail =~= a + tail);
        lemma_read_concat(st, a, tail);
        lemma_read_number_unit(st, h, "小时"@);
        let st1 = Reading { acc: h as int, ..st };
        assert("小时"@ =~= seq!['小'] + seq!['时']);
        lemma_read_concat(st1, seq!['小'], seq!['时']);
        lemma_read_single(st1, '小');
        lemma_read_single(st1, '时');
    }
    if d > 0 {
        let a = decimal(d) + "天"@;
        assert(detailed_duration(total) =~= a + hours_tail);
        lemma_read_concat(init, a, hours_tail);
        lemma_read_number_unit(init, d, "天"@);
        assert("天"@ =~= seq!['天']);
        lemma_read_single(Reading { acc: d as int, ..init }, '天');
    } else if h > 0 {
        assert(detailed_duration(total) =~= hours_tail);
    } else if m > 0 {
        assert(detailed_duration(total) =~= tail);
    } else {
        assert(detailed_duration(total) =~= secs_tail);
    }
}

/// Writes the time left in words: `{d}天{h}小时{m}分{s}秒`, leaving out the
/// leading units that are zero.
pub fn format_duration_detailed(total_seconds: u64) -> (s: String)
    ensures
        s@ == detailed_duration(total_seconds as nat),
        read_time_left(s@) == (Reading { sum: total_seconds as int, acc: 0, ok: true }),
{
    let p = split_duration(total_seconds);
    let mut s = String::new();
    if p.days > 0 {
        push_decimal(&mut s, p.days);
        s.append("天");
    }
    if p.days > 0 || p.hours > 0 {
        push_decimal(&mut s, p.hours);
        s.append("小时");
    }
    if p.days > 0 || p.hours > 0 || p.minutes > 0 {
        push_decimal(&mut s, p.minutes);
        s.append("分");
    }
    push_decimal(&mut s, p.seconds);
    s.append("秒");
    assert(s@ =~= detailed_duration(total_seconds as nat));
    proof {
        lemma_time_left_reads_back(total_seconds as nat);
    }
    s
}

/// The target date as `{:04}年{:02}月{:02}日{:02}时{:02}分{:02}秒`.
pub open spec fn target_date_text(t: LocalDateTime) -> Seq<char> {
    signed_zero_padded(t.year as int, 4) + "年"@ + zero_padded(t.month as nat, 2) + "月"@
        + zero_padded(t.day as nat, 2) + "日"@ + zero_padded(t.hour as nat, 2) + "时"@ + zero_padded(
        t.minute as nat,
        2,
    ) + "分"@ + zero_padded(t.second as nat, 2) + "秒"@
}

/// Writes the target date with zero-padded fields.
pub fn format_target_date(t: &LocalDateTime) -> (s: String)
    ensures
        s@ == target_date_text(*t),
{
    let mut s = String::new();
    push_signed_zero_padded(&mut s, t.year, 4);
    s.append("年");
    push_zero_padded(&mut s, t.month as u64, 2);
    s.append("月");
    push_zero_padded(&mut s, t.day as u64, 2);
    s.append("日");
    push_zero_padded(&mut s, t.hour as u64, 2);
    s.append("时");
    push_zero_padded(&mut s, t.minute as u64, 2);
    s.append("分");
    push_zero_padded(&mut s, t.second as u64, 2);
    s.append("秒");
    assert(s@ =~= target_date_text(*t));
    s
}

/// What the window shows once the target time is reached.
pub open spec fn started_text() -> Seq<char> {
    "开学了"@
}

/// The countdown text at `now` for `target`: the started message from the
/// target on; before it the target date, the whole seconds left and the
/// time left in words.
pub open spec fn countdown_text(target: LocalDateTime, now: Timestamp) -> Seq<char> {
    if now.not_before(target.instant) {
        started_text()
    } else {
        let left: int = whole_seconds_between(target.instant, now);
        "目标时间: "@ + target_date_text(target) + ";\n剩余秒数: "@ + decimal(left as nat) + " 秒;\n剩余时间："@
            + detailed_duration(left as nat) + "。"@
    }
}

/// Writes the countdown text at `now` for `target`.
pub fn format_countdown(target: &LocalDateTime, now: &Timestamp) -> (s: String)
    requires
        target.wf(),
        now.wf(),
    ensures
        s@ == countdown_text(*target, *now),
{
    if now.is_not_before(&target.instant) {
        return String::from_str("开学了");
    }
    let left: u64 = whole_seconds_until(&target.instant, now);
    let date = format_target_date(target);
    let detailed = format_duration_detailed(left);
    let mut s = String::from_str("目标时间: ");
    s.append(date.as_str());
    s.append(";\n剩余秒数: ");
    push_decimal(&mut s, left);
    s.append(" 秒;\n剩余时间：");
    s.append(detailed.as_str());
    s.append("。");
    assert(s@ =~= countdown_text(*target, *now));
    s
}

/// The countdown text shows the started message exactly when `now` has
/// reached the target.
pub proof fn lemma_started_iff_reached(target: LocalDateTime, now: Timestamp)
    ensures
        countdown_text(target, now) == started_text() <==> now.not_before(target.instant),
{
    reveal_strlit("开学了");
    reveal_strlit("目标时间: ");
    if !now.not_before(target.instant) {
        let s = countdown_text(target, now);
        assert(s[0] == '目');
        assert(started_text()[0] == '开');
    }
}

} // verus!
