//! The load of the processor, from the first line of `/proc/stat`.
use vstd::prelude::*;

use crate::number::{
    decimal_of, is_digit, lemma_decimal_digits, lemma_digits_value_grows, number_of,
    number_of_decimal, parse, without_plus,
};
use crate::reading::Reading;
use crate::text::{
    first_line, is_space, lines_in_turn, lines_of, starts_with, without_leading, words,
    words_in_turn, words_of,
};

verus! {

/// The time that the processor has spent since the machine was started, by what it did.
#[derive(Clone, Copy, Debug, PartialEq, Eq, Structural)]
pub struct CpuTimes {
    pub user: u64,
    pub nice: u64,
    pub system: u64,
    pub idle: u64,
    pub iowait: u64,
    pub irq: u64,
    pub softirq: u64,
}

impl CpuTimes {
    /// All time.
    pub open spec fn total(self) -> int {
        self.user + self.nice + self.system + self.idle + self.iowait + self.irq + self.softirq
    }

    /// The time in which the processor was at work.
    pub open spec fn active(self) -> int {
        self.user + self.nice + self.system + self.irq + self.softirq
    }

    /// Whether all time together fits in a `u64`.
    pub fn fits(&self) -> (r: bool)
        ensures
            r == (self.total() <= u64::MAX),
    {
        let all: u128 = self.user as u128 + self.nice as u128 + self.system as u128
            + self.idle as u128 + self.iowait as u128 + self.irq as u128 + self.softirq as u128;
        all <= u64::MAX as u128
    }
}

/// The number that a word writes, or zero.
pub open spec fn field_of(word: Seq<char>) -> u64 {
    match number_of(word, u64::MAX as int) {
        Some(n) => n as u64,
        None => 0,
    }
}

fn field(word: &str) -> (r: u64)
    ensures
        r == field_of(word@),
{
    match parse(word, u64::MAX) {
        Some(n) => n,
        None => 0,
    }
}

/// The times in these words of a line, of which the first is its name.
pub open spec fn times_of(words: Seq<Seq<char>>) -> CpuTimes {
    CpuTimes {
        user: field_of(words[1]),
        nice: field_of(words[2]),
        system: field_of(words[3]),
        idle: field_of(words[4]),
        iowait: field_of(words[5]),
        irq: field_of(words[6]),
        softirq: field_of(words[7]),
    }
}

/// The times that the text of `/proc/stat` gives: those of its first line, if it begins with
/// `cpu` and a space and has seven words behind its name.
pub open spec fn times_in(stat: Seq<char>) -> Option<CpuTimes> {
    let lines = lines_of(stat);
    if lines.len() > 0 && "cpu "@.is_prefix_of(lines[0]) && words_of(lines[0]).len() >= 8 {
        Some(times_of(words_of(lines[0])))
    } else {
        None
    }
}

/// The times that the text of `/proc/stat` gives, if it gives them.
pub fn cpu_times(stat: &str) -> (r: Option<CpuTimes>)
    ensures
        r == times_in(stat@),
{
    let line = match first_line(stat) {
        Some(line) => line,
        None => {
            return None;
        },
    };
    if !starts_with(line, "cpu ") {
        return None;
    }
    let parts = words(line);
    if parts.len() < 8 {
        return None;
    }
    assert forall|i: int| 0 <= i < parts.len() implies words_of(line@)[i] == (
    #[trigger] parts[i])@ by {
        assert(parts.deep_view()[i] == parts[i]@);
    }
    Some(
        CpuTimes {
            user: field(parts[1].as_str()),
            nice: field(parts[2].as_str()),
            system: field(parts[3].as_str()),
            idle: field(parts[4].as_str()),
            iowait: field(parts[5].as_str()),
            irq: field(parts[6].as_str()),
            softirq: field(parts[7].as_str()),
        },
    )
}

/// `now - before`, or zero.
pub open spec fn rise(now: int, before: int) -> int {
    if now >= before {
        now - before
    } else {
        0
    }
}

/// The load shown where the times were `before`, all time and the time at work, at the last look,
/// and are `now`: the share of the time since in which the processor was at work. Nothing is shown
/// at the first look, nor where no time has passed.
pub open spec fn load_of(before: Option<(u64, u64)>, now: CpuTimes) -> Reading {
    match before {
        Some((total, active)) => if now.total() > total {
            Reading::Percent {
                part: rise(now.active(), active as int) as u64,
                whole: rise(now.total(), total as int) as u64,
            }
        } else {
            Reading::Absent
        },
        None => Reading::Absent,
    }
}

/// The load of the processor since the last look, in percent, from the text of `/proc/stat`. A text
/// that gives no times shows nothing and is not remembered. All time together must fit in a `u64`;
/// [`cpu_times`] and [`CpuTimes::fits`] tell.
pub fn find_cpu_load(seen: &mut Option<(u64, u64)>, stat: &str) -> (r: Reading)
    requires
        times_in(stat@) matches Some(times) ==> times.total() <= u64::MAX,
    ensures
        match times_in(stat@) {
            Some(times) => {
                &&& r == load_of(*old(seen), times)
                &&& *final(seen) == Some((times.total() as u64, times.active() as u64))
            },
            None => r == Reading::Absent && *final(seen) == *old(seen),
        },
{
    match cpu_times(stat) {
        Some(t) => {
            let total: u64 = t.user + t.nice + t.system + t.idle + t.iowait + t.irq + t.softirq;
            let active: u64 = t.user + t.nice + t.system + t.irq + t.softirq;
            let r = match *seen {
                Some((seen_total, seen_active)) => {
                    let whole: u64 = total.saturating_sub(seen_total);
                    let part: u64 = active.saturating_sub(seen_active);
                    if whole > 0 {
                        Reading::Percent { part, whole }
                    } else {
                        Reading::Absent
                    }
                },
                None => Reading::Absent,
            };
            *seen = Some((total, active));
            r
        },
        None => Reading::Absent,
    }
}

/// The load never exceeds a hundred percent as long as the time at rest has not fallen, and never
/// is a share of nothing.
pub proof fn load_is_a_share(before: CpuTimes, now: CpuTimes)
    requires
        before.total() <= u64::MAX,
        now.total() <= u64::MAX,
        now.idle + now.iowait >= before.idle + before.iowait,
    ensures
        match load_of(Some((before.total() as u64, before.active() as u64)), now) {
            Reading::Percent { part, whole } => part <= whole && whole > 0,
            r => r == Reading::Absent,
        },
{
}

/// The times are there where the first line begins with `cpu` and a space and has eight words or
/// more. They are then what the words behind the name write, each in its place, and zero for a word
/// that writes no number.
pub proof fn times_stand_behind_the_name(stat: &str, r: Option<CpuTimes>)
    ensures
        call_ensures(cpu_times, (stat,), r) ==> {
            let lines = lines_of(stat@);
            let words = words_of(lines[0]);
            &&& r is Some <==> lines.len() > 0 && "cpu "@.is_prefix_of(lines[0]) && words.len() >= 8
            &&& r matches Some(t) ==> {
                let times = seq![t.user, t.nice, t.system, t.idle, t.iowait, t.irq, t.softirq];
                forall|i: int|
                    0 <= i < 7 ==> match number_of(words[i + 1], u64::MAX as int) {
                        Some(n) => #[trigger] times[i] == n,
                        None => #[trigger] times[i] == 0,
                    }
            }
        },
{
    if call_ensures(cpu_times, (stat,), r) && r is Some {
        let words = words_of(lines_of(stat@)[0]);
        assert forall|k: int| 1 <= k <= 7 implies match number_of(words[k], u64::MAX as int) {
            Some(n) => #[trigger] field_of(words[k]) == n,
            None => field_of(words[k]) == 0,
        } by {
            lemma_number_in_range(words[k]);
        }
        assert(field_of(words[1]) == r->0.user);
        assert(field_of(words[2]) == r->0.nice);
        assert(field_of(words[3]) == r->0.system);
        assert(field_of(words[4]) == r->0.idle);
        assert(field_of(words[5]) == r->0.iowait);
        assert(field_of(words[6]) == r->0.irq);
        assert(field_of(words[7]) == r->0.softirq);
    }
}

proof fn lemma_number_in_range(word: Seq<char>)
    ensures
        number_of(word, u64::MAX as int) matches Some(n) ==> 0 <= n <= u64::MAX,
{
    if number_of(word, u64::MAX as int) is Some {
        lemma_digits_value_grows(without_plus(word), 0);
    }
}

/// A look shows the load where there was a look before it and all time together has risen since, by
/// however much: the rise of the time at work, none if it fell, out of the rise of all time. It shows
/// nothing where it is the first, where all time has not risen, or where the text gives no times.
/// The times are remembered wherever the text gives them.
pub proof fn load_since_the_last_look(
    seen: &mut Option<(u64, u64)>,
    stat: &str,
    times: Option<CpuTimes>,
    r: Reading,
)
    requires
        call_ensures(cpu_times, (stat,), times),
        call_ensures(find_cpu_load, (seen, stat), r),
        times matches Some(t) ==> t.user + t.nice + t.system + t.idle + t.iowait + t.irq + t.softirq
            <= u64::MAX,
    ensures
        match times {
            Some(t) => {
                let work = t.user + t.nice + t.system + t.irq + t.softirq;
                let all = work + t.idle + t.iowait;
                &&& *final(seen) == Some((all as u64, work as u64))
                &&& *old(seen) is None ==> r == Reading::Absent
                &&& *old(seen) matches Some((all_before, work_before)) ==> {
                    &&& all <= all_before ==> r == Reading::Absent
                    &&& all > all_before && work >= work_before ==> r == (Reading::Percent {
                        part: (work - work_before) as u64,
                        whole: (all - all_before) as u64,
                    })
                    &&& all > all_before && work < work_before ==> r == (Reading::Percent {
                        part: 0,
                        whole: (all - all_before) as u64,
                    })
                }
            },
            None => r == Reading::Absent && *final(seen) == *old(seen),
        },
{
}

/// All time together is told to fit where it does.
pub proof fn all_time_fits(times: CpuTimes, r: bool)
    ensures
        call_ensures(CpuTimes::fits, (&times,), r) ==> (r <==> times.user + times.nice + times.system
            + times.idle + times.iowait + times.irq + times.softirq <= u64::MAX),
{
}

/// `s` goes on in a line: it has no line feed, begins with a space, and does not end with a carriage
/// return.
#[verifier::opaque]
spec fn goes_on(s: Seq<char>) -> bool {
    &&& forall|i: int| 0 <= i < s.len() ==> #[trigger] s[i] != '\n'
    &&& s.len() > 0 ==> s.first() == ' ' && s.last() != '\r'
}

proof fn lemma_one_more_time(n: u64, behind: Seq<char>)
    requires
        goes_on(behind),
    ensures
        goes_on(" "@ + decimal_of(n as nat) + behind),
        words_of(" "@ + decimal_of(n as nat) + behind) == seq![decimal_of(n as nat)] + words_of(
            behind,
        ),
        field_of(decimal_of(n as nat)) == n,
{
    reveal(goes_on);
    reveal_strlit(" ");
    let digits = decimal_of(n as nat);
    let all = " "@ + digits + behind;
    lemma_decimal_digits(n as nat);
    number_of_decimal(n as nat, u64::MAX as int);
    assert forall|i: int| 0 <= i < digits.len() implies !is_space(#[trigger] digits[i]) && digits[i]
        != '\n' && digits[i] != '\r' by {
        assert(is_digit(digits[i]));
    }
    words_in_turn(" "@, digits, behind);
    if behind.len() == 0 {
        assert(all.last() == digits[digits.len() - 1]);
    }
}

proof fn lemma_words_of_times(times: CpuTimes, more: Seq<char>) -> (t1: Seq<char>)
    requires
        goes_on(more),
    ensures
        t1 == " "@ + decimal_of(times.user as nat) + (" "@ + decimal_of(times.nice as nat) + (" "@
            + decimal_of(times.system as nat) + (" "@ + decimal_of(times.idle as nat) + (" "@
            + decimal_of(times.iowait as nat) + (" "@ + decimal_of(times.irq as nat) + (" "@
            + decimal_of(times.softirq as nat) + more)))))),
        goes_on(t1),
        t1.len() > 0,
        words_of(t1).len() >= 7,
        field_of(words_of(t1)[0]) == times.user,
        field_of(words_of(t1)[1]) == times.nice,
        field_of(words_of(t1)[2]) == times.system,
        field_of(words_of(t1)[3]) == times.idle,
        field_of(words_of(t1)[4]) == times.iowait,
        field_of(words_of(t1)[5]) == times.irq,
        field_of(words_of(t1)[6]) == times.softirq,
{
    reveal_strlit(" ");
    let t7 = " "@ + decimal_of(times.softirq as nat) + more;
    let t6 = " "@ + decimal_of(times.irq as nat) + t7;
    let t5 = " "@ + decimal_of(times.iowait as nat) + t6;
    let t4 = " "@ + decimal_of(times.idle as nat) + t5;
    let t3 = " "@ + decimal_of(times.system as nat) + t4;
    let t2 = " "@ + decimal_of(times.nice as nat) + t3;
    let t1 = " "@ + decimal_of(times.user as nat) + t2;
    lemma_one_more_time(times.softirq, more);
    lemma_one_more_time(times.irq, t7);
    lemma_one_more_time(times.iowait, t6);
    lemma_one_more_time(times.idle, t5);
    lemma_one_more_time(times.system, t4);
    lemma_one_more_time(times.nice, t3);
    lemma_one_more_time(times.user, t2);
    t1
}

/// What the kernel writes is what is read: seven times in decimal behind `cpu`, whatever stands
/// behind them in that line and in the lines below, are those seven times.
pub proof fn times_as_they_are_written(
    times: CpuTimes,
    more: Seq<char>,
    below: Seq<char>,
    stat: &str,
    r: Option<CpuTimes>,
)
    requires
        forall|i: int| 0 <= i < more.len() ==> #[trigger] more[i] != '\n',
        more.len() > 0 ==> more.first() == ' ' && more.last() != '\r',
        stat@ == ("cpu "@ + (" "@ + decimal_of(times.user as nat) + (" "@ + decimal_of(
            times.nice as nat,
        ) + (" "@ + decimal_of(times.system as nat) + (" "@ + decimal_of(times.idle as nat) + (" "@
            + decimal_of(times.iowait as nat) + (" "@ + decimal_of(times.irq as nat) + (" "@
            + decimal_of(times.softirq as nat) + more)))))))).push('\n') + below,
    ensures
        call_ensures(cpu_times, (stat,), r) ==> r == Some(times),
{
    assert(goes_on(more)) by {
        reveal(goes_on);
    }
    let t1 = lemma_words_of_times(times, more);
    let line = "cpu "@ + t1;
    lemma_named_line(t1, below);
    assert(stat@ == line.push('\n') + below);
    let words = words_of(line);
    assert(forall|i: int| 1 <= i <= 7 ==> #[trigger] words[i] == words_of(t1)[i - 1]);
}

proof fn lemma_named_line(t1: Seq<char>, below: Seq<char>)
    requires
        goes_on(t1),
        t1.len() > 0,
    ensures
        lines_of(("cpu "@ + t1).push('\n') + below).len() > 0,
        lines_of(("cpu "@ + t1).push('\n') + below)[0] == "cpu "@ + t1,
        "cpu "@.is_prefix_of("cpu "@ + t1),
        words_of("cpu "@ + t1).len() == 1 + words_of(t1).len(),
        forall|i: int|
            1 <= i < words_of("cpu "@ + t1).len() ==> #[trigger] words_of("cpu "@ + t1)[i]
                == words_of(t1)[i - 1],
{
    reveal(goes_on);
    reveal_strlit("cpu ");
    reveal_strlit(" ");
    let line = "cpu "@ + t1;
    let name = seq!['c', 'p', 'u'];
    assert(line =~= Seq::<char>::empty() + name + (" "@ + t1));
    words_in_turn(Seq::empty(), name, " "@ + t1);
    lemma_words_behind_a_space(t1);
    assert forall|i: int| 0 <= i < line.len() implies #[trigger] line[i] != '\n' by {
        if i >= 4 {
            assert(line[i] == t1[i - 4]);
        }
    }
    assert(line.last() == t1.last());
    lines_in_turn(line, below);
}

proof fn lemma_words_behind_a_space(s: Seq<char>)
    ensures
        words_of(" "@ + s) == words_of(s),
{
    reveal_strlit(" ");
    assert((" "@ + s).drop_first() =~= s);
    assert(without_leading(" "@ + s) == without_leading(s));
}

} // verus!
