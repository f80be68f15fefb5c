//! Unsigned decimal numbers as text, in both directions.
use vstd::prelude::*;

use crate::text::characters;

verus! {

/// A decimal digit.
pub open spec fn is_digit(c: char) -> bool {
    '0' <= c <= '9'
}

/// Whether `c` is a decimal digit.
pub fn digit(c: char) -> (r: bool)
    ensures
        r == is_digit(c),
{
    '0' <= c && c <= '9'
}

/// Every character of `s` is a decimal digit.
pub open spec fn all_digits(s: Seq<char>) -> bool {
    forall|i: int| 0 <= i < s.len() ==> is_digit(#[trigger] s[i])
}

/// The number that the digits of `s` stand for.
pub open spec fn digits_value(s: Seq<char>) -> int
    decreases s.len(),
{
    if s.len() == 0 {
        0
    } else {
        10 * digits_value(s.drop_last()) + (s.last() as int - '0' as int)
    }
}

/// `s` without one plus sign at its start.
pub open spec fn without_plus(s: Seq<char>) -> Seq<char> {
    if s.len() > 0 && s.first() == '+' {
        s.drop_first()
    } else {
        s
    }
}

/// The number no greater than `max` that `s` writes: at least one digit, after a plus sign or not,
/// and nothing else.
pub open spec fn number_of(s: Seq<char>, max: int) -> Option<int> {
    let d = without_plus(s);
    if d.len() > 0 && all_digits(d) && digits_value(d) <= max {
        Some(digits_value(d))
    } else {
        None
    }
}

pub(crate) proof fn lemma_digits_value_grows(s: Seq<char>, k: int)
    requires
        0 <= k <= s.len(),
        all_digits(s),
    ensures
        0 <= digits_value(s.take(k)) <= digits_value(s),
    decreases s.len(),
{
    if k == s.len() {
        assert(s.take(k) =~= s);
        if k > 0 {
            assert(is_digit(s[k - 1]));
            lemma_digits_value_grows(s.drop_last(), k - 1);
        }
    } else {
        assert(is_digit(s[s.len() - 1]));
        lemma_digits_value_grows(s.drop_last(), k);
        assert(s.drop_last().take(k) =~= s.take(k));
    }
}

/// The number no greater than `max` that the text writes, if it writes one.
pub fn parse(s: &str, max: u64) -> (r: Option<u64>)
    ensures
        match r {
            Some(n) => number_of(s@, max as int) == Some(n as int),
            None => number_of(s@, max as int) is None,
        },
{
    let v = characters(s);
    let from: usize = if v.len() > 0 && v[0] == '+' {
        1
    } else {
        0
    };
    let ghost d = without_plus(s@);
    assert(d =~= v@.skip(from as int));
    if from == v.len() {
        return None;
    }
    let mut i: usize = from;
    let mut n: u64 = 0;
    while i < v.len()
        invariant
            from <= i <= v.len(),
            d == without_plus(s@),
            d == v@.skip(from as int),
            all_digits(d.take(i - from)),
            n == digits_value(d.take(i - from)),
            n <= max,
        decreases v.len() - i,
    {
        let ghost k = i - from;
        assert(d.take(k + 1).drop_last() =~= d.take(k));
        assert(d[k] == v@[i as int]);
        if !digit(v[i]) {
            return None;
        }
        let x: u64 = (v[i] as u32 - '0' as u32) as u64;
        assert(digits_value(d.take(k + 1)) == 10 * n + x);
        if n > max / 10 || x > max - 10 * n {
            proof {
                if all_digits(d) {
                    lemma_digits_value_grows(d, k + 1);
                }
            }
            return None;
        }
        n = 10 * n + x;
        i = i + 1;
        assert(all_digits(d.take(k + 1))) by {
            assert forall|j: int| 0 <= j < k + 1 implies is_digit(#[trigger] d.take(k + 1)[j]) by {
                if j < k {
                    assert(is_digit(d.take(k)[j]));
                }
            }
        }
    }
    assert(d.take(i - from) =~= d);
    Some(n)
}

/// The digit of `n`.
pub open spec fn digit_of(n: nat) -> char {
    (48 + n) as char
}

/// `n` in decimal, without leading zeros.
pub open spec fn decimal_of(n: nat) -> Seq<char>
    decreases n,
{
    if n < 10 {
        seq![digit_of(n)]
    } else {
        decimal_of(n / 10).push(digit_of(n % 10))
    }
}

fn digit_text(n: u32) -> (r: &'static str)
    requires
        n < 10,
    ensures
        r@ == seq![digit_of(n as nat)],
{
    proof {
        reveal_strlit("0");
        reveal_strlit("1");
        reveal_strlit("2");
        reveal_strlit("3");
        reveal_strlit("4");
        reveal_strlit("5");
        reveal_strlit("6");
        reveal_strlit("7");
        reveal_strlit("8");
        reveal_strlit("9");
    }
    match n {
        0 => "0",
        1 => "1",
        2 => "2",
        3 => "3",
        4 => "4",
        5 => "5",
        6 => "6",
        7 => "7",
        8 => "8",
        _ => "9",
    }
}

/// The number in decimal, without leading zeros.
pub fn decimal(n: u32) -> (r: String)
    ensures
        r@ == decimal_of(n as nat),
    decreases n,
{
    if n < 10 {
        digit_text(n).to_owned()
    } else {
        let r = decimal(n / 10).concat(digit_text(n % 10));
        assert(r@ =~= decimal_of(n as nat / 10).push(digit_of(n as nat % 10)));
        r
    }
}

/// Reading a number that was written in decimal gives the number back.
pub proof fn number_of_decimal(n: nat, max: int)
    requires
        n <= max,
    ensures
        number_of(decimal_of(n), max) == Some(n as int),
{
    lemma_decimal_digits(n);
    let s = decimal_of(n);
    assert(is_digit(s[0]));
    assert(without_plus(s) == s);
}

pub(crate) proof fn lemma_decimal_digits(n: nat)
    ensures
        decimal_of(n).len() > 0,
        all_digits(decimal_of(n)),
        digits_value(decimal_of(n)) == n,
    decreases n,
{
    let s = decimal_of(n);
    if n < 10 {
        assert(s.drop_last() =~= Seq::empty());
        assert(digits_value(Seq::<char>::empty()) == 0);
    } else {
        lemma_decimal_digits(n / 10);
        assert(s.drop_last() =~= decimal_of(n / 10));
        assert forall|i: int| 0 <= i < s.len() implies is_digit(#[trigger] s[i]) by {
            if i < s.len() - 1 {
                assert(is_digit(decimal_of(n / 10)[i]));
            }
        }
    }
}

/// The decimal digits are these ten characters and no others.
pub proof fn ten_digits(c: char)
    ensures
        is_digit(c) <==> "0123456789"@.contains(c),
{
    reveal_strlit("0123456789");
    let all = "0123456789"@;
    if is_digit(c) {
        assert(all[c as int - '0' as int] == c);
    }
}

proof fn lemma_ten_digits(d: int)
    requires
        0 <= d < 10,
    ensures
        "0123456789"@.len() == 10,
        "0123456789"@[d] as int == '0' as int + d,
        is_digit("0123456789"@[d]),
{
    reveal_strlit("0123456789");
}

/// One digit writes its number. A further digit behind a number makes it ten times as great and adds
/// itself. A plus sign in front of the digits changes nothing.
pub proof fn number_with_a_further_digit(s: Seq<char>, d: int, max: int)
    requires
        0 <= d < 10,
    ensures
        number_of(seq!["0123456789"@[d]], max) == (if d <= max {
            Some(d)
        } else {
            None
        }),
        number_of(seq!['+', "0123456789"@[d]], max) == number_of(seq!["0123456789"@[d]], max),
        number_of(s, max) matches Some(n) ==> number_of(s.push("0123456789"@[d]), max) == (if 10 * n
            + d <= max {
            Some(10 * n + d)
        } else {
            None
        }),
        s.len() > 0 && s != seq!['+'] && number_of(s, max) is None ==> number_of(
            s.push("0123456789"@[d]),
            max,
        ) is None,
{
    lemma_ten_digits(d);
    let c = "0123456789"@[d];
    let one = seq![c];
    assert(one.drop_last() =~= Seq::empty());
    assert(digits_value(Seq::<char>::empty()) == 0);
    assert(digits_value(one) == d);
    assert(c != '+');
    assert(without_plus(one) == one);
    assert(without_plus(seq!['+', c]) =~= one);
    if s.len() > 0 {
        let before = without_plus(s);
        let after = without_plus(s.push(c));
        assert(after =~= before.push(c));
        assert(after.drop_last() =~= before);
        if all_digits(before) {
            assert forall|i: int| 0 <= i < after.len() implies is_digit(#[trigger] after[i]) by {
                if i < before.len() {
                    assert(is_digit(before[i]));
                }
            }
            lemma_digits_value_grows(before, before.len() as int);
            if before.len() == 0 {
                assert(s =~= seq!['+']);
            }
        } else {
            let i = choose|i: int| 0 <= i < before.len() && !is_digit(#[trigger] before[i]);
            assert(after[i] == before[i]);
        }
    }
}

/// No number is written by nothing, by a text that ends with anything but a digit, or by one that
/// has anything but a digit in it behind its first character.
pub proof fn no_number_without_digits(s: Seq<char>, max: int)
    ensures
        s.len() == 0 ==> number_of(s, max) is None,
        s.len() > 0 && !"0123456789"@.contains(s.last()) ==> number_of(s, max) is None,
        forall|i: int|
            0 < i < s.len() && !"0123456789"@.contains(#[trigger] s[i]) ==> number_of(s, max)
                is None,
        s.len() > 0 && s.first() != '+' && !"0123456789"@.contains(s.first()) ==> number_of(
            s,
            max,
        ) is None,
{
    let d = without_plus(s);
    assert forall|i: int|
        0 <= i < s.len() && !"0123456789"@.contains(#[trigger] s[i]) && (i > 0 || s.first()
            != '+') implies number_of(s, max) is None by {
        ten_digits(s[i]);
        let k = i - (s.len() - d.len());
        assert(d[k] == s[i]);
    }
    if s.len() > 0 && !"0123456789"@.contains(s.last()) {
        assert(s[s.len() - 1] == s.last());
    }
}

/// A number below ten is written by its digit, and ten times a number, and a digit more, by that
/// digit behind the number.
pub proof fn decimal_with_a_further_digit(n: nat, d: int)
    requires
        0 <= d < 10,
    ensures
        decimal_of(d as nat) == seq!["0123456789"@[d]],
        n > 0 ==> decimal_of((10 * n + d) as nat) == decimal_of(n).push("0123456789"@[d]),
{
    lemma_ten_digits(d);
    assert(digit_of(d as nat) == "0123456789"@[d]);
    if n > 0 {
        let m = (10 * n + d) as nat;
        assert(m / 10 == n && m % 10 == d);
    }
}

} // verus!
